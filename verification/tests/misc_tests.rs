use chainsync::exchange::{ContractError, ExchangeFunction, OrderError};
use chainsync::opcode::{Opcode, Type};
use chainsync::list::NodeIdList;
use chainsync::privmsg::{adjusted_timestamp, mark_seen, relay_channel, relay_nick, Privmsg, RECENT_TIME_DIST};
use chainsync::rpc::ErrorCode;

#[test]
fn error_codes_are_exact() {
    assert_eq!(ErrorCode::ParseError.code(), -32700);
    assert_eq!(ErrorCode::InvalidRequest.code(), -32600);
    assert_eq!(ErrorCode::MethodNotFound.code(), -32601);
    assert_eq!(ErrorCode::InvalidParams.code(), -32602);
    assert_eq!(ErrorCode::InternalError.code(), -32603);
    assert_eq!(ErrorCode::KeyGenError.code(), -32002);
    assert_eq!(ErrorCode::GetAddressesError.code(), -32003);
    assert_eq!(ErrorCode::ImportAndExportFile.code(), -32004);
    assert_eq!(ErrorCode::SetDefaultAddress.code(), -32005);
    assert_eq!(ErrorCode::InvalidAmountParam.code(), -32010);
    assert_eq!(ErrorCode::InvalidNetworkParam.code(), -32011);
    assert_eq!(ErrorCode::InvalidTokenIdParam.code(), -32012);
    assert_eq!(ErrorCode::InvalidAddressParam.code(), -32013);
    assert_eq!(ErrorCode::InvalidSymbolParam.code(), -32014);
    assert_eq!(ErrorCode::ServerError(-12345).code(), -12345);
}

#[test]
fn error_descriptions_are_exact() {
    assert_eq!(ErrorCode::ParseError.description(), "Parse error");
    assert_eq!(ErrorCode::InvalidRequest.description(), "Invalid request");
    assert_eq!(ErrorCode::MethodNotFound.description(), "Method not found");
    assert_eq!(ErrorCode::InvalidParams.description(), "Invalid params");
    assert_eq!(ErrorCode::InternalError.description(), "Internal error");
    assert_eq!(ErrorCode::GetAddressesError.description(), "get addresses error");
    assert_eq!(ErrorCode::ServerError(7).description(), "Server error");
}

#[test]
fn opcode_types_are_exact() {
    assert_eq!(
        Opcode::EcAdd.arg_types(),
        (vec![Type::EcPoint], vec![Type::EcPoint, Type::EcPoint])
    );
    assert_eq!(
        Opcode::EcMul.arg_types(),
        (vec![Type::EcPoint], vec![Type::Scalar, Type::EcFixedPoint])
    );
    assert_eq!(
        Opcode::EcMulShort.arg_types(),
        (vec![Type::EcPoint], vec![Type::Base, Type::EcFixedPoint])
    );
    assert_eq!(Opcode::EcGetX.arg_types(), (vec![Type::Base], vec![Type::EcPoint]));
    assert_eq!(Opcode::PoseidonHash.arg_types(), (vec![Type::Base], vec![Type::BaseArray]));
    assert_eq!(
        Opcode::CalculateMerkleRoot.arg_types(),
        (vec![Type::Base], vec![Type::Uint32, Type::MerklePath, Type::Base])
    );
    assert_eq!(Opcode::ConstrainInstance.arg_types(), (vec![], vec![Type::Base]));
    assert_eq!(Opcode::Noop.arg_types(), (vec![], vec![]));
}

#[test]
fn exchange_function_selector() {
    assert_eq!(ExchangeFunction::try_from(0), Ok(ExchangeFunction::OrderMatch));
    assert_eq!(ExchangeFunction::try_from(1), Err(ContractError::InvalidFunction));
    assert_eq!(ExchangeFunction::try_from(0xFF), Err(ContractError::InvalidFunction));
}

#[test]
fn order_errors_map_to_custom_codes() {
    assert_eq!(ContractError::from(OrderError::OrderMissingInputs), ContractError::Custom(1));
    assert_eq!(ContractError::from(OrderError::DuplicateCoin), ContractError::Custom(7));
    assert_eq!(ContractError::from(OrderError::SwapMerkleRootNotFound), ContractError::Custom(13));
    assert_eq!(ContractError::from(OrderError::InsufficientFee), ContractError::Custom(23));
    assert_eq!(ContractError::from(OrderError::ShortTimeoutDuration), ContractError::Custom(27));
}

#[test]
fn privmsg_id_is_the_digest_of_its_encoding() {
    let msg = Privmsg::new("#dev".to_string(), "alice".to_string(), "hi there".to_string());
    let id = msg.msg_id(42);

    // The identifier hashes: timestamp, then each field prefixed with
    // its length (all short enough for one-byte prefixes).
    let mut bytes = Vec::new();
    bytes.extend_from_slice(&42u64.to_le_bytes());
    for field in ["#dev", "alice", "hi there"] {
        bytes.push(field.len() as u8);
        bytes.extend_from_slice(field.as_bytes());
    }
    assert_eq!(id.bytes, *blake3::hash(&bytes).as_bytes());

    // A different nick gives a different identifier.
    let other = Privmsg::new("#dev".to_string(), "bob".to_string(), "hi there".to_string());
    assert_ne!(other.msg_id(42), id);
    assert_ne!(msg.msg_id(43), id);
}

#[test]
fn privmsg_new_stores_fields() {
    let msg = Privmsg::new("#a".to_string(), "n".to_string(), "m".to_string());
    assert_eq!(msg.channel, "#a");
    assert_eq!(msg.nick, "n");
    assert_eq!(msg.msg, "m");
}

#[test]
fn relay_timestamp_correction() {
    let now: u64 = 1_000_000;
    // Within the window, in either direction: corrected to now.
    assert_eq!(adjusted_timestamp(now - 10, now), now);
    assert_eq!(adjusted_timestamp(now + 10, now), now);
    assert_eq!(adjusted_timestamp(now - (RECENT_TIME_DIST - 1), now), now);
    // Outside the window: kept.
    assert_eq!(adjusted_timestamp(now - RECENT_TIME_DIST, now), now - RECENT_TIME_DIST);
    assert_eq!(adjusted_timestamp(0, now), 0);
}

#[test]
fn relay_skips_duplicate_messages() {
    let msg = Privmsg::new("#dev".to_string(), "alice".to_string(), "hello".to_string());
    let id1 = msg.msg_id(1);
    let id2 = msg.msg_id(2);
    let mut seen = Vec::new();
    assert!(mark_seen(&mut seen, &id1));
    assert!(!mark_seen(&mut seen, &id1));
    assert!(mark_seen(&mut seen, &id2));
    assert_eq!(seen.len(), 2);
}

#[test]
fn relay_channel_gating() {
    assert_eq!(relay_channel("#dev"), Some("dev".to_string()));
    assert_eq!(relay_channel("#"), Some("".to_string()));
    assert_eq!(relay_channel(""), None, "empty channel is skipped");
    assert_eq!(relay_channel("secret"), None, "encrypted channel is skipped");
}

#[test]
fn relay_nick_remaps_reserved_name() {
    assert_eq!(relay_nick("NOTICE".to_string()), "noticer");
    assert_eq!(relay_nick("alice".to_string()), "alice");
    assert_eq!(relay_nick("notice".to_string()), "notice");
}

#[test]
fn node_id_list_selection_wraps() {
    let ids = vec!["a".to_string(), "b".to_string(), "c".to_string()];
    let mut list = NodeIdList::new(ids);
    assert_eq!(list.selected, None);
    list.next();
    assert_eq!(list.selected, Some(0));
    list.next();
    list.next();
    assert_eq!(list.selected, Some(2));
    list.next();
    assert_eq!(list.selected, Some(0), "next wraps to the top");
    list.previous();
    assert_eq!(list.selected, Some(2), "previous wraps to the bottom");
    list.previous();
    assert_eq!(list.selected, Some(1));
    list.unselect();
    assert_eq!(list.selected, None);
    list.previous();
    assert_eq!(list.selected, Some(0), "previous from nothing starts at the top");
}
