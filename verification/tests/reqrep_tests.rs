use chainsync::codec::decode_bool;
use chainsync::reqrep::{reply_payload, Reply, Request};

#[test]
fn serialize_and_deserialize_request_test() {
    let request = Request::new(2, vec![2, 3, 4, 6, 4]);
    let serialized_request = request.encode();
    assert!(decode_bool(&serialized_request).is_none());
    let deserialized_request = Request::decode(&serialized_request);
    assert_eq!(deserialized_request, Some(request));
}

#[test]
fn serialize_and_deserialize_reply_test() {
    let request = Request::new(2, vec![2, 3, 4, 6, 4]);
    let reply = Reply::from(&request, 0, vec![2, 3, 4, 6, 4]);
    let serialized_reply = reply.encode();
    assert!(decode_bool(&serialized_reply).is_none());
    let deserialized_reply = Reply::decode(&serialized_reply);
    assert_eq!(deserialized_reply, Some(reply));
}

#[test]
fn request_wire_layout() {
    let request = Request { command: 7, id: 0x0403_0201, payload: vec![0xAA, 0xBB] };
    let bytes = request.encode();
    assert_eq!(bytes, vec![7, 0x01, 0x02, 0x03, 0x04, 2, 0xAA, 0xBB]);
    assert_eq!(Request::decode(&bytes), Some(request));
}

#[test]
fn reply_wire_layout_and_errors() {
    let reply = Reply { id: 1, error: 0x100, payload: Vec::new() };
    assert!(reply.has_error());
    let ok = Reply { id: 1, error: 0, payload: Vec::new() };
    assert!(!ok.has_error());
    let bytes = reply.encode();
    assert_eq!(bytes, vec![1, 0, 0, 0, 0, 1, 0, 0, 0]);
    assert_eq!(Reply::decode(&bytes), Some(reply));
}

#[test]
fn decode_rejects_trailing_and_truncated_input() {
    let request = Request::new(1, vec![9, 9]);
    let mut bytes = request.encode();
    bytes.push(0);
    assert_eq!(Request::decode(&bytes), None, "trailing byte");
    let mut short = request.encode();
    short.pop();
    assert_eq!(Request::decode(&short), None, "truncated payload");
    assert_eq!(Request::decode(&vec![1, 2, 3]), None, "too short for a header");
}

#[test]
fn decode_rejects_non_canonical_length_prefix() {
    // Payload length 1 written in the 3-byte form: the canonical
    // encoding would be a single byte, so decoding must refuse it.
    let bytes = vec![5, 0, 0, 0, 0, 0xFD, 1, 0, 0xAA];
    assert_eq!(Request::decode(&bytes), None);
}

#[test]
fn large_payload_round_trip() {
    let payload: Vec<u8> = (0..1000u32).map(|i| (i % 251) as u8).collect();
    let request = Request::new(3, payload.clone());
    assert_eq!(request.get_command(), 3);
    assert_eq!(request.get_payload(), payload);
    let bytes = request.encode();
    // 1000 needs the 3-byte length form.
    assert_eq!(bytes[5], 0xFD);
    assert_eq!(&bytes[6..8], &[0xE8, 0x03]);
    let back = Request::decode(&bytes).unwrap();
    assert_eq!(back.get_id(), request.get_id());
    assert_eq!(back, request);
}

#[test]
fn reply_carries_the_request_id() {
    let request = Request::new(2, Vec::new());
    let reply = Reply::from(&request, 0, vec![1]);
    assert_eq!(reply.get_id(), request.get_id());
    assert_eq!(reply.get_payload(), vec![1]);
}

#[test]
fn decode_bool_accepts_exactly_one_canonical_byte() {
    assert_eq!(decode_bool(&vec![0]), Some(false));
    assert_eq!(decode_bool(&vec![1]), Some(true));
    assert_eq!(decode_bool(&vec![2]), None);
    assert_eq!(decode_bool(&vec![]), None);
    assert_eq!(decode_bool(&vec![0, 0]), None);
}

#[test]
fn reply_payload_rejects_error_replies() {
    let request = Request::new(2, vec![1]);
    let ok = Reply::from(&request, 0, vec![7, 8]);
    assert_eq!(reply_payload(&request, &ok), Some(vec![7, 8]));
    let failed = Reply::from(&request, 3, vec![7, 8]);
    assert_eq!(reply_payload(&request, &failed), None);
}
