//! The error codes of the JSON-RPC surface.

use vstd::prelude::*;

verus! {

/// An error a JSON-RPC handler can report.
#[derive(Clone, Copy, PartialEq, Eq, Debug)]
pub enum ErrorCode {
    ParseError,
    InvalidRequest,
    MethodNotFound,
    InvalidParams,
    InternalError,
    KeyGenError,
    GetAddressesError,
    ImportAndExportFile,
    SetDefaultAddress,
    InvalidAmountParam,
    InvalidNetworkParam,
    InvalidTokenIdParam,
    InvalidAddressParam,
    InvalidSymbolParam,
    ServerError(i64),
}

/// The numeric code reported for each error.
pub open spec fn code_of(e: ErrorCode) -> int {
    match e {
        ErrorCode::ParseError => -32700,
        ErrorCode::InvalidRequest => -32600,
        ErrorCode::MethodNotFound => -32601,
        ErrorCode::InvalidParams => -32602,
        ErrorCode::InternalError => -32603,
        ErrorCode::KeyGenError => -32002,
        ErrorCode::GetAddressesError => -32003,
        ErrorCode::ImportAndExportFile => -32004,
        ErrorCode::SetDefaultAddress => -32005,
        ErrorCode::InvalidAmountParam => -32010,
        ErrorCode::InvalidNetworkParam => -32011,
        ErrorCode::InvalidTokenIdParam => -32012,
        ErrorCode::InvalidAddressParam => -32013,
        ErrorCode::InvalidSymbolParam => -32014,
        ErrorCode::ServerError(c) => c as int,
    }
}

/// The description reported for each error.
pub open spec fn description_of(e: ErrorCode) -> Seq<char> {
    match e {
        ErrorCode::ParseError => "Parse error"@,
        ErrorCode::InvalidRequest => "Invalid request"@,
        ErrorCode::MethodNotFound => "Method not found"@,
        ErrorCode::InvalidParams => "Invalid params"@,
        ErrorCode::InternalError => "Internal error"@,
        ErrorCode::KeyGenError => "Key gen error"@,
        ErrorCode::GetAddressesError => "get addresses error"@,
        ErrorCode::ImportAndExportFile => "error import/export a file"@,
        ErrorCode::SetDefaultAddress => "error set default address"@,
        ErrorCode::InvalidAmountParam => "Invalid amount param"@,
        ErrorCode::InvalidNetworkParam => "Invalid network param"@,
        ErrorCode::InvalidTokenIdParam => "Invalid token id param"@,
        ErrorCode::InvalidAddressParam => "Invalid address param"@,
        ErrorCode::InvalidSymbolParam => "Invalid symbol param"@,
        ErrorCode::ServerError(_) => "Server error"@,
    }
}

impl ErrorCode {
    /// The error's numeric code.
    pub fn code(&self) -> (r: i64)
        ensures
            r == code_of(*self),
    {
        match *self {
            ErrorCode::ParseError => -32700,
            ErrorCode::InvalidRequest => -32600,
            ErrorCode::MethodNotFound => -32601,
            ErrorCode::InvalidParams => -32602,
            ErrorCode::InternalError => -32603,
            ErrorCode::KeyGenError => -32002,
            ErrorCode::GetAddressesError => -32003,
            ErrorCode::ImportAndExportFile => -32004,
            ErrorCode::SetDefaultAddress => -32005,
            ErrorCode::InvalidAmountParam => -32010,
            ErrorCode::InvalidNetworkParam => -32011,
            ErrorCode::InvalidTokenIdParam => -32012,
            ErrorCode::InvalidAddressParam => -32013,
            ErrorCode::InvalidSymbolParam => -32014,
            ErrorCode::ServerError(c) => c,
        }
    }

    /// The error's description.
    pub fn description(&self) -> (r: String)
        ensures
            r@ == description_of(*self),
    {
        let desc: &str = match *self {
            ErrorCode::ParseError => "Parse error",
            ErrorCode::InvalidRequest => "Invalid request",
            ErrorCode::MethodNotFound => "Method not found",
            ErrorCode::InvalidParams => "Invalid params",
            ErrorCode::InternalError => "Internal error",
            ErrorCode::KeyGenError => "Key gen error",
            ErrorCode::GetAddressesError => "get addresses error",
            ErrorCode::ImportAndExportFile => "error import/export a file",
            ErrorCode::SetDefaultAddress => "error set default address",
            ErrorCode::InvalidAmountParam => "Invalid amount param",
            ErrorCode::InvalidNetworkParam => "Invalid network param",
            ErrorCode::InvalidTokenIdParam => "Invalid token id param",
            ErrorCode::InvalidAddressParam => "Invalid address param",
            ErrorCode::InvalidSymbolParam => "Invalid symbol param",
            ErrorCode::ServerError(_) => "Server error",
        };
        desc.to_owned()
    }
}

} // verus!
