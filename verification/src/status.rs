//! Protocol-neutral status codes and their HTTP and gRPC forms.
use crate::error::Error;
use vstd::prelude::*;
use vstd::string::StringExecFns;

verus! {

/// Smallest valid status code.
pub const MIN_STATUS: u16 = 100;

/// First value past the valid status codes.
pub const END_STATUS: u16 = 999;

/// Whether a number is a valid status code.
pub open spec fn is_valid_status(code: u16) -> bool {
    MIN_STATUS <= code && code < END_STATUS
}

/// Represents a status code, independent of the protocol that carries it.
#[derive(Debug, Clone, Copy, PartialEq, Eq, Structural, Hash)]
pub struct StatusCode {
    code: u16,
}

impl View for StatusCode {
    type V = u16;

    closed spec fn view(&self) -> u16 {
        self.code
    }
}

impl StatusCode {
    #[verifier::type_invariant]
    spec fn in_range(self) -> bool {
        is_valid_status(self.code)
    }

    /// Builds a status code from a number, rejecting numbers out of range.
    pub fn from_u16(code: u16) -> (r: Result<StatusCode, Error>)
        ensures
            is_valid_status(code) ==> r is Ok && r->Ok_0@ == code,
            !is_valid_status(code) ==> r is Err && r->Err_0 is Invalid
                && r->Err_0.spec_detail() == "invalid status code"@,
    {
        if code < MIN_STATUS || code >= END_STATUS {
            return Err(Error::Invalid(String::from_str("invalid status code")));
        }
        Ok(StatusCode { code })
    }

    /// Returns the code as a number.
    pub fn as_u16(&self) -> (r: u16)
        ensures
            r == self@,
            is_valid_status(r),
    {
        proof {
            use_type_invariant(self);
        }
        self.code
    }

    /// True for codes in 100..200.
    pub fn is_informational(&self) -> (r: bool)
        ensures
            r == (100 <= self@ < 200),
    {
        100 <= self.code && self.code < 200
    }

    /// True for codes in 200..300.
    pub fn is_success(&self) -> (r: bool)
        ensures
            r == (200 <= self@ < 300),
    {
        200 <= self.code && self.code < 300
    }

    /// True for codes in 300..400.
    pub fn is_redirection(&self) -> (r: bool)
        ensures
            r == (300 <= self@ < 400),
    {
        300 <= self.code && self.code < 400
    }

    /// True for codes in 400..600.
    pub fn is_error(&self) -> (r: bool)
        ensures
            r == (400 <= self@ < 600),
    {
        400 <= self.code && self.code < 600
    }

    /// Same as `is_success`.
    pub fn is_ok(&self) -> (r: bool)
        ensures
            r == (200 <= self@ < 300),
    {
        self.is_success()
    }

    /// Returns the number of the HTTP status that carries this code.
    pub fn as_http(&self) -> (r: u16)
        ensures
            r == self@,
            100 <= r <= 999,
    {
        self.as_u16()
    }

    /// Returns the gRPC code that this status maps to.
    pub fn as_grpc(&self) -> (r: Code)
        ensures
            r == grpc_code_of(self@),
    {
        Code::from_http(*self)
    }

    /// Returns the number of the gRPC code that this status maps to.
    pub fn as_grpc_i32(&self) -> (r: i32)
        ensures
            r == grpc_code_of(self@).spec_value(),
    {
        self.as_grpc().value()
    }

    /// 200 OK.
    pub fn ok() -> (r: StatusCode)
        ensures
            r@ == 200,
    {
        StatusCode { code: 200 }
    }

    /// 400 Bad Request.
    pub fn bad_request() -> (r: StatusCode)
        ensures
            r@ == 400,
    {
        StatusCode { code: 400 }
    }

    /// 401 Unauthorized.
    pub fn unauthorized() -> (r: StatusCode)
        ensures
            r@ == 401,
    {
        StatusCode { code: 401 }
    }

    /// 403 Forbidden.
    pub fn forbidden() -> (r: StatusCode)
        ensures
            r@ == 403,
    {
        StatusCode { code: 403 }
    }

    /// 404 Not Found.
    pub fn not_found() -> (r: StatusCode)
        ensures
            r@ == 404,
    {
        StatusCode { code: 404 }
    }

    /// 405 Method Not Allowed.
    pub fn method_not_allowed() -> (r: StatusCode)
        ensures
            r@ == 405,
    {
        StatusCode { code: 405 }
    }

    /// 415 Unsupported Media Type.
    pub fn unsupported_media_type() -> (r: StatusCode)
        ensures
            r@ == 415,
    {
        StatusCode { code: 415 }
    }

    /// 422 Unprocessable Entity.
    pub fn unprocessable_entity() -> (r: StatusCode)
        ensures
            r@ == 422,
    {
        StatusCode { code: 422 }
    }

    /// 500 Internal Server Error.
    pub fn internal_server_error() -> (r: StatusCode)
        ensures
            r@ == 500,
    {
        StatusCode { code: 500 }
    }

    /// 501 Not Implemented.
    pub fn not_implemented() -> (r: StatusCode)
        ensures
            r@ == 501,
    {
        StatusCode { code: 501 }
    }

    /// 502 Bad Gateway.
    pub fn bad_gateway() -> (r: StatusCode)
        ensures
            r@ == 502,
    {
        StatusCode { code: 502 }
    }

    /// 503 Service Unavailable.
    pub fn service_unavailable() -> (r: StatusCode)
        ensures
            r@ == 503,
    {
        StatusCode { code: 503 }
    }

    /// 504 Gateway Timeout.
    pub fn gateway_timeout() -> (r: StatusCode)
        ensures
            r@ == 504,
    {
        StatusCode { code: 504 }
    }
}

impl Default for StatusCode {
    fn default() -> (r: StatusCode)
        ensures
            r@ == 200,
    {
        StatusCode::ok()
    }
}

/// Represents a gRPC status code.
#[derive(Clone, Copy, Debug, PartialEq, Eq, Structural, Hash)]
pub enum Code {
    /// The operation completed successfully.
    OK,
    /// The operation was cancelled.
    Cancelled,
    /// Unknown error.
    Unknown,
    /// Client specified an invalid argument.
    InvalidArgument,
    /// Deadline expired before operation could complete.
    DeadlineExceeded,
    /// Some requested entity was not found.
    NotFound,
    /// Some entity that we attempted to create already exists.
    AlreadyExists,
    /// The caller does not have permission to execute the specified operation.
    PermissionDenied,
    /// Some resource has been exhausted.
    ResourceExhausted,
    /// The system is not in a state required for the operation's execution.
    FailedPrecondition,
    /// The operation was aborted.
    Aborted,
    /// Operation was attempted past the valid range.
    OutOfRange,
    /// Operation is not implemented or not supported.
    Unimplemented,
    /// Internal error.
    Internal,
    /// The service is currently unavailable.
    Unavailable,
    /// Unrecoverable data loss or corruption.
    DataLoss,
    /// The request does not have valid authentication credentials.
    Unauthenticated,
}

/// The fixed table from status numbers to gRPC codes.
pub open spec fn grpc_code_of(code: u16) -> Code {
    if code == 200 {
        Code::OK
    } else if code == 400 || code == 422 {
        Code::InvalidArgument
    } else if code == 401 {
        Code::Unauthenticated
    } else if code == 403 {
        Code::PermissionDenied
    } else if code == 404 {
        Code::NotFound
    } else if code == 429 || code == 502 || code == 503 || code == 504 {
        Code::Unavailable
    } else if code == 500 {
        Code::Internal
    } else if code == 501 {
        Code::Unimplemented
    } else {
        Code::Unknown
    }
}

impl Code {
    /// The number that stands for the code on the wire.
    pub open spec fn spec_value(&self) -> i32 {
        match self {
            Code::OK => 0,
            Code::Cancelled => 1,
            Code::Unknown => 2,
            Code::InvalidArgument => 3,
            Code::DeadlineExceeded => 4,
            Code::NotFound => 5,
            Code::AlreadyExists => 6,
            Code::PermissionDenied => 7,
            Code::ResourceExhausted => 8,
            Code::FailedPrecondition => 9,
            Code::Aborted => 10,
            Code::OutOfRange => 11,
            Code::Unimplemented => 12,
            Code::Internal => 13,
            Code::Unavailable => 14,
            Code::DataLoss => 15,
            Code::Unauthenticated => 16,
        }
    }

    /// The human-readable description of the code.
    pub open spec fn spec_description(&self) -> Seq<char> {
        match self {
            Code::OK => "The operation completed successfully"@,
            Code::Cancelled => "The operation was cancelled"@,
            Code::Unknown => "Unknown error"@,
            Code::InvalidArgument => "Client specified an invalid argument"@,
            Code::DeadlineExceeded => "Deadline expired before operation could complete"@,
            Code::NotFound => "Some requested entity was not found"@,
            Code::AlreadyExists => "Some entity that we attempted to create already exists"@,
            Code::PermissionDenied => "The caller does not have permission to execute the specified operation"@,
            Code::ResourceExhausted => "Some resource has been exhausted"@,
            Code::FailedPrecondition => "The system is not in a state required for the operation's execution"@,
            Code::Aborted => "The operation was aborted"@,
            Code::OutOfRange => "Operation was attempted past the valid range"@,
            Code::Unimplemented => "Operation is not implemented or not supported"@,
            Code::Internal => "Internal error"@,
            Code::Unavailable => "The service is currently unavailable"@,
            Code::DataLoss => "Unrecoverable data loss or corruption"@,
            Code::Unauthenticated => "The request does not have valid authentication credentials"@,
        }
    }

    /// The decimal text of the code's number, as carried in `grpc-status`.
    pub open spec fn spec_header_value(&self) -> Seq<char> {
        match self {
            Code::OK => "0"@,
            Code::Cancelled => "1"@,
            Code::Unknown => "2"@,
            Code::InvalidArgument => "3"@,
            Code::DeadlineExceeded => "4"@,
            Code::NotFound => "5"@,
            Code::AlreadyExists => "6"@,
            Code::PermissionDenied => "7"@,
            Code::ResourceExhausted => "8"@,
            Code::FailedPrecondition => "9"@,
            Code::Aborted => "10"@,
            Code::OutOfRange => "11"@,
            Code::Unimplemented => "12"@,
            Code::Internal => "13"@,
            Code::Unavailable => "14"@,
            Code::DataLoss => "15"@,
            Code::Unauthenticated => "16"@,
        }
    }

    /// Returns the number that stands for the code on the wire.
    pub fn value(&self) -> (r: i32)
        ensures
            r == self.spec_value(),
            0 <= r <= 16,
    {
        match self {
            Code::OK => 0,
            Code::Cancelled => 1,
            Code::Unknown => 2,
            Code::InvalidArgument => 3,
            Code::DeadlineExceeded => 4,
            Code::NotFound => 5,
            Code::AlreadyExists => 6,
            Code::PermissionDenied => 7,
            Code::ResourceExhausted => 8,
            Code::FailedPrecondition => 9,
            Code::Aborted => 10,
            Code::OutOfRange => 11,
            Code::Unimplemented => 12,
            Code::Internal => 13,
            Code::Unavailable => 14,
            Code::DataLoss => 15,
            Code::Unauthenticated => 16,
        }
    }

    /// Returns the gRPC code that a status maps to.
    ///
    /// The table is loosely based on the conventional HTTP to gRPC mapping,
    /// with these changes: 200 maps to `Ok`, 400 and 422 to
    /// `InvalidArgument`, 404 to `NotFound`, 500 to `Internal` and 501 to
    /// `Unimplemented`.
    pub fn from_http(status: StatusCode) -> (r: Code)
        ensures
            r == grpc_code_of(status@),
    {
        let code: u16 = status.as_u16();
        if code == 200 {
            Code::OK
        } else if code == 400 || code == 422 {
            Code::InvalidArgument
        } else if code == 401 {
            Code::Unauthenticated
        } else if code == 403 {
            Code::PermissionDenied
        } else if code == 404 {
            Code::NotFound
        } else if code == 429 || code == 502 || code == 503 || code == 504 {
            Code::Unavailable
        } else if code == 500 {
            Code::Internal
        } else if code == 501 {
            Code::Unimplemented
        } else {
            Code::Unknown
        }
    }

    /// Returns the gRPC code that a status number maps to, rejecting numbers
    /// that are not status codes.
    pub fn from_http_u16(code: u16) -> (r: Result<Code, Error>)
        ensures
            is_valid_status(code) ==> r == Ok::<Code, Error>(grpc_code_of(code)),
            !is_valid_status(code) ==> r is Err && r->Err_0 is Invalid
                && r->Err_0.spec_detail() == "invalid status code"@,
    {
        match StatusCode::from_u16(code) {
            Ok(status) => Ok(Code::from_http(status)),
            Err(e) => Err(e),
        }
    }

    /// Returns the description of this code.
    pub fn description(&self) -> (r: &'static str)
        ensures
            r@ == self.spec_description(),
    {
        match self {
            Code::OK => "The operation completed successfully",
            Code::Cancelled => "The operation was cancelled",
            Code::Unknown => "Unknown error",
            Code::InvalidArgument => "Client specified an invalid argument",
            Code::DeadlineExceeded => "Deadline expired before operation could complete",
            Code::NotFound => "Some requested entity was not found",
            Code::AlreadyExists => "Some entity that we attempted to create already exists",
            Code::PermissionDenied => "The caller does not have permission to execute the specified operation",
            Code::ResourceExhausted => "Some resource has been exhausted",
            Code::FailedPrecondition => "The system is not in a state required for the operation's execution",
            Code::Aborted => "The operation was aborted",
            Code::OutOfRange => "Operation was attempted past the valid range",
            Code::Unimplemented => "Operation is not implemented or not supported",
            Code::Internal => "Internal error",
            Code::Unavailable => "The service is currently unavailable",
            Code::DataLoss => "Unrecoverable data loss or corruption",
            Code::Unauthenticated => "The request does not have valid authentication credentials",
        }
    }

    /// Returns the text that stands for this code in a `grpc-status` header.
    pub fn to_header_value(self) -> (r: &'static str)
        ensures
            r@ == self.spec_header_value(),
    {
        match self {
            Code::OK => "0",
            Code::Cancelled => "1",
            Code::Unknown => "2",
            Code::InvalidArgument => "3",
            Code::DeadlineExceeded => "4",
            Code::NotFound => "5",
            Code::AlreadyExists => "6",
            Code::PermissionDenied => "7",
            Code::ResourceExhausted => "8",
            Code::FailedPrecondition => "9",
            Code::Aborted => "10",
            Code::OutOfRange => "11",
            Code::Unimplemented => "12",
            Code::Internal => "13",
            Code::Unavailable => "14",
            Code::DataLoss => "15",
            Code::Unauthenticated => "16",
        }
    }
}

/// The decimal digits of a number below one hundred.
pub open spec fn decimal_text(n: int) -> Seq<char>
    recommends
        0 <= n < 100,
{
    if n < 10 {
        seq![(('0' as u8) + n) as u8 as char]
    } else {
        seq![(('0' as u8) + n / 10) as u8 as char, (('0' as u8) + n % 10) as u8 as char]
    }
}

/// The text carried in `grpc-status` is the decimal form of the code's number.
pub proof fn lemma_header_value_is_decimal(code: Code)
    ensures
        code.spec_header_value() == decimal_text(code.spec_value() as int),
{
    reveal_strlit("0");
    reveal_strlit("1");
    reveal_strlit("2");
    reveal_strlit("3");
    reveal_strlit("4");
    reveal_strlit("5");
    reveal_strlit("6");
    reveal_strlit("7");
    reveal_strlit("8");
    reveal_strlit("9");
    reveal_strlit("10");
    reveal_strlit("11");
    reveal_strlit("12");
    reveal_strlit("13");
    reveal_strlit("14");
    reveal_strlit("15");
    reveal_strlit("16");
    assert(code.spec_header_value() =~= decimal_text(code.spec_value() as int));
}

/// A status maps to the code `OK` exactly when it is 200.
pub proof fn lemma_grpc_ok_iff_200(code: u16)
    ensures
        grpc_code_of(code) == Code::OK <==> code == 200,
{
}

} // verus!
