//! The error taxonomy of the protocol client.

use vstd::prelude::*;

verus! {

/// Everything that can go wrong between issuing a command and consuming the
/// event stream. Text carried inside a variant (offending raw bytes, server
/// error code and description) is kept as the bytes that came off the wire.
#[derive(Debug, Clone, PartialEq, Eq)]
pub enum XtbError {
    /// TCP connection establishment failed.
    ConnectError,
    /// TLS handshake or certificate verification failed.
    TlsError,
    /// Socket write failed after the connection was established.
    WriteError,
    /// Socket read failed after the connection was established.
    ReadError,
    /// Orderly zero-length read where a response was still expected.
    ConnectionClosed,
    /// Bytes that are not a message of any known shape; carries the raw
    /// text and a short diagnostic naming what failed.
    DecodeError { raw: Vec<u8>, detail: Vec<u8> },
    /// A well-formed server error response, with its code and description.
    ProtocolError { code: Vec<u8>, description: Vec<u8> },
    /// Terminal login rejection by the server.
    AuthenticationFailed { code: Vec<u8>, description: Vec<u8> },
    /// All permitted login attempts failed at the transport level.
    RetryExhausted,
}

/// The mathematical shape of an error.
pub enum XtbErrorV {
    ConnectError,
    TlsError,
    WriteError,
    ReadError,
    ConnectionClosed,
    DecodeError { raw: Seq<u8>, detail: Seq<u8> },
    ProtocolError { code: Seq<u8>, description: Seq<u8> },
    AuthenticationFailed { code: Seq<u8>, description: Seq<u8> },
    RetryExhausted,
}

impl View for XtbError {
    type V = XtbErrorV;

    open spec fn view(&self) -> XtbErrorV {
        match self {
            XtbError::ConnectError => XtbErrorV::ConnectError,
            XtbError::TlsError => XtbErrorV::TlsError,
            XtbError::WriteError => XtbErrorV::WriteError,
            XtbError::ReadError => XtbErrorV::ReadError,
            XtbError::ConnectionClosed => XtbErrorV::ConnectionClosed,
            XtbError::DecodeError { raw, detail } => XtbErrorV::DecodeError {
                raw: raw@,
                detail: detail@,
            },
            XtbError::ProtocolError { code, description } => XtbErrorV::ProtocolError {
                code: code@,
                description: description@,
            },
            XtbError::AuthenticationFailed { code, description } => XtbErrorV::AuthenticationFailed {
                code: code@,
                description: description@,
            },
            XtbError::RetryExhausted => XtbErrorV::RetryExhausted,
        }
    }
}

/// A transport-level failure: the kind the login bootstrap may retry.
/// Server rejections and decode failures are never retried.
pub open spec fn spec_is_transport_failure(e: XtbErrorV) -> bool {
    match e {
        XtbErrorV::ConnectError => true,
        XtbErrorV::TlsError => true,
        XtbErrorV::WriteError => true,
        XtbErrorV::ReadError => true,
        XtbErrorV::ConnectionClosed => true,
        _ => false,
    }
}

impl XtbError {
    pub fn is_transport_failure(&self) -> (r: bool)
        ensures
            r == spec_is_transport_failure(self@),
    {
        match self {
            XtbError::ConnectError => true,
            XtbError::TlsError => true,
            XtbError::WriteError => true,
            XtbError::ReadError => true,
            XtbError::ConnectionClosed => true,
            _ => false,
        }
    }

    /// A short fixed name for the error's kind, for messages.
    pub fn kind_name(&self) -> (r: &'static str) {
        match self {
            XtbError::ConnectError => "connect error",
            XtbError::TlsError => "tls error",
            XtbError::WriteError => "write error",
            XtbError::ReadError => "read error",
            XtbError::ConnectionClosed => "connection closed",
            XtbError::DecodeError { .. } => "decode error",
            XtbError::ProtocolError { .. } => "protocol error",
            XtbError::AuthenticationFailed { .. } => "authentication failed",
            XtbError::RetryExhausted => "retry exhausted",
        }
    }
}


// The decode diagnostics, each a short fixed text.

/// "invalid utf-8"
pub open spec fn detail_invalid_utf8() -> Seq<u8> {
    seq![0x69u8, 0x6eu8, 0x76u8, 0x61u8, 0x6cu8, 0x69u8, 0x64u8, 0x20u8, 0x75u8, 0x74u8, 0x66u8, 0x2du8, 0x38u8]
}

pub fn dx_invalid_utf8() -> (r: Vec<u8>)
    ensures
        r@ == detail_invalid_utf8(),
{
    let a: [u8; 13] = [0x69, 0x6e, 0x76, 0x61, 0x6c, 0x69, 0x64, 0x20, 0x75, 0x74, 0x66, 0x2d, 0x38];
    proof {
        assert(a@ =~= detail_invalid_utf8());
    }
    crate::json::vec_of(a.as_slice())
}

/// "malformed json"
pub open spec fn detail_malformed_json() -> Seq<u8> {
    seq![0x6du8, 0x61u8, 0x6cu8, 0x66u8, 0x6fu8, 0x72u8, 0x6du8, 0x65u8, 0x64u8, 0x20u8, 0x6au8, 0x73u8, 0x6fu8, 0x6eu8]
}

pub fn dx_malformed_json() -> (r: Vec<u8>)
    ensures
        r@ == detail_malformed_json(),
{
    let a: [u8; 14] = [0x6d, 0x61, 0x6c, 0x66, 0x6f, 0x72, 0x6d, 0x65, 0x64, 0x20, 0x6a, 0x73, 0x6f, 0x6e];
    proof {
        assert(a@ =~= detail_malformed_json());
    }
    crate::json::vec_of(a.as_slice())
}

/// "no response shape matched"
pub open spec fn detail_no_response_shape() -> Seq<u8> {
    seq![0x6eu8, 0x6fu8, 0x20u8, 0x72u8, 0x65u8, 0x73u8, 0x70u8, 0x6fu8, 0x6eu8, 0x73u8, 0x65u8, 0x20u8, 0x73u8, 0x68u8, 0x61u8, 0x70u8, 0x65u8, 0x20u8, 0x6du8, 0x61u8, 0x74u8, 0x63u8, 0x68u8, 0x65u8, 0x64u8]
}

pub fn dx_no_response_shape() -> (r: Vec<u8>)
    ensures
        r@ == detail_no_response_shape(),
{
    let a: [u8; 25] = [0x6e, 0x6f, 0x20, 0x72, 0x65, 0x73, 0x70, 0x6f, 0x6e, 0x73, 0x65, 0x20, 0x73, 0x68, 0x61, 0x70, 0x65, 0x20, 0x6d, 0x61, 0x74, 0x63, 0x68, 0x65, 0x64];
    proof {
        assert(a@ =~= detail_no_response_shape());
    }
    crate::json::vec_of(a.as_slice())
}

/// "no stream event matched"
pub open spec fn detail_no_stream_event() -> Seq<u8> {
    seq![0x6eu8, 0x6fu8, 0x20u8, 0x73u8, 0x74u8, 0x72u8, 0x65u8, 0x61u8, 0x6du8, 0x20u8, 0x65u8, 0x76u8, 0x65u8, 0x6eu8, 0x74u8, 0x20u8, 0x6du8, 0x61u8, 0x74u8, 0x63u8, 0x68u8, 0x65u8, 0x64u8]
}

pub fn dx_no_stream_event() -> (r: Vec<u8>)
    ensures
        r@ == detail_no_stream_event(),
{
    let a: [u8; 23] = [0x6e, 0x6f, 0x20, 0x73, 0x74, 0x72, 0x65, 0x61, 0x6d, 0x20, 0x65, 0x76, 0x65, 0x6e, 0x74, 0x20, 0x6d, 0x61, 0x74, 0x63, 0x68, 0x65, 0x64];
    proof {
        assert(a@ =~= detail_no_stream_event());
    }
    crate::json::vec_of(a.as_slice())
}

/// "response does not match request"
pub open spec fn detail_mismatched_response() -> Seq<u8> {
    seq![0x72u8, 0x65u8, 0x73u8, 0x70u8, 0x6fu8, 0x6eu8, 0x73u8, 0x65u8, 0x20u8, 0x64u8, 0x6fu8, 0x65u8, 0x73u8, 0x20u8, 0x6eu8, 0x6fu8, 0x74u8, 0x20u8, 0x6du8, 0x61u8, 0x74u8, 0x63u8, 0x68u8, 0x20u8, 0x72u8, 0x65u8, 0x71u8, 0x75u8, 0x65u8, 0x73u8, 0x74u8]
}

pub fn dx_mismatched_response() -> (r: Vec<u8>)
    ensures
        r@ == detail_mismatched_response(),
{
    let a: [u8; 31] = [0x72, 0x65, 0x73, 0x70, 0x6f, 0x6e, 0x73, 0x65, 0x20, 0x64, 0x6f, 0x65, 0x73, 0x20, 0x6e, 0x6f, 0x74, 0x20, 0x6d, 0x61, 0x74, 0x63, 0x68, 0x20, 0x72, 0x65, 0x71, 0x75, 0x65, 0x73, 0x74];
    proof {
        assert(a@ =~= detail_mismatched_response());
    }
    crate::json::vec_of(a.as_slice())
}

/// "frame buffer bound exceeded"
pub open spec fn detail_buffer_bound() -> Seq<u8> {
    seq![0x66u8, 0x72u8, 0x61u8, 0x6du8, 0x65u8, 0x20u8, 0x62u8, 0x75u8, 0x66u8, 0x66u8, 0x65u8, 0x72u8, 0x20u8, 0x62u8, 0x6fu8, 0x75u8, 0x6eu8, 0x64u8, 0x20u8, 0x65u8, 0x78u8, 0x63u8, 0x65u8, 0x65u8, 0x64u8, 0x65u8, 0x64u8]
}

pub fn dx_buffer_bound() -> (r: Vec<u8>)
    ensures
        r@ == detail_buffer_bound(),
{
    let a: [u8; 27] = [0x66, 0x72, 0x61, 0x6d, 0x65, 0x20, 0x62, 0x75, 0x66, 0x66, 0x65, 0x72, 0x20, 0x62, 0x6f, 0x75, 0x6e, 0x64, 0x20, 0x65, 0x78, 0x63, 0x65, 0x65, 0x64, 0x65, 0x64];
    proof {
        assert(a@ =~= detail_buffer_bound());
    }
    crate::json::vec_of(a.as_slice())
}

} // verus!
