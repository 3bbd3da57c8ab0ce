//! The typed message set of the protocol: commands, responses and stream
//! events, each with its exact wire form.

pub mod commands_common;
pub mod commands_main;
pub mod commands_stream;
pub mod wire_keys;

use crate::json::{Json, JsonV, spec_print_json};
use vstd::prelude::*;

verus! {

/// A typed message with one JSON tree as its wire form. Encoding and
/// decoding are exact: decoding an encoded message gives the message back,
/// and every implementation proves it.
pub trait WireJson: View + Sized {
    /// The JSON tree of a message.
    spec fn spec_to_json(m: Self::V) -> JsonV;

    /// The message a JSON tree holds, read leniently: member order does not
    /// matter and unknown members are passed over.
    spec fn spec_from_json(j: JsonV) -> Option<Self::V>;

    fn to_json(&self) -> (r: Json)
        ensures
            r@ == Self::spec_to_json(self@),
    ;

    fn from_json(j: &Json) -> (r: Option<Self>)
        ensures
            match Self::spec_from_json(j@) {
                None => r is None,
                Some(m) => r matches Some(x) && x@ == m,
            },
    ;

    /// Decoding an encoded message gives the message back.
    proof fn lemma_round_trip(m: Self::V)
        ensures
            Self::spec_from_json(Self::spec_to_json(m)) == Some(m),
    ;
}

/// A message that can be issued on a connection: its wire text is its JSON
/// tree printed canonically, as one UTF-8 text.
pub trait Execute: WireJson {
    fn command(&self) -> (r: Vec<u8>)
        ensures
            r@ == spec_print_json(Self::spec_to_json(self@)),
    ;
}

} // verus!
