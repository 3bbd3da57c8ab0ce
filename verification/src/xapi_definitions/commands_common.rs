//! Small closed enumerations shared by commands on both channels, and how
//! each stands on the wire: a bare number, except `State`, which is a name.

use crate::decimal::{Decimal, spec_dec_of_int, spec_dec_to_u64};
use crate::json::JsonV;
use vstd::prelude::*;

verus! {

/// Trade operation codes.
#[derive(Clone, Copy, Debug, PartialEq, Eq, Structural)]
pub enum Cmd {
    Buy,
    Sell,
    BuyLimit,
    SellLimit,
    BuyStop,
    SellStop,
    Balance,
    Credit,
}

/// Transaction types.
#[derive(Clone, Copy, Debug, PartialEq, Eq, Structural)]
pub enum Type {
    Open,
    Pending,
    Close,
    Modify,
    Delete,
}

/// Order states, written out as names on the wire.
#[derive(Clone, Copy, Debug, PartialEq, Eq, Structural)]
pub enum State {
    Modified,
    Deleted,
}

/// Request processing statuses.
#[derive(Clone, Copy, Debug, PartialEq, Eq, Structural)]
pub enum RequestStatus {
    Error,
    Pending,
    Accepted,
    Rejected,
}

/// Chart periods, as minutes.
#[derive(Clone, Copy, Debug, PartialEq, Eq, Structural)]
pub enum Period {
    PeriodM1,
    PeriodM5,
    PeriodM15,
    PeriodM30,
    PeriodH1,
    PeriodH4,
    PeriodD1,
    PeriodW1,
    PeriodMN1,
}

pub open spec fn spec_cmd_code(c: Cmd) -> u64 {
    match c {
        Cmd::Buy => 0,
        Cmd::Sell => 1,
        Cmd::BuyLimit => 2,
        Cmd::SellLimit => 3,
        Cmd::BuyStop => 4,
        Cmd::SellStop => 5,
        Cmd::Balance => 6,
        Cmd::Credit => 7,
    }
}

pub open spec fn spec_cmd_from_dec(d: Decimal) -> Option<Cmd> {
    match spec_dec_to_u64(d) {
        Some(0u64) => Some(Cmd::Buy),
        Some(1u64) => Some(Cmd::Sell),
        Some(2u64) => Some(Cmd::BuyLimit),
        Some(3u64) => Some(Cmd::SellLimit),
        Some(4u64) => Some(Cmd::BuyStop),
        Some(5u64) => Some(Cmd::SellStop),
        Some(6u64) => Some(Cmd::Balance),
        Some(7u64) => Some(Cmd::Credit),
        _ => None,
    }
}

pub open spec fn spec_cmd_to_json(c: Cmd) -> JsonV {
    JsonV::Num(spec_dec_of_int(spec_cmd_code(c) as int))
}

impl Cmd {
    pub fn code(&self) -> (r: u64)
        ensures
            r == spec_cmd_code(*self),
    {
        match self {
            Cmd::Buy => 0,
            Cmd::Sell => 1,
            Cmd::BuyLimit => 2,
            Cmd::SellLimit => 3,
            Cmd::BuyStop => 4,
            Cmd::SellStop => 5,
            Cmd::Balance => 6,
            Cmd::Credit => 7,
        }
    }

    pub fn from_dec(d: Decimal) -> (r: Option<Cmd>)
        ensures
            r == spec_cmd_from_dec(d),
    {
        match d.to_u64() {
            Some(0u64) => Some(Cmd::Buy),
            Some(1u64) => Some(Cmd::Sell),
            Some(2u64) => Some(Cmd::BuyLimit),
            Some(3u64) => Some(Cmd::SellLimit),
            Some(4u64) => Some(Cmd::BuyStop),
            Some(5u64) => Some(Cmd::SellStop),
            Some(6u64) => Some(Cmd::Balance),
            Some(7u64) => Some(Cmd::Credit),
            _ => None,
        }
    }
}

/// Reading a written operation code gives the code back.
pub proof fn lemma_cmd_round_trip(c: Cmd)
    ensures
        spec_cmd_from_dec(spec_dec_of_int(spec_cmd_code(c) as int)) == Some(c),
{
}

pub open spec fn spec_type_code(t: Type) -> u64 {
    match t {
        Type::Open => 0,
        Type::Pending => 1,
        Type::Close => 2,
        Type::Modify => 3,
        Type::Delete => 4,
    }
}

pub open spec fn spec_type_from_dec(d: Decimal) -> Option<Type> {
    match spec_dec_to_u64(d) {
        Some(0u64) => Some(Type::Open),
        Some(1u64) => Some(Type::Pending),
        Some(2u64) => Some(Type::Close),
        Some(3u64) => Some(Type::Modify),
        Some(4u64) => Some(Type::Delete),
        _ => None,
    }
}

impl Type {
    pub fn code(&self) -> (r: u64)
        ensures
            r == spec_type_code(*self),
    {
        match self {
            Type::Open => 0,
            Type::Pending => 1,
            Type::Close => 2,
            Type::Modify => 3,
            Type::Delete => 4,
        }
    }

    pub fn from_dec(d: Decimal) -> (r: Option<Type>)
        ensures
            r == spec_type_from_dec(d),
    {
        match d.to_u64() {
            Some(0u64) => Some(Type::Open),
            Some(1u64) => Some(Type::Pending),
            Some(2u64) => Some(Type::Close),
            Some(3u64) => Some(Type::Modify),
            Some(4u64) => Some(Type::Delete),
            _ => None,
        }
    }
}

pub proof fn lemma_type_round_trip(t: Type)
    ensures
        spec_type_from_dec(spec_dec_of_int(spec_type_code(t) as int)) == Some(t),
{
}

pub open spec fn spec_request_status_code(s: RequestStatus) -> u64 {
    match s {
        RequestStatus::Error => 0,
        RequestStatus::Pending => 1,
        RequestStatus::Accepted => 3,
        RequestStatus::Rejected => 4,
    }
}

pub open spec fn spec_request_status_from_dec(d: Decimal) -> Option<RequestStatus> {
    match spec_dec_to_u64(d) {
        Some(0u64) => Some(RequestStatus::Error),
        Some(1u64) => Some(RequestStatus::Pending),
        Some(3u64) => Some(RequestStatus::Accepted),
        Some(4u64) => Some(RequestStatus::Rejected),
        _ => None,
    }
}

impl RequestStatus {
    pub fn code(&self) -> (r: u64)
        ensures
            r == spec_request_status_code(*self),
    {
        match self {
            RequestStatus::Error => 0,
            RequestStatus::Pending => 1,
            RequestStatus::Accepted => 3,
            RequestStatus::Rejected => 4,
        }
    }

    pub fn from_dec(d: Decimal) -> (r: Option<RequestStatus>)
        ensures
            r == spec_request_status_from_dec(d),
    {
        match d.to_u64() {
            Some(0u64) => Some(RequestStatus::Error),
            Some(1u64) => Some(RequestStatus::Pending),
            Some(3u64) => Some(RequestStatus::Accepted),
            Some(4u64) => Some(RequestStatus::Rejected),
            _ => None,
        }
    }
}

pub proof fn lemma_request_status_round_trip(s: RequestStatus)
    ensures
        spec_request_status_from_dec(spec_dec_of_int(spec_request_status_code(s) as int)) == Some(
            s,
        ),
{
}

pub open spec fn spec_period_code(p: Period) -> u64 {
    match p {
        Period::PeriodM1 => 1,
        Period::PeriodM5 => 5,
        Period::PeriodM15 => 15,
        Period::PeriodM30 => 30,
        Period::PeriodH1 => 60,
        Period::PeriodH4 => 240,
        Period::PeriodD1 => 1440,
        Period::PeriodW1 => 10080,
        Period::PeriodMN1 => 43200,
    }
}

pub open spec fn spec_period_from_dec(d: Decimal) -> Option<Period> {
    match spec_dec_to_u64(d) {
        Some(1u64) => Some(Period::PeriodM1),
        Some(5u64) => Some(Period::PeriodM5),
        Some(15u64) => Some(Period::PeriodM15),
        Some(30u64) => Some(Period::PeriodM30),
        Some(60u64) => Some(Period::PeriodH1),
        Some(240u64) => Some(Period::PeriodH4),
        Some(1440u64) => Some(Period::PeriodD1),
        Some(10080u64) => Some(Period::PeriodW1),
        Some(43200u64) => Some(Period::PeriodMN1),
        _ => None,
    }
}

impl Period {
    pub fn code(&self) -> (r: u64)
        ensures
            r == spec_period_code(*self),
    {
        match self {
            Period::PeriodM1 => 1,
            Period::PeriodM5 => 5,
            Period::PeriodM15 => 15,
            Period::PeriodM30 => 30,
            Period::PeriodH1 => 60,
            Period::PeriodH4 => 240,
            Period::PeriodD1 => 1440,
            Period::PeriodW1 => 10080,
            Period::PeriodMN1 => 43200,
        }
    }

    pub fn from_dec(d: Decimal) -> (r: Option<Period>)
        ensures
            r == spec_period_from_dec(d),
    {
        match d.to_u64() {
            Some(1u64) => Some(Period::PeriodM1),
            Some(5u64) => Some(Period::PeriodM5),
            Some(15u64) => Some(Period::PeriodM15),
            Some(30u64) => Some(Period::PeriodM30),
            Some(60u64) => Some(Period::PeriodH1),
            Some(240u64) => Some(Period::PeriodH4),
            Some(1440u64) => Some(Period::PeriodD1),
            Some(10080u64) => Some(Period::PeriodW1),
            Some(43200u64) => Some(Period::PeriodMN1),
            _ => None,
        }
    }
}

pub proof fn lemma_period_round_trip(p: Period)
    ensures
        spec_period_from_dec(spec_dec_of_int(spec_period_code(p) as int)) == Some(p),
{
}

/// "Modified"
pub open spec fn state_modified_str() -> Seq<u8> {
    seq![0x4du8, 0x6fu8, 0x64u8, 0x69u8, 0x66u8, 0x69u8, 0x65u8, 0x64u8]
}

/// "Deleted"
pub open spec fn state_deleted_str() -> Seq<u8> {
    seq![0x44u8, 0x65u8, 0x6cu8, 0x65u8, 0x74u8, 0x65u8, 0x64u8]
}

pub open spec fn spec_state_str(s: State) -> Seq<u8> {
    match s {
        State::Modified => state_modified_str(),
        State::Deleted => state_deleted_str(),
    }
}

pub open spec fn spec_state_from_str(b: Seq<u8>) -> Option<State> {
    if b == state_modified_str() {
        Some(State::Modified)
    } else if b == state_deleted_str() {
        Some(State::Deleted)
    } else {
        None
    }
}

impl State {
    pub fn wire_name(&self) -> (r: Vec<u8>)
        ensures
            r@ == spec_state_str(*self),
    {
        match self {
            State::Modified => {
                let a: [u8; 8] = [0x4d, 0x6f, 0x64, 0x69, 0x66, 0x69, 0x65, 0x64];
                proof {
                    assert(a@ =~= state_modified_str());
                }
                crate::json::vec_of(a.as_slice())
            },
            State::Deleted => {
                let a: [u8; 7] = [0x44, 0x65, 0x6c, 0x65, 0x74, 0x65, 0x64];
                proof {
                    assert(a@ =~= state_deleted_str());
                }
                crate::json::vec_of(a.as_slice())
            },
        }
    }

    pub fn from_wire_name(b: &[u8]) -> (r: Option<State>)
        ensures
            r == spec_state_from_str(b@),
    {
        let m: [u8; 8] = [0x4d, 0x6f, 0x64, 0x69, 0x66, 0x69, 0x65, 0x64];
        let d: [u8; 7] = [0x44, 0x65, 0x6c, 0x65, 0x74, 0x65, 0x64];
        proof {
            assert(m@ =~= state_modified_str());
            assert(d@ =~= state_deleted_str());
        }
        if crate::json::bytes_eq(b, m.as_slice()) {
            Some(State::Modified)
        } else if crate::json::bytes_eq(b, d.as_slice()) {
            Some(State::Deleted)
        } else {
            None
        }
    }
}

pub proof fn lemma_state_round_trip(s: State)
    ensures
        spec_state_from_str(spec_state_str(s)) == Some(s),
{
    if s == State::Deleted {
        assert(state_deleted_str().len() != state_modified_str().len());
    }
}

} // verus!
