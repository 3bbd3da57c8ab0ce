//! Every member key and command tag of the wire protocol, as bytes, with
//! one spec form and one runtime form each.

use vstd::prelude::*;

verus! {

/// "appId"
pub open spec fn key_app_id() -> Seq<u8> {
    seq![0x61u8, 0x70u8, 0x70u8, 0x49u8, 0x64u8]
}

pub fn kx_app_id() -> (r: [u8; 5])
    ensures
        r@ == key_app_id(),
{
    let a: [u8; 5] = [0x61, 0x70, 0x70, 0x49, 0x64];
    proof {
        assert(a@ =~= key_app_id());
    }
    a
}

/// "appName"
pub open spec fn key_app_name() -> Seq<u8> {
    seq![0x61u8, 0x70u8, 0x70u8, 0x4eu8, 0x61u8, 0x6du8, 0x65u8]
}

pub fn kx_app_name() -> (r: [u8; 7])
    ensures
        r@ == key_app_name(),
{
    let a: [u8; 7] = [0x61, 0x70, 0x70, 0x4e, 0x61, 0x6d, 0x65];
    proof {
        assert(a@ =~= key_app_name());
    }
    a
}

/// "arguments"
pub open spec fn key_arguments() -> Seq<u8> {
    seq![0x61u8, 0x72u8, 0x67u8, 0x75u8, 0x6du8, 0x65u8, 0x6eu8, 0x74u8, 0x73u8]
}

pub fn kx_arguments() -> (r: [u8; 9])
    ensures
        r@ == key_arguments(),
{
    let a: [u8; 9] = [0x61, 0x72, 0x67, 0x75, 0x6d, 0x65, 0x6e, 0x74, 0x73];
    proof {
        assert(a@ =~= key_arguments());
    }
    a
}

/// "ask"
pub open spec fn key_ask() -> Seq<u8> {
    seq![0x61u8, 0x73u8, 0x6bu8]
}

pub fn kx_ask() -> (r: [u8; 3])
    ensures
        r@ == key_ask(),
{
    let a: [u8; 3] = [0x61, 0x73, 0x6b];
    proof {
        assert(a@ =~= key_ask());
    }
    a
}

/// "askVolume"
pub open spec fn key_ask_volume() -> Seq<u8> {
    seq![0x61u8, 0x73u8, 0x6bu8, 0x56u8, 0x6fu8, 0x6cu8, 0x75u8, 0x6du8, 0x65u8]
}

pub fn kx_ask_volume() -> (r: [u8; 9])
    ensures
        r@ == key_ask_volume(),
{
    let a: [u8; 9] = [0x61, 0x73, 0x6b, 0x56, 0x6f, 0x6c, 0x75, 0x6d, 0x65];
    proof {
        assert(a@ =~= key_ask_volume());
    }
    a
}

/// "balance"
pub open spec fn key_balance() -> Seq<u8> {
    seq![0x62u8, 0x61u8, 0x6cu8, 0x61u8, 0x6eu8, 0x63u8, 0x65u8]
}

pub fn kx_balance() -> (r: [u8; 7])
    ensures
        r@ == key_balance(),
{
    let a: [u8; 7] = [0x62, 0x61, 0x6c, 0x61, 0x6e, 0x63, 0x65];
    proof {
        assert(a@ =~= key_balance());
    }
    a
}

/// "bid"
pub open spec fn key_bid() -> Seq<u8> {
    seq![0x62u8, 0x69u8, 0x64u8]
}

pub fn kx_bid() -> (r: [u8; 3])
    ensures
        r@ == key_bid(),
{
    let a: [u8; 3] = [0x62, 0x69, 0x64];
    proof {
        assert(a@ =~= key_bid());
    }
    a
}

/// "bidVolume"
pub open spec fn key_bid_volume() -> Seq<u8> {
    seq![0x62u8, 0x69u8, 0x64u8, 0x56u8, 0x6fu8, 0x6cu8, 0x75u8, 0x6du8, 0x65u8]
}

pub fn kx_bid_volume() -> (r: [u8; 9])
    ensures
        r@ == key_bid_volume(),
{
    let a: [u8; 9] = [0x62, 0x69, 0x64, 0x56, 0x6f, 0x6c, 0x75, 0x6d, 0x65];
    proof {
        assert(a@ =~= key_bid_volume());
    }
    a
}

/// "close"
pub open spec fn key_close() -> Seq<u8> {
    seq![0x63u8, 0x6cu8, 0x6fu8, 0x73u8, 0x65u8]
}

pub fn kx_close() -> (r: [u8; 5])
    ensures
        r@ == key_close(),
{
    let a: [u8; 5] = [0x63, 0x6c, 0x6f, 0x73, 0x65];
    proof {
        assert(a@ =~= key_close());
    }
    a
}

/// "close_price"
pub open spec fn key_close_price() -> Seq<u8> {
    seq![0x63u8, 0x6cu8, 0x6fu8, 0x73u8, 0x65u8, 0x5fu8, 0x70u8, 0x72u8, 0x69u8, 0x63u8, 0x65u8]
}

pub fn kx_close_price() -> (r: [u8; 11])
    ensures
        r@ == key_close_price(),
{
    let a: [u8; 11] = [0x63, 0x6c, 0x6f, 0x73, 0x65, 0x5f, 0x70, 0x72, 0x69, 0x63, 0x65];
    proof {
        assert(a@ =~= key_close_price());
    }
    a
}

/// "close_time"
pub open spec fn key_close_time() -> Seq<u8> {
    seq![0x63u8, 0x6cu8, 0x6fu8, 0x73u8, 0x65u8, 0x5fu8, 0x74u8, 0x69u8, 0x6du8, 0x65u8]
}

pub fn kx_close_time() -> (r: [u8; 10])
    ensures
        r@ == key_close_time(),
{
    let a: [u8; 10] = [0x63, 0x6c, 0x6f, 0x73, 0x65, 0x5f, 0x74, 0x69, 0x6d, 0x65];
    proof {
        assert(a@ =~= key_close_time());
    }
    a
}

/// "closed"
pub open spec fn key_closed() -> Seq<u8> {
    seq![0x63u8, 0x6cu8, 0x6fu8, 0x73u8, 0x65u8, 0x64u8]
}

pub fn kx_closed() -> (r: [u8; 6])
    ensures
        r@ == key_closed(),
{
    let a: [u8; 6] = [0x63, 0x6c, 0x6f, 0x73, 0x65, 0x64];
    proof {
        assert(a@ =~= key_closed());
    }
    a
}

/// "cmd"
pub open spec fn key_cmd() -> Seq<u8> {
    seq![0x63u8, 0x6du8, 0x64u8]
}

pub fn kx_cmd() -> (r: [u8; 3])
    ensures
        r@ == key_cmd(),
{
    let a: [u8; 3] = [0x63, 0x6d, 0x64];
    proof {
        assert(a@ =~= key_cmd());
    }
    a
}

/// "command"
pub open spec fn key_command() -> Seq<u8> {
    seq![0x63u8, 0x6fu8, 0x6du8, 0x6du8, 0x61u8, 0x6eu8, 0x64u8]
}

pub fn kx_command() -> (r: [u8; 7])
    ensures
        r@ == key_command(),
{
    let a: [u8; 7] = [0x63, 0x6f, 0x6d, 0x6d, 0x61, 0x6e, 0x64];
    proof {
        assert(a@ =~= key_command());
    }
    a
}

/// "comment"
pub open spec fn key_comment() -> Seq<u8> {
    seq![0x63u8, 0x6fu8, 0x6du8, 0x6du8, 0x65u8, 0x6eu8, 0x74u8]
}

pub fn kx_comment() -> (r: [u8; 7])
    ensures
        r@ == key_comment(),
{
    let a: [u8; 7] = [0x63, 0x6f, 0x6d, 0x6d, 0x65, 0x6e, 0x74];
    proof {
        assert(a@ =~= key_comment());
    }
    a
}

/// "commission"
pub open spec fn key_commission() -> Seq<u8> {
    seq![0x63u8, 0x6fu8, 0x6du8, 0x6du8, 0x69u8, 0x73u8, 0x73u8, 0x69u8, 0x6fu8, 0x6eu8]
}

pub fn kx_commission() -> (r: [u8; 10])
    ensures
        r@ == key_commission(),
{
    let a: [u8; 10] = [0x63, 0x6f, 0x6d, 0x6d, 0x69, 0x73, 0x73, 0x69, 0x6f, 0x6e];
    proof {
        assert(a@ =~= key_commission());
    }
    a
}

/// "companyUnit"
pub open spec fn key_company_unit() -> Seq<u8> {
    seq![0x63u8, 0x6fu8, 0x6du8, 0x70u8, 0x61u8, 0x6eu8, 0x79u8, 0x55u8, 0x6eu8, 0x69u8, 0x74u8]
}

pub fn kx_company_unit() -> (r: [u8; 11])
    ensures
        r@ == key_company_unit(),
{
    let a: [u8; 11] = [0x63, 0x6f, 0x6d, 0x70, 0x61, 0x6e, 0x79, 0x55, 0x6e, 0x69, 0x74];
    proof {
        assert(a@ =~= key_company_unit());
    }
    a
}

/// "credit"
pub open spec fn key_credit() -> Seq<u8> {
    seq![0x63u8, 0x72u8, 0x65u8, 0x64u8, 0x69u8, 0x74u8]
}

pub fn kx_credit() -> (r: [u8; 6])
    ensures
        r@ == key_credit(),
{
    let a: [u8; 6] = [0x63, 0x72, 0x65, 0x64, 0x69, 0x74];
    proof {
        assert(a@ =~= key_credit());
    }
    a
}

/// "ctm"
pub open spec fn key_ctm() -> Seq<u8> {
    seq![0x63u8, 0x74u8, 0x6du8]
}

pub fn kx_ctm() -> (r: [u8; 3])
    ensures
        r@ == key_ctm(),
{
    let a: [u8; 3] = [0x63, 0x74, 0x6d];
    proof {
        assert(a@ =~= key_ctm());
    }
    a
}

/// "ctmString"
pub open spec fn key_ctm_string() -> Seq<u8> {
    seq![0x63u8, 0x74u8, 0x6du8, 0x53u8, 0x74u8, 0x72u8, 0x69u8, 0x6eu8, 0x67u8]
}

pub fn kx_ctm_string() -> (r: [u8; 9])
    ensures
        r@ == key_ctm_string(),
{
    let a: [u8; 9] = [0x63, 0x74, 0x6d, 0x53, 0x74, 0x72, 0x69, 0x6e, 0x67];
    proof {
        assert(a@ =~= key_ctm_string());
    }
    a
}

/// "currency"
pub open spec fn key_currency() -> Seq<u8> {
    seq![0x63u8, 0x75u8, 0x72u8, 0x72u8, 0x65u8, 0x6eu8, 0x63u8, 0x79u8]
}

pub fn kx_currency() -> (r: [u8; 8])
    ensures
        r@ == key_currency(),
{
    let a: [u8; 8] = [0x63, 0x75, 0x72, 0x72, 0x65, 0x6e, 0x63, 0x79];
    proof {
        assert(a@ =~= key_currency());
    }
    a
}

/// "customComment"
pub open spec fn key_custom_comment() -> Seq<u8> {
    seq![0x63u8, 0x75u8, 0x73u8, 0x74u8, 0x6fu8, 0x6du8, 0x43u8, 0x6fu8, 0x6du8, 0x6du8, 0x65u8, 0x6eu8, 0x74u8]
}

pub fn kx_custom_comment() -> (r: [u8; 13])
    ensures
        r@ == key_custom_comment(),
{
    let a: [u8; 13] = [0x63, 0x75, 0x73, 0x74, 0x6f, 0x6d, 0x43, 0x6f, 0x6d, 0x6d, 0x65, 0x6e, 0x74];
    proof {
        assert(a@ =~= key_custom_comment());
    }
    a
}

/// "data"
pub open spec fn key_data() -> Seq<u8> {
    seq![0x64u8, 0x61u8, 0x74u8, 0x61u8]
}

pub fn kx_data() -> (r: [u8; 4])
    ensures
        r@ == key_data(),
{
    let a: [u8; 4] = [0x64, 0x61, 0x74, 0x61];
    proof {
        assert(a@ =~= key_data());
    }
    a
}

/// "digits"
pub open spec fn key_digits() -> Seq<u8> {
    seq![0x64u8, 0x69u8, 0x67u8, 0x69u8, 0x74u8, 0x73u8]
}

pub fn kx_digits() -> (r: [u8; 6])
    ensures
        r@ == key_digits(),
{
    let a: [u8; 6] = [0x64, 0x69, 0x67, 0x69, 0x74, 0x73];
    proof {
        assert(a@ =~= key_digits());
    }
    a
}

/// "equity"
pub open spec fn key_equity() -> Seq<u8> {
    seq![0x65u8, 0x71u8, 0x75u8, 0x69u8, 0x74u8, 0x79u8]
}

pub fn kx_equity() -> (r: [u8; 6])
    ensures
        r@ == key_equity(),
{
    let a: [u8; 6] = [0x65, 0x71, 0x75, 0x69, 0x74, 0x79];
    proof {
        assert(a@ =~= key_equity());
    }
    a
}

/// "errorCode"
pub open spec fn key_error_code() -> Seq<u8> {
    seq![0x65u8, 0x72u8, 0x72u8, 0x6fu8, 0x72u8, 0x43u8, 0x6fu8, 0x64u8, 0x65u8]
}

pub fn kx_error_code() -> (r: [u8; 9])
    ensures
        r@ == key_error_code(),
{
    let a: [u8; 9] = [0x65, 0x72, 0x72, 0x6f, 0x72, 0x43, 0x6f, 0x64, 0x65];
    proof {
        assert(a@ =~= key_error_code());
    }
    a
}

/// "errorDescr"
pub open spec fn key_error_descr() -> Seq<u8> {
    seq![0x65u8, 0x72u8, 0x72u8, 0x6fu8, 0x72u8, 0x44u8, 0x65u8, 0x73u8, 0x63u8, 0x72u8]
}

pub fn kx_error_descr() -> (r: [u8; 10])
    ensures
        r@ == key_error_descr(),
{
    let a: [u8; 10] = [0x65, 0x72, 0x72, 0x6f, 0x72, 0x44, 0x65, 0x73, 0x63, 0x72];
    proof {
        assert(a@ =~= key_error_descr());
    }
    a
}

/// "expiration"
pub open spec fn key_expiration() -> Seq<u8> {
    seq![0x65u8, 0x78u8, 0x70u8, 0x69u8, 0x72u8, 0x61u8, 0x74u8, 0x69u8, 0x6fu8, 0x6eu8]
}

pub fn kx_expiration() -> (r: [u8; 10])
    ensures
        r@ == key_expiration(),
{
    let a: [u8; 10] = [0x65, 0x78, 0x70, 0x69, 0x72, 0x61, 0x74, 0x69, 0x6f, 0x6e];
    proof {
        assert(a@ =~= key_expiration());
    }
    a
}

/// "group"
pub open spec fn key_group() -> Seq<u8> {
    seq![0x67u8, 0x72u8, 0x6fu8, 0x75u8, 0x70u8]
}

pub fn kx_group() -> (r: [u8; 5])
    ensures
        r@ == key_group(),
{
    let a: [u8; 5] = [0x67, 0x72, 0x6f, 0x75, 0x70];
    proof {
        assert(a@ =~= key_group());
    }
    a
}

/// "high"
pub open spec fn key_high() -> Seq<u8> {
    seq![0x68u8, 0x69u8, 0x67u8, 0x68u8]
}

pub fn kx_high() -> (r: [u8; 4])
    ensures
        r@ == key_high(),
{
    let a: [u8; 4] = [0x68, 0x69, 0x67, 0x68];
    proof {
        assert(a@ =~= key_high());
    }
    a
}

/// "ibAccount"
pub open spec fn key_ib_account() -> Seq<u8> {
    seq![0x69u8, 0x62u8, 0x41u8, 0x63u8, 0x63u8, 0x6fu8, 0x75u8, 0x6eu8, 0x74u8]
}

pub fn kx_ib_account() -> (r: [u8; 9])
    ensures
        r@ == key_ib_account(),
{
    let a: [u8; 9] = [0x69, 0x62, 0x41, 0x63, 0x63, 0x6f, 0x75, 0x6e, 0x74];
    proof {
        assert(a@ =~= key_ib_account());
    }
    a
}

/// "info"
pub open spec fn key_info() -> Seq<u8> {
    seq![0x69u8, 0x6eu8, 0x66u8, 0x6fu8]
}

pub fn kx_info() -> (r: [u8; 4])
    ensures
        r@ == key_info(),
{
    let a: [u8; 4] = [0x69, 0x6e, 0x66, 0x6f];
    proof {
        assert(a@ =~= key_info());
    }
    a
}

/// "level"
pub open spec fn key_level() -> Seq<u8> {
    seq![0x6cu8, 0x65u8, 0x76u8, 0x65u8, 0x6cu8]
}

pub fn kx_level() -> (r: [u8; 5])
    ensures
        r@ == key_level(),
{
    let a: [u8; 5] = [0x6c, 0x65, 0x76, 0x65, 0x6c];
    proof {
        assert(a@ =~= key_level());
    }
    a
}

/// "leverage"
pub open spec fn key_leverage() -> Seq<u8> {
    seq![0x6cu8, 0x65u8, 0x76u8, 0x65u8, 0x72u8, 0x61u8, 0x67u8, 0x65u8]
}

pub fn kx_leverage() -> (r: [u8; 8])
    ensures
        r@ == key_leverage(),
{
    let a: [u8; 8] = [0x6c, 0x65, 0x76, 0x65, 0x72, 0x61, 0x67, 0x65];
    proof {
        assert(a@ =~= key_leverage());
    }
    a
}

/// "leverageMultiplier"
pub open spec fn key_leverage_multiplier() -> Seq<u8> {
    seq![0x6cu8, 0x65u8, 0x76u8, 0x65u8, 0x72u8, 0x61u8, 0x67u8, 0x65u8, 0x4du8, 0x75u8, 0x6cu8, 0x74u8, 0x69u8, 0x70u8, 0x6cu8, 0x69u8, 0x65u8, 0x72u8]
}

pub fn kx_leverage_multiplier() -> (r: [u8; 18])
    ensures
        r@ == key_leverage_multiplier(),
{
    let a: [u8; 18] = [0x6c, 0x65, 0x76, 0x65, 0x72, 0x61, 0x67, 0x65, 0x4d, 0x75, 0x6c, 0x74, 0x69, 0x70, 0x6c, 0x69, 0x65, 0x72];
    proof {
        assert(a@ =~= key_leverage_multiplier());
    }
    a
}

/// "low"
pub open spec fn key_low() -> Seq<u8> {
    seq![0x6cu8, 0x6fu8, 0x77u8]
}

pub fn kx_low() -> (r: [u8; 3])
    ensures
        r@ == key_low(),
{
    let a: [u8; 3] = [0x6c, 0x6f, 0x77];
    proof {
        assert(a@ =~= key_low());
    }
    a
}

/// "margin"
pub open spec fn key_margin() -> Seq<u8> {
    seq![0x6du8, 0x61u8, 0x72u8, 0x67u8, 0x69u8, 0x6eu8]
}

pub fn kx_margin() -> (r: [u8; 6])
    ensures
        r@ == key_margin(),
{
    let a: [u8; 6] = [0x6d, 0x61, 0x72, 0x67, 0x69, 0x6e];
    proof {
        assert(a@ =~= key_margin());
    }
    a
}

/// "marginFree"
pub open spec fn key_margin_free() -> Seq<u8> {
    seq![0x6du8, 0x61u8, 0x72u8, 0x67u8, 0x69u8, 0x6eu8, 0x46u8, 0x72u8, 0x65u8, 0x65u8]
}

pub fn kx_margin_free() -> (r: [u8; 10])
    ensures
        r@ == key_margin_free(),
{
    let a: [u8; 10] = [0x6d, 0x61, 0x72, 0x67, 0x69, 0x6e, 0x46, 0x72, 0x65, 0x65];
    proof {
        assert(a@ =~= key_margin_free());
    }
    a
}

/// "marginLevel"
pub open spec fn key_margin_level() -> Seq<u8> {
    seq![0x6du8, 0x61u8, 0x72u8, 0x67u8, 0x69u8, 0x6eu8, 0x4cu8, 0x65u8, 0x76u8, 0x65u8, 0x6cu8]
}

pub fn kx_margin_level() -> (r: [u8; 11])
    ensures
        r@ == key_margin_level(),
{
    let a: [u8; 11] = [0x6d, 0x61, 0x72, 0x67, 0x69, 0x6e, 0x4c, 0x65, 0x76, 0x65, 0x6c];
    proof {
        assert(a@ =~= key_margin_level());
    }
    a
}

/// "margin_rate"
pub open spec fn key_margin_rate() -> Seq<u8> {
    seq![0x6du8, 0x61u8, 0x72u8, 0x67u8, 0x69u8, 0x6eu8, 0x5fu8, 0x72u8, 0x61u8, 0x74u8, 0x65u8]
}

pub fn kx_margin_rate() -> (r: [u8; 11])
    ensures
        r@ == key_margin_rate(),
{
    let a: [u8; 11] = [0x6d, 0x61, 0x72, 0x67, 0x69, 0x6e, 0x5f, 0x72, 0x61, 0x74, 0x65];
    proof {
        assert(a@ =~= key_margin_rate());
    }
    a
}

/// "maxLevel"
pub open spec fn key_max_level() -> Seq<u8> {
    seq![0x6du8, 0x61u8, 0x78u8, 0x4cu8, 0x65u8, 0x76u8, 0x65u8, 0x6cu8]
}

pub fn kx_max_level() -> (r: [u8; 8])
    ensures
        r@ == key_max_level(),
{
    let a: [u8; 8] = [0x6d, 0x61, 0x78, 0x4c, 0x65, 0x76, 0x65, 0x6c];
    proof {
        assert(a@ =~= key_max_level());
    }
    a
}

/// "message"
pub open spec fn key_message() -> Seq<u8> {
    seq![0x6du8, 0x65u8, 0x73u8, 0x73u8, 0x61u8, 0x67u8, 0x65u8]
}

pub fn kx_message() -> (r: [u8; 7])
    ensures
        r@ == key_message(),
{
    let a: [u8; 7] = [0x6d, 0x65, 0x73, 0x73, 0x61, 0x67, 0x65];
    proof {
        assert(a@ =~= key_message());
    }
    a
}

/// "minArrivalTime"
pub open spec fn key_min_arrival_time() -> Seq<u8> {
    seq![0x6du8, 0x69u8, 0x6eu8, 0x41u8, 0x72u8, 0x72u8, 0x69u8, 0x76u8, 0x61u8, 0x6cu8, 0x54u8, 0x69u8, 0x6du8, 0x65u8]
}

pub fn kx_min_arrival_time() -> (r: [u8; 14])
    ensures
        r@ == key_min_arrival_time(),
{
    let a: [u8; 14] = [0x6d, 0x69, 0x6e, 0x41, 0x72, 0x72, 0x69, 0x76, 0x61, 0x6c, 0x54, 0x69, 0x6d, 0x65];
    proof {
        assert(a@ =~= key_min_arrival_time());
    }
    a
}

/// "offset"
pub open spec fn key_offset() -> Seq<u8> {
    seq![0x6fu8, 0x66u8, 0x66u8, 0x73u8, 0x65u8, 0x74u8]
}

pub fn kx_offset() -> (r: [u8; 6])
    ensures
        r@ == key_offset(),
{
    let a: [u8; 6] = [0x6f, 0x66, 0x66, 0x73, 0x65, 0x74];
    proof {
        assert(a@ =~= key_offset());
    }
    a
}

/// "open"
pub open spec fn key_open() -> Seq<u8> {
    seq![0x6fu8, 0x70u8, 0x65u8, 0x6eu8]
}

pub fn kx_open() -> (r: [u8; 4])
    ensures
        r@ == key_open(),
{
    let a: [u8; 4] = [0x6f, 0x70, 0x65, 0x6e];
    proof {
        assert(a@ =~= key_open());
    }
    a
}

/// "open_price"
pub open spec fn key_open_price() -> Seq<u8> {
    seq![0x6fu8, 0x70u8, 0x65u8, 0x6eu8, 0x5fu8, 0x70u8, 0x72u8, 0x69u8, 0x63u8, 0x65u8]
}

pub fn kx_open_price() -> (r: [u8; 10])
    ensures
        r@ == key_open_price(),
{
    let a: [u8; 10] = [0x6f, 0x70, 0x65, 0x6e, 0x5f, 0x70, 0x72, 0x69, 0x63, 0x65];
    proof {
        assert(a@ =~= key_open_price());
    }
    a
}

/// "open_time"
pub open spec fn key_open_time() -> Seq<u8> {
    seq![0x6fu8, 0x70u8, 0x65u8, 0x6eu8, 0x5fu8, 0x74u8, 0x69u8, 0x6du8, 0x65u8]
}

pub fn kx_open_time() -> (r: [u8; 9])
    ensures
        r@ == key_open_time(),
{
    let a: [u8; 9] = [0x6f, 0x70, 0x65, 0x6e, 0x5f, 0x74, 0x69, 0x6d, 0x65];
    proof {
        assert(a@ =~= key_open_time());
    }
    a
}

/// "order"
pub open spec fn key_order() -> Seq<u8> {
    seq![0x6fu8, 0x72u8, 0x64u8, 0x65u8, 0x72u8]
}

pub fn kx_order() -> (r: [u8; 5])
    ensures
        r@ == key_order(),
{
    let a: [u8; 5] = [0x6f, 0x72, 0x64, 0x65, 0x72];
    proof {
        assert(a@ =~= key_order());
    }
    a
}

/// "order2"
pub open spec fn key_order2() -> Seq<u8> {
    seq![0x6fu8, 0x72u8, 0x64u8, 0x65u8, 0x72u8, 0x32u8]
}

pub fn kx_order2() -> (r: [u8; 6])
    ensures
        r@ == key_order2(),
{
    let a: [u8; 6] = [0x6f, 0x72, 0x64, 0x65, 0x72, 0x32];
    proof {
        assert(a@ =~= key_order2());
    }
    a
}

/// "password"
pub open spec fn key_password() -> Seq<u8> {
    seq![0x70u8, 0x61u8, 0x73u8, 0x73u8, 0x77u8, 0x6fu8, 0x72u8, 0x64u8]
}

pub fn kx_password() -> (r: [u8; 8])
    ensures
        r@ == key_password(),
{
    let a: [u8; 8] = [0x70, 0x61, 0x73, 0x73, 0x77, 0x6f, 0x72, 0x64];
    proof {
        assert(a@ =~= key_password());
    }
    a
}

/// "period"
pub open spec fn key_period() -> Seq<u8> {
    seq![0x70u8, 0x65u8, 0x72u8, 0x69u8, 0x6fu8, 0x64u8]
}

pub fn kx_period() -> (r: [u8; 6])
    ensures
        r@ == key_period(),
{
    let a: [u8; 6] = [0x70, 0x65, 0x72, 0x69, 0x6f, 0x64];
    proof {
        assert(a@ =~= key_period());
    }
    a
}

/// "position"
pub open spec fn key_position() -> Seq<u8> {
    seq![0x70u8, 0x6fu8, 0x73u8, 0x69u8, 0x74u8, 0x69u8, 0x6fu8, 0x6eu8]
}

pub fn kx_position() -> (r: [u8; 8])
    ensures
        r@ == key_position(),
{
    let a: [u8; 8] = [0x70, 0x6f, 0x73, 0x69, 0x74, 0x69, 0x6f, 0x6e];
    proof {
        assert(a@ =~= key_position());
    }
    a
}

/// "price"
pub open spec fn key_price() -> Seq<u8> {
    seq![0x70u8, 0x72u8, 0x69u8, 0x63u8, 0x65u8]
}

pub fn kx_price() -> (r: [u8; 5])
    ensures
        r@ == key_price(),
{
    let a: [u8; 5] = [0x70, 0x72, 0x69, 0x63, 0x65];
    proof {
        assert(a@ =~= key_price());
    }
    a
}

/// "profit"
pub open spec fn key_profit() -> Seq<u8> {
    seq![0x70u8, 0x72u8, 0x6fu8, 0x66u8, 0x69u8, 0x74u8]
}

pub fn kx_profit() -> (r: [u8; 6])
    ensures
        r@ == key_profit(),
{
    let a: [u8; 6] = [0x70, 0x72, 0x6f, 0x66, 0x69, 0x74];
    proof {
        assert(a@ =~= key_profit());
    }
    a
}

/// "quoteId"
pub open spec fn key_quote_id() -> Seq<u8> {
    seq![0x71u8, 0x75u8, 0x6fu8, 0x74u8, 0x65u8, 0x49u8, 0x64u8]
}

pub fn kx_quote_id() -> (r: [u8; 7])
    ensures
        r@ == key_quote_id(),
{
    let a: [u8; 7] = [0x71, 0x75, 0x6f, 0x74, 0x65, 0x49, 0x64];
    proof {
        assert(a@ =~= key_quote_id());
    }
    a
}

/// "rateOfExchange"
pub open spec fn key_rate_of_exchange() -> Seq<u8> {
    seq![0x72u8, 0x61u8, 0x74u8, 0x65u8, 0x4fu8, 0x66u8, 0x45u8, 0x78u8, 0x63u8, 0x68u8, 0x61u8, 0x6eu8, 0x67u8, 0x65u8]
}

pub fn kx_rate_of_exchange() -> (r: [u8; 14])
    ensures
        r@ == key_rate_of_exchange(),
{
    let a: [u8; 14] = [0x72, 0x61, 0x74, 0x65, 0x4f, 0x66, 0x45, 0x78, 0x63, 0x68, 0x61, 0x6e, 0x67, 0x65];
    proof {
        assert(a@ =~= key_rate_of_exchange());
    }
    a
}

/// "requestStatus"
pub open spec fn key_request_status() -> Seq<u8> {
    seq![0x72u8, 0x65u8, 0x71u8, 0x75u8, 0x65u8, 0x73u8, 0x74u8, 0x53u8, 0x74u8, 0x61u8, 0x74u8, 0x75u8, 0x73u8]
}

pub fn kx_request_status() -> (r: [u8; 13])
    ensures
        r@ == key_request_status(),
{
    let a: [u8; 13] = [0x72, 0x65, 0x71, 0x75, 0x65, 0x73, 0x74, 0x53, 0x74, 0x61, 0x74, 0x75, 0x73];
    proof {
        assert(a@ =~= key_request_status());
    }
    a
}

/// "returnData"
pub open spec fn key_return_data() -> Seq<u8> {
    seq![0x72u8, 0x65u8, 0x74u8, 0x75u8, 0x72u8, 0x6eu8, 0x44u8, 0x61u8, 0x74u8, 0x61u8]
}

pub fn kx_return_data() -> (r: [u8; 10])
    ensures
        r@ == key_return_data(),
{
    let a: [u8; 10] = [0x72, 0x65, 0x74, 0x75, 0x72, 0x6e, 0x44, 0x61, 0x74, 0x61];
    proof {
        assert(a@ =~= key_return_data());
    }
    a
}

/// "sl"
pub open spec fn key_sl() -> Seq<u8> {
    seq![0x73u8, 0x6cu8]
}

pub fn kx_sl() -> (r: [u8; 2])
    ensures
        r@ == key_sl(),
{
    let a: [u8; 2] = [0x73, 0x6c];
    proof {
        assert(a@ =~= key_sl());
    }
    a
}

/// "spreadRaw"
pub open spec fn key_spread_raw() -> Seq<u8> {
    seq![0x73u8, 0x70u8, 0x72u8, 0x65u8, 0x61u8, 0x64u8, 0x52u8, 0x61u8, 0x77u8]
}

pub fn kx_spread_raw() -> (r: [u8; 9])
    ensures
        r@ == key_spread_raw(),
{
    let a: [u8; 9] = [0x73, 0x70, 0x72, 0x65, 0x61, 0x64, 0x52, 0x61, 0x77];
    proof {
        assert(a@ =~= key_spread_raw());
    }
    a
}

/// "spreadTable"
pub open spec fn key_spread_table() -> Seq<u8> {
    seq![0x73u8, 0x70u8, 0x72u8, 0x65u8, 0x61u8, 0x64u8, 0x54u8, 0x61u8, 0x62u8, 0x6cu8, 0x65u8]
}

pub fn kx_spread_table() -> (r: [u8; 11])
    ensures
        r@ == key_spread_table(),
{
    let a: [u8; 11] = [0x73, 0x70, 0x72, 0x65, 0x61, 0x64, 0x54, 0x61, 0x62, 0x6c, 0x65];
    proof {
        assert(a@ =~= key_spread_table());
    }
    a
}

/// "spreadType"
pub open spec fn key_spread_type() -> Seq<u8> {
    seq![0x73u8, 0x70u8, 0x72u8, 0x65u8, 0x61u8, 0x64u8, 0x54u8, 0x79u8, 0x70u8, 0x65u8]
}

pub fn kx_spread_type() -> (r: [u8; 10])
    ensures
        r@ == key_spread_type(),
{
    let a: [u8; 10] = [0x73, 0x70, 0x72, 0x65, 0x61, 0x64, 0x54, 0x79, 0x70, 0x65];
    proof {
        assert(a@ =~= key_spread_type());
    }
    a
}

/// "start"
pub open spec fn key_start() -> Seq<u8> {
    seq![0x73u8, 0x74u8, 0x61u8, 0x72u8, 0x74u8]
}

pub fn kx_start() -> (r: [u8; 5])
    ensures
        r@ == key_start(),
{
    let a: [u8; 5] = [0x73, 0x74, 0x61, 0x72, 0x74];
    proof {
        assert(a@ =~= key_start());
    }
    a
}

/// "state"
pub open spec fn key_state() -> Seq<u8> {
    seq![0x73u8, 0x74u8, 0x61u8, 0x74u8, 0x65u8]
}

pub fn kx_state() -> (r: [u8; 5])
    ensures
        r@ == key_state(),
{
    let a: [u8; 5] = [0x73, 0x74, 0x61, 0x74, 0x65];
    proof {
        assert(a@ =~= key_state());
    }
    a
}

/// "status"
pub open spec fn key_status() -> Seq<u8> {
    seq![0x73u8, 0x74u8, 0x61u8, 0x74u8, 0x75u8, 0x73u8]
}

pub fn kx_status() -> (r: [u8; 6])
    ensures
        r@ == key_status(),
{
    let a: [u8; 6] = [0x73, 0x74, 0x61, 0x74, 0x75, 0x73];
    proof {
        assert(a@ =~= key_status());
    }
    a
}

/// "storage"
pub open spec fn key_storage() -> Seq<u8> {
    seq![0x73u8, 0x74u8, 0x6fu8, 0x72u8, 0x61u8, 0x67u8, 0x65u8]
}

pub fn kx_storage() -> (r: [u8; 7])
    ensures
        r@ == key_storage(),
{
    let a: [u8; 7] = [0x73, 0x74, 0x6f, 0x72, 0x61, 0x67, 0x65];
    proof {
        assert(a@ =~= key_storage());
    }
    a
}

/// "streamSessionId"
pub open spec fn key_stream_session_id() -> Seq<u8> {
    seq![0x73u8, 0x74u8, 0x72u8, 0x65u8, 0x61u8, 0x6du8, 0x53u8, 0x65u8, 0x73u8, 0x73u8, 0x69u8, 0x6fu8, 0x6eu8, 0x49u8, 0x64u8]
}

pub fn kx_stream_session_id() -> (r: [u8; 15])
    ensures
        r@ == key_stream_session_id(),
{
    let a: [u8; 15] = [0x73, 0x74, 0x72, 0x65, 0x61, 0x6d, 0x53, 0x65, 0x73, 0x73, 0x69, 0x6f, 0x6e, 0x49, 0x64];
    proof {
        assert(a@ =~= key_stream_session_id());
    }
    a
}

/// "symbol"
pub open spec fn key_symbol() -> Seq<u8> {
    seq![0x73u8, 0x79u8, 0x6du8, 0x62u8, 0x6fu8, 0x6cu8]
}

pub fn kx_symbol() -> (r: [u8; 6])
    ensures
        r@ == key_symbol(),
{
    let a: [u8; 6] = [0x73, 0x79, 0x6d, 0x62, 0x6f, 0x6c];
    proof {
        assert(a@ =~= key_symbol());
    }
    a
}

/// "time"
pub open spec fn key_time() -> Seq<u8> {
    seq![0x74u8, 0x69u8, 0x6du8, 0x65u8]
}

pub fn kx_time() -> (r: [u8; 4])
    ensures
        r@ == key_time(),
{
    let a: [u8; 4] = [0x74, 0x69, 0x6d, 0x65];
    proof {
        assert(a@ =~= key_time());
    }
    a
}

/// "timeString"
pub open spec fn key_time_string() -> Seq<u8> {
    seq![0x74u8, 0x69u8, 0x6du8, 0x65u8, 0x53u8, 0x74u8, 0x72u8, 0x69u8, 0x6eu8, 0x67u8]
}

pub fn kx_time_string() -> (r: [u8; 10])
    ensures
        r@ == key_time_string(),
{
    let a: [u8; 10] = [0x74, 0x69, 0x6d, 0x65, 0x53, 0x74, 0x72, 0x69, 0x6e, 0x67];
    proof {
        assert(a@ =~= key_time_string());
    }
    a
}

/// "timestamp"
pub open spec fn key_timestamp() -> Seq<u8> {
    seq![0x74u8, 0x69u8, 0x6du8, 0x65u8, 0x73u8, 0x74u8, 0x61u8, 0x6du8, 0x70u8]
}

pub fn kx_timestamp() -> (r: [u8; 9])
    ensures
        r@ == key_timestamp(),
{
    let a: [u8; 9] = [0x74, 0x69, 0x6d, 0x65, 0x73, 0x74, 0x61, 0x6d, 0x70];
    proof {
        assert(a@ =~= key_timestamp());
    }
    a
}

/// "tp"
pub open spec fn key_tp() -> Seq<u8> {
    seq![0x74u8, 0x70u8]
}

pub fn kx_tp() -> (r: [u8; 2])
    ensures
        r@ == key_tp(),
{
    let a: [u8; 2] = [0x74, 0x70];
    proof {
        assert(a@ =~= key_tp());
    }
    a
}

/// "tradeTransInfo"
pub open spec fn key_trade_trans_info() -> Seq<u8> {
    seq![0x74u8, 0x72u8, 0x61u8, 0x64u8, 0x65u8, 0x54u8, 0x72u8, 0x61u8, 0x6eu8, 0x73u8, 0x49u8, 0x6eu8, 0x66u8, 0x6fu8]
}

pub fn kx_trade_trans_info() -> (r: [u8; 14])
    ensures
        r@ == key_trade_trans_info(),
{
    let a: [u8; 14] = [0x74, 0x72, 0x61, 0x64, 0x65, 0x54, 0x72, 0x61, 0x6e, 0x73, 0x49, 0x6e, 0x66, 0x6f];
    proof {
        assert(a@ =~= key_trade_trans_info());
    }
    a
}

/// "trailingStop"
pub open spec fn key_trailing_stop() -> Seq<u8> {
    seq![0x74u8, 0x72u8, 0x61u8, 0x69u8, 0x6cu8, 0x69u8, 0x6eu8, 0x67u8, 0x53u8, 0x74u8, 0x6fu8, 0x70u8]
}

pub fn kx_trailing_stop() -> (r: [u8; 12])
    ensures
        r@ == key_trailing_stop(),
{
    let a: [u8; 12] = [0x74, 0x72, 0x61, 0x69, 0x6c, 0x69, 0x6e, 0x67, 0x53, 0x74, 0x6f, 0x70];
    proof {
        assert(a@ =~= key_trailing_stop());
    }
    a
}

/// "type"
pub open spec fn key_type() -> Seq<u8> {
    seq![0x74u8, 0x79u8, 0x70u8, 0x65u8]
}

pub fn kx_type() -> (r: [u8; 4])
    ensures
        r@ == key_type(),
{
    let a: [u8; 4] = [0x74, 0x79, 0x70, 0x65];
    proof {
        assert(a@ =~= key_type());
    }
    a
}

/// "userId"
pub open spec fn key_user_id() -> Seq<u8> {
    seq![0x75u8, 0x73u8, 0x65u8, 0x72u8, 0x49u8, 0x64u8]
}

pub fn kx_user_id() -> (r: [u8; 6])
    ensures
        r@ == key_user_id(),
{
    let a: [u8; 6] = [0x75, 0x73, 0x65, 0x72, 0x49, 0x64];
    proof {
        assert(a@ =~= key_user_id());
    }
    a
}

/// "vol"
pub open spec fn key_vol() -> Seq<u8> {
    seq![0x76u8, 0x6fu8, 0x6cu8]
}

pub fn kx_vol() -> (r: [u8; 3])
    ensures
        r@ == key_vol(),
{
    let a: [u8; 3] = [0x76, 0x6f, 0x6c];
    proof {
        assert(a@ =~= key_vol());
    }
    a
}

/// "volume"
pub open spec fn key_volume() -> Seq<u8> {
    seq![0x76u8, 0x6fu8, 0x6cu8, 0x75u8, 0x6du8, 0x65u8]
}

pub fn kx_volume() -> (r: [u8; 6])
    ensures
        r@ == key_volume(),
{
    let a: [u8; 6] = [0x76, 0x6f, 0x6c, 0x75, 0x6d, 0x65];
    proof {
        assert(a@ =~= key_volume());
    }
    a
}

/// "balance"
pub open spec fn tag_balance() -> Seq<u8> {
    seq![0x62u8, 0x61u8, 0x6cu8, 0x61u8, 0x6eu8, 0x63u8, 0x65u8]
}

pub fn tx_balance() -> (r: [u8; 7])
    ensures
        r@ == tag_balance(),
{
    let a: [u8; 7] = [0x62, 0x61, 0x6c, 0x61, 0x6e, 0x63, 0x65];
    proof {
        assert(a@ =~= tag_balance());
    }
    a
}

/// "candle"
pub open spec fn tag_candle() -> Seq<u8> {
    seq![0x63u8, 0x61u8, 0x6eu8, 0x64u8, 0x6cu8, 0x65u8]
}

pub fn tx_candle() -> (r: [u8; 6])
    ensures
        r@ == tag_candle(),
{
    let a: [u8; 6] = [0x63, 0x61, 0x6e, 0x64, 0x6c, 0x65];
    proof {
        assert(a@ =~= tag_candle());
    }
    a
}

/// "getBalance"
pub open spec fn tag_get_balance() -> Seq<u8> {
    seq![0x67u8, 0x65u8, 0x74u8, 0x42u8, 0x61u8, 0x6cu8, 0x61u8, 0x6eu8, 0x63u8, 0x65u8]
}

pub fn tx_get_balance() -> (r: [u8; 10])
    ensures
        r@ == tag_get_balance(),
{
    let a: [u8; 10] = [0x67, 0x65, 0x74, 0x42, 0x61, 0x6c, 0x61, 0x6e, 0x63, 0x65];
    proof {
        assert(a@ =~= tag_get_balance());
    }
    a
}

/// "getCandles"
pub open spec fn tag_get_candles() -> Seq<u8> {
    seq![0x67u8, 0x65u8, 0x74u8, 0x43u8, 0x61u8, 0x6eu8, 0x64u8, 0x6cu8, 0x65u8, 0x73u8]
}

pub fn tx_get_candles() -> (r: [u8; 10])
    ensures
        r@ == tag_get_candles(),
{
    let a: [u8; 10] = [0x67, 0x65, 0x74, 0x43, 0x61, 0x6e, 0x64, 0x6c, 0x65, 0x73];
    proof {
        assert(a@ =~= tag_get_candles());
    }
    a
}

/// "getChartLastRequest"
pub open spec fn tag_get_chart_last_request() -> Seq<u8> {
    seq![0x67u8, 0x65u8, 0x74u8, 0x43u8, 0x68u8, 0x61u8, 0x72u8, 0x74u8, 0x4cu8, 0x61u8, 0x73u8, 0x74u8, 0x52u8, 0x65u8, 0x71u8, 0x75u8, 0x65u8, 0x73u8, 0x74u8]
}

pub fn tx_get_chart_last_request() -> (r: [u8; 19])
    ensures
        r@ == tag_get_chart_last_request(),
{
    let a: [u8; 19] = [0x67, 0x65, 0x74, 0x43, 0x68, 0x61, 0x72, 0x74, 0x4c, 0x61, 0x73, 0x74, 0x52, 0x65, 0x71, 0x75, 0x65, 0x73, 0x74];
    proof {
        assert(a@ =~= tag_get_chart_last_request());
    }
    a
}

/// "getCommissionDef"
pub open spec fn tag_get_commission_def() -> Seq<u8> {
    seq![0x67u8, 0x65u8, 0x74u8, 0x43u8, 0x6fu8, 0x6du8, 0x6du8, 0x69u8, 0x73u8, 0x73u8, 0x69u8, 0x6fu8, 0x6eu8, 0x44u8, 0x65u8, 0x66u8]
}

pub fn tx_get_commission_def() -> (r: [u8; 16])
    ensures
        r@ == tag_get_commission_def(),
{
    let a: [u8; 16] = [0x67, 0x65, 0x74, 0x43, 0x6f, 0x6d, 0x6d, 0x69, 0x73, 0x73, 0x69, 0x6f, 0x6e, 0x44, 0x65, 0x66];
    proof {
        assert(a@ =~= tag_get_commission_def());
    }
    a
}

/// "getCurrentUserData"
pub open spec fn tag_get_current_user_data() -> Seq<u8> {
    seq![0x67u8, 0x65u8, 0x74u8, 0x43u8, 0x75u8, 0x72u8, 0x72u8, 0x65u8, 0x6eu8, 0x74u8, 0x55u8, 0x73u8, 0x65u8, 0x72u8, 0x44u8, 0x61u8, 0x74u8, 0x61u8]
}

pub fn tx_get_current_user_data() -> (r: [u8; 18])
    ensures
        r@ == tag_get_current_user_data(),
{
    let a: [u8; 18] = [0x67, 0x65, 0x74, 0x43, 0x75, 0x72, 0x72, 0x65, 0x6e, 0x74, 0x55, 0x73, 0x65, 0x72, 0x44, 0x61, 0x74, 0x61];
    proof {
        assert(a@ =~= tag_get_current_user_data());
    }
    a
}

/// "getKeepAlive"
pub open spec fn tag_get_keep_alive() -> Seq<u8> {
    seq![0x67u8, 0x65u8, 0x74u8, 0x4bu8, 0x65u8, 0x65u8, 0x70u8, 0x41u8, 0x6cu8, 0x69u8, 0x76u8, 0x65u8]
}

pub fn tx_get_keep_alive() -> (r: [u8; 12])
    ensures
        r@ == tag_get_keep_alive(),
{
    let a: [u8; 12] = [0x67, 0x65, 0x74, 0x4b, 0x65, 0x65, 0x70, 0x41, 0x6c, 0x69, 0x76, 0x65];
    proof {
        assert(a@ =~= tag_get_keep_alive());
    }
    a
}

/// "getMarginTrade"
pub open spec fn tag_get_margin_trade() -> Seq<u8> {
    seq![0x67u8, 0x65u8, 0x74u8, 0x4du8, 0x61u8, 0x72u8, 0x67u8, 0x69u8, 0x6eu8, 0x54u8, 0x72u8, 0x61u8, 0x64u8, 0x65u8]
}

pub fn tx_get_margin_trade() -> (r: [u8; 14])
    ensures
        r@ == tag_get_margin_trade(),
{
    let a: [u8; 14] = [0x67, 0x65, 0x74, 0x4d, 0x61, 0x72, 0x67, 0x69, 0x6e, 0x54, 0x72, 0x61, 0x64, 0x65];
    proof {
        assert(a@ =~= tag_get_margin_trade());
    }
    a
}

/// "getServerTime"
pub open spec fn tag_get_server_time() -> Seq<u8> {
    seq![0x67u8, 0x65u8, 0x74u8, 0x53u8, 0x65u8, 0x72u8, 0x76u8, 0x65u8, 0x72u8, 0x54u8, 0x69u8, 0x6du8, 0x65u8]
}

pub fn tx_get_server_time() -> (r: [u8; 13])
    ensures
        r@ == tag_get_server_time(),
{
    let a: [u8; 13] = [0x67, 0x65, 0x74, 0x53, 0x65, 0x72, 0x76, 0x65, 0x72, 0x54, 0x69, 0x6d, 0x65];
    proof {
        assert(a@ =~= tag_get_server_time());
    }
    a
}

/// "getSymbol"
pub open spec fn tag_get_symbol() -> Seq<u8> {
    seq![0x67u8, 0x65u8, 0x74u8, 0x53u8, 0x79u8, 0x6du8, 0x62u8, 0x6fu8, 0x6cu8]
}

pub fn tx_get_symbol() -> (r: [u8; 9])
    ensures
        r@ == tag_get_symbol(),
{
    let a: [u8; 9] = [0x67, 0x65, 0x74, 0x53, 0x79, 0x6d, 0x62, 0x6f, 0x6c];
    proof {
        assert(a@ =~= tag_get_symbol());
    }
    a
}

/// "getTickPrices"
pub open spec fn tag_get_tick_prices() -> Seq<u8> {
    seq![0x67u8, 0x65u8, 0x74u8, 0x54u8, 0x69u8, 0x63u8, 0x6bu8, 0x50u8, 0x72u8, 0x69u8, 0x63u8, 0x65u8, 0x73u8]
}

pub fn tx_get_tick_prices() -> (r: [u8; 13])
    ensures
        r@ == tag_get_tick_prices(),
{
    let a: [u8; 13] = [0x67, 0x65, 0x74, 0x54, 0x69, 0x63, 0x6b, 0x50, 0x72, 0x69, 0x63, 0x65, 0x73];
    proof {
        assert(a@ =~= tag_get_tick_prices());
    }
    a
}

/// "getTradeStatus"
pub open spec fn tag_get_trade_status() -> Seq<u8> {
    seq![0x67u8, 0x65u8, 0x74u8, 0x54u8, 0x72u8, 0x61u8, 0x64u8, 0x65u8, 0x53u8, 0x74u8, 0x61u8, 0x74u8, 0x75u8, 0x73u8]
}

pub fn tx_get_trade_status() -> (r: [u8; 14])
    ensures
        r@ == tag_get_trade_status(),
{
    let a: [u8; 14] = [0x67, 0x65, 0x74, 0x54, 0x72, 0x61, 0x64, 0x65, 0x53, 0x74, 0x61, 0x74, 0x75, 0x73];
    proof {
        assert(a@ =~= tag_get_trade_status());
    }
    a
}

/// "getTrades"
pub open spec fn tag_get_trades() -> Seq<u8> {
    seq![0x67u8, 0x65u8, 0x74u8, 0x54u8, 0x72u8, 0x61u8, 0x64u8, 0x65u8, 0x73u8]
}

pub fn tx_get_trades() -> (r: [u8; 9])
    ensures
        r@ == tag_get_trades(),
{
    let a: [u8; 9] = [0x67, 0x65, 0x74, 0x54, 0x72, 0x61, 0x64, 0x65, 0x73];
    proof {
        assert(a@ =~= tag_get_trades());
    }
    a
}

/// "keepAlive"
pub open spec fn tag_keep_alive() -> Seq<u8> {
    seq![0x6bu8, 0x65u8, 0x65u8, 0x70u8, 0x41u8, 0x6cu8, 0x69u8, 0x76u8, 0x65u8]
}

pub fn tx_keep_alive() -> (r: [u8; 9])
    ensures
        r@ == tag_keep_alive(),
{
    let a: [u8; 9] = [0x6b, 0x65, 0x65, 0x70, 0x41, 0x6c, 0x69, 0x76, 0x65];
    proof {
        assert(a@ =~= tag_keep_alive());
    }
    a
}

/// "login"
pub open spec fn tag_login() -> Seq<u8> {
    seq![0x6cu8, 0x6fu8, 0x67u8, 0x69u8, 0x6eu8]
}

pub fn tx_login() -> (r: [u8; 5])
    ensures
        r@ == tag_login(),
{
    let a: [u8; 5] = [0x6c, 0x6f, 0x67, 0x69, 0x6e];
    proof {
        assert(a@ =~= tag_login());
    }
    a
}

/// "logout"
pub open spec fn tag_logout() -> Seq<u8> {
    seq![0x6cu8, 0x6fu8, 0x67u8, 0x6fu8, 0x75u8, 0x74u8]
}

pub fn tx_logout() -> (r: [u8; 6])
    ensures
        r@ == tag_logout(),
{
    let a: [u8; 6] = [0x6c, 0x6f, 0x67, 0x6f, 0x75, 0x74];
    proof {
        assert(a@ =~= tag_logout());
    }
    a
}

/// "tickPrices"
pub open spec fn tag_tick_prices() -> Seq<u8> {
    seq![0x74u8, 0x69u8, 0x63u8, 0x6bu8, 0x50u8, 0x72u8, 0x69u8, 0x63u8, 0x65u8, 0x73u8]
}

pub fn tx_tick_prices() -> (r: [u8; 10])
    ensures
        r@ == tag_tick_prices(),
{
    let a: [u8; 10] = [0x74, 0x69, 0x63, 0x6b, 0x50, 0x72, 0x69, 0x63, 0x65, 0x73];
    proof {
        assert(a@ =~= tag_tick_prices());
    }
    a
}

/// "trade"
pub open spec fn tag_trade() -> Seq<u8> {
    seq![0x74u8, 0x72u8, 0x61u8, 0x64u8, 0x65u8]
}

pub fn tx_trade() -> (r: [u8; 5])
    ensures
        r@ == tag_trade(),
{
    let a: [u8; 5] = [0x74, 0x72, 0x61, 0x64, 0x65];
    proof {
        assert(a@ =~= tag_trade());
    }
    a
}

/// "tradeStatus"
pub open spec fn tag_trade_status() -> Seq<u8> {
    seq![0x74u8, 0x72u8, 0x61u8, 0x64u8, 0x65u8, 0x53u8, 0x74u8, 0x61u8, 0x74u8, 0x75u8, 0x73u8]
}

pub fn tx_trade_status() -> (r: [u8; 11])
    ensures
        r@ == tag_trade_status(),
{
    let a: [u8; 11] = [0x74, 0x72, 0x61, 0x64, 0x65, 0x53, 0x74, 0x61, 0x74, 0x75, 0x73];
    proof {
        assert(a@ =~= tag_trade_status());
    }
    a
}

/// "tradeTransaction"
pub open spec fn tag_trade_transaction() -> Seq<u8> {
    seq![0x74u8, 0x72u8, 0x61u8, 0x64u8, 0x65u8, 0x54u8, 0x72u8, 0x61u8, 0x6eu8, 0x73u8, 0x61u8, 0x63u8, 0x74u8, 0x69u8, 0x6fu8, 0x6eu8]
}

pub fn tx_trade_transaction() -> (r: [u8; 16])
    ensures
        r@ == tag_trade_transaction(),
{
    let a: [u8; 16] = [0x74, 0x72, 0x61, 0x64, 0x65, 0x54, 0x72, 0x61, 0x6e, 0x73, 0x61, 0x63, 0x74, 0x69, 0x6f, 0x6e];
    proof {
        assert(a@ =~= tag_trade_transaction());
    }
    a
}

/// "tradeTransactionStatus"
pub open spec fn tag_trade_transaction_status() -> Seq<u8> {
    seq![0x74u8, 0x72u8, 0x61u8, 0x64u8, 0x65u8, 0x54u8, 0x72u8, 0x61u8, 0x6eu8, 0x73u8, 0x61u8, 0x63u8, 0x74u8, 0x69u8, 0x6fu8, 0x6eu8, 0x53u8, 0x74u8, 0x61u8, 0x74u8, 0x75u8, 0x73u8]
}

pub fn tx_trade_transaction_status() -> (r: [u8; 22])
    ensures
        r@ == tag_trade_transaction_status(),
{
    let a: [u8; 22] = [0x74, 0x72, 0x61, 0x64, 0x65, 0x54, 0x72, 0x61, 0x6e, 0x73, 0x61, 0x63, 0x74, 0x69, 0x6f, 0x6e, 0x53, 0x74, 0x61, 0x74, 0x75, 0x73];
    proof {
        assert(a@ =~= tag_trade_transaction_status());
    }
    a
}

} // verus!
