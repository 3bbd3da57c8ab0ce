//! The subscriptions and push events of the streaming channel.
//!
//! Text fields hold the raw bytes that stand between the quotes on the
//! wire; rates and volumes are exact decimals.

use crate::decimal::{Decimal, spec_dec_of_int};
use crate::json::{
    Json, JsonV, bytes_eq, encode_json, decode_json, spec_print_json, spec_parse_json, lemma_print_parse_json, lemma_view_members_cons, wf_json_text, json_view_members, jv_get, jv_get_bool, jv_get_dec, jv_get_i32, jv_get_i64,
    jv_get_opt_dec, jv_get_opt_i32, jv_get_opt_i64, jv_get_opt_str, jv_get_opt_u32, jv_get_str,
    jv_get_u16, jv_get_u32, lemma_json_view_members, obj_get_from, vec_of,
};
use crate::xapi_definitions::commands_common::{
    Cmd, Period, RequestStatus, State, Type, lemma_cmd_round_trip, lemma_period_round_trip,
    lemma_request_status_round_trip, lemma_state_round_trip, lemma_type_round_trip,
    spec_cmd_code, spec_cmd_from_dec, spec_period_code, spec_period_from_dec,
    spec_request_status_code, spec_request_status_from_dec, spec_state_from_str, spec_state_str,
    spec_type_code, spec_type_from_dec,
};
use crate::xapi_definitions::{Execute, WireJson};
use crate::xapi_definitions::wire_keys::{key_data, kx_data, tag_get_candles, tx_get_candles, tag_get_balance, tx_get_balance, tag_get_keep_alive, tx_get_keep_alive, tag_get_tick_prices, tx_get_tick_prices, tag_get_trades, tx_get_trades, tag_get_trade_status, tx_get_trade_status, tag_candle, tx_candle, tag_balance, tx_balance, tag_keep_alive, tx_keep_alive, tag_tick_prices, tx_tick_prices, tag_trade, tx_trade, tag_trade_status, tx_trade_status, key_ask, kx_ask, key_ask_volume, kx_ask_volume, key_balance, kx_balance, key_bid, kx_bid, key_bid_volume, kx_bid_volume, key_close, kx_close, key_close_price, kx_close_price, key_close_time, kx_close_time, key_closed, kx_closed, key_cmd, kx_cmd, key_command, kx_command, key_comment, kx_comment, key_commission, kx_commission, key_credit, kx_credit, key_ctm, kx_ctm, key_ctm_string, kx_ctm_string, key_custom_comment, kx_custom_comment, key_digits, kx_digits, key_equity, kx_equity, key_expiration, kx_expiration, key_high, kx_high, key_level, kx_level, key_low, kx_low, key_margin, kx_margin, key_margin_free, kx_margin_free, key_margin_level, kx_margin_level, key_margin_rate, kx_margin_rate, key_max_level, kx_max_level, key_message, kx_message, key_min_arrival_time, kx_min_arrival_time, key_offset, kx_offset, key_open, kx_open, key_open_price, kx_open_price, key_open_time, kx_open_time, key_order, kx_order, key_order2, kx_order2, key_position, kx_position, key_price, kx_price, key_profit, kx_profit, key_quote_id, kx_quote_id, key_request_status, kx_request_status, key_sl, kx_sl, key_spread_raw, kx_spread_raw, key_spread_table, kx_spread_table, key_state, kx_state, key_storage, kx_storage, key_stream_session_id, kx_stream_session_id, key_symbol, kx_symbol, key_timestamp, kx_timestamp, key_tp, kx_tp, key_type, kx_type, key_vol, kx_vol, key_volume, kx_volume};
use vstd::prelude::*;

verus! {

broadcast use vstd::std_specs::vec::group_vec_axioms, vstd::seq::group_seq_axioms;

#[derive(Debug, PartialEq, Eq)]
pub struct GetCandles {
    pub stream_session_id: Vec<u8>,
    pub symbol: Vec<u8>,
}

pub struct GetCandlesV {
    pub stream_session_id: Seq<u8>,
    pub symbol: Seq<u8>,
}

impl View for GetCandles {
    type V = GetCandlesV;

    open spec fn view(&self) -> GetCandlesV {
        GetCandlesV {
            stream_session_id: self.stream_session_id@,
            symbol: self.symbol@,
        }
    }
}

pub open spec fn spec_get_candles_fields(m: GetCandlesV) -> Seq<(Seq<u8>, JsonV)> {
    seq![
        (key_stream_session_id(), JsonV::Str(m.stream_session_id)),
        (key_symbol(), JsonV::Str(m.symbol)),
    ]
}

impl WireJson for GetCandles {
    open spec fn spec_to_json(m: GetCandlesV) -> JsonV {
        JsonV::Obj(spec_get_candles_fields(m))
    }

    open spec fn spec_from_json(j: JsonV) -> Option<GetCandlesV> {
        let f_stream_session_id = jv_get_str(j, key_stream_session_id());
        let f_symbol = jv_get_str(j, key_symbol());
        if f_stream_session_id is Some && f_symbol is Some {
            Some(GetCandlesV {
                stream_session_id: f_stream_session_id->Some_0,
                symbol: f_symbol->Some_0,
            })
        } else {
            None
        }
    }

    fn to_json(&self) -> (r: Json) {
        let mut fields: Vec<(Vec<u8>, Json)> = Vec::new();
        fields.push((vec_of(kx_stream_session_id().as_slice()), Json::Str(vec_of(self.stream_session_id.as_slice()))));
        fields.push((vec_of(kx_symbol().as_slice()), Json::Str(vec_of(self.symbol.as_slice()))));
        let r = Json::Obj(fields);
        proof {
            lemma_json_view_members(r->Obj_0, 0);
            assert(json_view_members(r->Obj_0, 0) =~= spec_get_candles_fields(self@));
        }
        r
    }

    fn from_json(j: &Json) -> (r: Option<GetCandles>) {
        let stream_session_id = match j.get_str(kx_stream_session_id().as_slice()) {
            Some(v) => v,
            None => { return None; },
        };
        let symbol = match j.get_str(kx_symbol().as_slice()) {
            Some(v) => v,
            None => { return None; },
        };
        Some(GetCandles {
            stream_session_id,
            symbol,
        })
    }

    proof fn lemma_round_trip(m: GetCandlesV) {
        let j = Self::spec_to_json(m);
        let fs = j->Obj_0;
        assert(fs[0].0 == key_stream_session_id());
        assert(obj_get_from(fs, key_stream_session_id(), 0) == Some(fs[0].1));
        assert(fs[0].0 == key_stream_session_id());
        assert(fs[1].0 == key_symbol());
        assert(obj_get_from(fs, key_symbol(), 0) == obj_get_from(fs, key_symbol(), 1));
        assert(obj_get_from(fs, key_symbol(), 1) == Some(fs[1].1));
    }
}

/// Reading the fields out of a tagged stream message gives them back,
/// whatever tag member stands in front of them.
pub proof fn lemma_get_candles_from_envelope(head: (Seq<u8>, JsonV), m: GetCandlesV)
    requires
        head.0 == key_command(),
    ensures
        <GetCandles as WireJson>::spec_from_json(
            JsonV::Obj(seq![head] + spec_get_candles_fields(m)),
        ) == Some(m),
{
    let j = JsonV::Obj(seq![head] + spec_get_candles_fields(m));
    let fs = j->Obj_0;
        assert(fs[0].0 == key_command());
        assert(fs[1].0 == key_stream_session_id());
        assert(obj_get_from(fs, key_stream_session_id(), 0) == obj_get_from(fs, key_stream_session_id(), 1));
        assert(obj_get_from(fs, key_stream_session_id(), 1) == Some(fs[1].1));
        assert(fs[0].0 == key_command());
        assert(fs[1].0 == key_stream_session_id());
        assert(fs[2].0 == key_symbol());
        assert(obj_get_from(fs, key_symbol(), 0) == obj_get_from(fs, key_symbol(), 1));
        assert(obj_get_from(fs, key_symbol(), 1) == obj_get_from(fs, key_symbol(), 2));
        assert(obj_get_from(fs, key_symbol(), 2) == Some(fs[2].1));
}

#[derive(Debug, PartialEq, Eq)]
pub struct GetCandlesResponse {
    pub close: Decimal,
    pub ctm: i64,
    pub ctm_string: Vec<u8>,
    pub high: Decimal,
    pub low: Decimal,
    pub open: Decimal,
    pub quote_id: u16,
    pub symbol: Vec<u8>,
    pub vol: Decimal,
}

pub struct GetCandlesResponseV {
    pub close: Decimal,
    pub ctm: i64,
    pub ctm_string: Seq<u8>,
    pub high: Decimal,
    pub low: Decimal,
    pub open: Decimal,
    pub quote_id: u16,
    pub symbol: Seq<u8>,
    pub vol: Decimal,
}

impl View for GetCandlesResponse {
    type V = GetCandlesResponseV;

    open spec fn view(&self) -> GetCandlesResponseV {
        GetCandlesResponseV {
            close: self.close,
            ctm: self.ctm,
            ctm_string: self.ctm_string@,
            high: self.high,
            low: self.low,
            open: self.open,
            quote_id: self.quote_id,
            symbol: self.symbol@,
            vol: self.vol,
        }
    }
}

pub open spec fn spec_get_candles_response_fields(m: GetCandlesResponseV) -> Seq<(Seq<u8>, JsonV)> {
    seq![
        (key_close(), JsonV::Num(m.close)),
        (key_ctm(), JsonV::Num(spec_dec_of_int(m.ctm as int))),
        (key_ctm_string(), JsonV::Str(m.ctm_string)),
        (key_high(), JsonV::Num(m.high)),
        (key_low(), JsonV::Num(m.low)),
        (key_open(), JsonV::Num(m.open)),
        (key_quote_id(), JsonV::Num(spec_dec_of_int(m.quote_id as int))),
        (key_symbol(), JsonV::Str(m.symbol)),
        (key_vol(), JsonV::Num(m.vol)),
    ]
}

impl WireJson for GetCandlesResponse {
    open spec fn spec_to_json(m: GetCandlesResponseV) -> JsonV {
        JsonV::Obj(spec_get_candles_response_fields(m))
    }

    open spec fn spec_from_json(j: JsonV) -> Option<GetCandlesResponseV> {
        let f_close = jv_get_dec(j, key_close());
        let f_ctm = jv_get_i64(j, key_ctm());
        let f_ctm_string = jv_get_str(j, key_ctm_string());
        let f_high = jv_get_dec(j, key_high());
        let f_low = jv_get_dec(j, key_low());
        let f_open = jv_get_dec(j, key_open());
        let f_quote_id = jv_get_u16(j, key_quote_id());
        let f_symbol = jv_get_str(j, key_symbol());
        let f_vol = jv_get_dec(j, key_vol());
        if f_close is Some && f_ctm is Some && f_ctm_string is Some && f_high is Some && f_low is Some && f_open is Some && f_quote_id is Some && f_symbol is Some && f_vol is Some {
            Some(GetCandlesResponseV {
                close: f_close->Some_0,
                ctm: f_ctm->Some_0,
                ctm_string: f_ctm_string->Some_0,
                high: f_high->Some_0,
                low: f_low->Some_0,
                open: f_open->Some_0,
                quote_id: f_quote_id->Some_0,
                symbol: f_symbol->Some_0,
                vol: f_vol->Some_0,
            })
        } else {
            None
        }
    }

    fn to_json(&self) -> (r: Json) {
        let mut fields: Vec<(Vec<u8>, Json)> = Vec::new();
        fields.push((vec_of(kx_close().as_slice()), Json::Num(self.close)));
        fields.push((vec_of(kx_ctm().as_slice()), Json::Num(Decimal::from_i64(self.ctm))));
        fields.push((vec_of(kx_ctm_string().as_slice()), Json::Str(vec_of(self.ctm_string.as_slice()))));
        fields.push((vec_of(kx_high().as_slice()), Json::Num(self.high)));
        fields.push((vec_of(kx_low().as_slice()), Json::Num(self.low)));
        fields.push((vec_of(kx_open().as_slice()), Json::Num(self.open)));
        fields.push((vec_of(kx_quote_id().as_slice()), Json::Num(Decimal::from_u64(self.quote_id as u64))));
        fields.push((vec_of(kx_symbol().as_slice()), Json::Str(vec_of(self.symbol.as_slice()))));
        fields.push((vec_of(kx_vol().as_slice()), Json::Num(self.vol)));
        let r = Json::Obj(fields);
        proof {
            lemma_json_view_members(r->Obj_0, 0);
            assert(json_view_members(r->Obj_0, 0) =~= spec_get_candles_response_fields(self@));
        }
        r
    }

    fn from_json(j: &Json) -> (r: Option<GetCandlesResponse>) {
        let close = match j.get_dec(kx_close().as_slice()) {
            Some(v) => v,
            None => { return None; },
        };
        let ctm = match j.get_i64(kx_ctm().as_slice()) {
            Some(v) => v,
            None => { return None; },
        };
        let ctm_string = match j.get_str(kx_ctm_string().as_slice()) {
            Some(v) => v,
            None => { return None; },
        };
        let high = match j.get_dec(kx_high().as_slice()) {
            Some(v) => v,
            None => { return None; },
        };
        let low = match j.get_dec(kx_low().as_slice()) {
            Some(v) => v,
            None => { return None; },
        };
        let open = match j.get_dec(kx_open().as_slice()) {
            Some(v) => v,
            None => { return None; },
        };
        let quote_id = match j.get_u16(kx_quote_id().as_slice()) {
            Some(v) => v,
            None => { return None; },
        };
        let symbol = match j.get_str(kx_symbol().as_slice()) {
            Some(v) => v,
            None => { return None; },
        };
        let vol = match j.get_dec(kx_vol().as_slice()) {
            Some(v) => v,
            None => { return None; },
        };
        Some(GetCandlesResponse {
            close,
            ctm,
            ctm_string,
            high,
            low,
            open,
            quote_id,
            symbol,
            vol,
        })
    }

    proof fn lemma_round_trip(m: GetCandlesResponseV) {
        let j = Self::spec_to_json(m);
        let fs = j->Obj_0;
        assert(fs[0].0 == key_close());
        assert(obj_get_from(fs, key_close(), 0) == Some(fs[0].1));
        assert(fs[0].0 == key_close());
        assert(fs[1].0 == key_ctm());
        assert(obj_get_from(fs, key_ctm(), 0) == obj_get_from(fs, key_ctm(), 1));
        assert(obj_get_from(fs, key_ctm(), 1) == Some(fs[1].1));
        assert(fs[0].0 == key_close());
        assert(fs[1].0 == key_ctm());
        assert(fs[2].0 == key_ctm_string());
        assert(obj_get_from(fs, key_ctm_string(), 0) == obj_get_from(fs, key_ctm_string(), 1));
        assert(obj_get_from(fs, key_ctm_string(), 1) == obj_get_from(fs, key_ctm_string(), 2));
        assert(obj_get_from(fs, key_ctm_string(), 2) == Some(fs[2].1));
        assert(fs[0].0 == key_close());
        assert(fs[1].0 == key_ctm());
        assert(fs[2].0 == key_ctm_string());
        assert(fs[3].0 == key_high());
        assert(obj_get_from(fs, key_high(), 0) == obj_get_from(fs, key_high(), 1));
        assert(obj_get_from(fs, key_high(), 1) == obj_get_from(fs, key_high(), 2));
        assert(obj_get_from(fs, key_high(), 2) == obj_get_from(fs, key_high(), 3));
        assert(obj_get_from(fs, key_high(), 3) == Some(fs[3].1));
        assert(fs[0].0 == key_close());
        assert(fs[1].0 == key_ctm());
        assert(fs[2].0 == key_ctm_string());
        assert(fs[3].0 == key_high());
        assert(fs[4].0 == key_low());
        assert(key_ctm() != key_low()) by {
            assert(key_ctm()[0] != key_low()[0]);
        }
        assert(obj_get_from(fs, key_low(), 0) == obj_get_from(fs, key_low(), 1));
        assert(obj_get_from(fs, key_low(), 1) == obj_get_from(fs, key_low(), 2));
        assert(obj_get_from(fs, key_low(), 2) == obj_get_from(fs, key_low(), 3));
        assert(obj_get_from(fs, key_low(), 3) == obj_get_from(fs, key_low(), 4));
        assert(obj_get_from(fs, key_low(), 4) == Some(fs[4].1));
        assert(fs[0].0 == key_close());
        assert(fs[1].0 == key_ctm());
        assert(fs[2].0 == key_ctm_string());
        assert(fs[3].0 == key_high());
        assert(fs[4].0 == key_low());
        assert(fs[5].0 == key_open());
        assert(key_high() != key_open()) by {
            assert(key_high()[0] != key_open()[0]);
        }
        assert(obj_get_from(fs, key_open(), 0) == obj_get_from(fs, key_open(), 1));
        assert(obj_get_from(fs, key_open(), 1) == obj_get_from(fs, key_open(), 2));
        assert(obj_get_from(fs, key_open(), 2) == obj_get_from(fs, key_open(), 3));
        assert(obj_get_from(fs, key_open(), 3) == obj_get_from(fs, key_open(), 4));
        assert(obj_get_from(fs, key_open(), 4) == obj_get_from(fs, key_open(), 5));
        assert(obj_get_from(fs, key_open(), 5) == Some(fs[5].1));
        assert(fs[0].0 == key_close());
        assert(fs[1].0 == key_ctm());
        assert(fs[2].0 == key_ctm_string());
        assert(fs[3].0 == key_high());
        assert(fs[4].0 == key_low());
        assert(fs[5].0 == key_open());
        assert(fs[6].0 == key_quote_id());
        assert(obj_get_from(fs, key_quote_id(), 0) == obj_get_from(fs, key_quote_id(), 1));
        assert(obj_get_from(fs, key_quote_id(), 1) == obj_get_from(fs, key_quote_id(), 2));
        assert(obj_get_from(fs, key_quote_id(), 2) == obj_get_from(fs, key_quote_id(), 3));
        assert(obj_get_from(fs, key_quote_id(), 3) == obj_get_from(fs, key_quote_id(), 4));
        assert(obj_get_from(fs, key_quote_id(), 4) == obj_get_from(fs, key_quote_id(), 5));
        assert(obj_get_from(fs, key_quote_id(), 5) == obj_get_from(fs, key_quote_id(), 6));
        assert(obj_get_from(fs, key_quote_id(), 6) == Some(fs[6].1));
        assert(fs[0].0 == key_close());
        assert(fs[1].0 == key_ctm());
        assert(fs[2].0 == key_ctm_string());
        assert(fs[3].0 == key_high());
        assert(fs[4].0 == key_low());
        assert(fs[5].0 == key_open());
        assert(fs[6].0 == key_quote_id());
        assert(fs[7].0 == key_symbol());
        assert(obj_get_from(fs, key_symbol(), 0) == obj_get_from(fs, key_symbol(), 1));
        assert(obj_get_from(fs, key_symbol(), 1) == obj_get_from(fs, key_symbol(), 2));
        assert(obj_get_from(fs, key_symbol(), 2) == obj_get_from(fs, key_symbol(), 3));
        assert(obj_get_from(fs, key_symbol(), 3) == obj_get_from(fs, key_symbol(), 4));
        assert(obj_get_from(fs, key_symbol(), 4) == obj_get_from(fs, key_symbol(), 5));
        assert(obj_get_from(fs, key_symbol(), 5) == obj_get_from(fs, key_symbol(), 6));
        assert(obj_get_from(fs, key_symbol(), 6) == obj_get_from(fs, key_symbol(), 7));
        assert(obj_get_from(fs, key_symbol(), 7) == Some(fs[7].1));
        assert(fs[0].0 == key_close());
        assert(fs[1].0 == key_ctm());
        assert(fs[2].0 == key_ctm_string());
        assert(fs[3].0 == key_high());
        assert(fs[4].0 == key_low());
        assert(fs[5].0 == key_open());
        assert(fs[6].0 == key_quote_id());
        assert(fs[7].0 == key_symbol());
        assert(fs[8].0 == key_vol());
        assert(key_ctm() != key_vol()) by {
            assert(key_ctm()[0] != key_vol()[0]);
        }
        assert(key_low() != key_vol()) by {
            assert(key_low()[0] != key_vol()[0]);
        }
        assert(obj_get_from(fs, key_vol(), 0) == obj_get_from(fs, key_vol(), 1));
        assert(obj_get_from(fs, key_vol(), 1) == obj_get_from(fs, key_vol(), 2));
        assert(obj_get_from(fs, key_vol(), 2) == obj_get_from(fs, key_vol(), 3));
        assert(obj_get_from(fs, key_vol(), 3) == obj_get_from(fs, key_vol(), 4));
        assert(obj_get_from(fs, key_vol(), 4) == obj_get_from(fs, key_vol(), 5));
        assert(obj_get_from(fs, key_vol(), 5) == obj_get_from(fs, key_vol(), 6));
        assert(obj_get_from(fs, key_vol(), 6) == obj_get_from(fs, key_vol(), 7));
        assert(obj_get_from(fs, key_vol(), 7) == obj_get_from(fs, key_vol(), 8));
        assert(obj_get_from(fs, key_vol(), 8) == Some(fs[8].1));
    }
}

#[derive(Debug, PartialEq, Eq)]
pub struct GetBalance {
    pub stream_session_id: Vec<u8>,
}

pub struct GetBalanceV {
    pub stream_session_id: Seq<u8>,
}

impl View for GetBalance {
    type V = GetBalanceV;

    open spec fn view(&self) -> GetBalanceV {
        GetBalanceV {
            stream_session_id: self.stream_session_id@,
        }
    }
}

pub open spec fn spec_get_balance_fields(m: GetBalanceV) -> Seq<(Seq<u8>, JsonV)> {
    seq![
        (key_stream_session_id(), JsonV::Str(m.stream_session_id)),
    ]
}

impl WireJson for GetBalance {
    open spec fn spec_to_json(m: GetBalanceV) -> JsonV {
        JsonV::Obj(spec_get_balance_fields(m))
    }

    open spec fn spec_from_json(j: JsonV) -> Option<GetBalanceV> {
        let f_stream_session_id = jv_get_str(j, key_stream_session_id());
        if f_stream_session_id is Some {
            Some(GetBalanceV {
                stream_session_id: f_stream_session_id->Some_0,
            })
        } else {
            None
        }
    }

    fn to_json(&self) -> (r: Json) {
        let mut fields: Vec<(Vec<u8>, Json)> = Vec::new();
        fields.push((vec_of(kx_stream_session_id().as_slice()), Json::Str(vec_of(self.stream_session_id.as_slice()))));
        let r = Json::Obj(fields);
        proof {
            lemma_json_view_members(r->Obj_0, 0);
            assert(json_view_members(r->Obj_0, 0) =~= spec_get_balance_fields(self@));
        }
        r
    }

    fn from_json(j: &Json) -> (r: Option<GetBalance>) {
        let stream_session_id = match j.get_str(kx_stream_session_id().as_slice()) {
            Some(v) => v,
            None => { return None; },
        };
        Some(GetBalance {
            stream_session_id,
        })
    }

    proof fn lemma_round_trip(m: GetBalanceV) {
        let j = Self::spec_to_json(m);
        let fs = j->Obj_0;
        assert(fs[0].0 == key_stream_session_id());
        assert(obj_get_from(fs, key_stream_session_id(), 0) == Some(fs[0].1));
    }
}

/// Reading the fields out of a tagged stream message gives them back,
/// whatever tag member stands in front of them.
pub proof fn lemma_get_balance_from_envelope(head: (Seq<u8>, JsonV), m: GetBalanceV)
    requires
        head.0 == key_command(),
    ensures
        <GetBalance as WireJson>::spec_from_json(
            JsonV::Obj(seq![head] + spec_get_balance_fields(m)),
        ) == Some(m),
{
    let j = JsonV::Obj(seq![head] + spec_get_balance_fields(m));
    let fs = j->Obj_0;
        assert(fs[0].0 == key_command());
        assert(fs[1].0 == key_stream_session_id());
        assert(obj_get_from(fs, key_stream_session_id(), 0) == obj_get_from(fs, key_stream_session_id(), 1));
        assert(obj_get_from(fs, key_stream_session_id(), 1) == Some(fs[1].1));
}

#[derive(Debug, PartialEq, Eq)]
pub struct GetBalanceResponse {
    pub balance: Decimal,
    pub credit: Decimal,
    pub equity: Decimal,
    pub margin: Decimal,
    pub margin_free: Decimal,
    pub margin_level: Decimal,
}

pub struct GetBalanceResponseV {
    pub balance: Decimal,
    pub credit: Decimal,
    pub equity: Decimal,
    pub margin: Decimal,
    pub margin_free: Decimal,
    pub margin_level: Decimal,
}

impl View for GetBalanceResponse {
    type V = GetBalanceResponseV;

    open spec fn view(&self) -> GetBalanceResponseV {
        GetBalanceResponseV {
            balance: self.balance,
            credit: self.credit,
            equity: self.equity,
            margin: self.margin,
            margin_free: self.margin_free,
            margin_level: self.margin_level,
        }
    }
}

pub open spec fn spec_get_balance_response_fields(m: GetBalanceResponseV) -> Seq<(Seq<u8>, JsonV)> {
    seq![
        (key_balance(), JsonV::Num(m.balance)),
        (key_credit(), JsonV::Num(m.credit)),
        (key_equity(), JsonV::Num(m.equity)),
        (key_margin(), JsonV::Num(m.margin)),
        (key_margin_free(), JsonV::Num(m.margin_free)),
        (key_margin_level(), JsonV::Num(m.margin_level)),
    ]
}

impl WireJson for GetBalanceResponse {
    open spec fn spec_to_json(m: GetBalanceResponseV) -> JsonV {
        JsonV::Obj(spec_get_balance_response_fields(m))
    }

    open spec fn spec_from_json(j: JsonV) -> Option<GetBalanceResponseV> {
        let f_balance = jv_get_dec(j, key_balance());
        let f_credit = jv_get_dec(j, key_credit());
        let f_equity = jv_get_dec(j, key_equity());
        let f_margin = jv_get_dec(j, key_margin());
        let f_margin_free = jv_get_dec(j, key_margin_free());
        let f_margin_level = jv_get_dec(j, key_margin_level());
        if f_balance is Some && f_credit is Some && f_equity is Some && f_margin is Some && f_margin_free is Some && f_margin_level is Some {
            Some(GetBalanceResponseV {
                balance: f_balance->Some_0,
                credit: f_credit->Some_0,
                equity: f_equity->Some_0,
                margin: f_margin->Some_0,
                margin_free: f_margin_free->Some_0,
                margin_level: f_margin_level->Some_0,
            })
        } else {
            None
        }
    }

    fn to_json(&self) -> (r: Json) {
        let mut fields: Vec<(Vec<u8>, Json)> = Vec::new();
        fields.push((vec_of(kx_balance().as_slice()), Json::Num(self.balance)));
        fields.push((vec_of(kx_credit().as_slice()), Json::Num(self.credit)));
        fields.push((vec_of(kx_equity().as_slice()), Json::Num(self.equity)));
        fields.push((vec_of(kx_margin().as_slice()), Json::Num(self.margin)));
        fields.push((vec_of(kx_margin_free().as_slice()), Json::Num(self.margin_free)));
        fields.push((vec_of(kx_margin_level().as_slice()), Json::Num(self.margin_level)));
        let r = Json::Obj(fields);
        proof {
            lemma_json_view_members(r->Obj_0, 0);
            assert(json_view_members(r->Obj_0, 0) =~= spec_get_balance_response_fields(self@));
        }
        r
    }

    fn from_json(j: &Json) -> (r: Option<GetBalanceResponse>) {
        let balance = match j.get_dec(kx_balance().as_slice()) {
            Some(v) => v,
            None => { return None; },
        };
        let credit = match j.get_dec(kx_credit().as_slice()) {
            Some(v) => v,
            None => { return None; },
        };
        let equity = match j.get_dec(kx_equity().as_slice()) {
            Some(v) => v,
            None => { return None; },
        };
        let margin = match j.get_dec(kx_margin().as_slice()) {
            Some(v) => v,
            None => { return None; },
        };
        let margin_free = match j.get_dec(kx_margin_free().as_slice()) {
            Some(v) => v,
            None => { return None; },
        };
        let margin_level = match j.get_dec(kx_margin_level().as_slice()) {
            Some(v) => v,
            None => { return None; },
        };
        Some(GetBalanceResponse {
            balance,
            credit,
            equity,
            margin,
            margin_free,
            margin_level,
        })
    }

    proof fn lemma_round_trip(m: GetBalanceResponseV) {
        let j = Self::spec_to_json(m);
        let fs = j->Obj_0;
        assert(fs[0].0 == key_balance());
        assert(obj_get_from(fs, key_balance(), 0) == Some(fs[0].1));
        assert(fs[0].0 == key_balance());
        assert(fs[1].0 == key_credit());
        assert(obj_get_from(fs, key_credit(), 0) == obj_get_from(fs, key_credit(), 1));
        assert(obj_get_from(fs, key_credit(), 1) == Some(fs[1].1));
        assert(fs[0].0 == key_balance());
        assert(fs[1].0 == key_credit());
        assert(fs[2].0 == key_equity());
        assert(key_credit() != key_equity()) by {
            assert(key_credit()[0] != key_equity()[0]);
        }
        assert(obj_get_from(fs, key_equity(), 0) == obj_get_from(fs, key_equity(), 1));
        assert(obj_get_from(fs, key_equity(), 1) == obj_get_from(fs, key_equity(), 2));
        assert(obj_get_from(fs, key_equity(), 2) == Some(fs[2].1));
        assert(fs[0].0 == key_balance());
        assert(fs[1].0 == key_credit());
        assert(fs[2].0 == key_equity());
        assert(fs[3].0 == key_margin());
        assert(key_credit() != key_margin()) by {
            assert(key_credit()[0] != key_margin()[0]);
        }
        assert(key_equity() != key_margin()) by {
            assert(key_equity()[0] != key_margin()[0]);
        }
        assert(obj_get_from(fs, key_margin(), 0) == obj_get_from(fs, key_margin(), 1));
        assert(obj_get_from(fs, key_margin(), 1) == obj_get_from(fs, key_margin(), 2));
        assert(obj_get_from(fs, key_margin(), 2) == obj_get_from(fs, key_margin(), 3));
        assert(obj_get_from(fs, key_margin(), 3) == Some(fs[3].1));
        assert(fs[0].0 == key_balance());
        assert(fs[1].0 == key_credit());
        assert(fs[2].0 == key_equity());
        assert(fs[3].0 == key_margin());
        assert(fs[4].0 == key_margin_free());
        assert(obj_get_from(fs, key_margin_free(), 0) == obj_get_from(fs, key_margin_free(), 1));
        assert(obj_get_from(fs, key_margin_free(), 1) == obj_get_from(fs, key_margin_free(), 2));
        assert(obj_get_from(fs, key_margin_free(), 2) == obj_get_from(fs, key_margin_free(), 3));
        assert(obj_get_from(fs, key_margin_free(), 3) == obj_get_from(fs, key_margin_free(), 4));
        assert(obj_get_from(fs, key_margin_free(), 4) == Some(fs[4].1));
        assert(fs[0].0 == key_balance());
        assert(fs[1].0 == key_credit());
        assert(fs[2].0 == key_equity());
        assert(fs[3].0 == key_margin());
        assert(fs[4].0 == key_margin_free());
        assert(fs[5].0 == key_margin_level());
        assert(obj_get_from(fs, key_margin_level(), 0) == obj_get_from(fs, key_margin_level(), 1));
        assert(obj_get_from(fs, key_margin_level(), 1) == obj_get_from(fs, key_margin_level(), 2));
        assert(obj_get_from(fs, key_margin_level(), 2) == obj_get_from(fs, key_margin_level(), 3));
        assert(obj_get_from(fs, key_margin_level(), 3) == obj_get_from(fs, key_margin_level(), 4));
        assert(obj_get_from(fs, key_margin_level(), 4) == obj_get_from(fs, key_margin_level(), 5));
        assert(obj_get_from(fs, key_margin_level(), 5) == Some(fs[5].1));
    }
}

#[derive(Debug, PartialEq, Eq)]
pub struct GetKeepAlive {
    pub stream_session_id: Vec<u8>,
}

pub struct GetKeepAliveV {
    pub stream_session_id: Seq<u8>,
}

impl View for GetKeepAlive {
    type V = GetKeepAliveV;

    open spec fn view(&self) -> GetKeepAliveV {
        GetKeepAliveV {
            stream_session_id: self.stream_session_id@,
        }
    }
}

pub open spec fn spec_get_keep_alive_fields(m: GetKeepAliveV) -> Seq<(Seq<u8>, JsonV)> {
    seq![
        (key_stream_session_id(), JsonV::Str(m.stream_session_id)),
    ]
}

impl WireJson for GetKeepAlive {
    open spec fn spec_to_json(m: GetKeepAliveV) -> JsonV {
        JsonV::Obj(spec_get_keep_alive_fields(m))
    }

    open spec fn spec_from_json(j: JsonV) -> Option<GetKeepAliveV> {
        let f_stream_session_id = jv_get_str(j, key_stream_session_id());
        if f_stream_session_id is Some {
            Some(GetKeepAliveV {
                stream_session_id: f_stream_session_id->Some_0,
            })
        } else {
            None
        }
    }

    fn to_json(&self) -> (r: Json) {
        let mut fields: Vec<(Vec<u8>, Json)> = Vec::new();
        fields.push((vec_of(kx_stream_session_id().as_slice()), Json::Str(vec_of(self.stream_session_id.as_slice()))));
        let r = Json::Obj(fields);
        proof {
            lemma_json_view_members(r->Obj_0, 0);
            assert(json_view_members(r->Obj_0, 0) =~= spec_get_keep_alive_fields(self@));
        }
        r
    }

    fn from_json(j: &Json) -> (r: Option<GetKeepAlive>) {
        let stream_session_id = match j.get_str(kx_stream_session_id().as_slice()) {
            Some(v) => v,
            None => { return None; },
        };
        Some(GetKeepAlive {
            stream_session_id,
        })
    }

    proof fn lemma_round_trip(m: GetKeepAliveV) {
        let j = Self::spec_to_json(m);
        let fs = j->Obj_0;
        assert(fs[0].0 == key_stream_session_id());
        assert(obj_get_from(fs, key_stream_session_id(), 0) == Some(fs[0].1));
    }
}

/// Reading the fields out of a tagged stream message gives them back,
/// whatever tag member stands in front of them.
pub proof fn lemma_get_keep_alive_from_envelope(head: (Seq<u8>, JsonV), m: GetKeepAliveV)
    requires
        head.0 == key_command(),
    ensures
        <GetKeepAlive as WireJson>::spec_from_json(
            JsonV::Obj(seq![head] + spec_get_keep_alive_fields(m)),
        ) == Some(m),
{
    let j = JsonV::Obj(seq![head] + spec_get_keep_alive_fields(m));
    let fs = j->Obj_0;
        assert(fs[0].0 == key_command());
        assert(fs[1].0 == key_stream_session_id());
        assert(obj_get_from(fs, key_stream_session_id(), 0) == obj_get_from(fs, key_stream_session_id(), 1));
        assert(obj_get_from(fs, key_stream_session_id(), 1) == Some(fs[1].1));
}

#[derive(Debug, PartialEq, Eq)]
pub struct GetKeepAliveResponse {
    pub timestamp: i64,
}

pub struct GetKeepAliveResponseV {
    pub timestamp: i64,
}

impl View for GetKeepAliveResponse {
    type V = GetKeepAliveResponseV;

    open spec fn view(&self) -> GetKeepAliveResponseV {
        GetKeepAliveResponseV {
            timestamp: self.timestamp,
        }
    }
}

pub open spec fn spec_get_keep_alive_response_fields(m: GetKeepAliveResponseV) -> Seq<(Seq<u8>, JsonV)> {
    seq![
        (key_timestamp(), JsonV::Num(spec_dec_of_int(m.timestamp as int))),
    ]
}

impl WireJson for GetKeepAliveResponse {
    open spec fn spec_to_json(m: GetKeepAliveResponseV) -> JsonV {
        JsonV::Obj(spec_get_keep_alive_response_fields(m))
    }

    open spec fn spec_from_json(j: JsonV) -> Option<GetKeepAliveResponseV> {
        let f_timestamp = jv_get_i64(j, key_timestamp());
        if f_timestamp is Some {
            Some(GetKeepAliveResponseV {
                timestamp: f_timestamp->Some_0,
            })
        } else {
            None
        }
    }

    fn to_json(&self) -> (r: Json) {
        let mut fields: Vec<(Vec<u8>, Json)> = Vec::new();
        fields.push((vec_of(kx_timestamp().as_slice()), Json::Num(Decimal::from_i64(self.timestamp))));
        let r = Json::Obj(fields);
        proof {
            lemma_json_view_members(r->Obj_0, 0);
            assert(json_view_members(r->Obj_0, 0) =~= spec_get_keep_alive_response_fields(self@));
        }
        r
    }

    fn from_json(j: &Json) -> (r: Option<GetKeepAliveResponse>) {
        let timestamp = match j.get_i64(kx_timestamp().as_slice()) {
            Some(v) => v,
            None => { return None; },
        };
        Some(GetKeepAliveResponse {
            timestamp,
        })
    }

    proof fn lemma_round_trip(m: GetKeepAliveResponseV) {
        let j = Self::spec_to_json(m);
        let fs = j->Obj_0;
        assert(fs[0].0 == key_timestamp());
        assert(obj_get_from(fs, key_timestamp(), 0) == Some(fs[0].1));
    }
}

#[derive(Debug, PartialEq, Eq)]
pub struct GetTickPrices {
    pub stream_session_id: Vec<u8>,
    pub symbol: Vec<u8>,
    pub min_arrival_time: Option<i32>,
    pub max_level: Option<i32>,
}

pub struct GetTickPricesV {
    pub stream_session_id: Seq<u8>,
    pub symbol: Seq<u8>,
    pub min_arrival_time: Option<i32>,
    pub max_level: Option<i32>,
}

impl View for GetTickPrices {
    type V = GetTickPricesV;

    open spec fn view(&self) -> GetTickPricesV {
        GetTickPricesV {
            stream_session_id: self.stream_session_id@,
            symbol: self.symbol@,
            min_arrival_time: self.min_arrival_time,
            max_level: self.max_level,
        }
    }
}

pub open spec fn spec_get_tick_prices_fields(m: GetTickPricesV) -> Seq<(Seq<u8>, JsonV)> {
    seq![
        (key_stream_session_id(), JsonV::Str(m.stream_session_id)),
        (key_symbol(), JsonV::Str(m.symbol)),
        (key_min_arrival_time(), (match m.min_arrival_time { Some(v) => JsonV::Num(spec_dec_of_int(v as int)), None => JsonV::Null })),
        (key_max_level(), (match m.max_level { Some(v) => JsonV::Num(spec_dec_of_int(v as int)), None => JsonV::Null })),
    ]
}

impl WireJson for GetTickPrices {
    open spec fn spec_to_json(m: GetTickPricesV) -> JsonV {
        JsonV::Obj(spec_get_tick_prices_fields(m))
    }

    open spec fn spec_from_json(j: JsonV) -> Option<GetTickPricesV> {
        let f_stream_session_id = jv_get_str(j, key_stream_session_id());
        let f_symbol = jv_get_str(j, key_symbol());
        let f_min_arrival_time = jv_get_opt_i32(j, key_min_arrival_time());
        let f_max_level = jv_get_opt_i32(j, key_max_level());
        if f_stream_session_id is Some && f_symbol is Some && f_min_arrival_time is Some && f_max_level is Some {
            Some(GetTickPricesV {
                stream_session_id: f_stream_session_id->Some_0,
                symbol: f_symbol->Some_0,
                min_arrival_time: f_min_arrival_time->Some_0,
                max_level: f_max_level->Some_0,
            })
        } else {
            None
        }
    }

    fn to_json(&self) -> (r: Json) {
        let mut fields: Vec<(Vec<u8>, Json)> = Vec::new();
        fields.push((vec_of(kx_stream_session_id().as_slice()), Json::Str(vec_of(self.stream_session_id.as_slice()))));
        fields.push((vec_of(kx_symbol().as_slice()), Json::Str(vec_of(self.symbol.as_slice()))));
        fields.push((vec_of(kx_min_arrival_time().as_slice()), (match self.min_arrival_time { Some(v) => Json::Num(Decimal::from_i64(v as i64)), None => Json::Null })));
        fields.push((vec_of(kx_max_level().as_slice()), (match self.max_level { Some(v) => Json::Num(Decimal::from_i64(v as i64)), None => Json::Null })));
        let r = Json::Obj(fields);
        proof {
            lemma_json_view_members(r->Obj_0, 0);
            assert(json_view_members(r->Obj_0, 0) =~= spec_get_tick_prices_fields(self@));
        }
        r
    }

    fn from_json(j: &Json) -> (r: Option<GetTickPrices>) {
        let stream_session_id = match j.get_str(kx_stream_session_id().as_slice()) {
            Some(v) => v,
            None => { return None; },
        };
        let symbol = match j.get_str(kx_symbol().as_slice()) {
            Some(v) => v,
            None => { return None; },
        };
        let min_arrival_time = match j.get_opt_i32(kx_min_arrival_time().as_slice()) {
            Some(v) => v,
            None => { return None; },
        };
        let max_level = match j.get_opt_i32(kx_max_level().as_slice()) {
            Some(v) => v,
            None => { return None; },
        };
        Some(GetTickPrices {
            stream_session_id,
            symbol,
            min_arrival_time,
            max_level,
        })
    }

    proof fn lemma_round_trip(m: GetTickPricesV) {
        let j = Self::spec_to_json(m);
        let fs = j->Obj_0;
        assert(fs[0].0 == key_stream_session_id());
        assert(obj_get_from(fs, key_stream_session_id(), 0) == Some(fs[0].1));
        assert(fs[0].0 == key_stream_session_id());
        assert(fs[1].0 == key_symbol());
        assert(obj_get_from(fs, key_symbol(), 0) == obj_get_from(fs, key_symbol(), 1));
        assert(obj_get_from(fs, key_symbol(), 1) == Some(fs[1].1));
        assert(fs[0].0 == key_stream_session_id());
        assert(fs[1].0 == key_symbol());
        assert(fs[2].0 == key_min_arrival_time());
        assert(obj_get_from(fs, key_min_arrival_time(), 0) == obj_get_from(fs, key_min_arrival_time(), 1));
        assert(obj_get_from(fs, key_min_arrival_time(), 1) == obj_get_from(fs, key_min_arrival_time(), 2));
        assert(obj_get_from(fs, key_min_arrival_time(), 2) == Some(fs[2].1));
        assert(fs[0].0 == key_stream_session_id());
        assert(fs[1].0 == key_symbol());
        assert(fs[2].0 == key_min_arrival_time());
        assert(fs[3].0 == key_max_level());
        assert(obj_get_from(fs, key_max_level(), 0) == obj_get_from(fs, key_max_level(), 1));
        assert(obj_get_from(fs, key_max_level(), 1) == obj_get_from(fs, key_max_level(), 2));
        assert(obj_get_from(fs, key_max_level(), 2) == obj_get_from(fs, key_max_level(), 3));
        assert(obj_get_from(fs, key_max_level(), 3) == Some(fs[3].1));
    }
}

/// Reading the fields out of a tagged stream message gives them back,
/// whatever tag member stands in front of them.
pub proof fn lemma_get_tick_prices_from_envelope(head: (Seq<u8>, JsonV), m: GetTickPricesV)
    requires
        head.0 == key_command(),
    ensures
        <GetTickPrices as WireJson>::spec_from_json(
            JsonV::Obj(seq![head] + spec_get_tick_prices_fields(m)),
        ) == Some(m),
{
    let j = JsonV::Obj(seq![head] + spec_get_tick_prices_fields(m));
    let fs = j->Obj_0;
        assert(fs[0].0 == key_command());
        assert(fs[1].0 == key_stream_session_id());
        assert(obj_get_from(fs, key_stream_session_id(), 0) == obj_get_from(fs, key_stream_session_id(), 1));
        assert(obj_get_from(fs, key_stream_session_id(), 1) == Some(fs[1].1));
        assert(fs[0].0 == key_command());
        assert(fs[1].0 == key_stream_session_id());
        assert(fs[2].0 == key_symbol());
        assert(obj_get_from(fs, key_symbol(), 0) == obj_get_from(fs, key_symbol(), 1));
        assert(obj_get_from(fs, key_symbol(), 1) == obj_get_from(fs, key_symbol(), 2));
        assert(obj_get_from(fs, key_symbol(), 2) == Some(fs[2].1));
        assert(fs[0].0 == key_command());
        assert(fs[1].0 == key_stream_session_id());
        assert(fs[2].0 == key_symbol());
        assert(fs[3].0 == key_min_arrival_time());
        assert(obj_get_from(fs, key_min_arrival_time(), 0) == obj_get_from(fs, key_min_arrival_time(), 1));
        assert(obj_get_from(fs, key_min_arrival_time(), 1) == obj_get_from(fs, key_min_arrival_time(), 2));
        assert(obj_get_from(fs, key_min_arrival_time(), 2) == obj_get_from(fs, key_min_arrival_time(), 3));
        assert(obj_get_from(fs, key_min_arrival_time(), 3) == Some(fs[3].1));
        assert(fs[0].0 == key_command());
        assert(fs[1].0 == key_stream_session_id());
        assert(fs[2].0 == key_symbol());
        assert(fs[3].0 == key_min_arrival_time());
        assert(fs[4].0 == key_max_level());
        assert(obj_get_from(fs, key_max_level(), 0) == obj_get_from(fs, key_max_level(), 1));
        assert(obj_get_from(fs, key_max_level(), 1) == obj_get_from(fs, key_max_level(), 2));
        assert(obj_get_from(fs, key_max_level(), 2) == obj_get_from(fs, key_max_level(), 3));
        assert(obj_get_from(fs, key_max_level(), 3) == obj_get_from(fs, key_max_level(), 4));
        assert(obj_get_from(fs, key_max_level(), 4) == Some(fs[4].1));
}

#[derive(Debug, PartialEq, Eq)]
pub struct GetTickPricesResponse {
    pub ask: Decimal,
    pub ask_volume: i32,
    pub bid: Decimal,
    pub bid_volume: i32,
    pub high: Decimal,
    pub level: i32,
    pub low: Decimal,
    pub quote_id: u16,
    pub spread_raw: Decimal,
    pub spread_table: Decimal,
    pub symbol: Vec<u8>,
    pub timestamp: i64,
}

pub struct GetTickPricesResponseV {
    pub ask: Decimal,
    pub ask_volume: i32,
    pub bid: Decimal,
    pub bid_volume: i32,
    pub high: Decimal,
    pub level: i32,
    pub low: Decimal,
    pub quote_id: u16,
    pub spread_raw: Decimal,
    pub spread_table: Decimal,
    pub symbol: Seq<u8>,
    pub timestamp: i64,
}

impl View for GetTickPricesResponse {
    type V = GetTickPricesResponseV;

    open spec fn view(&self) -> GetTickPricesResponseV {
        GetTickPricesResponseV {
            ask: self.ask,
            ask_volume: self.ask_volume,
            bid: self.bid,
            bid_volume: self.bid_volume,
            high: self.high,
            level: self.level,
            low: self.low,
            quote_id: self.quote_id,
            spread_raw: self.spread_raw,
            spread_table: self.spread_table,
            symbol: self.symbol@,
            timestamp: self.timestamp,
        }
    }
}

pub open spec fn spec_get_tick_prices_response_fields(m: GetTickPricesResponseV) -> Seq<(Seq<u8>, JsonV)> {
    seq![
        (key_ask(), JsonV::Num(m.ask)),
        (key_ask_volume(), JsonV::Num(spec_dec_of_int(m.ask_volume as int))),
        (key_bid(), JsonV::Num(m.bid)),
        (key_bid_volume(), JsonV::Num(spec_dec_of_int(m.bid_volume as int))),
        (key_high(), JsonV::Num(m.high)),
        (key_level(), JsonV::Num(spec_dec_of_int(m.level as int))),
        (key_low(), JsonV::Num(m.low)),
        (key_quote_id(), JsonV::Num(spec_dec_of_int(m.quote_id as int))),
        (key_spread_raw(), JsonV::Num(m.spread_raw)),
        (key_spread_table(), JsonV::Num(m.spread_table)),
        (key_symbol(), JsonV::Str(m.symbol)),
        (key_timestamp(), JsonV::Num(spec_dec_of_int(m.timestamp as int))),
    ]
}

impl WireJson for GetTickPricesResponse {
    open spec fn spec_to_json(m: GetTickPricesResponseV) -> JsonV {
        JsonV::Obj(spec_get_tick_prices_response_fields(m))
    }

    open spec fn spec_from_json(j: JsonV) -> Option<GetTickPricesResponseV> {
        let f_ask = jv_get_dec(j, key_ask());
        let f_ask_volume = jv_get_i32(j, key_ask_volume());
        let f_bid = jv_get_dec(j, key_bid());
        let f_bid_volume = jv_get_i32(j, key_bid_volume());
        let f_high = jv_get_dec(j, key_high());
        let f_level = jv_get_i32(j, key_level());
        let f_low = jv_get_dec(j, key_low());
        let f_quote_id = jv_get_u16(j, key_quote_id());
        let f_spread_raw = jv_get_dec(j, key_spread_raw());
        let f_spread_table = jv_get_dec(j, key_spread_table());
        let f_symbol = jv_get_str(j, key_symbol());
        let f_timestamp = jv_get_i64(j, key_timestamp());
        if f_ask is Some && f_ask_volume is Some && f_bid is Some && f_bid_volume is Some && f_high is Some && f_level is Some && f_low is Some && f_quote_id is Some && f_spread_raw is Some && f_spread_table is Some && f_symbol is Some && f_timestamp is Some {
            Some(GetTickPricesResponseV {
                ask: f_ask->Some_0,
                ask_volume: f_ask_volume->Some_0,
                bid: f_bid->Some_0,
                bid_volume: f_bid_volume->Some_0,
                high: f_high->Some_0,
                level: f_level->Some_0,
                low: f_low->Some_0,
                quote_id: f_quote_id->Some_0,
                spread_raw: f_spread_raw->Some_0,
                spread_table: f_spread_table->Some_0,
                symbol: f_symbol->Some_0,
                timestamp: f_timestamp->Some_0,
            })
        } else {
            None
        }
    }

    fn to_json(&self) -> (r: Json) {
        let mut fields: Vec<(Vec<u8>, Json)> = Vec::new();
        fields.push((vec_of(kx_ask().as_slice()), Json::Num(self.ask)));
        fields.push((vec_of(kx_ask_volume().as_slice()), Json::Num(Decimal::from_i64(self.ask_volume as i64))));
        fields.push((vec_of(kx_bid().as_slice()), Json::Num(self.bid)));
        fields.push((vec_of(kx_bid_volume().as_slice()), Json::Num(Decimal::from_i64(self.bid_volume as i64))));
        fields.push((vec_of(kx_high().as_slice()), Json::Num(self.high)));
        fields.push((vec_of(kx_level().as_slice()), Json::Num(Decimal::from_i64(self.level as i64))));
        fields.push((vec_of(kx_low().as_slice()), Json::Num(self.low)));
        fields.push((vec_of(kx_quote_id().as_slice()), Json::Num(Decimal::from_u64(self.quote_id as u64))));
        fields.push((vec_of(kx_spread_raw().as_slice()), Json::Num(self.spread_raw)));
        fields.push((vec_of(kx_spread_table().as_slice()), Json::Num(self.spread_table)));
        fields.push((vec_of(kx_symbol().as_slice()), Json::Str(vec_of(self.symbol.as_slice()))));
        fields.push((vec_of(kx_timestamp().as_slice()), Json::Num(Decimal::from_i64(self.timestamp))));
        let r = Json::Obj(fields);
        proof {
            lemma_json_view_members(r->Obj_0, 0);
            assert(json_view_members(r->Obj_0, 0) =~= spec_get_tick_prices_response_fields(self@));
        }
        r
    }

    fn from_json(j: &Json) -> (r: Option<GetTickPricesResponse>) {
        let ask = match j.get_dec(kx_ask().as_slice()) {
            Some(v) => v,
            None => { return None; },
        };
        let ask_volume = match j.get_i32(kx_ask_volume().as_slice()) {
            Some(v) => v,
            None => { return None; },
        };
        let bid = match j.get_dec(kx_bid().as_slice()) {
            Some(v) => v,
            None => { return None; },
        };
        let bid_volume = match j.get_i32(kx_bid_volume().as_slice()) {
            Some(v) => v,
            None => { return None; },
        };
        let high = match j.get_dec(kx_high().as_slice()) {
            Some(v) => v,
            None => { return None; },
        };
        let level = match j.get_i32(kx_level().as_slice()) {
            Some(v) => v,
            None => { return None; },
        };
        let low = match j.get_dec(kx_low().as_slice()) {
            Some(v) => v,
            None => { return None; },
        };
        let quote_id = match j.get_u16(kx_quote_id().as_slice()) {
            Some(v) => v,
            None => { return None; },
        };
        let spread_raw = match j.get_dec(kx_spread_raw().as_slice()) {
            Some(v) => v,
            None => { return None; },
        };
        let spread_table = match j.get_dec(kx_spread_table().as_slice()) {
            Some(v) => v,
            None => { return None; },
        };
        let symbol = match j.get_str(kx_symbol().as_slice()) {
            Some(v) => v,
            None => { return None; },
        };
        let timestamp = match j.get_i64(kx_timestamp().as_slice()) {
            Some(v) => v,
            None => { return None; },
        };
        Some(GetTickPricesResponse {
            ask,
            ask_volume,
            bid,
            bid_volume,
            high,
            level,
            low,
            quote_id,
            spread_raw,
            spread_table,
            symbol,
            timestamp,
        })
    }

    proof fn lemma_round_trip(m: GetTickPricesResponseV) {
        let j = Self::spec_to_json(m);
        let fs = j->Obj_0;
        assert(fs[0].0 == key_ask());
        assert(obj_get_from(fs, key_ask(), 0) == Some(fs[0].1));
        assert(fs[0].0 == key_ask());
        assert(fs[1].0 == key_ask_volume());
        assert(obj_get_from(fs, key_ask_volume(), 0) == obj_get_from(fs, key_ask_volume(), 1));
        assert(obj_get_from(fs, key_ask_volume(), 1) == Some(fs[1].1));
        assert(fs[0].0 == key_ask());
        assert(fs[1].0 == key_ask_volume());
        assert(fs[2].0 == key_bid());
        assert(key_ask() != key_bid()) by {
            assert(key_ask()[0] != key_bid()[0]);
        }
        assert(obj_get_from(fs, key_bid(), 0) == obj_get_from(fs, key_bid(), 1));
        assert(obj_get_from(fs, key_bid(), 1) == obj_get_from(fs, key_bid(), 2));
        assert(obj_get_from(fs, key_bid(), 2) == Some(fs[2].1));
        assert(fs[0].0 == key_ask());
        assert(fs[1].0 == key_ask_volume());
        assert(fs[2].0 == key_bid());
        assert(fs[3].0 == key_bid_volume());
        assert(key_ask_volume() != key_bid_volume()) by {
            assert(key_ask_volume()[0] != key_bid_volume()[0]);
        }
        assert(obj_get_from(fs, key_bid_volume(), 0) == obj_get_from(fs, key_bid_volume(), 1));
        assert(obj_get_from(fs, key_bid_volume(), 1) == obj_get_from(fs, key_bid_volume(), 2));
        assert(obj_get_from(fs, key_bid_volume(), 2) == obj_get_from(fs, key_bid_volume(), 3));
        assert(obj_get_from(fs, key_bid_volume(), 3) == Some(fs[3].1));
        assert(fs[0].0 == key_ask());
        assert(fs[1].0 == key_ask_volume());
        assert(fs[2].0 == key_bid());
        assert(fs[3].0 == key_bid_volume());
        assert(fs[4].0 == key_high());
        assert(obj_get_from(fs, key_high(), 0) == obj_get_from(fs, key_high(), 1));
        assert(obj_get_from(fs, key_high(), 1) == obj_get_from(fs, key_high(), 2));
        assert(obj_get_from(fs, key_high(), 2) == obj_get_from(fs, key_high(), 3));
        assert(obj_get_from(fs, key_high(), 3) == obj_get_from(fs, key_high(), 4));
        assert(obj_get_from(fs, key_high(), 4) == Some(fs[4].1));
        assert(fs[0].0 == key_ask());
        assert(fs[1].0 == key_ask_volume());
        assert(fs[2].0 == key_bid());
        assert(fs[3].0 == key_bid_volume());
        assert(fs[4].0 == key_high());
        assert(fs[5].0 == key_level());
        assert(obj_get_from(fs, key_level(), 0) == obj_get_from(fs, key_level(), 1));
        assert(obj_get_from(fs, key_level(), 1) == obj_get_from(fs, key_level(), 2));
        assert(obj_get_from(fs, key_level(), 2) == obj_get_from(fs, key_level(), 3));
        assert(obj_get_from(fs, key_level(), 3) == obj_get_from(fs, key_level(), 4));
        assert(obj_get_from(fs, key_level(), 4) == obj_get_from(fs, key_level(), 5));
        assert(obj_get_from(fs, key_level(), 5) == Some(fs[5].1));
        assert(fs[0].0 == key_ask());
        assert(fs[1].0 == key_ask_volume());
        assert(fs[2].0 == key_bid());
        assert(fs[3].0 == key_bid_volume());
        assert(fs[4].0 == key_high());
        assert(fs[5].0 == key_level());
        assert(fs[6].0 == key_low());
        assert(key_ask() != key_low()) by {
            assert(key_ask()[0] != key_low()[0]);
        }
        assert(key_bid() != key_low()) by {
            assert(key_bid()[0] != key_low()[0]);
        }
        assert(obj_get_from(fs, key_low(), 0) == obj_get_from(fs, key_low(), 1));
        assert(obj_get_from(fs, key_low(), 1) == obj_get_from(fs, key_low(), 2));
        assert(obj_get_from(fs, key_low(), 2) == obj_get_from(fs, key_low(), 3));
        assert(obj_get_from(fs, key_low(), 3) == obj_get_from(fs, key_low(), 4));
        assert(obj_get_from(fs, key_low(), 4) == obj_get_from(fs, key_low(), 5));
        assert(obj_get_from(fs, key_low(), 5) == obj_get_from(fs, key_low(), 6));
        assert(obj_get_from(fs, key_low(), 6) == Some(fs[6].1));
        assert(fs[0].0 == key_ask());
        assert(fs[1].0 == key_ask_volume());
        assert(fs[2].0 == key_bid());
        assert(fs[3].0 == key_bid_volume());
        assert(fs[4].0 == key_high());
        assert(fs[5].0 == key_level());
        assert(fs[6].0 == key_low());
        assert(fs[7].0 == key_quote_id());
        assert(obj_get_from(fs, key_quote_id(), 0) == obj_get_from(fs, key_quote_id(), 1));
        assert(obj_get_from(fs, key_quote_id(), 1) == obj_get_from(fs, key_quote_id(), 2));
        assert(obj_get_from(fs, key_quote_id(), 2) == obj_get_from(fs, key_quote_id(), 3));
        assert(obj_get_from(fs, key_quote_id(), 3) == obj_get_from(fs, key_quote_id(), 4));
        assert(obj_get_from(fs, key_quote_id(), 4) == obj_get_from(fs, key_quote_id(), 5));
        assert(obj_get_from(fs, key_quote_id(), 5) == obj_get_from(fs, key_quote_id(), 6));
        assert(obj_get_from(fs, key_quote_id(), 6) == obj_get_from(fs, key_quote_id(), 7));
        assert(obj_get_from(fs, key_quote_id(), 7) == Some(fs[7].1));
        assert(fs[0].0 == key_ask());
        assert(fs[1].0 == key_ask_volume());
        assert(fs[2].0 == key_bid());
        assert(fs[3].0 == key_bid_volume());
        assert(fs[4].0 == key_high());
        assert(fs[5].0 == key_level());
        assert(fs[6].0 == key_low());
        assert(fs[7].0 == key_quote_id());
        assert(fs[8].0 == key_spread_raw());
        assert(key_ask_volume() != key_spread_raw()) by {
            assert(key_ask_volume()[0] != key_spread_raw()[0]);
        }
        assert(key_bid_volume() != key_spread_raw()) by {
            assert(key_bid_volume()[0] != key_spread_raw()[0]);
        }
        assert(obj_get_from(fs, key_spread_raw(), 0) == obj_get_from(fs, key_spread_raw(), 1));
        assert(obj_get_from(fs, key_spread_raw(), 1) == obj_get_from(fs, key_spread_raw(), 2));
        assert(obj_get_from(fs, key_spread_raw(), 2) == obj_get_from(fs, key_spread_raw(), 3));
        assert(obj_get_from(fs, key_spread_raw(), 3) == obj_get_from(fs, key_spread_raw(), 4));
        assert(obj_get_from(fs, key_spread_raw(), 4) == obj_get_from(fs, key_spread_raw(), 5));
        assert(obj_get_from(fs, key_spread_raw(), 5) == obj_get_from(fs, key_spread_raw(), 6));
        assert(obj_get_from(fs, key_spread_raw(), 6) == obj_get_from(fs, key_spread_raw(), 7));
        assert(obj_get_from(fs, key_spread_raw(), 7) == obj_get_from(fs, key_spread_raw(), 8));
        assert(obj_get_from(fs, key_spread_raw(), 8) == Some(fs[8].1));
        assert(fs[0].0 == key_ask());
        assert(fs[1].0 == key_ask_volume());
        assert(fs[2].0 == key_bid());
        assert(fs[3].0 == key_bid_volume());
        assert(fs[4].0 == key_high());
        assert(fs[5].0 == key_level());
        assert(fs[6].0 == key_low());
        assert(fs[7].0 == key_quote_id());
        assert(fs[8].0 == key_spread_raw());
        assert(fs[9].0 == key_spread_table());
        assert(obj_get_from(fs, key_spread_table(), 0) == obj_get_from(fs, key_spread_table(), 1));
        assert(obj_get_from(fs, key_spread_table(), 1) == obj_get_from(fs, key_spread_table(), 2));
        assert(obj_get_from(fs, key_spread_table(), 2) == obj_get_from(fs, key_spread_table(), 3));
        assert(obj_get_from(fs, key_spread_table(), 3) == obj_get_from(fs, key_spread_table(), 4));
        assert(obj_get_from(fs, key_spread_table(), 4) == obj_get_from(fs, key_spread_table(), 5));
        assert(obj_get_from(fs, key_spread_table(), 5) == obj_get_from(fs, key_spread_table(), 6));
        assert(obj_get_from(fs, key_spread_table(), 6) == obj_get_from(fs, key_spread_table(), 7));
        assert(obj_get_from(fs, key_spread_table(), 7) == obj_get_from(fs, key_spread_table(), 8));
        assert(obj_get_from(fs, key_spread_table(), 8) == obj_get_from(fs, key_spread_table(), 9));
        assert(obj_get_from(fs, key_spread_table(), 9) == Some(fs[9].1));
        assert(fs[0].0 == key_ask());
        assert(fs[1].0 == key_ask_volume());
        assert(fs[2].0 == key_bid());
        assert(fs[3].0 == key_bid_volume());
        assert(fs[4].0 == key_high());
        assert(fs[5].0 == key_level());
        assert(fs[6].0 == key_low());
        assert(fs[7].0 == key_quote_id());
        assert(fs[8].0 == key_spread_raw());
        assert(fs[9].0 == key_spread_table());
        assert(fs[10].0 == key_symbol());
        assert(obj_get_from(fs, key_symbol(), 0) == obj_get_from(fs, key_symbol(), 1));
        assert(obj_get_from(fs, key_symbol(), 1) == obj_get_from(fs, key_symbol(), 2));
        assert(obj_get_from(fs, key_symbol(), 2) == obj_get_from(fs, key_symbol(), 3));
        assert(obj_get_from(fs, key_symbol(), 3) == obj_get_from(fs, key_symbol(), 4));
        assert(obj_get_from(fs, key_symbol(), 4) == obj_get_from(fs, key_symbol(), 5));
        assert(obj_get_from(fs, key_symbol(), 5) == obj_get_from(fs, key_symbol(), 6));
        assert(obj_get_from(fs, key_symbol(), 6) == obj_get_from(fs, key_symbol(), 7));
        assert(obj_get_from(fs, key_symbol(), 7) == obj_get_from(fs, key_symbol(), 8));
        assert(obj_get_from(fs, key_symbol(), 8) == obj_get_from(fs, key_symbol(), 9));
        assert(obj_get_from(fs, key_symbol(), 9) == obj_get_from(fs, key_symbol(), 10));
        assert(obj_get_from(fs, key_symbol(), 10) == Some(fs[10].1));
        assert(fs[0].0 == key_ask());
        assert(fs[1].0 == key_ask_volume());
        assert(fs[2].0 == key_bid());
        assert(fs[3].0 == key_bid_volume());
        assert(fs[4].0 == key_high());
        assert(fs[5].0 == key_level());
        assert(fs[6].0 == key_low());
        assert(fs[7].0 == key_quote_id());
        assert(fs[8].0 == key_spread_raw());
        assert(fs[9].0 == key_spread_table());
        assert(fs[10].0 == key_symbol());
        assert(fs[11].0 == key_timestamp());
        assert(key_ask_volume() != key_timestamp()) by {
            assert(key_ask_volume()[0] != key_timestamp()[0]);
        }
        assert(key_bid_volume() != key_timestamp()) by {
            assert(key_bid_volume()[0] != key_timestamp()[0]);
        }
        assert(key_spread_raw() != key_timestamp()) by {
            assert(key_spread_raw()[0] != key_timestamp()[0]);
        }
        assert(obj_get_from(fs, key_timestamp(), 0) == obj_get_from(fs, key_timestamp(), 1));
        assert(obj_get_from(fs, key_timestamp(), 1) == obj_get_from(fs, key_timestamp(), 2));
        assert(obj_get_from(fs, key_timestamp(), 2) == obj_get_from(fs, key_timestamp(), 3));
        assert(obj_get_from(fs, key_timestamp(), 3) == obj_get_from(fs, key_timestamp(), 4));
        assert(obj_get_from(fs, key_timestamp(), 4) == obj_get_from(fs, key_timestamp(), 5));
        assert(obj_get_from(fs, key_timestamp(), 5) == obj_get_from(fs, key_timestamp(), 6));
        assert(obj_get_from(fs, key_timestamp(), 6) == obj_get_from(fs, key_timestamp(), 7));
        assert(obj_get_from(fs, key_timestamp(), 7) == obj_get_from(fs, key_timestamp(), 8));
        assert(obj_get_from(fs, key_timestamp(), 8) == obj_get_from(fs, key_timestamp(), 9));
        assert(obj_get_from(fs, key_timestamp(), 9) == obj_get_from(fs, key_timestamp(), 10));
        assert(obj_get_from(fs, key_timestamp(), 10) == obj_get_from(fs, key_timestamp(), 11));
        assert(obj_get_from(fs, key_timestamp(), 11) == Some(fs[11].1));
    }
}

#[derive(Debug, PartialEq, Eq)]
pub struct GetTrades {
    pub stream_session_id: Vec<u8>,
}

pub struct GetTradesV {
    pub stream_session_id: Seq<u8>,
}

impl View for GetTrades {
    type V = GetTradesV;

    open spec fn view(&self) -> GetTradesV {
        GetTradesV {
            stream_session_id: self.stream_session_id@,
        }
    }
}

pub open spec fn spec_get_trades_fields(m: GetTradesV) -> Seq<(Seq<u8>, JsonV)> {
    seq![
        (key_stream_session_id(), JsonV::Str(m.stream_session_id)),
    ]
}

impl WireJson for GetTrades {
    open spec fn spec_to_json(m: GetTradesV) -> JsonV {
        JsonV::Obj(spec_get_trades_fields(m))
    }

    open spec fn spec_from_json(j: JsonV) -> Option<GetTradesV> {
        let f_stream_session_id = jv_get_str(j, key_stream_session_id());
        if f_stream_session_id is Some {
            Some(GetTradesV {
                stream_session_id: f_stream_session_id->Some_0,
            })
        } else {
            None
        }
    }

    fn to_json(&self) -> (r: Json) {
        let mut fields: Vec<(Vec<u8>, Json)> = Vec::new();
        fields.push((vec_of(kx_stream_session_id().as_slice()), Json::Str(vec_of(self.stream_session_id.as_slice()))));
        let r = Json::Obj(fields);
        proof {
            lemma_json_view_members(r->Obj_0, 0);
            assert(json_view_members(r->Obj_0, 0) =~= spec_get_trades_fields(self@));
        }
        r
    }

    fn from_json(j: &Json) -> (r: Option<GetTrades>) {
        let stream_session_id = match j.get_str(kx_stream_session_id().as_slice()) {
            Some(v) => v,
            None => { return None; },
        };
        Some(GetTrades {
            stream_session_id,
        })
    }

    proof fn lemma_round_trip(m: GetTradesV) {
        let j = Self::spec_to_json(m);
        let fs = j->Obj_0;
        assert(fs[0].0 == key_stream_session_id());
        assert(obj_get_from(fs, key_stream_session_id(), 0) == Some(fs[0].1));
    }
}

/// Reading the fields out of a tagged stream message gives them back,
/// whatever tag member stands in front of them.
pub proof fn lemma_get_trades_from_envelope(head: (Seq<u8>, JsonV), m: GetTradesV)
    requires
        head.0 == key_command(),
    ensures
        <GetTrades as WireJson>::spec_from_json(
            JsonV::Obj(seq![head] + spec_get_trades_fields(m)),
        ) == Some(m),
{
    let j = JsonV::Obj(seq![head] + spec_get_trades_fields(m));
    let fs = j->Obj_0;
        assert(fs[0].0 == key_command());
        assert(fs[1].0 == key_stream_session_id());
        assert(obj_get_from(fs, key_stream_session_id(), 0) == obj_get_from(fs, key_stream_session_id(), 1));
        assert(obj_get_from(fs, key_stream_session_id(), 1) == Some(fs[1].1));
}

#[derive(Debug, PartialEq, Eq)]
pub struct GetTradesReponse {
    pub close_price: Decimal,
    pub close_time: Option<i64>,
    pub closed: bool,
    pub cmd: Cmd,
    pub comment: Vec<u8>,
    pub commission: Decimal,
    pub custom_comment: Option<Vec<u8>>,
    pub digits: u16,
    pub expiration: Option<u32>,
    pub margin_rate: Decimal,
    pub offset: u16,
    pub open_price: Decimal,
    pub open_time: i64,
    pub order: u32,
    pub order2: u32,
    pub position: u32,
    pub profit: Option<Decimal>,
    pub sl: Decimal,
    pub state: State,
    pub storage: Decimal,
    pub symbol: Vec<u8>,
    pub tp: Decimal,
    pub trans_type: Type,
    pub volume: Decimal,
}

pub struct GetTradesReponseV {
    pub close_price: Decimal,
    pub close_time: Option<i64>,
    pub closed: bool,
    pub cmd: Cmd,
    pub comment: Seq<u8>,
    pub commission: Decimal,
    pub custom_comment: Option<Seq<u8>>,
    pub digits: u16,
    pub expiration: Option<u32>,
    pub margin_rate: Decimal,
    pub offset: u16,
    pub open_price: Decimal,
    pub open_time: i64,
    pub order: u32,
    pub order2: u32,
    pub position: u32,
    pub profit: Option<Decimal>,
    pub sl: Decimal,
    pub state: State,
    pub storage: Decimal,
    pub symbol: Seq<u8>,
    pub tp: Decimal,
    pub trans_type: Type,
    pub volume: Decimal,
}

impl View for GetTradesReponse {
    type V = GetTradesReponseV;

    open spec fn view(&self) -> GetTradesReponseV {
        GetTradesReponseV {
            close_price: self.close_price,
            close_time: self.close_time,
            closed: self.closed,
            cmd: self.cmd,
            comment: self.comment@,
            commission: self.commission,
            custom_comment: (match self.custom_comment { Some(v) => Some(v@), None => None }),
            digits: self.digits,
            expiration: self.expiration,
            margin_rate: self.margin_rate,
            offset: self.offset,
            open_price: self.open_price,
            open_time: self.open_time,
            order: self.order,
            order2: self.order2,
            position: self.position,
            profit: self.profit,
            sl: self.sl,
            state: self.state,
            storage: self.storage,
            symbol: self.symbol@,
            tp: self.tp,
            trans_type: self.trans_type,
            volume: self.volume,
        }
    }
}

pub open spec fn spec_get_trades_reponse_fields(m: GetTradesReponseV) -> Seq<(Seq<u8>, JsonV)> {
    seq![
        (key_close_price(), JsonV::Num(m.close_price)),
        (key_close_time(), (match m.close_time { Some(v) => JsonV::Num(spec_dec_of_int(v as int)), None => JsonV::Null })),
        (key_closed(), JsonV::Bool(m.closed)),
        (key_cmd(), JsonV::Num(spec_dec_of_int(spec_cmd_code(m.cmd) as int))),
        (key_comment(), JsonV::Str(m.comment)),
        (key_commission(), JsonV::Num(m.commission)),
        (key_custom_comment(), (match m.custom_comment { Some(v) => JsonV::Str(v), None => JsonV::Null })),
        (key_digits(), JsonV::Num(spec_dec_of_int(m.digits as int))),
        (key_expiration(), (match m.expiration { Some(v) => JsonV::Num(spec_dec_of_int(v as int)), None => JsonV::Null })),
        (key_margin_rate(), JsonV::Num(m.margin_rate)),
        (key_offset(), JsonV::Num(spec_dec_of_int(m.offset as int))),
        (key_open_price(), JsonV::Num(m.open_price)),
        (key_open_time(), JsonV::Num(spec_dec_of_int(m.open_time as int))),
        (key_order(), JsonV::Num(spec_dec_of_int(m.order as int))),
        (key_order2(), JsonV::Num(spec_dec_of_int(m.order2 as int))),
        (key_position(), JsonV::Num(spec_dec_of_int(m.position as int))),
        (key_profit(), (match m.profit { Some(v) => JsonV::Num(v), None => JsonV::Null })),
        (key_sl(), JsonV::Num(m.sl)),
        (key_state(), JsonV::Str(spec_state_str(m.state))),
        (key_storage(), JsonV::Num(m.storage)),
        (key_symbol(), JsonV::Str(m.symbol)),
        (key_tp(), JsonV::Num(m.tp)),
        (key_type(), JsonV::Num(spec_dec_of_int(spec_type_code(m.trans_type) as int))),
        (key_volume(), JsonV::Num(m.volume)),
    ]
}

impl WireJson for GetTradesReponse {
    open spec fn spec_to_json(m: GetTradesReponseV) -> JsonV {
        JsonV::Obj(spec_get_trades_reponse_fields(m))
    }

    open spec fn spec_from_json(j: JsonV) -> Option<GetTradesReponseV> {
        let f_close_price = jv_get_dec(j, key_close_price());
        let f_close_time = jv_get_opt_i64(j, key_close_time());
        let f_closed = jv_get_bool(j, key_closed());
        let f_cmd = (match jv_get_dec(j, key_cmd()) { Some(d) => spec_cmd_from_dec(d), None => None });
        let f_comment = jv_get_str(j, key_comment());
        let f_commission = jv_get_dec(j, key_commission());
        let f_custom_comment = jv_get_opt_str(j, key_custom_comment());
        let f_digits = jv_get_u16(j, key_digits());
        let f_expiration = jv_get_opt_u32(j, key_expiration());
        let f_margin_rate = jv_get_dec(j, key_margin_rate());
        let f_offset = jv_get_u16(j, key_offset());
        let f_open_price = jv_get_dec(j, key_open_price());
        let f_open_time = jv_get_i64(j, key_open_time());
        let f_order = jv_get_u32(j, key_order());
        let f_order2 = jv_get_u32(j, key_order2());
        let f_position = jv_get_u32(j, key_position());
        let f_profit = jv_get_opt_dec(j, key_profit());
        let f_sl = jv_get_dec(j, key_sl());
        let f_state = (match jv_get_str(j, key_state()) { Some(s) => spec_state_from_str(s), None => None });
        let f_storage = jv_get_dec(j, key_storage());
        let f_symbol = jv_get_str(j, key_symbol());
        let f_tp = jv_get_dec(j, key_tp());
        let f_trans_type = (match jv_get_dec(j, key_type()) { Some(d) => spec_type_from_dec(d), None => None });
        let f_volume = jv_get_dec(j, key_volume());
        if f_close_price is Some && f_close_time is Some && f_closed is Some && f_cmd is Some && f_comment is Some && f_commission is Some && f_custom_comment is Some && f_digits is Some && f_expiration is Some && f_margin_rate is Some && f_offset is Some && f_open_price is Some && f_open_time is Some && f_order is Some && f_order2 is Some && f_position is Some && f_profit is Some && f_sl is Some && f_state is Some && f_storage is Some && f_symbol is Some && f_tp is Some && f_trans_type is Some && f_volume is Some {
            Some(GetTradesReponseV {
                close_price: f_close_price->Some_0,
                close_time: f_close_time->Some_0,
                closed: f_closed->Some_0,
                cmd: f_cmd->Some_0,
                comment: f_comment->Some_0,
                commission: f_commission->Some_0,
                custom_comment: f_custom_comment->Some_0,
                digits: f_digits->Some_0,
                expiration: f_expiration->Some_0,
                margin_rate: f_margin_rate->Some_0,
                offset: f_offset->Some_0,
                open_price: f_open_price->Some_0,
                open_time: f_open_time->Some_0,
                order: f_order->Some_0,
                order2: f_order2->Some_0,
                position: f_position->Some_0,
                profit: f_profit->Some_0,
                sl: f_sl->Some_0,
                state: f_state->Some_0,
                storage: f_storage->Some_0,
                symbol: f_symbol->Some_0,
                tp: f_tp->Some_0,
                trans_type: f_trans_type->Some_0,
                volume: f_volume->Some_0,
            })
        } else {
            None
        }
    }

    #[verifier::rlimit(100)]
    #[verifier::spinoff_prover]
    fn to_json(&self) -> (r: Json) {
        let mut fields: Vec<(Vec<u8>, Json)> = Vec::new();
        fields.push((vec_of(kx_close_price().as_slice()), Json::Num(self.close_price)));
        fields.push((vec_of(kx_close_time().as_slice()), (match self.close_time { Some(v) => Json::Num(Decimal::from_i64(v)), None => Json::Null })));
        fields.push((vec_of(kx_closed().as_slice()), Json::Bool(self.closed)));
        fields.push((vec_of(kx_cmd().as_slice()), Json::Num(Decimal::from_u64(self.cmd.code()))));
        fields.push((vec_of(kx_comment().as_slice()), Json::Str(vec_of(self.comment.as_slice()))));
        fields.push((vec_of(kx_commission().as_slice()), Json::Num(self.commission)));
        fields.push((vec_of(kx_custom_comment().as_slice()), (match &self.custom_comment { Some(v) => Json::Str(vec_of(v.as_slice())), None => Json::Null })));
        fields.push((vec_of(kx_digits().as_slice()), Json::Num(Decimal::from_u64(self.digits as u64))));
        fields.push((vec_of(kx_expiration().as_slice()), (match self.expiration { Some(v) => Json::Num(Decimal::from_u64(v as u64)), None => Json::Null })));
        fields.push((vec_of(kx_margin_rate().as_slice()), Json::Num(self.margin_rate)));
        fields.push((vec_of(kx_offset().as_slice()), Json::Num(Decimal::from_u64(self.offset as u64))));
        fields.push((vec_of(kx_open_price().as_slice()), Json::Num(self.open_price)));
        fields.push((vec_of(kx_open_time().as_slice()), Json::Num(Decimal::from_i64(self.open_time))));
        fields.push((vec_of(kx_order().as_slice()), Json::Num(Decimal::from_u64(self.order as u64))));
        fields.push((vec_of(kx_order2().as_slice()), Json::Num(Decimal::from_u64(self.order2 as u64))));
        fields.push((vec_of(kx_position().as_slice()), Json::Num(Decimal::from_u64(self.position as u64))));
        fields.push((vec_of(kx_profit().as_slice()), (match self.profit { Some(v) => Json::Num(v), None => Json::Null })));
        fields.push((vec_of(kx_sl().as_slice()), Json::Num(self.sl)));
        fields.push((vec_of(kx_state().as_slice()), Json::Str(self.state.wire_name())));
        fields.push((vec_of(kx_storage().as_slice()), Json::Num(self.storage)));
        fields.push((vec_of(kx_symbol().as_slice()), Json::Str(vec_of(self.symbol.as_slice()))));
        fields.push((vec_of(kx_tp().as_slice()), Json::Num(self.tp)));
        fields.push((vec_of(kx_type().as_slice()), Json::Num(Decimal::from_u64(self.trans_type.code()))));
        fields.push((vec_of(kx_volume().as_slice()), Json::Num(self.volume)));
        let r = Json::Obj(fields);
        proof {
            lemma_json_view_members(r->Obj_0, 0);
            assert(json_view_members(r->Obj_0, 0) =~= spec_get_trades_reponse_fields(self@));
        }
        r
    }

    fn from_json(j: &Json) -> (r: Option<GetTradesReponse>) {
        let close_price = match j.get_dec(kx_close_price().as_slice()) {
            Some(v) => v,
            None => { return None; },
        };
        let close_time = match j.get_opt_i64(kx_close_time().as_slice()) {
            Some(v) => v,
            None => { return None; },
        };
        let closed = match j.get_bool(kx_closed().as_slice()) {
            Some(v) => v,
            None => { return None; },
        };
        let cmd = match j.get_dec(kx_cmd().as_slice()) {
            Some(d) => match Cmd::from_dec(d) {
                Some(v) => v,
                None => { return None; },
            },
            None => { return None; },
        };
        let comment = match j.get_str(kx_comment().as_slice()) {
            Some(v) => v,
            None => { return None; },
        };
        let commission = match j.get_dec(kx_commission().as_slice()) {
            Some(v) => v,
            None => { return None; },
        };
        let custom_comment = match j.get_opt_str(kx_custom_comment().as_slice()) {
            Some(v) => v,
            None => { return None; },
        };
        let digits = match j.get_u16(kx_digits().as_slice()) {
            Some(v) => v,
            None => { return None; },
        };
        let expiration = match j.get_opt_u32(kx_expiration().as_slice()) {
            Some(v) => v,
            None => { return None; },
        };
        let margin_rate = match j.get_dec(kx_margin_rate().as_slice()) {
            Some(v) => v,
            None => { return None; },
        };
        let offset = match j.get_u16(kx_offset().as_slice()) {
            Some(v) => v,
            None => { return None; },
        };
        let open_price = match j.get_dec(kx_open_price().as_slice()) {
            Some(v) => v,
            None => { return None; },
        };
        let open_time = match j.get_i64(kx_open_time().as_slice()) {
            Some(v) => v,
            None => { return None; },
        };
        let order = match j.get_u32(kx_order().as_slice()) {
            Some(v) => v,
            None => { return None; },
        };
        let order2 = match j.get_u32(kx_order2().as_slice()) {
            Some(v) => v,
            None => { return None; },
        };
        let position = match j.get_u32(kx_position().as_slice()) {
            Some(v) => v,
            None => { return None; },
        };
        let profit = match j.get_opt_dec(kx_profit().as_slice()) {
            Some(v) => v,
            None => { return None; },
        };
        let sl = match j.get_dec(kx_sl().as_slice()) {
            Some(v) => v,
            None => { return None; },
        };
        let state = match j.get_str(kx_state().as_slice()) {
            Some(s) => match State::from_wire_name(s.as_slice()) {
                Some(v) => v,
                None => { return None; },
            },
            None => { return None; },
        };
        let storage = match j.get_dec(kx_storage().as_slice()) {
            Some(v) => v,
            None => { return None; },
        };
        let symbol = match j.get_str(kx_symbol().as_slice()) {
            Some(v) => v,
            None => { return None; },
        };
        let tp = match j.get_dec(kx_tp().as_slice()) {
            Some(v) => v,
            None => { return None; },
        };
        let trans_type = match j.get_dec(kx_type().as_slice()) {
            Some(d) => match Type::from_dec(d) {
                Some(v) => v,
                None => { return None; },
            },
            None => { return None; },
        };
        let volume = match j.get_dec(kx_volume().as_slice()) {
            Some(v) => v,
            None => { return None; },
        };
        Some(GetTradesReponse {
            close_price,
            close_time,
            closed,
            cmd,
            comment,
            commission,
            custom_comment,
            digits,
            expiration,
            margin_rate,
            offset,
            open_price,
            open_time,
            order,
            order2,
            position,
            profit,
            sl,
            state,
            storage,
            symbol,
            tp,
            trans_type,
            volume,
        })
    }

    proof fn lemma_round_trip(m: GetTradesReponseV) {
        let j = Self::spec_to_json(m);
        let fs = j->Obj_0;
        assert(fs[0].0 == key_close_price());
        assert(obj_get_from(fs, key_close_price(), 0) == Some(fs[0].1));
        assert(fs[0].0 == key_close_price());
        assert(fs[1].0 == key_close_time());
        assert(obj_get_from(fs, key_close_time(), 0) == obj_get_from(fs, key_close_time(), 1));
        assert(obj_get_from(fs, key_close_time(), 1) == Some(fs[1].1));
        assert(fs[0].0 == key_close_price());
        assert(fs[1].0 == key_close_time());
        assert(fs[2].0 == key_closed());
        assert(obj_get_from(fs, key_closed(), 0) == obj_get_from(fs, key_closed(), 1));
        assert(obj_get_from(fs, key_closed(), 1) == obj_get_from(fs, key_closed(), 2));
        assert(obj_get_from(fs, key_closed(), 2) == Some(fs[2].1));
        assert(fs[0].0 == key_close_price());
        assert(fs[1].0 == key_close_time());
        assert(fs[2].0 == key_closed());
        assert(fs[3].0 == key_cmd());
        assert(obj_get_from(fs, key_cmd(), 0) == obj_get_from(fs, key_cmd(), 1));
        assert(obj_get_from(fs, key_cmd(), 1) == obj_get_from(fs, key_cmd(), 2));
        assert(obj_get_from(fs, key_cmd(), 2) == obj_get_from(fs, key_cmd(), 3));
        assert(obj_get_from(fs, key_cmd(), 3) == Some(fs[3].1));
    lemma_cmd_round_trip(m.cmd);
        assert(fs[0].0 == key_close_price());
        assert(fs[1].0 == key_close_time());
        assert(fs[2].0 == key_closed());
        assert(fs[3].0 == key_cmd());
        assert(fs[4].0 == key_comment());
        assert(obj_get_from(fs, key_comment(), 0) == obj_get_from(fs, key_comment(), 1));
        assert(obj_get_from(fs, key_comment(), 1) == obj_get_from(fs, key_comment(), 2));
        assert(obj_get_from(fs, key_comment(), 2) == obj_get_from(fs, key_comment(), 3));
        assert(obj_get_from(fs, key_comment(), 3) == obj_get_from(fs, key_comment(), 4));
        assert(obj_get_from(fs, key_comment(), 4) == Some(fs[4].1));
        assert(fs[0].0 == key_close_price());
        assert(fs[1].0 == key_close_time());
        assert(fs[2].0 == key_closed());
        assert(fs[3].0 == key_cmd());
        assert(fs[4].0 == key_comment());
        assert(fs[5].0 == key_commission());
        assert(key_close_time() != key_commission()) by {
            assert(key_close_time()[1] != key_commission()[1]);
        }
        assert(obj_get_from(fs, key_commission(), 0) == obj_get_from(fs, key_commission(), 1));
        assert(obj_get_from(fs, key_commission(), 1) == obj_get_from(fs, key_commission(), 2));
        assert(obj_get_from(fs, key_commission(), 2) == obj_get_from(fs, key_commission(), 3));
        assert(obj_get_from(fs, key_commission(), 3) == obj_get_from(fs, key_commission(), 4));
        assert(obj_get_from(fs, key_commission(), 4) == obj_get_from(fs, key_commission(), 5));
        assert(obj_get_from(fs, key_commission(), 5) == Some(fs[5].1));
        assert(fs[0].0 == key_close_price());
        assert(fs[1].0 == key_close_time());
        assert(fs[2].0 == key_closed());
        assert(fs[3].0 == key_cmd());
        assert(fs[4].0 == key_comment());
        assert(fs[5].0 == key_commission());
        assert(fs[6].0 == key_custom_comment());
        assert(obj_get_from(fs, key_custom_comment(), 0) == obj_get_from(fs, key_custom_comment(), 1));
        assert(obj_get_from(fs, key_custom_comment(), 1) == obj_get_from(fs, key_custom_comment(), 2));
        assert(obj_get_from(fs, key_custom_comment(), 2) == obj_get_from(fs, key_custom_comment(), 3));
        assert(obj_get_from(fs, key_custom_comment(), 3) == obj_get_from(fs, key_custom_comment(), 4));
        assert(obj_get_from(fs, key_custom_comment(), 4) == obj_get_from(fs, key_custom_comment(), 5));
        assert(obj_get_from(fs, key_custom_comment(), 5) == obj_get_from(fs, key_custom_comment(), 6));
        assert(obj_get_from(fs, key_custom_comment(), 6) == Some(fs[6].1));
        assert(fs[0].0 == key_close_price());
        assert(fs[1].0 == key_close_time());
        assert(fs[2].0 == key_closed());
        assert(fs[3].0 == key_cmd());
        assert(fs[4].0 == key_comment());
        assert(fs[5].0 == key_commission());
        assert(fs[6].0 == key_custom_comment());
        assert(fs[7].0 == key_digits());
        assert(key_closed() != key_digits()) by {
            assert(key_closed()[0] != key_digits()[0]);
        }
        assert(obj_get_from(fs, key_digits(), 0) == obj_get_from(fs, key_digits(), 1));
        assert(obj_get_from(fs, key_digits(), 1) == obj_get_from(fs, key_digits(), 2));
        assert(obj_get_from(fs, key_digits(), 2) == obj_get_from(fs, key_digits(), 3));
        assert(obj_get_from(fs, key_digits(), 3) == obj_get_from(fs, key_digits(), 4));
        assert(obj_get_from(fs, key_digits(), 4) == obj_get_from(fs, key_digits(), 5));
        assert(obj_get_from(fs, key_digits(), 5) == obj_get_from(fs, key_digits(), 6));
        assert(obj_get_from(fs, key_digits(), 6) == obj_get_from(fs, key_digits(), 7));
        assert(obj_get_from(fs, key_digits(), 7) == Some(fs[7].1));
        assert(fs[0].0 == key_close_price());
        assert(fs[1].0 == key_close_time());
        assert(fs[2].0 == key_closed());
        assert(fs[3].0 == key_cmd());
        assert(fs[4].0 == key_comment());
        assert(fs[5].0 == key_commission());
        assert(fs[6].0 == key_custom_comment());
        assert(fs[7].0 == key_digits());
        assert(fs[8].0 == key_expiration());
        assert(key_close_time() != key_expiration()) by {
            assert(key_close_time()[0] != key_expiration()[0]);
        }
        assert(key_commission() != key_expiration()) by {
            assert(key_commission()[0] != key_expiration()[0]);
        }
        assert(obj_get_from(fs, key_expiration(), 0) == obj_get_from(fs, key_expiration(), 1));
        assert(obj_get_from(fs, key_expiration(), 1) == obj_get_from(fs, key_expiration(), 2));
        assert(obj_get_from(fs, key_expiration(), 2) == obj_get_from(fs, key_expiration(), 3));
        assert(obj_get_from(fs, key_expiration(), 3) == obj_get_from(fs, key_expiration(), 4));
        assert(obj_get_from(fs, key_expiration(), 4) == obj_get_from(fs, key_expiration(), 5));
        assert(obj_get_from(fs, key_expiration(), 5) == obj_get_from(fs, key_expiration(), 6));
        assert(obj_get_from(fs, key_expiration(), 6) == obj_get_from(fs, key_expiration(), 7));
        assert(obj_get_from(fs, key_expiration(), 7) == obj_get_from(fs, key_expiration(), 8));
        assert(obj_get_from(fs, key_expiration(), 8) == Some(fs[8].1));
        assert(fs[0].0 == key_close_price());
        assert(fs[1].0 == key_close_time());
        assert(fs[2].0 == key_closed());
        assert(fs[3].0 == key_cmd());
        assert(fs[4].0 == key_comment());
        assert(fs[5].0 == key_commission());
        assert(fs[6].0 == key_custom_comment());
        assert(fs[7].0 == key_digits());
        assert(fs[8].0 == key_expiration());
        assert(fs[9].0 == key_margin_rate());
        assert(key_close_price() != key_margin_rate()) by {
            assert(key_close_price()[0] != key_margin_rate()[0]);
        }
        assert(obj_get_from(fs, key_margin_rate(), 0) == obj_get_from(fs, key_margin_rate(), 1));
        assert(obj_get_from(fs, key_margin_rate(), 1) == obj_get_from(fs, key_margin_rate(), 2));
        assert(obj_get_from(fs, key_margin_rate(), 2) == obj_get_from(fs, key_margin_rate(), 3));
        assert(obj_get_from(fs, key_margin_rate(), 3) == obj_get_from(fs, key_margin_rate(), 4));
        assert(obj_get_from(fs, key_margin_rate(), 4) == obj_get_from(fs, key_margin_rate(), 5));
        assert(obj_get_from(fs, key_margin_rate(), 5) == obj_get_from(fs, key_margin_rate(), 6));
        assert(obj_get_from(fs, key_margin_rate(), 6) == obj_get_from(fs, key_margin_rate(), 7));
        assert(obj_get_from(fs, key_margin_rate(), 7) == obj_get_from(fs, key_margin_rate(), 8));
        assert(obj_get_from(fs, key_margin_rate(), 8) == obj_get_from(fs, key_margin_rate(), 9));
        assert(obj_get_from(fs, key_margin_rate(), 9) == Some(fs[9].1));
        assert(fs[0].0 == key_close_price());
        assert(fs[1].0 == key_close_time());
        assert(fs[2].0 == key_closed());
        assert(fs[3].0 == key_cmd());
        assert(fs[4].0 == key_comment());
        assert(fs[5].0 == key_commission());
        assert(fs[6].0 == key_custom_comment());
        assert(fs[7].0 == key_digits());
        assert(fs[8].0 == key_expiration());
        assert(fs[9].0 == key_margin_rate());
        assert(fs[10].0 == key_offset());
        assert(key_closed() != key_offset()) by {
            assert(key_closed()[0] != key_offset()[0]);
        }
        assert(key_digits() != key_offset()) by {
            assert(key_digits()[0] != key_offset()[0]);
        }
        assert(obj_get_from(fs, key_offset(), 0) == obj_get_from(fs, key_offset(), 1));
        assert(obj_get_from(fs, key_offset(), 1) == obj_get_from(fs, key_offset(), 2));
        assert(obj_get_from(fs, key_offset(), 2) == obj_get_from(fs, key_offset(), 3));
        assert(obj_get_from(fs, key_offset(), 3) == obj_get_from(fs, key_offset(), 4));
        assert(obj_get_from(fs, key_offset(), 4) == obj_get_from(fs, key_offset(), 5));
        assert(obj_get_from(fs, key_offset(), 5) == obj_get_from(fs, key_offset(), 6));
        assert(obj_get_from(fs, key_offset(), 6) == obj_get_from(fs, key_offset(), 7));
        assert(obj_get_from(fs, key_offset(), 7) == obj_get_from(fs, key_offset(), 8));
        assert(obj_get_from(fs, key_offset(), 8) == obj_get_from(fs, key_offset(), 9));
        assert(obj_get_from(fs, key_offset(), 9) == obj_get_from(fs, key_offset(), 10));
        assert(obj_get_from(fs, key_offset(), 10) == Some(fs[10].1));
        assert(fs[0].0 == key_close_price());
        assert(fs[1].0 == key_close_time());
        assert(fs[2].0 == key_closed());
        assert(fs[3].0 == key_cmd());
        assert(fs[4].0 == key_comment());
        assert(fs[5].0 == key_commission());
        assert(fs[6].0 == key_custom_comment());
        assert(fs[7].0 == key_digits());
        assert(fs[8].0 == key_expiration());
        assert(fs[9].0 == key_margin_rate());
        assert(fs[10].0 == key_offset());
        assert(fs[11].0 == key_open_price());
        assert(key_close_time() != key_open_price()) by {
            assert(key_close_time()[0] != key_open_price()[0]);
        }
        assert(key_commission() != key_open_price()) by {
            assert(key_commission()[0] != key_open_price()[0]);
        }
        assert(key_expiration() != key_open_price()) by {
            assert(key_expiration()[0] != key_open_price()[0]);
        }
        assert(obj_get_from(fs, key_open_price(), 0) == obj_get_from(fs, key_open_price(), 1));
        assert(obj_get_from(fs, key_open_price(), 1) == obj_get_from(fs, key_open_price(), 2));
        assert(obj_get_from(fs, key_open_price(), 2) == obj_get_from(fs, key_open_price(), 3));
        assert(obj_get_from(fs, key_open_price(), 3) == obj_get_from(fs, key_open_price(), 4));
        assert(obj_get_from(fs, key_open_price(), 4) == obj_get_from(fs, key_open_price(), 5));
        assert(obj_get_from(fs, key_open_price(), 5) == obj_get_from(fs, key_open_price(), 6));
        assert(obj_get_from(fs, key_open_price(), 6) == obj_get_from(fs, key_open_price(), 7));
        assert(obj_get_from(fs, key_open_price(), 7) == obj_get_from(fs, key_open_price(), 8));
        assert(obj_get_from(fs, key_open_price(), 8) == obj_get_from(fs, key_open_price(), 9));
        assert(obj_get_from(fs, key_open_price(), 9) == obj_get_from(fs, key_open_price(), 10));
        assert(obj_get_from(fs, key_open_price(), 10) == obj_get_from(fs, key_open_price(), 11));
        assert(obj_get_from(fs, key_open_price(), 11) == Some(fs[11].1));
        assert(fs[0].0 == key_close_price());
        assert(fs[1].0 == key_close_time());
        assert(fs[2].0 == key_closed());
        assert(fs[3].0 == key_cmd());
        assert(fs[4].0 == key_comment());
        assert(fs[5].0 == key_commission());
        assert(fs[6].0 == key_custom_comment());
        assert(fs[7].0 == key_digits());
        assert(fs[8].0 == key_expiration());
        assert(fs[9].0 == key_margin_rate());
        assert(fs[10].0 == key_offset());
        assert(fs[11].0 == key_open_price());
        assert(fs[12].0 == key_open_time());
        assert(obj_get_from(fs, key_open_time(), 0) == obj_get_from(fs, key_open_time(), 1));
        assert(obj_get_from(fs, key_open_time(), 1) == obj_get_from(fs, key_open_time(), 2));
        assert(obj_get_from(fs, key_open_time(), 2) == obj_get_from(fs, key_open_time(), 3));
        assert(obj_get_from(fs, key_open_time(), 3) == obj_get_from(fs, key_open_time(), 4));
        assert(obj_get_from(fs, key_open_time(), 4) == obj_get_from(fs, key_open_time(), 5));
        assert(obj_get_from(fs, key_open_time(), 5) == obj_get_from(fs, key_open_time(), 6));
        assert(obj_get_from(fs, key_open_time(), 6) == obj_get_from(fs, key_open_time(), 7));
        assert(obj_get_from(fs, key_open_time(), 7) == obj_get_from(fs, key_open_time(), 8));
        assert(obj_get_from(fs, key_open_time(), 8) == obj_get_from(fs, key_open_time(), 9));
        assert(obj_get_from(fs, key_open_time(), 9) == obj_get_from(fs, key_open_time(), 10));
        assert(obj_get_from(fs, key_open_time(), 10) == obj_get_from(fs, key_open_time(), 11));
        assert(obj_get_from(fs, key_open_time(), 11) == obj_get_from(fs, key_open_time(), 12));
        assert(obj_get_from(fs, key_open_time(), 12) == Some(fs[12].1));
        assert(fs[0].0 == key_close_price());
        assert(fs[1].0 == key_close_time());
        assert(fs[2].0 == key_closed());
        assert(fs[3].0 == key_cmd());
        assert(fs[4].0 == key_comment());
        assert(fs[5].0 == key_commission());
        assert(fs[6].0 == key_custom_comment());
        assert(fs[7].0 == key_digits());
        assert(fs[8].0 == key_expiration());
        assert(fs[9].0 == key_margin_rate());
        assert(fs[10].0 == key_offset());
        assert(fs[11].0 == key_open_price());
        assert(fs[12].0 == key_open_time());
        assert(fs[13].0 == key_order());
        assert(obj_get_from(fs, key_order(), 0) == obj_get_from(fs, key_order(), 1));
        assert(obj_get_from(fs, key_order(), 1) == obj_get_from(fs, key_order(), 2));
        assert(obj_get_from(fs, key_order(), 2) == obj_get_from(fs, key_order(), 3));
        assert(obj_get_from(fs, key_order(), 3) == obj_get_from(fs, key_order(), 4));
        assert(obj_get_from(fs, key_order(), 4) == obj_get_from(fs, key_order(), 5));
        assert(obj_get_from(fs, key_order(), 5) == obj_get_from(fs, key_order(), 6));
        assert(obj_get_from(fs, key_order(), 6) == obj_get_from(fs, key_order(), 7));
        assert(obj_get_from(fs, key_order(), 7) == obj_get_from(fs, key_order(), 8));
        assert(obj_get_from(fs, key_order(), 8) == obj_get_from(fs, key_order(), 9));
        assert(obj_get_from(fs, key_order(), 9) == obj_get_from(fs, key_order(), 10));
        assert(obj_get_from(fs, key_order(), 10) == obj_get_from(fs, key_order(), 11));
        assert(obj_get_from(fs, key_order(), 11) == obj_get_from(fs, key_order(), 12));
        assert(obj_get_from(fs, key_order(), 12) == obj_get_from(fs, key_order(), 13));
        assert(obj_get_from(fs, key_order(), 13) == Some(fs[13].1));
        assert(fs[0].0 == key_close_price());
        assert(fs[1].0 == key_close_time());
        assert(fs[2].0 == key_closed());
        assert(fs[3].0 == key_cmd());
        assert(fs[4].0 == key_comment());
        assert(fs[5].0 == key_commission());
        assert(fs[6].0 == key_custom_comment());
        assert(fs[7].0 == key_digits());
        assert(fs[8].0 == key_expiration());
        assert(fs[9].0 == key_margin_rate());
        assert(fs[10].0 == key_offset());
        assert(fs[11].0 == key_open_price());
        assert(fs[12].0 == key_open_time());
        assert(fs[13].0 == key_order());
        assert(fs[14].0 == key_order2());
        assert(key_closed() != key_order2()) by {
            assert(key_closed()[0] != key_order2()[0]);
        }
        assert(key_digits() != key_order2()) by {
            assert(key_digits()[0] != key_order2()[0]);
        }
        assert(key_offset() != key_order2()) by {
            assert(key_offset()[1] != key_order2()[1]);
        }
        assert(obj_get_from(fs, key_order2(), 0) == obj_get_from(fs, key_order2(), 1));
        assert(obj_get_from(fs, key_order2(), 1) == obj_get_from(fs, key_order2(), 2));
        assert(obj_get_from(fs, key_order2(), 2) == obj_get_from(fs, key_order2(), 3));
        assert(obj_get_from(fs, key_order2(), 3) == obj_get_from(fs, key_order2(), 4));
        assert(obj_get_from(fs, key_order2(), 4) == obj_get_from(fs, key_order2(), 5));
        assert(obj_get_from(fs, key_order2(), 5) == obj_get_from(fs, key_order2(), 6));
        assert(obj_get_from(fs, key_order2(), 6) == obj_get_from(fs, key_order2(), 7));
        assert(obj_get_from(fs, key_order2(), 7) == obj_get_from(fs, key_order2(), 8));
        assert(obj_get_from(fs, key_order2(), 8) == obj_get_from(fs, key_order2(), 9));
        assert(obj_get_from(fs, key_order2(), 9) == obj_get_from(fs, key_order2(), 10));
        assert(obj_get_from(fs, key_order2(), 10) == obj_get_from(fs, key_order2(), 11));
        assert(obj_get_from(fs, key_order2(), 11) == obj_get_from(fs, key_order2(), 12));
        assert(obj_get_from(fs, key_order2(), 12) == obj_get_from(fs, key_order2(), 13));
        assert(obj_get_from(fs, key_order2(), 13) == obj_get_from(fs, key_order2(), 14));
        assert(obj_get_from(fs, key_order2(), 14) == Some(fs[14].1));
        assert(fs[0].0 == key_close_price());
        assert(fs[1].0 == key_close_time());
        assert(fs[2].0 == key_closed());
        assert(fs[3].0 == key_cmd());
        assert(fs[4].0 == key_comment());
        assert(fs[5].0 == key_commission());
        assert(fs[6].0 == key_custom_comment());
        assert(fs[7].0 == key_digits());
        assert(fs[8].0 == key_expiration());
        assert(fs[9].0 == key_margin_rate());
        assert(fs[10].0 == key_offset());
        assert(fs[11].0 == key_open_price());
        assert(fs[12].0 == key_open_time());
        assert(fs[13].0 == key_order());
        assert(fs[14].0 == key_order2());
        assert(fs[15].0 == key_position());
        assert(obj_get_from(fs, key_position(), 0) == obj_get_from(fs, key_position(), 1));
        assert(obj_get_from(fs, key_position(), 1) == obj_get_from(fs, key_position(), 2));
        assert(obj_get_from(fs, key_position(), 2) == obj_get_from(fs, key_position(), 3));
        assert(obj_get_from(fs, key_position(), 3) == obj_get_from(fs, key_position(), 4));
        assert(obj_get_from(fs, key_position(), 4) == obj_get_from(fs, key_position(), 5));
        assert(obj_get_from(fs, key_position(), 5) == obj_get_from(fs, key_position(), 6));
        assert(obj_get_from(fs, key_position(), 6) == obj_get_from(fs, key_position(), 7));
        assert(obj_get_from(fs, key_position(), 7) == obj_get_from(fs, key_position(), 8));
        assert(obj_get_from(fs, key_position(), 8) == obj_get_from(fs, key_position(), 9));
        assert(obj_get_from(fs, key_position(), 9) == obj_get_from(fs, key_position(), 10));
        assert(obj_get_from(fs, key_position(), 10) == obj_get_from(fs, key_position(), 11));
        assert(obj_get_from(fs, key_position(), 11) == obj_get_from(fs, key_position(), 12));
        assert(obj_get_from(fs, key_position(), 12) == obj_get_from(fs, key_position(), 13));
        assert(obj_get_from(fs, key_position(), 13) == obj_get_from(fs, key_position(), 14));
        assert(obj_get_from(fs, key_position(), 14) == obj_get_from(fs, key_position(), 15));
        assert(obj_get_from(fs, key_position(), 15) == Some(fs[15].1));
        assert(fs[0].0 == key_close_price());
        assert(fs[1].0 == key_close_time());
        assert(fs[2].0 == key_closed());
        assert(fs[3].0 == key_cmd());
        assert(fs[4].0 == key_comment());
        assert(fs[5].0 == key_commission());
        assert(fs[6].0 == key_custom_comment());
        assert(fs[7].0 == key_digits());
        assert(fs[8].0 == key_expiration());
        assert(fs[9].0 == key_margin_rate());
        assert(fs[10].0 == key_offset());
        assert(fs[11].0 == key_open_price());
        assert(fs[12].0 == key_open_time());
        assert(fs[13].0 == key_order());
        assert(fs[14].0 == key_order2());
        assert(fs[15].0 == key_position());
        assert(fs[16].0 == key_profit());
        assert(key_closed() != key_profit()) by {
            assert(key_closed()[0] != key_profit()[0]);
        }
        assert(key_digits() != key_profit()) by {
            assert(key_digits()[0] != key_profit()[0]);
        }
        assert(key_offset() != key_profit()) by {
            assert(key_offset()[0] != key_profit()[0]);
        }
        assert(key_order2() != key_profit()) by {
            assert(key_order2()[0] != key_profit()[0]);
        }
        assert(obj_get_from(fs, key_profit(), 0) == obj_get_from(fs, key_profit(), 1));
        assert(obj_get_from(fs, key_profit(), 1) == obj_get_from(fs, key_profit(), 2));
        assert(obj_get_from(fs, key_profit(), 2) == obj_get_from(fs, key_profit(), 3));
        assert(obj_get_from(fs, key_profit(), 3) == obj_get_from(fs, key_profit(), 4));
        assert(obj_get_from(fs, key_profit(), 4) == obj_get_from(fs, key_profit(), 5));
        assert(obj_get_from(fs, key_profit(), 5) == obj_get_from(fs, key_profit(), 6));
        assert(obj_get_from(fs, key_profit(), 6) == obj_get_from(fs, key_profit(), 7));
        assert(obj_get_from(fs, key_profit(), 7) == obj_get_from(fs, key_profit(), 8));
        assert(obj_get_from(fs, key_profit(), 8) == obj_get_from(fs, key_profit(), 9));
        assert(obj_get_from(fs, key_profit(), 9) == obj_get_from(fs, key_profit(), 10));
        assert(obj_get_from(fs, key_profit(), 10) == obj_get_from(fs, key_profit(), 11));
        assert(obj_get_from(fs, key_profit(), 11) == obj_get_from(fs, key_profit(), 12));
        assert(obj_get_from(fs, key_profit(), 12) == obj_get_from(fs, key_profit(), 13));
        assert(obj_get_from(fs, key_profit(), 13) == obj_get_from(fs, key_profit(), 14));
        assert(obj_get_from(fs, key_profit(), 14) == obj_get_from(fs, key_profit(), 15));
        assert(obj_get_from(fs, key_profit(), 15) == obj_get_from(fs, key_profit(), 16));
        assert(obj_get_from(fs, key_profit(), 16) == Some(fs[16].1));
        assert(fs[0].0 == key_close_price());
        assert(fs[1].0 == key_close_time());
        assert(fs[2].0 == key_closed());
        assert(fs[3].0 == key_cmd());
        assert(fs[4].0 == key_comment());
        assert(fs[5].0 == key_commission());
        assert(fs[6].0 == key_custom_comment());
        assert(fs[7].0 == key_digits());
        assert(fs[8].0 == key_expiration());
        assert(fs[9].0 == key_margin_rate());
        assert(fs[10].0 == key_offset());
        assert(fs[11].0 == key_open_price());
        assert(fs[12].0 == key_open_time());
        assert(fs[13].0 == key_order());
        assert(fs[14].0 == key_order2());
        assert(fs[15].0 == key_position());
        assert(fs[16].0 == key_profit());
        assert(fs[17].0 == key_sl());
        assert(obj_get_from(fs, key_sl(), 0) == obj_get_from(fs, key_sl(), 1));
        assert(obj_get_from(fs, key_sl(), 1) == obj_get_from(fs, key_sl(), 2));
        assert(obj_get_from(fs, key_sl(), 2) == obj_get_from(fs, key_sl(), 3));
        assert(obj_get_from(fs, key_sl(), 3) == obj_get_from(fs, key_sl(), 4));
        assert(obj_get_from(fs, key_sl(), 4) == obj_get_from(fs, key_sl(), 5));
        assert(obj_get_from(fs, key_sl(), 5) == obj_get_from(fs, key_sl(), 6));
        assert(obj_get_from(fs, key_sl(), 6) == obj_get_from(fs, key_sl(), 7));
        assert(obj_get_from(fs, key_sl(), 7) == obj_get_from(fs, key_sl(), 8));
        assert(obj_get_from(fs, key_sl(), 8) == obj_get_from(fs, key_sl(), 9));
        assert(obj_get_from(fs, key_sl(), 9) == obj_get_from(fs, key_sl(), 10));
        assert(obj_get_from(fs, key_sl(), 10) == obj_get_from(fs, key_sl(), 11));
        assert(obj_get_from(fs, key_sl(), 11) == obj_get_from(fs, key_sl(), 12));
        assert(obj_get_from(fs, key_sl(), 12) == obj_get_from(fs, key_sl(), 13));
        assert(obj_get_from(fs, key_sl(), 13) == obj_get_from(fs, key_sl(), 14));
        assert(obj_get_from(fs, key_sl(), 14) == obj_get_from(fs, key_sl(), 15));
        assert(obj_get_from(fs, key_sl(), 15) == obj_get_from(fs, key_sl(), 16));
        assert(obj_get_from(fs, key_sl(), 16) == obj_get_from(fs, key_sl(), 17));
        assert(obj_get_from(fs, key_sl(), 17) == Some(fs[17].1));
        assert(fs[0].0 == key_close_price());
        assert(fs[1].0 == key_close_time());
        assert(fs[2].0 == key_closed());
        assert(fs[3].0 == key_cmd());
        assert(fs[4].0 == key_comment());
        assert(fs[5].0 == key_commission());
        assert(fs[6].0 == key_custom_comment());
        assert(fs[7].0 == key_digits());
        assert(fs[8].0 == key_expiration());
        assert(fs[9].0 == key_margin_rate());
        assert(fs[10].0 == key_offset());
        assert(fs[11].0 == key_open_price());
        assert(fs[12].0 == key_open_time());
        assert(fs[13].0 == key_order());
        assert(fs[14].0 == key_order2());
        assert(fs[15].0 == key_position());
        assert(fs[16].0 == key_profit());
        assert(fs[17].0 == key_sl());
        assert(fs[18].0 == key_state());
        assert(key_order() != key_state()) by {
            assert(key_order()[0] != key_state()[0]);
        }
        assert(obj_get_from(fs, key_state(), 0) == obj_get_from(fs, key_state(), 1));
        assert(obj_get_from(fs, key_state(), 1) == obj_get_from(fs, key_state(), 2));
        assert(obj_get_from(fs, key_state(), 2) == obj_get_from(fs, key_state(), 3));
        assert(obj_get_from(fs, key_state(), 3) == obj_get_from(fs, key_state(), 4));
        assert(obj_get_from(fs, key_state(), 4) == obj_get_from(fs, key_state(), 5));
        assert(obj_get_from(fs, key_state(), 5) == obj_get_from(fs, key_state(), 6));
        assert(obj_get_from(fs, key_state(), 6) == obj_get_from(fs, key_state(), 7));
        assert(obj_get_from(fs, key_state(), 7) == obj_get_from(fs, key_state(), 8));
        assert(obj_get_from(fs, key_state(), 8) == obj_get_from(fs, key_state(), 9));
        assert(obj_get_from(fs, key_state(), 9) == obj_get_from(fs, key_state(), 10));
        assert(obj_get_from(fs, key_state(), 10) == obj_get_from(fs, key_state(), 11));
        assert(obj_get_from(fs, key_state(), 11) == obj_get_from(fs, key_state(), 12));
        assert(obj_get_from(fs, key_state(), 12) == obj_get_from(fs, key_state(), 13));
        assert(obj_get_from(fs, key_state(), 13) == obj_get_from(fs, key_state(), 14));
        assert(obj_get_from(fs, key_state(), 14) == obj_get_from(fs, key_state(), 15));
        assert(obj_get_from(fs, key_state(), 15) == obj_get_from(fs, key_state(), 16));
        assert(obj_get_from(fs, key_state(), 16) == obj_get_from(fs, key_state(), 17));
        assert(obj_get_from(fs, key_state(), 17) == obj_get_from(fs, key_state(), 18));
        assert(obj_get_from(fs, key_state(), 18) == Some(fs[18].1));
    lemma_state_round_trip(m.state);
        assert(fs[0].0 == key_close_price());
        assert(fs[1].0 == key_close_time());
        assert(fs[2].0 == key_closed());
        assert(fs[3].0 == key_cmd());
        assert(fs[4].0 == key_comment());
        assert(fs[5].0 == key_commission());
        assert(fs[6].0 == key_custom_comment());
        assert(fs[7].0 == key_digits());
        assert(fs[8].0 == key_expiration());
        assert(fs[9].0 == key_margin_rate());
        assert(fs[10].0 == key_offset());
        assert(fs[11].0 == key_open_price());
        assert(fs[12].0 == key_open_time());
        assert(fs[13].0 == key_order());
        assert(fs[14].0 == key_order2());
        assert(fs[15].0 == key_position());
        assert(fs[16].0 == key_profit());
        assert(fs[17].0 == key_sl());
        assert(fs[18].0 == key_state());
        assert(fs[19].0 == key_storage());
        assert(key_comment() != key_storage()) by {
            assert(key_comment()[0] != key_storage()[0]);
        }
        assert(obj_get_from(fs, key_storage(), 0) == obj_get_from(fs, key_storage(), 1));
        assert(obj_get_from(fs, key_storage(), 1) == obj_get_from(fs, key_storage(), 2));
        assert(obj_get_from(fs, key_storage(), 2) == obj_get_from(fs, key_storage(), 3));
        assert(obj_get_from(fs, key_storage(), 3) == obj_get_from(fs, key_storage(), 4));
        assert(obj_get_from(fs, key_storage(), 4) == obj_get_from(fs, key_storage(), 5));
        assert(obj_get_from(fs, key_storage(), 5) == obj_get_from(fs, key_storage(), 6));
        assert(obj_get_from(fs, key_storage(), 6) == obj_get_from(fs, key_storage(), 7));
        assert(obj_get_from(fs, key_storage(), 7) == obj_get_from(fs, key_storage(), 8));
        assert(obj_get_from(fs, key_storage(), 8) == obj_get_from(fs, key_storage(), 9));
        assert(obj_get_from(fs, key_storage(), 9) == obj_get_from(fs, key_storage(), 10));
        assert(obj_get_from(fs, key_storage(), 10) == obj_get_from(fs, key_storage(), 11));
        assert(obj_get_from(fs, key_storage(), 11) == obj_get_from(fs, key_storage(), 12));
        assert(obj_get_from(fs, key_storage(), 12) == obj_get_from(fs, key_storage(), 13));
        assert(obj_get_from(fs, key_storage(), 13) == obj_get_from(fs, key_storage(), 14));
        assert(obj_get_from(fs, key_storage(), 14) == obj_get_from(fs, key_storage(), 15));
        assert(obj_get_from(fs, key_storage(), 15) == obj_get_from(fs, key_storage(), 16));
        assert(obj_get_from(fs, key_storage(), 16) == obj_get_from(fs, key_storage(), 17));
        assert(obj_get_from(fs, key_storage(), 17) == obj_get_from(fs, key_storage(), 18));
        assert(obj_get_from(fs, key_storage(), 18) == obj_get_from(fs, key_storage(), 19));
        assert(obj_get_from(fs, key_storage(), 19) == Some(fs[19].1));
        assert(fs[0].0 == key_close_price());
        assert(fs[1].0 == key_close_time());
        assert(fs[2].0 == key_closed());
        assert(fs[3].0 == key_cmd());
        assert(fs[4].0 == key_comment());
        assert(fs[5].0 == key_commission());
        assert(fs[6].0 == key_custom_comment());
        assert(fs[7].0 == key_digits());
        assert(fs[8].0 == key_expiration());
        assert(fs[9].0 == key_margin_rate());
        assert(fs[10].0 == key_offset());
        assert(fs[11].0 == key_open_price());
        assert(fs[12].0 == key_open_time());
        assert(fs[13].0 == key_order());
        assert(fs[14].0 == key_order2());
        assert(fs[15].0 == key_position());
        assert(fs[16].0 == key_profit());
        assert(fs[17].0 == key_sl());
        assert(fs[18].0 == key_state());
        assert(fs[19].0 == key_storage());
        assert(fs[20].0 == key_symbol());
        assert(key_closed() != key_symbol()) by {
            assert(key_closed()[0] != key_symbol()[0]);
        }
        assert(key_digits() != key_symbol()) by {
            assert(key_digits()[0] != key_symbol()[0]);
        }
        assert(key_offset() != key_symbol()) by {
            assert(key_offset()[0] != key_symbol()[0]);
        }
        assert(key_order2() != key_symbol()) by {
            assert(key_order2()[0] != key_symbol()[0]);
        }
        assert(key_profit() != key_symbol()) by {
            assert(key_profit()[0] != key_symbol()[0]);
        }
        assert(obj_get_from(fs, key_symbol(), 0) == obj_get_from(fs, key_symbol(), 1));
        assert(obj_get_from(fs, key_symbol(), 1) == obj_get_from(fs, key_symbol(), 2));
        assert(obj_get_from(fs, key_symbol(), 2) == obj_get_from(fs, key_symbol(), 3));
        assert(obj_get_from(fs, key_symbol(), 3) == obj_get_from(fs, key_symbol(), 4));
        assert(obj_get_from(fs, key_symbol(), 4) == obj_get_from(fs, key_symbol(), 5));
        assert(obj_get_from(fs, key_symbol(), 5) == obj_get_from(fs, key_symbol(), 6));
        assert(obj_get_from(fs, key_symbol(), 6) == obj_get_from(fs, key_symbol(), 7));
        assert(obj_get_from(fs, key_symbol(), 7) == obj_get_from(fs, key_symbol(), 8));
        assert(obj_get_from(fs, key_symbol(), 8) == obj_get_from(fs, key_symbol(), 9));
        assert(obj_get_from(fs, key_symbol(), 9) == obj_get_from(fs, key_symbol(), 10));
        assert(obj_get_from(fs, key_symbol(), 10) == obj_get_from(fs, key_symbol(), 11));
        assert(obj_get_from(fs, key_symbol(), 11) == obj_get_from(fs, key_symbol(), 12));
        assert(obj_get_from(fs, key_symbol(), 12) == obj_get_from(fs, key_symbol(), 13));
        assert(obj_get_from(fs, key_symbol(), 13) == obj_get_from(fs, key_symbol(), 14));
        assert(obj_get_from(fs, key_symbol(), 14) == obj_get_from(fs, key_symbol(), 15));
        assert(obj_get_from(fs, key_symbol(), 15) == obj_get_from(fs, key_symbol(), 16));
        assert(obj_get_from(fs, key_symbol(), 16) == obj_get_from(fs, key_symbol(), 17));
        assert(obj_get_from(fs, key_symbol(), 17) == obj_get_from(fs, key_symbol(), 18));
        assert(obj_get_from(fs, key_symbol(), 18) == obj_get_from(fs, key_symbol(), 19));
        assert(obj_get_from(fs, key_symbol(), 19) == obj_get_from(fs, key_symbol(), 20));
        assert(obj_get_from(fs, key_symbol(), 20) == Some(fs[20].1));
        assert(fs[0].0 == key_close_price());
        assert(fs[1].0 == key_close_time());
        assert(fs[2].0 == key_closed());
        assert(fs[3].0 == key_cmd());
        assert(fs[4].0 == key_comment());
        assert(fs[5].0 == key_commission());
        assert(fs[6].0 == key_custom_comment());
        assert(fs[7].0 == key_digits());
        assert(fs[8].0 == key_expiration());
        assert(fs[9].0 == key_margin_rate());
        assert(fs[10].0 == key_offset());
        assert(fs[11].0 == key_open_price());
        assert(fs[12].0 == key_open_time());
        assert(fs[13].0 == key_order());
        assert(fs[14].0 == key_order2());
        assert(fs[15].0 == key_position());
        assert(fs[16].0 == key_profit());
        assert(fs[17].0 == key_sl());
        assert(fs[18].0 == key_state());
        assert(fs[19].0 == key_storage());
        assert(fs[20].0 == key_symbol());
        assert(fs[21].0 == key_tp());
        assert(key_sl() != key_tp()) by {
            assert(key_sl()[0] != key_tp()[0]);
        }
        assert(obj_get_from(fs, key_tp(), 0) == obj_get_from(fs, key_tp(), 1));
        assert(obj_get_from(fs, key_tp(), 1) == obj_get_from(fs, key_tp(), 2));
        assert(obj_get_from(fs, key_tp(), 2) == obj_get_from(fs, key_tp(), 3));
        assert(obj_get_from(fs, key_tp(), 3) == obj_get_from(fs, key_tp(), 4));
        assert(obj_get_from(fs, key_tp(), 4) == obj_get_from(fs, key_tp(), 5));
        assert(obj_get_from(fs, key_tp(), 5) == obj_get_from(fs, key_tp(), 6));
        assert(obj_get_from(fs, key_tp(), 6) == obj_get_from(fs, key_tp(), 7));
        assert(obj_get_from(fs, key_tp(), 7) == obj_get_from(fs, key_tp(), 8));
        assert(obj_get_from(fs, key_tp(), 8) == obj_get_from(fs, key_tp(), 9));
        assert(obj_get_from(fs, key_tp(), 9) == obj_get_from(fs, key_tp(), 10));
        assert(obj_get_from(fs, key_tp(), 10) == obj_get_from(fs, key_tp(), 11));
        assert(obj_get_from(fs, key_tp(), 11) == obj_get_from(fs, key_tp(), 12));
        assert(obj_get_from(fs, key_tp(), 12) == obj_get_from(fs, key_tp(), 13));
        assert(obj_get_from(fs, key_tp(), 13) == obj_get_from(fs, key_tp(), 14));
        assert(obj_get_from(fs, key_tp(), 14) == obj_get_from(fs, key_tp(), 15));
        assert(obj_get_from(fs, key_tp(), 15) == obj_get_from(fs, key_tp(), 16));
        assert(obj_get_from(fs, key_tp(), 16) == obj_get_from(fs, key_tp(), 17));
        assert(obj_get_from(fs, key_tp(), 17) == obj_get_from(fs, key_tp(), 18));
        assert(obj_get_from(fs, key_tp(), 18) == obj_get_from(fs, key_tp(), 19));
        assert(obj_get_from(fs, key_tp(), 19) == obj_get_from(fs, key_tp(), 20));
        assert(obj_get_from(fs, key_tp(), 20) == obj_get_from(fs, key_tp(), 21));
        assert(obj_get_from(fs, key_tp(), 21) == Some(fs[21].1));
        assert(fs[0].0 == key_close_price());
        assert(fs[1].0 == key_close_time());
        assert(fs[2].0 == key_closed());
        assert(fs[3].0 == key_cmd());
        assert(fs[4].0 == key_comment());
        assert(fs[5].0 == key_commission());
        assert(fs[6].0 == key_custom_comment());
        assert(fs[7].0 == key_digits());
        assert(fs[8].0 == key_expiration());
        assert(fs[9].0 == key_margin_rate());
        assert(fs[10].0 == key_offset());
        assert(fs[11].0 == key_open_price());
        assert(fs[12].0 == key_open_time());
        assert(fs[13].0 == key_order());
        assert(fs[14].0 == key_order2());
        assert(fs[15].0 == key_position());
        assert(fs[16].0 == key_profit());
        assert(fs[17].0 == key_sl());
        assert(fs[18].0 == key_state());
        assert(fs[19].0 == key_storage());
        assert(fs[20].0 == key_symbol());
        assert(fs[21].0 == key_tp());
        assert(fs[22].0 == key_type());
        assert(obj_get_from(fs, key_type(), 0) == obj_get_from(fs, key_type(), 1));
        assert(obj_get_from(fs, key_type(), 1) == obj_get_from(fs, key_type(), 2));
        assert(obj_get_from(fs, key_type(), 2) == obj_get_from(fs, key_type(), 3));
        assert(obj_get_from(fs, key_type(), 3) == obj_get_from(fs, key_type(), 4));
        assert(obj_get_from(fs, key_type(), 4) == obj_get_from(fs, key_type(), 5));
        assert(obj_get_from(fs, key_type(), 5) == obj_get_from(fs, key_type(), 6));
        assert(obj_get_from(fs, key_type(), 6) == obj_get_from(fs, key_type(), 7));
        assert(obj_get_from(fs, key_type(), 7) == obj_get_from(fs, key_type(), 8));
        assert(obj_get_from(fs, key_type(), 8) == obj_get_from(fs, key_type(), 9));
        assert(obj_get_from(fs, key_type(), 9) == obj_get_from(fs, key_type(), 10));
        assert(obj_get_from(fs, key_type(), 10) == obj_get_from(fs, key_type(), 11));
        assert(obj_get_from(fs, key_type(), 11) == obj_get_from(fs, key_type(), 12));
        assert(obj_get_from(fs, key_type(), 12) == obj_get_from(fs, key_type(), 13));
        assert(obj_get_from(fs, key_type(), 13) == obj_get_from(fs, key_type(), 14));
        assert(obj_get_from(fs, key_type(), 14) == obj_get_from(fs, key_type(), 15));
        assert(obj_get_from(fs, key_type(), 15) == obj_get_from(fs, key_type(), 16));
        assert(obj_get_from(fs, key_type(), 16) == obj_get_from(fs, key_type(), 17));
        assert(obj_get_from(fs, key_type(), 17) == obj_get_from(fs, key_type(), 18));
        assert(obj_get_from(fs, key_type(), 18) == obj_get_from(fs, key_type(), 19));
        assert(obj_get_from(fs, key_type(), 19) == obj_get_from(fs, key_type(), 20));
        assert(obj_get_from(fs, key_type(), 20) == obj_get_from(fs, key_type(), 21));
        assert(obj_get_from(fs, key_type(), 21) == obj_get_from(fs, key_type(), 22));
        assert(obj_get_from(fs, key_type(), 22) == Some(fs[22].1));
    lemma_type_round_trip(m.trans_type);
        assert(fs[0].0 == key_close_price());
        assert(fs[1].0 == key_close_time());
        assert(fs[2].0 == key_closed());
        assert(fs[3].0 == key_cmd());
        assert(fs[4].0 == key_comment());
        assert(fs[5].0 == key_commission());
        assert(fs[6].0 == key_custom_comment());
        assert(fs[7].0 == key_digits());
        assert(fs[8].0 == key_expiration());
        assert(fs[9].0 == key_margin_rate());
        assert(fs[10].0 == key_offset());
        assert(fs[11].0 == key_open_price());
        assert(fs[12].0 == key_open_time());
        assert(fs[13].0 == key_order());
        assert(fs[14].0 == key_order2());
        assert(fs[15].0 == key_position());
        assert(fs[16].0 == key_profit());
        assert(fs[17].0 == key_sl());
        assert(fs[18].0 == key_state());
        assert(fs[19].0 == key_storage());
        assert(fs[20].0 == key_symbol());
        assert(fs[21].0 == key_tp());
        assert(fs[22].0 == key_type());
        assert(fs[23].0 == key_volume());
        assert(key_closed() != key_volume()) by {
            assert(key_closed()[0] != key_volume()[0]);
        }
        assert(key_digits() != key_volume()) by {
            assert(key_digits()[0] != key_volume()[0]);
        }
        assert(key_offset() != key_volume()) by {
            assert(key_offset()[0] != key_volume()[0]);
        }
        assert(key_order2() != key_volume()) by {
            assert(key_order2()[0] != key_volume()[0]);
        }
        assert(key_profit() != key_volume()) by {
            assert(key_profit()[0] != key_volume()[0]);
        }
        assert(key_symbol() != key_volume()) by {
            assert(key_symbol()[0] != key_volume()[0]);
        }
        assert(obj_get_from(fs, key_volume(), 0) == obj_get_from(fs, key_volume(), 1));
        assert(obj_get_from(fs, key_volume(), 1) == obj_get_from(fs, key_volume(), 2));
        assert(obj_get_from(fs, key_volume(), 2) == obj_get_from(fs, key_volume(), 3));
        assert(obj_get_from(fs, key_volume(), 3) == obj_get_from(fs, key_volume(), 4));
        assert(obj_get_from(fs, key_volume(), 4) == obj_get_from(fs, key_volume(), 5));
        assert(obj_get_from(fs, key_volume(), 5) == obj_get_from(fs, key_volume(), 6));
        assert(obj_get_from(fs, key_volume(), 6) == obj_get_from(fs, key_volume(), 7));
        assert(obj_get_from(fs, key_volume(), 7) == obj_get_from(fs, key_volume(), 8));
        assert(obj_get_from(fs, key_volume(), 8) == obj_get_from(fs, key_volume(), 9));
        assert(obj_get_from(fs, key_volume(), 9) == obj_get_from(fs, key_volume(), 10));
        assert(obj_get_from(fs, key_volume(), 10) == obj_get_from(fs, key_volume(), 11));
        assert(obj_get_from(fs, key_volume(), 11) == obj_get_from(fs, key_volume(), 12));
        assert(obj_get_from(fs, key_volume(), 12) == obj_get_from(fs, key_volume(), 13));
        assert(obj_get_from(fs, key_volume(), 13) == obj_get_from(fs, key_volume(), 14));
        assert(obj_get_from(fs, key_volume(), 14) == obj_get_from(fs, key_volume(), 15));
        assert(obj_get_from(fs, key_volume(), 15) == obj_get_from(fs, key_volume(), 16));
        assert(obj_get_from(fs, key_volume(), 16) == obj_get_from(fs, key_volume(), 17));
        assert(obj_get_from(fs, key_volume(), 17) == obj_get_from(fs, key_volume(), 18));
        assert(obj_get_from(fs, key_volume(), 18) == obj_get_from(fs, key_volume(), 19));
        assert(obj_get_from(fs, key_volume(), 19) == obj_get_from(fs, key_volume(), 20));
        assert(obj_get_from(fs, key_volume(), 20) == obj_get_from(fs, key_volume(), 21));
        assert(obj_get_from(fs, key_volume(), 21) == obj_get_from(fs, key_volume(), 22));
        assert(obj_get_from(fs, key_volume(), 22) == obj_get_from(fs, key_volume(), 23));
        assert(obj_get_from(fs, key_volume(), 23) == Some(fs[23].1));
    }
}

#[derive(Debug, PartialEq, Eq)]
pub struct GetTradeStatus {
    pub stream_session_id: Vec<u8>,
}

pub struct GetTradeStatusV {
    pub stream_session_id: Seq<u8>,
}

impl View for GetTradeStatus {
    type V = GetTradeStatusV;

    open spec fn view(&self) -> GetTradeStatusV {
        GetTradeStatusV {
            stream_session_id: self.stream_session_id@,
        }
    }
}

pub open spec fn spec_get_trade_status_fields(m: GetTradeStatusV) -> Seq<(Seq<u8>, JsonV)> {
    seq![
        (key_stream_session_id(), JsonV::Str(m.stream_session_id)),
    ]
}

impl WireJson for GetTradeStatus {
    open spec fn spec_to_json(m: GetTradeStatusV) -> JsonV {
        JsonV::Obj(spec_get_trade_status_fields(m))
    }

    open spec fn spec_from_json(j: JsonV) -> Option<GetTradeStatusV> {
        let f_stream_session_id = jv_get_str(j, key_stream_session_id());
        if f_stream_session_id is Some {
            Some(GetTradeStatusV {
                stream_session_id: f_stream_session_id->Some_0,
            })
        } else {
            None
        }
    }

    fn to_json(&self) -> (r: Json) {
        let mut fields: Vec<(Vec<u8>, Json)> = Vec::new();
        fields.push((vec_of(kx_stream_session_id().as_slice()), Json::Str(vec_of(self.stream_session_id.as_slice()))));
        let r = Json::Obj(fields);
        proof {
            lemma_json_view_members(r->Obj_0, 0);
            assert(json_view_members(r->Obj_0, 0) =~= spec_get_trade_status_fields(self@));
        }
        r
    }

    fn from_json(j: &Json) -> (r: Option<GetTradeStatus>) {
        let stream_session_id = match j.get_str(kx_stream_session_id().as_slice()) {
            Some(v) => v,
            None => { return None; },
        };
        Some(GetTradeStatus {
            stream_session_id,
        })
    }

    proof fn lemma_round_trip(m: GetTradeStatusV) {
        let j = Self::spec_to_json(m);
        let fs = j->Obj_0;
        assert(fs[0].0 == key_stream_session_id());
        assert(obj_get_from(fs, key_stream_session_id(), 0) == Some(fs[0].1));
    }
}

/// Reading the fields out of a tagged stream message gives them back,
/// whatever tag member stands in front of them.
pub proof fn lemma_get_trade_status_from_envelope(head: (Seq<u8>, JsonV), m: GetTradeStatusV)
    requires
        head.0 == key_command(),
    ensures
        <GetTradeStatus as WireJson>::spec_from_json(
            JsonV::Obj(seq![head] + spec_get_trade_status_fields(m)),
        ) == Some(m),
{
    let j = JsonV::Obj(seq![head] + spec_get_trade_status_fields(m));
    let fs = j->Obj_0;
        assert(fs[0].0 == key_command());
        assert(fs[1].0 == key_stream_session_id());
        assert(obj_get_from(fs, key_stream_session_id(), 0) == obj_get_from(fs, key_stream_session_id(), 1));
        assert(obj_get_from(fs, key_stream_session_id(), 1) == Some(fs[1].1));
}

#[derive(Debug, PartialEq, Eq)]
pub struct GetTradeStatusResponse {
    pub custom_comment: Option<Vec<u8>>,
    pub message: Option<Vec<u8>>,
    pub order: u32,
    pub price: Decimal,
    pub request_status: RequestStatus,
}

pub struct GetTradeStatusResponseV {
    pub custom_comment: Option<Seq<u8>>,
    pub message: Option<Seq<u8>>,
    pub order: u32,
    pub price: Decimal,
    pub request_status: RequestStatus,
}

impl View for GetTradeStatusResponse {
    type V = GetTradeStatusResponseV;

    open spec fn view(&self) -> GetTradeStatusResponseV {
        GetTradeStatusResponseV {
            custom_comment: (match self.custom_comment { Some(v) => Some(v@), None => None }),
            message: (match self.message { Some(v) => Some(v@), None => None }),
            order: self.order,
            price: self.price,
            request_status: self.request_status,
        }
    }
}

pub open spec fn spec_get_trade_status_response_fields(m: GetTradeStatusResponseV) -> Seq<(Seq<u8>, JsonV)> {
    seq![
        (key_custom_comment(), (match m.custom_comment { Some(v) => JsonV::Str(v), None => JsonV::Null })),
        (key_message(), (match m.message { Some(v) => JsonV::Str(v), None => JsonV::Null })),
        (key_order(), JsonV::Num(spec_dec_of_int(m.order as int))),
        (key_price(), JsonV::Num(m.price)),
        (key_request_status(), JsonV::Num(spec_dec_of_int(spec_request_status_code(m.request_status) as int))),
    ]
}

impl WireJson for GetTradeStatusResponse {
    open spec fn spec_to_json(m: GetTradeStatusResponseV) -> JsonV {
        JsonV::Obj(spec_get_trade_status_response_fields(m))
    }

    open spec fn spec_from_json(j: JsonV) -> Option<GetTradeStatusResponseV> {
        let f_custom_comment = jv_get_opt_str(j, key_custom_comment());
        let f_message = jv_get_opt_str(j, key_message());
        let f_order = jv_get_u32(j, key_order());
        let f_price = jv_get_dec(j, key_price());
        let f_request_status = (match jv_get_dec(j, key_request_status()) { Some(d) => spec_request_status_from_dec(d), None => None });
        if f_custom_comment is Some && f_message is Some && f_order is Some && f_price is Some && f_request_status is Some {
            Some(GetTradeStatusResponseV {
                custom_comment: f_custom_comment->Some_0,
                message: f_message->Some_0,
                order: f_order->Some_0,
                price: f_price->Some_0,
                request_status: f_request_status->Some_0,
            })
        } else {
            None
        }
    }

    fn to_json(&self) -> (r: Json) {
        let mut fields: Vec<(Vec<u8>, Json)> = Vec::new();
        fields.push((vec_of(kx_custom_comment().as_slice()), (match &self.custom_comment { Some(v) => Json::Str(vec_of(v.as_slice())), None => Json::Null })));
        fields.push((vec_of(kx_message().as_slice()), (match &self.message { Some(v) => Json::Str(vec_of(v.as_slice())), None => Json::Null })));
        fields.push((vec_of(kx_order().as_slice()), Json::Num(Decimal::from_u64(self.order as u64))));
        fields.push((vec_of(kx_price().as_slice()), Json::Num(self.price)));
        fields.push((vec_of(kx_request_status().as_slice()), Json::Num(Decimal::from_u64(self.request_status.code()))));
        let r = Json::Obj(fields);
        proof {
            lemma_json_view_members(r->Obj_0, 0);
            assert(json_view_members(r->Obj_0, 0) =~= spec_get_trade_status_response_fields(self@));
        }
        r
    }

    fn from_json(j: &Json) -> (r: Option<GetTradeStatusResponse>) {
        let custom_comment = match j.get_opt_str(kx_custom_comment().as_slice()) {
            Some(v) => v,
            None => { return None; },
        };
        let message = match j.get_opt_str(kx_message().as_slice()) {
            Some(v) => v,
            None => { return None; },
        };
        let order = match j.get_u32(kx_order().as_slice()) {
            Some(v) => v,
            None => { return None; },
        };
        let price = match j.get_dec(kx_price().as_slice()) {
            Some(v) => v,
            None => { return None; },
        };
        let request_status = match j.get_dec(kx_request_status().as_slice()) {
            Some(d) => match RequestStatus::from_dec(d) {
                Some(v) => v,
                None => { return None; },
            },
            None => { return None; },
        };
        Some(GetTradeStatusResponse {
            custom_comment,
            message,
            order,
            price,
            request_status,
        })
    }

    proof fn lemma_round_trip(m: GetTradeStatusResponseV) {
        let j = Self::spec_to_json(m);
        let fs = j->Obj_0;
        assert(fs[0].0 == key_custom_comment());
        assert(obj_get_from(fs, key_custom_comment(), 0) == Some(fs[0].1));
        assert(fs[0].0 == key_custom_comment());
        assert(fs[1].0 == key_message());
        assert(obj_get_from(fs, key_message(), 0) == obj_get_from(fs, key_message(), 1));
        assert(obj_get_from(fs, key_message(), 1) == Some(fs[1].1));
        assert(fs[0].0 == key_custom_comment());
        assert(fs[1].0 == key_message());
        assert(fs[2].0 == key_order());
        assert(obj_get_from(fs, key_order(), 0) == obj_get_from(fs, key_order(), 1));
        assert(obj_get_from(fs, key_order(), 1) == obj_get_from(fs, key_order(), 2));
        assert(obj_get_from(fs, key_order(), 2) == Some(fs[2].1));
        assert(fs[0].0 == key_custom_comment());
        assert(fs[1].0 == key_message());
        assert(fs[2].0 == key_order());
        assert(fs[3].0 == key_price());
        assert(key_order() != key_price()) by {
            assert(key_order()[0] != key_price()[0]);
        }
        assert(obj_get_from(fs, key_price(), 0) == obj_get_from(fs, key_price(), 1));
        assert(obj_get_from(fs, key_price(), 1) == obj_get_from(fs, key_price(), 2));
        assert(obj_get_from(fs, key_price(), 2) == obj_get_from(fs, key_price(), 3));
        assert(obj_get_from(fs, key_price(), 3) == Some(fs[3].1));
        assert(fs[0].0 == key_custom_comment());
        assert(fs[1].0 == key_message());
        assert(fs[2].0 == key_order());
        assert(fs[3].0 == key_price());
        assert(fs[4].0 == key_request_status());
        assert(key_custom_comment() != key_request_status()) by {
            assert(key_custom_comment()[0] != key_request_status()[0]);
        }
        assert(obj_get_from(fs, key_request_status(), 0) == obj_get_from(fs, key_request_status(), 1));
        assert(obj_get_from(fs, key_request_status(), 1) == obj_get_from(fs, key_request_status(), 2));
        assert(obj_get_from(fs, key_request_status(), 2) == obj_get_from(fs, key_request_status(), 3));
        assert(obj_get_from(fs, key_request_status(), 3) == obj_get_from(fs, key_request_status(), 4));
        assert(obj_get_from(fs, key_request_status(), 4) == Some(fs[4].1));
    lemma_request_status_round_trip(m.request_status);
    }
}

/// One subscription of the streaming channel. Its wire text carries the
/// tag and the subscription's own fields in one flat object:
/// `{"command": tag, ...fields}`.
#[derive(Debug, PartialEq, Eq)]
pub enum RequestStream {
    GetCandles(GetCandles),
    GetBalance(GetBalance),
    GetKeepAlive(GetKeepAlive),
    GetTickPrices(GetTickPrices),
    GetTrades(GetTrades),
    GetTradeStatus(GetTradeStatus),
}

pub enum RequestStreamV {
    GetCandles(GetCandlesV),
    GetBalance(GetBalanceV),
    GetKeepAlive(GetKeepAliveV),
    GetTickPrices(GetTickPricesV),
    GetTrades(GetTradesV),
    GetTradeStatus(GetTradeStatusV),
}

impl View for RequestStream {
    type V = RequestStreamV;

    open spec fn view(&self) -> RequestStreamV {
        match self {
            RequestStream::GetCandles(x) => RequestStreamV::GetCandles(x@),
            RequestStream::GetBalance(x) => RequestStreamV::GetBalance(x@),
            RequestStream::GetKeepAlive(x) => RequestStreamV::GetKeepAlive(x@),
            RequestStream::GetTickPrices(x) => RequestStreamV::GetTickPrices(x@),
            RequestStream::GetTrades(x) => RequestStreamV::GetTrades(x@),
            RequestStream::GetTradeStatus(x) => RequestStreamV::GetTradeStatus(x@),
        }
    }
}

pub open spec fn spec_request_stream_tag(m: RequestStreamV) -> Seq<u8> {
    match m {
        RequestStreamV::GetCandles(_) => tag_get_candles(),
        RequestStreamV::GetBalance(_) => tag_get_balance(),
        RequestStreamV::GetKeepAlive(_) => tag_get_keep_alive(),
        RequestStreamV::GetTickPrices(_) => tag_get_tick_prices(),
        RequestStreamV::GetTrades(_) => tag_get_trades(),
        RequestStreamV::GetTradeStatus(_) => tag_get_trade_status(),
    }
}

pub open spec fn spec_request_stream_fields(m: RequestStreamV) -> Seq<(Seq<u8>, JsonV)> {
    match m {
        RequestStreamV::GetCandles(x) => spec_get_candles_fields(x),
        RequestStreamV::GetBalance(x) => spec_get_balance_fields(x),
        RequestStreamV::GetKeepAlive(x) => spec_get_keep_alive_fields(x),
        RequestStreamV::GetTickPrices(x) => spec_get_tick_prices_fields(x),
        RequestStreamV::GetTrades(x) => spec_get_trades_fields(x),
        RequestStreamV::GetTradeStatus(x) => spec_get_trade_status_fields(x),
    }
}

impl WireJson for RequestStream {
    open spec fn spec_to_json(m: RequestStreamV) -> JsonV {
        JsonV::Obj(
            seq![(key_command(), JsonV::Str(spec_request_stream_tag(m)))]
                + spec_request_stream_fields(m),
        )
    }

    open spec fn spec_from_json(j: JsonV) -> Option<RequestStreamV> {
        match jv_get_str(j, key_command()) {
            Some(tag) => {
                if tag == tag_get_candles() {
                    match <GetCandles as WireJson>::spec_from_json(j) {
                        Some(x) => Some(RequestStreamV::GetCandles(x)),
                        None => None,
                    }
                } else if tag == tag_get_balance() {
                    match <GetBalance as WireJson>::spec_from_json(j) {
                        Some(x) => Some(RequestStreamV::GetBalance(x)),
                        None => None,
                    }
                } else if tag == tag_get_keep_alive() {
                    match <GetKeepAlive as WireJson>::spec_from_json(j) {
                        Some(x) => Some(RequestStreamV::GetKeepAlive(x)),
                        None => None,
                    }
                } else if tag == tag_get_tick_prices() {
                    match <GetTickPrices as WireJson>::spec_from_json(j) {
                        Some(x) => Some(RequestStreamV::GetTickPrices(x)),
                        None => None,
                    }
                } else if tag == tag_get_trades() {
                    match <GetTrades as WireJson>::spec_from_json(j) {
                        Some(x) => Some(RequestStreamV::GetTrades(x)),
                        None => None,
                    }
                } else if tag == tag_get_trade_status() {
                    match <GetTradeStatus as WireJson>::spec_from_json(j) {
                        Some(x) => Some(RequestStreamV::GetTradeStatus(x)),
                        None => None,
                    }
                } else {
                    None
                }
            },
            None => None,
        }
    }

    fn to_json(&self) -> (r: Json) {
        let tagv: Vec<u8> = match self {
            RequestStream::GetCandles(_) => vec_of(tx_get_candles().as_slice()),
            RequestStream::GetBalance(_) => vec_of(tx_get_balance().as_slice()),
            RequestStream::GetKeepAlive(_) => vec_of(tx_get_keep_alive().as_slice()),
            RequestStream::GetTickPrices(_) => vec_of(tx_get_tick_prices().as_slice()),
            RequestStream::GetTrades(_) => vec_of(tx_get_trades().as_slice()),
            RequestStream::GetTradeStatus(_) => vec_of(tx_get_trade_status().as_slice()),
        };
        assert(tagv@ == spec_request_stream_tag(self@));
        let payload: Json = match self {
            RequestStream::GetCandles(x) => x.to_json(),
            RequestStream::GetBalance(x) => x.to_json(),
            RequestStream::GetKeepAlive(x) => x.to_json(),
            RequestStream::GetTickPrices(x) => x.to_json(),
            RequestStream::GetTrades(x) => x.to_json(),
            RequestStream::GetTradeStatus(x) => x.to_json(),
        };
        assert(payload@ == JsonV::Obj(spec_request_stream_fields(self@)));
        match payload {
            Json::Obj(mut fields) => {
                let pair = (vec_of(kx_command().as_slice()), Json::Str(tagv));
                let ghost pairg = pair;
                let ghost before = fields;
                fields.insert(0, pair);
                let r = Json::Obj(fields);
                proof {
                    lemma_view_members_cons(before, fields, pairg);
                    assert(json_view_members(before, 0) == spec_request_stream_fields(self@));
                    assert(r@->Obj_0 =~= seq![
                        (key_command(), JsonV::Str(spec_request_stream_tag(self@))),
                    ] + spec_request_stream_fields(self@));
                }
                r
            },
            _ => {
                proof {
                    assert(false);
                }
                Json::Null
            },
        }
    }

    fn from_json(j: &Json) -> (r: Option<RequestStream>) {
        let tag = match j.get_str(kx_command().as_slice()) {
            Some(t) => t,
            None => {
                return None;
            },
        };
        if bytes_eq(tag.as_slice(), tx_get_candles().as_slice()) {
            match GetCandles::from_json(j) {
                Some(x) => Some(RequestStream::GetCandles(x)),
                None => None,
            }
        } else if bytes_eq(tag.as_slice(), tx_get_balance().as_slice()) {
            match GetBalance::from_json(j) {
                Some(x) => Some(RequestStream::GetBalance(x)),
                None => None,
            }
        } else if bytes_eq(tag.as_slice(), tx_get_keep_alive().as_slice()) {
            match GetKeepAlive::from_json(j) {
                Some(x) => Some(RequestStream::GetKeepAlive(x)),
                None => None,
            }
        } else if bytes_eq(tag.as_slice(), tx_get_tick_prices().as_slice()) {
            match GetTickPrices::from_json(j) {
                Some(x) => Some(RequestStream::GetTickPrices(x)),
                None => None,
            }
        } else if bytes_eq(tag.as_slice(), tx_get_trades().as_slice()) {
            match GetTrades::from_json(j) {
                Some(x) => Some(RequestStream::GetTrades(x)),
                None => None,
            }
        } else if bytes_eq(tag.as_slice(), tx_get_trade_status().as_slice()) {
            match GetTradeStatus::from_json(j) {
                Some(x) => Some(RequestStream::GetTradeStatus(x)),
                None => None,
            }
        } else {
            None
        }
    }

    #[verifier::rlimit(100)]
    #[verifier::spinoff_prover]
    proof fn lemma_round_trip(m: RequestStreamV) {
        let j = Self::spec_to_json(m);
        let fs = j->Obj_0;
        assert(fs[0].0 == key_command());
        assert(obj_get_from(fs, key_command(), 0) == Some(fs[0].1));
        let head = (key_command(), JsonV::Str(spec_request_stream_tag(m)));
        assert(tag_get_candles() != tag_get_balance()) by {
            assert(tag_get_candles()[3] != tag_get_balance()[3]);
        }
        match m {
            RequestStreamV::GetCandles(x) => {
                lemma_get_candles_from_envelope(head, x);
                assert(fs =~= seq![head] + spec_get_candles_fields(x));
                assert(Self::spec_from_json(j) == Some(m));
            },
            RequestStreamV::GetBalance(x) => {
                lemma_get_balance_from_envelope(head, x);
                assert(fs =~= seq![head] + spec_get_balance_fields(x));
                assert(Self::spec_from_json(j) == Some(m));
            },
            RequestStreamV::GetKeepAlive(x) => {
                lemma_get_keep_alive_from_envelope(head, x);
                assert(fs =~= seq![head] + spec_get_keep_alive_fields(x));
                assert(Self::spec_from_json(j) == Some(m));
            },
            RequestStreamV::GetTickPrices(x) => {
                lemma_get_tick_prices_from_envelope(head, x);
                assert(fs =~= seq![head] + spec_get_tick_prices_fields(x));
                assert(Self::spec_from_json(j) == Some(m));
            },
            RequestStreamV::GetTrades(x) => {
                lemma_get_trades_from_envelope(head, x);
                assert(fs =~= seq![head] + spec_get_trades_fields(x));
                assert(Self::spec_from_json(j) == Some(m));
            },
            RequestStreamV::GetTradeStatus(x) => {
                lemma_get_trade_status_from_envelope(head, x);
                assert(fs =~= seq![head] + spec_get_trade_status_fields(x));
                assert(Self::spec_from_json(j) == Some(m));
            },
        }
    }
}

impl Execute for RequestStream {
    fn command(&self) -> (r: Vec<u8>) {
        encode_json(&self.to_json())
    }
}

/// One push message's payload wrapper: the data sits under `data`.
#[derive(Debug, PartialEq, Eq)]
pub struct GetResponse<T: WireJson> {
    pub data: T,
}

pub struct GetResponseV<TV> {
    pub data: TV,
}

impl<T: WireJson> View for GetResponse<T> {
    type V = GetResponseV<T::V>;

    open spec fn view(&self) -> GetResponseV<T::V> {
        GetResponseV { data: self.data@ }
    }
}

impl<T: WireJson> WireJson for GetResponse<T> {
    open spec fn spec_to_json(m: GetResponseV<T::V>) -> JsonV {
        JsonV::Obj(seq![(key_data(), T::spec_to_json(m.data))])
    }

    open spec fn spec_from_json(j: JsonV) -> Option<GetResponseV<T::V>> {
        match jv_get(j, key_data()) {
            Some(x) => match T::spec_from_json(x) {
                Some(d) => Some(GetResponseV { data: d }),
                None => None,
            },
            None => None,
        }
    }

    fn to_json(&self) -> (r: Json) {
        let mut fields: Vec<(Vec<u8>, Json)> = Vec::new();
        fields.push((vec_of(kx_data().as_slice()), self.data.to_json()));
        let r = Json::Obj(fields);
        proof {
            lemma_json_view_members(r->Obj_0, 0);
            assert(json_view_members(r->Obj_0, 0) =~= Self::spec_to_json(self@)->Obj_0);
        }
        r
    }

    fn from_json(j: &Json) -> (r: Option<GetResponse<T>>) {
        match j.get(kx_data().as_slice()) {
            Some(x) => match T::from_json(x) {
                Some(d) => Some(GetResponse { data: d }),
                None => None,
            },
            None => None,
        }
    }

    proof fn lemma_round_trip(m: GetResponseV<T::V>) {
        let j = Self::spec_to_json(m);
        let fs = j->Obj_0;
        assert(fs[0].0 == key_data());
        assert(obj_get_from(fs, key_data(), 0) == Some(fs[0].1));
        T::lemma_round_trip(m.data);
    }
}

/// One push event of the streaming channel: the tag on the wire selects
/// exactly one payload shape: `{"command": tag, "data": {...}}`.
#[derive(Debug, PartialEq, Eq)]
pub enum ResponseStream {
    Candle(GetResponse<GetCandlesResponse>),
    Balance(GetResponse<GetBalanceResponse>),
    KeepAlive(GetResponse<GetKeepAliveResponse>),
    TickPrices(GetResponse<GetTickPricesResponse>),
    Trade(GetResponse<GetTradesReponse>),
    TradeStatus(GetResponse<GetTradeStatusResponse>),
}

pub enum ResponseStreamV {
    Candle(GetResponseV<GetCandlesResponseV>),
    Balance(GetResponseV<GetBalanceResponseV>),
    KeepAlive(GetResponseV<GetKeepAliveResponseV>),
    TickPrices(GetResponseV<GetTickPricesResponseV>),
    Trade(GetResponseV<GetTradesReponseV>),
    TradeStatus(GetResponseV<GetTradeStatusResponseV>),
}

impl View for ResponseStream {
    type V = ResponseStreamV;

    open spec fn view(&self) -> ResponseStreamV {
        match self {
            ResponseStream::Candle(x) => ResponseStreamV::Candle(x@),
            ResponseStream::Balance(x) => ResponseStreamV::Balance(x@),
            ResponseStream::KeepAlive(x) => ResponseStreamV::KeepAlive(x@),
            ResponseStream::TickPrices(x) => ResponseStreamV::TickPrices(x@),
            ResponseStream::Trade(x) => ResponseStreamV::Trade(x@),
            ResponseStream::TradeStatus(x) => ResponseStreamV::TradeStatus(x@),
        }
    }
}

pub open spec fn spec_response_stream_tag(m: ResponseStreamV) -> Seq<u8> {
    match m {
        ResponseStreamV::Candle(_) => tag_candle(),
        ResponseStreamV::Balance(_) => tag_balance(),
        ResponseStreamV::KeepAlive(_) => tag_keep_alive(),
        ResponseStreamV::TickPrices(_) => tag_tick_prices(),
        ResponseStreamV::Trade(_) => tag_trade(),
        ResponseStreamV::TradeStatus(_) => tag_trade_status(),
    }
}

pub open spec fn spec_response_stream_data_json(m: ResponseStreamV) -> JsonV {
    match m {
        ResponseStreamV::Candle(x) => <GetCandlesResponse as WireJson>::spec_to_json(x.data),
        ResponseStreamV::Balance(x) => <GetBalanceResponse as WireJson>::spec_to_json(x.data),
        ResponseStreamV::KeepAlive(x) => <GetKeepAliveResponse as WireJson>::spec_to_json(x.data),
        ResponseStreamV::TickPrices(x) => <GetTickPricesResponse as WireJson>::spec_to_json(
            x.data,
        ),
        ResponseStreamV::Trade(x) => <GetTradesReponse as WireJson>::spec_to_json(x.data),
        ResponseStreamV::TradeStatus(x) => <GetTradeStatusResponse as WireJson>::spec_to_json(
            x.data,
        ),
    }
}

impl WireJson for ResponseStream {
    open spec fn spec_to_json(m: ResponseStreamV) -> JsonV {
        JsonV::Obj(
            seq![
                (key_command(), JsonV::Str(spec_response_stream_tag(m))),
                (key_data(), spec_response_stream_data_json(m)),
            ],
        )
    }

    open spec fn spec_from_json(j: JsonV) -> Option<ResponseStreamV> {
        match jv_get_str(j, key_command()) {
            Some(tag) => {
                if tag == tag_candle() {
                    match <GetResponse<GetCandlesResponse> as WireJson>::spec_from_json(j) {
                        Some(x) => Some(ResponseStreamV::Candle(x)),
                        None => None,
                    }
                } else if tag == tag_balance() {
                    match <GetResponse<GetBalanceResponse> as WireJson>::spec_from_json(j) {
                        Some(x) => Some(ResponseStreamV::Balance(x)),
                        None => None,
                    }
                } else if tag == tag_keep_alive() {
                    match <GetResponse<GetKeepAliveResponse> as WireJson>::spec_from_json(j) {
                        Some(x) => Some(ResponseStreamV::KeepAlive(x)),
                        None => None,
                    }
                } else if tag == tag_tick_prices() {
                    match <GetResponse<GetTickPricesResponse> as WireJson>::spec_from_json(j) {
                        Some(x) => Some(ResponseStreamV::TickPrices(x)),
                        None => None,
                    }
                } else if tag == tag_trade() {
                    match <GetResponse<GetTradesReponse> as WireJson>::spec_from_json(j) {
                        Some(x) => Some(ResponseStreamV::Trade(x)),
                        None => None,
                    }
                } else if tag == tag_trade_status() {
                    match <GetResponse<GetTradeStatusResponse> as WireJson>::spec_from_json(j) {
                        Some(x) => Some(ResponseStreamV::TradeStatus(x)),
                        None => None,
                    }
                } else {
                    None
                }
            },
            None => None,
        }
    }

    fn to_json(&self) -> (r: Json) {
        let tagv: Vec<u8> = match self {
            ResponseStream::Candle(_) => vec_of(tx_candle().as_slice()),
            ResponseStream::Balance(_) => vec_of(tx_balance().as_slice()),
            ResponseStream::KeepAlive(_) => vec_of(tx_keep_alive().as_slice()),
            ResponseStream::TickPrices(_) => vec_of(tx_tick_prices().as_slice()),
            ResponseStream::Trade(_) => vec_of(tx_trade().as_slice()),
            ResponseStream::TradeStatus(_) => vec_of(tx_trade_status().as_slice()),
        };
        assert(tagv@ == spec_response_stream_tag(self@));
        let payload: Json = match self {
            ResponseStream::Candle(x) => x.data.to_json(),
            ResponseStream::Balance(x) => x.data.to_json(),
            ResponseStream::KeepAlive(x) => x.data.to_json(),
            ResponseStream::TickPrices(x) => x.data.to_json(),
            ResponseStream::Trade(x) => x.data.to_json(),
            ResponseStream::TradeStatus(x) => x.data.to_json(),
        };
        assert(payload@ == spec_response_stream_data_json(self@));
        let mut fields: Vec<(Vec<u8>, Json)> = Vec::new();
        fields.push((vec_of(kx_command().as_slice()), Json::Str(tagv)));
        fields.push((vec_of(kx_data().as_slice()), payload));
        let r = Json::Obj(fields);
        proof {
            lemma_json_view_members(r->Obj_0, 0);
            assert(json_view_members(r->Obj_0, 0) =~= Self::spec_to_json(self@)->Obj_0);
        }
        r
    }

    fn from_json(j: &Json) -> (r: Option<ResponseStream>) {
        let tag = match j.get_str(kx_command().as_slice()) {
            Some(t) => t,
            None => {
                return None;
            },
        };
        if bytes_eq(tag.as_slice(), tx_candle().as_slice()) {
            match GetResponse::<GetCandlesResponse>::from_json(j) {
                Some(x) => Some(ResponseStream::Candle(x)),
                None => None,
            }
        } else if bytes_eq(tag.as_slice(), tx_balance().as_slice()) {
            match GetResponse::<GetBalanceResponse>::from_json(j) {
                Some(x) => Some(ResponseStream::Balance(x)),
                None => None,
            }
        } else if bytes_eq(tag.as_slice(), tx_keep_alive().as_slice()) {
            match GetResponse::<GetKeepAliveResponse>::from_json(j) {
                Some(x) => Some(ResponseStream::KeepAlive(x)),
                None => None,
            }
        } else if bytes_eq(tag.as_slice(), tx_tick_prices().as_slice()) {
            match GetResponse::<GetTickPricesResponse>::from_json(j) {
                Some(x) => Some(ResponseStream::TickPrices(x)),
                None => None,
            }
        } else if bytes_eq(tag.as_slice(), tx_trade().as_slice()) {
            match GetResponse::<GetTradesReponse>::from_json(j) {
                Some(x) => Some(ResponseStream::Trade(x)),
                None => None,
            }
        } else if bytes_eq(tag.as_slice(), tx_trade_status().as_slice()) {
            match GetResponse::<GetTradeStatusResponse>::from_json(j) {
                Some(x) => Some(ResponseStream::TradeStatus(x)),
                None => None,
            }
        } else {
            None
        }
    }

    #[verifier::rlimit(100)]
    #[verifier::spinoff_prover]
    proof fn lemma_round_trip(m: ResponseStreamV) {
        let j = Self::spec_to_json(m);
        let fs = j->Obj_0;
        assert(fs[0].0 == key_command());
        assert(obj_get_from(fs, key_command(), 0) == Some(fs[0].1));
        assert(fs[1].0 == key_data());
        assert(obj_get_from(fs, key_data(), 0) == obj_get_from(fs, key_data(), 1));
        assert(obj_get_from(fs, key_data(), 1) == Some(fs[1].1));
        assert(tag_trade().len() != tag_trade_status().len());
        match m {
            ResponseStreamV::Candle(x) => {
                <GetCandlesResponse as WireJson>::lemma_round_trip(x.data);
                assert(Self::spec_from_json(j) == Some(m));
            },
            ResponseStreamV::Balance(x) => {
                <GetBalanceResponse as WireJson>::lemma_round_trip(x.data);
                assert(Self::spec_from_json(j) == Some(m));
            },
            ResponseStreamV::KeepAlive(x) => {
                <GetKeepAliveResponse as WireJson>::lemma_round_trip(x.data);
                assert(Self::spec_from_json(j) == Some(m));
            },
            ResponseStreamV::TickPrices(x) => {
                <GetTickPricesResponse as WireJson>::lemma_round_trip(x.data);
                assert(Self::spec_from_json(j) == Some(m));
            },
            ResponseStreamV::Trade(x) => {
                <GetTradesReponse as WireJson>::lemma_round_trip(x.data);
                assert(Self::spec_from_json(j) == Some(m));
            },
            ResponseStreamV::TradeStatus(x) => {
                <GetTradeStatusResponse as WireJson>::lemma_round_trip(x.data);
                assert(Self::spec_from_json(j) == Some(m));
            },
        }
    }
}

/// The wire text of a push event.
pub open spec fn spec_encode_stream_event(m: ResponseStreamV) -> Seq<u8> {
    spec_print_json(<ResponseStream as WireJson>::spec_to_json(m))
}

/// The push event a wire text holds, if it holds one.
pub open spec fn spec_decode_stream_event(s: Seq<u8>) -> Option<ResponseStreamV> {
    match spec_parse_json(s) {
        Some(j) => <ResponseStream as WireJson>::spec_from_json(j),
        None => None,
    }
}

/// Reads one push event back off its wire text.
pub fn decode_stream_event(s: &[u8]) -> (r: Option<ResponseStream>)
    ensures
        match spec_decode_stream_event(s@) {
            None => r is None,
            Some(m) => r matches Some(x) && x@ == m,
        },
{
    match decode_json(s) {
        Some(j) => ResponseStream::from_json(&j),
        None => None,
    }
}

/// Decoding an encoded push event gives the event back, for every event
/// whose text fields are themselves well-formed UTF-8. How the bytes were
/// cut into reads cannot matter: the reassembly hands every complete
/// frame to this decoder whole.
pub proof fn lemma_stream_event_round_trip(m: ResponseStreamV)
    requires
        wf_json_text(<ResponseStream as WireJson>::spec_to_json(m)),
    ensures
        spec_decode_stream_event(spec_encode_stream_event(m)) == Some(m),
{
    lemma_print_parse_json(<ResponseStream as WireJson>::spec_to_json(m));
    <ResponseStream as WireJson>::lemma_round_trip(m);
}

} // verus!
