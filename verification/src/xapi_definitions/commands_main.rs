//! The typed commands and responses of the request/response channel.
//!
//! Text fields hold the raw bytes that stand between the quotes on the
//! wire; rates and volumes are exact decimals.

use crate::decimal::{Decimal, spec_dec_of_int};
use crate::json::{
    Json, JsonV, bytes_eq, encode_json, decode_json, spec_print_json, spec_parse_json, lemma_print_parse_json, lemma_obj_get_none, wf_json_text, json_view_members, jv_get, jv_get_bool, jv_get_dec, jv_get_i32, jv_get_i64,
    jv_get_opt_dec, jv_get_opt_i32, jv_get_opt_i64, jv_get_opt_str, jv_get_opt_u32, jv_get_str,
    jv_get_u16, jv_get_u32, lemma_json_view_members, obj_get_from, vec_of,
};
use crate::xapi_definitions::commands_common::{
    Cmd, Period, RequestStatus, State, Type, lemma_cmd_round_trip, lemma_period_round_trip,
    lemma_request_status_round_trip, lemma_state_round_trip, lemma_type_round_trip,
    spec_cmd_code, spec_cmd_from_dec, spec_period_code, spec_period_from_dec,
    spec_request_status_code, spec_request_status_from_dec, spec_state_from_str, spec_state_str,
    spec_type_code, spec_type_from_dec,
};
use crate::xapi_definitions::{Execute, WireJson};
use crate::xapi_definitions::wire_keys::{key_digits, kx_digits, key_arguments, kx_arguments, key_return_data, kx_return_data, tag_login, tx_login, tag_logout, tx_logout, tag_get_margin_trade, tx_get_margin_trade, tag_get_chart_last_request, tx_get_chart_last_request, tag_get_symbol, tx_get_symbol, tag_get_commission_def, tx_get_commission_def, tag_get_current_user_data, tx_get_current_user_data, tag_trade_transaction, tx_trade_transaction, tag_trade_transaction_status, tx_trade_transaction_status, tag_get_server_time, tx_get_server_time, key_app_id, kx_app_id, key_app_name, kx_app_name, key_ask, kx_ask, key_bid, kx_bid, key_close, kx_close, key_cmd, kx_cmd, key_command, kx_command, key_commission, kx_commission, key_company_unit, kx_company_unit, key_ctm, kx_ctm, key_ctm_string, kx_ctm_string, key_currency, kx_currency, key_custom_comment, kx_custom_comment, key_error_code, kx_error_code, key_error_descr, kx_error_descr, key_expiration, kx_expiration, key_group, kx_group, key_high, kx_high, key_ib_account, kx_ib_account, key_info, kx_info, key_leverage, kx_leverage, key_leverage_multiplier, kx_leverage_multiplier, key_low, kx_low, key_message, kx_message, key_offset, kx_offset, key_open, kx_open, key_order, kx_order, key_password, kx_password, key_period, kx_period, key_price, kx_price, key_rate_of_exchange, kx_rate_of_exchange, key_request_status, kx_request_status, key_sl, kx_sl, key_spread_type, kx_spread_type, key_start, kx_start, key_status, kx_status, key_stream_session_id, kx_stream_session_id, key_symbol, kx_symbol, key_time, kx_time, key_time_string, kx_time_string, key_tp, kx_tp, key_trade_trans_info, kx_trade_trans_info, key_trailing_stop, kx_trailing_stop, key_type, kx_type, key_user_id, kx_user_id, key_vol, kx_vol, key_volume, kx_volume};
use vstd::prelude::*;

verus! {

broadcast use vstd::std_specs::vec::group_vec_axioms, vstd::seq::group_seq_axioms;

#[derive(Debug, PartialEq, Eq)]
pub struct LoginRequest {
    pub user_id: Vec<u8>,
    pub password: Vec<u8>,
    pub app_id: Vec<u8>,
    pub app_name: Vec<u8>,
}

pub struct LoginRequestV {
    pub user_id: Seq<u8>,
    pub password: Seq<u8>,
    pub app_id: Seq<u8>,
    pub app_name: Seq<u8>,
}

impl View for LoginRequest {
    type V = LoginRequestV;

    open spec fn view(&self) -> LoginRequestV {
        LoginRequestV {
            user_id: self.user_id@,
            password: self.password@,
            app_id: self.app_id@,
            app_name: self.app_name@,
        }
    }
}

pub open spec fn spec_login_request_fields(m: LoginRequestV) -> Seq<(Seq<u8>, JsonV)> {
    seq![
        (key_user_id(), JsonV::Str(m.user_id)),
        (key_password(), JsonV::Str(m.password)),
        (key_app_id(), JsonV::Str(m.app_id)),
        (key_app_name(), JsonV::Str(m.app_name)),
    ]
}

impl WireJson for LoginRequest {
    open spec fn spec_to_json(m: LoginRequestV) -> JsonV {
        JsonV::Obj(spec_login_request_fields(m))
    }

    open spec fn spec_from_json(j: JsonV) -> Option<LoginRequestV> {
        let f_user_id = jv_get_str(j, key_user_id());
        let f_password = jv_get_str(j, key_password());
        let f_app_id = jv_get_str(j, key_app_id());
        let f_app_name = jv_get_str(j, key_app_name());
        if f_user_id is Some && f_password is Some && f_app_id is Some && f_app_name is Some {
            Some(LoginRequestV {
                user_id: f_user_id->Some_0,
                password: f_password->Some_0,
                app_id: f_app_id->Some_0,
                app_name: f_app_name->Some_0,
            })
        } else {
            None
        }
    }

    fn to_json(&self) -> (r: Json) {
        let mut fields: Vec<(Vec<u8>, Json)> = Vec::new();
        fields.push((vec_of(kx_user_id().as_slice()), Json::Str(vec_of(self.user_id.as_slice()))));
        fields.push((vec_of(kx_password().as_slice()), Json::Str(vec_of(self.password.as_slice()))));
        fields.push((vec_of(kx_app_id().as_slice()), Json::Str(vec_of(self.app_id.as_slice()))));
        fields.push((vec_of(kx_app_name().as_slice()), Json::Str(vec_of(self.app_name.as_slice()))));
        let r = Json::Obj(fields);
        proof {
            lemma_json_view_members(r->Obj_0, 0);
            assert(json_view_members(r->Obj_0, 0) =~= spec_login_request_fields(self@));
        }
        r
    }

    fn from_json(j: &Json) -> (r: Option<LoginRequest>) {
        let user_id = match j.get_str(kx_user_id().as_slice()) {
            Some(v) => v,
            None => { return None; },
        };
        let password = match j.get_str(kx_password().as_slice()) {
            Some(v) => v,
            None => { return None; },
        };
        let app_id = match j.get_str(kx_app_id().as_slice()) {
            Some(v) => v,
            None => { return None; },
        };
        let app_name = match j.get_str(kx_app_name().as_slice()) {
            Some(v) => v,
            None => { return None; },
        };
        Some(LoginRequest {
            user_id,
            password,
            app_id,
            app_name,
        })
    }

    proof fn lemma_round_trip(m: LoginRequestV) {
        let j = Self::spec_to_json(m);
        let fs = j->Obj_0;
        assert(fs[0].0 == key_user_id());
        assert(obj_get_from(fs, key_user_id(), 0) == Some(fs[0].1));
        assert(fs[0].0 == key_user_id());
        assert(fs[1].0 == key_password());
        assert(obj_get_from(fs, key_password(), 0) == obj_get_from(fs, key_password(), 1));
        assert(obj_get_from(fs, key_password(), 1) == Some(fs[1].1));
        assert(fs[0].0 == key_user_id());
        assert(fs[1].0 == key_password());
        assert(fs[2].0 == key_app_id());
        assert(obj_get_from(fs, key_app_id(), 0) == obj_get_from(fs, key_app_id(), 1));
        assert(obj_get_from(fs, key_app_id(), 1) == obj_get_from(fs, key_app_id(), 2));
        assert(obj_get_from(fs, key_app_id(), 2) == Some(fs[2].1));
        assert(fs[0].0 == key_user_id());
        assert(fs[1].0 == key_password());
        assert(fs[2].0 == key_app_id());
        assert(fs[3].0 == key_app_name());
        assert(obj_get_from(fs, key_app_name(), 0) == obj_get_from(fs, key_app_name(), 1));
        assert(obj_get_from(fs, key_app_name(), 1) == obj_get_from(fs, key_app_name(), 2));
        assert(obj_get_from(fs, key_app_name(), 2) == obj_get_from(fs, key_app_name(), 3));
        assert(obj_get_from(fs, key_app_name(), 3) == Some(fs[3].1));
    }
}

#[derive(Debug, PartialEq, Eq)]
pub struct LoginResponse {
    pub status: bool,
    pub stream_session_id: Vec<u8>,
}

pub struct LoginResponseV {
    pub status: bool,
    pub stream_session_id: Seq<u8>,
}

impl View for LoginResponse {
    type V = LoginResponseV;

    open spec fn view(&self) -> LoginResponseV {
        LoginResponseV {
            status: self.status,
            stream_session_id: self.stream_session_id@,
        }
    }
}

pub open spec fn spec_login_response_fields(m: LoginResponseV) -> Seq<(Seq<u8>, JsonV)> {
    seq![
        (key_status(), JsonV::Bool(m.status)),
        (key_stream_session_id(), JsonV::Str(m.stream_session_id)),
    ]
}

impl WireJson for LoginResponse {
    open spec fn spec_to_json(m: LoginResponseV) -> JsonV {
        JsonV::Obj(spec_login_response_fields(m))
    }

    open spec fn spec_from_json(j: JsonV) -> Option<LoginResponseV> {
        let f_status = jv_get_bool(j, key_status());
        let f_stream_session_id = jv_get_str(j, key_stream_session_id());
        if f_status is Some && f_stream_session_id is Some {
            Some(LoginResponseV {
                status: f_status->Some_0,
                stream_session_id: f_stream_session_id->Some_0,
            })
        } else {
            None
        }
    }

    fn to_json(&self) -> (r: Json) {
        let mut fields: Vec<(Vec<u8>, Json)> = Vec::new();
        fields.push((vec_of(kx_status().as_slice()), Json::Bool(self.status)));
        fields.push((vec_of(kx_stream_session_id().as_slice()), Json::Str(vec_of(self.stream_session_id.as_slice()))));
        let r = Json::Obj(fields);
        proof {
            lemma_json_view_members(r->Obj_0, 0);
            assert(json_view_members(r->Obj_0, 0) =~= spec_login_response_fields(self@));
        }
        r
    }

    fn from_json(j: &Json) -> (r: Option<LoginResponse>) {
        let status = match j.get_bool(kx_status().as_slice()) {
            Some(v) => v,
            None => { return None; },
        };
        let stream_session_id = match j.get_str(kx_stream_session_id().as_slice()) {
            Some(v) => v,
            None => { return None; },
        };
        Some(LoginResponse {
            status,
            stream_session_id,
        })
    }

    proof fn lemma_round_trip(m: LoginResponseV) {
        let j = Self::spec_to_json(m);
        let fs = j->Obj_0;
        assert(fs[0].0 == key_status());
        assert(obj_get_from(fs, key_status(), 0) == Some(fs[0].1));
        assert(fs[0].0 == key_status());
        assert(fs[1].0 == key_stream_session_id());
        assert(obj_get_from(fs, key_stream_session_id(), 0) == obj_get_from(fs, key_stream_session_id(), 1));
        assert(obj_get_from(fs, key_stream_session_id(), 1) == Some(fs[1].1));
    }
}

#[derive(Debug, PartialEq, Eq)]
pub struct ErrorResponse {
    pub status: bool,
    pub error_code: Vec<u8>,
    pub error_descr: Vec<u8>,
}

pub struct ErrorResponseV {
    pub status: bool,
    pub error_code: Seq<u8>,
    pub error_descr: Seq<u8>,
}

impl View for ErrorResponse {
    type V = ErrorResponseV;

    open spec fn view(&self) -> ErrorResponseV {
        ErrorResponseV {
            status: self.status,
            error_code: self.error_code@,
            error_descr: self.error_descr@,
        }
    }
}

pub open spec fn spec_error_response_fields(m: ErrorResponseV) -> Seq<(Seq<u8>, JsonV)> {
    seq![
        (key_status(), JsonV::Bool(m.status)),
        (key_error_code(), JsonV::Str(m.error_code)),
        (key_error_descr(), JsonV::Str(m.error_descr)),
    ]
}

impl WireJson for ErrorResponse {
    open spec fn spec_to_json(m: ErrorResponseV) -> JsonV {
        JsonV::Obj(spec_error_response_fields(m))
    }

    open spec fn spec_from_json(j: JsonV) -> Option<ErrorResponseV> {
        let f_status = jv_get_bool(j, key_status());
        let f_error_code = jv_get_str(j, key_error_code());
        let f_error_descr = jv_get_str(j, key_error_descr());
        if f_status is Some && f_error_code is Some && f_error_descr is Some {
            Some(ErrorResponseV {
                status: f_status->Some_0,
                error_code: f_error_code->Some_0,
                error_descr: f_error_descr->Some_0,
            })
        } else {
            None
        }
    }

    fn to_json(&self) -> (r: Json) {
        let mut fields: Vec<(Vec<u8>, Json)> = Vec::new();
        fields.push((vec_of(kx_status().as_slice()), Json::Bool(self.status)));
        fields.push((vec_of(kx_error_code().as_slice()), Json::Str(vec_of(self.error_code.as_slice()))));
        fields.push((vec_of(kx_error_descr().as_slice()), Json::Str(vec_of(self.error_descr.as_slice()))));
        let r = Json::Obj(fields);
        proof {
            lemma_json_view_members(r->Obj_0, 0);
            assert(json_view_members(r->Obj_0, 0) =~= spec_error_response_fields(self@));
        }
        r
    }

    fn from_json(j: &Json) -> (r: Option<ErrorResponse>) {
        let status = match j.get_bool(kx_status().as_slice()) {
            Some(v) => v,
            None => { return None; },
        };
        let error_code = match j.get_str(kx_error_code().as_slice()) {
            Some(v) => v,
            None => { return None; },
        };
        let error_descr = match j.get_str(kx_error_descr().as_slice()) {
            Some(v) => v,
            None => { return None; },
        };
        Some(ErrorResponse {
            status,
            error_code,
            error_descr,
        })
    }

    proof fn lemma_round_trip(m: ErrorResponseV) {
        let j = Self::spec_to_json(m);
        let fs = j->Obj_0;
        assert(fs[0].0 == key_status());
        assert(obj_get_from(fs, key_status(), 0) == Some(fs[0].1));
        assert(fs[0].0 == key_status());
        assert(fs[1].0 == key_error_code());
        assert(obj_get_from(fs, key_error_code(), 0) == obj_get_from(fs, key_error_code(), 1));
        assert(obj_get_from(fs, key_error_code(), 1) == Some(fs[1].1));
        assert(fs[0].0 == key_status());
        assert(fs[1].0 == key_error_code());
        assert(fs[2].0 == key_error_descr());
        assert(obj_get_from(fs, key_error_descr(), 0) == obj_get_from(fs, key_error_descr(), 1));
        assert(obj_get_from(fs, key_error_descr(), 1) == obj_get_from(fs, key_error_descr(), 2));
        assert(obj_get_from(fs, key_error_descr(), 2) == Some(fs[2].1));
    }
}

#[derive(Debug, PartialEq, Eq)]
pub struct LogoutRequest {
    pub command: Vec<u8>,
}

pub struct LogoutRequestV {
    pub command: Seq<u8>,
}

impl View for LogoutRequest {
    type V = LogoutRequestV;

    open spec fn view(&self) -> LogoutRequestV {
        LogoutRequestV {
            command: self.command@,
        }
    }
}

pub open spec fn spec_logout_request_fields(m: LogoutRequestV) -> Seq<(Seq<u8>, JsonV)> {
    seq![
        (key_command(), JsonV::Str(m.command)),
    ]
}

impl WireJson for LogoutRequest {
    open spec fn spec_to_json(m: LogoutRequestV) -> JsonV {
        JsonV::Obj(spec_logout_request_fields(m))
    }

    open spec fn spec_from_json(j: JsonV) -> Option<LogoutRequestV> {
        let f_command = jv_get_str(j, key_command());
        if f_command is Some {
            Some(LogoutRequestV {
                command: f_command->Some_0,
            })
        } else {
            None
        }
    }

    fn to_json(&self) -> (r: Json) {
        let mut fields: Vec<(Vec<u8>, Json)> = Vec::new();
        fields.push((vec_of(kx_command().as_slice()), Json::Str(vec_of(self.command.as_slice()))));
        let r = Json::Obj(fields);
        proof {
            lemma_json_view_members(r->Obj_0, 0);
            assert(json_view_members(r->Obj_0, 0) =~= spec_logout_request_fields(self@));
        }
        r
    }

    fn from_json(j: &Json) -> (r: Option<LogoutRequest>) {
        let command = match j.get_str(kx_command().as_slice()) {
            Some(v) => v,
            None => { return None; },
        };
        Some(LogoutRequest {
            command,
        })
    }

    proof fn lemma_round_trip(m: LogoutRequestV) {
        let j = Self::spec_to_json(m);
        let fs = j->Obj_0;
        assert(fs[0].0 == key_command());
        assert(obj_get_from(fs, key_command(), 0) == Some(fs[0].1));
    }
}

#[derive(Debug, PartialEq, Eq)]
pub struct GetMarginTradeRequest {
    pub symbol: Vec<u8>,
    pub volume: Decimal,
}

pub struct GetMarginTradeRequestV {
    pub symbol: Seq<u8>,
    pub volume: Decimal,
}

impl View for GetMarginTradeRequest {
    type V = GetMarginTradeRequestV;

    open spec fn view(&self) -> GetMarginTradeRequestV {
        GetMarginTradeRequestV {
            symbol: self.symbol@,
            volume: self.volume,
        }
    }
}

pub open spec fn spec_get_margin_trade_request_fields(m: GetMarginTradeRequestV) -> Seq<(Seq<u8>, JsonV)> {
    seq![
        (key_symbol(), JsonV::Str(m.symbol)),
        (key_volume(), JsonV::Num(m.volume)),
    ]
}

impl WireJson for GetMarginTradeRequest {
    open spec fn spec_to_json(m: GetMarginTradeRequestV) -> JsonV {
        JsonV::Obj(spec_get_margin_trade_request_fields(m))
    }

    open spec fn spec_from_json(j: JsonV) -> Option<GetMarginTradeRequestV> {
        let f_symbol = jv_get_str(j, key_symbol());
        let f_volume = jv_get_dec(j, key_volume());
        if f_symbol is Some && f_volume is Some {
            Some(GetMarginTradeRequestV {
                symbol: f_symbol->Some_0,
                volume: f_volume->Some_0,
            })
        } else {
            None
        }
    }

    fn to_json(&self) -> (r: Json) {
        let mut fields: Vec<(Vec<u8>, Json)> = Vec::new();
        fields.push((vec_of(kx_symbol().as_slice()), Json::Str(vec_of(self.symbol.as_slice()))));
        fields.push((vec_of(kx_volume().as_slice()), Json::Num(self.volume)));
        let r = Json::Obj(fields);
        proof {
            lemma_json_view_members(r->Obj_0, 0);
            assert(json_view_members(r->Obj_0, 0) =~= spec_get_margin_trade_request_fields(self@));
        }
        r
    }

    fn from_json(j: &Json) -> (r: Option<GetMarginTradeRequest>) {
        let symbol = match j.get_str(kx_symbol().as_slice()) {
            Some(v) => v,
            None => { return None; },
        };
        let volume = match j.get_dec(kx_volume().as_slice()) {
            Some(v) => v,
            None => { return None; },
        };
        Some(GetMarginTradeRequest {
            symbol,
            volume,
        })
    }

    proof fn lemma_round_trip(m: GetMarginTradeRequestV) {
        let j = Self::spec_to_json(m);
        let fs = j->Obj_0;
        assert(fs[0].0 == key_symbol());
        assert(obj_get_from(fs, key_symbol(), 0) == Some(fs[0].1));
        assert(fs[0].0 == key_symbol());
        assert(fs[1].0 == key_volume());
        assert(key_symbol() != key_volume()) by {
            assert(key_symbol()[0] != key_volume()[0]);
        }
        assert(obj_get_from(fs, key_volume(), 0) == obj_get_from(fs, key_volume(), 1));
        assert(obj_get_from(fs, key_volume(), 1) == Some(fs[1].1));
    }
}

#[derive(Debug, PartialEq, Eq)]
pub struct GetChartLastInfo {
    pub period: Period,
    pub start: i64,
    pub symbol: Vec<u8>,
}

pub struct GetChartLastInfoV {
    pub period: Period,
    pub start: i64,
    pub symbol: Seq<u8>,
}

impl View for GetChartLastInfo {
    type V = GetChartLastInfoV;

    open spec fn view(&self) -> GetChartLastInfoV {
        GetChartLastInfoV {
            period: self.period,
            start: self.start,
            symbol: self.symbol@,
        }
    }
}

pub open spec fn spec_get_chart_last_info_fields(m: GetChartLastInfoV) -> Seq<(Seq<u8>, JsonV)> {
    seq![
        (key_period(), JsonV::Num(spec_dec_of_int(spec_period_code(m.period) as int))),
        (key_start(), JsonV::Num(spec_dec_of_int(m.start as int))),
        (key_symbol(), JsonV::Str(m.symbol)),
    ]
}

impl WireJson for GetChartLastInfo {
    open spec fn spec_to_json(m: GetChartLastInfoV) -> JsonV {
        JsonV::Obj(spec_get_chart_last_info_fields(m))
    }

    open spec fn spec_from_json(j: JsonV) -> Option<GetChartLastInfoV> {
        let f_period = (match jv_get_dec(j, key_period()) { Some(d) => spec_period_from_dec(d), None => None });
        let f_start = jv_get_i64(j, key_start());
        let f_symbol = jv_get_str(j, key_symbol());
        if f_period is Some && f_start is Some && f_symbol is Some {
            Some(GetChartLastInfoV {
                period: f_period->Some_0,
                start: f_start->Some_0,
                symbol: f_symbol->Some_0,
            })
        } else {
            None
        }
    }

    fn to_json(&self) -> (r: Json) {
        let mut fields: Vec<(Vec<u8>, Json)> = Vec::new();
        fields.push((vec_of(kx_period().as_slice()), Json::Num(Decimal::from_u64(self.period.code()))));
        fields.push((vec_of(kx_start().as_slice()), Json::Num(Decimal::from_i64(self.start))));
        fields.push((vec_of(kx_symbol().as_slice()), Json::Str(vec_of(self.symbol.as_slice()))));
        let r = Json::Obj(fields);
        proof {
            lemma_json_view_members(r->Obj_0, 0);
            assert(json_view_members(r->Obj_0, 0) =~= spec_get_chart_last_info_fields(self@));
        }
        r
    }

    fn from_json(j: &Json) -> (r: Option<GetChartLastInfo>) {
        let period = match j.get_dec(kx_period().as_slice()) {
            Some(d) => match Period::from_dec(d) {
                Some(v) => v,
                None => { return None; },
            },
            None => { return None; },
        };
        let start = match j.get_i64(kx_start().as_slice()) {
            Some(v) => v,
            None => { return None; },
        };
        let symbol = match j.get_str(kx_symbol().as_slice()) {
            Some(v) => v,
            None => { return None; },
        };
        Some(GetChartLastInfo {
            period,
            start,
            symbol,
        })
    }

    proof fn lemma_round_trip(m: GetChartLastInfoV) {
        let j = Self::spec_to_json(m);
        let fs = j->Obj_0;
        assert(fs[0].0 == key_period());
        assert(obj_get_from(fs, key_period(), 0) == Some(fs[0].1));
    lemma_period_round_trip(m.period);
        assert(fs[0].0 == key_period());
        assert(fs[1].0 == key_start());
        assert(obj_get_from(fs, key_start(), 0) == obj_get_from(fs, key_start(), 1));
        assert(obj_get_from(fs, key_start(), 1) == Some(fs[1].1));
        assert(fs[0].0 == key_period());
        assert(fs[1].0 == key_start());
        assert(fs[2].0 == key_symbol());
        assert(key_period() != key_symbol()) by {
            assert(key_period()[0] != key_symbol()[0]);
        }
        assert(obj_get_from(fs, key_symbol(), 0) == obj_get_from(fs, key_symbol(), 1));
        assert(obj_get_from(fs, key_symbol(), 1) == obj_get_from(fs, key_symbol(), 2));
        assert(obj_get_from(fs, key_symbol(), 2) == Some(fs[2].1));
    }
}

#[derive(Debug, PartialEq, Eq)]
pub struct GetChartLastRequest {
    pub info: GetChartLastInfo,
}

pub struct GetChartLastRequestV {
    pub info: GetChartLastInfoV,
}

impl View for GetChartLastRequest {
    type V = GetChartLastRequestV;

    open spec fn view(&self) -> GetChartLastRequestV {
        GetChartLastRequestV {
            info: self.info@,
        }
    }
}

pub open spec fn spec_get_chart_last_request_fields(m: GetChartLastRequestV) -> Seq<(Seq<u8>, JsonV)> {
    seq![
        (key_info(), <GetChartLastInfo as WireJson>::spec_to_json(m.info)),
    ]
}

impl WireJson for GetChartLastRequest {
    open spec fn spec_to_json(m: GetChartLastRequestV) -> JsonV {
        JsonV::Obj(spec_get_chart_last_request_fields(m))
    }

    open spec fn spec_from_json(j: JsonV) -> Option<GetChartLastRequestV> {
        let f_info = (match jv_get(j, key_info()) { Some(x) => <GetChartLastInfo as WireJson>::spec_from_json(x), None => None });
        if f_info is Some {
            Some(GetChartLastRequestV {
                info: f_info->Some_0,
            })
        } else {
            None
        }
    }

    fn to_json(&self) -> (r: Json) {
        let mut fields: Vec<(Vec<u8>, Json)> = Vec::new();
        fields.push((vec_of(kx_info().as_slice()), self.info.to_json()));
        let r = Json::Obj(fields);
        proof {
            lemma_json_view_members(r->Obj_0, 0);
            assert(json_view_members(r->Obj_0, 0) =~= spec_get_chart_last_request_fields(self@));
        }
        r
    }

    fn from_json(j: &Json) -> (r: Option<GetChartLastRequest>) {
        let info = match j.get(kx_info().as_slice()) {
            Some(x) => match GetChartLastInfo::from_json(x) {
                Some(v) => v,
                None => { return None; },
            },
            None => { return None; },
        };
        Some(GetChartLastRequest {
            info,
        })
    }

    proof fn lemma_round_trip(m: GetChartLastRequestV) {
        let j = Self::spec_to_json(m);
        let fs = j->Obj_0;
        assert(fs[0].0 == key_info());
        assert(obj_get_from(fs, key_info(), 0) == Some(fs[0].1));
    <GetChartLastInfo as WireJson>::lemma_round_trip(m.info);
    }
}

#[derive(Debug, PartialEq, Eq)]
pub struct GetChartLastRateInfo {
    pub close: Decimal,
    pub ctm: i32,
    pub ctm_string: Vec<u8>,
    pub high: Decimal,
    pub low: Decimal,
    pub open: Decimal,
    pub vol: Decimal,
}

pub struct GetChartLastRateInfoV {
    pub close: Decimal,
    pub ctm: i32,
    pub ctm_string: Seq<u8>,
    pub high: Decimal,
    pub low: Decimal,
    pub open: Decimal,
    pub vol: Decimal,
}

impl View for GetChartLastRateInfo {
    type V = GetChartLastRateInfoV;

    open spec fn view(&self) -> GetChartLastRateInfoV {
        GetChartLastRateInfoV {
            close: self.close,
            ctm: self.ctm,
            ctm_string: self.ctm_string@,
            high: self.high,
            low: self.low,
            open: self.open,
            vol: self.vol,
        }
    }
}

pub open spec fn spec_get_chart_last_rate_info_fields(m: GetChartLastRateInfoV) -> Seq<(Seq<u8>, JsonV)> {
    seq![
        (key_close(), JsonV::Num(m.close)),
        (key_ctm(), JsonV::Num(spec_dec_of_int(m.ctm as int))),
        (key_ctm_string(), JsonV::Str(m.ctm_string)),
        (key_high(), JsonV::Num(m.high)),
        (key_low(), JsonV::Num(m.low)),
        (key_open(), JsonV::Num(m.open)),
        (key_vol(), JsonV::Num(m.vol)),
    ]
}

impl WireJson for GetChartLastRateInfo {
    open spec fn spec_to_json(m: GetChartLastRateInfoV) -> JsonV {
        JsonV::Obj(spec_get_chart_last_rate_info_fields(m))
    }

    open spec fn spec_from_json(j: JsonV) -> Option<GetChartLastRateInfoV> {
        let f_close = jv_get_dec(j, key_close());
        let f_ctm = jv_get_i32(j, key_ctm());
        let f_ctm_string = jv_get_str(j, key_ctm_string());
        let f_high = jv_get_dec(j, key_high());
        let f_low = jv_get_dec(j, key_low());
        let f_open = jv_get_dec(j, key_open());
        let f_vol = jv_get_dec(j, key_vol());
        if f_close is Some && f_ctm is Some && f_ctm_string is Some && f_high is Some && f_low is Some && f_open is Some && f_vol is Some {
            Some(GetChartLastRateInfoV {
                close: f_close->Some_0,
                ctm: f_ctm->Some_0,
                ctm_string: f_ctm_string->Some_0,
                high: f_high->Some_0,
                low: f_low->Some_0,
                open: f_open->Some_0,
                vol: f_vol->Some_0,
            })
        } else {
            None
        }
    }

    fn to_json(&self) -> (r: Json) {
        let mut fields: Vec<(Vec<u8>, Json)> = Vec::new();
        fields.push((vec_of(kx_close().as_slice()), Json::Num(self.close)));
        fields.push((vec_of(kx_ctm().as_slice()), Json::Num(Decimal::from_i64(self.ctm as i64))));
        fields.push((vec_of(kx_ctm_string().as_slice()), Json::Str(vec_of(self.ctm_string.as_slice()))));
        fields.push((vec_of(kx_high().as_slice()), Json::Num(self.high)));
        fields.push((vec_of(kx_low().as_slice()), Json::Num(self.low)));
        fields.push((vec_of(kx_open().as_slice()), Json::Num(self.open)));
        fields.push((vec_of(kx_vol().as_slice()), Json::Num(self.vol)));
        let r = Json::Obj(fields);
        proof {
            lemma_json_view_members(r->Obj_0, 0);
            assert(json_view_members(r->Obj_0, 0) =~= spec_get_chart_last_rate_info_fields(self@));
        }
        r
    }

    fn from_json(j: &Json) -> (r: Option<GetChartLastRateInfo>) {
        let close = match j.get_dec(kx_close().as_slice()) {
            Some(v) => v,
            None => { return None; },
        };
        let ctm = match j.get_i32(kx_ctm().as_slice()) {
            Some(v) => v,
            None => { return None; },
        };
        let ctm_string = match j.get_str(kx_ctm_string().as_slice()) {
            Some(v) => v,
            None => { return None; },
        };
        let high = match j.get_dec(kx_high().as_slice()) {
            Some(v) => v,
            None => { return None; },
        };
        let low = match j.get_dec(kx_low().as_slice()) {
            Some(v) => v,
            None => { return None; },
        };
        let open = match j.get_dec(kx_open().as_slice()) {
            Some(v) => v,
            None => { return None; },
        };
        let vol = match j.get_dec(kx_vol().as_slice()) {
            Some(v) => v,
            None => { return None; },
        };
        Some(GetChartLastRateInfo {
            close,
            ctm,
            ctm_string,
            high,
            low,
            open,
            vol,
        })
    }

    proof fn lemma_round_trip(m: GetChartLastRateInfoV) {
        let j = Self::spec_to_json(m);
        let fs = j->Obj_0;
        assert(fs[0].0 == key_close());
        assert(obj_get_from(fs, key_close(), 0) == Some(fs[0].1));
        assert(fs[0].0 == key_close());
        assert(fs[1].0 == key_ctm());
        assert(obj_get_from(fs, key_ctm(), 0) == obj_get_from(fs, key_ctm(), 1));
        assert(obj_get_from(fs, key_ctm(), 1) == Some(fs[1].1));
        assert(fs[0].0 == key_close());
        assert(fs[1].0 == key_ctm());
        assert(fs[2].0 == key_ctm_string());
        assert(obj_get_from(fs, key_ctm_string(), 0) == obj_get_from(fs, key_ctm_string(), 1));
        assert(obj_get_from(fs, key_ctm_string(), 1) == obj_get_from(fs, key_ctm_string(), 2));
        assert(obj_get_from(fs, key_ctm_string(), 2) == Some(fs[2].1));
        assert(fs[0].0 == key_close());
        assert(fs[1].0 == key_ctm());
        assert(fs[2].0 == key_ctm_string());
        assert(fs[3].0 == key_high());
        assert(obj_get_from(fs, key_high(), 0) == obj_get_from(fs, key_high(), 1));
        assert(obj_get_from(fs, key_high(), 1) == obj_get_from(fs, key_high(), 2));
        assert(obj_get_from(fs, key_high(), 2) == obj_get_from(fs, key_high(), 3));
        assert(obj_get_from(fs, key_high(), 3) == Some(fs[3].1));
        assert(fs[0].0 == key_close());
        assert(fs[1].0 == key_ctm());
        assert(fs[2].0 == key_ctm_string());
        assert(fs[3].0 == key_high());
        assert(fs[4].0 == key_low());
        assert(key_ctm() != key_low()) by {
            assert(key_ctm()[0] != key_low()[0]);
        }
        assert(obj_get_from(fs, key_low(), 0) == obj_get_from(fs, key_low(), 1));
        assert(obj_get_from(fs, key_low(), 1) == obj_get_from(fs, key_low(), 2));
        assert(obj_get_from(fs, key_low(), 2) == obj_get_from(fs, key_low(), 3));
        assert(obj_get_from(fs, key_low(), 3) == obj_get_from(fs, key_low(), 4));
        assert(obj_get_from(fs, key_low(), 4) == Some(fs[4].1));
        assert(fs[0].0 == key_close());
        assert(fs[1].0 == key_ctm());
        assert(fs[2].0 == key_ctm_string());
        assert(fs[3].0 == key_high());
        assert(fs[4].0 == key_low());
        assert(fs[5].0 == key_open());
        assert(key_high() != key_open()) by {
            assert(key_high()[0] != key_open()[0]);
        }
        assert(obj_get_from(fs, key_open(), 0) == obj_get_from(fs, key_open(), 1));
        assert(obj_get_from(fs, key_open(), 1) == obj_get_from(fs, key_open(), 2));
        assert(obj_get_from(fs, key_open(), 2) == obj_get_from(fs, key_open(), 3));
        assert(obj_get_from(fs, key_open(), 3) == obj_get_from(fs, key_open(), 4));
        assert(obj_get_from(fs, key_open(), 4) == obj_get_from(fs, key_open(), 5));
        assert(obj_get_from(fs, key_open(), 5) == Some(fs[5].1));
        assert(fs[0].0 == key_close());
        assert(fs[1].0 == key_ctm());
        assert(fs[2].0 == key_ctm_string());
        assert(fs[3].0 == key_high());
        assert(fs[4].0 == key_low());
        assert(fs[5].0 == key_open());
        assert(fs[6].0 == key_vol());
        assert(key_ctm() != key_vol()) by {
            assert(key_ctm()[0] != key_vol()[0]);
        }
        assert(key_low() != key_vol()) by {
            assert(key_low()[0] != key_vol()[0]);
        }
        assert(obj_get_from(fs, key_vol(), 0) == obj_get_from(fs, key_vol(), 1));
        assert(obj_get_from(fs, key_vol(), 1) == obj_get_from(fs, key_vol(), 2));
        assert(obj_get_from(fs, key_vol(), 2) == obj_get_from(fs, key_vol(), 3));
        assert(obj_get_from(fs, key_vol(), 3) == obj_get_from(fs, key_vol(), 4));
        assert(obj_get_from(fs, key_vol(), 4) == obj_get_from(fs, key_vol(), 5));
        assert(obj_get_from(fs, key_vol(), 5) == obj_get_from(fs, key_vol(), 6));
        assert(obj_get_from(fs, key_vol(), 6) == Some(fs[6].1));
    }
}

#[derive(Debug, PartialEq, Eq)]
pub struct GetServerTime {
}

pub struct GetServerTimeV {
}

impl View for GetServerTime {
    type V = GetServerTimeV;

    open spec fn view(&self) -> GetServerTimeV {
        GetServerTimeV {  }
    }
}

pub open spec fn spec_get_server_time_fields(m: GetServerTimeV) -> Seq<(Seq<u8>, JsonV)> {
    Seq::empty()
}

impl WireJson for GetServerTime {
    open spec fn spec_to_json(m: GetServerTimeV) -> JsonV {
        JsonV::Obj(spec_get_server_time_fields(m))
    }

    open spec fn spec_from_json(j: JsonV) -> Option<GetServerTimeV> {
        if j is Obj { Some(GetServerTimeV {  }) } else { None }
    }

    fn to_json(&self) -> (r: Json) {
        let mut fields: Vec<(Vec<u8>, Json)> = Vec::new();
        let r = Json::Obj(fields);
        proof {
            lemma_json_view_members(r->Obj_0, 0);
            assert(json_view_members(r->Obj_0, 0) =~= spec_get_server_time_fields(self@));
        }
        r
    }

    fn from_json(j: &Json) -> (r: Option<GetServerTime>) {
        match j {
            Json::Obj(_) => Some(GetServerTime {  }),
            _ => None,
        }
    }

    proof fn lemma_round_trip(m: GetServerTimeV) {
        let j = Self::spec_to_json(m);
        let fs = j->Obj_0;
    }
}

#[derive(Debug, PartialEq, Eq)]
pub struct GetServerTimeResponse {
    pub time: i64,
    pub time_string: Vec<u8>,
}

pub struct GetServerTimeResponseV {
    pub time: i64,
    pub time_string: Seq<u8>,
}

impl View for GetServerTimeResponse {
    type V = GetServerTimeResponseV;

    open spec fn view(&self) -> GetServerTimeResponseV {
        GetServerTimeResponseV {
            time: self.time,
            time_string: self.time_string@,
        }
    }
}

pub open spec fn spec_get_server_time_response_fields(m: GetServerTimeResponseV) -> Seq<(Seq<u8>, JsonV)> {
    seq![
        (key_time(), JsonV::Num(spec_dec_of_int(m.time as int))),
        (key_time_string(), JsonV::Str(m.time_string)),
    ]
}

impl WireJson for GetServerTimeResponse {
    open spec fn spec_to_json(m: GetServerTimeResponseV) -> JsonV {
        JsonV::Obj(spec_get_server_time_response_fields(m))
    }

    open spec fn spec_from_json(j: JsonV) -> Option<GetServerTimeResponseV> {
        let f_time = jv_get_i64(j, key_time());
        let f_time_string = jv_get_str(j, key_time_string());
        if f_time is Some && f_time_string is Some {
            Some(GetServerTimeResponseV {
                time: f_time->Some_0,
                time_string: f_time_string->Some_0,
            })
        } else {
            None
        }
    }

    fn to_json(&self) -> (r: Json) {
        let mut fields: Vec<(Vec<u8>, Json)> = Vec::new();
        fields.push((vec_of(kx_time().as_slice()), Json::Num(Decimal::from_i64(self.time))));
        fields.push((vec_of(kx_time_string().as_slice()), Json::Str(vec_of(self.time_string.as_slice()))));
        let r = Json::Obj(fields);
        proof {
            lemma_json_view_members(r->Obj_0, 0);
            assert(json_view_members(r->Obj_0, 0) =~= spec_get_server_time_response_fields(self@));
        }
        r
    }

    fn from_json(j: &Json) -> (r: Option<GetServerTimeResponse>) {
        let time = match j.get_i64(kx_time().as_slice()) {
            Some(v) => v,
            None => { return None; },
        };
        let time_string = match j.get_str(kx_time_string().as_slice()) {
            Some(v) => v,
            None => { return None; },
        };
        Some(GetServerTimeResponse {
            time,
            time_string,
        })
    }

    proof fn lemma_round_trip(m: GetServerTimeResponseV) {
        let j = Self::spec_to_json(m);
        let fs = j->Obj_0;
        assert(fs[0].0 == key_time());
        assert(obj_get_from(fs, key_time(), 0) == Some(fs[0].1));
        assert(fs[0].0 == key_time());
        assert(fs[1].0 == key_time_string());
        assert(obj_get_from(fs, key_time_string(), 0) == obj_get_from(fs, key_time_string(), 1));
        assert(obj_get_from(fs, key_time_string(), 1) == Some(fs[1].1));
    }
}

#[derive(Debug, PartialEq, Eq)]
pub struct GetSymbol {
    pub symbol: Vec<u8>,
}

pub struct GetSymbolV {
    pub symbol: Seq<u8>,
}

impl View for GetSymbol {
    type V = GetSymbolV;

    open spec fn view(&self) -> GetSymbolV {
        GetSymbolV {
            symbol: self.symbol@,
        }
    }
}

pub open spec fn spec_get_symbol_fields(m: GetSymbolV) -> Seq<(Seq<u8>, JsonV)> {
    seq![
        (key_symbol(), JsonV::Str(m.symbol)),
    ]
}

impl WireJson for GetSymbol {
    open spec fn spec_to_json(m: GetSymbolV) -> JsonV {
        JsonV::Obj(spec_get_symbol_fields(m))
    }

    open spec fn spec_from_json(j: JsonV) -> Option<GetSymbolV> {
        let f_symbol = jv_get_str(j, key_symbol());
        if f_symbol is Some {
            Some(GetSymbolV {
                symbol: f_symbol->Some_0,
            })
        } else {
            None
        }
    }

    fn to_json(&self) -> (r: Json) {
        let mut fields: Vec<(Vec<u8>, Json)> = Vec::new();
        fields.push((vec_of(kx_symbol().as_slice()), Json::Str(vec_of(self.symbol.as_slice()))));
        let r = Json::Obj(fields);
        proof {
            lemma_json_view_members(r->Obj_0, 0);
            assert(json_view_members(r->Obj_0, 0) =~= spec_get_symbol_fields(self@));
        }
        r
    }

    fn from_json(j: &Json) -> (r: Option<GetSymbol>) {
        let symbol = match j.get_str(kx_symbol().as_slice()) {
            Some(v) => v,
            None => { return None; },
        };
        Some(GetSymbol {
            symbol,
        })
    }

    proof fn lemma_round_trip(m: GetSymbolV) {
        let j = Self::spec_to_json(m);
        let fs = j->Obj_0;
        assert(fs[0].0 == key_symbol());
        assert(obj_get_from(fs, key_symbol(), 0) == Some(fs[0].1));
    }
}

#[derive(Debug, PartialEq, Eq)]
pub struct GetCommissionDef {
    pub symbol: Vec<u8>,
    pub volume: Decimal,
}

pub struct GetCommissionDefV {
    pub symbol: Seq<u8>,
    pub volume: Decimal,
}

impl View for GetCommissionDef {
    type V = GetCommissionDefV;

    open spec fn view(&self) -> GetCommissionDefV {
        GetCommissionDefV {
            symbol: self.symbol@,
            volume: self.volume,
        }
    }
}

pub open spec fn spec_get_commission_def_fields(m: GetCommissionDefV) -> Seq<(Seq<u8>, JsonV)> {
    seq![
        (key_symbol(), JsonV::Str(m.symbol)),
        (key_volume(), JsonV::Num(m.volume)),
    ]
}

impl WireJson for GetCommissionDef {
    open spec fn spec_to_json(m: GetCommissionDefV) -> JsonV {
        JsonV::Obj(spec_get_commission_def_fields(m))
    }

    open spec fn spec_from_json(j: JsonV) -> Option<GetCommissionDefV> {
        let f_symbol = jv_get_str(j, key_symbol());
        let f_volume = jv_get_dec(j, key_volume());
        if f_symbol is Some && f_volume is Some {
            Some(GetCommissionDefV {
                symbol: f_symbol->Some_0,
                volume: f_volume->Some_0,
            })
        } else {
            None
        }
    }

    fn to_json(&self) -> (r: Json) {
        let mut fields: Vec<(Vec<u8>, Json)> = Vec::new();
        fields.push((vec_of(kx_symbol().as_slice()), Json::Str(vec_of(self.symbol.as_slice()))));
        fields.push((vec_of(kx_volume().as_slice()), Json::Num(self.volume)));
        let r = Json::Obj(fields);
        proof {
            lemma_json_view_members(r->Obj_0, 0);
            assert(json_view_members(r->Obj_0, 0) =~= spec_get_commission_def_fields(self@));
        }
        r
    }

    fn from_json(j: &Json) -> (r: Option<GetCommissionDef>) {
        let symbol = match j.get_str(kx_symbol().as_slice()) {
            Some(v) => v,
            None => { return None; },
        };
        let volume = match j.get_dec(kx_volume().as_slice()) {
            Some(v) => v,
            None => { return None; },
        };
        Some(GetCommissionDef {
            symbol,
            volume,
        })
    }

    proof fn lemma_round_trip(m: GetCommissionDefV) {
        let j = Self::spec_to_json(m);
        let fs = j->Obj_0;
        assert(fs[0].0 == key_symbol());
        assert(obj_get_from(fs, key_symbol(), 0) == Some(fs[0].1));
        assert(fs[0].0 == key_symbol());
        assert(fs[1].0 == key_volume());
        assert(key_symbol() != key_volume()) by {
            assert(key_symbol()[0] != key_volume()[0]);
        }
        assert(obj_get_from(fs, key_volume(), 0) == obj_get_from(fs, key_volume(), 1));
        assert(obj_get_from(fs, key_volume(), 1) == Some(fs[1].1));
    }
}

#[derive(Debug, PartialEq, Eq)]
pub struct GetCommissionDefResponse {
    pub commission: Decimal,
    pub rate_of_exchange: Decimal,
}

pub struct GetCommissionDefResponseV {
    pub commission: Decimal,
    pub rate_of_exchange: Decimal,
}

impl View for GetCommissionDefResponse {
    type V = GetCommissionDefResponseV;

    open spec fn view(&self) -> GetCommissionDefResponseV {
        GetCommissionDefResponseV {
            commission: self.commission,
            rate_of_exchange: self.rate_of_exchange,
        }
    }
}

pub open spec fn spec_get_commission_def_response_fields(m: GetCommissionDefResponseV) -> Seq<(Seq<u8>, JsonV)> {
    seq![
        (key_commission(), JsonV::Num(m.commission)),
        (key_rate_of_exchange(), JsonV::Num(m.rate_of_exchange)),
    ]
}

impl WireJson for GetCommissionDefResponse {
    open spec fn spec_to_json(m: GetCommissionDefResponseV) -> JsonV {
        JsonV::Obj(spec_get_commission_def_response_fields(m))
    }

    open spec fn spec_from_json(j: JsonV) -> Option<GetCommissionDefResponseV> {
        let f_commission = jv_get_dec(j, key_commission());
        let f_rate_of_exchange = jv_get_dec(j, key_rate_of_exchange());
        if f_commission is Some && f_rate_of_exchange is Some {
            Some(GetCommissionDefResponseV {
                commission: f_commission->Some_0,
                rate_of_exchange: f_rate_of_exchange->Some_0,
            })
        } else {
            None
        }
    }

    fn to_json(&self) -> (r: Json) {
        let mut fields: Vec<(Vec<u8>, Json)> = Vec::new();
        fields.push((vec_of(kx_commission().as_slice()), Json::Num(self.commission)));
        fields.push((vec_of(kx_rate_of_exchange().as_slice()), Json::Num(self.rate_of_exchange)));
        let r = Json::Obj(fields);
        proof {
            lemma_json_view_members(r->Obj_0, 0);
            assert(json_view_members(r->Obj_0, 0) =~= spec_get_commission_def_response_fields(self@));
        }
        r
    }

    fn from_json(j: &Json) -> (r: Option<GetCommissionDefResponse>) {
        let commission = match j.get_dec(kx_commission().as_slice()) {
            Some(v) => v,
            None => { return None; },
        };
        let rate_of_exchange = match j.get_dec(kx_rate_of_exchange().as_slice()) {
            Some(v) => v,
            None => { return None; },
        };
        Some(GetCommissionDefResponse {
            commission,
            rate_of_exchange,
        })
    }

    proof fn lemma_round_trip(m: GetCommissionDefResponseV) {
        let j = Self::spec_to_json(m);
        let fs = j->Obj_0;
        assert(fs[0].0 == key_commission());
        assert(obj_get_from(fs, key_commission(), 0) == Some(fs[0].1));
        assert(fs[0].0 == key_commission());
        assert(fs[1].0 == key_rate_of_exchange());
        assert(obj_get_from(fs, key_rate_of_exchange(), 0) == obj_get_from(fs, key_rate_of_exchange(), 1));
        assert(obj_get_from(fs, key_rate_of_exchange(), 1) == Some(fs[1].1));
    }
}

#[derive(Debug, PartialEq, Eq)]
pub struct GetCurrentUserData {
}

pub struct GetCurrentUserDataV {
}

impl View for GetCurrentUserData {
    type V = GetCurrentUserDataV;

    open spec fn view(&self) -> GetCurrentUserDataV {
        GetCurrentUserDataV {  }
    }
}

pub open spec fn spec_get_current_user_data_fields(m: GetCurrentUserDataV) -> Seq<(Seq<u8>, JsonV)> {
    Seq::empty()
}

impl WireJson for GetCurrentUserData {
    open spec fn spec_to_json(m: GetCurrentUserDataV) -> JsonV {
        JsonV::Obj(spec_get_current_user_data_fields(m))
    }

    open spec fn spec_from_json(j: JsonV) -> Option<GetCurrentUserDataV> {
        if j is Obj { Some(GetCurrentUserDataV {  }) } else { None }
    }

    fn to_json(&self) -> (r: Json) {
        let mut fields: Vec<(Vec<u8>, Json)> = Vec::new();
        let r = Json::Obj(fields);
        proof {
            lemma_json_view_members(r->Obj_0, 0);
            assert(json_view_members(r->Obj_0, 0) =~= spec_get_current_user_data_fields(self@));
        }
        r
    }

    fn from_json(j: &Json) -> (r: Option<GetCurrentUserData>) {
        match j {
            Json::Obj(_) => Some(GetCurrentUserData {  }),
            _ => None,
        }
    }

    proof fn lemma_round_trip(m: GetCurrentUserDataV) {
        let j = Self::spec_to_json(m);
        let fs = j->Obj_0;
    }
}

#[derive(Debug, PartialEq, Eq)]
pub struct GetCurrentUserDataResponse {
    pub company_unit: i32,
    pub currency: Vec<u8>,
    pub group: Vec<u8>,
    pub ib_account: bool,
    pub leverage: i32,
    pub leverage_multiplier: Decimal,
    pub spread_type: Option<Vec<u8>>,
    pub trailing_stop: bool,
}

pub struct GetCurrentUserDataResponseV {
    pub company_unit: i32,
    pub currency: Seq<u8>,
    pub group: Seq<u8>,
    pub ib_account: bool,
    pub leverage: i32,
    pub leverage_multiplier: Decimal,
    pub spread_type: Option<Seq<u8>>,
    pub trailing_stop: bool,
}

impl View for GetCurrentUserDataResponse {
    type V = GetCurrentUserDataResponseV;

    open spec fn view(&self) -> GetCurrentUserDataResponseV {
        GetCurrentUserDataResponseV {
            company_unit: self.company_unit,
            currency: self.currency@,
            group: self.group@,
            ib_account: self.ib_account,
            leverage: self.leverage,
            leverage_multiplier: self.leverage_multiplier,
            spread_type: (match self.spread_type { Some(v) => Some(v@), None => None }),
            trailing_stop: self.trailing_stop,
        }
    }
}

pub open spec fn spec_get_current_user_data_response_fields(m: GetCurrentUserDataResponseV) -> Seq<(Seq<u8>, JsonV)> {
    seq![
        (key_company_unit(), JsonV::Num(spec_dec_of_int(m.company_unit as int))),
        (key_currency(), JsonV::Str(m.currency)),
        (key_group(), JsonV::Str(m.group)),
        (key_ib_account(), JsonV::Bool(m.ib_account)),
        (key_leverage(), JsonV::Num(spec_dec_of_int(m.leverage as int))),
        (key_leverage_multiplier(), JsonV::Num(m.leverage_multiplier)),
        (key_spread_type(), (match m.spread_type { Some(v) => JsonV::Str(v), None => JsonV::Null })),
        (key_trailing_stop(), JsonV::Bool(m.trailing_stop)),
    ]
}

impl WireJson for GetCurrentUserDataResponse {
    open spec fn spec_to_json(m: GetCurrentUserDataResponseV) -> JsonV {
        JsonV::Obj(spec_get_current_user_data_response_fields(m))
    }

    open spec fn spec_from_json(j: JsonV) -> Option<GetCurrentUserDataResponseV> {
        let f_company_unit = jv_get_i32(j, key_company_unit());
        let f_currency = jv_get_str(j, key_currency());
        let f_group = jv_get_str(j, key_group());
        let f_ib_account = jv_get_bool(j, key_ib_account());
        let f_leverage = jv_get_i32(j, key_leverage());
        let f_leverage_multiplier = jv_get_dec(j, key_leverage_multiplier());
        let f_spread_type = jv_get_opt_str(j, key_spread_type());
        let f_trailing_stop = jv_get_bool(j, key_trailing_stop());
        if f_company_unit is Some && f_currency is Some && f_group is Some && f_ib_account is Some && f_leverage is Some && f_leverage_multiplier is Some && f_spread_type is Some && f_trailing_stop is Some {
            Some(GetCurrentUserDataResponseV {
                company_unit: f_company_unit->Some_0,
                currency: f_currency->Some_0,
                group: f_group->Some_0,
                ib_account: f_ib_account->Some_0,
                leverage: f_leverage->Some_0,
                leverage_multiplier: f_leverage_multiplier->Some_0,
                spread_type: f_spread_type->Some_0,
                trailing_stop: f_trailing_stop->Some_0,
            })
        } else {
            None
        }
    }

    fn to_json(&self) -> (r: Json) {
        let mut fields: Vec<(Vec<u8>, Json)> = Vec::new();
        fields.push((vec_of(kx_company_unit().as_slice()), Json::Num(Decimal::from_i64(self.company_unit as i64))));
        fields.push((vec_of(kx_currency().as_slice()), Json::Str(vec_of(self.currency.as_slice()))));
        fields.push((vec_of(kx_group().as_slice()), Json::Str(vec_of(self.group.as_slice()))));
        fields.push((vec_of(kx_ib_account().as_slice()), Json::Bool(self.ib_account)));
        fields.push((vec_of(kx_leverage().as_slice()), Json::Num(Decimal::from_i64(self.leverage as i64))));
        fields.push((vec_of(kx_leverage_multiplier().as_slice()), Json::Num(self.leverage_multiplier)));
        fields.push((vec_of(kx_spread_type().as_slice()), (match &self.spread_type { Some(v) => Json::Str(vec_of(v.as_slice())), None => Json::Null })));
        fields.push((vec_of(kx_trailing_stop().as_slice()), Json::Bool(self.trailing_stop)));
        let r = Json::Obj(fields);
        proof {
            lemma_json_view_members(r->Obj_0, 0);
            assert(json_view_members(r->Obj_0, 0) =~= spec_get_current_user_data_response_fields(self@));
        }
        r
    }

    fn from_json(j: &Json) -> (r: Option<GetCurrentUserDataResponse>) {
        let company_unit = match j.get_i32(kx_company_unit().as_slice()) {
            Some(v) => v,
            None => { return None; },
        };
        let currency = match j.get_str(kx_currency().as_slice()) {
            Some(v) => v,
            None => { return None; },
        };
        let group = match j.get_str(kx_group().as_slice()) {
            Some(v) => v,
            None => { return None; },
        };
        let ib_account = match j.get_bool(kx_ib_account().as_slice()) {
            Some(v) => v,
            None => { return None; },
        };
        let leverage = match j.get_i32(kx_leverage().as_slice()) {
            Some(v) => v,
            None => { return None; },
        };
        let leverage_multiplier = match j.get_dec(kx_leverage_multiplier().as_slice()) {
            Some(v) => v,
            None => { return None; },
        };
        let spread_type = match j.get_opt_str(kx_spread_type().as_slice()) {
            Some(v) => v,
            None => { return None; },
        };
        let trailing_stop = match j.get_bool(kx_trailing_stop().as_slice()) {
            Some(v) => v,
            None => { return None; },
        };
        Some(GetCurrentUserDataResponse {
            company_unit,
            currency,
            group,
            ib_account,
            leverage,
            leverage_multiplier,
            spread_type,
            trailing_stop,
        })
    }

    proof fn lemma_round_trip(m: GetCurrentUserDataResponseV) {
        let j = Self::spec_to_json(m);
        let fs = j->Obj_0;
        assert(key_leverage().len() != key_leverage_multiplier().len());
        assert(fs[0].0 == key_company_unit());
        assert(obj_get_from(fs, key_company_unit(), 0) == Some(fs[0].1));
        assert(fs[0].0 == key_company_unit());
        assert(fs[1].0 == key_currency());
        assert(obj_get_from(fs, key_currency(), 0) == obj_get_from(fs, key_currency(), 1));
        assert(obj_get_from(fs, key_currency(), 1) == Some(fs[1].1));
        assert(fs[0].0 == key_company_unit());
        assert(fs[1].0 == key_currency());
        assert(fs[2].0 == key_group());
        assert(obj_get_from(fs, key_group(), 0) == obj_get_from(fs, key_group(), 1));
        assert(obj_get_from(fs, key_group(), 1) == obj_get_from(fs, key_group(), 2));
        assert(obj_get_from(fs, key_group(), 2) == Some(fs[2].1));
        assert(fs[0].0 == key_company_unit());
        assert(fs[1].0 == key_currency());
        assert(fs[2].0 == key_group());
        assert(fs[3].0 == key_ib_account());
        assert(obj_get_from(fs, key_ib_account(), 0) == obj_get_from(fs, key_ib_account(), 1));
        assert(obj_get_from(fs, key_ib_account(), 1) == obj_get_from(fs, key_ib_account(), 2));
        assert(obj_get_from(fs, key_ib_account(), 2) == obj_get_from(fs, key_ib_account(), 3));
        assert(obj_get_from(fs, key_ib_account(), 3) == Some(fs[3].1));
        assert(fs[0].0 == key_company_unit());
        assert(fs[1].0 == key_currency());
        assert(fs[2].0 == key_group());
        assert(fs[3].0 == key_ib_account());
        assert(fs[4].0 == key_leverage());
        assert(key_currency() != key_leverage()) by {
            assert(key_currency()[0] != key_leverage()[0]);
        }
        assert(obj_get_from(fs, key_leverage(), 0) == obj_get_from(fs, key_leverage(), 1));
        assert(obj_get_from(fs, key_leverage(), 1) == obj_get_from(fs, key_leverage(), 2));
        assert(obj_get_from(fs, key_leverage(), 2) == obj_get_from(fs, key_leverage(), 3));
        assert(obj_get_from(fs, key_leverage(), 3) == obj_get_from(fs, key_leverage(), 4));
        assert(obj_get_from(fs, key_leverage(), 4) == Some(fs[4].1));
        assert(fs[0].0 == key_company_unit());
        assert(fs[1].0 == key_currency());
        assert(fs[2].0 == key_group());
        assert(fs[3].0 == key_ib_account());
        assert(fs[4].0 == key_leverage());
        assert(fs[5].0 == key_leverage_multiplier());
        assert(obj_get_from(fs, key_leverage_multiplier(), 0) == obj_get_from(fs, key_leverage_multiplier(), 1));
        assert(obj_get_from(fs, key_leverage_multiplier(), 1) == obj_get_from(fs, key_leverage_multiplier(), 2));
        assert(obj_get_from(fs, key_leverage_multiplier(), 2) == obj_get_from(fs, key_leverage_multiplier(), 3));
        assert(obj_get_from(fs, key_leverage_multiplier(), 3) == obj_get_from(fs, key_leverage_multiplier(), 4));
        assert(obj_get_from(fs, key_leverage_multiplier(), 4) == obj_get_from(fs, key_leverage_multiplier(), 5));
        assert(obj_get_from(fs, key_leverage_multiplier(), 5) == Some(fs[5].1));
        assert(fs[0].0 == key_company_unit());
        assert(fs[1].0 == key_currency());
        assert(fs[2].0 == key_group());
        assert(fs[3].0 == key_ib_account());
        assert(fs[4].0 == key_leverage());
        assert(fs[5].0 == key_leverage_multiplier());
        assert(fs[6].0 == key_spread_type());
        assert(obj_get_from(fs, key_spread_type(), 0) == obj_get_from(fs, key_spread_type(), 1));
        assert(obj_get_from(fs, key_spread_type(), 1) == obj_get_from(fs, key_spread_type(), 2));
        assert(obj_get_from(fs, key_spread_type(), 2) == obj_get_from(fs, key_spread_type(), 3));
        assert(obj_get_from(fs, key_spread_type(), 3) == obj_get_from(fs, key_spread_type(), 4));
        assert(obj_get_from(fs, key_spread_type(), 4) == obj_get_from(fs, key_spread_type(), 5));
        assert(obj_get_from(fs, key_spread_type(), 5) == obj_get_from(fs, key_spread_type(), 6));
        assert(obj_get_from(fs, key_spread_type(), 6) == Some(fs[6].1));
        assert(fs[0].0 == key_company_unit());
        assert(fs[1].0 == key_currency());
        assert(fs[2].0 == key_group());
        assert(fs[3].0 == key_ib_account());
        assert(fs[4].0 == key_leverage());
        assert(fs[5].0 == key_leverage_multiplier());
        assert(fs[6].0 == key_spread_type());
        assert(fs[7].0 == key_trailing_stop());
        assert(obj_get_from(fs, key_trailing_stop(), 0) == obj_get_from(fs, key_trailing_stop(), 1));
        assert(obj_get_from(fs, key_trailing_stop(), 1) == obj_get_from(fs, key_trailing_stop(), 2));
        assert(obj_get_from(fs, key_trailing_stop(), 2) == obj_get_from(fs, key_trailing_stop(), 3));
        assert(obj_get_from(fs, key_trailing_stop(), 3) == obj_get_from(fs, key_trailing_stop(), 4));
        assert(obj_get_from(fs, key_trailing_stop(), 4) == obj_get_from(fs, key_trailing_stop(), 5));
        assert(obj_get_from(fs, key_trailing_stop(), 5) == obj_get_from(fs, key_trailing_stop(), 6));
        assert(obj_get_from(fs, key_trailing_stop(), 6) == obj_get_from(fs, key_trailing_stop(), 7));
        assert(obj_get_from(fs, key_trailing_stop(), 7) == Some(fs[7].1));
    }
}

#[derive(Debug, PartialEq, Eq)]
pub struct TradeTransInfo {
    pub cmd: Cmd,
    pub custom_comment: Option<Vec<u8>>,
    pub expiration: u32,
    pub offset: u16,
    pub order: u32,
    pub price: Decimal,
    pub sl: Decimal,
    pub symbol: Vec<u8>,
    pub tp: Decimal,
    pub trans_type: Type,
    pub volume: Decimal,
}

pub struct TradeTransInfoV {
    pub cmd: Cmd,
    pub custom_comment: Option<Seq<u8>>,
    pub expiration: u32,
    pub offset: u16,
    pub order: u32,
    pub price: Decimal,
    pub sl: Decimal,
    pub symbol: Seq<u8>,
    pub tp: Decimal,
    pub trans_type: Type,
    pub volume: Decimal,
}

impl View for TradeTransInfo {
    type V = TradeTransInfoV;

    open spec fn view(&self) -> TradeTransInfoV {
        TradeTransInfoV {
            cmd: self.cmd,
            custom_comment: (match self.custom_comment { Some(v) => Some(v@), None => None }),
            expiration: self.expiration,
            offset: self.offset,
            order: self.order,
            price: self.price,
            sl: self.sl,
            symbol: self.symbol@,
            tp: self.tp,
            trans_type: self.trans_type,
            volume: self.volume,
        }
    }
}

pub open spec fn spec_trade_trans_info_fields(m: TradeTransInfoV) -> Seq<(Seq<u8>, JsonV)> {
    seq![
        (key_cmd(), JsonV::Num(spec_dec_of_int(spec_cmd_code(m.cmd) as int))),
        (key_custom_comment(), (match m.custom_comment { Some(v) => JsonV::Str(v), None => JsonV::Null })),
        (key_expiration(), JsonV::Num(spec_dec_of_int(m.expiration as int))),
        (key_offset(), JsonV::Num(spec_dec_of_int(m.offset as int))),
        (key_order(), JsonV::Num(spec_dec_of_int(m.order as int))),
        (key_price(), JsonV::Num(m.price)),
        (key_sl(), JsonV::Num(m.sl)),
        (key_symbol(), JsonV::Str(m.symbol)),
        (key_tp(), JsonV::Num(m.tp)),
        (key_type(), JsonV::Num(spec_dec_of_int(spec_type_code(m.trans_type) as int))),
        (key_volume(), JsonV::Num(m.volume)),
    ]
}

impl WireJson for TradeTransInfo {
    open spec fn spec_to_json(m: TradeTransInfoV) -> JsonV {
        JsonV::Obj(spec_trade_trans_info_fields(m))
    }

    open spec fn spec_from_json(j: JsonV) -> Option<TradeTransInfoV> {
        let f_cmd = (match jv_get_dec(j, key_cmd()) { Some(d) => spec_cmd_from_dec(d), None => None });
        let f_custom_comment = jv_get_opt_str(j, key_custom_comment());
        let f_expiration = jv_get_u32(j, key_expiration());
        let f_offset = jv_get_u16(j, key_offset());
        let f_order = jv_get_u32(j, key_order());
        let f_price = jv_get_dec(j, key_price());
        let f_sl = jv_get_dec(j, key_sl());
        let f_symbol = jv_get_str(j, key_symbol());
        let f_tp = jv_get_dec(j, key_tp());
        let f_trans_type = (match jv_get_dec(j, key_type()) { Some(d) => spec_type_from_dec(d), None => None });
        let f_volume = jv_get_dec(j, key_volume());
        if f_cmd is Some && f_custom_comment is Some && f_expiration is Some && f_offset is Some && f_order is Some && f_price is Some && f_sl is Some && f_symbol is Some && f_tp is Some && f_trans_type is Some && f_volume is Some {
            Some(TradeTransInfoV {
                cmd: f_cmd->Some_0,
                custom_comment: f_custom_comment->Some_0,
                expiration: f_expiration->Some_0,
                offset: f_offset->Some_0,
                order: f_order->Some_0,
                price: f_price->Some_0,
                sl: f_sl->Some_0,
                symbol: f_symbol->Some_0,
                tp: f_tp->Some_0,
                trans_type: f_trans_type->Some_0,
                volume: f_volume->Some_0,
            })
        } else {
            None
        }
    }

    fn to_json(&self) -> (r: Json) {
        let mut fields: Vec<(Vec<u8>, Json)> = Vec::new();
        fields.push((vec_of(kx_cmd().as_slice()), Json::Num(Decimal::from_u64(self.cmd.code()))));
        fields.push((vec_of(kx_custom_comment().as_slice()), (match &self.custom_comment { Some(v) => Json::Str(vec_of(v.as_slice())), None => Json::Null })));
        fields.push((vec_of(kx_expiration().as_slice()), Json::Num(Decimal::from_u64(self.expiration as u64))));
        fields.push((vec_of(kx_offset().as_slice()), Json::Num(Decimal::from_u64(self.offset as u64))));
        fields.push((vec_of(kx_order().as_slice()), Json::Num(Decimal::from_u64(self.order as u64))));
        fields.push((vec_of(kx_price().as_slice()), Json::Num(self.price)));
        fields.push((vec_of(kx_sl().as_slice()), Json::Num(self.sl)));
        fields.push((vec_of(kx_symbol().as_slice()), Json::Str(vec_of(self.symbol.as_slice()))));
        fields.push((vec_of(kx_tp().as_slice()), Json::Num(self.tp)));
        fields.push((vec_of(kx_type().as_slice()), Json::Num(Decimal::from_u64(self.trans_type.code()))));
        fields.push((vec_of(kx_volume().as_slice()), Json::Num(self.volume)));
        let r = Json::Obj(fields);
        proof {
            lemma_json_view_members(r->Obj_0, 0);
            assert(json_view_members(r->Obj_0, 0) =~= spec_trade_trans_info_fields(self@));
        }
        r
    }

    fn from_json(j: &Json) -> (r: Option<TradeTransInfo>) {
        let cmd = match j.get_dec(kx_cmd().as_slice()) {
            Some(d) => match Cmd::from_dec(d) {
                Some(v) => v,
                None => { return None; },
            },
            None => { return None; },
        };
        let custom_comment = match j.get_opt_str(kx_custom_comment().as_slice()) {
            Some(v) => v,
            None => { return None; },
        };
        let expiration = match j.get_u32(kx_expiration().as_slice()) {
            Some(v) => v,
            None => { return None; },
        };
        let offset = match j.get_u16(kx_offset().as_slice()) {
            Some(v) => v,
            None => { return None; },
        };
        let order = match j.get_u32(kx_order().as_slice()) {
            Some(v) => v,
            None => { return None; },
        };
        let price = match j.get_dec(kx_price().as_slice()) {
            Some(v) => v,
            None => { return None; },
        };
        let sl = match j.get_dec(kx_sl().as_slice()) {
            Some(v) => v,
            None => { return None; },
        };
        let symbol = match j.get_str(kx_symbol().as_slice()) {
            Some(v) => v,
            None => { return None; },
        };
        let tp = match j.get_dec(kx_tp().as_slice()) {
            Some(v) => v,
            None => { return None; },
        };
        let trans_type = match j.get_dec(kx_type().as_slice()) {
            Some(d) => match Type::from_dec(d) {
                Some(v) => v,
                None => { return None; },
            },
            None => { return None; },
        };
        let volume = match j.get_dec(kx_volume().as_slice()) {
            Some(v) => v,
            None => { return None; },
        };
        Some(TradeTransInfo {
            cmd,
            custom_comment,
            expiration,
            offset,
            order,
            price,
            sl,
            symbol,
            tp,
            trans_type,
            volume,
        })
    }

    proof fn lemma_round_trip(m: TradeTransInfoV) {
        let j = Self::spec_to_json(m);
        let fs = j->Obj_0;
        assert(fs[0].0 == key_cmd());
        assert(obj_get_from(fs, key_cmd(), 0) == Some(fs[0].1));
    lemma_cmd_round_trip(m.cmd);
        assert(fs[0].0 == key_cmd());
        assert(fs[1].0 == key_custom_comment());
        assert(obj_get_from(fs, key_custom_comment(), 0) == obj_get_from(fs, key_custom_comment(), 1));
        assert(obj_get_from(fs, key_custom_comment(), 1) == Some(fs[1].1));
        assert(fs[0].0 == key_cmd());
        assert(fs[1].0 == key_custom_comment());
        assert(fs[2].0 == key_expiration());
        assert(obj_get_from(fs, key_expiration(), 0) == obj_get_from(fs, key_expiration(), 1));
        assert(obj_get_from(fs, key_expiration(), 1) == obj_get_from(fs, key_expiration(), 2));
        assert(obj_get_from(fs, key_expiration(), 2) == Some(fs[2].1));
        assert(fs[0].0 == key_cmd());
        assert(fs[1].0 == key_custom_comment());
        assert(fs[2].0 == key_expiration());
        assert(fs[3].0 == key_offset());
        assert(obj_get_from(fs, key_offset(), 0) == obj_get_from(fs, key_offset(), 1));
        assert(obj_get_from(fs, key_offset(), 1) == obj_get_from(fs, key_offset(), 2));
        assert(obj_get_from(fs, key_offset(), 2) == obj_get_from(fs, key_offset(), 3));
        assert(obj_get_from(fs, key_offset(), 3) == Some(fs[3].1));
        assert(fs[0].0 == key_cmd());
        assert(fs[1].0 == key_custom_comment());
        assert(fs[2].0 == key_expiration());
        assert(fs[3].0 == key_offset());
        assert(fs[4].0 == key_order());
        assert(obj_get_from(fs, key_order(), 0) == obj_get_from(fs, key_order(), 1));
        assert(obj_get_from(fs, key_order(), 1) == obj_get_from(fs, key_order(), 2));
        assert(obj_get_from(fs, key_order(), 2) == obj_get_from(fs, key_order(), 3));
        assert(obj_get_from(fs, key_order(), 3) == obj_get_from(fs, key_order(), 4));
        assert(obj_get_from(fs, key_order(), 4) == Some(fs[4].1));
        assert(fs[0].0 == key_cmd());
        assert(fs[1].0 == key_custom_comment());
        assert(fs[2].0 == key_expiration());
        assert(fs[3].0 == key_offset());
        assert(fs[4].0 == key_order());
        assert(fs[5].0 == key_price());
        assert(key_order() != key_price()) by {
            assert(key_order()[0] != key_price()[0]);
        }
        assert(obj_get_from(fs, key_price(), 0) == obj_get_from(fs, key_price(), 1));
        assert(obj_get_from(fs, key_price(), 1) == obj_get_from(fs, key_price(), 2));
        assert(obj_get_from(fs, key_price(), 2) == obj_get_from(fs, key_price(), 3));
        assert(obj_get_from(fs, key_price(), 3) == obj_get_from(fs, key_price(), 4));
        assert(obj_get_from(fs, key_price(), 4) == obj_get_from(fs, key_price(), 5));
        assert(obj_get_from(fs, key_price(), 5) == Some(fs[5].1));
        assert(fs[0].0 == key_cmd());
        assert(fs[1].0 == key_custom_comment());
        assert(fs[2].0 == key_expiration());
        assert(fs[3].0 == key_offset());
        assert(fs[4].0 == key_order());
        assert(fs[5].0 == key_price());
        assert(fs[6].0 == key_sl());
        assert(obj_get_from(fs, key_sl(), 0) == obj_get_from(fs, key_sl(), 1));
        assert(obj_get_from(fs, key_sl(), 1) == obj_get_from(fs, key_sl(), 2));
        assert(obj_get_from(fs, key_sl(), 2) == obj_get_from(fs, key_sl(), 3));
        assert(obj_get_from(fs, key_sl(), 3) == obj_get_from(fs, key_sl(), 4));
        assert(obj_get_from(fs, key_sl(), 4) == obj_get_from(fs, key_sl(), 5));
        assert(obj_get_from(fs, key_sl(), 5) == obj_get_from(fs, key_sl(), 6));
        assert(obj_get_from(fs, key_sl(), 6) == Some(fs[6].1));
        assert(fs[0].0 == key_cmd());
        assert(fs[1].0 == key_custom_comment());
        assert(fs[2].0 == key_expiration());
        assert(fs[3].0 == key_offset());
        assert(fs[4].0 == key_order());
        assert(fs[5].0 == key_price());
        assert(fs[6].0 == key_sl());
        assert(fs[7].0 == key_symbol());
        assert(key_offset() != key_symbol()) by {
            assert(key_offset()[0] != key_symbol()[0]);
        }
        assert(obj_get_from(fs, key_symbol(), 0) == obj_get_from(fs, key_symbol(), 1));
        assert(obj_get_from(fs, key_symbol(), 1) == obj_get_from(fs, key_symbol(), 2));
        assert(obj_get_from(fs, key_symbol(), 2) == obj_get_from(fs, key_symbol(), 3));
        assert(obj_get_from(fs, key_symbol(), 3) == obj_get_from(fs, key_symbol(), 4));
        assert(obj_get_from(fs, key_symbol(), 4) == obj_get_from(fs, key_symbol(), 5));
        assert(obj_get_from(fs, key_symbol(), 5) == obj_get_from(fs, key_symbol(), 6));
        assert(obj_get_from(fs, key_symbol(), 6) == obj_get_from(fs, key_symbol(), 7));
        assert(obj_get_from(fs, key_symbol(), 7) == Some(fs[7].1));
        assert(fs[0].0 == key_cmd());
        assert(fs[1].0 == key_custom_comment());
        assert(fs[2].0 == key_expiration());
        assert(fs[3].0 == key_offset());
        assert(fs[4].0 == key_order());
        assert(fs[5].0 == key_price());
        assert(fs[6].0 == key_sl());
        assert(fs[7].0 == key_symbol());
        assert(fs[8].0 == key_tp());
        assert(key_sl() != key_tp()) by {
            assert(key_sl()[0] != key_tp()[0]);
        }
        assert(obj_get_from(fs, key_tp(), 0) == obj_get_from(fs, key_tp(), 1));
        assert(obj_get_from(fs, key_tp(), 1) == obj_get_from(fs, key_tp(), 2));
        assert(obj_get_from(fs, key_tp(), 2) == obj_get_from(fs, key_tp(), 3));
        assert(obj_get_from(fs, key_tp(), 3) == obj_get_from(fs, key_tp(), 4));
        assert(obj_get_from(fs, key_tp(), 4) == obj_get_from(fs, key_tp(), 5));
        assert(obj_get_from(fs, key_tp(), 5) == obj_get_from(fs, key_tp(), 6));
        assert(obj_get_from(fs, key_tp(), 6) == obj_get_from(fs, key_tp(), 7));
        assert(obj_get_from(fs, key_tp(), 7) == obj_get_from(fs, key_tp(), 8));
        assert(obj_get_from(fs, key_tp(), 8) == Some(fs[8].1));
        assert(fs[0].0 == key_cmd());
        assert(fs[1].0 == key_custom_comment());
        assert(fs[2].0 == key_expiration());
        assert(fs[3].0 == key_offset());
        assert(fs[4].0 == key_order());
        assert(fs[5].0 == key_price());
        assert(fs[6].0 == key_sl());
        assert(fs[7].0 == key_symbol());
        assert(fs[8].0 == key_tp());
        assert(fs[9].0 == key_type());
        assert(obj_get_from(fs, key_type(), 0) == obj_get_from(fs, key_type(), 1));
        assert(obj_get_from(fs, key_type(), 1) == obj_get_from(fs, key_type(), 2));
        assert(obj_get_from(fs, key_type(), 2) == obj_get_from(fs, key_type(), 3));
        assert(obj_get_from(fs, key_type(), 3) == obj_get_from(fs, key_type(), 4));
        assert(obj_get_from(fs, key_type(), 4) == obj_get_from(fs, key_type(), 5));
        assert(obj_get_from(fs, key_type(), 5) == obj_get_from(fs, key_type(), 6));
        assert(obj_get_from(fs, key_type(), 6) == obj_get_from(fs, key_type(), 7));
        assert(obj_get_from(fs, key_type(), 7) == obj_get_from(fs, key_type(), 8));
        assert(obj_get_from(fs, key_type(), 8) == obj_get_from(fs, key_type(), 9));
        assert(obj_get_from(fs, key_type(), 9) == Some(fs[9].1));
    lemma_type_round_trip(m.trans_type);
        assert(fs[0].0 == key_cmd());
        assert(fs[1].0 == key_custom_comment());
        assert(fs[2].0 == key_expiration());
        assert(fs[3].0 == key_offset());
        assert(fs[4].0 == key_order());
        assert(fs[5].0 == key_price());
        assert(fs[6].0 == key_sl());
        assert(fs[7].0 == key_symbol());
        assert(fs[8].0 == key_tp());
        assert(fs[9].0 == key_type());
        assert(fs[10].0 == key_volume());
        assert(key_offset() != key_volume()) by {
            assert(key_offset()[0] != key_volume()[0]);
        }
        assert(key_symbol() != key_volume()) by {
            assert(key_symbol()[0] != key_volume()[0]);
        }
        assert(obj_get_from(fs, key_volume(), 0) == obj_get_from(fs, key_volume(), 1));
        assert(obj_get_from(fs, key_volume(), 1) == obj_get_from(fs, key_volume(), 2));
        assert(obj_get_from(fs, key_volume(), 2) == obj_get_from(fs, key_volume(), 3));
        assert(obj_get_from(fs, key_volume(), 3) == obj_get_from(fs, key_volume(), 4));
        assert(obj_get_from(fs, key_volume(), 4) == obj_get_from(fs, key_volume(), 5));
        assert(obj_get_from(fs, key_volume(), 5) == obj_get_from(fs, key_volume(), 6));
        assert(obj_get_from(fs, key_volume(), 6) == obj_get_from(fs, key_volume(), 7));
        assert(obj_get_from(fs, key_volume(), 7) == obj_get_from(fs, key_volume(), 8));
        assert(obj_get_from(fs, key_volume(), 8) == obj_get_from(fs, key_volume(), 9));
        assert(obj_get_from(fs, key_volume(), 9) == obj_get_from(fs, key_volume(), 10));
        assert(obj_get_from(fs, key_volume(), 10) == Some(fs[10].1));
    }
}

#[derive(Debug, PartialEq, Eq)]
pub struct TradeTransaction {
    pub trade_trans_info: TradeTransInfo,
}

pub struct TradeTransactionV {
    pub trade_trans_info: TradeTransInfoV,
}

impl View for TradeTransaction {
    type V = TradeTransactionV;

    open spec fn view(&self) -> TradeTransactionV {
        TradeTransactionV {
            trade_trans_info: self.trade_trans_info@,
        }
    }
}

pub open spec fn spec_trade_transaction_fields(m: TradeTransactionV) -> Seq<(Seq<u8>, JsonV)> {
    seq![
        (key_trade_trans_info(), <TradeTransInfo as WireJson>::spec_to_json(m.trade_trans_info)),
    ]
}

impl WireJson for TradeTransaction {
    open spec fn spec_to_json(m: TradeTransactionV) -> JsonV {
        JsonV::Obj(spec_trade_transaction_fields(m))
    }

    open spec fn spec_from_json(j: JsonV) -> Option<TradeTransactionV> {
        let f_trade_trans_info = (match jv_get(j, key_trade_trans_info()) { Some(x) => <TradeTransInfo as WireJson>::spec_from_json(x), None => None });
        if f_trade_trans_info is Some {
            Some(TradeTransactionV {
                trade_trans_info: f_trade_trans_info->Some_0,
            })
        } else {
            None
        }
    }

    fn to_json(&self) -> (r: Json) {
        let mut fields: Vec<(Vec<u8>, Json)> = Vec::new();
        fields.push((vec_of(kx_trade_trans_info().as_slice()), self.trade_trans_info.to_json()));
        let r = Json::Obj(fields);
        proof {
            lemma_json_view_members(r->Obj_0, 0);
            assert(json_view_members(r->Obj_0, 0) =~= spec_trade_transaction_fields(self@));
        }
        r
    }

    fn from_json(j: &Json) -> (r: Option<TradeTransaction>) {
        let trade_trans_info = match j.get(kx_trade_trans_info().as_slice()) {
            Some(x) => match TradeTransInfo::from_json(x) {
                Some(v) => v,
                None => { return None; },
            },
            None => { return None; },
        };
        Some(TradeTransaction {
            trade_trans_info,
        })
    }

    proof fn lemma_round_trip(m: TradeTransactionV) {
        let j = Self::spec_to_json(m);
        let fs = j->Obj_0;
        assert(fs[0].0 == key_trade_trans_info());
        assert(obj_get_from(fs, key_trade_trans_info(), 0) == Some(fs[0].1));
    <TradeTransInfo as WireJson>::lemma_round_trip(m.trade_trans_info);
    }
}

#[derive(Debug, PartialEq, Eq)]
pub struct TradeTransactionResponse {
    pub order: u32,
}

pub struct TradeTransactionResponseV {
    pub order: u32,
}

impl View for TradeTransactionResponse {
    type V = TradeTransactionResponseV;

    open spec fn view(&self) -> TradeTransactionResponseV {
        TradeTransactionResponseV {
            order: self.order,
        }
    }
}

pub open spec fn spec_trade_transaction_response_fields(m: TradeTransactionResponseV) -> Seq<(Seq<u8>, JsonV)> {
    seq![
        (key_order(), JsonV::Num(spec_dec_of_int(m.order as int))),
    ]
}

impl WireJson for TradeTransactionResponse {
    open spec fn spec_to_json(m: TradeTransactionResponseV) -> JsonV {
        JsonV::Obj(spec_trade_transaction_response_fields(m))
    }

    open spec fn spec_from_json(j: JsonV) -> Option<TradeTransactionResponseV> {
        let f_order = jv_get_u32(j, key_order());
        if f_order is Some {
            Some(TradeTransactionResponseV {
                order: f_order->Some_0,
            })
        } else {
            None
        }
    }

    fn to_json(&self) -> (r: Json) {
        let mut fields: Vec<(Vec<u8>, Json)> = Vec::new();
        fields.push((vec_of(kx_order().as_slice()), Json::Num(Decimal::from_u64(self.order as u64))));
        let r = Json::Obj(fields);
        proof {
            lemma_json_view_members(r->Obj_0, 0);
            assert(json_view_members(r->Obj_0, 0) =~= spec_trade_transaction_response_fields(self@));
        }
        r
    }

    fn from_json(j: &Json) -> (r: Option<TradeTransactionResponse>) {
        let order = match j.get_u32(kx_order().as_slice()) {
            Some(v) => v,
            None => { return None; },
        };
        Some(TradeTransactionResponse {
            order,
        })
    }

    proof fn lemma_round_trip(m: TradeTransactionResponseV) {
        let j = Self::spec_to_json(m);
        let fs = j->Obj_0;
        assert(fs[0].0 == key_order());
        assert(obj_get_from(fs, key_order(), 0) == Some(fs[0].1));
    }
}

#[derive(Debug, PartialEq, Eq)]
pub struct TradeTransactionStatus {
    pub order: u32,
}

pub struct TradeTransactionStatusV {
    pub order: u32,
}

impl View for TradeTransactionStatus {
    type V = TradeTransactionStatusV;

    open spec fn view(&self) -> TradeTransactionStatusV {
        TradeTransactionStatusV {
            order: self.order,
        }
    }
}

pub open spec fn spec_trade_transaction_status_fields(m: TradeTransactionStatusV) -> Seq<(Seq<u8>, JsonV)> {
    seq![
        (key_order(), JsonV::Num(spec_dec_of_int(m.order as int))),
    ]
}

impl WireJson for TradeTransactionStatus {
    open spec fn spec_to_json(m: TradeTransactionStatusV) -> JsonV {
        JsonV::Obj(spec_trade_transaction_status_fields(m))
    }

    open spec fn spec_from_json(j: JsonV) -> Option<TradeTransactionStatusV> {
        let f_order = jv_get_u32(j, key_order());
        if f_order is Some {
            Some(TradeTransactionStatusV {
                order: f_order->Some_0,
            })
        } else {
            None
        }
    }

    fn to_json(&self) -> (r: Json) {
        let mut fields: Vec<(Vec<u8>, Json)> = Vec::new();
        fields.push((vec_of(kx_order().as_slice()), Json::Num(Decimal::from_u64(self.order as u64))));
        let r = Json::Obj(fields);
        proof {
            lemma_json_view_members(r->Obj_0, 0);
            assert(json_view_members(r->Obj_0, 0) =~= spec_trade_transaction_status_fields(self@));
        }
        r
    }

    fn from_json(j: &Json) -> (r: Option<TradeTransactionStatus>) {
        let order = match j.get_u32(kx_order().as_slice()) {
            Some(v) => v,
            None => { return None; },
        };
        Some(TradeTransactionStatus {
            order,
        })
    }

    proof fn lemma_round_trip(m: TradeTransactionStatusV) {
        let j = Self::spec_to_json(m);
        let fs = j->Obj_0;
        assert(fs[0].0 == key_order());
        assert(obj_get_from(fs, key_order(), 0) == Some(fs[0].1));
    }
}

#[derive(Debug, PartialEq, Eq)]
pub struct TradeTransactionStatusResponse {
    pub ask: Decimal,
    pub bid: Decimal,
    pub custom_comment: Option<Vec<u8>>,
    pub message: Option<Vec<u8>>,
    pub order: u32,
    pub request_status: RequestStatus,
}

pub struct TradeTransactionStatusResponseV {
    pub ask: Decimal,
    pub bid: Decimal,
    pub custom_comment: Option<Seq<u8>>,
    pub message: Option<Seq<u8>>,
    pub order: u32,
    pub request_status: RequestStatus,
}

impl View for TradeTransactionStatusResponse {
    type V = TradeTransactionStatusResponseV;

    open spec fn view(&self) -> TradeTransactionStatusResponseV {
        TradeTransactionStatusResponseV {
            ask: self.ask,
            bid: self.bid,
            custom_comment: (match self.custom_comment { Some(v) => Some(v@), None => None }),
            message: (match self.message { Some(v) => Some(v@), None => None }),
            order: self.order,
            request_status: self.request_status,
        }
    }
}

pub open spec fn spec_trade_transaction_status_response_fields(m: TradeTransactionStatusResponseV) -> Seq<(Seq<u8>, JsonV)> {
    seq![
        (key_ask(), JsonV::Num(m.ask)),
        (key_bid(), JsonV::Num(m.bid)),
        (key_custom_comment(), (match m.custom_comment { Some(v) => JsonV::Str(v), None => JsonV::Null })),
        (key_message(), (match m.message { Some(v) => JsonV::Str(v), None => JsonV::Null })),
        (key_order(), JsonV::Num(spec_dec_of_int(m.order as int))),
        (key_request_status(), JsonV::Num(spec_dec_of_int(spec_request_status_code(m.request_status) as int))),
    ]
}

impl WireJson for TradeTransactionStatusResponse {
    open spec fn spec_to_json(m: TradeTransactionStatusResponseV) -> JsonV {
        JsonV::Obj(spec_trade_transaction_status_response_fields(m))
    }

    open spec fn spec_from_json(j: JsonV) -> Option<TradeTransactionStatusResponseV> {
        let f_ask = jv_get_dec(j, key_ask());
        let f_bid = jv_get_dec(j, key_bid());
        let f_custom_comment = jv_get_opt_str(j, key_custom_comment());
        let f_message = jv_get_opt_str(j, key_message());
        let f_order = jv_get_u32(j, key_order());
        let f_request_status = (match jv_get_dec(j, key_request_status()) { Some(d) => spec_request_status_from_dec(d), None => None });
        if f_ask is Some && f_bid is Some && f_custom_comment is Some && f_message is Some && f_order is Some && f_request_status is Some {
            Some(TradeTransactionStatusResponseV {
                ask: f_ask->Some_0,
                bid: f_bid->Some_0,
                custom_comment: f_custom_comment->Some_0,
                message: f_message->Some_0,
                order: f_order->Some_0,
                request_status: f_request_status->Some_0,
            })
        } else {
            None
        }
    }

    fn to_json(&self) -> (r: Json) {
        let mut fields: Vec<(Vec<u8>, Json)> = Vec::new();
        fields.push((vec_of(kx_ask().as_slice()), Json::Num(self.ask)));
        fields.push((vec_of(kx_bid().as_slice()), Json::Num(self.bid)));
        fields.push((vec_of(kx_custom_comment().as_slice()), (match &self.custom_comment { Some(v) => Json::Str(vec_of(v.as_slice())), None => Json::Null })));
        fields.push((vec_of(kx_message().as_slice()), (match &self.message { Some(v) => Json::Str(vec_of(v.as_slice())), None => Json::Null })));
        fields.push((vec_of(kx_order().as_slice()), Json::Num(Decimal::from_u64(self.order as u64))));
        fields.push((vec_of(kx_request_status().as_slice()), Json::Num(Decimal::from_u64(self.request_status.code()))));
        let r = Json::Obj(fields);
        proof {
            lemma_json_view_members(r->Obj_0, 0);
            assert(json_view_members(r->Obj_0, 0) =~= spec_trade_transaction_status_response_fields(self@));
        }
        r
    }

    fn from_json(j: &Json) -> (r: Option<TradeTransactionStatusResponse>) {
        let ask = match j.get_dec(kx_ask().as_slice()) {
            Some(v) => v,
            None => { return None; },
        };
        let bid = match j.get_dec(kx_bid().as_slice()) {
            Some(v) => v,
            None => { return None; },
        };
        let custom_comment = match j.get_opt_str(kx_custom_comment().as_slice()) {
            Some(v) => v,
            None => { return None; },
        };
        let message = match j.get_opt_str(kx_message().as_slice()) {
            Some(v) => v,
            None => { return None; },
        };
        let order = match j.get_u32(kx_order().as_slice()) {
            Some(v) => v,
            None => { return None; },
        };
        let request_status = match j.get_dec(kx_request_status().as_slice()) {
            Some(d) => match RequestStatus::from_dec(d) {
                Some(v) => v,
                None => { return None; },
            },
            None => { return None; },
        };
        Some(TradeTransactionStatusResponse {
            ask,
            bid,
            custom_comment,
            message,
            order,
            request_status,
        })
    }

    proof fn lemma_round_trip(m: TradeTransactionStatusResponseV) {
        let j = Self::spec_to_json(m);
        let fs = j->Obj_0;
        assert(fs[0].0 == key_ask());
        assert(obj_get_from(fs, key_ask(), 0) == Some(fs[0].1));
        assert(fs[0].0 == key_ask());
        assert(fs[1].0 == key_bid());
        assert(key_ask() != key_bid()) by {
            assert(key_ask()[0] != key_bid()[0]);
        }
        assert(obj_get_from(fs, key_bid(), 0) == obj_get_from(fs, key_bid(), 1));
        assert(obj_get_from(fs, key_bid(), 1) == Some(fs[1].1));
        assert(fs[0].0 == key_ask());
        assert(fs[1].0 == key_bid());
        assert(fs[2].0 == key_custom_comment());
        assert(obj_get_from(fs, key_custom_comment(), 0) == obj_get_from(fs, key_custom_comment(), 1));
        assert(obj_get_from(fs, key_custom_comment(), 1) == obj_get_from(fs, key_custom_comment(), 2));
        assert(obj_get_from(fs, key_custom_comment(), 2) == Some(fs[2].1));
        assert(fs[0].0 == key_ask());
        assert(fs[1].0 == key_bid());
        assert(fs[2].0 == key_custom_comment());
        assert(fs[3].0 == key_message());
        assert(obj_get_from(fs, key_message(), 0) == obj_get_from(fs, key_message(), 1));
        assert(obj_get_from(fs, key_message(), 1) == obj_get_from(fs, key_message(), 2));
        assert(obj_get_from(fs, key_message(), 2) == obj_get_from(fs, key_message(), 3));
        assert(obj_get_from(fs, key_message(), 3) == Some(fs[3].1));
        assert(fs[0].0 == key_ask());
        assert(fs[1].0 == key_bid());
        assert(fs[2].0 == key_custom_comment());
        assert(fs[3].0 == key_message());
        assert(fs[4].0 == key_order());
        assert(obj_get_from(fs, key_order(), 0) == obj_get_from(fs, key_order(), 1));
        assert(obj_get_from(fs, key_order(), 1) == obj_get_from(fs, key_order(), 2));
        assert(obj_get_from(fs, key_order(), 2) == obj_get_from(fs, key_order(), 3));
        assert(obj_get_from(fs, key_order(), 3) == obj_get_from(fs, key_order(), 4));
        assert(obj_get_from(fs, key_order(), 4) == Some(fs[4].1));
        assert(fs[0].0 == key_ask());
        assert(fs[1].0 == key_bid());
        assert(fs[2].0 == key_custom_comment());
        assert(fs[3].0 == key_message());
        assert(fs[4].0 == key_order());
        assert(fs[5].0 == key_request_status());
        assert(key_custom_comment() != key_request_status()) by {
            assert(key_custom_comment()[0] != key_request_status()[0]);
        }
        assert(obj_get_from(fs, key_request_status(), 0) == obj_get_from(fs, key_request_status(), 1));
        assert(obj_get_from(fs, key_request_status(), 1) == obj_get_from(fs, key_request_status(), 2));
        assert(obj_get_from(fs, key_request_status(), 2) == obj_get_from(fs, key_request_status(), 3));
        assert(obj_get_from(fs, key_request_status(), 3) == obj_get_from(fs, key_request_status(), 4));
        assert(obj_get_from(fs, key_request_status(), 4) == obj_get_from(fs, key_request_status(), 5));
        assert(obj_get_from(fs, key_request_status(), 5) == Some(fs[5].1));
    lemma_request_status_round_trip(m.request_status);
    }
}

/// "rateInfos"
pub open spec fn key_rate_infos() -> Seq<u8> {
    seq![0x72u8, 0x61u8, 0x74u8, 0x65u8, 0x49u8, 0x6eu8, 0x66u8, 0x6fu8, 0x73u8]
}

fn kx_rate_infos() -> (r: [u8; 9])
    ensures
        r@ == key_rate_infos(),
{
    let a: [u8; 9] = [0x72, 0x61, 0x74, 0x65, 0x49, 0x6e, 0x66, 0x6f, 0x73];
    proof {
        assert(a@ =~= key_rate_infos());
    }
    a
}

/// The JSON trees of a run of rate records, from index `i` on.
pub open spec fn spec_rate_infos_to_json(s: Seq<GetChartLastRateInfoV>, i: int) -> Seq<JsonV>
    decreases s.len() - i,
{
    if i < 0 || i >= s.len() {
        Seq::empty()
    } else {
        seq![<GetChartLastRateInfo as WireJson>::spec_to_json(s[i])] + spec_rate_infos_to_json(
            s,
            i + 1,
        )
    }
}

/// The rate records a run of JSON trees holds, from index `i` on; any one
/// record failing fails the whole read.
pub open spec fn spec_rate_infos_from_json(s: Seq<JsonV>, i: int) -> Option<
    Seq<GetChartLastRateInfoV>,
>
    decreases s.len() - i,
{
    if i < 0 || i >= s.len() {
        Some(Seq::empty())
    } else {
        match <GetChartLastRateInfo as WireJson>::spec_from_json(s[i]) {
            None => None,
            Some(v) => match spec_rate_infos_from_json(s, i + 1) {
                None => None,
                Some(rest) => Some(seq![v] + rest),
            },
        }
    }
}

proof fn lemma_rate_infos_to_pointwise(s: Seq<GetChartLastRateInfoV>, i: int)
    requires
        0 <= i <= s.len(),
    ensures
        spec_rate_infos_to_json(s, i).len() == s.len() - i,
        forall|k: int|
            0 <= k < s.len() - i ==> #[trigger] spec_rate_infos_to_json(s, i)[k]
                == <GetChartLastRateInfo as WireJson>::spec_to_json(s[i + k]),
    decreases s.len() - i,
{
    if i < s.len() {
        lemma_rate_infos_to_pointwise(s, i + 1);
    }
}

proof fn lemma_rate_infos_from_all(s: Seq<JsonV>, i: int)
    requires
        0 <= i <= s.len(),
        forall|k: int|
            i <= k < s.len() ==> (#[trigger] <GetChartLastRateInfo as WireJson>::spec_from_json(
                s[k],
            )) is Some,
    ensures
        spec_rate_infos_from_json(s, i) matches Some(out) && out.len() == s.len() - i && (forall|
            k: int,
        |
            0 <= k < s.len() - i ==> #[trigger] out[k]
                == <GetChartLastRateInfo as WireJson>::spec_from_json(s[i + k])->Some_0),
    decreases s.len() - i,
{
    if i < s.len() {
        lemma_rate_infos_from_all(s, i + 1);
    }
}

proof fn lemma_rate_infos_from_none(s: Seq<JsonV>, j: int, i: int)
    requires
        0 <= j <= i < s.len(),
        <GetChartLastRateInfo as WireJson>::spec_from_json(s[i]) is None,
    ensures
        spec_rate_infos_from_json(s, j) is None,
    decreases i - j,
{
    if j < i {
        lemma_rate_infos_from_none(s, j + 1, i);
    }
}

/// A full chart answer: the digit count and the run of rate records.
#[derive(Debug, PartialEq, Eq)]
pub struct GetChartLastResponse {
    pub digits: u16,
    pub rate_infos: Vec<GetChartLastRateInfo>,
}

pub struct GetChartLastResponseV {
    pub digits: u16,
    pub rate_infos: Seq<GetChartLastRateInfoV>,
}

impl View for GetChartLastResponse {
    type V = GetChartLastResponseV;

    open spec fn view(&self) -> GetChartLastResponseV {
        GetChartLastResponseV {
            digits: self.digits,
            rate_infos: Seq::new(self.rate_infos@.len(), |i: int| self.rate_infos@[i]@),
        }
    }
}

pub open spec fn spec_get_chart_last_response_fields(m: GetChartLastResponseV) -> Seq<
    (Seq<u8>, JsonV),
> {
    seq![
        (key_digits(), JsonV::Num(spec_dec_of_int(m.digits as int))),
        (key_rate_infos(), JsonV::Arr(spec_rate_infos_to_json(m.rate_infos, 0))),
    ]
}

impl WireJson for GetChartLastResponse {
    open spec fn spec_to_json(m: GetChartLastResponseV) -> JsonV {
        JsonV::Obj(spec_get_chart_last_response_fields(m))
    }

    open spec fn spec_from_json(j: JsonV) -> Option<GetChartLastResponseV> {
        let f_digits = jv_get_u16(j, key_digits());
        let f_rate_infos = match jv_get(j, key_rate_infos()) {
            Some(JsonV::Arr(items)) => spec_rate_infos_from_json(items, 0),
            _ => None,
        };
        if f_digits is Some && f_rate_infos is Some {
            Some(
                GetChartLastResponseV {
                    digits: f_digits->Some_0,
                    rate_infos: f_rate_infos->Some_0,
                },
            )
        } else {
            None
        }
    }

    fn to_json(&self) -> (r: Json) {
        let ghost mv = self@;
        let mut items: Vec<Json> = Vec::new();
        proof {
            lemma_rate_infos_to_pointwise(mv.rate_infos, 0);
        }
        let mut i: usize = 0;
        while i < self.rate_infos.len()
            invariant
                i <= self.rate_infos@.len(),
                mv == self@,
                mv.rate_infos.len() == self.rate_infos@.len(),
                forall|k: int|
                    0 <= k < self.rate_infos@.len() ==> #[trigger] mv.rate_infos[k]
                        == self.rate_infos@[k]@,
                items@.len() == i,
                forall|k: int|
                    0 <= k < i ==> #[trigger] items@[k]@
                        == <GetChartLastRateInfo as WireJson>::spec_to_json(mv.rate_infos[k]),
            decreases self.rate_infos@.len() - i,
        {
            items.push(self.rate_infos[i].to_json());
            i = i + 1;
        }
        proof {
            crate::json::lemma_json_view_items(items, 0);
            lemma_rate_infos_to_pointwise(mv.rate_infos, 0);
            assert(crate::json::json_view_items(items, 0).len() == spec_rate_infos_to_json(
                mv.rate_infos,
                0,
            ).len());
            assert forall|k: int| 0 <= k < items@.len() implies crate::json::json_view_items(
                items,
                0,
            )[k] == spec_rate_infos_to_json(mv.rate_infos, 0)[k] by {
                assert(crate::json::json_view_items(items, 0)[k] == crate::json::json_view(
                    items@[0 + k],
                ));
                assert(items@[k]@ == <GetChartLastRateInfo as WireJson>::spec_to_json(
                    mv.rate_infos[k],
                ));
                assert(spec_rate_infos_to_json(mv.rate_infos, 0)[k]
                    == <GetChartLastRateInfo as WireJson>::spec_to_json(mv.rate_infos[0 + k]));
            }
            assert(crate::json::json_view_items(items, 0) =~= spec_rate_infos_to_json(
                mv.rate_infos,
                0,
            ));
        }
        let mut fields: Vec<(Vec<u8>, Json)> = Vec::new();
        fields.push(
            (vec_of(kx_digits().as_slice()), Json::Num(Decimal::from_u64(self.digits as u64))),
        );
        fields.push((vec_of(kx_rate_infos().as_slice()), Json::Arr(items)));
        let r = Json::Obj(fields);
        proof {
            lemma_json_view_members(r->Obj_0, 0);
            assert(json_view_members(r->Obj_0, 0) =~= spec_get_chart_last_response_fields(self@));
        }
        r
    }

    fn from_json(j: &Json) -> (r: Option<GetChartLastResponse>) {
        let digits = match j.get_u16(kx_digits().as_slice()) {
            Some(v) => v,
            None => {
                return None;
            },
        };
        let arr = match j.get(kx_rate_infos().as_slice()) {
            Some(x) => x,
            None => {
                return None;
            },
        };
        match arr {
            Json::Arr(items) => {
                let ghost itemsv = arr@->Arr_0;
                proof {
                    crate::json::lemma_json_view_items(*items, 0);
                }
                let mut out: Vec<GetChartLastRateInfo> = Vec::new();
                let mut i: usize = 0;
                while i < items.len()
                    invariant
                        i <= items@.len(),
                        *arr == Json::Arr(*items),
                        itemsv == arr@->Arr_0,
                        itemsv == crate::json::json_view_items(*items, 0),
                        itemsv.len() == items@.len(),
                        forall|k: int|
                            0 <= k < items@.len() ==> #[trigger] itemsv[k] == items@[k]@,
                        jv_get(j@, key_rate_infos()) == Some(JsonV::Arr(itemsv)),
                        out@.len() == i,
                        forall|k: int|
                            0 <= k < i ==> ((
                            #[trigger] <GetChartLastRateInfo as WireJson>::spec_from_json(
                                itemsv[k],
                            )) matches Some(v) && out@[k]@ == v),
                    decreases items@.len() - i,
                {
                    match GetChartLastRateInfo::from_json(&items[i]) {
                        Some(v) => {
                            out.push(v);
                        },
                        None => {
                            proof {
                                lemma_rate_infos_from_none(itemsv, 0, i as int);
                                assert(spec_rate_infos_from_json(itemsv, 0) is None);
                                assert(jv_get(j@, key_rate_infos()) == Some(JsonV::Arr(itemsv)));
                                assert(Self::spec_from_json(j@) is None);
                            }
                            return None;
                        },
                    }
                    i = i + 1;
                }
                proof {
                    lemma_rate_infos_from_all(itemsv, 0);
                    let outv = spec_rate_infos_from_json(itemsv, 0)->Some_0;
                    assert(Seq::new(out@.len(), |k: int| out@[k]@) =~= outv);
                }
                Some(GetChartLastResponse { digits, rate_infos: out })
            },
            _ => None,
        }
    }

    proof fn lemma_round_trip(m: GetChartLastResponseV) {
        let j = Self::spec_to_json(m);
        let fs = j->Obj_0;
        assert(fs[0].0 == key_digits());
        assert(obj_get_from(fs, key_digits(), 0) == Some(fs[0].1));
        assert(fs[1].0 == key_rate_infos());
        assert(obj_get_from(fs, key_rate_infos(), 0) == obj_get_from(fs, key_rate_infos(), 1));
        assert(obj_get_from(fs, key_rate_infos(), 1) == Some(fs[1].1));
        let items = spec_rate_infos_to_json(m.rate_infos, 0);
        lemma_rate_infos_to_pointwise(m.rate_infos, 0);
        assert forall|k: int| 0 <= k < items.len() implies (
        #[trigger] <GetChartLastRateInfo as WireJson>::spec_from_json(items[k])) is Some by {
            <GetChartLastRateInfo as WireJson>::lemma_round_trip(m.rate_infos[k]);
        }
        lemma_rate_infos_from_all(items, 0);
        let out = spec_rate_infos_from_json(items, 0)->Some_0;
        assert forall|k: int| 0 <= k < out.len() implies #[trigger] out[k] == m.rate_infos[k] by {
            <GetChartLastRateInfo as WireJson>::lemma_round_trip(m.rate_infos[k]);
        }
        assert(out =~= m.rate_infos);
    }
}

/// One command of the request/response channel: exactly one variant is
/// active, and its wire text is `{"command": tag, "arguments": payload}`.
#[derive(Debug, PartialEq, Eq)]
pub enum Request {
    Login(LoginRequest),
    Logout(LogoutRequest),
    GetMarginTrade(GetMarginTradeRequest),
    GetChartLastRequest(GetChartLastRequest),
    GetSymbol(GetSymbol),
    GetCommissionDef(GetCommissionDef),
    GetCurrentUserData(GetCurrentUserData),
    TradeTransaction(TradeTransaction),
    TradeTransactionStatus(TradeTransactionStatus),
    GetServerTime(GetServerTime),
}

pub enum RequestV {
    Login(LoginRequestV),
    Logout(LogoutRequestV),
    GetMarginTrade(GetMarginTradeRequestV),
    GetChartLastRequest(GetChartLastRequestV),
    GetSymbol(GetSymbolV),
    GetCommissionDef(GetCommissionDefV),
    GetCurrentUserData(GetCurrentUserDataV),
    TradeTransaction(TradeTransactionV),
    TradeTransactionStatus(TradeTransactionStatusV),
    GetServerTime(GetServerTimeV),
}

impl View for Request {
    type V = RequestV;

    open spec fn view(&self) -> RequestV {
        match self {
            Request::Login(x) => RequestV::Login(x@),
            Request::Logout(x) => RequestV::Logout(x@),
            Request::GetMarginTrade(x) => RequestV::GetMarginTrade(x@),
            Request::GetChartLastRequest(x) => RequestV::GetChartLastRequest(x@),
            Request::GetSymbol(x) => RequestV::GetSymbol(x@),
            Request::GetCommissionDef(x) => RequestV::GetCommissionDef(x@),
            Request::GetCurrentUserData(x) => RequestV::GetCurrentUserData(x@),
            Request::TradeTransaction(x) => RequestV::TradeTransaction(x@),
            Request::TradeTransactionStatus(x) => RequestV::TradeTransactionStatus(x@),
            Request::GetServerTime(x) => RequestV::GetServerTime(x@),
        }
    }
}

/// The wire tag of a command.
pub open spec fn spec_request_tag(m: RequestV) -> Seq<u8> {
    match m {
        RequestV::Login(_) => tag_login(),
        RequestV::Logout(_) => tag_logout(),
        RequestV::GetMarginTrade(_) => tag_get_margin_trade(),
        RequestV::GetChartLastRequest(_) => tag_get_chart_last_request(),
        RequestV::GetSymbol(_) => tag_get_symbol(),
        RequestV::GetCommissionDef(_) => tag_get_commission_def(),
        RequestV::GetCurrentUserData(_) => tag_get_current_user_data(),
        RequestV::TradeTransaction(_) => tag_trade_transaction(),
        RequestV::TradeTransactionStatus(_) => tag_trade_transaction_status(),
        RequestV::GetServerTime(_) => tag_get_server_time(),
    }
}

/// The JSON tree of a command's payload.
pub open spec fn spec_request_payload_json(m: RequestV) -> JsonV {
    match m {
        RequestV::Login(x) => <LoginRequest as WireJson>::spec_to_json(x),
        RequestV::Logout(x) => <LogoutRequest as WireJson>::spec_to_json(x),
        RequestV::GetMarginTrade(x) => <GetMarginTradeRequest as WireJson>::spec_to_json(x),
        RequestV::GetChartLastRequest(x) => <GetChartLastRequest as WireJson>::spec_to_json(x),
        RequestV::GetSymbol(x) => <GetSymbol as WireJson>::spec_to_json(x),
        RequestV::GetCommissionDef(x) => <GetCommissionDef as WireJson>::spec_to_json(x),
        RequestV::GetCurrentUserData(x) => <GetCurrentUserData as WireJson>::spec_to_json(x),
        RequestV::TradeTransaction(x) => <TradeTransaction as WireJson>::spec_to_json(x),
        RequestV::TradeTransactionStatus(x) => <TradeTransactionStatus as WireJson>::spec_to_json(
            x,
        ),
        RequestV::GetServerTime(x) => <GetServerTime as WireJson>::spec_to_json(x),
    }
}

impl WireJson for Request {
    open spec fn spec_to_json(m: RequestV) -> JsonV {
        JsonV::Obj(
            seq![
                (key_command(), JsonV::Str(spec_request_tag(m))),
                (key_arguments(), spec_request_payload_json(m)),
            ],
        )
    }

    open spec fn spec_from_json(j: JsonV) -> Option<RequestV> {
        match (jv_get_str(j, key_command()), jv_get(j, key_arguments())) {
            (Some(tag), Some(args)) => {
                if tag == tag_login() {
                    match <LoginRequest as WireJson>::spec_from_json(args) {
                        Some(x) => Some(RequestV::Login(x)),
                        None => None,
                    }
                } else if tag == tag_logout() {
                    match <LogoutRequest as WireJson>::spec_from_json(args) {
                        Some(x) => Some(RequestV::Logout(x)),
                        None => None,
                    }
                } else if tag == tag_get_margin_trade() {
                    match <GetMarginTradeRequest as WireJson>::spec_from_json(args) {
                        Some(x) => Some(RequestV::GetMarginTrade(x)),
                        None => None,
                    }
                } else if tag == tag_get_chart_last_request() {
                    match <GetChartLastRequest as WireJson>::spec_from_json(args) {
                        Some(x) => Some(RequestV::GetChartLastRequest(x)),
                        None => None,
                    }
                } else if tag == tag_get_symbol() {
                    match <GetSymbol as WireJson>::spec_from_json(args) {
                        Some(x) => Some(RequestV::GetSymbol(x)),
                        None => None,
                    }
                } else if tag == tag_get_commission_def() {
                    match <GetCommissionDef as WireJson>::spec_from_json(args) {
                        Some(x) => Some(RequestV::GetCommissionDef(x)),
                        None => None,
                    }
                } else if tag == tag_get_current_user_data() {
                    match <GetCurrentUserData as WireJson>::spec_from_json(args) {
                        Some(x) => Some(RequestV::GetCurrentUserData(x)),
                        None => None,
                    }
                } else if tag == tag_trade_transaction() {
                    match <TradeTransaction as WireJson>::spec_from_json(args) {
                        Some(x) => Some(RequestV::TradeTransaction(x)),
                        None => None,
                    }
                } else if tag == tag_trade_transaction_status() {
                    match <TradeTransactionStatus as WireJson>::spec_from_json(args) {
                        Some(x) => Some(RequestV::TradeTransactionStatus(x)),
                        None => None,
                    }
                } else if tag == tag_get_server_time() {
                    match <GetServerTime as WireJson>::spec_from_json(args) {
                        Some(x) => Some(RequestV::GetServerTime(x)),
                        None => None,
                    }
                } else {
                    None
                }
            },
            _ => None,
        }
    }

    fn to_json(&self) -> (r: Json) {
        let tagv: Vec<u8> = match self {
            Request::Login(_) => vec_of(tx_login().as_slice()),
            Request::Logout(_) => vec_of(tx_logout().as_slice()),
            Request::GetMarginTrade(_) => vec_of(tx_get_margin_trade().as_slice()),
            Request::GetChartLastRequest(_) => vec_of(tx_get_chart_last_request().as_slice()),
            Request::GetSymbol(_) => vec_of(tx_get_symbol().as_slice()),
            Request::GetCommissionDef(_) => vec_of(tx_get_commission_def().as_slice()),
            Request::GetCurrentUserData(_) => vec_of(tx_get_current_user_data().as_slice()),
            Request::TradeTransaction(_) => vec_of(tx_trade_transaction().as_slice()),
            Request::TradeTransactionStatus(_) => vec_of(tx_trade_transaction_status().as_slice()),
            Request::GetServerTime(_) => vec_of(tx_get_server_time().as_slice()),
        };
        assert(tagv@ == spec_request_tag(self@));
        let payload: Json = match self {
            Request::Login(x) => x.to_json(),
            Request::Logout(x) => x.to_json(),
            Request::GetMarginTrade(x) => x.to_json(),
            Request::GetChartLastRequest(x) => x.to_json(),
            Request::GetSymbol(x) => x.to_json(),
            Request::GetCommissionDef(x) => x.to_json(),
            Request::GetCurrentUserData(x) => x.to_json(),
            Request::TradeTransaction(x) => x.to_json(),
            Request::TradeTransactionStatus(x) => x.to_json(),
            Request::GetServerTime(x) => x.to_json(),
        };
        assert(payload@ == spec_request_payload_json(self@));
        let mut fields: Vec<(Vec<u8>, Json)> = Vec::new();
        fields.push((vec_of(kx_command().as_slice()), Json::Str(tagv)));
        fields.push((vec_of(kx_arguments().as_slice()), payload));
        let r = Json::Obj(fields);
        proof {
            lemma_json_view_members(r->Obj_0, 0);
            assert(json_view_members(r->Obj_0, 0) =~= Self::spec_to_json(self@)->Obj_0);
        }
        r
    }

    fn from_json(j: &Json) -> (r: Option<Request>) {
        let tag = match j.get_str(kx_command().as_slice()) {
            Some(t) => t,
            None => {
                return None;
            },
        };
        let args = match j.get(kx_arguments().as_slice()) {
            Some(a) => a,
            None => {
                return None;
            },
        };
        if bytes_eq(tag.as_slice(), tx_login().as_slice()) {
            match LoginRequest::from_json(args) {
                Some(x) => Some(Request::Login(x)),
                None => None,
            }
        } else if bytes_eq(tag.as_slice(), tx_logout().as_slice()) {
            match LogoutRequest::from_json(args) {
                Some(x) => Some(Request::Logout(x)),
                None => None,
            }
        } else if bytes_eq(tag.as_slice(), tx_get_margin_trade().as_slice()) {
            match GetMarginTradeRequest::from_json(args) {
                Some(x) => Some(Request::GetMarginTrade(x)),
                None => None,
            }
        } else if bytes_eq(tag.as_slice(), tx_get_chart_last_request().as_slice()) {
            match GetChartLastRequest::from_json(args) {
                Some(x) => Some(Request::GetChartLastRequest(x)),
                None => None,
            }
        } else if bytes_eq(tag.as_slice(), tx_get_symbol().as_slice()) {
            match GetSymbol::from_json(args) {
                Some(x) => Some(Request::GetSymbol(x)),
                None => None,
            }
        } else if bytes_eq(tag.as_slice(), tx_get_commission_def().as_slice()) {
            match GetCommissionDef::from_json(args) {
                Some(x) => Some(Request::GetCommissionDef(x)),
                None => None,
            }
        } else if bytes_eq(tag.as_slice(), tx_get_current_user_data().as_slice()) {
            match GetCurrentUserData::from_json(args) {
                Some(x) => Some(Request::GetCurrentUserData(x)),
                None => None,
            }
        } else if bytes_eq(tag.as_slice(), tx_trade_transaction().as_slice()) {
            match TradeTransaction::from_json(args) {
                Some(x) => Some(Request::TradeTransaction(x)),
                None => None,
            }
        } else if bytes_eq(tag.as_slice(), tx_trade_transaction_status().as_slice()) {
            match TradeTransactionStatus::from_json(args) {
                Some(x) => Some(Request::TradeTransactionStatus(x)),
                None => None,
            }
        } else if bytes_eq(tag.as_slice(), tx_get_server_time().as_slice()) {
            match GetServerTime::from_json(args) {
                Some(x) => Some(Request::GetServerTime(x)),
                None => None,
            }
        } else {
            None
        }
    }

    #[verifier::rlimit(100)]
    #[verifier::spinoff_prover]
    proof fn lemma_round_trip(m: RequestV) {
        let j = Self::spec_to_json(m);
        let fs = j->Obj_0;
        assert(fs[0].0 == key_command());
        assert(obj_get_from(fs, key_command(), 0) == Some(fs[0].1));
        assert(fs[1].0 == key_arguments());
        assert(obj_get_from(fs, key_arguments(), 0) == obj_get_from(fs, key_arguments(), 1));
        assert(obj_get_from(fs, key_arguments(), 1) == Some(fs[1].1));
        assert(tag_get_commission_def() != tag_trade_transaction()) by {
            assert(tag_get_commission_def()[0] != tag_trade_transaction()[0]);
        }
        match m {
            RequestV::Login(x) => {
                <LoginRequest as WireJson>::lemma_round_trip(x);
                assert(Self::spec_from_json(j) == Some(m));
            },
            RequestV::Logout(x) => {
                <LogoutRequest as WireJson>::lemma_round_trip(x);
                assert(Self::spec_from_json(j) == Some(m));
            },
            RequestV::GetMarginTrade(x) => {
                <GetMarginTradeRequest as WireJson>::lemma_round_trip(x);
                assert(Self::spec_from_json(j) == Some(m));
            },
            RequestV::GetChartLastRequest(x) => {
                <GetChartLastRequest as WireJson>::lemma_round_trip(x);
                assert(Self::spec_from_json(j) == Some(m));
            },
            RequestV::GetSymbol(x) => {
                <GetSymbol as WireJson>::lemma_round_trip(x);
                assert(Self::spec_from_json(j) == Some(m));
            },
            RequestV::GetCommissionDef(x) => {
                <GetCommissionDef as WireJson>::lemma_round_trip(x);
                assert(Self::spec_from_json(j) == Some(m));
            },
            RequestV::GetCurrentUserData(x) => {
                <GetCurrentUserData as WireJson>::lemma_round_trip(x);
                assert(Self::spec_from_json(j) == Some(m));
            },
            RequestV::TradeTransaction(x) => {
                <TradeTransaction as WireJson>::lemma_round_trip(x);
                assert(Self::spec_from_json(j) == Some(m));
            },
            RequestV::TradeTransactionStatus(x) => {
                <TradeTransactionStatus as WireJson>::lemma_round_trip(x);
                assert(tag_trade_transaction().len() != tag_trade_transaction_status().len());
                assert(Self::spec_from_json(j) == Some(m));
            },
            RequestV::GetServerTime(x) => {
                <GetServerTime as WireJson>::lemma_round_trip(x);
                assert(Self::spec_from_json(j) == Some(m));
            },
        }
    }
}

impl Execute for Request {
    fn command(&self) -> (r: Vec<u8>) {
        encode_json(&self.to_json())
    }
}

/// The wire text of a command.
pub open spec fn spec_encode_command(m: RequestV) -> Seq<u8> {
    spec_print_json(<Request as WireJson>::spec_to_json(m))
}

/// The command a wire text holds, if it holds one.
pub open spec fn spec_decode_command(s: Seq<u8>) -> Option<RequestV> {
    match spec_parse_json(s) {
        Some(j) => <Request as WireJson>::spec_from_json(j),
        None => None,
    }
}

/// Reads one command back off its wire text.
pub fn decode_command(s: &[u8]) -> (r: Option<Request>)
    ensures
        match spec_decode_command(s@) {
            None => r is None,
            Some(m) => r matches Some(x) && x@ == m,
        },
{
    match decode_json(s) {
        Some(j) => Request::from_json(&j),
        None => None,
    }
}

/// Decoding an encoded command gives the command back, for every command
/// whose text fields are themselves well-formed UTF-8 - which the parser
/// demands of a whole message, so a command carrying, say, a lone 0xff
/// byte in its symbol prints to text that no longer reads back.
pub proof fn lemma_command_round_trip(m: RequestV)
    requires
        wf_json_text(<Request as WireJson>::spec_to_json(m)),
    ensures
        spec_decode_command(spec_encode_command(m)) == Some(m),
{
    lemma_print_parse_json(<Request as WireJson>::spec_to_json(m));
    <Request as WireJson>::lemma_round_trip(m);
}

/// The payloads a data response may carry. The decoder relies on shape
/// alone, so only these types may stand in a `Response`.
pub trait ValidResponse: WireJson {

}

impl ValidResponse for LoginResponse {

}

impl ValidResponse for GetCommissionDefResponse {

}

impl ValidResponse for GetCurrentUserDataResponse {

}

impl ValidResponse for ErrorResponse {

}

impl ValidResponse for TradeTransactionResponse {

}

impl ValidResponse for TradeTransactionStatusResponse {

}

impl ValidResponse for GetChartLastResponse {

}

impl ValidResponse for GetServerTimeResponse {

}

/// A successful data answer: the status flag and the typed payload under
/// `returnData`.
#[derive(Debug, PartialEq, Eq)]
pub struct GetResponse<T: ValidResponse> {
    pub status: bool,
    pub return_data: T,
}

pub struct GetResponseV<TV> {
    pub status: bool,
    pub return_data: TV,
}

impl<T: ValidResponse> View for GetResponse<T> {
    type V = GetResponseV<T::V>;

    open spec fn view(&self) -> GetResponseV<T::V> {
        GetResponseV { status: self.status, return_data: self.return_data@ }
    }
}

impl<T: ValidResponse> WireJson for GetResponse<T> {
    open spec fn spec_to_json(m: GetResponseV<T::V>) -> JsonV {
        JsonV::Obj(
            seq![
                (key_status(), JsonV::Bool(m.status)),
                (key_return_data(), T::spec_to_json(m.return_data)),
            ],
        )
    }

    open spec fn spec_from_json(j: JsonV) -> Option<GetResponseV<T::V>> {
        let f_status = jv_get_bool(j, key_status());
        let f_data = match jv_get(j, key_return_data()) {
            Some(x) => T::spec_from_json(x),
            None => None,
        };
        if f_status is Some && f_data is Some {
            Some(GetResponseV { status: f_status->Some_0, return_data: f_data->Some_0 })
        } else {
            None
        }
    }

    fn to_json(&self) -> (r: Json) {
        let mut fields: Vec<(Vec<u8>, Json)> = Vec::new();
        fields.push((vec_of(kx_status().as_slice()), Json::Bool(self.status)));
        fields.push((vec_of(kx_return_data().as_slice()), self.return_data.to_json()));
        let r = Json::Obj(fields);
        proof {
            lemma_json_view_members(r->Obj_0, 0);
            assert(json_view_members(r->Obj_0, 0) =~= Self::spec_to_json(self@)->Obj_0);
        }
        r
    }

    fn from_json(j: &Json) -> (r: Option<GetResponse<T>>) {
        let status = match j.get_bool(kx_status().as_slice()) {
            Some(v) => v,
            None => {
                return None;
            },
        };
        let return_data = match j.get(kx_return_data().as_slice()) {
            Some(x) => match T::from_json(x) {
                Some(v) => v,
                None => {
                    return None;
                },
            },
            None => {
                return None;
            },
        };
        Some(GetResponse { status, return_data })
    }

    proof fn lemma_round_trip(m: GetResponseV<T::V>) {
        let j = Self::spec_to_json(m);
        let fs = j->Obj_0;
        assert(fs[0].0 == key_status());
        assert(obj_get_from(fs, key_status(), 0) == Some(fs[0].1));
        assert(fs[1].0 == key_return_data());
        assert(obj_get_from(fs, key_return_data(), 0) == obj_get_from(fs, key_return_data(), 1));
        assert(obj_get_from(fs, key_return_data(), 1) == Some(fs[1].1));
        T::lemma_round_trip(m.return_data);
    }
}

/// What the command channel may read back: a login answer, a typed data
/// answer, or a server error. There is no envelope tag; shape alone
/// disambiguates, tried in exactly this order.
#[derive(Debug, PartialEq, Eq)]
pub enum Response<T: ValidResponse> {
    Login(LoginResponse),
    Data(GetResponse<T>),
    Error(ErrorResponse),
}

pub enum ResponseV<TV> {
    Login(LoginResponseV),
    Data(GetResponseV<TV>),
    Error(ErrorResponseV),
}

impl<T: ValidResponse> View for Response<T> {
    type V = ResponseV<T::V>;

    open spec fn view(&self) -> ResponseV<T::V> {
        match self {
            Response::Login(x) => ResponseV::Login(x@),
            Response::Data(x) => ResponseV::Data(x@),
            Response::Error(x) => ResponseV::Error(x@),
        }
    }
}

/// Which of the three shapes a decoded answer has: the login shape is
/// tried first, then the data shape, then the error shape.
pub open spec fn spec_classify_response<T: ValidResponse>(j: JsonV) -> Option<ResponseV<T::V>> {
    match <LoginResponse as WireJson>::spec_from_json(j) {
        Some(l) => Some(ResponseV::Login(l)),
        None => match <GetResponse<T> as WireJson>::spec_from_json(j) {
            Some(d) => Some(ResponseV::Data(d)),
            None => match <ErrorResponse as WireJson>::spec_from_json(j) {
                Some(e) => Some(ResponseV::Error(e)),
                None => None,
            },
        },
    }
}

/// Tries the three response shapes in priority order on a decoded tree.
pub fn classify_response<T: ValidResponse>(j: &Json) -> (r: Option<Response<T>>)
    ensures
        match spec_classify_response::<T>(j@) {
            None => r is None,
            Some(m) => r matches Some(x) && x@ == m,
        },
{
    match LoginResponse::from_json(j) {
        Some(l) => Some(Response::Login(l)),
        None => match GetResponse::<T>::from_json(j) {
            Some(d) => Some(Response::Data(d)),
            None => match ErrorResponse::from_json(j) {
                Some(e) => Some(Response::Error(e)),
                None => None,
            },
        },
    }
}

/// The JSON tree a server answer of any of the three forms stands as on
/// the wire.
pub open spec fn spec_response_to_json<T: ValidResponse>(m: ResponseV<T::V>) -> JsonV {
    match m {
        ResponseV::Login(l) => <LoginResponse as WireJson>::spec_to_json(l),
        ResponseV::Data(d) => <GetResponse<T> as WireJson>::spec_to_json(d),
        ResponseV::Error(e) => <ErrorResponse as WireJson>::spec_to_json(e),
    }
}

/// Shape alone disambiguates the three response forms: an answer encoded
/// in any one of them classifies back as exactly that form, never as an
/// earlier one in the priority order.
pub proof fn lemma_response_classification<T: ValidResponse>(m: ResponseV<T::V>)
    ensures
        spec_classify_response::<T>(spec_response_to_json::<T>(m)) == Some(m),
{
    match m {
        ResponseV::Login(l) => {
            <LoginResponse as WireJson>::lemma_round_trip(l);
        },
        ResponseV::Data(d) => {
            // The data shape has no `streamSessionId`, so the login shape
            // cannot claim it.
            let j = <GetResponse<T> as WireJson>::spec_to_json(d);
            let fs = j->Obj_0;
            assert(fs[0].0 == key_status());
            assert(fs[1].0 == key_return_data());
            assert forall|k: int|
                0 <= k < fs.len() implies (#[trigger] fs[k]).0 != key_stream_session_id() by {
                if k == 0 {
                    assert(fs[0].0 == key_status());
                } else {
                    assert(fs[1].0 == key_return_data());
                }
            }
            lemma_obj_get_none(fs, key_stream_session_id());
            assert(<LoginResponse as WireJson>::spec_from_json(j) is None);
            <GetResponse<T> as WireJson>::lemma_round_trip(d);
        },
        ResponseV::Error(e) => {
            // The error shape has neither `streamSessionId` nor
            // `returnData`, so neither earlier shape can claim it.
            let j = <ErrorResponse as WireJson>::spec_to_json(e);
            let fs = j->Obj_0;
            assert(fs[0].0 == key_status());
            assert(fs[1].0 == key_error_code());
            assert(fs[2].0 == key_error_descr());
            assert forall|k: int|
                0 <= k < fs.len() implies (#[trigger] fs[k]).0 != key_stream_session_id() by {
                assert(fs[0].0 == key_status());
                assert(fs[1].0 == key_error_code());
                assert(fs[2].0 == key_error_descr());
            }
            lemma_obj_get_none(fs, key_stream_session_id());
            assert(<LoginResponse as WireJson>::spec_from_json(j) is None);
            assert(key_error_descr() != key_return_data()) by {
                assert(key_error_descr()[0] != key_return_data()[0]);
            }
            assert forall|k: int|
                0 <= k < fs.len() implies (#[trigger] fs[k]).0 != key_return_data() by {
                assert(fs[0].0 == key_status());
                assert(fs[1].0 == key_error_code());
                assert(fs[2].0 == key_error_descr());
            }
            lemma_obj_get_none(fs, key_return_data());
            assert(<GetResponse<T> as WireJson>::spec_from_json(j) is None);
            <ErrorResponse as WireJson>::lemma_round_trip(e);
        },
    }
}

} // verus!
