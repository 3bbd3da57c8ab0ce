//! The typed commands, the three-shape response reading, and the command
//! channel's discipline, against concrete wire texts.

use xtb::channel::{ChannelPhase, CommandChannel};
use xtb::json::decode_json;
use xtb::decimal::Decimal;
use xtb::errors::XtbError;
use xtb::xapi_definitions::commands_common::{Cmd, Period, State, Type};
use xtb::xapi_definitions::commands_main::{
    decode_command, GetChartLastInfo, GetChartLastRequest, GetChartLastResponse, GetCommissionDef,
    GetCommissionDefResponse, GetCurrentUserData, GetServerTime, GetServerTimeResponse, GetSymbol,
    LoginRequest, LoginResponse, Request, TradeTransaction, TradeTransInfo,
};
use xtb::xapi_definitions::commands_stream::{
    decode_stream_event, GetBalance, GetKeepAlive, GetKeepAliveResponse, GetResponse,
    GetTickPrices, RequestStream, ResponseStream,
};
use xtb::xapi_definitions::{Execute, WireJson};

fn login_request() -> Request {
    Request::Login(LoginRequest {
        user_id: b"16794637".to_vec(),
        password: b"SECRET-REDACTED".to_vec(),
        app_id: b"test".to_vec(),
        app_name: b"XTB_test".to_vec(),
    })
}

#[test]
fn login_command_wire_text() {
    let bytes = login_request().command();
    let expect = b"{\"command\":\"login\",\"arguments\":{\"userId\":\"16794637\",\"password\":\"SECRET-REDACTED\",\"appId\":\"test\",\"appName\":\"XTB_test\"}}";
    assert_eq!(bytes, expect.to_vec());
}

#[test]
fn commands_round_trip() {
    let cases = vec![
        login_request(),
        Request::GetSymbol(GetSymbol { symbol: b"RHM.DE_9".to_vec() }),
        Request::GetCommissionDef(GetCommissionDef {
            symbol: b"RHM.DE_9".to_vec(),
            volume: Decimal { neg: false, mag: 200000000, scale: 1 },
        }),
        Request::GetCurrentUserData(GetCurrentUserData {}),
        Request::GetServerTime(GetServerTime {}),
        Request::GetChartLastRequest(GetChartLastRequest {
            info: GetChartLastInfo {
                period: Period::PeriodH4,
                start: 1_700_000_000_000,
                symbol: b"EURUSD".to_vec(),
            },
        }),
        Request::TradeTransaction(TradeTransaction {
            trade_trans_info: TradeTransInfo {
                cmd: Cmd::BuyLimit,
                custom_comment: Some(b"note".to_vec()),
                expiration: 0,
                offset: 0,
                order: 7,
                price: Decimal { neg: false, mag: 1085, scale: 1 },
                sl: Decimal { neg: false, mag: 0, scale: 0 },
                symbol: b"EURUSD".to_vec(),
                tp: Decimal { neg: false, mag: 0, scale: 0 },
                trans_type: Type::Open,
                volume: Decimal { neg: false, mag: 10, scale: 1 },
            },
        }),
    ];
    for req in cases {
        let bytes = req.command();
        let back = decode_command(&bytes).expect("an encoded command must decode");
        assert_eq!(back, req);
    }
}

#[test]
fn command_decodes_with_reordered_fields() {
    let text = b"{\"arguments\":{\"symbol\":\"EURUSD\"},\"command\":\"getSymbol\",\"extra\":0}";
    let back = decode_command(text).expect("field order must not matter");
    assert_eq!(back, Request::GetSymbol(GetSymbol { symbol: b"EURUSD".to_vec() }));
}

#[test]
fn stream_subscription_wire_text() {
    let sub = RequestStream::GetTickPrices(GetTickPrices {
        stream_session_id: b"8469308861804289383".to_vec(),
        symbol: b"RHM.DE_9".to_vec(),
        min_arrival_time: Some(5000),
        max_level: Some(1),
    });
    let bytes = sub.command();
    let expect = b"{\"command\":\"getTickPrices\",\"streamSessionId\":\"8469308861804289383\",\"symbol\":\"RHM.DE_9\",\"minArrivalTime\":5000,\"maxLevel\":1}";
    assert_eq!(bytes, expect.to_vec());
}

#[test]
fn stream_subscription_none_is_null() {
    let sub = RequestStream::GetTickPrices(GetTickPrices {
        stream_session_id: b"s".to_vec(),
        symbol: b"X".to_vec(),
        min_arrival_time: None,
        max_level: None,
    });
    let bytes = sub.command();
    let expect = b"{\"command\":\"getTickPrices\",\"streamSessionId\":\"s\",\"symbol\":\"X\",\"minArrivalTime\":null,\"maxLevel\":null}";
    assert_eq!(bytes, expect.to_vec());
}

#[test]
fn stream_events_round_trip() {
    let keep = ResponseStream::KeepAlive(GetResponse {
        data: GetKeepAliveResponse { timestamp: 1_700_000_123_456 },
    });
    let bytes = xtb::json::encode_json(&keep.to_json());
    let back = decode_stream_event(&bytes).expect("an encoded event must decode");
    assert_eq!(back, keep);
}

#[test]
fn stream_event_from_server_text() {
    let text = b"{\"command\":\"keepAlive\",\"data\":{\"timestamp\":1362407629058}}";
    let back = decode_stream_event(text).expect("a keep-alive event decodes");
    assert_eq!(
        back,
        ResponseStream::KeepAlive(GetResponse {
            data: GetKeepAliveResponse { timestamp: 1362407629058 }
        })
    );
}

#[test]
fn stream_event_unknown_tag_is_refused() {
    let text = b"{\"command\":\"mystery\",\"data\":{}}";
    assert!(decode_stream_event(text).is_none());
}

#[test]
fn channel_enforces_one_in_flight() {
    let mut ch = CommandChannel::new();
    assert_eq!(ch.phase, ChannelPhase::Idle);
    let first = ch.prepare(&login_request());
    assert!(first.is_some());
    assert_eq!(ch.phase, ChannelPhase::AwaitingResponse);
    // A second command before the response is refused.
    let second = ch.prepare(&Request::GetServerTime(GetServerTime {}));
    assert!(second.is_none());
    assert_eq!(ch.phase, ChannelPhase::AwaitingResponse);
}

#[test]
fn zero_length_read_is_connection_closed() {
    let mut ch = CommandChannel::new();
    ch.prepare(&login_request()).unwrap();
    let out = ch.response_login(0, b"");
    assert_eq!(out, Err(XtbError::ConnectionClosed));
}

#[test]
fn login_response_success() {
    let mut ch = CommandChannel::new();
    ch.prepare(&login_request()).unwrap();
    let raw = b"{\"status\":true,\"streamSessionId\":\"8469308861804289383\"}";
    let out = ch.response_login(raw.len(), raw).expect("login answer decodes");
    assert!(out.status);
    assert_eq!(out.stream_session_id, b"8469308861804289383".to_vec());
}

#[test]
fn login_error_is_authentication_failed() {
    let mut ch = CommandChannel::new();
    ch.prepare(&login_request()).unwrap();
    let raw = b"{\"status\":false,\"errorCode\":\"BE005\",\"errorDescr\":\"login failed\"}";
    let out = ch.response_login(raw.len(), raw);
    assert_eq!(
        out,
        Err(XtbError::AuthenticationFailed {
            code: b"BE005".to_vec(),
            description: b"login failed".to_vec(),
        })
    );
}

#[test]
fn malformed_response_is_decode_error_and_channel_stays_usable() {
    let mut ch = CommandChannel::new();
    ch.prepare(&login_request()).unwrap();
    let raw = b"this is not json";
    match ch.response_login(raw.len(), raw) {
        Err(XtbError::DecodeError { raw: text, detail }) => {
            assert_eq!(text, raw.to_vec());
            assert_eq!(detail, b"malformed json".to_vec());
        }
        other => panic!("expected a decode error, got {:?}", other),
    }
    // The channel is idle again and a further exchange works.
    assert_eq!(ch.phase, ChannelPhase::Idle);
    ch.prepare(&Request::GetServerTime(GetServerTime {})).unwrap();
    let good = b"{\"status\":true,\"returnData\":{\"time\":1392211379731,\"timeString\":\"Feb 12, 2014 2:22:59 PM\"}}";
    let out = ch
        .response_data::<GetServerTimeResponse>(good.len(), good)
        .expect("a good answer still decodes");
    assert_eq!(out.return_data.time, 1392211379731);
}

#[test]
fn data_error_is_protocol_error() {
    let mut ch = CommandChannel::new();
    ch.prepare(&Request::GetCommissionDef(GetCommissionDef {
        symbol: b"X".to_vec(),
        volume: Decimal { neg: false, mag: 1, scale: 0 },
    }))
    .unwrap();
    let raw = b"{\"status\":false,\"errorCode\":\"BE115\",\"errorDescr\":\"unknown symbol\"}";
    let out = ch.response_data::<GetCommissionDefResponse>(raw.len(), raw);
    assert_eq!(
        out,
        Err(XtbError::ProtocolError {
            code: b"BE115".to_vec(),
            description: b"unknown symbol".to_vec(),
        })
    );
}

#[test]
fn data_response_decodes_typed_payload() {
    let mut ch = CommandChannel::new();
    ch.prepare(&Request::GetCommissionDef(GetCommissionDef {
        symbol: b"RHM.DE_9".to_vec(),
        volume: Decimal { neg: false, mag: 1, scale: 0 },
    }))
    .unwrap();
    let raw = b"{\"status\":true,\"returnData\":{\"commission\":0.51,\"rateOfExchange\":0.2510}}";
    let out = ch
        .response_data::<GetCommissionDefResponse>(raw.len(), raw)
        .expect("commission answer decodes");
    assert_eq!(out.return_data.commission, Decimal { neg: false, mag: 51, scale: 2 });
    assert_eq!(out.return_data.rate_of_exchange, Decimal { neg: false, mag: 2510, scale: 4 });
}

#[test]
fn subscriptions_round_trip_via_json() {
    let subs = vec![
        RequestStream::GetBalance(GetBalance { stream_session_id: b"sid".to_vec() }),
        RequestStream::GetKeepAlive(GetKeepAlive { stream_session_id: b"sid".to_vec() }),
    ];
    for sub in subs {
        let bytes = sub.command();
        let tree = decode_json(&bytes).expect("subscription text parses");
        let back = RequestStream::from_json(&tree).expect("subscription decodes");
        assert_eq!(back, sub);
    }
}

#[test]
fn chart_last_response_with_rate_infos() {
    let mut ch = CommandChannel::new();
    ch.prepare(&login_request()).unwrap();
    let raw = b"{\"status\":true,\"returnData\":{\"digits\":4,\"rateInfos\":[{\"close\":1.0,\"ctm\":1,\"ctmString\":\"a\",\"high\":2.5,\"low\":0.5,\"open\":1.25,\"vol\":10.0},{\"close\":2.0,\"ctm\":2,\"ctmString\":\"b\",\"high\":3.0,\"low\":1.0,\"open\":2.0,\"vol\":0.0}]}}";
    let out = ch
        .response_data::<GetChartLastResponse>(raw.len(), raw)
        .expect("chart answer decodes");
    assert_eq!(out.return_data.digits, 4);
    assert_eq!(out.return_data.rate_infos.len(), 2);
    assert_eq!(out.return_data.rate_infos[0].ctm, 1);
    assert_eq!(
        out.return_data.rate_infos[1].open,
        Decimal { neg: false, mag: 20, scale: 1 }
    );
}

#[test]
fn trade_event_with_enums_from_server_text() {
    let text = b"{\"command\":\"trade\",\"data\":{\"close_price\":1.3256,\"close_time\":null,\"closed\":false,\"cmd\":0,\"comment\":\"Web Trader\",\"commission\":0.0,\"customComment\":\"Some text\",\"digits\":4,\"expiration\":null,\"margin_rate\":3.9149,\"offset\":0,\"open_price\":1.4,\"open_time\":1272380927000,\"order\":7497776,\"order2\":1234567,\"position\":1234567,\"profit\":68.392,\"sl\":0.0,\"state\":\"Modified\",\"storage\":-4.46,\"symbol\":\"EURUSD\",\"tp\":0.0,\"type\":0,\"volume\":0.1}}";
    let back = decode_stream_event(text).expect("a trade event decodes");
    match back {
        ResponseStream::Trade(trade) => {
            assert_eq!(trade.data.cmd, Cmd::Buy);
            assert_eq!(trade.data.trans_type, Type::Open);
            assert_eq!(trade.data.state, State::Modified);
            assert_eq!(trade.data.close_time, None);
            assert_eq!(trade.data.expiration, None);
            assert_eq!(trade.data.profit, Some(Decimal { neg: false, mag: 68392, scale: 3 }));
            assert_eq!(trade.data.storage, Decimal { neg: true, mag: 446, scale: 2 });
            assert_eq!(trade.data.order, 7497776);
        }
        other => panic!("expected a trade event, got {:?}", other),
    }
}

#[test]
fn period_codes_on_the_wire() {
    let req = Request::GetChartLastRequest(GetChartLastRequest {
        info: GetChartLastInfo {
            period: Period::PeriodMN1,
            start: 0,
            symbol: b"S".to_vec(),
        },
    });
    let bytes = req.command();
    let expect =
        b"{\"command\":\"getChartLastRequest\",\"arguments\":{\"info\":{\"period\":43200,\"start\":0,\"symbol\":\"S\"}}}";
    assert_eq!(bytes, expect.to_vec());
}

#[test]
fn invalid_utf8_response_is_a_decode_error() {
    // A login-shaped answer whose session identifier holds the byte 0xff
    // is not UTF-8 text, so it is never taken as a valid response.
    let mut ch = CommandChannel::new();
    ch.prepare(&login_request()).unwrap();
    let mut raw: Vec<u8> = Vec::new();
    raw.extend_from_slice(b"{\"status\":true,\"streamSessionId\":\"");
    raw.push(0xff);
    raw.extend_from_slice(b"\"}");
    match ch.response_login(raw.len(), &raw) {
        Err(XtbError::DecodeError { raw: text, detail }) => {
            assert_eq!(text, raw);
            assert_eq!(detail, b"invalid utf-8".to_vec());
        }
        other => panic!("expected a decode error, got {:?}", other),
    }
    // The channel stays usable afterwards.
    assert_eq!(ch.phase, ChannelPhase::Idle);
}

#[test]
fn unmatched_shape_carries_its_diagnostic() {
    let mut ch = CommandChannel::new();
    ch.prepare(&login_request()).unwrap();
    let raw = b"{\"unrelated\":1}";
    match ch.response_login(raw.len(), raw) {
        Err(XtbError::DecodeError { detail, .. }) => {
            assert_eq!(detail, b"no response shape matched".to_vec());
        }
        other => panic!("expected a decode error, got {:?}", other),
    }
}

#[test]
fn response_shape_priority_is_login_first() {
    // A text carrying the login shape's members decodes as a login answer
    // even while a response to a data command is awaited.
    let mut ch = CommandChannel::new();
    ch.prepare(&login_request()).unwrap();
    let raw = b"{\"status\":true,\"streamSessionId\":\"x\"}";
    let out = ch.response_data::<GetServerTimeResponse>(raw.len(), raw);
    match out {
        Err(XtbError::DecodeError { .. }) => {}
        other => panic!("a login-shaped answer cannot answer a data command: {:?}", other),
    }
}
