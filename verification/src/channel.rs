//! The two channels' protocol logic, free of any socket.
//!
//! The command channel enforces the one-in-flight discipline as a state
//! machine: a command may be prepared only when no response is outstanding,
//! and a response read only when one is. The stream channel turns raw reads
//! into decoded events through the frame buffer, tolerating a bounded run
//! of empty reads and skipping malformed frames without dying.
//!
//! Sockets live outside the library: callers hand in the bytes a read
//! produced and send the bytes these functions hand out.

use crate::errors::{
    XtbError, XtbErrorV, detail_invalid_utf8, detail_malformed_json, detail_mismatched_response,
    detail_no_response_shape, detail_no_stream_event, dx_invalid_utf8, dx_malformed_json,
    dx_mismatched_response, dx_no_response_shape, dx_no_stream_event,
};
use crate::frame::{
    FrameBuffer, lemma_framing_correct, spec_concat_from, spec_find_delim, spec_join_frames,
    spec_run_feed, spec_split_stream, wf_frame, has_delim_at, lemma_find_delim_from_props,
};
use crate::json::{
    decode_json, is_valid_utf8, lemma_print_json_no_newline, no_newline, spec_parse_json,
    spec_print_json, vec_of, wf_json_text,
};
use vstd::utf8::valid_utf8;
use crate::xapi_definitions::commands_main::{
    GetResponse, LoginResponse, Response, ResponseV, ValidResponse, spec_classify_response,
    classify_response,
};
use crate::xapi_definitions::commands_stream::{
    ResponseStream, ResponseStreamV, lemma_stream_event_round_trip, spec_decode_stream_event,
    spec_encode_stream_event,
};
use crate::xapi_definitions::{Execute, WireJson};
use vstd::prelude::*;

verus! {

broadcast use vstd::std_specs::vec::group_vec_axioms, vstd::seq::group_seq_axioms;

/// Where the command channel stands: idle, or holding one issued command
/// whose response has not yet arrived.
#[derive(Clone, Copy, Debug, PartialEq, Eq, Structural)]
pub enum ChannelPhase {
    Idle,
    AwaitingResponse,
}

/// The request/response channel: strictly one outstanding command.
#[derive(Debug)]
pub struct CommandChannel {
    pub phase: ChannelPhase,
}

/// What a single response read amounts to, before the caller interprets
/// the chosen shape.
pub open spec fn spec_response_outcome<T: ValidResponse>(s: Seq<u8>) -> Option<ResponseV<T::V>> {
    match spec_parse_json(s) {
        Some(j) => spec_classify_response::<T>(j),
        None => None,
    }
}

/// The diagnostic a failed response read carries: what failed first.
pub open spec fn spec_response_failure_detail(s: Seq<u8>) -> Seq<u8> {
    if !valid_utf8(s) {
        detail_invalid_utf8()
    } else if spec_parse_json(s) is None {
        detail_malformed_json()
    } else {
        detail_no_response_shape()
    }
}

/// The diagnostic a frame that is no event carries: what failed first.
pub open spec fn spec_event_failure_detail(s: Seq<u8>) -> Seq<u8> {
    if !valid_utf8(s) {
        detail_invalid_utf8()
    } else if spec_parse_json(s) is None {
        detail_malformed_json()
    } else {
        detail_no_stream_event()
    }
}

impl CommandChannel {
    pub fn new() -> (r: CommandChannel)
        ensures
            r.phase is Idle,
    {
        CommandChannel { phase: ChannelPhase::Idle }
    }

    /// Encodes one command and passes to awaiting its response. Refused,
    /// with nothing changed, while a response is still outstanding.
    pub fn prepare<T: Execute>(&mut self, req: &T) -> (r: Option<Vec<u8>>)
        ensures
            old(self).phase is Idle ==> (final(self).phase is AwaitingResponse && (r matches Some(
                bytes,
            ) && bytes@ == spec_print_json(T::spec_to_json(req@)))),
            old(self).phase is AwaitingResponse ==> *final(self) == *old(self) && r is None,
    {
        match self.phase {
            ChannelPhase::Idle => {
                self.phase = ChannelPhase::AwaitingResponse;
                Some(req.command())
            },
            ChannelPhase::AwaitingResponse => None,
        }
    }

    /// The issued command was never delivered (the write failed): the
    /// channel goes back to idle, nothing being outstanding.
    pub fn send_failed(&mut self)
        ensures
            final(self).phase is Idle,
    {
        self.phase = ChannelPhase::Idle;
    }

    /// Takes what one socket read returned while a response was awaited:
    /// the first `n` bytes of `buf`. A zero-length read is the peer
    /// closing, never a silent success; bytes matching none of the three
    /// response shapes are a decode failure carrying the raw text. Either
    /// way the channel is idle again afterwards.
    pub fn accept_response<T: ValidResponse>(&mut self, n: usize, buf: &[u8]) -> (r: Result<
        Response<T>,
        XtbError,
    >)
        requires
            old(self).phase is AwaitingResponse,
            n <= buf@.len(),
        ensures
            final(self).phase is Idle,
            n == 0 ==> (r matches Err(e) && e@ == XtbErrorV::ConnectionClosed),
            n > 0 ==> match spec_response_outcome::<T>(buf@.take(n as int)) {
                Some(m) => r matches Ok(resp) && resp@ == m,
                None => r matches Err(e) && e@ == (XtbErrorV::DecodeError {
                    raw: buf@.take(n as int),
                    detail: spec_response_failure_detail(buf@.take(n as int)),
                }),
            },
    {
        self.phase = ChannelPhase::Idle;
        if n == 0 {
            return Err(XtbError::ConnectionClosed);
        }
        let raw = take_read(buf, n);
        if !is_valid_utf8(raw.as_slice()) {
            return Err(XtbError::DecodeError { raw, detail: dx_invalid_utf8() });
        }
        match decode_json(raw.as_slice()) {
            Some(j) => match classify_response::<T>(&j) {
                Some(resp) => Ok(resp),
                None => Err(XtbError::DecodeError { raw, detail: dx_no_response_shape() }),
            },
            None => Err(XtbError::DecodeError { raw, detail: dx_malformed_json() }),
        }
    }

    /// Reads the answer to a login: the login shape succeeds, a server
    /// error is a terminal authentication failure, and a data answer
    /// cannot answer a login, so it is a decode failure on this channel.
    pub fn response_login(&mut self, n: usize, buf: &[u8]) -> (r: Result<LoginResponse, XtbError>)
        requires
            old(self).phase is AwaitingResponse,
            n <= buf@.len(),
        ensures
            final(self).phase is Idle,
            n == 0 ==> (r matches Err(e) && e@ == XtbErrorV::ConnectionClosed),
            n > 0 ==> match spec_response_outcome::<LoginResponse>(buf@.take(n as int)) {
                Some(ResponseV::Login(l)) => r matches Ok(x) && x@ == l,
                Some(ResponseV::Error(e)) => r matches Err(err) && err@
                    == (XtbErrorV::AuthenticationFailed {
                    code: e.error_code,
                    description: e.error_descr,
                }),
                Some(ResponseV::Data(_)) => r matches Err(err) && err@ == (XtbErrorV::DecodeError {
                    raw: buf@.take(n as int),
                    detail: detail_mismatched_response(),
                }),
                None => r matches Err(err) && err@ == (XtbErrorV::DecodeError {
                    raw: buf@.take(n as int),
                    detail: spec_response_failure_detail(buf@.take(n as int)),
                }),
            },
    {
        match self.accept_response::<LoginResponse>(n, buf) {
            Ok(Response::Login(l)) => Ok(l),
            Ok(Response::Error(e)) => Err(
                XtbError::AuthenticationFailed { code: e.error_code, description: e.error_descr },
            ),
            Ok(Response::Data(_)) => Err(
                XtbError::DecodeError {
                    raw: take_read(buf, n),
                    detail: dx_mismatched_response(),
                },
            ),
            Err(e) => Err(e),
        }
    }

    /// Reads the answer to a data command: the typed data shape succeeds,
    /// a server error is a protocol error with its code and description,
    /// and a login answer cannot answer a data command.
    pub fn response_data<T: ValidResponse>(&mut self, n: usize, buf: &[u8]) -> (r: Result<
        GetResponse<T>,
        XtbError,
    >)
        requires
            old(self).phase is AwaitingResponse,
            n <= buf@.len(),
        ensures
            final(self).phase is Idle,
            n == 0 ==> (r matches Err(e) && e@ == XtbErrorV::ConnectionClosed),
            n > 0 ==> match spec_response_outcome::<T>(buf@.take(n as int)) {
                Some(ResponseV::Data(d)) => r matches Ok(x) && x@ == d,
                Some(ResponseV::Error(e)) => r matches Err(err) && err@
                    == (XtbErrorV::ProtocolError {
                    code: e.error_code,
                    description: e.error_descr,
                }),
                Some(ResponseV::Login(_)) => r matches Err(err) && err@
                    == (XtbErrorV::DecodeError {
                    raw: buf@.take(n as int),
                    detail: detail_mismatched_response(),
                }),
                None => r matches Err(err) && err@ == (XtbErrorV::DecodeError {
                    raw: buf@.take(n as int),
                    detail: spec_response_failure_detail(buf@.take(n as int)),
                }),
            },
    {
        match self.accept_response::<T>(n, buf) {
            Ok(Response::Data(d)) => Ok(d),
            Ok(Response::Error(e)) => Err(
                XtbError::ProtocolError { code: e.error_code, description: e.error_descr },
            ),
            Ok(Response::Login(_)) => Err(
                XtbError::DecodeError {
                    raw: take_read(buf, n),
                    detail: dx_mismatched_response(),
                },
            ),
            Err(e) => Err(e),
        }
    }
}

/// The first `n` bytes of a read buffer, as their own vector.
fn take_read(buf: &[u8], n: usize) -> (r: Vec<u8>)
    requires
        n <= buf@.len(),
    ensures
        r@ == buf@.take(n as int),
{
    let mut r: Vec<u8> = Vec::new();
    let mut i: usize = 0;
    while i < n
        invariant
            i <= n <= buf@.len(),
            r@ =~= buf@.take(i as int),
        decreases n - i,
    {
        r.push(buf[i]);
        assert(r@ =~= buf@.take(i + 1 as int));
        i = i + 1;
    }
    r
}

/// The streaming channel's receive side: the frame buffer, and the count
/// of consecutive empty reads tolerated before the channel winds down.
#[derive(Debug)]
pub struct StreamChannel {
    pub buffer: FrameBuffer,
    pub zero_reads: u32,
    pub max_zero_reads: u32,
}

impl StreamChannel {
    pub open spec fn wf(&self) -> bool {
        self.buffer.wf()
    }

    pub fn new(max_buffer: usize, max_zero_reads: u32) -> (r: StreamChannel)
        ensures
            r.wf(),
            r.buffer.data@ == Seq::<u8>::empty(),
            r.buffer.max_size == max_buffer,
            r.zero_reads == 0,
            r.max_zero_reads == max_zero_reads,
    {
        StreamChannel { buffer: FrameBuffer::new(max_buffer), zero_reads: 0, max_zero_reads }
    }

    /// Takes one socket read. Every frame the read completes comes back
    /// decoded, in arrival order; a malformed frame comes back as the
    /// decode failure carrying its text, and never ends the stream. The
    /// returned flag says whether the channel should keep reading: it
    /// turns false only after `max_zero_reads` empty reads in a row.
    /// A read that would overflow the frame buffer is itself fatal.
    pub fn on_read(&mut self, chunk: &[u8]) -> (r: Result<
        (Vec<Result<ResponseStream, XtbError>>, bool),
        XtbError,
    >)
        requires
            old(self).wf(),
        ensures
            final(self).wf(),
            final(self).max_zero_reads == old(self).max_zero_reads,
            final(self).buffer.max_size == old(self).buffer.max_size,
            match r {
                Ok((events, keep_going)) => {
                    &&& (chunk@.len() == 0 ==> {
                        &&& events@.len() == 0
                        &&& final(self).buffer == old(self).buffer
                        &&& final(self).zero_reads == if old(self).zero_reads
                            < old(self).max_zero_reads {
                            old(self).zero_reads + 1
                        } else {
                            old(self).zero_reads as int
                        }
                        &&& keep_going == (final(self).zero_reads < old(self).max_zero_reads)
                    })
                    &&& (chunk@.len() > 0 ==> {
                        let parts = spec_split_stream(old(self).buffer.data@ + chunk@);
                        &&& old(self).buffer.data@.len() + chunk@.len()
                            <= old(self).buffer.max_size
                        &&& final(self).zero_reads == 0
                        &&& keep_going
                        &&& final(self).buffer.data@ == parts.1
                        &&& events@.len() == parts.0.len()
                        &&& forall|i: int|
                            0 <= i < parts.0.len() ==> (match spec_decode_stream_event(
                                #[trigger] parts.0[i],
                            ) {
                                Some(m) => events@[i] matches Ok(e) && e@ == m,
                                None => events@[i] matches Err(err) && err@
                                    == (XtbErrorV::DecodeError {
                                    raw: parts.0[i],
                                    detail: spec_event_failure_detail(parts.0[i]),
                                }),
                            })
                    })
                },
                Err(e) => {
                    &&& chunk@.len() > 0
                    &&& old(self).buffer.data@.len() + chunk@.len() > old(self).buffer.max_size
                    &&& e@ matches XtbErrorV::DecodeError { raw, detail } && raw == chunk@
                        && detail == crate::errors::detail_buffer_bound()
                },
            },
    {
        if chunk.len() == 0 {
            if self.zero_reads < self.max_zero_reads {
                self.zero_reads = self.zero_reads + 1;
            }
            let keep_going = self.zero_reads < self.max_zero_reads;
            return Ok((Vec::new(), keep_going));
        }
        let frames = match self.buffer.on_bytes(chunk) {
            Ok(frames) => frames,
            Err(e) => {
                return Err(e);
            },
        };
        self.zero_reads = 0;
        let ghost framesv = frames.deep_view();
        let mut events: Vec<Result<ResponseStream, XtbError>> = Vec::new();
        let mut i: usize = 0;
        while i < frames.len()
            invariant
                i <= frames@.len(),
                framesv == frames.deep_view(),
                framesv.len() == frames@.len(),
                forall|k: int| 0 <= k < frames@.len() ==> #[trigger] framesv[k] == frames@[k]@,
                events@.len() == i,
                forall|k: int|
                    0 <= k < i ==> (match spec_decode_stream_event(framesv[k]) {
                        Some(m) => #[trigger] events@[k] matches Ok(e) && e@ == m,
                        None => events@[k] matches Err(err) && err@ == (XtbErrorV::DecodeError {
                            raw: framesv[k],
                            detail: spec_event_failure_detail(framesv[k]),
                        }),
                    }),
            decreases frames@.len() - i,
        {
            let fr = frames[i].as_slice();
            if !is_valid_utf8(fr) {
                events.push(
                    Err(XtbError::DecodeError { raw: vec_of(fr), detail: dx_invalid_utf8() }),
                );
            } else {
                match decode_json(fr) {
                    Some(j) => match ResponseStream::from_json(&j) {
                        Some(e) => {
                            events.push(Ok(e));
                        },
                        None => {
                            events.push(
                                Err(
                                    XtbError::DecodeError {
                                        raw: vec_of(fr),
                                        detail: dx_no_stream_event(),
                                    },
                                ),
                            );
                        },
                    },
                    None => {
                        events.push(
                            Err(
                                XtbError::DecodeError {
                                    raw: vec_of(fr),
                                    detail: dx_malformed_json(),
                                },
                            ),
                        );
                    },
                }
            }
            i = i + 1;
        }
        Ok((events, true))
    }
}

/// A byte stream with no raw newline holds no frame delimiter.
proof fn lemma_no_newline_no_delim(s: Seq<u8>)
    requires
        no_newline(s),
    ensures
        spec_find_delim(s) is None,
{
    lemma_find_delim_from_props(s, 0);
    match spec_find_delim(s) {
        None => {},
        Some(k) => {
            assert(s[k] != 0x0a);
            assert(false);
        },
    }
}

/// Delivery, end to end: a wire stream of encoded events, each closed by
/// the blank-line terminator and trailed by an unterminated remainder, cut
/// into reads at any points whatever, reassembles and decodes to exactly
/// those events, in order - independent of how many bytes arrive per read.
pub proof fn lemma_stream_delivery(
    events: Seq<ResponseStreamV>,
    partial: Seq<u8>,
    chunks: Seq<Seq<u8>>,
)
    requires
        forall|i: int|
            0 <= i < events.len() ==> wf_json_text(
                <ResponseStream as WireJson>::spec_to_json(#[trigger] events[i]),
            ),
        spec_find_delim(partial) is None,
        spec_concat_from(chunks, 0) == spec_join_frames(
            Seq::new(events.len(), |i: int| spec_encode_stream_event(events[i])),
            0,
        ) + partial,
    ensures
        ({
            let run = spec_run_feed(Seq::empty(), chunks, 0);
            &&& run.1 == partial
            &&& run.0.len() == events.len()
            &&& forall|i: int|
                0 <= i < events.len() ==> spec_decode_stream_event(#[trigger] run.0[i]) == Some(
                    events[i],
                )
        }),
{
    let frames = Seq::new(events.len(), |i: int| spec_encode_stream_event(events[i]));
    assert forall|k: int| 0 <= k < frames.len() implies wf_frame(#[trigger] frames[k]) by {
        let tree = <ResponseStream as WireJson>::spec_to_json(events[k]);
        lemma_print_json_no_newline(tree);
        assert(frames[k] == spec_print_json(tree));
        lemma_no_newline_no_delim(frames[k]);
        if frames[k].len() > 0 {
            assert(frames[k][frames[k].len() - 1] != 0x0a);
        }
    }
    lemma_framing_correct(frames, partial, chunks);
    let run = spec_run_feed(Seq::empty(), chunks, 0);
    assert forall|i: int|
        0 <= i < events.len() implies spec_decode_stream_event(#[trigger] run.0[i]) == Some(
        events[i],
    ) by {
        assert(run.0[i] == frames[i]);
        lemma_stream_event_round_trip(events[i]);
    }
}

} // verus!
