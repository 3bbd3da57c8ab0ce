//! Reassembly of logical frames on the streaming channel.
//!
//! Frames are terminated by a blank line: two consecutive newline bytes.
//! A socket read may carry any cut of the stream, so received bytes go
//! into a buffer; every complete frame is taken off the front, and the
//! unterminated tail stays for the next read. The lemmas at the bottom
//! state that this reassembly cannot lose, duplicate or reorder frames,
//! however the stream is cut into reads.

use crate::errors::{XtbError, detail_buffer_bound, dx_buffer_bound};
use vstd::prelude::*;

verus! {

broadcast use vstd::std_specs::vec::group_vec_axioms, vstd::seq::group_seq_axioms;

/// A frame delimiter starts at `i`.
pub open spec fn has_delim_at(s: Seq<u8>, i: int) -> bool {
    0 <= i && i + 2 <= s.len() && s[i] == 0x0a && s[i + 1] == 0x0a
}

pub open spec fn spec_find_delim_from(s: Seq<u8>, i: int) -> Option<int>
    decreases s.len() - i,
{
    if i < 0 || i + 2 > s.len() {
        None
    } else if s[i] == 0x0a && s[i + 1] == 0x0a {
        Some(i)
    } else {
        spec_find_delim_from(s, i + 1)
    }
}

/// Index of the leftmost delimiter, if one stands in `s`.
pub open spec fn spec_find_delim(s: Seq<u8>) -> Option<int> {
    spec_find_delim_from(s, 0)
}

pub proof fn lemma_find_delim_from_props(s: Seq<u8>, i: int)
    requires
        0 <= i,
    ensures
        match spec_find_delim_from(s, i) {
            Some(k) => has_delim_at(s, k) && i <= k && forall|j: int|
                i <= j < k ==> !has_delim_at(s, j),
            None => forall|j: int| i <= j ==> !has_delim_at(s, j),
        },
    decreases s.len() - i,
{
    if i + 2 > s.len() {
    } else if s[i] == 0x0a && s[i + 1] == 0x0a {
    } else {
        lemma_find_delim_from_props(s, i + 1);
    }
}

/// The leftmost delimiter is where the first one stands.
pub proof fn lemma_find_delim_is(s: Seq<u8>, k: int)
    requires
        has_delim_at(s, k),
        forall|j: int| 0 <= j < k ==> !has_delim_at(s, j),
    ensures
        spec_find_delim(s) == Some(k),
{
    lemma_find_delim_from_is(s, 0, k);
}

proof fn lemma_find_delim_from_is(s: Seq<u8>, i: int, k: int)
    requires
        0 <= i <= k,
        has_delim_at(s, k),
        forall|j: int| i <= j < k ==> !has_delim_at(s, j),
    ensures
        spec_find_delim_from(s, i) == Some(k),
    decreases k - i,
{
    if i < k {
        assert(!has_delim_at(s, i));
        lemma_find_delim_from_is(s, i + 1, k);
    }
}

/// The frames of a byte stream and its retained tail: repeatedly take the
/// text before the leftmost delimiter, then what no delimiter ends.
pub open spec fn spec_split_stream(s: Seq<u8>) -> (Seq<Seq<u8>>, Seq<u8>)
    decreases s.len(),
{
    match spec_find_delim(s) {
        None => (Seq::empty(), s),
        Some(i) => {
            if 0 <= i && i + 2 <= s.len() {
                let rest = spec_split_stream(s.skip(i + 2));
                (seq![s.take(i)] + rest.0, rest.1)
            } else {
                (Seq::empty(), s)
            }
        },
    }
}

/// The retained tail never holds a delimiter.
pub proof fn lemma_split_stream_tail(s: Seq<u8>)
    ensures
        spec_find_delim(spec_split_stream(s).1) is None,
    decreases s.len(),
{
    lemma_find_delim_from_props(s, 0);
    match spec_find_delim(s) {
        None => {},
        Some(i) => {
            lemma_split_stream_tail(s.skip(i + 2));
        },
    }
}

/// Processing a stream in two pieces gives the same frames as processing
/// it whole: the second piece picks up from the first one's tail.
pub proof fn lemma_split_append(a: Seq<u8>, b: Seq<u8>)
    ensures
        ({
            let first = spec_split_stream(a);
            let second = spec_split_stream(first.1 + b);
            spec_split_stream(a + b) == (first.0 + second.0, second.1)
        }),
    decreases a.len(),
{
    let first = spec_split_stream(a);
    lemma_find_delim_from_props(a, 0);
    match spec_find_delim(a) {
        None => {
            assert(first.1 == a);
            assert(first.0 =~= Seq::<Seq<u8>>::empty());
            assert(first.0 + spec_split_stream(a + b).0 =~= spec_split_stream(a + b).0);
        },
        Some(i) => {
            // The leftmost delimiter of `a + b` is the leftmost of `a`.
            assert(has_delim_at(a + b, i)) by {
                assert((a + b)[i] == a[i]);
                assert((a + b)[i + 1] == a[i + 1]);
            }
            assert forall|j: int| 0 <= j < i implies !has_delim_at(a + b, j) by {
                assert(!has_delim_at(a, j));
                assert((a + b)[j] == a[j]);
                assert((a + b)[j + 1] == a[j + 1]);
            }
            lemma_find_delim_is(a + b, i);
            assert((a + b).skip(i + 2) =~= a.skip(i + 2) + b);
            assert((a + b).take(i) =~= a.take(i));
            lemma_split_append(a.skip(i + 2), b);
            assert(seq![a.take(i)] + (spec_split_stream(a.skip(i + 2)).0 + spec_split_stream(
                spec_split_stream(a.skip(i + 2)).1 + b,
            ).0) =~= (seq![a.take(i)] + spec_split_stream(a.skip(i + 2)).0) + spec_split_stream(
                spec_split_stream(a.skip(i + 2)).1 + b,
            ).0);
        },
    }
}

/// A frame that reassembly can give back exactly: no delimiter inside it,
/// and it does not end on a newline that would merge into its terminator.
pub open spec fn wf_frame(f: Seq<u8>) -> bool {
    spec_find_delim(f) is None && (f.len() == 0 || f[f.len() - 1] != 0x0a)
}

/// The wire form of the frames from index `i` on: each frame followed by
/// the blank-line terminator.
pub open spec fn spec_join_frames(frames: Seq<Seq<u8>>, i: int) -> Seq<u8>
    decreases frames.len() - i,
{
    if i < 0 || i >= frames.len() {
        Seq::empty()
    } else {
        frames[i] + seq![0x0au8, 0x0au8] + spec_join_frames(frames, i + 1)
    }
}

/// Splitting a joined stream gives back exactly the frames and the tail.
pub proof fn lemma_split_join(frames: Seq<Seq<u8>>, i: int, partial: Seq<u8>)
    requires
        0 <= i <= frames.len(),
        forall|k: int| 0 <= k < frames.len() ==> wf_frame(#[trigger] frames[k]),
        spec_find_delim(partial) is None,
    ensures
        spec_split_stream(spec_join_frames(frames, i) + partial) == (frames.skip(i), partial),
    decreases frames.len() - i,
{
    if i == frames.len() {
        assert(spec_join_frames(frames, i) + partial =~= partial);
        assert(frames.skip(i) =~= Seq::<Seq<u8>>::empty());
    } else {
        let f = frames[i];
        let rest = spec_join_frames(frames, i + 1) + partial;
        let s = spec_join_frames(frames, i) + partial;
        assert(s =~= f + seq![0x0au8, 0x0au8] + rest);
        assert(has_delim_at(s, f.len() as int)) by {
            assert(s[f.len() as int] == 0x0a);
            assert(s[f.len() as int + 1] == 0x0a);
        }
        assert forall|j: int| 0 <= j < f.len() implies !has_delim_at(s, j) by {
            lemma_find_delim_from_props(f, 0);
            if j + 1 < f.len() {
                assert(s[j] == f[j]);
                assert(s[j + 1] == f[j + 1]);
                assert(!has_delim_at(f, j));
            } else {
                assert(j == f.len() - 1);
                assert(s[j] == f[j]);
                assert(f[f.len() - 1] != 0x0a);
            }
        }
        lemma_find_delim_is(s, f.len() as int);
        assert(s.skip(f.len() as int + 2) =~= rest);
        assert(s.take(f.len() as int) =~= f);
        lemma_split_join(frames, i + 1, partial);
        assert(seq![f] + frames.skip(i + 1) =~= frames.skip(i));
    }
}

/// What feeding the chunks from index `i` on into a buffer holding `rem`
/// yields: all extracted frames, and the final retained tail.
pub open spec fn spec_run_feed(rem: Seq<u8>, chunks: Seq<Seq<u8>>, i: int) -> (Seq<Seq<u8>>, Seq<
    u8,
>)
    decreases chunks.len() - i,
{
    if i < 0 || i >= chunks.len() {
        (Seq::empty(), rem)
    } else {
        let step = spec_split_stream(rem + chunks[i]);
        let rest = spec_run_feed(step.1, chunks, i + 1);
        (step.0 + rest.0, rest.1)
    }
}

pub open spec fn spec_concat_from(chunks: Seq<Seq<u8>>, i: int) -> Seq<u8>
    decreases chunks.len() - i,
{
    if i < 0 || i >= chunks.len() {
        Seq::empty()
    } else {
        chunks[i] + spec_concat_from(chunks, i + 1)
    }
}

/// Feeding chunk by chunk equals splitting the whole stream at once.
pub proof fn lemma_run_feed_flatten(rem: Seq<u8>, chunks: Seq<Seq<u8>>, i: int)
    requires
        0 <= i <= chunks.len(),
        spec_find_delim(rem) is None,
    ensures
        spec_run_feed(rem, chunks, i) == spec_split_stream(rem + spec_concat_from(chunks, i)),
    decreases chunks.len() - i,
{
    if i == chunks.len() {
        assert(rem + spec_concat_from(chunks, i) =~= rem);
        assert(spec_run_feed(rem, chunks, i).0 =~= Seq::<Seq<u8>>::empty());
    } else {
        let step = spec_split_stream(rem + chunks[i]);
        lemma_split_stream_tail(rem + chunks[i]);
        lemma_run_feed_flatten(step.1, chunks, i + 1);
        lemma_split_append(rem + chunks[i], spec_concat_from(chunks, i + 1));
        assert((rem + chunks[i]) + spec_concat_from(chunks, i + 1) =~= rem + spec_concat_from(
            chunks,
            i,
        ));
        assert(step.0 + spec_split_stream(step.1 + spec_concat_from(chunks, i + 1)).0
            =~= spec_split_stream(rem + spec_concat_from(chunks, i)).0);
    }
}

/// Framing correctness: a stream of whole frames, each closed by the
/// blank-line terminator and followed by an unterminated tail, cut into
/// reads at any points whatever, is reassembled into exactly those frames,
/// in order, with the tail retained - nothing lost, nothing doubled.
pub proof fn lemma_framing_correct(frames: Seq<Seq<u8>>, partial: Seq<u8>, chunks: Seq<Seq<u8>>)
    requires
        forall|k: int| 0 <= k < frames.len() ==> wf_frame(#[trigger] frames[k]),
        spec_find_delim(partial) is None,
        spec_concat_from(chunks, 0) == spec_join_frames(frames, 0) + partial,
    ensures
        spec_run_feed(Seq::empty(), chunks, 0) == (frames, partial),
{
    lemma_run_feed_flatten(Seq::empty(), chunks, 0);
    assert(Seq::<u8>::empty() + spec_concat_from(chunks, 0) =~= spec_join_frames(frames, 0)
        + partial);
    lemma_split_join(frames, 0, partial);
    assert(frames.skip(0) =~= frames);
}

/// The mutable accumulator standing between socket reads and whole frames.
/// It holds bytes received but not yet resolved, never a complete
/// delimiter, and never more than its configured bound.
#[derive(Debug)]
pub struct FrameBuffer {
    pub data: Vec<u8>,
    pub max_size: usize,
}

impl FrameBuffer {
    /// No unresolved delimiter inside, and within the bound.
    pub open spec fn wf(&self) -> bool {
        spec_find_delim(self.data@) is None && self.data@.len() <= self.max_size
    }

    pub fn new(max_size: usize) -> (r: FrameBuffer)
        ensures
            r.wf(),
            r.data@ == Seq::<u8>::empty(),
            r.max_size == max_size,
    {
        FrameBuffer { data: Vec::new(), max_size }
    }

    /// Takes one read's bytes and hands back every frame they complete, in
    /// order; the unterminated tail stays buffered. A read that would push
    /// the buffer past its bound is refused as a decode failure, with the
    /// buffer left as it was.
    pub fn on_bytes(&mut self, chunk: &[u8]) -> (r: Result<Vec<Vec<u8>>, XtbError>)
        requires
            old(self).wf(),
        ensures
            final(self).max_size == old(self).max_size,
            final(self).wf(),
            match r {
                Ok(frames) => {
                    &&& old(self).data@.len() + chunk@.len() <= old(self).max_size
                    &&& frames.deep_view() == spec_split_stream(old(self).data@ + chunk@).0
                    &&& final(self).data@ == spec_split_stream(old(self).data@ + chunk@).1
                },
                Err(e) => {
                    &&& old(self).data@.len() + chunk@.len() > old(self).max_size
                    &&& e@ matches crate::errors::XtbErrorV::DecodeError { raw, detail } && raw
                        == chunk@ && detail == detail_buffer_bound()
                    &&& *final(self) == *old(self)
                },
            },
    {
        if chunk.len() > self.max_size - self.data.len() {
            return Err(
                XtbError::DecodeError {
                    raw: crate::json::vec_of(chunk),
                    detail: dx_buffer_bound(),
                },
            );
        }
        let ghost whole = self.data@ + chunk@;
        let mut i: usize = 0;
        while i < chunk.len()
            invariant
                i <= chunk@.len(),
                self.data@ =~= old(self).data@ + chunk@.take(i as int),
                self.max_size == old(self).max_size,
                old(self).data@.len() + chunk@.len() <= old(self).max_size,
                whole == old(self).data@ + chunk@,
            decreases chunk@.len() - i,
        {
            self.data.push(chunk[i]);
            assert(self.data@ =~= old(self).data@ + chunk@.take(i + 1 as int));
            i = i + 1;
        }
        assert(self.data@ =~= whole);
        let mut frames: Vec<Vec<u8>> = Vec::new();
        loop
            invariant
                self.max_size == old(self).max_size,
                self.data@.len() <= self.max_size,
                whole == old(self).data@ + chunk@,
                old(self).data@.len() + chunk@.len() <= old(self).max_size,
                spec_split_stream(whole) == (
                    frames.deep_view() + spec_split_stream(self.data@).0,
                    spec_split_stream(self.data@).1,
                ),
            decreases self.data@.len(),
        {
            let found = self.find_delim();
            match found {
                None => {
                    proof {
                        assert(frames.deep_view() + spec_split_stream(self.data@).0
                            =~~= frames.deep_view());
                        lemma_split_stream_tail(whole);
                    }
                    return Ok(frames);
                },
                Some(pos) => {
                    let ghost cur = self.data@;
                    let frame = take_prefix(&self.data, pos);
                    let remaining = drop_prefix(&self.data, pos + 2);
                    self.data = remaining;
                    let ghost before_frames = frames.deep_view();
                    frames.push(frame);
                    proof {
                        assert(frames.deep_view() =~~= before_frames + seq![
                            cur.take(pos as int),
                        ]);
                        assert((before_frames + seq![cur.take(pos as int)]) + spec_split_stream(
                            self.data@,
                        ).0 =~~= before_frames + (seq![cur.take(pos as int)] + spec_split_stream(
                            self.data@,
                        ).0));
                    }
                },
            }
        }
    }

    /// Index of the leftmost delimiter in the buffer, if one stands there.
    fn find_delim(&self) -> (r: Option<usize>)
        ensures
            match spec_find_delim(self.data@) {
                None => r is None,
                Some(k) => r == Some(k as usize) && 0 <= k && k + 2 <= self.data@.len(),
            },
    {
        proof {
            lemma_find_delim_from_props(self.data@, 0);
        }
        if self.data.len() < 2 {
            return None;
        }
        let mut i: usize = 0;
        while i < self.data.len() - 1
            invariant
                self.data@.len() >= 2,
                i <= self.data@.len(),
                spec_find_delim(self.data@) == spec_find_delim_from(self.data@, i as int),
            decreases self.data@.len() - i,
        {
            if self.data[i] == 0x0a && self.data[i + 1] == 0x0a {
                return Some(i);
            }
            i = i + 1;
        }
        None
    }
}

/// The first `n` bytes, as their own vector.
fn take_prefix(v: &Vec<u8>, n: usize) -> (r: Vec<u8>)
    requires
        n <= v@.len(),
    ensures
        r@ == v@.take(n as int),
{
    let mut r: Vec<u8> = Vec::new();
    let mut i: usize = 0;
    while i < n
        invariant
            i <= n <= v@.len(),
            r@ =~= v@.take(i as int),
        decreases n - i,
    {
        r.push(v[i]);
        assert(r@ =~= v@.take(i + 1 as int));
        i = i + 1;
    }
    r
}

/// Everything from index `n` on, as its own vector.
fn drop_prefix(v: &Vec<u8>, n: usize) -> (r: Vec<u8>)
    requires
        n <= v@.len(),
    ensures
        r@ == v@.skip(n as int),
{
    let mut r: Vec<u8> = Vec::new();
    let mut i: usize = n;
    while i < v.len()
        invariant
            n <= i <= v@.len(),
            r@ =~= v@.subrange(n as int, i as int),
        decreases v@.len() - i,
    {
        r.push(v[i]);
        assert(r@ =~= v@.subrange(n as int, i + 1 as int));
        i = i + 1;
    }
    assert(v@.subrange(n as int, v@.len() as int) =~= v@.skip(n as int));
    r
}

} // verus!
