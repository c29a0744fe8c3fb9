//! Newline-delimited framing: one payload per frame, terminated by a single
//! delimiter byte, with no length prefix.
use vstd::prelude::*;
use vstd::string::{StrSliceExecFns, StringSliceAdditionalSpecFns};

verus! {

/// The byte that ends every frame on the wire (`\n`).
pub const DELIMITER: u8 = 0x0a;

/// Whether the delimiter byte occurs anywhere in `s`.
pub open spec fn has_delimiter(s: Seq<u8>) -> bool {
    exists|i: int| 0 <= i < s.len() && s[i] == DELIMITER
}

/// The wire form of one payload.
pub open spec fn frame_of(payload: Seq<u8>) -> Seq<u8> {
    payload.push(DELIMITER)
}

/// The wire form of several payloads sent one after the other.
pub open spec fn frames_of(payloads: Seq<Seq<u8>>) -> Seq<u8>
    decreases payloads.len(),
{
    if payloads.len() == 0 {
        Seq::empty()
    } else {
        frames_of(payloads.drop_last()) + frame_of(payloads.last())
    }
}

/// Reads a byte stream from the start: the payloads of the complete frames, in
/// order, and the bytes after the last delimiter, which wait for more input.
pub open spec fn scan(s: Seq<u8>) -> (Seq<Seq<u8>>, Seq<u8>)
    decreases s.len(),
{
    if s.len() == 0 {
        (Seq::empty(), Seq::empty())
    } else {
        let prev = scan(s.drop_last());
        if s.last() == DELIMITER {
            (prev.0.push(prev.1), Seq::empty())
        } else {
            (prev.0, prev.1.push(s.last()))
        }
    }
}

/// What a reader holding `pending` yields when `chunks` arrive one by one:
/// the payloads completed over all of them, and what is left pending.
pub open spec fn feed(pending: Seq<u8>, chunks: Seq<Seq<u8>>) -> (Seq<Seq<u8>>, Seq<u8>)
    decreases chunks.len(),
{
    if chunks.len() == 0 {
        (Seq::empty(), pending)
    } else {
        let first = scan(pending + chunks[0]);
        let rest = feed(first.1, chunks.drop_first());
        (first.0 + rest.0, rest.1)
    }
}

/// The bytes left pending after a scan never hold a delimiter.
pub proof fn lemma_scan_rest_undelimited(s: Seq<u8>)
    ensures
        !has_delimiter(scan(s).1),
    decreases s.len(),
{
    if s.len() > 0 {
        lemma_scan_rest_undelimited(s.drop_last());
        let prev = scan(s.drop_last());
        if s.last() != DELIMITER {
            assert forall|i: int| 0 <= i < prev.1.push(s.last()).len() implies prev.1.push(
                s.last(),
            )[i] != DELIMITER by {
                if i < prev.1.len() {
                    assert(prev.1.push(s.last())[i] == prev.1[i]);
                }
            }
        }
    }
}

/// Bytes without a delimiter complete no frame and stay pending as they are.
pub proof fn lemma_scan_undelimited(s: Seq<u8>)
    requires
        !has_delimiter(s),
    ensures
        scan(s) == (Seq::<Seq<u8>>::empty(), s),
    decreases s.len(),
{
    if s.len() > 0 {
        let init = s.drop_last();
        assert(!has_delimiter(init)) by {
            assert forall|i: int| 0 <= i < init.len() implies init[i] != DELIMITER by {
                assert(init[i] == s[i]);
            }
        }
        lemma_scan_undelimited(init);
        assert(s.last() == s[s.len() - 1]);
        assert(init.push(s.last()) =~= s);
    }
}

/// Scanning `a + b` scans `a`, then scans what `a` left pending followed by `b`.
pub proof fn lemma_scan_append(a: Seq<u8>, b: Seq<u8>)
    ensures
        ({
            let left = scan(a);
            let right = scan(left.1 + b);
            scan(a + b) == (left.0 + right.0, right.1)
        }),
    decreases b.len(),
{
    let left = scan(a);
    if b.len() == 0 {
        assert(a + b =~= a);
        assert(left.1 + b =~= left.1);
        lemma_scan_rest_undelimited(a);
        lemma_scan_undelimited(left.1);
        assert(left.0 + Seq::<Seq<u8>>::empty() =~= left.0);
    } else {
        let b0 = b.drop_last();
        lemma_scan_append(a, b0);
        assert((a + b).drop_last() =~= a + b0);
        assert((left.1 + b).drop_last() =~= left.1 + b0);
        assert((a + b).last() == b.last());
        assert((left.1 + b).last() == b.last());
        let right0 = scan(left.1 + b0);
        if b.last() == DELIMITER {
            assert((left.0 + right0.0).push(right0.1) =~= left.0 + right0.0.push(right0.1));
        }
    }
}

/// Frames of payloads without a delimiter scan back to those payloads, with
/// nothing left pending.
pub proof fn lemma_scan_frames(payloads: Seq<Seq<u8>>)
    requires
        forall|k: int| 0 <= k < payloads.len() ==> !has_delimiter(#[trigger] payloads[k]),
    ensures
        scan(frames_of(payloads)) == (payloads, Seq::<u8>::empty()),
    decreases payloads.len(),
{
    if payloads.len() == 0 {
        assert(scan(frames_of(payloads)) == (Seq::<Seq<u8>>::empty(), Seq::<u8>::empty()));
        assert(payloads =~= Seq::<Seq<u8>>::empty());
    } else {
        let init = payloads.drop_last();
        let last = payloads.last();
        assert forall|k: int| 0 <= k < init.len() implies !has_delimiter(#[trigger] init[k]) by {
            assert(init[k] == payloads[k]);
        }
        lemma_scan_frames(init);
        assert(!has_delimiter(last)) by {
            assert(last == payloads[payloads.len() - 1]);
        }
        lemma_scan_append(frames_of(init), frame_of(last));
        assert(Seq::<u8>::empty() + frame_of(last) =~= frame_of(last));
        assert(frame_of(last).drop_last() =~= last);
        lemma_scan_undelimited(last);
        assert(init + seq![last] =~= payloads);
    }
}

/// Framing round trip: the frame of a payload without a delimiter reads back as
/// exactly that payload, with nothing left pending.
pub proof fn lemma_frame_round_trip(payload: Seq<u8>)
    requires
        !has_delimiter(payload),
    ensures
        scan(frame_of(payload)) == (seq![payload], Seq::<u8>::empty()),
{
    assert(frame_of(payload).drop_last() =~= payload);
    lemma_scan_undelimited(payload);
    assert(Seq::<Seq<u8>>::empty().push(payload) =~= seq![payload]);
}

/// Feeding chunks one by one yields what one scan of their concatenation yields,
/// wherever the chunk boundaries fall.
pub proof fn lemma_feed_is_scan(pending: Seq<u8>, chunks: Seq<Seq<u8>>)
    requires
        !has_delimiter(pending),
    ensures
        feed(pending, chunks) == scan(pending + chunks.flatten()),
    decreases chunks.len(),
{
    if chunks.len() == 0 {
        assert(pending + chunks.flatten() =~= pending);
        lemma_scan_undelimited(pending);
    } else {
        let c0 = chunks[0];
        let tail = chunks.drop_first();
        let first = scan(pending + c0);
        lemma_scan_rest_undelimited(pending + c0);
        lemma_feed_is_scan(first.1, tail);
        assert(chunks.flatten() == c0 + tail.flatten());
        assert(pending + chunks.flatten() =~= (pending + c0) + tail.flatten());
        lemma_scan_append(pending + c0, tail.flatten());
    }
}

/// Cutting the frames of `payloads` into chunks at arbitrary places and
/// feeding the chunks in order to a fresh reader yields exactly those payloads,
/// in order, with nothing left pending.
pub proof fn lemma_chunked_frames(payloads: Seq<Seq<u8>>, chunks: Seq<Seq<u8>>)
    requires
        forall|k: int| 0 <= k < payloads.len() ==> !has_delimiter(#[trigger] payloads[k]),
        chunks.flatten() == frames_of(payloads),
    ensures
        feed(Seq::empty(), chunks) == (payloads, Seq::<u8>::empty()),
{
    lemma_feed_is_scan(Seq::empty(), chunks);
    assert(Seq::<u8>::empty() + chunks.flatten() =~= frames_of(payloads));
    lemma_scan_frames(payloads);
}

/// The contents of each buffer of `v`, in order.
pub open spec fn views(v: Seq<Vec<u8>>) -> Seq<Seq<u8>> {
    v.map_values(|b: Vec<u8>| b@)
}

/// Why a payload could not be framed.
#[derive(Debug, Clone, Copy, PartialEq, Eq, Structural)]
pub enum FrameError {
    /// The payload holds the delimiter byte, which would split it in two on the wire.
    EmbeddedDelimiter,
}

/// Frames `payload` for the wire: its UTF-8 bytes followed by the delimiter.
/// A payload holding the delimiter cannot be framed unambiguously and is refused.
pub fn encode_frame(payload: &str) -> (r: Result<Vec<u8>, FrameError>)
    ensures
        has_delimiter(payload.spec_bytes()) <==> r is Err,
        r is Ok ==> r->Ok_0@ == frame_of(payload.spec_bytes()),
{
    let mut bytes = payload.as_bytes_vec();
    let n = bytes.len();
    let mut i: usize = 0;
    while i < n
        invariant
            n == bytes@.len(),
            bytes@ == payload.spec_bytes(),
            i <= n,
            forall|j: int| 0 <= j < i ==> bytes@[j] != DELIMITER,
        decreases n - i,
    {
        if bytes[i] == DELIMITER {
            return Err(FrameError::EmbeddedDelimiter);
        }
        i = i + 1;
    }
    bytes.push(DELIMITER);
    Ok(bytes)
}

/// Reassembles frames from chunks of a byte stream cut at arbitrary places.
pub struct FrameParser {
    pending: Vec<u8>,
}

impl View for FrameParser {
    type V = Seq<u8>;

    /// The bytes received after the last delimiter.
    closed spec fn view(&self) -> Seq<u8> {
        self.pending@
    }
}

impl FrameParser {
    /// The pending bytes never hold a delimiter: every complete frame has been handed out.
    pub open spec fn wf(&self) -> bool {
        !has_delimiter(self@)
    }

    /// A parser with nothing pending.
    pub fn new() -> (r: FrameParser)
        ensures
            r.wf(),
            r@ == Seq::<u8>::empty(),
    {
        FrameParser { pending: Vec::new() }
    }

    /// The bytes waiting for a delimiter.
    pub fn pending(&self) -> (r: &[u8])
        ensures
            r@ == self@,
    {
        self.pending.as_slice()
    }

    /// Appends `chunk` to the pending bytes and hands out, in order, the payload of
    /// every frame that is now complete, the delimiter left out; what follows the
    /// last delimiter stays pending.
    pub fn push(&mut self, chunk: &[u8]) -> (frames: Vec<Vec<u8>>)
        requires
            old(self).wf(),
        ensures
            final(self).wf(),
            views(frames@) == scan(old(self)@ + chunk@).0,
            final(self)@ == scan(old(self)@ + chunk@).1,
    {
        let ghost start = self@;
        let mut frames: Vec<Vec<u8>> = Vec::new();
        let mut current: Vec<u8> = self.pending.clone();
        proof {
            assert(current@ =~= start);
            lemma_scan_undelimited(start);
            assert(start + chunk@.subrange(0, 0) =~= start);
        }
        let n = chunk.len();
        let mut i: usize = 0;
        while i < n
            invariant
                n == chunk@.len(),
                i <= n,
                views(frames@) == scan(start + chunk@.subrange(0, i as int)).0,
                current@ == scan(start + chunk@.subrange(0, i as int)).1,
            decreases n - i,
        {
            let b = chunk[i];
            let ghost before = start + chunk@.subrange(0, i as int);
            let ghost after = start + chunk@.subrange(0, i + 1);
            proof {
                assert(after.drop_last() =~= before);
                assert(after.last() == b);
            }
            if b == DELIMITER {
                let ghost dv = views(frames@);
                let ghost old_frames = frames@;
                let ghost cur = current@;
                frames.push(current);
                current = Vec::new();
                proof {
                    assert(frames@ == old_frames.push(frames@.last()));
                    assert(frames@.last()@ == cur);
                    assert(views(frames@) =~= dv.push(scan(before).1));
                }
            } else {
                current.push(b);
            }
            i = i + 1;
        }
        proof {
            assert(chunk@.subrange(0, n as int) =~= chunk@);
            lemma_scan_rest_undelimited(start + chunk@);
        }
        self.pending = current;
        frames
    }
}

/// How much of a chunk's frames a stream hands on, given whether each frame
/// decoded, in order: every frame up to the first one that did not decode,
/// that one included (as an error), and then the stream ends, since framing
/// cannot be resumed after a bad frame. Returns how many to hand on and
/// whether the stream ends.
pub fn frames_to_deliver(decoded: &Vec<bool>) -> (r: (usize, bool))
    ensures
        r.1 <==> exists|j: int| 0 <= j < decoded@.len() && !decoded@[j],
        r.1 ==> 1 <= r.0 <= decoded@.len() && !decoded@[r.0 - 1] && forall|j: int|
            0 <= j < r.0 - 1 ==> decoded@[j],
        !r.1 ==> r.0 == decoded@.len(),
{
    let n = decoded.len();
    let mut i: usize = 0;
    while i < n
        invariant
            n == decoded@.len(),
            i <= n,
            forall|j: int| 0 <= j < i ==> decoded@[j],
        decreases n - i,
    {
        if !decoded[i] {
            return (i + 1, true);
        }
        i = i + 1;
    }
    (n, false)
}

} // verus!
