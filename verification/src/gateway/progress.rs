//! The gateway's progress subscription: a long-lived SSE stream, cut into
//! event blocks under a hard size bound.
//!
//! A progress subscription never terminates on its own, so the decode is
//! strict: only blank-line-terminated blocks dispatch (an incomplete trailing
//! block is discarded), and a block that grows past [`MAX_EVENT_BLOCK`]
//! without its terminator is refused rather than buffered unbounded.

use crate::gateway::sse::{
    data_of_line, data_value, law_a_data_line_carries_its_value, strip_return, without_return,
    CARRIAGE_RETURN, LINE_FEED,
};
use crate::text::{
    control, decoded_lossily, hex_digit, hex_digits, is_control, lossy_text, render_hex,
};
use super::{is_success, success, GatewayError};
use vstd::prelude::*;

verus! {

/// The largest single SSE event block buffered before the stream refuses it,
/// in bytes.
pub const MAX_EVENT_BLOCK: usize = 1024 * 1024;

/// The largest error body kept for a subscription diagnostic, in bytes.
pub const MAX_ERROR_BODY: usize = 2000;

/// A blank line ends just before `e`: two line ends, both LF or both CRLF.
pub open spec fn ends_block(b: Seq<u8>, e: int) -> bool {
    ||| 2 <= e <= b.len() && b[e - 2] == LINE_FEED && b[e - 1] == LINE_FEED
    ||| 4 <= e <= b.len() && b[e - 4] == CARRIAGE_RETURN && b[e - 3] == LINE_FEED && b[e - 2]
        == CARRIAGE_RETURN && b[e - 1] == LINE_FEED
}

/// Where the first blank line ends, from `e` on.
pub open spec fn end_from(b: Seq<u8>, e: int) -> Option<int>
    decreases b.len() + 1 - e,
{
    if e > b.len() {
        None
    } else if ends_block(b, e) {
        Some(e)
    } else {
        end_from(b, e + 1)
    }
}

/// The end, terminator included, of the first complete event block.
pub open spec fn first_end(b: Seq<u8>) -> Option<int> {
    end_from(b, 0)
}

/// The lines of `b`: what stands before, between, and after its line feeds.
pub open spec fn lines(b: Seq<u8>) -> Seq<Seq<u8>>
    decreases b.len(),
{
    if b.len() == 0 {
        seq![Seq::empty()]
    } else if b.last() == LINE_FEED {
        lines(b.drop_last()).push(Seq::empty())
    } else {
        let before = lines(b.drop_last());
        before.drop_last().push(before.last().push(b.last()))
    }
}

/// `data` with what a line carries: a `data:` line joins it after a line
/// feed, every other line is ignored.
pub open spec fn with_line(data: Seq<u8>, line: Seq<u8>) -> Seq<u8> {
    match data_value(without_return(line)) {
        Some(value) => if data.len() > 0 {
            data.push(LINE_FEED) + value
        } else {
            value
        },
        None => data,
    }
}

/// What the lines carry together.
pub open spec fn data_of(ls: Seq<Seq<u8>>) -> Seq<u8>
    decreases ls.len(),
{
    if ls.len() == 0 {
        Seq::empty()
    } else {
        with_line(data_of(ls.drop_last()), ls.last())
    }
}

/// The payload of an event block; a block without one is a heartbeat.
pub open spec fn block_payload(block: Seq<u8>) -> Option<Seq<u8>> {
    let data = data_of(lines(block));
    if data.len() == 0 {
        None
    } else {
        Some(data)
    }
}

/// The first payload in the complete blocks of `b`, and what is left of `b`
/// behind the blocks up to it.
pub open spec fn next_payload(b: Seq<u8>) -> (Option<Seq<u8>>, Seq<u8>)
    decreases b.len(),
{
    match first_end(b) {
        None => (None, b),
        Some(e) => if e <= 0 || e > b.len() {
            (None, b)
        } else if block_payload(b.take(e)) is Some {
            (block_payload(b.take(e)), b.skip(e))
        } else {
            next_payload(b.skip(e))
        },
    }
}

proof fn lemma_end_from(b: Seq<u8>, e: int)
    ensures
        end_from(b, e) matches Some(k) ==> e <= k <= b.len() && ends_block(b, k) && forall|j: int|
            e <= j < k ==> !#[trigger] ends_block(b, j),
        end_from(b, e) is None ==> forall|j: int| e <= j ==> !#[trigger] ends_block(b, j),
    decreases b.len() + 1 - e,
{
    if e <= b.len() && !ends_block(b, e) {
        lemma_end_from(b, e + 1);
        if end_from(b, e) is None {
            assert forall|j: int| e <= j implies !#[trigger] ends_block(b, j) by {
                if j == e {
                }
            }
        }
    }
}

/// The end (terminator included) of the first complete event block: a blank
/// line, whether the peer terminates its lines with LF or CRLF.
pub fn block_end(buffer: &[u8]) -> (end: Option<usize>)
    ensures
        match end {
            Some(e) => first_end(buffer@) == Some(e as int) && 2 <= e <= buffer@.len(),
            None => first_end(buffer@) is None,
        },
{
    let mut e: usize = 0;
    while e < buffer.len()
        invariant
            e <= buffer@.len(),
            first_end(buffer@) == end_from(buffer@, e as int),
            !ends_block(buffer@, e as int),
        decreases buffer@.len() - e,
    {
        e = e + 1;
        if e >= 2 && buffer[e - 2] == LINE_FEED && buffer[e - 1] == LINE_FEED {
            return Some(e);
        }
        if e >= 4 && buffer[e - 4] == CARRIAGE_RETURN && buffer[e - 3] == LINE_FEED && buffer[e
            - 2] == CARRIAGE_RETURN && buffer[e - 1] == LINE_FEED {
            return Some(e);
        }
    }
    assert(end_from(buffer@, e + 1) is None);
    None
}

fn join_line(data: &mut Vec<u8>, line: &Vec<u8>)
    ensures
        final(data)@ == with_line(old(data)@, line@),
{
    let end: usize = strip_return(line);
    match data_of_line(line, end) {
        Some(value) => {
            let mut value = value;
            if data.len() > 0 {
                data.push(LINE_FEED);
            }
            assert(data@.len() == 0 ==> data@ + value@ == value@);
            data.append(&mut value);
        },
        None => {},
    }
}

/// The payload of one SSE event block: `data:` lines join into the payload,
/// comment lines and unrecognized fields are ignored, and a block with no
/// payload (a heartbeat) yields `None`.
pub fn parse_event_block(block: &[u8]) -> (payload: Option<Vec<u8>>)
    ensures
        payload is Some <==> block_payload(block@) is Some,
        payload matches Some(p) ==> p@ == block_payload(block@)->0,
{
    let mut data: Vec<u8> = Vec::new();
    let mut line: Vec<u8> = Vec::new();
    assert(lines(Seq::empty()).drop_last() == Seq::<Seq<u8>>::empty());
    assert(block@.take(0) == Seq::<u8>::empty());
    for i in 0..block.len()
        invariant
            lines(block@.take(i as int)).len() > 0,
            data@ == data_of(lines(block@.take(i as int)).drop_last()),
            line@ == lines(block@.take(i as int)).last(),
    {
        let b: u8 = block[i];
        let ghost before = lines(block@.take(i as int));
        assert(block@.take(i + 1).drop_last() == block@.take(i as int));
        if b == LINE_FEED {
            join_line(&mut data, &line);
            line = Vec::new();
            assert(lines(block@.take(i + 1)).drop_last() == before);
        } else {
            line.push(b);
            assert(lines(block@.take(i + 1)).drop_last() == before.drop_last());
        }
    }
    assert(block@.take(block@.len() as int) == block@);
    join_line(&mut data, &line);
    if data.len() == 0 {
        None
    } else {
        Some(data)
    }
}

/// Pops the next payload out of `buffer`, or `None` when no complete block
/// that carries one is buffered yet. Blocks without a payload (heartbeats) are
/// consumed and skipped.
pub fn next_buffered_event(buffer: &mut Vec<u8>) -> (payload: Option<Vec<u8>>)
    ensures
        payload is Some <==> next_payload(old(buffer)@).0 is Some,
        payload matches Some(p) ==> p@ == next_payload(old(buffer)@).0->0,
        final(buffer)@ == next_payload(old(buffer)@).1,
        final(buffer)@.len() <= old(buffer)@.len(),
{
    loop
        invariant
            next_payload(buffer@) == next_payload(old(buffer)@),
            buffer@.len() <= old(buffer)@.len(),
        decreases buffer@.len(),
    {
        match block_end(buffer.as_slice()) {
            None => {
                return None;
            },
            Some(end) => {
                let ghost whole = buffer@;
                let mut rest = buffer.split_off(end);
                std::mem::swap(buffer, &mut rest);
                assert(rest@ == whole.take(end as int));
                assert(buffer@ == whole.skip(end as int));
                let payload = parse_event_block(rest.as_slice());
                if payload.is_some() {
                    return payload;
                }
            },
        }
    }
}

/// Every payload in the complete blocks of `b`, in order.
pub open spec fn all_payloads(b: Seq<u8>) -> Seq<Seq<u8>>
    decreases b.len(),
{
    match first_end(b) {
        None => Seq::empty(),
        Some(e) => if e <= 0 || e > b.len() {
            Seq::empty()
        } else {
            (match block_payload(b.take(e)) {
                Some(p) => seq![p],
                None => Seq::empty(),
            }) + all_payloads(b.skip(e))
        },
    }
}

/// What stands in `b` behind its complete blocks.
pub open spec fn incomplete(b: Seq<u8>) -> Seq<u8>
    decreases b.len(),
{
    match first_end(b) {
        None => b,
        Some(e) => if e <= 0 || e > b.len() {
            b
        } else {
            incomplete(b.skip(e))
        },
    }
}

proof fn lemma_end_stays(a: Seq<u8>, c: Seq<u8>, e: int)
    requires
        0 <= e,
        end_from(a, e) is Some,
    ensures
        end_from(a + c, e) == end_from(a, e),
    decreases a.len() + 1 - e,
{
    assert(ends_block(a, e) == ends_block(a + c, e));
    if !ends_block(a, e) {
        lemma_end_stays(a, c, e + 1);
    }
}

/// Chunk boundaries do not matter: the payloads of two chunks joined are those
/// of the first, then those of what it left over joined with the second.
pub proof fn law_blocks_reassemble(a: Seq<u8>, c: Seq<u8>)
    ensures
        all_payloads(a + c) == all_payloads(a) + all_payloads(incomplete(a) + c),
        incomplete(a + c) == incomplete(incomplete(a) + c),
    decreases a.len(),
{
    lemma_end_from(a, 0);
    if first_end(a) is Some {
        let e = first_end(a)->0;
        lemma_end_stays(a, c, 0);
        assert((a + c).take(e) == a.take(e));
        assert((a + c).skip(e) == a.skip(e) + c);
        law_blocks_reassemble(a.skip(e), c);
        let head = match block_payload(a.take(e)) {
            Some(p) => seq![p],
            None => Seq::<Seq<u8>>::empty(),
        };
        assert(head + (all_payloads(a.skip(e)) + all_payloads(incomplete(a) + c)) == (head
            + all_payloads(a.skip(e))) + all_payloads(incomplete(a) + c));
    } else {
        assert(all_payloads(a) + all_payloads(a + c) == all_payloads(a + c));
    }
}

proof fn lemma_next_payload(b: Seq<u8>)
    ensures
        next_payload(b).1.len() <= b.len(),
        next_payload(b).0 is None ==> all_payloads(b).len() == 0 && next_payload(b).1 == incomplete(
            b,
        ) && first_end(next_payload(b).1) is None,
        next_payload(b).0 matches Some(p) ==> all_payloads(b) == seq![p] + all_payloads(
            next_payload(b).1,
        ) && incomplete(b) == incomplete(next_payload(b).1) && next_payload(b).1.len() < b.len(),
    decreases b.len(),
{
    lemma_end_from(b, 0);
    if first_end(b) is Some {
        let e = first_end(b)->0;
        if block_payload(b.take(e)) is None {
            lemma_next_payload(b.skip(e));
            assert(Seq::<Seq<u8>>::empty() + all_payloads(b.skip(e)) == all_payloads(b.skip(e)));
        }
    }
}

/// Popping takes the oldest payload and leaves the others in order; where
/// nothing is popped no payload is buffered.
pub proof fn law_payloads_in_order(b: Seq<u8>)
    ensures
        next_payload(b).0 is None ==> all_payloads(b).len() == 0 && next_payload(b).1 == incomplete(
            b,
        ),
        next_payload(b).0 matches Some(p) ==> all_payloads(b) == seq![p] + all_payloads(
            next_payload(b).1,
        ) && incomplete(b) == incomplete(next_payload(b).1),
{
    lemma_next_payload(b);
}

/// Whether a block of `b`, its terminator included, or what stands behind the
/// complete blocks, is larger than [`MAX_EVENT_BLOCK`].
pub open spec fn exceeds(b: Seq<u8>) -> bool
    decreases b.len(),
{
    match first_end(b) {
        None => b.len() > MAX_EVENT_BLOCK,
        Some(e) => if e <= 0 || e > b.len() {
            false
        } else {
            e > MAX_EVENT_BLOCK || exceeds(b.skip(e))
        },
    }
}

/// `b` up to the first of its blocks that is too large: all of it, where none
/// is.
pub open spec fn kept(b: Seq<u8>) -> Seq<u8>
    decreases b.len(),
{
    match first_end(b) {
        None => if b.len() > MAX_EVENT_BLOCK {
            Seq::empty()
        } else {
            b
        },
        Some(e) => if e <= 0 || e > b.len() {
            b
        } else if e > MAX_EVENT_BLOCK {
            Seq::empty()
        } else {
            b.take(e) + kept(b.skip(e))
        },
    }
}

/// A block that ends in `a` ends in `a` cut behind it, and stays the first.
proof fn lemma_first_block(a: Seq<u8>, rest: Seq<u8>)
    requires
        first_end(a) is Some,
    ensures
        2 <= first_end(a)->0 <= a.len(),
        first_end(a.take(first_end(a)->0) + rest) == first_end(a),
{
    let e = first_end(a)->0;
    lemma_end_from(a, 0);
    let head = a.take(e);
    assert forall|j: int| 0 <= j <= e implies #[trigger] ends_block(head, j) == ends_block(
        a,
        j,
    ) by {}
    lemma_end_from(head, 0);
    assert(ends_block(head, e));
    assert(first_end(head) == Some(e));
    lemma_end_stays(head, rest, 0);
}

/// What is kept holds no block that is too large, and is everything where
/// there was none.
proof fn lemma_kept(b: Seq<u8>)
    ensures
        !exceeds(kept(b)),
        !exceeds(b) ==> kept(b) == b,
        incomplete(kept(b)).len() <= MAX_EVENT_BLOCK,
    decreases b.len(),
{
    lemma_end_from(b, 0);
    if first_end(b) is None {
        if b.len() > MAX_EVENT_BLOCK {
            lemma_end_from(Seq::<u8>::empty(), 0);
        }
    } else {
        let e = first_end(b)->0;
        if e > MAX_EVENT_BLOCK {
            lemma_end_from(Seq::<u8>::empty(), 0);
        } else {
            let rest = kept(b.skip(e));
            lemma_kept(b.skip(e));
            lemma_first_block(b, rest);
            let k = b.take(e) + rest;
            assert(kept(b) == k);
            assert(first_end(k) == Some(e));
            assert(k.skip(e) == rest);
            assert(b.take(e) + b.skip(e) == b);
        }
    }
}

proof fn lemma_not_exceeding(b: Seq<u8>)
    requires
        !exceeds(b),
    ensures
        !exceeds(next_payload(b).1),
        incomplete(b).len() <= MAX_EVENT_BLOCK,
    decreases b.len(),
{
    lemma_end_from(b, 0);
    if first_end(b) is Some {
        let e = first_end(b)->0;
        lemma_not_exceeding(b.skip(e));
    }
}

/// The size limit is one on blocks, not on what arrives at once: whether a
/// body exceeds it, and which payloads come before, does not depend on how the
/// body is cut into chunks. A body cut behind `a` exceeds it where `a` does,
/// with the same payloads, and else where what `a` left over, joined with the
/// next chunk, does.
pub proof fn law_the_limit_ignores_chunking(a: Seq<u8>, c: Seq<u8>)
    ensures
        exceeds(a) ==> exceeds(a + c) && kept(a + c) == kept(a),
        !exceeds(a) ==> exceeds(a + c) == exceeds(incomplete(a) + c) && all_payloads(kept(a + c))
            == all_payloads(a) + all_payloads(kept(incomplete(a) + c)),
    decreases a.len(),
{
    lemma_end_from(a, 0);
    lemma_end_from(a + c, 0);
    if first_end(a) is Some {
        let e = first_end(a)->0;
        lemma_end_stays(a, c, 0);
        assert((a + c).take(e) == a.take(e));
        assert((a + c).skip(e) == a.skip(e) + c);
        law_the_limit_ignores_chunking(a.skip(e), c);
        if !exceeds(a) {
            let rest = kept(a.skip(e) + c);
            lemma_first_block(a, rest);
            let k = a.take(e) + rest;
            assert(kept(a + c) == k);
            assert(k.take(e) == a.take(e));
            assert(k.skip(e) == rest);
            let head = match block_payload(a.take(e)) {
                Some(p) => seq![p],
                None => Seq::<Seq<u8>>::empty(),
            };
            let left = all_payloads(kept(incomplete(a) + c));
            assert(head + (all_payloads(a.skip(e)) + left) == (head + all_payloads(a.skip(e)))
                + left);
        }
    } else {
        if a.len() > MAX_EVENT_BLOCK && first_end(a + c) is Some {
            let e = first_end(a + c)->0;
            if e <= a.len() {
                assert(ends_block(a, e) == ends_block(a + c, e));
            }
        }
        assert(all_payloads(a) + all_payloads(kept(a + c)) == all_payloads(kept(a + c)));
    }
}

/// What the reader of a progress stream does next.
pub enum ProgressStep {
    /// Decode the payload and hand it on.
    Emit(Vec<u8>),
    /// Read the next chunk of the body.
    Read,
    /// Yield one error item: a block exceeds its size limit.
    Oversized,
    /// The stream has ended.
    End,
}

/// What a read of the body brought.
pub enum BodyRead<'a> {
    /// A chunk.
    Chunk(&'a [u8]),
    /// The end of the body.
    End,
    /// A failure.
    Failed,
}

/// How the stream goes on after a read.
#[derive(Clone, Copy, Debug, PartialEq, Eq, Structural)]
pub enum BodyReaction {
    /// Go on with the next step.
    Continue,
    /// Yield one error item: the body could not be read.
    ReadFailed,
    /// End the stream; an incomplete trailing block is discarded.
    End,
}

/// How far a progress stream has come.
#[derive(Clone, Copy, Debug, PartialEq, Eq, Structural)]
pub enum Flow {
    /// The body is being read.
    Open,
    /// A block exceeded its size limit, which is still to be reported.
    Refused,
    /// An error item ended the stream.
    Over,
}

/// The reader of a progress stream.
#[derive(Debug)]
pub struct ProgressReader {
    buffer: Vec<u8>,
    flow: Flow,
}

/// The bytes of `buffer` up to its first block that is too large, none where
/// no block is.
fn refused_at(buffer: &Vec<u8>) -> (at: Option<usize>)
    ensures
        match at {
            Some(k) => exceeds(buffer@) && k <= buffer@.len() && kept(buffer@) == buffer@.take(
                k as int,
            ),
            None => !exceeds(buffer@),
        },
{
    let mut pos: usize = 0;
    assert(buffer@.skip(0) == buffer@);
    assert(buffer@.take(0) + kept(buffer@) == kept(buffer@));
    loop
        invariant
            pos <= buffer@.len(),
            exceeds(buffer@) == exceeds(buffer@.skip(pos as int)),
            kept(buffer@) == buffer@.take(pos as int) + kept(buffer@.skip(pos as int)),
        decreases buffer@.len() - pos,
    {
        let rest = vstd::slice::slice_subrange(buffer.as_slice(), pos, buffer.len());
        assert(rest@ == buffer@.skip(pos as int));
        match block_end(rest) {
            None => {
                if rest.len() > MAX_EVENT_BLOCK {
                    assert(buffer@.take(pos as int) + Seq::<u8>::empty() == buffer@.take(
                        pos as int,
                    ));
                    return Some(pos);
                }
                return None;
            },
            Some(end) => {
                if end > MAX_EVENT_BLOCK {
                    assert(buffer@.take(pos as int) + Seq::<u8>::empty() == buffer@.take(
                        pos as int,
                    ));
                    return Some(pos);
                }
                let ghost here = buffer@.skip(pos as int);
                assert(here.skip(end as int) == buffer@.skip(pos + end));
                assert(buffer@.take(pos as int) + (here.take(end as int) + kept(
                    here.skip(end as int),
                )) == buffer@.take(pos + end) + kept(buffer@.skip(pos + end)));
                pos = pos + end;
            },
        }
    }
}

impl ProgressReader {
    /// The bytes received and not yet handed on.
    pub closed spec fn buffer(&self) -> Seq<u8> {
        self.buffer@
    }

    /// How far the stream has come.
    pub closed spec fn flow(&self) -> Flow {
        self.flow
    }

    /// No block that is buffered is too large, so that a peer cannot make the
    /// reader buffer an unterminated block past the limit.
    #[verifier::type_invariant]
    spec fn bounded(self) -> bool {
        !exceeds(self.buffer@)
    }

    /// A reader of a body from its start.
    pub fn new() -> (reader: ProgressReader)
        ensures
            reader.buffer() == Seq::<u8>::empty(),
            reader.flow() == Flow::Open,
    {
        proof {
            lemma_end_from(Seq::<u8>::empty(), 0);
            assert(!exceeds(Seq::<u8>::empty()));
        }
        let buffer: Vec<u8> = Vec::new();
        assert(buffer@ == Seq::<u8>::empty());
        ProgressReader { buffer, flow: Flow::Open }
    }

    /// What to do next: hand on the oldest payload, else report a block that
    /// was too large, else end after an error item, else read on.
    pub fn step(&mut self) -> (step: ProgressStep)
        ensures
            final(self).buffer() == next_payload(old(self).buffer()).1,
            incomplete(final(self).buffer()).len() <= MAX_EVENT_BLOCK,
            match step {
                ProgressStep::Emit(p) => {
                    &&& next_payload(old(self).buffer()).0 == Some(p@)
                    &&& final(self).flow() == old(self).flow()
                },
                ProgressStep::Read => {
                    &&& next_payload(old(self).buffer()).0 is None
                    &&& old(self).flow() == Flow::Open
                    &&& final(self).flow() == Flow::Open
                },
                ProgressStep::Oversized => {
                    &&& next_payload(old(self).buffer()).0 is None
                    &&& old(self).flow() == Flow::Refused
                    &&& final(self).flow() == Flow::Over
                },
                ProgressStep::End => {
                    &&& next_payload(old(self).buffer()).0 is None
                    &&& old(self).flow() == Flow::Over
                    &&& final(self).flow() == Flow::Over
                },
            },
    {
        proof {
            use_type_invariant(&*self);
            lemma_end_from(Seq::<u8>::empty(), 0);
            lemma_not_exceeding(self.buffer@);
            lemma_not_exceeding(next_payload(self.buffer@).1);
        }
        let mut buffer: Vec<u8> = Vec::new();
        std::mem::swap(&mut buffer, &mut self.buffer);
        let payload = next_buffered_event(&mut buffer);
        self.buffer = buffer;
        match payload {
            Some(p) => ProgressStep::Emit(p),
            None => match self.flow {
                Flow::Open => ProgressStep::Read,
                Flow::Refused => {
                    self.flow = Flow::Over;
                    ProgressStep::Oversized
                },
                Flow::Over => ProgressStep::End,
            },
        }
    }

    /// Takes in what a read brought. A chunk is taken in whole, however large,
    /// unless a block in it, or an unterminated block behind them, exceeds
    /// [`MAX_EVENT_BLOCK`]: then what stands before that block is still handed
    /// on, and nothing more is taken in. A read failure ends the stream.
    pub fn on_read(&mut self, read: BodyRead) -> (reaction: BodyReaction)
        ensures
            incomplete(final(self).buffer()).len() <= MAX_EVENT_BLOCK,
            match read {
                BodyRead::Chunk(chunk) => {
                    &&& reaction == BodyReaction::Continue
                    &&& old(self).flow() == Flow::Open ==> {
                        let grown = old(self).buffer() + chunk@;
                        &&& final(self).buffer() == kept(grown)
                        &&& !exceeds(grown) ==> kept(grown) == grown
                        &&& final(self).flow() == if exceeds(grown) {
                            Flow::Refused
                        } else {
                            Flow::Open
                        }
                    }
                    &&& old(self).flow() != Flow::Open ==> {
                        &&& final(self).buffer() == old(self).buffer()
                        &&& final(self).flow() == old(self).flow()
                    }
                },
                BodyRead::End => {
                    &&& reaction == BodyReaction::End
                    &&& final(self).buffer() == old(self).buffer()
                    &&& final(self).flow() == old(self).flow()
                },
                BodyRead::Failed => {
                    &&& reaction == BodyReaction::ReadFailed
                    &&& final(self).buffer() == old(self).buffer()
                    &&& final(self).flow() == Flow::Over
                },
            },
    {
        proof {
            use_type_invariant(&*self);
            lemma_end_from(Seq::<u8>::empty(), 0);
            lemma_not_exceeding(self.buffer@);
        }
        match read {
            BodyRead::Chunk(chunk) => {
                if self.flow != Flow::Open {
                    return BodyReaction::Continue;
                }
                let mut grown: Vec<u8> = Vec::new();
                std::mem::swap(&mut grown, &mut self.buffer);
                grown.extend_from_slice(chunk);
                assert(grown@ == old(self).buffer() + chunk@);
                proof {
                    lemma_kept(grown@);
                }
                match refused_at(&grown) {
                    Some(at) => {
                        grown.truncate(at);
                        self.flow = Flow::Refused;
                    },
                    None => {},
                }
                self.buffer = grown;
                BodyReaction::Continue
            },
            BodyRead::End => BodyReaction::End,
            BodyRead::Failed => {
                self.flow = Flow::Over;
                BodyReaction::ReadFailed
            },
        }
    }
}

/// One error item ends the stream: a read is asked for only where no payload
/// is buffered, so that after a failure nothing is left to hand on.
pub proof fn law_a_failure_ends_the_stream(b: Seq<u8>)
    requires
        next_payload(b).0 is None,
    ensures
        next_payload(next_payload(b).1).0 is None,
{
    lemma_next_payload(b);
}

/// Takes in a chunk of an error body, up to [`MAX_ERROR_BODY`] bytes in all,
/// and says whether there is room for more.
pub fn gather_error_body(buffer: &mut Vec<u8>, chunk: &[u8]) -> (more: bool)
    requires
        old(buffer)@.len() <= MAX_ERROR_BODY,
    ensures
        old(buffer)@.len() + chunk@.len() <= MAX_ERROR_BODY ==> final(buffer)@ == old(buffer)@
            + chunk@,
        old(buffer)@.len() + chunk@.len() > MAX_ERROR_BODY ==> final(buffer)@ == (old(buffer)@
            + chunk@).take(MAX_ERROR_BODY as int),
        final(buffer)@.len() <= MAX_ERROR_BODY,
        more == (old(buffer)@.len() + chunk@.len() < MAX_ERROR_BODY),
{
    let ghost start = buffer@;
    let mut i: usize = 0;
    while i < chunk.len() && buffer.len() < MAX_ERROR_BODY
        invariant
            i <= chunk@.len(),
            buffer@.len() <= MAX_ERROR_BODY,
            buffer@ == start + chunk@.take(i as int),
        decreases chunk@.len() - i,
    {
        buffer.push(chunk[i]);
        i = i + 1;
    }
    assert(i < chunk@.len() ==> buffer@ == (start + chunk@).take(MAX_ERROR_BODY as int));
    assert(i == chunk@.len() ==> buffer@ == start + chunk@);
    buffer.len() < MAX_ERROR_BODY
}

/// The hex digits of `n`, with no leading zero.
pub open spec fn short_hex(n: int) -> Seq<char>
    decreases n,
{
    if n < 16 {
        seq![hex_digit(n)]
    } else {
        short_hex(n / 16).push(hex_digit(n % 16))
    }
}

/// The escape of a control character.
pub open spec fn control_escape(c: char) -> Seq<char> {
    if c == '\t' {
        "\\t"@
    } else if c == '\r' {
        "\\r"@
    } else if c == '\n' {
        "\\n"@
    } else {
        "\\u{"@ + short_hex(c as u32 as int) + "}"@
    }
}

/// `s` with an escape for every control character.
pub open spec fn escaped_controls(s: Seq<char>) -> Seq<char>
    decreases s.len(),
{
    if s.len() == 0 {
        Seq::empty()
    } else if control(s.last()) {
        escaped_controls(s.drop_last()) + control_escape(s.last())
    } else {
        escaped_controls(s.drop_last()).push(s.last())
    }
}

/// `text` with an escape for every control character, so a hostile body cannot
/// forge log lines or smuggle terminal control sequences into a diagnostic.
pub fn escape_controls(text: &str) -> (escaped: String)
    ensures
        escaped@ == escaped_controls(text@),
{
    let mut escaped = String::new();
    for c in it: text.chars()
        invariant
            it.seq() == text@,
            escaped@ == escaped_controls(text@.take(it.index())),
    {
        assert(text@.take(it.index() + 1).drop_last() == text@.take(it.index()));
        if !is_control(c) {
            escaped.push(c);
        } else if c == '\t' {
            escaped.push_str("\\t");
        } else if c == '\r' {
            escaped.push_str("\\r");
        } else if c == '\n' {
            escaped.push_str("\\n");
        } else {
            let u: u32 = c as u32;
            let digits = render_hex(u as u128, if u < 16 {
                1
            } else {
                2
            });
            proof {
                reveal_with_fuel(hex_digits, 3);
                reveal_with_fuel(short_hex, 3);
                assert(digits@ =~= short_hex(u as int));
            }
            let ghost before = escaped@;
            escaped.push_str("\\u{");
            escaped.push_str(digits.as_str());
            escaped.push_str("}");
            assert(escaped@ == before + ("\\u{"@ + short_hex(u as int) + "}"@));
        }
    }
    assert(text@.take(text@.len() as int) == text@);
    escaped
}

/// The text kept of an error body.
pub open spec fn error_text(body: Seq<u8>) -> Seq<char> {
    if body.len() == 0 {
        "(empty body)"@
    } else {
        escaped_controls(decoded_lossily(body))
    }
}

/// The text kept of the first bytes of an error body.
pub fn error_body(buffer: &Vec<u8>) -> (text: String)
    ensures
        text@ == error_text(buffer@),
{
    if buffer.len() == 0 {
        "(empty body)".to_owned()
    } else {
        let lossy = lossy_text(buffer.as_slice());
        escape_controls(lossy.as_str())
    }
}

/// No control character survives in an error text.
pub proof fn law_no_control_survives(s: Seq<char>)
    ensures
        forall|i: int| 0 <= i < escaped_controls(s).len() ==> !control(#[trigger] escaped_controls(s)[i]),
    decreases s.len(),
{
    if s.len() > 0 {
        law_no_control_survives(s.drop_last());
        reveal_strlit("\\t");
        reveal_strlit("\\r");
        reveal_strlit("\\n");
        reveal_strlit("\\u{");
        reveal_strlit("}");
        lemma_short_hex(s.last() as u32 as int);
        let before = escaped_controls(s.drop_last());
        let all = escaped_controls(s);
        assert forall|i: int| 0 <= i < all.len() implies !control(#[trigger] all[i]) by {
            if i < before.len() {
                assert(all[i] == before[i]);
            } else if control(s.last()) {
                assert(all[i] == control_escape(s.last())[i - before.len()]);
            }
        }
    }
}

proof fn lemma_short_hex(n: int)
    requires
        0 <= n,
    ensures
        forall|i: int| 0 <= i < short_hex(n).len() ==> !control(#[trigger] short_hex(n)[i]),
    decreases n,
{
    let last = hex_digit(n % 16);
    assert(!control(last));
    if n >= 16 {
        let before = short_hex(n / 16);
        lemma_short_hex(n / 16);
        assert forall|i: int| 0 <= i < short_hex(n).len() implies !control(
            #[trigger] short_hex(n)[i],
        ) by {
            if i < before.len() {
                assert(short_hex(n)[i] == before[i]);
            }
        }
    }
}

/// Turns an answered progress subscription into a reader of its events. The
/// endpoint answers only an event stream on success, so a non-success status
/// is an error that carries the bounded, control-escaped body.
pub fn subscribe(status: u16, body: &Vec<u8>) -> (outcome: Result<ProgressReader, GatewayError>)
    ensures
        success(status) ==> (outcome matches Ok(reader) && reader.buffer() == Seq::<u8>::empty()
            && reader.flow() == Flow::Open),
        !success(status) ==> (outcome matches Err(GatewayError::Status { status: s, body: b }) && s
            == status && b@ == error_text(body@)),
{
    if !is_success(status) {
        return Err(GatewayError::Status { status, body: error_body(body) });
    }
    Ok(ProgressReader::new())
}

/// The lines behind a line feed stand on their own.
proof fn lemma_lines_follow(a: Seq<u8>, b: Seq<u8>)
    requires
        a.len() == 0 || a.last() == LINE_FEED,
    ensures
        lines(a).len() > 0,
        lines(a).last().len() == 0,
        lines(a + b) == lines(a).drop_last() + lines(b),
    decreases b.len(),
{
    lemma_lines(a);
    lemma_lines(b);
    if b.len() == 0 {
        assert(a + b == a);
        assert(lines(a).last() =~= Seq::<u8>::empty());
        assert(lines(a) =~= lines(a).drop_last() + lines(b));
    } else {
        let c = b.drop_last();
        lemma_lines_follow(a, c);
        lemma_lines(c);
        assert((a + b).drop_last() == a + c);
        assert((a + b).last() == b.last());
        if b.last() == LINE_FEED {
            assert((lines(a).drop_last() + lines(c)).push(Seq::empty()) =~= lines(a).drop_last()
                + lines(b));
        } else {
            assert((lines(a).drop_last() + lines(c)).drop_last().push(
                lines(c).last().push(b.last()),
            ) =~= lines(a).drop_last() + lines(b));
        }
    }
}

proof fn lemma_lines(b: Seq<u8>)
    ensures
        lines(b).len() > 0,
    decreases b.len(),
{
    if b.len() > 0 {
        lemma_lines(b.drop_last());
    }
}

/// A line and its line feed are that line and an empty one.
proof fn lemma_one_line(line: Seq<u8>)
    requires
        !line.contains(LINE_FEED),
    ensures
        lines(line) == seq![line],
        lines(line.push(LINE_FEED)) == seq![line, Seq::empty()],
    decreases line.len(),
{
    if line.len() > 0 {
        let head = line.drop_last();
        assert(line.contains(line.last()));
        assert(!head.contains(LINE_FEED)) by {
            if head.contains(LINE_FEED) {
                let k = choose|k: int| 0 <= k < head.len() && head[k] == LINE_FEED;
                assert(line[k] == LINE_FEED);
            }
        }
        lemma_one_line(head);
        assert(head.push(line.last()) =~= line);
        assert(seq![head].drop_last().push(line) =~= seq![line]);
    } else {
        assert(line =~= Seq::<u8>::empty());
    }
    let ended = line.push(LINE_FEED);
    assert(ended.drop_last() =~= line);
    assert(ended.last() == LINE_FEED);
    assert(lines(ended) == lines(line).push(Seq::<u8>::empty()));
    assert(seq![line].push(Seq::<u8>::empty()) =~= seq![line, Seq::<u8>::empty()]);
}

/// What lines carry depends on the lines before them only through what those
/// carry.
proof fn lemma_data_follows(a: Seq<Seq<u8>>, b: Seq<Seq<u8>>, c: Seq<Seq<u8>>)
    requires
        data_of(a) == data_of(b),
    ensures
        data_of(a + c) == data_of(b + c),
    decreases c.len(),
{
    if c.len() == 0 {
        assert(a + c =~= a);
        assert(b + c =~= b);
    } else {
        lemma_data_follows(a, b, c.drop_last());
        assert((a + c).drop_last() =~= a + c.drop_last());
        assert((b + c).drop_last() =~= b + c.drop_last());
    }
}

/// An empty line at the end carries nothing.
proof fn lemma_payload_before(before: Seq<u8>)
    requires
        before.len() == 0 || before.last() == LINE_FEED,
    ensures
        lines(before).len() > 0,
        data_of(lines(before)) == data_of(lines(before).drop_last()),
{
    lemma_lines_follow(before, Seq::empty());
    let last = lines(before).last();
    assert(without_return(last) == last);
}

/// A line that is no `data:` line makes no difference to a block, wherever it
/// stands in it: with a comment, an event name, an id, or a retry time put in
/// or left out, the block has the same payload.
#[verifier::rlimit(40)]
pub proof fn law_other_lines_make_no_difference(before: Seq<u8>, line: Seq<u8>, after: Seq<u8>)
    requires
        before.len() == 0 || before.last() == 10,
        !line.contains(10u8),
        !(line.len() >= 5 && line[0] == 100 && line[1] == 97 && line[2] == 116 && line[3] == 97
            && line[4] == 58),
    ensures
        block_payload(before + line + seq![10u8] + after) == block_payload(before + after),
{
    let ended = line.push(LINE_FEED);
    let lead = before + ended;
    assert(before + line + seq![10u8] + after =~= lead + after);
    lemma_one_line(line);
    lemma_lines_follow(before, ended);
    lemma_lines_follow(lead, after);
    lemma_lines_follow(before, after);
    let head = lines(before).drop_last();
    assert(lines(lead).drop_last() =~= head.push(line));
    assert(head.push(line).drop_last() =~= head);
    let bare = without_return(line);
    law_a_data_line_carries_its_value(bare, bare);
    assert(data_value(bare) is None) by {
        if data_value(bare) is Some {
            assert(bare[0] == line[0] && bare[1] == line[1] && bare[2] == line[2] && bare[3]
                == line[3] && bare[4] == line[4]);
        }
    }
    assert(data_of(head.push(line)) == data_of(head));
    lemma_data_follows(head.push(line), head, lines(after));
}

/// The `data:` lines make the payload: a block of none has none, and one more
/// at its end joins its value behind the payload and a line feed, or is the
/// payload where there was none and it carries a byte. One leading space and
/// the carriage return of a line's end do not belong to a value.
#[verifier::rlimit(40)]
pub proof fn law_data_lines_make_the_payload(before: Seq<u8>, value: Seq<u8>, crlf: bool)
    requires
        before.len() == 0 || before.last() == 10,
        !value.contains(10u8),
        value.len() == 0 || value.last() != 13,
    ensures
        block_payload(Seq::empty()) is None,
        ({
            let line = before + seq![100u8, 97u8, 116u8, 97u8, 58u8, 32u8] + value;
            let block = if crlf {
                line + seq![13u8, 10u8]
            } else {
                line + seq![10u8]
            };
            block_payload(block) == match block_payload(before) {
                Some(payload) => Some(payload + seq![10u8] + value),
                None => if value.len() > 0 {
                    Some(value)
                } else {
                    None
                },
            }
        }),
{
    let bare = seq![100u8, 97u8, 116u8, 97u8, 58u8, 32u8] + value;
    let raw = if crlf {
        bare.push(13u8)
    } else {
        bare
    };
    let line = before + seq![100u8, 97u8, 116u8, 97u8, 58u8, 32u8] + value;
    let block = if crlf {
        line + seq![13u8, 10u8]
    } else {
        line + seq![10u8]
    };
    let ended = raw.push(LINE_FEED);
    assert(block =~= before + ended);
    assert(!raw.contains(LINE_FEED)) by {
        if raw.contains(LINE_FEED) {
            let k = choose|k: int| 0 <= k < raw.len() && raw[k] == LINE_FEED;
            if 6 <= k < bare.len() {
                assert(value[k - 6] == 10u8);
            }
        }
    }
    law_a_data_line_carries_its_value(bare, value);
    assert(bare.last() == if value.len() > 0 {
        value.last()
    } else {
        32u8
    });
    assert(bare.push(13u8).drop_last() =~= bare);
    assert(without_return(raw) == bare);
    lemma_one_line(raw);
    lemma_lines_follow(before, ended);
    lemma_payload_before(before);
    lemma_payload_before(Seq::empty());
    lemma_payload_before(block);
    let head = lines(before).drop_last();
    assert(lines(block).drop_last() =~= head.push(raw));
    assert(head.push(raw).drop_last() =~= head);
    assert(lines(Seq::<u8>::empty()).drop_last() =~= Seq::<Seq<u8>>::empty());
    let data = data_of(head);
    assert(data_of(head.push(raw)) == with_line(data, raw));
    assert(data.push(LINE_FEED) + value =~= data + seq![10u8] + value);
}

/// A block ends at its first blank line, whether its lines end with a line
/// feed or with a carriage return and a line feed; before that line nothing
/// ends it, and without one it is incomplete.
pub proof fn law_a_block_ends_at_its_first_blank_line(b: Seq<u8>, j: int)
    ensures
        ({
            let blank = {
                ||| 2 <= j <= b.len() && b[j - 2] == 10 && b[j - 1] == 10
                ||| 4 <= j <= b.len() && b[j - 4] == 13 && b[j - 3] == 10 && b[j - 2] == 13 && b[j
                    - 1] == 10
            };
            &&& first_end(b) == Some(j) ==> blank
            &&& first_end(b) is None ==> !blank
            &&& first_end(b) is Some && j < first_end(b)->0 ==> !blank
        }),
{
    lemma_end_from(b, 0);
    if first_end(b) == Some(j) {
        assert(ends_block(b, j));
    } else if j >= 0 && (first_end(b) is None || j < first_end(b)->0) {
        assert(!ends_block(b, j));
    }
}

/// The first complete block is decoded first: its payload, where it has one,
/// is the next, and what stands behind the block is left; a block without one
/// is skipped, and without a complete block nothing is taken.
pub proof fn law_blocks_are_taken_one_by_one(b: Seq<u8>)
    ensures
        first_end(b) is None ==> next_payload(b) == (None::<Seq<u8>>, b) && all_payloads(b).len()
            == 0 && incomplete(b) == b,
        first_end(b) matches Some(e) ==> 2 <= e <= b.len() && {
            let block = b.take(e);
            let rest = b.skip(e);
            match block_payload(block) {
                Some(payload) => {
                    &&& next_payload(b) == (Some(payload), rest)
                    &&& all_payloads(b) == seq![payload] + all_payloads(rest)
                },
                None => {
                    &&& next_payload(b) == next_payload(rest)
                    &&& all_payloads(b) == all_payloads(rest)
                },
            }
        },
{
    lemma_end_from(b, 0);
    if first_end(b) is Some {
        let rest = b.skip(first_end(b)->0);
        assert(Seq::<Seq<u8>>::empty() + all_payloads(rest) =~= all_payloads(rest));
    }
}

/// The limits: a block may take a mebibyte, an error body two thousand bytes.
pub proof fn law_the_limits()
    ensures
        MAX_EVENT_BLOCK == 1_048_576,
        MAX_ERROR_BODY == 2000,
{
}

/// A body exceeds the limit where its first block does, terminator included,
/// or, if that ends in time, where what stands behind it does; a body without
/// a complete block where it is longer than a block may be. What is kept is
/// the body up to the block that is too large, and nothing of that block.
#[verifier::rlimit(40)]
pub proof fn law_what_is_kept_of_a_body(b: Seq<u8>)
    ensures
        kept(b).len() <= b.len(),
        b.take(kept(b).len() as int) == kept(b),
        !exceeds(kept(b)),
        !exceeds(b) ==> kept(b) == b,
        exceeds(b) ==> {
            let rest = b.skip(kept(b).len() as int);
            &&& incomplete(kept(b)).len() == 0
            &&& rest.len() > 1_048_576
            &&& first_end(rest) is None || first_end(rest)->0 > 1_048_576
        },
        first_end(b) is None ==> exceeds(b) == (b.len() > 1_048_576),
    decreases b.len(),
{
    lemma_end_from(b, 0);
    lemma_kept(b);
    lemma_end_from(Seq::<u8>::empty(), 0);
    assert(b.skip(0) =~= b);
    assert(b.take(0) =~= Seq::<u8>::empty());
    assert(b.take(b.len() as int) =~= b);
    if first_end(b) is Some {
        let e = first_end(b)->0;
        if e <= MAX_EVENT_BLOCK {
            let rest = b.skip(e);
            law_what_is_kept_of_a_body(rest);
            let k = kept(rest).len() as int;
            lemma_first_block(b, kept(rest));
            assert(kept(b) == b.take(e) + kept(rest));
            assert(b.take(e + k) =~= b.take(e) + rest.take(k));
            assert(b.skip(e + k) =~= rest.skip(k));
            assert(kept(b).skip(e) =~= kept(rest));
        }
    }
}

/// Escaping goes character by character.
pub proof fn law_escaping_goes_character_by_character(a: Seq<char>, b: Seq<char>)
    ensures
        escaped_controls(Seq::empty()).len() == 0,
        escaped_controls(a + b) == escaped_controls(a) + escaped_controls(b),
    decreases b.len(),
{
    if b.len() == 0 {
        assert(a + b =~= a);
        assert(escaped_controls(a) + escaped_controls(b) =~= escaped_controls(a));
    } else {
        law_escaping_goes_character_by_character(a, b.drop_last());
        assert((a + b).drop_last() =~= a + b.drop_last());
        assert((a + b).last() == b.last());
        assert(escaped_controls(a + b) =~= escaped_controls(a) + escaped_controls(b));
    }
}

/// What a character becomes: one that is no control stays, the tab, the
/// carriage return, and the line feed become a backslash and their letter, and
/// every other control its number in lowercase hex digits, between `\\u{` and
/// `}`.
pub proof fn law_a_control_is_shown_by_its_number(c: char)
    ensures
        !control(c) ==> escaped_controls(seq![c]) == seq![c],
        c == '\t' ==> escaped_controls(seq![c]) == seq!['\\', 't'],
        c == '\r' ==> escaped_controls(seq![c]) == seq!['\\', 'r'],
        c == '\n' ==> escaped_controls(seq![c]) == seq!['\\', 'n'],
        control(c) && c != '\t' && c != '\r' && c != '\n' ==> {
            let u = c as u32 as int;
            let out = escaped_controls(seq![c]);
            &&& out.take(3) == seq!['\\', 'u', '{']
            &&& out.last() == '}'
            &&& u < 16 ==> out.len() == 5 && out[3] as u32 == if u < 10 {
                0x30 + u
            } else {
                0x57 + u
            }
            &&& u >= 16 ==> out.len() == 6 && out[3] as u32 == 0x30 + u / 16 && out[4] as u32
                == if u % 16 < 10 {
                0x30 + u % 16
            } else {
                0x57 + u % 16
            }
        },
{
    reveal_strlit("\\t");
    reveal_strlit("\\r");
    reveal_strlit("\\n");
    reveal_strlit("\\u{");
    reveal_strlit("}");
    assert(seq![c].drop_last() =~= Seq::<char>::empty());
    assert(escaped_controls(Seq::empty()) =~= Seq::<char>::empty());
    assert(Seq::<char>::empty().push(c) =~= seq![c]);
    assert(Seq::<char>::empty() + control_escape(c) =~= control_escape(c));
    let u = c as u32 as int;
    if control(c) && c != '\t' && c != '\r' && c != '\n' {
        reveal_with_fuel(short_hex, 3);
        let out = escaped_controls(seq![c]);
        assert(out == control_escape(c));
        assert(u < 0xa0);
        assert(out.take(3) =~= seq!['\\', 'u', '{']);
        if u < 16 {
            assert(short_hex(u) == seq![hex_digit(u)]);
            assert(out[3] == hex_digit(u));
        } else {
            assert(short_hex(u / 16) == seq![hex_digit(u / 16)]);
            assert(short_hex(u).len() == 2);
            assert(out[3] == hex_digit(u / 16));
            assert(out[4] == hex_digit(u % 16));
        }
    }
}

/// The text of an error body is its decoded text with the controls escaped,
/// and says so where the body is empty.
pub proof fn law_an_error_body_is_shown(body: Seq<u8>)
    ensures
        body.len() == 0 ==> error_text(body) == "(empty body)"@,
        body.len() > 0 ==> error_text(body) == escaped_controls(decoded_lossily(body)),
{
}

} // verus!
