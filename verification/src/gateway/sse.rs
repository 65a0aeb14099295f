//! The SSE decode half of the gateway client: the incremental decoder that
//! turns arbitrary byte chunks into `data:` payloads.

use crate::text::{decoded_lossily, lossy_text, texts};
use std::collections::VecDeque;
use vstd::prelude::*;

verus! {

/// The byte that ends a line.
pub const LINE_FEED: u8 = 10;

/// The byte that may stand before a line feed.
pub const CARRIAGE_RETURN: u8 = 13;

/// `data:` as bytes.
pub open spec fn data_field() -> Seq<u8> {
    seq![100u8, 97u8, 116u8, 97u8, 58u8]
}

/// A line without the carriage return at its end.
pub open spec fn without_return(line: Seq<u8>) -> Seq<u8> {
    if line.len() > 0 && line.last() == CARRIAGE_RETURN {
        line.drop_last()
    } else {
        line
    }
}

/// What a `data:` line carries: the bytes after the field name, without one
/// leading space.
pub open spec fn data_value(line: Seq<u8>) -> Option<Seq<u8>> {
    if line.len() < 5 || line.take(5) != data_field() {
        None
    } else if line.len() > 5 && line[5] == 32 {
        Some(line.skip(6))
    } else {
        Some(line.skip(5))
    }
}

/// The state of a decoder.
pub struct DecoderModel {
    /// The bytes received but not yet ended by a line feed.
    pub partial: Seq<u8>,
    /// The joined `data:` lines of the event being gathered.
    pub data: Seq<char>,
    /// Whether that event holds a `data:` line.
    pub has_data: bool,
    /// The completed payloads, oldest first.
    pub out: Seq<Seq<char>>,
}

/// A decoder that has seen nothing.
pub open spec fn fresh() -> DecoderModel {
    DecoderModel {
        partial: Seq::empty(),
        data: Seq::empty(),
        has_data: false,
        out: Seq::empty(),
    }
}

/// The event being gathered is complete; one without data is dropped.
pub open spec fn dispatched(m: DecoderModel) -> DecoderModel {
    if m.has_data {
        DecoderModel { data: Seq::empty(), has_data: false, out: m.out.push(m.data), ..m }
    } else {
        m
    }
}

/// One line, without its line feed, has arrived. A blank line ends the event,
/// a `data:` line joins it, and every other line is dropped.
pub open spec fn after_line(m: DecoderModel, raw: Seq<u8>) -> DecoderModel {
    let line = without_return(raw);
    if line.len() == 0 {
        dispatched(m)
    } else if data_value(line) is Some {
        let value = decoded_lossily(data_value(line)->0);
        DecoderModel {
            data: if m.has_data {
                m.data.push('\n') + value
            } else {
                m.data + value
            },
            has_data: true,
            ..m
        }
    } else {
        m
    }
}

/// One byte has arrived.
pub open spec fn after_byte(m: DecoderModel, b: u8) -> DecoderModel {
    if b == LINE_FEED {
        after_line(DecoderModel { partial: Seq::empty(), ..m }, m.partial)
    } else {
        DecoderModel { partial: m.partial.push(b), ..m }
    }
}

/// The bytes of `chunk` have arrived.
pub open spec fn fed(m: DecoderModel, chunk: Seq<u8>) -> DecoderModel
    decreases chunk.len(),
{
    if chunk.len() == 0 {
        m
    } else {
        after_byte(fed(m, chunk.drop_last()), chunk.last())
    }
}

/// The input has ended: a trailing line without a line feed counts, and the
/// event being gathered is complete.
pub open spec fn finished(m: DecoderModel) -> DecoderModel {
    if m.partial.len() > 0 {
        dispatched(after_line(DecoderModel { partial: Seq::empty(), ..m }, m.partial))
    } else {
        dispatched(m)
    }
}

/// Every payload of a whole input.
pub open spec fn payloads(input: Seq<u8>) -> Seq<Seq<char>> {
    finished(fed(fresh(), input)).out
}

/// Chunk boundaries do not matter: feeding two chunks is feeding them joined.
pub proof fn law_chunking(m: DecoderModel, a: Seq<u8>, b: Seq<u8>)
    ensures
        fed(fed(m, a), b) == fed(m, a + b),
    decreases b.len(),
{
    if b.len() == 0 {
        assert(a + b == a);
    } else {
        law_chunking(m, a, b.drop_last());
        assert((a + b).drop_last() == a + b.drop_last());
        assert((a + b).last() == b.last());
    }
}

/// The bytes of `chunks`, one chunk after the other.
pub open spec fn joined(chunks: Seq<Seq<u8>>) -> Seq<u8>
    decreases chunks.len(),
{
    if chunks.len() == 0 {
        Seq::empty()
    } else {
        joined(chunks.drop_last()) + chunks.last()
    }
}

/// The chunks have arrived one after the other.
pub open spec fn fed_all(m: DecoderModel, chunks: Seq<Seq<u8>>) -> DecoderModel
    decreases chunks.len(),
{
    if chunks.len() == 0 {
        m
    } else {
        fed(fed_all(m, chunks.drop_last()), chunks.last())
    }
}

/// However an input is cut into chunks, the decoder gives the payloads of the
/// whole.
pub proof fn law_payloads_of_chunks(chunks: Seq<Seq<u8>>)
    ensures
        finished(fed_all(fresh(), chunks)).out == payloads(joined(chunks)),
{
    lemma_fed_all(fresh(), chunks);
}

proof fn lemma_fed_all(m: DecoderModel, chunks: Seq<Seq<u8>>)
    ensures
        fed_all(m, chunks) == fed(m, joined(chunks)),
    decreases chunks.len(),
{
    if chunks.len() > 0 {
        lemma_fed_all(m, chunks.drop_last());
        law_chunking(m, joined(chunks.drop_last()), chunks.last());
    }
}

/// A decoder that has gathered no `data:` line holds no data.
pub open spec fn gathering(m: DecoderModel) -> bool {
    !m.has_data ==> m.data.len() == 0
}

/// Nothing is carried from one event into the next: a decoder starts with no
/// data, and where an event has no `data:` line it holds none, whatever
/// arrives.
pub proof fn law_events_stay_apart(m: DecoderModel, chunk: Seq<u8>)
    ensures
        gathering(fresh()),
        gathering(m) ==> gathering(fed(m, chunk)) && gathering(finished(m)),
    decreases chunk.len(),
{
    if chunk.len() > 0 {
        law_events_stay_apart(m, chunk.drop_last());
    }
}

/// Payloads are only ever added, at the end: what was completed stays, in
/// order, whatever arrives.
pub proof fn law_payloads_in_arrival_order(m: DecoderModel, chunk: Seq<u8>)
    ensures
        m.out.is_prefix_of(fed(m, chunk).out),
        m.out.is_prefix_of(finished(m).out),
    decreases chunk.len(),
{
    if chunk.len() > 0 {
        law_payloads_in_arrival_order(m, chunk.drop_last());
    }
}

/// What a decoder has completed only stands before what it completes next.
proof fn lemma_completed_stands_before(m: DecoderModel, before: Seq<Seq<char>>, chunk: Seq<u8>)
    ensures
        fed(DecoderModel { out: before + m.out, ..m }, chunk) == (DecoderModel {
            out: before + fed(m, chunk).out,
            ..fed(m, chunk)
        }),
        finished(DecoderModel { out: before + m.out, ..m }) == (DecoderModel {
            out: before + finished(m).out,
            ..finished(m)
        }),
    decreases chunk.len(),
{
    let whole = DecoderModel { out: before + m.out, ..m };
    if chunk.len() > 0 {
        lemma_completed_stands_before(m, before, chunk.drop_last());
        let now = fed(m, chunk.drop_last());
        assert((before + now.out).push(now.data) == before + now.out.push(now.data));
    }
    let last = after_line(DecoderModel { partial: Seq::empty(), ..m }, m.partial);
    assert((before + m.out).push(m.data) == before + m.out.push(m.data));
    assert((before + m.out).push(last.data) == before + m.out.push(last.data));
    assert((before + last.out).push(last.data) == before + last.out.push(last.data));
    assert(finished(whole).out == before + finished(m).out);
}

/// Finishing leaves nothing behind but the completed payloads: finishing again
/// changes nothing, and what arrives after it decodes as a new input.
pub proof fn law_finishing_starts_over(m: DecoderModel, chunk: Seq<u8>)
    requires
        gathering(m),
    ensures
        finished(m) == (DecoderModel { out: finished(m).out, ..fresh() }),
        finished(finished(m)) == finished(m),
        fed(finished(m), chunk) == (DecoderModel {
            out: finished(m).out + fed(fresh(), chunk).out,
            ..fed(fresh(), chunk)
        }),
        finished(fed(finished(m), chunk)).out == finished(m).out + payloads(chunk),
{
    let end = finished(m);
    let done = end.out;
    assert(m.data.len() == 0 ==> m.data == Seq::<char>::empty());
    assert(m.partial.len() == 0 ==> m.partial == Seq::<u8>::empty());
    assert(end.partial == fresh().partial);
    assert(end.data == fresh().data);
    assert(done + fresh().out == done);
    lemma_completed_stands_before(fresh(), done, chunk);
    lemma_completed_stands_before(fed(fresh(), chunk), done, Seq::empty());
}

/// Incremental SSE decoder: turns arbitrary byte chunks into `data:`
/// payloads, one per event, in arrival order.
///
/// Only `data:` fields are collected; `event:`, `id:`, `retry:`, and comments
/// are dropped. Multiple `data:` lines in one event are joined with a line
/// feed.
#[derive(Debug)]
pub struct SseDecoder {
    partial: Vec<u8>,
    data: String,
    has_data: bool,
    out: VecDeque<String>,
}

impl SseDecoder {
    /// Without a `data:` line no data is held.
    #[verifier::type_invariant]
    spec fn apart(self) -> bool {
        !self.has_data ==> self.data@.len() == 0
    }
}

impl View for SseDecoder {
    type V = DecoderModel;

    closed spec fn view(&self) -> DecoderModel {
        DecoderModel {
            partial: self.partial@,
            data: self.data@,
            has_data: self.has_data,
            out: texts(self.out@),
        }
    }
}

impl Default for SseDecoder {
    fn default() -> (decoder: SseDecoder)
        ensures
            decoder@ == fresh(),
    {
        let decoder = SseDecoder {
            partial: Vec::new(),
            data: String::new(),
            has_data: false,
            out: VecDeque::new(),
        };
        assert(decoder@.out == fresh().out);
        decoder
    }
}

/// A line without the carriage return at its end.
pub fn strip_return(line: &Vec<u8>) -> (end: usize)
    ensures
        end <= line@.len(),
        line@.take(end as int) == without_return(line@),
{
    let n: usize = line.len();
    if n > 0 && line[n - 1] == CARRIAGE_RETURN {
        assert(line@.take(n - 1) == line@.drop_last());
        n - 1
    } else {
        assert(line@.take(n as int) == line@);
        n
    }
}

/// What the first `end` bytes of `line` carry as a `data:` line.
pub fn data_of_line(line: &Vec<u8>, end: usize) -> (value: Option<Vec<u8>>)
    requires
        end <= line@.len(),
    ensures
        value is Some <==> data_value(line@.take(end as int)) is Some,
        value matches Some(v) ==> v@ == data_value(line@.take(end as int))->0,
{
    let ghost l = line@.take(end as int);
    if end < 5 {
        return None;
    }
    if line[0] != 100 || line[1] != 97 || line[2] != 116 || line[3] != 97 || line[4] != 58 {
        assert(l.take(5)[0] == line@[0] && l.take(5)[1] == line@[1] && l.take(5)[2] == line@[2]
            && l.take(5)[3] == line@[3] && l.take(5)[4] == line@[4]);
        return None;
    }
    assert(l.take(5) == data_field());
    let start: usize = if end > 5 && line[5] == 32 {
        6
    } else {
        5
    };
    let mut value: Vec<u8> = Vec::new();
    for i in start..end
        invariant
            start <= end <= line@.len(),
            l == line@.take(end as int),
            value@ == line@.subrange(start as int, i as int),
    {
        value.push(line[i]);
    }
    assert(value@ == l.skip(start as int));
    Some(value)
}

impl SseDecoder {
    /// Feeds one byte chunk, completing every event that it terminates.
    pub fn feed(&mut self, chunk: &[u8])
        ensures
            final(self)@ == fed(old(self)@, chunk@),
            gathering(final(self)@),
    {
        let ghost before = self@;
        let mut partial = self.take_partial();
        for i in 0..chunk.len()
            invariant
                self@.partial.len() == 0,
                (DecoderModel { partial: partial@, ..self@ }) == fed(before, chunk@.take(i as int)),
        {
            assert(chunk@.take(i + 1).drop_last() == chunk@.take(i as int));
            let ghost now = DecoderModel { partial: partial@, ..self@ };
            let b: u8 = chunk[i];
            if b == LINE_FEED {
                let mut line: Vec<u8> = Vec::new();
                std::mem::swap(&mut line, &mut partial);
                assert(self@.partial == Seq::<u8>::empty());
                assert(self@ == (DecoderModel { partial: Seq::empty(), ..now }));
                self.line(&line);
            } else {
                partial.push(b);
            }
        }
        assert(chunk@.take(chunk@.len() as int) == chunk@);
        proof {
            use_type_invariant(&*self);
        }
        self.partial = partial;
    }

    fn take_partial(&mut self) -> (line: Vec<u8>)
        ensures
            line@ == old(self)@.partial,
            final(self)@ == (DecoderModel { partial: Seq::empty(), ..old(self)@ }),
    {
        proof {
            use_type_invariant(&*self);
        }
        let mut line: Vec<u8> = Vec::new();
        std::mem::swap(&mut line, &mut self.partial);
        line
    }

    /// Flushes a trailing unterminated line and any pending event at the end
    /// of the input. Only completed payloads remain.
    pub fn finish(&mut self)
        ensures
            final(self)@ == finished(old(self)@),
            final(self)@ == (DecoderModel { out: final(self)@.out, ..fresh() }),
    {
        proof {
            use_type_invariant(&*self);
            law_finishing_starts_over(self@, Seq::empty());
        }
        if self.partial.len() > 0 {
            let line = self.take_partial();
            self.line(&line);
        }
        self.dispatch();
    }

    /// Takes the oldest completed payload, if any.
    pub fn pop(&mut self) -> (payload: Option<String>)
        ensures
            old(self)@.out.len() == 0 ==> payload is None && final(self)@ == old(self)@,
            old(self)@.out.len() > 0 ==> {
                &&& payload matches Some(p)
                &&& p@ == old(self)@.out[0]
                &&& final(self)@ == (DecoderModel { out: old(self)@.out.skip(1), ..old(self)@ })
            },
    {
        proof {
            use_type_invariant(&*self);
        }
        let mut out: VecDeque<String> = VecDeque::new();
        std::mem::swap(&mut out, &mut self.out);
        let payload = out.pop_front();
        self.out = out;
        assert(old(self)@.out.len() > 0 ==> self@.out == old(self)@.out.skip(1));
        assert(old(self)@.out.len() == 0 ==> self@.out == old(self)@.out);
        payload
    }

    /// Handles one line without its line feed; a blank line ends the event.
    fn line(&mut self, raw: &Vec<u8>)
        ensures
            final(self)@ == after_line(old(self)@, raw@),
    {
        let end: usize = strip_return(raw);
        if end == 0 {
            self.dispatch();
            return;
        }
        match data_of_line(raw, end) {
            Some(value) => {
                proof {
                    use_type_invariant(&*self);
                }
                let mut data = String::new();
                std::mem::swap(&mut data, &mut self.data);
                if self.has_data {
                    data.push('\n');
                }
                let text = lossy_text(value.as_slice());
                data.push_str(text.as_str());
                self.has_data = true;
                self.data = data;
                assert(self@.out == old(self)@.out);
            },
            None => {},
        }
    }

    /// Queues the accumulated event, dropping events with no `data:` line.
    fn dispatch(&mut self)
        ensures
            final(self)@ == dispatched(old(self)@),
    {
        if self.has_data {
            let mut data = String::new();
            std::mem::swap(&mut data, &mut self.data);
            self.has_data = false;
            let mut out: VecDeque<String> = VecDeque::new();
            std::mem::swap(&mut out, &mut self.out);
            out.push_back(data);
            self.out = out;
            assert(self@.out == old(self)@.out.push(old(self)@.data));
        }
    }
}

/// What the reader of a payload stream does next.
pub enum PayloadStep {
    /// Hand the payload on.
    Emit(String),
    /// Read the next chunk of the body.
    Read,
    /// The stream has ended.
    End,
}

/// The reader of a payload stream: byte chunks arrive on arbitrary boundaries,
/// so the decoder buffers partial lines; the stream ends once the body has
/// ended and every payload was handed on.
#[derive(Debug)]
pub struct PayloadReader {
    decoder: SseDecoder,
    eof: bool,
}

impl PayloadReader {
    /// The decoder's state.
    pub closed spec fn decoder(&self) -> DecoderModel {
        self.decoder@
    }

    /// Whether the body has ended.
    pub closed spec fn eof(&self) -> bool {
        self.eof
    }

    /// A reader of a body from its start.
    pub fn new() -> (reader: PayloadReader)
        ensures
            reader.decoder() == fresh(),
            !reader.eof(),
    {
        PayloadReader { decoder: SseDecoder::default(), eof: false }
    }

    /// What to do next: hand on the oldest completed payload, else end where
    /// the body has ended, else read on.
    pub fn step(&mut self) -> (step: PayloadStep)
        ensures
            final(self).eof() == old(self).eof(),
            match step {
                PayloadStep::Emit(p) => {
                    &&& old(self).decoder().out.len() > 0
                    &&& p@ == old(self).decoder().out[0]
                    &&& final(self).decoder() == (DecoderModel {
                        out: old(self).decoder().out.skip(1),
                        ..old(self).decoder()
                    })
                },
                PayloadStep::Read => {
                    &&& old(self).decoder().out.len() == 0
                    &&& !old(self).eof()
                    &&& final(self).decoder() == old(self).decoder()
                },
                PayloadStep::End => {
                    &&& old(self).decoder().out.len() == 0
                    &&& old(self).eof()
                    &&& final(self).decoder() == old(self).decoder()
                },
            },
    {
        match self.decoder.pop() {
            Some(payload) => PayloadStep::Emit(payload),
            None => if self.eof {
                PayloadStep::End
            } else {
                PayloadStep::Read
            },
        }
    }

    /// A chunk of the body has arrived.
    pub fn chunk(&mut self, bytes: &[u8])
        ensures
            final(self).eof() == old(self).eof(),
            final(self).decoder() == fed(old(self).decoder(), bytes@),
            gathering(final(self).decoder()),
    {
        self.decoder.feed(bytes);
    }

    /// The body has ended.
    pub fn end(&mut self)
        ensures
            final(self).eof(),
            final(self).decoder() == finished(old(self).decoder()),
            final(self).decoder() == (DecoderModel { out: final(self).decoder().out, ..fresh() }),
    {
        self.decoder.finish();
        self.eof = true;
    }
}

/// Whether the gateway answered with an SSE body: the content type starts with
/// `text/event-stream`.
pub fn is_event_stream(content_type: Option<&str>) -> (yes: bool)
    ensures
        yes == (content_type matches Some(value) && crate::text::occurs(
            value@,
            0,
            "text/event-stream"@,
        )),
{
    match content_type {
        Some(value) => {
            let chars = crate::text::chars_of(value);
            crate::text::occurs_at(&chars, 0, "text/event-stream")
        },
        None => false,
    }
}

/// What a `data:` line carries is what stands behind the field name, but for
/// one leading space; a line that starts otherwise carries nothing. A carriage
/// return at the end of a line does not belong to it.
pub proof fn law_a_data_line_carries_its_value(line: Seq<u8>, value: Seq<u8>)
    ensures
        data_value(seq![100u8, 97u8, 116u8, 97u8, 58u8, 32u8] + value) == Some(value),
        value.len() == 0 || value[0] != 32 ==> data_value(
            seq![100u8, 97u8, 116u8, 97u8, 58u8] + value,
        ) == Some(value),
        data_value(line) is Some <==> line.len() >= 5 && line[0] == 100 && line[1] == 97 && line[2]
            == 116 && line[3] == 97 && line[4] == 58,
        without_return(value.push(13u8)) == value,
        line.len() == 0 || line.last() != 13 ==> without_return(line) == line,
{
    let spaced = seq![100u8, 97u8, 116u8, 97u8, 58u8, 32u8] + value;
    let bare = seq![100u8, 97u8, 116u8, 97u8, 58u8] + value;
    assert(spaced.take(5) =~= data_field());
    assert(spaced.skip(6) =~= value);
    assert(bare.take(5) =~= data_field());
    assert(bare.skip(5) =~= value);
    assert(value.push(13u8).drop_last() =~= value);
    if line.len() >= 5 {
        let head = line.take(5);
        if head == data_field() {
            assert(head[0] == 100 && head[1] == 97 && head[2] == 116 && head[3] == 97 && head[4]
                == 58);
        } else if line[0] == 100 && line[1] == 97 && line[2] == 116 && line[3] == 97 && line[4]
            == 58 {
            assert(head =~= data_field());
        }
    }
}

/// Bytes without a line feed wait for one, whatever they are.
proof fn lemma_fed_partial(m: DecoderModel, bytes: Seq<u8>)
    requires
        !bytes.contains(10u8),
    ensures
        fed(m, bytes) == (DecoderModel { partial: m.partial + bytes, ..m }),
    decreases bytes.len(),
{
    if bytes.len() == 0 {
        assert(m.partial + bytes =~= m.partial);
    } else {
        let head = bytes.drop_last();
        assert(bytes.contains(bytes.last()));
        assert(!head.contains(10u8)) by {
            if head.contains(10u8) {
                let k = choose|k: int| 0 <= k < head.len() && head[k] == 10u8;
                assert(bytes[k] == 10u8);
            }
        }
        lemma_fed_partial(m, head);
        assert((m.partial + head).push(bytes.last()) =~= m.partial + bytes);
    }
}

proof fn lemma_fed_line(m: DecoderModel, line: Seq<u8>)
    requires
        m.partial.len() == 0,
        !line.contains(10u8),
    ensures
        fed(m, line.push(10u8)) == after_line(m, line),
{
    let whole = line.push(10u8);
    lemma_fed_partial(m, line);
    assert(whole.drop_last() =~= line);
    assert(m.partial + line =~= line);
    assert(m.partial =~= Seq::<u8>::empty());
    assert((DecoderModel { partial: Seq::<u8>::empty(), ..m }) == m);
}

/// A line that is neither blank nor a `data:` line makes no difference to a
/// decoder, wherever it stands.
pub proof fn law_other_lines_are_dropped(m: DecoderModel, line: Seq<u8>)
    requires
        m.partial.len() == 0,
        !line.contains(10u8),
        line.len() > 0 && line != seq![13u8],
        !(line.len() >= 5 && line[0] == 100 && line[1] == 97 && line[2] == 116 && line[3] == 97
            && line[4] == 58),
    ensures
        fed(m, line.push(10u8)) == m,
{
    lemma_fed_line(m, line);
    let bare = without_return(line);
    assert(bare.len() > 0) by {
        if bare.len() == 0 {
            assert(line =~= seq![13u8]);
        }
    }
    law_a_data_line_carries_its_value(bare, bare);
    if data_value(bare) is Some {
        assert(bare[0] == line[0] && bare[1] == line[1] && bare[2] == line[2] && bare[3] == line[3]
            && bare[4] == line[4]);
    }
}

/// A `data:` line as it stands in the input, with or without a carriage
/// return.
#[verifier::rlimit(40)]
proof fn lemma_data_line(value: Seq<u8>, crlf: bool) -> (raw: Seq<u8>)
    requires
        !value.contains(10u8),
        value.len() == 0 || value.last() != 13,
    ensures
        !raw.contains(10u8),
        without_return(raw).len() > 0,
        data_value(without_return(raw)) == Some(value),
        raw.push(10u8) == seq![100u8, 97u8, 116u8, 97u8, 58u8, 32u8] + value + if crlf {
            seq![13u8, 10u8]
        } else {
            seq![10u8]
        },
{
    let line = seq![100u8, 97u8, 116u8, 97u8, 58u8, 32u8] + value;
    let raw = if crlf {
        line.push(13u8)
    } else {
        line
    };
    assert(!raw.contains(10u8)) by {
        if raw.contains(10u8) {
            let k = choose|k: int| 0 <= k < raw.len() && raw[k] == 10u8;
            if 6 <= k < line.len() {
                assert(value[k - 6] == 10u8);
            }
        }
    }
    law_a_data_line_carries_its_value(line, value);
    assert(line.last() == if value.len() > 0 {
        value.last()
    } else {
        32u8
    });
    assert(line.push(13u8).drop_last() =~= line);
    assert(without_return(raw) == line);
    assert(raw.push(10u8) =~= line + if crlf {
        seq![13u8, 10u8]
    } else {
        seq![10u8]
    });
    raw
}

/// A `data:` line joins the event: behind what the event holds and a line
/// feed, or alone where it holds none yet. Its own line may end in either
/// way, and nothing is completed by it.
#[verifier::rlimit(40)]
pub proof fn law_data_lines_join(m: DecoderModel, value: Seq<u8>, crlf: bool)
    requires
        m.partial.len() == 0,
        gathering(m),
        !value.contains(10u8),
        value.len() == 0 || value.last() != 13,
    ensures
        ({
            let line = seq![100u8, 97u8, 116u8, 97u8, 58u8, 32u8] + value;
            let end = if crlf {
                line + seq![13u8, 10u8]
            } else {
                line + seq![10u8]
            };
            let now = fed(m, end);
            &&& now.has_data
            &&& now.partial.len() == 0
            &&& now.out == m.out
            &&& now.data == if m.has_data {
                m.data + seq!['\n'] + decoded_lossily(value)
            } else {
                decoded_lossily(value)
            }
        }),
{
    let raw = lemma_data_line(value, crlf);
    lemma_fed_line(m, raw);
    assert(m.data.push('\n') + decoded_lossily(value) =~= m.data + seq!['\n'] + decoded_lossily(
        value,
    ));
    assert(!m.has_data ==> m.data + decoded_lossily(value) =~= decoded_lossily(value));
}

/// A blank line completes the event: its data is queued behind the payloads
/// before it, once, and the next event starts with none. An event without a
/// `data:` line is dropped. The end of the input counts as the end of a line
/// and then as a blank line.
#[verifier::rlimit(40)]
pub proof fn law_a_blank_line_completes_the_event(m: DecoderModel, crlf: bool)
    requires
        gathering(m),
    ensures
        m.partial.len() == 0 ==> ({
            let now = fed(
                m,
                if crlf {
                    seq![13u8, 10u8]
                } else {
                    seq![10u8]
                },
            );
            &&& now.partial.len() == 0
            &&& !now.has_data
            &&& now.data.len() == 0
            &&& now.out == if m.has_data {
                m.out.push(m.data)
            } else {
                m.out
            }
        }),
        finished(m) == if m.partial.len() == 0 {
            fed(m, seq![10u8])
        } else {
            fed(m, seq![10u8, 10u8])
        },
{
    if m.partial.len() == 0 {
        let raw = if crlf {
            seq![13u8]
        } else {
            Seq::<u8>::empty()
        };
        assert(!raw.contains(10u8));
        lemma_fed_line(m, raw);
        lemma_fed_line(m, Seq::empty());
        assert(Seq::<u8>::empty().push(10u8) =~= seq![10u8]);
        assert(seq![13u8].push(10u8) =~= seq![13u8, 10u8]);
        assert(seq![13u8].drop_last() =~= Seq::<u8>::empty());
        assert(m.partial =~= Seq::<u8>::empty());
    } else {
        let two = seq![10u8, 10u8];
        assert(two.drop_last() =~= seq![10u8]);
        assert(two.drop_last().drop_last() =~= Seq::<u8>::empty());
        assert(fed(m, two.drop_last().drop_last()) == m);
        let one = fed(m, seq![10u8]);
        assert(one == after_byte(m, 10u8));
        assert(fed(m, two) == after_byte(one, 10u8));
        assert(one.partial.len() == 0);
        assert(one.partial =~= Seq::<u8>::empty());
    }
}

} // verus!
