//! The workshop's run event log: the write side, the indexed read side, live
//! fan-out, and the framing of the persisted log.
//!
//! A persisted log is a versioned header line followed by one event per line.
//! Entry order, file order, and fan-out order agree, because all three advance
//! by one [`WorkshopObserver::append`].

use crate::events::{
    call_models, event_models, CallMetrics, CallModel, EventLog, EventModel, RuntimeEvent,
    RuntimeEventKind, ToolCallEvent,
};
use crate::gateway::{decimal, render_decimal};
use crate::json::{commas, compact, enclose, quote, quoted, write_compact};
use crate::text::{
    chopped, concat, framed, frameable, lacked_ending, law_framed_lines_extend,
    law_framed_lines_read_back, lines_of, same_text, text_lines, text_option, texts,
};
use vstd::prelude::*;

verus! {

/// The `format` field of the header line that opens every persisted log.
pub const LOG_FORMAT: &'static str = "workshop-event-log";

/// The persisted-log version that is written and read. A reader rejects a line
/// whose kind it does not know.
pub const LOG_VERSION: u32 = 1;

/// The header line, without its line feed.
pub open spec fn header_text() -> Seq<char> {
    "{\"format\":\"workshop-event-log\",\"version\":1}"@
}

/// The header line, line feed included, that opens every persisted log.
pub fn header_line() -> (line: String)
    ensures
        line@ == header_text() + "\n"@,
{
    concat("{\"format\":\"workshop-event-log\",\"version\":1}", "\n")
}

impl RuntimeEvent {
    /// A completed assistant reply.
    pub fn assistant_reply(
        section: &str,
        chain_id: u32,
        depth: u32,
        turn: u32,
        text: &str,
        finish_reason: Option<&str>,
        model: &str,
        metrics: Option<CallMetrics>,
    ) -> (event: RuntimeEvent)
        ensures
            event@ == (EventModel {
                kind: RuntimeEventKind::AssistantReply,
                section: section@,
                chain_id,
                depth,
                turn,
                content: text@,
                model: Some(model@),
                tool_call_id: None,
                finish_reason: match finish_reason {
                    Some(reason) => Some(reason@),
                    None => None,
                },
                metrics,
            }),
    {
        RuntimeEvent {
            kind: RuntimeEventKind::AssistantReply,
            section: section.to_owned(),
            chain_id,
            depth,
            turn,
            content: text.to_owned(),
            model: Some(model.to_owned()),
            tool_call_id: None,
            finish_reason: match finish_reason {
                Some(reason) => Some(reason.to_owned()),
                None => None,
            },
            metrics,
        }
    }

    /// A batch of tool calls, its content rendered as the JSON array of the
    /// calls, so a reader can parse the ids, names, and arguments back out of
    /// one string field.
    pub fn assistant_tool_calls(
        section: &str,
        chain_id: u32,
        depth: u32,
        turn: u32,
        model: &str,
        calls: &Vec<ToolCallEvent>,
    ) -> (event: RuntimeEvent)
        ensures
            event@ == (EventModel {
                kind: RuntimeEventKind::AssistantToolCalls,
                section: section@,
                chain_id,
                depth,
                turn,
                content: calls_text(call_models(calls@)),
                model: Some(model@),
                tool_call_id: None,
                finish_reason: None,
                metrics: None,
            }),
    {
        RuntimeEvent {
            kind: RuntimeEventKind::AssistantToolCalls,
            section: section.to_owned(),
            chain_id,
            depth,
            turn,
            content: render_calls(calls),
            model: Some(model.to_owned()),
            tool_call_id: None,
            finish_reason: None,
            metrics: None,
        }
    }

    /// The result of one dispatched tool call, keyed by its provider call id.
    pub fn tool_result(
        section: &str,
        chain_id: u32,
        depth: u32,
        turn: u32,
        tool_call_id: &str,
        content: &str,
    ) -> (event: RuntimeEvent)
        ensures
            event@ == (EventModel {
                kind: RuntimeEventKind::ToolResult,
                section: section@,
                chain_id,
                depth,
                turn,
                content: content@,
                model: None,
                tool_call_id: Some(tool_call_id@),
                finish_reason: None,
                metrics: None,
            }),
    {
        RuntimeEvent {
            kind: RuntimeEventKind::ToolResult,
            section: section.to_owned(),
            chain_id,
            depth,
            turn,
            content: content.to_owned(),
            model: None,
            tool_call_id: Some(tool_call_id.to_owned()),
            finish_reason: None,
            metrics: None,
        }
    }

    /// A completed block of model thinking.
    pub fn thinking(
        section: &str,
        chain_id: u32,
        depth: u32,
        turn: u32,
        model: &str,
        text: &str,
    ) -> (event: RuntimeEvent)
        ensures
            event@ == (EventModel {
                kind: RuntimeEventKind::Thinking,
                section: section@,
                chain_id,
                depth,
                turn,
                content: text@,
                model: Some(model@),
                tool_call_id: None,
                finish_reason: None,
                metrics: None,
            }),
    {
        RuntimeEvent {
            kind: RuntimeEventKind::Thinking,
            section: section.to_owned(),
            chain_id,
            depth,
            turn,
            content: text.to_owned(),
            model: Some(model.to_owned()),
            tool_call_id: None,
            finish_reason: None,
            metrics: None,
        }
    }

    /// Text the user supplied.
    pub fn user_input(section: &str, text: &str) -> (event: RuntimeEvent)
        ensures
            event@ == (EventModel {
                kind: RuntimeEventKind::UserInput,
                section: section@,
                chain_id: 0,
                depth: 0,
                turn: 0,
                content: text@,
                model: None,
                tool_call_id: None,
                finish_reason: None,
                metrics: None,
            }),
    {
        RuntimeEvent {
            kind: RuntimeEventKind::UserInput,
            section: section.to_owned(),
            chain_id: 0,
            depth: 0,
            turn: 0,
            content: text.to_owned(),
            model: None,
            tool_call_id: None,
            finish_reason: None,
            metrics: None,
        }
    }
}

/// The JSON object of one call, with the arguments as they are held.
pub open spec fn call_text(call: CallModel) -> Seq<char> {
    "{\"id\":"@ + quoted(call.id) + ",\"name\":"@ + quoted(call.name) + ",\"arguments\":"@
        + compact(call.arguments) + "}"@
}

/// The JSON objects of the calls.
pub open spec fn call_texts(calls: Seq<CallModel>) -> Seq<Seq<char>> {
    Seq::new(calls.len(), |i: int| call_text(calls[i]))
}

/// The JSON array of a batch of calls.
pub open spec fn calls_text(calls: Seq<CallModel>) -> Seq<char> {
    "["@ + commas(call_texts(calls)) + "]"@
}

fn render_call(call: &ToolCallEvent) -> (text: String)
    ensures
        text@ == call_text(call@),
{
    let id = quote(call.id.as_str());
    let name = quote(call.name.as_str());
    let arguments = write_compact(&call.arguments);
    let mut text = "{\"id\":".to_owned();
    text.push_str(id.as_str());
    text.push_str(",\"name\":");
    text.push_str(name.as_str());
    text.push_str(",\"arguments\":");
    text.push_str(arguments.as_str());
    text.push_str("}");
    text
}

/// The JSON array of a batch of calls.
pub fn render_calls(calls: &Vec<ToolCallEvent>) -> (text: String)
    ensures
        text@ == calls_text(call_models(calls@)),
{
    let mut parts: Vec<String> = Vec::new();
    for i in 0..calls.len()
        invariant
            parts@.len() == i,
            forall|k: int| 0 <= k < i ==> #[trigger] parts@[k]@ == call_text(calls@[k]@),
    {
        parts.push(render_call(&calls[i]));
    }
    assert(texts(parts@) =~= call_texts(call_models(calls@)));
    enclose("[", &parts, "]")
}

/// The workshop's append-only run event log.
///
/// One instance records one run's [`RuntimeEvent`]s. Operational lifecycle
/// observations are deliberately not recorded. A persistence error never loses
/// the in-memory entry.
#[derive(Debug)]
pub struct WorkshopObserver {
    events: Vec<RuntimeEvent>,
    persists: bool,
    outbox: Vec<RuntimeEvent>,
}

impl WorkshopObserver {
    /// The entries, in log order.
    pub closed spec fn recorded(&self) -> Seq<EventModel> {
        event_models(self.events@)
    }

    /// Whether entries also go to a file.
    pub closed spec fn persisting(&self) -> bool {
        self.persists
    }

    /// The entries appended and not yet handed to the subscribers.
    pub closed spec fn pending(&self) -> Seq<EventModel> {
        event_models(self.outbox@)
    }

    /// Opens a fresh, empty log.
    pub fn new(persists: bool) -> (log: WorkshopObserver)
        ensures
            log.recorded() == Seq::<EventModel>::empty(),
            log.pending() == Seq::<EventModel>::empty(),
            log.persisting() == persists,
    {
        let log = WorkshopObserver { events: Vec::new(), persists, outbox: Vec::new() };
        assert(log.recorded() =~= Seq::<EventModel>::empty());
        assert(log.pending() =~= Seq::<EventModel>::empty());
        log
    }

    /// Continues a persisted log whose entries were replayed: indexes match
    /// those of the run that wrote it.
    pub fn load_from(events: Vec<RuntimeEvent>) -> (log: WorkshopObserver)
        ensures
            log.recorded() == event_models(events@),
            log.pending() == Seq::<EventModel>::empty(),
            log.persisting(),
    {
        let log = WorkshopObserver { events, persists: true, outbox: Vec::new() };
        assert(log.pending() =~= Seq::<EventModel>::empty());
        log
    }

    /// Appends one event to memory and to the fan-out, and returns what to
    /// append to the file: the event's line, line feed included, where the log
    /// persists and the event could be rendered. The in-memory entry lands
    /// regardless.
    pub fn append(&mut self, event: RuntimeEvent, line: Option<String>) -> (write: Option<String>)
        ensures
            final(self).recorded() == old(self).recorded().push(event@),
            final(self).pending() == old(self).pending().push(event@),
            final(self).persisting() == old(self).persisting(),
            text_option(write) == if old(self).persisting() && line is Some {
                Some(line->0@ + "\n"@)
            } else {
                None
            },
    {
        self.outbox.push(event.clone());
        self.events.push(event);
        assert(self.recorded() =~= old(self).recorded().push(event@));
        assert(self.pending() =~= old(self).pending().push(event@));
        if self.persists {
            match line {
                Some(line) => Some(concat(line.as_str(), "\n")),
                None => None,
            }
        } else {
            None
        }
    }

    /// Takes the entries appended since the last call, in log order.
    pub fn take_appended(&mut self) -> (entries: Vec<RuntimeEvent>)
        ensures
            event_models(entries@) == old(self).pending(),
            final(self).pending() == Seq::<EventModel>::empty(),
            final(self).recorded() == old(self).recorded(),
            final(self).persisting() == old(self).persisting(),
    {
        let mut entries: Vec<RuntimeEvent> = Vec::new();
        std::mem::swap(&mut entries, &mut self.outbox);
        assert(self.pending() =~= Seq::<EventModel>::empty());
        entries
    }
}

impl EventLog for WorkshopObserver {
    fn len(&self) -> (count: u64)
        ensures
            count == self.recorded().len(),
    {
        self.events.len() as u64
    }

    fn get(&self, index: u64) -> (event: Option<RuntimeEvent>)
        ensures
            event is Some <==> index < self.recorded().len(),
            event matches Some(e) ==> e@ == self.recorded()[index as int],
    {
        if index < self.events.len() as u64 {
            Some(self.events[index as usize].clone())
        } else {
            None
        }
    }
}

/// The log is append-only: an append leaves every entry where it was, so an
/// index once valid stays valid and its entry never changes.
pub proof fn law_entries_never_change(before: Seq<EventModel>, event: EventModel, index: int)
    requires
        0 <= index < before.len(),
    ensures
        before.push(event).len() == before.len() + 1,
        before.push(event)[index] == before[index],
        before.push(event)[before.len() as int] == event,
{
}

/// Why a persisted log does not load.
#[derive(Debug, PartialEq, Eq)]
pub enum LogFault {
    /// The file holds no header line.
    MissingHeader,
    /// The header line does not parse.
    MalformedHeader {
        /// What was wrong with it.
        source: String,
    },
    /// The header is not that of this format and version.
    Unsupported {
        /// The format it names.
        format: String,
        /// The version it names.
        version: u32,
    },
    /// An event line does not parse.
    MalformedEvent {
        /// The line's number in the file.
        line: u128,
        /// What was wrong with it.
        source: String,
    },
}

impl LogFault {
    /// What the fault says of the file at `path`.
    pub open spec fn text(&self, path: Seq<char>) -> Seq<char> {
        match *self {
            LogFault::MissingHeader => "missing event log header in "@ + path,
            LogFault::MalformedHeader { source } => "malformed event log header in "@ + path
                + ": "@ + source@,
            LogFault::Unsupported { format, version } => "unsupported event log "@ + format@
                + " version "@ + decimal(version as int) + " in "@ + path
                + "; this build reads workshop-event-log version 1"@,
            LogFault::MalformedEvent { line, source } => "malformed event on line "@ + decimal(
                line as int,
            ) + " of "@ + path + ": "@ + source@,
        }
    }

    /// What the fault says of the file at `path`.
    pub fn message(&self, path: &str) -> (text: String)
        ensures
            text@ == self.text(path@),
    {
        match self {
            LogFault::MissingHeader => concat("missing event log header in ", path),
            LogFault::MalformedHeader { source } => {
                let mut text = concat("malformed event log header in ", path);
                text.push_str(": ");
                text.push_str(source.as_str());
                text
            },
            LogFault::Unsupported { format, version } => {
                let mut text = concat("unsupported event log ", format.as_str());
                let digits = render_decimal(*version as u128);
                text.push_str(" version ");
                text.push_str(digits.as_str());
                text.push_str(" in ");
                text.push_str(path);
                text.push_str("; this build reads workshop-event-log version 1");
                text
            },
            LogFault::MalformedEvent { line, source } => {
                let digits = render_decimal(*line);
                let mut text = concat("malformed event on line ", digits.as_str());
                text.push_str(" of ");
                text.push_str(path);
                text.push_str(": ");
                text.push_str(source.as_str());
                text
            },
        }
    }
}

/// The header line and the event lines of a persisted log.
pub fn split_log(text: &str) -> (parts: Result<(String, Vec<String>), LogFault>)
    ensures
        text_lines(text@).len() == 0 ==> parts is Err && parts->Err_0 is MissingHeader,
        text_lines(text@).len() > 0 ==> (parts matches Ok((first, rest)) && first@ == text_lines(
            text@,
        )[0] && texts(rest@) == text_lines(text@).skip(1)),
{
    let mut lines = lines_of(text);
    let ghost all = texts(lines@);
    if lines.len() == 0 {
        return Err(LogFault::MissingHeader);
    }
    let first = lines.remove(0);
    assert(texts(lines@) =~= all.skip(1));
    assert(first@ == all[0]);
    Ok((first, lines))
}

/// What to append to the file of a loaded log before anything else: the line
/// feed that its last line lacks, so that every event has a line of its own.
#[must_use]
pub fn missing_ending(text: &str) -> (ending: &'static str)
    ensures
        ending@ == lacked_ending(text@),
{
    proof {
        reveal_strlit("");
        reveal_strlit("\n");
    }
    let n: usize = text.unicode_len();
    if n == 0 || text.get_char(n - 1) == '\n' {
        assert(""@ =~= lacked_ending(text@));
        ""
    } else {
        assert("\n"@ =~= lacked_ending(text@));
        "\n"
    }
}

/// Checks a decoded header: it must carry this format and version.
pub fn check_header(decoded: Result<(String, u32), String>) -> (outcome: Result<(), LogFault>)
    ensures
        match decoded {
            Err(source) => outcome matches Err(LogFault::MalformedHeader { source: s }) && s
                == source,
            Ok((format, version)) => if format@ == LOG_FORMAT@ && version == LOG_VERSION {
                outcome is Ok
            } else {
                outcome matches Err(LogFault::Unsupported { format: f, version: v }) && f == format
                    && v == version
            },
        },
{
    match decoded {
        Err(source) => Err(LogFault::MalformedHeader { source }),
        Ok((format, version)) => {
            if !same_text(format.as_str(), LOG_FORMAT) || version != LOG_VERSION {
                return Err(LogFault::Unsupported { format, version });
            }
            Ok(())
        },
    }
}

/// The outcome of replaying decoded event lines, which start on line 2: every
/// entry in order, or the fault of the first line that did not decode.
pub open spec fn replays(
    decoded: Seq<Result<RuntimeEvent, String>>,
    outcome: Result<Vec<RuntimeEvent>, LogFault>,
) -> bool {
    match outcome {
        Ok(events) => events@.len() == decoded.len() && forall|i: int|
            0 <= i < decoded.len() ==> (#[trigger] decoded[i]) == Ok::<RuntimeEvent, String>(
                events@[i],
            ),
        Err(LogFault::MalformedEvent { line, source }) => {
            &&& 2 <= line < decoded.len() + 2
            &&& decoded[line - 2] == Err::<RuntimeEvent, String>(source)
            &&& forall|i: int| 0 <= i < line - 2 ==> (#[trigger] decoded[i]) is Ok
        },
        Err(_) => false,
    }
}

/// Every replayed entry, where every line decoded; else the fault of the first
/// that did not. Event lines start on line 2, behind the header.
pub fn collect_events(decoded: Vec<Result<RuntimeEvent, String>>) -> (outcome: Result<
    Vec<RuntimeEvent>,
    LogFault,
>)
    ensures
        replays(decoded@, outcome),
{
    let ghost whole = decoded@;
    assert(whole.len() == decoded.len());
    let mut ahead = decoded;
    let mut left: Vec<Result<RuntimeEvent, String>> = Vec::new();
    while ahead.len() > 0
        invariant
            ahead@.len() + left@.len() == whole.len(),
            forall|i: int| 0 <= i < ahead@.len() ==> #[trigger] ahead@[i] == whole[i],
            forall|i: int|
                0 <= i < left@.len() ==> #[trigger] left@[i] == whole[whole.len() - 1 - i],
        decreases ahead@.len(),
    {
        let ghost before = ahead@;
        let last = ahead.pop();
        match last {
            Some(item) => {
                assert(item == before.last());
                left.push(item);
            },
            None => {},
        }
    }
    let mut events: Vec<RuntimeEvent> = Vec::new();
    let mut line: u128 = 2;
    while left.len() > 0
        invariant
            whole == decoded@,
            whole.len() <= usize::MAX,
            events@.len() + left@.len() == whole.len(),
            line == events@.len() + 2,
            forall|i: int|
                0 <= i < left@.len() ==> #[trigger] left@[i] == whole[whole.len() - 1 - i],
            forall|i: int|
                0 <= i < events@.len() ==> (#[trigger] whole[i]) == Ok::<RuntimeEvent, String>(
                    events@[i],
                ),
        decreases left@.len(),
    {
        let ghost done = events@;
        let next = left.pop();
        match next {
            Some(item) => {
                assert(item == whole[done.len() as int]);
                match item {
                    Ok(event) => {
                        events.push(event);
                        line = line + 1;
                    },
                    Err(source) => {
                        return Err(LogFault::MalformedEvent { line, source });
                    },
                }
            },
            None => {},
        }
    }
    Ok(events)
}

/// What a persisted log replays to: the header is checked first, then every
/// event line.
pub fn replay(
    header: Result<(String, u32), String>,
    decoded: Vec<Result<RuntimeEvent, String>>,
) -> (outcome: Result<Vec<RuntimeEvent>, LogFault>)
    ensures
        match header {
            Err(source) => outcome matches Err(LogFault::MalformedHeader { source: s }) && s
                == source,
            Ok((format, version)) => if format@ != LOG_FORMAT@ || version != LOG_VERSION {
                outcome matches Err(LogFault::Unsupported { format: f, version: v }) && f == format
                    && v == version
            } else {
                replays(decoded@, outcome)
            },
        },
{
    match check_header(header) {
        Ok(()) => collect_events(decoded),
        Err(fault) => Err(fault),
    }
}

/// A log restores to itself: where every line decodes to the event that it was
/// rendered from, a replay gives back those events, in order.
pub proof fn law_a_replay_restores_the_log(
    events: Seq<RuntimeEvent>,
    decoded: Seq<Result<RuntimeEvent, String>>,
    outcome: Result<Vec<RuntimeEvent>, LogFault>,
)
    requires
        decoded.len() == events.len(),
        forall|i: int|
            0 <= i < events.len() ==> (#[trigger] decoded[i]) == Ok::<RuntimeEvent, String>(
                events[i],
            ),
        replays(decoded, outcome),
    ensures
        outcome matches Ok(replayed) && replayed@ == events,
{
    match outcome {
        Ok(replayed) => {
            assert forall|i: int| 0 <= i < events.len() implies replayed@[i] == events[i] by {
                assert(decoded[i] == Ok::<RuntimeEvent, String>(events[i]));
            }
            assert(replayed@ == events);
        },
        Err(LogFault::MalformedEvent { line, .. }) => {
            assert(decoded[line - 2] is Ok);
        },
        Err(_) => {},
    }
}

/// What reaches the file of a fresh log after its appends reads back as the
/// header and the appended lines, in order, whichever line ending the file
/// was given since. A line holds no line feed and does not end in a carriage
/// return.
pub proof fn law_a_persisted_log_reads_back(lines: Seq<Seq<char>>, ending: Seq<char>)
    requires
        ending == seq!['\n'] || ending == seq!['\r', '\n'],
        frameable(lines, ending),
    ensures
        text_lines(framed(seq![header_text()] + lines, ending))[0] == header_text(),
        text_lines(framed(seq![header_text()] + lines, ending)).skip(1) == lines,
{
    reveal_strlit("{\"format\":\"workshop-event-log\",\"version\":1}");
    let all = seq![header_text()] + lines;
    law_framed_lines_read_back(all, ending);
    assert(text_lines(framed(all, ending)) == all);
    assert(all.skip(1) =~= lines);
}

/// What an append hands to the file frames its line: behind the lines that
/// stand there, each ended by a line feed, it ends the same way.
pub proof fn law_an_append_frames_its_line(lines: Seq<Seq<char>>, line: Seq<char>)
    ensures
        framed(lines, seq!['\n']) + (line + "\n"@) == framed(lines.push(line), seq!['\n']),
{
    reveal_strlit("\n");
    assert("\n"@ =~= seq!['\n']);
    assert(lines.push(line).drop_last() =~= lines);
    assert(framed(lines, seq!['\n']) + (line + "\n"@) =~= framed(lines, seq!['\n']) + line
        + seq!['\n']);
}

/// How event lines decode. A carriage return behind an event makes no
/// difference.
pub open spec fn ignores_return(decode: spec_fn(Seq<char>) -> Result<RuntimeEvent, String>) -> bool {
    forall|line: Seq<char>|
        decode(line) is Ok ==> #[trigger] decode(chopped(line)) == decode(line)
}

/// A loaded log continues: where the file's lines decode to `before`, and the
/// lines of `more` are appended to it, the ending that it lacked first, it
/// loads again, to the entries it had and the entries of `more` behind them.
/// The header stays the first line, but for a carriage return that ended the
/// file.
pub proof fn law_a_continued_log_loads_again(
    text: Seq<char>,
    before: Seq<RuntimeEvent>,
    lines: Seq<Seq<char>>,
    more: Seq<RuntimeEvent>,
    decode: spec_fn(Seq<char>) -> Result<RuntimeEvent, String>,
    decoded: Seq<Result<RuntimeEvent, String>>,
    outcome: Result<Vec<RuntimeEvent>, LogFault>,
)
    requires
        ignores_return(decode),
        text_lines(text).len() == before.len() + 1,
        forall|i: int|
            0 <= i < before.len() ==> decode(text_lines(text)[i + 1]) == Ok::<RuntimeEvent, String>(
                #[trigger] before[i],
            ),
        frameable(lines, seq!['\n']),
        lines.len() == more.len(),
        forall|i: int|
            0 <= i < more.len() ==> decode(#[trigger] lines[i]) == Ok::<RuntimeEvent, String>(
                more[i],
            ),
        decoded == text_lines(text + lacked_ending(text) + framed(lines, seq!['\n'])).skip(1).map_values(
            decode,
        ),
        replays(decoded, outcome),
    ensures
        outcome matches Ok(replayed) && replayed@ == before + more && event_models(replayed@)
            == event_models(before) + event_models(more),
        ({
            let header = text_lines(text + lacked_ending(text) + framed(lines, seq!['\n']))[0];
            header == text_lines(text)[0] || header == chopped(text_lines(text)[0])
        }),
{
    let had = text_lines(text);
    let has = text_lines(text + lacked_ending(text) + framed(lines, seq!['\n']));
    law_framed_lines_extend(text, lines);
    let all = before + more;
    assert forall|i: int| 0 <= i < all.len() implies (#[trigger] decoded[i]) == Ok::<
        RuntimeEvent,
        String,
    >(all[i]) by {
        assert(decoded[i] == decode(has[i + 1]));
        if i < before.len() {
            assert(decode(had[i + 1]) == Ok::<RuntimeEvent, String>(before[i]));
            assert(has[i + 1] == had[i + 1] || has[i + 1] == chopped(had[i + 1]));
            assert(decode(chopped(had[i + 1])) == decode(had[i + 1]));
        } else {
            assert(has.skip(had.len() as int)[i - before.len()] == lines[i - before.len()]);
        }
    }
    law_a_replay_restores_the_log(all, decoded, outcome);
    assert(event_models(all) =~= event_models(before) + event_models(more));
    assert(has[0] == had[0] || has[0] == chopped(had[0]));
}

/// The header names the format and the version, and is what the check of a
/// header accepts.
pub proof fn law_the_header_names_the_format()
    ensures
        LOG_FORMAT@ == "workshop-event-log"@,
        LOG_VERSION == 1,
        header_text() == "{\"format\":\""@ + LOG_FORMAT@ + "\",\"version\":"@ + decimal(
            LOG_VERSION as int,
        ) + "}"@,
{
    reveal_strlit("{\"format\":\"workshop-event-log\",\"version\":1}");
    reveal_strlit("workshop-event-log");
    reveal_strlit("{\"format\":\"");
    reveal_strlit("\",\"version\":");
    reveal_strlit("}");
    assert(header_text() =~= "{\"format\":\""@ + LOG_FORMAT@ + "\",\"version\":"@ + decimal(
        LOG_VERSION as int,
    ) + "}"@);
}

/// A batch of calls is an array of objects, each holding its call's id, name,
/// and arguments: an empty batch is an empty array, and a call more stands
/// behind the others, a comma before it.
pub proof fn law_a_batch_is_an_array(calls: Seq<CallModel>, call: CallModel)
    ensures
        calls_text(Seq::empty()) == seq!['[', ']'],
        calls_text(seq![call]) == seq!['['] + call_text(call) + seq![']'],
        calls.len() > 0 ==> calls_text(calls.push(call)) == calls_text(calls).drop_last()
            + seq![','] + call_text(call) + seq![']'],
        call_text(call) == "{\"id\":"@ + quoted(call.id) + ",\"name\":"@ + quoted(call.name)
            + ",\"arguments\":"@ + compact(call.arguments) + "}"@,
{
    reveal_strlit("[");
    reveal_strlit("]");
    reveal_strlit(",");
    assert(call_texts(Seq::empty()) =~= Seq::<Seq<char>>::empty());
    assert(calls_text(Seq::empty()) =~= seq!['[', ']']);
    assert(call_texts(seq![call]) =~= seq![call_text(call)]);
    assert(calls_text(seq![call]) =~= seq!['['] + call_text(call) + seq![']']);
    if calls.len() > 0 {
        assert(call_texts(calls.push(call)) =~= call_texts(calls).push(call_text(call)));
        assert(call_texts(calls).push(call_text(call)).drop_last() =~= call_texts(calls));
        assert(calls_text(calls.push(call)) =~= calls_text(calls).drop_last() + seq![',']
            + call_text(call) + seq![']']);
    }
}

/// A replay succeeds exactly where every line decoded, and else reports the
/// first that did not by its number in the file, behind the header's, with
/// what was wrong with it.
pub proof fn law_the_first_bad_line_is_reported(
    decoded: Seq<Result<RuntimeEvent, String>>,
    outcome: Result<Vec<RuntimeEvent>, LogFault>,
    i: int,
)
    requires
        replays(decoded, outcome),
    ensures
        outcome is Ok <==> forall|k: int| 0 <= k < decoded.len() ==> (#[trigger] decoded[k]) is Ok,
        0 <= i < decoded.len() && decoded[i] is Err && (forall|k: int|
            0 <= k < i ==> (#[trigger] decoded[k]) is Ok) ==> (outcome matches Err(
            LogFault::MalformedEvent { line, source },
        ) && line == i + 2 && source == decoded[i]->Err_0),
{
    match outcome {
        Ok(events) => {
            assert forall|k: int| 0 <= k < decoded.len() implies (#[trigger] decoded[k]) is Ok by {
                assert(decoded[k] == Ok::<RuntimeEvent, String>(events@[k]));
            }
        },
        Err(LogFault::MalformedEvent { line, source }) => {
            assert(decoded[line - 2] is Err);
            if 0 <= i < decoded.len() && decoded[i] is Err && (forall|k: int|
                0 <= k < i ==> (#[trigger] decoded[k]) is Ok) {
                if i < line - 2 {
                    assert(decoded[i] is Ok);
                }
                if line - 2 < i {
                    assert(decoded[line - 2] is Ok);
                }
                assert(i == line - 2);
            }
        },
        Err(_) => {},
    }
}

/// What a log that does not load says of its file.
pub proof fn law_faults_name_the_file(fault: LogFault, path: Seq<char>)
    ensures
        fault is MissingHeader ==> fault.text(path) == "missing event log header in "@ + path,
        fault matches LogFault::MalformedHeader { source } ==> fault.text(path)
            == "malformed event log header in "@ + path + ": "@ + source@,
        fault matches LogFault::Unsupported { format, version } ==> fault.text(path)
            == "unsupported event log "@ + format@ + " version "@ + decimal(version as int)
            + " in "@ + path + "; this build reads workshop-event-log version 1"@,
        fault matches LogFault::MalformedEvent { line, source } ==> fault.text(path)
            == "malformed event on line "@ + decimal(line as int) + " of "@ + path + ": "@ + source@,
{
}

} // verus!
