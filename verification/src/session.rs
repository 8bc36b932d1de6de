//! The decisions of an SSH session: retrying a connect, collecting a
//! command's output, and cutting a followed command's output into lines for
//! the UI.
use vstd::prelude::*;
use crate::text::{chars_of, string_of, trim_end, trimmed_end};

verus! {

/// Name for what `String::from_utf8_lossy` makes of `bytes`: the decoded
/// text, each invalid sequence replaced by U+FFFD.
pub uninterp spec fn utf8_lossy(bytes: Seq<u8>) -> Seq<char>;

/// Decodes bytes as UTF-8 with std's `String::from_utf8_lossy`; the contract
/// names the result and states none of UTF-8's rules.
#[verifier::external_body]
pub(crate) fn lossy_text(bytes: &[u8]) -> (r: String)
    ensures
        r@ == utf8_lossy(bytes@),
{
    String::from_utf8_lossy(bytes).to_string()
}

/// What became of one connect attempt.
#[derive(Debug)]
pub enum ConnectOutcome {
    /// The session is up and authenticated.
    Connected,
    /// The attempt failed with this message.
    Failed(String),
    /// The attempt took longer than the connect timeout.
    TimedOut,
}

/// What to do next while connecting.
#[derive(Debug, PartialEq, Eq)]
pub enum ConnectStep {
    /// Wait `delay_ms` milliseconds, then make another attempt.
    Attempt { delay_ms: u64 },
    /// The session is ready.
    Succeed,
    /// Give up with this message.
    GiveUp(String),
}

/// The message for a connect attempt that timed out.
pub open spec fn connect_timeout_text() -> Seq<char> {
    "Zeitüberschreitung beim Verbindungsaufbau (Server nicht erreichbar?)"@
}

/// The error of a failed attempt, as remembered for the final message.
pub open spec fn outcome_error(o: ConnectOutcome) -> Seq<char> {
    match o {
        ConnectOutcome::Failed(m) => m@,
        _ => connect_timeout_text(),
    }
}

/// Fresh TCP connects sometimes get an immediate "connection refused" through
/// transient local network hiccups even though the remote is fine a moment later - a
/// couple of quick retries absorb that instead of failing the whole action on a one-off
/// glitch: up to three attempts, 400 ms apart, the last error reported.
pub struct ConnectRetry {
    attempts: u32,
    last_error: Option<String>,
}

impl ConnectRetry {
    /// Attempts made so far.
    pub closed spec fn attempts(&self) -> nat {
        self.attempts as nat
    }

    /// No more than three attempts are made.
    pub closed spec fn wf(&self) -> bool {
        self.attempts < 3
    }

    /// Starts connecting: the first attempt comes right away.
    pub fn start() -> (r: (ConnectRetry, ConnectStep))
        ensures
            r.0.wf(),
            r.0.attempts() == 0,
            r.1 == (ConnectStep::Attempt { delay_ms: 0 }),
    {
        (ConnectRetry { attempts: 0, last_error: None }, ConnectStep::Attempt { delay_ms: 0 })
    }

    /// Takes what the attempt came to and says what to do next: done when it
    /// connected; another attempt after 400 ms while fewer than three were
    /// made; otherwise give up with this attempt's error.
    pub fn on_outcome(&mut self, outcome: ConnectOutcome) -> (step: ConnectStep)
        requires
            old(self).wf(),
        ensures
            outcome is Connected ==> step == ConnectStep::Succeed,
            !(outcome is Connected) && old(self).attempts() + 1 < 3 ==> step == (ConnectStep::Attempt {
                delay_ms: 400,
            }) && final(self).wf() && final(self).attempts() == old(self).attempts() + 1,
            !(outcome is Connected) && old(self).attempts() + 1 >= 3 ==> step is GiveUp
                && step->GiveUp_0@ == outcome_error(outcome),
    {
        let message = match outcome {
            ConnectOutcome::Connected => {
                return ConnectStep::Succeed;
            },
            ConnectOutcome::Failed(m) => m,
            ConnectOutcome::TimedOut => string_of(
                &chars_of("Zeitüberschreitung beim Verbindungsaufbau (Server nicht erreichbar?)"),
            ),
        };
        self.last_error = Some(message);
        if self.attempts + 1 < 3 {
            self.attempts = self.attempts + 1;
            ConnectStep::Attempt { delay_ms: 400 }
        } else {
            let last = self.last_error.take();
            match last {
                Some(m) => ConnectStep::GiveUp(m),
                None => ConnectStep::GiveUp(string_of(&chars_of("Verbindung fehlgeschlagen"))),
            }
        }
    }
}

/// A message arriving on an SSH channel, as far as reading output goes.
#[derive(Debug)]
pub enum ChannelEvent {
    /// Standard output data.
    Data(Vec<u8>),
    /// Extended (standard error) data.
    ExtendedData(Vec<u8>),
    /// The remote side sent end of file.
    Eof,
    /// The channel was closed.
    Close,
    /// Anything else (exit status, window changes, ...).
    Other,
}

/// Collects a command's combined output until end of file or close.
pub struct OutputCollector {
    bytes: Vec<u8>,
    finished: bool,
}

impl OutputCollector {
    /// The output gathered so far.
    pub closed spec fn output(&self) -> Seq<u8> {
        self.bytes@
    }

    /// Whether end of file or close was seen.
    pub closed spec fn finished(&self) -> bool {
        self.finished
    }

    /// An empty collector.
    pub fn new() -> (r: Self)
        ensures
            r.output() == Seq::<u8>::empty(),
            !r.finished(),
    {
        OutputCollector { bytes: Vec::new(), finished: false }
    }

    /// Takes one channel message; returns whether to keep reading. Data of
    /// both kinds is appended; end of file or close ends the output; other
    /// messages are skipped.
    pub fn on_event(&mut self, event: ChannelEvent) -> (more: bool)
        requires
            !old(self).finished(),
        ensures
            match event {
                ChannelEvent::Data(d) => more && final(self).output() == old(self).output() + d@,
                ChannelEvent::ExtendedData(d) => more && final(self).output() == old(self).output()
                    + d@,
                ChannelEvent::Other => more && final(self).output() == old(self).output(),
                _ => !more && final(self).output() == old(self).output(),
            },
            final(self).finished() == !more,
    {
        match event {
            ChannelEvent::Data(d) => {
                append_bytes(&mut self.bytes, &d);
                true
            },
            ChannelEvent::ExtendedData(d) => {
                append_bytes(&mut self.bytes, &d);
                true
            },
            ChannelEvent::Other => true,
            _ => {
                self.finished = true;
                false
            },
        }
    }

    /// The output as raw bytes.
    pub fn into_bytes(self) -> (r: Vec<u8>)
        ensures
            r@ == self.output(),
    {
        self.bytes
    }

    /// The output as text (invalid UTF-8 replaced).
    pub fn text(&self) -> (r: String)
        ensures
            r@ == utf8_lossy(self.output()),
    {
        lossy_text(self.bytes.as_slice())
    }
}

/// Appends `src` to `dst`.
fn append_bytes(dst: &mut Vec<u8>, src: &[u8])
    ensures
        final(dst)@ == old(dst)@ + src@,
{
    let mut k: usize = 0;
    while k < src.len()
        invariant
            k <= src@.len(),
            dst@ == old(dst)@ + src@.take(k as int),
        decreases src@.len() - k,
    {
        dst.push(src[k]);
        k = k + 1;
        assert(dst@ =~= old(dst)@ + src@.take(k as int));
    }
    assert(src@.take(src@.len() as int) =~= src@);
}

/// An event of a followed log, as sent to the UI.
#[derive(Clone, Debug)]
pub enum LogEvent {
    Line { text: String },
    Closed,
}

/// Progress of an upload, as sent to the UI.
#[derive(Clone, Debug)]
pub enum UploadEvent {
    Progress { bytes_sent: u64, total_bytes: u64 },
}

/// Index of the first newline byte of `s`.
pub open spec fn first_newline(s: Seq<u8>) -> Option<int>
    decreases s.len(),
{
    if s.len() == 0 {
        None
    } else if s[0] == 10u8 {
        Some(0)
    } else {
        match first_newline(s.drop_first()) {
            Some(i) => Some(i + 1),
            None => None,
        }
    }
}

pub proof fn lemma_first_newline(s: Seq<u8>)
    ensures
        match first_newline(s) {
            Some(i) => 0 <= i < s.len() && s[i] == 10u8 && forall|j: int| 0 <= j < i ==> s[j] != 10u8,
            None => forall|j: int| 0 <= j < s.len() ==> s[j] != 10u8,
        },
    decreases s.len(),
{
    if s.len() > 0 && s[0] != 10u8 {
        lemma_first_newline(s.drop_first());
        assert forall|j: int| 0 < j < s.len() implies s[j] == s.drop_first()[j - 1] by {}
    }
}

/// The complete lines of `s`, each with its newline.
pub open spec fn complete_lines(s: Seq<u8>) -> Seq<Seq<u8>>
    decreases s.len(),
{
    match first_newline(s) {
        Some(i) => {
            proof {
                lemma_first_newline(s);
            }
            seq![s.take(i + 1)] + complete_lines(s.skip(i + 1))
        },
        None => seq![],
    }
}

/// What follows the last newline of `s` (all of `s` without one).
pub open spec fn pending_tail(s: Seq<u8>) -> Seq<u8>
    decreases s.len(),
{
    match first_newline(s) {
        Some(i) => {
            proof {
                lemma_first_newline(s);
            }
            pending_tail(s.skip(i + 1))
        },
        None => s,
    }
}

/// The text a line is shown with: decoded, trailing white space (the
/// newline among it) removed.
pub open spec fn line_text(line: Seq<u8>) -> Seq<char> {
    trim_end(utf8_lossy(line))
}

/// The texts of lines.
pub open spec fn line_texts(ls: Seq<Seq<u8>>) -> Seq<Seq<char>> {
    ls.map_values(|l: Seq<u8>| line_text(l))
}

/// The texts of a batch of log events that are all lines.
pub open spec fn event_texts(es: Seq<LogEvent>) -> Seq<Seq<char>> {
    es.map_values(|e: LogEvent| match e {
        LogEvent::Line { text } => text@,
        LogEvent::Closed => Seq::<char>::empty(),
    })
}

/// Whether every event is a line.
pub open spec fn all_lines(es: Seq<LogEvent>) -> bool {
    forall|i: int| 0 <= i < es.len() ==> (#[trigger] es[i]) is Line
}

/// Without a newline in `head`, the first newline of `head + rest` is that of
/// `rest`, moved by the length of `head`.
proof fn lemma_newline_after(head: Seq<u8>, rest: Seq<u8>)
    requires
        forall|j: int| 0 <= j < head.len() ==> head[j] != 10u8,
    ensures
        first_newline(head + rest) == match first_newline(rest) {
            Some(i) => Some(head.len() + i),
            None => None::<int>,
        },
    decreases head.len(),
{
    if head.len() > 0 {
        assert((head + rest).drop_first() =~= head.drop_first() + rest);
        lemma_newline_after(head.drop_first(), rest);
    } else {
        assert(head + rest =~= rest);
    }
}

/// Cuts the output of a followed command (e.g. `journalctl -f`) into lines
/// as data arrives, so each complete line can be shown at once.
pub struct LogStream {
    buffer: Vec<u8>,
}

impl LogStream {
    /// Bytes received after the last newline.
    pub closed spec fn pending(&self) -> Seq<u8> {
        self.buffer@
    }

    /// What is pending holds no newline.
    pub closed spec fn wf(&self) -> bool {
        forall|j: int| 0 <= j < self.buffer@.len() ==> self.buffer@[j] != 10u8
    }

    /// A stream that has received nothing.
    pub fn new() -> (r: Self)
        ensures
            r.wf(),
            r.pending() == Seq::<u8>::empty(),
    {
        LogStream { buffer: Vec::new() }
    }

    /// Takes a chunk of output and returns a line event for each line it
    /// completes, in order.
    pub fn on_data(&mut self, data: &[u8]) -> (events: Vec<LogEvent>)
        requires
            old(self).wf(),
        ensures
            final(self).wf(),
            final(self).pending() == pending_tail(old(self).pending() + data@),
            all_lines(events@),
            event_texts(events@) == line_texts(complete_lines(old(self).pending() + data@)),
    {
        let ghost whole = self.buffer@ + data@;
        let mut events: Vec<LogEvent> = Vec::new();
        let mut k: usize = 0;
        proof {
            assert(data@.skip(0) =~= data@);
        }
        while k < data.len()
            invariant
                k <= data@.len(),
                whole == old(self).pending() + data@,
                forall|j: int| 0 <= j < self.buffer@.len() ==> self.buffer@[j] != 10u8,
                all_lines(events@),
                line_texts(complete_lines(whole)) == event_texts(events@) + line_texts(
                    complete_lines(self.buffer@ + data@.skip(k as int)),
                ),
                pending_tail(whole) == pending_tail(self.buffer@ + data@.skip(k as int)),
            decreases data@.len() - k,
        {
            let b = data[k];
            let ghost buf = self.buffer@;
            let ghost rest = data@.skip(k as int);
            proof {
                assert(rest[0] == b);
                assert(rest.drop_first() =~= data@.skip(k + 1));
            }
            self.buffer.push(b);
            if b == 10u8 {
                let line = lossy_text(self.buffer.as_slice());
                let chars = chars_of(line.as_str());
                let text = string_of(&trimmed_end(&chars));
                let ghost before = events@;
                events.push(LogEvent::Line { text });
                proof {
                    lemma_newline_after(buf, rest);
                    let s = buf + rest;
                    assert(first_newline(rest) == Some(0int));
                    assert(first_newline(s) == Some(buf.len() as int));
                    assert(s.take(buf.len() as int + 1) =~= buf.push(b));
                    assert(s.skip(buf.len() as int + 1) =~= data@.skip(k + 1));
                    assert(Seq::<u8>::empty() + data@.skip(k + 1) =~= data@.skip(k + 1));
                    assert(line_texts(complete_lines(s)) =~= seq![line_text(buf.push(b))]
                        + line_texts(complete_lines(data@.skip(k + 1))));
                    assert(event_texts(events@) =~= event_texts(before) + seq![line_text(buf.push(b))]);
                }
                self.buffer.clear();
                proof {
                    assert(self.buffer@ + data@.skip(k + 1) =~= data@.skip(k + 1));
                }
            } else {
                proof {
                    assert(buf + rest =~= buf.push(b) + data@.skip(k + 1));
                }
            }
            k = k + 1;
        }
        proof {
            let t = self.buffer@ + data@.skip(k as int);
            assert(t =~= self.buffer@);
            lemma_newline_after(self.buffer@, Seq::<u8>::empty());
            assert(self.buffer@ + Seq::<u8>::empty() =~= self.buffer@);
            assert(first_newline(self.buffer@) is None);
            assert(line_texts(complete_lines(t)) =~= Seq::<Seq<char>>::empty());
            assert(event_texts(events@) + Seq::<Seq<char>>::empty() =~= event_texts(events@));
        }
        events
    }

    /// The output ended: the pending bytes, if any, as a last line, then the
    /// closing event.
    pub fn on_close(&mut self) -> (events: Vec<LogEvent>)
        ensures
            old(self).pending().len() > 0 ==> events@.len() == 2 && events@[0] is Line
                && events@[0]->text@ == line_text(old(self).pending()) && events@[1] is Closed,
            old(self).pending().len() == 0 ==> events@.len() == 1 && events@[0] is Closed,
            final(self).pending() == Seq::<u8>::empty(),
            final(self).wf(),
    {
        let mut events: Vec<LogEvent> = Vec::new();
        if self.buffer.len() > 0 {
            let line = lossy_text(self.buffer.as_slice());
            let text = string_of(&trimmed_end(&chars_of(line.as_str())));
            events.push(LogEvent::Line { text });
        }
        events.push(LogEvent::Closed);
        self.buffer.clear();
        events
    }
}


/// Lines do not depend on how the output arrived: the complete lines of
/// `a + b` are those of `a` followed by those that `b` completes after what
/// `a` left pending, and what stays pending is the same either way.
pub proof fn lemma_lines_chunking(a: Seq<u8>, b: Seq<u8>)
    ensures
        complete_lines(a + b) == complete_lines(a) + complete_lines(pending_tail(a) + b),
        pending_tail(a + b) == pending_tail(pending_tail(a) + b),
    decreases a.len(),
{
    lemma_first_newline(a);
    match first_newline(a) {
        Some(i) => {
            let head = a.take(i);
            let rest = (a + b).skip(i);
            assert(head + rest =~= a + b);
            assert(rest[0] == 10u8);
            assert(first_newline(rest) == Some(0int));
            lemma_newline_after(head, rest);
            assert((a + b).skip(i + 1) =~= a.skip(i + 1) + b);
            assert((a + b).take(i + 1) =~= a.take(i + 1));
            lemma_lines_chunking(a.skip(i + 1), b);
            assert(complete_lines(a + b) =~= seq![a.take(i + 1)] + complete_lines(a.skip(i + 1) + b));
        },
        None => {
            assert(complete_lines(a) =~= Seq::<Seq<u8>>::empty());
        },
    }
}


/// What is left pending holds no newline.
proof fn lemma_pending_tail_has_no_newline(s: Seq<u8>)
    ensures
        first_newline(pending_tail(s)) is None,
    decreases s.len(),
{
    lemma_first_newline(s);
    match first_newline(s) {
        Some(i) => {
            lemma_pending_tail_has_no_newline(s.skip(i + 1));
        },
        None => {},
    }
}

/// The complete lines a stream that holds `pending` reports as `chunks`
/// arrive one after another.
pub open spec fn streamed_lines(pending: Seq<u8>, chunks: Seq<Seq<u8>>) -> Seq<Seq<u8>>
    decreases chunks.len(),
{
    if chunks.len() == 0 {
        Seq::empty()
    } else {
        complete_lines(pending + chunks[0]) + streamed_lines(
            pending_tail(pending + chunks[0]),
            chunks.drop_first(),
        )
    }
}

/// What a stream that holds `pending` still holds after `chunks` arrived.
pub open spec fn streamed_pending(pending: Seq<u8>, chunks: Seq<Seq<u8>>) -> Seq<u8>
    decreases chunks.len(),
{
    if chunks.len() == 0 {
        pending
    } else {
        streamed_pending(pending_tail(pending + chunks[0]), chunks.drop_first())
    }
}

/// Over a whole run, lines do not depend on how the output was cut into
/// chunks: whatever chunks arrive, the lines reported are the complete
/// lines of all the bytes together, and what is left pending (shown as the
/// last line when the output closes) is the tail after their last newline.
pub proof fn lemma_stream_lines_whole_run(pending: Seq<u8>, chunks: Seq<Seq<u8>>)
    requires
        first_newline(pending) is None,
    ensures
        streamed_lines(pending, chunks) == complete_lines(pending + chunks.flatten()),
        streamed_pending(pending, chunks) == pending_tail(pending + chunks.flatten()),
    decreases chunks.len(),
{
    if chunks.len() == 0 {
        assert(pending + chunks.flatten() =~= pending);
    } else {
        let first = chunks[0];
        let rest = chunks.drop_first();
        lemma_pending_tail_has_no_newline(pending + first);
        lemma_stream_lines_whole_run(pending_tail(pending + first), rest);
        assert(pending + chunks.flatten() =~= (pending + first) + rest.flatten());
        lemma_lines_chunking(pending + first, rest.flatten());
    }
}

} // verus!
