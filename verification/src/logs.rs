//! Log lines.
use crate::metrics::{LogMetric, LogMetricView, Metrics};
use crate::pattern::regex_is_match;
use crate::text::{lemma_encode_concat, lines, text_lines, texts, utf8_lossy, utf8_lossy_text};
use regex::Regex;
use vstd::prelude::*;

verus! {

broadcast use vstd::string::group_string_axioms;

/// What the stream of a container's logs hands out next.
#[derive(Debug)]
pub enum LogEvent {
    /// Bytes that the container wrote to its standard output.
    StdOut(Vec<u8>),
    /// Bytes that the container wrote to its standard error.
    StdErr(Vec<u8>),
    /// Anything else that the stream can carry.
    Other,
    /// The stream could not be read further.
    Failed,
}

pub enum LogEventView {
    StdOut(Seq<u8>),
    StdErr(Seq<u8>),
    Other,
    Failed,
}

impl View for LogEvent {
    type V = LogEventView;

    open spec fn view(&self) -> LogEventView {
        match self {
            LogEvent::StdOut(message) => LogEventView::StdOut(message@),
            LogEvent::StdErr(message) => LogEventView::StdErr(message@),
            LogEvent::Other => LogEventView::Other,
            LogEvent::Failed => LogEventView::Failed,
        }
    }
}

impl LogEventView {
    /// The text that the event adds to the log.
    pub open spec fn text(self) -> Seq<char> {
        match self {
            LogEventView::StdOut(message) => utf8_lossy_text(message),
            LogEventView::StdErr(message) => utf8_lossy_text(message),
            LogEventView::Other => Seq::empty(),
            LogEventView::Failed => Seq::empty(),
        }
    }
}

/// The log that a stream of events amounts to: the text of the events before
/// the first failure, each message decoded by itself.
pub open spec fn log_text(events: Seq<LogEventView>) -> Seq<char>
    decreases events.len(),
{
    if events.len() == 0 || events[0] is Failed {
        Seq::empty()
    } else {
        events[0].text() + log_text(events.drop_first())
    }
}

/// The text of a log as it is being read.
#[derive(Debug)]
pub struct LogContent {
    pub text: String,
}

impl LogContent {
    /// A log of which nothing has been read.
    pub fn new() -> (content: LogContent)
        ensures
            content.text@ == Seq::<char>::empty(),
    {
        LogContent { text: String::new() }
    }

    /// Takes in one event. The result says whether the stream is to be read on.
    pub fn feed(&mut self, event: &LogEvent) -> (go_on: bool)
        ensures
            final(self).text@ == old(self).text@ + event@.text(),
            event@ matches LogEventView::StdOut(message) ==> vstd::utf8::valid_utf8(message)
                ==> final(self).text@ == old(self).text@ + vstd::utf8::decode_utf8(message),
            event@ matches LogEventView::StdErr(message) ==> vstd::utf8::valid_utf8(message)
                ==> final(self).text@ == old(self).text@ + vstd::utf8::decode_utf8(message),
            go_on == !(event@ is Failed),
            *event matches LogEvent::StdOut(message) ==> go_on && final(self).text@
                == old(self).text@ + utf8_lossy_text(message@),
            *event matches LogEvent::StdErr(message) ==> go_on && final(self).text@
                == old(self).text@ + utf8_lossy_text(message@),
            *event is Other ==> go_on && final(self).text@ == old(self).text@,
            *event is Failed ==> !go_on && final(self).text@ == old(self).text@,
    {
        match event {
            LogEvent::StdOut(message) => {
                let chunk = utf8_lossy(message.as_slice());
                self.text.append(chunk.as_str());
                true
            },
            LogEvent::StdErr(message) => {
                let chunk = utf8_lossy(message.as_slice());
                self.text.append(chunk.as_str());
                true
            },
            LogEvent::Other => {
                assert(self.text@ =~= old(self).text@ + event@.text());
                true
            },
            LogEvent::Failed => {
                assert(self.text@ =~= old(self).text@ + event@.text());
                false
            },
        }
    }
}

/// The number of marks that are set.
pub open spec fn marked(marks: Seq<bool>) -> nat {
    marks.filter(|mark: bool| mark).len()
}

/// Which lines the expression matches.
pub open spec fn line_matches(regex: Regex, lines: Seq<Seq<char>>) -> Seq<bool> {
    Seq::new(lines.len(), |i: int| regex_is_match(regex, lines[i]))
}

/// The marks that count as custom lines: those that the expression sets, where
/// there is one and custom lines are asked for.
pub open spec fn custom_marks(
    lines: Seq<Seq<char>>,
    log_regex: Option<Regex>,
    get_custom: bool,
) -> Seq<bool> {
    match log_regex {
        Some(regex) => if get_custom {
            line_matches(regex, lines)
        } else {
            Seq::empty()
        },
        None => Seq::empty(),
    }
}

/// Marks the lines that the expression matches.
pub fn match_lines(regex: &Regex, lines: &Vec<String>) -> (marks: Vec<bool>)
    ensures
        marks@ == line_matches(*regex, texts(lines@)),
        marks@.len() == lines@.len(),
        forall|i: int|
            0 <= i < lines@.len() ==> #[trigger] marks@[i] == regex_is_match(*regex, lines@[i]@),
{
    let mut marks: Vec<bool> = Vec::new();
    for i in 0..lines.len()
        invariant
            marks@.len() == i,
            forall|j: int|
                0 <= j < i ==> marks@[j] == regex_is_match(*regex, (#[trigger] lines@[j])@),
    {
        marks.push(regex.is_match(lines[i].as_str()));
    }
    assert(marks@ =~= line_matches(*regex, texts(lines@)));
    marks
}

/// The number of marks that are set.
pub fn count_marks(marks: &Vec<bool>) -> (count: usize)
    ensures
        count == marked(marks@),
        count == marks@.filter(|mark: bool| mark).len(),
{
    let mut count: usize = 0;
    reveal(Seq::filter);
    assert(marks@.take(0) =~= Seq::<bool>::empty());
    for i in 0..marks.len()
        invariant
            count == marked(marks@.take(i as int)),
            count <= i,
    {
        proof {
            reveal(Seq::filter);
            assert(marks@.take(i + 1).drop_last() =~= marks@.take(i as int));
        }
        if marks[i] {
            count += 1;
        }
    }
    assert(marks@.take(marks@.len() as int) =~= marks@);
    count
}

/// The counts of one stream, given which of its lines are marked as custom.
pub fn log_metric(id: &str, stdout: bool, stderr: bool, line_count: usize, marks: &Vec<bool>) -> (
metric: LogMetric)
    ensures
        metric@ == (LogMetricView {
            id: id@,
            stdout,
            stderr,
            value: line_count as i64,
            custom_value: marked(marks@) as i64,
        }),
        metric.id@ == id@,
        metric.stdout == stdout,
        metric.stderr == stderr,
        metric.value == line_count as i64,
        metric.custom_value == marks@.filter(|mark: bool| mark).len() as i64,
{
    let count = count_marks(marks);
    LogMetric {
        id: id.to_owned(),
        stdout,
        stderr,
        value: line_count as i64,
        custom_value: count as i64,
    }
}

impl Metrics {
    /// Counts the lines of a log, and those of them that the expression matches
    /// where custom lines are asked for.
    pub fn get_logs_count(
        id: &str,
        stdout: bool,
        stderr: bool,
        content: &LogContent,
        log_regex: &Option<Regex>,
        get_custom: bool,
    ) -> (metric: LogMetric)
        ensures
            metric@ == (LogMetricView {
                id: id@,
                stdout,
                stderr,
                value: text_lines(content.text@).len() as i64,
                custom_value: marked(
                    custom_marks(text_lines(content.text@), *log_regex, get_custom),
                ) as i64,
            }),
            metric.id@ == id@,
            metric.stdout == stdout,
            metric.stderr == stderr,
            metric.value == text_lines(content.text@).len() as i64,
            get_custom ==> (*log_regex matches Some(regex) ==> metric.custom_value == text_lines(
                content.text@,
            ).filter(|line: Seq<char>| regex_is_match(regex, line)).len() as i64),
            !get_custom || *log_regex is None ==> metric.custom_value == 0,
    {
        let found = lines(content.text.as_str());
        let mut marks: Vec<bool> = Vec::new();
        if get_custom {
            if let Some(regex) = log_regex {
                marks = match_lines(regex, &found);
            }
        }
        assert(marks@ =~= custom_marks(text_lines(content.text@), *log_regex, get_custom));
        assert(texts(found@).len() == found@.len());
        proof {
            law_custom_lines_are_lines(text_lines(content.text@), *log_regex, get_custom);
            if let Some(regex) = log_regex {
                law_custom_lines_match(text_lines(content.text@), *regex);
            }
        }
        log_metric(id, stdout, stderr, found.len(), &marks)
    }
}

// ---------------------------------------------------------------------------
// Laws.

/// Feeding the events of a stream one by one, up to the first failure, makes
/// the log of the whole stream.
pub proof fn law_log_grows_by_event(events: Seq<LogEventView>, event: LogEventView)
    requires
        forall|i: int| 0 <= i < events.len() ==> !(#[trigger] events[i] is Failed),
    ensures
        log_text(events.push(event)) == log_text(events) + event.text(),
    decreases events.len(),
{
    let longer = events.push(event);
    if events.len() == 0 {
        assert(longer.drop_first() =~= Seq::<LogEventView>::empty());
        assert(log_text(longer.drop_first()) == Seq::<char>::empty());
        assert(event.text() + Seq::<char>::empty() =~= event.text());
        assert(Seq::<char>::empty() + event.text() =~= event.text());
    } else {
        let rest = events.drop_first();
        assert forall|i: int| 0 <= i < rest.len() implies !(#[trigger] rest[i] is Failed) by {
            assert(rest[i] == events[i + 1]);
        }
        law_log_grows_by_event(rest, event);
        assert(longer.drop_first() =~= rest.push(event));
        assert(longer[0] == events[0]);
        assert(log_text(longer) =~= log_text(events) + event.text());
    }
}

/// Nothing that follows a failure is part of the log.
pub proof fn law_failure_ends_log(
    events: Seq<LogEventView>,
    later: Seq<LogEventView>,
)
    ensures
        log_text(events.push(LogEventView::Failed) + later) == log_text(
            events.push(LogEventView::Failed),
        ),
    decreases events.len(),
{
    let ended = events.push(LogEventView::Failed);
    if events.len() > 0 {
        law_failure_ends_log(events.drop_first(), later);
        assert(ended.drop_first() =~= events.drop_first().push(LogEventView::Failed));
        assert((ended + later).drop_first() =~= ended.drop_first() + later);
        assert((ended + later)[0] == ended[0]);
    }
}

/// There are at most as many custom lines as lines, and none at all where they
/// are not asked for or there is no expression.
pub proof fn law_custom_lines_are_lines(
    lines: Seq<Seq<char>>,
    log_regex: Option<Regex>,
    get_custom: bool,
)
    ensures
        marked(custom_marks(lines, log_regex, get_custom)) <= lines.len(),
        !get_custom || log_regex is None ==> marked(custom_marks(lines, log_regex, get_custom))
            == 0,
{
    let marks = custom_marks(lines, log_regex, get_custom);
    marks.lemma_filter_len(|mark: bool| mark);
}

/// The log of a stream is that of its first part followed by that of the rest,
/// where the first part holds no failure.
pub proof fn law_log_parts_join(first: Seq<LogEventView>, rest: Seq<LogEventView>)
    requires
        forall|i: int| 0 <= i < first.len() ==> !(#[trigger] first[i] is Failed),
    ensures
        log_text(first + rest) == log_text(first) + log_text(rest),
    decreases first.len(),
{
    if first.len() == 0 {
        assert(first + rest =~= rest);
        assert(log_text(first) + log_text(rest) =~= log_text(rest));
    } else {
        let tail = first.drop_first();
        assert forall|i: int| 0 <= i < tail.len() implies !(#[trigger] tail[i] is Failed) by {
            assert(tail[i] == first[i + 1]);
        }
        law_log_parts_join(tail, rest);
        assert((first + rest).drop_first() =~= tail + rest);
        assert((first + rest)[0] == first[0]);
        assert(log_text(first + rest) =~= log_text(first) + log_text(rest));
    }
}

/// Where well-formed UTF-8 is cut between two characters, the parts decode to
/// what the whole decodes to: how a log is cut into messages does not matter.
pub proof fn law_messages_decode_alike(first: Seq<u8>, second: Seq<u8>)
    requires
        vstd::utf8::valid_utf8(first),
        vstd::utf8::valid_utf8(second),
    ensures
        vstd::utf8::valid_utf8(first + second),
        vstd::utf8::decode_utf8(first + second) == vstd::utf8::decode_utf8(first)
            + vstd::utf8::decode_utf8(second),
{
    let a = vstd::utf8::decode_utf8(first);
    let b = vstd::utf8::decode_utf8(second);
    vstd::utf8::decode_utf8_encode_utf8(first);
    vstd::utf8::decode_utf8_encode_utf8(second);
    lemma_encode_concat(a, b);
    vstd::utf8::encode_utf8_valid_utf8(a + b);
    vstd::utf8::encode_utf8_decode_utf8(a + b);
}

/// A message adds its text to the log, whichever stream it was written to; any
/// other event adds nothing.
pub proof fn law_only_messages_add_text(event: LogEvent)
    ensures
        event matches LogEvent::StdOut(message) ==> event@.text() == utf8_lossy_text(message@),
        event matches LogEvent::StdErr(message) ==> event@.text() == utf8_lossy_text(message@),
        event is Other || event is Failed ==> event@.text() == Seq::<char>::empty(),
        event@ is Failed == event is Failed,
{
}

/// A stream of which nothing was read has an empty log, and so has one that
/// begins with a failure.
pub proof fn law_nothing_read_empty_log(later: Seq<LogEventView>)
    ensures
        log_text(Seq::empty()) == Seq::<char>::empty(),
        log_text(seq![LogEventView::Failed] + later) == Seq::<char>::empty(),
{
}

/// The custom lines are those lines of the log that the expression matches,
/// each counted once.
pub proof fn law_custom_lines_match(lines: Seq<Seq<char>>, regex: Regex)
    ensures
        marked(custom_marks(lines, Some(regex), true)) == lines.filter(
            |line: Seq<char>| regex_is_match(regex, line),
        ).len(),
    decreases lines.len(),
{
    reveal(Seq::filter);
    if lines.len() > 0 {
        let before = lines.drop_last();
        law_custom_lines_match(before, regex);
        let marks = custom_marks(lines, Some(regex), true);
        assert(marks.drop_last() =~= custom_marks(before, Some(regex), true));
        assert(marks.last() == regex_is_match(regex, lines.last()));
    }
}

/// A log of which nothing has been read is empty.
pub proof fn law_new_log_empty(content: LogContent)
    requires
        call_ensures(LogContent::new, (), content),
    ensures
        content.text@ == Seq::<char>::empty(),
{
}

/// Each line is marked where the expression matches it and nowhere else.
pub proof fn law_lines_marked(regex: &Regex, lines: &Vec<String>, marks: Vec<bool>)
    requires
        call_ensures(match_lines, (regex, lines), marks),
    ensures
        marks@.len() == lines@.len(),
        forall|i: int|
            0 <= i < lines@.len() ==> #[trigger] marks@[i] == regex_is_match(*regex, lines@[i]@),
{
}

/// Every mark that is set counts once.
pub proof fn law_marks_counted(marks: &Vec<bool>, count: usize)
    requires
        call_ensures(count_marks, (marks,), count),
    ensures
        count == marks@.filter(|mark: bool| mark).len(),
{
}

/// What is counted of a stream is kept as it is: its lines, and those of them
/// that are marked.
pub proof fn law_stream_counts_kept(
    id: &str,
    stdout: bool,
    stderr: bool,
    line_count: usize,
    marks: &Vec<bool>,
    metric: LogMetric,
)
    requires
        call_ensures(log_metric, (id, stdout, stderr, line_count, marks), metric),
    ensures
        metric.id@ == id@,
        metric.stdout == stdout,
        metric.stderr == stderr,
        metric.value == line_count as i64,
        metric.custom_value == marks@.filter(|mark: bool| mark).len() as i64,
{
}

/// The lines of a log are counted for the container and the streams that they
/// were asked for: all of them, and those that the expression matches, where
/// custom lines are asked for.
pub proof fn law_log_lines_counted(
    id: &str,
    stdout: bool,
    stderr: bool,
    content: &LogContent,
    log_regex: &Option<Regex>,
    get_custom: bool,
    metric: LogMetric,
)
    requires
        call_ensures(
            Metrics::get_logs_count,
            (id, stdout, stderr, content, log_regex, get_custom),
            metric,
        ),
    ensures
        metric.id@ == id@,
        metric.stdout == stdout,
        metric.stderr == stderr,
        metric.value == text_lines(content.text@).len() as i64,
        get_custom ==> (*log_regex matches Some(regex) ==> metric.custom_value == text_lines(
            content.text@,
        ).filter(|line: Seq<char>| regex_is_match(regex, line)).len() as i64),
        !get_custom || *log_regex is None ==> metric.custom_value == 0,
{
}

/// A message that is read adds its text to the log, any other event adds
/// nothing, and only a failure ends the reading.
pub proof fn law_event_read(content: &mut LogContent, event: &LogEvent, go_on: bool)
    requires
        call_ensures(LogContent::feed, (content, event), go_on),
    ensures
        *event matches LogEvent::StdOut(message) ==> go_on && final(content).text@
            == old(content).text@ + utf8_lossy_text(message@),
        *event matches LogEvent::StdErr(message) ==> go_on && final(content).text@
            == old(content).text@ + utf8_lossy_text(message@),
        *event is Other ==> go_on && final(content).text@ == old(content).text@,
        *event is Failed ==> !go_on && final(content).text@ == old(content).text@,
{
}

} // verus!
