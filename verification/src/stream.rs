//! What the tray application has from the programs that it starts: receivers that come and go, and
//! the statistics of a sender.

use crate::pattern::first_group;
use crate::text::lossy_text;
use vstd::prelude::*;
use vstd::string::StringExecFns;

verus! {

/// What happened to a receiver.
#[derive(Debug, Clone, Copy, PartialEq, Eq, Structural)]
pub enum DiscoveryEvent {
    Discovered,
    Lost,
}

/// A receiver that was found or lost.
#[derive(Debug, Clone)]
pub struct DiscoveryResult {
    pub event: DiscoveryEvent,
    pub name: String,
    pub addr: String,
}

/// The arguments as text.
pub open spec fn texts(args: Seq<String>) -> Seq<Seq<char>> {
    args.map_values(|arg: String| arg@)
}

/// What becomes of a line of the discovery program's output.
pub enum LineStep {
    /// Read this text as a receiver that was found or lost.
    Parse(String),
    /// The output has ended.
    End,
}

/// What happens to the discovery program.
pub enum OutputEvent {
    /// It could not be started, or its output could not be read.
    Failed(String),
    /// A line was read as a receiver that was found or lost, or could not be.
    Line(Result<DiscoveryResult, String>),
    /// Its output has ended.
    End,
}

/// The words for a failure of the discovery program.
pub open spec fn failure_words(reason: Seq<char>) -> Seq<char> {
    "Error in discovery task: "@ + reason
}

/// What is reported of an event: a receiver that was found or lost, or the words for the failure
/// that ends the reports.
pub open spec fn report_of(event: OutputEvent) -> Result<DiscoveryResult, Seq<char>> {
    match event {
        OutputEvent::Failed(reason) => Err(failure_words(reason@)),
        OutputEvent::Line(Ok(result)) => Ok(result),
        OutputEvent::Line(Err(reason)) => Err(failure_words(reason@)),
        OutputEvent::End => Err(failure_words("Discovery task died"@)),
    }
}

/// A report with the words of a failure as text.
pub open spec fn report_text(report: Result<DiscoveryResult, String>) -> Result<
    DiscoveryResult,
    Seq<char>,
> {
    match report {
        Ok(result) => Ok(result),
        Err(words) => Err(words@),
    }
}

/// The discovery program, which reports the receivers that come and go.
#[derive(Debug)]
pub struct StreamDiscoverer {
    args: Vec<String>,
    ended: bool,
}

impl StreamDiscoverer {
    /// The arguments that the program is started with.
    pub closed spec fn arguments(self) -> Seq<String> {
        self.args@
    }

    /// Whether a failure has ended the reports.
    pub closed spec fn has_ended(self) -> bool {
        self.ended
    }

    /// The discovery program for the port of the receivers, with output for machines.
    pub fn new() -> (discoverer: Self)
        ensures
            texts(discoverer.arguments()) == seq!["discover"@, "-p"@, "9080"@, "--json"@],
            discoverer.arguments().len() == 4,
            discoverer.arguments()[0]@ == "discover"@,
            discoverer.arguments()[1]@ == "-p"@,
            discoverer.arguments()[2]@ == "9080"@,
            discoverer.arguments()[3]@ == "--json"@,
            !discoverer.has_ended(),
    {
        let mut args: Vec<String> = Vec::new();
        args.push("discover".to_owned());
        args.push("-p".to_owned());
        args.push("9080".to_owned());
        args.push("--json".to_owned());
        assert(texts(args@) =~= seq!["discover"@, "-p"@, "9080"@, "--json"@]);
        StreamDiscoverer { args, ended: false }
    }

    /// The arguments that the program is started with.
    pub fn args(&self) -> (args: &Vec<String>)
        ensures
            args@ == self.arguments(),
    {
        &self.args
    }

    /// What becomes of `n` bytes of output that were read as a line: none are the end of it. No line
    /// is passed over, not even one without text.
    pub fn on_line(n: usize, line: &str) -> (step: LineStep)
        ensures
            n == 0 ==> step is End,
            n != 0 ==> step is Parse && step->Parse_0@ == crate::text::trimmed(line@),
    {
        if n == 0 {
            return LineStep::End;
        }
        LineStep::Parse(line.trim().to_owned())
    }

    /// What is reported of an event. A failure is reported once, and nothing after it: so is a line
    /// that cannot be read, and so is the end of the output.
    pub fn recv(&mut self, event: OutputEvent) -> (report: Option<Result<DiscoveryResult, String>>)
        ensures
            final(self).arguments() == old(self).arguments(),
            old(self).has_ended() ==> report is None && final(self).has_ended(),
            !old(self).has_ended() ==> {
                &&& report is Some
                &&& report_text(report->Some_0) == report_of(event)
                &&& final(self).has_ended() == (report_of(event) is Err)
                &&& final(self).has_ended() == (report->Some_0 is Err)
                &&& match event {
                    OutputEvent::Line(Ok(result)) => report->Some_0 == Ok::<
                        DiscoveryResult,
                        String,
                    >(result),
                    OutputEvent::Line(Err(reason)) => report->Some_0 is Err
                        && report->Some_0->Err_0@ == "Error in discovery task: "@ + reason@,
                    OutputEvent::Failed(reason) => report->Some_0 is Err && report->Some_0->Err_0@
                        == "Error in discovery task: "@ + reason@,
                    OutputEvent::End => report->Some_0 is Err && report->Some_0->Err_0@
                        == "Error in discovery task: "@ + "Discovery task died"@,
                }
            },
    {
        if self.ended {
            return None;
        }
        let report = match event {
            OutputEvent::Failed(reason) => Err(failure(reason.as_str())),
            OutputEvent::Line(Ok(result)) => Ok(result),
            OutputEvent::Line(Err(reason)) => Err(failure(reason.as_str())),
            OutputEvent::End => Err(failure("Discovery task died")),
        };
        self.ended = report.is_err();
        Some(report)
    }

    /// Whether a failure has ended the reports.
    pub fn ended(&self) -> (ended: bool)
        ensures
            ended == self.has_ended(),
    {
        self.ended
    }
}

fn failure(reason: &str) -> (words: String)
    ensures
        words@ == failure_words(reason@),
{
    let mut words = "Error in discovery task: ".to_owned();
    words.append(reason);
    words
}

/// All that is reported of events, one after the other.
pub open spec fn reports(ended: bool, events: Seq<OutputEvent>) -> Seq<
    Result<DiscoveryResult, Seq<char>>,
>
    decreases events.len(),
{
    if ended || events.len() == 0 {
        seq![]
    } else {
        let report = report_of(events[0]);
        seq![report] + reports(report is Err, events.drop_first())
    }
}

/// Receivers are reported in the order in which the program tells of them, none left out or
/// repeated, up to the first failure: that is reported once, and nothing after it, whatever follows.
pub proof fn law_reports_end_with_the_first_failure(events: Seq<OutputEvent>, k: int)
    requires
        0 <= k < events.len(),
        forall|i: int| 0 <= i < k ==> report_of(#[trigger] events[i]) is Ok,
        report_of(events[k]) is Err,
    ensures
        reports(false, events).len() == k + 1,
        forall|i: int| 0 <= i <= k ==> #[trigger] reports(false, events)[i] == report_of(events[i]),
    decreases k,
{
    let rest = events.drop_first();
    if k > 0 {
        assert(report_of(events[0]) is Ok);
        assert forall|i: int| 0 <= i < k - 1 implies report_of(#[trigger] rest[i]) is Ok by {
            assert(rest[i] == events[i + 1]);
        }
        assert(rest[k - 1] == events[k]);
        law_reports_end_with_the_first_failure(rest, k - 1);
        assert forall|i: int| 0 <= i <= k implies #[trigger] reports(false, events)[i] == report_of(
            events[i],
        ) by {
            if i > 0 {
                assert(reports(false, events)[i] == reports(false, rest)[i - 1]);
                assert(rest[i - 1] == events[i]);
            }
        }
    } else {
        assert(reports(true, rest) =~= seq![]);
    }
}

/// What happens to a program that was started and that prints lines until its output ends, where
/// `parse` is what a text is read as.
pub open spec fn output_events(
    parse: spec_fn(Seq<char>) -> Result<DiscoveryResult, String>,
    lines: Seq<Seq<char>>,
) -> Seq<OutputEvent> {
    Seq::new(
        lines.len(),
        |i: int| OutputEvent::Line(parse(crate::text::trimmed(lines[i]))),
    ).push(OutputEvent::End)
}

/// The lines of the program that can be read are reported in order. Then comes one failure, for the
/// first line that cannot be read, or for the end of the output where there is no such line, and
/// then nothing.
pub proof fn law_lines_are_reported(
    parse: spec_fn(Seq<char>) -> Result<DiscoveryResult, String>,
    lines: Seq<Seq<char>>,
    k: int,
)
    requires
        0 <= k <= lines.len(),
        forall|i: int| 0 <= i < k ==> parse(crate::text::trimmed(#[trigger] lines[i])) is Ok,
        k < lines.len() ==> parse(crate::text::trimmed(lines[k])) is Err,
    ensures
        ({
            let all = reports(false, output_events(parse, lines));
            &&& all.len() == k + 1
            &&& forall|i: int|
                0 <= i < k ==> #[trigger] all[i] == Ok::<DiscoveryResult, Seq<char>>(
                    parse(crate::text::trimmed(lines[i]))->Ok_0,
                )
            &&& all[k] == Err::<DiscoveryResult, Seq<char>>(
                failure_words(
                    if k < lines.len() {
                        parse(crate::text::trimmed(lines[k]))->Err_0@
                    } else {
                        "Discovery task died"@
                    },
                ),
            )
        }),
{
    let events = output_events(parse, lines);
    assert forall|i: int| 0 <= i < k implies report_of(#[trigger] events[i]) is Ok by {
        assert(parse(crate::text::trimmed(lines[i])) is Ok);
    }
    law_reports_end_with_the_first_failure(events, k);
}

/// The statistics of a sender.
#[derive(Debug, Clone)]
pub struct StreamStats {
    pub sample_rate: String,
    pub buffer_size: String,
    pub bitrate: String,
}

/// The statistics that were found in a line, if all of them were.
pub open spec fn all_found(
    sample_rate: Option<Seq<char>>,
    buffer_size: Option<Seq<char>>,
    bitrate: Option<Seq<char>>,
) -> Option<(Seq<char>, Seq<char>, Seq<char>)> {
    match (sample_rate, buffer_size, bitrate) {
        (Some(sample_rate), Some(buffer_size), Some(bitrate)) => Some(
            (sample_rate, buffer_size, bitrate),
        ),
        _ => None,
    }
}

/// The statistics that stand in a text: the first numbers before their units.
pub open spec fn stats_in(text: Seq<char>) -> Option<(Seq<char>, Seq<char>, Seq<char>)> {
    all_found(
        crate::pattern::number_before(text, " Hz"@),
        crate::pattern::number_before(text, " samples/buffer"@),
        crate::pattern::number_before(text, " kbps"@),
    )
}

/// The statistics as text.
pub open spec fn stats_of(stats: Option<StreamStats>) -> Option<
    (Seq<char>, Seq<char>, Seq<char>),
> {
    match stats {
        Some(stats) => Some((stats.sample_rate@, stats.buffer_size@, stats.bitrate@)),
        None => None,
    }
}

/// The statistics made of what was found in a line: there are none unless all were found.
pub fn stats_from_captures(
    sample_rate: Option<String>,
    buffer_size: Option<String>,
    bitrate: Option<String>,
) -> (stats: Option<StreamStats>)
    ensures
        stats_of(stats) == all_found(
            crate::text::text_of(sample_rate),
            crate::text::text_of(buffer_size),
            crate::text::text_of(bitrate),
        ),
        stats is Some <==> sample_rate is Some && buffer_size is Some && bitrate is Some,
        stats is Some ==> stats->Some_0.sample_rate == sample_rate->Some_0
            && stats->Some_0.buffer_size == buffer_size->Some_0 && stats->Some_0.bitrate
            == bitrate->Some_0,
{
    match (sample_rate, buffer_size, bitrate) {
        (Some(sample_rate), Some(buffer_size), Some(bitrate)) => Some(
            StreamStats { sample_rate, buffer_size, bitrate },
        ),
        _ => None,
    }
}

/// The statistics in a line of a sender's output.
pub fn parse_stats(line: &[u8]) -> (stats: Option<StreamStats>)
    ensures
        stats_of(stats) == stats_in(crate::text::trimmed(crate::text::utf8_lossy(line@))),
        ({
            let text = crate::text::trimmed(crate::text::utf8_lossy(line@));
            let sample_rate = crate::pattern::number_before(text, " Hz"@);
            let buffer_size = crate::pattern::number_before(text, " samples/buffer"@);
            let bitrate = crate::pattern::number_before(text, " kbps"@);
            &&& stats is Some <==> sample_rate is Some && buffer_size is Some && bitrate is Some
            &&& stats matches Some(found) ==> found.sample_rate@ == sample_rate->Some_0
                && found.buffer_size@ == buffer_size->Some_0 && found.bitrate@ == bitrate->Some_0
        }),
{
    let text = lossy_text(line);
    let line = text.as_str().trim();
    proof {
        reveal_strlit(r"(\d+) Hz");
        reveal_strlit(r"(\d+) samples/buffer");
        reveal_strlit(r"(\d+) kbps");
        reveal_strlit(" Hz");
        reveal_strlit(" samples/buffer");
        reveal_strlit(" kbps");
        assert(r"(\d+) Hz"@.skip(5) =~= " Hz"@);
        assert(r"(\d+) samples/buffer"@.skip(5) =~= " samples/buffer"@);
        assert(r"(\d+) kbps"@.skip(5) =~= " kbps"@);
        assert(r"(\d+) Hz"@ =~= crate::pattern::number_pattern(" Hz"@));
        assert(r"(\d+) samples/buffer"@ =~= crate::pattern::number_pattern(" samples/buffer"@));
        assert(r"(\d+) kbps"@ =~= crate::pattern::number_pattern(" kbps"@));
    }
    let sample_rate = first_group(r"(\d+) Hz", line);
    let buffer_size = first_group(r"(\d+) samples/buffer", line);
    let bitrate = first_group(r"(\d+) kbps", line);
    stats_from_captures(sample_rate, buffer_size, bitrate)
}

/// What the reader of a sender's output does next.
pub enum StatsStep {
    /// Read on.
    Wait,
    /// Report the statistics.
    Report(StreamStats),
    /// End.
    Finish,
}

/// Whether a read ends the reading of a sender's output: it failed, or there is no more.
pub open spec fn is_last_read(n: Option<usize>) -> bool {
    n is None || n == Some(0usize)
}

/// A sender that runs as a program of its own.
#[derive(Debug)]
pub struct ConnectedStream {
    /// The arguments that it is started with.
    pub args: Vec<String>,
}

impl ConnectedStream {
    /// A sender to an address.
    pub fn connect(addr: String) -> (stream: Self)
        ensures
            texts(stream.args@) == seq![
                "send"@,
                "-p"@,
                "9080"@,
                "-d"@,
                "BlackHole 2ch"@,
                "-a"@,
                addr@,
                "--sample-rate"@,
                "44100"@,
                "--buffer-size"@,
                "2048"@,
            ],
            stream.args@.len() == 11,
            stream.args@[0]@ == "send"@,
            stream.args@[1]@ == "-p"@,
            stream.args@[2]@ == "9080"@,
            stream.args@[3]@ == "-d"@,
            stream.args@[4]@ == "BlackHole 2ch"@,
            stream.args@[5]@ == "-a"@,
            stream.args@[6]@ == addr@,
            stream.args@[7]@ == "--sample-rate"@,
            stream.args@[8]@ == "44100"@,
            stream.args@[9]@ == "--buffer-size"@,
            stream.args@[10]@ == "2048"@,
    {
        let mut args: Vec<String> = Vec::new();
        let ghost text = addr@;
        args.push("send".to_owned());
        args.push("-p".to_owned());
        args.push("9080".to_owned());
        args.push("-d".to_owned());
        args.push("BlackHole 2ch".to_owned());
        args.push("-a".to_owned());
        args.push(addr);
        args.push("--sample-rate".to_owned());
        args.push("44100".to_owned());
        args.push("--buffer-size".to_owned());
        args.push("2048".to_owned());
        assert(texts(args@) =~= seq![
            "send"@,
            "-p"@,
            "9080"@,
            "-d"@,
            "BlackHole 2ch"@,
            "-a"@,
            text,
            "--sample-rate"@,
            "44100"@,
            "--buffer-size"@,
            "2048"@,
        ]);
        ConnectedStream { args }
    }

    /// What becomes of output that was read up to a carriage return. `n` is the number of its
    /// bytes: `None` where reading failed, and zero at the end.
    pub fn on_read(n: Option<usize>, line: &[u8]) -> (step: StatsStep)
        ensures
            step is Finish <==> n is None || n->Some_0 == 0,
            step matches StatsStep::Report(found) ==> {
                let text = crate::text::trimmed(crate::text::utf8_lossy(line@));
                &&& crate::pattern::number_before(text, " Hz"@) == Some(found.sample_rate@)
                &&& crate::pattern::number_before(text, " samples/buffer"@) == Some(
                    found.buffer_size@,
                )
                &&& crate::pattern::number_before(text, " kbps"@) == Some(found.bitrate@)
            },
            is_last_read(n) ==> step is Finish,
            !is_last_read(n) ==> match stats_in(
                crate::text::trimmed(crate::text::utf8_lossy(line@)),
            ) {
                Some(found) => step is Report && stats_of(Some(step->Report_0)) == Some(found),
                None => step is Wait,
            },
    {
        match n {
            None => StatsStep::Finish,
            Some(n) => {
                if n == 0 {
                    return StatsStep::Finish;
                }
                match parse_stats(line) {
                    Some(stats) => StatsStep::Report(stats),
                    None => StatsStep::Wait,
                }
            },
        }
    }
}

/// All statistics that are reported of reads, one after the other. A read is the number of its bytes,
/// as far as there is one, and the bytes.
pub open spec fn stats_reported(reads: Seq<(Option<usize>, Seq<u8>)>) -> Seq<
    (Seq<char>, Seq<char>, Seq<char>),
>
    decreases reads.len(),
{
    if reads.len() == 0 || is_last_read(reads[0].0) {
        seq![]
    } else {
        let later = stats_reported(reads.drop_first());
        match stats_in(crate::text::trimmed(crate::text::utf8_lossy(reads[0].1))) {
            Some(found) => seq![found] + later,
            None => later,
        }
    }
}

/// Statistics are reported in the order in which the sender prints them: those of earlier reads come
/// before those of later ones, unless an earlier read is the last.
pub proof fn law_stats_keep_order(
    earlier: Seq<(Option<usize>, Seq<u8>)>,
    later: Seq<(Option<usize>, Seq<u8>)>,
)
    requires
        forall|i: int| 0 <= i < earlier.len() ==> !is_last_read((#[trigger] earlier[i]).0),
    ensures
        stats_reported(earlier + later) == stats_reported(earlier) + stats_reported(later),
    decreases earlier.len(),
{
    let all = earlier + later;
    if earlier.len() == 0 {
        assert(all =~= later);
        assert(stats_reported(earlier) + stats_reported(later) =~= stats_reported(later));
    } else {
        let rest = earlier.drop_first();
        assert(!is_last_read(earlier[0].0));
        assert(all[0] == earlier[0]);
        assert(all.drop_first() =~= rest + later);
        assert forall|i: int| 0 <= i < rest.len() implies !is_last_read((#[trigger] rest[i]).0) by {
            assert(rest[i] == earlier[i + 1]);
        }
        law_stats_keep_order(rest, later);
        assert(stats_reported(all) =~= stats_reported(earlier) + stats_reported(later));
    }
}

/// Nothing is reported from the last read on, whatever follows it.
pub proof fn law_no_stats_after_the_last_read(
    earlier: Seq<(Option<usize>, Seq<u8>)>,
    last: (Option<usize>, Seq<u8>),
    later: Seq<(Option<usize>, Seq<u8>)>,
)
    requires
        forall|i: int| 0 <= i < earlier.len() ==> !is_last_read((#[trigger] earlier[i]).0),
        is_last_read(last.0),
    ensures
        stats_reported(earlier + (seq![last] + later)) == stats_reported(earlier),
{
    law_stats_keep_order(earlier, seq![last] + later);
    assert(stats_reported(earlier) + stats_reported(seq![last] + later) =~= stats_reported(
        earlier,
    ));
}

/// Whether the first two characters of a unit stand at an index, behind a digit.
spec fn starts_unit(text: Seq<char>, unit: Seq<char>, index: int) -> bool {
    &&& crate::text::is_digit(text[index - 1])
    &&& text[index] == unit[0]
    &&& text[index + 1] == unit[1]
}

/// Whether no number before a unit starts in a text, whatever follows it: the first two characters
/// of the unit stand behind no digit, and the text ends with two characters that are not digits.
spec fn is_quiet(text: Seq<char>, unit: Seq<char>) -> bool {
    &&& text.len() >= 2
    &&& !crate::text::is_digit(text[text.len() - 2])
    &&& !crate::text::is_digit(text[text.len() - 1])
    &&& forall|j: int| 0 < j < text.len() - 1 ==> !#[trigger] starts_unit(text, unit, j)
}

proof fn lemma_quiet_concat(a: Seq<char>, b: Seq<char>, unit: Seq<char>)
    requires
        is_quiet(a, unit),
        is_quiet(b, unit),
    ensures
        is_quiet(a + b, unit),
{
    let text = a + b;
    assert forall|j: int| 0 < j < text.len() - 1 implies !#[trigger] starts_unit(text, unit, j) by {
        if j < a.len() - 1 {
            assert(!starts_unit(a, unit, j));
        } else if j > a.len() {
            assert(!starts_unit(b, unit, j - a.len()));
        }
    }
}

/// A number with text behind it that has no digits, and that starts otherwise than a unit.
proof fn lemma_quiet_number(number: Seq<char>, words: Seq<char>, unit: Seq<char>)
    requires
        crate::text::is_number(number),
        words.len() >= 2,
        forall|i: int| 0 <= i < words.len() ==> !crate::text::is_digit(#[trigger] words[i]),
        !crate::text::is_digit(unit[0]),
        words[0] != unit[0] || words[1] != unit[1],
    ensures
        is_quiet(number + words, unit),
{
    let text = number + words;
    let n = number.len() as int;
    assert(text[text.len() - 2] == words[words.len() - 2]);
    assert(text[text.len() - 1] == words[words.len() - 1]);
    assert forall|j: int| 0 < j < text.len() - 1 implies !#[trigger] starts_unit(text, unit, j) by {
        if j < n {
            assert(crate::text::is_digit(number[j]));
        } else if j > n {
            assert(text[j - 1] == words[j - 1 - n]);
        }
    }
}

/// Where a number before a unit stands behind a text in which no such number starts, it is the first
/// one.
proof fn lemma_first_number(
    text: Seq<char>,
    unit: Seq<char>,
    before: Seq<char>,
    number: Seq<char>,
    after: Seq<char>,
    index: int,
)
    requires
        text == before + number + unit + after,
        crate::text::is_number(number),
        unit.len() >= 2,
        !crate::text::is_digit(unit[0]),
        is_quiet(before, unit),
        0 <= index <= before.len(),
    ensures
        crate::pattern::number_from(text, unit, index) == Some(number),
    decreases before.len() - index,
{
    let n = crate::pattern::digits_at(text, index);
    let start = before.len() as int;
    let end = start + number.len();
    crate::pattern::lemma_digits_at(text, index);
    assert(forall|i: int| start <= i < end ==> #[trigger] text[i] == number[i - start]);
    assert(text[end] == unit[0]);
    if index == before.len() {
        if n > number.len() {
            assert(crate::text::is_digit(text[end]));
        }
        if n < number.len() {
            assert(crate::text::is_digit(number[n as int]));
            assert(text[start + n] == number[n as int]);
        }
        assert(text.subrange(end, end + unit.len()) =~= unit);
        assert(text.subrange(start, end) =~= number);
    } else {
        assert(text[start - 1] == before[start - 1]);
        assert(text[start - 2] == before[start - 2]);
        if n > 0 {
            let j = index + n;
            if j >= start {
                assert(crate::text::is_digit(text[start - 1]));
            }
            assert(crate::text::is_digit(text[j - 1]));
            if crate::pattern::unit_at(text, unit, j) {
                let found = text.subrange(j, j + unit.len());
                assert(found[0] == text[j]);
                assert(found[1] == text[j + 1]);
                assert(starts_unit(before, unit, j));
            }
        }
        lemma_first_number(text, unit, before, number, after, index + 1);
    }
}

/// How the line of a sender starts.
spec fn sender_mark() -> Seq<char> {
    crate::status::connected_mark() + "Sender | "@
}

proof fn lemma_sender_mark(unit: Seq<char>)
    requires
        unit.len() >= 2,
        unit[0] == ' ',
    ensures
        is_quiet(sender_mark(), unit),
        sender_mark()[0] == '\x1B',
        vstd::utf8::is_ascii_chars(sender_mark()),
{
    reveal_strlit("\x1B[K[\x1B[34mCONNECTED\x1B[0m] ");
    reveal_strlit("Sender | ");
    let mark = seq![
        '\x1B', '[', 'K', '[', '\x1B', '[', '3', '4', 'm', 'C', 'O', 'N', 'N', 'E', 'C', 'T', 'E',
        'D', '\x1B', '[', '0', 'm', ']', ' ', 'S', 'e', 'n', 'd', 'e', 'r', ' ', '|', ' ',
    ];
    assert(sender_mark() =~= mark);
    assert forall|j: int| 0 < j < mark.len() - 1 implies !#[trigger] starts_unit(mark, unit, j) by {
        if crate::text::is_digit(mark[j - 1]) {
            assert(j == 7 || j == 8 || j == 21);
        }
    }
}

/// The rate of a sender as a number: that of silence counts as one.
pub open spec fn rate_number(rate: crate::status::BitRate) -> Seq<char> {
    match rate {
        crate::status::BitRate::Silent => "1"@,
        crate::status::BitRate::Kbps(kbps) => kbps@,
    }
}

/// What follows the unit of the rate.
spec fn rate_remark(rate: crate::status::BitRate) -> Seq<char> {
    match rate {
        crate::status::BitRate::Silent => ", silence detected"@,
        crate::status::BitRate::Kbps(_) => Seq::empty(),
    }
}

proof fn lemma_rate_words(rate: crate::status::BitRate)
    ensures
        rate.words() == rate_number(rate) + " kbps"@ + rate_remark(rate),
        vstd::utf8::is_ascii_chars(rate_remark(rate)),
        !crate::text::is_white_space((" kbps"@ + rate_remark(rate)).last()),
{
    reveal_strlit("1 kbps, silence detected");
    reveal_strlit("1");
    reveal_strlit(" kbps");
    reveal_strlit(", silence detected");
    assert(rate.words() =~= rate_number(rate) + " kbps"@ + rate_remark(rate));
}

/// The statistics in a line that is made of the parts of a sender's line.
proof fn lemma_stats_in_parts(
    sr: Seq<char>,
    bs: Seq<char>,
    kbps: Seq<char>,
    remark: Seq<char>,
    body: Seq<char>,
)
    requires
        crate::text::is_number(sr),
        crate::text::is_number(bs),
        crate::text::is_number(kbps),
        vstd::utf8::is_ascii_chars(remark),
        body == sender_mark() + (sr + " Hz, "@) + (bs + " samples/buffer, "@) + kbps + " kbps"@
            + remark,
    ensures
        vstd::utf8::is_ascii_chars(body),
        stats_in(body) == Some((sr, bs, kbps)),
{
    reveal_strlit(" Hz");
    reveal_strlit(" Hz, ");
    reveal_strlit(" samples/buffer");
    reveal_strlit(" samples/buffer, ");
    reveal_strlit(" kbps");
    let mark = sender_mark();
    let hz = sr + " Hz, "@;
    let buffer = bs + " samples/buffer, "@;
    lemma_sender_mark(" Hz"@);
    lemma_sender_mark(" samples/buffer"@);
    lemma_sender_mark(" kbps"@);
    lemma_quiet_number(sr, " Hz, "@, " samples/buffer"@);
    lemma_quiet_number(sr, " Hz, "@, " kbps"@);
    lemma_quiet_number(bs, " samples/buffer, "@, " kbps"@);
    lemma_quiet_concat(mark, hz, " samples/buffer"@);
    lemma_quiet_concat(mark, hz, " kbps"@);
    lemma_quiet_concat(mark + hz, buffer, " kbps"@);
    let after_hz = seq![',', ' '] + buffer + kbps + " kbps"@ + remark;
    assert(body =~= mark + sr + " Hz"@ + after_hz);
    lemma_first_number(body, " Hz"@, mark, sr, after_hz, 0);
    let after_buffer = seq![',', ' '] + kbps + " kbps"@ + remark;
    assert(body =~= (mark + hz) + bs + " samples/buffer"@ + after_buffer);
    lemma_first_number(body, " samples/buffer"@, mark + hz, bs, after_buffer, 0);
    lemma_first_number(body, " kbps"@, mark + hz + buffer, kbps, remark, 0);
}

/// The statistics that the tray application reads from a sender's line are those that the sender
/// printed, if it could put its rate as a number.
pub proof fn law_sender_line_is_read_back(
    sample_rate: u32,
    buffer_size: u32,
    rate: crate::status::BitRate,
)
    requires
        crate::text::is_number(rate_number(rate)),
    ensures
        ({
            let line = vstd::utf8::encode_utf8(
                crate::status::sender_line(sample_rate, buffer_size, rate),
            );
            stats_in(crate::text::trimmed(crate::text::utf8_lossy(line))) == Some(
                (
                    crate::text::decimal(sample_rate as nat),
                    crate::text::decimal(buffer_size as nat),
                    rate_number(rate),
                ),
            )
        }),
{
    let line = crate::status::sender_line(sample_rate, buffer_size, rate);
    vstd::utf8::encode_utf8_valid_utf8(line);
    vstd::utf8::encode_utf8_decode_utf8(line);
    let sr = crate::text::decimal(sample_rate as nat);
    let bs = crate::text::decimal(buffer_size as nat);
    crate::text::lemma_decimal_is_number(sample_rate as nat);
    crate::text::lemma_decimal_is_number(buffer_size as nat);
    lemma_rate_words(rate);
    let body = sender_mark() + (sr + " Hz, "@) + (bs + " samples/buffer, "@) + rate_number(rate)
        + " kbps"@ + rate_remark(rate);
    lemma_stats_in_parts(sr, bs, rate_number(rate), rate_remark(rate), body);
    reveal_strlit("\r");
    reveal_strlit(" Hz");
    reveal_strlit(" kbps");
    lemma_sender_mark(" Hz"@);
    assert(line =~= body.push('\r'));
    assert(body.last() == (" kbps"@ + rate_remark(rate)).last());
    crate::text::lemma_trimmed_line(body, '\r');
}

/// Only a read that failed and one without bytes end the reading.
pub proof fn law_reading_goes_on(n: usize)
    ensures
        is_last_read(None),
        is_last_read(Some(n)) <==> n == 0,
{
}

/// A sender's line is reported, whatever its length: the read of the whole line does not end the
/// reading, and it gives the sample rate, the buffer size and the rate that the sender printed, if
/// it could put its rate as a number; the rate of silence counts as one.
pub proof fn law_sender_line_is_reported(
    sample_rate: u32,
    buffer_size: u32,
    rate: crate::status::BitRate,
    n: usize,
)
    requires
        rate matches crate::status::BitRate::Kbps(kbps) ==> kbps@.len() > 0 && forall|i: int|
            0 <= i < kbps@.len() ==> '0' <= #[trigger] kbps@[i] <= '9',
        n == vstd::utf8::encode_utf8(
            crate::status::sender_line(sample_rate, buffer_size, rate),
        ).len(),
    ensures
        ({
            let line = vstd::utf8::encode_utf8(
                crate::status::sender_line(sample_rate, buffer_size, rate),
            );
            let number = match rate {
                crate::status::BitRate::Silent => "1"@,
                crate::status::BitRate::Kbps(kbps) => kbps@,
            };
            &&& !is_last_read(Some(n))
            &&& stats_in(crate::text::trimmed(crate::text::utf8_lossy(line))) == Some(
                (
                    crate::text::decimal(sample_rate as nat),
                    crate::text::decimal(buffer_size as nat),
                    number,
                ),
            )
            &&& stats_reported(seq![(Some(n), line)]) == seq![
                (
                    crate::text::decimal(sample_rate as nat),
                    crate::text::decimal(buffer_size as nat),
                    number,
                ),
            ]
        }),
{
    reveal_strlit("1");
    assert(crate::text::is_number(rate_number(rate)));
    law_sender_line_is_read_back(sample_rate, buffer_size, rate);
    let text = crate::status::sender_line(sample_rate, buffer_size, rate);
    let line = vstd::utf8::encode_utf8(text);
    vstd::utf8::encode_utf8_decode_utf8(text);
    reveal_strlit("\r");
    if line.len() == 0 {
        assert(line =~= Seq::<u8>::empty());
        vstd::utf8::encode_utf8_decode_utf8(Seq::<char>::empty());
        assert(vstd::utf8::encode_utf8(Seq::<char>::empty()) =~= Seq::<u8>::empty());
        assert(text.len() > 0);
    }
    reveal_with_fuel(stats_reported, 2);
    let reads = seq![(Some(n), line)];
    assert(reads.drop_first() =~= Seq::<(Option<usize>, Seq<u8>)>::empty());
    assert(stats_reported(reads.drop_first()) =~= seq![]);
    assert(stats_reported(reads) =~= seq![
        (
            crate::text::decimal(sample_rate as nat),
            crate::text::decimal(buffer_size as nat),
            rate_number(rate),
        ),
    ]);
}

/// The texts of arguments are theirs, one for each, in order.
pub proof fn law_texts(args: Seq<String>)
    ensures
        texts(args).len() == args.len(),
        forall|i: int| 0 <= i < args.len() ==> #[trigger] texts(args)[i] == args[i]@,
{
}

} // verus!
