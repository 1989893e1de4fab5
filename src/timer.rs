//! A named, hierarchical timer that reports its start, its laps and its end.
//!
//! Each timer reads the nesting depth from a shared counter when it starts and
//! raises it, so that timers started inside it print one level deeper; it
//! lowers the counter again when it finishes. A timer finishes once: the
//! first `finish`, or its drop, reports the total time; later calls do
//! nothing. Each lap reports the time since the previous lap (or the start).

use std::io::Write;
use std::sync::atomic::{AtomicUsize, Ordering};
use std::time::Instant;
use colored::Colorize;
use vstd::prelude::*;
use vstd::string::*;
use crate::span::{Span, duration_text, max_span_nanos};
use crate::text::{pad_left, pad_right, push_padded_left, push_padded_right, push_repeated, repeated, decimal};

verus! {

#[verifier::external_type_specification]
#[verifier::external_body]
pub struct ExInstant(Instant);

/// Relies on std::time::Instant::now: a reading of the monotonic clock.
pub assume_specification[ Instant::now ]() -> Instant;

/// Relies on std::time::Instant::elapsed, with Duration::as_secs and
/// Duration::subsec_nanos: the time since `t`, whose fraction of a second is
/// under a billion nanoseconds.
#[verifier::external_body]
fn elapsed_since(t: &Instant) -> (r: Span)
    ensures
        r.wf(),
{
    let d = t.elapsed();
    Span { secs: d.as_secs(), nanos: d.subsec_nanos() }
}

/// Relies on std::io::stdout and `writeln!`: writes `line` and a newline to
/// standard output. A failed write is ignored.
#[verifier::external_body]
fn emit(line: &str) {
    let _ = writeln!(std::io::stdout(), "{}", line);
}

/// A color of the status word or the elapsed time in a report line.
#[derive(Debug, Clone, Copy, PartialEq, Eq, Structural)]
pub enum Tone {
    Green,
    Cyan,
    Yellow,
    Magenta,
    Red,
}

/// The escape sequence that ends a style on a terminal.
pub open spec fn reset_sequence() -> Seq<char> {
    seq!['\u{1b}', '[', '0', 'm']
}

/// `s` holds no escape character.
pub open spec fn no_escape(s: Seq<char>) -> bool {
    forall|i: int| 0 <= i < s.len() ==> #[trigger] s[i] != '\u{1b}'
}

/// The digit of a foreground color in a terminal style sequence.
pub open spec fn tone_digit(tone: Tone) -> char {
    match tone {
        Tone::Red => '1',
        Tone::Green => '2',
        Tone::Yellow => '3',
        Tone::Magenta => '5',
        Tone::Cyan => '6',
    }
}

/// The style sequence for bold text in the color `tone`: `ESC[1;3Nm`.
pub open spec fn tone_style(tone: Tone) -> Seq<char> {
    seq!['\u{1b}', '[', '1', ';', '3', tone_digit(tone), 'm']
}

/// The style sequence for bold text: `ESC[1m`.
pub open spec fn bold_style() -> Seq<char> {
    seq!['\u{1b}', '[', '1', 'm']
}

/// `r` is `text` as shown on a terminal in the style `style`: the text
/// alone where styles are off; else the style, the text and the reset
/// sequence; or the text and the reset sequence alone, where styles were
/// turned off while the text was being written.
pub open spec fn painted(r: Seq<char>, text: Seq<char>, style: Seq<char>) -> bool {
    r == text || r == style + text + reset_sequence() || r == text + reset_sequence()
}

/// Relies on colored's Colorize::color, Colorize::bold and the Display of
/// ColoredString: the text in bold and in the color `tone`. colored decides
/// whether styles are on when it writes the text, and again when it writes
/// the style sequence.
#[verifier::external_body]
fn paint(text: &str, tone: Tone) -> (r: String)
    ensures
        no_escape(text@) ==> painted(r@, text@, tone_style(tone)),
{
    let color = match tone {
        Tone::Green => colored::Color::Green,
        Tone::Cyan => colored::Color::Cyan,
        Tone::Yellow => colored::Color::Yellow,
        Tone::Magenta => colored::Color::Magenta,
        Tone::Red => colored::Color::Red,
    };
    text.color(color).bold().to_string()
}

/// Relies on colored's Colorize::bold and the Display of ColoredString: the
/// text in bold. colored decides whether styles are on when it writes the
/// text, and again when it writes the style sequence.
#[verifier::external_body]
fn embolden(text: &str) -> (r: String)
    ensures
        no_escape(text@) ==> painted(r@, text@, bold_style()),
{
    text.bold().to_string()
}


/// What a report line announces.
#[derive(Debug, Clone, Copy, PartialEq, Eq, Structural)]
pub enum TimerState {
    Start,
    Lap,
    Finish,
}

/// One report line of a timer, as a model: what it announces, its message
/// (the name, the extra information and the caller's arguments), the
/// nanoseconds it reports (none for a start), and the line as printed.
pub struct Record {
    pub state: TimerState,
    pub message: Seq<char>,
    pub nanos: nat,
    pub line: Seq<char>,
}

/// What a timer is, as a model.
pub struct TimerView {
    /// Where the timer was made: module, file and line.
    pub module: Seq<char>,
    pub file: Seq<char>,
    pub line: nat,
    pub name: Seq<char>,
    pub extra_info: Option<Seq<char>>,
    /// The nesting depth read when the timer started.
    pub indent: nat,
    pub finished: bool,
    /// Nanoseconds from the start to the last lap (zero before any lap).
    pub last_lap: nat,
    /// The lines reported so far, in order.
    pub log: Seq<Record>,
}

/// The sum of the nanoseconds that the laps of `log` report.
pub open spec fn lap_sum(log: Seq<Record>) -> nat
    decreases log.len(),
{
    if log.len() == 0 {
        0
    } else {
        lap_sum(log.drop_last()) + if log.last().state == TimerState::Lap {
            log.last().nanos
        } else {
            0
        }
    }
}

/// The number of finish lines in `log`.
pub open spec fn finish_count(log: Seq<Record>) -> nat
    decreases log.len(),
{
    if log.len() == 0 {
        0
    } else {
        finish_count(log.drop_last()) + if log.last().state == TimerState::Finish {
            1nat
        } else {
            0
        }
    }
}

/// A timer's model is consistent: its first line is its start, its laps add
/// up to the time of its last lap, and it has reported one finish line if it
/// has finished, else none.
pub open spec fn timer_wf(v: TimerView) -> bool {
    &&& v.log.len() >= 1
    &&& v.log[0].state == TimerState::Start
    &&& lap_sum(v.log) == v.last_lap
    &&& v.last_lap <= max_span_nanos()
    &&& finish_count(v.log) == if v.finished { 1nat } else { 0 }
}

/// The text of an optional string.
pub open spec fn string_view(o: Option<String>) -> Option<Seq<char>> {
    match o {
        Some(s) => Some(s@),
        None => None,
    }
}

/// The text of an optional string slice.
pub open spec fn opt_view(o: Option<&str>) -> Option<Seq<char>> {
    match o {
        Some(s) => Some(s@),
        None => None,
    }
}

/// The message of a report line: the name, then the extra information and
/// the caller's arguments where given, separated by a comma and a space.
pub open spec fn message_text(
    name: Seq<char>,
    extra_info: Option<Seq<char>>,
    args: Option<Seq<char>>,
) -> Seq<char> {
    let sep = seq![',', ' '];
    match (extra_info, args) {
        (Some(info), Some(a)) => name + sep + info + sep + a,
        (Some(info), None) => name + sep + info,
        (None, Some(a)) => name + sep + a,
        (None, None) => name,
    }
}

/// The model after a lap reporting `message`: one lap line more, printed as
/// `report_line` gives it, the time of the last lap advanced by what it
/// reports, and nothing else changed.
pub open spec fn lap_step(a: TimerView, b: TimerView, message: Seq<char>) -> bool {
    &&& b.log.len() == a.log.len() + 1
    &&& b.log.take(a.log.len() as int) == a.log
    &&& b.log.last().state == TimerState::Lap
    &&& b.log.last().message == message
    &&& report_line(b.log.last().line, TimerState::Lap, a.indent, message, a.file, a.line, b.log.last().nanos)
    &&& b.last_lap == a.last_lap + b.log.last().nanos
    &&& b == TimerView { log: b.log, last_lap: b.last_lap, ..a }
}

/// The model after a finish reporting `message`: nothing changes on a
/// finished timer; else it is finished, with one finish line more, printed
/// as `report_line` gives it, that reports no less than the time of its last
/// lap.
pub open spec fn finish_step(a: TimerView, b: TimerView, message: Seq<char>) -> bool {
    if a.finished {
        b == a
    } else {
        &&& b.log.len() == a.log.len() + 1
        &&& b.log.take(a.log.len() as int) == a.log
        &&& b.log.last().state == TimerState::Finish
        &&& b.log.last().message == message
        &&& report_line(b.log.last().line, TimerState::Finish, a.indent, message, a.file, a.line, b.log.last().nanos)
        &&& b.log.last().nanos >= a.last_lap
        &&& b == TimerView { log: b.log, finished: true, ..a }
    }
}

/// The nanoseconds that a lap at the clock reading `now` reports, after a
/// last lap at `last`: none where the reading lies before it.
pub open spec fn lap_delta(last: nat, now: nat) -> nat {
    if now >= last { (now - last) as nat } else { 0 }
}

/// The color of a status word at nesting depth `depth`.
pub open spec fn depth_tone(depth: nat) -> Tone {
    let k = depth % 5;
    if k == 0 {
        Tone::Green
    } else if k == 1 {
        Tone::Cyan
    } else if k == 2 {
        Tone::Yellow
    } else if k == 3 {
        Tone::Magenta
    } else {
        Tone::Red
    }
}

/// The color of an elapsed time of `secs` seconds and `sub` nanoseconds, by
/// the largest unit it reaches: magenta for seconds, yellow for milliseconds,
/// cyan for microseconds, green for nanoseconds.
pub open spec fn unit_tone_of(secs: nat, sub: nat) -> Tone {
    if secs != 0 {
        Tone::Magenta
    } else if sub / 1_000_000 > 0 {
        Tone::Yellow
    } else if (sub / 1000) % 1000 > 0 {
        Tone::Cyan
    } else {
        Tone::Green
    }
}

/// The status word of a report line.
pub open spec fn status_word(status: TimerState) -> Seq<char> {
    match status {
        TimerState::Start => seq!['S', 't', 'a', 'r', 't'],
        TimerState::Lap => seq!['L', 'a', 'p'],
        TimerState::Finish => seq!['F', 'i', 'n', 'i', 's', 'h'],
    }
}

/// A report line: a space and `4 * depth` spaces of indentation, the status
/// as shown and the message in parentheses, padded with spaces to `width`,
/// then a space and the right-hand column.
pub open spec fn layout(depth: nat, head: Seq<char>, message: Seq<char>, width: nat, tail: Seq<char>) -> Seq<char> {
    seq![' '] + repeated(' ', 4 * depth) + pad_right(head + seq![' ', '('] + message + seq![')'], width, ' ')
        + seq![' '] + tail
}

/// The location column of a start line: ` [file Lline]`.
pub open spec fn location_text(file: Seq<char>, line: nat) -> Seq<char> {
    seq![' ', '['] + file + seq![' ', 'L'] + decimal(line) + seq![']']
}

/// `r` is the line that reports `status` of a timer at nesting depth `depth`
/// with `message`, for a start located at `file` and `line`, or reporting
/// `nanos` nanoseconds for a lap or a finish. The status word is bold, in
/// the color of the line's depth (one deeper for a lap); the location of a
/// start is bold; the time of a lap is bold, in the color of its largest unit.
pub open spec fn report_line(
    r: Seq<char>,
    status: TimerState,
    depth: nat,
    message: Seq<char>,
    file: Seq<char>,
    line: nat,
    nanos: nat,
) -> bool {
    let secs = nanos / 1_000_000_000;
    let sub = nanos % 1_000_000_000;
    match status {
        TimerState::Start => exists|head: Seq<char>, tail: Seq<char>|
            {
                &&& painted(head, status_word(status), tone_style(depth_tone(depth)))
                &&& (no_escape(file) ==> painted(
                    tail,
                    pad_left(location_text(file, line), 55, '.'),
                    bold_style(),
                ))
                &&& r == #[trigger] layout(depth, head, message, 30, tail)
            },
        TimerState::Lap => exists|head: Seq<char>, tail: Seq<char>|
            {
                &&& painted(head, status_word(status), tone_style(depth_tone(depth + 1)))
                &&& painted(
                    tail,
                    pad_left(duration_text(secs, sub), 55, '.'),
                    tone_style(unit_tone_of(secs, sub)),
                )
                &&& r == #[trigger] layout(depth + 1, head, message, 30, tail)
            },
        TimerState::Finish => exists|head: Seq<char>|
            {
                &&& painted(head, status_word(status), tone_style(depth_tone(depth)))
                &&& r == #[trigger] layout(depth, head, message, 50, pad_left(duration_text(secs, sub), 25, '.'))
            },
    }
}

/// A named timer. It reports a start line when made, a lap line on each lap,
/// and one finish line, on the first `finish` or when dropped.
pub struct Timer<'name> {
    start_time: Instant,
    /// The module where the timer was made.
    module: &'static str,
    file: &'static str,
    line: u32,
    name: &'name str,
    indent: usize,
    extra_info: Option<String>,
    /// The shared nesting depth of the timers that have started and not finished.
    depth: &'name AtomicUsize,
    progress: Progress,
}

/// What changes in a timer after it starts.
struct Progress {
    /// Nanoseconds from the start to the last lap.
    last_lap: u128,
    finished: bool,
    log: Ghost<Seq<Record>>,
}

impl<'name> View for Timer<'name> {
    type V = TimerView;

    closed spec fn view(&self) -> TimerView {
        TimerView {
            module: self.module@,
            file: self.file@,
            line: self.line as nat,
            name: self.name@,
            extra_info: string_view(self.extra_info),
            indent: self.indent as nat,
            finished: self.progress.finished,
            last_lap: self.progress.last_lap as nat,
            log: self.progress.log@,
        }
    }
}


/// The decimal rendering of a number holds no escape character.
proof fn lemma_decimal_plain(n: nat)
    ensures
        no_escape(decimal(n)),
    decreases n,
{
    if n >= 10 {
        lemma_decimal_plain(n / 10);
    }
    assert(no_escape(decimal(n)));
}

/// Padding with a plain character keeps a text free of escape characters.
proof fn lemma_pad_left_plain(s: Seq<char>, width: nat, fill: char)
    requires
        no_escape(s),
        fill != '\u{1b}',
    ensures
        no_escape(pad_left(s, width, fill)),
{
}

proof fn lemma_duration_plain(secs: nat, sub: nat)
    ensures
        no_escape(duration_text(secs, sub)),
{
    lemma_decimal_plain(secs);
    lemma_decimal_plain(sub);
    lemma_decimal_plain(sub / 1_000_000);
    lemma_decimal_plain((sub / 1000) % 1000);
    lemma_decimal_plain(sub % 1000);
    lemma_pad_left_plain(decimal(sub / 1_000_000), 3, '0');
    lemma_pad_left_plain(decimal((sub / 1000) % 1000), 3, '0');
    lemma_pad_left_plain(decimal(sub % 1000), 3, '0');
}

/// The status word of a report line.
fn status_text(status: TimerState) -> (r: &'static str)
    ensures
        r@ == status_word(status),
        no_escape(r@),
{
    proof {
        reveal_strlit("Start");
        reveal_strlit("Lap");
        reveal_strlit("Finish");
    }
    match status {
        TimerState::Start => "Start",
        TimerState::Lap => "Lap",
        TimerState::Finish => "Finish",
    }
}

/// The color of a status word at a nesting depth that leaves `k` modulo five.
fn tone_of(k: usize) -> (r: Tone)
    requires
        k < 5,
    ensures
        r == depth_tone(k as nat),
{
    if k == 0 {
        Tone::Green
    } else if k == 1 {
        Tone::Cyan
    } else if k == 2 {
        Tone::Yellow
    } else if k == 3 {
        Tone::Magenta
    } else {
        Tone::Red
    }
}

/// The color of an elapsed time: by the largest unit it reaches.
fn unit_tone(elapsed: &Span) -> (r: Tone)
    ensures
        r == unit_tone_of(elapsed.secs as nat, elapsed.nanos as nat),
{
    if elapsed.secs != 0 {
        Tone::Magenta
    } else if elapsed.nanos / 1_000_000 > 0 {
        Tone::Yellow
    } else if elapsed.nanos / 1000 % 1000 > 0 {
        Tone::Cyan
    } else {
        Tone::Green
    }
}

/// Appends `4 * depth` spaces to `out`.
fn push_indent(out: &mut String, depth: usize)
    ensures
        final(out)@ == old(out)@ + repeated(' ', 4 * depth as nat),
{
    let mut j: usize = 0;
    while j < depth
        invariant
            j <= depth,
            out@ == old(out)@ + repeated(' ', 4 * j as nat),
        decreases depth - j,
    {
        proof {
            reveal_strlit(" ");
        }
        push_repeated(out, " ", 4);
        assert(repeated(' ', 4 * j as nat) + repeated(' ', 4) =~= repeated(' ', 4 * (j + 1) as nat));
        j = j + 1;
    }
}

/// A log of one start line adds up to no laps and no finish.
proof fn lemma_start_log_wf(log: Seq<Record>)
    requires
        log.len() == 1,
        log[0].state == TimerState::Start,
    ensures
        lap_sum(log) == 0,
        finish_count(log) == 0,
{
    assert(log.drop_last() =~= Seq::<Record>::empty());
    assert(lap_sum(Seq::<Record>::empty()) == 0);
    assert(finish_count(Seq::<Record>::empty()) == 0);
}

impl<'name> Timer<'name> {
    #[verifier::type_invariant]
    spec fn inv(&self) -> bool {
        timer_wf(self@)
    }

    /// The message of a report line with the caller's arguments `args`.
    fn message(&self, args: Option<&str>) -> (r: String)
        ensures
            r@ == message_text(self@.name, self@.extra_info, opt_view(args)),
    {
        proof {
            reveal_strlit(", ");
        }
        let mut out = String::from_str(self.name);
        match &self.extra_info {
            Some(info) => {
                out.append(", ");
                out.append(info.as_str());
            },
            None => {},
        }
        match args {
            Some(a) => {
                out.append(", ");
                out.append(a);
            },
            None => {},
        }
        assert(out@ =~= message_text(self@.name, self@.extra_info, opt_view(args)));
        out
    }

    /// The human-readable rendering of `elapsed`: seconds with a millisecond
    /// fraction from one second up, else milliseconds with a microsecond
    /// fraction from one millisecond up, else microseconds with a nanosecond
    /// fraction from one microsecond up, else nanoseconds.
    pub fn elapsed(&self, elapsed: Span) -> (r: String)
        requires
            elapsed.wf(),
        ensures
            r@ == duration_text(elapsed.secs as nat, elapsed.nanos as nat),
    {
        elapsed.text()
    }

    /// The rendering of `elapsed` in bold and in a color for the largest
    /// unit it reaches: magenta for seconds, yellow for milliseconds, cyan
    /// for microseconds, green for nanoseconds.
    pub fn elapsed_colored(&self, elapsed: Span) -> (r: String)
        requires
            elapsed.wf(),
        ensures
            painted(
                r@,
                duration_text(elapsed.secs as nat, elapsed.nanos as nat),
                tone_style(unit_tone_of(elapsed.secs as nat, elapsed.nanos as nat)),
            ),
    {
        let text = elapsed.text();
        proof {
            lemma_duration_plain(elapsed.secs as nat, elapsed.nanos as nat);
        }
        paint(text.as_str(), unit_tone(&elapsed))
    }

    /// The line that reports `status` with the caller's arguments `args`;
    /// a lap or a finish reports `elapsed`.
    pub fn format(&self, status: TimerState, args: Option<&str>, elapsed: Span) -> (r: String)
        requires
            elapsed.wf(),
        ensures
            report_line(
                r@,
                status,
                self@.indent,
                message_text(self@.name, self@.extra_info, opt_view(args)),
                self@.file,
                self@.line,
                elapsed.total() as nat,
            ),
    {
        proof {
            reveal_strlit(" ");
            reveal_strlit(".");
            reveal_strlit(" (");
            reveal_strlit(")");
            reveal_strlit(" [");
            reveal_strlit(" L");
            reveal_strlit("]");
        }
        let message = self.message(args);
        let mut out = String::from_str(" ");
        push_indent(&mut out, self.indent);
        let k = self.indent % 5;
        let (tone, width) = match status {
            TimerState::Lap => {
                push_repeated(&mut out, " ", 4);
                proof {
                    assert(depth_tone((self.indent + 1) as nat) == depth_tone(((k + 1) % 5) as nat));
                }
                (tone_of((k + 1) % 5), 30)
            },
            TimerState::Start => (tone_of(k), 30),
            TimerState::Finish => (tone_of(k), 50),
        };
        let head = paint(status_text(status), tone);
        let mut body = String::from_str(head.as_str());
        body.append(" (");
        body.append(message.as_str());
        body.append(")");
        push_padded_right(&mut out, body.as_str(), width, " ");
        out.append(" ");
        let ghost nanos = elapsed.total() as nat;
        let text = elapsed.text();
        proof {
            lemma_duration_plain(elapsed.secs as nat, elapsed.nanos as nat);
            assert(nanos / 1_000_000_000 == elapsed.secs && nanos % 1_000_000_000 == elapsed.nanos)
                by (nonlinear_arith)
                requires
                    nanos == elapsed.secs * 1_000_000_000 + elapsed.nanos,
                    elapsed.nanos < 1_000_000_000,
            ;
        }
        match status {
            TimerState::Start => {
                let mut location = String::from_str(" [");
                location.append(self.file);
                location.append(" L");
                crate::text::push_decimal(&mut location, self.line as u64);
                location.append("]");
                let mut padded = String::new();
                push_padded_left(&mut padded, location.as_str(), 55, ".");
                let tail = embolden(padded.as_str());
                out.append(tail.as_str());
                proof {
                    let loc = location_text(self@.file, self@.line);
                    assert(location@ =~= loc);
                    assert(padded@ =~= pad_left(loc, 55, '.'));
                    if no_escape(self@.file) {
                        lemma_decimal_plain(self@.line);
                        assert(no_escape(loc));
                        lemma_pad_left_plain(loc, 55, '.');
                    }
                    assert(out@ =~= layout(self@.indent, head@, message@, 30, tail@));
                }
            },
            TimerState::Lap => {
                let mut padded = String::new();
                push_padded_left(&mut padded, text.as_str(), 55, ".");
                proof {
                    lemma_pad_left_plain(text@, 55, '.');
                }
                let tail = paint(padded.as_str(), unit_tone(&elapsed));
                out.append(tail.as_str());
                proof {
                    assert(padded@ =~= pad_left(text@, 55, '.'));
                    assert(repeated(' ', 4 * self@.indent) + repeated(' ', 4) =~= repeated(' ', 4 * (self@.indent + 1)));
                    assert(out@ =~= layout(self@.indent + 1, head@, message@, 30, tail@));
                }
            },
            TimerState::Finish => {
                push_padded_left(&mut out, text.as_str(), 25, ".");
                proof {
                    assert(out@ =~= layout(self@.indent, head@, message@, 50, pad_left(text@, 25, '.')));
                }
            },
        }
        out
    }

    /// Starts a timer named `name`, made at `line` of `file` in `module`,
    /// with optional extra information, at the nesting depth `indent`, and
    /// reports its start line. The timer lowers `depth` when it finishes.
    pub fn start_at(
        file: &'static str,
        module: &'static str,
        line: u32,
        name: &'name str,
        extra_info: Option<String>,
        indent: usize,
        depth: &'name AtomicUsize,
    ) -> (r: Option<Self>)
        ensures
            r is Some,
            r->0@.indent == indent,
            r->0@.module == module@,
            r->0@.file == file@,
            r->0@.line == line,
            r->0@.name == name@,
            r->0@.extra_info == string_view(extra_info),
            !r->0@.finished,
            r->0@.last_lap == 0,
            timer_wf(r->0@),
            r->0@.log.len() == 1,
            r->0@.log[0].state == TimerState::Start,
            r->0@.log[0].message == message_text(name@, string_view(extra_info), None),
            r->0@.log[0].nanos == 0,
            report_line(
                r->0@.log[0].line,
                TimerState::Start,
                r->0@.indent,
                message_text(name@, string_view(extra_info), None),
                file@,
                line as nat,
                0,
            ),
    {
        let start_time = Instant::now();
        let ghost message = message_text(name@, string_view(extra_info), None);
        let ghost log = seq![
            Record { state: TimerState::Start, message, nanos: 0, line: Seq::empty() },
        ];
        proof {
            lemma_start_log_wf(log);
        }
        let mut timer = Timer {
            start_time,
            module,
            file,
            line,
            name,
            indent,
            extra_info,
            depth,
            progress: Progress { last_lap: 0, finished: false, log: Ghost(log) },
        };
        let text = timer.format(TimerState::Start, None, Span { secs: 0, nanos: 0 });
        let ghost log = seq![Record { state: TimerState::Start, message, nanos: 0, line: text@ }];
        proof {
            lemma_start_log_wf(log);
        }
        timer.progress = Progress { last_lap: 0, finished: false, log: Ghost(log) };
        emit(text.as_str());
        proof {
            use_type_invariant(&timer);
        }
        Some(timer)
    }

    /// Starts a timer named `name`, made at `line` of `file` in `module`,
    /// with optional extra information. Its nesting depth is the value it
    /// reads from `depth`; it reports its start line at that depth and then
    /// raises `depth` by one.
    pub fn new(
        file: &'static str,
        module: &'static str,
        line: u32,
        name: &'name str,
        extra_info: Option<String>,
        depth: &'name AtomicUsize,
    ) -> (r: Option<Self>)
        ensures
            r is Some,
            r->0@.module == module@,
            r->0@.file == file@,
            r->0@.line == line,
            r->0@.name == name@,
            r->0@.extra_info == string_view(extra_info),
            !r->0@.finished,
            r->0@.last_lap == 0,
            timer_wf(r->0@),
            r->0@.log.len() == 1,
            r->0@.log[0].state == TimerState::Start,
            r->0@.log[0].message == message_text(name@, string_view(extra_info), None),
            r->0@.log[0].nanos == 0,
            report_line(
                r->0@.log[0].line,
                TimerState::Start,
                r->0@.indent,
                message_text(name@, string_view(extra_info), None),
                file@,
                line as nat,
                0,
            ),
    {
        let indent = depth.load(Ordering::Relaxed);
        let r = Self::start_at(file, module, line, name, extra_info, indent, depth);
        let _ = depth.fetch_add(1, Ordering::Relaxed);
        r
    }

    /// Does nothing: the operation of a timer that reports nothing.
    pub fn noop(&self) {
    }

    /// Reports a lap at the clock reading `now` (the time since the start),
    /// with the caller's arguments `args`, and returns its line. The lap
    /// reports the time since the last lap, none where `now` lies before it.
    pub fn lap_at(&mut self, now: Span, args: Option<&str>) -> (r: String)
        requires
            now.wf(),
        ensures
            lap_step(
                old(self)@,
                final(self)@,
                message_text(old(self)@.name, old(self)@.extra_info, opt_view(args)),
            ),
            timer_wf(final(self)@),
            final(self)@.log.last().nanos == lap_delta(old(self)@.last_lap, now.total() as nat),
            report_line(
                r@,
                TimerState::Lap,
                old(self)@.indent,
                message_text(old(self)@.name, old(self)@.extra_info, opt_view(args)),
                old(self)@.file,
                old(self)@.line,
                final(self)@.log.last().nanos,
            ),
    {
        proof {
            use_type_invariant(&*self);
        }
        let now_n = now.as_nanos();
        let last = self.progress.last_lap;
        let (delta, reached) = if now_n >= last {
            (now_n - last, now_n)
        } else {
            (0, last)
        };
        let text = self.format(TimerState::Lap, args, Span::from_total(delta));
        emit(text.as_str());
        let ghost log = self.progress.log@;
        let ghost record = Record {
            state: TimerState::Lap,
            message: message_text(self@.name, self@.extra_info, opt_view(args)),
            nanos: delta as nat,
            line: text@,
        };
        proof {
            assert(log.push(record).drop_last() =~= log);
            assert(log.push(record).take(log.len() as int) =~= log);
        }
        self.progress = Progress {
            last_lap: reached,
            finished: self.progress.finished,
            log: Ghost(log.push(record)),
        };
        proof {
            use_type_invariant(&*self);
        }
        text
    }

    /// Reports a lap with the caller's arguments `args`: the time since the
    /// last lap, or since the start before any lap.
    pub fn lap(&mut self, args: Option<&str>)
        ensures
            lap_step(
                old(self)@,
                final(self)@,
                message_text(old(self)@.name, old(self)@.extra_info, opt_view(args)),
            ),
            timer_wf(final(self)@),
    {
        let now = elapsed_since(&self.start_time);
        let _ = self.lap_at(now, args);
        proof {
            use_type_invariant(&*self);
        }
    }

    /// Finishes the timer at the clock reading `now` (the time since the
    /// start), with the caller's arguments `args`, and returns the line it
    /// reports; does nothing on a finished timer. The total reported is `now`,
    /// or the time of the last lap where `now` lies before it.
    pub fn finish_at(&mut self, now: Span, args: Option<&str>) -> (r: Option<String>)
        requires
            now.wf(),
        ensures
            finish_step(
                old(self)@,
                final(self)@,
                message_text(old(self)@.name, old(self)@.extra_info, opt_view(args)),
            ),
            timer_wf(final(self)@),
            old(self)@.finished ==> r is None,
            !old(self)@.finished ==> {
                &&& r is Some
                &&& final(self)@.log.last().nanos == if now.total() >= old(self)@.last_lap {
                    now.total() as nat
                } else {
                    old(self)@.last_lap
                }
                &&& report_line(
                    r->0@,
                    TimerState::Finish,
                    old(self)@.indent,
                    message_text(old(self)@.name, old(self)@.extra_info, opt_view(args)),
                    old(self)@.file,
                    old(self)@.line,
                    final(self)@.log.last().nanos,
                )
            },
    {
        proof {
            use_type_invariant(&*self);
        }
        if self.progress.finished {
            return None;
        }
        let _ = self.depth.fetch_sub(1, Ordering::Relaxed);
        let now_n = now.as_nanos();
        let last = self.progress.last_lap;
        let total = if now_n >= last {
            now_n
        } else {
            last
        };
        let text = self.format(TimerState::Finish, args, Span::from_total(total));
        let ghost log = self.progress.log@;
        let ghost record = Record {
            state: TimerState::Finish,
            message: message_text(self@.name, self@.extra_info, opt_view(args)),
            nanos: total as nat,
            line: text@,
        };
        proof {
            assert(log.push(record).drop_last() =~= log);
            assert(log.push(record).take(log.len() as int) =~= log);
        }
        self.progress = Progress { last_lap: last, finished: true, log: Ghost(log.push(record)) };
        emit(text.as_str());
        proof {
            use_type_invariant(&*self);
        }
        Some(text)
    }

    /// Finishes the timer with the caller's arguments `args`: reports the
    /// total time since the start and lowers the nesting depth, the first
    /// time only; later calls do nothing.
    pub fn finish(&mut self, args: Option<&str>)
        ensures
            finish_step(
                old(self)@,
                final(self)@,
                message_text(old(self)@.name, old(self)@.extra_info, opt_view(args)),
            ),
            timer_wf(final(self)@),
    {
        let now = elapsed_since(&self.start_time);
        let _ = self.finish_at(now, args);
        proof {
            use_type_invariant(&*self);
        }
    }
}

impl<'name> Drop for Timer<'name> {
    /// Finishes the timer if `finish` has not been called. Verus asks a drop
    /// to be proved free of unwinding, which the allocation of the report line
    /// is not; the body is one call of the verified `finish`.
    #[verifier::external_body]
    fn drop(&mut self)
        ensures
            finish_step(old(self)@, final(self)@, message_text(old(self)@.name, old(self)@.extra_info, None)),
        opens_invariants none
        no_unwind
    {
        self.finish(None);
    }
}

/// Finishing any number of times, at least once, is finishing once: every
/// finish after the first changes nothing, and the timer has reported exactly
/// one finish line. `views[i + 1]` is the model after the finish with the
/// message `messages[i]`.
pub proof fn lemma_finish_many(views: Seq<TimerView>, messages: Seq<Seq<char>>)
    requires
        views.len() >= 2,
        messages.len() == views.len() - 1,
        timer_wf(views[0]),
        forall|i: int| 0 <= i < views.len() - 1 ==> finish_step(views[i], views[i + 1], #[trigger] messages[i]),
    ensures
        views.last() == views[1],
        views.last().finished,
        finish_count(views.last().log) == 1,
    decreases views.len(),
{
    assert(finish_step(views[0], views[1], messages[0]));
    if views.len() == 2 {
        if !views[0].finished {
            assert(views[1].log.drop_last() =~= views[0].log);
        }
    } else {
        let shorter = views.drop_last();
        let fewer = messages.drop_last();
        assert forall|i: int| 0 <= i < shorter.len() - 1 implies finish_step(shorter[i], shorter[i + 1], #[trigger] fewer[i]) by {
            assert(finish_step(views[i], views[i + 1], messages[i]));
        }
        lemma_finish_many(shorter, fewer);
        let k = views.len() - 2;
        assert(finish_step(views[k], views[k + 1], messages[k]));
    }
}

/// A lap keeps a timer's model consistent: the laps still add up to the time
/// of the last lap.
pub proof fn lemma_lap_consistent(a: TimerView, b: TimerView, message: Seq<char>)
    requires
        timer_wf(a),
        lap_step(a, b, message),
        b.last_lap <= max_span_nanos(),
    ensures
        timer_wf(b),
        lap_sum(b.log) == lap_sum(a.log) + b.log.last().nanos,
{
    assert(b.log.drop_last() =~= a.log);
}

/// At the finish, the laps' times and the rest after the last lap add up to
/// the total reported, so the laps never report more than the total.
pub proof fn lemma_laps_within_total(a: TimerView, b: TimerView, message: Seq<char>)
    requires
        timer_wf(a),
        !a.finished,
        finish_step(a, b, message),
    ensures
        lap_sum(b.log) <= b.log.last().nanos,
        lap_sum(b.log) + (b.log.last().nanos - b.last_lap) == b.log.last().nanos,
{
    assert(b.log.drop_last() =~= a.log);
}

} // verus!
