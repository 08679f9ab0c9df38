//! External module commands and the lines they print.
//!
//! One worker per module. A module either runs on a timer and reports the last
//! line it printed, or stays running and reports every line as it appears. What
//! a worker does next is decided here; running commands, reading their output and
//! sleeping is up to the caller.

use vstd::prelude::*;
use vstd::string::*;

use crate::bar::ModuleValue;
use crate::config::{parsed_color, Module, Rgba};
use crate::text::{blank, is_blank};
use crate::time::Instant;

verus! {

/// How long a module waits before starting a crashed stream again, in seconds.
///
/// A command that fails instantly would otherwise be restarted in a tight loop.
pub const RESTART_DELAY: u64 = 1;

/// How often a sleeping worker checks whether it should stop instead, in
/// nanoseconds.
pub const STOP_POLL: u128 = 50_000_000;

/// The string that a line, read as a JSON object, has at a key: nothing where the
/// line is not a JSON object, has no such key, or has no string there.
pub uninterp spec fn json_string(line: Seq<char>, key: Seq<char>) -> Option<Seq<char>>;

/// `serde_json::from_str`, `Value::get` and `Value::as_str`: the string that the
/// line's JSON object has at `key`. What they make of a line depends on the line
/// and the key alone, and is given a name here.
#[verifier::external_body]
fn string_at(line: &str, key: &str) -> (found: Option<String>)
    ensures
        view_of(found) == json_string(line@, key@),
{
    let value: serde_json::Value = serde_json::from_str(line).ok()?;
    value.get(key)?.as_str().map(|text| text.to_owned())
}

/// The characters of a text that may be missing.
pub open spec fn view_of(text: Option<String>) -> Option<Seq<char>> {
    match text {
        Some(text) => Some(text@),
        None => None,
    }
}

/// What a line reports, given the `text` and the `color` it has as JSON.
pub open spec fn line_report(
    line: Seq<char>,
    text: Option<Seq<char>>,
    color: Option<Seq<char>>,
) -> Option<(Seq<char>, Option<Rgba>)> {
    if blank(line) {
        None
    } else if text is Some {
        Some(
            (
                text->0,
                if color is Some {
                    parsed_color(color->0)
                } else {
                    None
                },
            ),
        )
    } else {
        Some((line, None))
    }
}

/// What one line of module output reports.
pub open spec fn report_of(line: Seq<char>) -> Option<(Seq<char>, Option<Rgba>)> {
    line_report(line, json_string(line, "text"@), json_string(line, "color"@))
}

/// The model of a value that a line may report.
pub open spec fn reported_value(value: Option<ModuleValue>) -> Option<(Seq<char>, Option<Rgba>)> {
    match value {
        Some(value) => Some((value.text@, value.color)),
        None => None,
    }
}

/// What a line reports, given the `text` and the `color` it has as JSON.
///
/// A line with a `text` uses it, plus `color` when that is a valid colour: an
/// unusable colour falls back to the default rather than throwing the whole line
/// away. Anything else is taken as the text itself. Blank lines report nothing.
pub fn line_value(line: &str, text: Option<String>, color: Option<String>) -> (value: Option<
    ModuleValue,
>)
    ensures
        reported_value(value) == line_report(line@, view_of(text), view_of(color)),
{
    if is_blank(line) {
        return None;
    }
    match text {
        Some(text) => {
            let color = match color {
                Some(color) => match Rgba::parse(color.as_str()) {
                    Ok(color) => Some(color),
                    Err(_) => None,
                },
                None => None,
            };
            Some(ModuleValue { text, color })
        },
        None => Some(ModuleValue { text: line.to_owned(), color: None }),
    }
}

/// Parse one line of module output.
///
/// A line that is a JSON object with a `text` field uses it, plus `color` when
/// that is a valid colour. Anything else is taken as the text itself, which is
/// what makes a config like `date '+%H:%M'` work without any wrapping. Blank
/// lines report nothing, so a module keeps whatever it was showing.
pub fn parse_line(line: &str) -> (value: Option<ModuleValue>)
    ensures
        reported_value(value) == report_of(line@),
{
    let text = string_at(line, "text");
    let color = string_at(line, "color");
    line_value(line, text, color)
}

/// The last line that is not blank, if there is one.
pub open spec fn last_report(lines: Seq<String>) -> Option<Seq<char>>
    decreases lines.len(),
{
    if lines.len() == 0 {
        None
    } else if !blank(lines.last()@) {
        Some(lines.last()@)
    } else {
        last_report(lines.drop_last())
    }
}

/// The last line a command printed that is not blank.
pub fn last_line(lines: &[String]) -> (last: Option<String>)
    ensures
        view_of(last) == last_report(lines@),
{
    let mut count: usize = lines.len();
    assert(lines@.take(count as int) =~= lines@);
    while count > 0
        invariant
            0 <= count <= lines@.len(),
            last_report(lines@) == last_report(lines@.take(count as int)),
        decreases count,
    {
        let line = &lines[count - 1];
        proof {
            assert(lines@.take(count as int).drop_last() =~= lines@.take(count - 1));
        }
        if !is_blank(line.as_str()) {
            return Some(line.as_str().to_owned());
        }
        count = count - 1;
    }
    None
}

/// How long a module that is not a stream waits between two runs, in seconds: one
/// where the config says nothing, and never less.
pub fn interval_secs(module: &Module) -> (seconds: u64)
    ensures
        seconds == pause_of(*module),
{
    match module.interval {
        Some(seconds) => if seconds > 1 {
            seconds
        } else {
            1
        },
        None => 1,
    }
}

/// How long a module that is not a stream waits between two runs.
pub open spec fn pause_of(module: Module) -> u64 {
    match module.interval {
        Some(seconds) => if seconds > 1 {
            seconds
        } else {
            1
        },
        None => 1,
    }
}

/// How long a sleeping worker sleeps before it looks around again.
pub open spec fn nap_of(now: Instant, deadline: Instant, stopped: bool) -> Option<u128> {
    if stopped || deadline.nanos <= now.nanos {
        None
    } else if deadline.nanos - now.nanos <= STOP_POLL {
        Some((deadline.nanos - now.nanos) as u128)
    } else {
        Some(STOP_POLL)
    }
}

/// How long a sleeping worker may sleep before it has to look around again; not at
/// all once the time is over or a stop was asked for.
pub fn nap(now: Instant, deadline: Instant, stopped: bool) -> (nanos: Option<u128>)
    ensures
        nanos == nap_of(now, deadline, stopped),
{
    if stopped {
        return None;
    }
    let remaining: u128 = deadline.saturating_nanos_since(now);
    if remaining == 0 {
        None
    } else if remaining <= STOP_POLL {
        Some(remaining)
    } else {
        Some(STOP_POLL)
    }
}

/// Something a worker was told to do, done.
#[derive(Debug, Clone, PartialEq, Eq)]
pub enum Happened {
    /// The worker was started, or woke up.
    Woke,
    /// The command ran to its end and printed these lines.
    Ran(Vec<String>),
    /// The command keeps running; `readable` says whether its output can be read.
    Started { readable: bool },
    /// The command could not be run, or its output could not be read.
    Failed(String),
    /// The running command printed a line.
    Line(String),
    /// The running command prints no more.
    Ended,
    /// The command that ended was waited for.
    Reaped,
}

/// What a worker has to do next.
#[derive(Debug, Clone, Copy, PartialEq, Eq, Structural)]
pub enum Task {
    /// Run the command to its end.
    Run,
    /// Start the command and keep it running.
    Start,
    /// Read a line of the running command.
    Read,
    /// Wait for the command that ended.
    Reap,
    /// Sleep for so many seconds.
    Sleep(u64),
    /// Nothing more.
    Exit,
}

/// What follows from something that happened.
#[derive(Debug, Clone, PartialEq, Eq)]
pub struct Step {
    /// The value to report for the module.
    pub value: Option<ModuleValue>,
    /// The message to print.
    pub message: Option<String>,
    pub task: Task,
}

/// The message for a command that failed.
pub open spec fn failure_message(name: Seq<char>, error: Seq<char>) -> Seq<char> {
    "quickbar: module `"@ + name + "`: "@ + error
}

/// What a worker does once it has to wait: a stream waits for its restart, any
/// other module for its next run.
pub open spec fn wait_of(module: Module) -> Task {
    if module.stream {
        Task::Sleep(RESTART_DELAY)
    } else {
        Task::Sleep(pause_of(module))
    }
}

/// What a worker does after something happened.
pub open spec fn task_after(module: Module, happened: Happened, stopped: bool) -> Task {
    match happened {
        Happened::Woke => if stopped {
            Task::Exit
        } else if module.stream {
            Task::Start
        } else {
            Task::Run
        },
        Happened::Ran(_) | Happened::Failed(_) | Happened::Reaped => wait_of(module),
        Happened::Started { readable } => if readable {
            Task::Read
        } else {
            Task::Reap
        },
        Happened::Line(_) => if stopped {
            Task::Reap
        } else {
            Task::Read
        },
        Happened::Ended => Task::Reap,
    }
}

/// What a worker reports after something happened: a run reports its last line,
/// and a running command every line.
pub open spec fn value_after(happened: Happened) -> Option<(Seq<char>, Option<Rgba>)> {
    match happened {
        Happened::Ran(lines) => match last_report(lines@) {
            Some(line) => report_of(line),
            None => None,
        },
        Happened::Line(line) => report_of(line@),
        _ => None,
    }
}

fn report(name: &str, error: &str) -> (message: String)
    ensures
        message@ == failure_message(name@, error@),
{
    let mut message = "quickbar: module `".to_owned();
    message.append(name);
    message.append("`: ");
    message.append(error);
    message
}

/// Decide what a worker does after something happened. `stopped` says whether the
/// module was asked to stop by then.
pub fn next_step(module: &Module, happened: Happened, stopped: bool) -> (step: Step)
    ensures
        step.task == task_after(*module, happened, stopped),
        reported_value(step.value) == value_after(happened),
        view_of(step.message) == match happened {
            Happened::Failed(error) => Some(failure_message(module.name@, error@)),
            _ => None,
        },
{
    let wait = if module.stream {
        Task::Sleep(RESTART_DELAY)
    } else {
        Task::Sleep(interval_secs(module))
    };
    match happened {
        Happened::Woke => {
            let task = if stopped {
                Task::Exit
            } else if module.stream {
                Task::Start
            } else {
                Task::Run
            };
            Step { value: None, message: None, task }
        },
        Happened::Ran(lines) => {
            let value = match last_line(lines.as_slice()) {
                Some(line) => parse_line(line.as_str()),
                // No output at all: keep whatever the module was showing.
                None => None,
            };
            Step { value, message: None, task: wait }
        },
        Happened::Started { readable } => {
            let task = if readable {
                Task::Read
            } else {
                Task::Reap
            };
            Step { value: None, message: None, task }
        },
        Happened::Failed(error) => {
            let message = report(module.name.as_str(), error.as_str());
            Step { value: None, message: Some(message), task: wait }
        },
        Happened::Line(line) => {
            let task = if stopped {
                Task::Reap
            } else {
                Task::Read
            };
            Step { value: parse_line(line.as_str()), message: None, task }
        },
        Happened::Ended => Step { value: None, message: None, task: Task::Reap },
        Happened::Reaped => Step { value: None, message: None, task: wait },
    }
}

/// Blank lines report nothing, whatever they are read as; any other line reports
/// something.
pub proof fn exactly_blank_lines_report_nothing(
    line: Seq<char>,
    text: Option<Seq<char>>,
    color: Option<Seq<char>>,
)
    ensures
        line_report(line, text, color) is None <==> blank(line),
        report_of(line) is None <==> blank(line),
{
}

/// Anything that is not a JSON object with a `text` is taken as the text itself, in
/// the default colour.
pub proof fn plain_text_is_taken_as_is(line: Seq<char>, color: Option<Seq<char>>)
    ensures
        !blank(line) ==> line_report(line, None, color) == Some((line, None::<Rgba>)),
        !blank(line) && json_string(line, "text"@) is None ==> report_of(line) == Some(
            (line, None::<Rgba>),
        ),
{
}

/// An unusable colour falls back to the default instead of dropping the line.
pub proof fn an_unusable_colour_drops_nothing(
    line: Seq<char>,
    text: Seq<char>,
    color: Seq<char>,
)
    requires
        !blank(line),
        parsed_color(color) is None,
    ensures
        line_report(line, Some(text), Some(color)) == line_report(line, Some(text), None),
        line_report(line, Some(text), None) == Some((text, None::<Rgba>)),
{
}

/// Silence is no value: a run that printed nothing but blank lines reports
/// nothing, and one that printed anything else reports its last such line.
pub proof fn the_last_line_wins(lines: Seq<String>, at: int)
    requires
        0 <= at < lines.len(),
        !blank(lines[at]@),
        forall|i: int| at < i < lines.len() ==> blank((#[trigger] lines[i])@),
    ensures
        last_report(lines) == Some(lines[at]@),
    decreases lines.len(),
{
    if at < lines.len() - 1 {
        let front = lines.drop_last();
        assert(blank(lines[lines.len() - 1]@));
        assert forall|i: int| at < i < front.len() implies blank((#[trigger] front[i])@) by {
            assert(front[i] == lines[i]);
        }
        the_last_line_wins(front, at);
    }
}

/// A run that printed nothing but blank lines reports nothing.
pub proof fn silence_is_no_value(lines: Seq<String>)
    requires
        forall|i: int| 0 <= i < lines.len() ==> blank((#[trigger] lines[i])@),
    ensures
        last_report(lines) is None,
    decreases lines.len(),
{
    if lines.len() > 0 {
        let front = lines.drop_last();
        assert(blank(lines[lines.len() - 1]@));
        assert forall|i: int| 0 <= i < front.len() implies blank((#[trigger] front[i])@) by {
            assert(front[i] == lines[i]);
        }
        silence_is_no_value(front);
    }
}

/// A command is only ever run after its worker woke, and before it sleeps again
/// for a second at least: a command that fails at once is not restarted in a tight
/// loop.
pub proof fn restarts_do_not_spin(module: Module, happened: Happened, stopped: bool)
    ensures
        task_after(module, happened, stopped) is Run || task_after(module, happened, stopped)
            is Start ==> happened is Woke && !stopped,
        task_after(module, happened, stopped) matches Task::Sleep(seconds) ==> seconds >= 1,
        happened is Failed || happened is Ran || happened is Reaped ==> task_after(
            module,
            happened,
            stopped,
        ) is Sleep,
{
}

/// A worker that was asked to stop reads no further and exits when it wakes.
pub proof fn a_stopped_worker_exits(module: Module, happened: Happened)
    ensures
        happened is Woke ==> task_after(module, happened, true) is Exit,
        happened is Line ==> task_after(module, happened, true) is Reap,
        !(task_after(module, happened, true) is Run),
        !(task_after(module, happened, true) is Start),
{
}

/// A sleeping worker notices a stop request within one poll, never oversleeps, and
/// sleeps until its time is over.
pub proof fn naps_are_short(now: Instant, deadline: Instant)
    ensures
        nap_of(now, deadline, true) is None,
        nap_of(now, deadline, false) is None <==> now.nanos >= deadline.nanos,
        nap_of(now, deadline, false) matches Some(nanos) ==> 0 < nanos <= STOP_POLL && now.nanos
            + nanos <= deadline.nanos,
{
}

/// A line that has a `text` shows it, and not itself, in the colour that it names if
/// that is one, and otherwise in none of its own.
pub proof fn a_line_shows_its_text_in_its_colour(
    line: Seq<char>,
    text: Seq<char>,
    color: Option<Seq<char>>,
)
    requires
        !blank(line),
    ensures
        color matches Some(name) ==> line_report(line, Some(text), color) == Some(
            (text, parsed_color(name)),
        ),
        color is None ==> line_report(line, Some(text), color) == Some((text, None::<Rgba>)),
{
}

/// A line is read as JSON and reports what that gives it: its `text`, in its `color`,
/// or else itself.
pub proof fn a_line_is_read_as_json(line: Seq<char>)
    requires
        !blank(line),
    ensures
        json_string(line, "text"@) matches Some(text) ==> {
            &&& json_string(line, "color"@) is None ==> report_of(line) == Some(
                (text, None::<Rgba>),
            )
            &&& json_string(line, "color"@) matches Some(name) ==> report_of(line) == Some(
                (text, parsed_color(name)),
            )
        },
        json_string(line, "text"@) is None ==> report_of(line) == Some((line, None::<Rgba>)),
{
}

/// A module that runs again and again waits for as many seconds as it was configured
/// to, and for one where that is nothing or zero.
pub proof fn a_module_waits_as_configured(module: Module)
    ensures
        module.interval matches Some(seconds) ==> (seconds >= 1 ==> pause_of(module) == seconds),
        module.interval is None || module.interval == Some(0u64) ==> pause_of(module) == 1,
{
}

/// A sleeping worker sleeps for a whole poll, or until its time is over if that comes
/// first.
pub proof fn a_nap_is_a_poll_or_ends_in_time(now: Instant, deadline: Instant)
    requires
        now.nanos < deadline.nanos,
    ensures
        STOP_POLL == 50_000_000,
        ({
            let nap = nap_of(now, deadline, false);
            &&& nap is Some
            &&& deadline.nanos - now.nanos >= STOP_POLL ==> nap->0 == STOP_POLL
            &&& deadline.nanos - now.nanos < STOP_POLL ==> now.nanos + nap->0 == deadline.nanos
        }),
{
}

/// The life of a stream: when its worker wakes it is started; its lines are read one
/// after the other, each reported as it comes; when it ends, cannot be read or is to
/// stop it is waited for; and it is started again a second later.
pub proof fn the_life_of_a_stream(
    module: Module,
    line: String,
    lines: Vec<String>,
    error: String,
    stopped: bool,
)
    requires
        module.stream,
    ensures
        RESTART_DELAY == 1,
        task_after(module, Happened::Woke, false) == Task::Start,
        task_after(module, Happened::Woke, true) == Task::Exit,
        task_after(module, Happened::Started { readable: true }, stopped) == Task::Read,
        task_after(module, Happened::Started { readable: false }, stopped) == Task::Reap,
        task_after(module, Happened::Line(line), false) == Task::Read,
        task_after(module, Happened::Line(line), true) == Task::Reap,
        task_after(module, Happened::Ended, stopped) == Task::Reap,
        task_after(module, Happened::Reaped, stopped) == Task::Sleep(1),
        task_after(module, Happened::Failed(error), stopped) == Task::Sleep(1),
        task_after(module, Happened::Ran(lines), stopped) == Task::Sleep(1),
        value_after(Happened::Line(line)) == report_of(line@),
{
}

/// The life of any other module: when its worker wakes it is run to its end, and
/// reports its last line; then it waits for its next run, and no less when it failed.
pub proof fn the_life_of_any_other_module(
    module: Module,
    lines: Vec<String>,
    line: String,
    error: String,
    stopped: bool,
)
    requires
        !module.stream,
    ensures
        task_after(module, Happened::Woke, false) == Task::Run,
        task_after(module, Happened::Woke, true) == Task::Exit,
        task_after(module, Happened::Ran(lines), stopped) == Task::Sleep(pause_of(module)),
        task_after(module, Happened::Failed(error), stopped) == Task::Sleep(pause_of(module)),
        task_after(module, Happened::Reaped, stopped) == Task::Sleep(pause_of(module)),
        task_after(module, Happened::Started { readable: true }, stopped) == Task::Read,
        task_after(module, Happened::Started { readable: false }, stopped) == Task::Reap,
        task_after(module, Happened::Line(line), false) == Task::Read,
        task_after(module, Happened::Line(line), true) == Task::Reap,
        task_after(module, Happened::Ended, stopped) == Task::Reap,
{
}

/// A run reports its last line that is not blank, whatever stands before it, and a run
/// without such a line reports nothing.
pub proof fn a_run_reports_its_last_line(lines: Vec<String>, at: int)
    ensures
        0 <= at < lines@.len() && !blank(lines@[at]@) && (forall|i: int|
            at < i < lines@.len() ==> blank((#[trigger] lines@[i])@)) ==> value_after(
            Happened::Ran(lines),
        ) == report_of(lines@[at]@),
        (forall|i: int| 0 <= i < lines@.len() ==> blank((#[trigger] lines@[i])@)) ==> value_after(
            Happened::Ran(lines),
        ) is None,
{
    if 0 <= at < lines@.len() && !blank(lines@[at]@) && (forall|i: int|
        at < i < lines@.len() ==> blank((#[trigger] lines@[i])@)) {
        the_last_line_wins(lines@, at);
    }
    if forall|i: int| 0 <= i < lines@.len() ==> blank((#[trigger] lines@[i])@) {
        silence_is_no_value(lines@);
    }
}

/// Nothing but a line or a run reports a value, and a failure is told by the module's
/// name.
pub proof fn nothing_else_reports_a_value(happened: Happened, name: Seq<char>, error: Seq<char>)
    ensures
        !(happened is Line) && !(happened is Ran) ==> value_after(happened) is None,
        failure_message(name, error) == "quickbar: module `"@ + name + "`: "@ + error,
{
}

/// The model of a value is the value.
pub proof fn a_reported_value_is_the_value(value: ModuleValue, text: String)
    ensures
        reported_value(Some(value)) == Some((value.text@, value.color)),
        reported_value(None) is None,
        view_of(Some(text)) == Some(text@),
        view_of(None) is None,
{
}

} // verus!
