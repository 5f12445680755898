use vstd::prelude::*;
use vstd::string::*;
use crate::exercise::completed;
use crate::progress::Progress;
use crate::text::{chars_of, str_equals, trim_bounds, trimmed, push_range};
use crate::hint::{render_hint, rendered_hint};
use crate::ui::{Ui, painted};

verus! {

/// What the runner was asked to do.
#[derive(Debug)]
pub enum Command {
    /// Print the usage.
    Help,
    /// Check the next incomplete exercise, then keep checking as its source changes.
    Watch,
    /// Show every exercise and its status.
    List,
    /// Check the named exercise, or the next incomplete one.
    Check(Option<String>),
    /// Show the hint of the named exercise, or of the next incomplete one.
    Hint(Option<String>),
    /// A command the runner does not know.
    Unknown(String),
}

/// The command that the arguments (after the program name) ask for: the first argument names
/// it, `watch` when there is none; `check` and `hint` take the second argument as the exercise.
pub open spec fn command_for(arguments: Seq<String>) -> Command {
    let name = if arguments.len() == 0 { "watch"@ } else { arguments[0]@ };
    let target = if arguments.len() >= 2 { Some(arguments[1]) } else { None };
    if name == "help"@ || name == "--help"@ || name == "-h"@ {
        Command::Help
    } else if name == "watch"@ {
        Command::Watch
    } else if name == "list"@ {
        Command::List
    } else if name == "check"@ {
        Command::Check(target)
    } else if name == "hint"@ {
        Command::Hint(target)
    } else {
        Command::Unknown(arguments[0])
    }
}

/// `check` and `hint` pass their second argument on as the exercise to work on, and take the
/// next incomplete exercise only when there is none; no argument at all means `watch`.
pub proof fn lemma_commands_keep_their_target(arguments: Seq<String>)
    ensures
        arguments.len() >= 2 && arguments[0]@ == "check"@ ==> command_for(arguments) == Command::Check(
            Some(arguments[1]),
        ),
        arguments.len() == 1 && arguments[0]@ == "check"@ ==> command_for(arguments) == Command::Check(None),
        arguments.len() >= 2 && arguments[0]@ == "hint"@ ==> command_for(arguments) == Command::Hint(
            Some(arguments[1]),
        ),
        arguments.len() == 1 && arguments[0]@ == "hint"@ ==> command_for(arguments) == Command::Hint(None),
        arguments.len() == 0 ==> command_for(arguments) == Command::Watch,
{
    reveal_strlit("check");
    reveal_strlit("hint");
    reveal_strlit("help");
    reveal_strlit("--help");
    reveal_strlit("-h");
    reveal_strlit("watch");
    reveal_strlit("list");
    assert("check"@.len() == 5 && "hint"@.len() == 4 && "help"@.len() == 4 && "--help"@.len() == 6
        && "-h"@.len() == 2 && "watch"@.len() == 5 && "list"@.len() == 4);
    assert("check"@[0] != "watch"@[0]);
    assert("hint"@[1] != "help"@[1]);
    assert("hint"@[0] != "list"@[0]);
}

/// Reads the command from the arguments that follow the program name.
pub fn parse_command(arguments: &Vec<String>) -> (command: Command)
    ensures
        command == command_for(arguments@),
{
    let name: &str = if arguments.len() == 0 { "watch" } else { arguments[0].as_str() };
    let target: Option<String> = if arguments.len() >= 2 { Some(arguments[1].clone()) } else { None };
    if str_equals(name, "help") || str_equals(name, "--help") || str_equals(name, "-h") {
        Command::Help
    } else if str_equals(name, "watch") {
        Command::Watch
    } else if str_equals(name, "list") {
        Command::List
    } else if str_equals(name, "check") {
        Command::Check(target)
    } else if str_equals(name, "hint") {
        Command::Hint(target)
    } else {
        proof {
            if arguments@.len() == 0 {
                assert(name@ == "watch"@);
            }
        }
        Command::Unknown(arguments[0].clone())
    }
}

/// The error for a command the runner does not know.
pub fn unknown_command_message(name: &str) -> (message: String)
    ensures
        message@ == "unknown command `"@ + name@ + "`; run `cargo run -- --help` for usage"@,
{
    let mut message = String::from_str("unknown command `");
    message.append(name);
    message.append("`; run `cargo run -- --help` for usage");
    message
}

/// The step of a check that failed.
#[derive(Debug, Clone, Copy, PartialEq, Eq)]
pub enum CheckStage {
    Compilation,
    Tests,
}

/// A stage's name in upper case.
pub open spec fn stage_heading(stage: CheckStage) -> Seq<char> {
    match stage {
        CheckStage::Compilation => "COMPILATION"@,
        CheckStage::Tests => "TESTS"@,
    }
}

impl CheckStage {
    /// The stage's name.
    pub fn name(self) -> (name: &'static str)
        ensures
            name@ == match self {
                CheckStage::Compilation => "compilation"@,
                CheckStage::Tests => "tests"@,
            },
    {
        match self {
            CheckStage::Compilation => "compilation",
            CheckStage::Tests => "tests",
        }
    }

    /// The stage's name in upper case, as failure reports show it.
    pub fn heading(self) -> (heading: &'static str)
        ensures
            heading@ == stage_heading(self),
    {
        match self {
            CheckStage::Compilation => "COMPILATION",
            CheckStage::Tests => "TESTS",
        }
    }
}

/// How a check of an exercise ended.
#[derive(Debug)]
pub enum CheckOutcome {
    /// The checker compiled and its tests passed.
    Passed,
    /// The checker did not compile, or its tests failed, with what the step printed.
    Failed { stage: CheckStage, output: String },
    /// The source or checker changed while it was being checked.
    ChangedDuringCheck,
}

/// The outcome once the checker has been compiled: a failure when compilation failed, or
/// `None` when the tests are to run next.
pub fn compilation_outcome(succeeded: bool, output: String) -> (outcome: Option<CheckOutcome>)
    ensures
        succeeded ==> outcome is None,
        !succeeded ==> outcome == Some(CheckOutcome::Failed { stage: CheckStage::Compilation, output }),
{
    if succeeded {
        None
    } else {
        Some(CheckOutcome::Failed { stage: CheckStage::Compilation, output })
    }
}

/// The outcome once the checker's tests have run.
pub fn tests_outcome(succeeded: bool, output: String) -> (outcome: CheckOutcome)
    ensures
        succeeded ==> outcome == CheckOutcome::Passed,
        !succeeded ==> outcome == (CheckOutcome::Failed { stage: CheckStage::Tests, output }),
{
    if succeeded {
        CheckOutcome::Passed
    } else {
        CheckOutcome::Failed { stage: CheckStage::Tests, output }
    }
}

/// Settles an attempt at an exercise, given its fingerprint before and after the check: a
/// change during the check voids the outcome; a pass is recorded with the checked fingerprint.
pub fn settle_attempt(
    progress: &mut Progress,
    key: String,
    before: &str,
    after: String,
    outcome: CheckOutcome,
) -> (settled: CheckOutcome)
    ensures
        before@ != after@ ==> settled == CheckOutcome::ChangedDuringCheck && final(progress)@ == old(
            progress,
        )@,
        before@ == after@ ==> settled == outcome,
        before@ == after@ && outcome is Passed ==> final(progress).records() == old(
            progress,
        ).records().insert(key@, after@),
        before@ == after@ && !(outcome is Passed) ==> final(progress)@ == old(progress)@,
{
    if !str_equals(before, after.as_str()) {
        return CheckOutcome::ChangedDuringCheck;
    }
    if let CheckOutcome::Passed = outcome {
        progress.insert(key, after);
    }
    outcome
}

/// Whether a check command succeeded: only when the exercise passed.
pub fn check_succeeded(outcome: &CheckOutcome) -> (succeeded: bool)
    ensures
        succeeded == (*outcome is Passed),
{
    match outcome {
        CheckOutcome::Passed => true,
        _ => false,
    }
}

/// What the watcher does after an attempt.
#[derive(Debug, Clone, Copy, PartialEq, Eq)]
pub enum WatchAction {
    /// Move on to the next incomplete exercise.
    Advance,
    /// Check the saved version again at once.
    CheckAgain,
    /// Report the failure, then wait for the source to change before checking again.
    ReportAndWait,
}

/// The watcher's response to an attempt's outcome.
pub fn watch_action(outcome: &CheckOutcome) -> (action: WatchAction)
    ensures
        action == match *outcome {
            CheckOutcome::Passed => WatchAction::Advance,
            CheckOutcome::ChangedDuringCheck => WatchAction::CheckAgain,
            CheckOutcome::Failed { .. } => WatchAction::ReportAndWait,
        },
{
    match outcome {
        CheckOutcome::Passed => WatchAction::Advance,
        CheckOutcome::ChangedDuringCheck => WatchAction::CheckAgain,
        CheckOutcome::Failed { .. } => WatchAction::ReportAndWait,
    }
}

/// Recording a pass makes the exercise complete for exactly the fingerprint that passed:
/// editing its source or checker afterwards makes it incomplete again.
pub proof fn lemma_recorded_pass_completes(
    progress: Progress,
    recorded: Progress,
    key: Seq<char>,
    fingerprint: Seq<char>,
    current: Seq<char>,
)
    requires
        recorded.records() == progress.records().insert(key, fingerprint),
    ensures
        completed(recorded, key, current) <==> current == fingerprint,
{
}

/// An argument of a checker command: literal text, or the path of the exercise's checker
/// source or of its compiled test binary, which the caller fills in as it finds them.
#[derive(Debug)]
pub enum CheckerArgument {
    Text(String),
    CheckerSource,
    CheckerBinary,
}

/// The argument is the literal `text`.
pub open spec fn is_text(argument: CheckerArgument, text: Seq<char>) -> bool {
    argument matches CheckerArgument::Text(t) && t@ == text
}

fn text_argument(text: &str) -> (argument: CheckerArgument)
    ensures
        is_text(argument, text@),
{
    CheckerArgument::Text(String::from_str(text))
}

/// The arguments of the `rustc` call that compiles an exercise's checker as a test binary:
/// edition 2024, `--test`, the checker source, its crate name, `-o` and the binary, and
/// `--color=always` exactly when colors are on.
pub fn compile_arguments(crate_name: &str, colors: bool) -> (arguments: Vec<CheckerArgument>)
    ensures
        arguments@.len() == if colors { 8int } else { 7int },
        is_text(arguments@[0], "--edition=2024"@),
        is_text(arguments@[1], "--test"@),
        arguments@[2] == CheckerArgument::CheckerSource,
        is_text(arguments@[3], "--crate-name"@),
        is_text(arguments@[4], crate_name@),
        is_text(arguments@[5], "-o"@),
        arguments@[6] == CheckerArgument::CheckerBinary,
        colors ==> is_text(arguments@[7], "--color=always"@),
{
    let mut arguments: Vec<CheckerArgument> = Vec::new();
    arguments.push(text_argument("--edition=2024"));
    arguments.push(text_argument("--test"));
    arguments.push(CheckerArgument::CheckerSource);
    arguments.push(text_argument("--crate-name"));
    arguments.push(text_argument(crate_name));
    arguments.push(text_argument("-o"));
    arguments.push(CheckerArgument::CheckerBinary);
    if colors {
        arguments.push(text_argument("--color=always"));
    }
    arguments
}

/// The arguments of a run of an exercise's compiled checker: `--nocapture`, and
/// `--color=always` exactly when colors are on.
pub fn test_arguments(colors: bool) -> (arguments: Vec<String>)
    ensures
        arguments@.len() == if colors { 2int } else { 1int },
        arguments@[0]@ == "--nocapture"@,
        colors ==> arguments@[1]@ == "--color=always"@,
{
    let mut arguments: Vec<String> = Vec::new();
    arguments.push(String::from_str("--nocapture"));
    if colors {
        arguments.push(String::from_str("--color=always"));
    }
    arguments
}

/// Fails unless at least one exercise was found.
pub fn require_exercises(count: usize) -> (found: Result<(), String>)
    ensures
        count > 0 <==> found is Ok,
        found is Err ==> found->Err_0@ == "no Rust exercises were found"@,
{
    if count == 0 {
        Err(String::from_str("no Rust exercises were found"))
    } else {
        Ok(())
    }
}

/// The next incomplete exercise, or an error when every exercise is complete.
pub fn require_incomplete(next: Option<usize>) -> (selected: Result<usize, String>)
    ensures
        match next {
            Some(i) => selected == Ok::<usize, String>(i),
            None => selected is Err && selected->Err_0@ == "all Rust exercises are already complete"@,
        },
{
    match next {
        Some(i) => Ok(i),
        None => Err(String::from_str("all Rust exercises are already complete")),
    }
}

/// Two texts joined by a space, as the runner prints a label and its subject.
pub fn labelled(label: &str, subject: &str) -> (line: String)
    ensures
        line@ == label@ + " "@ + subject@,
{
    let mut line = String::from_str(label);
    line.append(" ");
    line.append(subject);
    line
}


/// The rule above a checker's output in a failure report.
pub open spec fn output_rule_top() -> Seq<char> {
    "── CHECKER OUTPUT ─────────────────────────────────────────────"@
}

/// The rule below a checker's output in a failure report.
pub open spec fn output_rule_bottom() -> Seq<char> {
    "──────────────────────────────────────────────────────────────"@
}

/// The report of a failed check: the exercise, the failed stage, and the checker's output
/// framed by rules, trimmed, and left out when it is only whitespace.
pub open spec fn failure_report_text(colors: bool, key: Seq<char>, heading: Seq<char>, output: Seq<char>) -> Seq<char> {
    "\n"@ + painted(colors, "1;31"@, "❌ CHECK FAILED"@) + " "@ + painted(colors, "1"@, key) + "\n"@
        + painted(colors, "2"@, "Stage:"@) + " "@ + painted(colors, "1;33"@, heading) + "\n"@
        + if trimmed(output).len() == 0 {
        Seq::empty()
    } else {
        "\n"@ + painted(colors, "2"@, output_rule_top()) + "\n"@ + trimmed(output) + "\n"@ + painted(
            colors,
            "2"@,
            output_rule_bottom(),
        ) + "\n"@
    }
}

/// A report frames the whole trimmed checker output, however long: it is the report for empty
/// output followed by a blank line, the top rule, every character of the trimmed output, and
/// the bottom rule.
pub proof fn lemma_report_frames_whole_output(colors: bool, key: Seq<char>, heading: Seq<char>, output: Seq<char>)
    requires
        trimmed(output).len() > 0,
    ensures
        failure_report_text(colors, key, heading, output) == failure_report_text(
            colors,
            key,
            heading,
            Seq::empty(),
        ) + "\n"@ + painted(colors, "2"@, output_rule_top()) + "\n"@ + trimmed(output) + "\n"@
            + painted(colors, "2"@, output_rule_bottom()) + "\n"@,
{
    assert(trimmed(Seq::<char>::empty()).len() == 0);
    assert(failure_report_text(colors, key, heading, output) =~= failure_report_text(
        colors,
        key,
        heading,
        Seq::empty(),
    ) + "\n"@ + painted(colors, "2"@, output_rule_top()) + "\n"@ + trimmed(output) + "\n"@
        + painted(colors, "2"@, output_rule_bottom()) + "\n"@);
}

/// The report of a failed check, as the runner prints it to standard error.
pub fn failure_report(ui: &Ui, key: &str, stage: CheckStage, output: &str) -> (report: String)
    ensures
        report@ == failure_report_text(ui.colors, key@, stage_heading(stage), output@),
{
    let mut report = String::from_str("\n");
    let failed = ui.error("❌ CHECK FAILED");
    report.append(failed.as_str());
    report.append(" ");
    let strong_key = ui.strong(key);
    report.append(strong_key.as_str());
    report.append("\n");
    let stage_label = ui.dim("Stage:");
    report.append(stage_label.as_str());
    report.append(" ");
    let heading = ui.warning(stage.heading());
    report.append(heading.as_str());
    report.append("\n");
    let ghost head = report@;
    let chars = chars_of(output);
    let (start, end) = trim_bounds(chars.as_slice(), 0, chars.len());
    assert(chars@.subrange(0, chars@.len() as int) =~= chars@);
    if start < end {
        report.append("\n");
        let top = ui.dim("── CHECKER OUTPUT ─────────────────────────────────────────────");
        report.append(top.as_str());
        report.append("\n");
        push_range(&mut report, chars.as_slice(), start, end);
        report.append("\n");
        let bottom = ui.dim("──────────────────────────────────────────────────────────────");
        report.append(bottom.as_str());
        report.append("\n");
    }
    assert(report@ =~= failure_report_text(ui.colors, key@, stage_heading(stage), output@));
    report
}

/// The hint section of a failure report.
pub fn hint_section(ui: &Ui, hint: &str) -> (section: String)
    ensures
        section@ == "\n"@ + painted(ui.colors, "1;33"@, "💡 HINT"@) + "\n"@ + rendered_hint(ui.colors, hint@) + "\n"@,
{
    let mut section = String::from_str("\n");
    let heading = ui.warning("💡 HINT");
    section.append(heading.as_str());
    section.append("\n");
    let rendered = render_hint(ui, hint);
    section.append(rendered.as_str());
    section.append("\n");
    section
}

/// The note in a failure report that a hint exists but could not be read.
pub fn unreadable_hint_note(ui: &Ui, path: &str, error: &str) -> (note: String)
    ensures
        note@ == "\n"@ + painted(ui.colors, "1;31"@, "error:"@) + " A hint exists but could not be read from "@ + path@
            + ": "@ + error@ + "\n"@,
{
    let mut note = String::from_str("\n");
    let label = ui.error("error:");
    note.append(label.as_str());
    note.append(" A hint exists but could not be read from ");
    note.append(path);
    note.append(": ");
    note.append(error);
    note.append("\n");
    note
}

/// What the `hint` command prints for an exercise, with its hint if it has one.
pub fn hint_display(ui: &Ui, key: &str, hint: Option<&str>) -> (display: String)
    ensures
        display@ == match hint {
            Some(h) => painted(ui.colors, "1;33"@, "💡 HINT —"@) + " "@ + painted(ui.colors, "1"@, key@) + "\n"@
                + rendered_hint(ui.colors, h@),
            None => painted(ui.colors, "1;33"@, "💡 NO HINT AVAILABLE FOR"@) + " "@ + painted(ui.colors, "1"@, key@)
                + "."@,
        },
{
    match hint {
        Some(h) => {
            let mut display = ui.warning("💡 HINT —");
            display.append(" ");
            let strong_key = ui.strong(key);
            display.append(strong_key.as_str());
            display.append("\n");
            let rendered = render_hint(ui, h);
            display.append(rendered.as_str());
            display
        },
        None => {
            let mut display = ui.warning("💡 NO HINT AVAILABLE FOR");
            display.append(" ");
            let strong_key = ui.strong(key);
            display.append(strong_key.as_str());
            display.append(".");
            display
        },
    }
}

/// The line that the `list` command prints for an exercise.
pub fn list_line(ui: &Ui, complete: bool, key: &str, source: &str) -> (line: String)
    ensures
        line@ == (if complete {
            painted(ui.colors, "1;32"@, "✅ DONE"@)
        } else {
            painted(ui.colors, "1;33"@, "○ TODO"@)
        }) + " "@ + painted(ui.colors, "1"@, key@) + " "@ + painted(ui.colors, "2"@, "("@ + source@ + ")"@),
{
    let mut line = if complete {
        ui.success("✅ DONE")
    } else {
        ui.warning("○ TODO")
    };
    line.append(" ");
    let strong_key = ui.strong(key);
    line.append(strong_key.as_str());
    line.append(" ");
    let mut location = String::from_str("(");
    location.append(source);
    location.append(")");
    let dim_location = ui.dim(location.as_str());
    line.append(dim_location.as_str());
    line
}

/// The usage text after the title.
pub open spec fn usage_text() -> Seq<char> {
    "\n\nUSAGE:
    cargo run                         Watch the next incomplete exercise
    cargo run -- watch                Same as the default command
    cargo run -- list                 Show every exercise and its status
    cargo run -- check [NAME]         Check one exercise, or the next incomplete one
    cargo run -- hint [NAME]          Show the hint for one exercise

The watcher checks an exercise immediately, then checks it again whenever its source changes.
Passing progress is stored locally in .async-lab/progress.tsv."@
}

/// The runner's usage, under its title.
pub fn help_text(ui: &Ui) -> (text: String)
    ensures
        text@ == painted(ui.colors, "1;36"@, "Async Lab exercise runner"@) + usage_text(),
{
    let mut text = ui.info("Async Lab exercise runner");
    text.append("\n\nUSAGE:
    cargo run                         Watch the next incomplete exercise
    cargo run -- watch                Same as the default command
    cargo run -- list                 Show every exercise and its status
    cargo run -- check [NAME]         Check one exercise, or the next incomplete one
    cargo run -- hint [NAME]          Show the hint for one exercise

The watcher checks an exercise immediately, then checks it again whenever its source changes.
Passing progress is stored locally in .async-lab/progress.tsv.");
    text
}

} // verus!
