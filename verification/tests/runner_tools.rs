use async_lab::exercise::{
	ExerciseId, checker_binary_name, checker_crate_name, exercise_key, find_exercise,
	is_chapter_directory, is_complete, lexical_order, next_incomplete, require_exercise_files,
};
use async_lab::fingerprint::{completion_fingerprint_of, fingerprint_bytes};
use async_lab::hint::{render_hint, render_inline_code};
use async_lab::progress::{Progress, parse_progress, serialize_progress};
use async_lab::runner::{
	CheckOutcome, CheckStage, CheckerArgument, Command, WatchAction, check_succeeded,
	compilation_outcome, compile_arguments, failure_report, help_text, hint_display, labelled,
	list_line, parse_command, require_exercises, require_incomplete, settle_attempt,
	test_arguments, tests_outcome, unknown_command_message, watch_action,
};
use async_lab::ui::Ui;

#[test]
fn recognizes_numbered_chapter_directories() {
	assert!(is_chapter_directory("00-async-mental-model"));
	assert!(is_chapter_directory("16-capstone"));
	assert!(!is_chapter_directory("tools"));
	assert!(!is_chapter_directory("0-incomplete"));
}

#[test]
fn fingerprints_depend_on_content() {
	assert_eq!(fingerprint_bytes(b"same"), fingerprint_bytes(b"same"));
	assert_ne!(fingerprint_bytes(b"first"), fingerprint_bytes(b"second"));
}

#[test]
fn parses_valid_progress_lines_and_ignores_invalid_ones() {
	let progress = parse_progress("00/chapter\tabc123\ninvalid\n01/chapter\tdef456\n");
	assert_eq!(progress.get("00/chapter").map(String::as_str), Some("abc123"));
	assert_eq!(progress.get("01/chapter").map(String::as_str), Some("def456"));
	assert_eq!(progress.len(), 2);
}

#[test]
fn styling_can_be_disabled_for_non_terminal_output() {
	let ui = Ui { colors: false, spinner: false };
	assert_eq!(ui.success("passed"), "passed");
	assert_eq!(ui.error("failed"), "failed");
}

#[test]
fn styling_wraps_terminal_text_in_ansi_sequences() {
	let ui = Ui { colors: true, spinner: false };
	assert_eq!(ui.success("passed"), "\x1b[1;32mpassed\x1b[0m");
	assert_eq!(ui.error("failed"), "\x1b[1;31mfailed\x1b[0m");
}

#[test]
fn hint_renderer_removes_markdown_markers_without_colors() {
	let ui = Ui { colors: false, spinner: false };
	assert_eq!(
		render_hint(&ui, "Use **Future** and call `poll`."),
		"  Use Future and call poll."
	);
}

#[test]
fn hint_renderer_styles_emphasis_and_inline_code() {
	let ui = Ui { colors: true, spinner: false };
	let rendered = render_hint(&ui, "Use **Future** and call `poll`.");
	assert!(rendered.contains("\x1b[1;35mFuture\x1b[0m"));
	assert!(rendered.contains("\x1b[1;36mpoll\x1b[0m"));
	assert!(!rendered.contains("**"));
	assert!(!rendered.contains('`'));
}

#[test]
fn fingerprint_of_empty_input_is_the_offset_basis() {
	assert_eq!(fingerprint_bytes(b""), "cbf29ce484222325");
	assert_eq!(fingerprint_bytes(b"a"), "af63dc4c8601ec8c");
}

#[test]
fn completion_fingerprint_separates_source_from_check() {
	let mut combined = b"source".to_vec();
	combined.push(0xff);
	combined.extend_from_slice(b"check");
	assert_eq!(completion_fingerprint_of(b"source", b"check"), fingerprint_bytes(&combined));
	assert_ne!(
		completion_fingerprint_of(b"sourcec", b"heck"),
		completion_fingerprint_of(b"source", b"check")
	);
}

#[test]
fn later_progress_lines_override_earlier_ones() {
	let progress = parse_progress("a\t1\r\nb\tx\ty\na\t2");
	assert_eq!(progress.get("a").map(String::as_str), Some("2"));
	assert_eq!(progress.get("b").map(String::as_str), Some("x\ty"));
	assert_eq!(progress.get("c"), None);
	assert_eq!(progress.len(), 2);
}

#[test]
fn crlf_line_endings_are_stripped() {
	let progress = parse_progress("k\tv\r\n");
	assert_eq!(progress.get("k").map(String::as_str), Some("v"));
	let unterminated = parse_progress("k\tv\r");
	assert_eq!(unterminated.get("k").map(String::as_str), Some("v\r"));
}

#[test]
fn progress_is_saved_in_key_order_and_reads_back() {
	let mut progress = Progress::new();
	progress.insert("01/b".to_string(), "22".to_string());
	progress.insert("00/a".to_string(), "11".to_string());
	progress.insert("01/b".to_string(), "33".to_string());
	let text = serialize_progress(&progress);
	assert_eq!(text, "00/a\t11\n01/b\t33\n");
	let back = parse_progress(&text);
	assert_eq!(serialize_progress(&back), text);
	assert_eq!(back.len(), 2);
}

#[test]
fn empty_progress_file_records_nothing() {
	let progress = parse_progress("");
	assert_eq!(progress.len(), 0);
	assert_eq!(serialize_progress(&progress), "");
}

#[test]
fn plain_styles_have_their_codes() {
	let ui = Ui { colors: true, spinner: false };
	assert_eq!(ui.strong("x"), "\x1b[1mx\x1b[0m");
	assert_eq!(ui.dim("x"), "\x1b[2mx\x1b[0m");
	assert_eq!(ui.info("x"), "\x1b[1;36mx\x1b[0m");
	assert_eq!(ui.warning("x"), "\x1b[1;33mx\x1b[0m");
	assert_eq!(ui.accent("x"), "\x1b[1;35mx\x1b[0m");
}

#[test]
fn environment_decides_colors_and_spinner() {
	let ui = Ui::from_environment(true, true, Some("xterm"), false);
	assert!(ui.colors && ui.spinner);
	let ui = Ui::from_environment(true, false, Some("xterm"), false);
	assert!(!ui.colors && !ui.spinner);
	let ui = Ui::from_environment(false, true, None, false);
	assert!(!ui.colors && ui.spinner);
	let ui = Ui::from_environment(true, true, Some("dumb"), false);
	assert!(!ui.colors && !ui.spinner);
	let ui = Ui::from_environment(true, true, Some("xterm"), true);
	assert!(!ui.colors && ui.spinner);
	let ui = Ui::from_environment(false, false, None, false);
	assert!(!ui.colors && !ui.spinner);
}

#[test]
fn hint_rendering_trims_and_indents_every_line() {
	let ui = Ui { colors: false, spinner: false };
	assert_eq!(render_hint(&ui, "\n  first line\nsecond `x`\n\n"), "  first line\n  second x");
	assert_eq!(render_hint(&ui, "   "), "");
	assert_eq!(render_hint(&ui, "a***b"), "  a*b");
	assert_eq!(render_inline_code(&ui, "a`b`c`d"), "abcd");
	let colored = Ui { colors: true, spinner: false };
	assert_eq!(render_inline_code(&colored, "a`b`c"), "a\x1b[1;36mb\x1b[0mc");
}

fn ids() -> Vec<ExerciseId> {
	vec![
		ExerciseId { key: "00-intro/00_01_a".to_string(), stem: "00_01_a".to_string() },
		ExerciseId { key: "00-intro/00_02_b".to_string(), stem: "00_02_b".to_string() },
		ExerciseId { key: "01-more/00_02_b".to_string(), stem: "00_02_b".to_string() },
	]
}

#[test]
fn exercises_are_found_by_key_or_unique_stem() {
	let exercises = ids();
	assert_eq!(find_exercise(&exercises, "00_01_a"), Ok(0));
	assert_eq!(find_exercise(&exercises, "01-more/00_02_b"), Ok(2));
	assert_eq!(
		find_exercise(&exercises, "00_02_b"),
		Err("more than one exercise matches `00_02_b`; use its full key".to_string())
	);
	assert_eq!(find_exercise(&exercises, "zz"), Err("no exercise matches `zz`".to_string()));
}

#[test]
fn exercise_keys_and_checker_names() {
	let key = exercise_key("00-async-mental-model", "00_01_classify_actors");
	assert_eq!(key, "00-async-mental-model/00_01_classify_actors");
	let binary = checker_binary_name(&key);
	assert_eq!(binary, "00_async_mental_model_00_01_classify_actors");
	assert_eq!(
		checker_crate_name(&binary),
		"async_lab_check_00_async_mental_model_00_01_classify_actors"
	);
}

#[test]
fn next_incomplete_skips_recorded_exercises() {
	let exercises = ids();
	let mut progress = Progress::new();
	progress.insert("00-intro/00_01_a".to_string(), "f0".to_string());
	progress.insert("00-intro/00_02_b".to_string(), "stale".to_string());
	let found = next_incomplete(&exercises, &progress, |i: usize| Ok(format!("f{i}")));
	assert_eq!(found, Ok(Some(1)));
	assert!(is_complete(&progress, "00-intro/00_01_a", "f0"));
	assert!(!is_complete(&progress, "00-intro/00_02_b", "f1"));
	let failed = next_incomplete(&exercises, &progress, |i: usize| {
		if i == 0 { Ok("f0".to_string()) } else { Err(format!("unreadable {i}")) }
	});
	assert_eq!(failed, Err("unreadable 1".to_string()));
	progress.insert("00-intro/00_02_b".to_string(), "f1".to_string());
	progress.insert("01-more/00_02_b".to_string(), "f2".to_string());
	let done = next_incomplete(&exercises, &progress, |i: usize| Ok(format!("f{i}")));
	assert_eq!(done, Ok(None));
}

#[test]
fn commands_are_read_from_arguments() {
	let args = |list: &[&str]| list.iter().map(|s| s.to_string()).collect::<Vec<String>>();
	assert!(matches!(parse_command(&args(&[])), Command::Watch));
	assert!(matches!(parse_command(&args(&["-h"])), Command::Help));
	assert!(matches!(parse_command(&args(&["--help"])), Command::Help));
	assert!(matches!(parse_command(&args(&["list"])), Command::List));
	assert!(matches!(parse_command(&args(&["check"])), Command::Check(None)));
	match parse_command(&args(&["hint", "00_01"])) {
		Command::Hint(Some(name)) => assert_eq!(name, "00_01"),
		other => panic!("unexpected {other:?}"),
	}
	match parse_command(&args(&["frobnicate"])) {
		Command::Unknown(name) => assert_eq!(
			unknown_command_message(&name),
			"unknown command `frobnicate`; run `cargo run -- --help` for usage"
		),
		other => panic!("unexpected {other:?}"),
	}
}

#[test]
fn attempts_record_passes_only_when_nothing_changed() {
	let mut progress = Progress::new();
	let changed =
		settle_attempt(&mut progress, "k".to_string(), "before", "after".to_string(), CheckOutcome::Passed);
	assert!(matches!(changed, CheckOutcome::ChangedDuringCheck));
	assert_eq!(progress.len(), 0);
	let failed = settle_attempt(
		&mut progress,
		"k".to_string(),
		"same",
		"same".to_string(),
		CheckOutcome::Failed { stage: CheckStage::Tests, output: "boom".to_string() },
	);
	assert!(!check_succeeded(&failed));
	assert_eq!(watch_action(&failed), WatchAction::ReportAndWait);
	assert_eq!(progress.len(), 0);
	let passed =
		settle_attempt(&mut progress, "k".to_string(), "same", "same".to_string(), CheckOutcome::Passed);
	assert!(check_succeeded(&passed));
	assert_eq!(watch_action(&passed), WatchAction::Advance);
	assert_eq!(progress.get("k").map(String::as_str), Some("same"));
	assert_eq!(watch_action(&CheckOutcome::ChangedDuringCheck), WatchAction::CheckAgain);
}

#[test]
fn checker_outcomes_follow_each_stage() {
	assert!(compilation_outcome(true, String::new()).is_none());
	match compilation_outcome(false, "error".to_string()) {
		Some(CheckOutcome::Failed { stage, output }) => {
			assert_eq!(stage, CheckStage::Compilation);
			assert_eq!(output, "error");
			assert_eq!(stage.name(), "compilation");
			assert_eq!(stage.heading(), "COMPILATION");
		},
		other => panic!("unexpected {other:?}"),
	}
	assert!(matches!(tests_outcome(true, String::new()), CheckOutcome::Passed));
	assert!(matches!(
		tests_outcome(false, String::new()),
		CheckOutcome::Failed { stage: CheckStage::Tests, .. }
	));
}

#[test]
fn reports_are_composed_from_styled_parts() {
	let ui = Ui { colors: false, spinner: false };
	assert_eq!(
		failure_report(&ui, "00/x", CheckStage::Tests, "  \n"),
		"\n❌ CHECK FAILED 00/x\nStage: TESTS\n"
	);
	assert_eq!(
		failure_report(&ui, "00/x", CheckStage::Compilation, "\n oops \n"),
		"\n❌ CHECK FAILED 00/x\nStage: COMPILATION\n\n── CHECKER OUTPUT ─────────────────────────────────────────────\noops\n──────────────────────────────────────────────────────────────\n"
	);
	assert_eq!(hint_display(&ui, "00/x", None), "💡 NO HINT AVAILABLE FOR 00/x.");
	assert_eq!(hint_display(&ui, "00/x", Some("**a**")), "💡 HINT — 00/x\n  a");
	assert_eq!(list_line(&ui, true, "00/x", "p.rs"), "✅ DONE 00/x (p.rs)");
	assert_eq!(list_line(&ui, false, "00/x", "p.rs"), "○ TODO 00/x (p.rs)");
	assert_eq!(labelled("a", "b"), "a b");
	assert!(help_text(&ui).starts_with("Async Lab exercise runner\n\nUSAGE:"));
}

#[test]
fn names_are_put_in_lexical_order() {
	let names = ["16-capstone", "00-async-mental-model", "03-wakers", "10-async-io", "03-wakers"]
		.iter()
		.map(|s| s.to_string())
		.collect::<Vec<String>>();
	assert_eq!(
		lexical_order(names),
		vec!["00-async-mental-model", "03-wakers", "03-wakers", "10-async-io", "16-capstone"]
	);
	assert_eq!(lexical_order(vec!["b".to_string(), "B".to_string(), "ab".to_string(), "a".to_string()]), vec!["B", "a", "ab", "b"]);
	assert_eq!(lexical_order(Vec::new()), Vec::<String>::new());
}

#[test]
fn checker_commands_have_fixed_arguments() {
	let plain = compile_arguments("async_lab_check_x", false);
	assert_eq!(plain.len(), 7);
	assert!(matches!(&plain[0], CheckerArgument::Text(t) if t == "--edition=2024"));
	assert!(matches!(&plain[1], CheckerArgument::Text(t) if t == "--test"));
	assert!(matches!(&plain[2], CheckerArgument::CheckerSource));
	assert!(matches!(&plain[3], CheckerArgument::Text(t) if t == "--crate-name"));
	assert!(matches!(&plain[4], CheckerArgument::Text(t) if t == "async_lab_check_x"));
	assert!(matches!(&plain[5], CheckerArgument::Text(t) if t == "-o"));
	assert!(matches!(&plain[6], CheckerArgument::CheckerBinary));
	let colored = compile_arguments("c", true);
	assert_eq!(colored.len(), 8);
	assert!(matches!(&colored[7], CheckerArgument::Text(t) if t == "--color=always"));
	assert_eq!(test_arguments(false), vec!["--nocapture"]);
	assert_eq!(test_arguments(true), vec!["--nocapture", "--color=always"]);
}

#[test]
fn missing_exercises_and_files_are_errors() {
	assert_eq!(require_exercises(0), Err("no Rust exercises were found".to_string()));
	assert_eq!(require_exercises(3), Ok(()));
	assert_eq!(require_incomplete(Some(2)), Ok(2));
	assert_eq!(require_incomplete(None), Err("all Rust exercises are already complete".to_string()));
	assert_eq!(require_exercise_files("00/x", "c.rs", true, "s.rs", true), Ok(()));
	assert_eq!(
		require_exercise_files("00/x", "c.rs", false, "s.rs", false),
		Err("missing checker for `00/x`: c.rs".to_string())
	);
	assert_eq!(
		require_exercise_files("00/x", "c.rs", true, "s.rs", false),
		Err("missing reference solution for `00/x`: s.rs".to_string())
	);
}
