use clp::actions::{
    Action, InputEvent, KeyCode, RawText, StyledText, TextStyle, TypewriterPrint,
    TypewriterPrintStyledContent, WaitFor, WaitForInteraction, is_qualifying,
};
use clp::engine::{Cmd, Phase, Reply, SlideRunner};
use clp::script::run_script;

/// Drives a slide to completion: every command succeeds, and each event read
/// is answered with the next event of `events`.
fn drive(actions: Vec<Action>, events: Vec<InputEvent>) -> (Vec<Cmd>, Option<u64>) {
    let mut runner = SlideRunner::new(actions);
    let mut trace = Vec::new();
    let mut events = events.into_iter();
    while !runner.is_finished() {
        let cmd = runner.current().expect("an unfinished slide asks for a command");
        let reply = match cmd {
            Cmd::ReadEvent => Reply::Got(events.next().expect("the event script ran out")),
            _ => Reply::Done,
        };
        trace.push(cmd);
        runner.feed(reply);
    }
    (trace, runner.outcome())
}

/// Drives a slide, failing the command at position `fail_at` of the trace with
/// the given error code; event reads before that are answered from `events`.
fn drive_with_failure(
    actions: Vec<Action>,
    events: Vec<InputEvent>,
    fail_at: usize,
    code: u64,
) -> (Vec<Cmd>, Option<u64>) {
    let mut runner = SlideRunner::new(actions);
    let mut trace = Vec::new();
    let mut events = events.into_iter();
    while !runner.is_finished() {
        let cmd = runner.current().expect("an unfinished slide asks for a command");
        let reply = if trace.len() == fail_at {
            Reply::Failed(code)
        } else {
            match cmd {
                Cmd::ReadEvent => Reply::Got(events.next().expect("the event script ran out")),
                _ => Reply::Done,
            }
        };
        trace.push(cmd);
        runner.feed(reply);
    }
    (trace, runner.outcome())
}

fn bold() -> TextStyle {
    TextStyle { fg: None, bg: None, bold: true, italic: false, underline: false }
}

fn chars_of(trace: &[Cmd]) -> String {
    trace
        .iter()
        .filter_map(|c| match c {
            Cmd::WriteChar(ch) => Some(*ch),
            Cmd::WriteStyledChar(ch, _) => Some(*ch),
            _ => None,
        })
        .collect()
}

fn sleeps_of(trace: &[Cmd]) -> Vec<u64> {
    trace
        .iter()
        .filter_map(|c| match c {
            Cmd::SleepMs(d) => Some(*d),
            _ => None,
        })
        .collect()
}

#[test]
fn presentation() {
    let first = vec![
        Action::Print(TypewriterPrint("Welcome to my presentation on ".to_string(), 25)),
        Action::PrintStyled(TypewriterPrintStyledContent(
            StyledText { text: "command line presentations".to_string(), style: bold() },
            50,
        )),
        Action::Raw(RawText(".".to_string())),
    ];
    let (_, outcome) = drive(first, vec![InputEvent::Key(KeyCode::Enter)]);
    assert_eq!(outcome, None, "the first slide should appear");

    let second = vec![Action::Print(TypewriterPrint(
        "...there isn't much content on these slides.".to_string(),
        25,
    ))];
    let (_, outcome) = drive(second, vec![InputEvent::Key(KeyCode::Enter)]);
    assert_eq!(outcome, None, "the second slide should appear");
}

#[test]
fn paced_text_writes_every_character_in_order() {
    let actions = vec![Action::Print(TypewriterPrint("ab".to_string(), 10))];
    let (trace, outcome) = drive(actions, vec![InputEvent::Key(KeyCode::Enter)]);
    assert_eq!(outcome, None);
    assert_eq!(chars_of(&trace), "ab");
    assert_eq!(sleeps_of(&trace), vec![10, 10]);
    assert_eq!(
        trace,
        vec![
            Cmd::ClearScreen,
            Cmd::WriteChar('a'),
            Cmd::Flush,
            Cmd::EnableRawMode,
            Cmd::SleepMs(10),
            Cmd::DisableRawMode,
            Cmd::WriteChar('b'),
            Cmd::Flush,
            Cmd::EnableRawMode,
            Cmd::SleepMs(10),
            Cmd::DisableRawMode,
            Cmd::Flush,
            Cmd::EnableRawMode,
            Cmd::ReadEvent,
            Cmd::DisableRawMode,
        ]
    );
}

#[test]
fn empty_content_performs_no_sleep_and_succeeds() {
    let actions = vec![Action::Print(TypewriterPrint(String::new(), 25))];
    let (trace, outcome) = drive(actions, vec![InputEvent::Key(KeyCode::Enter)]);
    assert_eq!(outcome, None);
    assert_eq!(sleeps_of(&trace), Vec::<u64>::new());
    assert_eq!(chars_of(&trace), "");
    assert_eq!(
        trace,
        vec![Cmd::ClearScreen, Cmd::Flush, Cmd::EnableRawMode, Cmd::ReadEvent, Cmd::DisableRawMode]
    );
}

#[test]
fn wait_for_interaction_ignores_non_qualifying_events() {
    let actions = vec![Action::Interaction(WaitForInteraction)];
    let events = vec![
        InputEvent::Key(KeyCode::Glyph('a')),
        InputEvent::Other,
        InputEvent::Key(KeyCode::Other),
        InputEvent::Key(KeyCode::Glyph(' ')),
        InputEvent::Key(KeyCode::Enter),
    ];
    let (trace, outcome) = drive(actions, events);
    assert_eq!(outcome, None);
    let reads = trace.iter().filter(|c| **c == Cmd::ReadEvent).count();
    assert_eq!(reads, 5, "one read per event: three ignored, one per satisfied wait");
}

#[test]
fn empty_slide_still_clears_and_waits_once() {
    let (trace, outcome) = drive(Vec::new(), vec![InputEvent::Key(KeyCode::Right)]);
    assert_eq!(outcome, None);
    assert_eq!(
        trace,
        vec![Cmd::ClearScreen, Cmd::Flush, Cmd::EnableRawMode, Cmd::ReadEvent, Cmd::DisableRawMode]
    );
    assert_eq!(trace.iter().filter(|c| **c == Cmd::ClearScreen).count(), 1);
    assert_eq!(trace.iter().filter(|c| **c == Cmd::ReadEvent).count(), 1);
}

#[test]
fn failure_stops_later_actions_and_returns_its_error() {
    let actions = vec![
        Action::Print(TypewriterPrint("ab".to_string(), 1)),
        Action::Print(TypewriterPrint("cd".to_string(), 1)),
    ];
    // Trace positions: 0 clear, 1 write 'a', 2 flush — fail the flush.
    let (trace, outcome) = drive_with_failure(actions, Vec::new(), 2, 7);
    assert_eq!(outcome, Some(7), "the error returned equals the failing command's error");
    assert_eq!(trace, vec![Cmd::ClearScreen, Cmd::WriteChar('a'), Cmd::Flush]);
    assert_eq!(chars_of(&trace), "a", "nothing of the later action is written");
    assert_eq!(trace.iter().filter(|c| **c == Cmd::ReadEvent).count(), 0);
}

#[test]
fn failure_while_raw_mode_is_on_releases_it_first() {
    let actions = vec![Action::Interaction(WaitForInteraction)];
    // Trace positions: 0 clear, 1 flush, 2 enable, 3 read — fail the read.
    let (trace, outcome) = drive_with_failure(actions, Vec::new(), 3, 9);
    assert_eq!(outcome, Some(9));
    assert_eq!(
        trace,
        vec![
            Cmd::ClearScreen,
            Cmd::Flush,
            Cmd::EnableRawMode,
            Cmd::ReadEvent,
            Cmd::DisableRawMode,
        ],
        "raw mode is released before the error is returned"
    );
}

#[test]
fn clear_screen_failure_aborts_the_slide() {
    let actions = vec![Action::Print(TypewriterPrint("abc".to_string(), 1))];
    let (trace, outcome) = drive_with_failure(actions, Vec::new(), 0, 3);
    assert_eq!(outcome, Some(3));
    assert_eq!(trace, vec![Cmd::ClearScreen]);
}

#[test]
fn styled_text_stripped_of_style_matches_plain_text() {
    let styled = vec![Action::PrintStyled(TypewriterPrintStyledContent(
        StyledText { text: "hi".to_string(), style: bold() },
        5,
    ))];
    let plain_actions = vec![Action::Print(TypewriterPrint("hi".to_string(), 5))];
    let (styled_trace, styled_outcome) = drive(styled, vec![InputEvent::Key(KeyCode::Enter)]);
    let (plain_trace, plain_outcome) = drive(plain_actions, vec![InputEvent::Key(KeyCode::Enter)]);
    assert_eq!(styled_outcome, None);
    assert_eq!(plain_outcome, None);
    assert_eq!(chars_of(&styled_trace), chars_of(&plain_trace));
    assert_eq!(chars_of(&styled_trace), "hi");
    // The style itself is carried on every styled write.
    let styles: Vec<TextStyle> = styled_trace
        .iter()
        .filter_map(|c| match c {
            Cmd::WriteStyledChar(_, s) => Some(*s),
            _ => None,
        })
        .collect();
    assert_eq!(styles, vec![bold(), bold()]);
}

#[test]
fn paced_slide_with_ready_keypress_runs_in_order() {
    let actions = vec![Action::Print(TypewriterPrint("hi".to_string(), 10))];
    let (trace, outcome) = drive(actions, vec![InputEvent::Key(KeyCode::Enter)]);
    assert_eq!(outcome, None);
    assert_eq!(
        trace,
        vec![
            Cmd::ClearScreen,
            Cmd::WriteChar('h'),
            Cmd::Flush,
            Cmd::EnableRawMode,
            Cmd::SleepMs(10),
            Cmd::DisableRawMode,
            Cmd::WriteChar('i'),
            Cmd::Flush,
            Cmd::EnableRawMode,
            Cmd::SleepMs(10),
            Cmd::DisableRawMode,
            Cmd::Flush,
            Cmd::EnableRawMode,
            Cmd::ReadEvent,
            Cmd::DisableRawMode,
        ]
    );
}

#[test]
fn wait_then_paced_text_blocks_at_least_the_sum_of_durations() {
    let actions = vec![
        Action::Pause(WaitFor(50)),
        Action::Print(TypewriterPrint("x".to_string(), 5)),
    ];
    let (trace, outcome) = drive(actions, vec![InputEvent::Key(KeyCode::Enter)]);
    assert_eq!(outcome, None);
    // Every sleep happens before the trailing wait's read.
    let read_at = trace.iter().position(|c| *c == Cmd::ReadEvent).expect("a trailing wait");
    let before: u64 = sleeps_of(&trace[..read_at]).iter().sum();
    assert!(before >= 55);
    assert_eq!(sleeps_of(&trace), vec![50, 5]);
}

#[test]
fn raw_passthrough_is_written_verbatim() {
    let actions = vec![Action::Raw(RawText("This will appear immediately.\n".to_string()))];
    let (trace, outcome) = drive(actions, vec![InputEvent::Key(KeyCode::Glyph(' '))]);
    assert_eq!(outcome, None);
    assert_eq!(trace[1], Cmd::WriteRaw("This will appear immediately.\n".to_string()));
}

#[test]
fn qualifying_keys_are_enter_right_and_space() {
    assert!(is_qualifying(KeyCode::Enter));
    assert!(is_qualifying(KeyCode::Right));
    assert!(is_qualifying(KeyCode::Glyph(' ')));
    assert!(!is_qualifying(KeyCode::Glyph('a')));
    assert!(!is_qualifying(KeyCode::Glyph('\n')));
    assert!(!is_qualifying(KeyCode::Other));
}

#[test]
fn failure_in_a_later_action_keeps_earlier_output() {
    let actions = vec![
        Action::Raw(RawText("ok".to_string())),
        Action::Print(TypewriterPrint("x".to_string(), 1)),
    ];
    // Trace positions: 0 clear, 1 raw write, 2 write 'x' — fail the write.
    let (trace, outcome) = drive_with_failure(actions, Vec::new(), 2, 5);
    assert_eq!(outcome, Some(5));
    assert_eq!(
        trace,
        vec![Cmd::ClearScreen, Cmd::WriteRaw("ok".to_string()), Cmd::WriteChar('x')]
    );
}

#[test]
fn two_interaction_waits_need_two_qualifying_keys() {
    let actions = vec![Action::Interaction(WaitForInteraction)];
    let events = vec![InputEvent::Key(KeyCode::Glyph(' ')), InputEvent::Key(KeyCode::Right)];
    let (trace, outcome) = drive(actions, events);
    assert_eq!(outcome, None);
    // The explicit wait and the trailing wait each read exactly once.
    assert_eq!(trace.iter().filter(|c| **c == Cmd::ReadEvent).count(), 2);
    assert_eq!(trace.iter().filter(|c| **c == Cmd::EnableRawMode).count(), 2);
    assert_eq!(trace.iter().filter(|c| **c == Cmd::DisableRawMode).count(), 2);
}

#[test]
fn run_script_replays_a_whole_slide() {
    let actions = vec![Action::Print(TypewriterPrint("x".to_string(), 2))];
    let replies = vec![
        Reply::Done,                                    // clear
        Reply::Done,                                    // write 'x'
        Reply::Done,                                    // flush
        Reply::Done,                                    // enable raw mode
        Reply::Done,                                    // sleep
        Reply::Done,                                    // disable raw mode
        Reply::Done,                                    // trailing flush
        Reply::Done,                                    // trailing enable
        Reply::Got(InputEvent::Key(KeyCode::Glyph(' '))), // the keypress
        Reply::Done,                                    // trailing disable
    ];
    let (trace, runner) = run_script(actions, &replies);
    assert!(runner.is_finished());
    assert_eq!(runner.outcome(), None);
    assert_eq!(trace.len(), 10);
    assert_eq!(chars_of(&trace), "x");
    assert!(matches!(runner.phase, Phase::Finished { error: None }));
}

#[test]
fn run_script_stops_at_the_first_failure() {
    let actions = vec![Action::Pause(WaitFor(50))];
    let replies = vec![
        Reply::Done,      // clear
        Reply::Done,      // flush
        Reply::Failed(11), // enable raw mode fails
    ];
    let (trace, runner) = run_script(actions, &replies);
    assert!(runner.is_finished());
    assert_eq!(runner.outcome(), Some(11));
    assert_eq!(trace, vec![Cmd::ClearScreen, Cmd::Flush, Cmd::EnableRawMode]);
}
