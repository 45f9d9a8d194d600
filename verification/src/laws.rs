//! The laws the engine obeys.
//!
//! A run of the engine is described by two spec functions over a sequence of
//! replies: [`run_cmds`], the trace of terminal commands the engine asks for,
//! and [`run_state`], where it ends up. The proof functions below state, over
//! those, what a slide run does: paced text writes every character in order
//! with one pause each, empty content is a no-op, an interaction wait ignores
//! every non-qualifying event, a failure short-circuits the rest of the slide,
//! a styled action's character stream equals the plain one's, and a slide
//! whose commands all succeed — every read answered by a qualifying key —
//! ends in success, with raw mode released.

use vstd::prelude::*;

use crate::actions::{Action, InputEvent, KeyCode, spec_is_qualifying};
use crate::engine::{
    Cmd, Phase, Reply, advance_paced, cmd_of, lemma_step_wf, paced_pos, pause_pos, phase_wf,
    start_phase, step,
};

verus! {

/// The trace of terminal commands a run asks for: starting from the given
/// state, each reply answers the command of the current phase, until the
/// replies run out or the slide is over.
pub open spec fn run_cmds(actions: Seq<Action>, raw: bool, phase: Phase, rs: Seq<Reply>) -> Seq<
    Cmd,
>
    decreases rs.len(),
{
    if rs.len() == 0 || phase is Finished {
        Seq::empty()
    } else {
        match cmd_of(actions, phase) {
            Some(c) => {
                let s = step(actions, raw, phase, rs[0]);
                seq![c] + run_cmds(actions, s.0, s.1, rs.skip(1))
            },
            None => Seq::empty(),
        }
    }
}

/// The raw-mode flag and phase a run ends in.
pub open spec fn run_state(actions: Seq<Action>, raw: bool, phase: Phase, rs: Seq<Reply>) -> (
    bool,
    Phase,
)
    decreases rs.len(),
{
    if rs.len() == 0 || phase is Finished || cmd_of(actions, phase) is None {
        (raw, phase)
    } else {
        let s = step(actions, raw, phase, rs[0]);
        run_state(actions, s.0, s.1, rs.skip(1))
    }
}

/// A reply sequence in which every command succeeds.
pub open spec fn all_done(n: nat) -> Seq<Reply> {
    Seq::new(n, |i: int| Reply::Done)
}

/// The character a command writes, if any — the rendered character stream
/// with style stripped.
pub open spec fn chars_of_cmd(c: Cmd) -> Seq<char> {
    match c {
        Cmd::WriteChar(ch) => seq![ch],
        Cmd::WriteStyledChar(ch, _) => seq![ch],
        _ => Seq::empty(),
    }
}

/// The characters a trace writes, in order, style stripped.
pub open spec fn chars_written(t: Seq<Cmd>) -> Seq<char>
    decreases t.len(),
{
    if t.len() == 0 {
        Seq::empty()
    } else {
        chars_of_cmd(t[0]) + chars_written(t.skip(1))
    }
}

/// The duration of a command's pause, if it is one.
pub open spec fn sleeps_of_cmd(c: Cmd) -> Seq<u64> {
    match c {
        Cmd::SleepMs(d) => seq![d],
        _ => Seq::empty(),
    }
}

/// The durations of the pauses a trace performs, in order.
pub open spec fn sleeps_of(t: Seq<Cmd>) -> Seq<u64>
    decreases t.len(),
{
    if t.len() == 0 {
        Seq::empty()
    } else {
        sleeps_of_cmd(t[0]) + sleeps_of(t.skip(1))
    }
}

/// Unfolds one step of a run.
proof fn lemma_run_unfold(actions: Seq<Action>, raw: bool, phase: Phase, rs: Seq<Reply>, c: Cmd)
    requires
        rs.len() > 0,
        !(phase is Finished),
        cmd_of(actions, phase) == Some(c),
    ensures
        ({
            let s = step(actions, raw, phase, rs[0]);
            run_cmds(actions, raw, phase, rs) == seq![c] + run_cmds(actions, s.0, s.1, rs.skip(1))
                && run_state(actions, raw, phase, rs) == run_state(actions, s.0, s.1, rs.skip(1))
        }),
{
}

/// Peels the head command off the characters and pauses of a trace.
proof fn lemma_extract_prepend(c: Cmd, t: Seq<Cmd>)
    ensures
        chars_written(seq![c] + t) == chars_of_cmd(c) + chars_written(t),
        sleeps_of(seq![c] + t) == sleeps_of_cmd(c) + sleeps_of(t),
{
    let u = seq![c] + t;
    assert(u[0] == c);
    assert(u.skip(1) =~= t);
}

/// Skipping consumed replies from an all-success script leaves an all-success
/// script.
proof fn lemma_all_done_skip(n: nat, j: nat)
    requires
        j <= n,
    ensures
        all_done(n).skip(j as int) == all_done((n - j) as nat),
{
    assert(all_done(n).skip(j as int) =~= all_done((n - j) as nat));
}

/// A finished slide stays finished and asks for nothing more.
pub proof fn lemma_finished_absorbs(actions: Seq<Action>, raw: bool, e: Option<u64>, rs: Seq<Reply>)
    ensures
        run_cmds(actions, raw, Phase::Finished { error: e }, rs) == Seq::<Cmd>::empty(),
        run_state(actions, raw, Phase::Finished { error: e }, rs) == (
            raw,
            Phase::Finished { error: e },
        ),
{
}

/// Law: every run from a well-formed state ends in a well-formed state — in
/// particular, a run that ends in success has released raw mode.
pub proof fn lemma_run_preserves_wf(actions: Seq<Action>, raw: bool, phase: Phase, rs: Seq<Reply>)
    requires
        phase_wf(actions, raw, phase),
        actions.len() <= usize::MAX,
    ensures
        phase_wf(actions, run_state(actions, raw, phase, rs).0, run_state(actions, raw, phase, rs).1),
        run_state(actions, raw, phase, rs).1 == (Phase::Finished { error: None::<u64> })
            ==> run_state(actions, raw, phase, rs).0 == false,
    decreases rs.len(),
{
    if rs.len() == 0 || phase is Finished || cmd_of(actions, phase) is None {
    } else {
        lemma_step_wf(actions, raw, phase, rs[0]);
        let s = step(actions, raw, phase, rs[0]);
        lemma_run_preserves_wf(actions, s.0, s.1, rs.skip(1));
    }
}

/// A run over concatenated reply scripts is the run over the first script,
/// continued over the second from where it left off.
pub proof fn lemma_run_state_append(
    actions: Seq<Action>,
    raw: bool,
    phase: Phase,
    rs1: Seq<Reply>,
    rs2: Seq<Reply>,
)
    ensures
        run_state(actions, raw, phase, rs1 + rs2) == run_state(
            actions,
            run_state(actions, raw, phase, rs1).0,
            run_state(actions, raw, phase, rs1).1,
            rs2,
        ),
    decreases rs1.len(),
{
    if rs1.len() == 0 {
        assert(rs1 + rs2 =~= rs2);
    } else if phase is Finished || cmd_of(actions, phase) is None {
    } else {
        assert((rs1 + rs2)[0] == rs1[0]);
        assert((rs1 + rs2).skip(1) =~= rs1.skip(1) + rs2);
        let s = step(actions, raw, phase, rs1[0]);
        lemma_run_state_append(actions, s.0, s.1, rs1.skip(1), rs2);
    }
}

/// A run's trace over concatenated reply scripts is the trace over the first
/// script followed by the trace over the second from where the first left
/// off.
pub proof fn lemma_run_cmds_append(
    actions: Seq<Action>,
    raw: bool,
    phase: Phase,
    rs1: Seq<Reply>,
    rs2: Seq<Reply>,
)
    ensures
        run_cmds(actions, raw, phase, rs1 + rs2) == run_cmds(actions, raw, phase, rs1) + run_cmds(
            actions,
            run_state(actions, raw, phase, rs1).0,
            run_state(actions, raw, phase, rs1).1,
            rs2,
        ),
    decreases rs1.len(),
{
    if rs1.len() == 0 {
        assert(rs1 + rs2 =~= rs2);
        assert(run_cmds(actions, raw, phase, rs1) + run_cmds(actions, raw, phase, rs2) =~= run_cmds(
            actions,
            raw,
            phase,
            rs2,
        ));
    } else if phase is Finished || cmd_of(actions, phase) is None {
        assert(run_cmds(actions, raw, phase, rs1 + rs2) =~= Seq::<Cmd>::empty());
        assert(run_cmds(actions, raw, phase, rs1) + run_cmds(actions, raw, phase, rs2) =~= Seq::<
            Cmd,
        >::empty());
    } else {
        assert((rs1 + rs2)[0] == rs1[0]);
        assert((rs1 + rs2).skip(1) =~= rs1.skip(1) + rs2);
        let s = step(actions, raw, phase, rs1[0]);
        let c = cmd_of(actions, phase)->Some_0;
        lemma_run_cmds_append(actions, s.0, s.1, rs1.skip(1), rs2);
        lemma_run_state_append(actions, raw, phase, rs1, rs2);
        assert(run_state(actions, raw, phase, rs1) == run_state(actions, s.0, s.1, rs1.skip(1)));
        let mid = run_state(actions, raw, phase, rs1);
        assert((seq![c] + run_cmds(actions, s.0, s.1, rs1.skip(1))) + run_cmds(
            actions,
            mid.0,
            mid.1,
            rs2,
        ) =~= seq![c] + (run_cmds(actions, s.0, s.1, rs1.skip(1)) + run_cmds(
            actions,
            mid.0,
            mid.1,
            rs2,
        )));
    }
}

/// The per-character command cycle of a paced action, from the phase that
/// writes character `k` to the end of the action, when every command
/// succeeds.
proof fn lemma_paced_run(actions: Seq<Action>, idx: usize, k: usize)
    requires
        paced_pos(actions, idx, k),
        actions.len() <= usize::MAX,
        actions[idx as int].content().len() <= usize::MAX,
    ensures
        ({
            let a = actions[idx as int];
            let n = a.content().len();
            let rs = all_done((5 * (n - k)) as nat);
            let t = run_cmds(actions, false, Phase::PacedWrite { idx, k }, rs);
            chars_written(t) == a.content().skip(k as int)
                && sleeps_of(t) == Seq::new((n - k) as nat, |i: int| a.interval_ms())
                && run_state(actions, false, Phase::PacedWrite { idx, k }, rs) == (
                false,
                start_phase(actions, idx + 1),
            )
        }),
    decreases actions[idx as int].content().len() - k,
{
    let a = actions[idx as int];
    let n = a.content().len();
    let m = (5 * (n - k)) as nat;
    let rs = all_done(m);
    let c1 = cmd_of(actions, Phase::PacedWrite { idx, k });
    assert(c1 is Some);
    let w = c1->Some_0;

    lemma_all_done_skip(m, 1);
    lemma_all_done_skip((m - 1) as nat, 1);
    lemma_all_done_skip((m - 2) as nat, 1);
    lemma_all_done_skip((m - 3) as nat, 1);
    lemma_all_done_skip((m - 4) as nat, 1);

    lemma_run_unfold(actions, false, Phase::PacedWrite { idx, k }, all_done(m), w);
    lemma_run_unfold(
        actions,
        false,
        Phase::PacedFlush { idx, k },
        all_done((m - 1) as nat),
        Cmd::Flush,
    );
    lemma_run_unfold(
        actions,
        false,
        Phase::PacedEnable { idx, k },
        all_done((m - 2) as nat),
        Cmd::EnableRawMode,
    );
    lemma_run_unfold(
        actions,
        true,
        Phase::PacedSleep { idx, k },
        all_done((m - 3) as nat),
        Cmd::SleepMs(a.interval_ms()),
    );
    lemma_run_unfold(
        actions,
        true,
        Phase::PacedDisable { idx, k },
        all_done((m - 4) as nat),
        Cmd::DisableRawMode,
    );

    let rest = run_cmds(
        actions,
        false,
        advance_paced(actions, idx, k),
        all_done((m - 5) as nat),
    );
    let t = run_cmds(actions, false, Phase::PacedWrite { idx, k }, rs);
    assert(t == seq![w] + (seq![Cmd::Flush] + (seq![Cmd::EnableRawMode] + (seq![
        Cmd::SleepMs(a.interval_ms()),
    ] + (seq![Cmd::DisableRawMode] + rest)))));

    if k + 1 < n {
        lemma_paced_run(actions, idx, (k + 1) as usize);
    } else {
        assert(advance_paced(actions, idx, k) == start_phase(actions, idx + 1));
        assert(rest =~= Seq::<Cmd>::empty());
        assert(chars_written(rest) =~= Seq::<char>::empty());
        assert(sleeps_of(rest) =~= Seq::<u64>::empty());
    }

    lemma_extract_prepend(Cmd::DisableRawMode, rest);
    lemma_extract_prepend(Cmd::SleepMs(a.interval_ms()), seq![Cmd::DisableRawMode] + rest);
    lemma_extract_prepend(
        Cmd::EnableRawMode,
        seq![Cmd::SleepMs(a.interval_ms())] + (seq![Cmd::DisableRawMode] + rest),
    );
    lemma_extract_prepend(
        Cmd::Flush,
        seq![Cmd::EnableRawMode] + (seq![Cmd::SleepMs(a.interval_ms())] + (seq![
            Cmd::DisableRawMode,
        ] + rest)),
    );
    lemma_extract_prepend(
        w,
        seq![Cmd::Flush] + (seq![Cmd::EnableRawMode] + (seq![Cmd::SleepMs(a.interval_ms())] + (seq![
            Cmd::DisableRawMode,
        ] + rest))),
    );

    assert(chars_of_cmd(w) == seq![a.content()[k as int]]);
    assert(chars_written(t) =~= a.content().skip(k as int));
    assert(sleeps_of(t) =~= Seq::new((n - k) as nat, |i: int| a.interval_ms()));
}

/// Law: a paced action of `n > 0` characters, run with every command
/// succeeding, writes exactly its `n` characters in their original order,
/// pauses exactly `n` times for its configured interval, and completes: the
/// engine moves on to the next action, with raw mode released.
pub proof fn lemma_paced_text_renders_all(actions: Seq<Action>, idx: usize)
    requires
        idx < actions.len(),
        actions[idx as int].is_paced(),
        actions[idx as int].content().len() > 0,
        actions.len() <= usize::MAX,
        actions[idx as int].content().len() <= usize::MAX,
    ensures
        ({
            let a = actions[idx as int];
            let n = a.content().len();
            let t = run_cmds(actions, false, Phase::PacedWrite { idx, k: 0 }, all_done(5 * n));
            start_phase(actions, idx as int) == (Phase::PacedWrite { idx, k: 0 })
                && chars_written(t) == a.content()
                && sleeps_of(t) == Seq::new(n, |i: int| a.interval_ms())
                && run_state(actions, false, Phase::PacedWrite { idx, k: 0 }, all_done(5 * n)) == (
                false,
                start_phase(actions, idx + 1),
            )
        }),
{
    lemma_paced_run(actions, idx, 0);
    let a = actions[idx as int];
    assert(a.content().skip(0) =~= a.content());
}

/// Law: a paced action with empty content is a no-op that still succeeds: the
/// engine skips it outright, so it contributes no command — no write and no
/// pause — to any run.
pub proof fn lemma_empty_paced_no_op(actions: Seq<Action>, idx: usize)
    requires
        idx < actions.len(),
        actions[idx as int].is_paced(),
        actions[idx as int].content().len() == 0,
    ensures
        start_phase(actions, idx as int) == start_phase(actions, idx + 1),
{
}

/// A reply that does not satisfy a wait for interaction: a non-qualifying key
/// press or a non-key event.
pub open spec fn non_qualifying(r: Reply) -> bool {
    match r {
        Reply::Got(InputEvent::Key(k)) => !spec_is_qualifying(k),
        Reply::Got(InputEvent::Other) => true,
        _ => false,
    }
}

/// Law: a wait for interaction ignores any finite sequence of non-qualifying
/// events: the engine keeps reading — the trace is one read per event — and
/// never returns early.
pub proof fn lemma_wait_ignores_non_qualifying(
    actions: Seq<Action>,
    idx: usize,
    rs: Seq<Reply>,
)
    requires
        forall|i: int| 0 <= i < rs.len() ==> non_qualifying(#[trigger] rs[i]),
    ensures
        run_state(actions, true, Phase::AwaitingRead { idx }, rs) == (
            true,
            Phase::AwaitingRead { idx },
        ),
        run_cmds(actions, true, Phase::AwaitingRead { idx }, rs) == Seq::new(
            rs.len(),
            |i: int| Cmd::ReadEvent,
        ),
    decreases rs.len(),
{
    if rs.len() == 0 {
        assert(run_cmds(actions, true, Phase::AwaitingRead { idx }, rs) =~= Seq::new(
            rs.len(),
            |i: int| Cmd::ReadEvent,
        ));
    } else {
        assert(step(actions, true, Phase::AwaitingRead { idx }, rs[0]) == (
            true,
            Phase::AwaitingRead { idx },
        ));
        lemma_wait_ignores_non_qualifying(actions, idx, rs.skip(1));
        assert(run_cmds(actions, true, Phase::AwaitingRead { idx }, rs) =~= Seq::new(
            rs.len(),
            |i: int| Cmd::ReadEvent,
        ));
    }
}

/// Law: a qualifying key press — Enter, the right arrow, or space — ends the
/// read loop: the engine moves on to releasing raw mode.
pub proof fn lemma_wait_ends_on_qualifying(actions: Seq<Action>, idx: usize, k: KeyCode)
    requires
        spec_is_qualifying(k),
    ensures
        step(actions, true, Phase::AwaitingRead { idx }, Reply::Got(InputEvent::Key(k))) == (
            true,
            Phase::AwaitingDisable { idx },
        ),
{
}

/// Law: a slide with no actions still clears the screen and performs exactly
/// one trailing interaction wait, then succeeds: its whole trace is the clear,
/// the wait's flush, the raw-mode acquire, one event read answered by a
/// qualifying key, and the raw-mode release.
pub proof fn lemma_empty_slide_run(k: KeyCode)
    requires
        spec_is_qualifying(k),
    ensures
        ({
            let actions = Seq::<Action>::empty();
            let rs = seq![
                Reply::Done,
                Reply::Done,
                Reply::Done,
                Reply::Got(InputEvent::Key(k)),
                Reply::Done,
            ];
            run_cmds(actions, false, Phase::Clearing, rs) == seq![
                Cmd::ClearScreen,
                Cmd::Flush,
                Cmd::EnableRawMode,
                Cmd::ReadEvent,
                Cmd::DisableRawMode,
            ]
                && run_state(actions, false, Phase::Clearing, rs) == (
                false,
                Phase::Finished { error: None::<u64> },
            )
        }),
{
    let actions = Seq::<Action>::empty();
    let rs = seq![
        Reply::Done,
        Reply::Done,
        Reply::Done,
        Reply::Got(InputEvent::Key(k)),
        Reply::Done,
    ];
    lemma_run_unfold(actions, false, Phase::Clearing, rs, Cmd::ClearScreen);
    assert(start_phase(actions, 0) == (Phase::AwaitingFlush { idx: 0 }));
    assert(rs.skip(1) =~= seq![Reply::Done, Reply::Done, Reply::Got(InputEvent::Key(k)), Reply::Done]);
    lemma_run_unfold(actions, false, Phase::AwaitingFlush { idx: 0 }, rs.skip(1), Cmd::Flush);
    assert(rs.skip(1).skip(1) =~= seq![Reply::Done, Reply::Got(InputEvent::Key(k)), Reply::Done]);
    lemma_run_unfold(
        actions,
        false,
        Phase::AwaitingEnable { idx: 0 },
        rs.skip(1).skip(1),
        Cmd::EnableRawMode,
    );
    assert(rs.skip(1).skip(1).skip(1) =~= seq![Reply::Got(InputEvent::Key(k)), Reply::Done]);
    lemma_run_unfold(
        actions,
        true,
        Phase::AwaitingRead { idx: 0 },
        rs.skip(1).skip(1).skip(1),
        Cmd::ReadEvent,
    );
    assert(rs.skip(1).skip(1).skip(1).skip(1) =~= seq![Reply::Done]);
    lemma_run_unfold(
        actions,
        true,
        Phase::AwaitingDisable { idx: 0 },
        rs.skip(1).skip(1).skip(1).skip(1),
        Cmd::DisableRawMode,
    );
    assert(rs.skip(1).skip(1).skip(1).skip(1).skip(1) =~= Seq::<Reply>::empty());
    assert(run_cmds(actions, false, Phase::Clearing, rs) =~= seq![
        Cmd::ClearScreen,
        Cmd::Flush,
        Cmd::EnableRawMode,
        Cmd::ReadEvent,
        Cmd::DisableRawMode,
    ]);
}

/// Law: the first failure short-circuits the slide. After a command of any
/// action fails with code `e`, the engine emits at most one more command — the
/// raw-mode release, if raw mode was on — and nothing else: no later action's
/// work and no trailing wait. As soon as that release (if any) is answered,
/// the run is finished with exactly the error `e`.
pub proof fn lemma_failure_short_circuits(
    actions: Seq<Action>,
    raw: bool,
    phase: Phase,
    e: u64,
    rs: Seq<Reply>,
)
    requires
        phase_wf(actions, raw, phase),
        !(phase is Finished),
        !(phase is Cleanup),
        forall|i: int| 0 <= i < rs.len() ==> !(#[trigger] rs[i] is Got),
    ensures
        ({
            let s = step(actions, raw, phase, Reply::Failed(e));
            let t = run_cmds(actions, s.0, s.1, rs);
            (forall|i: int| 0 <= i < t.len() ==> t[i] == Cmd::DisableRawMode) && t.len() <= 1 && (
            rs.len() >= 1 ==> run_state(actions, s.0, s.1, rs).1 == (Phase::Finished {
                error: Some(e),
            }))
        }),
{
    let s = step(actions, raw, phase, Reply::Failed(e));
    if s.1 == (Phase::Cleanup { code: e }) {
        if rs.len() > 0 {
            lemma_run_unfold(actions, s.0, s.1, rs, Cmd::DisableRawMode);
            let s2 = step(actions, s.0, s.1, rs[0]);
            assert(s2.1 == (Phase::Finished { error: Some(e) }));
            lemma_finished_absorbs(actions, s2.0, Some(e), rs.skip(1));
            assert(run_cmds(actions, s.0, s.1, rs) =~= seq![Cmd::DisableRawMode]);
        }
    } else {
        assert(s.1 == (Phase::Finished { error: Some(e) }));
        lemma_finished_absorbs(actions, s.0, Some(e), rs);
    }
}

/// Law: style strips away — a styled paced action and a plain paced action
/// over the same text render the same character stream: stripped of style,
/// both write exactly that text, in order.
pub proof fn lemma_styled_strips_to_plain(
    styled_slide: Seq<Action>,
    styled_idx: usize,
    plain_slide: Seq<Action>,
    plain_idx: usize,
)
    requires
        styled_idx < styled_slide.len(),
        plain_idx < plain_slide.len(),
        styled_slide[styled_idx as int] is PrintStyled,
        plain_slide[plain_idx as int] is Print,
        styled_slide[styled_idx as int].content() == plain_slide[plain_idx as int].content(),
        styled_slide[styled_idx as int].content().len() > 0,
        styled_slide.len() <= usize::MAX,
        plain_slide.len() <= usize::MAX,
        styled_slide[styled_idx as int].content().len() <= usize::MAX,
    ensures
        ({
            let n = styled_slide[styled_idx as int].content().len();
            let styled_t = run_cmds(
                styled_slide,
                false,
                Phase::PacedWrite { idx: styled_idx, k: 0 },
                all_done(5 * n),
            );
            let plain_t = run_cmds(
                plain_slide,
                false,
                Phase::PacedWrite { idx: plain_idx, k: 0 },
                all_done(5 * n),
            );
            chars_written(styled_t) == chars_written(plain_t) && chars_written(plain_t)
                == plain_slide[plain_idx as int].content()
        }),
{
    lemma_paced_text_renders_all(styled_slide, styled_idx);
    lemma_paced_text_renders_all(plain_slide, plain_idx);
}

/// A timed wait, run with every command succeeding, flushes, holds raw mode
/// around exactly one pause of its configured duration, and completes.
pub proof fn lemma_timed_wait_run(actions: Seq<Action>, idx: usize)
    requires
        pause_pos(actions, idx),
    ensures
        run_cmds(actions, false, Phase::PauseFlush { idx }, all_done(4)) == seq![
            Cmd::Flush,
            Cmd::EnableRawMode,
            Cmd::SleepMs(actions[idx as int].interval_ms()),
            Cmd::DisableRawMode,
        ],
        run_state(actions, false, Phase::PauseFlush { idx }, all_done(4)) == (
            false,
            start_phase(actions, idx + 1),
        ),
{
    lemma_all_done_skip(4, 1);
    lemma_all_done_skip(3, 1);
    lemma_all_done_skip(2, 1);
    lemma_all_done_skip(1, 1);
    lemma_run_unfold(actions, false, Phase::PauseFlush { idx }, all_done(4), Cmd::Flush);
    lemma_run_unfold(
        actions,
        false,
        Phase::PauseEnable { idx },
        all_done(3),
        Cmd::EnableRawMode,
    );
    lemma_run_unfold(
        actions,
        true,
        Phase::PauseSleep { idx },
        all_done(2),
        Cmd::SleepMs(actions[idx as int].interval_ms()),
    );
    lemma_run_unfold(
        actions,
        true,
        Phase::PauseDisable { idx },
        all_done(1),
        Cmd::DisableRawMode,
    );
    assert(run_cmds(actions, false, Phase::PauseFlush { idx }, all_done(4)) =~= seq![
        Cmd::Flush,
        Cmd::EnableRawMode,
        Cmd::SleepMs(actions[idx as int].interval_ms()),
        Cmd::DisableRawMode,
    ]);
}

/// The reply script that satisfies one interaction wait at once: every
/// command succeeds and the one read yields the key `k`.
pub open spec fn interaction_replies(k: KeyCode) -> Seq<Reply> {
    seq![Reply::Done, Reply::Done, Reply::Got(InputEvent::Key(k)), Reply::Done]
}

/// An interaction wait, run with every command succeeding and its read
/// answered by a qualifying key, flushes, holds raw mode around exactly one
/// read, and completes.
pub proof fn lemma_interaction_run(actions: Seq<Action>, idx: usize, k: KeyCode)
    requires
        spec_is_qualifying(k),
    ensures
        run_cmds(actions, false, Phase::AwaitingFlush { idx }, interaction_replies(k)) == seq![
            Cmd::Flush,
            Cmd::EnableRawMode,
            Cmd::ReadEvent,
            Cmd::DisableRawMode,
        ],
        run_state(actions, false, Phase::AwaitingFlush { idx }, interaction_replies(k)) == (
            false,
            crate::engine::advance_awaiting(actions, idx),
        ),
{
    let rs = interaction_replies(k);
    lemma_run_unfold(actions, false, Phase::AwaitingFlush { idx }, rs, Cmd::Flush);
    assert(rs.skip(1) =~= seq![Reply::Done, Reply::Got(InputEvent::Key(k)), Reply::Done]);
    lemma_run_unfold(
        actions,
        false,
        Phase::AwaitingEnable { idx },
        rs.skip(1),
        Cmd::EnableRawMode,
    );
    assert(rs.skip(1).skip(1) =~= seq![Reply::Got(InputEvent::Key(k)), Reply::Done]);
    lemma_run_unfold(actions, true, Phase::AwaitingRead { idx }, rs.skip(1).skip(1), Cmd::ReadEvent);
    assert(rs.skip(1).skip(1).skip(1) =~= seq![Reply::Done]);
    lemma_run_unfold(
        actions,
        true,
        Phase::AwaitingDisable { idx },
        rs.skip(1).skip(1).skip(1),
        Cmd::DisableRawMode,
    );
    assert(rs.skip(1).skip(1).skip(1).skip(1) =~= Seq::<Reply>::empty());
    assert(run_cmds(actions, false, Phase::AwaitingFlush { idx }, rs) =~= seq![
        Cmd::Flush,
        Cmd::EnableRawMode,
        Cmd::ReadEvent,
        Cmd::DisableRawMode,
    ]);
}

/// A passthrough action, run with its one write succeeding, writes its text
/// verbatim and completes.
pub proof fn lemma_passthrough_run(actions: Seq<Action>, idx: usize)
    requires
        crate::engine::raw_write_pos(actions, idx),
    ensures
        ({
            let text = match actions[idx as int] {
                Action::Raw(r) => r.0,
                _ => arbitrary(),
            };
            run_cmds(actions, false, Phase::RawWrite { idx }, all_done(1)) == seq![
                Cmd::WriteRaw(text),
            ] && run_state(actions, false, Phase::RawWrite { idx }, all_done(1)) == (
                false,
                start_phase(actions, idx + 1),
            )
        }),
{
    let text = match actions[idx as int] {
        Action::Raw(r) => r.0,
        _ => arbitrary(),
    };
    lemma_run_unfold(actions, false, Phase::RawWrite { idx }, all_done(1), Cmd::WriteRaw(text));
    lemma_all_done_skip(1, 1);
    assert(run_cmds(actions, false, Phase::RawWrite { idx }, all_done(1)) =~= seq![
        Cmd::WriteRaw(text),
    ]);
}

/// The reply script of one action's happy path: every command succeeds, and
/// an interaction wait's read yields the key `k`.
pub open spec fn action_replies(a: Action, k: KeyCode) -> Seq<Reply> {
    match a {
        Action::Print(_) => all_done(5 * a.content().len()),
        Action::PrintStyled(_) => all_done(5 * a.content().len()),
        Action::Pause(_) => all_done(4),
        Action::Interaction(_) => interaction_replies(k),
        Action::Raw(_) => all_done(1),
    }
}

/// The happy-path reply script of the slide's tail from action `i` on,
/// including the trailing wait for interaction.
pub open spec fn tail_replies(actions: Seq<Action>, i: int, k: KeyCode) -> Seq<Reply>
    decreases actions.len() - i,
{
    if i >= actions.len() {
        interaction_replies(k)
    } else {
        action_replies(actions[i], k) + tail_replies(actions, i + 1, k)
    }
}

/// The happy-path reply script of a whole slide: the clear succeeds, every
/// action's commands succeed, and every read yields the qualifying key `k`.
pub open spec fn slide_replies(actions: Seq<Action>, k: KeyCode) -> Seq<Reply> {
    seq![Reply::Done] + tail_replies(actions, 0, k)
}

/// The slide's tail from action `i` on, run over its happy-path script, ends
/// in success with raw mode released.
proof fn lemma_tail_runs_to_success(actions: Seq<Action>, i: int, k: KeyCode)
    requires
        0 <= i <= actions.len(),
        spec_is_qualifying(k),
        actions.len() <= usize::MAX,
        forall|j: int|
            0 <= j < actions.len() ==> (#[trigger] actions[j]).content().len() <= usize::MAX,
    ensures
        run_state(actions, false, start_phase(actions, i), tail_replies(actions, i, k)) == (
            false,
            Phase::Finished { error: None::<u64> },
        ),
    decreases actions.len() - i,
{
    if i >= actions.len() {
        lemma_interaction_run(actions, i as usize, k);
        assert(crate::engine::advance_awaiting(actions, i as usize) == (Phase::Finished {
            error: None::<u64>,
        }));
    } else {
        let a = actions[i];
        let rest = tail_replies(actions, i + 1, k);
        match a {
            Action::Print(_) | Action::PrintStyled(_) => {
                if a.content().len() == 0 {
                    assert(action_replies(a, k) =~= Seq::<Reply>::empty());
                    assert(action_replies(a, k) + rest =~= rest);
                    lemma_tail_runs_to_success(actions, i + 1, k);
                } else {
                    lemma_paced_text_renders_all(actions, i as usize);
                    assert(all_done(5 * a.content().len()) == action_replies(a, k));
                    lemma_run_state_append(
                        actions,
                        false,
                        Phase::PacedWrite { idx: i as usize, k: 0 },
                        action_replies(a, k),
                        rest,
                    );
                    lemma_tail_runs_to_success(actions, i + 1, k);
                }
            },
            Action::Pause(_) => {
                lemma_timed_wait_run(actions, i as usize);
                lemma_run_state_append(
                    actions,
                    false,
                    Phase::PauseFlush { idx: i as usize },
                    action_replies(a, k),
                    rest,
                );
                lemma_tail_runs_to_success(actions, i + 1, k);
            },
            Action::Interaction(_) => {
                lemma_interaction_run(actions, i as usize, k);
                lemma_run_state_append(
                    actions,
                    false,
                    Phase::AwaitingFlush { idx: i as usize },
                    action_replies(a, k),
                    rest,
                );
                lemma_tail_runs_to_success(actions, i + 1, k);
            },
            Action::Raw(_) => {
                lemma_passthrough_run(actions, i as usize);
                lemma_run_state_append(
                    actions,
                    false,
                    Phase::RawWrite { idx: i as usize },
                    action_replies(a, k),
                    rest,
                );
                lemma_tail_runs_to_success(actions, i + 1, k);
            },
        }
    }
}

/// Law: success is owed. Whatever the slide holds, when the clear and every
/// action's commands succeed and every interaction read — including the
/// trailing wait's — yields a qualifying key, the run ends in success, with
/// raw mode released.
pub proof fn lemma_slide_succeeds(actions: Seq<Action>, k: KeyCode)
    requires
        spec_is_qualifying(k),
        actions.len() <= usize::MAX,
        forall|j: int|
            0 <= j < actions.len() ==> (#[trigger] actions[j]).content().len() <= usize::MAX,
    ensures
        run_state(actions, false, Phase::Clearing, slide_replies(actions, k)) == (
            false,
            Phase::Finished { error: None::<u64> },
        ),
{
    let rs = slide_replies(actions, k);
    assert(rs[0] == Reply::Done);
    assert(rs.skip(1) =~= tail_replies(actions, 0, k));
    lemma_tail_runs_to_success(actions, 0, k);
}

/// The text a slide's tail from action `i` on types out: the concatenated
/// contents of its paced actions, in order.
pub open spec fn slide_text(actions: Seq<Action>, i: int) -> Seq<char>
    decreases actions.len() - i,
{
    if i >= actions.len() {
        Seq::empty()
    } else {
        actions[i].content() + slide_text(actions, i + 1)
    }
}

/// A trace without write commands writes no characters.
proof fn lemma_no_chars(t: Seq<Cmd>)
    requires
        forall|i: int|
            0 <= i < t.len() ==> !((#[trigger] t[i]) is WriteChar) && !(t[i] is WriteStyledChar),
    ensures
        chars_written(t) == Seq::<char>::empty(),
    decreases t.len(),
{
    if t.len() > 0 {
        lemma_no_chars(t.skip(1));
        assert(chars_written(t) =~= Seq::<char>::empty());
    }
}

/// Characters distribute over concatenated traces.
proof fn lemma_chars_written_append(t1: Seq<Cmd>, t2: Seq<Cmd>)
    ensures
        chars_written(t1 + t2) == chars_written(t1) + chars_written(t2),
    decreases t1.len(),
{
    if t1.len() == 0 {
        assert(t1 + t2 =~= t2);
        assert(chars_written(t1) + chars_written(t2) =~= chars_written(t2));
    } else {
        assert((t1 + t2)[0] == t1[0]);
        assert((t1 + t2).skip(1) =~= t1.skip(1) + t2);
        lemma_chars_written_append(t1.skip(1), t2);
        assert(chars_written(t1) + chars_written(t2) =~= chars_of_cmd(t1[0]) + (chars_written(
            t1.skip(1),
        ) + chars_written(t2)));
    }
}

/// The tail of a happy-path run writes exactly the tail's text.
proof fn lemma_tail_writes_its_text(actions: Seq<Action>, i: int, k: KeyCode)
    requires
        0 <= i <= actions.len(),
        spec_is_qualifying(k),
        actions.len() <= usize::MAX,
        forall|j: int|
            0 <= j < actions.len() ==> (#[trigger] actions[j]).content().len() <= usize::MAX,
    ensures
        chars_written(
            run_cmds(actions, false, start_phase(actions, i), tail_replies(actions, i, k)),
        ) == slide_text(actions, i),
    decreases actions.len() - i,
{
    if i >= actions.len() {
        lemma_interaction_run(actions, i as usize, k);
        lemma_no_chars(
            run_cmds(actions, false, start_phase(actions, i), tail_replies(actions, i, k)),
        );
        assert(slide_text(actions, i) =~= Seq::<char>::empty());
    } else {
        let a = actions[i];
        let rest = tail_replies(actions, i + 1, k);
        let ph = start_phase(actions, i);
        if a.is_paced() && a.content().len() == 0 {
            assert(action_replies(a, k) =~= Seq::<Reply>::empty());
            assert(action_replies(a, k) + rest =~= rest);
            lemma_tail_writes_its_text(actions, i + 1, k);
            assert(a.content() + slide_text(actions, i + 1) =~= slide_text(actions, i + 1));
        } else {
            // The action completes on its own script and the run continues.
            match a {
                Action::Print(_) | Action::PrintStyled(_) => {
                    lemma_paced_text_renders_all(actions, i as usize);
                },
                Action::Pause(_) => {
                    lemma_timed_wait_run(actions, i as usize);
                    lemma_no_chars(run_cmds(actions, false, ph, action_replies(a, k)));
                },
                Action::Interaction(_) => {
                    lemma_interaction_run(actions, i as usize, k);
                    lemma_no_chars(run_cmds(actions, false, ph, action_replies(a, k)));
                },
                Action::Raw(_) => {
                    lemma_passthrough_run(actions, i as usize);
                    lemma_no_chars(run_cmds(actions, false, ph, action_replies(a, k)));
                },
            }
            lemma_run_cmds_append(actions, false, ph, action_replies(a, k), rest);
            lemma_run_state_append(actions, false, ph, action_replies(a, k), rest);
            lemma_chars_written_append(
                run_cmds(actions, false, ph, action_replies(a, k)),
                run_cmds(actions, false, start_phase(actions, i + 1), rest),
            );
            lemma_tail_writes_its_text(actions, i + 1, k);
            assert(chars_written(run_cmds(actions, false, ph, action_replies(a, k)))
                == a.content());
        }
    }
}

/// Law: a successful slide types exactly its text. Over the happy-path
/// script, the whole run's character stream — style stripped — is the
/// concatenation of the slide's paced contents, in their order.
pub proof fn lemma_slide_writes_its_text(actions: Seq<Action>, k: KeyCode)
    requires
        spec_is_qualifying(k),
        actions.len() <= usize::MAX,
        forall|j: int|
            0 <= j < actions.len() ==> (#[trigger] actions[j]).content().len() <= usize::MAX,
    ensures
        chars_written(run_cmds(actions, false, Phase::Clearing, slide_replies(actions, k)))
            == slide_text(actions, 0),
{
    let rs = slide_replies(actions, k);
    assert(rs[0] == Reply::Done);
    assert(rs.skip(1) =~= tail_replies(actions, 0, k));
    lemma_run_unfold(actions, false, Phase::Clearing, rs, Cmd::ClearScreen);
    lemma_tail_writes_its_text(actions, 0, k);
    lemma_extract_prepend(
        Cmd::ClearScreen,
        run_cmds(actions, false, start_phase(actions, 0), tail_replies(actions, 0, k)),
    );
    assert(Seq::<char>::empty() + slide_text(actions, 0) =~= slide_text(actions, 0));
}

/// The pauses one action performs: one per character for paced content, the
/// one configured pause of a timed wait, none otherwise.
pub open spec fn action_sleeps(a: Action) -> Seq<u64> {
    match a {
        Action::Print(_) => Seq::new(a.content().len(), |i: int| a.interval_ms()),
        Action::PrintStyled(_) => Seq::new(a.content().len(), |i: int| a.interval_ms()),
        Action::Pause(_) => seq![a.interval_ms()],
        Action::Interaction(_) => Seq::empty(),
        Action::Raw(_) => Seq::empty(),
    }
}

/// The pauses a slide's tail from action `i` on performs, in order.
pub open spec fn slide_sleeps(actions: Seq<Action>, i: int) -> Seq<u64>
    decreases actions.len() - i,
{
    if i >= actions.len() {
        Seq::empty()
    } else {
        action_sleeps(actions[i]) + slide_sleeps(actions, i + 1)
    }
}

/// A trace without pause commands performs no pause.
proof fn lemma_no_sleeps(t: Seq<Cmd>)
    requires
        forall|i: int| 0 <= i < t.len() ==> !((#[trigger] t[i]) is SleepMs),
    ensures
        sleeps_of(t) == Seq::<u64>::empty(),
    decreases t.len(),
{
    if t.len() > 0 {
        lemma_no_sleeps(t.skip(1));
        assert(sleeps_of(t) =~= Seq::<u64>::empty());
    }
}

/// Pauses distribute over concatenated traces.
proof fn lemma_sleeps_of_append(t1: Seq<Cmd>, t2: Seq<Cmd>)
    ensures
        sleeps_of(t1 + t2) == sleeps_of(t1) + sleeps_of(t2),
    decreases t1.len(),
{
    if t1.len() == 0 {
        assert(t1 + t2 =~= t2);
        assert(sleeps_of(t1) + sleeps_of(t2) =~= sleeps_of(t2));
    } else {
        assert((t1 + t2)[0] == t1[0]);
        assert((t1 + t2).skip(1) =~= t1.skip(1) + t2);
        lemma_sleeps_of_append(t1.skip(1), t2);
        assert(sleeps_of(t1) + sleeps_of(t2) =~= sleeps_of_cmd(t1[0]) + (sleeps_of(t1.skip(1))
            + sleeps_of(t2)));
    }
}

/// The tail of a happy-path run pauses exactly as its actions are configured.
proof fn lemma_tail_sleeps_as_configured(actions: Seq<Action>, i: int, k: KeyCode)
    requires
        0 <= i <= actions.len(),
        spec_is_qualifying(k),
        actions.len() <= usize::MAX,
        forall|j: int|
            0 <= j < actions.len() ==> (#[trigger] actions[j]).content().len() <= usize::MAX,
    ensures
        sleeps_of(run_cmds(actions, false, start_phase(actions, i), tail_replies(actions, i, k)))
            == slide_sleeps(actions, i),
    decreases actions.len() - i,
{
    if i >= actions.len() {
        lemma_interaction_run(actions, i as usize, k);
        lemma_no_sleeps(
            run_cmds(actions, false, start_phase(actions, i), tail_replies(actions, i, k)),
        );
        assert(slide_sleeps(actions, i) =~= Seq::<u64>::empty());
    } else {
        let a = actions[i];
        let rest = tail_replies(actions, i + 1, k);
        let ph = start_phase(actions, i);
        if a.is_paced() && a.content().len() == 0 {
            assert(action_replies(a, k) =~= Seq::<Reply>::empty());
            assert(action_replies(a, k) + rest =~= rest);
            lemma_tail_sleeps_as_configured(actions, i + 1, k);
            assert(action_sleeps(a) =~= Seq::<u64>::empty());
            assert(action_sleeps(a) + slide_sleeps(actions, i + 1) =~= slide_sleeps(
                actions,
                i + 1,
            ));
        } else {
            match a {
                Action::Print(_) | Action::PrintStyled(_) => {
                    lemma_paced_text_renders_all(actions, i as usize);
                },
                Action::Pause(_) => {
                    lemma_timed_wait_run(actions, i as usize);
                    let t = run_cmds(actions, false, ph, action_replies(a, k));
                    assert(t =~= seq![Cmd::Flush] + (seq![Cmd::EnableRawMode] + (seq![
                        Cmd::SleepMs(a.interval_ms()),
                    ] + (seq![Cmd::DisableRawMode] + Seq::<Cmd>::empty()))));
                    lemma_extract_prepend(Cmd::DisableRawMode, Seq::<Cmd>::empty());
                    lemma_extract_prepend(
                        Cmd::SleepMs(a.interval_ms()),
                        seq![Cmd::DisableRawMode] + Seq::<Cmd>::empty(),
                    );
                    lemma_extract_prepend(
                        Cmd::EnableRawMode,
                        seq![Cmd::SleepMs(a.interval_ms())] + (seq![Cmd::DisableRawMode] + Seq::<
                            Cmd,
                        >::empty()),
                    );
                    lemma_extract_prepend(
                        Cmd::Flush,
                        seq![Cmd::EnableRawMode] + (seq![Cmd::SleepMs(a.interval_ms())] + (seq![
                            Cmd::DisableRawMode,
                        ] + Seq::<Cmd>::empty())),
                    );
                    assert(sleeps_of(t) =~= action_sleeps(a));
                },
                Action::Interaction(_) => {
                    lemma_interaction_run(actions, i as usize, k);
                    lemma_no_sleeps(run_cmds(actions, false, ph, action_replies(a, k)));
                },
                Action::Raw(_) => {
                    lemma_passthrough_run(actions, i as usize);
                    lemma_no_sleeps(run_cmds(actions, false, ph, action_replies(a, k)));
                },
            }
            lemma_run_cmds_append(actions, false, ph, action_replies(a, k), rest);
            lemma_run_state_append(actions, false, ph, action_replies(a, k), rest);
            lemma_sleeps_of_append(
                run_cmds(actions, false, ph, action_replies(a, k)),
                run_cmds(actions, false, start_phase(actions, i + 1), rest),
            );
            lemma_tail_sleeps_as_configured(actions, i + 1, k);
            assert(sleeps_of(run_cmds(actions, false, ph, action_replies(a, k)))
                == action_sleeps(a));
        }
    }
}

/// Law: a successful slide pauses exactly as configured. Over the happy-path
/// script, the whole run's pauses are, in order, one pause of the configured
/// interval per character of each paced action and the configured duration of
/// each timed wait — so its total blocking time is never less than their sum.
pub proof fn lemma_slide_sleeps_as_configured(actions: Seq<Action>, k: KeyCode)
    requires
        spec_is_qualifying(k),
        actions.len() <= usize::MAX,
        forall|j: int|
            0 <= j < actions.len() ==> (#[trigger] actions[j]).content().len() <= usize::MAX,
    ensures
        sleeps_of(run_cmds(actions, false, Phase::Clearing, slide_replies(actions, k)))
            == slide_sleeps(actions, 0),
{
    let rs = slide_replies(actions, k);
    assert(rs[0] == Reply::Done);
    assert(rs.skip(1) =~= tail_replies(actions, 0, k));
    lemma_run_unfold(actions, false, Phase::Clearing, rs, Cmd::ClearScreen);
    lemma_tail_sleeps_as_configured(actions, 0, k);
    lemma_extract_prepend(
        Cmd::ClearScreen,
        run_cmds(actions, false, start_phase(actions, 0), tail_replies(actions, 0, k)),
    );
    assert(Seq::<u64>::empty() + slide_sleeps(actions, 0) =~= slide_sleeps(actions, 0));
}

} // verus!
