//! The slide execution engine: a state machine that runs one slide.
//!
//! The engine never touches the terminal itself. It exposes, step by step, the
//! next terminal command to perform ([`SlideRunner::current`]); the caller
//! performs it against the real terminal and feeds the outcome back
//! ([`SlideRunner::feed`]). The engine clears the screen, renders each action
//! strictly in order, short-circuits on the first failure, appends a trailing
//! wait for interaction, and finishes with a single success/failure outcome.
//!
//! Raw mode is modelled as an explicitly tracked handle ([`SlideRunner::raw_mode`])
//! with scoped acquire/release around every pacing or blocking step: the
//! well-formedness invariant [`SlideRunner::wf`] ties the flag to the phase and
//! guarantees that a run that finishes successfully has released raw mode.

use vstd::prelude::*;
use vstd::string::StrSliceExecFns;

use crate::actions::{Action, InputEvent, TextStyle, spec_is_qualifying};

verus! {

/// One terminal command the engine asks its caller to perform.
#[derive(Debug, Clone, PartialEq, Eq)]
pub enum Cmd {
    /// Clear the entire screen.
    ClearScreen,
    /// Write one plain character to the output sink.
    WriteChar(char),
    /// Write one character wrapped in the given style.
    WriteStyledChar(char, TextStyle),
    /// Write the text verbatim (a passthrough action).
    WriteRaw(String),
    /// Flush the output sink.
    Flush,
    /// Enable terminal raw mode.
    EnableRawMode,
    /// Disable terminal raw mode.
    DisableRawMode,
    /// Block for the given number of milliseconds.
    SleepMs(u64),
    /// Block until the next terminal input event.
    ReadEvent,
}

/// The outcome of one terminal command, fed back to the engine.
#[derive(Debug, Clone, Copy, PartialEq, Eq)]
pub enum Reply {
    /// The command was performed successfully.
    Done,
    /// The command failed with the given error code.
    Failed(u64),
    /// The command was [`Cmd::ReadEvent`] and yielded this event.
    Got(InputEvent),
}

/// Where the engine stands inside a slide.
///
/// The paced phases carry the action index `idx` and the character index `k`;
/// the wait phases carry the action index alone. An `Awaiting*` phase with
/// `idx` equal to the number of actions is the implicit trailing wait for
/// interaction.
#[derive(Debug, Clone, Copy, PartialEq, Eq)]
pub enum Phase {
    /// About to clear the screen.
    Clearing,
    /// Paced action `idx`: about to write character `k`.
    PacedWrite { idx: usize, k: usize },
    /// Paced action `idx`: character `k` written, about to flush.
    PacedFlush { idx: usize, k: usize },
    /// Paced action `idx`: about to enable raw mode before the pause.
    PacedEnable { idx: usize, k: usize },
    /// Paced action `idx`: about to pause after character `k`.
    PacedSleep { idx: usize, k: usize },
    /// Paced action `idx`: about to disable raw mode after the pause.
    PacedDisable { idx: usize, k: usize },
    /// Timed wait `idx`: about to flush.
    PauseFlush { idx: usize },
    /// Timed wait `idx`: about to enable raw mode.
    PauseEnable { idx: usize },
    /// Timed wait `idx`: about to block for the configured duration.
    PauseSleep { idx: usize },
    /// Timed wait `idx`: about to disable raw mode.
    PauseDisable { idx: usize },
    /// Interaction wait `idx` (or trailing wait): about to flush.
    AwaitingFlush { idx: usize },
    /// Interaction wait `idx` (or trailing wait): about to enable raw mode.
    AwaitingEnable { idx: usize },
    /// Interaction wait `idx` (or trailing wait): about to read an event.
    AwaitingRead { idx: usize },
    /// Interaction wait `idx` (or trailing wait): qualified, about to disable
    /// raw mode.
    AwaitingDisable { idx: usize },
    /// Passthrough action `idx`: about to write its text verbatim.
    RawWrite { idx: usize },
    /// A command failed with `code` while raw mode was on: about to release
    /// raw mode before finishing with that error.
    Cleanup { code: u64 },
    /// The slide is over: `error` is `None` on success, or the code of the
    /// first failed command.
    Finished { error: Option<u64> },
}

/// The phase an action begins in, skipping over paced actions whose content is
/// empty (an empty-content action is a no-op that still succeeds). Index `i`
/// equal to the length of the slide stands for the implicit trailing wait.
pub open spec fn start_phase(actions: Seq<Action>, i: int) -> Phase
    decreases actions.len() - i,
{
    if i >= actions.len() {
        Phase::AwaitingFlush { idx: i as usize }
    } else {
        match actions[i] {
            Action::Print(p) => if p.0@.len() == 0 {
                start_phase(actions, i + 1)
            } else {
                Phase::PacedWrite { idx: i as usize, k: 0 }
            },
            Action::PrintStyled(p) => if p.0.text@.len() == 0 {
                start_phase(actions, i + 1)
            } else {
                Phase::PacedWrite { idx: i as usize, k: 0 }
            },
            Action::Interaction(_) => Phase::AwaitingFlush { idx: i as usize },
            Action::Pause(_) => Phase::PauseFlush { idx: i as usize },
            Action::Raw(_) => Phase::RawWrite { idx: i as usize },
        }
    }
}

/// A paced phase at action `idx`, character `k`, is within bounds.
pub open spec fn paced_pos(actions: Seq<Action>, idx: usize, k: usize) -> bool {
    idx < actions.len() && actions[idx as int].is_paced() && k < actions[idx as int].content().len()
}

/// A timed-wait phase at action `idx` is within bounds.
pub open spec fn pause_pos(actions: Seq<Action>, idx: usize) -> bool {
    idx < actions.len() && actions[idx as int] is Pause
}

/// An interaction-wait phase at action `idx` is within bounds; `idx` equal to
/// the length is the trailing wait.
pub open spec fn awaiting_pos(actions: Seq<Action>, idx: usize) -> bool {
    idx <= actions.len() && (idx < actions.len() ==> actions[idx as int] is Interaction)
}

/// A passthrough phase at action `idx` is within bounds.
pub open spec fn raw_write_pos(actions: Seq<Action>, idx: usize) -> bool {
    idx < actions.len() && actions[idx as int] is Raw
}

/// Well-formedness of a phase with respect to the slide and the raw-mode
/// handle: indices are in bounds, the phase kind matches the action at its
/// index, and raw mode is on exactly in the phases between an acquire and its
/// release. In particular a successful finish implies raw mode is off.
pub open spec fn phase_wf(actions: Seq<Action>, raw: bool, phase: Phase) -> bool {
    match phase {
        Phase::Clearing => !raw,
        Phase::PacedWrite { idx, k } => paced_pos(actions, idx, k) && !raw,
        Phase::PacedFlush { idx, k } => paced_pos(actions, idx, k) && !raw,
        Phase::PacedEnable { idx, k } => paced_pos(actions, idx, k) && !raw,
        Phase::PacedSleep { idx, k } => paced_pos(actions, idx, k) && raw,
        Phase::PacedDisable { idx, k } => paced_pos(actions, idx, k) && raw,
        Phase::PauseFlush { idx } => pause_pos(actions, idx) && !raw,
        Phase::PauseEnable { idx } => pause_pos(actions, idx) && !raw,
        Phase::PauseSleep { idx } => pause_pos(actions, idx) && raw,
        Phase::PauseDisable { idx } => pause_pos(actions, idx) && raw,
        Phase::AwaitingFlush { idx } => awaiting_pos(actions, idx) && !raw,
        Phase::AwaitingEnable { idx } => awaiting_pos(actions, idx) && !raw,
        Phase::AwaitingRead { idx } => awaiting_pos(actions, idx) && raw,
        Phase::AwaitingDisable { idx } => awaiting_pos(actions, idx) && raw,
        Phase::RawWrite { idx } => raw_write_pos(actions, idx) && !raw,
        Phase::Cleanup { .. } => raw,
        Phase::Finished { error } => error is None ==> !raw,
    }
}

/// The terminal command a phase asks for; `None` once the slide is over.
pub open spec fn cmd_of(actions: Seq<Action>, phase: Phase) -> Option<Cmd> {
    match phase {
        Phase::Clearing => Some(Cmd::ClearScreen),
        Phase::PacedWrite { idx, k } => match actions[idx as int] {
            Action::Print(p) => Some(Cmd::WriteChar(p.0@[k as int])),
            Action::PrintStyled(p) => Some(Cmd::WriteStyledChar(p.0.text@[k as int], p.0.style)),
            _ => None,
        },
        Phase::PacedFlush { .. } => Some(Cmd::Flush),
        Phase::PacedEnable { .. } => Some(Cmd::EnableRawMode),
        Phase::PacedSleep { idx, k } => Some(Cmd::SleepMs(actions[idx as int].interval_ms())),
        Phase::PacedDisable { .. } => Some(Cmd::DisableRawMode),
        Phase::PauseFlush { .. } => Some(Cmd::Flush),
        Phase::PauseEnable { .. } => Some(Cmd::EnableRawMode),
        Phase::PauseSleep { idx } => Some(Cmd::SleepMs(actions[idx as int].interval_ms())),
        Phase::PauseDisable { .. } => Some(Cmd::DisableRawMode),
        Phase::AwaitingFlush { .. } => Some(Cmd::Flush),
        Phase::AwaitingEnable { .. } => Some(Cmd::EnableRawMode),
        Phase::AwaitingRead { .. } => Some(Cmd::ReadEvent),
        Phase::AwaitingDisable { .. } => Some(Cmd::DisableRawMode),
        Phase::RawWrite { idx } => match actions[idx as int] {
            Action::Raw(r) => Some(Cmd::WriteRaw(r.0)),
            _ => None,
        },
        Phase::Cleanup { .. } => Some(Cmd::DisableRawMode),
        Phase::Finished { .. } => None,
    }
}

/// A reply is of the kind the current command can produce: an event read
/// yields an event or an error; every other command succeeds or fails.
pub open spec fn reply_matches(c: Option<Cmd>, r: Reply) -> bool {
    match c {
        Some(Cmd::ReadEvent) => !(r is Done),
        Some(_) => !(r is Got),
        None => false,
    }
}

/// Where a failed command sends the engine: if raw mode is on, release it
/// first ([`Phase::Cleanup`]); otherwise finish at once with the error.
pub open spec fn fail_step(raw: bool, e: u64) -> (bool, Phase) {
    if raw {
        (true, Phase::Cleanup { code: e })
    } else {
        (false, Phase::Finished { error: Some(e) })
    }
}

/// The phase after a paced action finished character `k`: the next character,
/// or the start of the next action.
pub open spec fn advance_paced(actions: Seq<Action>, idx: usize, k: usize) -> Phase {
    if k + 1 < actions[idx as int].content().len() {
        Phase::PacedWrite { idx, k: (k + 1) as usize }
    } else {
        start_phase(actions, idx + 1)
    }
}

/// The phase after an interaction wait at `idx` is satisfied: the next action,
/// or — after the trailing wait — success.
pub open spec fn advance_awaiting(actions: Seq<Action>, idx: usize) -> Phase {
    if idx < actions.len() {
        start_phase(actions, idx + 1)
    } else {
        Phase::Finished { error: None }
    }
}

/// The transition relation of the engine: from a phase and the reply to its
/// command, the new raw-mode flag and the new phase. A reply of a kind the
/// current command cannot produce leaves the state unchanged.
pub open spec fn step(actions: Seq<Action>, raw: bool, phase: Phase, r: Reply) -> (bool, Phase) {
    match phase {
        Phase::Clearing => match r {
            Reply::Done => (raw, start_phase(actions, 0)),
            Reply::Failed(e) => fail_step(raw, e),
            Reply::Got(_) => (raw, phase),
        },
        Phase::PacedWrite { idx, k } => match r {
            Reply::Done => (raw, Phase::PacedFlush { idx, k }),
            Reply::Failed(e) => fail_step(raw, e),
            Reply::Got(_) => (raw, phase),
        },
        Phase::PacedFlush { idx, k } => match r {
            Reply::Done => if raw {
                (raw, Phase::PacedSleep { idx, k })
            } else {
                (raw, Phase::PacedEnable { idx, k })
            },
            Reply::Failed(e) => fail_step(raw, e),
            Reply::Got(_) => (raw, phase),
        },
        Phase::PacedEnable { idx, k } => match r {
            Reply::Done => (true, Phase::PacedSleep { idx, k }),
            Reply::Failed(e) => fail_step(raw, e),
            Reply::Got(_) => (raw, phase),
        },
        Phase::PacedSleep { idx, k } => match r {
            Reply::Done => if raw {
                (raw, Phase::PacedDisable { idx, k })
            } else {
                (raw, advance_paced(actions, idx, k))
            },
            Reply::Failed(e) => fail_step(raw, e),
            Reply::Got(_) => (raw, phase),
        },
        Phase::PacedDisable { idx, k } => match r {
            Reply::Done => (false, advance_paced(actions, idx, k)),
            Reply::Failed(e) => (raw, Phase::Finished { error: Some(e) }),
            Reply::Got(_) => (raw, phase),
        },
        Phase::PauseFlush { idx } => match r {
            Reply::Done => if raw {
                (raw, Phase::PauseSleep { idx })
            } else {
                (raw, Phase::PauseEnable { idx })
            },
            Reply::Failed(e) => fail_step(raw, e),
            Reply::Got(_) => (raw, phase),
        },
        Phase::PauseEnable { idx } => match r {
            Reply::Done => (true, Phase::PauseSleep { idx }),
            Reply::Failed(e) => fail_step(raw, e),
            Reply::Got(_) => (raw, phase),
        },
        Phase::PauseSleep { idx } => match r {
            Reply::Done => if raw {
                (raw, Phase::PauseDisable { idx })
            } else {
                (raw, start_phase(actions, idx + 1))
            },
            Reply::Failed(e) => fail_step(raw, e),
            Reply::Got(_) => (raw, phase),
        },
        Phase::PauseDisable { idx } => match r {
            Reply::Done => (false, start_phase(actions, idx + 1)),
            Reply::Failed(e) => (raw, Phase::Finished { error: Some(e) }),
            Reply::Got(_) => (raw, phase),
        },
        Phase::AwaitingFlush { idx } => match r {
            Reply::Done => if raw {
                (raw, Phase::AwaitingRead { idx })
            } else {
                (raw, Phase::AwaitingEnable { idx })
            },
            Reply::Failed(e) => fail_step(raw, e),
            Reply::Got(_) => (raw, phase),
        },
        Phase::AwaitingEnable { idx } => match r {
            Reply::Done => (true, Phase::AwaitingRead { idx }),
            Reply::Failed(e) => fail_step(raw, e),
            Reply::Got(_) => (raw, phase),
        },
        Phase::AwaitingRead { idx } => match r {
            Reply::Got(InputEvent::Key(kc)) => if spec_is_qualifying(kc) {
                if raw {
                    (raw, Phase::AwaitingDisable { idx })
                } else {
                    (raw, advance_awaiting(actions, idx))
                }
            } else {
                (raw, phase)
            },
            Reply::Got(InputEvent::Other) => (raw, phase),
            Reply::Failed(e) => fail_step(raw, e),
            Reply::Done => (raw, phase),
        },
        Phase::AwaitingDisable { idx } => match r {
            Reply::Done => (false, advance_awaiting(actions, idx)),
            Reply::Failed(e) => (raw, Phase::Finished { error: Some(e) }),
            Reply::Got(_) => (raw, phase),
        },
        Phase::RawWrite { idx } => match r {
            Reply::Done => (raw, start_phase(actions, idx + 1)),
            Reply::Failed(e) => fail_step(raw, e),
            Reply::Got(_) => (raw, phase),
        },
        Phase::Cleanup { code } => match r {
            Reply::Done => (false, Phase::Finished { error: Some(code) }),
            Reply::Failed(_) => (true, Phase::Finished { error: Some(code) }),
            Reply::Got(_) => (raw, phase),
        },
        Phase::Finished { .. } => (raw, phase),
    }
}

/// The phase an action begins in is well formed.
pub proof fn lemma_start_phase_wf(actions: Seq<Action>, i: int)
    requires
        0 <= i <= actions.len(),
        actions.len() <= usize::MAX,
    ensures
        phase_wf(actions, false, start_phase(actions, i)),
    decreases actions.len() - i,
{
    if i < actions.len() {
        match actions[i] {
            Action::Print(p) => {
                if p.0@.len() == 0 {
                    lemma_start_phase_wf(actions, i + 1);
                }
            },
            Action::PrintStyled(p) => {
                if p.0.text@.len() == 0 {
                    lemma_start_phase_wf(actions, i + 1);
                }
            },
            _ => {},
        }
    }
}

/// Every step from a well-formed state, on a matching reply, yields a
/// well-formed state.
pub proof fn lemma_step_wf(actions: Seq<Action>, raw: bool, phase: Phase, r: Reply)
    requires
        phase_wf(actions, raw, phase),
        actions.len() <= usize::MAX,
    ensures
        phase_wf(actions, step(actions, raw, phase, r).0, step(actions, raw, phase, r).1),
{
    match phase {
        Phase::Clearing => {
            if r is Done {
                lemma_start_phase_wf(actions, 0);
            }
        },
        Phase::PacedDisable { idx, k } => {
            if r is Done {
                if k + 1 >= actions[idx as int].content().len() {
                    lemma_start_phase_wf(actions, idx + 1);
                }
            }
        },
        Phase::PauseSleep { idx } => {
            if r is Done && !raw {
                lemma_start_phase_wf(actions, idx + 1);
            }
        },
        Phase::PauseDisable { idx } => {
            if r is Done {
                lemma_start_phase_wf(actions, idx + 1);
            }
        },
        Phase::AwaitingRead { idx } => {
            if idx < actions.len() {
                lemma_start_phase_wf(actions, idx + 1);
            }
        },
        Phase::AwaitingDisable { idx } => {
            if idx < actions.len() {
                lemma_start_phase_wf(actions, idx + 1);
            }
        },
        Phase::RawWrite { idx } => {
            if r is Done {
                lemma_start_phase_wf(actions, idx + 1);
            }
        },
        _ => {},
    }
}

/// In every well-formed state short of [`Phase::Finished`] there is a current
/// command.
pub proof fn lemma_wf_cmd_some(actions: Seq<Action>, raw: bool, phase: Phase)
    requires
        phase_wf(actions, raw, phase),
        !(phase is Finished),
    ensures
        cmd_of(actions, phase) is Some,
{
}

/// The engine that runs one slide, as a step machine.
///
/// The caller (or a test) drives it: while not finished, perform the command
/// [`SlideRunner::current`] asks for against the terminal, and hand the
/// outcome to [`SlideRunner::feed`].
#[derive(Debug, Clone, PartialEq, Eq)]
pub struct SlideRunner {
    /// The slide: its actions, in the order they render.
    pub actions: Vec<Action>,
    /// The raw-mode handle: whether the engine has raw mode switched on.
    pub raw_mode: bool,
    /// Where the engine stands.
    pub phase: Phase,
}

impl SlideRunner {
    /// The runner's state is well formed.
    pub open spec fn wf(self) -> bool {
        phase_wf(self.actions@, self.raw_mode, self.phase)
    }

    /// The slide is over.
    pub open spec fn spec_finished(self) -> bool {
        self.phase is Finished
    }

    /// Makes a runner for one slide. The first command it asks for clears the
    /// screen, whatever the slide holds.
    pub fn new(actions: Vec<Action>) -> (r: SlideRunner)
        ensures
            r.actions@ == actions@,
            r.raw_mode == false,
            r.phase == Phase::Clearing,
            r.wf(),
    {
        SlideRunner { actions, raw_mode: false, phase: Phase::Clearing }
    }

    /// Whether the slide is over.
    pub fn is_finished(&self) -> (b: bool)
        ensures
            b == self.spec_finished(),
    {
        matches!(self.phase, Phase::Finished { .. })
    }

    /// The outcome of a finished slide: `None` on success, or the error code
    /// of the first failed command.
    pub fn outcome(&self) -> (r: Option<u64>)
        requires
            self.spec_finished(),
        ensures
            self.phase == (Phase::Finished { error: r }),
    {
        match self.phase {
            Phase::Finished { error } => error,
            _ => None,
        }
    }

    /// The next terminal command to perform, or `None` once the slide is over.
    pub fn current(&self) -> (c: Option<Cmd>)
        requires
            self.wf(),
        ensures
            c == cmd_of(self.actions@, self.phase),
    {
        match self.phase {
            Phase::Clearing => Some(Cmd::ClearScreen),
            Phase::PacedWrite { idx, k } => match &self.actions[idx] {
                Action::Print(p) => Some(Cmd::WriteChar(p.0.as_str().get_char(k))),
                Action::PrintStyled(p) => Some(
                    Cmd::WriteStyledChar(p.0.text.as_str().get_char(k), p.0.style),
                ),
                _ => None,
            },
            Phase::PacedFlush { .. } => Some(Cmd::Flush),
            Phase::PacedEnable { .. } => Some(Cmd::EnableRawMode),
            Phase::PacedSleep { idx, .. } => match &self.actions[idx] {
                Action::Print(p) => Some(Cmd::SleepMs(p.1)),
                Action::PrintStyled(p) => Some(Cmd::SleepMs(p.1)),
                _ => None,
            },
            Phase::PacedDisable { .. } => Some(Cmd::DisableRawMode),
            Phase::PauseFlush { .. } => Some(Cmd::Flush),
            Phase::PauseEnable { .. } => Some(Cmd::EnableRawMode),
            Phase::PauseSleep { idx } => match &self.actions[idx] {
                Action::Pause(w) => Some(Cmd::SleepMs(w.0)),
                _ => None,
            },
            Phase::PauseDisable { .. } => Some(Cmd::DisableRawMode),
            Phase::AwaitingFlush { .. } => Some(Cmd::Flush),
            Phase::AwaitingEnable { .. } => Some(Cmd::EnableRawMode),
            Phase::AwaitingRead { .. } => Some(Cmd::ReadEvent),
            Phase::AwaitingDisable { .. } => Some(Cmd::DisableRawMode),
            Phase::RawWrite { idx } => match &self.actions[idx] {
                Action::Raw(t) => Some(Cmd::WriteRaw(t.0.clone())),
                _ => None,
            },
            Phase::Cleanup { .. } => Some(Cmd::DisableRawMode),
            Phase::Finished { .. } => None,
        }
    }

    /// The phase action `i` begins in, skipping empty paced actions.
    fn start_at(actions: &Vec<Action>, i: usize) -> (p: Phase)
        requires
            i <= actions@.len(),
        ensures
            p == start_phase(actions@, i as int),
    {
        let n = actions.len();
        let mut j: usize = i;
        loop
            invariant
                i <= j <= n,
                n == actions@.len(),
                start_phase(actions@, j as int) == start_phase(actions@, i as int),
            decreases n - j,
        {
            if j == n {
                return Phase::AwaitingFlush { idx: j };
            }
            match &actions[j] {
                Action::Print(p) => {
                    if p.0.as_str().unicode_len() == 0 {
                        j = j + 1;
                    } else {
                        return Phase::PacedWrite { idx: j, k: 0 };
                    }
                },
                Action::PrintStyled(p) => {
                    if p.0.text.as_str().unicode_len() == 0 {
                        j = j + 1;
                    } else {
                        return Phase::PacedWrite { idx: j, k: 0 };
                    }
                },
                Action::Interaction(_) => {
                    return Phase::AwaitingFlush { idx: j };
                },
                Action::Pause(_) => {
                    return Phase::PauseFlush { idx: j };
                },
                Action::Raw(_) => {
                    return Phase::RawWrite { idx: j };
                },
            }
        }
    }

    /// The phase after a paced action finished character `k`.
    fn advance_paced_at(actions: &Vec<Action>, idx: usize, k: usize) -> (p: Phase)
        requires
            paced_pos(actions@, idx, k),
        ensures
            p == advance_paced(actions@, idx, k),
    {
        // The exec length bounds the slide within usize for the index step.
        let _len = actions.len();
        let n: usize = match &actions[idx] {
            Action::Print(p) => p.0.as_str().unicode_len(),
            Action::PrintStyled(p) => p.0.text.as_str().unicode_len(),
            _ => 0,
        };
        if k + 1 < n {
            Phase::PacedWrite { idx, k: k + 1 }
        } else {
            Self::start_at(actions, idx + 1)
        }
    }

    /// The phase after an interaction wait at `idx` is satisfied.
    fn advance_awaiting_at(actions: &Vec<Action>, idx: usize) -> (p: Phase)
        requires
            idx <= actions@.len(),
        ensures
            p == advance_awaiting(actions@, idx),
    {
        if idx < actions.len() {
            Self::start_at(actions, idx + 1)
        } else {
            Phase::Finished { error: None }
        }
    }

    /// Moves to where the failed command with code `e` sends the engine.
    fn fail(&mut self, e: u64)
        ensures
            final(self).actions@ == old(self).actions@,
            (final(self).raw_mode, final(self).phase) == fail_step(old(self).raw_mode, e),
    {
        if self.raw_mode {
            self.phase = Phase::Cleanup { code: e };
        } else {
            self.phase = Phase::Finished { error: Some(e) };
        }
    }

    /// Advances the engine by one step: `r` is the outcome of the command
    /// [`SlideRunner::current`] asked for.
    pub fn feed(&mut self, r: Reply)
        requires
            old(self).wf(),
            !old(self).spec_finished(),
            reply_matches(cmd_of(old(self).actions@, old(self).phase), r),
        ensures
            final(self).actions@ == old(self).actions@,
            (final(self).raw_mode, final(self).phase) == step(
                old(self).actions@,
                old(self).raw_mode,
                old(self).phase,
                r,
            ),
            final(self).wf(),
    {
        // The slide fits in a Vec, so its length is within usize — the bound
        // the step lemma needs for the indices it advances past.
        let _n = self.actions.len();
        proof {
            lemma_step_wf(self.actions@, self.raw_mode, self.phase, r);
        }
        let ph = self.phase;
        match ph {
            Phase::Clearing => match r {
                Reply::Done => {
                    self.phase = Self::start_at(&self.actions, 0);
                },
                Reply::Failed(e) => {
                    self.fail(e);
                },
                Reply::Got(_) => {},
            },
            Phase::PacedWrite { idx, k } => match r {
                Reply::Done => {
                    self.phase = Phase::PacedFlush { idx, k };
                },
                Reply::Failed(e) => {
                    self.fail(e);
                },
                Reply::Got(_) => {},
            },
            Phase::PacedFlush { idx, k } => match r {
                Reply::Done => {
                    if self.raw_mode {
                        self.phase = Phase::PacedSleep { idx, k };
                    } else {
                        self.phase = Phase::PacedEnable { idx, k };
                    }
                },
                Reply::Failed(e) => {
                    self.fail(e);
                },
                Reply::Got(_) => {},
            },
            Phase::PacedEnable { idx, k } => match r {
                Reply::Done => {
                    self.raw_mode = true;
                    self.phase = Phase::PacedSleep { idx, k };
                },
                Reply::Failed(e) => {
                    self.fail(e);
                },
                Reply::Got(_) => {},
            },
            Phase::PacedSleep { idx, k } => match r {
                Reply::Done => {
                    if self.raw_mode {
                        self.phase = Phase::PacedDisable { idx, k };
                    } else {
                        self.phase = Self::advance_paced_at(&self.actions, idx, k);
                    }
                },
                Reply::Failed(e) => {
                    self.fail(e);
                },
                Reply::Got(_) => {},
            },
            Phase::PacedDisable { idx, k } => match r {
                Reply::Done => {
                    self.raw_mode = false;
                    self.phase = Self::advance_paced_at(&self.actions, idx, k);
                },
                Reply::Failed(e) => {
                    self.phase = Phase::Finished { error: Some(e) };
                },
                Reply::Got(_) => {},
            },
            Phase::PauseFlush { idx } => match r {
                Reply::Done => {
                    if self.raw_mode {
                        self.phase = Phase::PauseSleep { idx };
                    } else {
                        self.phase = Phase::PauseEnable { idx };
                    }
                },
                Reply::Failed(e) => {
                    self.fail(e);
                },
                Reply::Got(_) => {},
            },
            Phase::PauseEnable { idx } => match r {
                Reply::Done => {
                    self.raw_mode = true;
                    self.phase = Phase::PauseSleep { idx };
                },
                Reply::Failed(e) => {
                    self.fail(e);
                },
                Reply::Got(_) => {},
            },
            Phase::PauseSleep { idx } => match r {
                Reply::Done => {
                    if self.raw_mode {
                        self.phase = Phase::PauseDisable { idx };
                    } else {
                        self.phase = Self::start_at(&self.actions, idx + 1);
                    }
                },
                Reply::Failed(e) => {
                    self.fail(e);
                },
                Reply::Got(_) => {},
            },
            Phase::PauseDisable { idx } => match r {
                Reply::Done => {
                    self.raw_mode = false;
                    self.phase = Self::start_at(&self.actions, idx + 1);
                },
                Reply::Failed(e) => {
                    self.phase = Phase::Finished { error: Some(e) };
                },
                Reply::Got(_) => {},
            },
            Phase::AwaitingFlush { idx } => match r {
                Reply::Done => {
                    if self.raw_mode {
                        self.phase = Phase::AwaitingRead { idx };
                    } else {
                        self.phase = Phase::AwaitingEnable { idx };
                    }
                },
                Reply::Failed(e) => {
                    self.fail(e);
                },
                Reply::Got(_) => {},
            },
            Phase::AwaitingEnable { idx } => match r {
                Reply::Done => {
                    self.raw_mode = true;
                    self.phase = Phase::AwaitingRead { idx };
                },
                Reply::Failed(e) => {
                    self.fail(e);
                },
                Reply::Got(_) => {},
            },
            Phase::AwaitingRead { idx } => match r {
                Reply::Got(InputEvent::Key(kc)) => {
                    if crate::actions::is_qualifying(kc) {
                        if self.raw_mode {
                            self.phase = Phase::AwaitingDisable { idx };
                        } else {
                            self.phase = Self::advance_awaiting_at(&self.actions, idx);
                        }
                    }
                },
                Reply::Got(InputEvent::Other) => {},
                Reply::Failed(e) => {
                    self.fail(e);
                },
                Reply::Done => {},
            },
            Phase::AwaitingDisable { idx } => match r {
                Reply::Done => {
                    self.raw_mode = false;
                    self.phase = Self::advance_awaiting_at(&self.actions, idx);
                },
                Reply::Failed(e) => {
                    self.phase = Phase::Finished { error: Some(e) };
                },
                Reply::Got(_) => {},
            },
            Phase::RawWrite { idx } => match r {
                Reply::Done => {
                    self.phase = Self::start_at(&self.actions, idx + 1);
                },
                Reply::Failed(e) => {
                    self.fail(e);
                },
                Reply::Got(_) => {},
            },
            Phase::Cleanup { code } => match r {
                Reply::Done => {
                    self.raw_mode = false;
                    self.phase = Phase::Finished { error: Some(code) };
                },
                Reply::Failed(_) => {
                    self.raw_mode = true;
                    self.phase = Phase::Finished { error: Some(code) };
                },
                Reply::Got(_) => {},
            },
            Phase::Finished { .. } => {},
        }
    }
}

} // verus!
