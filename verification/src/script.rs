//! Running a slide against a scripted sequence of replies.
//!
//! [`run_script`] drives a [`SlideRunner`] to the end of a reply script: it is
//! the engine's entry point for deterministic replay — every command's outcome
//! is known up front — and returns the full command trace together with the
//! runner as it ends, so the caller can read the slide's outcome.

use vstd::prelude::*;

use crate::actions::Action;
use crate::engine::{Cmd, Phase, Reply, SlideRunner, cmd_of, lemma_wf_cmd_some, reply_matches, step};
use crate::laws::{run_cmds, run_state};

verus! {

/// The script answers each command the run asks for with a reply of a kind
/// that command can produce, for as long as the slide is not over.
pub open spec fn script_ok(actions: Seq<Action>, raw: bool, phase: Phase, rs: Seq<Reply>) -> bool
    decreases rs.len(),
{
    rs.len() == 0 || phase is Finished || (reply_matches(cmd_of(actions, phase), rs[0]) && {
        let s = step(actions, raw, phase, rs[0]);
        script_ok(actions, s.0, s.1, rs.skip(1))
    })
}

/// Runs one whole slide against a script of command outcomes: clears the
/// screen, renders every action in order, short-circuits on the first failure,
/// and performs the trailing wait for interaction. Returns the exact trace of
/// terminal commands the slide asked for, and the runner as the script left
/// it; if the script reaches the end of the slide, the runner's outcome is the
/// slide's result.
pub fn run_script(actions: Vec<Action>, replies: &Vec<Reply>) -> (out: (Vec<Cmd>, SlideRunner))
    requires
        script_ok(actions@, false, Phase::Clearing, replies@),
    ensures
        out.0@ == run_cmds(actions@, false, Phase::Clearing, replies@),
        out.1.actions@ == actions@,
        (out.1.raw_mode, out.1.phase) == run_state(actions@, false, Phase::Clearing, replies@),
        out.1.wf(),
{
    let mut runner = SlideRunner::new(actions);
    let mut trace: Vec<Cmd> = Vec::new();
    let n = replies.len();
    let mut i: usize = 0;
    proof {
        assert(replies@.skip(0) =~= replies@);
    }
    loop
        invariant
            n == replies@.len(),
            i <= n,
            runner.wf(),
            runner.actions@ == actions@,
            script_ok(runner.actions@, runner.raw_mode, runner.phase, replies@.skip(i as int)),
            trace@ + run_cmds(
                runner.actions@,
                runner.raw_mode,
                runner.phase,
                replies@.skip(i as int),
            ) == run_cmds(actions@, false, Phase::Clearing, replies@),
            run_state(runner.actions@, runner.raw_mode, runner.phase, replies@.skip(i as int))
                == run_state(actions@, false, Phase::Clearing, replies@),
        ensures
            trace@ == run_cmds(actions@, false, Phase::Clearing, replies@),
            (runner.raw_mode, runner.phase) == run_state(
                actions@,
                false,
                Phase::Clearing,
                replies@,
            ),
            runner.wf(),
            runner.actions@ == actions@,
        decreases n - i,
    {
        if i >= n {
            proof {
                assert(replies@.skip(i as int) =~= Seq::<Reply>::empty());
                assert(trace@ + Seq::<Cmd>::empty() =~= trace@);
            }
            break;
        }
        if runner.is_finished() {
            proof {
                assert(trace@ + Seq::<Cmd>::empty() =~= trace@);
            }
            break;
        }
        let r = replies[i];
        let ghost pre = runner;
        let ghost rest = replies@.skip(i as int);
        match runner.current() {
            Some(c) => {
                proof {
                    assert(rest[0] == replies@[i as int]);
                    assert(run_cmds(pre.actions@, pre.raw_mode, pre.phase, rest) == seq![c]
                        + run_cmds(
                        pre.actions@,
                        step(pre.actions@, pre.raw_mode, pre.phase, rest[0]).0,
                        step(pre.actions@, pre.raw_mode, pre.phase, rest[0]).1,
                        rest.skip(1),
                    ));
                }
                let ghost t0 = trace@;
                trace.push(c);
                runner.feed(r);
                i = i + 1;
                proof {
                    assert(rest.skip(1) =~= replies@.skip(i as int));
                    assert(t0.push(c) =~= t0 + seq![c]);
                    assert((t0 + seq![c]) + run_cmds(
                        runner.actions@,
                        runner.raw_mode,
                        runner.phase,
                        replies@.skip(i as int),
                    ) =~= t0 + (seq![c] + run_cmds(
                        runner.actions@,
                        runner.raw_mode,
                        runner.phase,
                        replies@.skip(i as int),
                    )));
                }
            },
            None => {
                proof {
                    lemma_wf_cmd_some(runner.actions@, runner.raw_mode, runner.phase);
                }
                break;
            },
        }
    }
    (trace, runner)
}

} // verus!
