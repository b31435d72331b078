//! The reconciliation decisions: which process-control signal each resolved
//! window earns on a tick, the drain pass that resumes everything on
//! shutdown, and the two-state mode machine that drives the loop.

use vstd::prelude::*;

use crate::window::{Window, WindowView};

verus! {

/// A process-control signal: suspend or resume.
#[derive(Clone, Copy, Debug, PartialEq, Eq, Structural)]
pub enum Signal {
    /// Suspend the process (its window is minimized).
    Stop,
    /// Resume the process (its window is visible, or the system is draining).
    Cont,
}

/// One control action: a signal aimed at an owning process.
#[derive(Clone, Debug)]
pub struct Action {
    pub signal: Signal,
    pub pid: String,
}

/// The mathematical value of an [`Action`].
#[verifier::ext_equal]
pub struct ActionView {
    pub signal: Signal,
    pub pid: Seq<char>,
}

impl View for Action {
    type V = ActionView;

    open spec fn view(&self) -> ActionView {
        ActionView { signal: self.signal, pid: self.pid@ }
    }
}

/// The views of a sequence of windows.
pub open spec fn window_views(ws: Seq<Window>) -> Seq<WindowView> {
    Seq::new(ws.len(), |i: int| ws[i]@)
}

/// The views of a sequence of actions.
pub open spec fn action_views(acts: Seq<Action>) -> Seq<ActionView> {
    Seq::new(acts.len(), |i: int| acts[i]@)
}

/// The action a running tick owes a window: none while the owning process is
/// unresolved (the window is skipped), otherwise stop when minimized and
/// continue when visible.
pub open spec fn spec_action_for(w: WindowView) -> Option<ActionView> {
    if w.pid.len() == 0 {
        None
    } else {
        Some(
            ActionView {
                signal: if w.is_minimized {
                    Signal::Stop
                } else {
                    Signal::Cont
                },
                pid: w.pid,
            },
        )
    }
}

/// The action the drain pass owes a window: continue its process whatever its
/// minimized state, skipping only windows whose process is unresolved.
pub open spec fn spec_drain_action_for(w: WindowView) -> Option<ActionView> {
    if w.pid.len() == 0 {
        None
    } else {
        Some(ActionView { signal: Signal::Cont, pid: w.pid })
    }
}

/// An optional action as a sequence of zero or one actions.
pub open spec fn opt_seq(o: Option<ActionView>) -> Seq<ActionView> {
    match o {
        None => Seq::empty(),
        Some(a) => seq![a],
    }
}

/// The actions of one running tick over `ws`, in window order.
pub open spec fn tick_plan(ws: Seq<WindowView>) -> Seq<ActionView>
    decreases ws.len(),
{
    if ws.len() == 0 {
        Seq::empty()
    } else {
        opt_seq(spec_action_for(ws[0])) + tick_plan(ws.subrange(1, ws.len() as int))
    }
}

/// The actions of the shutdown drain pass over `ws`, in window order.
pub open spec fn drain_plan(ws: Seq<WindowView>) -> Seq<ActionView>
    decreases ws.len(),
{
    if ws.len() == 0 {
        Seq::empty()
    } else {
        opt_seq(spec_drain_action_for(ws[0])) + drain_plan(ws.subrange(1, ws.len() as int))
    }
}

/// The running-tick action for one window, if any.
pub fn action_for(w: &Window) -> (r: Option<Action>)
    ensures
        match r {
            Some(a) => spec_action_for(w@) == Some(a@),
            None => spec_action_for(w@) is None,
        },
{
    let pid = w.pid();
    if pid.as_str().unicode_len() == 0 {
        None
    } else {
        let signal = if w.is_minimized() {
            Signal::Stop
        } else {
            Signal::Cont
        };
        Some(Action { signal, pid })
    }
}

/// The drain-pass action for one window, if any.
pub fn drain_action_for(w: &Window) -> (r: Option<Action>)
    ensures
        match r {
            Some(a) => spec_drain_action_for(w@) == Some(a@),
            None => spec_drain_action_for(w@) is None,
        },
{
    let pid = w.pid();
    if pid.as_str().unicode_len() == 0 {
        None
    } else {
        Some(Action { signal: Signal::Cont, pid })
    }
}

/// The actions of one running tick over the resolved windows, in order.
pub fn tick_actions(ws: &Vec<Window>) -> (r: Vec<Action>)
    ensures
        action_views(r@) == tick_plan(window_views(ws@)),
{
    let n: usize = ws.len();
    let mut out: Vec<Action> = Vec::new();
    let mut k: usize = 0;
    proof {
        assert(window_views(ws@).subrange(0, n as int) =~= window_views(ws@));
        assert(action_views(out@) + tick_plan(window_views(ws@)) =~= tick_plan(
            window_views(ws@),
        ));
    }
    while k < n
        invariant
            n == ws.len(),
            0 <= k <= n,
            n == window_views(ws@).len(),
            action_views(out@) + tick_plan(window_views(ws@).subrange(k as int, n as int))
                == tick_plan(window_views(ws@)),
        decreases n - k,
    {
        proof {
            let all = window_views(ws@);
            let rem = all.subrange(k as int, n as int);
            assert(rem[0] == all[k as int]);
            assert(all[k as int] == ws@[k as int]@);
            assert(rem.subrange(1, rem.len() as int) =~= all.subrange(k + 1, n as int));
        }
        match action_for(&ws[k]) {
            Some(a) => {
                proof {
                    assert(action_views(out@.push(a)) =~= action_views(out@) + seq![a@]);
                }
                out.push(a);
            },
            None => {},
        }
        k += 1;
    }
    proof {
        assert(tick_plan(window_views(ws@).subrange(n as int, n as int)) =~= Seq::<
            ActionView,
        >::empty());
        assert(action_views(out@) =~= tick_plan(window_views(ws@)));
    }
    out
}

/// The actions of the shutdown drain pass over the windows, in order: a
/// resume for every window whose owning process is resolved.
pub fn drain_actions(ws: &Vec<Window>) -> (r: Vec<Action>)
    ensures
        action_views(r@) == drain_plan(window_views(ws@)),
{
    let n: usize = ws.len();
    let mut out: Vec<Action> = Vec::new();
    let mut k: usize = 0;
    proof {
        assert(window_views(ws@).subrange(0, n as int) =~= window_views(ws@));
        assert(action_views(out@) + drain_plan(window_views(ws@)) =~= drain_plan(
            window_views(ws@),
        ));
    }
    while k < n
        invariant
            n == ws.len(),
            0 <= k <= n,
            n == window_views(ws@).len(),
            action_views(out@) + drain_plan(window_views(ws@).subrange(k as int, n as int))
                == drain_plan(window_views(ws@)),
        decreases n - k,
    {
        proof {
            let all = window_views(ws@);
            let rem = all.subrange(k as int, n as int);
            assert(rem[0] == all[k as int]);
            assert(all[k as int] == ws@[k as int]@);
            assert(rem.subrange(1, rem.len() as int) =~= all.subrange(k + 1, n as int));
        }
        match drain_action_for(&ws[k]) {
            Some(a) => {
                proof {
                    assert(action_views(out@.push(a)) =~= action_views(out@) + seq![a@]);
                }
                out.push(a);
            },
            None => {},
        }
        k += 1;
    }
    proof {
        assert(drain_plan(window_views(ws@).subrange(n as int, n as int)) =~= Seq::<
            ActionView,
        >::empty());
        assert(action_views(out@) =~= drain_plan(window_views(ws@)));
    }
    out
}

/// The loop's mode: running ticks, or draining once before exit.
#[derive(Clone, Copy, Debug, PartialEq, Eq, Structural)]
pub enum Mode {
    Running,
    Draining,
}

/// The mode after one tick boundary: a running loop keeps running until the
/// shutdown signal is observed; draining is terminal.
pub fn next_mode(m: Mode, shutdown_observed: bool) -> (r: Mode)
    ensures
        r == (if m == Mode::Draining || shutdown_observed {
            Mode::Draining
        } else {
            Mode::Running
        }),
{
    match m {
        Mode::Draining => Mode::Draining,
        Mode::Running => if shutdown_observed {
            Mode::Draining
        } else {
            Mode::Running
        },
    }
}

/// The word the process-control primitive takes for a signal.
pub open spec fn signal_word(s: Signal) -> Seq<char> {
    match s {
        Signal::Stop => "STOP"@,
        Signal::Cont => "CONT"@,
    }
}

/// The command line that delivers an action to its process.
pub open spec fn command_of(a: ActionView) -> Seq<char> {
    "kill -"@ + signal_word(a.signal) + " "@ + a.pid
}

/// Renders an action as the command line of the process-control primitive.
pub fn signal_command(a: &Action) -> (r: String)
    ensures
        r@ == command_of(a@),
{
    let word: &str = match a.signal {
        Signal::Stop => "STOP",
        Signal::Cont => "CONT",
    };
    let mut s = String::from_str("kill -");
    s.append(word);
    s.append(" ");
    s.append(a.pid.as_str());
    s
}

/// Idempotence of the control plane: the action owed a window depends only on
/// its observable state — its minimized flag and owning process — so resolving
/// the same unchanged window on consecutive ticks issues the same signal both
/// times.
pub proof fn lemma_same_state_same_action(w1: WindowView, w2: WindowView)
    requires
        w1.is_minimized == w2.is_minimized,
        w1.pid == w2.pid,
    ensures
        spec_action_for(w1) == spec_action_for(w2),
        spec_drain_action_for(w1) == spec_drain_action_for(w2),
{
}

/// A descriptor whose owning process is unresolved is never acted on, neither
/// by a running tick nor by the drain pass.
pub proof fn lemma_skip_unresolved(w: WindowView)
    requires
        w.pid.len() == 0,
    ensures
        spec_action_for(w) is None,
        spec_drain_action_for(w) is None,
{
}

/// Drain guarantee, coverage: the drain pass resumes every window whose
/// owning process is resolved — the minimized ones included, never fewer.
pub proof fn lemma_drain_covers_all(ws: Seq<WindowView>, i: int)
    requires
        0 <= i < ws.len(),
        ws[i].pid.len() > 0,
    ensures
        exists|j: int|
            0 <= j < drain_plan(ws).len() && drain_plan(ws)[j] == (ActionView {
                signal: Signal::Cont,
                pid: ws[i].pid,
            }),
    decreases i,
{
    let t = ws.subrange(1, ws.len() as int);
    if i == 0 {
        assert(drain_plan(ws)[0] == (ActionView { signal: Signal::Cont, pid: ws[0].pid }));
    } else {
        assert(t[i - 1] == ws[i]);
        lemma_drain_covers_all(t, i - 1);
        let j = choose|j: int|
            0 <= j < drain_plan(t).len() && drain_plan(t)[j] == (ActionView {
                signal: Signal::Cont,
                pid: ws[i].pid,
            });
        let off = opt_seq(spec_drain_action_for(ws[0])).len();
        assert(drain_plan(ws)[j + off] == drain_plan(t)[j]);
    }
}

/// How many of the windows have a resolved owning process.
pub open spec fn resolved_count(ws: Seq<WindowView>) -> nat
    decreases ws.len(),
{
    if ws.len() == 0 {
        0
    } else {
        (if ws[0].pid.len() > 0 {
            1nat
        } else {
            0nat
        }) + resolved_count(ws.subrange(1, ws.len() as int))
    }
}

/// Drain guarantee, count: the drain pass issues exactly one action per
/// window with a resolved owning process — never fewer — and a running tick
/// does the same.
pub proof fn lemma_one_action_per_resolved_window(ws: Seq<WindowView>)
    ensures
        drain_plan(ws).len() == resolved_count(ws),
        tick_plan(ws).len() == resolved_count(ws),
    decreases ws.len(),
{
    if ws.len() > 0 {
        lemma_one_action_per_resolved_window(ws.subrange(1, ws.len() as int));
    }
}

/// Drain guarantee, soundness: every action of the drain pass is a resume;
/// the system never exits leaving a process stopped by its own doing.
pub proof fn lemma_drain_only_resumes(ws: Seq<WindowView>, j: int)
    requires
        0 <= j < drain_plan(ws).len(),
    ensures
        drain_plan(ws)[j].signal == Signal::Cont,
    decreases ws.len(),
{
    let t = ws.subrange(1, ws.len() as int);
    let off = opt_seq(spec_drain_action_for(ws[0])).len();
    if j >= off {
        lemma_drain_only_resumes(t, j - off);
    }
}

/// Empty-world no-op: zero windows produce zero control actions, in both the
/// running tick and the drain pass.
pub proof fn lemma_empty_world()
    ensures
        tick_plan(Seq::<WindowView>::empty()) == Seq::<ActionView>::empty(),
        drain_plan(Seq::<WindowView>::empty()) == Seq::<ActionView>::empty(),
{
}

} // verus!
