//! Supervision of the single live-watch task.
//!
//! At most one device is watched for push-based updates at a time. The
//! supervisor is the state machine deciding when that task is spawned,
//! cancelled and replaced; actually spawning a thread, signalling its
//! cancellation flag and joining it is the surrounding application's
//! business, driven by the `WatchAction` each transition hands back. A
//! task counts as live from the spawn request until the application
//! reports it ended, so a replacement target waits in the `Stopping`
//! state and is spawned only after the old task is gone.

use vstd::prelude::*;

use crate::device::{BluetoothInfo, BluetoothType, KindView, RecordView};

verus! {

/// The device the live-watch task serves: its address and transport, and
/// the record it was last known by.
#[derive(Debug)]
pub struct WatchTarget {
    pub address: u64,
    pub kind: BluetoothType,
    pub last_known: BluetoothInfo,
}

/// Mathematical image of a `WatchTarget`.
pub ghost struct TargetView {
    pub address: u64,
    pub kind: KindView,
    pub last_known: RecordView,
}

impl View for WatchTarget {
    type V = TargetView;

    open spec fn view(&self) -> TargetView {
        TargetView { address: self.address, kind: self.kind@, last_known: self.last_known@ }
    }
}

impl Clone for WatchTarget {
    fn clone(&self) -> (r: Self)
        ensures
            r@ == self@,
    {
        WatchTarget {
            address: self.address,
            kind: self.kind.clone(),
            last_known: self.last_known.clone(),
        }
    }
}

/// Two targets select the same watch: same address over the same
/// transport. The last-known record does not matter for identity.
pub open spec fn same_selector(a: TargetView, b: TargetView) -> bool {
    a.address == b.address && a.kind == b.kind
}

impl WatchTarget {
    /// Whether `other` selects the same watch.
    pub fn selects_same(&self, other: &WatchTarget) -> (r: bool)
        ensures
            r == same_selector(self@, other@),
    {
        self.address == other.address && self.kind.matches(&other.kind)
    }
}

/// The watch slot's lifecycle. `Stopping` remembers the target whose task
/// is being cancelled and, possibly, the target to start next.
#[derive(Debug)]
pub enum WatchState {
    Idle,
    Starting(WatchTarget),
    Running(WatchTarget),
    Stopping(WatchTarget, Option<WatchTarget>),
}

/// Mathematical image of a `WatchState`.
pub ghost enum StateView {
    Idle,
    Starting(TargetView),
    Running(TargetView),
    Stopping(TargetView, Option<TargetView>),
}

impl View for WatchState {
    type V = StateView;

    open spec fn view(&self) -> StateView {
        match self {
            WatchState::Idle => StateView::Idle,
            WatchState::Starting(t) => StateView::Starting(t@),
            WatchState::Running(t) => StateView::Running(t@),
            WatchState::Stopping(t, next) => StateView::Stopping(
                t@,
                match next {
                    Some(n) => Some(n@),
                    None => None,
                },
            ),
        }
    }
}

/// What the application must do after a transition: spawn the task for a
/// target, signal the running task's cancellation flag, or nothing.
#[derive(Debug)]
pub enum WatchAction {
    Spawn(WatchTarget),
    Cancel,
    Stay,
}

/// Mathematical image of a `WatchAction`.
pub ghost enum ActionView {
    Spawn(TargetView),
    Cancel,
    Stay,
}

impl View for WatchAction {
    type V = ActionView;

    open spec fn view(&self) -> ActionView {
        match self {
            WatchAction::Spawn(t) => ActionView::Spawn(t@),
            WatchAction::Cancel => ActionView::Cancel,
            WatchAction::Stay => ActionView::Stay,
        }
    }
}

/// The target whose task exists right now, if any: one was spawned for it
/// and its end has not been reported yet.
pub open spec fn live_target(s: StateView) -> Option<TargetView> {
    match s {
        StateView::Idle => None,
        StateView::Starting(t) => Some(t),
        StateView::Running(t) => Some(t),
        StateView::Stopping(t, _) => Some(t),
    }
}

/// The target waiting to be spawned once the old task is gone.
pub open spec fn pending_target(s: StateView) -> Option<TargetView> {
    match s {
        StateView::Stopping(_, next) => next,
        _ => None,
    }
}

/// The state after `select`: a no-op when the same watch is already
/// starting or running; a spawn only from `Idle`; otherwise the new
/// target waits behind the cancellation of the live task. `select(None)`
/// asks for a plain stop.
pub open spec fn select_next(s: StateView, target: Option<TargetView>) -> StateView {
    match target {
        None => stop_next(s),
        Some(t) => match s {
            StateView::Idle => StateView::Starting(t),
            StateView::Starting(u) => if same_selector(u, t) {
                s
            } else {
                StateView::Stopping(u, Some(t))
            },
            StateView::Running(u) => if same_selector(u, t) {
                s
            } else {
                StateView::Stopping(u, Some(t))
            },
            StateView::Stopping(u, _) => StateView::Stopping(u, Some(t)),
        },
    }
}

/// The action `select` asks for.
pub open spec fn select_action(s: StateView, target: Option<TargetView>) -> ActionView {
    match target {
        None => stop_action(s),
        Some(t) => match s {
            StateView::Idle => ActionView::Spawn(t),
            StateView::Starting(u) => if same_selector(u, t) {
                ActionView::Stay
            } else {
                ActionView::Cancel
            },
            StateView::Running(u) => if same_selector(u, t) {
                ActionView::Stay
            } else {
                ActionView::Cancel
            },
            StateView::Stopping(_, _) => ActionView::Stay,
        },
    }
}

/// The state after `stop`: idempotent, safe from every state.
pub open spec fn stop_next(s: StateView) -> StateView {
    match s {
        StateView::Idle => StateView::Idle,
        StateView::Starting(u) => StateView::Stopping(u, None),
        StateView::Running(u) => StateView::Stopping(u, None),
        StateView::Stopping(u, _) => StateView::Stopping(u, None),
    }
}

/// The action `stop` asks for.
pub open spec fn stop_action(s: StateView) -> ActionView {
    match s {
        StateView::Idle => ActionView::Stay,
        StateView::Starting(_) => ActionView::Cancel,
        StateView::Running(_) => ActionView::Cancel,
        StateView::Stopping(_, _) => ActionView::Stay,
    }
}

/// The state after the application reports the spawned task up and
/// subscribed.
pub open spec fn started_next(s: StateView) -> StateView {
    match s {
        StateView::Starting(t) => StateView::Running(t),
        _ => s,
    }
}

/// The state after the application reports the task gone — joined after
/// cancellation, or ended on its own, also by failure or panic: the
/// slot is free again, and a waiting target takes it.
pub open spec fn ended_next(s: StateView) -> StateView {
    match s {
        StateView::Stopping(_, Some(t)) => StateView::Starting(t),
        StateView::Stopping(_, None) => StateView::Idle,
        StateView::Starting(_) => StateView::Idle,
        StateView::Running(_) => StateView::Idle,
        StateView::Idle => StateView::Idle,
    }
}

/// The action `task_ended` asks for.
pub open spec fn ended_action(s: StateView) -> ActionView {
    match s {
        StateView::Stopping(_, Some(t)) => ActionView::Spawn(t),
        _ => ActionView::Stay,
    }
}

/// Owner of the single watch slot.
pub struct WatcherSupervisor {
    state: WatchState,
}

impl View for WatcherSupervisor {
    type V = StateView;

    closed spec fn view(&self) -> StateView {
        self.state@
    }
}

impl WatcherSupervisor {
    /// A supervisor with a free slot.
    pub fn new() -> (r: WatcherSupervisor)
        ensures
            r@ is Idle,
    {
        WatcherSupervisor { state: WatchState::Idle }
    }

    /// Select which device to live-watch; `None` stops any active watch.
    pub fn select(&mut self, target: Option<WatchTarget>) -> (action: WatchAction)
        ensures
            final(self)@ == select_next(
                old(self)@,
                match target {
                    Some(t) => Some(t@),
                    None => None,
                },
            ),
            action@ == select_action(
                old(self)@,
                match target {
                    Some(t) => Some(t@),
                    None => None,
                },
            ),
    {
        let target = match target {
            None => {
                return self.stop();
            },
            Some(t) => t,
        };
        let next: WatchState;
        let action: WatchAction;
        match &self.state {
            WatchState::Idle => {
                next = WatchState::Starting(target.clone());
                action = WatchAction::Spawn(target);
            },
            WatchState::Starting(u) => {
                if u.selects_same(&target) {
                    next = WatchState::Starting(u.clone());
                    action = WatchAction::Stay;
                } else {
                    next = WatchState::Stopping(u.clone(), Some(target));
                    action = WatchAction::Cancel;
                }
            },
            WatchState::Running(u) => {
                if u.selects_same(&target) {
                    next = WatchState::Running(u.clone());
                    action = WatchAction::Stay;
                } else {
                    next = WatchState::Stopping(u.clone(), Some(target));
                    action = WatchAction::Cancel;
                }
            },
            WatchState::Stopping(u, _) => {
                next = WatchState::Stopping(u.clone(), Some(target));
                action = WatchAction::Stay;
            },
        }
        self.state = next;
        action
    }

    /// Stop any active watch; safe and idempotent from every state.
    pub fn stop(&mut self) -> (action: WatchAction)
        ensures
            final(self)@ == stop_next(old(self)@),
            action@ == stop_action(old(self)@),
    {
        let next: WatchState;
        let action: WatchAction;
        match &self.state {
            WatchState::Idle => {
                next = WatchState::Idle;
                action = WatchAction::Stay;
            },
            WatchState::Starting(u) => {
                next = WatchState::Stopping(u.clone(), None);
                action = WatchAction::Cancel;
            },
            WatchState::Running(u) => {
                next = WatchState::Stopping(u.clone(), None);
                action = WatchAction::Cancel;
            },
            WatchState::Stopping(u, _) => {
                next = WatchState::Stopping(u.clone(), None);
                action = WatchAction::Stay;
            },
        }
        self.state = next;
        action
    }

    /// The application reports the spawned task up and subscribed.
    pub fn task_started(&mut self)
        ensures
            final(self)@ == started_next(old(self)@),
    {
        if let WatchState::Starting(t) = &self.state {
            let running = WatchState::Running(t.clone());
            self.state = running;
        }
    }

    /// The application reports the task gone: joined after cancellation,
    /// or ended by itself, also by failure or panic. The slot frees up
    /// and a waiting target is spawned.
    pub fn task_ended(&mut self) -> (action: WatchAction)
        ensures
            final(self)@ == ended_next(old(self)@),
            action@ == ended_action(old(self)@),
    {
        let next: WatchState;
        let action: WatchAction;
        match &self.state {
            WatchState::Stopping(_, Some(t)) => {
                next = WatchState::Starting(t.clone());
                action = WatchAction::Spawn(t.clone());
            },
            _ => {
                next = WatchState::Idle;
                action = WatchAction::Stay;
            },
        }
        self.state = next;
        action
    }

    /// The address of the target whose task is live, if any.
    pub fn live_address(&self) -> (r: Option<u64>)
        ensures
            r == match live_target(self@) {
                Some(t) => Some(t.address),
                None => None::<u64>,
            },
    {
        match &self.state {
            WatchState::Idle => None,
            WatchState::Starting(t) => Some(t.address),
            WatchState::Running(t) => Some(t.address),
            WatchState::Stopping(t, _) => Some(t.address),
        }
    }

    /// Whether the slot is free.
    pub fn is_idle(&self) -> (r: bool)
        ensures
            r == (self@ is Idle),
    {
        matches!(&self.state, WatchState::Idle)
    }
}

/// A spawn is only ever requested for a free slot: `select` and `stop`
/// never ask the application to spawn while a task is live, and the only
/// transition that spawns a waiting target is the one reporting the old
/// task gone.
pub proof fn lemma_spawn_only_when_free(s: StateView, target: Option<TargetView>)
    ensures
        (select_action(s, target) is Spawn) ==> live_target(s) is None,
        !(stop_action(s) is Spawn),
        (ended_action(s) is Spawn) ==> live_target(ended_next(s)) == pending_target(s),
{
}

/// Law (watcher exclusivity): after selecting target `a` and then target
/// `b`, at no point do both watch tasks exist. Selecting `a` from the
/// free slot makes `a`'s task the live one; selecting `b` on top of it
/// leaves `a`'s task the only live one, with `b` at most waiting; `b`'s
/// task exists only once the application has reported `a`'s task gone.
pub proof fn lemma_watch_exclusive(a: TargetView, b: TargetView)
    ensures
        ({
            // before the spawned task reports in
            let s1 = select_next(StateView::Idle, Some(a));
            let s2 = select_next(s1, Some(b));
            &&& live_target(s1) == Some(a)
            &&& live_target(s2) == Some(a)
            &&& !(select_action(s1, Some(b)) is Spawn)
            &&& !same_selector(a, b) ==> pending_target(s2) == Some(b) && live_target(
                ended_next(s2),
            ) == Some(b)
            &&& same_selector(a, b) ==> s2 == s1
        }),
        ({
            // once a's task runs
            let r1 = started_next(select_next(StateView::Idle, Some(a)));
            let r2 = select_next(r1, Some(b));
            &&& live_target(r1) == Some(a)
            &&& live_target(r2) == Some(a)
            &&& !(select_action(r1, Some(b)) is Spawn)
            &&& !same_selector(a, b) ==> pending_target(r2) == Some(b) && live_target(
                ended_next(r2),
            ) == Some(b)
            &&& same_selector(a, b) ==> r2 == r1
        }),
{
}

} // verus!
