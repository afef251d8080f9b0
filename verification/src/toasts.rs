//! Toast notifications: their phases, their lifetimes and the list of toasts
//! on screen. Times are milliseconds on a monotonic clock.

use vstd::prelude::*;

verus! {

/// Where a toast stands in its life on screen.
#[derive(Clone, Copy, PartialEq, Eq, Debug, Structural)]
pub enum ToastPhase {
    Entering,
    Idle,
    Exiting,
}

/// What a toast says.
pub enum ToastKind {
    Info(String),
    Success(String),
    Error(String),
    ScanProgress,
}

/// A toast on screen.
pub struct Toast {
    pub id: u64,
    pub kind: ToastKind,
    /// When the toast was created.
    pub created_at: u64,
    /// How long the toast stays before it leaves by itself; `None` for a toast
    /// that stays until it is dismissed.
    pub duration: Option<u64>,
    pub phase: ToastPhase,
    /// The phase that the toast's animation has reached.
    pub anim_phase: ToastPhase,
    /// When the toast began to leave.
    pub exiting_at: Option<u64>,
}

/// How long a toast takes to slide in, and to slide out.
pub const TOAST_ANIMATION_MS: u64 = 250;

/// How long an information toast stays.
pub const INFO_TOAST_MS: u64 = 4000;

/// How long a success toast stays.
pub const SUCCESS_TOAST_MS: u64 = 4000;

/// How long an error toast stays.
pub const ERROR_TOAST_MS: u64 = 6000;

/// Milliseconds from `since` to `now`, or zero when `now` is earlier.
pub open spec fn elapsed(now: u64, since: u64) -> u64 {
    if now >= since {
        (now - since) as u64
    } else {
        0
    }
}

/// The toast after one step of the clock at `now`: an entering toast that has
/// been there longer than its slide-in becomes idle; a toast whose duration
/// has run out begins to leave, unless it is already leaving.
pub open spec fn advance(t: Toast, now: u64) -> Toast {
    let p1 = if t.phase == ToastPhase::Entering && elapsed(now, t.created_at) > TOAST_ANIMATION_MS {
        ToastPhase::Idle
    } else {
        t.phase
    };
    match t.duration {
        Some(d) => if elapsed(now, t.created_at) >= d && p1 != ToastPhase::Exiting {
            Toast { phase: ToastPhase::Exiting, exiting_at: Some(now), ..t }
        } else {
            Toast { phase: p1, ..t }
        },
        None => Toast { phase: p1, ..t },
    }
}

/// Whether a toast, once advanced to `now`, is still on screen: it is gone
/// once its slide-out has run its course.
pub open spec fn still_shown(t: Toast, now: u64) -> bool {
    match t.exiting_at {
        Some(e) => elapsed(now, e) < TOAST_ANIMATION_MS,
        None => true,
    }
}

/// The toast at `now`, or `None` when it has gone.
pub open spec fn tick_toast(t: Toast, now: u64) -> Option<Toast> {
    let a = advance(t, now);
    if still_shown(a, now) {
        Some(a)
    } else {
        None
    }
}

/// The toast after a click on it at `now`: it begins to leave; a message toast
/// also records when.
pub open spec fn dismissed(t: Toast, now: u64) -> Toast {
    match t.kind {
        ToastKind::ScanProgress => Toast { phase: ToastPhase::Exiting, ..t },
        _ => Toast { phase: ToastPhase::Exiting, exiting_at: Some(now), ..t },
    }
}

/// The toasts on screen, oldest first, and the identifier of the next toast.
pub struct ToastManager {
    pub toasts: Vec<Toast>,
    pub next_id: u64,
}

impl ToastManager {
    /// Identifiers grow from the oldest toast to the newest and all stand below
    /// the next identifier.
    pub open spec fn wf(&self) -> bool {
        &&& forall|i: int, j: int|
            0 <= i < j < self.toasts@.len() ==> #[trigger] self.toasts@[i].id < #[trigger] self.toasts@[j].id
        &&& forall|i: int| 0 <= i < self.toasts@.len() ==> #[trigger] self.toasts@[i].id < self.next_id
    }

    /// No two toasts that the manager keeps share an identifier, and the next
    /// toast's identifier is new.
    pub proof fn law_toast_ids_unique(&self)
        requires
            self.wf(),
        ensures
            forall|i: int, j: int|
                0 <= i < self.toasts@.len() && 0 <= j < self.toasts@.len() && i != j ==> #[trigger] self.toasts@[i].id
                    != #[trigger] self.toasts@[j].id,
            forall|i: int| 0 <= i < self.toasts@.len() ==> #[trigger] self.toasts@[i].id != self.next_id,
    {
        assert forall|i: int, j: int|
            0 <= i < self.toasts@.len() && 0 <= j < self.toasts@.len() && i != j implies #[trigger] self.toasts@[i].id
                != #[trigger] self.toasts@[j].id by {
            if i < j {
                assert(self.toasts@[i].id < self.toasts@[j].id);
            } else {
                assert(self.toasts@[j].id < self.toasts@[i].id);
            }
        }
    }

    /// No toasts; the first one will get identifier 0.
    pub fn new() -> (m: Self)
        ensures
            m.wf(),
            m.toasts@.len() == 0,
            m.next_id == 0,
    {
        ToastManager { toasts: Vec::new(), next_id: 0 }
    }

    /// Shows a new toast at `now`, entering, with the next identifier, and
    /// returns that identifier.
    pub fn spawn(&mut self, kind: ToastKind, duration: Option<u64>, now: u64) -> (id: u64)
        requires
            old(self).wf(),
            old(self).next_id < u64::MAX,
        ensures
            final(self).wf(),
            id == old(self).next_id,
            final(self).next_id == id + 1,
            final(self).toasts@ == old(self).toasts@.push(
                Toast {
                    id,
                    kind,
                    created_at: now,
                    duration,
                    phase: ToastPhase::Entering,
                    anim_phase: ToastPhase::Entering,
                    exiting_at: None,
                },
            ),
    {
        let id = self.next_id;
        self.next_id = self.next_id + 1;
        self.toasts.push(
            Toast {
                id,
                kind,
                created_at: now,
                duration,
                phase: ToastPhase::Entering,
                anim_phase: ToastPhase::Entering,
                exiting_at: None,
            },
        );
        id
    }

    /// Shows an information toast that stays four seconds.
    pub fn info(&mut self, msg: String, now: u64) -> (id: u64)
        requires
            old(self).wf(),
            old(self).next_id < u64::MAX,
        ensures
            final(self).wf(),
            id == old(self).next_id,
            final(self).next_id == id + 1,
            final(self).toasts@ == old(self).toasts@.push(
                Toast {
                    id,
                    kind: ToastKind::Info(msg),
                    created_at: now,
                    duration: Some(INFO_TOAST_MS),
                    phase: ToastPhase::Entering,
                    anim_phase: ToastPhase::Entering,
                    exiting_at: None,
                },
            ),
    {
        self.spawn(ToastKind::Info(msg), Some(INFO_TOAST_MS), now)
    }

    /// Shows a success toast that stays four seconds.
    pub fn success(&mut self, msg: String, now: u64) -> (id: u64)
        requires
            old(self).wf(),
            old(self).next_id < u64::MAX,
        ensures
            final(self).wf(),
            id == old(self).next_id,
            final(self).next_id == id + 1,
            final(self).toasts@ == old(self).toasts@.push(
                Toast {
                    id,
                    kind: ToastKind::Success(msg),
                    created_at: now,
                    duration: Some(SUCCESS_TOAST_MS),
                    phase: ToastPhase::Entering,
                    anim_phase: ToastPhase::Entering,
                    exiting_at: None,
                },
            ),
    {
        self.spawn(ToastKind::Success(msg), Some(SUCCESS_TOAST_MS), now)
    }

    /// Shows an error toast that stays six seconds.
    pub fn error(&mut self, msg: String, now: u64) -> (id: u64)
        requires
            old(self).wf(),
            old(self).next_id < u64::MAX,
        ensures
            final(self).wf(),
            id == old(self).next_id,
            final(self).next_id == id + 1,
            final(self).toasts@ == old(self).toasts@.push(
                Toast {
                    id,
                    kind: ToastKind::Error(msg),
                    created_at: now,
                    duration: Some(ERROR_TOAST_MS),
                    phase: ToastPhase::Entering,
                    anim_phase: ToastPhase::Entering,
                    exiting_at: None,
                },
            ),
    {
        self.spawn(ToastKind::Error(msg), Some(ERROR_TOAST_MS), now)
    }

    /// Shows the scan progress toast, which stays until it is dismissed.
    pub fn scanning_status(&mut self, now: u64) -> (id: u64)
        requires
            old(self).wf(),
            old(self).next_id < u64::MAX,
        ensures
            final(self).wf(),
            id == old(self).next_id,
            final(self).next_id == id + 1,
            final(self).toasts@ == old(self).toasts@.push(
                Toast {
                    id,
                    kind: ToastKind::ScanProgress,
                    created_at: now,
                    duration: None,
                    phase: ToastPhase::Entering,
                    anim_phase: ToastPhase::Entering,
                    exiting_at: None,
                },
            ),
    {
        self.spawn(ToastKind::ScanProgress, None, now)
    }

    /// Advances every toast to `now` and drops those whose slide-out is over,
    /// keeping the others in order.
    pub fn tick(&mut self, now: u64)
        requires
            old(self).wf(),
        ensures
            final(self).wf(),
            final(self).next_id == old(self).next_id,
            final(self).toasts@ == old(self).toasts@.filter_map(|t: Toast| tick_toast(t, now)),
    {
        let ghost orig = self.toasts@;
        let mut rest: Vec<Toast> = Vec::new();
        std::mem::swap(&mut rest, &mut self.toasts);
        let ghost f = |t: Toast| tick_toast(t, now);
        let mut j: usize = 0;
        let n = rest.len();
        while rest.len() > 0
            invariant
                n == orig.len(),
                j + rest@.len() == n,
                rest@ == orig.skip(j as int),
                self.toasts@ == orig.take(j as int).filter_map(f),
                self.next_id == old(self).next_id,
                f == (|t: Toast| tick_toast(t, now)),
                forall|a: int, b: int| 0 <= a < b < orig.len() ==> #[trigger] orig[a].id < #[trigger] orig[b].id,
                forall|a: int| 0 <= a < orig.len() ==> #[trigger] orig[a].id < self.next_id,
                forall|k: int| 0 <= k < self.toasts@.len() ==> exists|a: int| 0 <= a < j && #[trigger] self.toasts@[k].id == orig[a].id,
                forall|k: int, l: int| 0 <= k < l < self.toasts@.len() ==> #[trigger] self.toasts@[k].id < #[trigger] self.toasts@[l].id,
                forall|k: int| 0 <= k < self.toasts@.len() ==> #[trigger] self.toasts@[k].id < self.next_id,
            decreases rest@.len(),
        {
            let mut t = rest.remove(0);
            let ghost t0 = t;
            assert(t0 == orig[j as int]);
            let since_created = now.saturating_sub(t.created_at);
            if t.phase == ToastPhase::Entering && since_created > TOAST_ANIMATION_MS {
                t.phase = ToastPhase::Idle;
            }
            match t.duration {
                Some(d) => {
                    if since_created >= d && t.phase != ToastPhase::Exiting {
                        t.phase = ToastPhase::Exiting;
                        t.exiting_at = Some(now);
                    }
                },
                None => {},
            }
            let keep = match t.exiting_at {
                Some(e) => now.saturating_sub(e) < TOAST_ANIMATION_MS,
                None => true,
            };
            assert(t == advance(t0, now));
            proof {
                orig.lemma_filter_map_take_succ(f, j as int);
                assert(orig.skip(j as int + 1) =~= orig.skip(j as int).drop_first());
            }
            if keep {
                let ghost before = self.toasts@;
                self.toasts.push(t);
                proof {
                    assert forall|k: int| 0 <= k < self.toasts@.len() implies exists|a: int|
                        0 <= a < j + 1 && #[trigger] self.toasts@[k].id == orig[a].id by {
                        if k < before.len() {
                            let a = choose|a: int| 0 <= a < j && #[trigger] before[k].id == orig[a].id;
                            assert(self.toasts@[k].id == orig[a].id);
                        } else {
                            assert(self.toasts@[k].id == orig[j as int].id);
                        }
                    }
                    assert forall|k: int, l: int| 0 <= k < l < self.toasts@.len() implies #[trigger] self.toasts@[k].id
                        < #[trigger] self.toasts@[l].id by {
                        if l == before.len() {
                            let a = choose|a: int| 0 <= a < j && #[trigger] before[k].id == orig[a].id;
                            assert(orig[a].id < orig[j as int].id);
                        }
                    }
                }
            }
            j = j + 1;
        }
        assert(orig.take(n as int) =~= orig);
    }

    /// A click on the toast with identifier `id` at `now`: it begins to leave.
    pub fn dismiss(&mut self, id: u64, now: u64)
        requires
            old(self).wf(),
        ensures
            final(self).wf(),
            final(self).next_id == old(self).next_id,
            final(self).toasts@ == old(self).toasts@.map_values(
                |t: Toast| if t.id == id { dismissed(t, now) } else { t },
            ),
    {
        let ghost orig = self.toasts@;
        let ghost g = |t: Toast| if t.id == id { dismissed(t, now) } else { t };
        let n = self.toasts.len();
        let mut i: usize = 0;
        while i < n
            invariant
                n == orig.len(),
                self.toasts@.len() == n,
                i <= n,
                g == (|t: Toast| if t.id == id { dismissed(t, now) } else { t }),
                forall|k: int| 0 <= k < i ==> #[trigger] self.toasts@[k] == g(orig[k]),
                forall|k: int| i <= k < n ==> #[trigger] self.toasts@[k] == orig[k],
                self.next_id == old(self).next_id,
            decreases n - i,
        {
            if self.toasts[i].id == id {
                let mut t = self.toasts.remove(i);
                t.phase = ToastPhase::Exiting;
                match t.kind {
                    ToastKind::ScanProgress => {},
                    _ => {
                        t.exiting_at = Some(now);
                    },
                }
                self.toasts.insert(i, t);
            }
            i = i + 1;
        }
        assert(self.toasts@ =~= orig.map_values(g));
    }

    /// The animation of the toast with identifier `id` has caught up with its phase.
    pub fn settle_animation(&mut self, id: u64)
        requires
            old(self).wf(),
        ensures
            final(self).wf(),
            final(self).next_id == old(self).next_id,
            final(self).toasts@ == old(self).toasts@.map_values(
                |t: Toast| if t.id == id { Toast { anim_phase: t.phase, ..t } } else { t },
            ),
    {
        let ghost orig = self.toasts@;
        let ghost g = |t: Toast| if t.id == id { Toast { anim_phase: t.phase, ..t } } else { t };
        let n = self.toasts.len();
        let mut i: usize = 0;
        while i < n
            invariant
                n == orig.len(),
                self.toasts@.len() == n,
                i <= n,
                g == (|t: Toast| if t.id == id { Toast { anim_phase: t.phase, ..t } } else { t }),
                forall|k: int| 0 <= k < i ==> #[trigger] self.toasts@[k] == g(orig[k]),
                forall|k: int| i <= k < n ==> #[trigger] self.toasts@[k] == orig[k],
                self.next_id == old(self).next_id,
            decreases n - i,
        {
            if self.toasts[i].id == id {
                let mut t = self.toasts.remove(i);
                t.anim_phase = t.phase;
                self.toasts.insert(i, t);
            }
            i = i + 1;
        }
        assert(self.toasts@ =~= orig.map_values(g));
    }
}

/// A toast leaves the screen only once its slide-out has run its course; one
/// step of the clock keeps its identifier, kind and creation time; a leaving
/// toast keeps leaving; and a toast whose duration has run out is leaving.
pub proof fn law_toast_step(t: Toast, now: u64)
    ensures
        tick_toast(t, now) is None ==> (advance(t, now).exiting_at matches Some(e) && elapsed(now, e)
            >= TOAST_ANIMATION_MS),
        advance(t, now).id == t.id && advance(t, now).kind == t.kind && advance(t, now).created_at
            == t.created_at,
        t.phase == ToastPhase::Exiting ==> advance(t, now).phase == ToastPhase::Exiting,
        (t.duration matches Some(d) && elapsed(now, t.created_at) >= d) ==> advance(t, now).phase
            == ToastPhase::Exiting,
{
}

/// A toast that is not leaving yet, with a duration, leaves the screen at the
/// first step at least one slide-out after the step that finds its duration
/// run out.
pub proof fn law_timed_toast_leaves(t: Toast, d: u64, now1: u64, now2: u64)
    requires
        t.duration == Some(d),
        t.phase != ToastPhase::Exiting,
        t.exiting_at is None,
        elapsed(now1, t.created_at) >= d,
        now2 >= now1 + TOAST_ANIMATION_MS,
    ensures
        tick_toast(t, now1) matches Some(a) && tick_toast(a, now2) is None,
{
    let a = advance(t, now1);
    assert(a.exiting_at == Some(now1));
    assert(still_shown(a, now1));
    let b = advance(a, now2);
    assert(b.exiting_at == Some(now1));
}

/// The order of the phases in a toast's life: entering, idle, leaving.
pub open spec fn phase_rank(p: ToastPhase) -> int {
    match p {
        ToastPhase::Entering => 0,
        ToastPhase::Idle => 1,
        ToastPhase::Exiting => 2,
    }
}

/// The toast after the sweeps at the times `times`, in order, or `None` once
/// a sweep has removed it.
pub open spec fn run_toast(t: Toast, times: Seq<u64>) -> Option<Toast>
    decreases times.len(),
{
    if times.len() == 0 {
        Some(t)
    } else {
        match run_toast(t, times.drop_last()) {
            Some(a) => tick_toast(a, times.last()),
            None => None,
        }
    }
}

/// Over any run of sweeps, a toast keeps its identifier, kind, creation time
/// and duration, and its phase only moves forward, so it never goes back to
/// entering; a toast with no duration that is not leaving is never removed
/// and never starts to leave by itself; and a leaving toast keeps the moment
/// it began to leave.
pub proof fn law_toast_run(t: Toast, times: Seq<u64>)
    ensures
        run_toast(t, times) matches Some(r) ==> {
            &&& r.id == t.id
            &&& r.kind == t.kind
            &&& r.created_at == t.created_at
            &&& r.duration == t.duration
            &&& phase_rank(r.phase) >= phase_rank(t.phase)
        },
        t.phase != ToastPhase::Entering ==> (run_toast(t, times) matches Some(r) ==> r.phase
            != ToastPhase::Entering),
        (t.duration is None && t.exiting_at is None) ==> (run_toast(t, times) matches Some(r) && {
            &&& r.exiting_at is None
            &&& t.phase != ToastPhase::Exiting ==> r.phase != ToastPhase::Exiting
        }),
        (t.phase == ToastPhase::Exiting && t.exiting_at is Some) ==> (run_toast(t, times) matches Some(r)
            ==> r.phase == ToastPhase::Exiting && r.exiting_at == t.exiting_at),
    decreases times.len(),
{
    if times.len() > 0 {
        law_toast_run(t, times.drop_last());
    }
}

/// How a toast is drawn, from the phase its animation has reached and its
/// phase.
#[derive(Clone, Copy, PartialEq, Eq, Debug, Structural)]
pub enum ToastMotion {
    /// Off to the side and transparent.
    Hidden,
    /// In place and opaque.
    Shown,
    /// Sliding in and fading in.
    SlideIn,
    /// Sliding out and fading out.
    SlideOut,
    /// Drawn as it is, with no placement of its own.
    Unstyled,
}

/// How a toast is drawn: at rest when its animation has caught up with its
/// phase (hidden while entering or leaving, shown when idle); sliding in from
/// entering to idle, sliding out from idle to leaving.
pub fn toast_motion(anim_phase: ToastPhase, phase: ToastPhase) -> (m: ToastMotion)
    ensures
        m == if anim_phase == phase {
            if phase == ToastPhase::Idle {
                ToastMotion::Shown
            } else {
                ToastMotion::Hidden
            }
        } else if anim_phase == ToastPhase::Entering && phase == ToastPhase::Idle {
            ToastMotion::SlideIn
        } else if anim_phase == ToastPhase::Idle && phase == ToastPhase::Exiting {
            ToastMotion::SlideOut
        } else {
            ToastMotion::Unstyled
        },
{
    if anim_phase == phase {
        match phase {
            ToastPhase::Entering => ToastMotion::Hidden,
            ToastPhase::Idle => ToastMotion::Shown,
            ToastPhase::Exiting => ToastMotion::Hidden,
        }
    } else {
        match (anim_phase, phase) {
            (ToastPhase::Entering, ToastPhase::Idle) => ToastMotion::SlideIn,
            (ToastPhase::Idle, ToastPhase::Exiting) => ToastMotion::SlideOut,
            _ => ToastMotion::Unstyled,
        }
    }
}

} // verus!
