use vstd::prelude::*;

verus! {

/// Two trigger pulls closer together than this (in nanoseconds) count as a double pull.
pub const DOUBLE_CLICK_NANOS: u64 = 500_000_000;

/// The number of points a boundary needs before it encloses an area.
pub const MIN_POLYGON_POINTS: usize = 3;

/// The running state of the XR side of the application.
#[derive(Debug, Clone, PartialEq, Eq)]
pub enum XRState {
    Starting,
    Error(String),
    Running,
}

/// The lifecycle of the boundary configuration.
#[derive(Debug, Clone, Copy, PartialEq, Eq, Structural)]
pub enum Phase {
    /// No boundary has been drawn yet.
    Unconfigured,
    /// The user is tracing the play area.
    Drawing,
    /// The user is reviewing and adjusting the traced boundary.
    Review,
    /// The boundary is confirmed and the chaperone is rendered.
    Active,
}

/// The boundary part of the shared state, as a mathematical value.
pub struct BoundaryModel<P> {
    pub phase: Phase,
    pub trace: Seq<P>,
    pub polygon: Seq<P>,
    pub last_trigger: Option<u64>,
}

/// State shared between the XR thread and the user interface.
///
/// `P` is the type of a boundary point (a position on the floor plane). Time
/// stamps are nanoseconds on a monotonic clock chosen by the caller.
#[derive(Debug)]
pub struct AppState<P> {
    /// The state of the XR thread.
    pub xr_state: XRState,
    /// The configuration phase we are in.
    pub phase: Phase,
    /// Points captured during the current (or last) trace.
    pub trace_points: Vec<P>,
    /// The confirmed polygon used by the chaperone renderer.
    pub polygon: Vec<P>,
    /// Set by the XR thread when the runtime requests exit.
    pub xr_exit_requested: bool,
    /// Set by the UI when the user closes the window.
    pub ui_exit_requested: bool,
    /// Time of the last trigger pull during tracing.
    pub last_trigger_time: Option<u64>,
    /// Set while the stage offset monitor is connected.
    pub monado_available: bool,
    /// Set by the UI while a stage offset reset is pending.
    pub stage_reset_await: bool,
}

/// Time elapsed from `earlier` to `now`, or zero when `earlier` is later.
pub open spec fn elapsed(earlier: u64, now: u64) -> int {
    if now >= earlier {
        now - earlier
    } else {
        0
    }
}

/// Whether a pull at `now` follows the pull at `last` closely enough to be a double pull.
pub open spec fn is_double_pull(last: Option<u64>, now: u64) -> bool {
    match last {
        Some(t) => elapsed(t, now) < DOUBLE_CLICK_NANOS,
        None => false,
    }
}

/// Whether a pull at `now` ends the trace; `near_start` says whether the pulled
/// position lies within the closing distance of the first traced point.
pub open spec fn finishes_trace<P>(m: BoundaryModel<P>, now: u64, near_start: bool) -> bool {
    &&& is_double_pull(m.last_trigger, now) || (m.trace.len() > 0 && near_start)
    &&& m.trace.len() >= MIN_POLYGON_POINTS
    &&& m.phase == Phase::Drawing
}

/// The boundary after a trigger pull at position `p`.
pub open spec fn after_push<P>(m: BoundaryModel<P>, p: P, now: u64, near_start: bool) -> BoundaryModel<P> {
    if finishes_trace(m, now, near_start) {
        BoundaryModel { phase: Phase::Review, trace: m.trace, polygon: m.trace, last_trigger: Some(now) }
    } else {
        BoundaryModel { phase: m.phase, trace: m.trace.push(p), polygon: m.polygon, last_trigger: Some(now) }
    }
}

/// The boundary after confirming the trace as the active polygon.
pub open spec fn after_confirm<P>(m: BoundaryModel<P>) -> BoundaryModel<P> {
    if m.trace.len() >= MIN_POLYGON_POINTS {
        BoundaryModel { phase: Phase::Active, trace: m.trace, polygon: m.trace, last_trigger: m.last_trigger }
    } else {
        m
    }
}

/// The boundary after ending the trace early and moving to review.
pub open spec fn after_stop<P>(m: BoundaryModel<P>) -> BoundaryModel<P> {
    if m.trace.len() >= MIN_POLYGON_POINTS {
        BoundaryModel { phase: Phase::Review, trace: m.trace, polygon: m.trace, last_trigger: m.last_trigger }
    } else {
        m
    }
}

/// The boundary after discarding the trace and returning to setup.
pub open spec fn after_reset<P>(m: BoundaryModel<P>) -> BoundaryModel<P> {
    BoundaryModel { phase: Phase::Unconfigured, trace: Seq::empty(), polygon: m.polygon, last_trigger: m.last_trigger }
}

/// The boundary after starting a fresh trace.
pub open spec fn after_start<P>(m: BoundaryModel<P>) -> BoundaryModel<P> {
    BoundaryModel { phase: Phase::Drawing, trace: Seq::empty(), polygon: m.polygon, last_trigger: m.last_trigger }
}

/// The boundary after opening the active polygon for editing.
pub open spec fn after_edit<P>(m: BoundaryModel<P>) -> BoundaryModel<P> {
    BoundaryModel { phase: Phase::Review, trace: m.polygon, polygon: m.polygon, last_trigger: m.last_trigger }
}

/// The boundary after cancelling an edit, restoring `previous` when there is one.
pub open spec fn after_cancel<P>(m: BoundaryModel<P>, previous: Option<Seq<P>>) -> BoundaryModel<P> {
    let polygon = match previous {
        Some(prev) => prev,
        None => m.polygon,
    };
    BoundaryModel { phase: Phase::Active, trace: m.trace, polygon, last_trigger: m.last_trigger }
}

/// The boundary after dragging trace point `idx` to `p`.
pub open spec fn after_move<P>(m: BoundaryModel<P>, idx: int, p: P) -> BoundaryModel<P> {
    if 0 <= idx < m.trace.len() {
        BoundaryModel { phase: m.phase, trace: m.trace.update(idx, p), polygon: m.polygon, last_trigger: m.last_trigger }
    } else {
        m
    }
}

/// Where a point inserted on the edge after vertex `after` lands.
pub open spec fn insert_position(len: int, after: int) -> int {
    if after < len {
        after + 1
    } else {
        len
    }
}

/// The boundary after inserting `p` on the edge that follows trace point `after`.
pub open spec fn after_insert<P>(m: BoundaryModel<P>, after: int, p: P) -> BoundaryModel<P> {
    BoundaryModel {
        phase: m.phase,
        trace: m.trace.insert(insert_position(m.trace.len() as int, after), p),
        polygon: m.polygon,
        last_trigger: m.last_trigger,
    }
}

/// The boundary after deleting trace point `idx`, which only happens while
/// more than three points remain.
pub open spec fn after_delete<P>(m: BoundaryModel<P>, idx: int) -> BoundaryModel<P> {
    if m.trace.len() > MIN_POLYGON_POINTS {
        BoundaryModel { phase: m.phase, trace: m.trace.remove(idx), polygon: m.polygon, last_trigger: m.last_trigger }
    } else {
        m
    }
}

/// The position a trigger pull records: the pulled controller's, else the other one's.
pub open spec fn picked_position<P>(
    right_pressed: bool,
    left_pressed: bool,
    was_pressed: bool,
    right: Option<P>,
    left: Option<P>,
) -> Option<P> {
    if (right_pressed || left_pressed) && !was_pressed {
        if right_pressed {
            if right is Some { right } else { left }
        } else {
            if left is Some { left } else { right }
        }
    } else {
        None
    }
}

/// A copy of a sequence of points.
fn copy_points<P: Copy>(points: &Vec<P>) -> (res: Vec<P>)
    ensures
        res@ == points@,
{
    let mut res: Vec<P> = Vec::new();
    let n = points.len();
    for i in 0..n
        invariant
            n == points.len(),
            res@ == points@.take(i as int),
    {
        res.push(points[i]);
        assert(points@.take(i + 1) == points@.take(i as int).push(points@[i as int]));
    }
    assert(points@.take(n as int) == points@);
    res
}

/// Chooses the position to record when the triggers change state; returns
/// `None` unless a trigger has just been pressed. `was_pressed` remembers
/// whether either trigger was held.
pub fn triggered_trace_point<P: Copy>(
    right_pressed: bool,
    left_pressed: bool,
    was_pressed: &mut bool,
    right: Option<P>,
    left: Option<P>,
) -> (res: Option<P>)
    ensures
        res == picked_position(right_pressed, left_pressed, *old(was_pressed), right, left),
        *final(was_pressed) == (right_pressed || left_pressed),
        res is Some ==> (right_pressed || left_pressed) && !*old(was_pressed),
        res is Some ==> res == right || res == left,
        (right_pressed && !*old(was_pressed) && right is Some) ==> res == right,
        (left_pressed && !right_pressed && !*old(was_pressed) && left is Some) ==> res == left,
        ((right_pressed || left_pressed) && !*old(was_pressed) && (right is Some || left is Some))
            ==> res is Some,
{
    let either = right_pressed || left_pressed;
    let res = if either && !*was_pressed {
        if right_pressed {
            match right {
                Some(r) => Some(r),
                None => left,
            }
        } else {
            match left {
                Some(l) => Some(l),
                None => right,
            }
        }
    } else {
        None
    };
    *was_pressed = either;
    res
}

impl<P> AppState<P> {
    /// The boundary part of the state.
    pub open spec fn boundary(&self) -> BoundaryModel<P> {
        BoundaryModel {
            phase: self.phase,
            trace: self.trace_points@,
            polygon: self.polygon@,
            last_trigger: self.last_trigger_time,
        }
    }

    /// Whether the fields outside the boundary agree.
    pub open spec fn same_runtime(&self, other: &Self) -> bool {
        &&& self.xr_state == other.xr_state
        &&& self.xr_exit_requested == other.xr_exit_requested
        &&& self.ui_exit_requested == other.ui_exit_requested
        &&& self.monado_available == other.monado_available
        &&& self.stage_reset_await == other.stage_reset_await
    }

    /// A fresh state: XR starting, nothing configured.
    pub fn new() -> (s: Self)
        ensures
            s.xr_state == XRState::Starting,
            s.phase == Phase::Unconfigured,
            s.trace_points@.len() == 0,
            s.polygon@.len() == 0,
            !s.xr_exit_requested,
            !s.ui_exit_requested,
            s.last_trigger_time is None,
            !s.monado_available,
            !s.stage_reset_await,
    {
        AppState {
            xr_state: XRState::Starting,
            phase: Phase::Unconfigured,
            trace_points: Vec::new(),
            polygon: Vec::new(),
            xr_exit_requested: false,
            ui_exit_requested: false,
            last_trigger_time: None,
            monado_available: false,
            stage_reset_await: false,
        }
    }
}

impl<P: Copy> AppState<P> {
    /// Records a trigger pull at position `p`, made at time `now`.
    ///
    /// A pull that follows the previous one within the double-pull window, or
    /// whose position is `near_start` (within the closing distance of the first
    /// traced point), finishes the trace while drawing with at least three
    /// points: the trace becomes the polygon, the point is not added and the
    /// phase moves to review. Any other pull appends the point.
    pub fn push_trace_point(&mut self, p: P, now: u64, near_start: bool)
        ensures
            final(self).boundary() == after_push(old(self).boundary(), p, now, near_start),
            final(self).same_runtime(old(self)),
            final(self).last_trigger_time == Some(now),
            ({
                let n = old(self).trace_points@.len();
                let double = match old(self).last_trigger_time {
                    Some(t) => (if now >= t { now - t } else { 0 }) < DOUBLE_CLICK_NANOS,
                    None => false,
                };
                if (double || (n > 0 && near_start)) && n >= 3 && old(self).phase == Phase::Drawing {
                    &&& final(self).phase == Phase::Review
                    &&& final(self).polygon@ == old(self).trace_points@
                    &&& final(self).trace_points@ == old(self).trace_points@
                } else {
                    &&& final(self).phase == old(self).phase
                    &&& final(self).polygon@ == old(self).polygon@
                    &&& final(self).trace_points@ == old(self).trace_points@.push(p)
                }
            }),
    {
        let is_double_click = match self.last_trigger_time {
            Some(t) => {
                let since = if now >= t { now - t } else { 0 };
                since < DOUBLE_CLICK_NANOS
            },
            None => false,
        };
        let is_close_to_start = self.trace_points.len() > 0 && near_start;
        if (is_double_click || is_close_to_start) && self.trace_points.len() >= MIN_POLYGON_POINTS
            && self.phase == Phase::Drawing {
            self.polygon = copy_points(&self.trace_points);
            self.phase = Phase::Review;
            self.last_trigger_time = Some(now);
            return;
        }
        self.trace_points.push(p);
        self.last_trigger_time = Some(now);
    }

    /// Confirms the current trace as the active polygon, when it has at least
    /// three points; returns whether it did.
    pub fn confirm_polygon(&mut self) -> (confirmed: bool)
        ensures
            confirmed == (old(self).trace_points@.len() >= MIN_POLYGON_POINTS),
            final(self).boundary() == after_confirm(old(self).boundary()),
            final(self).same_runtime(old(self)),
            final(self).trace_points@ == old(self).trace_points@,
            old(self).trace_points@.len() >= 3 ==> final(self).phase == Phase::Active
                && final(self).polygon@ == old(self).trace_points@,
            old(self).trace_points@.len() < 3 ==> final(self).phase == old(self).phase
                && final(self).polygon@ == old(self).polygon@,
    {
        if self.trace_points.len() >= MIN_POLYGON_POINTS {
            self.polygon = copy_points(&self.trace_points);
            self.phase = Phase::Active;
            true
        } else {
            false
        }
    }

    /// Ends tracing and moves to review, when the trace has at least three points.
    pub fn stop_tracing(&mut self)
        ensures
            final(self).boundary() == after_stop(old(self).boundary()),
            final(self).same_runtime(old(self)),
            final(self).trace_points@ == old(self).trace_points@,
            old(self).trace_points@.len() >= 3 ==> final(self).phase == Phase::Review
                && final(self).polygon@ == old(self).trace_points@,
            old(self).trace_points@.len() < 3 ==> final(self).phase == old(self).phase
                && final(self).polygon@ == old(self).polygon@,
    {
        if self.trace_points.len() >= MIN_POLYGON_POINTS {
            self.polygon = copy_points(&self.trace_points);
            self.phase = Phase::Review;
        }
    }

    /// Discards the current trace and goes back to setup.
    pub fn reset_trace(&mut self)
        ensures
            final(self).boundary() == after_reset(old(self).boundary()),
            final(self).same_runtime(old(self)),
            final(self).phase == Phase::Unconfigured,
            final(self).trace_points@.len() == 0,
            final(self).polygon@ == old(self).polygon@,
    {
        self.trace_points.clear();
        self.phase = Phase::Unconfigured;
    }

    /// Discards the current trace and starts tracing afresh.
    pub fn start_tracing(&mut self)
        ensures
            final(self).boundary() == after_start(old(self).boundary()),
            final(self).same_runtime(old(self)),
            final(self).phase == Phase::Drawing,
            final(self).trace_points@.len() == 0,
            final(self).polygon@ == old(self).polygon@,
    {
        self.trace_points.clear();
        self.phase = Phase::Drawing;
    }

    /// Opens the active polygon for editing in review.
    pub fn edit_boundary(&mut self)
        ensures
            final(self).boundary() == after_edit(old(self).boundary()),
            final(self).same_runtime(old(self)),
            final(self).phase == Phase::Review,
            final(self).trace_points@ == old(self).polygon@,
            final(self).polygon@ == old(self).polygon@,
    {
        self.trace_points = copy_points(&self.polygon);
        self.phase = Phase::Review;
    }

    /// Cancels an edit: restores the `previous` polygon when there is one and
    /// returns to the active phase.
    pub fn cancel_edit(&mut self, previous: Option<Vec<P>>)
        ensures
            final(self).boundary() == after_cancel(
                old(self).boundary(),
                match previous { Some(v) => Some(v@), None => None },
            ),
            final(self).same_runtime(old(self)),
            final(self).phase == Phase::Active,
            final(self).trace_points@ == old(self).trace_points@,
            final(self).polygon@ == (match previous { Some(v) => v@, None => old(self).polygon@ }),
    {
        match previous {
            Some(prev) => {
                self.polygon = prev;
            },
            None => {},
        }
        self.phase = Phase::Active;
    }

    /// Moves trace point `idx` to `p`; an index past the end changes nothing.
    pub fn move_vertex(&mut self, idx: usize, p: P)
        ensures
            final(self).boundary() == after_move(old(self).boundary(), idx as int, p),
            final(self).same_runtime(old(self)),
            final(self).trace_points@.len() == old(self).trace_points@.len(),
            idx < old(self).trace_points@.len() ==> final(self).trace_points@[idx as int] == p,
            forall|j: int| 0 <= j < old(self).trace_points@.len() && j != idx ==>
                #[trigger] final(self).trace_points@[j] == old(self).trace_points@[j],
            final(self).phase == old(self).phase,
            final(self).polygon@ == old(self).polygon@,
    {
        if idx < self.trace_points.len() {
            self.trace_points.set(idx, p);
        }
    }

    /// Inserts `p` on the edge that follows trace point `after` (at the end
    /// when `after` is past the last point).
    pub fn insert_vertex(&mut self, after: usize, p: P)
        ensures
            final(self).boundary() == after_insert(old(self).boundary(), after as int, p),
            final(self).same_runtime(old(self)),
            final(self).trace_points@.len() == old(self).trace_points@.len() + 1,
            after < old(self).trace_points@.len() ==> final(self).trace_points@ == old(self).trace_points@.insert(
                after + 1,
                p,
            ),
            after >= old(self).trace_points@.len() ==> final(self).trace_points@ == old(self).trace_points@.push(p),
            final(self).phase == old(self).phase,
            final(self).polygon@ == old(self).polygon@,
    {
        let len = self.trace_points.len();
        let at = if after < len { after + 1 } else { len };
        self.trace_points.insert(at, p);
    }

    /// Removes trace point `idx`, as long as more than three points remain.
    pub fn delete_vertex(&mut self, idx: usize)
        requires
            old(self).trace_points.len() > MIN_POLYGON_POINTS ==> idx < old(self).trace_points.len(),
        ensures
            final(self).boundary() == after_delete(old(self).boundary(), idx as int),
            final(self).same_runtime(old(self)),
            old(self).trace_points@.len() > 3 ==> final(self).trace_points@ == old(self).trace_points@.remove(
                idx as int,
            ),
            old(self).trace_points@.len() <= 3 ==> final(self).trace_points@ == old(self).trace_points@,
            final(self).trace_points@.len() >= 3 || final(self).trace_points@ == old(self).trace_points@,
            final(self).phase == old(self).phase,
            final(self).polygon@ == old(self).polygon@,
    {
        if self.trace_points.len() > MIN_POLYGON_POINTS {
            self.trace_points.remove(idx);
        }
    }
}

impl<P> AppState<P> {
    /// Records that the XR thread failed with `message`: the failure is shown
    /// unless XR was already running, and an exit is requested either way.
    pub fn record_xr_failure(&mut self, message: String)
        ensures
            final(self).xr_state == (match old(self).xr_state {
                XRState::Running => XRState::Running,
                _ => XRState::Error(message),
            }),
            final(self).xr_exit_requested,
            final(self).boundary() == old(self).boundary(),
            final(self).ui_exit_requested == old(self).ui_exit_requested,
            final(self).monado_available == old(self).monado_available,
            final(self).stage_reset_await == old(self).stage_reset_await,
    {
        match self.xr_state {
            XRState::Running => {},
            _ => {
                self.xr_state = XRState::Error(message);
            },
        }
        self.xr_exit_requested = true;
    }
}

/// While a boundary is shown for review or rendered, it has at least three points.
pub open spec fn shown_polygon_closed<P>(m: BoundaryModel<P>) -> bool {
    (m.phase == Phase::Review || m.phase == Phase::Active) ==> m.polygon.len() >= MIN_POLYGON_POINTS
}

/// A second pull within the double-pull window of a pull that added the last
/// point finishes the trace: the polygon is the trace including that point,
/// and the second position is not added.
pub proof fn lemma_double_pull_finishes<P>(
    m: BoundaryModel<P>,
    p: P,
    t1: u64,
    near1: bool,
    q: P,
    t2: u64,
    near2: bool,
)
    requires
        m.phase == Phase::Drawing,
        m.trace.len() >= MIN_POLYGON_POINTS - 1,
        !finishes_trace(m, t1, near1),
        t1 <= t2,
        t2 - t1 < DOUBLE_CLICK_NANOS,
    ensures
        ({
            let m1 = after_push(m, p, t1, near1);
            let m2 = after_push(m1, q, t2, near2);
            &&& m2.phase == Phase::Review
            &&& m2.polygon == m.trace.push(p)
            &&& m2.trace == m.trace.push(p)
        }),
{
}

/// A pull near the first traced point, while drawing with at least three
/// points, closes the boundary without adding the pulled position.
pub proof fn lemma_pull_near_start_closes<P>(m: BoundaryModel<P>, p: P, now: u64)
    requires
        m.phase == Phase::Drawing,
        m.trace.len() >= MIN_POLYGON_POINTS,
    ensures
        after_push(m, p, now, true).phase == Phase::Review,
        after_push(m, p, now, true).polygon == m.trace,
        after_push(m, p, now, true).trace == m.trace,
{
}

/// Outside a double pull, and away from the first point, a pull appends its position.
pub proof fn lemma_pull_appends<P>(m: BoundaryModel<P>, p: P, now: u64)
    requires
        !is_double_pull(m.last_trigger, now),
    ensures
        after_push(m, p, now, false).trace == m.trace.push(p),
        after_push(m, p, now, false).phase == m.phase,
        after_push(m, p, now, false).polygon == m.polygon,
{
}

/// Ending a trace of at least three points opens it for review as the
/// polygon; a shorter trace changes nothing.
pub proof fn lemma_stop_opens_review<P>(m: BoundaryModel<P>)
    ensures
        m.trace.len() >= MIN_POLYGON_POINTS ==> after_stop(m).phase == Phase::Review
            && after_stop(m).polygon == m.trace && after_stop(m).trace == m.trace,
        m.trace.len() < MIN_POLYGON_POINTS ==> after_stop(m) == m,
{
}

/// Confirming a trace of at least three points makes it the active polygon;
/// a shorter trace changes nothing.
pub proof fn lemma_confirm_activates<P>(m: BoundaryModel<P>)
    ensures
        m.trace.len() >= MIN_POLYGON_POINTS ==> after_confirm(m).phase == Phase::Active
            && after_confirm(m).polygon == m.trace && after_confirm(m).trace == m.trace,
        m.trace.len() < MIN_POLYGON_POINTS ==> after_confirm(m) == m,
{
}

/// Ending the trace and confirming it take effect on the same traces and
/// leave the same polygon; they differ only in the phase they move to.
pub proof fn lemma_stop_and_confirm_agree<P>(m: BoundaryModel<P>)
    ensures
        after_stop(m).polygon == after_confirm(m).polygon,
        after_stop(m).trace == after_confirm(m).trace,
        after_confirm(after_stop(m)) == after_confirm(m),
{
}

/// A recorded position is the pulled controller's when it is tracked, else
/// the other controller's; nothing is recorded without a fresh pull.
pub proof fn lemma_picked_position_meaning<P>(
    right_pressed: bool,
    left_pressed: bool,
    was_pressed: bool,
    right: Option<P>,
    left: Option<P>,
)
    ensures
        ({
            let r = picked_position(right_pressed, left_pressed, was_pressed, right, left);
            &&& r is Some ==> (right_pressed || left_pressed) && !was_pressed
            &&& r is Some ==> r == right || r == left
            &&& (right_pressed && !was_pressed && right is Some) ==> r == right
            &&& (left_pressed && !right_pressed && !was_pressed && left is Some) ==> r == left
            &&& ((right_pressed || left_pressed) && !was_pressed && (right is Some || left is Some)) ==> r is Some
        }),
{
}

/// Confirming twice is the same as confirming once.
pub proof fn lemma_confirm_idempotent<P>(m: BoundaryModel<P>)
    ensures
        after_confirm(after_confirm(m)) == after_confirm(m),
{
}

/// Deleting the point that was just inserted gives back the trace, as long as
/// the trace had at least three points.
pub proof fn lemma_insert_then_delete_restores<P>(m: BoundaryModel<P>, after: int, p: P)
    requires
        m.trace.len() >= MIN_POLYGON_POINTS,
        after >= 0,
    ensures
        after_delete(after_insert(m, after, p), insert_position(m.trace.len() as int, after)) == m,
{
    let at = insert_position(m.trace.len() as int, after);
    assert(m.trace.insert(at, p).remove(at) =~= m.trace);
}

/// Deleting never leaves a trace of at least three points with fewer than three.
pub proof fn lemma_delete_keeps_three<P>(m: BoundaryModel<P>, idx: int)
    requires
        m.trace.len() >= MIN_POLYGON_POINTS,
        m.trace.len() > MIN_POLYGON_POINTS ==> 0 <= idx < m.trace.len(),
    ensures
        after_delete(m, idx).trace.len() >= MIN_POLYGON_POINTS,
{
}

/// Editing a closed polygon and confirming it unchanged gives it back, active.
pub proof fn lemma_edit_then_confirm_keeps_polygon<P>(m: BoundaryModel<P>)
    requires
        m.polygon.len() >= MIN_POLYGON_POINTS,
    ensures
        after_confirm(after_edit(m)).polygon == m.polygon,
        after_confirm(after_edit(m)).phase == Phase::Active,
{
}

/// Resetting leaves nothing to confirm.
pub proof fn lemma_reset_then_confirm<P>(m: BoundaryModel<P>)
    ensures
        after_confirm(after_reset(m)) == after_reset(m),
        after_reset(m).phase == Phase::Unconfigured,
{
}

/// Every operation keeps a shown boundary closed; editing does so from the
/// active phase (where it is offered), cancelling when the polygon it restores
/// (or keeps) is closed.
pub proof fn lemma_shown_polygon_stays_closed<P>(
    m: BoundaryModel<P>,
    p: P,
    now: u64,
    near_start: bool,
    idx: int,
    after: int,
    previous: Option<Seq<P>>,
)
    requires
        shown_polygon_closed(m),
    ensures
        shown_polygon_closed(after_push(m, p, now, near_start)),
        shown_polygon_closed(after_confirm(m)),
        shown_polygon_closed(after_stop(m)),
        shown_polygon_closed(after_reset(m)),
        shown_polygon_closed(after_start(m)),
        m.phase == Phase::Active ==> shown_polygon_closed(after_edit(m)),
        shown_polygon_closed(after_move(m, idx, p)),
        shown_polygon_closed(after_insert(m, after, p)),
        shown_polygon_closed(after_delete(m, idx)),
        (match previous {
            Some(prev) => prev.len() >= MIN_POLYGON_POINTS,
            None => m.polygon.len() >= MIN_POLYGON_POINTS,
        }) ==> shown_polygon_closed(after_cancel(m, previous)),
{
}

/// Holding a trigger records a single point: while it stays pressed, later
/// updates pick nothing.
pub proof fn lemma_held_trigger_records_once<P>(
    right_pressed: bool,
    left_pressed: bool,
    right: Option<P>,
    left: Option<P>,
)
    requires
        right_pressed || left_pressed,
    ensures
        picked_position(right_pressed, left_pressed, true, right, left) is None,
        (right is Some || left is Some) ==> picked_position(right_pressed, left_pressed, false, right, left) is Some,
{
}

} // verus!
