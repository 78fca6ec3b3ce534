use vstd::prelude::*;
use crate::app_state::Phase;

verus! {

/// Behaviour of the boundary canvas's coordinate system.
///
/// - `Fixed`: a static view of the area around the origin (used while tracing)
/// - `Fitted`: zoomed to fit the boundary (used on the main page)
/// - `FittedEditable`: fitted with a wider margin, with editable vertices (used during review)
#[derive(Debug, Clone, Copy, PartialEq, Eq, Structural)]
pub enum CanvasMode {
    Fixed { closed: bool },
    Fitted { closed: bool },
    FittedEditable,
}

/// A pointer event on the canvas, as far as the canvas reacts to it.
#[derive(Debug, Clone, Copy, PartialEq, Eq, Structural)]
pub enum PointerEvent {
    LeftPressed,
    RightPressed,
    Moved,
    LeftReleased,
    CursorLeft,
    Other,
}

/// What a pointer event on the editable canvas asks of the application.
#[derive(Debug, Clone, Copy, PartialEq, Eq, Structural)]
pub enum CanvasAction {
    /// Start dragging vertex `i`.
    DragStart(usize),
    /// Insert a vertex at the midpoint of the edge after vertex `i`.
    InsertVertex(usize),
    /// Delete vertex `i`.
    DeleteVertex(usize),
    /// Move the dragged vertex to the pointer.
    DragMove,
    /// Stop dragging.
    DragEnd,
}

/// How the pointer is drawn over the canvas.
#[derive(Debug, Clone, Copy, PartialEq, Eq, Structural)]
pub enum PointerStyle {
    Idle,
    Grab,
    Grabbing,
}

impl CanvasMode {
    /// Whether the canvas lets the user edit the boundary.
    pub fn is_editable(&self) -> (res: bool)
        ensures
            res == (*self is FittedEditable),
    {
        match self {
            CanvasMode::FittedEditable => true,
            _ => false,
        }
    }
}

/// The canvas shown in each phase: none during setup, a fixed open trace while
/// drawing, an editable fitted polygon in review, a fitted closed polygon when active.
pub open spec fn phase_canvas(phase: Phase) -> Option<CanvasMode> {
    match phase {
        Phase::Unconfigured => None,
        Phase::Drawing => Some(CanvasMode::Fixed { closed: false }),
        Phase::Review => Some(CanvasMode::FittedEditable),
        Phase::Active => Some(CanvasMode::Fitted { closed: true }),
    }
}

/// The canvas to show in `phase`.
pub fn canvas_mode_for_phase(phase: Phase) -> (res: Option<CanvasMode>)
    ensures
        res == phase_canvas(phase),
        res is None <==> phase == Phase::Unconfigured,
        res == Some(CanvasMode::FittedEditable) <==> phase == Phase::Review,
        phase == Phase::Drawing ==> res == Some(CanvasMode::Fixed { closed: false }),
        phase == Phase::Active ==> res == Some(CanvasMode::Fitted { closed: true }),
{
    match phase {
        Phase::Unconfigured => None,
        Phase::Drawing => Some(CanvasMode::Fixed { closed: false }),
        Phase::Review => Some(CanvasMode::FittedEditable),
        Phase::Active => Some(CanvasMode::Fitted { closed: true }),
    }
}

/// Only the review canvas is editable; tracing shows an open trace on a fixed
/// view, the active screen a closed polygon fitted to the view, and setup no canvas.
pub proof fn lemma_canvas_per_phase(phase: Phase)
    ensures
        phase_canvas(phase) is None <==> phase == Phase::Unconfigured,
        phase_canvas(phase) == Some(CanvasMode::FittedEditable) <==> phase == Phase::Review,
        phase == Phase::Drawing ==> phase_canvas(phase) == Some(CanvasMode::Fixed { closed: false }),
        phase == Phase::Active ==> phase_canvas(phase) == Some(CanvasMode::Fitted { closed: true }),
{
}

/// Whether `i` is the first position at which `hits` holds.
pub open spec fn is_first_hit(hits: Seq<bool>, i: int) -> bool {
    &&& 0 <= i < hits.len()
    &&& hits[i]
    &&& forall|j: int| 0 <= j < i ==> !#[trigger] hits[j]
}

/// The first position at which `hits` holds, if any.
pub open spec fn first_hit(hits: Seq<bool>) -> Option<int> {
    if exists|i: int| is_first_hit(hits, i) {
        Some(choose|i: int| is_first_hit(hits, i))
    } else {
        None
    }
}

proof fn lemma_first_hit_unique(hits: Seq<bool>, i: int)
    requires
        is_first_hit(hits, i),
    ensures
        first_hit(hits) == Some(i),
{
    let c = choose|k: int| is_first_hit(hits, k);
    assert(is_first_hit(hits, c));
    if c < i {
        assert(!hits[c]);
    } else if i < c {
        assert(!hits[i]);
    }
}

proof fn lemma_some_hit_has_first(hits: Seq<bool>, k: int)
    requires
        0 <= k < hits.len(),
        hits[k],
    ensures
        exists|i: int| is_first_hit(hits, i),
    decreases k,
{
    if exists|j: int| 0 <= j < k && hits[j] {
        let j = choose|j: int| 0 <= j < k && hits[j];
        lemma_some_hit_has_first(hits, j);
    } else {
        assert(is_first_hit(hits, k));
    }
}

/// The first hit holds and none before it does; there is none exactly when
/// nothing holds.
pub proof fn lemma_first_hit_meaning(hits: Seq<bool>)
    ensures
        first_hit(hits) matches Some(i) ==> 0 <= i < hits.len() && hits[i] && forall|j: int|
            0 <= j < i ==> !#[trigger] hits[j],
        first_hit(hits) is None <==> !hits.contains(true),
{
    if hits.contains(true) {
        let k = choose|k: int| 0 <= k < hits.len() && hits[k] == true;
        lemma_some_hit_has_first(hits, k);
    }
    if first_hit(hits) is Some {
        let i = choose|i: int| is_first_hit(hits, i);
        assert(hits[i]);
    }
}

/// Only the editable canvas reacts to the pointer: on any other canvas no
/// action comes of an event and the dragged vertex stays as it is.
pub proof fn lemma_only_editable_canvas_reacts(
    mode: CanvasMode,
    event: PointerEvent,
    dragging: Option<usize>,
    vertex_hits: Seq<bool>,
    midpoint_hits: Seq<bool>,
)
    requires
        !(mode is FittedEditable),
    ensures
        canvas_step(mode, event, dragging, vertex_hits, midpoint_hits) == (None::<CanvasAction>, dragging),
{
}

/// On the editable canvas, a left press on a vertex starts dragging the first
/// vertex under the pointer, and a release ends any drag.
pub proof fn lemma_editable_canvas_drags(
    dragging: Option<usize>,
    vertex_hits: Seq<bool>,
    midpoint_hits: Seq<bool>,
    k: int,
)
    requires
        0 <= k < vertex_hits.len(),
        vertex_hits[k],
        dragging is Some,
    ensures
        ({
            let (a, d) = canvas_step(CanvasMode::FittedEditable, PointerEvent::LeftPressed, None, vertex_hits, midpoint_hits);
            exists|i: int| 0 <= i <= k && vertex_hits[i] && a == Some(CanvasAction::DragStart(i as usize)) && d == Some(i as usize)
        }),
        canvas_step(CanvasMode::FittedEditable, PointerEvent::LeftReleased, dragging, vertex_hits, midpoint_hits)
            == (Some(CanvasAction::DragEnd), None::<usize>),
{
    lemma_first_hit_meaning(vertex_hits);
    let i = first_hit(vertex_hits)->0;
    assert(i <= k) by {
        if i > k {
            assert(!vertex_hits[k]);
        }
    }
}

/// The index of the first hit.
pub fn first_hit_index(hits: &[bool]) -> (res: Option<usize>)
    ensures
        match res {
            Some(i) => first_hit(hits@) == Some(i as int),
            None => first_hit(hits@) is None,
        },
        res matches Some(i) ==> i < hits@.len() && hits@[i as int] && forall|j: int|
            0 <= j < i ==> !#[trigger] hits@[j],
        res is None ==> !hits@.contains(true),
{
    let n = hits.len();
    let mut i: usize = 0;
    while i < n
        invariant
            n == hits@.len(),
            i <= n,
            forall|j: int| 0 <= j < i ==> !#[trigger] hits@[j],
        decreases n - i,
    {
        if hits[i] {
            proof {
                lemma_first_hit_unique(hits@, i as int);
            }
            return Some(i);
        }
        i += 1;
    }
    assert(!exists|k: int| is_first_hit(hits@, k));
    None
}

/// The action a pointer event asks for, and the vertex being dragged afterwards.
///
/// `vertex_hits[i]` says whether the pointer is on vertex `i`, and
/// `midpoint_hits[i]` whether it is on the midpoint of the edge after vertex `i`.
pub open spec fn canvas_step(
    mode: CanvasMode,
    event: PointerEvent,
    dragging: Option<usize>,
    vertex_hits: Seq<bool>,
    midpoint_hits: Seq<bool>,
) -> (Option<CanvasAction>, Option<usize>) {
    if !(mode is FittedEditable) {
        (None, dragging)
    } else {
        match event {
            PointerEvent::LeftPressed => match first_hit(vertex_hits) {
                Some(i) => (Some(CanvasAction::DragStart(i as usize)), Some(i as usize)),
                None => match first_hit(midpoint_hits) {
                    Some(i) => (Some(CanvasAction::InsertVertex(i as usize)), dragging),
                    None => (None, dragging),
                },
            },
            PointerEvent::RightPressed => match first_hit(vertex_hits) {
                Some(i) => (Some(CanvasAction::DeleteVertex(i as usize)), dragging),
                None => (None, dragging),
            },
            PointerEvent::Moved => if dragging is Some {
                (Some(CanvasAction::DragMove), dragging)
            } else {
                (None, dragging)
            },
            PointerEvent::LeftReleased | PointerEvent::CursorLeft => if dragging is Some {
                (Some(CanvasAction::DragEnd), None)
            } else {
                (None, dragging)
            },
            PointerEvent::Other => (None, dragging),
        }
    }
}

/// Reacts to a pointer event on the canvas, updating the dragged vertex.
pub fn canvas_action(
    mode: CanvasMode,
    event: PointerEvent,
    dragging: &mut Option<usize>,
    vertex_hits: &[bool],
    midpoint_hits: &[bool],
) -> (res: Option<CanvasAction>)
    ensures
        (res, *final(dragging)) == canvas_step(
            mode,
            event,
            *old(dragging),
            vertex_hits@,
            midpoint_hits@,
        ),
        !(mode is FittedEditable) ==> res is None && *final(dragging) == *old(dragging),
        res matches Some(CanvasAction::DragStart(i)) ==> {
            &&& event == PointerEvent::LeftPressed
            &&& i < vertex_hits@.len() && vertex_hits@[i as int]
            &&& forall|j: int| 0 <= j < i ==> !#[trigger] vertex_hits@[j]
            &&& *final(dragging) == Some(i)
        },
        res matches Some(CanvasAction::InsertVertex(i)) ==> {
            &&& event == PointerEvent::LeftPressed
            &&& !vertex_hits@.contains(true)
            &&& i < midpoint_hits@.len() && midpoint_hits@[i as int]
            &&& forall|j: int| 0 <= j < i ==> !#[trigger] midpoint_hits@[j]
            &&& *final(dragging) == *old(dragging)
        },
        res matches Some(CanvasAction::DeleteVertex(i)) ==> {
            &&& event == PointerEvent::RightPressed
            &&& i < vertex_hits@.len() && vertex_hits@[i as int]
            &&& forall|j: int| 0 <= j < i ==> !#[trigger] vertex_hits@[j]
            &&& *final(dragging) == *old(dragging)
        },
        res matches Some(CanvasAction::DragMove) ==> event == PointerEvent::Moved && *old(dragging) is Some
            && *final(dragging) == *old(dragging),
        res matches Some(CanvasAction::DragEnd) ==> *old(dragging) is Some && *final(dragging) is None,
        (mode is FittedEditable && event == PointerEvent::LeftPressed && vertex_hits@.contains(true)) ==> (
        res matches Some(CanvasAction::DragStart(_))),
        (mode is FittedEditable && (event == PointerEvent::LeftReleased || event == PointerEvent::CursorLeft)
            && *old(dragging) is Some) ==> res == Some(CanvasAction::DragEnd),
{
    proof {
        lemma_first_hit_meaning(vertex_hits@);
        lemma_first_hit_meaning(midpoint_hits@);
    }
    if !mode.is_editable() {
        return None;
    }
    match event {
        PointerEvent::LeftPressed => {
            match first_hit_index(vertex_hits) {
                Some(i) => {
                    *dragging = Some(i);
                    Some(CanvasAction::DragStart(i))
                },
                None => match first_hit_index(midpoint_hits) {
                    Some(i) => Some(CanvasAction::InsertVertex(i)),
                    None => None,
                },
            }
        },
        PointerEvent::RightPressed => match first_hit_index(vertex_hits) {
            Some(i) => Some(CanvasAction::DeleteVertex(i)),
            None => None,
        },
        PointerEvent::Moved => {
            if dragging.is_some() {
                Some(CanvasAction::DragMove)
            } else {
                None
            }
        },
        PointerEvent::LeftReleased | PointerEvent::CursorLeft => {
            if dragging.is_some() {
                *dragging = None;
                Some(CanvasAction::DragEnd)
            } else {
                None
            }
        },
        PointerEvent::Other => None,
    }
}

/// How to draw the pointer: idle outside editing, grabbing while dragging,
/// a grab hand over a vertex.
pub fn pointer_style(mode: CanvasMode, dragging: bool, vertex_hits: &[bool]) -> (res: PointerStyle)
    ensures
        res == (if !(mode is FittedEditable) {
            PointerStyle::Idle
        } else if dragging {
            PointerStyle::Grabbing
        } else if vertex_hits@.contains(true) {
            PointerStyle::Grab
        } else {
            PointerStyle::Idle
        }),
{
    if !mode.is_editable() {
        return PointerStyle::Idle;
    }
    if dragging {
        return PointerStyle::Grabbing;
    }
    match first_hit_index(vertex_hits) {
        Some(i) => {
            assert(vertex_hits@[i as int]);
            PointerStyle::Grab
        },
        None => {
            assert(!vertex_hits@.contains(true)) by {
                if vertex_hits@.contains(true) {
                    let k = choose|k: int| 0 <= k < vertex_hits@.len() && vertex_hits@[k] == true;
                    lemma_some_hit_has_first(vertex_hits@, k);
                }
            }
            PointerStyle::Idle
        },
    }
}

} // verus!
