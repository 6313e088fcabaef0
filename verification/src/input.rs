//! Multitouch pointer tracking: which pointers are down, the gesture kind in
//! progress and the decisions the pointer handlers take on each event.
use vstd::prelude::*;

verus! {

/// Most touch points the shader visualises.
pub const MAX_TOUCH_POINTS: usize = 5;

/// The kind of multitouch gesture currently in progress.
#[derive(Clone, Copy, PartialEq, Eq, Debug, Structural)]
pub enum TouchGestureKind {
    /// No multi-finger gesture: single-pointer flare/carve behaviour.
    Idle,
    /// Two or more fingers drive the continuous performance surface.
    PerformanceSurface,
}

impl Default for TouchGestureKind {
    fn default() -> (r: Self)
        ensures
            r == TouchGestureKind::Idle,
    {
        TouchGestureKind::Idle
    }
}

/// Abstract state of the pointer tracker: the active pointer ids, the
/// gesture kind and the peak simultaneous pointer count of the gesture.
pub struct TouchView {
    pub pointers: Set<i32>,
    pub kind: TouchGestureKind,
    pub peak: nat,
}

/// The performance surface only runs while at least two pointers are down.
pub open spec fn valid_touch_view(v: TouchView) -> bool {
    &&& v.pointers.finite()
    &&& v.kind == TouchGestureKind::PerformanceSurface ==> v.pointers.len() >= 2
}

/// What the pointer-down handler does next.
#[derive(Clone, Copy, PartialEq, Eq, Debug, Structural)]
pub enum DownAction {
    /// A lone pointer: arm a possible carve drag and flash a tap ripple.
    SinglePointer,
    /// The second finger arrived: the performance surface begins.
    SurfaceStarted,
    /// Another finger joined a running performance surface.
    SurfaceContinued,
}

/// What the pointer-up handler does next.
#[derive(Clone, Copy, PartialEq, Eq, Debug, Structural)]
pub enum UpAction {
    /// A performance surface lost its second-to-last finger: the surface ends
    /// cleanly with a soft release ripple.
    SurfaceEnded,
    /// Two or more fingers remain: re-baseline the surface on them.
    SurfaceRebased,
    /// A single-pointer release: flare or carve drop.
    SinglePointer,
}

/// Next state and action of a pointer going down.
pub open spec fn down_spec(v: TouchView, id: i32) -> (TouchView, DownAction) {
    let p = v.pointers.insert(id);
    let n = p.len();
    let peak = if v.peak >= n { v.peak } else { n };
    if n >= 2 {
        if v.kind == TouchGestureKind::Idle {
            (
                TouchView { pointers: p, kind: TouchGestureKind::PerformanceSurface, peak },
                DownAction::SurfaceStarted,
            )
        } else {
            (TouchView { pointers: p, kind: v.kind, peak }, DownAction::SurfaceContinued)
        }
    } else {
        (TouchView { pointers: p, kind: v.kind, peak }, DownAction::SinglePointer)
    }
}

/// Gesture state after a reset: pointers kept, gesture cleared.
pub open spec fn reset_spec(v: TouchView) -> TouchView {
    TouchView { pointers: v.pointers, kind: TouchGestureKind::Idle, peak: 0 }
}

/// Next state and action of a pointer lifting.
pub open spec fn up_spec(v: TouchView, id: i32) -> (TouchView, UpAction) {
    let p = v.pointers.remove(id);
    let rest = TouchView { pointers: p, kind: v.kind, peak: v.peak };
    if v.kind != TouchGestureKind::Idle {
        if p.len() >= 2 {
            (rest, UpAction::SurfaceRebased)
        } else {
            (reset_spec(rest), UpAction::SurfaceEnded)
        }
    } else {
        (reset_spec(rest), UpAction::SinglePointer)
    }
}

/// Next state of a pointer being cancelled by the browser.
pub open spec fn cancel_spec(v: TouchView, id: i32) -> TouchView {
    let rest = TouchView { pointers: v.pointers.remove(id), kind: v.kind, peak: v.peak };
    if rest.pointers.len() < 2 {
        reset_spec(rest)
    } else {
        rest
    }
}

/// Every pointer event keeps the tracker valid: the performance surface never
/// runs on fewer than two pointers.
pub proof fn lemma_transitions_preserve_validity(v: TouchView, id: i32)
    requires
        valid_touch_view(v),
    ensures
        valid_touch_view(down_spec(v, id).0),
        valid_touch_view(up_spec(v, id).0),
        valid_touch_view(cancel_spec(v, id)),
        valid_touch_view(reset_spec(v)),
{
}

/// A pointer that goes down and lifts again leaves the set of active pointers
/// as it was.
pub proof fn lemma_down_then_up_restores_pointers(v: TouchView, id: i32)
    requires
        valid_touch_view(v),
        !v.pointers.contains(id),
    ensures
        up_spec(down_spec(v, id).0, id).0.pointers == v.pointers,
{
    assert(v.pointers.insert(id).remove(id) =~= v.pointers);
}

/// The peak pointer count of a gesture is at least the number of pointers
/// down after any pointer-down.
pub proof fn lemma_down_peak_covers_count(v: TouchView, id: i32)
    requires
        valid_touch_view(v),
    ensures
        down_spec(v, id).0.peak >= down_spec(v, id).0.pointers.len(),
{
}

/// Lifting the last pointer always leaves the tracker idle with no pointers.
pub proof fn lemma_last_lift_clears_gesture(v: TouchView, id: i32)
    requires
        valid_touch_view(v),
        v.pointers =~= set![id],
    ensures
        up_spec(v, id).0.pointers.len() == 0,
        up_spec(v, id).0.kind == TouchGestureKind::Idle,
{
    assert(v.pointers.remove(id) =~= Set::<i32>::empty());
}

/// A running performance surface either continues on two or more fingers
/// after a lift, or ends; it never lingers on fewer than two.
pub proof fn lemma_surface_lift_continues_or_ends(v: TouchView, id: i32)
    requires
        valid_touch_view(v),
        v.kind == TouchGestureKind::PerformanceSurface,
    ensures
        up_spec(v, id).1 == UpAction::SurfaceRebased ==> up_spec(v, id).0.kind
            == TouchGestureKind::PerformanceSurface && up_spec(v, id).0.pointers.len() >= 2,
        up_spec(v, id).1 == UpAction::SurfaceEnded ==> up_spec(v, id).0.kind
            == TouchGestureKind::Idle && up_spec(v, id).0.pointers.len() < 2,
        up_spec(v, id).1 != UpAction::SinglePointer,
{
}

/// Strictly increasing sequence of pointer ids.
pub open spec fn strictly_sorted(s: Seq<i32>) -> bool {
    forall|i: int, j: int| 0 <= i < j < s.len() ==> #[trigger] s[i] < #[trigger] s[j]
}

/// Tracks the active pointers of a multitouch interaction (kept in ascending
/// id order) and the gesture they drive.
#[derive(Clone, Debug)]
pub struct TouchTracker {
    ids: Vec<i32>,
    kind: TouchGestureKind,
    peak: usize,
}

impl View for TouchTracker {
    type V = TouchView;

    closed spec fn view(&self) -> TouchView {
        TouchView { pointers: self.ids@.to_set(), kind: self.kind, peak: self.peak as nat }
    }
}

proof fn lemma_sorted_no_duplicates(s: Seq<i32>)
    requires
        strictly_sorted(s),
    ensures
        s.no_duplicates(),
        s.to_set().finite(),
        s.to_set().len() == s.len(),
{
    assert(s.no_duplicates()) by {
        assert forall|i: int, j: int| 0 <= i < s.len() && 0 <= j < s.len() && i != j implies s[i]
            != s[j] by {
            if i < j {
                assert(s[i] < s[j]);
            } else {
                assert(s[j] < s[i]);
            }
        }
    }
    s.unique_seq_to_set();
    s.lemma_cardinality_of_set();
}

impl TouchTracker {
    /// Internal invariant: ids strictly ascending, surface only with two pointers.
    pub closed spec fn wf(&self) -> bool {
        &&& strictly_sorted(self.ids@)
        &&& self.kind == TouchGestureKind::PerformanceSurface ==> self.ids.len() >= 2
    }

    /// A tracker with no pointers down and no gesture.
    pub fn new() -> (r: Self)
        ensures
            r.wf(),
            r@.pointers == Set::<i32>::empty(),
            r@.kind == TouchGestureKind::Idle,
            r@.peak == 0,
    {
        let r = TouchTracker { ids: Vec::new(), kind: TouchGestureKind::Idle, peak: 0 };
        assert(r@.pointers =~= Set::<i32>::empty());
        r
    }

    /// A well-formed tracker has a valid abstract state and as many ids as pointers.
    pub proof fn lemma_wf_view(&self)
        requires
            self.wf(),
        ensures
            valid_touch_view(self@),
    {
        lemma_sorted_no_duplicates(self.ids@);
    }

    /// Number of pointers currently down.
    pub fn len(&self) -> (r: usize)
        requires
            self.wf(),
        ensures
            r as nat == self@.pointers.len(),
    {
        proof {
            lemma_sorted_no_duplicates(self.ids@);
        }
        self.ids.len()
    }

    /// Current gesture kind.
    pub fn gesture_kind(&self) -> (r: TouchGestureKind)
        ensures
            r == self@.kind,
    {
        self.kind
    }

    /// Peak simultaneous pointer count of the current gesture.
    pub fn peak_pointer_count(&self) -> (r: usize)
        ensures
            r as nat == self@.peak,
    {
        self.peak
    }

    /// First index whose id is not below `id`, and whether it holds `id`.
    fn search(&self, id: i32) -> (r: (usize, bool))
        requires
            self.wf(),
        ensures
            r.0 <= self.ids.len(),
            forall|i: int| 0 <= i < r.0 ==> #[trigger] self.ids@[i] < id,
            forall|i: int| r.0 <= i < self.ids.len() ==> #[trigger] self.ids@[i] >= id,
            r.1 == (r.0 < self.ids.len() && self.ids@[r.0 as int] == id),
            r.1 == self@.pointers.contains(id),
    {
        let mut k: usize = 0;
        while k < self.ids.len() && self.ids[k] < id
            invariant
                self.wf(),
                k <= self.ids.len(),
                forall|i: int| 0 <= i < k ==> #[trigger] self.ids@[i] < id,
            decreases self.ids.len() - k,
        {
            k = k + 1;
        }
        proof {
            assert forall|i: int| k <= i < self.ids.len() implies #[trigger] self.ids@[i] >= id by {
                if i > k {
                    assert(self.ids@[k as int] < self.ids@[i]);
                }
            }
        }
        let found = k < self.ids.len() && self.ids[k] == id;
        proof {
            if self.ids@.contains(id) {
                let j = choose|j: int| 0 <= j < self.ids.len() && self.ids@[j] == id;
                assert(j >= k);
                if j > k {
                    assert(self.ids@[k as int] < self.ids@[j]);
                }
            }
            if found {
                assert(self.ids@[k as int] == id);
            }
        }
        (k, found)
    }

    /// Whether pointer `id` is down.
    pub fn contains(&self, id: i32) -> (r: bool)
        requires
            self.wf(),
        ensures
            r == self@.pointers.contains(id),
    {
        self.search(id).1
    }

    /// Insert `id` keeping the ids ascending.
    fn insert_id(&mut self, id: i32)
        requires
            old(self).wf(),
        ensures
            strictly_sorted(final(self).ids@),
            final(self).ids@.to_set() == old(self).ids@.to_set().insert(id),
            final(self).kind == old(self).kind,
            final(self).peak == old(self).peak,
            final(self).ids.len() >= old(self).ids.len(),
    {
        let (k, found) = self.search(id);
        if !found {
            let ghost s = self.ids@;
            self.ids.insert(k, id);
            proof {
                s.insert_ensures(k as int, id);
                let t = self.ids@;
                assert forall|i: int, j: int| 0 <= i < j < t.len() implies #[trigger] t[i]
                    < #[trigger] t[j] by {
                    if j < k {
                    } else if j == k {
                    } else if i < k {
                        assert(t[j] == s[j - 1]);
                    } else if i == k {
                        assert(t[j] == s[j - 1]);
                        assert(s[j - 1] >= id);
                        assert(s[j - 1] != id);
                    } else {
                        assert(t[i] == s[i - 1]);
                        assert(t[j] == s[j - 1]);
                    }
                }
                assert forall|x: i32| t.contains(x) <==> s.contains(x) || x == id by {
                    if t.contains(x) {
                        let j = choose|j: int| 0 <= j < t.len() && t[j] == x;
                        if j < k {
                            assert(s[j] == x);
                        } else if j > k {
                            assert(s[j - 1] == x);
                        }
                    }
                    if s.contains(x) {
                        let j = choose|j: int| 0 <= j < s.len() && s[j] == x;
                        if j < k {
                            assert(t[j] == x);
                        } else {
                            assert(t[j + 1] == x);
                        }
                    }
                    if x == id {
                        assert(t[k as int] == x);
                    }
                }
                assert(t.to_set() =~= s.to_set().insert(id));
            }
        } else {
            proof {
                assert(self.ids@.to_set() =~= self.ids@.to_set().insert(id));
            }
        }
    }

    /// Remove `id` if present, keeping the ids ascending.
    fn remove_id(&mut self, id: i32)
        requires
            strictly_sorted(old(self).ids@),
        ensures
            strictly_sorted(final(self).ids@),
            final(self).ids@.to_set() == old(self).ids@.to_set().remove(id),
            final(self).kind == old(self).kind,
            final(self).peak == old(self).peak,
    {
        let mut k: usize = 0;
        while k < self.ids.len() && self.ids[k] != id
            invariant
                k <= self.ids.len(),
                forall|i: int| 0 <= i < k ==> #[trigger] self.ids@[i] != id,
            decreases self.ids.len() - k,
        {
            k = k + 1;
        }
        if k < self.ids.len() {
            let ghost s = self.ids@;
            self.ids.remove(k);
            proof {
                s.remove_ensures(k as int);
                let t = self.ids@;
                lemma_sorted_no_duplicates(s);
                assert forall|i: int, j: int| 0 <= i < j < t.len() implies #[trigger] t[i]
                    < #[trigger] t[j] by {
                    if i >= k {
                        assert(t[i] == s[i + 1]);
                    }
                    if j >= k {
                        assert(t[j] == s[j + 1]);
                    }
                }
                assert forall|x: i32| t.contains(x) <==> s.contains(x) && x != id by {
                    if t.contains(x) {
                        let j = choose|j: int| 0 <= j < t.len() && t[j] == x;
                        if j < k {
                            assert(s[j] == x);
                            assert(s[j] != s[k as int]);
                        } else {
                            assert(s[j + 1] == x);
                            assert(s[j + 1] != s[k as int]);
                        }
                    }
                    if s.contains(x) && x != id {
                        let j = choose|j: int| 0 <= j < s.len() && s[j] == x;
                        if j < k {
                            assert(t[j] == x);
                        } else {
                            assert(j != k);
                            assert(t[j - 1] == x);
                        }
                    }
                }
                assert(t.to_set() =~= s.to_set().remove(id));
            }
        } else {
            proof {
                assert(!self.ids@.contains(id));
                assert(self.ids@.to_set() =~= self.ids@.to_set().remove(id));
            }
        }
    }

    /// Clear the gesture (kind and peak count), keeping the pointers.
    pub fn reset_gesture(&mut self)
        requires
            old(self).wf(),
        ensures
            final(self).wf(),
            final(self)@ == reset_spec(old(self)@),
    {
        self.kind = TouchGestureKind::Idle;
        self.peak = 0;
    }

    /// Register pointer `id` going down and decide what the handler does.
    pub fn pointer_down(&mut self, id: i32) -> (r: DownAction)
        requires
            old(self).wf(),
        ensures
            final(self).wf(),
            (final(self)@, r) == down_spec(old(self)@, id),
    {
        self.insert_id(id);
        proof {
            lemma_sorted_no_duplicates(self.ids@);
            lemma_sorted_no_duplicates(old(self).ids@);
        }
        let n = self.ids.len();
        if self.peak < n {
            self.peak = n;
        }
        if n >= 2 {
            if self.kind == TouchGestureKind::Idle {
                self.kind = TouchGestureKind::PerformanceSurface;
                DownAction::SurfaceStarted
            } else {
                DownAction::SurfaceContinued
            }
        } else {
            DownAction::SinglePointer
        }
    }

    /// Register pointer `id` lifting and decide what the handler does.
    pub fn pointer_up(&mut self, id: i32) -> (r: UpAction)
        requires
            old(self).wf(),
        ensures
            final(self).wf(),
            (final(self)@, r) == up_spec(old(self)@, id),
    {
        let was_surface = self.kind != TouchGestureKind::Idle;
        self.remove_id(id);
        proof {
            lemma_sorted_no_duplicates(self.ids@);
        }
        let n = self.ids.len();
        if was_surface {
            if n >= 2 {
                UpAction::SurfaceRebased
            } else {
                self.kind = TouchGestureKind::Idle;
                self.peak = 0;
                UpAction::SurfaceEnded
            }
        } else {
            self.kind = TouchGestureKind::Idle;
            self.peak = 0;
            UpAction::SinglePointer
        }
    }

    /// Register pointer `id` being cancelled: it is dropped and the gesture
    /// resets when fewer than two pointers remain.
    pub fn pointer_cancel(&mut self, id: i32)
        requires
            old(self).wf(),
        ensures
            final(self).wf(),
            final(self)@ == cancel_spec(old(self)@, id),
    {
        self.remove_id(id);
        proof {
            lemma_sorted_no_duplicates(self.ids@);
        }
        if self.ids.len() < 2 {
            self.kind = TouchGestureKind::Idle;
            self.peak = 0;
        }
    }

    /// The `min(n, limit)` lowest pointer ids, ascending.
    pub fn sorted_ids(&self, limit: usize) -> (r: Vec<i32>)
        requires
            self.wf(),
        ensures
            r@.len() == if self@.pointers.len() <= limit {
                self@.pointers.len()
            } else {
                limit as nat
            },
            strictly_sorted(r@),
            forall|i: int| 0 <= i < r@.len() ==> self@.pointers.contains(#[trigger] r@[i]),
            forall|x: i32|
                self@.pointers.contains(x) && !r@.contains(x) ==> forall|i: int|
                    0 <= i < r@.len() ==> #[trigger] r@[i] < x,
    {
        proof {
            lemma_sorted_no_duplicates(self.ids@);
        }
        let n = if self.ids.len() <= limit {
            self.ids.len()
        } else {
            limit
        };
        let mut out: Vec<i32> = Vec::new();
        let mut k: usize = 0;
        while k < n
            invariant
                self.wf(),
                n <= self.ids.len(),
                k <= n,
                out@ == self.ids@.subrange(0, k as int),
            decreases n - k,
        {
            out.push(self.ids[k]);
            k = k + 1;
            proof {
                assert(out@ =~= self.ids@.subrange(0, k as int));
            }
        }
        proof {
            let s = self.ids@;
            assert forall|i: int| 0 <= i < out@.len() implies self@.pointers.contains(
                #[trigger] out@[i],
            ) by {
                assert(s[i] == out@[i]);
            }
            assert forall|x: i32| self@.pointers.contains(x) && !out@.contains(x) implies forall|
                i: int,
            | 0 <= i < out@.len() ==> #[trigger] out@[i] < x by {
                let j = choose|j: int| 0 <= j < s.len() && s[j] == x;
                if j < n {
                    assert(out@[j] == x);
                }
                assert forall|i: int| 0 <= i < out@.len() implies #[trigger] out@[i] < x by {
                    assert(out@[i] == s[i]);
                }
            }
        }
        out
    }

    /// The two lowest pointer ids, ascending, when at least two pointers are down.
    pub fn lowest_two(&self) -> (r: Option<(i32, i32)>)
        requires
            self.wf(),
        ensures
            self@.pointers.len() < 2 <==> r is None,
            r matches Some(p) ==> {
                &&& p.0 < p.1
                &&& self@.pointers.contains(p.0)
                &&& self@.pointers.contains(p.1)
                &&& forall|x: i32|
                    self@.pointers.contains(x) && x != p.0 && x != p.1 ==> p.1 < x
            },
    {
        let v = self.sorted_ids(2);
        if v.len() < 2 {
            None
        } else {
            proof {
                assert(v@[0] < v@[1]);
                assert forall|x: i32|
                    self@.pointers.contains(x) && x != v@[0] && x != v@[1] implies v@[1] < x by {
                    if v@.contains(x) {
                        let j = choose|j: int| 0 <= j < v@.len() && v@[j] == x;
                        assert(j == 0 || j == 1);
                    }
                }
            }
            Some((v[0], v[1]))
        }
    }
}

/// What releasing the single pointer does.
#[derive(Clone, Copy, PartialEq, Eq, Debug, Structural)]
pub enum ReleaseAction {
    /// No press was in progress: nothing fires.
    NoGesture,
    /// A press that never travelled past the drag threshold: a tap flare.
    Flare,
    /// A drag: the carve drops into a new root and mode. `started_on_release`
    /// is set when the threshold was only crossed by the release itself.
    CarveDrop { started_on_release: bool },
}

/// Phase of the single-pointer press: `pending` from press until release,
/// `active` once the pointer has travelled past the drag threshold.
#[derive(Clone, Copy, PartialEq, Eq, Debug, Structural)]
pub struct DragPhase {
    pub pending: bool,
    pub active: bool,
}

/// A drag can only be active during a press.
pub open spec fn valid_drag_phase(d: DragPhase) -> bool {
    d.active ==> d.pending
}

/// Action of releasing the pointer in phase `d`, given whether the release
/// position lies past the drag threshold from the press.
pub open spec fn release_spec(d: DragPhase, moved_past_threshold: bool) -> ReleaseAction {
    let started_on_release = d.pending && !d.active && moved_past_threshold;
    if !(d.pending || d.active) {
        ReleaseAction::NoGesture
    } else if d.active || started_on_release {
        ReleaseAction::CarveDrop { started_on_release }
    } else {
        ReleaseAction::Flare
    }
}

impl DragPhase {
    /// No press in progress.
    pub fn idle() -> (r: Self)
        ensures
            !r.pending && !r.active,
    {
        DragPhase { pending: false, active: false }
    }

    /// A single pointer went down: a press begins, not yet a drag.
    pub fn arm(&mut self)
        ensures
            final(self).pending && !final(self).active,
    {
        self.pending = true;
        self.active = false;
    }

    /// Abandon the press (a second finger arrived or the pointer was cancelled).
    pub fn cancel(&mut self)
        ensures
            !final(self).pending && !final(self).active,
    {
        self.pending = false;
        self.active = false;
    }

    /// The pointer moved; `moved_past_threshold` says whether it now lies past
    /// the drag threshold from the press. Returns whether the drag starts now.
    pub fn on_move(&mut self, moved_past_threshold: bool) -> (just_started: bool)
        requires
            valid_drag_phase(*old(self)),
        ensures
            valid_drag_phase(*final(self)),
            final(self).pending == old(self).pending,
            final(self).active == (old(self).active || (old(self).pending
                && moved_past_threshold)),
            just_started == (!old(self).active && final(self).active),
    {
        let was_active = self.active;
        if self.pending && !self.active && moved_past_threshold {
            self.active = true;
        }
        !was_active && self.active
    }

    /// Release the pointer and decide what fires; the press ends.
    pub fn release(&mut self, moved_past_threshold: bool) -> (r: ReleaseAction)
        requires
            valid_drag_phase(*old(self)),
        ensures
            r == release_spec(*old(self), moved_past_threshold),
            !old(self).pending && !old(self).active ==> r == ReleaseAction::NoGesture,
            old(self).pending && !old(self).active && !moved_past_threshold ==> r
                == ReleaseAction::Flare,
            old(self).pending && !old(self).active && moved_past_threshold ==> r == (
            ReleaseAction::CarveDrop { started_on_release: true }),
            old(self).active ==> r == (ReleaseAction::CarveDrop { started_on_release: false }),
            !final(self).pending && !final(self).active,
    {
        let had_gesture = self.pending || self.active;
        let mut dragging = self.active;
        let mut started_on_release = false;
        if self.pending && !dragging && moved_past_threshold {
            dragging = true;
            started_on_release = true;
        }
        self.pending = false;
        self.active = false;
        if !had_gesture {
            ReleaseAction::NoGesture
        } else if dragging {
            ReleaseAction::CarveDrop { started_on_release }
        } else {
            ReleaseAction::Flare
        }
    }
}

/// Once a drag has started, releasing it always drops a carve, never a flare.
pub proof fn lemma_active_drag_releases_as_carve(d: DragPhase, moved_past_threshold: bool)
    requires
        valid_drag_phase(d),
        d.active,
    ensures
        release_spec(d, moved_past_threshold) == (ReleaseAction::CarveDrop {
            started_on_release: false,
        }),
{
}

/// With no press in progress a release fires nothing, wherever the pointer
/// lifts: neither a flare nor a carve.
pub proof fn lemma_release_without_press_fires_nothing(d: DragPhase, moved_past_threshold: bool)
    requires
        !d.pending,
        !d.active,
    ensures
        release_spec(d, moved_past_threshold) == ReleaseAction::NoGesture,
{
}

/// A press that was cancelled (a second finger arrived, or the browser
/// cancelled the pointer) fires nothing on release; an armed press that never
/// moves fires a flare; a flare or carve fires only after a press.
pub proof fn lemma_release_needs_a_press(d: DragPhase, moved_past_threshold: bool)
    requires
        valid_drag_phase(d),
    ensures
        release_spec(DragPhase { pending: false, active: false }, moved_past_threshold)
            == ReleaseAction::NoGesture,
        release_spec(DragPhase { pending: true, active: false }, false) == ReleaseAction::Flare,
        release_spec(d, moved_past_threshold) != ReleaseAction::NoGesture ==> d.pending,
{
}

/// A press released without travelling past the threshold is a tap flare.
pub proof fn lemma_still_press_releases_as_flare(d: DragPhase)
    requires
        valid_drag_phase(d),
        d.pending,
        !d.active,
    ensures
        release_spec(d, false) == ReleaseAction::Flare,
{
}

} // verus!
