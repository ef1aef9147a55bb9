//! The cross-frame widget memory store and window layer stack.
//!
//! `Memory` keeps, across frames: one table of state per widget kind, the
//! active and keyboard-focus registers, and the floating-window layer stack
//! (geometry per window, an explicit back-to-front order, and two visibility
//! sets used to age windows out of hit testing).
//!
//! Every operation is total: queries answer with an optional or default
//! result and mutations always succeed; absence of an entry is a normal
//! outcome, not a fault.

use vstd::prelude::*;
use crate::geometry::Pos2;
use crate::geometry::Rect;
use crate::id::Id;
use crate::idmap::IdMap;
use crate::idmap::distinct_keys;
use crate::idmap::map_of;
use crate::idset::IdSet;
use crate::widgets::CollapsingHeaderState;
use crate::widgets::FloatingState;
use crate::widgets::ResizeState;
use crate::widgets::ScrollAreaState;

verus! {

/// Result of a hit test: the topmost floating window containing the point,
/// or the background when no window does.
#[derive(Clone, Copy, PartialEq, Eq, Structural, Debug)]
pub enum Layer {
    /// No visible floating window contains the point.
    Background,
    /// The given floating window is the topmost one containing the point.
    Window(Id),
}

/// The mathematical content of a `Memory`: plain maps, sets and sequences.
/// All contracts of the store are stated over this view.
#[verifier::ext_equal]
pub struct MemoryView {
    /// Widget being interacted with (for instance dragged), if any.
    pub active_id: Option<Id>,
    /// Widget owning keyboard focus, if any.
    pub kb_focus_id: Option<Id>,
    /// Per-kind table: collapsing headers.
    pub collapsing_headers: Map<Id, CollapsingHeaderState>,
    /// Per-kind table: scroll areas.
    pub scroll_areas: Map<Id, ScrollAreaState>,
    /// Per-kind table: resizable regions.
    pub resize: Map<Id, ResizeState>,
    /// Geometry of each floating window that ever registered.
    pub floating: Map<Id, FloatingState>,
    /// Back-to-front z-order over floating windows; the last entry is topmost.
    pub order: Seq<Id>,
    /// Windows visible in the previous completed frame.
    pub visible_last: Set<Id>,
    /// Windows visible so far in the frame being built.
    pub visible_current: Set<Id>,
}

impl MemoryView {
    /// The view of a freshly created store.
    pub open spec fn empty() -> MemoryView {
        MemoryView {
            active_id: None,
            kb_focus_id: None,
            collapsing_headers: Map::empty(),
            scroll_areas: Map::empty(),
            resize: Map::empty(),
            floating: Map::empty(),
            order: Seq::empty(),
            visible_last: Set::empty(),
            visible_current: Set::empty(),
        }
    }

    /// Effect of registering floating state: the geometry is upserted, the
    /// window becomes visible in the current frame, and an identity not yet
    /// in the z-order is appended at the top; one already there keeps its
    /// place.
    pub open spec fn register(self, id: Id, state: FloatingState) -> MemoryView {
        MemoryView {
            floating: self.floating.insert(id, state),
            order: if self.order.contains(id) {
                self.order
            } else {
                self.order.push(id)
            },
            visible_current: self.visible_current.insert(id),
            ..self
        }
    }

    /// Effect of promoting a window by the full remove-then-append path:
    /// the identity leaves its place in the z-order (no change if absent),
    /// is appended at the top, and becomes visible in the current frame.
    pub open spec fn promote_full(self, id: Id) -> MemoryView {
        MemoryView {
            order: self.order.remove_value(id).push(id),
            visible_current: self.visible_current.insert(id),
            ..self
        }
    }

    /// Effect of `move_floating_to_top`: the window becomes visible in the
    /// current frame either way; one already topmost keeps the z-order
    /// untouched, any other leaves its place and is appended at the top.
    pub open spec fn promote(self, id: Id) -> MemoryView {
        if self.order.len() > 0 && self.order.last() == id {
            MemoryView { visible_current: self.visible_current.insert(id), ..self }
        } else {
            self.promote_full(id)
        }
    }

    /// Effect of the frame boundary: current-frame visibility ages into
    /// previous-frame visibility and the current set starts empty.
    pub open spec fn next_frame(self) -> MemoryView {
        MemoryView { visible_last: self.visible_current, visible_current: Set::empty(), ..self }
    }

    /// Effect of writing collapsing-header state for one identity.
    pub open spec fn with_collapsing_header(self, id: Id, state: CollapsingHeaderState) -> MemoryView {
        MemoryView { collapsing_headers: self.collapsing_headers.insert(id, state), ..self }
    }

    /// Effect of writing scroll-area state for one identity.
    pub open spec fn with_scroll_area(self, id: Id, state: ScrollAreaState) -> MemoryView {
        MemoryView { scroll_areas: self.scroll_areas.insert(id, state), ..self }
    }

    /// Effect of writing resize state for one identity.
    pub open spec fn with_resize(self, id: Id, state: ResizeState) -> MemoryView {
        MemoryView { resize: self.resize.insert(id, state), ..self }
    }

    /// Effect of setting the active-widget register.
    pub open spec fn with_active_id(self, id: Option<Id>) -> MemoryView {
        MemoryView { active_id: id, ..self }
    }

    /// Effect of setting the keyboard-focus register.
    pub open spec fn with_kb_focus_id(self, id: Option<Id>) -> MemoryView {
        MemoryView { kb_focus_id: id, ..self }
    }

    /// What persists across a save and reload: everything except the two
    /// interaction registers, which reset to none.
    pub open spec fn cleared(self) -> MemoryView {
        MemoryView { active_id: None, kb_focus_id: None, ..self }
    }

    /// Whether the window is a hit-test candidate: visible in the previous
    /// completed frame or in the frame being built. A window that existed
    /// last frame but has not yet re-registered this frame must still be
    /// hit-testable, otherwise input falls through it for one frame.
    pub open spec fn candidate(self, id: Id) -> bool {
        self.visible_last.contains(id) || self.visible_current.contains(id)
    }

    /// Whether the window catches the point: it is a candidate, it has
    /// registered geometry, and its rectangle contains the point.
    pub open spec fn hit_window(self, id: Id, p: Pos2) -> bool {
        &&& self.candidate(id)
        &&& self.floating.dom().contains(id)
        &&& self.floating[id].spec_rect().spec_contains(p)
    }

    /// The layer under the point considering only the bottommost `i` entries
    /// of the z-order, scanned from the top of that prefix downward.
    pub open spec fn hit_from(self, p: Pos2, i: int) -> Layer
        decreases i,
    {
        if i <= 0 || i > self.order.len() {
            Layer::Background
        } else if self.hit_window(self.order[i - 1], p) {
            Layer::Window(self.order[i - 1])
        } else {
            self.hit_from(p, i - 1)
        }
    }

    /// The layer under the point: the topmost candidate window whose
    /// rectangle contains it, or the background.
    pub open spec fn hit(self, p: Pos2) -> Layer {
        self.hit_from(p, self.order.len() as int)
    }
}

/// Cross-frame widget memory store.
///
/// Created once at application start (or rebuilt from a saved snapshot) and
/// alive for the process's duration; entries are never deleted individually.
/// Single-threaded: one caller mutates it between frame boundaries.
pub struct Memory {
    active_id: Option<Id>,
    kb_focus_id: Option<Id>,
    collapsing_headers: IdMap<CollapsingHeaderState>,
    scroll_areas: IdMap<ScrollAreaState>,
    resize: IdMap<ResizeState>,
    floating: IdMap<FloatingState>,
    floating_order: Vec<Id>,
    floating_visible_last_frame: IdSet,
    floating_visible_current_frame: IdSet,
}

impl View for Memory {
    type V = MemoryView;

    closed spec fn view(&self) -> MemoryView {
        MemoryView {
            active_id: self.active_id,
            kb_focus_id: self.kb_focus_id,
            collapsing_headers: self.collapsing_headers@,
            scroll_areas: self.scroll_areas@,
            resize: self.resize@,
            floating: self.floating@,
            order: self.floating_order@,
            visible_last: self.floating_visible_last_frame@,
            visible_current: self.floating_visible_current_frame@,
        }
    }
}

/// Pushing a fresh identity keeps a z-order duplicate-free, and membership
/// afterwards is membership before or the pushed identity itself.
proof fn lemma_push_keeps(s: Seq<Id>, id: Id)
    requires
        s.no_duplicates(),
        !s.contains(id),
    ensures
        s.push(id).no_duplicates(),
        forall|x: Id| #[trigger] s.push(id).contains(x) <==> (s.contains(x) || x == id),
{
    broadcast use vstd::seq_lib::group_seq_properties;

    assert forall|i: int, j: int|
        0 <= i < j < s.push(id).len() implies s.push(id)[i] != s.push(id)[j] by {
        if j == s.len() as int {
            assert(s.push(id)[i] == s[i]);
            assert(s[i] != id);
        }
    }
}

/// Removing the only occurrence of an identity keeps a duplicate-free
/// z-order duplicate-free; membership afterwards is membership before, the
/// removed identity excepted.
pub(crate) proof fn lemma_remove_keeps(s: Seq<Id>, i: int)
    requires
        s.no_duplicates(),
        0 <= i < s.len(),
    ensures
        s.remove(i).no_duplicates(),
        forall|x: Id| #[trigger] s.remove(i).contains(x) <==> (s.contains(x) && x != s[i]),
{
    s.remove_ensures(i);
    let rm = s.remove(i);
    assert forall|a: int, b: int| 0 <= a < b < rm.len() implies rm[a] != rm[b] by {
        let a2: int = if a < i {
            a
        } else {
            a + 1
        };
        let b2: int = if b < i {
            b
        } else {
            b + 1
        };
        assert(rm[a] == s[a2]);
        assert(rm[b] == s[b2]);
    }
    assert forall|x: Id| #[trigger] rm.contains(x) implies (s.contains(x) && x != s[i]) by {
        let k = choose|k: int| 0 <= k < rm.len() && rm[k] == x;
        let k2: int = if k < i {
            k
        } else {
            k + 1
        };
        assert(s[k2] == x);
        assert(k2 != i);
    }
    assert forall|x: Id| s.contains(x) && x != s[i] implies #[trigger] rm.contains(x) by {
        let k = choose|k: int| 0 <= k < s.len() && s[k] == x;
        if k < i {
            assert(rm[k] == x);
        } else {
            assert(rm[k - 1] == x);
        }
    }
}

/// Entry-for-entry copy of a vector of identities.
fn copy_ids(v: &Vec<Id>) -> (r: Vec<Id>)
    ensures
        r@ == v@,
{
    let n = v.len();
    let mut out: Vec<Id> = Vec::new();
    let mut i: usize = 0;
    while i < n
        invariant
            n == v@.len(),
            i <= n,
            out@ == v@.take(i as int),
        decreases n - i,
    {
        out.push(v[i]);
        proof {
            assert(out@ =~= v@.take(i as int + 1));
        }
        i = i + 1;
    }
    proof {
        assert(out@ =~= v@);
    }
    out
}

/// Whether no identity occurs twice in the vector.
fn ids_distinct(v: &Vec<Id>) -> (r: bool)
    ensures
        r == v@.no_duplicates(),
{
    let n = v.len();
    let mut i: usize = 0;
    while i < n
        invariant
            n == v@.len(),
            i <= n,
            forall|a: int, b: int| 0 <= a < b < n && a < i ==> v@[a] != v@[b],
        decreases n - i,
    {
        let mut j: usize = i + 1;
        while j < n
            invariant
                n == v@.len(),
                i < n,
                i < j <= n,
                forall|b: int| i < b < j ==> v@[i as int] != v@[b],
            decreases n - j,
        {
            if v[i] == v[j] {
                return false;
            }
            j = j + 1;
        }
        i = i + 1;
    }
    true
}

/// Index of the first entry equal to `id`, if any.
fn find_id(v: &Vec<Id>, id: Id) -> (r: Option<usize>)
    ensures
        match r {
            Some(i) => i < v@.len() && v@[i as int] == id && forall|j: int|
                0 <= j < i ==> v@[j] != id,
            None => !v@.contains(id),
        },
{
    let n = v.len();
    let mut i: usize = 0;
    while i < n
        invariant
            n == v@.len(),
            i <= n,
            forall|j: int| 0 <= j < i ==> v@[j] != id,
        decreases n - i,
    {
        if v[i] == id {
            return Some(i);
        }
        i = i + 1;
    }
    proof {
        broadcast use vstd::seq_lib::group_seq_properties;

    }
    None
}

impl Memory {
    /// Internal consistency of the store: each table carries distinct keys,
    /// the z-order names no identity twice, and every identity with floating
    /// state stands somewhere in the z-order.
    pub closed spec fn wf(self) -> bool {
        &&& self.collapsing_headers.wf()
        &&& self.scroll_areas.wf()
        &&& self.resize.wf()
        &&& self.floating.wf()
        &&& self.floating_order@.no_duplicates()
        &&& self.floating_visible_last_frame.wf()
        &&& self.floating_visible_current_frame.wf()
        &&& forall|id: Id|
            #[trigger] self.floating@.dom().contains(id) ==> self.floating_order@.contains(id)
    }

    /// What a consistent store guarantees of its z-order: no identity stands
    /// in it twice, and every identity with floating state stands somewhere
    /// in it. Lets a caller discharge the order hypotheses of the laws for a
    /// concrete store.
    pub proof fn lemma_wf_order(self)
        requires
            self.wf(),
        ensures
            self@.order.no_duplicates(),
            forall|id: Id|
                #[trigger] self@.floating.dom().contains(id) ==> self@.order.contains(id),
    {
    }

    /// A fresh store: empty tables, clear registers, no floating windows.
    pub fn new() -> (r: Memory)
        ensures
            r.wf(),
            r@ == MemoryView::empty(),
    {
        let r = Memory {
            active_id: None,
            kb_focus_id: None,
            collapsing_headers: IdMap::new(),
            scroll_areas: IdMap::new(),
            resize: IdMap::new(),
            floating: IdMap::new(),
            floating_order: Vec::new(),
            floating_visible_last_frame: IdSet::new(),
            floating_visible_current_frame: IdSet::new(),
        };
        proof {
            assert(r@ =~= MemoryView::empty());
        }
        r
    }

    /// The widget being interacted with, if any.
    pub fn active_id(&self) -> (r: Option<Id>)
        ensures
            r == self@.active_id,
    {
        self.active_id
    }

    /// Sets or clears the active-widget register.
    pub fn set_active_id(&mut self, id: Option<Id>)
        requires
            old(self).wf(),
        ensures
            final(self).wf(),
            final(self)@ == old(self)@.with_active_id(id),
    {
        self.active_id = id;
        proof {
            assert(self@ =~= old(self)@.with_active_id(id));
        }
    }

    /// The widget owning keyboard focus, if any.
    pub fn kb_focus_id(&self) -> (r: Option<Id>)
        ensures
            r == self@.kb_focus_id,
    {
        self.kb_focus_id
    }

    /// Sets or clears the keyboard-focus register.
    pub fn set_kb_focus_id(&mut self, id: Option<Id>)
        requires
            old(self).wf(),
        ensures
            final(self).wf(),
            final(self)@ == old(self)@.with_kb_focus_id(id),
    {
        self.kb_focus_id = id;
        proof {
            assert(self@ =~= old(self)@.with_kb_focus_id(id));
        }
    }

    /// Snapshot read of collapsing-header state; absent for an identity that
    /// has never written any.
    pub fn get_collapsing_header(&self, id: Id) -> (r: Option<CollapsingHeaderState>)
        requires
            self.wf(),
        ensures
            match r {
                Some(st) => self@.collapsing_headers.dom().contains(id)
                    && st == self@.collapsing_headers[id],
                None => !self@.collapsing_headers.dom().contains(id),
            },
    {
        match self.collapsing_headers.get(id) {
            Some(st) => Some(*st),
            None => None,
        }
    }

    /// Replaces or inserts collapsing-header state for one identity. No
    /// other table and nothing of the floating layer changes.
    pub fn set_collapsing_header(&mut self, id: Id, state: CollapsingHeaderState)
        requires
            old(self).wf(),
        ensures
            final(self).wf(),
            final(self)@ == old(self)@.with_collapsing_header(id, state),
    {
        self.collapsing_headers.set(id, state);
        proof {
            assert(self@ =~= old(self)@.with_collapsing_header(id, state));
        }
    }

    /// Snapshot read of scroll-area state; absent for an identity that has
    /// never written any.
    pub fn get_scroll_area(&self, id: Id) -> (r: Option<ScrollAreaState>)
        requires
            self.wf(),
        ensures
            match r {
                Some(st) => self@.scroll_areas.dom().contains(id) && st == self@.scroll_areas[id],
                None => !self@.scroll_areas.dom().contains(id),
            },
    {
        match self.scroll_areas.get(id) {
            Some(st) => Some(*st),
            None => None,
        }
    }

    /// Replaces or inserts scroll-area state for one identity. No other
    /// table and nothing of the floating layer changes.
    pub fn set_scroll_area(&mut self, id: Id, state: ScrollAreaState)
        requires
            old(self).wf(),
        ensures
            final(self).wf(),
            final(self)@ == old(self)@.with_scroll_area(id, state),
    {
        self.scroll_areas.set(id, state);
        proof {
            assert(self@ =~= old(self)@.with_scroll_area(id, state));
        }
    }

    /// Snapshot read of resize state; absent for an identity that has never
    /// written any.
    pub fn get_resize(&self, id: Id) -> (r: Option<ResizeState>)
        requires
            self.wf(),
        ensures
            match r {
                Some(st) => self@.resize.dom().contains(id) && st == self@.resize[id],
                None => !self@.resize.dom().contains(id),
            },
    {
        match self.resize.get(id) {
            Some(st) => Some(*st),
            None => None,
        }
    }

    /// Replaces or inserts resize state for one identity. No other table and
    /// nothing of the floating layer changes.
    pub fn set_resize(&mut self, id: Id, state: ResizeState)
        requires
            old(self).wf(),
        ensures
            final(self).wf(),
            final(self)@ == old(self)@.with_resize(id, state),
    {
        self.resize.set(id, state);
        proof {
            assert(self@ =~= old(self)@.with_resize(id, state));
        }
    }

    /// Snapshot read of a floating window's state; absent means the window
    /// has never registered.
    pub fn get_floating(&mut self, id: Id) -> (r: Option<FloatingState>)
        requires
            old(self).wf(),
        ensures
            final(self).wf(),
            final(self)@ == old(self)@,
            match r {
                Some(st) => old(self)@.floating.dom().contains(id) && st == old(
                    self,
                )@.floating[id],
                None => !old(self)@.floating.dom().contains(id),
            },
    {
        match self.floating.get(id) {
            Some(st) => Some(*st),
            None => None,
        }
    }

    /// Read-only view of the z-order, back to front: the last entry is the
    /// topmost window.
    pub fn floating_order(&self) -> (r: &[Id])
        ensures
            r@ == self@.order,
    {
        self.floating_order.as_slice()
    }

    /// Upserts a floating window's geometry and marks it visible in the
    /// current frame. On its first appearance the window is appended at the
    /// top of the z-order; re-registration keeps its place.
    pub fn set_floating_state(&mut self, id: Id, state: FloatingState)
        requires
            old(self).wf(),
        ensures
            final(self).wf(),
            final(self)@ == old(self)@.register(id, state),
    {
        self.floating_visible_current_frame.insert(id);
        self.floating.set(id, state);
        let present = match find_id(&self.floating_order, id) {
            Some(_) => true,
            None => false,
        };
        if !present {
            proof {
                lemma_push_keeps(self.floating_order@, id);
            }
            self.floating_order.push(id);
        } else {
            proof {
                assert(self.floating_order@.contains(id));
            }
        }
        proof {
            assert(self@ =~= old(self)@.register(id, state));
            assert forall|x: Id| #[trigger] self.floating@.dom().contains(x)
                implies self.floating_order@.contains(x) by {
                if x != id {
                    assert(old(self).floating@.dom().contains(x));
                }
            }
        }
    }
    /// Promotes a window to the top of the z-order and marks it visible in
    /// the current frame. One already topmost keeps its place, and is still
    /// marked visible, exactly as the full remove-then-append path would
    /// leave it.
    pub fn move_floating_to_top(&mut self, id: Id)
        requires
            old(self).wf(),
        ensures
            final(self).wf(),
            final(self)@ == old(self)@.promote(id),
    {
        let n = self.floating_order.len();
        if n > 0 && self.floating_order[n - 1] == id {
            // Already topmost: the common case, nothing to move — but the
            // window still becomes visible in the current frame.
            self.floating_visible_current_frame.insert(id);
            proof {
                assert(self@ =~= old(self)@.promote(id));
            }
            return;
        }
        match find_id(&self.floating_order, id) {
            Some(i) => {
                proof {
                    self.floating_order@.index_of_first_ensures(id);
                    assert(self.floating_order@[i as int] == id);
                    assert(self.floating_order@.contains(id));
                    assert(self.floating_order@.index_of_first(id) == Some(i as int));
                    lemma_remove_keeps(self.floating_order@, i as int);
                }
                self.floating_order.remove(i);
            },
            None => {
                proof {
                    self.floating_order@.index_of_first_ensures(id);
                }
            },
        }
        proof {
            lemma_push_keeps(self.floating_order@, id);
        }
        self.floating_order.push(id);
        self.floating_visible_current_frame.insert(id);
        proof {
            assert(self@ =~= old(self)@.promote(id));
            assert forall|x: Id| #[trigger] self.floating@.dom().contains(x)
                implies self.floating_order@.contains(x) by {
                assert(old(self).floating_order@.contains(x));
            }
        }
    }

    /// Frame boundary, to run exactly once before any widget construction
    /// of a frame: current-frame visibility ages into previous-frame
    /// visibility and the current set starts empty. This is the single point
    /// that ages visibility information for hit testing.
    pub fn begin_frame(&mut self)
        requires
            old(self).wf(),
        ensures
            final(self).wf(),
            final(self)@ == old(self)@.next_frame(),
    {
        core::mem::swap(
            &mut self.floating_visible_last_frame,
            &mut self.floating_visible_current_frame,
        );
        self.floating_visible_current_frame = IdSet::new();
        proof {
            assert(self@ =~= old(self)@.next_frame());
        }
    }

    /// The layer under the point: scans the z-order from topmost to
    /// bottommost and answers with the first window whose rectangle contains
    /// the point and which is visible in the previous or the current frame;
    /// the background when no window qualifies. Higher windows win ties, as
    /// visual stacking demands.
    pub fn layer_at(&self, pos: Pos2) -> (r: Layer)
        requires
            self.wf(),
        ensures
            r == self@.hit(pos),
    {
        let mut i: usize = self.floating_order.len();
        while i > 0
            invariant
                self.wf(),
                i <= self.floating_order@.len(),
                self@.hit(pos) == self@.hit_from(pos, i as int),
            decreases i,
        {
            let idx = i - 1;
            let id = self.floating_order[idx];
            let visible = self.floating_visible_last_frame.contains(id)
                || self.floating_visible_current_frame.contains(id);
            if visible {
                match self.floating.get(id) {
                    Some(state) => {
                        let rect = Rect::from_min_size(state.pos, state.size);
                        if rect.contains(pos) {
                            proof {
                                assert(self@.hit_window(id, pos));
                            }
                            return Layer::Window(id);
                        }
                    },
                    None => {},
                }
            }
            proof {
                assert(!self@.hit_window(id, pos));
            }
            i = idx;
        }
        Layer::Background
    }
    /// Snapshot of everything that persists across a save and reload: the
    /// typed tables and the floating-layer data. The two interaction
    /// registers are deliberately left out, so its view is the store's view
    /// with both registers clear.
    pub fn to_saved(&self) -> (r: SavedMemory)
        requires
            self.wf(),
        ensures
            r.wf(),
            r@ == self@.cleared(),
    {
        let r = SavedMemory {
            collapsing_headers: self.collapsing_headers.duplicate(),
            scroll_areas: self.scroll_areas.duplicate(),
            resize: self.resize.duplicate(),
            floating: self.floating.duplicate(),
            floating_order: copy_ids(&self.floating_order),
            floating_visible_last_frame: self.floating_visible_last_frame.duplicate(),
            floating_visible_current_frame: self.floating_visible_current_frame.duplicate(),
        };
        proof {
            assert(r@ =~= self@.cleared());
        }
        r
    }

    /// Rebuilds a store from a saved snapshot. The tables and the floating
    /// layer come back as saved; the interaction registers start out clear,
    /// since transient interaction state must not survive a reload.
    pub fn from_saved(s: SavedMemory) -> (r: Memory)
        requires
            s.wf(),
        ensures
            r.wf(),
            r@ == s@,
    {
        let r = Memory {
            active_id: None,
            kb_focus_id: None,
            collapsing_headers: s.collapsing_headers,
            scroll_areas: s.scroll_areas,
            resize: s.resize,
            floating: s.floating,
            floating_order: s.floating_order,
            floating_visible_last_frame: s.floating_visible_last_frame,
            floating_visible_current_frame: s.floating_visible_current_frame,
        };
        proof {
            assert(r@ =~= s@);
        }
        r
    }
}

impl Default for Memory {
    /// Same as `Memory::new`: an empty store.
    fn default() -> (r: Memory)
        ensures
            r.wf(),
            r@ == MemoryView::empty(),
    {
        Memory::new()
    }
}

/// Everything of a store that persistence keeps: the typed tables and the
/// floating-layer data, without the interaction registers. Its view is a
/// store view whose registers are clear.
pub struct SavedMemory {
    collapsing_headers: IdMap<CollapsingHeaderState>,
    scroll_areas: IdMap<ScrollAreaState>,
    resize: IdMap<ResizeState>,
    floating: IdMap<FloatingState>,
    floating_order: Vec<Id>,
    floating_visible_last_frame: IdSet,
    floating_visible_current_frame: IdSet,
}

impl View for SavedMemory {
    type V = MemoryView;

    closed spec fn view(&self) -> MemoryView {
        MemoryView {
            active_id: None,
            kb_focus_id: None,
            collapsing_headers: self.collapsing_headers@,
            scroll_areas: self.scroll_areas@,
            resize: self.resize@,
            floating: self.floating@,
            order: self.floating_order@,
            visible_last: self.floating_visible_last_frame@,
            visible_current: self.floating_visible_current_frame@,
        }
    }
}

/// Whether the first component of every pair occurs in `order`.
fn keys_all_in(pairs: &Vec<(Id, FloatingState)>, order: &Vec<Id>) -> (r: bool)
    ensures
        r == (forall|i: int|
            0 <= i < pairs@.len() ==> order@.contains((#[trigger] pairs@[i]).0)),
{
    let n = pairs.len();
    let mut i: usize = 0;
    while i < n
        invariant
            n == pairs@.len(),
            i <= n,
            forall|j: int| 0 <= j < i ==> order@.contains((#[trigger] pairs@[j]).0),
        decreases n - i,
    {
        match find_id(order, pairs[i].0) {
            Some(k) => {
                proof {
                    assert(order@[k as int] == pairs@[i as int].0);
                    assert(order@.contains(pairs@[i as int].0));
                }
            },
            None => {
                return false;
            },
        }
        i = i + 1;
    }
    true
}

impl SavedMemory {
    /// Internal consistency, as for the store itself: distinct table keys, a
    /// duplicate-free z-order, and every identity with floating state
    /// somewhere in the z-order.
    pub closed spec fn wf(self) -> bool {
        &&& self.collapsing_headers.wf()
        &&& self.scroll_areas.wf()
        &&& self.resize.wf()
        &&& self.floating.wf()
        &&& self.floating_order@.no_duplicates()
        &&& self.floating_visible_last_frame.wf()
        &&& self.floating_visible_current_frame.wf()
        &&& forall|id: Id|
            #[trigger] self.floating@.dom().contains(id) ==> self.floating_order@.contains(id)
    }

    /// What a consistent snapshot guarantees of its z-order, as for the
    /// store itself: no identity stands in it twice, and every identity with
    /// floating state stands somewhere in it. In particular, a saved store's
    /// own parts always satisfy what `from_parts` accepts.
    pub proof fn lemma_wf_order(self)
        requires
            self.wf(),
        ensures
            self@.order.no_duplicates(),
            forall|id: Id|
                #[trigger] self@.floating.dom().contains(id) ==> self@.order.contains(id),
    {
    }

    /// Builds a snapshot from plain parts, as read back by whatever medium
    /// stored them. Table pairs are inserted from first to last, a later
    /// pair overwriting an earlier one with the same key; repeated
    /// visibility entries are stored once. The parts are accepted exactly
    /// when the z-order names no identity twice and every floating entry's
    /// identity occurs in it; otherwise nothing is built.
    pub fn from_parts(
        collapsing_headers: &Vec<(Id, CollapsingHeaderState)>,
        scroll_areas: &Vec<(Id, ScrollAreaState)>,
        resize: &Vec<(Id, ResizeState)>,
        floating: &Vec<(Id, FloatingState)>,
        floating_order: &Vec<Id>,
        visible_last: &Vec<Id>,
        visible_current: &Vec<Id>,
    ) -> (r: Option<SavedMemory>)
        ensures
            r.is_some() <==> (floating_order@.no_duplicates() && forall|i: int|
                0 <= i < floating@.len() ==> floating_order@.contains(
                    (#[trigger] floating@[i]).0,
                )),
            match r {
                Some(s) => {
                    &&& s.wf()
                    &&& s@.collapsing_headers == map_of(collapsing_headers@)
                    &&& s@.scroll_areas == map_of(scroll_areas@)
                    &&& s@.resize == map_of(resize@)
                    &&& s@.floating == map_of(floating@)
                    &&& s@.order == floating_order@
                    &&& s@.visible_last == visible_last@.to_set()
                    &&& s@.visible_current == visible_current@.to_set()
                },
                None => true,
            },
    {
        if !ids_distinct(floating_order) {
            return None;
        }
        if !keys_all_in(floating, floating_order) {
            return None;
        }
        let s = SavedMemory {
            collapsing_headers: IdMap::from_pairs(collapsing_headers),
            scroll_areas: IdMap::from_pairs(scroll_areas),
            resize: IdMap::from_pairs(resize),
            floating: IdMap::from_pairs(floating),
            floating_order: copy_ids(floating_order),
            floating_visible_last_frame: IdSet::from_members(visible_last),
            floating_visible_current_frame: IdSet::from_members(visible_current),
        };
        proof {
            assert forall|id: Id| #[trigger] s.floating@.dom().contains(id)
                implies s.floating_order@.contains(id) by {
                crate::idmap::lemma_map_of_contains(floating@, id);
                let i = choose|i: int| 0 <= i < floating@.len() && (#[trigger] floating@[i]).0
                    == id;
                assert(floating_order@.contains(floating@[i].0));
            }
        }
        Some(s)
    }

    /// The collapsing-header table as key/value pairs, keys distinct.
    pub fn collapsing_headers(&self) -> (r: Vec<(Id, CollapsingHeaderState)>)
        requires
            self.wf(),
        ensures
            distinct_keys(r@),
            map_of(r@) == self@.collapsing_headers,
    {
        self.collapsing_headers.pairs()
    }

    /// The scroll-area table as key/value pairs, keys distinct.
    pub fn scroll_areas(&self) -> (r: Vec<(Id, ScrollAreaState)>)
        requires
            self.wf(),
        ensures
            distinct_keys(r@),
            map_of(r@) == self@.scroll_areas,
    {
        self.scroll_areas.pairs()
    }

    /// The resize table as key/value pairs, keys distinct.
    pub fn resize_states(&self) -> (r: Vec<(Id, ResizeState)>)
        requires
            self.wf(),
        ensures
            distinct_keys(r@),
            map_of(r@) == self@.resize,
    {
        self.resize.pairs()
    }

    /// The floating-window table as key/value pairs, keys distinct.
    pub fn floating_states(&self) -> (r: Vec<(Id, FloatingState)>)
        requires
            self.wf(),
        ensures
            distinct_keys(r@),
            map_of(r@) == self@.floating,
    {
        self.floating.pairs()
    }

    /// The saved z-order, back to front.
    pub fn floating_order(&self) -> (r: Vec<Id>)
        requires
            self.wf(),
        ensures
            r@ == self@.order,
    {
        copy_ids(&self.floating_order)
    }

    /// The identities visible in the previous completed frame, one each.
    pub fn visible_last(&self) -> (r: Vec<Id>)
        requires
            self.wf(),
        ensures
            r@.no_duplicates(),
            r@.to_set() == self@.visible_last,
    {
        self.floating_visible_last_frame.members()
    }

    /// The identities visible so far in the current frame, one each.
    pub fn visible_current(&self) -> (r: Vec<Id>)
        requires
            self.wf(),
        ensures
            r@.no_duplicates(),
            r@.to_set() == self@.visible_current,
    {
        self.floating_visible_current_frame.members()
    }
}

} // verus!
