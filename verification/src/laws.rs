//! Laws of the store, proved once and for all over its mathematical view.
//!
//! Each proof function here states a guarantee that relates several
//! operations of `Memory` (or all states at once), over the same view
//! functions that the operations' own contracts use.

use vstd::prelude::*;
use crate::geometry::Pos2;
use crate::id::Id;
use crate::idmap::distinct_keys;
use crate::memory::Layer;
use crate::memory::MemoryView;
use crate::memory::lemma_remove_keeps;
use crate::widgets::CollapsingHeaderState;
use crate::widgets::FloatingState;
use crate::widgets::ResizeState;
use crate::widgets::ScrollAreaState;

verus! {

/// The result of registering each entry in turn, from first to last.
pub open spec fn register_all(m: MemoryView, entries: Seq<(Id, FloatingState)>) -> MemoryView
    decreases entries.len(),
{
    if entries.len() == 0 {
        m
    } else {
        register_all(m, entries.drop_last()).register(entries.last().0, entries.last().1)
    }
}

/// Order preservation: registering floating state for distinct identities
/// none of which is yet in the z-order extends the z-order by exactly those
/// identities, in first-registration order.
pub proof fn lemma_order_preservation(m: MemoryView, entries: Seq<(Id, FloatingState)>)
    requires
        distinct_keys(entries),
        forall|i: int| 0 <= i < entries.len() ==> !m.order.contains((#[trigger] entries[i]).0),
    ensures
        register_all(m, entries).order == m.order + entries.map_values(
            |e: (Id, FloatingState)| e.0,
        ),
    decreases entries.len(),
{
    broadcast use vstd::seq_lib::group_seq_properties;

    let ids = entries.map_values(|e: (Id, FloatingState)| e.0);
    if entries.len() == 0 {
        assert(register_all(m, entries).order =~= m.order + ids);
    } else {
        let prefix = entries.drop_last();
        let last = entries.last();
        assert forall|i: int|
            0 <= i < prefix.len() implies !m.order.contains((#[trigger] prefix[i]).0) by {
            assert(prefix[i] == entries[i]);
        }
        lemma_order_preservation(m, prefix);
        let mm = register_all(m, prefix);
        let prefix_ids = prefix.map_values(|e: (Id, FloatingState)| e.0);
        assert(!mm.order.contains(last.0)) by {
            assert(!m.order.contains(last.0));
            if prefix_ids.contains(last.0) {
                let i = choose|i: int|
                    0 <= i < prefix_ids.len() && prefix_ids[i] == last.0;
                assert(entries[i].0 == last.0);
                assert(entries[entries.len() - 1].0 == last.0);
            }
        }
        assert(register_all(m, entries).order =~= m.order + ids) by {
            assert(ids =~= prefix_ids.push(last.0));
        }
    }
}

/// Promotion idempotence: promoting a window twice in a row ends in the same
/// state as promoting it once, and either way the mutual order of all other
/// windows is untouched.
pub proof fn lemma_promotion_idempotent(m: MemoryView, id: Id)
    requires
        m.order.no_duplicates(),
    ensures
        m.promote(id).promote(id) == m.promote(id),
        m.promote(id).order.remove_value(id) == m.order.remove_value(id),
{
    m.order.index_of_first_ensures(id);
    let p = m.promote(id);
    if m.order.len() > 0 && m.order.last() == id {
        // Already topmost: the first promotion only marks the window
        // visible, and marking it a second time adds nothing.
        assert(p.promote(id) =~= p);
    } else {
        let rv = m.order.remove_value(id);
        assert(!rv.contains(id)) by {
            match m.order.index_of_first(id) {
                Some(i) => {
                    lemma_remove_keeps(m.order, i);
                },
                None => {},
            }
        }
        assert(p.order == rv.push(id));
        assert(p.order.len() > 0 && p.order.last() == id);
        assert(p.promote(id) =~= p);
        // Removing the promoted identity again peels off exactly the pushed
        // copy, leaving the other windows as they stood before.
        p.order.index_of_first_ensures(id);
        match p.order.index_of_first(id) {
            Some(k) => {
                assert(k == rv.len()) by {
                    if k < rv.len() {
                        assert(p.order[k] == rv[k]);
                    }
                }
                assert(p.order.remove(k) =~= rv);
            },
            None => {
                assert(p.order[p.order.len() - 1] == id);
            },
        }
    }
}

/// Fast-path equivalence: promoting a window that is already topmost ends
/// in exactly the state the full remove-then-append path would leave — the
/// z-order untouched, the window marked visible in the current frame.
pub proof fn lemma_promotion_fast_path(m: MemoryView, id: Id)
    requires
        m.order.no_duplicates(),
        m.order.len() > 0,
        m.order.last() == id,
    ensures
        m.promote(id) == m.promote_full(id),
        m.promote_full(id).order == m.order,
{
    m.order.index_of_first_ensures(id);
    assert(m.order[m.order.len() - 1] == id);
    match m.order.index_of_first(id) {
        Some(k) => {
            assert(k == m.order.len() - 1) by {
                if k < m.order.len() - 1 {
                    assert(m.order[k] == m.order[m.order.len() - 1]);
                }
            }
            assert(m.order.remove(k).push(id) =~= m.order);
            assert(m.promote(id) =~= m.promote_full(id));
        },
        None => {
            assert(m.order.contains(id));
        },
    }
}

/// Helper for the hit-test laws: starting the downward scan at `i`, a window
/// at an index below `i` that catches the point guarantees the scan answers
/// with a window at that index or above it.
proof fn lemma_hit_from_finds(m: MemoryView, p: Pos2, j: int, i: int)
    requires
        0 <= j < i <= m.order.len(),
        m.hit_window(m.order[j], p),
    ensures
        exists|k: int| j <= k < i && m.hit_from(p, i) == Layer::Window(#[trigger] m.order[k]),
    decreases i,
{
    if m.hit_window(m.order[i - 1], p) {
        assert(m.hit_from(p, i) == Layer::Window(m.order[i - 1]));
    } else {
        assert(i - 1 != j);
        lemma_hit_from_finds(m, p, j, i - 1);
        let k = choose|k: int|
            j <= k < i - 1 && m.hit_from(p, i - 1) == Layer::Window(#[trigger] m.order[k]);
        assert(m.hit_from(p, i) == Layer::Window(m.order[k]));
    }
}

/// Top-wins hit test: when the window at z-order index `j` is a visible
/// candidate containing the point, the hit test answers with a window at
/// index `j` or above it — never the background, never a lower window.
pub proof fn lemma_topmost_wins(m: MemoryView, p: Pos2, j: int)
    requires
        0 <= j < m.order.len(),
        m.hit_window(m.order[j], p),
    ensures
        exists|k: int| j <= k < m.order.len() && m.hit(p) == Layer::Window(
            #[trigger] m.order[k],
        ),
{
    lemma_hit_from_finds(m, p, j, m.order.len() as int);
}

/// Helper: a window that is no hit-test candidate is never the scan's answer.
proof fn lemma_hit_from_skips(m: MemoryView, p: Pos2, id: Id, i: int)
    requires
        !m.candidate(id),
    ensures
        m.hit_from(p, i) != Layer::Window(id),
    decreases i,
{
    if 0 < i <= m.order.len() && !m.hit_window(m.order[i - 1], p) {
        lemma_hit_from_skips(m, p, id, i - 1);
    }
}

/// Visibility aging: a window visible in the frame being built is still a
/// hit-test candidate for the whole of the next frame — whatever caught the
/// point before the boundary still catches it after — but if it never
/// re-registers, the frame after that cannot answer with it at all.
pub proof fn lemma_visibility_aging(m: MemoryView, id: Id)
    requires
        m.visible_current.contains(id),
    ensures
        m.next_frame().candidate(id),
        forall|p: Pos2| #[trigger] m.hit_window(id, p) ==> m.next_frame().hit_window(id, p),
        !m.next_frame().next_frame().candidate(id),
        forall|p: Pos2| m.next_frame().next_frame().hit(p) != Layer::Window(id),
{
    let aged = m.next_frame().next_frame();
    assert forall|p: Pos2| aged.hit(p) != Layer::Window(id) by {
        lemma_hit_from_skips(aged, p, id, aged.order.len() as int);
    }
}

/// Helper: with no rectangle containing the point, the scan falls through to
/// the background from any starting index.
proof fn lemma_hit_from_background(m: MemoryView, p: Pos2, i: int)
    requires
        forall|id: Id|
            #[trigger] m.floating.dom().contains(id) ==> !m.floating[id].spec_rect().spec_contains(
                p,
            ),
    ensures
        m.hit_from(p, i) == Layer::Background,
    decreases i,
{
    if 0 < i <= m.order.len() {
        assert(!m.hit_window(m.order[i - 1], p));
        lemma_hit_from_background(m, p, i - 1);
    }
}

/// No containment, no hit: a point outside every registered window's
/// rectangle resolves to the background, whatever the visibility sets hold.
pub proof fn lemma_no_containment_no_hit(m: MemoryView, p: Pos2)
    requires
        forall|id: Id|
            #[trigger] m.floating.dom().contains(id) ==> !m.floating[id].spec_rect().spec_contains(
                p,
            ),
    ensures
        m.hit(p) == Layer::Background,
{
    lemma_hit_from_background(m, p, m.order.len() as int);
}

/// Persistence round trip: what survives a save and reload is exactly the
/// typed tables and the floating-layer data, unchanged, while both
/// interaction registers come back clear.
pub proof fn lemma_persistence_round_trip(m: MemoryView)
    ensures
        m.cleared().collapsing_headers == m.collapsing_headers,
        m.cleared().scroll_areas == m.scroll_areas,
        m.cleared().resize == m.resize,
        m.cleared().floating == m.floating,
        m.cleared().order == m.order,
        m.cleared().visible_last == m.visible_last,
        m.cleared().visible_current == m.visible_current,
        m.cleared().active_id == None::<Id>,
        m.cleared().kb_focus_id == None::<Id>,
{
}

/// Independent tables: writing state of one widget kind leaves the tables of
/// every other kind, and the floating layer, exactly as they were.
pub proof fn lemma_tables_independent(
    m: MemoryView,
    x: Id,
    ch: CollapsingHeaderState,
    sc: ScrollAreaState,
    rs: ResizeState,
)
    ensures
        m.with_collapsing_header(x, ch).scroll_areas == m.scroll_areas,
        m.with_collapsing_header(x, ch).resize == m.resize,
        m.with_collapsing_header(x, ch).floating == m.floating,
        m.with_scroll_area(x, sc).collapsing_headers == m.collapsing_headers,
        m.with_scroll_area(x, sc).resize == m.resize,
        m.with_scroll_area(x, sc).floating == m.floating,
        m.with_resize(x, rs).collapsing_headers == m.collapsing_headers,
        m.with_resize(x, rs).scroll_areas == m.scroll_areas,
        m.with_resize(x, rs).floating == m.floating,
{
}

} // verus!
