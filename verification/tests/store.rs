use emigui_memory::geometry::Pos2;
use emigui_memory::geometry::Vec2;
use emigui_memory::id::Id;
use emigui_memory::memory::Layer;
use emigui_memory::memory::Memory;
use emigui_memory::memory::SavedMemory;
use emigui_memory::widgets::CollapsingHeaderState;
use emigui_memory::widgets::FloatingState;
use emigui_memory::widgets::ResizeState;
use emigui_memory::widgets::ScrollAreaState;

fn window(x: i32, y: i32, w: i32, h: i32) -> FloatingState {
    FloatingState { pos: Pos2 { x, y }, size: Vec2 { x: w, y: h } }
}

fn order_of(m: &Memory) -> Vec<u64> {
    m.floating_order().iter().map(|id| id.value()).collect()
}

#[test]
fn order_preservation_first_registration() {
    let mut m = Memory::new();
    m.set_floating_state(Id::new(1), window(0, 0, 10, 10));
    m.set_floating_state(Id::new(2), window(20, 0, 10, 10));
    m.set_floating_state(Id::new(3), window(40, 0, 10, 10));
    assert_eq!(order_of(&m), vec![1, 2, 3]);
}

#[test]
fn reregistration_keeps_order() {
    let mut m = Memory::new();
    m.set_floating_state(Id::new(1), window(0, 0, 10, 10));
    m.set_floating_state(Id::new(2), window(20, 0, 10, 10));
    m.set_floating_state(Id::new(1), window(5, 5, 10, 10));
    assert_eq!(order_of(&m), vec![1, 2]);
    let st = m.get_floating(Id::new(1)).unwrap();
    assert_eq!(st.pos, Pos2 { x: 5, y: 5 });
}

#[test]
fn promotion_moves_to_top() {
    let mut m = Memory::new();
    m.set_floating_state(Id::new(1), window(0, 0, 10, 10));
    m.set_floating_state(Id::new(2), window(0, 0, 10, 10));
    m.set_floating_state(Id::new(3), window(0, 0, 10, 10));
    m.move_floating_to_top(Id::new(1));
    assert_eq!(order_of(&m), vec![2, 3, 1]);
}

#[test]
fn promotion_idempotent() {
    let mut m = Memory::new();
    m.set_floating_state(Id::new(1), window(0, 0, 10, 10));
    m.set_floating_state(Id::new(2), window(0, 0, 10, 10));
    m.set_floating_state(Id::new(3), window(0, 0, 10, 10));
    m.move_floating_to_top(Id::new(2));
    let once = order_of(&m);
    m.move_floating_to_top(Id::new(2));
    assert_eq!(order_of(&m), once);
    assert_eq!(once, vec![1, 3, 2]);
}

#[test]
fn promotion_of_topmost_keeps_order() {
    let mut m = Memory::new();
    m.set_floating_state(Id::new(1), window(0, 0, 10, 10));
    m.set_floating_state(Id::new(2), window(0, 0, 10, 10));
    let before_order = order_of(&m);
    let before_saved = m.to_saved();
    m.move_floating_to_top(Id::new(2));
    assert_eq!(order_of(&m), before_order);
    // Visibility-set state is identical to what the full path would leave:
    // the promoted window was already visible in the current frame.
    let after_saved = m.to_saved();
    let mut before_vis: Vec<u64> =
        before_saved.visible_current().iter().map(|id| id.value()).collect();
    let mut after_vis: Vec<u64> =
        after_saved.visible_current().iter().map(|id| id.value()).collect();
    before_vis.sort();
    after_vis.sort();
    assert_eq!(before_vis, after_vis);
}

#[test]
fn promotion_of_topmost_marks_visible() {
    let mut m = Memory::new();
    m.begin_frame();
    m.set_floating_state(Id::new(1), window(0, 0, 10, 10));
    // Next frame: the window has not re-registered, so it is only
    // previous-frame visible when the click promotes it.
    m.begin_frame();
    m.move_floating_to_top(Id::new(1));
    let saved = m.to_saved();
    let current: Vec<u64> = saved.visible_current().iter().map(|id| id.value()).collect();
    assert_eq!(current, vec![1]);
    // The promotion counted as this frame's visibility, so the window is
    // still hit-testable in the frame after it.
    m.begin_frame();
    assert_eq!(m.layer_at(Pos2 { x: 5, y: 5 }), Layer::Window(Id::new(1)));
    // Without any further sign of life it then ages out as usual.
    m.begin_frame();
    assert_eq!(m.layer_at(Pos2 { x: 5, y: 5 }), Layer::Background);
}

#[test]
fn promotion_of_absent_id_appends() {
    let mut m = Memory::new();
    m.set_floating_state(Id::new(1), window(0, 0, 10, 10));
    m.move_floating_to_top(Id::new(7));
    assert_eq!(order_of(&m), vec![1, 7]);
    // A later first registration of that identity must not duplicate it.
    m.set_floating_state(Id::new(7), window(0, 0, 5, 5));
    assert_eq!(order_of(&m), vec![1, 7]);
}

#[test]
fn top_window_wins() {
    let mut m = Memory::new();
    // A first, B second: B is topmost. Both contain the probe point.
    m.set_floating_state(Id::new(1), window(0, 0, 10, 10));
    m.set_floating_state(Id::new(2), window(5, 5, 10, 10));
    assert_eq!(m.layer_at(Pos2 { x: 6, y: 6 }), Layer::Window(Id::new(2)));
    // A point only A contains still goes to A.
    assert_eq!(m.layer_at(Pos2 { x: 1, y: 1 }), Layer::Window(Id::new(1)));
}

#[test]
fn promotion_changes_hit_winner() {
    let mut m = Memory::new();
    m.set_floating_state(Id::new(1), window(0, 0, 10, 10));
    m.set_floating_state(Id::new(2), window(0, 0, 10, 10));
    assert_eq!(m.layer_at(Pos2 { x: 3, y: 3 }), Layer::Window(Id::new(2)));
    m.move_floating_to_top(Id::new(1));
    assert_eq!(m.layer_at(Pos2 { x: 3, y: 3 }), Layer::Window(Id::new(1)));
}

#[test]
fn visibility_aging() {
    let mut m = Memory::new();
    // Frame N: W registers.
    m.begin_frame();
    m.set_floating_state(Id::new(1), window(0, 0, 10, 10));
    assert_eq!(m.layer_at(Pos2 { x: 5, y: 5 }), Layer::Window(Id::new(1)));
    // Frame N+1: W does not re-register, but previous-frame visibility
    // still makes it hit-testable.
    m.begin_frame();
    assert_eq!(m.layer_at(Pos2 { x: 5, y: 5 }), Layer::Window(Id::new(1)));
    // Frame N+2: W aged out of both sets; its geometry is still stored.
    m.begin_frame();
    assert_eq!(m.layer_at(Pos2 { x: 5, y: 5 }), Layer::Background);
    assert!(m.get_floating(Id::new(1)).is_some());
    assert_eq!(order_of(&m), vec![1]);
}

#[test]
fn no_containment_no_hit() {
    let mut m = Memory::new();
    m.set_floating_state(Id::new(1), window(0, 0, 10, 10));
    m.set_floating_state(Id::new(2), window(20, 20, 10, 10));
    assert_eq!(m.layer_at(Pos2 { x: 15, y: 15 }), Layer::Background);
    assert_eq!(m.layer_at(Pos2 { x: -1, y: 5 }), Layer::Background);
}

#[test]
fn containment_is_half_open() {
    let mut m = Memory::new();
    m.set_floating_state(Id::new(1), window(0, 0, 10, 10));
    assert_eq!(m.layer_at(Pos2 { x: 0, y: 0 }), Layer::Window(Id::new(1)));
    assert_eq!(m.layer_at(Pos2 { x: 9, y: 9 }), Layer::Window(Id::new(1)));
    assert_eq!(m.layer_at(Pos2 { x: 10, y: 10 }), Layer::Background);
    assert_eq!(m.layer_at(Pos2 { x: 10, y: 5 }), Layer::Background);
}

#[test]
fn zero_sized_window_catches_nothing() {
    let mut m = Memory::new();
    m.set_floating_state(Id::new(1), window(3, 3, 0, 0));
    assert_eq!(m.layer_at(Pos2 { x: 3, y: 3 }), Layer::Background);
}

#[test]
fn empty_store_defaults() {
    let mut m = Memory::default();
    assert_eq!(m.layer_at(Pos2 { x: 0, y: 0 }), Layer::Background);
    assert!(m.get_floating(Id::new(1)).is_none());
    assert!(m.get_collapsing_header(Id::new(1)).is_none());
    assert!(m.get_scroll_area(Id::new(1)).is_none());
    assert!(m.get_resize(Id::new(1)).is_none());
    assert!(m.active_id().is_none());
    assert!(m.kb_focus_id().is_none());
    assert!(m.floating_order().is_empty());
}

#[test]
fn typed_tables_store_and_overwrite() {
    let mut m = Memory::new();
    let x = Id::new(9);
    m.set_collapsing_header(x, CollapsingHeaderState { expanded: true });
    assert_eq!(m.get_collapsing_header(x), Some(CollapsingHeaderState { expanded: true }));
    m.set_collapsing_header(x, CollapsingHeaderState { expanded: false });
    assert_eq!(m.get_collapsing_header(x), Some(CollapsingHeaderState { expanded: false }));
    m.set_scroll_area(x, ScrollAreaState { offset: Vec2 { x: 0, y: 40 } });
    assert_eq!(m.get_scroll_area(x), Some(ScrollAreaState { offset: Vec2 { x: 0, y: 40 } }));
    m.set_resize(x, ResizeState { size: Vec2 { x: 100, y: 50 } });
    assert_eq!(m.get_resize(x), Some(ResizeState { size: Vec2 { x: 100, y: 50 } }));
}

#[test]
fn independent_tables() {
    let mut m = Memory::new();
    let x = Id::new(9);
    m.set_scroll_area(x, ScrollAreaState { offset: Vec2 { x: 1, y: 2 } });
    m.set_resize(x, ResizeState { size: Vec2 { x: 3, y: 4 } });
    // Writing collapsing-header state for the same identity touches neither
    // of the other tables.
    m.set_collapsing_header(x, CollapsingHeaderState { expanded: true });
    assert_eq!(m.get_scroll_area(x), Some(ScrollAreaState { offset: Vec2 { x: 1, y: 2 } }));
    assert_eq!(m.get_resize(x), Some(ResizeState { size: Vec2 { x: 3, y: 4 } }));
}

#[test]
fn interaction_registers() {
    let mut m = Memory::new();
    m.set_active_id(Some(Id::new(4)));
    m.set_kb_focus_id(Some(Id::new(5)));
    assert_eq!(m.active_id(), Some(Id::new(4)));
    assert_eq!(m.kb_focus_id(), Some(Id::new(5)));
    m.set_active_id(None);
    assert_eq!(m.active_id(), None);
    assert_eq!(m.kb_focus_id(), Some(Id::new(5)));
}

#[test]
fn persistence_round_trip() {
    let mut m = Memory::new();
    let x = Id::new(1);
    m.set_collapsing_header(x, CollapsingHeaderState { expanded: true });
    m.set_scroll_area(x, ScrollAreaState { offset: Vec2 { x: 7, y: 8 } });
    m.set_resize(x, ResizeState { size: Vec2 { x: 9, y: 10 } });
    m.set_floating_state(Id::new(2), window(0, 0, 10, 10));
    m.set_floating_state(Id::new(3), window(5, 5, 10, 10));
    m.set_active_id(Some(Id::new(2)));
    m.set_kb_focus_id(Some(Id::new(3)));

    let saved = m.to_saved();
    let mut r = Memory::from_saved(saved);

    // Typed tables and floating data come back verbatim.
    assert_eq!(r.get_collapsing_header(x), Some(CollapsingHeaderState { expanded: true }));
    assert_eq!(r.get_scroll_area(x), Some(ScrollAreaState { offset: Vec2 { x: 7, y: 8 } }));
    assert_eq!(r.get_resize(x), Some(ResizeState { size: Vec2 { x: 9, y: 10 } }));
    assert_eq!(order_of(&r), vec![2, 3]);
    assert_eq!(r.get_floating(Id::new(2)), Some(window(0, 0, 10, 10)));
    assert_eq!(r.get_floating(Id::new(3)), Some(window(5, 5, 10, 10)));
    // Visibility survived too, so hit testing answers as before the reload.
    assert_eq!(r.layer_at(Pos2 { x: 6, y: 6 }), Layer::Window(Id::new(3)));
    // The interaction registers never survive a reload.
    assert_eq!(r.active_id(), None);
    assert_eq!(r.kb_focus_id(), None);
}

#[test]
fn saved_parts_round_trip() {
    let mut m = Memory::new();
    m.set_collapsing_header(Id::new(1), CollapsingHeaderState { expanded: true });
    m.set_floating_state(Id::new(2), window(0, 0, 10, 10));
    let saved = m.to_saved();

    let rebuilt = SavedMemory::from_parts(
        &saved.collapsing_headers(),
        &saved.scroll_areas(),
        &saved.resize_states(),
        &saved.floating_states(),
        &saved.floating_order(),
        &saved.visible_last(),
        &saved.visible_current(),
    )
    .unwrap();
    let mut r = Memory::from_saved(rebuilt);
    assert_eq!(
        r.get_collapsing_header(Id::new(1)),
        Some(CollapsingHeaderState { expanded: true })
    );
    assert_eq!(r.get_floating(Id::new(2)), Some(window(0, 0, 10, 10)));
    assert_eq!(order_of(&r), vec![2]);
    assert_eq!(r.layer_at(Pos2 { x: 1, y: 1 }), Layer::Window(Id::new(2)));
}

#[test]
fn from_parts_rejects_duplicate_order() {
    let r = SavedMemory::from_parts(
        &vec![],
        &vec![],
        &vec![],
        &vec![],
        &vec![Id::new(1), Id::new(2), Id::new(1)],
        &vec![],
        &vec![],
    );
    assert!(r.is_none());
}

#[test]
fn from_parts_rejects_floating_id_missing_from_order() {
    let r = SavedMemory::from_parts(
        &vec![],
        &vec![],
        &vec![],
        &vec![(Id::new(3), window(0, 0, 1, 1))],
        &vec![Id::new(1)],
        &vec![],
        &vec![],
    );
    assert!(r.is_none());
}

#[test]
fn from_parts_accepts_consistent_parts() {
    let r = SavedMemory::from_parts(
        &vec![],
        &vec![],
        &vec![],
        &vec![(Id::new(1), window(0, 0, 4, 4))],
        &vec![Id::new(1)],
        &vec![Id::new(1)],
        &vec![],
    );
    assert!(r.is_some());
    let mut m = Memory::from_saved(r.unwrap());
    // Previous-frame visibility alone keeps the window hit-testable.
    assert_eq!(m.layer_at(Pos2 { x: 2, y: 2 }), Layer::Window(Id::new(1)));
    assert_eq!(m.get_floating(Id::new(1)), Some(window(0, 0, 4, 4)));
}

#[test]
fn begin_frame_resets_current_visibility() {
    let mut m = Memory::new();
    m.set_floating_state(Id::new(1), window(0, 0, 10, 10));
    m.begin_frame();
    let saved = m.to_saved();
    let last: Vec<u64> = saved.visible_last().iter().map(|id| id.value()).collect();
    let current: Vec<u64> = saved.visible_current().iter().map(|id| id.value()).collect();
    assert_eq!(last, vec![1]);
    assert!(current.is_empty());
}
