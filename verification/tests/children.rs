use pengui::children::{ChildList, ChildQuery, Slot};
use pengui::component_id::{CodeLocation, ComponentId};
use pengui::frame_counter::FrameCounter;

/// Builds a frame counter in a list of children, as a window does: a new
/// child first holds a placeholder counter, replaced by the created one, and
/// reports zero; an existing child is updated by the builder.
fn build_counter(list: &mut ChildList<FrameCounter>, loc: CodeLocation, builder: FrameCounter) -> u32 {
    let id = ComponentId::new::<FrameCounter>(loc);
    match list.query(id, FrameCounter::new) {
        ChildQuery::Uninitialized(i) => {
            list.replace_node(i, builder.create());
            0
        }
        ChildQuery::Initialized(i) => {
            let mut widget = list.replace_node(i, FrameCounter::new());
            let feedback = builder.update(&mut widget);
            list.replace_node(i, widget);
            feedback
        }
    }
}

fn ids(list: &ChildList<FrameCounter>) -> Vec<ComponentId> {
    (0..list.len()).map(|i| list.id(i)).collect()
}

#[test]
fn counter_rebuilt_each_frame_counts_frames() {
    let mut list = ChildList::new();
    for i in 0..12u32 {
        list.invalidate_all();
        build_counter(&mut list, CodeLocation("w.rs", 1, 1), FrameCounter::new());
        assert_eq!(i, build_counter(&mut list, CodeLocation("w.rs", 2, 1), FrameCounter::new()));
        build_counter(&mut list, CodeLocation("w.rs", 3, 1), FrameCounter::new());
        list.retain_valid();
        assert_eq!(list.len(), 3);
    }
}

#[test]
fn counter_at_a_new_location_restarts() {
    let mut list = ChildList::new();
    for i in 0..12u32 {
        list.invalidate_all();
        build_counter(&mut list, CodeLocation("w.rs", 1, 1), FrameCounter::new());
        let fake_loc = CodeLocation("w.rs", 2 * i, 1 + i);
        assert_eq!(0, build_counter(&mut list, fake_loc, FrameCounter::new()));
        build_counter(&mut list, CodeLocation("w.rs", 3, 1), FrameCounter::new());
        list.retain_valid();
        // the counter built at the previous frame's location is dropped
        assert_eq!(list.len(), 3);
    }
}

#[test]
fn counter_that_does_not_count() {
    let mut list = ChildList::new();
    let loc = CodeLocation("w.rs", 5, 5);
    for _ in 0..4 {
        list.invalidate_all();
        assert_eq!(0, build_counter(&mut list, loc, FrameCounter::new().count_next(false)));
        list.retain_valid();
    }
    list.invalidate_all();
    assert_eq!(1, build_counter(&mut list, loc, FrameCounter::new()));
    list.retain_valid();
}

#[test]
fn frame_keeps_built_children_in_build_order() {
    let a = CodeLocation("w.rs", 1, 1);
    let b = CodeLocation("w.rs", 2, 1);
    let c = CodeLocation("w.rs", 3, 1);
    let d = CodeLocation("w.rs", 4, 1);
    let id = |l: CodeLocation| ComponentId::new::<FrameCounter>(l);
    let mut list = ChildList::new();
    list.invalidate_all();
    for l in [a, b, c] {
        build_counter(&mut list, l, FrameCounter::new());
    }
    list.retain_valid();
    assert!(ids(&list) == vec![id(a), id(b), id(c)]);

    // next frame: c first, then a new d, then a; b is not built
    list.invalidate_all();
    assert_eq!(list.query(id(c), FrameCounter::new), ChildQuery::Initialized(0));
    assert_eq!(list.query(id(d), FrameCounter::new), ChildQuery::Uninitialized(1));
    assert_eq!(list.query(id(a), FrameCounter::new), ChildQuery::Initialized(2));
    list.retain_valid();
    assert!(ids(&list) == vec![id(c), id(d), id(a)]);
    assert!((0..3).all(|i| list.is_valid(i)));
}

#[test]
fn frame_without_queries_empties_the_list() {
    let mut list = ChildList::new();
    list.invalidate_all();
    build_counter(&mut list, CodeLocation("w.rs", 1, 1), FrameCounter::new());
    list.retain_valid();
    assert_eq!(list.len(), 1);
    list.invalidate_all();
    assert!(!list.is_valid(0));
    list.retain_valid();
    assert_eq!(list.len(), 0);
}

#[test]
fn existing_child_keeps_its_node() {
    let mut list: ChildList<u32> = ChildList::new();
    let x = ComponentId::new_custom::<u32>(1);
    let y = ComponentId::new_custom::<u32>(2);
    list.invalidate_all();
    assert_eq!(list.query(x, || 10), ChildQuery::Uninitialized(0));
    assert_eq!(list.query(y, || 20), ChildQuery::Uninitialized(1));
    list.retain_valid();
    list.invalidate_all();
    assert_eq!(list.query(y, || 99), ChildQuery::Initialized(0));
    assert_eq!(*list.node(0), 20);
    assert_eq!(list.query(x, || 99), ChildQuery::Initialized(1));
    assert_eq!(*list.node(1), 10);
    list.retain_valid();
    assert_eq!(list.position(&x), Some(1));
    assert_eq!(list.position(&ComponentId::new_custom::<u32>(3)), None);
}

#[test]
fn lookup_or_insert_never_reorders() {
    let mut list: ChildList<&str> = ChildList::new();
    let w1 = ComponentId::new_custom::<u8>(1);
    let w2 = ComponentId::new_custom::<u8>(2);
    assert_eq!(list.lookup_or_insert(w1, || "first"), ChildQuery::Uninitialized(0));
    assert_eq!(list.lookup_or_insert(w2, || "second"), ChildQuery::Uninitialized(1));
    assert_eq!(list.lookup_or_insert(w1, || "again"), ChildQuery::Initialized(0));
    assert_eq!(list.len(), 2);
    assert_eq!(*list.node(0), "first");
}

#[test]
fn slot_keeps_or_replaces() {
    let mut slot: Slot<u32> = Slot::new();
    assert!(slot.get().is_none());
    let x = ComponentId::new_custom::<u32>(1);
    let y = ComponentId::new_custom::<u32>(2);
    assert_eq!(slot.query(x, || 1), ChildQuery::Uninitialized(0));
    assert_eq!(slot.query(x, || 2), ChildQuery::Initialized(0));
    assert_eq!(*slot.node(), 1);
    assert_eq!(slot.query(y, || 3), ChildQuery::Uninitialized(0));
    assert_eq!(slot.get(), Some(&3));
}

#[test]
fn padded_counter_counts_frames() {
    // a padding holds its content in a slot, queried with a fixed location
    let mut slot: Slot<FrameCounter> = Slot::new();
    let id = ComponentId::new::<FrameCounter>(CodeLocation("padding.rs", 1, 1));
    for i in 0..12u32 {
        let feedback = match slot.query(id, || FrameCounter::new().create()) {
            ChildQuery::Uninitialized(_) => 0,
            ChildQuery::Initialized(_) => i,
        };
        assert_eq!(feedback, i);
    }
}
