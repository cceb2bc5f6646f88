use std::collections::hash_map::DefaultHasher;
use std::hash::{Hash, Hasher};

use pengui::component_id::{CodeLocation, ComponentId};
use pengui::frame_counter::FrameCounter;

struct OtherWidget;

#[test]
fn component_id_is_deterministic() {
    let a = ComponentId::new::<FrameCounter>(CodeLocation("src/ui.rs", 10, 4));
    let b = ComponentId::new::<FrameCounter>(CodeLocation("src/ui.rs", 10, 4));
    assert!(a == b);
}

#[test]
fn component_id_depends_on_location() {
    let a = ComponentId::new::<FrameCounter>(CodeLocation("src/ui.rs", 10, 4));
    let b = ComponentId::new::<FrameCounter>(CodeLocation("src/ui.rs", 11, 4));
    let c = ComponentId::new::<FrameCounter>(CodeLocation("src/ui.rs", 10, 5));
    let d = ComponentId::new::<FrameCounter>(CodeLocation("src/other.rs", 10, 4));
    assert!(a != b);
    assert!(a != c);
    assert!(a != d);
}

#[test]
fn component_id_depends_on_type() {
    let a = ComponentId::new::<FrameCounter>(CodeLocation("src/ui.rs", 10, 4));
    let b = ComponentId::new::<OtherWidget>(CodeLocation("src/ui.rs", 10, 4));
    assert!(a != b);
    assert!(ComponentId::new_custom::<FrameCounter>(3) != ComponentId::new_custom::<OtherWidget>(3));
}

#[test]
fn component_id_biased() {
    let loc = CodeLocation("src/ui.rs", 10, 4);
    let a = ComponentId::new_biased::<FrameCounter>(loc, 1);
    let b = ComponentId::new_biased::<FrameCounter>(loc, 1);
    let c = ComponentId::new_biased::<FrameCounter>(loc, 2);
    assert!(a == b);
    assert!(a != c);
    assert!(a != ComponentId::new::<FrameCounter>(loc));
}

#[test]
fn component_id_custom() {
    let a = ComponentId::new_custom::<FrameCounter>(7);
    assert!(a == ComponentId::new_custom::<FrameCounter>(7));
    assert!(a != ComponentId::new_custom::<FrameCounter>(8));
    match a {
        ComponentId::Custom(n, _) => assert_eq!(n, 7),
        ComponentId::Generated(..) => panic!("a custom identifier is expected"),
    }
    match ComponentId::new::<FrameCounter>(CodeLocation("f", 1, 1)) {
        ComponentId::Generated(..) => {}
        ComponentId::Custom(..) => panic!("a generated identifier is expected"),
    }
}

#[test]
fn component_id_hash_is_the_default_hasher_one() {
    let loc = CodeLocation("src/ui.rs", 3, 9);
    let mut hasher = DefaultHasher::new();
    loc.hash(&mut hasher);
    let expected = hasher.finish();
    match ComponentId::new::<FrameCounter>(loc) {
        ComponentId::Generated(n, _) => assert_eq!(n, expected),
        ComponentId::Custom(..) => panic!("a generated identifier is expected"),
    }
    let mut hasher = DefaultHasher::new();
    loc.hash(&mut hasher);
    42u64.hash(&mut hasher);
    let expected = hasher.finish();
    match ComponentId::new_biased::<FrameCounter>(loc, 42) {
        ComponentId::Generated(n, _) => assert_eq!(n, expected),
        ComponentId::Custom(..) => panic!("a generated identifier is expected"),
    }
}
