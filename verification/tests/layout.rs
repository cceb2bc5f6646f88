use pengui::layout::{LayoutStatus, Objective};

#[test]
fn layout_status_1() {
    assert_eq!(
        LayoutStatus::Satisfied,
        LayoutStatus::and(LayoutStatus::Satisfied, LayoutStatus::Satisfied)
    )
}

#[test]
fn layout_status_2() {
    assert_eq!(
        LayoutStatus::Inconsistencies,
        LayoutStatus::and(LayoutStatus::Inconsistencies, LayoutStatus::Inconsistencies)
    );
    assert_eq!(
        LayoutStatus::Inconsistencies,
        LayoutStatus::and(LayoutStatus::Satisfied, LayoutStatus::Inconsistencies)
    );
    assert_eq!(
        LayoutStatus::Inconsistencies,
        LayoutStatus::and(LayoutStatus::Inconsistencies, LayoutStatus::Satisfied)
    )
}

#[test]
fn layout_status_3() {
    assert_eq!(
        LayoutStatus::WontDisplay,
        LayoutStatus::and(LayoutStatus::WontDisplay, LayoutStatus::WontDisplay)
    );
    assert_eq!(
        LayoutStatus::WontDisplay,
        LayoutStatus::and(LayoutStatus::Inconsistencies, LayoutStatus::WontDisplay)
    );
    assert_eq!(
        LayoutStatus::WontDisplay,
        LayoutStatus::and(LayoutStatus::WontDisplay, LayoutStatus::Inconsistencies)
    );
    assert_eq!(
        LayoutStatus::WontDisplay,
        LayoutStatus::and(LayoutStatus::Satisfied, LayoutStatus::WontDisplay)
    );
    assert_eq!(
        LayoutStatus::WontDisplay,
        LayoutStatus::and(LayoutStatus::WontDisplay, LayoutStatus::Satisfied)
    );
}

const ALL: [LayoutStatus; 3] = [
    LayoutStatus::Satisfied,
    LayoutStatus::Inconsistencies,
    LayoutStatus::WontDisplay,
];

#[test]
fn layout_status_and_is_commutative() {
    for a in ALL {
        for b in ALL {
            assert_eq!(LayoutStatus::and(a, b), LayoutStatus::and(b, a));
        }
    }
}

#[test]
fn layout_status_and_is_associative() {
    for a in ALL {
        for b in ALL {
            for c in ALL {
                assert_eq!(
                    LayoutStatus::and(LayoutStatus::and(a, b), c),
                    LayoutStatus::and(a, LayoutStatus::and(b, c))
                );
            }
        }
    }
}

#[test]
fn layout_status_neutral_and_absorbing() {
    for a in ALL {
        assert_eq!(LayoutStatus::and(a, a), a);
        assert_eq!(LayoutStatus::and(LayoutStatus::Satisfied, a), a);
        assert_eq!(
            LayoutStatus::and(a, LayoutStatus::WontDisplay),
            LayoutStatus::WontDisplay
        );
    }
}

#[test]
fn objectives_compare() {
    assert_eq!(Objective::Maximize, Objective::Maximize);
    assert_ne!(Objective::Minimize, Objective::Unconstrained);
}
