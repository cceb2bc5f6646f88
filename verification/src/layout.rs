use vstd::prelude::*;

verus! {

/// Define an objective for the layout on a specific coordinate.
/// - If `Maximize` is indicated on a dimension, then the widget should
///   maximize the space it takes along it.
/// - If `Minimize` is indicated on a dimension, then the widget should
///   minimize the space it takes along it.
/// - If `Unconstrained` is indicated on a dimension, then the widget has no
///   constraint along that dimension.
#[derive(Copy, Clone, Debug, PartialEq, Eq, Structural)]
pub enum Objective {
    Maximize,
    Minimize,
    Unconstrained,
}

/// The status of the layout along a dimension.
/// It allows to indicate to the parent if the constraint or the space given
/// on a dimension were good, insufficient or impossible to satisfy.
#[derive(Copy, Clone, Debug, PartialEq, Eq, Structural)]
pub enum LayoutStatus {
    Satisfied,
    Inconsistencies,
    WontDisplay,
}

/// The severity of a status: `Satisfied` < `Inconsistencies` < `WontDisplay`.
pub open spec fn severity(s: LayoutStatus) -> nat {
    match s {
        LayoutStatus::Satisfied => 0,
        LayoutStatus::Inconsistencies => 1,
        LayoutStatus::WontDisplay => 2,
    }
}

/// The combination of two statuses: the more severe of the two.
pub open spec fn combined(s1: LayoutStatus, s2: LayoutStatus) -> LayoutStatus {
    if severity(s1) >= severity(s2) { s1 } else { s2 }
}

impl LayoutStatus {
    /// Combines the statuses of two dimensions or of two children:
    /// the result is the most severe of the two.
    pub fn and(status1: LayoutStatus, status2: LayoutStatus) -> (r: LayoutStatus)
        ensures
            r == combined(status1, status2),
    {
        match (status1, status2) {
            (LayoutStatus::Satisfied, LayoutStatus::Satisfied) => LayoutStatus::Satisfied,
            (LayoutStatus::WontDisplay, _) | (_, LayoutStatus::WontDisplay) => {
                LayoutStatus::WontDisplay
            },
            (LayoutStatus::Inconsistencies, _) | (_, LayoutStatus::Inconsistencies) => {
                LayoutStatus::Inconsistencies
            },
        }
    }
}

/// Combining statuses does not depend on their order.
pub proof fn lemma_and_commutative(a: LayoutStatus, b: LayoutStatus)
    ensures
        combined(a, b) == combined(b, a),
{
}

/// Combining three statuses does not depend on how they are grouped, so a
/// container may fold the statuses of its children in any grouping.
pub proof fn lemma_and_associative(a: LayoutStatus, b: LayoutStatus, c: LayoutStatus)
    ensures
        combined(combined(a, b), c) == combined(a, combined(b, c)),
{
}

/// Combining a status with itself gives it back.
pub proof fn lemma_and_idempotent(a: LayoutStatus)
    ensures
        combined(a, a) == a,
{
}

/// `Satisfied` is neutral: it never hides a problem reported by the other status.
pub proof fn lemma_satisfied_is_neutral(a: LayoutStatus)
    ensures
        combined(LayoutStatus::Satisfied, a) == a,
        combined(a, LayoutStatus::Satisfied) == a,
{
}

/// `WontDisplay` absorbs every other status.
pub proof fn lemma_wont_display_absorbs(a: LayoutStatus)
    ensures
        combined(LayoutStatus::WontDisplay, a) == LayoutStatus::WontDisplay,
        combined(a, LayoutStatus::WontDisplay) == LayoutStatus::WontDisplay,
{
}

/// The combination is never less severe than either of its operands, and it
/// is one of them.
pub proof fn lemma_and_is_upper_bound(a: LayoutStatus, b: LayoutStatus)
    ensures
        severity(combined(a, b)) >= severity(a),
        severity(combined(a, b)) >= severity(b),
        combined(a, b) == a || combined(a, b) == b,
{
}

} // verus!
