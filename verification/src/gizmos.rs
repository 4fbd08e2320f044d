use vstd::prelude::*;

verus! {

/// Whether light gizmos are drawn after one press of the gizmo key.
pub open spec fn gizmos_after_press(draw_all: bool) -> bool {
    !draw_all
}

/// One press of the light gizmo key: whether light gizmos are drawn afterwards
/// (the opposite of before) and the word the change is reported with.
pub fn toggle_light_gizmos(draw_all: bool) -> (res: (bool, &'static str))
    ensures
        res.0 == gizmos_after_press(draw_all),
        res.0 == !draw_all,
        res.1@ == (if draw_all { "OFF"@ } else { "ON"@ }),
        res.1@ == (if res.0 { "ON"@ } else { "OFF"@ }),
{
    let now = !draw_all;
    (now, if now { "ON" } else { "OFF" })
}

/// Two presses of the gizmo key leave the gizmos as they were.
pub proof fn lemma_gizmo_toggle_involution(draw_all: bool)
    ensures
        gizmos_after_press(gizmos_after_press(draw_all)) == draw_all,
        gizmos_after_press(draw_all) != draw_all,
{
}

} // verus!
