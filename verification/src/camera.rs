use vstd::prelude::*;

verus! {

/// The arrow and WASD keys that steer the camera, each held or not.
#[derive(PartialEq, Eq, Structural, Debug, Clone, Copy)]
pub struct SteeringKeys {
    /// ArrowUp or W: away from the player, towards -Z.
    pub forward: bool,
    /// ArrowDown or S: towards the player, towards +Z.
    pub backward: bool,
    /// ArrowRight or D: towards +X.
    pub right: bool,
    /// ArrowLeft or A: towards -X.
    pub left: bool,
}

/// A step on the grid of the table plane: -1, 0 or 1 along X and along Z.
#[derive(PartialEq, Eq, Structural, Debug, Clone, Copy)]
pub struct PlanarStep {
    /// The step along X (right is positive).
    pub x: i8,
    /// The step along Z (towards the player is positive).
    pub z: i8,
}

/// 1 when the key is held, 0 when it is not.
pub open spec fn held(key: bool) -> int {
    if key { 1 } else { 0 }
}

/// The sum of the unit moves of the held keys, before normalising:
/// forward is (0, -1), backward (0, 1), right (1, 0) and left (-1, 0).
pub open spec fn spec_step(keys: SteeringKeys) -> (int, int) {
    (held(keys.right) - held(keys.left), held(keys.backward) - held(keys.forward))
}

/// The direction the camera moves in for the held keys, or `None` when the held
/// keys cancel out or none is held, in which case the camera stays where it is.
pub fn movement_direction(keys: SteeringKeys) -> (step: Option<PlanarStep>)
    ensures
        step matches Some(s) ==> (s.x as int, s.z as int) == spec_step(keys)
            && (s.x != 0 || s.z != 0),
        step is None <==> spec_step(keys) == (0int, 0int),
        step matches Some(s) ==> s.x as int == (if keys.right { 1int } else { 0int }) - (if keys.left {
            1int
        } else {
            0int
        }),
        step matches Some(s) ==> s.z as int == (if keys.backward { 1int } else { 0int }) - (
        if keys.forward {
            1int
        } else {
            0int
        }),
        step is None <==> (keys.right == keys.left && keys.backward == keys.forward),
{
    let mut x: i8 = 0;
    let mut z: i8 = 0;
    if keys.forward {
        z = z - 1;
    }
    if keys.backward {
        z = z + 1;
    }
    if keys.right {
        x = x + 1;
    }
    if keys.left {
        x = x - 1;
    }
    if x == 0 && z == 0 {
        None
    } else {
        Some(PlanarStep { x, z })
    }
}

/// Holding both keys of a pair is the same as holding neither: opposite keys cancel.
pub proof fn lemma_opposite_keys_cancel(keys: SteeringKeys)
    ensures
        keys.forward && keys.backward ==> spec_step(keys) == spec_step(
            (SteeringKeys { forward: false, backward: false, ..keys }),
        ),
        keys.right && keys.left ==> spec_step(keys) == spec_step(
            (SteeringKeys { right: false, left: false, ..keys }),
        ),
{
}

/// Swapping every key with its opposite reverses the direction of travel.
pub proof fn lemma_mirrored_keys_reverse(keys: SteeringKeys)
    ensures
        spec_step(
            (SteeringKeys {
                forward: keys.backward,
                backward: keys.forward,
                right: keys.left,
                left: keys.right,
            }),
        ) == (-spec_step(keys).0, -spec_step(keys).1),
{
}

/// Each component of the step is -1, 0 or 1.
pub proof fn lemma_step_is_unit(keys: SteeringKeys)
    ensures
        -1 <= spec_step(keys).0 <= 1,
        -1 <= spec_step(keys).1 <= 1,
{
}

/// Each held key contributes its own unit move: the sideways component of the step
/// is the right key minus the left key, whatever the forward and backward keys are,
/// and the depth component is the backward key minus the forward key, whatever the
/// sideways keys are. So a forward key with a left key moves diagonally, to (-1, -1).
pub proof fn lemma_keys_contribute_independently(keys: SteeringKeys)
    ensures
        spec_step(keys).0 == (if keys.right { 1int } else { 0int }) - (if keys.left {
            1int
        } else {
            0int
        }),
        spec_step(keys).1 == (if keys.backward { 1int } else { 0int }) - (if keys.forward {
            1int
        } else {
            0int
        }),
        keys.forward && keys.left && !keys.backward && !keys.right ==> spec_step(keys) == (
        -1int,
        -1int,
        ),
        keys.backward && keys.right && !keys.forward && !keys.left ==> spec_step(keys) == (
        1int,
        1int,
        ),
{
}

} // verus!
