use vstd::prelude::*;

verus! {

/// The global light mode that the `L` key cycles through.
#[derive(PartialEq, Eq, Structural, Debug, Clone, Copy)]
pub enum LightToggleState {
    /// Every table light is dark.
    Off,
    /// Every table light shines at its full intensity.
    On,
    /// Every table light shines at the state the table gives it.
    Default,
}

impl LightToggleState {
    /// The state that one press of the toggle key leads to.
    pub open spec fn next(self) -> LightToggleState {
        match self {
            LightToggleState::Off => LightToggleState::On,
            LightToggleState::On => LightToggleState::Default,
            LightToggleState::Default => LightToggleState::Off,
        }
    }

    /// Advances to the next state: Off, then On, then Default, then Off again.
    pub fn toggle(&mut self)
        ensures
            *final(self) == old(self).next(),
            *old(self) == LightToggleState::Off ==> *final(self) == LightToggleState::On,
            *old(self) == LightToggleState::On ==> *final(self) == LightToggleState::Default,
            *old(self) == LightToggleState::Default ==> *final(self) == LightToggleState::Off,
    {
        *self = match *self {
            LightToggleState::Off => LightToggleState::On,
            LightToggleState::On => LightToggleState::Default,
            LightToggleState::Default => LightToggleState::Off,
        };
    }

    /// How a table light's own intensity is scaled in this state.
    pub fn intensity_scale(&self) -> (scale: IntensityScale)
        ensures
            scale == self.scale(),
            *self == LightToggleState::Off ==> scale == IntensityScale::Zero,
            *self == LightToggleState::On ==> scale == IntensityScale::One,
            *self == LightToggleState::Default ==> scale == IntensityScale::DefaultState,
    {
        match self {
            LightToggleState::Off => IntensityScale::Zero,
            LightToggleState::On => IntensityScale::One,
            LightToggleState::Default => IntensityScale::DefaultState,
        }
    }

    /// The scale that a light's intensity is multiplied by in this state.
    pub open spec fn scale(self) -> IntensityScale {
        match self {
            LightToggleState::Off => IntensityScale::Zero,
            LightToggleState::On => IntensityScale::One,
            LightToggleState::Default => IntensityScale::DefaultState,
        }
    }
}

/// The factor that a table light's intensity is multiplied by.
#[derive(PartialEq, Eq, Structural, Debug, Clone, Copy)]
pub enum IntensityScale {
    /// Multiply by zero: the light is dark.
    Zero,
    /// Multiply by one: the light shines at its full intensity.
    One,
    /// Multiply by the light's own default state from the table.
    DefaultState,
}

/// The light mode that the viewer starts in.
pub fn setup_light_toggle_state() -> (state: LightToggleState)
    ensures
        state == LightToggleState::Default,
{
    LightToggleState::Default
}

/// Three presses of the light toggle key bring back the mode one started from,
/// and no fewer do: the three modes form a single cycle.
pub proof fn lemma_toggle_cycle(s: LightToggleState)
    ensures
        s.next().next().next() == s,
        s.next() != s,
        s.next().next() != s,
{
}

/// The order of the light modes: Off leads to On, On to Default, Default to Off; and
/// each mode's scale: Off darkens, On shines fully, Default uses the light's own state.
pub proof fn lemma_toggle_order()
    ensures
        LightToggleState::Off.next() == LightToggleState::On,
        LightToggleState::On.next() == LightToggleState::Default,
        LightToggleState::Default.next() == LightToggleState::Off,
        LightToggleState::Off.scale() == IntensityScale::Zero,
        LightToggleState::On.scale() == IntensityScale::One,
        LightToggleState::Default.scale() == IntensityScale::DefaultState,
{
}

/// Two modes that lead to the same mode were the same mode: no mode is lost by toggling.
pub proof fn lemma_toggle_injective(s: LightToggleState, t: LightToggleState)
    requires
        s.next() == t.next(),
    ensures
        s == t,
{
}

/// Each mode scales the lights differently: the scale tells the mode apart.
pub proof fn lemma_scale_distinguishes(s: LightToggleState, t: LightToggleState)
    requires
        s.scale() == t.scale(),
    ensures
        s == t,
{
}

/// Whether an entity is drawn, as the renderer distinguishes it.
#[derive(PartialEq, Eq, Structural, Debug, Clone, Copy)]
pub enum Visibility {
    /// Drawn when its parent is drawn.
    Inherited,
    /// Never drawn.
    Hidden,
    /// Always drawn.
    Visible,
}

/// The visibility of a table light: hidden only when the table says it is not visible;
/// a light that says nothing is visible.
pub fn visible_to_visibility(visible: Option<bool>) -> (v: Visibility)
    ensures
        v == (if visible == Some(false) { Visibility::Hidden } else { Visibility::Visible }),
{
    match visible {
        Some(true) => Visibility::Visible,
        Some(false) => Visibility::Hidden,
        None => Visibility::Visible,
    }
}

/// The visibility of a primitive from its visible flag.
pub fn visibility_of(is_visible: bool) -> (v: Visibility)
    ensures
        v == (if is_visible { Visibility::Visible } else { Visibility::Hidden }),
{
    match is_visible {
        true => Visibility::Visible,
        false => Visibility::Hidden,
    }
}

} // verus!
