use vstd::prelude::*;

verus! {

/// How much the picking debug overlay shows.
#[derive(PartialEq, Eq, Structural, Debug, Clone, Copy)]
pub enum DebugPickingMode {
    /// No overlay.
    Disabled,
    /// The overlay with the usual detail.
    Normal,
    /// The overlay with every event logged.
    Noisy,
}

impl DebugPickingMode {
    /// The mode that one press of the debug key leads to.
    pub open spec fn successor(self) -> DebugPickingMode {
        match self {
            DebugPickingMode::Disabled => DebugPickingMode::Normal,
            DebugPickingMode::Normal => DebugPickingMode::Noisy,
            DebugPickingMode::Noisy => DebugPickingMode::Disabled,
        }
    }
}

/// The mode after the debug key was pressed: Disabled, then Normal, then Noisy,
/// then Disabled again.
pub fn next_debug_picking_mode(mode: DebugPickingMode) -> (next: DebugPickingMode)
    ensures
        next == mode.successor(),
        mode == DebugPickingMode::Disabled ==> next == DebugPickingMode::Normal,
        mode == DebugPickingMode::Normal ==> next == DebugPickingMode::Noisy,
        mode == DebugPickingMode::Noisy ==> next == DebugPickingMode::Disabled,
{
    match mode {
        DebugPickingMode::Disabled => DebugPickingMode::Normal,
        DebugPickingMode::Normal => DebugPickingMode::Noisy,
        DebugPickingMode::Noisy => DebugPickingMode::Disabled,
    }
}

/// The order of the debug modes: Disabled leads to Normal, Normal to Noisy, Noisy to
/// Disabled.
pub proof fn lemma_debug_mode_order()
    ensures
        DebugPickingMode::Disabled.successor() == DebugPickingMode::Normal,
        DebugPickingMode::Normal.successor() == DebugPickingMode::Noisy,
        DebugPickingMode::Noisy.successor() == DebugPickingMode::Disabled,
{
}

/// Three presses of the debug key bring back the mode one started from, and no
/// fewer do.
pub proof fn lemma_debug_mode_cycle(m: DebugPickingMode)
    ensures
        m.successor().successor().successor() == m,
        m.successor() != m,
        m.successor().successor() != m,
{
}

/// The line logged when an entity is clicked: its name and id when it has a name,
/// its id alone otherwise.
pub fn click_message(name: Option<&str>, entity: &str) -> (msg: String)
    ensures
        msg@ == (match name {
            Some(n) => n@ + " ("@ + entity@ + ") was clicked!"@,
            None => "Entity "@ + entity@ + " was clicked!"@,
        }),
{
    match name {
        Some(n) => {
            let mut msg = n.to_owned();
            msg.append(" (");
            msg.append(entity);
            msg.append(") was clicked!");
            msg
        },
        None => {
            let mut msg = "Entity ".to_owned();
            msg.append(entity);
            msg.append(" was clicked!");
            msg
        },
    }
}

} // verus!
