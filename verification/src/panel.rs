//! What toggling a panel from a bar button does, given the panel of that
//! name that is already there, if any.

use vstd::prelude::*;

verus! {

/// A panel of the toggled name that is already there.
#[derive(Clone, Copy, Debug, PartialEq, Eq, Structural)]
pub struct OpenPanel {
    /// It sits where the button asks it to.
    pub same_align: bool,
    /// It is showing.
    pub open: bool,
}

/// What a toggle does.
#[derive(Clone, Copy, Debug, PartialEq, Eq, Structural)]
pub enum PanelAction {
    /// Close the panel that is showing.
    Close,
    /// Show the panel that is there again.
    Reopen,
    /// Close the panel that is elsewhere, then open a new one at the button.
    CloseAndOpenNew,
    /// Open a new panel at the button.
    OpenNew,
}

/// A toggle closes the panel showing at the button, shows the one hidden
/// there, and moves one that sits elsewhere to the button.
pub fn toggle_action(existing: Option<OpenPanel>) -> (r: PanelAction)
    ensures
        r == match existing {
            None => PanelAction::OpenNew,
            Some(p) => if !p.same_align {
                PanelAction::CloseAndOpenNew
            } else if p.open {
                PanelAction::Close
            } else {
                PanelAction::Reopen
            },
        },
{
    match existing {
        None => PanelAction::OpenNew,
        Some(p) => if !p.same_align {
            PanelAction::CloseAndOpenNew
        } else if p.open {
            PanelAction::Close
        } else {
            PanelAction::Reopen
        },
    }
}

/// The control panel.
pub struct ControlPanel;

impl ControlPanel {
    /// The name it is toggled by.
    pub fn name() -> (r: &'static str)
        ensures
            r@ == "control-panel"@,
    {
        proof {
            reveal_strlit("control-panel");
        }
        "control-panel"
    }
}

} // verus!
