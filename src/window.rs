//! The overlay window's fixed configuration, the start-up decision, and the
//! click-through request that the window's content sends.

use vstd::prelude::*;

verus! {

/// Label under which the application looks up, and creates, its overlay window.
pub const OVERLAY_LABEL: &'static str = "psicolmeia-main";

/// The attributes a window is given when it is built. None of them changes
/// after construction.
#[derive(Clone, Copy, Debug, PartialEq, Eq, Structural)]
pub struct WindowAttributes {
    pub transparent: bool,
    pub decorated: bool,
    pub always_on_top: bool,
    pub resizable: bool,
    pub visible: bool,
}

/// Transparent, undecorated, always on top, not resizable, visible.
pub open spec fn overlay_attributes_spec() -> WindowAttributes {
    WindowAttributes {
        transparent: true,
        decorated: false,
        always_on_top: true,
        resizable: false,
        visible: true,
    }
}

/// The attributes the overlay window is built with.
pub fn overlay_attributes() -> (r: WindowAttributes)
    ensures
        r == overlay_attributes_spec(),
{
    WindowAttributes {
        transparent: true,
        decorated: false,
        always_on_top: true,
        resizable: false,
        visible: true,
    }
}

/// What start-up does about the overlay window.
#[derive(Clone, Copy, Debug, PartialEq, Eq, Structural)]
pub enum LifecycleAction {
    /// A window with the label is already there: leave it exactly as it is.
    Keep,
    /// No such window yet: build one with these attributes.
    Create(WindowAttributes),
}

/// Start-up decision, given whether the host already has a window under the
/// overlay label.
pub fn plan_window(existing: bool) -> (r: LifecycleAction)
    ensures
        existing ==> r == LifecycleAction::Keep,
        !existing ==> r == LifecycleAction::Create(overlay_attributes_spec()),
{
    if existing {
        LifecycleAction::Keep
    } else {
        LifecycleAction::Create(overlay_attributes())
    }
}

/// Body of the click-through command: the requested value of the window's
/// "ignores cursor events" flag.
#[derive(Clone, Copy, Debug, PartialEq, Eq, Structural)]
pub struct IgnorePayload {
    pub ignore: bool,
}

/// Whether a window takes pointer input or lets it fall through to what lies
/// beneath.
#[derive(Clone, Copy, Debug, PartialEq, Eq, Structural)]
pub enum PointerMode {
    Capturing,
    Passthrough,
}

pub open spec fn pointer_mode_of(ignores_cursor_events: bool) -> PointerMode {
    if ignores_cursor_events {
        PointerMode::Passthrough
    } else {
        PointerMode::Capturing
    }
}

/// A window as the library keeps it: its label, the attributes it was built
/// with, and the one flag that changes at run time.
#[derive(Debug)]
pub struct Window {
    pub identifier: String,
    pub attributes: WindowAttributes,
    pub ignores_cursor_events: bool,
}

/// Mathematical model of a [`Window`].
pub struct WindowView {
    pub identifier: Seq<char>,
    pub attributes: WindowAttributes,
    pub ignores_cursor_events: bool,
}

impl View for Window {
    type V = WindowView;

    open spec fn view(&self) -> WindowView {
        WindowView {
            identifier: self.identifier@,
            attributes: self.attributes,
            ignores_cursor_events: self.ignores_cursor_events,
        }
    }
}

impl Window {
    /// The pointer mode this window is in.
    pub fn pointer_mode(&self) -> (r: PointerMode)
        ensures
            r == pointer_mode_of(self.ignores_cursor_events),
    {
        if self.ignores_cursor_events {
            PointerMode::Passthrough
        } else {
            PointerMode::Capturing
        }
    }
}

} // verus!
