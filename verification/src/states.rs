//! The open/closed states of the popup windows and the other small state
//! machines of the interface.
use vstd::prelude::*;

use std::marker::PhantomData;

verus! {

/// Whether a popup window of kind `T` is shown.
pub enum PopupState<T> {
    Closed,
    Open,
    /// Carries the window kind; never a state of a window.
    _Marker(PhantomData<T>),
}

impl<T> Default for PopupState<T> {
    /// Closed.
    fn default() -> (res: Self)
        ensures
            res is Closed,
    {
        PopupState::Closed
    }
}

impl<T> PopupState<T> {
    /// Whether the window is shown.
    pub fn is_open(&self) -> (res: bool)
        ensures
            res == (self is Open),
    {
        match self {
            PopupState::Open => true,
            _ => false,
        }
    }

    /// The state after a toggle: open becomes closed and closed becomes open.
    pub fn get_next(&self) -> (res: Self)
        requires
            !(self is _Marker),
        ensures
            res == popup_next(*self),
    {
        match self {
            PopupState::Open => PopupState::Closed,
            PopupState::Closed => PopupState::Open,
            PopupState::_Marker(_) => PopupState::Closed,
        }
    }
}

/// The state of a popup after a toggle.
pub open spec fn popup_next<T>(s: PopupState<T>) -> PopupState<T> {
    match s {
        PopupState::Open => PopupState::Closed,
        PopupState::Closed => PopupState::Open,
        PopupState::_Marker(m) => PopupState::_Marker(m),
    }
}

/// Toggling a popup flips whether it is shown, and toggling it twice brings
/// it back.
pub proof fn law_popup_toggle_flips<T>(s: PopupState<T>)
    requires
        !(s is _Marker),
    ensures
        (popup_next(s) is Open) == !(s is Open),
        popup_next(popup_next(s)) == s,
{
}

/// The kind of the particle editor window.
#[derive(PartialEq, Eq, Structural, Clone, Copy, Debug, Hash)]
pub enum ParticleEditorWindowState {
    Closed,
    Open,
}

impl Default for ParticleEditorWindowState {
    /// Closed.
    fn default() -> (res: Self)
        ensures
            res == ParticleEditorWindowState::Closed,
    {
        ParticleEditorWindowState::Closed
    }
}

/// The kind of the window for loading particle definitions.
#[derive(PartialEq, Eq, Structural, Clone, Copy, Debug, Hash)]
pub enum LoadParticlesWindowState {
    Closed,
    Open,
}

impl Default for LoadParticlesWindowState {
    /// Closed.
    fn default() -> (res: Self)
        ensures
            res == LoadParticlesWindowState::Closed,
    {
        LoadParticlesWindowState::Closed
    }
}

/// The kind of the tool options window.
#[derive(PartialEq, Eq, Structural, Clone, Copy, Debug, Hash)]
pub enum ToolOptionsWindowState {
    Closed,
    Open,
}

impl Default for ToolOptionsWindowState {
    /// Closed.
    fn default() -> (res: Self)
        ensures
            res == ToolOptionsWindowState::Closed,
    {
        ToolOptionsWindowState::Closed
    }
}

/// Whether choosing a particle in the editor also selects it for the brush.
#[derive(PartialEq, Eq, Structural, Clone, Copy, Debug, Hash)]
pub enum SynchronizeBrushState {
    Enabled,
    Disabled,
}

impl Default for SynchronizeBrushState {
    /// Choosing a particle also selects it for the brush.
    fn default() -> (res: Self)
        ensures
            res == SynchronizeBrushState::Enabled,
    {
        SynchronizeBrushState::Enabled
    }
}

impl SynchronizeBrushState {
    /// The state shown by the "Link to brush" switch in position `on`.
    pub fn from_switch(on: bool) -> (res: Self)
        ensures
            (res == SynchronizeBrushState::Enabled) == on,
    {
        if on {
            SynchronizeBrushState::Enabled
        } else {
            SynchronizeBrushState::Disabled
        }
    }

    /// Whether the "Link to brush" switch is on.
    pub fn is_on(&self) -> (res: bool)
        ensures
            res == (*self == SynchronizeBrushState::Enabled),
    {
        match self {
            SynchronizeBrushState::Enabled => true,
            SynchronizeBrushState::Disabled => false,
        }
    }
}

/// Whether the settings window is shown.
#[derive(PartialEq, Eq, Structural, Clone, Copy, Debug, Hash)]
pub enum SettingsApplicationState {
    Closed,
    Open,
}

impl Default for SettingsApplicationState {
    /// Closed.
    fn default() -> (res: Self)
        ensures
            res == SettingsApplicationState::Closed,
    {
        SettingsApplicationState::Closed
    }
}

impl SettingsApplicationState {
    /// The state after the settings window is toggled.
    pub fn toggled(&self) -> (res: Self)
        ensures
            res != *self,
    {
        match self {
            SettingsApplicationState::Open => SettingsApplicationState::Closed,
            SettingsApplicationState::Closed => SettingsApplicationState::Open,
        }
    }
}

/// The page shown in the settings window.
#[derive(PartialEq, Eq, Structural, Clone, Copy, Debug, Hash)]
pub enum SettingsCategory {
    Brush,
    Debug,
    Keybinds,
}

impl Default for SettingsCategory {
    /// The brush page.
    fn default() -> (res: Self)
        ensures
            res == SettingsCategory::Brush,
    {
        SettingsCategory::Brush
    }
}

/// Whether the keybinds page is waiting for a key to bind.
#[derive(PartialEq, Eq, Structural, Clone, Copy, Debug, Hash)]
pub enum KeybindsListeningState {
    Deafened,
    Listening,
}

impl Default for KeybindsListeningState {
    /// Not listening.
    fn default() -> (res: Self)
        ensures
            res == KeybindsListeningState::Deafened,
    {
        KeybindsListeningState::Deafened
    }
}

/// The binding for which the keybinds page waits for a key.
pub struct ListeningForKeybind {
    pub binding_id: &'static str,
}

/// The groups of interface systems, in the order in which they run.
#[derive(PartialEq, Eq, Structural, Clone, Copy, Debug, Hash)]
pub enum UiSystems {
    ActionPanel,
    Console,
    ParticleEditor,
    Settings,
    CursorInfoOverlay,
}

/// The actions of the console's key bindings.
#[derive(PartialEq, Eq, Structural, Clone, Copy, Debug, Hash)]
pub enum ConsoleAction {
    ToggleInformationArea,
    SubmitInputText,
}

/// The state of the particle editor window after one of the action panel's
/// buttons was clicked while it was `editor`: both the particle editor
/// button and the settings button toggle the particle editor.
pub fn action_panel_editor_after_click(editor: ParticleEditorWindowState) -> (res:
    ParticleEditorWindowState)
    ensures
        res != editor,
{
    match editor {
        ParticleEditorWindowState::Closed => ParticleEditorWindowState::Open,
        ParticleEditorWindowState::Open => ParticleEditorWindowState::Closed,
    }
}

} // verus!
