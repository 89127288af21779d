//! Rebinding keys from the settings window: which binding an identifier
//! names, which input map it belongs to, and what one frame of listening
//! for a new key decides.
use vstd::prelude::*;

use crate::text::{starts_with, str_eq};

verus! {

/// A key binding that can be changed from the settings window.
#[derive(PartialEq, Eq, Structural, Clone, Copy, Debug)]
pub enum KeybindSlot {
    CameraPanUp,
    CameraPanDown,
    CameraPanLeft,
    CameraPanRight,
    BrushDraw,
    BrushToggleMode,
    QuickActionsToggleUi,
    QuickActionsToggleMapOverlay,
    QuickActionsToggleDirtyChunks,
    QuickActionsToggleSimulationRun,
    QuickActionsToggleSimulationStep,
    QuickActionsSampleHoveredParticle,
    ConsoleToggleInformationArea,
    GeneralHoldCanvasModeEdit,
}

/// The input map that a binding belongs to, rebuilt after it changes.
#[derive(PartialEq, Eq, Structural, Clone, Copy, Debug)]
pub enum KeybindGroup {
    Camera,
    Brush,
    QuickActions,
    Console,
    General,
}

/// A keyboard key or a mouse button.
#[derive(PartialEq, Eq, Clone, Copy, Debug)]
pub enum InputButton<K, M> {
    Key(K),
    Mouse(M),
}

/// The identifier under which the settings window listens for a binding.
pub open spec fn slot_id(s: KeybindSlot) -> Seq<char> {
    match s {
        KeybindSlot::CameraPanUp => "camera.pan_up"@,
        KeybindSlot::CameraPanDown => "camera.pan_down"@,
        KeybindSlot::CameraPanLeft => "camera.pan_left"@,
        KeybindSlot::CameraPanRight => "camera.pan_right"@,
        KeybindSlot::BrushDraw => "brush.draw"@,
        KeybindSlot::BrushToggleMode => "brush.toggle_mode"@,
        KeybindSlot::QuickActionsToggleUi => "quick_actions.toggle_ui"@,
        KeybindSlot::QuickActionsToggleMapOverlay => "quick_actions.toggle_map_overlay"@,
        KeybindSlot::QuickActionsToggleDirtyChunks => "quick_actions.toggle_dirty_chunks"@,
        KeybindSlot::QuickActionsToggleSimulationRun => "quick_actions.toggle_simulation_run"@,
        KeybindSlot::QuickActionsToggleSimulationStep => "quick_actions.toggle_simulation_step"@,
        KeybindSlot::QuickActionsSampleHoveredParticle => "quick_actions.sample_hovered_particle"@,
        KeybindSlot::ConsoleToggleInformationArea => "console.toggle_information_area"@,
        KeybindSlot::GeneralHoldCanvasModeEdit => "general.hold_canvas_mode_edit"@,
    }
}

/// The input map of a binding.
pub open spec fn slot_group(s: KeybindSlot) -> KeybindGroup {
    match s {
        KeybindSlot::CameraPanUp | KeybindSlot::CameraPanDown | KeybindSlot::CameraPanLeft
        | KeybindSlot::CameraPanRight => KeybindGroup::Camera,
        KeybindSlot::BrushDraw | KeybindSlot::BrushToggleMode => KeybindGroup::Brush,
        KeybindSlot::ConsoleToggleInformationArea => KeybindGroup::Console,
        KeybindSlot::GeneralHoldCanvasModeEdit => KeybindGroup::General,
        _ => KeybindGroup::QuickActions,
    }
}

/// The binding named by an identifier, if any.
pub open spec fn slot_named(id: Seq<char>) -> Option<KeybindSlot> {
    if id == slot_id(KeybindSlot::CameraPanUp) {
        Some(KeybindSlot::CameraPanUp)
    } else if id == slot_id(KeybindSlot::CameraPanDown) {
        Some(KeybindSlot::CameraPanDown)
    } else if id == slot_id(KeybindSlot::CameraPanLeft) {
        Some(KeybindSlot::CameraPanLeft)
    } else if id == slot_id(KeybindSlot::CameraPanRight) {
        Some(KeybindSlot::CameraPanRight)
    } else if id == slot_id(KeybindSlot::BrushDraw) {
        Some(KeybindSlot::BrushDraw)
    } else if id == slot_id(KeybindSlot::BrushToggleMode) {
        Some(KeybindSlot::BrushToggleMode)
    } else if id == slot_id(KeybindSlot::QuickActionsToggleUi) {
        Some(KeybindSlot::QuickActionsToggleUi)
    } else if id == slot_id(KeybindSlot::QuickActionsToggleMapOverlay) {
        Some(KeybindSlot::QuickActionsToggleMapOverlay)
    } else if id == slot_id(KeybindSlot::QuickActionsToggleDirtyChunks) {
        Some(KeybindSlot::QuickActionsToggleDirtyChunks)
    } else if id == slot_id(KeybindSlot::QuickActionsToggleSimulationRun) {
        Some(KeybindSlot::QuickActionsToggleSimulationRun)
    } else if id == slot_id(KeybindSlot::QuickActionsToggleSimulationStep) {
        Some(KeybindSlot::QuickActionsToggleSimulationStep)
    } else if id == slot_id(KeybindSlot::QuickActionsSampleHoveredParticle) {
        Some(KeybindSlot::QuickActionsSampleHoveredParticle)
    } else if id == slot_id(KeybindSlot::ConsoleToggleInformationArea) {
        Some(KeybindSlot::ConsoleToggleInformationArea)
    } else if id == slot_id(KeybindSlot::GeneralHoldCanvasModeEdit) {
        Some(KeybindSlot::GeneralHoldCanvasModeEdit)
    } else {
        None
    }
}

/// The input map whose identifier prefix `id` carries, if any.
pub open spec fn group_named(id: Seq<char>) -> Option<KeybindGroup> {
    if "camera."@.is_prefix_of(id) {
        Some(KeybindGroup::Camera)
    } else if "brush."@.is_prefix_of(id) {
        Some(KeybindGroup::Brush)
    } else if "quick_actions."@.is_prefix_of(id) {
        Some(KeybindGroup::QuickActions)
    } else if "console."@.is_prefix_of(id) {
        Some(KeybindGroup::Console)
    } else if "general."@.is_prefix_of(id) {
        Some(KeybindGroup::General)
    } else {
        None
    }
}

/// The binding that an identifier names.
pub fn binding_slot(id: &str) -> (res: Option<KeybindSlot>)
    ensures
        res == slot_named(id@),
{
    if str_eq(id, "camera.pan_up") {
        Some(KeybindSlot::CameraPanUp)
    } else if str_eq(id, "camera.pan_down") {
        Some(KeybindSlot::CameraPanDown)
    } else if str_eq(id, "camera.pan_left") {
        Some(KeybindSlot::CameraPanLeft)
    } else if str_eq(id, "camera.pan_right") {
        Some(KeybindSlot::CameraPanRight)
    } else if str_eq(id, "brush.draw") {
        Some(KeybindSlot::BrushDraw)
    } else if str_eq(id, "brush.toggle_mode") {
        Some(KeybindSlot::BrushToggleMode)
    } else if str_eq(id, "quick_actions.toggle_ui") {
        Some(KeybindSlot::QuickActionsToggleUi)
    } else if str_eq(id, "quick_actions.toggle_map_overlay") {
        Some(KeybindSlot::QuickActionsToggleMapOverlay)
    } else if str_eq(id, "quick_actions.toggle_dirty_chunks") {
        Some(KeybindSlot::QuickActionsToggleDirtyChunks)
    } else if str_eq(id, "quick_actions.toggle_simulation_run") {
        Some(KeybindSlot::QuickActionsToggleSimulationRun)
    } else if str_eq(id, "quick_actions.toggle_simulation_step") {
        Some(KeybindSlot::QuickActionsToggleSimulationStep)
    } else if str_eq(id, "quick_actions.sample_hovered_particle") {
        Some(KeybindSlot::QuickActionsSampleHoveredParticle)
    } else if str_eq(id, "console.toggle_information_area") {
        Some(KeybindSlot::ConsoleToggleInformationArea)
    } else if str_eq(id, "general.hold_canvas_mode_edit") {
        Some(KeybindSlot::GeneralHoldCanvasModeEdit)
    } else {
        None
    }
}

/// The input map that must be rebuilt after the binding `id` changed.
pub fn binding_group(id: &str) -> (res: Option<KeybindGroup>)
    ensures
        res == group_named(id@),
{
    if starts_with(id, "camera.") {
        Some(KeybindGroup::Camera)
    } else if starts_with(id, "brush.") {
        Some(KeybindGroup::Brush)
    } else if starts_with(id, "quick_actions.") {
        Some(KeybindGroup::QuickActions)
    } else if starts_with(id, "console.") {
        Some(KeybindGroup::Console)
    } else if starts_with(id, "general.") {
        Some(KeybindGroup::General)
    } else {
        None
    }
}

/// What one frame of listening for a new binding decides.
#[derive(PartialEq, Eq, Clone, Copy, Debug)]
pub enum KeybindListenOutcome<K, M> {
    /// Escape was pressed: listening stops and nothing changes.
    Cancelled,
    /// Nothing was pressed: keep listening.
    Waiting,
    /// `button` becomes the binding of `slot` (when the identifier names
    /// one), the input map of `group` (when it names one) is rebuilt, and
    /// listening stops.
    Bound { button: InputButton<K, M>, slot: Option<KeybindSlot>, group: Option<KeybindGroup> },
}

/// One frame of listening for the binding `binding_id`: Escape cancels;
/// otherwise the first key pressed this frame, or else the first mouse
/// button, becomes the new binding.
pub fn listen_for_keybind<K, M>(
    binding_id: &str,
    escape_pressed: bool,
    first_key: Option<K>,
    first_mouse_button: Option<M>,
) -> (res: KeybindListenOutcome<K, M>)
    ensures
        escape_pressed ==> res is Cancelled,
        !escape_pressed && first_key is None && first_mouse_button is None ==> res is Waiting,
        !escape_pressed && (first_key is Some || first_mouse_button is Some) ==> (
        res matches KeybindListenOutcome::Bound { button, slot, group } && slot == slot_named(
            binding_id@,
        ) && group == group_named(binding_id@) && button == (match first_key {
            Some(k) => InputButton::<K, M>::Key(k),
            None => InputButton::<K, M>::Mouse(first_mouse_button->0),
        })),
{
    if escape_pressed {
        return KeybindListenOutcome::Cancelled;
    }
    let button = match first_key {
        Some(k) => InputButton::Key(k),
        None => match first_mouse_button {
            Some(m) => InputButton::Mouse(m),
            None => {
                return KeybindListenOutcome::Waiting;
            },
        },
    };
    KeybindListenOutcome::Bound {
        button,
        slot: binding_slot(binding_id),
        group: binding_group(binding_id),
    }
}

/// Each binding's identifier names that binding and is routed to the input
/// map the binding belongs to.
pub proof fn law_binding_ids_route_to_their_slot(s: KeybindSlot)
    ensures
        slot_named(slot_id(s)) == Some(s),
        group_named(slot_id(s)) == Some(slot_group(s)),
{
    reveal_strlit("camera.pan_up");
    reveal_strlit("camera.pan_down");
    reveal_strlit("camera.pan_left");
    reveal_strlit("camera.pan_right");
    reveal_strlit("brush.draw");
    reveal_strlit("brush.toggle_mode");
    reveal_strlit("quick_actions.toggle_ui");
    reveal_strlit("quick_actions.toggle_map_overlay");
    reveal_strlit("quick_actions.toggle_dirty_chunks");
    reveal_strlit("quick_actions.toggle_simulation_run");
    reveal_strlit("quick_actions.toggle_simulation_step");
    reveal_strlit("quick_actions.sample_hovered_particle");
    reveal_strlit("console.toggle_information_area");
    reveal_strlit("general.hold_canvas_mode_edit");
    reveal_strlit("camera.");
    reveal_strlit("brush.");
    reveal_strlit("quick_actions.");
    reveal_strlit("console.");
    reveal_strlit("general.");
    match s {
        KeybindSlot::CameraPanUp => {
            assert("camera.pan_up"@.take(7) =~= "camera."@);
        },
        KeybindSlot::CameraPanDown => {
            assert("camera.pan_up"@.len() != "camera.pan_down"@.len());
            assert("camera.pan_down"@.take(7) =~= "camera."@);
        },
        KeybindSlot::CameraPanLeft => {
            assert("camera.pan_up"@.len() != "camera.pan_left"@.len());
            assert("camera.pan_down"@[11] != "camera.pan_left"@[11]);
            assert("camera.pan_left"@.take(7) =~= "camera."@);
        },
        KeybindSlot::CameraPanRight => {
            assert("camera.pan_up"@.len() != "camera.pan_right"@.len());
            assert("camera.pan_down"@.len() != "camera.pan_right"@.len());
            assert("camera.pan_left"@.len() != "camera.pan_right"@.len());
            assert("camera.pan_right"@.take(7) =~= "camera."@);
        },
        KeybindSlot::BrushDraw => {
            assert("camera.pan_up"@.len() != "brush.draw"@.len());
            assert("camera.pan_down"@.len() != "brush.draw"@.len());
            assert("camera.pan_left"@.len() != "brush.draw"@.len());
            assert("camera.pan_right"@.len() != "brush.draw"@.len());
            assert("brush.draw"@[0] != "camera."@[0]);
            assert("brush.draw"@.take(6) =~= "brush."@);
        },
        KeybindSlot::BrushToggleMode => {
            assert("camera.pan_up"@.len() != "brush.toggle_mode"@.len());
            assert("camera.pan_down"@.len() != "brush.toggle_mode"@.len());
            assert("camera.pan_left"@.len() != "brush.toggle_mode"@.len());
            assert("camera.pan_right"@.len() != "brush.toggle_mode"@.len());
            assert("brush.draw"@.len() != "brush.toggle_mode"@.len());
            assert("brush.toggle_mode"@[0] != "camera."@[0]);
            assert("brush.toggle_mode"@.take(6) =~= "brush."@);
        },
        KeybindSlot::QuickActionsToggleUi => {
            assert("camera.pan_up"@.len() != "quick_actions.toggle_ui"@.len());
            assert("camera.pan_down"@.len() != "quick_actions.toggle_ui"@.len());
            assert("camera.pan_left"@.len() != "quick_actions.toggle_ui"@.len());
            assert("camera.pan_right"@.len() != "quick_actions.toggle_ui"@.len());
            assert("brush.draw"@.len() != "quick_actions.toggle_ui"@.len());
            assert("brush.toggle_mode"@.len() != "quick_actions.toggle_ui"@.len());
            assert("quick_actions.toggle_ui"@[0] != "camera."@[0]);
            assert("quick_actions.toggle_ui"@[0] != "brush."@[0]);
            assert("quick_actions.toggle_ui"@.take(14) =~= "quick_actions."@);
        },
        KeybindSlot::QuickActionsToggleMapOverlay => {
            assert("camera.pan_up"@.len() != "quick_actions.toggle_map_overlay"@.len());
            assert("camera.pan_down"@.len() != "quick_actions.toggle_map_overlay"@.len());
            assert("camera.pan_left"@.len() != "quick_actions.toggle_map_overlay"@.len());
            assert("camera.pan_right"@.len() != "quick_actions.toggle_map_overlay"@.len());
            assert("brush.draw"@.len() != "quick_actions.toggle_map_overlay"@.len());
            assert("brush.toggle_mode"@.len() != "quick_actions.toggle_map_overlay"@.len());
            assert("quick_actions.toggle_ui"@.len() != "quick_actions.toggle_map_overlay"@.len());
            assert("quick_actions.toggle_map_overlay"@[0] != "camera."@[0]);
            assert("quick_actions.toggle_map_overlay"@[0] != "brush."@[0]);
            assert("quick_actions.toggle_map_overlay"@.take(14) =~= "quick_actions."@);
        },
        KeybindSlot::QuickActionsToggleDirtyChunks => {
            assert("camera.pan_up"@.len() != "quick_actions.toggle_dirty_chunks"@.len());
            assert("camera.pan_down"@.len() != "quick_actions.toggle_dirty_chunks"@.len());
            assert("camera.pan_left"@.len() != "quick_actions.toggle_dirty_chunks"@.len());
            assert("camera.pan_right"@.len() != "quick_actions.toggle_dirty_chunks"@.len());
            assert("brush.draw"@.len() != "quick_actions.toggle_dirty_chunks"@.len());
            assert("brush.toggle_mode"@.len() != "quick_actions.toggle_dirty_chunks"@.len());
            assert("quick_actions.toggle_ui"@.len() != "quick_actions.toggle_dirty_chunks"@.len());
            assert("quick_actions.toggle_map_overlay"@.len() != "quick_actions.toggle_dirty_chunks"@.len());
            assert("quick_actions.toggle_dirty_chunks"@[0] != "camera."@[0]);
            assert("quick_actions.toggle_dirty_chunks"@[0] != "brush."@[0]);
            assert("quick_actions.toggle_dirty_chunks"@.take(14) =~= "quick_actions."@);
        },
        KeybindSlot::QuickActionsToggleSimulationRun => {
            assert("camera.pan_up"@.len() != "quick_actions.toggle_simulation_run"@.len());
            assert("camera.pan_down"@.len() != "quick_actions.toggle_simulation_run"@.len());
            assert("camera.pan_left"@.len() != "quick_actions.toggle_simulation_run"@.len());
            assert("camera.pan_right"@.len() != "quick_actions.toggle_simulation_run"@.len());
            assert("brush.draw"@.len() != "quick_actions.toggle_simulation_run"@.len());
            assert("brush.toggle_mode"@.len() != "quick_actions.toggle_simulation_run"@.len());
            assert("quick_actions.toggle_ui"@.len() != "quick_actions.toggle_simulation_run"@.len());
            assert("quick_actions.toggle_map_overlay"@.len() != "quick_actions.toggle_simulation_run"@.len());
            assert("quick_actions.toggle_dirty_chunks"@.len() != "quick_actions.toggle_simulation_run"@.len());
            assert("quick_actions.toggle_simulation_run"@[0] != "camera."@[0]);
            assert("quick_actions.toggle_simulation_run"@[0] != "brush."@[0]);
            assert("quick_actions.toggle_simulation_run"@.take(14) =~= "quick_actions."@);
        },
        KeybindSlot::QuickActionsToggleSimulationStep => {
            assert("camera.pan_up"@.len() != "quick_actions.toggle_simulation_step"@.len());
            assert("camera.pan_down"@.len() != "quick_actions.toggle_simulation_step"@.len());
            assert("camera.pan_left"@.len() != "quick_actions.toggle_simulation_step"@.len());
            assert("camera.pan_right"@.len() != "quick_actions.toggle_simulation_step"@.len());
            assert("brush.draw"@.len() != "quick_actions.toggle_simulation_step"@.len());
            assert("brush.toggle_mode"@.len() != "quick_actions.toggle_simulation_step"@.len());
            assert("quick_actions.toggle_ui"@.len() != "quick_actions.toggle_simulation_step"@.len());
            assert("quick_actions.toggle_map_overlay"@.len() != "quick_actions.toggle_simulation_step"@.len());
            assert("quick_actions.toggle_dirty_chunks"@.len() != "quick_actions.toggle_simulation_step"@.len());
            assert("quick_actions.toggle_simulation_run"@.len() != "quick_actions.toggle_simulation_step"@.len());
            assert("quick_actions.toggle_simulation_step"@[0] != "camera."@[0]);
            assert("quick_actions.toggle_simulation_step"@[0] != "brush."@[0]);
            assert("quick_actions.toggle_simulation_step"@.take(14) =~= "quick_actions."@);
        },
        KeybindSlot::QuickActionsSampleHoveredParticle => {
            assert("camera.pan_up"@.len() != "quick_actions.sample_hovered_particle"@.len());
            assert("camera.pan_down"@.len() != "quick_actions.sample_hovered_particle"@.len());
            assert("camera.pan_left"@.len() != "quick_actions.sample_hovered_particle"@.len());
            assert("camera.pan_right"@.len() != "quick_actions.sample_hovered_particle"@.len());
            assert("brush.draw"@.len() != "quick_actions.sample_hovered_particle"@.len());
            assert("brush.toggle_mode"@.len() != "quick_actions.sample_hovered_particle"@.len());
            assert("quick_actions.toggle_ui"@.len() != "quick_actions.sample_hovered_particle"@.len());
            assert("quick_actions.toggle_map_overlay"@.len() != "quick_actions.sample_hovered_particle"@.len());
            assert("quick_actions.toggle_dirty_chunks"@.len() != "quick_actions.sample_hovered_particle"@.len());
            assert("quick_actions.toggle_simulation_run"@.len() != "quick_actions.sample_hovered_particle"@.len());
            assert("quick_actions.toggle_simulation_step"@.len() != "quick_actions.sample_hovered_particle"@.len());
            assert("quick_actions.sample_hovered_particle"@[0] != "camera."@[0]);
            assert("quick_actions.sample_hovered_particle"@[0] != "brush."@[0]);
            assert("quick_actions.sample_hovered_particle"@.take(14) =~= "quick_actions."@);
        },
        KeybindSlot::ConsoleToggleInformationArea => {
            assert("camera.pan_up"@.len() != "console.toggle_information_area"@.len());
            assert("camera.pan_down"@.len() != "console.toggle_information_area"@.len());
            assert("camera.pan_left"@.len() != "console.toggle_information_area"@.len());
            assert("camera.pan_right"@.len() != "console.toggle_information_area"@.len());
            assert("brush.draw"@.len() != "console.toggle_information_area"@.len());
            assert("brush.toggle_mode"@.len() != "console.toggle_information_area"@.len());
            assert("quick_actions.toggle_ui"@.len() != "console.toggle_information_area"@.len());
            assert("quick_actions.toggle_map_overlay"@.len() != "console.toggle_information_area"@.len());
            assert("quick_actions.toggle_dirty_chunks"@.len() != "console.toggle_information_area"@.len());
            assert("quick_actions.toggle_simulation_run"@.len() != "console.toggle_information_area"@.len());
            assert("quick_actions.toggle_simulation_step"@.len() != "console.toggle_information_area"@.len());
            assert("quick_actions.sample_hovered_particle"@.len() != "console.toggle_information_area"@.len());
            assert("console.toggle_information_area"@[1] != "camera."@[1]);
            assert("console.toggle_information_area"@[0] != "brush."@[0]);
            assert("console.toggle_information_area"@[0] != "quick_actions."@[0]);
            assert("console.toggle_information_area"@.take(8) =~= "console."@);
        },
        KeybindSlot::GeneralHoldCanvasModeEdit => {
            assert("camera.pan_up"@.len() != "general.hold_canvas_mode_edit"@.len());
            assert("camera.pan_down"@.len() != "general.hold_canvas_mode_edit"@.len());
            assert("camera.pan_left"@.len() != "general.hold_canvas_mode_edit"@.len());
            assert("camera.pan_right"@.len() != "general.hold_canvas_mode_edit"@.len());
            assert("brush.draw"@.len() != "general.hold_canvas_mode_edit"@.len());
            assert("brush.toggle_mode"@.len() != "general.hold_canvas_mode_edit"@.len());
            assert("quick_actions.toggle_ui"@.len() != "general.hold_canvas_mode_edit"@.len());
            assert("quick_actions.toggle_map_overlay"@.len() != "general.hold_canvas_mode_edit"@.len());
            assert("quick_actions.toggle_dirty_chunks"@.len() != "general.hold_canvas_mode_edit"@.len());
            assert("quick_actions.toggle_simulation_run"@.len() != "general.hold_canvas_mode_edit"@.len());
            assert("quick_actions.toggle_simulation_step"@.len() != "general.hold_canvas_mode_edit"@.len());
            assert("quick_actions.sample_hovered_particle"@.len() != "general.hold_canvas_mode_edit"@.len());
            assert("console.toggle_information_area"@.len() != "general.hold_canvas_mode_edit"@.len());
            assert("general.hold_canvas_mode_edit"@[0] != "camera."@[0]);
            assert("general.hold_canvas_mode_edit"@[0] != "brush."@[0]);
            assert("general.hold_canvas_mode_edit"@[0] != "quick_actions."@[0]);
            assert("general.hold_canvas_mode_edit"@[0] != "console."@[0]);
            assert("general.hold_canvas_mode_edit"@.take(8) =~= "general."@);
        },
    }
}

/// An action of an input map that a rebuilt map binds: one of the
/// rebindable slots, or the console's submit key (which keeps its binding).
#[derive(PartialEq, Eq, Clone, Copy, Debug)]
pub enum BoundAction {
    Slot(KeybindSlot),
    ConsoleSubmitInputText,
}

/// The buttons bound to every rebindable action, and the console's submit
/// key.
#[derive(PartialEq, Eq, Clone, Copy, Debug)]
pub struct KeyBindings<K, M> {
    pub camera_pan_up: InputButton<K, M>,
    pub camera_pan_down: InputButton<K, M>,
    pub camera_pan_left: InputButton<K, M>,
    pub camera_pan_right: InputButton<K, M>,
    pub brush_draw: InputButton<K, M>,
    pub brush_toggle_mode: InputButton<K, M>,
    pub quick_actions_toggle_ui: InputButton<K, M>,
    pub quick_actions_toggle_map_overlay: InputButton<K, M>,
    pub quick_actions_toggle_dirty_chunks: InputButton<K, M>,
    pub quick_actions_toggle_simulation_run: InputButton<K, M>,
    pub quick_actions_toggle_simulation_step: InputButton<K, M>,
    pub quick_actions_sample_hovered_particle: InputButton<K, M>,
    pub console_toggle_information_area: InputButton<K, M>,
    pub console_submit_input_text: InputButton<K, M>,
    pub general_hold_canvas_mode_edit: InputButton<K, M>,
}

impl<K, M> KeyBindings<K, M> {
    /// The button bound to `a`.
    pub open spec fn button_of(self, a: BoundAction) -> InputButton<K, M> {
        match a {
            BoundAction::ConsoleSubmitInputText => self.console_submit_input_text,
            BoundAction::Slot(s) => match s {
                KeybindSlot::CameraPanUp => self.camera_pan_up,
                KeybindSlot::CameraPanDown => self.camera_pan_down,
                KeybindSlot::CameraPanLeft => self.camera_pan_left,
                KeybindSlot::CameraPanRight => self.camera_pan_right,
                KeybindSlot::BrushDraw => self.brush_draw,
                KeybindSlot::BrushToggleMode => self.brush_toggle_mode,
                KeybindSlot::QuickActionsToggleUi => self.quick_actions_toggle_ui,
                KeybindSlot::QuickActionsToggleMapOverlay => self.quick_actions_toggle_map_overlay,
                KeybindSlot::QuickActionsToggleDirtyChunks => self.quick_actions_toggle_dirty_chunks,
                KeybindSlot::QuickActionsToggleSimulationRun => self.quick_actions_toggle_simulation_run,
                KeybindSlot::QuickActionsToggleSimulationStep => self.quick_actions_toggle_simulation_step,
                KeybindSlot::QuickActionsSampleHoveredParticle => self.quick_actions_sample_hovered_particle,
                KeybindSlot::ConsoleToggleInformationArea => self.console_toggle_information_area,
                KeybindSlot::GeneralHoldCanvasModeEdit => self.general_hold_canvas_mode_edit,
            },
        }
    }
}

/// The actions of the input map of `group`, in the order in which the map
/// is rebuilt.
pub open spec fn group_actions(group: KeybindGroup) -> Seq<BoundAction> {
    match group {
        KeybindGroup::Camera => seq![
            BoundAction::Slot(KeybindSlot::CameraPanUp),
            BoundAction::Slot(KeybindSlot::CameraPanLeft),
            BoundAction::Slot(KeybindSlot::CameraPanDown),
            BoundAction::Slot(KeybindSlot::CameraPanRight),
        ],
        KeybindGroup::Brush => seq![
            BoundAction::Slot(KeybindSlot::BrushToggleMode),
            BoundAction::Slot(KeybindSlot::BrushDraw),
        ],
        KeybindGroup::QuickActions => seq![
            BoundAction::Slot(KeybindSlot::QuickActionsToggleUi),
            BoundAction::Slot(KeybindSlot::QuickActionsToggleMapOverlay),
            BoundAction::Slot(KeybindSlot::QuickActionsToggleDirtyChunks),
            BoundAction::Slot(KeybindSlot::QuickActionsToggleSimulationRun),
            BoundAction::Slot(KeybindSlot::QuickActionsToggleSimulationStep),
            BoundAction::Slot(KeybindSlot::QuickActionsSampleHoveredParticle),
        ],
        KeybindGroup::Console => seq![
            BoundAction::Slot(KeybindSlot::ConsoleToggleInformationArea),
            BoundAction::ConsoleSubmitInputText,
        ],
        KeybindGroup::General => seq![BoundAction::Slot(KeybindSlot::GeneralHoldCanvasModeEdit)],
    }
}

impl<K: Copy, M: Copy> KeyBindings<K, M> {
    /// Binds `button` to `slot`; every other action keeps its button. No
    /// slot (an unknown identifier) changes nothing.
    pub fn bind(&mut self, slot: Option<KeybindSlot>, button: InputButton<K, M>)
        ensures
            forall|a: BoundAction| #[trigger] final(self).button_of(a) == (if slot is Some && a
                == BoundAction::Slot(slot->0) {
                button
            } else {
                old(self).button_of(a)
            }),
    {
        match slot {
            None => {},
            Some(s) => match s {
                KeybindSlot::CameraPanUp => self.camera_pan_up = button,
                KeybindSlot::CameraPanDown => self.camera_pan_down = button,
                KeybindSlot::CameraPanLeft => self.camera_pan_left = button,
                KeybindSlot::CameraPanRight => self.camera_pan_right = button,
                KeybindSlot::BrushDraw => self.brush_draw = button,
                KeybindSlot::BrushToggleMode => self.brush_toggle_mode = button,
                KeybindSlot::QuickActionsToggleUi => self.quick_actions_toggle_ui = button,
                KeybindSlot::QuickActionsToggleMapOverlay => self.quick_actions_toggle_map_overlay = button,
                KeybindSlot::QuickActionsToggleDirtyChunks => self.quick_actions_toggle_dirty_chunks = button,
                KeybindSlot::QuickActionsToggleSimulationRun => self.quick_actions_toggle_simulation_run = button,
                KeybindSlot::QuickActionsToggleSimulationStep => self.quick_actions_toggle_simulation_step = button,
                KeybindSlot::QuickActionsSampleHoveredParticle => self.quick_actions_sample_hovered_particle = button,
                KeybindSlot::ConsoleToggleInformationArea => self.console_toggle_information_area = button,
                KeybindSlot::GeneralHoldCanvasModeEdit => self.general_hold_canvas_mode_edit = button,
            },
        }
    }

    /// The (action, button) entries of the rebuilt input map of `group`, in
    /// order.
    pub fn group_bindings(&self, group: KeybindGroup) -> (res: Vec<(BoundAction, InputButton<K, M>)>)
        ensures
            res@.len() == group_actions(group).len(),
            forall|i: int| 0 <= i < res@.len() ==> #[trigger] res@[i] == (group_actions(group)[i], self.button_of(group_actions(group)[i])),
    {
        match group {
            KeybindGroup::Camera => vec![
                (BoundAction::Slot(KeybindSlot::CameraPanUp), self.camera_pan_up),
                (BoundAction::Slot(KeybindSlot::CameraPanLeft), self.camera_pan_left),
                (BoundAction::Slot(KeybindSlot::CameraPanDown), self.camera_pan_down),
                (BoundAction::Slot(KeybindSlot::CameraPanRight), self.camera_pan_right),
            ],
            KeybindGroup::Brush => vec![
                (BoundAction::Slot(KeybindSlot::BrushToggleMode), self.brush_toggle_mode),
                (BoundAction::Slot(KeybindSlot::BrushDraw), self.brush_draw),
            ],
            KeybindGroup::QuickActions => vec![
                (BoundAction::Slot(KeybindSlot::QuickActionsToggleUi), self.quick_actions_toggle_ui),
                (BoundAction::Slot(KeybindSlot::QuickActionsToggleMapOverlay), self.quick_actions_toggle_map_overlay),
                (BoundAction::Slot(KeybindSlot::QuickActionsToggleDirtyChunks), self.quick_actions_toggle_dirty_chunks),
                (BoundAction::Slot(KeybindSlot::QuickActionsToggleSimulationRun), self.quick_actions_toggle_simulation_run),
                (BoundAction::Slot(KeybindSlot::QuickActionsToggleSimulationStep), self.quick_actions_toggle_simulation_step),
                (BoundAction::Slot(KeybindSlot::QuickActionsSampleHoveredParticle), self.quick_actions_sample_hovered_particle),
            ],
            KeybindGroup::Console => vec![
                (BoundAction::Slot(KeybindSlot::ConsoleToggleInformationArea), self.console_toggle_information_area),
                (BoundAction::ConsoleSubmitInputText, self.console_submit_input_text),
            ],
            KeybindGroup::General => vec![
                (BoundAction::Slot(KeybindSlot::GeneralHoldCanvasModeEdit), self.general_hold_canvas_mode_edit),
            ],
        }
    }
}

/// After a binding, the rebuilt map of its group holds the new button for
/// that binding.
pub proof fn law_bound_button_reaches_its_map<K, M>(
    before: KeyBindings<K, M>,
    after: KeyBindings<K, M>,
    s: KeybindSlot,
    button: InputButton<K, M>,
)
    requires
        forall|a: BoundAction| #[trigger] after.button_of(a) == (if a == BoundAction::Slot(s) {
            button
        } else {
            before.button_of(a)
        }),
    ensures
        exists|i: int|
            0 <= i < group_actions(slot_group(s)).len() && group_actions(slot_group(s))[i]
                == BoundAction::Slot(s) && #[trigger] after.button_of(group_actions(slot_group(s))[i]) == button,
{
    let g = group_actions(slot_group(s));
    let a = BoundAction::Slot(s);
    assert(after.button_of(a) == button);
    match s {
        KeybindSlot::CameraPanUp => assert(g[0] == a),
        KeybindSlot::CameraPanLeft => assert(g[1] == a),
        KeybindSlot::CameraPanDown => assert(g[2] == a),
        KeybindSlot::CameraPanRight => assert(g[3] == a),
        KeybindSlot::BrushToggleMode => assert(g[0] == a),
        KeybindSlot::BrushDraw => assert(g[1] == a),
        KeybindSlot::QuickActionsToggleUi => assert(g[0] == a),
        KeybindSlot::QuickActionsToggleMapOverlay => assert(g[1] == a),
        KeybindSlot::QuickActionsToggleDirtyChunks => assert(g[2] == a),
        KeybindSlot::QuickActionsToggleSimulationRun => assert(g[3] == a),
        KeybindSlot::QuickActionsToggleSimulationStep => assert(g[4] == a),
        KeybindSlot::QuickActionsSampleHoveredParticle => assert(g[5] == a),
        KeybindSlot::ConsoleToggleInformationArea => assert(g[0] == a),
        KeybindSlot::GeneralHoldCanvasModeEdit => assert(g[0] == a),
    }
}

} // verus!
