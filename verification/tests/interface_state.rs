use sand_ui::neighbors::apply_neighbor_action;
use sand_ui::neighbors::{add_tier, remove_tier};
use sand_ui::file_browser::FileBrowserState;
use sand_ui::history::CommandHistory;
use sand_ui::icons::{tint_opaque_pixels, ICON_LIGHT_GRAY};
use sand_ui::keybinds::{
    binding_group, binding_slot, listen_for_keybind, BoundAction, InputButton, KeybindGroup, KeyBindings,
    KeybindListenOutcome, KeybindSlot,
};
use sand_ui::neighbors::{
    add_neighbor, contains_offset, direction_arrow, direction_label, move_down_action,
    move_up_action, NeighborAction, PendingNeighbor,
};
use sand_ui::prompt::{toggle_information_area, ConsoleInformationAreaState, ConsolePromptState};
use sand_ui::states::{
    action_panel_editor_after_click, ParticleEditorWindowState, PopupState,
    SettingsApplicationState, SynchronizeBrushState,
};

#[test]
fn keybind_ids_name_their_slots() {
    assert_eq!(binding_slot("camera.pan_up"), Some(KeybindSlot::CameraPanUp));
    assert_eq!(binding_slot("brush.toggle_mode"), Some(KeybindSlot::BrushToggleMode));
    assert_eq!(
        binding_slot("quick_actions.sample_hovered_particle"),
        Some(KeybindSlot::QuickActionsSampleHoveredParticle)
    );
    assert_eq!(binding_slot("general.hold_canvas_mode_edit"), Some(KeybindSlot::GeneralHoldCanvasModeEdit));
    assert_eq!(binding_slot("camera.zoom"), None);
    assert_eq!(binding_group("camera.zoom"), Some(KeybindGroup::Camera));
    assert_eq!(binding_group("console.toggle_information_area"), Some(KeybindGroup::Console));
    assert_eq!(binding_group("quick_actions.toggle_ui"), Some(KeybindGroup::QuickActions));
    assert_eq!(binding_group("unknown.thing"), None);
}

#[test]
fn listening_for_a_keybind() {
    let cancelled = listen_for_keybind::<u8, u8>("brush.draw", true, Some(1), Some(2));
    assert_eq!(cancelled, KeybindListenOutcome::Cancelled);
    let waiting = listen_for_keybind::<u8, u8>("brush.draw", false, None, None);
    assert_eq!(waiting, KeybindListenOutcome::Waiting);
    let key_first = listen_for_keybind::<u8, u8>("brush.draw", false, Some(1), Some(2));
    assert_eq!(
        key_first,
        KeybindListenOutcome::Bound {
            button: InputButton::Key(1),
            slot: Some(KeybindSlot::BrushDraw),
            group: Some(KeybindGroup::Brush),
        }
    );
    let mouse = listen_for_keybind::<u8, u8>("camera.pan_left", false, None, Some(2));
    assert_eq!(
        mouse,
        KeybindListenOutcome::Bound {
            button: InputButton::Mouse(2),
            slot: Some(KeybindSlot::CameraPanLeft),
            group: Some(KeybindGroup::Camera),
        }
    );
}

#[test]
fn popup_toggles() {
    let closed: PopupState<u8> = PopupState::Closed;
    assert!(!closed.is_open());
    let open = closed.get_next();
    assert!(open.is_open());
    assert!(!open.get_next().is_open());
    assert_eq!(SettingsApplicationState::Open.toggled(), SettingsApplicationState::Closed);
    assert_eq!(SettingsApplicationState::Closed.toggled(), SettingsApplicationState::Open);
    assert_eq!(SynchronizeBrushState::from_switch(true), SynchronizeBrushState::Enabled);
    assert!(!SynchronizeBrushState::Disabled.is_on());
    assert_eq!(
        action_panel_editor_after_click(ParticleEditorWindowState::Closed),
        ParticleEditorWindowState::Open
    );
}

#[test]
fn compass_labels() {
    assert_eq!(direction_label(3, -2), "SE");
    assert_eq!(direction_label(0, 5), "N");
    assert_eq!(direction_label(-1, 1), "NW");
    assert_eq!(direction_label(0, 0), "?");
    assert_eq!(direction_arrow(-1, 0), "W");
    assert_eq!(direction_arrow(2, 0), "?");
}

#[test]
fn pending_neighbor_steps() {
    let mut pending = PendingNeighbor::new();
    assert!(!pending.is_pending());
    pending.click_arrow(1, 0);
    pending.click_arrow(1, 0);
    pending.click_arrow(1, 0);
    assert!(pending.is_pending_direction(1, 0));
    assert_eq!(pending.offset(), (3, 0));
    pending.decrement();
    assert_eq!(pending.offset(), (2, 0));
    pending.click_arrow(-1, -1);
    assert_eq!(pending.offset(), (-1, -1));
    pending.decrement();
    assert_eq!(pending.offset(), (-1, -1));
    pending.cancel();
    assert!(!pending.is_pending());
}

#[test]
fn confirming_neighbors() {
    let mut group = vec![(0, -1)];
    let mut pending = PendingNeighbor::new();
    assert!(!pending.confirm(&mut group));
    pending.click_arrow(0, -1);
    assert!(!pending.confirm(&mut group));
    assert!(pending.is_pending());
    pending.click_arrow(0, -1);
    assert!(pending.confirm(&mut group));
    assert_eq!(group, vec![(0, -1), (0, -2)]);
    assert!(!pending.is_pending());
    assert!(contains_offset(&group, (0, -2)));
    assert!(!add_neighbor(&mut group, (0, -1)));
    assert!(add_neighbor(&mut group, (1, -1)));
    assert_eq!(group.len(), 3);
}

#[test]
fn neighbor_row_moves() {
    assert_eq!(move_up_action(0), None);
    assert_eq!(move_up_action(2), Some(NeighborAction::Swap(2, 1)));
    assert_eq!(move_down_action(2, 3), None);
    assert_eq!(move_down_action(0, 3), Some(NeighborAction::Swap(0, 1)));
}

#[test]
fn information_area_toggle_moves_focus() {
    let mut info = ConsoleInformationAreaState::default();
    let mut prompt = ConsolePromptState::default();
    assert!(!info.is_open);
    assert!(prompt.surrender_focus);
    assert_eq!(prompt.take_focus_requests(), (false, true));
    toggle_information_area(&mut info, &mut prompt);
    assert!(info.is_open);
    assert_eq!(prompt.take_focus_requests(), (true, false));
    toggle_information_area(&mut info, &mut prompt);
    assert!(!info.is_open);
    assert_eq!(prompt.take_focus_requests(), (false, true));
    assert_eq!(prompt.take_focus_requests(), (false, false));
}

#[test]
fn information_area_records_logs() {
    let mut info = ConsoleInformationAreaState::default();
    info.record_logs(vec!["one".to_string(), "two".to_string()]);
    info.record_logs(vec!["three".to_string()]);
    assert_eq!(info.log_history, vec!["one", "two", "three"]);
}

#[test]
fn prompt_submit_and_recall() {
    let mut history = CommandHistory::load(Vec::new());
    let mut prompt = ConsolePromptState::default();
    assert_eq!(prompt.submit(&mut history, true), None);
    prompt.input_text = "brush set size 4".to_string();
    assert_eq!(prompt.submit(&mut history, false), None);
    assert_eq!(prompt.input_text, "brush set size 4");
    assert_eq!(prompt.submit(&mut history, true), Some("brush set size 4".to_string()));
    assert_eq!(prompt.input_text, "");
    prompt.input_text = "hé".to_string();
    assert_eq!(prompt.browse_history(&mut history, true, false), Some(16));
    assert_eq!(prompt.input_text, "brush set size 4");
    assert_eq!(prompt.browse_history(&mut history, true, false), None);
    assert_eq!(prompt.browse_history(&mut history, false, true), Some(2));
    assert_eq!(prompt.input_text, "hé");
    assert_eq!(prompt.browse_history(&mut history, false, false), None);
    assert_eq!(prompt.input_text, "hé");
}

#[test]
fn file_browser_dialogs() {
    let mut state = FileBrowserState::new("/root/app", "assets/particles", "ron", "Particles");
    assert_eq!(state.current_directory, "/root/app/assets/particles");
    assert_eq!(state.file_extension, "ron");
    assert_eq!(state.dialog_title, "Particles");
    state.save_input_text = "old".to_string();
    state.show_save("Save particles");
    assert!(state.show_save_dialog);
    assert_eq!(state.save_input_text, "");
    assert_eq!(state.save_target(), None);
    state.select_save_file("sand");
    assert_eq!(state.save_target(), Some("sand".to_string()));
    assert!(state.is_selected("sand"));
    state.close_save_dialog();
    assert!(!state.show_save_dialog);
    assert_eq!(state.selected_file, None);
    assert_eq!(state.save_input_text, "sand");
}

#[test]
fn file_browser_listing_and_load() {
    let mut state = FileBrowserState::new("/r", "d", "ron", "Load");
    assert_eq!(
        state.file_entry("water.ron"),
        ("water".to_string(), "/r/d/water.ron".to_string())
    );
    assert_eq!(state.file_entry("double.ron.ron").0, "double");
    assert_eq!(state.file_entry("a.b.ron").0, "a.b");
    assert_eq!(state.file_entry("noext").0, "noext");
    let files = vec![
        ("water".to_string(), "/r/d/water.ron".to_string()),
        ("sand".to_string(), "/r/d/sand.ron".to_string()),
    ];
    state.show_load("Load particles");
    assert_eq!(state.load_target(&files), None);
    state.select_load_file("sand");
    assert_eq!(state.load_target(&files), Some("/r/d/sand.ron".to_string()));
    state.select_load_file("gone");
    assert_eq!(state.load_target(&files), None);
    state.close_load_dialog();
    assert!(!state.show_load_dialog);
    assert_eq!(state.selected_file, None);
}

#[test]
fn file_display_name_matches_trim_end_matches() {
    let state = FileBrowserState::new("", "", "scn.ron", "");
    for name in ["x.scn.ron", "x.scn.ron.scn.ron", "x.ron", ".scn.ron", "scn.ron"] {
        assert_eq!(state.file_entry(name).0, name.trim_end_matches(".scn.ron"));
    }
}

#[test]
fn icon_tint_paints_opaque_pixels() {
    let mut data = vec![10, 20, 30, 255, 1, 2, 3, 0, 4, 5, 6, 1];
    tint_opaque_pixels(&mut data);
    let g = ICON_LIGHT_GRAY;
    assert_eq!(g, 200);
    assert_eq!(data, vec![g, g, g, 255, 1, 2, 3, 0, g, g, g, 1]);
    let mut empty: Vec<u8> = Vec::new();
    tint_opaque_pixels(&mut empty);
    assert!(empty.is_empty());
}

#[test]
fn tinting_twice_changes_nothing_more() {
    let mut data = vec![0, 0, 0, 9, 50, 60, 70, 0, 1, 2, 3, 4];
    tint_opaque_pixels(&mut data);
    let once = data.clone();
    tint_opaque_pixels(&mut data);
    assert_eq!(data, once);
}

#[test]
fn listed_names_never_keep_the_extension() {
    let state = FileBrowserState::new("", "", "ron", "");
    for name in ["a.ron.ron.ron", "b.ron", ".ron", "c.r"] {
        let (display, _) = state.file_entry(name);
        assert!(!display.ends_with(".ron"), "{display}");
    }
}

fn sample_bindings() -> KeyBindings<u8, u8> {
    KeyBindings {
        camera_pan_up: InputButton::Key(1),
        camera_pan_down: InputButton::Key(2),
        camera_pan_left: InputButton::Key(3),
        camera_pan_right: InputButton::Key(4),
        brush_draw: InputButton::Mouse(0),
        brush_toggle_mode: InputButton::Key(5),
        quick_actions_toggle_ui: InputButton::Key(6),
        quick_actions_toggle_map_overlay: InputButton::Key(7),
        quick_actions_toggle_dirty_chunks: InputButton::Key(8),
        quick_actions_toggle_simulation_run: InputButton::Key(9),
        quick_actions_toggle_simulation_step: InputButton::Key(10),
        quick_actions_sample_hovered_particle: InputButton::Key(11),
        console_toggle_information_area: InputButton::Key(12),
        console_submit_input_text: InputButton::Key(13),
        general_hold_canvas_mode_edit: InputButton::Key(14),
    }
}

#[test]
fn binding_a_slot_changes_only_that_slot() {
    let mut bindings = sample_bindings();
    let before = bindings;
    bindings.bind(binding_slot("camera.pan_left"), InputButton::Mouse(2));
    assert_eq!(bindings.camera_pan_left, InputButton::Mouse(2));
    assert_eq!(
        bindings.group_bindings(KeybindGroup::Camera),
        vec![
            (BoundAction::Slot(KeybindSlot::CameraPanUp), InputButton::Key(1)),
            (BoundAction::Slot(KeybindSlot::CameraPanLeft), InputButton::Mouse(2)),
            (BoundAction::Slot(KeybindSlot::CameraPanDown), InputButton::Key(2)),
            (BoundAction::Slot(KeybindSlot::CameraPanRight), InputButton::Key(4)),
        ]
    );
    let mut unchanged = before;
    unchanged.bind(binding_slot("camera.zoom"), InputButton::Key(99));
    assert_eq!(unchanged, before);
}

#[test]
fn console_map_keeps_submit_key() {
    let mut bindings = sample_bindings();
    bindings.bind(Some(KeybindSlot::ConsoleToggleInformationArea), InputButton::Key(42));
    assert_eq!(
        bindings.group_bindings(KeybindGroup::Console),
        vec![
            (BoundAction::Slot(KeybindSlot::ConsoleToggleInformationArea), InputButton::Key(42)),
            (BoundAction::ConsoleSubmitInputText, InputButton::Key(13)),
        ]
    );
    assert_eq!(bindings.group_bindings(KeybindGroup::Brush).len(), 2);
    assert_eq!(bindings.group_bindings(KeybindGroup::QuickActions).len(), 6);
    assert_eq!(
        bindings.group_bindings(KeybindGroup::General),
        vec![(BoundAction::Slot(KeybindSlot::GeneralHoldCanvasModeEdit), InputButton::Key(14))]
    );
}

#[test]
fn neighbor_actions_swap_and_remove() {
    let mut group = vec![(0, -1), (1, -1), (-1, -1)];
    apply_neighbor_action(&mut group, NeighborAction::Swap(2, 1));
    assert_eq!(group, vec![(0, -1), (-1, -1), (1, -1)]);
    apply_neighbor_action(&mut group, NeighborAction::Swap(0, 5));
    assert_eq!(group, vec![(0, -1), (-1, -1), (1, -1)]);
    apply_neighbor_action(&mut group, NeighborAction::Remove(0));
    assert_eq!(group, vec![(-1, -1), (1, -1)]);
}

#[test]
fn tiers_are_added_and_removed() {
    let mut tiers = vec![vec![(0, -1)], vec![(1, 0)]];
    add_tier(&mut tiers);
    assert_eq!(tiers, vec![vec![(0, -1)], vec![(1, 0)], vec![]]);
    remove_tier(&mut tiers, 0);
    assert_eq!(tiers, vec![vec![(1, 0)], vec![]]);
}
