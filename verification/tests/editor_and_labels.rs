use sand_ui::editor::apply_registry_sync;
use sand_ui::editor::{new_duration_field, DEFAULT_DURATION_MS, DEFAULT_TICK_RATE_MS};
use sand_ui::editor::remove_color_if_not_last;
use sand_ui::editor::{
    add_contact_rule, cached_movement, editor_state_keys, fluidity_from_components, from_particle_type,
    particle_list_message, remove_contact_rule, set_contact_rule, EditorColor, EditorStateDefaults,
    LifetimeFields, ParticleComponents, ParticleListClick, ParticleListMessage,
};
use sand_ui::editor::{particle_type_update, ColorChange, EditorDataModel, LifetimeMillis, MaterialInsert};
use sand_ui::categories::{category_sorts_before, lexicographically_less, ParticleCategoryLabels};
use sand_ui::editor::{
    editor_color_slots, ColorSourceKind,
    apply_creates_new_type, apply_duration_text, auto_save_applies,
    condition_should_refresh_name_draft, decide_load_into_editor, material_state_from_components,
    material_state_label, plan_registry_sync, refresh_name_draft, LoadIntoEditor, MaterialFields,
    MaterialState, NameDraft, ParticleEditorRegistry, SelectedParticle, DEFAULT_FLUIDITY,
};
use sand_ui::naming::{contains_name, generate_unique_particle_name_with_base};

fn strings(items: &[&str]) -> Vec<String> {
    items.iter().map(|s| s.to_string()).collect()
}

fn names_of(labels: &ParticleCategoryLabels) -> Vec<(String, Vec<String>)> {
    labels.categories().clone()
}

#[test]
fn labels_push_groups_by_category() {
    let mut labels = ParticleCategoryLabels::new();
    labels.push("Liquid", "Water".to_string());
    labels.push("Solid", "Rock".to_string());
    labels.push("Liquid", "Oil".to_string());
    assert_eq!(
        names_of(&labels),
        vec![
            ("Liquid".to_string(), strings(&["Water", "Oil"])),
            ("Solid".to_string(), strings(&["Rock"])),
        ]
    );
}

#[test]
fn labels_sort_known_then_alphabetical_then_other() {
    let mut labels = ParticleCategoryLabels::new();
    for category in ["Other", "Zeta", "Gas", "Alpha", "Wall", "Movable Solid", "Liquid", "Solid"] {
        labels.push(category, format!("{category} item"));
    }
    labels.sort();
    let order: Vec<String> = labels.categories().iter().map(|(c, _)| c.clone()).collect();
    assert_eq!(
        order,
        strings(&["Wall", "Solid", "Movable Solid", "Liquid", "Gas", "Alpha", "Zeta", "Other"])
    );
    assert_eq!(labels.categories()[0].1, strings(&["Wall item"]));
}

#[test]
fn category_order_comparisons() {
    assert!(category_sorts_before("Wall", "Solid"));
    assert!(!category_sorts_before("Solid", "Wall"));
    assert!(category_sorts_before("Gas", "Aardvark"));
    assert!(category_sorts_before("Zebra", "Other"));
    assert!(category_sorts_before("Apple", "Banana"));
    assert!(!category_sorts_before("Same", "Same"));
    assert!(lexicographically_less("ab", "abc"));
    assert!(lexicographically_less("B", "a"));
    assert!(!lexicographically_less("b", "a"));
    assert!(!lexicographically_less("", ""));
}

#[test]
fn unique_name_uses_base_when_free() {
    let existing = strings(&["Sand", "Water"]);
    assert_eq!(generate_unique_particle_name_with_base(&existing, "New Particle"), "New Particle");
}

#[test]
fn unique_name_counts_from_two() {
    let existing = strings(&["New Particle", "New Particle 2", "New Particle 4"]);
    assert_eq!(generate_unique_particle_name_with_base(&existing, "New Particle"), "New Particle 3");
    assert!(contains_name(&existing, "New Particle 4"));
    assert!(!contains_name(&existing, "New Particle 3"));
}

#[test]
fn registry_insert_get_remove() {
    let mut registry = ParticleEditorRegistry::new();
    assert_eq!(registry.insert("Sand".to_string(), 7), None);
    assert_eq!(registry.insert("Water".to_string(), 9), None);
    assert!(registry.contains("Sand"));
    assert_eq!(registry.get("Water"), Some(9));
    assert_eq!(registry.insert("Sand".to_string(), 11), Some(7));
    assert_eq!(registry.get("Sand"), Some(11));
    assert_eq!(registry.remove("Sand"), Some(11));
    assert_eq!(registry.remove("Sand"), None);
    assert!(!registry.contains("Sand"));
    assert_eq!(registry.iter(), vec![("Water".to_string(), 9)]);
}

#[test]
fn registry_sync_plan() {
    let mut registry = ParticleEditorRegistry::new();
    registry.insert("Sand".to_string(), 1);
    registry.insert("Ghost".to_string(), 2);
    let types = strings(&["Water", "Sand", "Lava"]);
    let plan = plan_registry_sync(&types, &vec![true, true, true], &registry);
    assert_eq!(plan.to_create, strings(&["Water", "Lava"]));
    assert_eq!(plan.to_remove, strings(&["Ghost"]));
    let unread = plan_registry_sync(&types, &vec![false, false, true], &registry);
    assert_eq!(unread.to_create, strings(&["Lava"]));
    assert_eq!(unread.to_remove, strings(&["Ghost"]));
}

#[test]
fn name_draft_refresh_conditions() {
    let mut draft = NameDraft::new();
    assert!(!condition_should_refresh_name_draft(None, &draft, false));
    assert!(condition_should_refresh_name_draft(Some(SelectedParticle(5)), &draft, true));
    refresh_name_draft(&mut draft, Some(SelectedParticle(5)), Some("Sand".to_string()));
    assert_eq!(draft.entity, Some(5));
    assert_eq!(draft.name, "Sand");
    assert!(!condition_should_refresh_name_draft(Some(SelectedParticle(5)), &draft, true));
    assert!(condition_should_refresh_name_draft(Some(SelectedParticle(6)), &draft, true));
    assert!(condition_should_refresh_name_draft(None, &draft, true));
}

#[test]
fn name_draft_cleared_when_selection_vanishes() {
    let mut draft = NameDraft { entity: Some(5), name: "Sand".to_string() };
    assert!(condition_should_refresh_name_draft(Some(SelectedParticle(5)), &draft, false));
    refresh_name_draft(&mut draft, Some(SelectedParticle(5)), None);
    assert_eq!(draft.entity, None);
    assert_eq!(draft.name, "");
    assert!(condition_should_refresh_name_draft(Some(SelectedParticle(5)), &draft, false));
}

#[test]
fn material_state_priority() {
    assert_eq!(material_state_from_components(true, true, false, false, false, false), MaterialState::Wall);
    assert_eq!(material_state_from_components(false, false, true, true, false, false), MaterialState::MovableSolid);
    assert_eq!(material_state_from_components(false, false, false, false, true, true), MaterialState::Gas);
    assert_eq!(material_state_from_components(false, false, false, false, false, true), MaterialState::Insect);
    assert_eq!(material_state_from_components(false, false, false, false, false, false), MaterialState::Other);
    assert_eq!(material_state_label(MaterialState::MovableSolid), "Movable Solid");
    assert_eq!(material_state_label(MaterialState::Other), "Other");
}

#[test]
fn choosing_liquid_from_gas() {
    let mut fields = MaterialFields { material_state: MaterialState::Gas, fluidity: None, has_momentum: false };
    let needs_resistance = fields.choose_material_state(MaterialState::Liquid, false);
    assert!(needs_resistance);
    assert_eq!(fields.material_state, MaterialState::Liquid);
    assert_eq!(fields.fluidity, Some(DEFAULT_FLUIDITY));
    assert_eq!(DEFAULT_FLUIDITY, 3);
    assert!(fields.has_momentum);
}

#[test]
fn choosing_solid_and_gas_states() {
    let mut fields = MaterialFields { material_state: MaterialState::Liquid, fluidity: Some(5), has_momentum: true };
    assert!(!fields.choose_material_state(MaterialState::Gas, false));
    assert_eq!(fields.fluidity, Some(5));
    assert!(!fields.has_momentum);
    assert!(!fields.choose_material_state(MaterialState::Solid, true));
    assert_eq!(fields.fluidity, None);
    assert!(fields.has_momentum);
    assert!(!fields.choose_material_state(MaterialState::Liquid, true));
    assert_eq!(fields.fluidity, Some(3));
}

#[test]
fn duration_text_edits() {
    let mut ms: u64 = 1000;
    apply_duration_text(&mut ms, "250");
    assert_eq!(ms, 250);
    apply_duration_text(&mut ms, "2.5s");
    assert_eq!(ms, 250);
    apply_duration_text(&mut ms, "");
    assert_eq!(ms, 250);
    apply_duration_text(&mut ms, "18446744073709551615");
    assert_eq!(ms, u64::MAX);
}

#[test]
fn load_into_editor_decisions() {
    let mut registry = ParticleEditorRegistry::new();
    registry.insert("Sand".to_string(), 3);
    assert_eq!(decide_load_into_editor(&registry, "Sand", true), LoadIntoEditor::SelectExisting(3));
    assert_eq!(decide_load_into_editor(&registry, "Water", true), LoadIntoEditor::CreateFromType);
    assert_eq!(decide_load_into_editor(&registry, "Nope", false), LoadIntoEditor::Ignore);
}

#[test]
fn save_decisions() {
    assert!(apply_creates_new_type(true, true));
    assert!(apply_creates_new_type(false, false));
    assert!(!apply_creates_new_type(false, true));
    assert!(auto_save_applies(false, true));
    assert!(!auto_save_applies(true, true));
    assert!(!auto_save_applies(false, false));
}

#[test]
fn refreshed_labels_are_grouped_and_sorted() {
    let particles = vec![
        (Some("Liquid".to_string()), "Water".to_string()),
        (None, "Mystery".to_string()),
        (Some("Wall".to_string()), "Stone".to_string()),
        (Some("Liquid".to_string()), "Oil".to_string()),
        (Some("Custom".to_string()), "Thing".to_string()),
    ];
    let labels = sand_ui::categories::refresh_particle_labels(&particles);
    assert_eq!(
        labels.categories().clone(),
        vec![
            ("Wall".to_string(), strings(&["Stone"])),
            ("Liquid".to_string(), strings(&["Water", "Oil"])),
            ("Custom".to_string(), strings(&["Thing"])),
            ("Other".to_string(), strings(&["Mystery"])),
        ]
    );
}

#[test]
fn color_slots_keep_the_other_sources() {
    let defaults = ("default palette", "default gradient", "default texture");
    let cached = Some(("cached palette", "cached gradient", "cached texture"));
    assert_eq!(
        editor_color_slots(ColorSourceKind::Gradient("live gradient"), cached, defaults),
        ("cached palette", "live gradient", "cached texture")
    );
    assert_eq!(
        editor_color_slots(ColorSourceKind::Palette("live palette"), None, defaults),
        ("live palette", "default gradient", "default texture")
    );
    assert_eq!(
        editor_color_slots(ColorSourceKind::Texture("live texture"), cached, defaults),
        ("cached palette", "cached gradient", "live texture")
    );
}

#[test]
fn sync_plan_applied_keeps_remaining_entities() {
    let mut registry = ParticleEditorRegistry::new();
    registry.insert("Sand".to_string(), 1);
    registry.insert("Ghost".to_string(), 2);
    let types = strings(&["Water", "Sand", "Lava"]);
    let plan = plan_registry_sync(&types, &vec![true, false, true], &registry);
    apply_registry_sync(&mut registry, &plan, &vec![10, 11]);
    assert_eq!(registry.get("Sand"), Some(1));
    assert_eq!(registry.get("Water"), Some(10));
    assert_eq!(registry.get("Lava"), Some(11));
    assert_eq!(registry.get("Ghost"), None);
    let mut names: Vec<String> = registry.iter().into_iter().map(|(n, _)| n).collect();
    names.sort();
    assert_eq!(names, strings(&["Lava", "Sand", "Water"]));
}

#[test]
fn duration_fields_agree_with_their_text() {
    assert_eq!(new_duration_field(DEFAULT_DURATION_MS), ("1000".to_string(), 1000));
    assert_eq!(new_duration_field(DEFAULT_TICK_RATE_MS), ("100".to_string(), 100));
    let (text, ms) = new_duration_field(u64::MAX);
    assert_eq!(text.parse::<u64>().ok(), Some(ms));
    let mut value = ms;
    apply_duration_text(&mut value, "12x");
    assert_eq!(value, u64::MAX);
}

#[test]
fn removing_colors_keeps_the_last_one() {
    let mut colors = vec!['r', 'g', 'b'];
    remove_color_if_not_last(&mut colors, 1);
    assert_eq!(colors, vec!['r', 'b']);
    remove_color_if_not_last(&mut colors, 0);
    assert_eq!(colors, vec!['b']);
    remove_color_if_not_last(&mut colors, 0);
    assert_eq!(colors, vec!['b']);
}

fn components() -> ParticleComponents {
    ParticleComponents {
        density: None,
        max_speed: None,
        has_momentum: true,
        timed_lifetime_ms: None,
        chance_lifetime_tick_ms: Some(None),
        wall: false,
        solid: false,
        movable_solid: false,
        liquid_fluidity: None,
        gas_fluidity: None,
        insect: false,
        has_color_profile: false,
    }
}

#[test]
fn editor_data_from_components_defaults() {
    assert!(from_particle_type("Sand".to_string(), None).is_none());
    let f = from_particle_type("Sand".to_string(), Some(components())).unwrap();
    assert_eq!(f.name, "Sand");
    assert!(!f.is_new && !f.is_modified);
    assert_eq!(f.material_state, MaterialState::Other);
    assert_eq!(f.fluidity, None);
    assert_eq!((f.density, f.max_speed, f.has_momentum), (100, 3, true));
    match f.lifetime {
        Some(LifetimeFields::Chance { tick_rate_ms, tick_rate_str }) => {
            assert_eq!((tick_rate_ms, tick_rate_str.as_str()), (100, "100"))
        }
        _ => panic!("expected a chance lifetime"),
    }
    match f.color {
        EditorColor::DefaultPalette { index, colors, sequential } => {
            assert_eq!((index, colors, sequential), (0, vec![(128, 128, 128, 255)], true))
        }
        EditorColor::FromProfile => panic!("expected the default palette"),
    }
}

#[test]
fn editor_data_from_components_present() {
    let c = ParticleComponents {
        density: Some(1500),
        max_speed: Some(7),
        has_momentum: false,
        timed_lifetime_ms: Some(2500),
        chance_lifetime_tick_ms: Some(Some(40)),
        solid: true,
        liquid_fluidity: Some(300),
        gas_fluidity: Some(2),
        has_color_profile: true,
        ..components()
    };
    let g = from_particle_type("Mud".to_string(), Some(c)).unwrap();
    assert_eq!(g.material_state, MaterialState::Solid);
    assert_eq!(g.fluidity, Some(44));
    assert_eq!((g.density, g.max_speed, g.has_momentum), (1500, 7, false));
    assert!(matches!(g.color, EditorColor::FromProfile));
    match g.lifetime {
        Some(LifetimeFields::Timed { duration_ms, duration_str }) => {
            assert_eq!((duration_ms, duration_str.as_str()), (2500, "2500"))
        }
        _ => panic!("expected a timed lifetime"),
    }
    let gas = ParticleComponents { gas_fluidity: Some(5), chance_lifetime_tick_ms: None, ..components() };
    let h = from_particle_type("Steam".to_string(), Some(gas)).unwrap();
    assert_eq!(h.material_state, MaterialState::Gas);
    assert_eq!(h.fluidity, Some(5));
    assert!(h.lifetime.is_none());
    assert_eq!(fluidity_from_components(Some(4), Some(9)), Some(4));
    assert_eq!(fluidity_from_components(None, Some(9)), Some(9));
    assert_eq!(fluidity_from_components(None, None), None);
}

#[test]
fn editor_state_entries() {
    assert_eq!(editor_state_keys(&vec![4, 5, 6], &vec![true, false, true]), vec![4, 6]);
    assert_eq!(
        cached_movement((Some('m'), None, Some('s'), None, None), Some(('a', 'b', 'c', 'd', 'e')), ('1', '2', '3', '4', '5')),
        ('m', 'b', 's', 'd', 'e')
    );
    assert_eq!(
        cached_movement((None, Some('d'), None, None, None), None, ('1', '2', '3', '4', '5')),
        ('1', 'd', '3', '4', '5')
    );
    let d = EditorStateDefaults::new();
    assert_eq!((d.density, d.speed_min, d.speed_max), (1000, 1, 3));
    assert_eq!((d.timed_lifetime_ms, d.chance_lifetime_tick_ms, d.burn_duration_ms), (10000, 100, 1000));
}

#[test]
fn contact_rule_lists() {
    let mut rules = vec!["a".to_string()];
    let mut editor_rules = vec!["a".to_string()];
    add_contact_rule(&mut rules, &mut editor_rules, "b".to_string());
    assert_eq!((rules.clone(), editor_rules.clone()), (strings(&["a", "b"]), strings(&["a", "b"])));
    set_contact_rule(&mut rules, &mut editor_rules, 0, "c".to_string());
    assert_eq!((rules.clone(), editor_rules.clone()), (strings(&["c", "b"]), strings(&["c", "b"])));
    remove_contact_rule(&mut rules, &mut editor_rules, 1);
    assert_eq!((rules, editor_rules), (strings(&["c"]), strings(&["c"])));
}

#[test]
fn particle_list_clicks() {
    match particle_list_message(ParticleListClick::Particle("Sand".to_string()), None, None) {
        Some(ParticleListMessage::LoadParticleIntoEditor(n)) => assert_eq!(n, "Sand"),
        _ => panic!("expected a load"),
    }
    match particle_list_message(ParticleListClick::NewParticle, Some("Water".to_string()), Some(3)) {
        Some(ParticleListMessage::CreateNewParticle(d)) => assert_eq!(d, Some("Water".to_string())),
        _ => panic!("expected a creation"),
    }
    match particle_list_message(ParticleListClick::ResetChildren, None, Some(3)) {
        Some(ParticleListMessage::ApplyEditorChangesAndReset(e)) => assert_eq!(e, 3),
        _ => panic!("expected a reset"),
    }
    assert!(particle_list_message(ParticleListClick::ResetChildren, None, None).is_none());
}

#[test]
fn particle_type_update_plan() {
    let data = EditorDataModel {
        material_state: MaterialState::Liquid,
        density: 750,
        max_speed: 5,
        has_momentum: true,
        fluidity: None,
        color_index: 2,
        changes_color: Some(ColorChange::Timed(300)),
        lifetime: Some(LifetimeMillis::Chance(100)),
        has_burns: true,
        has_fire: false,
    };
    let update = particle_type_update(&data, false, Some(9));
    assert!(!update.create_new);
    assert_eq!((update.density, update.speed_min, update.speed_max), (750, 1, 5));
    assert!(update.momentum);
    assert_eq!(update.color_index, 9);
    assert_eq!(update.changes_color, Some(ColorChange::Timed(300)));
    assert_eq!(update.lifetime, Some(LifetimeMillis::Chance(100)));
    assert_eq!(update.material, MaterialInsert::Liquid { fluidity: 3 });
    assert!(update.burns && !update.fire);
    let gas = EditorDataModel { material_state: MaterialState::Gas, fluidity: Some(6), ..data };
    let update = particle_type_update(&gas, true, None);
    assert!(update.create_new);
    assert_eq!(update.color_index, 2);
    assert_eq!(update.material, MaterialInsert::Gas { fluidity: 6 });
    let other = EditorDataModel { material_state: MaterialState::Other, ..data };
    assert_eq!(particle_type_update(&other, true, None).material, MaterialInsert::Nothing);
}
