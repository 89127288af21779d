use sand_ui::commands::{
    brush_mode_from_lowercase, brush_type_from_lowercase, canvas_state_from_lowercase,
    filter_coordinate, find_scene, scene_name, select_mode_from_lowercase, split_position,
    BrushModeError, BrushModeSpawnState, BrushSetModeConsoleCommand, BrushSetSizeConsoleCommand,
    BrushSetTypeConsoleCommand, BrushSizeError, BrushTypeState, CanvasSetModeCommand, CanvasState,
    ParticlesDespawnNamedConsoleCommand, ParticlesSpawnSierpinskiCarpetConsoleCommand,
    ParticlesSpawnSierpinskiTriangleConsoleCommand, ParticlesSpawnTextConsoleCommand,
    PositionParseError, SceneSpawnConsoleCommand, SelectModeState, SelectSetModeCommand,
    TextAlignment, TextArgsError, DEFAULT_SIERPINSKI_DEPTH,
};

fn args(items: &[&str]) -> Vec<String> {
    items.iter().map(|s| s.to_string()).collect()
}

#[test]
fn brush_type_ignores_letter_case() {
    let cmd = BrushSetTypeConsoleCommand;
    assert_eq!(cmd.run(&args(&["Circle"])), Some(BrushTypeState::Circle));
    assert_eq!(cmd.run(&args(&["LINE"])), Some(BrushTypeState::Line));
    assert_eq!(cmd.run(&args(&["cursor", "extra"])), Some(BrushTypeState::Cursor));
    assert_eq!(cmd.run(&args(&["square"])), None);
}

#[test]
fn lowercase_name_lookups() {
    assert_eq!(brush_type_from_lowercase("line"), Some(BrushTypeState::Line));
    assert_eq!(brush_type_from_lowercase("Line"), None);
    assert_eq!(brush_mode_from_lowercase("conway"), Some(BrushModeSpawnState::Conway));
    assert_eq!(brush_mode_from_lowercase("life"), None);
    assert_eq!(canvas_state_from_lowercase("brush"), Some(CanvasState::Brush));
    assert_eq!(canvas_state_from_lowercase("BRUSH"), None);
    assert_eq!(select_mode_from_lowercase("throw"), Some(SelectModeState::Throw));
    assert_eq!(select_mode_from_lowercase(""), None);
}

#[test]
fn brush_size_outcomes() {
    let cmd = BrushSetSizeConsoleCommand;
    assert_eq!(cmd.run(&[]), Err(BrushSizeError::MissingValue));
    assert_eq!(cmd.run(&args(&["big"])), Err(BrushSizeError::InvalidValue));
    assert_eq!(cmd.run(&args(&["-3"])), Err(BrushSizeError::InvalidValue));
    assert_eq!(cmd.run(&args(&["0"])), Err(BrushSizeError::Zero));
    assert_eq!(cmd.run(&args(&["12"])), Ok(12));
    assert_eq!(cmd.run(&args(&["+4"])), Ok(4));
}

#[test]
fn brush_mode_outcomes() {
    let cmd = BrushSetModeConsoleCommand;
    assert_eq!(cmd.run(&[]), Err(BrushModeError::MissingValue));
    assert_eq!(cmd.run(&args(&["Particles"])), Ok(BrushModeSpawnState::Particles));
    assert_eq!(cmd.run(&args(&["CONWAY"])), Ok(BrushModeSpawnState::Conway));
    assert_eq!(cmd.run(&args(&["sand"])), Err(BrushModeError::InvalidMode));
}

#[test]
fn canvas_and_select_modes() {
    assert_eq!(CanvasSetModeCommand.run(&args(&["Select"])), Some(CanvasState::Select));
    assert_eq!(CanvasSetModeCommand.run(&args(&["erase"])), None);
    assert_eq!(SelectSetModeCommand.run(&args(&["DRAG"])), Some(SelectModeState::Drag));
    assert_eq!(SelectSetModeCommand.run(&args(&["fling"])), None);
}

#[test]
fn despawn_named_joins_words() {
    let cmd = ParticlesDespawnNamedConsoleCommand;
    assert_eq!(cmd.run(&args(&["Dirt", "Wall"])), "Dirt Wall");
    assert_eq!(cmd.run(&args(&["Water"])), "Water");
    assert_eq!(cmd.run(&[]), "");
}

#[test]
fn sierpinski_depth_from_last_argument() {
    let (position, depth) = ParticlesSpawnSierpinskiCarpetConsoleCommand.run(&args(&["10,20", "4"]));
    assert_eq!(position, args(&["10,20"]));
    assert_eq!(depth, 4);
    let (position, depth) = ParticlesSpawnSierpinskiTriangleConsoleCommand.run(&args(&["10", "20"]));
    assert_eq!(position, args(&["10"]));
    assert_eq!(depth, 20);
}

#[test]
fn sierpinski_default_depth() {
    let (position, depth) = ParticlesSpawnSierpinskiCarpetConsoleCommand.run(&args(&["10,20"]));
    assert_eq!(position, args(&["10,20"]));
    assert_eq!(depth, DEFAULT_SIERPINSKI_DEPTH);
    assert_eq!(DEFAULT_SIERPINSKI_DEPTH, 6);
    let (position, depth) = ParticlesSpawnSierpinskiTriangleConsoleCommand.run(&[]);
    assert!(position.is_empty());
    assert_eq!(depth, 6);
    let (position, depth) = ParticlesSpawnSierpinskiTriangleConsoleCommand.run(&args(&["1,1", "-2"]));
    assert_eq!(position, args(&["1,1", "-2"]));
    assert_eq!(depth, 6);
}

#[test]
fn spawn_text_without_alignment() {
    let cmd = ParticlesSpawnTextConsoleCommand;
    let res = cmd.run(&args(&["0,0", "12", "HELLO", r"big\nWORLD"]));
    assert_eq!(res, Ok((TextAlignment::Left, "HELLO big\nWORLD".to_string())));
}

#[test]
fn spawn_text_with_alignment() {
    let cmd = ParticlesSpawnTextConsoleCommand;
    assert_eq!(
        cmd.run(&args(&["0,0", "12", "--align", "center", "hi"])),
        Ok((TextAlignment::Center, "hi".to_string()))
    );
    assert_eq!(
        cmd.run(&args(&["0,0", "12", "--align", "right", "a", "b"])),
        Ok((TextAlignment::Right, "a b".to_string()))
    );
}

#[test]
fn spawn_text_errors() {
    let cmd = ParticlesSpawnTextConsoleCommand;
    assert_eq!(cmd.run(&args(&["0,0", "12", "--align"])), Err(TextArgsError::MissingAlignment));
    assert_eq!(
        cmd.run(&args(&["0,0", "12", "--align", "middle", "x"])),
        Err(TextArgsError::UnknownAlignment("middle".to_string()))
    );
    assert_eq!(cmd.run(&args(&["0,0", "12", "--align", "left"])), Err(TextArgsError::NoText));
    assert_eq!(cmd.run(&args(&["0,0", "12"])), Err(TextArgsError::TooFewArguments));
    assert_eq!(cmd.run(&[]), Err(TextArgsError::TooFewArguments));
}

#[test]
fn scene_names_from_paths() {
    assert_eq!(scene_name("scenes/castle.scn.ron"), "castle");
    assert_eq!(scene_name("a/b/tower.scn.ron"), "tower");
    assert_eq!(scene_name("plain.scn.ron"), "plain");
    assert_eq!(scene_name("scenes/readme.txt"), "scenes/readme.txt");
    assert_eq!(scene_name("scenes/"), "scenes/");
    assert_eq!(scene_name(".scn.ron"), "");
}

#[test]
fn find_scene_picks_first_match() {
    let paths = args(&["scenes/a.scn.ron", "scenes/castle.scn.ron", "other/castle.scn.ron"]);
    assert_eq!(find_scene(&paths, "castle"), Some(1));
    assert_eq!(find_scene(&paths, "a"), Some(0));
    assert_eq!(find_scene(&paths, "moat"), None);
}

#[test]
fn scene_spawn_arguments() {
    let cmd = SceneSpawnConsoleCommand;
    assert_eq!(cmd.run(&args(&["castle"])), None);
    assert_eq!(
        cmd.run(&args(&["castle", "--overwrite", "10,20"])),
        Some(("castle".to_string(), args(&["10,20"])))
    );
    assert_eq!(
        cmd.run(&args(&["castle", "10", "20", "--overwrite"])),
        Some(("castle".to_string(), args(&["10", "20"])))
    );
}

#[test]
fn position_splitting() {
    assert_eq!(split_position(&args(&["10,20"])), Ok(("10".to_string(), "20".to_string())));
    assert_eq!(split_position(&args(&["1,2,3"])), Ok(("1".to_string(), "2,3".to_string())));
    assert_eq!(split_position(&args(&["10", "20"])), Ok(("10".to_string(), "20".to_string())));
    assert_eq!(
        split_position(&args(&["10"])),
        Err(PositionParseError::Invalid("10".to_string()))
    );
    assert_eq!(split_position(&[]), Err(PositionParseError::Invalid(String::new())));
}

#[test]
fn coordinate_filter_keeps_digits_and_dots() {
    assert_eq!(filter_coordinate("x=12.5"), "12.5");
    assert_eq!(filter_coordinate("-3"), "3");
    assert_eq!(filter_coordinate("abc"), "");
    assert_eq!(filter_coordinate("½7"), "½7");
}

#[test]
fn scene_files_are_found_by_their_name() {
    for dir in ["scenes", "a/b", ""] {
        let path = format!("{dir}/castle.scn.ron");
        assert_eq!(scene_name(&path), "castle");
        assert_eq!(find_scene(&vec![path.clone()], "castle"), Some(0));
    }
}
