use particle_life::ui::{key_command, tool_cursor, CursorShape, KeyCommand, KeyInput, Tool};

fn text_key(s: &str) -> KeyInput {
    KeyInput::Character(s.to_string())
}

#[test]
fn escape_quits_even_when_the_ui_consumed_it() {
    assert_eq!(key_command(&KeyInput::Escape, false, false), KeyCommand::Quit);
    assert_eq!(key_command(&KeyInput::Escape, true, true), KeyCommand::Quit);
}

#[test]
fn consumed_keys_are_ignored() {
    assert_eq!(key_command(&KeyInput::F11, true, false), KeyCommand::Nothing);
    assert_eq!(key_command(&KeyInput::Space, true, false), KeyCommand::Nothing);
    assert_eq!(key_command(&text_key("r"), true, false), KeyCommand::Nothing);
}

#[test]
fn named_keys_map_to_their_commands() {
    assert_eq!(key_command(&KeyInput::F11, false, false), KeyCommand::ToggleFullscreen);
    assert_eq!(key_command(&KeyInput::ArrowLeft, false, false), KeyCommand::PanLeft);
    assert_eq!(key_command(&KeyInput::ArrowUp, false, true), KeyCommand::PanUp);
    assert_eq!(key_command(&KeyInput::ArrowDown, false, false), KeyCommand::PanDown);
    assert_eq!(key_command(&KeyInput::Space, false, true), KeyCommand::TogglePause);
    assert_eq!(key_command(&KeyInput::Other, false, false), KeyCommand::Nothing);
}

#[test]
fn right_arrow_steps_while_paused_and_pans_otherwise() {
    assert_eq!(key_command(&KeyInput::ArrowRight, false, true), KeyCommand::StepFrame);
    assert_eq!(key_command(&KeyInput::ArrowRight, false, false), KeyCommand::PanRight);
}

#[test]
fn text_keys_map_to_their_commands() {
    assert_eq!(key_command(&text_key("="), false, false), KeyCommand::ZoomIn);
    assert_eq!(key_command(&text_key("+"), false, false), KeyCommand::ZoomIn);
    assert_eq!(key_command(&text_key("-"), false, false), KeyCommand::ZoomOut);
    assert_eq!(key_command(&text_key("0"), false, false), KeyCommand::ResetView);
    assert_eq!(key_command(&text_key("r"), false, false), KeyCommand::Respawn);
    assert_eq!(key_command(&text_key("s"), false, false), KeyCommand::Screenshot);
    assert_eq!(key_command(&text_key("x"), false, false), KeyCommand::Nothing);
    assert_eq!(key_command(&text_key("rs"), false, false), KeyCommand::Nothing);
    assert_eq!(key_command(&text_key(""), false, false), KeyCommand::Nothing);
}

#[test]
fn each_tool_shows_its_cursor() {
    assert_eq!(tool_cursor(Tool::Pan, false), CursorShape::Grab);
    assert_eq!(tool_cursor(Tool::Pan, true), CursorShape::Grabbing);
    assert_eq!(tool_cursor(Tool::ZoomIn, true), CursorShape::ZoomIn);
    assert_eq!(tool_cursor(Tool::ZoomOut, false), CursorShape::ZoomOut);
    assert_eq!(tool_cursor(Tool::Attract, false), CursorShape::Crosshair);
    assert_eq!(tool_cursor(Tool::Repel, true), CursorShape::Crosshair);
    assert_eq!(tool_cursor(Tool::Spawn, false), CursorShape::Crosshair);
}
