use zellij_server::mouse_positioner::hammerspoon_mouse_position_script;

#[test]
fn hammerspoon_mouse_position_script_skips_zero_delta() {
    assert_eq!(hammerspoon_mouse_position_script(0, 0), None);
}

#[test]
fn hammerspoon_mouse_position_script_encodes_relative_delta() {
    assert_eq!(
        hammerspoon_mouse_position_script(-120, 40).as_deref(),
        Some("mouseMovement.moveRelative(-120, 40)")
    );
}

#[test]
fn hammerspoon_script_moves_along_one_axis() {
    assert_eq!(
        hammerspoon_mouse_position_script(0, -7).as_deref(),
        Some("mouseMovement.moveRelative(0, -7)")
    );
    assert_eq!(
        hammerspoon_mouse_position_script(isize::MIN, 0).as_deref(),
        Some(format!("mouseMovement.moveRelative({}, 0)", isize::MIN).as_str())
    );
}
