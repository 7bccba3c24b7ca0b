use imgview::input::{actions_for, escape_action, may_copy_name, EscapeAction, Keys};

fn none() -> Keys {
    Keys {
        shift: false,
        ctrl: false,
        o: false,
        c: false,
        s: false,
        r: false,
        f: false,
        arrow_right: false,
        arrow_left: false,
        space: false,
        open_bracket: false,
        close_bracket: false,
        num0: false,
        num1: false,
        plus: false,
        equals: false,
        minus: false,
        f11: false,
        escape: false,
    }
}

#[test]
fn rotate_keys_follow_shift() {
    let a = actions_for(&Keys { r: true, ..none() });
    assert!(a.rotate_cw && !a.rotate_ccw);
    let a = actions_for(&Keys { r: true, shift: true, ..none() });
    assert!(!a.rotate_cw && a.rotate_ccw);
    assert!(actions_for(&Keys { close_bracket: true, ..none() }).rotate_cw);
    assert!(actions_for(&Keys { open_bracket: true, ..none() }).rotate_ccw);
}

#[test]
fn ctrl_shortcuts_need_ctrl() {
    assert!(!actions_for(&Keys { s: true, ..none() }).save);
    assert!(actions_for(&Keys { s: true, ctrl: true, ..none() }).save);
    assert!(actions_for(&Keys { o: true, ctrl: true, ..none() }).open);
    assert!(actions_for(&Keys { c: true, ctrl: true, ..none() }).copy);
    assert!(!actions_for(&Keys { c: true, ..none() }).copy);
}

#[test]
fn navigation_and_speed_keys() {
    assert!(actions_for(&Keys { space: true, ..none() }).next);
    assert!(actions_for(&Keys { arrow_right: true, ..none() }).next);
    assert!(actions_for(&Keys { arrow_left: true, ..none() }).prev);
    assert!(actions_for(&Keys { equals: true, ..none() }).faster);
    assert!(actions_for(&Keys { minus: true, ..none() }).slower);
    assert!(actions_for(&Keys { num0: true, ..none() }).reset_speed);
    assert!(actions_for(&Keys { num1: true, ..none() }).actual_size);
    assert!(actions_for(&Keys { f: true, ..none() }).fit);
    assert!(actions_for(&Keys { f11: true, ..none() }).fullscreen);
    let a = actions_for(&none());
    assert!(!(a.next || a.prev || a.save || a.open || a.copy || a.escape));
}

#[test]
fn escape_leaves_fullscreen_before_quitting() {
    assert!(matches!(escape_action(true), EscapeAction::LeaveFullscreen));
    assert!(matches!(escape_action(false), EscapeAction::Close));
}

#[test]
fn copy_never_clobbers_a_selection() {
    assert!(may_copy_name(true, false));
    assert!(!may_copy_name(true, true));
    assert!(!may_copy_name(false, false));
}
