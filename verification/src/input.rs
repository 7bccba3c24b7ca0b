//! Which keys do what: the keyboard shortcuts of the viewer.
use vstd::prelude::*;

verus! {

/// The keys pressed this frame, and the modifiers held.
pub struct Keys {
    pub shift: bool,
    /// Ctrl, or Command on a Mac.
    pub ctrl: bool,
    pub o: bool,
    pub c: bool,
    pub s: bool,
    pub r: bool,
    pub f: bool,
    pub arrow_right: bool,
    pub arrow_left: bool,
    pub space: bool,
    pub open_bracket: bool,
    pub close_bracket: bool,
    pub num0: bool,
    pub num1: bool,
    pub plus: bool,
    pub equals: bool,
    pub minus: bool,
    pub f11: bool,
    pub escape: bool,
}

/// What the viewer is asked to do this frame.
pub struct Actions {
    pub open: bool,
    pub copy: bool,
    pub next: bool,
    pub prev: bool,
    pub rotate_cw: bool,
    pub rotate_ccw: bool,
    pub save: bool,
    pub fit: bool,
    pub actual_size: bool,
    pub fullscreen: bool,
    pub escape: bool,
    pub faster: bool,
    pub slower: bool,
    pub reset_speed: bool,
}

/// The shortcuts: Ctrl+O open a folder, Ctrl+C copy the file name, Right or
/// Space next, Left previous, R or `]` rotate right, Shift+R or `[` rotate
/// left, Ctrl+S save the rotation, F fit, 1 actual size, F11 fullscreen, Esc
/// leave fullscreen or quit, `+` or `=` faster, `-` slower, 0 normal speed.
pub open spec fn spec_actions(k: Keys) -> Actions {
    Actions {
        open: k.ctrl && k.o,
        copy: k.ctrl && k.c,
        next: k.arrow_right || k.space,
        prev: k.arrow_left,
        rotate_cw: (k.r && !k.shift) || k.close_bracket,
        rotate_ccw: (k.r && k.shift) || k.open_bracket,
        save: k.ctrl && k.s,
        fit: k.f,
        actual_size: k.num1,
        fullscreen: k.f11,
        escape: k.escape,
        faster: k.plus || k.equals,
        slower: k.minus,
        reset_speed: k.num0,
    }
}

pub fn actions_for(k: &Keys) -> (r: Actions)
    ensures
        r == spec_actions(*k),
        r.open == (k.ctrl && k.o),
        r.copy == (k.ctrl && k.c),
        r.next == (k.arrow_right || k.space),
        r.prev == k.arrow_left,
        r.rotate_cw == ((k.r && !k.shift) || k.close_bracket),
        r.rotate_ccw == ((k.r && k.shift) || k.open_bracket),
        r.save == (k.ctrl && k.s),
        r.fit == k.f,
        r.actual_size == k.num1,
        r.fullscreen == k.f11,
        r.escape == k.escape,
        r.faster == (k.plus || k.equals),
        r.slower == k.minus,
        r.reset_speed == k.num0,
{
    Actions {
        open: k.ctrl && k.o,
        copy: k.ctrl && k.c,
        next: k.arrow_right || k.space,
        prev: k.arrow_left,
        rotate_cw: (k.r && !k.shift) || k.close_bracket,
        rotate_ccw: (k.r && k.shift) || k.open_bracket,
        save: k.ctrl && k.s,
        fit: k.f,
        actual_size: k.num1,
        fullscreen: k.f11,
        escape: k.escape,
        faster: k.plus || k.equals,
        slower: k.minus,
        reset_speed: k.num0,
    }
}

/// Each action is asked for by its own shortcut and by no other key: Right or
/// Space alone moves forward and never back, Left alone moves back and never
/// forward; R turns one way only (right without Shift, left with it); without
/// Ctrl nothing is opened, copied or saved; with no key pressed nothing
/// happens.
pub proof fn lemma_shortcuts(k: Keys)
    ensures
        spec_actions(k).next <==> (k.arrow_right || k.space),
        spec_actions(k).prev <==> k.arrow_left,
        spec_actions(k).rotate_cw <==> ((k.r && !k.shift) || k.close_bracket),
        spec_actions(k).rotate_ccw <==> ((k.r && k.shift) || k.open_bracket),
        spec_actions(k).open <==> (k.ctrl && k.o),
        spec_actions(k).copy <==> (k.ctrl && k.c),
        spec_actions(k).save <==> (k.ctrl && k.s),
        spec_actions(k).fit <==> k.f,
        spec_actions(k).actual_size <==> k.num1,
        spec_actions(k).fullscreen <==> k.f11,
        spec_actions(k).escape <==> k.escape,
        spec_actions(k).faster <==> (k.plus || k.equals),
        spec_actions(k).slower <==> k.minus,
        spec_actions(k).reset_speed <==> k.num0,
        !k.arrow_left ==> !spec_actions(k).prev,
        !k.arrow_right && !k.space ==> !spec_actions(k).next,
        !k.open_bracket && !k.close_bracket ==> !(spec_actions(k).rotate_cw
            && spec_actions(k).rotate_ccw),
        !k.ctrl ==> !spec_actions(k).open && !spec_actions(k).copy && !spec_actions(k).save,
{
}

/// What Esc does: leave fullscreen when in it, otherwise close the window.
pub enum EscapeAction {
    LeaveFullscreen,
    Close,
}

pub fn escape_action(is_fullscreen: bool) -> (r: EscapeAction)
    ensures
        is_fullscreen <==> r is LeaveFullscreen,
{
    if is_fullscreen {
        EscapeAction::LeaveFullscreen
    } else {
        EscapeAction::Close
    }
}

/// Whether copying the file name may fill the clipboard: only when there are
/// images and nothing else (such as a selection in the status line) claimed
/// the clipboard this frame.
pub fn may_copy_name(has_images: bool, clipboard_claimed: bool) -> (r: bool)
    ensures
        r == (has_images && !clipboard_claimed),
{
    has_images && !clipboard_claimed
}

} // verus!
