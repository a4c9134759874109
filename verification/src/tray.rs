//! The notification-area icon: its tooltip text and how its window answers
//! messages.
use vstd::prelude::*;

verus! {

pub const TRAY_ID: u32 = 1;

/// `WM_APP + 1`, the message the tray icon sends its window.
pub const TRAY_CALLBACK: u32 = 0x8001;

pub const WM_DESTROY: u32 = 0x0002;

pub const WM_CONTEXTMENU: u32 = 0x007b;

pub const WM_RBUTTONUP: u32 = 0x0205;

pub const EXIT_MENU_ID: usize = 1001;

/// How the tray window answers a message.
#[derive(Clone, Copy, Debug, PartialEq, Eq, Structural)]
pub enum TrayAction {
    /// Show the context menu, then answer 0.
    ShowMenu,
    /// Answer 0.
    Handled,
    /// Remove the tray icon, then answer 0.
    RemoveIcon,
    /// Leave the message to `DefWindowProcW`.
    Default,
}

/// A right click on the icon shows the menu; other icon events are
/// swallowed; the window's destruction removes the icon.
pub open spec fn spec_tray_action(msg: u32, wparam: usize, lparam: isize) -> TrayAction {
    if msg == TRAY_CALLBACK && wparam as u32 == TRAY_ID {
        let event = lparam as u32;
        if event == WM_CONTEXTMENU || event == WM_RBUTTONUP {
            TrayAction::ShowMenu
        } else {
            TrayAction::Handled
        }
    } else if msg == WM_DESTROY {
        TrayAction::RemoveIcon
    } else {
        TrayAction::Default
    }
}

pub fn tray_action(msg: u32, wparam: usize, lparam: isize) -> (a: TrayAction)
    ensures
        a == spec_tray_action(msg, wparam, lparam),
{
    if msg == TRAY_CALLBACK && wparam as u32 == TRAY_ID {
        let event = lparam as u32;
        if event == WM_CONTEXTMENU || event == WM_RBUTTONUP {
            TrayAction::ShowMenu
        } else {
            TrayAction::Handled
        }
    } else if msg == WM_DESTROY {
        TrayAction::RemoveIcon
    } else {
        TrayAction::Default
    }
}

/// The menu command `Exit` quits the app.
pub fn is_exit_command(command: i32) -> (r: bool)
    ensures
        r == (command as usize == EXIT_MENU_ID),
{
    command as usize == EXIT_MENU_ID
}

/// The UTF-16 code units of one character.
pub open spec fn utf16_of_char(c: char) -> Seq<u16> {
    let u = c as u32;
    if u < 0x10000 {
        seq![u as u16]
    } else {
        let v = (u - 0x10000) as u32;
        seq![(0xd800 + v / 0x400) as u16, (0xdc00 + v % 0x400) as u16]
    }
}

/// The UTF-16 encoding of a text (`str::encode_utf16`).
pub open spec fn utf16(s: Seq<char>) -> Seq<u16>
    decreases s.len(),
{
    if s.len() == 0 {
        Seq::empty()
    } else {
        utf16(s.drop_last()) + utf16_of_char(s.last())
    }
}

/// Encodes a text in UTF-16.
pub fn encode_utf16(text: &str) -> (r: Vec<u16>)
    ensures
        r@ == utf16(text@),
{
    let chars = crate::text::chars_of(text);
    let mut out: Vec<u16> = Vec::new();
    let mut i: usize = 0;
    while i < chars.len()
        invariant
            chars@ == text@,
            i <= chars@.len(),
            out@ == utf16(text@.take(i as int)),
        decreases chars.len() - i,
    {
        let c = chars[i];
        let u = c as u32;
        proof {
            assert(text@.take(i + 1).drop_last() =~= text@.take(i as int));
            assert(text@.take(i + 1).last() == c);
            vstd::utf8::char_is_scalar(c);
        }
        let ghost before = out@;
        if u < 0x10000 {
            out.push(u as u16);
        } else {
            let v = u - 0x10000;
            out.push((0xd800 + v / 0x400) as u16);
            out.push((0xdc00 + v % 0x400) as u16);
        }
        assert(out@ =~= before + utf16_of_char(c));
        i = i + 1;
    }
    assert(text@.take(chars@.len() as int) =~= text@);
    out
}

/// Writes the tooltip: the text's UTF-16 units from the start of the buffer,
/// as many as fit; the rest of the buffer is left as it was.
pub fn write_tip(target: &mut [u16; 128], text: &str)
    ensures
        forall|i: int|
            0 <= i < 128 ==> #[trigger] final(target)@[i] == (if i < utf16(text@).len() {
                utf16(text@)[i]
            } else {
                old(target)@[i]
            }),
{
    let units = encode_utf16(text);
    let mut i: usize = 0;
    while i < 128 && i < units.len()
        invariant
            units@ == utf16(text@),
            i <= 128,
            i <= units@.len(),
            forall|k: int|
                0 <= k < 128 ==> #[trigger] target@[k] == (if k < i {
                    units@[k]
                } else {
                    old(target)@[k]
                }),
        decreases 128 - i,
    {
        target[i] = units[i];
        i = i + 1;
    }
    assert forall|k: int| 0 <= k < 128 implies #[trigger] target@[k] == (if k < utf16(text@).len() {
        utf16(text@)[k]
    } else {
        old(target)@[k]
    }) by {
        if k < i {
            assert(target@[k] == units@[k]);
        }
    }
}

} // verus!
