//! The input bridge: what the local machine is asked to do for each input
//! event that a browser sends.
//!
//! Nothing here touches the operating system. An event is turned into the
//! list of primitive actions that replay it, in the order in which they
//! must be performed; whoever owns the input handle performs them.

use vstd::prelude::*;
use vstd::string::StrSliceExecFns;

verus! {

/// The modifier keys held down with a key event.
#[derive(Debug, Clone, Copy, PartialEq, Eq)]
pub struct Modifiers {
    pub shift: bool,
    pub ctrl: bool,
    pub alt: bool,
    pub meta: bool,
}

impl Modifiers {
    /// Whether any modifier is held.
    pub open spec fn spec_any(&self) -> bool {
        self.shift || self.ctrl || self.alt || self.meta
    }

    /// Whether any modifier is held.
    #[verifier::when_used_as_spec(spec_any)]
    pub fn any(&self) -> (held: bool)
        ensures
            held == self.spec_any(),
    {
        self.shift || self.ctrl || self.alt || self.meta
    }
}

impl Default for Modifiers {
    /// No modifier held.
    fn default() -> (m: Self)
        ensures
            m == (Modifiers { shift: false, ctrl: false, alt: false, meta: false }),
    {
        Modifiers { shift: false, ctrl: false, alt: false, meta: false }
    }
}

/// An input event as the browser reports it. Coordinates are absolute
/// screen positions. A scroll carries the wheel deltas in whole units, the
/// fraction dropped: the notches of a delta depend on no more than that.
/// A positive `dy` scrolls down.
#[derive(Debug, Clone, PartialEq, Eq)]
pub enum InputEvent {
    MouseDown { button: u8, x: i32, y: i32 },
    MouseUp { button: u8, x: i32, y: i32 },
    MouseMove { x: i32, y: i32 },
    Scroll { dx: i64, dy: i64 },
    KeyDown { key: String, code: String, modifiers: Modifiers },
    KeyUp { key: String, code: String, modifiers: Modifiers },
}

/// A mouse button.
#[derive(Debug, Clone, Copy, PartialEq, Eq)]
pub enum Button {
    Left,
    Middle,
    Right,
}

/// What is done to a button or key.
#[derive(Debug, Clone, Copy, PartialEq, Eq)]
pub enum Direction {
    Press,
    Release,
    Click,
}

/// A key of the keyboard: a named key, a modifier, or the key that
/// produces a given character.
#[derive(Debug, Clone, Copy, PartialEq, Eq)]
pub enum Key {
    Return,
    Escape,
    Backspace,
    Tab,
    Space,
    UpArrow,
    DownArrow,
    LeftArrow,
    RightArrow,
    Delete,
    Home,
    End,
    PageUp,
    PageDown,
    F1,
    F2,
    F3,
    F4,
    F5,
    F6,
    F7,
    F8,
    F9,
    F10,
    F11,
    F12,
    CapsLock,
    Meta,
    Control,
    Alt,
    Shift,
    Unicode(char),
}

/// One primitive request to the local input system.
#[derive(Debug, Clone, PartialEq, Eq)]
pub enum InputAction {
    /// Move the pointer to an absolute position.
    MoveMouse { x: i32, y: i32 },
    /// Press or release a mouse button.
    Button { button: Button, direction: Direction },
    /// Scroll vertically by a number of notches.
    Scroll { notches: i32 },
    /// Enter a piece of text.
    Text { text: String },
    /// Press, release or click a key.
    Key { key: Key, direction: Direction },
}

/// The button a wire code stands for. Codes that name no button stand for
/// the left one.
pub open spec fn button_of(code: u8) -> Button {
    if code == 1 {
        Button::Middle
    } else if code == 2 {
        Button::Right
    } else {
        Button::Left
    }
}

/// The button a wire code stands for.
pub fn button_from_code(code: u8) -> (button: Button)
    ensures
        button == button_of(code),
        code == 0 ==> button == Button::Left,
        code > 2 ==> button == Button::Left,
{
    if code == 1 {
        Button::Middle
    } else if code == 2 {
        Button::Right
    } else {
        Button::Left
    }
}

/// A tenth of a wheel delta with the sign turned, rounded to the nearest
/// whole number, halves away from zero.
pub open spec fn rounded_tenth(dy: int) -> int {
    if dy >= 0 {
        -((dy + 5) / 10)
    } else {
        (5 - dy) / 10
    }
}

/// The notches a wheel delta scrolls by: the rounded tenth, kept within
/// the range of the notch count.
pub open spec fn scroll_notches(dy: int) -> int {
    let n = rounded_tenth(dy);
    if n < i32::MIN {
        i32::MIN as int
    } else if n > i32::MAX {
        i32::MAX as int
    } else {
        n
    }
}

/// The notches a wheel delta scrolls by.
pub fn notches_for(dy: i64) -> (notches: i32)
    ensures
        notches == scroll_notches(dy as int),
        -5 < dy < 5 <==> notches == 0,
{
    if dy >= 21_474_836_475 {
        i32::MIN
    } else if dy <= -21_474_836_465 {
        i32::MAX
    } else if dy >= 0 {
        let tenth: u64 = ((dy + 5) as u64) / 10;
        -(tenth as i64) as i32
    } else {
        let tenth: u64 = ((5 - dy) as u64) / 10;
        tenth as i32
    }
}

/// Whether a character is printable: every character but the control
/// characters U+0000 to U+001F and U+007F to U+009F.
pub open spec fn is_printable(c: char) -> bool {
    let code = c as u32;
    !(code <= 0x1f || (0x7f <= code && code <= 0x9f))
}

/// Tests `is_printable`.
pub fn check_printable(c: char) -> (printable: bool)
    ensures
        printable == is_printable(c),
{
    let code: u32 = c as u32;
    !(code <= 0x1f || (0x7f <= code && code <= 0x9f))
}

/// The named key that a key string stands for, else the key of the
/// string's only character, else nothing.
pub open spec fn key_of(key: Seq<char>) -> Option<Key> {
    if key == "Enter"@ {
        Some(Key::Return)
    } else if key == "Escape"@ {
        Some(Key::Escape)
    } else if key == "Backspace"@ {
        Some(Key::Backspace)
    } else if key == "Tab"@ {
        Some(Key::Tab)
    } else if key == " "@ {
        Some(Key::Space)
    } else if key == "ArrowUp"@ {
        Some(Key::UpArrow)
    } else if key == "ArrowDown"@ {
        Some(Key::DownArrow)
    } else if key == "ArrowLeft"@ {
        Some(Key::LeftArrow)
    } else if key == "ArrowRight"@ {
        Some(Key::RightArrow)
    } else if key == "Delete"@ {
        Some(Key::Delete)
    } else if key == "Home"@ {
        Some(Key::Home)
    } else if key == "End"@ {
        Some(Key::End)
    } else if key == "PageUp"@ {
        Some(Key::PageUp)
    } else if key == "PageDown"@ {
        Some(Key::PageDown)
    } else if key == "F1"@ {
        Some(Key::F1)
    } else if key == "F2"@ {
        Some(Key::F2)
    } else if key == "F3"@ {
        Some(Key::F3)
    } else if key == "F4"@ {
        Some(Key::F4)
    } else if key == "F5"@ {
        Some(Key::F5)
    } else if key == "F6"@ {
        Some(Key::F6)
    } else if key == "F7"@ {
        Some(Key::F7)
    } else if key == "F8"@ {
        Some(Key::F8)
    } else if key == "F9"@ {
        Some(Key::F9)
    } else if key == "F10"@ {
        Some(Key::F10)
    } else if key == "F11"@ {
        Some(Key::F11)
    } else if key == "F12"@ {
        Some(Key::F12)
    } else if key == "CapsLock"@ {
        Some(Key::CapsLock)
    } else if key.len() == 1 {
        Some(Key::Unicode(key[0]))
    } else {
        None
    }
}

/// Whether two strings hold the same characters.
pub fn same_text(a: &str, b: &str) -> (same: bool)
    ensures
        same == (a@ == b@),
{
    let len: usize = a.unicode_len();
    if len != b.unicode_len() {
        return false;
    }
    let mut i: usize = 0;
    while i < len
        invariant
            i <= len,
            len == a@.len(),
            len == b@.len(),
            forall|k: int| 0 <= k < i ==> a@[k] == b@[k],
        decreases len - i,
    {
        if a.get_char(i) != b.get_char(i) {
            return false;
        }
        i += 1;
    }
    assert(a@ =~= b@);
    true
}

/// Looks a key string up: first in the table of named keys, then as a
/// single character.
pub fn map_key(key: &str) -> (found: Option<Key>)
    ensures
        found == key_of(key@),
{
    if same_text(key, "Enter") {
        Some(Key::Return)
    } else if same_text(key, "Escape") {
        Some(Key::Escape)
    } else if same_text(key, "Backspace") {
        Some(Key::Backspace)
    } else if same_text(key, "Tab") {
        Some(Key::Tab)
    } else if same_text(key, " ") {
        Some(Key::Space)
    } else if same_text(key, "ArrowUp") {
        Some(Key::UpArrow)
    } else if same_text(key, "ArrowDown") {
        Some(Key::DownArrow)
    } else if same_text(key, "ArrowLeft") {
        Some(Key::LeftArrow)
    } else if same_text(key, "ArrowRight") {
        Some(Key::RightArrow)
    } else if same_text(key, "Delete") {
        Some(Key::Delete)
    } else if same_text(key, "Home") {
        Some(Key::Home)
    } else if same_text(key, "End") {
        Some(Key::End)
    } else if same_text(key, "PageUp") {
        Some(Key::PageUp)
    } else if same_text(key, "PageDown") {
        Some(Key::PageDown)
    } else if same_text(key, "F1") {
        Some(Key::F1)
    } else if same_text(key, "F2") {
        Some(Key::F2)
    } else if same_text(key, "F3") {
        Some(Key::F3)
    } else if same_text(key, "F4") {
        Some(Key::F4)
    } else if same_text(key, "F5") {
        Some(Key::F5)
    } else if same_text(key, "F6") {
        Some(Key::F6)
    } else if same_text(key, "F7") {
        Some(Key::F7)
    } else if same_text(key, "F8") {
        Some(Key::F8)
    } else if same_text(key, "F9") {
        Some(Key::F9)
    } else if same_text(key, "F10") {
        Some(Key::F10)
    } else if same_text(key, "F11") {
        Some(Key::F11)
    } else if same_text(key, "F12") {
        Some(Key::F12)
    } else if same_text(key, "CapsLock") {
        Some(Key::CapsLock)
    } else if key.unicode_len() == 1 {
        Some(Key::Unicode(key.get_char(0)))
    } else {
        None
    }
}

/// Whether a key press is entered as text: the key string is one printable
/// character and no modifier is held.
pub open spec fn is_text_key(key: Seq<char>, modifiers: Modifiers) -> bool {
    key.len() == 1 && is_printable(key[0]) && !modifiers.spec_any()
}

/// One key action.
pub open spec fn key_action(key: Key, direction: Direction) -> InputAction {
    InputAction::Key { key, direction }
}

/// The presses that open a chord: meta, control, alt, shift, each only if
/// it is held.
pub open spec fn modifier_presses(m: Modifiers) -> Seq<InputAction> {
    (if m.meta {
        seq![key_action(Key::Meta, Direction::Press)]
    } else {
        seq![]
    }) + (if m.ctrl {
        seq![key_action(Key::Control, Direction::Press)]
    } else {
        seq![]
    }) + (if m.alt {
        seq![key_action(Key::Alt, Direction::Press)]
    } else {
        seq![]
    }) + (if m.shift {
        seq![key_action(Key::Shift, Direction::Press)]
    } else {
        seq![]
    })
}

/// The releases that close a chord: the held modifiers in the reverse of
/// the order in which they were pressed.
pub open spec fn modifier_releases(m: Modifiers) -> Seq<InputAction> {
    (if m.shift {
        seq![key_action(Key::Shift, Direction::Release)]
    } else {
        seq![]
    }) + (if m.alt {
        seq![key_action(Key::Alt, Direction::Release)]
    } else {
        seq![]
    }) + (if m.ctrl {
        seq![key_action(Key::Control, Direction::Release)]
    } else {
        seq![]
    }) + (if m.meta {
        seq![key_action(Key::Meta, Direction::Release)]
    } else {
        seq![]
    })
}

/// A chord: the held modifiers go down, the key is clicked once, the
/// modifiers come up again.
pub open spec fn chord(key: Key, m: Modifiers) -> Seq<InputAction> {
    modifier_presses(m) + seq![key_action(key, Direction::Click)] + modifier_releases(m)
}

/// What a key press asks for.
pub open spec fn key_down_actions(key: String, m: Modifiers) -> Seq<InputAction> {
    if is_text_key(key@, m) {
        seq![InputAction::Text { text: key }]
    } else {
        match key_of(key@) {
            Some(k) => chord(k, m),
            None => seq![],
        }
    }
}

/// What an event asks for, in the order in which it is to be done.
pub open spec fn event_actions(event: InputEvent) -> Seq<InputAction> {
    match event {
        InputEvent::MouseMove { x, y } => seq![InputAction::MoveMouse { x, y }],
        InputEvent::MouseDown { button, x, y } => seq![
            InputAction::MoveMouse { x, y },
            InputAction::Button { button: button_of(button), direction: Direction::Press },
        ],
        InputEvent::MouseUp { button, x, y } => seq![
            InputAction::MoveMouse { x, y },
            InputAction::Button { button: button_of(button), direction: Direction::Release },
        ],
        InputEvent::Scroll { dx, dy } => if scroll_notches(dy as int) == 0 {
            seq![]
        } else {
            seq![InputAction::Scroll { notches: scroll_notches(dy as int) as i32 }]
        },
        InputEvent::KeyDown { key, code, modifiers } => key_down_actions(key, modifiers),
        InputEvent::KeyUp { key, code, modifiers } => seq![],
    }
}

/// Builds a chord.
fn chord_for(key: Key, m: Modifiers) -> (out: Vec<InputAction>)
    ensures
        out@ == chord(key, m),
{
    let mut out: Vec<InputAction> = Vec::new();
    if m.meta {
        out.push(InputAction::Key { key: Key::Meta, direction: Direction::Press });
    }
    if m.ctrl {
        out.push(InputAction::Key { key: Key::Control, direction: Direction::Press });
    }
    if m.alt {
        out.push(InputAction::Key { key: Key::Alt, direction: Direction::Press });
    }
    if m.shift {
        out.push(InputAction::Key { key: Key::Shift, direction: Direction::Press });
    }
    assert(out@ =~= modifier_presses(m));
    out.push(InputAction::Key { key, direction: Direction::Click });
    let ghost opened = out@;
    if m.shift {
        out.push(InputAction::Key { key: Key::Shift, direction: Direction::Release });
    }
    if m.alt {
        out.push(InputAction::Key { key: Key::Alt, direction: Direction::Release });
    }
    if m.ctrl {
        out.push(InputAction::Key { key: Key::Control, direction: Direction::Release });
    }
    if m.meta {
        out.push(InputAction::Key { key: Key::Meta, direction: Direction::Release });
    }
    assert(out@ =~= opened + modifier_releases(m));
    out
}

/// Turns an event into the actions that replay it.
///
/// A pointer move is one absolute move. A button event moves the pointer
/// first and then presses or releases. A scroll is vertical, by the
/// rounded tenth of its delta, and asks for nothing where that is zero. A key press is either entered as text or clicked as a chord; a
/// key release asks for nothing, because the click already released the
/// key.
pub fn handle_event(event: &InputEvent) -> (out: Vec<InputAction>)
    ensures
        out@ == event_actions(*event),
{
    let mut out: Vec<InputAction> = Vec::new();
    match event {
        InputEvent::MouseMove { x, y } => {
            out.push(InputAction::MoveMouse { x: *x, y: *y });
        },
        InputEvent::MouseDown { button, x, y } => {
            out.push(InputAction::MoveMouse { x: *x, y: *y });
            out.push(
                InputAction::Button {
                    button: button_from_code(*button),
                    direction: Direction::Press,
                },
            );
        },
        InputEvent::MouseUp { button, x, y } => {
            out.push(InputAction::MoveMouse { x: *x, y: *y });
            out.push(
                InputAction::Button {
                    button: button_from_code(*button),
                    direction: Direction::Release,
                },
            );
        },
        InputEvent::Scroll { dx, dy } => {
            let notches = notches_for(*dy);
            if notches != 0 {
                out.push(InputAction::Scroll { notches });
            }
        },
        InputEvent::KeyDown { key, code, modifiers } => {
            let text: &str = key.as_str();
            if !modifiers.any() && text.unicode_len() == 1 && check_printable(text.get_char(0)) {
                out.push(InputAction::Text { text: key.clone() });
            } else {
                match map_key(text) {
                    Some(k) => {
                        out = chord_for(k, *modifiers);
                    },
                    None => {},
                }
            }
        },
        InputEvent::KeyUp { key, code, modifiers } => {},
    }
    assert(out@ =~= event_actions(*event));
    out
}

/// A printable key pressed and released with no modifier held enters
/// exactly that character, once: the press asks for the text, the release
/// for nothing.
pub proof fn lemma_plain_key_enters_its_character_once(key: String, code: String)
    requires
        key@.len() == 1,
        is_printable(key@[0]),
    ensures
        ({
            let none = Modifiers { shift: false, ctrl: false, alt: false, meta: false };
            event_actions(InputEvent::KeyDown { key, code, modifiers: none }) + event_actions(
                InputEvent::KeyUp { key, code, modifiers: none },
            ) == seq![InputAction::Text { text: key }]
        }),
{
    let none = Modifiers { shift: false, ctrl: false, alt: false, meta: false };
    assert(event_actions(InputEvent::KeyDown { key, code, modifiers: none }) + event_actions(
        InputEvent::KeyUp { key, code, modifiers: none },
    ) =~= seq![InputAction::Text { text: key }]);
}

/// A wheel delta of less than five units either way rounds to zero notches
/// and is dropped.
pub proof fn lemma_small_scroll_is_dropped(dx: i64, dy: i64)
    requires
        -5 < dy < 5,
    ensures
        scroll_notches(dy as int) == 0,
        event_actions(InputEvent::Scroll { dx, dy }) == Seq::<InputAction>::empty(),
{
}

/// A wheel delta of five units or more scrolls, against its sign.
pub proof fn lemma_large_scroll_scrolls(dx: i64, dy: i64)
    requires
        dy <= -5 || dy >= 5,
    ensures
        event_actions(InputEvent::Scroll { dx, dy }) == seq![
            InputAction::Scroll { notches: scroll_notches(dy as int) as i32 },
        ],
        dy >= 5 ==> scroll_notches(dy as int) < 0,
        dy <= -5 ==> scroll_notches(dy as int) > 0,
{
}

/// A button code above two presses and releases the left button, as code
/// zero does.
pub proof fn lemma_unknown_button_is_left(code: u8, x: i32, y: i32)
    requires
        code > 2,
    ensures
        event_actions(InputEvent::MouseDown { button: code, x, y }) == event_actions(
            InputEvent::MouseDown { button: 0, x, y },
        ),
        event_actions(InputEvent::MouseUp { button: code, x, y }) == event_actions(
            InputEvent::MouseUp { button: 0, x, y },
        ),
        event_actions(InputEvent::MouseDown { button: code, x, y })[1] == (InputAction::Button {
            button: Button::Left,
            direction: Direction::Press,
        }),
{
}

} // verus!
