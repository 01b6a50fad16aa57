//! Keyboard identity: logical key names, modifiers and caps lock.
use vstd::prelude::*;

verus! {

/// Whether a key or button went down or came up.
#[derive(Clone, Copy, Debug, PartialEq, Eq, Structural)]
pub enum ButtonState {
    /// It went down.
    Pressed,
    /// It came up.
    Released,
}

/// Modifier keys held in a window.
#[derive(Clone, Copy, Debug, PartialEq, Eq, Structural)]
pub struct Modifiers {
    /// The control key.
    pub control: bool,
    /// The alt or option key.
    pub alt: bool,
    /// The shift key.
    pub shift: bool,
    /// The command, windows or super key.
    pub platform: bool,
    /// The function key.
    pub function: bool,
}

impl Modifiers {
    /// No modifier held.
    pub open spec fn none_spec() -> Modifiers {
        Modifiers { control: false, alt: false, shift: false, platform: false, function: false }
    }
}

impl Default for Modifiers {
    /// No modifier held.
    fn default() -> (r: Self)
        ensures
            r == Modifiers::none_spec(),
    {
        Modifiers { control: false, alt: false, shift: false, platform: false, function: false }
    }
}

/// State of the caps-lock toggle in a window.
#[derive(Clone, Copy, Debug, PartialEq, Eq, Structural)]
pub struct Capslock {
    /// Whether caps lock is on.
    pub on: bool,
}

impl Capslock {
    /// Caps lock off.
    pub open spec fn off_spec() -> Capslock {
        Capslock { on: false }
    }
}

impl Default for Capslock {
    /// Caps lock off.
    fn default() -> (r: Self)
        ensures
            r == Capslock::off_spec(),
    {
        Capslock { on: false }
    }
}

/// The key a layout assigns to a press.
pub enum LogicalKey {
    /// A key that produces text.
    Character(String),
    /// A dead key, with the accent it would combine.
    Dead(Option<char>),
    /// A key the host cannot name.
    Unidentified,
    Alt,
    AltGraph,
    CapsLock,
    Control,
    Fn,
    Shift,
    Super,
    Meta,
    Hyper,
    Enter,
    Tab,
    Space,
    ArrowDown,
    ArrowLeft,
    ArrowRight,
    ArrowUp,
    End,
    Home,
    PageDown,
    PageUp,
    Backspace,
    Delete,
    Insert,
    Escape,
    F1,
    F2,
    F3,
    F4,
    F5,
    F6,
    F7,
    F8,
    F9,
    F10,
    F11,
    F12,
    F13,
    F14,
    F15,
    F16,
    F17,
    F18,
    F19,
    F20,
    F21,
    F22,
    F23,
    F24,
    F25,
    F26,
    F27,
    F28,
    F29,
    F30,
    F31,
    F32,
    F33,
    F34,
    F35,
    /// Any other key, under the name the host prints for it.
    Named(String),
}

/// A character with the ASCII capitals folded to small letters.
pub open spec fn ascii_lower(c: char) -> char {
    if 'A' <= c && c <= 'Z' {
        ((c as u32) + 32) as char
    } else {
        c
    }
}

/// A text with the ASCII capitals folded to small letters.
pub open spec fn ascii_lowercase(text: Seq<char>) -> Seq<char> {
    text.map_values(|c: char| ascii_lower(c))
}

/// `str::to_ascii_lowercase` returns a copy in which the letters `A` to `Z` are
/// replaced by `a` to `z` and every other character is kept.
pub assume_specification[ str::to_ascii_lowercase ](s: &str) -> (r: String)
    ensures
        r@ == ascii_lowercase(s@),
;

/// The name under which key bindings know a key, or `None` for a key that has
/// none.
pub open spec fn key_name(key: LogicalKey) -> Option<Seq<char>> {
    match key {
        LogicalKey::Character(text) => Some(ascii_lowercase(text@)),
        LogicalKey::Dead(Some(accent)) => Some(seq![accent]),
        LogicalKey::Dead(None) => None,
        LogicalKey::Unidentified => None,
        LogicalKey::Alt => Some("alt"@),
        LogicalKey::AltGraph => Some("altgraph"@),
        LogicalKey::CapsLock => Some("capslock"@),
        LogicalKey::Control => Some("control"@),
        LogicalKey::Fn => Some("fn"@),
        LogicalKey::Shift => Some("shift"@),
        LogicalKey::Super => Some("super"@),
        LogicalKey::Meta => Some("meta"@),
        LogicalKey::Hyper => Some("hyper"@),
        LogicalKey::Enter => Some("enter"@),
        LogicalKey::Tab => Some("tab"@),
        LogicalKey::Space => Some("space"@),
        LogicalKey::ArrowDown => Some("down"@),
        LogicalKey::ArrowLeft => Some("left"@),
        LogicalKey::ArrowRight => Some("right"@),
        LogicalKey::ArrowUp => Some("up"@),
        LogicalKey::End => Some("end"@),
        LogicalKey::Home => Some("home"@),
        LogicalKey::PageDown => Some("pagedown"@),
        LogicalKey::PageUp => Some("pageup"@),
        LogicalKey::Backspace => Some("backspace"@),
        LogicalKey::Delete => Some("delete"@),
        LogicalKey::Insert => Some("insert"@),
        LogicalKey::Escape => Some("escape"@),
        LogicalKey::F1 => Some("f1"@),
        LogicalKey::F2 => Some("f2"@),
        LogicalKey::F3 => Some("f3"@),
        LogicalKey::F4 => Some("f4"@),
        LogicalKey::F5 => Some("f5"@),
        LogicalKey::F6 => Some("f6"@),
        LogicalKey::F7 => Some("f7"@),
        LogicalKey::F8 => Some("f8"@),
        LogicalKey::F9 => Some("f9"@),
        LogicalKey::F10 => Some("f10"@),
        LogicalKey::F11 => Some("f11"@),
        LogicalKey::F12 => Some("f12"@),
        LogicalKey::F13 => Some("f13"@),
        LogicalKey::F14 => Some("f14"@),
        LogicalKey::F15 => Some("f15"@),
        LogicalKey::F16 => Some("f16"@),
        LogicalKey::F17 => Some("f17"@),
        LogicalKey::F18 => Some("f18"@),
        LogicalKey::F19 => Some("f19"@),
        LogicalKey::F20 => Some("f20"@),
        LogicalKey::F21 => Some("f21"@),
        LogicalKey::F22 => Some("f22"@),
        LogicalKey::F23 => Some("f23"@),
        LogicalKey::F24 => Some("f24"@),
        LogicalKey::F25 => Some("f25"@),
        LogicalKey::F26 => Some("f26"@),
        LogicalKey::F27 => Some("f27"@),
        LogicalKey::F28 => Some("f28"@),
        LogicalKey::F29 => Some("f29"@),
        LogicalKey::F30 => Some("f30"@),
        LogicalKey::F31 => Some("f31"@),
        LogicalKey::F32 => Some("f32"@),
        LogicalKey::F33 => Some("f33"@),
        LogicalKey::F34 => Some("f34"@),
        LogicalKey::F35 => Some("f35"@),
        LogicalKey::Named(name) => Some(ascii_lowercase(name@)),
    }
}

/// Maps a logical key to the name under which key bindings know it.
pub fn map_logical_key(key: &LogicalKey) -> (r: Option<String>)
    ensures
        match key_name(*key) {
            None => r is None,
            Some(name) => r matches Some(s) && s@ == name,
        },
{
    let name: &str = match key {
        LogicalKey::Character(text) => return Some(text.as_str().to_ascii_lowercase()),
        LogicalKey::Dead(Some(accent)) => return Some(char_to_string(*accent)),
        LogicalKey::Dead(None) => return None,
        LogicalKey::Unidentified => return None,
        LogicalKey::Alt => "alt",
        LogicalKey::AltGraph => "altgraph",
        LogicalKey::CapsLock => "capslock",
        LogicalKey::Control => "control",
        LogicalKey::Fn => "fn",
        LogicalKey::Shift => "shift",
        LogicalKey::Super => "super",
        LogicalKey::Meta => "meta",
        LogicalKey::Hyper => "hyper",
        LogicalKey::Enter => "enter",
        LogicalKey::Tab => "tab",
        LogicalKey::Space => "space",
        LogicalKey::ArrowDown => "down",
        LogicalKey::ArrowLeft => "left",
        LogicalKey::ArrowRight => "right",
        LogicalKey::ArrowUp => "up",
        LogicalKey::End => "end",
        LogicalKey::Home => "home",
        LogicalKey::PageDown => "pagedown",
        LogicalKey::PageUp => "pageup",
        LogicalKey::Backspace => "backspace",
        LogicalKey::Delete => "delete",
        LogicalKey::Insert => "insert",
        LogicalKey::Escape => "escape",
        LogicalKey::F1 => "f1",
        LogicalKey::F2 => "f2",
        LogicalKey::F3 => "f3",
        LogicalKey::F4 => "f4",
        LogicalKey::F5 => "f5",
        LogicalKey::F6 => "f6",
        LogicalKey::F7 => "f7",
        LogicalKey::F8 => "f8",
        LogicalKey::F9 => "f9",
        LogicalKey::F10 => "f10",
        LogicalKey::F11 => "f11",
        LogicalKey::F12 => "f12",
        LogicalKey::F13 => "f13",
        LogicalKey::F14 => "f14",
        LogicalKey::F15 => "f15",
        LogicalKey::F16 => "f16",
        LogicalKey::F17 => "f17",
        LogicalKey::F18 => "f18",
        LogicalKey::F19 => "f19",
        LogicalKey::F20 => "f20",
        LogicalKey::F21 => "f21",
        LogicalKey::F22 => "f22",
        LogicalKey::F23 => "f23",
        LogicalKey::F24 => "f24",
        LogicalKey::F25 => "f25",
        LogicalKey::F26 => "f26",
        LogicalKey::F27 => "f27",
        LogicalKey::F28 => "f28",
        LogicalKey::F29 => "f29",
        LogicalKey::F30 => "f30",
        LogicalKey::F31 => "f31",
        LogicalKey::F32 => "f32",
        LogicalKey::F33 => "f33",
        LogicalKey::F34 => "f34",
        LogicalKey::F35 => "f35",
        LogicalKey::Named(name) => return Some(name.as_str().to_ascii_lowercase()),
    };
    Some(name.to_owned())
}

/// `char::to_string` writes the one character.
#[verifier::external_body]
fn char_to_string(c: char) -> (r: String)
    ensures
        r@ == seq![c],
{
    c.to_string()
}

/// Whether a key changes the modifier or caps-lock state.
pub open spec fn is_modifier_key(key: LogicalKey) -> bool {
    match key {
        LogicalKey::Alt
        | LogicalKey::AltGraph
        | LogicalKey::Control
        | LogicalKey::Shift
        | LogicalKey::Super
        | LogicalKey::Meta
        | LogicalKey::Hyper
        | LogicalKey::Fn
        | LogicalKey::CapsLock => true,
        _ => false,
    }
}

/// The modifiers after a key went down or came up.
pub open spec fn modifiers_after(key: LogicalKey, state: ButtonState, before: Modifiers) -> Modifiers {
    let held = state == ButtonState::Pressed;
    match key {
        LogicalKey::Alt => Modifiers { alt: held, ..before },
        LogicalKey::AltGraph => Modifiers { alt: held, control: held, ..before },
        LogicalKey::Control => Modifiers { control: held, ..before },
        LogicalKey::Shift => Modifiers { shift: held, ..before },
        LogicalKey::Super | LogicalKey::Meta | LogicalKey::Hyper => Modifiers {
            platform: held,
            ..before
        },
        LogicalKey::Fn => Modifiers { function: held, ..before },
        _ => before,
    }
}

/// The caps-lock state after a key went down or came up: a press of the
/// caps-lock key toggles it.
pub open spec fn capslock_after(key: LogicalKey, state: ButtonState, before: Capslock) -> Capslock {
    if key is CapsLock && state == ButtonState::Pressed {
        Capslock { on: !before.on }
    } else {
        before
    }
}

/// Tracks a key in the modifier and caps-lock state, and reports whether the key
/// was one of those it tracks.
pub fn update_modifier_state(
    key: &LogicalKey,
    state: ButtonState,
    modifiers: &mut Modifiers,
    capslock: &mut Capslock,
) -> (r: bool)
    ensures
        r == is_modifier_key(*key),
        *final(modifiers) == modifiers_after(*key, state, *old(modifiers)),
        *final(capslock) == capslock_after(*key, state, *old(capslock)),
{
    let pressed: bool = match state {
        ButtonState::Pressed => true,
        ButtonState::Released => false,
    };
    match key {
        LogicalKey::Alt => {
            modifiers.alt = pressed;
        },
        LogicalKey::AltGraph => {
            modifiers.alt = pressed;
            modifiers.control = pressed;
        },
        LogicalKey::Control => {
            modifiers.control = pressed;
        },
        LogicalKey::Shift => {
            modifiers.shift = pressed;
        },
        LogicalKey::Super => {
            modifiers.platform = pressed;
        },
        LogicalKey::Meta => {
            modifiers.platform = pressed;
        },
        LogicalKey::Hyper => {
            modifiers.platform = pressed;
        },
        LogicalKey::Fn => {
            modifiers.function = pressed;
        },
        LogicalKey::CapsLock => {
            if pressed {
                capslock.on = !capslock.on;
            }
        },
        _ => {
            return false;
        },
    }
    true
}

/// Pressing and then releasing a modifier leaves exactly the modifiers that were
/// held without it.
pub proof fn law_release_clears_modifier(key: LogicalKey, before: Modifiers)
    ensures
        modifiers_after(
            key,
            ButtonState::Released,
            modifiers_after(key, ButtonState::Pressed, before),
        ) == modifiers_after(key, ButtonState::Released, before),
{
}

/// Caps lock changes on each press and never on a release, so two presses restore
/// it.
pub proof fn law_capslock_toggles_on_press(before: Capslock)
    ensures
        capslock_after(LogicalKey::CapsLock, ButtonState::Released, before) == before,
        capslock_after(LogicalKey::CapsLock, ButtonState::Pressed, before).on == !before.on,
        capslock_after(
            LogicalKey::CapsLock,
            ButtonState::Pressed,
            capslock_after(LogicalKey::CapsLock, ButtonState::Pressed, before),
        ) == before,
{
}

/// A key that is not tracked changes neither modifiers nor caps lock.
pub proof fn law_other_keys_change_nothing(
    key: LogicalKey,
    state: ButtonState,
    modifiers: Modifiers,
    capslock: Capslock,
)
    requires
        !is_modifier_key(key),
    ensures
        modifiers_after(key, state, modifiers) == modifiers,
        capslock_after(key, state, capslock) == capslock,
{
}

/// Each modifier flag follows its own keys and no others: control follows Control and
/// AltGraph, alt follows Alt and AltGraph, shift follows Shift, platform follows Super,
/// Meta and Hyper, and function follows Fn. A press sets the flag, a release clears it.
pub proof fn law_modifier_flags_follow_their_keys(
    key: LogicalKey,
    state: ButtonState,
    before: Modifiers,
)
    ensures
        ({
            let after = modifiers_after(key, state, before);
            &&& after.control <==> if key is Control || key is AltGraph {
                state is Pressed
            } else {
                before.control
            }
            &&& after.alt <==> if key is Alt || key is AltGraph {
                state is Pressed
            } else {
                before.alt
            }
            &&& after.shift <==> if key is Shift {
                state is Pressed
            } else {
                before.shift
            }
            &&& after.platform <==> if key is Super || key is Meta || key is Hyper {
                state is Pressed
            } else {
                before.platform
            }
            &&& after.function <==> if key is Fn {
                state is Pressed
            } else {
                before.function
            }
        }),
{
}

/// The keys that are tracked are exactly those that can change something: the
/// modifiers or the caps lock.
pub proof fn law_tracked_keys_change_something(key: LogicalKey)
    ensures
        is_modifier_key(key) <==> exists|
            state: ButtonState,
            modifiers: Modifiers,
            capslock: Capslock,
        |
            #![trigger modifiers_after(key, state, modifiers), capslock_after(key, state, capslock)]
            modifiers_after(key, state, modifiers) != modifiers || capslock_after(
                key,
                state,
                capslock,
            ) != capslock,
        is_modifier_key(key) ==> key_name(key) is Some,
{
    let none = Modifiers::none_spec();
    let off = Capslock::off_spec();
    let held = modifiers_after(key, ButtonState::Pressed, none);
    let locked = capslock_after(key, ButtonState::Pressed, off);
    if is_modifier_key(key) {
        if key is CapsLock {
            assert(locked.on);
        } else {
            assert(held.control || held.alt || held.shift || held.platform || held.function);
        }
        assert(held != none || locked != off);
    }
}

/// Caps lock toggles on a press of its own key and on nothing else, and no key that
/// toggles it is a modifier.
pub proof fn law_only_capslock_toggles_capslock(
    key: LogicalKey,
    state: ButtonState,
    modifiers: Modifiers,
    capslock: Capslock,
)
    ensures
        capslock_after(key, state, capslock).on != capslock.on <==> key is CapsLock
            && state is Pressed,
        capslock_after(key, state, capslock).on != capslock.on ==> modifiers_after(
            key,
            state,
            modifiers,
        ) == modifiers,
{
}

/// Folding keeps the length of a text and every character but the capitals `A` to
/// `Z`, which become the small letters at the same place in the alphabet; so nothing
/// is left to fold.
pub proof fn law_lowercase_folds_capitals(text: Seq<char>, i: int)
    requires
        0 <= i < text.len(),
    ensures
        ascii_lowercase(text).len() == text.len(),
        65 <= text[i] as u32 <= 90 ==> ascii_lowercase(text)[i] as u32 == text[i] as u32 + 32,
        !(65 <= text[i] as u32 <= 90) ==> ascii_lowercase(text)[i] == text[i],
        !(65 <= ascii_lowercase(text)[i] as u32 <= 90),
        ascii_lowercase(ascii_lowercase(text)) == ascii_lowercase(text),
{
    let folded = ascii_lowercase(text);
    assert forall|k: int| 0 <= k < folded.len() implies ascii_lower(#[trigger] folded[k])
        == folded[k] by {
        assert(folded[k] == ascii_lower(text[k]));
    }
    assert(ascii_lowercase(folded) =~= folded);
}

/// The place of a function key in its row, from one.
pub open spec fn function_key_number(key: LogicalKey) -> Option<nat> {
    match key {
        LogicalKey::F1 => Some(1),
        LogicalKey::F2 => Some(2),
        LogicalKey::F3 => Some(3),
        LogicalKey::F4 => Some(4),
        LogicalKey::F5 => Some(5),
        LogicalKey::F6 => Some(6),
        LogicalKey::F7 => Some(7),
        LogicalKey::F8 => Some(8),
        LogicalKey::F9 => Some(9),
        LogicalKey::F10 => Some(10),
        LogicalKey::F11 => Some(11),
        LogicalKey::F12 => Some(12),
        LogicalKey::F13 => Some(13),
        LogicalKey::F14 => Some(14),
        LogicalKey::F15 => Some(15),
        LogicalKey::F16 => Some(16),
        LogicalKey::F17 => Some(17),
        LogicalKey::F18 => Some(18),
        LogicalKey::F19 => Some(19),
        LogicalKey::F20 => Some(20),
        LogicalKey::F21 => Some(21),
        LogicalKey::F22 => Some(22),
        LogicalKey::F23 => Some(23),
        LogicalKey::F24 => Some(24),
        LogicalKey::F25 => Some(25),
        LogicalKey::F26 => Some(26),
        LogicalKey::F27 => Some(27),
        LogicalKey::F28 => Some(28),
        LogicalKey::F29 => Some(29),
        LogicalKey::F30 => Some(30),
        LogicalKey::F31 => Some(31),
        LogicalKey::F32 => Some(32),
        LogicalKey::F33 => Some(33),
        LogicalKey::F34 => Some(34),
        LogicalKey::F35 => Some(35),
        _ => None,
    }
}

/// A number below one hundred in decimal digits, without leading zeros.
pub open spec fn decimal(number: nat) -> Seq<char> {
    if number < 10 {
        seq![(48 + number) as char]
    } else {
        seq![(48 + number / 10) as char, (48 + number % 10) as char]
    }
}

/// A function key is named by the letter `f` and its number.
#[verifier::rlimit(50)]
pub proof fn law_function_keys_are_numbered(key: LogicalKey)
    requires
        function_key_number(key) is Some,
    ensures
        key_name(key) == Some(seq!['f'] + decimal(function_key_number(key)->0)),
{
    if key is F1 {
        reveal_strlit("f1");
        assert("f1"@ =~= seq!['f'] + decimal(1));
    }
    if key is F2 {
        reveal_strlit("f2");
        assert("f2"@ =~= seq!['f'] + decimal(2));
    }
    if key is F3 {
        reveal_strlit("f3");
        assert("f3"@ =~= seq!['f'] + decimal(3));
    }
    if key is F4 {
        reveal_strlit("f4");
        assert("f4"@ =~= seq!['f'] + decimal(4));
    }
    if key is F5 {
        reveal_strlit("f5");
        assert("f5"@ =~= seq!['f'] + decimal(5));
    }
    if key is F6 {
        reveal_strlit("f6");
        assert("f6"@ =~= seq!['f'] + decimal(6));
    }
    if key is F7 {
        reveal_strlit("f7");
        assert("f7"@ =~= seq!['f'] + decimal(7));
    }
    if key is F8 {
        reveal_strlit("f8");
        assert("f8"@ =~= seq!['f'] + decimal(8));
    }
    if key is F9 {
        reveal_strlit("f9");
        assert("f9"@ =~= seq!['f'] + decimal(9));
    }
    if key is F10 {
        reveal_strlit("f10");
        assert("f10"@ =~= seq!['f'] + decimal(10));
    }
    if key is F11 {
        reveal_strlit("f11");
        assert("f11"@ =~= seq!['f'] + decimal(11));
    }
    if key is F12 {
        reveal_strlit("f12");
        assert("f12"@ =~= seq!['f'] + decimal(12));
    }
    if key is F13 {
        reveal_strlit("f13");
        assert("f13"@ =~= seq!['f'] + decimal(13));
    }
    if key is F14 {
        reveal_strlit("f14");
        assert("f14"@ =~= seq!['f'] + decimal(14));
    }
    if key is F15 {
        reveal_strlit("f15");
        assert("f15"@ =~= seq!['f'] + decimal(15));
    }
    if key is F16 {
        reveal_strlit("f16");
        assert("f16"@ =~= seq!['f'] + decimal(16));
    }
    if key is F17 {
        reveal_strlit("f17");
        assert("f17"@ =~= seq!['f'] + decimal(17));
    }
    if key is F18 {
        reveal_strlit("f18");
        assert("f18"@ =~= seq!['f'] + decimal(18));
    }
    if key is F19 {
        reveal_strlit("f19");
        assert("f19"@ =~= seq!['f'] + decimal(19));
    }
    if key is F20 {
        reveal_strlit("f20");
        assert("f20"@ =~= seq!['f'] + decimal(20));
    }
    if key is F21 {
        reveal_strlit("f21");
        assert("f21"@ =~= seq!['f'] + decimal(21));
    }
    if key is F22 {
        reveal_strlit("f22");
        assert("f22"@ =~= seq!['f'] + decimal(22));
    }
    if key is F23 {
        reveal_strlit("f23");
        assert("f23"@ =~= seq!['f'] + decimal(23));
    }
    if key is F24 {
        reveal_strlit("f24");
        assert("f24"@ =~= seq!['f'] + decimal(24));
    }
    if key is F25 {
        reveal_strlit("f25");
        assert("f25"@ =~= seq!['f'] + decimal(25));
    }
    if key is F26 {
        reveal_strlit("f26");
        assert("f26"@ =~= seq!['f'] + decimal(26));
    }
    if key is F27 {
        reveal_strlit("f27");
        assert("f27"@ =~= seq!['f'] + decimal(27));
    }
    if key is F28 {
        reveal_strlit("f28");
        assert("f28"@ =~= seq!['f'] + decimal(28));
    }
    if key is F29 {
        reveal_strlit("f29");
        assert("f29"@ =~= seq!['f'] + decimal(29));
    }
    if key is F30 {
        reveal_strlit("f30");
        assert("f30"@ =~= seq!['f'] + decimal(30));
    }
    if key is F31 {
        reveal_strlit("f31");
        assert("f31"@ =~= seq!['f'] + decimal(31));
    }
    if key is F32 {
        reveal_strlit("f32");
        assert("f32"@ =~= seq!['f'] + decimal(32));
    }
    if key is F33 {
        reveal_strlit("f33");
        assert("f33"@ =~= seq!['f'] + decimal(33));
    }
    if key is F34 {
        reveal_strlit("f34");
        assert("f34"@ =~= seq!['f'] + decimal(34));
    }
    if key is F35 {
        reveal_strlit("f35");
        assert("f35"@ =~= seq!['f'] + decimal(35));
    }
}

/// The other keys with a fixed meaning are named by that meaning in small letters:
/// arrows by their direction, the rest by what is printed on them.
pub proof fn law_named_keys_say_what_they_are(key: LogicalKey, name: Seq<char>)
    requires
        key_name(key) == Some(name),
    ensures
        key is Alt ==> name == seq!['a', 'l', 't'],
        key is AltGraph ==> name == seq!['a', 'l', 't', 'g', 'r', 'a', 'p', 'h'],
        key is CapsLock ==> name == seq!['c', 'a', 'p', 's', 'l', 'o', 'c', 'k'],
        key is Control ==> name == seq!['c', 'o', 'n', 't', 'r', 'o', 'l'],
        key is Fn ==> name == seq!['f', 'n'],
        key is Shift ==> name == seq!['s', 'h', 'i', 'f', 't'],
        key is Super ==> name == seq!['s', 'u', 'p', 'e', 'r'],
        key is Meta ==> name == seq!['m', 'e', 't', 'a'],
        key is Hyper ==> name == seq!['h', 'y', 'p', 'e', 'r'],
        key is Enter ==> name == seq!['e', 'n', 't', 'e', 'r'],
        key is Tab ==> name == seq!['t', 'a', 'b'],
        key is Space ==> name == seq!['s', 'p', 'a', 'c', 'e'],
        key is ArrowDown ==> name == seq!['d', 'o', 'w', 'n'],
        key is ArrowLeft ==> name == seq!['l', 'e', 'f', 't'],
        key is ArrowRight ==> name == seq!['r', 'i', 'g', 'h', 't'],
        key is ArrowUp ==> name == seq!['u', 'p'],
        key is End ==> name == seq!['e', 'n', 'd'],
        key is Home ==> name == seq!['h', 'o', 'm', 'e'],
        key is PageDown ==> name == seq!['p', 'a', 'g', 'e', 'd', 'o', 'w', 'n'],
        key is PageUp ==> name == seq!['p', 'a', 'g', 'e', 'u', 'p'],
        key is Backspace ==> name == seq!['b', 'a', 'c', 'k', 's', 'p', 'a', 'c', 'e'],
        key is Delete ==> name == seq!['d', 'e', 'l', 'e', 't', 'e'],
        key is Insert ==> name == seq!['i', 'n', 's', 'e', 'r', 't'],
        key is Escape ==> name == seq!['e', 's', 'c', 'a', 'p', 'e'],
{
    if key is Alt {
        reveal_strlit("alt");
        assert("alt"@ =~= seq!['a', 'l', 't']);
    }
    if key is AltGraph {
        reveal_strlit("altgraph");
        assert("altgraph"@ =~= seq!['a', 'l', 't', 'g', 'r', 'a', 'p', 'h']);
    }
    if key is CapsLock {
        reveal_strlit("capslock");
        assert("capslock"@ =~= seq!['c', 'a', 'p', 's', 'l', 'o', 'c', 'k']);
    }
    if key is Control {
        reveal_strlit("control");
        assert("control"@ =~= seq!['c', 'o', 'n', 't', 'r', 'o', 'l']);
    }
    if key is Fn {
        reveal_strlit("fn");
        assert("fn"@ =~= seq!['f', 'n']);
    }
    if key is Shift {
        reveal_strlit("shift");
        assert("shift"@ =~= seq!['s', 'h', 'i', 'f', 't']);
    }
    if key is Super {
        reveal_strlit("super");
        assert("super"@ =~= seq!['s', 'u', 'p', 'e', 'r']);
    }
    if key is Meta {
        reveal_strlit("meta");
        assert("meta"@ =~= seq!['m', 'e', 't', 'a']);
    }
    if key is Hyper {
        reveal_strlit("hyper");
        assert("hyper"@ =~= seq!['h', 'y', 'p', 'e', 'r']);
    }
    if key is Enter {
        reveal_strlit("enter");
        assert("enter"@ =~= seq!['e', 'n', 't', 'e', 'r']);
    }
    if key is Tab {
        reveal_strlit("tab");
        assert("tab"@ =~= seq!['t', 'a', 'b']);
    }
    if key is Space {
        reveal_strlit("space");
        assert("space"@ =~= seq!['s', 'p', 'a', 'c', 'e']);
    }
    if key is ArrowDown {
        reveal_strlit("down");
        assert("down"@ =~= seq!['d', 'o', 'w', 'n']);
    }
    if key is ArrowLeft {
        reveal_strlit("left");
        assert("left"@ =~= seq!['l', 'e', 'f', 't']);
    }
    if key is ArrowRight {
        reveal_strlit("right");
        assert("right"@ =~= seq!['r', 'i', 'g', 'h', 't']);
    }
    if key is ArrowUp {
        reveal_strlit("up");
        assert("up"@ =~= seq!['u', 'p']);
    }
    if key is End {
        reveal_strlit("end");
        assert("end"@ =~= seq!['e', 'n', 'd']);
    }
    if key is Home {
        reveal_strlit("home");
        assert("home"@ =~= seq!['h', 'o', 'm', 'e']);
    }
    if key is PageDown {
        reveal_strlit("pagedown");
        assert("pagedown"@ =~= seq!['p', 'a', 'g', 'e', 'd', 'o', 'w', 'n']);
    }
    if key is PageUp {
        reveal_strlit("pageup");
        assert("pageup"@ =~= seq!['p', 'a', 'g', 'e', 'u', 'p']);
    }
    if key is Backspace {
        reveal_strlit("backspace");
        assert("backspace"@ =~= seq!['b', 'a', 'c', 'k', 's', 'p', 'a', 'c', 'e']);
    }
    if key is Delete {
        reveal_strlit("delete");
        assert("delete"@ =~= seq!['d', 'e', 'l', 'e', 't', 'e']);
    }
    if key is Insert {
        reveal_strlit("insert");
        assert("insert"@ =~= seq!['i', 'n', 's', 'e', 'r', 't']);
    }
    if key is Escape {
        reveal_strlit("escape");
        assert("escape"@ =~= seq!['e', 's', 'c', 'a', 'p', 'e']);
    }
}

/// A key that stands for text is named by that text in small letters, whichever
/// capitals it was typed with; a dead key by its accent; and only a key that stands
/// for nothing has no name.
pub proof fn law_text_keys_are_named_by_their_text(key: LogicalKey)
    ensures
        key matches LogicalKey::Character(text) ==> (key_name(key) matches Some(name) && name.len()
            == text@.len() && forall|i: int|
            #![trigger name[i]]
            0 <= i < name.len() ==> if 65 <= text@[i] as u32 <= 90 {
                name[i] as u32 == text@[i] as u32 + 32
            } else {
                name[i] == text@[i]
            }),
        key matches LogicalKey::Named(text) ==> key_name(key) == key_name(
            LogicalKey::Character(text),
        ),
        key matches LogicalKey::Dead(Some(accent)) ==> (key_name(key) matches Some(name)
            && name.len() == 1 && name[0] == accent),
        key_name(key) is None <==> key is Unidentified || key == LogicalKey::Dead(None),
{
    if let LogicalKey::Character(text) = key {
        assert forall|i: int| 0 <= i < text@.len() implies if 65 <= text@[i] as u32 <= 90 {
            #[trigger] ascii_lowercase(text@)[i] as u32 == text@[i] as u32 + 32
        } else {
            ascii_lowercase(text@)[i] == text@[i]
        } by {
            law_lowercase_folds_capitals(text@, i);
        }
    }
}

/// Tracking a key changes what is held as the key says: control is held after a press
/// of Control and alt is not touched by it, and so on for each key, whatever was held
/// before; a key is reported as tracked exactly where it can change something.
pub proof fn law_tracking_follows_the_key(
    key: LogicalKey,
    state: ButtonState,
    modifiers: &mut Modifiers,
    capslock: &mut Capslock,
    tracked_key: bool,
)
    requires
        call_ensures(update_modifier_state, (&key, state, modifiers, capslock), tracked_key),
    ensures
        key is Control ==> final(modifiers).control == (state is Pressed) && final(modifiers).alt
            == old(modifiers).alt,
        key is Alt ==> final(modifiers).alt == (state is Pressed) && final(modifiers).control
            == old(modifiers).control,
        key is AltGraph ==> final(modifiers).alt == (state is Pressed) && final(modifiers).control
            == (state is Pressed),
        key is Shift ==> final(modifiers).shift == (state is Pressed),
        key is Super || key is Meta || key is Hyper ==> final(modifiers).platform == (
        state is Pressed),
        key is Fn ==> final(modifiers).function == (state is Pressed),
        !(key is Shift) ==> final(modifiers).shift == old(modifiers).shift,
        !(key is Fn) ==> final(modifiers).function == old(modifiers).function,
        !(key is Super) && !(key is Meta) && !(key is Hyper) ==> final(modifiers).platform == old(
            modifiers,
        ).platform,
        final(capslock).on == (old(capslock).on != (key is CapsLock && state is Pressed)),
        !tracked_key ==> *final(modifiers) == *old(modifiers) && *final(capslock) == *old(capslock),
        key is CapsLock || key is Shift || key is Control || key is Alt || key is Fn
            || key is AltGraph || key is Super || key is Meta || key is Hyper <==> tracked_key,
{
}

} // verus!
