//! The key model: the keys a binding can name, the modifier flags that can
//! accompany one, and the text tokens that stand for them.

use vstd::prelude::*;
use crate::text::{chars_of, lower, lowercase, matches_str};

verus! {

/// A key of the keyboard, whatever the layout. In text a key goes by its
/// name in lower case: a letter or a digit by itself, the others by the
/// names that `key_of_name` lists (`f1`, `pageup`, `numpad0`, `lwin`), and
/// `Control` also by `ctrl`.
#[derive(Clone, Copy, Debug, PartialEq, Eq, Hash, Structural)]
pub enum VirtualKey {
    A,
    B,
    C,
    D,
    E,
    F,
    G,
    H,
    I,
    J,
    K,
    L,
    M,
    N,
    O,
    P,
    Q,
    R,
    S,
    T,
    U,
    V,
    W,
    X,
    Y,
    Z,
    Key0,
    Key1,
    Key2,
    Key3,
    Key4,
    Key5,
    Key6,
    Key7,
    Key8,
    Key9,
    F1,
    F2,
    F3,
    F4,
    F5,
    F6,
    F7,
    F8,
    F9,
    F10,
    F11,
    F12,
    F13,
    F14,
    F15,
    F16,
    F17,
    F18,
    F19,
    F20,
    F21,
    F22,
    F23,
    F24,
    Backspace,
    Tab,
    Enter,
    Pause,
    CapsLock,
    Escape,
    Space,
    PageUp,
    PageDown,
    End,
    Home,
    Left,
    Up,
    Right,
    Down,
    PrintScreen,
    Insert,
    Delete,
    NumLock,
    ScrollLock,
    Numpad0,
    Numpad1,
    Numpad2,
    Numpad3,
    Numpad4,
    Numpad5,
    Numpad6,
    Numpad7,
    Numpad8,
    Numpad9,
    Multiply,
    Add,
    Subtract,
    Decimal,
    Divide,
    Shift,
    Control,
    Alt,
    LeftWindows,
    RightWindows,
}

/// One of the four modifier flags.
#[derive(Clone, Copy, Debug, PartialEq, Eq, Hash, Structural)]
pub enum Modifier {
    Control,
    Shift,
    Alt,
    Windows,
}

/// A set of modifier flags, one boolean for each.
#[derive(Clone, Copy, Debug, PartialEq, Eq, Hash, Structural)]
pub struct Modifiers {
    pub control: bool,
    pub shift: bool,
    pub alt: bool,
    pub windows: bool,
}

/// Why a token names no key; it carries the token.
#[derive(Debug)]
pub enum ParseVirtualKeyError {
    UnknownKey(String),
}

/// Why a token names no modifier; it carries the token.
#[derive(Debug)]
pub enum ParseModifierError {
    UnknownModifier(String),
}

impl View for ParseVirtualKeyError {
    type V = Seq<char>;

    /// The token that was refused.
    open spec fn view(&self) -> Seq<char> {
        match self {
            ParseVirtualKeyError::UnknownKey(got) => got@,
        }
    }
}

impl View for ParseModifierError {
    type V = Seq<char>;

    /// The token that was refused.
    open spec fn view(&self) -> Seq<char> {
        match self {
            ParseModifierError::UnknownModifier(got) => got@,
        }
    }
}

/// The key that a single lower-case character names.
pub open spec fn key_of_char(c: char) -> Option<VirtualKey> {
    match c {
        'a' => Some(VirtualKey::A),
        'b' => Some(VirtualKey::B),
        'c' => Some(VirtualKey::C),
        'd' => Some(VirtualKey::D),
        'e' => Some(VirtualKey::E),
        'f' => Some(VirtualKey::F),
        'g' => Some(VirtualKey::G),
        'h' => Some(VirtualKey::H),
        'i' => Some(VirtualKey::I),
        'j' => Some(VirtualKey::J),
        'k' => Some(VirtualKey::K),
        'l' => Some(VirtualKey::L),
        'm' => Some(VirtualKey::M),
        'n' => Some(VirtualKey::N),
        'o' => Some(VirtualKey::O),
        'p' => Some(VirtualKey::P),
        'q' => Some(VirtualKey::Q),
        'r' => Some(VirtualKey::R),
        's' => Some(VirtualKey::S),
        't' => Some(VirtualKey::T),
        'u' => Some(VirtualKey::U),
        'v' => Some(VirtualKey::V),
        'w' => Some(VirtualKey::W),
        'x' => Some(VirtualKey::X),
        'y' => Some(VirtualKey::Y),
        'z' => Some(VirtualKey::Z),
        '0' => Some(VirtualKey::Key0),
        '1' => Some(VirtualKey::Key1),
        '2' => Some(VirtualKey::Key2),
        '3' => Some(VirtualKey::Key3),
        '4' => Some(VirtualKey::Key4),
        '5' => Some(VirtualKey::Key5),
        '6' => Some(VirtualKey::Key6),
        '7' => Some(VirtualKey::Key7),
        '8' => Some(VirtualKey::Key8),
        '9' => Some(VirtualKey::Key9),
        _ => None,
    }
}

/// The function key that a lower-case name stands for.
pub open spec fn function_key_of_name(name: Seq<char>) -> Option<VirtualKey> {
    if name == "f1"@ {
        Some(VirtualKey::F1)
    } else if name == "f2"@ {
        Some(VirtualKey::F2)
    } else if name == "f3"@ {
        Some(VirtualKey::F3)
    } else if name == "f4"@ {
        Some(VirtualKey::F4)
    } else if name == "f5"@ {
        Some(VirtualKey::F5)
    } else if name == "f6"@ {
        Some(VirtualKey::F6)
    } else if name == "f7"@ {
        Some(VirtualKey::F7)
    } else if name == "f8"@ {
        Some(VirtualKey::F8)
    } else if name == "f9"@ {
        Some(VirtualKey::F9)
    } else if name == "f10"@ {
        Some(VirtualKey::F10)
    } else if name == "f11"@ {
        Some(VirtualKey::F11)
    } else if name == "f12"@ {
        Some(VirtualKey::F12)
    } else if name == "f13"@ {
        Some(VirtualKey::F13)
    } else if name == "f14"@ {
        Some(VirtualKey::F14)
    } else if name == "f15"@ {
        Some(VirtualKey::F15)
    } else if name == "f16"@ {
        Some(VirtualKey::F16)
    } else if name == "f17"@ {
        Some(VirtualKey::F17)
    } else if name == "f18"@ {
        Some(VirtualKey::F18)
    } else if name == "f19"@ {
        Some(VirtualKey::F19)
    } else if name == "f20"@ {
        Some(VirtualKey::F20)
    } else if name == "f21"@ {
        Some(VirtualKey::F21)
    } else if name == "f22"@ {
        Some(VirtualKey::F22)
    } else if name == "f23"@ {
        Some(VirtualKey::F23)
    } else if name == "f24"@ {
        Some(VirtualKey::F24)
    } else {
        None
    }
}

/// The editing or navigation key that a lower-case name stands for.
pub open spec fn editing_key_of_name(name: Seq<char>) -> Option<VirtualKey> {
    if name == "backspace"@ {
        Some(VirtualKey::Backspace)
    } else if name == "tab"@ {
        Some(VirtualKey::Tab)
    } else if name == "enter"@ {
        Some(VirtualKey::Enter)
    } else if name == "pause"@ {
        Some(VirtualKey::Pause)
    } else if name == "capslock"@ {
        Some(VirtualKey::CapsLock)
    } else if name == "escape"@ {
        Some(VirtualKey::Escape)
    } else if name == "space"@ {
        Some(VirtualKey::Space)
    } else if name == "pageup"@ {
        Some(VirtualKey::PageUp)
    } else if name == "pagedown"@ {
        Some(VirtualKey::PageDown)
    } else if name == "end"@ {
        Some(VirtualKey::End)
    } else if name == "home"@ {
        Some(VirtualKey::Home)
    } else if name == "left"@ {
        Some(VirtualKey::Left)
    } else if name == "up"@ {
        Some(VirtualKey::Up)
    } else if name == "right"@ {
        Some(VirtualKey::Right)
    } else if name == "down"@ {
        Some(VirtualKey::Down)
    } else if name == "printscreen"@ {
        Some(VirtualKey::PrintScreen)
    } else if name == "insert"@ {
        Some(VirtualKey::Insert)
    } else if name == "delete"@ {
        Some(VirtualKey::Delete)
    } else if name == "numlock"@ {
        Some(VirtualKey::NumLock)
    } else if name == "scrolllock"@ {
        Some(VirtualKey::ScrollLock)
    } else {
        None
    }
}

/// The key of the numeric pad that a lower-case name stands for.
pub open spec fn numpad_key_of_name(name: Seq<char>) -> Option<VirtualKey> {
    if name == "numpad0"@ {
        Some(VirtualKey::Numpad0)
    } else if name == "numpad1"@ {
        Some(VirtualKey::Numpad1)
    } else if name == "numpad2"@ {
        Some(VirtualKey::Numpad2)
    } else if name == "numpad3"@ {
        Some(VirtualKey::Numpad3)
    } else if name == "numpad4"@ {
        Some(VirtualKey::Numpad4)
    } else if name == "numpad5"@ {
        Some(VirtualKey::Numpad5)
    } else if name == "numpad6"@ {
        Some(VirtualKey::Numpad6)
    } else if name == "numpad7"@ {
        Some(VirtualKey::Numpad7)
    } else if name == "numpad8"@ {
        Some(VirtualKey::Numpad8)
    } else if name == "numpad9"@ {
        Some(VirtualKey::Numpad9)
    } else if name == "multiply"@ {
        Some(VirtualKey::Multiply)
    } else if name == "add"@ {
        Some(VirtualKey::Add)
    } else if name == "subtract"@ {
        Some(VirtualKey::Subtract)
    } else if name == "decimal"@ {
        Some(VirtualKey::Decimal)
    } else if name == "divide"@ {
        Some(VirtualKey::Divide)
    } else {
        None
    }
}

/// The modifier key that a lower-case name stands for.
pub open spec fn modifier_key_of_name(name: Seq<char>) -> Option<VirtualKey> {
    if name == "shift"@ {
        Some(VirtualKey::Shift)
    } else if name == "control"@ {
        Some(VirtualKey::Control)
    } else if name == "ctrl"@ {
        Some(VirtualKey::Control)
    } else if name == "alt"@ {
        Some(VirtualKey::Alt)
    } else if name == "lwin"@ {
        Some(VirtualKey::LeftWindows)
    } else if name == "rwin"@ {
        Some(VirtualKey::RightWindows)
    } else {
        None
    }
}

/// The key that a lower-case name stands for, if it stands for one.
pub open spec fn key_of_name(name: Seq<char>) -> Option<VirtualKey> {
    if name.len() == 1 {
        key_of_char(name[0])
    } else if function_key_of_name(name) is Some {
        function_key_of_name(name)
    } else if editing_key_of_name(name) is Some {
        editing_key_of_name(name)
    } else if numpad_key_of_name(name) is Some {
        numpad_key_of_name(name)
    } else {
        modifier_key_of_name(name)
    }
}

/// The single flag that a lower-case name stands for, if it stands for one.
pub open spec fn modifier_of_name(name: Seq<char>) -> Option<Modifier> {
    if name == "control"@ || name == "ctrl"@ {
        Some(Modifier::Control)
    } else if name == "shift"@ {
        Some(Modifier::Shift)
    } else if name == "alt"@ {
        Some(Modifier::Alt)
    } else if name == "win"@ {
        Some(Modifier::Windows)
    } else {
        None
    }
}

fn char_key(c: char) -> (r: Option<VirtualKey>)
    ensures
        r == key_of_char(c),
{
    match c {
        'a' => Some(VirtualKey::A),
        'b' => Some(VirtualKey::B),
        'c' => Some(VirtualKey::C),
        'd' => Some(VirtualKey::D),
        'e' => Some(VirtualKey::E),
        'f' => Some(VirtualKey::F),
        'g' => Some(VirtualKey::G),
        'h' => Some(VirtualKey::H),
        'i' => Some(VirtualKey::I),
        'j' => Some(VirtualKey::J),
        'k' => Some(VirtualKey::K),
        'l' => Some(VirtualKey::L),
        'm' => Some(VirtualKey::M),
        'n' => Some(VirtualKey::N),
        'o' => Some(VirtualKey::O),
        'p' => Some(VirtualKey::P),
        'q' => Some(VirtualKey::Q),
        'r' => Some(VirtualKey::R),
        's' => Some(VirtualKey::S),
        't' => Some(VirtualKey::T),
        'u' => Some(VirtualKey::U),
        'v' => Some(VirtualKey::V),
        'w' => Some(VirtualKey::W),
        'x' => Some(VirtualKey::X),
        'y' => Some(VirtualKey::Y),
        'z' => Some(VirtualKey::Z),
        '0' => Some(VirtualKey::Key0),
        '1' => Some(VirtualKey::Key1),
        '2' => Some(VirtualKey::Key2),
        '3' => Some(VirtualKey::Key3),
        '4' => Some(VirtualKey::Key4),
        '5' => Some(VirtualKey::Key5),
        '6' => Some(VirtualKey::Key6),
        '7' => Some(VirtualKey::Key7),
        '8' => Some(VirtualKey::Key8),
        '9' => Some(VirtualKey::Key9),
        _ => None,
    }
}

fn function_key(name: &[char]) -> (r: Option<VirtualKey>)
    ensures
        r == function_key_of_name(name@),
{
    if matches_str(name, "f1") {
        Some(VirtualKey::F1)
    } else if matches_str(name, "f2") {
        Some(VirtualKey::F2)
    } else if matches_str(name, "f3") {
        Some(VirtualKey::F3)
    } else if matches_str(name, "f4") {
        Some(VirtualKey::F4)
    } else if matches_str(name, "f5") {
        Some(VirtualKey::F5)
    } else if matches_str(name, "f6") {
        Some(VirtualKey::F6)
    } else if matches_str(name, "f7") {
        Some(VirtualKey::F7)
    } else if matches_str(name, "f8") {
        Some(VirtualKey::F8)
    } else if matches_str(name, "f9") {
        Some(VirtualKey::F9)
    } else if matches_str(name, "f10") {
        Some(VirtualKey::F10)
    } else if matches_str(name, "f11") {
        Some(VirtualKey::F11)
    } else if matches_str(name, "f12") {
        Some(VirtualKey::F12)
    } else if matches_str(name, "f13") {
        Some(VirtualKey::F13)
    } else if matches_str(name, "f14") {
        Some(VirtualKey::F14)
    } else if matches_str(name, "f15") {
        Some(VirtualKey::F15)
    } else if matches_str(name, "f16") {
        Some(VirtualKey::F16)
    } else if matches_str(name, "f17") {
        Some(VirtualKey::F17)
    } else if matches_str(name, "f18") {
        Some(VirtualKey::F18)
    } else if matches_str(name, "f19") {
        Some(VirtualKey::F19)
    } else if matches_str(name, "f20") {
        Some(VirtualKey::F20)
    } else if matches_str(name, "f21") {
        Some(VirtualKey::F21)
    } else if matches_str(name, "f22") {
        Some(VirtualKey::F22)
    } else if matches_str(name, "f23") {
        Some(VirtualKey::F23)
    } else if matches_str(name, "f24") {
        Some(VirtualKey::F24)
    } else {
        None
    }
}

fn editing_key(name: &[char]) -> (r: Option<VirtualKey>)
    ensures
        r == editing_key_of_name(name@),
{
    if matches_str(name, "backspace") {
        Some(VirtualKey::Backspace)
    } else if matches_str(name, "tab") {
        Some(VirtualKey::Tab)
    } else if matches_str(name, "enter") {
        Some(VirtualKey::Enter)
    } else if matches_str(name, "pause") {
        Some(VirtualKey::Pause)
    } else if matches_str(name, "capslock") {
        Some(VirtualKey::CapsLock)
    } else if matches_str(name, "escape") {
        Some(VirtualKey::Escape)
    } else if matches_str(name, "space") {
        Some(VirtualKey::Space)
    } else if matches_str(name, "pageup") {
        Some(VirtualKey::PageUp)
    } else if matches_str(name, "pagedown") {
        Some(VirtualKey::PageDown)
    } else if matches_str(name, "end") {
        Some(VirtualKey::End)
    } else if matches_str(name, "home") {
        Some(VirtualKey::Home)
    } else if matches_str(name, "left") {
        Some(VirtualKey::Left)
    } else if matches_str(name, "up") {
        Some(VirtualKey::Up)
    } else if matches_str(name, "right") {
        Some(VirtualKey::Right)
    } else if matches_str(name, "down") {
        Some(VirtualKey::Down)
    } else if matches_str(name, "printscreen") {
        Some(VirtualKey::PrintScreen)
    } else if matches_str(name, "insert") {
        Some(VirtualKey::Insert)
    } else if matches_str(name, "delete") {
        Some(VirtualKey::Delete)
    } else if matches_str(name, "numlock") {
        Some(VirtualKey::NumLock)
    } else if matches_str(name, "scrolllock") {
        Some(VirtualKey::ScrollLock)
    } else {
        None
    }
}

fn numpad_key(name: &[char]) -> (r: Option<VirtualKey>)
    ensures
        r == numpad_key_of_name(name@),
{
    if matches_str(name, "numpad0") {
        Some(VirtualKey::Numpad0)
    } else if matches_str(name, "numpad1") {
        Some(VirtualKey::Numpad1)
    } else if matches_str(name, "numpad2") {
        Some(VirtualKey::Numpad2)
    } else if matches_str(name, "numpad3") {
        Some(VirtualKey::Numpad3)
    } else if matches_str(name, "numpad4") {
        Some(VirtualKey::Numpad4)
    } else if matches_str(name, "numpad5") {
        Some(VirtualKey::Numpad5)
    } else if matches_str(name, "numpad6") {
        Some(VirtualKey::Numpad6)
    } else if matches_str(name, "numpad7") {
        Some(VirtualKey::Numpad7)
    } else if matches_str(name, "numpad8") {
        Some(VirtualKey::Numpad8)
    } else if matches_str(name, "numpad9") {
        Some(VirtualKey::Numpad9)
    } else if matches_str(name, "multiply") {
        Some(VirtualKey::Multiply)
    } else if matches_str(name, "add") {
        Some(VirtualKey::Add)
    } else if matches_str(name, "subtract") {
        Some(VirtualKey::Subtract)
    } else if matches_str(name, "decimal") {
        Some(VirtualKey::Decimal)
    } else if matches_str(name, "divide") {
        Some(VirtualKey::Divide)
    } else {
        None
    }
}

fn modifier_key(name: &[char]) -> (r: Option<VirtualKey>)
    ensures
        r == modifier_key_of_name(name@),
{
    if matches_str(name, "shift") {
        Some(VirtualKey::Shift)
    } else if matches_str(name, "control") {
        Some(VirtualKey::Control)
    } else if matches_str(name, "ctrl") {
        Some(VirtualKey::Control)
    } else if matches_str(name, "alt") {
        Some(VirtualKey::Alt)
    } else if matches_str(name, "lwin") {
        Some(VirtualKey::LeftWindows)
    } else if matches_str(name, "rwin") {
        Some(VirtualKey::RightWindows)
    } else {
        None
    }
}

impl VirtualKey {
    /// Whether the key is itself one of the modifier keys.
    pub open spec fn modifier_key(self) -> bool {
        self == VirtualKey::Shift || self == VirtualKey::Control || self == VirtualKey::Alt || self
            == VirtualKey::LeftWindows || self == VirtualKey::RightWindows
    }

    /// Whether the key is itself one of the modifier keys.
    pub fn is_modifier(&self) -> (r: bool)
        ensures
            r == self.modifier_key(),
    {
        match self {
            VirtualKey::Shift => true,
            VirtualKey::Control => true,
            VirtualKey::Alt => true,
            VirtualKey::LeftWindows => true,
            VirtualKey::RightWindows => true,
            _ => false,
        }
    }

    /// The key that the lower-case `name` stands for.
    pub fn lookup(name: &[char]) -> (r: Option<VirtualKey>)
        ensures
            r == key_of_name(name@),
    {
        if name.len() == 1 {
            return char_key(name[0]);
        }
        let function = function_key(name);
        if function.is_some() {
            return function;
        }
        let editing = editing_key(name);
        if editing.is_some() {
            return editing;
        }
        let numpad = numpad_key(name);
        if numpad.is_some() {
            return numpad;
        }
        modifier_key(name)
    }

    /// The key that `text` stands for, whatever the case of its letters, or
    /// `UnknownKey` with `text` as it was given.
    pub fn parse(text: &str) -> (r: Result<VirtualKey, ParseVirtualKeyError>)
        ensures
            match r {
                Ok(key) => key_of_name(lower(text@)) == Some(key),
                Err(e) => key_of_name(lower(text@)) is None && e@ == text@,
            },
    {
        let chars = chars_of(text);
        let low = lowercase(chars.as_slice());
        match VirtualKey::lookup(low.as_slice()) {
            Some(key) => Ok(key),
            None => Err(ParseVirtualKeyError::UnknownKey(text.to_owned())),
        }
    }
}

impl View for Modifiers {
    type V = Set<Modifier>;

    /// The flags that are set.
    open spec fn view(&self) -> Set<Modifier> {
        Set::new(|m: Modifier| self.has(m))
    }
}

impl Modifiers {
    /// Whether the flag `m` is set.
    pub open spec fn has(self, m: Modifier) -> bool {
        match m {
            Modifier::Control => self.control,
            Modifier::Shift => self.shift,
            Modifier::Alt => self.alt,
            Modifier::Windows => self.windows,
        }
    }

    /// The set with no flag.
    pub open spec fn none() -> Modifiers {
        Modifiers { control: false, shift: false, alt: false, windows: false }
    }

    /// The set with the flag `m` alone.
    pub open spec fn only(m: Modifier) -> Modifiers {
        Modifiers {
            control: m == Modifier::Control,
            shift: m == Modifier::Shift,
            alt: m == Modifier::Alt,
            windows: m == Modifier::Windows,
        }
    }

    /// The flags of `self` together with those of `other`.
    pub open spec fn or(self, other: Modifiers) -> Modifiers {
        Modifiers {
            control: self.control || other.control,
            shift: self.shift || other.shift,
            alt: self.alt || other.alt,
            windows: self.windows || other.windows,
        }
    }

    /// `or` is the union of the flags; it is commutative, associative and
    /// idempotent, and `none` is its unit.
    pub proof fn lemma_or_is_union(self, other: Modifiers, third: Modifiers)
        ensures
            self.or(other)@ == self@.union(other@),
            Modifiers::none()@ == Set::<Modifier>::empty(),
            self.or(other) == other.or(self),
            self.or(other).or(third) == self.or(other.or(third)),
            self.or(self) == self,
            self.or(Modifiers::none()) == self,
    {
        assert(self.or(other)@ =~= self@.union(other@));
        assert(Modifiers::none()@ =~= Set::<Modifier>::empty());
    }

    /// The set with no flag.
    pub fn empty() -> (r: Modifiers)
        ensures
            r == Modifiers::none(),
    {
        Modifiers { control: false, shift: false, alt: false, windows: false }
    }

    /// The flag of the Control key alone.
    pub fn control() -> (r: Modifiers)
        ensures
            r == Modifiers::only(Modifier::Control),
    {
        Modifiers { control: true, shift: false, alt: false, windows: false }
    }

    /// The flag of the Shift key alone.
    pub fn shift() -> (r: Modifiers)
        ensures
            r == Modifiers::only(Modifier::Shift),
    {
        Modifiers { control: false, shift: true, alt: false, windows: false }
    }

    /// The flag of the Alt key alone.
    pub fn alt() -> (r: Modifiers)
        ensures
            r == Modifiers::only(Modifier::Alt),
    {
        Modifiers { control: false, shift: false, alt: true, windows: false }
    }

    /// The flag of the Windows key alone.
    pub fn windows() -> (r: Modifiers)
        ensures
            r == Modifiers::only(Modifier::Windows),
    {
        Modifiers { control: false, shift: false, alt: false, windows: true }
    }

    /// The set with the flag `m` alone.
    pub fn single(m: Modifier) -> (r: Modifiers)
        ensures
            r == Modifiers::only(m),
    {
        match m {
            Modifier::Control => Modifiers::control(),
            Modifier::Shift => Modifiers::shift(),
            Modifier::Alt => Modifiers::alt(),
            Modifier::Windows => Modifiers::windows(),
        }
    }

    /// The flags of `self` together with those of `other`.
    pub fn union(self, other: Modifiers) -> (r: Modifiers)
        ensures
            r == self.or(other),
            r@ == self@.union(other@),
    {
        proof {
            self.lemma_or_is_union(other, other);
        }
        Modifiers {
            control: self.control || other.control,
            shift: self.shift || other.shift,
            alt: self.alt || other.alt,
            windows: self.windows || other.windows,
        }
    }

    /// Whether the flag `m` is set.
    pub fn contains(&self, m: Modifier) -> (r: bool)
        ensures
            r == self@.contains(m),
    {
        match m {
            Modifier::Control => self.control,
            Modifier::Shift => self.shift,
            Modifier::Alt => self.alt,
            Modifier::Windows => self.windows,
        }
    }

    /// Whether no flag is set.
    pub fn is_empty(&self) -> (r: bool)
        ensures
            r == (*self == Modifiers::none()),
    {
        !self.control && !self.shift && !self.alt && !self.windows
    }

    /// The flag that the lower-case `name` stands for, as a set.
    pub fn lookup(name: &[char]) -> (r: Option<Modifiers>)
        ensures
            match modifier_of_name(name@) {
                Some(m) => r == Some(Modifiers::only(m)),
                None => r is None,
            },
    {
        if matches_str(name, "control") || matches_str(name, "ctrl") {
            Some(Modifiers::control())
        } else if matches_str(name, "shift") {
            Some(Modifiers::shift())
        } else if matches_str(name, "alt") {
            Some(Modifiers::alt())
        } else if matches_str(name, "win") {
            Some(Modifiers::windows())
        } else {
            None
        }
    }

    /// The flag that `text` stands for, whatever the case of its letters, or
    /// `UnknownModifier` with `text` as it was given.
    pub fn parse(text: &str) -> (r: Result<Modifiers, ParseModifierError>)
        ensures
            match r {
                Ok(flags) => modifier_of_name(lower(text@)) matches Some(m) && flags
                    == Modifiers::only(m),
                Err(e) => modifier_of_name(lower(text@)) is None && e@ == text@,
            },
    {
        let chars = chars_of(text);
        let low = lowercase(chars.as_slice());
        match Modifiers::lookup(low.as_slice()) {
            Some(flags) => Ok(flags),
            None => Err(ParseModifierError::UnknownModifier(text.to_owned())),
        }
    }
}

} // verus!
