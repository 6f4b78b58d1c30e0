use ripclip::keys::{Modifier, Modifiers, ParseModifierError, ParseVirtualKeyError, VirtualKey};

#[test]
fn keys_parse_in_any_case() {
    assert_eq!(VirtualKey::parse("c").unwrap(), VirtualKey::C);
    assert_eq!(VirtualKey::parse("C").unwrap(), VirtualKey::C);
    assert_eq!(VirtualKey::parse("a").unwrap(), VirtualKey::A);
    assert_eq!(VirtualKey::parse("z").unwrap(), VirtualKey::Z);
    assert_eq!(VirtualKey::parse("0").unwrap(), VirtualKey::Key0);
    assert_eq!(VirtualKey::parse("9").unwrap(), VirtualKey::Key9);
    assert_eq!(VirtualKey::parse("f1").unwrap(), VirtualKey::F1);
    assert_eq!(VirtualKey::parse("F24").unwrap(), VirtualKey::F24);
    assert_eq!(VirtualKey::parse("Backspace").unwrap(), VirtualKey::Backspace);
    assert_eq!(VirtualKey::parse("PAGEDOWN").unwrap(), VirtualKey::PageDown);
    assert_eq!(VirtualKey::parse("scrolllock").unwrap(), VirtualKey::ScrollLock);
    assert_eq!(VirtualKey::parse("numpad0").unwrap(), VirtualKey::Numpad0);
    assert_eq!(VirtualKey::parse("Numpad9").unwrap(), VirtualKey::Numpad9);
    assert_eq!(VirtualKey::parse("divide").unwrap(), VirtualKey::Divide);
    assert_eq!(VirtualKey::parse("Control").unwrap(), VirtualKey::Control);
    assert_eq!(VirtualKey::parse("ctrl").unwrap(), VirtualKey::Control);
    assert_eq!(VirtualKey::parse("lwin").unwrap(), VirtualKey::LeftWindows);
    assert_eq!(VirtualKey::parse("RWIN").unwrap(), VirtualKey::RightWindows);
}

#[test]
fn unknown_key_carries_the_text_as_given() {
    match VirtualKey::parse("NoSuchKey") {
        Err(ParseVirtualKeyError::UnknownKey(got)) => assert_eq!(got, "NoSuchKey"),
        other => panic!("unexpected: {:?}", other),
    }
    assert!(VirtualKey::parse("").is_err());
    assert!(VirtualKey::parse(" c").is_err());
    assert!(VirtualKey::parse("f25").is_err());
    assert!(VirtualKey::parse("f0").is_err());
    assert!(VirtualKey::parse("é").is_err());
    assert!(VirtualKey::parse("none").is_err());
}

#[test]
fn lookup_takes_lower_case_only() {
    let lower: Vec<char> = "tab".chars().collect();
    let upper: Vec<char> = "Tab".chars().collect();
    assert_eq!(VirtualKey::lookup(&lower), Some(VirtualKey::Tab));
    assert_eq!(VirtualKey::lookup(&upper), None);
    let lower: Vec<char> = "shift".chars().collect();
    let upper: Vec<char> = "SHIFT".chars().collect();
    assert_eq!(Modifiers::lookup(&lower), Some(Modifiers::shift()));
    assert_eq!(Modifiers::lookup(&upper), None);
}

#[test]
fn modifier_keys_are_told_apart() {
    assert!(VirtualKey::Shift.is_modifier());
    assert!(VirtualKey::Control.is_modifier());
    assert!(VirtualKey::Alt.is_modifier());
    assert!(VirtualKey::LeftWindows.is_modifier());
    assert!(VirtualKey::RightWindows.is_modifier());
    assert!(!VirtualKey::C.is_modifier());
    assert!(!VirtualKey::F1.is_modifier());
    assert!(!VirtualKey::CapsLock.is_modifier());
    assert!(!VirtualKey::Key0.is_modifier());
}

#[test]
fn modifiers_parse_in_any_case() {
    assert_eq!(Modifiers::parse("ctrl").unwrap(), Modifiers::control());
    assert_eq!(Modifiers::parse("Control").unwrap(), Modifiers::control());
    assert_eq!(Modifiers::parse("SHIFT").unwrap(), Modifiers::shift());
    assert_eq!(Modifiers::parse("alt").unwrap(), Modifiers::alt());
    assert_eq!(Modifiers::parse("Win").unwrap(), Modifiers::windows());
}

#[test]
fn unknown_modifier_carries_the_text_as_given() {
    match Modifiers::parse("Hyper") {
        Err(ParseModifierError::UnknownModifier(got)) => assert_eq!(got, "Hyper"),
        other => panic!("unexpected: {:?}", other),
    }
    assert!(Modifiers::parse("c").is_err());
    assert!(Modifiers::parse("").is_err());
    assert!(Modifiers::parse("ctrl ").is_err());
}

#[test]
fn union_is_commutative_and_idempotent() {
    let a = Modifiers::control().union(Modifiers::shift());
    let b = Modifiers::shift().union(Modifiers::control());
    assert_eq!(a, b);
    assert_eq!(a.union(a), a);
    assert_eq!(a.union(Modifiers::empty()), a);
    assert_eq!(a, Modifiers { control: true, shift: true, alt: false, windows: false });
}

#[test]
fn flags_are_independent() {
    let set = Modifiers::alt().union(Modifiers::windows());
    assert!(set.contains(Modifier::Alt));
    assert!(set.contains(Modifier::Windows));
    assert!(!set.contains(Modifier::Control));
    assert!(!set.contains(Modifier::Shift));
    assert!(!set.is_empty());
    assert!(Modifiers::empty().is_empty());
    assert_eq!(Modifiers::single(Modifier::Control), Modifiers::control());
    assert_eq!(Modifiers::single(Modifier::Shift), Modifiers::shift());
    assert_eq!(Modifiers::single(Modifier::Alt), Modifiers::alt());
    assert_eq!(Modifiers::single(Modifier::Windows), Modifiers::windows());
    assert_ne!(Modifiers::control(), Modifiers::shift());
}
