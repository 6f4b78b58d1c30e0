use ripclip::config::{
    parse_binding, parse_config, parse_hotkey, parse_interrupted, parse_line, Config, Hotkey,
    LineError, ParseError, Setting, DEFAULT_CONFIG,
};
use ripclip::template::default_text;
use ripclip::win::{Modifiers, VirtualKey};

fn control_shift_c() -> Hotkey {
    Hotkey { modifiers: Modifiers::control().union(Modifiers::shift()), key: VirtualKey::C }
}

#[test]
fn ignores_case() {
    let config: &[u8] = b"
         max_STACK_size = nonE
         clear_keybinding = CTRL + shift + c
      ";
    let parsed_cfg = parse_config(config);
    assert!(parsed_cfg.is_ok());
    let parsed_cfg = parsed_cfg.unwrap();
    assert!(parsed_cfg.max_stack_size.is_none());
    assert_eq!(
        parsed_cfg.clear_keybinding,
        Some(Hotkey {
            modifiers: Modifiers::control().union(Modifiers::shift()),
            key: VirtualKey::C,
        })
    );
}

#[test]
fn parses_default_config() {
    assert_eq!(parse_config(DEFAULT_CONFIG.as_bytes()).unwrap(), Config::default());
}

#[test]
fn ignores_blank_lines() {
    let config_blank_lines: &[u8] = b"



      max_stack_size = 100




      ";
    assert!(parse_config(config_blank_lines).is_ok());
}

#[test]
fn default_config_has_the_documented_values() {
    let config = Config::default();
    assert_eq!(config.max_stack_size, Some(100));
    assert!(config.show_tray_icon);
    assert_eq!(config.pop_keybinding, Some(control_shift_c()));
    assert_eq!(config.swap_keybinding, None);
    assert_eq!(config.clear_keybinding, None);
    assert!(!config.prevent_duplicate_push);
}

#[test]
fn default_text_is_the_documented_template() {
    assert_eq!(
        DEFAULT_CONFIG,
        "max_stack_size = 100\nshow_tray_icon = true\npop_keybinding = Control + Shift + C\nswap_keybinding = None\nclear_keybinding = None\nprevent_duplicate_push = false\n"
    );
}

#[test]
fn empty_text_gives_the_defaults() {
    assert_eq!(parse_config(b"").unwrap(), Config::default());
    assert_eq!(parse_config(b"\n\n \t \n").unwrap(), Config::default());
}

#[test]
fn mixed_case_parses_like_lower_case() {
    let upper = parse_config(b"max_STACK_size = nonE").unwrap();
    let lower = parse_config(b"max_stack_size = none").unwrap();
    assert_eq!(upper, lower);
    assert_eq!(upper.max_stack_size, None);
    let upper = parse_config(b"SHOW_TRAY_ICON = FALSE\nPop_Keybinding = ALT + F4").unwrap();
    let lower = parse_config(b"show_tray_icon = false\npop_keybinding = alt + f4").unwrap();
    assert_eq!(upper, lower);
    assert!(!upper.show_tray_icon);
    assert_eq!(
        upper.pop_keybinding,
        Some(Hotkey { key: VirtualKey::F4, modifiers: Modifiers::alt() })
    );
}

#[test]
fn every_option_is_set() {
    let text: &[u8] = b"max_stack_size = 7\nshow_tray_icon = false\nprevent_duplicate_push = true\npop_keybinding = none\nclear_keybinding = win + delete\nswap_keybinding = ctrl + alt + s\n";
    let config = parse_config(text).unwrap();
    assert_eq!(
        config,
        Config {
            max_stack_size: Some(7),
            show_tray_icon: false,
            pop_keybinding: None,
            clear_keybinding: Some(Hotkey {
                key: VirtualKey::Delete,
                modifiers: Modifiers::windows(),
            }),
            swap_keybinding: Some(Hotkey {
                key: VirtualKey::S,
                modifiers: Modifiers::control().union(Modifiers::alt()),
            }),
            prevent_duplicate_push: true,
        }
    );
}

#[test]
fn later_line_wins() {
    let config = parse_config(b"max_stack_size = 1\nmax_stack_size = 2\nmax_stack_size = 3").unwrap();
    assert_eq!(config.max_stack_size, Some(3));
    let config = parse_config(b"show_tray_icon = false\nshow_tray_icon = true").unwrap();
    assert!(config.show_tray_icon);
}

#[test]
fn blank_lines_count_in_the_line_index() {
    match parse_config(b"foo = bar") {
        Err(ParseError::Line(LineError::UnknownOption(name), 0)) => assert_eq!(name, "foo"),
        other => panic!("unexpected: {:?}", other),
    }
    match parse_config(b"\n   \n\t\nfoo = bar\n\n") {
        Err(ParseError::Line(LineError::UnknownOption(name), 3)) => assert_eq!(name, "foo"),
        other => panic!("unexpected: {:?}", other),
    }
}

#[test]
fn unknown_option_is_reported_with_its_line() {
    match parse_config(b"max_stack_size = 5\nshow_tray_icon = true\nfoo = bar\nbaz = 1") {
        Err(ParseError::Line(LineError::UnknownOption(name), 2)) => assert_eq!(name, "foo"),
        other => panic!("unexpected: {:?}", other),
    }
}

#[test]
fn unknown_option_is_reported_in_lower_case_and_trimmed() {
    match parse_config(b"   Foo Bar  = 1") {
        Err(ParseError::Line(LineError::UnknownOption(name), 0)) => assert_eq!(name, "foo bar"),
        other => panic!("unexpected: {:?}", other),
    }
}

#[test]
fn non_integer_stack_size_is_refused() {
    assert!(matches!(
        parse_config(b"max_stack_size = abc"),
        Err(ParseError::Line(LineError::ExpectedInt(_), 0))
    ));
    assert!(matches!(
        parse_config(b"max_stack_size = "),
        Err(ParseError::Line(LineError::ExpectedInt(_), 0))
    ));
    assert!(matches!(
        parse_config(b"max_stack_size = -1"),
        Err(ParseError::Line(LineError::ExpectedInt(_), 0))
    ));
    assert!(matches!(
        parse_config(b"max_stack_size = 1 0"),
        Err(ParseError::Line(LineError::ExpectedInt(_), 0))
    ));
}

#[test]
fn stack_size_that_overflows_is_refused() {
    assert!(matches!(
        parse_config(b"max_stack_size = 340282366920938463463374607431768211456"),
        Err(ParseError::Line(LineError::ExpectedInt(_), 0))
    ));
    let most = format!("max_stack_size = {}", usize::MAX);
    assert_eq!(parse_config(most.as_bytes()).unwrap().max_stack_size, Some(usize::MAX));
}

#[test]
fn stack_size_takes_a_plus_sign_and_leading_zeros() {
    assert_eq!(parse_config(b"max_stack_size = +5").unwrap().max_stack_size, Some(5));
    assert_eq!(parse_config(b"max_stack_size = 007").unwrap().max_stack_size, Some(7));
    assert_eq!(parse_config(b"max_stack_size = 0").unwrap().max_stack_size, Some(0));
}

#[test]
fn bool_must_be_true_or_false() {
    match parse_config(b"show_tray_icon = Yes") {
        Err(ParseError::Line(LineError::ExpectedBool(got), 0)) => assert_eq!(got, "yes"),
        other => panic!("unexpected: {:?}", other),
    }
    match parse_config(b"\nprevent_duplicate_push = 1") {
        Err(ParseError::Line(LineError::ExpectedBool(got), 1)) => assert_eq!(got, "1"),
        other => panic!("unexpected: {:?}", other),
    }
    assert!(parse_config(b"prevent_duplicate_push = TRUE").unwrap().prevent_duplicate_push);
}

#[test]
fn line_needs_exactly_one_equals_sign() {
    assert!(matches!(
        parse_config(b"max_stack_size"),
        Err(ParseError::Line(LineError::Malformed, 0))
    ));
    assert!(matches!(
        parse_config(b"\nmax_stack_size = 1 = 2"),
        Err(ParseError::Line(LineError::Malformed, 1))
    ));
    assert!(matches!(parse_config(b"="), Err(ParseError::Line(LineError::UnknownOption(_), 0))));
}

#[test]
fn binding_errors_come_through_with_their_line() {
    match parse_config(b"\npop_keybinding = ctrl + nosuchkey") {
        Err(ParseError::Line(LineError::UnknownKey(got), 1)) => assert_eq!(got, "nosuchkey"),
        other => panic!("unexpected: {:?}", other),
    }
    match parse_config(b"swap_keybinding = Hyper + c") {
        Err(ParseError::Line(LineError::UnknownModifier(got), 0)) => assert_eq!(got, "hyper"),
        other => panic!("unexpected: {:?}", other),
    }
    assert!(matches!(
        parse_config(b"clear_keybinding = shift + none"),
        Err(ParseError::Line(LineError::ModifierWithNoKey, 0))
    ));
}

#[test]
fn first_refused_line_is_the_one_reported() {
    assert!(matches!(
        parse_config(b"show_tray_icon = maybe\nfoo = bar"),
        Err(ParseError::Line(LineError::ExpectedBool(_), 0))
    ));
}

#[test]
fn text_that_is_not_utf8_is_an_io_error() {
    assert!(matches!(parse_config(b"max_stack_size = 1\n\xff\xfe = 2"), Err(ParseError::Io(_))));
    assert!(matches!(
        parse_config(b"foo = 1\n\xff\xfe = 2"),
        Err(ParseError::Line(LineError::UnknownOption(_), 0))
    ));
}

#[test]
fn carriage_returns_and_unicode_space_are_trimmed() {
    let config = parse_config(b"max_stack_size = 3\r\nshow_tray_icon = false\r\n").unwrap();
    assert_eq!(config.max_stack_size, Some(3));
    assert!(!config.show_tray_icon);
    let config = parse_config("\u{00A0}max_stack_size\u{2003}=\u{3000}12\u{2028}".as_bytes()).unwrap();
    assert_eq!(config.max_stack_size, Some(12));
}

#[test]
fn letters_beyond_ascii_are_not_folded() {
    match parse_config("ÄB = 1".as_bytes()) {
        Err(ParseError::Line(LineError::UnknownOption(name), 0)) => assert_eq!(name, "Äb"),
        other => panic!("unexpected: {:?}", other),
    }
}

#[test]
fn hotkey_none() {
    assert_eq!(parse_hotkey("none").unwrap(), None);
    assert_eq!(parse_hotkey("  None ").unwrap(), None);
}

#[test]
fn hotkey_none_with_modifier_is_refused() {
    assert!(matches!(parse_hotkey("shift + none"), Err(LineError::ModifierWithNoKey)));
    assert!(matches!(parse_hotkey("+none"), Err(LineError::ModifierWithNoKey)));
}

#[test]
fn hotkey_with_two_modifiers() {
    assert_eq!(parse_hotkey("ctrl + shift + c").unwrap(), Some(control_shift_c()));
}

#[test]
fn hotkey_modifier_order_does_not_matter() {
    assert_eq!(parse_hotkey("shift + ctrl + c").unwrap(), parse_hotkey("ctrl + shift + c").unwrap());
    assert_eq!(parse_hotkey("shift + ctrl + c").unwrap(), Some(control_shift_c()));
    assert_eq!(
        parse_hotkey("alt+win+shift+control+x").unwrap(),
        parse_hotkey("control+shift+win+alt+x").unwrap()
    );
}

#[test]
fn hotkey_repeated_modifier_is_harmless() {
    assert_eq!(parse_hotkey("ctrl + control + shift + ctrl + c").unwrap(), Some(control_shift_c()));
}

#[test]
fn hotkey_without_modifiers() {
    assert_eq!(
        parse_hotkey("F12").unwrap(),
        Some(Hotkey { key: VirtualKey::F12, modifiers: Modifiers::empty() })
    );
}

#[test]
fn hotkey_with_a_modifier_key_as_trigger() {
    let hotkey = parse_hotkey("ctrl + shift").unwrap().unwrap();
    assert_eq!(hotkey, Hotkey { key: VirtualKey::Shift, modifiers: Modifiers::control() });
    assert!(hotkey.key.is_modifier());
}

#[test]
fn hotkey_unknown_key() {
    match parse_hotkey("ctrl + Foo") {
        Err(LineError::UnknownKey(got)) => assert_eq!(got, "Foo"),
        other => panic!("unexpected: {:?}", other),
    }
    match parse_hotkey("CTRL +  F99\t") {
        Err(LineError::UnknownKey(got)) => assert_eq!(got, "F99"),
        other => panic!("unexpected: {:?}", other),
    }
    match parse_hotkey("") {
        Err(LineError::UnknownKey(got)) => assert_eq!(got, ""),
        other => panic!("unexpected: {:?}", other),
    }
    match parse_hotkey("ctrl + ") {
        Err(LineError::UnknownKey(got)) => assert_eq!(got, ""),
        other => panic!("unexpected: {:?}", other),
    }
}

#[test]
fn hotkey_unknown_modifier_is_the_rightmost_one() {
    match parse_hotkey("foo + ctrl + bar + c") {
        Err(LineError::UnknownModifier(got)) => assert_eq!(got, "bar"),
        other => panic!("unexpected: {:?}", other),
    }
    match parse_hotkey("c + c") {
        Err(LineError::UnknownModifier(got)) => assert_eq!(got, "c"),
        other => panic!("unexpected: {:?}", other),
    }
}

#[test]
fn hotkey_key_is_checked_before_modifiers() {
    assert!(matches!(parse_hotkey("foo + bar"), Err(LineError::UnknownKey(_))));
}

#[test]
fn line_by_line() {
    assert_eq!(parse_line("").unwrap(), None);
    assert_eq!(parse_line(" \t ").unwrap(), None);
    assert_eq!(parse_line(" Max_Stack_Size = 12 ").unwrap(), Some(Setting::MaxStackSize(Some(12))));
    assert_eq!(parse_line("show_tray_icon=false").unwrap(), Some(Setting::ShowTrayIcon(false)));
    assert_eq!(
        parse_line("prevent_duplicate_push = true").unwrap(),
        Some(Setting::PreventDuplicatePush(true))
    );
    assert_eq!(
        parse_line("pop_keybinding = ctrl+shift+c").unwrap(),
        Some(Setting::PopKeybinding(Some(control_shift_c())))
    );
    assert_eq!(parse_line("clear_keybinding = none").unwrap(), Some(Setting::ClearKeybinding(None)));
    assert_eq!(
        parse_line("swap_keybinding = tab").unwrap(),
        Some(Setting::SwapKeybinding(Some(Hotkey {
            key: VirtualKey::Tab,
            modifiers: Modifiers::empty()
        })))
    );
    assert!(matches!(parse_line("what"), Err(LineError::Malformed)));
}

#[test]
fn apply_sets_one_option() {
    let mut config = Config::default();
    config.apply(Setting::MaxStackSize(None));
    assert_eq!(config, Config { max_stack_size: None, ..Config::default() });
    config.apply(Setting::SwapKeybinding(Some(control_shift_c())));
    assert_eq!(
        config,
        Config {
            max_stack_size: None,
            swap_keybinding: Some(control_shift_c()),
            ..Config::default()
        }
    );
}

#[test]
fn interrupted_text_reports_the_failure_to_read() {
    let failure = std::io::Error::new(std::io::ErrorKind::Other, "gone");
    match parse_interrupted(b"max_stack_size = 1\nfoo = ", failure) {
        ParseError::Io(e) => assert_eq!(e.to_string(), "gone"),
        other => panic!("unexpected: {:?}", other),
    }
}

#[test]
fn interrupted_text_reports_an_earlier_refusal_first() {
    let failure = std::io::Error::new(std::io::ErrorKind::Other, "gone");
    assert!(matches!(
        parse_interrupted(b"max_stack_size = 1\nfoo = 2\nshow_tr", failure),
        ParseError::Line(LineError::UnknownOption(_), 1)
    ));
}

#[test]
fn line_error_from_key_and_modifier_errors() {
    let e = VirtualKey::parse("nokey").unwrap_err();
    match LineError::from(e) {
        LineError::UnknownKey(got) => assert_eq!(got, "nokey"),
        other => panic!("unexpected: {:?}", other),
    }
    let e = Modifiers::parse("nomod").unwrap_err();
    match LineError::from(e) {
        LineError::UnknownModifier(got) => assert_eq!(got, "nomod"),
        other => panic!("unexpected: {:?}", other),
    }
}

#[test]
fn default_text_round_trip() {
    assert_eq!(default_text(), DEFAULT_CONFIG.as_bytes());
    assert_eq!(parse_config(default_text()).unwrap(), Config::default());
}

#[test]
fn hotkey_refused_token_is_reported_as_written() {
    match parse_hotkey("Q + c") {
        Err(LineError::UnknownModifier(got)) => assert_eq!(got, "Q"),
        other => panic!("unexpected: {:?}", other),
    }
    match parse_hotkey(" Hyper  + Ctrl + C") {
        Err(LineError::UnknownModifier(got)) => assert_eq!(got, "Hyper"),
        other => panic!("unexpected: {:?}", other),
    }
    match parse_config(b"pop_keybinding = Q + c") {
        Err(ParseError::Line(LineError::UnknownModifier(got), 0)) => assert_eq!(got, "q"),
        other => panic!("unexpected: {:?}", other),
    }
}

#[test]
fn hotkey_tokens_count_in_either_case() {
    assert_eq!(parse_hotkey("CTRL + Shift + C").unwrap(), Some(control_shift_c()));
    assert_eq!(parse_hotkey("NONE").unwrap(), None);
    assert!(matches!(parse_hotkey("Shift + NoNe"), Err(LineError::ModifierWithNoKey)));
    let text: Vec<char> = "Alt + PageUp".chars().collect();
    assert_eq!(
        parse_binding(&text).unwrap(),
        Some(Hotkey { key: VirtualKey::PageUp, modifiers: Modifiers::alt() })
    );
}

#[test]
fn stack_size_error_is_the_one_for_the_text() {
    for (text, value) in [("abc", "abc"), ("", ""), ("99999999999999999999999999", "99999999999999999999999999"), ("-1", "-1"), ("+", "+")] {
        let line = format!("max_stack_size = {}", text);
        match parse_config(line.as_bytes()) {
            Err(ParseError::Line(LineError::ExpectedInt(reason), 0)) => {
                assert_eq!(reason, value.parse::<usize>().unwrap_err())
            }
            other => panic!("unexpected: {:?}", other),
        }
    }
}

#[test]
fn parse_error_from_io_error() {
    let e = std::io::Error::new(std::io::ErrorKind::Other, "gone");
    match ParseError::from(e) {
        ParseError::Io(e) => assert_eq!(e.to_string(), "gone"),
        other => panic!("unexpected: {:?}", other),
    }
}
