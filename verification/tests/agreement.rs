use ripclip::config::{parse_config, parse_hotkey, Config, Hotkey, LineError, ParseError};
use ripclip::win::{Modifiers, VirtualKey};
use std::io::BufRead;

/// The outcome of a parse in words, for comparing.
fn told(outcome: Result<Config, ParseError>) -> String {
    match outcome {
        Ok(config) => format!("{:?}", config),
        Err(ParseError::Io(_)) => "io".to_string(),
        Err(ParseError::Line(e, index)) => format!("{} at {}", told_line(e), index),
    }
}

fn told_line(e: LineError) -> String {
    match e {
        LineError::ExpectedInt(reason) => format!("ExpectedInt({:?})", reason),
        other => format!("{:?}", other),
    }
}

/// A binding read with the standard library's own string functions.
fn binding_by_std(hotkey: &str) -> Result<Option<Hotkey>, LineError> {
    let mut tokens = hotkey.split('+').rev();
    let raw_key = tokens.next().unwrap().trim();
    if raw_key.eq_ignore_ascii_case("none") {
        if tokens.next().is_some() {
            return Err(LineError::ModifierWithNoKey);
        }
        return Ok(None);
    }
    let key = VirtualKey::parse(raw_key)?;
    let mut modifiers = Modifiers::empty();
    for token in tokens {
        modifiers = modifiers.union(Modifiers::parse(token.trim())?);
    }
    Ok(Some(Hotkey { key, modifiers }))
}

fn bool_by_std(value: &str) -> Result<bool, LineError> {
    match value {
        "true" => Ok(true),
        "false" => Ok(false),
        other => Err(LineError::ExpectedBool(other.to_owned())),
    }
}

/// A configuration read with the standard library's own string functions.
fn config_by_std(input: &[u8]) -> Result<Config, ParseError> {
    let mut config = Config::default();
    for (i, line) in input.lines().enumerate() {
        let mut line = match line {
            Ok(line) => line,
            Err(e) => return Err(ParseError::Io(e)),
        };
        line.make_ascii_lowercase();
        let line = line.trim();
        if line.is_empty() {
            continue;
        }
        let pieces: Vec<&str> = line.split('=').collect();
        if pieces.len() != 2 {
            return Err(ParseError::Line(LineError::Malformed, i));
        }
        let value = pieces[1].trim();
        let done = match pieces[0].trim() {
            "max_stack_size" => {
                if value == "none" {
                    config.max_stack_size = None;
                    Ok(())
                } else {
                    match value.parse::<usize>() {
                        Ok(n) => {
                            config.max_stack_size = Some(n);
                            Ok(())
                        }
                        Err(e) => Err(LineError::ExpectedInt(e)),
                    }
                }
            }
            "show_tray_icon" => bool_by_std(value).map(|flag| config.show_tray_icon = flag),
            "prevent_duplicate_push" => {
                bool_by_std(value).map(|flag| config.prevent_duplicate_push = flag)
            }
            "pop_keybinding" => binding_by_std(value).map(|b| config.pop_keybinding = b),
            "clear_keybinding" => binding_by_std(value).map(|b| config.clear_keybinding = b),
            "swap_keybinding" => binding_by_std(value).map(|b| config.swap_keybinding = b),
            other => Err(LineError::UnknownOption(other.to_owned())),
        };
        if let Err(e) = done {
            return Err(ParseError::Line(e, i));
        }
    }
    Ok(config)
}

const PARTS: [&[u8]; 40] = [
    b"max_stack_size",
    b"show_tray_icon",
    b"prevent_duplicate_push",
    b"pop_keybinding",
    b"clear_keybinding",
    b"swap_keybinding",
    b"Max_Stack_Size",
    b"POP_KEYBINDING",
    b"=",
    b"=",
    b" = ",
    b"+",
    b" + ",
    b" ",
    b"\t",
    b"\n",
    b"\n",
    b"\r\n",
    b"\n\n",
    b"none",
    b"None",
    b"true",
    b"FALSE",
    b"ctrl",
    b"Control",
    b"shift",
    b"alt",
    b"win",
    b"c",
    b"F12",
    b"delete",
    b"hyper",
    b"100",
    b"+7",
    b"-3",
    b"99999999999999999999999999",
    b"\xc2\xa0",
    b"\xe3\x80\x80",
    b"\xc3\x84",
    b"\xff",
];

fn next(state: &mut u64) -> usize {
    *state = (*state).wrapping_mul(6364136223846793005).wrapping_add(1442695040888963407);
    (*state >> 33) as usize
}

fn sample(state: &mut u64) -> Vec<u8> {
    let count = next(state) % 14;
    let mut text = Vec::new();
    for _ in 0..count {
        text.extend_from_slice(PARTS[next(state) % PARTS.len()]);
    }
    text
}

#[test]
fn configurations_agree_with_the_standard_library() {
    let mut state: u64 = 0x2545_F491_4F6C_DD1D;
    let mut accepted = 0;
    for _ in 0..40000 {
        let text = sample(&mut state);
        let ours = told(parse_config(&text));
        let theirs = told(config_by_std(&text));
        assert_eq!(ours, theirs, "on {:?}", String::from_utf8_lossy(&text));
        if parse_config(&text).is_ok() {
            accepted += 1;
        }
    }
    assert!(accepted > 100);
}

#[test]
fn bindings_agree_with_the_standard_library() {
    let mut state: u64 = 0x9E37_79B9_7F4A_7C15;
    for _ in 0..20000 {
        let bytes = sample(&mut state);
        let text = String::from_utf8_lossy(&bytes).into_owned();
        let ours = parse_hotkey(&text).map_err(told_line);
        let theirs = binding_by_std(&text).map_err(told_line);
        assert_eq!(ours, theirs, "on {:?}", text);
    }
}
