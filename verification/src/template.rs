//! The default text, read line by line: the proof that parsing it gives the
//! default configuration.

use vstd::prelude::*;
use vstd::string::StringSliceAdditionalSpecFns;
use vstd::utf8::{
    decode_utf8, encode_utf8, encode_utf8_decode_utf8, encode_utf8_valid_utf8, is_ascii_chars,
    is_ascii_chars_encode_utf8, valid_utf8,
};
use crate::config::{
    config_of, hotkey_of, line_effect, modifiers_of, setting_of, Config, Hotkey, LineFault,
    ParseFault, Setting, DEFAULT_CONFIG,
};
use crate::keys::{Modifier, Modifiers};
use crate::laws::{lemma_default_text_gives_defaults, restates_defaults};
use crate::number::{decimal_digits, lemma_decimal_round_trip};
use crate::text::{
    all_whitespace, is_trimmed, join, lemma_lower_idempotent, lemma_split_concat,
    lemma_split_single, lemma_trim_padded, lower, split, trim,
};

verus! {

/// An ASCII line without a line feed encodes to bytes without one, which
/// decode to the line.
pub proof fn lemma_encoded_line(line: Seq<char>)
    requires
        is_ascii_chars(line),
        !line.contains('\n'),
    ensures
        !encode_utf8(line).contains(10u8),
        valid_utf8(encode_utf8(line)),
        decode_utf8(encode_utf8(line)) == line,
{
    is_ascii_chars_encode_utf8(line);
    encode_utf8_valid_utf8(line);
    encode_utf8_decode_utf8(line);
    let bytes = encode_utf8(line);
    assert forall|i: int| 0 <= i < bytes.len() implies bytes[i] != 10u8 by {
        assert(line.contains(line[i]));
        assert(line[i] as u8 == bytes[i]);
    }
}

/// The encoding of two ASCII texts with a line feed between them is the
/// encoding of the one, the byte 10, and the encoding of the other.
pub proof fn lemma_encoded_feed(a: Seq<char>, b: Seq<char>)
    requires
        is_ascii_chars(a),
        is_ascii_chars(b),
    ensures
        is_ascii_chars(a + seq!['\n'] + b),
        encode_utf8(a + seq!['\n'] + b) == encode_utf8(a) + seq![10u8] + encode_utf8(b),
{
    let whole = a + seq!['\n'] + b;
    assert forall|i: int| 0 <= i < whole.len() implies '\0' <= #[trigger] whole[i] <= '\u{7f}' by {
        if i < a.len() {
            assert(whole[i] == a[i]);
        } else if i > a.len() {
            assert(whole[i] == b[i - a.len() - 1]);
        }
    }
    is_ascii_chars_encode_utf8(a);
    is_ascii_chars_encode_utf8(b);
    is_ascii_chars_encode_utf8(whole);
    let left = encode_utf8(whole);
    let right = encode_utf8(a) + seq![10u8] + encode_utf8(b);
    assert forall|i: int| 0 <= i < left.len() implies left[i] == right[i] by {
        assert(whole[i] as u8 == left[i]);
        if i < a.len() {
            assert(whole[i] == a[i]);
            assert(a[i] as u8 == encode_utf8(a)[i]);
        } else if i > a.len() {
            assert(whole[i] == b[i - a.len() - 1]);
            assert(b[i - a.len() - 1] as u8 == encode_utf8(b)[i - a.len() - 1]);
        }
    }
    assert(left =~= right);
}

/// The bytes of ASCII lines that are joined by line feeds split into the
/// bytes of each line.
pub proof fn lemma_lines_of_ascii_text(lines: Seq<Seq<char>>)
    requires
        lines.len() > 0,
        forall|i: int|
            0 <= i < lines.len() ==> is_ascii_chars(#[trigger] lines[i]) && !lines[i].contains(
                '\n',
            ),
    ensures
        is_ascii_chars(join(lines, '\n')),
        split(encode_utf8(join(lines, '\n')), 10u8) == Seq::new(
            lines.len(),
            |i: int| encode_utf8(lines[i]),
        ),
    decreases lines.len(),
{
    let encoded = Seq::new(lines.len(), |i: int| encode_utf8(lines[i]));
    assert(is_ascii_chars(lines[0]));
    if lines.len() == 1 {
        lemma_encoded_line(lines[0]);
        lemma_split_single(encode_utf8(lines[0]), 10u8);
        assert(seq![encode_utf8(lines[0])] =~= encoded);
    } else {
        let init = lines.drop_last();
        assert forall|i: int| 0 <= i < init.len() implies is_ascii_chars(#[trigger] init[i])
            && !init[i].contains('\n') by {
            assert(init[i] == lines[i]);
        }
        lemma_lines_of_ascii_text(init);
        assert(is_ascii_chars(lines[lines.len() - 1]));
        lemma_encoded_feed(join(init, '\n'), lines.last());
        lemma_encoded_line(lines.last());
        lemma_split_concat(encode_utf8(join(init, '\n')), encode_utf8(lines.last()), 10u8);
        lemma_split_single(encode_utf8(lines.last()), 10u8);
        assert(Seq::new(init.len(), |i: int| encode_utf8(init[i])) + seq![
            encode_utf8(lines.last()),
        ] =~= encoded);
    }
}

/// What a lower-case line with one `=` asks for, where nothing but
/// whitespace stands between the sign and the name, and the sign and the
/// value.
proof fn lemma_statement(line: Seq<char>, name: Seq<char>, gap: Seq<char>, value: Seq<char>)
    requires
        lower(line) == line,
        line == name + gap + seq!['='] + gap + value,
        all_whitespace(gap),
        is_trimmed(name),
        is_trimmed(value),
        name.len() > 0,
        value.len() > 0,
        !name.contains('='),
        !gap.contains('='),
        !value.contains('='),
    ensures
        line_effect(line) matches Ok(Some(setting)) ==> setting_of(name, value) == Ok::<
            Setting,
            LineFault,
        >(setting),
        line_effect(line) matches Err(fault) ==> setting_of(name, value) == Err::<
            Setting,
            LineFault,
        >(fault),
        line_effect(line) != Ok::<Option<Setting>, LineFault>(None),
{
    let left = name + gap;
    let right = gap + value;
    assert(line == left + seq!['='] + right);
    assert(line.first() == name.first());
    assert(line.last() == value.last());
    lemma_trim_padded(Seq::empty(), line, Seq::empty());
    assert(Seq::<char>::empty() + line + Seq::<char>::empty() == line);
    lemma_pieces(left, right);
    lemma_trim_padded(Seq::empty(), name, gap);
    assert(Seq::<char>::empty() + name + gap == left);
    lemma_trim_padded(gap, value, Seq::empty());
    assert(gap + value + Seq::<char>::empty() == right);
}

/// The two pieces around a single `=`.
proof fn lemma_pieces(left: Seq<char>, right: Seq<char>)
    requires
        !left.contains('='),
        !right.contains('='),
    ensures
        split(left + seq!['='] + right, '=') == seq![left, right],
{
    lemma_split_concat(left, right, '=');
    lemma_split_single(left, '=');
    lemma_split_single(right, '=');
    assert(seq![left] + seq![right] == seq![left, right]);
}

/// `control + shift + c` binds the key C with Control and Shift.
proof fn lemma_default_binding()
    ensures
        hotkey_of("control + shift + c"@) == Ok::<Option<Hotkey>, LineFault>(
            Config::initial().pop_keybinding,
        ),
{
    reveal_strlit("control + shift + c");
    reveal_strlit("control ");
    reveal_strlit(" shift ");
    reveal_strlit(" c");
    reveal_strlit("control");
    reveal_strlit("shift");
    reveal_strlit("ctrl");
    reveal_strlit("c");
    reveal_strlit("none");
    reveal_strlit(" ");
    let text = "control + shift + c"@;
    let first = "control "@;
    let second = " shift "@;
    let third = " c"@;
    assert(text =~= first + seq!['+'] + second + seq!['+'] + third);
    lemma_split_concat(first + seq!['+'] + second, third, '+');
    lemma_split_concat(first, second, '+');
    lemma_split_single(first, '+');
    lemma_split_single(second, '+');
    lemma_split_single(third, '+');
    let tokens = seq![first, second, third];
    assert(seq![first] + seq![second] + seq![third] == tokens);
    assert(split(text, '+') == tokens);
    assert(first =~= Seq::<char>::empty() + "control"@ + " "@);
    lemma_trim_padded(Seq::empty(), "control"@, " "@);
    assert(second =~= " "@ + "shift"@ + " "@);
    lemma_trim_padded(" "@, "shift"@, " "@);
    assert(third =~= " "@ + "c"@ + Seq::<char>::empty());
    lemma_trim_padded(" "@, "c"@, Seq::empty());
    assert(trim(tokens.last()) == "c"@);
    assert(lower("c"@) =~= "c"@);
    assert(lower("shift"@) =~= "shift"@);
    assert(lower("control"@) =~= "control"@);
    assert("c"@ != "none"@);
    let modifiers = tokens.drop_last();
    assert(modifiers == seq![first, second]);
    assert(modifiers.drop_last() == seq![first]);
    assert(seq![first].drop_last() == Seq::<Seq<char>>::empty());
    assert(modifiers_of(Seq::empty()) == Ok::<Modifiers, LineFault>(Modifiers::none()));
    assert(modifiers_of(seq![first]) == Ok::<Modifiers, LineFault>(
        Modifiers::only(Modifier::Control).or(Modifiers::none()),
    ));
    assert("shift"@ != "control"@);
    assert("shift"@ != "ctrl"@);
    assert(modifiers_of(modifiers) == Ok::<Modifiers, LineFault>(
        Modifiers::only(Modifier::Shift).or(
            Modifiers::only(Modifier::Control).or(Modifiers::none()),
        ),
    ));
}

/// A lone `none` binds nothing.
proof fn lemma_no_binding()
    ensures
        hotkey_of("none"@) == Ok::<Option<Hotkey>, LineFault>(None),
{
    reveal_strlit("none");
    assert(lower("none"@) =~= "none"@);
    lemma_split_single("none"@, '+');
    lemma_trim_padded(Seq::empty(), "none"@, Seq::empty());
    assert(Seq::<char>::empty() + "none"@ + Seq::<char>::empty() == "none"@);
}

proof fn lemma_stack_size_line()
    ensures
        is_ascii_chars("max_stack_size = 100"@),
        !"max_stack_size = 100"@.contains('\n'),
        line_effect("max_stack_size = 100"@) == Ok::<Option<Setting>, LineFault>(
            Some(Setting::MaxStackSize(Some(100usize))),
        ),
{
    reveal_strlit("max_stack_size = 100");
    reveal_strlit("max_stack_size");
    reveal_strlit("100");
    reveal_strlit("none");
    reveal_strlit(" ");
    let line = "max_stack_size = 100"@;
    assert(lower(line) =~= line);
    assert(line =~= "max_stack_size"@ + " "@ + seq!['='] + " "@ + "100"@);
    lemma_statement(line, "max_stack_size"@, " "@, "100"@);
    assert("100"@ != "none"@);
    lemma_decimal_round_trip(100);
    reveal_with_fuel(decimal_digits, 3);
    assert(decimal_digits(100) =~= "100"@);
}

proof fn lemma_tray_icon_line()
    ensures
        is_ascii_chars("show_tray_icon = true"@),
        !"show_tray_icon = true"@.contains('\n'),
        line_effect("show_tray_icon = true"@) == Ok::<Option<Setting>, LineFault>(
            Some(Setting::ShowTrayIcon(true)),
        ),
{
    reveal_strlit("show_tray_icon = true");
    reveal_strlit("show_tray_icon");
    reveal_strlit("max_stack_size");
    reveal_strlit("true");
    reveal_strlit(" ");
    let line = "show_tray_icon = true"@;
    assert(lower(line) =~= line);
    assert(line =~= "show_tray_icon"@ + " "@ + seq!['='] + " "@ + "true"@);
    lemma_statement(line, "show_tray_icon"@, " "@, "true"@);
    assert("show_tray_icon"@ != "max_stack_size"@);
}

proof fn lemma_duplicate_push_line()
    ensures
        is_ascii_chars("prevent_duplicate_push = false"@),
        !"prevent_duplicate_push = false"@.contains('\n'),
        line_effect("prevent_duplicate_push = false"@) == Ok::<Option<Setting>, LineFault>(
            Some(Setting::PreventDuplicatePush(false)),
        ),
{
    reveal_strlit("prevent_duplicate_push = false");
    reveal_strlit("prevent_duplicate_push");
    reveal_strlit("max_stack_size");
    reveal_strlit("show_tray_icon");
    reveal_strlit("true");
    reveal_strlit("false");
    reveal_strlit(" ");
    let line = "prevent_duplicate_push = false"@;
    assert(lower(line) =~= line);
    assert(line =~= "prevent_duplicate_push"@ + " "@ + seq!['='] + " "@ + "false"@);
    lemma_statement(line, "prevent_duplicate_push"@, " "@, "false"@);
    assert("prevent_duplicate_push"@ != "max_stack_size"@);
    assert("prevent_duplicate_push"@ != "show_tray_icon"@);
    assert("false"@ != "true"@);
}

proof fn lemma_pop_line()
    ensures
        is_ascii_chars("pop_keybinding = Control + Shift + C"@),
        !"pop_keybinding = Control + Shift + C"@.contains('\n'),
        line_effect("pop_keybinding = Control + Shift + C"@) == Ok::<Option<Setting>, LineFault>(
            Some(Setting::PopKeybinding(Config::initial().pop_keybinding)),
        ),
{
    reveal_strlit("pop_keybinding = Control + Shift + C");
    reveal_strlit("pop_keybinding = control + shift + c");
    reveal_strlit("control + shift + c");
    reveal_strlit("pop_keybinding");
    reveal_strlit("max_stack_size");
    reveal_strlit("show_tray_icon");
    reveal_strlit("prevent_duplicate_push");
    reveal_strlit(" ");
    let line = "pop_keybinding = Control + Shift + C"@;
    let low = "pop_keybinding = control + shift + c"@;
    assert(lower(line) =~= low);
    lemma_lower_idempotent(line);
    assert(low =~= "pop_keybinding"@ + " "@ + seq!['='] + " "@ + "control + shift + c"@);
    lemma_statement(low, "pop_keybinding"@, " "@, "control + shift + c"@);
    assert("pop_keybinding"@ != "max_stack_size"@);
    assert("pop_keybinding"@ != "show_tray_icon"@);
    assert("pop_keybinding"@ != "prevent_duplicate_push"@);
    lemma_default_binding();
}

proof fn lemma_swap_line()
    ensures
        is_ascii_chars("swap_keybinding = None"@),
        !"swap_keybinding = None"@.contains('\n'),
        line_effect("swap_keybinding = None"@) == Ok::<Option<Setting>, LineFault>(
            Some(Setting::SwapKeybinding(None)),
        ),
{
    reveal_strlit("swap_keybinding = None");
    reveal_strlit("swap_keybinding = none");
    reveal_strlit("none");
    reveal_strlit("swap_keybinding");
    reveal_strlit("max_stack_size");
    reveal_strlit("show_tray_icon");
    reveal_strlit("prevent_duplicate_push");
    reveal_strlit("pop_keybinding");
    reveal_strlit("clear_keybinding");
    reveal_strlit(" ");
    let line = "swap_keybinding = None"@;
    let low = "swap_keybinding = none"@;
    assert(lower(line) =~= low);
    lemma_lower_idempotent(line);
    assert(low =~= "swap_keybinding"@ + " "@ + seq!['='] + " "@ + "none"@);
    lemma_statement(low, "swap_keybinding"@, " "@, "none"@);
    assert("swap_keybinding"@ != "max_stack_size"@);
    assert("swap_keybinding"@ != "show_tray_icon"@);
    assert("swap_keybinding"@ != "prevent_duplicate_push"@);
    assert("swap_keybinding"@ != "pop_keybinding"@);
    assert("swap_keybinding"@ != "clear_keybinding"@);
    lemma_no_binding();
}

proof fn lemma_clear_line()
    ensures
        is_ascii_chars("clear_keybinding = None"@),
        !"clear_keybinding = None"@.contains('\n'),
        line_effect("clear_keybinding = None"@) == Ok::<Option<Setting>, LineFault>(
            Some(Setting::ClearKeybinding(None)),
        ),
{
    reveal_strlit("clear_keybinding = None");
    reveal_strlit("clear_keybinding = none");
    reveal_strlit("none");
    reveal_strlit("clear_keybinding");
    reveal_strlit("max_stack_size");
    reveal_strlit("show_tray_icon");
    reveal_strlit("prevent_duplicate_push");
    reveal_strlit("pop_keybinding");
    reveal_strlit(" ");
    let line = "clear_keybinding = None"@;
    let low = "clear_keybinding = none"@;
    assert(lower(line) =~= low);
    lemma_lower_idempotent(line);
    assert(low =~= "clear_keybinding"@ + " "@ + seq!['='] + " "@ + "none"@);
    lemma_statement(low, "clear_keybinding"@, " "@, "none"@);
    assert("clear_keybinding"@ != "max_stack_size"@);
    assert("clear_keybinding"@ != "show_tray_icon"@);
    assert("clear_keybinding"@ != "prevent_duplicate_push"@);
    assert("clear_keybinding"@ != "pop_keybinding"@);
    lemma_no_binding();
}

/// The default text is made of six lines that set each option to its
/// default value, each ended by a line feed: parsing it gives the default
/// configuration.
pub proof fn lemma_default_config_gives_defaults()
    ensures
        config_of(DEFAULT_CONFIG.spec_bytes()) == Ok::<Config, ParseFault>(Config::initial()),
{
    let l1 = "max_stack_size = 100"@;
    let l2 = "show_tray_icon = true"@;
    let l3 = "pop_keybinding = Control + Shift + C"@;
    let l4 = "swap_keybinding = None"@;
    let l5 = "clear_keybinding = None"@;
    let l6 = "prevent_duplicate_push = false"@;
    let l7 = Seq::<char>::empty();
    let feed = seq!['\n'];
    let s1 = seq![l1];
    let s2 = s1.push(l2);
    let s3 = s2.push(l3);
    let s4 = s3.push(l4);
    let s5 = s4.push(l5);
    let s6 = s5.push(l6);
    let lines = s6.push(l7);
    assert(s2.drop_last() == s1);
    assert(s3.drop_last() == s2);
    assert(s4.drop_last() == s3);
    assert(s5.drop_last() == s4);
    assert(s6.drop_last() == s5);
    assert(lines.drop_last() == s6);
    assert(join(s1, '\n') == l1);
    assert(join(s2, '\n') == l1 + feed + l2);
    assert(join(s3, '\n') == l1 + feed + l2 + feed + l3);
    assert(join(s4, '\n') == l1 + feed + l2 + feed + l3 + feed + l4);
    assert(join(s5, '\n') == l1 + feed + l2 + feed + l3 + feed + l4 + feed + l5);
    assert(join(s6, '\n') == l1 + feed + l2 + feed + l3 + feed + l4 + feed + l5 + feed + l6);
    let text = l1 + feed + l2 + feed + l3 + feed + l4 + feed + l5 + feed + l6 + feed + l7;
    assert(join(lines, '\n') == text);
    assert(text == DEFAULT_CONFIG@) by {
        reveal_strlit("max_stack_size = 100");
        reveal_strlit("show_tray_icon = true");
        reveal_strlit("pop_keybinding = Control + Shift + C");
        reveal_strlit("swap_keybinding = None");
        reveal_strlit("clear_keybinding = None");
        reveal_strlit("prevent_duplicate_push = false");
        reveal_strlit(
            "max_stack_size = 100\nshow_tray_icon = true\npop_keybinding = Control + Shift + C\nswap_keybinding = None\nclear_keybinding = None\nprevent_duplicate_push = false\n",
        );
        assert(text =~= DEFAULT_CONFIG@);
    }
    lemma_stack_size_line();
    lemma_tray_icon_line();
    lemma_pop_line();
    lemma_swap_line();
    lemma_clear_line();
    lemma_duplicate_push_line();
    assert(lower(l7) == l7);
    assert forall|i: int| 0 <= i < lines.len() implies is_ascii_chars(#[trigger] lines[i])
        && !lines[i].contains('\n') by {}
    lemma_lines_of_ascii_text(lines);
    let encoded = Seq::new(lines.len(), |i: int| encode_utf8(lines[i]));
    assert forall|i: int| 0 <= i < encoded.len() implies restates_defaults(
        #[trigger] encoded[i],
    ) by {
        lemma_encoded_line(lines[i]);
    }
    lemma_default_text_gives_defaults(encoded);
}

/// The bytes of the default text. Parsing them gives the default
/// configuration.
pub fn default_text() -> (r: &'static [u8])
    ensures
        r@ == DEFAULT_CONFIG.spec_bytes(),
        config_of(r@) == Ok::<Config, ParseFault>(Config::initial()),
{
    proof {
        lemma_default_config_gives_defaults();
    }
    DEFAULT_CONFIG.as_bytes()
}

} // verus!
