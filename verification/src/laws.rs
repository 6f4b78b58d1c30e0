//! What holds of every configuration text and every binding, proved from the
//! definitions that the parsers are verified against.

use vstd::prelude::*;
use vstd::utf8::{decode_utf8, valid_utf8};
use crate::config::{
    after_line, config_of, config_of_lines, hotkey_of, hotkey_of_tokens, line_effect,
    modifiers_of, Config, Hotkey, LineFault, ParseFault, Setting,
};
use crate::keys::{modifier_of_name, Modifier, Modifiers};
use crate::text::{
    lemma_lower_idempotent, lemma_split_concat, lemma_split_lower, lemma_split_nonempty,
    lemma_split_single, lemma_trim_lower, lower, lower_each, split, trim,
};

verus! {

/// A line means the same whatever the case of its ASCII letters, in the
/// option's name and in its value.
pub proof fn lemma_line_ignores_case(a: Seq<char>, b: Seq<char>)
    requires
        lower(a) == lower(b),
    ensures
        line_effect(a) == line_effect(b),
{
}

/// A line in capitals or in mixed case means what it means in lower case.
pub proof fn lemma_line_is_read_in_lower_case(line: Seq<char>)
    ensures
        line_effect(lower(line)) == line_effect(line),
{
    lemma_lower_idempotent(line);
}

/// `fault` with the text that it carries folded.
pub open spec fn folded_fault(fault: LineFault) -> LineFault {
    match fault {
        LineFault::UnknownOption(got) => LineFault::UnknownOption(lower(got)),
        LineFault::UnknownModifier(got) => LineFault::UnknownModifier(lower(got)),
        LineFault::UnknownKey(got) => LineFault::UnknownKey(lower(got)),
        LineFault::ExpectedBool(got) => LineFault::ExpectedBool(lower(got)),
        _ => fault,
    }
}

/// `outcome` with the token of a refusal folded.
pub open spec fn folded(outcome: Result<Option<Hotkey>, LineFault>) -> Result<
    Option<Hotkey>,
    LineFault,
> {
    match outcome {
        Ok(binding) => Ok(binding),
        Err(fault) => Err(folded_fault(fault)),
    }
}

/// Folded modifier tokens name the flags that the tokens as written name,
/// and are refused where those are, with the refused token folded.
pub proof fn lemma_modifiers_folded(tokens: Seq<Seq<char>>)
    ensures
        modifiers_of(lower_each(tokens)) == match modifiers_of(tokens) {
            Ok(flags) => Ok::<Modifiers, LineFault>(flags),
            Err(fault) => Err(folded_fault(fault)),
        },
    decreases tokens.len(),
{
    if tokens.len() > 0 {
        let low = lower_each(tokens);
        assert(low.drop_last() == lower_each(tokens.drop_last()));
        assert(low.last() == lower(tokens.last()));
        lemma_modifiers_folded(tokens.drop_last());
        lemma_trim_lower(tokens.last());
        lemma_lower_idempotent(trim(tokens.last()));
    } else {
        assert(lower_each(tokens) == Seq::<Seq<char>>::empty());
    }
}

/// Folded tokens denote the binding that the tokens as written denote, and
/// are refused where those are, with the refused token folded.
pub proof fn lemma_tokens_folded(tokens: Seq<Seq<char>>)
    requires
        tokens.len() > 0,
    ensures
        hotkey_of_tokens(lower_each(tokens)) == folded(hotkey_of_tokens(tokens)),
{
    let low = lower_each(tokens);
    assert(low.drop_last() == lower_each(tokens.drop_last()));
    assert(low.last() == lower(tokens.last()));
    lemma_modifiers_folded(tokens.drop_last());
    lemma_trim_lower(tokens.last());
    lemma_lower_idempotent(trim(tokens.last()));
}

/// A binding in capitals or in mixed case means what it means in lower
/// case; only a refused token is reported as it was written.
pub proof fn lemma_hotkey_is_read_in_lower_case(text: Seq<char>)
    ensures
        hotkey_of(lower(text)) == folded(hotkey_of(text)),
{
    lemma_split_lower(text, '+');
    lemma_split_nonempty(text, '+');
    lemma_tokens_folded(split(text, '+'));
}

/// A binding means the same whatever the case of its ASCII letters: two
/// texts that differ in case only are accepted alike and then denote the
/// same binding, or are refused alike, for tokens that differ in case only.
pub proof fn lemma_hotkey_ignores_case(a: Seq<char>, b: Seq<char>)
    requires
        lower(a) == lower(b),
    ensures
        hotkey_of(a) is Ok <==> hotkey_of(b) is Ok,
        hotkey_of(a) is Ok ==> hotkey_of(a) == hotkey_of(b),
        folded(hotkey_of(a)) == folded(hotkey_of(b)),
{
    lemma_hotkey_is_read_in_lower_case(a);
    lemma_hotkey_is_read_in_lower_case(b);
}

/// Two texts whose lines differ only in the case of their ASCII letters
/// give the same configuration, or are refused alike.
pub proof fn lemma_config_ignores_case(a: Seq<Seq<u8>>, b: Seq<Seq<u8>>)
    requires
        a.len() == b.len(),
        forall|i: int| 0 <= i < a.len() ==> valid_utf8(#[trigger] a[i]) == valid_utf8(b[i]),
        forall|i: int|
            0 <= i < a.len() && valid_utf8(#[trigger] a[i]) ==> lower(decode_utf8(a[i])) == lower(
                decode_utf8(b[i]),
            ),
    ensures
        config_of_lines(a) == config_of_lines(b),
    decreases a.len(),
{
    if a.len() > 0 {
        let last = a.len() - 1;
        assert(a.drop_last().len() == b.drop_last().len());
        assert forall|i: int| 0 <= i < a.drop_last().len() implies valid_utf8(
            #[trigger] a.drop_last()[i],
        ) == valid_utf8(b.drop_last()[i]) by {
            assert(a.drop_last()[i] == a[i]);
            assert(b.drop_last()[i] == b[i]);
        }
        assert forall|i: int|
            0 <= i < a.drop_last().len() && valid_utf8(#[trigger] a.drop_last()[i]) implies lower(
            decode_utf8(a.drop_last()[i]),
        ) == lower(decode_utf8(b.drop_last()[i])) by {
            assert(a.drop_last()[i] == a[i]);
            assert(b.drop_last()[i] == b[i]);
        }
        lemma_config_ignores_case(a.drop_last(), b.drop_last());
        assert(valid_utf8(a[last]) == valid_utf8(b[last]));
        if valid_utf8(a[last]) {
            lemma_line_ignores_case(decode_utf8(a[last]), decode_utf8(b[last]));
        }
    }
}

/// Whether the token, trimmed and read in lower case, names the flag.
pub open spec fn names_flag(token: Seq<char>, flag: Modifier) -> bool {
    modifier_of_name(lower(trim(token))) == Some(flag)
}

/// The modifier tokens are accepted where each of them names a flag, and
/// the flags that come out are those that some token names.
pub proof fn lemma_modifiers_are_those_named(tokens: Seq<Seq<char>>)
    ensures
        modifiers_of(tokens) is Ok <==> (forall|i: int|
            0 <= i < tokens.len() ==> modifier_of_name(lower(trim(#[trigger] tokens[i]))) is Some),
        modifiers_of(tokens) matches Ok(flags) ==> (forall|flag: Modifier|
            flags.has(flag) <==> (exists|i: int|
                0 <= i < tokens.len() && names_flag(#[trigger] tokens[i], flag))),
    decreases tokens.len(),
{
    if tokens.len() > 0 {
        let init = tokens.drop_last();
        let last = tokens.len() - 1;
        lemma_modifiers_are_those_named(init);
        assert forall|i: int| 0 <= i < init.len() implies #[trigger] init[i] == tokens[i] by {}
        if modifiers_of(tokens) is Ok {
            assert forall|i: int| 0 <= i < tokens.len() implies modifier_of_name(
                lower(trim(#[trigger] tokens[i])),
            ) is Some by {
                if i < last {
                    assert(init[i] == tokens[i]);
                }
            }
        }
        if forall|i: int|
            0 <= i < tokens.len() ==> modifier_of_name(lower(trim(#[trigger] tokens[i]))) is Some {
            assert(modifier_of_name(lower(trim(tokens[last]))) is Some);
            assert forall|i: int| 0 <= i < init.len() implies modifier_of_name(
                lower(trim(#[trigger] init[i])),
            ) is Some by {
                assert(init[i] == tokens[i]);
            }
            assert(modifiers_of(tokens) is Ok);
        }
        match modifiers_of(tokens) {
            Ok(flags) => {
                let named = modifier_of_name(lower(trim(tokens[last])))->0;
                let rest = modifiers_of(init)->Ok_0;
                assert(flags == Modifiers::only(named).or(rest));
                assert forall|flag: Modifier|
                    flags.has(flag) <==> (exists|i: int|
                        0 <= i < tokens.len() && names_flag(#[trigger] tokens[i], flag)) by {
                    if flags.has(flag) {
                        if rest.has(flag) {
                            let i = choose|i: int|
                                0 <= i < init.len() && names_flag(#[trigger] init[i], flag);
                            assert(names_flag(tokens[i], flag));
                        } else {
                            assert(named == flag);
                            assert(names_flag(tokens[last], flag));
                        }
                    }
                    if exists|i: int|
                        0 <= i < tokens.len() && names_flag(#[trigger] tokens[i], flag) {
                        let i = choose|i: int|
                            0 <= i < tokens.len() && names_flag(#[trigger] tokens[i], flag);
                        if i < last {
                            assert(names_flag(init[i], flag));
                            assert(rest.has(flag));
                        } else {
                            assert(named == flag);
                        }
                    }
                }
            },
            Err(_) => {},
        }
    }
}

/// The modifiers of a binding do not depend on the order of their tokens,
/// nor on how often a token is repeated: two sequences that hold the same
/// tokens are accepted alike, and give the same flags.
pub proof fn lemma_modifiers_any_order(a: Seq<Seq<char>>, b: Seq<Seq<char>>)
    requires
        forall|token: Seq<char>| a.contains(token) <==> b.contains(token),
    ensures
        modifiers_of(a) is Ok <==> modifiers_of(b) is Ok,
        modifiers_of(a) is Ok ==> modifiers_of(a) == modifiers_of(b),
{
    lemma_modifiers_are_those_named(a);
    lemma_modifiers_are_those_named(b);
    if modifiers_of(a) is Ok {
        lemma_accepted_alike(a, b);
    }
    if modifiers_of(b) is Ok {
        lemma_accepted_alike(b, a);
    }
    if modifiers_of(a) is Ok {
        let x = modifiers_of(a)->Ok_0;
        let y = modifiers_of(b)->Ok_0;
        assert forall|flag: Modifier| x.has(flag) == y.has(flag) by {
            if x.has(flag) {
                lemma_named_alike(a, b, flag);
            }
            if y.has(flag) {
                lemma_named_alike(b, a, flag);
            }
        }
        assert(x.has(Modifier::Control) == y.has(Modifier::Control));
        assert(x.has(Modifier::Shift) == y.has(Modifier::Shift));
        assert(x.has(Modifier::Alt) == y.has(Modifier::Alt));
        assert(x.has(Modifier::Windows) == y.has(Modifier::Windows));
        assert(x == y);
    }
}

proof fn lemma_accepted_alike(a: Seq<Seq<char>>, b: Seq<Seq<char>>)
    requires
        forall|token: Seq<char>| a.contains(token) <==> b.contains(token),
        forall|i: int| 0 <= i < a.len() ==> modifier_of_name(lower(trim(#[trigger] a[i]))) is Some,
    ensures
        forall|j: int| 0 <= j < b.len() ==> modifier_of_name(lower(trim(#[trigger] b[j]))) is Some,
{
    assert forall|j: int| 0 <= j < b.len() implies modifier_of_name(lower(trim(#[trigger] b[j])))
        is Some by {
        assert(b.contains(b[j]));
        assert(a.contains(b[j]));
        let i = choose|i: int| 0 <= i < a.len() && a[i] == b[j];
        assert(modifier_of_name(lower(trim(a[i]))) is Some);
    }
}

proof fn lemma_named_alike(a: Seq<Seq<char>>, b: Seq<Seq<char>>, flag: Modifier)
    requires
        forall|token: Seq<char>| a.contains(token) <==> b.contains(token),
        exists|i: int| 0 <= i < a.len() && names_flag(#[trigger] a[i], flag),
    ensures
        exists|j: int| 0 <= j < b.len() && names_flag(#[trigger] b[j], flag),
{
    let i = choose|i: int| 0 <= i < a.len() && names_flag(#[trigger] a[i], flag);
    assert(a.contains(a[i]));
    assert(b.contains(a[i]));
    let j = choose|j: int| 0 <= j < b.len() && b[j] == a[i];
    assert(names_flag(b[j], flag));
}

/// A binding does not depend on the order of its modifier tokens: with the
/// same key token last and the same modifier tokens before it, in any order,
/// two token sequences that are accepted denote the same binding.
pub proof fn lemma_binding_any_modifier_order(a: Seq<Seq<char>>, b: Seq<Seq<char>>)
    requires
        a.len() > 0,
        b.len() > 0,
        a.last() == b.last(),
        forall|token: Seq<char>| a.drop_last().contains(token) <==> b.drop_last().contains(token),
    ensures
        hotkey_of_tokens(a) is Ok <==> hotkey_of_tokens(b) is Ok,
        hotkey_of_tokens(a) is Ok ==> hotkey_of_tokens(a) == hotkey_of_tokens(b),
{
    lemma_modifiers_any_order(a.drop_last(), b.drop_last());
    // Where one side has no modifier token, the other has none either.
    if a.len() == 1 && b.len() > 1 {
        assert(b.drop_last().contains(b.drop_last()[0]));
    }
    if b.len() == 1 && a.len() > 1 {
        assert(a.drop_last().contains(a.drop_last()[0]));
    }
}

/// A line that is valid text and holds nothing but whitespace.
pub open spec fn is_blank(line: Seq<u8>) -> bool {
    valid_utf8(line) && trim(lower(decode_utf8(line))).len() == 0
}

/// `outcome` as it is reported when one more line stands before the line
/// with index `at`: a refusal at or after `at` is one line further down.
pub open spec fn moved_down(outcome: Result<Config, ParseFault>, at: nat) -> Result<
    Config,
    ParseFault,
> {
    match outcome {
        Err(ParseFault::Line(fault, index)) => if index >= at {
            Err(ParseFault::Line(fault, index + 1))
        } else {
            outcome
        },
        _ => outcome,
    }
}

/// The index that comes with a refusal is that of a line of the text.
pub proof fn lemma_fault_index_in_range(lines: Seq<Seq<u8>>)
    ensures
        config_of_lines(lines) matches Err(ParseFault::Line(_, index)) ==> index < lines.len(),
    decreases lines.len(),
{
    if lines.len() > 0 {
        lemma_fault_index_in_range(lines.drop_last());
    }
}

/// A blank line is ignored: put anywhere into a text, it changes neither
/// the configuration that the text gives nor the refusal, but for the index
/// of a refused line below it, which is then one more.
pub proof fn lemma_blank_line_is_ignored(lines: Seq<Seq<u8>>, at: int, blank: Seq<u8>)
    requires
        0 <= at <= lines.len(),
        is_blank(blank),
    ensures
        config_of_lines(lines.insert(at, blank)) == moved_down(config_of_lines(lines), at as nat),
    decreases lines.len(),
{
    let longer = lines.insert(at, blank);
    if at == lines.len() {
        assert(longer.drop_last() == lines);
        assert(longer.last() == blank);
        lemma_fault_index_in_range(lines);
    } else {
        assert(longer.drop_last() == lines.drop_last().insert(at, blank));
        assert(longer.last() == lines.last());
        lemma_blank_line_is_ignored(lines.drop_last(), at, blank);
        lemma_fault_index_in_range(lines.drop_last());
    }
}

/// A blank line put into a text, between `head` and `tail`, is ignored: the
/// text gives the same configuration, or is refused for the same reason,
/// and a refused line of `tail` is counted one line further down.
pub proof fn lemma_blank_line_in_text(head: Seq<u8>, blank: Seq<u8>, tail: Seq<u8>)
    requires
        is_blank(blank),
        !blank.contains(10u8),
    ensures
        config_of(head + seq![10u8] + blank + seq![10u8] + tail) == moved_down(
            config_of(head + seq![10u8] + tail),
            split(head, 10u8).len(),
        ),
{
    let before = split(head, 10u8);
    let after = split(tail, 10u8);
    lemma_split_single(blank, 10u8);
    lemma_split_concat(head, blank, 10u8);
    lemma_split_concat(head + seq![10u8] + blank, tail, 10u8);
    lemma_split_concat(head, tail, 10u8);
    assert(before + seq![blank] + after == (before + after).insert(before.len() as int, blank));
    lemma_blank_line_is_ignored(before + after, before.len() as int, blank);
}

/// The line without any character is blank.
pub proof fn lemma_empty_line_is_blank()
    ensures
        is_blank(Seq::<u8>::empty()),
{
    assert(decode_utf8(Seq::<u8>::empty()) == Seq::<char>::empty());
    assert(lower(Seq::<char>::empty()) == Seq::<char>::empty());
}

/// Whether the line is valid text that asks for nothing, or for what the
/// defaults hold already.
pub open spec fn restates_defaults(line: Seq<u8>) -> bool {
    valid_utf8(line) && match line_effect(decode_utf8(line)) {
        Ok(None) => true,
        Ok(Some(setting)) => Config::initial().with(setting) == Config::initial(),
        Err(_) => false,
    }
}

/// A text that sets options to their default values only, in any order and
/// however often, with or without blank lines, gives the defaults.
pub proof fn lemma_default_text_gives_defaults(lines: Seq<Seq<u8>>)
    requires
        forall|i: int| 0 <= i < lines.len() ==> restates_defaults(#[trigger] lines[i]),
    ensures
        config_of_lines(lines) == Ok::<Config, ParseFault>(Config::initial()),
    decreases lines.len(),
{
    if lines.len() > 0 {
        assert forall|i: int| 0 <= i < lines.drop_last().len() implies restates_defaults(
            #[trigger] lines.drop_last()[i],
        ) by {
            assert(lines.drop_last()[i] == lines[i]);
        }
        lemma_default_text_gives_defaults(lines.drop_last());
        assert(restates_defaults(lines[lines.len() - 1]));
    }
}

/// The refusal of a text is that of its first refused line, with that
/// line's index: the line is valid text that `line_effect` refuses with the
/// same fault, and every line before it is accepted.
pub proof fn lemma_fault_is_first_refusal(lines: Seq<Seq<u8>>, fault: LineFault, index: nat)
    requires
        config_of_lines(lines) == Err::<Config, ParseFault>(ParseFault::Line(fault, index)),
    ensures
        index < lines.len(),
        valid_utf8(lines[index as int]),
        line_effect(decode_utf8(lines[index as int])) == Err::<
            Option<Setting>,
            LineFault,
        >(fault),
        forall|j: int|
            0 <= j < index ==> valid_utf8(#[trigger] lines[j]) && line_effect(
                decode_utf8(lines[j]),
            ) is Ok,
    decreases lines.len(),
{
    if lines.len() > 0 {
        let init = lines.drop_last();
        match config_of_lines(init) {
            Err(_) => {
                lemma_fault_is_first_refusal(init, fault, index);
                assert(init[index as int] == lines[index as int]);
                assert forall|j: int| 0 <= j < index implies valid_utf8(#[trigger] lines[j])
                    && line_effect(decode_utf8(lines[j])) is Ok by {
                    assert(init[j] == lines[j]);
                }
            },
            Ok(config) => {
                lemma_accepted_lines(init);
                assert(index == lines.len() - 1);
                assert forall|j: int| 0 <= j < index implies valid_utf8(#[trigger] lines[j])
                    && line_effect(decode_utf8(lines[j])) is Ok by {
                    assert(init[j] == lines[j]);
                }
            },
        }
    }
}

/// A text is accepted only where each of its lines is.
pub proof fn lemma_accepted_lines(lines: Seq<Seq<u8>>)
    requires
        config_of_lines(lines) is Ok,
    ensures
        forall|j: int|
            0 <= j < lines.len() ==> valid_utf8(#[trigger] lines[j]) && line_effect(
                decode_utf8(lines[j]),
            ) is Ok,
    decreases lines.len(),
{
    if lines.len() > 0 {
        let init = lines.drop_last();
        lemma_accepted_lines(init);
        assert forall|j: int| 0 <= j < lines.len() implies valid_utf8(#[trigger] lines[j])
            && line_effect(decode_utf8(lines[j])) is Ok by {
            if j < init.len() {
                assert(init[j] == lines[j]);
            }
        }
    }
}

/// Of two lines that set one option the later stands: the configuration
/// after both is the configuration after the second alone.
pub proof fn lemma_later_setting_wins(config: Config, first: Seq<u8>, second: Seq<u8>, i: nat, j: nat)
    requires
        valid_utf8(first),
        valid_utf8(second),
        line_effect(decode_utf8(first)) matches Ok(Some(a)) && line_effect(decode_utf8(second))
            matches Ok(Some(b)) && same_option(a, b),
    ensures
        after_line(config, first, i) matches Ok(between) && after_line(between, second, j)
            == after_line(config, second, j),
{
}

/// Whether two settings are of the same option.
pub open spec fn same_option(a: Setting, b: Setting) -> bool {
    match (a, b) {
        (Setting::MaxStackSize(_), Setting::MaxStackSize(_)) => true,
        (Setting::ShowTrayIcon(_), Setting::ShowTrayIcon(_)) => true,
        (
            Setting::PreventDuplicatePush(_),
            Setting::PreventDuplicatePush(_),
        ) => true,
        (Setting::PopKeybinding(_), Setting::PopKeybinding(_)) => true,
        (Setting::ClearKeybinding(_), Setting::ClearKeybinding(_)) => true,
        (Setting::SwapKeybinding(_), Setting::SwapKeybinding(_)) => true,
        _ => false,
    }
}

} // verus!
