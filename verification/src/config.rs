//! The configuration: its options and their defaults, the grammar of a key
//! binding and of a configuration line, and the parser of a whole text.

use vstd::prelude::*;
use vstd::std_specs::convert::FromSpecImpl;
use vstd::utf8::{decode_utf8, valid_utf8};
use crate::keys::{
    key_of_name, modifier_of_name, Modifier, Modifiers, ParseModifierError, ParseVirtualKeyError,
    VirtualKey,
};
use crate::number::{decimal_value, parse_usize, usize_parse_error};
use crate::text::{
    chars_of, lemma_split_nonempty, lower, lowercase, matches_str, split, split_bytes,
    split_chars, string_of, trim, trimmed, views,
};

verus! {

/// `std::io::Error`: why reading failed. It is carried as it comes;
/// nothing is said of what it holds.
#[verifier::external_type_specification]
#[verifier::external_body]
pub struct ExIoError(std::io::Error);

/// The text that is written where no configuration file exists: each
/// option with its default value.
pub const DEFAULT_CONFIG: &'static str =
    "max_stack_size = 100\nshow_tray_icon = true\npop_keybinding = Control + Shift + C\nswap_keybinding = None\nclear_keybinding = None\nprevent_duplicate_push = false\n";

/// A key binding: one trigger key and the modifiers held with it.
#[derive(Clone, Copy, Debug, PartialEq, Eq, Structural)]
pub struct Hotkey {
    pub key: VirtualKey,
    pub modifiers: Modifiers,
}

/// The options of the program. `None` in `max_stack_size` means no bound;
/// `None` in a binding means that nothing is bound.
#[derive(Clone, Copy, Debug, PartialEq, Eq)]
pub struct Config {
    pub max_stack_size: Option<usize>,
    pub show_tray_icon: bool,
    pub pop_keybinding: Option<Hotkey>,
    pub clear_keybinding: Option<Hotkey>,
    pub swap_keybinding: Option<Hotkey>,
    pub prevent_duplicate_push: bool,
}

/// What one configuration line asks for.
#[derive(Clone, Copy, Debug, PartialEq, Eq)]
pub enum Setting {
    MaxStackSize(Option<usize>),
    ShowTrayIcon(bool),
    PreventDuplicatePush(bool),
    PopKeybinding(Option<Hotkey>),
    ClearKeybinding(Option<Hotkey>),
    SwapKeybinding(Option<Hotkey>),
}

/// Why a line was refused.
#[derive(Debug)]
pub enum LineError {
    Malformed,
    UnknownOption(String),
    UnknownModifier(String),
    UnknownKey(String),
    ExpectedBool(String),
    ExpectedInt(std::num::ParseIntError),
    ModifierWithNoKey,
}

/// Why a configuration text was refused: the stream could not be read as
/// text, or the line with the given index, counted from zero, was refused.
#[derive(Debug)]
pub enum ParseError {
    Io(std::io::Error),
    Line(LineError, usize),
}

/// `LineError` as a mathematical value: each text as its characters.
pub enum LineFault {
    Malformed,
    UnknownOption(Seq<char>),
    UnknownModifier(Seq<char>),
    UnknownKey(Seq<char>),
    ExpectedBool(Seq<char>),
    ExpectedInt(std::num::ParseIntError),
    ModifierWithNoKey,
}

/// `ParseError` as a mathematical value. The reason that comes with `Io`
/// is left out.
pub enum ParseFault {
    Io,
    Line(LineFault, nat),
}

impl View for LineError {
    type V = LineFault;

    open spec fn view(&self) -> LineFault {
        match self {
            LineError::Malformed => LineFault::Malformed,
            LineError::UnknownOption(got) => LineFault::UnknownOption(got@),
            LineError::UnknownModifier(got) => LineFault::UnknownModifier(got@),
            LineError::UnknownKey(got) => LineFault::UnknownKey(got@),
            LineError::ExpectedBool(got) => LineFault::ExpectedBool(got@),
            LineError::ExpectedInt(reason) => LineFault::ExpectedInt(*reason),
            LineError::ModifierWithNoKey => LineFault::ModifierWithNoKey,
        }
    }
}

impl View for ParseError {
    type V = ParseFault;

    open spec fn view(&self) -> ParseFault {
        match self {
            ParseError::Io(_) => ParseFault::Io,
            ParseError::Line(e, index) => ParseFault::Line(e@, *index as nat),
        }
    }
}

impl From<std::io::Error> for ParseError {
    fn from(e: std::io::Error) -> (r: ParseError) {
        ParseError::Io(e)
    }
}

impl FromSpecImpl<std::io::Error> for ParseError {
    open spec fn obeys_from_spec() -> bool {
        true
    }

    open spec fn from_spec(e: std::io::Error) -> ParseError {
        ParseError::Io(e)
    }
}

impl From<ParseVirtualKeyError> for LineError {
    fn from(e: ParseVirtualKeyError) -> (r: LineError) {
        match e {
            ParseVirtualKeyError::UnknownKey(got) => LineError::UnknownKey(got),
        }
    }
}

impl FromSpecImpl<ParseVirtualKeyError> for LineError {
    open spec fn obeys_from_spec() -> bool {
        true
    }

    open spec fn from_spec(e: ParseVirtualKeyError) -> LineError {
        match e {
            ParseVirtualKeyError::UnknownKey(got) => LineError::UnknownKey(got),
        }
    }
}

impl From<ParseModifierError> for LineError {
    fn from(e: ParseModifierError) -> (r: LineError) {
        match e {
            ParseModifierError::UnknownModifier(got) => LineError::UnknownModifier(got),
        }
    }
}

impl FromSpecImpl<ParseModifierError> for LineError {
    open spec fn obeys_from_spec() -> bool {
        true
    }

    open spec fn from_spec(e: ParseModifierError) -> LineError {
        match e {
            ParseModifierError::UnknownModifier(got) => LineError::UnknownModifier(got),
        }
    }
}

/// The flags that the modifier tokens name, all together. A token is
/// trimmed, and read in lower case. The tokens are taken from the last to
/// the first, and the first one met that names no modifier is the one
/// reported, trimmed and as it was written.
pub open spec fn modifiers_of(tokens: Seq<Seq<char>>) -> Result<Modifiers, LineFault>
    decreases tokens.len(),
{
    if tokens.len() == 0 {
        Ok(Modifiers::none())
    } else {
        let token = trim(tokens.last());
        match modifier_of_name(lower(token)) {
            None => Err(LineFault::UnknownModifier(token)),
            Some(m) => match modifiers_of(tokens.drop_last()) {
                Ok(rest) => Ok(Modifiers::only(m).or(rest)),
                Err(fault) => Err(fault),
            },
        }
    }
}

/// The binding that the tokens denote: the last one names the trigger key,
/// those before it name modifiers. A token is trimmed, and read in lower
/// case; one that is refused is reported trimmed and as it was written. A
/// lone `none` denotes that nothing is bound; `none` after other tokens is
/// refused.
pub open spec fn hotkey_of_tokens(tokens: Seq<Seq<char>>) -> Result<Option<Hotkey>, LineFault> {
    let key_token = trim(tokens.last());
    if lower(key_token) == "none"@ {
        if tokens.len() > 1 {
            Err(LineFault::ModifierWithNoKey)
        } else {
            Ok(None)
        }
    } else {
        match key_of_name(lower(key_token)) {
            None => Err(LineFault::UnknownKey(key_token)),
            Some(key) => match modifiers_of(tokens.drop_last()) {
                Ok(modifiers) => Ok(Some(Hotkey { key, modifiers })),
                Err(fault) => Err(fault),
            },
        }
    }
}

/// The binding that `text` denotes: its tokens are the pieces between the
/// `+` signs.
pub open spec fn hotkey_of(text: Seq<char>) -> Result<Option<Hotkey>, LineFault> {
    hotkey_of_tokens(split(text, '+'))
}

/// The truth value that a lower-case value text denotes.
pub open spec fn bool_of(value: Seq<char>) -> Result<bool, LineFault> {
    if value == "true"@ {
        Ok(true)
    } else if value == "false"@ {
        Ok(false)
    } else {
        Err(LineFault::ExpectedBool(value))
    }
}

/// The stack bound that a lower-case value text denotes: none for `none`,
/// else the number of a decimal numeral that fits in `usize`. Any other
/// text is refused, with the standard library's error for that text.
pub open spec fn stack_size_of(value: Seq<char>) -> Result<Option<usize>, LineFault> {
    if value == "none"@ {
        Ok(None)
    } else {
        match decimal_value(value) {
            Some(n) => if n <= usize::MAX {
                Ok(Some(n as usize))
            } else {
                Err(LineFault::ExpectedInt(usize_parse_error(value)))
            },
            None => Err(LineFault::ExpectedInt(usize_parse_error(value))),
        }
    }
}

/// What the option `name` with the value `value` asks for, both in lower
/// case and trimmed.
pub open spec fn setting_of(name: Seq<char>, value: Seq<char>) -> Result<Setting, LineFault> {
    if name == "max_stack_size"@ {
        match stack_size_of(value) {
            Ok(bound) => Ok(Setting::MaxStackSize(bound)),
            Err(fault) => Err(fault),
        }
    } else if name == "show_tray_icon"@ {
        match bool_of(value) {
            Ok(flag) => Ok(Setting::ShowTrayIcon(flag)),
            Err(fault) => Err(fault),
        }
    } else if name == "prevent_duplicate_push"@ {
        match bool_of(value) {
            Ok(flag) => Ok(Setting::PreventDuplicatePush(flag)),
            Err(fault) => Err(fault),
        }
    } else if name == "pop_keybinding"@ {
        match hotkey_of(value) {
            Ok(binding) => Ok(Setting::PopKeybinding(binding)),
            Err(fault) => Err(fault),
        }
    } else if name == "clear_keybinding"@ {
        match hotkey_of(value) {
            Ok(binding) => Ok(Setting::ClearKeybinding(binding)),
            Err(fault) => Err(fault),
        }
    } else if name == "swap_keybinding"@ {
        match hotkey_of(value) {
            Ok(binding) => Ok(Setting::SwapKeybinding(binding)),
            Err(fault) => Err(fault),
        }
    } else {
        Err(LineFault::UnknownOption(name))
    }
}

/// What a line in lower case, trimmed and not empty, asks for: it must hold
/// exactly one `=`, with the option's name before it and the value after.
pub open spec fn statement_of(text: Seq<char>) -> Result<Setting, LineFault> {
    let pieces = split(text, '=');
    if pieces.len() != 2 {
        Err(LineFault::Malformed)
    } else {
        setting_of(trim(pieces[0]), trim(pieces[1]))
    }
}

/// What the line asks for: nothing (`None`) where it is blank, else one
/// setting. The line is read in lower case.
pub open spec fn line_effect(line: Seq<char>) -> Result<Option<Setting>, LineFault> {
    let text = trim(lower(line));
    if text.len() == 0 {
        Ok(None)
    } else {
        match statement_of(text) {
            Ok(setting) => Ok(Some(setting)),
            Err(fault) => Err(fault),
        }
    }
}

/// The configuration after the line with the given index, which comes as
/// bytes: a line that is no UTF-8 text ends the parse with `Io`.
pub open spec fn after_line(config: Config, line: Seq<u8>, index: nat) -> Result<
    Config,
    ParseFault,
> {
    if !valid_utf8(line) {
        Err(ParseFault::Io)
    } else {
        match line_effect(decode_utf8(line)) {
            Err(fault) => Err(ParseFault::Line(fault, index)),
            Ok(None) => Ok(config),
            Ok(Some(setting)) => Ok(config.with(setting)),
        }
    }
}

/// The configuration that the lines give, starting from the defaults and
/// taking the lines in order. The first line that is refused ends the
/// parse; its index counts every line before it, blank ones too.
pub open spec fn config_of_lines(lines: Seq<Seq<u8>>) -> Result<Config, ParseFault>
    decreases lines.len(),
{
    if lines.len() == 0 {
        Ok(Config::initial())
    } else {
        match config_of_lines(lines.drop_last()) {
            Err(fault) => Err(fault),
            Ok(config) => after_line(config, lines.last(), (lines.len() - 1) as nat),
        }
    }
}

/// The configuration that a text gives: its lines are the pieces between
/// the line feeds.
pub open spec fn config_of(input: Seq<u8>) -> Result<Config, ParseFault> {
    config_of_lines(split(input, 10u8))
}

/// Once a line has been refused, more lines change nothing.
pub proof fn lemma_fault_is_final(lines: Seq<Seq<u8>>, count: int)
    requires
        0 <= count <= lines.len(),
        config_of_lines(lines.take(count)) is Err,
    ensures
        config_of_lines(lines) == config_of_lines(lines.take(count)),
    decreases lines.len() - count,
{
    if count < lines.len() {
        assert(lines.take(count + 1).drop_last() == lines.take(count));
        lemma_fault_is_final(lines, count + 1);
    } else {
        assert(lines.take(count) == lines);
    }
}

impl Config {
    /// The defaults: a stack of at most 100 items, the tray icon shown,
    /// Control+Shift+C bound to pop, nothing bound to swap or clear, and
    /// duplicates pushed.
    pub open spec fn initial() -> Config {
        Config {
            max_stack_size: Some(100usize),
            show_tray_icon: true,
            pop_keybinding: Some(
                Hotkey {
                    key: VirtualKey::C,
                    modifiers: Modifiers::only(Modifier::Control).or(
                        Modifiers::only(Modifier::Shift),
                    ),
                },
            ),
            clear_keybinding: None,
            swap_keybinding: None,
            prevent_duplicate_push: false,
        }
    }

    /// `self` with the option that `setting` names set to its value, and
    /// every other option as it was.
    pub open spec fn with(self, setting: Setting) -> Config {
        match setting {
            Setting::MaxStackSize(bound) => Config { max_stack_size: bound, ..self },
            Setting::ShowTrayIcon(flag) => Config { show_tray_icon: flag, ..self },
            Setting::PreventDuplicatePush(flag) => Config { prevent_duplicate_push: flag, ..self },
            Setting::PopKeybinding(binding) => Config { pop_keybinding: binding, ..self },
            Setting::ClearKeybinding(binding) => Config { clear_keybinding: binding, ..self },
            Setting::SwapKeybinding(binding) => Config { swap_keybinding: binding, ..self },
        }
    }

    /// Sets the option that `setting` names; a later setting of the same
    /// option replaces an earlier one.
    pub fn apply(&mut self, setting: Setting)
        ensures
            *final(self) == old(self).with(setting),
    {
        match setting {
            Setting::MaxStackSize(bound) => {
                self.max_stack_size = bound;
            },
            Setting::ShowTrayIcon(flag) => {
                self.show_tray_icon = flag;
            },
            Setting::PreventDuplicatePush(flag) => {
                self.prevent_duplicate_push = flag;
            },
            Setting::PopKeybinding(binding) => {
                self.pop_keybinding = binding;
            },
            Setting::ClearKeybinding(binding) => {
                self.clear_keybinding = binding;
            },
            Setting::SwapKeybinding(binding) => {
                self.swap_keybinding = binding;
            },
        }
    }
}

impl Default for Config {
    fn default() -> (r: Config)
        ensures
            r == Config::initial(),
    {
        Config {
            max_stack_size: Some(100),
            show_tray_icon: true,
            pop_keybinding: Some(
                Hotkey { key: VirtualKey::C, modifiers: Modifiers::control().union(Modifiers::shift()) },
            ),
            clear_keybinding: None,
            swap_keybinding: None,
            prevent_duplicate_push: false,
        }
    }
}

/// `acc` with the flags of `rest`, where `rest` is no fault.
spec fn joined(acc: Modifiers, rest: Result<Modifiers, LineFault>) -> Result<
    Modifiers,
    LineFault,
> {
    match rest {
        Ok(flags) => Ok(acc.or(flags)),
        Err(fault) => Err(fault),
    }
}

/// The binding that the characters of `text` denote.
pub fn parse_binding(text: &[char]) -> (r: Result<Option<Hotkey>, LineError>)
    ensures
        match r {
            Ok(binding) => hotkey_of(text@) == Ok::<Option<Hotkey>, LineFault>(binding),
            Err(e) => hotkey_of(text@) == Err::<Option<Hotkey>, LineFault>(e@),
        },
{
    let tokens = split_chars(text, '+');
    proof {
        lemma_split_nonempty(text@, '+');
    }
    let ghost all = split(text@, '+');
    let last: usize = tokens.len() - 1;
    assert(views(tokens@)[last as int] == tokens@[last as int]@);
    let key_token = trimmed(tokens[last]);
    let key_name = lowercase(key_token);
    if matches_str(key_name.as_slice(), "none") {
        if tokens.len() > 1 {
            return Err(LineError::ModifierWithNoKey);
        }
        return Ok(None);
    }
    let key = match VirtualKey::lookup(key_name.as_slice()) {
        Some(key) => key,
        None => {
            return Err(LineError::UnknownKey(string_of(key_token)));
        },
    };
    let mut modifiers = Modifiers::empty();
    let mut i: usize = last;
    assert(all.take(last as int) == all.drop_last());
    proof {
        match modifiers_of(all.take(i as int)) {
            Ok(flags) => {
                Modifiers::none().lemma_or_is_union(flags, flags);
                flags.lemma_or_is_union(Modifiers::none(), flags);
            },
            Err(_) => {},
        }
    }
    while i > 0
        invariant
            i <= last,
            last + 1 == tokens.len(),
            all == views(tokens@),
            all == split(text@, '+'),
            all.take(last as int) == all.drop_last(),
            lower(trim(all.last())) != "none"@,
            key_of_name(lower(trim(all.last()))) == Some(key),
            modifiers_of(all.take(last as int)) == joined(modifiers, modifiers_of(all.take(i as int))),
        decreases i,
    {
        i -= 1;
        assert(all.take(i + 1).drop_last() == all.take(i as int));
        assert(all.take(i + 1).last() == tokens@[i as int]@);
        let token = trimmed(tokens[i]);
        let name = lowercase(token);
        match Modifiers::lookup(name.as_slice()) {
            Some(flags) => {
                proof {
                    match modifiers_of(all.take(i as int)) {
                        Ok(rest) => {
                            modifiers.lemma_or_is_union(flags, rest);
                        },
                        Err(_) => {},
                    }
                }
                modifiers = modifiers.union(flags);
            },
            None => {
                return Err(LineError::UnknownModifier(string_of(token)));
            },
        }
    }
    assert(all.take(0) == Seq::<Seq<char>>::empty());
    proof {
        modifiers.lemma_or_is_union(Modifiers::none(), modifiers);
    }
    Ok(Some(Hotkey { key, modifiers }))
}

/// The binding that `hotkey` denotes: `Ok(None)` for a lone `none`, else the
/// trigger key named last with the modifiers named before it. Letters count
/// in either case, and whitespace around a token does not count. A token
/// that names nothing is reported trimmed, as it was written.
pub fn parse_hotkey(hotkey: &str) -> (r: Result<Option<Hotkey>, LineError>)
    ensures
        match r {
            Ok(binding) => hotkey_of(hotkey@) == Ok::<Option<Hotkey>, LineFault>(binding),
            Err(e) => hotkey_of(hotkey@) == Err::<Option<Hotkey>, LineFault>(e@),
        },
{
    let chars = chars_of(hotkey);
    parse_binding(chars.as_slice())
}

fn parse_bool(value: &[char]) -> (r: Result<bool, LineError>)
    ensures
        match r {
            Ok(flag) => bool_of(value@) == Ok::<bool, LineFault>(flag),
            Err(e) => bool_of(value@) == Err::<bool, LineFault>(e@),
        },
{
    if matches_str(value, "true") {
        Ok(true)
    } else if matches_str(value, "false") {
        Ok(false)
    } else {
        Err(LineError::ExpectedBool(string_of(value)))
    }
}

fn parse_stack_size(value: &[char]) -> (r: Result<Option<usize>, LineError>)
    ensures
        match r {
            Ok(bound) => stack_size_of(value@) == Ok::<Option<usize>, LineFault>(bound),
            Err(e) => stack_size_of(value@) == Err::<Option<usize>, LineFault>(e@),
        },
{
    if matches_str(value, "none") {
        Ok(None)
    } else {
        match parse_usize(value) {
            Ok(bound) => Ok(Some(bound)),
            Err(e) => Err(LineError::ExpectedInt(e)),
        }
    }
}

fn parse_setting(name: &[char], value: &[char]) -> (r: Result<Setting, LineError>)
    ensures
        match r {
            Ok(setting) => setting_of(name@, value@) == Ok::<Setting, LineFault>(setting),
            Err(e) => setting_of(name@, value@) == Err::<Setting, LineFault>(e@),
        },
{
    if matches_str(name, "max_stack_size") {
        match parse_stack_size(value) {
            Ok(bound) => Ok(Setting::MaxStackSize(bound)),
            Err(e) => Err(e),
        }
    } else if matches_str(name, "show_tray_icon") {
        match parse_bool(value) {
            Ok(flag) => Ok(Setting::ShowTrayIcon(flag)),
            Err(e) => Err(e),
        }
    } else if matches_str(name, "prevent_duplicate_push") {
        match parse_bool(value) {
            Ok(flag) => Ok(Setting::PreventDuplicatePush(flag)),
            Err(e) => Err(e),
        }
    } else if matches_str(name, "pop_keybinding") {
        match parse_binding(value) {
            Ok(binding) => Ok(Setting::PopKeybinding(binding)),
            Err(e) => Err(e),
        }
    } else if matches_str(name, "clear_keybinding") {
        match parse_binding(value) {
            Ok(binding) => Ok(Setting::ClearKeybinding(binding)),
            Err(e) => Err(e),
        }
    } else if matches_str(name, "swap_keybinding") {
        match parse_binding(value) {
            Ok(binding) => Ok(Setting::SwapKeybinding(binding)),
            Err(e) => Err(e),
        }
    } else {
        Err(LineError::UnknownOption(string_of(name)))
    }
}

/// What one line of a configuration asks for: `Ok(None)` where the line is
/// blank, the setting where it is `option = value`, else why it is refused.
pub fn parse_line(line: &str) -> (r: Result<Option<Setting>, LineError>)
    ensures
        match r {
            Ok(effect) => line_effect(line@) == Ok::<Option<Setting>, LineFault>(effect),
            Err(e) => line_effect(line@) == Err::<Option<Setting>, LineFault>(e@),
        },
{
    let chars = chars_of(line);
    let low = lowercase(chars.as_slice());
    let text = trimmed(low.as_slice());
    if text.len() == 0 {
        return Ok(None);
    }
    let pieces = split_chars(text, '=');
    if pieces.len() != 2 {
        return Err(LineError::Malformed);
    }
    assert(views(pieces@)[0] == pieces@[0]@);
    assert(views(pieces@)[1] == pieces@[1]@);
    match parse_setting(trimmed(pieces[0]), trimmed(pieces[1])) {
        Ok(setting) => Ok(Some(setting)),
        Err(e) => Err(e),
    }
}

/// `std::io::Read::read_to_string` on a byte slice: the bytes as a string
/// where they are valid UTF-8, and the standard library's error where they
/// are not. Reading from a slice fails in no other way.
#[verifier::external_body]
fn read_text(bytes: &[u8]) -> (r: Result<String, std::io::Error>)
    ensures
        r is Ok <==> valid_utf8(bytes@),
        r matches Ok(text) ==> text@ == decode_utf8(bytes@),
{
    let mut text = String::new();
    let mut reader = bytes;
    match std::io::Read::read_to_string(&mut reader, &mut text) {
        Ok(_) => Ok(text),
        Err(e) => Err(e),
    }
}

/// The configuration that the first `count` lines give.
fn parse_lines(lines: &Vec<&[u8]>, count: usize) -> (r: Result<Config, ParseError>)
    requires
        count <= lines.len(),
    ensures
        match r {
            Ok(config) => config_of_lines(views(lines@).take(count as int)) == Ok::<
                Config,
                ParseFault,
            >(config),
            Err(e) => config_of_lines(views(lines@).take(count as int)) == Err::<
                Config,
                ParseFault,
            >(e@),
        },
{
    let ghost all = views(lines@).take(count as int);
    let mut config = Config::default();
    let mut i: usize = 0;
    assert(all.take(0) == Seq::<Seq<u8>>::empty());
    while i < count
        invariant
            i <= count <= lines.len(),
            all == views(lines@).take(count as int),
            config_of_lines(all.take(i as int)) == Ok::<Config, ParseFault>(config),
        decreases count - i,
    {
        assert(all.take(i + 1).drop_last() == all.take(i as int));
        assert(all.take(i + 1).last() == lines@[i as int]@);
        let text = match read_text(lines[i]) {
            Ok(text) => text,
            Err(e) => {
                proof {
                    lemma_fault_is_final(all, i + 1);
                }
                return Err(ParseError::Io(e));
            },
        };
        match parse_line(text.as_str()) {
            Err(e) => {
                proof {
                    lemma_fault_is_final(all, i + 1);
                }
                return Err(ParseError::Line(e, i));
            },
            Ok(None) => {},
            Ok(Some(setting)) => {
                config.apply(setting);
            },
        }
        i += 1;
    }
    assert(all.take(count as int) == all);
    Ok(config)
}

/// What is reported of a text whose reading failed after the bytes `read`:
/// the refusal of a line that was read whole, where there is one, since it
/// is met first; else the failure to read. The last piece is no whole line.
pub open spec fn interrupted_fault(read: Seq<u8>) -> ParseFault {
    match config_of_lines(split(read, 10u8).drop_last()) {
        Err(fault) => fault,
        Ok(_) => ParseFault::Io,
    }
}

/// The error for a text of which `read` came before reading failed with
/// `failure`: the refusal of a whole line, or else `failure` itself.
pub fn parse_interrupted(read: &[u8], failure: std::io::Error) -> (r: ParseError)
    ensures
        r@ == interrupted_fault(read@),
        config_of_lines(split(read@, 10u8).drop_last()) is Ok ==> r == ParseError::Io(failure),
{
    let lines = split_bytes(read, 10u8);
    proof {
        lemma_split_nonempty(read@, 10u8);
    }
    let whole: usize = lines.len() - 1;
    assert(views(lines@).take(whole as int) == views(lines@).drop_last());
    match parse_lines(&lines, whole) {
        Err(e) => e,
        Ok(_) => ParseError::Io(failure),
    }
}

/// Parses a configuration text. Every line is `option = value` or blank;
/// the options not named keep their defaults, and of two lines that set one
/// option the later wins. The result is the configuration, or the first
/// refusal with the index of its line.
pub fn parse_config(input: &[u8]) -> (r: Result<Config, ParseError>)
    ensures
        match r {
            Ok(config) => config_of(input@) == Ok::<Config, ParseFault>(config),
            Err(e) => config_of(input@) == Err::<Config, ParseFault>(e@),
        },
{
    let lines = split_bytes(input, 10u8);
    assert(views(lines@).take(lines.len() as int) == views(lines@));
    parse_lines(&lines, lines.len())
}

} // verus!
