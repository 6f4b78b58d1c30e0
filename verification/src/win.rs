//! The values that cross the boundary to the native window system: handles
//! that are never null, the class token, the message, the error code, and
//! the rule by which each native call's outcome is told apart.
//!
//! The native calls themselves are made by the program. It hands the raw
//! values that a call gave, with the last-error code read right after the
//! call, to the function here that decides what they mean.

use vstd::prelude::*;
use vstd::string::StringExecFns;
use crate::number::{decimal_digits, decimal_text};
use crate::text::chars_of;

pub use crate::keys::{Modifier, Modifiers, ParseModifierError, ParseVirtualKeyError, VirtualKey};

verus! {

/// `std::string::FromUtf16Error`: that UTF-16 units encode no text. It is
/// carried as it comes; nothing is said of what it holds.
#[verifier::external_type_specification]
#[verifier::external_body]
pub struct ExFromUtf16Error(std::string::FromUtf16Error);

/// The flag that asks the system's own message table for a description.
pub const FORMAT_MESSAGE_FROM_SYSTEM: u32 = 0x0000_1000;

/// The number of UTF-16 units offered for a description.
pub const DESCRIPTION_CAPACITY: u32 = 65535;

/// The code of a failure, as the system reported it.
#[derive(Debug, PartialEq, Eq)]
pub struct ErrorCode {
    code: u32,
}

/// The token of a registered window class. It is never zero.
#[derive(Debug, PartialEq, Eq)]
pub struct ClassAtom {
    atom: u16,
}

/// A handle to a window. It is never null.
#[derive(Debug, PartialEq, Eq)]
pub struct WindowHandle {
    address: usize,
}

/// A handle to a loaded module. It is never null.
#[derive(Debug, PartialEq, Eq)]
pub struct ModuleHandle {
    address: usize,
}

/// A message taken from the queue of the calling thread.
#[derive(Debug, PartialEq, Eq)]
pub struct Message {
    pub hwnd: Option<WindowHandle>,
    pub message: u32,
    pub w_param: usize,
    pub l_param: isize,
}

/// The UTF-16 units of one character: itself below 0x10000, else a high and
/// a low surrogate that hold ten bits each of what is above.
pub open spec fn utf16_of_char(c: char) -> Seq<u16> {
    let n = c as u32;
    if n < 0x10000 {
        seq![n as u16]
    } else {
        seq![(0xD800 + (n - 0x10000) / 0x400) as u16, (0xDC00 + (n - 0x10000) % 0x400) as u16]
    }
}

/// The UTF-16 units of a text.
pub open spec fn utf16_of(text: Seq<char>) -> Seq<u16>
    decreases text.len(),
{
    if text.len() == 0 {
        Seq::empty()
    } else {
        utf16_of(text.drop_last()) + utf16_of_char(text.last())
    }
}

impl ErrorCode {
    /// The code as the system reported it.
    pub closed spec fn value(self) -> u32 {
        self.code
    }

    pub(crate) fn new(code: u32) -> (r: ErrorCode)
        ensures
            r.value() == code,
    {
        ErrorCode { code }
    }

    /// The code as the system reported it.
    pub fn code(&self) -> (r: u32)
        ensures
            r == self.value(),
    {
        self.code
    }

    /// The code with its description, in one line: the code as a decimal
    /// numeral, a colon and a space, then the description.
    pub fn labelled(&self, description: &str) -> (r: String)
        ensures
            r@ == decimal_digits(self.value() as nat) + ": "@ + description@,
    {
        let mut r = decimal_text(self.code as u128);
        r.append(": ");
        r.append(description);
        r
    }

    /// The description that the system wrote for a code, as a string. The
    /// system wrote `size` units to the front of `buffer`; the last of them
    /// is left out.
    pub fn description(buffer: &[u16], size: u32) -> (r: Result<
        String,
        std::string::FromUtf16Error,
    >)
        requires
            0 < size,
            size - 1 <= buffer.len(),
        ensures
            r matches Ok(text) ==> utf16_of(text@) == buffer@.take(size - 1),
            r is Err ==> forall|text: Seq<char>| #[trigger] utf16_of(text) != buffer@.take(size - 1),
    {
        let units = vstd::slice::slice_subrange(buffer, 0, (size - 1) as usize);
        decode_utf16(units)
    }
}

impl ClassAtom {
    #[verifier::type_invariant]
    spec fn registered(self) -> bool {
        self.atom != 0
    }

    /// The token as a number.
    pub closed spec fn value(self) -> u16 {
        self.atom
    }

    /// The token that `raw` is, where it is one: zero is none.
    pub fn new(raw: u16) -> (r: Option<ClassAtom>)
        ensures
            raw == 0 <==> r is None,
            r matches Some(atom) ==> atom.value() == raw,
    {
        if raw == 0 {
            None
        } else {
            Some(ClassAtom { atom: raw })
        }
    }

    /// The token as a number, which is not zero.
    pub fn get(&self) -> (r: u16)
        ensures
            r == self.value(),
            r != 0,
    {
        proof {
            use_type_invariant(self);
        }
        self.atom
    }

    /// The address that stands for the class where a class name is asked
    /// for: the token in the low 16 bits and nothing above.
    pub fn as_name_address(&self) -> (r: usize)
        ensures
            r == self.value(),
            0 < r <= 0xFFFF,
    {
        proof {
            use_type_invariant(self);
        }
        self.atom as usize
    }
}

impl WindowHandle {
    #[verifier::type_invariant]
    spec fn not_null(self) -> bool {
        self.address != 0
    }

    /// The address that the handle holds.
    pub closed spec fn value(self) -> usize {
        self.address
    }

    /// The handle behind a raw address: none behind zero.
    pub fn new(address: usize) -> (r: Option<WindowHandle>)
        ensures
            address == 0 <==> r is None,
            r matches Some(handle) ==> handle.value() == address,
    {
        if address == 0 {
            None
        } else {
            Some(WindowHandle { address })
        }
    }

    /// The address that the handle holds, which is not zero.
    pub fn address(&self) -> (r: usize)
        ensures
            r == self.value(),
            r != 0,
    {
        proof {
            use_type_invariant(self);
        }
        self.address
    }
}

impl ModuleHandle {
    #[verifier::type_invariant]
    spec fn not_null(self) -> bool {
        self.address != 0
    }

    /// The address that the handle holds.
    pub closed spec fn value(self) -> usize {
        self.address
    }

    /// The handle behind a raw address: none behind zero.
    pub fn new(address: usize) -> (r: Option<ModuleHandle>)
        ensures
            address == 0 <==> r is None,
            r matches Some(handle) ==> handle.value() == address,
    {
        if address == 0 {
            None
        } else {
            Some(ModuleHandle { address })
        }
    }

    /// The address that the handle holds, which is not zero.
    pub fn address(&self) -> (r: usize)
        ensures
            r == self.value(),
            r != 0,
    {
        proof {
            use_type_invariant(self);
        }
        self.address
    }
}

impl Message {
    /// The address of the window that the message is for: zero for none.
    pub open spec fn window(self) -> usize {
        match self.hwnd {
            Some(handle) => handle.value(),
            None => 0,
        }
    }

    /// Whether the message holds these raw fields, a null window being no
    /// window.
    pub open spec fn holds(self, window: usize, message: u32, w_param: usize, l_param: isize) -> bool {
        &&& self.hwnd is None <==> window == 0
        &&& self.window() == window
        &&& self.message == message
        &&& self.w_param == w_param
        &&& self.l_param == l_param
    }

    /// The message that the raw fields hold. A null window is no window.
    pub fn from_raw(window: usize, message: u32, w_param: usize, l_param: isize) -> (r: Message)
        ensures
            r.holds(window, message, w_param, l_param),
    {
        Message { hwnd: WindowHandle::new(window), message, w_param, l_param }
    }
}

/// `String::from_utf16`: the text whose UTF-16 encoding the units are, or
/// an error where they are the encoding of no text.
#[verifier::external_body]
fn decode_utf16(units: &[u16]) -> (r: Result<String, std::string::FromUtf16Error>)
    ensures
        r matches Ok(text) ==> utf16_of(text@) == units@,
        r is Err ==> forall|text: Seq<char>| #[trigger] utf16_of(text) != units@,
{
    String::from_utf16(units)
}

/// The address to pass where a window may be named: zero for none.
pub fn window_address(window: Option<&WindowHandle>) -> (r: usize)
    ensures
        match window {
            Some(handle) => r == handle.value() && r != 0,
            None => r == 0,
        },
{
    match window {
        Some(handle) => handle.address(),
        None => 0,
    }
}

/// The name of a window class as the system takes it: the UTF-16 units of
/// `name`, then a zero.
pub fn class_name(name: &str) -> (r: Vec<u16>)
    ensures
        r@ == utf16_of(name@).push(0u16),
{
    let chars = chars_of(name);
    let mut r: Vec<u16> = Vec::new();
    let mut i: usize = 0;
    assert(chars@.take(0) == Seq::<char>::empty());
    while i < chars.len()
        invariant
            i <= chars.len(),
            r@ == utf16_of(chars@.take(i as int)),
        decreases chars.len() - i,
    {
        assert(chars@.take(i + 1).drop_last() == chars@.take(i as int));
        let n: u32 = chars[i] as u32;
        if n < 0x10000 {
            r.push(n as u16);
            assert(r@ == utf16_of(chars@.take(i as int)) + utf16_of_char(chars@[i as int]));
        } else {
            let above: u32 = n - 0x10000;
            r.push((0xD800 + above / 0x400) as u16);
            r.push((0xDC00 + above % 0x400) as u16);
            assert(r@ == utf16_of(chars@.take(i as int)) + utf16_of_char(chars@[i as int]));
        }
        i += 1;
    }
    assert(chars@.take(chars@.len() as int) == chars@);
    r.push(0);
    r
}

/// What asking for the module handle gave: the handle where the call
/// reported success and wrote one that is not null, else the error code.
pub fn module_handle_result(status: i32, module: usize, last_error: u32) -> (r: Result<
    ModuleHandle,
    ErrorCode,
>)
    ensures
        status != 0 && module != 0 <==> r is Ok,
        r matches Ok(handle) ==> handle.value() == module,
        r matches Err(e) ==> e.value() == last_error,
{
    if status == 0 {
        return Err(ErrorCode::new(last_error));
    }
    match ModuleHandle::new(module) {
        Some(handle) => Ok(handle),
        None => Err(ErrorCode::new(last_error)),
    }
}

/// What registering a window class gave: the token where the call returned
/// one that is not zero, else the error code.
pub fn class_result(atom: u16, last_error: u32) -> (r: Result<ClassAtom, ErrorCode>)
    ensures
        atom != 0 <==> r is Ok,
        r matches Ok(token) ==> token.value() == atom,
        r matches Err(e) ==> e.value() == last_error,
{
    match ClassAtom::new(atom) {
        Some(token) => Ok(token),
        None => Err(ErrorCode::new(last_error)),
    }
}

/// What creating a window gave: the handle where the call returned one that
/// is not null, else the error code.
pub fn window_result(window: usize, last_error: u32) -> (r: Result<WindowHandle, ErrorCode>)
    ensures
        window != 0 <==> r is Ok,
        r matches Ok(handle) ==> handle.value() == window,
        r matches Err(e) ==> e.value() == last_error,
{
    match WindowHandle::new(window) {
        Some(handle) => Ok(handle),
        None => Err(ErrorCode::new(last_error)),
    }
}

/// What subscribing a window to clipboard changes gave: success where the
/// call returned 1, else the error code.
pub fn listener_result(status: i32, last_error: u32) -> (r: Result<(), ErrorCode>)
    ensures
        status == 1 <==> r is Ok,
        r matches Err(e) ==> e.value() == last_error,
{
    if status == 1 {
        Ok(())
    } else {
        Err(ErrorCode::new(last_error))
    }
}

/// What taking a message from the queue gave: the error code where the
/// call returned -1, else the message, a quit message too.
pub fn message_result(
    status: i32,
    window: usize,
    message: u32,
    w_param: usize,
    l_param: isize,
    last_error: u32,
) -> (r: Result<Message, ErrorCode>)
    ensures
        status != -1 <==> r is Ok,
        r matches Ok(m) ==> m.holds(window, message, w_param, l_param),
        r matches Err(e) ==> e.value() == last_error,
{
    if status == -1 {
        Err(ErrorCode::new(last_error))
    } else {
        Ok(Message::from_raw(window, message, w_param, l_param))
    }
}

} // verus!
