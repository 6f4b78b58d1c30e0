use ripclip::win::{
    class_name, class_result, listener_result, message_result, module_handle_result,
    window_address, window_result, ClassAtom, ErrorCode, Message, ModuleHandle, WindowHandle,
    DESCRIPTION_CAPACITY, FORMAT_MESSAGE_FROM_SYSTEM,
};

#[test]
fn handles_are_never_null() {
    assert!(WindowHandle::new(0).is_none());
    assert_eq!(WindowHandle::new(0x1234).unwrap().address(), 0x1234);
    assert!(ModuleHandle::new(0).is_none());
    assert_eq!(ModuleHandle::new(usize::MAX).unwrap().address(), usize::MAX);
    assert!(ClassAtom::new(0).is_none());
    assert_eq!(ClassAtom::new(0xC001).unwrap().get(), 0xC001);
    assert_eq!(ClassAtom::new(0xC001).unwrap().as_name_address(), 0xC001);
}

#[test]
fn module_handle_outcome() {
    assert_eq!(module_handle_result(1, 0x40_0000, 0).unwrap().address(), 0x40_0000);
    assert_eq!(module_handle_result(0, 0x40_0000, 6).unwrap_err().code(), 6);
    assert_eq!(module_handle_result(1, 0, 126).unwrap_err().code(), 126);
}

#[test]
fn class_outcome() {
    assert_eq!(class_result(0xC123, 0).unwrap().get(), 0xC123);
    assert_eq!(class_result(0, 1410).unwrap_err().code(), 1410);
}

#[test]
fn window_outcome() {
    assert_eq!(window_result(0x50_0000, 0).unwrap().address(), 0x50_0000);
    assert_eq!(window_result(0, 1407).unwrap_err().code(), 1407);
}

#[test]
fn listener_outcome() {
    assert!(listener_result(1, 0).is_ok());
    assert_eq!(listener_result(0, 5).unwrap_err().code(), 5);
    assert_eq!(listener_result(2, 87).unwrap_err().code(), 87);
}

#[test]
fn message_outcome() {
    let message = message_result(1, 0x77, 0x031D, 3, -4, 0).unwrap();
    assert_eq!(
        message,
        Message { hwnd: WindowHandle::new(0x77), message: 0x031D, w_param: 3, l_param: -4 }
    );
    let quit = message_result(0, 0, 0x0012, 0, 0, 0).unwrap();
    assert_eq!(quit, Message { hwnd: None, message: 0x0012, w_param: 0, l_param: 0 });
    assert_eq!(message_result(-1, 0x77, 0, 0, 0, 1400).unwrap_err().code(), 1400);
    assert_eq!(Message::from_raw(0, 1, 2, 3).hwnd, None);
}

#[test]
fn no_window_is_the_null_address() {
    let window = WindowHandle::new(0xABCD).unwrap();
    assert_eq!(window_address(Some(&window)), 0xABCD);
    assert_eq!(window_address(None), 0);
}

#[test]
fn class_name_is_utf16_with_a_zero() {
    assert_eq!(class_name("ab"), vec![0x61, 0x62, 0]);
    assert_eq!(class_name(""), vec![0]);
    assert_eq!(class_name("é\u{FFFF}"), vec![0xE9, 0xFFFF, 0]);
    assert_eq!(class_name("\u{10000}\u{1F600}\u{10FFFF}"), vec![0xD800, 0xDC00, 0xD83D, 0xDE00, 0xDBFF, 0xDFFF, 0]);
    let text = "ripclip wnd ✂ \u{1F4CB}";
    let mut expected: Vec<u16> = text.encode_utf16().collect();
    expected.push(0);
    assert_eq!(class_name(text), expected);
}

#[test]
fn description_leaves_the_last_unit_out() {
    let mut buffer: Vec<u16> = "Access is denied.\r\n".encode_utf16().collect();
    let size = buffer.len() as u32;
    buffer.resize(64, 0);
    assert_eq!(ErrorCode::description(&buffer, size).unwrap(), "Access is denied.\r");
    assert_eq!(ErrorCode::description(&buffer, 1).unwrap(), "");
    let pair: Vec<u16> = vec![0xD83D, 0xDE00, 0x21];
    assert_eq!(ErrorCode::description(&pair, 3).unwrap(), "\u{1F600}");
}

#[test]
fn description_fails_on_a_lone_surrogate() {
    let buffer: Vec<u16> = vec![0x41, 0xD800, 0x42, 0x43];
    assert!(ErrorCode::description(&buffer, 4).is_err());
    assert!(ErrorCode::description(&buffer, 3).is_err());
    assert_eq!(ErrorCode::description(&buffer, 2).unwrap(), "A");
}

#[test]
fn description_constants() {
    assert_eq!(FORMAT_MESSAGE_FROM_SYSTEM, 0x1000);
    assert_eq!(DESCRIPTION_CAPACITY, 65535);
}

#[test]
fn class_name_agrees_with_the_standard_library() {
    let mut n: u32 = 0;
    while n <= 0x11_0000 {
        if let Some(c) = char::from_u32(n) {
            let text = c.to_string();
            let mut expected: Vec<u16> = text.encode_utf16().collect();
            expected.push(0);
            assert_eq!(class_name(&text), expected);
        }
        n += 97;
    }
}

#[test]
fn code_with_its_description() {
    let e = window_result(0, 1407).unwrap_err();
    assert_eq!(e.labelled("Cannot find window class.\r"), "1407: Cannot find window class.\r");
    let e = listener_result(0, 0).unwrap_err();
    assert_eq!(e.labelled(""), "0: ");
    let e = class_result(0, u32::MAX).unwrap_err();
    assert_eq!(e.labelled("x"), "4294967295: x");
}
