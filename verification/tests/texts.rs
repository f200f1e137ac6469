use egl_screencast::connect::{
    ConnectAction, ConnectError, ConnectEvent, Connecting, PropertyReply,
};
use egl_screencast::error::{report, FdoError, PortalError};
use egl_screencast::ffi::{status_to_result, FfiError};
use egl_screencast::server::new_cookie;
use egl_screencast::text::{
    chars_of, compositor_selection, contains_word, decimal_int_string, decimal_string, hex_string,
    join,
};

#[test]
fn numbers_are_written_like_std_does() {
    for n in [0u64, 7, 10, 99, 100, 12_345, u64::MAX] {
        assert_eq!(decimal_string(n), format!("{}", n));
    }
    for n in [0i64, -1, 42, -1000, i64::MAX, i64::MIN] {
        assert_eq!(decimal_int_string(n), format!("{}", n));
    }
    for n in [0u32, 9, 15, 16, 255, 0x3003, u32::MAX] {
        assert_eq!(hex_string(n), format!("{:x}", n));
    }
}

#[test]
fn words_are_parted_by_single_spaces() {
    assert!(contains_word("a bc d", "bc"));
    assert!(contains_word("a bc d", "a"));
    assert!(contains_word("a bc d", "d"));
    assert!(!contains_word("a bcd", "bc"));
    assert!(!contains_word("abc d", "bc"));
    assert!(!contains_word("a b", "a b"));
    assert!(contains_word("", ""));
    assert!(contains_word("a ", ""));
    assert!(contains_word("a  b", ""));
    assert!(!contains_word("a b", ""));
    assert!(!contains_word("", "a"));
    for text in ["", " ", "x", "x y", " x", "x  y ", "xx x"] {
        for word in ["", "x", "y", "xx", "x y"] {
            assert_eq!(contains_word(text, word), text.split(' ').any(|w| w == word));
        }
    }
}

#[test]
fn text_is_joined() {
    assert_eq!(join("ab", "cd"), "abcd");
    assert_eq!(chars_of("a-é"), vec!['a', '-', 'é']);
}

#[test]
fn selection_is_named_after_the_screen() {
    assert_eq!(compositor_selection(0), "_NET_WM_CM_S0");
    assert_eq!(compositor_selection(12), "_NET_WM_CM_S12");
    assert_eq!(compositor_selection(-1), "_NET_WM_CM_S-1");
}

#[test]
fn outside_errors_are_reported_with_context() {
    let e = FdoError::with_msg("doing")("broke".to_string());
    assert_eq!(e.0, "doing");
    assert_eq!(e.1, "broke");
    assert_eq!(e.into_error(), PortalError::Failed("doing: broke".to_string()));
    assert_eq!(
        report("root geometry", "X".to_string()),
        PortalError::Failed("root geometry: X".to_string())
    );
}

#[test]
fn ffi_statuses() {
    assert_eq!(status_to_result(0), Ok(()));
    assert_eq!(status_to_result(1), Err(FfiError::Typedef));
    assert_eq!(status_to_result(2), Err(FfiError::Abi));
    assert_eq!(status_to_result(77), Err(FfiError::Abi));
}

fn property(value: &[u8]) -> PropertyReply {
    PropertyReply { type_: 31, value: value.to_vec() }
}

#[test]
fn client_finds_the_compositor() {
    let mut c = Connecting::new();
    let socket = ConnectEvent::Socket(property(b"/x"));
    assert!(!c.can_reply(&socket));
    let owner = ConnectEvent::Owner(0x40);
    assert!(c.can_reply(&owner));
    assert!(matches!(c.on_reply(owner), Ok(ConnectAction::ReadCookie { window: 0x40, words: 128 })));
    assert!(!c.can_reply(&ConnectEvent::Owner(1)));
    let cookie = ConnectEvent::Cookie(property(b"abc"));
    assert!(c.can_reply(&cookie));
    assert!(matches!(c.on_reply(cookie), Ok(ConnectAction::ReadSocket { window: 0x40, words: 1024 })));
    let socket = ConnectEvent::Socket(property(b"/run/\xff"));
    assert!(c.can_reply(&socket));
    match c.on_reply(socket) {
        Ok(ConnectAction::Connect(path)) => assert_eq!(path, b"/run/\xff"),
        other => panic!("unexpected {:?}", other),
    }
    let picom = c.into_picom().unwrap();
    assert_eq!(picom.cookie(), "abc");
    assert_eq!(picom.wanted(), 4);
}

#[test]
fn client_fails_without_a_compositor() {
    let mut c = Connecting::new();
    let e = c.on_reply(ConnectEvent::Owner(0)).unwrap_err();
    assert_eq!(e.message(), "No compatible compositor found");
    assert!(c.into_picom().is_none());

    let mut c = Connecting::new();
    c.on_reply(ConnectEvent::Owner(3)).unwrap();
    let none = PropertyReply { type_: 0, value: vec![] };
    let e = c.on_reply(ConnectEvent::Cookie(none)).unwrap_err();
    assert_eq!(e.message(), "No cookie found");

    c.on_reply(ConnectEvent::Cookie(property(b"k"))).unwrap();
    let none = PropertyReply { type_: 0, value: vec![] };
    let e = c.on_reply(ConnectEvent::Socket(none)).unwrap_err();
    assert_eq!(e.message(), "No socket found");
}

#[test]
fn cookie_must_be_text() {
    let mut c = Connecting::new();
    c.on_reply(ConnectEvent::Owner(3)).unwrap();
    c.on_reply(ConnectEvent::Cookie(property(&[b'a', 0xff]))).unwrap();
    let e = c.on_reply(ConnectEvent::Socket(property(b"/s"))).unwrap_err();
    assert!(matches!(e, ConnectError::InvalidCookie(_)));
    assert_eq!(e.message(), "invalid utf-8 sequence of 1 bytes from index 1");
    assert_eq!(
        e.message(),
        String::from_utf8(vec![b'a', 0xff]).unwrap_err().to_string()
    );

    let mut c = Connecting::new();
    c.on_reply(ConnectEvent::Owner(3)).unwrap();
    c.on_reply(ConnectEvent::Cookie(property("ké".as_bytes()))).unwrap();
    c.on_reply(ConnectEvent::Socket(property(b"/s"))).unwrap();
    assert_eq!(c.into_picom().unwrap().cookie(), "ké");
}

#[test]
fn client_recovers_the_published_cookie() {
    let cookie = new_cookie();
    assert!(cookie.len() <= 4 * 128);
    let mut c = Connecting::new();
    c.on_reply(ConnectEvent::Owner(3)).unwrap();
    c.on_reply(ConnectEvent::Cookie(property(cookie.as_bytes()))).unwrap();
    c.on_reply(ConnectEvent::Socket(property(b"/s"))).unwrap();
    assert_eq!(c.into_picom().unwrap().cookie(), cookie);
}
