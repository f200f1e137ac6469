use egl_screencast::frame::{
    encode_frame, frame_header, from_be_bytes, to_be_bytes, Picom, ReadAction, ReadOutcome,
    ReadSide,
};
use egl_screencast::protocol::{ClientMessage, Rectangle, RectangleList, ServerMessage, WordList};

fn receive_all(picom: &mut Picom, bytes: &[u8], step: usize) -> Option<Vec<u8>> {
    let mut rest = bytes;
    loop {
        let n = picom.wanted().min(step).min(rest.len());
        let complete = picom.received(&rest[..n]);
        rest = &rest[n..];
        if complete {
            assert!(rest.is_empty());
            return Some(picom.message().to_vec());
        }
        if rest.is_empty() && picom.wanted() > 0 {
            return None;
        }
    }
}

#[test]
fn big_endian_bytes() {
    assert_eq!(to_be_bytes(0x0102_0304), [1, 2, 3, 4]);
    assert_eq!(from_be_bytes(&[1, 2, 3, 4]), 0x0102_0304);
    assert_eq!(from_be_bytes(&[0, 0, 1, 0, 99]), 256);
    for n in [0u32, 1, 255, 256, 65_535, 65_536, u32::MAX - 1, u32::MAX] {
        assert_eq!(to_be_bytes(n), n.to_be_bytes());
        assert_eq!(from_be_bytes(&to_be_bytes(n)), n);
    }
}

#[test]
fn frames_announce_their_payload() {
    assert_eq!(encode_frame(b"{}"), vec![0, 0, 0, 2, b'{', b'}']);
    assert_eq!(encode_frame(b""), vec![0, 0, 0, 0]);
    assert_eq!(frame_header(300), [0, 0, 1, 44]);
    assert_eq!(frame_header(0x1_0000_0005), [0, 0, 0, 5]);
}

#[test]
fn client_reads_a_frame_however_it_is_cut() {
    let payload = b"{\"StreamCreated\":{\"node_ids\":[7]}}".to_vec();
    let wire = encode_frame(&payload);
    for step in 1..wire.len() + 1 {
        let mut picom = Picom::new("c".to_string());
        assert_eq!(receive_all(&mut picom, &wire, step), Some(payload.clone()));
        picom.accept();
        assert_eq!(picom.wanted(), 4);
        assert_eq!(receive_all(&mut picom, &wire, step), Some(payload.clone()));
    }
}

#[test]
fn client_waits_for_the_rest_of_a_frame() {
    let mut picom = Picom::new("c".to_string());
    assert_eq!(picom.wanted(), 4);
    assert!(!picom.received(&[0, 0]));
    assert_eq!(picom.wanted(), 2);
    assert!(!picom.received(&[0, 3]));
    assert_eq!(picom.wanted(), 3);
    assert!(!picom.received(&[9]));
    assert_eq!(picom.wanted(), 2);
    assert!(picom.received(&[8, 7]));
    assert_eq!(picom.message(), &[9, 8, 7]);
}

#[test]
fn empty_payload_completes_with_the_next_read() {
    let mut picom = Picom::new("c".to_string());
    assert!(!picom.received(&[0, 0, 0, 0]));
    assert_eq!(picom.wanted(), 0);
    assert!(picom.received(&[]));
    assert_eq!(picom.message(), &[] as &[u8]);
}

#[test]
fn payload_that_is_not_accepted_stays() {
    let mut picom = Picom::new("c".to_string());
    assert!(!picom.received(&[0, 0, 0, 1]));
    assert!(picom.received(b"x"));
    assert_eq!(picom.wanted(), 0);
    assert!(picom.received(&[]));
    assert_eq!(picom.message(), b"x");
    picom.accept();
    assert_eq!(picom.wanted(), 4);
    assert_eq!(picom.message(), b"");
}

#[test]
fn client_sends_a_frame_however_it_is_cut() {
    for step in 1..8 {
        let mut picom = Picom::new("c".to_string());
        picom.start_send(b"abc");
        let mut wire: Vec<u8> = Vec::new();
        while picom.finish_sending() {
            let n = picom.outgoing().len().min(step);
            wire.extend_from_slice(&picom.outgoing()[..n]);
            picom.wrote(n);
        }
        assert_eq!(wire, encode_frame(b"abc"));
        assert_eq!(picom.outgoing(), b"");
    }
}

#[test]
fn nothing_queued_is_nothing_to_send() {
    let mut picom = Picom::new("secret".to_string());
    assert!(!picom.finish_sending());
    assert_eq!(picom.cookie(), "secret");
}

#[test]
fn frame_is_laid_over_a_longer_queue() {
    let mut picom = Picom::new("c".to_string());
    picom.start_send(b"abcdef");
    picom.start_send(b"xy");
    assert_eq!(picom.outgoing(), &[0, 0, 0, 2, b'x', b'y', b'c', b'd', b'e', b'f']);
    picom.start_send(b"0123456");
    assert_eq!(picom.outgoing(), encode_frame(b"0123456").as_slice());
}

#[test]
fn server_reads_what_the_client_framed() {
    let payload = b"hello".to_vec();
    let wire = encode_frame(&payload);
    let mut side = ReadSide::new();
    assert_eq!(side.wanted(), 4);
    let action = side.on_read(ReadOutcome::Filled(wire[..4].to_vec()));
    assert!(matches!(action, ReadAction::Continue));
    assert_eq!(side.wanted(), payload.len());
    match side.on_read(ReadOutcome::Filled(wire[4..].to_vec())) {
        ReadAction::Deliver(p) => assert_eq!(p, payload),
        other => panic!("unexpected {:?}", other),
    }
    assert_eq!(side.wanted(), 4);
}

#[test]
fn server_ends_quietly_between_frames_only() {
    let mut side = ReadSide::new();
    assert!(matches!(side.on_read(ReadOutcome::Eof), ReadAction::Finish));
    let mut side = ReadSide::new();
    side.on_read(ReadOutcome::Filled(vec![0, 0, 0, 9]));
    assert_eq!(side.wanted(), 9);
    assert!(matches!(side.on_read(ReadOutcome::Eof), ReadAction::Fail));
    let mut side = ReadSide::new();
    assert!(matches!(side.on_read(ReadOutcome::Failed), ReadAction::Fail));
}

#[test]
fn rectangle_lists_keep_their_order() {
    let a = Rectangle { x: -1, y: 2, width: 3, height: 4 };
    let b = Rectangle { x: 5, y: 6, width: 7, height: 8 };
    let mut list = RectangleList::new();
    assert_eq!(list.len(), 0);
    for i in 0..10 {
        list.push(if i % 2 == 0 { a } else { b });
    }
    assert_eq!(list.len(), 10);
    assert_eq!(list.get(0), a);
    assert_eq!(list.get(9), b);
    let mut copy = list.clone();
    assert_eq!(copy, list);
    copy.extend(&vec![b, a]);
    assert_eq!(copy.len(), 12);
    assert_eq!(copy.get(10), b);
    assert_eq!(copy.get(11), a);
    assert_eq!(list.len(), 10);
    assert_ne!(copy, list);
}

#[test]
fn word_lists_keep_their_order() {
    let mut list = WordList::new();
    for i in 0..9u32 {
        list.push(100 + i);
    }
    assert_eq!(list.len(), 9);
    for i in 0..9usize {
        assert_eq!(list.get(i), 100 + i as u32);
    }
    let copy = list.clone();
    assert_eq!(copy, list);
    list.push(0);
    assert_eq!(copy.len(), 9);
}

#[test]
fn messages_compare_by_content() {
    let mut rectangles = RectangleList::new();
    rectangles.push(Rectangle { x: 0, y: 0, width: 1, height: 1 });
    let a = ClientMessage::CreateStream {
        cookie: "k".to_string(),
        rectangles,
        embed_cursor: true,
    };
    assert_eq!(a.clone(), a);
    let mut ids = WordList::new();
    ids.push(4);
    let b = ServerMessage::StreamCreated { node_ids: ids };
    assert_eq!(b.clone(), b);
    assert_ne!(b, ServerMessage::StreamCreationError { error: "e".to_string() });
}
