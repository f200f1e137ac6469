use egl_screencast::error::PortalError;
use egl_screencast::portal::{
    monitor_rectangle, ScreenCast, SelectSourcesOptions, Session, StartAction, StartRequest,
    StreamDict, CURSOR_EMBEDDED, CURSOR_HIDDEN, SOURCE_MONITOR, SOURCE_VIRTUAL, SOURCE_WINDOW,
};
use egl_screencast::protocol::{ClientMessage, Rectangle, ServerMessage, WordList};

fn options(types: Option<u32>, multiple: Option<bool>, cursor: Option<u32>) -> SelectSourcesOptions {
    SelectSourcesOptions { multiple, types, cursor_mode: cursor }
}

fn monitors() -> Vec<Rectangle> {
    vec![
        monitor_rectangle(0, 0, 1920, 1080),
        monitor_rectangle(1920, 0, 800, 600),
        monitor_rectangle(-100, 50, 640, 480),
    ]
}

fn sent(action: StartAction) -> (String, Vec<Rectangle>, bool) {
    match action {
        StartAction::Send(ClientMessage::CreateStream { cookie, rectangles, embed_cursor }) => {
            let list = (0..rectangles.len()).map(|i| rectangles.get(i)).collect();
            (cookie, list, embed_cursor)
        }
        other => panic!("unexpected {:?}", other),
    }
}

fn nodes(ids: &[u32]) -> ServerMessage {
    let mut node_ids = WordList::new();
    for id in ids {
        node_ids.push(*id);
    }
    ServerMessage::StreamCreated { node_ids }
}

#[test]
fn interface_properties() {
    assert_eq!(ScreenCast.version(), 5);
    assert_eq!(ScreenCast.available_cursor_modes(), 3);
    assert_eq!(ScreenCast.available_source_types(), 5);
    assert_eq!(Session::create("/s".to_string()).version(), 1);
}

#[test]
fn new_session_captures_one_monitor() {
    let s = Session::create("/s/1".to_string());
    assert_eq!(s.path, "/s/1");
    assert_eq!(s.source_type, SOURCE_MONITOR);
    assert_eq!(s.cursor_mode, CURSOR_HIDDEN);
    assert!(!s.allow_multiple);
}

#[test]
fn options_are_taken_over() {
    let mut s = Session::create("/s".to_string());
    assert_eq!(s.select_sources(options(Some(7), Some(true), Some(CURSOR_EMBEDDED))), Ok(()));
    assert_eq!(s.source_type, SOURCE_MONITOR | SOURCE_VIRTUAL);
    assert!(s.allow_multiple);
    assert_eq!(s.cursor_mode, CURSOR_EMBEDDED);
    assert_eq!(s.select_sources(options(None, None, None)), Ok(()));
    assert_eq!(s.source_type, 5);
    assert!(s.allow_multiple);
    assert_eq!(s.cursor_mode, CURSOR_EMBEDDED);
}

#[test]
fn windows_alone_are_refused() {
    let mut s = Session::create("/s".to_string());
    let r = s.select_sources(options(Some(SOURCE_WINDOW), Some(true), Some(CURSOR_EMBEDDED)));
    assert_eq!(r, Err(PortalError::InvalidArgs("Invalid source type".to_string())));
    assert_eq!(s.source_type, 0);
    assert!(!s.allow_multiple);
    assert_eq!(s.cursor_mode, CURSOR_HIDDEN);
    let (_, action) = StartRequest::begin(&s, "c".to_string());
    assert!(matches!(action, StartAction::QueryMonitors));
}

#[test]
fn one_monitor_at_a_time() {
    let s = Session::create("/s".to_string());
    let mut turn = 0;
    let mut seen = Vec::new();
    for _ in 0..4 {
        let (mut start, action) = StartRequest::begin(&s, "cookie".to_string());
        assert!(matches!(action, StartAction::QueryMonitors));
        let (action, next) = start.on_monitors(&monitors(), turn);
        let (cookie, list, embed) = sent(action);
        assert_eq!(cookie, "cookie");
        assert!(!embed);
        assert_eq!(list.len(), 1);
        seen.push(list[0].x);
        turn = next.unwrap();
    }
    assert_eq!(seen, vec![0, 1920, -100, 0]);
}

#[test]
fn monitors_that_went_away_are_passed_over() {
    let s = Session::create("/s".to_string());
    let (mut start, _) = StartRequest::begin(&s, "c".to_string());
    let (action, next) = start.on_monitors(&vec![monitors()[1]], 7);
    assert_eq!(sent(action).1, vec![monitors()[1]]);
    assert_eq!(next, Some(1));
    let (mut start, _) = StartRequest::begin(&s, "c".to_string());
    let (action, next) = start.on_monitors(&vec![], 3);
    assert_eq!(sent(action).1, vec![]);
    assert_eq!(next, Some(1));
}

#[test]
fn several_sources_at_once() {
    let mut s = Session::create("/s".to_string());
    s.select_sources(options(Some(5), Some(true), Some(CURSOR_EMBEDDED))).unwrap();
    let (mut start, action) = StartRequest::begin(&s, "c".to_string());
    assert!(matches!(action, StartAction::QueryMonitors));
    let (action, next) = start.on_monitors(&monitors(), 2);
    assert!(matches!(action, StartAction::QueryGeometry));
    assert_eq!(next, None);
    let (_, list, embed) = sent(start.on_geometry(2720, 1080));
    assert!(embed);
    let mut expected = monitors();
    expected.push(Rectangle { x: 0, y: 0, width: 2720, height: 1080 });
    assert_eq!(list, expected);
    let streams = start.respond(nodes(&[10, 11, 12, 13])).unwrap();
    assert_eq!(streams.len(), 4);
    assert_eq!(
        streams[2],
        (
            12,
            StreamDict {
                position: (-100, 50),
                size: (640, 480),
                source_type: SOURCE_MONITOR,
                mapping_id: None,
            }
        )
    );
    assert_eq!(streams[3].0, 13);
    assert_eq!(streams[3].1.source_type, SOURCE_VIRTUAL);
    assert_eq!(streams[3].1.size, (2720, 1080));
}

#[test]
fn screen_alone() {
    let mut s = Session::create("/s".to_string());
    s.select_sources(options(Some(SOURCE_VIRTUAL), None, None)).unwrap();
    let (mut start, action) = StartRequest::begin(&s, "c".to_string());
    assert!(matches!(action, StartAction::QueryGeometry));
    let (_, list, _) = sent(start.on_geometry(10, 20));
    assert_eq!(list, vec![Rectangle { x: 0, y: 0, width: 10, height: 20 }]);
}

#[test]
fn single_source_prefers_monitors() {
    let mut s = Session::create("/s".to_string());
    s.select_sources(options(Some(5), Some(false), None)).unwrap();
    let (mut start, action) = StartRequest::begin(&s, "c".to_string());
    assert!(matches!(action, StartAction::QueryMonitors));
    let (action, _) = start.on_monitors(&monitors(), 0);
    assert_eq!(sent(action).1.len(), 1);
}

#[test]
fn answers_are_cut_to_what_was_asked() {
    let s = Session::create("/s".to_string());
    let (mut start, _) = StartRequest::begin(&s, "c".to_string());
    start.on_monitors(&monitors(), 0);
    assert_eq!(start.respond(nodes(&[1, 2, 3])).unwrap().len(), 1);
    assert_eq!(start.respond(nodes(&[])).unwrap().len(), 0);
    assert_eq!(
        start.respond(ServerMessage::StreamCreationError { error: "no".to_string() }),
        Err(PortalError::Failed("no".to_string()))
    );
}
