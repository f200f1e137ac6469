use egl_screencast::capture::Extent;
use egl_screencast::format::{EglModifier, OfferedFormat, VideoFormat};
use egl_screencast::init::{
    egl_check_extensions, ExtensionOwner, InitAction, InitError, InitEvent, PluginInit,
};
use egl_screencast::message::{MessagesFromPipewire, MessagesToPipewire};
use egl_screencast::protocol::{ClientMessage, Rectangle, RectangleList, ServerMessage};
use egl_screencast::server::{
    new_cookie, on_client_request, on_stream_replies, place_runtime_file, ClientAction,
    ClientError, ClientRequest, ServerAction, ServerEvent, Startup, StreamReply, BASE64_CHARSET,
    COOKIE_LENGTH,
};
use egl_screencast::stream::{
    is_kept, remove_buffer, stream_error_text, stream_set_error, Pipewire, Received, StateAction,
    StreamData, StreamParams, StreamState, ThreadAction,
};

fn params(x: i32) -> StreamParams {
    StreamParams { x, y: 2, width: 3, height: 4, embed_cursor: true }
}

#[test]
fn streams_are_created_on_request() {
    let mut pw = Pipewire::new();
    let msg = Received::Message(MessagesToPipewire::CreateStream {
        x: 1,
        y: 2,
        width: 3,
        height: 4,
        embed_cursor: true,
    });
    assert!(pw.can_handle(&msg));
    assert_eq!(pw.handle_message(msg), ThreadAction::CreateStream(params(1)));
    assert!(pw.has_room());
    let a = pw.new_stream(params(1));
    let b = pw.new_stream(params(5));
    assert_ne!(a, b);
    assert!(pw.has_stream(a));
    assert_eq!(pw.stream(a), Some(params(1)));
    assert_eq!(pw.stream(b), Some(params(5)));
    assert_eq!(pw.stream(0xffff), None);
}

#[test]
fn stream_that_cannot_be_made_ends_the_thread() {
    let pw = Pipewire::new();
    assert_eq!(pw.on_stream_made(true), None);
    assert_eq!(pw.on_stream_made(false), Some(ThreadAction::Quit));
}

#[test]
fn frames_wait_for_their_fences() {
    let mut pw = Pipewire::new();
    let s = pw.new_stream(params(1));
    let frame = |stream_id: u64| {
        Received::Message(MessagesToPipewire::NewFrame { id: 0x1_0000_0009, fence: 33, stream_id })
    };
    assert_eq!(
        pw.handle_message(frame(s)),
        ThreadAction::AwaitFence { id: 0x1_0000_0009, fence: 33, stream_id: s }
    );
    assert!(pw.awaits_fence(0x1_0000_0009));
    assert!(!pw.awaits_fence(0x1_0000_0008));
    assert!(pw.on_fence(0x1_0000_0009, s));
    assert!(!pw.awaits_fence(0x1_0000_0009));
    assert_eq!(pw.handle_message(frame(77)), ThreadAction::CloseFence { fence: 33 });
    assert!(!pw.awaits_fence(0x1_0000_0009));
    pw.handle_message(frame(s));
    pw.reap(&vec![s]);
    assert!(!pw.on_fence(0x1_0000_0009, s));
}

#[test]
fn buffer_errors_fail_their_stream() {
    let mut pw = Pipewire::new();
    let s = pw.new_stream(params(1));
    let msg = Received::Message(MessagesToPipewire::BufferError { id: 4, stream_id: s });
    assert!(pw.can_handle(&msg));
    assert_eq!(
        pw.handle_message(msg),
        ThreadAction::FailStream { stream_id: s, text: "Error: \"Buffer error\"".to_string() }
    );
    assert_eq!(format!("Error: {:?}", "Buffer error"), "Error: \"Buffer error\"");
    let msg = Received::Message(MessagesToPipewire::BufferError { id: 4, stream_id: 3 });
    assert!(!pw.can_handle(&msg));
}

#[test]
fn errored_streams_are_reaped() {
    let mut pw = Pipewire::new();
    let a = pw.new_stream(params(1));
    let b = pw.new_stream(params(2));
    let c = pw.new_stream(params(3));
    assert_eq!(pw.handle_message(Received::Empty), ThreadAction::Reap);
    pw.reap(&vec![b, 999]);
    assert!(pw.has_stream(a) && !pw.has_stream(b) && pw.has_stream(c));
    assert_eq!(pw.stream(c), Some(params(3)));
    pw.reap(&vec![]);
    assert!(pw.has_stream(a) && pw.has_stream(c));
    assert_eq!(pw.handle_message(Received::Disconnected), ThreadAction::Quit);
    assert!(is_kept(&vec![1, 2], 3));
    assert!(!is_kept(&vec![1, 2], 2));
}

#[test]
fn stream_errors_wake_the_thread() {
    assert_eq!(stream_error_text("x"), "Error: x");
    let (text, msg) = stream_set_error("broken");
    assert_eq!(text, "Error: broken");
    assert!(matches!(msg, MessagesFromPipewire::WakeMeUp));
    match remove_buffer(12) {
        MessagesFromPipewire::RemoveBuffers { ids } => {
            assert_eq!(ids.len(), 1);
            assert_eq!(ids.get(0), 12);
        }
        other => panic!("unexpected {:?}", other),
    }
}

#[test]
fn buffers_are_filled_one_at_a_time() {
    let mut d = StreamData::new();
    let mut taken = Vec::new();
    let mut queued = Vec::new();
    for buffer in 1..6u64 {
        assert!(d.wants_buffer(StreamState::Streaming));
        assert!(!d.wants_buffer(StreamState::Paused));
        match d.send_buffer(buffer, 50 + buffer) {
            MessagesFromPipewire::ActivateBuffer { id } => assert_eq!(id, 50 + buffer),
            other => panic!("unexpected {:?}", other),
        }
        taken.push(buffer);
        assert!(!d.wants_buffer(StreamState::Streaming));
        queued.extend(d.on_process());
        assert_eq!(d.on_process(), None);
    }
    assert_eq!(taken, queued);
}

#[test]
fn request_for_a_stream_is_answered_once() {
    let mut d = StreamData::new();
    assert_eq!(d.on_state_changed(StreamState::Other), StateAction::Nothing);
    assert_eq!(d.on_state_changed(StreamState::Paused), StateAction::ReplyNode);
    assert_eq!(d.on_state_changed(StreamState::Streaming), StateAction::SendBuffer);
    assert_eq!(d.on_state_changed(StreamState::Paused), StateAction::Nothing);
}

#[test]
fn cookies_are_random_text() {
    assert_eq!(COOKIE_LENGTH, 88);
    let a = new_cookie();
    assert_eq!(a.chars().count(), COOKIE_LENGTH);
    assert!(a.chars().all(|c| BASE64_CHARSET.contains(c)));
    assert_ne!(a, new_cookie());
}

#[test]
fn runtime_files_are_placed() {
    let place = |placed: Option<&str>, tmp: Option<&str>| {
        let path = place_runtime_file(
            placed.map(|p| p.as_bytes().to_vec()),
            tmp.map(|p| p.as_bytes().to_vec()),
            "x.pid",
        );
        String::from_utf8(path).unwrap()
    };
    assert_eq!(place(Some("/run/picom/x.pid"), Some("/t")), "/run/picom/x.pid");
    assert_eq!(place(None, Some("/var/t")), "/var/t/picom-x.pid");
    assert_eq!(place(None, Some("/var/t/")), "/var/t/picom-x.pid");
    assert_eq!(place(None, Some("")), "picom-x.pid");
    assert_eq!(place(None, None), "/tmp/picom-x.pid");
}

#[test]
fn server_comes_up_in_order() {
    let mut s = Startup::new();
    assert!(s.can_run(&ServerEvent::Display(None)));
    assert!(!s.can_run(&ServerEvent::Published));
    let steps = vec![
        (
            ServerEvent::Display(Some(":0".to_string())),
            ServerAction::LockPidFile("egl-screencast-:0.pid".to_string()),
        ),
        (ServerEvent::Locked { pid: 4321 }, ServerAction::WritePid("4321".to_string())),
        (ServerEvent::PidWritten, ServerAction::RemoveSocket("egl-screencast-:0".to_string())),
        (ServerEvent::SocketGone, ServerAction::Publish("egl-screencast-:0".to_string())),
        (ServerEvent::Published, ServerAction::Listen("egl-screencast-:0".to_string())),
    ];
    for (event, action) in steps {
        assert!(s.can_run(&event));
        assert_eq!(s.run(event), Some(action));
    }
}

#[test]
fn second_server_declines() {
    let mut s = Startup::new();
    s.run(ServerEvent::Display(Some(":1".to_string())));
    assert_eq!(
        s.run(ServerEvent::NotLocked { error: "busy".to_string() }),
        Some(ServerAction::ReadPid)
    );
    assert!(!s.can_run(&ServerEvent::SocketGone));
    assert_eq!(
        s.run(ServerEvent::PidRead("77".to_string())),
        Some(ServerAction::Decline(
            "Another instance of picom-egl-screencast is running: busy, pid: 77".to_string()
        ))
    );
}

#[test]
fn server_fails_without_a_display() {
    let mut s = Startup::new();
    assert_eq!(s.run(ServerEvent::Display(None)), None);
    let mut s = Startup::new();
    s.run(ServerEvent::Display(Some(":1".to_string())));
    assert_eq!(s.run(ServerEvent::Failed), None);
}

fn request(cookie: &str) -> ClientRequest {
    let mut rectangles = RectangleList::new();
    rectangles.push(Rectangle { x: 1, y: 2, width: 3, height: 4 });
    rectangles.push(Rectangle { x: -5, y: 6, width: 7, height: 8 });
    ClientRequest::Message(ClientMessage::CreateStream {
        cookie: cookie.to_string(),
        rectangles,
        embed_cursor: true,
    })
}

#[test]
fn clients_with_the_cookie_get_streams() {
    let ours = "secret".to_string();
    match on_client_request(&ours, request("secret")) {
        Ok(ClientAction::CreateStreams(list)) => assert_eq!(
            list,
            vec![
                MessagesToPipewire::CreateStream {
                    x: 1,
                    y: 2,
                    width: 3,
                    height: 4,
                    embed_cursor: true
                },
                MessagesToPipewire::CreateStream {
                    x: -5,
                    y: 6,
                    width: 7,
                    height: 8,
                    embed_cursor: true
                },
            ]
        ),
        other => panic!("unexpected {:?}", other),
    }
}

#[test]
fn other_clients_get_nothing() {
    let ours = "secret".to_string();
    let e = on_client_request(&ours, request("secret2")).unwrap_err();
    assert_eq!(e.message(), Some("Invalid cookie secret".to_string()));
    let e = on_client_request(&ours, request("")).unwrap_err();
    assert!(matches!(e, ClientError::InvalidCookie(_)));
    assert!(matches!(
        on_client_request(&ours, ClientRequest::Left),
        Ok(ClientAction::Finish)
    ));
    let e = on_client_request(&ours, ClientRequest::Unreadable).unwrap_err();
    assert!(matches!(e, ClientError::Unreadable));
    assert_eq!(e.message(), None);
}

#[test]
fn clients_are_answered() {
    let all = vec![StreamReply::Node(3), StreamReply::Node(1)];
    match on_stream_replies(&all) {
        Ok(ClientAction::Reply(ServerMessage::StreamCreated { node_ids })) => {
            assert_eq!(node_ids.len(), 2);
            assert_eq!((node_ids.get(0), node_ids.get(1)), (3, 1));
        }
        other => panic!("unexpected {:?}", other),
    }
    let some = vec![
        StreamReply::Node(3),
        StreamReply::Refused("first".to_string()),
        StreamReply::Refused("second".to_string()),
    ];
    match on_stream_replies(&some) {
        Ok(ClientAction::Reply(ServerMessage::StreamCreationError { error })) => {
            assert_eq!(error, "first")
        }
        other => panic!("unexpected {:?}", other),
    }
    let lost = vec![StreamReply::Refused("first".to_string()), StreamReply::Lost];
    assert!(matches!(on_stream_replies(&lost), Err(ClientError::StreamLost)));
    assert!(matches!(
        on_stream_replies(&vec![]),
        Ok(ClientAction::Reply(ServerMessage::StreamCreated { .. }))
    ));
}

const CLIENT: &[u8] = b"EGL_A EGL_EXT_device_base EGL_EXT_device_query";
const DISPLAY: &[u8] = b"EGL_EXT_image_dma_buf_import_modifiers EGL_B";
const DEVICE: &[u8] = b"EGL_EXT_device_drm_render_node";

#[test]
fn extensions_are_looked_up() {
    assert!(egl_check_extensions(ExtensionOwner::Client, CLIENT.to_vec()).is_ok());
    assert!(egl_check_extensions(ExtensionOwner::Display, DISPLAY.to_vec()).is_ok());
    assert!(egl_check_extensions(ExtensionOwner::Device, DEVICE.to_vec()).is_ok());
    let missing = |owner: ExtensionOwner, list: &[u8]| {
        egl_check_extensions(owner, list.to_vec()).unwrap_err().message()
    };
    assert_eq!(
        missing(ExtensionOwner::Client, b""),
        "Required EGL client extension EGL_EXT_device_base not found"
    );
    assert_eq!(
        missing(ExtensionOwner::Client, b"EGL_EXT_device_base EGL_EXT_device_query2"),
        "Required EGL client extension EGL_EXT_device_query not found"
    );
    assert_eq!(
        missing(ExtensionOwner::Display, b"x"),
        "Required EGL extension EGL_EXT_image_dma_buf_import_modifiers not found"
    );
    assert_eq!(
        missing(ExtensionOwner::Device, DISPLAY),
        "Required EGL device extension EGL_EXT_device_drm_render_node not found"
    );
    assert_eq!(
        missing(ExtensionOwner::Device, &[0xff]),
        "invalid utf-8 sequence of 1 bytes from index 0"
    );
}

fn offered() -> Vec<OfferedFormat> {
    vec![OfferedFormat {
        fourcc: u32::from_le_bytes(*b"XR24"),
        modifiers: vec![EglModifier { modifier: 4, external_only: 0 }],
    }]
}

fn step(p: &mut PluginInit, event: InitEvent) -> Result<InitAction, InitError> {
    assert!(p.can_step(&event));
    p.on_event(event)
}

#[test]
fn plugin_comes_up_in_order() {
    let mut p = PluginInit::new();
    assert!(!p.can_step(&InitEvent::Device(true)));
    let xr24 = u32::from_le_bytes(*b"XR24");
    assert!(matches!(
        step(&mut p, InitEvent::Version { major: 0, minor: 1 }),
        Ok(InitAction::QueryExtensions(ExtensionOwner::Client))
    ));
    assert!(matches!(
        step(&mut p, InitEvent::Extensions(CLIENT.to_vec())),
        Ok(InitAction::QueryExtensions(ExtensionOwner::Display))
    ));
    assert!(matches!(
        step(&mut p, InitEvent::Extensions(DISPLAY.to_vec())),
        Ok(InitAction::QueryDevice)
    ));
    assert!(matches!(
        step(&mut p, InitEvent::Device(true)),
        Ok(InitAction::QueryExtensions(ExtensionOwner::Device))
    ));
    assert!(matches!(
        step(&mut p, InitEvent::Extensions(DEVICE.to_vec())),
        Ok(InitAction::QueryRenderNode)
    ));
    match step(&mut p, InitEvent::RenderNode(Some("/dev/dri/renderD128".to_string()))) {
        Ok(InitAction::OpenRenderNode(path)) => assert_eq!(path, "/dev/dri/renderD128"),
        other => panic!("unexpected {:?}", other),
    }
    assert!(matches!(
        step(&mut p, InitEvent::Formats(vec![xr24 as i32, 3, xr24 as i32])),
        Ok(InitAction::QueryScreen)
    ));
    match step(&mut p, InitEvent::Screen(Some((1920, 1080)))) {
        Ok(InitAction::QueryModifiers(codes)) => assert_eq!(codes, vec![xr24]),
        other => panic!("unexpected {:?}", other),
    }
    match step(&mut p, InitEvent::Modifiers(offered())) {
        Ok(InitAction::StartThreads(list)) => {
            assert_eq!(list[0].format, VideoFormat::Bgrx);
            assert_eq!(list[0].modifiers, vec![4]);
        }
        other => panic!("unexpected {:?}", other),
    }
    assert!(matches!(
        step(&mut p, InitEvent::GlStatus(1)),
        Ok(InitAction::CompileFragmentShader)
    ));
    assert!(matches!(step(&mut p, InitEvent::GlStatus(1)), Ok(InitAction::LinkProgram)));
    assert!(matches!(step(&mut p, InitEvent::GlStatus(1)), Ok(InitAction::QueryViewport)));
    assert!(!p.can_step(&InitEvent::Viewport { x: 1, y: 0, width: 9, height: 9 }));
    match step(&mut p, InitEvent::Viewport { x: 0, y: 0, width: 1920, height: 1080 }) {
        Ok(InitAction::Install { width, height, root_size, cookie }) => {
            assert_eq!((width, height), (1920, 1080));
            assert_eq!(root_size, Extent { width: 1920, height: 1080 });
            assert_eq!(cookie.len(), COOKIE_LENGTH);
        }
        other => panic!("unexpected {:?}", other),
    }
    assert!(!p.can_step(&InitEvent::GlStatus(1)));
}

fn until(events: Vec<InitEvent>, last: InitEvent) -> String {
    let mut p = PluginInit::new();
    for event in events {
        step(&mut p, event).unwrap();
    }
    step(&mut p, last).unwrap_err().message()
}

fn run_up(n: usize) -> Vec<InitEvent> {
    let mut all = vec![
        InitEvent::Version { major: 0, minor: 3 },
        InitEvent::Extensions(CLIENT.to_vec()),
        InitEvent::Extensions(DISPLAY.to_vec()),
        InitEvent::Device(true),
        InitEvent::Extensions(DEVICE.to_vec()),
        InitEvent::RenderNode(Some("r".to_string())),
        InitEvent::Formats(vec![]),
        InitEvent::Screen(Some((10, 10))),
        InitEvent::Modifiers(offered()),
        InitEvent::GlStatus(1),
        InitEvent::GlStatus(1),
    ];
    all.truncate(n);
    all
}

#[test]
fn plugin_does_not_come_up_without_what_it_needs() {
    let version = "Unsupported picom egl backend version";
    assert_eq!(until(run_up(0), InitEvent::Version { major: 1, minor: 1 }), version);
    assert_eq!(until(run_up(0), InitEvent::Version { major: 0, minor: 0 }), version);
    assert!(until(run_up(1), InitEvent::Extensions(vec![])).contains("client extension"));
    assert_eq!(until(run_up(3), InitEvent::Device(false)), "QueryDisplayAttribEXT failed");
    assert_eq!(until(run_up(5), InitEvent::RenderNode(None)), "QueryDeviceStringEXT failed");
    assert_eq!(until(run_up(7), InitEvent::Screen(None)), "No root found");
    assert_eq!(
        until(run_up(8), InitEvent::Modifiers(vec![])),
        "No suitable modifier/formats found"
    );
    assert_eq!(until(run_up(9), InitEvent::GlStatus(0)), "Shader compilation failed");
    assert_eq!(until(run_up(10), InitEvent::GlStatus(0)), "Shader compilation failed");
    assert_eq!(until(run_up(11), InitEvent::GlStatus(0)), "Program link failed");
}
