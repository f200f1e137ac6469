use egl_screencast::capture::{CaptureAction, CaptureReceiver, Extent, Frame, PluginContext};
use egl_screencast::cursor::{
    check_context, Cursor, CursorAction, CursorImage, CursorMessage, CursorMonitor, CursorQuad,
    CursorTracker, MonitorGone, NoContext,
};
use egl_screencast::gl::{
    begin_frame, import_finish, import_setup, prepare_cursor, quad_indices, quad_vertices,
    GlCommand, GlStateGuard, PixelRect,
};
use egl_screencast::import::{
    check_framebuffer, check_image, check_sync, fence_from_fd, frame_message, import_attribs,
    DmaBufPlane, FenceError, ImportError,
};
use egl_screencast::message::{IdList, MessagesFromPipewire, MessagesToPipewire, PipewireSendGuard};

fn receiver(fbo: u32, x: i32, y: i32) -> CaptureReceiver {
    CaptureReceiver {
        texture: fbo + 100,
        image: 7,
        fbo,
        stream_id: 0x1_0000_0001,
        x,
        y,
        width: 40,
        height: 30,
        embed_cursor: true,
    }
}

fn context() -> PluginContext {
    PluginContext::new(Extent::from_geometry(200, 100))
}

fn add(ctx: &mut PluginContext, frame: &mut Frame, buffer: CaptureReceiver) -> u64 {
    let msg = MessagesFromPipewire::AddBuffer { buffer };
    assert!(ctx.can_handle(frame, &msg));
    match ctx.on_message(frame, msg) {
        CaptureAction::ReplyId(id) => id,
        other => panic!("unexpected {:?}", other),
    }
}

fn ids(list: &[u64]) -> IdList {
    let mut out = IdList::one(list[0]);
    for id in &list[1..] {
        out.push(*id);
    }
    assert_eq!(out.len(), list.len());
    for i in 0..list.len() {
        assert_eq!(out.get(i), list[i]);
    }
    out
}

#[test]
fn buffers_get_ids_of_their_own() {
    let mut ctx = context();
    let mut frame = ctx.begin_frame().unwrap();
    let a = add(&mut ctx, &mut frame, receiver(1, 0, 0));
    let b = add(&mut ctx, &mut frame, receiver(2, 0, 0));
    assert_ne!(a, b);
    assert_eq!(ctx.buffer(a), Some(receiver(1, 0, 0)));
    assert_eq!(ctx.buffer(b), Some(receiver(2, 0, 0)));
    assert_eq!(a | 0x1_0000_0000, a);
    assert_eq!(ctx.buffer(0xffff), None);
    assert_eq!(ctx.buffer(a & !0x1_0000_0000), ctx.buffer(a));
}

#[test]
fn removed_buffers_are_released_once() {
    let mut ctx = context();
    let mut frame = ctx.begin_frame().unwrap();
    let a = add(&mut ctx, &mut frame, receiver(1, 0, 0));
    let b = add(&mut ctx, &mut frame, receiver(2, 0, 0));
    let c = add(&mut ctx, &mut frame, receiver(3, 0, 0));
    for id in [a, b] {
        ctx.on_message(&mut frame, MessagesFromPipewire::ActivateBuffer { id });
    }
    assert!(frame.is_active(a));
    let msg = MessagesFromPipewire::RemoveBuffers { ids: ids(&[c, a, c]) };
    match ctx.on_message(&mut frame, msg) {
        CaptureAction::Release(list) => {
            assert_eq!(list, vec![receiver(3, 0, 0), receiver(1, 0, 0)])
        }
        other => panic!("unexpected {:?}", other),
    }
    assert_eq!(ctx.buffer(a), None);
    assert_eq!(ctx.buffer(c), None);
    assert_eq!(ctx.buffer(b), Some(receiver(2, 0, 0)));
    assert!(!frame.is_active(a));
    assert_eq!(frame.active_buffers(), vec![b]);
    assert!(ctx.can_plan(&frame, true));
    let d = add(&mut ctx, &mut frame, receiver(4, 0, 0));
    assert!(d != a && d != b && d != c);
}

#[test]
fn buffer_is_active_once() {
    let mut ctx = context();
    let mut frame = ctx.begin_frame().unwrap();
    let a = add(&mut ctx, &mut frame, receiver(1, 0, 0));
    let msg = MessagesFromPipewire::ActivateBuffer { id: a };
    assert!(ctx.can_handle(&frame, &msg));
    assert!(matches!(ctx.on_message(&mut frame, msg), CaptureAction::Nothing));
    assert!(!ctx.can_handle(&frame, &MessagesFromPipewire::ActivateBuffer { id: a }));
    assert!(!frame.finish());
}

#[test]
fn thread_is_woken_when_asked_or_sent_to() {
    let mut ctx = context();
    let mut frame = ctx.begin_frame().unwrap();
    ctx.on_message(&mut frame, MessagesFromPipewire::WakeMeUp);
    assert!(frame.finish());
    let mut frame = ctx.begin_frame().unwrap();
    frame.send();
    assert!(frame.finish());
    assert!(!ctx.begin_frame().unwrap().finish());
    let mut guard = PipewireSendGuard::start_send();
    guard.wake();
    assert!(guard.finish());
    let mut guard = PipewireSendGuard::start_send();
    guard.send();
    assert!(guard.finish());
    assert!(!PipewireSendGuard::start_send().finish());
}

#[test]
fn frame_is_copied_into_active_buffers() {
    let mut ctx = context();
    let mut frame = ctx.begin_frame().unwrap();
    let a = add(&mut ctx, &mut frame, receiver(1, 10, 20));
    let b = add(&mut ctx, &mut frame, receiver(2, 0, 0));
    add(&mut ctx, &mut frame, receiver(3, 0, 0));
    for id in [a, b] {
        ctx.on_message(&mut frame, MessagesFromPipewire::ActivateBuffer { id });
    }
    assert!(ctx.can_plan(&frame, true));
    let steps = ctx.plan(&frame, true);
    assert_eq!(steps.len(), 2);
    let step = steps.iter().find(|s| s.id == a).unwrap();
    assert_eq!(step.stream_id, 0x1_0000_0001);
    assert_eq!(
        step.commands,
        vec![
            GlCommand::BindDrawFramebuffer(1),
            GlCommand::BlitColor {
                src: PixelRect { x0: 10, y0: 80, x1: 50, y1: 50 },
                dst: PixelRect { x0: 0, y0: 0, x1: 40, y1: 30 },
            },
            GlCommand::SetOffset { x: -10, y: -20 },
            GlCommand::DrawQuad,
        ]
    );
    assert!(steps.iter().any(|s| s.id == b));
    let steps = ctx.plan(&frame, false);
    assert!(steps.iter().all(|s| s.commands.len() == 2));
}

#[test]
fn capture_keeps_the_size() {
    let b = receiver(1, -5, 7);
    let root = Extent { width: 200, height: 100 };
    assert!(b.can_draw(root, true));
    match b.draw(root, false)[1] {
        GlCommand::BlitColor { src, dst } => {
            assert_eq!(src.x1 - src.x0, dst.x1 - dst.x0);
            assert_eq!(src.y0 - src.y1, dst.y1 - dst.y0);
        }
        other => panic!("unexpected {:?}", other),
    }
    assert!(!receiver(1, i32::MAX, 0).can_draw(root, false));
    assert!(!receiver(1, i32::MIN, 0).can_draw(root, true));
    assert!(!receiver(1, 0, i32::MIN).can_draw(root, false));
    assert!(receiver(1, 0, -(i32::MAX - 100)).can_draw(root, true));
}

#[test]
fn offset_matters_only_where_the_cursor_is_drawn() {
    let root = Extent { width: 200, height: 100 };
    let far = receiver(1, i32::MIN, 0);
    assert!(far.can_draw(root, false));
    assert!(!far.can_draw(root, true));
    let plain = CaptureReceiver { embed_cursor: false, ..far };
    assert!(plain.can_draw(root, true));
    assert_eq!(
        plain.draw(root, true),
        vec![
            GlCommand::BindDrawFramebuffer(1),
            GlCommand::BlitColor {
                src: PixelRect { x0: i32::MIN, y0: 100, x1: i32::MIN + 40, y1: 70 },
                dst: PixelRect { x0: 0, y0: 0, x1: 40, y1: 30 },
            },
        ]
    );
    let mut ctx = context();
    let mut frame = ctx.begin_frame().unwrap();
    let id = add(&mut ctx, &mut frame, far);
    ctx.on_message(&mut frame, MessagesFromPipewire::ActivateBuffer { id });
    assert!(ctx.can_plan(&frame, false));
    assert!(!ctx.can_plan(&frame, true));
    assert_eq!(ctx.plan(&frame, false).len(), 1);
}

#[test]
fn imported_buffer_carries_what_was_imported() {
    let b = CaptureReceiver::import(1, 2, 3, 4, -5, 6, 7, 8, true);
    assert_eq!((b.texture, b.image, b.fbo, b.stream_id), (1, 2, 3, 4));
    assert_eq!((b.x, b.y, b.width, b.height), (-5, 6, 7, 8));
    assert!(b.embed_cursor);
    assert!(!CaptureReceiver::import(1, 2, 3, 4, -5, 6, 7, 8, false).embed_cursor);
}

#[test]
fn frame_without_active_buffers_is_idle() {
    let mut ctx = context();
    let mut frame = ctx.begin_frame().unwrap();
    assert!(frame.is_idle());
    let id = add(&mut ctx, &mut frame, receiver(1, 0, 0));
    assert!(frame.is_idle());
    ctx.on_message(&mut frame, MessagesFromPipewire::ActivateBuffer { id });
    assert!(!frame.is_idle());
    ctx.on_message(&mut frame, MessagesFromPipewire::RemoveBuffers { ids: ids(&[id]) });
    assert!(frame.is_idle());
}

#[test]
fn unknown_active_buffer_cannot_be_planned() {
    let mut ctx = context();
    let mut frame = ctx.begin_frame().unwrap();
    ctx.on_message(&mut frame, MessagesFromPipewire::ActivateBuffer { id: 77 });
    assert!(!ctx.can_plan(&frame, false));
}

#[test]
fn failed_frame_is_the_last() {
    let mut ctx = context();
    assert!(ctx.present(false, None));
    assert!(!ctx.present(false, Some(false)));
    assert!(ctx.begin_frame().is_some());
    assert!(ctx.present(true, Some(true)));
    assert!(ctx.begin_frame().is_none());
    assert!(ctx.present(false, None));
    assert!(ctx.begin_frame().is_none());
}

#[test]
fn root_size_follows_the_screen() {
    let mut ctx = context();
    assert_eq!(ctx.root_size(), Extent { width: 200, height: 100 });
    ctx.root_change(Extent { width: 5, height: 6 });
    assert_eq!(ctx.root_size(), Extent { width: 5, height: 6 });
}

#[test]
fn remaining_buffers_are_handed_out_in_the_end() {
    let mut ctx = context();
    let mut frame = ctx.begin_frame().unwrap();
    let a = add(&mut ctx, &mut frame, receiver(1, 0, 0));
    let b = add(&mut ctx, &mut frame, receiver(2, 0, 0));
    let c = add(&mut ctx, &mut frame, receiver(3, 0, 0));
    ctx.on_message(&mut frame, MessagesFromPipewire::RemoveBuffers { ids: ids(&[b]) });
    let mut left = ctx.deinit();
    left.sort_by_key(|e| e.1.fbo);
    assert_eq!(left, vec![(a, receiver(1, 0, 0)), (c, receiver(3, 0, 0))]);
}

fn image(serial: u32) -> CursorImage {
    CursorImage { serial, xhot: 3, yhot: 4, width: 16, height: 24 }
}

#[test]
fn known_cursor_is_announced_by_serial() {
    let mut tracker = CursorTracker::new();
    assert_eq!(tracker.on_notify(5), CursorAction::FetchImage);
    let msg = tracker.on_image(image(5), 90);
    let cursor = Cursor { hotspot_x: 3, hotspot_y: 4, width: 16, height: 24, texture: 90 };
    assert_eq!(msg, CursorMessage::NewCursor { serial: 5, cursor });
    assert_eq!(
        tracker.on_notify(5),
        CursorAction::Send(CursorMessage::ChangeCursor { serial: 5 })
    );
    assert_eq!(tracker.on_notify(6), CursorAction::FetchImage);
    tracker.on_image(image(8), 91);
    assert_eq!(tracker.on_notify(6), CursorAction::FetchImage);
    assert_eq!(tracker.textures(), &vec![90, 91]);
}

#[test]
fn monitor_knows_every_cursor_it_shows() {
    let mut tracker = CursorTracker::new();
    let mut monitor = CursorMonitor::new();
    assert_eq!(monitor.current_cursor(&vec![], false), Ok(None));
    let mut texture = 0;
    for serial in [1, 2, 1, 3, 2] {
        let msg = match tracker.on_notify(serial) {
            CursorAction::Send(msg) => msg,
            CursorAction::FetchImage => {
                texture += 1;
                tracker.on_image(image(serial), texture)
            }
        };
        let shown = monitor.current_cursor(&vec![msg], false).unwrap().unwrap();
        assert_eq!(shown.texture, serial);
    }
    assert_eq!(monitor.current_cursor(&vec![], true), Err(MonitorGone));
    assert_eq!(monitor.current_cursor(&vec![], false).unwrap().unwrap().texture, 2);
}

#[test]
fn unknown_serial_shows_nothing() {
    let mut monitor = CursorMonitor::new();
    let msg = CursorMessage::ChangeCursor { serial: 4 };
    assert_eq!(monitor.current_cursor(&vec![msg], false), Ok(None));
}

#[test]
fn cursor_is_drawn_around_its_hotspot() {
    let cursor = Cursor { hotspot_x: 3, hotspot_y: 4, width: 16, height: 24, texture: 1 };
    assert!(cursor.can_draw_at(100, 2));
    assert_eq!(
        cursor.quad(100, 2),
        CursorQuad { left: 97, top: -2, right: 113, bottom: 22 }
    );
    assert!(!cursor.can_draw_at(i32::MIN, 0));
    assert!(!cursor.can_draw_at(0, i32::MAX));
    assert_eq!(check_context(9), Ok(()));
    assert_eq!(check_context(0), Err(NoContext));
    assert_eq!(NoContext.message(), "Failed to create context");
}

#[test]
fn gl_state_is_put_back() {
    let guard = GlStateGuard {
        texture_2d: 1,
        draw_fbo: 2,
        read_fbo: 3,
        program: -1,
        blend_enabled: 1,
        blend_dst_rgb: 5,
        blend_src_rgb: 6,
        blend_dst_alpha: 7,
        blend_src_alpha: 8,
    };
    assert_eq!(
        guard.restore(),
        vec![
            GlCommand::BindTexture(1),
            GlCommand::BindDrawFramebuffer(2),
            GlCommand::BindReadFramebuffer(3),
            GlCommand::UseProgram(u32::MAX),
            GlCommand::EnableBlend,
            GlCommand::BlendFuncSeparate { src_rgb: 6, dst_rgb: 5, src_alpha: 8, dst_alpha: 7 },
        ]
    );
    let off = GlStateGuard { blend_enabled: 0, ..guard };
    assert_eq!(off.restore()[4], GlCommand::DisableBlend);
}

#[test]
fn gl_commands_of_a_frame() {
    assert_eq!(
        begin_frame(),
        vec![
            GlCommand::EnableBlend,
            GlCommand::BlendFuncSeparate {
                src_rgb: 0x0302,
                dst_rgb: 0x0303,
                src_alpha: 0x0302,
                dst_alpha: 0x0303,
            },
            GlCommand::BindReadFramebuffer(0),
        ]
    );
    let quad = CursorQuad { left: 0, top: 0, right: 1, bottom: 1 };
    assert_eq!(
        prepare_cursor(11, 12, 0x84C2, quad),
        vec![
            GlCommand::BindTexture(12),
            GlCommand::UseProgram(11),
            GlCommand::SetSampler(2),
            GlCommand::MakeQuad(quad),
        ]
    );
}

#[test]
fn vertices_of_a_cursor() {
    let quad = CursorQuad { left: -2, top: 3, right: 14, bottom: 27 };
    let v = quad_vertices(quad);
    assert_eq!(v, [-2, 3, 14, 3, 14, 27, -2, 27, 0, 0, 1, 0, 1, 1, 0, 1]);
    assert_eq!(quad_indices(), [0, 1, 2, 2, 3, 0]);
    for i in 0..4 {
        assert_eq!(v[2 * i], if v[8 + 2 * i] == 0 { quad.left } else { quad.right });
        assert_eq!(v[2 * i + 1], if v[9 + 2 * i] == 0 { quad.top } else { quad.bottom });
    }
}

#[test]
fn gl_commands_of_an_import() {
    assert_eq!(
        import_setup(4, 5, 6, 9),
        vec![
            GlCommand::BindTexture(4),
            GlCommand::TextureStorage { image: 6 },
            GlCommand::BindTexture(9),
            GlCommand::BindDrawFramebuffer(5),
            GlCommand::AttachTexture(4),
        ]
    );
    assert_eq!(
        import_finish(8),
        vec![
            GlCommand::BlendFuncSeparate { src_rgb: 1, dst_rgb: 0x0303, src_alpha: 1, dst_alpha: 0x0303 },
            GlCommand::ClearRed,
            GlCommand::BindDrawFramebuffer(8),
        ]
    );
}

#[test]
fn fences_come_from_descriptors() {
    assert_eq!(check_sync(3), Ok(()));
    assert_eq!(check_sync(0), Err(FenceError::CreateSync));
    assert_eq!(fence_from_fd(9), Ok(9));
    assert_eq!(fence_from_fd(-1), Err(FenceError::NoFenceFd));
    assert_eq!(fence_from_fd(0), Err(FenceError::ZeroFenceFd));
    assert_eq!(FenceError::CreateSync.message(), "CreateSyncKHR failed");
    assert_eq!(FenceError::NoFenceFd.message(), "GetSyncAttrib failed");
    assert_eq!(FenceError::ZeroFenceFd.message(), "DupNativeFenceFD failed: fence_fd is zero");
    assert_eq!(
        frame_message(1, 2, Ok(3)),
        MessagesToPipewire::NewFrame { id: 1, fence: 3, stream_id: 2 }
    );
    assert_eq!(
        frame_message(1, 2, Err(FenceError::CreateSync)),
        MessagesToPipewire::BufferError { id: 1, stream_id: 2 }
    );
}

#[test]
fn import_attributes() {
    let planes = vec![
        DmaBufPlane { fd: 10, offset: 0, pitch: 256 },
        DmaBufPlane { fd: 11, offset: 4096, pitch: 64 },
    ];
    let modifier: u64 = 0x0200_0000_1866_1901;
    let attribs = import_attribs(0x3432_5258, 64, 32, &planes, modifier);
    assert_eq!(
        attribs,
        vec![
            0x3271, 0x3432_5258, 0x3057, 64, 0x3056, 32, //
            0x3272, 10, 0x3273, 0, 0x3274, 256, 0x3443, 0x1866_1901, 0x3444, 0x0200_0000, //
            0x3275, 11, 0x3276, 4096, 0x3277, 64, 0x3445, 0x1866_1901, 0x3446, 0x0200_0000, //
            0x3038,
        ]
    );
    let p = DmaBufPlane { fd: 1, offset: 2, pitch: 3 };
    let all = import_attribs(1, 1, 1, &vec![p, p, p, p], 0);
    assert_eq!(all.len(), 6 + 40 + 1);
    assert_eq!(&all[26..36], &[0x3278, 1, 0x3279, 2, 0x327A, 3, 0x3447, 0, 0x3448, 0]);
    assert_eq!(&all[36..46], &[0x3440, 1, 0x3441, 2, 0x3442, 3, 0x3449, 0, 0x344A, 0]);
    assert_eq!(import_attribs(1, 2, 3, &vec![], 0).len(), 7);
}

#[test]
fn modifier_halves_in_attributes() {
    let p = DmaBufPlane { fd: 0, offset: 0, pitch: 0 };
    let m: u64 = 0xfedc_ba98_7654_3210;
    let a = import_attribs(0, 0, 0, &vec![p], m);
    assert_eq!((a[15] as u64) << 32 | a[13] as u64, m);
}

#[test]
fn import_errors() {
    assert_eq!(check_image(1, 0), Ok(()));
    let e = check_image(0, 0x3003).unwrap_err();
    assert_eq!(e, ImportError::CreateImage(0x3003));
    assert_eq!(e.message(), "CreateImage failed 3003");
    assert_eq!(ImportError::CreateImage(-1).message(), "CreateImage failed ffffffff");
    assert_eq!(check_framebuffer(0x8CD5), Ok(()));
    let e = check_framebuffer(0x8CD6).unwrap_err();
    assert_eq!(e.message(), "Framebuffer incomplete: 8cd6");
}
