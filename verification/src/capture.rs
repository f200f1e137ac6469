//! Capturing frames: the buffers that frames are copied into, which of them the
//! next frame goes into, and the commands that copy it.
use crate::gl::{GlCommand, PixelRect};
use crate::message::{MessagesFromPipewire, PipewireSendGuard};
use slotmap::{DefaultKey, Key, KeyData, SlotMap};
use std::collections::HashSet;
use vstd::prelude::*;

verus! {

/// The size of something in pixels.
#[derive(Debug, Clone, Copy, PartialEq, Eq, Structural)]
pub struct Extent {
    pub width: u32,
    pub height: u32,
}

impl Extent {
    /// The size that a geometry reply of the X server gives.
    pub fn from_geometry(width: u16, height: u16) -> (e: Extent)
        ensures
            e.width == width,
            e.height == height,
    {
        Extent { width: width as u32, height: height as u32 }
    }
}

/// A buffer that was imported for capturing a part of the screen.
#[derive(Debug, Clone, Copy, PartialEq, Eq, Structural)]
pub struct CaptureReceiver {
    pub texture: u32,
    /// The handle of the EGL image.
    pub image: u64,
    pub fbo: u32,
    pub stream_id: u64,
    pub x: i32,
    pub y: i32,
    pub width: u32,
    pub height: u32,
    pub embed_cursor: bool,
}

/// The key that a number stands for. The low half is a slot, the high half the
/// version of what is in it, and versions in use are odd: numbers that differ in
/// the lowest version bit alone stand for the same key.
pub open spec fn key_of(id: u64) -> u64 {
    id | 0x1_0000_0000
}

pub(crate) fn key_number(id: u64) -> (k: u64)
    ensures
        k == key_of(id),
{
    id | 0x1_0000_0000
}

/// The key of a key is the key.
pub proof fn keys_are_canonical(id: u64)
    ensures
        key_of(key_of(id)) == key_of(id),
{
    assert((id | 0x1_0000_0000u64) | 0x1_0000_0000u64 == id | 0x1_0000_0000u64) by (bit_vector);
}

/// A key keeps the slot and the version of its number but for the lowest bit of the
/// version, which is always set: two numbers stand for one key exactly where they differ
/// in that bit at most.
pub proof fn keys_keep_slot_and_version(a: u64, b: u64)
    ensures
        key_of(a) % 0x1_0000_0000 == a % 0x1_0000_0000,
        key_of(a) / 0x2_0000_0000 == a / 0x2_0000_0000,
        (key_of(a) / 0x1_0000_0000) % 2 == 1,
        key_of(a) == key_of(b) <==> a % 0x1_0000_0000 == b % 0x1_0000_0000 && a / 0x2_0000_0000
            == b / 0x2_0000_0000,
{
    let x = a | 0x1_0000_0000u64;
    let y = b | 0x1_0000_0000u64;
    assert(x % 0x1_0000_0000u64 == a % 0x1_0000_0000u64 && x / 0x2_0000_0000u64 == a
        / 0x2_0000_0000u64 && (x / 0x1_0000_0000u64) % 2 == 1) by (bit_vector)
        requires
            x == a | 0x1_0000_0000u64,
    ;
    assert(x == y <==> a % 0x1_0000_0000u64 == b % 0x1_0000_0000u64 && a / 0x2_0000_0000u64 == b
        / 0x2_0000_0000u64) by (bit_vector)
        requires
            x == a | 0x1_0000_0000u64,
            y == b | 0x1_0000_0000u64,
    ;
}

/// The imported buffers, in a `SlotMap`.
#[verifier::external_body]
#[derive(Debug)]
pub struct BufferMap {
    inner: SlotMap<DefaultKey, CaptureReceiver>,
}

/// The buffers that a map holds, by the numbers of their keys.
pub uninterp spec fn buffers_held(held: BufferMap) -> Map<u64, CaptureReceiver>;

impl View for BufferMap {
    type V = Map<u64, CaptureReceiver>;

    open spec fn view(&self) -> Map<u64, CaptureReceiver> {
        buffers_held(*self)
    }
}

/// `SlotMap::new`: the map it returns holds nothing.
#[verifier::external_body]
fn buffers_new() -> (held: BufferMap)
    ensures
        (buffers_held(held) == Map::<u64, CaptureReceiver>::empty()),
{
    BufferMap { inner: SlotMap::new() }
}

/// `SlotMap::len`: the number of values held.
#[verifier::external_body]
fn buffers_len(held: &BufferMap) -> (n: usize)
    ensures
        n == buffers_held(*held).len(),
{
    held.inner.len()
}

/// `SlotMap::insert`, the key given by `KeyData::as_ffi`: the value is held under a
/// key that nothing is held under yet, and whose version is odd. It panics when
/// every one of its slots is taken.
#[verifier::external_body]
fn buffers_insert(held: &mut BufferMap, buffer: CaptureReceiver) -> (id: u64)
    requires
        buffers_held(*old(held)).len() < 0xffff_fffe,
    ensures
        !buffers_held(*old(held)).dom().contains(id),
        id == key_of(id),
        buffers_held(*final(held)) == buffers_held(*old(held)).insert(id, buffer),
{
    held.inner.insert(buffer).data().as_ffi()
}

/// `SlotMap::remove`, the key made by `KeyData::from_ffi`: nothing is held under
/// the key any more, and what was held is returned.
#[verifier::external_body]
fn buffers_remove(held: &mut BufferMap, id: u64) -> (buffer: Option<CaptureReceiver>)
    ensures
        buffers_held(*final(held)) == buffers_held(*old(held)).remove(key_of(id)),
        buffer == (if buffers_held(*old(held)).dom().contains(key_of(id)) {
            Some(buffers_held(*old(held))[key_of(id)])
        } else {
            None
        }),
{
    held.inner.remove(DefaultKey::from(KeyData::from_ffi(id)))
}

/// `SlotMap::get`, the key made by `KeyData::from_ffi`: what is held under the key.
#[verifier::external_body]
fn buffers_get(held: &BufferMap, id: u64) -> (buffer: Option<CaptureReceiver>)
    ensures
        buffer == (if buffers_held(*held).dom().contains(key_of(id)) {
            Some(buffers_held(*held)[key_of(id)])
        } else {
            None
        }),
{
    held.inner.get(DefaultKey::from(KeyData::from_ffi(id))).copied()
}

/// `SlotMap::keys`, each key given by `KeyData::as_ffi`: the keys that something is
/// held under, each once, with odd versions. Nothing is said of their order.
#[verifier::external_body]
fn buffers_keys(held: &BufferMap) -> (ids: Vec<u64>)
    ensures
        ids@.no_duplicates(),
        forall|id: u64| ids@.contains(id) <==> buffers_held(*held).dom().contains(id),
        forall|i: int| 0 <= i < ids@.len() ==> key_of(#[trigger] ids@[i]) == ids@[i],
{
    held.inner.keys().map(|key| key.data().as_ffi()).collect()
}

/// What capturing knows between frames: the buffers, the size of the screen, and
/// whether the PipeWire thread is still there.
#[verifier::ext_equal]
pub struct ContextView {
    pub buffers: Map<u64, CaptureReceiver>,
    pub root_size: Extent,
    pub connected: bool,
}

/// What is known of the frame being presented: the buffers it goes into, and
/// whether the PipeWire thread is to be woken.
#[verifier::ext_equal]
pub struct FrameView {
    pub active: Set<u64>,
    pub waking: bool,
}

/// What the compositor's thread does about a message.
#[derive(Debug)]
pub enum CaptureAction {
    Nothing,
    /// Send this id back to the PipeWire thread.
    ReplyId(u64),
    /// These buffers were dropped: delete their textures and images.
    Release(Vec<CaptureReceiver>),
}

/// The frame being presented.
#[derive(Debug)]
pub struct Frame {
    active: HashSet<u64>,
    guard: PipewireSendGuard,
}

impl View for Frame {
    type V = FrameView;

    closed spec fn view(&self) -> FrameView {
        FrameView { active: self.active@, waking: self.guard.waking() }
    }
}

impl Frame {
    /// Notes that a message goes to the PipeWire thread.
    pub fn send(&mut self)
        ensures
            final(self)@ == (FrameView { waking: true, ..old(self)@ }),
    {
        let ghost before = self@;
        self.guard.send();
        assert(self@ =~= (FrameView { waking: true, ..before }));
    }

    /// Ends the frame, and tells whether to wake the PipeWire thread.
    pub fn finish(self) -> (wake: bool)
        ensures
            wake == self@.waking,
    {
        self.guard.finish()
    }

    pub fn is_active(&self, id: u64) -> (yes: bool)
        ensures
            yes == self@.active.contains(key_of(id)),
    {
        broadcast use vstd::std_specs::hash::group_hash_axioms;

        self.active.contains(&key_number(id))
    }

    /// Tells whether the frame goes into no buffer at all: then it is not copied, and no
    /// GL state is touched for it.
    pub fn is_idle(&self) -> (idle: bool)
        ensures
            idle == (self@.active == Set::<u64>::empty()),
    {
        broadcast use vstd::std_specs::hash::group_hash_axioms;

        let idle = self.active.is_empty();
        assert(idle ==> self@.active =~= Set::<u64>::empty());
        idle
    }

    /// The buffers that the frame goes into, each once, in some order.
    pub fn active_buffers(&self) -> (ids: Vec<u64>)
        ensures
            ids@.no_duplicates(),
            forall|id: u64| ids@.contains(id) <==> self@.active.contains(id),
    {
        broadcast use vstd::std_specs::hash::group_hash_axioms;

        let mut ids: Vec<u64> = Vec::new();
        for id in it: self.active.iter()
            invariant
                ids@ == it.seq().unref().take(it.index()),
                it.seq().no_duplicates(),
                it.seq().unref().to_set() == self.active@,
                it.index() == it.seq().len() ==> ids@ == it.seq().unref(),
        {
            ids.push(*id);
            assert(ids@ =~= it.seq().unref().take(it.index() + 1));
        }
        assert forall|id: u64| ids@.contains(id) <==> self@.active.contains(id) by {
            assert(ids@.to_set().contains(id) <==> ids@.contains(id));
        }
        ids
    }
}

/// The ids after removing some, one by one.
pub open spec fn without_keys(active: Set<u64>, ids: Seq<u64>) -> Set<u64>
    decreases ids.len(),
{
    if ids.len() == 0 {
        active
    } else {
        without_keys(active, ids.drop_last()).remove(key_of(ids.last()))
    }
}

/// The buffers after removing some, one by one.
pub open spec fn without_buffers(buffers: Map<u64, CaptureReceiver>, ids: Seq<u64>) -> Map<
    u64,
    CaptureReceiver,
>
    decreases ids.len(),
{
    if ids.len() == 0 {
        buffers
    } else {
        without_buffers(buffers, ids.drop_last()).remove(key_of(ids.last()))
    }
}

/// The buffers that removing some drops, in order: one that is named twice is
/// dropped once, one that is not held is passed over.
pub open spec fn dropped_buffers(buffers: Map<u64, CaptureReceiver>, ids: Seq<u64>) -> Seq<
    CaptureReceiver,
>
    decreases ids.len(),
{
    if ids.len() == 0 {
        Seq::empty()
    } else {
        let before = dropped_buffers(buffers, ids.drop_last());
        let left = without_buffers(buffers, ids.drop_last());
        let key = key_of(ids.last());
        if left.dom().contains(key) {
            before.push(left[key])
        } else {
            before
        }
    }
}

/// What was removed is gone, and nothing else is.
pub proof fn removal_is_exact(buffers: Map<u64, CaptureReceiver>, active: Set<u64>, ids: Seq<u64>)
    ensures
        forall|k: u64| #[trigger]
            without_buffers(buffers, ids).dom().contains(k) <==> buffers.dom().contains(k)
                && !names_key(ids, k),
        forall|k: u64| #[trigger]
            without_buffers(buffers, ids).dom().contains(k) ==> without_buffers(buffers, ids)[k]
                == buffers[k],
        forall|k: u64| #[trigger]
            without_keys(active, ids).contains(k) <==> active.contains(k) && !names_key(ids, k),
    decreases ids.len(),
{
    if ids.len() > 0 {
        removal_is_exact(buffers, active, ids.drop_last());
        assert forall|k: u64| names_key(ids, k) <==> names_key(ids.drop_last(), k) || key_of(
            ids.last(),
        ) == k by {
            if names_key(ids, k) {
                let i = choose|i: int| 0 <= i < ids.len() && key_of(#[trigger] ids[i]) == k;
                if i < ids.len() - 1 {
                    assert(ids.drop_last()[i] == ids[i]);
                }
            }
            if names_key(ids.drop_last(), k) {
                let i = choose|i: int|
                    0 <= i < ids.drop_last().len() && key_of(#[trigger] ids.drop_last()[i]) == k;
                assert(ids[i] == ids.drop_last()[i]);
            }
            if key_of(ids.last()) == k {
                assert(key_of(ids[ids.len() - 1]) == k);
            }
        }
        let before = without_buffers(buffers, ids.drop_last());
        let after = without_buffers(buffers, ids);
        assert(after == before.remove(key_of(ids.last())));
        assert forall|k: u64| #[trigger]
            after.dom().contains(k) <==> buffers.dom().contains(k) && !names_key(ids, k) by {
            assert(before.dom().contains(k) <==> buffers.dom().contains(k) && !names_key(
                ids.drop_last(),
                k,
            ));
        }
        assert forall|k: u64| #[trigger] after.dom().contains(k) implies after[k] == buffers[k] by {
            assert(before.dom().contains(k));
        }
        assert forall|k: u64| #[trigger]
            without_keys(active, ids).contains(k) <==> active.contains(k) && !names_key(ids, k) by {
            assert(without_keys(active, ids.drop_last()).contains(k) <==> active.contains(k)
                && !names_key(ids.drop_last(), k));
            assert(names_key(ids, k) <==> names_key(ids.drop_last(), k) || key_of(ids.last()) == k);
        }
    }
}

/// Every buffer that is removed is released, once, and no other is: what is released is
/// what was held under the keys `keys`, one after the other, and these are the keys that
/// are both named and held, without repetition.
pub proof fn removed_buffers_are_released(
    buffers: Map<u64, CaptureReceiver>,
    active: Set<u64>,
    ids: Seq<u64>,
) -> (keys: Seq<u64>)
    ensures
        keys.len() == dropped_buffers(buffers, ids).len(),
        keys.no_duplicates(),
        forall|i: int|
            0 <= i < keys.len() ==> dropped_buffers(buffers, ids)[i] == buffers[#[trigger] keys[i]],
        forall|k: u64|
            keys.contains(k) <==> buffers.dom().contains(k) && exists|i: int|
                0 <= i < ids.len() && key_of(#[trigger] ids[i]) == k,
    decreases ids.len(),
{
    if ids.len() == 0 {
        Seq::empty()
    } else {
        let before = ids.drop_last();
        let rest = removed_buffers_are_released(buffers, active, before);
        removal_is_exact(buffers, active, before);
        let key = key_of(ids.last());
        let left = without_buffers(buffers, before);
        assert(left.dom().contains(key) <==> buffers.dom().contains(key) && !names_key(before, key));
        if rest.contains(key) {
            let i = choose|i: int| 0 <= i < before.len() && key_of(#[trigger] before[i]) == key;
            assert(names_key(before, key));
        }
        let keys = if left.dom().contains(key) {
            rest.push(key)
        } else {
            rest
        };
        assert forall|k: u64|
            keys.contains(k) <==> buffers.dom().contains(k) && exists|i: int|
                0 <= i < ids.len() && key_of(#[trigger] ids[i]) == k by {
            if rest.contains(k) {
                let j = choose|j: int| 0 <= j < rest.len() && rest[j] == k;
                assert(keys[j] == k);
                let i = choose|i: int| 0 <= i < before.len() && key_of(#[trigger] before[i]) == k;
                assert(ids[i] == before[i]);
            }
            if keys.contains(k) && !rest.contains(k) {
                let j = choose|j: int| 0 <= j < keys.len() && keys[j] == k;
                if j < rest.len() {
                    assert(rest[j] == k);
                }
                assert(k == key);
                assert(key_of(ids[ids.len() - 1]) == k);
            }
            if buffers.dom().contains(k) && exists|i: int|
                0 <= i < ids.len() && key_of(#[trigger] ids[i]) == k {
                let i = choose|i: int| 0 <= i < ids.len() && key_of(#[trigger] ids[i]) == k;
                if i < before.len() {
                    assert(before[i] == ids[i]);
                } else if keys.len() > rest.len() {
                    assert(keys[rest.len() as int] == k);
                }
            }
        }
        keys
    }
}

/// Some of the ids stands for the key.
pub open spec fn names_key(ids: Seq<u64>, key: u64) -> bool {
    exists|i: int| 0 <= i < ids.len() && key_of(#[trigger] ids[i]) == key
}

impl ContextView {
    /// There is room for one more buffer.
    pub open spec fn has_room(self) -> bool {
        self.buffers.len() < 0xffff_fffe
    }

    /// Every buffer that the frame goes into is held.
    pub open spec fn holds_active(self, frame: FrameView) -> bool {
        frame.active.subset_of(self.buffers.dom())
    }

    /// A buffer is held under the key, and what it shows can be computed.
    pub open spec fn drawable_key(self, key: u64, with_cursor: bool) -> bool {
        self.buffers.dom().contains(key) && self.buffers[key].fits(self.root_size, with_cursor)
    }

    /// The frame can be copied into every buffer that it goes into.
    pub open spec fn drawable(self, frame: FrameView, with_cursor: bool) -> bool {
        forall|id: u64| #[trigger]
            frame.active.contains(id) ==> self.drawable_key(key_of(id), with_cursor)
    }

    /// The step copies the frame into the buffer that it names.
    pub open spec fn copies(self, step: CopyStep, with_cursor: bool) -> bool {
        let b = self.buffers[key_of(step.id)];
        step.stream_id == b.stream_id && step.commands@ == b.drawing(self.root_size, with_cursor)
    }

    /// The message can be taken: there is room for what it adds, and what it
    /// activates is not active yet.
    pub open spec fn accepts(self, frame: FrameView, msg: MessagesFromPipewire) -> bool {
        match msg {
            MessagesFromPipewire::AddBuffer { .. } => self.has_room(),
            MessagesFromPipewire::ActivateBuffer { id } => !frame.active.contains(key_of(id)),
            _ => true,
        }
    }

    /// `next`, `next_frame` and `action` are what becomes of a message.
    pub open spec fn handles(
        self,
        frame: FrameView,
        msg: MessagesFromPipewire,
        next: ContextView,
        next_frame: FrameView,
        action: CaptureAction,
    ) -> bool {
        match msg {
            MessagesFromPipewire::AddBuffer { buffer } => {
                &&& action matches CaptureAction::ReplyId(id) && id == key_of(id)
                    && !self.buffers.dom().contains(id) && next == (ContextView {
                    buffers: self.buffers.insert(id, buffer),
                    ..self
                })
                &&& next_frame == frame
            },
            MessagesFromPipewire::ActivateBuffer { id } => {
                &&& action is Nothing
                &&& next == self
                &&& next_frame == (FrameView { active: frame.active.insert(key_of(id)), ..frame })
            },
            MessagesFromPipewire::RemoveBuffers { ids } => {
                &&& action matches CaptureAction::Release(list) && list@ == dropped_buffers(
                    self.buffers,
                    ids@,
                )
                &&& next == (ContextView { buffers: without_buffers(self.buffers, ids@), ..self })
                &&& next_frame == (FrameView { active: without_keys(frame.active, ids@), ..frame })
            },
            MessagesFromPipewire::WakeMeUp => {
                &&& action is Nothing
                &&& next == self
                &&& next_frame == (FrameView { waking: true, ..frame })
            },
        }
    }
}

/// As long as only held buffers are activated, every active buffer stays held,
/// whatever else is added and removed: no frame is ever copied into a buffer that
/// is gone.
pub proof fn active_buffers_stay_held(
    ctx: ContextView,
    frame: FrameView,
    msg: MessagesFromPipewire,
    next: ContextView,
    next_frame: FrameView,
    action: CaptureAction,
)
    requires
        ctx.holds_active(frame),
        msg matches MessagesFromPipewire::ActivateBuffer { id } ==> ctx.buffers.dom().contains(
            key_of(id),
        ),
        ctx.handles(frame, msg, next, next_frame, action),
    ensures
        next.holds_active(next_frame),
{
    if let MessagesFromPipewire::RemoveBuffers { ids } = msg {
        removal_is_exact(ctx.buffers, frame.active, ids@);
        assert forall|k: u64| next_frame.active.contains(k) implies next.buffers.dom().contains(
            k,
        ) by {
            assert(without_keys(frame.active, ids@).contains(k));
            assert(without_buffers(ctx.buffers, ids@).dom().contains(k) <==> ctx.buffers.dom().contains(
                k,
            ) && !names_key(ids@, k));
        }
    }
}

/// A new buffer is held as it came, under an id of its own that is sent back; nothing else
/// changes.
pub proof fn added_buffer_is_held(
    ctx: ContextView,
    frame: FrameView,
    buffer: CaptureReceiver,
    next: ContextView,
    next_frame: FrameView,
    action: CaptureAction,
)
    requires
        ctx.handles(
            frame,
            MessagesFromPipewire::AddBuffer { buffer },
            next,
            next_frame,
            action,
        ),
    ensures
        action is ReplyId,
        !ctx.buffers.dom().contains(action->ReplyId_0),
        next.buffers.dom().contains(key_of(action->ReplyId_0)),
        next.buffers[key_of(action->ReplyId_0)] == buffer,
        forall|k: u64|
            k != action->ReplyId_0 ==> (#[trigger] next.buffers.dom().contains(k)
                <==> ctx.buffers.dom().contains(k)),
        forall|k: u64| #[trigger]
            ctx.buffers.dom().contains(k) ==> next.buffers[k] == ctx.buffers[k],
        next.root_size == ctx.root_size,
        next.connected == ctx.connected,
        next_frame.active == frame.active,
        next_frame.waking == frame.waking,
{
}

/// Activating a buffer adds it to the frame and changes nothing else.
pub proof fn activated_buffer_is_active(
    ctx: ContextView,
    frame: FrameView,
    id: u64,
    next: ContextView,
    next_frame: FrameView,
    action: CaptureAction,
)
    requires
        ctx.handles(
            frame,
            MessagesFromPipewire::ActivateBuffer { id },
            next,
            next_frame,
            action,
        ),
    ensures
        action is Nothing,
        forall|k: u64| #[trigger]
            next_frame.active.contains(k) <==> frame.active.contains(k) || k == key_of(id),
        next_frame.waking == frame.waking,
        next.buffers == ctx.buffers,
        next.root_size == ctx.root_size,
        next.connected == ctx.connected,
{
}

/// Removing buffers takes exactly those that are named out of the frame and out of what is
/// held, releases them, and changes nothing else.
pub proof fn removed_buffers_are_gone(
    ctx: ContextView,
    frame: FrameView,
    msg: MessagesFromPipewire,
    next: ContextView,
    next_frame: FrameView,
    action: CaptureAction,
)
    requires
        msg is RemoveBuffers,
        ctx.handles(frame, msg, next, next_frame, action),
    ensures
        forall|k: u64| #[trigger]
            next.buffers.dom().contains(k) <==> ctx.buffers.dom().contains(k) && !exists|i: int|
                0 <= i < msg->ids@.len() && key_of(#[trigger] msg->ids@[i]) == k,
        forall|k: u64| #[trigger]
            next.buffers.dom().contains(k) ==> next.buffers[k] == ctx.buffers[k],
        forall|k: u64| #[trigger]
            next_frame.active.contains(k) <==> frame.active.contains(k) && !exists|i: int|
                0 <= i < msg->ids@.len() && key_of(#[trigger] msg->ids@[i]) == k,
        action is Release,
        action->Release_0@ == dropped_buffers(ctx.buffers, msg->ids@),
        next_frame.waking == frame.waking,
        next.root_size == ctx.root_size,
        next.connected == ctx.connected,
{
    let ids = msg->ids@;
    removal_is_exact(ctx.buffers, frame.active, ids);
    assert forall|k: u64| #[trigger]
        next.buffers.dom().contains(k) <==> ctx.buffers.dom().contains(k) && !exists|i: int|
            0 <= i < ids.len() && key_of(#[trigger] ids[i]) == k by {
        assert(without_buffers(ctx.buffers, ids).dom().contains(k) <==> ctx.buffers.dom().contains(k)
            && !names_key(ids, k));
    }
    assert forall|k: u64| #[trigger] next.buffers.dom().contains(k) implies next.buffers[k]
        == ctx.buffers[k] by {
        assert(without_buffers(ctx.buffers, ids).dom().contains(k));
    }
    assert forall|k: u64| #[trigger]
        next_frame.active.contains(k) <==> frame.active.contains(k) && !exists|i: int|
            0 <= i < ids.len() && key_of(#[trigger] ids[i]) == k by {
        assert(without_keys(frame.active, ids).contains(k) <==> frame.active.contains(k)
            && !names_key(ids, k));
    }
}

/// A request to be woken is heeded, and changes nothing else.
pub proof fn wake_request_is_heeded(
    ctx: ContextView,
    frame: FrameView,
    next: ContextView,
    next_frame: FrameView,
    action: CaptureAction,
)
    requires
        ctx.handles(frame, MessagesFromPipewire::WakeMeUp, next, next_frame, action),
    ensures
        action is Nothing,
        next_frame.waking,
        next_frame.active == frame.active,
        next.buffers == ctx.buffers,
        next.root_size == ctx.root_size,
        next.connected == ctx.connected,
{
}

/// No message is turned away but a buffer without a slot and one that is active already.
pub proof fn messages_are_accepted(ctx: ContextView, frame: FrameView, msg: MessagesFromPipewire)
    ensures
        ctx.accepts(frame, msg) <==> !(msg is AddBuffer && ctx.buffers.len() >= 0xffff_fffe) && !(
        msg is ActivateBuffer && frame.active.contains(key_of(msg->ActivateBuffer_id))),
{
}

/// GL can hold the number.
pub open spec fn fits_i32(n: int) -> bool {
    i32::MIN <= n <= i32::MAX
}

impl CaptureReceiver {
    /// The upper edge of the part, counted from the bottom of the screen.
    pub open spec fn top(self, root: Extent) -> int {
        (root.height as i32) - self.y
    }

    /// The corners of what is copied can be computed.
    pub open spec fn fits_screen(self, root: Extent) -> bool {
        &&& fits_i32(self.top(root))
        &&& fits_i32(self.top(root) - (self.height as i32))
        &&& fits_i32(self.x + (self.width as i32))
    }

    /// The cursor is drawn on top: it is embedded, and there is one.
    pub open spec fn shows_cursor(self, with_cursor: bool) -> bool {
        self.embed_cursor && with_cursor
    }

    /// What is copied can be computed, and so can the offset of the cursor where it is
    /// drawn.
    pub open spec fn fits(self, root: Extent, with_cursor: bool) -> bool {
        &&& self.fits_screen(root)
        &&& self.shows_cursor(with_cursor) ==> fits_i32(-self.x) && fits_i32(-self.y)
    }

    /// The part of the screen that the buffer shows. GL counts lines from the
    /// bottom, so it is upside down.
    pub open spec fn source(self, root: Extent) -> PixelRect {
        PixelRect {
            x0: self.x,
            y0: self.top(root) as i32,
            x1: (self.x + (self.width as i32)) as i32,
            y1: (self.top(root) - (self.height as i32)) as i32,
        }
    }

    /// The whole buffer.
    pub open spec fn target(self) -> PixelRect {
        PixelRect { x0: 0, y0: 0, x1: self.width as i32, y1: self.height as i32 }
    }

    /// The commands that copy a frame into the buffer, with the cursor on top where
    /// it is embedded and there is one.
    pub open spec fn drawing(self, root: Extent, with_cursor: bool) -> Seq<GlCommand> {
        let copy = seq![
            GlCommand::BindDrawFramebuffer(self.fbo),
            GlCommand::BlitColor { src: self.source(root), dst: self.target() },
        ];
        if self.shows_cursor(with_cursor) {
            copy + seq![
                GlCommand::SetOffset { x: (-self.x) as i32, y: (-self.y) as i32 },
                GlCommand::DrawQuad,
            ]
        } else {
            copy
        }
    }

    /// The buffer of a stream that was imported: the handles of what was made for it,
    /// the part of the screen that it shows, and its own size.
    pub fn import(
        texture: u32,
        image: u64,
        fbo: u32,
        stream_id: u64,
        x: i32,
        y: i32,
        width: u32,
        height: u32,
        embed_cursor: bool,
    ) -> (b: CaptureReceiver)
        ensures
            b.texture == texture,
            b.image == image,
            b.fbo == fbo,
            b.stream_id == stream_id,
            b.x == x,
            b.y == y,
            b.width == width,
            b.height == height,
            b.embed_cursor == embed_cursor,
    {
        CaptureReceiver { texture, image, fbo, stream_id, x, y, width, height, embed_cursor }
    }

    /// Tells whether [`CaptureReceiver::draw`] may be called.
    pub fn can_draw(&self, root: Extent, with_cursor: bool) -> (yes: bool)
        ensures
            yes == self.fits(root, with_cursor),
    {
        let min: i64 = i32::MIN as i64;
        let max: i64 = i32::MAX as i64;
        let top: i64 = (root.height as i32) as i64 - self.y as i64;
        let bottom: i64 = top - (self.height as i32) as i64;
        let right: i64 = self.x as i64 + (self.width as i32) as i64;
        min <= top && top <= max && min <= bottom && bottom <= max && min <= right && right <= max
            && (!(self.embed_cursor && with_cursor) || -(self.x as i64) <= max && -(self.y as i64)
            <= max)
    }

    /// The commands that copy a frame into the buffer.
    pub fn draw(&self, root: Extent, with_cursor: bool) -> (commands: Vec<GlCommand>)
        requires
            self.fits(root, with_cursor),
        ensures
            commands@ == self.drawing(root, with_cursor),
    {
        let top: i32 = root.height as i32 - self.y;
        let src = PixelRect {
            x0: self.x,
            y0: top,
            x1: self.x + self.width as i32,
            y1: top - self.height as i32,
        };
        let dst = PixelRect { x0: 0, y0: 0, x1: self.width as i32, y1: self.height as i32 };
        let mut commands: Vec<GlCommand> = Vec::new();
        commands.push(GlCommand::BindDrawFramebuffer(self.fbo));
        commands.push(GlCommand::BlitColor { src, dst });
        if self.embed_cursor && with_cursor {
            commands.push(GlCommand::SetOffset { x: -self.x, y: -self.y });
            commands.push(GlCommand::DrawQuad);
        }
        assert(commands@ =~= self.drawing(root, with_cursor));
        commands
    }
}

/// The part of the screen that is copied is the one that the buffer is for, with or
/// without the cursor: its left edge is `x`, its upper edge lies `y` lines below the top
/// of the screen, and it reaches as far to the right and down as the buffer is large. It
/// goes into the whole of the buffer's own framebuffer, first thing.
pub proof fn captures_the_right_part(b: CaptureReceiver, root: Extent, with_cursor: bool)
    requires
        b.fits(root, with_cursor),
        b.width <= i32::MAX,
        b.height <= i32::MAX,
        root.height <= i32::MAX,
    ensures
        b.drawing(root, with_cursor).len() >= 2,
        b.drawing(root, with_cursor)[0] == GlCommand::BindDrawFramebuffer(b.fbo),
        b.drawing(root, with_cursor)[1] matches GlCommand::BlitColor { src, dst } && {
            &&& src.x0 == b.x
            &&& src.y0 + b.y == root.height
            &&& src.x1 - src.x0 == b.width
            &&& src.y0 - src.y1 == b.height
            &&& dst.x0 == 0 && dst.y0 == 0 && dst.x1 == b.width && dst.y1 == b.height
        },
{
}

/// The cursor is drawn after the frame was copied, moved as the part of the screen is,
/// and exactly where it is embedded and there is one: then two commands follow the copy,
/// else none does.
pub proof fn cursor_is_drawn_where_embedded(b: CaptureReceiver, root: Extent, with_cursor: bool)
    requires
        b.fits(root, with_cursor),
    ensures
        !(b.embed_cursor && with_cursor) ==> b.drawing(root, with_cursor).len() == 2,
        b.embed_cursor && with_cursor ==> {
            &&& b.drawing(root, with_cursor).len() == 4
            &&& b.drawing(root, with_cursor)[2] matches GlCommand::SetOffset { x, y } && x + b.x
                == 0 && y + b.y == 0
            &&& b.drawing(root, with_cursor)[3] == GlCommand::DrawQuad
        },
{
}

/// A frame can be copied exactly where GL can express the corners of what is copied, and
/// the offset of the cursor where that is drawn.
pub proof fn drawable_where_expressible(b: CaptureReceiver, root: Extent, with_cursor: bool)
    requires
        b.width <= i32::MAX,
        b.height <= i32::MAX,
        root.height <= i32::MAX,
    ensures
        b.fits(root, with_cursor) <==> {
            &&& -0x8000_0000 <= root.height - b.y <= 0x7fff_ffff
            &&& -0x8000_0000 <= root.height - b.y - b.height <= 0x7fff_ffff
            &&& b.x + b.width <= 0x7fff_ffff
            &&& b.embed_cursor && with_cursor ==> b.x != i32::MIN && b.y != i32::MIN
        },
{
}

/// A step copies the frame into the buffer that it names, and names the stream of that
/// buffer.
pub proof fn steps_name_their_stream(ctx: ContextView, step: CopyStep, with_cursor: bool)
    requires
        ctx.copies(step, with_cursor),
    ensures
        step.stream_id == ctx.buffers[key_of(step.id)].stream_id,
        step.commands@ == ctx.buffers[key_of(step.id)].drawing(ctx.root_size, with_cursor),
{
}

/// A frame can be planned exactly where each active buffer is held and can be drawn into.
pub proof fn frames_are_planned_where_drawable(
    ctx: ContextView,
    frame: FrameView,
    with_cursor: bool,
)
    ensures
        ctx.drawable(frame, with_cursor) <==> !exists|id: u64| #[trigger]
            frame.active.contains(id) && !(ctx.buffers.dom().contains(key_of(id))
                && ctx.buffers[key_of(id)].fits(ctx.root_size, with_cursor)),
{
}

/// Nothing is scaled: what is read of the screen has the size of the buffer, turned
/// upside down, for every buffer whose size GL can express.
pub proof fn capture_is_not_scaled(b: CaptureReceiver, root: Extent)
    requires
        b.fits_screen(root),
        b.width <= i32::MAX,
        b.height <= i32::MAX,
    ensures
        b.source(root).x1 - b.source(root).x0 == b.target().x1 - b.target().x0,
        b.source(root).y0 - b.source(root).y1 == b.target().y1 - b.target().y0,
        b.source(root).x1 - b.source(root).x0 == b.width,
        b.source(root).y0 - b.source(root).y1 == b.height,
{
}

/// Capturing, as the compositor's hooks see it.
#[derive(Debug)]
pub struct PluginContext {
    buffers: BufferMap,
    root_size: Extent,
    connected: bool,
}

impl View for PluginContext {
    type V = ContextView;

    closed spec fn view(&self) -> ContextView {
        ContextView {
            buffers: self.buffers@,
            root_size: self.root_size,
            connected: self.connected,
        }
    }
}

impl PluginContext {
    pub fn new(root_size: Extent) -> (c: PluginContext)
        ensures
            c@ == (ContextView { buffers: Map::empty(), root_size, connected: true }),
    {
        let c = PluginContext { buffers: buffers_new(), root_size, connected: true };
        assert(c@ =~= (ContextView { buffers: Map::empty(), root_size, connected: true }));
        c
    }

    /// Starts a frame, unless the PipeWire thread was given up.
    pub fn begin_frame(&self) -> (f: Option<Frame>)
        ensures
            f is Some <==> self@.connected,
            f matches Some(frame) ==> frame@ == (FrameView { active: Set::empty(), waking: false }),
    {
        broadcast use vstd::std_specs::hash::group_hash_axioms;

        if !self.connected {
            return None;
        }
        let frame = Frame { active: HashSet::new(), guard: PipewireSendGuard::start_send() };
        assert(frame@ =~= (FrameView { active: Set::empty(), waking: false }));
        Some(frame)
    }

    /// Tells whether [`PluginContext::on_message`] may be called.
    pub fn can_handle(&self, frame: &Frame, msg: &MessagesFromPipewire) -> (yes: bool)
        ensures
            yes == self@.accepts(frame@, *msg),
    {
        match msg {
            MessagesFromPipewire::AddBuffer { .. } => (buffers_len(&self.buffers) as u64)
                < 0xffff_fffe,
            MessagesFromPipewire::ActivateBuffer { id } => !frame.is_active(*id),
            _ => true,
        }
    }

    /// Takes a message of the PipeWire thread into account.
    pub fn on_message(&mut self, frame: &mut Frame, msg: MessagesFromPipewire) -> (action:
        CaptureAction)
        requires
            old(self)@.accepts(old(frame)@, msg),
        ensures
            old(self)@.handles(old(frame)@, msg, final(self)@, final(frame)@, action),
    {
        broadcast use vstd::std_specs::hash::group_hash_axioms;

        let ghost ctx = self@;
        let ghost was = frame@;
        match msg {
            MessagesFromPipewire::AddBuffer { buffer } => {
                let id: u64 = buffers_insert(&mut self.buffers, buffer);
                assert(self@ =~= (ContextView { buffers: ctx.buffers.insert(id, buffer), ..ctx }));
                CaptureAction::ReplyId(id)
            },
            MessagesFromPipewire::ActivateBuffer { id } => {
                frame.active.insert(key_number(id));
                assert(frame@ =~= (FrameView { active: was.active.insert(key_of(id)), ..was }));
                CaptureAction::Nothing
            },
            MessagesFromPipewire::RemoveBuffers { ids } => {
                let mut released: Vec<CaptureReceiver> = Vec::new();
                let n: usize = ids.len();
                assert(ids@.take(0) =~= Seq::<u64>::empty());
                for i in 0..n
                    invariant
                        n == ids@.len(),
                        self@ == (ContextView {
                            buffers: without_buffers(ctx.buffers, ids@.take(i as int)),
                            ..ctx
                        }),
                        frame@ == (FrameView {
                            active: without_keys(was.active, ids@.take(i as int)),
                            ..was
                        }),
                        released@ == dropped_buffers(ctx.buffers, ids@.take(i as int)),
                {
                    let id: u64 = ids.get(i);
                    assert(ids@.take(i + 1).drop_last() =~= ids@.take(i as int));
                    assert(ids@.take(i + 1).last() == id);
                    if let Some(buffer) = buffers_remove(&mut self.buffers, id) {
                        released.push(buffer);
                    }
                    frame.active.remove(&key_number(id));
                    assert(self@ =~= (ContextView {
                        buffers: without_buffers(ctx.buffers, ids@.take(i + 1)),
                        ..ctx
                    }));
                    assert(frame@ =~= (FrameView {
                        active: without_keys(was.active, ids@.take(i + 1)),
                        ..was
                    }));
                }
                assert(ids@.take(n as int) =~= ids@);
                CaptureAction::Release(released)
            },
            MessagesFromPipewire::WakeMeUp => {
                frame.guard.wake();
                assert(frame@ =~= (FrameView { waking: true, ..was }));
                CaptureAction::Nothing
            },
        }
    }

    /// The buffer of an id.
    pub fn buffer(&self, id: u64) -> (b: Option<CaptureReceiver>)
        ensures
            b == (if self@.buffers.dom().contains(key_of(id)) {
                Some(self@.buffers[key_of(id)])
            } else {
                None
            }),
    {
        buffers_get(&self.buffers, id)
    }

    /// Tells whether [`PluginContext::plan`] may be called.
    pub fn can_plan(&self, frame: &Frame, with_cursor: bool) -> (yes: bool)
        ensures
            yes == self@.drawable(frame@, with_cursor),
    {
        let ids = frame.active_buffers();
        for i in 0..ids.len()
            invariant
                forall|id: u64| ids@.contains(id) <==> frame@.active.contains(id),
                forall|j: int|
                    0 <= j < i ==> self@.drawable_key(key_of(#[trigger] ids@[j]), with_cursor),
        {
            let fine = match self.buffer(ids[i]) {
                Some(b) => b.can_draw(self.root_size, with_cursor),
                None => false,
            };
            if !fine {
                assert(ids@.contains(ids@[i as int]));
                assert(frame@.active.contains(ids@[i as int]));
                return false;
            }
        }
        assert forall|id: u64| #[trigger] frame@.active.contains(id) implies self@.drawable_key(
            key_of(id),
            with_cursor,
        ) by {
            assert(ids@.contains(id));
        }
        true
    }

    /// What copies the frame: one step for every active buffer, in some order.
    pub fn plan(&self, frame: &Frame, with_cursor: bool) -> (steps: Vec<CopyStep>)
        requires
            self@.drawable(frame@, with_cursor),
        ensures
            steps@.len() == frame@.active.len(),
            forall|id: u64|
                frame@.active.contains(id) <==> exists|i: int|
                    0 <= i < steps@.len() && (#[trigger] steps@[i]).id == id,
            forall|i: int, j: int| 0 <= i < j < steps@.len() ==> steps@[i].id != steps@[j].id,
            forall|i: int|
                0 <= i < steps@.len() ==> self@.copies(#[trigger] steps@[i], with_cursor),
    {
        let ids = frame.active_buffers();
        let mut steps: Vec<CopyStep> = Vec::new();
        for i in 0..ids.len()
            invariant
                self@.drawable(frame@, with_cursor),
                forall|id: u64| ids@.contains(id) <==> frame@.active.contains(id),
                steps@.len() == i,
                forall|j: int| 0 <= j < i ==> (#[trigger] steps@[j]).id == ids@[j],
                forall|j: int| 0 <= j < i ==> self@.copies(#[trigger] steps@[j], with_cursor),
        {
            let id: u64 = ids[i];
            assert(ids@.contains(id));
            assert(frame@.active.contains(id));
            if let Some(b) = self.buffer(id) {
                let commands = b.draw(self.root_size, with_cursor);
                steps.push(CopyStep { id, stream_id: b.stream_id, commands });
            }
        }
        proof {
            assert(ids@.to_set() =~= frame@.active) by {
                assert forall|id: u64| ids@.to_set().contains(id) <==> frame@.active.contains(id) by {
                    assert(ids@.to_set().contains(id) <==> ids@.contains(id));
                }
            }
            ids@.unique_seq_to_set();
            assert forall|id: u64| frame@.active.contains(id) implies exists|i: int|
                0 <= i < steps@.len() && (#[trigger] steps@[i]).id == id by {
                assert(ids@.contains(id));
                let k = choose|k: int| 0 <= k < ids@.len() && ids@[k] == id;
                assert(steps@[k].id == id);
            }
            assert forall|id: u64|
                (exists|i: int| 0 <= i < steps@.len() && (#[trigger] steps@[i]).id == id)
                    implies frame@.active.contains(id) by {
                let i = choose|i: int| 0 <= i < steps@.len() && (#[trigger] steps@[i]).id == id;
                assert(ids@[i] == id);
                assert(ids@.contains(id));
            }
        }
        steps
    }

    pub fn root_size(&self) -> (e: Extent)
        ensures
            e == self@.root_size,
    {
        self.root_size
    }

    /// The screen has another size now.
    pub fn root_change(&mut self, size: Extent)
        ensures
            final(self)@ == (ContextView { root_size: size, ..old(self)@ }),
    {
        let ghost before = self@;
        self.root_size = size;
        assert(self@ =~= (ContextView { root_size: size, ..before }));
    }

    /// Ends a frame. When capturing it failed, the PipeWire thread is given up and
    /// no later frame is captured. What is presented is up to the compositor alone:
    /// `presented` is what its own hook returned, where it has one.
    pub fn present(&mut self, failed: bool, presented: Option<bool>) -> (ok: bool)
        ensures
            final(self)@ == (ContextView {
                connected: old(self)@.connected && !failed,
                ..old(self)@
            }),
            ok == (match presented {
                Some(b) => b,
                None => true,
            }),
    {
        let ghost before = self@;
        if failed {
            self.connected = false;
        }
        assert(self@ =~= (ContextView { connected: before.connected && !failed, ..before }));
        match presented {
            Some(b) => b,
            None => true,
        }
    }

    /// Ends capturing: the buffers that are left, each once with its id, are to be
    /// deleted. Their order is not specified.
    pub fn deinit(self) -> (left: Vec<(u64, CaptureReceiver)>)
        ensures
            forall|i: int, j: int| 0 <= i < j < left@.len() ==> left@[i].0 != left@[j].0,
            forall|i: int|
                0 <= i < left@.len() ==> self@.buffers.dom().contains((#[trigger] left@[i]).0)
                    && self@.buffers[left@[i].0] == left@[i].1,
            forall|id: u64| #[trigger]
                self@.buffers.dom().contains(id) ==> exists|i: int|
                    0 <= i < left@.len() && (#[trigger] left@[i]).0 == id,
    {
        let ids = buffers_keys(&self.buffers);
        let mut left: Vec<(u64, CaptureReceiver)> = Vec::new();
        for i in 0..ids.len()
            invariant
                forall|id: u64| ids@.contains(id) <==> self@.buffers.dom().contains(id),
                forall|j: int| 0 <= j < ids@.len() ==> key_of(#[trigger] ids@[j]) == ids@[j],
                left@.len() == i,
                forall|j: int|
                    0 <= j < i ==> (#[trigger] left@[j]).0 == ids@[j] && self@.buffers[ids@[j]]
                        == left@[j].1,
        {
            let id: u64 = ids[i];
            assert(ids@.contains(id));
            if let Some(b) = self.buffer(id) {
                left.push((id, b));
            }
        }
        proof {
            assert forall|i: int| 0 <= i < left@.len() implies self@.buffers.dom().contains(
                (#[trigger] left@[i]).0,
            ) by {
                assert(ids@.contains(ids@[i]));
            }
            assert forall|id: u64| #[trigger] self@.buffers.dom().contains(id) implies exists|i: int|
                0 <= i < left@.len() && (#[trigger] left@[i]).0 == id by {
                assert(ids@.contains(id));
                let k = choose|k: int| 0 <= k < ids@.len() && ids@[k] == id;
                assert(left@[k].0 == id);
            }
        }
        left
    }
}

/// The commands that copy a frame into one buffer.
#[derive(Debug)]
pub struct CopyStep {
    pub id: u64,
    pub stream_id: u64,
    pub commands: Vec<GlCommand>,
}

} // verus!
