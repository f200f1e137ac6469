//! The PipeWire thread: the streams there are, the fences they wait for, and what
//! each stream does as PipeWire moves it along.
use crate::format::{FormatModifiers, VideoFormat};
use crate::message::{IdList, MessagesFromPipewire, MessagesToPipewire};
use crate::param::{ParamFormat, Property};
use crate::text::join;
use slotmap::{DefaultKey, Key, KeyData, SlotMap};
use std::collections::HashSet;
use vstd::prelude::*;

verus! {

/// The part of the screen that a stream shows, and how.
#[derive(Debug, Clone, Copy, PartialEq, Eq, Structural)]
pub struct StreamParams {
    pub x: i32,
    pub y: i32,
    pub width: u32,
    pub height: u32,
    pub embed_cursor: bool,
}

/// The streams there are, in a `SlotMap`.
#[verifier::external_body]
#[derive(Debug)]
pub struct StreamMap {
    inner: SlotMap<DefaultKey, StreamParams>,
}

/// The streams that a map holds, by the numbers of their keys.
pub uninterp spec fn streams_held(held: StreamMap) -> Map<u64, StreamParams>;

impl View for StreamMap {
    type V = Map<u64, StreamParams>;

    open spec fn view(&self) -> Map<u64, StreamParams> {
        streams_held(*self)
    }
}

/// `SlotMap::new`: the map it returns holds nothing.
#[verifier::external_body]
fn streams_new() -> (held: StreamMap)
    ensures
        (streams_held(held) == Map::<u64, StreamParams>::empty()),
{
    StreamMap { inner: SlotMap::new() }
}

/// `SlotMap::len`: the number of values held.
#[verifier::external_body]
fn streams_len(held: &StreamMap) -> (n: usize)
    ensures
        n == streams_held(*held).len(),
{
    held.inner.len()
}

/// `SlotMap::insert`, the key given by `KeyData::as_ffi`: the value is held under a
/// key that nothing is held under yet, and whose version is odd. It panics when
/// every one of its slots is taken.
#[verifier::external_body]
fn streams_insert(held: &mut StreamMap, params: StreamParams) -> (id: u64)
    requires
        streams_held(*old(held)).len() < 0xffff_fffe,
    ensures
        !streams_held(*old(held)).dom().contains(id),
        id == crate::capture::key_of(id),
        streams_held(*final(held)) == streams_held(*old(held)).insert(id, params),
{
    held.inner.insert(params).data().as_ffi()
}

/// `SlotMap::get`, the key made by `KeyData::from_ffi`: what is held under the key.
#[verifier::external_body]
fn streams_get(held: &StreamMap, id: u64) -> (params: Option<StreamParams>)
    ensures
        params == (if streams_held(*held).dom().contains(crate::capture::key_of(id)) {
            Some(streams_held(*held)[crate::capture::key_of(id)])
        } else {
            None
        }),
{
    held.inner.get(DefaultKey::from(KeyData::from_ffi(id))).copied()
}

/// `SlotMap::retain`, asked by the numbers of the keys (`KeyData::as_ffi`): exactly
/// the values under keys that [`is_kept`] accepts stay, unchanged and under their
/// keys.
#[verifier::external_body]
fn streams_retain(held: &mut StreamMap, errored: &Vec<u64>)
    ensures
        streams_held(*final(held)) == streams_held(*old(held)).restrict(
            Set::new(|id: u64| !errored@.contains(id)),
        ),
{
    held.inner.retain(|key, _| is_kept(errored, key.data().as_ffi()))
}

/// Tells whether a stream is not among the errored ones.
pub fn is_kept(errored: &Vec<u64>, id: u64) -> (yes: bool)
    ensures
        yes == !errored@.contains(id),
{
    for i in 0..errored.len()
        invariant
            forall|j: int| 0 <= j < i ==> errored@[j] != id,
    {
        if errored[i] == id {
            assert(errored@[i as int] == id);
            return false;
        }
    }
    true
}

/// What the thread knows: its streams, and the buffers whose fences are waited for.
#[verifier::ext_equal]
pub struct ThreadView {
    pub streams: Map<u64, StreamParams>,
    pub fence_waits: Set<u64>,
}

/// What the thread finds when it is woken and looks for messages.
#[derive(Debug, Clone, Copy, PartialEq, Eq, Structural)]
pub enum Received {
    Message(MessagesToPipewire),
    /// There is no message at the moment.
    Empty,
    /// There will be no message ever again.
    Disconnected,
}

/// What the thread does about it. After all but the last two it looks again.
#[derive(Debug, PartialEq, Eq)]
pub enum ThreadAction {
    /// Make a stream; what comes of that is for [`Pipewire::on_stream_made`] to judge.
    CreateStream(StreamParams),
    /// Wait for the fence of a buffer.
    AwaitFence { id: u64, fence: u32, stream_id: u64 },
    /// The stream of the buffer is gone: close the fence.
    CloseFence { fence: u32 },
    /// Put a stream into the error state.
    FailStream { stream_id: u64, text: String },
    /// Drop the streams that are in the error state, and go to sleep.
    Reap,
    /// Leave the main loop.
    Quit,
}

impl ThreadView {
    pub open spec fn has_stream(self, id: u64) -> bool {
        self.streams.dom().contains(crate::capture::key_of(id))
    }

    /// The message can be taken: a buffer error names a stream there is.
    pub open spec fn accepts(self, r: Received) -> bool {
        r matches Received::Message(MessagesToPipewire::BufferError { stream_id, .. })
            ==> self.has_stream(stream_id)
    }

    /// `next` and `action` are what becomes of what was received.
    pub open spec fn handles(self, r: Received, next: ThreadView, action: ThreadAction) -> bool {
        match r {
            Received::Message(
                MessagesToPipewire::CreateStream { x, y, width, height, embed_cursor },
            ) => {
                &&& next == self
                &&& action == ThreadAction::CreateStream(
                    StreamParams { x, y, width, height, embed_cursor },
                )
            },
            Received::Message(MessagesToPipewire::NewFrame { id, fence, stream_id }) => {
                if self.has_stream(stream_id) {
                    &&& next == (ThreadView {
                        fence_waits: self.fence_waits.insert(crate::capture::key_of(id)),
                        ..self
                    })
                    &&& action == (ThreadAction::AwaitFence { id, fence, stream_id })
                } else {
                    &&& next == self
                    &&& action == (ThreadAction::CloseFence { fence })
                }
            },
            Received::Message(MessagesToPipewire::BufferError { id, stream_id }) => {
                &&& next == self
                &&& action matches ThreadAction::FailStream { stream_id: s, text } && s == stream_id
                    && text@ == error_text("\"Buffer error\""@)
            },
            Received::Empty => next == self && action is Reap,
            Received::Disconnected => next == self && action is Quit,
        }
    }
}

/// What a stream in the error state reports, given the rendering of the error.
pub open spec fn error_text(rendered: Seq<char>) -> Seq<char> {
    "Error: "@ + rendered
}

/// What a stream in the error state reports, given the rendering of the error.
pub fn stream_error_text(rendered: &str) -> (text: String)
    ensures
        text@ == error_text(rendered@),
{
    join("Error: ", rendered)
}

/// Puts a stream into the error state: what it reports, and the message after which
/// the thread is woken to drop the stream.
pub fn stream_set_error(rendered: &str) -> (r: (String, MessagesFromPipewire))
    ensures
        r.0@ == error_text(rendered@),
        r.1 is WakeMeUp,
{
    (stream_error_text(rendered), MessagesFromPipewire::WakeMeUp)
}

/// The PipeWire thread.
#[derive(Debug)]
pub struct Pipewire {
    streams: StreamMap,
    fence_waits: HashSet<u64>,
}

impl View for Pipewire {
    type V = ThreadView;

    closed spec fn view(&self) -> ThreadView {
        ThreadView { streams: self.streams@, fence_waits: self.fence_waits@ }
    }
}

impl Pipewire {
    pub fn new() -> (p: Pipewire)
        ensures
            p@ == (ThreadView { streams: Map::empty(), fence_waits: Set::empty() }),
    {
        broadcast use vstd::std_specs::hash::group_hash_axioms;

        let p = Pipewire { streams: streams_new(), fence_waits: HashSet::new() };
        assert(p@ =~= (ThreadView { streams: Map::empty(), fence_waits: Set::empty() }));
        p
    }

    pub fn has_stream(&self, id: u64) -> (yes: bool)
        ensures
            yes == self@.has_stream(id),
    {
        streams_get(&self.streams, id).is_some()
    }

    /// What a stream shows.
    pub fn stream(&self, id: u64) -> (params: Option<StreamParams>)
        ensures
            params == (if self@.has_stream(id) {
                Some(self@.streams[crate::capture::key_of(id)])
            } else {
                None
            }),
    {
        streams_get(&self.streams, id)
    }

    /// Tells whether [`Pipewire::handle_message`] may be called.
    pub fn can_handle(&self, received: &Received) -> (yes: bool)
        ensures
            yes == self@.accepts(*received),
    {
        match received {
            Received::Message(MessagesToPipewire::BufferError { stream_id, .. }) => self.has_stream(
                *stream_id,
            ),
            _ => true,
        }
    }

    /// Decides what follows a look for messages.
    pub fn handle_message(&mut self, received: Received) -> (action: ThreadAction)
        requires
            old(self)@.accepts(received),
        ensures
            old(self)@.handles(received, final(self)@, action),
    {
        broadcast use vstd::std_specs::hash::group_hash_axioms;

        let ghost before = self@;
        match received {
            Received::Message(
                MessagesToPipewire::CreateStream { x, y, width, height, embed_cursor },
            ) => ThreadAction::CreateStream(StreamParams { x, y, width, height, embed_cursor }),
            Received::Message(MessagesToPipewire::NewFrame { id, fence, stream_id }) => {
                if self.has_stream(stream_id) {
                    self.fence_waits.insert(crate::capture::key_number(id));
                    assert(self@ =~= (ThreadView {
                        fence_waits: before.fence_waits.insert(crate::capture::key_of(id)),
                        ..before
                    }));
                    ThreadAction::AwaitFence { id, fence, stream_id }
                } else {
                    ThreadAction::CloseFence { fence }
                }
            },
            Received::Message(MessagesToPipewire::BufferError { id: _, stream_id }) => {
                ThreadAction::FailStream { stream_id, text: stream_error_text("\"Buffer error\"") }
            },
            Received::Empty => ThreadAction::Reap,
            Received::Disconnected => ThreadAction::Quit,
        }
    }

    /// Decides what follows an attempt to make a stream: `None` where it was made, and
    /// the next message is looked for. One failure ends the thread, before any message
    /// that is still waiting and without dropping streams.
    pub fn on_stream_made(&self, made: bool) -> (next: Option<ThreadAction>)
        ensures
            made ==> next is None,
            !made ==> next == Some(ThreadAction::Quit),
    {
        if made {
            None
        } else {
            Some(ThreadAction::Quit)
        }
    }

    /// There is room for one more stream.
    pub fn has_room(&self) -> (yes: bool)
        ensures
            yes == (self@.streams.len() < 0xffff_fffe),
    {
        (streams_len(&self.streams) as u64) < 0xffff_fffe
    }

    /// Registers a stream that was made.
    pub fn new_stream(&mut self, params: StreamParams) -> (id: u64)
        requires
            old(self)@.streams.len() < 0xffff_fffe,
        ensures
            id == crate::capture::key_of(id),
            !old(self)@.streams.dom().contains(id),
            final(self)@ == (ThreadView {
                streams: old(self)@.streams.insert(id, params),
                ..old(self)@
            }),
    {
        let ghost before = self@;
        let id: u64 = streams_insert(&mut self.streams, params);
        assert(self@ =~= (ThreadView { streams: before.streams.insert(id, params), ..before }));
        id
    }

    /// Tells whether the fence of a buffer is waited for.
    pub fn awaits_fence(&self, id: u64) -> (yes: bool)
        ensures
            yes == self@.fence_waits.contains(crate::capture::key_of(id)),
    {
        broadcast use vstd::std_specs::hash::group_hash_axioms;

        self.fence_waits.contains(&crate::capture::key_number(id))
    }

    /// The fence of a buffer signalled: the wait is over, and the stream, if it is
    /// still there, is set off.
    pub fn on_fence(&mut self, id: u64, stream_id: u64) -> (trigger: bool)
        requires
            old(self)@.fence_waits.contains(crate::capture::key_of(id)),
        ensures
            trigger == old(self)@.has_stream(stream_id),
            final(self)@ == (ThreadView {
                fence_waits: old(self)@.fence_waits.remove(crate::capture::key_of(id)),
                ..old(self)@
            }),
    {
        broadcast use vstd::std_specs::hash::group_hash_axioms;

        let ghost before = self@;
        let trigger = self.has_stream(stream_id);
        self.fence_waits.remove(&crate::capture::key_number(id));
        assert(self@ =~= (ThreadView {
            fence_waits: before.fence_waits.remove(crate::capture::key_of(id)),
            ..before
        }));
        trigger
    }

    /// Drops the streams that are in the error state.
    pub fn reap(&mut self, errored: &Vec<u64>)
        ensures
            final(self)@ == (ThreadView {
                streams: old(self)@.streams.restrict(
                    Set::new(|id: u64| !errored@.contains(id)),
                ),
                ..old(self)@
            }),
    {
        let ghost before = self@;
        streams_retain(&mut self.streams, errored);
        assert(self@ =~= (ThreadView {
            streams: before.streams.restrict(Set::new(|id: u64| !errored@.contains(id))),
            ..before
        }));
    }
}

/// Reaping leaves every stream that is not errored as it was.
pub proof fn reaping_spares_the_others(before: ThreadView, errored: Seq<u64>, id: u64)
    requires
        before.streams.dom().contains(id),
    ensures
        ({
            let left = before.streams.restrict(Set::new(|id: u64| !errored.contains(id)));
            &&& left.dom().contains(id) <==> !errored.contains(id)
            &&& left.dom().contains(id) ==> left[id] == before.streams[id]
        }),
{
}

/// Every frame that was copied gets exactly one wait or one close of its fence, and
/// a wait that began is one that can end.
pub proof fn fences_are_not_lost(
    before: ThreadView,
    id: u64,
    fence: u32,
    stream_id: u64,
    next: ThreadView,
    action: ThreadAction,
)
    requires
        before.handles(
            Received::Message(MessagesToPipewire::NewFrame { id, fence, stream_id }),
            next,
            action,
        ),
    ensures
        action == (ThreadAction::AwaitFence { id, fence, stream_id }) || action == (
        ThreadAction::CloseFence { fence }),
        action is AwaitFence ==> next.fence_waits.contains(crate::capture::key_of(id)),
{
}

/// The formats that a new stream of this size offers, one list of properties for
/// each.
pub open spec fn offered(f: (VideoFormat, Seq<u64>), width: u32, height: u32) -> ParamFormat<
    Seq<u64>,
> {
    ParamFormat { format: Some(f.0), modifiers: f.1, width, height, fixate: false }
}

/// The properties that a new stream offers, format by format.
pub fn stream_formats(formats: &Vec<FormatModifiers>, width: u32, height: u32) -> (pods: Vec<
    Vec<Property<Vec<i64>>>,
>)
    requires
        forall|i: int| 0 <= i < formats@.len() ==> (#[trigger] formats@[i])@.1.len() > 0,
    ensures
        pods@.len() == formats@.len(),
        forall|i: int|
            0 <= i < pods@.len() ==> crate::param::property_views((#[trigger] pods@[i])@) == offered(
                formats@[i]@,
                width,
                height,
            ).written(),
{
    let mut pods: Vec<Vec<Property<Vec<i64>>>> = Vec::new();
    for i in 0..formats.len()
        invariant
            forall|i: int| 0 <= i < formats@.len() ==> (#[trigger] formats@[i])@.1.len() > 0,
            pods@.len() == i,
            forall|j: int|
                0 <= j < i ==> crate::param::property_views((#[trigger] pods@[j])@) == offered(
                    formats@[j]@,
                    width,
                    height,
                ).written(),
    {
        let mut modifiers: Vec<u64> = Vec::new();
        modifiers.extend_from_slice(formats[i].modifiers.as_slice());
        assert(modifiers@ =~= formats@[i as int]@.1);
        let params = ParamFormat {
            format: Some(formats[i].format),
            modifiers,
            width,
            height,
            fixate: false,
        };
        assert(params@ =~= offered(formats@[i as int]@, width, height));
        pods.push(params.serialize());
    }
    pods
}

/// The states of a stream that matter.
#[derive(Debug, Clone, Copy, PartialEq, Eq, Structural)]
pub enum StreamState {
    Paused,
    Streaming,
    Other,
}

/// What a change of state calls for.
#[derive(Debug, Clone, Copy, PartialEq, Eq, Structural)]
pub enum StateAction {
    Nothing,
    /// Answer the request for the stream with the stream's node.
    ReplyNode,
    /// See whether a buffer can be filled.
    SendBuffer,
}

/// What one stream knows: the buffer that is being filled, and whether the request
/// for the stream is still to be answered.
#[derive(Debug, Clone, Copy, PartialEq, Eq, Structural)]
pub struct StreamData {
    /// The handle of the buffer that is being filled.
    pub outstanding_buffer: Option<u64>,
    pub reply_pending: bool,
}

impl StreamData {
    /// A stream that was just made.
    pub open spec fn start() -> StreamData {
        StreamData { outstanding_buffer: None, reply_pending: true }
    }

    /// After something happened to the buffers.
    pub open spec fn after(self, event: BufferEvent) -> StreamData {
        StreamData {
            outstanding_buffer: match event {
                BufferEvent::Process => None,
                BufferEvent::Take(buffer) => Some(buffer),
            },
            ..self
        }
    }

    pub open spec fn after_all(self, events: Seq<BufferEvent>) -> StreamData
        decreases events.len(),
    {
        if events.len() == 0 {
            self
        } else {
            self.after_all(events.drop_last()).after(events.last())
        }
    }

    /// After a change of state.
    pub open spec fn after_state(self, state: StreamState) -> StreamData {
        StreamData { reply_pending: self.reply_pending && state != StreamState::Paused, ..self }
    }

    /// What a change of state calls for.
    pub open spec fn answer_to(self, state: StreamState) -> StateAction {
        match state {
            StreamState::Paused => if self.reply_pending {
                StateAction::ReplyNode
            } else {
                StateAction::Nothing
            },
            StreamState::Streaming => StateAction::SendBuffer,
            StreamState::Other => StateAction::Nothing,
        }
    }

    /// After a run of changes of state.
    pub open spec fn after_states(self, states: Seq<StreamState>) -> StreamData
        decreases states.len(),
    {
        if states.len() == 0 {
            self
        } else {
            self.after_states(states.drop_last()).after_state(states.last())
        }
    }

    /// How often a run of changes of state answers the request for the stream.
    pub open spec fn replies(self, states: Seq<StreamState>) -> nat
        decreases states.len(),
    {
        if states.len() == 0 {
            0
        } else {
            let before = states.drop_last();
            self.replies(before) + (if self.after_states(before).answer_to(states.last())
                == StateAction::ReplyNode {
                1nat
            } else {
                0nat
            })
        }
    }

    pub fn new() -> (d: StreamData)
        ensures
            d == StreamData::start(),
    {
        StreamData { outstanding_buffer: None, reply_pending: true }
    }

    /// PipeWire asks the stream to go on: the buffer that was being filled is
    /// queued, if there is one.
    pub fn on_process(&mut self) -> (queue: Option<u64>)
        ensures
            queue == old(self).outstanding_buffer,
            *final(self) == old(self).after(BufferEvent::Process),
    {
        let queue: Option<u64> = self.outstanding_buffer;
        self.outstanding_buffer = None;
        queue
    }

    /// Decides what follows a change of state. The request is answered once, when
    /// the stream first pauses.
    pub fn on_state_changed(&mut self, state: StreamState) -> (action: StateAction)
        ensures
            *final(self) == old(self).after_state(state),
            action == old(self).answer_to(state),
    {
        match state {
            StreamState::Paused => {
                if self.reply_pending {
                    self.reply_pending = false;
                    StateAction::ReplyNode
                } else {
                    StateAction::Nothing
                }
            },
            StreamState::Streaming => StateAction::SendBuffer,
            StreamState::Other => StateAction::Nothing,
        }
    }

    /// Tells whether to take a buffer from PipeWire: the stream runs, and no buffer
    /// is being filled.
    pub fn wants_buffer(&self, state: StreamState) -> (yes: bool)
        ensures
            yes == (state == StreamState::Streaming && self.outstanding_buffer is None),
    {
        state == StreamState::Streaming && self.outstanding_buffer.is_none()
    }

    /// A buffer was taken, under the id that it was imported with: the next frame
    /// goes into it.
    pub fn send_buffer(&mut self, buffer: u64, id: u64) -> (msg: MessagesFromPipewire)
        requires
            old(self).outstanding_buffer is None,
        ensures
            *final(self) == old(self).after(BufferEvent::Take(buffer)),
            msg == (MessagesFromPipewire::ActivateBuffer { id }),
    {
        self.outstanding_buffer = Some(buffer);
        MessagesFromPipewire::ActivateBuffer { id }
    }
}

/// The request for a stream is answered once, as soon as the stream has paused, however
/// its state changes after that.
pub proof fn request_is_answered_once(states: Seq<StreamState>)
    ensures
        StreamData::start().replies(states) == (if states.contains(StreamState::Paused) {
            1nat
        } else {
            0nat
        }),
        StreamData::start().after_states(states).reply_pending == !states.contains(
            StreamState::Paused,
        ),
    decreases states.len(),
{
    if states.len() > 0 {
        let before = states.drop_last();
        request_is_answered_once(before);
        if before.contains(StreamState::Paused) {
            let i = choose|i: int| 0 <= i < before.len() && before[i] == StreamState::Paused;
            assert(states[i] == StreamState::Paused);
        } else if states.contains(StreamState::Paused) {
            let i = choose|i: int| 0 <= i < states.len() && states[i] == StreamState::Paused;
            if i < before.len() {
                assert(before[i] == StreamState::Paused);
            }
        }
        if states.last() == StreamState::Paused {
            assert(states[states.len() - 1] == StreamState::Paused);
        }
    }
}

/// PipeWire took a buffer away.
pub fn remove_buffer(id: u64) -> (msg: MessagesFromPipewire)
    ensures
        msg matches MessagesFromPipewire::RemoveBuffers { ids } && ids@ == seq![id],
{
    MessagesFromPipewire::RemoveBuffers { ids: IdList::one(id) }
}

/// What happens to the buffers of a stream.
pub enum BufferEvent {
    /// The stream is asked to go on.
    Process,
    /// A buffer is taken.
    Take(u64),
}

/// The buffers that were taken, in order.
pub open spec fn taken(events: Seq<BufferEvent>) -> Seq<u64>
    decreases events.len(),
{
    if events.len() == 0 {
        Seq::empty()
    } else {
        match events.last() {
            BufferEvent::Process => taken(events.drop_last()),
            BufferEvent::Take(b) => taken(events.drop_last()).push(b),
        }
    }
}

/// The buffer that is being filled after some events.
pub open spec fn outstanding(events: Seq<BufferEvent>) -> Option<u64> {
    StreamData::start().after_all(events).outstanding_buffer
}

/// The buffers that were queued, in order.
pub open spec fn queued(events: Seq<BufferEvent>) -> Seq<u64>
    decreases events.len(),
{
    if events.len() == 0 {
        Seq::empty()
    } else {
        let before = queued(events.drop_last());
        match (events.last(), outstanding(events.drop_last())) {
            (BufferEvent::Process, Some(b)) => before.push(b),
            _ => before,
        }
    }
}

/// A buffer is only ever taken while none is being filled.
pub open spec fn one_at_a_time(events: Seq<BufferEvent>) -> bool
    decreases events.len(),
{
    events.len() > 0 ==> {
        &&& one_at_a_time(events.drop_last())
        &&& events.last() is Take ==> outstanding(events.drop_last()) is None
    }
}

/// No buffer is lost, duplicated or overtaken: what was taken is what was queued, in
/// the same order, and at most the last one is still being filled.
pub proof fn taken_buffers_are_queued(events: Seq<BufferEvent>)
    requires
        one_at_a_time(events),
    ensures
        taken(events) == (match outstanding(events) {
            Some(b) => queued(events).push(b),
            None => queued(events),
        }),
    decreases events.len(),
{
    if events.len() > 0 {
        taken_buffers_are_queued(events.drop_last());
    }
}

/// A stream is made of what was asked for, number for number, and nothing else changes.
pub proof fn stream_is_made_as_asked(
    v: ThreadView,
    x: i32,
    y: i32,
    width: u32,
    height: u32,
    embed_cursor: bool,
    next: ThreadView,
    action: ThreadAction,
)
    requires
        v.handles(
            Received::Message(
                MessagesToPipewire::CreateStream { x, y, width, height, embed_cursor },
            ),
            next,
            action,
        ),
    ensures
        action matches ThreadAction::CreateStream(p) && p.x == x && p.y == y && p.width == width
            && p.height == height && p.embed_cursor == embed_cursor,
        next.streams == v.streams,
        next.fence_waits == v.fence_waits,
{
}

/// The fence of a frame is waited for exactly where the stream of the frame is still
/// there, and is closed where it is not; no other wait begins or ends.
pub proof fn fences_follow_their_stream(
    v: ThreadView,
    id: u64,
    fence: u32,
    stream_id: u64,
    next: ThreadView,
    action: ThreadAction,
)
    requires
        v.handles(
            Received::Message(MessagesToPipewire::NewFrame { id, fence, stream_id }),
            next,
            action,
        ),
    ensures
        v.streams.dom().contains(crate::capture::key_of(stream_id)) <==> action is AwaitFence,
        action is AwaitFence ==> action->AwaitFence_id == id && action->AwaitFence_fence == fence
            && action->AwaitFence_stream_id == stream_id,
        action is CloseFence ==> action->CloseFence_fence == fence,
        action is AwaitFence || action is CloseFence,
        forall|k: u64| #[trigger]
            next.fence_waits.contains(k) <==> v.fence_waits.contains(k) || (k
                == crate::capture::key_of(id) && action is AwaitFence),
        next.streams == v.streams,
{
}

/// An error of a buffer fails the stream that it names, and changes nothing else; such a
/// message is turned away only where that stream is gone.
pub proof fn buffer_errors_fail_their_stream(
    v: ThreadView,
    id: u64,
    stream_id: u64,
    next: ThreadView,
    action: ThreadAction,
)
    requires
        v.handles(
            Received::Message(MessagesToPipewire::BufferError { id, stream_id }),
            next,
            action,
        ),
    ensures
        action is FailStream,
        action->FailStream_stream_id == stream_id,
        action->text@ == "Error: "@ + "\"Buffer error\""@,
        next == v,
        v.accepts(Received::Message(MessagesToPipewire::BufferError { id, stream_id }))
            <==> v.streams.dom().contains(crate::capture::key_of(stream_id)),
{
}

/// The thread reaps when there is nothing more to do, quits when there never will be, and
/// does either only then; it takes every message but an error of a buffer whose stream is
/// gone.
pub proof fn thread_rests_when_idle(
    v: ThreadView,
    r: Received,
    next: ThreadView,
    action: ThreadAction,
)
    requires
        v.handles(r, next, action),
    ensures
        action is Reap <==> r == Received::Empty,
        action is Quit <==> r == Received::Disconnected,
        !(r is Message) ==> next == v,
        !v.accepts(r) ==> r is Message && r->Message_0 is BufferError,
{
}

/// What a new stream offers is read by the consumer as the format itself, in the size of
/// the stream, with all modifiers of the format and the same one first.
pub proof fn streams_offer_their_size(f: (VideoFormat, Seq<u64>), width: u32, height: u32)
    requires
        f.1.len() > 0,
    ensures
        ParamFormat::parse(offered(f, width, height).written()) matches Ok(q) && {
            &&& q.format == Some(f.0)
            &&& q.width == width
            &&& q.height == height
            &&& q.modifiers.len() > 0 && q.modifiers[0] == f.1[0]
            &&& forall|i: int| 0 <= i < f.1.len() ==> q.modifiers.contains(#[trigger] f.1[i])
            &&& q.fixate
        },
{
    crate::param::written_format_means_the_same(offered(f, width, height));
    assert forall|i: int| 0 <= i < f.1.len() implies ParamFormat::parse(
        offered(f, width, height).written(),
    )->Ok_0.modifiers.contains(#[trigger] f.1[i]) by {
        assert(f.1.contains(f.1[i]));
    }
}

/// What a stream reports of an error is its rendering, announced as an error.
pub proof fn errors_are_announced(rendered: Seq<char>)
    ensures
        error_text(rendered).len() == 7 + rendered.len(),
        error_text(rendered).take(7) == "Error: "@,
        error_text(rendered).skip(7) == rendered,
{
    reveal_strlit("Error: ");
    assert(error_text(rendered).take(7) =~= "Error: "@);
    assert(error_text(rendered).skip(7) =~= rendered);
}

/// A stream looks for a buffer exactly when it starts to run, and whatever happens to its
/// state or its buffers leaves the other alone.
pub proof fn running_streams_look_for_buffers(d: StreamData, state: StreamState, event: BufferEvent)
    ensures
        d.answer_to(state) == StateAction::SendBuffer <==> state == StreamState::Streaming,
        d.answer_to(state) == StateAction::ReplyNode ==> d.reply_pending && !d.after_state(
            state,
        ).reply_pending,
        d.after_state(state).outstanding_buffer == d.outstanding_buffer,
        d.after(event).reply_pending == d.reply_pending,
        event matches BufferEvent::Take(b) ==> d.after(event).outstanding_buffer == Some(b),
        event is Process ==> d.after(event).outstanding_buffer is None,
{
}

} // verus!
