//! Messages between the compositor's thread and the PipeWire thread, and when the
//! PipeWire thread has to be woken for them.
use crate::capture::CaptureReceiver;
use smallvec::SmallVec;
use vstd::prelude::*;

verus! {

/// Buffers named in one message: a `SmallVec` with room for two inline.
#[verifier::external_body]
#[derive(Debug)]
pub struct IdList {
    inner: SmallVec<[u64; 2]>,
}

/// The ids that a list holds, in order.
pub uninterp spec fn ids_held(list: IdList) -> Seq<u64>;

impl View for IdList {
    type V = Seq<u64>;

    open spec fn view(&self) -> Seq<u64> {
        ids_held(*self)
    }
}

/// `SmallVec::new`: the list it returns holds nothing.
#[verifier::external_body]
fn ids_new() -> (list: IdList)
    ensures
        ids_held(list) == Seq::<u64>::empty(),
{
    IdList { inner: SmallVec::new() }
}

/// `SmallVec::push`: appends one id behind those already held.
#[verifier::external_body]
fn ids_push(list: &mut IdList, id: u64)
    ensures
        ids_held(*final(list)) == ids_held(*old(list)).push(id),
{
    list.inner.push(id)
}

/// `SmallVec::len`: the number of ids held.
#[verifier::external_body]
fn ids_len(list: &IdList) -> (n: usize)
    ensures
        n == ids_held(*list).len(),
{
    list.inner.len()
}

/// Indexing a `SmallVec`: the id at a position below the length.
#[verifier::external_body]
fn ids_get(list: &IdList, i: usize) -> (id: u64)
    requires
        i < ids_held(*list).len(),
    ensures
        id == ids_held(*list)[i as int],
{
    list.inner[i]
}

impl IdList {
    /// The list of one id.
    pub fn one(id: u64) -> (list: IdList)
        ensures
            list@ == seq![id],
    {
        let mut list = ids_new();
        ids_push(&mut list, id);
        assert(list@ =~= seq![id]);
        list
    }

    pub fn push(&mut self, id: u64)
        ensures
            final(self)@ == old(self)@.push(id),
    {
        ids_push(self, id)
    }

    pub fn len(&self) -> (n: usize)
        ensures
            n == self@.len(),
    {
        ids_len(self)
    }

    pub fn get(&self, i: usize) -> (id: u64)
        requires
            i < self@.len(),
        ensures
            id == self@[i as int],
    {
        ids_get(self, i)
    }
}

/// What the compositor's thread tells the PipeWire thread.
#[derive(Debug, Clone, Copy, PartialEq, Eq, Structural)]
pub enum MessagesToPipewire {
    /// The commands that copy a frame into buffer `id` have been issued, and the
    /// fence signals when they are done. The buffer stops being active.
    NewFrame { id: u64, fence: u32, stream_id: u64 },
    /// Something went wrong with a buffer: its stream has to go.
    BufferError { id: u64, stream_id: u64 },
    CreateStream { x: i32, y: i32, width: u32, height: u32, embed_cursor: bool },
}

/// What the PipeWire thread tells the compositor's thread.
#[derive(Debug)]
pub enum MessagesFromPipewire {
    /// A new buffer, imported for capturing; its id is sent back.
    AddBuffer { buffer: CaptureReceiver },
    /// The next frame goes into this buffer. Several buffers can be active.
    ActivateBuffer { id: u64 },
    /// These buffers are gone.
    RemoveBuffers { ids: IdList },
    /// Wake the PipeWire thread once more, so that it looks after its streams.
    WakeMeUp,
}

/// A batch of messages to the PipeWire thread. The thread is woken once, after the
/// batch, and only if there is something for it to do.
#[derive(Debug)]
pub struct PipewireSendGuard {
    wake: bool,
}

impl PipewireSendGuard {
    /// The thread is to be woken.
    pub closed spec fn waking(&self) -> bool {
        self.wake
    }

    /// Starts a batch.
    pub fn start_send() -> (g: PipewireSendGuard)
        ensures
            !g.waking(),
    {
        PipewireSendGuard { wake: false }
    }

    /// Notes that a message is sent, whether or not it arrives.
    pub fn send(&mut self)
        ensures
            final(self).waking(),
    {
        self.wake = true;
    }

    /// Notes that the thread asked to be woken.
    pub fn wake(&mut self)
        ensures
            final(self).waking(),
    {
        self.wake = true;
    }

    /// Ends the batch, and tells whether to wake the thread.
    pub fn finish(self) -> (wake: bool)
        ensures
            wake == self.waking(),
    {
        self.wake
    }
}

} // verus!
