//! Messages exchanged between the portal backend (the client) and the compositor
//! plugin (the server). On the wire they are length-delimited JSON, see
//! [`crate::frame`].
use smallvec::SmallVec;
use vstd::prelude::*;

verus! {

/// A part of the screen, in root window coordinates.
#[derive(Debug, Clone, Copy, PartialEq, Eq, Structural)]
pub struct Rectangle {
    pub x: i32,
    pub y: i32,
    pub width: u32,
    pub height: u32,
}

/// The rectangles of one request: a `SmallVec` with room for six inline.
#[verifier::external_body]
#[derive(Debug, PartialEq, Eq)]
pub struct RectangleList {
    inner: SmallVec<[Rectangle; 6]>,
}

/// The rectangles that a list holds, in order.
pub uninterp spec fn rectangles_held(list: RectangleList) -> Seq<Rectangle>;

impl View for RectangleList {
    type V = Seq<Rectangle>;

    open spec fn view(&self) -> Seq<Rectangle> {
        rectangles_held(*self)
    }
}

/// `SmallVec::new`: the list it returns holds nothing.
#[verifier::external_body]
fn rectangles_new() -> (list: RectangleList)
    ensures
        rectangles_held(list) == Seq::<Rectangle>::empty(),
{
    RectangleList { inner: SmallVec::new() }
}

/// `SmallVec::push`: appends one item behind those already held.
#[verifier::external_body]
fn rectangles_push(list: &mut RectangleList, item: Rectangle)
    ensures
        rectangles_held(*final(list)) == rectangles_held(*old(list)).push(item),
{
    list.inner.push(item)
}

/// `SmallVec::len`: the number of items held.
#[verifier::external_body]
fn rectangles_len(list: &RectangleList) -> (n: usize)
    ensures
        n == rectangles_held(*list).len(),
{
    list.inner.len()
}

/// Indexing a `SmallVec`: the item at a position below the length.
#[verifier::external_body]
fn rectangles_get(list: &RectangleList, i: usize) -> (item: Rectangle)
    requires
        i < rectangles_held(*list).len(),
    ensures
        item == rectangles_held(*list)[i as int],
{
    list.inner[i]
}

/// `SmallVec::clone`: the copy holds the same items in the same order.
#[verifier::external_body]
fn rectangles_clone(list: &RectangleList) -> (copy: RectangleList)
    ensures
        rectangles_held(copy) == rectangles_held(*list),
{
    RectangleList { inner: list.inner.clone() }
}

impl Clone for RectangleList {
    fn clone(&self) -> (copy: Self)
        ensures
            copy@ == self@,
    {
        rectangles_clone(self)
    }
}

impl RectangleList {
    pub fn new() -> (list: RectangleList)
        ensures
            list@ == Seq::<Rectangle>::empty(),
    {
        rectangles_new()
    }

    pub fn push(&mut self, item: Rectangle)
        ensures
            final(self)@ == old(self)@.push(item),
    {
        rectangles_push(self, item)
    }

    pub fn len(&self) -> (n: usize)
        ensures
            n == self@.len(),
    {
        rectangles_len(self)
    }

    pub fn get(&self, i: usize) -> (item: Rectangle)
        requires
            i < self@.len(),
        ensures
            item == self@[i as int],
    {
        rectangles_get(self, i)
    }

    /// Appends every item of `items`, in order.
    pub fn extend(&mut self, items: &Vec<Rectangle>)
        ensures
            final(self)@ == old(self)@ + items@,
    {
        let ghost before = self@;
        for i in 0..items.len()
            invariant
                self@ == before + items@.take(i as int),
        {
            self.push(items[i]);
            assert(items@.take(i + 1) == items@.take(i as int).push(items@[i as int]));
        }
        assert(items@.take(items@.len() as int) == items@);
    }
}

/// A list of words (node ids, or the bits of flag sets): a `SmallVec` with room
/// for six inline.
#[verifier::external_body]
#[derive(Debug, PartialEq, Eq)]
pub struct WordList {
    inner: SmallVec<[u32; 6]>,
}

/// The words that a list holds, in order.
pub uninterp spec fn words_held(list: WordList) -> Seq<u32>;

impl View for WordList {
    type V = Seq<u32>;

    open spec fn view(&self) -> Seq<u32> {
        words_held(*self)
    }
}

/// `SmallVec::new`: the list it returns holds nothing.
#[verifier::external_body]
fn words_new() -> (list: WordList)
    ensures
        words_held(list) == Seq::<u32>::empty(),
{
    WordList { inner: SmallVec::new() }
}

/// `SmallVec::push`: appends one word behind those already held.
#[verifier::external_body]
fn words_push(list: &mut WordList, item: u32)
    ensures
        words_held(*final(list)) == words_held(*old(list)).push(item),
{
    list.inner.push(item)
}

/// `SmallVec::len`: the number of words held.
#[verifier::external_body]
fn words_len(list: &WordList) -> (n: usize)
    ensures
        n == words_held(*list).len(),
{
    list.inner.len()
}

/// Indexing a `SmallVec`: the word at a position below the length.
#[verifier::external_body]
fn words_get(list: &WordList, i: usize) -> (item: u32)
    requires
        i < words_held(*list).len(),
    ensures
        item == words_held(*list)[i as int],
{
    list.inner[i]
}

/// `SmallVec::clone`: the copy holds the same words in the same order.
#[verifier::external_body]
fn words_clone(list: &WordList) -> (copy: WordList)
    ensures
        words_held(copy) == words_held(*list),
{
    WordList { inner: list.inner.clone() }
}

impl Clone for WordList {
    fn clone(&self) -> (copy: Self)
        ensures
            copy@ == self@,
    {
        words_clone(self)
    }
}

impl WordList {
    pub fn new() -> (list: WordList)
        ensures
            list@ == Seq::<u32>::empty(),
    {
        words_new()
    }

    pub fn push(&mut self, item: u32)
        ensures
            final(self)@ == old(self)@.push(item),
    {
        words_push(self, item)
    }

    pub fn len(&self) -> (n: usize)
        ensures
            n == self@.len(),
    {
        words_len(self)
    }

    pub fn get(&self, i: usize) -> (item: u32)
        requires
            i < self@.len(),
        ensures
            item == self@[i as int],
    {
        words_get(self, i)
    }
}

/// What a client asks of the plugin.
#[derive(Debug, Clone, PartialEq, Eq)]
pub enum ClientMessage {
    /// Create one stream per rectangle.
    ///
    /// The cookie keeps the privilege of capturing the screen with the clients
    /// that have it already: it is published on a window of the X server, so
    /// whoever knows it is connected to that server.
    CreateStream { cookie: String, rectangles: RectangleList, embed_cursor: bool },
}

/// What the plugin answers.
#[derive(Debug, Clone, PartialEq, Eq)]
pub enum ServerMessage {
    /// The PipeWire nodes of the new streams, in the order of the rectangles.
    StreamCreated { node_ids: WordList },
    StreamCreationError { error: String },
}

} // verus!
