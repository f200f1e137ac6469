//! The cursor monitor. One side watches the X server and turns every change of the
//! cursor into a message; the other side applies the messages and knows what the
//! cursor looks like now.
use std::collections::{HashMap, HashSet};
use vstd::prelude::*;

verus! {

/// The image of a cursor, as a texture.
#[derive(Debug, Clone, Copy, PartialEq, Eq, Structural)]
pub struct Cursor {
    pub hotspot_x: u32,
    pub hotspot_y: u32,
    pub width: u32,
    pub height: u32,
    pub texture: u32,
}

#[derive(Debug, Clone, Copy, PartialEq, Eq, Structural)]
pub enum CursorMessage {
    /// The cursor changed to one not seen before.
    NewCursor { serial: u32, cursor: Cursor },
    /// The cursor changed to one that was announced earlier.
    ChangeCursor { serial: u32 },
}

/// EGL made no context for the watching side.
#[derive(Debug, Clone, Copy, PartialEq, Eq, Structural)]
pub struct NoContext;

pub const EGL_NO_CONTEXT: u64 = 0;

impl NoContext {
    /// The error in words.
    pub fn message(&self) -> (s: &'static str)
        ensures
            s@ == "Failed to create context"@,
    {
        "Failed to create context"
    }
}

/// Tells whether EGL made a context.
pub fn check_context(context: u64) -> (r: Result<(), NoContext>)
    ensures
        r == (if context == EGL_NO_CONTEXT {
            Err(NoContext)
        } else {
            Ok::<(), NoContext>(())
        }),
{
    if context == EGL_NO_CONTEXT {
        Err(NoContext)
    } else {
        Ok(())
    }
}

/// What is done about a change of the cursor.
#[derive(Debug, Clone, Copy, PartialEq, Eq, Structural)]
pub enum CursorAction {
    Send(CursorMessage),
    /// Fetch the image of the cursor and upload it.
    FetchImage,
}

/// The image of a cursor as the X server describes it.
#[derive(Debug, Clone, Copy, PartialEq, Eq, Structural)]
pub struct CursorImage {
    pub serial: u32,
    pub xhot: u16,
    pub yhot: u16,
    pub width: u16,
    pub height: u16,
}

/// The cursor that an image becomes once it is uploaded to `texture`.
pub open spec fn cursor_of(image: CursorImage, texture: u32) -> Cursor {
    Cursor {
        hotspot_x: image.xhot as u32,
        hotspot_y: image.yhot as u32,
        width: image.width as u32,
        height: image.height as u32,
        texture,
    }
}

/// The watching side: the cursors it has announced, and the textures it made.
pub struct CursorTracker {
    textures: Vec<u32>,
    cursor_serials: HashSet<u32>,
}

impl CursorTracker {
    pub closed spec fn serials(&self) -> Set<u32> {
        self.cursor_serials@
    }

    pub closed spec fn made_textures(&self) -> Seq<u32> {
        self.textures@
    }

    pub fn new() -> (t: CursorTracker)
        ensures
            t.serials() == Set::<u32>::empty(),
            t.made_textures() == Seq::<u32>::empty(),
    {
        broadcast use vstd::std_specs::hash::group_hash_axioms;

        CursorTracker { textures: Vec::new(), cursor_serials: HashSet::new() }
    }

    /// Decides what a notification calls for. A known cursor is announced by its
    /// serial alone.
    pub fn on_notify(&self, serial: u32) -> (action: CursorAction)
        ensures
            action == (if self.serials().contains(serial) {
                CursorAction::Send(CursorMessage::ChangeCursor { serial })
            } else {
                CursorAction::FetchImage
            }),
    {
        broadcast use vstd::std_specs::hash::group_hash_axioms;

        if self.cursor_serials.contains(&serial) {
            CursorAction::Send(CursorMessage::ChangeCursor { serial })
        } else {
            CursorAction::FetchImage
        }
    }

    /// Takes in an image that was uploaded to `texture`, and announces it under the
    /// serial that came with the image.
    pub fn on_image(&mut self, image: CursorImage, texture: u32) -> (msg: CursorMessage)
        ensures
            final(self).serials() == old(self).serials().insert(image.serial),
            final(self).made_textures() == old(self).made_textures().push(texture),
            msg == (CursorMessage::NewCursor {
                serial: image.serial,
                cursor: cursor_of(image, texture),
            }),
    {
        broadcast use vstd::std_specs::hash::group_hash_axioms;

        self.textures.push(texture);
        self.cursor_serials.insert(image.serial);
        CursorMessage::NewCursor {
            serial: image.serial,
            cursor: Cursor {
                hotspot_x: image.xhot as u32,
                hotspot_y: image.yhot as u32,
                width: image.width as u32,
                height: image.height as u32,
                texture,
            },
        }
    }

    /// The textures to delete in the end.
    pub fn textures(&self) -> (list: &Vec<u32>)
        ensures
            list@ == self.made_textures(),
    {
        &self.textures
    }
}

/// What the applying side knows.
#[verifier::ext_equal]
pub struct CursorView {
    pub cursors: Map<u32, Cursor>,
    pub current: Option<u32>,
}

impl CursorView {
    pub open spec fn start() -> CursorView {
        CursorView { cursors: Map::empty(), current: None }
    }

    pub open spec fn apply(self, msg: CursorMessage) -> CursorView {
        match msg {
            CursorMessage::NewCursor { serial, cursor } => CursorView {
                cursors: self.cursors.insert(serial, cursor),
                current: Some(serial),
            },
            CursorMessage::ChangeCursor { serial } => CursorView { current: Some(serial), ..self },
        }
    }

    pub open spec fn apply_all(self, msgs: Seq<CursorMessage>) -> CursorView
        decreases msgs.len(),
    {
        if msgs.len() == 0 {
            self
        } else {
            self.apply_all(msgs.drop_last()).apply(msgs.last())
        }
    }

    /// What the cursor looks like now.
    pub open spec fn shown(self) -> Option<Cursor> {
        match self.current {
            Some(serial) if self.cursors.dom().contains(serial) => Some(self.cursors[serial]),
            _ => None,
        }
    }
}

/// The watching side is gone.
#[derive(Debug, Clone, Copy, PartialEq, Eq, Structural)]
pub struct MonitorGone;

/// The applying side.
pub struct CursorMonitor {
    cursors: HashMap<u32, Cursor>,
    current_cursor: Option<u32>,
}

impl View for CursorMonitor {
    type V = CursorView;

    closed spec fn view(&self) -> CursorView {
        CursorView { cursors: self.cursors@, current: self.current_cursor }
    }
}

impl CursorMonitor {
    pub fn new() -> (m: CursorMonitor)
        ensures
            m@ == CursorView::start(),
    {
        broadcast use vstd::std_specs::hash::group_hash_axioms;

        let m = CursorMonitor { cursors: HashMap::new(), current_cursor: None };
        assert(m@ =~= CursorView::start());
        m
    }

    fn apply(&mut self, msg: CursorMessage)
        ensures
            final(self)@ == old(self)@.apply(msg),
    {
        broadcast use vstd::std_specs::hash::group_hash_axioms;

        let ghost before = self@;
        match msg {
            CursorMessage::NewCursor { serial, cursor } => {
                self.cursors.insert(serial, cursor);
                self.current_cursor = Some(serial);
            },
            CursorMessage::ChangeCursor { serial } => {
                self.current_cursor = Some(serial);
            },
        }
        assert(self@ =~= before.apply(msg));
    }

    /// Applies the messages that are waiting and returns the cursor. `gone` tells
    /// that the watching side has hung up after them, which is an error even though
    /// the messages are applied.
    pub fn current_cursor(&mut self, pending: &Vec<CursorMessage>, gone: bool) -> (r: Result<
        Option<Cursor>,
        MonitorGone,
    >)
        ensures
            final(self)@ == old(self)@.apply_all(pending@),
            r == (if gone {
                Err::<Option<Cursor>, MonitorGone>(MonitorGone)
            } else {
                Ok(final(self)@.shown())
            }),
    {
        broadcast use vstd::std_specs::hash::group_hash_axioms;

        let ghost before = self@;
        for i in 0..pending.len()
            invariant
                self@ == before.apply_all(pending@.take(i as int)),
        {
            assert(pending@.take(i + 1).drop_last() =~= pending@.take(i as int));
            self.apply(pending[i]);
        }
        assert(pending@.take(pending@.len() as int) =~= pending@);
        if gone {
            return Err(MonitorGone);
        }
        match self.current_cursor {
            Some(serial) => match self.cursors.get(&serial) {
                Some(cursor) => Ok(Some(*cursor)),
                None => Ok(None),
            },
            None => Ok(None),
        }
    }
}

/// A cursor has the hotspot and the size of its image, and the texture that the image was
/// uploaded to.
pub proof fn cursor_keeps_its_image(image: CursorImage, texture: u32)
    ensures
        cursor_of(image, texture).hotspot_x == image.xhot,
        cursor_of(image, texture).hotspot_y == image.yhot,
        cursor_of(image, texture).width == image.width,
        cursor_of(image, texture).height == image.height,
        cursor_of(image, texture).texture == texture,
{
}

/// The last message decides which cursor is shown: the one it brings, or the one that was
/// known under its serial, if any.
pub proof fn last_message_decides(v: CursorView, msgs: Seq<CursorMessage>)
    requires
        msgs.len() > 0,
    ensures
        match msgs.last() {
            CursorMessage::NewCursor { cursor, .. } => v.apply_all(msgs).shown() == Some(cursor),
            CursorMessage::ChangeCursor { serial } => v.apply_all(msgs).shown() == (if v.apply_all(
                msgs.drop_last(),
            ).cursors.dom().contains(serial) {
                Some(v.apply_all(msgs.drop_last()).cursors[serial])
            } else {
                None
            }),
        },
{
}

/// Without messages nothing changes.
pub proof fn silence_changes_nothing(v: CursorView)
    ensures
        v.apply_all(Seq::empty()) == v,
        CursorView::start().shown() is None,
{
}

/// A cursor is known as the latest message described it that brought its serial: later
/// messages about other cursors, and those that only name it, leave it as it is.
pub proof fn latest_image_counts(v: CursorView, msgs: Seq<CursorMessage>, i: int)
    requires
        0 <= i < msgs.len(),
        msgs[i] is NewCursor,
        forall|j: int|
            i < j < msgs.len() ==> !(#[trigger] msgs[j] is NewCursor && msgs[j]->NewCursor_serial
                == msgs[i]->NewCursor_serial),
    ensures
        v.apply_all(msgs).cursors.dom().contains(msgs[i]->NewCursor_serial),
        v.apply_all(msgs).cursors[msgs[i]->NewCursor_serial] == msgs[i]->cursor,
    decreases msgs.len(),
{
    if i < msgs.len() - 1 {
        let before = msgs.drop_last();
        assert(before[i] == msgs[i]);
        assert forall|j: int| i < j < before.len() implies !(#[trigger] before[j] is NewCursor
            && before[j]->NewCursor_serial == before[i]->NewCursor_serial) by {
            assert(before[j] == msgs[j]);
        }
        latest_image_counts(v, before, i);
        assert(!(msgs[msgs.len() - 1] is NewCursor && msgs[msgs.len() - 1]->NewCursor_serial
            == msgs[i]->NewCursor_serial));
    }
}

/// One change of the cursor: the serial in the notification, and the image and
/// texture that are used if that serial is new.
pub struct CursorChange {
    pub notified: u32,
    pub image: CursorImage,
    pub texture: u32,
}

/// The serials that the watching side has announced after some changes.
pub open spec fn announced_serials(changes: Seq<CursorChange>) -> Set<u32>
    decreases changes.len(),
{
    if changes.len() == 0 {
        Set::empty()
    } else {
        let before = announced_serials(changes.drop_last());
        if before.contains(changes.last().notified) {
            before
        } else {
            before.insert(changes.last().image.serial)
        }
    }
}

/// The messages that the watching side sends for some changes.
pub open spec fn announcements(changes: Seq<CursorChange>) -> Seq<CursorMessage>
    decreases changes.len(),
{
    if changes.len() == 0 {
        Seq::empty()
    } else {
        let c = changes.last();
        announcements(changes.drop_last()).push(
            if announced_serials(changes.drop_last()).contains(c.notified) {
                CursorMessage::ChangeCursor { serial: c.notified }
            } else {
                CursorMessage::NewCursor {
                    serial: c.image.serial,
                    cursor: cursor_of(c.image, c.texture),
                }
            },
        )
    }
}

/// The two sides never disagree: whatever the X server reports, the applying side
/// knows the image of every cursor that it is told to show.
pub proof fn announced_cursor_is_known(changes: Seq<CursorChange>)
    ensures
        ({
            let now = CursorView::start().apply_all(announcements(changes));
            &&& now.cursors.dom() == announced_serials(changes)
            &&& changes.len() > 0 ==> now.shown() is Some
        }),
    decreases changes.len(),
{
    if changes.len() > 0 {
        announced_cursor_is_known(changes.drop_last());
        let msgs = announcements(changes);
        assert(msgs.drop_last() =~= announcements(changes.drop_last()));
        let before = CursorView::start().apply_all(announcements(changes.drop_last()));
        let now = CursorView::start().apply_all(msgs);
        assert(now == before.apply(msgs.last()));
        assert(now.cursors.dom() =~= announced_serials(changes));
    }
}

/// The corners of a cursor drawn with its hotspot at a point.
#[derive(Debug, Clone, Copy, PartialEq, Eq, Structural)]
pub struct CursorQuad {
    pub left: i32,
    pub top: i32,
    pub right: i32,
    pub bottom: i32,
}

impl Cursor {
    /// The corners can be computed with the hotspot at `(x, y)`.
    pub open spec fn fits_at(self, x: i32, y: i32) -> bool {
        let left = x - (self.hotspot_x as i32);
        let top = y - (self.hotspot_y as i32);
        &&& i32::MIN <= left <= i32::MAX
        &&& i32::MIN <= top <= i32::MAX
        &&& i32::MIN <= left + (self.width as i32) <= i32::MAX
        &&& i32::MIN <= top + (self.height as i32) <= i32::MAX
    }

    /// Tells whether [`Cursor::quad`] may be called.
    pub fn can_draw_at(&self, x: i32, y: i32) -> (yes: bool)
        ensures
            yes == self.fits_at(x, y),
    {
        let left: i64 = x as i64 - (self.hotspot_x as i32) as i64;
        let top: i64 = y as i64 - (self.hotspot_y as i32) as i64;
        let right: i64 = left + (self.width as i32) as i64;
        let bottom: i64 = top + (self.height as i32) as i64;
        let min: i64 = i32::MIN as i64;
        let max: i64 = i32::MAX as i64;
        min <= left && left <= max && min <= top && top <= max && min <= right && right <= max
            && min <= bottom && bottom <= max
    }

    /// The corners of the cursor with its hotspot at `(x, y)`.
    pub fn quad(&self, x: i32, y: i32) -> (q: CursorQuad)
        requires
            self.fits_at(x, y),
        ensures
            q.left == x - (self.hotspot_x as i32),
            q.top == y - (self.hotspot_y as i32),
            q.right == q.left + (self.width as i32),
            q.bottom == q.top + (self.height as i32),
    {
        let left: i32 = x - self.hotspot_x as i32;
        let top: i32 = y - self.hotspot_y as i32;
        CursorQuad {
            left,
            top,
            right: left + self.width as i32,
            bottom: top + self.height as i32,
        }
    }
}

/// Every cursor that the X server can describe fits wherever it can put the
/// pointer.
pub proof fn announced_cursor_fits(image: CursorImage, texture: u32, x: i16, y: i16)
    ensures
        cursor_of(image, texture).fits_at(x as i32, y as i32),
{
}

/// A cursor can be drawn exactly where all of its edges can be expressed.
pub proof fn cursor_is_drawable_where_expressible(c: Cursor, x: i32, y: i32)
    requires
        c.hotspot_x <= i32::MAX,
        c.hotspot_y <= i32::MAX,
        c.width <= i32::MAX,
        c.height <= i32::MAX,
    ensures
        c.fits_at(x, y) <==> {
            &&& -0x8000_0000 <= x - c.hotspot_x
            &&& -0x8000_0000 <= y - c.hotspot_y
            &&& x - c.hotspot_x + c.width <= 0x7fff_ffff
            &&& y - c.hotspot_y + c.height <= 0x7fff_ffff
        },
{
}

} // verus!
