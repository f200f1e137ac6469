//! The screen cast portal: what a session captures, which monitors and screens a
//! request names, and what the caller is answered.
use crate::error::PortalError;
use crate::protocol::{ClientMessage, Rectangle, RectangleList, ServerMessage, WordList};
use vstd::prelude::*;
use vstd::string::*;

verus! {

pub const CURSOR_HIDDEN: u32 = 1;

pub const CURSOR_EMBEDDED: u32 = 2;

pub const SOURCE_MONITOR: u32 = 1;

pub const SOURCE_WINDOW: u32 = 2;

pub const SOURCE_VIRTUAL: u32 = 4;

/// The sources that can be captured: monitors and the whole screen.
pub const AVAILABLE_SOURCE_TYPE: u32 = 5;

/// The cursor modes on offer: hidden or embedded.
pub const AVAILABLE_CURSOR_MODES: u32 = 3;

/// Every flag of `flags` is set in `bits`.
pub open spec fn holds(bits: u32, flags: u32) -> bool {
    bits & flags == flags
}

fn contains(bits: u32, flags: u32) -> (yes: bool)
    ensures
        yes == holds(bits, flags),
{
    bits & flags == flags
}

/// The first source type in a set: the first named one, or, where there is no
/// named one, whatever is set.
pub open spec fn first_source(bits: u32) -> Option<u32> {
    if holds(bits, SOURCE_MONITOR) {
        Some(SOURCE_MONITOR)
    } else if holds(bits, SOURCE_WINDOW) {
        Some(SOURCE_WINDOW)
    } else if holds(bits, SOURCE_VIRTUAL) {
        Some(SOURCE_VIRTUAL)
    } else if bits != 0 {
        Some(bits)
    } else {
        None
    }
}

/// What one caller has set up.
#[derive(Debug, PartialEq, Eq)]
pub struct Session {
    pub path: String,
    pub source_type: u32,
    pub allow_multiple: bool,
    pub cursor_mode: u32,
}

/// The options of a call to select sources. What is absent stays as it was.
#[derive(Debug, Clone, Copy, PartialEq, Eq, Structural)]
pub struct SelectSourcesOptions {
    pub multiple: Option<bool>,
    pub types: Option<u32>,
    pub cursor_mode: Option<u32>,
}

impl Session {
    /// A session only ever names sources that can be captured.
    pub open spec fn wf(&self) -> bool {
        self.source_type & !AVAILABLE_SOURCE_TYPE == 0
    }

    /// The source types that a start captures: all of the session's where several
    /// are allowed, else its first, and monitors where it has none.
    pub open spec fn started_types(&self) -> u32 {
        if self.allow_multiple {
            self.source_type
        } else {
            match first_source(self.source_type) {
                Some(t) => t,
                None => SOURCE_MONITOR,
            }
        }
    }

    /// A new session: one monitor, without the cursor.
    pub fn create(path: String) -> (s: Session)
        ensures
            s.wf(),
            s.path == path,
            s.source_type == SOURCE_MONITOR,
            !s.allow_multiple,
            s.cursor_mode == CURSOR_HIDDEN,
    {
        assert(1u32 & !5u32 == 0) by (bit_vector);
        Session {
            path,
            source_type: SOURCE_MONITOR,
            allow_multiple: false,
            cursor_mode: CURSOR_HIDDEN,
        }
    }

    /// The version of the session interface.
    pub fn version(&self) -> (v: u32)
        ensures
            v == 1,
    {
        1
    }

    /// Takes the options over. Sources that cannot be captured are left out; where
    /// none remains the call is refused, and the session is left without a source
    /// and otherwise as it was.
    pub fn select_sources(&mut self, options: SelectSourcesOptions) -> (r: Result<(), PortalError>)
        requires
            old(self).wf(),
        ensures
            final(self).wf(),
            final(self).path == old(self).path,
            final(self).source_type == (match options.types {
                Some(t) => t & AVAILABLE_SOURCE_TYPE,
                None => old(self).source_type,
            }),
            r is Err <==> (options.types matches Some(t) && t & AVAILABLE_SOURCE_TYPE == 0),
            r matches Err(e) ==> {
                &&& e matches PortalError::InvalidArgs(s) && s@ == "Invalid source type"@
                &&& final(self).allow_multiple == old(self).allow_multiple
                &&& final(self).cursor_mode == old(self).cursor_mode
            },
            r is Ok ==> {
                &&& final(self).allow_multiple == (match options.multiple {
                    Some(m) => m,
                    None => old(self).allow_multiple,
                })
                &&& final(self).cursor_mode == (match options.cursor_mode {
                    Some(m) => m,
                    None => old(self).cursor_mode,
                })
            },
    {
        if let Some(source_type) = options.types {
            self.source_type = source_type & AVAILABLE_SOURCE_TYPE;
            assert((source_type & 5u32) & !5u32 == 0) by (bit_vector);
            if self.source_type == 0 {
                return Err(PortalError::InvalidArgs(String::from_str("Invalid source type")));
            }
        }
        if let Some(allow_multiple) = options.multiple {
            self.allow_multiple = allow_multiple;
        }
        if let Some(cursor_mode) = options.cursor_mode {
            self.cursor_mode = cursor_mode;
        }
        Ok(())
    }

    fn start_types(&self) -> (bits: u32)
        ensures
            bits == self.started_types(),
    {
        if self.allow_multiple {
            self.source_type
        } else if contains(self.source_type, SOURCE_MONITOR) {
            SOURCE_MONITOR
        } else if contains(self.source_type, SOURCE_WINDOW) {
            SOURCE_WINDOW
        } else if contains(self.source_type, SOURCE_VIRTUAL) {
            SOURCE_VIRTUAL
        } else if self.source_type != 0 {
            self.source_type
        } else {
            SOURCE_MONITOR
        }
    }
}

/// A session never starts a window capture, and without several sources it starts
/// exactly one type.
pub proof fn sessions_start_available_sources(s: Session)
    requires
        s.wf(),
    ensures
        !holds(s.started_types(), SOURCE_WINDOW),
        s.started_types() & !AVAILABLE_SOURCE_TYPE == 0,
        !s.allow_multiple ==> s.started_types() == SOURCE_MONITOR || s.started_types()
            == SOURCE_VIRTUAL,
{
    let bits = s.source_type;
    assert(bits & 2u32 != 2u32 && (bits & 1u32 == 1u32 || bits & 4u32 == 4u32 || bits == 0))
        by (bit_vector)
        requires
            bits & !5u32 == 0,
    ;
    assert(1u32 & !5u32 == 0 && 4u32 & !5u32 == 0 && 1u32 & 2u32 != 2u32 && 4u32 & 2u32 != 2u32)
        by (bit_vector);
}

/// The monitor that a start without several sources picks, when `default` is next
/// in turn and there are `count`.
pub open spec fn picked_monitor(default: nat, count: nat) -> nat {
    if default >= count {
        0
    } else {
        default
    }
}

/// Starts take turns over the monitors: the one after the last picked is next, and
/// after the last comes the first.
pub proof fn monitors_take_turns(default: nat, count: nat)
    requires
        count > 0,
    ensures
        picked_monitor(default, count) < count,
        picked_monitor(picked_monitor(default, count) + 1, count) == (picked_monitor(default, count)
            + 1) % count,
{
    let p = picked_monitor(default, count);
    if p + 1 < count {
        vstd::arithmetic::div_mod::lemma_small_mod(p + 1, count);
    } else {
        vstd::arithmetic::div_mod::lemma_mod_self_0(count as int);
    }
}

/// The rectangle of a monitor.
pub fn monitor_rectangle(x: i16, y: i16, width: u16, height: u16) -> (r: Rectangle)
    ensures
        r.x == x,
        r.y == y,
        r.width == width,
        r.height == height,
{
    Rectangle { x: x as i32, y: y as i32, width: width as u32, height: height as u32 }
}

/// What has to happen next on the way to starting a session.
#[derive(Debug)]
pub enum StartAction {
    /// Ask for the list of monitors.
    QueryMonitors,
    /// Ask for the size of the root window.
    QueryGeometry,
    /// Send this request and wait for the answer.
    Send(ClientMessage),
}

/// One stream in the answer to a start.
#[derive(Debug, PartialEq, Eq)]
pub struct StreamDict {
    pub position: (i32, i32),
    pub size: (i32, i32),
    pub source_type: u32,
    pub mapping_id: Option<String>,
}

/// What a start has gathered so far.
#[verifier::ext_equal]
pub struct StartView {
    pub source_type: u32,
    pub allow_multiple: bool,
    pub embed_cursor: bool,
    pub cookie: Seq<char>,
    pub rectangles: Seq<Rectangle>,
    pub types: Seq<u32>,
}

impl StartView {
    /// What a session's start begins with.
    pub open spec fn of(session: Session, cookie: Seq<char>) -> StartView {
        StartView {
            source_type: session.started_types(),
            allow_multiple: session.allow_multiple,
            embed_cursor: holds(session.cursor_mode, CURSOR_EMBEDDED),
            cookie,
            rectangles: Seq::empty(),
            types: Seq::empty(),
        }
    }

    /// The monitors that are captured: all, or the one whose turn it is.
    pub open spec fn chosen_monitors(self, monitors: Seq<Rectangle>, default: nat) -> Seq<
        Rectangle,
    > {
        if self.allow_multiple {
            monitors
        } else if monitors.len() == 0 {
            Seq::empty()
        } else {
            seq![monitors[picked_monitor(default, monitors.len()) as int]]
        }
    }

    /// After the monitors are known.
    pub open spec fn with_monitors(self, monitors: Seq<Rectangle>, default: nat) -> StartView {
        let rectangles = self.rectangles + self.chosen_monitors(monitors, default);
        StartView {
            rectangles,
            types: Seq::new(rectangles.len(), |i: int| SOURCE_MONITOR),
            ..self
        }
    }

    /// The whole screen is captured too: it was asked for, and either there may be
    /// several sources or there is none yet.
    pub open spec fn wants_screen(self) -> bool {
        holds(self.source_type, SOURCE_VIRTUAL) && (self.allow_multiple || self.rectangles.len()
            == 0)
    }

    /// After the size of the screen is known.
    pub open spec fn with_screen(self, width: u16, height: u16) -> StartView {
        StartView {
            rectangles: self.rectangles.push(
                Rectangle { x: 0, y: 0, width: width as u32, height: height as u32 },
            ),
            types: self.types.push(SOURCE_VIRTUAL),
            ..self
        }
    }

    /// The request that is sent for what was gathered.
    pub open spec fn requests(self, msg: ClientMessage) -> bool {
        msg matches ClientMessage::CreateStream { cookie, rectangles, embed_cursor } && cookie@
            == self.cookie && rectangles@ == self.rectangles && embed_cursor == self.embed_cursor
    }

    /// What follows once the monitors are settled.
    pub open spec fn proceeds(self, action: StartAction) -> bool {
        if self.wants_screen() {
            action is QueryGeometry
        } else {
            action matches StartAction::Send(msg) && self.requests(msg)
        }
    }

    /// The answer names this stream for the `i`-th source.
    pub open spec fn describes(self, d: StreamDict, i: int) -> bool {
        &&& d.position == (self.rectangles[i].x, self.rectangles[i].y)
        &&& d.size == (self.rectangles[i].width as i32, self.rectangles[i].height as i32)
        &&& d.source_type == self.types[i]
        &&& d.mapping_id is None
    }
}

/// A start in progress.
pub struct StartRequest {
    source_type: u32,
    allow_multiple: bool,
    embed_cursor: bool,
    cookie: String,
    rectangles: RectangleList,
    types: WordList,
}

impl View for StartRequest {
    type V = StartView;

    closed spec fn view(&self) -> StartView {
        StartView {
            source_type: self.source_type,
            allow_multiple: self.allow_multiple,
            embed_cursor: self.embed_cursor,
            cookie: self.cookie@,
            rectangles: self.rectangles@,
            types: self.types@,
        }
    }
}

impl StartRequest {
    /// Begins to start a session, with the cookie that the compositor published.
    pub fn begin(session: &Session, cookie: String) -> (r: (StartRequest, StartAction))
        ensures
            r.0@ == StartView::of(*session, cookie@),
            if holds(session.started_types(), SOURCE_MONITOR) {
                r.1 is QueryMonitors
            } else {
                r.0@.proceeds(r.1)
            },
    {
        let request = StartRequest {
            source_type: session.start_types(),
            allow_multiple: session.allow_multiple,
            embed_cursor: contains(session.cursor_mode, CURSOR_EMBEDDED),
            cookie,
            rectangles: RectangleList::new(),
            types: WordList::new(),
        };
        assert(request@ =~= StartView::of(*session, cookie@));
        let action = if contains(request.source_type, SOURCE_MONITOR) {
            StartAction::QueryMonitors
        } else {
            request.proceed()
        };
        (request, action)
    }

    fn proceed(&self) -> (action: StartAction)
        ensures
            self@.proceeds(action),
    {
        if contains(self.source_type, SOURCE_VIRTUAL) && (self.allow_multiple
            || self.rectangles.len() == 0) {
            StartAction::QueryGeometry
        } else {
            StartAction::Send(self.message())
        }
    }

    fn message(&self) -> (msg: ClientMessage)
        ensures
            self@.requests(msg),
    {
        ClientMessage::CreateStream {
            cookie: self.cookie.clone(),
            rectangles: self.rectangles.clone(),
            embed_cursor: self.embed_cursor,
        }
    }

    /// Takes the monitors in. `default_monitor` is the one whose turn it is; the
    /// second result, where there is one, is whose turn it will be.
    pub fn on_monitors(&mut self, monitors: &Vec<Rectangle>, default_monitor: usize) -> (r: (
        StartAction,
        Option<usize>,
    ))
        ensures
            final(self)@ == old(self)@.with_monitors(monitors@, default_monitor as nat),
            final(self)@.proceeds(r.0),
            r.1 == (if old(self)@.allow_multiple {
                None
            } else {
                Some((picked_monitor(default_monitor as nat, monitors@.len()) + 1) as usize)
            }),
    {
        let ghost before = self@;
        let mut next: Option<usize> = None;
        if self.allow_multiple {
            self.rectangles.extend(monitors);
        } else {
            let mut picked: usize = default_monitor;
            if picked >= monitors.len() {
                picked = 0;
            }
            if picked < monitors.len() {
                self.rectangles.push(monitors[picked]);
            }
            next = Some(picked + 1);
        }
        assert(self@.rectangles =~= before.rectangles + before.chosen_monitors(
            monitors@,
            default_monitor as nat,
        ));
        let mut types: WordList = WordList::new();
        let count: usize = self.rectangles.len();
        for i in 0..count
            invariant
                types@ == Seq::new(i as nat, |j: int| SOURCE_MONITOR),
        {
            types.push(SOURCE_MONITOR);
            assert(types@ =~= Seq::new((i + 1) as nat, |j: int| SOURCE_MONITOR));
        }
        self.types = types;
        assert(self@ =~= before.with_monitors(monitors@, default_monitor as nat));
        (self.proceed(), next)
    }

    /// Takes the size of the root window in.
    pub fn on_geometry(&mut self, width: u16, height: u16) -> (action: StartAction)
        ensures
            final(self)@ == old(self)@.with_screen(width, height),
            action matches StartAction::Send(msg) && final(self)@.requests(msg),
    {
        let ghost before = self@;
        self.rectangles.push(
            Rectangle { x: 0, y: 0, width: width as u32, height: height as u32 },
        );
        self.types.push(SOURCE_VIRTUAL);
        assert(self@ =~= before.with_screen(width, height));
        StartAction::Send(self.message())
    }

    /// Turns the plugin's answer into that of the portal: stream by stream, the
    /// node, and the place and the type of the source that it shows.
    pub fn respond(&self, reply: ServerMessage) -> (r: Result<Vec<(u32, StreamDict)>, PortalError>)
        ensures
            match reply {
                ServerMessage::StreamCreated { node_ids } => r matches Ok(streams) && {
                    &&& streams@.len() == shortest(
                        node_ids@.len(),
                        self@.types.len(),
                        self@.rectangles.len(),
                    )
                    &&& forall|i: int|
                        0 <= i < streams@.len() ==> (#[trigger] streams@[i]).0 == node_ids@[i]
                            && self@.describes(streams@[i].1, i)
                },
                ServerMessage::StreamCreationError { error } => r matches Err(e) && e
                    == PortalError::Failed(error),
            },
    {
        let node_ids = match reply {
            ServerMessage::StreamCreated { node_ids } => node_ids,
            ServerMessage::StreamCreationError { error } => {
                return Err(PortalError::Failed(error));
            },
        };
        let mut streams: Vec<(u32, StreamDict)> = Vec::new();
        let mut i: usize = 0;
        while i < node_ids.len() && i < self.types.len() && i < self.rectangles.len()
            invariant
                i <= node_ids@.len(),
                i <= self@.types.len(),
                i <= self@.rectangles.len(),
                streams@.len() == i,
                forall|j: int|
                    0 <= j < i ==> (#[trigger] streams@[j]).0 == node_ids@[j] && self@.describes(
                        streams@[j].1,
                        j,
                    ),
            decreases self@.rectangles.len() - i,
        {
            let r = self.rectangles.get(i);
            let d = StreamDict {
                position: (r.x, r.y),
                size: (r.width as i32, r.height as i32),
                source_type: self.types.get(i),
                mapping_id: None,
            };
            streams.push((node_ids.get(i), d));
            i = i + 1;
        }
        Ok(streams)
    }
}

pub open spec fn shortest(a: nat, b: nat, c: nat) -> nat {
    if a <= b && a <= c {
        a
    } else if b <= c {
        b
    } else {
        c
    }
}

/// However a start gathers its sources, every rectangle has a type, and each type
/// is a monitor or the whole screen.
pub proof fn every_source_has_a_type(
    session: Session,
    cookie: Seq<char>,
    monitors: Seq<Rectangle>,
    default: nat,
    width: u16,
    height: u16,
)
    ensures
        ({
            let none = StartView::of(session, cookie);
            let some = none.with_monitors(monitors, default);
            &&& typed(none)
            &&& typed(some)
            &&& typed(none.with_screen(width, height))
            &&& typed(some.with_screen(width, height))
        }),
{
}

pub open spec fn typed(v: StartView) -> bool {
    &&& v.types.len() == v.rectangles.len()
    &&& forall|i: int|
        0 <= i < v.types.len() ==> (#[trigger] v.types[i] == SOURCE_MONITOR || v.types[i]
            == SOURCE_VIRTUAL)
}

/// Without several sources allowed, a start requests at most one rectangle.
pub proof fn single_start_requests_one(
    session: Session,
    cookie: Seq<char>,
    monitors: Seq<Rectangle>,
    default: nat,
    width: u16,
    height: u16,
)
    requires
        session.wf(),
        !session.allow_multiple,
    ensures
        ({
            let none = StartView::of(session, cookie);
            let some = none.with_monitors(monitors, default);
            &&& some.rectangles.len() <= 1
            &&& some.wants_screen() ==> some.with_screen(width, height).rectangles.len() <= 1
            &&& none.with_screen(width, height).rectangles.len() <= 1
        }),
{
}

/// The node that the plugin created for the `i`-th requested rectangle is
/// announced with that rectangle's position, when the plugin answers with one
/// node per rectangle: no stream is lost and none is mixed up.
pub proof fn answered_streams_match_requests(
    start: StartView,
    node_ids: Seq<u32>,
    streams: Seq<(u32, StreamDict)>,
)
    requires
        typed(start),
        node_ids.len() == start.rectangles.len(),
        streams.len() == shortest(node_ids.len(), start.types.len(), start.rectangles.len()),
        forall|i: int|
            0 <= i < streams.len() ==> (#[trigger] streams[i]).0 == node_ids[i] && start.describes(
                streams[i].1,
                i,
            ),
    ensures
        streams.len() == start.rectangles.len(),
        forall|i: int|
            0 <= i < streams.len() ==> (#[trigger] streams[i]).0 == node_ids[i]
                && streams[i].1.position == (start.rectangles[i].x, start.rectangles[i].y),
{
}

/// Each flag is a bit of its own: monitors the lowest, windows and the embedded cursor
/// the next, the whole screen the one after.
proof fn flags_are_bits(bits: u32)
    ensures
        holds(bits, SOURCE_MONITOR) <==> bits % 2 == 1,
        holds(bits, SOURCE_WINDOW) <==> (bits / 2) % 2 == 1,
        holds(bits, CURSOR_EMBEDDED) <==> (bits / 2) % 2 == 1,
        holds(bits, SOURCE_VIRTUAL) <==> (bits / 4) % 2 == 1,
{
    assert((bits & 1 == 1 <==> bits % 2 == 1) && (bits & 2 == 2 <==> (bits / 2) % 2 == 1) && (bits
        & 4 == 4 <==> (bits / 4) % 2 == 1)) by (bit_vector);
}

/// However the sources were gathered, the request that a start sends asks for the cursor
/// exactly where the session's cursor mode has the embedded bit, whatever the sources and
/// however many; it carries the compositor's cookie, and names the rectangles that were
/// gathered.
pub proof fn request_asks_for_the_cursor(
    session: Session,
    cookie: Seq<char>,
    monitors: Seq<Rectangle>,
    default: nat,
    width: u16,
    height: u16,
    gathered: StartView,
    msg: ClientMessage,
)
    requires
        ({
            let none = StartView::of(session, cookie);
            let some = none.with_monitors(monitors, default);
            ||| gathered == none
            ||| gathered == some
            ||| gathered == none.with_screen(width, height)
            ||| gathered == some.with_screen(width, height)
        }),
        gathered.requests(msg),
    ensures
        msg->embed_cursor <==> (session.cursor_mode / 2) % 2 == 1,
        msg->cookie@ == cookie,
        msg->rectangles@ == gathered.rectangles,
{
    flags_are_bits(session.cursor_mode);
}

/// What a start captures: everything that the session names where several sources are
/// allowed; else monitors where it names them or nothing, and the screen where it names
/// that alone.
pub proof fn start_captures_what_was_named(s: Session, cookie: Seq<char>)
    requires
        s.wf(),
    ensures
        StartView::of(s, cookie).allow_multiple == s.allow_multiple,
        s.allow_multiple ==> StartView::of(s, cookie).source_type == s.source_type,
        !s.allow_multiple ==> (StartView::of(s, cookie).source_type == 4 <==> s.source_type == 4),
        !s.allow_multiple ==> (StartView::of(s, cookie).source_type == 1 <==> s.source_type != 4),
        StartView::of(s, cookie).rectangles.len() == 0,
        StartView::of(s, cookie).types.len() == 0,
{
    let bits = s.source_type;
    assert(bits & 2u32 != 2u32 && (bits == 0 || bits == 1 || bits == 4 || bits == 5)) by (bit_vector)
        requires
            bits & !5u32 == 0,
    ;
    flags_are_bits(bits);
}

/// Where one source is to be captured, the first that is named is: monitors before
/// windows before the screen, anything before nothing, and monitors for nothing.
pub proof fn first_source_counts(s: Session)
    requires
        !s.allow_multiple,
    ensures
        s.source_type % 2 == 1 ==> s.started_types() == 1,
        s.source_type % 4 == 2 ==> s.started_types() == 2,
        s.source_type % 8 == 4 ==> s.started_types() == 4,
        s.source_type % 8 == 0 && s.source_type != 0 ==> s.started_types() == s.source_type,
        s.source_type == 0 ==> s.started_types() == 1,
{
    flags_are_bits(s.source_type);
}

/// A session names monitors, the screen, both or nothing, and every such session is in
/// order.
pub proof fn sessions_name_what_can_be_captured(s: Session)
    ensures
        s.wf() <==> s.source_type == 0 || s.source_type == 1 || s.source_type == 4 || s.source_type
            == 5,
{
    let bits = s.source_type;
    assert(bits & !5u32 == 0 <==> bits == 0 || bits == 1 || bits == 4 || bits == 5) by (bit_vector);
}

/// With several sources allowed every monitor is captured, in order; else one is: the one
/// whose turn it is, the first where that one is gone, none where there is none. Each is
/// typed as a monitor.
pub proof fn monitors_are_captured(v: StartView, monitors: Seq<Rectangle>, default: nat, i: int)
    requires
        v.rectangles.len() == 0,
    ensures
        ({
            let got = v.with_monitors(monitors, default);
            &&& v.allow_multiple ==> got.rectangles == monitors
            &&& !v.allow_multiple && monitors.len() == 0 ==> got.rectangles.len() == 0
            &&& !v.allow_multiple && monitors.len() > 0 ==> {
                &&& got.rectangles.len() == 1
                &&& default < monitors.len() ==> got.rectangles[0] == monitors[default as int]
                &&& default >= monitors.len() ==> got.rectangles[0] == monitors[0]
            }
            &&& got.types.len() == got.rectangles.len()
            &&& 0 <= i < got.types.len() ==> got.types[i] == 1
            &&& got.source_type == v.source_type
            &&& got.allow_multiple == v.allow_multiple
            &&& got.embed_cursor == v.embed_cursor
            &&& got.cookie == v.cookie
        }),
{
    assert(v.rectangles + monitors =~= monitors);
    assert(v.rectangles + Seq::<Rectangle>::empty() =~= Seq::<Rectangle>::empty());
}

/// The turn passes to the monitor after the one that was captured; it is the second
/// monitor's where there was none to capture.
pub proof fn turn_passes_on(default: nat, count: nat)
    ensures
        default < count ==> picked_monitor(default, count) == default,
        default >= count ==> picked_monitor(default, count) == 0,
{
}

/// The screen is asked for exactly where its bit is named and either several sources are
/// allowed or nothing has been gathered; else the request is sent at once.
pub proof fn screen_is_asked_for(v: StartView, action: StartAction)
    requires
        v.proceeds(action),
    ensures
        action is QueryGeometry <==> (v.source_type / 4) % 2 == 1 && (v.allow_multiple
            || v.rectangles.len() == 0),
        !(action is QueryGeometry) ==> action is Send && v.requests(action->Send_0),
{
    flags_are_bits(v.source_type);
}

/// The screen comes after everything else, from its upper left corner, in its whole size,
/// and is typed as the screen.
pub proof fn screen_is_captured(v: StartView, width: u16, height: u16)
    ensures
        ({
            let got = v.with_screen(width, height);
            &&& got.rectangles.len() == v.rectangles.len() + 1
            &&& got.rectangles.drop_last() == v.rectangles
            &&& got.rectangles.last().x == 0 && got.rectangles.last().y == 0
            &&& got.rectangles.last().width == width && got.rectangles.last().height == height
            &&& got.types.drop_last() == v.types
            &&& got.types.last() == 4
            &&& got.source_type == v.source_type
            &&& got.allow_multiple == v.allow_multiple
            &&& got.embed_cursor == v.embed_cursor
            &&& got.cookie == v.cookie
        }),
{
    assert(v.with_screen(width, height).rectangles.drop_last() =~= v.rectangles);
    assert(v.with_screen(width, height).types.drop_last() =~= v.types);
}

/// A stream is described by the place, the size and the type of its own source.
pub proof fn streams_are_described(v: StartView, d: StreamDict, i: int)
    requires
        v.describes(d, i),
    ensures
        d.position.0 == v.rectangles[i].x,
        d.position.1 == v.rectangles[i].y,
        v.rectangles[i].width <= i32::MAX ==> d.size.0 == v.rectangles[i].width,
        v.rectangles[i].height <= i32::MAX ==> d.size.1 == v.rectangles[i].height,
        d.source_type == v.types[i],
        d.mapping_id is None,
{
}

/// As many streams are answered as there are nodes and sources for.
pub proof fn answer_is_as_long_as_it_can_be(a: nat, b: nat, c: nat)
    ensures
        shortest(a, b, c) <= a,
        shortest(a, b, c) <= b,
        shortest(a, b, c) <= c,
        shortest(a, b, c) == a || shortest(a, b, c) == b || shortest(a, b, c) == c,
{
}

/// The portal interface.
pub struct ScreenCast;

impl ScreenCast {
    pub fn version(&self) -> (v: u32)
        ensures
            v == 5,
    {
        5
    }

    pub fn available_cursor_modes(&self) -> (modes: u32)
        ensures
            modes == (CURSOR_EMBEDDED | CURSOR_HIDDEN),
    {
        assert(2u32 | 1u32 == 3u32) by (bit_vector);
        AVAILABLE_CURSOR_MODES
    }

    pub fn available_source_types(&self) -> (types: u32)
        ensures
            types == (SOURCE_MONITOR | SOURCE_VIRTUAL),
    {
        assert(1u32 | 4u32 == 5u32) by (bit_vector);
        AVAILABLE_SOURCE_TYPE
    }
}

} // verus!
