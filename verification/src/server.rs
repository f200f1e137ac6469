//! The plugin's server: how it comes up, and how it serves one client.
use crate::message::MessagesToPipewire;
use crate::protocol::{ClientMessage, Rectangle, RectangleList, ServerMessage, WordList};
use crate::text::{decimal_string, join};
use vstd::prelude::*;
use vstd::string::*;

verus! {

/// The characters that a cookie is made of.
pub const BASE64_CHARSET: &'static str =
    "ABCDEFGHIJKLMNOPQRSTUVWXYZabcdefghijklmnopqrstuvwxyz0123456789+/";

/// The length of a cookie.
pub const COOKIE_LENGTH: usize = 88;

/// `random_string::generate`: a string of the length that is asked for, made of
/// characters of the charset. Which ones is left to chance. It panics on an empty
/// charset, and on a length whose bytes no string can hold.
#[verifier::external_body]
fn random_text(length: usize, charset: &str) -> (s: String)
    requires
        charset@.len() > 0,
        length <= 0x1fff_ffff,
    ensures
        s@.len() == length,
        forall|i: int| 0 <= i < s@.len() ==> charset@.contains(#[trigger] s@[i]),
{
    random_string::generate(length, charset)
}

/// A cookie: a string of cookie length over the charset.
pub open spec fn is_cookie(s: Seq<char>) -> bool {
    &&& s.len() == COOKIE_LENGTH
    &&& forall|i: int| 0 <= i < s.len() ==> BASE64_CHARSET@.contains(#[trigger] s[i])
}

/// The characters of a cookie are the letters, the digits, the plus sign and the slash.
pub proof fn cookie_characters(c: char)
    ensures
        BASE64_CHARSET@.len() == 64,
        BASE64_CHARSET@.contains(c) ==> 'A' <= c <= 'Z' || 'a' <= c <= 'z' || '0' <= c <= '9' || c
            == '+' || c == '/',
        'A' <= c <= 'Z' ==> BASE64_CHARSET@[c as int - 'A' as int] == c,
        'a' <= c <= 'z' ==> BASE64_CHARSET@[c as int - 'a' as int + 26] == c,
        '0' <= c <= '9' ==> BASE64_CHARSET@[c as int - '0' as int + 52] == c,
        BASE64_CHARSET@[62] == '+',
        BASE64_CHARSET@[63] == '/',
{
    reveal_strlit("ABCDEFGHIJKLMNOPQRSTUVWXYZabcdefghijklmnopqrstuvwxyz0123456789+/");
}

/// A cookie has as many characters as are asked for, all of them of the charset; and every
/// such text is a cookie.
pub proof fn cookies_are_long(s: Seq<char>)
    ensures
        is_cookie(s) <==> s.len() == 88 && !exists|i: int|
            0 <= i < s.len() && !BASE64_CHARSET@.contains(#[trigger] s[i]),
{
}

/// Makes a new cookie at random.
pub fn new_cookie() -> (s: String)
    ensures
        is_cookie(s@),
{
    proof {
        reveal_strlit("ABCDEFGHIJKLMNOPQRSTUVWXYZabcdefghijklmnopqrstuvwxyz0123456789+/");
    }
    random_text(COOKIE_LENGTH, BASE64_CHARSET)
}

/// Where a runtime file goes.
pub open spec fn runtime_path(
    placed: Option<Seq<u8>>,
    tmpdir: Option<Seq<u8>>,
    name: Seq<u8>,
) -> Seq<u8> {
    match placed {
        Some(path) => path,
        None => {
            let dir = match tmpdir {
                Some(d) => d,
                None => "/tmp".spec_bytes(),
            };
            path_join(dir, "picom-".spec_bytes() + name)
        },
    }
}

/// A relative name in a directory.
pub open spec fn path_join(dir: Seq<u8>, name: Seq<u8>) -> Seq<u8> {
    if dir.len() == 0 || dir.last() == 0x2f {
        dir + name
    } else {
        dir.push(0x2f) + name
    }
}

/// The bytes of the path of a runtime file: where the runtime directory has a place
/// for it, or else a file with a prefix in the temporary directory.
pub fn place_runtime_file(placed: Option<Vec<u8>>, tmpdir: Option<Vec<u8>>, name: &str) -> (path:
    Vec<u8>)
    ensures
        path@ == runtime_path(
            match placed {
                Some(p) => Some(p@),
                None => None,
            },
            match tmpdir {
                Some(d) => Some(d@),
                None => None,
            },
            name.spec_bytes(),
        ),
{
    if let Some(path) = placed {
        return path;
    }
    let mut path: Vec<u8> = match tmpdir {
        Some(d) => d,
        None => {
            let mut d: Vec<u8> = Vec::new();
            d.extend_from_slice("/tmp".as_bytes());
            assert(d@ =~= "/tmp".spec_bytes());
            d
        },
    };
    let ghost dir = path@;
    if path.len() > 0 && path[path.len() - 1] != 0x2f {
        path.push(0x2f);
    }
    let ghost opened = path@;
    path.extend_from_slice("picom-".as_bytes());
    path.extend_from_slice(name.as_bytes());
    assert(path@ =~= opened + ("picom-".spec_bytes() + name.spec_bytes()));
    path
}

/// How far the server has come up.
#[derive(Debug, Clone, Copy, PartialEq, Eq, Structural)]
pub enum ServerStep {
    Display,
    PidFile,
    PidWritten,
    PidRead,
    SocketRemoved,
    Published,
    Listening,
    Stopped,
}

/// What came of the last action.
#[derive(Debug)]
pub enum ServerEvent {
    /// The name of the display, if there is one.
    Display(Option<String>),
    /// The lock on the pid file was taken by this process.
    Locked { pid: u32 },
    /// Another process has the lock; the rendering of the error.
    NotLocked { error: String },
    PidWritten,
    /// What the other process wrote.
    PidRead(String),
    /// The old socket was removed, or there was none.
    SocketGone,
    /// The path of the socket was published on the compositor's window.
    Published,
    /// The last action failed.
    Failed,
}

/// What the server does next.
#[derive(Debug, PartialEq, Eq)]
pub enum ServerAction {
    /// Open the runtime file of this name and try to lock it.
    LockPidFile(String),
    WritePid(String),
    /// Read the pid file.
    ReadPid,
    /// Remove the runtime file of this name.
    RemoveSocket(String),
    /// Publish the path of the runtime file of this name.
    Publish(String),
    /// Listen on the runtime file of this name.
    Listen(String),
    /// Say this and stop: that is no failure.
    Decline(String),
}

/// The name of the socket.
pub open spec fn socket_name(display: Seq<char>) -> Seq<char> {
    "egl-screencast-"@ + display
}

/// What is said when another server runs.
pub open spec fn running_text(error: Seq<char>, pid: Seq<char>) -> Seq<char> {
    "Another instance of picom-egl-screencast is running: "@ + error + ", pid: "@ + pid
}

/// What is known while the server comes up.
#[verifier::ext_equal]
pub struct StartupView {
    pub step: ServerStep,
    pub name: Seq<char>,
    pub error: Seq<char>,
}

impl StartupView {
    pub open spec fn start() -> StartupView {
        StartupView { step: ServerStep::Display, name: Seq::empty(), error: Seq::empty() }
    }

    /// The event can come at this point.
    pub open spec fn expects(self, event: ServerEvent) -> bool {
        match event {
            ServerEvent::Display(_) => self.step == ServerStep::Display,
            ServerEvent::Locked { .. } => self.step == ServerStep::PidFile,
            ServerEvent::NotLocked { .. } => self.step == ServerStep::PidFile,
            ServerEvent::PidWritten => self.step == ServerStep::PidWritten,
            ServerEvent::PidRead(_) => self.step == ServerStep::PidRead,
            ServerEvent::SocketGone => self.step == ServerStep::SocketRemoved,
            ServerEvent::Published => self.step == ServerStep::Published,
            ServerEvent::Failed => true,
        }
    }

    /// What is known after an event.
    pub open spec fn after(self, event: ServerEvent) -> StartupView {
        match event {
            ServerEvent::Display(Some(display)) => StartupView {
                step: ServerStep::PidFile,
                name: socket_name(display@),
                ..self
            },
            ServerEvent::Display(None) => StartupView { step: ServerStep::Stopped, ..self },
            ServerEvent::Locked { .. } => StartupView { step: ServerStep::PidWritten, ..self },
            ServerEvent::NotLocked { error } => StartupView {
                step: ServerStep::PidRead,
                error: error@,
                ..self
            },
            ServerEvent::PidWritten => StartupView { step: ServerStep::SocketRemoved, ..self },
            ServerEvent::PidRead(_) => StartupView { step: ServerStep::Stopped, ..self },
            ServerEvent::SocketGone => StartupView { step: ServerStep::Published, ..self },
            ServerEvent::Published => StartupView { step: ServerStep::Listening, ..self },
            ServerEvent::Failed => StartupView { step: ServerStep::Stopped, ..self },
        }
    }

    /// What is done about an event; `None` where the server fails.
    pub open spec fn does(self, event: ServerEvent, action: Option<ServerAction>) -> bool {
        match event {
            ServerEvent::Display(Some(display)) => action matches Some(
                ServerAction::LockPidFile(n),
            ) && n@ == socket_name(display@) + ".pid"@,
            ServerEvent::Display(None) => action is None,
            ServerEvent::Locked { pid } => action matches Some(ServerAction::WritePid(t)) && t@
                == crate::text::decimal(pid as nat),
            ServerEvent::NotLocked { .. } => action matches Some(ServerAction::ReadPid),
            ServerEvent::PidWritten => action matches Some(ServerAction::RemoveSocket(n)) && n@
                == self.name,
            ServerEvent::PidRead(pid) => action matches Some(ServerAction::Decline(t)) && t@
                == running_text(self.error, pid@),
            ServerEvent::SocketGone => action matches Some(ServerAction::Publish(n)) && n@
                == self.name,
            ServerEvent::Published => action matches Some(ServerAction::Listen(n)) && n@
                == self.name,
            ServerEvent::Failed => action is None,
        }
    }

    /// After a run of events.
    pub open spec fn after_all(self, events: Seq<ServerEvent>) -> StartupView
        decreases events.len(),
    {
        if events.len() == 0 {
            self
        } else {
            self.after_all(events.drop_last()).after(events.last())
        }
    }

    /// Every event of a run can come when it does.
    pub open spec fn expects_all(self, events: Seq<ServerEvent>) -> bool
        decreases events.len(),
    {
        events.len() > 0 ==> {
            &&& self.expects_all(events.drop_last())
            &&& self.after_all(events.drop_last()).expects(events.last())
        }
    }
}

/// The server comes up step by step.
#[derive(Debug)]
pub struct Startup {
    step: ServerStep,
    name: String,
    error: String,
}

impl View for Startup {
    type V = StartupView;

    closed spec fn view(&self) -> StartupView {
        StartupView { step: self.step, name: self.name@, error: self.error@ }
    }
}

impl Startup {
    pub fn new() -> (s: Startup)
        ensures
            s@ == StartupView::start(),
    {
        let s = Startup { step: ServerStep::Display, name: String::new(), error: String::new() };
        assert(s@ =~= StartupView::start());
        s
    }

    /// Tells whether [`Startup::run`] may be called.
    pub fn can_run(&self, event: &ServerEvent) -> (yes: bool)
        ensures
            yes == self@.expects(*event),
    {
        match event {
            ServerEvent::Display(_) => self.step == ServerStep::Display,
            ServerEvent::Locked { .. } => self.step == ServerStep::PidFile,
            ServerEvent::NotLocked { .. } => self.step == ServerStep::PidFile,
            ServerEvent::PidWritten => self.step == ServerStep::PidWritten,
            ServerEvent::PidRead(_) => self.step == ServerStep::PidRead,
            ServerEvent::SocketGone => self.step == ServerStep::SocketRemoved,
            ServerEvent::Published => self.step == ServerStep::Published,
            ServerEvent::Failed => true,
        }
    }

    /// Decides what follows an event; `None` where the server fails.
    pub fn run(&mut self, event: ServerEvent) -> (action: Option<ServerAction>)
        requires
            old(self)@.expects(event),
        ensures
            final(self)@ == old(self)@.after(event),
            old(self)@.does(event, action),
    {
        let ghost before = self@;
        let action = match event {
            ServerEvent::Display(Some(display)) => {
                self.step = ServerStep::PidFile;
                self.name = join("egl-screencast-", display.as_str());
                Some(ServerAction::LockPidFile(join(self.name.as_str(), ".pid")))
            },
            ServerEvent::Locked { pid } => {
                self.step = ServerStep::PidWritten;
                Some(ServerAction::WritePid(decimal_string(pid as u64)))
            },
            ServerEvent::NotLocked { error } => {
                self.step = ServerStep::PidRead;
                self.error = error;
                Some(ServerAction::ReadPid)
            },
            ServerEvent::PidWritten => {
                self.step = ServerStep::SocketRemoved;
                Some(ServerAction::RemoveSocket(self.name.clone()))
            },
            ServerEvent::PidRead(pid) => {
                self.step = ServerStep::Stopped;
                let head = join(
                    "Another instance of picom-egl-screencast is running: ",
                    self.error.as_str(),
                );
                let text = join(join(head.as_str(), ", pid: ").as_str(), pid.as_str());
                Some(ServerAction::Decline(text))
            },
            ServerEvent::SocketGone => {
                self.step = ServerStep::Published;
                Some(ServerAction::Publish(self.name.clone()))
            },
            ServerEvent::Published => {
                self.step = ServerStep::Listening;
                Some(ServerAction::Listen(self.name.clone()))
            },
            _ => {
                self.step = ServerStep::Stopped;
                None
            },
        };
        assert(self@ =~= before.after(event));
        action
    }
}

/// A server only ever removes the socket, publishes its path or listens on it after
/// it took the lock: of two servers on one display the second leaves the first
/// alone.
pub proof fn only_the_locked_server_listens(events: Seq<ServerEvent>)
    requires
        StartupView::start().expects_all(events),
    ensures
        ({
            let now = StartupView::start().after_all(events);
            past_lock(now.step) ==> exists|i: int|
                0 <= i < events.len() && #[trigger] events[i] is Locked
        }),
    decreases events.len(),
{
    if events.len() > 0 {
        only_the_locked_server_listens(events.drop_last());
        let before = StartupView::start().after_all(events.drop_last());
        let now = StartupView::start().after_all(events);
        if past_lock(now.step) {
            if past_lock(before.step) {
                let i = choose|i: int|
                    0 <= i < events.drop_last().len() && #[trigger] events.drop_last()[i] is Locked;
                assert(events[i] is Locked);
            } else {
                assert(events[events.len() - 1] is Locked);
            }
        }
    }
}

/// The lock has been taken by this point.
pub open spec fn past_lock(step: ServerStep) -> bool {
    ||| step == ServerStep::PidWritten
    ||| step == ServerStep::SocketRemoved
    ||| step == ServerStep::Published
    ||| step == ServerStep::Listening
}

/// What comes of asking the PipeWire thread for one stream.
#[derive(Debug)]
pub enum StreamReply {
    Node(u32),
    /// No stream; the rendering of the error.
    Refused(String),
    /// The thread went away without an answer.
    Lost,
}

/// What the server does for a client.
#[derive(Debug)]
pub enum ClientAction {
    /// The client left without asking for anything: done.
    Finish,
    /// Ask the PipeWire thread for these streams, in order, and collect the answers.
    CreateStreams(Vec<MessagesToPipewire>),
    /// Answer the client and be done.
    Reply(ServerMessage),
}

/// Why a client is dropped without an answer.
#[derive(Debug)]
pub enum ClientError {
    /// What the client sent cannot be read.
    Unreadable,
    InvalidCookie(String),
    StreamLost,
}

impl ClientError {
    /// The error of a client with the wrong cookie, in words.
    pub fn message(&self) -> (s: Option<String>)
        ensures
            match *self {
                ClientError::InvalidCookie(cookie) => s matches Some(t) && t@ == "Invalid cookie "@
                    + cookie@,
                _ => s is None,
            },
    {
        match self {
            ClientError::InvalidCookie(cookie) => Some(join("Invalid cookie ", cookie.as_str())),
            _ => None,
        }
    }
}

/// The first thing that a client sends.
#[derive(Debug)]
pub enum ClientRequest {
    Left,
    Unreadable,
    Message(ClientMessage),
}

/// The request for the stream of one rectangle.
pub open spec fn stream_request(r: Rectangle, embed_cursor: bool) -> MessagesToPipewire {
    MessagesToPipewire::CreateStream {
        x: r.x,
        y: r.y,
        width: r.width,
        height: r.height,
        embed_cursor,
    }
}

/// The requests for the streams of a client, in the order of its rectangles.
pub open spec fn stream_requests(list: Seq<Rectangle>, embed_cursor: bool) -> Seq<
    MessagesToPipewire,
> {
    list.map_values(|r: Rectangle| stream_request(r, embed_cursor))
}

fn requests_for(rectangles: &RectangleList, embed_cursor: bool) -> (list: Vec<MessagesToPipewire>)
    ensures
        list@ == stream_requests(rectangles@, embed_cursor),
{
    let mut list: Vec<MessagesToPipewire> = Vec::new();
    let n: usize = rectangles.len();
    for i in 0..n
        invariant
            n == rectangles@.len(),
            list@ == stream_requests(rectangles@.take(i as int), embed_cursor),
    {
        let r = rectangles.get(i);
        list.push(
            MessagesToPipewire::CreateStream {
                x: r.x,
                y: r.y,
                width: r.width,
                height: r.height,
                embed_cursor,
            },
        );
        assert(list@ =~= stream_requests(rectangles@.take(i + 1), embed_cursor));
    }
    assert(rectangles@.take(n as int) =~= rectangles@);
    list
}

/// Decides what is done about the first thing that a client sends. Only a client
/// that knows the cookie gets anything.
pub fn on_client_request(our_cookie: &String, request: ClientRequest) -> (r: Result<
    ClientAction,
    ClientError,
>)
    ensures
        match request {
            ClientRequest::Left => r matches Ok(ClientAction::Finish),
            ClientRequest::Unreadable => r matches Err(ClientError::Unreadable),
            ClientRequest::Message(
                ClientMessage::CreateStream { cookie, rectangles, embed_cursor },
            ) => if cookie@ == our_cookie@ {
                r matches Ok(ClientAction::CreateStreams(list)) && list@ == stream_requests(
                    rectangles@,
                    embed_cursor,
                )
            } else {
                r matches Err(ClientError::InvalidCookie(c)) && c@ == our_cookie@
            },
        },
{
    match request {
        ClientRequest::Left => Ok(ClientAction::Finish),
        ClientRequest::Unreadable => Err(ClientError::Unreadable),
        ClientRequest::Message(ClientMessage::CreateStream { cookie, rectangles, embed_cursor }) => {
            if cookie != *our_cookie {
                return Err(ClientError::InvalidCookie(our_cookie.clone()));
            }
            Ok(ClientAction::CreateStreams(requests_for(&rectangles, embed_cursor)))
        },
    }
}

/// One stream is requested for each rectangle, in order: the `i`-th request is for the
/// place and the size of the `i`-th rectangle, with the cursor exactly where the client
/// asked for it.
pub proof fn every_rectangle_is_requested(list: Seq<Rectangle>, embed_cursor: bool, i: int)
    requires
        0 <= i < list.len(),
    ensures
        stream_requests(list, embed_cursor).len() == list.len(),
        stream_requests(list, embed_cursor)[i] matches MessagesToPipewire::CreateStream {
            x,
            y,
            width,
            height,
            embed_cursor: cursor,
        } && x == list[i].x && y == list[i].y && width == list[i].width && height == list[i].height
            && cursor == embed_cursor,
{
}

/// Without rectangles nothing is requested.
pub proof fn nothing_is_requested_unasked(embed_cursor: bool)
    ensures
        stream_requests(Seq::<Rectangle>::empty(), embed_cursor).len() == 0,
{
}

/// Some answer never came.
pub open spec fn some_lost(replies: Seq<StreamReply>) -> bool {
    exists|i: int| 0 <= i < replies.len() && #[trigger] replies[i] is Lost
}

/// The first refusal is the `i`-th answer.
pub open spec fn first_refusal(replies: Seq<StreamReply>, i: int) -> bool {
    &&& 0 <= i < replies.len()
    &&& replies[i] is Refused
    &&& forall|j: int| 0 <= j < i ==> !(#[trigger] replies[j] is Refused)
}

/// Every stream was made.
pub open spec fn all_nodes(replies: Seq<StreamReply>) -> bool {
    forall|i: int| 0 <= i < replies.len() ==> #[trigger] replies[i] is Node
}

/// The nodes of the streams, in order.
pub open spec fn nodes(replies: Seq<StreamReply>) -> Seq<u32> {
    replies.map_values(|r: StreamReply| r->Node_0)
}

/// Decides what a client is answered: all nodes, in the order of its rectangles, or
/// the first refusal. If an answer never came, the client gets none either.
pub fn on_stream_replies(replies: &Vec<StreamReply>) -> (r: Result<ClientAction, ClientError>)
    ensures
        some_lost(replies@) <==> r is Err,
        r matches Err(e) ==> e is StreamLost,
        !some_lost(replies@) && all_nodes(replies@) ==> (r matches Ok(
            ClientAction::Reply(ServerMessage::StreamCreated { node_ids }),
        ) && node_ids@ == nodes(replies@)),
        forall|i: int|
            !some_lost(replies@) && #[trigger] first_refusal(replies@, i) ==> (r matches Ok(
                ClientAction::Reply(ServerMessage::StreamCreationError { error }),
            ) && error@ == replies@[i]->Refused_0@),
{
    for i in 0..replies.len()
        invariant
            forall|j: int| 0 <= j < i ==> !(#[trigger] replies@[j] is Lost),
    {
        if matches!(replies[i], StreamReply::Lost) {
            assert(replies@[i as int] is Lost);
            return Err(ClientError::StreamLost);
        }
    }
    let mut node_ids: WordList = WordList::new();
    for i in 0..replies.len()
        invariant
            !some_lost(replies@),
            node_ids@ == nodes(replies@.take(i as int)),
            forall|j: int| 0 <= j < i ==> #[trigger] replies@[j] is Node,
    {
        match &replies[i] {
            StreamReply::Node(id) => {
                node_ids.push(*id);
                assert(node_ids@ =~= nodes(replies@.take(i + 1)));
            },
            StreamReply::Refused(error) => {
                assert(replies@[i as int] is Refused);
                assert forall|k: int| #[trigger] first_refusal(replies@, k) implies k == i by {
                    if k < i {
                        assert(replies@[k] is Node);
                    }
                }
                return Ok(
                    ClientAction::Reply(
                        ServerMessage::StreamCreationError { error: error.clone() },
                    ),
                );
            },
            StreamReply::Lost => {
                assert(replies@[i as int] is Lost);
            },
        }
    }
    assert(replies@.take(replies@.len() as int) =~= replies@);
    Ok(ClientAction::Reply(ServerMessage::StreamCreated { node_ids }))
}

/// Whatever the answers are, the client is dropped, told of all nodes, or told of
/// the first refusal: the cases leave nothing out.
pub proof fn stream_replies_are_exhaustive(replies: Seq<StreamReply>)
    ensures
        some_lost(replies) || all_nodes(replies) || exists|i: int| first_refusal(replies, i),
    decreases replies.len(),
{
    if replies.len() > 0 {
        let before = replies.drop_last();
        stream_replies_are_exhaustive(before);
        if some_lost(before) {
            let i = choose|i: int| 0 <= i < before.len() && #[trigger] before[i] is Lost;
            assert(replies[i] is Lost);
        } else if exists|i: int| first_refusal(before, i) {
            let i = choose|i: int| first_refusal(before, i);
            assert forall|j: int| 0 <= j < i implies !(#[trigger] replies[j] is Refused) by {
                assert(replies[j] == before[j]);
            }
            assert(replies[i] == before[i]);
            assert(first_refusal(replies, i));
        } else {
            let n = replies.len() - 1;
            assert forall|j: int| 0 <= j < n implies #[trigger] replies[j] is Node by {
                assert(replies[j] == before[j]);
            }
            if replies[n] is Refused {
                assert(first_refusal(replies, n));
            } else if replies[n] is Lost {
                assert(some_lost(replies));
            } else {
                assert(all_nodes(replies));
            }
        }
    }
}

/// The client is told each node at the place of its stream, and of none besides.
pub proof fn nodes_keep_their_places(replies: Seq<StreamReply>, i: int)
    requires
        all_nodes(replies),
        0 <= i < replies.len(),
    ensures
        nodes(replies).len() == replies.len(),
        replies[i] == StreamReply::Node(nodes(replies)[i]),
{
}

/// One answer that never came is enough to drop the client, wherever it stands; one
/// refusal is enough to tell the client so; and it is told of the first.
pub proof fn one_bad_answer_is_enough(replies: Seq<StreamReply>, i: int, j: int)
    requires
        0 <= i < replies.len(),
        0 <= j < replies.len(),
    ensures
        replies[i] is Lost ==> some_lost(replies),
        some_lost(replies) ==> exists|k: int| 0 <= k < replies.len() && #[trigger] replies[k] is Lost,
        !(replies[i] is Node) ==> !all_nodes(replies),
        first_refusal(replies, i) && replies[j] is Refused ==> i <= j,
        first_refusal(replies, i) ==> replies[i] is Refused,
        first_refusal(replies, i) && first_refusal(replies, j) ==> i == j,
{
}

/// A runtime file goes where the runtime directory has a place for it. Else its name, with
/// a prefix, ends the path, the temporary directory begins it, and what stands between is
/// the one slash that is needed to part them.
pub proof fn runtime_files_have_a_place(
    placed: Option<Seq<u8>>,
    tmpdir: Option<Seq<u8>>,
    name: Seq<u8>,
)
    ensures
        placed is Some ==> runtime_path(placed, tmpdir, name) == placed->0,
        placed is None ==> ({
            let path = runtime_path(placed, tmpdir, name);
            let dir = if tmpdir is Some {
                tmpdir->0
            } else {
                "/tmp".spec_bytes()
            };
            let file = "picom-".spec_bytes() + name;
            let d = dir.len() as int;
            let f = path.len() - file.len();
            &&& d <= f <= d + 1
            &&& path.take(d) == dir
            &&& path.skip(f) == file
            &&& f == d + 1 ==> path[d] == 0x2f
            &&& f == d <==> d == 0 || dir[d - 1] == 0x2f
        }),
{
    if placed is None {
        let path = runtime_path(placed, tmpdir, name);
        let dir = if tmpdir is Some {
            tmpdir->0
        } else {
            "/tmp".spec_bytes()
        };
        let file = "picom-".spec_bytes() + name;
        assert(path.take(dir.len() as int) =~= dir);
        assert(path.skip(path.len() - file.len()) =~= file);
    }
}

/// A server listens after exactly these steps, in this order, with nothing skipped and
/// nothing twice: it found its display, took the lock, wrote its pid, removed the old
/// socket and published the path of the new one. Whatever is done on the way is done
/// under the name of that display.
pub proof fn server_comes_up_in_order(events: Seq<ServerEvent>)
    requires
        StartupView::start().expects_all(events),
    ensures
        ({
            let now = StartupView::start().after_all(events);
            &&& events.len() > 0 && now.step != ServerStep::Stopped ==> {
                &&& events[0] is Display
                &&& events[0]->Display_0 is Some
                &&& now.name == "egl-screencast-"@ + events[0]->Display_0->0@
            }
            &&& now.step == ServerStep::Display <==> events.len() == 0
            &&& now.step == ServerStep::PidFile ==> events.len() == 1
            &&& now.step == ServerStep::PidRead ==> events.len() == 2 && events[1] is NotLocked
                && now.error == events[1]->NotLocked_error@
            &&& now.step == ServerStep::PidWritten ==> events.len() == 2 && events[1] is Locked
            &&& now.step == ServerStep::SocketRemoved ==> events.len() == 3 && events[1] is Locked
                && events[2] is PidWritten
            &&& now.step == ServerStep::Published ==> events.len() == 4 && events[1] is Locked
                && events[2] is PidWritten && events[3] is SocketGone
            &&& now.step == ServerStep::Listening ==> events.len() == 5 && events[1] is Locked
                && events[2] is PidWritten && events[3] is SocketGone && events[4] is Published
        }),
    decreases events.len(),
{
    if events.len() > 0 {
        let before = events.drop_last();
        server_comes_up_in_order(before);
        assert forall|i: int| 0 <= i < before.len() implies #[trigger] before[i] == events[i] by {}
        assert(events.last() == events[events.len() - 1]);
        if before.len() > 0 {
            assert(before[0] == events[0]);
        }
        if before.len() > 1 {
            assert(before[1] == events[1]);
        }
        if before.len() > 2 {
            assert(before[2] == events[2]);
        }
        if before.len() > 3 {
            assert(before[3] == events[3]);
        }
    }
}

/// The socket is removed, published and listened on under one name, that of the server,
/// and the file that is locked is named after the socket.
pub proof fn server_uses_one_name(
    v: StartupView,
    display: String,
    locked: ServerAction,
    event: ServerEvent,
    action: ServerAction,
)
    requires
        v.does(ServerEvent::Display(Some(display)), Some(locked)),
        v.does(event, Some(action)),
    ensures
        locked is LockPidFile,
        locked->LockPidFile_0@ == v.after(ServerEvent::Display(Some(display))).name + ".pid"@,
        event is PidWritten <==> action is RemoveSocket,
        event is SocketGone <==> action is Publish,
        event is Published <==> action is Listen,
        event is NotLocked <==> action is ReadPid,
        event is Locked <==> action is WritePid,
        event is PidRead <==> action is Decline,
        action is RemoveSocket ==> action->RemoveSocket_0@ == v.name,
        action is Publish ==> action->Publish_0@ == v.name,
        action is Listen ==> action->Listen_0@ == v.name,
        action is WritePid ==> action->WritePid_0@ == crate::text::decimal(event->pid as nat),
        action is Decline ==> action->Decline_0@
            == "Another instance of picom-egl-screencast is running: "@ + v.error + ", pid: "@
            + event->PidRead_0@,
{
}

/// Where something fails nothing more is done, and the server has stopped for good.
pub proof fn failed_server_stops(v: StartupView, action: Option<ServerAction>, event: ServerEvent)
    requires
        v.does(ServerEvent::Failed, action),
        v.after(ServerEvent::Failed).expects(event),
    ensures
        action is None,
        event is Failed,
{
}

} // verus!
