//! How the client finds the compositor: the owner of the compositor selection
//! publishes a cookie and the path of a socket.
use crate::frame::{Picom, Reading};
use crate::text::utf8_string;
use vstd::prelude::*;

verus! {

/// The window that is none, and the type of a property that is not there.
pub const X11_NONE: u32 = 0;

/// The most words that are read of a cookie.
pub const COOKIE_WORDS: u32 = 128;

/// The most words that are read of the path of a socket.
pub const SOCKET_WORDS: u32 = 1024;

/// A property of a window, as the X server returns it.
#[derive(Debug)]
pub struct PropertyReply {
    pub type_: u32,
    pub value: Vec<u8>,
}

/// What the X server answered.
#[derive(Debug)]
pub enum ConnectEvent {
    /// The owner of the compositor selection.
    Owner(u32),
    Cookie(PropertyReply),
    Socket(PropertyReply),
}

/// What the client does next.
#[derive(Debug)]
pub enum ConnectAction {
    /// Read the cookie from this window, up to this many words of four bytes.
    ReadCookie { window: u32, words: u32 },
    /// Read the path of the socket from this window, up to this many words of four
    /// bytes.
    ReadSocket { window: u32, words: u32 },
    /// Connect to the socket at this path.
    Connect(Vec<u8>),
}

/// Why the compositor was not found.
#[derive(Debug)]
pub enum ConnectError {
    NoCompositor,
    NoCookie,
    NoSocket,
    /// The cookie is no text.
    InvalidCookie(String),
}

impl ConnectError {
    pub open spec fn text(self) -> Seq<char> {
        match self {
            ConnectError::NoCompositor => "No compatible compositor found"@,
            ConnectError::NoCookie => "No cookie found"@,
            ConnectError::NoSocket => "No socket found"@,
            ConnectError::InvalidCookie(e) => e@,
        }
    }

    /// The error in words.
    pub fn message(&self) -> (s: String)
        ensures
            s@ == self.text(),
    {
        match self {
            ConnectError::NoCompositor => "No compatible compositor found".to_owned(),
            ConnectError::NoCookie => "No cookie found".to_owned(),
            ConnectError::NoSocket => "No socket found".to_owned(),
            ConnectError::InvalidCookie(e) => e.clone(),
        }
    }
}

/// What the client has found out.
#[verifier::ext_equal]
pub struct ConnectView {
    pub owner: Option<u32>,
    /// The bytes of the cookie.
    pub cookie: Option<Seq<u8>>,
    /// The cookie as text, once everything is found.
    pub found: Option<Seq<char>>,
}

impl ConnectView {
    /// The answer belongs to what was asked last.
    pub open spec fn expects(self, event: ConnectEvent) -> bool {
        match event {
            ConnectEvent::Owner(_) => self.owner is None,
            ConnectEvent::Cookie(_) => self.owner is Some && self.cookie is None,
            ConnectEvent::Socket(_) => self.owner is Some && self.cookie is Some && self.found
                is None,
        }
    }
}

/// The search for the compositor.
#[derive(Debug)]
pub struct Connecting {
    owner: Option<u32>,
    cookie: Option<Vec<u8>>,
    found: Option<String>,
}

impl View for Connecting {
    type V = ConnectView;

    closed spec fn view(&self) -> ConnectView {
        ConnectView {
            owner: self.owner,
            cookie: match self.cookie {
                Some(c) => Some(c@),
                None => None,
            },
            found: match self.found {
                Some(c) => Some(c@),
                None => None,
            },
        }
    }
}

impl Connecting {
    pub fn new() -> (c: Connecting)
        ensures
            c@ == (ConnectView { owner: None, cookie: None, found: None }),
    {
        Connecting { owner: None, cookie: None, found: None }
    }

    /// Tells whether [`Connecting::on_reply`] may be called.
    pub fn can_reply(&self, event: &ConnectEvent) -> (yes: bool)
        ensures
            yes == self@.expects(*event),
    {
        match event {
            ConnectEvent::Owner(_) => self.owner.is_none(),
            ConnectEvent::Cookie(_) => self.owner.is_some() && self.cookie.is_none(),
            ConnectEvent::Socket(_) => self.owner.is_some() && self.cookie.is_some()
                && self.found.is_none(),
        }
    }

    /// Decides what follows an answer of the X server. Whether the cookie is text is
    /// looked at last.
    pub fn on_reply(&mut self, event: ConnectEvent) -> (r: Result<ConnectAction, ConnectError>)
        requires
            old(self)@.expects(event),
        ensures
            r is Err ==> final(self)@ == old(self)@,
            match event {
                ConnectEvent::Owner(w) => if w == X11_NONE {
                    r matches Err(ConnectError::NoCompositor)
                } else {
                    &&& r matches Ok(ConnectAction::ReadCookie { window, words }) && window == w
                        && words == COOKIE_WORDS
                    &&& final(self)@ == (ConnectView { owner: Some(w), ..old(self)@ })
                },
                ConnectEvent::Cookie(p) => if p.type_ == X11_NONE {
                    r matches Err(ConnectError::NoCookie)
                } else {
                    &&& r matches Ok(ConnectAction::ReadSocket { window, words }) && Some(window)
                        == old(self)@.owner && words == SOCKET_WORDS
                    &&& final(self)@ == (ConnectView { cookie: Some(p.value@), ..old(self)@ })
                },
                ConnectEvent::Socket(p) => if p.type_ == X11_NONE {
                    r matches Err(ConnectError::NoSocket)
                } else if !vstd::utf8::valid_utf8(old(self)@.cookie->0) {
                    r matches Err(ConnectError::InvalidCookie(e)) && e@ == crate::text::utf8_error_text(
                        old(self)@.cookie->0,
                    )
                } else {
                    &&& r matches Ok(ConnectAction::Connect(path)) && path@ == p.value@
                    &&& final(self)@ == (ConnectView {
                        found: Some(vstd::utf8::decode_utf8(old(self)@.cookie->0)),
                        ..old(self)@
                    })
                },
            },
    {
        match event {
            ConnectEvent::Owner(w) => {
                if w == X11_NONE {
                    return Err(ConnectError::NoCompositor);
                }
                self.owner = Some(w);
                Ok(ConnectAction::ReadCookie { window: w, words: COOKIE_WORDS })
            },
            ConnectEvent::Cookie(p) => {
                if p.type_ == X11_NONE {
                    return Err(ConnectError::NoCookie);
                }
                self.cookie = Some(p.value);
                match self.owner {
                    Some(w) => Ok(ConnectAction::ReadSocket { window: w, words: SOCKET_WORDS }),
                    None => Err(ConnectError::NoCompositor),
                }
            },
            ConnectEvent::Socket(p) => {
                if p.type_ == X11_NONE {
                    return Err(ConnectError::NoSocket);
                }
                let mut bytes: Vec<u8> = Vec::new();
                if let Some(c) = &self.cookie {
                    bytes.extend_from_slice(c.as_slice());
                    assert(bytes@ =~= c@);
                }
                match utf8_string(bytes) {
                    Ok(cookie) => {
                        self.found = Some(cookie);
                        Ok(ConnectAction::Connect(p.value))
                    },
                    Err(e) => Err(ConnectError::InvalidCookie(e)),
                }
            },
        }
    }

    /// The client's end of the connection, once it is made.
    pub fn into_picom(self) -> (p: Option<Picom>)
        ensures
            p is Some <==> self@.found is Some,
            p matches Some(c) ==> {
                &&& c.wf()
                &&& c.cookie_view() == self@.found->0
                &&& c.reading() == Reading::start()
                &&& c.queued() == Seq::<u8>::empty()
                &&& c.sent() == 0
            },
    {
        match self.found {
            Some(cookie) => Some(Picom::new(cookie)),
            None => None,
        }
    }
}

/// A character takes at most four bytes.
proof fn encoding_is_short(chars: Seq<char>)
    ensures
        vstd::utf8::encode_utf8(chars).len() <= 4 * chars.len(),
    decreases chars.len(),
{
    if chars.len() > 0 {
        encoding_is_short(chars.drop_first());
    }
}

/// A client that finds the plugin knows its cookie: the bytes of a cookie are read
/// whole, are text, and are that cookie.
pub proof fn published_cookie_is_recovered(cookie: Seq<char>)
    requires
        crate::server::is_cookie(cookie),
    ensures
        vstd::utf8::encode_utf8(cookie).len() <= 4 * COOKIE_WORDS,
        vstd::utf8::valid_utf8(vstd::utf8::encode_utf8(cookie)),
        vstd::utf8::decode_utf8(vstd::utf8::encode_utf8(cookie)) == cookie,
{
    encoding_is_short(cookie);
    vstd::utf8::encode_utf8_valid_utf8(cookie);
    vstd::utf8::encode_utf8_decode_utf8(cookie);
}

/// At every point one kind of answer is expected, until everything is found: the owner,
/// then the cookie, then the socket.
pub proof fn answers_come_in_order(v: ConnectView, event: ConnectEvent)
    requires
        v.cookie is Some ==> v.owner is Some,
        v.found is Some ==> v.cookie is Some,
    ensures
        v.owner is None ==> (v.expects(event) <==> event is Owner),
        v.owner is Some && v.cookie is None ==> (v.expects(event) <==> event is Cookie),
        v.cookie is Some && v.found is None ==> (v.expects(event) <==> event is Socket),
        v.found is Some ==> !v.expects(event),
{
}

} // verus!
