//! Length-delimited framing: four bytes of big-endian length, then the payload.
//! The client drives both directions through [`Picom`]; the server reads with
//! [`ReadSide`] and writes with [`encode_frame`].
use vstd::prelude::*;

verus! {

/// The big-endian bytes of `n`.
pub open spec fn be_bytes(n: u32) -> Seq<u8> {
    seq![
        (n / 0x100_0000) as u8,
        ((n / 0x1_0000) % 0x100) as u8,
        ((n / 0x100) % 0x100) as u8,
        (n % 0x100) as u8,
    ]
}

/// The number that four big-endian bytes stand for.
pub open spec fn be_value(b: Seq<u8>) -> int {
    b[0] * 0x100_0000 + b[1] * 0x1_0000 + b[2] * 0x100 + b[3]
}

/// The length that a frame announces for a payload of `n` bytes.
pub open spec fn announced(n: nat) -> u32 {
    (n % 0x1_0000_0000) as u32
}

/// What stands on the wire for one payload.
pub open spec fn frame(payload: Seq<u8>) -> Seq<u8> {
    be_bytes(announced(payload.len())) + payload
}

/// Reading back the big-endian bytes of a number gives the number.
pub proof fn be_roundtrip(n: u32)
    ensures
        be_bytes(n).len() == 4,
        be_value(be_bytes(n)) == n,
{
    let a = n / 0x100_0000;
    let b = (n / 0x1_0000) % 0x100;
    let c = (n / 0x100) % 0x100;
    let d = n % 0x100;
    assert(a < 0x100 && b < 0x100 && c < 0x100 && d < 0x100 && n == a * 0x100_0000 + b * 0x1_0000
        + c * 0x100 + d) by (bit_vector)
        requires
            a == n / 0x100_0000,
            b == (n / 0x1_0000) % 0x100,
            c == (n / 0x100) % 0x100,
            d == n % 0x100,
    ;
}

/// The first byte weighs most: the smaller of two numbers has the smaller byte where
/// their bytes first differ.
pub proof fn bytes_are_ordered_like_numbers(a: u32, b: u32) -> (i: int)
    requires
        a < b,
    ensures
        0 <= i < 4,
        forall|j: int| 0 <= j < i ==> be_bytes(a)[j] == be_bytes(b)[j],
        be_bytes(a)[i] < be_bytes(b)[i],
{
    let x = be_bytes(a);
    let y = be_bytes(b);
    be_roundtrip(a);
    be_roundtrip(b);
    if x[0] != y[0] {
        0
    } else if x[1] != y[1] {
        1
    } else if x[2] != y[2] {
        2
    } else {
        3
    }
}

/// A length is announced as it is where four bytes can hold it, and lengths that differ
/// by all that four bytes can count are announced alike.
pub proof fn lengths_are_announced(n: nat)
    ensures
        n < 0x1_0000_0000 ==> announced(n) == n,
        announced(n + 0x1_0000_0000) == announced(n),
{
}

/// The header of a frame announces the length of its payload, and what follows
/// the header is the payload, for every payload whose length four bytes can hold.
pub proof fn frame_is_self_delimiting(payload: Seq<u8>)
    requires
        payload.len() < 0x1_0000_0000,
    ensures
        frame(payload).len() == 4 + payload.len(),
        be_value(frame(payload).take(4)) == payload.len(),
        frame(payload).skip(4) == payload,
{
    let n = announced(payload.len());
    be_roundtrip(n);
    assert(frame(payload).take(4) == be_bytes(n));
    assert(frame(payload).skip(4) == payload);
}

/// However long a payload is, its frame is four bytes longer and carries all of it behind
/// these.
pub proof fn frame_carries_the_payload(payload: Seq<u8>)
    ensures
        frame(payload).len() == payload.len() + 4,
        frame(payload).skip(4) == payload,
        frame(payload).take(4) == be_bytes(announced(payload.len())),
{
    assert(frame(payload).skip(4) =~= payload);
    assert(frame(payload).take(4) =~= be_bytes(announced(payload.len())));
}

/// The bytes of `n`, most significant first.
pub fn to_be_bytes(n: u32) -> (b: [u8; 4])
    ensures
        b@ == be_bytes(n),
{
    let b: [u8; 4] = [
        (n / 0x100_0000) as u8,
        ((n / 0x1_0000) % 0x100) as u8,
        ((n / 0x100) % 0x100) as u8,
        (n % 0x100) as u8,
    ];
    assert(b@ =~= be_bytes(n));
    b
}

/// The number that the first four bytes of `b` stand for.
pub fn from_be_bytes(b: &[u8]) -> (n: u32)
    requires
        b@.len() >= 4,
    ensures
        n == be_value(b@),
{
    b[0] as u32 * 0x100_0000 + b[1] as u32 * 0x1_0000 + b[2] as u32 * 0x100 + b[3] as u32
}

/// The four bytes that announce a payload of `len` bytes.
pub fn frame_header(len: usize) -> (b: [u8; 4])
    ensures
        b@ == be_bytes(announced(len as nat)),
{
    let wide: u64 = len as u64;
    assert(wide as u32 == wide % 0x1_0000_0000u64) by (bit_vector);
    to_be_bytes(wide as u32)
}

/// The frame around a payload.
pub fn encode_frame(payload: &[u8]) -> (out: Vec<u8>)
    ensures
        out@ == frame(payload@),
{
    let header: [u8; 4] = frame_header(payload.len());
    let mut out: Vec<u8> = Vec::new();
    out.push(header[0]);
    out.push(header[1]);
    out.push(header[2]);
    out.push(header[3]);
    assert(out@ =~= be_bytes(announced(payload@.len())));
    out.extend_from_slice(payload);
    assert(out@ =~= frame(payload@));
    out
}

/// How far the reader has come: the announced length once the header is
/// complete, and the bytes of the current part (header or payload) so far.
#[verifier::ext_equal]
pub struct Reading {
    pub len: Option<u32>,
    pub got: Seq<u8>,
}

impl Reading {
    /// Nothing read yet.
    pub open spec fn start() -> Reading {
        Reading { len: None, got: Seq::empty() }
    }

    /// The size of the current part.
    pub open spec fn target(self) -> int {
        match self.len {
            Some(n) => n as int,
            None => 4,
        }
    }

    /// How many bytes of the current part are still to come.
    pub open spec fn wanted(self) -> int {
        self.target() - self.got.len()
    }

    pub open spec fn wf(self) -> bool {
        &&& self.wanted() >= 0
        &&& self.len is None ==> self.wanted() > 0
    }

    /// A whole payload is there.
    pub open spec fn complete(self) -> bool {
        self.len is Some && self.wanted() == 0
    }

    /// After `data` came in.
    pub open spec fn receive(self, data: Seq<u8>) -> Reading {
        let got = self.got + data;
        if self.len is None && got.len() == 4 {
            Reading { len: Some(be_value(got) as u32), got: Seq::empty() }
        } else {
            Reading { len: self.len, got }
        }
    }

    /// After a run of reads.
    pub open spec fn receive_all(self, chunks: Seq<Seq<u8>>) -> Reading
        decreases chunks.len(),
    {
        if chunks.len() == 0 {
            self
        } else {
            self.receive_all(chunks.drop_last()).receive(chunks.last())
        }
    }

    /// No read of the run returned more than was asked for.
    pub open spec fn fits(self, chunks: Seq<Seq<u8>>) -> bool
        decreases chunks.len(),
    {
        chunks.len() > 0 ==> {
            &&& self.fits(chunks.drop_last())
            &&& chunks.last().len() <= self.receive_all(chunks.drop_last()).wanted()
        }
    }
}

/// All bytes of a run of reads, in order.
pub open spec fn joined(chunks: Seq<Seq<u8>>) -> Seq<u8>
    decreases chunks.len(),
{
    if chunks.len() == 0 {
        Seq::empty()
    } else {
        joined(chunks.drop_last()) + chunks.last()
    }
}

/// Where the reader stands depends on the bytes alone, not on how the reads cut
/// them.
proof fn reading_depends_on_bytes(chunks: Seq<Seq<u8>>)
    requires
        Reading::start().fits(chunks),
    ensures
        ({
            let all = joined(chunks);
            let now = Reading::start().receive_all(chunks);
            &&& now.wf()
            &&& all.len() < 4 ==> now == (Reading { len: None, got: all })
            &&& all.len() >= 4 ==> now == (Reading {
                len: Some(be_value(all.take(4)) as u32),
                got: all.skip(4),
            })
        }),
    decreases chunks.len(),
{
    if chunks.len() > 0 {
        let before = chunks.drop_last();
        let data = chunks.last();
        reading_depends_on_bytes(before);
        let all0 = joined(before);
        let all = joined(chunks);
        let now0 = Reading::start().receive_all(before);
        let now = Reading::start().receive_all(chunks);
        assert(all == all0 + data);
        assert(now == now0.receive(data));
        if all0.len() < 4 {
            assert(now0.got + data == all);
            if all.len() == 4 {
                assert(all.take(4) == all);
                assert(all.skip(4) == Seq::<u8>::empty());
            }
        } else {
            assert(all.take(4) == all0.take(4));
            assert(all.skip(4) == all0.skip(4) + data);
        }
    }
}

/// What is written is what is read: however the reads cut the bytes of a frame,
/// the reader ends with the payload complete and unchanged.
pub proof fn reader_delivers_payload(payload: Seq<u8>, chunks: Seq<Seq<u8>>)
    requires
        payload.len() < 0x1_0000_0000,
        Reading::start().fits(chunks),
        joined(chunks) == frame(payload),
    ensures
        Reading::start().receive_all(chunks).complete(),
        Reading::start().receive_all(chunks).got == payload,
{
    frame_is_self_delimiting(payload);
    reading_depends_on_bytes(chunks);
}

/// The reader asks for what is missing, no less and no more: of the four bytes of the
/// header first, then of the payload whose length it read there; and it is done exactly
/// when it has the whole payload.
pub proof fn reader_asks_for_what_is_missing(r: Reading)
    requires
        r.wf(),
    ensures
        r.len is None ==> r.got.len() + r.wanted() == 4,
        r.len is Some ==> r.got.len() + r.wanted() == r.len->0,
        r.complete() <==> r.len is Some && r.got.len() == r.len->0,
        Reading::start().len is None,
        Reading::start().got.len() == 0,
        Reading::start().wf(),
{
}

/// A reader that has less than a frame has not got a payload: it keeps what it has, and
/// what the header announced.
pub proof fn reader_waits_for_the_rest(payload: Seq<u8>, chunks: Seq<Seq<u8>>)
    requires
        payload.len() < 0x1_0000_0000,
        Reading::start().fits(chunks),
        joined(chunks).len() < frame(payload).len(),
        joined(chunks) == frame(payload).take(joined(chunks).len() as int),
    ensures
        !Reading::start().receive_all(chunks).complete(),
        joined(chunks).len() >= 4 ==> Reading::start().receive_all(chunks).len == Some(
            payload.len() as u32,
        ) && Reading::start().receive_all(chunks).got == payload.take(joined(chunks).len() - 4),
{
    frame_is_self_delimiting(payload);
    reading_depends_on_bytes(chunks);
    let all = joined(chunks);
    if all.len() >= 4 {
        assert(all.take(4) =~= frame(payload).take(4));
        assert(all.skip(4) =~= payload.take(all.len() - 4));
    }
}

/// The bytes that a run of writes hands on, when each write takes `sizes[i]`
/// bytes from where the one before stopped.
pub open spec fn written(buf: Seq<u8>, from: int, sizes: Seq<nat>) -> Seq<u8>
    decreases sizes.len(),
{
    if sizes.len() == 0 {
        Seq::empty()
    } else {
        buf.subrange(from, from + sizes[0]) + written(buf, from + sizes[0], sizes.drop_first())
    }
}

pub open spec fn total(sizes: Seq<nat>) -> int
    decreases sizes.len(),
{
    if sizes.len() == 0 {
        0
    } else {
        sizes[0] + total(sizes.drop_first())
    }
}

/// Whatever the sizes of the single writes, once they add up to the whole buffer
/// the bytes handed on are the buffer.
pub proof fn writes_hand_on_everything(buf: Seq<u8>, from: int, sizes: Seq<nat>)
    requires
        0 <= from,
        from + total(sizes) == buf.len(),
    ensures
        written(buf, from, sizes) == buf.skip(from),
    decreases sizes.len(),
{
    if sizes.len() > 0 {
        total_nonnegative(sizes.drop_first());
        writes_hand_on_everything(buf, from + sizes[0], sizes.drop_first());
        assert(buf.subrange(from, from + sizes[0]) + buf.skip(from + sizes[0]) == buf.skip(from));
    } else {
        assert(buf.skip(from) == Seq::<u8>::empty());
    }
}

proof fn total_nonnegative(sizes: Seq<nat>)
    ensures
        total(sizes) >= 0,
    decreases sizes.len(),
{
    if sizes.len() > 0 {
        total_nonnegative(sizes.drop_first());
    }
}

/// What came of reading one part of a frame to its end.
#[derive(Debug)]
pub enum ReadOutcome {
    /// The part was read whole.
    Filled(Vec<u8>),
    /// The connection ended first.
    Eof,
    /// Reading failed otherwise.
    Failed,
}

/// What the server does after reading a part of a frame.
#[derive(Debug)]
pub enum ReadAction {
    /// Read the next part.
    Continue,
    /// Hand this payload on, then read the next part.
    Deliver(Vec<u8>),
    /// The client is gone: stop.
    Finish,
    /// Report the error and stop.
    Fail,
}

/// The server's reading end: it reads a header whole, then its payload whole.
pub struct ReadSide {
    body: Option<u32>,
}

impl ReadSide {
    /// The length of the payload that is being read, or `None` while it is a
    /// header.
    pub closed spec fn body(&self) -> Option<u32> {
        self.body
    }

    /// The size of the part that is being read.
    pub open spec fn part(&self) -> int {
        match self.body() {
            Some(n) => n as int,
            None => 4,
        }
    }

    pub fn new() -> (r: ReadSide)
        ensures
            r.body() is None,
    {
        ReadSide { body: None }
    }

    /// How many bytes to read.
    pub fn wanted(&self) -> (n: usize)
        ensures
            n == self.part(),
    {
        match self.body {
            Some(n) => n as usize,
            None => 4,
        }
    }

    /// Decides what follows a read. The end of the connection is no error while a
    /// header is read, not even in the middle of it.
    pub fn on_read(&mut self, outcome: ReadOutcome) -> (action: ReadAction)
        requires
            outcome matches ReadOutcome::Filled(b) ==> b@.len() == old(self).part(),
        ensures
            final(self).body() == next_body(old(self).body(), outcome),
            match outcome {
                ReadOutcome::Filled(b) => match old(self).body() {
                    None => action is Continue,
                    Some(_) => action matches ReadAction::Deliver(p) && p@ == b@,
                },
                ReadOutcome::Eof => if old(self).body() is None {
                    action is Finish
                } else {
                    action is Fail
                },
                ReadOutcome::Failed => action is Fail,
            },
    {
        match outcome {
            ReadOutcome::Filled(b) => match self.body {
                None => {
                    self.body = Some(from_be_bytes(b.as_slice()));
                    ReadAction::Continue
                },
                Some(_) => {
                    self.body = None;
                    ReadAction::Deliver(b)
                },
            },
            ReadOutcome::Eof => if self.body.is_none() {
                ReadAction::Finish
            } else {
                ReadAction::Fail
            },
            ReadOutcome::Failed => ReadAction::Fail,
        }
    }
}

/// The part that the server reads after `outcome`: a payload follows its header,
/// a header follows a payload.
pub open spec fn next_body(body: Option<u32>, outcome: ReadOutcome) -> Option<u32> {
    match outcome {
        ReadOutcome::Filled(b) => match body {
            None => Some(be_value(b@) as u32),
            Some(_) => None,
        },
        _ => body,
    }
}

/// The server reads back what was framed: after the header of a frame it asks for
/// as many bytes as the payload has, and those are the payload; after the payload
/// it is ready for the next frame.
pub proof fn server_reads_back_frame(payload: Seq<u8>, header: ReadOutcome, body: ReadOutcome)
    requires
        payload.len() < 0x1_0000_0000,
        header matches ReadOutcome::Filled(h) && h@ == frame(payload).take(4),
        body matches ReadOutcome::Filled(p) && p@ == frame(payload).skip(4),
    ensures
        next_body(None, header) == Some(payload.len() as u32),
        body->Filled_0@ == payload,
        next_body(next_body(None, header), body) is None,
{
    frame_is_self_delimiting(payload);
}

/// The server asks for a whole header or a whole payload, and where reading fails it is
/// still at the same part.
pub proof fn server_asks_for_whole_parts(side: ReadSide, outcome: ReadOutcome)
    ensures
        side.body() is None ==> side.part() == 4,
        side.body() is Some ==> side.part() == side.body()->0,
        !(outcome is Filled) ==> next_body(side.body(), outcome) == side.body(),
{
}

/// A queue after the frame of `payload` was laid over its start.
pub open spec fn overlaid(queue: Seq<u8>, payload: Seq<u8>) -> Seq<u8> {
    let covered = frame(payload).len() as int;
    if queue.len() > covered {
        frame(payload) + queue.skip(covered)
    } else {
        frame(payload)
    }
}

/// A frame that is queued is sent first and whole, alone where nothing was queued; what
/// was queued behind where it ends stays there, and nothing else does.
pub proof fn queued_frame_comes_first(queue: Seq<u8>, payload: Seq<u8>, i: int)
    ensures
        overlaid(queue, payload).take(frame(payload).len() as int) == frame(payload),
        queue.len() <= frame(payload).len() ==> overlaid(queue, payload) == frame(payload),
        queue.len() > frame(payload).len() ==> overlaid(queue, payload).len() == queue.len(),
        frame(payload).len() <= i < queue.len() ==> overlaid(queue, payload)[i] == queue[i],
{
    assert(overlaid(queue, payload).take(frame(payload).len() as int) =~= frame(payload));
}

/// The client's end of the connection: the payload being received and the frame
/// being sent.
pub struct Picom {
    cookie: String,
    buf: Vec<u8>,
    len: Option<u32>,
    out_buf: Vec<u8>,
    out_pos: usize,
}

impl Picom {
    /// The cookie that the compositor published.
    pub closed spec fn cookie_view(&self) -> Seq<char> {
        self.cookie@
    }

    pub closed spec fn reading(&self) -> Reading {
        Reading { len: self.len, got: self.buf@ }
    }

    /// The bytes queued for sending, those already sent included.
    pub closed spec fn queued(&self) -> Seq<u8> {
        self.out_buf@
    }

    /// How many of the queued bytes have been sent.
    pub closed spec fn sent(&self) -> int {
        self.out_pos as int
    }

    pub open spec fn wf(&self) -> bool {
        self.reading().wf()
    }

    pub fn new(cookie: String) -> (p: Picom)
        ensures
            p.wf(),
            p.cookie_view() == cookie@,
            p.reading() == Reading::start(),
            p.queued() == Seq::<u8>::empty(),
            p.sent() == 0,
    {
        let p = Picom { cookie, buf: Vec::new(), len: None, out_buf: Vec::new(), out_pos: 0 };
        assert(p.reading() =~= Reading::start());
        p
    }

    pub fn cookie(&self) -> (c: String)
        ensures
            c@ == self.cookie_view(),
    {
        self.cookie.clone()
    }

    /// How many bytes to ask the connection for.
    pub fn wanted(&self) -> (n: usize)
        requires
            self.wf(),
        ensures
            n == self.reading().wanted(),
    {
        match self.len {
            Some(len) => len as usize - self.buf.len(),
            None => 4 - self.buf.len(),
        }
    }

    /// Takes what the connection returned, and tells whether a whole payload is
    /// there now. A header alone never completes one, even if it announces no
    /// bytes: the payload is looked at with the next read.
    pub fn received(&mut self, data: &[u8]) -> (complete: bool)
        requires
            old(self).wf(),
            data@.len() <= old(self).reading().wanted(),
        ensures
            final(self).wf(),
            final(self).reading() == old(self).reading().receive(data@),
            complete == (old(self).reading().len is Some && final(self).reading().complete()),
            final(self).cookie_view() == old(self).cookie_view(),
            final(self).queued() == old(self).queued(),
            final(self).sent() == old(self).sent(),
    {
        let ghost before = self.reading();
        self.buf.extend_from_slice(data);
        assert(self.buf@ =~= before.got + data@);
        match self.len {
            Some(len) => self.buf.len() == len as usize,
            None => {
                if self.buf.len() == 4 {
                    self.len = Some(from_be_bytes(self.buf.as_slice()));
                    self.buf.clear();
                }
                assert(self.reading() =~= before.receive(data@));
                false
            },
        }
    }

    /// The payload that was received.
    pub fn message(&self) -> (payload: &[u8])
        ensures
            payload@ == self.reading().got,
    {
        self.buf.as_slice()
    }

    /// Moves on to the next frame, once the payload has been understood. A payload
    /// that is not accepted stays, and is seen again by the next read.
    pub fn accept(&mut self)
        ensures
            final(self).wf(),
            final(self).reading() == Reading::start(),
            final(self).cookie_view() == old(self).cookie_view(),
            final(self).queued() == old(self).queued(),
            final(self).sent() == old(self).sent(),
    {
        self.len = None;
        self.buf.clear();
        assert(self.reading() =~= Reading::start());
    }

    /// Queues one payload. The frame is laid over the queue from its start: when
    /// everything queued before was sent and dropped (see
    /// [`Picom::finish_sending`]), the queue is that frame; bytes of a longer
    /// queue that the frame does not reach stay behind it.
    pub fn start_send(&mut self, payload: &[u8])
        requires
            payload@.len() + 4 <= usize::MAX,
        ensures
            final(self).queued() == overlaid(old(self).queued(), payload@),
            final(self).sent() == old(self).sent(),
            final(self).reading() == old(self).reading(),
            final(self).cookie_view() == old(self).cookie_view(),
    {
        let ghost before = self.out_buf@;
        let mut out: Vec<u8> = encode_frame(payload);
        let covered: usize = out.len();
        if self.out_buf.len() > covered {
            let mut i: usize = covered;
            while i < self.out_buf.len()
                invariant
                    covered <= i <= self.out_buf@.len(),
                    covered == frame(payload@).len(),
                    out@ == frame(payload@) + self.out_buf@.subrange(covered as int, i as int),
                decreases self.out_buf@.len() - i,
            {
                out.push(self.out_buf[i]);
                i = i + 1;
                assert(out@ =~= frame(payload@) + self.out_buf@.subrange(covered as int, i as int));
            }
            assert(self.out_buf@.subrange(covered as int, i as int) =~= before.skip(
                covered as int,
            ));
        }
        self.out_buf = out;
        assert(self.out_buf@ =~= overlaid(before, payload@));
    }

    /// Tells whether queued bytes remain to be sent; if none do, the queue is
    /// dropped and the connection is ready for the next payload.
    pub fn finish_sending(&mut self) -> (more: bool)
        ensures
            more == (old(self).sent() < old(self).queued().len()),
            more ==> *final(self) == *old(self),
            !more ==> final(self).queued() == Seq::<u8>::empty() && final(self).sent() == 0,
            final(self).reading() == old(self).reading(),
            final(self).cookie_view() == old(self).cookie_view(),
    {
        if self.out_pos < self.out_buf.len() {
            return true;
        }
        self.out_buf.clear();
        self.out_pos = 0;
        false
    }

    /// The queued bytes that have not been sent.
    pub fn outgoing(&self) -> (rest: &[u8])
        requires
            self.sent() <= self.queued().len(),
        ensures
            rest@ == self.queued().skip(self.sent()),
    {
        let rest = vstd::slice::slice_subrange(
            self.out_buf.as_slice(),
            self.out_pos,
            self.out_buf.len(),
        );
        assert(rest@ =~= self.out_buf@.skip(self.out_pos as int));
        rest
    }

    /// Counts `n` more bytes as sent.
    pub fn wrote(&mut self, n: usize)
        requires
            old(self).sent() + n <= usize::MAX,
        ensures
            final(self).sent() == old(self).sent() + n,
            final(self).queued() == old(self).queued(),
            final(self).reading() == old(self).reading(),
            final(self).cookie_view() == old(self).cookie_view(),
    {
        self.out_pos = self.out_pos + n;
    }
}

} // verus!
