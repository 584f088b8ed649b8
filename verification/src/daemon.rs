//! Messages between a running daemon and later invocations: each message is
//! sent as its length in four big-endian bytes followed by its bytes.
use vstd::prelude::*;
use crate::error::{SherlockError, SherlockErrorType};
use vstd::utf8::{decode_utf8, valid_utf8};

verus! {

/// Where the daemon listens.
pub const SOCKET_PATH: &'static str = "/tmp/sherlock_daemon.socket";

/// Where the sockets for answers are made.
pub const SOCKET_DIR: &'static str = "/tmp/";

/// The four big-endian bytes of `n`.
pub open spec fn be_bytes(n: nat) -> Seq<u8> {
    seq![
        (n / 0x100_0000 % 0x100) as u8,
        (n / 0x1_0000 % 0x100) as u8,
        (n / 0x100 % 0x100) as u8,
        (n % 0x100) as u8,
    ]
}

/// The number that four big-endian bytes denote.
pub open spec fn be_value(b: Seq<u8>) -> nat {
    (b[0] as nat) * 0x100_0000 + (b[1] as nat) * 0x1_0000 + (b[2] as nat) * 0x100 + (b[3] as nat)
}

/// A message as it goes over the socket.
pub open spec fn frame(msg: Seq<u8>) -> Seq<u8> {
    be_bytes(msg.len()) + msg
}

/// What the front of `buf` holds: the message of the first frame and the
/// number of bytes that frame takes, or `None` where the frame is not
/// complete.
pub open spec fn unframe(buf: Seq<u8>) -> Option<(Seq<u8>, nat)> {
    if buf.len() < 4 {
        None
    } else {
        let n = be_value(buf.take(4));
        if buf.len() < 4 + n {
            None
        } else {
            Some((buf.subrange(4, (4 + n) as int), (4 + n) as nat))
        }
    }
}

fn socket_write_error(traceback: &str) -> (r: SherlockError)
    ensures
        r.error matches SherlockErrorType::SocketWriteError(p) && p@ == SOCKET_PATH@,
        r.traceback@ == traceback@,
{
    SherlockError {
        error: SherlockErrorType::SocketWriteError(String::from_str(SOCKET_PATH)),
        traceback: String::from_str(traceback),
    }
}

/// The bytes that send `msg`; a message longer than a four-byte length can
/// tell is refused.
pub fn encode_frame(msg: &[u8]) -> (r: Result<Vec<u8>, SherlockError>)
    ensures
        match r {
            Ok(v) => msg@.len() <= u32::MAX && v@ == frame(msg@),
            Err(e) => msg@.len() > u32::MAX && e.error is SocketWriteError,
        },
{
    let len = msg.len();
    if len > 0xffff_ffffusize {
        return Err(socket_write_error("message too large"));
    }
    let n = len as u64;
    let mut v: Vec<u8> = Vec::new();
    v.push((n / 0x100_0000 % 0x100) as u8);
    v.push((n / 0x1_0000 % 0x100) as u8);
    v.push((n / 0x100 % 0x100) as u8);
    v.push((n % 0x100) as u8);
    let mut i: usize = 0;
    while i < msg.len()
        invariant
            i <= msg@.len(),
            v@ == be_bytes(msg@.len()) + msg@.take(i as int),
        decreases msg@.len() - i,
    {
        v.push(msg[i]);
        i = i + 1;
        assert(v@ =~= be_bytes(msg@.len()) + msg@.take(i as int));
    }
    assert(msg@.take(msg@.len() as int) =~= msg@);
    Ok(v)
}

/// The length that a four-byte header announces.
pub fn frame_len(header: [u8; 4]) -> (r: u32)
    ensures
        r == be_value(header@),
{
    let r: u64 = (header[0] as u64) * 0x100_0000 + (header[1] as u64) * 0x1_0000 + (header[2] as u64)
        * 0x100 + (header[3] as u64);
    r as u32
}

/// Reads the first frame at the front of `buf`.
pub fn decode_frame(buf: &[u8]) -> (r: Option<(Vec<u8>, usize)>)
    ensures
        match r {
            Some((m, k)) => unframe(buf@) == Some((m@, k as nat)),
            None => unframe(buf@) is None,
        },
{
    if buf.len() < 4 {
        return None;
    }
    let n = frame_len([buf[0], buf[1], buf[2], buf[3]]);
    assert(buf@.take(4) =~= seq![buf@[0], buf@[1], buf@[2], buf@[3]]);
    let need: u64 = 4 + n as u64;
    if (buf.len() as u64) < need {
        return None;
    }
    let end = need as usize;
    let mut m: Vec<u8> = Vec::new();
    let mut i: usize = 4;
    while i < end
        invariant
            4 <= i <= end <= buf@.len(),
            m@ == buf@.subrange(4, i as int),
        decreases end - i,
    {
        m.push(buf[i]);
        i = i + 1;
        assert(m@ =~= buf@.subrange(4, i as int));
    }
    Some((m, end))
}

/// The four-byte header carries the length of the message.
pub proof fn lemma_header_round_trip(n: nat)
    requires
        n <= u32::MAX,
    ensures
        be_value(be_bytes(n)) == n,
{
    let b = be_bytes(n);
    assert(b[0] as nat == n / 0x100_0000 % 0x100);
    assert(b[1] as nat == n / 0x1_0000 % 0x100);
    assert(b[2] as nat == n / 0x100 % 0x100);
    assert(b[3] as nat == n % 0x100);
}

/// Reading what was sent gives back the message, whatever follows it.
pub proof fn lemma_frame_round_trip(msg: Seq<u8>, rest: Seq<u8>)
    requires
        msg.len() <= u32::MAX,
    ensures
        unframe(frame(msg) + rest) == Some((msg, (4 + msg.len()) as nat)),
{
    lemma_header_round_trip(msg.len());
    let buf = frame(msg) + rest;
    assert(buf.take(4) =~= be_bytes(msg.len()));
    assert(buf.subrange(4, (4 + msg.len()) as int) =~= msg);
}

/// Messages come out in the order they went in: after the first frame is
/// read, what is left starts with the second.
#[verifier::spinoff_prover]
pub proof fn lemma_frames_in_order(first: Seq<u8>, second: Seq<u8>)
    requires
        first.len() <= u32::MAX,
        second.len() <= u32::MAX,
    ensures
        unframe(frame(first) + frame(second)) == Some((first, (4 + first.len()) as nat)),
        (frame(first) + frame(second)).skip((4 + first.len()) as int) == frame(second),
{
    let a = frame(first);
    let b = frame(second);
    assert(a.len() == 4 + first.len());
    lemma_frame_round_trip(first, b);
    assert((a + b).skip(a.len() as int) =~= b);
}

/// Sending and receiving length-prefixed messages.
pub trait SizedMessage {
    fn write_sized(&mut self, buf: &[u8]) -> Result<(), SherlockError>;

    fn read_sized(&mut self) -> Result<Vec<u8>, SherlockError>;
}

/// Bytes in transit: what was written and not yet read.
pub struct MessageBuffer {
    pub pending: Vec<u8>,
}

impl SizedMessage for MessageBuffer {
    /// Appends the frame of `buf`.
    fn write_sized(&mut self, buf: &[u8]) -> (r: Result<(), SherlockError>)
        ensures
            r is Ok ==> final(self).pending@ == old(self).pending@ + frame(buf@),
            r is Err ==> final(self).pending@ == old(self).pending@ && buf@.len() > u32::MAX,
    {
        match encode_frame(buf) {
            Ok(f) => {
                let mut k: usize = 0;
                let ghost start = self.pending@;
                while k < f.len()
                    invariant
                        k <= f@.len(),
                        self.pending@ == start + f@.take(k as int),
                    decreases f@.len() - k,
                {
                    self.pending.push(f[k]);
                    k = k + 1;
                    assert(self.pending@ =~= start + f@.take(k as int));
                }
                assert(f@.take(f@.len() as int) =~= f@);
                Ok(())
            },
            Err(e) => Err(e),
        }
    }

    /// Takes the first message; fails, taking nothing, where no whole frame
    /// is pending.
    fn read_sized(&mut self) -> (r: Result<Vec<u8>, SherlockError>)
        ensures
            match r {
                Ok(m) => unframe(old(self).pending@) matches Some((msg, k)) && m@ == msg
                    && final(self).pending@ == old(self).pending@.skip(k as int),
                Err(e) => unframe(old(self).pending@) is None && final(self).pending@ == old(
                    self,
                ).pending@ && e.error is SocketWriteError,
            },
    {
        match decode_frame(self.pending.as_slice()) {
            None => Err(socket_write_error("failed to fill whole buffer")),
            Some((m, k)) => {
                let mut rest: Vec<u8> = Vec::new();
                let mut i: usize = k;
                while i < self.pending.len()
                    invariant
                        k <= i <= self.pending@.len(),
                        rest@ == self.pending@.subrange(k as int, i as int),
                    decreases self.pending@.len() - i,
                {
                    rest.push(self.pending[i]);
                    i = i + 1;
                    assert(rest@ =~= self.pending@.subrange(k as int, i as int));
                }
                assert(rest@ =~= self.pending@.skip(k as int));
                self.pending = rest;
                Ok(m)
            },
        }
    }
}

/// The request that a second invocation sends to a running daemon when it
/// has nothing piped: show the window.
pub const SHOW_REQUEST: &'static str = "\"Show\"";

/// The answer that ends a piped invocation.
pub const EXIT_ANSWER: &'static str = "EXIT";

/// The socket on which a piped invocation waits for answers.
pub fn pipe_socket_path() -> (r: String)
    ensures
        r@ == SOCKET_DIR@ + "sherlock-pipe.socket"@,
{
    let mut s = String::from_str(SOCKET_DIR);
    s.append("sherlock-pipe.socket");
    s
}

/// Whether a received answer ends the wait: it is `EXIT` once surrounding
/// whitespace is dropped.
pub fn is_exit_answer(answer: &str) -> (r: bool)
    ensures
        r == (crate::text::trim(answer@) == EXIT_ANSWER@),
{
    let t = crate::text::trim_str(answer);
    crate::text::str_eq(t.as_str(), EXIT_ANSWER)
}

/// The daemon, which removes its socket when it ends.
pub struct SherlockDaemon {
    pub socket: String,
}

/// What `String::from_utf8_lossy` makes of some bytes.
pub uninterp spec fn lossy_text(bytes: Seq<u8>) -> Seq<char>;

/// Calls `String::from_utf8_lossy`.
///
/// Trusted: the text is a function of the bytes alone; as documented,
/// valid UTF-8 is decoded as it is. How invalid sequences are replaced is
/// not restated.
#[verifier::external_body]
pub fn utf8_lossy(bytes: &[u8]) -> (r: String)
    ensures
        r@ == lossy_text(bytes@),
        valid_utf8(bytes@) ==> r@ == decode_utf8(bytes@),
{
    String::from_utf8_lossy(bytes).to_string()
}

/// What the daemon passes on of a received message: its text without
/// surrounding whitespace; an empty message ends the connection.
pub fn daemon_message(buf: &[u8]) -> (r: Option<String>)
    ensures
        match r {
            Some(t) => buf@.len() > 0 && t@ == crate::text::trim(lossy_text(buf@)),
            None => buf@.len() == 0,
        },
{
    if buf.len() == 0 {
        return None;
    }
    let t = utf8_lossy(buf);
    Some(crate::text::trim_str(t.as_str()))
}

/// The requests a second start sends to the running daemon: with nothing
/// piped, only the request to show the window; else the socket to answer
/// on, the piped bytes, then the request to show.
pub fn instance_messages(pipe: &[u8], socket_request: &[u8]) -> (r: Vec<Vec<u8>>)
    ensures
        pipe@.len() == 0 ==> r@.len() == 1 && r@[0]@ == SHOW_REQUEST@.map_values(|c: char| c as u8),
        pipe@.len() > 0 ==> r@.len() == 3 && r@[0]@ == socket_request@ && r@[1]@ == pipe@
            && r@[2]@ == SHOW_REQUEST@.map_values(|c: char| c as u8),
{
    proof {
        reveal_strlit("\"Show\"");
    }
    let show: Vec<u8> = vec![34u8, 83u8, 104u8, 111u8, 119u8, 34u8];
    assert(show@ =~= SHOW_REQUEST@.map_values(|c: char| c as u8));
    let mut out: Vec<Vec<u8>> = Vec::new();
    if pipe.len() == 0 {
        out.push(show);
    } else {
        out.push(vstd::slice::slice_to_vec(socket_request));
        out.push(vstd::slice::slice_to_vec(pipe));
        out.push(show);
    }
    out
}

} // verus!
