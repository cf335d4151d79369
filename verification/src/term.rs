//! Interactive-shell bridge over a pseudoterminal.
//!
//! One child process sits behind a pseudoterminal; a read pump forwards its
//! output to the connection and a write pump feeds client frames to it. The
//! decisions of both pumps are verified here as a state machine; the
//! unverified shell performs the actual reads, writes and process control.
//!
//! Lifecycle: `Unauthenticated` (when password protection is on) →
//! `Spawned` → `Running` → `Draining` → `Closed`. Whichever pump detects
//! termination moves the session to `Draining`; the other pump must observe
//! that and stop, and only then is the process reaped, once, in `Closed`.

use vstd::prelude::*;
use vstd::slice::slice_subrange;
use vstd::slice::slice_to_vec;
use vstd::string::StrSliceExecFns;
use crate::auth::spec_token_valid;
use crate::auth::validate_token;
use crate::text::str_is;

verus! {

/// Where the terminal session stands in its lifecycle.
#[derive(Clone, Copy, PartialEq, Eq, Structural, Debug)]
pub enum TermPhase {
    /// Password protection is on and no valid token frame has arrived yet.
    Unauthenticated,
    /// The child process may be started; the pumps are not running yet.
    Spawned,
    /// Both pumps are running.
    Running,
    /// One pump has detected termination; the other must stop next.
    Draining,
    /// Both pumps have stopped and the process has been reaped.
    Closed,
}

/// The terminal session's verified state: lifecycle phase and window size.
pub struct TermSession {
    pub phase: TermPhase,
    pub cols: u16,
    pub rows: u16,
}

/// One frame arriving from the client on the terminal endpoint, or the end
/// of that stream.
pub enum TermFrame {
    Text(String),
    Binary(Vec<u8>),
    /// The connection closed or failed.
    Closed,
}

/// What the write pump must do with the pseudoterminal next.
pub enum TermWrite {
    /// Apply this window size, `(cols, rows)`, to the pseudoterminal.
    Resize(u16, u16),
    /// Write these bytes to the pseudoterminal verbatim.
    Write(Vec<u8>),
    /// Write this text's bytes to the pseudoterminal verbatim.
    WriteText(String),
    /// Write the literal text `exit\n`, asking the shell to leave, since it
    /// does not reliably honor a termination signal.
    Exit,
    /// Nothing; the frame was malformed and is skipped.
    Ignore,
}

/// The window size named by a resize payload, or `None` when the payload is
/// not a `{"cols", "rows"}` object with values fitting sixteen bits. A
/// function of the text alone.
pub uninterp spec fn tty_size_of(s: Seq<char>) -> Option<(u16, u16)>;

/// Relies on serde_json::from_str: reads the `cols` and `rows` integer
/// members of a JSON object; the result depends on the text alone.
#[verifier::external_body]
fn parse_tty_size(s: &str) -> (r: Option<(u16, u16)>)
    ensures
        r == tty_size_of(s@),
{
    let v: serde_json::Value = serde_json::from_str(s).ok()?;
    let cols = u16::try_from(v.get("cols")?.as_u64()?).ok()?;
    let rows = u16::try_from(v.get("rows")?.as_u64()?).ok()?;
    Some((cols, rows))
}

/// `s` begins with the characters of `p`.
pub open spec fn spec_has_prefix(s: Seq<char>, p: Seq<char>) -> bool {
    s.len() >= p.len() && s.subrange(0, p.len() as int) == p
}

/// Tests a character prefix.
pub fn has_prefix(s: &str, p: &str) -> (r: bool)
    ensures
        r == spec_has_prefix(s@, p@),
{
    let pl = p.unicode_len();
    if s.unicode_len() < pl {
        return false;
    }
    str_is(s.substring_char(0, pl), p)
}

/// The first frame of a protected terminal session must be text of the form
/// `token<token>`, with a token valid at `now`.
pub open spec fn spec_term_auth(frame: Option<Seq<char>>, secret: Seq<char>, now: u64) -> bool {
    match frame {
        Some(s) => spec_has_prefix(s, "token"@) && spec_token_valid(
            s.skip("token"@.len() as int),
            secret,
            now,
        ),
        None => false,
    }
}

/// The bytes of a pseudoterminal read up to, and not including, the first
/// NUL byte: the terminal library pads unfilled read buffers with zeros.
pub open spec fn spec_until_nul(s: Seq<u8>) -> Seq<u8>
    decreases s.len(),
{
    if s.len() == 0 {
        s
    } else if s.first() == 0 {
        Seq::empty()
    } else {
        seq![s.first()] + spec_until_nul(s.drop_first())
    }
}

/// When the first `i` bytes are not NUL and byte `i` is NUL or the end, the
/// truncation is exactly the first `i` bytes.
proof fn lemma_until_nul_take(s: Seq<u8>, i: int)
    requires
        0 <= i <= s.len(),
        forall|j: int| 0 <= j < i ==> s[j] != 0,
        i == s.len() || s[i] == 0,
    ensures
        spec_until_nul(s) == s.take(i),
    decreases i,
{
    if i == 0 {
        if s.len() == 0 {
            assert(s.take(0) =~= s);
        } else {
            assert(s.take(0) =~= Seq::<u8>::empty());
        }
    } else {
        lemma_until_nul_take(s.drop_first(), i - 1);
        assert(seq![s.first()] + s.drop_first().take(i - 1) =~= s.take(i));
    }
}

/// Cuts a pseudoterminal read buffer at the first NUL byte.
pub fn truncate_at_nul(data: &[u8]) -> (r: Vec<u8>)
    ensures
        r@ == spec_until_nul(data@),
{
    let mut end: usize = 0;
    while end < data.len() && data[end] != 0
        invariant
            0 <= end <= data@.len(),
            forall|j: int| 0 <= j < end ==> data@[j] != 0,
        decreases data@.len() - end,
    {
        end = end + 1;
    }
    proof {
        lemma_until_nul_take(data@, end as int);
    }
    let r = slice_to_vec(slice_subrange(data, 0, end));
    assert(r@ =~= data@.take(end as int));
    r
}

/// The write pump's answer to one client frame: the session afterwards and
/// what to do with the pseudoterminal. A text frame opening with `size`
/// carries a resize payload; a well-formed one updates the window size and
/// nothing else, a malformed one is skipped and does not close the session.
/// Any other frame's bytes go to the pseudoterminal verbatim. The end of
/// the stream drains the session and asks the shell to exit.
pub open spec fn spec_term_frame_step(s: TermSession, frame: TermFrame) -> (TermSession, TermWrite) {
    match frame {
        TermFrame::Closed => (
            TermSession { phase: TermPhase::Draining, cols: s.cols, rows: s.rows },
            TermWrite::Exit,
        ),
        TermFrame::Binary(b) => (s, TermWrite::Write(b)),
        TermFrame::Text(t) => {
            if spec_has_prefix(t@, "size"@) {
                match tty_size_of(t@.skip("size"@.len() as int)) {
                    Some(size) => (
                        TermSession { phase: s.phase, cols: size.0, rows: size.1 },
                        TermWrite::Resize(size.0, size.1),
                    ),
                    None => (s, TermWrite::Ignore),
                }
            } else {
                (s, TermWrite::WriteText(t))
            }
        },
    }
}

impl TermSession {
    /// A fresh terminal session: it must authenticate first when password
    /// protection is on, otherwise the child may be started at once. The
    /// window size is unknown until the client resizes; 0×0 stands for it.
    pub fn new(pass: bool) -> (s: TermSession)
        ensures
            s.phase == if pass {
                TermPhase::Unauthenticated
            } else {
                TermPhase::Spawned
            },
            s.cols == 0 && s.rows == 0,
    {
        TermSession {
            phase: if pass {
                TermPhase::Unauthenticated
            } else {
                TermPhase::Spawned
            },
            cols: 0,
            rows: 0,
        }
    }

    /// Judges the first frame of a protected session. `frame` is `None` for
    /// a non-text frame. On success the child may be spawned; on failure
    /// the session closes without ever starting a process.
    pub fn authenticate(&mut self, frame: Option<&str>, secret: &str, now: u64) -> (ok: bool)
        requires
            old(self).phase is Unauthenticated,
        ensures
            ok == spec_term_auth(
                match frame {
                    Some(s) => Some(s@),
                    None => None,
                },
                secret@,
                now,
            ),
            final(self).phase == if ok {
                TermPhase::Spawned
            } else {
                TermPhase::Closed
            },
            final(self).cols == old(self).cols && final(self).rows == old(self).rows,
    {
        let ok = match frame {
            Some(s) => {
                if has_prefix(s, "token") {
                    let rest = s.substring_char("token".unicode_len(), s.unicode_len());
                    validate_token(rest, secret, now)
                } else {
                    false
                }
            },
            None => false,
        };
        self.phase = if ok {
            TermPhase::Spawned
        } else {
            TermPhase::Closed
        };
        ok
    }

    /// The child process has started and both pumps are about to run.
    pub fn start_running(&mut self)
        requires
            old(self).phase is Spawned,
        ensures
            final(self).phase is Running,
            final(self).cols == old(self).cols && final(self).rows == old(self).rows,
    {
        self.phase = TermPhase::Running;
    }

    /// Answers one client frame while the pumps run; see
    /// [`spec_term_frame_step`].
    pub fn on_client_frame(&mut self, frame: TermFrame) -> (w: TermWrite)
        requires
            old(self).phase is Running,
        ensures
            (*final(self), w) == spec_term_frame_step(*old(self), frame),
    {
        let ghost gframe = frame;
        match frame {
            TermFrame::Closed => {
                self.phase = TermPhase::Draining;
                TermWrite::Exit
            },
            TermFrame::Binary(b) => TermWrite::Write(b),
            TermFrame::Text(t) => {
                if has_prefix(t.as_str(), "size") {
                    let payload = t.as_str().substring_char(
                        "size".unicode_len(),
                        t.as_str().unicode_len(),
                    );
                    match parse_tty_size(payload) {
                        Some(size) => {
                            let (c, r) = size;
                            self.cols = c;
                            self.rows = r;
                            TermWrite::Resize(c, r)
                        },
                        None => TermWrite::Ignore,
                    }
                } else {
                    TermWrite::WriteText(t)
                }
            },
        }
    }

    /// Answers one pseudoterminal read while the pumps run, `data` being
    /// the bytes the read returned. A successful read of at least one byte
    /// in `Running` forwards the bytes up to the first NUL. A read error
    /// or end of stream — a successful read of no bytes — drains the
    /// session; a read made after the session started draining forwards
    /// nothing.
    pub fn on_pty_read(&mut self, read_ok: bool, data: &[u8]) -> (out: Option<Vec<u8>>)
        requires
            old(self).phase is Running || old(self).phase is Draining,
        ensures
            old(self).phase is Draining ==> out is None && final(self).phase is Draining,
            old(self).phase is Running && (!read_ok || data@.len() == 0) ==> out is None
                && final(self).phase is Draining,
            old(self).phase is Running && read_ok && data@.len() > 0 ==> final(self).phase
                is Running && (out matches Some(b) && b@ == spec_until_nul(data@)),
            final(self).cols == old(self).cols && final(self).rows == old(self).rows,
    {
        if matches!(self.phase, TermPhase::Draining) {
            return None;
        }
        if !read_ok || data.len() == 0 {
            self.phase = TermPhase::Draining;
            return None;
        }
        Some(truncate_at_nul(data))
    }

    /// The write pump reports one pseudoterminal write's outcome: a failed
    /// write is terminal for the bridge and drains the session; a
    /// successful one changes nothing.
    pub fn on_pty_write(&mut self, write_ok: bool)
        requires
            old(self).phase is Running || old(self).phase is Draining,
        ensures
            write_ok ==> final(self).phase == old(self).phase,
            !write_ok ==> final(self).phase is Draining,
            final(self).cols == old(self).cols && final(self).rows == old(self).rows,
    {
        if !write_ok {
            self.phase = TermPhase::Draining;
        }
    }

    /// Both pumps have stopped: the child is reaped, exactly once, and the
    /// session is closed.
    pub fn finish(&mut self)
        requires
            old(self).phase is Draining,
        ensures
            final(self).phase is Closed,
            final(self).cols == old(self).cols && final(self).rows == old(self).rows,
    {
        self.phase = TermPhase::Closed;
    }
}

/// A well-formed resize frame updates the window size and nothing else: the
/// session keeps running and no bytes are written or skipped. A malformed
/// resize payload changes nothing and does not close the session.
pub proof fn lemma_resize_updates_size_only(s: TermSession, t: String)
    requires
        spec_has_prefix(t@, "size"@),
    ensures
        tty_size_of(t@.skip("size"@.len() as int)) matches Some(size) ==> spec_term_frame_step(
            s,
            TermFrame::Text(t),
        ) == (
            TermSession { phase: s.phase, cols: size.0, rows: size.1 },
            TermWrite::Resize(size.0, size.1),
        ),
        tty_size_of(t@.skip("size"@.len() as int)) is None ==> spec_term_frame_step(
            s,
            TermFrame::Text(t),
        ) == (s, TermWrite::Ignore),
{
}

} // verus!
