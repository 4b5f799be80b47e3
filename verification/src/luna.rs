//! Luna bus RPC over remote `luna-send` executions: command construction,
//! payload rendering, the one-shot call outcome, and the framing of the
//! streaming subscription output into newline-delimited messages.

use vstd::prelude::*;
use vstd::string::StringExecFns;

use crate::quote::{escaped_of, shell_escape};
use crate::session::SessionError;
use crate::text::{append_json_string, json_string};

verus! {

/// Why a Luna call failed.
#[derive(Debug)]
pub enum LunaError {
    Session(SessionError),
    Io(String),
    NotAvailable,
}

/// The empty JSON payload.
#[derive(Debug)]
pub struct LunaEmptyPayload {}

impl LunaEmptyPayload {
    /// Renders as the empty JSON object.
    pub fn render(&self) -> (r: String)
        ensures
            r@ == "{}"@,
    {
        String::from_str("{}")
    }
}

/// The remote command line for one Luna request: the public or private
/// bridge, one-shot or subscription mode, then the quoted URI and payload.
pub fn luna_command(public: bool, subscribe: bool, uri: &str, payload: &str) -> (r: String)
    ensures
        r@ == (if public {
            "luna-send-pub"@
        } else {
            "luna-send"@
        }) + (if subscribe {
            " -i "@
        } else {
            " -n 1 "@
        }) + escaped_of(uri@) + " "@ + escaped_of(payload@),
{
    let mut cmd = if public {
        String::from_str("luna-send-pub")
    } else {
        String::from_str("luna-send")
    };
    if subscribe {
        cmd.append(" -i ");
    } else {
        cmd.append(" -n 1 ");
    }
    let quoted_uri = shell_escape(uri);
    cmd.append(quoted_uri.as_str());
    cmd.append(" ");
    let quoted_payload = shell_escape(payload);
    cmd.append(quoted_payload.as_str());
    cmd
}

/// What a one-shot call hands back: with exit status zero the raw response
/// body for the caller to decode, with any other status the bus counts as
/// not available.
pub fn call_outcome(exit_code: i32, stdout: Vec<u8>) -> (r: Result<Vec<u8>, LunaError>)
    ensures
        exit_code == 0 ==> (r matches Ok(b) && b@ == stdout@),
        exit_code != 0 ==> (r matches Err(e) && e is NotAvailable),
{
    if exit_code == 0 {
        Ok(stdout)
    } else {
        Err(LunaError::NotAvailable)
    }
}

/// The install payload: the fixed install id, the uploaded package's remote
/// path, and the subscription flag.
pub fn install_payload(ipk_url: &str) -> (r: String)
    ensures
        r@ == "{\"id\":\"com.ares.defaultName\",\"ipkUrl\":"@ + json_string(ipk_url@)
            + ",\"subscribe\":true}"@,
{
    let mut s = String::from_str("{\"id\":\"com.ares.defaultName\",\"ipkUrl\":");
    append_json_string(&mut s, ipk_url);
    s.append(",\"subscribe\":true}");
    s
}

/// The remove payload: the package id and the subscription flag.
pub fn remove_payload(package_id: &str) -> (r: String)
    ensures
        r@ == "{\"id\":"@ + json_string(package_id@) + ",\"subscribe\":true}"@,
{
    let mut s = String::from_str("{\"id\":");
    append_json_string(&mut s, package_id);
    s.append(",\"subscribe\":true}");
    s
}

/// The launch and close payload: the app id, no subscription, and the
/// caller's parameter object when there is one (already rendered as JSON).
pub fn launch_payload(app_id: &str, params_json: Option<&String>) -> (r: String)
    ensures
        r@ == "{\"id\":"@ + json_string(app_id@) + ",\"subscribe\":false"@ + (match params_json {
            Some(p) => ",\"params\":"@ + p@,
            None => Seq::<char>::empty(),
        }) + "}"@,
{
    let mut s = String::from_str("{\"id\":");
    append_json_string(&mut s, app_id);
    s.append(",\"subscribe\":false");
    if let Some(p) = params_json {
        s.append(",\"params\":");
        s.append(p.as_str());
    }
    s.append("}");
    s
}

/// The index of the first newline byte, or the length when there is none.
pub open spec fn newline_at(s: Seq<u8>) -> nat
    decreases s.len(),
{
    if s.len() == 0 {
        0
    } else if s[0] == 10 {
        0
    } else {
        1 + newline_at(s.drop_first())
    }
}

pub proof fn lemma_newline_at(s: Seq<u8>)
    ensures
        newline_at(s) <= s.len(),
        newline_at(s) < s.len() ==> s[newline_at(s) as int] == 10,
        forall|j: int| 0 <= j < newline_at(s) ==> s[j] != 10,
    decreases s.len(),
{
    if s.len() != 0 && s[0] != 10 {
        lemma_newline_at(s.drop_first());
        assert forall|j: int| 0 <= j < newline_at(s) implies s[j] != 10 by {
            if j > 0 {
                assert(s.drop_first()[j - 1] != 10);
            }
        }
    }
}

/// The complete lines of a byte stream: each run of bytes up to but not
/// including a newline, in order; bytes after the last newline belong to no
/// line yet.
pub open spec fn complete_lines(s: Seq<u8>) -> Seq<Seq<u8>>
    decreases s.len(),
{
    if newline_at(s) >= s.len() {
        Seq::empty()
    } else {
        seq![s.take(newline_at(s) as int)] + complete_lines(s.skip(newline_at(s) + 1 as int))
    }
}

/// What remains after the last complete line: the pending partial line.
pub open spec fn pending_tail(s: Seq<u8>) -> Seq<u8>
    decreases s.len(),
{
    if newline_at(s) >= s.len() {
        s
    } else {
        pending_tail(s.skip(newline_at(s) + 1 as int))
    }
}

proof fn lemma_newline_at_concat(s: Seq<u8>, t: Seq<u8>)
    requires
        newline_at(s) < s.len(),
    ensures
        newline_at(s + t) == newline_at(s),
    decreases s.len(),
{
    lemma_newline_at(s);
    lemma_newline_at(s + t);
    let i = newline_at(s) as int;
    assert((s + t)[i] == 10);
    let k = newline_at(s + t) as int;
    if k < i {
        assert((s + t)[k] != 10);
        assert(false);
    }
    if k > i {
        assert((s + t)[i] != 10);
        assert(false);
    }
}

/// Framing is insensitive to chunk boundaries: the lines of a stream equal
/// the lines already framed from a first chunk followed by the lines framed
/// from the leftover tail together with the next chunk, and the pending
/// tails agree too. Feeding a stream in any pieces therefore yields the same
/// sequence of messages as framing the whole stream at once.
pub proof fn lemma_framing_chunked(s: Seq<u8>, t: Seq<u8>)
    ensures
        complete_lines(s + t) == complete_lines(s) + complete_lines(pending_tail(s) + t),
        pending_tail(s + t) == pending_tail(pending_tail(s) + t),
    decreases s.len(),
{
    lemma_newline_at(s);
    if newline_at(s) >= s.len() {
        assert(complete_lines(s) == Seq::<Seq<u8>>::empty());
        assert(pending_tail(s) == s);
        assert(complete_lines(s + t) =~~= complete_lines(s) + complete_lines(pending_tail(s) + t));
    } else {
        let i = newline_at(s) as int;
        lemma_newline_at_concat(s, t);
        assert((s + t).take(i) =~= s.take(i));
        assert((s + t).skip(i + 1) =~= s.skip(i + 1) + t);
        lemma_framing_chunked(s.skip(i + 1), t);
        assert(complete_lines(s + t) == seq![s.take(i)] + complete_lines(s.skip(i + 1) + t));
        assert(complete_lines(s) == seq![s.take(i)] + complete_lines(s.skip(i + 1)));
        assert(pending_tail(s) == pending_tail(s.skip(i + 1)));
        assert(complete_lines(s + t) =~~= complete_lines(s) + complete_lines(pending_tail(s) + t));
    }
}

proof fn lemma_pending_tail_no_newline(s: Seq<u8>)
    ensures
        newline_at(pending_tail(s)) >= pending_tail(s).len(),
    decreases s.len(),
{
    if newline_at(s) < s.len() {
        lemma_newline_at(s);
        lemma_pending_tail_no_newline(s.skip(newline_at(s) + 1 as int));
    }
}

/// The lines a reader frames from a stream delivered chunk by chunk,
/// carrying the pending tail from one chunk to the next.
pub open spec fn pump_lines(tail: Seq<u8>, chunks: Seq<Seq<u8>>) -> Seq<Seq<u8>>
    decreases chunks.len(),
{
    if chunks.len() == 0 {
        Seq::empty()
    } else {
        complete_lines(tail + chunks.first()) + pump_lines(
            pending_tail(tail + chunks.first()),
            chunks.drop_first(),
        )
    }
}

/// Framing a stream chunk by chunk yields exactly the lines of the whole
/// stream, however the chunk boundaries fall: the incremental reader and a
/// reference splitter of the concatenated bytes agree.
pub proof fn lemma_pump_lines_complete(tail: Seq<u8>, chunks: Seq<Seq<u8>>)
    requires
        newline_at(tail) >= tail.len(),
    ensures
        pump_lines(tail, chunks) == complete_lines(tail + chunks.flatten()),
    decreases chunks.len(),
{
    if chunks.len() == 0 {
        assert(tail + chunks.flatten() =~= tail);
        assert(complete_lines(tail) == Seq::<Seq<u8>>::empty());
    } else {
        let s = tail + chunks.first();
        let rest = chunks.drop_first().flatten();
        assert(tail + chunks.flatten() =~= s + rest);
        lemma_framing_chunked(s, rest);
        lemma_pending_tail_no_newline(s);
        lemma_pump_lines_complete(pending_tail(s), chunks.drop_first());
    }
}

/// The rolling buffer a subscription reads into: chunks of channel output
/// go in, complete newline-terminated lines come out.
pub struct LineBuffer {
    buf: Vec<u8>,
}

impl View for LineBuffer {
    type V = Seq<u8>;

    closed spec fn view(&self) -> Seq<u8> {
        self.buf@
    }
}

impl LineBuffer {
    /// An empty buffer.
    pub fn new() -> (r: LineBuffer)
        ensures
            r@ == Seq::<u8>::empty(),
    {
        LineBuffer { buf: Vec::new() }
    }

    /// True when nothing is buffered.
    pub fn is_empty(&self) -> (r: bool)
        ensures
            r == (self@.len() == 0),
    {
        self.buf.len() == 0
    }

    /// Appends one chunk of channel output.
    pub fn push_chunk(&mut self, chunk: &[u8])
        ensures
            final(self)@ == old(self)@ + chunk@,
    {
        self.buf.extend_from_slice(chunk);
        proof {
            assert(final(self)@ =~= old(self)@ + chunk@);
        }
    }

    /// Takes the first complete line out of the buffer: the bytes up to but
    /// not including the first newline, the buffer advancing past that
    /// newline. With no newline buffered yet, nothing changes.
    pub fn take_line(&mut self) -> (r: Option<Vec<u8>>)
        ensures
            ({
                let i = newline_at(old(self)@) as int;
                if i < old(self)@.len() {
                    r matches Some(line) && line@ == old(self)@.take(i) && final(self)@ == old(
                        self,
                    )@.skip(i + 1)
                } else {
                    r is None && final(self)@ == old(self)@
                }
            }),
    {
        proof {
            lemma_newline_at(self@);
        }
        let n = self.buf.len();
        let mut i: usize = 0;
        while i < n && self.buf[i] != 10
            invariant
                n == self.buf@.len(),
                i <= n,
                forall|j: int| 0 <= j < i ==> self.buf@[j] != 10,
                self.buf@ == old(self)@,
            decreases n - i,
        {
            i = i + 1;
        }
        proof {
            let p = newline_at(self@) as int;
            if i < n {
                assert(self.buf@[i as int] == 10);
                if p < i {
                    assert(self.buf@[p] != 10);
                    assert(false);
                }
                if p > i {
                    assert(self.buf@[i as int] != 10);
                    assert(false);
                }
            } else {
                if p < n {
                    assert(self.buf@[p] != 10);
                    assert(false);
                }
            }
        }
        if i >= n {
            return None;
        }
        let mut line: Vec<u8> = Vec::new();
        let mut k: usize = 0;
        while k < i
            invariant
                k <= i,
                i < self.buf@.len(),
                self.buf@ == old(self)@,
                line@ == self.buf@.take(k as int),
            decreases i - k,
        {
            line.push(self.buf[k]);
            proof {
                assert(line@ =~= self.buf@.take(k + 1));
            }
            k = k + 1;
        }
        let mut rest: Vec<u8> = Vec::new();
        let mut m: usize = i + 1;
        while m < n
            invariant
                i + 1 <= m <= n,
                n == self.buf@.len(),
                self.buf@ == old(self)@,
                rest@ == self.buf@.subrange(i + 1, m as int),
            decreases n - m,
        {
            rest.push(self.buf[m]);
            proof {
                assert(rest@ =~= self.buf@.subrange(i + 1, m + 1));
            }
            m = m + 1;
        }
        self.buf = rest;
        proof {
            assert(final(self)@ =~= old(self)@.skip(i + 1));
        }
        Some(line)
    }
}

/// The teardown a subscription performs when dropped, in order: send EOF,
/// send the TERM signal, close the channel. Each step is best-effort.
pub enum TeardownStep {
    SendEof,
    SignalTerm,
    Close,
}

/// The teardown sequence of a subscription.
pub fn teardown_steps() -> (r: Vec<TeardownStep>)
    ensures
        r@.len() == 3,
        r@[0] is SendEof,
        r@[1] is SignalTerm,
        r@[2] is Close,
{
    let mut v: Vec<TeardownStep> = Vec::new();
    v.push(TeardownStep::SendEof);
    v.push(TeardownStep::SignalTerm);
    v.push(TeardownStep::Close);
    v
}

} // verus!
