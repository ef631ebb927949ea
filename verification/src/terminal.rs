//! The interactive session manager: a registry of concurrent pseudo-terminal
//! sessions behind a non-blocking create/write/read/resize/rename/close
//! interface.
//!
//! Each session owns a pty pair, a synchronized writer, the consuming end of
//! its delivery channel, and the pump thread draining the pty.  The registry
//! holds the records in creation order under unique string identifiers.  The
//! mathematical model of a session ([`SessionView`]) carries the history of
//! fully flushed input bytes and the undecoded carry bytes of the output
//! stream, so that ordering, reassembly and bookkeeping can be stated and
//! proved.

use vstd::prelude::*;
use vstd::string::StringSliceAdditionalSpecFns;
use vstd::*;

use crate::error::TerminalError;
use crate::platform::shell_invocation;
use crate::platform::spec_shell_invocation;
use crate::pty;
use crate::strutil::str_eq;
use crate::utf8_stream::complete_prefix_end;
use crate::utf8_stream::complete_prefix_len;
use crate::utf8_stream::decode_lossy;
use crate::utf8_stream::incomplete_tail_len;
use crate::utf8_stream::lemma_carry_wf;
use crate::utf8_stream::lossy_decode;
use vstd::utf8::encode_utf8;

verus! {

/// What kind of process backs a session.
#[derive(Debug, Clone, PartialEq)]
pub enum SessionType {
    /// A shell on this machine.
    Local,
    /// A remote execution context; carried as metadata only.
    K8s { pod: String, container: String, namespace: String },
}

/// The mathematical value of a [`SessionType`].
#[verifier::ext_equal]
pub enum SessionTypeView {
    Local,
    K8s { pod: Seq<char>, container: Seq<char>, namespace: Seq<char> },
}

impl View for SessionType {
    type V = SessionTypeView;

    open spec fn view(&self) -> SessionTypeView {
        match self {
            SessionType::Local => SessionTypeView::Local,
            SessionType::K8s { pod, container, namespace } => (SessionTypeView::K8s {
                pod: pod@,
                container: container@,
                namespace: namespace@,
            }),
        }
    }
}

impl SessionType {
    /// A copy whose value the verifier knows equals this one's.
    pub fn duplicate(&self) -> (r: SessionType)
        ensures
            r@ == self@,
    {
        match self {
            SessionType::Local => SessionType::Local,
            SessionType::K8s { pod, container, namespace } => SessionType::K8s {
                pod: pod.clone(),
                container: container.clone(),
                namespace: namespace.clone(),
            },
        }
    }
}

/// The metadata of a session, as handed to callers.
#[derive(Debug, Clone)]
pub struct TerminalSessionInfo {
    /// The opaque unique identifier, the sole external handle.
    pub id: String,
    /// What backs the session; immutable after creation.
    pub session_type: SessionType,
    /// The display name; the only mutable metadata.
    pub name: String,
    /// Creation time, in whole seconds since the Unix epoch.
    pub created_at: u64,
}

/// The mathematical value of a [`TerminalSessionInfo`].
#[verifier::ext_equal]
pub struct SessionInfoView {
    pub id: Seq<char>,
    pub session_type: SessionTypeView,
    pub name: Seq<char>,
    pub created_at: u64,
}

impl View for TerminalSessionInfo {
    type V = SessionInfoView;

    open spec fn view(&self) -> SessionInfoView {
        SessionInfoView {
            id: self.id@,
            session_type: self.session_type@,
            name: self.name@,
            created_at: self.created_at,
        }
    }
}

/// One pty session: metadata, the owned OS resources, and the model state.
struct PtySession {
    id: String,
    session_type: SessionType,
    name: String,
    created_at: u64,
    rows: u16,
    cols: u16,
    master: pty::PtyMaster,
    writer: pty::PtyWriter,
    receiver: std::sync::mpsc::Receiver<Vec<u8>>,
    /// Held for lifetime tracking only; the pump is never joined or
    /// cancelled — it ends on end-of-stream, read error, or when this
    /// record (and with it the receiver) is dropped.
    _pump: thread::JoinHandle<()>,
    /// Output bytes already drained from the channel but held back because
    /// they end inside a multi-byte character.
    carry: Vec<u8>,
    /// The history of input bytes fully written and flushed to the pty.
    written: Ghost<Seq<u8>>,
}

/// The mathematical value of a session record.
#[verifier::ext_equal]
pub struct SessionView {
    pub id: Seq<char>,
    pub session_type: SessionTypeView,
    pub name: Seq<char>,
    pub created_at: u64,
    pub rows: u16,
    pub cols: u16,
    pub written: Seq<u8>,
    pub carry: Seq<u8>,
}

impl SessionView {
    /// The metadata slice of the model.
    pub open spec fn info(self) -> SessionInfoView {
        SessionInfoView {
            id: self.id,
            session_type: self.session_type,
            name: self.name,
            created_at: self.created_at,
        }
    }
}

impl View for PtySession {
    type V = SessionView;

    closed spec fn view(&self) -> SessionView {
        SessionView {
            id: self.id@,
            session_type: self.session_type@,
            name: self.name@,
            created_at: self.created_at,
            rows: self.rows,
            cols: self.cols,
            written: self.written@,
            carry: self.carry@,
        }
    }
}

/// The index of the first session with this identifier, or -1.
pub open spec fn find_idx(s: Seq<SessionView>, id: Seq<char>) -> int
    decreases s.len(),
{
    if s.len() == 0 {
        -1
    } else if s[0].id == id {
        0
    } else {
        let r = find_idx(s.drop_first(), id);
        if r < 0 {
            -1
        } else {
            r + 1
        }
    }
}

/// Whether a session with this identifier is registered.
pub open spec fn contains_id(s: Seq<SessionView>, id: Seq<char>) -> bool {
    find_idx(s, id) >= 0
}

/// What `find_idx` finds: a match at the returned index, or no match at all.
pub proof fn lemma_find_idx(s: Seq<SessionView>, id: Seq<char>)
    ensures
        contains_id(s, id) ==> 0 <= find_idx(s, id) < s.len() && s[find_idx(s, id)].id == id,
        !contains_id(s, id) ==> forall|i: int| 0 <= i < s.len() ==> (#[trigger] s[i]).id != id,
    decreases s.len(),
{
    if s.len() > 0 && s[0].id != id {
        lemma_find_idx(s.drop_first(), id);
        if !contains_id(s, id) {
            assert forall|i: int| 0 <= i < s.len() implies (#[trigger] s[i]).id != id by {
                if i > 0 {
                    assert(s[i] == s.drop_first()[i - 1]);
                }
            }
        }
    }
}

/// `find_idx` returns the first match.
pub proof fn lemma_find_idx_first(s: Seq<SessionView>, id: Seq<char>, i: int)
    requires
        0 <= i < s.len(),
        s[i].id == id,
        forall|j: int| 0 <= j < i ==> (#[trigger] s[j]).id != id,
    ensures
        find_idx(s, id) == i,
    decreases s.len(),
{
    if i > 0 {
        assert(forall|j: int|
            0 <= j < i - 1 ==> #[trigger] s.drop_first()[j] == s[j + 1]);
        assert(s.drop_first()[i - 1] == s[i]);
        lemma_find_idx_first(s.drop_first(), id, i - 1);
    }
}

/// The session registry and manager: the public operation surface.
pub struct TerminalManager {
    sessions: Vec<PtySession>,
}

impl View for TerminalManager {
    type V = Seq<SessionView>;

    closed spec fn view(&self) -> Seq<SessionView> {
        Seq::new(self.sessions@.len(), |i: int| self.sessions@[i]@)
    }
}

/// Registry invariant: identifiers are unique, and every carry buffer is
/// wholly an incomplete scalar encoding (at most three bytes).
pub open spec fn wf_registry(s: Seq<SessionView>) -> bool {
    &&& forall|i: int, j: int|
        #![trigger s[i].id, s[j].id]
        0 <= i < j < s.len() ==> s[i].id != s[j].id
    &&& forall|i: int|
        0 <= i < s.len() ==> incomplete_tail_len((#[trigger] s[i]).carry) == s[i].carry.len()
}

/// The registry after removing the session with this identifier, if any.
pub open spec fn remove_id(s: Seq<SessionView>, id: Seq<char>) -> Seq<SessionView> {
    if contains_id(s, id) {
        s.remove(find_idx(s, id))
    } else {
        s
    }
}

/// Replacing one record, its identifier and carry well-formedness kept,
/// preserves the registry invariant.
proof fn lemma_wf_update(s: Seq<SessionView>, i: int, v: SessionView)
    requires
        wf_registry(s),
        0 <= i < s.len(),
        v.id == s[i].id,
        incomplete_tail_len(v.carry) == v.carry.len(),
    ensures
        wf_registry(s.update(i, v)),
{
    let t = s.update(i, v);
    assert forall|p: int, q: int|
        0 <= p < q < t.len() implies #[trigger] t[p].id != #[trigger] t[q].id by {
        assert(s[p].id != s[q].id);
    }
}

/// Removing one record preserves the registry invariant.
proof fn lemma_wf_remove(s: Seq<SessionView>, i: int)
    requires
        wf_registry(s),
        0 <= i < s.len(),
    ensures
        wf_registry(s.remove(i)),
{
    let t = s.remove(i);
    assert forall|p: int, q: int|
        0 <= p < q < t.len() implies #[trigger] t[p].id != #[trigger] t[q].id by {
        let p0 = if p < i {
            p
        } else {
            p + 1
        };
        let q0 = if q < i {
            q
        } else {
            q + 1
        };
        assert(t[p] == s[p0] && t[q] == s[q0]);
        assert(s[p0].id != s[q0].id);
    }
    assert forall|p: int|
        0 <= p < t.len() implies incomplete_tail_len((#[trigger] t[p]).carry)
        == t[p].carry.len() by {
        let p0 = if p < i {
            p
        } else {
            p + 1
        };
        assert(t[p] == s[p0]);
    }
}

/// After removing every record under an identifier, none carries it.
proof fn lemma_remove_id_erases(s: Seq<SessionView>, id: Seq<char>)
    requires
        wf_registry(s),
    ensures
        forall|i: int|
            0 <= i < remove_id(s, id).len() ==> (#[trigger] remove_id(s, id)[i]).id != id,
        wf_registry(remove_id(s, id)),
{
    lemma_find_idx(s, id);
    if contains_id(s, id) {
        let f = find_idx(s, id);
        lemma_wf_remove(s, f);
        let t = s.remove(f);
        assert forall|i: int| 0 <= i < t.len() implies (#[trigger] t[i]).id != id by {
            let i0 = if i < f {
                i
            } else {
                i + 1
            };
            assert(t[i] == s[i0]);
            assert(i0 != f);
            if s[i0].id == id {
                if i0 < f {
                    assert(s[i0].id != s[f].id);
                } else {
                    assert(s[f].id != s[i0].id);
                }
            }
        }
    }
}

/// Appending a record whose identifier is absent preserves the invariant.
proof fn lemma_wf_push(s: Seq<SessionView>, v: SessionView)
    requires
        wf_registry(s),
        forall|i: int| 0 <= i < s.len() ==> (#[trigger] s[i]).id != v.id,
        incomplete_tail_len(v.carry) == v.carry.len(),
    ensures
        wf_registry(s.push(v)),
{
    let t = s.push(v);
    assert forall|p: int, q: int|
        0 <= p < q < t.len() implies #[trigger] t[p].id != #[trigger] t[q].id by {
        if q < s.len() {
            assert(s[p].id != s[q].id);
        } else {
            assert(t[q] == v && t[p] == s[p]);
        }
    }
    assert forall|p: int|
        0 <= p < t.len() implies incomplete_tail_len((#[trigger] t[p]).carry)
        == t[p].carry.len() by {
        if p < s.len() {
            assert(t[p] == s[p]);
        }
    }
}

/// One session's read/poll step: only the carry buffer moves, and it moves
/// exactly as the chunked-decoding policy says for the bytes drained from
/// the delivery channel in this call.
pub open spec fn read_transition(
    pre: SessionView,
    post: SessionView,
    drained: Seq<u8>,
    disc: bool,
    out: Seq<char>,
) -> bool {
    let buf = pre.carry + drained;
    let cut = complete_prefix_end(buf);
    if disc {
        buf.len() > 0 && out == lossy_decode(buf) && post == (SessionView {
            carry: Seq::<u8>::empty(),
            ..pre
        })
    } else {
        out == lossy_decode(buf.take(cut)) && post == (SessionView { carry: buf.skip(cut), ..pre })
    }
}

/// The decision core of the poll-read: given the carry bytes held back by
/// the previous read, the chunks drained from the delivery channel now, and
/// whether the channel reported disconnection, produce the text to return
/// and the new carry.
///
/// Disconnected with nothing at all buffered is the `Closed` signal;
/// disconnected with remaining bytes flushes everything, lossily, so the
/// caller still receives the final output of a dead session.  While
/// connected, a trailing incomplete character is withheld rather than
/// corrupted.
pub fn assemble_read(carry: &Vec<u8>, drained: Vec<u8>, disconnected: bool) -> (r: (
    Result<String, TerminalError>,
    Vec<u8>,
))
    ensures
        ({
            let buf = carry@ + drained@;
            let cut = complete_prefix_end(buf);
            &&& incomplete_tail_len(r.1@) == r.1@.len()
            &&& if disconnected {
                &&& r.1@ == Seq::<u8>::empty()
                &&& if buf.len() == 0 {
                    r.0 == Err::<String, TerminalError>(TerminalError::Closed)
                } else {
                    r.0 matches Ok(s) && s@ == lossy_decode(buf)
                }
            } else {
                &&& (r.0 matches Ok(s) && s@ == lossy_decode(buf.take(cut)))
                &&& r.1@ == buf.skip(cut)
            }
        }),
{
    let mut buf: Vec<u8> = Vec::new();
    buf.extend_from_slice(carry.as_slice());
    let ghost d0 = drained@;
    let mut drained = drained;
    buf.append(&mut drained);
    proof {
        assert(buf@ =~= carry@ + d0);
    }
    if disconnected {
        if buf.len() == 0 {
            (Err(TerminalError::Closed), Vec::new())
        } else {
            let s = decode_lossy(buf.as_slice());
            (Ok(s), Vec::new())
        }
    } else {
        let ghost whole = buf@;
        let split = complete_prefix_len(buf.as_slice());
        let tail = buf.split_off(split);
        proof {
            lemma_carry_wf(whole);
            assert(buf@ =~= whole.take(complete_prefix_end(whole)));
            assert(tail@ =~= whole.skip(complete_prefix_end(whole)));
        }
        let s = decode_lossy(buf.as_slice());
        (Ok(s), tail)
    }
}

impl TerminalManager {
    /// Registry invariant; see [`wf_registry`].
    pub open spec fn wf(&self) -> bool {
        wf_registry(self@)
    }

    /// An empty registry.
    pub fn new() -> (r: Self)
        ensures
            r@ =~= Seq::<SessionView>::empty(),
            r.wf(),
    {
        let r = TerminalManager { sessions: Vec::new() };
        proof {
            assert(r@ =~= Seq::<SessionView>::empty());
        }
        r
    }

    /// The index of the session with this identifier, if any.
    fn find_session(&self, session_id: &str) -> (r: Option<usize>)
        ensures
            match r {
                Some(i) => i < self@.len() && find_idx(self@, session_id@) == i,
                None => !contains_id(self@, session_id@),
            },
    {
        let n = self.sessions.len();
        let mut i: usize = 0;
        while i < n
            invariant
                i <= n,
                n == self@.len(),
                n == self.sessions@.len(),
                forall|j: int| 0 <= j < i ==> (#[trigger] self@[j]).id != session_id@,
            decreases n - i,
        {
            if str_eq(self.sessions[i].id.as_str(), session_id) {
                proof {
                    assert(self@[i as int].id == session_id@);
                    lemma_find_idx_first(self@, session_id@, i as int);
                }
                return Some(i);
            }
            proof {
                assert(self@[i as int].id != session_id@);
            }
            i = i + 1;
        }
        proof {
            if contains_id(self@, session_id@) {
                lemma_find_idx(self@, session_id@);
            }
        }
        None
    }

    /// A snapshot of every session's metadata, in creation order.
    pub fn get_all_sessions(&self) -> (r: Vec<TerminalSessionInfo>)
        ensures
            r@.len() == self@.len(),
            forall|i: int| 0 <= i < r@.len() ==> (#[trigger] r@[i])@ == self@[i].info(),
    {
        let n = self.sessions.len();
        let mut r: Vec<TerminalSessionInfo> = Vec::new();
        let mut i: usize = 0;
        while i < n
            invariant
                i <= n,
                n == self.sessions@.len(),
                n == self@.len(),
                r@.len() == i,
                forall|j: int| 0 <= j < i ==> (#[trigger] r@[j])@ == self@[j].info(),
            decreases n - i,
        {
            let s = &self.sessions[i];
            let info = TerminalSessionInfo {
                id: s.id.clone(),
                session_type: s.session_type.duplicate(),
                name: s.name.clone(),
                created_at: s.created_at,
            };
            proof {
                assert(info@ == self@[i as int].info());
            }
            r.push(info);
            i = i + 1;
        }
        r
    }

    /// Renames a session; display metadata only, no effect on the process.
    pub fn rename_session(&mut self, session_id: &str, new_name: String) -> (r: Result<
        (),
        TerminalError,
    >)
        requires
            old(self).wf(),
        ensures
            final(self).wf(),
            (match r {
                Ok(()) => {
                    let i = find_idx(old(self)@, session_id@);
                    &&& contains_id(old(self)@, session_id@)
                    &&& final(self)@ == old(self)@.update(
                        i,
                        (SessionView { name: new_name@, ..old(self)@[i] }),
                    )
                },
                Err(TerminalError::NotFound) => !contains_id(old(self)@, session_id@) && final(self)@ == old(self)@,
                Err(_) => false,
            }),
    {
        let idx = match self.find_session(session_id) {
            Some(i) => i,
            None => {
                return Err(TerminalError::NotFound);
            },
        };
        proof {
            lemma_find_idx(self@, session_id@);
        }
        let mut sess = self.sessions.remove(idx);
        sess.name = new_name;
        self.sessions.insert(idx, sess);
        proof {
            assert(final(self)@ =~= old(self)@.update(
                idx as int,
                (SessionView { name: new_name@, ..old(self)@[idx as int] }),
            ));
            lemma_wf_update(
                old(self)@,
                idx as int,
                (SessionView { name: new_name@, ..old(self)@[idx as int] }),
            );
        }
        Ok(())
    }

    /// Removes a session's record.  Dropping it drops the write handle and
    /// the channel consumer, which lets the pump thread end once the child
    /// exits; the child is not forcibly killed.
    pub fn close_session(&mut self, session_id: &str) -> (r: Result<(), TerminalError>)
        requires
            old(self).wf(),
        ensures
            final(self).wf(),
            (match r {
                Ok(()) => contains_id(old(self)@, session_id@) && final(self)@ == old(self)@.remove(
                    find_idx(old(self)@, session_id@),
                ),
                Err(TerminalError::NotFound) => !contains_id(old(self)@, session_id@) && final(self)@ == old(self)@,
                Err(_) => false,
            }),
    {
        let idx = match self.find_session(session_id) {
            Some(i) => i,
            None => {
                return Err(TerminalError::NotFound);
            },
        };
        proof {
            lemma_find_idx(self@, session_id@);
        }
        let _ = self.sessions.remove(idx);
        proof {
            assert(final(self)@ =~= old(self)@.remove(idx as int));
            lemma_wf_remove(old(self)@, idx as int);
        }
        Ok(())
    }

    /// The geometry last set for a session, as rows and columns.
    pub fn pty_size(&self, session_id: &str) -> (r: Result<(u16, u16), TerminalError>)
        ensures
            (match r {
                Ok(rc) => {
                    let i = find_idx(self@, session_id@);
                    &&& contains_id(self@, session_id@)
                    &&& rc.0 == self@[i].rows
                    &&& rc.1 == self@[i].cols
                },
                Err(TerminalError::NotFound) => !contains_id(self@, session_id@),
                Err(_) => false,
            }),
    {
        let idx = match self.find_session(session_id) {
            Some(i) => i,
            None => {
                return Err(TerminalError::NotFound);
            },
        };
        let s = &self.sessions[idx];
        Ok((s.rows, s.cols))
    }

    /// Updates the pseudo-terminal geometry.  Buffered, still-undelivered
    /// output is unaffected: the model's carry and history do not move.
    pub fn resize_pty(&mut self, session_id: &str, cols: u16, rows: u16) -> (r: Result<
        (),
        TerminalError,
    >)
        requires
            old(self).wf(),
        ensures
            final(self).wf(),
            (match r {
                Ok(()) => {
                    let i = find_idx(old(self)@, session_id@);
                    &&& contains_id(old(self)@, session_id@)
                    &&& final(self)@ == old(self)@.update(
                        i,
                        (SessionView { rows: rows, cols: cols, ..old(self)@[i] }),
                    )
                },
                Err(TerminalError::NotFound) => !contains_id(old(self)@, session_id@) && final(self)@ == old(self)@,
                Err(TerminalError::Os(_)) => contains_id(old(self)@, session_id@) && final(self)@
                    == old(self)@,
                Err(_) => false,
            }),
    {
        let idx = match self.find_session(session_id) {
            Some(i) => i,
            None => {
                return Err(TerminalError::NotFound);
            },
        };
        proof {
            lemma_find_idx(self@, session_id@);
        }
        let mut sess = self.sessions.remove(idx);
        match pty::resize_master(&sess.master, rows, cols) {
            Ok(()) => {
                sess.rows = rows;
                sess.cols = cols;
                self.sessions.insert(idx, sess);
                proof {
                    assert(final(self)@ =~= old(self)@.update(
                        idx as int,
                        (SessionView { rows: rows, cols: cols, ..old(self)@[idx as int] }),
                    ));
                    lemma_wf_update(
                        old(self)@,
                        idx as int,
                        (SessionView { rows: rows, cols: cols, ..old(self)@[idx as int] }),
                    );
                }
                Ok(())
            },
            Err(m) => {
                self.sessions.insert(idx, sess);
                proof {
                    assert(final(self)@ =~= old(self)@);
                }
                Err(TerminalError::Os(m))
            },
        }
    }

    /// Forwards bytes verbatim to the session's pty and flushes before
    /// returning.  On success the session's write history is extended by
    /// exactly these bytes, in order, and nothing else changes — against the
    /// same record, histories of successive writes concatenate in issue
    /// order with no interleaving.  On a kernel write failure the session
    /// stays registered so the caller can still drain final output.
    pub fn write_bytes(&mut self, session_id: &str, data: &[u8]) -> (r: Result<(), TerminalError>)
        requires
            old(self).wf(),
        ensures
            final(self).wf(),
            (match r {
                Ok(()) => {
                    let i = find_idx(old(self)@, session_id@);
                    &&& contains_id(old(self)@, session_id@)
                    &&& final(self)@ == old(self)@.update(
                        i,
                        (SessionView { written: old(self)@[i].written + data@, ..old(self)@[i] }),
                    )
                },
                Err(TerminalError::NotFound) => !contains_id(old(self)@, session_id@) && final(self)@ == old(self)@,
                Err(TerminalError::Write(_)) => contains_id(old(self)@, session_id@) && final(self)@ == old(self)@,
                Err(_) => false,
            }),
    {
        let idx = match self.find_session(session_id) {
            Some(i) => i,
            None => {
                return Err(TerminalError::NotFound);
            },
        };
        proof {
            lemma_find_idx(self@, session_id@);
        }
        let mut sess = self.sessions.remove(idx);
        match pty::write_all_bytes(&mut sess.writer, data) {
            Ok(()) => {},
            Err(m) => {
                self.sessions.insert(idx, sess);
                proof {
                    assert(final(self)@ =~= old(self)@);
                }
                return Err(TerminalError::Write(m));
            },
        }
        match pty::flush_writer(&mut sess.writer) {
            Ok(()) => {},
            Err(m) => {
                self.sessions.insert(idx, sess);
                proof {
                    assert(final(self)@ =~= old(self)@);
                }
                return Err(TerminalError::Write(m));
            },
        }
        proof {
            sess.written@ = sess.written@ + data@;
        }
        self.sessions.insert(idx, sess);
        proof {
            assert(final(self)@ =~= old(self)@.update(
                idx as int,
                (SessionView {
                    written: old(self)@[idx as int].written + data@,
                    ..old(self)@[idx as int]
                }),
            ));
            lemma_wf_update(
                old(self)@,
                idx as int,
                (SessionView {
                    written: old(self)@[idx as int].written + data@,
                    ..old(self)@[idx as int]
                }),
            );
        }
        Ok(())
    }

    /// Forwards text verbatim, as its UTF-8 bytes.
    pub fn write_to_pty(&mut self, session_id: &str, data: &str) -> (r: Result<(), TerminalError>)
        requires
            old(self).wf(),
        ensures
            final(self).wf(),
            (match r {
                Ok(()) => {
                    let i = find_idx(old(self)@, session_id@);
                    &&& contains_id(old(self)@, session_id@)
                    &&& final(self)@ == old(self)@.update(
                        i,
                        (SessionView {
                            written: old(self)@[i].written + data.spec_bytes(),
                            ..old(self)@[i]
                        }),
                    )
                },
                Err(TerminalError::NotFound) => !contains_id(old(self)@, session_id@) && final(self)@ == old(self)@,
                Err(TerminalError::Write(_)) => contains_id(old(self)@, session_id@) && final(self)@ == old(self)@,
                Err(_) => false,
            }),
    {
        self.write_bytes(session_id, data.as_bytes())
    }

    /// Drains every currently buffered chunk of the session's output without
    /// blocking and decodes it, holding back a trailing incomplete character
    /// for the next call.  Returns empty text when nothing is available,
    /// and `Closed` only when the channel is disconnected and nothing —
    /// buffered chunks or carry bytes — remains to deliver, so final output
    /// is never lost.
    pub fn read_from_pty(&mut self, session_id: &str) -> (r: Result<String, TerminalError>)
        requires
            old(self).wf(),
        ensures
            final(self).wf(),
            (match r {
                Ok(out) => {
                    let i = find_idx(old(self)@, session_id@);
                    &&& contains_id(old(self)@, session_id@)
                    &&& final(self)@ == old(self)@.update(i, final(self)@[i])
                    &&& exists|drained: Seq<u8>, disc: bool| #[trigger] read_transition(
                        old(self)@[i],
                        final(self)@[i],
                        drained,
                        disc,
                        out@,
                    )
                },
                Err(TerminalError::NotFound) => !contains_id(old(self)@, session_id@) && final(self)@ == old(self)@,
                Err(TerminalError::Closed) => {
                    let i = find_idx(old(self)@, session_id@);
                    &&& contains_id(old(self)@, session_id@)
                    &&& old(self)@[i].carry.len() == 0
                    &&& final(self)@ == old(self)@
                },
                Err(_) => false,
            }),
    {
        let idx = match self.find_session(session_id) {
            Some(i) => i,
            None => {
                return Err(TerminalError::NotFound);
            },
        };
        proof {
            lemma_find_idx(self@, session_id@);
        }
        let mut sess = self.sessions.remove(idx);
        let mut drained: Vec<u8> = Vec::new();
        let mut disc = false;
        // The channel is drained without blocking until it reports empty or
        // disconnected; the verifier asks every loop for a bound, so the
        // drain carries one that no real backlog reaches (2^64 chunks).
        let mut budget: u64 = 0xFFFF_FFFF_FFFF_FFFF;
        loop
            decreases budget,
        {
            if budget == 0 {
                break ;
            }
            budget = budget - 1;
            match pty::try_recv_chunk(&sess.receiver) {
                pty::RecvOutcome::Data(d) => {
                    drained.extend_from_slice(d.as_slice());
                },
                pty::RecvOutcome::Empty => {
                    break ;
                },
                pty::RecvOutcome::Disconnected => {
                    disc = true;
                    break ;
                },
            }
        }
        let ghost drained_view = drained@;
        let (res, new_carry) = assemble_read(&sess.carry, drained, disc);
        match res {
            Ok(out) => {
                let ghost pre = sess@;
                sess.carry = new_carry;
                self.sessions.insert(idx, sess);
                proof {
                    assert(final(self)@ =~= old(self)@.update(idx as int, final(self)@[idx as int]));
                    assert(read_transition(pre, final(self)@[idx as int], drained_view, disc, out@));
                    lemma_wf_update(old(self)@, idx as int, final(self)@[idx as int]);
                }
                Ok(out)
            },
            Err(e) => {
                self.sessions.insert(idx, sess);
                proof {
                    assert(final(self)@ =~= old(self)@);
                }
                Err(e)
            },
        }
    }

    /// Creates a new local shell session: opens a pty at the requested (or
    /// default 80×24) size, spawns the shell with its interactive arguments
    /// and a fixed terminal environment, starts the output pump thread,
    /// writes the optional initial command (plus a newline) through the
    /// session's writer, and registers the record under a freshly generated
    /// identifier.  The initial command is written at once rather than after
    /// a delay: if the shell is not yet ready, the OS pty queue buffers the
    /// bytes.  On failure every partially constructed resource is dropped,
    /// and with that released, before the error returns.
    pub fn create_local_shell(
        &mut self,
        name: Option<String>,
        cols: Option<u16>,
        rows: Option<u16>,
        initial_command: Option<String>,
        shell: &str,
    ) -> (r: Result<TerminalSessionInfo, TerminalError>)
        requires
            old(self).wf(),
        ensures
            final(self).wf(),
            (match r {
                Ok(info) => {
                    let v = final(self)@.last();
                    &&& final(self)@ == remove_id(old(self)@, info@.id).push(v)
                    &&& v.info() == info@
                    &&& info@.id.len() == 36
                    &&& info@.session_type == SessionTypeView::Local
                    &&& info@.name == (match name {
                        Some(n) => n@,
                        None => "Terminal "@ + info@.id.subrange(0, 6),
                    })
                    &&& v.rows == (match rows {
                        Some(x) => x,
                        None => 24u16,
                    })
                    &&& v.cols == (match cols {
                        Some(x) => x,
                        None => 80u16,
                    })
                    &&& v.carry == Seq::<u8>::empty()
                    &&& (match initial_command {
                        Some(c) => v.written == encode_utf8(c@ + "\n"@) || v.written
                            == Seq::<u8>::empty(),
                        None => v.written == Seq::<u8>::empty(),
                    })
                },
                Err(TerminalError::Os(_)) => final(self)@ == old(self)@,
                Err(TerminalError::Spawn(_)) => final(self)@ == old(self)@,
                Err(_) => false,
            }),
    {
        let rows_v: u16 = match rows {
            Some(x) => x,
            None => 24,
        };
        let cols_v: u16 = match cols {
            Some(x) => x,
            None => 80,
        };
        let pair = match pty::open_pty(rows_v, cols_v) {
            Ok(p) => p,
            Err(m) => {
                return Err(TerminalError::Os(m));
            },
        };
        let mut cmd = pty::cmd_new(shell);
        pty::cmd_env(&mut cmd, "TERM", "xterm-256color");
        pty::cmd_env(&mut cmd, "COLORTERM", "truecolor");
        let args = shell_invocation(shell);
        let nargs = args.len();
        proof {
            assert(seq![shell@] + args.deep_view().take(0) =~= seq![shell@]);
        }
        let mut i: usize = 0;
        while i < nargs
            invariant
                i <= nargs,
                nargs == args@.len(),
                args.deep_view() == spec_shell_invocation(shell@),
                pty::cb_argv(cmd) == seq![shell@] + args.deep_view().take(i as int),
            decreases nargs - i,
        {
            pty::cmd_arg(&mut cmd, args[i].as_str());
            proof {
                assert(args.deep_view()[i as int] == args@[i as int]@);
                assert(args.deep_view().take(i + 1) =~= args.deep_view().take(i as int).push(
                    args@[i as int]@,
                ));
                assert(seq![shell@] + args.deep_view().take(i + 1) =~= (seq![shell@]
                    + args.deep_view().take(i as int)).push(args@[i as int]@));
            }
            i = i + 1;
        }
        proof {
            // the spawned argv is exactly the shell and its platform arguments
            assert(args.deep_view().take(nargs as int) =~= args.deep_view());
            assert(pty::cb_argv(cmd) =~= seq![shell@] + spec_shell_invocation(shell@));
        }
        let master = match pty::spawn_in_pty(pair, cmd) {
            Ok(x) => x,
            Err(m) => {
                return Err(TerminalError::Spawn(m));
            },
        };
        let reader = match pty::clone_reader(&master) {
            Ok(x) => x,
            Err(m) => {
                return Err(TerminalError::Os(m));
            },
        };
        let mut writer = match pty::take_writer(&master) {
            Ok(x) => x,
            Err(m) => {
                return Err(TerminalError::Os(m));
            },
        };
        let id = pty::new_session_id();
        let created_at = pty::now_epoch_secs();
        let session_name = match name {
            Some(n) => n,
            None => {
                let mut s = String::from_str("Terminal ");
                s.append(id.as_str().substring_char(0, 6));
                s
            },
        };
        let (tx, rx) = pty::output_channel();
        let pump = thread::spawn(move || pty::pump_output(reader, tx));
        let ghost mut written0: Seq<u8> = Seq::empty();
        match initial_command {
            Some(c) => {
                let mut primer = c.clone();
                primer.append("\n");
                match pty::write_all_bytes(&mut writer, primer.as_str().as_bytes()) {
                    Ok(()) => {
                        match pty::flush_writer(&mut writer) {
                            Ok(()) => {
                                proof {
                                    written0 = encode_utf8(c@ + "\n"@);
                                }
                            },
                            // the primer is a convenience; its failure is
                            // not surfaced, and the history records nothing
                            Err(_) => {},
                        }
                    },
                    Err(_) => {},
                }
            },
            None => {},
        }
        let session = PtySession {
            id: id.clone(),
            session_type: SessionType::Local,
            name: session_name.clone(),
            created_at,
            rows: rows_v,
            cols: cols_v,
            master,
            writer,
            receiver: rx,
            _pump: pump,
            carry: Vec::new(),
            written: Ghost(written0),
        };
        let info = TerminalSessionInfo {
            id,
            session_type: SessionType::Local,
            name: session_name,
            created_at,
        };
        match self.find_session(info.id.as_str()) {
            Some(existing) => {
                let _ = self.sessions.remove(existing);
                proof {
                    assert(self@ =~= old(self)@.remove(existing as int));
                }
            },
            None => {},
        }
        proof {
            assert(self@ =~= remove_id(old(self)@, info@.id));
        }
        let ghost base = self@;
        self.sessions.push(session);
        proof {
            assert(final(self)@ =~= base.push(session@));
            lemma_remove_id_erases(old(self)@, info@.id);
            lemma_wf_push(base, session@);
        }
        Ok(info)
    }

    /// Closes every session and returns how many were removed.  Dropping the
    /// records drops each write handle and channel consumer, which lets the
    /// pump threads end; the children are not forcibly killed.
    pub fn close_all_sessions(&mut self) -> (n: usize)
        ensures
            n == old(self)@.len(),
            final(self)@ =~= Seq::<SessionView>::empty(),
            final(self).wf(),
    {
        let n = self.sessions.len();
        self.sessions.clear();
        proof {
            assert(final(self)@ =~= Seq::<SessionView>::empty());
        }
        n
    }
}

impl Default for TerminalManager {
    /// An empty registry, as [`TerminalManager::new`] builds it.
    fn default() -> (r: Self)
        ensures
            r@ =~= Seq::<SessionView>::empty(),
            r.wf(),
    {
        TerminalManager::new()
    }
}

/// Once the registry is cleared, no identifier resolves: every later
/// operation against a closed session's identifier reports `NotFound`.
pub proof fn lemma_cleared_registry_refuses(id: Seq<char>)
    ensures
        !contains_id(Seq::<SessionView>::empty(), id),
{
}

/// What a poll-read emits is final: for any bytes that arrive on the
/// stream later, the decoding of the whole stream is the output already
/// emitted followed by the decoding of the held-back carry and those
/// bytes.  A multi-byte character split across two read chunks is thus
/// reassembled, and output delivered earlier is never corrupted by what
/// arrives afterwards.
pub proof fn lemma_read_output_is_stable(
    pre: SessionView,
    post: SessionView,
    drained: Seq<u8>,
    out: Seq<char>,
    e: Seq<u8>,
)
    requires
        read_transition(pre, post, drained, false, out),
    ensures
        lossy_decode(pre.carry + drained + e) == out + lossy_decode(post.carry + e),
{
    let buf = pre.carry + drained;
    crate::utf8_stream::lemma_reassembly_stable(buf, e);
    assert(buf + e =~= pre.carry + drained + e);
}

/// A freshly registered session's identifier resolves: a poll-read or
/// write right after a successful create can never report `NotFound`.
pub proof fn lemma_created_session_resolves(s: Seq<SessionView>, v: SessionView)
    ensures
        contains_id(s.push(v), v.id),
    decreases s.len(),
{
    if s.len() == 0 {
        assert(s.push(v)[0] == v);
    } else if s[0].id != v.id {
        assert(s.push(v)[0] == s[0]);
        assert(s.push(v).drop_first() =~= s.drop_first().push(v));
        lemma_created_session_resolves(s.drop_first(), v);
    }
}

/// Renaming touches exactly one record's display name: the listing
/// afterwards has the same length and the same identifiers in the same
/// order, the renamed entry carries the new name under its old identifier,
/// and every other entry's metadata is untouched.
pub proof fn lemma_rename_keeps_identity(s: Seq<SessionView>, id: Seq<char>, new_name: Seq<char>)
    requires
        contains_id(s, id),
    ensures
        ({
            let i = find_idx(s, id);
            let t = s.update(i, (SessionView { name: new_name, ..s[i] }));
            &&& t.len() == s.len()
            &&& forall|j: int| 0 <= j < s.len() ==> (#[trigger] t[j]).id == s[j].id
            &&& forall|j: int|
                0 <= j < s.len() && j != i ==> (#[trigger] t[j]).info() == s[j].info()
            &&& t[i].id == id
            &&& t[i].name == new_name
        }),
{
    lemma_find_idx(s, id);
}

} // verus!
