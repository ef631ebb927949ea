//! Browser session bookkeeping: the registry of embedded web-content
//! sessions and the pure naming and validation rules of the webview layer.
//!
//! The webview layer itself (creating surfaces, navigation, events) is an
//! external collaborator; only its bookkeeping and decisions live here.

use vstd::prelude::*;

use crate::strutil::str_eq;

verus! {

/// A browser session and its metadata.
#[derive(Debug, Clone)]
pub struct BrowserSession {
    /// The caller's identifier for the session.
    pub id: String,
    /// The webview label derived from the identifier.
    pub label: String,
    /// The address currently shown.
    pub current_url: String,
    /// The page title, when known.
    pub title: String,
    /// Whether a page load is in flight.
    pub is_loading: bool,
}

/// The mathematical value of a [`BrowserSession`].
#[verifier::ext_equal]
pub struct BrowserSessionView {
    pub id: Seq<char>,
    pub label: Seq<char>,
    pub current_url: Seq<char>,
    pub title: Seq<char>,
    pub is_loading: bool,
}

impl View for BrowserSession {
    type V = BrowserSessionView;

    open spec fn view(&self) -> BrowserSessionView {
        BrowserSessionView {
            id: self.id@,
            label: self.label@,
            current_url: self.current_url@,
            title: self.title@,
            is_loading: self.is_loading,
        }
    }
}

impl BrowserSession {
    /// A copy whose value the verifier knows equals this one's.
    pub fn duplicate(&self) -> (r: BrowserSession)
        ensures
            r@ == self@,
    {
        BrowserSession {
            id: self.id.clone(),
            label: self.label.clone(),
            current_url: self.current_url.clone(),
            title: self.title.clone(),
            is_loading: self.is_loading,
        }
    }
}

/// Payload of the event announcing a navigation's new address.
#[derive(Debug, Clone)]
pub struct BrowserUrlChangedEvent {
    pub session_id: String,
    pub url: String,
}

/// Payload of the event announcing a load starting or finishing.
#[derive(Debug, Clone)]
pub struct BrowserLoadingEvent {
    pub session_id: String,
    pub is_loading: bool,
}

/// The index of the first browser session with this identifier, or -1.
pub open spec fn find_idx(s: Seq<BrowserSessionView>, id: Seq<char>) -> int
    decreases s.len(),
{
    if s.len() == 0 {
        -1
    } else if s[0].id == id {
        0
    } else {
        let r = find_idx(s.drop_first(), id);
        if r < 0 {
            -1
        } else {
            r + 1
        }
    }
}

/// Whether a browser session with this identifier is registered.
pub open spec fn contains_id(s: Seq<BrowserSessionView>, id: Seq<char>) -> bool {
    find_idx(s, id) >= 0
}

/// The registry after removing the session with this identifier, if any.
pub open spec fn remove_id(s: Seq<BrowserSessionView>, id: Seq<char>) -> Seq<BrowserSessionView> {
    if contains_id(s, id) {
        s.remove(find_idx(s, id))
    } else {
        s
    }
}

/// What `find_idx` finds: a match at the returned index, or no match at all.
pub proof fn lemma_find_idx(s: Seq<BrowserSessionView>, id: Seq<char>)
    ensures
        contains_id(s, id) ==> 0 <= find_idx(s, id) < s.len() && s[find_idx(s, id)].id == id,
        !contains_id(s, id) ==> forall|i: int| 0 <= i < s.len() ==> (#[trigger] s[i]).id != id,
    decreases s.len(),
{
    if s.len() > 0 && s[0].id != id {
        lemma_find_idx(s.drop_first(), id);
        if !contains_id(s, id) {
            assert forall|i: int| 0 <= i < s.len() implies (#[trigger] s[i]).id != id by {
                if i > 0 {
                    assert(s[i] == s.drop_first()[i - 1]);
                }
            }
        }
    }
}

/// `find_idx` returns the first match.
pub proof fn lemma_find_idx_first(s: Seq<BrowserSessionView>, id: Seq<char>, i: int)
    requires
        0 <= i < s.len(),
        s[i].id == id,
        forall|j: int| 0 <= j < i ==> (#[trigger] s[j]).id != id,
    ensures
        find_idx(s, id) == i,
    decreases s.len(),
{
    if i > 0 {
        assert(forall|j: int| 0 <= j < i - 1 ==> #[trigger] s.drop_first()[j] == s[j + 1]);
        assert(s.drop_first()[i - 1] == s[i]);
        lemma_find_idx_first(s.drop_first(), id, i - 1);
    }
}

/// Identifiers are unique in the registry.
pub open spec fn wf_browser_registry(s: Seq<BrowserSessionView>) -> bool {
    forall|i: int, j: int|
        #![trigger s[i].id, s[j].id]
        0 <= i < j < s.len() ==> s[i].id != s[j].id
}

/// After removing every record under an identifier, none carries it.
proof fn lemma_remove_id_erases(s: Seq<BrowserSessionView>, id: Seq<char>)
    requires
        wf_browser_registry(s),
    ensures
        forall|i: int|
            0 <= i < remove_id(s, id).len() ==> (#[trigger] remove_id(s, id)[i]).id != id,
        wf_browser_registry(remove_id(s, id)),
{
    lemma_find_idx(s, id);
    if contains_id(s, id) {
        let f = find_idx(s, id);
        let t = s.remove(f);
        assert forall|p: int, q: int|
            0 <= p < q < t.len() implies #[trigger] t[p].id != #[trigger] t[q].id by {
            let p0 = if p < f {
                p
            } else {
                p + 1
            };
            let q0 = if q < f {
                q
            } else {
                q + 1
            };
            assert(t[p] == s[p0] && t[q] == s[q0]);
            assert(s[p0].id != s[q0].id);
        }
        assert forall|i: int| 0 <= i < t.len() implies (#[trigger] t[i]).id != id by {
            let i0 = if i < f {
                i
            } else {
                i + 1
            };
            assert(t[i] == s[i0]);
            if s[i0].id == id {
                if i0 < f {
                    assert(s[i0].id != s[f].id);
                } else {
                    assert(s[f].id != s[i0].id);
                }
            }
        }
    }
}

/// Manages the browser sessions' metadata, keyed by unique identifier.
pub struct BrowserManager {
    sessions: Vec<BrowserSession>,
}

impl View for BrowserManager {
    type V = Seq<BrowserSessionView>;

    closed spec fn view(&self) -> Seq<BrowserSessionView> {
        Seq::new(self.sessions@.len(), |i: int| self.sessions@[i]@)
    }
}

impl BrowserManager {
    /// Registry invariant; see [`wf_browser_registry`].
    pub open spec fn wf(&self) -> bool {
        wf_browser_registry(self@)
    }

    /// An empty registry.
    pub fn new() -> (r: Self)
        ensures
            r@ =~= Seq::<BrowserSessionView>::empty(),
            r.wf(),
    {
        let r = BrowserManager { sessions: Vec::new() };
        proof {
            assert(r@ =~= Seq::<BrowserSessionView>::empty());
        }
        r
    }

    /// The index of the session with this identifier, if any.
    fn find_session(&self, id: &str) -> (r: Option<usize>)
        ensures
            match r {
                Some(i) => i < self@.len() && find_idx(self@, id@) == i,
                None => !contains_id(self@, id@),
            },
    {
        let n = self.sessions.len();
        let mut i: usize = 0;
        while i < n
            invariant
                i <= n,
                n == self@.len(),
                n == self.sessions@.len(),
                forall|j: int| 0 <= j < i ==> (#[trigger] self@[j]).id != id@,
            decreases n - i,
        {
            if str_eq(self.sessions[i].id.as_str(), id) {
                proof {
                    assert(self@[i as int].id == id@);
                    lemma_find_idx_first(self@, id@, i as int);
                }
                return Some(i);
            }
            proof {
                assert(self@[i as int].id != id@);
            }
            i = i + 1;
        }
        proof {
            if contains_id(self@, id@) {
                lemma_find_idx(self@, id@);
            }
        }
        None
    }

    /// Registers a session under its identifier, replacing any session
    /// already registered under it.
    pub fn add_session(&mut self, session: BrowserSession)
        requires
            old(self).wf(),
        ensures
            final(self).wf(),
            final(self)@ == remove_id(old(self)@, session@.id).push(session@),
    {
        match self.find_session(session.id.as_str()) {
            Some(i) => {
                let _ = self.sessions.remove(i);
                proof {
                    assert(self@ =~= old(self)@.remove(i as int));
                }
            },
            None => {},
        }
        proof {
            assert(self@ =~= remove_id(old(self)@, session@.id));
            lemma_remove_id_erases(old(self)@, session@.id);
        }
        let ghost base = self@;
        self.sessions.push(session);
        proof {
            assert(final(self)@ =~= base.push(session@));
            assert forall|p: int, q: int|
                0 <= p < q < final(self)@.len() implies #[trigger] final(self)@[p].id
                != #[trigger] final(self)@[q].id by {
                if q < base.len() {
                    assert(base[p].id != base[q].id);
                } else {
                    assert(final(self)@[q] == session@ && final(self)@[p] == base[p]);
                }
            }
        }
    }

    /// Deregisters and returns the session with this identifier, if any.
    pub fn remove_session(&mut self, id: &str) -> (r: Option<BrowserSession>)
        requires
            old(self).wf(),
        ensures
            final(self).wf(),
            match r {
                Some(s) => {
                    let i = find_idx(old(self)@, id@);
                    &&& contains_id(old(self)@, id@)
                    &&& s@ == old(self)@[i]
                    &&& final(self)@ == old(self)@.remove(i)
                },
                None => !contains_id(old(self)@, id@) && final(self)@ == old(self)@,
            },
    {
        match self.find_session(id) {
            Some(i) => {
                let s = self.sessions.remove(i);
                proof {
                    assert(final(self)@ =~= old(self)@.remove(i as int));
                    lemma_remove_id_erases(old(self)@, id@);
                    lemma_find_idx(old(self)@, id@);
                    assert(remove_id(old(self)@, id@) == old(self)@.remove(i as int));
                }
                Some(s)
            },
            None => None,
        }
    }

    /// A snapshot of every session, in registration order.
    pub fn list_sessions(&self) -> (r: Vec<BrowserSession>)
        ensures
            r@.len() == self@.len(),
            forall|i: int| 0 <= i < r@.len() ==> (#[trigger] r@[i])@ == self@[i],
    {
        let n = self.sessions.len();
        let mut r: Vec<BrowserSession> = Vec::new();
        let mut i: usize = 0;
        while i < n
            invariant
                i <= n,
                n == self.sessions@.len(),
                n == self@.len(),
                r@.len() == i,
                forall|j: int| 0 <= j < i ==> (#[trigger] r@[j])@ == self@[j],
            decreases n - i,
        {
            let s = self.sessions[i].duplicate();
            r.push(s);
            i = i + 1;
        }
        r
    }

    /// Records a navigation: replaces the session's current address, a
    /// no-op when the identifier is unknown.
    pub fn update_url(&mut self, id: &str, url: String)
        requires
            old(self).wf(),
        ensures
            final(self).wf(),
            contains_id(old(self)@, id@) ==> final(self)@ == old(self)@.update(
                find_idx(old(self)@, id@),
                (BrowserSessionView {
                    current_url: url@,
                    ..old(self)@[find_idx(old(self)@, id@)]
                }),
            ),
            !contains_id(old(self)@, id@) ==> final(self)@ == old(self)@,
    {
        match self.find_session(id) {
            Some(i) => {
                proof {
                    lemma_find_idx(self@, id@);
                }
                let mut s = self.sessions.remove(i);
                s.current_url = url;
                self.sessions.insert(i, s);
                proof {
                    assert(final(self)@ =~= old(self)@.update(
                        i as int,
                        (BrowserSessionView { current_url: url@, ..old(self)@[i as int] }),
                    ));
                    assert forall|p: int, q: int|
                        0 <= p < q < final(self)@.len() implies #[trigger] final(self)@[p].id
                        != #[trigger] final(self)@[q].id by {
                        assert(old(self)@[p].id != old(self)@[q].id);
                    }
                }
            },
            None => {
                proof {
                    assert(final(self)@ =~= old(self)@);
                }
            },
        }
    }
}

/// The webview label a session's surface is registered under.
pub fn browser_label(session_id: &str) -> (r: String)
    ensures
        r@ == "browser-"@ + session_id@,
{
    let mut s = String::from_str("browser-");
    s.append(session_id);
    s
}

/// Validates the address a new browser session is created with: a webview
/// is only created for a present, non-empty address.
pub fn validate_initial_url(initial_url: Option<String>) -> (r: Result<String, String>)
    ensures
        match initial_url {
            Some(u) => if u@.len() > 0 {
                r matches Ok(v) && v@ == u@
            } else {
                r matches Err(m) && m@ == "No URL provided"@
            },
            None => r matches Err(m) && m@ == "No URL provided"@,
        },
{
    match initial_url {
        Some(u) => if u.as_str().unicode_len() > 0 {
            Ok(u)
        } else {
            Err(String::from_str("No URL provided"))
        },
        None => Err(String::from_str("No URL provided")),
    }
}

} // verus!
