//! Harness session state: which sessions exist, what they were launched for,
//! whether their child still runs, and which one is on screen. Terminals and
//! processes live outside the library; everything here is metadata, so every
//! transition (launch, attach, detach, exit, kill) is a plain function.
use vstd::prelude::*;

use crate::mode::SessionId;
use crate::text::{
    all_digits, i32_to_string, owned, signed_decimal, string_push_str, u64_to_string, decimal,
};

verus! {

broadcast use vstd::string::group_string_axioms;

#[derive(Debug, Clone, Copy, PartialEq, Eq, Structural)]
pub enum SessionStatus {
    Running,
    /// The child exited with this code (`-1` when killed by a signal or the
    /// code could not be read).
    Exited(i32),
}

impl SessionStatus {
    pub open spec fn spec_label(self) -> Seq<char> {
        match self {
            SessionStatus::Running => seq!['r', 'u', 'n', 'n', 'i', 'n', 'g'],
            SessionStatus::Exited(code) => seq!['e', 'x', 'i', 't', 'e', 'd', ' '] + signed_decimal(
                code as int,
            ),
        }
    }

    pub fn is_running(self) -> (r: bool)
        ensures
            r == (self is Running),
    {
        match self {
            SessionStatus::Running => true,
            SessionStatus::Exited(_) => false,
        }
    }

    /// Short word for the picker and status bar.
    pub fn label(self) -> (r: String)
        ensures
            r@ == self.spec_label(),
    {
        match self {
            SessionStatus::Running => {
                let r = owned("running");
                proof {
                    reveal_strlit("running");
                }
                r
            },
            SessionStatus::Exited(code) => {
                let mut r = owned("exited ");
                proof {
                    reveal_strlit("exited ");
                }
                let c = i32_to_string(code);
                string_push_str(&mut r, c.as_str());
                r
            },
        }
    }
}

/// One harness session.
#[derive(Debug, Clone, PartialEq, Eq)]
pub struct SessionMeta {
    pub id: SessionId,
    /// Canonical `owner/repo#number` the session was launched for.
    pub issue_ref: String,
    /// Key into the configured harness table.
    pub harness: String,
    /// The issue's title at launch time; may be empty.
    pub title: String,
    pub status: SessionStatus,
    /// Id of the underlying background session, for a harness that
    /// dispatches one; `None` when the child itself is the session.
    pub bg_id: Option<String>,
    /// Adopted at startup from a previous run rather than launched here.
    pub adopted: bool,
}

/// A session as plain values.
pub struct SessionView {
    pub id: SessionId,
    pub issue_ref: Seq<char>,
    pub harness: Seq<char>,
    pub title: Seq<char>,
    pub status: SessionStatus,
    pub bg_id: Option<Seq<char>>,
    pub adopted: bool,
}

pub open spec fn opt_view(o: Option<String>) -> Option<Seq<char>> {
    match o {
        Some(s) => Some(s@),
        None => None,
    }
}

impl View for SessionMeta {
    type V = SessionView;

    open spec fn view(&self) -> SessionView {
        SessionView {
            id: self.id,
            issue_ref: self.issue_ref@,
            harness: self.harness@,
            title: self.title@,
            status: self.status,
            bg_id: opt_view(self.bg_id),
            adopted: self.adopted,
        }
    }
}

impl SessionMeta {
    /// A field-for-field copy.
    pub fn duplicate(&self) -> (r: SessionMeta)
        ensures
            r@ == self@,
    {
        SessionMeta {
            id: self.id,
            issue_ref: self.issue_ref.clone(),
            harness: self.harness.clone(),
            title: self.title.clone(),
            status: self.status,
            bg_id: match &self.bg_id {
                Some(b) => Some(b.clone()),
                None => None,
            },
            adopted: self.adopted,
        }
    }
}

pub open spec fn views_of(s: Seq<SessionMeta>) -> Seq<SessionView> {
    s.map_values(|m: SessionMeta| m@)
}

/// The running sessions quitting ends (`terminated`) versus leaves running
/// under their own supervisor (`survives`).
#[derive(Debug, Clone, PartialEq, Eq)]
pub struct QuitSummary {
    pub terminated: Vec<SessionMeta>,
    pub survives: Vec<SessionMeta>,
}

/// What launching on the current row should do.
#[derive(Debug, Clone, PartialEq, Eq)]
pub enum LaunchAction {
    /// No issue selected.
    NoIssue,
    /// A live session already exists for this issue: show it.
    Attach(SessionId),
    /// A session exists but its child has exited: ask before relaunching.
    ConfirmRelaunch(SessionId),
    /// Nothing for this issue yet: spawn `harness` for `issue_ref`.
    Spawn { issue_ref: String, harness: String },
    /// No default harness configured: let the user pick one.
    Pick { issue_ref: String },
}

// ---------------------------------------------------------------------------
// The `owner/repo#number` shape.
// ---------------------------------------------------------------------------

/// `k` is the first `#` of `s`.
pub open spec fn first_hash_at(s: Seq<char>, k: int) -> bool {
    &&& 0 <= k < s.len()
    &&& s[k] == '#'
    &&& forall|j: int| 0 <= j < k ==> s[j] != '#'
}

/// Loose shape check for `owner/repo#number`: before the first `#` there is
/// a `/`, and after it a non-empty run of ASCII digits.
pub open spec fn spec_is_issue_ref(s: Seq<char>) -> bool {
    exists|k: int|
        #[trigger] first_hash_at(s, k) && (exists|j: int| 0 <= j < k && s[j] == '/') && k + 1
            < s.len() && all_digits(s.subrange(k + 1, s.len() as int))
}

pub fn is_issue_ref(name: &str) -> (r: bool)
    ensures
        r == spec_is_issue_ref(name@),
{
    let v = crate::text::chars_of(name);
    let mut k: usize = 0;
    while k < v.len() && v[k] != '#'
        invariant
            v@ == name@,
            k <= v@.len(),
            forall|j: int| 0 <= j < k ==> v@[j] != '#',
        decreases v@.len() - k,
    {
        k += 1;
    }
    if k == v.len() {
        assert forall|m: int| !first_hash_at(name@, m) by {
            if first_hash_at(name@, m) {
                assert(v@[m] == '#');
            }
        }
        return false;
    }
    assert(first_hash_at(name@, k as int));
    assert forall|m: int| #[trigger] first_hash_at(name@, m) implies m == k by {
        if m < k {
            assert(v@[m] != '#');
        }
        if m > k {
            assert(name@[k as int] != '#');
        }
    }
    let mut slash = false;
    let mut j: usize = 0;
    while j < k
        invariant
            v@ == name@,
            k < v@.len(),
            j <= k,
            slash == exists|i: int| 0 <= i < j && v@[i] == '/',
        decreases k - j,
    {
        if v[j] == '/' {
            slash = true;
        }
        j += 1;
    }
    if !slash || k + 1 == v.len() {
        return false;
    }
    let mut digits = true;
    let mut i: usize = k + 1;
    while i < v.len()
        invariant
            v@ == name@,
            k + 1 <= i <= v@.len(),
            digits == forall|t: int| k + 1 <= t < i ==> '0' <= v@[t] && v@[t] <= '9',
        decreases v@.len() - i,
    {
        if !('0' <= v[i] && v[i] <= '9') {
            digits = false;
        }
        i += 1;
    }
    assert(all_digits(name@.subrange(k + 1, name@.len() as int)) == digits) by {
        let sub = name@.subrange(k + 1, name@.len() as int);
        if digits {
            assert forall|t: int| 0 <= t < sub.len() implies '0' <= #[trigger] sub[t] && sub[t]
                <= '9' by {
                assert(sub[t] == v@[t + k + 1]);
            }
        } else {
            let t = choose|t: int| k + 1 <= t < name@.len() && !('0' <= v@[t] && v@[t] <= '9');
            assert(sub[t - k - 1] == v@[t]);
        }
    }
    digits
}


// ---------------------------------------------------------------------------
// The session table as plain values, and what each operation does to it.
// ---------------------------------------------------------------------------

/// The harness state as plain values.
#[verifier::ext_equal]
pub struct HarnessView {
    pub sessions: Seq<SessionView>,
    pub active: Option<SessionId>,
    pub prefix_pending: bool,
    pub scrollback: usize,
    /// The id the next registered session gets.
    pub next_id: SessionId,
}

pub open spec fn has_id(s: Seq<SessionView>, id: SessionId) -> bool {
    exists|i: int| 0 <= i < s.len() && s[i].id == id
}

/// `i` is the first session with id `id`.
pub open spec fn is_first_id(s: Seq<SessionView>, id: SessionId, i: int) -> bool {
    &&& 0 <= i < s.len()
    &&& s[i].id == id
    &&& forall|k: int| 0 <= k < i ==> s[k].id != id
}

/// Index of the first session with id `id`, or -1.
pub open spec fn find_id(s: Seq<SessionView>, id: SessionId) -> int {
    if exists|i: int| is_first_id(s, id, i) {
        choose|i: int| is_first_id(s, id, i)
    } else {
        -1
    }
}

/// `i` is the first session launched for `issue_ref`.
pub open spec fn is_first_ref(s: Seq<SessionView>, issue_ref: Seq<char>, i: int) -> bool {
    &&& 0 <= i < s.len()
    &&& s[i].issue_ref == issue_ref
    &&& forall|k: int| 0 <= k < i ==> s[k].issue_ref != issue_ref
}

/// Index of the first session launched for `issue_ref`, or -1.
pub open spec fn find_ref(s: Seq<SessionView>, issue_ref: Seq<char>) -> int {
    if exists|i: int| is_first_ref(s, issue_ref, i) {
        choose|i: int| is_first_ref(s, issue_ref, i)
    } else {
        -1
    }
}

/// The sessions without those whose id is `id`, order kept.
pub open spec fn without_id(s: Seq<SessionView>, id: SessionId) -> Seq<SessionView>
    decreases s.len(),
{
    if s.len() == 0 {
        s
    } else {
        let rest = without_id(s.drop_last(), id);
        if s.last().id == id {
            rest
        } else {
            rest.push(s.last())
        }
    }
}

/// The running sessions, order kept; `local` selects those without a
/// background id (`Some(false)`), those with one (`Some(true)`), or all.
pub open spec fn running_of(s: Seq<SessionView>, bg: Option<bool>) -> Seq<SessionView>
    decreases s.len(),
{
    if s.len() == 0 {
        s
    } else {
        let rest = running_of(s.drop_last(), bg);
        let m = s.last();
        let keep = m.status is Running && match bg {
            None => true,
            Some(b) => m.bg_id.is_some() == b,
        };
        if keep {
            rest.push(m)
        } else {
            rest
        }
    }
}

/// A freshly launched session.
pub open spec fn fresh_session(
    id: SessionId,
    issue_ref: Seq<char>,
    harness: Seq<char>,
    title: Seq<char>,
) -> SessionView {
    SessionView {
        id,
        issue_ref,
        harness,
        title,
        status: SessionStatus::Running,
        bg_id: None,
        adopted: false,
    }
}

/// The session-picker row for one session: adoption mark, reference,
/// harness and state.
pub open spec fn picker_row(m: SessionView) -> Seq<char> {
    (if m.adopted {
        seq!['\u{2197}']
    } else {
        seq![' ']
    }) + seq![' '] + m.issue_ref + seq![' ', ' ', '['] + m.harness + seq![']', ' ', ' ']
        + m.status.spec_label()
}

/// The `n running, m exited` status-bar text.
pub open spec fn status_text(running: nat, exited: nat) -> Seq<char> {
    let r = decimal(running) + seq![' ', 'r', 'u', 'n', 'n', 'i', 'n', 'g'];
    let e = decimal(exited) + seq![' ', 'e', 'x', 'i', 't', 'e', 'd'];
    if exited == 0 {
        r
    } else if running == 0 {
        e
    } else {
        r + seq![',', ' '] + e
    }
}

impl HarnessView {
    /// The table's invariant: ids strictly increase in launch order, every
    /// id is below the next one to be handed out, and the session on screen
    /// exists.
    pub open spec fn wf(self) -> bool {
        &&& forall|i: int, j: int|
            0 <= i < j < self.sessions.len() ==> self.sessions[i].id < self.sessions[j].id
        &&& forall|i: int| 0 <= i < self.sessions.len() ==> self.sessions[i].id < self.next_id
        &&& self.active matches Some(a) ==> has_id(self.sessions, a)
    }

    pub open spec fn get(self, id: SessionId) -> Option<SessionView> {
        let i = find_id(self.sessions, id);
        if i >= 0 {
            Some(self.sessions[i])
        } else {
            None
        }
    }

    pub open spec fn find_by_issue(self, issue_ref: Seq<char>) -> Option<SessionView> {
        let i = find_ref(self.sessions, issue_ref);
        if i >= 0 {
            Some(self.sessions[i])
        } else {
            None
        }
    }

    pub open spec fn register(self, issue_ref: Seq<char>, harness: Seq<char>, title: Seq<char>) -> HarnessView {
        HarnessView {
            sessions: self.sessions.push(fresh_session(self.next_id, issue_ref, harness, title)),
            next_id: (self.next_id + 1) as u64,
            ..self
        }
    }

    pub open spec fn with_bg_id(self, id: SessionId, bg_id: Seq<char>) -> HarnessView {
        let i = find_id(self.sessions, id);
        if i >= 0 {
            HarnessView {
                sessions: self.sessions.update(i, SessionView { bg_id: Some(bg_id), ..self.sessions[i] }),
                ..self
            }
        } else {
            self
        }
    }

    pub open spec fn exited(self, id: SessionId, code: i32) -> HarnessView {
        let i = find_id(self.sessions, id);
        if i >= 0 {
            HarnessView {
                sessions: self.sessions.update(
                    i,
                    SessionView { status: SessionStatus::Exited(code), ..self.sessions[i] },
                ),
                ..self
            }
        } else {
            self
        }
    }

    pub open spec fn removed(self, id: SessionId) -> HarnessView {
        HarnessView {
            sessions: without_id(self.sessions, id),
            active: if self.active == Some(id) {
                None
            } else {
                self.active
            },
            ..self
        }
    }

    pub open spec fn attached(self, id: SessionId) -> HarnessView {
        if find_id(self.sessions, id) >= 0 {
            HarnessView { active: Some(id), scrollback: 0, prefix_pending: false, ..self }
        } else {
            self
        }
    }

    pub open spec fn detached(self) -> HarnessView {
        HarnessView { active: None, scrollback: 0, prefix_pending: false, ..self }
    }

    pub open spec fn with_prefix(self, on: bool) -> HarnessView {
        HarnessView { prefix_pending: on, ..self }
    }

    pub open spec fn with_scrollback(self, rows: usize) -> HarnessView {
        HarnessView { scrollback: rows, ..self }
    }

    /// Adopt one background session named `name` unless the name is not
    /// issue-ref shaped or the issue already has a session.
    pub open spec fn adopt(self, harness: Seq<char>, bg_id: Seq<char>, name: Seq<char>) -> HarnessView {
        if !spec_is_issue_ref(name) || find_ref(self.sessions, name) >= 0 {
            self
        } else {
            HarnessView {
                sessions: self.sessions.push(
                    SessionView {
                        id: self.next_id,
                        issue_ref: name,
                        harness,
                        title: Seq::empty(),
                        status: SessionStatus::Running,
                        bg_id: Some(bg_id),
                        adopted: true,
                    },
                ),
                next_id: (self.next_id + 1) as u64,
                ..self
            }
        }
    }

    /// Adopt each `(bg_id, name)` pair in turn.
    pub open spec fn reconciled(self, harness: Seq<char>, pairs: Seq<(Seq<char>, Seq<char>)>) -> HarnessView
        decreases pairs.len(),
    {
        if pairs.len() == 0 {
            self
        } else {
            self.reconciled(harness, pairs.drop_last()).adopt(
                harness,
                pairs.last().0,
                pairs.last().1,
            )
        }
    }

    pub open spec fn running_count(self) -> nat {
        running_of(self.sessions, None).len()
    }

    pub open spec fn exited_count(self) -> int {
        self.sessions.len() - self.running_count()
    }
}

pub proof fn lemma_find_id_unique(s: Seq<SessionView>, id: SessionId, i: int)
    requires
        is_first_id(s, id, i),
    ensures
        find_id(s, id) == i,
{
    let j = choose|j: int| is_first_id(s, id, j);
    assert(is_first_id(s, id, j));
    if j < i {
        assert(s[j].id != id);
    }
    if i < j {
        assert(s[i].id != id);
    }
}

pub proof fn lemma_find_id_absent(s: Seq<SessionView>, id: SessionId)
    requires
        forall|k: int| 0 <= k < s.len() ==> s[k].id != id,
    ensures
        find_id(s, id) == -1,
        !has_id(s, id),
{
}

pub proof fn lemma_find_ref_unique(s: Seq<SessionView>, r: Seq<char>, i: int)
    requires
        is_first_ref(s, r, i),
    ensures
        find_ref(s, r) == i,
{
    let j = choose|j: int| is_first_ref(s, r, j);
    assert(is_first_ref(s, r, j));
    if j < i {
        assert(s[j].issue_ref != r);
    }
    if i < j {
        assert(s[i].issue_ref != r);
    }
}

/// In a well-formed table a present id is found at its (only) position.
pub proof fn lemma_wf_find(h: HarnessView, i: int)
    requires
        h.wf(),
        0 <= i < h.sessions.len(),
    ensures
        find_id(h.sessions, h.sessions[i].id) == i,
{
    assert(is_first_id(h.sessions, h.sessions[i].id, i)) by {
        assert forall|k: int| 0 <= k < i implies h.sessions[k].id != h.sessions[i].id by {
            assert(h.sessions[k].id < h.sessions[i].id);
        }
    }
    lemma_find_id_unique(h.sessions, h.sessions[i].id, i);
}

pub proof fn lemma_find_id_has(s: Seq<SessionView>, id: SessionId)
    ensures
        find_id(s, id) >= 0 ==> has_id(s, id) && s[find_id(s, id)].id == id && find_id(s, id) < s.len(),
{
    if exists|i: int| is_first_id(s, id, i) {
        let i = choose|i: int| is_first_id(s, id, i);
        assert(is_first_id(s, id, i));
    }
}

/// What `without_id` keeps: every other session, in order.
pub proof fn lemma_without_id(s: Seq<SessionView>, id: SessionId)
    ensures
        without_id(s, id).len() <= s.len(),
        forall|k: int|
            0 <= k < without_id(s, id).len() ==> without_id(s, id)[k].id != id && s.contains(
                #[trigger] without_id(s, id)[k],
            ),
        forall|x: SessionId| x != id && has_id(s, x) ==> has_id(#[trigger] without_id(s, id), x),
        (forall|i: int, j: int| 0 <= i < j < s.len() ==> s[i].id < s[j].id) ==> forall|i: int, j: int|
            0 <= i < j < without_id(s, id).len() ==> without_id(s, id)[i].id < without_id(
                s,
                id,
            )[j].id,
    decreases s.len(),
{
    if s.len() > 0 {
        let d = s.drop_last();
        lemma_without_id(d, id);
        let rest = without_id(d, id);
        assert forall|k: int| 0 <= k < rest.len() implies s.contains(#[trigger] rest[k]) by {
            assert(rest[k] == without_id(d, id)[k]);
            assert(d.contains(rest[k]));
            let t = choose|t: int| 0 <= t < d.len() && d[t] == rest[k];
            assert(s[t] == rest[k]);
        }
        assert forall|x: SessionId| x != id && has_id(s, x) implies has_id(
            #[trigger] without_id(s, id),
            x,
        ) by {
            let t = choose|t: int| 0 <= t < s.len() && s[t].id == x;
            if t < s.len() - 1 {
                assert(d[t].id == x);
                assert(has_id(d, x));
                let u = choose|u: int| 0 <= u < rest.len() && rest[u].id == x;
                if s.last().id != id {
                    assert(without_id(s, id)[u] == rest[u]);
                }
            } else {
                assert(s.last().id == x);
                assert(without_id(s, id) == rest.push(s.last()));
                assert(without_id(s, id)[rest.len() as int].id == x);
            }
        }
        if forall|i: int, j: int| 0 <= i < j < s.len() ==> s[i].id < s[j].id {
            assert forall|i: int, j: int| 0 <= i < j < d.len() implies d[i].id < d[j].id by {
                assert(s[i].id < s[j].id);
            }
            if s.last().id != id {
                let w = without_id(s, id);
                assert(w == rest.push(s.last()));
                assert forall|i: int, j: int| 0 <= i < j < w.len() implies w[i].id < w[j].id by {
                    if j == w.len() - 1 {
                        let t = choose|t: int| 0 <= t < d.len() && d[t] == rest[i];
                        assert(s[t].id < s[s.len() - 1].id);
                    } else {
                        assert(w[i] == rest[i]);
                        assert(w[j] == rest[j]);
                    }
                }
            }
        }
    }
}

pub proof fn lemma_running_of(s: Seq<SessionView>, bg: Option<bool>)
    ensures
        running_of(s, bg).len() <= s.len(),
    decreases s.len(),
{
    if s.len() > 0 {
        lemma_running_of(s.drop_last(), bg);
    }
}


// ---------------------------------------------------------------------------
// The session table.
// ---------------------------------------------------------------------------

/// Sessions and which one is on screen. Ids are handed out in increasing
/// order and never reused, so an id held by an in-flight event can never
/// address a different session.
#[derive(Debug)]
pub struct HarnessState {
    pub sessions: Vec<SessionMeta>,
    /// The session on screen, if any.
    pub active: Option<SessionId>,
    /// The prefix chord's first key was seen.
    pub prefix_pending: bool,
    /// Rows scrolled back in an exited session's frozen screen.
    pub scrollback: usize,
    next_id: SessionId,
}

impl View for HarnessState {
    type V = HarnessView;

    closed spec fn view(&self) -> HarnessView {
        HarnessView {
            sessions: views_of(self.sessions@),
            active: self.active,
            prefix_pending: self.prefix_pending,
            scrollback: self.scrollback,
            next_id: self.next_id,
        }
    }
}

/// The pairs `(bg_id, name)` as plain values.
pub open spec fn pair_views(pairs: Seq<(String, String)>) -> Seq<(Seq<char>, Seq<char>)> {
    pairs.map_values(|p: (String, String)| (p.0@, p.1@))
}

impl HarnessState {
    pub fn new() -> (r: HarnessState)
        ensures
            r@ == (HarnessView {
                sessions: Seq::empty(),
                active: None,
                prefix_pending: false,
                scrollback: 0,
                next_id: 0,
            }),
            r@.wf(),
            r@ == fresh_table(),
    {
        let r = HarnessState {
            sessions: Vec::new(),
            active: None,
            prefix_pending: false,
            scrollback: 0,
            next_id: 0,
        };
        assert(r@.sessions =~= Seq::<SessionView>::empty());
        r
    }

    /// Index of the first session with id `id`.
    fn index_of(&self, id: SessionId) -> (r: Option<usize>)
        ensures
            match r {
                Some(i) => find_id(self@.sessions, id) == i && i < self.sessions@.len(),
                None => find_id(self@.sessions, id) == -1,
            },
    {
        let ghost vs = self@.sessions;
        let mut i: usize = 0;
        while i < self.sessions.len()
            invariant
                vs == views_of(self.sessions@),
                vs.len() == self.sessions@.len(),
                i <= vs.len(),
                forall|k: int| 0 <= k < i ==> vs[k].id != id,
            decreases vs.len() - i,
        {
            if self.sessions[i].id == id {
                assert(vs[i as int].id == id);
                assert(is_first_id(vs, id, i as int));
                proof {
                    lemma_find_id_unique(vs, id, i as int);
                }
                return Some(i);
            }
            i += 1;
        }
        proof {
            lemma_find_id_absent(vs, id);
        }
        None
    }

    /// Index of the first session launched for `issue_ref`.
    fn index_of_ref(&self, issue_ref: &str) -> (r: Option<usize>)
        ensures
            match r {
                Some(i) => find_ref(self@.sessions, issue_ref@) == i && i < self.sessions@.len(),
                None => find_ref(self@.sessions, issue_ref@) == -1,
            },
    {
        let ghost vs = self@.sessions;
        let wanted = owned(issue_ref);
        let mut i: usize = 0;
        while i < self.sessions.len()
            invariant
                vs == views_of(self.sessions@),
                vs.len() == self.sessions@.len(),
                wanted@ == issue_ref@,
                i <= vs.len(),
                forall|k: int| 0 <= k < i ==> vs[k].issue_ref != issue_ref@,
            decreases vs.len() - i,
        {
            if self.sessions[i].issue_ref == wanted {
                assert(vs[i as int].issue_ref == issue_ref@);
                assert(is_first_ref(vs, issue_ref@, i as int));
                proof {
                    lemma_find_ref_unique(vs, issue_ref@, i as int);
                }
                return Some(i);
            }
            i += 1;
        }
        assert(!exists|j: int| is_first_ref(vs, issue_ref@, j));
        None
    }

    /// Record a new running session and return its id; the caller spawns
    /// the child under that id.
    pub fn register(&mut self, issue_ref: String, harness: String, title: String) -> (r: SessionId)
        requires
            old(self)@.next_id < u64::MAX,
        ensures
            r == old(self)@.next_id,
            final(self)@ == old(self)@.register(issue_ref@, harness@, title@),
    {
        let id = self.next_id;
        self.next_id = self.next_id + 1;
        let ghost before = self.sessions@;
        self.sessions.push(
            SessionMeta {
                id,
                issue_ref,
                harness,
                title,
                status: SessionStatus::Running,
                bg_id: None,
                adopted: false,
            },
        );
        assert(views_of(self.sessions@) =~= views_of(before).push(
            fresh_session(id, issue_ref@, harness@, title@),
        ));
        id
    }

    pub fn get(&self, id: SessionId) -> (r: Option<&SessionMeta>)
        ensures
            match r {
                Some(m) => self@.get(id) == Some(m@),
                None => self@.get(id).is_none(),
            },
    {
        match self.index_of(id) {
            Some(i) => Some(&self.sessions[i]),
            None => None,
        }
    }

    /// Record the background session id a fresh dispatch resolved to; an
    /// unknown id is ignored.
    pub fn set_bg_id(&mut self, id: SessionId, bg_id: String)
        ensures
            final(self)@ == old(self)@.with_bg_id(id, bg_id@),
    {
        match self.index_of(id) {
            Some(i) => {
                let ghost before = self.sessions@;
                let mut m = self.sessions.remove(i);
                m.bg_id = Some(bg_id);
                self.sessions.insert(i, m);
                assert(views_of(self.sessions@) =~= views_of(before).update(
                    i as int,
                    SessionView { bg_id: Some(bg_id@), ..views_of(before)[i as int] },
                ));
            },
            None => {},
        }
    }

    /// The session launched for `issue_ref`, if any.
    pub fn find_by_issue(&self, issue_ref: &str) -> (r: Option<&SessionMeta>)
        ensures
            match r {
                Some(m) => self@.find_by_issue(issue_ref@) == Some(m@),
                None => self@.find_by_issue(issue_ref@).is_none(),
            },
    {
        match self.index_of_ref(issue_ref) {
            Some(i) => Some(&self.sessions[i]),
            None => None,
        }
    }

    /// The session on screen.
    pub fn active_meta(&self) -> (r: Option<&SessionMeta>)
        ensures
            match self@.active {
                Some(a) => match r {
                    Some(m) => self@.get(a) == Some(m@),
                    None => self@.get(a).is_none(),
                },
                None => r.is_none(),
            },
    {
        match self.active {
            Some(a) => self.get(a),
            None => None,
        }
    }

    /// Mark a child as finished; an unknown id is ignored.
    pub fn mark_exited(&mut self, id: SessionId, code: i32)
        ensures
            final(self)@ == old(self)@.exited(id, code),
    {
        match self.index_of(id) {
            Some(i) => {
                let ghost before = self.sessions@;
                let mut m = self.sessions.remove(i);
                m.status = SessionStatus::Exited(code);
                self.sessions.insert(i, m);
                assert(views_of(self.sessions@) =~= views_of(before).update(
                    i as int,
                    SessionView { status: SessionStatus::Exited(code), ..views_of(before)[i as int] },
                ));
            },
            None => {},
        }
    }

    /// Drop every session with id `id`; the screen is cleared when it showed
    /// that session.
    pub fn remove(&mut self, id: SessionId)
        ensures
            final(self)@ == old(self)@.removed(id),
    {
        let ghost orig = views_of(self.sessions@);
        let mut rest: Vec<SessionMeta> = Vec::new();
        std::mem::swap(&mut rest, &mut self.sessions);
        let ghost mut consumed: int = 0;
        while rest.len() > 0
            invariant
                orig.len() == consumed + rest@.len(),
                0 <= consumed <= orig.len(),
                views_of(rest@) =~= orig.subrange(consumed, orig.len() as int),
                views_of(self.sessions@) =~= without_id(orig.subrange(0, consumed), id),
                self.active == old(self).active,
                self.prefix_pending == old(self).prefix_pending,
                self.scrollback == old(self).scrollback,
                self.next_id == old(self).next_id,
                orig == old(self)@.sessions,
            decreases rest@.len(),
        {
            let ghost before = self.sessions@;
            let ghost rest_before = rest@;
            assert(views_of(rest_before)[0] == orig[consumed]);
            let m = rest.remove(0);
            assert(m@ == orig[consumed]);
            let ghost next = orig.subrange(0, consumed + 1);
            assert(next.drop_last() =~= orig.subrange(0, consumed));
            if m.id != id {
                self.sessions.push(m);
                assert(views_of(self.sessions@) =~= views_of(before).push(orig[consumed]));
            }
            proof {
                consumed = consumed + 1;
                assert(views_of(rest@) =~= views_of(rest_before).subrange(1, rest_before.len() as int));
            }
        }
        assert(orig.subrange(0, consumed) =~= orig);
        if self.active == Some(id) {
            self.active = None;
        }
    }

    /// Show a session, opening at its newest output; an unknown id is
    /// ignored.
    pub fn attach(&mut self, id: SessionId)
        ensures
            final(self)@ == old(self)@.attached(id),
    {
        if self.index_of(id).is_some() {
            self.active = Some(id);
            self.scrollback = 0;
            self.prefix_pending = false;
        }
    }

    /// The session on screen.
    pub fn active_id(&self) -> (r: Option<SessionId>)
        ensures
            r == self@.active,
    {
        self.active
    }

    /// Whether the prefix chord's first key was seen.
    pub fn prefix_armed(&self) -> (r: bool)
        ensures
            r == self@.prefix_pending,
    {
        self.prefix_pending
    }

    /// Rows scrolled back in an exited session's screen.
    pub fn scrollback_rows(&self) -> (r: usize)
        ensures
            r == self@.scrollback,
    {
        self.scrollback
    }

    /// Arm or disarm the prefix chord.
    pub fn set_prefix_pending(&mut self, on: bool)
        ensures
            final(self)@ == old(self)@.with_prefix(on),
    {
        self.prefix_pending = on;
    }

    /// Scroll an exited session's frozen screen to `rows` back.
    pub fn set_scrollback(&mut self, rows: usize)
        ensures
            final(self)@ == old(self)@.with_scrollback(rows),
    {
        self.scrollback = rows;
    }

    /// Whether another session can still get an id of its own.
    pub fn can_register(&self) -> (r: bool)
        ensures
            r == (self@.next_id < u64::MAX),
    {
        self.next_id < u64::MAX
    }

    /// Return to the list. The child keeps running: detach is not kill.
    pub fn detach(&mut self)
        ensures
            final(self)@ == old(self)@.detached(),
    {
        self.active = None;
        self.prefix_pending = false;
        self.scrollback = 0;
    }

    /// The running sessions, in launch order.
    pub fn running(&self) -> (r: Vec<&SessionMeta>)
        ensures
            r@.len() == running_of(self@.sessions, None).len(),
            forall|k: int| 0 <= k < r@.len() ==> (#[trigger] r@[k])@ == running_of(self@.sessions, None)[k],
    {
        let ghost vs = self@.sessions;
        let mut out: Vec<&SessionMeta> = Vec::new();
        let mut i: usize = 0;
        while i < self.sessions.len()
            invariant
                vs == views_of(self.sessions@),
                vs.len() == self.sessions@.len(),
                i <= vs.len(),
                out@.len() == running_of(vs.subrange(0, i as int), None).len(),
                forall|k: int| 0 <= k < out@.len() ==> (#[trigger] out@[k])@ == running_of(vs.subrange(0, i as int), None)[k],
            decreases vs.len() - i,
        {
            assert(vs.subrange(0, i + 1).drop_last() =~= vs.subrange(0, i as int));
            assert(vs.subrange(0, i + 1).last() == vs[i as int]);
            if self.sessions[i].status.is_running() {
                out.push(&self.sessions[i]);
            }
            i += 1;
        }
        assert(vs.subrange(0, vs.len() as int) =~= vs);
        out
    }

    pub fn running_count(&self) -> (r: usize)
        ensures
            r == self@.running_count(),
    {
        self.running().len()
    }

    pub fn exited_count(&self) -> (r: usize)
        ensures
            r == self@.exited_count(),
    {
        proof {
            lemma_running_of(self@.sessions, None);
        }
        self.sessions.len() - self.running_count()
    }

    pub fn has_running(&self) -> (r: bool)
        ensures
            r == (self@.running_count() > 0),
    {
        self.running_count() > 0
    }

    /// Split the running sessions by what quitting does to them: a child
    /// without a background id dies with its terminal, one with a
    /// background id keeps running under its own supervisor.
    pub fn quit_summary(&self) -> (r: QuitSummary)
        ensures
            views_of(r.terminated@) == running_of(self@.sessions, Some(false)),
            views_of(r.survives@) == running_of(self@.sessions, Some(true)),
    {
        let ghost vs = self@.sessions;
        let mut terminated: Vec<SessionMeta> = Vec::new();
        let mut survives: Vec<SessionMeta> = Vec::new();
        let mut i: usize = 0;
        while i < self.sessions.len()
            invariant
                vs == views_of(self.sessions@),
                vs.len() == self.sessions@.len(),
                i <= vs.len(),
                views_of(terminated@) =~= running_of(vs.subrange(0, i as int), Some(false)),
                views_of(survives@) =~= running_of(vs.subrange(0, i as int), Some(true)),
            decreases vs.len() - i,
        {
            assert(vs.subrange(0, i + 1).drop_last() =~= vs.subrange(0, i as int));
            assert(vs.subrange(0, i + 1).last() == vs[i as int]);
            let s = &self.sessions[i];
            if s.status.is_running() {
                let ghost t0 = terminated@;
                let ghost s0 = survives@;
                let copy = s.duplicate();
                if s.bg_id.is_some() {
                    survives.push(copy);
                    assert(views_of(survives@) =~= views_of(s0).push(vs[i as int]));
                } else {
                    terminated.push(copy);
                    assert(views_of(terminated@) =~= views_of(t0).push(vs[i as int]));
                }
            }
            i += 1;
        }
        assert(vs.subrange(0, vs.len() as int) =~= vs);
        QuitSummary { terminated, survives }
    }

    /// Rows for the session picker, in launch order: an adoption mark (or a
    /// blank of the same width), the reference, the harness and the state.
    pub fn picker_rows(&self) -> (r: Vec<String>)
        ensures
            r@.len() == self@.sessions.len(),
            forall|k: int| 0 <= k < r@.len() ==> (#[trigger] r@[k])@ == picker_row(self@.sessions[k]),
    {
        let ghost vs = self@.sessions;
        let mut out: Vec<String> = Vec::new();
        let mut i: usize = 0;
        while i < self.sessions.len()
            invariant
                vs == views_of(self.sessions@),
                vs.len() == self.sessions@.len(),
                i <= vs.len(),
                out@.len() == i,
                forall|k: int| 0 <= k < i ==> (#[trigger] out@[k])@ == picker_row(vs[k]),
            decreases vs.len() - i,
        {
            let s = &self.sessions[i];
            let mut row = if s.adopted {
                let t = owned("\u{2197}");
                proof {
                    reveal_strlit("\u{2197}");
                }
                t
            } else {
                let t = owned(" ");
                proof {
                    reveal_strlit(" ");
                }
                t
            };
            string_push_str(&mut row, " ");
            string_push_str(&mut row, s.issue_ref.as_str());
            string_push_str(&mut row, "  [");
            string_push_str(&mut row, s.harness.as_str());
            string_push_str(&mut row, "]  ");
            let l = s.status.label();
            string_push_str(&mut row, l.as_str());
            proof {
                reveal_strlit(" ");
                reveal_strlit("  [");
                reveal_strlit("]  ");
            }
            assert(row@ =~= picker_row(vs[i as int]));
            out.push(row);
            i += 1;
        }
        out
    }

    /// Session id behind row `idx` of `picker_rows`.
    pub fn session_at(&self, idx: usize) -> (r: Option<SessionId>)
        ensures
            idx < self@.sessions.len() ==> r == Some(self@.sessions[idx as int].id),
            idx >= self@.sessions.len() ==> r.is_none(),
    {
        if idx < self.sessions.len() {
            Some(self.sessions[idx].id)
        } else {
            None
        }
    }

    /// The `n running, m exited` status-bar segment; `None` without
    /// sessions.
    pub fn status_segment(&self) -> (r: Option<String>)
        ensures
            self@.sessions.len() == 0 ==> r.is_none(),
            self@.sessions.len() > 0 ==> r.is_some() && r.unwrap()@ == status_text(
                self@.running_count(),
                self@.exited_count() as nat,
            ),
    {
        if self.sessions.len() == 0 {
            return None;
        }
        let running = self.running_count();
        let exited = self.exited_count();
        let rs = u64_to_string(running as u64);
        let es = u64_to_string(exited as u64);
        proof {
            reveal_strlit(" running");
            reveal_strlit(" exited");
            reveal_strlit(", ");
        }
        let mut out = String::new();
        if exited == 0 {
            string_push_str(&mut out, rs.as_str());
            string_push_str(&mut out, " running");
        } else if running == 0 {
            string_push_str(&mut out, es.as_str());
            string_push_str(&mut out, " exited");
        } else {
            string_push_str(&mut out, rs.as_str());
            string_push_str(&mut out, " running");
            string_push_str(&mut out, ", ");
            string_push_str(&mut out, es.as_str());
            string_push_str(&mut out, " exited");
        }
        assert(out@ =~= status_text(running as nat, exited as nat));
        Some(out)
    }

    /// Adopt background sessions still running from a previous launch:
    /// each `(bg_id, name)` whose name is issue-ref shaped and whose issue
    /// has no session yet becomes a running, adopted session of `harness`.
    pub fn reconcile(&mut self, harness: &str, bg_sessions: &[(String, String)])
        requires
            old(self)@.next_id + bg_sessions@.len() <= u64::MAX,
        ensures
            final(self)@ == old(self)@.reconciled(harness@, pair_views(bg_sessions@)),
    {
        let ghost pv = pair_views(bg_sessions@);
        let mut i: usize = 0;
        while i < bg_sessions.len()
            invariant
                pv == pair_views(bg_sessions@),
                pv.len() == bg_sessions@.len(),
                i <= bg_sessions@.len(),
                self@ == old(self)@.reconciled(harness@, pv.subrange(0, i as int)),
                self.next_id <= old(self).next_id + i,
                old(self)@.next_id + bg_sessions@.len() <= u64::MAX,
            decreases bg_sessions@.len() - i,
        {
            assert(pv.subrange(0, i + 1).drop_last() =~= pv.subrange(0, i as int));
            assert(pv.subrange(0, i + 1).last() == pv[i as int]);
            assert(pv[i as int] == (bg_sessions@[i as int].0@, bg_sessions@[i as int].1@));
            let name = &bg_sessions[i].1;
            let bg_id = &bg_sessions[i].0;
            if is_issue_ref(name.as_str()) && self.index_of_ref(name.as_str()).is_none() {
                let ghost before = self.sessions@;
                let id = self.next_id;
                self.next_id = self.next_id + 1;
                self.sessions.push(
                    SessionMeta {
                        id,
                        issue_ref: name.clone(),
                        harness: owned(harness),
                        title: String::new(),
                        status: SessionStatus::Running,
                        bg_id: Some(bg_id.clone()),
                        adopted: true,
                    },
                );
                assert(views_of(self.sessions@) =~= views_of(before).push(
                    SessionView {
                        id,
                        issue_ref: name@,
                        harness: harness@,
                        title: Seq::empty(),
                        status: SessionStatus::Running,
                        bg_id: Some(bg_id@),
                        adopted: true,
                    },
                ));
            }
            i += 1;
        }
        assert(pv.subrange(0, pv.len() as int) =~= pv);
    }
}

impl Default for HarnessState {
    fn default() -> (r: HarnessState)
        ensures
            r@ == (HarnessView {
                sessions: Seq::empty(),
                active: None,
                prefix_pending: false,
                scrollback: 0,
                next_id: 0,
            }),
    {
        HarnessState::new()
    }
}


// ---------------------------------------------------------------------------
// Laws of the session table.
// ---------------------------------------------------------------------------

/// A well-formed table has no session with the next id, and registering
/// keeps it well formed and makes exactly the new session reachable by it.
pub proof fn law_register_is_fresh(h: HarnessView, issue_ref: Seq<char>, harness: Seq<char>, title: Seq<char>)
    requires
        h.wf(),
        h.next_id < u64::MAX,
    ensures
        !has_id(h.sessions, h.next_id),
        h.register(issue_ref, harness, title).wf(),
        h.register(issue_ref, harness, title).get(h.next_id) == Some(
            fresh_session(h.next_id, issue_ref, harness, title),
        ),
{
    let r = h.register(issue_ref, harness, title);
    assert forall|i: int| 0 <= i < h.sessions.len() implies h.sessions[i].id != h.next_id by {}
    if let Some(a) = r.active {
        let t = choose|t: int| 0 <= t < h.sessions.len() && h.sessions[t].id == a;
        assert(r.sessions[t].id == a);
    }
    lemma_wf_find(r, h.sessions.len() as int);
}

/// An id that was handed out and then freed never addresses a session
/// again, even after the next registration.
pub proof fn law_freed_ids_never_return(
    h: HarnessView,
    id: SessionId,
    issue_ref: Seq<char>,
    harness: Seq<char>,
    title: Seq<char>,
)
    requires
        h.wf(),
        has_id(h.sessions, id),
        h.next_id < u64::MAX,
    ensures
        h.removed(id).register(issue_ref, harness, title).get(id).is_none(),
{
    lemma_without_id(h.sessions, id);
    let t = choose|t: int| 0 <= t < h.sessions.len() && h.sessions[t].id == id;
    assert(id < h.next_id);
    let r = h.removed(id).register(issue_ref, harness, title);
    assert forall|k: int| 0 <= k < r.sessions.len() implies r.sessions[k].id != id by {
        if k < r.sessions.len() - 1 {
            assert(r.sessions[k] == without_id(h.sessions, id)[k]);
        }
    }
    lemma_find_id_absent(r.sessions, id);
}

/// Removing a session keeps the table well formed, leaves no session with
/// that id, and never leaves the screen pointing at it.
pub proof fn law_remove_keeps_wf(h: HarnessView, id: SessionId)
    requires
        h.wf(),
    ensures
        h.removed(id).wf(),
        !has_id(h.removed(id).sessions, id),
        h.removed(id).active != Some(id),
        h.removed(id).next_id == h.next_id,
{
    lemma_without_id(h.sessions, id);
    let w = without_id(h.sessions, id);
    assert forall|k: int| 0 <= k < w.len() implies w[k].id < h.next_id by {
        assert(h.sessions.contains(w[k]));
        let t = choose|t: int| 0 <= t < h.sessions.len() && h.sessions[t] == w[k];
    }
    assert forall|k: int| 0 <= k < w.len() implies w[k].id != id by {
        assert(h.sessions.contains(w[k]));
    }
}

/// Attaching keeps the table well formed and only ever shows a session
/// that exists; an unknown id changes nothing.
pub proof fn law_attach_only_existing(h: HarnessView, id: SessionId)
    requires
        h.wf(),
    ensures
        h.attached(id).wf(),
        h.attached(id).sessions == h.sessions,
        !has_id(h.sessions, id) ==> h.attached(id) == h,
        has_id(h.sessions, id) ==> h.attached(id).active == Some(id) && h.attached(id).scrollback
            == 0 && !h.attached(id).prefix_pending,
{
    lemma_find_id_has(h.sessions, id);
    if has_id(h.sessions, id) {
        let t = choose|t: int| 0 <= t < h.sessions.len() && h.sessions[t].id == id;
        lemma_wf_find(h, t);
    }
}

/// Detaching is not killing: every session stays as it was.
pub proof fn law_detach_keeps_sessions(h: HarnessView)
    requires
        h.wf(),
    ensures
        h.detached().sessions == h.sessions,
        h.detached().active.is_none(),
        h.detached().wf(),
{
}

/// Recording an exit keeps the table well formed and every session (with
/// its id and reference) in place.
pub proof fn law_exit_keeps_sessions(h: HarnessView, id: SessionId, code: i32)
    requires
        h.wf(),
    ensures
        h.exited(id, code).wf(),
        h.exited(id, code).sessions.len() == h.sessions.len(),
        forall|k: int|
            0 <= k < h.sessions.len() ==> (#[trigger] h.exited(id, code).sessions[k]).id
                == h.sessions[k].id && h.exited(id, code).sessions[k].issue_ref
                == h.sessions[k].issue_ref,
        has_id(h.sessions, id) ==> h.exited(id, code).get(id).unwrap().status
            == SessionStatus::Exited(code),
{
    lemma_find_id_has(h.sessions, id);
    let e = h.exited(id, code);
    if let Some(a) = e.active {
        let t = choose|t: int| 0 <= t < h.sessions.len() && h.sessions[t].id == a;
        assert(e.sessions[t].id == a);
    }
    if has_id(h.sessions, id) {
        let t = choose|t: int| 0 <= t < h.sessions.len() && h.sessions[t].id == id;
        lemma_wf_find(h, t);
        lemma_wf_find(e, t);
    }
}

/// Adopting background sessions keeps the table well formed.
pub proof fn law_reconcile_keeps_wf(h: HarnessView, harness: Seq<char>, pairs: Seq<(Seq<char>, Seq<char>)>)
    requires
        h.wf(),
        h.next_id + pairs.len() <= u64::MAX,
    ensures
        h.reconciled(harness, pairs).wf(),
        h.reconciled(harness, pairs).next_id <= h.next_id + pairs.len(),
        h.reconciled(harness, pairs).active == h.active,
    decreases pairs.len(),
{
    if pairs.len() > 0 {
        law_reconcile_keeps_wf(h, harness, pairs.drop_last());
        let p = h.reconciled(harness, pairs.drop_last());
        let q = p.adopt(harness, pairs.last().0, pairs.last().1);
        if q != p {
            if let Some(a) = q.active {
                let t = choose|t: int| 0 <= t < p.sessions.len() && p.sessions[t].id == a;
                assert(q.sessions[t].id == a);
            }
        }
    }
}

/// Running and exited sessions together are all the sessions.
pub proof fn law_counts_partition(h: HarnessView)
    ensures
        h.running_count() <= h.sessions.len(),
        h.exited_count() >= 0,
        h.running_count() + h.exited_count() == h.sessions.len(),
{
    lemma_running_of(h.sessions, None);
}

// ---------------------------------------------------------------------------
// The table over any sequence of calls.
// ---------------------------------------------------------------------------

/// A call that changes the session table, with its arguments as plain
/// values: `register`, `set_bg_id`, `mark_exited`, `remove`, `attach`,
/// `detach`, `set_prefix_pending`, `set_scrollback` and `reconcile`.
pub enum TableOp {
    Register(Seq<char>, Seq<char>, Seq<char>),
    SetBgId(SessionId, Seq<char>),
    Exited(SessionId, i32),
    Remove(SessionId),
    Attach(SessionId),
    Detach,
    Prefix(bool),
    Scrollback(usize),
    Reconcile(Seq<char>, Seq<(Seq<char>, Seq<char>)>),
}

/// The table `HarnessState::new` builds.
pub open spec fn fresh_table() -> HarnessView {
    HarnessView { sessions: Seq::empty(), active: None, prefix_pending: false, scrollback: 0, next_id: 0 }
}

impl HarnessView {
    /// What one call does to the table (each method's `ensures`).
    pub open spec fn apply(self, op: TableOp) -> HarnessView {
        match op {
            TableOp::Register(r, h, t) => self.register(r, h, t),
            TableOp::SetBgId(id, b) => self.with_bg_id(id, b),
            TableOp::Exited(id, code) => self.exited(id, code),
            TableOp::Remove(id) => self.removed(id),
            TableOp::Attach(id) => self.attached(id),
            TableOp::Detach => self.detached(),
            TableOp::Prefix(on) => self.with_prefix(on),
            TableOp::Scrollback(n) => self.with_scrollback(n),
            TableOp::Reconcile(h, pairs) => self.reconciled(h, pairs),
        }
    }

    /// How many of `pairs` reconciling adopts as new sessions.
    pub open spec fn adoptions(self, harness: Seq<char>, pairs: Seq<(Seq<char>, Seq<char>)>) -> nat
        decreases pairs.len(),
    {
        if pairs.len() == 0 {
            0
        } else {
            let p = self.reconciled(harness, pairs.drop_last());
            let name = pairs.last().1;
            self.adoptions(harness, pairs.drop_last()) + if !spec_is_issue_ref(name) || find_ref(p.sessions, name)
                >= 0 {
                0nat
            } else {
                1nat
            }
        }
    }

    /// How many sessions one call creates.
    pub open spec fn creates(self, op: TableOp) -> nat {
        match op {
            TableOp::Register(_, _, _) => 1,
            TableOp::Reconcile(h, pairs) => self.adoptions(h, pairs),
            _ => 0,
        }
    }
}

/// The table after the calls `ops`, in order, starting from `h`.
pub open spec fn run(h: HarnessView, ops: Seq<TableOp>) -> HarnessView
    decreases ops.len(),
{
    if ops.len() == 0 {
        h
    } else {
        run(h, ops.drop_last()).apply(ops.last())
    }
}

/// How many sessions the calls `ops` create, starting from `h`.
pub open spec fn created(h: HarnessView, ops: Seq<TableOp>) -> nat
    decreases ops.len(),
{
    if ops.len() == 0 {
        0
    } else {
        created(h, ops.drop_last()) + run(h, ops.drop_last()).creates(ops.last())
    }
}

/// Whether some table along the calls `ops` from `h` held a session `id`.
pub open spec fn ever_held(h: HarnessView, ops: Seq<TableOp>, id: SessionId) -> bool {
    exists|k: int| 0 <= k <= ops.len() && has_id(#[trigger] run(h, ops.take(k)).sessions, id)
}

/// Reconciling adds exactly its adoptions to the next id, keeping the table
/// well formed.
pub proof fn lemma_reconcile_counts(h: HarnessView, harness: Seq<char>, pairs: Seq<(Seq<char>, Seq<char>)>)
    requires
        h.wf(),
        h.next_id + h.adoptions(harness, pairs) <= u64::MAX,
    ensures
        h.reconciled(harness, pairs).wf(),
        h.reconciled(harness, pairs).next_id == h.next_id + h.adoptions(harness, pairs),
    decreases pairs.len(),
{
    if pairs.len() > 0 {
        lemma_reconcile_counts(h, harness, pairs.drop_last());
        let p = h.reconciled(harness, pairs.drop_last());
        let q = p.adopt(harness, pairs.last().0, pairs.last().1);
        if q != p {
            if let Some(a) = q.active {
                let t = choose|t: int| 0 <= t < p.sessions.len() && p.sessions[t].id == a;
                assert(q.sessions[t].id == a);
            }
        }
    }
}

/// One call keeps the table well formed and moves the next id on by the
/// sessions it creates.
pub proof fn lemma_apply_counts(h: HarnessView, op: TableOp)
    requires
        h.wf(),
        h.next_id + h.creates(op) <= u64::MAX,
    ensures
        h.apply(op).wf(),
        h.apply(op).next_id == h.next_id + h.creates(op),
{
    match op {
        TableOp::Register(r, hn, t) => {
            law_register_is_fresh(h, r, hn, t);
        },
        TableOp::SetBgId(id, b) => {
            let e = h.with_bg_id(id, b);
            if let Some(a) = e.active {
                let t = choose|t: int| 0 <= t < h.sessions.len() && h.sessions[t].id == a;
                assert(e.sessions[t].id == a);
            }
        },
        TableOp::Exited(id, code) => {
            law_exit_keeps_sessions(h, id, code);
        },
        TableOp::Remove(id) => {
            law_remove_keeps_wf(h, id);
        },
        TableOp::Attach(id) => {
            law_attach_only_existing(h, id);
        },
        TableOp::Detach => {},
        TableOp::Prefix(_) => {},
        TableOp::Scrollback(_) => {},
        TableOp::Reconcile(hn, pairs) => {
            lemma_reconcile_counts(h, hn, pairs);
        },
    }
}

/// From the fresh table, any calls keep it well formed and its next id
/// equal to the number of sessions created.
pub proof fn lemma_run_counts(ops: Seq<TableOp>)
    requires
        created(fresh_table(), ops) <= u64::MAX,
    ensures
        run(fresh_table(), ops).wf(),
        run(fresh_table(), ops).next_id == created(fresh_table(), ops),
    decreases ops.len(),
{
    if ops.len() > 0 {
        lemma_run_counts(ops.drop_last());
        lemma_apply_counts(run(fresh_table(), ops.drop_last()), ops.last());
    }
}

/// The sessions created along a prefix of the calls are no more than along
/// all of them.
pub proof fn lemma_created_prefix(ops: Seq<TableOp>, k: int)
    requires
        0 <= k <= ops.len(),
    ensures
        created(fresh_table(), ops.take(k)) <= created(fresh_table(), ops),
    decreases ops.len(),
{
    if k < ops.len() {
        assert(ops.drop_last().take(k) =~= ops.take(k));
        lemma_created_prefix(ops.drop_last(), k);
    } else {
        assert(ops.take(k) =~= ops);
    }
}

/// Session ids count the sessions ever created and are never reused: after
/// any calls from the fresh table, the table is well formed, its next id is
/// the number of sessions created so far, no table along the way ever held
/// that id, and registering next appends a session with exactly that id,
/// leaving the sessions before it as they were.
pub proof fn law_ids_count_creations(ops: Seq<TableOp>, issue_ref: Seq<char>, harness: Seq<char>, title: Seq<char>)
    requires
        created(fresh_table(), ops) < u64::MAX,
    ensures
        run(fresh_table(), ops).wf(),
        run(fresh_table(), ops).next_id == created(fresh_table(), ops),
        forall|id: SessionId| #[trigger] ever_held(fresh_table(), ops, id) ==> id < run(fresh_table(), ops).next_id,
        !ever_held(fresh_table(), ops, run(fresh_table(), ops).next_id),
        run(fresh_table(), ops).register(issue_ref, harness, title).sessions == run(fresh_table(), ops).sessions.push(
            fresh_session(created(fresh_table(), ops) as SessionId, issue_ref, harness, title),
        ),
{
    let h = run(fresh_table(), ops);
    lemma_run_counts(ops);
    assert forall|id: SessionId| #[trigger] ever_held(fresh_table(), ops, id) implies id < h.next_id by {
        let k = choose|k: int| 0 <= k <= ops.len() && has_id(#[trigger] run(fresh_table(), ops.take(k)).sessions, id);
        lemma_created_prefix(ops, k);
        lemma_run_counts(ops.take(k));
        let t = choose|t: int| 0 <= t < run(fresh_table(), ops.take(k)).sessions.len() && run(fresh_table(), ops.take(k)).sessions[t].id == id;
    }
}

} // verus!
