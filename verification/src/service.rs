use vstd::prelude::*;

use crate::text::{decimal_text, lemma_decimal_text_value, push_decimal, str_eq};

verus! {

/// The exporter's settings.
#[derive(Clone)]
pub struct Config {
    pub include_filters: Option<Vec<String>>,
    pub exclude_filters: Option<Vec<String>>,
    pub monitor_user_managers: Option<bool>,
}

impl Config {
    /// Whether the per-user managers are monitored too (off unless set).
    pub fn user_managers_enabled(&self) -> (r: bool)
        ensures
            r == (self.monitor_user_managers == Some(true)),
    {
        match self.monitor_user_managers {
            Some(b) => b,
            None => false,
        }
    }
}

/// A logind user whose `systemd --user` manager can be reached.
pub struct UserInfo {
    pub uid: u32,
    pub name: String,
    pub runtime_path: String,
}

/// A logind user state in which the user has no manager to monitor.
pub open spec fn is_gone_state(state: Seq<char>) -> bool {
    state == "offline"@ || state == "closing"@
}

/// Whether a user in logind state `state` is monitored: not when it is
/// `offline` or `closing`.
pub fn user_state_is_live(state: &str) -> (r: bool)
    ensures
        r == !is_gone_state(state@),
        r <==> (state@ != "offline"@ && state@ != "closing"@),
{
    !(str_eq(state, "offline") || str_eq(state, "closing"))
}

/// The user to monitor, given one whose state is live: none where logind
/// gives it no runtime directory.
pub fn live_user(uid: u32, name: String, runtime_path: String) -> (r: Option<UserInfo>)
    ensures
        runtime_path@.len() == 0 ==> r is None,
        runtime_path@.len() > 0 ==> (r matches Some(u) && u.uid == uid && u.name == name
            && u.runtime_path == runtime_path),
{
    if runtime_path.as_str().unicode_len() == 0 {
        None
    } else {
        Some(UserInfo { uid, name, runtime_path })
    }
}

/// The D-Bus address of a user's session bus.
pub open spec fn bus_address(runtime_path: Seq<char>) -> Seq<char> {
    "unix:path="@ + runtime_path + "/bus"@
}

/// The address of the session bus of `info`'s user.
pub fn user_bus_address(info: &UserInfo) -> (r: String)
    ensures
        r@ == bus_address(info.runtime_path@),
{
    let mut s = String::from_str("unix:path=");
    s.append(info.runtime_path.as_str());
    s.append("/bus");
    s
}

/// Why connecting to a session bus failed, as far as the fallback cares.
pub enum ConnectFailure {
    /// An I/O error of kind `BrokenPipe`.
    BrokenPipe,
    /// An I/O error of kind `PermissionDenied`.
    PermissionDenied,
    /// An I/O error of another kind.
    OtherIo,
    /// Any other failure.
    Other,
}

/// Whether a failed connection is one that the session bus refuses to root,
/// so that retrying with the user's effective UID may help.
pub fn should_try_seteuid(err: &ConnectFailure) -> (r: bool)
    ensures
        r == (*err is BrokenPipe || *err is PermissionDenied),
{
    match err {
        ConnectFailure::BrokenPipe => true,
        ConnectFailure::PermissionDenied => true,
        _ => false,
    }
}

/// Whether to retry a failed connection under the user's effective UID: only
/// when the failure is a refusal and the process runs as root.
pub fn retry_as_user(err: &ConnectFailure, running_as_root: bool) -> (r: bool)
    ensures
        r == ((*err is BrokenPipe || *err is PermissionDenied) && running_as_root),
{
    should_try_seteuid(err) && running_as_root
}

/// A systemd manager that the exporter monitors.
pub enum Scope {
    System,
    User(u32),
}

/// The `scope` label of the metrics of a manager.
pub open spec fn scope_label(s: Scope) -> Seq<char> {
    match s {
        Scope::System => "system"@,
        Scope::User(uid) => "user@"@ + decimal_text(uid as nat),
    }
}

/// Different managers never share a `scope` label: the system manager's is
/// `system`, and each user's is `user@` followed by its own UID.
pub proof fn lemma_scope_labels_distinct(a: Scope, b: Scope)
    requires
        a != b,
    ensures
        scope_label(a) != scope_label(b),
{
    reveal_strlit("system");
    reveal_strlit("user@");
    match (a, b) {
        (Scope::User(x), Scope::User(y)) => {
            let p = "user@"@;
            lemma_decimal_text_value(x as nat);
            lemma_decimal_text_value(y as nat);
            if scope_label(a) == scope_label(b) {
                assert((p + decimal_text(x as nat)).skip(5) =~= decimal_text(x as nat));
                assert((p + decimal_text(y as nat)).skip(5) =~= decimal_text(y as nat));
            }
        },
        (Scope::System, Scope::User(y)) => {
            assert(scope_label(a)[0] != scope_label(b)[0]);
        },
        (Scope::User(x), Scope::System) => {
            assert(scope_label(a)[0] != scope_label(b)[0]);
        },
        (Scope::System, Scope::System) => {},
    }
}

impl Scope {
    /// The `scope` label of this manager's metrics.
    pub fn label(&self) -> (r: String)
        ensures
            r@ == scope_label(*self),
    {
        match self {
            Scope::System => String::from_str("system"),
            Scope::User(uid) => {
                let mut s = String::from_str("user@");
                push_decimal(&mut s, *uid);
                s
            },
        }
    }

    /// Whether two scopes are the same manager.
    pub fn same(&self, other: &Scope) -> (r: bool)
        ensures
            r == (*self == *other),
    {
        match (self, other) {
            (Scope::System, Scope::System) => true,
            (Scope::User(a), Scope::User(b)) => *a == *b,
            _ => false,
        }
    }
}

/// The managers being monitored, each with the handle (a request channel)
/// that reaches its task. At most one entry per scope.
pub struct ScopeTable<T> {
    entries: Vec<(Scope, T)>,
}

impl<T> ScopeTable<T> {
    /// The scopes in the table, in the order in which they were added.
    pub closed spec fn scopes(&self) -> Seq<Scope> {
        self.entries@.map_values(|e: (Scope, T)| e.0)
    }

    /// The handles in the table, in the order of `scopes`.
    pub closed spec fn handles(&self) -> Seq<T> {
        self.entries@.map_values(|e: (Scope, T)| e.1)
    }

    /// The table as a map from scope to handle.
    pub open spec fn as_map(&self) -> Map<Scope, T> {
        Map::new(
            |k: Scope| self.scopes().contains(k),
            |k: Scope| self.handles()[self.scopes().index_of(k)],
        )
    }

    /// Each scope occurs once.
    pub closed spec fn wf(&self) -> bool {
        self.scopes().no_duplicates() && self.scopes().len() == self.handles().len()
    }

    /// An empty table.
    pub fn new() -> (r: Self)
        ensures
            r.wf(),
            r.scopes().len() == 0,
            r.as_map() == Map::<Scope, T>::empty(),
    {
        let r = ScopeTable { entries: Vec::new() };
        assert(r.as_map() =~= Map::<Scope, T>::empty());
        r
    }

    /// The number of managers in the table.
    pub fn len(&self) -> (r: usize)
        requires
            self.wf(),
        ensures
            r == self.scopes().len(),
    {
        self.entries.len()
    }

    /// The handle at position `i`.
    pub fn handle_at(&self, i: usize) -> (r: &T)
        requires
            self.wf(),
            i < self.scopes().len(),
        ensures
            *r == self.handles()[i as int],
    {
        &self.entries[i].1
    }

    /// The position of `scope` in the table, if it is there.
    pub fn position(&self, scope: &Scope) -> (r: Option<usize>)
        requires
            self.wf(),
        ensures
            match r {
                Some(i) => i < self.scopes().len() && self.scopes()[i as int] == *scope,
                None => !self.scopes().contains(*scope),
            },
    {
        let mut i: usize = 0;
        while i < self.entries.len()
            invariant
                i <= self.entries@.len(),
                forall|j: int| 0 <= j < i ==> self.scopes()[j] != *scope,
            decreases self.entries@.len() - i,
        {
            if self.entries[i].0.same(scope) {
                return Some(i);
            }
            i = i + 1;
        }
        None
    }

    /// Adds `handle` for `scope`, replacing (and dropping) the handle that
    /// the scope had.
    pub fn insert(&mut self, scope: Scope, handle: T)
        requires
            old(self).wf(),
        ensures
            final(self).wf(),
            final(self).as_map() == old(self).as_map().insert(scope, handle),
            old(self).scopes().contains(scope) ==> final(self).scopes() == old(self).scopes(),
            !old(self).scopes().contains(scope) ==> final(self).scopes() == old(self).scopes().push(scope),
    {
        let ghost old_scopes = self.scopes();
        let ghost old_handles = self.handles();
        match self.position(&scope) {
            Some(i) => {
                let ghost old_entries = self.entries@;
                self.entries.set(i, (scope, handle));
                proof {
                    assert(self.scopes() =~= old_scopes);
                    assert(self.handles() =~= old_handles.update(i as int, handle));
                    assert(old_scopes[i as int] == scope);
                    assert(old_scopes.contains(scope));
                    old_scopes.index_of_first_ensures(scope);
                    assert(old_scopes.index_of(scope) == i as int) by {
                        lemma_index_of_unique(old_scopes, i as int);
                    }
                    assert forall|k: Scope| #[trigger] self.scopes().contains(k) implies
                        self.handles()[self.scopes().index_of(k)] == old(self).as_map().insert(scope, handle)[k] by {
                        if k != scope {
                            let j = self.scopes().index_of(k);
                            lemma_index_of_contains(self.scopes(), k);
                            assert(j != i);
                        } else {
                            assert(self.scopes().index_of(scope) == i);
                            assert(self.handles()[i as int] == handle);
                        }
                    }
                    let target = old(self).as_map().insert(scope, handle);
                    assert forall|k: Scope| #[trigger] target.dom().contains(k)
                        <==> self.as_map().dom().contains(k) by {}
                    assert forall|k: Scope| #[trigger] self.as_map().dom().contains(k) implies
                        self.as_map()[k] == target[k] by {
                        assert(self.scopes().contains(k));
                    }
                    assert(self.as_map() =~= target);
                }
            },
            None => {
                self.entries.push((scope, handle));
                proof {
                    assert(self.scopes() =~= old_scopes.push(scope));
                    assert(self.handles() =~= old_handles.push(handle));
                    lemma_push_no_duplicates(old_scopes, scope);
                    lemma_index_of_unique(self.scopes(), old_scopes.len() as int);
                    assert forall|k: Scope| #[trigger] self.scopes().contains(k) implies
                        self.handles()[self.scopes().index_of(k)] == old(self).as_map().insert(scope, handle)[k] by {
                        if k != scope {
                            lemma_index_of_contains(self.scopes(), k);
                            let j = self.scopes().index_of(k);
                            assert(j < old_scopes.len());
                            assert(old_scopes[j] == k);
                            assert(old_scopes.contains(k));
                            lemma_index_of_unique(old_scopes, j);
                            lemma_index_of_unique(self.scopes(), j);
                        }
                    }
                    let target = old(self).as_map().insert(scope, handle);
                    assert forall|k: Scope| #[trigger] target.dom().contains(k)
                        <==> self.as_map().dom().contains(k) by {
                        if old_scopes.contains(k) {
                            lemma_index_of_contains(old_scopes, k);
                            assert(self.scopes()[old_scopes.index_of(k)] == k);
                        }
                        if k == scope {
                            assert(self.scopes()[old_scopes.len() as int] == k);
                        }
                        if self.scopes().contains(k) && k != scope {
                            lemma_index_of_contains(self.scopes(), k);
                            let j = self.scopes().index_of(k);
                            assert(old_scopes[j] == k);
                        }
                    }
                    assert forall|k: Scope| #[trigger] self.as_map().dom().contains(k) implies
                        self.as_map()[k] == target[k] by {
                        assert(self.scopes().contains(k));
                    }
                    assert(self.as_map() =~= target);
                }
            },
        }
    }

    /// Removes `scope` and its handle, if it is there.
    pub fn remove(&mut self, scope: &Scope)
        requires
            old(self).wf(),
        ensures
            final(self).wf(),
            final(self).as_map() == old(self).as_map().remove(*scope),
            !final(self).scopes().contains(*scope),
    {
        match self.position(scope) {
            Some(i) => {
                let ghost old_scopes = self.scopes();
                let ghost old_handles = self.handles();
                self.entries.remove(i);
                proof {
                    assert(self.scopes() =~= old_scopes.remove(i as int));
                    assert(self.handles() =~= old_handles.remove(i as int));
                    lemma_remove_no_duplicates(old_scopes, i as int);
                    assert forall|k: Scope| #[trigger] self.scopes().contains(k) implies
                        self.handles()[self.scopes().index_of(k)] == old(self).as_map()[k] && k != *scope by {
                        lemma_index_of_contains(self.scopes(), k);
                        let j = self.scopes().index_of(k);
                        let oj = if j < i { j } else { j + 1 };
                        assert(old_scopes[oj] == k);
                        lemma_index_of_unique(old_scopes, oj);
                        if k == *scope {
                            lemma_index_of_unique(old_scopes, i as int);
                        }
                    }
                    assert forall|k: Scope| old_scopes.contains(k) && k != *scope implies
                        #[trigger] self.scopes().contains(k) by {
                        lemma_index_of_contains(old_scopes, k);
                        let oj = old_scopes.index_of(k);
                        assert(oj != i);
                        let j = if oj < i { oj } else { oj - 1 };
                        assert(self.scopes()[j] == k);
                    }
                    assert(self.as_map() =~= old(self).as_map().remove(*scope));
                }
            },
            None => {
                assert(old(self).as_map().remove(*scope) =~= old(self).as_map());
            },
        }
    }
}

pub(crate) proof fn lemma_index_of_contains<K>(s: Seq<K>, k: K)
    requires
        s.contains(k),
    ensures
        0 <= s.index_of(k) < s.len(),
        s[s.index_of(k)] == k,
{
    s.index_of_first_ensures(k);
}

pub(crate) proof fn lemma_index_of_unique<K>(s: Seq<K>, i: int)
    requires
        s.no_duplicates(),
        0 <= i < s.len(),
    ensures
        s.index_of(s[i]) == i,
{
    lemma_index_of_contains(s, s[i]);
}

pub(crate) proof fn lemma_push_no_duplicates<K>(s: Seq<K>, k: K)
    requires
        s.no_duplicates(),
        !s.contains(k),
    ensures
        s.push(k).no_duplicates(),
{
    assert forall|i: int, j: int| 0 <= i < s.push(k).len() && 0 <= j < s.push(k).len() && i != j
        implies s.push(k)[i] != s.push(k)[j] by {
        if i < s.len() && j < s.len() {
        } else if i < s.len() {
            assert(s.contains(s[i]));
        } else if j < s.len() {
            assert(s.contains(s[j]));
        }
    }
}

pub(crate) proof fn lemma_remove_no_duplicates<K>(s: Seq<K>, i: int)
    requires
        s.no_duplicates(),
        0 <= i < s.len(),
    ensures
        s.remove(i).no_duplicates(),
{
    let r = s.remove(i);
    assert forall|a: int, b: int| 0 <= a < r.len() && 0 <= b < r.len() && a != b implies r[a] != r[b] by {
        let oa = if a < i { a } else { a + 1 };
        let ob = if b < i { b } else { b + 1 };
        assert(r[a] == s[oa]);
        assert(r[b] == s[ob]);
    }
}

/// Only the logind states `offline` and `closing` keep a user from being
/// followed: a user in any other state (`online`, `active`, `lingering`, or
/// one logind adds later) is followed.
pub proof fn lemma_only_offline_and_closing_are_gone(state: Seq<char>)
    ensures
        is_gone_state(state) <==> (state =~= "offline"@ || state =~= "closing"@),
{
}

/// What logind reports of a user, as the coordinator reads it.
pub enum UserEvent {
    /// A new user, with the state and the runtime directory read from logind
    /// (an empty state where the state could not be read).
    New { uid: u32, state: String, runtime_path: String },
    /// A user is gone.
    Removed { uid: u32 },
}

/// What the coordinator is to do after a user event.
pub enum UserAction {
    /// Connect to the manager of this user and follow it.
    Follow(UserInfo),
    /// Nothing more.
    Ignore,
}

/// Handles a user event against the table of followed managers. A new user
/// whose state is live and who has a runtime directory is to be followed
/// (the table gains it once its manager is reached); a removed user's
/// manager leaves the table.
pub fn on_user_event<T>(managers: &mut ScopeTable<T>, event: UserEvent) -> (action: UserAction)
    requires
        old(managers).wf(),
    ensures
        final(managers).wf(),
        match event {
            UserEvent::New { uid, state, runtime_path } => {
                &&& final(managers).as_map() == old(managers).as_map()
                &&& if !is_gone_state(state@) && runtime_path@.len() > 0 {
                    action matches UserAction::Follow(u) && u.uid == uid && u.name@.len() == 0
                        && u.runtime_path == runtime_path
                } else {
                    action is Ignore
                }
            },
            UserEvent::Removed { uid } => {
                &&& final(managers).as_map() == old(managers).as_map().remove(Scope::User(uid))
                &&& action is Ignore
            },
        },
        event matches UserEvent::New { uid, state, runtime_path } ==> (state@ != "offline"@ && state@
            != "closing"@ && runtime_path@.len() > 0 ==> (action matches UserAction::Follow(u) && u.uid
            == uid && u.runtime_path == runtime_path)),
{
    match event {
        UserEvent::New { uid, state, runtime_path } => {
            if !user_state_is_live(state.as_str()) {
                return UserAction::Ignore;
            }
            match live_user(uid, String::new(), runtime_path) {
                Some(info) => UserAction::Follow(info),
                None => UserAction::Ignore,
            }
        },
        UserEvent::Removed { uid } => {
            managers.remove(&Scope::User(uid));
            UserAction::Ignore
        },
    }
}

} // verus!
