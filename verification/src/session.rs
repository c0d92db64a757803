//! The session store: one record per identity, created on login, marked
//! unauthenticated on logout, and valid only inside a fixed time window.
//!
//! The store is modelled as a mathematical map from identity bytes to a
//! [`SessionState`]; every operation's contract is stated over that map.

use vstd::prelude::*;

verus! {

/// Session lifetime: 24 hours, in nanoseconds. A session issued at time
/// `t` is expired at every time `q` with `q - t >= SESSION_DURATION_NS`.
pub const SESSION_DURATION_NS: u64 = 24 * 60 * 60 * 1_000_000_000;

/// An opaque caller identity: an externally issued, byte-comparable
/// identifier. The store never inspects the bytes, it only compares them.
pub struct Identity {
    bytes: Vec<u8>,
}

impl View for Identity {
    type V = Seq<u8>;

    closed spec fn view(&self) -> Seq<u8> {
        self.bytes@
    }
}

/// Copies the bytes of a vector one by one.
fn clone_bytes(v: &Vec<u8>) -> (r: Vec<u8>)
    ensures
        r@ == v@,
{
    let mut r: Vec<u8> = Vec::new();
    let mut i: usize = 0;
    while i < v.len()
        invariant
            i <= v.len(),
            r@ == v@.subrange(0, i as int),
        decreases v.len() - i,
    {
        r.push(v[i]);
        i = i + 1;
    }
    assert(r@ =~= v@);
    r
}

impl Identity {
    /// Wraps the raw identifier bytes handed over by the hosting layer.
    pub fn from_bytes(bytes: Vec<u8>) -> (r: Identity)
        ensures
            r@ == bytes@,
    {
        Identity { bytes }
    }

    /// The raw identifier bytes.
    pub fn bytes(&self) -> (r: &Vec<u8>)
        ensures
            r@ == self@,
    {
        &self.bytes
    }

    /// Byte-for-byte equality of two identities.
    pub fn same_as(&self, other: &Identity) -> (r: bool)
        ensures
            r == (self@ == other@),
    {
        if self.bytes.len() != other.bytes.len() {
            assert(self@ != other@);
            return false;
        }
        let mut i: usize = 0;
        while i < self.bytes.len()
            invariant
                i <= self.bytes.len(),
                self.bytes.len() == other.bytes.len(),
                forall|j: int| 0 <= j < i ==> self.bytes@[j] == other.bytes@[j],
            decreases self.bytes.len() - i,
        {
            if self.bytes[i] != other.bytes[i] {
                return false;
            }
            i = i + 1;
        }
        assert(self@ =~= other@);
        true
    }
}

impl Clone for Identity {
    fn clone(&self) -> (r: Identity)
        ensures
            r@ == self@,
    {
        Identity { bytes: clone_bytes(&self.bytes) }
    }
}

/// One caller's session record: the owning identity, the explicit
/// authentication flag, and the login timestamp in nanoseconds.
pub struct UserProfile {
    pub principal_id: Identity,
    pub is_authenticated: bool,
    pub timestamp: u64,
}

impl Clone for UserProfile {
    fn clone(&self) -> (r: UserProfile)
        ensures
            r.principal_id@ == self.principal_id@,
            r.is_authenticated == self.is_authenticated,
            r.timestamp == self.timestamp,
    {
        UserProfile {
            principal_id: self.principal_id.clone(),
            is_authenticated: self.is_authenticated,
            timestamp: self.timestamp,
        }
    }
}

/// The abstract content of one session record: what the store's map view
/// associates with an identity.
pub struct SessionState {
    pub authenticated: bool,
    pub issued_at: u64,
}

/// The abstract record held for `p`.
pub open spec fn state_of(p: UserProfile) -> SessionState {
    SessionState { authenticated: p.is_authenticated, issued_at: p.timestamp }
}

/// Some record in `s` belongs to identity `k`.
pub open spec fn seq_has(s: Seq<UserProfile>, k: Seq<u8>) -> bool {
    exists|i: int| 0 <= i < s.len() && (#[trigger] s[i].principal_id@) == k
}

/// The index of the record for `k` in `s` (meaningful when `seq_has` holds
/// and the identities in `s` are unique).
pub open spec fn seq_idx(s: Seq<UserProfile>, k: Seq<u8>) -> int {
    choose|i: int| 0 <= i < s.len() && (#[trigger] s[i].principal_id@) == k
}

/// No two records in `s` belong to the same identity.
pub open spec fn unique_ids(s: Seq<UserProfile>) -> bool {
    forall|i: int, j: int|
        #![trigger s[i].principal_id@, s[j].principal_id@]
        0 <= i < j < s.len() ==> s[i].principal_id@ != s[j].principal_id@
}

/// The map from identity bytes to session state that `s` represents.
pub open spec fn map_of(s: Seq<UserProfile>) -> Map<Seq<u8>, SessionState> {
    Map::new(|k: Seq<u8>| seq_has(s, k), |k: Seq<u8>| state_of(s[seq_idx(s, k)]))
}

/// The validity policy: identity `id` is valid in map `m` at time `now`
/// iff a record exists, it is still flagged authenticated, it was not
/// issued in the future, and it has not yet aged past the session window.
pub open spec fn spec_valid(m: Map<Seq<u8>, SessionState>, id: Seq<u8>, now: u64) -> bool {
    &&& m.contains_key(id)
    &&& m[id].authenticated
    &&& m[id].issued_at <= now
    &&& now - m[id].issued_at < SESSION_DURATION_NS
}

/// With unique identities, any index holding identity `k` is the index the
/// map view reads through.
proof fn lemma_idx_unique(s: Seq<UserProfile>, k: Seq<u8>, i: int)
    requires
        unique_ids(s),
        0 <= i < s.len(),
        s[i].principal_id@ == k,
    ensures
        seq_has(s, k),
        seq_idx(s, k) == i,
        map_of(s).contains_key(k),
        map_of(s)[k] == state_of(s[i]),
{
    assert(seq_has(s, k));
    let j = seq_idx(s, k);
    assert(0 <= j < s.len() && s[j].principal_id@ == k);
    if i < j {
        assert(s[i].principal_id@ != s[j].principal_id@);
    } else if j < i {
        assert(s[j].principal_id@ != s[i].principal_id@);
    }
}

/// Replacing the record at `i` by one with the same identity turns the map
/// view into an insert at that identity.
proof fn lemma_update_map(s: Seq<UserProfile>, i: int, rec: UserProfile)
    requires
        unique_ids(s),
        0 <= i < s.len(),
        rec.principal_id@ == s[i].principal_id@,
    ensures
        unique_ids(s.update(i, rec)),
        map_of(s.update(i, rec)) == map_of(s).insert(rec.principal_id@, state_of(rec)),
{
    let s2 = s.update(i, rec);
    let k0 = rec.principal_id@;
    assert(forall|j: int|
        0 <= j < s2.len() ==> (#[trigger] s2[j].principal_id@) == s[j].principal_id@);
    assert(unique_ids(s2));
    let m1 = map_of(s).insert(k0, state_of(rec));
    let m2 = map_of(s2);
    assert forall|k: Seq<u8>| m2.contains_key(k) implies m1.contains_key(k) by {
        let j = choose|j: int| 0 <= j < s2.len() && (#[trigger] s2[j].principal_id@) == k;
        assert(s[j].principal_id@ == k);
        assert(seq_has(s, k));
    }
    assert forall|k: Seq<u8>| m1.contains_key(k) implies m2.contains_key(k) by {
        if k == k0 {
            assert(s2[i].principal_id@ == k);
            assert(seq_has(s2, k));
        } else {
            let j = choose|j: int| 0 <= j < s.len() && (#[trigger] s[j].principal_id@) == k;
            assert(s2[j].principal_id@ == k);
            assert(seq_has(s2, k));
        }
    }
    assert forall|k: Seq<u8>| m2.contains_key(k) implies m2[k] == m1[k] by {
        if k == k0 {
            lemma_idx_unique(s2, k, i);
        } else {
            let j = choose|j: int| 0 <= j < s2.len() && (#[trigger] s2[j].principal_id@) == k;
            assert(j != i);
            lemma_idx_unique(s2, k, j);
            lemma_idx_unique(s, k, j);
        }
    }
    assert(m2 =~= m1);
}

/// Appending a record for an identity not yet present turns the map view
/// into an insert at that identity.
proof fn lemma_push_map(s: Seq<UserProfile>, rec: UserProfile)
    requires
        unique_ids(s),
        !seq_has(s, rec.principal_id@),
    ensures
        unique_ids(s.push(rec)),
        map_of(s.push(rec)) == map_of(s).insert(rec.principal_id@, state_of(rec)),
{
    let s2 = s.push(rec);
    let k0 = rec.principal_id@;
    let n = s.len() as int;
    assert(forall|j: int| 0 <= j < n ==> (#[trigger] s2[j].principal_id@) == s[j].principal_id@);
    assert(s2[n].principal_id@ == k0);
    assert forall|i: int, j: int|
        #![trigger s2[i].principal_id@, s2[j].principal_id@]
        0 <= i < j < s2.len() implies s2[i].principal_id@ != s2[j].principal_id@ by {
        if j == n {
            assert(s[i].principal_id@ != k0);
        }
    }
    let m1 = map_of(s).insert(k0, state_of(rec));
    let m2 = map_of(s2);
    assert forall|k: Seq<u8>| m2.contains_key(k) implies m1.contains_key(k) by {
        let j = choose|j: int| 0 <= j < s2.len() && (#[trigger] s2[j].principal_id@) == k;
        if j < n {
            assert(seq_has(s, k));
        }
    }
    assert forall|k: Seq<u8>| m1.contains_key(k) implies m2.contains_key(k) by {
        if k == k0 {
            assert(s2[n].principal_id@ == k);
            assert(seq_has(s2, k));
        } else {
            let j = choose|j: int| 0 <= j < s.len() && (#[trigger] s[j].principal_id@) == k;
            assert(s2[j].principal_id@ == k);
            assert(seq_has(s2, k));
        }
    }
    assert forall|k: Seq<u8>| m2.contains_key(k) implies m2[k] == m1[k] by {
        if k == k0 {
            lemma_idx_unique(s2, k, n);
        } else {
            let j = choose|j: int| 0 <= j < s2.len() && (#[trigger] s2[j].principal_id@) == k;
            assert(j != n);
            lemma_idx_unique(s2, k, j);
            lemma_idx_unique(s, k, j);
        }
    }
    assert(m2 =~= m1);
}

/// An identity that has never logged in has no record, so no query time
/// makes it valid (and `get_user` reads it as absent).
pub proof fn lemma_unknown_identity_invalid(
    m: Map<Seq<u8>, SessionState>,
    id: Seq<u8>,
    now: u64,
)
    requires
        !m.contains_key(id),
    ensures
        !spec_valid(m, id, now),
{
}

/// A login at time `t` makes the session valid at exactly the query times
/// `q` with `t <= q` and `q - t < SESSION_DURATION_NS`: valid strictly
/// inside the window (in particular at `q == t`), invalid at its boundary
/// and beyond, and invalid at query times before the login itself.
pub proof fn lemma_login_validity_window(
    m: Map<Seq<u8>, SessionState>,
    id: Seq<u8>,
    t: u64,
    q: u64,
)
    ensures
        spec_valid(m.insert(id, SessionState { authenticated: true, issued_at: t }), id, q)
            <==> (t <= q && q - t < SESSION_DURATION_NS),
{
}

/// After a login at time `t`, a logout finds the record (it reports
/// success), and afterwards no query time makes the session valid.
pub proof fn lemma_login_then_logout_invalid(
    m: Map<Seq<u8>, SessionState>,
    id: Seq<u8>,
    t: u64,
    q: u64,
)
    ensures
        m.insert(id, SessionState { authenticated: true, issued_at: t }).contains_key(id),
        !spec_valid(
            m.insert(id, SessionState { authenticated: true, issued_at: t }).insert(
                id,
                SessionState { authenticated: false, issued_at: t },
            ),
            id,
            q,
        ),
{
}

/// A second login overwrites the first: the store is exactly as if only
/// the later login had happened, and validity is measured from the later
/// timestamp alone.
pub proof fn lemma_relogin_overwrites(
    m: Map<Seq<u8>, SessionState>,
    id: Seq<u8>,
    t1: u64,
    t2: u64,
    q: u64,
)
    ensures
        m.insert(id, SessionState { authenticated: true, issued_at: t1 }).insert(
            id,
            SessionState { authenticated: true, issued_at: t2 },
        ) == m.insert(id, SessionState { authenticated: true, issued_at: t2 }),
        spec_valid(
            m.insert(id, SessionState { authenticated: true, issued_at: t1 }).insert(
                id,
                SessionState { authenticated: true, issued_at: t2 },
            ),
            id,
            q,
        ) <==> (t2 <= q && q - t2 < SESSION_DURATION_NS),
{
    let m1 = m.insert(id, SessionState { authenticated: true, issued_at: t1 });
    let m2 = m.insert(id, SessionState { authenticated: true, issued_at: t2 });
    assert(m1.insert(id, SessionState { authenticated: true, issued_at: t2 }) =~= m2);
    lemma_login_validity_window(m, id, t2, q);
}

/// Writing identity `a`'s record — as `login` and `logout` do — neither
/// creates, changes nor revalidates the record of any other identity `b`.
pub proof fn lemma_identity_isolation(
    m: Map<Seq<u8>, SessionState>,
    a: Seq<u8>,
    s: SessionState,
    b: Seq<u8>,
    now: u64,
)
    requires
        a != b,
    ensures
        m.insert(a, s).contains_key(b) == m.contains_key(b),
        m.contains_key(b) ==> m.insert(a, s)[b] == m[b],
        spec_valid(m.insert(a, s), b, now) == spec_valid(m, b, now),
{
}

/// The session store: at most one record per identity, records are
/// overwritten by re-login and flagged by logout, never removed.
pub struct SessionStore {
    users: Vec<UserProfile>,
}

impl View for SessionStore {
    type V = Map<Seq<u8>, SessionState>;

    closed spec fn view(&self) -> Map<Seq<u8>, SessionState> {
        map_of(self.users@)
    }
}

impl SessionStore {
    /// Each identity owns at most one record.
    pub closed spec fn wf(&self) -> bool {
        unique_ids(self.users@)
    }

    /// An empty store: no identity has ever logged in.
    pub fn new() -> (s: SessionStore)
        ensures
            s.wf(),
            s@ == Map::<Seq<u8>, SessionState>::empty(),
    {
        let s = SessionStore { users: Vec::new() };
        proof {
            assert(s@ =~= Map::<Seq<u8>, SessionState>::empty());
        }
        s
    }

    /// The index of the caller's record, if one exists.
    fn find_index(&self, caller: &Identity) -> (r: Option<usize>)
        ensures
            match r {
                Some(i) => i < self.users@.len() && self.users@[i as int].principal_id@ == caller@,
                None => !seq_has(self.users@, caller@),
            },
    {
        let mut i: usize = 0;
        while i < self.users.len()
            invariant
                i <= self.users.len(),
                forall|j: int| 0 <= j < i ==> (#[trigger] self.users@[j].principal_id@) != caller@,
            decreases self.users.len() - i,
        {
            if self.users[i].principal_id.same_as(caller) {
                return Some(i);
            }
            i = i + 1;
        }
        None
    }

    /// Records a login for `caller` at time `now`: the caller's entry is
    /// created or overwritten with a fresh authenticated record, and that
    /// record is returned. Always succeeds.
    pub fn login(&mut self, caller: &Identity, now: u64) -> (p: UserProfile)
        requires
            old(self).wf(),
        ensures
            final(self).wf(),
            p.principal_id@ == caller@,
            p.is_authenticated,
            p.timestamp == now,
            final(self)@ == old(self)@.insert(
                caller@,
                SessionState { authenticated: true, issued_at: now },
            ),
    {
        let record = UserProfile {
            principal_id: caller.clone(),
            is_authenticated: true,
            timestamp: now,
        };
        let result = record.clone();
        match self.find_index(caller) {
            Some(i) => {
                let ghost s = self.users@;
                proof {
                    lemma_update_map(s, i as int, record);
                }
                self.users[i] = record;
                assert(self.users@ == s.update(i as int, record));
            }
            None => {
                proof {
                    lemma_push_map(self.users@, record);
                }
                self.users.push(record);
            }
        }
        result
    }

    /// Marks the caller's record unauthenticated, if one exists, and
    /// reports whether one did. The record is never removed, and no record
    /// is created for an unknown caller.
    pub fn logout(&mut self, caller: &Identity) -> (r: bool)
        requires
            old(self).wf(),
        ensures
            final(self).wf(),
            r == old(self)@.contains_key(caller@),
            r ==> final(self)@ == old(self)@.insert(
                caller@,
                SessionState { authenticated: false, issued_at: old(self)@[caller@].issued_at },
            ),
            !r ==> *final(self) == *old(self),
    {
        match self.find_index(caller) {
            Some(i) => {
                proof {
                    lemma_idx_unique(self.users@, caller@, i as int);
                }
                let record = UserProfile {
                    principal_id: self.users[i].principal_id.clone(),
                    is_authenticated: false,
                    timestamp: self.users[i].timestamp,
                };
                let ghost s = self.users@;
                proof {
                    lemma_update_map(s, i as int, record);
                }
                self.users[i] = record;
                assert(self.users@ == s.update(i as int, record));
                true
            }
            None => {
                assert(!self@.contains_key(caller@));
                false
            }
        }
    }

    /// Applies the validity policy for `caller` at time `now`: a record
    /// exists, is flagged authenticated, and `now` lies inside the session
    /// window starting at its login timestamp.
    pub fn is_session_valid(&self, caller: &Identity, now: u64) -> (r: bool)
        requires
            self.wf(),
        ensures
            r == spec_valid(self@, caller@, now),
    {
        match self.find_index(caller) {
            Some(i) => {
                proof {
                    lemma_idx_unique(self.users@, caller@, i as int);
                }
                let p = &self.users[i];
                p.is_authenticated && p.timestamp <= now && now - p.timestamp < SESSION_DURATION_NS
            }
            None => {
                assert(!self@.contains_key(caller@));
                false
            }
        }
    }

    /// Returns the caller's record exactly when the caller's session is
    /// valid at time `now`; an expired, logged-out or absent session reads
    /// as absent.
    pub fn get_user(&self, caller: &Identity, now: u64) -> (r: Option<UserProfile>)
        requires
            self.wf(),
        ensures
            (r is Some) == spec_valid(self@, caller@, now),
            r matches Some(p) ==> {
                &&& p.principal_id@ == caller@
                &&& p.is_authenticated == self@[caller@].authenticated
                &&& p.timestamp == self@[caller@].issued_at
            },
    {
        match self.find_index(caller) {
            Some(i) => {
                proof {
                    lemma_idx_unique(self.users@, caller@, i as int);
                }
                if self.is_session_valid(caller, now) {
                    Some(self.users[i].clone())
                } else {
                    None
                }
            }
            None => {
                assert(!self@.contains_key(caller@));
                None
            }
        }
    }
}

} // verus!

