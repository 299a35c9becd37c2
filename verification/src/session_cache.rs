//! The recency-bounded cache of logged-in sessions: bearer token to session
//! record, with a reverse index from user id to token and TTL-based
//! eviction. The two structures are updated together under one exclusive
//! borrow, so the invariant holds after every operation: every cached
//! token's user id maps back to that token, and the reverse index never
//! holds a token absent from the primary cache. Both structures are lru's
//! recency-ordered cache, used through trusted wrappers whose contracts
//! speak of the entries in most-recently-used-first order.

use vstd::prelude::*;

use crate::discord::LoggedUser;
use crate::discord::LoggedUserView;
use crate::types::GuildMember;
use crate::types::PartialGuild;

verus! {

broadcast use vstd::std_specs::hash::group_hash_axioms;

#[verifier::external_type_specification]
#[verifier::external_body]
#[verifier::reject_recursive_types(K)]
#[verifier::reject_recursive_types(V)]
#[verifier::reject_recursive_types(S)]
pub struct ExLruCache<K, V, S>(lru::LruCache<K, V, S>);

/// The index of the first entry with the given key, or -1 if none has it.
pub open spec fn key_index<K, V>(s: Seq<(K, V)>, k: K) -> int
    decreases s.len(),
{
    if s.len() == 0 {
        -1
    } else if s[0].0 == k {
        0
    } else if key_index(s.drop_first(), k) == -1 {
        -1
    } else {
        key_index(s.drop_first(), k) + 1
    }
}

/// Whether some entry has the given key.
pub open spec fn has_key<K, V>(s: Seq<(K, V)>, k: K) -> bool {
    key_index(s, k) >= 0
}

/// The value of the first entry with the given key.
pub open spec fn value_of<K, V>(s: Seq<(K, V)>, k: K) -> V {
    s[key_index(s, k)].1
}

/// No two entries share a key.
pub open spec fn distinct_keys<K, V>(s: Seq<(K, V)>) -> bool {
    forall|i: int, j: int| 0 <= i < j < s.len() ==> (#[trigger] s[i]).0 != (#[trigger] s[j]).0
}

/// What the key index means: -1 exactly when the key is absent, otherwise
/// the first position holding the key.
pub proof fn lemma_key_index<K, V>(s: Seq<(K, V)>, k: K)
    ensures
        -1 <= key_index(s, k) < s.len(),
        key_index(s, k) == -1 ==> forall|i: int| 0 <= i < s.len() ==> (#[trigger] s[i]).0 != k,
        key_index(s, k) >= 0 ==> s[key_index(s, k)].0 == k && forall|i: int|
            0 <= i < key_index(s, k) ==> (#[trigger] s[i]).0 != k,
    decreases s.len(),
{
    if s.len() > 0 && s[0].0 != k {
        lemma_key_index(s.drop_first(), k);
        let t = s.drop_first();
        if key_index(s, k) == -1 {
            assert forall|i: int| 0 <= i < s.len() implies (#[trigger] s[i]).0 != k by {
                if i >= 1 {
                    assert(s[i] == t[i - 1]);
                    assert(t[i - 1].0 != k);
                }
            }
        } else {
            assert(s[key_index(s, k)] == t[key_index(t, k)]);
            assert forall|i: int| 0 <= i < key_index(s, k) implies (#[trigger] s[i]).0 != k by {
                if i >= 1 {
                    assert(s[i] == t[i - 1]);
                    assert(t[i - 1].0 != k);
                }
            }
        }
    }
}

/// Under distinct keys, any position holding the key is the key index.
pub proof fn lemma_key_index_unique<K, V>(s: Seq<(K, V)>, k: K, i: int)
    requires
        distinct_keys(s),
        0 <= i < s.len(),
        s[i].0 == k,
    ensures
        key_index(s, k) == i,
{
    lemma_key_index(s, k);
    if key_index(s, k) == -1 {
        assert(s[i].0 != k);
    } else {
        let j = key_index(s, k);
        if j < i {
            assert(s[j].0 != s[i].0);
        }
    }
}

/// The entry at position `i` moved to the front, everything else in order.
pub open spec fn promote<K, V>(s: Seq<(K, V)>, i: int) -> Seq<(K, V)> {
    seq![s[i]] + s.remove(i)
}

/// The abstract contents of the primary session cache, most recently used
/// first: token text paired with the session record's content.
pub uninterp spec fn session_entries(c: lru::LruCache<String, LoggedUser>) -> Seq<
    (Seq<char>, LoggedUserView),
>;

/// The fixed capacity the primary session cache was created with.
pub uninterp spec fn session_cap(c: lru::LruCache<String, LoggedUser>) -> nat;

/// The abstract contents of the reverse index, most recently used first:
/// user id paired with token text.
pub uninterp spec fn reverse_entries(
    c: lru::LruCache<u64, String, fxhash::FxBuildHasher>,
) -> Seq<(u64, Seq<char>)>;

/// The fixed capacity the reverse index was created with.
pub uninterp spec fn reverse_cap(c: lru::LruCache<u64, String, fxhash::FxBuildHasher>) -> nat;

/// Relies on lru::LruCache::push: an existing key is re-valued and moved to
/// the front and its old entry returned; a new key is inserted at the front,
/// evicting and returning the least-recently-used entry when the cache is
/// full. Callers here never push at capacity or an existing key, so the
/// contract covers the plain insert alone.
#[verifier::external_body]
fn lru_push_session(
    c: &mut lru::LruCache<String, LoggedUser>,
    k: String,
    v: LoggedUser,
) -> (r: Option<(String, LoggedUser)>)
    requires
        !has_key(session_entries(*old(c)), k@),
        session_entries(*old(c)).len() < session_cap(*old(c)),
    ensures
        session_cap(*final(c)) == session_cap(*old(c)),
        session_entries(*final(c)) == seq![(k@, v@)] + session_entries(*old(c)),
        r is None,
{
    c.push(k, v)
}

/// Relies on lru::LruCache::get: returns the value under the key, if any,
/// and moves that entry to the front (a use, for recency purposes). The
/// returned record is cloned; the clone keeps its content.
#[verifier::external_body]
fn lru_get_session(c: &mut lru::LruCache<String, LoggedUser>, k: &String) -> (r: Option<
    LoggedUser,
>)
    ensures
        session_cap(*final(c)) == session_cap(*old(c)),
        ({
            let s = session_entries(*old(c));
            let i = key_index(s, k@);
            if i >= 0 {
                r matches Some(v) && v@ == s[i].1 && session_entries(*final(c)) == promote(s, i)
            } else {
                r is None && session_entries(*final(c)) == s
            }
        }),
{
    c.get(k).map(|v| v.clone())
}

/// Relies on lru::LruCache::pop_entry: removes the entry under the key and
/// returns it, if any; the order of the remaining entries is kept.
#[verifier::external_body]
fn lru_pop_entry_session(c: &mut lru::LruCache<String, LoggedUser>, k: &String) -> (r: Option<
    (String, LoggedUser),
>)
    ensures
        session_cap(*final(c)) == session_cap(*old(c)),
        ({
            let s = session_entries(*old(c));
            let i = key_index(s, k@);
            if i >= 0 {
                r matches Some(p) && p.0@ == s[i].0 && p.1@ == s[i].1 && session_entries(
                    *final(c),
                ) == s.remove(i)
            } else {
                r is None && session_entries(*final(c)) == s
            }
        }),
{
    c.pop_entry(k)
}

/// Relies on lru::LruCache::pop_lru: removes and returns the
/// least-recently-used entry, the last in recency order, if any.
#[verifier::external_body]
fn lru_pop_lru_session(c: &mut lru::LruCache<String, LoggedUser>) -> (r: Option<
    (String, LoggedUser),
>)
    ensures
        session_cap(*final(c)) == session_cap(*old(c)),
        ({
            let s = session_entries(*old(c));
            if s.len() > 0 {
                r matches Some(p) && p.0@ == s.last().0 && p.1@ == s.last().1 && session_entries(
                    *final(c),
                ) == s.drop_last()
            } else {
                r is None && session_entries(*final(c)) == s
            }
        }),
{
    c.pop_lru()
}

/// Relies on lru::LruCache::len: the number of entries.
#[verifier::external_body]
fn lru_len_session(c: &lru::LruCache<String, LoggedUser>) -> (r: usize)
    ensures
        r == session_entries(*c).len(),
{
    c.len()
}

/// Relies on lru::LruCache::iter: visits the entries in
/// most-recently-used-first order (entries are cloned; a clone keeps each
/// record's content).
#[verifier::external_body]
fn lru_entries_session(c: &lru::LruCache<String, LoggedUser>) -> (r: Vec<(String, LoggedUser)>)
    ensures
        r@.len() == session_entries(*c).len(),
        forall|i: int|
            0 <= i < r@.len() ==> ((#[trigger] r@[i]).0@, r@[i].1@) == session_entries(*c)[i],
{
    c.iter().map(|(k, v)| (k.clone(), v.clone())).collect()
}

/// Relies on lru::LruCache::push, as for the primary cache: callers here
/// never push at capacity or an existing key, so the contract covers the
/// plain insert alone.
#[verifier::external_body]
fn lru_push_reverse(
    c: &mut lru::LruCache<u64, String, fxhash::FxBuildHasher>,
    k: u64,
    v: String,
) -> (r: Option<(u64, String)>)
    requires
        !has_key(reverse_entries(*old(c)), k),
        reverse_entries(*old(c)).len() < reverse_cap(*old(c)),
    ensures
        reverse_cap(*final(c)) == reverse_cap(*old(c)),
        reverse_entries(*final(c)) == seq![(k, v@)] + reverse_entries(*old(c)),
        r is None,
{
    c.push(k, v)
}

/// Relies on lru::LruCache::get: returns the token under the user id, if
/// any, and moves that entry to the front (cloned; the clone keeps its
/// text).
#[verifier::external_body]
fn lru_get_reverse(c: &mut lru::LruCache<u64, String, fxhash::FxBuildHasher>, k: u64) -> (r:
    Option<String>)
    ensures
        reverse_cap(*final(c)) == reverse_cap(*old(c)),
        ({
            let s = reverse_entries(*old(c));
            let i = key_index(s, k);
            if i >= 0 {
                r matches Some(v) && v@ == s[i].1 && reverse_entries(*final(c)) == promote(s, i)
            } else {
                r is None && reverse_entries(*final(c)) == s
            }
        }),
{
    c.get(&k).map(|v| v.clone())
}

/// Relies on lru::LruCache::pop_entry: removes the entry under the user id
/// and returns it, if any; the order of the remaining entries is kept.
#[verifier::external_body]
fn lru_pop_entry_reverse(c: &mut lru::LruCache<u64, String, fxhash::FxBuildHasher>, k: u64) -> (r:
    Option<(u64, String)>)
    ensures
        reverse_cap(*final(c)) == reverse_cap(*old(c)),
        ({
            let s = reverse_entries(*old(c));
            let i = key_index(s, k);
            if i >= 0 {
                r matches Some(p) && p.0 == s[i].0 && p.1@ == s[i].1 && reverse_entries(
                    *final(c),
                ) == s.remove(i)
            } else {
                r is None && reverse_entries(*final(c)) == s
            }
        }),
{
    c.pop_entry(&k)
}

/// The abstract state of the session cache: the primary entries and the
/// reverse index, each most recently used first, and the shared capacity.
#[verifier::ext_equal]
pub struct SessionCacheView {
    pub sessions: Seq<(Seq<char>, LoggedUserView)>,
    pub reverse: Seq<(u64, Seq<char>)>,
    pub cap: nat,
}

/// The consistency invariant: a positive bound respected by both sides, no
/// duplicate tokens or user ids, and the two structures in exact mutual
/// correspondence: every cached session's user id maps back to its token,
/// and every reverse entry names a cached token whose session carries that
/// user id.
pub open spec fn inv_view(v: SessionCacheView) -> bool {
    &&& v.cap >= 1
    &&& v.sessions.len() <= v.cap
    &&& v.sessions.len() == v.reverse.len()
    &&& distinct_keys(v.sessions)
    &&& distinct_keys(v.reverse)
    &&& forall|i: int|
        0 <= i < v.sessions.len() ==> has_key(v.reverse, (#[trigger] v.sessions[i]).1.user_id)
            && value_of(v.reverse, v.sessions[i].1.user_id) == v.sessions[i].0
    &&& forall|j: int|
        0 <= j < v.reverse.len() ==> has_key(v.sessions, (#[trigger] v.reverse[j]).1) && value_of(
            v.sessions,
            v.reverse[j].1,
        ).user_id == v.reverse[j].0
}

/// The recency-bounded session cache with its reverse index.
pub struct SessionCache {
    cache: lru::LruCache<String, LoggedUser>,
    reverse: lru::LruCache<u64, String, fxhash::FxBuildHasher>,
}

impl View for SessionCache {
    type V = SessionCacheView;

    closed spec fn view(&self) -> SessionCacheView {
        SessionCacheView {
            sessions: session_entries(self.cache),
            reverse: reverse_entries(self.reverse),
            cap: session_cap(self.cache),
        }
    }
}

impl SessionCache {
    /// Well-formedness: the published invariant, and the bound the hidden
    /// reverse structure was created with agrees with the cache's.
    pub closed spec fn wf(&self) -> bool {
        &&& inv_view(self@)
        &&& reverse_cap(self.reverse) == session_cap(self.cache)
    }

    /// The reverse-index law, holding after every operation: the reverse
    /// index maps every cached session's user id back to that session's
    /// token, and every reverse entry names a token still present in the
    /// primary cache, whose session belongs to that user.
    pub proof fn lemma_reverse_index_consistent(&self)
        requires
            self.wf(),
        ensures
            inv_view(self@),
            forall|i: int|
                0 <= i < self@.sessions.len() ==> has_key(
                    self@.reverse,
                    (#[trigger] self@.sessions[i]).1.user_id,
                ) && value_of(self@.reverse, self@.sessions[i].1.user_id)
                    == self@.sessions[i].0,
            forall|j: int|
                0 <= j < self@.reverse.len() ==> has_key(
                    self@.sessions,
                    (#[trigger] self@.reverse[j]).1,
                ) && value_of(self@.sessions, self@.reverse[j].1).user_id == self@.reverse[j].0,
    {
    }

    /// An empty cache with the given capacity. Relies on
    /// lru::LruCache::new and lru::LruCache::with_hasher: both caches start
    /// empty with the given fixed capacity.
    #[verifier::external_body]
    pub fn new(capacity: usize) -> (r: SessionCache)
        requires
            capacity >= 1,
        ensures
            r@.sessions.len() == 0,
            r@.reverse.len() == 0,
            r@.cap == capacity,
            r.wf(),
    {
        SessionCache {
            cache: lru::LruCache::new(capacity),
            reverse: lru::LruCache::with_hasher(capacity, fxhash::FxBuildHasher::default()),
        }
    }

    /// The session under this token, if cached; counts as a use, moving the
    /// entry to the front of the recency order. The reverse index is
    /// untouched.
    pub fn get(&mut self, token: &String) -> (r: Option<LoggedUser>)
        requires
            old(self).wf(),
        ensures
            final(self).wf(),
            final(self)@.cap == old(self)@.cap,
            final(self)@.reverse == old(self)@.reverse,
            ({
                let s = old(self)@.sessions;
                let i = key_index(s, token@);
                if i >= 0 {
                    r matches Some(v) && v@ == s[i].1 && final(self)@.sessions == promote(s, i)
                } else {
                    r is None && final(self)@.sessions == s
                }
            }),
    {
        proof {
            lemma_key_index(old(self)@.sessions, token@);
        }
        let r = lru_get_session(&mut self.cache, token);
        proof {
            let s = old(self)@.sessions;
            let i = key_index(s, token@);
            if i >= 0 {
                lemma_promote_preserves_inv(old(self)@, i);
            }
        }
        r
    }

    /// The cached token of this user, if any; a use of the reverse entry,
    /// moving it to the front of the reverse recency order. The primary
    /// cache is untouched.
    pub fn lookup_token_by_user(&mut self, user_id: u64) -> (r: Option<String>)
        requires
            old(self).wf(),
        ensures
            final(self).wf(),
            final(self)@.cap == old(self)@.cap,
            final(self)@.sessions == old(self)@.sessions,
            ({
                let s = old(self)@.reverse;
                let i = key_index(s, user_id);
                if i >= 0 {
                    r matches Some(t) && t@ == s[i].1 && final(self)@.reverse == promote(s, i)
                } else {
                    r is None && final(self)@.reverse == s
                }
            }),
    {
        proof {
            lemma_key_index(old(self)@.reverse, user_id);
        }
        let r = lru_get_reverse(&mut self.reverse, user_id);
        proof {
            let s = old(self)@.reverse;
            let i = key_index(s, user_id);
            if i >= 0 {
                lemma_promote_reverse_preserves_inv(old(self)@, i);
            }
        }
        r
    }
}

/// Moving a session entry to the front preserves the invariant: membership
/// and values are unchanged on both sides.
pub proof fn lemma_promote_preserves_inv(v: SessionCacheView, i: int)
    requires
        inv_view(v),
        0 <= i < v.sessions.len(),
    ensures
        inv_view(
            SessionCacheView { sessions: promote(v.sessions, i), reverse: v.reverse, cap: v.cap },
        ),
{
    let p = promote(v.sessions, i);
    lemma_promote_same_keys(v.sessions, i);
    assert forall|j: int| 0 <= j < v.reverse.len() implies has_key(p, (#[trigger] v.reverse[j]).1)
        && value_of(p, v.reverse[j].1).user_id == v.reverse[j].0 by {
        lemma_key_index(v.sessions, v.reverse[j].1);
        let k0 = key_index(v.sessions, v.reverse[j].1);
        lemma_key_index_unique(p, v.reverse[j].1, position_after_promote(v.sessions, i, k0));
    }
}

/// Moving a reverse entry to the front preserves the invariant.
pub proof fn lemma_promote_reverse_preserves_inv(v: SessionCacheView, i: int)
    requires
        inv_view(v),
        0 <= i < v.reverse.len(),
    ensures
        inv_view(
            SessionCacheView { sessions: v.sessions, reverse: promote(v.reverse, i), cap: v.cap },
        ),
{
    let p = promote(v.reverse, i);
    lemma_promote_same_keys(v.reverse, i);
    assert forall|j: int| 0 <= j < v.sessions.len() implies has_key(
        p,
        (#[trigger] v.sessions[j]).1.user_id,
    ) && value_of(p, v.sessions[j].1.user_id) == v.sessions[j].0 by {
        lemma_key_index(v.reverse, v.sessions[j].1.user_id);
        let k0 = key_index(v.reverse, v.sessions[j].1.user_id);
        lemma_key_index_unique(p, v.sessions[j].1.user_id, position_after_promote(v.reverse, i, k0));
    }
}

/// Where the entry at position `k` of `s` lands after the entry at `i` is
/// moved to the front.
pub open spec fn position_after_promote<K, V>(s: Seq<(K, V)>, i: int, k: int) -> int {
    if k == i {
        0
    } else if k < i {
        k + 1
    } else {
        k
    }
}

/// Promoting keeps the same set of entries: each old position maps to a new
/// one with the same entry, keys stay distinct, and every key keeps its
/// value.
pub proof fn lemma_promote_same_keys<K, V>(s: Seq<(K, V)>, i: int)
    requires
        0 <= i < s.len(),
        distinct_keys(s),
    ensures
        promote(s, i).len() == s.len(),
        distinct_keys(promote(s, i)),
        forall|k: int|
            0 <= k < s.len() ==> 0 <= position_after_promote(s, i, k) < s.len() && promote(
                s,
                i,
            )[position_after_promote(s, i, k)] == (#[trigger] s[k]),
{
    let p = promote(s, i);
    assert(p.len() == s.len());
    assert forall|k: int| 0 <= k < s.len() implies p[position_after_promote(s, i, k)] == (
    #[trigger] s[k]) by {
        if k == i {
            assert(p[0] == s[i]);
        } else if k < i {
            assert(p[k + 1] == s.remove(i)[k]);
            assert(s.remove(i)[k] == s[k]);
        } else {
            assert(p[k] == s.remove(i)[k - 1]);
            assert(s.remove(i)[k - 1] == s[k]);
        }
    }
    assert forall|a: int, b: int| 0 <= a < b < p.len() implies (#[trigger] p[a]).0 != (
    #[trigger] p[b]).0 by {
        let oa = original_position_of_promote(s, i, a);
        let ob = original_position_of_promote(s, i, b);
        assert(p[a] == s[oa]);
        assert(p[b] == s[ob]);
        assert(oa != ob);
        if oa < ob {
            assert(s[oa].0 != s[ob].0);
        } else {
            assert(s[ob].0 != s[oa].0);
        }
    }
}

/// The inverse of `position_after_promote`: which old position the entry at
/// new position `k` came from.
pub open spec fn original_position_of_promote<K, V>(s: Seq<(K, V)>, i: int, k: int) -> int {
    if k == 0 {
        i
    } else if k <= i {
        k - 1
    } else {
        k
    }
}

/// Where the entry at old position `q` lands after the entry at `p` is
/// removed (for `q != p`).
pub open spec fn position_after_remove(p: int, q: int) -> int {
    if q < p {
        q
    } else {
        q - 1
    }
}

/// Removing one entry keeps every other key, with its value, and keeps keys
/// distinct; the removed entry's key disappears.
pub proof fn lemma_remove_keeps_other_keys<K, V>(s: Seq<(K, V)>, p: int, k: K)
    requires
        distinct_keys(s),
        0 <= p < s.len(),
    ensures
        distinct_keys(s.remove(p)),
        !has_key(s, k) ==> !has_key(s.remove(p), k),
        has_key(s, k) && key_index(s, k) != p ==> has_key(s.remove(p), k) && value_of(
            s.remove(p),
            k,
        ) == value_of(s, k) && key_index(s.remove(p), k) == position_after_remove(
            p,
            key_index(s, k),
        ),
        key_index(s, k) == p ==> !has_key(s.remove(p), k),
{
    let t = s.remove(p);
    assert(forall|i: int| 0 <= i < p ==> (#[trigger] t[i]) == s[i]);
    assert(forall|i: int| p <= i < t.len() ==> (#[trigger] t[i]) == s[i + 1]);
    assert forall|a: int, b: int| 0 <= a < b < t.len() implies (#[trigger] t[a]).0 != (
    #[trigger] t[b]).0 by {
        let oa = if a < p { a } else { a + 1 };
        let ob = if b < p { b } else { b + 1 };
        assert(t[a] == s[oa]);
        assert(t[b] == s[ob]);
        assert(s[oa].0 != s[ob].0);
    }
    lemma_key_index(s, k);
    lemma_key_index(t, k);
    let q = key_index(s, k);
    if q == -1 {
        if has_key(t, k) {
            let x = key_index(t, k);
            let ox = if x < p { x } else { x + 1 };
            assert(t[x] == s[ox]);
            assert(s[ox].0 != k);
        }
    } else if q != p {
        let pos = position_after_remove(p, q);
        assert(t[pos] == s[q]);
        lemma_key_index_unique(t, k, pos);
    } else {
        if has_key(t, k) {
            let x = key_index(t, k);
            if x < p {
                assert(s[x].0 != k);
            } else {
                assert(t[x] == s[x + 1]);
                assert(s[p].0 != s[x + 1].0);
            }
        }
    }
}

/// Prepending a fresh key keeps every other key with its value, keeps keys
/// distinct, and puts the new key first.
pub proof fn lemma_prepend_keeps_keys<K, V>(s: Seq<(K, V)>, k0: K, v0: V, k: K)
    requires
        distinct_keys(s),
        !has_key(s, k0),
    ensures
        distinct_keys(seq![(k0, v0)] + s),
        key_index(seq![(k0, v0)] + s, k0) == 0,
        value_of(seq![(k0, v0)] + s, k0) == v0,
        k != k0 && has_key(s, k) ==> has_key(seq![(k0, v0)] + s, k) && value_of(
            seq![(k0, v0)] + s,
            k,
        ) == value_of(s, k),
        k != k0 && !has_key(s, k) ==> !has_key(seq![(k0, v0)] + s, k),
{
    let t = seq![(k0, v0)] + s;
    lemma_key_index(s, k0);
    assert(forall|i: int| 0 <= i < s.len() ==> (#[trigger] t[i + 1]) == s[i]);
    assert(t[0] == (k0, v0));
    assert forall|a: int, b: int| 0 <= a < b < t.len() implies (#[trigger] t[a]).0 != (
    #[trigger] t[b]).0 by {
        if a == 0 {
            assert(t[b] == s[b - 1]);
            assert(s[b - 1].0 != k0);
        } else {
            assert(t[a] == s[a - 1]);
            assert(t[b] == s[b - 1]);
            assert(s[a - 1].0 != s[b - 1].0);
        }
    }
    assert(key_index(t, k0) == 0);
    lemma_key_index(s, k);
    lemma_key_index(t, k);
    if k != k0 {
        let q = key_index(s, k);
        if q >= 0 {
            assert(t[q + 1] == s[q]);
            lemma_key_index_unique(t, k, q + 1);
        } else {
            if has_key(t, k) {
                let x = key_index(t, k);
                assert(x != 0);
                assert(t[x] == s[x - 1]);
                assert(s[x - 1].0 != k);
            }
        }
    }
}

/// Under the invariant, no two cached sessions share a user id.
pub proof fn lemma_inv_user_unique(v: SessionCacheView, a: int, b: int)
    requires
        inv_view(v),
        0 <= a < v.sessions.len(),
        0 <= b < v.sessions.len(),
        a != b,
    ensures
        v.sessions[a].1.user_id != v.sessions[b].1.user_id,
{
    if v.sessions[a].1.user_id == v.sessions[b].1.user_id {
        assert(value_of(v.reverse, v.sessions[a].1.user_id) == v.sessions[a].0);
        assert(value_of(v.reverse, v.sessions[b].1.user_id) == v.sessions[b].0);
        if a < b {
            assert(v.sessions[a].0 != v.sessions[b].0);
        } else {
            assert(v.sessions[b].0 != v.sessions[a].0);
        }
    }
}

/// Removing a cached session together with its reverse entry keeps the
/// invariant.
pub proof fn lemma_remove_matched_pair_inv(v: SessionCacheView, tk: Seq<char>)
    requires
        inv_view(v),
        has_key(v.sessions, tk),
    ensures
        has_key(v.reverse, value_of(v.sessions, tk).user_id),
        value_of(v.reverse, value_of(v.sessions, tk).user_id) == tk,
        inv_view(
            SessionCacheView {
                sessions: v.sessions.remove(key_index(v.sessions, tk)),
                reverse: v.reverse.remove(
                    key_index(v.reverse, value_of(v.sessions, tk).user_id),
                ),
                cap: v.cap,
            },
        ),
{
    let p = key_index(v.sessions, tk);
    lemma_key_index(v.sessions, tk);
    let u = v.sessions[p].1;
    assert(has_key(v.reverse, u.user_id) && value_of(v.reverse, u.user_id) == v.sessions[p].0);
    let j = key_index(v.reverse, u.user_id);
    lemma_key_index(v.reverse, u.user_id);
    let ns = v.sessions.remove(p);
    let nr = v.reverse.remove(j);
    lemma_remove_keeps_other_keys(v.sessions, p, tk);
    lemma_remove_keeps_other_keys(v.reverse, j, u.user_id);
    assert forall|a: int|
        0 <= a < ns.len() implies has_key(nr, (#[trigger] ns[a]).1.user_id) && value_of(
        nr,
        ns[a].1.user_id,
    ) == ns[a].0 by {
        let oa = if a < p {
            a
        } else {
            a + 1
        };
        assert(ns[a] == v.sessions[oa]);
        lemma_inv_user_unique(v, oa, p);
        let uid_a = v.sessions[oa].1.user_id;
        assert(has_key(v.reverse, uid_a) && value_of(v.reverse, uid_a) == v.sessions[oa].0);
        lemma_key_index(v.reverse, uid_a);
        assert(v.reverse[key_index(v.reverse, uid_a)].0 == uid_a);
        assert(v.reverse[j].0 == u.user_id);
        assert(key_index(v.reverse, uid_a) != j);
        lemma_remove_keeps_other_keys(v.reverse, j, uid_a);
    }
    assert forall|b: int|
        0 <= b < nr.len() implies has_key(ns, (#[trigger] nr[b]).1) && value_of(
        ns,
        nr[b].1,
    ).user_id == nr[b].0 by {
        let ob = if b < j {
            b
        } else {
            b + 1
        };
        assert(nr[b] == v.reverse[ob]);
        let tok_b = v.reverse[ob].1;
        assert(has_key(v.sessions, tok_b) && value_of(v.sessions, tok_b).user_id
            == v.reverse[ob].0);
        lemma_key_index(v.sessions, tok_b);
        if tok_b == tk {
            assert(value_of(v.sessions, tk).user_id == v.reverse[ob].0);
            lemma_key_index_unique(v.reverse, u.user_id, ob);
            assert(false);
        }
        assert(key_index(v.sessions, tok_b) != p) by {
            assert(v.sessions[key_index(v.sessions, tok_b)].0 == tok_b);
            assert(v.sessions[p].0 == tk);
        }
        lemma_remove_keeps_other_keys(v.sessions, p, tok_b);
    }
}

impl SessionCache {
    /// Removes the session under this token (used on logout), together with
    /// its reverse-index entry; removing an absent token changes nothing.
    pub fn remove(&mut self, token: &String) -> (r: Option<LoggedUser>)
        requires
            old(self).wf(),
        ensures
            final(self).wf(),
            final(self)@.cap == old(self)@.cap,
            ({
                let s = old(self)@.sessions;
                let i = key_index(s, token@);
                if i >= 0 {
                    r matches Some(v) && v@ == s[i].1 && final(self)@.sessions == s.remove(i)
                        && final(self)@.reverse == old(self)@.reverse.remove(
                        key_index(old(self)@.reverse, s[i].1.user_id),
                    )
                } else {
                    r is None && final(self)@.sessions == s && final(self)@.reverse == old(
                        self,
                    )@.reverse
                }
            }),
    {
        proof {
            lemma_key_index(old(self)@.sessions, token@);
        }
        let popped = lru_pop_entry_session(&mut self.cache, token);
        match popped {
            Some((_, v)) => {
                proof {
                    lemma_remove_matched_pair_inv(old(self)@, token@);
                }
                let _ = lru_pop_entry_reverse(&mut self.reverse, v.user_id);
                Some(v)
            },
            None => None,
        }
    }
}

/// The index of the first cached session belonging to the given user, or
/// -1 if none does.
pub open spec fn user_index(s: Seq<(Seq<char>, LoggedUserView)>, uid: u64) -> int
    decreases s.len(),
{
    if s.len() == 0 {
        -1
    } else if s[0].1.user_id == uid {
        0
    } else if user_index(s.drop_first(), uid) == -1 {
        -1
    } else {
        user_index(s.drop_first(), uid) + 1
    }
}

/// What the user index means: -1 exactly when no session has the user,
/// otherwise the first position whose session does.
pub proof fn lemma_user_index(s: Seq<(Seq<char>, LoggedUserView)>, uid: u64)
    ensures
        -1 <= user_index(s, uid) < s.len(),
        user_index(s, uid) == -1 ==> forall|i: int|
            0 <= i < s.len() ==> (#[trigger] s[i]).1.user_id != uid,
        user_index(s, uid) >= 0 ==> s[user_index(s, uid)].1.user_id == uid && forall|i: int|
            0 <= i < user_index(s, uid) ==> (#[trigger] s[i]).1.user_id != uid,
    decreases s.len(),
{
    if s.len() > 0 && s[0].1.user_id != uid {
        lemma_user_index(s.drop_first(), uid);
        let t = s.drop_first();
        if user_index(s, uid) == -1 {
            assert forall|i: int| 0 <= i < s.len() implies (#[trigger] s[i]).1.user_id != uid by {
                if i >= 1 {
                    assert(s[i] == t[i - 1]);
                    assert(t[i - 1].1.user_id != uid);
                }
            }
        } else {
            assert(s[user_index(s, uid)] == t[user_index(t, uid)]);
            assert forall|i: int|
                0 <= i < user_index(s, uid) implies (#[trigger] s[i]).1.user_id != uid by {
                if i >= 1 {
                    assert(s[i] == t[i - 1]);
                    assert(t[i - 1].1.user_id != uid);
                }
            }
        }
    }
}

/// Under the invariant, the session at any position is the first (and only)
/// one of its user.
pub proof fn lemma_user_index_of_match(v: SessionCacheView, i: int)
    requires
        inv_view(v),
        0 <= i < v.sessions.len(),
    ensures
        user_index(v.sessions, v.sessions[i].1.user_id) == i,
{
    let uid = v.sessions[i].1.user_id;
    lemma_user_index(v.sessions, uid);
    let j = user_index(v.sessions, uid);
    if j == -1 {
        assert(v.sessions[i].1.user_id != uid);
    } else if j != i {
        lemma_inv_user_unique(v, j, i);
    }
}

/// Prepending a fresh token and a fresh user id as a matched pair keeps the
/// invariant.
pub proof fn lemma_insert_pair_inv(v: SessionCacheView, tk: Seq<char>, u: LoggedUserView)
    requires
        inv_view(v),
        !has_key(v.sessions, tk),
        !has_key(v.reverse, u.user_id),
        v.sessions.len() < v.cap,
    ensures
        inv_view(
            SessionCacheView {
                sessions: seq![(tk, u)] + v.sessions,
                reverse: seq![(u.user_id, tk)] + v.reverse,
                cap: v.cap,
            },
        ),
{
    let ns = seq![(tk, u)] + v.sessions;
    let nr = seq![(u.user_id, tk)] + v.reverse;
    lemma_prepend_keeps_keys(v.sessions, tk, u, tk);
    lemma_prepend_keeps_keys(v.reverse, u.user_id, tk, u.user_id);
    assert forall|a: int|
        0 <= a < ns.len() implies has_key(nr, (#[trigger] ns[a]).1.user_id) && value_of(
        nr,
        ns[a].1.user_id,
    ) == ns[a].0 by {
        if a == 0 {
            assert(ns[0] == (tk, u));
        } else {
            assert(ns[a] == v.sessions[a - 1]);
            let uid_a = v.sessions[a - 1].1.user_id;
            assert(has_key(v.reverse, uid_a) && value_of(v.reverse, uid_a) == v.sessions[a - 1].0);
            assert(uid_a != u.user_id);
            lemma_prepend_keeps_keys(v.reverse, u.user_id, tk, uid_a);
        }
    }
    assert forall|b: int|
        0 <= b < nr.len() implies has_key(ns, (#[trigger] nr[b]).1) && value_of(
        ns,
        nr[b].1,
    ).user_id == nr[b].0 by {
        if b == 0 {
            assert(nr[0] == (u.user_id, tk));
        } else {
            assert(nr[b] == v.reverse[b - 1]);
            let tok_b = v.reverse[b - 1].1;
            assert(has_key(v.sessions, tok_b) && value_of(v.sessions, tok_b).user_id
                == v.reverse[b - 1].0);
            assert(tok_b != tk);
            lemma_prepend_keeps_keys(v.sessions, tk, u, tok_b);
        }
    }
}

/// Relies on lru::LruCache::cap: the fixed capacity.
#[verifier::external_body]
fn lru_cap_session(c: &lru::LruCache<String, LoggedUser>) -> (r: usize)
    ensures
        r == session_cap(*c),
{
    c.cap()
}

/// What one insert leaves in the primary cache, most recently used first:
/// any session under the same token goes, any session of the same user
/// goes, the least recently used session goes if the cache is still full,
/// and the new session enters at the front.
pub open spec fn session_insert_spec(
    s: Seq<(Seq<char>, LoggedUserView)>,
    tk: Seq<char>,
    u: LoggedUserView,
    cap: nat,
) -> Seq<(Seq<char>, LoggedUserView)> {
    let s1 = if has_key(s, tk) {
        s.remove(key_index(s, tk))
    } else {
        s
    };
    let s2 = if user_index(s1, u.user_id) >= 0 {
        s1.remove(user_index(s1, u.user_id))
    } else {
        s1
    };
    let s3 = if s2.len() >= cap {
        s2.drop_last()
    } else {
        s2
    };
    seq![(tk, u)] + s3
}

impl SessionCache {
    /// Removes the session of this user, found through the reverse index,
    /// together with its reverse entry; a user with no cached session
    /// changes nothing. Returns the removed session's token.
    fn remove_pair_by_user(&mut self, user_id: u64) -> (r: Option<String>)
        requires
            old(self).wf(),
        ensures
            final(self).wf(),
            final(self)@.cap == old(self)@.cap,
            ({
                let rev = old(self)@.reverse;
                let j = key_index(rev, user_id);
                if j >= 0 {
                    r matches Some(t) && t@ == rev[j].1 && final(self)@.reverse == rev.remove(j)
                        && final(self)@.sessions == old(self)@.sessions.remove(
                        key_index(old(self)@.sessions, rev[j].1),
                    ) && key_index(old(self)@.sessions, rev[j].1) == user_index(
                        old(self)@.sessions,
                        user_id,
                    )
                } else {
                    r is None && final(self)@.sessions == old(self)@.sessions
                        && final(self)@.reverse == rev
                        && user_index(old(self)@.sessions, user_id) == -1
                }
            }),
    {
        proof {
            lemma_key_index(old(self)@.reverse, user_id);
            lemma_user_index(old(self)@.sessions, user_id);
            if key_index(old(self)@.reverse, user_id) == -1 && user_index(
                old(self)@.sessions,
                user_id,
            ) >= 0 {
                let i = user_index(old(self)@.sessions, user_id);
                assert(has_key(old(self)@.reverse, old(self)@.sessions[i].1.user_id));
            }
        }
        let popped = lru_pop_entry_reverse(&mut self.reverse, user_id);
        match popped {
            Some((_, tok)) => {
                proof {
                    let v = old(self)@;
                    let j = key_index(v.reverse, user_id);
                    assert(has_key(v.sessions, v.reverse[j].1));
                    lemma_key_index(v.sessions, v.reverse[j].1);
                    let i = key_index(v.sessions, v.reverse[j].1);
                    assert(v.sessions[i].1.user_id == user_id);
                    lemma_user_index_of_match(v, i);
                    lemma_remove_matched_pair_inv(v, v.reverse[j].1);
                    assert(key_index(v.reverse, value_of(v.sessions, v.reverse[j].1).user_id)
                        == j);
                }
                let _ = lru_pop_entry_session(&mut self.cache, &tok);
                Some(tok)
            },
            None => None,
        }
    }

    /// Evicts the least recently used session together with its reverse
    /// entry.
    fn evict_lru_pair(&mut self)
        requires
            old(self).wf(),
            old(self)@.sessions.len() > 0,
        ensures
            final(self).wf(),
            final(self)@.cap == old(self)@.cap,
            final(self)@.sessions == old(self)@.sessions.drop_last(),
            final(self)@.reverse == old(self)@.reverse.remove(
                key_index(old(self)@.reverse, old(self)@.sessions.last().1.user_id),
            ),
    {
        let popped = lru_pop_lru_session(&mut self.cache);
        match popped {
            Some((_, v)) => {
                proof {
                    let w = old(self)@;
                    let n = w.sessions.len() as int;
                    lemma_key_index_unique(w.sessions, w.sessions[n - 1].0, n - 1);
                    lemma_remove_matched_pair_inv(w, w.sessions[n - 1].0);
                    assert(w.sessions.remove(n - 1) =~= w.sessions.drop_last());
                }
                let _ = lru_pop_entry_reverse(&mut self.reverse, v.user_id);
            },
            None => {
                proof {
                    assert(false);
                }
            },
        }
    }

    /// Caches a session under its token. Any prior session under the same
    /// token or of the same user is replaced; if the cache is full after
    /// that, the least recently used session is evicted first. Both evictions
    /// remove the reverse entry as well, and the reverse index afterwards
    /// maps the user to this token.
    pub fn insert_or_refresh(&mut self, token: String, session: LoggedUser)
        requires
            old(self).wf(),
        ensures
            final(self).wf(),
            final(self)@.cap == old(self)@.cap,
            final(self)@.sessions == session_insert_spec(
                old(self)@.sessions,
                token@,
                session@,
                old(self)@.cap,
            ),
            has_key(final(self)@.reverse, session@.user_id),
            value_of(final(self)@.reverse, session@.user_id) == token@,
    {
        let ghost v0 = self@;
        proof {
            lemma_key_index(v0.sessions, token@);
            if key_index(v0.sessions, token@) >= 0 {
                lemma_remove_keeps_other_keys(v0.sessions, key_index(v0.sessions, token@), token@);
            }
        }
        let _ = self.remove(&token);
        let ghost v1 = self@;
        proof {
            assert(!has_key(v1.sessions, token@));
            lemma_user_index(v1.sessions, session@.user_id);
            if user_index(v1.sessions, session@.user_id) >= 0 {
                lemma_remove_keeps_other_keys(
                    v1.sessions,
                    user_index(v1.sessions, session@.user_id),
                    token@,
                );
            }
            lemma_key_index(v1.reverse, session@.user_id);
            if key_index(v1.reverse, session@.user_id) >= 0 {
                lemma_remove_keeps_other_keys(
                    v1.reverse,
                    key_index(v1.reverse, session@.user_id),
                    session@.user_id,
                );
            }
        }
        let _ = self.remove_pair_by_user(session.user_id);
        let ghost v2 = self@;
        proof {
            assert(!has_key(v2.sessions, token@));
            assert(!has_key(v2.reverse, session@.user_id));
        }
        if lru_len_session(&self.cache) >= lru_cap_session(&self.cache) {
            proof {
                let n = v2.sessions.len() as int;
                assert(v2.sessions.drop_last() =~= v2.sessions.remove(n - 1));
                lemma_remove_keeps_other_keys(v2.sessions, n - 1, token@);
                let uid_v = v2.sessions.last().1.user_id;
                lemma_key_index(v2.reverse, uid_v);
                lemma_remove_keeps_other_keys(
                    v2.reverse,
                    key_index(v2.reverse, uid_v),
                    session@.user_id,
                );
            }
            self.evict_lru_pair();
        }
        let ghost v3 = self@;
        proof {
            assert(!has_key(v3.sessions, token@));
            assert(!has_key(v3.reverse, session@.user_id));
            assert(v3.sessions.len() < v3.cap);
            lemma_insert_pair_inv(v3, token@, session@);
            lemma_prepend_keeps_keys(v3.reverse, session@.user_id, token@, session@.user_id);
        }
        let token_value = token.clone();
        let uid = session.user_id;
        let _ = lru_push_session(&mut self.cache, token, session);
        let _ = lru_push_reverse(&mut self.reverse, uid, token_value);
        proof {
            assert(self@.sessions =~= session_insert_spec(
                v0.sessions,
                token@,
                session@,
                v0.cap,
            ));
        }
    }
}

impl SessionCache {
    /// One eviction-sweep cycle: removes every session whose expiry instant
    /// has passed (`expires_at <= now_ms`), and its reverse entry with it.
    /// Sessions still to live are untouched, with their values.
    pub fn sweep_expired(&mut self, now_ms: u64)
        requires
            old(self).wf(),
        ensures
            final(self).wf(),
            final(self)@.cap == old(self)@.cap,
            forall|i: int|
                0 <= i < final(self)@.sessions.len() ==> (
                #[trigger] final(self)@.sessions[i]).1.expires_at > now_ms,
            forall|i: int|
                0 <= i < final(self)@.sessions.len() ==> has_key(
                    old(self)@.sessions,
                    (#[trigger] final(self)@.sessions[i]).0,
                ) && value_of(old(self)@.sessions, final(self)@.sessions[i].0)
                    == final(self)@.sessions[i].1,
            forall|j: int|
                0 <= j < old(self)@.sessions.len() ==> ((
                #[trigger] old(self)@.sessions[j]).1.expires_at > now_ms ==> has_key(
                    final(self)@.sessions,
                    old(self)@.sessions[j].0,
                ) && value_of(final(self)@.sessions, old(self)@.sessions[j].0)
                    == old(self)@.sessions[j].1),
    {
        let ghost orig = old(self)@.sessions;
        proof {
            assert forall|j: int|
                0 <= j < orig.len() implies has_key(orig, (#[trigger] orig[j]).0) && value_of(
                orig,
                orig[j].0,
            ) == orig[j].1 by {
                lemma_key_index_unique(orig, orig[j].0, j);
            }
        }
        let items = lru_entries_session(&self.cache);
        let n = items.len();
        let mut idx: usize = 0;
        while idx < n
            invariant
                self.wf(),
                self@.cap == old(self)@.cap,
                0 <= idx <= n,
                n == items@.len(),
                n == orig.len(),
                orig == old(self)@.sessions,
                distinct_keys(orig),
                forall|j: int|
                    0 <= j < n ==> ((#[trigger] items@[j]).0@, items@[j].1@) == orig[j],
                forall|t: Seq<char>|
                    #[trigger] has_key(self@.sessions, t) ==> has_key(orig, t) && value_of(
                        self@.sessions,
                        t,
                    ) == value_of(orig, t),
                forall|j: int|
                    0 <= j < idx ==> ((#[trigger] orig[j]).1.expires_at <= now_ms ==> !has_key(
                        self@.sessions,
                        orig[j].0,
                    )),
                forall|j: int|
                    idx <= j < n ==> has_key(self@.sessions, (#[trigger] orig[j]).0) && value_of(
                        self@.sessions,
                        orig[j].0,
                    ) == orig[j].1,
                forall|j: int|
                    0 <= j < idx ==> ((#[trigger] orig[j]).1.expires_at > now_ms ==> has_key(
                        self@.sessions,
                        orig[j].0,
                    ) && value_of(self@.sessions, orig[j].0) == orig[j].1),
            decreases n - idx,
        {
            let ghost cur = self@.sessions;
            let expired = items[idx].1.expires_at <= now_ms;
            if expired {
                proof {
                    lemma_key_index(cur, orig[idx as int].0);
                }
                let _ = self.remove(&items[idx].0);
                proof {
                    let p = key_index(cur, orig[idx as int].0);
                    assert(p >= 0);
                    assert forall|t: Seq<char>| #[trigger] has_key(self@.sessions, t) implies
                        has_key(cur, t) && value_of(self@.sessions, t) == value_of(cur, t) by {
                        lemma_remove_keeps_other_keys(cur, p, t);
                    }
                    assert forall|t: Seq<char>| has_key(cur, t) && t != orig[idx as int].0 implies
                        #[trigger] has_key(self@.sessions, t) && value_of(self@.sessions, t)
                            == value_of(cur, t) by {
                        lemma_key_index(cur, t);
                        lemma_key_index_unique(cur, orig[idx as int].0, p);
                        assert(cur[key_index(cur, t)].0 == t);
                        assert(key_index(cur, t) != p);
                        lemma_remove_keeps_other_keys(cur, p, t);
                    }
                    assert(!has_key(self@.sessions, orig[idx as int].0)) by {
                        lemma_remove_keeps_other_keys(cur, p, orig[idx as int].0);
                    }
                    assert forall|j: int|
                        idx + 1 <= j < n implies has_key(self@.sessions, (#[trigger] orig[j]).0)
                            && value_of(self@.sessions, orig[j].0) == orig[j].1 by {
                        assert(orig[j].0 != orig[idx as int].0);
                    }
                }
            }
            idx = idx + 1;
        }
        proof {
            assert forall|i: int|
                0 <= i < self@.sessions.len() implies (
                #[trigger] self@.sessions[i]).1.expires_at > now_ms && has_key(
                orig,
                self@.sessions[i].0,
            ) && value_of(orig, self@.sessions[i].0) == self@.sessions[i].1 by {
                let t = self@.sessions[i].0;
                lemma_key_index_unique(self@.sessions, t, i);
                assert(has_key(self@.sessions, t));
                assert(has_key(orig, t) && value_of(self@.sessions, t) == value_of(orig, t));
                lemma_key_index(orig, t);
                let j = key_index(orig, t);
                assert(orig[j].0 == t);
                if orig[j].1.expires_at <= now_ms {
                    assert(!has_key(self@.sessions, orig[j].0));
                }
                assert(value_of(orig, t) == orig[j].1);
            }
        }
    }
}

/// The index of the last member record belonging to the given user, or -1
/// if none does: with duplicated member records, the last one wins.
pub open spec fn member_perm_index(members: Seq<GuildMember>, uid: u64) -> int
    decreases members.len(),
{
    if members.len() == 0 {
        -1
    } else if members.last().user.id == uid {
        members.len() - 1
    } else {
        member_perm_index(members.drop_last(), uid)
    }
}

/// The last-member index lies inside the list and names the user whenever
/// it is not -1.
pub proof fn lemma_member_perm_index(members: Seq<GuildMember>, uid: u64)
    ensures
        -1 <= member_perm_index(members, uid) < members.len(),
        member_perm_index(members, uid) >= 0 ==> members[member_perm_index(
            members,
            uid,
        )].user.id == uid,
    decreases members.len(),
{
    if members.len() > 0 && members.last().user.id != uid {
        lemma_member_perm_index(members.drop_last(), uid);
        let t = members.drop_last();
        if member_perm_index(members, uid) >= 0 {
            assert(members[member_perm_index(t, uid)] == t[member_perm_index(t, uid)]);
        }
    }
}

/// What reconciliation against a guild's member list does to one session:
/// if the list names the session's user, that guild's permission bits are
/// written into the session (the last record winning); otherwise the
/// session is untouched.
pub open spec fn reconciled_user(
    u: LoggedUserView,
    members: Seq<GuildMember>,
    gid: u64,
) -> LoggedUserView {
    let i = member_perm_index(members, u.user_id);
    if i >= 0 {
        LoggedUserView { guilds: u.guilds.insert(gid, members[i].permissions), ..u }
    } else {
        u
    }
}

/// Replacing the session under a token with a new record of the same user
/// (moving it to the front, as a use) keeps the invariant.
pub proof fn lemma_replace_session_value_inv(v: SessionCacheView, tk: Seq<char>, u2: LoggedUserView)
    requires
        inv_view(v),
        has_key(v.sessions, tk),
        u2.user_id == value_of(v.sessions, tk).user_id,
    ensures
        inv_view(
            SessionCacheView {
                sessions: seq![(tk, u2)] + v.sessions.remove(key_index(v.sessions, tk)),
                reverse: v.reverse,
                cap: v.cap,
            },
        ),
{
    let p = key_index(v.sessions, tk);
    lemma_key_index(v.sessions, tk);
    let s1 = v.sessions.remove(p);
    lemma_remove_keeps_other_keys(v.sessions, p, tk);
    let ns = seq![(tk, u2)] + s1;
    lemma_prepend_keeps_keys(s1, tk, u2, tk);
    assert forall|a: int|
        0 <= a < ns.len() implies has_key(v.reverse, (#[trigger] ns[a]).1.user_id) && value_of(
        v.reverse,
        ns[a].1.user_id,
    ) == ns[a].0 by {
        if a == 0 {
            assert(ns[0] == (tk, u2));
            assert(has_key(v.reverse, v.sessions[p].1.user_id));
        } else {
            let oa = if a - 1 < p {
                a - 1
            } else {
                a
            };
            assert(s1[a - 1] == v.sessions[oa]);
            assert(ns[a] == v.sessions[oa]);
        }
    }
    assert forall|b: int|
        0 <= b < v.reverse.len() implies has_key(ns, (#[trigger] v.reverse[b]).1) && value_of(
        ns,
        v.reverse[b].1,
    ).user_id == v.reverse[b].0 by {
        let tok_b = v.reverse[b].1;
        assert(has_key(v.sessions, tok_b) && value_of(v.sessions, tok_b).user_id
            == v.reverse[b].0);
        if tok_b == tk {
            assert(key_index(ns, tk) == 0);
            assert(value_of(ns, tk) == u2);
        } else {
            lemma_key_index(v.sessions, tok_b);
            lemma_key_index_unique(v.sessions, tk, p);
            assert(v.sessions[key_index(v.sessions, tok_b)].0 == tok_b);
            assert(key_index(v.sessions, tok_b) != p);
            lemma_remove_keeps_other_keys(v.sessions, p, tok_b);
            lemma_prepend_keeps_keys(s1, tk, u2, tok_b);
        }
    }
}

impl SessionCache {
    /// Reconciliation after a guild-create event: for every member of the
    /// guild whose user is logged in, writes the guild's permission bits
    /// into that user's cached session (the last record of a user winning).
    /// No session is created or dropped.
    pub fn reconcile_guild_create(&mut self, guild: &PartialGuild)
        requires
            old(self).wf(),
        ensures
            final(self).wf(),
            final(self)@.cap == old(self)@.cap,
            forall|t: Seq<char>|
                #[trigger] has_key(final(self)@.sessions, t) == has_key(old(self)@.sessions, t),
            forall|t: Seq<char>|
                #[trigger] has_key(old(self)@.sessions, t) ==> value_of(final(self)@.sessions, t)
                    == reconciled_user(
                    value_of(old(self)@.sessions, t),
                    guild@.members,
                    guild@.id,
                ),
    {
        let ghost orig = old(self)@.sessions;
        let m = guild.members.len();
        let mut idx: usize = 0;
        while idx < m
            invariant
                0 <= idx <= m,
                self.wf(),
                self@.cap == old(self)@.cap,
                orig == old(self)@.sessions,
                m == guild@.members.len(),
                forall|t: Seq<char>|
                    #[trigger] has_key(self@.sessions, t) == has_key(orig, t),
                forall|t: Seq<char>|
                    #[trigger] has_key(orig, t) ==> value_of(self@.sessions, t) == reconciled_user(
                        value_of(orig, t),
                        guild@.members.subrange(0, idx as int),
                        guild@.id,
                    ),
            decreases m - idx,
        {
            let ghost pre = self@;
            let ghost prefix = guild@.members.subrange(0, idx as int);
            let ghost prefix1 = guild@.members.subrange(0, idx as int + 1);
            proof {
                assert(prefix1.drop_last() =~= prefix);
                assert(prefix1.last() == guild@.members[idx as int]);
            }
            let member = guild.members[idx];
            let found = self.lookup_token_by_user(member.user.id);
            match found {
                Some(token) => {
                    let ghost v1 = self@;
                    proof {
                        assert(inv_view(v1));
                        let j = key_index(pre.reverse, member.user.id);
                        lemma_key_index(pre.reverse, member.user.id);
                        assert(v1.reverse == promote(pre.reverse, j));
                        assert(v1.reverse[0] == pre.reverse[j]);
                        lemma_key_index_unique(v1.reverse, member.user.id, 0);
                        assert(has_key(v1.reverse, member.user.id));
                        assert(value_of(v1.reverse, member.user.id) == token@);
                        assert(has_key(v1.sessions, token@));
                        assert(value_of(v1.sessions, token@).user_id == member.user.id);
                        lemma_key_index(v1.sessions, token@);
                    }
                    let ghost p = key_index(v1.sessions, token@);
                    let ghost u_prev = v1.sessions[p].1;
                    let ghost s1 = v1.sessions.remove(p);
                    let popped = lru_pop_entry_session(&mut self.cache, &token);
                    match popped {
                        Some((tok_owned, sess)) => {
                            let mut sess = sess;
                            let _ = sess.guilds.insert(guild.id, member.permissions);
                            let ghost u2 = sess@;
                            proof {
                                assert(u2.user_id == u_prev.user_id);
                                assert(u2.guilds == u_prev.guilds.insert(
                                    guild@.id,
                                    guild@.members[idx as int].permissions,
                                ));
                                lemma_replace_session_value_inv(v1, token@, u2);
                                lemma_remove_keeps_other_keys(v1.sessions, p, token@);
                            }
                            let _ = lru_push_session(&mut self.cache, tok_owned, sess);
                            proof {
                                assert(self@.sessions == seq![(token@, u2)] + s1);
                                lemma_prepend_keeps_keys(s1, token@, u2, token@);
                                assert forall|t: Seq<char>|
                                    #[trigger] has_key(self@.sessions, t) == has_key(
                                    orig,
                                    t,
                                ) by {
                                    lemma_remove_keeps_other_keys(v1.sessions, p, t);
                                    lemma_prepend_keeps_keys(s1, token@, u2, t);
                                    assert(has_key(pre.sessions, t) == has_key(orig, t));
                                    assert(pre.sessions == v1.sessions);
                                    if t == token@ {
                                        assert(key_index(self@.sessions, token@) == 0);
                                        assert(has_key(self@.sessions, token@));
                                        assert(has_key(v1.sessions, token@));
                                    } else {
                                        if has_key(v1.sessions, t) {
                                            lemma_key_index(v1.sessions, t);
                                            assert(v1.sessions[key_index(v1.sessions, t)].0 == t);
                                            assert(v1.sessions[p].0 == token@);
                                            assert(key_index(v1.sessions, t) != p);
                                            assert(has_key(self@.sessions, t));
                                        } else {
                                            assert(!has_key(s1, t));
                                            assert(!has_key(self@.sessions, t));
                                        }
                                    }
                                }
                                assert forall|t: Seq<char>|
                                    #[trigger] has_key(orig, t) implies value_of(
                                    self@.sessions,
                                    t,
                                ) == reconciled_user(
                                    value_of(orig, t),
                                    prefix1,
                                    guild@.id,
                                ) by {
                                    lemma_remove_keeps_other_keys(v1.sessions, p, t);
                                    lemma_prepend_keeps_keys(s1, token@, u2, t);
                                    assert(pre.sessions == v1.sessions);
                                    assert(has_key(pre.sessions, t) == has_key(orig, t));
                                    assert(has_key(v1.sessions, t));
                                    lemma_key_index(v1.sessions, t);
                                    assert(value_of(v1.sessions, t) == reconciled_user(
                                        value_of(orig, t),
                                        prefix,
                                        guild@.id,
                                    ));
                                    let u_orig = value_of(orig, t);
                                    if t == token@ {
                                        assert(key_index(self@.sessions, token@) == 0);
                                        assert(value_of(self@.sessions, token@) == u2);
                                        assert(u_prev == value_of(v1.sessions, token@));
                                        assert(u_prev == reconciled_user(
                                            u_orig,
                                            prefix,
                                            guild@.id,
                                        ));
                                        assert(u_prev.user_id == u_orig.user_id);
                                        assert(member_perm_index(prefix1, u_orig.user_id)
                                            == idx as int);
                                        assert(u2.guilds =~= u_orig.guilds.insert(
                                            guild@.id,
                                            guild@.members[idx as int].permissions,
                                        ));
                                        assert(u2 =~= reconciled_user(
                                            u_orig,
                                            prefix1,
                                            guild@.id,
                                        ));
                                    } else {
                                        assert(v1.sessions[key_index(v1.sessions, t)].0 == t);
                                        assert(v1.sessions[p].0 == token@);
                                        assert(key_index(v1.sessions, t) != p);
                                        assert(value_of(self@.sessions, t) == value_of(
                                            v1.sessions,
                                            t,
                                        ));
                                        let uid_t = u_orig.user_id;
                                        if uid_t == member.user.id {
                                            let a = key_index(v1.sessions, t);
                                            assert(v1.sessions[a].1 == value_of(v1.sessions, t));
                                            assert(v1.sessions[a].1.user_id == uid_t) by {
                                                assert(value_of(v1.sessions, t).user_id == value_of(
                                                    orig,
                                                    t,
                                                ).user_id);
                                            }
                                            assert(v1.sessions[p].1.user_id == member.user.id);
                                            assert(a != p);
                                            lemma_inv_user_unique(v1, a, p);
                                            assert(false);
                                        }
                                        assert(member_perm_index(prefix1, uid_t)
                                            == member_perm_index(prefix, uid_t));
                                        lemma_member_perm_index(prefix, uid_t);
                                        let mi = member_perm_index(prefix, uid_t);
                                        if mi >= 0 {
                                            assert(prefix1[mi] == prefix[mi]);
                                        }
                                        assert(reconciled_user(u_orig, prefix1, guild@.id)
                                            == reconciled_user(u_orig, prefix, guild@.id));
                                    }
                                }
                            }
                        },
                        None => {
                            proof {
                                assert(false);
                            }
                        },
                    }
                },
                None => {
                    proof {
                        assert(inv_view(self@));
                        assert(self@.sessions == pre.sessions);
                        assert(self@.reverse == pre.reverse);
                        lemma_key_index(pre.reverse, member.user.id);
                        assert(!has_key(pre.reverse, member.user.id));
                        assert forall|t: Seq<char>|
                            #[trigger] has_key(orig, t) implies value_of(self@.sessions, t)
                                == reconciled_user(
                                value_of(orig, t),
                                prefix1,
                                guild@.id,
                            ) by {
                            assert(has_key(self@.sessions, t) == has_key(orig, t));
                            assert(value_of(self@.sessions, t) == reconciled_user(
                                value_of(orig, t),
                                prefix,
                                guild@.id,
                            ));
                            let u_orig = value_of(orig, t);
                            let uid_t = u_orig.user_id;
                            if uid_t == member.user.id {
                                lemma_key_index(self@.sessions, t);
                                let a = key_index(self@.sessions, t);
                                assert(self@.sessions[a].1 == value_of(self@.sessions, t));
                                assert(self@.sessions[a].1.user_id == uid_t) by {
                                    assert(value_of(self@.sessions, t).user_id == value_of(
                                        orig,
                                        t,
                                    ).user_id);
                                }
                                assert(has_key(self@.reverse, uid_t));
                                assert(false);
                            }
                            assert(member_perm_index(prefix1, uid_t) == member_perm_index(
                                prefix,
                                uid_t,
                            ));
                            lemma_member_perm_index(prefix, uid_t);
                            let mi = member_perm_index(prefix, uid_t);
                            if mi >= 0 {
                                assert(prefix1[mi] == prefix[mi]);
                            }
                            assert(reconciled_user(u_orig, prefix1, guild@.id)
                                == reconciled_user(u_orig, prefix, guild@.id));
                        }
                    }
                },
            }
            idx = idx + 1;
        }
        proof {
            assert(guild@.members.subrange(0, m as int) =~= guild@.members);
            assert forall|t: Seq<char>|
                #[trigger] has_key(orig, t) implies value_of(self@.sessions, t)
                    == reconciled_user(value_of(orig, t), guild@.members, guild@.id) by {
                assert(value_of(self@.sessions, t) == reconciled_user(
                    value_of(orig, t),
                    guild@.members.subrange(0, m as int),
                    guild@.id,
                ));
            }
        }
    }
}

} // verus!
