//! In-memory presence and topology index: which omikron relays currently
//! front which iotas (one preferred primary plus a replica set), and which
//! users are online behind which omikron.
//!
//! The index maintains two invariants across every mutation:
//! whenever an iota has a primary omikron, that omikron is in the iota's
//! replica set; and a tracked iota always has a non-empty replica set
//! (an iota whose last replica leaves is removed outright).

use vstd::prelude::*;

use crate::status::ConnectionType;

verus! {

/// Presence record of one user: its status and the omikron fronting it.
#[derive(Clone, Copy, Debug, PartialEq, Eq, Structural)]
pub struct UserConnection {
    pub connection_type: ConnectionType,
    pub omikron_id: i64,
}

/// One tracked iota: its preferred omikron and every announcing omikron.
#[derive(Debug)]
pub struct IotaEntry {
    pub iota_id: i64,
    pub primary: Option<i64>,
    pub replicas: Vec<i64>,
}

/// One tracked user.
#[derive(Clone, Copy, Debug)]
pub struct UserEntry {
    pub user_id: i64,
    pub conn: UserConnection,
}

/// The process-wide presence index.
#[derive(Debug)]
pub struct PresenceIndex {
    pub iotas: Vec<IotaEntry>,
    pub users: Vec<UserEntry>,
}

/// Whether some entry of `s` tracks `iota`.
pub open spec fn has_iota_in(s: Seq<IotaEntry>, iota: i64) -> bool {
    exists|i: int| 0 <= i < s.len() && (#[trigger] s[i]).iota_id == iota
}

/// The index of the entry of `s` tracking `iota`.
pub open spec fn iota_idx(s: Seq<IotaEntry>, iota: i64) -> int {
    choose|i: int| 0 <= i < s.len() && (#[trigger] s[i]).iota_id == iota
}

/// Whether some entry of `s` tracks `user`.
pub open spec fn has_user_in(s: Seq<UserEntry>, user: i64) -> bool {
    exists|i: int| 0 <= i < s.len() && (#[trigger] s[i]).user_id == user
}

/// The index of the entry of `s` tracking `user`.
pub open spec fn user_idx(s: Seq<UserEntry>, user: i64) -> int {
    choose|i: int| 0 <= i < s.len() && (#[trigger] s[i]).user_id == user
}

/// Predicate keeping every omikron id other than `omikron_id`.
pub open spec fn not_omikron(omikron_id: i64) -> spec_fn(i64) -> bool {
    |y: i64| y != omikron_id
}

/// Predicate keeping every user entry not fronted by `omikron_id`.
pub open spec fn user_not_on(omikron_id: i64) -> spec_fn(UserEntry) -> bool {
    |e: UserEntry| e.conn.omikron_id != omikron_id
}

/// Predicate keeping every user entry whose id is not listed in `ids`.
pub open spec fn user_not_in(ids: Seq<i64>) -> spec_fn(UserEntry) -> bool {
    |e: UserEntry| !ids.contains(e.user_id)
}

impl PresenceIndex {
    /// Well-formedness: unique keys, every primary inside its replica
    /// set, and non-empty, duplicate-free replica sets.
    pub open spec fn wf(self) -> bool {
        &&& forall|i: int, j: int|
            0 <= i < j < self.iotas@.len() ==> (#[trigger] self.iotas@[i]).iota_id != (
            #[trigger] self.iotas@[j]).iota_id
        &&& forall|i: int|
            0 <= i < self.iotas@.len() ==> (#[trigger] self.iotas@[i]).replicas@.len() > 0
        &&& forall|i: int|
            0 <= i < self.iotas@.len() ==> (#[trigger] self.iotas@[i]).replicas@.no_duplicates()
        &&& forall|i: int|
            0 <= i < self.iotas@.len() ==> ((#[trigger] self.iotas@[i]).primary matches Some(p)
                ==> self.iotas@[i].replicas@.contains(p))
        &&& forall|i: int, j: int|
            0 <= i < j < self.users@.len() ==> (#[trigger] self.users@[i]).user_id != (
            #[trigger] self.users@[j]).user_id
    }

    pub open spec fn has_iota(self, iota: i64) -> bool {
        has_iota_in(self.iotas@, iota)
    }

    /// The replica set announced for `iota`; empty when untracked.
    pub open spec fn replicas_of(self, iota: i64) -> Seq<i64> {
        if self.has_iota(iota) {
            self.iotas@[iota_idx(self.iotas@, iota)].replicas@
        } else {
            Seq::empty()
        }
    }

    /// The preferred omikron for `iota`; `None` when untracked or cleared.
    pub open spec fn primary_of(self, iota: i64) -> Option<i64> {
        if self.has_iota(iota) {
            self.iotas@[iota_idx(self.iotas@, iota)].primary
        } else {
            None
        }
    }

    pub open spec fn has_user(self, user: i64) -> bool {
        has_user_in(self.users@, user)
    }

    /// The tracked presence of `user`, if any.
    pub open spec fn user_of(self, user: i64) -> Option<UserConnection> {
        if self.has_user(user) {
            Some(self.users@[user_idx(self.users@, user)].conn)
        } else {
            None
        }
    }

    /// No entry of the index references `omikron` in any role.
    pub open spec fn no_refs_to(self, omikron: i64) -> bool {
        &&& forall|k: i64| !(#[trigger] self.replicas_of(k)).contains(omikron)
        &&& forall|k: i64| #[trigger] self.primary_of(k) != Some(omikron)
        &&& forall|u: i64|
            (#[trigger] self.user_of(u)) matches Some(c) ==> c.omikron_id != omikron
    }

    pub fn new() -> (r: PresenceIndex)
        ensures
            r.wf(),
            forall|k: i64| !(#[trigger] r.has_iota(k)),
            forall|u: i64| !(#[trigger] r.has_user(u)),
    {
        PresenceIndex { iotas: Vec::new(), users: Vec::new() }
    }
}

/// Pins down which entry the `choose` in `iota_idx` denotes.
pub proof fn lemma_iota_idx(s: Seq<IotaEntry>, iota: i64, i: int)
    requires
        forall|a: int, b: int|
            0 <= a < b < s.len() ==> (#[trigger] s[a]).iota_id != (#[trigger] s[b]).iota_id,
        0 <= i < s.len(),
        s[i].iota_id == iota,
    ensures
        has_iota_in(s, iota),
        iota_idx(s, iota) == i,
{
    assert(has_iota_in(s, iota));
    let j = iota_idx(s, iota);
    if j < i {
        assert(s[j].iota_id != s[i].iota_id);
    } else if j > i {
        assert(s[i].iota_id != s[j].iota_id);
    }
}

/// Pins down which entry the `choose` in `user_idx` denotes.
pub proof fn lemma_user_idx(s: Seq<UserEntry>, user: i64, i: int)
    requires
        forall|a: int, b: int|
            0 <= a < b < s.len() ==> (#[trigger] s[a]).user_id != (#[trigger] s[b]).user_id,
        0 <= i < s.len(),
        s[i].user_id == user,
    ensures
        has_user_in(s, user),
        user_idx(s, user) == i,
{
    assert(has_user_in(s, user));
    let j = user_idx(s, user);
    if j < i {
        assert(s[j].user_id != s[i].user_id);
    } else if j > i {
        assert(s[i].user_id != s[j].user_id);
    }
}

impl PresenceIndex {
    /// Finds the position of `iota` in the entry list.
    fn find_iota(&self, iota_id: i64) -> (r: Option<usize>)
        requires
            self.wf(),
        ensures
            match r {
                Some(i) => i < self.iotas@.len() && self.iotas@[i as int].iota_id == iota_id
                    && self.has_iota(iota_id) && iota_idx(self.iotas@, iota_id) == i,
                None => !self.has_iota(iota_id),
            },
    {
        let n = self.iotas.len();
        let mut i: usize = 0;
        while i < n
            invariant
                self.wf(),
                n == self.iotas@.len(),
                i <= n,
                forall|j: int| 0 <= j < i ==> (#[trigger] self.iotas@[j]).iota_id != iota_id,
            decreases n - i,
        {
            if self.iotas[i].iota_id == iota_id {
                proof {
                    lemma_iota_idx(self.iotas@, iota_id, i as int);
                }
                return Some(i);
            }
            i = i + 1;
        }
        None
    }

    /// Finds the position of `user` in the user list.
    fn find_user(&self, user_id: i64) -> (r: Option<usize>)
        requires
            self.wf(),
        ensures
            match r {
                Some(i) => i < self.users@.len() && self.users@[i as int].user_id == user_id
                    && self.has_user(user_id) && user_idx(self.users@, user_id) == i,
                None => !self.has_user(user_id),
            },
    {
        let n = self.users.len();
        let mut i: usize = 0;
        while i < n
            invariant
                self.wf(),
                n == self.users@.len(),
                i <= n,
                forall|j: int| 0 <= j < i ==> (#[trigger] self.users@[j]).user_id != user_id,
            decreases n - i,
        {
            if self.users[i].user_id == user_id {
                proof {
                    lemma_user_idx(self.users@, user_id, i as int);
                }
                return Some(i);
            }
            i = i + 1;
        }
        None
    }

    /// Records that `omikron_id` announces `iota_id`.  The omikron joins the
    /// replica set (once), and becomes the primary when asked to or when the
    /// iota had none.
    pub fn track_iota_connection(&mut self, iota_id: i64, omikron_id: i64, primary: bool)
        requires
            old(self).wf(),
        ensures
            final(self).wf(),
            final(self).users@ == old(self).users@,
            final(self).has_iota(iota_id),
            final(self).replicas_of(iota_id) == if old(self).replicas_of(iota_id).contains(
                omikron_id,
            ) {
                old(self).replicas_of(iota_id)
            } else {
                old(self).replicas_of(iota_id).push(omikron_id)
            },
            final(self).primary_of(iota_id) == if primary || old(self).primary_of(iota_id)
                is None {
                Some(omikron_id)
            } else {
                old(self).primary_of(iota_id)
            },
            forall|k: i64|
                k != iota_id ==> #[trigger] final(self).replicas_of(k) == old(self).replicas_of(k),
            forall|k: i64|
                k != iota_id ==> #[trigger] final(self).primary_of(k) == old(self).primary_of(k),
            forall|k: i64|
                k != iota_id ==> #[trigger] final(self).has_iota(k) == old(self).has_iota(k),
    {
        let ghost s0 = self.iotas@;
        match self.find_iota(iota_id) {
            Some(i) => {
                let contains = contains_i64(&self.iotas[i].replicas, omikron_id);
                let e = &mut self.iotas[i];
                if !contains {
                    e.replicas.push(omikron_id);
                }
                if primary || e.primary.is_none() {
                    e.primary = Some(omikron_id);
                }
                proof {
                    let s1 = self.iotas@;
                    let r0 = s0[i as int].replicas@;
                    let r1 = s1[i as int].replicas@;
                    assert(s1.len() == s0.len());
                    assert(forall|j: int|
                        0 <= j < s0.len() && j != i ==> #[trigger] s1[j] == s0[j]);
                    assert(forall|j: int|
                        0 <= j < s1.len() ==> (#[trigger] s1[j]).iota_id == s0[j].iota_id);
                    lemma_iota_idx(s1, iota_id, i as int);
                    if !contains {
                        assert(r1 == r0.push(omikron_id));
                        assert(r1[r0.len() as int] == omikron_id);
                        assert(forall|j: int| 0 <= j < r0.len() ==> r1[j] == r0[j]);
                    }
                    assert forall|a: int, b: int|
                        0 <= a < b < s1.len() implies (#[trigger] s1[a]).iota_id != (
                    #[trigger] s1[b]).iota_id by {
                        assert(s0[a].iota_id != s0[b].iota_id);
                    }
                    assert forall|j: int|
                        0 <= j < s1.len() implies (#[trigger] s1[j]).replicas@.len() > 0
                            && s1[j].replicas@.no_duplicates() && (s1[j].primary matches Some(p)
                            ==> s1[j].replicas@.contains(p)) by {
                        if j != i {
                            assert(s1[j] == s0[j]);
                            assert(s0[j].replicas@.len() > 0);
                            assert(s0[j].replicas@.no_duplicates());
                        } else {
                            assert(r0.len() > 0);
                            assert(r0.no_duplicates());
                            if !contains {
                                assert forall|a: int, b: int|
                                    0 <= a < r1.len() && 0 <= b < r1.len() && a != b implies r1[a]
                                    != r1[b] by {
                                    if a < r0.len() && b < r0.len() {
                                        assert(r0[a] != r0[b]);
                                    } else if a == r0.len() {
                                        assert(r1[a] == omikron_id);
                                        assert(r1[b] == r0[b]);
                                        assert(!r0.contains(omikron_id));
                                    } else {
                                        assert(r1[b] == omikron_id);
                                        assert(r1[a] == r0[a]);
                                        assert(!r0.contains(omikron_id));
                                    }
                                }
                            }
                            match s1[j].primary {
                                Some(p) => {
                                    if p == omikron_id && !contains {
                                        assert(r1[r0.len() as int] == p);
                                        assert(r1.contains(p));
                                    } else {
                                        assert(r0.contains(p));
                                        let w = choose|w: int| 0 <= w < r0.len() && r0[w] == p;
                                        assert(r1[w] == p);
                                        assert(r1.contains(p));
                                    }
                                },
                                None => {},
                            }
                        }
                    }
                    assert forall|k: i64| k != iota_id implies #[trigger] final(self).replicas_of(k) == old(self).replicas_of(k) by {
                        if has_iota_in(s0, k) {
                            lemma_iota_idx(s1, k, iota_idx(s0, k));
                        } else {
                            assert(!has_iota_in(s1, k));
                        }
                    }
                    assert forall|k: i64| k != iota_id implies #[trigger] final(self).primary_of(k) == old(self).primary_of(k) by {
                        if has_iota_in(s0, k) {
                            lemma_iota_idx(s1, k, iota_idx(s0, k));
                        } else {
                            assert(!has_iota_in(s1, k));
                        }
                    }
                    assert forall|k: i64| k != iota_id implies #[trigger] final(self).has_iota(k) == old(self).has_iota(k) by {
                        if has_iota_in(s0, k) {
                            lemma_iota_idx(s1, k, iota_idx(s0, k));
                        } else {
                            assert(!has_iota_in(s1, k));
                        }
                    }
                }
            },
            None => {
                let mut replicas: Vec<i64> = Vec::new();
                replicas.push(omikron_id);
                let entry = IotaEntry { iota_id, primary: Some(omikron_id), replicas };
                self.iotas.push(entry);
                proof {
                    let s1 = self.iotas@;
                    let n = s0.len() as int;
                    assert(s1 == s0.push(self.iotas@[n]));
                    assert(forall|j: int| 0 <= j < n ==> #[trigger] s1[j] == s0[j]);
                    assert(s1[n].iota_id == iota_id);
                    assert(s1[n].replicas@ == seq![omikron_id]);
                    assert(s1[n].replicas@.len() == 1);
                    assert(s1[n].replicas@[0] == omikron_id);
                    assert(s1[n].replicas@.contains(omikron_id));
                    assert forall|a: int, b: int|
                        0 <= a < b < s1.len() implies (#[trigger] s1[a]).iota_id != (
                    #[trigger] s1[b]).iota_id by {
                        if b < n {
                            assert(s0[a].iota_id != s0[b].iota_id);
                        } else {
                            assert(s1[a] == s0[a]);
                            assert(!(0 <= a < s0.len() && s0[a].iota_id == iota_id));
                        }
                    }
                    assert forall|j: int|
                        0 <= j < s1.len() implies (#[trigger] s1[j]).replicas@.len() > 0
                            && s1[j].replicas@.no_duplicates() && (s1[j].primary matches Some(p)
                            ==> s1[j].replicas@.contains(p)) by {
                        if j < n {
                            assert(s1[j] == s0[j]);
                            assert(s0[j].replicas@.len() > 0);
                            assert(s0[j].replicas@.no_duplicates());
                        }
                    }
                    lemma_iota_idx(s1, iota_id, n);
                    assert(final(self).replicas_of(iota_id) == seq![omikron_id]);
                    assert(old(self).replicas_of(iota_id) == Seq::<i64>::empty());
                    assert(old(self).replicas_of(iota_id).push(omikron_id) == seq![omikron_id]);
                    assert forall|k: i64| k != iota_id implies #[trigger] final(self).replicas_of(k) == old(self).replicas_of(k) by {
                        if has_iota_in(s0, k) {
                            lemma_iota_idx(s0, k, iota_idx(s0, k));
                            lemma_iota_idx(s1, k, iota_idx(s0, k));
                        } else {
                            assert(forall|j: int|
                                0 <= j < s1.len() && j != n ==> (#[trigger] s1[j]).iota_id == s0[j].iota_id);
                            assert(!has_iota_in(s1, k));
                        }
                    }
                    assert forall|k: i64| k != iota_id implies #[trigger] final(self).primary_of(k) == old(self).primary_of(k) by {
                        if has_iota_in(s0, k) {
                            lemma_iota_idx(s0, k, iota_idx(s0, k));
                            lemma_iota_idx(s1, k, iota_idx(s0, k));
                        } else {
                            assert(forall|j: int|
                                0 <= j < s1.len() && j != n ==> (#[trigger] s1[j]).iota_id == s0[j].iota_id);
                            assert(!has_iota_in(s1, k));
                        }
                    }
                    assert forall|k: i64| k != iota_id implies #[trigger] final(self).has_iota(k) == old(self).has_iota(k) by {
                        if has_iota_in(s0, k) {
                            lemma_iota_idx(s0, k, iota_idx(s0, k));
                            lemma_iota_idx(s1, k, iota_idx(s0, k));
                        } else {
                            assert(forall|j: int|
                                0 <= j < s1.len() && j != n ==> (#[trigger] s1[j]).iota_id == s0[j].iota_id);
                            assert(!has_iota_in(s1, k));
                        }
                    }
                }
            },
        }
    }
}

/// Whether the vector contains the value.
pub fn contains_i64(v: &Vec<i64>, x: i64) -> (r: bool)
    ensures
        r == v@.contains(x),
{
    let n = v.len();
    let mut i: usize = 0;
    while i < n
        invariant
            n == v@.len(),
            i <= n,
            forall|j: int| 0 <= j < i ==> v@[j] != x,
        decreases n - i,
    {
        if v[i] == x {
            return true;
        }
        i = i + 1;
    }
    false
}

} // verus!

verus! {

broadcast use vstd::seq_lib::group_filter_ensures;

/// Every element of a filtered sequence is an element of the sequence it
/// was filtered from.
pub proof fn lemma_filter_sub<T>(s: Seq<T>, pred: spec_fn(T) -> bool)
    ensures
        forall|y: T| #[trigger] s.filter(pred).contains(y) ==> s.contains(y),
    decreases s.len(),
{
    reveal(Seq::filter);
    if s.len() > 0 {
        let d = s.drop_last();
        lemma_filter_sub(d, pred);
        assert forall|y: T| #[trigger] s.filter(pred).contains(y) implies s.contains(y) by {
            if d.filter(pred).contains(y) {
                assert(d.contains(y));
                let w = choose|w: int| 0 <= w < d.len() && d[w] == y;
                assert(s[w] == y);
            } else {
                assert(y == s.last());
                assert(s[s.len() - 1] == y);
            }
        }
    }
}

/// Filtering keeps a duplicate-free sequence duplicate-free.
pub proof fn lemma_filter_no_dup(s: Seq<i64>, pred: spec_fn(i64) -> bool)
    requires
        s.no_duplicates(),
    ensures
        s.filter(pred).no_duplicates(),
    decreases s.len(),
{
    reveal(Seq::filter);
    if s.len() > 0 {
        let d = s.drop_last();
        let l = s.last();
        assert(d.no_duplicates());
        lemma_filter_no_dup(d, pred);
        lemma_filter_sub(d, pred);
        if pred(l) {
            assert(s.filter(pred) == d.filter(pred).push(l));
            if d.filter(pred).contains(l) {
                assert(d.contains(l));
                let w = choose|w: int| 0 <= w < d.len() && d[w] == l;
                assert(s[w] == s[s.len() - 1]);
                assert(false);
            }
            let f = d.filter(pred);
            assert forall|a: int, b: int|
                0 <= a < f.push(l).len() && 0 <= b < f.push(l).len() && a != b implies f.push(
                l,
            )[a] != f.push(l)[b] by {
                if a < f.len() && b < f.len() {
                    assert(f[a] != f[b]);
                } else if a == f.len() {
                    assert(f.push(l)[a] == l);
                    assert(f.push(l)[b] == f[b]);
                    assert(!f.contains(l));
                } else {
                    assert(f.push(l)[b] == l);
                    assert(f.push(l)[a] == f[a]);
                    assert(!f.contains(l));
                }
            }
        }
    }
}

/// Filtering user entries keeps their ids pairwise distinct.
pub proof fn lemma_user_filter_unique(s: Seq<UserEntry>, pred: spec_fn(UserEntry) -> bool)
    requires
        forall|a: int, b: int|
            0 <= a < b < s.len() ==> (#[trigger] s[a]).user_id != (#[trigger] s[b]).user_id,
    ensures
        forall|a: int, b: int|
            0 <= a < b < s.filter(pred).len() ==> (#[trigger] s.filter(pred)[a]).user_id != (
            #[trigger] s.filter(pred)[b]).user_id,
    decreases s.len(),
{
    reveal(Seq::filter);
    if s.len() > 0 {
        let d = s.drop_last();
        let l = s.last();
        assert(forall|j: int| 0 <= j < d.len() ==> d[j] == s[j]);
        lemma_user_filter_unique(d, pred);
        lemma_filter_sub(d, pred);
        if pred(l) {
            assert(s.filter(pred) == d.filter(pred).push(l));
            let f = d.filter(pred);
            assert forall|a: int, b: int|
                0 <= a < b < f.push(l).len() implies (#[trigger] f.push(l)[a]).user_id != (
            #[trigger] f.push(l)[b]).user_id by {
                if b < f.len() {
                    assert(f[a].user_id != f[b].user_id);
                } else {
                    assert(f.push(l)[b] == l);
                    assert(f.push(l)[a] == f[a]);
                    assert(f.contains(f[a]));
                    assert(d.contains(f[a]));
                    let w = choose|w: int| 0 <= w < d.len() && d[w] == f[a];
                    assert(s[w].user_id != s[s.len() - 1].user_id);
                }
            }
        }
    }
}

/// One pass over the vector keeping the values other than `x`.
pub fn remove_i64(v: &Vec<i64>, x: i64) -> (r: Vec<i64>)
    ensures
        r@ == v@.filter(not_omikron(x)),
{
    let ghost pred = not_omikron(x);
    let n = v.len();
    let mut out: Vec<i64> = Vec::new();
    proof {
        reveal(Seq::filter);
        assert(v@.take(0).filter(pred) == Seq::<i64>::empty());
    }
    let mut i: usize = 0;
    while i < n
        invariant
            n == v@.len(),
            i <= n,
            out@ == v@.take(i as int).filter(not_omikron(x)),
        decreases n - i,
    {
        let e = v[i];
        proof {
            reveal(Seq::filter);
            assert(v@.take(i + 1).drop_last() == v@.take(i as int));
            assert(v@.take(i + 1).last() == v@[i as int]);
        }
        if e != x {
            out.push(e);
        }
        i = i + 1;
    }
    proof {
        assert(v@.take(n as int) == v@);
    }
    out
}

/// One pass over the user entries keeping those not fronted by `omikron_id`.
fn retain_users_not_on(v: &Vec<UserEntry>, omikron_id: i64) -> (r: Vec<UserEntry>)
    ensures
        r@ == v@.filter(user_not_on(omikron_id)),
{
    let ghost pred = user_not_on(omikron_id);
    let n = v.len();
    let mut out: Vec<UserEntry> = Vec::new();
    proof {
        reveal(Seq::filter);
        assert(v@.take(0).filter(pred) == Seq::<UserEntry>::empty());
    }
    let mut i: usize = 0;
    while i < n
        invariant
            n == v@.len(),
            i <= n,
            out@ == v@.take(i as int).filter(user_not_on(omikron_id)),
        decreases n - i,
    {
        let e = v[i];
        proof {
            reveal(Seq::filter);
            assert(v@.take(i + 1).drop_last() == v@.take(i as int));
            assert(v@.take(i + 1).last() == v@[i as int]);
        }
        if e.conn.omikron_id != omikron_id {
            out.push(e);
        }
        i = i + 1;
    }
    proof {
        assert(v@.take(n as int) == v@);
    }
    out
}

/// One pass over the user entries keeping those whose id is not listed.
fn retain_users_not_in(v: &Vec<UserEntry>, ids: &Vec<i64>) -> (r: Vec<UserEntry>)
    ensures
        r@ == v@.filter(user_not_in(ids@)),
{
    let ghost pred = user_not_in(ids@);
    let n = v.len();
    let mut out: Vec<UserEntry> = Vec::new();
    proof {
        reveal(Seq::filter);
        assert(v@.take(0).filter(pred) == Seq::<UserEntry>::empty());
    }
    let mut i: usize = 0;
    while i < n
        invariant
            n == v@.len(),
            i <= n,
            out@ == v@.take(i as int).filter(user_not_in(ids@)),
        decreases n - i,
    {
        let e = v[i];
        proof {
            reveal(Seq::filter);
            assert(v@.take(i + 1).drop_last() == v@.take(i as int));
            assert(v@.take(i + 1).last() == v@[i as int]);
        }
        if !contains_i64(ids, e.user_id) {
            out.push(e);
        }
        i = i + 1;
    }
    proof {
        assert(v@.take(n as int) == v@);
    }
    out
}

} // verus!

verus! {

impl PresenceIndex {
    /// Withdraws `omikron_id`'s announcement of `iota_id`.  Clears the
    /// primary mapping when the leaving omikron held it (no replica is
    /// auto-promoted), and removes the iota entirely when its replica set
    /// becomes empty.  Returns whether that happened.
    pub fn untrack_iota_connection(&mut self, iota_id: i64, omikron_id: i64) -> (became_empty:
        bool)
        requires
            old(self).wf(),
        ensures
            final(self).wf(),
            final(self).users@ == old(self).users@,
            became_empty == (old(self).has_iota(iota_id) && old(self).replicas_of(iota_id).filter(not_omikron(omikron_id)).len() == 0),
            final(self).has_iota(iota_id) == (old(self).has_iota(iota_id) && old(self).replicas_of(
                iota_id,
            ).filter(not_omikron(omikron_id)).len() > 0),
            final(self).replicas_of(iota_id) == if final(self).has_iota(iota_id) {
                old(self).replicas_of(iota_id).filter(not_omikron(omikron_id))
            } else {
                Seq::<i64>::empty()
            },
            final(self).primary_of(iota_id) == if final(self).has_iota(iota_id) && old(self).primary_of(iota_id) != Some(omikron_id) {
                old(self).primary_of(iota_id)
            } else {
                None::<i64>
            },
            forall|k: i64|
                k != iota_id ==> #[trigger] final(self).replicas_of(k) == old(self).replicas_of(k),
            forall|k: i64|
                k != iota_id ==> #[trigger] final(self).primary_of(k) == old(self).primary_of(k),
            forall|k: i64|
                k != iota_id ==> #[trigger] final(self).has_iota(k) == old(self).has_iota(k),
    {
        let ghost s0 = self.iotas@;
        let ghost pred = not_omikron(omikron_id);
        match self.find_iota(iota_id) {
            Some(i) => {
                let filtered = remove_i64(&self.iotas[i].replicas, omikron_id);
                proof {
                    lemma_filter_no_dup(s0[i as int].replicas@, pred);
                }
                if filtered.len() == 0 {
                    self.iotas.remove(i);
                    proof {
                        let s1 = self.iotas@;
                        assert(s1 == s0.remove(i as int));
                        assert(forall|j: int| 0 <= j < i ==> #[trigger] s1[j] == s0[j]);
                        assert(forall|j: int|
                            i <= j < s1.len() ==> #[trigger] s1[j] == s0[j + 1]);
                        assert forall|a: int, b: int|
                            0 <= a < b < s1.len() implies (#[trigger] s1[a]).iota_id != (
                        #[trigger] s1[b]).iota_id by {
                            let a0: int = if a < i { a } else { a + 1 };
                            let b0: int = if b < i { b } else { b + 1 };
                            assert(s0[a0].iota_id != s0[b0].iota_id);
                        }
                        assert forall|j: int|
                            0 <= j < s1.len() implies (#[trigger] s1[j]).replicas@.len() > 0
                            && s1[j].replicas@.no_duplicates() && (s1[j].primary matches Some(p)
                            ==> s1[j].replicas@.contains(p)) by {
                            let j0: int = if j < i { j } else { j + 1 };
                            assert(s1[j] == s0[j0]);
                            assert(s0[j0].replicas@.len() > 0);
                            assert(s0[j0].replicas@.no_duplicates());
                        }
                        assert(!has_iota_in(s1, iota_id));
                        assert forall|k: i64| k != iota_id implies #[trigger] final(self).replicas_of(k) == old(self).replicas_of(k) by {
                            if has_iota_in(s0, k) {
                                let j0 = iota_idx(s0, k);
                                let j1: int = if j0 < i { j0 } else { j0 - 1 };
                                lemma_iota_idx(s1, k, j1);
                            } else {
                                assert(!has_iota_in(s1, k));
                            }
                        }
                        assert forall|k: i64| k != iota_id implies #[trigger] final(self).primary_of(k) == old(self).primary_of(k) by {
                            if has_iota_in(s0, k) {
                                let j0 = iota_idx(s0, k);
                                let j1: int = if j0 < i { j0 } else { j0 - 1 };
                                lemma_iota_idx(s1, k, j1);
                            } else {
                                assert(!has_iota_in(s1, k));
                            }
                        }
                        assert forall|k: i64| k != iota_id implies #[trigger] final(self).has_iota(k) == old(self).has_iota(k) by {
                            if has_iota_in(s0, k) {
                                let j0 = iota_idx(s0, k);
                                let j1: int = if j0 < i { j0 } else { j0 - 1 };
                                lemma_iota_idx(s1, k, j1);
                            } else {
                                assert(!has_iota_in(s1, k));
                            }
                        }
                    }
                    true
                } else {
                    let was_primary = match self.iotas[i].primary {
                        Some(p) => p == omikron_id,
                        None => false,
                    };
                    let e = &mut self.iotas[i];
                    e.replicas = filtered;
                    if was_primary {
                        e.primary = None;
                    }
                    proof {
                        let s1 = self.iotas@;
                        let r0 = s0[i as int].replicas@;
                        let r1 = s1[i as int].replicas@;
                        assert(r1 == r0.filter(pred));
                        assert(forall|j: int|
                            0 <= j < s0.len() && j != i ==> #[trigger] s1[j] == s0[j]);
                        assert(forall|j: int|
                            0 <= j < s1.len() ==> (#[trigger] s1[j]).iota_id == s0[j].iota_id);
                        lemma_iota_idx(s1, iota_id, i as int);
                        assert forall|a: int, b: int|
                            0 <= a < b < s1.len() implies (#[trigger] s1[a]).iota_id != (
                        #[trigger] s1[b]).iota_id by {
                            assert(s0[a].iota_id != s0[b].iota_id);
                        }
                        assert forall|j: int|
                            0 <= j < s1.len() implies (#[trigger] s1[j]).replicas@.len() > 0
                            && s1[j].replicas@.no_duplicates() && (s1[j].primary matches Some(p)
                            ==> s1[j].replicas@.contains(p)) by {
                            if j != i {
                                assert(s1[j] == s0[j]);
                                assert(s0[j].replicas@.len() > 0);
                                assert(s0[j].replicas@.no_duplicates());
                            } else {
                                match s1[j].primary {
                                    Some(p) => {
                                        assert(!was_primary);
                                        assert(s0[i as int].primary == Some(p));
                                        assert(r0.contains(p));
                                        let w = choose|w: int| 0 <= w < r0.len() && r0[w] == p;
                                        assert(pred(r0[w]));
                                        assert(r1.contains(p));
                                    },
                                    None => {},
                                }
                            }
                        }
                        assert forall|k: i64| k != iota_id implies #[trigger] final(self).replicas_of(k) == old(self).replicas_of(k) by {
                            if has_iota_in(s0, k) {
                                lemma_iota_idx(s1, k, iota_idx(s0, k));
                            } else {
                                assert(!has_iota_in(s1, k));
                            }
                        }
                        assert forall|k: i64| k != iota_id implies #[trigger] final(self).primary_of(k) == old(self).primary_of(k) by {
                            if has_iota_in(s0, k) {
                                lemma_iota_idx(s1, k, iota_idx(s0, k));
                            } else {
                                assert(!has_iota_in(s1, k));
                            }
                        }
                        assert forall|k: i64| k != iota_id implies #[trigger] final(self).has_iota(k) == old(self).has_iota(k) by {
                            if has_iota_in(s0, k) {
                                lemma_iota_idx(s1, k, iota_idx(s0, k));
                            } else {
                                assert(!has_iota_in(s1, k));
                            }
                        }
                    }
                    false
                }
            },
            None => false,
        }
    }

    /// The primary omikron currently fronting `iota_id`.
    pub fn get_iota_primary_omikron_connection(&self, iota_id: i64) -> (r: Option<i64>)
        requires
            self.wf(),
        ensures
            r == self.primary_of(iota_id),
    {
        match self.find_iota(iota_id) {
            Some(i) => self.iotas[i].primary,
            None => None,
        }
    }

    /// Every omikron currently announcing `iota_id`.
    pub fn get_iota_omikron_connections(&self, iota_id: i64) -> (r: Option<Vec<i64>>)
        requires
            self.wf(),
        ensures
            match r {
                Some(v) => self.has_iota(iota_id) && v@ == self.replicas_of(iota_id),
                None => !self.has_iota(iota_id),
            },
    {
        match self.find_iota(iota_id) {
            Some(i) => {
                let n = self.iotas[i].replicas.len();
                let mut out: Vec<i64> = Vec::new();
                let mut j: usize = 0;
                while j < n
                    invariant
                        n == self.iotas@[i as int].replicas@.len(),
                        i < self.iotas@.len(),
                        j <= n,
                        out@ == self.iotas@[i as int].replicas@.take(j as int),
                    decreases n - j,
                {
                    out.push(self.iotas[i].replicas[j]);
                    proof {
                        let r = self.iotas@[i as int].replicas@;
                        assert(r.take(j + 1) == r.take(j as int).push(r[j as int]));
                    }
                    j = j + 1;
                }
                proof {
                    let r = self.iotas@[i as int].replicas@;
                    assert(r.take(n as int) == r);
                }
                Some(out)
            },
            None => None,
        }
    }

    /// Records (or replaces) the presence of a user behind an omikron.
    pub fn track_user_status(&mut self, user_id: i64, status: ConnectionType, omikron_id: i64)
        requires
            old(self).wf(),
        ensures
            final(self).wf(),
            final(self).iotas@ == old(self).iotas@,
            final(self).user_of(user_id) == Some(
                UserConnection { connection_type: status, omikron_id },
            ),
            forall|u: i64| u != user_id ==> #[trigger] final(self).user_of(u) == old(self).user_of(u),
            forall|u: i64|
                u != user_id ==> #[trigger] final(self).has_user(u) == old(self).has_user(u),
    {
        let ghost s0 = self.users@;
        let conn = UserConnection { connection_type: status, omikron_id };
        match self.find_user(user_id) {
            Some(i) => {
                let e = &mut self.users[i];
                e.conn = conn;
                proof {
                    let s1 = self.users@;
                    assert(forall|j: int|
                        0 <= j < s0.len() && j != i ==> #[trigger] s1[j] == s0[j]);
                    assert(forall|j: int|
                        0 <= j < s1.len() ==> (#[trigger] s1[j]).user_id == s0[j].user_id);
                    lemma_user_idx(s1, user_id, i as int);
                    assert forall|a: int, b: int|
                        0 <= a < b < s1.len() implies (#[trigger] s1[a]).user_id != (
                    #[trigger] s1[b]).user_id by {
                        assert(s0[a].user_id != s0[b].user_id);
                    }
                    assert forall|u: i64| u != user_id implies #[trigger] final(self).user_of(u)
                        == old(self).user_of(u) by {
                        if has_user_in(s0, u) {
                            lemma_user_idx(s1, u, user_idx(s0, u));
                        } else {
                            assert(!has_user_in(s1, u));
                        }
                    }
                    assert forall|u: i64| u != user_id implies #[trigger] final(self).has_user(u)
                        == old(self).has_user(u) by {
                        if has_user_in(s0, u) {
                            lemma_user_idx(s1, u, user_idx(s0, u));
                        } else {
                            assert(!has_user_in(s1, u));
                        }
                    }
                }
            },
            None => {
                self.users.push(UserEntry { user_id, conn });
                proof {
                    let s1 = self.users@;
                    let n = s0.len() as int;
                    assert(forall|j: int| 0 <= j < n ==> #[trigger] s1[j] == s0[j]);
                    assert(s1[n].user_id == user_id);
                    assert forall|a: int, b: int|
                        0 <= a < b < s1.len() implies (#[trigger] s1[a]).user_id != (
                    #[trigger] s1[b]).user_id by {
                        if b < n {
                            assert(s0[a].user_id != s0[b].user_id);
                        } else {
                            assert(s1[a] == s0[a]);
                            assert(!(0 <= a < s0.len() && s0[a].user_id == user_id));
                        }
                    }
                    lemma_user_idx(s1, user_id, n);
                    assert forall|u: i64| u != user_id implies #[trigger] final(self).user_of(u)
                        == old(self).user_of(u) by {
                        if has_user_in(s0, u) {
                            lemma_user_idx(s0, u, user_idx(s0, u));
                            lemma_user_idx(s1, u, user_idx(s0, u));
                        } else {
                            assert(!has_user_in(s1, u));
                        }
                    }
                    assert forall|u: i64| u != user_id implies #[trigger] final(self).has_user(u)
                        == old(self).has_user(u) by {
                        if has_user_in(s0, u) {
                            lemma_user_idx(s0, u, user_idx(s0, u));
                            lemma_user_idx(s1, u, user_idx(s0, u));
                        } else {
                            assert(!has_user_in(s1, u));
                        }
                    }
                }
            },
        }
    }

    /// The tracked presence of `user_id`, if any.
    pub fn get_user_status(&self, user_id: i64) -> (r: Option<UserConnection>)
        requires
            self.wf(),
        ensures
            r == self.user_of(user_id),
    {
        match self.find_user(user_id) {
            Some(i) => Some(self.users[i].conn),
            None => None,
        }
    }

    /// Drops the presence records of every listed user.
    pub fn untrack_many_users(&mut self, user_ids: &Vec<i64>)
        requires
            old(self).wf(),
        ensures
            final(self).wf(),
            final(self).iotas@ == old(self).iotas@,
            final(self).users@ == old(self).users@.filter(user_not_in(user_ids@)),
            forall|u: i64|
                user_ids@.contains(u) ==> !(#[trigger] final(self).has_user(u)),
            forall|u: i64|
                !user_ids@.contains(u) ==> #[trigger] final(self).user_of(u) == old(self).user_of(u) && final(self).has_user(u) == old(self).has_user(u),
    {
        let ghost s0 = self.users@;
        let ghost pred = user_not_in(user_ids@);
        let kept = retain_users_not_in(&self.users, user_ids);
        self.users = kept;
        proof {
            let s1 = self.users@;
            lemma_user_filter_unique(s0, pred);
            lemma_filter_sub(s0, pred);
            assert forall|u: i64| user_ids@.contains(u) implies !(#[trigger] final(self).has_user(u)) by {
                if has_user_in(s1, u) {
                    let j = user_idx(s1, u);
                    assert(s1.contains(s1[j]));
                    assert(pred(s1[j]));
                }
            }
            assert forall|u: i64| !user_ids@.contains(u) implies #[trigger] final(self).user_of(u) == old(self).user_of(u) && final(self).has_user(u) == old(self).has_user(u) by {
                if has_user_in(s0, u) {
                    let j = user_idx(s0, u);
                    assert(s0[j].user_id == u);
                    assert(pred(s0[j]));
                    assert(0 <= j < s0.len());
                    assert(s1.contains(s0[j]));
                    let w = choose|w: int| 0 <= w < s1.len() && s1[w] == s0[j];
                    lemma_user_idx(s1, u, w);
                } else {
                    if has_user_in(s1, u) {
                        let j = user_idx(s1, u);
                        assert(s1.contains(s1[j]));
                        assert(s0.contains(s1[j]));
                        let w = choose|w: int| 0 <= w < s0.len() && s0[w] == s1[j];
                        assert(has_user_in(s0, u));
                    }
                }
            }
        }
    }
}

} // verus!

verus! {

impl PresenceIndex {
    /// The ids of every tracked iota, in entry order.
    fn iota_ids(&self) -> (r: Vec<i64>)
        requires
            self.wf(),
        ensures
            r@.len() == self.iotas@.len(),
            forall|j: int| 0 <= j < r@.len() ==> r@[j] == (#[trigger] self.iotas@[j]).iota_id,
            r@.no_duplicates(),
            forall|k: i64| #[trigger] r@.contains(k) <==> self.has_iota(k),
    {
        let n = self.iotas.len();
        let mut out: Vec<i64> = Vec::new();
        let mut i: usize = 0;
        while i < n
            invariant
                n == self.iotas@.len(),
                i <= n,
                out@.len() == i,
                forall|j: int| 0 <= j < i ==> out@[j] == (#[trigger] self.iotas@[j]).iota_id,
            decreases n - i,
        {
            out.push(self.iotas[i].iota_id);
            i = i + 1;
        }
        proof {
            assert forall|a: int, b: int|
                0 <= a < out@.len() && 0 <= b < out@.len() && a != b implies out@[a] != out@[b] by {
                if a < b {
                    assert(self.iotas@[a].iota_id != self.iotas@[b].iota_id);
                } else {
                    assert(self.iotas@[b].iota_id != self.iotas@[a].iota_id);
                }
            }
            assert forall|k: i64| #[trigger] out@.contains(k) <==> self.has_iota(k) by {
                if out@.contains(k) {
                    let w = choose|w: int| 0 <= w < out@.len() && out@[w] == k;
                    assert(self.iotas@[w].iota_id == k);
                    assert(has_iota_in(self.iotas@, k));
                }
                if has_iota_in(self.iotas@, k) {
                    let w = iota_idx(self.iotas@, k);
                    assert(self.iotas@[w].iota_id == k);
                    assert(out@[w] == k);
                }
            }
        }
        out
    }

    /// Removes `omikron_id` from the whole index at once: from every iota's
    /// replica set (dropping iotas left with none, and their primary), from
    /// every primary mapping it held, and from every user presence record.
    /// Returns the iotas whose replica set became empty, whose users the
    /// caller is expected to look up and untrack as well.
    pub fn untrack_omikron(&mut self, omikron_id: i64) -> (emptied: Vec<i64>)
        requires
            old(self).wf(),
        ensures
            final(self).wf(),
            final(self).no_refs_to(omikron_id),
            final(self).users@ == old(self).users@.filter(user_not_on(omikron_id)),
            forall|k: i64|
                #[trigger] final(self).replicas_of(k) == old(self).replicas_of(k).filter(not_omikron(omikron_id)),
            forall|k: i64|
                #[trigger] final(self).has_iota(k) == (old(self).has_iota(k) && old(self).replicas_of(k).filter(not_omikron(omikron_id)).len() > 0),
            forall|k: i64|
                #[trigger] final(self).primary_of(k) == (if final(self).has_iota(k) && old(self).primary_of(k) != Some(omikron_id) {
                    old(self).primary_of(k)
                } else {
                    None::<i64>
                }),
            emptied@.no_duplicates(),
            forall|k: i64|
                #[trigger] emptied@.contains(k) <==> (old(self).has_iota(k) && old(self).replicas_of(k).filter(not_omikron(omikron_id)).len() == 0),
    {
        let ghost pred = not_omikron(omikron_id);
        let ids = self.iota_ids();
        let mut emptied: Vec<i64> = Vec::new();
        let n = ids.len();
        let mut idx: usize = 0;
        while idx < n
            invariant
                self.wf(),
                n == ids@.len(),
                idx <= n,
                ids@.no_duplicates(),
                forall|k: i64| #[trigger] ids@.contains(k) <==> old(self).has_iota(k),
                self.users@ == old(self).users@,
                forall|k: i64|
                    ids@.take(idx as int).contains(k) ==> #[trigger] self.replicas_of(k) == old(self).replicas_of(k).filter(not_omikron(omikron_id)),
                forall|k: i64|
                    !ids@.take(idx as int).contains(k) ==> #[trigger] self.replicas_of(k) == old(self).replicas_of(k),
                forall|k: i64|
                    ids@.take(idx as int).contains(k) ==> #[trigger] self.has_iota(k) == (old(self).has_iota(k) && old(self).replicas_of(k).filter(not_omikron(omikron_id)).len() > 0),
                forall|k: i64|
                    !ids@.take(idx as int).contains(k) ==> #[trigger] self.has_iota(k) == old(self).has_iota(k),
                forall|k: i64|
                    ids@.take(idx as int).contains(k) ==> #[trigger] self.primary_of(k) == (if
                    self.has_iota(k) && old(self).primary_of(k) != Some(omikron_id) {
                        old(self).primary_of(k)
                    } else {
                        None::<i64>
                    }),
                forall|k: i64|
                    !ids@.take(idx as int).contains(k) ==> #[trigger] self.primary_of(k) == old(self).primary_of(k),
                emptied@.no_duplicates(),
                forall|k: i64|
                    #[trigger] emptied@.contains(k) <==> (ids@.take(idx as int).contains(k) && old(self).has_iota(k) && old(self).replicas_of(k).filter(not_omikron(omikron_id)).len() == 0),
            decreases n - idx,
        {
            let k0 = ids[idx];
            let ghost pre = *self;
            proof {
                if ids@.take(idx as int).contains(k0) {
                    let w = choose|w: int| 0 <= w < idx && ids@.take(idx as int)[w] == k0;
                    assert(ids@[w] == ids@[idx as int]);
                    assert(false);
                }
            }
            let ghost emp0 = emptied@;
            let became_empty = self.untrack_iota_connection(k0, omikron_id);
            if became_empty {
                emptied.push(k0);
            }
            proof {
                let t1 = ids@.take(idx + 1);
                let t0 = ids@.take(idx as int);
                assert(t1 == t0.push(k0));
                assert forall|k: i64| #[trigger] t1.contains(k) <==> (t0.contains(k) || k
                    == k0) by {
                    if t1.contains(k) {
                        let w = choose|w: int| 0 <= w < t1.len() && t1[w] == k;
                        if w < t0.len() {
                            assert(t0[w] == k);
                        }
                    }
                    if t0.contains(k) {
                        let w = choose|w: int| 0 <= w < t0.len() && t0[w] == k;
                        assert(t1[w] == k);
                    }
                    if k == k0 {
                        assert(t1[t0.len() as int] == k);
                    }
                }
                assert(ids@.contains(k0)) by {
                    assert(ids@[idx as int] == k0);
                }
                assert(old(self).has_iota(k0));
                assert(pre.replicas_of(k0) == old(self).replicas_of(k0));
                assert(pre.primary_of(k0) == old(self).primary_of(k0));
                assert(pre.has_iota(k0) == old(self).has_iota(k0));
                if became_empty {
                    assert(emptied@ == emp0.push(k0));
                    assert(!emp0.contains(k0));
                    assert forall|a: int, b: int|
                        0 <= a < emptied@.len() && 0 <= b < emptied@.len() && a != b implies
                        emptied@[a] != emptied@[b] by {
                        if a < emp0.len() && b < emp0.len() {
                            assert(emp0[a] != emp0[b]);
                        } else if a == emp0.len() {
                            assert(emptied@[a] == k0);
                            assert(emptied@[b] == emp0[b]);
                            if emp0[b] == k0 {
                                assert(emp0.contains(k0));
                            }
                        } else {
                            assert(emptied@[b] == k0);
                            assert(emptied@[a] == emp0[a]);
                            if emp0[a] == k0 {
                                assert(emp0.contains(k0));
                            }
                        }
                    }
                }
                assert forall|k: i64| #[trigger] emptied@.contains(k) <==> (t1.contains(k) && old(self).has_iota(k) && old(self).replicas_of(k).filter(not_omikron(omikron_id)).len()
                    == 0) by {
                    if became_empty {
                        assert(emptied@ == emp0.push(k0));
                        if emptied@.contains(k) {
                            let w = choose|w: int| 0 <= w < emptied@.len() && emptied@[w] == k;
                            if w < emp0.len() {
                                assert(emp0[w] == k);
                                assert(emp0.contains(k));
                            } else {
                                assert(k == k0);
                            }
                        }
                        if emp0.contains(k) {
                            let w = choose|w: int| 0 <= w < emp0.len() && emp0[w] == k;
                            assert(emptied@[w] == k);
                            assert(emptied@.contains(k));
                        }
                        if k == k0 {
                            assert(emptied@[emp0.len() as int] == k0);
                            assert(emptied@.contains(k0));
                        }
                    } else {
                        assert(emptied@ == emp0);
                        if k == k0 {
                            assert(!(old(self).has_iota(k0) && old(self).replicas_of(k0).filter(
                                not_omikron(omikron_id),
                            ).len() == 0));
                            if emp0.contains(k0) {
                                assert(ids@.take(idx as int).contains(k0));
                            }
                        }
                    }
                }
            }
            idx = idx + 1;
        }
        proof {
            assert(ids@.take(n as int) == ids@);
            reveal(Seq::filter);
            assert(Seq::<i64>::empty().filter(pred) == Seq::<i64>::empty());
            assert forall|k: i64| #[trigger] self.replicas_of(k) == old(self).replicas_of(k).filter(
                not_omikron(omikron_id),
            ) by {
                if !ids@.contains(k) {
                    assert(!old(self).has_iota(k));
                    assert(old(self).replicas_of(k) == Seq::<i64>::empty());
                }
            }
            assert forall|k: i64| #[trigger] self.has_iota(k) == (old(self).has_iota(k) && old(self).replicas_of(k).filter(not_omikron(omikron_id)).len() > 0) by {
                if !ids@.contains(k) {
                    assert(!old(self).has_iota(k));
                }
            }
            assert forall|k: i64| #[trigger] self.primary_of(k) == (if self.has_iota(k) && old(self).primary_of(k) != Some(omikron_id) {
                old(self).primary_of(k)
            } else {
                None::<i64>
            }) by {
                if !ids@.contains(k) {
                    assert(!old(self).has_iota(k));
                }
            }
        }
        let ghost mid = *self;
        let kept = retain_users_not_on(&self.users, omikron_id);
        self.users = kept;
        proof {
            let ghost users0 = mid.users@;
            let upred = user_not_on(omikron_id);
            lemma_user_filter_unique(users0, upred);
            lemma_filter_sub(users0, upred);
            assert(final(self).iotas@ == mid.iotas@);
            assert forall|k: i64| #[trigger] final(self).replicas_of(k) == old(self).replicas_of(k).filter(not_omikron(omikron_id)) by {
                assert(mid.replicas_of(k) == old(self).replicas_of(k).filter(
                    not_omikron(omikron_id),
                ));
            }
            assert forall|k: i64| #[trigger] final(self).has_iota(k) == (old(self).has_iota(k)
                && old(self).replicas_of(k).filter(not_omikron(omikron_id)).len() > 0) by {
                assert(mid.has_iota(k) == (old(self).has_iota(k) && old(self).replicas_of(k).filter(not_omikron(omikron_id)).len() > 0));
            }
            assert forall|k: i64| #[trigger] final(self).primary_of(k) == (if final(self).has_iota(k) && old(self).primary_of(k) != Some(omikron_id) {
                old(self).primary_of(k)
            } else {
                None::<i64>
            }) by {
                assert(mid.primary_of(k) == (if mid.has_iota(k) && old(self).primary_of(k)
                    != Some(omikron_id) {
                    old(self).primary_of(k)
                } else {
                    None::<i64>
                }));
                assert(mid.has_iota(k) == final(self).has_iota(k));
            }
            assert forall|k: i64| !(#[trigger] final(self).replicas_of(k)).contains(
                omikron_id,
            ) by {
                let f = old(self).replicas_of(k).filter(not_omikron(omikron_id));
                assert(final(self).replicas_of(k) == f);
                if f.contains(omikron_id) {
                    let w = choose|w: int| 0 <= w < f.len() && f[w] == omikron_id;
                    assert((not_omikron(omikron_id))(f[w]));
                }
            }
            assert forall|k: i64| #[trigger] final(self).primary_of(k) != Some(omikron_id) by {}
            assert forall|u: i64|
                ((#[trigger] final(self).user_of(u)) matches Some(c) ==> c.omikron_id
                    != omikron_id) by {
                let s1 = final(self).users@;
                if has_user_in(s1, u) {
                    let j = user_idx(s1, u);
                    assert(s1.contains(s1[j]));
                    assert((user_not_on(omikron_id))(s1[j]));
                }
            }
        }
        emptied
    }
}

/// The index invariants that every operation preserves: a primary is always
/// one of the replicas, and a tracked iota always has at least one replica
/// (an untracked iota reports an empty replica set and no primary).
pub proof fn lemma_presence_invariants(p: PresenceIndex, iota: i64)
    requires
        p.wf(),
    ensures
        p.primary_of(iota) matches Some(o) ==> p.replicas_of(iota).contains(o),
        p.has_iota(iota) ==> p.replicas_of(iota).len() > 0,
        !p.has_iota(iota) ==> p.replicas_of(iota) == Seq::<i64>::empty() && p.primary_of(iota)
            is None,
{
    if p.has_iota(iota) {
        let i = iota_idx(p.iotas@, iota);
        assert(0 <= i < p.iotas@.len() && p.iotas@[i].iota_id == iota);
        assert(p.iotas@[i].replicas@.len() > 0);
    }
}

} // verus!

verus! {

/// Extending a prefix by one element extends what it contains by exactly
/// that element.
pub proof fn lemma_take_push_contains(s: Seq<i64>, i: int)
    requires
        0 <= i < s.len(),
    ensures
        forall|x: i64|
            #[trigger] s.take(i + 1).contains(x) <==> (s.take(i).contains(x) || x == s[i]),
{
    let t0 = s.take(i);
    let t1 = s.take(i + 1);
    assert(t1 == t0.push(s[i]));
    assert forall|x: i64| #[trigger] t1.contains(x) <==> (t0.contains(x) || x == s[i]) by {
        if t1.contains(x) {
            let w = choose|w: int| 0 <= w < t1.len() && t1[w] == x;
            if w < t0.len() {
                assert(t0[w] == x);
            }
        }
        if t0.contains(x) {
            let w = choose|w: int| 0 <= w < t0.len() && t0[w] == x;
            assert(t1[w] == x);
        }
        if x == s[i] {
            assert(t1[t0.len() as int] == x);
        }
    }
}

/// Records every listed user as having the given status behind the
/// omikron.
pub fn mark_users_status(
    presence: &mut PresenceIndex,
    ids: &Vec<i64>,
    status: crate::status::ConnectionType,
    omikron_id: i64,
)
    requires
        old(presence).wf(),
    ensures
        final(presence).wf(),
        final(presence).iotas@ == old(presence).iotas@,
        forall|u: i64|
            ids@.contains(u) ==> #[trigger] final(presence).user_of(u) == Some(
                UserConnection { connection_type: status, omikron_id },
            ),
        forall|u: i64|
            !ids@.contains(u) ==> #[trigger] final(presence).user_of(u) == old(presence).user_of(u),
        forall|u: i64|
            !ids@.contains(u) ==> #[trigger] final(presence).has_user(u) == old(
                presence,
            ).has_user(u),
{
    let n = ids.len();
    let mut i: usize = 0;
    while i < n
        invariant
            presence.wf(),
            n == ids@.len(),
            i <= n,
            presence.iotas@ == old(presence).iotas@,
            forall|u: i64|
                ids@.take(i as int).contains(u) ==> #[trigger] presence.user_of(u) == Some(
                    UserConnection { connection_type: status, omikron_id },
                ),
            forall|u: i64|
                !ids@.take(i as int).contains(u) ==> #[trigger] presence.user_of(u) == old(
                    presence,
                ).user_of(u),
            forall|u: i64|
                !ids@.take(i as int).contains(u) ==> #[trigger] presence.has_user(u) == old(
                    presence,
                ).has_user(u),
        decreases n - i,
    {
        let u0 = ids[i];
        presence.track_user_status(u0, status, omikron_id);
        proof {
            lemma_take_push_contains(ids@, i as int);
        }
        i = i + 1;
    }
    proof {
        assert(ids@.take(n as int) == ids@);
    }
}

/// Announces the omikron as a replica, and the primary, of every listed
/// iota.
pub fn mark_iotas_primary(presence: &mut PresenceIndex, ids: &Vec<i64>, omikron_id: i64)
    requires
        old(presence).wf(),
    ensures
        final(presence).wf(),
        final(presence).users@ == old(presence).users@,
        forall|k: i64|
            ids@.contains(k) ==> #[trigger] final(presence).primary_of(k) == Some(omikron_id)
                && final(presence).replicas_of(k).contains(omikron_id) && final(presence).has_iota(
                k,
            ),
        forall|k: i64|
            !ids@.contains(k) ==> #[trigger] final(presence).replicas_of(k) == old(
                presence,
            ).replicas_of(k),
        forall|k: i64|
            !ids@.contains(k) ==> #[trigger] final(presence).primary_of(k) == old(
                presence,
            ).primary_of(k),
        forall|k: i64|
            !ids@.contains(k) ==> #[trigger] final(presence).has_iota(k) == old(
                presence,
            ).has_iota(k),
{
    let n = ids.len();
    let mut i: usize = 0;
    while i < n
        invariant
            presence.wf(),
            n == ids@.len(),
            i <= n,
            presence.users@ == old(presence).users@,
            forall|k: i64|
                ids@.take(i as int).contains(k) ==> #[trigger] presence.primary_of(k) == Some(
                    omikron_id,
                ) && presence.replicas_of(k).contains(omikron_id) && presence.has_iota(k),
            forall|k: i64|
                !ids@.take(i as int).contains(k) ==> #[trigger] presence.replicas_of(k) == old(
                    presence,
                ).replicas_of(k),
            forall|k: i64|
                !ids@.take(i as int).contains(k) ==> #[trigger] presence.primary_of(k) == old(
                    presence,
                ).primary_of(k),
            forall|k: i64|
                !ids@.take(i as int).contains(k) ==> #[trigger] presence.has_iota(k) == old(
                    presence,
                ).has_iota(k),
        decreases n - i,
    {
        let k0 = ids[i];
        let ghost pre = *presence;
        presence.track_iota_connection(k0, omikron_id, true);
        proof {
            lemma_take_push_contains(ids@, i as int);
            if pre.replicas_of(k0).contains(omikron_id) {
                assert(presence.replicas_of(k0).contains(omikron_id));
            } else {
                assert(presence.replicas_of(k0) == pre.replicas_of(k0).push(omikron_id));
                assert(presence.replicas_of(k0).last() == omikron_id);
                assert(presence.replicas_of(k0).contains(omikron_id));
            }
        }
        i = i + 1;
    }
    proof {
        assert(ids@.take(n as int) == ids@);
    }
}

} // verus!
