use vstd::multiset::Multiset;
use vstd::prelude::*;

use crate::errors::LunchOrderError;
use crate::model::{sorted_by_recency, Credential, Restaurant, User};

verus! {

broadcast use vstd::seq_lib::group_to_multiset_ensures;

/// In-memory image of the single embedded database file: one vector per
/// table. Rows are never deleted, and ids are assigned by the store in
/// insertion order, so the row with id `k` sits at index `k - 1`.
pub struct Store {
    pub restaurants: Vec<Restaurant>,
    pub users: Vec<User>,
    pub credentials: Vec<Credential>,
}

impl Store {
    /// Well-formedness of the whole store: ids are the positional ids,
    /// restaurant rows are valid, usernames are unique, and the user and
    /// credential tables pair up row by row (a credential never exists
    /// without its user, a registered user never without its credential).
    pub open spec fn wf(self) -> bool {
        &&& self.restaurants@.len() <= i32::MAX as int
        &&& forall|i: int|
            0 <= i < self.restaurants@.len() ==> (#[trigger] self.restaurants@[i]).id == i + 1
        &&& forall|i: int|
            0 <= i < self.restaurants@.len() ==> (#[trigger] self.restaurants@[i]).valid()
        &&& self.users@.len() <= i32::MAX as int
        &&& forall|i: int| 0 <= i < self.users@.len() ==> (#[trigger] self.users@[i]).id == i + 1
        &&& forall|i: int, j: int|
            0 <= i < j < self.users@.len() ==> (#[trigger] self.users@[i]).username@ != (
            #[trigger] self.users@[j]).username@
        &&& self.credentials@.len() == self.users@.len()
        &&& forall|i: int|
            0 <= i < self.credentials@.len() ==> (#[trigger] self.credentials@[i]).id == i + 1
                && self.credentials@[i].user_id == i + 1
    }

    /// Whether some restaurant row carries the given id.
    pub open spec fn has_restaurant_id(self, id: i32) -> bool {
        exists|i: int|
            0 <= i < self.restaurants@.len() && (#[trigger] self.restaurants@[i]).id == id
    }

    /// Whether some user row carries the given username.
    pub open spec fn has_username(self, name: Seq<char>) -> bool {
        exists|i: int| 0 <= i < self.users@.len() && (#[trigger] self.users@[i]).username@ == name
    }

    /// Recording a visit must never roll a visit time back: whichever row
    /// carries the id must currently hold a strictly earlier time.
    pub open spec fn can_record(self, id: i32, timestamp: i64) -> bool {
        forall|i: int|
            0 <= i < self.restaurants@.len() && (#[trigger] self.restaurants@[i]).id == id
                ==> self.restaurants@[i].last_visit_time < timestamp
    }

    /// An empty store: no rows in any table.
    pub fn new() -> (s: Store)
        ensures
            s.wf(),
            s.restaurants@.len() == 0,
            s.users@.len() == 0,
            s.credentials@.len() == 0,
    {
        Store { restaurants: Vec::new(), users: Vec::new(), credentials: Vec::new() }
    }

    /// What a successful insertion of a restaurant does to the store:
    /// exactly one row is appended, carrying the next positional id, the
    /// given name and the given visit time; the other tables are untouched.
    pub open spec fn created_at(
        pre: Store,
        post: Store,
        name: Seq<char>,
        timestamp: i64,
        row: Restaurant,
    ) -> bool {
        &&& row.id as int == pre.restaurants@.len() + 1
        &&& row.name@ == name
        &&& row.last_visit_time == timestamp
        &&& post.restaurants@ == pre.restaurants@.push(row)
        &&& post.users@ == pre.users@
        &&& post.credentials@ == pre.credentials@
    }

    /// Insert a new restaurant whose last visit time is `timestamp`.
    /// An empty name is rejected; nothing else can fail.
    pub fn create_at(&mut self, name: String, timestamp: i64) -> (result: Result<
        Restaurant,
        LunchOrderError,
    >)
        requires
            old(self).wf(),
            old(self).restaurants@.len() < i32::MAX as int,
            0 <= timestamp,
        ensures
            final(self).wf(),
            name@.len() == 0 ==> result == Err::<Restaurant, LunchOrderError>(
                LunchOrderError::Validation,
            ) && *final(self) == *old(self),
            name@.len() > 0 ==> result is Ok && Store::created_at(
                *old(self),
                *final(self),
                name@,
                timestamp,
                result->Ok_0,
            ),
    {
        if name.as_str().is_empty() {
            return Err(LunchOrderError::Validation);
        }
        let id = (self.restaurants.len() + 1) as i32;
        let row = Restaurant { id, name, last_visit_time: timestamp };
        let dup = row.clone();
        self.restaurants.push(dup);
        Ok(row)
    }

    /// Insert a new restaurant visited right now: the visit time is read
    /// from the system clock, everything else is as in `create_at`.
    pub fn create(&mut self, name: String) -> (result: Result<Restaurant, LunchOrderError>)
        requires
            old(self).wf(),
            old(self).restaurants@.len() < i32::MAX as int,
        ensures
            final(self).wf(),
            name@.len() == 0 ==> result == Err::<Restaurant, LunchOrderError>(
                LunchOrderError::Validation,
            ) && *final(self) == *old(self),
            name@.len() > 0 ==> result is Ok && (exists|t: i64|
                0 <= t && Store::created_at(*old(self), *final(self), name@, t, result->Ok_0)),
    {
        let now = clock_now();
        self.create_at(name, now)
    }

    /// Set the last visit time of the row with the given id. The id of a
    /// row that was never created is rejected with `NotFound`, and no row
    /// is touched.
    pub fn record_visit(&mut self, id: i32, timestamp: i64) -> (result: Result<
        (),
        LunchOrderError,
    >)
        requires
            old(self).wf(),
            0 <= timestamp,
            old(self).can_record(id, timestamp),
        ensures
            final(self).wf(),
            !old(self).has_restaurant_id(id) ==> result == Err::<(), LunchOrderError>(
                LunchOrderError::NotFound,
            ) && *final(self) == *old(self),
            old(self).has_restaurant_id(id) ==> result is Ok && {
                let k = id - 1;
                &&& final(self).restaurants@.len() == old(self).restaurants@.len()
                &&& final(self).restaurants@[k].id == id
                &&& final(self).restaurants@[k].name@ == old(self).restaurants@[k].name@
                &&& final(self).restaurants@[k].last_visit_time == timestamp
                &&& old(self).restaurants@[k].last_visit_time < timestamp
                &&& (forall|j: int|
                    0 <= j < old(self).restaurants@.len() && j != k
                        ==> final(self).restaurants@[j] == old(self).restaurants@[j])
                &&& final(self).users@ == old(self).users@
                &&& final(self).credentials@ == old(self).credentials@
            },
    {
        if 1 <= id && id as usize <= self.restaurants.len() {
            let k = (id - 1) as usize;
            let mut row = self.restaurants.remove(k);
            row.last_visit_time = timestamp;
            self.restaurants.insert(k, row);
            proof {
                assert(old(self).restaurants@[id - 1].id == id);
            }
            Ok(())
        } else {
            proof {
                if old(self).has_restaurant_id(id) {
                    let i = choose|i: int|
                        0 <= i < old(self).restaurants@.len() && (#[trigger] old(
                            self,
                        ).restaurants@[i]).id == id;
                    assert(old(self).restaurants@[i].id == i + 1);
                    assert(false);
                }
            }
            Err(LunchOrderError::NotFound)
        }
    }

    /// Every restaurant row, ordered ascending by `last_visit_time`: the
    /// least recently visited first. The result is a permutation of the
    /// stored rows; an empty store yields an empty listing.
    pub fn list_by_recency(&self) -> (listed: Vec<Restaurant>)
        ensures
            sorted_by_recency(listed@),
            listed@.to_multiset() == self.restaurants@.to_multiset(),
    {
        let n = self.restaurants.len();
        let mut listed: Vec<Restaurant> = Vec::new();
        let mut i: usize = 0;
        while i < n
            invariant
                i <= n,
                n == self.restaurants@.len(),
                sorted_by_recency(listed@),
                listed@.to_multiset() == self.restaurants@.subrange(0, i as int).to_multiset(),
            decreases n - i,
        {
            let row = self.restaurants[i].clone();
            let mut j: usize = 0;
            while j < listed.len() && listed[j].last_visit_time <= row.last_visit_time
                invariant
                    j <= listed@.len(),
                    forall|k: int|
                        0 <= k < j ==> (#[trigger] listed@[k]).last_visit_time
                            <= row.last_visit_time,
                decreases listed@.len() - j,
            {
                j += 1;
            }
            let ghost before = listed@;
            listed.insert(j, row);
            proof {
                assert forall|a: int, b: int| 0 <= a <= b < listed@.len() implies listed@[a]
                    .last_visit_time <= listed@[b].last_visit_time by {
                    if b > j {
                        assert(listed@[b] == before[b - 1]);
                        assert(before[b - 1].last_visit_time > row.last_visit_time);
                    }
                }
                assert(self.restaurants@.subrange(0, i as int + 1) =~= self.restaurants@.subrange(
                    0,
                    i as int,
                ).push(self.restaurants@[i as int]));
            }
            i += 1;
        }
        proof {
            assert(self.restaurants@.subrange(0, n as int) =~= self.restaurants@);
        }
        listed
    }

    /// Number of restaurant rows.
    pub fn restaurant_count(&self) -> (n: usize)
        ensures
            n == self.restaurants@.len(),
    {
        self.restaurants.len()
    }

    /// Number of user rows.
    pub fn user_count(&self) -> (n: usize)
        ensures
            n == self.users@.len(),
    {
        self.users.len()
    }

    /// Number of credential rows.
    pub fn credential_count(&self) -> (n: usize)
        ensures
            n == self.credentials@.len(),
    {
        self.credentials.len()
    }

    /// The restaurant row at the given index, in creation order.
    pub fn restaurant_at(&self, i: usize) -> (r: &Restaurant)
        requires
            i < self.restaurants@.len(),
        ensures
            *r == self.restaurants@[i as int],
    {
        &self.restaurants[i]
    }

    /// The user row at the given index, in creation order.
    pub fn user_at(&self, i: usize) -> (r: &User)
        requires
            i < self.users@.len(),
        ensures
            *r == self.users@[i as int],
    {
        &self.users[i]
    }

    /// The credential row at the given index, in creation order.
    pub fn credential_at(&self, i: usize) -> (r: &Credential)
        requires
            i < self.credentials@.len(),
        ensures
            *r == self.credentials@[i as int],
    {
        &self.credentials[i]
    }
}

/// Every restaurant, least recently visited first, as the index page needs
/// them. The in-memory store cannot lose its connection, so the result is
/// always `Ok`.
pub fn get_restaurants(store: &Store) -> (result: Result<Vec<Restaurant>, LunchOrderError>)
    ensures
        result is Ok,
        sorted_by_recency(result->Ok_0@),
        result->Ok_0@.to_multiset() == store.restaurants@.to_multiset(),
{
    Ok(store.list_by_recency())
}

/// A sequence none of whose elements satisfies `p` filters down to
/// nothing.
proof fn lemma_filter_empty<A>(s: Seq<A>, p: spec_fn(A) -> bool)
    requires
        forall|i: int| 0 <= i < s.len() ==> !p(#[trigger] s[i]),
    ensures
        s.filter(p).len() == 0,
    decreases s.len(),
{
    reveal(Seq::filter);
    if s.len() > 0 {
        assert(forall|i: int| 0 <= i < s.drop_last().len() ==> !p(#[trigger] s.drop_last()[i]));
        lemma_filter_empty(s.drop_last(), p);
        assert(!p(s.last()));
    }
}

/// A sequence with two distinct positions satisfying `p` keeps at least
/// two elements under the filter.
proof fn lemma_filter_pair<A>(s: Seq<A>, p: spec_fn(A) -> bool, i: int, j: int)
    requires
        0 <= i < j < s.len(),
        p(s[i]),
        p(s[j]),
    ensures
        s.filter(p).len() >= 2,
    decreases s.len(),
{
    reveal(Seq::filter);
    if j == s.len() - 1 {
        assert(s.drop_last()[i] == s[i]);
        s.drop_last().lemma_filter_contains(p, i);
    } else {
        assert(s.drop_last()[i] == s[i]);
        assert(s.drop_last()[j] == s[j]);
        lemma_filter_pair(s.drop_last(), p, i, j);
    }
}

/// Filtering commutes with forgetting the order: the multiset of the
/// filtered sequence is the filtered multiset of the sequence.
proof fn lemma_filter_to_multiset<A>(s: Seq<A>, p: spec_fn(A) -> bool)
    ensures
        s.filter(p).to_multiset() == s.to_multiset().filter(p),
    decreases s.len(),
{
    broadcast use vstd::multiset::group_multiset_axioms;

    reveal(Seq::filter);
    if s.len() == 0 {
        assert(s.to_multiset() =~= Multiset::<A>::empty());
        assert(s.filter(p).to_multiset() =~= s.to_multiset().filter(p));
    } else {
        lemma_filter_to_multiset(s.drop_last(), p);
        assert(s =~= s.drop_last().push(s.last()));
        assert(s.to_multiset() =~= s.drop_last().to_multiset().insert(s.last()));
        if p(s.last()) {
            assert(s.filter(p) == s.drop_last().filter(p).push(s.last()));
            assert(s.filter(p).to_multiset() =~= s.to_multiset().filter(p));
        } else {
            assert(s.filter(p) == s.drop_last().filter(p));
            assert(s.filter(p).to_multiset() =~= s.to_multiset().filter(p));
        }
    }
}

/// After a visit is recorded on the restaurant with id `id` — its row now
/// holding visit time `t` — any recency-ordered listing of the store
/// places that row so that every row ranked before it was visited no
/// later than `t`, and every row ranked after it no earlier than `t`.
pub proof fn lemma_recorded_visit_rank(store: Store, id: i32, t: i64, listed: Seq<Restaurant>)
    requires
        store.wf(),
        1 <= id <= store.restaurants@.len(),
        store.restaurants@[id - 1].last_visit_time == t,
        sorted_by_recency(listed),
        listed.to_multiset() == store.restaurants@.to_multiset(),
    ensures
        exists|k: int|
            0 <= k < listed.len() && (#[trigger] listed[k]).id == id && listed[k].last_visit_time
                == t && (forall|j: int| 0 <= j < k ==> listed[j].last_visit_time <= t) && (forall|
                j: int,
            | k < j < listed.len() ==> listed[j].last_visit_time >= t),
{
    let r = store.restaurants@[id - 1];
    assert(r.id == id);
    assert(store.restaurants@.contains(r));
    assert(listed.to_multiset().count(r) > 0);
    assert(listed.contains(r));
    let k = choose|k: int| 0 <= k < listed.len() && listed[k] == r;
    assert(0 <= k < listed.len() && listed[k].id == id && listed[k].last_visit_time == t && (forall|
        j: int,
    | 0 <= j < k ==> listed[j].last_visit_time <= t) && (forall|j: int|
        k < j < listed.len() ==> listed[j].last_visit_time >= t));
}

/// Round trip of creation: once a restaurant whose name no other row
/// carries has been appended, any listing that permutes the store's rows
/// contains exactly one row with that name, and that row carries the new
/// row's id and visit time.
pub proof fn lemma_create_round_trip(
    pre: Store,
    post: Store,
    row: Restaurant,
    listed: Seq<Restaurant>,
)
    requires
        forall|i: int|
            0 <= i < pre.restaurants@.len() ==> (#[trigger] pre.restaurants@[i]).name@
                != row.name@,
        post.restaurants@ == pre.restaurants@.push(row),
        listed.to_multiset() == post.restaurants@.to_multiset(),
    ensures
        exists|k: int|
            0 <= k < listed.len() && (#[trigger] listed[k]).name@ == row.name@
                && listed[k].last_visit_time == row.last_visit_time && listed[k].id == row.id,
        forall|k1: int, k2: int|
            0 <= k1 < listed.len() && 0 <= k2 < listed.len() && (#[trigger] listed[k1]).name@
                == row.name@ && (#[trigger] listed[k2]).name@ == row.name@ ==> k1 == k2,
{
    broadcast use vstd::multiset::group_multiset_axioms;

    let p = |x: Restaurant| x.name@ == row.name@;
    lemma_filter_to_multiset(listed, p);
    lemma_filter_to_multiset(post.restaurants@, p);
    assert(post.restaurants@ =~= pre.restaurants@ + seq![row]);
    Seq::filter_distributes_over_add(pre.restaurants@, seq![row], p);
    lemma_filter_empty(pre.restaurants@, p);
    assert(seq![row].filter(p) =~= seq![row]) by {
        reveal(Seq::filter);
        assert(seq![row].drop_last() =~= Seq::<Restaurant>::empty());
        assert(Seq::<Restaurant>::empty().filter(p) =~= Seq::<Restaurant>::empty());
        assert(p(seq![row].last()));
    }
    assert(post.restaurants@.filter(p) =~= seq![row]);
    assert(listed.filter(p).to_multiset() =~= seq![row].to_multiset());
    assert(listed.filter(p).len() == seq![row].to_multiset().len());
    assert(listed.filter(p).len() == 1);
    if !(exists|k: int| 0 <= k < listed.len() && p(#[trigger] listed[k])) {
        assert(forall|k: int| 0 <= k < listed.len() ==> !p(#[trigger] listed[k]));
        lemma_filter_empty(listed, p);
        assert(false);
    }
    let k = choose|k: int| 0 <= k < listed.len() && p(#[trigger] listed[k]);
    listed.lemma_filter_contains(p, k);
    assert(listed.filter(p)[0] == listed[k]);
    assert(listed.filter(p).to_multiset().count(listed[k]) > 0);
    assert(seq![row].to_multiset().count(listed[k]) > 0);
    assert(seq![row].contains(listed[k]));
    assert(listed[k] == row);
    assert(0 <= k < listed.len() && listed[k].name@ == row.name@ && listed[k].last_visit_time
        == row.last_visit_time && listed[k].id == row.id);
    assert forall|k1: int, k2: int|
        0 <= k1 < listed.len() && 0 <= k2 < listed.len() && (#[trigger] listed[k1]).name@
            == row.name@ && (#[trigger] listed[k2]).name@ == row.name@ implies k1 == k2 by {
        if k1 < k2 {
            lemma_filter_pair(listed, p, k1, k2);
        } else if k2 < k1 {
            lemma_filter_pair(listed, p, k2, k1);
        }
    }
}

/// Relies on `chrono::Utc::now` and `DateTime::timestamp`: whole seconds
/// since the Unix epoch. `Utc::now` aborts rather than returns when the
/// system clock reads before the epoch, so a returned value is never
/// negative.
#[verifier::external_body]
fn clock_now() -> (t: i64)
    ensures
        0 <= t,
{
    chrono::Utc::now().timestamp()
}

} // verus!
