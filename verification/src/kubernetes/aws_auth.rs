//! Merging the records that this tool owns into the authentication document.
//!
//! At each cycle the tool's own records are computed afresh. What the document
//! held of them before is dropped, what others wrote is kept unless a fresh
//! record has the same identity, and the fresh records are added, tagged as
//! the tool's own.

use crate::keyed::{
    distinct, lemma_distinct_prefix, lemma_fresh_last, lemma_map_of, map_of, views, well_keyed,
    KeyedSet,
};
use crate::identity::PrincipalKey;
use crate::kubernetes::{KubernetesRole, KubernetesUser, Managed, RoleKey, RoleView, UserView};
use vstd::prelude::*;

verus! {

/// The records of a collection that this tool does not own.
pub open spec fn foreign<T: Managed>(m: Map<T::Key, T::V>) -> Map<T::Key, T::V> {
    Map::new(|k: T::Key| m.contains_key(k) && !T::tool_owned(m[k]), |k: T::Key| m[k])
}

/// The records of a collection, each tagged as this tool's own.
pub open spec fn claimed_all<T: Managed>(m: Map<T::Key, T::V>) -> Map<T::Key, T::V> {
    Map::new(|k: T::Key| m.contains_key(k), |k: T::Key| T::claimed(m[k]))
}

/// The records of a collection whose identity none of `other` has.
pub open spec fn without<T: Managed>(m: Map<T::Key, T::V>, other: Map<T::Key, T::V>) -> Map<
    T::Key,
    T::V,
> {
    Map::new(|k: T::Key| m.contains_key(k) && !other.contains_key(k), |k: T::Key| m[k])
}

/// The next state of a collection of the document: the records of `current`
/// that others own and that no fresh record replaces, and every record of
/// `fresh`, tagged as this tool's own.
pub open spec fn reconciled<T: Managed>(
    current: Map<T::Key, T::V>,
    fresh: Map<T::Key, T::V>,
) -> Map<T::Key, T::V> {
    foreign::<T>(current).union_prefer_right(claimed_all::<T>(fresh))
}

/// Reconciling a second time with the same fresh records changes nothing.
pub proof fn lemma_reconcile_idempotent<T: Managed>(
    current: Map<T::Key, T::V>,
    fresh: Map<T::Key, T::V>,
)
    ensures
        reconciled::<T>(reconciled::<T>(current, fresh), fresh) == reconciled::<T>(current, fresh),
{
    let once = reconciled::<T>(current, fresh);
    let twice = reconciled::<T>(once, fresh);
    assert forall|k: T::Key| fresh.contains_key(k) implies T::tool_owned(
        #[trigger] claimed_all::<T>(fresh)[k],
    ) by {
        T::lemma_claimed(fresh[k]);
    }
    assert forall|k: T::Key| twice.contains_key(k) == once.contains_key(k) by {
        if fresh.contains_key(k) {
            assert(claimed_all::<T>(fresh).contains_key(k));
        }
    }
    assert forall|k: T::Key| #[trigger] twice.contains_key(k) implies twice[k] == once[k] by {
        if fresh.contains_key(k) {
            assert(claimed_all::<T>(fresh).contains_key(k));
        }
    }
    assert(twice =~= once);
}

/// A record that another actor owns and that no fresh record has the identity
/// of is in the next state as it was.
pub proof fn lemma_foreign_record_stays<T: Managed>(
    current: Map<T::Key, T::V>,
    fresh: Map<T::Key, T::V>,
    k: T::Key,
)
    requires
        current.contains_key(k),
        !T::tool_owned(current[k]),
        !fresh.contains_key(k),
    ensures
        reconciled::<T>(current, fresh).contains_key(k),
        reconciled::<T>(current, fresh)[k] == current[k],
{
}

/// A record that this tool owned and that is not among the fresh ones is gone
/// from the next state.
pub proof fn lemma_stale_record_leaves<T: Managed>(
    current: Map<T::Key, T::V>,
    fresh: Map<T::Key, T::V>,
    k: T::Key,
)
    requires
        current.contains_key(k),
        T::tool_owned(current[k]),
        !fresh.contains_key(k),
    ensures
        !reconciled::<T>(current, fresh).contains_key(k),
{
}

/// Every fresh record is in the next state, tagged as this tool's own,
/// whatever the document held under its identity.
pub proof fn lemma_fresh_record_enters<T: Managed>(
    current: Map<T::Key, T::V>,
    fresh: Map<T::Key, T::V>,
    k: T::Key,
)
    requires
        fresh.contains_key(k),
    ensures
        reconciled::<T>(current, fresh).contains_key(k),
        reconciled::<T>(current, fresh)[k] == T::claimed(fresh[k]),
        T::tool_owned(reconciled::<T>(current, fresh)[k]),
{
    T::lemma_claimed(fresh[k]);
}

/// The next state holds each record under its own identity, so no two of its
/// records have the same one.
pub proof fn lemma_reconciled_well_keyed<T: Managed>(
    current: Map<T::Key, T::V>,
    fresh: Map<T::Key, T::V>,
)
    requires
        well_keyed::<T>(current),
        well_keyed::<T>(fresh),
    ensures
        well_keyed::<T>(reconciled::<T>(current, fresh)),
{
    let next = reconciled::<T>(current, fresh);
    assert forall|k: T::Key| #[trigger] next.contains_key(k) implies T::key_of(next[k]) == k by {
        if fresh.contains_key(k) {
            T::lemma_claimed(fresh[k]);
        } else {
            assert(current.contains_key(k));
        }
    }
}

/// Keeps the records that this tool does not own.
pub fn keep_foreign<T: Managed>(set: KeyedSet<T>) -> (kept: KeyedSet<T>)
    ensures
        kept@ == foreign::<T>(set@),
{
    let ghost all = set.entries();
    let list = set.into_vec();
    let mut kept: KeyedSet<T> = KeyedSet::new();
    assert(all.take(0) =~= Seq::<T::V>::empty());
    assert(kept@ =~= foreign::<T>(map_of::<T>(all.take(0))));
    for item in it: list
        invariant
            it.seq() == list@,
            all == views(list@),
            distinct::<T>(all),
            kept@ == foreign::<T>(map_of::<T>(all.take(it.index() as int))),
    {
        let ghost n = it.index() as int;
        proof {
            lemma_distinct_prefix::<T>(all, n + 1);
            assert(all.take(n + 1).drop_last() =~= all.take(n));
            assert(all.take(n + 1).last() == item@);
            lemma_fresh_last::<T>(all.take(n + 1));
        }
        let ghost seen = map_of::<T>(all.take(n));
        let ghost k = T::key_of(item@);
        if item.is_tool_owned() {
            assert(foreign::<T>(seen.insert(k, item@)) =~= foreign::<T>(seen));
        } else {
            assert(foreign::<T>(seen.insert(k, item@)) =~= foreign::<T>(seen).insert(k, item@));
            kept.insert_new(item);
        }
    }
    assert(all.take(all.len() as int) =~= all);
    kept
}

/// Tags every record as this tool's own.
pub fn claim_all<T: Managed>(set: KeyedSet<T>) -> (owned: KeyedSet<T>)
    ensures
        owned@ == claimed_all::<T>(set@),
{
    let ghost all = set.entries();
    let list = set.into_vec();
    let mut owned: KeyedSet<T> = KeyedSet::new();
    assert(all.take(0) =~= Seq::<T::V>::empty());
    assert(owned@ =~= claimed_all::<T>(map_of::<T>(all.take(0))));
    for item in it: list
        invariant
            it.seq() == list@,
            all == views(list@),
            distinct::<T>(all),
            owned@ == claimed_all::<T>(map_of::<T>(all.take(it.index() as int))),
    {
        let ghost n = it.index() as int;
        let ghost seen = map_of::<T>(all.take(n));
        let ghost k = T::key_of(item@);
        proof {
            lemma_distinct_prefix::<T>(all, n + 1);
            assert(all.take(n + 1).drop_last() =~= all.take(n));
            assert(all.take(n + 1).last() == item@);
            lemma_fresh_last::<T>(all.take(n + 1));
            T::lemma_claimed(item@);
            assert(claimed_all::<T>(seen.insert(k, item@)) =~= claimed_all::<T>(seen).insert(
                k,
                T::claimed(item@),
            ));
        }
        owned.insert_new(item.claim());
    }
    assert(all.take(all.len() as int) =~= all);
    owned
}

/// Copies of the records of `base` whose identity none of `fresh` has, and
/// copies of all of `fresh`.
pub fn overlay<T: Managed>(base: &KeyedSet<T>, fresh: &KeyedSet<T>) -> (merged: KeyedSet<T>)
    ensures
        merged@ == base@.union_prefer_right(fresh@),
{
    let mut merged: KeyedSet<T> = KeyedSet::new();
    let old_items = base.items();
    let ghost olds = base.entries();
    let mut i: usize = 0;
    assert(olds.take(0) =~= Seq::<T::V>::empty());
    assert(merged@ =~= without::<T>(map_of::<T>(olds.take(0)), fresh@));
    while i < old_items.len()
        invariant
            i <= old_items.len(),
            olds == views(old_items@),
            distinct::<T>(olds),
            merged@ == without::<T>(map_of::<T>(olds.take(i as int)), fresh@),
        decreases old_items.len() - i,
    {
        let ghost seen = map_of::<T>(olds.take(i as int));
        let ghost k = T::key_of(old_items[i as int]@);
        proof {
            lemma_distinct_prefix::<T>(olds, i + 1);
            assert(olds.take(i + 1).drop_last() =~= olds.take(i as int));
            assert(olds.take(i + 1).last() == old_items[i as int]@);
            lemma_fresh_last::<T>(olds.take(i + 1));
        }
        if fresh.contains(&old_items[i]) {
            assert(without::<T>(seen.insert(k, old_items[i as int]@), fresh@) =~= without::<T>(
                seen,
                fresh@,
            ));
        } else {
            assert(without::<T>(seen.insert(k, old_items[i as int]@), fresh@) =~= without::<T>(
                seen,
                fresh@,
            ).insert(k, old_items[i as int]@));
            merged.insert_new(old_items[i].duplicate());
        }
        i += 1;
    }
    assert(olds.take(olds.len() as int) =~= olds);
    let new_items = fresh.items();
    let ghost news = fresh.entries();
    let ghost kept = without::<T>(base@, fresh@);
    let mut j: usize = 0;
    assert(news.take(0) =~= Seq::<T::V>::empty());
    assert(merged@ =~= kept.union_prefer_right(map_of::<T>(news.take(0))));
    while j < new_items.len()
        invariant
            j <= new_items.len(),
            news == views(new_items@),
            news == fresh.entries(),
            distinct::<T>(news),
            kept == without::<T>(base@, fresh@),
            merged@ == kept.union_prefer_right(map_of::<T>(news.take(j as int))),
        decreases new_items.len() - j,
    {
        let ghost seen = map_of::<T>(news.take(j as int));
        let ghost k = T::key_of(new_items[j as int]@);
        proof {
            lemma_distinct_prefix::<T>(news, j + 1);
            assert(news.take(j + 1).drop_last() =~= news.take(j as int));
            assert(news.take(j + 1).last() == new_items[j as int]@);
            lemma_fresh_last::<T>(news.take(j + 1));
            lemma_map_of::<T>(news);
            assert(fresh@.contains_key(T::key_of(news[j as int])));
            assert(kept.union_prefer_right(seen.insert(k, new_items[j as int]@))
                =~= kept.union_prefer_right(seen).insert(k, new_items[j as int]@));
        }
        merged.insert_new(new_items[j].duplicate());
        j += 1;
    }
    assert(news.take(news.len() as int) =~= news);
    assert(kept.union_prefer_right(fresh@) =~= base@.union_prefer_right(fresh@));
    merged
}

/// The two collections of the authentication document.
#[derive(Debug)]
pub struct AwsAuth {
    pub users: KeyedSet<KubernetesUser>,
    pub roles: KeyedSet<KubernetesRole>,
}

/// Builds the next state of the document from its current records and from
/// the records that this tool owns in this cycle.
#[derive(Debug)]
pub struct AwsAuthBuilder {
    users: KeyedSet<KubernetesUser>,
    roles: KeyedSet<KubernetesRole>,
    new_synced_users: KeyedSet<KubernetesUser>,
    new_synced_roles: KeyedSet<KubernetesRole>,
}

impl AwsAuthBuilder {
    /// The users of the document that the builder keeps.
    pub closed spec fn kept_users(&self) -> Map<PrincipalKey, UserView> {
        self.users@
    }

    /// The roles of the document that the builder keeps.
    pub closed spec fn kept_roles(&self) -> Map<RoleKey, RoleView> {
        self.roles@
    }

    /// The users that this tool owns in this cycle.
    pub closed spec fn synced_users(&self) -> Map<PrincipalKey, UserView> {
        self.new_synced_users@
    }

    /// The roles that this tool owns in this cycle.
    pub closed spec fn synced_roles(&self) -> Map<RoleKey, RoleView> {
        self.new_synced_roles@
    }

    /// Starts from the document's current records. Those that this tool wrote
    /// in an earlier cycle are dropped at once.
    pub fn new(users: KeyedSet<KubernetesUser>, roles: KeyedSet<KubernetesRole>) -> (b:
        AwsAuthBuilder)
        ensures
            b.kept_users() == foreign::<KubernetesUser>(users@),
            b.kept_roles() == foreign::<KubernetesRole>(roles@),
            b.synced_users() == Map::<PrincipalKey, UserView>::empty(),
            b.synced_roles() == Map::<RoleKey, RoleView>::empty(),
    {
        AwsAuthBuilder {
            users: keep_foreign(users),
            roles: keep_foreign(roles),
            new_synced_users: KeyedSet::new(),
            new_synced_roles: KeyedSet::new(),
        }
    }

    /// Takes the document's records as they are, without dropping any.
    pub fn from_aws_auth(value: AwsAuth) -> (b: AwsAuthBuilder)
        ensures
            b.kept_users() == value.users@,
            b.kept_roles() == value.roles@,
            b.synced_users() == Map::<PrincipalKey, UserView>::empty(),
            b.synced_roles() == Map::<RoleKey, RoleView>::empty(),
    {
        AwsAuthBuilder {
            users: value.users,
            roles: value.roles,
            new_synced_users: KeyedSet::new(),
            new_synced_roles: KeyedSet::new(),
        }
    }

    /// Sets the users that this tool owns in this cycle, each tagged as its own.
    pub fn new_synced_users(&mut self, u: KeyedSet<KubernetesUser>) -> (r: &mut Self)
        ensures
            r.synced_users() == claimed_all::<KubernetesUser>(u@),
            r.synced_roles() == old(self).synced_roles(),
            r.kept_users() == old(self).kept_users(),
            r.kept_roles() == old(self).kept_roles(),
            *final(self) == *final(r),
    {
        self.new_synced_users = claim_all(u);
        self
    }

    /// Sets the roles that this tool owns in this cycle, each tagged as its own.
    pub fn new_synced_roles(&mut self, r: KeyedSet<KubernetesRole>) -> (b: &mut Self)
        ensures
            b.synced_roles() == claimed_all::<KubernetesRole>(r@),
            b.synced_users() == old(self).synced_users(),
            b.kept_users() == old(self).kept_users(),
            b.kept_roles() == old(self).kept_roles(),
            *final(self) == *final(b),
    {
        self.new_synced_roles = claim_all(r);
        self
    }

    /// The next state of the document: what the builder keeps, but for the
    /// records that have the identity of one of this cycle's, and this cycle's.
    pub fn build(&self) -> (auth: AwsAuth)
        ensures
            auth.users@ == self.kept_users().union_prefer_right(self.synced_users()),
            auth.roles@ == self.kept_roles().union_prefer_right(self.synced_roles()),
    {
        AwsAuth {
            users: overlay(&self.users, &self.new_synced_users),
            roles: overlay(&self.roles, &self.new_synced_roles),
        }
    }
}

/// Reconciles the document with this cycle's records: the users and roles
/// that come out are the `reconciled` ones.
pub fn reconcile(
    users: KeyedSet<KubernetesUser>,
    roles: KeyedSet<KubernetesRole>,
    new_users: KeyedSet<KubernetesUser>,
    new_roles: KeyedSet<KubernetesRole>,
) -> (auth: AwsAuth)
    ensures
        auth.users@ == reconciled::<KubernetesUser>(users@, new_users@),
        auth.roles@ == reconciled::<KubernetesRole>(roles@, new_roles@),
{
    let mut builder = AwsAuthBuilder::new(users, roles);
    builder.new_synced_users(new_users);
    builder.new_synced_roles(new_roles);
    builder.build()
}

} // verus!
