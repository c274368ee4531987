//! What one cycle computes between its calls to the outside: the users to
//! write, from what the identity source listed, and the document to write,
//! from what the document held.

use crate::aws::iam::{absorb_member, AwsUser, AwsUserView, IamGroup, MemberView};
use crate::identity::{principal_key, PrincipalKey};
use crate::keyed::{
    distinct, first_wins, lemma_distinct_prefix, lemma_fresh_last, lemma_map_of, map_of, views,
    Keyed, KeyedSet,
};
use crate::kubernetes::aws_auth::{reconcile, reconciled};
use crate::kubernetes::{
    IamArn, IamUserName, KubernetesRole, KubernetesUser, MapRoleConfig, MapUserConfig, RoleView,
    SyncedBy, UserView,
};
use crate::mapping::{targets, GroupsMappings};
use crate::text::texts;
use vstd::prelude::*;

verus! {

/// The namespace of the authentication document.
pub const CONFIG_MAP_NAMESPACE: &'static str = "kube-system";

/// The name of the authentication document.
pub const CONFIG_MAP_NAME: &'static str = "aws-auth";

/// The key under which the document holds its users.
pub const MAP_USERS_KEY: &'static str = "mapUsers";

/// The key under which the document holds its roles.
pub const MAP_ROLES_KEY: &'static str = "mapRoles";

/// The cluster user that a gathered user becomes: bound to the targets of its
/// groups, and this tool's own.
pub open spec fn synced_user(table: Map<Seq<char>, Seq<char>>, user: AwsUserView) -> UserView {
    UserView {
        name: user.name,
        arn: user.arn,
        groups: targets(table, user.groups),
        synced_by: Some(SyncedBy::IamEksUserMapper),
    }
}

/// The cluster users that the gathered users become.
pub open spec fn synced_users(
    table: Map<Seq<char>, Seq<char>>,
    users: Map<PrincipalKey, AwsUserView>,
) -> Map<PrincipalKey, UserView> {
    Map::new(|k: PrincipalKey| users.contains_key(k), |k: PrincipalKey| synced_user(table, users[k]))
}

/// Every group of every gathered user has a rule.
pub open spec fn all_mapped(
    table: Map<Seq<char>, Seq<char>>,
    users: Map<PrincipalKey, AwsUserView>,
) -> bool {
    forall|k: PrincipalKey| #[trigger]
        users.contains_key(k) ==> users[k].groups.subset_of(table.dom())
}

/// One cycle on an empty document: where the only member that the source
/// lists is a member of one group with a rule, the document ends up with one
/// user, bound to the rule's target group and tagged as this tool's own.
pub proof fn lemma_cycle_of_one_member(
    table: Map<Seq<char>, Seq<char>>,
    group: Seq<char>,
    member: MemberView,
)
    requires
        table.contains_key(group),
    ensures
        ({
            let gathered = absorb_member(Map::empty(), group, member);
            let document = reconciled::<KubernetesUser>(Map::empty(), synced_users(table, gathered));
            let k = principal_key(member.arn, member.name);
            &&& document.dom() == Set::<PrincipalKey>::empty().insert(k)
            &&& document[k] == UserView {
                name: member.name,
                arn: member.arn,
                groups: Set::<Seq<char>>::empty().insert(table[group]),
                synced_by: Some(SyncedBy::IamEksUserMapper),
            }
        }),
{
    let gathered = absorb_member(Map::empty(), group, member);
    let document = reconciled::<KubernetesUser>(Map::empty(), synced_users(table, gathered));
    let k = principal_key(member.arn, member.name);
    let sources = Set::<Seq<char>>::empty().insert(group);
    assert(gathered.dom() =~= Set::<PrincipalKey>::empty().insert(k));
    assert(targets(table, sources) =~= Set::<Seq<char>>::empty().insert(table[group])) by {
        assert(sources.contains(group));
    }
    assert(document.dom() =~= Set::<PrincipalKey>::empty().insert(k));
}

/// The cluster users for the gathered users, or a group of one of them that
/// no rule names. Such a group cannot come up while the groups that are
/// listed are those of the rules, so the caller treats it as a fault of the
/// program and not of the cycle.
pub fn kubernetes_users(mappings: &GroupsMappings, iam_users: &KeyedSet<AwsUser>) -> (r: Result<
    KeyedSet<KubernetesUser>,
    IamGroup,
>)
    ensures
        match r {
            Ok(users) => all_mapped(mappings@, iam_users@) && users@ == synced_users(
                mappings@,
                iam_users@,
            ),
            Err(group) => exists|k: PrincipalKey| #[trigger]
                iam_users@.contains_key(k) && iam_users@[k].groups.contains(group@)
                    && !mappings@.contains_key(group@),
        },
{
    let mut users: KeyedSet<KubernetesUser> = KeyedSet::new();
    let items = iam_users.items();
    let ghost all = iam_users.entries();
    let ghost table = mappings@;
    let mut i: usize = 0;
    assert(all.take(0) =~= Seq::<AwsUserView>::empty());
    assert(users@ =~= synced_users(table, map_of::<AwsUser>(all.take(0))));
    while i < items.len()
        invariant
            i <= items.len(),
            all == views(items@),
            all == iam_users.entries(),
            table == mappings@,
            distinct::<AwsUser>(all),
            all_mapped(table, map_of::<AwsUser>(all.take(i as int))),
            users@ == synced_users(table, map_of::<AwsUser>(all.take(i as int))),
        decreases items.len() - i,
    {
        let ghost seen = map_of::<AwsUser>(all.take(i as int));
        let ghost k = AwsUser::key_of(items[i as int]@);
        proof {
            assert(all[i as int] == items[i as int]@);
            lemma_distinct_prefix::<AwsUser>(all, i + 1);
            assert(all.take(i + 1).drop_last() =~= all.take(i as int));
            assert(all.take(i + 1).last() == items[i as int]@);
            lemma_fresh_last::<AwsUser>(all.take(i + 1));
        }
        match mappings.targets_of(&items[i].groups) {
            Ok(roles) => {
                let user = KubernetesUser::new(
                    IamUserName::new(items[i].user_name.as_str()),
                    IamArn::new(items[i].arn.as_str()),
                    roles,
                    Some(SyncedBy::IamEksUserMapper),
                );
                proof {
                    assert(user@ == synced_user(table, items[i as int]@));
                    assert(synced_users(table, seen.insert(k, items[i as int]@)) =~= synced_users(
                        table,
                        seen,
                    ).insert(k, user@));
                    assert(all_mapped(table, seen.insert(k, items[i as int]@))) by {
                        assert forall|key: PrincipalKey| #[trigger]
                            seen.insert(k, items[i as int]@).contains_key(key) implies seen.insert(
                            k,
                            items[i as int]@,
                        )[key].groups.subset_of(table.dom()) by {
                            if key != k {
                                assert(seen.contains_key(key));
                            }
                        }
                    }
                }
                users.insert_new(user);
            },
            Err(group) => {
                proof {
                    lemma_map_of::<AwsUser>(all);
                    assert(iam_users@.contains_key(AwsUser::key_of(all[i as int])));
                    assert(iam_users@[k] == all[i as int]);
                }
                return Err(group);
            },
        }
        i += 1;
    }
    assert(all.take(items.len() as int) =~= all);
    Ok(users)
}

/// The two lists of records that the document holds.
#[derive(Debug)]
pub struct AuthDocument {
    pub users: Vec<MapUserConfig>,
    pub roles: Vec<MapRoleConfig>,
}

/// The views of the records under a key of the document. A key that the
/// document lacks holds no record.
pub open spec fn listed<R: View>(records: Option<Vec<R>>) -> Seq<R::V> {
    match records {
        Some(list) => views(list@),
        None => Seq::empty(),
    }
}

/// The users that the document's list describes. Of two records for the same
/// user the first counts.
pub fn users_of_document(records: Option<Vec<MapUserConfig>>) -> (users: KeyedSet<KubernetesUser>)
    ensures
        users@ == first_wins::<KubernetesUser>(listed(records)),
{
    let mut users: KeyedSet<KubernetesUser> = KeyedSet::new();
    match records {
        None => {},
        Some(list) => {
            let ghost all = views(list@);
            for record in it: list
                invariant
                    it.seq() == list@,
                    all == views(list@),
                    users@ == first_wins::<KubernetesUser>(all.take(it.index() as int)),
            {
                proof {
                    let n = it.index() as int;
                    assert(all.take(n + 1).drop_last() =~= all.take(n));
                    assert(all.take(n + 1).last() == record@);
                }
                users.insert(KubernetesUser::from_document(record));
            }
            assert(all.take(all.len() as int) =~= all);
        },
    }
    users
}

/// The roles that the document's list describes. Of two records for the same
/// role the first counts.
pub fn roles_of_document(records: Option<Vec<MapRoleConfig>>) -> (roles: KeyedSet<KubernetesRole>)
    ensures
        roles@ == first_wins::<KubernetesRole>(listed(records)),
{
    let mut roles: KeyedSet<KubernetesRole> = KeyedSet::new();
    match records {
        None => {},
        Some(list) => {
            let ghost all = views(list@);
            for record in it: list
                invariant
                    it.seq() == list@,
                    all == views(list@),
                    roles@ == first_wins::<KubernetesRole>(all.take(it.index() as int)),
            {
                proof {
                    let n = it.index() as int;
                    assert(all.take(n + 1).drop_last() =~= all.take(n));
                    assert(all.take(n + 1).last() == record@);
                }
                roles.insert(KubernetesRole::from_document(record));
            }
            assert(all.take(all.len() as int) =~= all);
        },
    }
    roles
}

/// The records that describe a set of users, one for each.
pub fn user_records(users: KeyedSet<KubernetesUser>) -> (records: Vec<MapUserConfig>)
    ensures
        views(records@) == users.entries(),
        distinct::<KubernetesUser>(views(records@)),
        map_of::<KubernetesUser>(views(records@)) == users@,
        forall|i: int| 0 <= i < records.len() ==> texts(#[trigger] records[i].groups@).no_duplicates(),
{
    let ghost all = users.entries();
    let list = users.into_vec();
    let mut records: Vec<MapUserConfig> = Vec::new();
    assert(views(records@) =~= all.take(0));
    for user in it: list
        invariant
            it.seq() == list@,
            all == views(list@),
            views(records@) == all.take(it.index() as int),
            forall|i: int|
                0 <= i < records.len() ==> texts(#[trigger] records[i].groups@).no_duplicates(),
    {
        let record = MapUserConfig::from_user(user);
        proof {
            let n = it.index() as int;
            assert(views(records@.push(record)) =~= all.take(n).push(record@));
            assert(all.take(n + 1) =~= all.take(n).push(all[n]));
        }
        records.push(record);
    }
    assert(all.take(all.len() as int) =~= all);
    records
}

/// The records that describe a set of roles, one for each.
pub fn role_records(roles: KeyedSet<KubernetesRole>) -> (records: Vec<MapRoleConfig>)
    ensures
        views(records@) == roles.entries(),
        distinct::<KubernetesRole>(views(records@)),
        map_of::<KubernetesRole>(views(records@)) == roles@,
        forall|i: int| 0 <= i < records.len() ==> texts(#[trigger] records[i].groups@).no_duplicates(),
{
    let ghost all = roles.entries();
    let list = roles.into_vec();
    let mut records: Vec<MapRoleConfig> = Vec::new();
    assert(views(records@) =~= all.take(0));
    for role in it: list
        invariant
            it.seq() == list@,
            all == views(list@),
            views(records@) == all.take(it.index() as int),
            forall|i: int|
                0 <= i < records.len() ==> texts(#[trigger] records[i].groups@).no_duplicates(),
    {
        let record = MapRoleConfig::from_role(role);
        proof {
            let n = it.index() as int;
            assert(views(records@.push(record)) =~= all.take(n).push(record@));
            assert(all.take(n + 1) =~= all.take(n).push(all[n]));
        }
        records.push(record);
    }
    assert(all.take(all.len() as int) =~= all);
    records
}

/// The roles that a cycle installs: the SSO role and the Karpenter role, as
/// far as each is configured.
pub open spec fn fixed_roles(sso_role: Option<KubernetesRole>, karpenter_role: Option<KubernetesRole>) -> Seq<
    RoleView,
> {
    let first = match sso_role {
        Some(role) => seq![role@],
        None => Seq::empty(),
    };
    let second = match karpenter_role {
        Some(role) => seq![role@],
        None => Seq::empty(),
    };
    first + second
}

/// The set of the roles that a cycle installs. Should both be the same role,
/// the SSO role counts.
pub fn roles_to_add(sso_role: Option<KubernetesRole>, karpenter_role: Option<KubernetesRole>) -> (roles:
    KeyedSet<KubernetesRole>)
    ensures
        roles@ == first_wins::<KubernetesRole>(fixed_roles(sso_role, karpenter_role)),
{
    let mut roles: KeyedSet<KubernetesRole> = KeyedSet::new();
    let ghost mut listed_roles: Seq<RoleView> = Seq::empty();
    match sso_role {
        Some(role) => {
            let ghost before = listed_roles;
            proof {
                assert(first_wins::<KubernetesRole>(before) =~= roles@);
                listed_roles = before.push(role@);
                assert(listed_roles.drop_last() =~= before);
                assert(listed_roles.last() == role@);
            }
            roles.insert(role);
            assert(roles@ == first_wins::<KubernetesRole>(listed_roles));
        },
        None => {},
    }
    assert(roles@ == first_wins::<KubernetesRole>(listed_roles));
    match karpenter_role {
        Some(role) => {
            let ghost before = listed_roles;
            proof {
                listed_roles = before.push(role@);
                assert(listed_roles.drop_last() =~= before);
                assert(listed_roles.last() == role@);
            }
            roles.insert(role);
            assert(roles@ == first_wins::<KubernetesRole>(listed_roles));
        },
        None => {},
    }
    assert(listed_roles =~= fixed_roles(sso_role, karpenter_role));
    roles
}

/// The users that a cycle brings, where it brings any.
pub open spec fn users_brought(users_to_add: Option<KeyedSet<KubernetesUser>>) -> Map<
    PrincipalKey,
    UserView,
> {
    match users_to_add {
        Some(users) => users@,
        None => Map::empty(),
    }
}

/// The document to write at the end of a cycle, from the records that it
/// held at the start and from the users and roles that the cycle brings. Both
/// lists come out reconciled, with one record for each identity.
pub fn update_document(
    existing_users: Option<Vec<MapUserConfig>>,
    existing_roles: Option<Vec<MapRoleConfig>>,
    users_to_add: Option<KeyedSet<KubernetesUser>>,
    sso_role: Option<KubernetesRole>,
    karpenter_role: Option<KubernetesRole>,
) -> (document: AuthDocument)
    ensures
        distinct::<KubernetesUser>(views(document.users@)),
        map_of::<KubernetesUser>(views(document.users@)) == reconciled::<KubernetesUser>(
            first_wins::<KubernetesUser>(listed(existing_users)),
            users_brought(users_to_add),
        ),
        distinct::<KubernetesRole>(views(document.roles@)),
        map_of::<KubernetesRole>(views(document.roles@)) == reconciled::<KubernetesRole>(
            first_wins::<KubernetesRole>(listed(existing_roles)),
            first_wins::<KubernetesRole>(fixed_roles(sso_role, karpenter_role)),
        ),
        forall|i: int|
            0 <= i < document.users.len() ==> texts(
                #[trigger] document.users[i].groups@,
            ).no_duplicates(),
        forall|i: int|
            0 <= i < document.roles.len() ==> texts(
                #[trigger] document.roles[i].groups@,
            ).no_duplicates(),
{
    let users = users_of_document(existing_users);
    let roles = roles_of_document(existing_roles);
    let new_users = match users_to_add {
        Some(users) => users,
        None => KeyedSet::new(),
    };
    let new_roles = roles_to_add(sso_role, karpenter_role);
    let auth = reconcile(users, roles, new_users, new_roles);
    AuthDocument { users: user_records(auth.users), roles: role_records(auth.roles) }
}

} // verus!
