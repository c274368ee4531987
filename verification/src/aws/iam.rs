//! Users of the identity source, gathered group by group.
//!
//! Listing a group's members is the caller's business. What is done with each
//! answer is decided here: a failed listing ends the pass, and a user that
//! several groups list becomes one record that names all of them.

use crate::identity::{principal_key, same_principal, PrincipalKey};
use crate::keyed::{lemma_map_of, map_of, Keyed, KeyedSet};
use vstd::prelude::*;

verus! {

/// Why gathering the users failed.
#[derive(Debug)]
pub enum IamError {
    /// The members of a group could not be listed.
    CannotGetUserFromIamGroup { group: IamGroup, raw_message: String },
    /// No group has any member, and the caller asked for that to be an error.
    NoUsersFoundInIamGroups,
}

impl IamError {
    /// The message of the error.
    pub open spec fn message(&self) -> Seq<char> {
        match self {
            IamError::CannotGetUserFromIamGroup { group, raw_message } =>
                "Cannot get users from IAM group `"@ + group@ + "`, error: "@ + raw_message@,
            IamError::NoUsersFoundInIamGroups => "No users found in IAM groups"@,
        }
    }

    /// Writes the error out as its message.
    pub fn to_string(&self) -> (s: String)
        ensures
            s@ == self.message(),
    {
        match self {
            IamError::CannotGetUserFromIamGroup { group, raw_message } => String::from_str(
                "Cannot get users from IAM group `",
            ).concat(group.as_str()).concat("`, error: ").concat(raw_message.as_str()),
            IamError::NoUsersFoundInIamGroups => String::from_str("No users found in IAM groups"),
        }
    }
}

/// The ARN of a user of the identity source.
#[derive(Debug, PartialEq, Eq)]
pub struct Arn(String);

impl View for Arn {
    type V = Seq<char>;

    closed spec fn view(&self) -> Seq<char> {
        self.0@
    }
}

impl Clone for Arn {
    fn clone(&self) -> (r: Self)
        ensures
            r@ == self@,
    {
        Arn(self.0.clone())
    }
}

impl Arn {
    pub fn new(arn: &str) -> (r: Arn)
        ensures
            r@ == arn@,
    {
        Arn(arn.to_owned())
    }

    pub fn as_str(&self) -> (r: &str)
        ensures
            r@ == self@,
    {
        self.0.as_str()
    }

    pub fn to_string(&self) -> (r: String)
        ensures
            r@ == self@,
    {
        self.0.clone()
    }
}

/// The name of a group of the identity source.
#[derive(Debug, PartialEq, Eq, Hash)]
pub struct IamGroup(String);

impl View for IamGroup {
    type V = Seq<char>;

    closed spec fn view(&self) -> Seq<char> {
        self.0@
    }
}

impl Clone for IamGroup {
    fn clone(&self) -> (r: Self)
        ensures
            r@ == self@,
    {
        IamGroup(self.0.clone())
    }
}

impl IamGroup {
    pub fn new(iam_group_name: &str) -> (r: IamGroup)
        ensures
            r@ == iam_group_name@,
    {
        IamGroup(iam_group_name.to_owned())
    }

    pub fn as_str(&self) -> (r: &str)
        ensures
            r@ == self@,
    {
        self.0.as_str()
    }

    pub fn to_string(&self) -> (r: String)
        ensures
            r@ == self@,
    {
        self.0.clone()
    }

    /// Tells whether two groups have the same name.
    pub fn same_name(&self, other: &IamGroup) -> (b: bool)
        ensures
            b == (self@ == other@),
    {
        self.0 == other.0
    }
}

/// A group name is its own key: two names are the same when they are spelled alike.
impl Keyed for IamGroup {
    type Key = Seq<char>;

    open spec fn key_of(v: Seq<char>) -> Seq<char> {
        v
    }

    fn same_key(&self, other: &Self) -> (b: bool) {
        self.0 == other.0
    }

    fn duplicate(&self) -> (r: Self) {
        self.clone()
    }
}

/// The names that a set of groups holds are the keys of its map.
pub proof fn lemma_iam_group_names(s: Seq<Seq<char>>)
    ensures
        map_of::<IamGroup>(s).dom() == s.to_set(),
{
    lemma_map_of::<IamGroup>(s);
    assert forall|k: Seq<char>| map_of::<IamGroup>(s).contains_key(k) implies s.contains(k) by {
        let i = choose|i: int| 0 <= i < s.len() && IamGroup::key_of(#[trigger] s[i]) == k;
        assert(s[i] == k);
    }
    assert forall|k: Seq<char>| s.contains(k) implies map_of::<IamGroup>(s).contains_key(k) by {
        let i = choose|i: int| 0 <= i < s.len() && s[i] == k;
        assert(IamGroup::key_of(s[i]) == k);
    }
    assert(map_of::<IamGroup>(s).dom() =~= s.to_set());
}

/// The display name of a user of the identity source.
#[derive(Debug, PartialEq, Eq)]
pub struct User(String);

impl View for User {
    type V = Seq<char>;

    closed spec fn view(&self) -> Seq<char> {
        self.0@
    }
}

impl Clone for User {
    fn clone(&self) -> (r: Self)
        ensures
            r@ == self@,
    {
        User(self.0.clone())
    }
}

impl User {
    pub fn new(user: &str) -> (r: User)
        ensures
            r@ == user@,
    {
        User(user.to_owned())
    }

    pub fn as_str(&self) -> (r: &str)
        ensures
            r@ == self@,
    {
        self.0.as_str()
    }

    pub fn to_string(&self) -> (r: String)
        ensures
            r@ == self@,
    {
        self.0.clone()
    }
}

/// What a gathered user says: who it is and which groups list it.
pub struct AwsUserView {
    pub arn: Seq<char>,
    pub name: Seq<char>,
    pub groups: Set<Seq<char>>,
}

/// A user of the identity source with the groups that list it.
#[derive(Debug)]
pub struct AwsUser {
    pub arn: Arn,
    pub user_name: User,
    pub groups: KeyedSet<IamGroup>,
}

impl View for AwsUser {
    type V = AwsUserView;

    open spec fn view(&self) -> AwsUserView {
        AwsUserView { arn: self.arn@, name: self.user_name@, groups: self.groups@.dom() }
    }
}

impl Clone for AwsUser {
    fn clone(&self) -> (r: Self)
        ensures
            r@ == self@,
            r.groups.entries() == self.groups.entries(),
    {
        AwsUser {
            arn: self.arn.clone(),
            user_name: self.user_name.clone(),
            groups: self.groups.duplicate(),
        }
    }
}

/// Two gathered users are the same when ARN and display name match, case
/// ignored. The groups play no part in it.
impl Keyed for AwsUser {
    type Key = PrincipalKey;

    open spec fn key_of(v: AwsUserView) -> PrincipalKey {
        principal_key(v.arn, v.name)
    }

    fn same_key(&self, other: &Self) -> (b: bool) {
        same_principal(
            self.arn.as_str(),
            self.user_name.as_str(),
            other.arn.as_str(),
            other.user_name.as_str(),
        )
    }

    fn duplicate(&self) -> (r: Self) {
        self.clone()
    }
}

/// `==` on gathered users is the sameness of their identity.
impl PartialEq for AwsUser {
    fn eq(&self, other: &Self) -> (r: bool) {
        self.same_key(other)
    }
}

impl Eq for AwsUser {

}

impl vstd::std_specs::cmp::PartialEqSpecImpl for AwsUser {
    open spec fn obeys_eq_spec() -> bool {
        true
    }

    open spec fn eq_spec(&self, other: &Self) -> bool {
        Self::key_of(self@) == Self::key_of(other@)
    }
}

/// A member of a group, as the identity source lists it.
#[derive(Debug)]
pub struct IamMember {
    pub arn: String,
    pub user_name: String,
}

/// What a listed member says: ARN and display name.
pub struct MemberView {
    pub arn: Seq<char>,
    pub name: Seq<char>,
}

impl View for IamMember {
    type V = MemberView;

    open spec fn view(&self) -> MemberView {
        MemberView { arn: self.arn@, name: self.user_name@ }
    }
}

/// The views of a list of members.
pub open spec fn member_views(members: Seq<IamMember>) -> Seq<MemberView> {
    members.map_values(|m: IamMember| m@)
}

/// The gathered users once `group` has listed one more member. A user that
/// is known already gains the group and stays as it was otherwise; a new one
/// is recorded with this group alone.
pub open spec fn absorb_member(
    users: Map<PrincipalKey, AwsUserView>,
    group: Seq<char>,
    member: MemberView,
) -> Map<PrincipalKey, AwsUserView> {
    let k = principal_key(member.arn, member.name);
    if users.contains_key(k) {
        users.insert(k, AwsUserView { groups: users[k].groups.insert(group), ..users[k] })
    } else {
        users.insert(
            k,
            AwsUserView { arn: member.arn, name: member.name, groups: Set::empty().insert(group) },
        )
    }
}

/// The gathered users once `group` has listed all of `members`.
pub open spec fn absorb_members(
    users: Map<PrincipalKey, AwsUserView>,
    group: Seq<char>,
    members: Seq<MemberView>,
) -> Map<PrincipalKey, AwsUserView>
    decreases members.len(),
{
    if members.len() == 0 {
        users
    } else {
        absorb_member(absorb_members(users, group, members.drop_last()), group, members.last())
    }
}

/// A user that two groups list, each asked on its own, is one record that
/// names both groups, beside the groups it was known under before.
pub proof fn lemma_member_of_two_groups(
    users: Map<PrincipalKey, AwsUserView>,
    first: Seq<char>,
    second: Seq<char>,
    member: MemberView,
)
    ensures
        ({
            let k = principal_key(member.arn, member.name);
            let both = absorb_member(absorb_member(users, first, member), second, member);
            let before = if users.contains_key(k) {
                users[k].groups
            } else {
                Set::empty()
            };
            &&& both.dom() == users.dom().insert(k)
            &&& both[k].groups == before.insert(first).insert(second)
            &&& forall|other: PrincipalKey|
                other != k && users.contains_key(other) ==> both[other] == users[other]
        }),
{
    let k = principal_key(member.arn, member.name);
    let once = absorb_member(users, first, member);
    let both = absorb_member(once, second, member);
    assert(once.contains_key(k));
    assert(both.dom() =~= users.dom().insert(k));
}

/// Records one listed member of `group`.
pub fn record_member(users: &mut KeyedSet<AwsUser>, group: &IamGroup, member: &IamMember)
    ensures
        final(users)@ == absorb_member(old(users)@, group@, member@),
{
    let mut groups: KeyedSet<IamGroup> = KeyedSet::new();
    groups.insert_new(group.clone());
    let probe = AwsUser {
        arn: Arn::new(member.arn.as_str()),
        user_name: User::new(member.user_name.as_str()),
        groups,
    };
    assert(probe@.groups =~= Set::<Seq<char>>::empty().insert(group@));
    let known = match users.get(&probe) {
        Some(existing) => {
            let mut merged = existing.clone();
            merged.groups.insert(group.clone());
            Some(merged)
        },
        None => None,
    };
    match known {
        Some(merged) => {
            proof {
                let k = principal_key(member@.arn, member@.name);
                lemma_map_of::<AwsUser>(users.entries());
                assert(AwsUser::key_of(users@[k]) == k);
                assert(merged@.groups =~= users@[k].groups.insert(group@));
            }
            users.replace(merged);
        },
        None => {
            users.insert_new(probe);
        },
    }
}

/// Records all listed members of `group`.
pub fn record_members(users: &mut KeyedSet<AwsUser>, group: &IamGroup, members: &Vec<IamMember>)
    ensures
        final(users)@ == absorb_members(old(users)@, group@, member_views(members@)),
{
    let ghost all = member_views(members@);
    let mut i: usize = 0;
    assert(all.take(0) =~= Seq::<MemberView>::empty());
    while i < members.len()
        invariant
            i <= members.len(),
            all == member_views(members@),
            users@ == absorb_members(old(users)@, group@, all.take(i as int)),
        decreases members.len() - i,
    {
        proof {
            assert(all.take(i + 1).drop_last() =~= all.take(i as int));
            assert(all.take(i + 1).last() == members[i as int]@);
        }
        record_member(users, group, &members[i]);
        i += 1;
    }
    assert(all.take(members.len() as int) =~= all);
}

/// What a gathering pass ends with: the users, or an error where there is
/// none at all and that was to be an error.
pub open spec fn ends_with(
    users: Map<PrincipalKey, AwsUserView>,
    empty_is_error: bool,
    result: Result<KeyedSet<AwsUser>, IamError>,
) -> bool {
    if empty_is_error && users == Map::<PrincipalKey, AwsUserView>::empty() {
        result matches Err(e) && e is NoUsersFoundInIamGroups
    } else {
        result matches Ok(set) && set@ == users
    }
}

/// A gathering pass that waits for the members of one group.
#[derive(Debug)]
pub struct IdentityAggregator {
    groups: Vec<IamGroup>,
    next: usize,
    users: KeyedSet<AwsUser>,
    empty_is_error: bool,
}

/// What a gathering pass asks of its caller next.
#[derive(Debug)]
pub enum AggregationStep {
    /// List the members of `state.awaited()` and hand them to `state.resume`.
    Fetch(IdentityAggregator),
    /// The pass is over.
    Done(Result<KeyedSet<AwsUser>, IamError>),
}

impl IdentityAggregator {
    #[verifier::type_invariant]
    spec fn waits_for_a_group(self) -> bool {
        self.next < self.groups.len()
    }

    /// The group whose members the pass waits for.
    pub closed spec fn awaited_group(&self) -> Seq<char> {
        self.groups@[self.next as int]@
    }

    /// The groups to ask after the awaited one, in order.
    pub closed spec fn pending(&self) -> Seq<Seq<char>> {
        crate::keyed::views(self.groups@).skip(self.next + 1)
    }

    /// The users gathered so far.
    pub closed spec fn collected(&self) -> Map<PrincipalKey, AwsUserView> {
        self.users@
    }

    /// Whether ending without any user is an error.
    pub closed spec fn fails_when_empty(&self) -> bool {
        self.empty_is_error
    }

    fn finish(users: KeyedSet<AwsUser>, empty_is_error: bool) -> (r: Result<
        KeyedSet<AwsUser>,
        IamError,
    >)
        ensures
            ends_with(users@, empty_is_error, r),
    {
        if empty_is_error && users.is_empty() {
            Err(IamError::NoUsersFoundInIamGroups)
        } else {
            Ok(users)
        }
    }

    /// Starts a pass over `groups`, in the order of their entries.
    pub fn start(groups: KeyedSet<IamGroup>, empty_is_error: bool) -> (step: AggregationStep)
        ensures
            match step {
                AggregationStep::Fetch(state) => {
                    &&& groups.entries().len() > 0
                    &&& state.awaited_group() == groups.entries()[0]
                    &&& state.pending() == groups.entries().skip(1)
                    &&& state.collected() == Map::<PrincipalKey, AwsUserView>::empty()
                    &&& state.fails_when_empty() == empty_is_error
                },
                AggregationStep::Done(result) => {
                    &&& groups.entries().len() == 0
                    &&& ends_with(Map::empty(), empty_is_error, result)
                },
            },
    {
        let list = groups.into_vec();
        let users: KeyedSet<AwsUser> = KeyedSet::new();
        if list.len() == 0 {
            AggregationStep::Done(Self::finish(users, empty_is_error))
        } else {
            let state = IdentityAggregator { groups: list, next: 0, users, empty_is_error };
            AggregationStep::Fetch(state)
        }
    }

    /// The group whose members are to be listed now.
    pub fn awaited(&self) -> (group: &IamGroup)
        ensures
            group@ == self.awaited_group(),
    {
        proof {
            use_type_invariant(self);
        }
        &self.groups[self.next]
    }

    /// Takes the answer for the awaited group. A failed listing ends the pass
    /// with its cause and the group's name. Members are recorded, and the pass
    /// goes on to the next group or, after the last, ends.
    pub fn resume(self, outcome: Result<Vec<IamMember>, String>) -> (step: AggregationStep)
        ensures
            match outcome {
                Err(cause) => step matches AggregationStep::Done(Err(e)) && e
                    matches IamError::CannotGetUserFromIamGroup { group, raw_message }
                    && group@ == self.awaited_group() && raw_message@ == cause@,
                Ok(members) => {
                    let users = absorb_members(
                        self.collected(),
                        self.awaited_group(),
                        member_views(members@),
                    );
                    if self.pending().len() > 0 {
                        &&& step matches AggregationStep::Fetch(state)
                        &&& state.collected() == users
                        &&& state.awaited_group() == self.pending()[0]
                        &&& state.pending() == self.pending().skip(1)
                        &&& state.fails_when_empty() == self.fails_when_empty()
                    } else {
                        step matches AggregationStep::Done(result) && ends_with(
                            users,
                            self.fails_when_empty(),
                            result,
                        )
                    }
                },
            },
    {
        proof {
            use_type_invariant(&self);
        }
        let ghost before = self;
        let IdentityAggregator { groups, next, users, empty_is_error } = self;
        match outcome {
            Err(cause) => AggregationStep::Done(
                Err(
                    IamError::CannotGetUserFromIamGroup {
                        group: groups[next].clone(),
                        raw_message: cause,
                    },
                ),
            ),
            Ok(members) => {
                let mut users = users;
                record_members(&mut users, &groups[next], &members);
                if next + 1 < groups.len() {
                    let state = IdentityAggregator { groups, next: next + 1, users, empty_is_error };
                    proof {
                        let names = crate::keyed::views(groups@);
                        assert(before.pending()[0] == names[next + 1]);
                        assert(state.pending() =~= before.pending().skip(1));
                    }
                    AggregationStep::Fetch(state)
                } else {
                    AggregationStep::Done(Self::finish(users, empty_is_error))
                }
            },
        }
    }
}

} // verus!
