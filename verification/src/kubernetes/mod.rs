//! The cluster's side of the mapping: users, roles and the groups they are
//! bound to, as the authentication document records them.

use crate::identity::{principal_key, same_principal, PrincipalKey};
use crate::keyed::{lemma_map_of, map_of, Keyed, KeyedSet};
use crate::text::{eq_ignoring_case, lowercase, texts};
use vstd::prelude::*;

pub mod aws_auth;
pub mod document;

verus! {

/// Why reading or writing the authentication document failed.
#[derive(Debug, PartialEq, Eq)]
pub enum KubernetesError {
    ClusterUnreachable { raw_message: String },
    CannotSerializeUsersMap { raw_message: String },
    CannotDeserializeUsersMap { raw_message: String, underlying_error: String },
    CannotSerializeRolesMap { raw_message: String },
    CannotDeserializeRolesMap { raw_message: String, underlying_error: String },
    ConfigMapNotFound { config_map_name: String, config_map_namespace: String, raw_message: String },
    ConfigMapCannotBePatched {
        config_map_name: String,
        config_map_namespace: String,
        raw_message: String,
    },
}

impl KubernetesError {
    /// The message of the error.
    pub open spec fn message(&self) -> Seq<char> {
        match self {
            KubernetesError::ClusterUnreachable { raw_message } => "Cluster not reachable: "@
                + raw_message@,
            KubernetesError::CannotSerializeUsersMap { raw_message } =>
                "Error while trying to serialize users map to YAML: "@ + raw_message@,
            KubernetesError::CannotDeserializeUsersMap { raw_message, underlying_error } =>
                "Error while trying to deserialize users map from YAML: "@ + raw_message@,
            KubernetesError::CannotSerializeRolesMap { raw_message } =>
                "Error while trying to serialize roles map to YAML: "@ + raw_message@,
            KubernetesError::CannotDeserializeRolesMap { raw_message, underlying_error } =>
                "Error while trying to deserialize roles map from YAML: "@ + raw_message@,
            KubernetesError::ConfigMapNotFound {
                config_map_name,
                config_map_namespace,
                raw_message,
            } => "Cannot find config map `"@ + config_map_name@ + "` in namespace `"@
                + config_map_namespace@ + "`: "@ + raw_message@,
            KubernetesError::ConfigMapCannotBePatched {
                config_map_name,
                config_map_namespace,
                raw_message,
            } => "Cannot patch config map `"@ + config_map_name@ + "` in namespace `"@
                + config_map_namespace@ + "`: "@ + raw_message@,
        }
    }

    /// Writes the error out as its message.
    pub fn to_string(&self) -> (s: String)
        ensures
            s@ == self.message(),
    {
        match self {
            KubernetesError::ClusterUnreachable { raw_message } => String::from_str(
                "Cluster not reachable: ",
            ).concat(raw_message.as_str()),
            KubernetesError::CannotSerializeUsersMap { raw_message } => String::from_str(
                "Error while trying to serialize users map to YAML: ",
            ).concat(raw_message.as_str()),
            KubernetesError::CannotDeserializeUsersMap { raw_message, underlying_error } =>
                String::from_str("Error while trying to deserialize users map from YAML: ").concat(
                    raw_message.as_str(),
                ),
            KubernetesError::CannotSerializeRolesMap { raw_message } => String::from_str(
                "Error while trying to serialize roles map to YAML: ",
            ).concat(raw_message.as_str()),
            KubernetesError::CannotDeserializeRolesMap { raw_message, underlying_error } =>
                String::from_str("Error while trying to deserialize roles map from YAML: ").concat(
                    raw_message.as_str(),
                ),
            KubernetesError::ConfigMapNotFound {
                config_map_name,
                config_map_namespace,
                raw_message,
            } => String::from_str("Cannot find config map `").concat(
                config_map_name.as_str(),
            ).concat("` in namespace `").concat(config_map_namespace.as_str()).concat("`: ").concat(
                raw_message.as_str(),
            ),
            KubernetesError::ConfigMapCannotBePatched {
                config_map_name,
                config_map_namespace,
                raw_message,
            } => String::from_str("Cannot patch config map `").concat(
                config_map_name.as_str(),
            ).concat("` in namespace `").concat(config_map_namespace.as_str()).concat("`: ").concat(
                raw_message.as_str(),
            ),
        }
    }
}

/// Who wrote a record of the document, as far as the record tells.
#[derive(Clone, Copy, Debug, PartialEq, Eq, Structural)]
pub enum SyncedBy {
    /// This tool: it may replace or drop the record at each cycle.
    IamEksUserMapper,
    /// Anyone else.
    Unknown,
}

impl SyncedBy {
    /// The label that the document carries for the tag.
    pub open spec fn label_of(self) -> Seq<char> {
        match self {
            SyncedBy::IamEksUserMapper => "iam-eks-user-mapper"@,
            SyncedBy::Unknown => "unknown"@,
        }
    }

    /// The tag that a label of the document stands for: this tool where the
    /// label is the tool's own, and `Unknown` for every other label.
    pub open spec fn of_label(label: Seq<char>) -> SyncedBy {
        if label == "iam-eks-user-mapper"@ {
            SyncedBy::IamEksUserMapper
        } else {
            SyncedBy::Unknown
        }
    }

    /// A tag's label is read back as the tag.
    pub proof fn lemma_label_read_back(self)
        ensures
            SyncedBy::of_label(self.label_of()) == self,
    {
        reveal_strlit("iam-eks-user-mapper");
        reveal_strlit("unknown");
        assert("iam-eks-user-mapper"@.len() != "unknown"@.len());
    }

    /// The label to write into the document.
    pub fn label(self) -> (r: &'static str)
        ensures
            r@ == self.label_of(),
    {
        match self {
            SyncedBy::IamEksUserMapper => "iam-eks-user-mapper",
            SyncedBy::Unknown => "unknown",
        }
    }

    /// Reads a label of the document. No label is refused.
    pub fn from_label(label: &str) -> (r: SyncedBy)
        ensures
            r == SyncedBy::of_label(label@),
    {
        if label.to_owned() == "iam-eks-user-mapper".to_owned() {
            SyncedBy::IamEksUserMapper
        } else {
            SyncedBy::Unknown
        }
    }
}

/// Whether a record's tag says that this tool wrote it. No tag means that it did not.
pub open spec fn tagged_by_tool(tag: Option<SyncedBy>) -> bool {
    tag == Some(SyncedBy::IamEksUserMapper)
}

/// A record that carries an ownership tag.
pub trait Managed: Keyed {
    /// The record is this tool's own.
    spec fn tool_owned(v: Self::V) -> bool;

    /// The same record, tagged as this tool's own.
    spec fn claimed(v: Self::V) -> Self::V;

    /// Tagging a record leaves its identity alone and makes it this tool's own.
    proof fn lemma_claimed(v: Self::V)
        ensures
            Self::key_of(Self::claimed(v)) == Self::key_of(v),
            Self::tool_owned(Self::claimed(v)),
    ;

    /// Tells whether the record is this tool's own.
    fn is_tool_owned(&self) -> (b: bool)
        ensures
            b == Self::tool_owned(self@),
    ;

    /// Tags the record as this tool's own.
    fn claim(self) -> (r: Self)
        ensures
            r@ == Self::claimed(self@),
    ;
}

/// The display name of a user of the identity source.
#[derive(Debug, PartialEq, Eq)]
pub struct IamUserName(String);

impl View for IamUserName {
    type V = Seq<char>;

    closed spec fn view(&self) -> Seq<char> {
        self.0@
    }
}

impl Clone for IamUserName {
    fn clone(&self) -> (r: Self)
        ensures
            r@ == self@,
    {
        IamUserName(self.0.clone())
    }
}

impl IamUserName {
    pub fn new(iam_user_name: &str) -> (r: IamUserName)
        ensures
            r@ == iam_user_name@,
    {
        IamUserName(iam_user_name.to_owned())
    }

    pub fn as_str(&self) -> (r: &str)
        ensures
            r@ == self@,
    {
        self.0.as_str()
    }

    pub fn to_string(&self) -> (r: String)
        ensures
            r@ == self@,
    {
        self.0.clone()
    }
}

/// The name of a role of the identity source.
#[derive(Debug, PartialEq, Eq)]
pub struct IamRoleName(String);

impl View for IamRoleName {
    type V = Seq<char>;

    closed spec fn view(&self) -> Seq<char> {
        self.0@
    }
}

impl IamRoleName {
    pub fn new(iam_role_name: &str) -> (r: IamRoleName)
        ensures
            r@ == iam_role_name@,
    {
        IamRoleName(iam_role_name.to_owned())
    }

    pub fn to_string(&self) -> (r: String)
        ensures
            r@ == self@,
    {
        self.0.clone()
    }
}

/// The ARN of a user or of a role.
#[derive(Debug, PartialEq, Eq)]
pub struct IamArn(String);

impl View for IamArn {
    type V = Seq<char>;

    closed spec fn view(&self) -> Seq<char> {
        self.0@
    }
}

impl Clone for IamArn {
    fn clone(&self) -> (r: Self)
        ensures
            r@ == self@,
    {
        IamArn(self.0.clone())
    }
}

impl IamArn {
    pub fn new(iam_arn: &str) -> (r: IamArn)
        ensures
            r@ == iam_arn@,
    {
        IamArn(iam_arn.to_owned())
    }

    pub fn as_str(&self) -> (r: &str)
        ensures
            r@ == self@,
    {
        self.0.as_str()
    }

    pub fn to_string(&self) -> (r: String)
        ensures
            r@ == self@,
    {
        self.0.clone()
    }
}

/// An ARN is its own key: two ARNs are the same when they are spelled alike.
impl Keyed for IamArn {
    type Key = Seq<char>;

    open spec fn key_of(v: Seq<char>) -> Seq<char> {
        v
    }

    fn same_key(&self, other: &Self) -> (b: bool) {
        self.0 == other.0
    }

    fn duplicate(&self) -> (r: Self) {
        self.clone()
    }
}

/// The name of a group of the cluster.
#[derive(Debug, PartialEq, Eq, Hash)]
pub struct KubernetesGroupName(String);

impl View for KubernetesGroupName {
    type V = Seq<char>;

    closed spec fn view(&self) -> Seq<char> {
        self.0@
    }
}

impl Clone for KubernetesGroupName {
    fn clone(&self) -> (r: Self)
        ensures
            r@ == self@,
    {
        KubernetesGroupName(self.0.clone())
    }
}

impl KubernetesGroupName {
    pub fn new(kubernetes_role: &str) -> (r: KubernetesGroupName)
        ensures
            r@ == kubernetes_role@,
    {
        KubernetesGroupName(kubernetes_role.to_owned())
    }

    pub fn as_str(&self) -> (r: &str)
        ensures
            r@ == self@,
    {
        self.0.as_str()
    }

    pub fn to_string(&self) -> (r: String)
        ensures
            r@ == self@,
    {
        self.0.clone()
    }
}

/// A group name is its own key: two names are the same when they are spelled alike.
impl Keyed for KubernetesGroupName {
    type Key = Seq<char>;

    open spec fn key_of(v: Seq<char>) -> Seq<char> {
        v
    }

    fn same_key(&self, other: &Self) -> (b: bool) {
        self.0 == other.0
    }

    fn duplicate(&self) -> (r: Self) {
        self.clone()
    }
}

/// The names that a set of group names holds are the keys of its map.
pub proof fn lemma_group_names(s: Seq<Seq<char>>)
    ensures
        map_of::<KubernetesGroupName>(s).dom() == s.to_set(),
{
    lemma_map_of::<KubernetesGroupName>(s);
    assert forall|k: Seq<char>| map_of::<KubernetesGroupName>(s).contains_key(k) implies s.contains(
        k,
    ) by {
        let i = choose|i: int|
            0 <= i < s.len() && KubernetesGroupName::key_of(#[trigger] s[i]) == k;
        assert(s[i] == k);
    }
    assert forall|k: Seq<char>| s.contains(k) implies map_of::<KubernetesGroupName>(
        s,
    ).contains_key(k) by {
        let i = choose|i: int| 0 <= i < s.len() && s[i] == k;
        assert(KubernetesGroupName::key_of(s[i]) == k);
    }
    assert(map_of::<KubernetesGroupName>(s).dom() =~= s.to_set());
}

/// The names of a set of groups, one string each, in the order of its entries.
pub fn group_names(groups: &KeyedSet<KubernetesGroupName>) -> (names: Vec<String>)
    ensures
        texts(names@) == groups.entries(),
        texts(names@).to_set() == groups@.dom(),
        texts(names@).no_duplicates(),
{
    let items = groups.items();
    let mut names: Vec<String> = Vec::new();
    let mut i: usize = 0;
    while i < items.len()
        invariant
            i <= items.len(),
            texts(names@) == crate::keyed::views(items@).take(i as int),
        decreases items.len() - i,
    {
        let name = items[i].to_string();
        proof {
            let all = crate::keyed::views(items@);
            assert(texts(names@.push(name)) =~= all.take(i as int).push(name@));
            assert(all.take(i + 1) =~= all.take(i as int).push(all[i as int]));
        }
        names.push(name);
        i += 1;
    }
    proof {
        let all = crate::keyed::views(items@);
        assert(all.take(items.len() as int) =~= all);
        lemma_group_names(all);
        assert forall|a: int, b: int| 0 <= a < all.len() && 0 <= b < all.len() && a != b implies all[a]
            != all[b] by {
            if a < b {
                assert(KubernetesGroupName::key_of(all[a]) != KubernetesGroupName::key_of(all[b]));
            } else {
                assert(KubernetesGroupName::key_of(all[b]) != KubernetesGroupName::key_of(all[a]));
            }
        }
    }
    names
}

/// The set of the groups that a list of names gives.
pub fn groups_of_names(names: &Vec<String>) -> (groups: KeyedSet<KubernetesGroupName>)
    ensures
        groups@.dom() == texts(names@).to_set(),
{
    let mut groups: KeyedSet<KubernetesGroupName> = KeyedSet::new();
    let mut i: usize = 0;
    assert(texts(names@).take(0).to_set() =~= Set::<Seq<char>>::empty());
    while i < names.len()
        invariant
            i <= names.len(),
            groups@.dom() == texts(names@).take(i as int).to_set(),
        decreases names.len() - i,
    {
        let group = KubernetesGroupName::new(names[i].as_str());
        proof {
            let all = texts(names@);
            assert(all.take(i + 1) =~= all.take(i as int).push(group@));
            crate::text::lemma_to_set_push(all.take(i as int), group@);
        }
        let ghost before = groups@;
        groups.insert(group);
        assert(groups@.dom() =~= before.dom().insert(group@));
        i += 1;
    }
    assert(texts(names@).take(names.len() as int) =~= texts(names@));
    groups
}

/// What a user record says.
pub struct UserView {
    pub name: Seq<char>,
    pub arn: Seq<char>,
    pub groups: Set<Seq<char>>,
    pub synced_by: Option<SyncedBy>,
}

/// A user of the cluster: a principal and the groups it is bound to.
#[derive(Debug)]
pub struct KubernetesUser {
    pub iam_user_name: IamUserName,
    pub iam_arn: IamArn,
    pub roles: KeyedSet<KubernetesGroupName>,
    pub synced_by: Option<SyncedBy>,
}

impl View for KubernetesUser {
    type V = UserView;

    open spec fn view(&self) -> UserView {
        UserView {
            name: self.iam_user_name@,
            arn: self.iam_arn@,
            groups: self.roles@.dom(),
            synced_by: self.synced_by,
        }
    }
}

impl KubernetesUser {
    pub fn new(
        iam_user_name: IamUserName,
        iam_arn: IamArn,
        roles: KeyedSet<KubernetesGroupName>,
        synced_by: Option<SyncedBy>,
    ) -> (r: KubernetesUser)
        ensures
            r.iam_user_name == iam_user_name,
            r.iam_arn == iam_arn,
            r.roles == roles,
            r.synced_by == synced_by,
    {
        KubernetesUser { iam_user_name, iam_arn, roles, synced_by }
    }

    /// The same user, tagged as written by `synced_by`.
    pub fn new_synced_from(u: KubernetesUser, synced_by: SyncedBy) -> (r: KubernetesUser)
        ensures
            r.iam_user_name == u.iam_user_name,
            r.iam_arn == u.iam_arn,
            r.roles == u.roles,
            r.synced_by == Some(synced_by),
    {
        let mut synced_u = u;
        synced_u.synced_by = Some(synced_by);
        synced_u
    }

    /// The user that a record of the document describes.
    pub fn from_document(value: MapUserConfig) -> (r: KubernetesUser)
        ensures
            r@ == value@,
    {
        let roles = groups_of_names(&value.groups);
        KubernetesUser {
            iam_user_name: IamUserName(value.username),
            iam_arn: IamArn(value.user_arn),
            roles,
            synced_by: value.synced_by,
        }
    }
}

impl Clone for KubernetesUser {
    fn clone(&self) -> (r: Self)
        ensures
            r@ == self@,
    {
        KubernetesUser {
            iam_user_name: self.iam_user_name.clone(),
            iam_arn: self.iam_arn.clone(),
            roles: self.roles.duplicate(),
            synced_by: self.synced_by,
        }
    }
}

/// Two users are the same when ARN and display name match, case ignored.
/// Groups and tag play no part in it.
impl Keyed for KubernetesUser {
    type Key = PrincipalKey;

    open spec fn key_of(v: UserView) -> PrincipalKey {
        principal_key(v.arn, v.name)
    }

    fn same_key(&self, other: &Self) -> (b: bool) {
        same_principal(
            self.iam_arn.as_str(),
            self.iam_user_name.as_str(),
            other.iam_arn.as_str(),
            other.iam_user_name.as_str(),
        )
    }

    fn duplicate(&self) -> (r: Self) {
        self.clone()
    }
}

/// `==` on users is the sameness of their identity.
impl PartialEq for KubernetesUser {
    fn eq(&self, other: &Self) -> (r: bool) {
        self.same_key(other)
    }
}

impl Eq for KubernetesUser {

}

impl vstd::std_specs::cmp::PartialEqSpecImpl for KubernetesUser {
    open spec fn obeys_eq_spec() -> bool {
        true
    }

    open spec fn eq_spec(&self, other: &Self) -> bool {
        Self::key_of(self@) == Self::key_of(other@)
    }
}

impl Managed for KubernetesUser {
    open spec fn tool_owned(v: UserView) -> bool {
        tagged_by_tool(v.synced_by)
    }

    open spec fn claimed(v: UserView) -> UserView {
        UserView { synced_by: Some(SyncedBy::IamEksUserMapper), ..v }
    }

    proof fn lemma_claimed(v: UserView) {
    }

    fn is_tool_owned(&self) -> (b: bool) {
        match self.synced_by {
            Some(SyncedBy::IamEksUserMapper) => true,
            _ => false,
        }
    }

    fn claim(self) -> (r: Self) {
        KubernetesUser::new_synced_from(self, SyncedBy::IamEksUserMapper)
    }
}

/// The view of an optional label.
pub open spec fn label_view(label: Option<String>) -> Option<Seq<char>> {
    match label {
        Some(s) => Some(s@),
        None => None,
    }
}

/// The lower-case form of an optional label.
pub open spec fn lowercase_label(label: Option<Seq<char>>) -> Option<Seq<char>> {
    match label {
        Some(s) => Some(lowercase(s)),
        None => None,
    }
}

/// Tells whether two optional labels match, case ignored.
pub fn labels_match(a: &Option<String>, b: &Option<String>) -> (r: bool)
    ensures
        r == (lowercase_label(label_view(*a)) == lowercase_label(label_view(*b))),
{
    match (a, b) {
        (None, None) => true,
        (Some(x), Some(y)) => eq_ignoring_case(x.as_str(), y.as_str()),
        _ => false,
    }
}

/// A copy of an optional label.
pub fn label_copy(label: &Option<String>) -> (r: Option<String>)
    ensures
        label_view(r) == label_view(*label),
{
    match label {
        Some(s) => Some(s.clone()),
        None => None,
    }
}

/// What a role record says.
pub struct RoleView {
    pub arn: Seq<char>,
    pub role_name: Option<Seq<char>>,
    pub user_name: Option<Seq<char>>,
    pub groups: Set<Seq<char>>,
    pub synced_by: Option<SyncedBy>,
}

/// What identifies a role: ARN, role name and bound user name, case ignored.
pub struct RoleKey {
    pub arn: Seq<char>,
    pub role_name: Option<Seq<char>>,
    pub user_name: Option<Seq<char>>,
}

/// A role of the identity source and the groups it is bound to.
#[derive(Debug)]
pub struct KubernetesRole {
    pub iam_role_arn: IamArn,
    pub role_name: Option<String>,
    pub user_name: Option<String>,
    pub groups: KeyedSet<KubernetesGroupName>,
    pub synced_by: Option<SyncedBy>,
}

impl View for KubernetesRole {
    type V = RoleView;

    open spec fn view(&self) -> RoleView {
        RoleView {
            arn: self.iam_role_arn@,
            role_name: label_view(self.role_name),
            user_name: label_view(self.user_name),
            groups: self.groups@.dom(),
            synced_by: self.synced_by,
        }
    }
}

impl KubernetesRole {
    pub fn new(
        iam_role_arn: IamArn,
        role_name: Option<String>,
        user_name: Option<String>,
        groups: KeyedSet<KubernetesGroupName>,
        synced_by: Option<SyncedBy>,
    ) -> (r: Self)
        ensures
            r.iam_role_arn == iam_role_arn,
            r.role_name == role_name,
            r.user_name == user_name,
            r.groups == groups,
            r.synced_by == synced_by,
    {
        Self { iam_role_arn, role_name, user_name, groups, synced_by }
    }

    /// The same role, tagged as written by `synced_by`.
    pub fn new_synced_from(r: KubernetesRole, synced_by: SyncedBy) -> (s: KubernetesRole)
        ensures
            s.iam_role_arn == r.iam_role_arn,
            s.role_name == r.role_name,
            s.user_name == r.user_name,
            s.groups == r.groups,
            s.synced_by == Some(synced_by),
    {
        let mut synced_r = r;
        synced_r.synced_by = Some(synced_by);
        synced_r
    }

    /// The role that a record of the document describes.
    pub fn from_document(value: MapRoleConfig) -> (r: KubernetesRole)
        ensures
            r@ == value@,
    {
        let groups = groups_of_names(&value.groups);
        KubernetesRole {
            iam_role_arn: IamArn(value.role_arn),
            role_name: value.rolename,
            user_name: value.username,
            groups,
            synced_by: value.synced_by,
        }
    }
}

impl Clone for KubernetesRole {
    fn clone(&self) -> (r: Self)
        ensures
            r@ == self@,
    {
        KubernetesRole {
            iam_role_arn: self.iam_role_arn.clone(),
            role_name: label_copy(&self.role_name),
            user_name: label_copy(&self.user_name),
            groups: self.groups.duplicate(),
            synced_by: self.synced_by,
        }
    }
}

/// Two roles are the same when ARN, role name and bound user name match,
/// case ignored. Groups and tag play no part in it.
impl Keyed for KubernetesRole {
    type Key = RoleKey;

    open spec fn key_of(v: RoleView) -> RoleKey {
        RoleKey {
            arn: lowercase(v.arn),
            role_name: lowercase_label(v.role_name),
            user_name: lowercase_label(v.user_name),
        }
    }

    fn same_key(&self, other: &Self) -> (b: bool) {
        eq_ignoring_case(self.iam_role_arn.as_str(), other.iam_role_arn.as_str()) && labels_match(
            &self.role_name,
            &other.role_name,
        ) && labels_match(&self.user_name, &other.user_name)
    }

    fn duplicate(&self) -> (r: Self) {
        self.clone()
    }
}

/// `==` on roles is the sameness of their identity.
impl PartialEq for KubernetesRole {
    fn eq(&self, other: &Self) -> (r: bool) {
        self.same_key(other)
    }
}

impl Eq for KubernetesRole {

}

impl vstd::std_specs::cmp::PartialEqSpecImpl for KubernetesRole {
    open spec fn obeys_eq_spec() -> bool {
        true
    }

    open spec fn eq_spec(&self, other: &Self) -> bool {
        Self::key_of(self@) == Self::key_of(other@)
    }
}

impl Managed for KubernetesRole {
    open spec fn tool_owned(v: RoleView) -> bool {
        tagged_by_tool(v.synced_by)
    }

    open spec fn claimed(v: RoleView) -> RoleView {
        RoleView { synced_by: Some(SyncedBy::IamEksUserMapper), ..v }
    }

    proof fn lemma_claimed(v: RoleView) {
    }

    fn is_tool_owned(&self) -> (b: bool) {
        match self.synced_by {
            Some(SyncedBy::IamEksUserMapper) => true,
            _ => false,
        }
    }

    fn claim(self) -> (r: Self) {
        KubernetesRole::new_synced_from(self, SyncedBy::IamEksUserMapper)
    }
}

/// A user as the document's `mapUsers` list records it.
#[derive(Debug)]
pub struct MapUserConfig {
    pub user_arn: String,
    pub username: String,
    pub groups: Vec<String>,
    pub synced_by: Option<SyncedBy>,
}

impl View for MapUserConfig {
    type V = UserView;

    open spec fn view(&self) -> UserView {
        UserView {
            name: self.username@,
            arn: self.user_arn@,
            groups: texts(self.groups@).to_set(),
            synced_by: self.synced_by,
        }
    }
}

impl MapUserConfig {
    /// The record that describes a user. It names each group once.
    pub fn from_user(value: KubernetesUser) -> (r: MapUserConfig)
        ensures
            r@ == value@,
            texts(r.groups@).no_duplicates(),
    {
        let groups = group_names(&value.roles);
        MapUserConfig {
            user_arn: value.iam_arn.to_string(),
            username: value.iam_user_name.to_string(),
            groups,
            synced_by: value.synced_by,
        }
    }
}

/// A role as the document's `mapRoles` list records it.
#[derive(Debug)]
pub struct MapRoleConfig {
    pub role_arn: String,
    pub rolename: Option<String>,
    pub username: Option<String>,
    pub groups: Vec<String>,
    pub synced_by: Option<SyncedBy>,
}

impl View for MapRoleConfig {
    type V = RoleView;

    open spec fn view(&self) -> RoleView {
        RoleView {
            arn: self.role_arn@,
            role_name: label_view(self.rolename),
            user_name: label_view(self.username),
            groups: texts(self.groups@).to_set(),
            synced_by: self.synced_by,
        }
    }
}

impl MapRoleConfig {
    /// The record that describes a role. It names each group once.
    pub fn from_role(value: KubernetesRole) -> (r: MapRoleConfig)
        ensures
            r@ == value@,
            texts(r.groups@).no_duplicates(),
    {
        let groups = group_names(&value.groups);
        MapRoleConfig {
            role_arn: value.iam_role_arn.to_string(),
            rolename: value.role_name,
            username: value.user_name,
            groups,
            synced_by: value.synced_by,
        }
    }
}

} // verus!
