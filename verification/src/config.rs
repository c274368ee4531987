//! The configuration of a run, checked before any cycle starts.

use crate::aws::iam::IamGroup;
use crate::keyed::KeyedSet;
use crate::kubernetes::{
    groups_of_names, IamArn, KubernetesGroupName, KubernetesRole, RoleView, SyncedBy,
};
use crate::text::{
    chars_of, find_from, first_occurrence_from, last_index_of, occurs_at, rfind_char,
    slice_of, split, split_at_char, texts, trim, trim_range,
};
use std::time::Duration;
use vstd::prelude::*;

verus! {

/// Why a configuration is refused.
#[derive(Debug, PartialEq, Eq)]
pub enum ConfigurationError {
    InvalidIamK8sGroupMapping { raw_iam_k8s_group_mapping: String },
    EmptyGroupName { raw_iam_k8s_group_mapping: String },
    EmptySSORoleArn,
    MalformedSSORoleArn,
    InvalidArn { iam_arn: String },
}

impl ConfigurationError {
    /// The message of the error.
    pub open spec fn message(&self) -> Seq<char> {
        match self {
            ConfigurationError::InvalidIamK8sGroupMapping { raw_iam_k8s_group_mapping } =>
                "Invalid IAM K8S group mapping `"@ + raw_iam_k8s_group_mapping@
                    + "`, should be: `iam_group_name->k8s_group_name`"@,
            ConfigurationError::EmptyGroupName { raw_iam_k8s_group_mapping } =>
                "K8s group name nor IAM group name cannot be empty: `"@
                    + raw_iam_k8s_group_mapping@ + "`"@,
            ConfigurationError::EmptySSORoleArn =>
                "SSO role ARN cannot be empty if you want to activate it"@,
            ConfigurationError::MalformedSSORoleArn => "Malformed SSO role ARN"@,
            ConfigurationError::InvalidArn { iam_arn } => "Invalid ARN, "@ + iam_arn@,
        }
    }

    /// Writes the error out as its message.
    pub fn to_string(&self) -> (s: String)
        ensures
            s@ == self.message(),
    {
        match self {
            ConfigurationError::InvalidIamK8sGroupMapping { raw_iam_k8s_group_mapping } =>
                String::from_str("Invalid IAM K8S group mapping `").concat(
                    raw_iam_k8s_group_mapping.as_str(),
                ).concat("`, should be: `iam_group_name->k8s_group_name`"),
            ConfigurationError::EmptyGroupName { raw_iam_k8s_group_mapping } =>
                String::from_str("K8s group name nor IAM group name cannot be empty: `").concat(
                    raw_iam_k8s_group_mapping.as_str(),
                ).concat("`"),
            ConfigurationError::EmptySSORoleArn => String::from_str(
                "SSO role ARN cannot be empty if you want to activate it",
            ),
            ConfigurationError::MalformedSSORoleArn => String::from_str("Malformed SSO role ARN"),
            ConfigurationError::InvalidArn { iam_arn } => String::from_str("Invalid ARN, ").concat(
                iam_arn.as_str(),
            ),
        }
    }

    /// The error says that the token `raw` has the fault `fault`.
    pub open spec fn reports(&self, fault: MappingFault, raw: Seq<char>) -> bool {
        match fault {
            MappingFault::Syntax => *self matches ConfigurationError::InvalidIamK8sGroupMapping {
                raw_iam_k8s_group_mapping,
            } && raw_iam_k8s_group_mapping@ == raw,
            MappingFault::EmptyName => *self matches ConfigurationError::EmptyGroupName {
                raw_iam_k8s_group_mapping,
            } && raw_iam_k8s_group_mapping@ == raw,
        }
    }
}

/// How the tool reaches the identity source.
#[derive(Clone, Debug)]
pub struct Credentials {
    pub region: String,
    pub _service_account_name: String,
    pub _credentials_mode: CredentialsMode,
}

/// The kind of credentials in use.
#[derive(Clone, Debug)]
pub enum CredentialsMode {
    RoleBased { _aws_role_arn: String },
    AccessKeyBased { _aws_access_key_id: String, _aws_secret_access_key: String },
}

impl Credentials {
    pub fn new(region: String, service_account_name: String, credentials_mode: CredentialsMode) -> (c:
        Credentials)
        ensures
            c.region == region,
            c._service_account_name == service_account_name,
            c._credentials_mode == credentials_mode,
    {
        Credentials {
            region,
            _service_account_name: service_account_name,
            _credentials_mode: credentials_mode,
        }
    }
}

/// What is wrong with a mapping token.
pub enum MappingFault {
    /// The delimiter is missing or stands more than once.
    Syntax,
    /// One side is empty once the whitespace around it is taken away.
    EmptyName,
}

/// The delimiter between the two sides of a mapping token.
pub open spec fn delimiter() -> Seq<char> {
    seq!['-', '>']
}

/// The delimiter stands at `i` and nowhere else in the token.
pub open spec fn sole_delimiter(s: Seq<char>, i: int) -> bool {
    &&& occurs_at(s, delimiter(), i)
    &&& forall|j: int| occurs_at(s, delimiter(), j) ==> j == i
}

/// What a mapping token says: the names of the source group and of the target
/// group, or what is wrong with the token.
pub open spec fn parse_mapping(s: Seq<char>) -> Result<(Seq<char>, Seq<char>), MappingFault> {
    if exists|i: int| sole_delimiter(s, i) {
        let i = choose|i: int| sole_delimiter(s, i);
        let source = trim(s.take(i));
        let target = trim(s.skip(i + 2));
        if source.len() == 0 || target.len() == 0 {
            Err(MappingFault::EmptyName)
        } else {
            Ok((source, target))
        }
    } else {
        Err(MappingFault::Syntax)
    }
}

/// A rule that maps a group of the identity source to a group of the cluster.
#[derive(Debug, PartialEq, Eq)]
pub struct IamK8sGroup {
    pub iam_group: IamGroup,
    pub k8s_group: KubernetesGroupName,
}

impl Clone for IamK8sGroup {
    fn clone(&self) -> (r: Self)
        ensures
            r.iam_group@ == self.iam_group@,
            r.k8s_group@ == self.k8s_group@,
    {
        IamK8sGroup { iam_group: self.iam_group.clone(), k8s_group: self.k8s_group.clone() }
    }
}

impl IamK8sGroup {
    /// Reads one mapping token, `source->target`. The delimiter must stand in
    /// it exactly once, and neither name may be empty once the whitespace
    /// around it is taken away.
    pub fn from_str(s: &str) -> (r: Result<IamK8sGroup, ConfigurationError>)
        ensures
            match parse_mapping(s@) {
                Ok((source, target)) => r matches Ok(rule) && rule.iam_group@ == source
                    && rule.k8s_group@ == target,
                Err(fault) => r matches Err(e) && e.reports(fault, s@),
            },
    {
        let text = chars_of(s);
        let pattern: Vec<char> = vec!['-', '>'];
        assert(pattern@ =~= delimiter());
        let first = match find_from(&text, &pattern, 0) {
            Some(i) => i,
            None => {
                return Err(
                    ConfigurationError::InvalidIamK8sGroupMapping {
                        raw_iam_k8s_group_mapping: s.to_owned(),
                    },
                );
            },
        };
        if find_from(&text, &pattern, first + 1).is_some() {
            return Err(
                ConfigurationError::InvalidIamK8sGroupMapping {
                    raw_iam_k8s_group_mapping: s.to_owned(),
                },
            );
        }
        proof {
            assert forall|j: int| occurs_at(s@, delimiter(), j) implies j == first by {
                if j > first {
                    assert(first + 1 <= j);
                }
            }
            assert(sole_delimiter(s@, first as int));
            let i = choose|i: int| sole_delimiter(s@, i);
            assert(i == first);
            assert(s@.take(first as int) =~= s@.subrange(0, first as int));
            assert(s@.skip(first + 2) =~= s@.subrange(first + 2, s@.len() as int));
        }
        let (source_from, source_to) = trim_range(&text, 0, first);
        let (target_from, target_to) = trim_range(&text, first + 2, text.len());
        if source_from == source_to || target_from == target_to {
            return Err(
                ConfigurationError::EmptyGroupName { raw_iam_k8s_group_mapping: s.to_owned() },
            );
        }
        let source = slice_of(s, source_from, source_to);
        let target = slice_of(s, target_from, target_to);
        Ok(
            IamK8sGroup {
                iam_group: IamGroup::new(source.as_str()),
                k8s_group: KubernetesGroupName::new(target.as_str()),
            },
        )
    }
}

/// Whether users are synchronised from groups, and by which rules.
#[derive(Clone, Debug)]
pub enum GroupUserSyncConfig {
    Disabled,
    Enabled { iam_k8s_groups: Vec<IamK8sGroup> },
}

/// Whether the SSO role is installed, and which role it is.
#[derive(Clone, Debug)]
pub enum SSORoleConfig {
    Disabled,
    Enabled { sso_role: KubernetesRole },
}

/// Whether the Karpenter role is installed, and which role it is.
#[derive(Clone, Debug)]
pub enum KarpenterRoleConfig {
    Disabled,
    Enabled { karpenter_role: KubernetesRole },
}

/// What marks the start of a role's path in a role ARN.
pub open spec fn role_marker() -> Seq<char> {
    seq![':', 'r', 'o', 'l', 'e', '/']
}

/// The canonical form of a role ARN: what stands up to and with the first
/// `:role/`, followed by what stands after the last `/`. An ARN without
/// `:role/` has none.
pub open spec fn sanitized_role_arn(s: Seq<char>) -> Option<Seq<char>> {
    if exists|i: int| first_occurrence_from(s, role_marker(), 0, i) {
        let i = choose|i: int| first_occurrence_from(s, role_marker(), 0, i);
        let j = choose|j: int| last_index_of(s, '/', j);
        Some(s.take(i + 6) + s.skip(j + 1))
    } else {
        None
    }
}

/// Brings a role ARN into its canonical form, dropping the path between
/// `:role/` and the role's own name.
pub fn sanitize_role_arn(arn: &str) -> (r: Result<IamArn, ConfigurationError>)
    ensures
        match sanitized_role_arn(arn@) {
            Some(clean) => r matches Ok(a) && a@ == clean,
            None => r matches Err(e) && e is MalformedSSORoleArn,
        },
{
    let text = chars_of(arn);
    let marker: Vec<char> = vec![':', 'r', 'o', 'l', 'e', '/'];
    assert(marker@ =~= role_marker());
    let start = match find_from(&text, &marker, 0) {
        Some(i) => i,
        None => {
            return Err(ConfigurationError::MalformedSSORoleArn);
        },
    };
    assert(start + 6 <= text.len()) by {
        assert(role_marker().len() == 6);
        assert(occurs_at(text@, role_marker(), start as int));
    }
    assert(text@[start + 5] == '/') by {
        assert(text@.subrange(start as int, start + 6)[5] == role_marker()[5]);
    }
    let stop = match rfind_char(&text, '/') {
        Some(j) => j,
        None => {
            return Err(ConfigurationError::MalformedSSORoleArn);
        },
    };
    proof {
        let i = choose|i: int| first_occurrence_from(arn@, role_marker(), 0, i);
        assert(i == start);
        let j = choose|j: int| last_index_of(arn@, '/', j);
        assert(last_index_of(arn@, '/', stop as int));
        assert(j == stop);
        assert(stop >= start + 5);
        assert(stop < text.len());
        assert(arn@.take(start + 6) =~= arn@.subrange(0, start + 6));
        assert(arn@.skip(stop + 1) =~= arn@.subrange(stop + 1, arn@.len() as int));
    }
    let head = slice_of(arn, 0, start + 6);
    let tail = slice_of(arn, stop + 1, text.len());
    let clean = head.concat(tail.as_str());
    Ok(IamArn::new(clean.as_str()))
}

/// The role that stands for the cluster's SSO administrators.
pub open spec fn sso_role_view(arn: Seq<char>) -> RoleView {
    RoleView {
        arn,
        role_name: Some("cluster-admin-sso"@),
        user_name: None,
        groups: Set::empty().insert("system:masters"@),
        synced_by: Some(SyncedBy::IamEksUserMapper),
    }
}

/// The role under which Karpenter's nodes join the cluster.
pub open spec fn karpenter_role_view(arn: Seq<char>) -> RoleView {
    RoleView {
        arn,
        role_name: None,
        user_name: Some("system:node:{{EC2PrivateDNSName}}"@),
        groups: Set::empty().insert("system:bootstrappers"@).insert("system:nodes"@),
        synced_by: Some(SyncedBy::IamEksUserMapper),
    }
}

/// The rules say what the tokens say, one for one.
pub open spec fn rules_of(rules: Seq<IamK8sGroup>, tokens: Seq<Seq<char>>) -> bool {
    &&& rules.len() == tokens.len()
    &&& forall|i: int|
        0 <= i < rules.len() ==> parse_mapping(tokens[i]) == Ok::<_, MappingFault>(
            ((#[trigger] rules[i]).iam_group@, rules[i].k8s_group@),
        )
}

/// The token at `i` is the first that cannot be read.
pub open spec fn first_fault_at(tokens: Seq<Seq<char>>, i: int) -> bool {
    &&& 0 <= i < tokens.len()
    &&& parse_mapping(tokens[i]) is Err
    &&& forall|j: int| 0 <= j < i ==> parse_mapping(#[trigger] tokens[j]) is Ok
}

/// Every token can be read.
pub open spec fn all_readable(tokens: Seq<Seq<char>>) -> bool {
    forall|j: int| 0 <= j < tokens.len() ==> parse_mapping(#[trigger] tokens[j]) is Ok
}

/// The administrators that a comma-separated list names.
pub open spec fn admins_of(list: Option<String>) -> Set<Seq<char>> {
    match list {
        Some(users) => split(users@, ',').to_set(),
        None => Set::empty(),
    }
}

/// The configuration of a run.
#[derive(Debug)]
pub struct Config {
    pub credentials: Credentials,
    pub refresh_interval: Duration,
    pub admins_users: KeyedSet<IamArn>,
    pub group_user_sync_config: GroupUserSyncConfig,
    pub sso_role_config: SSORoleConfig,
    pub karpenter_config: KarpenterRoleConfig,
    pub verbose: bool,
}

impl Clone for Config {
    fn clone(&self) -> (r: Self)
        ensures
            r.refresh_interval == self.refresh_interval,
            r.admins_users@ == self.admins_users@,
            r.verbose == self.verbose,
    {
        Config {
            credentials: self.credentials.clone(),
            refresh_interval: self.refresh_interval,
            admins_users: self.admins_users.clone(),
            group_user_sync_config: self.group_user_sync_config.clone(),
            sso_role_config: self.sso_role_config.clone(),
            karpenter_config: self.karpenter_config.clone(),
            verbose: self.verbose,
        }
    }
}

/// Reads the mapping tokens in order and stops at the first that cannot be read.
pub fn parse_mappings(tokens: &Vec<String>) -> (r: Result<Vec<IamK8sGroup>, ConfigurationError>)
    ensures
        match r {
            Ok(rules) => rules_of(rules@, texts(tokens@)),
            Err(e) => exists|i: int|
                first_fault_at(texts(tokens@), i) && e.reports(
                    parse_mapping(texts(tokens@)[i])->Err_0,
                    texts(tokens@)[i],
                ),
        },
{
    let mut rules: Vec<IamK8sGroup> = Vec::new();
    let mut i: usize = 0;
    while i < tokens.len()
        invariant
            i <= tokens.len(),
            rules_of(rules@, texts(tokens@).take(i as int)),
        decreases tokens.len() - i,
    {
        match IamK8sGroup::from_str(tokens[i].as_str()) {
            Ok(rule) => {
                proof {
                    let all = texts(tokens@);
                    let done = rules@.push(rule);
                    assert forall|j: int| 0 <= j < done.len() implies parse_mapping(
                        all.take(i + 1)[j],
                    ) == Ok::<_, MappingFault>(
                        ((#[trigger] done[j]).iam_group@, done[j].k8s_group@),
                    ) by {
                        if j < i {
                            assert(done[j] == rules@[j]);
                            assert(all.take(i as int)[j] == all.take(i + 1)[j]);
                        }
                    }
                }
                rules.push(rule);
            },
            Err(e) => {
                proof {
                    let all = texts(tokens@);
                    assert forall|j: int| 0 <= j < i implies parse_mapping(#[trigger] all[j])
                        is Ok by {
                        assert(all.take(i as int)[j] == all[j]);
                        assert(parse_mapping(all.take(i as int)[j]) == Ok::<_, MappingFault>(
                            (rules@[j].iam_group@, rules@[j].k8s_group@),
                        ));
                    }
                    assert(first_fault_at(all, i as int));
                }
                return Err(e);
            },
        }
        i += 1;
    }
    assert(texts(tokens@).take(tokens.len() as int) =~= texts(tokens@));
    Ok(rules)
}

/// The set of the administrators that a comma-separated list names.
pub fn parse_admins(list: &Option<String>) -> (admins: KeyedSet<IamArn>)
    ensures
        admins@.dom() == admins_of(*list),
{
    let mut admins: KeyedSet<IamArn> = KeyedSet::new();
    match list {
        None => {
            assert(admins@.dom() =~= Set::<Seq<char>>::empty());
        },
        Some(users) => {
            let pieces = split_at_char(users.as_str(), ',');
            let mut i: usize = 0;
            assert(texts(pieces@).take(0).to_set() =~= Set::<Seq<char>>::empty());
            while i < pieces.len()
                invariant
                    i <= pieces.len(),
                    admins@.dom() == texts(pieces@).take(i as int).to_set(),
                decreases pieces.len() - i,
            {
                let admin = IamArn::new(pieces[i].as_str());
                proof {
                    let all = texts(pieces@);
                    assert(all.take(i + 1) =~= all.take(i as int).push(admin@));
                    crate::text::lemma_to_set_push(all.take(i as int), admin@);
                }
                let ghost before = admins@;
                admins.insert(admin);
                assert(admins@.dom() =~= before.dom().insert(admin@));
                i += 1;
            }
            assert(texts(pieces@).take(pieces.len() as int) =~= texts(pieces@));
        },
    }
    admins
}

fn sso_role(arn: IamArn) -> (role: KubernetesRole)
    ensures
        role@ == sso_role_view(arn@),
{
    let mut names: Vec<String> = Vec::new();
    names.push(String::from_str("system:masters"));
    let groups = groups_of_names(&names);
    proof {
        assert(texts(names@) =~= seq!["system:masters"@]);
        assert(seq!["system:masters"@].to_set() =~= Set::<Seq<char>>::empty().insert(
            "system:masters"@,
        )) by {
            assert(seq!["system:masters"@][0] == "system:masters"@);
        }
    }
    KubernetesRole::new(
        arn,
        Some(String::from_str("cluster-admin-sso")),
        None,
        groups,
        Some(SyncedBy::IamEksUserMapper),
    )
}

fn karpenter_role(arn: IamArn) -> (role: KubernetesRole)
    ensures
        role@ == karpenter_role_view(arn@),
{
    let mut names: Vec<String> = Vec::new();
    names.push(String::from_str("system:bootstrappers"));
    names.push(String::from_str("system:nodes"));
    let groups = groups_of_names(&names);
    proof {
        let listed = seq!["system:bootstrappers"@, "system:nodes"@];
        assert(texts(names@) =~= listed);
        assert(listed.to_set() =~= Set::<Seq<char>>::empty().insert(
            "system:bootstrappers"@,
        ).insert("system:nodes"@)) by {
            assert(listed[0] == "system:bootstrappers"@);
            assert(listed[1] == "system:nodes"@);
        }
    }
    KubernetesRole::new(
        arn,
        None,
        Some(String::from_str("system:node:{{EC2PrivateDNSName}}")),
        groups,
        Some(SyncedBy::IamEksUserMapper),
    )
}

impl Config {
    /// Checks the settings of a run and puts them together. The mapping tokens
    /// are read only where the group synchronisation is on, and the SSO role's
    /// ARN only where SSO is on; the first fault found is the error.
    pub fn new(
        credentials: Credentials,
        refresh_interval: Duration,
        enable_group_sync: bool,
        iam_k8s_groups_mapping_raw: Vec<String>,
        admins_iam_users: Option<String>,
        enable_sso: bool,
        iam_sso_role_arn: Option<String>,
        karpenter_role_arn: Option<String>,
        verbose: bool,
    ) -> (r: Result<Config, ConfigurationError>)
        ensures
            match r {
                Ok(config) => {
                    &&& config.credentials == credentials
                    &&& config.refresh_interval == refresh_interval
                    &&& config.verbose == verbose
                    &&& config.admins_users@.dom() == admins_of(admins_iam_users)
                    &&& match config.group_user_sync_config {
                        GroupUserSyncConfig::Disabled => !enable_group_sync,
                        GroupUserSyncConfig::Enabled { iam_k8s_groups } => {
                            &&& enable_group_sync
                            &&& rules_of(iam_k8s_groups@, texts(iam_k8s_groups_mapping_raw@))
                        },
                    }
                    &&& match config.sso_role_config {
                        SSORoleConfig::Disabled => !enable_sso,
                        SSORoleConfig::Enabled { sso_role } => {
                            &&& enable_sso
                            &&& iam_sso_role_arn matches Some(arn)
                            &&& sanitized_role_arn(arn@) matches Some(clean)
                            &&& sso_role@ == sso_role_view(clean)
                        },
                    }
                    &&& match config.karpenter_config {
                        KarpenterRoleConfig::Disabled => karpenter_role_arn is None,
                        KarpenterRoleConfig::Enabled { karpenter_role } => {
                            &&& karpenter_role_arn matches Some(arn)
                            &&& karpenter_role@ == karpenter_role_view(arn@)
                        },
                    }
                },
                Err(e) => {
                    ||| enable_group_sync && exists|i: int|
                        first_fault_at(texts(iam_k8s_groups_mapping_raw@), i) && e.reports(
                            parse_mapping(texts(iam_k8s_groups_mapping_raw@)[i])->Err_0,
                            texts(iam_k8s_groups_mapping_raw@)[i],
                        )
                    ||| {
                        &&& enable_group_sync ==> all_readable(texts(iam_k8s_groups_mapping_raw@))
                        &&& enable_sso
                        &&& iam_sso_role_arn is None
                        &&& e is EmptySSORoleArn
                    }
                    ||| {
                        &&& enable_group_sync ==> all_readable(texts(iam_k8s_groups_mapping_raw@))
                        &&& enable_sso
                        &&& iam_sso_role_arn matches Some(arn)
                        &&& sanitized_role_arn(arn@) is None
                        &&& e is MalformedSSORoleArn
                    }
                },
            },
    {
        let admins_users = parse_admins(&admins_iam_users);
        let group_user_sync_config = if enable_group_sync {
            match parse_mappings(&iam_k8s_groups_mapping_raw) {
                Ok(iam_k8s_groups) => GroupUserSyncConfig::Enabled { iam_k8s_groups },
                Err(e) => {
                    return Err(e);
                },
            }
        } else {
            GroupUserSyncConfig::Disabled
        };
        proof {
            if enable_group_sync {
                let tokens = texts(iam_k8s_groups_mapping_raw@);
                let rules = group_user_sync_config->iam_k8s_groups@;
                assert forall|j: int| 0 <= j < tokens.len() implies parse_mapping(
                    #[trigger] tokens[j],
                ) is Ok by {
                    assert(parse_mapping(tokens[j]) == Ok::<_, MappingFault>(
                        (rules[j].iam_group@, rules[j].k8s_group@),
                    ));
                }
            }
        }
        let sso_role_config = if enable_sso {
            let arn = match &iam_sso_role_arn {
                Some(arn) => arn,
                None => {
                    return Err(ConfigurationError::EmptySSORoleArn);
                },
            };
            match sanitize_role_arn(arn.as_str()) {
                Ok(clean) => SSORoleConfig::Enabled { sso_role: sso_role(clean) },
                Err(e) => {
                    return Err(e);
                },
            }
        } else {
            SSORoleConfig::Disabled
        };
        let karpenter_config = match &karpenter_role_arn {
            Some(arn) => KarpenterRoleConfig::Enabled {
                karpenter_role: karpenter_role(IamArn::new(arn.as_str())),
            },
            None => KarpenterRoleConfig::Disabled,
        };
        Ok(
            Config {
                credentials,
                refresh_interval,
                admins_users,
                group_user_sync_config,
                sso_role_config,
                karpenter_config,
                verbose,
            },
        )
    }
}

} // verus!
