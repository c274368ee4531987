use iam_eks_user_mapper::aws::iam::IamGroup;
use iam_eks_user_mapper::config::{
    parse_admins, parse_mappings, sanitize_role_arn, Config, ConfigurationError, Credentials,
    CredentialsMode, GroupUserSyncConfig, IamK8sGroup, KarpenterRoleConfig, SSORoleConfig,
};
use iam_eks_user_mapper::kubernetes::{IamArn, KubernetesGroupName, KubernetesRole, SyncedBy};
use std::collections::BTreeSet;
use std::time::Duration;

fn credentials() -> Credentials {
    Credentials::new(
        "whatever".to_string(),
        "whatever".to_string(),
        CredentialsMode::RoleBased { _aws_role_arn: "whatever".to_string() },
    )
}

fn group_names(role: &KubernetesRole) -> BTreeSet<String> {
    role.groups.items().iter().map(|g| g.to_string()).collect()
}

fn names(list: &[&str]) -> BTreeSet<String> {
    list.iter().map(|s| s.to_string()).collect()
}

#[test]
fn iam_k8s_group_from_str_test() {
    // setup:
    struct TestCase<'a> {
        input: &'a str,
        expected: Result<IamK8sGroup, ConfigurationError>,
        _description: &'a str,
    }

    let test_cases = vec![
        TestCase {
            input: "iam_group->k8s_group",
            expected: Ok(IamK8sGroup {
                iam_group: IamGroup::new("iam_group"),
                k8s_group: KubernetesGroupName::new("k8s_group"),
            }),
            _description: "case 1 - nominal case",
        },
        TestCase {
            input: "iam_group->k8s_group->",
            expected: Err(ConfigurationError::InvalidIamK8sGroupMapping {
                raw_iam_k8s_group_mapping: "iam_group->k8s_group->".to_string(),
            }),
            _description: "case 2 - there is more than one mapping delimiter",
        },
        TestCase {
            input: "iam_groupk8s_group",
            expected: Err(ConfigurationError::InvalidIamK8sGroupMapping {
                raw_iam_k8s_group_mapping: "iam_groupk8s_group".to_string(),
            }),
            _description: "case 3 - there is no mapping delimiter",
        },
        TestCase {
            input: "->k8s_group",
            expected: Err(ConfigurationError::EmptyGroupName {
                raw_iam_k8s_group_mapping: "->k8s_group".to_string(),
            }),
            _description: "case 4 - iam group is empty",
        },
        TestCase {
            input: "iam_group->",
            expected: Err(ConfigurationError::EmptyGroupName {
                raw_iam_k8s_group_mapping: "iam_group->".to_string(),
            }),
            _description: "case 5 - k8s group is empty",
        },
        TestCase {
            input: " iam_group -> k8s_group ",
            expected: Ok(IamK8sGroup {
                iam_group: IamGroup::new("iam_group"),
                k8s_group: KubernetesGroupName::new("k8s_group"),
            }),
            _description: "case 6 - some trailing spaces presents around groups names",
        },
    ];

    for tc in test_cases {
        // execute:
        let res = IamK8sGroup::from_str(tc.input);

        // verify:
        assert_eq!(tc.expected, res);
    }
}

#[test]
fn iam_sso_role_arn_sanitize_ok_test() {
    // setup:
    struct TestCase<'a> {
        input: &'a str,
        expected: IamArn,
    }

    let test_cases = vec![
        TestCase {
            input: "arn:aws:iam::843237586875:role/aws-reserved/sso.amazonaws.com/us-east-2/AWSReservedSSO_AdministratorAccess_53b82e109c5e2cac",
            expected: IamArn::new("arn:aws:iam::843237586875:role/AWSReservedSSO_AdministratorAccess_53b82e109c5e2cac"),
        },
        TestCase {
            input: "arn:aws:iam::843237586875:role/whatever_here/AWSReservedSSO_AdministratorAccess_53b82e109c5e2cac",
            expected: IamArn::new("arn:aws:iam::843237586875:role/AWSReservedSSO_AdministratorAccess_53b82e109c5e2cac"),
        },
        TestCase {
            input: "arn:aws:iam::843237586875:role/AWSReservedSSO_AdministratorAccess_53b82e109c5e2cac",
            expected: IamArn::new("arn:aws:iam::843237586875:role/AWSReservedSSO_AdministratorAccess_53b82e109c5e2cac"),
        },
    ];

    for tc in test_cases {
        // execute:
        let res = Config::new(
            credentials(),
            Duration::from_secs(60),
            false,
            Vec::with_capacity(0),
            None,
            true,
            Some(tc.input.to_string()),
            None,
            false,
        );

        // verify:
        assert!(res.is_ok());
        let result = res.expect("config cannot be unwrap error");
        assert_eq!(
            tc.expected.to_string(),
            match result.clone().sso_role_config {
                SSORoleConfig::Disabled => panic!("Error!"),
                SSORoleConfig::Enabled { sso_role } => sso_role.iam_role_arn.to_string(),
            }
        );
        assert!(match result.karpenter_config {
            KarpenterRoleConfig::Disabled => true,
            #[allow(unused_variables)]
            KarpenterRoleConfig::Enabled { karpenter_role } => false,
        })
    }
}

#[test]
fn iam_sso_role_arn_sanitize_malformed_test() {
    // setup:
    let test_cases = vec!["AWSReservedSSO_AdministratorAccess_53b82e109c5e2cac", "abc"];

    for tc in test_cases {
        // execute:
        let res = Config::new(
            credentials(),
            Duration::from_secs(60),
            false,
            Vec::with_capacity(0),
            None,
            true,
            Some(tc.to_string()),
            None,
            false,
        );

        // verify:
        assert!(res.is_err());
        assert!(matches!(res, Err(ConfigurationError::MalformedSSORoleArn)));
    }
}

#[test]
fn iam_karpenter_role_test() {
    let res = Config::new(
        credentials(),
        Duration::from_secs(60),
        false,
        Vec::with_capacity(0),
        None,
        false,
        None,
        Some("arn:aws:iam::account_id:role/role_id".to_string()),
        false,
    );

    // verify:
    assert!(res.is_ok());
    let x = match res.unwrap().karpenter_config {
        KarpenterRoleConfig::Disabled => panic!("Error!"),
        KarpenterRoleConfig::Enabled { karpenter_role } => karpenter_role.iam_role_arn,
    };

    assert_eq!(x, IamArn::new("arn:aws:iam::account_id:role/role_id"))
}

#[test]
fn mapping_token_examples() {
    let rule = IamK8sGroup::from_str("a->b").unwrap();
    assert_eq!(rule.iam_group.to_string(), "a");
    assert_eq!(rule.k8s_group.to_string(), "b");

    let rule = IamK8sGroup::from_str(" a -> b ").unwrap();
    assert_eq!(rule.iam_group.to_string(), "a");
    assert_eq!(rule.k8s_group.to_string(), "b");

    for token in ["a->b->c", "ab", "", "a-b", "a>-b"] {
        assert_eq!(
            IamK8sGroup::from_str(token),
            Err(ConfigurationError::InvalidIamK8sGroupMapping {
                raw_iam_k8s_group_mapping: token.to_string()
            })
        );
    }
    for token in ["->b", "a->", "->", " -> b", "a ->  ", "\t->\n"] {
        assert_eq!(
            IamK8sGroup::from_str(token),
            Err(ConfigurationError::EmptyGroupName { raw_iam_k8s_group_mapping: token.to_string() })
        );
    }
}

#[test]
fn mapping_token_keeps_inner_whitespace_and_other_scripts() {
    let rule = IamK8sGroup::from_str("\u{2003}Équipe Ops\u{00A0}->\u{3000}système:maîtres \n").unwrap();
    assert_eq!(rule.iam_group.to_string(), "Équipe Ops");
    assert_eq!(rule.k8s_group.to_string(), "système:maîtres");

    let rule = IamK8sGroup::from_str("a-->b").unwrap();
    assert_eq!(rule.iam_group.to_string(), "a-");
    assert_eq!(rule.k8s_group.to_string(), "b");

    let rule = IamK8sGroup::from_str("a->>b").unwrap();
    assert_eq!(rule.iam_group.to_string(), "a");
    assert_eq!(rule.k8s_group.to_string(), ">b");
}

#[test]
fn sanitize_role_arn_examples() {
    let long = "arn:aws:iam::843237586875:role/aws-reserved/sso.amazonaws.com/us-east-2/AWSReservedSSO_X";
    let canonical = "arn:aws:iam::843237586875:role/AWSReservedSSO_X";
    assert_eq!(sanitize_role_arn(long), Ok(IamArn::new(canonical)));
    assert_eq!(sanitize_role_arn(canonical), Ok(IamArn::new(canonical)));
    assert_eq!(sanitize_role_arn(":role/"), Ok(IamArn::new(":role/")));
    assert_eq!(sanitize_role_arn("x:role/a/"), Ok(IamArn::new("x:role/")));
    assert_eq!(sanitize_role_arn("é:role/ü/ñ"), Ok(IamArn::new("é:role/ñ")));
    assert_eq!(
        sanitize_role_arn("a:role/b:role/c/d"),
        Ok(IamArn::new("a:role/d"))
    );
    for bad in ["", "abc", "arn:aws:iam::1:user/x", ":role", "role/x", ":ROLE/x"] {
        assert_eq!(sanitize_role_arn(bad), Err(ConfigurationError::MalformedSSORoleArn));
    }
}

#[test]
fn config_reports_first_bad_mapping() {
    let res = Config::new(
        credentials(),
        Duration::from_secs(60),
        true,
        vec!["Admins->system:masters".to_string(), "broken".to_string(), "->x".to_string()],
        None,
        true,
        None,
        None,
        false,
    );
    assert_eq!(
        res.err(),
        Some(ConfigurationError::InvalidIamK8sGroupMapping {
            raw_iam_k8s_group_mapping: "broken".to_string()
        })
    );

    let res = Config::new(
        credentials(),
        Duration::from_secs(60),
        true,
        vec!["Admins->system:masters".to_string(), "->x".to_string(), "broken".to_string()],
        None,
        false,
        None,
        None,
        false,
    );
    assert_eq!(
        res.err(),
        Some(ConfigurationError::EmptyGroupName { raw_iam_k8s_group_mapping: "->x".to_string() })
    );
}

#[test]
fn config_ignores_mappings_when_group_sync_is_off() {
    let config = Config::new(
        credentials(),
        Duration::from_secs(30),
        false,
        vec!["broken".to_string()],
        None,
        false,
        Some("not an arn".to_string()),
        None,
        true,
    )
    .unwrap();
    assert!(matches!(config.group_user_sync_config, GroupUserSyncConfig::Disabled));
    assert!(matches!(config.sso_role_config, SSORoleConfig::Disabled));
    assert!(matches!(config.karpenter_config, KarpenterRoleConfig::Disabled));
    assert_eq!(config.refresh_interval, Duration::from_secs(30));
    assert!(config.verbose);
    assert_eq!(config.credentials.region, "whatever");
    assert!(config.admins_users.is_empty());
}

#[test]
fn config_requires_sso_role_arn_when_sso_is_on() {
    let res = Config::new(
        credentials(),
        Duration::from_secs(60),
        false,
        vec![],
        None,
        true,
        None,
        None,
        false,
    );
    assert_eq!(res.err(), Some(ConfigurationError::EmptySSORoleArn));
}

#[test]
fn config_builds_rules_and_fixed_roles() {
    let config = Config::new(
        credentials(),
        Duration::from_secs(60),
        true,
        vec!["Admins->system:masters".to_string(), " Devops -> system:devops ".to_string()],
        Some("arn:aws:iam::1:user/a,arn:aws:iam::1:user/b,arn:aws:iam::1:user/a".to_string()),
        true,
        Some("arn:aws:iam::1:role/path/Sso".to_string()),
        Some("arn:aws:iam::1:role/karpenter".to_string()),
        false,
    )
    .unwrap();

    match &config.group_user_sync_config {
        GroupUserSyncConfig::Disabled => panic!("group sync should be on"),
        GroupUserSyncConfig::Enabled { iam_k8s_groups } => {
            assert_eq!(
                iam_k8s_groups,
                &vec![
                    IamK8sGroup {
                        iam_group: IamGroup::new("Admins"),
                        k8s_group: KubernetesGroupName::new("system:masters"),
                    },
                    IamK8sGroup {
                        iam_group: IamGroup::new("Devops"),
                        k8s_group: KubernetesGroupName::new("system:devops"),
                    },
                ]
            );
        }
    }

    let admins: BTreeSet<String> =
        config.admins_users.items().iter().map(|a| a.to_string()).collect();
    assert_eq!(admins, names(&["arn:aws:iam::1:user/a", "arn:aws:iam::1:user/b"]));
    assert_eq!(config.admins_users.len(), 2);

    match &config.sso_role_config {
        SSORoleConfig::Disabled => panic!("sso should be on"),
        SSORoleConfig::Enabled { sso_role } => {
            assert_eq!(sso_role.iam_role_arn, IamArn::new("arn:aws:iam::1:role/Sso"));
            assert_eq!(sso_role.role_name, Some("cluster-admin-sso".to_string()));
            assert_eq!(sso_role.user_name, None);
            assert_eq!(group_names(sso_role), names(&["system:masters"]));
            assert_eq!(sso_role.synced_by, Some(SyncedBy::IamEksUserMapper));
        }
    }
    match &config.karpenter_config {
        KarpenterRoleConfig::Disabled => panic!("karpenter should be on"),
        KarpenterRoleConfig::Enabled { karpenter_role } => {
            assert_eq!(karpenter_role.iam_role_arn, IamArn::new("arn:aws:iam::1:role/karpenter"));
            assert_eq!(karpenter_role.role_name, None);
            assert_eq!(
                karpenter_role.user_name,
                Some("system:node:{{EC2PrivateDNSName}}".to_string())
            );
            assert_eq!(
                group_names(karpenter_role),
                names(&["system:bootstrappers", "system:nodes"])
            );
            assert_eq!(karpenter_role.synced_by, Some(SyncedBy::IamEksUserMapper));
        }
    }
}

#[test]
fn admins_list_is_split_at_commas() {
    let admins = parse_admins(&Some("a,,b,".to_string()));
    let listed: BTreeSet<String> = admins.items().iter().map(|a| a.to_string()).collect();
    assert_eq!(listed, names(&["a", "", "b"]));
    let admins = parse_admins(&Some(String::new()));
    let listed: Vec<String> = admins.items().iter().map(|a| a.to_string()).collect();
    assert_eq!(listed, vec![String::new()]);
    assert!(parse_admins(&None).is_empty());
}

#[test]
fn mappings_are_read_in_order() {
    let rules = parse_mappings(&vec!["b->y".to_string(), "a->x".to_string()]).unwrap();
    assert_eq!(rules.len(), 2);
    assert_eq!(rules[0].iam_group, IamGroup::new("b"));
    assert_eq!(rules[1].k8s_group, KubernetesGroupName::new("x"));
    assert_eq!(parse_mappings(&vec![]), Ok(vec![]));
}

#[test]
fn configuration_error_messages() {
    assert_eq!(
        ConfigurationError::InvalidIamK8sGroupMapping { raw_iam_k8s_group_mapping: "ab".to_string() }
            .to_string(),
        "Invalid IAM K8S group mapping `ab`, should be: `iam_group_name->k8s_group_name`"
    );
    assert_eq!(
        ConfigurationError::EmptyGroupName { raw_iam_k8s_group_mapping: "->b".to_string() }
            .to_string(),
        "K8s group name nor IAM group name cannot be empty: `->b`"
    );
    assert_eq!(
        ConfigurationError::EmptySSORoleArn.to_string(),
        "SSO role ARN cannot be empty if you want to activate it"
    );
    assert_eq!(ConfigurationError::MalformedSSORoleArn.to_string(), "Malformed SSO role ARN");
    assert_eq!(
        ConfigurationError::InvalidArn { iam_arn: "x".to_string() }.to_string(),
        "Invalid ARN, x"
    );
}
