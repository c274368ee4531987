use iam_eks_user_mapper::keyed::KeyedSet;
use iam_eks_user_mapper::kubernetes::aws_auth::{
    claim_all, keep_foreign, overlay, reconcile, AwsAuth, AwsAuthBuilder,
};
use iam_eks_user_mapper::kubernetes::{
    IamArn, IamUserName, KubernetesGroupName, KubernetesRole, KubernetesUser, SyncedBy,
};
use std::collections::BTreeSet;

type UserFacts = (String, String, BTreeSet<String>, Option<SyncedBy>);
type RoleFacts = (String, Option<String>, Option<String>, BTreeSet<String>, Option<SyncedBy>);

fn groups(names: &[&str]) -> KeyedSet<KubernetesGroupName> {
    KeyedSet::from_vec(names.iter().map(|n| KubernetesGroupName::new(n)).collect())
}

fn user(name: &str, arn: &str, group_names: &[&str], synced_by: Option<SyncedBy>) -> KubernetesUser {
    KubernetesUser::new(IamUserName::new(name), IamArn::new(arn), groups(group_names), synced_by)
}

fn role(arn: &str, name: &str, group_names: &[&str], synced_by: Option<SyncedBy>) -> KubernetesRole {
    KubernetesRole::new(IamArn::new(arn), Some(name.to_string()), None, groups(group_names), synced_by)
}

fn users(list: Vec<KubernetesUser>) -> KeyedSet<KubernetesUser> {
    KeyedSet::from_vec(list)
}

fn roles(list: Vec<KubernetesRole>) -> KeyedSet<KubernetesRole> {
    KeyedSet::from_vec(list)
}

fn user_facts(set: &KeyedSet<KubernetesUser>) -> Vec<UserFacts> {
    let mut facts: Vec<UserFacts> = set
        .items()
        .iter()
        .map(|u| {
            (
                u.iam_user_name.to_string(),
                u.iam_arn.to_string(),
                u.roles.items().iter().map(|g| g.to_string()).collect(),
                u.synced_by,
            )
        })
        .collect();
    facts.sort_by(|a, b| (&a.0, &a.1).cmp(&(&b.0, &b.1)));
    facts
}

fn role_facts(set: &KeyedSet<KubernetesRole>) -> Vec<RoleFacts> {
    let mut facts: Vec<RoleFacts> = set
        .items()
        .iter()
        .map(|r| {
            (
                r.iam_role_arn.to_string(),
                r.role_name.clone(),
                r.user_name.clone(),
                r.groups.items().iter().map(|g| g.to_string()).collect(),
                r.synced_by,
            )
        })
        .collect();
    facts.sort_by(|a, b| (&a.0, &a.1, &a.2).cmp(&(&b.0, &b.1, &b.2)));
    facts
}

#[test]
fn aws_auth_build_users_test() {
    // setup:
    struct TestCase<'a> {
        existing_users: KeyedSet<KubernetesUser>,
        new_users_to_be_added: KeyedSet<KubernetesUser>,
        expected_users: KeyedSet<KubernetesUser>,
        _description: &'a str,
    }

    let test_cases = vec![
        TestCase {
            existing_users: KeyedSet::new(),
            new_users_to_be_added: KeyedSet::new(),
            expected_users: KeyedSet::new(),
            _description: "case 1: no existing users, no new users",
        },
        TestCase {
            existing_users: KeyedSet::new(),
            new_users_to_be_added: KeyedSet::from_vec(vec![KubernetesUser::new(
                IamUserName::new("user_1"),
                IamArn::new("arn:::::user_1"),
                KeyedSet::from_vec(vec![
                    KubernetesGroupName::new("group_1"),
                    KubernetesGroupName::new("group_2"),
                ]),
                Some(SyncedBy::IamEksUserMapper),
            )]),
            expected_users: KeyedSet::from_vec(vec![KubernetesUser::new(
                IamUserName::new("user_1"),
                IamArn::new("arn:::::user_1"),
                KeyedSet::from_vec(vec![
                    KubernetesGroupName::new("group_1"),
                    KubernetesGroupName::new("group_2"),
                ]),
                Some(SyncedBy::IamEksUserMapper),
            )]),
            _description: "case 2: no existing users, some new users",
        },
        TestCase {
            existing_users: KeyedSet::from_vec(vec![KubernetesUser::new(
                IamUserName::new("user_1"),
                IamArn::new("arn:::::user_1"),
                KeyedSet::from_vec(vec![
                    KubernetesGroupName::new("group_1"),
                    KubernetesGroupName::new("group_2"),
                ]),
                None,
            )]),
            new_users_to_be_added: KeyedSet::new(),
            expected_users: KeyedSet::from_vec(vec![KubernetesUser::new(
                IamUserName::new("user_1"),
                IamArn::new("arn:::::user_1"),
                KeyedSet::from_vec(vec![
                    KubernetesGroupName::new("group_1"),
                    KubernetesGroupName::new("group_2"),
                ]),
                None,
            )]),
            _description: "case 3: existing users, no new users",
        },
        TestCase {
            existing_users: KeyedSet::from_vec(vec![KubernetesUser::new(
                IamUserName::new("user_1"),
                IamArn::new("arn:::::user_1"),
                KeyedSet::from_vec(vec![
                    KubernetesGroupName::new("group_1"),
                    KubernetesGroupName::new("group_2"),
                ]),
                None,
            )]),
            new_users_to_be_added: KeyedSet::from_vec(vec![KubernetesUser::new(
                IamUserName::new("user_2"),
                IamArn::new("arn:::::user_2"),
                KeyedSet::from_vec(vec![
                    KubernetesGroupName::new("group_2"),
                    KubernetesGroupName::new("group_3"),
                ]),
                Some(SyncedBy::IamEksUserMapper),
            )]),
            expected_users: KeyedSet::from_vec(vec![
                KubernetesUser::new(
                    IamUserName::new("user_1"),
                    IamArn::new("arn:::::user_1"),
                    KeyedSet::from_vec(vec![
                        KubernetesGroupName::new("group_1"),
                        KubernetesGroupName::new("group_2"),
                    ]),
                    None,
                ),
                KubernetesUser::new(
                    IamUserName::new("user_2"),
                    IamArn::new("arn:::::user_2"),
                    KeyedSet::from_vec(vec![
                        KubernetesGroupName::new("group_2"),
                        KubernetesGroupName::new("group_3"),
                    ]),
                    Some(SyncedBy::IamEksUserMapper),
                ),
            ]),
            _description: "case 4: existing users, some new users",
        },
        TestCase {
            existing_users: KeyedSet::from_vec(vec![KubernetesUser::new(
                IamUserName::new("user_1"),
                IamArn::new("arn:::::user_1"),
                KeyedSet::from_vec(vec![
                    KubernetesGroupName::new("group_1"),
                    KubernetesGroupName::new("group_2"),
                ]),
                None,
            )]),
            new_users_to_be_added: KeyedSet::from_vec(vec![KubernetesUser::new(
                IamUserName::new("user_1"),
                IamArn::new("arn:::::user_1"),
                KeyedSet::from_vec(vec![
                    KubernetesGroupName::new("group_1"),
                    KubernetesGroupName::new("group_2"),
                ]),
                Some(SyncedBy::IamEksUserMapper),
            )]),
            expected_users: KeyedSet::from_vec(vec![KubernetesUser::new(
                IamUserName::new("user_1"),
                IamArn::new("arn:::::user_1"),
                KeyedSet::from_vec(vec![
                    KubernetesGroupName::new("group_1"),
                    KubernetesGroupName::new("group_2"),
                ]),
                Some(SyncedBy::IamEksUserMapper),
            )]),
            _description: "case 5: existing user without synced by flag, same new user with new synced by field",
        },
    ];

    for tc in test_cases {
        // execute:
        let result = AwsAuthBuilder::new(tc.existing_users, KeyedSet::new())
            .new_synced_users(tc.new_users_to_be_added)
            .build();

        // verify:
        assert_eq!(user_facts(&tc.expected_users), user_facts(&result.users));
    }
}

#[test]
fn aws_auth_build_add_new_synced_users_should_add_synced_field_test() {
    // setup:
    let test_cases: Vec<KeyedSet<KubernetesUser>> = vec![
        KeyedSet::new(),
        KeyedSet::from_vec(vec![
            KubernetesUser::new(
                IamUserName::new("user_1"),
                IamArn::new("arn:::::user_1"),
                KeyedSet::from_vec(vec![
                    KubernetesGroupName::new("group_1"),
                    KubernetesGroupName::new("group_2"),
                ]),
                None,
            ),
            KubernetesUser::new(
                IamUserName::new("user_2"),
                IamArn::new("arn:::::user_2"),
                KeyedSet::from_vec(vec![
                    KubernetesGroupName::new("group_2"),
                    KubernetesGroupName::new("group_3"),
                ]),
                None,
            ),
        ]),
        KeyedSet::from_vec(vec![KubernetesUser::new(
            IamUserName::new("user_2"),
            IamArn::new("arn:::::user_2"),
            KeyedSet::from_vec(vec![
                KubernetesGroupName::new("group_2"),
                KubernetesGroupName::new("group_3"),
            ]),
            Some(SyncedBy::Unknown),
        )]),
        KeyedSet::from_vec(vec![KubernetesUser::new(
            IamUserName::new("user_2"),
            IamArn::new("arn:::::user_2"),
            KeyedSet::from_vec(vec![
                KubernetesGroupName::new("group_2"),
                KubernetesGroupName::new("group_3"),
            ]),
            Some(SyncedBy::IamEksUserMapper),
        )]),
    ];

    for tc in test_cases {
        // execute:
        let result = AwsAuthBuilder::new(KeyedSet::new(), KeyedSet::new())
            .new_synced_users(tc.clone())
            .build();

        // verify:
        assert_eq!(tc.len(), result.users.items().iter().len());
        assert!(result
            .users
            .items()
            .iter()
            .all(|u| u.synced_by == Some(SyncedBy::IamEksUserMapper)));
    }
}

#[test]
fn aws_auth_build_roles_test() {
    // setup:
    struct TestCase<'a> {
        existing_roles: KeyedSet<KubernetesRole>,
        new_roles_to_be_added: KeyedSet<KubernetesRole>,
        expected_roles: KeyedSet<KubernetesRole>,
        _description: &'a str,
    }

    let test_cases = vec![
        TestCase {
            existing_roles: KeyedSet::new(),
            new_roles_to_be_added: KeyedSet::new(),
            expected_roles: KeyedSet::new(),
            _description: "case 1: no existing roles, no new roles",
        },
        TestCase {
            existing_roles: KeyedSet::new(),
            new_roles_to_be_added: KeyedSet::from_vec(vec![KubernetesRole::new(
                IamArn::new("arn:::::role_1"),
                Some("role_1".to_string()),
                None,
                KeyedSet::from_vec(vec![
                    KubernetesGroupName::new("group_1"),
                    KubernetesGroupName::new("group_2"),
                ]),
                Some(SyncedBy::IamEksUserMapper),
            )]),
            expected_roles: KeyedSet::from_vec(vec![KubernetesRole::new(
                IamArn::new("arn:::::role_1"),
                Some("role_1".to_string()),
                None,
                KeyedSet::from_vec(vec![
                    KubernetesGroupName::new("group_1"),
                    KubernetesGroupName::new("group_2"),
                ]),
                Some(SyncedBy::IamEksUserMapper),
            )]),
            _description: "case 2: no existing roles, some new roles",
        },
        TestCase {
            existing_roles: KeyedSet::from_vec(vec![KubernetesRole::new(
                IamArn::new("arn:::::role_1"),
                Some("role_1".to_string()),
                None,
                KeyedSet::from_vec(vec![
                    KubernetesGroupName::new("group_1"),
                    KubernetesGroupName::new("group_2"),
                ]),
                None,
            )]),
            new_roles_to_be_added: KeyedSet::new(),
            expected_roles: KeyedSet::from_vec(vec![KubernetesRole::new(
                IamArn::new("arn:::::role_1"),
                Some("role_1".to_string()),
                None,
                KeyedSet::from_vec(vec![
                    KubernetesGroupName::new("group_1"),
                    KubernetesGroupName::new("group_2"),
                ]),
                None,
            )]),
            _description: "case 3: existing roles, no new roles",
        },
        TestCase {
            existing_roles: KeyedSet::from_vec(vec![KubernetesRole::new(
                IamArn::new("arn:::::role_1"),
                Some("role_1".to_string()),
                None,
                KeyedSet::from_vec(vec![
                    KubernetesGroupName::new("group_1"),
                    KubernetesGroupName::new("group_2"),
                ]),
                None,
            )]),
            new_roles_to_be_added: KeyedSet::from_vec(vec![KubernetesRole::new(
                IamArn::new("arn:::::role_2"),
                Some("role_2".to_string()),
                None,
                KeyedSet::from_vec(vec![
                    KubernetesGroupName::new("group_2"),
                    KubernetesGroupName::new("group_3"),
                ]),
                Some(SyncedBy::IamEksUserMapper),
            )]),
            expected_roles: KeyedSet::from_vec(vec![
                KubernetesRole::new(
                    IamArn::new("arn:::::role_1"),
                    Some("role_1".to_string()),
                    None,
                    KeyedSet::from_vec(vec![
                        KubernetesGroupName::new("group_1"),
                        KubernetesGroupName::new("group_2"),
                    ]),
                    None,
                ),
                KubernetesRole::new(
                    IamArn::new("arn:::::role_2"),
                    Some("role_2".to_string()),
                    None,
                    KeyedSet::from_vec(vec![
                        KubernetesGroupName::new("group_2"),
                        KubernetesGroupName::new("group_3"),
                    ]),
                    Some(SyncedBy::IamEksUserMapper),
                ),
            ]),
            _description: "case 4: existing roles, some new roles",
        },
        TestCase {
            existing_roles: KeyedSet::from_vec(vec![KubernetesRole::new(
                IamArn::new("arn:::::role_1"),
                Some("role_1".to_string()),
                None,
                KeyedSet::from_vec(vec![
                    KubernetesGroupName::new("group_1"),
                    KubernetesGroupName::new("group_2"),
                ]),
                None,
            )]),
            new_roles_to_be_added: KeyedSet::from_vec(vec![KubernetesRole::new(
                IamArn::new("arn:::::role_1"),
                Some("role_1".to_string()),
                None,
                KeyedSet::from_vec(vec![
                    KubernetesGroupName::new("group_1"),
                    KubernetesGroupName::new("group_2"),
                ]),
                Some(SyncedBy::IamEksUserMapper),
            )]),
            expected_roles: KeyedSet::from_vec(vec![KubernetesRole::new(
                IamArn::new("arn:::::role_1"),
                Some("role_1".to_string()),
                None,
                KeyedSet::from_vec(vec![
                    KubernetesGroupName::new("group_1"),
                    KubernetesGroupName::new("group_2"),
                ]),
                Some(SyncedBy::IamEksUserMapper),
            )]),
            _description: "case 5: existing role without synced by flag, same new role with new synced by field",
        },
    ];

    for tc in test_cases {
        // execute:
        let result = AwsAuthBuilder::new(KeyedSet::new(), tc.existing_roles)
            .new_synced_roles(tc.new_roles_to_be_added)
            .build();

        // verify:
        assert_eq!(role_facts(&tc.expected_roles), role_facts(&result.roles));
    }
}

#[test]
fn aws_auth_build_add_new_synced_roles_should_add_synced_field_test() {
    // setup:
    let test_cases: Vec<KeyedSet<KubernetesRole>> = vec![
        KeyedSet::new(),
        KeyedSet::from_vec(vec![
            KubernetesRole::new(
                IamArn::new("arn:::::role_1"),
                Some("role_1".to_string()),
                None,
                KeyedSet::from_vec(vec![
                    KubernetesGroupName::new("group_1"),
                    KubernetesGroupName::new("group_2"),
                ]),
                None,
            ),
            KubernetesRole::new(
                IamArn::new("arn:::::role_2"),
                Some("role_2".to_string()),
                None,
                KeyedSet::from_vec(vec![
                    KubernetesGroupName::new("group_2"),
                    KubernetesGroupName::new("group_3"),
                ]),
                None,
            ),
        ]),
        KeyedSet::from_vec(vec![KubernetesRole::new(
            IamArn::new("arn:::::role_2"),
            Some("role_2".to_string()),
            None,
            KeyedSet::from_vec(vec![
                KubernetesGroupName::new("group_2"),
                KubernetesGroupName::new("group_3"),
            ]),
            Some(SyncedBy::Unknown),
        )]),
        KeyedSet::from_vec(vec![KubernetesRole::new(
            IamArn::new("arn:::::role_2"),
            Some("role_2".to_string()),
            None,
            KeyedSet::from_vec(vec![
                KubernetesGroupName::new("group_2"),
                KubernetesGroupName::new("group_3"),
            ]),
            Some(SyncedBy::IamEksUserMapper),
        )]),
    ];

    for tc in test_cases {
        // execute:
        let result = AwsAuthBuilder::new(KeyedSet::new(), KeyedSet::new())
            .new_synced_roles(tc.clone())
            .build();

        // verify:
        assert_eq!(tc.len(), result.roles.items().iter().len());
        assert!(result
            .roles
            .items()
            .iter()
            .all(|u| u.synced_by == Some(SyncedBy::IamEksUserMapper)));
    }
}

fn document() -> KeyedSet<KubernetesUser> {
    users(vec![
        user("manual", "arn:::::manual", &["ops"], None),
        user("other-tool", "arn:::::other", &["dev"], Some(SyncedBy::Unknown)),
        user("stale", "arn:::::stale", &["old"], Some(SyncedBy::IamEksUserMapper)),
        user("Shared", "ARN:::::Shared", &["hand-made"], None),
    ])
}

fn fresh() -> KeyedSet<KubernetesUser> {
    users(vec![
        user("shared", "arn:::::shared", &["system:masters"], None),
        user("newcomer", "arn:::::newcomer", &["dev", "ops"], Some(SyncedBy::Unknown)),
    ])
}

#[test]
fn reconcile_replaces_what_the_tool_owns() {
    let auth = reconcile(document(), KeyedSet::new(), fresh(), KeyedSet::new());
    assert_eq!(
        user_facts(&auth.users),
        user_facts(&users(vec![
            user("manual", "arn:::::manual", &["ops"], None),
            user("other-tool", "arn:::::other", &["dev"], Some(SyncedBy::Unknown)),
            user("shared", "arn:::::shared", &["system:masters"], Some(SyncedBy::IamEksUserMapper)),
            user("newcomer", "arn:::::newcomer", &["dev", "ops"], Some(SyncedBy::IamEksUserMapper)),
        ]))
    );
    assert!(auth.roles.is_empty());
}

#[test]
fn reconcile_twice_changes_nothing() {
    let once = reconcile(document(), KeyedSet::new(), fresh(), KeyedSet::new());
    let expected = user_facts(&once.users);
    let twice = reconcile(once.users, once.roles, fresh(), KeyedSet::new());
    assert_eq!(expected, user_facts(&twice.users));
    let thrice = reconcile(twice.users, twice.roles, fresh(), KeyedSet::new());
    assert_eq!(expected, user_facts(&thrice.users));
}

#[test]
fn reconcile_keeps_records_of_others() {
    let kept = user("manual", "arn:::::manual", &["ops"], None);
    let auth = reconcile(document(), KeyedSet::new(), fresh(), KeyedSet::new());
    let found = auth.users.get(&kept).expect("the record of another actor stays");
    assert_eq!(found.iam_user_name.to_string(), "manual");
    assert_eq!(found.iam_arn.to_string(), "arn:::::manual");
    assert_eq!(found.synced_by, None);
    let names: Vec<String> = found.roles.items().iter().map(|g| g.to_string()).collect();
    assert_eq!(names, vec!["ops".to_string()]);
}

#[test]
fn reconcile_drops_stale_records_of_the_tool() {
    let stale = user("stale", "arn:::::stale", &[], None);
    assert!(document().contains(&stale));
    let auth = reconcile(document(), KeyedSet::new(), fresh(), KeyedSet::new());
    assert!(!auth.users.contains(&stale));
    let auth = reconcile(document(), KeyedSet::new(), KeyedSet::new(), KeyedSet::new());
    assert!(!auth.users.contains(&stale));
    assert_eq!(auth.users.len(), 3);
}

#[test]
fn reconcile_never_leaves_two_records_for_one_identity() {
    let auth = reconcile(document(), KeyedSet::new(), fresh(), KeyedSet::new());
    let mut identities: Vec<(String, String)> = auth
        .users
        .items()
        .iter()
        .map(|u| (u.iam_arn.to_string().to_lowercase(), u.iam_user_name.to_string().to_lowercase()))
        .collect();
    let count = identities.len();
    identities.sort();
    identities.dedup();
    assert_eq!(count, identities.len());
    assert_eq!(count, 4);
}

#[test]
fn identity_ignores_case_groups_and_tag() {
    let mut set: KeyedSet<KubernetesUser> = KeyedSet::new();
    assert!(set.insert(user("Alice", "arn:aws:iam::1:user/Alice", &["a"], None)));
    assert!(!set.insert(user(
        "ALICE",
        "ARN:AWS:IAM::1:USER/ALICE",
        &["b"],
        Some(SyncedBy::IamEksUserMapper)
    )));
    assert!(set.insert(user("Alice", "arn:aws:iam::2:user/Alice", &["a"], None)));
    assert!(set.insert(user("Alicia", "arn:aws:iam::1:user/Alice", &["a"], None)));
    assert_eq!(set.len(), 3);
    let kept = set.get(&user("alice", "arn:aws:iam::1:user/alice", &[], None)).unwrap();
    assert_eq!(kept.iam_user_name.to_string(), "Alice");

    assert!(user("Alice", "arn:a", &["x"], None) == user("aLICE", "ARN:A", &[], Some(SyncedBy::Unknown)));
    assert!(user("Alice", "arn:a", &["x"], None) != user("Alice", "arn:b", &["x"], None));
    assert!(user("Alice", "arn:a", &["x"], None) != user("Alicia", "arn:a", &["x"], None));
    assert!(role("arn:r", "R", &["x"], None) == role("ARN:R", "r", &[], Some(SyncedBy::Unknown)));
    assert!(role("arn:r", "R", &["x"], None) != role("arn:r", "S", &["x"], None));
}

#[test]
fn role_identity_tells_labels_apart() {
    let named = KubernetesRole::new(IamArn::new("arn:r"), Some("x".to_string()), None, groups(&[]), None);
    let bound = KubernetesRole::new(IamArn::new("arn:r"), None, Some("x".to_string()), groups(&[]), None);
    let bare = KubernetesRole::new(IamArn::new("ARN:R"), None, None, groups(&[]), None);
    let shouted = KubernetesRole::new(IamArn::new("Arn:R"), Some("X".to_string()), None, groups(&["g"]), None);
    let mut set: KeyedSet<KubernetesRole> = KeyedSet::new();
    assert!(set.insert(named));
    assert!(set.insert(bound));
    assert!(set.insert(bare));
    assert!(!set.insert(shouted));
    assert_eq!(set.len(), 3);
}

#[test]
fn builder_steps() {
    let kept = keep_foreign(document());
    assert_eq!(kept.len(), 3);
    let owned = claim_all(fresh());
    assert!(owned.items().iter().all(|u| u.synced_by == Some(SyncedBy::IamEksUserMapper)));
    let merged = overlay(&kept, &owned);
    assert_eq!(merged.len(), 4);

    let auth = AwsAuth { users: document(), roles: roles(vec![role("arn:r", "r", &["g"], None)]) };
    let untouched = AwsAuthBuilder::from_aws_auth(auth).build();
    assert_eq!(user_facts(&untouched.users), user_facts(&document()));
    assert_eq!(untouched.roles.len(), 1);
}

#[test]
fn synced_from_sets_the_tag_only() {
    let u = KubernetesUser::new_synced_from(user("a", "arn:a", &["g"], None), SyncedBy::Unknown);
    assert_eq!(u.synced_by, Some(SyncedBy::Unknown));
    assert_eq!(u.iam_user_name, IamUserName::new("a"));
    assert_eq!(u.iam_arn, IamArn::new("arn:a"));
    assert_eq!(u.roles.len(), 1);
    let r = KubernetesRole::new_synced_from(role("arn:r", "r", &["g"], None), SyncedBy::IamEksUserMapper);
    assert_eq!(r.synced_by, Some(SyncedBy::IamEksUserMapper));
    assert_eq!(r.role_name, Some("r".to_string()));
    assert_eq!(r.user_name, None);
}
