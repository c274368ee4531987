//! From the groups of the identity source to the groups of the cluster.

use crate::aws::iam::{lemma_iam_group_names, IamGroup};
use crate::config::IamK8sGroup;
use crate::keyed::{views, KeyedSet};
use crate::kubernetes::KubernetesGroupName;
use crate::text::lemma_to_set_push;
use vstd::prelude::*;

verus! {

/// The table that a list of rules stands for, from the name of a source group
/// to the name of its target group. Where two rules name the same source
/// group, the later one counts.
pub open spec fn rule_table(rules: Seq<IamK8sGroup>) -> Map<Seq<char>, Seq<char>>
    decreases rules.len(),
{
    if rules.len() == 0 {
        Map::empty()
    } else {
        rule_table(rules.drop_last()).insert(rules.last().iam_group@, rules.last().k8s_group@)
    }
}

/// The target groups of a list of source groups, in a table that maps them all.
pub open spec fn targets_of_list(table: Map<Seq<char>, Seq<char>>, sources: Seq<Seq<char>>) -> Set<
    Seq<char>,
>
    decreases sources.len(),
{
    if sources.len() == 0 {
        Set::empty()
    } else {
        targets_of_list(table, sources.drop_last()).insert(table[sources.last()])
    }
}

/// The target groups of a set of source groups.
pub open spec fn targets(table: Map<Seq<char>, Seq<char>>, sources: Set<Seq<char>>) -> Set<
    Seq<char>,
> {
    Set::new(|t: Seq<char>| exists|g: Seq<char>| sources.contains(g) && #[trigger] table[g] == t)
}

/// The targets of a list are the targets of the set of its entries.
pub proof fn lemma_targets_of_list(table: Map<Seq<char>, Seq<char>>, sources: Seq<Seq<char>>)
    ensures
        targets_of_list(table, sources) == targets(table, sources.to_set()),
    decreases sources.len(),
{
    if sources.len() == 0 {
        assert(targets_of_list(table, sources) =~= targets(table, sources.to_set()));
    } else {
        let p = sources.drop_last();
        lemma_targets_of_list(table, p);
        assert(p.push(sources.last()) =~= sources);
        lemma_to_set_push(p, sources.last());
        assert forall|t: Seq<char>|
            targets_of_list(table, sources).contains(t) == targets(
                table,
                sources.to_set(),
            ).contains(t) by {
            if targets(table, sources.to_set()).contains(t) {
                let g = choose|g: Seq<char>|
                    sources.to_set().contains(g) && #[trigger] table[g] == t;
                if g != sources.last() {
                    assert(p.to_set().contains(g));
                    assert(targets(table, p.to_set()).contains(t));
                }
            }
            if targets_of_list(table, p).contains(t) {
                assert(targets(table, p.to_set()).contains(t));
                let g = choose|g: Seq<char>| p.to_set().contains(g) && #[trigger] table[g] == t;
                assert(sources.to_set().contains(g));
            }
            if t == table[sources.last()] {
                assert(sources.to_set().contains(sources.last()));
            }
        }
        assert(targets_of_list(table, sources) =~= targets(table, sources.to_set()));
    }
}

/// What the table holds for a group, by the last rule that names it.
proof fn lemma_rule_table(rules: Seq<IamK8sGroup>, group: Seq<char>, i: int)
    requires
        -1 <= i < rules.len(),
        i >= 0 ==> rules[i].iam_group@ == group,
        forall|j: int| i < j < rules.len() ==> rules[j].iam_group@ != group,
    ensures
        i >= 0 ==> rule_table(rules).contains_key(group) && rule_table(rules)[group]
            == rules[i].k8s_group@,
        i < 0 ==> !rule_table(rules).contains_key(group),
    decreases rules.len(),
{
    if rules.len() > 0 && i < rules.len() - 1 {
        let p = rules.drop_last();
        assert forall|j: int| i < j < p.len() implies p[j].iam_group@ != group by {
            assert(p[j] == rules[j]);
        }
        if i >= 0 {
            assert(p[i] == rules[i]);
        }
        lemma_rule_table(p, group, i);
    }
}

/// The rules by which groups of the identity source become groups of the cluster.
#[derive(Debug)]
pub struct GroupsMappings {
    rules: Vec<IamK8sGroup>,
}

impl View for GroupsMappings {
    type V = Map<Seq<char>, Seq<char>>;

    closed spec fn view(&self) -> Map<Seq<char>, Seq<char>> {
        rule_table(self.rules@)
    }
}

impl GroupsMappings {
    /// The mappings that a list of rules gives. Of two rules for the same
    /// source group the later one counts.
    pub fn new(iam_k8s_groups: Vec<IamK8sGroup>) -> (m: GroupsMappings)
        ensures
            m@ == rule_table(iam_k8s_groups@),
    {
        GroupsMappings { rules: iam_k8s_groups }
    }

    /// The source groups that have a rule.
    pub fn iam_groups(&self) -> (groups: KeyedSet<IamGroup>)
        ensures
            groups@.dom() == self@.dom(),
    {
        let mut groups: KeyedSet<IamGroup> = KeyedSet::new();
        let mut i: usize = 0;
        assert(groups@.dom() =~= rule_table(self.rules@.take(0)).dom());
        while i < self.rules.len()
            invariant
                i <= self.rules.len(),
                groups@.dom() == rule_table(self.rules@.take(i as int)).dom(),
            decreases self.rules.len() - i,
        {
            let group = self.rules[i].iam_group.clone();
            proof {
                assert(self.rules@.take(i + 1).drop_last() =~= self.rules@.take(i as int));
                assert(self.rules@.take(i + 1).last() == self.rules@[i as int]);
            }
            let ghost before = groups@;
            groups.insert(group);
            assert(groups@.dom() =~= before.dom().insert(group@));
            assert(rule_table(self.rules@.take(i + 1)).dom() =~= rule_table(
                self.rules@.take(i as int),
            ).dom().insert(group@));
            i += 1;
        }
        assert(self.rules@.take(self.rules.len() as int) =~= self.rules@);
        groups
    }

    /// The target group of a source group, if a rule names the source group.
    pub fn lookup(&self, group: &IamGroup) -> (r: Option<&KubernetesGroupName>)
        ensures
            match r {
                Some(target) => self@.contains_key(group@) && target@ == self@[group@],
                None => !self@.contains_key(group@),
            },
    {
        let mut i: usize = self.rules.len();
        while i > 0
            invariant
                i <= self.rules.len(),
                forall|j: int| i <= j < self.rules.len() ==> self.rules@[j].iam_group@ != group@,
            decreases i,
        {
            i -= 1;
            if self.rules[i].iam_group.same_name(group) {
                proof {
                    lemma_rule_table(self.rules@, group@, i as int);
                }
                return Some(&self.rules[i].k8s_group);
            }
        }
        proof {
            lemma_rule_table(self.rules@, group@, -1);
        }
        None
    }

    /// The target groups of a set of source groups, or a source group of the
    /// set that no rule names.
    pub fn targets_of(&self, iam_groups: &KeyedSet<IamGroup>) -> (r: Result<
        KeyedSet<KubernetesGroupName>,
        IamGroup,
    >)
        ensures
            match r {
                Ok(k8s_groups) => iam_groups@.dom().subset_of(self@.dom()) && k8s_groups@.dom()
                    == targets(self@, iam_groups@.dom()),
                Err(group) => iam_groups@.contains_key(group@) && !self@.contains_key(group@),
            },
    {
        let mut k8s_groups: KeyedSet<KubernetesGroupName> = KeyedSet::new();
        let sources = iam_groups.items();
        let ghost names = iam_groups.entries();
        proof {
            lemma_iam_group_names(names);
        }
        let mut i: usize = 0;
        assert(k8s_groups@.dom() =~= targets_of_list(self@, names.take(0)));
        while i < sources.len()
            invariant
                i <= sources.len(),
                names == views(sources@),
                iam_groups@.dom() == names.to_set(),
                forall|j: int| 0 <= j < i ==> self@.contains_key(names[j]),
                k8s_groups@.dom() == targets_of_list(self@, names.take(i as int)),
            decreases sources.len() - i,
        {
            assert(names[i as int] == sources[i as int]@);
            match self.lookup(&sources[i]) {
                Some(target) => {
                    proof {
                        assert(names.take(i + 1).drop_last() =~= names.take(i as int));
                        assert(names.take(i + 1).last() == names[i as int]);
                    }
                    let ghost before = k8s_groups@;
                    let group = target.clone();
                    k8s_groups.insert(group);
                    assert(k8s_groups@.dom() =~= before.dom().insert(group@));
                },
                None => {
                    assert(names.to_set().contains(names[i as int]));
                    return Err(sources[i].clone());
                },
            }
            i += 1;
        }
        proof {
            assert(names.take(sources.len() as int) =~= names);
            lemma_targets_of_list(self@, names);
            assert forall|g: Seq<char>| iam_groups@.dom().contains(g) implies self@.dom().contains(
                g,
            ) by {
                let j = choose|j: int| 0 <= j < names.len() && names[j] == g;
                assert(self@.contains_key(names[j]));
            }
        }
        Ok(k8s_groups)
    }

    /// The target groups of a set of source groups, each of which has a rule.
    pub fn k8s_group_for(&self, iam_groups: KeyedSet<IamGroup>) -> (k8s_groups: KeyedSet<
        KubernetesGroupName,
    >)
        requires
            iam_groups@.dom().subset_of(self@.dom()),
        ensures
            k8s_groups@.dom() == targets(self@, iam_groups@.dom()),
    {
        match self.targets_of(&iam_groups) {
            Ok(k8s_groups) => k8s_groups,
            Err(group) => {
                assert(self@.dom().contains(group@));
                KeyedSet::new()
            },
        }
    }
}

} // verus!
