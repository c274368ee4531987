//! The records of the authentication document, as values of its text format.
//!
//! The document holds each list of records as structured text. Turning text
//! into a [`Node`] and back is left to a parser of that format; what a node
//! must look like to be a list of records, and which node a list of records
//! becomes, is decided here.

use crate::kubernetes::{
    label_view, KubernetesError, MapRoleConfig, MapUserConfig, RoleView, SyncedBy, UserView,
};
use crate::keyed::views;
use crate::text::{decimal, decimal_text, texts};
use vstd::prelude::*;

verus! {

/// A value of the document's text format.
#[derive(Debug)]
pub enum Node {
    /// No value: the empty document, or a key without a value.
    Null,
    /// A scalar.
    Text(String),
    /// A sequence.
    List(Vec<Node>),
    /// A mapping whose keys are scalars, in the order of the text.
    Fields(Vec<(String, Node)>),
    /// Anything else.
    Other,
}

/// The value under a key of a mapping. Of two entries with the same key the
/// first counts.
pub open spec fn field_of(fields: Seq<(String, Node)>, key: Seq<char>) -> Option<Node>
    decreases fields.len(),
{
    if fields.len() == 0 {
        None
    } else if fields[0].0@ == key {
        Some(fields[0].1)
    } else {
        field_of(fields.drop_first(), key)
    }
}

/// The text of a scalar.
pub open spec fn text_of(node: Node) -> Option<Seq<char>> {
    match node {
        Node::Text(s) => Some(s@),
        _ => None,
    }
}

/// The texts that a list of scalars holds.
pub open spec fn scalars(items: Seq<Node>) -> Seq<Seq<char>> {
    Seq::new(items.len(), |i: int| text_of(items[i]).unwrap())
}

/// The texts of a sequence of scalars. No value is the empty sequence.
pub open spec fn texts_of(node: Node) -> Option<Seq<Seq<char>>> {
    match node {
        Node::Null => Some(Seq::empty()),
        Node::List(items) => if forall|i: int|
            0 <= i < items@.len() ==> #[trigger] items@[i] is Text {
            Some(scalars(items@))
        } else {
            None
        },
        _ => None,
    }
}

/// The text under a key that a record must have.
pub open spec fn required_text(fields: Seq<(String, Node)>, key: Seq<char>) -> Option<Seq<char>> {
    match field_of(fields, key) {
        Some(node) => text_of(node),
        None => None,
    }
}

/// The texts under a key that a record must have.
pub open spec fn required_texts(fields: Seq<(String, Node)>, key: Seq<char>) -> Option<
    Seq<Seq<char>>,
> {
    match field_of(fields, key) {
        Some(node) => texts_of(node),
        None => None,
    }
}

/// The text under a key that a record may lack: no text where the key is
/// missing or has no value, and no answer where the value is no scalar.
pub open spec fn optional_text(fields: Seq<(String, Node)>, key: Seq<char>) -> Option<
    Option<Seq<char>>,
> {
    match field_of(fields, key) {
        None => Some(None),
        Some(Node::Null) => Some(None),
        Some(Node::Text(s)) => Some(Some(s@)),
        Some(_) => None,
    }
}

/// The ownership tag of a record. A record without `syncedBy`, or with no
/// value under it, has none. Any other value is a tag: this tool's where it is
/// the tool's label, and `Unknown` whatever else it is.
pub open spec fn tag_of(fields: Seq<(String, Node)>) -> Option<SyncedBy> {
    match field_of(fields, "syncedBy"@) {
        None => None,
        Some(Node::Null) => None,
        Some(Node::Text(s)) => Some(SyncedBy::of_label(s@)),
        Some(_) => Some(SyncedBy::Unknown),
    }
}

/// The user that a node describes, if it describes one: a mapping with the
/// texts `userarn` and `username` and the list of texts `groups`. Other keys
/// are passed over.
pub open spec fn user_of(node: Node) -> Option<UserView> {
    match node {
        Node::Fields(fields) => match (
            required_text(fields@, "userarn"@),
            required_text(fields@, "username"@),
            required_texts(fields@, "groups"@),
        ) {
            (Some(arn), Some(name), Some(groups)) => Some(
                UserView { name, arn, groups: groups.to_set(), synced_by: tag_of(fields@) },
            ),
            _ => None,
        },
        _ => None,
    }
}

/// The role that a node describes, if it describes one: a mapping with the
/// text `rolearn` and the list of texts `groups`, and with texts under
/// `rolename` and `username` where it has these keys. Other keys are passed
/// over.
pub open spec fn role_of(node: Node) -> Option<RoleView> {
    match node {
        Node::Fields(fields) => match (
            required_text(fields@, "rolearn"@),
            optional_text(fields@, "rolename"@),
            optional_text(fields@, "username"@),
            required_texts(fields@, "groups"@),
        ) {
            (Some(arn), Some(role_name), Some(user_name), Some(groups)) => Some(
                RoleView {
                    arn,
                    role_name,
                    user_name,
                    groups: groups.to_set(),
                    synced_by: tag_of(fields@),
                },
            ),
            _ => None,
        },
        _ => None,
    }
}

/// The items of a node that holds a list of records. No value is the empty list.
pub open spec fn items_of(node: Node) -> Option<Seq<Node>> {
    match node {
        Node::Null => Some(Seq::empty()),
        Node::List(items) => Some(items@),
        _ => None,
    }
}

/// What is said of the item at `index` that is no record.
pub open spec fn bad_record_message(index: nat) -> Seq<char> {
    "item "@ + decimal_text(index)
        + " is no record: it lacks a field or holds a value of the wrong kind"@
}

/// Why a node is no list of records.
#[derive(Debug, PartialEq, Eq)]
pub enum DocumentFault {
    /// The node is no sequence.
    NotAList,
    /// The item at `index` is the first that is no record.
    BadRecord { index: usize },
}

impl DocumentFault {
    /// The message of the fault. It names the item at fault by its place in
    /// the list, counted from 0.
    pub open spec fn message(&self) -> Seq<char> {
        match self {
            DocumentFault::NotAList => "a list of records was expected"@,
            DocumentFault::BadRecord { index } => bad_record_message(*index as nat),
        }
    }

    /// Writes the fault out as its message.
    pub fn to_string(&self) -> (s: String)
        ensures
            s@ == self.message(),
    {
        match self {
            DocumentFault::NotAList => String::from_str("a list of records was expected"),
            DocumentFault::BadRecord { index } => String::from_str("item ").concat(
                decimal(*index).as_str(),
            ).concat(" is no record: it lacks a field or holds a value of the wrong kind"),
        }
    }
}

/// Finds the value under a key of a mapping.
pub fn find_field<'a>(fields: &'a Vec<(String, Node)>, key: &str) -> (r: Option<&'a Node>)
    ensures
        match r {
            Some(node) => field_of(fields@, key@) == Some(*node),
            None => field_of(fields@, key@) is None,
        },
{
    let wanted = key.to_owned();
    let mut i: usize = 0;
    assert(fields@.skip(0) =~= fields@);
    while i < fields.len()
        invariant
            i <= fields.len(),
            wanted@ == key@,
            field_of(fields@, key@) == field_of(fields@.skip(i as int), key@),
        decreases fields.len() - i,
    {
        assert(fields@.skip(i as int).drop_first() =~= fields@.skip(i + 1));
        assert(fields@.skip(i as int)[0] == fields@[i as int]);
        if fields[i].0 == wanted {
            return Some(&fields[i].1);
        }
        i += 1;
    }
    None
}

fn text_value(node: &Node) -> (r: Option<String>)
    ensures
        match r {
            Some(s) => text_of(*node) == Some(s@),
            None => text_of(*node) is None,
        },
{
    match node {
        Node::Text(s) => Some(s.clone()),
        _ => None,
    }
}

fn text_list(node: &Node) -> (r: Option<Vec<String>>)
    ensures
        match r {
            Some(list) => texts_of(*node) == Some(texts(list@)),
            None => texts_of(*node) is None,
        },
{
    match node {
        Node::Null => {
            let list: Vec<String> = Vec::new();
            assert(texts(list@) =~= Seq::<Seq<char>>::empty());
            Some(list)
        },
        Node::List(items) => {
            let mut list: Vec<String> = Vec::new();
            let mut i: usize = 0;
            while i < items.len()
                invariant
                    i <= items.len(),
                    *node == Node::List(*items),
                    list.len() == i,
                    forall|j: int| 0 <= j < i ==> #[trigger] items@[j] is Text,
                    forall|j: int| 0 <= j < i ==> text_of(items@[j]) == Some(#[trigger] list@[j]@),
                decreases items.len() - i,
            {
                match text_value(&items[i]) {
                    Some(s) => {
                        list.push(s);
                    },
                    None => {
                        assert(!(items@[i as int] is Text));
                        return None;
                    },
                }
                i += 1;
            }
            assert(texts(list@) =~= scalars(items@));
            Some(list)
        },
        _ => None,
    }
}

fn required_text_value(fields: &Vec<(String, Node)>, key: &str) -> (r: Option<String>)
    ensures
        match r {
            Some(s) => required_text(fields@, key@) == Some(s@),
            None => required_text(fields@, key@) is None,
        },
{
    match find_field(fields, key) {
        Some(node) => text_value(node),
        None => None,
    }
}

fn required_text_list(fields: &Vec<(String, Node)>, key: &str) -> (r: Option<Vec<String>>)
    ensures
        match r {
            Some(list) => required_texts(fields@, key@) == Some(texts(list@)),
            None => required_texts(fields@, key@) is None,
        },
{
    match find_field(fields, key) {
        Some(node) => text_list(node),
        None => None,
    }
}

fn optional_text_value(fields: &Vec<(String, Node)>, key: &str) -> (r: Option<Option<String>>)
    ensures
        match r {
            Some(label) => optional_text(fields@, key@) == Some(label_view(label)),
            None => optional_text(fields@, key@) is None,
        },
{
    match find_field(fields, key) {
        None => Some(None),
        Some(Node::Null) => Some(None),
        Some(Node::Text(s)) => Some(Some(s.clone())),
        Some(_) => None,
    }
}

fn tag_value(fields: &Vec<(String, Node)>) -> (r: Option<SyncedBy>)
    ensures
        r == tag_of(fields@),
{
    match find_field(fields, "syncedBy") {
        None => None,
        Some(Node::Null) => None,
        Some(Node::Text(s)) => Some(SyncedBy::from_label(s.as_str())),
        Some(_) => Some(SyncedBy::Unknown),
    }
}

/// Reads one user record.
pub fn user_of_node(node: &Node) -> (r: Option<MapUserConfig>)
    ensures
        match r {
            Some(record) => user_of(*node) == Some(record@),
            None => user_of(*node) is None,
        },
{
    match node {
        Node::Fields(fields) => {
            let user_arn = match required_text_value(fields, "userarn") {
                Some(s) => s,
                None => {
                    return None;
                },
            };
            let username = match required_text_value(fields, "username") {
                Some(s) => s,
                None => {
                    return None;
                },
            };
            let groups = match required_text_list(fields, "groups") {
                Some(list) => list,
                None => {
                    return None;
                },
            };
            Some(MapUserConfig { user_arn, username, groups, synced_by: tag_value(fields) })
        },
        _ => None,
    }
}

/// Reads one role record.
pub fn role_of_node(node: &Node) -> (r: Option<MapRoleConfig>)
    ensures
        match r {
            Some(record) => role_of(*node) == Some(record@),
            None => role_of(*node) is None,
        },
{
    match node {
        Node::Fields(fields) => {
            let role_arn = match required_text_value(fields, "rolearn") {
                Some(s) => s,
                None => {
                    return None;
                },
            };
            let rolename = match optional_text_value(fields, "rolename") {
                Some(label) => label,
                None => {
                    return None;
                },
            };
            let username = match optional_text_value(fields, "username") {
                Some(label) => label,
                None => {
                    return None;
                },
            };
            let groups = match required_text_list(fields, "groups") {
                Some(list) => list,
                None => {
                    return None;
                },
            };
            Some(
                MapRoleConfig {
                    role_arn,
                    rolename,
                    username,
                    groups,
                    synced_by: tag_value(fields),
                },
            )
        },
        _ => None,
    }
}

/// The records say what the items say, one for one.
pub open spec fn users_say(records: Seq<UserView>, items: Seq<Node>) -> bool {
    &&& records.len() == items.len()
    &&& forall|i: int| 0 <= i < items.len() ==> user_of(#[trigger] items[i]) == Some(records[i])
}

/// The records say what the items say, one for one.
pub open spec fn roles_say(records: Seq<RoleView>, items: Seq<Node>) -> bool {
    &&& records.len() == items.len()
    &&& forall|i: int| 0 <= i < items.len() ==> role_of(#[trigger] items[i]) == Some(records[i])
}

/// Reads the list of the document's users. Every item must be a record: one
/// that is none fails the whole list.
pub fn decode_users(node: &Node) -> (r: Result<Vec<MapUserConfig>, DocumentFault>)
    ensures
        match r {
            Ok(records) => items_of(*node) matches Some(items) && users_say(
                views(records@),
                items,
            ),
            Err(DocumentFault::NotAList) => items_of(*node) is None,
            Err(DocumentFault::BadRecord { index }) => {
                &&& items_of(*node) matches Some(items)
                &&& index < items.len()
                &&& user_of(items[index as int]) is None
                &&& forall|j: int| 0 <= j < index ==> user_of(#[trigger] items[j]) is Some
            },
        },
{
    let mut records: Vec<MapUserConfig> = Vec::new();
    match node {
        Node::Null => Ok(records),
        Node::List(items) => {
            let mut i: usize = 0;
            while i < items.len()
                invariant
                    i <= items.len(),
                    *node == Node::List(*items),
                    users_say(views(records@), items@.take(i as int)),
                decreases items.len() - i,
            {
                match user_of_node(&items[i]) {
                    Some(record) => {
                        proof {
                            let done = views(records@.push(record));
                            assert forall|j: int| 0 <= j < i + 1 implies user_of(
                                #[trigger] items@.take(i + 1)[j],
                            ) == Some(done[j]) by {
                                if j < i {
                                    assert(items@.take(i as int)[j] == items@.take(i + 1)[j]);
                                    assert(done[j] == views(records@)[j]);
                                }
                            }
                        }
                        records.push(record);
                    },
                    None => {
                        proof {
                            assert forall|j: int| 0 <= j < i implies user_of(#[trigger] items@[j])
                                is Some by {
                                assert(items@.take(i as int)[j] == items@[j]);
                            }
                        }
                        return Err(DocumentFault::BadRecord { index: i });
                    },
                }
                i += 1;
            }
            assert(items@.take(items.len() as int) =~= items@);
            Ok(records)
        },
        _ => Err(DocumentFault::NotAList),
    }
}

/// Reads the list of the document's roles. Every item must be a record: one
/// that is none fails the whole list.
pub fn decode_roles(node: &Node) -> (r: Result<Vec<MapRoleConfig>, DocumentFault>)
    ensures
        match r {
            Ok(records) => items_of(*node) matches Some(items) && roles_say(
                views(records@),
                items,
            ),
            Err(DocumentFault::NotAList) => items_of(*node) is None,
            Err(DocumentFault::BadRecord { index }) => {
                &&& items_of(*node) matches Some(items)
                &&& index < items.len()
                &&& role_of(items[index as int]) is None
                &&& forall|j: int| 0 <= j < index ==> role_of(#[trigger] items[j]) is Some
            },
        },
{
    let mut records: Vec<MapRoleConfig> = Vec::new();
    match node {
        Node::Null => Ok(records),
        Node::List(items) => {
            let mut i: usize = 0;
            while i < items.len()
                invariant
                    i <= items.len(),
                    *node == Node::List(*items),
                    roles_say(views(records@), items@.take(i as int)),
                decreases items.len() - i,
            {
                match role_of_node(&items[i]) {
                    Some(record) => {
                        proof {
                            let done = views(records@.push(record));
                            assert forall|j: int| 0 <= j < i + 1 implies role_of(
                                #[trigger] items@.take(i + 1)[j],
                            ) == Some(done[j]) by {
                                if j < i {
                                    assert(items@.take(i as int)[j] == items@.take(i + 1)[j]);
                                    assert(done[j] == views(records@)[j]);
                                }
                            }
                        }
                        records.push(record);
                    },
                    None => {
                        proof {
                            assert forall|j: int| 0 <= j < i implies role_of(#[trigger] items@[j])
                                is Some by {
                                assert(items@.take(i as int)[j] == items@[j]);
                            }
                        }
                        return Err(DocumentFault::BadRecord { index: i });
                    },
                }
                i += 1;
            }
            assert(items@.take(items.len() as int) =~= items@);
            Ok(records)
        },
        _ => Err(DocumentFault::NotAList),
    }
}

/// The keys of a mapping, in order.
pub open spec fn keys_of(fields: Seq<(String, Node)>) -> Seq<Seq<char>> {
    Seq::new(fields.len(), |i: int| fields[i].0@)
}

/// The keys of a user record: `syncedBy` is left out where the user has no tag.
pub open spec fn user_keys(tag: Option<SyncedBy>) -> Seq<Seq<char>> {
    let always = seq!["userarn"@, "username"@, "groups"@];
    if tag is Some {
        always.push("syncedBy"@)
    } else {
        always
    }
}

/// The keys of a role record: `rolename`, `username` and `syncedBy` are left
/// out where the role has none.
pub open spec fn role_keys(role: RoleView) -> Seq<Seq<char>> {
    let arn = seq!["rolearn"@];
    let role_name = if role.role_name is Some {
        arn.push("rolename"@)
    } else {
        arn
    };
    let user_name = if role.user_name is Some {
        role_name.push("username"@)
    } else {
        role_name
    };
    let groups = user_name.push("groups"@);
    if role.synced_by is Some {
        groups.push("syncedBy"@)
    } else {
        groups
    }
}

/// A label is written as a text under its key, and a missing label as no key.
pub open spec fn label_written(
    fields: Seq<(String, Node)>,
    key: Seq<char>,
    label: Option<Seq<char>>,
) -> bool {
    match label {
        Some(text) => field_of(fields, key) matches Some(Node::Text(s)) && s@ == text,
        None => field_of(fields, key) is None,
    }
}

/// The groups are written under `groups` as a sequence of texts, one for
/// each group and in the same order.
pub open spec fn groups_written(fields: Seq<(String, Node)>, groups: Seq<Seq<char>>) -> bool {
    field_of(fields, "groups"@) matches Some(node) && node is List && texts_of(node) == Some(
        groups,
    )
}

/// The tag is written under `syncedBy` as its label, and no tag as no key.
pub open spec fn tag_written(fields: Seq<(String, Node)>, tag: Option<SyncedBy>) -> bool {
    match tag {
        Some(t) => label_written(fields, "syncedBy"@, Some(t.label_of())),
        None => label_written(fields, "syncedBy"@, None),
    }
}

/// The node is the written form of the user record: a mapping with the keys
/// of `user_keys` and no others, in that order, and under each key the
/// record's value.
pub open spec fn writes_user(node: Node, record: MapUserConfig) -> bool {
    &&& node matches Node::Fields(fields)
    &&& keys_of(fields@) == user_keys(record.synced_by)
    &&& label_written(fields@, "userarn"@, Some(record.user_arn@))
    &&& label_written(fields@, "username"@, Some(record.username@))
    &&& groups_written(fields@, texts(record.groups@))
    &&& tag_written(fields@, record.synced_by)
}

/// The node is the written form of the role record: a mapping with the keys
/// of `role_keys` and no others, in that order, and under each key the
/// record's value.
pub open spec fn writes_role(node: Node, record: MapRoleConfig) -> bool {
    &&& node matches Node::Fields(fields)
    &&& keys_of(fields@) == role_keys(record@)
    &&& label_written(fields@, "rolearn"@, Some(record.role_arn@))
    &&& label_written(fields@, "rolename"@, label_view(record.rolename))
    &&& label_written(fields@, "username"@, label_view(record.username))
    &&& groups_written(fields@, texts(record.groups@))
    &&& tag_written(fields@, record.synced_by)
}

/// The items are the written forms of the records, one for one.
pub open spec fn write_users(items: Seq<Node>, records: Seq<MapUserConfig>) -> bool {
    &&& items.len() == records.len()
    &&& forall|i: int| 0 <= i < items.len() ==> writes_user(#[trigger] items[i], records[i])
}

/// The items are the written forms of the records, one for one.
pub open spec fn write_roles(items: Seq<Node>, records: Seq<MapRoleConfig>) -> bool {
    &&& items.len() == records.len()
    &&& forall|i: int| 0 <= i < items.len() ==> writes_role(#[trigger] items[i], records[i])
}

/// The written form of a user record is read back as the same user.
pub proof fn lemma_written_user_reads_back(node: Node, record: MapUserConfig)
    requires
        writes_user(node, record),
    ensures
        user_of(node) == Some(record@),
{
    if record.synced_by is Some {
        record.synced_by.unwrap().lemma_label_read_back();
    }
}

/// The written form of a role record is read back as the same role.
pub proof fn lemma_written_role_reads_back(node: Node, record: MapRoleConfig)
    requires
        writes_role(node, record),
    ensures
        role_of(node) == Some(record@),
{
    if record.synced_by is Some {
        record.synced_by.unwrap().lemma_label_read_back();
    }
}

fn text_node(s: &String) -> (node: Node)
    ensures
        node matches Node::Text(t) && t@ == s@,
{
    Node::Text(s.clone())
}

fn texts_node(list: &Vec<String>) -> (node: Node)
    ensures
        texts_of(node) == Some(texts(list@)),
        node is List,
{
    let mut items: Vec<Node> = Vec::new();
    let mut i: usize = 0;
    while i < list.len()
        invariant
            i <= list.len(),
            items.len() == i,
            forall|j: int| 0 <= j < i ==> text_of(#[trigger] items@[j]) == Some(list@[j]@),
        decreases list.len() - i,
    {
        items.push(text_node(&list[i]));
        i += 1;
    }
    let node = Node::List(items);
    assert(forall|j: int| 0 <= j < items@.len() ==> #[trigger] items@[j] is Text);
    assert(scalars(items@) =~= texts(list@));
    node
}

/// One more entry, under a key that differs from `key`, changes nothing
/// under `key`; under its own key it counts unless an earlier entry has it.
proof fn lemma_field_push(fields: Seq<(String, Node)>, entry: (String, Node), key: Seq<char>)
    ensures
        field_of(fields.push(entry), key) == if field_of(fields, key) is Some {
            field_of(fields, key)
        } else if entry.0@ == key {
            Some(entry.1)
        } else {
            None
        },
    decreases fields.len(),
{
    if fields.len() == 0 {
        assert(fields.push(entry).drop_first() =~= fields);
    } else {
        assert(fields.push(entry).drop_first() =~= fields.drop_first().push(entry));
        assert(fields.push(entry)[0] == fields[0]);
        if fields[0].0@ != key {
            lemma_field_push(fields.drop_first(), entry, key);
        }
    }
}

/// The keys of the records are six different texts.
proof fn lemma_keys_differ()
    ensures
        "userarn"@ != "username"@,
        "userarn"@ != "groups"@,
        "userarn"@ != "syncedBy"@,
        "username"@ != "groups"@,
        "username"@ != "syncedBy"@,
        "groups"@ != "syncedBy"@,
        "rolearn"@ != "rolename"@,
        "rolearn"@ != "username"@,
        "rolearn"@ != "groups"@,
        "rolearn"@ != "syncedBy"@,
        "rolename"@ != "username"@,
        "rolename"@ != "groups"@,
        "rolename"@ != "syncedBy"@,
{
    reveal_strlit("userarn");
    reveal_strlit("username");
    reveal_strlit("groups");
    reveal_strlit("syncedBy");
    reveal_strlit("rolearn");
    reveal_strlit("rolename");
    assert("groups"@[0] != "syncedBy"@[0]);
    assert("userarn"@[4] != "username"@[4]);
    assert("rolearn"@[4] != "rolename"@[4]);
    assert("rolearn"@[0] != "username"@[0]);
    assert("rolename"@[0] != "username"@[0]);
}

/// The written form of a user record, which `user_of` reads back as the same user.
pub fn node_of_user(record: &MapUserConfig) -> (node: Node)
    ensures
        writes_user(node, *record),
        user_of(node) == Some(record@),
{
    proof {
        lemma_keys_differ();
    }
    let mut fields: Vec<(String, Node)> = Vec::new();
    let ghost none = fields@;
    fields.push((String::from_str("userarn"), text_node(&record.user_arn)));
    let ghost one = fields@;
    fields.push((String::from_str("username"), text_node(&record.username)));
    let ghost two = fields@;
    fields.push((String::from_str("groups"), texts_node(&record.groups)));
    let ghost three = fields@;
    proof {
        lemma_field_push(none, one[0], "userarn"@);
        lemma_field_push(one, two[1], "userarn"@);
        lemma_field_push(two, three[2], "userarn"@);
        lemma_field_push(none, one[0], "username"@);
        lemma_field_push(one, two[1], "username"@);
        lemma_field_push(two, three[2], "username"@);
        lemma_field_push(none, one[0], "groups"@);
        lemma_field_push(one, two[1], "groups"@);
        lemma_field_push(two, three[2], "groups"@);
        lemma_field_push(none, one[0], "syncedBy"@);
        lemma_field_push(one, two[1], "syncedBy"@);
        lemma_field_push(two, three[2], "syncedBy"@);
    }
    match record.synced_by {
        Some(tag) => {
            let label = String::from_str(tag.label());
            fields.push((String::from_str("syncedBy"), Node::Text(label)));
            proof {
                lemma_field_push(three, fields@[3], "userarn"@);
                lemma_field_push(three, fields@[3], "username"@);
                lemma_field_push(three, fields@[3], "groups"@);
                lemma_field_push(three, fields@[3], "syncedBy"@);
                tag.lemma_label_read_back();
            }
        },
        None => {},
    }
    assert(keys_of(fields@) =~= user_keys(record.synced_by));
    let node = Node::Fields(fields);
    proof {
        lemma_written_user_reads_back(node, *record);
    }
    node
}

/// The written form of a list of user records: a sequence with the written
/// form of each record, in the same order. `decode_users` reads it back as
/// the same users.
pub fn encode_users(records: &Vec<MapUserConfig>) -> (node: Node)
    ensures
        node matches Node::List(items) && write_users(items@, records@) && users_say(
            views(records@),
            items@,
        ),
{
    let mut items: Vec<Node> = Vec::new();
    let mut i: usize = 0;
    while i < records.len()
        invariant
            i <= records.len(),
            items.len() == i,
            forall|j: int| 0 <= j < i ==> writes_user(#[trigger] items@[j], records@[j]),
            forall|j: int| 0 <= j < i ==> user_of(#[trigger] items@[j]) == Some(records@[j]@),
        decreases records.len() - i,
    {
        items.push(node_of_user(&records[i]));
        i += 1;
    }
    Node::List(items)
}

/// The written form of a role record, which `role_of` reads back as the same role.
pub fn node_of_role(record: &MapRoleConfig) -> (node: Node)
    ensures
        writes_role(node, *record),
        role_of(node) == Some(record@),
{
    proof {
        lemma_keys_differ();
    }
    let mut fields: Vec<(String, Node)> = Vec::new();
    let ghost none = fields@;
    fields.push((String::from_str("rolearn"), text_node(&record.role_arn)));
    proof {
        lemma_field_push(none, fields@[0], "rolearn"@);
        lemma_field_push(none, fields@[0], "rolename"@);
        lemma_field_push(none, fields@[0], "username"@);
        lemma_field_push(none, fields@[0], "groups"@);
        lemma_field_push(none, fields@[0], "syncedBy"@);
    }
    match &record.rolename {
        Some(name) => {
            let ghost before = fields@;
            fields.push((String::from_str("rolename"), text_node(name)));
            proof {
                let entry = fields@[fields@.len() - 1];
                lemma_field_push(before, entry, "rolearn"@);
                lemma_field_push(before, entry, "rolename"@);
                lemma_field_push(before, entry, "username"@);
                lemma_field_push(before, entry, "groups"@);
                lemma_field_push(before, entry, "syncedBy"@);
            }
        },
        None => {},
    }
    match &record.username {
        Some(name) => {
            let ghost before = fields@;
            fields.push((String::from_str("username"), text_node(name)));
            proof {
                let entry = fields@[fields@.len() - 1];
                lemma_field_push(before, entry, "rolearn"@);
                lemma_field_push(before, entry, "rolename"@);
                lemma_field_push(before, entry, "username"@);
                lemma_field_push(before, entry, "groups"@);
                lemma_field_push(before, entry, "syncedBy"@);
            }
        },
        None => {},
    }
    let ghost before_groups = fields@;
    fields.push((String::from_str("groups"), texts_node(&record.groups)));
    proof {
        let entry = fields@[fields@.len() - 1];
        lemma_field_push(before_groups, entry, "rolearn"@);
        lemma_field_push(before_groups, entry, "rolename"@);
        lemma_field_push(before_groups, entry, "username"@);
        lemma_field_push(before_groups, entry, "groups"@);
        lemma_field_push(before_groups, entry, "syncedBy"@);
    }
    match record.synced_by {
        Some(tag) => {
            let ghost before = fields@;
            let label = String::from_str(tag.label());
            fields.push((String::from_str("syncedBy"), Node::Text(label)));
            proof {
                let entry = fields@[fields@.len() - 1];
                lemma_field_push(before, entry, "rolearn"@);
                lemma_field_push(before, entry, "rolename"@);
                lemma_field_push(before, entry, "username"@);
                lemma_field_push(before, entry, "groups"@);
                lemma_field_push(before, entry, "syncedBy"@);
                tag.lemma_label_read_back();
            }
        },
        None => {},
    }
    assert(keys_of(fields@) =~= role_keys(record@));
    let node = Node::Fields(fields);
    proof {
        lemma_written_role_reads_back(node, *record);
    }
    node
}

/// The written form of a list of role records: a sequence with the written
/// form of each record, in the same order. `decode_roles` reads it back as
/// the same roles.
pub fn encode_roles(records: &Vec<MapRoleConfig>) -> (node: Node)
    ensures
        node matches Node::List(items) && write_roles(items@, records@) && roles_say(
            views(records@),
            items@,
        ),
{
    let mut items: Vec<Node> = Vec::new();
    let mut i: usize = 0;
    while i < records.len()
        invariant
            i <= records.len(),
            items.len() == i,
            forall|j: int| 0 <= j < i ==> writes_role(#[trigger] items@[j], records@[j]),
            forall|j: int| 0 <= j < i ==> role_of(#[trigger] items@[j]) == Some(records@[j]@),
        decreases records.len() - i,
    {
        items.push(node_of_role(&records[i]));
        i += 1;
    }
    Node::List(items)
}

/// The users under the document's key, from its text and from what the text's
/// parser made of it. A text that the parser refuses, or that holds no list
/// of user records, fails with the text and the cause.
pub fn read_users(raw: &str, parsed: Result<Node, String>) -> (r: Result<
    Vec<MapUserConfig>,
    KubernetesError,
>)
    ensures
        match r {
            Ok(records) => parsed matches Ok(node) && items_of(node) matches Some(items)
                && users_say(views(records@), items),
            Err(e) => {
                &&& e matches KubernetesError::CannotDeserializeUsersMap {
                    raw_message,
                    underlying_error,
                }
                &&& raw_message@ == raw@
                &&& match parsed {
                    Err(cause) => underlying_error@ == cause@,
                    Ok(node) => match items_of(node) {
                        None => underlying_error@ == DocumentFault::NotAList.message(),
                        Some(items) => exists|i: int|
                            {
                                &&& 0 <= i < items.len()
                                &&& user_of(#[trigger] items[i]) is None
                                &&& forall|j: int|
                                    0 <= j < i ==> user_of(#[trigger] items[j]) is Some
                                &&& underlying_error@ == bad_record_message(i as nat)
                            },
                    },
                }
            },
        },
{
    match parsed {
        Err(cause) => Err(
            KubernetesError::CannotDeserializeUsersMap {
                raw_message: raw.to_owned(),
                underlying_error: cause,
            },
        ),
        Ok(node) => match decode_users(&node) {
            Ok(records) => Ok(records),
            Err(fault) => Err(
                KubernetesError::CannotDeserializeUsersMap {
                    raw_message: raw.to_owned(),
                    underlying_error: fault.to_string(),
                },
            ),
        },
    }
}

/// The roles under the document's key, from its text and from what the text's
/// parser made of it. A text that the parser refuses, or that holds no list
/// of role records, fails with the text and the cause.
pub fn read_roles(raw: &str, parsed: Result<Node, String>) -> (r: Result<
    Vec<MapRoleConfig>,
    KubernetesError,
>)
    ensures
        match r {
            Ok(records) => parsed matches Ok(node) && items_of(node) matches Some(items)
                && roles_say(views(records@), items),
            Err(e) => {
                &&& e matches KubernetesError::CannotDeserializeRolesMap {
                    raw_message,
                    underlying_error,
                }
                &&& raw_message@ == raw@
                &&& match parsed {
                    Err(cause) => underlying_error@ == cause@,
                    Ok(node) => match items_of(node) {
                        None => underlying_error@ == DocumentFault::NotAList.message(),
                        Some(items) => exists|i: int|
                            {
                                &&& 0 <= i < items.len()
                                &&& role_of(#[trigger] items[i]) is None
                                &&& forall|j: int|
                                    0 <= j < i ==> role_of(#[trigger] items[j]) is Some
                                &&& underlying_error@ == bad_record_message(i as nat)
                            },
                    },
                }
            },
        },
{
    match parsed {
        Err(cause) => Err(
            KubernetesError::CannotDeserializeRolesMap {
                raw_message: raw.to_owned(),
                underlying_error: cause,
            },
        ),
        Ok(node) => match decode_roles(&node) {
            Ok(records) => Ok(records),
            Err(fault) => Err(
                KubernetesError::CannotDeserializeRolesMap {
                    raw_message: raw.to_owned(),
                    underlying_error: fault.to_string(),
                },
            ),
        },
    }
}

/// The text of the users to write, from what the text's writer made of their
/// node: the text, or the writer's failure as an error of the users' list.
pub fn written_users(written: Result<String, String>) -> (r: Result<String, KubernetesError>)
    ensures
        match written {
            Ok(text) => r == Ok::<String, KubernetesError>(text),
            Err(cause) => r matches Err(KubernetesError::CannotSerializeUsersMap { raw_message })
                && raw_message == cause,
        },
{
    match written {
        Ok(text) => Ok(text),
        Err(cause) => Err(KubernetesError::CannotSerializeUsersMap { raw_message: cause }),
    }
}

/// The text of the roles to write, from what the text's writer made of their
/// node: the text, or the writer's failure as an error of the roles' list.
pub fn written_roles(written: Result<String, String>) -> (r: Result<String, KubernetesError>)
    ensures
        match written {
            Ok(text) => r == Ok::<String, KubernetesError>(text),
            Err(cause) => r matches Err(KubernetesError::CannotSerializeRolesMap { raw_message })
                && raw_message == cause,
        },
{
    match written {
        Ok(text) => Ok(text),
        Err(cause) => Err(KubernetesError::CannotSerializeRolesMap { raw_message: cause }),
    }
}

} // verus!
