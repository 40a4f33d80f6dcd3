//! Node records: what the description of one cluster node says.
//!
//! Nothing here fails. A description that does not match gives no record, and
//! a value that cannot be read gives a default; the functions that return a
//! `Result` return `Ok`, and have the error type of the callers that run the
//! tool.

use crate::listing::{
    identifiers_of, join_lines, joined, lists_view, sorted_identifiers, well_formed_names,
};
use crate::order::strings_view;
use crate::pattern::{captures_view, group, regex_captures, search, Captures};
use crate::quantity::{
    bytes_for, count_for, last_value, range_is, read_bytes, read_count, split_entry,
};
use crate::text::{chars_of, lines, lines_of, trim, trimmed, trimmed_lines, views_of};
use std::io::Error;
use vstd::prelude::*;

verus! {

/// The regular expression of a node description. It is anchored at the start
/// of the text and asks for the headers `Name`, `Roles`, `Labels`,
/// `Annotations`, `CreationTimestamp`, `Capacity`, `Allocatable` and
/// `System Info` in this order.
pub const NODE_PATTERN: &'static str =
    r"(^Name\:\s+)(.*)\n(Roles\:\s+)(.*)\n(Labels\:\s+)((.*\n)+)(Annotations\:\s+)((.*\n)+)(CreationTimestamp\:\s+)(.*)((.*\n)+)(Capacity\:)((.*\n)+)(Allocatable\:)((.*\n)+)(System Info\:\n)";

/// The labels of a node, one for each line of the section `Labels`.
#[derive(Debug)]
pub struct Labels {
    pub labels: Vec<String>,
}

impl View for Labels {
    type V = Seq<Seq<char>>;

    open spec fn view(&self) -> Seq<Seq<char>> {
        strings_view(self.labels@)
    }
}

/// The annotations of a node, one for each line of the section `Annotations`.
#[derive(Debug)]
pub struct Annotations {
    pub annotations: Vec<String>,
}

impl View for Annotations {
    type V = Seq<Seq<char>>;

    open spec fn view(&self) -> Seq<Seq<char>> {
        strings_view(self.annotations@)
    }
}

/// What a node holds in all.
#[derive(Debug, Clone, Copy, PartialEq, Eq, Structural)]
pub struct Capacity {
    pub cpu: i32,
    pub ephemeral_storage_ki: i32,
    pub hugepages_2mi: i32,
    pub memory_ki: i32,
    pub pods: i32,
}

/// What a node can give to workloads.
#[derive(Debug, Clone, Copy, PartialEq, Eq, Structural)]
pub struct Allocatable {
    pub cpu: i32,
    pub ephemeral_storage_bytes: i64,
    pub hugepages_2mi: i32,
    pub memory_ki: i32,
    pub pods: i32,
}

/// One node of the cluster.
#[derive(Debug)]
pub struct FinalNodeValues {
    pub name: String,
    pub roles: String,
    pub labels: Labels,
    pub annotations: Annotations,
    pub created_date: String,
    pub capacity: Capacity,
    pub allocatable: Allocatable,
}

/// The model of a node record.
pub struct NodeView {
    pub name: Seq<char>,
    pub roles: Seq<char>,
    pub labels: Seq<Seq<char>>,
    pub annotations: Seq<Seq<char>>,
    pub created_date: Seq<char>,
    pub capacity: Capacity,
    pub allocatable: Allocatable,
}

impl View for FinalNodeValues {
    type V = NodeView;

    open spec fn view(&self) -> NodeView {
        NodeView {
            name: self.name@,
            roles: self.roles@,
            labels: self.labels@,
            annotations: self.annotations@,
            created_date: self.created_date@,
            capacity: self.capacity,
            allocatable: self.allocatable,
        }
    }
}

/// The nodes of a cluster, in the order of their names.
#[derive(Debug)]
pub struct ClusterValues {
    pub nodes: Vec<FinalNodeValues>,
}

impl View for ClusterValues {
    type V = Seq<NodeView>;

    open spec fn view(&self) -> Seq<NodeView> {
        self.nodes@.map_values(|n: FinalNodeValues| n@)
    }
}

/// The capacity that the lines of a section `Capacity` give.
pub open spec fn capacity_of_lines(lines: Seq<Seq<char>>) -> Capacity {
    Capacity {
        cpu: count_for(lines, "cpu"@),
        ephemeral_storage_ki: count_for(lines, "ephemeral-storage"@),
        hugepages_2mi: count_for(lines, "hugepages-2Mi"@),
        memory_ki: count_for(lines, "memory"@),
        pods: count_for(lines, "pods"@),
    }
}

/// The capacity that a section `Capacity` gives: for each key the count of
/// its last entry, and 0 for a key without one.
pub open spec fn capacity_of(block: Seq<char>) -> Capacity {
    capacity_of_lines(lines_of(block))
}

/// What the lines of a section `Allocatable` give.
pub open spec fn allocatable_of_lines(lines: Seq<Seq<char>>) -> Allocatable {
    Allocatable {
        cpu: count_for(lines, "cpu"@),
        ephemeral_storage_bytes: bytes_for(lines, "ephemeral-storage"@),
        hugepages_2mi: count_for(lines, "hugepages-2Mi"@),
        memory_ki: count_for(lines, "memory"@),
        pods: count_for(lines, "pods"@),
    }
}

/// What a section `Allocatable` gives: as for `Capacity`, but the ephemeral
/// storage is a number of bytes, read without regard to a unit suffix.
pub open spec fn allocatable_of(block: Seq<char>) -> Allocatable {
    allocatable_of_lines(lines_of(block))
}

/// The node record that the groups of a match of `NODE_PATTERN` give: `None`
/// unless all of the groups 2, 4, 6, 9, 12, 16 and 19 took part.
pub open spec fn node_of_groups(found: Option<Seq<Option<Seq<char>>>>) -> Option<NodeView> {
    match (
        group(found, 2),
        group(found, 4),
        group(found, 6),
        group(found, 9),
        group(found, 12),
        group(found, 16),
        group(found, 19),
    ) {
        (
            Some(name),
            Some(roles),
            Some(labels),
            Some(annotations),
            Some(created),
            Some(capacity),
            Some(allocatable),
        ) => Some(
            NodeView {
                name: trimmed(name),
                roles: trimmed(roles),
                labels: trimmed_lines(labels),
                annotations: trimmed_lines(annotations),
                created_date: trimmed(created),
                capacity: capacity_of(capacity),
                allocatable: allocatable_of(allocatable),
            },
        ),
        _ => None,
    }
}

/// The node record that a description gives, or `None` where the description
/// does not match `NODE_PATTERN`.
pub open spec fn node_of(description: Seq<char>) -> Option<NodeView> {
    node_of_groups(regex_captures(NODE_PATTERN@, description))
}

/// The records of the descriptions that give one, in the order of the
/// descriptions.
pub open spec fn nodes_of(descriptions: Seq<Seq<char>>) -> Seq<NodeView>
    decreases descriptions.len(),
{
    if descriptions.len() == 0 {
        Seq::empty()
    } else {
        let before = nodes_of(descriptions.drop_last());
        match node_of(descriptions.last()) {
            Some(node) => before.push(node),
            None => before,
        }
    }
}

/// The model of a record that may be missing.
pub open spec fn node_view(node: Option<FinalNodeValues>) -> Option<NodeView> {
    match node {
        Some(n) => Some(n@),
        None => None,
    }
}

/// Copies each line of `input`, without the whitespace around it.
fn trimmed_lines_of(input: &str) -> (out: Vec<String>)
    ensures
        strings_view(out@) == trimmed_lines(input@),
{
    let all = lines(input);
    let mut out: Vec<String> = Vec::new();
    for k in 0..all.len()
        invariant
            views_of(all@) == lines_of(input@),
            out@.len() == k,
            forall|j: int| 0 <= j < k ==> (#[trigger] out@[j])@ == trimmed(all@[j]@),
    {
        out.push(String::from_str(trim(all[k])));
    }
    assert(strings_view(out@) =~= trimmed_lines(input@)) by {
        assert forall|j: int| 0 <= j < out@.len() implies strings_view(out@)[j] == trimmed_lines(
            input@,
        )[j] by {
            assert(views_of(all@)[j] == all@[j]@);
        }
    }
    out
}

/// Reads the section `Labels`: one label for each line, without the
/// whitespace around it. An empty line gives an empty label.
pub fn process_labels_string_into_array(input: &str) -> (r: Result<Labels, Error>)
    ensures
        r matches Ok(l) && l@ == trimmed_lines(input@),
{
    Ok(Labels { labels: trimmed_lines_of(input) })
}

/// Reads the section `Annotations`: one annotation for each line, without
/// the whitespace around it. An empty line gives an empty annotation.
pub fn process_annotations_string_into_vector(input: &str) -> (r: Result<Annotations, Error>)
    ensures
        r matches Ok(a) && a@ == trimmed_lines(input@),
{
    Ok(Annotations { annotations: trimmed_lines_of(input) })
}

/// The five keys of a resource section are five different texts.
pub proof fn lemma_keys_differ()
    ensures
        "cpu"@ != "ephemeral-storage"@,
        "cpu"@ != "hugepages-2Mi"@,
        "cpu"@ != "memory"@,
        "cpu"@ != "pods"@,
        "ephemeral-storage"@ != "hugepages-2Mi"@,
        "ephemeral-storage"@ != "memory"@,
        "ephemeral-storage"@ != "pods"@,
        "hugepages-2Mi"@ != "memory"@,
        "hugepages-2Mi"@ != "pods"@,
        "memory"@ != "pods"@,
{
    reveal_strlit("cpu");
    reveal_strlit("ephemeral-storage");
    reveal_strlit("hugepages-2Mi");
    reveal_strlit("memory");
    reveal_strlit("pods");
    assert("cpu"@.len() == 3);
    assert("ephemeral-storage"@.len() == 17);
    assert("hugepages-2Mi"@.len() == 13);
    assert("memory"@.len() == 6);
    assert("pods"@.len() == 4);
}

/// Reads the section `Capacity`. A line `key: value` with one of the keys
/// `cpu`, `ephemeral-storage`, `hugepages-2Mi`, `memory` and `pods` sets that
/// field, a later line before an earlier one; any other line is passed over.
pub fn process_capacity_into_value(input: &str) -> (r: Result<Capacity, Error>)
    ensures
        r matches Ok(c) && c == capacity_of(input@),
{
    let all = lines(input);
    let mut resource = Capacity {
        cpu: 0,
        ephemeral_storage_ki: 0,
        hugepages_2mi: 0,
        memory_ki: 0,
        pods: 0,
    };
    let ghost ls = lines_of(input@);
    proof {
        assert(ls.take(0) =~= Seq::<Seq<char>>::empty());
    }
    for k in 0..all.len()
        invariant
            views_of(all@) == ls,
            resource == capacity_of_lines(ls.take(k as int)),
    {
        let line = chars_of(all[k]);
        proof {
            lemma_keys_differ();
            assert(ls.take(k + 1).drop_last() == ls.take(k as int));
            assert(ls.take(k + 1).last() == line@);
        }
        match split_entry(&line) {
            Some(b) => {
                let value: i32 = read_count(&line, b.value_from, b.value_to);
                if range_is(&line, b.key_from, b.key_to, "cpu") {
                    resource.cpu = value;
                } else if range_is(&line, b.key_from, b.key_to, "ephemeral-storage") {
                    resource.ephemeral_storage_ki = value;
                } else if range_is(&line, b.key_from, b.key_to, "hugepages-2Mi") {
                    resource.hugepages_2mi = value;
                } else if range_is(&line, b.key_from, b.key_to, "memory") {
                    resource.memory_ki = value;
                } else if range_is(&line, b.key_from, b.key_to, "pods") {
                    resource.pods = value;
                }
            },
            None => {},
        }
    }
    proof {
        assert(ls.take(all.len() as int) == ls);
    }
    Ok(resource)
}

/// Reads the section `Allocatable`, as `process_capacity_into_value` reads
/// `Capacity`; the value of `ephemeral-storage` is a number of bytes and is
/// read as it stands.
pub fn process_allocatable_into_value(input: &str) -> (r: Result<Allocatable, Error>)
    ensures
        r matches Ok(a) && a == allocatable_of(input@),
{
    let all = lines(input);
    let mut resource = Allocatable {
        cpu: 0,
        ephemeral_storage_bytes: 0,
        hugepages_2mi: 0,
        memory_ki: 0,
        pods: 0,
    };
    let ghost ls = lines_of(input@);
    proof {
        assert(ls.take(0) =~= Seq::<Seq<char>>::empty());
    }
    for k in 0..all.len()
        invariant
            views_of(all@) == ls,
            resource == allocatable_of_lines(ls.take(k as int)),
    {
        let line = chars_of(all[k]);
        proof {
            lemma_keys_differ();
            assert(ls.take(k + 1).drop_last() == ls.take(k as int));
            assert(ls.take(k + 1).last() == line@);
        }
        match split_entry(&line) {
            Some(b) => {
                if range_is(&line, b.key_from, b.key_to, "cpu") {
                    resource.cpu = read_count(&line, b.value_from, b.value_to);
                } else if range_is(&line, b.key_from, b.key_to, "ephemeral-storage") {
                    resource.ephemeral_storage_bytes = read_bytes(&line, b.value_from, b.value_to);
                } else if range_is(&line, b.key_from, b.key_to, "hugepages-2Mi") {
                    resource.hugepages_2mi = read_count(&line, b.value_from, b.value_to);
                } else if range_is(&line, b.key_from, b.key_to, "memory") {
                    resource.memory_ki = read_count(&line, b.value_from, b.value_to);
                } else if range_is(&line, b.key_from, b.key_to, "pods") {
                    resource.pods = read_count(&line, b.value_from, b.value_to);
                }
            },
            None => {},
        }
    }
    proof {
        assert(ls.take(all.len() as int) == ls);
    }
    Ok(resource)
}

/// Builds the node record from what `NODE_PATTERN` captured in a
/// description.
pub fn node_from_captures(found: &Option<Captures>) -> (node: Option<FinalNodeValues>)
    ensures
        node_view(node) == node_of_groups(captures_view(*found)),
{
    let caps = match found {
        Some(caps) => caps,
        None => {
            return None;
        },
    };
    match (
        caps.get(2),
        caps.get(4),
        caps.get(6),
        caps.get(9),
        caps.get(12),
        caps.get(16),
        caps.get(19),
    ) {
        (
            Some(name),
            Some(roles),
            Some(labels),
            Some(annotations),
            Some(created),
            Some(capacity),
            Some(allocatable),
        ) => Some(
            FinalNodeValues {
                name: String::from_str(trim(name)),
                roles: String::from_str(trim(roles)),
                labels: process_labels_string_into_array(labels).unwrap(),
                annotations: process_annotations_string_into_vector(annotations).unwrap(),
                created_date: String::from_str(trim(created)),
                capacity: process_capacity_into_value(capacity).unwrap(),
                allocatable: process_allocatable_into_value(allocatable).unwrap(),
            },
        ),
        _ => None,
    }
}

/// Reads the description of one node. There is a record if and only if the
/// description matches `NODE_PATTERN` as a whole.
pub fn build_node_record(description: &str) -> (node: Option<FinalNodeValues>)
    ensures
        node_view(node) == node_of(description@),
{
    let found = search(NODE_PATTERN, description);
    node_from_captures(&found)
}

/// The names of the nodes of a cluster.
#[derive(Debug)]
pub struct NodeList {
    pub node_name: Vec<String>,
}

impl View for NodeList {
    type V = Seq<Seq<char>>;

    open spec fn view(&self) -> Seq<Seq<char>> {
        strings_view(self.node_name@)
    }
}

impl NodeList {
    /// Whether the names stand in lexicographic order and none is empty.
    pub open spec fn wf(&self) -> bool {
        well_formed_names(self@)
    }
}

/// A node and what the tool printed to describe it.
#[derive(Debug)]
pub struct NodeAndDescription {
    pub node_name: String,
    pub node_description: String,
}

/// The model of a node with its description.
pub struct NodeAndDescriptionView {
    pub node_name: Seq<char>,
    pub node_description: Seq<char>,
}

impl View for NodeAndDescription {
    type V = NodeAndDescriptionView;

    open spec fn view(&self) -> NodeAndDescriptionView {
        NodeAndDescriptionView {
            node_name: self.node_name@,
            node_description: self.node_description@,
        }
    }
}

/// The nodes of a cluster, each with its description.
#[derive(Debug)]
pub struct NodesAndDescriptionList {
    pub node_list: Vec<NodeAndDescription>,
}

impl View for NodesAndDescriptionList {
    type V = Seq<NodeAndDescriptionView>;

    open spec fn view(&self) -> Seq<NodeAndDescriptionView> {
        self.node_list@.map_values(|n: NodeAndDescription| n@)
    }
}

impl NodesAndDescriptionList {
    /// The descriptions alone, in the order of the list.
    pub open spec fn descriptions(&self) -> Seq<Seq<char>> {
        self@.map_values(|n: NodeAndDescriptionView| n.node_description)
    }
}

/// Each name with the output for it, put together line by line.
pub open spec fn described(names: Seq<Seq<char>>, outputs: Seq<Seq<Seq<char>>>) -> Seq<
    NodeAndDescriptionView,
>
    recommends
        names.len() == outputs.len(),
{
    Seq::new(
        names.len(),
        |i: int| NodeAndDescriptionView { node_name: names[i], node_description: joined(outputs[i]) },
    )
}

/// Where a description gives a record, its name, its roles and its creation
/// date are the groups 2, 4 and 12 of the match without the whitespace around
/// them: none of the three begins or ends with whitespace.
pub proof fn lemma_node_fields_are_bare(description: Seq<char>)
    requires
        node_of(description) is Some,
    ensures
        ({
            let found = regex_captures(NODE_PATTERN@, description);
            let node = node_of(description)->0;
            &&& group(found, 2) matches Some(g) && node.name == trimmed(g)
            &&& group(found, 4) matches Some(g) && node.roles == trimmed(g)
            &&& group(found, 12) matches Some(g) && node.created_date == trimmed(g)
            &&& crate::text::bare(node.name)
            &&& crate::text::bare(node.roles)
            &&& crate::text::bare(node.created_date)
        }),
{
    let found = regex_captures(NODE_PATTERN@, description);
    crate::text::lemma_trimmed_is_bare(group(found, 2)->0);
    crate::text::lemma_trimmed_is_bare(group(found, 4)->0);
    crate::text::lemma_trimmed_is_bare(group(found, 12)->0);
}

/// A key whose last entry in a section holds a value that writes no integer
/// is 0 in the capacity, and 0 in what is allocatable.
pub proof fn lemma_non_numeric_value_is_zero(block: Seq<char>)
    ensures
        ({
            let lines = lines_of(block);
            let c = capacity_of(block);
            let a = allocatable_of(block);
            &&& crate::quantity::writes_no_count(lines, "cpu"@) ==> c.cpu == 0 && a.cpu == 0
            &&& crate::quantity::writes_no_count(lines, "ephemeral-storage"@)
                ==> c.ephemeral_storage_ki == 0
            &&& crate::quantity::writes_no_bytes(lines, "ephemeral-storage"@)
                ==> a.ephemeral_storage_bytes == 0
            &&& crate::quantity::writes_no_count(lines, "hugepages-2Mi"@) ==> c.hugepages_2mi == 0
                && a.hugepages_2mi == 0
            &&& crate::quantity::writes_no_count(lines, "memory"@) ==> c.memory_ki == 0
                && a.memory_ki == 0
            &&& crate::quantity::writes_no_count(lines, "pods"@) ==> c.pods == 0 && a.pods == 0
        }),
{
}

/// A key whose last entry in a section holds digits followed by `Ki` has
/// the number that the digits write, in the capacity and, but for the
/// ephemeral storage, in what is allocatable.
pub proof fn lemma_unit_suffix_is_stripped(block: Seq<char>, digits: Seq<char>)
    requires
        digits.len() > 0,
        crate::number::all_digits(digits),
        crate::number::digits_value(digits) <= i32::MAX,
    ensures
        ({
            let lines = lines_of(block);
            let with_unit = Some(digits + crate::quantity::unit_suffix());
            let n = crate::number::digits_value(digits);
            let c = capacity_of(block);
            let a = allocatable_of(block);
            &&& last_value(lines, "cpu"@) == with_unit ==> c.cpu == n && a.cpu == n
            &&& last_value(lines, "ephemeral-storage"@) == with_unit ==> c.ephemeral_storage_ki
                == n
            &&& last_value(lines, "hugepages-2Mi"@) == with_unit ==> c.hugepages_2mi == n
                && a.hugepages_2mi == n
            &&& last_value(lines, "memory"@) == with_unit ==> c.memory_ki == n && a.memory_ki == n
            &&& last_value(lines, "pods"@) == with_unit ==> c.pods == n && a.pods == n
        }),
{
    crate::quantity::lemma_count_of_with_suffix(digits);
}

/// The names of the nodes that the tool listed, in lexicographic order.
pub fn get_node_list(tokens: &Vec<String>) -> (r: Result<NodeList, Error>)
    ensures
        r matches Ok(list) && list.wf() && list@.to_multiset() == identifiers_of(
            strings_view(tokens@),
        ).to_multiset(),
{
    Ok(NodeList { node_name: sorted_identifiers(tokens) })
}

/// Pairs each node with the text that the tool printed for it: `outputs`
/// holds, for each name of the list and in its order, the lines of that
/// text.
pub fn get_node_description(node_list: &NodeList, outputs: &Vec<Vec<String>>) -> (r: Result<
    NodesAndDescriptionList,
    Error,
>)
    requires
        outputs.len() == node_list.node_name.len(),
    ensures
        r matches Ok(list) && list@ == described(node_list@, lists_view(outputs@)),
{
    let mut list = NodesAndDescriptionList { node_list: Vec::new() };
    for k in 0..node_list.node_name.len()
        invariant
            outputs.len() == node_list.node_name.len(),
            list.node_list@.len() == k,
            forall|j: int|
                0 <= j < k ==> (#[trigger] list.node_list@[j])@ == described(
                    node_list@,
                    lists_view(outputs@),
                )[j],
    {
        let entry = NodeAndDescription {
            node_name: node_list.node_name[k].clone(),
            node_description: join_lines(&outputs[k]),
        };
        list.node_list.push(entry);
    }
    assert(list@ =~= described(node_list@, lists_view(outputs@)));
    Ok(list)
}

/// Reads every description of the list. The records stand in the order of
/// the list; a node whose description gives no record is left out.
pub fn process_node_description(node_and_description_list: &NodesAndDescriptionList) -> (r: Result<
    ClusterValues,
    Error,
>)
    ensures
        r matches Ok(cluster) && cluster@ == nodes_of(node_and_description_list.descriptions()),
{
    let mut cluster = ClusterValues { nodes: Vec::new() };
    let ghost all = node_and_description_list.descriptions();
    proof {
        assert(all.take(0) =~= Seq::<Seq<char>>::empty());
        assert(cluster@ =~= Seq::<NodeView>::empty());
    }
    for k in 0..node_and_description_list.node_list.len()
        invariant
            all == node_and_description_list.descriptions(),
            cluster@ == nodes_of(all.take(k as int)),
    {
        let ghost before = cluster@;
        proof {
            assert(all.take(k + 1).drop_last() == all.take(k as int));
            assert(all.take(k + 1).last()
                == node_and_description_list.node_list@[k as int].node_description@);
        }
        match build_node_record(node_and_description_list.node_list[k].node_description.as_str()) {
            Some(node) => {
                cluster.nodes.push(node);
                assert(cluster@ =~= before.push(node@));
            },
            None => {},
        }
    }
    proof {
        assert(all.take(node_and_description_list.node_list.len() as int) == all);
    }
    Ok(cluster)
}

/// The inventory of the cluster's nodes, from the names of the nodes and the
/// text that the tool printed for each.
pub fn handle(node_list: &NodeList, outputs: &Vec<Vec<String>>) -> (r: Result<ClusterValues, Error>)
    requires
        outputs.len() == node_list.node_name.len(),
    ensures
        r matches Ok(cluster) && cluster@ == nodes_of(
            described(node_list@, lists_view(outputs@)).map_values(
                |n: NodeAndDescriptionView| n.node_description,
            ),
        ),
{
    let described = get_node_description(node_list, outputs).unwrap();
    process_node_description(&described)
}

} // verus!
