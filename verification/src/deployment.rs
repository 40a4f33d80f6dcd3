//! Deployment records: what the manifest of one deployment says.
//!
//! Nothing here fails. Every deployment gets a record, and what the manifest
//! does not say is `undefined` or empty in it; the functions that return a
//! `Result` return `Ok`, and have the error type of the callers that run the
//! tool.

use crate::listing::{
    identifiers_of, join_lines, joined, lists_view, sorted_identifiers, well_formed_names,
};
use crate::order::strings_view;
use crate::pattern::{captures_view, group, regex_captures, search, Captures};
use crate::text::{trim, trimmed};
use std::io::Error;
use vstd::prelude::*;

verus! {

/// The regular expression of a deployment manifest. It is anchored at the
/// start of the text and asks for the headers `apiVersion`, `kind` with the
/// value `Deployment`, `metadata`, `spec` and `status` in this order.
pub const MANIFEST_PATTERN: &'static str =
    r"(^apiVersion\:\s)(.*)\n(kind\:\s)(Deployment)\n(metadata\:)((.*\n)+)(spec\:)((.*\n)+)(status\:)((.*\n)+.*)";

/// The regular expression of the number of replicas within `spec`.
pub const REPLICAS_PATTERN: &'static str = r"(replicas\:\s)(\d+)";

/// The regular expression of the image within `spec`.
pub const IMAGE_PATTERN: &'static str = r"(image\:\s)(.*)";

/// The regular expression of the resources within `spec`: from `resources:`
/// to the line `securityContext:`.
pub const RESOURCES_PATTERN: &'static str = r"(resources\:)((.*\n)+)(\s+)(securityContext\:\n)";

/// The regular expression of the limits within the resources where
/// requests follow them: from `limits:` to `requests`.
pub const LIMITS_PATTERN: &'static str = r"(limits\:)((.*\n)+)(\s+)(requests)";

/// The regular expression of the limits within the resources where no
/// requests follow them: from `limits:` to the end.
pub const LIMITS_TO_END_PATTERN: &'static str = r"(limits\:)((.*\n)+.*)";

/// The regular expression of the requests within the resources: from
/// `requests:` to the end.
pub const REQUESTS_PATTERN: &'static str = r"(requests\:)((.*\n)+.*)";

/// The regular expression of an amount of memory.
pub const MEMORY_PATTERN: &'static str = r"(memory\:\s)(.*)";

/// The regular expression of an amount of CPU.
pub const CPU_PATTERN: &'static str = r"(cpu\:\s)(.*)";

/// The limits of a deployment: empty texts where the manifest gives none.
#[derive(Debug)]
pub struct ResourceLimits {
    pub cpu: String,
    pub memory: String,
}

/// The requests of a deployment: empty texts where the manifest gives none.
#[derive(Debug)]
pub struct ResoruceRequests {
    pub cpu: String,
    pub memory: String,
}

/// The model of limits and of requests.
pub struct AmountsView {
    pub cpu: Seq<char>,
    pub memory: Seq<char>,
}

impl View for ResourceLimits {
    type V = AmountsView;

    open spec fn view(&self) -> AmountsView {
        AmountsView { cpu: self.cpu@, memory: self.memory@ }
    }
}

impl View for ResoruceRequests {
    type V = AmountsView;

    open spec fn view(&self) -> AmountsView {
        AmountsView { cpu: self.cpu@, memory: self.memory@ }
    }
}

/// The limits and the requests of a deployment.
#[derive(Debug)]
pub struct Resources {
    pub limits: ResourceLimits,
    pub requsts: ResoruceRequests,
}

/// The model of the resources of a deployment.
pub struct ResourcesView {
    pub limits: AmountsView,
    pub requests: AmountsView,
}

impl View for Resources {
    type V = ResourcesView;

    open spec fn view(&self) -> ResourcesView {
        ResourcesView { limits: self.limits@, requests: self.requsts@ }
    }
}

/// One deployment.
#[derive(Debug)]
pub struct DeploymentDetailGroups {
    pub deployment_name: String,
    pub api_version: String,
    pub replicas: String,
    pub image: String,
    pub kind: String,
    pub resources: Resources,
}

/// The model of a deployment record.
pub struct DeploymentView {
    pub deployment_name: Seq<char>,
    pub api_version: Seq<char>,
    pub replicas: Seq<char>,
    pub image: Seq<char>,
    pub kind: Seq<char>,
    pub resources: ResourcesView,
}

impl View for DeploymentDetailGroups {
    type V = DeploymentView;

    open spec fn view(&self) -> DeploymentView {
        DeploymentView {
            deployment_name: self.deployment_name@,
            api_version: self.api_version@,
            replicas: self.replicas@,
            image: self.image@,
            kind: self.kind@,
            resources: self.resources@,
        }
    }
}

/// The deployments of one namespace.
#[derive(Debug)]
pub struct DeploymentDetailsPerNamespace {
    pub namespace: String,
    pub deployment_details: Vec<DeploymentDetailGroups>,
}

/// The model of the deployments of one namespace.
pub struct NamespaceDeploymentsView {
    pub namespace: Seq<char>,
    pub deployments: Seq<DeploymentView>,
}

impl View for DeploymentDetailsPerNamespace {
    type V = NamespaceDeploymentsView;

    open spec fn view(&self) -> NamespaceDeploymentsView {
        NamespaceDeploymentsView {
            namespace: self.namespace@,
            deployments: self.deployment_details@.map_values(|d: DeploymentDetailGroups| d@),
        }
    }
}

/// The deployments of a cluster, namespace by namespace.
#[derive(Debug)]
pub struct TotalDeploymentDetails {
    pub total_details: Vec<DeploymentDetailsPerNamespace>,
}

impl View for TotalDeploymentDetails {
    type V = Seq<NamespaceDeploymentsView>;

    open spec fn view(&self) -> Seq<NamespaceDeploymentsView> {
        self.total_details@.map_values(|n: DeploymentDetailsPerNamespace| n@)
    }
}

/// The text of group 2 without the whitespace around it, or `default` where
/// that group took no part in a match.
pub open spec fn second_group_or(found: Option<Seq<Option<Seq<char>>>>, default: Seq<char>) -> Seq<
    char,
> {
    match group(found, 2) {
        Some(g) => trimmed(g),
        None => default,
    }
}

/// The replicas that a section `spec` names, or the text `undefined`.
pub open spec fn replicas_of(spec: Seq<char>) -> Seq<char> {
    second_group_or(regex_captures(REPLICAS_PATTERN@, spec), "undefined"@)
}

/// The image that a section `spec` names, or the text `undefined`.
pub open spec fn image_of(spec: Seq<char>) -> Seq<char> {
    second_group_or(regex_captures(IMAGE_PATTERN@, spec), "undefined"@)
}

/// The amount of CPU that a block names, or the empty text.
pub open spec fn cpu_of(block: Seq<char>) -> Seq<char> {
    second_group_or(regex_captures(CPU_PATTERN@, block), Seq::empty())
}

/// The amount of memory that a block names, or the empty text.
pub open spec fn memory_of(block: Seq<char>) -> Seq<char> {
    second_group_or(regex_captures(MEMORY_PATTERN@, block), Seq::empty())
}

/// No amounts: two empty texts.
pub open spec fn no_amounts() -> AmountsView {
    AmountsView { cpu: Seq::empty(), memory: Seq::empty() }
}

/// The amounts that a block of limits or of requests names; no amounts
/// where there is no such block.
pub open spec fn amounts_of(block: Option<Seq<char>>) -> AmountsView {
    match block {
        Some(b) => AmountsView { cpu: cpu_of(b), memory: memory_of(b) },
        None => no_amounts(),
    }
}

/// The block of limits within a block of resources: what stands between
/// `limits:` and `requests` or, where no requests follow the limits, between
/// `limits:` and the end.
pub open spec fn limits_block_of(block: Seq<char>) -> Option<Seq<char>> {
    match group(regex_captures(LIMITS_PATTERN@, block), 2) {
        Some(limits) => Some(limits),
        None => group(regex_captures(LIMITS_TO_END_PATTERN@, block), 2),
    }
}

/// The block of requests within a block of resources: what stands between
/// `requests:` and the end.
pub open spec fn requests_block_of(block: Seq<char>) -> Option<Seq<char>> {
    group(regex_captures(REQUESTS_PATTERN@, block), 2)
}

/// The limits and the requests within a block of resources. Each is looked
/// for by itself: that one is missing takes nothing from the other.
pub open spec fn resources_of_block(block: Seq<char>) -> ResourcesView {
    ResourcesView {
        limits: amounts_of(limits_block_of(block)),
        requests: amounts_of(requests_block_of(block)),
    }
}

/// The resources that a section `spec` names; no amounts at all where it
/// holds no block of resources.
pub open spec fn resources_of(spec: Seq<char>) -> ResourcesView {
    match group(regex_captures(RESOURCES_PATTERN@, spec), 2) {
        Some(block) => resources_of_block(block),
        None => ResourcesView { limits: no_amounts(), requests: no_amounts() },
    }
}

/// The record of a deployment of which the manifest says nothing: the name
/// alone, `undefined` for replicas and image, and empty texts elsewhere.
pub open spec fn undefined_deployment(name: Seq<char>) -> DeploymentView {
    DeploymentView {
        deployment_name: name,
        api_version: Seq::empty(),
        replicas: "undefined"@,
        image: "undefined"@,
        kind: Seq::empty(),
        resources: ResourcesView { limits: no_amounts(), requests: no_amounts() },
    }
}

/// The record that the groups of a match of `MANIFEST_PATTERN` give: group 2
/// is the API version, group 4 the kind and group 9 the section `spec`.
/// Unless all three took part, the record is `undefined_deployment`.
pub open spec fn deployment_of_groups(
    name: Seq<char>,
    found: Option<Seq<Option<Seq<char>>>>,
) -> DeploymentView {
    match (group(found, 2), group(found, 4), group(found, 9)) {
        (Some(api_version), Some(kind), Some(spec)) => DeploymentView {
            deployment_name: name,
            api_version: api_version,
            replicas: replicas_of(spec),
            image: image_of(spec),
            kind: kind,
            resources: resources_of(spec),
        },
        _ => undefined_deployment(name),
    }
}

/// The record of the deployment `name` with the manifest `manifest`.
pub open spec fn deployment_of(name: Seq<char>, manifest: Seq<char>) -> DeploymentView {
    deployment_of_groups(name, regex_captures(MANIFEST_PATTERN@, manifest))
}

/// Where the expression for the replicas finds nothing in a section `spec`,
/// the replicas are the text `undefined`, which is not empty.
pub proof fn lemma_replicas_undefined(spec: Seq<char>)
    requires
        group(regex_captures(REPLICAS_PATTERN@, spec), 2) is None,
    ensures
        replicas_of(spec) == "undefined"@,
        replicas_of(spec).len() > 0,
{
    reveal_strlit("undefined");
    assert("undefined"@.len() == 9);
}

/// Where a block of resources holds no block of limits, both limits are
/// empty, and the requests are still those of the block of requests.
pub proof fn lemma_requests_without_limits(block: Seq<char>)
    requires
        limits_block_of(block) is None,
    ensures
        resources_of_block(block).limits.cpu.len() == 0,
        resources_of_block(block).limits.memory.len() == 0,
        resources_of_block(block).requests == amounts_of(requests_block_of(block)),
{
}

/// Where a block of resources holds no block of requests, both requests are
/// empty, and the limits are still those of the block of limits.
pub proof fn lemma_limits_without_requests(block: Seq<char>)
    requires
        requests_block_of(block) is None,
    ensures
        resources_of_block(block).requests.cpu.len() == 0,
        resources_of_block(block).requests.memory.len() == 0,
        resources_of_block(block).limits == amounts_of(limits_block_of(block)),
{
}

/// Where the expression that reads the limits up to `requests` finds
/// nothing, the limits are those that stand between `limits:` and the end of
/// the block.
pub proof fn lemma_limits_read_to_the_end(block: Seq<char>)
    requires
        group(regex_captures(LIMITS_PATTERN@, block), 2) is None,
    ensures
        resources_of_block(block).limits == amounts_of(
            group(regex_captures(LIMITS_TO_END_PATTERN@, block), 2),
        ),
{
}

/// In a section `spec` that holds a block of resources, the limits are those
/// of its block of limits and the requests those of its block of requests,
/// whether or not the other block is there.
pub proof fn lemma_limits_and_requests_are_independent(spec: Seq<char>)
    requires
        group(regex_captures(RESOURCES_PATTERN@, spec), 2) is Some,
    ensures
        ({
            let block = group(regex_captures(RESOURCES_PATTERN@, spec), 2)->0;
            &&& resources_of(spec).limits == amounts_of(limits_block_of(block))
            &&& resources_of(spec).requests == amounts_of(requests_block_of(block))
        }),
{
}

/// A manifest that does not match `MANIFEST_PATTERN` still gives a record:
/// it holds the name, `undefined` for replicas and image, and nothing else.
pub proof fn lemma_mismatch_keeps_name(name: Seq<char>, manifest: Seq<char>)
    requires
        regex_captures(MANIFEST_PATTERN@, manifest) is None,
    ensures
        deployment_of(name, manifest) == undefined_deployment(name),
        deployment_of(name, manifest).deployment_name == name,
        deployment_of(name, manifest).api_version.len() == 0,
        deployment_of(name, manifest).kind.len() == 0,
        deployment_of(name, manifest).replicas == "undefined"@,
        deployment_of(name, manifest).image == "undefined"@,
{
}

/// Whatever the manifest, the record of a deployment carries its name.
pub proof fn lemma_record_keeps_name(name: Seq<char>, manifest: Seq<char>)
    ensures
        deployment_of(name, manifest).deployment_name == name,
{
}

/// The text of group 2 of a match without the whitespace around it, or
/// `default` where there is none.
pub fn trimmed_group_or(found: &Option<Captures>, default: &str) -> (text: String)
    ensures
        text@ == second_group_or(captures_view(*found), default@),
{
    match found {
        Some(caps) => match caps.get(2) {
            Some(g) => String::from_str(trim(g)),
            None => String::from_str(default),
        },
        None => String::from_str(default),
    }
}

/// The number of replicas in a section `spec`: the digits after
/// `replicas:`, or `undefined`.
pub fn get_replicas_from_spec(spec_string: String) -> (r: Result<String, Error>)
    ensures
        r matches Ok(replicas) && replicas@ == replicas_of(spec_string@),
{
    let found = search(REPLICAS_PATTERN, spec_string.as_str());
    Ok(trimmed_group_or(&found, "undefined"))
}

/// The image in a section `spec`: the rest of the line after `image:`, or
/// `undefined`.
pub fn get_image_from_spec(spec_string: String) -> (r: Result<String, Error>)
    ensures
        r matches Ok(image) && image@ == image_of(spec_string@),
{
    let found = search(IMAGE_PATTERN, spec_string.as_str());
    Ok(trimmed_group_or(&found, "undefined"))
}

/// The amount of memory in a block: the rest of the line after `memory:`, or
/// the empty text.
pub fn get_memory(input: String) -> (r: Result<String, Error>)
    ensures
        r matches Ok(memory) && memory@ == memory_of(input@),
{
    let found = search(MEMORY_PATTERN, input.as_str());
    let none = String::new();
    Ok(trimmed_group_or(&found, none.as_str()))
}

/// The amount of CPU in a block: the rest of the line after `cpu:`, or the
/// empty text.
pub fn get_cpu(input: String) -> (r: Result<String, Error>)
    ensures
        r matches Ok(cpu) && cpu@ == cpu_of(input@),
{
    let found = search(CPU_PATTERN, input.as_str());
    let none = String::new();
    Ok(trimmed_group_or(&found, none.as_str()))
}

/// The text of group 2 of a match, as it stands.
pub fn second_group(found: &Option<Captures>) -> (text: Option<&str>)
    ensures
        match text {
            Some(t) => group(captures_view(*found), 2) == Some(t@),
            None => group(captures_view(*found), 2) is None,
        },
{
    match found {
        Some(caps) => caps.get(2),
        None => None,
    }
}

/// The text of a block that may be missing.
pub open spec fn block_view(block: Option<String>) -> Option<Seq<char>> {
    match block {
        Some(b) => Some(b@),
        None => None,
    }
}

/// The block of limits within a block of resources: read up to `requests`
/// or, where no requests follow the limits, up to the end.
pub fn limits_block(block: &str) -> (limits: Option<String>)
    ensures
        block_view(limits) == limits_block_of(block@),
{
    let up_to_requests = search(LIMITS_PATTERN, block);
    match second_group(&up_to_requests) {
        Some(text) => Some(String::from_str(text)),
        None => {
            let up_to_end = search(LIMITS_TO_END_PATTERN, block);
            match second_group(&up_to_end) {
                Some(text) => Some(String::from_str(text)),
                None => None,
            }
        },
    }
}

/// The block of requests within a block of resources.
pub fn requests_block(block: &str) -> (requests: Option<String>)
    ensures
        block_view(requests) == requests_block_of(block@),
{
    let found = search(REQUESTS_PATTERN, block);
    match second_group(&found) {
        Some(text) => Some(String::from_str(text)),
        None => None,
    }
}

/// The limits and the requests within a block of resources.
pub fn resources_from_block(block: &str) -> (resources: Resources)
    ensures
        resources@ == resources_of_block(block@),
{
    let mut limits = ResourceLimits { cpu: String::new(), memory: String::new() };
    let mut requests = ResoruceRequests { cpu: String::new(), memory: String::new() };
    match limits_block(block) {
        Some(text) => {
            limits.memory = get_memory(text.clone()).unwrap();
            limits.cpu = get_cpu(text).unwrap();
        },
        None => {},
    }
    match requests_block(block) {
        Some(text) => {
            requests.memory = get_memory(text.clone()).unwrap();
            requests.cpu = get_cpu(text).unwrap();
        },
        None => {},
    }
    Resources { limits, requsts: requests }
}

/// The resources in a section `spec`: the block from `resources:` to
/// `securityContext:`, and in it the limits and the requests, each read
/// whether or not the other is there.
pub fn get_resources_from_spec(spec_string: String) -> (r: Result<Resources, Error>)
    ensures
        r matches Ok(resources) && resources@ == resources_of(spec_string@),
{
    let found = search(RESOURCES_PATTERN, spec_string.as_str());
    match second_group(&found) {
        Some(block) => Ok(resources_from_block(block)),
        None => Ok(
            Resources {
                limits: ResourceLimits { cpu: String::new(), memory: String::new() },
                requsts: ResoruceRequests { cpu: String::new(), memory: String::new() },
            },
        ),
    }
}

/// Builds the record of a deployment from what `MANIFEST_PATTERN` captured
/// in its manifest.
pub fn deployment_from_captures(deployment_name: &str, found: &Option<Captures>) -> (record:
    DeploymentDetailGroups)
    ensures
        record@ == deployment_of_groups(deployment_name@, captures_view(*found)),
{
    let groups = match found {
        Some(caps) => (caps.get(2), caps.get(4), caps.get(9)),
        None => (None, None, None),
    };
    match groups {
        (Some(api_version), Some(kind), Some(spec)) => DeploymentDetailGroups {
            deployment_name: String::from_str(deployment_name),
            api_version: String::from_str(api_version),
            replicas: get_replicas_from_spec(String::from_str(spec)).unwrap(),
            image: get_image_from_spec(String::from_str(spec)).unwrap(),
            kind: String::from_str(kind),
            resources: get_resources_from_spec(String::from_str(spec)).unwrap(),
        },
        _ => DeploymentDetailGroups {
            deployment_name: String::from_str(deployment_name),
            api_version: String::new(),
            replicas: String::from_str("undefined"),
            image: String::from_str("undefined"),
            kind: String::new(),
            resources: Resources {
                limits: ResourceLimits { cpu: String::new(), memory: String::new() },
                requsts: ResoruceRequests { cpu: String::new(), memory: String::new() },
            },
        },
    }
}

/// Reads the manifest of one deployment. There is always a record: where the
/// manifest does not match `MANIFEST_PATTERN`, the record holds the name and
/// the defaults.
pub fn build_deployment_record(manifest: &str, deployment_name: &str) -> (record:
    DeploymentDetailGroups)
    ensures
        record@ == deployment_of(deployment_name@, manifest@),
{
    let found = search(MANIFEST_PATTERN, manifest);
    deployment_from_captures(deployment_name, &found)
}

/// The names of the namespaces of a cluster.
#[derive(Debug)]
pub struct Namespaces {
    pub namesapces: Vec<String>,
}

impl View for Namespaces {
    type V = Seq<Seq<char>>;

    open spec fn view(&self) -> Seq<Seq<char>> {
        strings_view(self.namesapces@)
    }
}

impl Namespaces {
    /// Whether the names stand in lexicographic order and none is empty.
    pub open spec fn wf(&self) -> bool {
        well_formed_names(self@)
    }
}

/// A deployment and the manifest that the tool printed for it.
#[derive(Debug)]
pub struct DeploymentDetails {
    pub deployment: String,
    pub details: String,
}

/// The model of a deployment with its manifest.
pub struct ManifestView {
    pub deployment: Seq<char>,
    pub details: Seq<char>,
}

impl View for DeploymentDetails {
    type V = ManifestView;

    open spec fn view(&self) -> ManifestView {
        ManifestView { deployment: self.deployment@, details: self.details@ }
    }
}

/// A namespace and its deployments, each with its manifest.
#[derive(Debug)]
pub struct NamespaceDetails {
    pub namespace: String,
    pub deployment_details: Vec<DeploymentDetails>,
}

/// The model of a namespace with the manifests of its deployments.
pub struct NamespaceManifestsView {
    pub namespace: Seq<char>,
    pub manifests: Seq<ManifestView>,
}

impl View for NamespaceDetails {
    type V = NamespaceManifestsView;

    open spec fn view(&self) -> NamespaceManifestsView {
        NamespaceManifestsView {
            namespace: self.namespace@,
            manifests: self.deployment_details@.map_values(|d: DeploymentDetails| d@),
        }
    }
}

/// The namespaces of a cluster, each with the manifests of its deployments.
#[derive(Debug)]
pub struct AllNamespaceDetails {
    pub all_namespace_details: Vec<NamespaceDetails>,
}

impl View for AllNamespaceDetails {
    type V = Seq<NamespaceManifestsView>;

    open spec fn view(&self) -> Seq<NamespaceManifestsView> {
        self.all_namespace_details@.map_values(|n: NamespaceDetails| n@)
    }
}

/// The lines of each manifest of each namespace, as texts.
pub open spec fn manifests_view(manifests: Seq<Vec<Vec<String>>>) -> Seq<Seq<Seq<Seq<char>>>> {
    manifests.map_values(|of_namespace: Vec<Vec<String>>| lists_view(of_namespace@))
}

/// A namespace with its deployments: each name with the manifest for it, put
/// together line by line.
pub open spec fn namespace_collected(
    namespace: Seq<char>,
    names: Seq<Seq<char>>,
    manifests: Seq<Seq<Seq<char>>>,
) -> NamespaceManifestsView
    recommends
        names.len() == manifests.len(),
{
    NamespaceManifestsView {
        namespace: namespace,
        manifests: Seq::new(
            names.len(),
            |j: int| ManifestView { deployment: names[j], details: joined(manifests[j]) },
        ),
    }
}

/// Every namespace with its deployments.
pub open spec fn collected(
    namespaces: Seq<Seq<char>>,
    names: Seq<Seq<Seq<char>>>,
    manifests: Seq<Seq<Seq<Seq<char>>>>,
) -> Seq<NamespaceManifestsView>
    recommends
        names.len() == namespaces.len(),
        manifests.len() == namespaces.len(),
{
    Seq::new(
        namespaces.len(),
        |i: int| namespace_collected(namespaces[i], names[i], manifests[i]),
    )
}

/// Whether there is one list of names and one list of manifests for each
/// namespace, and one manifest for each name.
pub open spec fn one_for_each(
    namespaces: &Namespaces,
    names: &Vec<Vec<String>>,
    manifests: &Vec<Vec<Vec<String>>>,
) -> bool {
    &&& names.len() == namespaces.namesapces.len()
    &&& manifests.len() == namespaces.namesapces.len()
    &&& forall|i: int| 0 <= i < names.len() ==> (#[trigger] manifests[i]).len() == names[i].len()
}

/// The records of the deployments of one namespace, in their order.
pub open spec fn namespace_inventory(namespace: NamespaceManifestsView) -> NamespaceDeploymentsView {
    NamespaceDeploymentsView {
        namespace: namespace.namespace,
        deployments: namespace.manifests.map_values(
            |m: ManifestView| deployment_of(m.deployment, m.details),
        ),
    }
}

/// The records of all deployments, namespace by namespace: one entry for
/// each namespace, with one record for each of its deployments.
pub open spec fn inventory(all: Seq<NamespaceManifestsView>) -> Seq<NamespaceDeploymentsView> {
    all.map_values(|n: NamespaceManifestsView| namespace_inventory(n))
}

/// The names of the deployments of a namespace, in the order of its
/// entries.
pub open spec fn manifest_names(namespace: NamespaceManifestsView) -> Seq<Seq<char>> {
    namespace.manifests.map_values(|m: ManifestView| m.deployment)
}

/// The names in the records of a namespace, in the order of the records.
pub open spec fn record_names(namespace: NamespaceDeploymentsView) -> Seq<Seq<char>> {
    namespace.deployments.map_values(|d: DeploymentView| d.deployment_name)
}

/// The names of the namespaces of an inventory, in the order of its entries.
pub open spec fn namespace_names(total: Seq<NamespaceDeploymentsView>) -> Seq<Seq<char>> {
    total.map_values(|n: NamespaceDeploymentsView| n.namespace)
}

/// The entries follow the names: the inventory holds the namespaces in the
/// order of their names and, in each, the deployments in the order of their
/// names, whatever the manifests say. So names that stand in lexicographic
/// order, as `get_namespaces` and `get_deployment_names` give them, give an
/// inventory in that order.
pub proof fn lemma_entries_follow_names(
    namespaces: Seq<Seq<char>>,
    names: Seq<Seq<Seq<char>>>,
    manifests: Seq<Seq<Seq<Seq<char>>>>,
)
    requires
        names.len() == namespaces.len(),
    ensures
        ({
            let all = collected(namespaces, names, manifests);
            let total = inventory(all);
            &&& all.len() == namespaces.len()
            &&& total.len() == namespaces.len()
            &&& namespace_names(total) == namespaces
            &&& forall|i: int|
                0 <= i < namespaces.len() ==> manifest_names(#[trigger] all[i]) == names[i]
            &&& forall|i: int|
                0 <= i < namespaces.len() ==> record_names(#[trigger] total[i]) == names[i]
            &&& well_formed_names(namespaces) ==> well_formed_names(namespace_names(total))
            &&& forall|i: int|
                0 <= i < namespaces.len() && well_formed_names(names[i]) ==> well_formed_names(
                    record_names(#[trigger] total[i]),
                )
        }),
{
    let all = collected(namespaces, names, manifests);
    let total = inventory(all);
    assert(namespace_names(total) =~= namespaces);
    assert forall|i: int| 0 <= i < namespaces.len() implies manifest_names(#[trigger] all[i])
        == names[i] by {
        assert(manifest_names(all[i]) =~= names[i]);
    }
    assert forall|i: int| 0 <= i < namespaces.len() implies record_names(#[trigger] total[i])
        == names[i] by {
        assert(total[i] == namespace_inventory(all[i]));
        assert(record_names(total[i]) =~= names[i]);
    }
}

/// The names of the namespaces that the tool listed, in lexicographic order.
pub fn get_namespaces(tokens: &Vec<String>) -> (r: Result<Namespaces, Error>)
    ensures
        r matches Ok(list) && list.wf() && list@.to_multiset() == identifiers_of(
            strings_view(tokens@),
        ).to_multiset(),
{
    Ok(Namespaces { namesapces: sorted_identifiers(tokens) })
}

/// The names of the deployments that the tool listed for one namespace, in
/// lexicographic order.
pub fn get_deployment_names(tokens: &Vec<String>) -> (names: Vec<String>)
    ensures
        well_formed_names(strings_view(names@)),
        strings_view(names@).to_multiset() == identifiers_of(strings_view(tokens@)).to_multiset(),
{
    sorted_identifiers(tokens)
}

/// Pairs each deployment of one namespace with the manifest that the tool
/// printed for it: `manifests` holds, for each name and in the order of the
/// names, the lines of that manifest.
pub fn collect_namespace(namespace: &str, names: &Vec<String>, manifests: &Vec<Vec<String>>) -> (r:
    NamespaceDetails)
    requires
        manifests.len() == names.len(),
    ensures
        r@ == namespace_collected(namespace@, strings_view(names@), lists_view(manifests@)),
{
    let mut details: Vec<DeploymentDetails> = Vec::new();
    let ghost want = namespace_collected(namespace@, strings_view(names@), lists_view(manifests@));
    for j in 0..names.len()
        invariant
            manifests.len() == names.len(),
            want == namespace_collected(namespace@, strings_view(names@), lists_view(manifests@)),
            details@.len() == j,
            forall|k: int| 0 <= k < j ==> (#[trigger] details@[k])@ == want.manifests[k],
    {
        details.push(
            DeploymentDetails {
                deployment: names[j].clone(),
                details: join_lines(&manifests[j]),
            },
        );
    }
    let r = NamespaceDetails { namespace: String::from_str(namespace), deployment_details: details };
    assert(r@.manifests =~= want.manifests);
    r
}

/// Pairs each namespace with its deployments and their manifests: `names`
/// holds the names of the deployments of each namespace, as
/// `get_deployment_names` gives them, and `manifests` the lines that the tool
/// printed for each of them. The entries keep the order of the names
/// (`lemma_entries_follow_names`).
pub fn get_deployments_and_details_by_namespace(
    namespaces_list: &Namespaces,
    names: &Vec<Vec<String>>,
    manifests: &Vec<Vec<Vec<String>>>,
) -> (r: Result<AllNamespaceDetails, Error>)
    requires
        one_for_each(namespaces_list, names, manifests),
    ensures
        r matches Ok(all) && all@ == collected(
            namespaces_list@,
            lists_view(names@),
            manifests_view(manifests@),
        ),
{
    let mut all = AllNamespaceDetails { all_namespace_details: Vec::new() };
    let ghost want = collected(namespaces_list@, lists_view(names@), manifests_view(manifests@));
    for i in 0..namespaces_list.namesapces.len()
        invariant
            one_for_each(namespaces_list, names, manifests),
            want == collected(namespaces_list@, lists_view(names@), manifests_view(manifests@)),
            all.all_namespace_details@.len() == i,
            forall|k: int| 0 <= k < i ==> (#[trigger] all.all_namespace_details@[k])@ == want[k],
    {
        assert(manifests[i as int].len() == names[i as int].len());
        let details = collect_namespace(
            namespaces_list.namesapces[i].as_str(),
            &names[i],
            &manifests[i],
        );
        all.all_namespace_details.push(details);
    }
    assert(all@ =~= want);
    Ok(all)
}

/// The records of the deployments of one namespace.
pub fn process_namespace(namespace_details: &NamespaceDetails) -> (r: DeploymentDetailsPerNamespace)
    ensures
        r@ == namespace_inventory(namespace_details@),
{
    let mut records: Vec<DeploymentDetailGroups> = Vec::new();
    let ghost want = namespace_inventory(namespace_details@);
    for j in 0..namespace_details.deployment_details.len()
        invariant
            want == namespace_inventory(namespace_details@),
            records@.len() == j,
            forall|k: int| 0 <= k < j ==> (#[trigger] records@[k])@ == want.deployments[k],
    {
        let item = &namespace_details.deployment_details[j];
        records.push(build_deployment_record(item.details.as_str(), item.deployment.as_str()));
    }
    let r = DeploymentDetailsPerNamespace {
        namespace: namespace_details.namespace.clone(),
        deployment_details: records,
    };
    assert(r@.deployments =~= want.deployments);
    r
}

/// Reads every manifest. There is one entry for each namespace, in the order
/// of the namespaces, and in it one record for each deployment, in the order
/// of the deployments: no deployment is left out.
pub fn process_deployment_details_handler(deployment_details: &AllNamespaceDetails) -> (r: Result<
    TotalDeploymentDetails,
    Error,
>)
    ensures
        r matches Ok(total) && total@ == inventory(deployment_details@),
{
    let mut total = TotalDeploymentDetails { total_details: Vec::new() };
    let ghost want = inventory(deployment_details@);
    for i in 0..deployment_details.all_namespace_details.len()
        invariant
            want == inventory(deployment_details@),
            total.total_details@.len() == i,
            forall|k: int| 0 <= k < i ==> (#[trigger] total.total_details@[k])@ == want[k],
    {
        total.total_details.push(process_namespace(&deployment_details.all_namespace_details[i]));
    }
    assert(total@ =~= want);
    Ok(total)
}

/// The inventory of the cluster's deployments, from the names of the
/// namespaces, the names of the deployments of each, and the lines of the
/// manifest of each deployment.
pub fn get_namespace_details_handler(
    namespaces_list: &Namespaces,
    names: &Vec<Vec<String>>,
    manifests: &Vec<Vec<Vec<String>>>,
) -> (r: Result<TotalDeploymentDetails, Error>)
    requires
        one_for_each(namespaces_list, names, manifests),
    ensures
        r matches Ok(total) && total@ == inventory(
            collected(namespaces_list@, lists_view(names@), manifests_view(manifests@)),
        ),
{
    let all = get_deployments_and_details_by_namespace(namespaces_list, names, manifests).unwrap();
    process_deployment_details_handler(&all)
}

} // verus!
