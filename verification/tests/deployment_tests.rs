use cluster_reader::deployment::{
    build_deployment_record, collect_namespace, deployment_from_captures, get_cpu,
    get_deployment_names, get_deployments_and_details_by_namespace, get_image_from_spec,
    get_memory, get_namespace_details_handler, get_namespaces, get_replicas_from_spec,
    get_resources_from_spec, limits_block, process_deployment_details_handler, process_namespace,
    requests_block, resources_from_block, second_group, trimmed_group_or, AllNamespaceDetails,
    DeploymentDetails, NamespaceDetails, Namespaces,
};
use cluster_reader::pattern::Captures;

fn manifest_lines(lines: &[&str]) -> Vec<String> {
    lines.iter().map(|s| String::from(*s)).collect()
}

fn web_manifest() -> String {
    [
        "apiVersion: apps/v1",
        "kind: Deployment",
        "metadata:",
        "  name: web",
        "  namespace: default",
        "spec:",
        "  replicas: 3",
        "  containers:",
        "  - image: nginx:1.25",
        "    name: web",
        "    resources:",
        "      limits:",
        "        cpu: 500m",
        "        memory: 256Mi",
        "      requests:",
        "        cpu: 250m",
        "        memory: 128Mi",
        "    securityContext:",
        "      runAsNonRoot: true",
        "status:",
        "  availableReplicas: 3",
        "  readyReplicas: 3",
        "",
    ]
    .join("\n")
}

fn coredns_manifest() -> String {
    [
        "apiVersion: apps/v1",
        "kind: Deployment",
        "metadata:",
        "  annotations:",
        "    deployment.kubernetes.io/revision: \"1\"",
        "  name: coredns",
        "  namespace: kube-system",
        "spec:",
        "  progressDeadlineSeconds: 600",
        "  replicas: 1",
        "  revisionHistoryLimit: 0",
        "  selector:",
        "    matchLabels:",
        "      k8s-app: kube-dns",
        "  template:",
        "    metadata:",
        "      labels:",
        "        k8s-app: kube-dns",
        "    spec:",
        "      containers:",
        "      - args:",
        "        - -conf",
        "        - /etc/coredns/Corefile",
        "        image: rancher/mirrored-coredns-coredns:1.10.1",
        "        imagePullPolicy: IfNotPresent",
        "        name: coredns",
        "        resources:",
        "          limits:",
        "            memory: 170Mi",
        "          requests:",
        "            cpu: 100m",
        "            memory: 70Mi",
        "        securityContext:",
        "          allowPrivilegeEscalation: false",
        "          readOnlyRootFilesystem: true",
        "      dnsPolicy: Default",
        "      securityContext: {}",
        "status:",
        "  availableReplicas: 1",
        "  conditions:",
        "  - lastTransitionTime: \"2024-01-01T00:00:00Z\"",
        "    status: \"True\"",
        "    type: Available",
        "  observedGeneration: 1",
        "  readyReplicas: 1",
        "  replicas: 2",
        "  updatedReplicas: 1",
        "",
    ]
    .join("\n")
}

fn captured(groups: &[Option<&str>]) -> Option<Captures> {
    Some(Captures { groups: groups.iter().map(|g| g.map(String::from)).collect() })
}

#[test]
fn deployment_manifest_gives_its_record() {
    let record = build_deployment_record(&web_manifest(), "web");
    assert_eq!(record.deployment_name, "web");
    assert_eq!(record.api_version, "apps/v1");
    assert_eq!(record.kind, "Deployment");
    assert_eq!(record.replicas, "3");
    assert_eq!(record.image, "nginx:1.25");
    assert_eq!(record.resources.limits.cpu, "500m");
    assert_eq!(record.resources.limits.memory, "256Mi");
    assert_eq!(record.resources.requsts.cpu, "250m");
    assert_eq!(record.resources.requsts.memory, "128Mi");
}

#[test]
fn manifest_as_the_tool_prints_it() {
    let record = build_deployment_record(&coredns_manifest(), "coredns");
    assert_eq!(record.deployment_name, "coredns");
    assert_eq!(record.api_version, "apps/v1");
    assert_eq!(record.kind, "Deployment");
    assert_eq!(record.replicas, "1");
    assert_eq!(record.image, "rancher/mirrored-coredns-coredns:1.10.1");
    assert_eq!(record.resources.limits.cpu, "");
    assert_eq!(record.resources.limits.memory, "170Mi");
    assert_eq!(record.resources.requsts.cpu, "100m");
    assert_eq!(record.resources.requsts.memory, "70Mi");
}

#[test]
fn kind_other_than_deployment_gives_defaults() {
    let manifest = web_manifest().replace("kind: Deployment", "kind: Service");
    let record = build_deployment_record(&manifest, "web");
    assert_eq!(record.deployment_name, "web");
    assert_eq!(record.api_version, "");
    assert_eq!(record.kind, "");
    assert_eq!(record.replicas, "undefined");
    assert_eq!(record.image, "undefined");
    assert_eq!(record.resources.limits.cpu, "");
    assert_eq!(record.resources.limits.memory, "");
    assert_eq!(record.resources.requsts.cpu, "");
    assert_eq!(record.resources.requsts.memory, "");
}

#[test]
fn manifest_that_does_not_match_keeps_the_name() {
    let empty = build_deployment_record("", "api");
    assert_eq!(empty.deployment_name, "api");
    assert_eq!(empty.replicas, "undefined");
    assert_eq!(empty.image, "undefined");
    assert_eq!(empty.api_version, "");
    let no_status = web_manifest().replace("status:", "state:");
    let record = build_deployment_record(&no_status, "api");
    assert_eq!(record.kind, "");
    assert_eq!(record.replicas, "undefined");
    let not_at_start = format!("---\n{}", web_manifest());
    assert_eq!(build_deployment_record(&not_at_start, "api").api_version, "");
    let unnamed = build_deployment_record(&web_manifest(), "");
    assert_eq!(unnamed.deployment_name, "");
    assert_eq!(unnamed.replicas, "3");
}

#[test]
fn spec_without_replicas_is_undefined() {
    let manifest = web_manifest().replace("  replicas: 3\n", "");
    let record = build_deployment_record(&manifest, "web");
    assert_eq!(record.replicas, "undefined");
    assert_eq!(record.image, "nginx:1.25");
    assert_eq!(record.kind, "Deployment");
    assert_eq!(get_replicas_from_spec(String::from("  selector: {}\n")).unwrap(), "undefined");
    assert_eq!(get_replicas_from_spec(String::new()).unwrap(), "undefined");
}

#[test]
fn replicas_are_the_digits_after_the_key() {
    assert_eq!(get_replicas_from_spec(String::from("\n  replicas: 3\n")).unwrap(), "3");
    assert_eq!(get_replicas_from_spec(String::from("replicas: 12 of them")).unwrap(), "12");
    assert_eq!(get_replicas_from_spec(String::from("replicas: 007x")).unwrap(), "007");
    assert_eq!(get_replicas_from_spec(String::from("replicas: many")).unwrap(), "undefined");
    assert_eq!(get_replicas_from_spec(String::from("replicas:3")).unwrap(), "undefined");
    assert_eq!(get_replicas_from_spec(String::from("replicas: 1\nreplicas: 2")).unwrap(), "1");
}

#[test]
fn image_is_the_rest_of_the_line() {
    assert_eq!(get_image_from_spec(String::from("  - image: nginx:1.25\n")).unwrap(), "nginx:1.25");
    assert_eq!(
        get_image_from_spec(String::from("image:   rancher/mirrored-coredns:1.10.1  \nname: x"))
            .unwrap(),
        "rancher/mirrored-coredns:1.10.1"
    );
    assert_eq!(get_image_from_spec(String::from("containers: []\n")).unwrap(), "undefined");
    assert_eq!(get_image_from_spec(String::new()).unwrap(), "undefined");
}

#[test]
fn amounts_are_the_rest_of_the_line_or_empty() {
    assert_eq!(get_cpu(String::from("\n cpu: 500m\n memory: 256Mi\n")).unwrap(), "500m");
    assert_eq!(get_memory(String::from("\n cpu: 500m\n memory: 256Mi\n")).unwrap(), "256Mi");
    assert_eq!(get_cpu(String::from("memory: 1Gi")).unwrap(), "");
    assert_eq!(get_memory(String::from("cpu: 1")).unwrap(), "");
    assert_eq!(get_cpu(String::new()).unwrap(), "");
    assert_eq!(get_memory(String::new()).unwrap(), "");
}

#[test]
fn resources_with_requests_only() {
    let manifest = web_manifest()
        .replace("      limits:\n", "")
        .replace("        cpu: 500m\n", "")
        .replace("        memory: 256Mi\n", "");
    let record = build_deployment_record(&manifest, "web");
    assert_eq!(record.resources.limits.cpu, "");
    assert_eq!(record.resources.limits.memory, "");
    assert_eq!(record.resources.requsts.cpu, "250m");
    assert_eq!(record.resources.requsts.memory, "128Mi");
}

#[test]
fn resources_with_limits_only() {
    let resources = resources_from_block("\n  limits:\n    cpu: 1\n    memory: 2Gi\n");
    assert_eq!(resources.limits.cpu, "1");
    assert_eq!(resources.limits.memory, "2Gi");
    assert_eq!(resources.requsts.cpu, "");
    assert_eq!(resources.requsts.memory, "");
    let spec = " resources:\n  limits:\n   cpu: 500m\n   memory: 256Mi\n securityContext:\n";
    let found = get_resources_from_spec(String::from(spec)).unwrap();
    assert_eq!(found.limits.cpu, "500m");
    assert_eq!(found.limits.memory, "256Mi");
    assert_eq!(found.requsts.cpu, "");
    assert_eq!(found.requsts.memory, "");
    let manifest = web_manifest()
        .replace("      requests:\n", "")
        .replace("        cpu: 250m\n", "")
        .replace("        memory: 128Mi\n", "");
    let record = build_deployment_record(&manifest, "web");
    assert_eq!(record.resources.limits.cpu, "500m");
    assert_eq!(record.resources.limits.memory, "256Mi");
    assert_eq!(record.resources.requsts.cpu, "");
    assert_eq!(record.resources.requsts.memory, "");
}

#[test]
fn limits_end_where_the_requests_begin() {
    let spec = "resources:\n  limits:\n    cpu: 1\n  requests\n  securityContext:\n";
    let found = get_resources_from_spec(String::from(spec)).unwrap();
    assert_eq!(found.limits.cpu, "1");
    assert_eq!(found.limits.memory, "");
    assert_eq!(found.requsts.cpu, "");
    assert_eq!(found.requsts.memory, "");
    let block = "\n  limits:\n    memory: 170Mi\n  requests:\n    cpu: 100m\n    memory: 70Mi\n";
    let resources = resources_from_block(block);
    assert_eq!(resources.limits.cpu, "");
    assert_eq!(resources.limits.memory, "170Mi");
    assert_eq!(resources.requsts.cpu, "100m");
    assert_eq!(resources.requsts.memory, "70Mi");
}

#[test]
fn limits_after_the_requests_are_read_to_the_end() {
    let block = "\n  requests:\n    cpu: 250m\n  limits:\n    cpu: 500m\n    memory: 256Mi\n";
    let resources = resources_from_block(block);
    assert_eq!(resources.limits.cpu, "500m");
    assert_eq!(resources.limits.memory, "256Mi");
    assert_eq!(resources.requsts.cpu, "250m");
}

#[test]
fn blocks_of_limits_and_of_requests() {
    let both = "\n  limits:\n    cpu: 1\n  requests:\n    cpu: 2\n";
    assert_eq!(limits_block(both), Some(String::from("\n    cpu: 1\n")));
    assert_eq!(requests_block(both), Some(String::from("\n    cpu: 2\n")));
    let limits_only = "\n  limits:\n    cpu: 1\n    memory: 2Gi\n";
    assert_eq!(limits_block(limits_only), Some(String::from("\n    cpu: 1\n    memory: 2Gi\n")));
    assert_eq!(requests_block(limits_only), None);
    let requests_only = "\n  requests:\n    cpu: 2\n";
    assert_eq!(limits_block(requests_only), None);
    assert_eq!(requests_block(requests_only), Some(String::from("\n    cpu: 2\n")));
    assert_eq!(limits_block(""), None);
    assert_eq!(requests_block(""), None);
    assert_eq!(limits_block("limits: {}"), None);
}

#[test]
fn resources_need_the_security_context_line() {
    let spec = "resources:\n  limits:\n    cpu: 1\n  requests:\n    cpu: 2\n";
    let none = get_resources_from_spec(String::from(spec)).unwrap();
    assert_eq!(none.limits.cpu, "");
    assert_eq!(none.requsts.cpu, "");
    let with_end = format!("{}  securityContext:\n", spec);
    let some = get_resources_from_spec(with_end).unwrap();
    assert_eq!(some.limits.cpu, "1");
    assert_eq!(some.requsts.cpu, "2");
    assert_eq!(some.limits.memory, "");
    assert_eq!(some.requsts.memory, "");
    let empty = get_resources_from_spec(String::new()).unwrap();
    assert_eq!(empty.limits.memory, "");
    assert_eq!(empty.requsts.memory, "");
}

#[test]
fn resources_from_a_block() {
    let block = "\n  limits:\n    cpu: 500m\n    memory: 256Mi\n  requests:\n    cpu: 250m\n    memory: 128Mi\n";
    let resources = resources_from_block(block);
    assert_eq!(resources.limits.cpu, "500m");
    assert_eq!(resources.limits.memory, "256Mi");
    assert_eq!(resources.requsts.cpu, "250m");
    assert_eq!(resources.requsts.memory, "128Mi");
    let nothing = resources_from_block("");
    assert_eq!(nothing.limits.cpu, "");
    assert_eq!(nothing.requsts.memory, "");
}

#[test]
fn group_two_trimmed_or_the_default() {
    let found = captured(&[Some("cpu: 1 "), Some("cpu: "), Some(" 1 \t")]);
    assert_eq!(trimmed_group_or(&found, "undefined"), "1");
    assert_eq!(second_group(&found), Some(" 1 \t"));
    let short = captured(&[Some("x"), Some("x")]);
    assert_eq!(trimmed_group_or(&short, "undefined"), "undefined");
    assert_eq!(second_group(&short), None);
    let absent = captured(&[Some("x"), Some("x"), None]);
    assert_eq!(trimmed_group_or(&absent, ""), "");
    assert_eq!(second_group(&absent), None);
    assert_eq!(trimmed_group_or(&None, "undefined"), "undefined");
    assert_eq!(second_group(&None), None);
    let blank = captured(&[Some("x"), Some("x"), Some("   ")]);
    assert_eq!(trimmed_group_or(&blank, "undefined"), "");
}

#[test]
fn deployment_from_hand_made_captures() {
    let spec = "\n  replicas: 2\n  image: redis:7\n";
    let found = captured(&[
        Some("all"),
        Some("apiVersion: "),
        Some("apps/v1 "),
        Some("kind: "),
        Some("Deployment"),
        Some("metadata:"),
        Some("\n"),
        Some("\n"),
        Some("spec:"),
        Some(spec),
    ]);
    let record = deployment_from_captures("cache", &found);
    assert_eq!(record.deployment_name, "cache");
    assert_eq!(record.api_version, "apps/v1 ");
    assert_eq!(record.kind, "Deployment");
    assert_eq!(record.replicas, "2");
    assert_eq!(record.image, "redis:7");
    assert_eq!(record.resources.limits.cpu, "");

    let without_spec = captured(&[Some("all"), None, Some("apps/v1"), None, Some("Deployment")]);
    let record = deployment_from_captures("cache", &without_spec);
    assert_eq!(record.deployment_name, "cache");
    assert_eq!(record.api_version, "");
    assert_eq!(record.kind, "");
    assert_eq!(record.replicas, "undefined");
    assert_eq!(record.image, "undefined");

    let nothing = deployment_from_captures("cache", &None);
    assert_eq!(nothing.deployment_name, "cache");
    assert_eq!(nothing.replicas, "undefined");
    assert_eq!(nothing.image, "undefined");
    assert_eq!(nothing.api_version, "");
    assert_eq!(nothing.kind, "");
}

#[test]
fn namespace_is_collected_with_its_manifests() {
    let names = manifest_lines(&["api", "web"]);
    let manifests = vec![manifest_lines(&["apiVersion: apps/v1", "kind: Deployment"]), Vec::new()];
    let details = collect_namespace("default", &names, &manifests);
    assert_eq!(details.namespace, "default");
    assert_eq!(details.deployment_details.len(), 2);
    assert_eq!(details.deployment_details[0].deployment, "api");
    assert_eq!(details.deployment_details[0].details, "apiVersion: apps/v1\nkind: Deployment\n");
    assert_eq!(details.deployment_details[1].deployment, "web");
    assert_eq!(details.deployment_details[1].details, "");
}

#[test]
fn every_namespace_has_an_entry() {
    let namespaces = Namespaces { namesapces: manifest_lines(&["apps", "empty", "tools"]) };
    let names = vec![manifest_lines(&["web"]), Vec::new(), manifest_lines(&["a", "b"])];
    let manifests = vec![
        vec![manifest_lines(&["w"])],
        Vec::new(),
        vec![manifest_lines(&["x", "y"]), manifest_lines(&["z"])],
    ];
    let all = get_deployments_and_details_by_namespace(&namespaces, &names, &manifests).unwrap();
    assert_eq!(all.all_namespace_details.len(), 3);
    assert_eq!(all.all_namespace_details[0].namespace, "apps");
    assert_eq!(all.all_namespace_details[0].deployment_details[0].details, "w\n");
    assert_eq!(all.all_namespace_details[1].namespace, "empty");
    assert!(all.all_namespace_details[1].deployment_details.is_empty());
    assert_eq!(all.all_namespace_details[2].namespace, "tools");
    assert_eq!(all.all_namespace_details[2].deployment_details[0].deployment, "a");
    assert_eq!(all.all_namespace_details[2].deployment_details[0].details, "x\ny\n");
    assert_eq!(all.all_namespace_details[2].deployment_details[1].deployment, "b");
    assert_eq!(all.all_namespace_details[2].deployment_details[1].details, "z\n");
}

#[test]
fn no_deployment_is_left_out() {
    let all = AllNamespaceDetails {
        all_namespace_details: vec![
            NamespaceDetails {
                namespace: String::from("default"),
                deployment_details: vec![
                    DeploymentDetails { deployment: String::from("web"), details: web_manifest() },
                    DeploymentDetails {
                        deployment: String::from("odd"),
                        details: String::from("kind: Pod\n"),
                    },
                ],
            },
            NamespaceDetails { namespace: String::from("empty"), deployment_details: Vec::new() },
        ],
    };
    let total = process_deployment_details_handler(&all).unwrap();
    assert_eq!(total.total_details.len(), 2);
    assert_eq!(total.total_details[0].namespace, "default");
    assert_eq!(total.total_details[0].deployment_details.len(), 2);
    assert_eq!(total.total_details[0].deployment_details[0].deployment_name, "web");
    assert_eq!(total.total_details[0].deployment_details[0].replicas, "3");
    assert_eq!(total.total_details[0].deployment_details[1].deployment_name, "odd");
    assert_eq!(total.total_details[0].deployment_details[1].replicas, "undefined");
    assert_eq!(total.total_details[0].deployment_details[1].kind, "");
    assert_eq!(total.total_details[1].namespace, "empty");
    assert!(total.total_details[1].deployment_details.is_empty());
    let one = process_namespace(&all.all_namespace_details[0]);
    assert_eq!(one.namespace, "default");
    assert_eq!(one.deployment_details[0].image, "nginx:1.25");
}

#[test]
fn deployment_inventory_end_to_end() {
    let namespaces = Namespaces { namesapces: manifest_lines(&["default", "kube-system"]) };
    let names = vec![manifest_lines(&["web"]), Vec::new()];
    let web: Vec<String> = web_manifest().lines().map(String::from).collect();
    let manifests = vec![vec![web], Vec::new()];
    let total = get_namespace_details_handler(&namespaces, &names, &manifests).unwrap();
    assert_eq!(total.total_details.len(), 2);
    assert_eq!(total.total_details[0].namespace, "default");
    assert_eq!(total.total_details[0].deployment_details.len(), 1);
    let record = &total.total_details[0].deployment_details[0];
    assert_eq!(record.deployment_name, "web");
    assert_eq!(record.api_version, "apps/v1");
    assert_eq!(record.image, "nginx:1.25");
    assert_eq!(record.resources.requsts.memory, "128Mi");
    assert_eq!(total.total_details[1].namespace, "kube-system");
    assert!(total.total_details[1].deployment_details.is_empty());
}

#[test]
fn inventory_stands_in_the_order_of_the_sorted_names() {
    let listed = manifest_lines(&["namespace/tools", "namespace/apps"]);
    let namespaces = get_namespaces(&listed).unwrap();
    assert_eq!(namespaces.namesapces, manifest_lines(&["apps", "tools"]));
    let of_apps = get_deployment_names(&manifest_lines(&[
        "deployment.apps/web",
        "deployment.apps/api",
        "deployment.apps/db",
    ]));
    let of_tools = get_deployment_names(&manifest_lines(&["deployment.apps/z", "deployment.apps/a"]));
    let manifests = vec![
        vec![Vec::new(), Vec::new(), Vec::new()],
        vec![Vec::new(), Vec::new()],
    ];
    let names = vec![of_apps, of_tools];
    let total = get_namespace_details_handler(&namespaces, &names, &manifests).unwrap();
    let read = |i: usize| -> Vec<String> {
        total.total_details[i]
            .deployment_details
            .iter()
            .map(|d| d.deployment_name.clone())
            .collect()
    };
    assert_eq!(total.total_details[0].namespace, "apps");
    assert_eq!(read(0), manifest_lines(&["api", "db", "web"]));
    assert_eq!(total.total_details[1].namespace, "tools");
    assert_eq!(read(1), manifest_lines(&["a", "z"]));
}
