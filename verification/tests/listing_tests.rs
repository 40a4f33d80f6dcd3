use cluster_reader::deployment::{get_deployment_names, get_namespaces};
use cluster_reader::listing::{identifier, identifiers, join_lines, sorted_identifiers};
use cluster_reader::node::get_node_list;

fn tokens(names: &[&str]) -> Vec<String> {
    names.iter().map(|s| String::from(*s)).collect()
}

#[test]
fn identifier_is_what_follows_the_first_slash() {
    assert_eq!(identifier("node/worker-1"), Some(String::from("worker-1")));
    assert_eq!(identifier("namespace/kube-system"), Some(String::from("kube-system")));
    assert_eq!(identifier("deployment.apps/coredns"), Some(String::from("coredns")));
    assert_eq!(identifier("/x"), Some(String::from("x")));
    assert_eq!(identifier("a/b/c"), Some(String::from("b/c")));
}

#[test]
fn identifier_is_never_empty() {
    assert_eq!(identifier("worker-1"), None);
    assert_eq!(identifier(""), None);
    assert_eq!(identifier("node/"), None);
    assert_eq!(identifier("/"), None);
}

#[test]
fn identifiers_keep_the_order_of_the_tokens() {
    let listed = tokens(&["node/worker-2", "garbage", "node/master", "node/", "node/worker-1"]);
    assert_eq!(identifiers(&listed), tokens(&["worker-2", "master", "worker-1"]));
    assert_eq!(identifiers(&tokens(&["x", "y/"])), Vec::<String>::new());
}

#[test]
fn sorted_identifiers_orders_and_skips() {
    let listed = tokens(&["node/worker-2", "garbage", "node/master", "node/", "node/worker-1"]);
    assert_eq!(sorted_identifiers(&listed), tokens(&["master", "worker-1", "worker-2"]));
    assert_eq!(sorted_identifiers(&Vec::new()), Vec::<String>::new());
}

#[test]
fn node_names_are_sorted_whatever_the_order_listed() {
    let forward = tokens(&["node/a", "node/b", "node/c"]);
    let backward = tokens(&["node/c", "node/b", "node/a"]);
    let mixed = tokens(&["node/b", "node/c", "node/a"]);
    let want = tokens(&["a", "b", "c"]);
    assert_eq!(get_node_list(&forward).unwrap().node_name, want);
    assert_eq!(get_node_list(&backward).unwrap().node_name, want);
    assert_eq!(get_node_list(&mixed).unwrap().node_name, want);
}

#[test]
fn node_names_sort_by_character_not_by_number() {
    let listed = tokens(&["node/worker-10", "node/worker-9", "node/Worker-1", "node/worker-1"]);
    let list = get_node_list(&listed).unwrap();
    assert_eq!(list.node_name, tokens(&["Worker-1", "worker-1", "worker-10", "worker-9"]));
}

#[test]
fn namespace_names_are_sorted_whatever_the_order_listed() {
    let listed = tokens(&[
        "namespace/kube-system",
        "namespace/default",
        "namespace/kube-public",
        "namespace/apps",
    ]);
    let list = get_namespaces(&listed).unwrap();
    assert_eq!(list.namesapces, tokens(&["apps", "default", "kube-public", "kube-system"]));
}

#[test]
fn namespace_without_a_second_part_is_passed_over() {
    let listed = tokens(&["namespace/default", "broken", "namespace/apps"]);
    assert_eq!(get_namespaces(&listed).unwrap().namesapces, tokens(&["apps", "default"]));
}

#[test]
fn deployment_names_are_sorted() {
    let listed = tokens(&["deployment.apps/web", "deployment.apps/api", "deployment.apps/db"]);
    assert_eq!(get_deployment_names(&listed), tokens(&["api", "db", "web"]));
    assert_eq!(get_deployment_names(&Vec::new()), Vec::<String>::new());
}

#[test]
fn a_name_listed_twice_stays_twice() {
    let listed = tokens(&["node/b", "node/a", "node/b"]);
    assert_eq!(get_node_list(&listed).unwrap().node_name, tokens(&["a", "b", "b"]));
}

#[test]
fn join_lines_ends_each_line_with_a_line_feed() {
    assert_eq!(join_lines(&tokens(&["Name:  n", "Roles: r"])), "Name:  n\nRoles: r\n");
    assert_eq!(join_lines(&tokens(&["only"])), "only\n");
    assert_eq!(join_lines(&tokens(&["", ""])), "\n\n");
    assert_eq!(join_lines(&Vec::new()), "");
}
