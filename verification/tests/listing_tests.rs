use fpv::listing::{
    directory_first_cmp, is_filesystem_root, is_hidden_name, list_current_directory,
    list_current_directory_with_visibility, parent_path,
};
use fpv::{NodeType, TreeNode};

fn node(name: &str, node_type: NodeType) -> TreeNode {
    TreeNode {
        path: format!("/d/{name}"),
        name: name.to_string(),
        node_type,
        depth: 0,
        expanded: false,
        readable: true,
        children_loaded: false,
    }
}

#[test]
fn sorts_directory_first_then_files() {
    let raw = vec![
        node("zeta.txt", NodeType::File),
        node("beta_dir", NodeType::Directory),
        node("alpha.txt", NodeType::File),
        node("alpha_dir", NodeType::Directory),
    ];
    let nodes = list_current_directory(raw, 2000);
    let kinds: Vec<NodeType> = nodes.iter().map(|n| n.node_type.clone()).collect();
    let names: Vec<String> = nodes.iter().map(|n| n.name.clone()).collect();

    assert_eq!(kinds[0], NodeType::Directory);
    assert_eq!(kinds[1], NodeType::Directory);
    assert_eq!(kinds[2], NodeType::File);
    assert_eq!(kinds[3], NodeType::File);
    assert_eq!(names, vec!["alpha_dir", "beta_dir", "alpha.txt", "zeta.txt"]);
}

#[test]
fn case_insensitive_order_breaks_ties_by_exact_bytes() {
    let raw = vec![
        node("readme.md", NodeType::File),
        node("README.md", NodeType::File),
        node("Changelog", NodeType::File),
    ];
    let names: Vec<String> = list_current_directory(raw, 2000)
        .iter()
        .map(|n| n.name.clone())
        .collect();
    assert_eq!(names, vec!["Changelog", "README.md", "readme.md"]);
}

#[test]
fn hides_dot_entries_when_show_hidden_is_false() {
    let raw = vec![
        node(".hidden_dir", NodeType::Directory),
        node("visible_dir", NodeType::Directory),
        node(".hidden.txt", NodeType::File),
        node("visible.txt", NodeType::File),
    ];

    let hidden = list_current_directory_with_visibility(raw.clone(), 2000, true);
    let filtered = list_current_directory_with_visibility(raw, 2000, false);

    let hidden_names: Vec<String> = hidden.iter().map(|n| n.name.clone()).collect();
    let filtered_names: Vec<String> = filtered.iter().map(|n| n.name.clone()).collect();

    assert!(hidden_names.contains(&".hidden_dir".to_string()));
    assert!(hidden_names.contains(&".hidden.txt".to_string()));
    assert!(!filtered_names.iter().any(|n| n.starts_with('.')));
}

#[test]
fn entry_cap_drops_the_excess_silently() {
    let raw = vec![
        node("a", NodeType::File),
        node("b", NodeType::File),
        node("c", NodeType::File),
    ];
    let nodes = list_current_directory(raw, 2);
    assert_eq!(nodes.len(), 2);
}

#[test]
fn hidden_names_start_with_a_dot() {
    assert!(is_hidden_name(".bashrc"));
    assert!(!is_hidden_name("bashrc"));
    assert!(!is_hidden_name(""));
}

#[test]
fn comparator_orders_directories_before_files() {
    let a = node("zzz", NodeType::Directory);
    let b = node("aaa", NodeType::File);
    assert_eq!(directory_first_cmp(&a, &b), std::cmp::Ordering::Less);
    assert_eq!(directory_first_cmp(&b, &a), std::cmp::Ordering::Greater);
    assert_eq!(directory_first_cmp(&a, &a), std::cmp::Ordering::Equal);
}

#[test]
fn parent_paths_walk_toward_the_root() {
    assert_eq!(parent_path("/a/b"), Some("/a".to_string()));
    assert_eq!(parent_path("/a"), Some("/".to_string()));
    assert_eq!(parent_path("/"), None);
    assert_eq!(parent_path("name"), Some(String::new()));
    assert!(is_filesystem_root("/"));
    assert!(!is_filesystem_root("/a"));
}
