use cppbind::modules::{module_segments, ModuleTree, Scope};
use cppbind::naming::{mangle_symbol, SymbolNamer};

fn strs(v: &[&str]) -> Vec<String> {
    v.iter().map(|s| s.to_string()).collect()
}

#[test]
fn mangle_joins_path_and_discriminators() {
    assert_eq!(mangle_symbol(&strs(&["ns", "Stack", "push"]), &strs(&["int"])), "ns_Stack_push_int");
    assert_eq!(mangle_symbol(&strs(&["f"]), &strs(&[])), "f");
    assert_eq!(mangle_symbol(&strs(&[]), &strs(&[])), "");
}

#[test]
fn namer_appends_lowest_free_index() {
    let mut n = SymbolNamer::new();
    assert_eq!(n.claim(String::from("new")), "new");
    assert_eq!(n.claim(String::from("new")), "new_1");
    assert_eq!(n.claim(String::from("new")), "new_2");
}

#[test]
fn namer_skips_taken_indices() {
    let mut n = SymbolNamer::new();
    assert_eq!(n.claim(String::from("f_1")), "f_1");
    assert_eq!(n.claim(String::from("f")), "f");
    assert_eq!(n.claim(String::from("f")), "f_2");
    assert_eq!(n.name(&strs(&["f"]), &strs(&["1"])), "f_1_1");
}

#[test]
fn namer_counts_past_nine() {
    let mut n = SymbolNamer::new();
    let mut last = String::new();
    for _ in 0..12 {
        last = n.claim(String::from("x"));
    }
    assert_eq!(last, "x_11");
}

#[test]
fn module_segments_mirror_scopes() {
    let scopes = vec![Scope::Named(String::from("outer")), Scope::Anonymous, Scope::Named(String::from("Inner"))];
    assert_eq!(module_segments(&scopes), strs(&["outer", "anonymous", "Inner"]));
}

#[test]
fn module_tree_adds_enclosing_modules_once() {
    let mut t = ModuleTree::new();
    t.add_path(&strs(&["a", "b", "c"]));
    t.add_path(&strs(&["a", "d"]));
    assert!(t.contains(&strs(&["a"])));
    assert!(t.contains(&strs(&["a", "b"])));
    assert!(t.contains(&strs(&["a", "b", "c"])));
    assert!(t.contains(&strs(&["a", "d"])));
    assert!(!t.contains(&strs(&["b"])));
    assert!(!t.contains(&strs(&[])));
}
