use cppbind::inheritance::{
    capability_traits, check_hierarchy, public_bases, resolve_qualified, resolve_unqualified, Access, BaseEdge,
    LookupError, Method, Record,
};

fn record(name: &str, bases: Vec<(usize, Access)>, methods: &[&str]) -> Record {
    Record {
        name: String::from(name),
        bases: bases.into_iter().map(|(base, access)| BaseEdge { base, access, is_virtual: false }).collect(),
        methods: methods.iter().map(|m| Method { name: m.to_string(), is_virtual: true }).collect(),
    }
}

fn two_bases() -> Vec<Record> {
    vec![
        record("TestBase1", vec![], &["get_value"]),
        record("TestBase2", vec![], &["get_value"]),
        record("TestDerived", vec![(0, Access::Public), (1, Access::Public)], &[]),
    ]
}

#[test]
fn multiple_inheritance_same_name_needs_qualification() {
    let h = two_bases();
    assert!(check_hierarchy(&h));
    let name = String::from("get_value");
    assert_eq!(resolve_unqualified(&h, 2, &name), Err(LookupError::Ambiguous));
    assert_eq!(resolve_qualified(&h, 2, 0, &name), Ok(0));
    assert_eq!(resolve_qualified(&h, 2, 1, &name), Ok(1));
}

#[test]
fn own_override_reached_every_way() {
    let mut h = two_bases();
    h[2].methods.push(Method { name: String::from("get_value"), is_virtual: true });
    let name = String::from("get_value");
    assert_eq!(resolve_unqualified(&h, 2, &name), Ok(2));
    assert_eq!(resolve_qualified(&h, 2, 0, &name), Ok(2));
    assert_eq!(resolve_qualified(&h, 2, 1, &name), Ok(2));
}

#[test]
fn most_derived_override_along_chain() {
    let h = vec![
        record("Base", vec![], &["f", "g"]),
        record("Mid", vec![(0, Access::Public)], &["f"]),
        record("Leaf", vec![(1, Access::Public)], &[]),
    ];
    let f = String::from("f");
    assert_eq!(resolve_qualified(&h, 2, 0, &f), Ok(1));
    assert_eq!(resolve_unqualified(&h, 2, &String::from("g")), Ok(0));
    assert_eq!(resolve_unqualified(&h, 2, &String::from("missing")), Err(LookupError::NotFound));
}

#[test]
fn private_base_gives_no_trait() {
    let h = vec![
        record("Hidden", vec![], &["secret"]),
        record("Shown", vec![], &["open"]),
        record("User", vec![(0, Access::Private), (1, Access::Public)], &["own"]),
    ];
    assert_eq!(capability_traits(&h, 2), vec![1]);
    assert_eq!(public_bases(&h, 2), vec![false, true, true]);
    assert_eq!(resolve_qualified(&h, 2, 0, &String::from("secret")), Err(LookupError::NotACapability));
    assert_eq!(resolve_unqualified(&h, 2, &String::from("secret")), Err(LookupError::NotFound));
    assert_eq!(resolve_qualified(&h, 2, 1, &String::from("nothing")), Err(LookupError::NotFound));
}

#[test]
fn diamond_reaches_shared_base() {
    let h = vec![
        record("Top", vec![], &["id"]),
        record("Left", vec![(0, Access::Public)], &[]),
        record("Right", vec![(0, Access::Public)], &[]),
        record("Bottom", vec![(1, Access::Public), (2, Access::Public)], &[]),
    ];
    assert_eq!(capability_traits(&h, 3), vec![0]);
    assert_eq!(resolve_unqualified(&h, 3, &String::from("id")), Ok(0));
}

#[test]
fn cyclic_order_is_rejected() {
    let h = vec![record("A", vec![(1, Access::Public)], &[]), record("B", vec![], &[])];
    assert!(!check_hierarchy(&h));
}
