use cppbind::defaults::{complete_arguments, expand_defaults, trailing_default_count, Arity, ArityOrigin};
use cppbind::enums::{resolve_enum_values, EnumOverflow, Enumerator};
use cppbind::ir::{Function, Param, ParamKind};
use cppbind::operators::{map_operator, BinaryOp, MappedOperator, OperatorKind};
use cppbind::ownership::{classify, pass_argument, Instance, Lifetimes, NotTransferable, Ownership, PassError};
use cppbind::plan::{build_plan, Dispatch, FailureChannel, PlanError, Position};
use cppbind::templates::{instantiate, select_instantiations};
use cppbind::naming::SymbolNamer;

fn strs(v: &[&str]) -> Vec<String> {
    v.iter().map(|s| s.to_string()).collect()
}

fn param(kind: ParamKind, default: Option<&str>) -> Param {
    Param {
        ty: String::from("int"),
        kind,
        is_const: false,
        copyable: true,
        movable: true,
        default: default.map(|d| d.to_string()),
    }
}

fn func(path: &[&str], name: &str, params: Vec<Param>, throws: bool) -> Function {
    Function {
        path: strs(path),
        name: String::from(name),
        operator: None,
        params,
        ret: param(ParamKind::Value, None),
        throws,
        is_virtual: false,
        dispatch_base: None,
    }
}

#[test]
fn classify_each_kind() {
    let mut p = param(ParamKind::Value, None);
    assert_eq!(classify(&p), Ok(Ownership::OwnedCopy));
    p.copyable = false;
    assert_eq!(classify(&p), Ok(Ownership::OwnedMove));
    p.movable = false;
    assert_eq!(classify(&p), Err(NotTransferable));
    let mut q = param(ParamKind::Pointer, None);
    q.is_const = true;
    assert_eq!(classify(&q), Ok(Ownership::Borrowed { nullable: true, mutable: false }));
    let r = param(ParamKind::LValueRef, None);
    assert_eq!(classify(&r), Ok(Ownership::Borrowed { nullable: false, mutable: true }));
    let s = param(ParamKind::RValueRef, None);
    assert_eq!(classify(&s), Ok(Ownership::Consumed));
}

#[test]
fn rvalue_ref_marks_source_moved() {
    let mut a = Instance::new(1);
    let how = classify(&param(ParamKind::RValueRef, None)).unwrap();
    assert!(pass_argument(&mut a, how).is_ok());
    assert!(a.was_moved());
    assert_eq!(a.state, 1);
    assert_eq!(pass_argument(&mut a, how), Err(PassError::AlreadyMoved));
    assert!(pass_argument(&mut a, Ownership::Borrowed { nullable: false, mutable: true }).is_ok());
}

#[test]
fn lvalue_ref_does_not_move() {
    let mut a = Instance::new(3);
    let how = classify(&param(ParamKind::LValueRef, None)).unwrap();
    assert!(pass_argument(&mut a, how).is_ok());
    assert!(!a.was_moved());
}

#[test]
fn destruction_counted_once_per_instance() {
    let mut life = Lifetimes::new();
    let a = Instance::new(0);
    life.destroy(a);
    assert_eq!(life.destroyed, 1);
    let b = Instance::new(1);
    assert_eq!(b.state, 1);
    life.destroy(b);
    assert_eq!(life.destroyed, 2);
}

#[test]
fn expand_trailing_defaults() {
    let params = vec![param(ParamKind::Value, None), param(ParamKind::Value, Some("1")), param(ParamKind::Value, Some("2"))];
    assert_eq!(trailing_default_count(&params), 2);
    let a = expand_defaults(&params, &vec![]);
    assert_eq!(a, vec![
        Arity { arity: 3, origin: ArityOrigin::Declared },
        Arity { arity: 2, origin: ArityOrigin::Synthesized },
        Arity { arity: 1, origin: ArityOrigin::Synthesized },
    ]);
}

#[test]
fn explicit_overload_wins() {
    let params = vec![param(ParamKind::Value, Some("0")), param(ParamKind::Value, Some("1"))];
    let a = expand_defaults(&params, &vec![1]);
    assert_eq!(a, vec![
        Arity { arity: 2, origin: ArityOrigin::Declared },
        Arity { arity: 1, origin: ArityOrigin::Explicit },
        Arity { arity: 0, origin: ArityOrigin::Synthesized },
    ]);
}

#[test]
fn default_only_counts_trailing() {
    let params = vec![param(ParamKind::Value, Some("5")), param(ParamKind::Value, None)];
    assert_eq!(trailing_default_count(&params), 0);
    assert_eq!(expand_defaults(&params, &vec![]).len(), 1);
}

#[test]
fn omitted_and_explicit_defaults_complete_alike() {
    let params = vec![param(ParamKind::Value, None), param(ParamKind::Value, Some("1")), param(ParamKind::Value, Some("2"))];
    let short = complete_arguments(&params, &strs(&["x"])).unwrap();
    let full = complete_arguments(&params, &strs(&["x", "1", "2"])).unwrap();
    assert_eq!(short, strs(&["x", "1", "2"]));
    assert_eq!(short, full);
    assert!(complete_arguments(&params, &strs(&[])).is_none());
    assert!(complete_arguments(&params, &strs(&["a", "b", "c", "d"])).is_none());
}

#[test]
fn operators_map_to_names() {
    let owner = String::from("Vec2");
    assert!(matches!(map_operator(OperatorKind::Deref, &owner), MappedOperator::Method(ref n) if n == "deref"));
    assert!(matches!(map_operator(OperatorKind::PreIncrement, &owner), MappedOperator::Method(ref n) if n == "inc_pre"));
    assert!(matches!(map_operator(OperatorKind::PostIncrement, &owner), MappedOperator::Method(ref n) if n == "inc_post"));
    assert!(matches!(map_operator(OperatorKind::BoolConversion, &owner), MappedOperator::Method(ref n) if n == "cast_bool"));
    assert!(matches!(map_operator(OperatorKind::Call, &owner), MappedOperator::Method(ref n) if n == "call"));
    assert!(matches!(map_operator(OperatorKind::Binary(BinaryOp::Add), &owner), MappedOperator::FreeFunction(ref n) if n == "add_Vec2"));
    assert!(matches!(map_operator(OperatorKind::Binary(BinaryOp::Lt), &owner), MappedOperator::FreeFunction(ref n) if n == "lt_Vec2"));
}

#[test]
fn equal_instantiations_collapse() {
    let reqs = vec![strs(&["int"]), strs(&["double"]), strs(&["int"]), strs(&["int", "3"])];
    assert_eq!(select_instantiations(&reqs), vec![strs(&["int"]), strs(&["double"]), strs(&["int", "3"])]);
}

#[test]
fn instantiations_named_by_arguments() {
    let mut namer = SymbolNamer::new();
    let reqs = vec![strs(&["int"]), strs(&["double"]), strs(&["int"])];
    let insts = instantiate(&mut namer, &strs(&["Stack"]), &reqs);
    assert_eq!(insts.len(), 2);
    assert_eq!(insts[0].symbol, "Stack_int");
    assert_eq!(insts[1].symbol, "Stack_double");
    assert_eq!(insts[1].args, strs(&["double"]));
}

#[test]
fn enum_explicit_values_preserved() {
    let es = vec![
        Enumerator { name: String::from("Enum1"), value: Some(1) },
        Enumerator { name: String::from("Enum2"), value: Some(2) },
    ];
    assert_eq!(resolve_enum_values(&es), Ok(vec![1, 2]));
}

#[test]
fn enum_implicit_values_and_duplicates() {
    let es = vec![
        Enumerator { name: String::from("A"), value: None },
        Enumerator { name: String::from("B"), value: None },
        Enumerator { name: String::from("C"), value: Some(0) },
        Enumerator { name: String::from("D"), value: None },
    ];
    assert_eq!(resolve_enum_values(&es), Ok(vec![0, 1, 0, 1]));
}

#[test]
fn enum_implicit_overflow() {
    let es = vec![
        Enumerator { name: String::from("Last"), value: Some(i64::MAX) },
        Enumerator { name: String::from("Over"), value: None },
    ];
    assert_eq!(resolve_enum_values(&es), Err(EnumOverflow { index: 1 }));
}

#[test]
fn two_constructors_get_distinct_factories() {
    let fs = vec![
        func(&["TestAClass"], "new", vec![], false),
        func(&["TestAClass"], "new", vec![param(ParamKind::Value, None)], false),
    ];
    let plan = build_plan(&fs).unwrap();
    assert_eq!(plan.len(), 2);
    assert_eq!(plan[0].wrapper_ident, "TestAClass_new");
    assert_eq!(plan[1].wrapper_ident, "TestAClass_new_1");
    assert_ne!(plan[0].shim_symbol, plan[1].shim_symbol);
    assert_eq!(plan[0].arity, 0);
    assert_eq!(plan[1].arity, 1);
}

#[test]
fn throwing_function_gets_error_channel() {
    let fs = vec![
        func(&[], "add_throw_runtime", vec![param(ParamKind::Value, None), param(ParamKind::Value, None)], true),
        func(&[], "add_nothrow", vec![param(ParamKind::Value, None), param(ParamKind::Value, None)], false),
    ];
    let plan = build_plan(&fs).unwrap();
    assert_eq!(plan[0].failure, FailureChannel::ErrorResult);
    assert_eq!(plan[1].failure, FailureChannel::Infallible);
    assert_eq!(plan[0].dispatch, Dispatch::Static);
    assert_eq!(plan[0].params, vec![Ownership::OwnedCopy, Ownership::OwnedCopy]);
}

#[test]
fn defaults_expand_into_entries() {
    let fs = vec![
        func(&["ns"], "f", vec![param(ParamKind::Value, None), param(ParamKind::Value, Some("1")), param(ParamKind::RValueRef, Some("2"))], false),
        func(&["ns"], "f", vec![param(ParamKind::Pointer, None), param(ParamKind::Value, None)], false),
    ];
    let plan = build_plan(&fs).unwrap();
    let arities: Vec<(usize, usize)> = plan.iter().map(|e| (e.origin, e.arity)).collect();
    assert_eq!(arities, vec![(0, 3), (0, 1), (1, 2)]);
    assert_eq!(plan[0].params[2], Ownership::Consumed);
    assert_eq!(plan[1].shim_symbol, "ns_f_1");
    assert_eq!(plan[0].shim_symbol, "ns_f");
    assert_eq!(plan[2].shim_symbol, "ns_f_2");
}

#[test]
fn virtual_method_forwards_through_trait() {
    let mut f = func(&["Derived"], "speak", vec![], false);
    f.is_virtual = true;
    f.dispatch_base = Some(0);
    let plan = build_plan(&vec![f]).unwrap();
    assert_eq!(plan[0].dispatch, Dispatch::VirtualForward(0));
}

#[test]
fn immovable_value_parameter_fails_plan() {
    let mut bad = param(ParamKind::Value, None);
    bad.copyable = false;
    bad.movable = false;
    let fs = vec![
        func(&[], "ok", vec![], false),
        func(&[], "takes", vec![param(ParamKind::Pointer, None), bad], false),
    ];
    assert_eq!(build_plan(&fs).unwrap_err(), PlanError { origin: 1, position: Position::Param(1) });
}

#[test]
fn immovable_return_fails_plan() {
    let mut f = func(&[], "make", vec![], false);
    f.ret.copyable = false;
    f.ret.movable = false;
    assert_eq!(build_plan(&vec![f]).unwrap_err(), PlanError { origin: 0, position: Position::Return });
}

#[test]
fn operator_becomes_named_entry() {
    let mut plus = func(&["geo"], "operator+", vec![param(ParamKind::LValueRef, None), param(ParamKind::LValueRef, None)], false);
    plus.params[0].ty = String::from("Vec2");
    plus.operator = Some(OperatorKind::Binary(BinaryOp::Add));
    let mut deref = func(&["geo", "Iter"], "operator*", vec![], false);
    deref.operator = Some(OperatorKind::Deref);
    let plan = build_plan(&vec![plus, deref]).unwrap();
    assert_eq!(plan[0].shim_symbol, "geo_add_Vec2");
    assert_eq!(plan[1].wrapper_ident, "geo_Iter_deref");
}
