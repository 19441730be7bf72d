use vstd::prelude::*;
use crate::operators::OperatorKind;

verus! {

/// How a parameter or a return value is passed across the boundary.
#[derive(Debug, Clone, Copy, PartialEq, Eq, Structural)]
pub enum ParamKind {
    Value,
    Pointer,
    LValueRef,
    RValueRef,
}

/// A parameter of a function or method, as the front end describes it.
#[derive(Debug, Clone)]
pub struct Param {
    pub ty: String,
    pub kind: ParamKind,
    pub is_const: bool,
    /// Whether the parameter's type can be copy-constructed.
    pub copyable: bool,
    /// Whether the parameter's type can be move-constructed.
    pub movable: bool,
    /// The default value, as a native expression token; never evaluated here.
    pub default: Option<String>,
}

/// A function or method declaration.
#[derive(Debug, Clone)]
pub struct Function {
    /// The enclosing scopes, outermost first.
    pub path: Vec<String>,
    pub name: String,
    /// The operator this declaration overloads, if any; its operands are
    /// all listed among the parameters.
    pub operator: Option<OperatorKind>,
    pub params: Vec<Param>,
    pub ret: Param,
    /// Whether the native code may throw.
    pub throws: bool,
    pub is_virtual: bool,
    /// The capability trait through which a virtual method is forwarded,
    /// as the inheritance forwarder chose it.
    pub dispatch_base: Option<usize>,
}

} // verus!
