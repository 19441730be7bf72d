use vstd::prelude::*;

verus! {

/// A binary arithmetic or comparison operator.
#[derive(Debug, Clone, Copy, PartialEq, Eq, Structural)]
pub enum BinaryOp {
    Add,
    Sub,
    Mul,
    Div,
    Rem,
    Eq,
    Ne,
    Lt,
    Le,
    Gt,
    Ge,
}

/// An overloaded operator.
#[derive(Debug, Clone, Copy, PartialEq, Eq, Structural)]
pub enum OperatorKind {
    Deref,
    PreIncrement,
    PostIncrement,
    BoolConversion,
    Call,
    Binary(BinaryOp),
}

/// What an operator becomes: a method on the owner, or a free function
/// that takes both operands explicitly.
#[derive(Debug, Clone)]
pub enum MappedOperator {
    Method(String),
    FreeFunction(String),
}

/// The word that names a binary operator.
pub open spec fn binary_word(op: BinaryOp) -> Seq<char> {
    match op {
        BinaryOp::Add => "add"@,
        BinaryOp::Sub => "sub"@,
        BinaryOp::Mul => "mul"@,
        BinaryOp::Div => "div"@,
        BinaryOp::Rem => "rem"@,
        BinaryOp::Eq => "eq"@,
        BinaryOp::Ne => "ne"@,
        BinaryOp::Lt => "lt"@,
        BinaryOp::Le => "le"@,
        BinaryOp::Gt => "gt"@,
        BinaryOp::Ge => "ge"@,
    }
}

/// The method that a unary or call operator becomes.
pub open spec fn method_word(op: OperatorKind) -> Seq<char> {
    match op {
        OperatorKind::Deref => "deref"@,
        OperatorKind::PreIncrement => "inc_pre"@,
        OperatorKind::PostIncrement => "inc_post"@,
        OperatorKind::BoolConversion => "cast_bool"@,
        OperatorKind::Call => "call"@,
        OperatorKind::Binary(b) => binary_word(b),
    }
}

pub(crate) fn binary_text(op: BinaryOp) -> (r: String)
    ensures
        r@ == binary_word(op),
{
    match op {
        BinaryOp::Add => String::from_str("add"),
        BinaryOp::Sub => String::from_str("sub"),
        BinaryOp::Mul => String::from_str("mul"),
        BinaryOp::Div => String::from_str("div"),
        BinaryOp::Rem => String::from_str("rem"),
        BinaryOp::Eq => String::from_str("eq"),
        BinaryOp::Ne => String::from_str("ne"),
        BinaryOp::Lt => String::from_str("lt"),
        BinaryOp::Le => String::from_str("le"),
        BinaryOp::Gt => String::from_str("gt"),
        BinaryOp::Ge => String::from_str("ge"),
    }
}

/// Maps an operator declared on `owner` to its named equivalent: unary and
/// call operators become methods; a binary operator becomes the free function
/// `<op>_<owner>`.
pub fn map_operator(op: OperatorKind, owner: &String) -> (r: MappedOperator)
    ensures
        match op {
            OperatorKind::Binary(b) => r is FreeFunction
                && r->FreeFunction_0@ == binary_word(b) + seq!['_'] + owner@,
            _ => r is Method && r->Method_0@ == method_word(op),
        },
{
    match op {
        OperatorKind::Deref => MappedOperator::Method(String::from_str("deref")),
        OperatorKind::PreIncrement => MappedOperator::Method(String::from_str("inc_pre")),
        OperatorKind::PostIncrement => MappedOperator::Method(String::from_str("inc_post")),
        OperatorKind::BoolConversion => MappedOperator::Method(String::from_str("cast_bool")),
        OperatorKind::Call => MappedOperator::Method(String::from_str("call")),
        OperatorKind::Binary(b) => {
            let mut name = binary_text(b);
            proof {
                reveal_strlit("_");
            }
            name.append("_");
            name.append(owner.as_str());
            MappedOperator::FreeFunction(name)
        },
    }
}

} // verus!
