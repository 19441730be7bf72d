use vstd::prelude::*;
use crate::ir::{Param, ParamKind};

verus! {

/// The ownership contract of one parameter or return value.
#[derive(Debug, Clone, Copy, PartialEq, Eq, Structural)]
pub enum Ownership {
    /// The receiver gets its own copy-constructed instance.
    OwnedCopy,
    /// The receiver gets the instance moved out of the source.
    OwnedMove,
    /// A non-owning view of storage that both sides share; mutations are
    /// visible across the boundary.
    Borrowed { nullable: bool, mutable: bool },
    /// The source instance is consumed and left moved-from.
    Consumed,
}

/// A by-value parameter whose type can be neither copied nor moved.
#[derive(Debug, Clone, Copy, PartialEq, Eq, Structural)]
pub struct NotTransferable;

/// The ownership contract of a parameter of the given shape. A value of a
/// type that is both copyable and movable is copied: the copy leaves the
/// caller's instance untouched, which is the safer default.
pub open spec fn ownership_of(kind: ParamKind, is_const: bool, copyable: bool, movable: bool) -> Result<Ownership, NotTransferable> {
    match kind {
        ParamKind::Value => if copyable {
            Ok(Ownership::OwnedCopy)
        } else if movable {
            Ok(Ownership::OwnedMove)
        } else {
            Err(NotTransferable)
        },
        ParamKind::Pointer => Ok(Ownership::Borrowed { nullable: true, mutable: !is_const }),
        ParamKind::LValueRef => Ok(Ownership::Borrowed { nullable: false, mutable: !is_const }),
        ParamKind::RValueRef => Ok(Ownership::Consumed),
    }
}

/// The ownership contract of a parameter.
pub open spec fn param_ownership(p: Param) -> Result<Ownership, NotTransferable> {
    ownership_of(p.kind, p.is_const, p.copyable, p.movable)
}

/// Whether passing under this contract takes the instance away from its
/// source.
pub open spec fn transfers(how: Ownership) -> bool {
    how is OwnedMove || how is Consumed
}

/// Whether the source is moved-from after being passed under `how`, or why
/// it cannot be passed.
pub open spec fn moved_after_pass(moved_from: bool, how: Ownership) -> Result<bool, PassError> {
    if moved_from && transfers(how) {
        Err(PassError::AlreadyMoved)
    } else {
        Ok(moved_from || transfers(how))
    }
}

/// Classifies a parameter; a by-value type that can be neither copied nor
/// moved is an error of the plan.
pub fn classify(p: &Param) -> (r: Result<Ownership, NotTransferable>)
    ensures
        r == param_ownership(*p),
{
    match p.kind {
        ParamKind::Value => if p.copyable {
            Ok(Ownership::OwnedCopy)
        } else if p.movable {
            Ok(Ownership::OwnedMove)
        } else {
            Err(NotTransferable)
        },
        ParamKind::Pointer => Ok(Ownership::Borrowed { nullable: true, mutable: !p.is_const }),
        ParamKind::LValueRef => Ok(Ownership::Borrowed { nullable: false, mutable: !p.is_const }),
        ParamKind::RValueRef => Ok(Ownership::Consumed),
    }
}

/// A native instance seen from the wrapper: its state, and whether its
/// ownership has been transferred away.
#[derive(Debug)]
pub struct Instance {
    pub state: i64,
    pub moved_from: bool,
}

/// Why an instance cannot be passed.
#[derive(Debug, Clone, Copy, PartialEq, Eq, Structural)]
pub enum PassError {
    /// The instance was already moved from; its ownership cannot go a
    /// second time.
    AlreadyMoved,
}

impl Instance {
    pub fn new(state: i64) -> (r: Self)
        ensures
            r.state == state,
            !r.moved_from,
    {
        Instance { state, moved_from: false }
    }

    /// Whether the instance has been moved from.
    pub fn was_moved(&self) -> (r: bool)
        ensures
            r == self.moved_from,
    {
        self.moved_from
    }
}

/// Hands an instance to a call under the given contract. A transfer marks
/// the source moved-from; a moved-from instance can still be borrowed or
/// copied, but its ownership never goes a second time.
pub fn pass_argument(inst: &mut Instance, how: Ownership) -> (r: Result<(), PassError>)
    ensures
        final(inst).state == old(inst).state,
        match moved_after_pass(old(inst).moved_from, how) {
            Ok(moved) => r is Ok && final(inst).moved_from == moved,
            Err(e) => r == Err::<(), PassError>(e) && final(inst).moved_from == old(inst).moved_from,
        },
{
    let moves = match how {
        Ownership::OwnedMove | Ownership::Consumed => true,
        _ => false,
    };
    if inst.moved_from && moves {
        return Err(PassError::AlreadyMoved);
    }
    if moves {
        inst.moved_from = true;
    }
    Ok(())
}

/// An rvalue-reference parameter consumes its argument: after the call the
/// source instance is marked moved-from, so its was-moved check reports true.
pub proof fn lemma_rvalue_marks_moved(p: Param, moved_from: bool)
    requires
        p.kind == ParamKind::RValueRef,
        !moved_from,
    ensures
        param_ownership(p) == Ok::<Ownership, NotTransferable>(Ownership::Consumed),
        moved_after_pass(moved_from, Ownership::Consumed) == Ok::<bool, PassError>(true),
{
}

/// Counts the native instances that have been destroyed.
#[derive(Debug)]
pub struct Lifetimes {
    pub destroyed: u64,
}

impl Lifetimes {
    pub fn new() -> (r: Self)
        ensures
            r.destroyed == 0,
    {
        Lifetimes { destroyed: 0 }
    }

    /// Destroys an instance. It is taken by value, so no instance is
    /// destroyed twice, and each destruction counts once.
    pub fn destroy(&mut self, inst: Instance)
        requires
            old(self).destroyed < u64::MAX,
        ensures
            final(self).destroyed == old(self).destroyed + 1,
    {
        let _ = inst;
        self.destroyed = self.destroyed + 1;
    }
}

} // verus!
