use vstd::prelude::*;
use crate::defaults::{arity_origin, expand_defaults, lemma_trailing_defaults_bound, trailing_defaults, ArityOrigin};
use crate::ir::{Function, Param};
use crate::naming::{decimal, decimal_text, mangle, named_from, views, SymbolNamer};
use crate::operators::{binary_word, map_operator, method_word, MappedOperator, OperatorKind};
use crate::ownership::{classify, param_ownership, NotTransferable, Ownership};

verus! {

/// How a plan entry reaches the native code.
#[derive(Debug, Clone, Copy, PartialEq, Eq, Structural)]
pub enum Dispatch {
    Static,
    /// Forwarded through the native vtable, via the capability trait of
    /// the given base.
    VirtualForward(usize),
}

/// How a plan entry reports failure.
#[derive(Debug, Clone, Copy, PartialEq, Eq, Structural)]
pub enum FailureChannel {
    Infallible,
    ErrorResult,
}

/// Where in a declaration an ownership fault lies.
#[derive(Debug, Clone, Copy, PartialEq, Eq, Structural)]
pub enum Position {
    Param(usize),
    Return,
}

/// A fault of the input that stops the plan: a by-value parameter or
/// return whose type can be neither copied nor moved.
#[derive(Debug, Clone, Copy, PartialEq, Eq, Structural)]
pub struct PlanError {
    /// The index of the offending declaration.
    pub origin: usize,
    pub position: Position,
}

/// One callable unit of the binding plan.
#[derive(Debug, Clone)]
pub struct PlanEntry {
    pub shim_symbol: String,
    pub wrapper_ident: String,
    pub arity: usize,
    /// The ownership contract of each argument given at this arity.
    pub params: Vec<Ownership>,
    pub ret: Ownership,
    pub dispatch: Dispatch,
    pub failure: FailureChannel,
    /// The index of the declaration this entry comes from.
    pub origin: usize,
}

/// The index of the first parameter that cannot be passed, if any.
pub open spec fn first_bad_param(params: Seq<Param>) -> Option<int>
    decreases params.len(),
{
    if params.len() == 0 {
        None
    } else if first_bad_param(params.drop_last()) is Some {
        first_bad_param(params.drop_last())
    } else if param_ownership(params.last()) is Err {
        Some(params.len() - 1)
    } else {
        None
    }
}

/// The first ownership fault of a function: a parameter, else the return.
pub open spec fn first_fault(f: Function) -> Option<Position> {
    match first_bad_param(f.params@) {
        Some(q) => Some(Position::Param(q as usize)),
        None => if param_ownership(f.ret) is Err {
            Some(Position::Return)
        } else {
            None
        },
    }
}

/// The failure channel of a function.
pub open spec fn failure_of(f: Function) -> FailureChannel {
    if f.throws {
        FailureChannel::ErrorResult
    } else {
        FailureChannel::Infallible
    }
}

/// The dispatch strategy of a function.
pub open spec fn dispatch_of(f: Function) -> Dispatch {
    match f.dispatch_base {
        Some(b) => if f.is_virtual {
            Dispatch::VirtualForward(b)
        } else {
            Dispatch::Static
        },
        None => Dispatch::Static,
    }
}

/// The arities that get an entry of their own, for the positions before
/// `p` of the default expansion: the declared arity, and each synthesized
/// arity that no explicit overload covers.
pub open spec fn emitted_arities(f: Function, explicit: Seq<usize>, p: int) -> Seq<usize>
    decreases p,
{
    if p <= 0 {
        seq![]
    } else {
        let a = (f.params@.len() - (p - 1)) as usize;
        if arity_origin(p - 1, explicit, a) == ArityOrigin::Explicit {
            emitted_arities(f, explicit, p - 1)
        } else {
            emitted_arities(f, explicit, p - 1).push(a)
        }
    }
}

/// All the arities of a function that get an entry.
pub open spec fn lowered_arities(f: Function, explicit: Seq<usize>) -> Seq<usize> {
    emitted_arities(f, explicit, trailing_defaults(f.params@) + 1 as int)
}

/// The contracts of a function's parameters (meaningful when all pass).
pub open spec fn param_contracts(params: Seq<Param>) -> Seq<Ownership> {
    params.map_values(|p: Param| param_ownership(p)->Ok_0)
}

/// The type that owns an operator: that of its first operand.
pub open spec fn operand_type(f: Function) -> Seq<char> {
    if f.params@.len() > 0 {
        f.params@[0].ty@
    } else {
        Seq::<char>::empty()
    }
}

/// The name under which a declaration is exposed: its own, or for an
/// overloaded operator the name that the operator table gives it.
pub open spec fn callable_name(f: Function) -> Seq<char> {
    match f.operator {
        Some(OperatorKind::Binary(b)) => binary_word(b) + seq!['_'] + operand_type(f),
        Some(op) => method_word(op),
        None => f.name@,
    }
}

/// The scope segments of a declaration's symbols: its path, then its name.
pub open spec fn symbol_scope(f: Function) -> Seq<Seq<char>> {
    views(f.path@).push(callable_name(f))
}

/// The discriminators of the shim symbol at arity `a`: none for the
/// declared arity, the arity itself for a synthesized one.
pub open spec fn shim_discriminators(f: Function, a: usize) -> Seq<Seq<char>> {
    if a == f.params@.len() {
        seq![]
    } else {
        seq![decimal(a as nat)]
    }
}

/// An entry is the lowering of function `f`, declaration `origin`, at
/// arity `a`.
pub open spec fn entry_lowers(e: PlanEntry, f: Function, origin: usize, a: usize) -> bool {
    &&& named_from(e.shim_symbol@, mangle(symbol_scope(f), shim_discriminators(f, a)))
    &&& named_from(e.wrapper_ident@, mangle(symbol_scope(f), seq![]))
    &&& e.origin == origin
    &&& e.arity == a
    &&& e.params@ == param_contracts(f.params@).take(a as int)
    &&& e.ret == param_ownership(f.ret)->Ok_0
    &&& e.dispatch == dispatch_of(f)
    &&& e.failure == failure_of(f)
}

/// The shim symbols of a list of entries.
pub open spec fn shim_symbols(es: Seq<PlanEntry>) -> Seq<Seq<char>> {
    es.map_values(|e: PlanEntry| e.shim_symbol@)
}

/// The wrapper identifiers of a list of entries.
pub open spec fn wrapper_idents(es: Seq<PlanEntry>) -> Seq<Seq<char>> {
    es.map_values(|e: PlanEntry| e.wrapper_ident@)
}

/// Classifies every parameter, stopping at the first that cannot pass.
fn classify_params(params: &Vec<Param>) -> (r: Result<Vec<Ownership>, usize>)
    ensures
        match first_bad_param(params@) {
            Some(q) => r == Err::<Vec<Ownership>, usize>(q as usize),
            None => r is Ok && r->Ok_0@ == param_contracts(params@),
        },
{
    let mut own: Vec<Ownership> = Vec::new();
    let mut q: usize = 0;
    while q < params.len()
        invariant
            0 <= q <= params@.len(),
            first_bad_param(params@.take(q as int)) is None,
            own@ == param_contracts(params@.take(q as int)),
        decreases params@.len() - q,
    {
        let ghost next = params@.take(q as int + 1);
        assert(next.drop_last() =~= params@.take(q as int));
        match classify(&params[q]) {
            Ok(o) => {
                own.push(o);
                assert(own@ =~= param_contracts(next));
            },
            Err(NotTransferable) => {
                proof {
                    lemma_first_bad_param_prefix(params@, q as int + 1);
                }
                return Err(q);
            },
        }
        q += 1;
    }
    assert(params@.take(params@.len() as int) =~= params@);
    Ok(own)
}

proof fn lemma_first_bad_param_prefix(params: Seq<Param>, k: int)
    requires
        0 <= k <= params.len(),
        first_bad_param(params.take(k)) is Some,
    ensures
        first_bad_param(params) == first_bad_param(params.take(k)),
    decreases params.len() - k,
{
    if k < params.len() {
        assert(params.take(k + 1).drop_last() =~= params.take(k));
        lemma_first_bad_param_prefix(params, k + 1);
    } else {
        assert(params.take(k) =~= params);
    }
}

fn prefix_contracts(own: &Vec<Ownership>, a: usize) -> (r: Vec<Ownership>)
    requires
        a <= own@.len(),
    ensures
        r@ == own@.take(a as int),
{
    let mut r: Vec<Ownership> = Vec::new();
    let mut i: usize = 0;
    while i < a
        invariant
            a <= own@.len(),
            0 <= i <= a,
            r@ == own@.take(i as int),
        decreases a - i,
    {
        r.push(own[i]);
        assert(r@ =~= own@.take(i as int + 1));
        i += 1;
    }
    r
}

fn callable_name_of(f: &Function) -> (r: String)
    ensures
        r@ == callable_name(*f),
{
    match f.operator {
        Some(op) => {
            let owner = if f.params.len() > 0 {
                f.params[0].ty.clone()
            } else {
                String::new()
            };
            match map_operator(op, &owner) {
                MappedOperator::Method(n) => n,
                MappedOperator::FreeFunction(n) => n,
            }
        },
        None => f.name.clone(),
    }
}

/// Lowers one function declaration: checks the ownership of its parameters
/// and return, expands its default arguments, and names one entry for each
/// arity that no explicit overload covers.
pub fn lower_function(
    shims: &mut SymbolNamer,
    wrappers: &mut SymbolNamer,
    f: &Function,
    origin: usize,
    explicit: &Vec<usize>,
) -> (r: Result<Vec<PlanEntry>, PlanError>)
    requires
        old(shims)@.len() + f.params@.len() + 1 < usize::MAX,
        old(wrappers)@.len() + f.params@.len() + 1 < usize::MAX,
    ensures
        match first_fault(*f) {
            Some(pos) => r == Err::<Vec<PlanEntry>, PlanError>(PlanError { origin, position: pos })
                && final(shims)@ == old(shims)@ && final(wrappers)@ == old(wrappers)@,
            None => r is Ok && ({
                let es = r->Ok_0@;
                &&& es.len() == lowered_arities(*f, explicit@).len()
                &&& forall|i: int| 0 <= i < es.len()
                    ==> entry_lowers(#[trigger] es[i], *f, origin, lowered_arities(*f, explicit@)[i])
                &&& final(shims)@ == old(shims)@ + shim_symbols(es)
                &&& final(wrappers)@ == old(wrappers)@ + wrapper_idents(es)
                &&& old(shims)@.no_duplicates() ==> final(shims)@.no_duplicates()
                &&& old(wrappers)@.no_duplicates() ==> final(wrappers)@.no_duplicates()
            }),
        },
{
    let own = match classify_params(&f.params) {
        Ok(own) => own,
        Err(q) => {
            return Err(PlanError { origin, position: Position::Param(q) });
        },
    };
    let ret = match classify(&f.ret) {
        Ok(o) => o,
        Err(NotTransferable) => {
            return Err(PlanError { origin, position: Position::Return });
        },
    };
    let dispatch = match f.dispatch_base {
        Some(b) => if f.is_virtual {
            Dispatch::VirtualForward(b)
        } else {
            Dispatch::Static
        },
        None => Dispatch::Static,
    };
    let failure = if f.throws {
        FailureChannel::ErrorResult
    } else {
        FailureChannel::Infallible
    };
    let arities = expand_defaults(&f.params, explicit);
    let mut scope = f.path.clone();
    let ghost path0 = scope@;
    scope.push(callable_name_of(f));
    assert(views(scope@) =~= symbol_scope(*f)) by {
        assert(views(path0) == views(f.path@));
    }
    let no_discriminators: Vec<String> = Vec::new();
    let ghost shims0 = shims@;
    let ghost wrappers0 = wrappers@;
    let mut es: Vec<PlanEntry> = Vec::new();
    let mut p: usize = 0;
    while p < arities.len()
        invariant
            arities@.len() == trailing_defaults(f.params@) + 1,
            forall|i: int| 0 <= i < arities@.len() ==> (#[trigger] arities@[i]).arity == f.params@.len() - i
                && arities@[i].origin == arity_origin(i, explicit@, arities@[i].arity),
            own@ == param_contracts(f.params@),
            own@.len() == f.params@.len(),
            ret == param_ownership(f.ret)->Ok_0,
            dispatch == dispatch_of(*f),
            failure == failure_of(*f),
            0 <= p <= arities@.len(),
            es@.len() <= p,
            views(scope@) == symbol_scope(*f),
            no_discriminators@.len() == 0,
            shims0.len() + f.params@.len() + 1 < usize::MAX,
            wrappers0.len() + f.params@.len() + 1 < usize::MAX,
            es@.len() == emitted_arities(*f, explicit@, p as int).len(),
            forall|i: int| 0 <= i < es@.len()
                ==> entry_lowers(#[trigger] es@[i], *f, origin, emitted_arities(*f, explicit@, p as int)[i]),
            shims@ == shims0 + shim_symbols(es@),
            wrappers@ == wrappers0 + wrapper_idents(es@),
            shims0.no_duplicates() ==> shims@.no_duplicates(),
            wrappers0.no_duplicates() ==> wrappers@.no_duplicates(),
        decreases arities@.len() - p,
    {
        let a = arities[p];
        proof {
            lemma_emitted_len(*f, explicit@, p as int);
        }
        if a.origin != ArityOrigin::Explicit {
            let mut discriminators: Vec<String> = Vec::new();
            if p > 0 {
                let d = decimal_text(a.arity as u64);
                discriminators.push(d);
                assert((a.arity as u64) as nat == a.arity as nat);
                assert(views(discriminators@) =~= shim_discriminators(*f, a.arity));
            } else {
                assert(views(discriminators@) =~= shim_discriminators(*f, a.arity));
            }
            assert(views(no_discriminators@) =~= Seq::<Seq<char>>::empty());
            let shim_symbol = shims.name(&scope, &discriminators);
            let wrapper_ident = wrappers.name(&scope, &no_discriminators);
            let params = prefix_contracts(&own, a.arity);
            let ghost before = es@;
            es.push(PlanEntry {
                shim_symbol,
                wrapper_ident,
                arity: a.arity,
                params,
                ret,
                dispatch,
                failure,
                origin,
            });
            assert(shim_symbols(es@) =~= shim_symbols(before).push(shim_symbol@));
            assert(wrapper_idents(es@) =~= wrapper_idents(before).push(wrapper_ident@));
        }
        p += 1;
    }
    Ok(es)
}

proof fn lemma_emitted_len(f: Function, explicit: Seq<usize>, p: int)
    requires
        0 <= p,
    ensures
        emitted_arities(f, explicit, p).len() <= p,
    decreases p,
{
    if p > 0 {
        lemma_emitted_len(f, explicit, p - 1);
    }
}

/// Two declarations share their scope and name, so that they overload
/// each other.
pub open spec fn same_declaration_name(f: Function, g: Function) -> bool {
    views(f.path@) == views(g.path@) && f.name@ == g.name@
}

/// The arities of the explicit overloads of declaration `i` among the
/// first `j` declarations.
pub open spec fn overload_arities(fs: Seq<Function>, i: int, j: int) -> Seq<usize>
    decreases j,
{
    if j <= 0 {
        seq![]
    } else if j - 1 != i && same_declaration_name(fs[j - 1], fs[i]) {
        overload_arities(fs, i, j - 1).push(fs[j - 1].params@.len() as usize)
    } else {
        overload_arities(fs, i, j - 1)
    }
}

/// The first ownership fault among the first `k` declarations.
pub open spec fn first_plan_fault(fs: Seq<Function>, k: int) -> Option<PlanError>
    decreases k,
{
    if k <= 0 {
        None
    } else if first_plan_fault(fs, k - 1) is Some {
        first_plan_fault(fs, k - 1)
    } else {
        match first_fault(fs[k - 1]) {
            Some(pos) => Some(PlanError { origin: (k - 1) as usize, position: pos }),
            None => None,
        }
    }
}

/// The (declaration, arity) pairs that the first `k` declarations lower to,
/// in order.
pub open spec fn planned_units(fs: Seq<Function>, k: int) -> Seq<(usize, usize)>
    decreases k,
{
    if k <= 0 {
        seq![]
    } else {
        planned_units(fs, k - 1) + lowered_arities(fs[k - 1], overload_arities(fs, k - 1, fs.len() as int))
            .map_values(|a: usize| ((k - 1) as usize, a))
    }
}

/// An upper bound on the number of entries of the first `k` declarations.
pub open spec fn plan_size(fs: Seq<Function>, k: int) -> int
    decreases k,
{
    if k <= 0 {
        0
    } else {
        plan_size(fs, k - 1) + fs[k - 1].params@.len() + 1
    }
}

proof fn lemma_plan_size_mono(fs: Seq<Function>, k: int, n: int)
    requires
        0 <= k <= n,
    ensures
        plan_size(fs, k) <= plan_size(fs, n),
    decreases n - k,
{
    if k < n {
        lemma_plan_size_mono(fs, k, n - 1);
    }
}

proof fn lemma_fault_persists(fs: Seq<Function>, k: int, n: int)
    requires
        0 <= k <= n,
        first_plan_fault(fs, k) is Some,
    ensures
        first_plan_fault(fs, n) == first_plan_fault(fs, k),
    decreases n - k,
{
    if k < n {
        lemma_fault_persists(fs, k, n - 1);
    }
}

fn same_name_as(f: &Function, g: &Function) -> (r: bool)
    ensures
        r == same_declaration_name(*f, *g),
{
    if f.name != g.name || f.path.len() != g.path.len() {
        if f.path.len() != g.path.len() {
            assert(views(f.path@).len() != views(g.path@).len());
        }
        return false;
    }
    let mut i: usize = 0;
    while i < f.path.len()
        invariant
            f.path@.len() == g.path@.len(),
            0 <= i <= f.path@.len(),
            forall|j: int| 0 <= j < i ==> f.path@[j]@ == g.path@[j]@,
        decreases f.path@.len() - i,
    {
        if f.path[i] != g.path[i] {
            assert(views(f.path@)[i as int] != views(g.path@)[i as int]);
            return false;
        }
        i += 1;
    }
    assert(views(f.path@) =~= views(g.path@));
    true
}

/// The arities of the explicit overloads of declaration `i`.
pub fn explicit_overloads(fs: &Vec<Function>, i: usize) -> (r: Vec<usize>)
    requires
        i < fs@.len(),
    ensures
        r@ == overload_arities(fs@, i as int, fs@.len() as int),
{
    let mut r: Vec<usize> = Vec::new();
    let mut j: usize = 0;
    while j < fs.len()
        invariant
            i < fs@.len(),
            0 <= j <= fs@.len(),
            r@ == overload_arities(fs@, i as int, j as int),
        decreases fs@.len() - j,
    {
        if j != i && same_name_as(&fs[j], &fs[i]) {
            r.push(fs[j].params.len());
        }
        j += 1;
    }
    r
}

/// Lowers a whole declaration list into the binding plan. The plan fails on
/// the first declaration with a parameter or return that can be neither
/// copied nor moved; otherwise every declaration yields its entries in
/// order, and no two entries share a shim symbol or a wrapper identifier.
pub fn build_plan(fs: &Vec<Function>) -> (r: Result<Vec<PlanEntry>, PlanError>)
    requires
        plan_size(fs@, fs@.len() as int) < usize::MAX,
    ensures
        match first_plan_fault(fs@, fs@.len() as int) {
            Some(e) => r == Err::<Vec<PlanEntry>, PlanError>(e),
            None => r is Ok && ({
                let es = r->Ok_0@;
                let units = planned_units(fs@, fs@.len() as int);
                &&& es.len() == units.len()
                &&& forall|t: int| 0 <= t < es.len()
                    ==> entry_lowers(#[trigger] es[t], fs@[units[t].0 as int], units[t].0, units[t].1)
                &&& shim_symbols(es).no_duplicates()
                &&& wrapper_idents(es).no_duplicates()
            }),
        },
{
    let mut shims = SymbolNamer::new();
    let mut wrappers = SymbolNamer::new();
    let mut es: Vec<PlanEntry> = Vec::new();
    let mut k: usize = 0;
    while k < fs.len()
        invariant
            plan_size(fs@, fs@.len() as int) < usize::MAX,
            0 <= k <= fs@.len(),
            first_plan_fault(fs@, k as int) is None,
            shims@.len() <= plan_size(fs@, k as int),
            wrappers@.len() <= plan_size(fs@, k as int),
            shims@ == shim_symbols(es@),
            wrappers@ == wrapper_idents(es@),
            shims@.no_duplicates(),
            wrappers@.no_duplicates(),
            es@.len() == planned_units(fs@, k as int).len(),
            forall|t: int| 0 <= t < es@.len() ==> entry_lowers(#[trigger] es@[t],
                fs@[planned_units(fs@, k as int)[t].0 as int], planned_units(fs@, k as int)[t].0,
                planned_units(fs@, k as int)[t].1),
        decreases fs@.len() - k,
    {
        proof {
            lemma_plan_size_mono(fs@, k as int + 1, fs@.len() as int);
            lemma_trailing_defaults_bound(fs@[k as int].params@);
        }
        let explicit = explicit_overloads(fs, k);
        let ghost before = es@;
        match lower_function(&mut shims, &mut wrappers, &fs[k], k, &explicit) {
            Ok(more) => {
                let ghost units = planned_units(fs@, k as int + 1);
                let ghost mine = lowered_arities(fs@[k as int], explicit@);
                let ghost tagged = mine.map_values(|a: usize| (k, a));
                proof {
                    lemma_emitted_len(fs@[k as int], explicit@, trailing_defaults(fs@[k as int].params@) + 1 as int);
                }
                assert(units =~= planned_units(fs@, k as int) + tagged);
                let mut more = more;
                es.append(&mut more);
                assert(shim_symbols(es@) =~= shims@);
                assert(wrapper_idents(es@) =~= wrappers@);
                assert forall|t: int| 0 <= t < es@.len() implies entry_lowers(#[trigger] es@[t],
                    fs@[units[t].0 as int], units[t].0, units[t].1) by {
                }
            },
            Err(e) => {
                proof {
                    lemma_fault_persists(fs@, k as int + 1, fs@.len() as int);
                }
                return Err(e);
            },
        }
        k += 1;
    }
    Ok(es)
}

} // verus!
