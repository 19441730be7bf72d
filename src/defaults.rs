use vstd::prelude::*;
use crate::ir::Param;
use crate::naming::views;
use vstd::set_lib::{lemma_int_range, set_int_range};

verus! {

/// How many of the last parameters carry a default value.
pub open spec fn trailing_defaults(params: Seq<Param>) -> nat
    decreases params.len(),
{
    if params.len() == 0 {
        0
    } else if params.last().default is Some {
        1 + trailing_defaults(params.drop_last())
    } else {
        0
    }
}

/// The fewest arguments a call must give.
pub open spec fn min_arity(params: Seq<Param>) -> int {
    params.len() - trailing_defaults(params)
}

/// The default expression of each parameter (empty where there is none).
pub open spec fn default_values(params: Seq<Param>) -> Seq<Seq<char>> {
    params.map_values(|p: Param| match p.default {
        Some(d) => d@,
        None => Seq::<char>::empty(),
    })
}

/// The full argument list of a call that gives `args`: the missing trailing
/// arguments are the parameters' default expressions.
pub open spec fn completed(params: Seq<Param>, args: Seq<Seq<char>>) -> Seq<Seq<char>> {
    args + default_values(params).subrange(args.len() as int, params.len() as int)
}

pub proof fn lemma_trailing_defaults_bound(params: Seq<Param>)
    ensures
        trailing_defaults(params) <= params.len(),
    decreases params.len(),
{
    if params.len() > 0 && params.last().default is Some {
        lemma_trailing_defaults_bound(params.drop_last());
    }
}

/// The number of trailing parameters with a default value.
pub fn trailing_default_count(params: &Vec<Param>) -> (r: usize)
    ensures
        r == trailing_defaults(params@),
{
    let mut i: usize = params.len();
    assert(params@.take(i as int) =~= params@);
    while i > 0 && params[i - 1].default.is_some()
        invariant
            0 <= i <= params@.len(),
            trailing_defaults(params@) == (params@.len() - i) + trailing_defaults(params@.take(i as int)),
        decreases i,
    {
        assert(params@.take(i as int).drop_last() =~= params@.take(i - 1));
        i -= 1;
    }
    if i > 0 {
        assert(params@.take(i as int).last() == params@[i - 1]);
    }
    params.len() - i
}

/// Where a callable arity comes from.
#[derive(Debug, Clone, Copy, PartialEq, Eq, Structural)]
pub enum ArityOrigin {
    /// The declaration itself, with every parameter.
    Declared,
    /// An overload that the source declares explicitly at that arity; it
    /// wins over the synthesized one.
    Explicit,
    /// Synthesized: the missing trailing arguments take their defaults.
    Synthesized,
}

/// One callable arity of a function with default arguments.
#[derive(Debug, Clone, Copy, PartialEq, Eq, Structural)]
pub struct Arity {
    pub arity: usize,
    pub origin: ArityOrigin,
}

/// The origin of the arity at position `i` of the expansion.
pub open spec fn arity_origin(i: int, explicit_arities: Seq<usize>, arity: usize) -> ArityOrigin {
    if i == 0 {
        ArityOrigin::Declared
    } else if explicit_arities.contains(arity) {
        ArityOrigin::Explicit
    } else {
        ArityOrigin::Synthesized
    }
}

fn contains_arity(v: &Vec<usize>, a: usize) -> (r: bool)
    ensures
        r == v@.contains(a),
{
    let mut i: usize = 0;
    while i < v.len()
        invariant
            0 <= i <= v@.len(),
            forall|j: int| 0 <= j < i ==> v@[j] != a,
        decreases v@.len() - i,
    {
        if v[i] == a {
            return true;
        }
        i += 1;
    }
    false
}

/// The callable arities of a function whose last m parameters have
/// defaults: m + 1 of them, from all k parameters down to k - m. An arity
/// that an explicit overload already covers is left to that overload.
pub fn expand_defaults(params: &Vec<Param>, explicit_arities: &Vec<usize>) -> (r: Vec<Arity>)
    ensures
        r@.len() == trailing_defaults(params@) + 1,
        forall|i: int| 0 <= i < r@.len() ==> (#[trigger] r@[i]).arity == params@.len() - i
            && r@[i].origin == arity_origin(i, explicit_arities@, r@[i].arity),
{
    let m = trailing_default_count(params);
    proof {
        lemma_trailing_defaults_bound(params@);
    }
    let k = params.len();
    let mut r: Vec<Arity> = Vec::new();
    let mut i: usize = 0;
    loop
        invariant_except_break
            r@.len() == i,
        invariant
            m == trailing_defaults(params@),
            m <= k,
            k == params@.len(),
            0 <= i <= m,
            forall|j: int| 0 <= j < r@.len() ==> (#[trigger] r@[j]).arity == k - j
                && r@[j].origin == arity_origin(j, explicit_arities@, r@[j].arity),
        ensures
            r@.len() == m + 1,
            forall|j: int| 0 <= j < r@.len() ==> (#[trigger] r@[j]).arity == k - j
                && r@[j].origin == arity_origin(j, explicit_arities@, r@[j].arity),
        decreases m - i,
    {
        let arity = k - i;
        let origin = if i == 0 {
            ArityOrigin::Declared
        } else if contains_arity(explicit_arities, arity) {
            ArityOrigin::Explicit
        } else {
            ArityOrigin::Synthesized
        };
        r.push(Arity { arity, origin });
        if i == m {
            break;
        }
        i += 1;
    }
    r
}

/// The full argument list of a call at a shorter arity, or `None` when the
/// number of arguments is not a callable arity.
pub fn complete_arguments(params: &Vec<Param>, args: &Vec<String>) -> (r: Option<Vec<String>>)
    ensures
        r is Some <==> min_arity(params@) <= args@.len() <= params@.len(),
        r is Some ==> views(r->Some_0@) == completed(params@, views(args@)),
{
    let m = trailing_default_count(params);
    proof {
        lemma_trailing_defaults_bound(params@);
    }
    if args.len() > params.len() || args.len() < params.len() - m {
        return None;
    }
    let mut r: Vec<String> = Vec::new();
    let mut i: usize = 0;
    while i < args.len()
        invariant
            0 <= i <= args@.len(),
            views(r@) == views(args@).take(i as int),
        decreases args@.len() - i,
    {
        let a = args[i].clone();
        let ghost before = r@;
        r.push(a);
        assert(r@ == before.push(a));
        assert(views(r@) =~= views(before).push(a@));
        assert(views(r@) =~= views(args@).take(i + 1));
        i += 1;
    }
    let ghost defaults = default_values(params@);
    while i < params.len()
        invariant
            args@.len() <= i <= params@.len(),
            defaults == default_values(params@),
            views(r@) == views(args@) + defaults.subrange(args@.len() as int, i as int),
        decreases params@.len() - i,
    {
        let d = match &params[i].default {
            Some(d) => d.clone(),
            None => String::new(),
        };
        assert(d@ == defaults[i as int]);
        let ghost before = r@;
        r.push(d);
        assert(views(r@) =~= views(before).push(d@));
        assert(views(r@) =~= views(args@) + defaults.subrange(args@.len() as int, i + 1));
        i += 1;
    }
    Some(r)
}

/// Giving a trailing argument explicitly as its default expression is the
/// same call as leaving it out: every callable arity reaches the same full
/// argument list.
pub proof fn lemma_explicit_defaults_same_call(params: Seq<Param>, args: Seq<Seq<char>>, n: int)
    requires
        min_arity(params) <= args.len(),
        args.len() <= n <= params.len(),
    ensures
        completed(params, args + default_values(params).subrange(args.len() as int, n))
            == completed(params, args),
{
    let longer = args + default_values(params).subrange(args.len() as int, n);
    assert(completed(params, longer) =~= completed(params, args));
}

/// A function whose last m parameters have defaults can be called at
/// exactly m + 1 arities: those of the argument lists that
/// `complete_arguments` accepts.
pub proof fn lemma_callable_arities(params: Seq<Param>)
    ensures
        set_int_range(min_arity(params), params.len() + 1 as int).len() == trailing_defaults(params) + 1,
        forall|n: int| #[trigger] set_int_range(min_arity(params), params.len() + 1 as int).contains(n)
            <==> min_arity(params) <= n <= params.len(),
{
    lemma_trailing_defaults_bound(params);
    lemma_int_range(min_arity(params), params.len() + 1 as int);
}

} // verus!
