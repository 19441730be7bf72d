use vstd::prelude::*;
use crate::naming::{mangle, named_from, views, SymbolNamer};

verus! {

/// The argument tuples of a list of requests, as text.
pub open spec fn tuples(requests: Seq<Vec<String>>) -> Seq<Seq<Seq<char>>> {
    requests.map_values(|t: Vec<String>| views(t@))
}

/// The distinct elements of a sequence, each where it first occurs.
pub open spec fn distinct_in_order<T>(s: Seq<T>) -> Seq<T>
    decreases s.len(),
{
    if s.len() == 0 {
        seq![]
    } else if distinct_in_order(s.drop_last()).contains(s.last()) {
        distinct_in_order(s.drop_last())
    } else {
        distinct_in_order(s.drop_last()).push(s.last())
    }
}

pub(crate) fn same_tuple(a: &Vec<String>, b: &Vec<String>) -> (r: bool)
    ensures
        r == (views(a@) == views(b@)),
{
    if a.len() != b.len() {
        return false;
    }
    let mut i: usize = 0;
    while i < a.len()
        invariant
            a@.len() == b@.len(),
            0 <= i <= a@.len(),
            forall|j: int| 0 <= j < i ==> a@[j]@ == b@[j]@,
        decreases a@.len() - i,
    {
        if a[i] != b[i] {
            assert(views(a@)[i as int] != views(b@)[i as int]);
            return false;
        }
        i += 1;
    }
    assert(views(a@) =~= views(b@));
    true
}

fn contains_tuple(v: &Vec<Vec<String>>, t: &Vec<String>) -> (r: bool)
    ensures
        r == tuples(v@).contains(views(t@)),
{
    let mut i: usize = 0;
    while i < v.len()
        invariant
            0 <= i <= v@.len(),
            forall|j: int| 0 <= j < i ==> views(v@[j]@) != views(t@),
        decreases v@.len() - i,
    {
        if same_tuple(&v[i], t) {
            assert(tuples(v@)[i as int] == views(t@));
            return true;
        }
        i += 1;
    }
    false
}

/// The explicit-instantiation requests to emit: each distinct argument
/// tuple once, in the order of its first request. A parameter pack is one
/// entry of its tuple.
pub fn select_instantiations(requests: &Vec<Vec<String>>) -> (r: Vec<Vec<String>>)
    ensures
        tuples(r@) == distinct_in_order(tuples(requests@)),
{
    let mut r: Vec<Vec<String>> = Vec::new();
    let mut i: usize = 0;
    while i < requests.len()
        invariant
            0 <= i <= requests@.len(),
            tuples(r@) == distinct_in_order(tuples(requests@).take(i as int)),
        decreases requests@.len() - i,
    {
        let ghost prefix = tuples(requests@).take(i as int + 1);
        assert(prefix.drop_last() =~= tuples(requests@).take(i as int));
        assert(prefix.last() == views(requests@[i as int]@));
        if !contains_tuple(&r, &requests[i]) {
            let ghost before = r@;
            r.push(requests[i].clone());
            assert(tuples(r@) =~= tuples(before).push(views(requests@[i as int]@)));
        }
        i += 1;
    }
    assert(tuples(requests@).take(requests@.len() as int) =~= tuples(requests@));
    r
}

proof fn lemma_distinct_in_order<T>(s: Seq<T>)
    ensures
        distinct_in_order(s).no_duplicates(),
        forall|x: T| distinct_in_order(s).contains(x) <==> s.contains(x),
    decreases s.len(),
{
    if s.len() > 0 {
        lemma_distinct_in_order(s.drop_last());
        assert forall|x: T| s.contains(x) <==> s.drop_last().contains(x) || x == s.last() by {
            if s.contains(x) {
                let i = choose|i: int| 0 <= i < s.len() && s[i] == x;
                if i < s.len() - 1 {
                    assert(s.drop_last()[i] == x);
                }
            }
            if s.drop_last().contains(x) {
                let i = choose|i: int| 0 <= i < s.len() - 1 && s.drop_last()[i] == x;
                assert(s[i] == x);
            }
            if x == s.last() {
                assert(s[s.len() - 1] == x);
            }
        }
        let d = distinct_in_order(s.drop_last());
        if !d.contains(s.last()) {
            assert forall|x: T| d.push(s.last()).contains(x) <==> d.contains(x) || x == s.last() by {
                if d.push(s.last()).contains(x) {
                    let i = choose|i: int| 0 <= i < d.len() + 1 && d.push(s.last())[i] == x;
                    if i < d.len() {
                        assert(d[i] == x);
                    }
                }
                if d.contains(x) {
                    let i = choose|i: int| 0 <= i < d.len() && d[i] == x;
                    assert(d.push(s.last())[i] == x);
                }
                if x == s.last() {
                    assert(d.push(s.last())[d.len() as int] == x);
                }
            }
        }
    }
}

/// Requests with equal argument tuples collapse: among the selected
/// tuples, each requested tuple stands exactly once.
pub proof fn lemma_equal_requests_collapse(requests: Seq<Seq<Seq<char>>>, i: int, j: int)
    requires
        0 <= i < requests.len(),
        0 <= j < requests.len(),
        requests[i] == requests[j],
    ensures
        distinct_in_order(requests).contains(requests[i]),
        distinct_in_order(requests).no_duplicates(),
        forall|a: int, b: int| 0 <= a < distinct_in_order(requests).len()
            && 0 <= b < distinct_in_order(requests).len()
            && distinct_in_order(requests)[a] == requests[i]
            && distinct_in_order(requests)[b] == requests[j] ==> a == b,
{
    lemma_distinct_in_order(requests);
    assert(requests.contains(requests[i]));
}

/// One concrete instantiation of a template.
#[derive(Debug, Clone)]
pub struct Instantiation {
    pub args: Vec<String>,
    pub symbol: String,
}

/// Selects the distinct requested instantiations of the template at `path`
/// and names each, its argument tuple as the discriminator.
pub fn instantiate(namer: &mut SymbolNamer, path: &Vec<String>, requests: &Vec<Vec<String>>) -> (r: Vec<Instantiation>)
    requires
        old(namer)@.len() + requests@.len() < usize::MAX,
    ensures
        r@.len() == distinct_in_order(tuples(requests@)).len(),
        forall|i: int| 0 <= i < r@.len() ==> views((#[trigger] r@[i]).args@)
            == distinct_in_order(tuples(requests@))[i],
        forall|i: int| 0 <= i < r@.len() ==> named_from((#[trigger] r@[i]).symbol@,
            mangle(views(path@), views(r@[i].args@))),
        final(namer)@.len() == old(namer)@.len() + r@.len(),
        forall|i: int| 0 <= i < r@.len() ==> final(namer)@[old(namer)@.len() + i] == (#[trigger] r@[i]).symbol@,
{
    let selected = select_instantiations(requests);
    proof {
        lemma_distinct_in_order(tuples(requests@));
        assert(distinct_in_order(tuples(requests@)).len() <= requests@.len()) by {
            tuples(requests@).lemma_cardinality_of_set();
            distinct_in_order(tuples(requests@)).unique_seq_to_set();
            assert(distinct_in_order(tuples(requests@)).to_set() =~= tuples(requests@).to_set());
        }
    }
    let ghost start = namer@;
    let mut r: Vec<Instantiation> = Vec::new();
    let mut i: usize = 0;
    while i < selected.len()
        invariant
            tuples(selected@) == distinct_in_order(tuples(requests@)),
            selected@.len() <= requests@.len(),
            start.len() + requests@.len() < usize::MAX,
            0 <= i <= selected@.len(),
            r@.len() == i,
            namer@.len() == start.len() + i,
            forall|j: int| 0 <= j < i ==> views((#[trigger] r@[j]).args@) == tuples(selected@)[j],
            forall|j: int| 0 <= j < i ==> namer@[start.len() + j] == (#[trigger] r@[j]).symbol@,
            forall|j: int| 0 <= j < i ==> named_from((#[trigger] r@[j]).symbol@,
                mangle(views(path@), views(r@[j].args@))),
            forall|j: int| 0 <= j < start.len() ==> namer@[j] == start[j],
        decreases selected@.len() - i,
    {
        let symbol = namer.name(path, &selected[i]);
        r.push(Instantiation { args: selected[i].clone(), symbol });
        i += 1;
    }
    r
}

} // verus!
