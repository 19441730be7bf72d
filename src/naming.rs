use vstd::prelude::*;
use vstd::set_lib::{lemma_int_range, lemma_len_subset, lemma_map_size, set_int_range};

verus! {

/// The character of a decimal digit.
pub open spec fn digit_char(d: int) -> char {
    seq!['0', '1', '2', '3', '4', '5', '6', '7', '8', '9'][d]
}

/// The decimal digits of a natural number, without leading zeros.
pub open spec fn decimal(n: nat) -> Seq<char>
    decreases n,
{
    if n < 10 {
        seq![digit_char(n as int)]
    } else {
        decimal(n / 10).push(digit_char((n % 10) as int))
    }
}

/// The separator placed between the segments of an emitted symbol.
pub open spec fn separator() -> Seq<char> {
    seq!['_']
}

/// Segments joined by the separator, in order.
pub open spec fn join_segments(segs: Seq<Seq<char>>) -> Seq<char>
    decreases segs.len(),
{
    if segs.len() == 0 {
        seq![]
    } else if segs.len() == 1 {
        segs[0]
    } else {
        join_segments(segs.drop_last()) + separator() + segs.last()
    }
}

/// The symbol derived from a scope path and its discriminators, before any
/// collision is resolved.
pub open spec fn mangle(path: Seq<Seq<char>>, discriminators: Seq<Seq<char>>) -> Seq<char> {
    join_segments(path + discriminators)
}

/// A symbol disambiguated by a running index.
pub open spec fn indexed(base: Seq<char>, k: nat) -> Seq<char> {
    base + separator() + decimal(k)
}

/// `sym` is `base`, or `base` disambiguated by a running index.
pub open spec fn named_from(sym: Seq<char>, base: Seq<char>) -> bool {
    sym == base || exists|k: nat| k >= 1 && sym == indexed(base, k)
}

/// The views of a list of strings.
pub open spec fn views(v: Seq<String>) -> Seq<Seq<char>> {
    v.map_values(|s: String| s@)
}

proof fn lemma_decimal_len(n: nat)
    ensures
        decimal(n).len() >= 1,
        n >= 10 ==> decimal(n).len() >= 2,
    decreases n,
{
    if n >= 10 {
        lemma_decimal_len(n / 10);
    }
}

proof fn lemma_decimal_injective(a: nat, b: nat)
    requires
        decimal(a) == decimal(b),
    ensures
        a == b,
    decreases a,
{
    lemma_decimal_len(a);
    lemma_decimal_len(b);
    let digits = seq!['0', '1', '2', '3', '4', '5', '6', '7', '8', '9'];
    if a < 10 && b < 10 {
        assert(decimal(a)[0] == digits[a as int]);
        assert(decimal(b)[0] == digits[b as int]);
    } else if a >= 10 && b >= 10 {
        assert(decimal(a).drop_last() =~= decimal(a / 10));
        assert(decimal(b).drop_last() =~= decimal(b / 10));
        lemma_decimal_injective(a / 10, b / 10);
        assert(decimal(a).last() == digits[(a % 10) as int]);
        assert(decimal(b).last() == digits[(b % 10) as int]);
    }
}

proof fn lemma_indexed_injective(base: Seq<char>, a: nat, b: nat)
    requires
        indexed(base, a) == indexed(base, b),
    ensures
        a == b,
{
    let x = indexed(base, a);
    let start = base.len() + 1;
    assert(decimal(a) =~= x.subrange(start as int, x.len() as int));
    assert(decimal(b) =~= indexed(base, b).subrange(start as int, x.len() as int));
    lemma_decimal_injective(a, b);
}

/// Among the first n + 1 indexed forms of a symbol, some one is missing from
/// any n names.
proof fn lemma_free_index_exists(used: Seq<Seq<char>>, base: Seq<char>)
    ensures
        exists|j: nat| 1 <= j <= used.len() + 1 && !used.contains(#[trigger] indexed(base, j)),
{
    if forall|j: nat| 1 <= j <= used.len() + 1 ==> used.contains(#[trigger] indexed(base, j)) {
        lemma_all_indices_taken_impossible(used, base);
        used.lemma_cardinality_of_set();
    }
}

proof fn lemma_all_indices_taken_impossible(used: Seq<Seq<char>>, base: Seq<char>)
    requires
        forall|j: nat| 1 <= j <= used.len() + 1 ==> used.contains(#[trigger] indexed(base, j)),
    ensures
        used.to_set().len() > used.len(),
{
    let n = used.len();
    let x = set_int_range(1, n as int + 2);
    lemma_int_range(1, n as int + 2);
    let f = |j: int| indexed(base, j as nat);
    assert forall|p: int, q: int| x.contains(p) && x.contains(q) && #[trigger] f(p) == #[trigger] f(q) implies p == q by {
        lemma_indexed_injective(base, p as nat, q as nat);
    }
    let y = x.map(f);
    lemma_map_size(x, y, f);
    assert forall|s: Seq<char>| y.contains(s) implies used.to_set().contains(s) by {
        let j = choose|j: int| x.contains(j) && f(j) == s;
        assert(used.contains(indexed(base, j as nat)));
    }
    lemma_len_subset(y, used.to_set());
}

/// Relies on the Display impl of u64, through to_string: the decimal digits
/// of the value, without sign or leading zeros.
#[verifier::external_body]
pub(crate) fn decimal_text(n: u64) -> (r: String)
    ensures
        r@ == decimal(n as nat),
{
    n.to_string()
}

fn appended(base: &String, tail: &str) -> (r: String)
    ensures
        r@ == base@ + tail@,
{
    let mut r = base.clone();
    r.append(tail);
    r
}

/// Appends one segment, after the separator unless it is the first.
fn push_segment(r: &mut String, seg: &String, segs: Ghost<Seq<Seq<char>>>, i: Ghost<int>, first: bool)
    requires
        0 <= i@ < segs@.len(),
        first == (i@ == 0),
        seg@ == segs@[i@],
        old(r)@ == join_segments(segs@.take(i@)),
    ensures
        final(r)@ == join_segments(segs@.take(i@ + 1)),
{
    proof {
        reveal_strlit("_");
    }
    if !first {
        r.append("_");
    }
    r.append(seg.as_str());
    assert(segs@.take(i@ + 1).drop_last() =~= segs@.take(i@));
}

/// The segments of a path and its discriminators joined by the separator.
pub fn mangle_symbol(path: &Vec<String>, discriminators: &Vec<String>) -> (r: String)
    ensures
        r@ == mangle(views(path@), views(discriminators@)),
{
    let ghost segs = views(path@) + views(discriminators@);
    let mut r = String::new();
    let mut i: usize = 0;
    while i < path.len()
        invariant
            segs == views(path@) + views(discriminators@),
            0 <= i <= path@.len(),
            r@ == join_segments(segs.take(i as int)),
        decreases path@.len() - i,
    {
        push_segment(&mut r, &path[i], Ghost(segs), Ghost(i as int), i == 0);
        i += 1;
    }
    let mut j: usize = 0;
    while j < discriminators.len()
        invariant
            segs == views(path@) + views(discriminators@),
            i == path@.len(),
            0 <= j <= discriminators@.len(),
            r@ == join_segments(segs.take(i + j)),
        decreases discriminators@.len() - j,
    {
        push_segment(&mut r, &discriminators[j], Ghost(segs), Ghost(i + j), i == 0 && j == 0);
        j += 1;
    }
    assert(segs.take(i + j) =~= segs);
    r
}

fn contains_name(names: &Vec<String>, s: &String) -> (r: bool)
    ensures
        r == views(names@).contains(s@),
{
    let mut i: usize = 0;
    while i < names.len()
        invariant
            0 <= i <= names@.len(),
            forall|j: int| 0 <= j < i ==> names@[j]@ != s@,
        decreases names@.len() - i,
    {
        if names[i] == *s {
            assert(views(names@)[i as int] == s@);
            return true;
        }
        i += 1;
    }
    false
}

/// Hands out symbols, none of them twice.
pub struct SymbolNamer {
    used: Vec<String>,
}

impl View for SymbolNamer {
    type V = Seq<Seq<char>>;

    /// The symbols emitted so far, in order.
    closed spec fn view(&self) -> Seq<Seq<char>> {
        views(self.used@)
    }
}

impl SymbolNamer {
    pub fn new() -> (r: Self)
        ensures
            r@ == Seq::<Seq<char>>::empty(),
    {
        SymbolNamer { used: Vec::new() }
    }

    /// Claims `base`, or on a collision its indexed form with the lowest free
    /// index from 1 on.
    pub fn claim(&mut self, base: String) -> (r: String)
        requires
            old(self)@.len() < usize::MAX,
        ensures
            !old(self)@.contains(r@),
            final(self)@ == old(self)@.push(r@),
            !old(self)@.contains(base@) ==> r@ == base@,
            old(self)@.contains(base@) ==> exists|k: nat| k >= 1 && r@ == indexed(base@, k)
                && forall|j: nat| 1 <= j < k ==> old(self)@.contains(#[trigger] indexed(base@, j)),
    {
        let ghost used = self@;
        if !contains_name(&self.used, &base) {
            self.used.push(base.clone());
            assert(views(self.used@) =~= used.push(base@));
            return base;
        }
        let mut k: usize = 1;
        loop
            invariant
                self@ == used,
                used == old(self)@,
                used.len() < usize::MAX,
                used.contains(base@),
                1 <= k <= used.len() + 1,
                forall|j: nat| 1 <= j < k ==> used.contains(#[trigger] indexed(base@, j)),
            decreases used.len() + 1 - k,
        {
            proof {
                reveal_strlit("_");
            }
            let with_sep = appended(&base, "_");
            let digits = decimal_text(k as u64);
            let candidate = appended(&with_sep, digits.as_str());
            assert((k as u64) as nat == k as nat);
            assert(candidate@ =~= indexed(base@, k as nat));
            if !contains_name(&self.used, &candidate) {
                self.used.push(candidate.clone());
                assert(views(self.used@) =~= used.push(candidate@));
                return candidate;
            }
            if k == self.used.len() + 1 {
                proof {
                    lemma_free_index_exists(used, base@);
                    let j = choose|j: nat| 1 <= j <= used.len() + 1 && !used.contains(#[trigger] indexed(base@, j));
                    assert(used.contains(indexed(base@, j)));
                }
            }
            k += 1;
        }
    }

    /// The unique symbol for a declaration at `path`, distinguished by
    /// `discriminators` (template arguments, an overload index).
    pub fn name(&mut self, path: &Vec<String>, discriminators: &Vec<String>) -> (r: String)
        requires
            old(self)@.len() < usize::MAX,
        ensures
            named_from(r@, mangle(views(path@), views(discriminators@))),
            !old(self)@.contains(r@),
            final(self)@ == old(self)@.push(r@),
            ({
                let base = mangle(views(path@), views(discriminators@));
                &&& !old(self)@.contains(base) ==> r@ == base
                &&& old(self)@.contains(base) ==> exists|k: nat| k >= 1 && r@ == indexed(base, k)
                    && forall|j: nat| 1 <= j < k ==> old(self)@.contains(#[trigger] indexed(base, j))
            }),
    {
        let base = mangle_symbol(path, discriminators);
        self.claim(base)
    }
}

} // verus!
