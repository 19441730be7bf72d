use vstd::prelude::*;

verus! {

/// The access level of an inheritance edge or a member.
#[derive(Debug, Clone, Copy, PartialEq, Eq, Structural)]
pub enum Access {
    Public,
    Protected,
    Private,
}

/// A direct base of a record: the index of the base record in the
/// hierarchy, with its access and virtual-ness.
#[derive(Debug, Clone, Copy, PartialEq, Eq, Structural)]
pub struct BaseEdge {
    pub base: usize,
    pub access: Access,
    pub is_virtual: bool,
}

/// A method as the forwarder sees it.
#[derive(Debug, Clone)]
pub struct Method {
    pub name: String,
    pub is_virtual: bool,
}

/// A record: its direct bases, in declaration order, and its methods.
#[derive(Debug, Clone)]
pub struct Record {
    pub name: String,
    pub bases: Vec<BaseEdge>,
    pub methods: Vec<Method>,
}

/// Every base of a record comes earlier in the hierarchy than the record
/// itself, so that inheritance is acyclic. One base may be reached along
/// several paths.
pub open spec fn wf_hierarchy(h: Seq<Record>) -> bool {
    forall|x: int, i: int| 0 <= x < h.len() && 0 <= i < h[x].bases@.len()
        ==> (#[trigger] h[x].bases@[i]).base < x
}

/// A public direct edge from `x` to its base `b`.
pub open spec fn public_edge(h: Seq<Record>, x: int, b: int) -> bool {
    0 <= x < h.len() && exists|i: int| 0 <= i < h[x].bases@.len()
        && (#[trigger] h[x].bases@[i]).base == b && h[x].bases@[i].access == Access::Public
}

/// `b` is a proper base of `r` along a path of public edges.
pub open spec fn reaches(h: Seq<Record>, r: int, b: int) -> bool
    decreases r - b,
{
    b < r && exists|x: int| b < x <= r && (x == r || reaches(h, r, x)) && #[trigger] public_edge(h, x, b)
}

/// `y` is `r` itself or a public base of it.
pub open spec fn reached(h: Seq<Record>, r: int, y: int) -> bool {
    y == r || reaches(h, r, y)
}

/// Whether a record declares a method of the given name.
pub open spec fn declares(h: Seq<Record>, x: int, n: Seq<char>) -> bool {
    exists|i: int| 0 <= i < h[x].methods@.len() && (#[trigger] h[x].methods@[i]).name@ == n
}

/// `b` gives `r` a capability trait: a public base, direct or not, that
/// contributes at least one method.
pub open spec fn is_capability(h: Seq<Record>, r: int, b: int) -> bool {
    reaches(h, r, b) && h[b].methods@.len() > 0
}

/// Checks that the hierarchy is acyclic in the sense of `wf_hierarchy`.
pub fn check_hierarchy(h: &Vec<Record>) -> (r: bool)
    ensures
        r == wf_hierarchy(h@),
{
    let mut x: usize = 0;
    while x < h.len()
        invariant
            0 <= x <= h@.len(),
            forall|y: int, i: int| 0 <= y < x && 0 <= i < h@[y].bases@.len()
                ==> (#[trigger] h@[y].bases@[i]).base < y,
        decreases h@.len() - x,
    {
        let mut i: usize = 0;
        while i < h[x].bases.len()
            invariant
                0 <= x < h@.len(),
                0 <= i <= h@[x as int].bases@.len(),
                forall|y: int, j: int| 0 <= y < x && 0 <= j < h@[y].bases@.len()
                    ==> (#[trigger] h@[y].bases@[j]).base < y,
                forall|j: int| 0 <= j < i ==> (#[trigger] h@[x as int].bases@[j]).base < x,
            decreases h@[x as int].bases@.len() - i,
        {
            if h[x].bases[i].base >= x {
                return false;
            }
            i += 1;
        }
        x += 1;
    }
    true
}

/// Some `y` in `lo..=r` is `r` or a public base of it and has a public edge
/// to `b`.
spec fn reached_through(h: Seq<Record>, r: int, lo: int, b: int) -> bool {
    exists|y: int| lo <= y <= r && #[trigger] reached(h, r, y) && #[trigger] public_edge(h, y, b)
}

proof fn lemma_reaches_step(h: Seq<Record>, r: int, x: int)
    requires
        x < r,
    ensures
        reaches(h, r, x) == reached_through(h, r, x + 1, x),
{
    if reaches(h, r, x) {
        let y = choose|y: int| x < y <= r && (y == r || reaches(h, r, y)) && #[trigger] public_edge(h, y, x);
        assert(reached(h, r, y));
    }
    if reached_through(h, r, x + 1, x) {
        let y = choose|y: int| x + 1 <= y <= r && #[trigger] reached(h, r, y) && #[trigger] public_edge(h, y, x);
        assert(x < y <= r && (y == r || reaches(h, r, y)) && public_edge(h, y, x));
    }
}

/// Marks, for each record up to `r`, whether it is `r` or one of its public
/// bases.
pub fn public_bases(h: &Vec<Record>, r: usize) -> (m: Vec<bool>)
    requires
        wf_hierarchy(h@),
        r < h@.len(),
    ensures
        m@.len() == r + 1,
        forall|b: int| 0 <= b <= r ==> m@[b] == reached(h@, r as int, b),
{
    let n = h.len();
    let mut m: Vec<bool> = Vec::new();
    let mut i: usize = 0;
    while i <= r
        invariant
            r < n,
            n == h@.len(),
            0 <= i <= r + 1,
            m@.len() == i,
            forall|j: int| 0 <= j < i ==> m@[j] == (j == r),
        decreases r + 1 - i,
    {
        m.push(i == r);
        i += 1;
    }
    let mut next: usize = r + 1;
    while next > 0
        invariant
            wf_hierarchy(h@),
            r < h@.len(),
            m@.len() == r + 1,
            0 <= next <= r + 1,
            forall|b: int| next <= b <= r ==> m@[b] == reached(h@, r as int, b),
            forall|b: int| 0 <= b < next ==> m@[b] == (b == r || reached_through(h@, r as int, next as int, b)),
        decreases next,
    {
        let x = next - 1;
        assert(m@[x as int] == reached(h@, r as int, x as int)) by {
            if x < r {
                lemma_reaches_step(h@, r as int, x as int);
            }
        }
        let ghost before = m@;
        if m[x] {
            let mut j: usize = 0;
            while j < h[x].bases.len()
                invariant
                    wf_hierarchy(h@),
                    r < h@.len(),
                    x < next <= r + 1,
                    x == next - 1,
                    m@.len() == r + 1,
                    before.len() == r + 1,
                    reached(h@, r as int, x as int),
                    0 <= j <= h@[x as int].bases@.len(),
                    forall|b: int| x <= b <= r ==> m@[b] == before[b],
                    forall|b: int| 0 <= b < x ==> m@[b] == (before[b] || exists|k: int| 0 <= k < j
                        && (#[trigger] h@[x as int].bases@[k]).base == b && h@[x as int].bases@[k].access == Access::Public),
                decreases h@[x as int].bases@.len() - j,
            {
                let e = h[x].bases[j];
                assert(e == h@[x as int].bases@[j as int]);
                let ghost mid = m@;
                if e.access == Access::Public {
                    m.set(e.base, true);
                }
                j += 1;
                assert forall|b: int| 0 <= b < x implies m@[b] == (before[b] || exists|k: int| 0 <= k < j
                    && (#[trigger] h@[x as int].bases@[k]).base == b && h@[x as int].bases@[k].access == Access::Public) by {
                    if b == e.base && e.access == Access::Public {
                        assert(h@[x as int].bases@[j - 1].base == b);
                    } else {
                        assert(m@[b] == mid[b]);
                        if mid[b] && !before[b] {
                            let k = choose|k: int| 0 <= k < j - 1 && (#[trigger] h@[x as int].bases@[k]).base == b
                                && h@[x as int].bases@[k].access == Access::Public;
                            assert(0 <= k < j);
                        }
                        if !mid[b] && !before[b] {
                            assert forall|k: int| 0 <= k < j implies !((#[trigger] h@[x as int].bases@[k]).base == b
                                && h@[x as int].bases@[k].access == Access::Public) by {
                                if k == j - 1 {
                                    assert(h@[x as int].bases@[k] == e);
                                }
                            }
                        }
                    }
                }
            }
            assert forall|b: int| 0 <= b < x implies m@[b] == (b == r || reached_through(h@, r as int, x as int, b)) by {
                if m@[b] && !before[b] {
                    let k = choose|k: int| 0 <= k < h@[x as int].bases@.len() && (#[trigger] h@[x as int].bases@[k]).base == b
                        && h@[x as int].bases@[k].access == Access::Public;
                    assert(public_edge(h@, x as int, b));
                    assert(reached(h@, r as int, x as int));
                }
                if reached_through(h@, r as int, x as int, b) && !before[b] {
                    let y = choose|y: int| x <= y <= r && #[trigger] reached(h@, r as int, y)
                        && #[trigger] public_edge(h@, y, b);
                    if y > x {
                        assert(reached_through(h@, r as int, next as int, b));
                    } else {
                        let k = choose|k: int| 0 <= k < h@[x as int].bases@.len()
                            && (#[trigger] h@[x as int].bases@[k]).base == b && h@[x as int].bases@[k].access == Access::Public;
                    }
                }
                if before[b] && b != r {
                    let y = choose|y: int| next <= y <= r && #[trigger] reached(h@, r as int, y)
                        && #[trigger] public_edge(h@, y, b);
                }
            }
        } else {
            assert forall|b: int| 0 <= b < x implies m@[b] == (b == r || reached_through(h@, r as int, x as int, b)) by {
                if reached_through(h@, r as int, x as int, b) {
                    let y = choose|y: int| x <= y <= r && #[trigger] reached(h@, r as int, y)
                        && #[trigger] public_edge(h@, y, b);
                    if y > x {
                        assert(reached_through(h@, r as int, next as int, b));
                    }
                }
                if m@[b] && b != r {
                    let y = choose|y: int| next <= y <= r && #[trigger] reached(h@, r as int, y)
                        && #[trigger] public_edge(h@, y, b);
                }
            }
        }
        assert forall|b: int| x <= b <= r implies m@[b] == reached(h@, r as int, b) by {
            assert(m@[b] == before[b]);
        }
        next = x;
    }
    m
}

/// Whether a record declares a method named `n`.
pub fn declares_method(rec: &Record, n: &String) -> (r: bool)
    ensures
        r == exists|i: int| 0 <= i < rec.methods@.len() && (#[trigger] rec.methods@[i]).name@ == n@,
{
    let mut i: usize = 0;
    while i < rec.methods.len()
        invariant
            0 <= i <= rec.methods@.len(),
            forall|j: int| 0 <= j < i ==> (#[trigger] rec.methods@[j]).name@ != n@,
        decreases rec.methods@.len() - i,
    {
        if rec.methods[i].name == *n {
            assert(rec.methods@[i as int].name@ == n@);
            return true;
        }
        i += 1;
    }
    false
}

/// The capability traits that record `r` satisfies, by base index, in
/// ascending order.
pub fn capability_traits(h: &Vec<Record>, r: usize) -> (t: Vec<usize>)
    requires
        wf_hierarchy(h@),
        r < h@.len(),
    ensures
        forall|i: int, j: int| 0 <= i < j < t@.len() ==> t@[i] < t@[j],
        forall|i: int| 0 <= i < t@.len() ==> t@[i] < r && is_capability(h@, r as int, #[trigger] t@[i] as int),
        forall|b: usize| b < r && is_capability(h@, r as int, b as int) ==> t@.contains(b),
{
    let m = public_bases(h, r);
    let mut t: Vec<usize> = Vec::new();
    let mut b: usize = 0;
    while b < r
        invariant
            m@.len() == r + 1,
            r < h@.len(),
            forall|c: int| 0 <= c <= r ==> m@[c] == reached(h@, r as int, c),
            0 <= b <= r,
            forall|i: int, j: int| 0 <= i < j < t@.len() ==> t@[i] < t@[j],
            forall|i: int| 0 <= i < t@.len() ==> t@[i] < b && is_capability(h@, r as int, #[trigger] t@[i] as int),
            forall|c: usize| c < b && is_capability(h@, r as int, c as int) ==> t@.contains(c),
        decreases r - b,
    {
        let ghost before = t@;
        if m[b] && h[b].methods.len() > 0 {
            t.push(b);
            assert forall|c: usize| c < b + 1 && is_capability(h@, r as int, c as int) implies t@.contains(c) by {
                if c < b {
                    assert(before.contains(c));
                    let i = choose|i: int| 0 <= i < before.len() && before[i] == c;
                    assert(t@[i] == c);
                } else {
                    assert(t@[t@.len() - 1] == b);
                }
            }
        }
        b += 1;
    }
    t
}

/// Why a method lookup on a record fails.
#[derive(Debug, Clone, Copy, PartialEq, Eq, Structural)]
pub enum LookupError {
    /// No method of that name is reachable.
    NotFound,
    /// Two or more satisfied capability traits declare the name and the
    /// record does not; only trait-qualified access can reach them.
    Ambiguous,
    /// The qualifying base is not a capability trait of the record.
    NotACapability,
}

/// `b` is a capability trait of `r` that declares `n`.
pub open spec fn declaring_trait(h: Seq<Record>, r: int, n: Seq<char>, b: int) -> bool {
    0 <= b < r && is_capability(h, r, b) && declares(h, b, n)
}

/// What an unqualified call of `n` on record `r` reaches: the record's own
/// method, or the one capability trait that declares the name.
pub open spec fn unqualified_lookup(h: Seq<Record>, r: int, n: Seq<char>) -> Result<int, LookupError> {
    if declares(h, r, n) {
        Ok(r)
    } else if exists|b1: int, b2: int| b1 != b2 && declaring_trait(h, r, n, b1) && declaring_trait(h, r, n, b2) {
        Err(LookupError::Ambiguous)
    } else if exists|b: int| declaring_trait(h, r, n, b) {
        Ok(choose|b: int| declaring_trait(h, r, n, b))
    } else {
        Err(LookupError::NotFound)
    }
}

/// `y` lies on a public path from `r` down to `b`.
pub open spec fn on_path(h: Seq<Record>, r: int, b: int, y: int) -> bool {
    reached(h, r, y) && (y == b || reaches(h, y, b))
}

/// `x` is the most-derived record between `r` and `b` that declares `n`.
pub open spec fn is_overrider(h: Seq<Record>, r: int, b: int, n: Seq<char>, x: int) -> bool {
    b <= x <= r && on_path(h, r, b, x) && declares(h, x, n)
        && forall|y: int| x < y <= r && #[trigger] on_path(h, r, b, y) ==> !declares(h, y, n)
}

/// What a call of `n` qualified by the capability trait `b` reaches on
/// record `r`: the most-derived override.
pub open spec fn qualified_lookup(h: Seq<Record>, r: int, b: int, n: Seq<char>) -> Result<int, LookupError> {
    if !(0 <= b < r && is_capability(h, r, b)) {
        Err(LookupError::NotACapability)
    } else if !declares(h, b, n) {
        Err(LookupError::NotFound)
    } else {
        Ok(choose|x: int| is_overrider(h, r, b, n, x))
    }
}

proof fn lemma_overrider_exists(h: Seq<Record>, r: int, b: int, n: Seq<char>, hi: int)
    requires
        b <= hi <= r,
        on_path(h, r, b, b),
        declares(h, b, n),
    ensures
        exists|x: int| b <= x <= hi && on_path(h, r, b, x) && declares(h, x, n)
            && forall|y: int| x < y <= hi && #[trigger] on_path(h, r, b, y) ==> !declares(h, y, n),
    decreases hi - b,
{
    if !(on_path(h, r, b, hi) && declares(h, hi, n)) && hi > b {
        lemma_overrider_exists(h, r, b, n, hi - 1);
        let x = choose|x: int| b <= x <= hi - 1 && on_path(h, r, b, x) && declares(h, x, n)
            && forall|y: int| x < y <= hi - 1 && #[trigger] on_path(h, r, b, y) ==> !declares(h, y, n);
        assert(forall|y: int| x < y <= hi && #[trigger] on_path(h, r, b, y) ==> !declares(h, y, n));
    } else if on_path(h, r, b, hi) && declares(h, hi, n) {
        assert(forall|y: int| hi < y <= hi ==> !#[trigger] on_path(h, r, b, y));
    }
}

/// Resolves an unqualified call of `n` on record `r`.
pub fn resolve_unqualified(h: &Vec<Record>, r: usize, n: &String) -> (res: Result<usize, LookupError>)
    requires
        wf_hierarchy(h@),
        r < h@.len(),
    ensures
        match unqualified_lookup(h@, r as int, n@) {
            Ok(x) => res == Ok::<usize, LookupError>(x as usize),
            Err(e) => res == Err::<usize, LookupError>(e),
        },
{
    if declares_method(&h[r], n) {
        return Ok(r);
    }
    assert(!declares(h@, r as int, n@));
    let traits = capability_traits(h, r);
    let mut found: Option<usize> = None;
    let mut i: usize = 0;
    while i < traits.len()
        invariant
            forall|a: int, c: int| 0 <= a < c < traits@.len() ==> traits@[a] < traits@[c],
            forall|a: int| 0 <= a < traits@.len() ==> traits@[a] < r && is_capability(h@, r as int, #[trigger] traits@[a] as int),
            forall|b: usize| b < r && is_capability(h@, r as int, b as int) ==> traits@.contains(b),
            r < h@.len(),
            !declares(h@, r as int, n@),
            0 <= i <= traits@.len(),
            match found {
                Some(f) => declaring_trait(h@, r as int, n@, f as int)
                    && (forall|a: int| i <= a < traits@.len() ==> f < #[trigger] traits@[a])
                    && forall|j: int| 0 <= j < i && declares(h@, traits@[j] as int, n@) ==> traits@[j] == f,
                None => forall|j: int| 0 <= j < i ==> !declares(h@, #[trigger] traits@[j] as int, n@),
            },
        decreases traits@.len() - i,
    {
        let b = traits[i];
        assert(b < r && is_capability(h@, r as int, traits@[i as int] as int));
        if declares_method(&h[b], n) {
            match found {
                Some(f) => {
                    proof {
                        assert(declaring_trait(h@, r as int, n@, b as int));
                        assert(f < traits@[i as int]);
                        assert(declaring_trait(h@, r as int, n@, f as int));
                        assert(!declares(h@, r as int, n@));
                    }
                    return Err(LookupError::Ambiguous);
                },
                None => {
                    found = Some(b);
                },
            }
        }
        i += 1;
    }
    proof {
        assert forall|c: int| declaring_trait(h@, r as int, n@, c) implies found == Some(c as usize) by {
            assert(traits@.contains(c as usize));
            let j = choose|j: int| 0 <= j < traits@.len() && traits@[j] == c as usize;
            assert(declares(h@, traits@[j] as int, n@));
        }
        if let Some(f) = found {
            assert forall|b1: int, b2: int| declaring_trait(h@, r as int, n@, b1) && declaring_trait(h@, r as int, n@, b2)
                implies b1 == b2 by {
                assert(found == Some(b1 as usize));
                assert(found == Some(b2 as usize));
            }
            assert(declaring_trait(h@, r as int, n@, f as int));
        }
    }
    match found {
        Some(f) => Ok(f),
        None => Err(LookupError::NotFound),
    }
}

proof fn lemma_overrider_unique(h: Seq<Record>, r: int, b: int, n: Seq<char>, x1: int, x2: int)
    requires
        is_overrider(h, r, b, n, x1),
        is_overrider(h, r, b, n, x2),
    ensures
        x1 == x2,
{
    if x1 < x2 {
        assert(on_path(h, r, b, x2));
    } else if x2 < x1 {
        assert(on_path(h, r, b, x1));
    }
}

/// Resolves a call of `n` qualified by the capability trait `b` on record
/// `r` to its most-derived override.
pub fn resolve_qualified(h: &Vec<Record>, r: usize, b: usize, n: &String) -> (res: Result<usize, LookupError>)
    requires
        wf_hierarchy(h@),
        r < h@.len(),
    ensures
        match qualified_lookup(h@, r as int, b as int, n@) {
            Ok(x) => res == Ok::<usize, LookupError>(x as usize) && is_overrider(h@, r as int, b as int, n@, x),
            Err(e) => res == Err::<usize, LookupError>(e),
        },
{
    if b >= r {
        return Err(LookupError::NotACapability);
    }
    let m = public_bases(h, r);
    if !m[b] || h[b].methods.len() == 0 {
        return Err(LookupError::NotACapability);
    }
    if !declares_method(&h[b], n) {
        return Err(LookupError::NotFound);
    }
    let mut y: usize = r;
    loop
        invariant
            wf_hierarchy(h@),
            r < h@.len(),
            b < r,
            m@.len() == r + 1,
            forall|c: int| 0 <= c <= r ==> m@[c] == reached(h@, r as int, c),
            reaches(h@, r as int, b as int),
            declares(h@, b as int, n@),
            b <= y <= r,
            forall|z: int| y < z <= r && #[trigger] on_path(h@, r as int, b as int, z) ==> !declares(h@, z, n@),
        decreases y - b,
    {
        let below = public_bases(h, y);
        let on = m[y] && (y == b || below[b]);
        assert(on == on_path(h@, r as int, b as int, y as int));
        if on && declares_method(&h[y], n) {
            proof {
                assert(is_overrider(h@, r as int, b as int, n@, y as int));
                let x = choose|x: int| is_overrider(h@, r as int, b as int, n@, x);
                lemma_overrider_unique(h@, r as int, b as int, n@, x, y as int);
            }
            return Ok(y);
        }
        assert(y != b);
        y -= 1;
    }
}

/// A method name declared by two satisfied capability traits, and not by
/// the record itself, is rejected when called unqualified; qualified by
/// either trait, the call reaches that trait's most-derived override.
pub proof fn lemma_shared_name_needs_qualification(h: Seq<Record>, r: int, n: Seq<char>, b1: int, b2: int)
    requires
        wf_hierarchy(h),
        0 <= r < h.len(),
        b1 != b2,
        declaring_trait(h, r, n, b1),
        declaring_trait(h, r, n, b2),
        !declares(h, r, n),
    ensures
        unqualified_lookup(h, r, n) == Err::<int, LookupError>(LookupError::Ambiguous),
        qualified_lookup(h, r, b1, n) is Ok,
        is_overrider(h, r, b1, n, qualified_lookup(h, r, b1, n)->Ok_0),
        qualified_lookup(h, r, b2, n) is Ok,
        is_overrider(h, r, b2, n, qualified_lookup(h, r, b2, n)->Ok_0),
{
    lemma_overrider_exists(h, r, b1, n, r);
    let x1 = choose|x: int| b1 <= x <= r && on_path(h, r, b1, x) && declares(h, x, n)
        && forall|y: int| x < y <= r && #[trigger] on_path(h, r, b1, y) ==> !declares(h, y, n);
    assert(is_overrider(h, r, b1, n, x1));
    lemma_overrider_exists(h, r, b2, n, r);
    let x2 = choose|x: int| b2 <= x <= r && on_path(h, r, b2, x) && declares(h, x, n)
        && forall|y: int| x < y <= r && #[trigger] on_path(h, r, b2, y) ==> !declares(h, y, n);
    assert(is_overrider(h, r, b2, n, x2));
}

/// A method that the record itself declares is reached identically
/// unqualified and through any satisfied trait that declares it.
pub proof fn lemma_own_override_reached_identically(h: Seq<Record>, r: int, n: Seq<char>, b: int)
    requires
        wf_hierarchy(h),
        0 <= r < h.len(),
        declaring_trait(h, r, n, b),
        declares(h, r, n),
    ensures
        unqualified_lookup(h, r, n) == Ok::<int, LookupError>(r),
        qualified_lookup(h, r, b, n) == Ok::<int, LookupError>(r),
{
    assert(is_overrider(h, r, b, n, r));
    let x = choose|x: int| is_overrider(h, r, b, n, x);
    lemma_overrider_unique(h, r, b, n, x, r);
}

} // verus!
