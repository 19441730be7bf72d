use vstd::prelude::*;

verus! {

/// One enumerator: its name and, where the source gives one, its value.
#[derive(Debug, Clone)]
pub struct Enumerator {
    pub name: String,
    pub value: Option<i64>,
}

/// An enumerator's value would not fit the underlying integer.
#[derive(Debug, Clone, Copy, PartialEq, Eq, Structural)]
pub struct EnumOverflow {
    /// The index of the enumerator.
    pub index: usize,
}

/// The value of each of the first `k` enumerators: the explicit one where
/// given, otherwise one more than the value before it, and 0 for a first
/// enumerator without one.
pub open spec fn enum_values(es: Seq<Enumerator>, k: int) -> Seq<int>
    decreases k,
{
    if k <= 0 {
        seq![]
    } else {
        let prev = enum_values(es, k - 1);
        let v = match es[k - 1].value {
            Some(v) => v as int,
            None => if k == 1 {
                0
            } else {
                prev.last() + 1
            },
        };
        prev.push(v)
    }
}

/// Whether every value fits in an i64.
pub open spec fn fits_i64(vs: Seq<int>) -> bool {
    forall|i: int| 0 <= i < vs.len() ==> i64::MIN <= #[trigger] vs[i] <= i64::MAX
}

proof fn lemma_enum_values_len(es: Seq<Enumerator>, k: int)
    requires
        0 <= k,
    ensures
        enum_values(es, k).len() == k,
    decreases k,
{
    if k > 0 {
        lemma_enum_values_len(es, k - 1);
    }
}

/// The values of an enumeration, exactly as declared; distinct names may
/// share a value. Fails at the first implicit value past the i64 range.
pub fn resolve_enum_values(es: &Vec<Enumerator>) -> (r: Result<Vec<i64>, EnumOverflow>)
    ensures
        match r {
            Ok(vs) => fits_i64(enum_values(es@, es@.len() as int))
                && vs@.map_values(|v: i64| v as int) == enum_values(es@, es@.len() as int),
            Err(e) => e.index < es@.len() && fits_i64(enum_values(es@, e.index as int))
                && !fits_i64(enum_values(es@, e.index + 1)),
        },
{
    let mut vs: Vec<i64> = Vec::new();
    let mut i: usize = 0;
    while i < es.len()
        invariant
            0 <= i <= es@.len(),
            fits_i64(enum_values(es@, i as int)),
            vs@.map_values(|v: i64| v as int) == enum_values(es@, i as int),
        decreases es@.len() - i,
    {
        proof {
            lemma_enum_values_len(es@, i as int);
        }
        let v: i64 = match es[i].value {
            Some(v) => v,
            None => if i == 0 {
                0
            } else {
                let prev = vs[i - 1];
                assert(prev as int == enum_values(es@, i as int).last());
                if prev == i64::MAX {
                    proof {
                        lemma_enum_values_len(es@, i + 1);
                        assert(enum_values(es@, i + 1)[i as int] == i64::MAX as int + 1);
                    }
                    return Err(EnumOverflow { index: i });
                }
                prev + 1
            },
        };
        let ghost before = vs@;
        vs.push(v);
        assert(vs@.map_values(|v: i64| v as int) =~= before.map_values(|v: i64| v as int).push(v as int));
        i += 1;
    }
    Ok(vs)
}

} // verus!
