use vstd::prelude::*;

verus! {

/// Each combination of `cs` extended by every value index below `n`, the
/// values of one combination kept together: entry `k` is `cs[k / n]`
/// followed by `k % n`.
pub open spec fn extend_combos(cs: Seq<Seq<usize>>, n: usize) -> Seq<Seq<usize>> {
    Seq::new((cs.len() * n) as nat, |k: int| cs[k / (n as int)].push((k % (n as int)) as usize))
}

/// All combinations of value indices for gains with `counts[i]` values
/// each, in the order in which the first gain varies slowest: one empty
/// combination for no gains, none if some gain has no values.
pub open spec fn combos_of(counts: Seq<usize>) -> Seq<Seq<usize>>
    decreases counts.len(),
{
    if counts.len() == 0 {
        seq![Seq::<usize>::empty()]
    } else {
        extend_combos(combos_of(counts.drop_last()), counts.last())
    }
}

/// Product of the counts.
pub open spec fn combo_count(counts: Seq<usize>) -> int
    decreases counts.len(),
{
    if counts.len() == 0 {
        1
    } else {
        combo_count(counts.drop_last()) * (counts.last() as int)
    }
}

/// The number of combinations is the product of the value counts.
pub proof fn law_combo_count(counts: Seq<usize>)
    ensures
        combos_of(counts).len() == combo_count(counts),
        forall|k: int| 0 <= k < combos_of(counts).len() ==> (#[trigger] combos_of(counts)[k]).len() == counts.len(),
    decreases counts.len(),
{
    if counts.len() > 0 {
        let prev = counts.drop_last();
        law_combo_count(prev);
        let n = counts.last();
        let cs = combos_of(prev);
        assert(combo_count(counts) == cs.len() * n);
        assert forall|k: int| 0 <= k < combos_of(counts).len() implies (#[trigger] combos_of(counts)[k]).len() == counts.len() by {
            assert(0 <= k / (n as int) < cs.len()) by (nonlinear_arith)
                requires
                    0 <= k < cs.len() * n,
                    n > 0,
            ;
        }
    }
}

/// Extends each combination by each value index below `n`.
fn extend(cs: &Vec<Vec<usize>>, n: usize) -> (next: Vec<Vec<usize>>)
    ensures
        next@.map_values(|v: Vec<usize>| v@) == extend_combos(cs@.map_values(|v: Vec<usize>| v@), n),
{
    let ghost csv = cs@.map_values(|v: Vec<usize>| v@);
    let ghost ni = n as int;
    let mut next: Vec<Vec<usize>> = Vec::new();
    let mut a: usize = 0;
    assert(0 * ni == 0) by (nonlinear_arith);
    while a < cs.len()
        invariant
            a <= cs.len(),
            ni == n as int,
            csv == cs@.map_values(|v: Vec<usize>| v@),
            next@.len() == a * ni,
            forall|k: int|
                0 <= k < next@.len() ==> (#[trigger] next@[k])@ == csv[k / ni].push((k % ni) as usize),
        decreases cs.len() - a,
    {
        let mut v: usize = 0;
        while v < n
            invariant
                a < cs.len(),
                v <= n,
                ni == n as int,
                csv == cs@.map_values(|v: Vec<usize>| v@),
                next@.len() == a * ni + v,
                forall|k: int|
                    0 <= k < next@.len() ==> (#[trigger] next@[k])@ == csv[k / ni].push((k % ni) as usize),
            decreases n - v,
        {
            let mut c = cs[a].clone();
            proof {
                assert(c@ =~= cs@[a as int]@);
            }
            c.push(v);
            let ghost k = next@.len() as int;
            next.push(c);
            proof {
                assert(k == a * ni + v);
                vstd::arithmetic::div_mod::lemma_fundamental_div_mod_converse(k, ni, a as int, v as int);
            }
            v += 1;
        }
        proof {
            assert((a + 1) * ni == a * ni + ni) by (nonlinear_arith);
        }
        a += 1;
    }
    let ghost target = extend_combos(csv, n);
    proof {
        assert(next@.map_values(|v: Vec<usize>| v@) =~= target);
    }
    next
}

/// All combinations of value indices for gains with `counts[i]` values each
/// (see `combos_of`): the first gain varies slowest, the last fastest.
pub fn combo_index_lists(counts: &Vec<usize>) -> (combos: Vec<Vec<usize>>)
    ensures
        combos@.map_values(|v: Vec<usize>| v@) == combos_of(counts@),
{
    let mut combos: Vec<Vec<usize>> = Vec::new();
    combos.push(Vec::new());
    proof {
        assert(combos@.map_values(|v: Vec<usize>| v@) =~= combos_of(counts@.take(0)));
    }
    for i in 0..counts.len()
        invariant
            combos@.map_values(|v: Vec<usize>| v@) == combos_of(counts@.take(i as int)),
    {
        combos = extend(&combos, counts[i]);
        proof {
            assert(counts@.take(i + 1).drop_last() =~= counts@.take(i as int));
        }
    }
    proof {
        assert(counts@.take(counts@.len() as int) =~= counts@);
    }
    combos
}

} // verus!
