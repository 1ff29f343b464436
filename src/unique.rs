//! First-occurrence deduplication of sequences.
use vstd::prelude::*;

verus! {

/// The elements of `s` in the order of their first occurrence, each once.
pub open spec fn dedup<A>(s: Seq<A>) -> Seq<A>
    decreases s.len(),
{
    if s.len() == 0 {
        Seq::empty()
    } else {
        let d = dedup(s.drop_last());
        if d.contains(s.last()) {
            d
        } else {
            d.push(s.last())
        }
    }
}

/// Adding one element to the input adds it to the output unless it was
/// already there.
pub proof fn lemma_dedup_push<A>(s: Seq<A>, x: A)
    ensures
        dedup(s.push(x)) == (if dedup(s).contains(x) {
            dedup(s)
        } else {
            dedup(s).push(x)
        }),
{
    assert(s.push(x).drop_last() =~= s);
}

/// Deduplication never lengthens a sequence, and leaves no repetition.
pub proof fn lemma_dedup_props<A>(s: Seq<A>)
    ensures
        dedup(s).len() <= s.len(),
        forall|i: int, j: int|
            0 <= i < j < dedup(s).len() ==> dedup(s)[i] != dedup(s)[j],
        forall|x: A| dedup(s).contains(x) <==> s.contains(x),
    decreases s.len(),
{
    if s.len() > 0 {
        let t = s.drop_last();
        let l = s.last();
        lemma_dedup_props(t);
        let d = dedup(t);
        assert forall|x: A| s.contains(x) <==> (t.contains(x) || x == l) by {
            if s.contains(x) {
                let k = choose|k: int| 0 <= k < s.len() && s[k] == x;
                if k < s.len() - 1 {
                    assert(t[k] == x);
                }
            }
            if t.contains(x) {
                let k = choose|k: int| 0 <= k < t.len() && t[k] == x;
                assert(s[k] == x);
            }
            if x == l {
                assert(s[s.len() - 1] == x);
            }
        }
        if !d.contains(l) {
            let e = d.push(l);
            assert forall|x: A| e.contains(x) <==> (d.contains(x) || x == l) by {
                if e.contains(x) {
                    let k = choose|k: int| 0 <= k < e.len() && e[k] == x;
                    if k < d.len() {
                        assert(d[k] == x);
                    }
                }
                if d.contains(x) {
                    let k = choose|k: int| 0 <= k < d.len() && d[k] == x;
                    assert(e[k] == x);
                }
                if x == l {
                    assert(e[d.len() as int] == x);
                }
            }
            assert forall|i: int, j: int| 0 <= i < j < e.len() implies e[i] != e[j] by {
                if j == d.len() {
                    if e[i] == e[j] {
                        assert(d[i] == l);
                    }
                }
            }
        }
    }
}

} // verus!
