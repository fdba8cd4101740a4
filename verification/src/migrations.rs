//! The order in which database migrations run: the migrations of several
//! sources merged, down migrations left out, sorted by version.

use vstd::prelude::*;

verus! {

/// The version of the migration at position `e.1` of source `e.0`.
pub open spec fn version_at(sources: Seq<Seq<(i64, bool)>>, e: (usize, usize)) -> i64 {
    sources[e.0 as int][e.1 as int].0
}

/// There is an up migration at position `e.1` of source `e.0`.
pub open spec fn is_up_at(sources: Seq<Seq<(i64, bool)>>, e: (usize, usize)) -> bool {
    &&& e.0 < sources.len()
    &&& e.1 < sources[e.0 as int].len()
    &&& sources[e.0 as int][e.1 as int].1
}

/// `a` comes before `b` when the sources are read one after the other.
pub open spec fn position_before(a: (usize, usize), b: (usize, usize)) -> bool {
    a.0 < b.0 || (a.0 == b.0 && a.1 < b.1)
}

/// `a` runs before `b`: it has a lower version, or the same version and
/// comes first in the sources.
pub open spec fn runs_before(sources: Seq<Seq<(i64, bool)>>, a: (usize, usize), b: (usize, usize)) -> bool {
    version_at(sources, a) < version_at(sources, b) || (version_at(sources, a) == version_at(sources, b)
        && position_before(a, b))
}

/// Each migration runs before all the ones after it.
pub open spec fn in_run_order(sources: Seq<Seq<(i64, bool)>>, order: Seq<(usize, usize)>) -> bool {
    forall|i: int, j: int|
        0 <= i < j < order.len() ==> runs_before(sources, #[trigger] order[i], #[trigger] order[j])
}

/// The run order of the merged migrations, as positions `(source, index)`:
/// every up migration exactly once, down migrations left out, sorted by
/// version; migrations of equal version keep the order in which the sources
/// list them (the sort is stable).
pub fn merged_run_order(sources: &Vec<Vec<(i64, bool)>>) -> (res: Vec<(usize, usize)>)
    ensures
        forall|i: int| 0 <= i < res.len() ==> is_up_at(sources@.map_values(|v: Vec<(i64, bool)>| v@), #[trigger] res[i]),
        forall|e: (usize, usize)|
            is_up_at(sources@.map_values(|v: Vec<(i64, bool)>| v@), e) ==> res@.contains(e),
        in_run_order(sources@.map_values(|v: Vec<(i64, bool)>| v@), res@),
{
    let ghost src = sources@.map_values(|v: Vec<(i64, bool)>| v@);
    let mut order: Vec<(usize, usize)> = Vec::new();
    let n = sources.len();
    let mut s: usize = 0;
    while s < n
        invariant
            n == sources.len(),
            src == sources@.map_values(|v: Vec<(i64, bool)>| v@),
            s <= n,
            forall|i: int| 0 <= i < order.len() ==> is_up_at(src, #[trigger] order[i]),
            forall|i: int| 0 <= i < order.len() ==> (#[trigger] order[i]).0 < s,
            forall|e: (usize, usize)| is_up_at(src, e) && e.0 < s ==> order@.contains(e),
            in_run_order(src, order@),
        decreases n - s,
    {
        let source = &sources[s];
        assert(src[s as int] == source@);
        let m = source.len();
        let mut p: usize = 0;
        while p < m
            invariant
                n == sources.len(),
                src == sources@.map_values(|v: Vec<(i64, bool)>| v@),
                s < n,
                src[s as int] == source@,
                m == source.len(),
                p <= m,
                forall|i: int| 0 <= i < order.len() ==> is_up_at(src, #[trigger] order[i]),
                forall|i: int| 0 <= i < order.len() ==> position_before(#[trigger] order[i], (s, p)),
                forall|e: (usize, usize)| is_up_at(src, e) && position_before(e, (s, p)) ==> order@.contains(e),
                in_run_order(src, order@),
            decreases m - p,
        {
            let (version, up) = source[p];
            if up {
                let e = (s, p);
                assert(version_at(src, e) == version);
                let mut k = order.len();
                while k > 0 && sources[order[k - 1].0][order[k - 1].1].0 > version
                    invariant
                        n == sources.len(),
                        src == sources@.map_values(|v: Vec<(i64, bool)>| v@),
                        k <= order.len(),
                        forall|i: int| 0 <= i < order.len() ==> is_up_at(src, #[trigger] order[i]),
                        forall|j: int| k <= j < order.len() ==> version_at(src, #[trigger] order[j]) > version,
                    decreases k,
                {
                    assert(is_up_at(src, order[k - 1]));
                    assert(sources[order[k - 1].0 as int]@ == src[order[k - 1].0 as int]);
                    k = k - 1;
                }
                proof {
                    if k > 0 {
                        assert(is_up_at(src, order[k - 1]));
                        assert(sources[order[k - 1].0 as int]@ == src[order[k - 1].0 as int]);
                        assert(version_at(src, order@[k - 1]) <= version);
                    }
                }
                let ghost before = order@;
                order.insert(k, e);
                proof {
                    assert(order@ == before.insert(k as int, e));
                    assert forall|i: int, j: int| 0 <= i < j < order@.len() implies runs_before(
                        src,
                        #[trigger] order@[i],
                        #[trigger] order@[j],
                    ) by {
                        if j < k {
                            assert(runs_before(src, before[i], before[j]));
                        } else if j == k {
                            assert(position_before(before[i], e));
                            if i < k - 1 {
                                assert(runs_before(src, before[i], before[k - 1]));
                            }
                        } else if i == k {
                            assert(version_at(src, before[j - 1]) > version);
                        } else if i < k {
                            assert(runs_before(src, before[i], before[j - 1]));
                        } else {
                            assert(runs_before(src, before[i - 1], before[j - 1]));
                        }
                    }
                    assert forall|x: (usize, usize)|
                        is_up_at(src, x) && position_before(x, (s, (p + 1) as usize)) implies order@.contains(x) by {
                        if x == e {
                            assert(order@[k as int] == e);
                        } else {
                            assert(before.contains(x));
                            let w = choose|w: int| 0 <= w < before.len() && before[w] == x;
                            if w < k {
                                assert(order@[w] == x);
                            } else {
                                assert(order@[w + 1] == x);
                            }
                        }
                    }
                    assert forall|i: int| 0 <= i < order.len() implies is_up_at(src, #[trigger] order@[i]) by {
                        if i < k {
                            assert(order@[i] == before[i]);
                        } else if i > k {
                            assert(order@[i] == before[i - 1]);
                        }
                    }
                    assert forall|i: int| 0 <= i < order.len() implies position_before(
                        #[trigger] order@[i],
                        (s, (p + 1) as usize),
                    ) by {
                        if i < k {
                            assert(order@[i] == before[i]);
                        } else if i > k {
                            assert(order@[i] == before[i - 1]);
                        }
                    }
                }
            } else {
                proof {
                    assert forall|x: (usize, usize)|
                        is_up_at(src, x) && position_before(x, (s, (p + 1) as usize)) implies order@.contains(x) by {
                        if x.0 == s && x.1 == p {
                            assert(!is_up_at(src, x));
                        }
                    }
                }
            }
            p = p + 1;
        }
        proof {
            assert forall|x: (usize, usize)| is_up_at(src, x) && x.0 < s + 1 implies order@.contains(x) by {
                if x.0 == s {
                    assert(position_before(x, (s, p)));
                }
            }
        }
        s = s + 1;
    }
    order
}

/// The run order lists no migration twice.
pub proof fn law_run_order_has_no_duplicates(sources: Seq<Seq<(i64, bool)>>, order: Seq<(usize, usize)>)
    requires
        in_run_order(sources, order),
    ensures
        forall|i: int, j: int| 0 <= i < j < order.len() ==> order[i] != order[j],
{
    assert forall|i: int, j: int| 0 <= i < j < order.len() implies order[i] != order[j] by {
        assert(runs_before(sources, order[i], order[j]));
    }
}

} // verus!
