//! Ranking of scored candidates by an order-preserving integer key: the best candidate,
//! then the next best, in non-increasing key order.
use vstd::prelude::*;

verus! {

/// Candidate `i` reaches the threshold.
pub open spec fn qualifies(keys: Seq<u64>, min_key: u64, i: int) -> bool {
    0 <= i < keys.len() && keys[i] >= min_key
}

/// Positions in `v` are distinct and their keys never increase.
pub open spec fn ranked(keys: Seq<u64>, v: Seq<usize>) -> bool {
    &&& forall|a: int, b: int| 0 <= a < b < v.len() ==> v[a] != v[b]
    &&& forall|a: int, b: int| 0 <= a < b < v.len() ==> keys[v[a] as int] >= keys[v[b] as int]
}

/// The chosen positions are qualifying, ranked, and every qualifying position left out
/// has a key no larger than the last one chosen.
pub open spec fn best_first(keys: Seq<u64>, min_key: u64, v: Seq<usize>) -> bool {
    &&& forall|k: int| 0 <= k < v.len() ==> qualifies(keys, min_key, #[trigger] v[k] as int)
    &&& ranked(keys, v)
    &&& forall|i: int|
        qualifies(keys, min_key, i) && !v.contains(i as usize) && v.len() > 0 ==> keys[i]
            <= keys[v.last() as int]
}

fn contains_index(v: &Vec<usize>, x: usize) -> (r: bool)
    ensures
        r == v@.contains(x),
{
    let mut i: usize = 0;
    while i < v.len()
        invariant
            i <= v@.len(),
            forall|k: int| 0 <= k < i ==> v@[k] != x,
        decreases v@.len() - i,
    {
        if v[i] == x {
            return true;
        }
        i = i + 1;
    }
    false
}

/// The first qualifying position not yet taken with the largest key.
fn pick_best(keys: &Vec<u64>, min_key: u64, taken: &Vec<usize>) -> (r: Option<usize>)
    ensures
        r is None ==> forall|i: int| qualifies(keys@, min_key, i) ==> taken@.contains(i as usize),
        r matches Some(b) ==> {
            &&& qualifies(keys@, min_key, b as int)
            &&& !taken@.contains(b)
            &&& forall|i: int|
                qualifies(keys@, min_key, i) && !taken@.contains(i as usize) ==> keys@[i] <= keys@[b as int]
        },
{
    let mut best: Option<usize> = None;
    let mut i: usize = 0;
    while i < keys.len()
        invariant
            i <= keys@.len(),
            best is None ==> forall|j: int|
                0 <= j < i && qualifies(keys@, min_key, j) ==> taken@.contains(j as usize),
            best matches Some(b) ==> {
                &&& b < i
                &&& qualifies(keys@, min_key, b as int)
                &&& !taken@.contains(b)
                &&& forall|j: int|
                    0 <= j < i && qualifies(keys@, min_key, j) && !taken@.contains(j as usize) ==> keys@[j]
                        <= keys@[b as int]
            },
        decreases keys@.len() - i,
    {
        if keys[i] >= min_key && !contains_index(taken, i) {
            match best {
                Some(b) => {
                    if keys[i] > keys[b] {
                        best = Some(i);
                    }
                },
                None => {
                    best = Some(i);
                },
            }
        }
        i = i + 1;
    }
    best
}

/// Ranks candidates by key: the best qualifying one, then up to `max_alternatives`
/// more, best first. `None` when no key reaches `min_key`. Ties keep input order.
pub fn rank_candidates(keys: &Vec<u64>, min_key: u64, max_alternatives: usize) -> (r: Option<(usize, Vec<usize>)>)
    ensures
        r is None <==> forall|i: int| 0 <= i < keys@.len() ==> keys@[i] < min_key,
        r matches Some((top, alts)) ==> {
            &&& alts@.len() <= max_alternatives
            &&& best_first(keys@, min_key, seq![top].add(alts@))
            &&& forall|i: int| qualifies(keys@, min_key, i) ==> keys@[i] <= keys@[top as int]
            &&& forall|k: int| 0 <= k < alts@.len() ==> keys@[#[trigger] alts@[k] as int] <= keys@[top as int]
            &&& forall|a: int, b: int|
                0 <= a < b < alts@.len() ==> keys@[alts@[a] as int] >= keys@[alts@[b] as int]
            &&& (alts@.len() < max_alternatives ==> forall|i: int|
                qualifies(keys@, min_key, i) && i != top ==> alts@.contains(i as usize))
        },
{
    let n = keys.len();
    let mut chosen: Vec<usize> = Vec::new();
    loop
        invariant_except_break
            chosen@.len() <= max_alternatives + 1,
        invariant
            n == keys@.len(),
            best_first(keys@, min_key, chosen@),
        ensures
            chosen@.len() <= max_alternatives + 1,
            chosen@.len() == max_alternatives + 1 || forall|i: int|
                qualifies(keys@, min_key, i) ==> chosen@.contains(i as usize),
        decreases max_alternatives + 1 - chosen@.len(),
    {
        if chosen.len() > max_alternatives {
            break;
        }
        match pick_best(keys, min_key, &chosen) {
            None => {
                break;
            },
            Some(b) => {
                let ghost before = chosen@;
                chosen.push(b);
                proof {
                    assert(chosen@ == before.push(b));
                    assert forall|k: int| 0 <= k < chosen@.len() implies qualifies(keys@, min_key, #[trigger] chosen@[k] as int) by {
                        if k < before.len() {
                            assert(chosen@[k] == before[k]);
                        }
                    }
                    assert forall|a: int, c: int| 0 <= a < c < chosen@.len() implies chosen@[a] != chosen@[c] by {
                        if c == before.len() {
                            assert(chosen@[a] == before[a]);
                            assert(before.contains(before[a]));
                        }
                    }
                    assert forall|a: int, c: int| 0 <= a < c < chosen@.len() implies keys@[chosen@[a] as int] >= keys@[chosen@[c] as int] by {
                        if c == before.len() {
                            assert(chosen@[a] == before[a]);
                            if before.len() > 0 {
                                assert(keys@[before[a] as int] >= keys@[before.last() as int]);
                            }
                        }
                    }
                    assert forall|i: int| qualifies(keys@, min_key, i) && !chosen@.contains(i as usize) && chosen@.len() > 0 implies keys@[i] <= keys@[chosen@.last() as int] by {
                        if before.contains(i as usize) {
                            let k = choose|k: int| 0 <= k < before.len() && before[k] == i as usize;
                            assert(chosen@[k] == i as usize);
                        }
                    }
                }
            },
        }
    }
    if chosen.len() == 0 {
        assert forall|i: int| 0 <= i < keys@.len() implies keys@[i] < min_key by {
            if keys@[i] >= min_key {
                assert(qualifies(keys@, min_key, i));
            }
        }
        return None;
    }
    let top = chosen[0];
    let mut alts: Vec<usize> = Vec::new();
    let mut k: usize = 1;
    while k < chosen.len()
        invariant
            n == keys@.len(),
            1 <= k <= chosen@.len(),
            alts@ == chosen@.subrange(1, k as int),
        decreases chosen@.len() - k,
    {
        alts.push(chosen[k]);
        k = k + 1;
    }
    proof {
        assert(seq![top].add(alts@) =~= chosen@);
        assert forall|i: int| qualifies(keys@, min_key, i) implies keys@[i] <= keys@[top as int] by {
            assert(i as usize as int == i);
            if chosen@.contains(i as usize) {
                let j = choose|j: int| 0 <= j < chosen@.len() && chosen@[j] == i as usize;
                if j > 0 {
                    assert(keys@[chosen@[0] as int] >= keys@[chosen@[j] as int]);
                } else {
                    assert(i == top as int);
                }
            } else {
                assert(keys@[chosen@[0] as int] >= keys@[chosen@.last() as int]) by {
                    if chosen@.len() > 1 {
                        assert(keys@[chosen@[0] as int] >= keys@[chosen@[chosen@.len() - 1] as int]);
                    }
                }
            }
        }
        assert forall|k2: int| 0 <= k2 < alts@.len() implies keys@[#[trigger] alts@[k2] as int] <= keys@[top as int] by {
            assert(alts@[k2] == chosen@[k2 + 1]);
        }
        assert forall|a: int, b: int| 0 <= a < b < alts@.len() implies keys@[alts@[a] as int] >= keys@[alts@[b] as int] by {
            assert(alts@[a] == chosen@[a + 1]);
            assert(alts@[b] == chosen@[b + 1]);
        }
        if alts@.len() < max_alternatives {
            assert forall|i: int| qualifies(keys@, min_key, i) && i != top implies alts@.contains(i as usize) by {
                assert(i as usize as int == i);
                assert(chosen@.contains(i as usize));
                let j = choose|j: int| 0 <= j < chosen@.len() && chosen@[j] == i as usize;
                assert(j != 0);
                assert(alts@ == chosen@.subrange(1, chosen@.len() as int));
                assert(alts@[j - 1] == chosen@[j]);
                assert(alts@[j - 1] == i as usize);
            }
        }
        assert(!(forall|i: int| 0 <= i < keys@.len() ==> keys@[i] < min_key)) by {
            assert(qualifies(keys@, min_key, top as int));
        }
    }
    Some((top, alts))
}

/// `r` is ordered by ascending key, and positions with equal keys keep their order.
pub open spec fn ascending_stable(keys: Seq<u64>, r: Seq<usize>) -> bool {
    forall|a: int, b: int|
        0 <= a < b < r.len() ==> keys[#[trigger] r[a] as int] < keys[#[trigger] r[b] as int] || (
        keys[r[a] as int] == keys[r[b] as int] && r[a] < r[b])
}

/// `r` holds each position below `n` exactly once.
pub open spec fn positions_below(r: Seq<usize>, n: int) -> bool {
    &&& r.len() == n
    &&& forall|k: int| 0 <= k < r.len() ==> r[k] < n
    &&& forall|j: int| 0 <= j < n ==> #[trigger] r.contains(j as usize)
}

/// The order in which to present items with the given keys: ascending by key, equal
/// keys in input order.
pub fn ascending_order(keys: &Vec<u64>) -> (r: Vec<usize>)
    ensures
        positions_below(r@, keys@.len() as int),
        ascending_stable(keys@, r@),
{
    let n = keys.len();
    let mut r: Vec<usize> = Vec::new();
    let mut i: usize = 0;
    while i < n
        invariant
            n == keys@.len(),
            i <= n,
            positions_below(r@, i as int),
            ascending_stable(keys@, r@),
        decreases n - i,
    {
        let ki = keys[i];
        let mut p: usize = 0;
        while p < r.len() && keys[r[p]] <= ki
            invariant
                n == keys@.len(),
                i < n,
                p <= r@.len(),
                positions_below(r@, i as int),
                forall|k: int| 0 <= k < p ==> keys@[r@[k] as int] <= ki,
            decreases r@.len() - p,
        {
            p = p + 1;
        }
        let ghost before = r@;
        proof {
            before.insert_ensures(p as int, i);
        }
        r.insert(p, i);
        proof {
            assert forall|a: int, b: int| 0 <= a < b < r@.len() implies keys@[r@[a] as int] < keys@[r@[b] as int]
                || (keys@[r@[a] as int] == keys@[r@[b] as int] && r@[a] < r@[b]) by {
                if b < p {
                    assert(r@[a] == before[a] && r@[b] == before[b]);
                } else if b == p {
                    assert(r@[a] == before[a]);
                    assert(before[a] < i);
                } else if a < p {
                    assert(r@[a] == before[a] && r@[b] == before[b - 1]);
                } else if a == p {
                    assert(r@[b] == before[b - 1]);
                    if p < before.len() {
                        assert(keys@[before[p as int] as int] > ki);
                        if b - 1 > p {
                            assert(keys@[before[p as int] as int] <= keys@[before[b - 1] as int]);
                        }
                    }
                } else {
                    assert(r@[a] == before[a - 1] && r@[b] == before[b - 1]);
                }
            }
            assert forall|k: int| 0 <= k < r@.len() implies r@[k] < i + 1 by {
                if k < p {
                    assert(r@[k] == before[k]);
                } else if k > p {
                    assert(r@[k] == before[k - 1]);
                }
            }
            assert forall|j: int| 0 <= j < i + 1 implies #[trigger] r@.contains(j as usize) by {
                if j == i {
                    assert(r@[p as int] == i);
                } else {
                    assert(before.contains(j as usize));
                    let k = choose|k: int| 0 <= k < before.len() && before[k] == j as usize;
                    if k < p {
                        assert(r@[k] == j as usize);
                    } else {
                        assert(r@[k + 1] == j as usize);
                    }
                }
            }
        }
        i = i + 1;
    }
    r
}

} // verus!
