//! Ordering rules by priority: highest priority first, rules of equal
//! priority kept in the order they were given (a stable sort).
use vstd::prelude::*;
use crate::ctypes::{fw_rule, FwRuleView};

verus! {

/// Position of the first entry of `s` whose priority is below `key`
/// (`s.len()` when there is none).
pub open spec fn first_below<T>(s: Seq<(u64, T)>, key: u64) -> int
    decreases s.len(),
{
    if s.len() == 0 {
        0
    } else if s[0].0 < key {
        0
    } else {
        1 + first_below(s.drop_first(), key)
    }
}

/// `x` placed after every entry of `s` whose priority is at least its own.
pub open spec fn insert_by_priority<T>(s: Seq<(u64, T)>, x: (u64, T)) -> Seq<(u64, T)> {
    s.insert(first_below(s, x.0), x)
}

/// `s` ordered by priority, highest first, ties in their original order.
pub open spec fn priority_sort<T>(s: Seq<(u64, T)>) -> Seq<(u64, T)>
    decreases s.len(),
{
    if s.len() == 0 {
        s
    } else {
        insert_by_priority(priority_sort(s.drop_last()), s.last())
    }
}

/// Priorities never increase along `r`.
pub open spec fn sorted_desc<T>(r: Seq<(u64, T)>) -> bool {
    forall|k: int, l: int| 0 <= k < l < r.len() ==> #[trigger] r[k].0 >= #[trigger] r[l].0
}

/// `p` shows that `r` lists the entries of `s` (entry `k` of `r` is entry
/// `p[k]` of `s`, each used once), highest priority first, entries of equal
/// priority in their order in `s`.
pub open spec fn reorders_by_priority<T>(s: Seq<(u64, T)>, r: Seq<(u64, T)>, p: Seq<int>) -> bool {
    &&& p.len() == s.len()
    &&& r.len() == s.len()
    &&& forall|k: int| 0 <= k < p.len() ==> 0 <= #[trigger] p[k] < s.len() && r[k] == s[p[k]]
    &&& forall|k: int, l: int| 0 <= k < l < p.len() ==> #[trigger] p[k] != #[trigger] p[l]
    &&& sorted_desc(r)
    &&& forall|k: int, l: int|
        0 <= k < l < r.len() && #[trigger] r[k].0 == #[trigger] r[l].0 ==> p[k] < p[l]
}

/// `r` is the stable ordering of `s` by descending priority.
pub open spec fn is_priority_order<T>(s: Seq<(u64, T)>, r: Seq<(u64, T)>) -> bool {
    exists|p: Seq<int>| reorders_by_priority(s, r, p)
}

proof fn lemma_first_below<T>(s: Seq<(u64, T)>, key: u64)
    ensures
        0 <= first_below(s, key) <= s.len(),
        forall|k: int| 0 <= k < first_below(s, key) ==> #[trigger] s[k].0 >= key,
        first_below(s, key) < s.len() ==> s[first_below(s, key)].0 < key,
    decreases s.len(),
{
    if s.len() > 0 && s[0].0 >= key {
        lemma_first_below(s.drop_first(), key);
        assert forall|k: int| 0 <= k < first_below(s, key) implies #[trigger] s[k].0 >= key by {
            if k > 0 {
                assert(s[k] == s.drop_first()[k - 1]);
            }
        }
    }
}

/// The priority order of a list is its stable sort by descending priority.
pub proof fn lemma_priority_sort_is_priority_order<T>(s: Seq<(u64, T)>)
    ensures
        is_priority_order(s, priority_sort(s)),
    decreases s.len(),
{
    if s.len() == 0 {
        assert(reorders_by_priority(s, priority_sort(s), Seq::<int>::empty()));
    } else {
        let s0 = s.drop_last();
        let x = s.last();
        let n = s.len() - 1;
        lemma_priority_sort_is_priority_order(s0);
        let r0 = priority_sort(s0);
        let p0 = choose|p: Seq<int>| reorders_by_priority(s0, r0, p);
        let j = first_below(r0, x.0);
        lemma_first_below(r0, x.0);
        let r = r0.insert(j, x);
        let p = p0.insert(j, n);
        assert(r == priority_sort(s));
        assert forall|k: int| 0 <= k < p.len() implies 0 <= #[trigger] p[k] < s.len() && r[k]
            == s[p[k]] by {
            if k < j {
                assert(p[k] == p0[k] && r[k] == r0[k]);
            } else if k > j {
                assert(p[k] == p0[k - 1] && r[k] == r0[k - 1]);
            }
        }
        assert forall|k: int, l: int| 0 <= k < l < p.len() implies #[trigger] p[k]
            != #[trigger] p[l] by {
            if k < j {
                assert(p[k] == p0[k]);
            } else if k > j {
                assert(p[k] == p0[k - 1]);
            }
            if l < j {
                assert(p[l] == p0[l]);
            } else if l > j {
                assert(p[l] == p0[l - 1]);
            }
        }
        assert forall|k: int, l: int| 0 <= k < l < r.len() implies #[trigger] r[k].0
            >= #[trigger] r[l].0 by {
            if k < j {
                assert(r[k] == r0[k]);
            } else if k > j {
                assert(r[k] == r0[k - 1]);
            }
            if l < j {
                assert(r[l] == r0[l]);
            } else if l > j {
                assert(r[l] == r0[l - 1]);
                if k == j && j < r0.len() {
                    assert(r0[j].0 >= r0[l - 1].0 || j == l - 1);
                }
            }
        }
        assert forall|k: int, l: int|
            0 <= k < l < r.len() && #[trigger] r[k].0 == #[trigger] r[l].0 implies p[k]
            < p[l] by {
            if k < j {
                assert(r[k] == r0[k] && p[k] == p0[k]);
            } else if k > j {
                assert(r[k] == r0[k - 1] && p[k] == p0[k - 1]);
            }
            if l < j {
                assert(r[l] == r0[l] && p[l] == p0[l]);
            } else if l > j {
                assert(r[l] == r0[l - 1] && p[l] == p0[l - 1]);
                if k == j {
                    assert(r0[j].0 >= r0[l - 1].0 || j == l - 1);
                }
            }
        }
        assert(reorders_by_priority(s, r, p));
    }
}

proof fn lemma_first_below_at<T>(s: Seq<(u64, T)>, key: u64, j: int)
    requires
        0 <= j <= s.len(),
        forall|k: int| 0 <= k < j ==> #[trigger] s[k].0 >= key,
        j < s.len() ==> s[j].0 < key,
    ensures
        first_below(s, key) == j,
    decreases s.len(),
{
    if s.len() > 0 && j > 0 {
        assert forall|k: int| 0 <= k < j - 1 implies #[trigger] s.drop_first()[k].0 >= key by {
            assert(s.drop_first()[k] == s[k + 1]);
        }
        lemma_first_below_at(s.drop_first(), key, j - 1);
    }
}

/// Entries with each rule replaced by its fields.
pub open spec fn entries_view(s: Seq<(u64, fw_rule)>) -> Seq<(u64, FwRuleView)> {
    s.map_values(|e: (u64, fw_rule)| (e.0, e.1@))
}

proof fn lemma_first_below_view(s: Seq<(u64, fw_rule)>, key: u64)
    ensures
        first_below(entries_view(s), key) == first_below(s, key),
    decreases s.len(),
{
    if s.len() > 0 {
        assert(entries_view(s).drop_first() =~= entries_view(s.drop_first()));
        lemma_first_below_view(s.drop_first(), key);
    }
}

/// Ordering by priority does not depend on the rules' representation.
proof fn lemma_priority_sort_view(s: Seq<(u64, fw_rule)>)
    ensures
        priority_sort(entries_view(s)) == entries_view(priority_sort(s)),
    decreases s.len(),
{
    if s.len() > 0 {
        assert(entries_view(s).drop_last() =~= entries_view(s.drop_last()));
        lemma_priority_sort_view(s.drop_last());
        let r0 = priority_sort(s.drop_last());
        lemma_first_below_view(r0, s.last().0);
        lemma_first_below(r0, s.last().0);
        assert(entries_view(r0).insert(first_below(r0, s.last().0), (s.last().0, s.last().1@))
            =~= entries_view(r0.insert(first_below(r0, s.last().0), s.last())));
    }
}

/// Orders `v` by priority, highest first, keeping the given order among
/// entries of equal priority.
pub fn sort_by_priority(v: &Vec<(u64, fw_rule)>) -> (r: Vec<(u64, fw_rule)>)
    ensures
        r@ == priority_sort(v@),
        entries_view(r@) == priority_sort(entries_view(v@)),
        is_priority_order(v@, r@),
{
    let mut out: Vec<(u64, fw_rule)> = Vec::new();
    let mut i: usize = 0;
    assert(v@.subrange(0, 0) =~= Seq::<(u64, fw_rule)>::empty());
    while i < v.len()
        invariant
            i <= v@.len(),
            out@ == priority_sort(v@.subrange(0, i as int)),
        decreases v@.len() - i,
    {
        let x = v[i];
        let mut j: usize = 0;
        while j < out.len() && out[j].0 >= x.0
            invariant
                j <= out@.len(),
                forall|k: int| 0 <= k < j ==> #[trigger] out@[k].0 >= x.0,
            decreases out@.len() - j,
        {
            j = j + 1;
        }
        proof {
            lemma_first_below_at(out@, x.0, j as int);
            assert(v@.subrange(0, i + 1).drop_last() =~= v@.subrange(0, i as int));
        }
        out.insert(j, x);
        i = i + 1;
    }
    assert(v@.subrange(0, i as int) =~= v@);
    proof {
        lemma_priority_sort_view(v@);
        lemma_priority_sort_is_priority_order(v@);
    }
    out
}

} // verus!
