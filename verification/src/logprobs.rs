//! Shared machinery for log-probability tables: token/log-probability pairs
//! collapsed to one entry per token text and ordered ascending by
//! log-probability (on binary32 bit patterns, see `ordbits`).

use vstd::prelude::*;
use crate::ordbits::bits32_le;
use crate::ordbits::le_bits32;

verus! {

/// The views of a sequence of token/log-probability pairs.
pub open spec fn lp_views(s: Seq<(String, u32)>) -> Seq<(Seq<char>, u32)> {
    s.map_values(|p: (String, u32)| (p.0@, p.1))
}

/// Whether the pairs are ordered ascending by log-probability.
pub open spec fn lp_sorted(s: Seq<(Seq<char>, u32)>) -> bool {
    forall|i: int, j: int| 0 <= i < j < s.len() ==> bits32_le(s[i].1, s[j].1)
}

/// Whether no token text occurs twice.
pub open spec fn lp_keys_distinct(s: Seq<(Seq<char>, u32)>) -> bool {
    forall|i: int, j: int| 0 <= i < j < s.len() ==> s[i].0 != s[j].0
}

/// Whether some pair carries the token text `k`.
pub open spec fn lp_has_key(s: Seq<(Seq<char>, u32)>, k: Seq<char>) -> bool {
    exists|i: int| 0 <= i < s.len() && s[i].0 == k
}

/// Whether the exact pair occurs.
pub open spec fn lp_has_pair(s: Seq<(Seq<char>, u32)>, p: (Seq<char>, u32)) -> bool {
    exists|i: int| 0 <= i < s.len() && s[i] == p
}

/// The log-probability of the last pair carrying `k` (zero when none does).
pub open spec fn lp_last_val(s: Seq<(Seq<char>, u32)>, k: Seq<char>) -> u32
    decreases s.len(),
{
    if s.len() == 0 {
        0
    } else if s.last().0 == k {
        s.last().1
    } else {
        lp_last_val(s.drop_last(), k)
    }
}

/// The result of collapsing `ps` with the *last* written value winning per
/// token text, ordered ascending by log-probability: one entry per text of
/// `ps`, carrying the text's last log-probability.
pub open spec fn collapsed_last_ok(ps: Seq<(Seq<char>, u32)>, r: Seq<(Seq<char>, u32)>) -> bool {
    &&& lp_sorted(r)
    &&& lp_keys_distinct(r)
    &&& r.len() <= ps.len()
    &&& forall|i: int|
        0 <= i < r.len() ==> lp_has_key(ps, #[trigger] r[i].0) && r[i].1 == lp_last_val(ps, r[i].0)
    &&& forall|j: int| 0 <= j < ps.len() ==> lp_has_key(r, #[trigger] ps[j].0)
}

/// The result of collapsing `ps` with the *greatest* log-probability winning
/// per token text, ordered ascending: one entry per text of `ps`, each an
/// actual pair of `ps` at least as probable as every other pair of its text.
pub open spec fn collapsed_max_ok(ps: Seq<(Seq<char>, u32)>, r: Seq<(Seq<char>, u32)>) -> bool {
    &&& lp_sorted(r)
    &&& lp_keys_distinct(r)
    &&& r.len() <= ps.len()
    &&& forall|i: int| 0 <= i < r.len() ==> lp_has_pair(ps, #[trigger] r[i])
    &&& forall|i: int, j: int|
        0 <= i < r.len() && 0 <= j < ps.len() && r[i].0 == ps[j].0 ==> bits32_le(ps[j].1, r[i].1)
    &&& forall|j: int| 0 <= j < ps.len() ==> lp_has_key(r, #[trigger] ps[j].0)
}

proof fn lemma_last_val_push(s: Seq<(Seq<char>, u32)>, p: (Seq<char>, u32), k: Seq<char>)
    ensures
        p.0 == k ==> lp_last_val(s.push(p), k) == p.1,
        p.0 != k ==> lp_last_val(s.push(p), k) == lp_last_val(s, k),
{
    assert(s.push(p).last() == p);
    assert(s.push(p).drop_last() =~= s);
}

/// Finds the entry carrying the given token text.
fn find_key(out: &Vec<(String, u32)>, k: &String) -> (r: Option<usize>)
    ensures
        match r {
            Some(i) => i < out@.len() && lp_views(out@)[i as int].0 == k@,
            None => !lp_has_key(lp_views(out@), k@),
        },
{
    let mut i: usize = 0;
    while i < out.len()
        invariant
            0 <= i <= out@.len(),
            forall|j: int| 0 <= j < i ==> lp_views(out@)[j].0 != k@,
        decreases out@.len() - i,
    {
        if out[i].0 == *k {
            return Some(i);
        }
        i = i + 1;
    }
    None
}

/// The position before which everything ranks at most `val`.
fn insert_pos(out: &Vec<(String, u32)>, val: u32) -> (p: usize)
    ensures
        p <= out@.len(),
        forall|j: int| 0 <= j < p ==> bits32_le(#[trigger] lp_views(out@)[j].1, val),
        p < out@.len() ==> !bits32_le(lp_views(out@)[p as int].1, val),
{
    let mut p: usize = 0;
    while p < out.len()
        invariant
            0 <= p <= out@.len(),
            forall|j: int| 0 <= j < p ==> bits32_le(#[trigger] lp_views(out@)[j].1, val),
        decreases out@.len() - p,
    {
        if !le_bits32(out[p].1, val) {
            return p;
        }
        p = p + 1;
    }
    p
}

/// Inserts a pair whose token text is fresh, keeping the ascending order.
fn insert_sorted(out: &mut Vec<(String, u32)>, key: String, val: u32)
    requires
        lp_sorted(lp_views(old(out)@)),
        lp_keys_distinct(lp_views(old(out)@)),
        !lp_has_key(lp_views(old(out)@), key@),
    ensures
        final (out)@.len() == old(out)@.len() + 1,
        lp_sorted(lp_views(final (out)@)),
        lp_keys_distinct(lp_views(final (out)@)),
        forall|i: int|
            0 <= i < final (out)@.len() ==> (#[trigger] lp_views(final (out)@)[i] == (key@, val)
                || lp_has_pair(lp_views(old(out)@), lp_views(final (out)@)[i])),
        forall|x: Seq<char>|
            #[trigger] lp_has_key(lp_views(final (out)@), x) <==> (x == key@ || lp_has_key(
                lp_views(old(out)@),
                x,
            )),
{
    let ghost old_views = lp_views(out@);
    let p = insert_pos(out, val);
    let ghost pos = p as int;
    out.insert(p, (key, val));
    proof {
        let nv = lp_views(out@);
        assert(nv =~= old_views.insert(pos, (key@, val)));
        assert(nv[pos] == (key@, val));
        assert forall|i: int| 0 <= i < nv.len() implies (#[trigger] nv[i] == (key@, val)
            || lp_has_pair(old_views, nv[i])) by {
            if i < pos {
                assert(nv[i] == old_views[i]);
            } else if i > pos {
                assert(nv[i] == old_views[i - 1]);
            }
        }
        assert forall|i: int, j: int| 0 <= i < j < nv.len() implies bits32_le(
            nv[i].1,
            nv[j].1,
        ) by {
            if i < pos && j < pos {
                assert(nv[i] == old_views[i] && nv[j] == old_views[j]);
            } else if i < pos && j == pos {
                assert(nv[i] == old_views[i]);
                assert(bits32_le(old_views[i].1, val));
            } else if i < pos && j > pos {
                assert(nv[i] == old_views[i] && nv[j] == old_views[j - 1]);
            } else if i == pos && j > pos {
                assert(nv[j] == old_views[j - 1]);
                assert(j - 1 >= pos);
                if pos < old_views.len() {
                    assert(!bits32_le(old_views[pos].1, val));
                    assert(bits32_le(old_views[pos].1, old_views[j - 1].1));
                    assert(bits32_le(val, nv[j].1));
                }
            } else {
                assert(nv[i] == old_views[i - 1] && nv[j] == old_views[j - 1]);
            }
        }
        assert forall|i: int, j: int| 0 <= i < j < nv.len() implies nv[i].0 != nv[j].0 by {
            if i != pos && j != pos {
                let i0 = if i < pos {
                    i
                } else {
                    i - 1
                };
                let j0 = if j < pos {
                    j
                } else {
                    j - 1
                };
                assert(nv[i] == old_views[i0] && nv[j] == old_views[j0]);
            } else if i == pos {
                assert(nv[j] == old_views[j - 1]);
                assert(lp_has_key(old_views, old_views[j - 1].0));
            } else {
                assert(nv[i] == old_views[i]);
                assert(lp_has_key(old_views, old_views[i].0));
            }
        }
        assert forall|x: Seq<char>| #[trigger]
            lp_has_key(nv, x) <==> (x == key@ || lp_has_key(old_views, x)) by {
            if lp_has_key(nv, x) {
                let i = choose|i: int| 0 <= i < nv.len() && nv[i].0 == x;
                if i < pos {
                    assert(old_views[i].0 == x);
                } else if i > pos {
                    assert(old_views[i - 1].0 == x);
                }
            }
            if x == key@ {
                assert(nv[pos].0 == x);
            }
            if lp_has_key(old_views, x) {
                let i = choose|i: int| 0 <= i < old_views.len() && old_views[i].0 == x;
                if i < pos {
                    assert(nv[i].0 == x);
                } else {
                    assert(nv[i + 1].0 == x);
                }
            }
        }
    }
}

proof fn lemma_remove_keeps(s: Seq<(Seq<char>, u32)>, idx: int)
    requires
        0 <= idx < s.len(),
        lp_sorted(s),
        lp_keys_distinct(s),
    ensures
        lp_sorted(s.remove(idx)),
        lp_keys_distinct(s.remove(idx)),
        forall|x: Seq<char>| #[trigger] lp_has_key(s.remove(idx), x) ==> lp_has_key(s, x),
        forall|x: Seq<char>|
            lp_has_key(s, x) && x != s[idx].0 ==> #[trigger] lp_has_key(s.remove(idx), x),
        forall|i: int| 0 <= i < s.remove(idx).len() ==> lp_has_pair(s, #[trigger] s.remove(idx)[i]),
        !lp_has_key(s.remove(idx), s[idx].0),
{
    let t = s.remove(idx);
    assert forall|i: int| 0 <= i < t.len() implies lp_has_pair(s, #[trigger] t[i]) by {
        if i < idx {
            assert(t[i] == s[i]);
        } else {
            assert(t[i] == s[i + 1]);
        }
    }
    assert forall|x: Seq<char>| lp_has_key(s, x) && x != s[idx].0 implies #[trigger] lp_has_key(
        t,
        x,
    ) by {
        let i = choose|i: int| 0 <= i < s.len() && s[i].0 == x;
        if i < idx {
            assert(t[i].0 == x);
        } else {
            assert(t[i - 1].0 == x);
        }
    }
    assert forall|x: Seq<char>| #[trigger] lp_has_key(t, x) implies lp_has_key(s, x) by {
        let i = choose|i: int| 0 <= i < t.len() && t[i].0 == x;
        if i < idx {
            assert(s[i].0 == x);
        } else {
            assert(s[i + 1].0 == x);
        }
    }
    assert forall|i: int, j: int| 0 <= i < j < t.len() implies t[i].0 != t[j].0 && bits32_le(
        t[i].1,
        t[j].1,
    ) by {
        let i0 = if i < idx {
            i
        } else {
            i + 1
        };
        let j0 = if j < idx {
            j
        } else {
            j + 1
        };
        assert(t[i] == s[i0] && t[j] == s[j0]);
    }
    if lp_has_key(t, s[idx].0) {
        let i = choose|i: int| 0 <= i < t.len() && t[i].0 == s[idx].0;
        if i < idx {
            assert(s[i].0 == s[idx].0);
        } else {
            assert(s[i + 1].0 == s[idx].0);
        }
        assert(false);
    }
}

/// Collapses the pairs to one entry per token text, the last written
/// log-probability winning, ordered ascending by log-probability.
pub fn collapse_last(pairs: &Vec<(String, u32)>) -> (r: Vec<(String, u32)>)
    ensures
        collapsed_last_ok(lp_views(pairs@), lp_views(r@)),
{
    let ghost ps = lp_views(pairs@);
    let mut out: Vec<(String, u32)> = Vec::new();
    let mut n: usize = 0;
    proof {
        assert(ps.take(0) =~= Seq::<(Seq<char>, u32)>::empty());
    }
    while n < pairs.len()
        invariant
            0 <= n <= pairs@.len(),
            ps == lp_views(pairs@),
            lp_sorted(lp_views(out@)),
            lp_keys_distinct(lp_views(out@)),
            out@.len() <= n,
            forall|i: int|
                0 <= i < out@.len() ==> lp_has_key(
                    ps.take(n as int),
                    #[trigger] lp_views(out@)[i].0,
                ) && lp_views(out@)[i].1 == lp_last_val(ps.take(n as int), lp_views(out@)[i].0),
            forall|j: int|
                0 <= j < n ==> lp_has_key(lp_views(out@), #[trigger] ps.take(n as int)[j].0),
        decreases pairs@.len() - n,
    {
        let key = pairs[n].0.clone();
        let val = pairs[n].1;
        let ghost prefix = ps.take(n as int);
        let ghost prefix1 = ps.take(n + 1);
        let ghost before = lp_views(out@);
        proof {
            assert(prefix1.drop_last() =~= prefix);
            assert(ps[n as int] == (key@, val));
            assert(prefix1.last() == (key@, val));
            assert forall|j: int| 0 <= j < n implies #[trigger] prefix1[j] == prefix[j] by {}
        }
        match find_key(&out, &key) {
            Some(idx) => {
                proof {
                    lemma_remove_keeps(before, idx as int);
                    assert(before[idx as int].0 == key@);
                }
                out.remove(idx);
                proof {
                    assert(lp_views(out@) =~= before.remove(idx as int));
                }
                insert_sorted(&mut out, key, val);
            },
            None => {
                insert_sorted(&mut out, key, val);
            },
        }
        proof {
            let ov = lp_views(out@);
            // Every entry is either the new pair or an old entry whose key is
            // not the new key; transport the invariant to the longer prefix.
            assert forall|i: int| 0 <= i < ov.len() implies lp_has_key(prefix1, #[trigger] ov[i].0)
                && ov[i].1 == lp_last_val(prefix1, ov[i].0) by {
                lemma_last_val_push(prefix, (key@, val), ov[i].0);
                if ov[i] == (key@, val) {
                    assert(prefix1[n as int].0 == key@);
                } else {
                    assert(lp_has_pair(before, ov[i]));
                    let w = choose|w: int| 0 <= w < before.len() && before[w] == ov[i];
                    assert(lp_has_key(prefix, ov[i].0));
                    assert(ov[i].0 != key@);
                }
            }
            assert forall|j: int| 0 <= j < n + 1 implies lp_has_key(
                ov,
                #[trigger] prefix1[j].0,
            ) by {
                if j < n {
                    assert(lp_has_key(before, prefix[j].0));
                }
            }
        }
        n = n + 1;
    }
    proof {
        assert(ps.take(n as int) =~= ps);
    }
    out
}

/// Collapses the pairs to one entry per token text, the greatest
/// log-probability winning, ordered ascending by log-probability.
pub fn collapse_max(pairs: &Vec<(String, u32)>) -> (r: Vec<(String, u32)>)
    ensures
        collapsed_max_ok(lp_views(pairs@), lp_views(r@)),
{
    let ghost ps = lp_views(pairs@);
    let mut out: Vec<(String, u32)> = Vec::new();
    let mut n: usize = 0;
    proof {
        assert(ps.take(0) =~= Seq::<(Seq<char>, u32)>::empty());
    }
    while n < pairs.len()
        invariant
            0 <= n <= pairs@.len(),
            ps == lp_views(pairs@),
            lp_sorted(lp_views(out@)),
            lp_keys_distinct(lp_views(out@)),
            out@.len() <= n,
            forall|i: int|
                0 <= i < out@.len() ==> lp_has_pair(
                    ps.take(n as int),
                    #[trigger] lp_views(out@)[i],
                ),
            forall|i: int, j: int|
                0 <= i < out@.len() && 0 <= j < n && lp_views(out@)[i].0 == ps.take(n as int)[j].0
                    ==> bits32_le(ps.take(n as int)[j].1, lp_views(out@)[i].1),
            forall|j: int|
                0 <= j < n ==> lp_has_key(lp_views(out@), #[trigger] ps.take(n as int)[j].0),
        decreases pairs@.len() - n,
    {
        let key = pairs[n].0.clone();
        let val = pairs[n].1;
        let ghost prefix = ps.take(n as int);
        let ghost prefix1 = ps.take(n + 1);
        let ghost before = lp_views(out@);
        proof {
            assert(prefix1.drop_last() =~= prefix);
            assert(ps[n as int] == (key@, val));
            assert(prefix1.last() == (key@, val));
            assert forall|j: int| 0 <= j < n implies #[trigger] prefix1[j] == prefix[j] by {}
        }
        match find_key(&out, &key) {
            Some(idx) => {
                let existing = out[idx].1;
                if le_bits32(existing, val) {
                    proof {
                        lemma_remove_keeps(before, idx as int);
                        assert(before[idx as int].0 == key@);
                    }
                    out.remove(idx);
                    proof {
                        assert(lp_views(out@) =~= before.remove(idx as int));
                    }
                    insert_sorted(&mut out, key, val);
                    proof {
                        let ov = lp_views(out@);
                        assert forall|i: int| 0 <= i < ov.len() implies lp_has_pair(
                            prefix1,
                            #[trigger] ov[i],
                        ) by {
                            if ov[i] == (key@, val) {
                                assert(prefix1[n as int] == ov[i]);
                            } else {
                                let w = choose|w: int|
                                    0 <= w < prefix.len() && prefix[w] == ov[i];
                                assert(prefix1[w] == ov[i]);
                            }
                        }
                        assert forall|i: int, j: int|
                            0 <= i < ov.len() && 0 <= j < n + 1 && ov[i].0
                                == prefix1[j].0 implies bits32_le(prefix1[j].1, ov[i].1) by {
                            if ov[i] == (key@, val) {
                                if j < n {
                                    // The displaced entry dominated this
                                    // occurrence, and the new value dominates
                                    // the displaced entry.
                                    assert(bits32_le(prefix[j].1, before[idx as int].1));
                                    assert(bits32_le(before[idx as int].1, val));
                                }
                            } else {
                                assert(ov[i].0 != key@);
                                assert(j < n);
                                assert(lp_has_pair(before.remove(idx as int), ov[i]));
                                let w = choose|w: int|
                                    0 <= w < before.len() && before[w] == ov[i];
                            }
                        }
                        assert forall|j: int| 0 <= j < n + 1 implies lp_has_key(
                            ov,
                            #[trigger] prefix1[j].0,
                        ) by {
                            if j < n {
                                assert(lp_has_key(before, prefix[j].0));
                            }
                        }
                    }
                } else {
                    proof {
                        let ov = lp_views(out@);
                        assert(ov == before);
                        assert(bits32_le(val, before[idx as int].1));
                        assert forall|i: int| 0 <= i < ov.len() implies lp_has_pair(
                            prefix1,
                            #[trigger] ov[i],
                        ) by {
                            let w = choose|w: int| 0 <= w < prefix.len() && prefix[w] == ov[i];
                            assert(prefix1[w] == ov[i]);
                        }
                        assert forall|i: int, j: int|
                            0 <= i < ov.len() && 0 <= j < n + 1 && ov[i].0
                                == prefix1[j].0 implies bits32_le(prefix1[j].1, ov[i].1) by {
                            if j == n {
                                assert(lp_keys_distinct(ov));
                            }
                        }
                        assert forall|j: int| 0 <= j < n + 1 implies lp_has_key(
                            ov,
                            #[trigger] prefix1[j].0,
                        ) by {
                            if j == n {
                                assert(ov[idx as int].0 == key@);
                            }
                        }
                    }
                }
            },
            None => {
                insert_sorted(&mut out, key, val);
                proof {
                    let ov = lp_views(out@);
                    assert forall|i: int| 0 <= i < ov.len() implies lp_has_pair(
                        prefix1,
                        #[trigger] ov[i],
                    ) by {
                        if ov[i] == (key@, val) {
                            assert(prefix1[n as int] == ov[i]);
                        } else {
                            let w = choose|w: int| 0 <= w < prefix.len() && prefix[w] == ov[i];
                            assert(prefix1[w] == ov[i]);
                        }
                    }
                    assert forall|i: int, j: int|
                        0 <= i < ov.len() && 0 <= j < n + 1 && ov[i].0
                            == prefix1[j].0 implies bits32_le(prefix1[j].1, ov[i].1) by {
                        if ov[i] == (key@, val) {
                            if j < n {
                                assert(lp_has_key(before, prefix[j].0));
                                assert(false);
                            }
                        } else {
                            assert(ov[i].0 != key@);
                            assert(j < n);
                        }
                    }
                    assert forall|j: int| 0 <= j < n + 1 implies lp_has_key(
                        ov,
                        #[trigger] prefix1[j].0,
                    ) by {
                        if j < n {
                            assert(lp_has_key(before, prefix[j].0));
                        }
                    }
                }
            },
        }
        n = n + 1;
    }
    proof {
        assert(ps.take(n as int) =~= ps);
    }
    out
}

} // verus!
