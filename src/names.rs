//! Node names: prefixes and the order in which detail levels are listed.
use vstd::prelude::*;
use crate::model::ObjectId;

verus! {

/// `a` comes before `b`, or equals it, in lexicographic order of code points.
pub open spec fn name_le(a: Seq<char>, b: Seq<char>) -> bool
    decreases a.len(),
{
    if a.len() == 0 {
        true
    } else if b.len() == 0 {
        false
    } else if (a[0] as int) < (b[0] as int) {
        true
    } else if (a[0] as int) > (b[0] as int) {
        false
    } else {
        name_le(a.drop_first(), b.drop_first())
    }
}

/// `s` begins with `p`.
pub open spec fn has_prefix(s: Seq<char>, p: Seq<char>) -> bool {
    p.len() <= s.len() && s.subrange(0, p.len() as int) == p
}

pub proof fn lemma_name_le_total(a: Seq<char>, b: Seq<char>)
    ensures
        name_le(a, b) || name_le(b, a),
    decreases a.len(),
{
    if a.len() > 0 && b.len() > 0 && a[0] == b[0] {
        lemma_name_le_total(a.drop_first(), b.drop_first());
    }
}

pub proof fn lemma_name_le_trans(a: Seq<char>, b: Seq<char>, c: Seq<char>)
    requires
        name_le(a, b),
        name_le(b, c),
    ensures
        name_le(a, c),
    decreases a.len(),
{
    if a.len() > 0 && b.len() > 0 && c.len() > 0 && a[0] == b[0] && b[0] == c[0] {
        lemma_name_le_trans(a.drop_first(), b.drop_first(), c.drop_first());
    }
}

/// The characters of `s`, one by one.
pub fn chars_of(s: &String) -> (r: Vec<char>)
    ensures
        r@ == s@,
{
    let t = s.as_str();
    let n = t.unicode_len();
    let mut out: Vec<char> = Vec::new();
    let mut i: usize = 0;
    while i < n
        invariant
            n == t@.len(),
            t@ == s@,
            i <= n,
            out@ == s@.subrange(0, i as int),
        decreases n - i,
    {
        out.push(t.get_char(i));
        assert(out@ =~= s@.subrange(0, i + 1));
        i = i + 1;
    }
    assert(out@ =~= s@);
    out
}

/// Whether `a` comes before `b` or equals it.
pub fn chars_le(a: &Vec<char>, b: &Vec<char>) -> (r: bool)
    ensures
        r == name_le(a@, b@),
{
    let mut i: usize = 0;
    assert(a@.subrange(0, a@.len() as int) =~= a@);
    assert(b@.subrange(0, b@.len() as int) =~= b@);
    while i < a.len() && i < b.len() && a[i] == b[i]
        invariant
            i <= a@.len(),
            i <= b@.len(),
            a@.subrange(0, i as int) == b@.subrange(0, i as int),
            name_le(a@, b@) == name_le(a@.subrange(i as int, a@.len() as int), b@.subrange(i as int, b@.len() as int)),
        decreases a@.len() - i,
    {
        proof {
            let sa = a@.subrange(i as int, a@.len() as int);
            let sb = b@.subrange(i as int, b@.len() as int);
            assert(sa.drop_first() =~= a@.subrange(i + 1, a@.len() as int));
            assert(sb.drop_first() =~= b@.subrange(i + 1, b@.len() as int));
            assert(a@.subrange(0, i + 1) =~= a@.subrange(0, i as int).push(a@[i as int]));
            assert(b@.subrange(0, i + 1) =~= b@.subrange(0, i as int).push(b@[i as int]));
        }
        i = i + 1;
    }
    proof {
        let sa = a@.subrange(i as int, a@.len() as int);
        let sb = b@.subrange(i as int, b@.len() as int);
        if i < a@.len() && i < b@.len() {
            assert(sa[0] == a@[i as int] && sb[0] == b@[i as int]);
        }
    }
    if i == a.len() {
        true
    } else if i == b.len() {
        false
    } else {
        a[i] < b[i]
    }
}

/// Whether `s` begins with `p`.
pub fn starts_with(s: &Vec<char>, p: &Vec<char>) -> (r: bool)
    ensures
        r == has_prefix(s@, p@),
{
    if p.len() > s.len() {
        return false;
    }
    let mut i: usize = 0;
    while i < p.len()
        invariant
            p@.len() <= s@.len(),
            i <= p@.len(),
            forall|k: int| 0 <= k < i ==> s@[k] == p@[k],
        decreases p@.len() - i,
    {
        if s[i] != p[i] {
            assert(s@.subrange(0, p@.len() as int)[i as int] != p@[i as int]);
            return false;
        }
        i = i + 1;
    }
    assert(s@.subrange(0, p@.len() as int) =~= p@);
    true
}

/// `v` is in non-decreasing order of names.
pub open spec fn sorted_by_name(v: Seq<(Vec<char>, ObjectId)>) -> bool {
    forall|i: int, j: int| 0 <= i < j < v.len() ==> name_le((#[trigger] v[i]).0@, (#[trigger] v[j]).0@)
}

/// The ids of `v` increase strictly.
pub open spec fn ids_increasing(v: Seq<(Vec<char>, ObjectId)>) -> bool {
    forall|i: int, j: int| 0 <= i < j < v.len() ==> (#[trigger] v[i]).1.0 < (#[trigger] v[j]).1.0
}

/// Entries of `v` with equal names appear in increasing order of id.
pub open spec fn equal_names_keep_order(v: Seq<(Vec<char>, ObjectId)>) -> bool {
    forall|i: int, j: int| 0 <= i < j < v.len() && (#[trigger] v[i]).0@ == (#[trigger] v[j]).0@ ==> v[i].1.0 < v[j].1.0
}

/// No two entries of `v` share an id.
pub open spec fn ids_distinct(v: Seq<(Vec<char>, ObjectId)>) -> bool {
    forall|i: int, j: int| 0 <= i < v.len() && 0 <= j < v.len() && i != j ==> (#[trigger] v[i]).1 != (#[trigger] v[j]).1
}

pub proof fn lemma_name_le_refl(a: Seq<char>)
    ensures
        name_le(a, a),
    decreases a.len(),
{
    if a.len() > 0 {
        lemma_name_le_refl(a.drop_first());
    }
}

/// Sorts by name, ascending; entries given in increasing order of id keep that
/// order among equal names.
pub fn sort_by_name(v: Vec<(Vec<char>, ObjectId)>) -> (r: Vec<(Vec<char>, ObjectId)>)
    requires
        ids_increasing(v@),
    ensures
        sorted_by_name(r@),
        equal_names_keep_order(r@),
        ids_distinct(r@),
        r@.len() == v@.len(),
        r@.to_multiset() == v@.to_multiset(),
{
    let mut rest = v;
    let mut out: Vec<(Vec<char>, ObjectId)> = Vec::new();
    let ghost orig = rest@;
    proof {
        broadcast use vstd::multiset::group_multiset_axioms;
        vstd::seq_lib::to_multiset_len(out@);
        assert(out@.to_multiset() =~= vstd::multiset::Multiset::empty());
    }
    while rest.len() > 0
        invariant
            sorted_by_name(out@),
            equal_names_keep_order(out@),
            ids_distinct(out@),
            ids_increasing(rest@),
            forall|a: int, b: int| 0 <= a < out@.len() && 0 <= b < rest@.len() ==> (#[trigger] out@[a]).1.0 < (#[trigger] rest@[b]).1.0,
            out@.len() + rest@.len() == orig.len(),
            out@.to_multiset().add(rest@.to_multiset()) == orig.to_multiset(),
        decreases rest@.len(),
    {
        let ghost rest_before = rest@;
        let item = rest.remove(0);
        proof {
            vstd::seq_lib::to_multiset_remove(rest_before, 0);
            assert(rest_before[0] == item);
            assert forall|b: int| 0 <= b < rest@.len() implies item.1.0 < (#[trigger] rest@[b]).1.0 by {
                assert(rest@[b] == rest_before[b + 1]);
            }
            assert forall|a: int| 0 <= a < out@.len() implies (#[trigger] out@[a]).1.0 < item.1.0 by {
                assert(out@[a].1.0 < rest_before[0].1.0);
            }
            assert forall|a: int, b: int| 0 <= a < b < rest@.len() implies (#[trigger] rest@[a]).1.0 < (#[trigger] rest@[b]).1.0 by {
                assert(rest@[a] == rest_before[a + 1] && rest@[b] == rest_before[b + 1]);
            }
        }
        let mut k: usize = 0;
        while k < out.len() && chars_le(&out[k].0, &item.0)
            invariant
                k <= out@.len(),
                forall|m: int| 0 <= m < k ==> name_le((#[trigger] out@[m]).0@, item.0@),
            decreases out@.len() - k,
        {
            k = k + 1;
        }
        proof {
            if k < out@.len() {
                lemma_name_le_total(out@[k as int].0@, item.0@);
                assert(name_le(item.0@, out@[k as int].0@));
                assert forall|m: int| k <= m < out@.len() implies name_le(item.0@, (#[trigger] out@[m]).0@) by {
                    if m > k {
                        lemma_name_le_trans(item.0@, out@[k as int].0@, out@[m].0@);
                    }
                }
            }
        }
        let ghost before = out@;
        out.insert(k, item);
        proof {
            assert forall|i: int, j: int| 0 <= i < j < out@.len() implies name_le((#[trigger] out@[i]).0@, (#[trigger] out@[j]).0@) by {
                if i < k && j < k {
                    assert(out@[i] == before[i] && out@[j] == before[j]);
                } else if i < k && j == k {
                    assert(out@[i] == before[i]);
                } else if i < k {
                    assert(out@[i] == before[i] && out@[j] == before[j - 1]);
                    if (j - 1) < before.len() {
                        lemma_name_le_trans(before[i].0@, item.0@, before[j - 1].0@);
                    }
                } else if i == k {
                    assert(out@[j] == before[j - 1]);
                } else {
                    assert(out@[i] == before[i - 1] && out@[j] == before[j - 1]);
                }
            }
            assert forall|i: int, j: int| 0 <= i < j < out@.len() && (#[trigger] out@[i]).0@ == (#[trigger] out@[j]).0@ implies out@[i].1.0
                < out@[j].1.0 by {
                if i < k && j < k {
                    assert(out@[i] == before[i] && out@[j] == before[j]);
                } else if i < k && j == k {
                    assert(out@[i] == before[i]);
                } else if i < k {
                    assert(out@[i] == before[i] && out@[j] == before[j - 1]);
                } else if i == k {
                    assert(out@[j] == before[j - 1]);
                    assert(!name_le(before[k as int].0@, item.0@));
                    if j - 1 == k {
                        lemma_name_le_refl(item.0@);
                    } else {
                        assert(name_le(before[k as int].0@, before[j - 1].0@));
                    }
                } else {
                    assert(out@[i] == before[i - 1] && out@[j] == before[j - 1]);
                }
            }
            assert forall|i: int, j: int| 0 <= i < out@.len() && 0 <= j < out@.len() && i != j implies (#[trigger] out@[i]).1 != (
            #[trigger] out@[j]).1 by {
                if i != k && j != k {
                    let bi = if i < k { i } else { i - 1 };
                    let bj = if j < k { j } else { j - 1 };
                    assert(out@[i] == before[bi] && out@[j] == before[bj]);
                } else if i == k {
                    let bj = if j < k { j } else { j - 1 };
                    assert(out@[j] == before[bj]);
                } else {
                    let bi = if i < k { i } else { i - 1 };
                    assert(out@[i] == before[bi]);
                }
            }
            assert forall|a: int, b: int| 0 <= a < out@.len() && 0 <= b < rest@.len() implies (#[trigger] out@[a]).1.0 < (
            #[trigger] rest@[b]).1.0 by {
                if a != k {
                    let ba = if a < k { a } else { a - 1 };
                    assert(out@[a] == before[ba]);
                }
            }
            assert(out@ =~= before.insert(k as int, item));
            vstd::seq_lib::to_multiset_insert(before, k as int, item);
            assert(rest@ == rest_before.remove(0));
            vstd::seq_lib::to_multiset_contains(rest_before, item);
            assert(rest_before.contains(item)) by {
                assert(rest_before[0] == item);
            }
            assert(out@.to_multiset().add(rest@.to_multiset()) =~= orig.to_multiset()) by {
                broadcast use vstd::multiset::group_multiset_axioms;
            }
        }
    }
    proof {
        broadcast use vstd::multiset::group_multiset_axioms;
        vstd::seq_lib::to_multiset_len(rest@);
        assert(rest@.to_multiset() =~= vstd::multiset::Multiset::empty());
        assert(out@.to_multiset() =~= out@.to_multiset().add(rest@.to_multiset()));
    }
    out
}

} // verus!
