//! String helpers the pipeline needs: locating the last `.` of a token,
//! equality and lexicographic order on strings, and sorting a list of
//! names.

use vstd::prelude::*;
use vstd::string::StrSliceExecFns;
use vstd::multiset::Multiset;

verus! {

/// The index of the last `.` in a string, if any.
pub open spec fn last_dot(s: Seq<char>) -> Option<int>
    decreases s.len(),
{
    if s.len() == 0 {
        None
    } else if s[s.len() - 1] == '.' {
        Some(s.len() - 1)
    } else {
        last_dot(s.drop_last())
    }
}

/// Find the last `.` of a string, scanning from the end.
pub fn find_last_dot(s: &str) -> (r: Option<usize>)
    ensures
        r is Some <==> last_dot(s@) is Some,
        r is Some ==> r->0 == last_dot(s@)->0 && r->0 < s@.len(),
{
    let n = s.unicode_len();
    let mut i = n;
    proof {
        assert(s@.take(n as int) =~= s@);
    }
    while i > 0
        invariant
            i <= n,
            n == s@.len(),
            last_dot(s@) == last_dot(s@.take(i as int)),
        decreases i,
    {
        let c = s.get_char(i - 1);
        proof {
            assert(s@.take(i as int).drop_last() =~= s@.take(i as int - 1));
            assert(s@.take(i as int).last() == s@[i as int - 1]);
        }
        if c == '.' {
            return Some(i - 1);
        }
        i = i - 1;
    }
    None
}

/// Whether two strings hold the same characters.
pub fn str_eq(a: &str, b: &str) -> (r: bool)
    ensures
        r == (a@ == b@),
{
    let alen = a.unicode_len();
    let blen = b.unicode_len();
    if alen != blen {
        return false;
    }
    let mut i: usize = 0;
    while i < alen
        invariant
            i <= alen,
            alen == a@.len(),
            alen == b@.len(),
            forall|k: int| 0 <= k < i ==> a@[k] == b@[k],
        decreases alen - i,
    {
        if a.get_char(i) != b.get_char(i) {
            return false;
        }
        i = i + 1;
    }
    proof {
        assert(a@ =~= b@);
    }
    true
}

/// Lexicographic order on strings, by character code point.
pub open spec fn str_le(a: Seq<char>, b: Seq<char>) -> bool
    decreases a.len(),
{
    if a.len() == 0 {
        true
    } else if b.len() == 0 {
        false
    } else if (a[0] as u32) == (b[0] as u32) {
        str_le(a.skip(1), b.skip(1))
    } else {
        (a[0] as u32) < (b[0] as u32)
    }
}

/// The order is total: of any two strings, one comes no later than the
/// other.
pub proof fn lemma_str_le_total(a: Seq<char>, b: Seq<char>)
    ensures
        str_le(a, b) || str_le(b, a),
    decreases a.len(),
{
    if a.len() > 0 && b.len() > 0 && (a[0] as u32) == (b[0] as u32) {
        lemma_str_le_total(a.skip(1), b.skip(1));
    }
}

/// The order is reflexive.
pub proof fn lemma_str_le_refl(a: Seq<char>)
    ensures
        str_le(a, a),
    decreases a.len(),
{
    if a.len() > 0 {
        lemma_str_le_refl(a.skip(1));
    }
}

/// The order is transitive.
pub proof fn lemma_str_le_trans(a: Seq<char>, b: Seq<char>, c: Seq<char>)
    requires
        str_le(a, b),
        str_le(b, c),
    ensures
        str_le(a, c),
    decreases a.len(),
{
    if a.len() > 0 && b.len() > 0 && c.len() > 0 && (a[0] as u32) == (b[0] as u32) && (b[0] as u32)
        == (c[0] as u32) {
        lemma_str_le_trans(a.skip(1), b.skip(1), c.skip(1));
    }
}

/// Compare two strings in lexicographic order.
pub fn str_le_exec(a: &str, b: &str) -> (r: bool)
    ensures
        r == str_le(a@, b@),
{
    let alen = a.unicode_len();
    let blen = b.unicode_len();
    let mut i: usize = 0;
    proof {
        assert(a@.skip(0) =~= a@);
        assert(b@.skip(0) =~= b@);
    }
    while i < alen && i < blen
        invariant
            i <= alen,
            i <= blen,
            alen == a@.len(),
            blen == b@.len(),
            str_le(a@, b@) == str_le(a@.skip(i as int), b@.skip(i as int)),
            str_le(b@, a@) == str_le(b@.skip(i as int), a@.skip(i as int)),
        decreases alen - i,
    {
        let ca = a.get_char(i);
        let cb = b.get_char(i);
        proof {
            assert(a@.skip(i as int)[0] == a@[i as int]);
            assert(b@.skip(i as int)[0] == b@[i as int]);
            assert(a@.skip(i as int).skip(1) =~= a@.skip(i as int + 1));
            assert(b@.skip(i as int).skip(1) =~= b@.skip(i as int + 1));
        }
        if (ca as u32) != (cb as u32) {
            return (ca as u32) < (cb as u32);
        }
        i = i + 1;
    }
    proof {
        if i >= alen {
            assert(a@.skip(i as int) =~= Seq::<char>::empty());
        } else {
            assert(b@.skip(i as int) =~= Seq::<char>::empty());
            assert(a@.skip(i as int).len() > 0);
        }
    }
    i >= alen
}

/// The views of a list of strings.
pub open spec fn views_of(s: Seq<String>) -> Seq<Seq<char>> {
    s.map_values(|x: String| x@)
}

/// A list of string views in lexicographic order.
pub open spec fn sorted_strs(s: Seq<Seq<char>>) -> bool {
    forall|i: int, j: int| 0 <= i <= j < s.len() ==> str_le(s[i], s[j])
}

/// Sort a list of strings lexicographically. The result holds exactly
/// the strings of the input, in order.
pub fn sort_strings(v: Vec<String>) -> (r: Vec<String>)
    ensures
        sorted_strs(views_of(r@)),
        views_of(r@).to_multiset() == views_of(v@).to_multiset(),
{
    broadcast use vstd::seq_lib::group_to_multiset_ensures;
    broadcast use vstd::multiset::group_multiset_axioms;

    let mut rest = v;
    let mut out: Vec<String> = Vec::new();
    proof {
        assert(views_of(out@) =~= Seq::<Seq<char>>::empty());
        assert forall|x: Seq<char>| views_of(out@).to_multiset().count(x) == 0 by {
            if views_of(out@).to_multiset().count(x) > 0 {
                assert(views_of(out@).contains(x));
            }
        }
        assert(views_of(out@).to_multiset() =~= Multiset::<Seq<char>>::empty());
        assert(views_of(out@).to_multiset().add(views_of(rest@).to_multiset()) =~= views_of(
            rest@,
        ).to_multiset());
    }
    while rest.len() > 0
        invariant
            sorted_strs(views_of(out@)),
            views_of(out@).to_multiset().add(views_of(rest@).to_multiset()) == views_of(
                v@,
            ).to_multiset(),
            forall|i: int, k: int|
                0 <= i < out@.len() && 0 <= k < rest@.len() ==> str_le(
                    views_of(out@)[i],
                    views_of(rest@)[k],
                ),
        decreases rest.len(),
    {
        let mut m: usize = 0;
        let mut j: usize = 1;
        proof {
            lemma_str_le_refl(rest@[0]@);
        }
        while j < rest.len()
            invariant
                m < j <= rest@.len(),
                forall|k: int| 0 <= k < j ==> str_le(rest@[m as int]@, rest@[k]@),
            decreases rest@.len() - j,
        {
            if str_le_exec(rest[j].as_str(), rest[m].as_str()) {
                proof {
                    assert forall|k: int| 0 <= k < j + 1 implies str_le(
                        rest@[j as int]@,
                        rest@[k]@,
                    ) by {
                        if k < j {
                            lemma_str_le_trans(rest@[j as int]@, rest@[m as int]@, rest@[k]@);
                        } else {
                            lemma_str_le_refl(rest@[j as int]@);
                        }
                    }
                }
                m = j;
            } else {
                proof {
                    lemma_str_le_total(rest@[j as int]@, rest@[m as int]@);
                }
            }
            j = j + 1;
        }
        let ghost old_out = out@;
        let ghost old_rest = rest@;
        let s = rest.remove(m);
        out.push(s);
        proof {
            assert(views_of(out@) =~= views_of(old_out).push(s@));
            assert(views_of(rest@) =~= views_of(old_rest).remove(m as int));
            assert(views_of(old_rest)[m as int] == s@);
            vstd::seq_lib::to_multiset_build(views_of(old_out), s@);
            vstd::seq_lib::to_multiset_remove(views_of(old_rest), m as int);
            assert(views_of(out@).to_multiset() =~= views_of(old_out).to_multiset().insert(s@));
            assert(views_of(rest@).to_multiset() =~= views_of(old_rest).to_multiset().remove(s@));
            assert(views_of(old_rest)[m as int] == s@);
            assert(views_of(old_rest).contains(s@));
            vstd::seq_lib::to_multiset_contains(views_of(old_rest), s@);
            assert(views_of(old_rest).to_multiset().count(s@) > 0);
            assert(views_of(out@).to_multiset().add(views_of(rest@).to_multiset()) =~= views_of(
                v@,
            ).to_multiset());
            assert forall|i: int, k: int|
                0 <= i < out@.len() && 0 <= k < rest@.len() implies str_le(
                views_of(out@)[i],
                views_of(rest@)[k],
            ) by {
                assert(views_of(rest@)[k] == if k < m as int {
                    views_of(old_rest)[k]
                } else {
                    views_of(old_rest)[k + 1]
                });
            }
            assert forall|i: int, j2: int|
                0 <= i <= j2 < out@.len() implies str_le(
                views_of(out@)[i],
                views_of(out@)[j2],
            ) by {
                if j2 == out@.len() - 1 && i < j2 {
                    assert(str_le(views_of(old_out)[i], views_of(old_rest)[m as int]));
                } else if j2 == out@.len() - 1 && i == j2 {
                    lemma_str_le_total(s@, s@);
                }
            }
        }
    }
    proof {
        assert(views_of(rest@) =~= Seq::<Seq<char>>::empty());
        assert forall|x: Seq<char>| views_of(rest@).to_multiset().count(x) == 0 by {
            if views_of(rest@).to_multiset().count(x) > 0 {
                assert(views_of(rest@).contains(x));
            }
        }
        assert(views_of(out@).to_multiset().add(views_of(rest@).to_multiset()) =~= views_of(
            out@,
        ).to_multiset());
    }
    out
}

} // verus!
