//! Verified helpers over strings and string sequences.
//!
//! Diagnostics quote schema names and joined name lists, and several rules
//! compare name lists exactly or up to reordering. Everything here is plain
//! character-sequence reasoning over `String` views.
use vstd::prelude::*;

verus! {

use vstd::string::StrSliceExecFns;

/// The views of a sequence of strings, one character sequence per string.
pub open spec fn string_views(ss: Seq<String>) -> Seq<Seq<char>> {
    ss.map_values(|s: String| s@)
}

/// Character-by-character equality of two string slices.
pub fn str_eq(a: &str, b: &str) -> (r: bool)
    ensures
        r == (a@ == b@),
{
    let alen = a.unicode_len();
    let blen = b.unicode_len();
    if alen != blen {
        return false;
    }
    let mut i: usize = 0;
    while i < alen
        invariant
            i <= alen,
            alen == a@.len(),
            alen == b@.len(),
            forall|k: int| 0 <= k < i ==> a@[k] == b@[k],
        decreases alen - i,
    {
        if a.get_char(i) != b.get_char(i) {
            return false;
        }
        i = i + 1;
    }
    proof {
        assert(a@ =~= b@);
    }
    true
}

/// Equality of a string against a string slice.
pub fn string_eq_str(a: &String, b: &str) -> (r: bool)
    ensures
        r == (a@ == b@),
{
    str_eq(a.as_str(), b)
}

/// The strings joined with the separator between adjacent elements.
pub open spec fn join_with(parts: Seq<Seq<char>>, sep: Seq<char>) -> Seq<char>
    decreases parts.len(),
{
    if parts.len() == 0 {
        Seq::empty()
    } else if parts.len() == 1 {
        parts[0]
    } else {
        join_with(parts.drop_last(), sep) + sep + parts.last()
    }
}

/// Concatenates the strings, separated by `sep`.
pub fn join(parts: &Vec<String>, sep: &str) -> (r: String)
    ensures
        r@ == join_with(string_views(parts@), sep@),
{
    let ghost views = string_views(parts@);
    let mut r = String::new();
    let mut i: usize = 0;
    while i < parts.len()
        invariant
            i <= parts@.len(),
            views == string_views(parts@),
            r@ == join_with(views.take(i as int), sep@),
        decreases parts@.len() - i,
    {
        if i > 0 {
            r.append(sep);
        }
        r.append(parts[i].as_str());
        proof {
            assert(views.take(i + 1).drop_last() =~= views.take(i as int));
            assert(views.take(i + 1).last() == parts@[i as int]@);
            if i == 0 {
                assert(r@ =~= join_with(views.take(1), sep@));
            }
        }
        i = i + 1;
    }
    proof {
        assert(views.take(parts@.len() as int) =~= views);
    }
    r
}

/// How many entries of `ss` equal `x`.
pub open spec fn occurrences(ss: Seq<Seq<char>>, x: Seq<char>) -> nat
    decreases ss.len(),
{
    if ss.len() == 0 {
        0
    } else {
        occurrences(ss.drop_last(), x) + (if ss.last() == x {
            1nat
        } else {
            0nat
        })
    }
}

/// Whether two name lists hold the same names, each the same number of times,
/// in any order. Two lists are related exactly when sorting both would make
/// them equal.
pub open spec fn same_names_any_order(a: Seq<Seq<char>>, b: Seq<Seq<char>>) -> bool {
    forall|x: Seq<char>| #[trigger] occurrences(a, x) == occurrences(b, x)
}

proof fn lemma_occurrences_le_len(ss: Seq<Seq<char>>, x: Seq<char>)
    ensures
        occurrences(ss, x) <= ss.len(),
    decreases ss.len(),
{
    if ss.len() > 0 {
        lemma_occurrences_le_len(ss.drop_last(), x);
    }
}

proof fn lemma_occurrences_positive(ss: Seq<Seq<char>>, x: Seq<char>)
    ensures
        (occurrences(ss, x) > 0) <==> (exists|i: int| 0 <= i < ss.len() && ss[i] == x),
    decreases ss.len(),
{
    if ss.len() > 0 {
        lemma_occurrences_positive(ss.drop_last(), x);
        if ss.last() == x {
            assert(ss[ss.len() - 1] == x);
        }
        if occurrences(ss, x) > 0 && ss.last() != x {
            let i = choose|i: int| 0 <= i < ss.drop_last().len() && ss.drop_last()[i] == x;
            assert(ss[i] == x);
        }
        if (exists|i: int| 0 <= i < ss.len() && ss[i] == x) && ss.last() != x {
            let i = choose|i: int| 0 <= i < ss.len() && ss[i] == x;
            assert(ss.drop_last()[i] == x);
        }
    }
}

/// How many entries of `v` equal `x`.
fn count_matches(v: &Vec<String>, x: &str) -> (r: usize)
    ensures
        r == occurrences(string_views(v@), x@),
{
    let ghost views = string_views(v@);
    let mut r: usize = 0;
    let mut i: usize = 0;
    while i < v.len()
        invariant
            i <= v@.len(),
            views == string_views(v@),
            r == occurrences(views.take(i as int), x@),
            r <= i,
        decreases v@.len() - i,
    {
        proof {
            assert(views.take(i + 1).drop_last() =~= views.take(i as int));
            assert(views.take(i + 1).last() == v@[i as int]@);
        }
        if str_eq(v[i].as_str(), x) {
            r = r + 1;
        }
        i = i + 1;
    }
    proof {
        assert(views.take(v@.len() as int) =~= views);
    }
    r
}

/// Whether the two lists hold the same names, each the same number of times,
/// in any order.
pub fn same_names_check(a: &Vec<String>, b: &Vec<String>) -> (r: bool)
    ensures
        r == same_names_any_order(string_views(a@), string_views(b@)),
{
    let ghost va = string_views(a@);
    let ghost vb = string_views(b@);
    let mut i: usize = 0;
    while i < a.len()
        invariant
            i <= a@.len(),
            va == string_views(a@),
            vb == string_views(b@),
            forall|k: int| 0 <= k < i ==> occurrences(va, #[trigger] va[k]) == occurrences(vb, va[k]),
        decreases a@.len() - i,
    {
        let ca = count_matches(a, a[i].as_str());
        let cb = count_matches(b, a[i].as_str());
        if ca != cb {
            proof {
                assert(occurrences(va, va[i as int]) != occurrences(vb, va[i as int]));
            }
            return false;
        }
        i = i + 1;
    }
    let mut j: usize = 0;
    while j < b.len()
        invariant
            j <= b@.len(),
            va == string_views(a@),
            vb == string_views(b@),
            forall|k: int| 0 <= k < a@.len() ==> occurrences(va, #[trigger] va[k]) == occurrences(vb, va[k]),
            forall|k: int| 0 <= k < j ==> occurrences(va, #[trigger] vb[k]) == occurrences(vb, vb[k]),
        decreases b@.len() - j,
    {
        let ca = count_matches(a, b[j].as_str());
        let cb = count_matches(b, b[j].as_str());
        if ca != cb {
            proof {
                assert(occurrences(va, vb[j as int]) != occurrences(vb, vb[j as int]));
            }
            return false;
        }
        j = j + 1;
    }
    proof {
        assert forall|x: Seq<char>| #[trigger] occurrences(va, x) == occurrences(vb, x) by {
            lemma_occurrences_positive(va, x);
            lemma_occurrences_positive(vb, x);
            if occurrences(va, x) > 0 {
                let k = choose|k: int| 0 <= k < va.len() && va[k] == x;
                assert(occurrences(va, va[k]) == occurrences(vb, va[k]));
            } else if occurrences(vb, x) > 0 {
                let k = choose|k: int| 0 <= k < vb.len() && vb[k] == x;
                assert(occurrences(va, vb[k]) == occurrences(vb, vb[k]));
            }
        }
    }
    true
}

/// Elementwise equality of two name lists, in the given order.
pub fn string_vec_eq(a: &Vec<String>, b: &Vec<String>) -> (r: bool)
    ensures
        r == (string_views(a@) == string_views(b@)),
{
    let ghost va = string_views(a@);
    let ghost vb = string_views(b@);
    if a.len() != b.len() {
        proof {
            assert(va.len() == a@.len());
            assert(vb.len() == b@.len());
        }
        return false;
    }
    let mut i: usize = 0;
    while i < a.len()
        invariant
            i <= a@.len(),
            a@.len() == b@.len(),
            va == string_views(a@),
            vb == string_views(b@),
            forall|k: int| 0 <= k < i ==> va[k] == vb[k],
        decreases a@.len() - i,
    {
        if !str_eq(a[i].as_str(), b[i].as_str()) {
            proof {
                assert(va[i as int] != vb[i as int]);
            }
            return false;
        }
        i = i + 1;
    }
    proof {
        assert(va =~= vb);
    }
    true
}

/// Whether some entry of `v` equals `x`.
pub fn string_vec_contains(v: &Vec<String>, x: &str) -> (r: bool)
    ensures
        r == string_views(v@).contains(x@),
{
    let ghost views = string_views(v@);
    let mut i: usize = 0;
    while i < v.len()
        invariant
            i <= v@.len(),
            views == string_views(v@),
            forall|k: int| 0 <= k < i ==> views[k] != x@,
        decreases v@.len() - i,
    {
        if str_eq(v[i].as_str(), x) {
            proof {
                assert(views[i as int] == x@);
            }
            return true;
        }
        i = i + 1;
    }
    proof {
        assert(forall|k: int| 0 <= k < views.len() ==> views[k] != x@);
    }
    false
}

} // verus!
