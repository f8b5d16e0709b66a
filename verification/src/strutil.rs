//! Views of string collections, and verified string comparison and
//! membership tests, used by the set reconciliation throughout the crate.

use vstd::prelude::*;
use vstd::string::StrSliceExecFns;

verus! {

/// The character sequences of a sequence of strings.
pub open spec fn views_of(v: Seq<String>) -> Seq<Seq<char>> {
    v.map_values(|s: String| s@)
}

/// The set of character sequences held by a sequence of strings.
pub open spec fn str_set(v: Seq<String>) -> Set<Seq<char>> {
    views_of(v).to_set()
}

/// Whether two string slices hold the same characters.
pub fn str_eq(a: &str, b: &str) -> (r: bool)
    ensures
        r == (a@ == b@),
{
    let la = a.unicode_len();
    let lb = b.unicode_len();
    if la != lb {
        return false;
    }
    let mut i: usize = 0;
    while i < la
        invariant
            la == a@.len(),
            la == b@.len(),
            0 <= i <= la,
            forall|k: int| 0 <= k < i ==> a@[k] == b@[k],
        decreases la - i,
    {
        if a.get_char(i) != b.get_char(i) {
            return false;
        }
        i += 1;
    }
    proof {
        assert(a@ =~= b@);
    }
    true
}

/// Whether some string in `v` holds the same characters as `x`.
pub fn contains_str(v: &Vec<String>, x: &str) -> (r: bool)
    ensures
        r == str_set(v@).contains(x@),
{
    let mut i: usize = 0;
    while i < v.len()
        invariant
            0 <= i <= v@.len(),
            forall|k: int| 0 <= k < i ==> v@[k]@ != x@,
        decreases v@.len() - i,
    {
        if str_eq(v[i].as_str(), x) {
            proof {
                assert(views_of(v@)[i as int] == x@);
            }
            return true;
        }
        i += 1;
    }
    proof {
        assert forall|y: Seq<char>| views_of(v@).to_set().contains(y) implies y != x@ by {
            let k = choose|k: int| 0 <= k < views_of(v@).len() && views_of(v@)[k] == y;
            assert(v@[k]@ == y);
        }
    }
    false
}

/// Taking views commutes with appending one string.
pub proof fn lemma_views_of_push(v: Seq<String>, s: String)
    ensures
        views_of(v.push(s)) =~= views_of(v).push(s@),
{
    assert forall|k: int| 0 <= k < views_of(v.push(s)).len() implies views_of(v.push(s))[k]
        == views_of(v).push(s@)[k] by {
        if k < v.len() {
            assert(v.push(s)[k] == v[k]);
        } else {
            assert(v.push(s)[k] == s);
        }
    }
}

} // verus!
