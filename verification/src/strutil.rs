//! Small verified helpers on string slices.

use vstd::prelude::*;
use vstd::string::StrSliceExecFns;

verus! {

/// True when the two string slices hold the same characters.
pub fn str_eq(a: &str, b: &str) -> (r: bool)
    ensures
        r == (a@ == b@),
{
    let alen = a.unicode_len();
    let blen = b.unicode_len();
    if alen != blen {
        return false;
    }
    let mut i: usize = 0;
    while i < alen
        invariant
            alen == a@.len(),
            blen == b@.len(),
            alen == blen,
            i <= alen,
            forall|j: int| 0 <= j < i ==> a@[j] == b@[j],
        decreases alen - i,
    {
        if a.get_char(i) != b.get_char(i) {
            return false;
        }
        i += 1;
    }
    proof {
        assert(a@ =~= b@);
    }
    true
}

/// The attribute values read as boolean truth.
pub open spec fn spec_truthy(v: Seq<char>) -> bool {
    v == "1"@ || v == "true"@
}

/// Decides whether the value reads as boolean truth.
pub fn truthy(v: &str) -> (r: bool)
    ensures
        r == spec_truthy(v@),
{
    str_eq(v, "1") || str_eq(v, "true")
}

/// A key whose local name is exactly `id`: the bare key, or one carrying a
/// namespace prefix.
pub open spec fn spec_id_key(k: Seq<char>) -> bool {
    k == "id"@ || (k.len() >= 3 && k.subrange(k.len() - 3, k.len() as int) == ":id"@)
}

/// Decides whether the key's local name is exactly `id`.
pub fn is_id_key(k: &str) -> (r: bool)
    ensures
        r == spec_id_key(k@),
{
    if str_eq(k, "id") {
        return true;
    }
    let n = k.unicode_len();
    if n < 3 {
        return false;
    }
    proof {
        reveal_strlit(":id");
    }
    let c0 = k.get_char(n - 3);
    let c1 = k.get_char(n - 2);
    let c2 = k.get_char(n - 1);
    if c0 == ':' && c1 == 'i' && c2 == 'd' {
        proof {
            assert(k@.subrange(n - 3, n as int) =~= ":id"@);
        }
        true
    } else {
        proof {
            if k@.subrange(k@.len() - 3, k@.len() as int) == ":id"@ {
                assert(k@.subrange(n - 3, n as int)[0] == ':');
                assert(k@.subrange(n - 3, n as int)[1] == 'i');
                assert(k@.subrange(n - 3, n as int)[2] == 'd');
            }
        }
        false
    }
}

} // verus!
