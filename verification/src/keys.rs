//! Composite-key handling.
//!
//! When quests from several regions coexist in one store, a record id is the
//! composite `"<region>:<base-id>"`.  The base id is recovered by taking the
//! suffix after the final `:` separator, and every comparison across regions
//! must reduce to base ids, never to full composite ids.

use vstd::prelude::*;

verus! {

/// The base id of a composite id: the suffix after the final `:` separator.
/// An id without a separator is its own base id.
pub open spec fn base_of(id: Seq<char>) -> Seq<char>
    decreases id.len(),
{
    if id.len() == 0 {
        id
    } else if id.last() == ':' {
        Seq::<char>::empty()
    } else {
        base_of(id.drop_last()).push(id.last())
    }
}

/// `base_of` returns the suffix that starts right after the final separator:
/// if nothing at or beyond `cut` is a separator, and `cut` is either the very
/// start or preceded by one, the base id is exactly the suffix from `cut`.
proof fn lemma_base_of_suffix(id: Seq<char>, cut: int)
    requires
        0 <= cut <= id.len(),
        cut > 0 ==> id[cut - 1] == ':',
        forall|j: int| cut <= j < id.len() ==> id[j] != ':',
    ensures
        base_of(id) == id.subrange(cut, id.len() as int),
    decreases id.len(),
{
    if cut == id.len() {
        if id.len() > 0 {
            assert(id.last() == ':');
        }
        assert(base_of(id) =~= id.subrange(cut, id.len() as int));
    } else {
        assert(id[id.len() - 1] != ':');
        lemma_base_of_suffix(id.drop_last(), cut);
        assert(id.drop_last().subrange(cut, id.len() - 1) =~= id.subrange(cut, id.len() - 1));
        assert(base_of(id) =~= id.subrange(cut, id.len() as int));
    }
}

/// Prefixing any namespace onto an id leaves the base id unchanged.
pub proof fn lemma_base_of_prefixed(region: Seq<char>, id: Seq<char>)
    ensures
        base_of(region + seq![':'] + id) == base_of(id),
    decreases id.len(),
{
    let s = region + seq![':'] + id;
    if id.len() == 0 {
        assert(s.last() == ':');
        assert(base_of(s) =~= base_of(id));
    } else if id.last() == ':' {
        assert(s.last() == ':');
        assert(base_of(s) =~= base_of(id));
    } else {
        assert(s.last() == id.last());
        lemma_base_of_prefixed(region, id.drop_last());
        assert(s.drop_last() =~= region + seq![':'] + id.drop_last());
        assert(base_of(s) == base_of(s.drop_last()).push(s.last()));
    }
}

/// Character-wise string equality, decided without any trusted call.
pub fn str_eq(a: &str, b: &str) -> (r: bool)
    ensures
        r == (a@ == b@),
{
    let na = a.unicode_len();
    let nb = b.unicode_len();
    if na != nb {
        return false;
    }
    let mut i: usize = 0;
    while i < na
        invariant
            na == a@.len(),
            na == b@.len(),
            0 <= i <= na,
            forall|j: int| 0 <= j < i ==> a@[j] == b@[j],
        decreases na - i,
    {
        if a.get_char(i) != b.get_char(i) {
            return false;
        }
        i += 1;
    }
    proof {
        assert(a@ =~= b@);
    }
    true
}

/// Recovers the base id from a possibly composite id.
pub fn base_id_of(id: &str) -> (r: String)
    ensures
        r@ == base_of(id@),
{
    let n = id.unicode_len();
    let mut cut: usize = 0;
    let mut i: usize = 0;
    while i < n
        invariant
            n == id@.len(),
            0 <= cut <= i <= n,
            cut > 0 ==> id@[cut - 1] == ':',
            forall|j: int| cut <= j < i ==> id@[j] != ':',
        decreases n - i,
    {
        if id.get_char(i) == ':' {
            cut = i + 1;
        }
        i += 1;
    }
    let sub = id.substring_char(cut, n);
    proof {
        lemma_base_of_suffix(id@, cut as int);
    }
    sub.to_owned()
}

/// Builds the composite id `"<region>:<base>"`.
pub fn compose_id(region: &str, base: &str) -> (r: String)
    ensures
        r@ == region@ + seq![':'] + base@,
{
    let mut s = region.to_owned();
    s.append(":");
    s.append(base);
    proof {
        reveal_strlit(":");
        assert(s@ =~= region@ + seq![':'] + base@);
    }
    s
}

} // verus!
