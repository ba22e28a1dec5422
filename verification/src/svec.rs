//! The small inline vectors that hold a group's category codes and
//! priority tags.
//!
//! The storage comes from the `smallvec` crate, which keeps up to four
//! strings inline; Verus cannot read that type's declaration, so it is
//! held in an opaque struct whose contents are named by [`sv_elems`],
//! and the operations the assemblers use are stated over that name.

use vstd::prelude::*;

verus! {

/// Category codes or priority tags of one group, in document order.
#[verifier::external_body]
#[derive(Debug, PartialEq)]
pub struct TagVec {
    inner: smallvec::SmallVec<[String; 4]>,
}

/// The strings a [`TagVec`] holds, in order.
pub uninterp spec fn sv_elems(v: TagVec) -> Seq<String>;

/// The character sequences a [`TagVec`] holds, in order.
pub open spec fn sv_view(v: TagVec) -> Seq<Seq<char>> {
    sv_elems(v).map(|i: int, s: String| s@)
}

/// Relies on smallvec::SmallVec::new: the new vector is empty.
#[verifier::external_body]
pub fn sv_new() -> (r: TagVec)
    ensures
        sv_elems(r) == Seq::<String>::empty(),
{
    TagVec { inner: smallvec::SmallVec::new() }
}

/// Relies on smallvec::SmallVec::push: the value is appended at the end.
#[verifier::external_body]
pub fn sv_push(v: &mut TagVec, s: String)
    ensures
        sv_elems(*final(v)) == sv_elems(*old(v)).push(s),
{
    v.inner.push(s);
}

/// A vector holding exactly the given strings, in order.
pub fn sv_from_vec(v: Vec<String>) -> (r: TagVec)
    ensures
        sv_elems(r) == v@,
{
    let mut r = sv_new();
    let mut i: usize = 0;
    while i < v.len()
        invariant
            i <= v@.len(),
            sv_elems(r) == v@.subrange(0, i as int),
        decreases v@.len() - i,
    {
        sv_push(&mut r, v[i].clone());
        proof {
            assert(sv_elems(r) =~= v@.subrange(0, i as int + 1));
        }
        i += 1;
    }
    proof {
        assert(sv_elems(r) =~= v@);
    }
    r
}

/// Pushing appends the pushed string's characters to the contents.
pub proof fn lemma_sv_push_view(pre: Seq<String>, s: String)
    ensures
        pre.push(s).map(|i: int, t: String| t@) == pre.map(|i: int, t: String| t@).push(s@),
{
    assert(pre.push(s).map(|i: int, t: String| t@) =~= pre.map(|i: int, t: String| t@).push(s@));
}

} // verus!
