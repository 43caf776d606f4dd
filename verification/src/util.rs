//! Small shared items: company identifiers and enumerations that double as
//! axis indices.

use vstd::prelude::*;

verus! {

/// A company's place on the company axis of every table.
pub type CompanyId = usize;

/// An enumeration that knows how many variants it has.
pub trait CountVariants {
    /// The number of variants.
    spec fn variant_count() -> nat;

    /// The number of variants.
    fn count_variants() -> (n: usize)
        ensures
            n == Self::variant_count(),
    ;
}

/// An enumeration whose variants are numbered from zero in the order in
/// which they are declared. The number of a variant is its index on the
/// field axis of a table.
pub trait IndexEnum: CountVariants + Copy + Sized {
    /// The number of this variant.
    spec fn position(&self) -> nat;

    /// The number of this variant, which is below the number of variants.
    fn index(&self) -> (i: usize)
        ensures
            i == self.position(),
            i < Self::variant_count(),
    ;

    /// The variant with number `i`, if there is one.
    fn from_index(i: usize) -> (r: Option<Self>)
        ensures
            r is Some <==> i < Self::variant_count(),
            r matches Some(v) ==> v.position() == i,
    ;

    /// Two variants with one number are one variant, and every variant's
    /// number is below the number of variants.
    proof fn lemma_position(a: Self, b: Self)
        ensures
            a.position() < Self::variant_count(),
            a.position() == b.position() ==> a == b,
    ;
}

} // verus!
