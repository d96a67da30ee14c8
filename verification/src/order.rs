use vstd::prelude::*;

use core::cmp::Ordering;
use vstd::std_specs::cmp::{PartialOrdSpec, PartialOrdSpecImpl};

use crate::filename::PortableFilename;
use crate::lexical::{
    compare_bytes, lemma_lex_order_antisymmetric, lemma_lex_order_same_iff_equal,
    lemma_lex_order_transitive, lex_order, LexOrder,
};

verus! {

/// Portable filenames are ordered as their strings are: by the bytes of
/// their UTF-8 encoding, lexicographically.
impl PartialOrd for PortableFilename {
    fn partial_cmp(&self, other: &Self) -> (r: Option<Ordering>) {
        let a = self.as_str().as_bytes();
        let b = other.as_str().as_bytes();
        match compare_bytes(a, b) {
            LexOrder::Before => Some(Ordering::Less),
            LexOrder::Same => Some(Ordering::Equal),
            LexOrder::After => Some(Ordering::Greater),
        }
    }
}

impl PartialOrdSpecImpl for PortableFilename {
    open spec fn obeys_partial_cmp_spec() -> bool {
        true
    }

    open spec fn partial_cmp_spec(&self, other: &Self) -> Option<Ordering> {
        match lex_order(
            vstd::utf8::encode_utf8(self@),
            vstd::utf8::encode_utf8(other@),
        ) {
            LexOrder::Before => Some(Ordering::Less),
            LexOrder::Same => Some(Ordering::Equal),
            LexOrder::After => Some(Ordering::Greater),
        }
    }
}

/// Filenames are totally ordered and the order tells names apart: two names
/// compare `Equal` exactly when they are the same name, and swapping them
/// swaps `Less` and `Greater`.
pub proof fn lemma_name_order_distinguishes(a: PortableFilename, b: PortableFilename)
    ensures
        PartialOrdSpec::partial_cmp_spec(&a, &b) is Some,
        (PartialOrdSpec::partial_cmp_spec(&a, &b) == Some(Ordering::Equal)) <==> a@ == b@,
        (PartialOrdSpec::partial_cmp_spec(&a, &b) == Some(Ordering::Greater)) <==> (PartialOrdSpec::partial_cmp_spec(&b, &a) == Some(
            Ordering::Less,
        )),
        (PartialOrdSpec::partial_cmp_spec(&a, &b) == Some(Ordering::Less)) <==> (PartialOrdSpec::partial_cmp_spec(&b, &a) == Some(
            Ordering::Greater,
        )),
{
    let ea = vstd::utf8::encode_utf8(a@);
    let eb = vstd::utf8::encode_utf8(b@);
    lemma_lex_order_same_iff_equal(ea, eb);
    lemma_lex_order_antisymmetric(ea, eb);
    vstd::utf8::encode_utf8_decode_utf8(a@);
    vstd::utf8::encode_utf8_decode_utf8(b@);
}

/// The order of filenames is transitive.
pub proof fn lemma_name_order_transitive(
    a: PortableFilename,
    b: PortableFilename,
    c: PortableFilename,
)
    requires
        PartialOrdSpec::partial_cmp_spec(&a, &b) == Some(Ordering::Less),
        PartialOrdSpec::partial_cmp_spec(&b, &c) == Some(Ordering::Less),
    ensures
        PartialOrdSpec::partial_cmp_spec(&a, &c) == Some(Ordering::Less),
{
    lemma_lex_order_transitive(
        vstd::utf8::encode_utf8(a@),
        vstd::utf8::encode_utf8(b@),
        vstd::utf8::encode_utf8(c@),
    );
}

} // verus!
