use vstd::prelude::*;

verus! {

/// `syn::File`, the parsed form of one source file. The core treats the tree
/// as an opaque value: it is parsed from text, deep-cloned per trial, handed
/// to passes for mutation, and printed back to text by the build
/// environment's formatter (an outward interface, like the verifier).
#[verifier::external_type_specification]
#[verifier::external_body]
pub struct ExSynFile(syn::File);

/// `syn::Error`, the parser's error value; carried through unread.
#[verifier::external_type_specification]
#[verifier::external_body]
pub struct ExSynError(syn::Error);

/// The tree that `syn::parse_file` yields for a given text, if the text
/// parses at all.
pub uninterp spec fn parse_of(s: Seq<char>) -> Option<syn::File>;

/// Relies on syn::parse_file: whether a text parses, and what tree results,
/// depend on the text alone.
#[verifier::external_body]
pub fn parse_source(text: &str) -> (r: Result<syn::File, syn::Error>)
    ensures
        match r {
            Ok(t) => parse_of(text@) == Some(t),
            Err(_) => parse_of(text@) is None,
        },
{
    syn::parse_file(text)
}

/// Relies on syn::File's derived Clone: a deep copy equal to the original.
#[verifier::external_body]
pub fn clone_tree(t: &syn::File) -> (r: syn::File)
    ensures
        r == *t,
{
    t.clone()
}

} // verus!
