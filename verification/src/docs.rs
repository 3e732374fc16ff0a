//! Instruction reference text, looked up by instruction name in a table that
//! the caller supplies (name, then text).
use vstd::prelude::*;
use crate::text::{chars_eq_str, chars_of};

verus! {

/// The text of the first entry of `docs` named `w`.
pub open spec fn doc_lookup(docs: Seq<(String, String)>, w: Seq<char>) -> Option<Seq<char>>
    decreases docs.len(),
{
    if docs.len() == 0 {
        None
    } else if docs[0].0@ == w {
        Some(docs[0].1@)
    } else {
        doc_lookup(docs.drop_first(), w)
    }
}

/// The reference text of instruction `word`: that of the first entry of
/// `docs` with its name, if there is one.
pub fn get_instruction_doc(word: &str, docs: &Vec<(String, String)>) -> (r: Option<String>)
    ensures
        match doc_lookup(docs@, word@) {
            Some(d) => r is Some && r->0@ == d,
            None => r is None,
        },
{
    let wc = chars_of(word);
    let mut i: usize = 0;
    assert(docs@.skip(0) =~= docs@);
    while i < docs.len()
        invariant
            i <= docs@.len(),
            wc@ == word@,
            doc_lookup(docs@, word@) == doc_lookup(docs@.skip(i as int), word@),
        decreases docs@.len() - i,
    {
        assert(docs@.skip(i as int)[0] == docs@[i as int]);
        if chars_eq_str(wc.as_slice(), docs[i].0.as_str()) {
            return Some(docs[i].1.clone());
        }
        assert(docs@.skip(i as int).drop_first() =~= docs@.skip(i + 1));
        i = i + 1;
    }
    None
}

} // verus!
