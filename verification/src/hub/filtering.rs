//! Selection of standalone, primary model GGUF files.
use vstd::prelude::*;

use crate::hub::quantization::{parse_spec, Quantization};
use crate::text::{chars_of, contains, ends_with, has_infix, lower_seq, to_lower};

verus! {

/// Names of auxiliary files shipped beside models.
pub open spec fn excluded_words() -> Seq<Seq<char>> {
    seq![
        seq!['m', 'm', 'p', 'r', 'o', 'j'],
        seq!['d', 'r', 'a', 'f', 't'],
        seq!['p', 'r', 'o', 'j', 'e', 'c', 't', 'o', 'r'],
        seq!['v', 'i', 's', 'i', 'o', 'n'],
        seq!['c', 'l', 'i', 'p'],
    ]
}

/// A runnable single-file model: a `.gguf` (any case) that is neither an
/// auxiliary file nor one shard of a split model (`-of-`).
pub open spec fn primary_file(filename: Seq<char>) -> bool {
    let lower = lower_seq(filename);
    seq!['.', 'g', 'g', 'u', 'f'].is_suffix_of(lower)
        && !(exists|i: int| 0 <= i < excluded_words().len() && has_infix(lower, #[trigger] excluded_words()[i]))
        && !has_infix(lower, seq!['-', 'o', 'f', '-'])
}

fn mentions_excluded(lower: &[char]) -> (b: bool)
    ensures
        b == exists|i: int| 0 <= i < excluded_words().len() && has_infix(lower@, #[trigger] excluded_words()[i]),
{
    let a = contains(lower, &['m', 'm', 'p', 'r', 'o', 'j']);
    let b = contains(lower, &['d', 'r', 'a', 'f', 't']);
    let c = contains(lower, &['p', 'r', 'o', 'j', 'e', 'c', 't', 'o', 'r']);
    let d = contains(lower, &['v', 'i', 's', 'i', 'o', 'n']);
    let e = contains(lower, &['c', 'l', 'i', 'p']);
    proof {
        let w = excluded_words();
        assert(w[0] == seq!['m', 'm', 'p', 'r', 'o', 'j']);
        assert(w[1] == seq!['d', 'r', 'a', 'f', 't']);
        assert(w[2] == seq!['p', 'r', 'o', 'j', 'e', 'c', 't', 'o', 'r']);
        assert(w[3] == seq!['v', 'i', 's', 'i', 'o', 'n']);
        assert(w[4] == seq!['c', 'l', 'i', 'p']);
    }
    a || b || c || d || e
}

/// The quantization of a primary model file; `None` for anything else.
pub fn primary_quantization(filename: &str) -> (q: Option<Quantization>)
    ensures
        match q {
            Some(v) => primary_file(filename@) && parse_spec(filename@) == Some(v.0@),
            None => !primary_file(filename@) || parse_spec(filename@) is None,
        },
{
    let raw = chars_of(filename);
    let lower = to_lower(&raw);
    if !ends_with(&lower, &['.', 'g', 'g', 'u', 'f']) || mentions_excluded(&lower) {
        return None;
    }
    if contains(&lower, &['-', 'o', 'f', '-']) {
        return None;
    }
    Quantization::parse(filename)
}

} // verus!
