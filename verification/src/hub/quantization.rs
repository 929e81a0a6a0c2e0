//! Quantization names supported by llama.cpp GGUF models.
use vstd::prelude::*;

use crate::text::{chars_of, ends_with, split, split_on, starts_with, string_from_chars, to_upper, upper_seq};

verus! {

/// A quantization label such as `Q4_K_M`.
#[derive(Debug, PartialEq, Eq)]
pub struct Quantization(pub String);

impl Clone for Quantization {
    fn clone(&self) -> (copy: Self)
        ensures
            copy == *self,
    {
        Quantization(self.0.clone())
    }
}

/// The quantization families, longer names first so `IQ4` is never read as `Q4`.
pub open spec fn quant_prefixes() -> Seq<Seq<char>> {
    seq![
        seq!['B', 'F', '1', '6'],
        seq!['F', '1', '6'],
        seq!['I', 'Q', '2'],
        seq!['I', 'Q', '3'],
        seq!['I', 'Q', '4'],
        seq!['Q', '2'],
        seq!['Q', '3'],
        seq!['Q', '4'],
        seq!['Q', '5'],
        seq!['Q', '6'],
        seq!['Q', '8'],
    ]
}

/// A token names a family exactly, or a family followed by `_` and a variant.
pub open spec fn names_quantization(token: Seq<char>) -> bool {
    exists|i: int|
        0 <= i < quant_prefixes().len() && (token == #[trigger] quant_prefixes()[i] || (
        quant_prefixes()[i].is_prefix_of(token) && token.len() > quant_prefixes()[i].len()
            && token[quant_prefixes()[i].len() as int] == '_'))
}

/// The first token that names a quantization.
pub open spec fn first_quantization(tokens: Seq<Seq<char>>) -> Option<Seq<char>>
    decreases tokens.len(),
{
    if tokens.len() == 0 {
        None
    } else if names_quantization(tokens[0]) {
        Some(tokens[0])
    } else {
        first_quantization(tokens.drop_first())
    }
}

pub open spec fn token_separators() -> Seq<char> {
    seq!['-', '.', ' ', '/']
}

/// The quantization of a `.gguf` file name (case ignored): the first token of
/// the upper-cased stem, split at `-`, `.`, space and `/`, that names one.
pub open spec fn parse_spec(filename: Seq<char>) -> Option<Seq<char>> {
    let upper = upper_seq(filename);
    if !seq!['.', 'G', 'G', 'U', 'F'].is_suffix_of(upper) {
        None
    } else {
        first_quantization(split_on(upper.take(upper.len() - 5), token_separators()))
    }
}

fn quant_prefix(i: usize) -> (p: Vec<char>)
    requires
        i < 11,
    ensures
        p@ == quant_prefixes()[i as int],
{
    let p: Vec<char> = if i == 0 {
        vec!['B', 'F', '1', '6']
    } else if i == 1 {
        vec!['F', '1', '6']
    } else if i == 2 {
        vec!['I', 'Q', '2']
    } else if i == 3 {
        vec!['I', 'Q', '3']
    } else if i == 4 {
        vec!['I', 'Q', '4']
    } else if i == 5 {
        vec!['Q', '2']
    } else if i == 6 {
        vec!['Q', '3']
    } else if i == 7 {
        vec!['Q', '4']
    } else if i == 8 {
        vec!['Q', '5']
    } else if i == 9 {
        vec!['Q', '6']
    } else {
        vec!['Q', '8']
    };
    proof {
        assert(p@ =~= quant_prefixes()[i as int]);
    }
    p
}

fn is_quantization_token(token: &[char]) -> (b: bool)
    ensures
        b == names_quantization(token@),
{
    for i in 0..11usize
        invariant
            forall|k: int|
                0 <= k < i ==> !(token@ == #[trigger] quant_prefixes()[k] || (quant_prefixes()[k].is_prefix_of(token@)
                    && token@.len() > quant_prefixes()[k].len() && token@[quant_prefixes()[k].len() as int] == '_')),
    {
        let p = quant_prefix(i);
        if starts_with(token, &p) {
            if token.len() == p.len() {
                proof {
                    assert(token@ =~= quant_prefixes()[i as int]);
                }
                return true;
            }
            if token[p.len()] == '_' {
                return true;
            }
        }
        proof {
            if token@ == quant_prefixes()[i as int] {
                assert(quant_prefixes()[i as int].is_prefix_of(token@));
            }
        }
    }
    false
}

impl Quantization {
    /// Reads the quantization from a GGUF file name.
    pub fn parse(filename: &str) -> (q: Option<Quantization>)
        ensures
            match q {
                Some(v) => parse_spec(filename@) == Some(v.0@),
                None => parse_spec(filename@) is None,
            },
    {
        let raw = chars_of(filename);
        let upper = to_upper(&raw);
        let extension: [char; 5] = ['.', 'G', 'G', 'U', 'F'];
        proof {
            assert(extension@ =~= seq!['.', 'G', 'G', 'U', 'F']);
        }
        if !ends_with(&upper, &extension) {
            return None;
        }
        let stem = crate::text::slice_chars(&upper, 0, upper.len() - 5);
        proof {
            assert(stem@ == upper@.take(upper@.len() - 5));
        }
        let separators: [char; 4] = ['-', '.', ' ', '/'];
        proof {
            assert(separators@ =~= token_separators());
        }
        let tokens = split(&stem, &separators);
        let ghost all = crate::text::pieces(tokens@);
        proof {
            assert(all.skip(0) =~= all);
        }
        for i in 0..tokens.len()
            invariant
                all == crate::text::pieces(tokens@),
                all == split_on(upper@.take(upper@.len() - 5), token_separators()),
                upper@ == upper_seq(filename@),
                seq!['.', 'G', 'G', 'U', 'F'].is_suffix_of(upper@),
                first_quantization(all) == first_quantization(all.skip(i as int)),
        {
            proof {
                assert(all.skip(i as int)[0] == tokens@[i as int]@);
                assert(all.skip(i as int).drop_first() =~= all.skip(i + 1));
            }
            if is_quantization_token(&tokens[i]) {
                let label = string_from_chars(&tokens[i]);
                proof {
                    let rest = all.skip(i as int);
                    assert(rest.len() > 0);
                    assert(names_quantization(rest[0]));
                    assert(first_quantization(rest) == Some(rest[0]));
                }
                return Some(Quantization(label));
            }
        }
        proof {
            assert(all.skip(tokens@.len() as int) =~= Seq::<Seq<char>>::empty());
        }
        None
    }

    /// The label, e.g. `Q4_K_M`.
    pub fn label(&self) -> (label: &str)
        ensures
            label@ == self.0@,
    {
        self.0.as_str()
    }
}

} // verus!
