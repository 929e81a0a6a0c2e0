//! Names of the cached optimization results.
use vstd::prelude::*;

use crate::hub::download::PathStyle;
use crate::llama::{join_path, windows_relative};
use crate::security::{hex_char, hex_digit, sha256, sha256_spec};
use crate::text::{append_chars, chars_of, string_from_chars};

verus! {

/// Where optimization results are cached (a directory path as text).
#[derive(Debug, Clone, PartialEq, Eq)]
pub struct OptimizationCache {
    pub directory: String,
}

/// What an optimization result was measured for: the model, each node's
/// hardware and the network between them. Its JSON encoding is what the
/// cache key is taken from.
#[derive(Debug, Clone, PartialEq, Eq)]
pub struct OptimizationFingerprint {
    pub model: String,
    pub hardware: Vec<String>,
    pub network: Vec<String>,
}

/// Two lowercase hexadecimal digits for each byte.
pub open spec fn hex_bytes(bytes: Seq<u8>) -> Seq<char>
    decreases bytes.len(),
{
    if bytes.len() == 0 {
        Seq::empty()
    } else {
        hex_bytes(bytes.drop_last()) + seq![
            hex_digit((bytes.last() / 16) as nat),
            hex_digit((bytes.last() % 16) as nat),
        ]
    }
}

/// The cache key of a fingerprint given as its JSON encoding: the SHA-256
/// digest of those bytes in lowercase hexadecimal.
pub open spec fn cache_key_spec(fingerprint_json: Seq<u8>) -> Seq<char> {
    hex_bytes(sha256_spec(fingerprint_json))
}

/// The cache key of a fingerprint from its JSON encoding.
pub fn cache_key(fingerprint_json: &[u8]) -> (key: String)
    ensures
        key@ == cache_key_spec(fingerprint_json@),
        key@.len() == 64,
{
    let digest = sha256(fingerprint_json);
    let mut out: Vec<char> = Vec::new();
    for i in 0..digest.len()
        invariant
            digest@.len() == 32,
            out@ == hex_bytes(digest@.take(i as int)),
            out@.len() == 2 * i,
    {
        out.push(hex_char(digest[i] / 16));
        out.push(hex_char(digest[i] % 16));
        proof {
            assert(digest@.take(i + 1).drop_last() =~= digest@.take(i as int));
        }
    }
    proof {
        assert(digest@.take(32) =~= digest@);
    }
    string_from_chars(&out)
}

impl OptimizationCache {
    pub fn new(directory: String) -> (cache: Self)
        ensures
            cache.directory == directory,
    {
        OptimizationCache { directory }
    }

    /// The file holding the result for a cache key: `<key>.json` in the
    /// cache directory.
    pub fn path(&self, key: &str, style: PathStyle) -> (path: String)
        requires
            style == PathStyle::Windows ==> windows_relative(key@),
        ensures
            path@ == join_path(self.directory@, key@ + seq!['.', 'j', 's', 'o', 'n'], style),
    {
        let mut name = chars_of(key);
        let json: [char; 5] = ['.', 'j', 's', 'o', 'n'];
        append_chars(&mut name, &json);
        proof {
            assert(json@ =~= seq!['.', 'j', 's', 'o', 'n']);
            assert(name@ == key@ + json@);
            if key@.len() > 0 {
                assert(name@[0] == key@[0]);
            }
            if key@.len() >= 2 {
                assert(name@[1] == key@[1]);
            }
        }
        let name = string_from_chars(&name);
        crate::llama::join_path_text(self.directory.as_str(), name.as_str(), style)
    }

    /// The file a result is written to before it replaces the cached one:
    /// `<key>.tmp` in the cache directory.
    pub fn temporary_path(&self, key: &str, style: PathStyle) -> (path: String)
        requires
            style == PathStyle::Windows ==> windows_relative(key@),
        ensures
            path@ == join_path(self.directory@, key@ + seq!['.', 't', 'm', 'p'], style),
    {
        let mut name = chars_of(key);
        let tmp: [char; 4] = ['.', 't', 'm', 'p'];
        append_chars(&mut name, &tmp);
        proof {
            assert(tmp@ =~= seq!['.', 't', 'm', 'p']);
            assert(name@ == key@ + tmp@);
            if key@.len() > 0 {
                assert(name@[0] == key@[0]);
            }
            if key@.len() >= 2 {
                assert(name@[1] == key@[1]);
            }
        }
        let name = string_from_chars(&name);
        crate::llama::join_path_text(self.directory.as_str(), name.as_str(), style)
    }
}

} // verus!
