//! What the Hugging Face Hub API answers, and the repositories and files the
//! application offers from it.
use vstd::prelude::*;

use crate::hub::by_size::{sort_by_size, sorted_by_size, SizedEntry};
use crate::hub::filtering::{primary_file, primary_quantization};
use crate::hub::quantization::{parse_spec, Quantization};
use crate::text::{
    chars_of, ends_with, lower_seq, pieces, same_text, split, split_on, string_from_chars, to_lower, trim,
    trimmed,
};

verus! {

/// The public Hub.
pub const DEFAULT_ENDPOINT: &'static str = "https://huggingface.co";

/// The mirror tried when the public Hub fails.
pub const FALLBACK_ENDPOINT: &'static str = "https://hf-mirror.com";

/// A model repository found by a search.
#[derive(Debug, PartialEq, Eq)]
pub struct HubRepository {
    pub id: String,
    pub downloads: u64,
    pub likes: u64,
}

impl Clone for HubRepository {
    fn clone(&self) -> (copy: Self)
        ensures
            copy == *self,
    {
        HubRepository { id: self.id.clone(), downloads: self.downloads, likes: self.likes }
    }
}

/// A downloadable standalone GGUF file of a repository.
#[derive(Debug, PartialEq, Eq)]
pub struct HubFile {
    pub repository: String,
    pub revision: String,
    pub filename: String,
    pub size_bytes: u64,
    pub quantization: Quantization,
}

impl Clone for HubFile {
    fn clone(&self) -> (copy: Self)
        ensures
            copy == *self,
    {
        HubFile {
            repository: self.repository.clone(),
            revision: self.revision.clone(),
            filename: self.filename.clone(),
            size_bytes: self.size_bytes,
            quantization: self.quantization.clone(),
        }
    }
}

impl SizedEntry for HubFile {
    open spec fn size_spec(&self) -> u64 {
        self.size_bytes
    }

    fn size(&self) -> (s: u64) {
        self.size_bytes
    }
}

/// The large-file record of a sibling.
#[derive(Debug)]
pub struct ApiLfs {
    pub size: Option<u64>,
}

/// One file of a repository as the API lists it.
#[derive(Debug)]
pub struct ApiSibling {
    pub rfilename: String,
    pub size: Option<u64>,
    pub lfs: Option<ApiLfs>,
}

/// One model as the API lists it.
#[derive(Debug)]
pub struct ApiModel {
    pub id: Option<String>,
    pub underscore_id: Option<String>,
    pub downloads: Option<u64>,
    pub likes: Option<u64>,
    pub sha: Option<String>,
    pub siblings: Vec<ApiSibling>,
}

/// Why a repository offers nothing to download.
#[derive(Debug, Clone, Copy, PartialEq, Eq, Structural)]
pub enum HubError {
    NoStandaloneGguf,
}

impl HubError {
    /// The message shown for this error.
    pub fn message(&self) -> (text: &'static str)
        ensures
            text@ == (match *self {
                HubError::NoStandaloneGguf => "repository contains no supported standalone GGUF files"@,
            }),
    {
        match self {
            HubError::NoStandaloneGguf => "repository contains no supported standalone GGUF files",
        }
    }
}

/// A file name ending in `.gguf`, ignoring ASCII case.
pub open spec fn is_gguf_name(name: Seq<char>) -> bool {
    seq!['.', 'g', 'g', 'u', 'f'].is_suffix_of(lower_seq(name))
}

/// The repository's id: `id`, else `_id`.
pub open spec fn model_id(model: ApiModel) -> Option<String> {
    if model.id is Some {
        model.id
    } else {
        model.underscore_id
    }
}

/// Some sibling of the model is a GGUF file.
pub open spec fn has_gguf(model: ApiModel) -> bool {
    exists|i: int| 0 <= i < model.siblings@.len() && is_gguf_name(#[trigger] model.siblings@[i].rfilename@)
}

pub open spec fn count_or_zero(n: Option<u64>) -> u64 {
    match n {
        Some(v) => v,
        None => 0,
    }
}

/// The search result made of one listed model, if it offers a GGUF file.
pub open spec fn listed_repository(model: ApiModel) -> Option<HubRepository> {
    if model_id(model) is Some && has_gguf(model) {
        Some(
            HubRepository {
                id: model_id(model).unwrap(),
                downloads: count_or_zero(model.downloads),
                likes: count_or_zero(model.likes),
            },
        )
    } else {
        None
    }
}

/// A listed model is reported under its repository `id` whenever it has
/// one; the database `_id` names it only when `id` is absent. The counts
/// are the listed ones, zero when missing, and a model without any GGUF
/// file or without any id is not reported.
pub proof fn lemma_repository_named_by_id(model: ApiModel)
    ensures
        (model.id is Some && has_gguf(model)) ==> listed_repository(model) == Some(
            HubRepository {
                id: model.id.unwrap(),
                downloads: match model.downloads {
                    Some(v) => v,
                    None => 0,
                },
                likes: match model.likes {
                    Some(v) => v,
                    None => 0,
                },
            },
        ),
        (model.id is None && model.underscore_id is Some && has_gguf(model)) ==> (listed_repository(model) is Some
            && listed_repository(model).unwrap().id == model.underscore_id.unwrap()),
        (model.id is None && model.underscore_id is None) ==> listed_repository(model) is None,
        !has_gguf(model) ==> listed_repository(model) is None,
{
}

fn is_gguf_file(name: &str) -> (b: bool)
    ensures
        b == is_gguf_name(name@),
{
    let lower = to_lower(&chars_of(name));
    let extension: [char; 5] = ['.', 'g', 'g', 'u', 'f'];
    proof {
        assert(extension@ =~= seq!['.', 'g', 'g', 'u', 'f']);
    }
    ends_with(&lower, &extension)
}

fn repository_of(model: &ApiModel) -> (r: Option<HubRepository>)
    ensures
        r == listed_repository(*model),
{
    let id = match &model.id {
        Some(id) => id.clone(),
        None => match &model.underscore_id {
            Some(id) => id.clone(),
            None => return None,
        },
    };
    let mut found = false;
    for i in 0..model.siblings.len()
        invariant
            found == exists|k: int| 0 <= k < i && is_gguf_name(#[trigger] model.siblings@[k].rfilename@),
    {
        if is_gguf_file(model.siblings[i].rfilename.as_str()) {
            found = true;
        }
    }
    if !found {
        return None;
    }
    let downloads = match model.downloads {
        Some(v) => v,
        None => 0,
    };
    let likes = match model.likes {
        Some(v) => v,
        None => 0,
    };
    Some(HubRepository { id, downloads, likes })
}

/// The repositories of a search answer: each listed model with an id and a
/// GGUF file, in the order listed.
pub fn select_repositories(models: &Vec<ApiModel>) -> (repositories: Vec<HubRepository>)
    ensures
        repositories@ == models@.filter_map(|m: ApiModel| listed_repository(m)),
{
    let mut out: Vec<HubRepository> = Vec::new();
    for i in 0..models.len()
        invariant
            out@ == models@.take(i as int).filter_map(|m: ApiModel| listed_repository(m)),
    {
        let found = repository_of(&models[i]);
        proof {
            assert(models@.take(i + 1).drop_last() =~= models@.take(i as int));
        }
        match found {
            Some(r) => {
                out.push(r);
                proof {
                    assert(out@ =~= models@.take(i + 1).filter_map(|m: ApiModel| listed_repository(m)));
                }
            },
            None => {},
        }
    }
    proof {
        assert(models@.take(models@.len() as int) =~= models@);
    }
    out
}

/// What a search sends for a query: the trimmed text, or nothing at all
/// when only whitespace was typed.
pub fn search_terms(query: &str) -> (terms: Option<String>)
    ensures
        match terms {
            Some(t) => t@ == trim(query@) && t@.len() > 0,
            None => trim(query@).len() == 0,
        },
{
    let t = trimmed(&chars_of(query));
    if t.len() == 0 {
        None
    } else {
        Some(string_from_chars(&t))
    }
}

/// `s` without trailing `c` characters (`trim_end_matches`).
pub open spec fn without_trailing(s: Seq<char>, c: char) -> Seq<char>
    decreases s.len(),
{
    if s.len() > 0 && s.last() == c {
        without_trailing(s.drop_last(), c)
    } else {
        s
    }
}

/// The mirror is tried only when the configured endpoint is the public Hub,
/// trailing slashes aside.
pub fn uses_fallback(endpoint: &str) -> (b: bool)
    ensures
        b == (without_trailing(endpoint@, '/') == DEFAULT_ENDPOINT@),
{
    let chars = chars_of(endpoint);
    let mut end = chars.len();
    proof {
        assert(chars@.take(chars@.len() as int) =~= chars@);
    }
    while end > 0 && chars[end - 1] == '/'
        invariant
            end <= chars@.len(),
            without_trailing(endpoint@, '/') == without_trailing(chars@.take(end as int), '/'),
            chars@ == endpoint@,
        decreases end,
    {
        proof {
            assert(chars@.take(end as int).drop_last() =~= chars@.take(end - 1));
        }
        end -= 1;
    }
    let base = string_from_chars(&crate::text::slice_chars(&chars, 0, end));
    proof {
        assert(chars@.subrange(0, end as int) =~= chars@.take(end as int));
    }
    same_text(base.as_str(), DEFAULT_ENDPOINT)
}

/// The byte size a sibling declares: its own `size`, else its LFS size.
pub open spec fn declared_size(sibling: ApiSibling) -> Option<u64> {
    if sibling.size is Some {
        sibling.size
    } else {
        match sibling.lfs {
            Some(lfs) => lfs.size,
            None => None,
        }
    }
}

/// A sibling is offered when it has a name, is a primary GGUF model with a
/// known quantization, and declares a positive size.
pub open spec fn offered(sibling: ApiSibling) -> bool {
    &&& sibling.rfilename@.len() > 0
    &&& primary_file(sibling.rfilename@)
    &&& parse_spec(sibling.rfilename@) is Some
    &&& declared_size(sibling) is Some
    &&& declared_size(sibling).unwrap() > 0
}

/// The revision files are fetched at: the listed commit, else `main`.
pub open spec fn revision_of(model: ApiModel) -> Seq<char> {
    match model.sha {
        Some(sha) => sha@,
        None => seq!['m', 'a', 'i', 'n'],
    }
}

/// `file` is what the repository offers for `sibling`.
pub open spec fn describes(file: HubFile, repository: Seq<char>, revision: Seq<char>, sibling: ApiSibling) -> bool {
    &&& file.repository@ == repository
    &&& file.revision@ == revision
    &&& file.filename@ == sibling.rfilename@
    &&& Some(file.size_bytes) == declared_size(sibling)
    &&& parse_spec(sibling.rfilename@) == Some(file.quantization.0@)
}

/// `files` describe, one for one and in order, the offered siblings.
pub open spec fn describes_all(
    files: Seq<HubFile>,
    repository: Seq<char>,
    revision: Seq<char>,
    siblings: Seq<ApiSibling>,
) -> bool {
    let kept = siblings.filter(|s: ApiSibling| offered(s));
    files.len() == kept.len() && forall|i: int|
        0 <= i < files.len() ==> describes(#[trigger] files[i], repository, revision, kept[i])
}

fn offered_file(repository: &str, revision: &String, sibling: &ApiSibling) -> (f: Option<HubFile>)
    ensures
        f is Some == offered(*sibling),
        f matches Some(file) ==> describes(file, repository@, revision@, *sibling),
{
    if sibling.rfilename.as_str().is_empty() {
        return None;
    }
    let quantization = match primary_quantization(sibling.rfilename.as_str()) {
        Some(q) => q,
        None => return None,
    };
    let size = match sibling.size {
        Some(s) => s,
        None => match &sibling.lfs {
            Some(lfs) => match lfs.size {
                Some(s) => s,
                None => return None,
            },
            None => return None,
        },
    };
    if size == 0 {
        return None;
    }
    let repository = repository.to_owned();
    Some(
        HubFile {
            repository,
            revision: revision.clone(),
            filename: sibling.rfilename.clone(),
            size_bytes: size,
            quantization,
        },
    )
}

/// The files a repository offers, smallest first (files of equal size in
/// the order listed); an error when it offers none.
pub fn select_files(repository: &str, model: &ApiModel) -> (r: Result<Vec<HubFile>, HubError>)
    ensures
        match r {
            Ok(files) => files@.len() > 0 && exists|listed: Seq<HubFile>|
                describes_all(listed, repository@, revision_of(*model), model.siblings@) && files@ == sorted_by_size(
                    listed,
                ),
            Err(e) => e == HubError::NoStandaloneGguf && model.siblings@.filter(|s: ApiSibling| offered(s)).len()
                == 0,
        },
{
    let revision = match &model.sha {
        Some(sha) => sha.clone(),
        None => "main".to_owned(),
    };
    proof {
        reveal_strlit("main");
        assert("main"@ =~= seq!['m', 'a', 'i', 'n']);
    }
    let ghost sibs = model.siblings@;
    let ghost keep = |s: ApiSibling| offered(s);
    let mut listed: Vec<HubFile> = Vec::new();
    for i in 0..model.siblings.len()
        invariant
            sibs == model.siblings@,
            keep == (|s: ApiSibling| offered(s)),
            revision@ == revision_of(*model),
            describes_all(listed@, repository@, revision@, sibs.take(i as int)),
    {
        let found = offered_file(repository, &revision, &model.siblings[i]);
        proof {
            broadcast use Seq::lemma_filter_push;

            assert(sibs.take(i + 1) =~= sibs.take(i as int).push(sibs[i as int]));
        }
        match found {
            Some(f) => {
                listed.push(f);
            },
            None => {},
        }
        proof {
            let before = sibs.take(i as int).filter(keep);
            let after = sibs.take(i + 1).filter(keep);
            if offered(sibs[i as int]) {
                assert(after == before.push(sibs[i as int]));
            } else {
                assert(after == before);
            }
        }
    }
    proof {
        assert(sibs.take(sibs.len() as int) =~= sibs);
    }
    let ghost unsorted = listed@;
    if listed.len() == 0 {
        return Err(HubError::NoStandaloneGguf);
    }
    let files = sort_by_size(listed);
    proof {
        broadcast use vstd::seq_lib::group_to_multiset_ensures;

        crate::hub::by_size::lemma_sorted_by_size(unsorted);
        assert(files@.to_multiset().len() == unsorted.len());
    }
    Ok(files)
}

/// The URL path segments of a file's download: the repository's segments,
/// `resolve`, the revision, then the file name's segments.
pub fn download_segments(file: &HubFile) -> (segments: Vec<String>)
    ensures
        segments@.map_values(|s: String| s@) == split_on(file.repository@, seq!['/']) + seq![
            seq!['r', 'e', 's', 'o', 'l', 'v', 'e'],
            file.revision@,
        ] + split_on(file.filename@, seq!['/']),
{
    let slash: [char; 1] = ['/'];
    proof {
        assert(slash@ =~= seq!['/']);
    }
    let mut segments: Vec<String> = Vec::new();
    let repo = split(&chars_of(file.repository.as_str()), &slash);
    for i in 0..repo.len()
        invariant
            segments@.map_values(|s: String| s@) == pieces(repo@).take(i as int),
    {
        let ghost before = segments@;
        let piece = string_from_chars(&repo[i]);
        segments.push(piece);
        proof {
            assert(pieces(repo@)[i as int] == repo@[i as int]@);
            assert(before.map_values(|s: String| s@).len() == i);
            assert(segments@.map_values(|s: String| s@) =~= before.map_values(|s: String| s@).push(piece@));
            assert(segments@.map_values(|s: String| s@) =~= pieces(repo@).take(i + 1));
        }
    }
    proof {
        assert(pieces(repo@).take(repo@.len() as int) =~= pieces(repo@));
    }
    let ghost head = segments@.map_values(|s: String| s@);
    let resolve = "resolve".to_owned();
    proof {
        reveal_strlit("resolve");
        assert(resolve@ =~= seq!['r', 'e', 's', 'o', 'l', 'v', 'e']);
    }
    segments.push(resolve);
    segments.push(file.revision.clone());
    proof {
        assert(segments@.map_values(|s: String| s@) =~= head + seq![
            seq!['r', 'e', 's', 'o', 'l', 'v', 'e'],
            file.revision@,
        ]);
    }
    let ghost middle = segments@.map_values(|s: String| s@);
    let name = split(&chars_of(file.filename.as_str()), &slash);
    for i in 0..name.len()
        invariant
            segments@.map_values(|s: String| s@) == middle + pieces(name@).take(i as int),
    {
        let ghost before = segments@;
        let piece = string_from_chars(&name[i]);
        segments.push(piece);
        proof {
            assert(pieces(name@)[i as int] == name@[i as int]@);
            assert(segments@.map_values(|s: String| s@) =~= before.map_values(|s: String| s@).push(piece@));
            assert(segments@.map_values(|s: String| s@) =~= middle + pieces(name@).take(i + 1));
        }
    }
    proof {
        assert(pieces(name@).take(name@.len() as int) =~= pieces(name@));
    }
    segments
}

} // verus!
