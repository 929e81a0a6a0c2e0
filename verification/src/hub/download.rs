//! Decisions of a resumable download into the models directory: where the
//! file goes, what is fetched, and when the result is complete.
use vstd::prelude::*;

use crate::models::ModelInfo;
use crate::text::{append_chars, chars_of, decimal, pieces, push_decimal, split, split_on, starts_with, string_from_chars};

verus! {

/// Why a download cannot go on.
#[derive(Debug, Clone, Copy, PartialEq, Eq, Structural)]
pub enum DownloadError {
    /// The remote name has no file name to store it under.
    NoLocalName,
    /// The disk holds less than the bytes still to fetch.
    NotEnoughSpace { need: u64, have: u64 },
    /// The stored file is not as long as announced.
    Incomplete { expected: u64, received: u64 },
}

/// How a download ended: with a validated model, or cancelled with the
/// partial file kept for resuming.
#[derive(Debug)]
pub enum DownloadOutcome {
    Finished(ModelInfo),
    Cancelled(String),
}

/// What to do with an existing partial file.
#[derive(Debug, Clone, Copy, PartialEq, Eq, Structural)]
pub struct ResumeState {
    /// The partial file is longer than the remote file and is emptied.
    pub reset_part: bool,
    /// The bytes already held.
    pub resume_from: u64,
}

/// The next step once the free space is known.
#[derive(Debug, Clone, Copy, PartialEq, Eq, Structural)]
pub enum DownloadStep {
    /// Every byte is present: move the partial file into place.
    Finalize,
    /// Fetch the rest, asking for a byte range when some bytes are held.
    Fetch { range_from: Option<u64> },
}

/// How the platform's paths separate their components.
#[derive(Debug, Clone, Copy, PartialEq, Eq, Structural)]
pub enum PathStyle {
    /// Components are separated by `/` (Unix-like platforms).
    Unix,
    /// Components are separated by `/` or `\`, and `\` is written between
    /// joined parts (Windows). A prefix such as `C:` is read as an ordinary
    /// first component.
    Windows,
}

/// The characters that separate path components in a style.
pub open spec fn separators(style: PathStyle) -> Seq<char> {
    match style {
        PathStyle::Unix => seq!['/'],
        PathStyle::Windows => seq!['/', '\\'],
    }
}

/// Whether `c` separates path components in a style.
pub open spec fn is_separator(c: char, style: PathStyle) -> bool {
    c == '/' || (style == PathStyle::Windows && c == '\\')
}

/// The separators of a style, as characters.
pub fn separator_chars(style: PathStyle) -> (set: Vec<char>)
    ensures
        set@ == separators(style),
{
    match style {
        PathStyle::Unix => {
            let set = vec!['/'];
            proof {
                assert(set@ =~= seq!['/']);
            }
            set
        },
        PathStyle::Windows => {
            let set = vec!['/', '\\'];
            proof {
                assert(set@ =~= seq!['/', '\\']);
            }
            set
        },
    }
}

/// Whether `c` separates path components in a style.
pub fn separates(c: char, style: PathStyle) -> (b: bool)
    ensures
        b == is_separator(c, style),
{
    c == '/' || (style == PathStyle::Windows && c == '\\')
}

/// A path component that names something: not empty and not `.`.
pub open spec fn names_entry(part: Seq<char>) -> bool {
    part.len() > 0 && part != seq!['.']
}

/// The last component of `parts` that names something.
pub open spec fn last_entry(parts: Seq<Seq<char>>) -> Option<Seq<char>>
    decreases parts.len(),
{
    if parts.len() == 0 {
        None
    } else if names_entry(parts.last()) {
        Some(parts.last())
    } else {
        last_entry(parts.drop_last())
    }
}

/// `Path::file_name` of a path in a style: its last component, unless
/// that is `..` or there is none.
pub open spec fn file_name_of(path: Seq<char>, style: PathStyle) -> Option<Seq<char>> {
    match last_entry(split_on(path, separators(style))) {
        Some(name) => if name == seq!['.', '.'] {
            None
        } else {
            Some(name)
        },
        None => None,
    }
}

/// The name a remote file is stored under in the models directory.
pub fn local_file_name(remote: &str, style: PathStyle) -> (r: Result<String, DownloadError>)
    ensures
        match r {
            Ok(name) => file_name_of(remote@, style) == Some(name@),
            Err(e) => e == DownloadError::NoLocalName && file_name_of(remote@, style) is None,
        },
{
    let set = separator_chars(style);
    let parts = split(&chars_of(remote), &set);
    let ghost all = pieces(parts@);
    let mut j = parts.len();
    proof {
        assert(all.take(j as int) =~= all);
    }
    while j > 0 && !(parts[j - 1].len() > 0 && !(parts[j - 1].len() == 1 && parts[j - 1][0] == '.'))
        invariant
            j <= parts@.len(),
            all == pieces(parts@),
            last_entry(all) == last_entry(all.take(j as int)),
        decreases j,
    {
        proof {
            let p = all.take(j as int);
            assert(p.last() == parts@[j - 1]@);
            if parts@[j - 1]@.len() == 1 && parts@[j - 1]@[0] == '.' {
                assert(parts@[j - 1]@ =~= seq!['.']);
            }
            assert(p.drop_last() =~= all.take(j - 1));
        }
        j -= 1;
    }
    if j == 0 {
        return Err(DownloadError::NoLocalName);
    }
    let name = &parts[j - 1];
    proof {
        let p = all.take(j as int);
        assert(p.last() == name@);
        if name@.len() == 1 && name@[0] == '.' {
            assert(name@ =~= seq!['.']);
        }
        assert(names_entry(p.last()));
    }
    if name.len() == 2 && name[0] == '.' && name[1] == '.' {
        proof {
            assert(name@ =~= seq!['.', '.']);
        }
        return Err(DownloadError::NoLocalName);
    }
    proof {
        if name@ == seq!['.', '.'] {
            assert(name@[0] == '.' && name@[1] == '.');
        }
    }
    Ok(string_from_chars(name))
}

/// The index of the last `.` of `name`.
pub open spec fn last_dot(name: Seq<char>) -> Option<int>
    decreases name.len(),
{
    if name.len() == 0 {
        None
    } else if name.last() == '.' {
        Some(name.len() - 1)
    } else {
        last_dot(name.drop_last())
    }
}

/// `Path::file_stem` of a file name: the part before its last `.`, or the
/// whole name when that `.` is its first character or there is none.
pub open spec fn stem_of(name: Seq<char>) -> Seq<char> {
    match last_dot(name) {
        Some(p) => if p == 0 {
            name
        } else {
            name.take(p)
        },
        None => name,
    }
}

proof fn lemma_last_dot_at(name: Seq<char>, p: int)
    requires
        0 <= p < name.len(),
        name[p] == '.',
        forall|k: int| p < k < name.len() ==> name[k] != '.',
    ensures
        last_dot(name) == Some(p),
    decreases name.len(),
{
    if name.len() - 1 != p {
        assert(name.last() != '.');
        let shorter = name.drop_last();
        assert forall|k: int| p < k < shorter.len() implies shorter[k] != '.' by {
            assert(shorter[k] == name[k]);
        }
        lemma_last_dot_at(shorter, p);
    }
}

proof fn lemma_no_dot(name: Seq<char>)
    requires
        forall|k: int| 0 <= k < name.len() ==> name[k] != '.',
    ensures
        last_dot(name) is None,
    decreases name.len(),
{
    if name.len() > 0 {
        assert(name.last() != '.');
        let shorter = name.drop_last();
        assert forall|k: int| 0 <= k < shorter.len() implies shorter[k] != '.' by {
            assert(shorter[k] == name[k]);
        }
        lemma_no_dot(shorter);
    }
}

/// The partial file replaces only what follows the last `.` of the name:
/// everything before that `.` is kept, so a name ending in `.gguf` (and
/// longer than that) gets `.part` appended; a name with no `.` after its
/// first character keeps all of it.
pub proof fn lemma_part_file_keeps_the_stem(name: Seq<char>, p: int)
    ensures
        (0 < p < name.len() && name[p] == '.' && forall|k: int| p < k < name.len() ==> name[k] != '.') ==> stem_of(
            name,
        ) == name.take(p),
        (forall|k: int| 0 < k < name.len() ==> name[k] != '.') ==> stem_of(name) == name,
        (name.len() > 5 && seq!['.', 'g', 'g', 'u', 'f'].is_suffix_of(name)) ==> stem_of(name) + seq![
            '.',
            'g',
            'g',
            'u',
            'f',
            '.',
            'p',
            'a',
            'r',
            't',
        ] == name + seq!['.', 'p', 'a', 'r', 't'],
{
    if 0 < p < name.len() && name[p] == '.' && forall|k: int| p < k < name.len() ==> name[k] != '.' {
        lemma_last_dot_at(name, p);
    }
    if forall|k: int| 0 < k < name.len() ==> name[k] != '.' {
        if name.len() > 0 && name[0] == '.' {
            lemma_last_dot_at(name, 0);
        } else {
            lemma_no_dot(name);
        }
    }
    if name.len() > 5 && seq!['.', 'g', 'g', 'u', 'f'].is_suffix_of(name) {
        let d = name.len() - 5;
        let ext = seq!['.', 'g', 'g', 'u', 'f'];
        assert(name.subrange(d, name.len() as int) == ext);
        assert(name[d] == ext[0]);
        assert forall|k: int| d < k < name.len() implies name[k] != '.' by {
            assert(name[k] == ext[k - d]);
        }
        lemma_last_dot_at(name, d);
        assert(name.take(d) + ext + seq!['.', 'p', 'a', 'r', 't'] =~= name.take(d) + seq![
            '.',
            'g',
            'g',
            'u',
            'f',
            '.',
            'p',
            'a',
            'r',
            't',
        ]);
        assert(name.take(d) + ext =~= name);
    }
}

/// The name of the partial file beside a model file (`with_extension("gguf.part")`).
pub fn part_file_name(name: &str) -> (part: String)
    ensures
        part@ == stem_of(name@) + seq!['.', 'g', 'g', 'u', 'f', '.', 'p', 'a', 'r', 't'],
{
    let chars = chars_of(name);
    let mut end = chars.len();
    proof {
        assert(chars@.take(end as int) =~= chars@);
    }
    while end > 0 && chars[end - 1] != '.'
        invariant
            end <= chars@.len(),
            chars@ == name@,
            last_dot(name@) == last_dot(chars@.take(end as int)),
        decreases end,
    {
        proof {
            assert(chars@.take(end as int).drop_last() =~= chars@.take(end - 1));
        }
        end -= 1;
    }
    let stem_len = if end <= 1 {
        chars.len()
    } else {
        end - 1
    };
    proof {
        if end > 0 {
            assert(chars@.take(end as int).last() == '.');
        }
    }
    let mut out = crate::text::slice_chars(&chars, 0, stem_len);
    let extension: [char; 10] = ['.', 'g', 'g', 'u', 'f', '.', 'p', 'a', 'r', 't'];
    proof {
        assert(extension@ =~= seq!['.', 'g', 'g', 'u', 'f', '.', 'p', 'a', 'r', 't']);
        assert(chars@.subrange(0, chars@.len() as int) =~= chars@);
        assert(chars@.subrange(0, stem_len as int) =~= stem_of(name@));
    }
    append_chars(&mut out, &extension);
    string_from_chars(&out)
}

/// A partial file longer than the remote file is emptied and fetched anew;
/// otherwise its bytes are kept.
pub fn resume_state(existing: u64, size: u64) -> (state: ResumeState)
    ensures
        state.reset_part == (existing > size),
        state.resume_from == if existing > size {
            0
        } else {
            existing
        },
        state.resume_from <= size,
{
    if existing > size {
        ResumeState { reset_part: true, resume_from: 0 }
    } else {
        ResumeState { reset_part: false, resume_from: existing }
    }
}

/// With `held` of `size` bytes present and `free` bytes available: fail
/// when the rest does not fit, finish when nothing is missing, else fetch
/// the rest (as a range when some bytes are held).
pub fn next_step(held: u64, size: u64, free: u64) -> (step: Result<DownloadStep, DownloadError>)
    requires
        held <= size,
    ensures
        match step {
            Err(e) => e == (DownloadError::NotEnoughSpace { need: (size - held) as u64, have: free }) && free < size
                - held,
            Ok(DownloadStep::Finalize) => free >= size - held && held == size,
            Ok(DownloadStep::Fetch { range_from }) => free >= size - held && held < size && range_from == if held
                > 0 {
                Some(held)
            } else {
                None::<u64>
            },
        },
{
    let remaining = size - held;
    if free < remaining {
        return Err(DownloadError::NotEnoughSpace { need: remaining, have: free });
    }
    if held == size {
        return Ok(DownloadStep::Finalize);
    }
    let range_from = if held > 0 {
        Some(held)
    } else {
        None
    };
    Ok(DownloadStep::Fetch { range_from })
}

/// The `Range` header value asking for the bytes from `from` on.
pub fn range_header(from: u64) -> (value: String)
    ensures
        value@ == seq!['b', 'y', 't', 'e', 's', '='] + decimal(from as nat) + seq!['-'],
{
    let mut out: Vec<char> = Vec::new();
    let head: [char; 6] = ['b', 'y', 't', 'e', 's', '='];
    append_chars(&mut out, &head);
    push_decimal(&mut out, from);
    out.push('-');
    proof {
        assert(head@ =~= seq!['b', 'y', 't', 'e', 's', '=']);
        assert(out@ =~= seq!['b', 'y', 't', 'e', 's', '='] + decimal(from as nat) + seq!['-']);
    }
    string_from_chars(&out)
}

/// The server resumed the transfer: bytes were held, it answered
/// `206 Partial Content`, and its `Content-Range` starts at the held length.
pub fn resume_accepted(held: u64, status: u16, content_range: Option<&str>) -> (accepted: bool)
    ensures
        accepted == (held > 0 && status == 206 && match content_range {
            Some(range) => (seq!['b', 'y', 't', 'e', 's', ' '] + decimal(held as nat) + seq!['-']).is_prefix_of(
                range@,
            ),
            None => false,
        }),
{
    if held == 0 || status != 206 {
        return false;
    }
    match content_range {
        None => false,
        Some(range) => {
            let mut expected: Vec<char> = Vec::new();
            let head: [char; 6] = ['b', 'y', 't', 'e', 's', ' '];
            append_chars(&mut expected, &head);
            push_decimal(&mut expected, held);
            expected.push('-');
            proof {
                assert(head@ =~= seq!['b', 'y', 't', 'e', 's', ' ']);
                assert(expected@ =~= seq!['b', 'y', 't', 'e', 's', ' '] + decimal(held as nat) + seq!['-']);
            }
            starts_with(&chars_of(range), &expected)
        },
    }
}

/// Progress is reported at most every 200 ms, and always for the last byte.
pub fn progress_due(since_last_report_ms: u64, downloaded: u64, total: u64) -> (due: bool)
    ensures
        due == (since_last_report_ms >= 200 || downloaded == total),
{
    since_last_report_ms >= 200 || downloaded == total
}

/// The download is complete when the stored file is exactly as long as
/// announced.
pub fn check_complete(received: u64, expected: u64) -> (r: Result<(), DownloadError>)
    ensures
        r is Ok <==> received == expected,
        r matches Err(e) ==> e == (DownloadError::Incomplete { expected, received }),
{
    if received != expected {
        Err(DownloadError::Incomplete { expected, received })
    } else {
        Ok(())
    }
}

/// The components of a path in a style as `Path::components` reads them:
/// whether it starts at the root, whether it starts with `.`, and its other
/// components (empty ones and `.` dropped).
pub open spec fn components(path: Seq<char>, style: PathStyle) -> (bool, bool, Seq<Seq<char>>) {
    let pieces = split_on(path, separators(style));
    let absolute = path.len() > 0 && is_separator(path[0], style);
    let current = !absolute && pieces[0] == seq!['.'];
    (absolute, current, pieces.filter(|p: Seq<char>| names_entry(p)))
}

/// `Path::parent`, as components.
pub open spec fn parent_of(path: Seq<char>, style: PathStyle) -> Option<(bool, bool, Seq<Seq<char>>)> {
    let (absolute, current, parts) = components(path, style);
    if parts.len() > 0 {
        Some((absolute, current, parts.drop_last()))
    } else if current {
        Some((absolute, false, parts))
    } else {
        None
    }
}

/// A file may be deleted from the models directory only when it lies
/// directly in it and its extension is `gguf`.
pub open spec fn deletion_allowed_spec(path: Seq<char>, models_dir: Seq<char>, style: PathStyle) -> bool {
    parent_of(path, style) == Some(components(models_dir, style)) && crate::llama::extension_of(path, style) == Some(
        seq!['g', 'g', 'u', 'f'],
    )
}

fn components_of(path: &str, style: PathStyle) -> (c: (bool, bool, Vec<Vec<char>>))
    ensures
        c.0 == components(path@, style).0,
        c.1 == components(path@, style).1,
        pieces(c.2@) == components(path@, style).2,
{
    let chars = chars_of(path);
    let set = separator_chars(style);
    let parts = split(&chars, &set);
    let absolute = chars.len() > 0 && separates(chars[0], style);
    proof {
        crate::text::lemma_split_nonempty(chars@, separators(style));
        assert(pieces(parts@)[0] == parts@[0]@);
        if parts@[0]@.len() == 1 && parts@[0]@[0] == '.' {
            assert(parts@[0]@ =~= seq!['.']);
        }
    }
    let current = !absolute && parts[0].len() == 1 && parts[0][0] == '.';
    let ghost all = pieces(parts@);
    let mut kept: Vec<Vec<char>> = Vec::new();
    for i in 0..parts.len()
        invariant
            all == pieces(parts@),
            pieces(kept@) == all.take(i as int).filter(|p: Seq<char>| names_entry(p)),
    {
        proof {
            broadcast use Seq::lemma_filter_push;

            assert(all.take(i + 1) =~= all.take(i as int).push(all[i as int]));
            assert(all[i as int] == parts@[i as int]@);
            if parts@[i as int]@.len() == 1 && parts@[i as int]@[0] == '.' {
                assert(parts@[i as int]@ =~= seq!['.']);
            }
        }
        let keep = parts[i].len() > 0 && !(parts[i].len() == 1 && parts[i][0] == '.');
        if keep {
            let ghost before = kept@;
            kept.push(crate::text::slice_chars(&parts[i], 0, parts[i].len()));
            proof {
                assert(parts@[i as int]@.subrange(0, parts@[i as int]@.len() as int) =~= parts@[i as int]@);
                assert(pieces(kept@) =~= pieces(before).push(all[i as int]));
            }
        }
    }
    proof {
        assert(all.take(parts@.len() as int) =~= all);
    }
    (absolute, current, kept)
}

fn same_components(a: &Vec<Vec<char>>, b: &Vec<Vec<char>>, upto: usize) -> (same: bool)
    requires
        upto <= a@.len(),
    ensures
        same == (pieces(a@).take(upto as int) == pieces(b@)),
{
    if upto != b.len() {
        proof {
            assert(pieces(a@).take(upto as int).len() != pieces(b@).len());
        }
        return false;
    }
    for i in 0..upto
        invariant
            upto <= a@.len(),
            upto == b@.len(),
            forall|k: int| 0 <= k < i ==> a@[k]@ == b@[k]@,
    {
        let x = string_from_chars(&a[i]);
        let y = string_from_chars(&b[i]);
        if !crate::text::same_text(x.as_str(), y.as_str()) {
            proof {
                assert(pieces(a@).take(upto as int)[i as int] != pieces(b@)[i as int]);
            }
            return false;
        }
    }
    proof {
        assert(pieces(a@).take(upto as int) =~= pieces(b@));
    }
    true
}

/// Whether a model file may be deleted: it lies directly in the models
/// directory and ends in `.gguf`.
pub fn deletion_allowed(path: &str, models_dir: &str, style: PathStyle) -> (allowed: bool)
    ensures
        allowed == deletion_allowed_spec(path@, models_dir@, style),
{
    let (absolute, current, parts) = components_of(path, style);
    let (dir_absolute, dir_current, dir_parts) = components_of(models_dir, style);
    let parent_matches = if parts.len() > 0 {
        absolute == dir_absolute && current == dir_current && same_components(&parts, &dir_parts, parts.len() - 1)
    } else if current {
        absolute == dir_absolute && !dir_current && dir_parts.len() == 0
    } else {
        false
    };
    proof {
        let c = components(path@, style);
        let d = components(models_dir@, style);
        if parts@.len() > 0 {
            assert(pieces(parts@).take(parts@.len() - 1) =~= c.2.drop_last());
        } else if current {
            assert(pieces(dir_parts@).len() == 0 ==> d.2 =~= c.2);
        }
    }
    parent_matches && crate::llama::validate_model(path, true, style).is_ok()
}

} // verus!
