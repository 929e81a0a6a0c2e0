//! Release versions, the release asset for this platform, and the decisions
//! of the self-update.
use std::io::Read;
use vstd::prelude::*;

use crate::text::{
    chars_of, contains, ends_with, has_infix, is_digit, parse_u64, parse_u64_spec, same_text, split, split_on, string_from_chars,
    trim, trimmed,
};

verus! {

/// A newer release than the one running.
#[derive(Debug, PartialEq, Eq)]
pub struct UpdateInfo {
    pub current_version: String,
    pub latest_version: String,
    pub html_url: String,
    pub download_url: Option<String>,
}

/// One downloadable file of a release.
#[derive(Debug)]
pub struct GitHubAsset {
    pub name: String,
    pub browser_download_url: String,
}

/// The latest release as the release API describes it.
#[derive(Debug)]
pub struct GitHubRelease {
    pub tag_name: String,
    pub html_url: String,
    pub assets: Vec<GitHubAsset>,
}

/// `s` without leading `v` and `V` characters.
pub open spec fn without_v(s: Seq<char>) -> Seq<char>
    decreases s.len(),
{
    if s.len() > 0 && (s[0] == 'v' || s[0] == 'V') {
        without_v(s.drop_first())
    } else {
        s
    }
}

/// The run of ASCII digits at the start of `s`.
pub open spec fn leading_digits(s: Seq<char>) -> Seq<char>
    decreases s.len(),
{
    if s.len() > 0 && is_digit(s[0]) {
        seq![s[0]] + leading_digits(s.drop_first())
    } else {
        Seq::empty()
    }
}

/// `(major, minor, patch)` of a version such as `v1.20.3-beta`: surrounding
/// whitespace and leading `v`/`V` are dropped, the text is split at `.`,
/// and the first three pieces are read, the third up to its first
/// non-digit.
pub open spec fn semver_spec(version: Seq<char>) -> Option<(u64, u64, u64)> {
    let parts = split_on(without_v(trim(version)), seq!['.']);
    if parts.len() < 3 {
        None
    } else {
        match (
            parse_u64_spec(parts[0]),
            parse_u64_spec(parts[1]),
            parse_u64_spec(leading_digits(parts[2])),
        ) {
            (Some(major), Some(minor), Some(patch)) => Some((major, minor, patch)),
            _ => None,
        }
    }
}

/// Lexicographic order of version triples.
pub open spec fn later(a: (u64, u64, u64), b: (u64, u64, u64)) -> bool {
    a.0 > b.0 || (a.0 == b.0 && (a.1 > b.1 || (a.1 == b.1 && a.2 > b.2)))
}

/// Both versions read, and the first is later.
pub open spec fn newer_spec(remote: Seq<char>, current: Seq<char>) -> bool {
    match (semver_spec(remote), semver_spec(current)) {
        (Some(r), Some(c)) => later(r, c),
        _ => false,
    }
}

proof fn lemma_leading_digits(s: Seq<char>, j: int)
    requires
        0 <= j <= s.len(),
        forall|m: int| 0 <= m < j ==> is_digit(#[trigger] s[m]),
        j == s.len() || !is_digit(s[j]),
    ensures
        leading_digits(s) == s.take(j),
    decreases j,
{
    if j == 0 {
        assert(s.take(0) =~= Seq::<char>::empty());
    } else {
        let t = s.drop_first();
        assert forall|m: int| 0 <= m < j - 1 implies is_digit(#[trigger] t[m]) by {
            assert(t[m] == s[m + 1]);
        }
        lemma_leading_digits(t, j - 1);
        assert(seq![s[0]] + t.take(j - 1) =~= s.take(j));
    }
}

fn without_v_chars(s: &[char]) -> (out: Vec<char>)
    ensures
        out@ == without_v(s@),
{
    let mut a: usize = 0;
    proof {
        assert(s@.subrange(0, s@.len() as int) =~= s@);
    }
    while a < s.len() && (s[a] == 'v' || s[a] == 'V')
        invariant
            a <= s@.len(),
            without_v(s@) == without_v(s@.subrange(a as int, s@.len() as int)),
        decreases s@.len() - a,
    {
        proof {
            assert(s@.subrange(a as int, s@.len() as int).drop_first() =~= s@.subrange(a + 1, s@.len() as int));
        }
        a += 1;
    }
    crate::text::slice_chars(s, a, s.len())
}

fn leading_digit_chars(s: &[char]) -> (out: Vec<char>)
    ensures
        out@ == leading_digits(s@),
{
    let mut j: usize = 0;
    while j < s.len() && '0' <= s[j] && s[j] <= '9'
        invariant
            j <= s@.len(),
            forall|m: int| 0 <= m < j ==> is_digit(#[trigger] s@[m]),
        decreases s@.len() - j,
    {
        j += 1;
    }
    proof {
        lemma_leading_digits(s@, j as int);
        assert(s@.subrange(0, j as int) =~= s@.take(j as int));
    }
    crate::text::slice_chars(s, 0, j)
}

/// Parses semantic version numbers into `(major, minor, patch)`.
pub fn parse_semver(version_str: &str) -> (v: Option<(u64, u64, u64)>)
    ensures
        v == semver_spec(version_str@),
{
    let clean = without_v_chars(&trimmed(&chars_of(version_str)));
    let dot: [char; 1] = ['.'];
    proof {
        assert(dot@ =~= seq!['.']);
    }
    let parts = split(&clean, &dot);
    proof {
        assert(crate::text::pieces(parts@).len() == parts@.len());
    }
    if parts.len() < 3 {
        return None;
    }
    proof {
        assert(crate::text::pieces(parts@)[0] == parts@[0]@);
        assert(crate::text::pieces(parts@)[1] == parts@[1]@);
        assert(crate::text::pieces(parts@)[2] == parts@[2]@);
    }
    let major = match parse_u64(&parts[0]) {
        Some(v) => v,
        None => return None,
    };
    let minor = match parse_u64(&parts[1]) {
        Some(v) => v,
        None => return None,
    };
    let patch = match parse_u64(&leading_digit_chars(&parts[2])) {
        Some(v) => v,
        None => return None,
    };
    Some((major, minor, patch))
}

/// Whether the remote version is strictly newer than the current one; a
/// version that cannot be read is never newer.
pub fn is_newer(remote: &str, current: &str) -> (newer: bool)
    ensures
        newer == newer_spec(remote@, current@),
{
    match (parse_semver(remote), parse_semver(current)) {
        (Some(r), Some(c)) => r.0 > c.0 || (r.0 == c.0 && (r.1 > c.1 || (r.1 == c.1 && r.2 > c.2))),
        _ => false,
    }
}

/// No version is newer than itself.
pub proof fn lemma_not_newer_than_itself(version: Seq<char>)
    ensures
        !newer_spec(version, version),
{
}

/// Of two versions, at most one is newer than the other.
pub proof fn lemma_newer_asymmetric(a: Seq<char>, b: Seq<char>)
    ensures
        !(newer_spec(a, b) && newer_spec(b, a)),
{
}

/// Newer than a version that is newer than a third is newer than the third.
pub proof fn lemma_newer_transitive(a: Seq<char>, b: Seq<char>, c: Seq<char>)
    requires
        newer_spec(a, b),
        newer_spec(b, c),
    ensures
        newer_spec(a, c),
{
}

proof fn lemma_trim_end_after(x: Seq<char>, t: Seq<char>)
    requires
        x.len() > 0,
        !crate::text::is_space(x.last()),
    ensures
        crate::text::trim_end(x + t) == x + crate::text::trim_end(t),
    decreases t.len(),
{
    if t.len() == 0 {
        assert(x + t =~= x);
        assert(x + crate::text::trim_end(t) =~= x);
    } else {
        assert((x + t).last() == t.last());
        if crate::text::is_space(t.last()) {
            assert((x + t).drop_last() =~= x + t.drop_last());
            lemma_trim_end_after(x, t.drop_last());
        }
    }
}

proof fn lemma_trim_end_prefix(t: Seq<char>)
    ensures
        crate::text::trim_end(t).len() <= t.len(),
        crate::text::trim_end(t) =~= t.take(crate::text::trim_end(t).len() as int),
    decreases t.len(),
{
    if t.len() > 0 && crate::text::is_space(t.last()) {
        lemma_trim_end_prefix(t.drop_last());
    } else {
        assert(t.take(t.len() as int) =~= t);
    }
}

proof fn lemma_split_at_dot(x: Seq<char>, y: Seq<char>)
    requires
        crate::text::all_digits(x),
    ensures
        split_on(x + seq!['.'] + y, seq!['.']) == seq![x] + split_on(y, seq!['.']),
{
    let z = x + seq!['.'] + y;
    assert forall|m: int| 0 <= m < x.len() implies !seq!['.'].contains(#[trigger] z[m]) by {
        assert(z[m] == x[m]);
        assert(is_digit(x[m]));
        if seq!['.'].contains(z[m]) {
            assert(seq!['.'][0] == z[m]);
        }
    }
    assert(z[x.len() as int] == '.');
    assert(seq!['.'].contains(z[x.len() as int])) by {
        assert(seq!['.'][0] == '.');
    }
    crate::text::lemma_first_in(z, seq!['.'], x.len() as int);
    assert(z.take(x.len() as int) =~= x);
    assert(z.skip(x.len() as int + 1) =~= y);
}

/// A version written as an optional `v` or `V`, then major, minor and patch
/// in decimal joined by `.`, then text that does not start with a digit,
/// reads back as those three numbers.
pub proof fn lemma_formatted_version_parses(prefix: Seq<char>, major: u64, minor: u64, patch: u64, suffix: Seq<char>)
    requires
        prefix == Seq::<char>::empty() || prefix == seq!['v'] || prefix == seq!['V'],
        suffix.len() == 0 || !is_digit(suffix[0]),
    ensures
        semver_spec(
            prefix + crate::text::decimal(major as nat) + seq!['.'] + crate::text::decimal(minor as nat) + seq!['.']
                + crate::text::decimal(patch as nat) + suffix,
        ) == Some((major, minor, patch)),
{
    let da = crate::text::decimal(major as nat);
    let db = crate::text::decimal(minor as nat);
    let dc = crate::text::decimal(patch as nat);
    crate::text::lemma_decimal_parses(major as nat);
    crate::text::lemma_decimal_parses(minor as nat);
    crate::text::lemma_decimal_parses(patch as nat);
    let version = prefix + da + seq!['.'] + db + seq!['.'] + dc + suffix;
    let numbers = da + seq!['.'] + db + seq!['.'] + dc;
    assert(version =~= prefix + numbers + suffix);
    assert(numbers.last() == dc.last());
    assert(is_digit(dc[dc.len() - 1]));
    // Leading whitespace: the version starts with `v`, `V` or a digit.
    assert(is_digit(da[0]));
    assert(version[0] == (if prefix.len() == 0 { da[0] } else { prefix[0] }));
    assert(!crate::text::is_space(version[0]));
    assert(crate::text::trim_start(version) == version);
    // Trailing whitespace only leaves the suffix.
    let head = prefix + numbers;
    assert(head.last() == numbers.last());
    lemma_trim_end_after(head, suffix);
    let t = crate::text::trim_end(suffix);
    assert(trim(version) == head + t);
    lemma_trim_end_prefix(suffix);
    let core = numbers + t;
    assert(core[0] == da[0]);
    assert(head + t =~= prefix + core);
    if prefix.len() == 1 {
        assert((prefix + core).drop_first() =~= core);
    } else {
        assert(prefix + core =~= core);
    }
    assert(without_v(core) == core);
    assert(without_v(trim(version)) == core);
    // Splitting at `.`.
    let rest = dc + t;
    assert(core =~= da + seq!['.'] + (db + seq!['.'] + rest));
    lemma_split_at_dot(da, db + seq!['.'] + rest);
    lemma_split_at_dot(db, rest);
    let parts = split_on(core, seq!['.']);
    assert(parts =~= seq![da] + (seq![db] + split_on(rest, seq!['.'])));
    crate::text::lemma_split_nonempty(rest, seq!['.']);
    assert(parts.len() >= 3);
    assert(parts[0] == da);
    assert(parts[1] == db);
    assert(parts[2] == split_on(rest, seq!['.'])[0]);
    // The third piece starts with the patch number, then a non-digit or nothing.
    let f = crate::text::first_in(rest, seq!['.']);
    crate::text::lemma_first_in_bounds(rest, seq!['.']);
    assert(f >= dc.len()) by {
        if f < dc.len() {
            assert(rest[f] == dc[f]);
            assert(is_digit(dc[f]));
            assert(seq!['.'].contains(rest[f]));
            assert(seq!['.'][0] == rest[f]);
        }
    }
    let piece = split_on(rest, seq!['.'])[0];
    assert(piece == rest.take(f));
    assert forall|m: int| 0 <= m < dc.len() implies is_digit(#[trigger] piece[m]) by {
        assert(piece[m] == dc[m]);
    }
    if dc.len() < piece.len() {
        assert(piece[dc.len() as int] == t[0]);
        assert(t[0] == suffix[0]);
    }
    lemma_leading_digits(piece, dc.len() as int);
    assert(piece.take(dc.len() as int) =~= dc);
}

/// The release asset name of a platform, given as `std::env::consts::OS`
/// and `ARCH` give it.
pub open spec fn asset_name_spec(os: Seq<char>, arch: Seq<char>) -> Seq<char> {
    if os == seq!['m', 'a', 'c', 'o', 's'] && arch == seq!['a', 'a', 'r', 'c', 'h', '6', '4'] {
        "bution-macos-arm64"@
    } else if os == seq!['m', 'a', 'c', 'o', 's'] && arch == seq!['x', '8', '6', '_', '6', '4'] {
        "bution-macos-x64"@
    } else if os == seq!['w', 'i', 'n', 'd', 'o', 'w', 's'] {
        "bution-windows-x64"@
    } else {
        "bution"@
    }
}

/// Target asset name for an operating system and architecture.
pub fn target_asset_name(os: &str, arch: &str) -> (name: &'static str)
    ensures
        name@ == asset_name_spec(os@, arch@),
        name@.len() > 0,
{
    proof {
        reveal_strlit("macos");
        reveal_strlit("aarch64");
        reveal_strlit("x86_64");
        reveal_strlit("windows");
        reveal_strlit("bution-macos-arm64");
        reveal_strlit("bution-macos-x64");
        reveal_strlit("bution-windows-x64");
        reveal_strlit("bution");
        assert("macos"@ =~= seq!['m', 'a', 'c', 'o', 's']);
        assert("aarch64"@ =~= seq!['a', 'a', 'r', 'c', 'h', '6', '4']);
        assert("x86_64"@ =~= seq!['x', '8', '6', '_', '6', '4']);
        assert("windows"@ =~= seq!['w', 'i', 'n', 'd', 'o', 'w', 's']);
    }
    let macos = same_text(os, "macos");
    if macos && same_text(arch, "aarch64") {
        "bution-macos-arm64"
    } else if macos && same_text(arch, "x86_64") {
        "bution-macos-x64"
    } else if same_text(os, "windows") {
        "bution-windows-x64"
    } else {
        "bution"
    }
}

/// The download address of the first asset whose name contains `expected`.
pub open spec fn matching_asset(assets: Seq<GitHubAsset>, expected: Seq<char>) -> Option<String>
    decreases assets.len(),
{
    if assets.len() == 0 {
        None
    } else if has_infix(assets[0].name@, expected) {
        Some(assets[0].browser_download_url)
    } else {
        matching_asset(assets.drop_first(), expected)
    }
}

fn asset_url(assets: &Vec<GitHubAsset>, expected_asset: &str) -> (url: Option<String>)
    ensures
        url == matching_asset(assets@, expected_asset@),
{
    let expected = chars_of(expected_asset);
    let mut i: usize = 0;
    proof {
        assert(assets@.skip(0) =~= assets@);
    }
    while i < assets.len()
        invariant
            i <= assets@.len(),
            expected@ == expected_asset@,
            matching_asset(assets@, expected_asset@) == matching_asset(assets@.skip(i as int), expected_asset@),
        decreases assets@.len() - i,
    {
        let asset = &assets[i];
        proof {
            assert(assets@.skip(i as int)[0] == assets@[i as int]);
            assert(assets@.skip(i as int).drop_first() =~= assets@.skip(i + 1));
        }
        if contains(&chars_of(asset.name.as_str()), &expected) {
            return Some(asset.browser_download_url.clone());
        }
        i += 1;
    }
    None
}

/// The update a release offers: present only when its tag is newer than
/// `current_version`, with the asset for this platform when there is one.
pub fn release_update(release: GitHubRelease, current_version: &str, expected_asset: &str) -> (info: Option<
    UpdateInfo,
>)
    ensures
        info is Some <==> newer_spec(release.tag_name@, current_version@),
        info matches Some(u) ==> u.current_version@ == current_version@ && u.latest_version == release.tag_name
            && u.html_url == release.html_url && u.download_url == matching_asset(
            release.assets@,
            expected_asset@,
        ),
{
    if !is_newer(release.tag_name.as_str(), current_version) {
        return None;
    }
    let download_url = asset_url(&release.assets, expected_asset);
    let current = current_version.to_owned();
    Some(
        UpdateInfo {
            current_version: current,
            latest_version: release.tag_name,
            html_url: release.html_url,
            download_url,
        },
    )
}

/// Why no executable came out of a downloaded release asset.
#[derive(Debug, Clone, Copy, PartialEq, Eq, Structural)]
pub enum ArchiveError {
    /// The archive, or one of its entries, could not be read.
    Unreadable,
    /// The zip archive holds no BUTION executable.
    NoBinaryInZip,
    /// The tar archive holds no BUTION executable.
    NoBinaryInTar,
}

/// How a release asset is packed, by the end of its address.
#[derive(Debug, Clone, Copy, PartialEq, Eq, Structural)]
pub enum ArchiveKind {
    Zip,
    TarGz,
    Plain,
}

pub open spec fn archive_kind_spec(url: Seq<char>) -> ArchiveKind {
    if ".zip"@.is_suffix_of(url) {
        ArchiveKind::Zip
    } else if ".tar.gz"@.is_suffix_of(url) || ".tgz"@.is_suffix_of(url) {
        ArchiveKind::TarGz
    } else {
        ArchiveKind::Plain
    }
}

/// How the asset at `url` is packed: `.zip`, `.tar.gz` or `.tgz`, else a
/// bare executable.
pub fn archive_kind(url: &str) -> (kind: ArchiveKind)
    ensures
        kind == archive_kind_spec(url@),
{
    let chars = chars_of(url);
    let zip = chars_of(".zip");
    let tar_gz = chars_of(".tar.gz");
    let tgz = chars_of(".tgz");
    if ends_with(&chars, &zip) {
        ArchiveKind::Zip
    } else if ends_with(&chars, &tar_gz) || ends_with(&chars, &tgz) {
        ArchiveKind::TarGz
    } else {
        ArchiveKind::Plain
    }
}

/// The executable's entry in a zip asset.
pub open spec fn zip_binary_name(name: Seq<char>) -> bool {
    "bution.exe"@.is_suffix_of(name) || "bution-real.exe"@.is_suffix_of(name) || name == "bution"@
}

/// The executable's entry in a tar asset.
pub open spec fn tar_binary_path(path: Seq<char>) -> bool {
    "bution"@.is_suffix_of(path) || "bution.exe"@.is_suffix_of(path)
}

pub open spec fn is_binary_entry(kind: ArchiveKind, name: Seq<char>) -> bool {
    if kind == ArchiveKind::Zip {
        zip_binary_name(name)
    } else {
        tar_binary_path(name)
    }
}

/// The index of the first entry of `names` that is the executable.
pub open spec fn first_binary(kind: ArchiveKind, names: Seq<Seq<char>>) -> Option<int>
    decreases names.len(),
{
    if names.len() == 0 {
        None
    } else {
        match first_binary(kind, names.drop_last()) {
            Some(i) => Some(i),
            None => if is_binary_entry(kind, names.last()) {
                Some(names.len() - 1)
            } else {
                None
            },
        }
    }
}

proof fn lemma_first_binary_extends(kind: ArchiveKind, names: Seq<Seq<char>>, k: int)
    requires
        0 <= k <= names.len(),
        first_binary(kind, names.take(k)) is Some,
    ensures
        first_binary(kind, names) == first_binary(kind, names.take(k)),
    decreases names.len() - k,
{
    if k < names.len() {
        assert(names.take(k + 1).drop_last() =~= names.take(k));
        lemma_first_binary_extends(kind, names, k + 1);
    } else {
        assert(names.take(k) =~= names);
    }
}

/// Which entry of an archive holds the executable, given the names read
/// before the first unreadable entry (`failed` tells whether there was
/// one): the first executable name; else the archive is unreadable if an
/// entry failed, and holds no executable otherwise.
pub fn choose_entry(kind: ArchiveKind, names: &Vec<String>, failed: bool) -> (r: Result<usize, ArchiveError>)
    requires
        kind != ArchiveKind::Plain,
    ensures
        match first_binary(kind, names@.map_values(|n: String| n@)) {
            Some(i) => r == Ok::<usize, ArchiveError>(i as usize),
            None => r == Err::<usize, ArchiveError>(
                if failed {
                    ArchiveError::Unreadable
                } else if kind == ArchiveKind::Zip {
                    ArchiveError::NoBinaryInZip
                } else {
                    ArchiveError::NoBinaryInTar
                },
            ),
        },
        r matches Ok(i) ==> first_binary(kind, names@.map_values(|n: String| n@)) == Some(i as int),
{
    let ghost all = names@.map_values(|n: String| n@);
    let exe = chars_of("bution.exe");
    let renamed = chars_of("bution-real.exe");
    let bare = chars_of("bution");
    for i in 0..names.len()
        invariant
            all == names@.map_values(|n: String| n@),
            exe@ == "bution.exe"@,
            renamed@ == "bution-real.exe"@,
            bare@ == "bution"@,
            first_binary(kind, all.take(i as int)) is None,
    {
        let name = chars_of(names[i].as_str());
        let hit = if kind == ArchiveKind::Zip {
            ends_with(&name, &exe) || ends_with(&name, &renamed) || same_text(names[i].as_str(), "bution")
        } else {
            ends_with(&name, &bare) || ends_with(&name, &exe)
        };
        proof {
            assert(all.take(i + 1).drop_last() =~= all.take(i as int));
            assert(all.take(i + 1).last() == names@[i as int]@);
        }
        if hit {
            proof {
                assert(first_binary(kind, all.take(i + 1)) == Some(i as int));
                lemma_first_binary_extends(kind, all, i + 1);
            }
            return Ok(i);
        }
    }
    proof {
        assert(all.take(names@.len() as int) =~= all);
    }
    if failed {
        Err(ArchiveError::Unreadable)
    } else if kind == ArchiveKind::Zip {
        Err(ArchiveError::NoBinaryInZip)
    } else {
        Err(ArchiveError::NoBinaryInTar)
    }
}

/// What the `zip` crate reads from `bytes`: nothing when it is no zip
/// archive; else the names of the entries, in the order of the archive,
/// up to the first entry it cannot open, and whether there was one.
pub uninterp spec fn zip_listing(bytes: Seq<u8>) -> Option<(Seq<Seq<char>>, bool)>;

/// The decompressed contents of entry `index` of the zip archive `bytes`.
pub uninterp spec fn zip_contents(bytes: Seq<u8>, index: nat) -> Option<Seq<u8>>;

/// What `flate2` and `tar` read from a gzip-compressed tar archive: the
/// paths of its entries up to the first it cannot read, and whether there
/// was one.
pub uninterp spec fn tar_gz_listing(bytes: Seq<u8>) -> (Seq<Seq<char>>, bool);

/// The contents of entry `index` of the gzip-compressed tar archive `bytes`.
pub uninterp spec fn tar_gz_contents(bytes: Seq<u8>, index: nat) -> Option<Seq<u8>>;

/// Lists a zip archive with `zip::ZipArchive::new`, `len`, `by_index` and
/// `ZipFile::name`; the contract names the result and claims nothing else.
#[verifier::external_body]
fn zip_names(bytes: &[u8]) -> (r: Option<(Vec<String>, bool)>)
    ensures
        r matches Some(l) ==> zip_listing(bytes@) == Some((l.0@.map_values(|n: String| n@), l.1)),
        r is None ==> zip_listing(bytes@) is None,
{
    let mut archive = zip::ZipArchive::new(std::io::Cursor::new(bytes)).ok()?;
    let mut names = Vec::new();
    for i in 0..archive.len() {
        match archive.by_index(i) {
            Ok(file) => names.push(file.name().to_string()),
            Err(_) => return Some((names, true)),
        }
    }
    Some((names, false))
}

/// Reads one entry with `zip::ZipArchive::by_index` and `read_to_end`; the
/// contract names the result.
#[verifier::external_body]
fn zip_entry(bytes: &[u8], index: usize) -> (r: Option<Vec<u8>>)
    ensures
        r matches Some(v) ==> zip_contents(bytes@, index as nat) == Some(v@),
        r is None ==> zip_contents(bytes@, index as nat) is None,
{
    let mut archive = zip::ZipArchive::new(std::io::Cursor::new(bytes)).ok()?;
    let mut file = archive.by_index(index).ok()?;
    let mut buffer = Vec::new();
    file.read_to_end(&mut buffer).ok()?;
    Some(buffer)
}

/// Lists a gzip-compressed tar archive with `flate2::read::GzDecoder`,
/// `tar::Archive::entries` and `Entry::path` (as lossy UTF-8); the contract
/// names the result.
#[verifier::external_body]
fn tar_gz_paths(bytes: &[u8]) -> (r: (Vec<String>, bool))
    ensures
        tar_gz_listing(bytes@) == (r.0@.map_values(|p: String| p@), r.1),
{
    let mut archive = tar::Archive::new(flate2::read::GzDecoder::new(bytes));
    let mut paths = Vec::new();
    let entries = match archive.entries() {
        Ok(entries) => entries,
        Err(_) => return (paths, true),
    };
    for entry in entries {
        match entry.and_then(|e| e.path().map(|p| p.to_string_lossy().to_string())) {
            Ok(path) => paths.push(path),
            Err(_) => return (paths, true),
        }
    }
    (paths, false)
}

/// Reads entry `index` of a gzip-compressed tar archive with `flate2` and
/// `tar`; the contract names the result.
#[verifier::external_body]
fn tar_gz_entry(bytes: &[u8], index: usize) -> (r: Option<Vec<u8>>)
    ensures
        r matches Some(v) ==> tar_gz_contents(bytes@, index as nat) == Some(v@),
        r is None ==> tar_gz_contents(bytes@, index as nat) is None,
{
    let mut archive = tar::Archive::new(flate2::read::GzDecoder::new(bytes));
    let mut entry = archive.entries().ok()?.nth(index)?.ok()?;
    let mut buffer = Vec::new();
    entry.read_to_end(&mut buffer).ok()?;
    Some(buffer)
}

/// The executable in a downloaded asset: a zip or tar.gz archive is
/// searched for it, anything else is the executable itself.
pub fn extract_binary(url: &str, bytes: Vec<u8>) -> (r: Result<Vec<u8>, ArchiveError>)
    ensures
        archive_kind_spec(url@) == ArchiveKind::Plain ==> r == Ok::<Vec<u8>, ArchiveError>(bytes),
        archive_kind_spec(url@) == ArchiveKind::Zip ==> match zip_listing(bytes@) {
            None => r == Err::<Vec<u8>, ArchiveError>(ArchiveError::Unreadable),
            Some(l) => match first_binary(ArchiveKind::Zip, l.0) {
                Some(i) => match zip_contents(bytes@, i as nat) {
                    Some(data) => r matches Ok(v) && v@ == data,
                    None => r == Err::<Vec<u8>, ArchiveError>(ArchiveError::Unreadable),
                },
                None => r == Err::<Vec<u8>, ArchiveError>(
                    if l.1 {
                        ArchiveError::Unreadable
                    } else {
                        ArchiveError::NoBinaryInZip
                    },
                ),
            },
        },
        archive_kind_spec(url@) == ArchiveKind::TarGz ==> ({
            let l = tar_gz_listing(bytes@);
            match first_binary(ArchiveKind::TarGz, l.0) {
                Some(i) => match tar_gz_contents(bytes@, i as nat) {
                    Some(data) => r matches Ok(v) && v@ == data,
                    None => r == Err::<Vec<u8>, ArchiveError>(ArchiveError::Unreadable),
                },
                None => r == Err::<Vec<u8>, ArchiveError>(
                    if l.1 {
                        ArchiveError::Unreadable
                    } else {
                        ArchiveError::NoBinaryInTar
                    },
                ),
            }
        }),
{
    match archive_kind(url) {
        ArchiveKind::Plain => Ok(bytes),
        ArchiveKind::Zip => {
            let (names, failed) = match zip_names(&bytes) {
                Some(l) => l,
                None => return Err(ArchiveError::Unreadable),
            };
            let i = match choose_entry(ArchiveKind::Zip, &names, failed) {
                Ok(i) => i,
                Err(e) => return Err(e),
            };
            match zip_entry(&bytes, i) {
                Some(data) => Ok(data),
                None => Err(ArchiveError::Unreadable),
            }
        },
        ArchiveKind::TarGz => {
            let (paths, failed) = tar_gz_paths(&bytes);
            let i = match choose_entry(ArchiveKind::TarGz, &paths, failed) {
                Ok(i) => i,
                Err(e) => return Err(e),
            };
            match tar_gz_entry(&bytes, i) {
                Some(data) => Ok(data),
                None => Err(ArchiveError::Unreadable),
            }
        },
    }
}

/// The flag that keeps a restarted process from checking again.
pub open spec fn no_update_check_flag() -> Seq<char> {
    "--no-update-check"@
}

/// The arguments a freshly updated binary is restarted with: the same
/// ones, with `--no-update-check` added unless already present.
pub fn restart_arguments(args: Vec<String>) -> (out: Vec<String>)
    ensures
        (exists|i: int| 0 <= i < args@.len() && #[trigger] args@[i]@ == no_update_check_flag()) ==> out@ == args@,
        !(exists|i: int| 0 <= i < args@.len() && #[trigger] args@[i]@ == no_update_check_flag()) ==> out@.len()
            == args@.len() + 1 && out@.take(args@.len() as int) == args@ && out@.last()@ == no_update_check_flag(),
{
    let mut found = false;
    for i in 0..args.len()
        invariant
            found == exists|k: int| 0 <= k < i && #[trigger] args@[k]@ == no_update_check_flag(),
    {
        if same_text(args[i].as_str(), "--no-update-check") {
            found = true;
        }
    }
    if found {
        return args;
    }
    let mut out = args;
    let ghost before = out@;
    out.push("--no-update-check".to_owned());
    proof {
        assert(out@.take(before.len() as int) =~= before);
    }
    out
}

} // verus!
