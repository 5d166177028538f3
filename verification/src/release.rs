//! Official Godot releases: which tags are stable releases and which asset of
//! a release is the standard Linux editor for an architecture.
use vstd::prelude::*;
use crate::json::{decode_string_list, encode_string_list, json_pretty_list, json_string_list};
use crate::text::{
    char_is_ascii_alphanumeric, chars_contain, chars_ends_with, contains_text, ends_with,
    is_ascii_alphanumeric, to_chars,
};

verus! {

broadcast use vstd::string::group_string_axioms;

/// A downloadable Godot editor build.
#[derive(Debug, Clone, PartialEq, Eq)]
pub struct ReleaseAsset {
    /// The release tag, such as `4.7.1-stable`.
    pub version: String,
    pub url: String,
    pub filename: String,
}

/// Why no release or asset could be used.
#[derive(Debug, Clone, Copy, PartialEq, Eq)]
pub enum ReleaseError {
    /// The version is not an official stable tag.
    NotStableTag,
    /// No official build exists for the architecture.
    UnsupportedArchitecture,
    /// The release has no standard Linux editor for the architecture.
    NoLinuxBuild,
    /// The catalogue listed no stable release.
    NoStableReleases,
    /// The cached release list is not a JSON array of strings.
    MalformedCache,
}

/// An exact official stable tag: ends with `-stable` and holds only ASCII
/// letters, digits, `.` and `-`.
pub open spec fn is_stable_tag(version: Seq<char>) -> bool {
    &&& ends_with(version, "-stable"@)
    &&& forall|i: int|
        0 <= i < version.len() ==> is_ascii_alphanumeric(#[trigger] version[i]) || version[i]
            == '.' || version[i] == '-'
}

/// Whether `version` is an exact official stable tag such as `4.7.1-stable`.
pub fn stable_tag(version: &str) -> (r: bool)
    ensures
        r == is_stable_tag(version@),
{
    let chars = to_chars(version);
    let suffix = to_chars("-stable");
    if !chars_ends_with(&chars, &suffix) {
        return false;
    }
    let mut i: usize = 0;
    while i < chars.len()
        invariant
            i <= chars.len(),
            chars@ == version@,
            forall|k: int|
                0 <= k < i ==> is_ascii_alphanumeric(#[trigger] chars@[k]) || chars@[k] == '.'
                    || chars@[k] == '-',
        decreases chars.len() - i,
    {
        let c = chars[i];
        if !(char_is_ascii_alphanumeric(c) || c == '.' || c == '-') {
            return false;
        }
        i += 1;
    }
    true
}

/// Rejects anything but an exact official stable tag.
pub fn check_stable_tag(version: &str) -> (r: Result<(), ReleaseError>)
    ensures
        r is Ok <==> is_stable_tag(version@),
        r is Err ==> r == Err::<(), ReleaseError>(ReleaseError::NotStableTag),
{
    if stable_tag(version) {
        Ok(())
    } else {
        Err(ReleaseError::NotStableTag)
    }
}

/// `str::to_ascii_lowercase`: ASCII capitals lowered, everything else kept.
pub open spec fn ascii_lower(c: char) -> char {
    if 'A' <= c <= 'Z' {
        (((c as u8) + 32) as u8) as char
    } else {
        c
    }
}

pub open spec fn ascii_lowercase(s: Seq<char>) -> Seq<char> {
    s.map_values(|c: char| ascii_lower(c))
}

pub fn to_ascii_lowercase(s: &[char]) -> (r: Vec<char>)
    ensures
        r@ == ascii_lowercase(s@),
{
    let mut out: Vec<char> = Vec::new();
    let mut i: usize = 0;
    while i < s.len()
        invariant
            i <= s.len(),
            out@ == ascii_lowercase(s@.take(i as int)),
        decreases s.len() - i,
    {
        let c = s[i];
        let l = if 'A' <= c && c <= 'Z' {
            ((c as u8) + 32) as char
        } else {
            c
        };
        out.push(l);
        assert(ascii_lowercase(s@.take(i + 1)) =~= ascii_lowercase(s@.take(i as int)).push(
            ascii_lower(c),
        ));
        i += 1;
    }
    assert(s@.take(s.len() as int) =~= s@);
    out
}

/// A named, downloadable file of a release.
#[derive(Debug, Clone, PartialEq, Eq)]
pub struct AssetEntry {
    pub name: String,
    pub url: String,
}

/// The archive name endings of the standard Linux editor for an
/// architecture.
pub open spec fn editor_suffixes(arch: Seq<char>) -> Option<Seq<Seq<char>>> {
    if arch == "x86_64"@ {
        Some(seq!["_linux.x86_64.zip"@, "_x11.64.zip"@])
    } else if arch == "aarch64"@ {
        Some(seq!["_linux.arm64.zip"@, "_linux.aarch64.zip"@])
    } else {
        None
    }
}

/// A standard (not Mono) editor archive for one of the suffixes.
pub open spec fn is_standard_editor(name: Seq<char>, suffixes: Seq<Seq<char>>) -> bool {
    &&& exists|k: int| 0 <= k < suffixes.len() && ends_with(name, #[trigger] suffixes[k])
    &&& !contains_text(ascii_lowercase(name), "mono"@)
}

/// The first asset of the release that is a standard editor for `arch`.
pub open spec fn chosen_asset(
    version: Seq<char>,
    arch: Seq<char>,
    assets: Seq<(Seq<char>, Seq<char>)>,
) -> Result<(Seq<char>, Seq<char>, Seq<char>), ReleaseError> {
    match editor_suffixes(arch) {
        None => Err(ReleaseError::UnsupportedArchitecture),
        Some(suffixes) => if exists|i: int|
            0 <= i < assets.len() && is_standard_editor(#[trigger] assets[i].0, suffixes) {
            let i = choose|i: int|
                0 <= i < assets.len() && is_standard_editor(#[trigger] assets[i].0, suffixes)
                    && forall|k: int| 0 <= k < i ==> !is_standard_editor(#[trigger] assets[k].0, suffixes);
            Ok((version, assets[i].1, assets[i].0))
        } else {
            Err(ReleaseError::NoLinuxBuild)
        },
    }
}

pub open spec fn entry_view(a: AssetEntry) -> (Seq<char>, Seq<char>) {
    (a.name@, a.url@)
}

fn suffix_list(arch: &str) -> (r: Option<Vec<Vec<char>>>)
    ensures
        match editor_suffixes(arch@) {
            Some(s) => r matches Some(v) && v@.map_values(|x: Vec<char>| x@) == s,
            None => r is None,
        },
{
    let a = arch.to_string();
    let mut v: Vec<Vec<char>> = Vec::new();
    if a == "x86_64".to_string() {
        v.push(to_chars("_linux.x86_64.zip"));
        v.push(to_chars("_x11.64.zip"));
    } else if a == "aarch64".to_string() {
        v.push(to_chars("_linux.arm64.zip"));
        v.push(to_chars("_linux.aarch64.zip"));
    } else {
        return None;
    }
    let ghost s = v@.map_values(|x: Vec<char>| x@);
    assert(s =~= editor_suffixes(arch@).unwrap());
    Some(v)
}

fn standard_editor(name: &str, suffixes: &Vec<Vec<char>>) -> (r: bool)
    ensures
        r == is_standard_editor(name@, suffixes@.map_values(|x: Vec<char>| x@)),
{
    let ghost sv = suffixes@.map_values(|x: Vec<char>| x@);
    let chars = to_chars(name);
    let mut found = false;
    let mut k: usize = 0;
    while k < suffixes.len()
        invariant
            k <= suffixes.len(),
            chars@ == name@,
            sv == suffixes@.map_values(|x: Vec<char>| x@),
            found == exists|m: int| 0 <= m < k && ends_with(name@, #[trigger] sv[m]),
        decreases suffixes.len() - k,
    {
        assert(sv[k as int] == suffixes@[k as int]@);
        if chars_ends_with(&chars, &suffixes[k]) {
            found = true;
        }
        k += 1;
    }
    if !found {
        return false;
    }
    let lower = to_ascii_lowercase(&chars);
    let mono = to_chars("mono");
    !chars_contain(&lower, &mono)
}

/// The standard Linux editor of a release for `arch`, from the release's
/// assets.
pub fn select_asset(version: &str, arch: &str, assets: &Vec<AssetEntry>) -> (r: Result<
    ReleaseAsset,
    ReleaseError,
>)
    ensures
        match chosen_asset(version@, arch@, assets@.map_values(|a: AssetEntry| entry_view(a))) {
            Ok((v, url, name)) => r matches Ok(x) && x.version@ == v && x.url@ == url
                && x.filename@ == name,
            Err(e) => r == Err::<ReleaseAsset, ReleaseError>(e),
        },
{
    let ghost av = assets@.map_values(|a: AssetEntry| entry_view(a));
    let suffixes = match suffix_list(arch) {
        Some(s) => s,
        None => {
            return Err(ReleaseError::UnsupportedArchitecture);
        },
    };
    let ghost sv = suffixes@.map_values(|x: Vec<char>| x@);
    let mut i: usize = 0;
    while i < assets.len()
        invariant
            i <= assets.len(),
            av == assets@.map_values(|a: AssetEntry| entry_view(a)),
            sv == suffixes@.map_values(|x: Vec<char>| x@),
            editor_suffixes(arch@) == Some(sv),
            forall|k: int| 0 <= k < i ==> !is_standard_editor(#[trigger] av[k].0, sv),
        decreases assets.len() - i,
    {
        assert(av[i as int] == entry_view(assets@[i as int]));
        if standard_editor(assets[i].name.as_str(), &suffixes) {
            proof {
                let c = choose|c: int|
                    0 <= c < av.len() && is_standard_editor(#[trigger] av[c].0, sv) && forall|k: int|
                        0 <= k < c ==> !is_standard_editor(#[trigger] av[k].0, sv);
                assert(0 <= i < av.len() && is_standard_editor(av[i as int].0, sv));
                if c < i {
                } else if c > i {
                    assert(!is_standard_editor(av[i as int].0, sv));
                }
            }
            return Ok(
                ReleaseAsset {
                    version: version.to_string(),
                    url: assets[i].url.clone(),
                    filename: assets[i].name.clone(),
                },
            );
        }
        i += 1;
    }
    Err(ReleaseError::NoLinuxBuild)
}

/// One release as the catalogue lists it.
#[derive(Debug, Clone, PartialEq, Eq)]
pub struct ReleaseEntry {
    pub tag: String,
    pub draft: bool,
    pub prerelease: bool,
}

/// A published, non-prerelease release with a `-stable` tag.
pub open spec fn is_stable_entry(tag: Seq<char>, draft: bool, prerelease: bool) -> bool {
    !draft && !prerelease && ends_with(tag, "-stable"@)
}

/// The tags of the stable releases, in catalogue order.
pub open spec fn stable_tags(entries: Seq<(Seq<char>, bool, bool)>) -> Seq<Seq<char>>
    decreases entries.len(),
{
    if entries.len() == 0 {
        seq![]
    } else {
        let rest = stable_tags(entries.drop_last());
        let (tag, draft, prerelease) = entries.last();
        if is_stable_entry(tag, draft, prerelease) {
            rest.push(tag)
        } else {
            rest
        }
    }
}

pub open spec fn release_view(e: ReleaseEntry) -> (Seq<char>, bool, bool) {
    (e.tag@, e.draft, e.prerelease)
}

/// The tags of the stable releases of one catalogue page.
pub fn stable_tags_of(entries: &Vec<ReleaseEntry>) -> (r: Vec<String>)
    ensures
        r@.map_values(|t: String| t@) == stable_tags(
            entries@.map_values(|e: ReleaseEntry| release_view(e)),
        ),
{
    let ghost ev = entries@.map_values(|e: ReleaseEntry| release_view(e));
    let suffix = to_chars("-stable");
    let mut out: Vec<String> = Vec::new();
    let mut i: usize = 0;
    while i < entries.len()
        invariant
            i <= entries.len(),
            suffix@ == "-stable"@,
            ev == entries@.map_values(|e: ReleaseEntry| release_view(e)),
            out@.map_values(|t: String| t@) == stable_tags(ev.take(i as int)),
        decreases entries.len() - i,
    {
        let e = &entries[i];
        assert(ev.take(i + 1).drop_last() =~= ev.take(i as int));
        assert(ev.take(i + 1).last() == release_view(*e));
        let tag = to_chars(e.tag.as_str());
        if !e.draft && !e.prerelease && chars_ends_with(&tag, &suffix) {
            let ghost before = out@;
            out.push(e.tag.clone());
            assert(out@.map_values(|t: String| t@) =~= before.map_values(|t: String| t@).push(
                e.tag@,
            ));
        }
        i += 1;
    }
    assert(ev.take(entries.len() as int) =~= ev);
    out
}

/// How many releases one catalogue page holds at most.
pub const PAGE_SIZE: usize = 100;

/// How many catalogue pages are read at most.
pub const MAX_PAGES: usize = 10;

/// A page with fewer than `PAGE_SIZE` releases is the last one.
pub fn is_last_page(count: usize) -> (r: bool)
    ensures
        r == (count < PAGE_SIZE),
{
    count < PAGE_SIZE
}

/// `Vec::dedup`: runs of equal neighbours reduced to one.
pub open spec fn dedup(s: Seq<Seq<char>>) -> Seq<Seq<char>>
    decreases s.len(),
{
    if s.len() == 0 {
        seq![]
    } else {
        let d = dedup(s.drop_last());
        if d.len() > 0 && d.last() == s.last() {
            d
        } else {
            d.push(s.last())
        }
    }
}

/// The collected stable tags with neighbouring repeats removed; an empty
/// list is an error.
pub fn finish_stable_list(tags: Vec<String>) -> (r: Result<Vec<String>, ReleaseError>)
    ensures
        ({
            let d = dedup(tags@.map_values(|t: String| t@));
            if d.len() == 0 {
                r == Err::<Vec<String>, ReleaseError>(ReleaseError::NoStableReleases)
            } else {
                r matches Ok(v) && v@.map_values(|t: String| t@) == d
            }
        }),
{
    let ghost tv = tags@.map_values(|t: String| t@);
    let mut out: Vec<String> = Vec::new();
    let mut i: usize = 0;
    while i < tags.len()
        invariant
            i <= tags.len(),
            tv == tags@.map_values(|t: String| t@),
            out@.map_values(|t: String| t@) == dedup(tv.take(i as int)),
        decreases tags.len() - i,
    {
        assert(tv.take(i + 1).drop_last() =~= tv.take(i as int));
        assert(tv.take(i + 1).last() == tags@[i as int]@);
        let ghost before = out@;
        let repeat = out.len() > 0 && out[out.len() - 1] == tags[i];
        if !repeat {
            out.push(tags[i].clone());
            assert(out@.map_values(|t: String| t@) =~= before.map_values(|t: String| t@).push(
                tags@[i as int]@,
            ));
        }
        i += 1;
    }
    assert(tv.take(tags.len() as int) =~= tv);
    if out.len() == 0 {
        Err(ReleaseError::NoStableReleases)
    } else {
        Ok(out)
    }
}

/// The release list stored in the cache file: a JSON array of strings. What
/// `cache_contents` wrote for a list reads back as that list.
pub fn cached_versions(bytes: &[u8]) -> (r: Result<Vec<String>, ReleaseError>)
    ensures
        match json_string_list(bytes@) {
            Some(v) => r matches Ok(x) && x@.map_values(|s: String| s@) == v,
            None => r == Err::<Vec<String>, ReleaseError>(ReleaseError::MalformedCache),
        },
        forall|items: Seq<Seq<char>>|
            #[trigger] json_pretty_list(items) == Some(bytes@) ==> (r matches Ok(x) && x@.map_values(
                |s: String| s@,
            ) == items),
{
    match decode_string_list(bytes) {
        Some(v) => Ok(v),
        None => Err(ReleaseError::MalformedCache),
    }
}

/// What the cache file holds for a release list: the list as pretty-printed
/// JSON, when it can be written.
pub fn cache_contents(versions: &Vec<String>) -> (r: Option<Vec<u8>>)
    ensures
        r.deep_view() == json_pretty_list(versions@.map_values(|s: String| s@)),
{
    encode_string_list(versions)
}

} // verus!
