//! The forms of the dashboard and what they accept: Godot versions, extra
//! tools, renderer choices, and the confirmation that each form leads to.
use vstd::prelude::*;
use crate::generator::{all_valid_tools, tools_are_valid};
use crate::model::{renderer_choices, Renderer};
use crate::release::{is_stable_tag, stable_tag};
use crate::text::{
    char_is_white_space, chars_starts_with, copy_range, ends_with, from_chars, is_white_space,
    starts_with, to_chars,
};

verus! {

broadcast use vstd::string::group_string_axioms;

/// What a path prompt is for.
#[derive(Debug, Clone, Copy, PartialEq, Eq)]
pub enum PathPurpose {
    /// Register one project directory.
    Add,
    /// Scan every direct child of a directory.
    Scan,
}

/// Why a form was not accepted.
#[derive(Debug, Clone, Copy, PartialEq, Eq)]
pub enum FormError {
    /// Not an exact official stable tag.
    InvalidVersion,
    /// An extra tool is not a nixpkgs attribute path.
    InvalidTools,
    /// A new project needs a name.
    NameRequired,
    /// The parent directory of a new project does not exist.
    ParentMissing,
}

/// What the dashboard says of a refused form.
pub open spec fn form_error_text(e: FormError) -> Seq<char> {
    match e {
        FormError::InvalidVersion => "enter an exact official stable tag, for example 4.7.1-stable"@,
        FormError::InvalidTools => "extra tools must be nixpkgs attribute paths separated by spaces or commas"@,
        FormError::NameRequired => "project name is required"@,
        FormError::ParentMissing => "project parent directory does not exist"@,
    }
}

impl FormError {
    /// The message for the status line.
    pub fn message(&self) -> (r: String)
        ensures
            r@ == form_error_text(*self),
    {
        match self {
            FormError::InvalidVersion => "enter an exact official stable tag, for example 4.7.1-stable".to_string(),
            FormError::InvalidTools => "extra tools must be nixpkgs attribute paths separated by spaces or commas".to_string(),
            FormError::NameRequired => "project name is required".to_string(),
            FormError::ParentMissing => "project parent directory does not exist".to_string(),
        }
    }
}

// ---------------------------------------------------------------------------
// Versions

/// A release whose version, without `-stable`, is the hint or a patch of it.
pub open spec fn release_matches_hint(release: Seq<char>, hint: Seq<char>) -> bool {
    &&& ends_with(release, "-stable"@)
    &&& ({
        let v = release.take(release.len() - 7);
        v == hint || starts_with(v, hint + "."@)
    })
}

/// The release for a version hint: the hint itself when it is a listed
/// stable tag, otherwise the first listed release (the newest) that matches
/// it.
pub open spec fn best_release(releases: Seq<Seq<char>>, hint: Seq<char>) -> Option<Seq<char>> {
    if ends_with(hint, "-stable"@) && releases.contains(hint) {
        Some(hint)
    } else if exists|i: int| 0 <= i < releases.len() && release_matches_hint(#[trigger] releases[i], hint) {
        Some(
            releases[choose|i: int|
                0 <= i < releases.len() && release_matches_hint(#[trigger] releases[i], hint)
                    && forall|k: int|
                    0 <= k < i ==> !release_matches_hint(#[trigger] releases[k], hint)],
        )
    } else {
        None
    }
}

fn matches_hint(release: &str, hint: &str) -> (r: bool)
    ensures
        r == release_matches_hint(release@, hint@),
{
    let rc = to_chars(release);
    let suffix = to_chars("-stable");
    proof {
        reveal_strlit("-stable");
    }
    if !crate::text::chars_ends_with(&rc, &suffix) {
        return false;
    }
    let v = copy_range(&rc, 0, rc.len() - 7);
    assert(v@ =~= release@.take(release@.len() - 7));
    let h = to_chars(hint);
    if crate::project::chars_equal(&v, &h) {
        return true;
    }
    let mut hd = h;
    hd.push('.');
    proof {
        reveal_strlit(".");
        assert(hd@ =~= hint@ + "."@);
    }
    chars_starts_with(&v, &hd)
}

/// The release that best fits a version hint such as `4.7`.
pub fn best_version(releases: &Vec<String>, hint: &str) -> (r: Option<String>)
    ensures
        match best_release(releases@.map_values(|s: String| s@), hint@) {
            Some(v) => r matches Some(x) && x@ == v,
            None => r is None,
        },
{
    let ghost rv = releases@.map_values(|s: String| s@);
    let hint_chars = to_chars(hint);
    let suffix = to_chars("-stable");
    if crate::text::chars_ends_with(&hint_chars, &suffix) {
        let h = hint.to_string();
        let mut i: usize = 0;
        while i < releases.len()
            invariant
                i <= releases.len(),
                h@ == hint@,
                ends_with(hint@, "-stable"@),
                rv == releases@.map_values(|s: String| s@),
                forall|k: int| 0 <= k < i ==> rv[k] != hint@,
            decreases releases.len() - i,
        {
            assert(rv[i as int] == releases@[i as int]@);
            if releases[i] == h {
                assert(rv.contains(hint@));
                return Some(h);
            }
            i += 1;
        }
        assert(!rv.contains(hint@));
    }
    let mut i: usize = 0;
    while i < releases.len()
        invariant
            i <= releases.len(),
            rv == releases@.map_values(|s: String| s@),
            !(ends_with(hint@, "-stable"@) && rv.contains(hint@)),
            forall|k: int| 0 <= k < i ==> !release_matches_hint(#[trigger] rv[k], hint@),
        decreases releases.len() - i,
    {
        assert(rv[i as int] == releases@[i as int]@);
        if matches_hint(releases[i].as_str(), hint) {
            proof {
                let c = choose|c: int|
                    0 <= c < rv.len() && release_matches_hint(#[trigger] rv[c], hint@) && forall|k: int|
                        0 <= k < c ==> !release_matches_hint(#[trigger] rv[k], hint@);
                assert(release_matches_hint(rv[i as int], hint@));
                if c > i {
                    assert(!release_matches_hint(rv[i as int], hint@));
                }
            }
            return Some(releases[i].clone());
        }
        i += 1;
    }
    None
}

/// Accepts only an exact official stable tag such as `4.7.1-stable`.
pub fn validate_version(value: &str) -> (r: Result<(), FormError>)
    ensures
        r is Ok <==> is_stable_tag(value@),
        r is Err ==> r == Err::<(), FormError>(FormError::InvalidVersion),
{
    if stable_tag(value) {
        Ok(())
    } else {
        Err(FormError::InvalidVersion)
    }
}

// ---------------------------------------------------------------------------
// Extra tools

/// Tools are separated by commas and white space.
pub open spec fn is_tool_separator(c: char) -> bool {
    c == ',' || is_white_space(c)
}

pub open spec fn is_first_separator(s: Seq<char>, i: int) -> bool {
    0 <= i < s.len() && is_tool_separator(s[i]) && forall|k: int|
        0 <= k < i ==> !is_tool_separator(#[trigger] s[k])
}

/// The first separator of `s`.
pub open spec fn first_separator(s: Seq<char>) -> Option<int> {
    if exists|i: int| is_first_separator(s, i) {
        Some(choose|i: int| is_first_separator(s, i))
    } else {
        None
    }
}

/// The non-empty pieces between separators, in order.
pub open spec fn tool_tokens(s: Seq<char>) -> Seq<Seq<char>>
    decreases s.len(),
{
    match first_separator(s) {
        Some(k) => if 0 <= k < s.len() {
            (if k > 0 {
                seq![s.take(k)]
            } else {
                seq![]
            }) + tool_tokens(s.skip(k + 1))
        } else {
            seq![s]
        },
        None => if s.len() > 0 {
            seq![s]
        } else {
            seq![]
        },
    }
}

proof fn lemma_first_separator(s: Seq<char>, i: int)
    requires
        is_first_separator(s, i),
    ensures
        first_separator(s) == Some(i),
{
    let j = choose|j: int| is_first_separator(s, j);
    assert(is_first_separator(s, j));
    if j < i {
        assert(!is_tool_separator(s[j]));
    } else if i < j {
        assert(!is_tool_separator(s[i]));
    }
}

proof fn lemma_no_separator(s: Seq<char>)
    requires
        forall|k: int| 0 <= k < s.len() ==> !is_tool_separator(#[trigger] s[k]),
    ensures
        first_separator(s) is None,
{
}

/// The extra tools of a form: `Ok` with the tools in order when every one
/// is a nixpkgs attribute path.
pub open spec fn parsed_tools(value: Seq<char>) -> Result<Seq<Seq<char>>, FormError> {
    if all_valid_tools(tool_tokens(value)) {
        Ok(tool_tokens(value))
    } else {
        Err(FormError::InvalidTools)
    }
}

fn split_tools(value: &str) -> (r: Vec<String>)
    ensures
        r@.map_values(|t: String| t@) == tool_tokens(value@),
{
    let s = to_chars(value);
    let mut out: Vec<String> = Vec::new();
    let mut pos: usize = 0;
    assert(s@.skip(0) =~= s@);
    assert(out@.map_values(|t: String| t@) + tool_tokens(s@) =~= tool_tokens(s@));
    loop
        invariant
            pos <= s.len(),
            s@ == value@,
            tool_tokens(value@) == out@.map_values(|t: String| t@) + tool_tokens(s@.skip(pos as int)),
        decreases s.len() - pos,
    {
        let ghost rest = s@.skip(pos as int);
        let ghost before = out@.map_values(|t: String| t@);
        let mut k = pos;
        while k < s.len() && !(s[k] == ',' || char_is_white_space(s[k]))
            invariant
                pos <= k <= s.len(),
                forall|m: int| pos <= m < k ==> !is_tool_separator(#[trigger] s@[m]),
            decreases s.len() - k,
        {
            k += 1;
        }
        let piece = copy_range(&s, pos, k);
        assert(piece@ =~= rest.take(k - pos));
        if k < s.len() {
            proof {
                assert forall|m: int| 0 <= m < k - pos implies !is_tool_separator(
                    #[trigger] rest[m],
                ) by {
                    assert(rest[m] == s@[m + pos]);
                }
                lemma_first_separator(rest, k - pos);
                assert(rest.skip(k - pos + 1) =~= s@.skip(k + 1));
            }
            if k > pos {
                out.push(from_chars(&piece));
                assert(out@.map_values(|t: String| t@) =~= before.push(piece@));
                assert(before.push(piece@) + tool_tokens(s@.skip(k + 1)) =~= before + (seq![
                    piece@,
                ] + tool_tokens(s@.skip(k + 1))));
            } else {
                assert(before + tool_tokens(s@.skip(k + 1)) =~= before + (seq![] + tool_tokens(
                    s@.skip(k + 1),
                )));
            }
            pos = k + 1;
        } else {
            proof {
                assert forall|m: int| 0 <= m < rest.len() implies !is_tool_separator(
                    #[trigger] rest[m],
                ) by {
                    assert(rest[m] == s@[m + pos]);
                }
                lemma_no_separator(rest);
                assert(rest =~= piece@);
            }
            if k > pos {
                out.push(from_chars(&piece));
                assert(out@.map_values(|t: String| t@) =~= before + seq![piece@]);
            } else {
                assert(before + seq![] =~= before);
            }
            return out;
        }
    }
}

/// Splits the extra-tools field at commas and white space and accepts it
/// when every piece is a nixpkgs attribute path.
pub fn parse_tools(value: &str) -> (r: Result<Vec<String>, FormError>)
    ensures
        match parsed_tools(value@) {
            Ok(t) => r matches Ok(v) && v@.map_values(|x: String| x@) == t,
            Err(e) => r == Err::<Vec<String>, FormError>(e),
        },
{
    let tools = split_tools(value);
    if tools_are_valid(tools.as_slice()) {
        Ok(tools)
    } else {
        Err(FormError::InvalidTools)
    }
}

// ---------------------------------------------------------------------------
// Forms

/// The form that generates a flake for an existing project.
#[derive(Debug, Clone)]
pub struct ExistingForm {
    pub path: String,
    pub version: String,
    pub tools: String,
    /// The focused field: 0 version, 1 tools.
    pub field: usize,
    /// The project's unusable flake is to be replaced.
    pub replace_existing: bool,
}

/// The form that creates a new project.
#[derive(Debug, Clone)]
pub struct CreateForm {
    pub name: String,
    pub parent: String,
    pub version: String,
    pub renderer_index: usize,
    pub git_metadata: bool,
    pub tools: String,
    /// The focused field: name, parent, version, renderer, git, tools.
    pub field: usize,
}

/// The renderer at the chosen index, or the last one when the index is
/// past the choices for the form's version.
pub open spec fn form_renderer(version: Seq<char>, index: usize) -> Renderer {
    let choices = renderer_choices(version);
    if index < choices.len() {
        choices[index as int]
    } else {
        choices.last()
    }
}

impl CreateForm {
    /// The renderer the form selects.
    pub fn renderer(&self) -> (r: Renderer)
        ensures
            r == form_renderer(self.version@, self.renderer_index),
    {
        let choices = Renderer::choices_for(self.version.as_str());
        let last = choices.len() - 1;
        let index = if self.renderer_index < last {
            self.renderer_index
        } else {
            last
        };
        choices[index]
    }
}

} // verus!
