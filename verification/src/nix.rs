//! What the dashboard asks of Nix and what it makes of the answers: flake
//! references, the system name, dev shell lists, validation output, prefetch
//! hashes and failure messages.
use vstd::prelude::*;
use vstd::string::StrSliceExecFns;
use crate::json::{json_keys_at, json_string_member, object_keys_at, string_member};
use crate::order::{is_arrangement, lemma_sorted_arrangement_unique, sorted_by_key, stable_order};
use crate::text::{
    chars_find, copy_range, find_text, from_chars, lines, occurs_at, rows,
    split_lines, to_chars, trim, trim_chars,
};

verus! {

broadcast use vstd::string::group_string_axioms;

/// The Nix system for a CPU architecture name, for the Linux systems that
/// official Godot builds exist for.
pub open spec fn system_for_arch(arch: Seq<char>) -> Option<Seq<char>> {
    if arch == "x86_64"@ {
        Some("x86_64-linux"@)
    } else if arch == "aarch64"@ {
        Some("aarch64-linux"@)
    } else {
        None
    }
}

/// An architecture without an official Linux build.
#[derive(Debug, Clone, PartialEq, Eq)]
pub struct UnsupportedArchitecture {
    pub arch: String,
}

/// The Nix system name for `arch` (`std::env::consts::ARCH`).
pub fn current_system(arch: &str) -> (r: Result<&'static str, UnsupportedArchitecture>)
    ensures
        match system_for_arch(arch@) {
            Some(s) => r matches Ok(x) && x@ == s,
            None => r matches Err(e) && e.arch@ == arch@,
        },
{
    let a = arch.to_string();
    if a == "x86_64".to_string() {
        Ok("x86_64-linux")
    } else if a == "aarch64".to_string() {
        Ok("aarch64-linux")
    } else {
        Err(UnsupportedArchitecture { arch: a })
    }
}

/// `path:<path>`, followed by `#<shell>` when a shell is named; the path is
/// data, never parsed by a shell.
pub open spec fn flake_reference(path: Seq<char>, shell: Option<Seq<char>>) -> Seq<char> {
    match shell {
        Some(s) => "path:"@ + path + "#"@ + s,
        None => "path:"@ + path,
    }
}

/// The flake reference of a project directory and, optionally, one of its
/// dev shells.
pub fn flake_ref(path: &str, shell: Option<&str>) -> (r: String)
    ensures
        r@ == flake_reference(path@, shell.deep_view()),
{
    let mut value = "path:".to_string();
    value.append(path);
    if let Some(s) = shell {
        value.append("#");
        value.append(s);
    }
    value
}

// ---------------------------------------------------------------------------
// Dev shells

/// `default` sorts before every other dev shell.
pub open spec fn shell_rank(name: Seq<char>) -> i128 {
    if name == "default"@ {
        0
    } else {
        1
    }
}

/// The names at the listed positions.
pub open spec fn pick(names: Seq<Seq<char>>, order: Seq<usize>) -> Seq<Seq<char>> {
    order.map_values(|k: usize| names[k as int])
}

/// `ordered` is `names` rearranged so that `default` comes first and the
/// others follow in text order.
pub open spec fn is_shell_order(names: Seq<Seq<char>>, ordered: Seq<Seq<char>>) -> bool {
    exists|order: Seq<usize>|
        {
            &&& is_arrangement(order, names.len() as int)
            &&& sorted_by_key(order, Seq::new(names.len(), |k: int| shell_rank(names[k])), names)
            &&& ordered == pick(names, order)
        }
}

/// The order of the dev shells is fully determined by their names.
pub proof fn lemma_shell_order_unique(names: Seq<Seq<char>>, o1: Seq<Seq<char>>, o2: Seq<Seq<char>>)
    requires
        is_shell_order(names, o1),
        is_shell_order(names, o2),
    ensures
        o1 == o2,
{
    let ranks = Seq::new(names.len(), |k: int| shell_rank(names[k]));
    let a = choose|order: Seq<usize>|
        {
            &&& is_arrangement(order, names.len() as int)
            &&& sorted_by_key(order, ranks, names)
            &&& o1 == pick(names, order)
        };
    let b = choose|order: Seq<usize>|
        {
            &&& is_arrangement(order, names.len() as int)
            &&& sorted_by_key(order, ranks, names)
            &&& o2 == pick(names, order)
        };
    lemma_sorted_arrangement_unique(a, b, ranks, names, names.len() as int);
}

/// Puts `default` first and the other dev shells in text order.
pub fn order_dev_shells(names: Vec<String>) -> (r: Vec<String>)
    ensures
        is_shell_order(names@.map_values(|n: String| n@), r@.map_values(|n: String| n@)),
{
    let ghost nv = names@.map_values(|n: String| n@);
    let mut ranks: Vec<i128> = Vec::new();
    let mut texts: Vec<Vec<char>> = Vec::new();
    let default_name = "default".to_string();
    let mut i: usize = 0;
    while i < names.len()
        invariant
            i <= names.len(),
            nv == names@.map_values(|n: String| n@),
            default_name@ == "default"@,
            ranks.len() == i,
            texts.len() == i,
            forall|k: int| 0 <= k < i ==> #[trigger] ranks@[k] == shell_rank(nv[k]),
            forall|k: int| 0 <= k < i ==> #[trigger] texts@[k]@ == nv[k],
        decreases names.len() - i,
    {
        let rank: i128 = if names[i] == default_name {
            0
        } else {
            1
        };
        ranks.push(rank);
        texts.push(to_chars(names[i].as_str()));
        i += 1;
    }
    let order = stable_order(&ranks, &texts);
    let ghost ranks_spec = Seq::new(nv.len(), |k: int| shell_rank(nv[k]));
    assert(ranks@ =~= ranks_spec);
    assert(texts@.map_values(|t: Vec<char>| t@) =~= nv);
    let mut out: Vec<String> = Vec::new();
    let mut k: usize = 0;
    while k < order.len()
        invariant
            k <= order.len(),
            order.len() == names.len(),
            is_arrangement(order@, names.len() as int),
            nv == names@.map_values(|n: String| n@),
            out@.map_values(|n: String| n@) == pick(nv, order@.take(k as int)),
        decreases order.len() - k,
    {
        let j = order[k];
        let name = names[j].clone();
        assert(nv[j as int] == names@[j as int]@);
        let ghost before = out@;
        out.push(name);
        assert(out@ =~= before.push(name));
        assert(order@.take(k + 1) =~= order@.take(k as int).push(j));
        assert(pick(nv, order@.take(k + 1)) =~= pick(nv, order@.take(k as int)).push(nv[j as int]));
        assert(out@.map_values(|n: String| n@) =~= pick(nv, order@.take(k + 1)));
        k += 1;
    }
    assert(order@.take(order.len() as int) =~= order@);
    out
}

/// Nix printed something that is not JSON.
#[derive(Debug, Clone, Copy, PartialEq, Eq)]
pub struct MalformedJson;

/// The dev shells that `nix flake show --json` lists for `system` (none when
/// the system is unknown), `default` first.
pub open spec fn listed_dev_shells(
    keys: Option<Option<Seq<Seq<char>>>>,
    ordered: Result<Seq<Seq<char>>, MalformedJson>,
) -> bool {
    match keys {
        None => ordered is Err,
        Some(None) => ordered == Ok::<Seq<Seq<char>>, MalformedJson>(seq![]),
        Some(Some(k)) => ordered matches Ok(o) && is_shell_order(k, o),
    }
}

/// The dev shells of a flake, from the JSON that `nix flake show --json`
/// printed, for the Nix `system` when it is known.
pub fn dev_shells_from_json(output: &[u8], system: Option<&str>) -> (r: Result<
    Vec<String>,
    MalformedJson,
>)
    ensures
        listed_dev_shells(
            json_keys_at(output@, "devShells"@, system.deep_view()),
            match r {
                Ok(v) => Ok(v@.map_values(|n: String| n@)),
                Err(e) => Err(e),
            },
        ),
{
    match object_keys_at(output, "devShells", system) {
        None => Err(MalformedJson),
        Some(None) => {
            let empty: Vec<String> = Vec::new();
            assert(empty@.map_values(|n: String| n@) =~= seq![]);
            Ok(empty)
        },
        Some(Some(keys)) => Ok(order_dev_shells(keys)),
    }
}

// ---------------------------------------------------------------------------
// Validation

/// What a working dev shell reported.
#[derive(Debug, Clone, PartialEq, Eq)]
pub struct Validation {
    /// The output of `godot --version`, trimmed.
    pub version: String,
}

/// Printed just before `godot --version` runs, to find its output.
pub const VERSION_MARKER: &'static str = "__GODOT_NVM_VERSION__";

/// The trimmed text between the first marker and the next one (or the end),
/// when it is not blank.
pub open spec fn reported_version(stdout: Seq<char>) -> Option<Seq<char>> {
    match find_text(stdout, VERSION_MARKER@) {
        None => None,
        Some(i) => {
            let rest = stdout.skip(i + VERSION_MARKER@.len());
            let piece = match find_text(rest, VERSION_MARKER@) {
                Some(j) => rest.take(j),
                None => rest,
            };
            if trim(piece).len() > 0 {
                Some(trim(piece))
            } else {
                None
            }
        },
    }
}

/// `godot --version` reported nothing.
#[derive(Debug, Clone, Copy, PartialEq, Eq)]
pub struct NoVersion;

/// The Godot version that a validation run printed.
pub fn parse_validation_output(stdout: &str) -> (r: Result<Validation, NoVersion>)
    ensures
        match reported_version(stdout@) {
            Some(v) => r matches Ok(x) && x.version@ == v,
            None => r is Err,
        },
{
    let chars = to_chars(stdout);
    let marker = to_chars(VERSION_MARKER);
    let i = match chars_find(&chars, &marker) {
        Some(i) => i,
        None => {
            return Err(NoVersion);
        },
    };
    assert(occurs_at(chars@, marker@, i as int));
    assert(i + marker@.len() <= chars@.len());
    assert(i + marker.len() <= chars.len());
    let start = i + marker.len();
    let rest = copy_range(&chars, start, chars.len());
    assert(rest@ =~= stdout@.skip(i + VERSION_MARKER@.len()));
    let piece = match chars_find(&rest, &marker) {
        Some(j) => {
            let p = copy_range(&rest, 0, j);
            assert(p@ =~= rest@.take(j as int));
            p
        },
        None => rest,
    };
    let t = trim_chars(&piece);
    if t.len() == 0 {
        return Err(NoVersion);
    }
    Ok(Validation { version: from_chars(&t) })
}

// ---------------------------------------------------------------------------
// Prefetch

/// Why a prefetch answer gave no hash.
#[derive(Debug, Clone, Copy, PartialEq, Eq)]
pub enum PrefetchError {
    MalformedJson,
    MissingHash,
}

/// The hash that `nix store prefetch-file --json` printed.
pub fn prefetch_hash(output: &[u8]) -> (r: Result<String, PrefetchError>)
    ensures
        match json_string_member(output@, "hash"@) {
            None => r == Err::<String, PrefetchError>(PrefetchError::MalformedJson),
            Some(None) => r == Err::<String, PrefetchError>(PrefetchError::MissingHash),
            Some(Some(h)) => r matches Ok(x) && x@ == h,
        },
{
    match string_member(output, "hash") {
        None => Err(PrefetchError::MalformedJson),
        Some(None) => Err(PrefetchError::MissingHash),
        Some(Some(h)) => Ok(h),
    }
}

// ---------------------------------------------------------------------------
// Failure messages

/// Bytes of a character in UTF-8.
pub open spec fn utf8_len(c: char) -> int {
    if (c as u32) < 0x80 {
        1
    } else if (c as u32) < 0x800 {
        2
    } else if (c as u32) < 0x10000 {
        3
    } else {
        4
    }
}

/// Bytes of a text in UTF-8.
pub open spec fn byte_len(s: Seq<char>) -> int
    decreases s.len(),
{
    if s.len() == 0 {
        0
    } else {
        byte_len(s.drop_last()) + utf8_len(s.last())
    }
}

/// `value.get(..max).unwrap_or(value)`: the first `max` bytes when they end
/// on a character boundary, otherwise the whole text.
pub open spec fn truncated(s: Seq<char>, max: int) -> Seq<char> {
    if exists|k: int| 0 <= k <= s.len() && byte_len(#[trigger] s.take(k)) == max {
        s.take(choose|k: int| 0 <= k <= s.len() && byte_len(#[trigger] s.take(k)) == max)
    } else {
        s
    }
}

proof fn lemma_byte_len_grows(s: Seq<char>, a: int, b: int)
    requires
        0 <= a < b <= s.len(),
    ensures
        byte_len(s.take(a)) < byte_len(s.take(b)),
    decreases b - a,
{
    assert(s.take(b).drop_last() =~= s.take(b - 1));
    if a < b - 1 {
        lemma_byte_len_grows(s, a, b - 1);
    }
}

/// The prefix of `value` that `str::get(..max)` gives, or all of it.
pub fn truncate(value: &str, max: usize) -> (r: &str)
    ensures
        r@ == truncated(value@, max as int),
{
    let chars = to_chars(value);
    let mut bytes: u128 = 0;
    let mut k: usize = 0;
    while k < chars.len() && bytes < max as u128
        invariant
            k <= chars.len(),
            chars@ == value@,
            bytes == byte_len(chars@.take(k as int)),
            bytes <= max as u128 + 4,
            k > 0 ==> byte_len(chars@.take(k - 1)) < max,
        decreases chars.len() - k,
    {
        let c = chars[k];
        let n: u128 = if (c as u32) < 0x80 {
            1
        } else if (c as u32) < 0x800 {
            2
        } else if (c as u32) < 0x10000 {
            3
        } else {
            4
        };
        assert(chars@.take(k + 1).drop_last() =~= chars@.take(k as int));
        bytes = bytes + n;
        k += 1;
    }
    proof {
        assert forall|j: int| 0 <= j <= value@.len() && j != k implies byte_len(
            #[trigger] value@.take(j),
        ) != max by {
            if j < k {
                if j < k - 1 {
                    lemma_byte_len_grows(value@, j, k - 1);
                }
            } else {
                lemma_byte_len_grows(value@, k as int, j);
            }
        }
    }
    if bytes == max as u128 {
        proof {
            let c = choose|j: int| 0 <= j <= value@.len() && byte_len(#[trigger] value@.take(j)) == max;
            assert(c == k);
        }
        value.substring_char(0, k)
    } else {
        value.substring_char(0, value.unicode_len())
    }
}

/// The last line of `ls` that is not blank.
pub open spec fn last_nonblank(ls: Seq<Seq<char>>) -> Option<Seq<char>>
    decreases ls.len(),
{
    if ls.len() == 0 {
        None
    } else if trim(ls.last()).len() > 0 {
        Some(ls.last())
    } else {
        last_nonblank(ls.drop_last())
    }
}

fn last_nonblank_line(ls: &Vec<Vec<char>>) -> (r: Option<String>)
    ensures
        match last_nonblank(rows(ls@)) {
            Some(l) => r matches Some(x) && x@ == l,
            None => r is None,
        },
{
    let mut i = ls.len();
    assert(rows(ls@).take(i as int) =~= rows(ls@));
    while i > 0
        invariant
            i <= ls.len(),
            last_nonblank(rows(ls@)) == last_nonblank(rows(ls@).take(i as int)),
        decreases i,
    {
        let ghost prefix = rows(ls@).take(i as int);
        assert(prefix.last() == ls@[i - 1]@);
        assert(prefix.drop_last() =~= rows(ls@).take(i - 1));
        let t = trim_chars(&ls[i - 1]);
        if t.len() > 0 {
            return Some(from_chars(&ls[i - 1]));
        }
        i -= 1;
    }
    assert(rows(ls@).take(0) =~= seq![]);
    None
}

/// How long a quoted stderr line may be, in bytes.
pub const MESSAGE_LIMIT: usize = 300;

/// `<context>: <line>`, where the line is the last non-blank line of stderr
/// (or the context again), cut to `MESSAGE_LIMIT` bytes.
pub open spec fn failure_text(stderr: Seq<char>, context: Seq<char>) -> Seq<char> {
    let line = match last_nonblank(lines(stderr)) {
        Some(l) => l,
        None => context,
    };
    context + ": "@ + truncated(line, MESSAGE_LIMIT as int)
}

/// The message of a failed Nix command, from what it wrote to stderr.
pub fn failure_message(stderr: &str, context: &str) -> (r: String)
    ensures
        r@ == failure_text(stderr@, context@),
{
    let chars = to_chars(stderr);
    let ls = split_lines(&chars);
    let line = match last_nonblank_line(&ls) {
        Some(l) => l,
        None => context.to_string(),
    };
    let mut out = context.to_string();
    out.append(": ");
    out.append(truncate(line.as_str(), MESSAGE_LIMIT));
    out
}

} // verus!
