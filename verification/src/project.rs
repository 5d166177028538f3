//! Reading a Godot `project.godot` file: its structure, its settings and the
//! project metadata that the dashboard shows.
use vstd::prelude::*;
use crate::json::{decode_json_string, json_string_value};
use crate::text::{
    char_is_ascii_digit, chars_ends_with, chars_find_char, chars_occur_at, chars_starts_with,
    copy_range, ends_with, find_char, from_chars, is_ascii_digit, lines, rows, split_char,
    split_chars, split_lines, starts_with, to_chars, trim, trim_chars,
};

verus! {

/// Why a `project.godot` text was rejected; `line` counts from one.
#[derive(Debug, Clone, Copy, PartialEq, Eq)]
pub enum DocumentError {
    MalformedSection { line: usize },
    EmptySection { line: usize },
    MalformedSetting { line: usize },
    EmptyKey { line: usize },
    MismatchedDelimiter { line: usize },
    UnterminatedString { line: usize },
    UnterminatedMultiline,
    MissingConfigVersion,
}

/// One `key=value` assignment, in the section where it stands (the empty
/// section before the first header).
#[derive(Debug, Clone)]
pub struct Setting {
    pub section: String,
    pub key: String,
    pub value: String,
}

pub open spec fn setting_view(s: Setting) -> (Seq<char>, Seq<char>, Seq<char>) {
    (s.section@, s.key@, s.value@)
}

pub open spec fn settings_view(v: Seq<Setting>) -> Seq<(Seq<char>, Seq<char>, Seq<char>)> {
    v.map_values(|s: Setting| setting_view(s))
}

// ---------------------------------------------------------------------------
// Delimiters of multiline values

pub open spec fn is_opener(c: char) -> bool {
    c == '(' || c == '[' || c == '{'
}

pub open spec fn is_closer(c: char) -> bool {
    c == ')' || c == ']' || c == '}'
}

pub open spec fn opener_of(c: char) -> char {
    if c == ')' {
        '('
    } else if c == ']' {
        '['
    } else {
        '{'
    }
}

/// The failure of a delimiter scan, before it is tied to a line.
pub enum DelimiterFault {
    Mismatched,
    UnterminatedString,
}

/// Scans `line` from index `i` with the given string state and stack of open
/// delimiters: strings (with backslash escapes) hide their content, a
/// closer must match the innermost opener, `;` or `#` outside a string ends
/// the scan, and a string still open at the end is an error.
pub open spec fn scan_delimiters(
    line: Seq<char>,
    i: int,
    in_string: bool,
    escaped: bool,
    stack: Seq<char>,
) -> Result<Seq<char>, DelimiterFault>
    decreases line.len() - i,
{
    if i < 0 || i >= line.len() {
        if in_string {
            Err(DelimiterFault::UnterminatedString)
        } else {
            Ok(stack)
        }
    } else {
        let c = line[i];
        if in_string {
            if escaped {
                scan_delimiters(line, i + 1, true, false, stack)
            } else if c == '\\' {
                scan_delimiters(line, i + 1, true, true, stack)
            } else if c == '"' {
                scan_delimiters(line, i + 1, false, false, stack)
            } else {
                scan_delimiters(line, i + 1, true, false, stack)
            }
        } else if c == '"' {
            scan_delimiters(line, i + 1, true, escaped, stack)
        } else if is_opener(c) {
            scan_delimiters(line, i + 1, false, escaped, stack.push(c))
        } else if is_closer(c) {
            if stack.len() > 0 && stack.last() == opener_of(c) {
                scan_delimiters(line, i + 1, false, escaped, stack.drop_last())
            } else {
                Err(DelimiterFault::Mismatched)
            }
        } else if c == ';' || c == '#' {
            Ok(stack)
        } else {
            scan_delimiters(line, i + 1, false, escaped, stack)
        }
    }
}

pub open spec fn delimiter_error(f: DelimiterFault, line: int) -> DocumentError {
    match f {
        DelimiterFault::Mismatched => DocumentError::MismatchedDelimiter { line: line as usize },
        DelimiterFault::UnterminatedString => DocumentError::UnterminatedString {
            line: line as usize,
        },
    }
}

/// Updates the stack of open delimiters with one line; the error names
/// `line_number`.
pub fn update_delimiters(line: &[char], line_number: usize, stack: &mut Vec<char>) -> (r: Result<
    (),
    DocumentError,
>)
    ensures
        match scan_delimiters(line@, 0, false, false, old(stack)@) {
            Ok(s) => r is Ok && final(stack)@ == s,
            Err(f) => r == Err::<(), DocumentError>(delimiter_error(f, line_number as int)),
        },
{
    let ghost start = stack@;
    let mut in_string = false;
    let mut escaped = false;
    let mut i: usize = 0;
    while i < line.len()
        invariant
            i <= line.len(),
            start == old(stack)@,
            scan_delimiters(line@, 0, false, false, start) == scan_delimiters(
                line@,
                i as int,
                in_string,
                escaped,
                stack@,
            ),
        decreases line.len() - i,
    {
        let c = line[i];
        if in_string {
            if escaped {
                escaped = false;
            } else if c == '\\' {
                escaped = true;
            } else if c == '"' {
                in_string = false;
            }
        } else if c == '"' {
            in_string = true;
        } else if c == '(' || c == '[' || c == '{' {
            stack.push(c);
        } else if c == ')' || c == ']' || c == '}' {
            let expected = if c == ')' {
                '('
            } else if c == ']' {
                '['
            } else {
                '{'
            };
            let ghost pre = stack@;
            assert(expected == opener_of(c));
            let top = stack.pop();
            match top {
                Some(t) => {
                    assert(pre.len() > 0 && t == pre.last() && stack@ == pre.drop_last());
                    if t != expected {
                        assert(scan_delimiters(line@, i as int, in_string, escaped, pre) is Err);
                        return Err(DocumentError::MismatchedDelimiter { line: line_number });
                    }
                },
                None => {
                    assert(pre.len() == 0);
                    return Err(DocumentError::MismatchedDelimiter { line: line_number });
                },
            }
        } else if c == ';' || c == '#' {
            return Ok(());
        }
        i += 1;
    }
    if in_string {
        return Err(DocumentError::UnterminatedString { line: line_number });
    }
    Ok(())
}

// ---------------------------------------------------------------------------
// Unsigned numbers

pub open spec fn all_ascii_digits(s: Seq<char>) -> bool {
    forall|i: int| 0 <= i < s.len() ==> is_ascii_digit(#[trigger] s[i])
}

pub open spec fn digits_value(s: Seq<char>) -> int
    decreases s.len(),
{
    if s.len() == 0 {
        0
    } else {
        digits_value(s.drop_last()) * 10 + (s.last() as int - '0' as int)
    }
}

/// `str::parse::<u32>`: an optional `+`, then at least one ASCII digit, with a
/// value that fits in `u32`.
pub open spec fn parse_u32(s: Seq<char>) -> Option<u32> {
    let d = if s.len() > 0 && s[0] == '+' {
        s.drop_first()
    } else {
        s
    };
    if d.len() > 0 && all_ascii_digits(d) && digits_value(d) <= u32::MAX {
        Some(digits_value(d) as u32)
    } else {
        None
    }
}

proof fn lemma_digits_value_nonneg(s: Seq<char>)
    requires
        all_ascii_digits(s),
    ensures
        digits_value(s) >= 0,
    decreases s.len(),
{
    if s.len() > 0 {
        lemma_digits_value_nonneg(s.drop_last());
    }
}

/// `str::parse::<u32>`.
pub fn parse_u32_chars(s: &[char]) -> (r: Option<u32>)
    ensures
        r == parse_u32(s@),
{
    let start: usize = if s.len() > 0 && s[0] == '+' {
        1
    } else {
        0
    };
    let ghost d = s@.skip(start as int);
    assert(d =~= (if s@.len() > 0 && s@[0] == '+' {
        s@.drop_first()
    } else {
        s@
    }));
    if start >= s.len() {
        return None;
    }
    let limit: u64 = 0x1_0000_0000;
    let mut acc: u64 = 0;
    let mut i = start;
    while i < s.len()
        invariant
            start <= i <= s.len(),
            limit == 0x1_0000_0000,
            d == s@.skip(start as int),
            d == (if s@.len() > 0 && s@[0] == '+' {
                s@.drop_first()
            } else {
                s@
            }),
            all_ascii_digits(s@.subrange(start as int, i as int)),
            acc == (if digits_value(s@.subrange(start as int, i as int)) >= limit {
                limit as int
            } else {
                digits_value(s@.subrange(start as int, i as int))
            }),
        decreases s.len() - i,
    {
        let c = s[i];
        if !char_is_ascii_digit(c) {
            assert(d[i - start] == c);
            assert(!all_ascii_digits(d));
            return None;
        }
        let ghost prev = s@.subrange(start as int, i as int);
        let ghost next = s@.subrange(start as int, i + 1);
        assert(next.drop_last() =~= prev);
        assert(all_ascii_digits(next));
        proof {
            lemma_digits_value_nonneg(prev);
        }
        assert('0' as u32 <= c as u32 <= '9' as u32);
        let digit = (c as u32 - '0' as u32) as u64;
        assert(digit <= 9);
        if acc >= limit {
            acc = limit;
        } else {
            assert(acc < limit);
            assert(acc * 10 + digit < 0x10_0000_0000) by (nonlinear_arith)
                requires
                    acc < limit,
                    digit <= 9,
                    limit == 0x1_0000_0000,
            ;
            acc = acc * 10 + digit;
            if acc >= limit {
                acc = limit;
            }
        }
        i += 1;
    }
    assert(s@.subrange(start as int, s.len() as int) =~= d);
    if acc >= limit {
        None
    } else {
        Some(acc as u32)
    }
}

// ---------------------------------------------------------------------------
// The document

/// The reader's state after some lines: the current section, the settings so
/// far, the open delimiters and whether a valid `config_version` was seen.
pub struct DocumentState {
    pub section: Seq<char>,
    pub settings: Seq<(Seq<char>, Seq<char>, Seq<char>)>,
    pub stack: Seq<char>,
    pub has_config_version: bool,
}

pub open spec fn initial_state() -> DocumentState {
    DocumentState {
        section: seq![],
        settings: seq![],
        stack: seq![],
        has_config_version: false,
    }
}

/// A top-level `config_version` with a positive `u32` value.
pub open spec fn valid_config_version(value: Seq<char>) -> bool {
    parse_u32(value) matches Some(v) && v > 0
}

/// One line (numbered `n`) read in state `st`. Blank lines and lines that
/// start with `;` or `#` are skipped. Outside a multiline value a `[` line is
/// a section header and any other line is `key=value`, split at its first
/// `=`; inside one, the line only continues the value.
pub open spec fn read_line(st: DocumentState, raw: Seq<char>, n: int) -> Result<
    DocumentState,
    DocumentError,
> {
    let l = trim(raw);
    if l.len() == 0 || l[0] == ';' || l[0] == '#' {
        Ok(st)
    } else if st.stack.len() == 0 && l[0] == '[' {
        if l.last() != ']' || l.len() < 3 {
            Err(DocumentError::MalformedSection { line: n as usize })
        } else {
            let section = trim(l.subrange(1, l.len() - 1));
            if section.len() == 0 {
                Err(DocumentError::EmptySection { line: n as usize })
            } else {
                Ok(DocumentState { section, ..st })
            }
        }
    } else if st.stack.len() == 0 {
        match find_char(l, '=') {
            None => Err(DocumentError::MalformedSetting { line: n as usize }),
            Some(k) => {
                let key = trim(l.take(k));
                if key.len() == 0 {
                    Err(DocumentError::EmptyKey { line: n as usize })
                } else {
                    let value = trim(l.skip(k + 1));
                    let has_config_version = if st.section.len() == 0 && key
                        == "config_version"@ {
                        valid_config_version(value)
                    } else {
                        st.has_config_version
                    };
                    match scan_delimiters(value, 0, false, false, st.stack) {
                        Err(f) => Err(delimiter_error(f, n)),
                        Ok(stack) => Ok(
                            DocumentState {
                                section: st.section,
                                settings: st.settings.push((st.section, key, value)),
                                stack,
                                has_config_version,
                            },
                        ),
                    }
                }
            },
        }
    } else {
        match scan_delimiters(l, 0, false, false, st.stack) {
            Err(f) => Err(delimiter_error(f, n)),
            Ok(stack) => Ok(DocumentState { stack, ..st }),
        }
    }
}

/// The state after the first `n` lines.
pub open spec fn read_lines(ls: Seq<Seq<char>>, n: int) -> Result<DocumentState, DocumentError>
    decreases n,
{
    if n <= 0 {
        Ok(initial_state())
    } else {
        match read_lines(ls, n - 1) {
            Err(e) => Err(e),
            Ok(st) => read_line(st, ls[n - 1], n),
        }
    }
}

/// The settings of a `project.godot` text, in file order, or why it is
/// rejected: a multiline value still open at the end, or no valid top-level
/// `config_version`.
pub open spec fn document_settings(text: Seq<char>) -> Result<
    Seq<(Seq<char>, Seq<char>, Seq<char>)>,
    DocumentError,
> {
    let ls = lines(text);
    match read_lines(ls, ls.len() as int) {
        Err(e) => Err(e),
        Ok(st) => if st.stack.len() > 0 {
            Err(DocumentError::UnterminatedMultiline)
        } else if !st.has_config_version {
            Err(DocumentError::MissingConfigVersion)
        } else {
            Ok(st.settings)
        },
    }
}

proof fn lemma_read_lines_error_persists(ls: Seq<Seq<char>>, i: int, n: int, e: DocumentError)
    requires
        0 <= i <= n,
        read_lines(ls, i) == Err::<DocumentState, DocumentError>(e),
    ensures
        read_lines(ls, n) == Err::<DocumentState, DocumentError>(e),
    decreases n - i,
{
    if i < n {
        lemma_read_lines_error_persists(ls, i, n - 1, e);
    }
}

/// `a == b` over characters.
pub fn chars_equal(a: &[char], b: &[char]) -> (r: bool)
    ensures
        r == (a@ == b@),
{
    if a.len() != b.len() {
        return false;
    }
    let r = chars_occur_at(a, b, 0);
    proof {
        if r {
            assert(a@.subrange(0, b@.len() as int) =~= a@);
        } else {
            assert(!(a@.subrange(0, b@.len() as int) == b@));
            assert(a@.subrange(0, b@.len() as int) =~= a@);
        }
    }
    r
}

/// Reads one line into the working state.
fn read_line_exec(
    raw: &[char],
    n: usize,
    section: &mut Vec<char>,
    settings: &mut Vec<Setting>,
    stack: &mut Vec<char>,
    has_config_version: &mut bool,
    config_key: &Vec<char>,
) -> (r: Result<(), DocumentError>)
    requires
        config_key@ == "config_version"@,
    ensures
        ({
            let st = DocumentState {
                section: old(section)@,
                settings: settings_view(old(settings)@),
                stack: old(stack)@,
                has_config_version: *old(has_config_version),
            };
            match read_line(st, raw@, n as int) {
                Ok(next) => r is Ok && final(section)@ == next.section && settings_view(
                    final(settings)@,
                ) == next.settings && final(stack)@ == next.stack && *final(has_config_version)
                    == next.has_config_version,
                Err(e) => r == Err::<(), DocumentError>(e),
            }
        }),
{
    let line = trim_chars(raw);
    let ghost l = line@;
    if line.len() == 0 || line[0] == ';' || line[0] == '#' {
        return Ok(());
    }
    if stack.len() == 0 && line[0] == '[' {
        if line[line.len() - 1] != ']' || line.len() < 3 {
            return Err(DocumentError::MalformedSection { line: n });
        }
        let inner = copy_range(&line, 1, line.len() - 1);
        let name = trim_chars(&inner);
        if name.len() == 0 {
            return Err(DocumentError::EmptySection { line: n });
        }
        *section = name;
        return Ok(());
    }
    if stack.len() == 0 {
        match chars_find_char(&line, '=') {
            None => {
                return Err(DocumentError::MalformedSetting { line: n });
            },
            Some(k) => {
                let key_raw = copy_range(&line, 0, k);
                let key = trim_chars(&key_raw);
                assert(key_raw@ =~= l.take(k as int));
                if key.len() == 0 {
                    return Err(DocumentError::EmptyKey { line: n });
                }
                let value_raw = copy_range(&line, k + 1, line.len());
                assert(value_raw@ =~= l.skip(k + 1));
                let value = trim_chars(&value_raw);
                if section.len() == 0 && chars_equal(&key, config_key) {
                    *has_config_version = match parse_u32_chars(&value) {
                        Some(v) => v > 0,
                        None => false,
                    };
                }
                let entry = Setting {
                    section: from_chars(section),
                    key: from_chars(&key),
                    value: from_chars(&value),
                };
                let ghost before = settings_view(settings@);
                settings.push(entry);
                assert(settings_view(settings@) =~= before.push((section@, key@, value@)));
                return update_delimiters(&value, n, stack);
            },
        }
    }
    update_delimiters(&line, n, stack)
}

/// Reads a `project.godot` text into its settings, in file order.
pub fn parse_document(text: &str) -> (r: Result<Vec<Setting>, DocumentError>)
    ensures
        match document_settings(text@) {
            Ok(s) => r matches Ok(v) && settings_view(v@) == s,
            Err(e) => r == Err::<Vec<Setting>, DocumentError>(e),
        },
{
    let chars = to_chars(text);
    let ls = split_lines(&chars);
    let config_key = to_chars("config_version");
    let mut section: Vec<char> = Vec::new();
    let mut settings: Vec<Setting> = Vec::new();
    let mut stack: Vec<char> = Vec::new();
    let mut has_config_version = false;
    let mut i: usize = 0;
    assert(settings_view(settings@) =~= seq![]);
    while i < ls.len()
        invariant
            i <= ls.len(),
            rows(ls@) == lines(text@),
            config_key@ == "config_version"@,
            read_lines(rows(ls@), i as int) == Ok::<DocumentState, DocumentError>(
                DocumentState {
                    section: section@,
                    settings: settings_view(settings@),
                    stack: stack@,
                    has_config_version,
                },
            ),
        decreases ls.len() - i,
    {
        let r = read_line_exec(
            &ls[i],
            i + 1,
            &mut section,
            &mut settings,
            &mut stack,
            &mut has_config_version,
            &config_key,
        );
        assert(rows(ls@)[i as int] == ls@[i as int]@);
        if let Err(e) = r {
            proof {
                lemma_read_lines_error_persists(rows(ls@), i + 1, ls.len() as int, e);
            }
            return Err(e);
        }
        i += 1;
    }
    if stack.len() > 0 {
        return Err(DocumentError::UnterminatedMultiline);
    }
    if !has_config_version {
        return Err(DocumentError::MissingConfigVersion);
    }
    Ok(settings)
}

// ---------------------------------------------------------------------------
// Settings and values

/// The value of the last assignment to `section`/`key`.
pub open spec fn lookup_setting(
    settings: Seq<(Seq<char>, Seq<char>, Seq<char>)>,
    section: Seq<char>,
    key: Seq<char>,
) -> Option<Seq<char>>
    decreases settings.len(),
{
    if settings.len() == 0 {
        None
    } else if settings.last().0 == section && settings.last().1 == key {
        Some(settings.last().2)
    } else {
        lookup_setting(settings.drop_last(), section, key)
    }
}

/// The value of the last assignment to `wanted_section`/`wanted_key`.
pub fn find_setting<'a>(settings: &'a Vec<Setting>, wanted_section: &str, wanted_key: &str) -> (r:
    Option<&'a str>)
    ensures
        match lookup_setting(settings_view(settings@), wanted_section@, wanted_key@) {
            Some(v) => r matches Some(x) && x@ == v,
            None => r is None,
        },
{
    let section = wanted_section.to_string();
    let key = wanted_key.to_string();
    let mut i = settings.len();
    assert(settings@.take(i as int) =~= settings@);
    while i > 0
        invariant
            i <= settings.len(),
            section@ == wanted_section@,
            key@ == wanted_key@,
            lookup_setting(settings_view(settings@), wanted_section@, wanted_key@)
                == lookup_setting(settings_view(settings@.take(i as int)), wanted_section@, wanted_key@),
        decreases i,
    {
        let entry = &settings[i - 1];
        let ghost prefix = settings_view(settings@.take(i as int));
        assert(prefix.last() == setting_view(*entry));
        assert(prefix.drop_last() =~= settings_view(settings@.take(i - 1)));
        if entry.section == section && entry.key == key {
            return Some(entry.value.as_str());
        }
        i -= 1;
    }
    assert(settings_view(settings@.take(0)) =~= seq![]);
    None
}

/// A setting value that is a JSON-style quoted string, decoded.
pub open spec fn quoted_value(value: Seq<char>) -> Option<Seq<char>> {
    let t = trim(value);
    if t.len() > 0 && t[0] == '"' && t.last() == '"' {
        json_string_value(t)
    } else {
        None
    }
}

/// Decodes a setting value that is a quoted string.
pub fn parse_string(value: &str) -> (r: Option<String>)
    ensures
        match quoted_value(value@) {
            Some(v) => r matches Some(x) && x@ == v,
            None => r is None,
        },
{
    let chars = to_chars(value);
    let t = trim_chars(&chars);
    if !(t.len() > 0 && t[0] == '"' && t[t.len() - 1] == '"') {
        return None;
    }
    let text = from_chars(&t);
    decode_json_string(text.as_str())
}

/// `major.minor` from the first quoted item of a feature list, when both
/// parts are made of ASCII digits.
pub open spec fn version_hint(value: Seq<char>) -> Option<Seq<char>> {
    match find_char(value, '"') {
        None => None,
        Some(a) => {
            let rest = value.skip(a + 1);
            match find_char(rest, '"') {
                None => None,
                Some(b) => {
                    let pieces = split_char(rest.take(b), '.');
                    if pieces.len() >= 2 && all_ascii_digits(pieces[0]) && all_ascii_digits(
                        pieces[1],
                    ) {
                        Some(pieces[0] + seq!['.'] + pieces[1])
                    } else {
                        None
                    }
                },
            }
        },
    }
}

pub fn chars_all_ascii_digits(s: &[char]) -> (r: bool)
    ensures
        r == all_ascii_digits(s@),
{
    let mut i: usize = 0;
    while i < s.len()
        invariant
            i <= s.len(),
            forall|k: int| 0 <= k < i ==> is_ascii_digit(#[trigger] s@[k]),
        decreases s.len() - i,
    {
        if !char_is_ascii_digit(s[i]) {
            return false;
        }
        i += 1;
    }
    true
}

/// The `major.minor` version hint of a `config/features` value.
pub fn extract_version_hint(value: &str) -> (r: Option<String>)
    ensures
        match version_hint(value@) {
            Some(v) => r matches Some(x) && x@ == v,
            None => r is None,
        },
{
    let chars = to_chars(value);
    let a = match chars_find_char(&chars, '"') {
        Some(a) => a,
        None => {
            return None;
        },
    };
    assert(a < chars.len());
    let rest = copy_range(&chars, a + 1, chars.len());
    assert(rest@ =~= value@.skip(a + 1));
    let b = match chars_find_char(&rest, '"') {
        Some(b) => b,
        None => {
            return None;
        },
    };
    let inner = copy_range(&rest, 0, b);
    assert(inner@ =~= rest@.take(b as int));
    let pieces = split_chars(&inner, '.');
    if pieces.len() < 2 {
        return None;
    }
    assert(rows(pieces@)[0] == pieces@[0]@ && rows(pieces@)[1] == pieces@[1]@);
    if !chars_all_ascii_digits(&pieces[0]) || !chars_all_ascii_digits(&pieces[1]) {
        return None;
    }
    let mut out = from_chars(&pieces[0]);
    crate::text::push_char(&mut out, '.');
    let minor = from_chars(&pieces[1]);
    let out = out.concat(minor.as_str());
    assert(out@ =~= pieces@[0]@ + seq!['.'] + pieces@[1]@);
    Some(out)
}

// ---------------------------------------------------------------------------
// Resources

/// `..` stands as a whole `/`-separated segment at index `i`.
pub open spec fn parent_segment_at(r: Seq<char>, i: int) -> bool {
    &&& 0 <= i && i + 2 <= r.len()
    &&& r[i] == '.' && r[i + 1] == '.'
    &&& (i == 0 || r[i - 1] == '/')
    &&& (i + 2 == r.len() || r[i + 2] == '/')
}

/// A relative path that is absolute or climbs out through `..`.
pub open spec fn escapes_root(r: Seq<char>) -> bool {
    (r.len() > 0 && r[0] == '/') || exists|i: int| parent_segment_at(r, i)
}

/// The project-relative path of a `res://` reference that stays inside the
/// project.
pub open spec fn res_relative_path(value: Seq<char>) -> Option<Seq<char>> {
    if starts_with(value, "res://"@) && !escapes_root(value.skip(6)) {
        Some(value.skip(6))
    } else {
        None
    }
}

/// The project-relative path of a `res://` reference, or `None` when the
/// value is not one or would leave the project directory.
pub fn res_relative(value: &str) -> (r: Option<String>)
    ensures
        match res_relative_path(value@) {
            Some(p) => r matches Some(x) && x@ == p,
            None => r is None,
        },
{
    let chars = to_chars(value);
    let prefix = to_chars("res://");
    proof {
        reveal_strlit("res://");
    }
    if !chars_starts_with(&chars, &prefix) {
        return None;
    }
    let rest = copy_range(&chars, 6, chars.len());
    assert(rest@ =~= value@.skip(6));
    if rest.len() > 0 && rest[0] == '/' {
        return None;
    }
    let mut i: usize = 0;
    while i < rest.len() && rest.len() - i >= 2
        invariant
            i <= rest.len(),
            rest@ == value@.skip(6),
            starts_with(value@, "res://"@),
            forall|k: int| 0 <= k < i ==> !parent_segment_at(rest@, k),
        decreases rest.len() - i,
    {
        if rest[i] == '.' && rest[i + 1] == '.' && (i == 0 || rest[i - 1] == '/') && (i + 2
            == rest.len() || rest[i + 2] == '/') {
            assert(parent_segment_at(rest@, i as int));
            return None;
        }
        i += 1;
    }
    assert forall|k: int| !parent_segment_at(rest@, k) by {
        if 0 <= k < i {
        }
    }
    Some(from_chars(&rest))
}

/// Where a project's icon setting points.
#[derive(Debug, Clone, PartialEq, Eq)]
pub enum IconSource {
    /// A file inside the project, by its project-relative path.
    Resource(String),
    /// A `uid://` reference, resolved through import metadata.
    Uid(String),
}

pub enum IconRef {
    Resource(Seq<char>),
    Uid(Seq<char>),
}

impl View for IconSource {
    type V = IconRef;

    open spec fn view(&self) -> IconRef {
        match self {
            IconSource::Resource(p) => IconRef::Resource(p@),
            IconSource::Uid(u) => IconRef::Uid(u@),
        }
    }
}

impl DeepView for IconSource {
    type V = IconRef;

    open spec fn deep_view(&self) -> IconRef {
        self@
    }
}

/// A `uid://` value is looked up through import metadata; anything else must
/// be a `res://` path inside the project.
pub open spec fn icon_reference(value: Seq<char>) -> Option<IconRef> {
    if starts_with(value, "uid://"@) {
        Some(IconRef::Uid(value))
    } else {
        match res_relative_path(value) {
            Some(p) => Some(IconRef::Resource(p)),
            None => None,
        }
    }
}

pub fn icon_source(value: &str) -> (r: Option<IconSource>)
    ensures
        match icon_reference(value@) {
            Some(i) => r matches Some(x) && x@ == i,
            None => r is None,
        },
{
    let chars = to_chars(value);
    let prefix = to_chars("uid://");
    if chars_starts_with(&chars, &prefix) {
        return Some(IconSource::Uid(value.to_string()));
    }
    match res_relative(value) {
        Some(p) => Some(IconSource::Resource(p)),
        None => None,
    }
}

/// The `uid` and `source_file` entries of the first `n` lines of an
/// `.import` file; each later entry replaces an earlier one.
pub open spec fn import_fields(ls: Seq<Seq<char>>, n: int) -> (Option<Seq<char>>, Option<Seq<char>>)
    decreases n,
{
    if n <= 0 {
        (None, None)
    } else {
        let (uid, source) = import_fields(ls, n - 1);
        let l = trim(ls[n - 1]);
        if starts_with(l, "uid="@) {
            (quoted_value(l.skip(4)), source)
        } else if starts_with(l, "source_file="@) {
            (uid, quoted_value(l.skip(12)))
        } else {
            (uid, source)
        }
    }
}

/// The project-relative source of an `.import` file whose `uid` is
/// `wanted_uid`.
pub open spec fn import_source(text: Seq<char>, wanted_uid: Seq<char>) -> Option<Seq<char>> {
    let ls = lines(text);
    let (uid, source) = import_fields(ls, ls.len() as int);
    if uid == Some(wanted_uid) {
        match source {
            Some(s) => res_relative_path(s),
            None => None,
        }
    } else {
        None
    }
}

/// The project-relative source file that an `.import` metadata text
/// declares for `wanted_uid`.
pub fn import_source_for_uid(text: &str, wanted_uid: &str) -> (r: Option<String>)
    ensures
        match import_source(text@, wanted_uid@) {
            Some(p) => r matches Some(x) && x@ == p,
            None => r is None,
        },
{
    let chars = to_chars(text);
    let ls = split_lines(&chars);
    let uid_prefix = to_chars("uid=");
    let source_prefix = to_chars("source_file=");
    proof {
        reveal_strlit("uid=");
        reveal_strlit("source_file=");
    }
    let mut uid: Option<String> = None;
    let mut source: Option<String> = None;
    let mut i: usize = 0;
    while i < ls.len()
        invariant
            i <= ls.len(),
            rows(ls@) == lines(text@),
            uid_prefix@ == "uid="@,
            source_prefix@ == "source_file="@,
            uid_prefix@.len() == 4,
            source_prefix@.len() == 12,
            ({
                let (u, s) = import_fields(rows(ls@), i as int);
                &&& (match u {
                    Some(v) => uid matches Some(x) && x@ == v,
                    None => uid is None,
                })
                &&& (match s {
                    Some(v) => source matches Some(x) && x@ == v,
                    None => source is None,
                })
            }),
        decreases ls.len() - i,
    {
        assert(rows(ls@)[i as int] == ls@[i as int]@);
        let line = trim_chars(&ls[i]);
        if chars_starts_with(&line, &uid_prefix) {
            let rest = copy_range(&line, 4, line.len());
            assert(rest@ =~= line@.skip(4));
            let rest_text = from_chars(&rest);
            uid = parse_string(rest_text.as_str());
        } else if chars_starts_with(&line, &source_prefix) {
            let rest = copy_range(&line, 12, line.len());
            assert(rest@ =~= line@.skip(12));
            let rest_text = from_chars(&rest);
            source = parse_string(rest_text.as_str());
        }
        i += 1;
    }
    let matches = match &uid {
        Some(u) => u.as_str().to_string() == wanted_uid.to_string(),
        None => false,
    };
    if !matches {
        return None;
    }
    match source {
        Some(s) => res_relative(s.as_str()),
        None => None,
    }
}

/// Directories that the search for import metadata does not enter.
pub open spec fn skipped_directory(name: Seq<char>) -> bool {
    name == ".git"@ || name == ".godot"@ || name == ".direnv"@ || name == "target"@
}

/// Whether the import-metadata search enters a directory with this name.
pub fn descends_into(name: &str) -> (r: bool)
    ensures
        r == !skipped_directory(name@),
{
    let n = name.to_string();
    !(n == ".git".to_string() || n == ".godot".to_string() || n == ".direnv".to_string() || n
        == "target".to_string())
}

/// A file name whose extension is `import` (it has a stem before `.import`).
pub open spec fn is_import_file_name(name: Seq<char>) -> bool {
    ends_with(name, ".import"@) && name.len() > 7
}

pub fn is_import_metadata(name: &str) -> (r: bool)
    ensures
        r == is_import_file_name(name@),
{
    let chars = to_chars(name);
    let suffix = to_chars(".import");
    proof {
        reveal_strlit(".import");
    }
    chars_ends_with(&chars, &suffix) && chars.len() > 7
}

// ---------------------------------------------------------------------------
// Project summary

/// What a `project.godot` text says about its project.
#[derive(Debug, Clone)]
pub struct ProjectSummary {
    pub name: String,
    pub icon: Option<IconSource>,
    pub version_hint: Option<String>,
}

pub open spec fn fallback_name(directory_name: Option<Seq<char>>) -> Seq<char> {
    match directory_name {
        Some(d) => d,
        None => "Unnamed project"@,
    }
}

/// `application/config/name` when it is a quoted, non-blank string, else the
/// fallback.
pub open spec fn summary_name(
    settings: Seq<(Seq<char>, Seq<char>, Seq<char>)>,
    fallback: Seq<char>,
) -> Seq<char> {
    match lookup_setting(settings, "application"@, "config/name"@) {
        Some(v) => match quoted_value(v) {
            Some(n) => if trim(n).len() > 0 {
                n
            } else {
                fallback
            },
            None => fallback,
        },
        None => fallback,
    }
}

/// Where `application/config/icon` points, when it is a quoted reference.
pub open spec fn summary_icon(settings: Seq<(Seq<char>, Seq<char>, Seq<char>)>) -> Option<IconRef> {
    match lookup_setting(settings, "application"@, "config/icon"@) {
        Some(v) => match quoted_value(v) {
            Some(s) => icon_reference(s),
            None => None,
        },
        None => None,
    }
}

/// The version hint of `application/config/features`.
pub open spec fn summary_version_hint(settings: Seq<(Seq<char>, Seq<char>, Seq<char>)>) -> Option<
    Seq<char>,
> {
    match lookup_setting(settings, "application"@, "config/features"@) {
        Some(v) => version_hint(v),
        None => None,
    }
}

/// Reads a `project.godot` text; `directory_name` is the project
/// directory's name, used when the project has no usable name.
pub fn inspect_text(text: &str, directory_name: Option<&str>) -> (r: Result<
    ProjectSummary,
    DocumentError,
>)
    ensures
        match document_settings(text@) {
            Err(e) => r == Err::<ProjectSummary, DocumentError>(e),
            Ok(s) => r matches Ok(p) && p.name@ == summary_name(
                s,
                fallback_name(directory_name.deep_view()),
            ) && p.icon.deep_view() == summary_icon(s) && p.version_hint.deep_view()
                == summary_version_hint(s),
        },
{
    let settings = match parse_document(text) {
        Ok(s) => s,
        Err(e) => {
            return Err(e);
        },
    };
    let ghost sv = settings_view(settings@);
    let fallback: String = match directory_name {
        Some(d) => d.to_string(),
        None => "Unnamed project".to_string(),
    };
    let name = match find_setting(&settings, "application", "config/name") {
        Some(v) => match parse_string(v) {
            Some(n) => {
                let chars = to_chars(n.as_str());
                let t = trim_chars(&chars);
                if t.len() > 0 {
                    n
                } else {
                    fallback
                }
            },
            None => fallback,
        },
        None => fallback,
    };
    let icon = match find_setting(&settings, "application", "config/icon") {
        Some(v) => match parse_string(v) {
            Some(s) => icon_source(s.as_str()),
            None => None,
        },
        None => None,
    };
    let version_hint = match find_setting(&settings, "application", "config/features") {
        Some(v) => extract_version_hint(v),
        None => None,
    };
    Ok(ProjectSummary { name, icon, version_hint })
}

} // verus!
