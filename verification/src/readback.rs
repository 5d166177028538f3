//! What a generated `project.godot` reads back as.
use vstd::prelude::*;
use crate::generator::{
    lemma_split_char_nonempty, escaped_name, feature_label, feature_version, features_value, project_godot_text,
    rendering_method, rendering_section, FEATURES_CLOSE, FEATURES_OPEN, FEATURES_SEPARATOR,
    GODOT3_DRIVER, GODOT3_HEAD, GODOT3_TAIL, GODOT4_FEATURES, GODOT4_HEAD, GODOT4_ICON, RENDERING_HEAD, RENDERING_MOBILE, RENDERING_TAIL,
};
use crate::model::Renderer;
use crate::json::{hex_digit, json_escaped, json_escaped_char, json_quoted, json_string_value};
use crate::project::{
    all_ascii_digits, digits_value, document_settings, initial_state, is_closer, is_opener,
    lookup_setting, quoted_value, read_line, read_lines, scan_delimiters, summary_version_hint,
    valid_config_version, version_hint, DelimiterFault, DocumentError, DocumentState,
};
use crate::text::{
    find_char, is_white_space, lemma_find_char, lemma_find_char_none, lines, split_char, strip_cr, trim,
    trim_end, trim_start,
};

verus! {

/// Breaking text at a line feed: the line before it, then the lines after.
proof fn lemma_lines_cons(x: Seq<char>, y: Seq<char>)
    requires
        forall|k: int| 0 <= k < x.len() ==> #[trigger] x[k] != '\n',
    ensures
        lines(x + seq!['\n'] + y) == seq![strip_cr(x)] + lines(y),
{
    let s = x + seq!['\n'] + y;
    assert(s[x.len() as int] == '\n');
    assert(forall|k: int| 0 <= k < x.len() ==> #[trigger] s[k] == x[k]);
    lemma_find_char(s, '\n', x.len() as int);
    assert(s.take(x.len() as int) =~= x);
    assert(s.skip(x.len() as int + 1) =~= y);
}

/// A text whose first and last characters are not white space is its own
/// trimmed form.
proof fn lemma_trim_keeps(s: Seq<char>)
    requires
        s.len() > 0,
        !is_white_space(s[0]),
        !is_white_space(s.last()),
    ensures
        trim(s) == s,
{
    assert(trim_start(s) == s);
    assert(trim_end(s) == s);
}

/// Inside a string, the scan passes over characters that are neither a
/// quote nor a backslash.
proof fn lemma_scan_plain_in_string(line: Seq<char>, i: int, j: int, stack: Seq<char>)
    requires
        0 <= i <= j <= line.len(),
        forall|k: int| i <= k < j ==> #[trigger] line[k] != '"' && line[k] != '\\',
    ensures
        scan_delimiters(line, i, true, false, stack) == scan_delimiters(line, j, true, false, stack),
    decreases j - i,
{
    if i < j {
        assert(line[i] != '"' && line[i] != '\\');
        lemma_scan_plain_in_string(line, i + 1, j, stack);
    }
}

/// Outside a string, the scan passes over characters that open, close or
/// end nothing.
proof fn lemma_scan_plain_outside(line: Seq<char>, i: int, j: int, stack: Seq<char>)
    requires
        0 <= i <= j <= line.len(),
        forall|k: int|
            i <= k < j ==> #[trigger] line[k] != '"' && !is_opener(line[k]) && !is_closer(line[k])
                && line[k] != ';' && line[k] != '#',
    ensures
        scan_delimiters(line, i, false, false, stack) == scan_delimiters(line, j, false, false, stack),
    decreases j - i,
{
    if i < j {
        assert(line[i] != '"' && !is_opener(line[i]) && !is_closer(line[i]));
        lemma_scan_plain_outside(line, i + 1, j, stack);
    }
}

/// A comment line leaves the reader's state as it is.
proof fn lemma_read_comment(st: DocumentState, l: Seq<char>, n: int)
    requires
        l.len() > 0,
        l[0] == ';',
        !is_white_space(l.last()),
    ensures
        read_line(st, l, n) == Ok::<DocumentState, DocumentError>(st),
{
    lemma_trim_keeps(l);
}

/// A blank line leaves the reader's state as it is.
proof fn lemma_read_blank(st: DocumentState, n: int)
    ensures
        read_line(st, seq![], n) == Ok::<DocumentState, DocumentError>(st),
{
    assert(trim_start(seq![]) == Seq::<char>::empty());
    assert(trim_end(seq![]) == Seq::<char>::empty());
}

/// A section header, read with no delimiter open, starts that section.
proof fn lemma_read_section(st: DocumentState, name: Seq<char>, n: int)
    requires
        st.stack.len() == 0,
        name.len() > 0,
        !is_white_space(name[0]),
        !is_white_space(name.last()),
    ensures
        read_line(st, seq!['['] + name + seq![']'], n) == Ok::<DocumentState, DocumentError>(
            DocumentState { section: name, ..st },
        ),
{
    let raw = seq!['['] + name + seq![']'];
    lemma_trim_keeps(raw);
    assert(raw.subrange(1, raw.len() - 1) =~= name);
    lemma_trim_keeps(name);
}

/// A `key=value` line, read with no delimiter open, whose value leaves the
/// delimiters as they were, adds the setting to the current section.
proof fn lemma_read_setting(st: DocumentState, key: Seq<char>, value: Seq<char>, n: int)
    requires
        st.stack.len() == 0,
        key.len() > 0,
        !is_white_space(key[0]),
        !is_white_space(key.last()),
        key[0] != '[' && key[0] != ';' && key[0] != '#',
        forall|k: int| 0 <= k < key.len() ==> #[trigger] key[k] != '=',
        value.len() > 0,
        !is_white_space(value[0]),
        !is_white_space(value.last()),
        scan_delimiters(value, 0, false, false, st.stack) == Ok::<Seq<char>, DelimiterFault>(
            st.stack,
        ),
    ensures
        read_line(st, key + seq!['='] + value, n) == Ok::<DocumentState, DocumentError>(
            DocumentState {
                settings: st.settings.push((st.section, key, value)),
                has_config_version: if st.section.len() == 0 && key == "config_version"@ {
                    crate::project::valid_config_version(value)
                } else {
                    st.has_config_version
                },
                ..st
            },
        ),
{
    let raw = key + seq!['='] + value;
    assert(raw[0] == key[0]);
    assert(raw.last() == value.last());
    lemma_trim_keeps(raw);
    assert(forall|k: int| 0 <= k < key.len() ==> #[trigger] raw[k] == key[k]);
    assert(raw[key.len() as int] == '=');
    lemma_find_char(raw, '=', key.len() as int);
    assert(raw.take(key.len() as int) =~= key);
    assert(raw.skip(key.len() as int + 1) =~= value);
    lemma_trim_keeps(key);
    lemma_trim_keeps(value);
}

/// A hexadecimal digit is no quote, backslash or line break.
proof fn lemma_hex_digit_plain(n: u32)
    requires
        n < 16,
    ensures
        hex_digit(n) != '"',
        hex_digit(n) != '\\',
        hex_digit(n) != '\n',
        hex_digit(n) != '\r',
{
}

/// Inside a string, the scan of the line passes over the escaped form of
/// `c` at `i` and stays inside the string, with no escape pending.
proof fn lemma_scan_escaped_char(line: Seq<char>, i: int, c: char, stack: Seq<char>)
    requires
        0 <= i,
        i + json_escaped_char(c).len() <= line.len(),
        line.subrange(i, i + json_escaped_char(c).len()) == json_escaped_char(c),
    ensures
        scan_delimiters(line, i, true, false, stack) == scan_delimiters(
            line,
            i + json_escaped_char(c).len(),
            true,
            false,
            stack,
        ),
{
    let e = json_escaped_char(c);
    assert(forall|k: int| 0 <= k < e.len() ==> line[i + k] == #[trigger] e[k]) by {
        assert forall|k: int| 0 <= k < e.len() implies line[i + k] == #[trigger] e[k] by {
            assert(line.subrange(i, i + e.len())[k] == line[i + k]);
        }
    }
    assert(e.len() == 1 || e.len() == 2 || e.len() == 6);
    assert(e[0] == line[i]);
    if e.len() == 1 {
        assert(e[0] == c && c != '"' && c != '\\');
    } else if e.len() == 2 {
        assert(line[i] == '\\');
        assert(scan_delimiters(line, i, true, false, stack) == scan_delimiters(line, i + 1, true, true, stack));
    } else {
        let n = c as u32;
        lemma_hex_digit_plain(n / 16);
        lemma_hex_digit_plain(n % 16);
        assert(line[i + 1] == e[1]);
        assert(line[i + 2] == e[2]);
        assert(line[i + 3] == e[3]);
        assert(line[i + 4] == e[4]);
        assert(line[i + 5] == e[5]);
        assert(scan_delimiters(line, i, true, false, stack) == scan_delimiters(line, i + 1, true, true, stack));
        assert(scan_delimiters(line, i + 1, true, true, stack) == scan_delimiters(line, i + 2, true, false, stack));
        assert(scan_delimiters(line, i + 2, true, false, stack) == scan_delimiters(line, i + 3, true, false, stack));
        assert(scan_delimiters(line, i + 3, true, false, stack) == scan_delimiters(line, i + 4, true, false, stack));
        assert(scan_delimiters(line, i + 4, true, false, stack) == scan_delimiters(line, i + 5, true, false, stack));
    }
}

/// Inside a string, the scan passes over the escaped form of `s` at `i`.
proof fn lemma_scan_escaped(line: Seq<char>, i: int, s: Seq<char>, stack: Seq<char>)
    requires
        0 <= i,
        i + json_escaped(s).len() <= line.len(),
        line.subrange(i, i + json_escaped(s).len()) == json_escaped(s),
    ensures
        scan_delimiters(line, i, true, false, stack) == scan_delimiters(
            line,
            i + json_escaped(s).len(),
            true,
            false,
            stack,
        ),
    decreases s.len(),
{
    if s.len() > 0 {
        let e = json_escaped_char(s[0]);
        let rest = json_escaped(s.drop_first());
        assert(json_escaped(s) == e + rest);
        assert(line.subrange(i, i + e.len()) =~= e) by {
            assert(line.subrange(i, i + e.len()) =~= line.subrange(i, i + json_escaped(s).len()).subrange(0, e.len() as int));
        }
        lemma_scan_escaped_char(line, i, s[0], stack);
        assert(line.subrange(i + e.len(), i + e.len() + rest.len()) =~= rest) by {
            assert(line.subrange(i + e.len(), i + e.len() + rest.len()) =~= line.subrange(i, i + json_escaped(s).len()).subrange(e.len() as int, json_escaped(s).len() as int));
        }
        lemma_scan_escaped(line, i + e.len(), s.drop_first(), stack);
    } else {
        assert(json_escaped(s).len() == 0);
    }
}

/// The escaped form of a string holds no line break.
proof fn lemma_escaped_has_no_line_break(s: Seq<char>)
    ensures
        forall|k: int|
            0 <= k < json_escaped(s).len() ==> #[trigger] json_escaped(s)[k] != '\n'
                && json_escaped(s)[k] != '\r',
    decreases s.len(),
{
    if s.len() > 0 {
        let e = json_escaped_char(s[0]);
        let rest = json_escaped(s.drop_first());
        lemma_escaped_has_no_line_break(s.drop_first());
        let n = s[0] as u32;
        if n < 32 {
            lemma_hex_digit_plain(n / 16);
            lemma_hex_digit_plain(n % 16);
        }
        assert forall|k: int| 0 <= k < json_escaped(s).len() implies #[trigger] json_escaped(s)[k]
            != '\n' && json_escaped(s)[k] != '\r' by {
            assert(json_escaped(s) == e + rest);
            if k >= e.len() {
                assert(json_escaped(s)[k] == rest[k - e.len()]);
            }
        }
    }
}

/// A name written as a JSON string literal scans as one closed string: it
/// leaves the open delimiters as they were.
proof fn lemma_quoted_scans_closed(s: Seq<char>, stack: Seq<char>)
    ensures
        scan_delimiters(json_quoted(s), 0, false, false, stack) == Ok::<Seq<char>, crate::project::DelimiterFault>(stack),
{
    let q = json_quoted(s);
    let e = json_escaped(s);
    let m: int = e.len() as int;
    assert(q[0] == '"');
    assert(scan_delimiters(q, 0, false, false, stack) == scan_delimiters(q, 1, true, false, stack));
    assert(q.subrange(1, 1 + m) =~= e);
    lemma_scan_escaped(q, 1, s, stack);
    assert(q[1 + m] == '"');
    assert(scan_delimiters(q, 1 + m, true, false, stack) == scan_delimiters(q, 2 + m, false, false, stack));
}

/// The feature version of `4.7.1-stable` is `4.7`.
proof fn lemma_feature_version_example()
    ensures
        feature_version("4.7.1-stable"@) == "4.7"@,
{
    reveal_strlit("4.7.1-stable");
    reveal_strlit("4.7.1");
    reveal_strlit("4.7");
    reveal_strlit(".");
    reveal_strlit("0");
    let v = "4.7.1-stable"@;
    lemma_find_char(v, '-', 5);
    let branch = v.take(5);
    assert(branch =~= "4.7.1"@);
    lemma_find_char_none(v.skip(6), '-');
    assert(split_char(v.skip(6), '-').len() >= 1);
    assert(split_char(v, '-')[0] == branch);
    lemma_find_char(branch, '.', 1);
    let tail = branch.skip(2);
    assert(tail =~= seq!['7', '.', '1']);
    lemma_find_char(tail, '.', 1);
    assert(split_char(tail, '.')[0] =~= seq!['7']);
    assert(split_char(branch, '.')[0] =~= seq!['4']);
    assert(split_char(branch, '.')[1] =~= seq!['7']);
    assert(split_char(branch, '.').len() >= 2);
}

/// A quoted text with no quote or backslash inside scans as one closed
/// string.
proof fn lemma_scan_quoted_plain(p: Seq<char>, stack: Seq<char>)
    requires
        forall|k: int| 0 <= k < p.len() ==> #[trigger] p[k] != '"' && p[k] != '\\',
    ensures
        scan_delimiters(seq!['"'] + p + seq!['"'], 0, false, false, stack) == Ok::<
            Seq<char>,
            DelimiterFault,
        >(stack),
{
    let q = seq!['"'] + p + seq!['"'];
    let m: int = p.len() as int;
    assert(forall|k: int| 1 <= k < 1 + m ==> #[trigger] q[k] == p[k - 1]);
    assert(scan_delimiters(q, 0, false, false, stack) == scan_delimiters(q, 1, true, false, stack));
    lemma_scan_plain_in_string(q, 1, 1 + m, stack);
    assert(q[1 + m] == '"');
    assert(scan_delimiters(q, 1 + m, true, false, stack) == scan_delimiters(q, 2 + m, false, false, stack));
}

/// A feature list with a plain version and label scans closed.
proof fn lemma_scan_features(fv: Seq<char>, label: Seq<char>, stack: Seq<char>)
    requires
        forall|k: int| 0 <= k < fv.len() ==> #[trigger] fv[k] != '"' && fv[k] != '\\',
        forall|k: int| 0 <= k < label.len() ==> #[trigger] label[k] != '"' && label[k] != '\\',
    ensures
        scan_delimiters(features_value(fv, label), 0, false, false, stack) == Ok::<
            Seq<char>,
            DelimiterFault,
        >(stack),
{
    reveal_strlit("PackedStringArray(\"");
    reveal_strlit("\", \"");
    reveal_strlit("\")");
    let v = features_value(fv, label);
    let a: int = fv.len() as int;
    let b: int = label.len() as int;
    let pushed = stack.push('(');
    assert(forall|k: int| 0 <= k < 17 ==> #[trigger] v[k] == FEATURES_OPEN@[k]);
    lemma_scan_plain_outside(v, 0, 17, stack);
    assert(v[17] == '(');
    assert(scan_delimiters(v, 17, false, false, stack) == scan_delimiters(v, 18, false, false, pushed));
    assert(v[18] == '"');
    assert(scan_delimiters(v, 18, false, false, pushed) == scan_delimiters(v, 19, true, false, pushed));
    assert(forall|k: int| 19 <= k < 19 + a ==> #[trigger] v[k] == fv[k - 19]);
    lemma_scan_plain_in_string(v, 19, 19 + a, pushed);
    assert(v[19 + a] == '"');
    assert(scan_delimiters(v, 19 + a, true, false, pushed) == scan_delimiters(v, 20 + a, false, false, pushed));
    if label.len() == 0 {
        assert(v[20 + a] == ')');
        assert(pushed.drop_last() =~= stack);
        assert(scan_delimiters(v, 20 + a, false, false, pushed) == scan_delimiters(v, 21 + a, false, false, stack));
        assert(v.len() == 21 + a);
    } else {
        assert(v[20 + a] == ',' && v[21 + a] == ' ');
        lemma_scan_plain_outside(v, 20 + a, 22 + a, pushed);
        assert(v[22 + a] == '"');
        assert(scan_delimiters(v, 22 + a, false, false, pushed) == scan_delimiters(v, 23 + a, true, false, pushed));
        assert(forall|k: int| 23 + a <= k < 23 + a + b ==> #[trigger] v[k] == label[k - 23 - a]);
        lemma_scan_plain_in_string(v, 23 + a, 23 + a + b, pushed);
        assert(v[23 + a + b] == '"');
        assert(scan_delimiters(v, 23 + a + b, true, false, pushed) == scan_delimiters(v, 24 + a + b, false, false, pushed));
        assert(v[24 + a + b] == ')');
        assert(pushed.drop_last() =~= stack);
        assert(scan_delimiters(v, 24 + a + b, false, false, pushed) == scan_delimiters(v, 25 + a + b, false, false, stack));
        assert(v.len() == 25 + a + b);
    }
}

/// Text that holds no quote, backslash or line feed.
pub open spec fn plain_text(s: Seq<char>) -> bool {
    forall|k: int| 0 <= k < s.len() ==> #[trigger] s[k] != '"' && s[k] != '\\' && s[k] != '\n'
}

/// Joining plain texts gives plain text.
proof fn lemma_join_plain(a: Seq<char>, b: Seq<char>)
    requires
        plain_text(a),
        plain_text(b),
    ensures
        plain_text(a + b),
{
    assert forall|k: int| 0 <= k < (a + b).len() implies #[trigger] (a + b)[k] != '"' && (a
        + b)[k] != '\\' && (a + b)[k] != '\n' by {
        if k >= a.len() {
            assert((a + b)[k] == b[k - a.len()]);
        }
    }
}

/// The pieces of plain text are plain.
proof fn lemma_split_plain(s: Seq<char>, c: char)
    requires
        plain_text(s),
    ensures
        forall|i: int| 0 <= i < split_char(s, c).len() ==> plain_text(#[trigger] split_char(s, c)[i]),
    decreases s.len(),
{
    match find_char(s, c) {
        Some(k) => if 0 <= k < s.len() {
            lemma_split_plain(s.skip(k + 1), c);
            assert(plain_text(s.take(k)));
            assert forall|i: int| 0 <= i < split_char(s, c).len() implies plain_text(
                #[trigger] split_char(s, c)[i],
            ) by {
                if i > 0 {
                    assert(split_char(s, c)[i] == split_char(s.skip(k + 1), c)[i - 1]);
                }
            }
        },
        None => {},
    }
}

/// The feature version of a plain version is plain.
proof fn lemma_feature_version_plain(version: Seq<char>)
    requires
        plain_text(version),
    ensures
        plain_text(feature_version(version)),
{
    reveal_strlit(".");
    reveal_strlit("0");
    lemma_split_plain(version, '-');
    lemma_split_char_nonempty(version, '-');
    let branch = split_char(version, '-')[0];
    lemma_split_plain(branch, '.');
    lemma_split_char_nonempty(branch, '.');
    let pieces = split_char(branch, '.');
    assert(plain_text(pieces[0]));
    assert(plain_text("."@));
    lemma_join_plain(pieces[0], "."@);
    if pieces.len() >= 2 {
        assert(plain_text(pieces[1]));
        lemma_join_plain(pieces[0] + "."@, pieces[1]);
    } else {
        assert(plain_text("0"@));
        lemma_join_plain(pieces[0] + "."@, "0"@);
    }
}

/// Text that holds no line feed.
spec fn no_line_feed(s: Seq<char>) -> bool {
    forall|k: int| 0 <= k < s.len() ==> #[trigger] s[k] != '\n'
}

/// Joining texts without line feeds gives one without.
proof fn lemma_join_no_line_feed(a: Seq<char>, b: Seq<char>)
    requires
        no_line_feed(a),
        no_line_feed(b),
    ensures
        no_line_feed(a + b),
{
    assert forall|k: int| 0 <= k < (a + b).len() implies #[trigger] (a + b)[k] != '\n' by {
        if k >= a.len() {
            assert((a + b)[k] == b[k - a.len()]);
        }
    }
}

/// The line `key=value`.
spec fn setting_line(key: Seq<char>, value: Seq<char>) -> Seq<char> {
    key + seq!['='] + value
}

/// The header line of section `name`.
spec fn section_line(name: Seq<char>) -> Seq<char> {
    seq!['['] + name + seq![']']
}

/// `p` between double quotes.
spec fn quoted(p: Seq<char>) -> Seq<char> {
    seq!['"'] + p + seq!['"']
}

/// The lines of a generated Godot 4 `project.godot` for the escaped name `q`
/// and the feature list `fv`, up to its rendering section.
spec fn head_lines(q: Seq<char>, fv: Seq<char>) -> Seq<Seq<char>> {
    seq![
        "; Engine configuration file."@,
        "; Generated by godot-nvm."@,
        setting_line("config_version"@, "5"@),
        seq![],
        section_line("application"@),
        setting_line("config/name"@, q),
        setting_line("config/features"@, fv),
        setting_line("config/icon"@, quoted("res://icon.svg"@)),
    ]
}

/// The lines of the rendering section for `renderer`.
spec fn rendering_lines(renderer: Renderer) -> Seq<Seq<char>> {
    if renderer == Renderer::ForwardPlus {
        seq![]
    } else {
        seq![
            seq![],
            section_line("rendering"@),
            setting_line("renderer/rendering_method"@, quoted(rendering_method(renderer))),
            setting_line("renderer/rendering_method.mobile"@, quoted(rendering_method(renderer))),
        ]
    }
}

/// The fixed texts of a generated Godot 4 `project.godot`, split at their
/// line feeds.
proof fn lemma_head_literals()
    ensures
        GODOT4_HEAD@ =~= "; Engine configuration file."@ + seq!['\n'] + "; Generated by godot-nvm."@
            + seq!['\n'] + setting_line("config_version"@, "5"@) + seq!['\n'] + seq!['\n']
            + section_line("application"@) + seq!['\n'] + "config/name"@ + seq!['='],
        GODOT4_FEATURES@ =~= seq!['\n'] + "config/features"@ + seq!['='],
        GODOT4_ICON@ =~= seq!['\n'] + setting_line("config/icon"@, quoted("res://icon.svg"@)) + seq![
            '\n',
        ],
        RENDERING_HEAD@ =~= seq!['\n'] + section_line("rendering"@) + seq!['\n']
            + "renderer/rendering_method"@ + seq!['='] + seq!['"'],
        RENDERING_MOBILE@ =~= seq!['"'] + seq!['\n'] + "renderer/rendering_method.mobile"@ + seq![
            '=',
        ] + seq!['"'],
        RENDERING_TAIL@ =~= seq!['"'] + seq!['\n'],
{
    reveal_strlit("; Engine configuration file.\n; Generated by godot-nvm.\nconfig_version=5\n\n[application]\nconfig/name=");
    reveal_strlit("; Engine configuration file.");
    reveal_strlit("; Generated by godot-nvm.");
    reveal_strlit("config_version");
    reveal_strlit("5");
    reveal_strlit("application");
    reveal_strlit("config/name");
    reveal_strlit("\nconfig/features=");
    reveal_strlit("config/features");
    reveal_strlit("\nconfig/icon=\"res://icon.svg\"\n");
    reveal_strlit("config/icon");
    reveal_strlit("res://icon.svg");
    reveal_strlit("\n[rendering]\nrenderer/rendering_method=\"");
    reveal_strlit("rendering");
    reveal_strlit("renderer/rendering_method");
    reveal_strlit("\"\nrenderer/rendering_method.mobile=\"");
    reveal_strlit("renderer/rendering_method.mobile");
    reveal_strlit("\"\n");
}

/// The lines that are plain literals hold no line feed and do not end with
/// a carriage return.
proof fn lemma_literal_lines(renderer: Renderer)
    ensures
        no_line_feed("; Engine configuration file."@),
        no_line_feed("; Generated by godot-nvm."@),
        no_line_feed(setting_line("config_version"@, "5"@)),
        no_line_feed(section_line("application"@)),
        no_line_feed(setting_line("config/icon"@, quoted("res://icon.svg"@))),
        no_line_feed(section_line("rendering"@)),
        no_line_feed(setting_line("renderer/rendering_method"@, quoted(rendering_method(renderer)))),
        no_line_feed(
            setting_line("renderer/rendering_method.mobile"@, quoted(rendering_method(renderer))),
        ),
        no_line_feed("config/name="@),
        no_line_feed("config/features="@),
        no_line_feed(FEATURES_OPEN@),
        no_line_feed(FEATURES_SEPARATOR@),
        no_line_feed(FEATURES_CLOSE@),
        no_line_feed(feature_label(renderer)),
{
    reveal_strlit("; Engine configuration file.");
    reveal_strlit("; Generated by godot-nvm.");
    reveal_strlit("config_version");
    reveal_strlit("5");
    reveal_strlit("application");
    reveal_strlit("config/icon");
    reveal_strlit("res://icon.svg");
    reveal_strlit("rendering");
    reveal_strlit("renderer/rendering_method");
    reveal_strlit("renderer/rendering_method.mobile");
    reveal_strlit("mobile");
    reveal_strlit("gl_compatibility");
    reveal_strlit("config/name=");
    reveal_strlit("config/features=");
    reveal_strlit("PackedStringArray(\"");
    reveal_strlit("\", \"");
    reveal_strlit("\")");
    reveal_strlit("Mobile");
    reveal_strlit("GL Compatibility");
}

/// The lines `ls`, each ended by a line feed, then `rest`.
spec fn joined(ls: Seq<Seq<char>>, rest: Seq<char>) -> Seq<char>
    decreases ls.len(),
{
    if ls.len() == 0 {
        rest
    } else {
        ls[0] + seq!['\n'] + joined(ls.drop_first(), rest)
    }
}

/// A line with no line feed and no trailing carriage return.
spec fn plain_line(l: Seq<char>) -> bool {
    no_line_feed(l) && strip_cr(l) == l
}

/// Lines joined with line feeds split back into the same lines.
proof fn lemma_lines_joined(ls: Seq<Seq<char>>, rest: Seq<char>)
    requires
        forall|i: int| 0 <= i < ls.len() ==> plain_line(#[trigger] ls[i]),
    ensures
        lines(joined(ls, rest)) == ls + lines(rest),
    decreases ls.len(),
{
    if ls.len() > 0 {
        assert(plain_line(ls[0]));
        lemma_lines_joined(ls.drop_first(), rest);
        lemma_lines_cons(ls[0], joined(ls.drop_first(), rest));
        assert(ls =~= seq![ls[0]] + ls.drop_first());
    } else {
        assert(ls + lines(rest) =~= lines(rest));
    }
}

/// Every line of a generated `project.godot` is a plain line.
proof fn lemma_head_lines_plain(q: Seq<char>, fv: Seq<char>, renderer: Renderer)
    requires
        no_line_feed(q),
        no_line_feed(fv),
        q.len() > 0,
        q.last() == '"',
        fv.len() > 0,
        fv.last() == ')',
    ensures
        forall|i: int| 0 <= i < head_lines(q, fv).len() ==> plain_line(#[trigger] head_lines(q, fv)[i]),
        forall|i: int|
            0 <= i < rendering_lines(renderer).len() ==> plain_line(#[trigger] rendering_lines(renderer)[i]),
{
    lemma_literal_lines(renderer);
    reveal_strlit("config/name=");
    reveal_strlit("config/name");
    reveal_strlit("config/features=");
    reveal_strlit("config/features");
    reveal_strlit("res://icon.svg");
    reveal_strlit("; Engine configuration file.");
    reveal_strlit("; Generated by godot-nvm.");
    reveal_strlit("5");
    lemma_join_no_line_feed("config/name="@, q);
    lemma_join_no_line_feed("config/features="@, fv);
    let ls = head_lines(q, fv);
    assert(ls[5] =~= "config/name="@ + q);
    assert(ls[6] =~= "config/features="@ + fv);
    assert(no_line_feed(seq![]));
    assert(plain_line(ls[0]));
    assert(plain_line(ls[1]));
    assert(plain_line(ls[2]));
    assert(plain_line(ls[3]));
    assert(plain_line(ls[4]));
    assert(plain_line(ls[5]));
    assert(plain_line(ls[6]));
    assert(plain_line(ls[7]));
    if renderer != Renderer::ForwardPlus {
        let rl = rendering_lines(renderer);
        assert(plain_line(rl[0]));
        assert(plain_line(rl[1]));
        assert(plain_line(rl[2]));
        assert(plain_line(rl[3]));
    }
}

/// The escaped name and the feature list hold no line feed.
proof fn lemma_values_plain(name: Seq<char>, f: Seq<char>, renderer: Renderer)
    requires
        plain_text(f),
    ensures
        no_line_feed(escaped_name(name)),
        no_line_feed(features_value(f, feature_label(renderer))),
{
    lemma_literal_lines(renderer);
    assert(no_line_feed(f));
    lemma_escaped_has_no_line_break(trim(name));
    let e = json_escaped(trim(name));
    assert(no_line_feed(e));
    assert(no_line_feed(seq!['"']));
    lemma_join_no_line_feed(seq!['"'], e);
    lemma_join_no_line_feed(seq!['"'] + e, seq!['"']);
    lemma_join_no_line_feed(FEATURES_OPEN@, f);
    if feature_label(renderer).len() == 0 {
        lemma_join_no_line_feed(FEATURES_OPEN@ + f, FEATURES_CLOSE@);
    } else {
        lemma_join_no_line_feed(FEATURES_OPEN@ + f, FEATURES_SEPARATOR@);
        lemma_join_no_line_feed(FEATURES_OPEN@ + f + FEATURES_SEPARATOR@, feature_label(renderer));
        lemma_join_no_line_feed(
            FEATURES_OPEN@ + f + FEATURES_SEPARATOR@ + feature_label(renderer),
            FEATURES_CLOSE@,
        );
    }
}

/// The text of a generated Godot 4 `project.godot`, line by line.
#[verifier::rlimit(100)]
proof fn lemma_generated_text(name: Seq<char>, version: Seq<char>, renderer: Renderer)
    requires
        !(version.len() > 0 && version[0] == '3'),
    ensures
        project_godot_text(name, version, renderer) =~= joined(
            head_lines(
                escaped_name(name),
                features_value(feature_version(version), feature_label(renderer)),
            ),
            rendering_section(renderer),
        ),
{
    lemma_head_literals();
    let nl = seq!['\n'];
    let q = escaped_name(name);
    let fv = features_value(feature_version(version), feature_label(renderer));
    let rs = rendering_section(renderer);
    let t = project_godot_text(name, version, renderer);
    assert(t == GODOT4_HEAD@ + q + GODOT4_FEATURES@ + fv + GODOT4_ICON@ + rs);
    let ls = head_lines(q, fv);
    let d1 = ls.drop_first();
    let d2 = d1.drop_first();
    let d3 = d2.drop_first();
    let d4 = d3.drop_first();
    let d5 = d4.drop_first();
    let d6 = d5.drop_first();
    let d7 = d6.drop_first();
    let d8 = d7.drop_first();
    assert(d8.len() == 0);
    let j8 = joined(d8, rs);
    assert(j8 == rs);
    let j7 = joined(d7, rs);
    assert(j7 == ls[7] + nl + j8);
    let j6 = joined(d6, rs);
    assert(j6 == ls[6] + nl + j7);
    let j5 = joined(d5, rs);
    assert(j5 == ls[5] + nl + j6);
    let j4 = joined(d4, rs);
    assert(j4 == ls[4] + nl + j5);
    let j3 = joined(d3, rs);
    assert(j3 == ls[3] + nl + j4);
    let j2 = joined(d2, rs);
    assert(j2 == ls[2] + nl + j3);
    let j1 = joined(d1, rs);
    assert(j1 == ls[1] + nl + j2);
    let j0 = joined(ls, rs);
    assert(j0 == ls[0] + nl + j1);
    reveal_strlit("config/name");
    reveal_strlit("config/features");
    // the icon line and the rendering section close the text
    assert(j7 =~= GODOT4_ICON@.drop_first() + rs);
    assert(j6 =~= "config/features"@ + seq!['='] + fv + GODOT4_ICON@ + rs);
    assert(j5 =~= "config/name"@ + seq!['='] + q + GODOT4_FEATURES@ + fv + GODOT4_ICON@ + rs);
    assert(j0 =~= GODOT4_HEAD@ + q + GODOT4_FEATURES@ + fv + GODOT4_ICON@ + rs);
}

/// The rendering section, line by line.
proof fn lemma_rendering_text(renderer: Renderer)
    ensures
        rendering_section(renderer) =~= joined(rendering_lines(renderer), seq![]),
{
    lemma_head_literals();
    let rl = rendering_lines(renderer);
    let rs = rendering_section(renderer);
    let nl = seq!['\n'];
    if renderer == Renderer::ForwardPlus {
        assert(rl.len() == 0);
    } else {
        let d1 = rl.drop_first();
        let d2 = d1.drop_first();
        let d3 = d2.drop_first();
        let d4 = d3.drop_first();
        assert(d4.len() == 0);
        assert(joined(d4, seq![]) == Seq::<char>::empty());
        assert(joined(d3, seq![]) == rl[3] + nl + Seq::<char>::empty());
        assert(joined(d2, seq![]) == rl[2] + nl + joined(d3, seq![]));
        assert(joined(d1, seq![]) == rl[1] + nl + joined(d2, seq![]));
        assert(joined(rl, seq![]) == rl[0] + nl + joined(d1, seq![]));
        assert(rs =~= joined(rl, seq![]));
    }
}

/// The lines of a generated Godot 4 `project.godot`.
proof fn lemma_generated_lines(name: Seq<char>, version: Seq<char>, renderer: Renderer)
    requires
        !(version.len() > 0 && version[0] == '3'),
        plain_text(feature_version(version)),
    ensures
        lines(project_godot_text(name, version, renderer)) == head_lines(
            escaped_name(name),
            features_value(feature_version(version), feature_label(renderer)),
        ) + rendering_lines(renderer),
{
    reveal_strlit("\")");
    let q = escaped_name(name);
    let f = feature_version(version);
    let fv = features_value(f, feature_label(renderer));
    lemma_values_plain(name, f, renderer);
    assert(fv.last() == ')');
    lemma_head_lines_plain(q, fv, renderer);
    lemma_generated_text(name, version, renderer);
    lemma_rendering_text(renderer);
    let ls = head_lines(q, fv);
    let rl = rendering_lines(renderer);
    let rs = rendering_section(renderer);
    lemma_lines_joined(ls, rs);
    lemma_lines_joined(rl, seq![]);
    assert(lines(seq![]) == Seq::<Seq<char>>::empty());
    assert(rl + Seq::<Seq<char>>::empty() =~= rl);
}

/// The settings that a generated Godot 4 `project.godot` holds.
spec fn generated_settings(q: Seq<char>, fv: Seq<char>, renderer: Renderer) -> Seq<
    (Seq<char>, Seq<char>, Seq<char>),
> {
    let head = seq![
        (Seq::<char>::empty(), "config_version"@, "5"@),
        ("application"@, "config/name"@, q),
        ("application"@, "config/features"@, fv),
        ("application"@, "config/icon"@, quoted("res://icon.svg"@)),
    ];
    if renderer == Renderer::ForwardPlus {
        head
    } else {
        head + seq![
            ("rendering"@, "renderer/rendering_method"@, quoted(rendering_method(renderer))),
            ("rendering"@, "renderer/rendering_method.mobile"@, quoted(rendering_method(renderer))),
        ]
    }
}

/// The key literals of a generated `project.godot` are keys the reader takes
/// as they are.
proof fn lemma_key_literals()
    ensures
        forall|k: int| 0 <= k < "config_version"@.len() ==> #[trigger] "config_version"@[k] != '=',
        forall|k: int| 0 <= k < "config/name"@.len() ==> #[trigger] "config/name"@[k] != '=',
        forall|k: int| 0 <= k < "config/features"@.len() ==> #[trigger] "config/features"@[k] != '=',
        forall|k: int| 0 <= k < "config/icon"@.len() ==> #[trigger] "config/icon"@[k] != '=',
        forall|k: int|
            0 <= k < "renderer/rendering_method"@.len() ==> #[trigger] "renderer/rendering_method"@[k]
                != '=',
        forall|k: int|
            0 <= k < "renderer/rendering_method.mobile"@.len()
                ==> #[trigger] "renderer/rendering_method.mobile"@[k] != '=',
        "config_version"@.len() == 14 && "config_version"@[0] == 'c' && "config_version"@[13] == 'n',
        "config/name"@.len() == 11 && "config/name"@[0] == 'c' && "config/name"@[10] == 'e',
        "config/features"@.len() == 15 && "config/features"@[0] == 'c' && "config/features"@[14] == 's',
        "config/icon"@.len() == 11 && "config/icon"@[0] == 'c' && "config/icon"@[10] == 'n',
        "renderer/rendering_method"@.len() == 25 && "renderer/rendering_method"@[0] == 'r'
            && "renderer/rendering_method"@[24] == 'd',
        "renderer/rendering_method.mobile"@.len() == 32 && "renderer/rendering_method.mobile"@[0]
            == 'r' && "renderer/rendering_method.mobile"@[31] == 'e',
        "application"@.len() == 11 && "application"@[0] == 'a' && "application"@[10] == 'n',
        "rendering"@.len() == 9 && "rendering"@[0] == 'r' && "rendering"@[8] == 'g',
        "5"@ == seq!['5'],
        "; Engine configuration file."@.len() > 0 && "; Engine configuration file."@[0] == ';'
            && "; Engine configuration file."@.last() == '.',
        "; Generated by godot-nvm."@.len() > 0 && "; Generated by godot-nvm."@[0] == ';'
            && "; Generated by godot-nvm."@.last() == '.',
{
    reveal_strlit("config_version");
    reveal_strlit("config/name");
    reveal_strlit("config/features");
    reveal_strlit("config/icon");
    reveal_strlit("renderer/rendering_method");
    reveal_strlit("renderer/rendering_method.mobile");
    reveal_strlit("application");
    reveal_strlit("rendering");
    reveal_strlit("5");
    reveal_strlit("; Engine configuration file.");
    reveal_strlit("; Generated by godot-nvm.");
}

/// The values of a generated `project.godot` that are not the name scan
/// closed.
proof fn lemma_plain_values_scan(renderer: Renderer, stack: Seq<char>)
    ensures
        scan_delimiters("5"@, 0, false, false, stack) == Ok::<Seq<char>, DelimiterFault>(stack),
        scan_delimiters(quoted("res://icon.svg"@), 0, false, false, stack) == Ok::<
            Seq<char>,
            DelimiterFault,
        >(stack),
        scan_delimiters(quoted(rendering_method(renderer)), 0, false, false, stack) == Ok::<
            Seq<char>,
            DelimiterFault,
        >(stack),
        valid_config_version("5"@),
{
    reveal_strlit("5");
    reveal_strlit("res://icon.svg");
    reveal_strlit("mobile");
    reveal_strlit("gl_compatibility");
    assert(scan_delimiters("5"@, 0, false, false, stack) == scan_delimiters("5"@, 1, false, false, stack));
    lemma_scan_quoted_plain("res://icon.svg"@, stack);
    lemma_scan_quoted_plain(rendering_method(renderer), stack);
    assert(all_ascii_digits("5"@));
    assert(digits_value("5"@) == 5) by {
        assert("5"@.drop_last() =~= Seq::<char>::empty());
        assert(digits_value(Seq::<char>::empty()) == 0);
        assert(('5' as int) - ('0' as int) == 5);
    }
}

/// The feature list of a plain feature version scans closed; it starts with
/// `P` and ends with `)`.
proof fn lemma_features_scan(f: Seq<char>, renderer: Renderer, stack: Seq<char>)
    requires
        plain_text(f),
    ensures
        scan_delimiters(features_value(f, feature_label(renderer)), 0, false, false, stack)
            == Ok::<Seq<char>, DelimiterFault>(stack),
        features_value(f, feature_label(renderer)).len() > 0,
        features_value(f, feature_label(renderer))[0] == 'P',
        features_value(f, feature_label(renderer)).last() == ')',
{
    reveal_strlit("Mobile");
    reveal_strlit("GL Compatibility");
    reveal_strlit("PackedStringArray(\"");
    reveal_strlit("\")");
    lemma_scan_features(f, feature_label(renderer), stack);
}

/// The reader's state after the head of a generated `project.godot`.
spec fn head_state(q: Seq<char>, fv: Seq<char>) -> DocumentState {
    DocumentState {
        section: "application"@,
        settings: seq![
            (Seq::<char>::empty(), "config_version"@, "5"@),
            ("application"@, "config/name"@, q),
            ("application"@, "config/features"@, fv),
            ("application"@, "config/icon"@, quoted("res://icon.svg"@)),
        ],
        stack: seq![],
        has_config_version: true,
    }
}

/// The head of a generated `project.godot` reads into `head_state`.
#[verifier::rlimit(100)]
proof fn lemma_read_head(ls: Seq<Seq<char>>, name: Seq<char>, f: Seq<char>, renderer: Renderer)
    requires
        plain_text(f),
        ls.len() >= 8,
        forall|i: int|
            0 <= i < 8 ==> #[trigger] ls[i] == head_lines(
                escaped_name(name),
                features_value(f, feature_label(renderer)),
            )[i],
    ensures
        read_lines(ls, 8) == Ok::<DocumentState, DocumentError>(
            head_state(escaped_name(name), features_value(f, feature_label(renderer))),
        ),
{
    let q = escaped_name(name);
    let fv = features_value(f, feature_label(renderer));
    let head = head_lines(q, fv);
    lemma_key_literals();
    let empty: Seq<char> = seq![];
    lemma_plain_values_scan(renderer, empty);
    lemma_features_scan(f, renderer, empty);
    lemma_quoted_scans_closed(trim(name), empty);
    let st0 = initial_state();
    assert(read_lines(ls, 0) == Ok::<DocumentState, DocumentError>(st0));
    lemma_read_comment(st0, head[0], 1);
    assert(read_lines(ls, 1) == Ok::<DocumentState, DocumentError>(st0));
    lemma_read_comment(st0, head[1], 2);
    assert(read_lines(ls, 2) == Ok::<DocumentState, DocumentError>(st0));
    lemma_read_setting(st0, "config_version"@, "5"@, 3);
    let st3 = DocumentState {
        settings: st0.settings.push((st0.section, "config_version"@, "5"@)),
        has_config_version: true,
        ..st0
    };
    assert(read_lines(ls, 3) == Ok::<DocumentState, DocumentError>(st3));
    lemma_read_blank(st3, 4);
    assert(read_lines(ls, 4) == Ok::<DocumentState, DocumentError>(st3));
    lemma_read_section(st3, "application"@, 5);
    let st5 = DocumentState { section: "application"@, ..st3 };
    assert(read_lines(ls, 5) == Ok::<DocumentState, DocumentError>(st5));
    lemma_read_setting(st5, "config/name"@, q, 6);
    let st6 = DocumentState { settings: st5.settings.push(("application"@, "config/name"@, q)), ..st5 };
    assert(read_lines(ls, 6) == Ok::<DocumentState, DocumentError>(st6));
    lemma_read_setting(st6, "config/features"@, fv, 7);
    let st7 = DocumentState {
        settings: st6.settings.push(("application"@, "config/features"@, fv)),
        ..st6
    };
    assert(read_lines(ls, 7) == Ok::<DocumentState, DocumentError>(st7));
    let icon = quoted("res://icon.svg"@);
    lemma_read_setting(st7, "config/icon"@, icon, 8);
    let st8 = DocumentState {
        settings: st7.settings.push(("application"@, "config/icon"@, icon)),
        ..st7
    };
    assert(read_lines(ls, 8) == Ok::<DocumentState, DocumentError>(st8));
    assert(st8.settings =~= head_state(q, fv).settings);
}

/// A generated Godot 4 `project.godot` is read without error, into its
/// settings in file order.
#[verifier::rlimit(100)]
proof fn lemma_read_generated(name: Seq<char>, version: Seq<char>, renderer: Renderer)
    requires
        !(version.len() > 0 && version[0] == '3'),
        plain_text(feature_version(version)),
    ensures
        document_settings(project_godot_text(name, version, renderer)) == Ok::<
            Seq<(Seq<char>, Seq<char>, Seq<char>)>,
            DocumentError,
        >(
            generated_settings(
                escaped_name(name),
                features_value(feature_version(version), feature_label(renderer)),
                renderer,
            ),
        ),
{
    let q = escaped_name(name);
    let f = feature_version(version);
    let fv = features_value(f, feature_label(renderer));
    let t = project_godot_text(name, version, renderer);
    lemma_generated_lines(name, version, renderer);
    let ls = lines(t);
    let head = head_lines(q, fv);
    let rl = rendering_lines(renderer);
    assert(ls == head + rl);
    assert(forall|i: int| 0 <= i < 8 ==> #[trigger] ls[i] == head[i]);
    lemma_read_head(ls, name, f, renderer);
    let st8 = head_state(q, fv);
    let settings = generated_settings(q, fv, renderer);
    if renderer == Renderer::ForwardPlus {
        assert(ls.len() == 8);
        assert(st8.settings =~= settings);
    } else {
        lemma_key_literals();
        let empty: Seq<char> = seq![];
        lemma_plain_values_scan(renderer, empty);
        reveal_strlit("mobile");
        reveal_strlit("gl_compatibility");
        assert(ls.len() == 12);
        assert(forall|i: int| 8 <= i < 12 ==> #[trigger] ls[i] == rl[i - 8]);
        let m = quoted(rendering_method(renderer));
        lemma_read_blank(st8, 9);
        assert(read_lines(ls, 9) == Ok::<DocumentState, DocumentError>(st8));
        lemma_read_section(st8, "rendering"@, 10);
        let st10 = DocumentState { section: "rendering"@, ..st8 };
        assert(read_lines(ls, 10) == Ok::<DocumentState, DocumentError>(st10));
        lemma_read_setting(st10, "renderer/rendering_method"@, m, 11);
        let st11 = DocumentState {
            settings: st10.settings.push(("rendering"@, "renderer/rendering_method"@, m)),
            ..st10
        };
        assert(read_lines(ls, 11) == Ok::<DocumentState, DocumentError>(st11));
        lemma_read_setting(st11, "renderer/rendering_method.mobile"@, m, 12);
        let st12 = DocumentState {
            settings: st11.settings.push(("rendering"@, "renderer/rendering_method.mobile"@, m)),
            ..st11
        };
        assert(read_lines(ls, 12) == Ok::<DocumentState, DocumentError>(st12));
        assert(st12.settings =~= settings);
    }
}

/// The version hint of the feature list of a `4.7.1-stable` project.
proof fn lemma_features_hint(renderer: Renderer)
    ensures
        version_hint(features_value("4.7"@, feature_label(renderer))) == Some("4.7"@),
{
    reveal_strlit("4.7");
    reveal_strlit("PackedStringArray(\"");
    reveal_strlit("\", \"");
    reveal_strlit("\")");
    reveal_strlit("Mobile");
    reveal_strlit("GL Compatibility");
    let v = features_value("4.7"@, feature_label(renderer));
    assert(forall|k: int| 0 <= k < 18 ==> #[trigger] v[k] == FEATURES_OPEN@[k]);
    assert(v[18] == '"');
    lemma_find_char(v, '"', 18);
    let rest = v.skip(19);
    assert(rest[0] == '4' && rest[1] == '.' && rest[2] == '7' && rest[3] == '"');
    lemma_find_char(rest, '"', 3);
    let f = rest.take(3);
    assert(f =~= "4.7"@);
    lemma_find_char(f, '.', 1);
    let tail = f.skip(2);
    lemma_find_char_none(tail, '.');
    assert(split_char(tail, '.') == seq![tail]);
    assert(split_char(f, '.') =~= seq![f.take(1), tail]);
    assert(all_ascii_digits(f.take(1)));
    assert(all_ascii_digits(tail));
    assert(f.take(1) + seq!['.'] + tail =~= "4.7"@);
}

/// A `project.godot` generated for a Godot 4 project (a version that does
/// not start with `3`) whose version holds no quote, backslash or line feed,
/// whatever its name and renderer, is read without error. Its `application`
/// section gives back the trimmed name as the JSON string literal that was
/// written, the feature list whose quoted first item is the version's
/// `major.minor` (so `4.7` for `4.7.1-stable`), and the `res://icon.svg`
/// icon. The quoted name is decoded as the JSON string it spells.
pub proof fn lemma_generated_project_reads_back(name: Seq<char>, version: Seq<char>, renderer: Renderer)
    requires
        !(version.len() > 0 && version[0] == '3'),
        plain_text(version),
    ensures
        document_settings(project_godot_text(name, version, renderer)) matches Ok(settings)
            && lookup_setting(settings, "application"@, "config/name"@) == Some(
            json_quoted(trim(name)),
        ) && quoted_value(json_quoted(trim(name))) == json_string_value(json_quoted(trim(name)))
            && lookup_setting(settings, "application"@, "config/features"@) == Some(
            features_value(feature_version(version), feature_label(renderer)),
        ) && summary_version_hint(settings) == version_hint(
            features_value(feature_version(version), feature_label(renderer)),
        ) && (version == "4.7.1-stable"@ ==> summary_version_hint(settings) == Some("4.7"@))
            && lookup_setting(settings, "application"@, "config/icon"@) == Some(
            "\"res://icon.svg\""@,
        ),
{
    lemma_feature_version_plain(version);
    lemma_read_generated(name, version, renderer);
    lemma_features_hint(renderer);
    lemma_feature_version_example();
    lemma_key_literals();
    reveal_strlit("config/name");
    reveal_strlit("config/icon");
    reveal_strlit("config/features");
    reveal_strlit("application");
    reveal_strlit("rendering");
    reveal_strlit("\"res://icon.svg\"");
    reveal_strlit("res://icon.svg");
    let q = escaped_name(name);
    let fv = features_value(feature_version(version), feature_label(renderer));
    let s = generated_settings(q, fv, renderer);
    let app = "application"@;
    assert("config/icon"@[7] != "config/name"@[7]);
    assert("config/icon"@ != "config/name"@);
    assert("config/icon"@ != "config/features"@);
    assert("config/features"@ != "config/name"@);
    assert("rendering"@ != app);
    let h = s.take(4);
    if renderer != Renderer::ForwardPlus {
        assert(s.drop_last().drop_last() =~= h);
        assert(lookup_setting(s, app, "config/name"@) == lookup_setting(s.drop_last(), app, "config/name"@));
        assert(lookup_setting(s.drop_last(), app, "config/name"@) == lookup_setting(h, app, "config/name"@));
        assert(lookup_setting(s, app, "config/icon"@) == lookup_setting(s.drop_last(), app, "config/icon"@));
        assert(lookup_setting(s.drop_last(), app, "config/icon"@) == lookup_setting(h, app, "config/icon"@));
        assert(lookup_setting(s, app, "config/features"@) == lookup_setting(s.drop_last(), app, "config/features"@));
        assert(lookup_setting(s.drop_last(), app, "config/features"@) == lookup_setting(h, app, "config/features"@));
    } else {
        assert(s =~= h);
    }
    assert(h.last().1 == "config/icon"@);
    assert(lookup_setting(h, app, "config/icon"@) == Some(quoted("res://icon.svg"@)));
    assert(quoted("res://icon.svg"@) =~= "\"res://icon.svg\""@);
    assert(h.drop_last().last().1 == "config/features"@);
    assert(lookup_setting(h, app, "config/features"@) == lookup_setting(h.drop_last(), app, "config/features"@));
    assert(lookup_setting(h.drop_last(), app, "config/features"@) == Some(fv));
    assert(lookup_setting(h, app, "config/name"@) == lookup_setting(h.drop_last(), app, "config/name"@));
    assert(lookup_setting(h.drop_last(), app, "config/name"@) == lookup_setting(h.drop_last().drop_last(), app, "config/name"@));
    assert(h.drop_last().drop_last().last().1 == "config/name"@);
    assert(lookup_setting(h.drop_last().drop_last(), app, "config/name"@) == Some(q));
    // the quoted name is its own trimmed form, between quotes
    assert(q[0] == '"' && q.last() == '"');
    lemma_trim_keeps(q);
}

/// The renderer name of a Godot 3 project.
spec fn driver_name(renderer: Renderer) -> Seq<char> {
    if renderer == Renderer::Gles2 {
        "GLES2"@
    } else {
        "GLES3"@
    }
}

/// The lines of a generated Godot 3 `project.godot` for the escaped name `q`.
spec fn godot3_lines(q: Seq<char>, renderer: Renderer) -> Seq<Seq<char>> {
    seq![
        "; Engine configuration file."@,
        "; Generated by godot-nvm."@,
        setting_line("config_version"@, "4"@),
        seq![],
        section_line("application"@),
        setting_line("config/name"@, q),
        setting_line("config/icon"@, quoted("res://icon.svg"@)),
        seq![],
        section_line("rendering"@),
        setting_line("quality/driver/driver_name"@, quoted(driver_name(renderer))),
    ]
}

/// The settings of a generated Godot 3 `project.godot`.
spec fn godot3_settings(q: Seq<char>, renderer: Renderer) -> Seq<(Seq<char>, Seq<char>, Seq<char>)> {
    seq![
        (Seq::<char>::empty(), "config_version"@, "4"@),
        ("application"@, "config/name"@, q),
        ("application"@, "config/icon"@, quoted("res://icon.svg"@)),
        ("rendering"@, "quality/driver/driver_name"@, quoted(driver_name(renderer))),
    ]
}

/// The fixed texts of a generated Godot 3 `project.godot`, split at their
/// line feeds.
proof fn lemma_godot3_literals()
    ensures
        GODOT3_HEAD@ =~= "; Engine configuration file."@ + seq!['\n'] + "; Generated by godot-nvm."@
            + seq!['\n'] + setting_line("config_version"@, "4"@) + seq!['\n'] + seq!['\n']
            + section_line("application"@) + seq!['\n'] + "config/name"@ + seq!['='],
        GODOT3_DRIVER@ =~= seq!['\n'] + setting_line("config/icon"@, quoted("res://icon.svg"@))
            + seq!['\n'] + seq!['\n'] + section_line("rendering"@) + seq!['\n']
            + "quality/driver/driver_name"@ + seq!['='] + seq!['"'],
        GODOT3_TAIL@ =~= seq!['"'] + seq!['\n'],
{
    reveal_strlit("; Engine configuration file.\n; Generated by godot-nvm.\nconfig_version=4\n\n[application]\nconfig/name=");
    reveal_strlit("; Engine configuration file.");
    reveal_strlit("; Generated by godot-nvm.");
    reveal_strlit("config_version");
    reveal_strlit("4");
    reveal_strlit("application");
    reveal_strlit("config/name");
    reveal_strlit("\nconfig/icon=\"res://icon.svg\"\n\n[rendering]\nquality/driver/driver_name=\"");
    reveal_strlit("config/icon");
    reveal_strlit("res://icon.svg");
    reveal_strlit("rendering");
    reveal_strlit("quality/driver/driver_name");
    reveal_strlit("\"\n");
}

/// The lines, key and values of a Godot 3 `project.godot` that are not the
/// name.
proof fn lemma_godot3_keys(renderer: Renderer)
    ensures
        no_line_feed(setting_line("config_version"@, "4"@)),
        no_line_feed(setting_line("quality/driver/driver_name"@, quoted(driver_name(renderer)))),
        forall|k: int|
            0 <= k < "quality/driver/driver_name"@.len() ==> #[trigger] "quality/driver/driver_name"@[k]
                != '=',
        "quality/driver/driver_name"@.len() == 26 && "quality/driver/driver_name"@[0] == 'q'
            && "quality/driver/driver_name"@[25] == 'e',
        "4"@ == seq!['4'],
        forall|k: int|
            0 <= k < driver_name(renderer).len() ==> #[trigger] driver_name(renderer)[k] != '"'
                && driver_name(renderer)[k] != '\\',
        strip_cr(setting_line("config_version"@, "4"@)) == setting_line("config_version"@, "4"@),
        strip_cr(setting_line("quality/driver/driver_name"@, quoted(driver_name(renderer))))
            == setting_line("quality/driver/driver_name"@, quoted(driver_name(renderer))),
{
    reveal_strlit("config_version");
    reveal_strlit("4");
    reveal_strlit("quality/driver/driver_name");
    reveal_strlit("GLES2");
    reveal_strlit("GLES3");
}

/// The lines of a generated Godot 3 `project.godot`.
#[verifier::rlimit(100)]
proof fn lemma_godot3_lines(name: Seq<char>, version: Seq<char>, renderer: Renderer)
    requires
        version.len() > 0,
        version[0] == '3',
    ensures
        lines(project_godot_text(name, version, renderer)) == godot3_lines(escaped_name(name), renderer),
{
    lemma_godot3_literals();
    lemma_godot3_keys(renderer);
    lemma_literal_lines(renderer);
    assert(plain_text(Seq::<char>::empty()));
    lemma_values_plain(name, seq![], renderer);
    reveal_strlit("config/name=");
    reveal_strlit("config/name");
    reveal_strlit("GLES2");
    reveal_strlit("GLES3");
    reveal_strlit("; Engine configuration file.");
    reveal_strlit("; Generated by godot-nvm.");
    let nl = seq!['\n'];
    let q = escaped_name(name);
    let t = project_godot_text(name, version, renderer);
    let ls = godot3_lines(q, renderer);
    assert(t == GODOT3_HEAD@ + q + GODOT3_DRIVER@ + driver_name(renderer) + GODOT3_TAIL@);
    lemma_join_no_line_feed("config/name="@, q);
    assert(ls[5] =~= "config/name="@ + q);
    assert(no_line_feed(seq![]));
    assert(plain_line(ls[0]));
    assert(plain_line(ls[1]));
    assert(plain_line(ls[2]));
    assert(plain_line(ls[3]));
    assert(plain_line(ls[4]));
    assert(plain_line(ls[5]));
    assert(plain_line(ls[6]));
    assert(plain_line(ls[7]));
    assert(plain_line(ls[8]));
    assert(plain_line(ls[9]));
    let d1 = ls.drop_first();
    let d2 = d1.drop_first();
    let d3 = d2.drop_first();
    let d4 = d3.drop_first();
    let d5 = d4.drop_first();
    let d6 = d5.drop_first();
    let d7 = d6.drop_first();
    let d8 = d7.drop_first();
    let d9 = d8.drop_first();
    let d10 = d9.drop_first();
    let e: Seq<char> = seq![];
    assert(d10.len() == 0);
    assert(joined(d10, e) == e);
    assert(joined(d9, e) == ls[9] + nl + joined(d10, e));
    assert(joined(d8, e) == ls[8] + nl + joined(d9, e));
    assert(joined(d7, e) == ls[7] + nl + joined(d8, e));
    assert(joined(d6, e) == ls[6] + nl + joined(d7, e));
    assert(joined(d5, e) == ls[5] + nl + joined(d6, e));
    assert(joined(d4, e) == ls[4] + nl + joined(d5, e));
    assert(joined(d3, e) == ls[3] + nl + joined(d4, e));
    assert(joined(d2, e) == ls[2] + nl + joined(d3, e));
    assert(joined(d1, e) == ls[1] + nl + joined(d2, e));
    assert(joined(ls, e) == ls[0] + nl + joined(d1, e));
    assert(joined(d5, e) =~= "config/name"@ + seq!['='] + q + GODOT3_DRIVER@ + driver_name(renderer) + GODOT3_TAIL@);
    assert(t =~= joined(ls, e));
    lemma_lines_joined(ls, e);
    assert(lines(e) == Seq::<Seq<char>>::empty());
    assert(ls + Seq::<Seq<char>>::empty() =~= ls);
}

/// A generated Godot 3 `project.godot` is read without error, into its
/// settings in file order.
#[verifier::rlimit(100)]
proof fn lemma_read_godot3(name: Seq<char>, version: Seq<char>, renderer: Renderer)
    requires
        version.len() > 0,
        version[0] == '3',
    ensures
        document_settings(project_godot_text(name, version, renderer)) == Ok::<
            Seq<(Seq<char>, Seq<char>, Seq<char>)>,
            DocumentError,
        >(godot3_settings(escaped_name(name), renderer)),
{
    let q = escaped_name(name);
    let t = project_godot_text(name, version, renderer);
    lemma_godot3_lines(name, version, renderer);
    lemma_godot3_keys(renderer);
    lemma_key_literals();
    let ls = lines(t);
    let empty: Seq<char> = seq![];
    lemma_plain_values_scan(renderer, empty);
    lemma_quoted_scans_closed(trim(name), empty);
    let icon = quoted("res://icon.svg"@);
    let driver = quoted(driver_name(renderer));
    lemma_scan_quoted_plain(driver_name(renderer), empty);
    reveal_strlit("GLES2");
    reveal_strlit("GLES3");
    assert(scan_delimiters("4"@, 0, false, false, empty) == scan_delimiters("4"@, 1, false, false, empty));
    assert(valid_config_version("4"@)) by {
        assert(all_ascii_digits("4"@));
        assert("4"@.drop_last() =~= Seq::<char>::empty());
        assert(digits_value(Seq::<char>::empty()) == 0);
        assert(('4' as int) - ('0' as int) == 4);
        assert(digits_value("4"@) == 4);
    }
    let st0 = initial_state();
    assert(read_lines(ls, 0) == Ok::<DocumentState, DocumentError>(st0));
    lemma_read_comment(st0, ls[0], 1);
    assert(read_lines(ls, 1) == Ok::<DocumentState, DocumentError>(st0));
    lemma_read_comment(st0, ls[1], 2);
    assert(read_lines(ls, 2) == Ok::<DocumentState, DocumentError>(st0));
    lemma_read_setting(st0, "config_version"@, "4"@, 3);
    let st3 = DocumentState {
        settings: st0.settings.push((st0.section, "config_version"@, "4"@)),
        has_config_version: true,
        ..st0
    };
    assert(read_lines(ls, 3) == Ok::<DocumentState, DocumentError>(st3));
    lemma_read_blank(st3, 4);
    assert(read_lines(ls, 4) == Ok::<DocumentState, DocumentError>(st3));
    lemma_read_section(st3, "application"@, 5);
    let st5 = DocumentState { section: "application"@, ..st3 };
    assert(read_lines(ls, 5) == Ok::<DocumentState, DocumentError>(st5));
    lemma_read_setting(st5, "config/name"@, q, 6);
    let st6 = DocumentState { settings: st5.settings.push(("application"@, "config/name"@, q)), ..st5 };
    assert(read_lines(ls, 6) == Ok::<DocumentState, DocumentError>(st6));
    lemma_read_setting(st6, "config/icon"@, icon, 7);
    let st7 = DocumentState {
        settings: st6.settings.push(("application"@, "config/icon"@, icon)),
        ..st6
    };
    assert(read_lines(ls, 7) == Ok::<DocumentState, DocumentError>(st7));
    lemma_read_blank(st7, 8);
    assert(read_lines(ls, 8) == Ok::<DocumentState, DocumentError>(st7));
    lemma_read_section(st7, "rendering"@, 9);
    let st9 = DocumentState { section: "rendering"@, ..st7 };
    assert(read_lines(ls, 9) == Ok::<DocumentState, DocumentError>(st9));
    lemma_read_setting(st9, "quality/driver/driver_name"@, driver, 10);
    let st10 = DocumentState {
        settings: st9.settings.push(("rendering"@, "quality/driver/driver_name"@, driver)),
        ..st9
    };
    assert(read_lines(ls, 10) == Ok::<DocumentState, DocumentError>(st10));
    assert(st10.settings =~= godot3_settings(q, renderer));
}

/// A `project.godot` generated for a Godot 3 project (a version starting
/// with `3`), whatever its name and renderer, is read without error; its
/// `application` section gives back the trimmed name as the JSON string
/// literal that was written and the `res://icon.svg` icon, and it gives no
/// version hint. The quoted name is decoded as the JSON string it spells.
pub proof fn lemma_godot3_project_reads_back(name: Seq<char>, version: Seq<char>, renderer: Renderer)
    requires
        version.len() > 0,
        version[0] == '3',
    ensures
        document_settings(project_godot_text(name, version, renderer)) matches Ok(settings)
            && lookup_setting(settings, "application"@, "config/name"@) == Some(
            json_quoted(trim(name)),
        ) && quoted_value(json_quoted(trim(name))) == json_string_value(json_quoted(trim(name)))
            && summary_version_hint(settings) is None && lookup_setting(
            settings,
            "application"@,
            "config/icon"@,
        ) == Some("\"res://icon.svg\""@),
{
    lemma_read_godot3(name, version, renderer);
    lemma_key_literals();
    reveal_strlit("config/name");
    reveal_strlit("config/icon");
    reveal_strlit("config/features");
    reveal_strlit("application");
    reveal_strlit("rendering");
    reveal_strlit("\"res://icon.svg\"");
    reveal_strlit("res://icon.svg");
    let q = escaped_name(name);
    let s = godot3_settings(q, renderer);
    let app = "application"@;
    assert("config/icon"@[7] != "config/name"@[7]);
    assert("config/icon"@ != "config/name"@);
    assert("config/icon"@ != "config/features"@);
    assert("config/features"@ != "config/name"@);
    assert("rendering"@ != app);
    assert(Seq::<char>::empty() != app);
    let s3 = s.drop_last();
    let s2 = s3.drop_last();
    let s1 = s2.drop_last();
    let s0 = s1.drop_last();
    assert(s0.len() == 0);
    assert(lookup_setting(s, app, "config/name"@) == lookup_setting(s3, app, "config/name"@));
    assert(lookup_setting(s3, app, "config/name"@) == lookup_setting(s2, app, "config/name"@));
    assert(lookup_setting(s2, app, "config/name"@) == Some(q));
    assert(lookup_setting(s, app, "config/icon"@) == lookup_setting(s3, app, "config/icon"@));
    assert(lookup_setting(s3, app, "config/icon"@) == Some(quoted("res://icon.svg"@)));
    assert(quoted("res://icon.svg"@) =~= "\"res://icon.svg\""@);
    assert(lookup_setting(s, app, "config/features"@) == lookup_setting(s3, app, "config/features"@));
    assert(lookup_setting(s3, app, "config/features"@) == lookup_setting(s2, app, "config/features"@));
    assert(lookup_setting(s2, app, "config/features"@) == lookup_setting(s1, app, "config/features"@));
    assert(lookup_setting(s1, app, "config/features"@) == lookup_setting(s0, app, "config/features"@));
    assert(lookup_setting(s0, app, "config/features"@) is None);
    assert(q[0] == '"' && q.last() == '"');
    lemma_trim_keeps(q);
}

/// The rendering settings and the feature list among the settings of a
/// generated Godot 4 `project.godot`.
#[verifier::rlimit(100)]
proof fn lemma_generated_settings_lookups(q: Seq<char>, fv: Seq<char>, renderer: Renderer)
    ensures
        ({
            let s = generated_settings(q, fv, renderer);
            let method = if renderer == Renderer::ForwardPlus {
                None
            } else if renderer == Renderer::Mobile {
                Some("\"mobile\""@)
            } else {
                Some("\"gl_compatibility\""@)
            };
            &&& lookup_setting(s, "rendering"@, "renderer/rendering_method"@) == method
            &&& lookup_setting(s, "rendering"@, "renderer/rendering_method.mobile"@) == method
            &&& lookup_setting(s, "application"@, "config/features"@) == Some(fv)
        }),
{
    lemma_key_literals();
    reveal_strlit("renderer/rendering_method");
    reveal_strlit("renderer/rendering_method.mobile");
    reveal_strlit("rendering");
    reveal_strlit("application");
    reveal_strlit("config/icon");
    reveal_strlit("config/features");
    reveal_strlit("mobile");
    reveal_strlit("gl_compatibility");
    reveal_strlit("\"mobile\"");
    reveal_strlit("\"gl_compatibility\"");
    let s = generated_settings(q, fv, renderer);
    let rend = "rendering"@;
    let app = "application"@;
    let k1 = "renderer/rendering_method"@;
    let k2 = "renderer/rendering_method.mobile"@;
    let kf = "config/features"@;
    assert(k1 != k2);
    assert(rend != app);
    assert(rend != Seq::<char>::empty());
    assert("config/icon"@ != kf);
    let h = s.take(4);
    let h3 = h.drop_last();
    let h2 = h3.drop_last();
    let h1 = h2.drop_last();
    let h0 = h1.drop_last();
    assert(h.last().0 == app && h.last().1 == "config/icon"@);
    assert(h3.last() == (app, kf, fv));
    assert(h2.last().0 == app);
    assert(h1.last().0 == Seq::<char>::empty());
    assert(h0.len() == 0);
    assert(lookup_setting(h, app, kf) == lookup_setting(h3, app, kf));
    assert(lookup_setting(h3, app, kf) == Some(fv));
    if renderer == Renderer::ForwardPlus {
        assert(s =~= h);
        assert(lookup_setting(h0, rend, k1) is None);
        assert(lookup_setting(h1, rend, k1) is None);
        assert(lookup_setting(h2, rend, k1) is None);
        assert(lookup_setting(h3, rend, k1) is None);
        assert(lookup_setting(h, rend, k1) is None);
        assert(lookup_setting(h0, rend, k2) is None);
        assert(lookup_setting(h1, rend, k2) is None);
        assert(lookup_setting(h2, rend, k2) is None);
        assert(lookup_setting(h3, rend, k2) is None);
        assert(lookup_setting(h, rend, k2) is None);
    } else {
        let m = quoted(rendering_method(renderer));
        assert(s.last() == (rend, k2, m));
        assert(s.drop_last().last() == (rend, k1, m));
        assert(s.drop_last().drop_last() =~= h);
        assert(lookup_setting(s, rend, k2) == Some(m));
        assert(lookup_setting(s, rend, k1) == lookup_setting(s.drop_last(), rend, k1));
        assert(lookup_setting(s.drop_last(), rend, k1) == Some(m));
        assert(lookup_setting(s, app, kf) == lookup_setting(s.drop_last(), app, kf));
        assert(lookup_setting(s.drop_last(), app, kf) == lookup_setting(h, app, kf));
        if renderer == Renderer::Mobile {
            assert(m =~= "\"mobile\""@);
        } else {
            assert(m =~= "\"gl_compatibility\""@);
        }
    }
}

/// The renderer that a generated Godot 4 `project.godot` is read back with:
/// no rendering setting for Forward+; otherwise
/// `renderer/rendering_method` and `renderer/rendering_method.mobile` are
/// `"mobile"` for the Mobile renderer and `"gl_compatibility"` for every
/// other one. The feature list names the version's `major.minor` and then
/// `Mobile`, `GL Compatibility` or no renderer.
pub proof fn lemma_generated_renderer_reads_back(name: Seq<char>, version: Seq<char>, renderer: Renderer)
    requires
        !(version.len() > 0 && version[0] == '3'),
        plain_text(version),
    ensures
        document_settings(project_godot_text(name, version, renderer)) matches Ok(settings) && ({
            let method = if renderer == Renderer::ForwardPlus {
                None
            } else if renderer == Renderer::Mobile {
                Some("\"mobile\""@)
            } else {
                Some("\"gl_compatibility\""@)
            };
            &&& lookup_setting(settings, "rendering"@, "renderer/rendering_method"@) == method
            &&& lookup_setting(settings, "rendering"@, "renderer/rendering_method.mobile"@) == method
            &&& lookup_setting(settings, "application"@, "config/features"@) == Some(
                "PackedStringArray(\""@ + feature_version(version) + (if renderer == Renderer::Mobile {
                    "\", \"Mobile"@
                } else if renderer == Renderer::Compatibility {
                    "\", \"GL Compatibility"@
                } else {
                    seq![]
                }) + "\")"@,
            )
        }),
{
    lemma_feature_version_plain(version);
    lemma_read_generated(name, version, renderer);
    let f = feature_version(version);
    lemma_generated_settings_lookups(escaped_name(name), features_value(f, feature_label(renderer)), renderer);
    lemma_features_literal(f, renderer);
}

/// The feature list written for a feature version and renderer, spelled out.
proof fn lemma_features_literal(f: Seq<char>, renderer: Renderer)
    ensures
        features_value(f, feature_label(renderer)) == "PackedStringArray(\""@ + f + (if renderer
            == Renderer::Mobile {
            "\", \"Mobile"@
        } else if renderer == Renderer::Compatibility {
            "\", \"GL Compatibility"@
        } else {
            seq![]
        }) + "\")"@,
{
    reveal_strlit("PackedStringArray(\"");
    reveal_strlit("\", \"");
    reveal_strlit("\")");
    reveal_strlit("\", \"Mobile");
    reveal_strlit("\", \"GL Compatibility");
    reveal_strlit("Mobile");
    reveal_strlit("GL Compatibility");
    let fv = features_value(f, feature_label(renderer));
    if renderer == Renderer::Mobile {
        assert(fv =~= "PackedStringArray(\""@ + f + "\", \"Mobile"@ + "\")"@);
    } else if renderer == Renderer::Compatibility {
        assert(fv =~= "PackedStringArray(\""@ + f + "\", \"GL Compatibility"@ + "\")"@);
    } else {
        assert(fv =~= "PackedStringArray(\""@ + f + Seq::<char>::empty() + "\")"@);
    }
}

} // verus!
