//! The files that the dashboard generates: a project flake pinned to an
//! official Godot build, and the files of a new project.
use vstd::prelude::*;
use crate::json::{encode_json_string, json_quoted};
use crate::model::{NewProjectSpec, Renderer};
use crate::nix::{current_system, system_for_arch};
use crate::release::ReleaseAsset;
use crate::text::{
    char_is_ascii_alphabetic, char_is_ascii_alphanumeric, chars_ends_with, copy_range,
    ends_with, from_chars, is_ascii_alphabetic, is_ascii_alphanumeric, rows, split_char,
    split_chars, to_chars, trim, trim_chars,
};

verus! {

broadcast use vstd::string::group_string_axioms;

/// Why a file could not be generated.
#[derive(Debug, Clone, PartialEq, Eq)]
pub enum GenerateError {
    /// An extra tool is not a dot-separated nixpkgs attribute path.
    InvalidTools,
    /// No official Godot build exists for the architecture asked for.
    UnsupportedArchitecture,
    /// The Godot asset is not a `.zip` archive.
    NotZipArchive,
    /// The project name is not a plain directory name.
    InvalidProjectName,
}

// ---------------------------------------------------------------------------
// Package attributes

/// One segment of an attribute path: a letter or `_`, then letters, digits,
/// `_`, `-` or `'`.
pub open spec fn attr_segment_ok(seg: Seq<char>) -> bool {
    &&& seg.len() > 0
    &&& (is_ascii_alphabetic(seg[0]) || seg[0] == '_')
    &&& forall|i: int|
        1 <= i < seg.len() ==> (is_ascii_alphanumeric(#[trigger] seg[i]) || seg[i] == '_'
            || seg[i] == '-' || seg[i] == '\'')
}

/// A non-empty nixpkgs attribute path whose `.`-separated segments are all
/// well formed; such a value is data and cannot be a Nix expression.
pub open spec fn valid_package_attr(value: Seq<char>) -> bool {
    value.len() > 0 && forall|i: int|
        0 <= i < split_char(value, '.').len() ==> attr_segment_ok(
            #[trigger] split_char(value, '.')[i],
        )
}

fn segment_ok(seg: &[char]) -> (r: bool)
    ensures
        r == attr_segment_ok(seg@),
{
    if seg.len() == 0 {
        return false;
    }
    if !(char_is_ascii_alphabetic(seg[0]) || seg[0] == '_') {
        return false;
    }
    let mut i: usize = 1;
    while i < seg.len()
        invariant
            1 <= i <= seg.len(),
            forall|k: int|
                1 <= k < i ==> (is_ascii_alphanumeric(#[trigger] seg@[k]) || seg@[k] == '_'
                    || seg@[k] == '-' || seg@[k] == '\''),
        decreases seg.len() - i,
    {
        let c = seg[i];
        if !(char_is_ascii_alphanumeric(c) || c == '_' || c == '-' || c == '\'') {
            return false;
        }
        i += 1;
    }
    true
}

/// Whether `value` is a nixpkgs attribute path such as `git` or
/// `python3Packages.pygame`.
pub fn validate_package_attr(value: &str) -> (r: bool)
    ensures
        r == valid_package_attr(value@),
{
    let chars = to_chars(value);
    if chars.len() == 0 {
        return false;
    }
    let segments = split_chars(&chars, '.');
    let mut i: usize = 0;
    while i < segments.len()
        invariant
            i <= segments.len(),
            rows(segments@) == split_char(value@, '.'),
            forall|k: int| 0 <= k < i ==> attr_segment_ok(#[trigger] split_char(value@, '.')[k]),
        decreases segments.len() - i,
    {
        assert(rows(segments@)[i as int] == segments@[i as int]@);
        if !segment_ok(&segments[i]) {
            return false;
        }
        i += 1;
    }
    true
}

/// Every tool is a valid attribute path.
pub open spec fn all_valid_tools(tools: Seq<Seq<char>>) -> bool {
    forall|i: int| 0 <= i < tools.len() ==> valid_package_attr(#[trigger] tools[i])
}

pub fn tools_are_valid(tools: &[String]) -> (r: bool)
    ensures
        r == all_valid_tools(tools@.map_values(|t: String| t@)),
{
    let ghost views = tools@.map_values(|t: String| t@);
    let mut i: usize = 0;
    while i < tools.len()
        invariant
            i <= tools.len(),
            views == tools@.map_values(|t: String| t@),
            forall|k: int| 0 <= k < i ==> valid_package_attr(#[trigger] views[k]),
        decreases tools.len() - i,
    {
        if !validate_package_attr(tools[i].as_str()) {
            assert(views[i as int] == tools@[i as int]@);
            return false;
        }
        i += 1;
    }
    true
}

// ---------------------------------------------------------------------------
// The project flake

pub const FLAKE_OPEN: &'static str = "{\n  description = \"Godot ";

pub const FLAKE_AFTER_DESCRIPTION: &'static str = " development environment\";\n\n  inputs.nixpkgs.url = \"github:NixOS/nixpkgs/nixos-unstable\";\n\n  outputs = { self, nixpkgs }:\n    let\n      system = \"";

pub const FLAKE_AFTER_SYSTEM: &'static str = "\";\n      pkgs = import nixpkgs { inherit system; };\n\n      godot-unwrapped = pkgs.stdenv.mkDerivation {\n        pname = \"godot-unwrapped\";\n        version = \"";

pub const FLAKE_AFTER_VERSION: &'static str = "\";\n        src = pkgs.fetchurl {\n          url = \"";

pub const FLAKE_AFTER_URL: &'static str = "\";\n          hash = \"";

pub const FLAKE_AFTER_HASH: &'static str = "\";\n        };\n        nativeBuildInputs = [ pkgs.unzip ];\n        unpackPhase = ''\n          mkdir source\n          unzip \"$src\" -d source\n        '';\n        installPhase = ''\n          mkdir -p \"$out/bin\"\n          cp \"source/";

pub const FLAKE_AFTER_BINARY: &'static str = "\" \"$out/bin/godot\"\n          chmod +x \"$out/bin/godot\"\n        '';\n        dontStrip = true;\n      };\n\n      godot = pkgs.buildFHSEnv {\n        name = \"godot\";\n        targetPkgs = pkgs: with pkgs; [\n          godot-unwrapped\n          alsa-lib libpulseaudio\n          dbus fontconfig libxkbcommon mesa udev\n          libGL vulkan-loader wayland\n          xorg.libX11 xorg.libXcursor xorg.libXext xorg.libXfixes\n          xorg.libXi xorg.libXinerama xorg.libXrandr xorg.libXrender\n          speechd\n        ];\n        runScript = \"godot\";\n      };\n\n      extraTools = with pkgs; [";

pub const FLAKE_CLOSE: &'static str = "\n      ];\n    in {\n      packages.${system}.default = godot;\n      devShells.${system}.default = pkgs.mkShell {\n        packages = [ godot ] ++ extraTools;\n      };\n    };\n}\n";

/// What precedes each extra tool in the `extraTools` list.
pub const TOOL_SEPARATOR: &'static str = "\n                ";

/// The extra tools, each on its own line of the `extraTools` list.
pub open spec fn tool_lines(tools: Seq<Seq<char>>) -> Seq<char>
    decreases tools.len(),
{
    if tools.len() == 0 {
        seq![]
    } else {
        tool_lines(tools.drop_last()) + TOOL_SEPARATOR@ + tools.last()
    }
}

/// The flake text for a Godot version, system, download, hash, binary name
/// inside the archive and extra tools.
pub open spec fn flake_text(
    version: Seq<char>,
    system: Seq<char>,
    url: Seq<char>,
    hash: Seq<char>,
    binary: Seq<char>,
    tools: Seq<Seq<char>>,
) -> Seq<char> {
    FLAKE_OPEN@ + version + FLAKE_AFTER_DESCRIPTION@ + system + FLAKE_AFTER_SYSTEM@ + version
        + FLAKE_AFTER_VERSION@ + url + FLAKE_AFTER_URL@ + hash + FLAKE_AFTER_HASH@ + binary
        + FLAKE_AFTER_BINARY@ + tool_lines(tools) + FLAKE_CLOSE@
}

/// What `render_flake` produces: the tools are checked first, then the
/// system, then that the asset is a `.zip` whose name without `.zip` is the
/// binary inside it.
pub open spec fn rendered_flake(
    asset: (Seq<char>, Seq<char>, Seq<char>),
    hash: Seq<char>,
    tools: Seq<Seq<char>>,
    arch: Seq<char>,
) -> Result<Seq<char>, GenerateError> {
    let (version, url, filename) = asset;
    if !all_valid_tools(tools) {
        Err(GenerateError::InvalidTools)
    } else {
        match system_for_arch(arch) {
            None => Err(GenerateError::UnsupportedArchitecture),
            Some(system) => if ends_with(filename, ".zip"@) {
                Ok(
                    flake_text(
                        version,
                        system,
                        url,
                        hash,
                        filename.take(filename.len() - 4),
                        tools,
                    ),
                )
            } else {
                Err(GenerateError::NotZipArchive)
            },
        }
    }
}

/// Asking for one more extra tool adds exactly one line to the flake: the
/// tool, on its own line, at the end of the `extraTools` list, just before
/// the list closes; the rest of the flake stays as it was.
pub proof fn lemma_flake_adds_tool_line(
    asset: (Seq<char>, Seq<char>, Seq<char>),
    hash: Seq<char>,
    tools: Seq<Seq<char>>,
    tool: Seq<char>,
    arch: Seq<char>,
    before: Seq<char>,
    after: Seq<char>,
)
    requires
        rendered_flake(asset, hash, tools, arch) == Ok::<Seq<char>, GenerateError>(before),
        rendered_flake(asset, hash, tools.push(tool), arch) == Ok::<Seq<char>, GenerateError>(
            after,
        ),
    ensures
        before.len() >= FLAKE_CLOSE@.len(),
        before.skip(before.len() - FLAKE_CLOSE@.len()) == FLAKE_CLOSE@,
        after == before.take(before.len() - FLAKE_CLOSE@.len()) + "\n                "@ + tool
            + FLAKE_CLOSE@,
{
    reveal_strlit("\n                ");
    assert(tools.push(tool).drop_last() =~= tools);
    assert(tool_lines(tools.push(tool)) == tool_lines(tools) + TOOL_SEPARATOR@ + tool);
    let (version, url, filename) = asset;
    let system = system_for_arch(arch).unwrap();
    let binary = filename.take(filename.len() - 4);
    let head = FLAKE_OPEN@ + version + FLAKE_AFTER_DESCRIPTION@ + system + FLAKE_AFTER_SYSTEM@
        + version + FLAKE_AFTER_VERSION@ + url + FLAKE_AFTER_URL@ + hash + FLAKE_AFTER_HASH@ + binary
        + FLAKE_AFTER_BINARY@;
    assert(before =~= head + tool_lines(tools) + FLAKE_CLOSE@);
    assert(before.take(before.len() - FLAKE_CLOSE@.len()) =~= head + tool_lines(tools));
    assert(before.skip(before.len() - FLAKE_CLOSE@.len()) =~= FLAKE_CLOSE@);
    assert(after =~= head + tool_lines(tools) + TOOL_SEPARATOR@ + tool + FLAKE_CLOSE@);
}

/// With no extra tool the `extraTools` list of the flake is empty: its
/// opening is directly followed by its closing.
pub proof fn lemma_flake_without_tools(
    asset: (Seq<char>, Seq<char>, Seq<char>),
    hash: Seq<char>,
    arch: Seq<char>,
    text: Seq<char>,
)
    requires
        rendered_flake(asset, hash, seq![], arch) == Ok::<Seq<char>, GenerateError>(text),
    ensures
        text.len() >= FLAKE_AFTER_BINARY@.len() + FLAKE_CLOSE@.len(),
        text.skip(text.len() - FLAKE_AFTER_BINARY@.len() - FLAKE_CLOSE@.len()) == FLAKE_AFTER_BINARY@
            + FLAKE_CLOSE@,
{
    let (version, url, filename) = asset;
    let system = system_for_arch(arch).unwrap();
    let binary = filename.take(filename.len() - 4);
    let head = FLAKE_OPEN@ + version + FLAKE_AFTER_DESCRIPTION@ + system + FLAKE_AFTER_SYSTEM@
        + version + FLAKE_AFTER_VERSION@ + url + FLAKE_AFTER_URL@ + hash + FLAKE_AFTER_HASH@ + binary;
    assert(tool_lines(seq![]) == Seq::<char>::empty());
    assert(text =~= head + FLAKE_AFTER_BINARY@ + FLAKE_CLOSE@);
    assert(text.skip(text.len() - FLAKE_AFTER_BINARY@.len() - FLAKE_CLOSE@.len()) =~= FLAKE_AFTER_BINARY@
        + FLAKE_CLOSE@);
}

/// The extra-tool lines of the flake.
fn render_tool_lines(tools: &[String]) -> (r: String)
    ensures
        r@ == tool_lines(tools@.map_values(|t: String| t@)),
{
    let ghost views = tools@.map_values(|t: String| t@);
    let mut out = String::new();
    let mut i: usize = 0;
    while i < tools.len()
        invariant
            i <= tools.len(),
            views == tools@.map_values(|t: String| t@),
            out@ == tool_lines(views.take(i as int)),
        decreases tools.len() - i,
    {
        assert(views.take(i + 1).drop_last() =~= views.take(i as int));
        assert(views.take(i + 1).last() == tools@[i as int]@);
        out.append(TOOL_SEPARATOR);
        out.append(tools[i].as_str());
        i += 1;
    }
    assert(views.take(tools.len() as int) =~= views);
    out
}

/// Renders the project flake that pins `asset` with `hash` and adds the
/// extra tools; `arch` is the CPU architecture it is generated for.
pub fn render_flake(asset: &ReleaseAsset, hash: &str, extra_tools: &[String], arch: &str) -> (r:
    Result<String, GenerateError>)
    ensures
        match rendered_flake(
            (asset.version@, asset.url@, asset.filename@),
            hash@,
            extra_tools@.map_values(|t: String| t@),
            arch@,
        ) {
            Ok(text) => r matches Ok(s) && s@ == text,
            Err(e) => r == Err::<String, GenerateError>(e),
        },
{
    if !tools_are_valid(extra_tools) {
        return Err(GenerateError::InvalidTools);
    }
    let system = match current_system(arch) {
        Ok(s) => s,
        Err(_) => {
            return Err(GenerateError::UnsupportedArchitecture);
        },
    };
    let filename = to_chars(asset.filename.as_str());
    let zip = to_chars(".zip");
    proof {
        reveal_strlit(".zip");
    }
    if !chars_ends_with(&filename, &zip) {
        return Err(GenerateError::NotZipArchive);
    }
    let binary = from_chars(&copy_range(&filename, 0, filename.len() - 4));
    assert(binary@ =~= asset.filename@.take(asset.filename@.len() - 4));
    let tools = render_tool_lines(extra_tools);
    let mut out = FLAKE_OPEN.to_string();
    out.append(asset.version.as_str());
    out.append(FLAKE_AFTER_DESCRIPTION);
    out.append(system);
    out.append(FLAKE_AFTER_SYSTEM);
    out.append(asset.version.as_str());
    out.append(FLAKE_AFTER_VERSION);
    out.append(asset.url.as_str());
    out.append(FLAKE_AFTER_URL);
    out.append(hash);
    out.append(FLAKE_AFTER_HASH);
    out.append(binary.as_str());
    out.append(FLAKE_AFTER_BINARY);
    out.append(tools.as_str());
    out.append(FLAKE_CLOSE);
    Ok(out)
}

// ---------------------------------------------------------------------------
// A new project

pub const GODOT3_HEAD: &'static str = "; Engine configuration file.\n; Generated by godot-nvm.\nconfig_version=4\n\n[application]\nconfig/name=";

pub const GODOT3_DRIVER: &'static str = "\nconfig/icon=\"res://icon.svg\"\n\n[rendering]\nquality/driver/driver_name=\"";

pub const GODOT3_TAIL: &'static str = "\"\n";

pub const GODOT4_HEAD: &'static str = "; Engine configuration file.\n; Generated by godot-nvm.\nconfig_version=5\n\n[application]\nconfig/name=";

pub const GODOT4_FEATURES: &'static str = "\nconfig/features=";

pub const GODOT4_ICON: &'static str = "\nconfig/icon=\"res://icon.svg\"\n";

pub const FEATURES_OPEN: &'static str = "PackedStringArray(\"";

pub const FEATURES_SEPARATOR: &'static str = "\", \"";

pub const FEATURES_CLOSE: &'static str = "\")";

pub const RENDERING_HEAD: &'static str = "\n[rendering]\nrenderer/rendering_method=\"";

pub const RENDERING_MOBILE: &'static str = "\"\nrenderer/rendering_method.mobile=\"";

pub const RENDERING_TAIL: &'static str = "\"\n";


/// The icon of a new project.
pub const DEFAULT_ICON: &'static str = "<svg xmlns=\"http://www.w3.org/2000/svg\" width=\"128\" height=\"128\" viewBox=\"0 0 128 128\">\n<rect x=\"8\" y=\"8\" width=\"112\" height=\"112\" rx=\"24\" fill=\"#478cbf\"/>\n<path d=\"M35 78V50l29-17 29 17v28L64 95z\" fill=\"#fff\" opacity=\".95\"/>\n<circle cx=\"51\" cy=\"62\" r=\"5\" fill=\"#478cbf\"/><circle cx=\"77\" cy=\"62\" r=\"5\" fill=\"#478cbf\"/>\n<path d=\"M47 76q17 13 34 0\" fill=\"none\" stroke=\"#478cbf\" stroke-width=\"6\" stroke-linecap=\"round\"/>\n</svg>\n";

/// The `.envrc` that loads the project flake.
pub const ENVRC_TEXT: &'static str = "use flake\n";

pub proof fn lemma_split_char_nonempty(s: Seq<char>, c: char)
    ensures
        split_char(s, c).len() >= 1,
{
    reveal_with_fuel(split_char, 1);
}

/// The trimmed name as a JSON string literal.
pub open spec fn escaped_name(name: Seq<char>) -> Seq<char> {
    json_quoted(trim(name))
}

/// `major.minor` of the version's branch (the part before the first `-`),
/// with minor `0` when the branch has no `.`.
pub open spec fn feature_version(version: Seq<char>) -> Seq<char> {
    let branch = split_char(version, '-')[0];
    let pieces = split_char(branch, '.');
    pieces[0] + "."@ + if pieces.len() >= 2 {
        pieces[1]
    } else {
        "0"@
    }
}

/// The `config/features` label of a Godot 4 renderer, empty when none.
pub open spec fn feature_label(r: Renderer) -> Seq<char> {
    match r {
        Renderer::Mobile => "Mobile"@,
        Renderer::Compatibility => "GL Compatibility"@,
        _ => seq![],
    }
}

/// The rendering method a Godot 4 project is configured with.
pub open spec fn rendering_method(r: Renderer) -> Seq<char> {
    match r {
        Renderer::Mobile => "mobile"@,
        _ => "gl_compatibility"@,
    }
}

/// The `[rendering]` section of a Godot 4 project; none for Forward+.
pub open spec fn rendering_section(r: Renderer) -> Seq<char> {
    match r {
        Renderer::ForwardPlus => seq![],
        _ => RENDERING_HEAD@ + rendering_method(r) + RENDERING_MOBILE@ + rendering_method(r)
            + RENDERING_TAIL@,
    }
}

pub open spec fn features_value(feature: Seq<char>, label: Seq<char>) -> Seq<char> {
    if label.len() == 0 {
        FEATURES_OPEN@ + feature + FEATURES_CLOSE@
    } else {
        FEATURES_OPEN@ + feature + FEATURES_SEPARATOR@ + label + FEATURES_CLOSE@
    }
}

/// The `project.godot` of a new project: the Godot 3 layout when the
/// version starts with `3`, the Godot 4 layout otherwise.
pub open spec fn project_godot_text(name: Seq<char>, version: Seq<char>, renderer: Renderer) -> Seq<
    char,
> {
    if version.len() > 0 && version[0] == '3' {
        GODOT3_HEAD@ + escaped_name(name) + GODOT3_DRIVER@ + (if renderer == Renderer::Gles2 {
            "GLES2"@
        } else {
            "GLES3"@
        }) + GODOT3_TAIL@
    } else {
        GODOT4_HEAD@ + escaped_name(name) + GODOT4_FEATURES@ + features_value(
            feature_version(version),
            feature_label(renderer),
        ) + GODOT4_ICON@ + rendering_section(renderer)
    }
}

fn first_piece(s: &[char], c: char) -> (r: Vec<char>)
    ensures
        r@ == split_char(s@, c)[0],
{
    proof {
        reveal_with_fuel(split_char, 1);
    }
    let pieces = split_chars(s, c);
    proof {
        lemma_split_char_nonempty(s@, c);
    }
    assert(rows(pieces@)[0] == pieces@[0]@);
    copy_range(&pieces[0], 0, pieces[0].len())
}

fn render_feature_version(version: &str) -> (r: String)
    ensures
        r@ == feature_version(version@),
{
    let chars = to_chars(version);
    let branch = first_piece(&chars, '-');
    let pieces = split_chars(&branch, '.');
    proof {
        lemma_split_char_nonempty(branch@, '.');
    }
    assert(rows(pieces@)[0] == pieces@[0]@);
    let mut out = from_chars(&pieces[0]);
    out.append(".");
    if pieces.len() >= 2 {
        assert(rows(pieces@)[1] == pieces@[1]@);
        let minor = from_chars(&pieces[1]);
        out.append(minor.as_str());
    } else {
        out.append("0");
    }
    out
}

/// Renders the `project.godot` of a new project.
pub fn render_project_godot(spec: &NewProjectSpec) -> (r: String)
    ensures
        r@ == project_godot_text(spec.name@, spec.godot_version@, spec.renderer),
{
    let name_chars = to_chars(spec.name.as_str());
    let trimmed = from_chars(&trim_chars(&name_chars));
    let escaped = encode_json_string(trimmed.as_str());
    let version = to_chars(spec.godot_version.as_str());
    if version.len() > 0 && version[0] == '3' {
        let mut out = GODOT3_HEAD.to_string();
        out.append(escaped.as_str());
        out.append(GODOT3_DRIVER);
        match spec.renderer {
            Renderer::Gles2 => out.append("GLES2"),
            _ => out.append("GLES3"),
        }
        out.append(GODOT3_TAIL);
        out
    } else {
        let feature = render_feature_version(spec.godot_version.as_str());
        let mut out = GODOT4_HEAD.to_string();
        out.append(escaped.as_str());
        out.append(GODOT4_FEATURES);
        out.append(FEATURES_OPEN);
        out.append(feature.as_str());
        match spec.renderer {
            Renderer::Mobile => {
                out.append(FEATURES_SEPARATOR);
                out.append("Mobile");
            },
            Renderer::Compatibility => {
                out.append(FEATURES_SEPARATOR);
                out.append("GL Compatibility");
            },
            _ => {},
        }
        proof {
            reveal_strlit("Mobile");
            reveal_strlit("GL Compatibility");
        }
        out.append(FEATURES_CLOSE);
        out.append(GODOT4_ICON);
        let method = match spec.renderer {
            Renderer::Mobile => "mobile",
            _ => "gl_compatibility",
        };
        match spec.renderer {
            Renderer::ForwardPlus => {},
            _ => {
                out.append(RENDERING_HEAD);
                out.append(method);
                out.append(RENDERING_MOBILE);
                out.append(method);
                out.append(RENDERING_TAIL);
            },
        }
        out
    }
}

/// A trimmed name that is a single directory name: not empty, `.` or `..`,
/// and without `/` or NUL.
pub open spec fn valid_project_name(name: Seq<char>) -> bool {
    let t = trim(name);
    !(t.len() == 0 || t == "."@ || t == ".."@ || crate::text::has_char(t, '/')
        || crate::text::has_char(t, '\0'))
}

/// Accepts a project name that can be created as one directory.
pub fn validate_project_name(name: &str) -> (r: Result<(), GenerateError>)
    ensures
        r is Ok <==> valid_project_name(name@),
        r is Err ==> r == Err::<(), GenerateError>(GenerateError::InvalidProjectName),
{
    let chars = to_chars(name);
    let t = trim_chars(&chars);
    let dot = to_chars(".");
    let dots = to_chars("..");
    let invalid = t.len() == 0 || crate::project::chars_equal(&t, &dot)
        || crate::project::chars_equal(&t, &dots) || crate::text::find_char_from(&t, '/', 0).is_some()
        || crate::text::find_char_from(&t, '\0', 0).is_some();
    if invalid {
        Err(GenerateError::InvalidProjectName)
    } else {
        Ok(())
    }
}

/// The `.gitignore` of a new project: Godot 3 keeps imports in `.import/`,
/// Godot 4 in `.godot/`.
pub open spec fn gitignore_text(version: Seq<char>) -> Seq<char> {
    "# Godot generated files\n"@ + if version.len() > 0 && version[0] == '3' {
        ".import/\n"@
    } else {
        ".godot/\n"@
    }
}

pub fn render_gitignore(version: &str) -> (r: String)
    ensures
        r@ == gitignore_text(version@),
{
    let chars = to_chars(version);
    let mut out = "# Godot generated files\n".to_string();
    if chars.len() > 0 && chars[0] == '3' {
        out.append(".import/\n");
    } else {
        out.append(".godot/\n");
    }
    out
}

/// A file of a new project, by its name inside the project directory.
#[derive(Debug, Clone)]
pub struct ProjectFile {
    pub name: String,
    pub contents: String,
}

pub open spec fn file_view(f: ProjectFile) -> (Seq<char>, Seq<char>) {
    (f.name@, f.contents@)
}

/// The files of a new project with the given flake, in the order they are
/// written: `project.godot`, `icon.svg`, `flake.nix`, then `.envrc` and
/// `.gitignore` when asked for.
pub open spec fn project_file_list(
    name: Seq<char>,
    version: Seq<char>,
    renderer: Renderer,
    flake: Seq<char>,
    envrc: bool,
    git_metadata: bool,
) -> Seq<(Seq<char>, Seq<char>)> {
    let base = seq![
        ("project.godot"@, project_godot_text(name, version, renderer)),
        ("icon.svg"@, DEFAULT_ICON@),
        ("flake.nix"@, flake),
    ];
    let with_envrc = if envrc {
        base.push((".envrc"@, ENVRC_TEXT@))
    } else {
        base
    };
    if git_metadata {
        with_envrc.push((".gitignore"@, gitignore_text(version)))
    } else {
        with_envrc
    }
}

/// The files of a new project; its flake pins `asset` with `hash` for
/// `arch`.
pub fn project_files(spec: &NewProjectSpec, asset: &ReleaseAsset, hash: &str, arch: &str) -> (r:
    Result<Vec<ProjectFile>, GenerateError>)
    ensures
        match rendered_flake(
            (asset.version@, asset.url@, asset.filename@),
            hash@,
            spec.extra_tools@.map_values(|t: String| t@),
            arch@,
        ) {
            Ok(flake) => r matches Ok(files) && files@.map_values(|f: ProjectFile| file_view(f))
                == project_file_list(
                spec.name@,
                spec.godot_version@,
                spec.renderer,
                flake,
                spec.create_envrc,
                spec.git_metadata,
            ),
            Err(e) => r == Err::<Vec<ProjectFile>, GenerateError>(e),
        },
{
    let godot = render_project_godot(spec);
    let flake = match render_flake(asset, hash, spec.extra_tools.as_slice(), arch) {
        Ok(f) => f,
        Err(e) => {
            return Err(e);
        },
    };
    let mut files: Vec<ProjectFile> = Vec::new();
    files.push(ProjectFile { name: "project.godot".to_string(), contents: godot });
    files.push(ProjectFile { name: "icon.svg".to_string(), contents: DEFAULT_ICON.to_string() });
    files.push(ProjectFile { name: "flake.nix".to_string(), contents: flake });
    if spec.create_envrc {
        files.push(ProjectFile { name: ".envrc".to_string(), contents: ENVRC_TEXT.to_string() });
    }
    if spec.git_metadata {
        let ignore = render_gitignore(spec.godot_version.as_str());
        files.push(ProjectFile { name: ".gitignore".to_string(), contents: ignore });
    }
    assert(files@.map_values(|f: ProjectFile| file_view(f)) =~= project_file_list(
        spec.name@,
        spec.godot_version@,
        spec.renderer,
        flake@,
        spec.create_envrc,
        spec.git_metadata,
    ));
    Ok(files)
}

} // verus!
