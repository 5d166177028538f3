//! The data that the dashboard keeps and shows: settings, registered
//! projects, project metadata and the renderers a new project can use.
use vstd::prelude::*;
use crate::text::trim_start;

verus! {

broadcast use vstd::string::group_string_axioms;

/// The registry schema version this build writes and the newest it reads.
pub const STATE_VERSION: u32 = 1;

/// Dashboard settings.
#[derive(Debug, Clone)]
pub struct Settings {
    /// Where new projects and path prompts start, when set.
    pub default_projects_dir: Option<String>,
    /// Whether generated environments get a `.envrc`.
    pub create_envrc: bool,
}

impl Settings {
    /// No default directory; `.envrc` generation on.
    pub fn new() -> (s: Settings)
        ensures
            s.default_projects_dir is None,
            s.create_envrc,
    {
        Settings { default_projects_dir: None, create_envrc: true }
    }
}

impl Default for Settings {
    fn default() -> (s: Settings)
        ensures
            s.default_projects_dir is None,
            s.create_envrc,
    {
        Settings::new()
    }
}

/// What a project's `project.godot` and files say about it.
#[derive(Debug, Clone, PartialEq, Eq)]
pub struct ProjectMetadata {
    pub name: String,
    /// The icon file, when one was found.
    pub icon: Option<String>,
    /// `major.minor` from the project's feature list.
    pub version_hint: Option<String>,
}

pub struct MetadataView {
    pub name: Seq<char>,
    pub icon: Option<Seq<char>>,
    pub version_hint: Option<Seq<char>>,
}

impl View for ProjectMetadata {
    type V = MetadataView;

    open spec fn view(&self) -> MetadataView {
        MetadataView {
            name: self.name@,
            icon: self.icon.deep_view(),
            version_hint: self.version_hint.deep_view(),
        }
    }
}

/// A copy of an optional text.
pub fn copy_optional_text(o: &Option<String>) -> (r: Option<String>)
    ensures
        r.deep_view() == o.deep_view(),
{
    match o {
        Some(s) => Some(s.clone()),
        None => None,
    }
}

impl ProjectMetadata {
    /// A copy with the same view.
    pub fn duplicate(&self) -> (r: ProjectMetadata)
        ensures
            r@ == self@,
    {
        ProjectMetadata {
            name: self.name.clone(),
            icon: copy_optional_text(&self.icon),
            version_hint: copy_optional_text(&self.version_hint),
        }
    }
}

/// The rendering back-ends a new project can start with.
#[derive(Debug, Clone, Copy, PartialEq, Eq)]
pub enum Renderer {
    ForwardPlus,
    Mobile,
    Compatibility,
    Gles3,
    Gles2,
}

/// The choices for a Godot version: GLES3 and GLES2 for 3.x, the Godot 4
/// renderers otherwise.
pub open spec fn renderer_choices(version: Seq<char>) -> Seq<Renderer> {
    let v = trim_start(version);
    if v.len() > 0 && v[0] == '3' {
        seq![Renderer::Gles3, Renderer::Gles2]
    } else {
        seq![Renderer::ForwardPlus, Renderer::Mobile, Renderer::Compatibility]
    }
}

pub open spec fn renderer_label(r: Renderer) -> Seq<char> {
    match r {
        Renderer::ForwardPlus => "Forward+"@,
        Renderer::Mobile => "Mobile"@,
        Renderer::Compatibility => "Compatibility"@,
        Renderer::Gles3 => "GLES3"@,
        Renderer::Gles2 => "GLES2"@,
    }
}

impl Renderer {
    /// The renderers offered for `version`.
    pub fn choices_for(version: &str) -> (r: &'static [Renderer])
        ensures
            r@ == renderer_choices(version@),
    {
        let chars = crate::text::to_chars(version);
        let mut i: usize = 0;
        assert(chars@.skip(0) =~= chars@);
        while i < chars.len() && crate::text::char_is_white_space(chars[i])
            invariant
                i <= chars.len(),
                chars@ == version@,
                trim_start(version@) == trim_start(chars@.skip(i as int)),
            decreases chars.len() - i,
        {
            assert(chars@.skip(i as int).drop_first() =~= chars@.skip(i + 1));
            i += 1;
        }
        assert(trim_start(chars@.skip(i as int)) == chars@.skip(i as int));
        if i < chars.len() && chars[i] == '3' {
            &[Renderer::Gles3, Renderer::Gles2]
        } else {
            &[Renderer::ForwardPlus, Renderer::Mobile, Renderer::Compatibility]
        }
    }

    /// The name shown for the renderer.
    pub fn label(self) -> (r: &'static str)
        ensures
            r@ == renderer_label(self),
    {
        match self {
            Renderer::ForwardPlus => "Forward+",
            Renderer::Mobile => "Mobile",
            Renderer::Compatibility => "Compatibility",
            Renderer::Gles3 => "GLES3",
            Renderer::Gles2 => "GLES2",
        }
    }
}

/// Everything a new project is created from.
#[derive(Debug, Clone)]
pub struct NewProjectSpec {
    pub name: String,
    pub parent: String,
    pub godot_version: String,
    pub renderer: Renderer,
    pub git_metadata: bool,
    pub extra_tools: Vec<String>,
    pub create_envrc: bool,
}

/// The dev shell a project uses unless another is chosen.
pub fn default_shell() -> (r: String)
    ensures
        r@ == "default"@,
{
    "default".to_string()
}

/// A registered project.
#[derive(Debug, Clone)]
pub struct ProjectRecord {
    /// A random identifier, fixed for the life of the registration.
    pub id: u128,
    pub path: String,
    pub dev_shell: String,
    /// The Godot version that the dev shell reported when it last worked.
    pub verified_version: Option<String>,
    /// Why the dev shell did not work, when it did not.
    pub diagnostic: Option<String>,
    /// When the project was last opened, in nanoseconds since the Unix epoch.
    pub last_opened_at: Option<i64>,
}

pub struct RecordView {
    pub id: u128,
    pub path: Seq<char>,
    pub dev_shell: Seq<char>,
    pub verified_version: Option<Seq<char>>,
    pub diagnostic: Option<Seq<char>>,
    pub last_opened_at: Option<i64>,
}

impl View for ProjectRecord {
    type V = RecordView;

    open spec fn view(&self) -> RecordView {
        RecordView {
            id: self.id,
            path: self.path@,
            dev_shell: self.dev_shell@,
            verified_version: self.verified_version.deep_view(),
            diagnostic: self.diagnostic.deep_view(),
            last_opened_at: self.last_opened_at,
        }
    }
}

/// A project is ready when its dev shell reported a version, no diagnostic
/// is pending and its directory exists.
pub open spec fn record_ready(r: RecordView, path_exists: bool) -> bool {
    r.verified_version is Some && r.diagnostic is None && path_exists
}

impl ProjectRecord {
    /// A new registration of `path` with identifier `id`, on the default
    /// shell and not yet validated.
    pub fn new(id: u128, path: String) -> (r: ProjectRecord)
        ensures
            r@ == (RecordView {
                id,
                path: path@,
                dev_shell: "default"@,
                verified_version: None,
                diagnostic: None,
                last_opened_at: None,
            }),
    {
        ProjectRecord {
            id,
            path,
            dev_shell: default_shell(),
            verified_version: None,
            diagnostic: None,
            last_opened_at: None,
        }
    }

    /// Whether the project can be opened; `path_exists` says whether its
    /// directory exists.
    pub fn is_ready(&self, path_exists: bool) -> (r: bool)
        ensures
            r == record_ready(self@, path_exists),
    {
        self.verified_version.is_some() && self.diagnostic.is_none() && path_exists
    }
}

/// Everything the registry file holds.
#[derive(Debug, Clone)]
pub struct AppState {
    pub schema_version: u32,
    pub settings: Settings,
    pub projects: Vec<ProjectRecord>,
}

impl AppState {
    /// An empty registry of the current schema with default settings.
    pub fn new() -> (s: AppState)
        ensures
            s.schema_version == STATE_VERSION,
            s.settings.default_projects_dir is None,
            s.settings.create_envrc,
            s.projects@.len() == 0,
    {
        AppState { schema_version: STATE_VERSION, settings: Settings::new(), projects: Vec::new() }
    }
}

impl Default for AppState {
    fn default() -> (s: AppState)
        ensures
            s.schema_version == STATE_VERSION,
            s.settings.default_projects_dir is None,
            s.settings.create_envrc,
            s.projects@.len() == 0,
    {
        AppState::new()
    }
}

/// A registry written by a newer build.
#[derive(Debug, Clone, Copy, PartialEq, Eq)]
pub struct FutureSchema {
    pub found: u32,
}

/// Accepts a registry schema this build can read.
pub fn check_schema(version: u32) -> (r: Result<(), FutureSchema>)
    ensures
        r is Ok <==> version <= STATE_VERSION,
        r matches Err(e) ==> e.found == version,
{
    if version > STATE_VERSION {
        Err(FutureSchema { found: version })
    } else {
        Ok(())
    }
}

} // verus!
