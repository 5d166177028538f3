//! The dashboard's decisions: which screen follows which, what is
//! registered, and which outside work (Nix, the file system, the release
//! catalogue, the editor) the program is to do next. The program performs
//! each `Action` and hands its outcome back to the matching method.
use vstd::prelude::*;
use crate::forms::{best_release, best_version, CreateForm, ExistingForm, PathPurpose};
use crate::model::{AppState, NewProjectSpec};
use crate::registry::ScanCandidate;

verus! {

broadcast use vstd::string::group_string_axioms;

/// The exit status that asks the shell integration to close its shell.
pub const EXIT_CLOSE_SHELL: i32 = 20;

/// Why a dev shell is validated.
#[derive(Debug, Clone, Copy, PartialEq, Eq, Structural)]
pub enum ValidationPurpose {
    /// The project is being registered.
    Import,
    /// A registered project is checked again.
    Revalidate,
}

/// What the confirmation screen will do when confirmed.
#[derive(Debug, Clone)]
pub enum ConfirmAction {
    GenerateExisting { path: String, version: String, tools: Vec<String>, replace_existing: bool },
    Create(NewProjectSpec),
    Unregister { id: u128 },
}

/// What the dashboard shows.
#[derive(Debug, Clone)]
pub enum Screen {
    Dashboard,
    AddMenu { selected: usize },
    PathInput { purpose: PathPurpose, input: String },
    ScanResults { root: String, candidates: Vec<ScanCandidate>, cursor: usize },
    ShellChoice { path: String, shells: Vec<String>, selected: usize },
    InvalidFlake { path: String, diagnostic: String, selected: usize },
    ExistingForm(ExistingForm),
    CreateForm(CreateForm),
    Settings { directory: String, field: usize, create_envrc: bool },
    Confirm { action: ConfirmAction, summary: String },
    Help,
    Busy { message: String },
}

/// Why the registry is being saved, which decides what follows.
#[derive(Debug, Clone)]
pub enum SaveReason {
    /// After registering a project; the outcome changes nothing.
    Registration,
    /// After unregistering the project at `path`.
    Unregister { path: String },
    /// After a launch; `close_shell` asks to close the invoking shell.
    Launch { close_shell: bool },
    /// After changing the settings.
    Settings,
}

/// Outside work for the program to do.
#[derive(Debug, Clone)]
pub enum Action {
    /// Fetch the list of stable releases (`force` skips the cache).
    RefreshReleases { force: bool },
    /// Resolve a directory to import: canonical path, flake presence and
    /// version hint; answer with `import_resolved`.
    ResolveImport { path: String },
    /// List the flake's dev shells; answer with `shells_listed`.
    EnumerateShells { path: String },
    /// Run the dev shell and read the Godot version; answer with `validated`.
    ValidateShell { path: String, shell: String, purpose: ValidationPurpose },
    /// Generate, install and validate a flake; answer with
    /// `generated_existing`.
    GenerateExisting {
        path: String,
        version: String,
        tools: Vec<String>,
        replace_existing: bool,
        envrc: bool,
    },
    /// Create a new project; answer with `created`.
    CreateProject { spec: NewProjectSpec },
    /// Write the registry; answer with `saved`.
    Save { reason: SaveReason },
    /// Reload the project icons.
    RebuildImages,
    /// Forget the icon of an unregistered project.
    ForgetImage { id: u128 },
    /// Scan the direct children of a directory; answer with `scanned`.
    Scan { root: String },
    /// Read the version hint of the project at `path`, whose unusable flake
    /// is to be replaced; answer with `resolve_invalid_flake(path, true, hint)`.
    ReplaceFlake { path: String },
    /// Resolve `parent`, the trimmed parent directory of the new project of
    /// `form`, to its canonical path; answer with `parent_resolved`.
    ResolveParent { parent: String, form: CreateForm },
    /// Resolve the default projects directory; answer with
    /// `settings_directory_resolved`.
    ResolveSettingsDirectory { directory: String, create_envrc: bool },
    /// Start the editor detached; answer with `launched`.
    Launch { id: u128, path: String, shell: String, close_shell: bool },
}

/// A directory to import, as the file system shows it.
#[derive(Debug, Clone)]
pub struct ResolvedImport {
    /// The canonical project directory.
    pub path: String,
    /// It holds a `flake.nix` file.
    pub has_flake: bool,
    /// `major.minor` from its `project.godot`, when known.
    pub version_hint: Option<String>,
}

/// The state of the dashboard.
pub struct Dashboard {
    pub state: AppState,
    pub screen: Screen,
    pub selected: usize,
    pub filter: String,
    pub filtering: bool,
    pub status: String,
    pub should_quit: bool,
    pub exit_code: i32,
    pub releases: Vec<String>,
    pub release_error: Option<String>,
    /// Directories still to import, first one next.
    pub pending_imports: Vec<String>,
    /// The status to show once the queued imports that a registration took
    /// up have settled, so that it is the last word.
    pub held_status: Option<String>,
}

pub open spec fn texts_of(v: Seq<String>) -> Seq<Seq<char>> {
    v.map_values(|s: String| s@)
}

/// `b` shows the same list, filter, releases and exit request as `a`, and
/// holds the same status back.
pub open spec fn keeps_view(a: Dashboard, b: Dashboard) -> bool {
    &&& keeps_shown_view(a, b)
    &&& b.held_status == a.held_status
}

/// `b` shows the same list, filter, releases and exit request as `a`.
pub open spec fn keeps_shown_view(a: Dashboard, b: Dashboard) -> bool {
    &&& b.releases == a.releases
    &&& b.release_error == a.release_error
    &&& b.selected == a.selected
    &&& b.filter == a.filter
    &&& b.filtering == a.filtering
    &&& b.should_quit == a.should_quit
    &&& b.exit_code == a.exit_code
}

/// `b` is `a` on another screen.
pub open spec fn only_screen_changed(a: Dashboard, b: Dashboard) -> bool {
    &&& keeps_view(a, b)
    &&& b.state == a.state
    &&& b.status == a.status
    &&& b.pending_imports == a.pending_imports
}

/// Where a path prompt or a new project's parent starts.
pub open spec fn start_text(d: Dashboard, current_dir: Option<String>) -> Seq<char> {
    match d.state.settings.default_projects_dir {
        Some(x) => x@,
        None => match current_dir {
            Some(c) => c@,
            None => seq![],
        },
    }
}

pub open spec fn add_menu_opened(a: Dashboard, b: Dashboard) -> bool {
    &&& only_screen_changed(a, b)
    &&& b.screen == (Screen::AddMenu { selected: 0 })
}

/// A blank new-project form: parent from the start directory, the newest
/// release, the first renderer, Git metadata on.
pub open spec fn new_form_opened(a: Dashboard, current_dir: Option<String>, b: Dashboard) -> bool {
    &&& only_screen_changed(a, b)
    &&& b.screen matches Screen::CreateForm(f) && f.name@.len() == 0 && f.parent@ == start_text(
        a,
        current_dir,
    ) && f.version@ == (if a.releases@.len() > 0 {
        a.releases@[0]@
    } else {
        seq![]
    }) && f.renderer_index == 0 && f.git_metadata && f.tools@.len() == 0 && f.field == 0
}

/// The settings form with the current settings.
pub open spec fn settings_opened(a: Dashboard, b: Dashboard) -> bool {
    &&& only_screen_changed(a, b)
    &&& b.screen matches Screen::Settings { directory, field, create_envrc } && directory@
        == match a.state.settings.default_projects_dir {
        Some(d) => d@,
        None => seq![],
    } && field == 0 && create_envrc == a.state.settings.create_envrc
}

/// A path prompt for `purpose` filled with the start directory.
pub open spec fn path_prompted(
    a: Dashboard,
    purpose: PathPurpose,
    current_dir: Option<String>,
    b: Dashboard,
) -> bool {
    &&& only_screen_changed(a, b)
    &&& b.screen matches Screen::PathInput { purpose: p, input } && p == purpose && input@
        == start_text(a, current_dir)
}

/// The queue, and any status held for it, is dropped and the project list
/// shown.
pub open spec fn workflow_cancelled(a: Dashboard, b: Dashboard) -> bool {
    &&& keeps_shown_view(a, b)
    &&& b.held_status is None
    &&& b.state == a.state
    &&& b.pending_imports@.len() == 0
    &&& b.screen is Dashboard
    &&& b.status@ == "Cancelled"@
}

/// `paths` join the queue and the next import is taken.
pub open spec fn imports_queued(a: Dashboard, paths: Seq<String>, b: Dashboard, r: Seq<Action>) -> bool {
    &&& took_next_import(a.pending_imports@ + paths, a.screen, b, r)
    &&& keeps_view(a, b)
    &&& b.state == a.state
    &&& b.status == a.status
}

/// What taking the next queued import does, for a dashboard whose queue was
/// `pending` and whose screen was `screen` before, now `d`, having asked for
/// `actions`.
pub open spec fn took_next_import(
    pending: Seq<String>,
    screen: Screen,
    d: Dashboard,
    actions: Seq<Action>,
) -> bool {
    if pending.len() == 0 {
        &&& d.screen is Dashboard
        &&& d.pending_imports@.len() == 0
        &&& actions.len() == 1
        &&& actions[0] is RebuildImages
    } else {
        &&& d.pending_imports@ == pending.drop_first()
        &&& d.screen == screen
        &&& actions.len() == 1
        &&& actions[0] matches Action::ResolveImport { path } && path == pending[0]
    }
}

/// The status once the queued imports have settled: the held one, if any,
/// else `status`.
pub open spec fn settled_status(held: Option<String>, status: Seq<char>) -> Seq<char> {
    match held {
        Some(h) => h@,
        None => status,
    }
}

/// `version` for an import form: the best release for the hint, or the hint.
pub open spec fn form_version(releases: Seq<Seq<char>>, hint: Seq<char>) -> Seq<char> {
    match best_release(releases, hint) {
        Some(v) => v,
        None => hint,
    }
}

/// The form version for a hint.
pub fn version_for_hint(releases: &Vec<String>, hint: Option<String>) -> (r: String)
    ensures
        r@ == form_version(texts_of(releases@), hint.deep_view().unwrap_or(seq![])),
{
    let h = match hint {
        Some(h) => h,
        None => String::new(),
    };
    match best_version(releases, h.as_str()) {
        Some(v) => v,
        None => h,
    }
}

impl Dashboard {
    /// The dashboard for a loaded registry: the project list, status
    /// `Ready`, and a release refresh under way.
    pub fn new(state: AppState) -> (r: (Dashboard, Vec<Action>))
        ensures
            r.0.state == state,
            r.0.screen matches Screen::Dashboard,
            r.0.selected == 0,
            r.0.filter@ == Seq::<char>::empty(),
            !r.0.filtering,
            r.0.status@ == "Ready"@,
            !r.0.should_quit,
            r.0.exit_code == 0,
            r.0.releases@.len() == 0,
            r.0.release_error is None,
            r.0.pending_imports@.len() == 0,
            r.0.held_status is None,
            r.1@.len() == 1,
            r.1@[0] matches Action::RefreshReleases { force } && !force,
    {
        let d = Dashboard {
            state,
            screen: Screen::Dashboard,
            selected: 0,
            filter: String::new(),
            filtering: false,
            status: "Ready".to_string(),
            should_quit: false,
            exit_code: 0,
            releases: Vec::new(),
            release_error: None,
            pending_imports: Vec::new(),
            held_status: None,
        };
        (d, vec![Action::RefreshReleases { force: false }])
    }

    /// Asks for a fresh release list.
    pub fn refresh_releases(&self, force: bool) -> (r: Vec<Action>)
        ensures
            r@.len() == 1,
            r@[0] matches Action::RefreshReleases { force: f } && f == force,
    {
        vec![Action::RefreshReleases { force }]
    }

    /// Opens the menu that adds projects.
    pub fn open_add_menu(&mut self)
        ensures
            add_menu_opened(*old(self), *final(self)),
    {
        self.screen = Screen::AddMenu { selected: 0 };
    }

    /// Where a new path starts: the default projects directory, else the
    /// working directory, else nothing.
    fn start_directory(&self, current_dir: Option<String>) -> (r: String)
        ensures
            r@ == start_text(*self, current_dir),
    {
        match &self.state.settings.default_projects_dir {
            Some(d) => d.clone(),
            None => match current_dir {
                Some(c) => c,
                None => String::new(),
            },
        }
    }

    /// Opens the new-project form; `current_dir` is the working directory.
    pub fn open_new_form(&mut self, current_dir: Option<String>)
        ensures
            new_form_opened(*old(self), current_dir, *final(self)),
    {
        let parent = self.start_directory(current_dir);
        let version = if self.releases.len() > 0 {
            self.releases[0].clone()
        } else {
            String::new()
        };
        self.screen = Screen::CreateForm(
            CreateForm {
                name: String::new(),
                parent,
                version,
                renderer_index: 0,
                git_metadata: true,
                tools: String::new(),
                field: 0,
            },
        );
    }

    /// Opens the settings with their current values.
    pub fn open_settings(&mut self)
        ensures
            settings_opened(*old(self), *final(self)),
    {
        let directory = match &self.state.settings.default_projects_dir {
            Some(d) => d.clone(),
            None => String::new(),
        };
        self.screen = Screen::Settings {
            directory,
            field: 0,
            create_envrc: self.state.settings.create_envrc,
        };
    }

    /// Opens a path prompt for `purpose`; `current_dir` is the working
    /// directory.
    pub fn path_input(&mut self, purpose: PathPurpose, current_dir: Option<String>)
        ensures
            path_prompted(*old(self), purpose, current_dir, *final(self)),
    {
        let input = self.start_directory(current_dir);
        self.screen = Screen::PathInput { purpose, input };
    }

    /// Drops the queued imports (and any status held for them) and returns to
    /// the project list.
    pub fn cancel_workflow(&mut self)
        ensures
            workflow_cancelled(*old(self), *final(self)),
    {
        self.pending_imports = Vec::new();
        self.held_status = None;
        self.screen = Screen::Dashboard;
        self.status = "Cancelled".to_string();
    }

    /// Takes the next queued import, or returns to the project list (with
    /// fresh icons) when none is left.
    pub fn continue_imports(&mut self) -> (r: Vec<Action>)
        ensures
            took_next_import(old(self).pending_imports@, old(self).screen, *final(self), r@),
            final(self).state == old(self).state,
            final(self).status == old(self).status,
            keeps_view(*old(self), *final(self)),
    {
        if self.pending_imports.len() == 0 {
            self.screen = Screen::Dashboard;
            return vec![Action::RebuildImages];
        }
        let ghost before = self.pending_imports@;
        let path = self.pending_imports.remove(0);
        assert(self.pending_imports@ =~= before.drop_first());
        vec![Action::ResolveImport { path }]
    }

    /// Shows the held status, if any, now that the queued imports have
    /// settled.
    pub fn settle_status(&mut self)
        ensures
            final(self).status@ == settled_status(old(self).held_status, old(self).status@),
            final(self).held_status is None,
            final(self).state == old(self).state,
            final(self).screen == old(self).screen,
            final(self).pending_imports == old(self).pending_imports,
            keeps_shown_view(*old(self), *final(self)),
    {
        match self.held_status.take() {
            Some(h) => {
                self.status = h;
            },
            None => {},
        }
    }

    /// Queues directories to import and takes the next one.
    pub fn queue_imports(&mut self, paths: Vec<String>) -> (r: Vec<Action>)
        ensures
            imports_queued(*old(self), paths@, *final(self), r@),
    {
        let mut paths = paths;
        self.pending_imports.append(&mut paths);
        self.continue_imports()
    }
}

} // verus!
