//! What the dashboard does with the outcome of outside work: release lists,
//! resolved directories, dev shells, validations, generated flakes, created
//! projects and saved registries.
use vstd::prelude::*;
use crate::dashboard::{
    ConfirmAction, EXIT_CLOSE_SHELL, form_version, keeps_shown_view, keeps_view, only_screen_changed, settled_status, texts_of, took_next_import, version_for_hint, Action, Dashboard, ResolvedImport, SaveReason,
    Screen, ValidationPurpose,
};
use crate::forms::{
    best_release, best_version, form_error_text, form_renderer, parse_tools, parsed_tools,
    validate_version, CreateForm, ExistingForm, FormError,
};
use crate::model::{
    copy_optional_text, default_shell, record_ready, renderer_label, NewProjectSpec, ProjectRecord, RecordView, Renderer,
};
use crate::nix::Validation;
use crate::registry::{
    card_order, first_with_id, has_path, is_registered, is_scan_order, record_views, scan_candidates,
    unregister, unregistered, upsert, upserted, visible_indices, FoundProject, ScanCandidate,
};
use crate::release::is_stable_tag;
use crate::text::{
    ends_with, from_chars, join_texts, joined, lowercase, to_chars, trim, trim_chars,
};

verus! {

broadcast use vstd::string::group_string_axioms;

/// `a` followed by `b`.
pub fn concat2(a: &str, b: &str) -> (r: String)
    ensures
        r@ == a@ + b@,
{
    let mut s = a.to_string();
    s.append(b);
    s
}

/// `a`, `b` and `c` in a row.
pub fn concat3(a: &str, b: &str, c: &str) -> (r: String)
    ensures
        r@ == a@ + b@ + c@,
{
    let mut s = a.to_string();
    s.append(b);
    s.append(c);
    s
}

/// `a`, `b`, `c` and `d` in a row.
pub fn concat4(a: &str, b: &str, c: &str, d: &str) -> (r: String)
    ensures
        r@ == a@ + b@ + c@ + d@,
{
    let mut s = a.to_string();
    s.append(b);
    s.append(c);
    s.append(d);
    s
}

/// The record that registers `path` on `shell`: with the reported version
/// when validation succeeded, with the diagnostic when it failed.
pub open spec fn registration(id: u128, path: Seq<char>, shell: Seq<char>, outcome: Result<
    Seq<char>,
    Seq<char>,
>) -> RecordView {
    RecordView {
        id,
        path,
        dev_shell: shell,
        verified_version: match outcome {
            Ok(v) => Some(v),
            Err(_) => None,
        },
        diagnostic: match outcome {
            Ok(_) => None,
            Err(e) => Some(e),
        },
        last_opened_at: None,
    }
}

/// The status after registering `path`.
pub open spec fn registered_status(path: Seq<char>, valid: bool) -> Seq<char> {
    if valid {
        "Registered "@ + path
    } else {
        "Registered "@ + path + " as broken"@
    }
}

/// The status after an import step that showed `shown`: when no import is
/// left (`settles`), the held status, if any, wins.
pub open spec fn import_status(held: Option<String>, settles: bool, shown: Seq<char>) -> Seq<char> {
    if settles {
        settled_status(held, shown)
    } else {
        shown
    }
}

/// The held status after an import step: dropped once no import is left.
pub open spec fn held_after(held: Option<String>, settles: bool) -> Option<String> {
    if settles {
        None
    } else {
        held
    }
}

/// What a registration that ends with `message` holds back: the message, while
/// queued imports follow it.
pub open spec fn held_for(pending: Seq<String>, message: Option<Seq<char>>) -> Option<Seq<char>> {
    if pending.len() > 0 {
        message
    } else {
        None
    }
}

/// The status after registering an existing project whose replaced flake
/// was backed up to `backup`.
pub open spec fn backup_status(backup: Seq<char>) -> Seq<char> {
    "Registered project; previous flake backed up to "@ + backup
}

/// The text views of a result whose both sides are strings.
pub open spec fn outcome_view(o: Result<String, String>) -> Result<Seq<char>, Seq<char>> {
    match o {
        Ok(v) => Ok(v@),
        Err(e) => Err(e@),
    }
}

/// The confirmation text for generating a flake for an existing project.
pub open spec fn existing_summary(
    path: Seq<char>,
    version: Seq<char>,
    tools: Seq<Seq<char>>,
    replace: bool,
    envrc: bool,
) -> Seq<char> {
    (if replace {
        "Replace"@
    } else {
        "Add"@
    }) + " a generated flake for "@ + path + "\nGodot: "@ + version + "\nExtra tools: "@ + (
    if tools.len() == 0 {
        "none"@
    } else {
        joined(tools, ", "@)
    }) + "\n.envrc: "@ + (if envrc {
        "create when absent"@
    } else {
        "disabled"@
    }) + "\n\n"@ + (if replace {
        "The existing flake.nix and flake.lock will be moved to a timestamped backup."@
    } else {
        "No existing file will be overwritten."@
    })
}

/// How a flag reads in a summary.
pub open spec fn flag_text(b: bool) -> Seq<char> {
    if b {
        "true"@
    } else {
        "false"@
    }
}

fn bool_text(b: bool) -> (r: &'static str)
    ensures
        r@ == flag_text(b),
{
    if b {
        "true"
    } else {
        "false"
    }
}

/// The confirmation text for creating a project.
pub open spec fn create_summary(
    name: Seq<char>,
    parent: Seq<char>,
    version: Seq<char>,
    renderer: Renderer,
    git: bool,
    envrc: bool,
) -> Seq<char> {
    "Create "@ + name + "\nLocation: "@ + parent + "\nGodot: "@ + version + "\nRenderer: "@
        + renderer_label(renderer) + "\nGit metadata: "@ + flag_text(git) + "\n.envrc: "@
        + flag_text(envrc)
}

/// Some record has identifier `id`.
pub open spec fn has_id(ps: Seq<RecordView>, id: u128) -> bool {
    exists|i: int| 0 <= i < ps.len() && (#[trigger] ps[i]).id == id
}

/// The registry position of the selected card, for the displayed names of
/// the registered projects.
pub open spec fn selected_card(d: Dashboard, names: Seq<Seq<char>>) -> Option<usize> {
    let order = card_order(record_views(d.state.projects@), names, lowercase(d.filter@));
    if d.selected < order.len() {
        Some(order[d.selected as int])
    } else {
        None
    }
}

/// Why a command on the selected project was refused.
#[derive(Debug, Clone, Copy, PartialEq, Eq, Structural)]
pub enum SelectionError {
    /// No card is selected.
    NoProjectSelected,
    /// The selected project has no working dev shell or no directory.
    NotReady,
}

/// What the status line says of a refused command.
pub open spec fn selection_error_text(e: SelectionError) -> Seq<char> {
    match e {
        SelectionError::NoProjectSelected => "no project selected"@,
        SelectionError::NotReady => "project is not ready; revalidate it first"@,
    }
}

impl SelectionError {
    /// The message for the status line.
    pub fn message(&self) -> (r: String)
        ensures
            r@ == selection_error_text(*self),
    {
        match self {
            SelectionError::NoProjectSelected => "no project selected".to_string(),
            SelectionError::NotReady => "project is not ready; revalidate it first".to_string(),
        }
    }
}

/// Why new settings were refused.
#[derive(Debug, Clone, Copy, PartialEq, Eq, Structural)]
pub enum SettingsError {
    /// The default projects directory does not exist.
    DirectoryMissing,
    /// The default projects path is not a directory.
    NotADirectory,
}

/// Marks the first record with identifier `id` as opened at `now`, and
/// returns its position.
pub fn mark_opened(projects: &mut Vec<ProjectRecord>, id: u128, now: i64) -> (r: Option<usize>)
    ensures
        ({
            let before = record_views(old(projects)@);
            if has_id(before, id) {
                &&& 0 <= first_with_id(before, id) < before.len()
                &&& r matches Some(i) && i == first_with_id(before, id)
                &&& record_views(final(projects)@) == before.update(
                    first_with_id(before, id),
                    RecordView { last_opened_at: Some(now), ..before[first_with_id(before, id)] },
                )
            } else {
                r is None && final(projects)@ == old(projects)@
            }
        }),
        r matches Some(i) ==> i < final(projects)@.len(),
{
    let ghost pv = record_views(projects@);
    let mut i: usize = 0;
    while i < projects.len()
        invariant
            i <= projects.len(),
            projects@ == old(projects)@,
            pv == record_views(projects@),
            forall|k: int| 0 <= k < i ==> (#[trigger] pv[k]).id != id,
        decreases projects.len() - i,
    {
        assert(pv[i as int] == projects@[i as int]@);
        if projects[i].id == id {
            proof {
                assert(has_id(pv, id));
                let c = first_with_id(pv, id);
                assert(exists|j: int|
                    0 <= j < pv.len() && (#[trigger] pv[j]).id == id && forall|k: int|
                        0 <= k < j ==> (#[trigger] pv[k]).id != id) by {
                    assert(forall|k: int| 0 <= k < i ==> (#[trigger] pv[k]).id != id);
                }
                if c > i {
                    assert(pv[i as int].id != id);
                }
                if c < i {
                    assert(pv[c].id != id);
                }
            }
            let record = ProjectRecord {
                id: projects[i].id,
                path: projects[i].path.clone(),
                dev_shell: projects[i].dev_shell.clone(),
                verified_version: copy_optional_text(&projects[i].verified_version),
                diagnostic: copy_optional_text(&projects[i].diagnostic),
                last_opened_at: Some(now),
            };
            projects.set(i, record);
            assert(record_views(projects@) =~= pv.update(
                i as int,
                RecordView { last_opened_at: Some(now), ..pv[i as int] },
            ));
            return Some(i);
        }
        i += 1;
    }
    proof {
        if has_id(pv, id) {
            let w = choose|j: int| 0 <= j < pv.len() && (#[trigger] pv[j]).id == id;
            assert(pv[w].id != id);
        }
    }
    None
}

/// `b` holds the registry of `a` with `projects` as its records.
pub open spec fn registry_becomes(a: Dashboard, b: Dashboard, projects: Seq<RecordView>) -> bool {
    &&& record_views(b.state.projects@) == projects
    &&& b.state.settings == a.state.settings
    &&& b.state.schema_version == a.state.schema_version
}

/// A busy screen while the dev shell `shell` of `path` is validated.
pub open spec fn shell_validation_started(
    s0: Dashboard,
    path: String,
    shell: String,
    purpose: ValidationPurpose,
    s1: Dashboard,
    r: Seq<Action>,
) -> bool {
    &&& s1.screen matches Screen::Busy { message } && message@ == "Validating "@ + shell@ + " in "@
        + path@ + "…"@
    &&& r.len() == 1
    &&& r[0] == (Action::ValidateShell { path, shell, purpose })
    &&& s1.state == s0.state
    &&& s1.status == s0.status
    &&& s1.pending_imports == s0.pending_imports
    &&& keeps_view(s0, s1)
}

/// `s1` is `s0` with `message` in the status line.
pub open spec fn refused(s0: Dashboard, s1: Dashboard, message: Seq<char>) -> bool {
    &&& keeps_view(s0, s1)
    &&& s1.state == s0.state
    &&& s1.screen == s0.screen
    &&& s1.pending_imports == s0.pending_imports
    &&& s1.status@ == message
}

/// The project at `path` is left unregistered and the next import taken.
pub open spec fn import_skipped(s0: Dashboard, path: String, s1: Dashboard, r: Seq<Action>) -> bool {
    &&& s1.status@ == "Skipped "@ + path@
    &&& took_next_import(s0.pending_imports@, s0.screen, s1, r)
    &&& s1.state == s0.state
    &&& keeps_view(s0, s1)
}

/// The answer to the unusable-flake prompt: skip the project, or open the
/// flake form in replace mode with the best release for the version hint.
pub open spec fn invalid_flake_resolved(s0: Dashboard, path: String, overwrite: bool, hint: Option<String>, s1: Dashboard, r: Seq<Action>) -> bool {
    &&& keeps_view(s0, s1)
    &&& s1.state == s0.state
    &&& !overwrite ==> {
        &&& s1.status@ == "Skipped "@ + path@
        &&& took_next_import(
            s0.pending_imports@,
            s0.screen,
            s1,
            r,
        )
    }
    &&& overwrite ==> {
        &&& s1.screen matches Screen::ExistingForm(f) && f.path == path
            && f.version@ == form_version(
            texts_of(s0.releases@),
            hint.deep_view().unwrap_or(seq![]),
        ) && f.tools@.len() == 0 && f.field == 0 && f.replace_existing
        &&& r.len() == 0
        &&& s1.pending_imports == s0.pending_imports
        &&& s1.status == s0.status
    }
}

/// The flake form is checked: a refused version or tool list is reported,
/// an accepted form leads to its confirmation.
pub open spec fn existing_confirmed(s0: Dashboard, form: ExistingForm, s1: Dashboard, r: Result<
    (),
    FormError,
>) -> bool {
    if !is_stable_tag(form.version@) {
        r == Err::<(), FormError>(FormError::InvalidVersion) && refused(
            s0,
            s1,
            form_error_text(FormError::InvalidVersion),
        )
    } else {
        match parsed_tools(form.tools@) {
            Err(e) => r == Err::<(), FormError>(e) && refused(s0, s1, form_error_text(e)),
            Ok(t) => {
                &&& r is Ok
                &&& only_screen_changed(s0, s1)
                &&& s1.screen matches Screen::Confirm { action, summary } && summary@
                    == existing_summary(
                    form.path@,
                    form.version@,
                    t,
                    form.replace_existing,
                    s0.state.settings.create_envrc,
                ) && (action matches ConfirmAction::GenerateExisting {
                    path,
                    version,
                    tools,
                    replace_existing,
                } && path == form.path && version == form.version && texts_of(tools@) == t
                    && replace_existing == form.replace_existing)
            },
        }
    }
}

/// A new-project form is checked for a name, and its trimmed parent
/// directory is to be resolved.
pub open spec fn create_asked(s0: Dashboard, form: CreateForm, s1: Dashboard, r: Result<
    Vec<Action>,
    FormError,
>) -> bool {
    if trim(form.name@).len() == 0 {
        r == Err::<Vec<Action>, FormError>(FormError::NameRequired) && refused(
            s0,
            s1,
            form_error_text(FormError::NameRequired),
        )
    } else {
        &&& s1 == s0
        &&& r matches Ok(acts) && acts@.len() == 1 && (acts@[0] matches Action::ResolveParent {
            parent,
            form: f,
        } && parent@ == trim(form.parent@) && f == form)
    }
}

/// A confirmed action is carried out.
pub open spec fn confirmed(s0: Dashboard, action: ConfirmAction, s1: Dashboard, r: Seq<Action>) -> bool {
    &&& s1.releases == s0.releases
    &&& s1.release_error == s0.release_error
    &&& s1.filter == s0.filter
    &&& s1.filtering == s0.filtering
    &&& s1.exit_code == s0.exit_code
    &&& s1.pending_imports == s0.pending_imports
    &&& s1.status == s0.status
    &&& s1.should_quit == s0.should_quit
    &&& match action {
        ConfirmAction::GenerateExisting { path, version, tools, replace_existing } => {
            &&& s1.screen matches Screen::Busy { message } && message@
                == "Downloading Godot "@ + version@ + " and validating generated flake…"@
            &&& s1.state == s0.state
            &&& s1.selected == s0.selected
            &&& r.len() == 1
            &&& r[0] == (Action::GenerateExisting {
                path,
                version,
                tools,
                replace_existing,
                envrc: s0.state.settings.create_envrc,
            })
        },
        ConfirmAction::Create(spec) => {
            &&& s1.screen matches Screen::Busy { message } && message@
                == "Creating "@ + spec.name@ + " with Godot "@ + spec.godot_version@ + "…"@
            &&& s1.state == s0.state
            &&& s1.selected == s0.selected
            &&& r.len() == 1
            &&& r[0] == (Action::CreateProject { spec })
        },
        ConfirmAction::Unregister { id } => unregister_confirmed(s0, id, s1, r),
    }
}

/// A confirmed unregistration: the registration with identifier `id` goes,
/// the selection moves up, its icon is forgotten and the registry saved.
pub open spec fn unregister_confirmed(s0: Dashboard, id: u128, s1: Dashboard, r: Seq<Action>) -> bool {
    let before = record_views(s0.state.projects@);
    &&& s1.screen is Dashboard
    &&& registry_becomes(s0, s1, unregistered(before, id))
    &&& if has_id(before, id) {
        &&& s1.selected == (if s0.selected > 0 {
            s0.selected - 1
        } else {
            0
        })
        &&& r.len() == 2
        &&& r[0] == (Action::ForgetImage { id })
        &&& r[1] matches Action::Save { reason } && (reason matches SaveReason::Unregister {
            path,
        } && path@ == before[first_with_id(before, id)].path)
    } else {
        &&& s1.selected == s0.selected
        &&& r.len() == 0
    }
}

/// A declined confirmation skips the import it was for, or ends the
/// workflow.
pub open spec fn confirm_declined(s0: Dashboard, action: ConfirmAction, s1: Dashboard, r: Seq<Action>) -> bool {
    &&& s1.state == s0.state
    &&& keeps_shown_view(s0, s1)
    &&& match action {
        ConfirmAction::GenerateExisting { path, .. } => {
            &&& s1.status@ == "Skipped "@ + path@
            &&& s1.held_status == s0.held_status
            &&& took_next_import(
                s0.pending_imports@,
                s0.screen,
                s1,
                r,
            )
        },
        _ => {
            &&& s1.status@ == "Cancelled"@
            &&& s1.held_status is None
            &&& s1.screen is Dashboard
            &&& s1.pending_imports@.len() == 0
            &&& r.len() == 0
        },
    }
}

/// Unregistering the selected project is to be confirmed; without a
/// selection the request is refused.
pub open spec fn unregister_asked(s0: Dashboard, names: Seq<Seq<char>>, s1: Dashboard, r: Result<(), SelectionError>) -> bool {
    &&& match selected_card(s0, names) {
        None => r == Err::<(), SelectionError>(SelectionError::NoProjectSelected) && refused(
            s0,
            s1,
            selection_error_text(SelectionError::NoProjectSelected),
        ),
        Some(i) => {
            &&& r is Ok
            &&& s1.screen matches Screen::Confirm { action, summary } && action
                == (ConfirmAction::Unregister { id: s0.state.projects@[i as int].id })
                && summary@ == "Unregister "@ + s0.state.projects@[i as int].path@
                + "?\n\nNo project files will be deleted."@
            &&& s1.state == s0.state
            &&& s1.status == s0.status
            &&& s1.pending_imports == s0.pending_imports
            &&& keeps_view(s0, s1)
        },
    }
}

/// The selected project's dev shell is validated again.
pub open spec fn revalidation_asked(s0: Dashboard, names: Seq<Seq<char>>, s1: Dashboard, r: Result<Vec<Action>, SelectionError>) -> bool {
    &&& match selected_card(s0, names) {
        None => r == Err::<Vec<Action>, SelectionError>(SelectionError::NoProjectSelected)
            && refused(s0, s1, selection_error_text(SelectionError::NoProjectSelected)),
        Some(i) => {
            let p = s0.state.projects@[i as int];
            &&& r matches Ok(a) && a@.len() == 1 && a@[0] == (Action::ValidateShell {
                path: p.path,
                shell: p.dev_shell,
                purpose: ValidationPurpose::Revalidate,
            })
            &&& s1.screen matches Screen::Busy { message } && message@
                == "Validating "@ + p.dev_shell@ + " in "@ + p.path@ + "…"@
            &&& s1.pending_imports@.len() == 0
            &&& s1.state == s0.state
            &&& s1.status == s0.status
            &&& keeps_view(s0, s1)
        },
    }
}

/// The editor of the selected project is to be started when the project is
/// ready; otherwise the request is refused.
pub open spec fn launch_asked(s0: Dashboard, names: Seq<Seq<char>>, exists: Seq<bool>, close_shell: bool, s1: Dashboard, r: Result<Vec<Action>, SelectionError>) -> bool {
    match selected_card(s0, names) {
        None => r == Err::<Vec<Action>, SelectionError>(SelectionError::NoProjectSelected)
            && refused(s0, s1, selection_error_text(SelectionError::NoProjectSelected)),
        Some(i) => {
            let p = s0.state.projects@[i as int];
            if record_ready(p@, exists[i as int]) {
                s1 == s0 && (r matches Ok(a) && a@.len() == 1 && a@[0] == (Action::Launch {
                    id: p.id,
                    path: p.path,
                    shell: p.dev_shell,
                    close_shell,
                }))
            } else {
                r == Err::<Vec<Action>, SelectionError>(SelectionError::NotReady) && refused(
                    s0,
                    s1,
                    selection_error_text(SelectionError::NotReady),
                )
            }
        },
    }
}

/// Launching the selected card, when its project is ready (validated, with
/// no diagnostic, its directory present), asks for exactly one launch: of
/// that project, by its identifier and directory, in the dev shell chosen
/// for it, passing the shell-closing request on; nothing else changes.
pub proof fn lemma_launch_uses_project_shell(
    s0: Dashboard,
    names: Seq<Seq<char>>,
    exists: Seq<bool>,
    close_shell: bool,
    s1: Dashboard,
    r: Result<Vec<Action>, SelectionError>,
    i: usize,
)
    requires
        launch_asked(s0, names, exists, close_shell, s1, r),
        selected_card(s0, names) == Some(i),
        s0.state.projects@[i as int].verified_version is Some,
        s0.state.projects@[i as int].diagnostic is None,
        exists[i as int],
    ensures
        s1 == s0,
        r matches Ok(a) && a@.len() == 1 && (a@[0] matches Action::Launch {
            id,
            path,
            shell,
            close_shell: c,
        } && id == s0.state.projects@[i as int].id && path@ == s0.state.projects@[i as int].path@
            && shell@ == s0.state.projects@[i as int].dev_shell@ && c == close_shell),
{
}

/// The settings form is saved.
pub open spec fn settings_save_asked(s0: Dashboard, directory: String, create_envrc: bool, s1: Dashboard, r: Seq<Action>) -> bool {
    &&& keeps_view(s0, s1)
    &&& s1.screen == s0.screen
    &&& s1.status == s0.status
    &&& s1.pending_imports == s0.pending_imports
    &&& s1.state.projects == s0.state.projects
    &&& s1.state.schema_version == s0.state.schema_version
    &&& r.len() == 1
    &&& trim(directory@).len() == 0 ==> {
        &&& s1.state.settings.default_projects_dir is None
        &&& s1.state.settings.create_envrc == create_envrc
        &&& r[0] matches Action::Save { reason } && reason is Settings
    }
    &&& trim(directory@).len() > 0 ==> {
        &&& s1.state.settings == s0.state.settings
        &&& r[0] matches Action::ResolveSettingsDirectory { directory: d, create_envrc: c }
            && d@ == trim(directory@) && c == create_envrc
    }
}

impl Dashboard {
    /// Takes the outcome of a release refresh. A new list fills in the
    /// version of an open form: an empty new-project version becomes the
    /// newest release, and an import form's hint that is not yet a stable tag
    /// becomes the best release for it, when there is one.
    pub fn releases_loaded(&mut self, result: Result<Vec<String>, String>)
        ensures
            match result {
                Ok(v) => {
                    &&& final(self).releases@ == v@
                    &&& final(self).release_error is None
                    &&& match old(self).screen {
                        Screen::CreateForm(f) => final(self).screen matches Screen::CreateForm(g)
                            && g == (if f.version@.len() == 0 && v@.len() > 0 {
                            crate::forms::CreateForm { version: v@[0], ..f }
                        } else {
                            f
                        }),
                        Screen::ExistingForm(f) => final(self).screen matches Screen::ExistingForm(g)
                            && g.path == f.path && g.tools == f.tools && g.field == f.field
                            && g.replace_existing == f.replace_existing && g.version@ == (
                        if !ends_with(f.version@, "-stable"@) && best_release(
                            texts_of(v@),
                            f.version@,
                        ) is Some {
                            best_release(texts_of(v@), f.version@).unwrap()
                        } else {
                            f.version@
                        }),
                        _ => final(self).screen == old(self).screen,
                    }
                },
                Err(e) => {
                    &&& final(self).releases == old(self).releases
                    &&& final(self).release_error == Some(e)
                    &&& final(self).screen == old(self).screen
                },
            },
            final(self).state == old(self).state,
            final(self).status == old(self).status,
            final(self).pending_imports == old(self).pending_imports,
            final(self).selected == old(self).selected,
    {
        match result {
            Ok(v) => {
                self.releases = v;
                self.release_error = None;
                self.fill_release_defaults();
            },
            Err(e) => {
                self.release_error = Some(e);
            },
        }
    }

    fn fill_release_defaults(&mut self)
        ensures
            match old(self).screen {
                Screen::CreateForm(f) => final(self).screen matches Screen::CreateForm(g) && g == (
                if f.version@.len() == 0 && old(self).releases@.len() > 0 {
                    crate::forms::CreateForm { version: old(self).releases@[0], ..f }
                } else {
                    f
                }),
                Screen::ExistingForm(f) => final(self).screen matches Screen::ExistingForm(g)
                    && g.path == f.path && g.tools == f.tools && g.field == f.field
                    && g.replace_existing == f.replace_existing && g.version@ == (
                if !ends_with(f.version@, "-stable"@) && best_release(
                    texts_of(old(self).releases@),
                    f.version@,
                ) is Some {
                    best_release(texts_of(old(self).releases@), f.version@).unwrap()
                } else {
                    f.version@
                }),
                _ => final(self).screen == old(self).screen,
            },
            final(self).state == old(self).state,
            final(self).status == old(self).status,
            final(self).releases == old(self).releases,
            final(self).release_error == old(self).release_error,
            final(self).pending_imports == old(self).pending_imports,
            final(self).selected == old(self).selected,
    {
        let releases = &self.releases;
        match &mut self.screen {
            Screen::CreateForm(form) => {
                if form.version.as_str().is_empty() && releases.len() > 0 {
                    form.version = releases[0].clone();
                }
            },
            Screen::ExistingForm(form) => {
                let vc = to_chars(form.version.as_str());
                let suffix = to_chars("-stable");
                proof {
                    reveal_strlit("-stable");
                }
                if !crate::text::chars_ends_with(&vc, &suffix) {
                    match best_version(releases, form.version.as_str()) {
                        Some(v) => {
                            form.version = v;
                        },
                        None => {},
                    }
                }
            },
            _ => {},
        }
    }

    /// Takes what the file system said of `requested`, the import that was
    /// taken last: a directory that could not be resolved is skipped, one
    /// already registered is reported, one with a flake has its dev shells
    /// listed, and one without gets the flake form with the best release for
    /// its version hint. Once no further import is asked for, a held status
    /// is shown.
    pub fn import_resolved(&mut self, requested: String, result: Result<ResolvedImport, String>) -> (r:
        Vec<Action>)
        ensures
            keeps_shown_view(*old(self), *final(self)),
            final(self).state == old(self).state,
            match result {
                Err(e) => {
                    &&& final(self).status@ == import_status(
                        old(self).held_status,
                        old(self).pending_imports@.len() == 0,
                        "Skipped "@ + requested@ + ": "@ + e@,
                    )
                    &&& final(self).held_status == held_after(
                        old(self).held_status,
                        old(self).pending_imports@.len() == 0,
                    )
                    &&& took_next_import(
                        old(self).pending_imports@,
                        old(self).screen,
                        *final(self),
                        r@,
                    )
                },
                Ok(found) => if has_path(record_views(old(self).state.projects@), found.path@) {
                    &&& final(self).status@ == import_status(
                        old(self).held_status,
                        old(self).pending_imports@.len() == 0,
                        found.path@ + " is already registered"@,
                    )
                    &&& final(self).held_status == held_after(
                        old(self).held_status,
                        old(self).pending_imports@.len() == 0,
                    )
                    &&& took_next_import(
                        old(self).pending_imports@,
                        old(self).screen,
                        *final(self),
                        r@,
                    )
                } else if found.has_flake {
                    &&& final(self).screen matches Screen::Busy { message } && message@
                        == "Inspecting Nix dev shells in "@ + found.path@ + "…"@
                    &&& r@.len() == 1
                    &&& r@[0] matches Action::EnumerateShells { path } && path == found.path
                    &&& final(self).pending_imports == old(self).pending_imports
                    &&& final(self).status@ == settled_status(
                        old(self).held_status,
                        old(self).status@,
                    )
                    &&& final(self).held_status is None
                } else {
                    &&& final(self).screen matches Screen::ExistingForm(f) && f.path == found.path
                        && f.version@ == form_version(
                        texts_of(old(self).releases@),
                        found.version_hint.deep_view().unwrap_or(seq![]),
                    ) && f.tools@.len() == 0 && f.field == 0 && !f.replace_existing
                    &&& r@.len() == 0
                    &&& final(self).pending_imports == old(self).pending_imports
                    &&& final(self).status@ == settled_status(
                        old(self).held_status,
                        old(self).status@,
                    )
                    &&& final(self).held_status is None
                },
            },
    {
        match result {
            Err(e) => {
                self.status = concat4("Skipped ", requested.as_str(), ": ", e.as_str());
                self.next_import()
            },
            Ok(found) => {
                if is_registered(&self.state.projects, &found.path) {
                    self.status = concat2(found.path.as_str(), " is already registered");
                    return self.next_import();
                }
                if found.has_flake {
                    self.screen = Screen::Busy {
                        message: concat3("Inspecting Nix dev shells in ", found.path.as_str(), "…"),
                    };
                    self.settle_status();
                    vec![Action::EnumerateShells { path: found.path }]
                } else {
                    let version = version_for_hint(&self.releases, found.version_hint);
                    self.screen = Screen::ExistingForm(
                        ExistingForm {
                            path: found.path,
                            version,
                            tools: String::new(),
                            field: 0,
                            replace_existing: false,
                        },
                    );
                    self.settle_status();
                    Vec::new()
                }
            },
        }
    }

    /// Takes the next queued import; when none is left, the held status is
    /// shown.
    fn next_import(&mut self) -> (r: Vec<Action>)
        ensures
            took_next_import(old(self).pending_imports@, old(self).screen, *final(self), r@),
            final(self).state == old(self).state,
            final(self).status@ == import_status(
                old(self).held_status,
                old(self).pending_imports@.len() == 0,
                old(self).status@,
            ),
            final(self).held_status == held_after(
                old(self).held_status,
                old(self).pending_imports@.len() == 0,
            ),
            keeps_shown_view(*old(self), *final(self)),
    {
        let settles = self.pending_imports.len() == 0;
        let r = self.continue_imports();
        if settles {
            self.settle_status();
        }
        r
    }

    /// Takes the dev shells that the flake at `path` lists: a choice among
    /// them, or the unusable-flake prompt when there are none or listing
    /// failed.
    pub fn shells_listed(&mut self, path: String, result: Result<Vec<String>, String>)
        ensures
            keeps_view(*old(self), *final(self)),
            final(self).state == old(self).state,
            final(self).status == old(self).status,
            final(self).pending_imports == old(self).pending_imports,
            match result {
                Ok(shells) => if shells@.len() > 0 {
                    final(self).screen == (Screen::ShellChoice { path, shells, selected: 0 })
                } else {
                    final(self).screen matches Screen::InvalidFlake { path: p, diagnostic, selected }
                        && p == path && diagnostic@
                        == "flake exposes no dev shell for this system"@ && selected == 0
                },
                Err(e) => final(self).screen == (Screen::InvalidFlake {
                    path,
                    diagnostic: e,
                    selected: 0,
                }),
            },
    {
        match result {
            Ok(shells) => {
                if shells.len() > 0 {
                    self.screen = Screen::ShellChoice { path, shells, selected: 0 };
                } else {
                    self.prompt_invalid_flake(
                        path,
                        "flake exposes no dev shell for this system".to_string(),
                    );
                }
            },
            Err(e) => self.prompt_invalid_flake(path, e),
        }
    }

    fn prompt_invalid_flake(&mut self, path: String, diagnostic: String)
        ensures
            final(self).screen == (Screen::InvalidFlake { path, diagnostic, selected: 0 }),
            final(self).state == old(self).state,
            final(self).status == old(self).status,
            final(self).pending_imports == old(self).pending_imports,
            keeps_view(*old(self), *final(self)),
    {
        self.screen = Screen::InvalidFlake { path, diagnostic, selected: 0 };
    }

    /// Validates the chosen dev shell of a project being registered.
    pub fn validate_shell(&mut self, path: String, shell: String) -> (r: Vec<Action>)
        ensures
            shell_validation_started(
                *old(self),
                path,
                shell,
                ValidationPurpose::Import,
                *final(self),
                r@,
            ),
    {
        self.start_shell_validation(path, shell, ValidationPurpose::Import)
    }

    fn start_shell_validation(&mut self, path: String, shell: String, purpose: ValidationPurpose) -> (r:
        Vec<Action>)
        ensures
            shell_validation_started(*old(self), path, shell, purpose, *final(self), r@),
    {
        let mut message = concat4("Validating ", shell.as_str(), " in ", path.as_str());
        message.append("…");
        self.screen = Screen::Busy { message };
        vec![Action::ValidateShell { path, shell, purpose }]
    }

    /// Answers the unusable-flake prompt: keep the flake and skip the
    /// project, or replace it through the flake form, whose version starts
    /// from the project's version hint.
    pub fn resolve_invalid_flake(&mut self, path: String, overwrite: bool, hint: Option<String>) -> (r:
        Vec<Action>)
        ensures
            invalid_flake_resolved(*old(self), path, overwrite, hint, *final(self), r@),
    {
        if !overwrite {
            return self.skip_import(path);
        }
        let version = version_for_hint(&self.releases, hint);
        self.screen = Screen::ExistingForm(
            ExistingForm { path, version, tools: String::new(), field: 0, replace_existing: true },
        );
        Vec::new()
    }

    /// Leaves the project at `path` unregistered and takes the next import.
    pub fn skip_import(&mut self, path: String) -> (r: Vec<Action>)
        ensures
            import_skipped(*old(self), path, *final(self), r@),
    {
        self.status = concat2("Skipped ", path.as_str());
        self.continue_imports()
    }

    /// Registers `path` on `shell` (a new registration takes the identifier
    /// `id`), saves the registry and takes the next import.
    fn register(&mut self, id: u128, path: String, shell: String, outcome: Result<String, String>) -> (r:
        Vec<Action>)
        ensures
            registry_becomes(
                *old(self),
                *final(self),
                upserted(
                    record_views(old(self).state.projects@),
                    registration(id, path@, shell@, outcome_view(outcome)),
                ),
            ),
            final(self).status@ == registered_status(path@, outcome is Ok),
            r@.len() == 2,
            r@[0] matches Action::Save { reason } && reason is Registration,
            took_next_import(
                old(self).pending_imports@,
                old(self).screen,
                *final(self),
                r@.drop_first(),
            ),
            keeps_view(*old(self), *final(self)),
    {
        let valid = outcome.is_ok();
        let mut record = ProjectRecord::new(id, path.clone());
        record.dev_shell = shell;
        match outcome {
            Ok(v) => {
                record.verified_version = Some(v);
            },
            Err(e) => {
                record.diagnostic = Some(e);
            },
        }
        upsert(&mut self.state.projects, record);
        self.status = if valid {
            concat2("Registered ", path.as_str())
        } else {
            concat3("Registered ", path.as_str(), " as broken")
        };
        let mut actions = vec![Action::Save { reason: SaveReason::Registration }];
        let mut next = self.continue_imports();
        actions.append(&mut next);
        actions
    }

    /// Takes the outcome of validating the dev shell `shell` of `path`: a
    /// working shell registers the project with the version it reported; a
    /// failing one leads to the unusable-flake prompt during an import, and
    /// registers the project as broken during a revalidation. `id` is the
    /// identifier a new registration takes.
    pub fn validated(
        &mut self,
        id: u128,
        path: String,
        shell: String,
        purpose: ValidationPurpose,
        result: Result<Validation, String>,
    ) -> (r: Vec<Action>)
        ensures
            keeps_view(*old(self), *final(self)),
            match result {
                Ok(v) => {
                    &&& registry_becomes(
                        *old(self),
                        *final(self),
                        upserted(
                            record_views(old(self).state.projects@),
                            registration(id, path@, shell@, Ok(v.version@)),
                        ),
                    )
                    &&& final(self).status@ == registered_status(path@, true)
                    &&& r@.len() == 2
                    &&& r@[0] matches Action::Save { reason } && reason is Registration
                    &&& took_next_import(
                        old(self).pending_imports@,
                        old(self).screen,
                        *final(self),
                        r@.drop_first(),
                    )
                },
                Err(e) => if purpose == ValidationPurpose::Import {
                    &&& final(self).screen == (Screen::InvalidFlake {
                        path,
                        diagnostic: e,
                        selected: 0,
                    })
                    &&& final(self).state == old(self).state
                    &&& final(self).status == old(self).status
                    &&& final(self).pending_imports == old(self).pending_imports
                    &&& r@.len() == 0
                } else {
                    &&& registry_becomes(
                        *old(self),
                        *final(self),
                        upserted(
                            record_views(old(self).state.projects@),
                            registration(id, path@, shell@, Err(e@)),
                        ),
                    )
                    &&& final(self).status@ == registered_status(path@, false)
                    &&& r@.len() == 2
                    &&& r@[0] matches Action::Save { reason } && reason is Registration
                    &&& took_next_import(
                        old(self).pending_imports@,
                        old(self).screen,
                        *final(self),
                        r@.drop_first(),
                    )
                },
            },
    {
        match result {
            Ok(v) => self.register(id, path, shell, Ok(v.version)),
            Err(e) => {
                if purpose == ValidationPurpose::Import {
                    self.prompt_invalid_flake(path, e);
                    Vec::new()
                } else {
                    self.register(id, path, shell, Err(e))
                }
            },
        }
    }

    /// Takes the outcome of generating, installing and validating a flake
    /// for the existing project at `path`: the project is registered on its
    /// `default` shell, or the failure is reported and the next import is
    /// taken. The status naming the backup of a replaced flake is the last
    /// word: while queued imports follow, it is held until they settle.
    pub fn generated_existing(
        &mut self,
        id: u128,
        path: String,
        result: Result<(Validation, Option<String>), String>,
    ) -> (r: Vec<Action>)
        ensures
            keeps_shown_view(*old(self), *final(self)),
            match result {
                Ok((v, backup)) => {
                    &&& registry_becomes(
                        *old(self),
                        *final(self),
                        upserted(
                            record_views(old(self).state.projects@),
                            registration(id, path@, "default"@, Ok(v.version@)),
                        ),
                    )
                    &&& final(self).status@ == match backup {
                        Some(b) => backup_status(b@),
                        None => registered_status(path@, true),
                    }
                    &&& final(self).held_status.deep_view() == held_for(
                        old(self).pending_imports@,
                        match backup {
                            Some(b) => Some(backup_status(b@)),
                            None => None,
                        },
                    )
                    &&& r@.len() == 2
                    &&& r@[0] matches Action::Save { reason } && reason is Registration
                    &&& took_next_import(
                        old(self).pending_imports@,
                        old(self).screen,
                        *final(self),
                        r@.drop_first(),
                    )
                },
                Err(e) => {
                    &&& final(self).state == old(self).state
                    &&& final(self).status@ == import_status(
                        old(self).held_status,
                        old(self).pending_imports@.len() == 0,
                        "Could not generate flake for "@ + path@ + ": "@ + e@,
                    )
                    &&& final(self).held_status == held_after(
                        old(self).held_status,
                        old(self).pending_imports@.len() == 0,
                    )
                    &&& took_next_import(
                        old(self).pending_imports@,
                        old(self).screen,
                        *final(self),
                        r@,
                    )
                },
            },
    {
        match result {
            Ok((v, backup)) => {
                let queued = self.pending_imports.len() > 0;
                let r = self.register(id, path, default_shell(), Ok(v.version));
                match backup {
                    Some(b) => {
                        let message = concat2(
                            "Registered project; previous flake backed up to ",
                            b.as_str(),
                        );
                        self.held_status = if queued {
                            Some(message.clone())
                        } else {
                            None
                        };
                        self.status = message;
                    },
                    None => {
                        self.held_status = None;
                    },
                }
                r
            },
            Err(e) => {
                self.status = concat4(
                    "Could not generate flake for ",
                    path.as_str(),
                    ": ",
                    e.as_str(),
                );
                self.next_import()
            },
        }
    }

    /// Takes the outcome of creating a project: the new project directory and
    /// the validation of its `default` shell, or the failure. The status
    /// naming the new project is the last word: while queued imports follow,
    /// it is held until they settle.
    pub fn created(&mut self, id: u128, result: Result<(String, Validation), String>) -> (r: Vec<
        Action,
    >)
        ensures
            keeps_shown_view(*old(self), *final(self)),
            match result {
                Ok((path, v)) => {
                    &&& registry_becomes(
                        *old(self),
                        *final(self),
                        upserted(
                            record_views(old(self).state.projects@),
                            registration(id, path@, "default"@, Ok(v.version@)),
                        ),
                    )
                    &&& final(self).status@ == "Project created and registered"@
                    &&& final(self).held_status.deep_view() == held_for(
                        old(self).pending_imports@,
                        Some("Project created and registered"@),
                    )
                    &&& r@.len() == 2
                    &&& r@[0] matches Action::Save { reason } && reason is Registration
                    &&& took_next_import(
                        old(self).pending_imports@,
                        old(self).screen,
                        *final(self),
                        r@.drop_first(),
                    )
                },
                Err(e) => {
                    &&& final(self).state == old(self).state
                    &&& final(self).status@ == "Project creation failed: "@ + e@
                    &&& final(self).held_status == old(self).held_status
                    &&& final(self).screen is Dashboard
                    &&& final(self).pending_imports == old(self).pending_imports
                    &&& r@.len() == 0
                },
            },
    {
        match result {
            Ok((path, v)) => {
                let queued = self.pending_imports.len() > 0;
                let r = self.register(id, path, default_shell(), Ok(v.version));
                let message = "Project created and registered".to_string();
                self.held_status = if queued {
                    Some(message.clone())
                } else {
                    None
                };
                self.status = message;
                r
            },
            Err(e) => {
                self.status = concat2("Project creation failed: ", e.as_str());
                self.screen = Screen::Dashboard;
                Vec::new()
            },
        }
    }

    /// Checks the flake form and shows what confirming it will do. A refused
    /// form changes nothing.
    pub fn confirm_existing(&mut self, form: ExistingForm) -> (r: Result<(), FormError>)
        ensures
            existing_confirmed(*old(self), form, *final(self), r),
    {
        match validate_version(form.version.as_str()) {
            Err(e) => {
                self.status = e.message();
                return Err(e);
            },
            Ok(()) => {},
        }
        let tools = match parse_tools(form.tools.as_str()) {
            Err(e) => {
                self.status = e.message();
                return Err(e);
            },
            Ok(t) => t,
        };
        let mut summary = if form.replace_existing {
            "Replace".to_string()
        } else {
            "Add".to_string()
        };
        summary.append(" a generated flake for ");
        summary.append(form.path.as_str());
        summary.append("\nGodot: ");
        summary.append(form.version.as_str());
        summary.append("\nExtra tools: ");
        if tools.len() == 0 {
            summary.append("none");
        } else {
            let listed = join_texts(&tools, ", ");
            summary.append(listed.as_str());
        }
        summary.append("\n.envrc: ");
        summary.append(
            if self.state.settings.create_envrc {
                "create when absent"
            } else {
                "disabled"
            },
        );
        summary.append("\n\n");
        summary.append(
            if form.replace_existing {
                "The existing flake.nix and flake.lock will be moved to a timestamped backup."
            } else {
                "No existing file will be overwritten."
            },
        );
        proof {
            assert(texts_of(tools@) == tools@.map_values(|x: String| x@));
        }
        self.screen = Screen::Confirm {
            action: ConfirmAction::GenerateExisting {
                path: form.path,
                version: form.version,
                tools,
                replace_existing: form.replace_existing,
            },
            summary,
        };
        Ok(())
    }

    /// Starts confirming a new project: a blank name is refused, otherwise
    /// the trimmed parent directory is to be resolved.
    pub fn confirm_create(&mut self, form: CreateForm) -> (r: Result<Vec<Action>, FormError>)
        ensures
            create_asked(*old(self), form, *final(self), r),
    {
        let name = trim_chars(&to_chars(form.name.as_str()));
        if name.len() == 0 {
            self.status = FormError::NameRequired.message();
            return Err(FormError::NameRequired);
        }
        let parent = from_chars(&trim_chars(&to_chars(form.parent.as_str())));
        Ok(vec![Action::ResolveParent { parent, form }])
    }

    /// Takes the canonical parent directory of the new project of `form`, or
    /// why it could not be resolved, and shows what confirming will do. A
    /// refusal is reported in the status and changes nothing else.
    pub fn parent_resolved(&mut self, form: CreateForm, parent: Result<String, String>) -> (r: Result<
        (),
        FormError,
    >)
        ensures
            keeps_view(*old(self), *final(self)),
            final(self).state == old(self).state,
            final(self).pending_imports == old(self).pending_imports,
            r matches Err(e) ==> final(self).screen == old(self).screen,
            match parent {
                Err(io) => r == Err::<(), FormError>(FormError::ParentMissing) && final(self).status@
                    == form_error_text(FormError::ParentMissing) + ": "@ + io@,
                Ok(p) => if !is_stable_tag(form.version@) {
                    r == Err::<(), FormError>(FormError::InvalidVersion) && final(self).status@
                        == form_error_text(FormError::InvalidVersion)
                } else {
                    match parsed_tools(form.tools@) {
                        Err(e) => r == Err::<(), FormError>(e) && final(self).status@
                            == form_error_text(e),
                        Ok(t) => {
                            &&& r is Ok
                            &&& final(self).status == old(self).status
                            &&& final(self).screen matches Screen::Confirm { action, summary } && (
                            action matches ConfirmAction::Create(spec) && spec.name@ == trim(
                                form.name@,
                            ) && spec.parent == p && spec.godot_version == form.version
                                && spec.renderer == form_renderer(
                                form.version@,
                                form.renderer_index,
                            ) && spec.git_metadata == form.git_metadata && texts_of(
                                spec.extra_tools@,
                            ) == t && spec.create_envrc == old(self).state.settings.create_envrc
                                && summary@ == create_summary(
                                spec.name@,
                                p@,
                                form.version@,
                                spec.renderer,
                                form.git_metadata,
                                spec.create_envrc,
                            ))
                        },
                    }
                },
            },
    {
        let p = match parent {
            Err(io) => {
                self.status = concat3(
                    FormError::ParentMissing.message().as_str(),
                    ": ",
                    io.as_str(),
                );
                return Err(FormError::ParentMissing);
            },
            Ok(p) => p,
        };
        match validate_version(form.version.as_str()) {
            Err(e) => {
                self.status = e.message();
                return Err(e);
            },
            Ok(()) => {},
        }
        let tools = match parse_tools(form.tools.as_str()) {
            Err(e) => {
                self.status = e.message();
                return Err(e);
            },
            Ok(t) => t,
        };
        let renderer = form.renderer();
        let name = from_chars(&trim_chars(&to_chars(form.name.as_str())));
        let envrc = self.state.settings.create_envrc;
        let mut summary = concat3("Create ", name.as_str(), "\nLocation: ");
        summary.append(p.as_str());
        summary.append("\nGodot: ");
        summary.append(form.version.as_str());
        summary.append("\nRenderer: ");
        summary.append(renderer.label());
        summary.append("\nGit metadata: ");
        summary.append(bool_text(form.git_metadata));
        summary.append("\n.envrc: ");
        summary.append(bool_text(envrc));
        proof {
            assert(texts_of(tools@) == tools@.map_values(|x: String| x@));
        }
        let spec = NewProjectSpec {
            name,
            parent: p,
            godot_version: form.version,
            renderer,
            git_metadata: form.git_metadata,
            extra_tools: tools,
            create_envrc: envrc,
        };
        self.screen = Screen::Confirm { action: ConfirmAction::Create(spec), summary };
        Ok(())
    }

    /// Carries out a confirmed action: generating a flake and creating a
    /// project become outside work behind a busy screen; unregistering
    /// removes the registration (and no file), moves the selection up and
    /// saves.
    #[verifier::spinoff_prover]
    #[verifier::rlimit(40)]
    pub fn execute_confirm(&mut self, action: ConfirmAction) -> (r: Vec<Action>)
        ensures
            confirmed(*old(self), action, *final(self), r@),
    {
        match action {
            ConfirmAction::GenerateExisting { path, version, tools, replace_existing } => {
                let message = concat3(
                    "Downloading Godot ",
                    version.as_str(),
                    " and validating generated flake…",
                );
                self.screen = Screen::Busy { message };
                let envrc = self.state.settings.create_envrc;
                vec![Action::GenerateExisting { path, version, tools, replace_existing, envrc }]
            },
            ConfirmAction::Create(spec) => {
                let message = concat4(
                    "Creating ",
                    spec.name.as_str(),
                    " with Godot ",
                    spec.godot_version.as_str(),
                );
                let mut message = message;
                message.append("…");
                self.screen = Screen::Busy { message };
                vec![Action::CreateProject { spec }]
            },
            ConfirmAction::Unregister { id } => {
                let ghost olds = self.state.projects@;
                let ghost before = record_views(olds);
                let removed = unregister(&mut self.state.projects, id);
                proof {
                    if removed is Some {
                        let w = choose|i: int| 0 <= i < olds.len() && (#[trigger] olds[i]).id == id;
                        assert(before[w] == olds[w]@);
                        assert(has_id(before, id));
                    }
                    if has_id(before, id) {
                        let w = choose|i: int| 0 <= i < before.len() && (#[trigger] before[i]).id == id;
                        assert(olds[w]@ == before[w]);
                        assert(olds[w].id == id);
                    }
                }
                self.screen = Screen::Dashboard;
                match removed {
                    Some(record) => {
                        self.selected = if self.selected > 0 {
                            self.selected - 1
                        } else {
                            0
                        };
                        vec![
                            Action::ForgetImage { id },
                            Action::Save { reason: SaveReason::Unregister { path: record.path } },
                        ]
                    },
                    None => Vec::new(),
                }
            },
        }
    }

    /// Declines a confirmation: a flake for an import is skipped and the
    /// next import taken; anything else ends the workflow.
    pub fn cancel_confirm(&mut self, action: &ConfirmAction) -> (r: Vec<Action>)
        ensures
            confirm_declined(*old(self), *action, *final(self), r@),
    {
        match action {
            ConfirmAction::GenerateExisting { path, .. } => self.skip_import(path.clone()),
            _ => {
                self.cancel_workflow();
                Vec::new()
            },
        }
    }

    /// Takes the outcome of writing the registry.
    pub fn saved(&mut self, reason: SaveReason, result: Result<(), String>)
        ensures
            final(self).state == old(self).state,
            final(self).pending_imports == old(self).pending_imports,
            final(self).selected == old(self).selected,
            final(self).releases == old(self).releases,
            match reason {
                SaveReason::Registration => *final(self) == *old(self),
                SaveReason::Unregister { path } => {
                    &&& final(self).screen == old(self).screen
                    &&& final(self).should_quit == old(self).should_quit
                    &&& final(self).status@ == match result {
                        Ok(_) => "Unregistered "@ + path@ + " (project files were not touched)"@,
                        Err(e) => "Could not save registry: "@ + e@,
                    }
                },
                SaveReason::Launch { close_shell } => {
                    &&& final(self).screen == old(self).screen
                    &&& match result {
                        Ok(_) => {
                            &&& final(self).status == old(self).status
                            &&& final(self).should_quit == (old(self).should_quit || close_shell)
                            &&& final(self).exit_code == if close_shell {
                                EXIT_CLOSE_SHELL
                            } else {
                                old(self).exit_code
                            }
                        },
                        Err(e) => {
                            &&& final(self).status == e
                            &&& final(self).should_quit == old(self).should_quit
                            &&& final(self).exit_code == old(self).exit_code
                        },
                    }
                },
                SaveReason::Settings => {
                    &&& final(self).should_quit == old(self).should_quit
                    &&& match result {
                        Ok(_) => final(self).screen is Dashboard && final(self).status@
                            == "Settings saved"@,
                        Err(e) => final(self).screen == old(self).screen && final(self).status
                            == e,
                    }
                },
            },
    {
        match reason {
            SaveReason::Registration => {},
            SaveReason::Unregister { path } => {
                self.status = match result {
                    Ok(_) => concat3(
                        "Unregistered ",
                        path.as_str(),
                        " (project files were not touched)",
                    ),
                    Err(e) => concat2("Could not save registry: ", e.as_str()),
                };
            },
            SaveReason::Launch { close_shell } => {
                match result {
                    Ok(_) => {
                        if close_shell {
                            self.should_quit = true;
                            self.exit_code = EXIT_CLOSE_SHELL;
                        }
                    },
                    Err(e) => {
                        self.status = e;
                    },
                }
            },
            SaveReason::Settings => {
                match result {
                    Ok(_) => {
                        self.screen = Screen::Dashboard;
                        self.status = "Settings saved".to_string();
                    },
                    Err(e) => {
                        self.status = e;
                    },
                }
            },
        }
    }

    /// The registry position of the selected card; `names` holds the
    /// displayed name of each registered project.
    pub fn selected_project(&self, names: &Vec<String>) -> (r: Option<usize>)
        requires
            names@.len() == self.state.projects@.len(),
        ensures
            r == selected_card(*self, texts_of(names@)),
            r matches Some(i) ==> i < self.state.projects@.len(),
    {
        let order = visible_indices(&self.state.projects, names, self.filter.as_str());
        proof {
            assert(texts_of(names@) == names@.map_values(|n: String| n@));
        }
        if self.selected < order.len() {
            Some(order[self.selected])
        } else {
            None
        }
    }

    /// Asks to confirm unregistering the selected project.
    pub fn confirm_unregister_selected(&mut self, names: &Vec<String>) -> (r: Result<
        (),
        SelectionError,
    >)
        requires
            names@.len() == old(self).state.projects@.len(),
        ensures
            unregister_asked(*old(self), texts_of(names@), *final(self), r),
    {
        let i = match self.selected_project(names) {
            None => {
                self.status = SelectionError::NoProjectSelected.message();
                return Err(SelectionError::NoProjectSelected);
            },
            Some(i) => i,
        };
        let summary = concat3(
            "Unregister ",
            self.state.projects[i].path.as_str(),
            "?\n\nNo project files will be deleted.",
        );
        self.screen = Screen::Confirm {
            action: ConfirmAction::Unregister { id: self.state.projects[i].id },
            summary,
        };
        Ok(())
    }

    /// Validates the selected project's dev shell again, dropping any queued
    /// import.
    pub fn revalidate_selected(&mut self, names: &Vec<String>) -> (r: Result<
        Vec<Action>,
        SelectionError,
    >)
        requires
            names@.len() == old(self).state.projects@.len(),
        ensures
            revalidation_asked(*old(self), texts_of(names@), *final(self), r),
    {
        let i = match self.selected_project(names) {
            None => {
                self.status = SelectionError::NoProjectSelected.message();
                return Err(SelectionError::NoProjectSelected);
            },
            Some(i) => i,
        };
        self.pending_imports = Vec::new();
        let path = self.state.projects[i].path.clone();
        let shell = self.state.projects[i].dev_shell.clone();
        Ok(self.start_shell_validation(path, shell, ValidationPurpose::Revalidate))
    }

    /// Asks to start the editor of the selected project, when it is ready;
    /// `exists` says for each registered project whether its directory
    /// exists. `close_shell` asks to close the invoking shell afterwards.
    pub fn launch_selected(&mut self, names: &Vec<String>, exists: &Vec<bool>, close_shell: bool) -> (r:
        Result<Vec<Action>, SelectionError>)
        requires
            names@.len() == old(self).state.projects@.len(),
            exists@.len() == old(self).state.projects@.len(),
        ensures
            launch_asked(*old(self), texts_of(names@), exists@, close_shell, *final(self), r),
    {
        let i = match self.selected_project(names) {
            None => {
                self.status = SelectionError::NoProjectSelected.message();
                return Err(SelectionError::NoProjectSelected);
            },
            Some(i) => i,
        };
        if !self.state.projects[i].is_ready(exists[i]) {
            self.status = SelectionError::NotReady.message();
            return Err(SelectionError::NotReady);
        }
        let record = &self.state.projects[i];
        Ok(
            vec![
                Action::Launch {
                    id: record.id,
                    path: record.path.clone(),
                    shell: record.dev_shell.clone(),
                    close_shell,
                },
            ],
        )
    }

    /// Takes the outcome of starting the editor of project `id`: on success
    /// the status names the log, the project is marked as opened at `now`
    /// (nanoseconds since the Unix epoch) and the registry is saved.
    pub fn launched(&mut self, id: u128, close_shell: bool, result: Result<String, String>, now: i64) -> (r:
        Vec<Action>)
        ensures
            keeps_view(*old(self), *final(self)),
            final(self).screen == old(self).screen,
            final(self).pending_imports == old(self).pending_imports,
            match result {
                Err(e) => final(self).status == e && final(self).state == old(self).state && r@.len()
                    == 0,
                Ok(log) => {
                    let before = record_views(old(self).state.projects@);
                    if has_id(before, id) {
                        let i = first_with_id(before, id);
                        &&& registry_becomes(
                            *old(self),
                            *final(self),
                            before.update(i, RecordView { last_opened_at: Some(now), ..before[i] }),
                        )
                        &&& final(self).status@ == "Launching "@ + before[i].path + " (log: "@
                            + log@ + ")"@
                        &&& r@.len() == 1
                        &&& r@[0] matches Action::Save { reason } && (reason matches SaveReason::Launch {
                            close_shell: c,
                        } && c == close_shell)
                    } else {
                        registry_becomes(*old(self), *final(self), before) && final(self).status
                            == old(self).status && r@.len() == 0
                    }
                },
            },
    {
        let log = match result {
            Err(e) => {
                self.status = e;
                return Vec::new();
            },
            Ok(log) => log,
        };
        match mark_opened(&mut self.state.projects, id, now) {
            Some(i) => {
                assert(record_views(self.state.projects@)[i as int] == self.state.projects@[i as int]@);
                let mut status = concat3("Launching ", self.state.projects[i].path.as_str(), " (log: ");
                status.append(log.as_str());
                status.append(")");
                self.status = status;
                vec![Action::Save { reason: SaveReason::Launch { close_shell } }]
            },
            None => Vec::new(),
        }
    }

    /// Reports an editor that exited with a failure status, shown as
    /// `exit`.
    pub fn launch_exited_early(&mut self, exit: &str)
        ensures
            final(self).status@ == "A Godot launch exited early with "@ + exit@ + "; see its log"@,
            final(self).state == old(self).state,
            final(self).screen == old(self).screen,
            final(self).pending_imports == old(self).pending_imports,
            keeps_view(*old(self), *final(self)),
    {
        self.status = concat3("A Godot launch exited early with ", exit, "; see its log");
    }

    /// Saves the settings form: a blank directory clears the default
    /// projects directory at once; another one is resolved first.
    pub fn save_settings(&mut self, directory: String, create_envrc: bool) -> (r: Vec<Action>)
        ensures
            settings_save_asked(*old(self), directory, create_envrc, *final(self), r@),
    {
        let trimmed = trim_chars(&to_chars(directory.as_str()));
        if trimmed.len() == 0 {
            self.state.settings.default_projects_dir = None;
            self.state.settings.create_envrc = create_envrc;
            return vec![Action::Save { reason: SaveReason::Settings }];
        }
        vec![
            Action::ResolveSettingsDirectory { directory: from_chars(&trimmed), create_envrc },
        ]
    }

    /// Takes the resolved default projects directory: its canonical path
    /// and whether it is a directory, or why it could not be resolved.
    pub fn settings_directory_resolved(
        &mut self,
        create_envrc: bool,
        result: Result<(String, bool), String>,
    ) -> (r: Result<Vec<Action>, SettingsError>)
        ensures
            keeps_view(*old(self), *final(self)),
            final(self).screen == old(self).screen,
            final(self).pending_imports == old(self).pending_imports,
            final(self).state.projects == old(self).state.projects,
            final(self).state.schema_version == old(self).state.schema_version,
            r is Err ==> final(self).state == old(self).state,
            match result {
                Err(io) => r == Err::<Vec<Action>, SettingsError>(SettingsError::DirectoryMissing)
                    && final(self).status@ == "default directory does not exist: "@ + io@,
                Ok((p, is_dir)) => if !is_dir {
                    r == Err::<Vec<Action>, SettingsError>(SettingsError::NotADirectory)
                        && final(self).status@ == "default projects path is not a directory"@
                } else {
                    &&& final(self).state.settings.default_projects_dir == Some(p)
                    &&& final(self).state.settings.create_envrc == create_envrc
                    &&& final(self).status == old(self).status
                    &&& r matches Ok(a) && a@.len() == 1 && (a@[0] matches Action::Save { reason }
                        && reason is Settings)
                },
            },
    {
        match result {
            Err(io) => {
                self.status = concat2("default directory does not exist: ", io.as_str());
                Err(SettingsError::DirectoryMissing)
            },
            Ok((p, is_dir)) => {
                if !is_dir {
                    self.status = "default projects path is not a directory".to_string();
                    return Err(SettingsError::NotADirectory);
                }
                self.state.settings.default_projects_dir = Some(p);
                self.state.settings.create_envrc = create_envrc;
                Ok(vec![Action::Save { reason: SaveReason::Settings }])
            },
        }
    }

    /// Takes the projects found among the direct children of `root` (its
    /// canonical path), or why the scan failed.
    pub fn scanned(&mut self, root: String, result: Result<Vec<FoundProject>, String>)
        ensures
            keeps_view(*old(self), *final(self)),
            final(self).state == old(self).state,
            final(self).pending_imports == old(self).pending_imports,
            match result {
                Ok(found) => {
                    &&& final(self).status == old(self).status
                    &&& final(self).screen matches Screen::ScanResults { root: r, candidates, cursor }
                        && r == root && cursor == 0 && is_scan_order(
                        found@,
                        record_views(old(self).state.projects@),
                        candidates@.map_values(|c: ScanCandidate| c@),
                    )
                },
                Err(e) => final(self).status == e && final(self).screen == old(self).screen,
            },
    {
        match result {
            Ok(found) => {
                let candidates = scan_candidates(&found, &self.state.projects);
                self.screen = Screen::ScanResults { root, candidates, cursor: 0 };
            },
            Err(e) => {
                self.status = e;
            },
        }
    }
}


/// Unregistering a project asks for no work on its files: at most its icon
/// is forgotten and the registry saved, and only its registration goes.
#[verifier::spinoff_prover]
pub proof fn lemma_unregister_touches_no_project_files(
    s0: Dashboard,
    id: u128,
    s1: Dashboard,
    r: Seq<Action>,
)
    requires
        unregister_confirmed(s0, id, s1, r),
    ensures
        forall|k: int| 0 <= k < r.len() ==> (r[k] is ForgetImage || r[k] is Save),
        record_views(s1.state.projects@) == unregistered(record_views(s0.state.projects@), id),
        s1.state.settings == s0.state.settings,
{
    let before = record_views(s0.state.projects@);
    if has_id(before, id) {
        assert(r.len() == 2);
        assert(r[0] is ForgetImage);
        assert(r[1] is Save);
    } else {
        assert(r.len() == 0);
    }
}

} // verus!
