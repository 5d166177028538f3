//! What each key does on each screen of the dashboard.
use vstd::prelude::*;
use crate::dashboard::{
    add_menu_opened, imports_queued, new_form_opened, path_prompted, settings_opened, texts_of,
    workflow_cancelled, Action, ConfirmAction, Dashboard, Screen, ValidationPurpose,
};
use crate::forms::{CreateForm, ExistingForm, FormError, PathPurpose};
use crate::model::{renderer_choices, Renderer};
use crate::registry::{card_order, record_views, visible_indices, CandidateView, ScanCandidate};
use crate::paths::{join_path, path_joined};
use crate::text::{copy_range, from_chars, lowercase, push_char, starts_with, to_chars};
use crate::workflow::{
    confirm_declined, confirmed, create_asked, existing_confirmed, import_skipped, launch_asked,
    revalidation_asked, settings_save_asked, shell_validation_started,
    unregister_asked, SelectionError,
};

verus! {

broadcast use vstd::string::group_string_axioms;

/// A key as the dashboard reads it.
#[derive(Debug, Clone, Copy, PartialEq, Eq, Structural)]
pub enum Key {
    Char(char),
    Esc,
    Enter,
    Backspace,
    Up,
    Down,
    Left,
    Right,
    Home,
    End,
    Tab,
    BackTab,
    /// Any other key.
    Other,
}

/// A pressed key with the modifiers that text fields care about.
#[derive(Debug, Clone, Copy, PartialEq, Eq, Structural)]
pub struct KeyPress {
    pub code: Key,
    pub ctrl: bool,
    pub alt: bool,
}

/// What the program knows of the machine when a key arrives.
pub struct Surroundings {
    /// The displayed name of each registered project, in registry order.
    pub names: Vec<String>,
    /// Whether each registered project's directory exists.
    pub exists: Vec<bool>,
    /// The working directory.
    pub current_dir: Option<String>,
    /// The home directory.
    pub home: Option<String>,
}

/// `names` and `exists` describe the registry of `d`.
pub open spec fn describes(env: Surroundings, d: Dashboard) -> bool {
    &&& env.names@.len() == d.state.projects@.len()
    &&& env.exists@.len() == d.state.projects@.len()
}

/// One step down, stopping at zero.
pub open spec fn step_down(n: usize) -> usize {
    if n > 0 {
        (n - 1) as usize
    } else {
        0
    }
}

/// One step up, stopping at `last`.
pub open spec fn step_up(n: usize, last: usize) -> usize {
    if n < last {
        (n + 1) as usize
    } else {
        last
    }
}

/// The actions of a request that may be refused.
pub open spec fn actions_of<E>(res: Result<Vec<Action>, E>) -> Seq<Action> {
    match res {
        Ok(a) => a@,
        Err(_) => seq![],
    }
}

/// A text field after a key: backspace drops the last character, a plain
/// character is appended, anything else changes nothing.
pub open spec fn edited(value: Seq<char>, key: KeyPress) -> Seq<char> {
    match key.code {
        Key::Backspace => if value.len() > 0 {
            value.drop_last()
        } else {
            value
        },
        Key::Char(c) => if !key.ctrl && !key.alt {
            value.push(c)
        } else {
            value
        },
        _ => value,
    }
}

/// Applies a key to a text field.
pub fn edit_text(value: &mut String, key: KeyPress)
    ensures
        final(value)@ == edited(old(value)@, key),
{
    match key.code {
        Key::Backspace => {
            let chars = to_chars(value.as_str());
            if chars.len() > 0 {
                *value = from_chars(&copy_range(&chars, 0, chars.len() - 1));
                assert(old(value)@.take(old(value)@.len() - 1) =~= old(value)@.drop_last());
            }
        },
        Key::Char(c) => {
            if !key.ctrl && !key.alt {
                push_char(value, c);
            }
        },
        _ => {},
    }
}

/// `s` without its leading `~/` prefixes.
pub open spec fn without_home_prefix(s: Seq<char>) -> Seq<char>
    decreases s.len(),
{
    if s.len() >= 2 && s[0] == '~' && s[1] == '/' {
        without_home_prefix(s.skip(2))
    } else {
        s
    }
}

/// A typed path with `~` or a leading `~/` taken from the home directory,
/// when it is known.
pub open spec fn expanded_path(value: Seq<char>, home: Option<Seq<char>>) -> Seq<char> {
    match home {
        Some(h) => if value == "~"@ || starts_with(value, "~/"@) {
            path_joined(h, without_home_prefix(value))
        } else {
            value
        },
        None => value,
    }
}

fn strip_home_prefixes(s: &Vec<char>) -> (r: Vec<char>)
    ensures
        r@ == without_home_prefix(s@),
{
    let mut pos: usize = 0;
    assert(s@.skip(0) =~= s@);
    while pos < s.len() && s.len() - pos >= 2 && s[pos] == '~' && s[pos + 1] == '/'
        invariant
            pos <= s.len(),
            without_home_prefix(s@.skip(pos as int)) == without_home_prefix(s@),
        decreases s.len() - pos,
    {
        assert(s@.skip(pos as int).skip(2) =~= s@.skip(pos + 2));
        pos += 2;
    }
    let r = copy_range(s, pos, s.len());
    assert(r@ =~= s@.skip(pos as int));
    r
}

/// Expands `~` in a typed path; `home` is the home directory, when known.
pub fn expand_tilde(value: &str, home: &Option<String>) -> (r: String)
    ensures
        r@ == expanded_path(value@, home.deep_view()),
{
    let h = match home {
        Some(h) => h.as_str(),
        None => return value.to_string(),
    };
    let v = to_chars(value);
    let prefix = to_chars("~/");
    proof {
        reveal_strlit("~/");
        reveal_strlit("~");
    }
    let is_home = (v.len() == 1 && v[0] == '~') || crate::text::chars_starts_with(&v, &prefix);
    proof {
        if v@.len() == 1 && v@[0] == '~' {
            assert(v@ =~= "~"@);
        }
        if value@ == "~"@ {
            assert(v@.len() == 1 && v@[0] == '~');
        }
    }
    if !is_home {
        return value.to_string();
    }
    let rest = from_chars(&strip_home_prefixes(&v));
    join_path(h, rest.as_str())
}


/// A key on the project list while the filter is typed: Esc or Enter ends
/// typing, Backspace and characters edit the filter and select the first
/// card.
pub open spec fn filter_key_step(s0: Dashboard, key: KeyPress, s1: Dashboard) -> bool {
    match key.code {
        Key::Esc | Key::Enter => s1 == Dashboard { filtering: false, ..s0 },
        Key::Backspace => {
            &&& s1.filter@ == (if s0.filter@.len() > 0 {
                s0.filter@.drop_last()
            } else {
                s0.filter@
            })
            &&& s1.selected == 0
            &&& Dashboard { filter: s0.filter, selected: s0.selected, ..s1 } == s0
        },
        Key::Char(c) => {
            &&& s1.filter@ == s0.filter@.push(c)
            &&& s1.selected == 0
            &&& Dashboard { filter: s0.filter, selected: s0.selected, ..s1 } == s0
        },
        _ => s1 == s0,
    }
}

/// The position of the last card, or zero when none is shown.
pub open spec fn last_card(s0: Dashboard, names: Seq<Seq<char>>) -> usize {
    let count = card_order(record_views(s0.state.projects@), names, lowercase(s0.filter@)).len();
    if count > 0 {
        (count - 1) as usize
    } else {
        0
    }
}

/// A key on the project list.
pub open spec fn list_key_step(
    s0: Dashboard,
    key: KeyPress,
    env: Surroundings,
    s1: Dashboard,
    r: Seq<Action>,
) -> bool {
    let names = texts_of(env.names@);
    match key.code {
        Key::Char('q') => s1 == Dashboard { should_quit: true, ..s0 } && r.len() == 0,
        Key::Down | Key::Char('j') => s1 == Dashboard {
            selected: step_up(s0.selected, last_card(s0, names)),
            ..s0
        } && r.len() == 0,
        Key::Up | Key::Char('k') => s1 == Dashboard { selected: step_down(s0.selected), ..s0 }
            && r.len() == 0,
        Key::Home => s1 == Dashboard { selected: 0, ..s0 } && r.len() == 0,
        Key::End => s1 == Dashboard { selected: last_card(s0, names), ..s0 } && r.len() == 0,
        Key::Enter | Key::Char('o') => exists|res: Result<Vec<Action>, SelectionError>|
            #[trigger] launch_asked(s0, names, env.exists@, false, s1, res) && r == actions_of(res),
        Key::Char('x') => exists|res: Result<Vec<Action>, SelectionError>|
            #[trigger] launch_asked(s0, names, env.exists@, true, s1, res) && r == actions_of(res),
        Key::Char('a') => add_menu_opened(s0, s1) && r.len() == 0,
        Key::Char('n') => new_form_opened(s0, env.current_dir, s1) && r.len() == 0,
        Key::Char('/') => s1 == Dashboard { filtering: true, ..s0 } && r.len() == 0,
        Key::Char('r') => exists|res: Result<Vec<Action>, SelectionError>|
            #[trigger] revalidation_asked(s0, names, s1, res) && r == actions_of(res),
        Key::Char('d') => exists|res: Result<(), SelectionError>|
            #[trigger] unregister_asked(s0, names, s1, res) && r.len() == 0,
        Key::Char(',') => settings_opened(s0, s1) && r.len() == 0,
        Key::Char('?') => s1 == Dashboard { screen: Screen::Help, ..s0 } && r.len() == 0,
        _ => s1 == s0 && r.len() == 0,
    }
}

fn copy_text_option(o: &Option<String>) -> (r: Option<String>)
    ensures
        r == *o,
{
    match o {
        Some(s) => Some(s.clone()),
        None => None,
    }
}

impl Dashboard {
    /// Handles a key on the project list.
    pub fn list_key(&mut self, key: KeyPress, env: &Surroundings) -> (r: Vec<Action>)
        requires
            describes(*env, *old(self)),
        ensures
            old(self).filtering ==> filter_key_step(*old(self), key, *final(self)) && r@.len() == 0,
            !old(self).filtering ==> list_key_step(*old(self), key, *env, *final(self), r@),
    {
        if self.filtering {
            match key.code {
                Key::Esc | Key::Enter => {
                    self.filtering = false;
                },
                Key::Backspace => {
                    let chars = to_chars(self.filter.as_str());
                    if chars.len() > 0 {
                        self.filter = from_chars(&copy_range(&chars, 0, chars.len() - 1));
                        assert(chars@.take(chars@.len() - 1) =~= chars@.drop_last());
                    }
                    self.selected = 0;
                },
                Key::Char(c) => {
                    push_char(&mut self.filter, c);
                    self.selected = 0;
                },
                _ => {},
            }
            return Vec::new();
        }
        let ghost names = texts_of(env.names@);
        let order = visible_indices(&self.state.projects, &env.names, self.filter.as_str());
        proof {
            assert(names == env.names@.map_values(|n: String| n@));
        }
        let count = order.len();
        let last: usize = if count > 0 {
            count - 1
        } else {
            0
        };
        match key.code {
            Key::Char('q') => {
                self.should_quit = true;
                Vec::new()
            },
            Key::Down | Key::Char('j') => {
                self.selected = if self.selected < last {
                    self.selected + 1
                } else {
                    last
                };
                Vec::new()
            },
            Key::Up | Key::Char('k') => {
                self.selected = if self.selected > 0 {
                    self.selected - 1
                } else {
                    0
                };
                Vec::new()
            },
            Key::Home => {
                self.selected = 0;
                Vec::new()
            },
            Key::End => {
                self.selected = last;
                Vec::new()
            },
            Key::Enter | Key::Char('o') => {
                let res = self.launch_selected(&env.names, &env.exists, false);
                match res {
                    Ok(a) => a,
                    Err(_) => Vec::new(),
                }
            },
            Key::Char('x') => {
                let res = self.launch_selected(&env.names, &env.exists, true);
                match res {
                    Ok(a) => a,
                    Err(_) => Vec::new(),
                }
            },
            Key::Char('a') => {
                self.open_add_menu();
                Vec::new()
            },
            Key::Char('n') => {
                self.open_new_form(copy_text_option(&env.current_dir));
                Vec::new()
            },
            Key::Char('/') => {
                self.filtering = true;
                Vec::new()
            },
            Key::Char('r') => {
                let res = self.revalidate_selected(&env.names);
                match res {
                    Ok(a) => a,
                    Err(_) => Vec::new(),
                }
            },
            Key::Char('d') => {
                let _ = self.confirm_unregister_selected(&env.names);
                Vec::new()
            },
            Key::Char(',') => {
                self.open_settings();
                Vec::new()
            },
            Key::Char('?') => {
                self.screen = Screen::Help;
                Vec::new()
            },
            _ => Vec::new(),
        }
    }
}


/// A key in the add menu: move between its two entries, open the path
/// prompt for the chosen one, or leave.
pub open spec fn add_menu_key_step(
    s0: Dashboard,
    key: KeyPress,
    current_dir: Option<String>,
    s1: Dashboard,
) -> bool {
    match s0.screen {
        Screen::AddMenu { selected } => match key.code {
            Key::Esc => s1 == Dashboard { screen: Screen::Dashboard, ..s0 },
            Key::Up | Key::Char('k') => s1 == Dashboard {
                screen: Screen::AddMenu { selected: step_down(selected) },
                ..s0
            },
            Key::Down | Key::Char('j') => s1 == Dashboard {
                screen: Screen::AddMenu { selected: step_up(selected, 1) },
                ..s0
            },
            Key::Enter => path_prompted(
                s0,
                if selected == 0 {
                    PathPurpose::Add
                } else {
                    PathPurpose::Scan
                },
                current_dir,
                s1,
            ),
            _ => s1 == s0,
        },
        _ => s1 == s0,
    }
}

/// A key at the path prompt: Enter registers the expanded path or scans
/// it, Esc leaves, anything else edits the path.
pub open spec fn path_key_step(
    s0: Dashboard,
    key: KeyPress,
    home: Option<String>,
    s1: Dashboard,
    r: Seq<Action>,
) -> bool {
    match s0.screen {
        Screen::PathInput { purpose, input } => match key.code {
            Key::Esc => s1 == Dashboard { screen: Screen::Dashboard, ..s0 } && r.len() == 0,
            Key::Enter => {
                let path = expanded_path(input@, home.deep_view());
                match purpose {
                    PathPurpose::Add => exists|paths: Seq<String>|
                        #[trigger] imports_queued(s0, paths, s1, r) && paths.len() == 1 && paths[0]@
                            == path,
                    PathPurpose::Scan => s1 == s0 && r.len() == 1 && (r[0] matches Action::Scan {
                        root,
                    } && root@ == path),
                }
            },
            _ => {
                &&& s1.screen matches Screen::PathInput { purpose: q, input: i } && q == purpose
                    && i@ == edited(input@, key)
                &&& Dashboard { screen: s0.screen, ..s1 } == s0
                &&& r.len() == 0
            },
        },
        _ => s1 == s0 && r.len() == 0,
    }
}

/// The views of scan results.
pub open spec fn candidate_views(cs: Seq<ScanCandidate>) -> Seq<CandidateView> {
    cs.map_values(|c: ScanCandidate| c@)
}

/// The scan results with the choice at `k` flipped, unless that project
/// is already registered.
pub open spec fn toggled(cs: Seq<CandidateView>, k: int) -> Seq<CandidateView> {
    if 0 <= k < cs.len() && !cs[k].registered {
        cs.update(k, CandidateView { selected: !cs[k].selected, ..cs[k] })
    } else {
        cs
    }
}

/// Every unregistered project chosen.
pub open spec fn all_chosen(cs: Seq<CandidateView>) -> Seq<CandidateView> {
    cs.map_values(
        |c: CandidateView|
            if c.registered {
                c
            } else {
                CandidateView { selected: true, ..c }
            },
    )
}

/// No project chosen.
pub open spec fn none_chosen(cs: Seq<CandidateView>) -> Seq<CandidateView> {
    cs.map_values(|c: CandidateView| CandidateView { selected: false, ..c })
}

/// The paths of the chosen unregistered projects, in order.
pub open spec fn chosen_paths(cs: Seq<CandidateView>) -> Seq<Seq<char>>
    decreases cs.len(),
{
    if cs.len() == 0 {
        seq![]
    } else {
        let rest = chosen_paths(cs.drop_last());
        if cs.last().selected && !cs.last().registered {
            rest.push(cs.last().path)
        } else {
            rest
        }
    }
}

/// The scan results become `cs` at cursor `k`, nothing else changes.
pub open spec fn scan_shown(s0: Dashboard, root: String, cs: Seq<CandidateView>, k: usize, s1: Dashboard) -> bool {
    &&& s1.screen matches Screen::ScanResults { root: r1, candidates: c1, cursor: k1 } && r1 == root
        && candidate_views(c1@) == cs && k1 == k
    &&& Dashboard { screen: s0.screen, ..s1 } == s0
}

/// A key on the scan results: move, choose, choose all or none, register
/// the chosen ones, or leave.
pub open spec fn scan_key_step(s0: Dashboard, key: KeyPress, s1: Dashboard, r: Seq<Action>) -> bool {
    match s0.screen {
        Screen::ScanResults { root, candidates, cursor } => {
            let cv = candidate_views(candidates@);
            let last: usize = if cv.len() > 0 {
                (cv.len() - 1) as usize
            } else {
                0
            };
            match key.code {
                Key::Esc => workflow_cancelled(s0, s1) && r.len() == 0,
                Key::Up | Key::Char('k') => scan_shown(s0, root, cv, step_down(cursor), s1) && r.len()
                    == 0,
                Key::Down | Key::Char('j') => scan_shown(s0, root, cv, step_up(cursor, last), s1)
                    && r.len() == 0,
                Key::Char(' ') => scan_shown(s0, root, toggled(cv, cursor as int), cursor, s1)
                    && r.len() == 0,
                Key::Char('a') => scan_shown(s0, root, all_chosen(cv), cursor, s1) && r.len() == 0,
                Key::Char('c') => scan_shown(s0, root, none_chosen(cv), cursor, s1) && r.len() == 0,
                Key::Enter => exists|paths: Seq<String>|
                    #[trigger] imports_queued(s0, paths, s1, r) && texts_of(paths) == chosen_paths(cv),
                _ => s1 == s0 && r.len() == 0,
            }
        },
        _ => s1 == s0 && r.len() == 0,
    }
}

/// A key on the dev-shell choice: move, validate the chosen shell, or skip
/// the project.
pub open spec fn shell_key_step(s0: Dashboard, key: KeyPress, s1: Dashboard, r: Seq<Action>) -> bool {
    match s0.screen {
        Screen::ShellChoice { path, shells, selected } => {
            let last: usize = if shells@.len() > 0 {
                (shells@.len() - 1) as usize
            } else {
                0
            };
            match key.code {
                Key::Esc => import_skipped(s0, path, s1, r),
                Key::Up | Key::Char('k') => s1 == Dashboard {
                    screen: Screen::ShellChoice { path, shells, selected: step_down(selected) },
                    ..s0
                } && r.len() == 0,
                Key::Down | Key::Char('j') => s1 == Dashboard {
                    screen: Screen::ShellChoice { path, shells, selected: step_up(selected, last) },
                    ..s0
                } && r.len() == 0,
                Key::Enter => if selected < shells@.len() {
                    shell_validation_started(
                        s0,
                        path,
                        shells@[selected as int],
                        ValidationPurpose::Import,
                        s1,
                        r,
                    )
                } else {
                    s1 == s0 && r.len() == 0
                },
                _ => s1 == s0 && r.len() == 0,
            }
        },
        _ => s1 == s0 && r.len() == 0,
    }
}

/// A key at the unusable-flake prompt: choose between keeping the flake
/// (skipping the project) and replacing it.
pub open spec fn invalid_flake_key_step(s0: Dashboard, key: KeyPress, s1: Dashboard, r: Seq<Action>) -> bool {
    match s0.screen {
        Screen::InvalidFlake { path, diagnostic, selected } => match key.code {
            Key::Esc => import_skipped(s0, path, s1, r),
            Key::Left | Key::Up | Key::BackTab => s1 == Dashboard {
                screen: Screen::InvalidFlake { path, diagnostic, selected: step_down(selected) },
                ..s0
            } && r.len() == 0,
            Key::Right | Key::Down | Key::Tab => s1 == Dashboard {
                screen: Screen::InvalidFlake { path, diagnostic, selected: step_up(selected, 1) },
                ..s0
            } && r.len() == 0,
            Key::Enter => if selected == 1 {
                s1 == s0 && r.len() == 1 && r[0] == (Action::ReplaceFlake { path })
            } else {
                import_skipped(s0, path, s1, r)
            },
            _ => s1 == s0 && r.len() == 0,
        },
        _ => s1 == s0 && r.len() == 0,
    }
}

impl Dashboard {
    /// Handles a key in the add menu; `current_dir` is the working
    /// directory.
    pub fn add_menu_key(&mut self, key: KeyPress, current_dir: Option<String>)
        ensures
            add_menu_key_step(*old(self), key, current_dir, *final(self)),
    {
        let selected = match &self.screen {
            Screen::AddMenu { selected } => *selected,
            _ => return,
        };
        match key.code {
            Key::Esc => {
                self.screen = Screen::Dashboard;
            },
            Key::Up | Key::Char('k') => {
                self.screen = Screen::AddMenu {
                    selected: if selected > 0 {
                        selected - 1
                    } else {
                        0
                    },
                };
            },
            Key::Down | Key::Char('j') => {
                self.screen = Screen::AddMenu {
                    selected: if selected < 1 {
                        selected + 1
                    } else {
                        1
                    },
                };
            },
            Key::Enter => {
                let purpose = if selected == 0 {
                    PathPurpose::Add
                } else {
                    PathPurpose::Scan
                };
                self.path_input(purpose, current_dir);
            },
            _ => {},
        }
    }

    /// Handles a key at the path prompt; `home` is the home directory.
    pub fn path_key(&mut self, key: KeyPress, home: &Option<String>) -> (r: Vec<Action>)
        ensures
            path_key_step(*old(self), key, *home, *final(self), r@),
    {
        let (purpose, input) = match &self.screen {
            Screen::PathInput { purpose, input } => (*purpose, input.clone()),
            _ => return Vec::new(),
        };
        match key.code {
            Key::Esc => {
                self.screen = Screen::Dashboard;
                Vec::new()
            },
            Key::Enter => {
                let path = expand_tilde(input.as_str(), home);
                match purpose {
                    PathPurpose::Add => self.queue_imports(vec![path]),
                    PathPurpose::Scan => vec![Action::Scan { root: path }],
                }
            },
            _ => {
                let mut text = input;
                edit_text(&mut text, key);
                self.screen = Screen::PathInput { purpose, input: text };
                Vec::new()
            },
        }
    }

    /// Handles a key on the scan results.
    pub fn scan_key(&mut self, key: KeyPress) -> (r: Vec<Action>)
        ensures
            scan_key_step(*old(self), key, *final(self), r@),
    {
        let (root, cursor, count) = match &self.screen {
            Screen::ScanResults { root, candidates, cursor } => (
                root.clone(),
                *cursor,
                candidates.len(),
            ),
            _ => return Vec::new(),
        };
        let last: usize = if count > 0 {
            count - 1
        } else {
            0
        };
        match key.code {
            Key::Esc => {
                self.cancel_workflow();
                Vec::new()
            },
            Key::Up | Key::Char('k') => {
                self.set_scan(root, 0, if cursor > 0 {
                    cursor - 1
                } else {
                    0
                });
                Vec::new()
            },
            Key::Down | Key::Char('j') => {
                self.set_scan(root, 0, if cursor < last {
                    cursor + 1
                } else {
                    last
                });
                Vec::new()
            },
            Key::Char(' ') => {
                self.set_scan(root, 1, cursor);
                Vec::new()
            },
            Key::Char('a') => {
                self.set_scan(root, 2, cursor);
                Vec::new()
            },
            Key::Char('c') => {
                self.set_scan(root, 3, cursor);
                Vec::new()
            },
            Key::Enter => {
                let paths = self.chosen_scan_paths();
                self.queue_imports(paths)
            },
            _ => Vec::new(),
        }
    }

    /// The paths of the chosen unregistered scan results.
    fn chosen_scan_paths(&self) -> (r: Vec<String>)
        requires
            self.screen is ScanResults,
        ensures
            texts_of(r@) == chosen_paths(candidate_views(self.screen->candidates@)),
    {
        let candidates = match &self.screen {
            Screen::ScanResults { candidates, .. } => candidates,
            _ => return Vec::new(),
        };
        let ghost cv = candidate_views(candidates@);
        let mut out: Vec<String> = Vec::new();
        let mut i: usize = 0;
        while i < candidates.len()
            invariant
                i <= candidates.len(),
                cv == candidate_views(candidates@),
                texts_of(out@) == chosen_paths(cv.take(i as int)),
            decreases candidates.len() - i,
        {
            assert(cv.take(i + 1).drop_last() =~= cv.take(i as int));
            assert(cv.take(i + 1).last() == candidates@[i as int]@);
            if candidates[i].selected && !candidates[i].registered {
                let ghost before = out@;
                out.push(candidates[i].path.clone());
                assert(texts_of(out@) =~= texts_of(before).push(candidates@[i as int].path@));
            }
            i += 1;
        }
        assert(cv.take(candidates.len() as int) =~= cv);
        out
    }

    /// Shows the scan results of `root` at `cursor`, after `change`: 0
    /// keeps the choices, 1 flips the one at the cursor, 2 chooses every
    /// unregistered project, 3 clears every choice.
    fn set_scan(&mut self, root: String, change: u8, cursor: usize)
        requires
            old(self).screen matches Screen::ScanResults { root: r, .. } && r == root,
            change <= 3,
        ensures
            ({
                let cv = candidate_views(old(self).screen->candidates@);
                let k = old(self).screen->cursor;
                scan_shown(
                    *old(self),
                    root,
                    if change == 0 {
                        cv
                    } else if change == 1 {
                        toggled(cv, k as int)
                    } else if change == 2 {
                        all_chosen(cv)
                    } else {
                        none_chosen(cv)
                    },
                    cursor,
                    *final(self),
                )
            }),
    {
        let (candidates, k) = match &self.screen {
            Screen::ScanResults { candidates, cursor, .. } => (candidates, *cursor),
            _ => return,
        };
        let ghost cv = candidate_views(candidates@);
        let mut out: Vec<ScanCandidate> = Vec::new();
        let mut i: usize = 0;
        while i < candidates.len()
            invariant
                i <= candidates.len(),
                cv == candidate_views(candidates@),
                change <= 3,
                candidate_views(out@) == (if change == 0 {
                    cv
                } else if change == 1 {
                    toggled(cv, k as int)
                } else if change == 2 {
                    all_chosen(cv)
                } else {
                    none_chosen(cv)
                }).take(i as int),
            decreases candidates.len() - i,
        {
            let c = &candidates[i];
            let chosen = if change == 0 {
                c.selected
            } else if change == 1 {
                if i == k && !c.registered {
                    !c.selected
                } else {
                    c.selected
                }
            } else if change == 2 {
                if c.registered {
                    c.selected
                } else {
                    true
                }
            } else {
                false
            };
            let ghost before = out@;
            out.push(
                ScanCandidate {
                    path: c.path.clone(),
                    metadata: c.metadata.duplicate(),
                    has_flake: c.has_flake,
                    selected: chosen,
                    registered: c.registered,
                },
            );
            proof {
                let target = if change == 0 {
                    cv
                } else if change == 1 {
                    toggled(cv, k as int)
                } else if change == 2 {
                    all_chosen(cv)
                } else {
                    none_chosen(cv)
                };
                assert(cv[i as int] == c@);
                assert(target.take(i + 1) =~= target.take(i as int).push(target[i as int]));
                assert(candidate_views(out@) =~= candidate_views(before).push(out@[i as int]@));
            }
            i += 1;
        }
        proof {
            let target = if change == 0 {
                cv
            } else if change == 1 {
                toggled(cv, k as int)
            } else if change == 2 {
                all_chosen(cv)
            } else {
                none_chosen(cv)
            };
            assert(target.take(candidates.len() as int) =~= target);
        }
        self.screen = Screen::ScanResults { root, candidates: out, cursor };
    }

    /// Handles a key on the dev-shell choice.
    pub fn shell_key(&mut self, key: KeyPress) -> (r: Vec<Action>)
        ensures
            shell_key_step(*old(self), key, *final(self), r@),
    {
        let (path, count, selected) = match &self.screen {
            Screen::ShellChoice { path, shells, selected } => (path.clone(), shells.len(), *selected),
            _ => return Vec::new(),
        };
        let last: usize = if count > 0 {
            count - 1
        } else {
            0
        };
        match key.code {
            Key::Esc => self.skip_import(path),
            Key::Up | Key::Char('k') => {
                match &mut self.screen {
                    Screen::ShellChoice { selected: s, .. } => {
                        *s = if selected > 0 {
                            selected - 1
                        } else {
                            0
                        };
                    },
                    _ => {},
                }
                Vec::new()
            },
            Key::Down | Key::Char('j') => {
                match &mut self.screen {
                    Screen::ShellChoice { selected: s, .. } => {
                        *s = if selected < last {
                            selected + 1
                        } else {
                            last
                        };
                    },
                    _ => {},
                }
                Vec::new()
            },
            Key::Enter => {
                if selected < count {
                    let shell = match &self.screen {
                        Screen::ShellChoice { shells, .. } => shells[selected].clone(),
                        _ => return Vec::new(),
                    };
                    self.validate_shell(path, shell)
                } else {
                    Vec::new()
                }
            },
            _ => Vec::new(),
        }
    }

    /// Handles a key at the unusable-flake prompt.
    pub fn invalid_flake_key(&mut self, key: KeyPress) -> (r: Vec<Action>)
        ensures
            invalid_flake_key_step(*old(self), key, *final(self), r@),
    {
        let (path, selected) = match &self.screen {
            Screen::InvalidFlake { path, selected, .. } => (path.clone(), *selected),
            _ => return Vec::new(),
        };
        match key.code {
            Key::Esc => self.skip_import(path),
            Key::Left | Key::Up | Key::BackTab => {
                match &mut self.screen {
                    Screen::InvalidFlake { selected: s, .. } => {
                        *s = if selected > 0 {
                            selected - 1
                        } else {
                            0
                        };
                    },
                    _ => {},
                }
                Vec::new()
            },
            Key::Right | Key::Down | Key::Tab => {
                match &mut self.screen {
                    Screen::InvalidFlake { selected: s, .. } => {
                        *s = if selected < 1 {
                            selected + 1
                        } else {
                            1
                        };
                    },
                    _ => {},
                }
                Vec::new()
            },
            Key::Enter => {
                if selected == 1 {
                    vec![Action::ReplaceFlake { path }]
                } else {
                    self.skip_import(path)
                }
            },
            _ => Vec::new(),
        }
    }
}


/// The next of two fields.
pub open spec fn other_field(field: usize) -> usize {
    ((field + 1) % 2) as usize
}

/// A key on the flake form for an existing project: move between its two
/// fields, edit them, confirm from the second one, or skip the project.
pub open spec fn existing_form_key_step(s0: Dashboard, key: KeyPress, s1: Dashboard, r: Seq<Action>) -> bool {
    match s0.screen {
        Screen::ExistingForm(form) => match key.code {
            Key::Esc => import_skipped(s0, form.path, s1, r),
            Key::Tab | Key::Down | Key::BackTab | Key::Up => s1 == Dashboard {
                screen: Screen::ExistingForm(ExistingForm { field: other_field(form.field), ..form }),
                ..s0
            } && r.len() == 0,
            Key::Enter => if form.field == 1 {
                exists|res: Result<(), FormError>| #[trigger]
                    existing_confirmed(s0, form, s1, res) && r.len() == 0
            } else {
                s1 == Dashboard {
                    screen: Screen::ExistingForm(ExistingForm { field: 1, ..form }),
                    ..s0
                } && r.len() == 0
            },
            _ => {
                &&& s1.screen matches Screen::ExistingForm(f) && f.path == form.path && f.field
                    == form.field && f.replace_existing == form.replace_existing && if form.field
                    == 0 {
                    f.version@ == edited(form.version@, key) && f.tools == form.tools
                } else {
                    f.tools@ == edited(form.tools@, key) && f.version == form.version
                }
                &&& Dashboard { screen: s0.screen, ..s1 } == s0
                &&& r.len() == 0
            },
        },
        _ => s1 == s0 && r.len() == 0,
    }
}

/// A key on the new-project form: move between its six fields (name,
/// parent, version, renderer, Git metadata, tools), choose the renderer,
/// toggle Git metadata, edit the text fields, confirm from the last one, or
/// leave.
pub open spec fn create_form_key_step(s0: Dashboard, key: KeyPress, s1: Dashboard, r: Seq<Action>) -> bool {
    match s0.screen {
        Screen::CreateForm(form) => {
            let shown = |f: CreateForm| Dashboard { screen: Screen::CreateForm(f), ..s0 };
            let choices = renderer_choices(form.version@).len();
            let last: usize = if choices > 0 {
                (choices - 1) as usize
            } else {
                0
            };
            if key.code == Key::Esc {
                s1 == Dashboard { screen: Screen::Dashboard, ..s0 } && r.len() == 0
            } else if key.code == Key::Tab || key.code == Key::Down {
                s1 == shown(CreateForm { field: ((form.field + 1) % 6) as usize, ..form }) && r.len()
                    == 0
            } else if key.code == Key::BackTab || key.code == Key::Up {
                s1 == shown(CreateForm { field: ((form.field + 5) % 6) as usize, ..form }) && r.len()
                    == 0
            } else if key.code == Key::Left && form.field == 3 {
                s1 == shown(CreateForm { renderer_index: step_down(form.renderer_index), ..form })
                    && r.len() == 0
            } else if key.code == Key::Right && form.field == 3 {
                s1 == shown(CreateForm { renderer_index: step_up(form.renderer_index, last), ..form })
                    && r.len() == 0
            } else if key.code == Key::Char(' ') && form.field == 4 {
                s1 == shown(CreateForm { git_metadata: !form.git_metadata, ..form }) && r.len() == 0
            } else if key.code == Key::Enter && form.field == 5 {
                exists|res: Result<Vec<Action>, FormError>| #[trigger]
                    create_asked(s0, form, s1, res) && r == actions_of(res)
            } else if key.code == Key::Enter {
                s1 == shown(CreateForm { field: step_up(form.field, 5), ..form }) && r.len() == 0
            } else {
                &&& r.len() == 0
                &&& Dashboard { screen: s0.screen, ..s1 } == s0
                &&& s1.screen matches Screen::CreateForm(f) && f.field == form.field
                    && f.git_metadata == form.git_metadata && (if form.field == 0 {
                    f.name@ == edited(form.name@, key) && CreateForm { name: form.name, ..f } == form
                } else if form.field == 1 {
                    f.parent@ == edited(form.parent@, key) && CreateForm { parent: form.parent, ..f }
                        == form
                } else if form.field == 2 {
                    f.version@ == edited(form.version@, key) && f.renderer_index == 0 && CreateForm {
                        version: form.version,
                        renderer_index: form.renderer_index,
                        ..f
                    } == form
                } else if form.field == 5 {
                    f.tools@ == edited(form.tools@, key) && CreateForm { tools: form.tools, ..f }
                        == form
                } else {
                    f == form
                })
            }
        },
        _ => s1 == s0 && r.len() == 0,
    }
}

/// A key on the settings form: move between the directory and the `.envrc`
/// switch, edit the directory, toggle the switch, save from the switch, or
/// leave.
pub open spec fn settings_key_step(s0: Dashboard, key: KeyPress, s1: Dashboard, r: Seq<Action>) -> bool {
    match s0.screen {
        Screen::Settings { directory, field, create_envrc } => {
            if key.code == Key::Esc {
                s1 == Dashboard { screen: Screen::Dashboard, ..s0 } && r.len() == 0
            } else if key.code == Key::Tab || key.code == Key::Down || key.code == Key::Up
                || key.code == Key::BackTab {
                s1 == Dashboard {
                    screen: Screen::Settings { directory, field: other_field(field), create_envrc },
                    ..s0
                } && r.len() == 0
            } else if key.code == Key::Char(' ') && field == 1 {
                s1 == Dashboard {
                    screen: Screen::Settings { directory, field, create_envrc: !create_envrc },
                    ..s0
                } && r.len() == 0
            } else if key.code == Key::Enter && field == 1 {
                settings_save_asked(s0, directory, create_envrc, s1, r)
            } else if key.code == Key::Enter {
                s1 == Dashboard {
                    screen: Screen::Settings { directory, field: 1, create_envrc },
                    ..s0
                } && r.len() == 0
            } else if field == 0 {
                &&& s1.screen matches Screen::Settings { directory: d, field: f, create_envrc: c }
                    && d@ == edited(directory@, key) && f == field && c == create_envrc
                &&& Dashboard { screen: s0.screen, ..s1 } == s0
                &&& r.len() == 0
            } else {
                s1 == s0 && r.len() == 0
            }
        },
        _ => s1 == s0 && r.len() == 0,
    }
}

/// A key on a confirmation: `y` or Enter carries it out, `n` or Esc
/// declines it.
pub open spec fn confirm_key_step(s0: Dashboard, key: KeyPress, s1: Dashboard, r: Seq<Action>) -> bool {
    match s0.screen {
        Screen::Confirm { action, .. } => if key.code == Key::Char('y') || key.code == Key::Enter {
            confirmed(s0, action, s1, r)
        } else if key.code == Key::Char('n') || key.code == Key::Esc {
            confirm_declined(s0, action, s1, r)
        } else {
            s1 == s0 && r.len() == 0
        },
        _ => s1 == s0 && r.len() == 0,
    }
}

/// A key on the help screen: Esc, `q` or `?` closes it.
pub open spec fn help_key_step(s0: Dashboard, key: KeyPress, s1: Dashboard) -> bool {
    if key.code == Key::Esc || key.code == Key::Char('q') || key.code == Key::Char('?') {
        s1 == Dashboard { screen: Screen::Dashboard, ..s0 }
    } else {
        s1 == s0
    }
}

/// What a key does, whatever the screen.
pub open spec fn key_step(
    s0: Dashboard,
    key: KeyPress,
    env: Surroundings,
    s1: Dashboard,
    r: Seq<Action>,
) -> bool {
    match s0.screen {
        Screen::Dashboard => if s0.filtering {
            filter_key_step(s0, key, s1) && r.len() == 0
        } else {
            list_key_step(s0, key, env, s1, r)
        },
        Screen::AddMenu { .. } => add_menu_key_step(s0, key, env.current_dir, s1) && r.len() == 0,
        Screen::PathInput { .. } => path_key_step(s0, key, env.home, s1, r),
        Screen::ScanResults { .. } => scan_key_step(s0, key, s1, r),
        Screen::ShellChoice { .. } => shell_key_step(s0, key, s1, r),
        Screen::InvalidFlake { .. } => invalid_flake_key_step(s0, key, s1, r),
        Screen::ExistingForm(_) => existing_form_key_step(s0, key, s1, r),
        Screen::CreateForm(_) => create_form_key_step(s0, key, s1, r),
        Screen::Settings { .. } => settings_key_step(s0, key, s1, r),
        Screen::Confirm { .. } => confirm_key_step(s0, key, s1, r),
        Screen::Help => help_key_step(s0, key, s1) && r.len() == 0,
        Screen::Busy { .. } => s1 == s0 && r.len() == 0,
    }
}

fn copy_existing_form(f: &ExistingForm) -> (r: ExistingForm)
    ensures
        r == *f,
{
    ExistingForm {
        path: f.path.clone(),
        version: f.version.clone(),
        tools: f.tools.clone(),
        field: f.field,
        replace_existing: f.replace_existing,
    }
}

fn copy_create_form(f: &CreateForm) -> (r: CreateForm)
    ensures
        r == *f,
{
    CreateForm {
        name: f.name.clone(),
        parent: f.parent.clone(),
        version: f.version.clone(),
        renderer_index: f.renderer_index,
        git_metadata: f.git_metadata,
        tools: f.tools.clone(),
        field: f.field,
    }
}

impl Dashboard {
    /// Handles a key on the flake form for an existing project.
    pub fn existing_form_key(&mut self, key: KeyPress) -> (r: Vec<Action>)
        ensures
            existing_form_key_step(*old(self), key, *final(self), r@),
    {
        let form = match &self.screen {
            Screen::ExistingForm(f) => copy_existing_form(f),
            _ => return Vec::new(),
        };
        match key.code {
            Key::Esc => self.skip_import(form.path),
            Key::Tab | Key::Down | Key::BackTab | Key::Up => {
                let field = 1 - form.field % 2;
                self.screen = Screen::ExistingForm(ExistingForm { field, ..form });
                Vec::new()
            },
            Key::Enter => {
                if form.field == 1 {
                    let _ = self.confirm_existing(form);
                } else {
                    self.screen = Screen::ExistingForm(ExistingForm { field: 1, ..form });
                }
                Vec::new()
            },
            _ => {
                let mut form = form;
                if form.field == 0 {
                    edit_text(&mut form.version, key);
                } else {
                    edit_text(&mut form.tools, key);
                }
                self.screen = Screen::ExistingForm(form);
                Vec::new()
            },
        }
    }

    /// Handles a key on the new-project form.
    pub fn create_form_key(&mut self, key: KeyPress) -> (r: Vec<Action>)
        ensures
            create_form_key_step(*old(self), key, *final(self), r@),
    {
        let form = match &self.screen {
            Screen::CreateForm(f) => copy_create_form(f),
            _ => return Vec::new(),
        };
        let choices = Renderer::choices_for(form.version.as_str()).len();
        let last: usize = if choices > 0 {
            choices - 1
        } else {
            0
        };
        let code = key.code;
        if code == Key::Esc {
            self.screen = Screen::Dashboard;
            return Vec::new();
        }
        let mut form = form;
        if code == Key::Tab || code == Key::Down {
            form.field = (form.field % 6 + 1) % 6;
        } else if code == Key::BackTab || code == Key::Up {
            form.field = (form.field % 6 + 5) % 6;
        } else if code == Key::Left && form.field == 3 {
            form.renderer_index = if form.renderer_index > 0 {
                form.renderer_index - 1
            } else {
                0
            };
        } else if code == Key::Right && form.field == 3 {
            form.renderer_index = if form.renderer_index < last {
                form.renderer_index + 1
            } else {
                last
            };
        } else if code == Key::Char(' ') && form.field == 4 {
            form.git_metadata = !form.git_metadata;
        } else if code == Key::Enter && form.field == 5 {
            let res = self.confirm_create(form);
            return match res {
                Ok(a) => a,
                Err(_) => Vec::new(),
            };
        } else if code == Key::Enter {
            form.field = if form.field < 5 {
                form.field + 1
            } else {
                5
            };
        } else if form.field == 0 {
            edit_text(&mut form.name, key);
        } else if form.field == 1 {
            edit_text(&mut form.parent, key);
        } else if form.field == 2 {
            edit_text(&mut form.version, key);
            form.renderer_index = 0;
        } else if form.field == 5 {
            edit_text(&mut form.tools, key);
        }
        self.screen = Screen::CreateForm(form);
        Vec::new()
    }

    /// Handles a key on the settings form.
    pub fn settings_key(&mut self, key: KeyPress) -> (r: Vec<Action>)
        ensures
            settings_key_step(*old(self), key, *final(self), r@),
    {
        let (directory, field, create_envrc) = match &self.screen {
            Screen::Settings { directory, field, create_envrc } => (
                directory.clone(),
                *field,
                *create_envrc,
            ),
            _ => return Vec::new(),
        };
        let code = key.code;
        if code == Key::Esc {
            self.screen = Screen::Dashboard;
            Vec::new()
        } else if code == Key::Tab || code == Key::Down || code == Key::Up || code == Key::BackTab {
            self.screen = Screen::Settings { directory, field: 1 - field % 2, create_envrc };
            Vec::new()
        } else if code == Key::Char(' ') && field == 1 {
            self.screen = Screen::Settings { directory, field, create_envrc: !create_envrc };
            Vec::new()
        } else if code == Key::Enter && field == 1 {
            self.save_settings(directory, create_envrc)
        } else if code == Key::Enter {
            self.screen = Screen::Settings { directory, field: 1, create_envrc };
            Vec::new()
        } else if field == 0 {
            let mut directory = directory;
            edit_text(&mut directory, key);
            self.screen = Screen::Settings { directory, field, create_envrc };
            Vec::new()
        } else {
            Vec::new()
        }
    }

    /// Handles a key on a confirmation.
    pub fn confirm_key(&mut self, key: KeyPress) -> (r: Vec<Action>)
        ensures
            confirm_key_step(*old(self), key, *final(self), r@),
    {
        match &self.screen {
            Screen::Confirm { .. } => {},
            _ => return Vec::new(),
        }
        let code = key.code;
        if code == Key::Char('y') || code == Key::Enter {
            let mut taken = Screen::Dashboard;
            std::mem::swap(&mut taken, &mut self.screen);
            match taken {
                Screen::Confirm { action, .. } => self.execute_confirm(action),
                _ => Vec::new(),
            }
        } else if code == Key::Char('n') || code == Key::Esc {
            let skipped = match &self.screen {
                Screen::Confirm { action: ConfirmAction::GenerateExisting { path, .. }, .. } => Some(
                    path.clone(),
                ),
                _ => None,
            };
            match skipped {
                Some(path) => self.skip_import(path),
                None => {
                    self.cancel_workflow();
                    Vec::new()
                },
            }
        } else {
            Vec::new()
        }
    }

    /// Handles a key: the screen shown decides what it does. `env` tells
    /// what the program knows of the machine at that moment.
    pub fn handle_key(&mut self, key: KeyPress, env: &Surroundings) -> (r: Vec<Action>)
        requires
            describes(*env, *old(self)),
        ensures
            key_step(*old(self), key, *env, *final(self), r@),
    {
        match self.screen {
            Screen::Dashboard => self.list_key(key, env),
            Screen::AddMenu { .. } => {
                self.add_menu_key(key, copy_text_option(&env.current_dir));
                Vec::new()
            },
            Screen::PathInput { .. } => self.path_key(key, &env.home),
            Screen::ScanResults { .. } => self.scan_key(key),
            Screen::ShellChoice { .. } => self.shell_key(key),
            Screen::InvalidFlake { .. } => self.invalid_flake_key(key),
            Screen::ExistingForm(_) => self.existing_form_key(key),
            Screen::CreateForm(_) => self.create_form_key(key),
            Screen::Settings { .. } => self.settings_key(key),
            Screen::Confirm { .. } => self.confirm_key(key),
            Screen::Help => {
                let code = key.code;
                if code == Key::Esc || code == Key::Char('q') || code == Key::Char('?') {
                    self.screen = Screen::Dashboard;
                }
                Vec::new()
            },
            Screen::Busy { .. } => Vec::new(),
        }
    }
}


/// The unusable-flake prompt defaults to keeping the flake: Enter on its
/// initial choice skips the project.
pub proof fn lemma_invalid_flake_defaults_to_skip(
    s0: Dashboard,
    key: KeyPress,
    s1: Dashboard,
    r: Seq<Action>,
)
    requires
        s0.screen matches Screen::InvalidFlake { selected, .. } && selected == 0,
        key.code == Key::Enter,
        invalid_flake_key_step(s0, key, s1, r),
    ensures
        import_skipped(s0, s0.screen->InvalidFlake_path, s1, r),
{
}


/// Moving through the list never leaves the shown cards: from a card that
/// is shown, the arrow, `j`, `k`, Home and End keys select a shown card
/// (the first one when none is shown).
pub proof fn lemma_list_moves_stay_on_cards(
    s0: Dashboard,
    key: KeyPress,
    env: Surroundings,
    s1: Dashboard,
    r: Seq<Action>,
)
    requires
        !s0.filtering,
        list_key_step(s0, key, env, s1, r),
        s0.selected <= last_card(s0, texts_of(env.names@)),
        key.code == Key::Down || key.code == Key::Up || key.code == Key::Home || key.code
            == Key::End || key.code == Key::Char('j') || key.code == Key::Char('k'),
    ensures
        s1.selected <= last_card(s0, texts_of(env.names@)),
        s1.state == s0.state,
        s1.filter == s0.filter,
{
}

/// A scan queues only projects that are chosen and not yet registered.
pub proof fn lemma_chosen_paths_are_unregistered(cs: Seq<CandidateView>)
    ensures
        forall|k: int|
            #![trigger chosen_paths(cs)[k]]
            0 <= k < chosen_paths(cs).len() ==> exists|j: int|
                0 <= j < cs.len() && (#[trigger] cs[j]).path == chosen_paths(cs)[k]
                    && cs[j].selected && !cs[j].registered,
    decreases cs.len(),
{
    if cs.len() > 0 {
        let rest = cs.drop_last();
        lemma_chosen_paths_are_unregistered(rest);
        assert forall|k: int|
            #![trigger chosen_paths(cs)[k]]
            0 <= k < chosen_paths(cs).len() implies exists|j: int|
            0 <= j < cs.len() && (#[trigger] cs[j]).path == chosen_paths(cs)[k] && cs[j].selected
                && !cs[j].registered by {
            if k < chosen_paths(rest).len() {
                let j = choose|j: int|
                    0 <= j < rest.len() && (#[trigger] rest[j]).path == chosen_paths(rest)[k]
                        && rest[j].selected && !rest[j].registered;
                assert(cs[j] == rest[j]);
            } else {
                assert(cs[cs.len() - 1] == cs.last());
            }
        }
    }
}

} // verus!
