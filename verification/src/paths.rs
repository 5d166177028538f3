//! Paths as text: joining them and where the program keeps its files.
use vstd::prelude::*;
use crate::text::to_chars;

verus! {

broadcast use vstd::string::group_string_axioms;

/// `rest` appended to the directory `base` as a path: an absolute `rest`
/// replaces `base`, and a separator is put between them when `base` is not
/// empty and does not end with one.
pub open spec fn path_joined(base: Seq<char>, rest: Seq<char>) -> Seq<char> {
    if rest.len() > 0 && rest[0] == '/' {
        rest
    } else if base.len() == 0 || base.last() == '/' {
        base + rest
    } else {
        base + "/"@ + rest
    }
}

/// Joins a path to a directory (`Path::join`).
pub fn join_path(base: &str, rest: &str) -> (r: String)
    ensures
        r@ == path_joined(base@, rest@),
{
    let b = to_chars(base);
    let t = to_chars(rest);
    if t.len() > 0 && t[0] == '/' {
        return rest.to_string();
    }
    let mut out = base.to_string();
    if !(b.len() == 0 || b[b.len() - 1] == '/') {
        out.append("/");
    }
    out.append(rest);
    proof {
        reveal_strlit("/");
    }
    out
}

/// Where the program keeps its registry, its release cache and the editor
/// logs.
#[derive(Debug, Clone)]
pub struct AppPaths {
    pub config_file: String,
    pub cache_dir: String,
    pub log_dir: String,
}

impl AppPaths {
    /// The paths inside the application's directories: the registry is
    /// `state.toml` in the configuration directory, and the logs are in
    /// `logs` under the state directory, or under the local data directory
    /// where there is no state directory.
    pub fn from_directories(
        config_dir: &str,
        cache_dir: &str,
        state_dir: Option<String>,
        data_local_dir: &str,
    ) -> (r: AppPaths)
        ensures
            r.config_file@ == path_joined(config_dir@, "state.toml"@),
            r.cache_dir@ == cache_dir@,
            r.log_dir@ == path_joined(
                match state_dir {
                    Some(s) => s@,
                    None => data_local_dir@,
                },
                "logs"@,
            ),
    {
        let logs_base = match &state_dir {
            Some(s) => s.as_str(),
            None => data_local_dir,
        };
        AppPaths {
            config_file: join_path(config_dir, "state.toml"),
            cache_dir: cache_dir.to_string(),
            log_dir: join_path(logs_base, "logs"),
        }
    }
}

} // verus!
