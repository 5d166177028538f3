//! Which editor logs are removed before a new launch, so that the newest
//! ones are kept.
use vstd::prelude::*;
use crate::order::{is_arrangement, lemma_sorted_arrangement_unique, sorted_by_key, stable_order};
use crate::text::{chars_ends_with, ends_with, to_chars};

verus! {

broadcast use vstd::string::group_string_axioms;

/// How many logs a project keeps, the new one included.
pub const KEPT_LOGS: usize = 5;

/// A file name whose extension is `log` (it has a stem before `.log`).
pub open spec fn is_log_name(name: Seq<char>) -> bool {
    ends_with(name, ".log"@) && name.len() > 4
}

pub fn is_log_file(name: &str) -> (r: bool)
    ensures
        r == is_log_name(name@),
{
    let chars = to_chars(name);
    let suffix = to_chars(".log");
    proof {
        reveal_strlit(".log");
    }
    chars_ends_with(&chars, &suffix) && chars.len() > 4
}

/// The log files among the names, in the given order.
pub open spec fn log_names(names: Seq<Seq<char>>) -> Seq<Seq<char>>
    decreases names.len(),
{
    if names.len() == 0 {
        seq![]
    } else if is_log_name(names.last()) {
        log_names(names.drop_last()).push(names.last())
    } else {
        log_names(names.drop_last())
    }
}

/// How many of `count` logs go so that `keep - 1` stay, making room for one
/// more.
pub open spec fn removal_count(count: int, keep: int) -> int {
    let room = if keep > 0 {
        keep - 1
    } else {
        0
    };
    if count > room {
        count - room
    } else {
        0
    }
}

/// `removed` is the oldest logs (smallest names, which start with their
/// time stamp), as many as `removal_count` says.
pub open spec fn is_rotation(names: Seq<Seq<char>>, keep: int, removed: Seq<Seq<char>>) -> bool {
    let logs = log_names(names);
    exists|order: Seq<usize>|
        {
            &&& is_arrangement(order, logs.len() as int)
            &&& sorted_by_key(order, Seq::new(logs.len(), |k: int| 0i128), logs)
            &&& removed == order.take(removal_count(logs.len() as int, keep)).map_values(
                |k: usize| logs[k as int],
            )
        }
}

/// Which logs go is fully determined by the names and how many to keep.
pub proof fn lemma_rotation_unique(names: Seq<Seq<char>>, keep: int, r1: Seq<Seq<char>>, r2: Seq<Seq<char>>)
    requires
        is_rotation(names, keep, r1),
        is_rotation(names, keep, r2),
    ensures
        r1 == r2,
{
    let logs = log_names(names);
    let ranks = Seq::new(logs.len(), |k: int| 0i128);
    let a = choose|order: Seq<usize>|
        {
            &&& is_arrangement(order, logs.len() as int)
            &&& sorted_by_key(order, ranks, logs)
            &&& r1 == order.take(removal_count(logs.len() as int, keep)).map_values(
                |k: usize| logs[k as int],
            )
        };
    let b = choose|order: Seq<usize>|
        {
            &&& is_arrangement(order, logs.len() as int)
            &&& sorted_by_key(order, ranks, logs)
            &&& r2 == order.take(removal_count(logs.len() as int, keep)).map_values(
                |k: usize| logs[k as int],
            )
        };
    lemma_sorted_arrangement_unique(a, b, ranks, logs, logs.len() as int);
}

/// The names of the log files in a project's log directory that go before
/// a new log is written, so that `keep` logs remain afterwards.
pub fn logs_to_remove(names: &Vec<String>, keep: usize) -> (r: Vec<String>)
    ensures
        is_rotation(names@.map_values(|n: String| n@), keep as int, r@.map_values(|n: String| n@)),
{
    let ghost nv = names@.map_values(|n: String| n@);
    let mut logs: Vec<String> = Vec::new();
    let mut i: usize = 0;
    while i < names.len()
        invariant
            i <= names.len(),
            nv == names@.map_values(|n: String| n@),
            logs@.map_values(|n: String| n@) == log_names(nv.take(i as int)),
        decreases names.len() - i,
    {
        assert(nv.take(i + 1).drop_last() =~= nv.take(i as int));
        assert(nv.take(i + 1).last() == names@[i as int]@);
        if is_log_file(names[i].as_str()) {
            let ghost before = logs@;
            logs.push(names[i].clone());
            assert(logs@.map_values(|n: String| n@) =~= before.map_values(|n: String| n@).push(
                names@[i as int]@,
            ));
        }
        i += 1;
    }
    assert(nv.take(names.len() as int) =~= nv);
    let ghost lv = logs@.map_values(|n: String| n@);
    let mut ranks: Vec<i128> = Vec::new();
    let mut texts: Vec<Vec<char>> = Vec::new();
    let mut j: usize = 0;
    while j < logs.len()
        invariant
            j <= logs.len(),
            lv == logs@.map_values(|n: String| n@),
            ranks.len() == j,
            texts.len() == j,
            forall|k: int| 0 <= k < j ==> #[trigger] ranks@[k] == 0,
            forall|k: int| 0 <= k < j ==> #[trigger] texts@[k]@ == lv[k],
        decreases logs.len() - j,
    {
        ranks.push(0);
        texts.push(to_chars(logs[j].as_str()));
        j += 1;
    }
    let order = stable_order(&ranks, &texts);
    assert(ranks@ =~= Seq::new(lv.len(), |k: int| 0i128));
    assert(texts@.map_values(|t: Vec<char>| t@) =~= lv);
    let room = if keep > 0 {
        keep - 1
    } else {
        0
    };
    let count = if logs.len() > room {
        logs.len() - room
    } else {
        0
    };
    let mut out: Vec<String> = Vec::new();
    let mut k: usize = 0;
    while k < count
        invariant
            k <= count <= order.len(),
            order.len() == logs.len(),
            is_arrangement(order@, logs.len() as int),
            lv == logs@.map_values(|n: String| n@),
            out@.map_values(|n: String| n@) == order@.take(k as int).map_values(
                |m: usize| lv[m as int],
            ),
        decreases count - k,
    {
        let m = order[k];
        let ghost before = out@;
        out.push(logs[m].clone());
        assert(order@.take(k + 1) =~= order@.take(k as int).push(m));
        assert(out@.map_values(|n: String| n@) =~= before.map_values(|n: String| n@).push(lv[m as int]));
        assert(out@.map_values(|n: String| n@) =~= order@.take(k + 1).map_values(|m: usize| lv[m as int]));
        k += 1;
    }
    out
}

/// After a rotation and one new log, a project holds at most `keep` logs.
pub proof fn lemma_rotation_keeps_at_most(count: int, keep: int)
    requires
        count >= 0,
        keep >= 1,
    ensures
        count - removal_count(count, keep) + 1 <= keep,
        removal_count(count, keep) <= count,
{
}

} // verus!
