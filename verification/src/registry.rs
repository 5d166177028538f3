//! The list of registered projects: registering, unregistering, the scan
//! results of a directory and the order of the dashboard's cards.
use vstd::prelude::*;
use crate::model::{ProjectMetadata, ProjectRecord, RecordView};
use crate::order::{
    is_arrangement, lemma_arrangement_covers, lemma_sorted_arrangement_unique,
    lemma_text_less_asymmetric, lemma_text_less_irreflexive, sorted_by_key, stable_order, text_less,
};
use crate::text::{chars_contain, contains_text, lowercase, to_chars, to_lowercase};

verus! {

broadcast use vstd::string::group_string_axioms;

pub open spec fn record_views(ps: Seq<ProjectRecord>) -> Seq<RecordView> {
    ps.map_values(|r: ProjectRecord| r@)
}

/// No two records share a path.
pub open spec fn paths_unique(ps: Seq<RecordView>) -> bool {
    forall|i: int, j: int| 0 <= i < j < ps.len() ==> ps[i].path != ps[j].path
}

pub open spec fn has_path(ps: Seq<RecordView>, path: Seq<char>) -> bool {
    exists|i: int| 0 <= i < ps.len() && (#[trigger] ps[i]).path == path
}

/// Whether a project directory is registered.
pub fn is_registered(projects: &Vec<ProjectRecord>, path: &String) -> (r: bool)
    ensures
        r == has_path(record_views(projects@), path@),
{
    let ghost pv = record_views(projects@);
    let mut i: usize = 0;
    while i < projects.len()
        invariant
            i <= projects.len(),
            pv == record_views(projects@),
            forall|k: int| 0 <= k < i ==> pv[k].path != path@,
        decreases projects.len() - i,
    {
        assert(pv[i as int] == projects@[i as int]@);
        if projects[i].path == *path {
            return true;
        }
        i += 1;
    }
    false
}

/// `ps` with `r` registered: a record with the same path is replaced, keeping
/// its identifier and last-opened time; otherwise `r` is appended.
pub open spec fn upserted(ps: Seq<RecordView>, r: RecordView) -> Seq<RecordView> {
    if has_path(ps, r.path) {
        let i = choose|i: int|
            0 <= i < ps.len() && (#[trigger] ps[i]).path == r.path && forall|k: int|
                0 <= k < i ==> (#[trigger] ps[k]).path != r.path;
        ps.update(i, RecordView { id: ps[i].id, last_opened_at: ps[i].last_opened_at, ..r })
    } else {
        ps.push(r)
    }
}

/// Registers `record`, replacing the registration of the same directory.
pub fn upsert(projects: &mut Vec<ProjectRecord>, record: ProjectRecord)
    ensures
        record_views(final(projects)@) == upserted(record_views(old(projects)@), record@),
{
    let ghost pv = record_views(projects@);
    let mut i: usize = 0;
    while i < projects.len()
        invariant
            i <= projects.len(),
            projects@ == old(projects)@,
            pv == record_views(projects@),
            forall|k: int| 0 <= k < i ==> (#[trigger] pv[k]).path != record@.path,
        decreases projects.len() - i,
    {
        assert(pv[i as int] == projects@[i as int]@);
        if projects[i].path == record.path {
            proof {
                let c = choose|c: int|
                    0 <= c < pv.len() && (#[trigger] pv[c]).path == record@.path && forall|k: int|
                        0 <= k < c ==> (#[trigger] pv[k]).path != record@.path;
                assert(pv[i as int].path == record@.path);
                if c > i {
                    assert(pv[i as int].path != record@.path);
                }
            }
            let id = projects[i].id;
            let last = projects[i].last_opened_at;
            let mut replacement = record;
            replacement.id = id;
            replacement.last_opened_at = last;
            projects.set(i, replacement);
            assert(record_views(projects@) =~= pv.update(
                i as int,
                RecordView { id: pv[i as int].id, last_opened_at: pv[i as int].last_opened_at, ..record@ },
            ));
            return;
        }
        i += 1;
    }
    projects.push(record);
    assert(record_views(projects@) =~= pv.push(record@));
}

/// Registering keeps directories unique.
pub proof fn lemma_upsert_keeps_paths_unique(ps: Seq<RecordView>, r: RecordView)
    requires
        paths_unique(ps),
    ensures
        paths_unique(upserted(ps, r)),
        has_path(upserted(ps, r), r.path),
{
    if has_path(ps, r.path) {
        let i = choose|i: int|
            0 <= i < ps.len() && (#[trigger] ps[i]).path == r.path && forall|k: int|
                0 <= k < i ==> (#[trigger] ps[k]).path != r.path;
        assert(exists|i: int|
            0 <= i < ps.len() && (#[trigger] ps[i]).path == r.path && forall|k: int|
                0 <= k < i ==> (#[trigger] ps[k]).path != r.path) by {
            let w = choose|w: int| 0 <= w < ps.len() && (#[trigger] ps[w]).path == r.path;
            assert(forall|k: int| 0 <= k < w ==> (#[trigger] ps[k]).path != r.path);
        }
        let u = upserted(ps, r);
        assert(u[i].path == r.path);
    } else {
        let u = upserted(ps, r);
        assert(u[ps.len() as int].path == r.path);
    }
}

/// The position of the first record whose identifier is `id`.
pub open spec fn first_with_id(ps: Seq<RecordView>, id: u128) -> int {
    choose|i: int|
        0 <= i < ps.len() && (#[trigger] ps[i]).id == id && forall|k: int|
            0 <= k < i ==> (#[trigger] ps[k]).id != id
}

/// `ps` without the first record whose identifier is `id`.
pub open spec fn unregistered(ps: Seq<RecordView>, id: u128) -> Seq<RecordView> {
    if exists|i: int| 0 <= i < ps.len() && (#[trigger] ps[i]).id == id {
        ps.remove(first_with_id(ps, id))
    } else {
        ps
    }
}

/// Removes the registration with identifier `id` and returns it; no project
/// file is touched.
#[verifier::spinoff_prover]
pub fn unregister(projects: &mut Vec<ProjectRecord>, id: u128) -> (r: Option<ProjectRecord>)
    ensures
        record_views(final(projects)@) == unregistered(record_views(old(projects)@), id),
        r is Some <==> exists|i: int|
            0 <= i < old(projects)@.len() && (#[trigger] old(projects)@[i]).id == id,
        r matches Some(x) ==> x.id == id && x@ == record_views(old(projects)@)[first_with_id(
            record_views(old(projects)@),
            id,
        )],
{
    let ghost pv = record_views(projects@);
    let mut i: usize = 0;
    while i < projects.len()
        invariant
            i <= projects.len(),
            projects@ == old(projects)@,
            pv == record_views(projects@),
            forall|k: int| 0 <= k < i ==> (#[trigger] pv[k]).id != id,
        decreases projects.len() - i,
    {
        assert(pv[i as int] == projects@[i as int]@);
        if projects[i].id == id {
            proof {
                let c = choose|c: int|
                    0 <= c < pv.len() && (#[trigger] pv[c]).id == id && forall|k: int|
                        0 <= k < c ==> (#[trigger] pv[k]).id != id;
                assert(pv[i as int].id == id);
                if c > i {
                    assert(pv[i as int].id != id);
                }
            }
            let removed = projects.remove(i);
            assert(record_views(projects@) =~= pv.remove(i as int));
            return Some(removed);
        }
        i += 1;
    }
    proof {
        assert forall|k: int| 0 <= k < old(projects)@.len() implies (#[trigger] old(
            projects,
        )@[k]).id != id by {
            assert(pv[k] == old(projects)@[k]@);
        }
    }
    None
}

/// Unregistering keeps directories unique and removes nothing else.
pub proof fn lemma_unregister_keeps_paths_unique(ps: Seq<RecordView>, id: u128)
    requires
        paths_unique(ps),
    ensures
        paths_unique(unregistered(ps, id)),
        unregistered(ps, id).len() + 1 == ps.len() || unregistered(ps, id) == ps,
{
    if exists|i: int| 0 <= i < ps.len() && (#[trigger] ps[i]).id == id {
        assert(exists|i: int|
            0 <= i < ps.len() && (#[trigger] ps[i]).id == id && forall|k: int|
                0 <= k < i ==> (#[trigger] ps[k]).id != id) by {
            let w = choose|w: int| 0 <= w < ps.len() && (#[trigger] ps[w]).id == id;
            lemma_least_id(ps, id, w);
        }
        let c = choose|i: int|
            0 <= i < ps.len() && (#[trigger] ps[i]).id == id && forall|k: int|
                0 <= k < i ==> (#[trigger] ps[k]).id != id;
        let u = ps.remove(c);
        assert forall|a: int, b: int| 0 <= a < b < u.len() implies u[a].path != u[b].path by {
            let oa = if a < c {
                a
            } else {
                a + 1
            };
            let ob = if b < c {
                b
            } else {
                b + 1
            };
            assert(u[a] == ps[oa]);
            assert(u[b] == ps[ob]);
        }
    }
}

proof fn lemma_least_id(ps: Seq<RecordView>, id: u128, w: int)
    requires
        0 <= w < ps.len(),
        ps[w].id == id,
    ensures
        exists|i: int|
            0 <= i < ps.len() && (#[trigger] ps[i]).id == id && forall|k: int|
                0 <= k < i ==> (#[trigger] ps[k]).id != id,
    decreases w,
{
    if forall|k: int| 0 <= k < w ==> (#[trigger] ps[k]).id != id {
    } else {
        let k = choose|k: int| 0 <= k < w && (#[trigger] ps[k]).id == id;
        lemma_least_id(ps, id, k);
    }
}

// ---------------------------------------------------------------------------
// The dashboard's cards

/// A card is shown when the filter is empty or its lowercased name or path
/// contains the lowercased filter.
pub open spec fn card_visible(r: RecordView, name: Seq<char>, needle: Seq<char>) -> bool {
    needle.len() == 0 || contains_text(lowercase(name), needle) || contains_text(
        lowercase(r.path),
        needle,
    )
}

/// The positions of the visible cards, in registry order.
pub open spec fn visible_positions(ps: Seq<RecordView>, names: Seq<Seq<char>>, needle: Seq<char>) -> Seq<
    usize,
>
    decreases ps.len(),
{
    if ps.len() == 0 {
        seq![]
    } else {
        let rest = visible_positions(ps.drop_last(), names, needle);
        if card_visible(ps.last(), names[ps.len() - 1], needle) {
            rest.push((ps.len() - 1) as usize)
        } else {
            rest
        }
    }
}

/// Recently opened projects first (never-opened ones last).
pub open spec fn card_rank(r: RecordView) -> i128 {
    match r.last_opened_at {
        Some(t) => (0 - t) as i128,
        None => i128::MAX,
    }
}

/// `result` lists the visible cards, most recently opened first, then by
/// lowercased name, ties kept in registry order.
pub open spec fn is_card_order(
    ps: Seq<RecordView>,
    names: Seq<Seq<char>>,
    needle: Seq<char>,
    result: Seq<usize>,
) -> bool {
    let f = visible_positions(ps, names, needle);
    exists|order: Seq<usize>|
        {
            &&& is_arrangement(order, f.len() as int)
            &&& sorted_by_key(
                order,
                Seq::new(f.len(), |k: int| card_rank(ps[f[k] as int])),
                Seq::new(f.len(), |k: int| lowercase(names[f[k] as int])),
            )
            &&& result == order.map_values(|k: usize| f[k as int])
        }
}

/// The order of the cards for a filter.
pub open spec fn card_order(ps: Seq<RecordView>, names: Seq<Seq<char>>, needle: Seq<char>) -> Seq<
    usize,
> {
    choose|r: Seq<usize>| is_card_order(ps, names, needle, r)
}

/// The card order is fully determined by the registry, the displayed names
/// and the filter.
pub proof fn lemma_card_order_unique(
    ps: Seq<RecordView>,
    names: Seq<Seq<char>>,
    needle: Seq<char>,
    r1: Seq<usize>,
    r2: Seq<usize>,
)
    requires
        is_card_order(ps, names, needle, r1),
        is_card_order(ps, names, needle, r2),
    ensures
        r1 == r2,
{
    let f = visible_positions(ps, names, needle);
    let ranks = Seq::new(f.len(), |k: int| card_rank(ps[f[k] as int]));
    let texts = Seq::new(f.len(), |k: int| lowercase(names[f[k] as int]));
    let o1 = choose|order: Seq<usize>|
        {
            &&& is_arrangement(order, f.len() as int)
            &&& sorted_by_key(order, ranks, texts)
            &&& r1 == order.map_values(|k: usize| f[k as int])
        };
    let o2 = choose|order: Seq<usize>|
        {
            &&& is_arrangement(order, f.len() as int)
            &&& sorted_by_key(order, ranks, texts)
            &&& r2 == order.map_values(|k: usize| f[k as int])
        };
    lemma_sorted_arrangement_unique(o1, o2, ranks, texts, f.len() as int);
}

/// The indices of the projects whose cards are shown for `filter`, in the
/// order they are shown; `names` holds each project's displayed name.
pub fn visible_indices(projects: &Vec<ProjectRecord>, names: &Vec<String>, filter: &str) -> (r: Vec<
    usize,
>)
    requires
        names.len() == projects.len(),
    ensures
        is_card_order(
            record_views(projects@),
            names@.map_values(|n: String| n@),
            lowercase(filter@),
            r@,
        ),
        r@ == card_order(
            record_views(projects@),
            names@.map_values(|n: String| n@),
            lowercase(filter@),
        ),
        forall|k: int| 0 <= k < r@.len() ==> #[trigger] r@[k] < projects.len(),
{
    let ghost pv = record_views(projects@);
    let ghost nv = names@.map_values(|n: String| n@);
    let needle_text = to_lowercase(filter);
    let needle = to_chars(needle_text.as_str());
    let mut positions: Vec<usize> = Vec::new();
    let mut ranks: Vec<i128> = Vec::new();
    let mut texts: Vec<Vec<char>> = Vec::new();
    let mut i: usize = 0;
    while i < projects.len()
        invariant
            i <= projects.len(),
            names.len() == projects.len(),
            pv == record_views(projects@),
            nv == names@.map_values(|n: String| n@),
            needle@ == lowercase(filter@),
            positions@ == visible_positions(pv.take(i as int), nv, needle@),
            ranks.len() == positions.len(),
            texts.len() == positions.len(),
            forall|k: int| 0 <= k < positions.len() ==> #[trigger] positions@[k] < i,
            forall|k: int|
                0 <= k < positions.len() ==> #[trigger] ranks@[k] == card_rank(
                    pv[positions@[k] as int],
                ),
            forall|k: int|
                0 <= k < positions.len() ==> #[trigger] texts@[k]@ == lowercase(
                    nv[positions@[k] as int],
                ),
        decreases projects.len() - i,
    {
        let record = &projects[i];
        assert(pv[i as int] == record@);
        assert(nv[i as int] == names@[i as int]@);
        assert(pv.take(i + 1).drop_last() =~= pv.take(i as int));
        assert(pv.take(i + 1).last() == pv[i as int]);
        let name_lower = to_lowercase(names[i].as_str());
        let name_chars = to_chars(name_lower.as_str());
        let path_lower = to_lowercase(record.path.as_str());
        let path_chars = to_chars(path_lower.as_str());
        let shown = needle.len() == 0 || chars_contain(&name_chars, &needle) || chars_contain(
            &path_chars,
            &needle,
        );
        proof {
            lemma_visible_prefix(pv, nv, needle@, i as int);
        }
        if shown {
            positions.push(i);
            let rank: i128 = match record.last_opened_at {
                Some(t) => 0 - (t as i128),
                None => i128::MAX,
            };
            ranks.push(rank);
            texts.push(name_chars);
        }
        i += 1;
    }
    assert(pv.take(projects.len() as int) =~= pv);
    let order = stable_order(&ranks, &texts);
    let ghost f = positions@;
    assert(ranks@ =~= Seq::new(f.len(), |k: int| card_rank(pv[f[k] as int])));
    assert(texts@.map_values(|t: Vec<char>| t@) =~= Seq::new(
        f.len(),
        |k: int| lowercase(nv[f[k] as int]),
    ));
    let mut out: Vec<usize> = Vec::new();
    let mut k: usize = 0;
    while k < order.len()
        invariant
            k <= order.len(),
            order.len() == positions.len(),
            is_arrangement(order@, positions.len() as int),
            f == positions@,
            forall|m: int| 0 <= m < positions.len() ==> #[trigger] positions@[m] < projects.len(),
            out@ == order@.take(k as int).map_values(|j: usize| f[j as int]),
            forall|m: int| 0 <= m < out@.len() ==> #[trigger] out@[m] < projects.len(),
        decreases order.len() - k,
    {
        let j = order[k];
        out.push(positions[j]);
        assert(order@.take(k + 1) =~= order@.take(k as int).push(j));
        assert(out@ =~= order@.take(k + 1).map_values(|j: usize| f[j as int]));
        k += 1;
    }
    assert(order@.take(order.len() as int) =~= order@);
    proof {
        let ps = record_views(projects@);
        let nm = names@.map_values(|n: String| n@);
        let nd = lowercase(filter@);
        assert(is_card_order(ps, nm, nd, out@));
        lemma_card_order_unique(ps, nm, nd, out@, card_order(ps, nm, nd));
    }
    proof {
        let ps = record_views(projects@);
        let nm = names@.map_values(|n: String| n@);
        let nd = lowercase(filter@);
        assert(is_card_order(ps, nm, nd, out@));
        lemma_card_order_unique(ps, nm, nd, out@, card_order(ps, nm, nd));
    }
    out
}

proof fn lemma_visible_prefix(ps: Seq<RecordView>, names: Seq<Seq<char>>, needle: Seq<char>, i: int)
    requires
        0 <= i < ps.len(),
    ensures
        visible_positions(ps.take(i + 1), names, needle) == if card_visible(
            ps[i],
            names[i],
            needle,
        ) {
            visible_positions(ps.take(i), names, needle).push(i as usize)
        } else {
            visible_positions(ps.take(i), names, needle)
        },
{
    assert(ps.take(i + 1).drop_last() =~= ps.take(i));
    assert(ps.take(i + 1).last() == ps[i]);
}


/// The positions that `visible_positions` lists are exactly those of the
/// visible cards.
proof fn lemma_visible_positions_members(ps: Seq<RecordView>, names: Seq<Seq<char>>, needle: Seq<char>)
    requires
        ps.len() <= usize::MAX,
    ensures
        forall|m: int|
            0 <= m < visible_positions(ps, names, needle).len() ==> {
                let j = #[trigger] visible_positions(ps, names, needle)[m] as int;
                0 <= j < ps.len() && card_visible(ps[j], names[j], needle)
            },
        forall|j: int|
            0 <= j < ps.len() && card_visible(ps[j], names[j], needle) ==> exists|m: int|
                0 <= m < visible_positions(ps, names, needle).len()
                    && #[trigger] visible_positions(ps, names, needle)[m] as int == j,
    decreases ps.len(),
{
    if ps.len() > 0 {
        let init = ps.drop_last();
        lemma_visible_positions_members(init, names, needle);
        let rest = visible_positions(init, names, needle);
        let f = visible_positions(ps, names, needle);
        assert(forall|j: int| 0 <= j < init.len() ==> #[trigger] init[j] == ps[j]);
        assert forall|j: int| 0 <= j < ps.len() && card_visible(ps[j], names[j], needle) implies exists|m: int|
            0 <= m < f.len() && #[trigger] f[m] as int == j by {
            if j == ps.len() - 1 {
                assert(ps.last() == ps[j]);
                assert(f[rest.len() as int] as int == j);
            } else {
                assert(card_visible(init[j], names[j], needle));
                let m = choose|m: int| 0 <= m < rest.len() && #[trigger] rest[m] as int == j;
                assert(f[m] == rest[m]);
            }
        }
        assert forall|m: int| 0 <= m < f.len() implies {
            let j = #[trigger] f[m] as int;
            0 <= j < ps.len() && card_visible(ps[j], names[j], needle)
        } by {
            if m < rest.len() {
                assert(f[m] == rest[m]);
                let j = rest[m] as int;
                assert(init[j] == ps[j]);
            }
        }
    }
}

/// A project's card is shown for a filter (`needle` is the lowercased
/// filter) exactly when the filter is empty or occurs anywhere in the
/// project's lowercased displayed name or in its lowercased path.
pub proof fn lemma_card_shown_iff_filter_occurs(
    ps: Seq<RecordView>,
    names: Seq<Seq<char>>,
    needle: Seq<char>,
    result: Seq<usize>,
    j: int,
)
    requires
        names.len() == ps.len(),
        ps.len() <= usize::MAX,
        is_card_order(ps, names, needle, result),
        0 <= j < ps.len(),
    ensures
        (exists|a: int| 0 <= a < result.len() && #[trigger] result[a] as int == j) <==> (needle.len()
            == 0 || (exists|k: int|
            0 <= k && k + needle.len() <= lowercase(names[j]).len() && #[trigger] lowercase(
                names[j],
            ).subrange(k, k + needle.len()) == needle) || (exists|k: int|
            0 <= k && k + needle.len() <= lowercase(ps[j].path).len() && #[trigger] lowercase(
                ps[j].path,
            ).subrange(k, k + needle.len()) == needle)),
{
    let f = visible_positions(ps, names, needle);
    lemma_visible_positions_members(ps, names, needle);
    let order = choose|order: Seq<usize>|
        {
            &&& is_arrangement(order, f.len() as int)
            &&& sorted_by_key(
                order,
                Seq::new(f.len(), |k: int| card_rank(ps[f[k] as int])),
                Seq::new(f.len(), |k: int| lowercase(names[f[k] as int])),
            )
            &&& result == order.map_values(|k: usize| f[k as int])
        };
    let name = lowercase(names[j]);
    let path = lowercase(ps[j].path);
    let occurs_name = exists|k: int|
        0 <= k && k + needle.len() <= name.len() && #[trigger] name.subrange(k, k + needle.len())
            == needle;
    let occurs_path = exists|k: int|
        0 <= k && k + needle.len() <= path.len() && #[trigger] path.subrange(k, k + needle.len())
            == needle;
    assert(contains_text(name, needle) == occurs_name) by {
        if contains_text(name, needle) {
            let k = choose|k: int| crate::text::occurs_at(name, needle, k);
            assert(name.subrange(k, k + needle.len()) == needle);
        }
        if occurs_name {
            let k = choose|k: int|
                0 <= k && k + needle.len() <= name.len() && #[trigger] name.subrange(
                    k,
                    k + needle.len(),
                ) == needle;
            assert(crate::text::occurs_at(name, needle, k));
        }
    }
    assert(contains_text(path, needle) == occurs_path) by {
        if contains_text(path, needle) {
            let k = choose|k: int| crate::text::occurs_at(path, needle, k);
            assert(path.subrange(k, k + needle.len()) == needle);
        }
        if occurs_path {
            let k = choose|k: int|
                0 <= k && k + needle.len() <= path.len() && #[trigger] path.subrange(
                    k,
                    k + needle.len(),
                ) == needle;
            assert(crate::text::occurs_at(path, needle, k));
        }
    }
    if card_visible(ps[j], names[j], needle) {
        let m = choose|m: int| 0 <= m < f.len() && #[trigger] f[m] as int == j;
        lemma_arrangement_covers(order, f.len() as int, m);
        let a = choose|a: int| 0 <= a < order.len() && order[a] == m;
        assert(result[a] as int == j);
    }
    if exists|a: int| 0 <= a < result.len() && #[trigger] result[a] as int == j {
        let a = choose|a: int| 0 <= a < result.len() && #[trigger] result[a] as int == j;
        assert(result[a] == f[order[a] as int]);
        assert(order[a] < f.len());
    }
}

/// The cards are listed most recently opened first, never-opened projects
/// last; among projects opened at the same time (or never), by lowercased
/// displayed name, and among equal names in registry order.
pub proof fn lemma_cards_recent_first_then_by_name(
    ps: Seq<RecordView>,
    names: Seq<Seq<char>>,
    needle: Seq<char>,
    result: Seq<usize>,
)
    requires
        names.len() == ps.len(),
        ps.len() <= usize::MAX,
        is_card_order(ps, names, needle, result),
    ensures
        forall|a: int, b: int|
            0 <= a < b < result.len() ==> {
                let i = #[trigger] result[a] as int;
                let j = #[trigger] result[b] as int;
                &&& 0 <= i < ps.len() && 0 <= j < ps.len()
                &&& (ps[j].last_opened_at matches Some(tj) ==> (ps[i].last_opened_at matches Some(ti)
                    && ti >= tj))
                &&& ps[i].last_opened_at == ps[j].last_opened_at ==> !text_less(
                    lowercase(names[j]),
                    lowercase(names[i]),
                )
                &&& ps[i].last_opened_at == ps[j].last_opened_at && lowercase(names[i]) == lowercase(
                    names[j],
                ) ==> i < j
            },
{
    let f = visible_positions(ps, names, needle);
    lemma_visible_positions_members(ps, names, needle);
    lemma_visible_positions_increasing(ps, names, needle);
    let ranks = Seq::new(f.len(), |k: int| card_rank(ps[f[k] as int]));
    let texts = Seq::new(f.len(), |k: int| lowercase(names[f[k] as int]));
    let order = choose|order: Seq<usize>|
        {
            &&& is_arrangement(order, f.len() as int)
            &&& sorted_by_key(order, ranks, texts)
            &&& result == order.map_values(|k: usize| f[k as int])
        };
    assert forall|a: int, b: int| 0 <= a < b < result.len() implies {
        let i = #[trigger] result[a] as int;
        let j = #[trigger] result[b] as int;
        &&& 0 <= i < ps.len() && 0 <= j < ps.len()
        &&& (ps[j].last_opened_at matches Some(tj) ==> (ps[i].last_opened_at matches Some(ti) && ti
            >= tj))
        &&& ps[i].last_opened_at == ps[j].last_opened_at ==> !text_less(
            lowercase(names[j]),
            lowercase(names[i]),
        )
        &&& ps[i].last_opened_at == ps[j].last_opened_at && lowercase(names[i]) == lowercase(
            names[j],
        ) ==> i < j
    } by {
        let x = order[a] as int;
        let y = order[b] as int;
        assert(crate::order::key_less(ranks, texts, x, y));
        assert(result[a] == f[x] && result[b] == f[y]);
        let i = f[x] as int;
        let j = f[y] as int;
        assert(ranks[x] == card_rank(ps[i]) && ranks[y] == card_rank(ps[j]));
        assert(texts[x] == lowercase(names[i]) && texts[y] == lowercase(names[j]));
        lemma_text_less_asymmetric(texts[x], texts[y]);
        lemma_text_less_irreflexive(texts[x]);
        if x > y && ranks[x] == ranks[y] && texts[x] == texts[y] {
            assert(false);
        }
        if ps[i].last_opened_at == ps[j].last_opened_at && texts[x] == texts[y] {
            assert(x < y);
            assert(f[x] < f[y]);
        }
    }
}

/// The visible positions come in increasing order.
proof fn lemma_visible_positions_increasing(ps: Seq<RecordView>, names: Seq<Seq<char>>, needle: Seq<char>)
    requires
        ps.len() <= usize::MAX,
    ensures
        forall|x: int, y: int|
            0 <= x < y < visible_positions(ps, names, needle).len() ==> #[trigger] visible_positions(
                ps,
                names,
                needle,
            )[x] < #[trigger] visible_positions(ps, names, needle)[y],
    decreases ps.len(),
{
    if ps.len() > 0 {
        let init = ps.drop_last();
        lemma_visible_positions_increasing(init, names, needle);
        lemma_visible_positions_members(init, names, needle);
        let rest = visible_positions(init, names, needle);
        let f = visible_positions(ps, names, needle);
        assert forall|x: int, y: int| 0 <= x < y < f.len() implies #[trigger] f[x] < #[trigger] f[y] by {
            assert(f[x] == rest[x]);
            if y < rest.len() {
                assert(f[y] == rest[y]);
            } else {
                assert(f[y] == (ps.len() - 1) as usize);
                assert(rest[x] < init.len());
            }
        }
    }
}

// ---------------------------------------------------------------------------
// Scan results

/// A directory found by a scan that holds a Godot project.
#[derive(Debug, Clone)]
pub struct FoundProject {
    pub path: String,
    pub metadata: ProjectMetadata,
    pub has_flake: bool,
}

/// A scan result as the scan screen shows it.
#[derive(Debug, Clone)]
pub struct ScanCandidate {
    pub path: String,
    pub metadata: ProjectMetadata,
    /// The project has a `flake.nix`.
    pub has_flake: bool,
    /// The project will be added.
    pub selected: bool,
    /// The project is registered already.
    pub registered: bool,
}

pub struct CandidateView {
    pub path: Seq<char>,
    pub metadata: crate::model::MetadataView,
    pub has_flake: bool,
    pub selected: bool,
    pub registered: bool,
}

impl View for ScanCandidate {
    type V = CandidateView;

    open spec fn view(&self) -> CandidateView {
        CandidateView {
            path: self.path@,
            metadata: self.metadata@,
            has_flake: self.has_flake,
            selected: self.selected,
            registered: self.registered,
        }
    }
}

/// A found project as a scan result: registered projects are marked and not
/// selected, every other one is selected.
pub open spec fn candidate_of(f: FoundProject, ps: Seq<RecordView>) -> CandidateView {
    CandidateView {
        path: f.path@,
        metadata: f.metadata@,
        has_flake: f.has_flake,
        selected: !has_path(ps, f.path@),
        registered: has_path(ps, f.path@),
    }
}

/// `result` is the found projects as scan results, ordered by lowercased
/// name, ties in the order they were found.
pub open spec fn is_scan_order(found: Seq<FoundProject>, ps: Seq<RecordView>, result: Seq<CandidateView>) -> bool {
    exists|order: Seq<usize>|
        {
            &&& is_arrangement(order, found.len() as int)
            &&& sorted_by_key(
                order,
                Seq::new(found.len(), |k: int| 0i128),
                Seq::new(found.len(), |k: int| lowercase(found[k].metadata.name@)),
            )
            &&& result == order.map_values(|k: usize| candidate_of(found[k as int], ps))
        }
}

/// The scan results are fully determined by what was found and what is
/// registered.
pub proof fn lemma_scan_order_unique(
    found: Seq<FoundProject>,
    ps: Seq<RecordView>,
    r1: Seq<CandidateView>,
    r2: Seq<CandidateView>,
)
    requires
        is_scan_order(found, ps, r1),
        is_scan_order(found, ps, r2),
    ensures
        r1 == r2,
{
    let ranks = Seq::new(found.len(), |k: int| 0i128);
    let texts = Seq::new(found.len(), |k: int| lowercase(found[k].metadata.name@));
    let o1 = choose|order: Seq<usize>|
        {
            &&& is_arrangement(order, found.len() as int)
            &&& sorted_by_key(order, ranks, texts)
            &&& r1 == order.map_values(|k: usize| candidate_of(found[k as int], ps))
        };
    let o2 = choose|order: Seq<usize>|
        {
            &&& is_arrangement(order, found.len() as int)
            &&& sorted_by_key(order, ranks, texts)
            &&& r2 == order.map_values(|k: usize| candidate_of(found[k as int], ps))
        };
    lemma_sorted_arrangement_unique(o1, o2, ranks, texts, found.len() as int);
}

/// Scan results list every found project, as a candidate marked by whether
/// it is registered, ordered by lowercased project name: no result's name
/// sorts before the name of an earlier result.
pub proof fn lemma_scan_results_sorted_by_name(
    found: Seq<FoundProject>,
    ps: Seq<RecordView>,
    result: Seq<CandidateView>,
)
    requires
        is_scan_order(found, ps, result),
    ensures
        result.len() == found.len(),
        forall|a: int, b: int|
            0 <= a < b < result.len() ==> !text_less(
                lowercase(#[trigger] result[b].metadata.name),
                lowercase(#[trigger] result[a].metadata.name),
            ),
        forall|k: int|
            #![trigger found[k]]
            0 <= k < found.len() ==> exists|a: int|
                0 <= a < result.len() && #[trigger] result[a] == candidate_of(found[k], ps),
        forall|i: int, j: int|
            0 <= i < j < found.len() && lowercase(#[trigger] found[i].metadata.name@) == lowercase(
                #[trigger] found[j].metadata.name@,
            ) ==> exists|a: int, b: int|
                0 <= a < b < result.len() && #[trigger] result[a] == candidate_of(found[i], ps)
                    && #[trigger] result[b] == candidate_of(found[j], ps),
{
    let ranks = Seq::new(found.len(), |k: int| 0i128);
    let texts = Seq::new(found.len(), |k: int| lowercase(found[k].metadata.name@));
    let order = choose|order: Seq<usize>|
        {
            &&& is_arrangement(order, found.len() as int)
            &&& sorted_by_key(order, ranks, texts)
            &&& result == order.map_values(|k: usize| candidate_of(found[k as int], ps))
        };
    assert forall|a: int, b: int| 0 <= a < b < result.len() implies !text_less(
        lowercase(#[trigger] result[b].metadata.name),
        lowercase(#[trigger] result[a].metadata.name),
    ) by {
        let i = order[a] as int;
        let j = order[b] as int;
        assert(crate::order::key_less(ranks, texts, i, j));
        assert(result[a].metadata.name == found[i].metadata.name@);
        assert(result[b].metadata.name == found[j].metadata.name@);
        lemma_text_less_asymmetric(texts[i], texts[j]);
        lemma_text_less_irreflexive(texts[i]);
    }
    assert forall|k: int| #![trigger found[k]] 0 <= k < found.len() implies exists|a: int|
        0 <= a < result.len() && #[trigger] result[a] == candidate_of(found[k], ps) by {
        lemma_arrangement_covers(order, found.len() as int, k);
        let a = choose|a: int| 0 <= a < order.len() && order[a] == k;
        assert(result[a] == candidate_of(found[k], ps));
    }
    assert forall|i: int, j: int|
        0 <= i < j < found.len() && lowercase(#[trigger] found[i].metadata.name@) == lowercase(
            #[trigger] found[j].metadata.name@,
        ) implies exists|a: int, b: int|
        0 <= a < b < result.len() && #[trigger] result[a] == candidate_of(found[i], ps)
            && #[trigger] result[b] == candidate_of(found[j], ps) by {
        lemma_arrangement_covers(order, found.len() as int, i);
        lemma_arrangement_covers(order, found.len() as int, j);
        let a = choose|a: int| 0 <= a < order.len() && order[a] == i;
        let b = choose|b: int| 0 <= b < order.len() && order[b] == j;
        assert(texts[i] == texts[j]);
        lemma_text_less_irreflexive(texts[i]);
        if b < a {
            assert(crate::order::key_less(ranks, texts, order[b] as int, order[a] as int));
        }
        assert(a != b);
        assert(result[a] == candidate_of(found[i], ps));
        assert(result[b] == candidate_of(found[j], ps));
    }
}

/// The scan results for the projects found in a directory.
pub fn scan_candidates(found: &Vec<FoundProject>, registered_projects: &Vec<ProjectRecord>) -> (r: Vec<
    ScanCandidate,
>)
    ensures
        is_scan_order(found@, record_views(registered_projects@), r@.map_values(|c: ScanCandidate| c@)),
{
    let ghost pv = record_views(registered_projects@);
    let mut ranks: Vec<i128> = Vec::new();
    let mut texts: Vec<Vec<char>> = Vec::new();
    let mut i: usize = 0;
    while i < found.len()
        invariant
            i <= found.len(),
            ranks.len() == i,
            texts.len() == i,
            forall|k: int| 0 <= k < i ==> #[trigger] ranks@[k] == 0,
            forall|k: int| 0 <= k < i ==> #[trigger] texts@[k]@ == lowercase(found@[k].metadata.name@),
        decreases found.len() - i,
    {
        let lower = to_lowercase(found[i].metadata.name.as_str());
        ranks.push(0);
        texts.push(to_chars(lower.as_str()));
        i += 1;
    }
    let order = stable_order(&ranks, &texts);
    assert(ranks@ =~= Seq::new(found@.len(), |k: int| 0i128));
    assert(texts@.map_values(|t: Vec<char>| t@) =~= Seq::new(
        found@.len(),
        |k: int| lowercase(found@[k].metadata.name@),
    ));
    let mut out: Vec<ScanCandidate> = Vec::new();
    let mut k: usize = 0;
    while k < order.len()
        invariant
            k <= order.len(),
            order.len() == found.len(),
            is_arrangement(order@, found.len() as int),
            pv == record_views(registered_projects@),
            out@.map_values(|c: ScanCandidate| c@) == order@.take(k as int).map_values(
                |j: usize| candidate_of(found@[j as int], pv),
            ),
        decreases order.len() - k,
    {
        let j = order[k];
        let f = &found[j];
        let registered = is_registered(registered_projects, &f.path);
        let candidate = ScanCandidate {
            path: f.path.clone(),
            metadata: f.metadata.duplicate(),
            has_flake: f.has_flake,
            selected: !registered,
            registered,
        };
        let ghost before = out@;
        out.push(candidate);
        assert(order@.take(k + 1) =~= order@.take(k as int).push(j));
        assert(out@.map_values(|c: ScanCandidate| c@) =~= before.map_values(|c: ScanCandidate| c@).push(
            candidate_of(found@[j as int], pv),
        ));
        assert(out@.map_values(|c: ScanCandidate| c@) =~= order@.take(k + 1).map_values(
            |j: usize| candidate_of(found@[j as int], pv),
        ));
        k += 1;
    }
    assert(order@.take(order.len() as int) =~= order@);
    out
}

} // verus!
