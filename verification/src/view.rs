//! What the dashboard's cards and lists show of each project.
use vstd::prelude::*;
use crate::model::{record_ready, ProjectRecord, RecordView};
use crate::registry::{CandidateView, ScanCandidate};

verus! {

broadcast use vstd::string::group_string_axioms;

/// The state a project card reports.
#[derive(Debug, Clone, Copy, PartialEq, Eq, Structural)]
pub enum CardStatus {
    /// The project directory is gone.
    Missing,
    /// The editor can be opened.
    Ready,
    /// The dev shell does not work or was never validated.
    Broken,
}

pub open spec fn card_status_of(r: RecordView, exists: bool) -> CardStatus {
    if !exists {
        CardStatus::Missing
    } else if record_ready(r, exists) {
        CardStatus::Ready
    } else {
        CardStatus::Broken
    }
}

/// The state of a project card; `exists` says whether its directory exists.
pub fn card_status(record: &ProjectRecord, exists: bool) -> (s: CardStatus)
    ensures
        s == card_status_of(record@, exists),
{
    if !exists {
        CardStatus::Missing
    } else if record.is_ready(exists) {
        CardStatus::Ready
    } else {
        CardStatus::Broken
    }
}

pub open spec fn card_status_label(s: CardStatus) -> Seq<char> {
    match s {
        CardStatus::Missing => "MISSING"@,
        CardStatus::Ready => "READY"@,
        CardStatus::Broken => "BROKEN"@,
    }
}

impl CardStatus {
    /// The word the card shows.
    pub fn label(self) -> (r: &'static str)
        ensures
            r@ == card_status_label(self),
    {
        match self {
            CardStatus::Missing => "MISSING",
            CardStatus::Ready => "READY",
            CardStatus::Broken => "BROKEN",
        }
    }
}

/// The first card shown when `slots` cards fit (at least one) and the
/// selected card must be among them.
pub open spec fn first_shown(selected: usize, slots: usize) -> int {
    let fit: int = if slots == 0 {
        1
    } else {
        slots as int
    };
    if selected >= fit {
        selected + 1 - fit
    } else {
        0
    }
}

/// The first card to show.
pub fn first_shown_card(selected: usize, slots: usize) -> (r: usize)
    ensures
        r == first_shown(selected, slots),
        r <= selected,
        selected < r + if slots == 0 {
            1
        } else {
            slots as int
        },
{
    let fit: usize = if slots == 0 {
        1
    } else {
        slots
    };
    if selected >= fit {
        selected - fit + 1
    } else {
        0
    }
}

/// The mark of a scan result: registered projects cannot be chosen.
pub open spec fn scan_mark_of(c: CandidateView) -> Seq<char> {
    if c.registered {
        "—"@
    } else if c.selected {
        "✓"@
    } else {
        " "@
    }
}

/// The mark shown before a scan result.
pub fn scan_mark(c: &ScanCandidate) -> (r: &'static str)
    ensures
        r@ == scan_mark_of(c@),
{
    if c.registered {
        "—"
    } else if c.selected {
        "✓"
    } else {
        " "
    }
}

/// What the scan results say of a project's flake.
pub fn flake_label(has_flake: bool) -> (r: &'static str)
    ensures
        r@ == (if has_flake {
            "flake"@
        } else {
            "needs flake"@
        }),
{
    if has_flake {
        "flake"
    } else {
        "needs flake"
    }
}

/// The filter as the title shows it: with a cursor while it is typed,
/// nothing when it is empty.
pub open spec fn filter_caption_of(filtering: bool, filter: Seq<char>) -> Seq<char> {
    if filtering {
        "  Filter: "@ + filter + "█"@
    } else if filter.len() == 0 {
        seq![]
    } else {
        "  Filter: "@ + filter
    }
}

pub fn filter_caption(filtering: bool, filter: &str) -> (r: String)
    ensures
        r@ == filter_caption_of(filtering, filter@),
{
    if filtering {
        let mut s = "  Filter: ".to_string();
        s.append(filter);
        s.append("█");
        s
    } else if filter.is_empty() {
        String::new()
    } else {
        let mut s = "  Filter: ".to_string();
        s.append(filter);
        s
    }
}

} // verus!
