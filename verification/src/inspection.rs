//! The Inspection window: its result filter, the tally and the rows it
//! shows, and what clicking or saving a result does.
use vstd::prelude::*;

use crate::badges::{rgb, Rgb};
use crate::regions::toast_pushed;
use crate::list::row_of_path;
use crate::state::{ToastSeverity, WavesPreviewer};
use crate::text::{ascii_case_eq, eq_ignore_ascii_case};

verus! {

/// Which inspection results the window lists.
#[derive(Clone, Copy, Debug, PartialEq, Eq, Structural)]
pub enum InspectionFilter {
    IssuesOnly,
    ErrorsOnly,
    All,
}

/// The filter a stored index stands for; an index the window does not
/// know means "issues only".
pub open spec fn filter_for_index(idx: usize) -> InspectionFilter {
    if idx == 1 {
        InspectionFilter::ErrorsOnly
    } else if idx == 2 {
        InspectionFilter::All
    } else {
        InspectionFilter::IssuesOnly
    }
}

/// The index a filter is stored as.
pub open spec fn index_for_filter(filter: InspectionFilter) -> usize {
    match filter {
        InspectionFilter::IssuesOnly => 0,
        InspectionFilter::ErrorsOnly => 1,
        InspectionFilter::All => 2,
    }
}

impl WavesPreviewer {
    /// The filter the Inspection window shows its results with.
    pub fn inspection_window_filter(&self) -> (filter: InspectionFilter)
        ensures
            filter == filter_for_index(self.inspection_window_filter_idx),
    {
        if self.inspection_window_filter_idx == 1 {
            InspectionFilter::ErrorsOnly
        } else if self.inspection_window_filter_idx == 2 {
            InspectionFilter::All
        } else {
            InspectionFilter::IssuesOnly
        }
    }

    /// Sets the filter the Inspection window shows its results with.
    pub fn set_inspection_window_filter(&mut self, filter: InspectionFilter)
        ensures
            *final(self) == (WavesPreviewer {
                inspection_window_filter_idx: index_for_filter(filter),
                ..*old(self)
            }),
    {
        self.inspection_window_filter_idx = match filter {
            InspectionFilter::IssuesOnly => 0,
            InspectionFilter::ErrorsOnly => 1,
            InspectionFilter::All => 2,
        };
    }
}

/// Reading back a filter that was set gives that filter.
pub proof fn lemma_filter_round_trip(filter: InspectionFilter)
    ensures
        filter_for_index(index_for_filter(filter)) == filter,
{
}

/// Storing the filter read from any index gives a known index, the same one
/// when it was already known.
pub proof fn lemma_filter_index_normalized(idx: usize)
    ensures
        index_for_filter(filter_for_index(idx)) <= 2,
        idx <= 2 ==> index_for_filter(filter_for_index(idx)) == idx,
{
}


/// How serious an inspected file's worst issue is.
#[derive(Clone, Copy, Debug, PartialEq, Eq, Structural)]
pub enum IssueSeverity {
    Error,
    Warning,
    Info,
}

/// The filter's caption in its selector.
pub open spec fn filter_caption_text(filter: InspectionFilter) -> Seq<char> {
    match filter {
        InspectionFilter::IssuesOnly => "Issues only"@,
        InspectionFilter::ErrorsOnly => "Errors only"@,
        InspectionFilter::All => "All files"@,
    }
}

/// The filter's caption in its selector.
pub fn filter_caption(filter: InspectionFilter) -> (caption: &'static str)
    ensures
        caption@ == filter_caption_text(filter),
{
    match filter {
        InspectionFilter::IssuesOnly => "Issues only",
        InspectionFilter::ErrorsOnly => "Errors only",
        InspectionFilter::All => "All files",
    }
}

/// Whether the window lists a result of this severity under `filter`:
/// every result, results with any issue, or results with an error.
pub open spec fn filter_shows(filter: InspectionFilter, severity: Option<IssueSeverity>) -> bool {
    match filter {
        InspectionFilter::All => true,
        InspectionFilter::IssuesOnly => severity is Some,
        InspectionFilter::ErrorsOnly => severity == Some(IssueSeverity::Error),
    }
}

/// How many of the results have the severity `severity`.
pub open spec fn severity_count(rows: Seq<Option<IssueSeverity>>, severity: Option<IssueSeverity>) -> nat
    decreases rows.len(),
{
    if rows.len() == 0 {
        0
    } else {
        severity_count(rows.drop_last(), severity) + if rows.last() == severity {
            1nat
        } else {
            0nat
        }
    }
}

/// The indices of the results the window lists under `filter`, in order.
pub open spec fn visible_rows(filter: InspectionFilter, rows: Seq<Option<IssueSeverity>>) -> Seq<usize>
    decreases rows.len(),
{
    if rows.len() == 0 {
        Seq::empty()
    } else {
        let before = visible_rows(filter, rows.drop_last());
        if filter_shows(filter, rows.last()) {
            before.push((rows.len() - 1) as usize)
        } else {
            before
        }
    }
}

/// The window's tally: errors, warnings, and the results that passed
/// (results with only informational issues count as passed).
pub struct InspectionTally {
    pub errors: usize,
    pub warnings: usize,
    pub passed: usize,
}

proof fn lemma_severity_counts_bounded(rows: Seq<Option<IssueSeverity>>)
    ensures
        severity_count(rows, Some(IssueSeverity::Error)) + severity_count(rows, Some(IssueSeverity::Warning))
            <= rows.len(),
    decreases rows.len(),
{
    if rows.len() > 0 {
        lemma_severity_counts_bounded(rows.drop_last());
    }
}

/// Counts the errors, the warnings and the passed results of a report,
/// given each result's severity.
pub fn inspection_tally(severities: &Vec<Option<IssueSeverity>>) -> (tally: InspectionTally)
    ensures
        tally.errors == severity_count(severities@, Some(IssueSeverity::Error)),
        tally.warnings == severity_count(severities@, Some(IssueSeverity::Warning)),
        tally.passed == severities@.len() - tally.errors - tally.warnings,
{
    let mut errors: usize = 0;
    let mut warnings: usize = 0;
    let mut k: usize = 0;
    while k < severities.len()
        invariant
            k <= severities@.len(),
            errors == severity_count(severities@.take(k as int), Some(IssueSeverity::Error)),
            warnings == severity_count(severities@.take(k as int), Some(IssueSeverity::Warning)),
            errors + warnings <= k,
        decreases severities@.len() - k,
    {
        proof {
            assert(severities@.take(k + 1).drop_last() =~= severities@.take(k as int));
            lemma_severity_counts_bounded(severities@.take(k as int));
        }
        match severities[k] {
            Some(IssueSeverity::Error) => errors = errors + 1,
            Some(IssueSeverity::Warning) => warnings = warnings + 1,
            _ => {},
        }
        k = k + 1;
    }
    assert(severities@.take(k as int) =~= severities@);
    InspectionTally { errors, warnings, passed: severities.len() - errors - warnings }
}

/// The indices of the results the window lists under `filter`.
pub fn visible_inspection_rows(filter: InspectionFilter, severities: &Vec<Option<IssueSeverity>>) -> (rows: Vec<usize>)
    ensures
        rows@ == visible_rows(filter, severities@),
{
    let mut rows: Vec<usize> = Vec::new();
    let mut k: usize = 0;
    while k < severities.len()
        invariant
            k <= severities@.len(),
            rows@ == visible_rows(filter, severities@.take(k as int)),
        decreases severities@.len() - k,
    {
        proof {
            assert(severities@.take(k + 1).drop_last() =~= severities@.take(k as int));
        }
        let severity = severities[k];
        let shows = match filter {
            InspectionFilter::All => true,
            InspectionFilter::IssuesOnly => severity.is_some(),
            InspectionFilter::ErrorsOnly => match severity {
                Some(IssueSeverity::Error) => true,
                _ => false,
            },
        };
        if shows {
            rows.push(k);
        }
        k = k + 1;
    }
    assert(severities@.take(k as int) =~= severities@);
    rows
}

/// A result's badge: its severity's word and color.
pub open spec fn severity_badge_of(severity: Option<IssueSeverity>) -> (Seq<char>, Rgb) {
    match severity {
        Some(IssueSeverity::Error) => ("ERROR"@, rgb(240, 100, 100)),
        Some(IssueSeverity::Warning) => ("WARN"@, rgb(235, 200, 90)),
        Some(IssueSeverity::Info) => ("INFO"@, rgb(120, 180, 240)),
        None => ("PASS"@, rgb(120, 200, 140)),
    }
}

/// A result's badge: its severity's word and color.
pub fn severity_badge(severity: Option<IssueSeverity>) -> (badge: (&'static str, Rgb))
    ensures
        (badge.0@, badge.1) == severity_badge_of(severity),
{
    match severity {
        Some(IssueSeverity::Error) => ("ERROR", Rgb { r: 240, g: 100, b: 100 }),
        Some(IssueSeverity::Warning) => ("WARN", Rgb { r: 235, g: 200, b: 90 }),
        Some(IssueSeverity::Info) => ("INFO", Rgb { r: 120, g: 180, b: 240 }),
        None => ("PASS", Rgb { r: 120, g: 200, b: 140 }),
    }
}

/// Whether a file picked to save to needs the extension `wanted` added:
/// it has no extension, or another one than `wanted` in any letter case.
pub open spec fn needs_extension_of(extension: Option<Seq<char>>, wanted: Seq<char>) -> bool {
    match extension {
        None => true,
        Some(e) => !ascii_case_eq(e, wanted),
    }
}

/// Whether a file picked to save to (with `extension`, as UTF-8) needs the
/// extension `wanted` added; reports are saved as `csv`.
pub fn needs_extension(extension: Option<&str>, wanted: &str) -> (needs: bool)
    ensures
        needs == needs_extension_of(
            match extension {
                Some(e) => Some(e@),
                None => None,
            },
            wanted@,
        ),
{
    match extension {
        None => true,
        Some(e) => !eq_ignore_ascii_case(e, wanted),
    }
}

impl WavesPreviewer {
    /// A result was clicked: its file's row is focused and scrolled to; a
    /// file that is not in the list is reported in a toast.
    pub fn select_inspection_result(&mut self, path: &str)
        ensures
            match row_of_path(*old(self), path@) {
                Some(row) => {
                    &&& final(self).selected == Some(row)
                    &&& final(self).scroll_to_selected
                    &&& final(self).files == old(self).files
                    &&& final(self).selected_multi == old(self).selected_multi
                    &&& final(self).tabs == old(self).tabs
                    &&& final(self).toasts == old(self).toasts
                },
                None => toast_pushed(
                    *old(self),
                    *final(self),
                    ToastSeverity::Info,
                    "File is not in the current list view (filtered out?)"@,
                ),
            },
    {
        match self.row_for_path(path) {
            Some(row) => {
                self.selected = Some(row);
                self.scroll_to_selected = true;
            },
            None => {
                self.push_toast(
                    ToastSeverity::Info,
                    String::from_str("File is not in the current list view (filtered out?)"),
                );
            },
        }
    }

    /// Reports a finished save of the report to the file shown as
    /// `path_shown`.
    pub fn finish_inspection_report_save(&mut self, path_shown: &str, outcome: Result<(), String>)
        ensures
            match outcome {
                Ok(()) => toast_pushed(
                    *old(self),
                    *final(self),
                    ToastSeverity::Info,
                    "Inspection report saved: "@ + path_shown@,
                ),
                Err(e) => toast_pushed(
                    *old(self),
                    *final(self),
                    ToastSeverity::Error,
                    "Report save failed: "@ + e@,
                ),
            },
    {
        proof {
            reveal_strlit("Inspection report saved: ");
            reveal_strlit("Report save failed: ");
        }
        match outcome {
            Ok(()) => {
                let mut message = String::from_str("Inspection report saved: ");
                message.append(path_shown);
                self.push_toast(ToastSeverity::Info, message);
            },
            Err(e) => {
                let mut message = String::from_str("Report save failed: ");
                message.append(e.as_str());
                self.push_toast(ToastSeverity::Error, message);
            },
        }
    }
}

} // verus!
