//! What a window shows for a run: the rows of its targets, its filter, its
//! color scheme, and what it says when the run has ended.

use crate::progress::{bar_position, bar_position_of, BarPosition, Fraction, ProgressEvent, Stage, share};
use crate::report::{ReportView, RunReport};
use crate::target::{Target, TargetView};
use crate::text::{
    contains_char, contains_substring, contains_text, decimal, decimal_text, has_substring, join,
    joined, same_text,
};
use vstd::prelude::*;
use vstd::string::*;

verus! {

/// How the window is colored.
#[derive(Clone, Copy, Debug, PartialEq, Eq, Structural)]
pub enum ColorScheme {
    Default,
    ForceLight,
    ForceDark,
}

/// The name of the scheme that follows the system.
pub const SCHEME_DEFAULT: &'static str = "Default";

/// The name of the scheme that is always light.
pub const SCHEME_FORCE_LIGHT: &'static str = "Force Light";

/// The name of the scheme that is always dark.
pub const SCHEME_FORCE_DARK: &'static str = "Force Dark";

/// The name of the scheme that is light unless the system asks for dark.
pub const SCHEME_PREFER_LIGHT: &'static str = "Prefer Light";

/// The name of the scheme that is dark unless the system asks for light.
pub const SCHEME_PREFER_DARK: &'static str = "Prefer Dark";

/// The coloring that the name of a scheme asks for: light for the two light
/// schemes, dark for the two dark ones, the default for any other name.
pub open spec fn scheme_of(name: Seq<char>) -> ColorScheme {
    if name == SCHEME_FORCE_LIGHT@ {
        ColorScheme::ForceLight
    } else if name == SCHEME_FORCE_DARK@ {
        ColorScheme::ForceDark
    } else if name == SCHEME_PREFER_LIGHT@ {
        ColorScheme::ForceLight
    } else if name == SCHEME_PREFER_DARK@ {
        ColorScheme::ForceDark
    } else {
        ColorScheme::Default
    }
}

/// The name under which a scheme is kept: the name given where it is one of the
/// four light and dark schemes, `Default` for any other.
pub open spec fn scheme_name_of(name: Seq<char>) -> Seq<char> {
    if name == SCHEME_FORCE_LIGHT@ || name == SCHEME_PREFER_LIGHT@ || name == SCHEME_FORCE_DARK@
        || name == SCHEME_PREFER_DARK@ {
        name
    } else {
        SCHEME_DEFAULT@
    }
}

/// The coloring for the name of a scheme, and the name to keep.
pub fn color_scheme(name: &str) -> (out: (ColorScheme, &'static str))
    ensures
        out.0 == scheme_of(name@),
        out.1@ == scheme_name_of(name@),
{
    if same_text(name, SCHEME_FORCE_LIGHT) {
        (ColorScheme::ForceLight, SCHEME_FORCE_LIGHT)
    } else if same_text(name, SCHEME_FORCE_DARK) {
        (ColorScheme::ForceDark, SCHEME_FORCE_DARK)
    } else if same_text(name, SCHEME_PREFER_LIGHT) {
        (ColorScheme::ForceLight, SCHEME_PREFER_LIGHT)
    } else if same_text(name, SCHEME_PREFER_DARK) {
        (ColorScheme::ForceDark, SCHEME_PREFER_DARK)
    } else {
        (ColorScheme::Default, SCHEME_DEFAULT)
    }
}

/// Which targets the list shows.
#[derive(Clone, Copy, Debug, PartialEq, Eq, Structural)]
pub enum Filter {
    All,
    Ssh,
    Https,
}

/// The name of the filter that shows every target.
pub const FILTER_ALL: &'static str = "All";

/// The name of the filter that shows the targets reached over SSH.
pub const FILTER_SSH: &'static str = "SSH";

/// The name of the filter that shows the targets reached over HTTPS.
pub const FILTER_HTTPS: &'static str = "HTTPS";

/// What marks a link as one over HTTPS.
pub const HTTPS_MARK: &'static str = "https://";

/// The filter of a name, where the name is one.
pub open spec fn filter_of(name: Seq<char>) -> Option<Filter> {
    if name == FILTER_ALL@ {
        Some(Filter::All)
    } else if name == FILTER_SSH@ {
        Some(Filter::Ssh)
    } else if name == FILTER_HTTPS@ {
        Some(Filter::Https)
    } else {
        None
    }
}

/// The filter that `name` names; `None` for a name that names none.
pub fn parse_filter(name: &str) -> (filter: Option<Filter>)
    ensures
        filter == filter_of(name@),
{
    if same_text(name, FILTER_ALL) {
        Some(Filter::All)
    } else if same_text(name, FILTER_SSH) {
        Some(Filter::Ssh)
    } else if same_text(name, FILTER_HTTPS) {
        Some(Filter::Https)
    } else {
        None
    }
}

/// The name of a filter.
pub fn filter_name(filter: Filter) -> (name: &'static str)
    ensures
        name@ == match filter {
            Filter::All => FILTER_ALL@,
            Filter::Ssh => FILTER_SSH@,
            Filter::Https => FILTER_HTTPS@,
        },
{
    match filter {
        Filter::All => FILTER_ALL,
        Filter::Ssh => FILTER_SSH,
        Filter::Https => FILTER_HTTPS,
    }
}

/// Whether a filter lets a link through: every link passes `All`, a link with
/// an `@` passes `Ssh`, and one that holds `https://` passes `Https`.
pub open spec fn accepts(filter: Filter, link: Seq<char>) -> bool {
    match filter {
        Filter::All => true,
        Filter::Ssh => link.contains('@'),
        Filter::Https => has_substring(link, HTTPS_MARK@),
    }
}

/// Whether `filter` lets `link` through; see [`accepts`].
pub fn filter_accepts(filter: Filter, link: &str) -> (shown: bool)
    ensures
        shown == accepts(filter, link@),
{
    match filter {
        Filter::All => true,
        Filter::Ssh => contains_char(link, '@'),
        Filter::Https => contains_substring(link, HTTPS_MARK),
    }
}

/// What a row says of its target.
#[derive(Clone, Copy, Debug, PartialEq, Eq, Structural)]
pub enum RowStatus {
    /// Nothing has happened yet.
    Idle,
    Started,
    Cloning,
    Fetching,
    Resolving,
    /// The chain of the target has ended; its outcome is not shown yet.
    Finished,
    Succeeded,
    Updated,
    Failed,
}

/// The name of a status, as a style sheet knows it.
pub fn status_name(status: RowStatus) -> (name: &'static str)
    ensures
        name@ == match status {
            RowStatus::Idle => ""@,
            RowStatus::Started => "started"@,
            RowStatus::Cloning => "cloning"@,
            RowStatus::Fetching => "fetching"@,
            RowStatus::Resolving => "resolving"@,
            RowStatus::Finished => "finished"@,
            RowStatus::Succeeded => "ok"@,
            RowStatus::Updated => "updated"@,
            RowStatus::Failed => "err"@,
        },
{
    match status {
        RowStatus::Idle => "",
        RowStatus::Started => "started",
        RowStatus::Cloning => "cloning",
        RowStatus::Fetching => "fetching",
        RowStatus::Resolving => "resolving",
        RowStatus::Finished => "finished",
        RowStatus::Succeeded => "ok",
        RowStatus::Updated => "updated",
        RowStatus::Failed => "err",
    }
}

/// The status that a stage shows as.
pub open spec fn status_of_stage(stage: Stage) -> RowStatus {
    match stage {
        Stage::Cloning => RowStatus::Cloning,
        Stage::Fetching => RowStatus::Fetching,
        Stage::ResolvingDeltas => RowStatus::Resolving,
    }
}

/// The row of one target.
#[derive(Debug)]
pub struct RepoData {
    pub name: String,
    pub link: String,
    pub branch: String,
    pub progress: BarPosition,
    pub status: RowStatus,
    pub error: String,
    pub completed: bool,
    /// The stage that the row was last told of.
    pub stage: Stage,
}

/// What a [`RepoData`] stands for in contracts.
pub struct RepoDataView {
    pub name: Seq<char>,
    pub link: Seq<char>,
    pub branch: Seq<char>,
    pub progress: BarPosition,
    pub status: RowStatus,
    pub error: Seq<char>,
    pub completed: bool,
    pub stage: Stage,
}

impl View for RepoData {
    type V = RepoDataView;

    open spec fn view(&self) -> RepoDataView {
        RepoDataView {
            name: self.name@,
            link: self.link@,
            branch: self.branch@,
            progress: self.progress,
            status: self.status,
            error: self.error@,
            completed: self.completed,
            stage: self.stage,
        }
    }
}

/// The start of the bar.
pub open spec fn bar_start() -> BarPosition {
    BarPosition { num: 0, den: 1 }
}

/// The end of the bar.
pub open spec fn bar_end() -> BarPosition {
    BarPosition { num: 1, den: 1 }
}

impl RepoDataView {
    /// The row of a target that nothing has happened to.
    pub open spec fn fresh(target: TargetView) -> RepoDataView {
        RepoDataView {
            name: target.name,
            link: target.identifier,
            branch: Seq::empty(),
            progress: bar_start(),
            status: RowStatus::Idle,
            error: Seq::empty(),
            completed: false,
            stage: Stage::Cloning,
        }
    }

    /// The row after an event of a job of its target. A job that starts sets the
    /// bar back, a stage shows as the status, a fraction moves the bar within the
    /// half of its stage, and a job that has ended fills the bar.
    pub open spec fn after(self, event: ProgressEvent) -> RepoDataView {
        match event {
            ProgressEvent::Started => RepoDataView {
                progress: bar_start(),
                status: RowStatus::Started,
                stage: Stage::Cloning,
                ..self
            },
            ProgressEvent::StageChanged(stage) => RepoDataView {
                status: status_of_stage(stage),
                stage,
                ..self
            },
            ProgressEvent::Progress(fraction) => RepoDataView {
                progress: bar_position_of(self.stage, fraction),
                ..self
            },
            ProgressEvent::Finished => RepoDataView { progress: bar_end(), ..self },
        }
    }

    /// The row after the chain of its target has ended with the text `errors`
    /// of its failures: a failed row keeps the text, another one shows whether a
    /// fetch found the target changed.
    pub open spec fn finished(self, errors: Seq<char>, updated: bool) -> RepoDataView {
        if errors.len() > 0 {
            RepoDataView { error: errors, status: RowStatus::Failed, completed: true, ..self }
        } else if updated {
            RepoDataView { status: RowStatus::Updated, completed: true, ..self }
        } else {
            RepoDataView { status: RowStatus::Succeeded, completed: true, ..self }
        }
    }
}

impl RepoData {
    /// The row of `target` before anything has happened to it.
    pub fn new(target: &Target) -> (row: RepoData)
        ensures
            row@ == RepoDataView::fresh(target@),
    {
        RepoData {
            name: target.name().to_owned(),
            link: target.identifier().to_owned(),
            branch: String::new(),
            progress: BarPosition { num: 0, den: 1 },
            status: RowStatus::Idle,
            error: String::new(),
            completed: false,
            stage: Stage::Cloning,
        }
    }

    /// Shows an event of a job of the row's target.
    pub fn apply(&mut self, event: ProgressEvent)
        ensures
            final(self)@ == old(self)@.after(event),
            final(self)@.progress.wf() || final(self)@.progress == old(self)@.progress,
    {
        match event {
            ProgressEvent::Started => {
                self.progress = BarPosition { num: 0, den: 1 };
                self.status = RowStatus::Started;
                self.stage = Stage::Cloning;
            },
            ProgressEvent::StageChanged(stage) => {
                self.stage = stage;
                self.status = match stage {
                    Stage::Cloning => RowStatus::Cloning,
                    Stage::Fetching => RowStatus::Fetching,
                    Stage::ResolvingDeltas => RowStatus::Resolving,
                };
            },
            ProgressEvent::Progress(fraction) => {
                self.progress = bar_position(self.stage, fraction);
            },
            ProgressEvent::Finished => {
                self.progress = BarPosition { num: 1, den: 1 };
            },
        }
    }

    /// Shows the end of the chain of the row's target.
    pub fn finish(&mut self, errors: &str, updated: bool)
        ensures
            final(self)@ == old(self)@.finished(errors@, updated),
    {
        self.completed = true;
        if errors.unicode_len() > 0 {
            self.error = errors.to_owned();
            self.status = RowStatus::Failed;
        } else if updated {
            self.status = RowStatus::Updated;
        } else {
            self.status = RowStatus::Succeeded;
        }
    }
}

/// Some line of `lines` holds `link`.
pub open spec fn mentioned(lines: Seq<Seq<char>>, link: Seq<char>) -> bool {
    exists|i: int| 0 <= i < lines.len() && has_substring(#[trigger] lines[i], link)
}

/// What a row shows once a run has ended: a target that succeeded shows as
/// updated where a fetch found it changed and as well otherwise; another one
/// shows as failed where a line of the errors mentions its link.
pub open spec fn status_after_run(
    link: Seq<char>,
    succeeded: Seq<Seq<char>>,
    report: ReportView,
) -> Option<RowStatus> {
    if succeeded.contains(link) {
        if report.updated_targets.contains(link) {
            Some(RowStatus::Updated)
        } else {
            Some(RowStatus::Succeeded)
        }
    } else if mentioned(report.error_messages, link) {
        Some(RowStatus::Failed)
    } else {
        None
    }
}

/// Whether some line of `lines` holds `link`.
fn is_mentioned(lines: &Vec<String>, link: &str) -> (found: bool)
    ensures
        found == mentioned(lines.deep_view(), link@),
{
    let mut i: usize = 0;
    while i < lines.len()
        invariant
            i <= lines.len(),
            forall|j: int| 0 <= j < i ==> !has_substring(#[trigger] lines.deep_view()[j], link@),
        decreases lines.len() - i,
    {
        if contains_substring(lines[i].as_str(), link) {
            assert(has_substring(lines.deep_view()[i as int], link@));
            return true;
        }
        i = i + 1;
    }
    false
}

/// The status of the row of `link` once a run has ended, where the run changes
/// it; see [`status_after_run`].
pub fn row_status(link: &str, succeeded: &Vec<String>, report: &RunReport) -> (status: Option<
    RowStatus,
>)
    ensures
        status == status_after_run(link@, succeeded.deep_view(), report@),
{
    let owned = link.to_owned();
    if contains_text(succeeded, &owned) {
        if contains_text(&report.updated_targets, &owned) {
            Some(RowStatus::Updated)
        } else {
            Some(RowStatus::Succeeded)
        }
    } else if is_mentioned(&report.error_messages, link) {
        Some(RowStatus::Failed)
    } else {
        None
    }
}

/// The share of a run that has ended: targets completed of targets in all.
pub fn run_progress(completed: usize, total: usize) -> (f: Fraction)
    ensures
        f == share(completed as int, total as int),
        f.wf(),
        f.is_complete() <==> total == 0 || completed >= total,
{
    Fraction::new(completed, total)
}

/// What the count of failures begins with.
pub const FAILURES: &'static str = "Failures: ";

/// What the count of targets found changed begins with.
pub const UPDATES: &'static str = "Repositories with updates: ";

/// What the message for a target taken off the list begins with.
pub const REMOVED: &'static str = "Removed: ";

/// What the message for a chosen directory of primary mirrors begins with.
pub const SOURCE_DIRECTORY: &'static str = "Source directory: ";

/// What the message for a chosen directory of backup mirrors begins with.
pub const BACKUP_DIRECTORY: &'static str = "Backup directory: ";

/// What the window says when a run has ended.
#[derive(Debug)]
pub struct Summary {
    /// The lines of the errors, one below the other, where there are any.
    pub banner: Option<String>,
    /// The number of failures, in words, where there are any.
    pub failures: Option<String>,
    /// The number of targets found changed, in words, where there are any.
    pub updates: Option<String>,
}

/// What a [`Summary`] stands for in contracts.
pub struct SummaryView {
    pub banner: Option<Seq<char>>,
    pub failures: Option<Seq<char>>,
    pub updates: Option<Seq<char>>,
}

impl View for Summary {
    type V = SummaryView;

    open spec fn view(&self) -> SummaryView {
        SummaryView {
            banner: match self.banner {
                Some(s) => Some(s@),
                None => None,
            },
            failures: match self.failures {
                Some(s) => Some(s@),
                None => None,
            },
            updates: match self.updates {
                Some(s) => Some(s@),
                None => None,
            },
        }
    }
}

/// The summary of a report. The banner and the count of failures are there
/// where the lines of the errors, one below the other, are not empty; the count
/// of updates is there where a target was found changed.
pub open spec fn summary_of(report: ReportView) -> SummaryView {
    let lines = joined(report.error_messages, seq!['\n']);
    SummaryView {
        banner: if lines.len() > 0 {
            Some(lines)
        } else {
            None
        },
        failures: if lines.len() > 0 {
            Some(FAILURES@ + decimal(report.error_messages.len()))
        } else {
            None
        },
        updates: if report.updated_targets.len() > 0 {
            Some(UPDATES@ + decimal(report.updated_targets.len()))
        } else {
            None
        },
    }
}

/// What the window says for `report`; see [`summary_of`].
pub fn summarize(report: &RunReport) -> (summary: Summary)
    ensures
        summary@ == summary_of(report@),
{
    proof {
        reveal_strlit("\n");
        assert("\n"@ =~= seq!['\n']);
    }
    let lines = join(&report.error_messages, "\n");
    let (banner, failures) = if lines.unicode_len() > 0 {
        let mut text = FAILURES.to_owned();
        text.append(decimal_text(report.error_messages.len() as u64).as_str());
        (Some(lines), Some(text))
    } else {
        (None, None)
    };
    let updates = if report.updated_targets.len() > 0 {
        let mut text = UPDATES.to_owned();
        text.append(decimal_text(report.updated_targets.len() as u64).as_str());
        Some(text)
    } else {
        None
    };
    Summary { banner, failures, updates }
}

/// The message for a target taken off the list.
pub fn removed_message(name: &str) -> (text: String)
    ensures
        text@ == REMOVED@ + name@,
{
    let mut text = REMOVED.to_owned();
    text.append(name);
    text
}

/// The message for a directory chosen for the primary mirrors.
pub fn source_directory_message(directory: &str) -> (text: String)
    ensures
        text@ == SOURCE_DIRECTORY@ + directory@,
{
    let mut text = SOURCE_DIRECTORY.to_owned();
    text.append(directory);
    text
}

/// The message for a directory chosen for the backup mirrors.
pub fn backup_directory_message(directory: &str) -> (text: String)
    ensures
        text@ == BACKUP_DIRECTORY@ + directory@,
{
    let mut text = BACKUP_DIRECTORY.to_owned();
    text.append(directory);
    text
}

/// The rows of `rows` whose link is not `link`, whole and in their order.
pub open spec fn rows_without(rows: Seq<RepoData>, link: Seq<char>) -> Seq<RepoData> {
    rows.filter(|row: RepoData| row.link@ != link)
}

/// Takes every row with the link `link` off the list; the others stay as they
/// are, in their order. Returns how many were taken.
pub fn remove_link(rows: &mut Vec<RepoData>, link: &str) -> (removed: usize)
    ensures
        final(rows)@ == rows_without(old(rows)@, link@),
        removed == old(rows)@.len() - final(rows)@.len(),
{
    let wanted = link.to_owned();
    let mut position: usize = 0;
    let mut removed: usize = 0;
    let ghost start = rows@;
    proof {
        assert(start.subrange(0, 0) =~= Seq::<RepoData>::empty());
        assert(rows_without(Seq::<RepoData>::empty(), link@) =~= Seq::<RepoData>::empty()) by {
            reveal(Seq::filter);
        }
        assert(start.subrange(0, start.len() as int) =~= start);
        assert(start.len() == rows.len());
    }
    while position < rows.len()
        invariant
            position <= rows.len(),
            wanted@ == link@,
            position + removed <= start.len(),
            rows.len() + removed == start.len(),
            start.len() <= usize::MAX,
            rows@.subrange(0, position as int) == rows_without(
                start.subrange(0, position + removed),
                link@,
            ),
            rows@.subrange(position as int, rows.len() as int) == start.subrange(
                position + removed,
                start.len() as int,
            ),
        decreases rows.len() - position,
    {
        let ghost before = rows@;
        let ghost seen = start.subrange(0, position + removed);
        let ghost next = start.subrange(0, position + removed + 1);
        proof {
            assert(before.subrange(position as int, rows.len() as int)[0] == before[position as int]);
            assert(start[position + removed] == before[position as int]);
            assert(next =~= seen.push(before[position as int]));
            lemma_filter_push(seen, before[position as int], link@);
        }
        if rows[position].link == wanted {
            rows.remove(position);
            removed = removed + 1;
            proof {
                let after = rows@;
                assert(after.subrange(0, position as int) =~= before.subrange(0, position as int));
                assert(after.subrange(position as int, rows.len() as int) =~= before.subrange(
                    position as int,
                    before.len() as int,
                ).subrange(1, before.len() - position));
                assert(after.subrange(position as int, rows.len() as int) =~= start.subrange(
                    position + removed,
                    start.len() as int,
                ));
            }
        } else {
            position = position + 1;
            proof {
                assert(before.subrange(0, position as int) =~= before.subrange(
                    0,
                    position - 1,
                ).push(before[position - 1]));
                assert(before.subrange(position as int, rows.len() as int) =~= before.subrange(
                    position - 1,
                    rows.len() as int,
                ).subrange(1, rows.len() - position + 1));
                assert(before.subrange(position as int, rows.len() as int) =~= start.subrange(
                    position + removed,
                    start.len() as int,
                ));
            }
        }
    }
    proof {
        assert(rows@.subrange(0, rows.len() as int) =~= rows@);
        assert(start.subrange(0, start.len() as int) =~= start);
    }
    removed
}

/// Filtering a list that grew by one row filters the list and then keeps the
/// row or drops it.
proof fn lemma_filter_push(rows: Seq<RepoData>, last: RepoData, link: Seq<char>)
    ensures
        rows_without(rows.push(last), link) == if last.link@ != link {
            rows_without(rows, link).push(last)
        } else {
            rows_without(rows, link)
        },
{
    reveal(Seq::filter);
    assert(rows.push(last).drop_last() =~= rows);
}

/// The links of the targets that succeeded, after the chain of `link` has ended
/// with the text `errors` of its failures: the link joins them where nothing
/// failed.
pub open spec fn succeeded_with(
    succeeded: Seq<Seq<char>>,
    link: Seq<char>,
    errors: Seq<char>,
) -> Seq<Seq<char>> {
    if errors.len() == 0 {
        succeeded.push(link)
    } else {
        succeeded
    }
}

/// Notes the end of the chain of `link` in the list of the targets that
/// succeeded; see [`succeeded_with`]. Returns whether the target succeeded.
pub fn note_chain_end(succeeded: &mut Vec<String>, link: &str, errors: &str) -> (fine: bool)
    ensures
        fine == (errors@.len() == 0),
        final(succeeded).deep_view() == succeeded_with(
            old(succeeded).deep_view(),
            link@,
            errors@,
        ),
{
    if errors.unicode_len() == 0 {
        succeeded.push(link.to_owned());
        assert(succeeded.deep_view() =~= old(succeeded).deep_view().push(link@));
        true
    } else {
        false
    }
}

} // verus!
