use dorst::gui::{
    backup_directory_message, color_scheme as scheme_for, filter_accepts, filter_name,
    note_chain_end, parse_filter, remove_link, removed_message, row_status, run_progress,
    source_directory_message, status_name, summarize, ColorScheme, Filter, RepoData, RowStatus,
};
use dorst::progress::{BarPosition, Fraction, ProgressEvent, Stage};
use dorst::report::RunReport;
use dorst::target::Target;

fn row(link: &str) -> RepoData {
    RepoData::new(&Target::new(link))
}

fn report(updated: &[&str], errors: &[&str]) -> RunReport {
    RunReport {
        completed_count: 0,
        error_count: errors.len(),
        updated_targets: updated.iter().map(|t| (*t).to_owned()).collect(),
        error_messages: errors.iter().map(|t| (*t).to_owned()).collect(),
    }
}

#[test]
fn color_scheme() {
    let default_scheme = "Default";
    assert!(scheme_for(default_scheme).1 == default_scheme);
    let invalid_scheme = "foo";
    assert!(scheme_for(invalid_scheme).1 == default_scheme);
    let force_light_scheme = "Force Light";
    assert!(scheme_for(force_light_scheme).1 == force_light_scheme);
    let force_dark_scheme = "Force Dark";
    assert!(scheme_for(force_dark_scheme).1 == force_dark_scheme);
    let prefer_light_scheme = "Prefer Light";
    assert!(scheme_for(prefer_light_scheme).1 == prefer_light_scheme);
    let prefer_dark_scheme = "Prefer Dark";
    assert!(scheme_for(prefer_dark_scheme).1 == prefer_dark_scheme);
}

#[test]
fn color_scheme_names_map_to_colorings() {
    assert_eq!(scheme_for("Default").0, ColorScheme::Default);
    assert_eq!(scheme_for("foo").0, ColorScheme::Default);
    assert_eq!(scheme_for("Force Light").0, ColorScheme::ForceLight);
    assert_eq!(scheme_for("Prefer Light").0, ColorScheme::ForceLight);
    assert_eq!(scheme_for("Force Dark").0, ColorScheme::ForceDark);
    assert_eq!(scheme_for("Prefer Dark").0, ColorScheme::ForceDark);
    assert_eq!(scheme_for("force dark").0, ColorScheme::Default);
}

#[test]
fn ssh_filter() {
    let links = ["http://localhost:7871", "invalid"];
    let shown = |filter: Filter| links.iter().filter(|l| filter_accepts(filter, l)).count();
    assert!(shown(parse_filter("All").unwrap()) == 2);
    assert!(shown(parse_filter("SSH").unwrap()) == 0);
    assert!(shown(parse_filter("HTTPS").unwrap()) == 0);
}

#[test]
fn filters_tell_links_apart() {
    assert!(filter_accepts(Filter::Ssh, "git@example.org:group/repo"));
    assert!(!filter_accepts(Filter::Ssh, "https://example.org/group/repo"));
    assert!(filter_accepts(Filter::Https, "https://example.org/group/repo"));
    assert!(!filter_accepts(Filter::Https, "http://example.org/group/repo"));
    assert!(!filter_accepts(Filter::Https, "https:/"));
    assert!(filter_accepts(Filter::Https, "mirror+https://example.org"));
    assert!(filter_accepts(Filter::All, ""));
    assert_eq!(parse_filter("ssh"), None);
    assert_eq!(parse_filter(""), None);
    assert_eq!(filter_name(Filter::All), "All");
    assert_eq!(filter_name(Filter::Ssh), "SSH");
    assert_eq!(filter_name(Filter::Https), "HTTPS");
}

#[test]
fn fresh_row_shows_name_and_link() {
    let row = row("https://example.org/group/repo/");
    assert_eq!(row.name, "repo");
    assert_eq!(row.link, "https://example.org/group/repo");
    assert_eq!(row.branch, "");
    assert_eq!(row.progress, BarPosition { num: 0, den: 1 });
    assert_eq!(row.status, RowStatus::Idle);
    assert_eq!(row.error, "");
    assert!(!row.completed);
}

#[test]
fn row_follows_the_events_of_a_job() {
    let mut row = row("t");
    row.apply(ProgressEvent::Started);
    assert_eq!(row.status, RowStatus::Started);
    assert_eq!(row.progress, BarPosition { num: 0, den: 1 });
    row.apply(ProgressEvent::StageChanged(Stage::Fetching));
    assert_eq!(row.status, RowStatus::Fetching);
    row.apply(ProgressEvent::Progress(Fraction { num: 1, den: 2 }));
    assert_eq!(row.progress, BarPosition { num: 1, den: 4 });
    assert_eq!(row.status, RowStatus::Fetching);
    row.apply(ProgressEvent::StageChanged(Stage::ResolvingDeltas));
    assert_eq!(row.status, RowStatus::Resolving);
    row.apply(ProgressEvent::Progress(Fraction { num: 1, den: 2 }));
    assert_eq!(row.progress, BarPosition { num: 3, den: 4 });
    row.apply(ProgressEvent::Finished);
    assert_eq!(row.progress, BarPosition { num: 1, den: 1 });
    row.apply(ProgressEvent::Started);
    assert_eq!(row.progress, BarPosition { num: 0, den: 1 });
    row.apply(ProgressEvent::StageChanged(Stage::Cloning));
    assert_eq!(row.status, RowStatus::Cloning);
}

#[test]
fn row_shows_how_its_chain_ended() {
    let mut failed = row("t");
    failed.finish("first backup: second", true);
    assert_eq!(failed.status, RowStatus::Failed);
    assert_eq!(failed.error, "first backup: second");
    assert!(failed.completed);
    let mut updated = row("t");
    updated.finish("", true);
    assert_eq!(updated.status, RowStatus::Updated);
    assert_eq!(updated.error, "");
    let mut fine = row("t");
    fine.finish("", false);
    assert_eq!(fine.status, RowStatus::Succeeded);
    assert!(fine.completed);
}

#[test]
fn status_names_are_those_of_the_style_sheet() {
    assert_eq!(status_name(RowStatus::Idle), "");
    assert_eq!(status_name(RowStatus::Started), "started");
    assert_eq!(status_name(RowStatus::Cloning), "cloning");
    assert_eq!(status_name(RowStatus::Fetching), "fetching");
    assert_eq!(status_name(RowStatus::Resolving), "resolving");
    assert_eq!(status_name(RowStatus::Finished), "finished");
    assert_eq!(status_name(RowStatus::Succeeded), "ok");
    assert_eq!(status_name(RowStatus::Updated), "updated");
    assert_eq!(status_name(RowStatus::Failed), "err");
}

#[test]
fn rows_show_the_outcome_of_a_run() {
    let succeeded = vec!["a".to_owned(), "b".to_owned()];
    let report = report(&["b"], &["http://c: unsupported URL protocol"]);
    assert_eq!(row_status("a", &succeeded, &report), Some(RowStatus::Succeeded));
    assert_eq!(row_status("b", &succeeded, &report), Some(RowStatus::Updated));
    assert_eq!(row_status("http://c", &succeeded, &report), Some(RowStatus::Failed));
    assert_eq!(row_status("git@host:q", &succeeded, &report), None);
}

#[test]
fn run_progress_is_completed_of_total() {
    assert_eq!(run_progress(1, 4), Fraction { num: 1, den: 4 });
    assert_eq!(run_progress(4, 4), Fraction { num: 4, den: 4 });
    assert_eq!(run_progress(0, 0), Fraction { num: 1, den: 1 });
}

#[test]
fn summary_counts_failures_and_updates() {
    let summary = summarize(&report(&["a", "b"], &["x: first", "y: second", "z: third"]));
    assert_eq!(summary.banner.as_deref(), Some("x: first\ny: second\nz: third"));
    assert_eq!(summary.failures.as_deref(), Some("Failures: 3"));
    assert_eq!(summary.updates.as_deref(), Some("Repositories with updates: 2"));
}

#[test]
fn summary_of_a_clean_run_says_nothing() {
    let summary = summarize(&report(&[], &[]));
    assert!(summary.banner.is_none());
    assert!(summary.failures.is_none());
    assert!(summary.updates.is_none());
}

#[test]
fn summary_without_error_text_shows_no_banner() {
    let summary = summarize(&report(&[], &[""]));
    assert!(summary.banner.is_none());
    assert!(summary.failures.is_none());
}

#[test]
fn remove_target() {
    let mut rows = vec![row("invalid")];
    assert!(rows.len() == 1);
    assert_eq!(remove_link(&mut rows, "invalid"), 1);
    assert!(rows.len() == 0);
    assert_eq!(removed_message("invalid"), "Removed: invalid");
}

#[test]
fn remove_link_takes_every_row_with_the_link() {
    let mut rows = vec![row("a"), row("b"), row("a"), row("c"), row("a")];
    assert_eq!(remove_link(&mut rows, "a"), 3);
    let links: Vec<&str> = rows.iter().map(|r| r.link.as_str()).collect();
    assert_eq!(links, vec!["b", "c"]);
    assert_eq!(remove_link(&mut rows, "a"), 0);
    assert_eq!(rows.len(), 2);
}

#[test]
fn edit_target() {
    let edited = Target::from_entry("invalid23").unwrap();
    assert!(edited.identifier() == "invalid23");
    assert_eq!(edited.name(), "invalid23");
}

#[test]
fn select_source_directory() {
    assert_eq!(source_directory_message("/source_foobar"), "Source directory: /source_foobar");
}

#[test]
fn select_backup_directory() {
    assert_eq!(backup_directory_message("/backup_foobar"), "Backup directory: /backup_foobar");
}

#[test]
fn remove_link_leaves_the_other_rows_as_they_are() {
    let mut kept = row("http://h/b");
    kept.apply(ProgressEvent::Started);
    kept.apply(ProgressEvent::StageChanged(Stage::Fetching));
    kept.apply(ProgressEvent::Progress(Fraction { num: 1, den: 2 }));
    kept.branch = "main".to_owned();
    kept.finish("first", false);
    let mut rows = vec![row("a"), kept, row("a")];
    assert_eq!(remove_link(&mut rows, "a"), 2);
    assert_eq!(rows.len(), 1);
    assert_eq!(rows[0].name, "b");
    assert_eq!(rows[0].link, "http://h/b");
    assert_eq!(rows[0].branch, "main");
    assert_eq!(rows[0].progress, BarPosition { num: 1, den: 4 });
    assert_eq!(rows[0].status, RowStatus::Failed);
    assert_eq!(rows[0].error, "first");
    assert!(rows[0].completed);
    assert_eq!(rows[0].stage, Stage::Fetching);
}

#[test]
fn chain_without_errors_joins_the_succeeded() {
    let mut succeeded = vec!["a".to_owned()];
    assert!(note_chain_end(&mut succeeded, "b", ""));
    assert_eq!(succeeded, vec!["a".to_owned(), "b".to_owned()]);
    assert!(!note_chain_end(&mut succeeded, "c", " backup: second"));
    assert_eq!(succeeded, vec!["a".to_owned(), "b".to_owned()]);
}
