use date_renamer::date::CalendarDate;
use date_renamer::extract::{is_already_dated, match_date};
use date_renamer::pipeline::{
    plan_with_creation, rename_file, rename_file_obsidian, rename_files_in_directory_obsidian,
    rename_files_in_directory_recursive_obsidian, FileStep,
};
use date_renamer::plan::{plan, resolve, Malformed, RenameError, Resolution};
use date_renamer::remote::{creation_date_from_note, listing_from_entries, listing_from_response, rename_outcome};
use date_renamer::timestamp::{creation_date_local, creation_date_utc, date_from_parts};
use date_renamer::traverse::{FileOutcome, Mode, Summary, Traversal};

fn day(y: i64, m: i64, d: i64) -> CalendarDate {
    CalendarDate::new(y, m, d).unwrap()
}

fn ymd(c: CalendarDate) -> (u16, u8, u8) {
    (c.year(), c.month(), c.day())
}

#[test]
fn undated_name_uses_creation_date() {
    let step = rename_file("report.txt").unwrap();
    assert_eq!(step, FileStep::NeedsCreationDate);
    let p = plan_with_creation("report.txt", Ok(day(2023, 3, 5))).unwrap();
    assert_eq!(p.new_name, "2023-03-05 - report.txt");
    assert_eq!(p.new_path, "2023-03-05 - report.txt");
    assert_eq!(p.original, "report.txt");
}

#[test]
fn compact_year_first_name_is_planned() {
    match rename_file("20230305_report.txt").unwrap() {
        FileStep::Planned(p) => {
            assert_eq!(p.new_name, "2023-03-05 - 20230305_report.txt");
            assert_eq!(ymd(p.date), (2023, 3, 5));
        }
        other => panic!("unexpected step {:?}", other),
    }
}

#[test]
fn already_dated_name_is_skipped() {
    assert_eq!(rename_file("2023-03-05 - report.txt").unwrap(), FileStep::AlreadyDated);
    assert_eq!(resolve("2023-03-05 - report.txt"), Resolution::AlreadyDated);
}

#[test]
fn prefix_shape_without_real_day_is_skipped() {
    assert!(is_already_dated("2023-13-45 notes.md"));
    assert_eq!(rename_file_obsidian("vault/2023-13-45 notes.md").unwrap(), FileStep::AlreadyDated);
}

#[test]
fn listing_without_files_key_is_malformed_and_batch_succeeds() {
    let listing = listing_from_response(200, "{}");
    assert_eq!(listing, Err(RenameError::MalformedResponse(Malformed::MissingFiles, "{}".to_string())));
    let paths = rename_files_in_directory_obsidian("notes/", listing);
    assert!(paths.is_empty());
    let run = Traversal::new(Mode::FlatDirectory);
    assert_eq!(run.finish(), Ok(Summary { renamed: 0, skipped: 0, failed: 0 }));
}

#[test]
fn rename_not_found_fails_that_file_only() {
    let outcome = rename_outcome(404, "");
    assert_eq!(outcome, Err(RenameError::BackendStatus(404, String::new())));
    let mut run = Traversal::new(Mode::FlatDirectory);
    run.record(outcome.map(|_| FileOutcome::Renamed));
    run.record(rename_outcome(200, "").map(|_| FileOutcome::Renamed));
    assert_eq!(run.finish(), Ok(Summary { renamed: 1, skipped: 0, failed: 1 }));
}

#[test]
fn single_file_run_reports_its_failure() {
    let mut run = Traversal::new(Mode::SingleFile);
    run.record(Err(RenameError::MetadataUnavailable));
    assert_eq!(run.summary(), Summary { renamed: 0, skipped: 0, failed: 1 });
    assert_eq!(run.finish(), Err(RenameError::MetadataUnavailable));
}

#[test]
fn tree_run_keeps_counting_after_failures() {
    let mut run = Traversal::new(Mode::RecursiveTree);
    run.record(Err(RenameError::RenameFailed));
    run.record(Ok(FileOutcome::Skipped));
    run.record(Err(RenameError::BackendUnreachable));
    run.record(Ok(FileOutcome::Renamed));
    assert_eq!(run.mode(), Mode::RecursiveTree);
    assert_eq!(run.finish(), Ok(Summary { renamed: 1, skipped: 1, failed: 2 }));
}

#[test]
fn leading_iso_date_is_found_first() {
    assert_eq!(match_date("2023-03-05 20240101 x").map(ymd), Some((2023, 3, 5)));
}

#[test]
fn invalid_leading_date_falls_through_to_later_layouts() {
    assert_eq!(match_date("2023-13-01 20230102").map(ymd), Some((2023, 1, 2)));
}

#[test]
fn month_first_compact_date() {
    assert_eq!(match_date("scan_12252023.pdf").map(ymd), Some((2023, 12, 25)));
}

#[test]
fn day_first_compact_date_when_month_first_is_no_day() {
    assert_eq!(match_date("31122023.txt").map(ymd), Some((2023, 12, 31)));
}

#[test]
fn month_first_dashed_date() {
    assert_eq!(match_date("meeting 12-25-2023.md").map(ymd), Some((2023, 12, 25)));
}

#[test]
fn day_first_dashed_date_when_month_first_is_no_day() {
    assert_eq!(match_date("meeting 25-12-2023.md").map(ymd), Some((2023, 12, 25)));
}

#[test]
fn only_leftmost_occurrence_is_read() {
    // The leftmost eight digits are no date in any reading; later ones are not tried.
    assert_eq!(match_date("99999999 20230305"), None);
}

#[test]
fn name_without_date_is_not_found() {
    assert_eq!(match_date("report.txt"), None);
    assert_eq!(resolve("report.txt"), Resolution::NotFound);
    assert_eq!(match_date(""), None);
}

#[test]
fn leap_days() {
    assert_eq!(match_date("20240229").map(ymd), Some((2024, 2, 29)));
    assert!(CalendarDate::new(2023, 2, 29).is_none());
    assert!(CalendarDate::new(1900, 2, 29).is_none());
    assert!(CalendarDate::new(2000, 2, 29).is_some());
    assert!(CalendarDate::new(2023, 4, 31).is_none());
    assert!(CalendarDate::new(2023, 13, 1).is_none());
    assert!(CalendarDate::new(2023, 1, 0).is_none());
}

#[test]
fn iso_text_is_zero_padded() {
    assert_eq!(day(5, 1, 9).to_iso_string(), "0005-01-09");
    assert_eq!(day(2023, 12, 31).to_iso_string(), "2023-12-31");
}

#[test]
fn plan_keeps_directory_and_name() {
    let p = plan("notes/daily/report.txt", day(2023, 3, 5));
    assert_eq!(p.new_name, "2023-03-05 - report.txt");
    assert_eq!(p.new_path, "notes/daily/2023-03-05 - report.txt");
}

#[test]
fn second_run_skips_renamed_file() {
    let p = plan("notes/report.txt", day(2023, 3, 5));
    assert_eq!(rename_file(&p.new_path).unwrap(), FileStep::AlreadyDated);
    match rename_file("notes/20230305_a.md").unwrap() {
        FileStep::Planned(q) => assert_eq!(rename_file(&q.new_path).unwrap(), FileStep::AlreadyDated),
        other => panic!("unexpected step {:?}", other),
    }
}

#[test]
fn path_without_file_name_is_invalid() {
    assert_eq!(rename_file(""), Err(RenameError::InvalidPath));
    assert_eq!(rename_file_obsidian("notes/"), Err(RenameError::InvalidPath));
}

#[test]
fn fallback_error_passes_through() {
    assert_eq!(plan_with_creation("a.txt", Err(RenameError::MetadataUnavailable)), Err(RenameError::MetadataUnavailable));
}

#[test]
fn listing_keeps_string_entries_in_order() {
    let r = listing_from_response(200, r#"{"files":["a.md", 3, "sub/", null, "b.md"]}"#).unwrap();
    assert_eq!(r, vec!["a.md".to_string(), "sub/".to_string(), "b.md".to_string()]);
}

#[test]
fn listing_errors() {
    assert_eq!(listing_from_response(200, ""), Err(RenameError::MalformedResponse(Malformed::EmptyBody, String::new())));
    assert_eq!(listing_from_response(200, "not json"), Err(RenameError::MalformedResponse(Malformed::NotJson, "not json".to_string())));
    assert_eq!(listing_from_response(200, r#"{"files": "a"}"#), Err(RenameError::MalformedResponse(Malformed::MissingFiles, r#"{"files": "a"}"#.to_string())));
    assert_eq!(listing_from_response(500, "boom"), Err(RenameError::BackendStatus(500, "boom".to_string())));
}

#[test]
fn listing_from_entries_filters_non_strings() {
    let r = listing_from_entries("raw", Some(Some(vec![None, Some("x".to_string())]))).unwrap();
    assert_eq!(r, vec!["x".to_string()]);
    assert_eq!(listing_from_entries("raw", None), Err(RenameError::MalformedResponse(Malformed::NotJson, "raw".to_string())));
    assert_eq!(listing_from_entries("raw", Some(None)), Err(RenameError::MalformedResponse(Malformed::MissingFiles, "raw".to_string())));
}

#[test]
fn directory_paths_join_listing() {
    let names = vec!["a.md".to_string(), "b.md".to_string()];
    let flat = rename_files_in_directory_obsidian("notes/", Ok(names.clone()));
    assert_eq!(flat, vec!["notes/a.md".to_string(), "notes/b.md".to_string()]);
    let tree = rename_files_in_directory_recursive_obsidian("notes/", Ok(names));
    assert_eq!(tree.files, flat);
    assert!(tree.folders.is_empty());
}

#[test]
fn folder_entries_are_listed_next_not_renamed() {
    let names = vec!["a.md".to_string(), "sub/".to_string(), "b.md".to_string(), "deep/".to_string()];
    let tree = rename_files_in_directory_recursive_obsidian("notes/", Ok(names.clone()));
    assert_eq!(tree.folders, vec!["notes/sub/".to_string(), "notes/deep/".to_string()]);
    assert_eq!(tree.files, vec!["notes/a.md".to_string(), "notes/b.md".to_string()]);
    let flat = rename_files_in_directory_obsidian("notes/", Ok(names));
    assert_eq!(flat, vec!["notes/a.md".to_string(), "notes/b.md".to_string()]);
    let below = rename_files_in_directory_recursive_obsidian("notes/sub/", Ok(vec!["c.md".to_string()]));
    assert_eq!(below.files, vec!["notes/sub/c.md".to_string()]);
    assert!(below.folders.is_empty());
}

#[test]
fn failed_listing_gives_nothing_to_split() {
    let tree = rename_files_in_directory_recursive_obsidian("notes/", Err(RenameError::BackendUnreachable));
    assert!(tree.files.is_empty() && tree.folders.is_empty());
}

#[test]
fn note_creation_time_is_utc_day() {
    let c = creation_date_from_note(200, r#"{"stat":{"ctime":1677974400000}}"#).unwrap();
    assert_eq!(ymd(c), (2023, 3, 5));
    let late = creation_date_from_note(200, r#"{"stat":{"ctime":1678060799999}}"#).unwrap();
    assert_eq!(ymd(late), (2023, 3, 5));
}

#[test]
fn note_errors() {
    assert_eq!(creation_date_from_note(200, r#"{"stat":{}}"#), Err(RenameError::MetadataUnavailable));
    assert_eq!(creation_date_from_note(200, "<html>"), Err(RenameError::MalformedResponse(Malformed::NotJson, "<html>".to_string())));
    assert_eq!(creation_date_from_note(404, "gone"), Err(RenameError::BackendStatus(404, "gone".to_string())));
}

#[test]
fn utc_conversion_of_epoch() {
    assert_eq!(creation_date_utc(0).map(ymd), Ok((1970, 1, 1)));
    assert_eq!(creation_date_utc(-1).map(ymd), Ok((1969, 12, 31)));
    assert_eq!(creation_date_utc(i64::MAX), Err(RenameError::MetadataUnavailable));
}

#[test]
fn local_conversion_gives_a_nearby_day() {
    let c = creation_date_local(1677974400000 + 12 * 3600 * 1000).unwrap();
    assert_eq!((c.year(), c.month()), (2023, 3));
    assert!(c.day() >= 4 && c.day() <= 6);
}

#[test]
fn date_parts_outside_four_digit_years_are_unavailable() {
    assert_eq!(date_from_parts(Some((10000, 1, 1))), Err(RenameError::MetadataUnavailable));
    assert_eq!(date_from_parts(Some((-1, 1, 1))), Err(RenameError::MetadataUnavailable));
    assert_eq!(date_from_parts(None), Err(RenameError::MetadataUnavailable));
    assert_eq!(date_from_parts(Some((2023, 3, 5))).map(ymd), Ok((2023, 3, 5)));
}

#[test]
fn utc_conversion_at_four_digit_year_limits() {
    assert_eq!(creation_date_utc(-62167219200000).map(ymd), Ok((0, 1, 1)));
    assert_eq!(creation_date_utc(-62167219200001), Err(RenameError::MetadataUnavailable));
    assert_eq!(creation_date_utc(253402300799999).map(ymd), Ok((9999, 12, 31)));
    assert_eq!(creation_date_utc(253402300800000), Err(RenameError::MetadataUnavailable));
}

#[test]
fn local_conversion_within_four_digit_years_succeeds() {
    assert!(creation_date_local(0).is_ok());
    assert!(creation_date_local(-62167132800000).is_ok());
    assert!(creation_date_local(253402214399999).is_ok());
    assert_eq!(creation_date_local(i64::MAX), Err(RenameError::MetadataUnavailable));
}

#[test]
fn second_directory_run_skips_every_renamed_note() {
    let first = ["notes/report.txt", "notes/20230305_a.md"];
    let mut listed = Vec::new();
    for path in first {
        let p = match rename_file_obsidian(path).unwrap() {
            FileStep::Planned(p) => p,
            FileStep::NeedsCreationDate => plan_with_creation(path, Ok(day(2023, 3, 5))).unwrap(),
            FileStep::AlreadyDated => panic!("not dated yet"),
        };
        listed.push(p.new_name);
    }
    let paths = rename_files_in_directory_obsidian("notes/", Ok(listed));
    assert_eq!(paths.len(), 2);
    for path in paths {
        assert_eq!(rename_file_obsidian(&path).unwrap(), FileStep::AlreadyDated);
    }
}
