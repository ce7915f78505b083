use filo::filters::{
    extract_named_captures, match_datetime_range, match_extensions, match_filename,
    matches_filters, pair_named_groups, FileMeta,
};
use filo::pattern::{CompiledGlob, CompiledRegex};
use filo::ruleset::{DateTimeRange, FilenameFilter, Filters, MatchType};
use filo::time::{parse_instant, Timestamp};

fn meta() -> FileMeta {
    FileMeta {
        size: 12,
        created: Some(Timestamp { secs: 1_700_000_000, nanos: 0 }),
        modified: Some(Timestamp { secs: 1_700_000_500, nanos: 250 }),
    }
}

fn no_filters() -> Filters {
    Filters { extensions: None, filename: None, created_at: None, modified_at: None }
}

#[test]
fn test_extract_named_captures_basic() {
    let re = CompiledRegex::compile(r"^\((?P<label>[^)]+)\) \[(?P<author>[^]]+)\] .+").unwrap();
    let captures = extract_named_captures("(book) [john_doe] ihavepen.zip", &re);
    assert_eq!(captures.get("label").map(|s| s.as_str()), Some("book"));
    assert_eq!(captures.get("author").map(|s| s.as_str()), Some("john_doe"));
}

#[test]
fn test_extract_named_captures_no_match() {
    let re = CompiledRegex::compile(r"^\((?P<label>[^)]+)\) \[(?P<author>[^]]+)\] .+").unwrap();
    let captures = extract_named_captures("somefile.txt", &re);
    assert!(captures.is_empty());
}

#[test]
fn test_extract_named_captures_unnamed_groups_ignored() {
    let re = CompiledRegex::compile(r"^(?P<first>[a-z]+)_([a-z]+)$").unwrap();
    let captures = extract_named_captures("hello_world", &re);
    assert_eq!(captures.len(), 1);
    assert_eq!(captures.get("first").map(|s| s.as_str()), Some("hello"));
}

#[test]
fn test_extract_named_captures_multiple_groups() {
    let re =
        CompiledRegex::compile(r"^(?P<year>\d{4})-(?P<month>\d{2})-(?P<day>\d{2})_.+").unwrap();
    let captures = extract_named_captures("2025-01-15_report.pdf", &re);
    assert_eq!(captures.get("year").map(|s| s.as_str()), Some("2025"));
    assert_eq!(captures.get("month").map(|s| s.as_str()), Some("01"));
    assert_eq!(captures.get("day").map(|s| s.as_str()), Some("15"));
}

#[test]
fn test_match_extensions_jpg() {
    let filters = Filters {
        extensions: Some(vec![".jpg".to_string(), ".png".to_string()]),
        ..no_filters()
    };
    assert!(matches_filters("photo.jpg", &meta(), &filters));
}

#[test]
fn test_match_extensions_case_insensitive() {
    let filters = Filters { extensions: Some(vec![".jpg".to_string()]), ..no_filters() };
    assert!(matches_filters("photo.JPG", &meta(), &filters));
}

#[test]
fn test_match_extensions_no_match() {
    let filters = Filters {
        extensions: Some(vec![".jpg".to_string(), ".png".to_string()]),
        ..no_filters()
    };
    assert!(!matches_filters("document.pdf", &meta(), &filters));
}

#[test]
fn test_match_filename_glob() {
    let filters = Filters {
        filename: Some(FilenameFilter {
            pattern: "screenshot_*".to_string(),
            match_type: MatchType::Glob,
        }),
        ..no_filters()
    };
    assert!(matches_filters("screenshot_001.png", &meta(), &filters));
}

#[test]
fn test_match_filename_glob_no_match() {
    let filters = Filters {
        filename: Some(FilenameFilter {
            pattern: "screenshot_*".to_string(),
            match_type: MatchType::Glob,
        }),
        ..no_filters()
    };
    assert!(!matches_filters("photo.png", &meta(), &filters));
}

#[test]
fn test_match_filename_regex() {
    let filters = Filters {
        filename: Some(FilenameFilter {
            pattern: r"^IMG_\d{8}_\d+\.jpg$".to_string(),
            match_type: MatchType::Regex,
        }),
        ..no_filters()
    };
    assert!(matches_filters("IMG_20250101_001.jpg", &meta(), &filters));
}

#[test]
fn test_match_filename_regex_no_match() {
    let filters = Filters {
        filename: Some(FilenameFilter {
            pattern: r"^IMG_\d{8}_\d+\.jpg$".to_string(),
            match_type: MatchType::Regex,
        }),
        ..no_filters()
    };
    assert!(!matches_filters("photo.jpg", &meta(), &filters));
}

#[test]
fn test_and_combination_extensions_and_filename() {
    let filters = Filters {
        extensions: Some(vec![".png".to_string()]),
        filename: Some(FilenameFilter {
            pattern: "screenshot_*".to_string(),
            match_type: MatchType::Glob,
        }),
        ..no_filters()
    };
    assert!(matches_filters("screenshot_001.png", &meta(), &filters));

    let filters_no_match = Filters {
        extensions: Some(vec![".png".to_string()]),
        filename: Some(FilenameFilter {
            pattern: "photo_*".to_string(),
            match_type: MatchType::Glob,
        }),
        ..no_filters()
    };
    assert!(!matches_filters("screenshot_001.png", &meta(), &filters_no_match));
}

fn modified_now() -> FileMeta {
    let now = chrono::Utc::now();
    FileMeta {
        size: 12,
        created: None,
        modified: Some(Timestamp { secs: now.timestamp(), nanos: now.timestamp_subsec_nanos() }),
    }
}

#[test]
fn test_match_modified_at_range() {
    let filters = Filters {
        modified_at: Some(DateTimeRange {
            start: Some((chrono::Local::now() - chrono::Duration::hours(1)).to_rfc3339()),
            end: None,
        }),
        ..no_filters()
    };
    assert!(matches_filters("recent.txt", &modified_now(), &filters));
}

#[test]
fn test_match_modified_at_out_of_range() {
    let filters = Filters {
        modified_at: Some(DateTimeRange {
            start: None,
            end: Some((chrono::Local::now() - chrono::Duration::hours(1)).to_rfc3339()),
        }),
        ..no_filters()
    };
    assert!(!matches_filters("old.txt", &modified_now(), &filters));
}

#[test]
fn test_no_filters_matches_everything() {
    assert!(matches_filters("anything.xyz", &meta(), &no_filters()));
}

#[test]
fn test_match_datetime_range_invalid_start_returns_false() {
    let filters = Filters {
        modified_at: Some(DateTimeRange { start: Some("invalid-date".to_string()), end: None }),
        ..no_filters()
    };
    assert!(!matches_filters("file.txt", &meta(), &filters));
}

#[test]
fn test_match_datetime_range_invalid_end_returns_false() {
    let filters = Filters {
        modified_at: Some(DateTimeRange { start: None, end: Some("not-a-date".to_string()) }),
        ..no_filters()
    };
    assert!(!matches_filters("file.txt", &meta(), &filters));
}

#[test]
fn the_extension_is_what_follows_the_last_dot() {
    let list = vec![".gz".to_string(), ".TXT".to_string(), ".".to_string()];
    assert!(match_extensions("archive.tar.gz", &list));
    assert!(match_extensions("notes.txt", &list));
    assert!(match_extensions("NOTES.Txt", &list));
    assert!(match_extensions("trailing.", &list));
    assert!(!match_extensions("archive.tar", &list));
    assert!(!match_extensions("gz", &list));
    assert!(!match_extensions(".gz", &list));
    assert!(!match_extensions("..", &list));
    assert!(!match_extensions("", &list));
    assert!(match_extensions("..gz", &list));
    assert!(!match_extensions("notes.txt", &vec![]));
    assert!(!match_extensions("notes.txt", &vec!["txt".to_string()]));
}

#[test]
fn extensions_are_compared_in_lower_case() {
    assert!(match_extensions("MENU.ÉTÉ", &vec![".été".to_string()]));
    assert!(match_extensions("menu.été", &vec![".ÉTÉ".to_string()]));
    assert!(!match_extensions("menu.ete", &vec![".été".to_string()]));
}

#[test]
fn a_shell_pattern_has_to_match_the_whole_name() {
    assert!(match_filename("report.pdf", "*.pdf", &MatchType::Glob));
    assert!(match_filename("report.pdf", "rep?rt.[op]df", &MatchType::Glob));
    assert!(!match_filename("report.pdf", "report", &MatchType::Glob));
    assert!(!match_filename("Report.pdf", "report.pdf", &MatchType::Glob));
    assert!(match_filename("report.pdf", "report.pdf", &MatchType::Glob));
}

#[test]
fn a_regular_expression_may_match_any_part_of_the_name() {
    assert!(match_filename("report.pdf", "port", &MatchType::Regex));
    assert!(!match_filename("report.pdf", "^port", &MatchType::Regex));
    assert!(match_filename("report.pdf", r"^re.*\.pdf$", &MatchType::Regex));
}

#[test]
fn a_pattern_that_cannot_be_compiled_accepts_nothing() {
    assert!(!match_filename("abc", "a[", &MatchType::Glob));
    assert!(!match_filename("abc", "a***", &MatchType::Glob));
    assert!(!match_filename("abc", "(", &MatchType::Regex));
    assert!(!match_filename("(", "(", &MatchType::Regex));
    assert!(CompiledGlob::compile("a[").is_none());
    assert!(CompiledGlob::compile("a*").is_some());
    assert!(CompiledRegex::compile("(").is_none());
    assert!(CompiledRegex::compile("a+").is_some());
}

#[test]
fn a_range_holds_its_bounds() {
    let at = Timestamp { secs: 1_735_689_600, nanos: 0 };
    let same = Some("2025-01-01T00:00:00Z".to_string());
    let same_elsewhere = Some("2025-01-01T09:00:00+09:00".to_string());
    let later = Some("2025-01-01T00:00:01Z".to_string());
    let earlier = Some("2024-12-31T23:59:59.999999999Z".to_string());
    assert!(match_datetime_range(&at, &None, &None));
    assert!(match_datetime_range(&at, &same, &same));
    assert!(match_datetime_range(&at, &same_elsewhere, &same_elsewhere));
    assert!(match_datetime_range(&at, &earlier, &later));
    assert!(!match_datetime_range(&at, &later, &None));
    assert!(!match_datetime_range(&at, &None, &earlier));
    assert!(!match_datetime_range(&at, &Some("x".to_string()), &later));
    assert!(!match_datetime_range(&at, &earlier, &Some("".to_string())));
    let just_after = Timestamp { secs: 1_735_689_600, nanos: 1 };
    assert!(!match_datetime_range(&just_after, &None, &same));
    assert!(match_datetime_range(&just_after, &same, &None));
}

#[test]
fn an_instant_is_read_as_seconds_and_nanoseconds() {
    assert_eq!(
        parse_instant("2025-01-01T00:00:00+09:00"),
        Some(Timestamp { secs: 1_735_657_200, nanos: 0 })
    );
    assert_eq!(
        parse_instant("1970-01-01T00:00:00.5Z"),
        Some(Timestamp { secs: 0, nanos: 500_000_000 })
    );
    assert_eq!(
        parse_instant("1969-12-31T23:59:59Z"),
        Some(Timestamp { secs: -1, nanos: 0 })
    );
    assert_eq!(
        parse_instant("2016-12-31T23:59:60Z"),
        Some(Timestamp { secs: 1_483_228_799, nanos: 1_000_000_000 })
    );
    assert_eq!(parse_instant("2025-01-01"), None);
    assert_eq!(parse_instant(""), None);
    assert!(Timestamp { secs: 1, nanos: 5 }.is_before(&Timestamp { secs: 1, nanos: 6 }));
    assert!(Timestamp { secs: 1, nanos: 5 }.is_before(&Timestamp { secs: 2, nanos: 0 }));
    assert!(!Timestamp { secs: 1, nanos: 5 }.is_before(&Timestamp { secs: 1, nanos: 5 }));
    assert!(!Timestamp { secs: 2, nanos: 0 }.is_before(&Timestamp { secs: 1, nanos: 9 }));
}

#[test]
fn a_time_that_the_host_cannot_give_fails_its_filter() {
    let filters = Filters {
        created_at: Some(DateTimeRange { start: None, end: None }),
        ..no_filters()
    };
    assert!(matches_filters("a.txt", &meta(), &filters));
    let unknown = FileMeta { size: 1, created: None, modified: None };
    assert!(!matches_filters("a.txt", &unknown, &filters));
    let filters = Filters {
        modified_at: Some(DateTimeRange { start: None, end: None }),
        ..no_filters()
    };
    assert!(!matches_filters("a.txt", &unknown, &filters));
}

#[test]
fn groups_are_paired_with_their_names() {
    let names = vec![None, Some("a".to_string()), None, Some("b".to_string())];
    let groups = Some(vec![
        Some("whole".to_string()),
        Some("1".to_string()),
        Some("2".to_string()),
        None,
    ]);
    let m = pair_named_groups(&names, &groups);
    assert_eq!(m.len(), 1);
    assert_eq!(m.get("a").map(|s| s.as_str()), Some("1"));
    assert_eq!(m.get("b"), None);
    assert!(pair_named_groups(&names, &None).is_empty());
    let short = Some(vec![Some("whole".to_string())]);
    assert!(pair_named_groups(&names, &short).is_empty());
}

#[test]
fn a_group_that_took_no_part_binds_nothing() {
    let re = CompiledRegex::compile(r"^(?:(?P<num>[0-9]+)|(?P<word>[a-z]+))$").unwrap();
    let m = extract_named_captures("abc", &re);
    assert_eq!(m.len(), 1);
    assert_eq!(m.get("word").map(|s| s.as_str()), Some("abc"));
    assert_eq!(m.get("num"), None);
}

#[test]
fn the_extension_is_that_of_the_standard_library() {
    let alphabet = ['.', 'a', 'B'];
    let mut names = vec![String::new()];
    let mut last = vec![String::new()];
    for _ in 0..5 {
        let mut longer = Vec::new();
        for n in &last {
            for c in alphabet {
                let mut u = n.clone();
                u.push(c);
                longer.push(u);
            }
        }
        names.extend(longer.iter().cloned());
        last = longer;
    }
    for name in &names {
        let expected = std::path::Path::new(name)
            .extension()
            .and_then(|e| e.to_str())
            .map(|e| format!(".{}", e.to_lowercase()));
        for listed in [".", ".a", ".b", ".ab", ".ba", ".aa", ".bb"] {
            assert_eq!(
                match_extensions(name, &vec![listed.to_string()]),
                expected.as_deref() == Some(listed),
                "{:?} {:?}",
                name,
                listed
            );
        }
    }
}
