use filo::ruleset::{
    Action, DateTimeRange, FilenameFilter, Filters, MatchType, Ruleset, RulesetError,
};

fn sample_ruleset() -> Ruleset {
    Ruleset {
        id: "550e8400-e29b-41d4-a716-446655440000".to_string(),
        name: "画像ファイルを整理".to_string(),
        enabled: true,
        source_dir: "C:/Users/user/Downloads".to_string(),
        destination_dir: "C:/Users/user/Pictures/sorted".to_string(),
        action: Action::Move,
        overwrite: false,
        filters: Filters {
            extensions: Some(vec![".jpg".to_string(), ".png".to_string()]),
            filename: Some(FilenameFilter {
                pattern: "screenshot_*".to_string(),
                match_type: MatchType::Glob,
            }),
            created_at: None,
            modified_at: None,
        },
    }
}

#[test]
fn test_validate_valid_ruleset() {
    let rs = sample_ruleset();
    assert!(rs.validate().is_ok());
}

#[test]
fn test_validate_empty_name() {
    let mut rs = sample_ruleset();
    rs.name = "".to_string();
    assert!(rs.validate().is_err());
}

#[test]
fn test_validate_empty_source_dir() {
    let mut rs = sample_ruleset();
    rs.source_dir = "".to_string();
    assert!(rs.validate().is_err());
}

#[test]
fn test_validate_empty_destination_dir() {
    let mut rs = sample_ruleset();
    rs.destination_dir = "".to_string();
    assert!(rs.validate().is_err());
}

#[test]
fn test_validate_no_filters() {
    let mut rs = sample_ruleset();
    rs.filters = Filters {
        extensions: None,
        filename: None,
        created_at: None,
        modified_at: None,
    };
    assert!(rs.validate().is_err());
}

#[test]
fn test_validate_empty_extensions_list() {
    let mut rs = sample_ruleset();
    rs.filters = Filters {
        extensions: Some(vec![]),
        filename: None,
        created_at: None,
        modified_at: None,
    };
    assert!(rs.validate().is_err());
}

#[test]
fn test_filters_has_at_least_one() {
    let empty = Filters {
        extensions: None,
        filename: None,
        created_at: None,
        modified_at: None,
    };
    assert!(!empty.has_at_least_one());

    let with_ext = Filters {
        extensions: Some(vec![".txt".to_string()]),
        ..empty.clone()
    };
    assert!(with_ext.has_at_least_one());
}

#[test]
fn test_validate_template_with_regex_ok() {
    let mut rs = sample_ruleset();
    rs.destination_dir = "D:/sorted/{label}/{author}".to_string();
    rs.filters.filename = Some(FilenameFilter {
        pattern: r"^\((?P<label>[^)]+)\) \[(?P<author>[^]]+)\] .+".to_string(),
        match_type: MatchType::Regex,
    });
    assert!(rs.validate().is_ok());
}

#[test]
fn test_validate_template_with_glob_fails() {
    let mut rs = sample_ruleset();
    rs.destination_dir = "D:/sorted/{label}".to_string();
    rs.filters.filename = Some(FilenameFilter {
        pattern: "*.zip".to_string(),
        match_type: MatchType::Glob,
    });
    assert!(rs.validate().is_err());
}

#[test]
fn test_validate_template_without_filename_filter_fails() {
    let mut rs = sample_ruleset();
    rs.destination_dir = "D:/sorted/{label}".to_string();
    rs.filters = Filters {
        extensions: Some(vec![".zip".to_string()]),
        filename: None,
        created_at: None,
        modified_at: None,
    };
    assert!(rs.validate().is_err());
}

#[test]
fn test_validate_no_template_with_glob_ok() {
    let rs = sample_ruleset();
    assert!(rs.validate().is_ok());
}

#[test]
fn validate_reports_the_first_broken_rule() {
    let mut rs = sample_ruleset();
    rs.name = "  \t".to_string();
    rs.source_dir = "".to_string();
    assert_eq!(rs.validate(), Err(RulesetError::NameRequired));

    let mut rs = sample_ruleset();
    rs.source_dir = "\u{3000}".to_string();
    assert_eq!(rs.validate(), Err(RulesetError::SourceDirRequired));

    let mut rs = sample_ruleset();
    rs.destination_dir = " ".to_string();
    assert_eq!(rs.validate(), Err(RulesetError::DestinationDirRequired));

    let mut rs = sample_ruleset();
    rs.filters.extensions = None;
    rs.filters.filename = None;
    assert_eq!(rs.validate(), Err(RulesetError::FilterRequired));

    let mut rs = sample_ruleset();
    rs.destination_dir = "D:/sorted/{label}".to_string();
    assert_eq!(rs.validate(), Err(RulesetError::TemplateNeedsRegex));
}

#[test]
fn validate_rejects_an_empty_extension_list_beside_other_filters() {
    let mut rs = sample_ruleset();
    rs.filters.extensions = Some(vec![]);
    assert!(rs.filters.has_at_least_one());
    assert_eq!(rs.validate(), Err(RulesetError::EmptyExtensions));
}

#[test]
fn validate_rejects_a_bound_that_is_not_rfc3339() {
    let mut rs = sample_ruleset();
    rs.filters.created_at = Some(DateTimeRange {
        start: Some("2025-01-01T00:00:00+09:00".to_string()),
        end: Some("tomorrow".to_string()),
    });
    assert_eq!(
        rs.validate(),
        Err(RulesetError::InvalidDatetime("tomorrow".to_string()))
    );

    let mut rs = sample_ruleset();
    rs.filters.modified_at = Some(DateTimeRange {
        start: Some("2025-13-01T00:00:00Z".to_string()),
        end: None,
    });
    assert_eq!(
        rs.validate(),
        Err(RulesetError::InvalidDatetime(
            "2025-13-01T00:00:00Z".to_string()
        ))
    );

    let mut rs = sample_ruleset();
    rs.filters.created_at = Some(DateTimeRange {
        start: Some("2025-01-01T00:00:00+09:00".to_string()),
        end: None,
    });
    assert_eq!(rs.validate(), Ok(()));
}

#[test]
fn a_name_is_blank_only_if_every_character_is_white_space() {
    let mut rs = sample_ruleset();
    rs.name = " x ".to_string();
    assert!(rs.validate().is_ok());
    rs.name = "\u{200B}".to_string();
    assert!(rs.validate().is_ok());
    rs.name = "\u{2003}\u{0085}\n".to_string();
    assert_eq!(rs.validate(), Err(RulesetError::NameRequired));
}

#[test]
fn messages_read_as_validation_errors() {
    assert_eq!(
        RulesetError::NameRequired.message(),
        "Validation error: name is required"
    );
    assert_eq!(
        RulesetError::SourceDirRequired.message(),
        "Validation error: source_dir is required"
    );
    assert_eq!(
        RulesetError::DestinationDirRequired.message(),
        "Validation error: destination_dir is required"
    );
    assert_eq!(
        RulesetError::FilterRequired.message(),
        "Validation error: at least one filter is required"
    );
    assert_eq!(
        RulesetError::EmptyExtensions.message(),
        "Validation error: extensions must not be empty"
    );
    assert_eq!(
        RulesetError::TemplateNeedsRegex.message(),
        "Validation error: destination_dir contains template variables but filename filter is not regex"
    );
    assert_eq!(
        RulesetError::InvalidDatetime("x".to_string()).message(),
        "Validation error: invalid datetime format: 'x'"
    );
}

#[test]
fn paths_are_the_directories_as_written() {
    let rs = sample_ruleset();
    assert_eq!(rs.source_path(), "C:/Users/user/Downloads");
    assert_eq!(rs.destination_path(), "C:/Users/user/Pictures/sorted");
}

#[test]
fn a_clone_is_equal() {
    let rs = sample_ruleset();
    assert_eq!(rs.clone(), rs);
}
