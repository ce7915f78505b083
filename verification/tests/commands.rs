use filo::commands::{
    delete_ruleset, enabled_rulesets, find_ruleset, list_source_files, reorder_rulesets,
    save_ruleset, store_ruleset, DirectoryItem,
};
use filo::ruleset::{Action, Filters, Ruleset, RulesetError, RulesetFile};
use filo::transfer::{FailureKind, IoFailure};

fn ruleset(id: &str, name: &str, enabled: bool) -> Ruleset {
    Ruleset {
        id: id.to_string(),
        name: name.to_string(),
        enabled,
        source_dir: "/src".to_string(),
        destination_dir: "/dst".to_string(),
        action: Action::Copy,
        overwrite: false,
        filters: Filters {
            extensions: Some(vec![".log".to_string()]),
            filename: None,
            created_at: None,
            modified_at: None,
        },
    }
}

fn file_of(list: Vec<Ruleset>) -> RulesetFile {
    RulesetFile { version: 1, rulesets: list }
}

fn ids(file: &RulesetFile) -> Vec<String> {
    file.rulesets.iter().map(|r| r.id.clone()).collect()
}

fn items(list: &[(&str, bool)]) -> Option<Result<Vec<DirectoryItem>, IoFailure>> {
    Some(Ok(list
        .iter()
        .map(|(name, is_file)| DirectoryItem { name: name.to_string(), is_file: *is_file })
        .collect()))
}

#[test]
fn test_list_source_files_returns_filenames() {
    let result = list_source_files("/d", items(&[("foo.txt", true), ("bar.jpg", true)])).unwrap();
    assert_eq!(result, vec!["bar.jpg", "foo.txt"]);
}

#[test]
fn test_list_source_files_excludes_directories() {
    let result = list_source_files("/d", items(&[("file.txt", true), ("subdir", false)])).unwrap();
    assert_eq!(result, vec!["file.txt"]);
}

#[test]
fn test_list_source_files_empty_dir() {
    let result = list_source_files("/d", items(&[])).unwrap();
    assert!(result.is_empty());
}

#[test]
fn test_list_source_files_nonexistent_dir() {
    let result = list_source_files("/nonexistent/path/12345", None);
    assert!(result.is_err());
}

#[test]
fn a_listing_is_sorted_by_code_points_and_keeps_equal_names() {
    let result = list_source_files(
        "/d",
        items(&[
            ("b", true),
            ("a", true),
            ("B", true),
            ("ab", true),
            ("é", true),
            ("a", true),
            ("", true),
            ("z", false),
            ("日本", true),
            ("a\u{10000}", true),
            ("a\u{ffff}", true),
        ]),
    )
    .unwrap();
    assert_eq!(
        result,
        vec!["", "B", "a", "a", "ab", "a\u{ffff}", "a\u{10000}", "b", "é", "日本"]
    );
}

#[test]
fn a_listing_that_failed_gives_its_message() {
    assert_eq!(
        list_source_files("/nowhere", None),
        Err("Directory not found: /nowhere".to_string())
    );
    let denied = IoFailure {
        kind: FailureKind::PermissionDenied,
        message: "Permission denied (os error 13)".to_string(),
    };
    assert_eq!(
        list_source_files("/d", Some(Err(denied))),
        Err("Permission denied (os error 13)".to_string())
    );
}

#[test]
fn a_new_file_has_version_one_and_no_ruleset() {
    assert_eq!(RulesetFile::new(), RulesetFile { version: 1, rulesets: vec![] });
}

#[test]
fn saving_a_ruleset_without_an_id_gives_it_a_fresh_one() {
    let mut file = file_of(vec![ruleset("a", "first", true)]);
    let id = save_ruleset(&mut file, ruleset("", "second", true)).unwrap();
    assert_eq!(id.len(), 36);
    assert_eq!(id.matches('-').count(), 4);
    assert_eq!(ids(&file), vec!["a".to_string(), id.clone()]);
    assert_eq!(file.rulesets[1].name, "second");
    let other = save_ruleset(&mut file, ruleset("", "third", true)).unwrap();
    assert_ne!(id, other);
    assert_eq!(file.rulesets.len(), 3);
    assert_eq!(file.version, 1);
}

#[test]
fn saving_a_ruleset_with_a_known_id_replaces_it_in_place() {
    let mut file = file_of(vec![
        ruleset("a", "first", true),
        ruleset("b", "second", true),
        ruleset("c", "third", true),
    ]);
    assert_eq!(save_ruleset(&mut file, ruleset("b", "changed", false)), Ok("b".to_string()));
    assert_eq!(ids(&file), vec!["a", "b", "c"]);
    assert_eq!(file.rulesets[1], ruleset("b", "changed", false));
    assert_eq!(file.rulesets[0], ruleset("a", "first", true));
    assert_eq!(save_ruleset(&mut file, ruleset("d", "new", true)), Ok("d".to_string()));
    assert_eq!(ids(&file), vec!["a", "b", "c", "d"]);
}

#[test]
fn storing_uses_the_fresh_id_only_for_a_ruleset_without_one() {
    let mut file = file_of(vec![]);
    assert_eq!(
        store_ruleset(&mut file, ruleset("", "x", true), "fresh".to_string()),
        Ok("fresh".to_string())
    );
    assert_eq!(
        store_ruleset(&mut file, ruleset("own", "y", true), "unused".to_string()),
        Ok("own".to_string())
    );
    assert_eq!(
        store_ruleset(&mut file, ruleset("", "z", true), "fresh".to_string()),
        Ok("fresh".to_string())
    );
    assert_eq!(ids(&file), vec!["fresh", "own"]);
    assert_eq!(file.rulesets[0].name, "z");
}

#[test]
fn a_ruleset_that_is_not_valid_is_not_saved() {
    let mut file = file_of(vec![ruleset("a", "first", true)]);
    assert_eq!(
        save_ruleset(&mut file, ruleset("a", "  ", true)),
        Err(RulesetError::NameRequired)
    );
    assert_eq!(file, file_of(vec![ruleset("a", "first", true)]));
}

#[test]
fn deleting_takes_out_every_ruleset_of_that_id() {
    let mut file = file_of(vec![
        ruleset("a", "1", true),
        ruleset("b", "2", true),
        ruleset("a", "3", true),
        ruleset("c", "4", true),
    ]);
    delete_ruleset(&mut file, "a");
    assert_eq!(file, file_of(vec![ruleset("b", "2", true), ruleset("c", "4", true)]));
    delete_ruleset(&mut file, "zzz");
    assert_eq!(ids(&file), vec!["b", "c"]);
    delete_ruleset(&mut file, "c");
    delete_ruleset(&mut file, "b");
    assert!(file.rulesets.is_empty());
}

#[test]
fn reordering_follows_the_ids_and_drops_what_is_not_named() {
    let mut file = file_of(vec![
        ruleset("a", "1", true),
        ruleset("b", "2", true),
        ruleset("c", "3", true),
    ]);
    reorder_rulesets(
        &mut file,
        &vec!["c".to_string(), "missing".to_string(), "a".to_string()],
    );
    assert_eq!(file, file_of(vec![ruleset("c", "3", true), ruleset("a", "1", true)]));
    reorder_rulesets(&mut file, &vec!["a".to_string(), "a".to_string()]);
    assert_eq!(ids(&file), vec!["a", "a"]);
    reorder_rulesets(&mut file, &vec![]);
    assert!(file.rulesets.is_empty());
}

#[test]
fn the_ruleset_to_execute_is_found_by_its_id() {
    let file = file_of(vec![
        ruleset("a", "1", true),
        ruleset("b", "2", true),
        ruleset("b", "3", true),
    ]);
    assert_eq!(find_ruleset(&file, "b").map(|r| r.name.as_str()), Ok("2"));
    assert_eq!(find_ruleset(&file, "x"), Err("Ruleset not found: x".to_string()));
    assert_eq!(find_ruleset(&file_of(vec![]), ""), Err("Ruleset not found: ".to_string()));
}

#[test]
fn only_enabled_rulesets_run_in_the_order_of_the_list() {
    let file = file_of(vec![
        ruleset("a", "1", true),
        ruleset("b", "2", false),
        ruleset("c", "3", true),
        ruleset("d", "4", false),
    ]);
    assert_eq!(
        enabled_rulesets(&file),
        vec![ruleset("a", "1", true), ruleset("c", "3", true)]
    );
    assert!(enabled_rulesets(&file_of(vec![ruleset("b", "2", false)])).is_empty());
}
