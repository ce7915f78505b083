use filo::captures::CaptureMap;
use filo::template::{has_template_vars, resolve_destination_template, sanitize_path_component};

#[test]
fn test_has_template_vars_true() {
    assert!(has_template_vars("D:/sorted/{label}/{author}"));
    assert!(has_template_vars("{category}/file"));
    assert!(has_template_vars("base/{x}"));
}

#[test]
fn test_has_template_vars_false() {
    assert!(!has_template_vars("D:/sorted/static"));
    assert!(!has_template_vars("C:/Users/user/Downloads"));
    assert!(!has_template_vars(""));
}

#[test]
fn test_sanitize_path_component_valid() {
    assert_eq!(sanitize_path_component("valid"), "valid");
    assert_eq!(sanitize_path_component("john_doe"), "john_doe");
    assert_eq!(sanitize_path_component("book123"), "book123");
}

#[test]
fn test_sanitize_path_component_invalid_chars() {
    assert_eq!(sanitize_path_component("sci/fi"), "sci_fi");
    assert_eq!(sanitize_path_component("with:colon"), "with_colon");
    assert_eq!(sanitize_path_component("with\\backslash"), "with_backslash");
    assert_eq!(sanitize_path_component("with*star"), "with_star");
    assert_eq!(sanitize_path_component("with?question"), "with_question");
    assert_eq!(sanitize_path_component("with\"quote"), "with_quote");
    assert_eq!(sanitize_path_component("with<lt>gt"), "with_lt_gt");
    assert_eq!(sanitize_path_component("with|pipe"), "with_pipe");
}

#[test]
fn test_resolve_destination_template_success() {
    let mut captures = CaptureMap::new();
    captures.insert("label".to_string(), "book".to_string());
    captures.insert("author".to_string(), "john_doe".to_string());

    let result = resolve_destination_template("D:/sorted/{label}/{author}", &captures);
    assert_eq!(result.unwrap(), "D:/sorted/book/john_doe");
}

#[test]
fn test_resolve_destination_template_missing_var() {
    let mut captures = CaptureMap::new();
    captures.insert("label".to_string(), "book".to_string());

    let result = resolve_destination_template("D:/sorted/{label}/{author}", &captures);
    assert!(result.is_err());
    assert!(result.unwrap_err().contains("author"));
}

#[test]
fn test_resolve_destination_template_empty_value() {
    let mut captures = CaptureMap::new();
    captures.insert("label".to_string(), "".to_string());

    let result = resolve_destination_template("D:/sorted/{label}", &captures);
    assert!(result.is_err());
}

#[test]
fn test_resolve_destination_template_sanitizes_value() {
    let mut captures = CaptureMap::new();
    captures.insert("label".to_string(), "sci/fi".to_string());

    let result = resolve_destination_template("D:/sorted/{label}", &captures);
    assert_eq!(result.unwrap(), "D:/sorted/sci_fi");
}

#[test]
fn a_closing_brace_before_the_opening_one_is_no_variable() {
    assert!(!has_template_vars("}{"));
    assert!(!has_template_vars("a}b{c"));
    assert!(!has_template_vars("{"));
    assert!(!has_template_vars("}"));
    assert!(has_template_vars("{}"));
    assert!(has_template_vars("a{b{c}"));
}

#[test]
fn sanitizing_keeps_other_characters() {
    assert_eq!(sanitize_path_component(""), "");
    assert_eq!(sanitize_path_component("日本語 テスト.txt"), "日本語 テスト.txt");
    assert_eq!(sanitize_path_component("/\\:*?\"<>|"), "_________");
    assert_eq!(sanitize_path_component("a{b}c"), "a{b}c");
}

#[test]
fn the_messages_name_the_variable() {
    let mut captures = CaptureMap::new();
    captures.insert("label".to_string(), "".to_string());
    assert_eq!(
        resolve_destination_template("D:/{label}", &captures),
        Err("Template variable 'label' resolved to empty string".to_string())
    );
    assert_eq!(
        resolve_destination_template("D:/{author}", &captures),
        Err("Template variable 'author' not found in regex capture groups".to_string())
    );
}

#[test]
fn the_first_failure_from_the_left_is_reported() {
    let mut captures = CaptureMap::new();
    captures.insert("empty".to_string(), "".to_string());
    captures.insert("ok".to_string(), "fine".to_string());
    assert_eq!(
        resolve_destination_template("{ok}/{missing}/{empty}", &captures),
        Err("Template variable 'missing' not found in regex capture groups".to_string())
    );
    assert_eq!(
        resolve_destination_template("{empty}/{missing}/{ok}", &captures),
        Err("Template variable 'empty' resolved to empty string".to_string())
    );
}

#[test]
fn braces_that_hold_no_name_stay_as_they_are() {
    let mut captures = CaptureMap::new();
    captures.insert("a".to_string(), "1".to_string());
    captures.insert("{a".to_string(), "2".to_string());
    assert_eq!(resolve_destination_template("{}", &captures), Ok("{}".to_string()));
    assert_eq!(resolve_destination_template("x{", &captures), Ok("x{".to_string()));
    assert_eq!(resolve_destination_template("}{a", &captures), Ok("}{a".to_string()));
    assert_eq!(resolve_destination_template("{}{a}", &captures), Ok("{}1".to_string()));
    assert_eq!(resolve_destination_template("{{a}}", &captures), Ok("2}".to_string()));
    assert_eq!(resolve_destination_template("", &captures), Ok("".to_string()));
    assert_eq!(resolve_destination_template("{a}{a}", &captures), Ok("11".to_string()));
}

#[test]
fn a_capture_cannot_bring_a_separator_into_the_path() {
    let mut captures = CaptureMap::new();
    captures.insert("v".to_string(), "../../etc:passwd".to_string());
    assert_eq!(
        resolve_destination_template("/safe/{v}/x", &captures),
        Ok("/safe/.._.._etc_passwd/x".to_string())
    );
}

#[test]
fn a_capture_map_binds_each_name_once() {
    let mut captures = CaptureMap::new();
    assert!(captures.is_empty());
    assert_eq!(captures.len(), 0);
    assert_eq!(captures.get("a"), None);
    captures.insert("a".to_string(), "1".to_string());
    captures.insert("b".to_string(), "2".to_string());
    captures.insert("a".to_string(), "3".to_string());
    assert!(!captures.is_empty());
    assert_eq!(captures.len(), 2);
    assert_eq!(captures.get("a").map(|s| s.as_str()), Some("3"));
    assert_eq!(captures.get("b").map(|s| s.as_str()), Some("2"));
    assert_eq!(captures.get("c"), None);
}

fn resolved_by_pattern(template: &str, captures: &[(&str, &str)]) -> Result<String, String> {
    let pattern = regex::Regex::new(r"\{([^}]+)\}").unwrap();
    let mut failure: Option<String> = None;
    let text = pattern.replace_all(template, |found: &regex::Captures| {
        let name = &found[1];
        match captures.iter().find(|(n, _)| *n == name) {
            Some((_, value)) if !value.is_empty() => sanitize_path_component(value),
            Some(_) => {
                failure.get_or_insert_with(|| {
                    format!("Template variable '{}' resolved to empty string", name)
                });
                String::new()
            }
            None => {
                failure.get_or_insert_with(|| {
                    format!("Template variable '{}' not found in regex capture groups", name)
                });
                String::new()
            }
        }
    });
    match failure {
        Some(reason) => Err(reason),
        None => Ok(text.into_owned()),
    }
}

#[test]
fn a_variable_is_what_the_pattern_of_braces_matches() {
    let bound = [("a", "1"), ("b", ""), ("a/", "x/y"), ("{a", "2"), ("\n", "3")];
    let mut captures = CaptureMap::new();
    for (name, value) in bound {
        captures.insert(name.to_string(), value.to_string());
    }
    let alphabet = ['{', '}', 'a', '/'];
    let mut templates = vec![String::new()];
    let mut last = vec![String::new()];
    for _ in 0..6 {
        let mut longer = Vec::new();
        for t in &last {
            for c in alphabet {
                let mut u = t.clone();
                u.push(c);
                longer.push(u);
            }
        }
        templates.extend(longer.iter().cloned());
        last = longer;
    }
    assert_eq!(templates.len(), 5_461);
    for t in ["{b}", "{a}{b}", "{b}{c}", "{c}{b}", "{\n}", "{a\n}", "x{\n}{a}", "{{a}{a}}"] {
        templates.push(t.to_string());
    }
    for t in &templates {
        assert_eq!(
            resolve_destination_template(t, &captures),
            resolved_by_pattern(t, &bound),
            "{:?}",
            t
        );
        let has = t.find('{').map_or(false, |i| t[i..].contains('}'));
        assert_eq!(has_template_vars(t), has, "{:?}", t);
    }
}
