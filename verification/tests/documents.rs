use pattern_store::document::file_name;
use pattern_store::is_pattern_file;
use pattern_store::render_document;
use pattern_store::split_document;
use pattern_store::CreatePatternRequest;

fn new_pattern_request(projects: Option<Vec<&str>>, tags: Vec<&str>) -> CreatePatternRequest {
    CreatePatternRequest {
        pattern_name: "new-pattern".to_string(),
        category: "rust".to_string(),
        framework: "axum".to_string(),
        projects: projects.map(|p| p.into_iter().map(String::from).collect()),
        tag: tags.into_iter().map(String::from).collect(),
        content: "Use a tower layer.".to_string(),
    }
}

#[test]
fn split_takes_header_and_body_apart() {
    let d = split_document("---\npattern: a\ncategory: b\n---\n\nThe body.\n").unwrap();
    assert_eq!(d.header, "pattern: a\ncategory: b");
    assert_eq!(d.body, "The body.");
}

#[test]
fn split_trims_the_body() {
    let d = split_document("---\nh\n---\n \n\t body line 1\nline 2 \n\n").unwrap();
    assert_eq!(d.header, "h");
    assert_eq!(d.body, "body line 1\nline 2");
}

#[test]
fn split_splits_at_the_first_separator() {
    let d = split_document("---\nh\n---\nbody\n---\nmore\n").unwrap();
    assert_eq!(d.header, "h");
    assert_eq!(d.body, "body\n---\nmore");
}

#[test]
fn split_accepts_an_empty_header_line() {
    let d = split_document("---\n\n---\nbody").unwrap();
    assert_eq!(d.header, "");
    assert_eq!(d.body, "body");
}

#[test]
fn split_accepts_an_empty_body() {
    let d = split_document("---\nh\n---\n").unwrap();
    assert_eq!(d.header, "h");
    assert_eq!(d.body, "");
}

#[test]
fn split_rejects_a_missing_opening_line() {
    assert!(split_document("pattern: a\n---\nbody").is_none());
    assert!(split_document(" ---\nh\n---\nbody").is_none());
    assert!(split_document("--\nh\n---\nbody").is_none());
    assert!(split_document("---\r\nh\n---\nbody").is_none());
    assert!(split_document("").is_none());
    assert!(split_document("---").is_none());
}

#[test]
fn split_rejects_a_missing_separator() {
    assert!(split_document("---\npattern: a\ncategory: b\n\nbody").is_none());
    assert!(split_document("---\nh\n---").is_none());
    assert!(split_document("---\nh\n----\nbody").is_none());
    assert!(split_document("---\nh\n ---\nbody").is_none());
    assert!(split_document("---\n").is_none());
}

#[test]
fn split_needs_a_newline_before_the_separator() {
    // the opening line's own newline is not the separator's
    assert!(split_document("---\n---\nbody").is_none());
}

#[test]
fn split_counts_characters() {
    let d = split_document("---\nnom: é\n---\nécole\n").unwrap();
    assert_eq!(d.header, "nom: é");
    assert_eq!(d.body, "école");
}

#[test]
fn document_without_lists() {
    let text = render_document(&new_pattern_request(None, vec![]));
    assert_eq!(
        text,
        "---\npattern: new-pattern\ncategory: rust\nframework: axum\n---\n\nUse a tower layer.\n"
    );
}

#[test]
fn document_with_projects_and_tags() {
    let text = render_document(&new_pattern_request(Some(vec!["shop", "blog"]), vec!["web", "http"]));
    assert_eq!(
        text,
        "---\npattern: new-pattern\ncategory: rust\nframework: axum\nprojects: [shop, blog]\ntags: [web, http]\n---\n\nUse a tower layer.\n"
    );
}

#[test]
fn document_with_tags_only() {
    let text = render_document(&new_pattern_request(None, vec!["web"]));
    assert_eq!(
        text,
        "---\npattern: new-pattern\ncategory: rust\nframework: axum\ntags: [web]\n---\n\nUse a tower layer.\n"
    );
}

#[test]
fn document_leaves_out_an_empty_project_list() {
    let text = render_document(&new_pattern_request(Some(vec![]), vec![]));
    assert_eq!(
        text,
        "---\npattern: new-pattern\ncategory: rust\nframework: axum\n---\n\nUse a tower layer.\n"
    );
}

#[test]
fn document_keeps_the_content_as_given() {
    let mut req = new_pattern_request(None, vec![]);
    req.content = "  indented\n\nlast line  ".to_string();
    let text = render_document(&req);
    assert!(text.ends_with("---\n\n  indented\n\nlast line  \n"));
}

#[test]
fn written_document_splits_into_what_was_written() {
    let req = new_pattern_request(Some(vec!["shop"]), vec!["web", "http"]);
    let d = split_document(&render_document(&req)).unwrap();
    assert_eq!(
        d.header,
        "pattern: new-pattern\ncategory: rust\nframework: axum\nprojects: [shop]\ntags: [web, http]"
    );
    assert_eq!(d.body, "Use a tower layer.");
}

#[test]
fn written_document_splits_with_content_trimmed() {
    let mut req = new_pattern_request(None, vec![]);
    req.content = "\n\n  Spaced out.\n---\nStill content. \n".to_string();
    let d = split_document(&render_document(&req)).unwrap();
    assert_eq!(d.header, "pattern: new-pattern\ncategory: rust\nframework: axum");
    assert_eq!(d.body, "Spaced out.\n---\nStill content.");
}

#[test]
fn written_header_reads_back_as_yaml() {
    let req = new_pattern_request(Some(vec!["shop", "blog"]), vec!["web", "http"]);
    let d = split_document(&render_document(&req)).unwrap();
    let header: serde_yaml::Value = serde_yaml::from_str(&d.header).unwrap();
    assert_eq!(header.get("pattern").and_then(|v| v.as_str()), Some("new-pattern"));
    assert_eq!(header.get("category").and_then(|v| v.as_str()), Some("rust"));
    assert_eq!(header.get("framework").and_then(|v| v.as_str()), Some("axum"));
    let list = |key: &str| -> Vec<String> {
        header
            .get(key)
            .and_then(|v| v.as_sequence())
            .map(|s| s.iter().filter_map(|v| v.as_str()).map(String::from).collect())
            .unwrap_or_default()
    };
    assert_eq!(list("projects"), vec!["shop", "blog"]);
    assert_eq!(list("tags"), vec!["web", "http"]);
}

#[test]
fn a_separator_inside_the_header_moves_the_split() {
    // a category that holds a separator of its own: the one input kind
    // for which the header does not come back whole
    let mut req = new_pattern_request(None, vec![]);
    req.category = "a\n---\nb".to_string();
    let d = split_document(&render_document(&req)).unwrap();
    assert_eq!(d.header, "pattern: new-pattern\ncategory: a");
}

#[test]
fn file_name_appends_the_extension() {
    assert_eq!(file_name("new-pattern"), "new-pattern.md");
    assert!(is_pattern_file(&file_name("x")));
}

#[test]
fn pattern_files_end_in_md() {
    assert!(is_pattern_file("retry-backoff.md"));
    assert!(is_pattern_file("a.md"));
    assert!(is_pattern_file("a.b.md"));
    assert!(is_pattern_file("..md"));
    assert!(is_pattern_file(".hidden.md"));
}

#[test]
fn other_files_are_passed_over() {
    assert!(!is_pattern_file(".md"));
    assert!(!is_pattern_file("md"));
    assert!(!is_pattern_file("a.MD"));
    assert!(!is_pattern_file("a.md.bak"));
    assert!(!is_pattern_file("a.txt"));
    assert!(!is_pattern_file("amd"));
    assert!(!is_pattern_file("a.mdx"));
    assert!(!is_pattern_file("README"));
    assert!(!is_pattern_file(""));
}

#[test]
fn pattern_files_are_those_with_the_extension_md() {
    for name in [
        "a.md", ".md", "..md", "a.b.md", "a.md.bak", "a.MD", "README", ".hidden", ".hidden.md",
        "é.md", "a.", "a..md", "md", "x.mdmd",
    ] {
        let expected = std::path::Path::new(name).extension().is_some_and(|e| e == "md");
        assert_eq!(is_pattern_file(name), expected, "{name:?}");
    }
}
