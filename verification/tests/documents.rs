use randominator::doc::{effective_count, select_template, Document};
use randominator::error::GenError;
use randominator::node::{Entry, Node};
use randominator::rng::ScriptedRandom;

fn txt(s: &str) -> Node {
    Node::Text(s.to_string())
}

fn entry(k: &str, v: Node) -> Entry {
    Entry { key: k.to_string(), value: v }
}

fn full_root() -> Node {
    Node::Mapping(vec![
        entry("templates", Node::Mapping(vec![entry("greet", txt("Hello <!data.name>"))])),
        entry("data", Node::Mapping(vec![entry("name", txt("Ann"))])),
    ])
}

#[test]
fn valid_document_is_accepted() {
    assert!(Document::new(full_root()).is_ok());
}

#[test]
fn missing_data_section_is_fatal() {
    let root = Node::Mapping(vec![entry("templates", Node::Mapping(vec![]))]);
    let err = Document::new(root).expect_err("data is absent");
    match err {
        GenError::MissingSection { section } => assert_eq!(section.as_str(), "data"),
        _ => panic!("expected a missing section"),
    }
}

#[test]
fn missing_templates_section_is_fatal() {
    let root = Node::Mapping(vec![entry("data", Node::Mapping(vec![]))]);
    let err = Document::new(root).expect_err("templates is absent");
    match err {
        GenError::MissingSection { section } => assert_eq!(section.as_str(), "templates"),
        _ => panic!("expected a missing section"),
    }
}

#[test]
fn non_mapping_root_is_reported_as_missing_templates() {
    let err = Document::new(txt("not a table")).expect_err("no sections at all");
    match err {
        GenError::MissingSection { section } => assert_eq!(section.as_str(), "templates"),
        _ => panic!("expected a missing section"),
    }
}

#[test]
fn named_template_is_selected_verbatim() {
    let doc = Document::new(full_root()).expect("valid document");
    let mut rng = ScriptedRandom::new(vec![]);
    let t = select_template(&doc, Some("greet"), &mut rng).expect("greet exists");
    assert_eq!(t, "Hello <!data.name>");
}

#[test]
fn unknown_template_name_is_a_path_error() {
    let doc = Document::new(full_root()).expect("valid document");
    let mut rng = ScriptedRandom::new(vec![]);
    let err = select_template(&doc, Some("nope"), &mut rng).expect_err("nope is absent");
    match err {
        GenError::PathNotFound { segment, path } => {
            assert_eq!(segment.as_str(), "nope");
            assert_eq!(path.as_str(), "nope");
        },
        _ => panic!("expected a path error"),
    }
}

#[test]
fn absent_name_samples_a_template_from_the_section() {
    let doc = Document::new(full_root()).expect("valid document");
    let mut rng = ScriptedRandom::new(vec![0]);
    let t = select_template(&doc, None, &mut rng).expect("section is non-empty");
    assert_eq!(t, "Hello <!data.name>");
}

#[test]
fn requested_count_is_coerced_to_at_least_one() {
    assert_eq!(effective_count(0), 1);
    assert_eq!(effective_count(1), 1);
    assert_eq!(effective_count(5), 5);
}
