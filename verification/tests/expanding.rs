use randominator::error::GenError;
use randominator::expand::{expand, generate};
use randominator::node::{Entry, Node};
use randominator::rng::{ScriptedRandom, SystemRandom};
use randominator::text::collapse_double_spaces;

fn txt(s: &str) -> Node {
    Node::Text(s.to_string())
}

fn entry(k: &str, v: Node) -> Entry {
    Entry { key: k.to_string(), value: v }
}

fn data_root(entries: Vec<Entry>) -> Node {
    Node::Mapping(vec![entry("data", Node::Mapping(entries))])
}

#[test]
fn literal_template_passes_through() {
    let root = data_root(vec![]);
    let mut rng = ScriptedRandom::new(vec![]);
    assert_eq!(expand(&root, "Hello world", &mut rng).unwrap(), "Hello world");
}

#[test]
fn mandatory_placeholder_is_substituted_every_invocation() {
    let root = data_root(vec![entry("w", txt("v"))]);
    let mut rng = SystemRandom::new();
    for _ in 0..100 {
        assert_eq!(expand(&root, "X <!data.w> Y", &mut rng).unwrap(), "X v Y");
    }
}

#[test]
fn mandatory_placeholder_draws_from_the_pool() {
    let root = data_root(vec![entry("w", Node::Sequence(vec![txt("red"), txt("blue")]))]);
    let mut rng = ScriptedRandom::new(vec![0]);
    assert_eq!(expand(&root, "a <!data.w> b", &mut rng).unwrap(), "a red b");
    let mut rng = ScriptedRandom::new(vec![1]);
    assert_eq!(expand(&root, "a <!data.w> b", &mut rng).unwrap(), "a blue b");
}

#[test]
fn optional_placeholder_follows_the_coin() {
    let root = data_root(vec![entry("w", txt("v"))]);
    // Heads: the drawn value 1 substitutes the sample.
    let mut rng = ScriptedRandom::new(vec![1]);
    assert_eq!(expand(&root, "[<?data.w>]", &mut rng).unwrap(), "[v]");
    // Tails: the drawn value 0 substitutes the empty string.
    let mut rng = ScriptedRandom::new(vec![0]);
    assert_eq!(expand(&root, "[<?data.w>]", &mut rng).unwrap(), "[]");
}

#[test]
fn optional_placeholder_is_substituted_about_half_the_time() {
    let root = data_root(vec![entry("w", txt("v"))]);
    let mut rng = SystemRandom::new();
    let mut substituted: usize = 0;
    let trials: usize = 300;
    for _ in 0..trials {
        let s = expand(&root, "<?data.w>", &mut rng).unwrap();
        if s == "v" {
            substituted += 1;
        } else {
            assert_eq!(s, "");
        }
    }
    // Fair independent flips stray this far from half with negligible odds.
    assert!(substituted > 50 && substituted < 250);
}

#[test]
fn empty_optional_value_leaves_one_collapsed_space() {
    let root = data_root(vec![entry("nothing", Node::Sequence(vec![]))]);
    // Tails gives the empty string outright; heads samples the empty
    // sequence, which is also empty. Either way the double space collapses.
    let mut rng = ScriptedRandom::new(vec![0]);
    assert_eq!(expand(&root, "Hello <?data.nothing> world", &mut rng).unwrap(), "Hello world");
    let mut rng = ScriptedRandom::new(vec![1]);
    assert_eq!(expand(&root, "Hello <?data.nothing> world", &mut rng).unwrap(), "Hello world");
}

#[test]
fn literal_double_space_in_template_is_collapsed_once() {
    let root = data_root(vec![]);
    let mut rng = ScriptedRandom::new(vec![]);
    assert_eq!(expand(&root, "a  b", &mut rng).unwrap(), "a b");
    assert_eq!(expand(&root, "a   b", &mut rng).unwrap(), "a  b");
}

#[test]
fn collapse_reduces_each_double_space_left_to_right() {
    assert_eq!(collapse_double_spaces(""), "");
    assert_eq!(collapse_double_spaces("a b"), "a b");
    assert_eq!(collapse_double_spaces("a  b"), "a b");
    assert_eq!(collapse_double_spaces("a   b"), "a  b");
    assert_eq!(collapse_double_spaces("    "), "  ");
    assert_eq!(collapse_double_spaces("a  b  c"), "a b c");
}

#[test]
fn unresolvable_mandatory_path_is_fatal() {
    let root = data_root(vec![entry("w", txt("v"))]);
    let mut rng = ScriptedRandom::new(vec![]);
    let err = expand(&root, "x <!data.bogus> y", &mut rng).expect_err("bogus is absent");
    match err {
        GenError::PathNotFound { segment, path } => {
            assert_eq!(segment.as_str(), "bogus");
            assert_eq!(path.as_str(), "data.bogus");
        },
        _ => panic!("expected a path error"),
    }
}

#[test]
fn unresolvable_optional_path_is_fatal_on_either_coin() {
    let root = data_root(vec![]);
    for flip in [0usize, 1usize] {
        let mut rng = ScriptedRandom::new(vec![flip]);
        let err = expand(&root, "x <?data.bogus> y", &mut rng).expect_err("bogus is absent");
        match err {
            GenError::PathNotFound { segment, path } => {
                assert_eq!(segment.as_str(), "bogus");
                assert_eq!(path.as_str(), "data.bogus");
            },
            _ => panic!("expected a path error"),
        }
    }
}

#[test]
fn two_requested_sentences_each_come_from_the_pool() {
    let root = data_root(vec![entry(
        "name",
        Node::Sequence(vec![txt("Ann"), txt("Bob")]),
    )]);
    let template = "Hello <!data.name>";
    let mut rng = ScriptedRandom::new(vec![0, 1]);
    let outs = generate(&root, template, 2, &mut rng).unwrap();
    assert_eq!(outs, vec!["Hello Ann".to_string(), "Hello Bob".to_string()]);
    let mut rng = SystemRandom::new();
    let outs = generate(&root, template, 2, &mut rng).unwrap();
    assert_eq!(outs.len(), 2);
    for line in outs {
        assert!(line == "Hello Ann" || line == "Hello Bob");
    }
}

#[test]
fn generation_halts_on_the_first_unresolvable_path() {
    let root = data_root(vec![]);
    let mut rng = SystemRandom::new();
    let err = generate(&root, "<!data.bogus>", 3, &mut rng).expect_err("bogus is absent");
    match err {
        GenError::PathNotFound { segment, .. } => assert_eq!(segment.as_str(), "bogus"),
        _ => panic!("expected a path error"),
    }
}
