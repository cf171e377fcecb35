use randominator::node::{Entry, Node};
use randominator::rng::{ScriptedRandom, SystemRandom};
use randominator::sample::sample;

fn txt(s: &str) -> Node {
    Node::Text(s.to_string())
}

fn entry(k: &str, v: Node) -> Entry {
    Entry { key: k.to_string(), value: v }
}

#[test]
fn scalar_integer_renders_base_10() {
    let mut rng = ScriptedRandom::new(vec![]);
    assert_eq!(sample(&Node::Integer(42), &mut rng), "42");
    assert_eq!(sample(&Node::Integer(0), &mut rng), "0");
    assert_eq!(sample(&Node::Integer(-7), &mut rng), "-7");
    assert_eq!(sample(&Node::Integer(1000), &mut rng), "1000");
    assert_eq!(sample(&Node::Integer(i64::MAX), &mut rng), "9223372036854775807");
    assert_eq!(sample(&Node::Integer(i64::MIN), &mut rng), "-9223372036854775808");
}

#[test]
fn scalar_boolean_renders_true_false() {
    let mut rng = ScriptedRandom::new(vec![]);
    assert_eq!(sample(&Node::Boolean(true), &mut rng), "true");
    assert_eq!(sample(&Node::Boolean(false), &mut rng), "false");
}

#[test]
fn scalar_text_float_timestamp_render_verbatim() {
    let mut rng = ScriptedRandom::new(vec![]);
    assert_eq!(sample(&txt("hello"), &mut rng), "hello");
    assert_eq!(sample(&Node::Float("3.5".to_string()), &mut rng), "3.5");
    assert_eq!(sample(&Node::Timestamp("1979-05-27T07:32:00Z".to_string()), &mut rng), "1979-05-27T07:32:00Z");
}

#[test]
fn sequence_sample_is_element_at_drawn_index() {
    let seq_node = Node::Sequence(vec![txt("a"), txt("b"), txt("c")]);
    let mut rng = ScriptedRandom::new(vec![0]);
    assert_eq!(sample(&seq_node, &mut rng), "a");
    let mut rng = ScriptedRandom::new(vec![1]);
    assert_eq!(sample(&seq_node, &mut rng), "b");
    let mut rng = ScriptedRandom::new(vec![2]);
    assert_eq!(sample(&seq_node, &mut rng), "c");
}

#[test]
fn sequence_sample_reaches_every_element() {
    let seq_node = Node::Sequence(vec![txt("a"), txt("b")]);
    let mut rng = SystemRandom::new();
    let mut saw_a = false;
    let mut saw_b = false;
    for _ in 0..200 {
        let s = sample(&seq_node, &mut rng);
        match s.as_str() {
            "a" => saw_a = true,
            "b" => saw_b = true,
            other => panic!("sampled a value outside the sequence: {}", other),
        }
    }
    assert!(saw_a && saw_b);
}

#[test]
fn mapping_sample_is_value_of_drawn_key() {
    let map_node = Node::Mapping(vec![entry("x", Node::Integer(1)), entry("y", Node::Integer(2))]);
    let mut rng = ScriptedRandom::new(vec![0]);
    assert_eq!(sample(&map_node, &mut rng), "1");
    let mut rng = ScriptedRandom::new(vec![1]);
    assert_eq!(sample(&map_node, &mut rng), "2");
}

#[test]
fn mapping_sample_reaches_every_key() {
    let map_node = Node::Mapping(vec![entry("x", txt("1")), entry("y", txt("2"))]);
    let mut rng = SystemRandom::new();
    let mut saw_1 = false;
    let mut saw_2 = false;
    for _ in 0..200 {
        let s = sample(&map_node, &mut rng);
        match s.as_str() {
            "1" => saw_1 = true,
            "2" => saw_2 = true,
            other => panic!("sampled a value outside the mapping: {}", other),
        }
    }
    assert!(saw_1 && saw_2);
}

#[test]
fn empty_sequence_samples_to_empty_string() {
    let empty_seq = Node::Sequence(vec![]);
    let mut rng = ScriptedRandom::new(vec![]);
    assert_eq!(sample(&empty_seq, &mut rng), "");
    let mut rng = ScriptedRandom::new(vec![7, 8, 9]);
    assert_eq!(sample(&empty_seq, &mut rng), "");
    let mut rng = SystemRandom::new();
    assert_eq!(sample(&empty_seq, &mut rng), "");
}

#[test]
fn empty_mapping_samples_to_empty_string() {
    let empty_map = Node::Mapping(vec![]);
    let mut rng = ScriptedRandom::new(vec![]);
    assert_eq!(sample(&empty_map, &mut rng), "");
    let mut rng = ScriptedRandom::new(vec![3]);
    assert_eq!(sample(&empty_map, &mut rng), "");
    let mut rng = SystemRandom::new();
    assert_eq!(sample(&empty_map, &mut rng), "");
}

#[test]
fn nested_descent_consumes_one_draw_per_level() {
    // A sequence of two mappings; the first mapping holds a sequence.
    let tree = Node::Sequence(vec![
        Node::Mapping(vec![entry("inner", Node::Sequence(vec![txt("deep"), txt("deeper")]))]),
        txt("shallow"),
    ]);
    let mut rng = ScriptedRandom::new(vec![0, 0, 1]);
    assert_eq!(sample(&tree, &mut rng), "deeper");
    let mut rng = ScriptedRandom::new(vec![1]);
    assert_eq!(sample(&tree, &mut rng), "shallow");
}
