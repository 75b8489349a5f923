use xinfer::activation::GatedActivation;
use xinfer::distributed::Span;
use xinfer::json::{as_bool, as_size, as_u64, find, find_either, find_items, find_text, find_text_items, JsonKind};
use xinfer::moe::pass::GatedPass;
use xinfer::text::{contains_part, decimal, join, matches_at, same};

fn text(s: &str) -> Option<String> {
    Some(s.to_string())
}

#[test]
fn pointers_find_kinds() {
    let t = text(r#"{"a": 3, "b": -1, "c": 1.5, "d": true, "e": "x", "f": [1, "y"], "g": {"h": null}}"#);
    assert_eq!(find(&t, "/a"), Some(JsonKind::Number(Some(3))));
    assert_eq!(find(&t, "/b"), Some(JsonKind::Number(None)));
    assert_eq!(find(&t, "/c"), Some(JsonKind::Number(None)));
    assert_eq!(find(&t, "/d"), Some(JsonKind::Bool(true)));
    assert_eq!(find(&t, "/e"), Some(JsonKind::Text));
    assert_eq!(find(&t, "/f"), Some(JsonKind::Array(2)));
    assert_eq!(find(&t, "/g"), Some(JsonKind::Object));
    assert_eq!(find(&t, "/g/h"), Some(JsonKind::Null));
    assert_eq!(find(&t, "/missing"), None);
    assert_eq!(find(&text("not json"), "/a"), None);
    assert_eq!(find(&None, "/a"), None);
}

#[test]
fn a_value_of_the_wrong_type_still_hides_the_second() {
    let t = text(r#"{"a": "x", "b": 2}"#);
    assert_eq!(find_either(&t, "/a", "/b"), Some(JsonKind::Text));
    assert_eq!(find_either(&t, "/none", "/b"), Some(JsonKind::Number(Some(2))));
    assert_eq!(find_either(&t, "/none", "/none"), None);
}

#[test]
fn strings_and_items_are_found() {
    let t = text(r#"{"e": "x", "f": [1, "y", 7]}"#);
    assert_eq!(find_text(&t, "/e"), Some("x".to_string()));
    assert_eq!(find_text(&t, "/f"), None);
    assert_eq!(
        find_items(&t, "/f"),
        Some(vec![Some(JsonKind::Number(Some(1))), Some(JsonKind::Text), Some(JsonKind::Number(Some(7)))])
    );
    assert_eq!(find_text_items(&t, "/f"), Some(vec![None, Some("y".to_string()), None]));
    assert_eq!(find_items(&t, "/e"), None);
}

#[test]
fn kinds_give_values_or_defaults() {
    assert_eq!(as_u64(Some(JsonKind::Number(Some(5)))), Some(5));
    assert_eq!(as_u64(Some(JsonKind::Bool(true))), None);
    assert_eq!(as_size(Some(JsonKind::Number(Some(5))), 9), 5);
    assert_eq!(as_size(Some(JsonKind::Number(None)), 9), 9);
    assert_eq!(as_size(None, 9), 9);
    assert!(as_bool(Some(JsonKind::Bool(true)), false));
    assert!(!as_bool(Some(JsonKind::Text), false));
}

#[test]
fn minimax_m3_has_its_own_activation() {
    let root = text(r#"{"architectures": ["MiniMaxM3ForCausalLM", "x"]}"#);
    assert_eq!(GatedActivation::from_model_config(true, &root), GatedActivation::SwiGluOai { in_text_config: false });
    let nested = text(r#"{"architectures": ["MiniMaxM3VL"], "text_config": {}}"#);
    assert_eq!(GatedActivation::from_model_config(true, &nested), GatedActivation::SwiGluOai { in_text_config: true });
    let other = text(r#"{"architectures": ["XMiniMaxM3"]}"#);
    assert_eq!(GatedActivation::from_model_config(true, &other), GatedActivation::Standard { is_silu: true });
    let second = text(r#"{"architectures": ["A", "MiniMaxM3"]}"#);
    assert_eq!(GatedActivation::from_model_config(false, &second), GatedActivation::Standard { is_silu: false });
    let map = text(r#"{"architectures": {"0": "MiniMaxM3"}}"#);
    assert_eq!(GatedActivation::from_model_config(false, &map), GatedActivation::standard(false));
    assert_eq!(GatedActivation::from_model_config(false, &text("broken")), GatedActivation::standard(false));
    assert_eq!(GatedActivation::from_model_config(true, &None), GatedActivation::standard(true));
}

#[test]
fn only_silu_has_a_fused_kernel() {
    assert_eq!(GatedActivation::standard(true).forward_fused(8), GatedPass::Fused { half: 8 });
    let halves = GatedPass::Halves { gate: Span { start: 0, len: 8 }, up: Span { start: 8, len: 8 } };
    assert_eq!(GatedActivation::standard(false).forward_fused(8), halves);
    assert_eq!(GatedActivation::SwiGluOai { in_text_config: true }.forward_fused(8), halves);
}

#[test]
fn names_are_joined_by_dots() {
    assert_eq!(join("", "weight"), "weight");
    assert_eq!(join("model", "weight"), "model.weight");
    assert_eq!(decimal(0), "0");
    assert_eq!(decimal(10203), "10203");
    assert!(same("ab", "ab") && !same("ab", "abc"));
    assert!(matches_at("DFlash2Model", "DFlash2", 0) && !matches_at("DFlash2Model", "DFlash2", 1));
    assert!(contains_part("XDFlash2", "DFlash2") && !contains_part("DFlash", "DFlash2"));
}
