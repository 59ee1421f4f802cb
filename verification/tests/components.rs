use tasknet::components::{attribute_value, duration_string, label_of, shown_as_button, ui_groups, UiNode};
use tasknet::time::Duration;

const SECOND: i128 = 1_000;
const MINUTE: i128 = 60 * SECOND;
const HOUR: i128 = 60 * MINUTE;
const DAY: i128 = 24 * HOUR;

fn span(millis: i128) -> Duration {
    Duration { millis }
}

#[test]
fn positive_spans_use_largest_unit() {
    assert_eq!(duration_string(span(15 * DAY)), "2w");
    assert_eq!(duration_string(span(7 * DAY)), "1w");
    assert_eq!(duration_string(span(3 * DAY + 5 * HOUR)), "3d");
    assert_eq!(duration_string(span(5 * HOUR + 59 * MINUTE)), "5h");
    assert_eq!(duration_string(span(2 * MINUTE + 30 * SECOND)), "2m");
    assert_eq!(duration_string(span(42 * SECOND + 999)), "42s");
}

#[test]
fn less_than_a_second_is_now() {
    assert_eq!(duration_string(span(0)), "now");
    assert_eq!(duration_string(span(999)), "now");
    assert_eq!(duration_string(span(-999)), "now");
    assert_eq!(label_of(span(500)), None);
}

#[test]
fn negative_spans() {
    assert_eq!(duration_string(span(-SECOND)), "-1s");
    assert_eq!(duration_string(span(-59 * SECOND)), "-59s");
    assert_eq!(duration_string(span(-90 * SECOND)), "-1m");
    assert_eq!(duration_string(span(-59 * MINUTE)), "-59m");
    assert_eq!(duration_string(span(-2 * HOUR)), "-2h");
    assert_eq!(duration_string(span(-23 * HOUR)), "-23h");
    assert_eq!(duration_string(span(-DAY)), "-1d");
    assert_eq!(duration_string(span(-6 * DAY)), "-6d");
    assert_eq!(duration_string(span(-7 * DAY)), "-1w");
    assert_eq!(duration_string(span(-20 * DAY)), "-2w");
}

#[test]
fn label_of_gives_count_and_unit() {
    assert_eq!(label_of(span(3 * DAY)), Some((3, 'd')));
    assert_eq!(label_of(span(-90 * SECOND)), Some((-1, 'm')));
}

fn node(group: &str, input_type: Option<&str>) -> UiNode {
    UiNode { group: group.to_string(), input_type: input_type.map(|t| t.to_string()) }
}

#[test]
fn form_nodes_are_grouped_by_name() {
    let nodes = vec![
        node("password", Some("password")),
        node("default", Some("hidden")),
        node("oidc", Some("submit")),
        node("password", Some("submit")),
        node("default", Some("hidden")),
        node("code", None),
    ];
    let groups = ui_groups(&nodes);
    let names: Vec<&str> = groups.iter().map(|g| g.name.as_str()).collect();
    assert_eq!(names, vec!["code", "default", "oidc", "password"]);
    assert_eq!(groups[0].nodes, vec![5]);
    assert_eq!(groups[1].nodes, vec![1, 4]);
    assert_eq!(groups[3].nodes, vec![0, 3]);
    assert!(!groups[1].legend && groups[0].legend && groups[3].legend);
    assert!(!groups[1].fieldset);
    assert!(groups[0].fieldset && groups[2].fieldset && groups[3].fieldset);
    assert!(ui_groups(&[]).is_empty());
}

#[test]
fn submit_inputs_are_buttons_and_values_lose_quotes() {
    assert!(shown_as_button(&node("password", Some("submit"))));
    assert!(!shown_as_button(&node("password", Some("password"))));
    assert!(!shown_as_button(&node("default", None)));
    assert_eq!(attribute_value("\"password\""), "password");
    assert_eq!(attribute_value("12"), "12");
    assert_eq!(attribute_value("\"a\\\"b\""), "a\\b");
}

#[test]
fn large_counts_are_written_in_full() {
    let millis: i128 = 1_000_000_000_000_000_000_000_000_000_000;
    let weeks = millis / 1000 / 86400 / 7;
    assert_eq!(duration_string(Duration { millis }), format!("{}w", weeks));
    assert_eq!(duration_string(Duration { millis: -millis }), format!("-{}w", weeks));
    assert_eq!(duration_string(Duration { millis: 10 * 60 * 1000 }), "10m");
    assert_eq!(duration_string(Duration { millis: -9 * 1000 }), "-9s");
}
