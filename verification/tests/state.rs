//! Materializations as the state service sees them, and the order of telemetry events.

use dbt_fusion::state::materialization::{
    is_custom_by_name, is_custom_incremental_strategy, is_submittable, is_table, is_view,
    normalize_incremental_strategy,
};
use dbt_fusion::state::telemetry::SharedEventOrder;
use std::sync::{Arc, Mutex};

#[test]
fn only_view_and_materialized_view_are_views() {
    assert!(is_view("view"));
    assert!(is_view("materialized_view"));
    // dbt defaults an unset materialization to view.
    assert!(is_view(""));

    assert!(!is_view("table"));
    assert!(!is_view("incremental"));
    assert!(!is_view("snapshot"));
    assert!(!is_view("ephemeral"));
    assert!(!is_view("semantic_view"));
    assert!(!is_view("metric_view"));
    assert!(!is_view("dynamic_table"));
}

#[test]
fn everything_but_views_and_virtual_relations_is_a_table() {
    assert!(is_table("table"));
    assert!(is_table("incremental"));
    assert!(is_table("snapshot"));
    assert!(is_table("seed"));
    // Adapter-specific table-likes are tables, and therefore submitted.
    assert!(is_table("dynamic_table"));
    assert!(is_table("streaming_table"));
    assert!(is_table("interactive_table"));
    assert!(is_table("metric_view"));
    assert!(is_table("external"));
    assert!(is_table("some_user_materialization"));

    assert!(!is_table("view"));
    assert!(!is_table(""));
    assert!(!is_table("materialized_view"));
    assert!(!is_table("ephemeral"));
    assert!(!is_table("semantic_view"));
}

#[test]
fn only_ephemeral_and_semantic_view_are_not_submitted() {
    assert!(!is_submittable("ephemeral"));
    assert!(!is_submittable("semantic_view"));

    for materialization in [
        "view",
        "",
        "materialized_view",
        "table",
        "incremental",
        "snapshot",
        "seed",
        "dynamic_table",
        "metric_view",
        "streaming_table",
    ] {
        assert!(
            is_submittable(materialization),
            "{materialization} should be submitted"
        );
    }
}

#[test]
fn materializations_outside_dbts_own_set_are_custom() {
    // Adapter-specific materializations are not in dbt's known set.
    assert!(is_custom_by_name("dynamic_table", None));
    assert!(is_custom_by_name("metric_view", None));
    assert!(is_custom_by_name("streaming_table", None));
    assert!(is_custom_by_name("interactive_table", None));
    assert!(is_custom_by_name("external", None));
    assert!(is_custom_by_name("my_materialization", None));

    assert!(!is_custom_by_name("table", None));
    assert!(!is_custom_by_name("view", None));
    assert!(!is_custom_by_name("materialized_view", None));
    assert!(!is_custom_by_name("incremental", None));
    assert!(!is_custom_by_name("snapshot", None));
    assert!(!is_custom_by_name("ephemeral", None));
    assert!(!is_custom_by_name("semantic_view", None));
    // A node with no materialization runs dbt's default view materialization.
    assert!(!is_custom_by_name("", None));
}

#[test]
fn custom_incremental_strategy_makes_the_node_custom() {
    assert!(is_custom_by_name("incremental", Some("my_strategy")));
    assert!(!is_custom_by_name("incremental", Some("merge")));
    assert!(!is_custom_by_name("incremental", Some("microbatch")));
    // dbt config keys use `+` prefixes that normalize to `_`.
    assert!(!is_custom_by_name("incremental", Some("insert+overwrite")));
    assert!(!is_custom_by_name("incremental", Some("MERGE")));
    // A strategy on a non-incremental node is ignored.
    assert!(!is_custom_by_name("table", Some("my_strategy")));
}

#[test]
fn strategies_are_normalized() {
    assert_eq!(
        normalize_incremental_strategy("Insert+Overwrite"),
        "insert_overwrite"
    );
    assert!(!is_custom_incremental_strategy("incremental", None));
    assert!(is_custom_incremental_strategy("incremental", Some("x")));
    assert!(!is_custom_incremental_strategy("table", Some("x")));
}

#[test]
fn every_materialization_is_submitted_as_at_most_one_kind() {
    for m in ["", "view", "table", "ephemeral", "semantic_view", "x"] {
        assert!(!(is_view(m) && is_table(m)));
        assert_eq!(is_submittable(m), is_view(m) || is_table(m));
    }
}

#[test]
fn event_orders_ascend() {
    let mut order = SharedEventOrder::new();
    assert_eq!(order.next(), 0);
    assert_eq!(order.next(), 1);
    assert_eq!(order.next(), 2);
}

#[test]
fn holders_of_one_counter_get_each_value_once() {
    let order = Arc::new(Mutex::new(SharedEventOrder::new()));
    let holders: Vec<Arc<Mutex<SharedEventOrder>>> = (0..3).map(|_| order.clone()).collect();
    let mut given = Vec::new();
    for holder in [0, 2, 2, 1, 0, 1] {
        given.push(holders[holder].lock().unwrap().next());
    }
    assert_eq!(given, vec![0, 1, 2, 3, 4, 5]);
}
