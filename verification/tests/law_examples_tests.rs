use bastion_http::agent_ws::{delete_backoff_seconds, sanitize_delete_error_string};
use bastion_http::bulk_operations::normalize_node_ids;
use bastion_http::byte_cut::cut_marked;
use bastion_http::labels::normalize_labels;

fn strings(v: &[&str]) -> Vec<String> {
    v.iter().map(|s| s.to_string()).collect()
}

#[test]
fn normalized_labels_are_stable_and_order_free() {
    let input = strings(&["  web", "db", "web ", "cache"]);
    let once = normalize_labels(input.clone()).unwrap();
    assert_eq!(normalize_labels(once.clone()).unwrap(), once);
    let mut reversed = input;
    reversed.reverse();
    assert_eq!(normalize_labels(reversed).unwrap(), once);
}

#[test]
fn normalized_node_ids_are_stable_and_order_free() {
    let input = strings(&["b", " a", "", "b", "c "]);
    let once = normalize_node_ids(input.clone());
    assert_eq!(normalize_node_ids(once.clone()), once);
    let mut reversed = input;
    reversed.reverse();
    assert_eq!(normalize_node_ids(reversed), once);
}

#[test]
fn cut_text_stays_within_limit_plus_mark() {
    let long = "x".repeat(2000);
    let cut = sanitize_delete_error_string(&long);
    assert_eq!(cut.len(), 500 + '…'.len_utf8());
    let marked = cut_marked("héllo wörld", 6);
    assert!(marked.len() <= 6 + 3);
    assert_eq!(marked, "héllo…");
}

#[test]
fn backoff_stays_between_base_and_cap_plus_jitter() {
    for attempts in 0..40 {
        let d = delete_backoff_seconds("run-x", attempts, "network");
        assert!((60..21_600 + 30).contains(&d));
        let d = delete_backoff_seconds("run-x", attempts, "auth");
        assert!((21_600..86_400 + 600).contains(&d));
        let d = delete_backoff_seconds("run-x", attempts, "unknown");
        assert!((300..21_600 + 60).contains(&d));
    }
}
