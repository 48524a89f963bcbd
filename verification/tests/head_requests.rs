use hogan::head::{HeadRequestHolder, QueryOutcome};

#[test]
fn requests_for_one_branch_share_one_lookup() {
    let mut holder = HeadRequestHolder::new();
    assert_eq!(
        holder.query("master", 1, 100),
        QueryOutcome::Started { request_id: 100 }
    );
    assert_eq!(holder.query("master", 2, 101), QueryOutcome::Joined);
    assert_eq!(holder.query("master", 3, 102), QueryOutcome::Joined);
    assert_eq!(
        holder.query("develop", 4, 103),
        QueryOutcome::Started { request_id: 103 }
    );
    assert!(holder.check_request_id("master", 100));
    assert_eq!(holder.complete("master", 100), Some(vec![1, 2, 3]));
    assert!(!holder.check_request_id("master", 100));
    assert_eq!(holder.complete("develop", 103), Some(vec![4]));
}

#[test]
fn outdated_results_are_ignored() {
    let mut holder = HeadRequestHolder::new();
    holder.query("main", 7, 1);
    assert!(!holder.check_request_id("main", 2));
    assert_eq!(holder.complete("main", 2), None);
    assert_eq!(holder.complete("other", 1), None);
    assert_eq!(holder.complete("main", 1), Some(vec![7]));
    assert_eq!(holder.complete("main", 1), None);
}

#[test]
fn a_new_lookup_starts_after_completion() {
    let mut holder = HeadRequestHolder::new();
    holder.query("b", 1, 10);
    assert_eq!(holder.complete_any("b"), Some(vec![1]));
    assert_eq!(holder.complete_any("b"), None);
    assert_eq!(
        holder.query("b", 2, 11),
        QueryOutcome::Started { request_id: 11 }
    );
}
