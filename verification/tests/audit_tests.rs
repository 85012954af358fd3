use hybrid_llm_core::AuditLogger;

#[test]
fn log_is_append_only_and_order_preserving() {
    let mut log = AuditLogger::new();
    for k in 0..5usize {
        log.log(
            Some(format!("actor-{}", k)),
            format!("action-{}", k),
            "details".to_string(),
            k % 2 == 0,
            None,
        );
    }
    let all = log.get_all();
    assert_eq!(all.len(), 5);
    for k in 0..5usize {
        assert_eq!(all[k].id, k);
        assert_eq!(all[k].action, format!("action-{}", k));
        assert_eq!(all[k].llm_id, Some(format!("actor-{}", k)));
    }
    assert_eq!(log.count(), 5);
}

#[test]
fn denied_returns_unapproved_subset_in_order() {
    let mut log = AuditLogger::new();
    log.log(None, "a".to_string(), "d".to_string(), true, None);
    log.log(None, "b".to_string(), "d".to_string(), false, Some("no".to_string()));
    log.log(None, "c".to_string(), "d".to_string(), false, None);
    log.log(None, "e".to_string(), "d".to_string(), true, None);

    let denied = log.get_denied();
    assert_eq!(denied.len(), 2);
    assert_eq!(denied[0].action, "b".to_string());
    assert_eq!(denied[1].action, "c".to_string());
}

#[test]
fn by_actor_returns_only_that_actor() {
    let mut log = AuditLogger::new();
    log.log(Some("a".to_string()), "first".to_string(), "d".to_string(), true, None);
    log.log(Some("b".to_string()), "second".to_string(), "d".to_string(), true, None);
    log.log(Some("a".to_string()), "third".to_string(), "d".to_string(), false, None);
    log.log(None, "fourth".to_string(), "d".to_string(), true, None);

    let a = log.get_by_llm("a");
    assert_eq!(a.len(), 2);
    assert_eq!(a[0].action, "first".to_string());
    assert_eq!(a[1].action, "third".to_string());
    assert!(log.get_by_llm("missing").is_empty());
}

#[test]
fn clear_empties_the_log() {
    let mut log = AuditLogger::new();
    log.log(None, "a".to_string(), "d".to_string(), true, None);
    assert_eq!(log.count(), 1);
    log.clear();
    assert_eq!(log.count(), 0);
    assert!(log.get_all().is_empty());
}
