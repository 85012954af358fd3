use hybrid_llm_core::LoadBalancer;

#[test]
fn test_round_robin() {
    let mut balancer = LoadBalancer::new();
    let llms = vec!["llm1".to_string(), "llm2".to_string(), "llm3".to_string()];

    assert_eq!(balancer.select_round_robin(&llms), Some(&"llm1".to_string()));
    assert_eq!(balancer.select_round_robin(&llms), Some(&"llm2".to_string()));
    assert_eq!(balancer.select_round_robin(&llms), Some(&"llm3".to_string()));
    assert_eq!(balancer.select_round_robin(&llms), Some(&"llm1".to_string()));
}

#[test]
fn round_robin_cycles_twice_through_three_ids() {
    let mut balancer = LoadBalancer::new();
    let llms = vec!["a".to_string(), "b".to_string(), "c".to_string()];

    let mut picked: Vec<String> = Vec::new();
    for _ in 0..6 {
        picked.push(balancer.select_round_robin(&llms).unwrap().clone());
    }
    assert_eq!(picked, vec![
        "a".to_string(),
        "b".to_string(),
        "c".to_string(),
        "a".to_string(),
        "b".to_string(),
        "c".to_string(),
    ]);
}

#[test]
fn test_prefer_local() {
    let mut balancer = LoadBalancer::new();
    let llms = vec![
        "cloud1".to_string(),
        "local1".to_string(),
        "local2".to_string(),
    ];

    let is_local = |id: &str| id.starts_with("local");

    let selected = balancer.select_prefer_local(&llms, is_local).unwrap();
    assert!(selected.starts_with("local"));
}

#[test]
fn prefer_local_round_robins_within_the_local_partition() {
    let mut balancer = LoadBalancer::new();
    let llms = vec![
        "cloud1".to_string(),
        "local1".to_string(),
        "local2".to_string(),
    ];
    let is_local = |id: &str| id.starts_with("local");

    // Fresh counter: position 0 of the local partition ["local1", "local2"].
    assert_eq!(balancer.select_prefer_local(&llms, is_local), Some(&"local1".to_string()));
    assert_eq!(balancer.select_prefer_local(&llms, is_local), Some(&"local2".to_string()));
    assert_eq!(balancer.select_prefer_local(&llms, is_local), Some(&"local1".to_string()));
}

#[test]
fn prefer_local_falls_back_to_cloud() {
    let mut balancer = LoadBalancer::new();
    let llms = vec!["cloud1".to_string(), "cloud2".to_string()];

    let selected = balancer.select_prefer_local(&llms, |id: &str| id.starts_with("local"));
    assert!(selected.unwrap().starts_with("cloud"));

    let empty: Vec<String> = vec![];
    assert!(balancer.select_prefer_local(&empty, |id: &str| id.starts_with("local")).is_none());
}

#[test]
fn empty_list_yields_nothing() {
    let mut balancer = LoadBalancer::new();
    let empty: Vec<String> = vec![];
    assert!(balancer.select_round_robin(&empty).is_none());
    assert!(balancer.select_least_loaded(&empty).is_none());
}

#[test]
fn least_loaded_currently_matches_round_robin() {
    let mut a = LoadBalancer::new();
    let mut b = LoadBalancer::new();
    let llms = vec!["x".to_string(), "y".to_string()];
    for _ in 0..4 {
        assert_eq!(a.select_least_loaded(&llms), b.select_round_robin(&llms));
    }
}
