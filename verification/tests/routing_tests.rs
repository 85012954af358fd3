use hybrid_llm_core::Capability;
use hybrid_llm_core::HybridLLMError;
use hybrid_llm_core::LLMInstance;
use hybrid_llm_core::LLMPool;
use hybrid_llm_core::LLMProvider;
use hybrid_llm_core::Router;
use hybrid_llm_core::TaskDescription;
use hybrid_llm_core::TaskType;

fn instance(id: &str, capabilities: Vec<Capability>, loaded: bool) -> LLMInstance {
    LLMInstance {
        id: id.to_string(),
        provider: LLMProvider::Local("test".to_string()),
        capabilities,
        model_name: "test-model".to_string(),
        max_context: 4096,
        is_loaded: loaded,
    }
}

fn task(required: Vec<Capability>) -> TaskDescription {
    TaskDescription {
        description: "Test task".to_string(),
        task_type: TaskType::Code,
        required_capabilities: required,
        context: vec![],
        constraints: vec![],
    }
}

#[test]
fn test_router() {
    let mut router = Router::new();

    let llm = instance("test-llm", vec![Capability::Code], true);
    router.register_llm(llm);

    let result = router.route_task(&task(vec![Capability::Code])).unwrap();
    assert_eq!(result, "test-llm");
}

#[test]
fn router_prefers_more_generally_capable_candidate() {
    let mut router = Router::new();
    router.register_llm(instance("narrow", vec![Capability::Code], true));
    router.register_llm(instance(
        "broad",
        vec![Capability::Code, Capability::Analysis],
        true,
    ));

    let result = router.route_task(&task(vec![Capability::Code])).unwrap();
    assert_eq!(result, "broad");
}

#[test]
fn router_skips_unloaded_and_uncovering_instances() {
    let mut router = Router::new();
    router.register_llm(instance("unloaded", vec![Capability::Code], false));
    router.register_llm(instance("wrong-cap", vec![Capability::Creative], true));

    let result = router.route_task(&task(vec![Capability::Code]));
    assert!(matches!(result, Err(HybridLLMError::LLMNotFound(_))));

    router.register_llm(instance("right", vec![Capability::Code], true));
    assert_eq!(router.route_task(&task(vec![Capability::Code])).unwrap(), "right");
}

#[test]
fn router_registry_queries() {
    let mut router = Router::new();
    router.register_llm(instance("a", vec![Capability::Code], true));
    router.register_llm(instance("b", vec![Capability::Security], true));

    assert_eq!(router.get_all_llms().len(), 2);
    assert_eq!(router.get_llm("a").unwrap().id, "a");
    assert!(router.get_llm("missing").is_none());

    let security = router.find_by_capability(&Capability::Security);
    assert_eq!(security.len(), 1);
    assert_eq!(security[0].id, "b");

    router.unregister_llm("b");
    assert!(router.get_llm("b").is_none());
    assert!(router.find_by_capability(&Capability::Security).is_empty());
}

#[test]
fn register_overwrites_by_id() {
    let mut router = Router::new();
    router.register_llm(instance("same", vec![Capability::Code], false));
    router.register_llm(instance("same", vec![Capability::Code], true));

    assert_eq!(router.get_all_llms().len(), 1);
    assert!(router.get_llm("same").unwrap().is_loaded);
}

#[test]
fn pool_register_get_and_find() {
    let mut pool = LLMPool::new();
    pool.register(instance("p1", vec![Capability::Code, Capability::General], true)).unwrap();
    pool.register(instance("p2", vec![Capability::Code], false)).unwrap();

    assert_eq!(pool.get("p1").unwrap().id, "p1");
    assert!(pool.get("missing").is_none());

    let coders = pool.find_by_capability(&Capability::Code);
    assert_eq!(coders.len(), 2);
    assert_eq!(coders[0].id, "p1");
    assert_eq!(coders[1].id, "p2");
    assert!(pool.find_by_capability(&Capability::Creative).is_empty());

    let mut ids = pool.get_all_ids();
    ids.sort();
    assert_eq!(ids, vec!["p1".to_string(), "p2".to_string()]);
}

#[test]
fn pool_unregister_removes_provider_and_index_entries() {
    let mut pool = LLMPool::new();
    pool.register(instance("p1", vec![Capability::Code], true)).unwrap();
    pool.register(instance("p2", vec![Capability::Code], true)).unwrap();

    pool.unregister("p1").unwrap();
    assert!(pool.get("p1").is_none());
    let coders = pool.find_by_capability(&Capability::Code);
    assert_eq!(coders.len(), 1);
    assert_eq!(coders[0].id, "p2");

    assert!(matches!(pool.unregister("p1"), Err(HybridLLMError::LLMNotFound(_))));
}

#[test]
fn pool_load_and_unload_flip_the_flag() {
    let mut pool = LLMPool::new();
    pool.register(instance("p", vec![Capability::Code], false)).unwrap();
    assert!(!pool.get("p").unwrap().is_loaded);

    pool.load("p").unwrap();
    assert!(pool.get("p").unwrap().is_loaded);

    pool.unload("p").unwrap();
    assert!(!pool.get("p").unwrap().is_loaded);

    assert!(matches!(pool.load("missing"), Err(HybridLLMError::LLMNotFound(_))));
}

#[test]
fn pool_stats_count_loaded_providers() {
    let mut pool = LLMPool::new();
    pool.register(instance("a", vec![Capability::Code], true)).unwrap();
    pool.register(instance("b", vec![Capability::Code], false)).unwrap();
    pool.register(instance("c", vec![Capability::General], true)).unwrap();

    let stats = pool.stats();
    assert_eq!(stats.total_providers, 3);
    assert_eq!(stats.loaded_providers, 2);
    assert_eq!(stats.unloaded_providers, 1);

    let loaded = pool.get_all_loaded();
    assert_eq!(loaded.len(), 2);
}
