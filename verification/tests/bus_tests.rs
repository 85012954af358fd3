use hybrid_llm_core::LockdownState;
use hybrid_llm_core::MessageBus;
use hybrid_llm_core::MessageOutcome;
use hybrid_llm_core::Orchestrator;
use hybrid_llm_core::OrchestratorMessage;
use hybrid_llm_core::StateChangeType;
use hybrid_llm_core::SuggestedAction;
use hybrid_llm_core::AlertSeverity;
use hybrid_llm_core::Capability;
use hybrid_llm_core::HybridLLMError;
use hybrid_llm_core::LLMInstance;
use hybrid_llm_core::LLMProvider;
use hybrid_llm_core::TaskDescription;
use hybrid_llm_core::TaskType;

#[test]
fn test_message_bus() {
    let mut bus = MessageBus::new(100);
    let rx = bus.subscribe();

    let msg = OrchestratorMessage::UserRequest {
        id: 1,
        content: "Test".to_string(),
        context: vec![],
    };

    bus.publish(msg).unwrap();

    let received = bus.recv(rx).unwrap();
    match received {
        OrchestratorMessage::UserRequest { content, .. } => {
            assert_eq!(content, "Test");
        }
        _ => panic!("Wrong message type"),
    }
}

#[test]
fn publish_without_subscribers_fails() {
    let mut bus = MessageBus::new(8);
    let msg = OrchestratorMessage::SandboxRequest {
        id: 7,
        llm_id: "x".to_string(),
        purpose: "isolated run".to_string(),
    };
    assert!(matches!(bus.publish(msg), Err(HybridLLMError::Other(_))));
}

#[test]
fn full_queue_drops_oldest_message() {
    let mut bus = MessageBus::new(2);
    let rx = bus.subscribe();
    for k in 0..3u64 {
        bus.publish(OrchestratorMessage::UserRequest {
            id: k,
            content: format!("m{}", k),
            context: vec![],
        })
        .unwrap();
    }
    match bus.recv(rx).unwrap() {
        OrchestratorMessage::UserRequest { id, .. } => assert_eq!(id, 1),
        _ => panic!("Wrong message type"),
    }
    match bus.recv(rx).unwrap() {
        OrchestratorMessage::UserRequest { id, .. } => assert_eq!(id, 2),
        _ => panic!("Wrong message type"),
    }
    assert!(bus.recv(rx).is_none());
}

#[test]
fn every_subscriber_sees_each_message() {
    let mut bus = MessageBus::new(4);
    let a = bus.subscribe();
    let b = bus.subscribe();
    assert_eq!(bus.subscriber_count(), 2);

    bus.publish(OrchestratorMessage::UserRequest {
        id: 1,
        content: "hello".to_string(),
        context: vec![],
    })
    .unwrap();

    assert!(bus.recv(a).is_some());
    assert!(bus.recv(b).is_some());
    assert!(bus.recv(a).is_none());
}

fn delegation(to: Option<String>) -> OrchestratorMessage {
    OrchestratorMessage::LLMDelegation {
        id: 5,
        from: "origin".to_string(),
        to,
        task: TaskDescription {
            description: "Test task".to_string(),
            task_type: TaskType::Code,
            required_capabilities: vec![Capability::Code],
            context: vec![],
            constraints: vec![],
        },
        callback: false,
    }
}

#[test]
fn orchestrator_routes_delegations() {
    let mut orchestrator = Orchestrator::new();
    orchestrator.router.register_llm(LLMInstance {
        id: "coder".to_string(),
        provider: LLMProvider::Local("test".to_string()),
        capabilities: vec![Capability::Code],
        model_name: "test-model".to_string(),
        max_context: 4096,
        is_loaded: true,
    });

    let explicit = orchestrator.handle_message(delegation(Some("chosen".to_string()))).unwrap();
    assert!(matches!(explicit, MessageOutcome::Delegated { target } if target == "chosen"));

    let routed = orchestrator.handle_message(delegation(None)).unwrap();
    assert!(matches!(routed, MessageOutcome::Delegated { target } if target == "coder"));
}

#[test]
fn orchestrator_reports_routing_failure() {
    let mut orchestrator = Orchestrator::new();
    let result = orchestrator.handle_message(delegation(None));
    assert!(matches!(result, Err(HybridLLMError::LLMNotFound(_))));
}

#[test]
fn lockdown_alert_locks_and_later_messages_are_rejected() {
    let mut orchestrator = Orchestrator::new();
    let alert = OrchestratorMessage::SecurityAlert {
        id: 9,
        severity: AlertSeverity::Critical,
        reason: "repeated denials".to_string(),
        llm_id: Some("rogue".to_string()),
        suggested_action: SuggestedAction::Lockdown,
    };
    let outcome = orchestrator.handle_message(alert).unwrap();
    assert!(matches!(outcome, MessageOutcome::AlertHandled));
    assert_eq!(orchestrator.lockdown_state, LockdownState::Locked);

    let rejected = orchestrator.handle_message(delegation(Some("x".to_string()))).unwrap();
    assert!(matches!(rejected, MessageOutcome::RejectedLockdown));
}

#[test]
fn state_changes_mirror_lockdown() {
    let mut orchestrator = Orchestrator::new();
    let locked = orchestrator
        .handle_message(OrchestratorMessage::StateChange {
            id: 1,
            change_type: StateChangeType::LockdownTriggered,
            data: String::new(),
        })
        .unwrap();
    assert!(matches!(locked, MessageOutcome::StateChanged));
    assert_eq!(orchestrator.lockdown_state, LockdownState::Locked);

    // While locked, even a release announcement is rejected unprocessed.
    let rejected = orchestrator
        .handle_message(OrchestratorMessage::StateChange {
            id: 2,
            change_type: StateChangeType::LockdownReleased,
            data: String::new(),
        })
        .unwrap();
    assert!(matches!(rejected, MessageOutcome::RejectedLockdown));
    assert_eq!(orchestrator.lockdown_state, LockdownState::Locked);
}

#[test]
fn human_review_and_unknown_messages_pass_through() {
    let mut orchestrator = Orchestrator::new();
    let review = orchestrator
        .handle_message(OrchestratorMessage::SecurityAlert {
            id: 3,
            severity: AlertSeverity::Warning,
            reason: "odd output".to_string(),
            llm_id: None,
            suggested_action: SuggestedAction::RequestHumanReview,
        })
        .unwrap();
    assert!(matches!(review, MessageOutcome::HumanReviewRequested));

    let ignored = orchestrator
        .handle_message(OrchestratorMessage::SandboxRequest {
            id: 4,
            llm_id: "x".to_string(),
            purpose: "run".to_string(),
        })
        .unwrap();
    assert!(matches!(ignored, MessageOutcome::Ignored));
    assert_eq!(orchestrator.lockdown_state, LockdownState::Normal);
}

#[test]
fn step_consumes_published_messages_in_order() {
    let mut orchestrator = Orchestrator::new();
    assert!(orchestrator.step().is_none());

    orchestrator
        .message_bus()
        .publish(OrchestratorMessage::UserRequest {
            id: 1,
            content: "first".to_string(),
            context: vec![],
        })
        .unwrap();
    orchestrator
        .message_bus()
        .publish(OrchestratorMessage::SandboxRequest {
            id: 2,
            llm_id: "x".to_string(),
            purpose: "run".to_string(),
        })
        .unwrap();

    let first = orchestrator.step().unwrap().unwrap();
    assert!(matches!(first, MessageOutcome::UserRequestReceived));
    let second = orchestrator.step().unwrap().unwrap();
    assert!(matches!(second, MessageOutcome::Ignored));
    assert!(orchestrator.step().is_none());
}
