//! The orchestrator: the event loop's decision core. It consumes bus
//! messages one at a time, rejects everything while the system is locked,
//! resolves delegations through the router, and mirrors announced state
//! changes into its local lockdown state.

use vstd::prelude::*;

use crate::bus::MessageBus;
use crate::errors::HybridLLMError;
use crate::messages::MessageView;
use crate::messages::OrchestratorMessage;
use crate::messages::StateChangeType;
use crate::messages::SuggestedAction;
use crate::router::Router;
use crate::router::routed_choice;
use crate::router::eligible;
use crate::types::LockdownState;

verus! {

/// What handling one message led to.
#[derive(Debug)]
pub enum MessageOutcome {
    /// The system is locked; the message was rejected unprocessed.
    RejectedLockdown,
    /// A user request was received (classification and routing are a
    /// pass-through hook).
    UserRequestReceived,
    /// A delegation was resolved to this backend id.
    Delegated { target: String },
    /// A security alert was handled.
    AlertHandled,
    /// A security alert asked for human review; external observers are
    /// notified outside this core.
    HumanReviewRequested,
    /// A state-change announcement was mirrored into local state.
    StateChanged,
    /// An unrecognized message kind passed through without effect.
    Ignored,
}

/// The per-subscriber capacity of the orchestrator's bus.
pub const ORCHESTRATOR_BUS_CAPACITY: usize = 1000;

/// How handling one message moves the orchestrator. The bus, the router and
/// the subscription never change; a locked orchestrator rejects everything;
/// otherwise the message's kind decides the outcome and the lockdown state.
pub open spec fn handle_rel(
    pre: Orchestrator,
    post: Orchestrator,
    msg: MessageView,
    r: Result<MessageOutcome, HybridLLMError>,
) -> bool {
    &&& post.message_bus == pre.message_bus
    &&& post.router == pre.router
    &&& post.subscription == pre.subscription
    &&& if pre.lockdown_state == LockdownState::Locked {
        &&& r matches Ok(o) && o is RejectedLockdown
        &&& post.lockdown_state == pre.lockdown_state
    } else {
        match msg {
            MessageView::UserRequest { .. } => {
                &&& r matches Ok(o) && o is UserRequestReceived
                &&& post.lockdown_state == pre.lockdown_state
            },
            MessageView::LLMDelegation { to, task, .. } => {
                &&& post.lockdown_state == pre.lockdown_state
                &&& match to {
                    Some(t) => r matches Ok(o) && o matches MessageOutcome::Delegated { target }
                        && target@ == t,
                    None => {
                        &&& (r is Ok) == exists|i: int|
                            0 <= i < pre.router.llm_registry@.len() && eligible(
                                (#[trigger] pre.router.llm_registry@[i]).1,
                                task.required_capabilities,
                            )
                        &&& r matches Ok(o) ==> o matches MessageOutcome::Delegated { target }
                            && routed_choice(
                            pre.router.llm_registry@,
                            task.required_capabilities,
                            target@,
                        )
                        &&& r matches Err(e) ==> e is LLMNotFound
                    },
                }
            },
            MessageView::SecurityAlert { suggested_action, .. } => {
                &&& r is Ok
                &&& match suggested_action {
                    SuggestedAction::Lockdown => {
                        &&& post.lockdown_state == LockdownState::Locked
                        &&& r matches Ok(o) && o is AlertHandled
                    },
                    SuggestedAction::RequestHumanReview => {
                        &&& post.lockdown_state == pre.lockdown_state
                        &&& r matches Ok(o) && o is HumanReviewRequested
                    },
                    _ => {
                        &&& post.lockdown_state == pre.lockdown_state
                        &&& r matches Ok(o) && o is AlertHandled
                    },
                }
            },
            MessageView::StateChange { change_type, .. } => {
                &&& r matches Ok(o) && o is StateChanged
                &&& post.lockdown_state == (match change_type {
                    StateChangeType::LockdownTriggered => LockdownState::Locked,
                    StateChangeType::LockdownReleased => LockdownState::Normal,
                    _ => pre.lockdown_state,
                })
            },
            _ => {
                &&& r matches Ok(o) && o is Ignored
                &&& post.lockdown_state == pre.lockdown_state
            },
        }
    }
}

/// Coordinates message handling: owns the bus, the router and the local
/// lockdown state, and holds its own bus subscription.
pub struct Orchestrator {
    pub message_bus: MessageBus,
    pub router: Router,
    pub lockdown_state: LockdownState,
    /// The orchestrator's own subscription on its bus.
    pub subscription: usize,
}

impl Orchestrator {
    /// Components are well-formed and the subscription is live.
    pub open spec fn wf(self) -> bool {
        &&& self.message_bus.wf()
        &&& self.router.wf()
        &&& self.subscription < self.message_bus.queues@.len()
    }

    /// A fresh orchestrator: an empty router, a `Normal` lockdown state,
    /// and a bus on which the orchestrator itself holds one subscription.
    pub fn new() -> (o: Self)
        ensures
            o.wf(),
            o.lockdown_state == LockdownState::Normal,
            o.router.llm_registry@.len() == 0,
            o.message_bus.capacity == ORCHESTRATOR_BUS_CAPACITY,
            o.message_bus.queues@.len() == 1,
            o.message_bus.queue_view(o.subscription as int) == Seq::<
                crate::messages::MessageView,
            >::empty(),
    {
        let mut bus = MessageBus::new(ORCHESTRATOR_BUS_CAPACITY);
        let subscription = bus.subscribe();
        Orchestrator {
            message_bus: bus,
            router: Router::new(),
            lockdown_state: LockdownState::Normal,
            subscription,
        }
    }

    /// Handles one message: rejected outright when locked, else dispatched
    /// by kind; unrecognized kinds pass through without error.
    pub fn handle_message(&mut self, message: OrchestratorMessage) -> (r: Result<
        MessageOutcome,
        HybridLLMError,
    >)
        requires
            old(self).wf(),
        ensures
            final(self).wf(),
            handle_rel(*old(self), *final(self), message@, r),
    {
        if self.lockdown_state == LockdownState::Locked {
            return Ok(MessageOutcome::RejectedLockdown);
        }
        match message {
            OrchestratorMessage::UserRequest { id: _, content: _, context: _ } => {
                Ok(MessageOutcome::UserRequestReceived)
            },
            OrchestratorMessage::LLMDelegation { id: _, from: _, to, task, callback: _ } => {
                let target = match to {
                    Some(to_id) => to_id,
                    None => {
                        match self.router.route_task(&task) {
                            Ok(id) => id,
                            Err(e) => {
                                return Err(e);
                            },
                        }
                    },
                };
                Ok(MessageOutcome::Delegated { target })
            },
            OrchestratorMessage::SecurityAlert {
                id: _,
                severity: _,
                reason: _,
                llm_id: _,
                suggested_action,
            } => {
                match suggested_action {
                    SuggestedAction::Lockdown => {
                        self.lockdown_state = LockdownState::Locked;
                        Ok(MessageOutcome::AlertHandled)
                    },
                    SuggestedAction::RequestHumanReview => {
                        Ok(MessageOutcome::HumanReviewRequested)
                    },
                    _ => Ok(MessageOutcome::AlertHandled),
                }
            },
            OrchestratorMessage::StateChange { id: _, change_type, data: _ } => {
                match change_type {
                    StateChangeType::LockdownTriggered => {
                        self.lockdown_state = LockdownState::Locked;
                    },
                    StateChangeType::LockdownReleased => {
                        self.lockdown_state = LockdownState::Normal;
                    },
                    _ => {},
                }
                Ok(MessageOutcome::StateChanged)
            },
            _ => Ok(MessageOutcome::Ignored),
        }
    }

    /// Takes the next message from the orchestrator's own subscription and
    /// handles it; yields nothing when no message is pending.
    pub fn step(&mut self) -> (r: Option<Result<MessageOutcome, HybridLLMError>>)
        requires
            old(self).wf(),
        ensures
            final(self).wf(),
            (r is None) == (old(self).message_bus.queue_view(
                old(self).subscription as int,
            ).len() == 0),
            r is None ==> *final(self) == *old(self),
            r matches Some(res) ==> exists|mid: Orchestrator|
                {
                    &&& #[trigger] mid.router == old(self).router
                    &&& mid.lockdown_state == old(self).lockdown_state
                    &&& mid.subscription == old(self).subscription
                    &&& mid.message_bus.capacity == old(self).message_bus.capacity
                    &&& mid.message_bus.queues@.len() == old(self).message_bus.queues@.len()
                    &&& mid.message_bus.queue_view(old(self).subscription as int) == old(
                        self,
                    ).message_bus.queue_view(old(self).subscription as int).drop_first()
                    &&& handle_rel(
                        mid,
                        *final(self),
                        old(self).message_bus.queue_view(old(self).subscription as int)[0],
                        res,
                    )
                },
    {
        let next = self.message_bus.recv(self.subscription);
        match next {
            None => None,
            Some(message) => {
                let ghost mid = *self;
                let res = self.handle_message(message);
                proof {
                    assert(handle_rel(mid, *self, message@, res));
                }
                Some(res)
            },
        }
    }

    /// The message bus, for components that publish; the orchestrator keeps
    /// everything else unchanged while the borrow lives.
    pub fn message_bus(&mut self) -> (bus: &mut MessageBus)
        ensures
            *bus == old(self).message_bus,
            final(self).message_bus == *final(bus),
            final(self).router == old(self).router,
            final(self).lockdown_state == old(self).lockdown_state,
            final(self).subscription == old(self).subscription,
    {
        &mut self.message_bus
    }
}

} // verus!
