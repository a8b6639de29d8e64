//! The action planner: from a rule's action block to one decision.

use crate::rules::{valid_action, Action, ActionView, Rule};
use crate::strings::join2;
use vstd::prelude::*;

verus! {

/// What is done with a flow.
#[derive(Debug, Clone, PartialEq, Eq)]
pub enum ActionKind {
    Route(String),
    SwitchRoute(String),
    Block,
    Throttle(String),
    LogOnly,
}

/// The decision that the planner reaches for one action block.
#[derive(Debug, Clone, PartialEq, Eq)]
pub struct ActionDecision {
    pub kind: ActionKind,
    pub log: bool,
}

/// The model of an `ActionKind`.
pub enum KindView {
    Route(Seq<char>),
    SwitchRoute(Seq<char>),
    Block,
    Throttle(Seq<char>),
    LogOnly,
}

/// The model of an `ActionDecision`.
pub struct DecisionView {
    pub kind: KindView,
    pub log: bool,
}

impl View for ActionKind {
    type V = KindView;

    open spec fn view(&self) -> KindView {
        match self {
            ActionKind::Route(name) => KindView::Route(name@),
            ActionKind::SwitchRoute(name) => KindView::SwitchRoute(name@),
            ActionKind::Block => KindView::Block,
            ActionKind::Throttle(class) => KindView::Throttle(class@),
            ActionKind::LogOnly => KindView::LogOnly,
        }
    }
}

impl View for ActionDecision {
    type V = DecisionView;

    open spec fn view(&self) -> DecisionView {
        DecisionView { kind: self.kind@, log: self.log }
    }
}

/// The log flag of an action; absent counts as off.
pub open spec fn log_flag(a: ActionView) -> bool {
    match a.log {
        Some(flag) => flag,
        None => false,
    }
}

/// The decision for an action block. Of several primaries the first in the
/// order route, switch route, block, throttle is taken. With none, the
/// decision is to log only, and the log flag is on.
pub open spec fn planned(a: ActionView) -> DecisionView {
    if a.route is Some {
        DecisionView { kind: KindView::Route(a.route->0), log: log_flag(a) }
    } else if a.switch_route is Some {
        DecisionView { kind: KindView::SwitchRoute(a.switch_route->0), log: log_flag(a) }
    } else if a.block == Some(true) {
        DecisionView { kind: KindView::Block, log: log_flag(a) }
    } else if a.throttle is Some {
        DecisionView { kind: KindView::Throttle(a.throttle->0), log: log_flag(a) }
    } else {
        DecisionView { kind: KindView::LogOnly, log: true }
    }
}

/// One line that names a decision.
pub open spec fn summary_of(kind: KindView) -> Seq<char> {
    match kind {
        KindView::Route(name) => "route "@ + name,
        KindView::SwitchRoute(name) => "switch_route "@ + name,
        KindView::Block => "block"@,
        KindView::Throttle(class) => "throttle "@ + class,
        KindView::LogOnly => "log"@,
    }
}

/// Turns an action block into one decision.
pub fn plan_action(action: &Action) -> (decision: ActionDecision)
    ensures
        decision@ == planned(action@),
{
    let log = match action.log {
        Some(flag) => flag,
        None => false,
    };
    if let Some(route) = &action.route {
        return ActionDecision { kind: ActionKind::Route(route.clone()), log };
    }
    if let Some(route) = &action.switch_route {
        return ActionDecision { kind: ActionKind::SwitchRoute(route.clone()), log };
    }
    if let Some(true) = action.block {
        return ActionDecision { kind: ActionKind::Block, log };
    }
    if let Some(throttle) = &action.throttle {
        return ActionDecision { kind: ActionKind::Throttle(throttle.clone()), log };
    }
    ActionDecision { kind: ActionKind::LogOnly, log: true }
}

impl ActionDecision {
    /// One line that names the decision.
    pub fn summary(&self) -> (line: String)
        ensures
            line@ == summary_of(self@.kind),
    {
        match &self.kind {
            ActionKind::Route(route) => join2("route ", route.as_str()),
            ActionKind::SwitchRoute(route) => join2("switch_route ", route.as_str()),
            ActionKind::Block => "block".to_owned(),
            ActionKind::Throttle(name) => join2("throttle ", name.as_str()),
            ActionKind::LogOnly => "log".to_owned(),
        }
    }
}

/// One line that names what a rule does.
pub fn action_summary(rule: &Rule) -> (line: String)
    ensures
        line@ == summary_of(planned(rule@.action).kind),
{
    plan_action(&rule.action).summary()
}

/// For an action that names exactly one primary, the decision is that
/// primary, never the fallback, and the log flag is the action's own.
pub proof fn lemma_plan_of_valid(a: ActionView)
    requires
        valid_action(a),
    ensures
        !(planned(a).kind is LogOnly),
        planned(a).log == log_flag(a),
        a.route is Some ==> planned(a).kind == KindView::Route(a.route->0),
        a.switch_route is Some ==> planned(a).kind == KindView::SwitchRoute(a.switch_route->0),
        a.block == Some(true) ==> planned(a).kind == KindView::Block,
        a.throttle is Some ==> planned(a).kind == KindView::Throttle(a.throttle->0),
{
}

} // verus!
