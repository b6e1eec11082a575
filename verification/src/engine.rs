//! The decision engine: validates the request's kind tag, runs the rule
//! evaluators in a fixed order over one shared collector, and converts the
//! collector's final state into an allow/deny decision plus message.

use vstd::prelude::*;

use crate::collector::{
    all_nonempty, joined, lemma_all_nonempty_concat, lemma_joined_nonempty, Collector,
};
use crate::messages::{kind_msg, lemma_messages_nonempty};
use crate::rules::{
    dup_msgs, duplicate_port_rule, lemma_dup_msgs_nonempty, lemma_port_name_msgs_nonempty,
    lemma_privileged_msgs_nonempty, lemma_readiness_msgs_nonempty, port_name_msgs,
    port_name_rule, privileged_msgs, privileged_rule, readiness_msgs, readiness_rule,
};
use crate::tree::PayloadTree;

verus! {

/// The terminal artifact of one admission request: a binary allow/deny
/// decision and an aggregated message, empty when allowed.
pub struct Decision {
    pub allowed: bool,
    pub message: String,
}

/// The kind tag the engine operates on.
pub open spec fn expected_kind() -> Seq<char> {
    "Pod"@
}

/// Every message the rules record for a Pod-shaped payload, in evaluator
/// order: port names, duplicate ports, privileged containers, readiness.
pub open spec fn rule_msgs(root: PayloadTree) -> Seq<Seq<char>> {
    port_name_msgs(root) + dup_msgs(root) + privileged_msgs(root) + readiness_msgs(root)
}

/// The messages one request ends up with: a single kind-mismatch message
/// when the kind tag is wrong (structural rules are skipped, since they
/// assume a Pod-shaped payload), else the rules' messages.
pub open spec fn decision_msgs(kind: Seq<char>, root: PayloadTree) -> Seq<Seq<char>> {
    if kind == expected_kind() {
        rule_msgs(root)
    } else {
        seq![kind_msg()]
    }
}

/// Whether the request is allowed: true iff no violation is recorded.
pub open spec fn spec_allowed(kind: Seq<char>, root: PayloadTree) -> bool {
    decision_msgs(kind, root).len() == 0
}

/// Whatever one request ends up with, every message of it is a nonempty
/// sentence.
pub proof fn lemma_decision_msgs_nonempty(kind: Seq<char>, root: PayloadTree)
    ensures
        all_nonempty(decision_msgs(kind, root)),
{
    if kind == expected_kind() {
        lemma_port_name_msgs_nonempty(root);
        lemma_dup_msgs_nonempty(root);
        lemma_privileged_msgs_nonempty(root);
        lemma_readiness_msgs_nonempty(root);
        lemma_all_nonempty_concat(port_name_msgs(root), dup_msgs(root));
        lemma_all_nonempty_concat(port_name_msgs(root) + dup_msgs(root), privileged_msgs(root));
        lemma_all_nonempty_concat(
            port_name_msgs(root) + dup_msgs(root) + privileged_msgs(root),
            readiness_msgs(root),
        );
    } else {
        lemma_messages_nonempty(Seq::empty(), Seq::empty(), 0);
        assert(seq![kind_msg()][0] == kind_msg());
    }
}

/// Decides one admission request. The decision is a pure function of the
/// kind tag and the payload tree: `allowed` holds iff the evaluation
/// records no violation, and `message` is the newline-joined rendering of
/// every recorded violation, empty exactly when allowed. All applicable rules run
/// to completion even after the first violation, so the message is as
/// complete as possible.
pub fn decide(kind: &String, payload: &PayloadTree) -> (d: Decision)
    ensures
        d.allowed == spec_allowed(kind@, *payload),
        d.message@ == joined(decision_msgs(kind@, *payload)),
        d.allowed <==> d.message@ == Seq::<char>::empty(),
{
    proof {
        lemma_decision_msgs_nonempty(kind@, *payload);
        if decision_msgs(kind@, *payload).len() > 0 {
            lemma_joined_nonempty(decision_msgs(kind@, *payload));
        }
    }
    let mut col = Collector::new();
    let pod = String::from_str("Pod");
    if *kind == pod {
        port_name_rule(payload, &mut col);
        duplicate_port_rule(payload, &mut col);
        privileged_rule(payload, &mut col);
        readiness_rule(payload, &mut col);
        proof {
            assert(col@ =~= decision_msgs(kind@, *payload));
        }
    } else {
        col.record(
            String::from_str("request kind is not Pod; only Pod resources are evaluated"),
        );
        proof {
            assert(col@ =~= decision_msgs(kind@, *payload));
        }
    }
    let allowed = col.is_clean();
    let message = col.render();
    Decision { allowed, message }
}

} // verus!
