//! Laws of the decision engine, each stated over the specification
//! functions that `decide`'s contract speaks of and proved once for all
//! inputs.

use vstd::prelude::*;

use crate::collector::joined;
use crate::engine::{decision_msgs, expected_kind, rule_msgs, spec_allowed, Decision};
use crate::lookup::{resolve, Resolution};
use crate::messages::{dup_port_msg, kind_msg, not_ready_msg, priv_msg};
use crate::rules::{
    all_entries_ready, container_name, containers_of, containers_port_name_msgs,
    containers_priv_msgs, Containers, dup_containers_scan, dup_msgs, dup_port_step,
    port_name_msgs, priv_container_msgs, privileged_msgs, readiness_msgs,
};
use crate::tree::PayloadTree;

verus! {

/// A request whose kind tag is not the expected kind is always denied,
/// whatever the payload holds, and its message is exactly the
/// kind-mismatch message.
pub proof fn lemma_kind_mismatch_denies(kind: Seq<char>, root: PayloadTree)
    requires
        kind != expected_kind(),
    ensures
        !spec_allowed(kind, root),
        joined(decision_msgs(kind, root)) == kind_msg(),
{
}

/// The decision is a pure function of the request: any two decisions
/// that meet `decide`'s contract for the same kind tag and payload are
/// equal, so calling `decide` twice on one input gives one output.
pub proof fn lemma_decide_deterministic(
    kind: Seq<char>,
    root: PayloadTree,
    d1: Decision,
    d2: Decision,
)
    requires
        d1.allowed == spec_allowed(kind, root),
        d1.message@ == joined(decision_msgs(kind, root)),
        d2.allowed == spec_allowed(kind, root),
        d2.message@ == joined(decision_msgs(kind, root)),
    ensures
        d1.allowed == d2.allowed,
        d1.message@ == d2.message@,
{
}

/// No container with an absent `ports` field contributes a port-name
/// message.
proof fn lemma_no_ports_no_port_name_msgs(cs: Seq<PayloadTree>)
    requires
        forall|i: int| 0 <= i < cs.len() ==> resolve(cs[i], seq!["ports"@]) is Absent,
    ensures
        containers_port_name_msgs(cs) == Seq::<Seq<char>>::empty(),
    decreases cs.len(),
{
    if cs.len() > 0 {
        assert(forall|i: int|
            0 <= i < cs.drop_first().len() ==> resolve(
                #[trigger] cs.drop_first()[i],
                seq!["ports"@],
            ) is Absent);
        lemma_no_ports_no_port_name_msgs(cs.drop_first());
        assert(containers_port_name_msgs(cs) =~= Seq::<Seq<char>>::empty());
    }
}

/// No container with an absent `ports` field contributes a duplicate-port
/// message, and the scan's seen values stay as they were.
proof fn lemma_no_ports_no_dup_msgs(cs: Seq<PayloadTree>, seen: Seq<i64>)
    requires
        forall|i: int| 0 <= i < cs.len() ==> resolve(cs[i], seq!["ports"@]) is Absent,
    ensures
        dup_containers_scan(cs, seen).0 == Seq::<Seq<char>>::empty(),
        dup_containers_scan(cs, seen).1 == seen,
    decreases cs.len(),
{
    if cs.len() > 0 {
        assert(forall|i: int|
            0 <= i < cs.drop_first().len() ==> resolve(
                #[trigger] cs.drop_first()[i],
                seq!["ports"@],
            ) is Absent);
        lemma_no_ports_no_dup_msgs(cs.drop_first(), seen);
        assert(dup_containers_scan(cs, seen).0 =~= Seq::<Seq<char>>::empty());
    }
}

/// A container is benign for the privileged rule when its
/// `securityContext.privileged` is absent or an explicit `false`.
pub open spec fn priv_benign(c: PayloadTree) -> bool {
    resolve(c, seq!["securityContext"@, "privileged"@]) is Absent || resolve(
        c,
        seq!["securityContext"@, "privileged"@],
    ) == Resolution::Present(PayloadTree::Bool(false))
}

/// Containers whose `securityContext.privileged` is absent or `false`
/// contribute no privileged-container message.
proof fn lemma_priv_benign_no_msgs(cs: Seq<PayloadTree>)
    requires
        forall|i: int| 0 <= i < cs.len() ==> priv_benign(cs[i]),
    ensures
        containers_priv_msgs(cs) == Seq::<Seq<char>>::empty(),
    decreases cs.len(),
{
    if cs.len() > 0 {
        assert(priv_benign(cs[0]));
        assert(priv_container_msgs(cs[0]) =~= Seq::<Seq<char>>::empty());
        assert(forall|i: int|
            0 <= i < cs.drop_first().len() ==> priv_benign(#[trigger] cs.drop_first()[i]));
        lemma_priv_benign_no_msgs(cs.drop_first());
        assert(containers_priv_msgs(cs) =~= Seq::<Seq<char>>::empty());
    }
}

/// A Pod-shaped payload with no ports, no security context and no speaker
/// array is allowed, with an empty message: when `spec.containers` is
/// absent or a sequence of entries whose `ports` and
/// `securityContext.privileged` fields are absent, and `spec.speaker` is
/// absent, no rule records a violation.
pub proof fn lemma_benign_pod_allowed(root: PayloadTree)
    requires
        match containers_of(root) {
            Containers::Missing => true,
            Containers::Malformed => false,
            Containers::Listed(cs) => forall|i: int|
                0 <= i < cs.len() ==> resolve(#[trigger] cs[i], seq!["ports"@]) is Absent
                    && resolve(cs[i], seq!["securityContext"@, "privileged"@]) is Absent,
        },
        resolve(root, seq!["spec"@, "speaker"@]) is Absent,
    ensures
        spec_allowed(expected_kind(), root),
        joined(decision_msgs(expected_kind(), root)) == Seq::<char>::empty(),
{
    match containers_of(root) {
        Containers::Missing => {
            assert(rule_msgs(root) =~= Seq::<Seq<char>>::empty());
        },
        Containers::Malformed => {
        },
        Containers::Listed(cs) => {
            lemma_no_ports_no_port_name_msgs(cs);
            lemma_no_ports_no_dup_msgs(cs, Seq::<i64>::empty());
            assert(forall|i: int| 0 <= i < cs.len() ==> priv_benign(#[trigger] cs[i]));
            lemma_priv_benign_no_msgs(cs);
            assert(rule_msgs(root) =~= Seq::<Seq<char>>::empty());
        },
    }
}

/// Within the container list, a container whose
/// `securityContext.privileged` resolves to `true` puts its
/// privileged-container message into the rule's messages.
proof fn lemma_priv_hit_recorded(cs: Seq<PayloadTree>, k: int)
    requires
        0 <= k < cs.len(),
        resolve(cs[k], seq!["securityContext"@, "privileged"@]) == Resolution::Present(
            PayloadTree::Bool(true),
        ),
    ensures
        containers_priv_msgs(cs).contains(priv_msg(container_name(cs[k]))),
    decreases cs.len(),
{
    let m = priv_msg(container_name(cs[k]));
    let head = priv_container_msgs(cs[0]);
    let rest = containers_priv_msgs(cs.drop_first());
    if k == 0 {
        assert((head + rest)[0] == m);
        assert(containers_priv_msgs(cs).contains(m));
    } else {
        lemma_priv_hit_recorded(cs.drop_first(), k - 1);
        let j = choose|j: int| 0 <= j < rest.len() && rest[j] == m;
        assert((head + rest)[head.len() + j] == m);
        assert(containers_priv_msgs(cs).contains(m));
    }
}

/// `securityContext.privileged: true` on any container denies the
/// request: the privileged rule records a message naming that container,
/// so the decision for a Pod-kinded request is not allowed. Conversely,
/// when every container's `securityContext.privileged` is absent or
/// `false`, the privileged rule records nothing.
pub proof fn lemma_privileged_rule_law(root: PayloadTree, cs: Seq<PayloadTree>)
    requires
        containers_of(root) == Containers::Listed(cs),
    ensures
        forall|k: int|
            0 <= k < cs.len() && resolve(
                #[trigger] cs[k],
                seq!["securityContext"@, "privileged"@],
            ) == Resolution::Present(PayloadTree::Bool(true)) ==> privileged_msgs(root).contains(
                priv_msg(container_name(cs[k])),
            ) && !spec_allowed(expected_kind(), root),
        (forall|k: int| 0 <= k < cs.len() ==> priv_benign(#[trigger] cs[k]))
            ==> privileged_msgs(root) == Seq::<Seq<char>>::empty(),
{
    assert forall|k: int|
        0 <= k < cs.len() && resolve(
            #[trigger] cs[k],
            seq!["securityContext"@, "privileged"@],
        ) == Resolution::Present(PayloadTree::Bool(true)) implies privileged_msgs(root).contains(
        priv_msg(container_name(cs[k])),
    ) && !spec_allowed(expected_kind(), root) by {
        lemma_priv_hit_recorded(cs, k);
        assert(privileged_msgs(root).len() > 0);
        assert(rule_msgs(root).len() >= privileged_msgs(root).len());
    }
    if forall|k: int| 0 <= k < cs.len() ==> priv_benign(#[trigger] cs[k]) {
        lemma_priv_benign_no_msgs(cs);
    }
}

/// The duplicate-port scan accepts the first occurrence of any
/// `containerPort` value and flags exactly the later ones: a port entry
/// whose value is new leaves no message and joins the seen values, one
/// whose value was already seen leaves one message and the seen values
/// unchanged. The seen values thread through the whole Pod spec, so the
/// scan does not reset between containers.
pub proof fn lemma_duplicate_port_step(
    cname: Seq<char>,
    p: PayloadTree,
    seen: Seq<i64>,
    n: i64,
)
    requires
        resolve(p, seq!["containerPort"@]) == Resolution::Present(PayloadTree::Num(n)),
    ensures
        !seen.contains(n) ==> dup_port_step(cname, p, seen)
            == (Seq::<Seq<char>>::empty(), seen.push(n)),
        seen.contains(n) ==> dup_port_step(cname, p, seen)
            == (seq![dup_port_msg(cname, n as int)], seen),
{
}

/// The allow/deny outcome is order-independent: a Pod-kinded request is
/// allowed exactly when every rule, taken by itself, records nothing, so
/// the order the evaluators run in can only affect the message, never
/// the outcome.
pub proof fn lemma_outcome_order_independent(root: PayloadTree)
    ensures
        spec_allowed(expected_kind(), root) <==> (port_name_msgs(root).len() == 0 && dup_msgs(
            root,
        ).len() == 0 && privileged_msgs(root).len() == 0 && readiness_msgs(root).len() == 0),
{
}

/// The readiness rule aggregates per request: when `spec.speaker` is a
/// sequence whose entries all carry a `canTalk` boolean it records
/// nothing, and when any entry lacks one it records exactly one message
/// for the whole request, never one per entry.
pub proof fn lemma_readiness_aggregate(root: PayloadTree, es: Vec<PayloadTree>)
    requires
        resolve(root, seq!["spec"@, "speaker"@]) == Resolution::Present(PayloadTree::Arr(es)),
    ensures
        all_entries_ready(es@) ==> readiness_msgs(root) == Seq::<Seq<char>>::empty(),
        !all_entries_ready(es@) ==> readiness_msgs(root) == seq![not_ready_msg()],
{
}

} // verus!
