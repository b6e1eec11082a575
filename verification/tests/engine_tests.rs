//! End-to-end tests of the decision engine over hand-built payload trees
//! and over the typed builders.

use admission_engine::engine::decide;
use admission_engine::tree::PayloadTree;
use admission_engine::typed::{ContainerType, PortEntry, SecContext, TestSpec};

fn s(x: &str) -> String {
    x.to_string()
}

fn obj(entries: Vec<(&str, PayloadTree)>) -> PayloadTree {
    PayloadTree::Obj(entries.into_iter().map(|(k, v)| (s(k), v)).collect())
}

fn port(name: Option<&str>, container_port: Option<u16>) -> PortEntry {
    PortEntry {
        name: name.map(s),
        containerPort: container_port,
        hostPort: None,
        hostIP: None,
        protocol: None,
    }
}

fn container(name: &str, ports: Vec<PortEntry>) -> ContainerType {
    ContainerType {
        name: s(name),
        image: s("img"),
        ports,
        securityContext: None,
    }
}

fn pod_tree(containers: Vec<ContainerType>) -> PayloadTree {
    TestSpec { containers }.to_tree()
}

#[test]
fn kind_mismatch_always_denies() {
    let payload = obj(vec![]);
    let d = decide(&s("Deployment"), &payload);
    assert!(!d.allowed);
    assert_eq!(
        d.message,
        "request kind is not Pod; only Pod resources are evaluated"
    );
}

#[test]
fn kind_mismatch_ignores_payload_content() {
    let payload = pod_tree(vec![ContainerType {
        name: s("c1"),
        image: s("img"),
        ports: vec![port(Some("0123456789"), Some(80))],
        securityContext: Some(SecContext {
            privileged: Some(true),
        }),
    }]);
    let d = decide(&s("Service"), &payload);
    assert!(!d.allowed);
    assert_eq!(
        d.message,
        "request kind is not Pod; only Pod resources are evaluated"
    );
}

#[test]
fn empty_payload_is_allowed() {
    let payload = obj(vec![]);
    let d = decide(&s("Pod"), &payload);
    assert!(d.allowed);
    assert_eq!(d.message, "");
}

#[test]
fn benign_pod_is_allowed_with_empty_message() {
    let payload = pod_tree(vec![container("c1", vec![]), container("c2", vec![])]);
    let d = decide(&s("Pod"), &payload);
    assert!(d.allowed);
    assert_eq!(d.message, "");
}

#[test]
fn decide_is_idempotent() {
    let payload = pod_tree(vec![ContainerType {
        name: s("c1"),
        image: s("img"),
        ports: vec![port(Some("0123456789"), Some(8080))],
        securityContext: Some(SecContext {
            privileged: Some(true),
        }),
    }]);
    let d1 = decide(&s("Pod"), &payload);
    let d2 = decide(&s("Pod"), &payload);
    assert_eq!(d1.allowed, d2.allowed);
    assert_eq!(d1.message, d2.message);
}

#[test]
fn nine_character_port_name_is_accepted() {
    let payload = pod_tree(vec![container("c1", vec![port(Some("012345678"), None)])]);
    let d = decide(&s("Pod"), &payload);
    assert!(d.allowed);
    assert_eq!(d.message, "");
}

#[test]
fn ten_character_port_name_is_rejected() {
    let payload = pod_tree(vec![container("c1", vec![port(Some("0123456789"), None)])]);
    let d = decide(&s("Pod"), &payload);
    assert!(!d.allowed);
    assert_eq!(
        d.message,
        "container c1 declares port name 0123456789, which is 10 or more characters"
    );
}

#[test]
fn unnamed_port_is_accepted() {
    let payload = pod_tree(vec![container("c1", vec![port(None, Some(80))])]);
    let d = decide(&s("Pod"), &payload);
    assert!(d.allowed);
}

#[test]
fn duplicate_port_across_containers_yields_one_violation() {
    let payload = pod_tree(vec![
        container("c1", vec![port(None, Some(8080))]),
        container("c2", vec![port(None, Some(8080))]),
    ]);
    let d = decide(&s("Pod"), &payload);
    assert!(!d.allowed);
    assert_eq!(d.message, "container c2 repeats containerPort 8080");
}

#[test]
fn distinct_ports_are_accepted() {
    let payload = pod_tree(vec![
        container("c1", vec![port(None, Some(80)), port(None, Some(443))]),
        container("c2", vec![port(None, Some(8080))]),
    ]);
    let d = decide(&s("Pod"), &payload);
    assert!(d.allowed);
}

#[test]
fn triple_occurrence_yields_two_violations() {
    let payload = pod_tree(vec![
        container("c1", vec![port(None, Some(53))]),
        container("c2", vec![port(None, Some(53))]),
        container("c3", vec![port(None, Some(53))]),
    ]);
    let d = decide(&s("Pod"), &payload);
    assert!(!d.allowed);
    assert_eq!(
        d.message,
        "container c2 repeats containerPort 53\ncontainer c3 repeats containerPort 53"
    );
}

#[test]
fn privileged_true_names_the_container() {
    let payload = pod_tree(vec![ContainerType {
        name: s("edge"),
        image: s("img"),
        ports: vec![],
        securityContext: Some(SecContext {
            privileged: Some(true),
        }),
    }]);
    let d = decide(&s("Pod"), &payload);
    assert!(!d.allowed);
    assert_eq!(d.message, "container edge is privileged");
}

#[test]
fn privileged_false_or_absent_is_accepted() {
    let payload = pod_tree(vec![
        ContainerType {
            name: s("a"),
            image: s("img"),
            ports: vec![],
            securityContext: Some(SecContext {
                privileged: Some(false),
            }),
        },
        ContainerType {
            name: s("b"),
            image: s("img"),
            ports: vec![],
            securityContext: None,
        },
    ]);
    let d = decide(&s("Pod"), &payload);
    assert!(d.allowed);
    assert_eq!(d.message, "");
}

#[test]
fn all_speakers_ready_is_accepted() {
    let payload = obj(vec![(
        "spec",
        obj(vec![(
            "speaker",
            PayloadTree::Arr(vec![
                obj(vec![("canTalk", PayloadTree::Bool(true))]),
                obj(vec![("canTalk", PayloadTree::Bool(true))]),
            ]),
        )]),
    )]);
    let d = decide(&s("Pod"), &payload);
    assert!(d.allowed);
    assert_eq!(d.message, "");
}

#[test]
fn missing_can_talk_yields_one_aggregate_violation() {
    let payload = obj(vec![(
        "spec",
        obj(vec![(
            "speaker",
            PayloadTree::Arr(vec![
                obj(vec![("canTalk", PayloadTree::Bool(true))]),
                obj(vec![("topic", PayloadTree::Str(s("x")))]),
                obj(vec![]),
            ]),
        )]),
    )]);
    let d = decide(&s("Pod"), &payload);
    assert!(!d.allowed);
    assert_eq!(d.message, "not all speakers are ready");
}

#[test]
fn speaker_scalar_is_a_violation_not_a_crash() {
    let payload = obj(vec![(
        "spec",
        obj(vec![("speaker", PayloadTree::Str(s("nobody")))]),
    )]);
    let d = decide(&s("Pod"), &payload);
    assert!(!d.allowed);
    assert_eq!(d.message, "spec.speaker is not a sequence");
}

#[test]
fn scalar_containers_is_a_violation_not_a_crash() {
    let payload = obj(vec![(
        "spec",
        obj(vec![("containers", PayloadTree::Str(s("oops")))]),
    )]);
    let d = decide(&s("Pod"), &payload);
    assert!(!d.allowed);
    assert_eq!(
        d.message,
        "port names could not be checked: spec.containers is not a sequence\n\
         container ports could not be checked: spec.containers is not a sequence\n\
         privileged containers could not be checked: spec.containers is not a sequence"
    );
}

#[test]
fn scalar_container_entry_is_reported_by_each_scanning_rule() {
    let payload = obj(vec![(
        "spec",
        obj(vec![(
            "containers",
            PayloadTree::Arr(vec![PayloadTree::Str(s("weird"))]),
        )]),
    )]);
    let d = decide(&s("Pod"), &payload);
    assert!(!d.allowed);
    assert_eq!(
        d.message,
        "a container entry is not a mapping\n\
         a container entry is not a mapping\n\
         securityContext of container unnamed is malformed"
    );
}

#[test]
fn scalar_ports_field_is_a_violation() {
    let payload = obj(vec![(
        "spec",
        obj(vec![(
            "containers",
            PayloadTree::Arr(vec![obj(vec![
                ("name", PayloadTree::Str(s("c"))),
                ("ports", PayloadTree::Str(s("p"))),
            ])]),
        )]),
    )]);
    let d = decide(&s("Pod"), &payload);
    assert!(!d.allowed);
    assert_eq!(
        d.message,
        "ports of container c is not a sequence\nports of container c is not a sequence"
    );
}

#[test]
fn scalar_port_entry_is_a_violation() {
    let payload = obj(vec![(
        "spec",
        obj(vec![(
            "containers",
            PayloadTree::Arr(vec![obj(vec![
                ("name", PayloadTree::Str(s("c"))),
                ("ports", PayloadTree::Arr(vec![PayloadTree::Str(s("x"))])),
            ])]),
        )]),
    )]);
    let d = decide(&s("Pod"), &payload);
    assert!(!d.allowed);
    assert_eq!(
        d.message,
        "a port entry of container c is not a mapping\n\
         a port entry of container c is not a mapping"
    );
}

#[test]
fn non_string_port_name_is_a_violation() {
    let payload = obj(vec![(
        "spec",
        obj(vec![(
            "containers",
            PayloadTree::Arr(vec![obj(vec![
                ("name", PayloadTree::Str(s("c"))),
                (
                    "ports",
                    PayloadTree::Arr(vec![obj(vec![("name", PayloadTree::Num(5))])]),
                ),
            ])]),
        )]),
    )]);
    let d = decide(&s("Pod"), &payload);
    assert!(!d.allowed);
    assert_eq!(d.message, "a port name of container c is not a string");
}

#[test]
fn non_integer_container_port_is_a_violation() {
    let payload = obj(vec![(
        "spec",
        obj(vec![(
            "containers",
            PayloadTree::Arr(vec![obj(vec![
                ("name", PayloadTree::Str(s("c"))),
                (
                    "ports",
                    PayloadTree::Arr(vec![obj(vec![(
                        "containerPort",
                        PayloadTree::Str(s("80")),
                    )])]),
                ),
            ])]),
        )]),
    )]);
    let d = decide(&s("Pod"), &payload);
    assert!(!d.allowed);
    assert_eq!(d.message, "containerPort of container c is not an integer");
}

#[test]
fn non_boolean_privileged_is_a_violation() {
    let payload = obj(vec![(
        "spec",
        obj(vec![(
            "containers",
            PayloadTree::Arr(vec![obj(vec![
                ("name", PayloadTree::Str(s("c"))),
                (
                    "securityContext",
                    obj(vec![("privileged", PayloadTree::Str(s("yes")))]),
                ),
            ])]),
        )]),
    )]);
    let d = decide(&s("Pod"), &payload);
    assert!(!d.allowed);
    assert_eq!(d.message, "privileged of container c is not a boolean");
}

#[test]
fn scalar_security_context_is_a_violation() {
    let payload = obj(vec![(
        "spec",
        obj(vec![(
            "containers",
            PayloadTree::Arr(vec![obj(vec![
                ("name", PayloadTree::Str(s("c"))),
                ("securityContext", PayloadTree::Bool(true)),
            ])]),
        )]),
    )]);
    let d = decide(&s("Pod"), &payload);
    assert!(!d.allowed);
    assert_eq!(d.message, "securityContext of container c is malformed");
}

#[test]
fn negative_duplicate_port_renders_with_sign() {
    let entry = |n: i64| obj(vec![("containerPort", PayloadTree::Num(n))]);
    let cont = |name: &str, n: i64| {
        obj(vec![
            ("name", PayloadTree::Str(s(name))),
            ("ports", PayloadTree::Arr(vec![entry(n)])),
        ])
    };
    let payload = obj(vec![(
        "spec",
        obj(vec![(
            "containers",
            PayloadTree::Arr(vec![cont("c1", -3), cont("c2", -3)]),
        )]),
    )]);
    let d = decide(&s("Pod"), &payload);
    assert!(!d.allowed);
    assert_eq!(d.message, "container c2 repeats containerPort -3");
}

#[test]
fn speaker_with_can_talk_false_is_still_ready() {
    let payload = obj(vec![(
        "spec",
        obj(vec![(
            "speaker",
            PayloadTree::Arr(vec![obj(vec![("canTalk", PayloadTree::Bool(false))])]),
        )]),
    )]);
    let d = decide(&s("Pod"), &payload);
    assert!(d.allowed);
    assert_eq!(d.message, "");
}

#[test]
fn violations_follow_evaluator_order() {
    let payload = pod_tree(vec![ContainerType {
        name: s("c1"),
        image: s("img"),
        ports: vec![port(Some("0123456789"), None)],
        securityContext: Some(SecContext {
            privileged: Some(true),
        }),
    }]);
    let d = decide(&s("Pod"), &payload);
    assert!(!d.allowed);
    assert_eq!(
        d.message,
        "container c1 declares port name 0123456789, which is 10 or more characters\n\
         container c1 is privileged"
    );
}
