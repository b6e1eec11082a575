//! The rule evaluators. Each rule is a function of the payload tree and the
//! violation collector, and appends exactly the messages its specification
//! function lists, in order, leaving earlier messages untouched. Rules never
//! panic: a malformed shape becomes a recorded violation, not an abort.

use vstd::prelude::*;

use crate::collector::{all_nonempty, lemma_all_nonempty_concat, Collector};
use crate::lookup::{lookup, obj_find, resolve, Found, Resolution};
use crate::messages::{
    build2, build_dup_port, build_long_port_name, container_shape_msg, cport_type_msg,
    dup_port_msg, dup_rule_shape_msg, long_port_name_msg, port_entry_shape_msg,
    lemma_messages_nonempty, port_name_type_msg, port_rule_shape_msg, ports_shape_msg, priv_msg,
    priv_rule_shape_msg, priv_type_msg, sc_shape_msg, speaker_shape_msg, not_ready_msg,
};
use crate::tree::PayloadTree;

verus! {

// ---------------------------------------------------------------------------
// Shared helpers.
// ---------------------------------------------------------------------------
/// The `spec.containers` field as the rules see it: missing, malformed
/// (present but not a sequence, or behind a non-mapping), or a list.
pub enum Containers {
    Missing,
    Malformed,
    Listed(Seq<PayloadTree>),
}

/// How `spec.containers` resolves in `root`.
pub open spec fn containers_of(root: PayloadTree) -> Containers {
    match resolve(root, seq!["spec"@, "containers"@]) {
        Resolution::Absent => Containers::Missing,
        Resolution::Mismatch => Containers::Malformed,
        Resolution::Present(v) => match v {
            PayloadTree::Arr(cs) => Containers::Listed(cs@),
            _ => Containers::Malformed,
        },
    }
}

/// The name a violation uses for a container: its `name` field when that
/// is a string, otherwise a placeholder.
pub open spec fn container_name(c: PayloadTree) -> Seq<char> {
    match resolve(c, seq!["name"@]) {
        Resolution::Present(v) => match v {
            PayloadTree::Str(s) => s@,
            _ => "unnamed"@,
        },
        _ => "unnamed"@,
    }
}

/// A one-segment field path.
fn path1(a: &str) -> (r: Vec<String>)
    ensures
        r.deep_view() == seq![a@],
{
    let mut v: Vec<String> = Vec::new();
    v.push(String::from_str(a));
    proof {
        assert(v.deep_view() =~= seq![a@]);
    }
    v
}

/// A two-segment field path.
fn path2(a: &str, b: &str) -> (r: Vec<String>)
    ensures
        r.deep_view() == seq![a@, b@],
{
    let mut v: Vec<String> = Vec::new();
    v.push(String::from_str(a));
    v.push(String::from_str(b));
    proof {
        assert(v.deep_view() =~= seq![a@, b@]);
    }
    v
}

/// The name under which violations report `c`.
fn container_name_str(c: &PayloadTree) -> (r: String)
    ensures
        r@ == container_name(*c),
{
    let path = path1("name");
    match lookup(c, &path) {
        Found::Present(v) => match v {
            PayloadTree::Str(s) => s.clone(),
            _ => String::from_str("unnamed"),
        },
        _ => String::from_str("unnamed"),
    }
}

/// Whether `x` occurs in `v`.
fn contains_i64(v: &Vec<i64>, x: i64) -> (r: bool)
    ensures
        r == v@.contains(x),
{
    let mut i: usize = 0;
    while i < v.len()
        invariant
            i <= v.len(),
            forall|j: int| 0 <= j < i ==> v@[j] != x,
        decreases v.len() - i,
    {
        if v[i] == x {
            return true;
        }
        i = i + 1;
    }
    false
}

// ---------------------------------------------------------------------------
// Port-name-length rule.
// ---------------------------------------------------------------------------
/// Messages the port-name rule records for one port entry: its `name`, when
/// present and a string, must be under ten characters.
pub open spec fn port_entry_name_msgs(cname: Seq<char>, p: PayloadTree) -> Seq<Seq<char>> {
    match resolve(p, seq!["name"@]) {
        Resolution::Absent => Seq::empty(),
        Resolution::Mismatch => seq![port_entry_shape_msg(cname)],
        Resolution::Present(v) => match v {
            PayloadTree::Str(s) => if s@.len() >= 10 {
                seq![long_port_name_msg(cname, s@)]
            } else {
                Seq::empty()
            },
            _ => seq![port_name_type_msg(cname)],
        },
    }
}

/// Messages the port-name rule records over a list of port entries, in order.
pub open spec fn ports_name_msgs(cname: Seq<char>, ps: Seq<PayloadTree>) -> Seq<Seq<char>>
    decreases ps.len(),
{
    if ps.len() == 0 {
        Seq::empty()
    } else {
        port_entry_name_msgs(cname, ps[0]) + ports_name_msgs(cname, ps.drop_first())
    }
}

/// Messages the port-name rule records for one container entry.
pub open spec fn container_port_name_msgs(c: PayloadTree) -> Seq<Seq<char>> {
    match resolve(c, seq!["ports"@]) {
        Resolution::Absent => Seq::empty(),
        Resolution::Mismatch => seq![container_shape_msg()],
        Resolution::Present(v) => match v {
            PayloadTree::Arr(ps) => ports_name_msgs(container_name(c), ps@),
            _ => seq![ports_shape_msg(container_name(c))],
        },
    }
}

/// Messages the port-name rule records over the container list, in order.
pub open spec fn containers_port_name_msgs(cs: Seq<PayloadTree>) -> Seq<Seq<char>>
    decreases cs.len(),
{
    if cs.len() == 0 {
        Seq::empty()
    } else {
        container_port_name_msgs(cs[0]) + containers_port_name_msgs(cs.drop_first())
    }
}

/// All messages the port-name rule records for one payload tree.
pub open spec fn port_name_msgs(root: PayloadTree) -> Seq<Seq<char>> {
    match containers_of(root) {
        Containers::Missing => Seq::empty(),
        Containers::Malformed => seq![port_rule_shape_msg()],
        Containers::Listed(cs) => containers_port_name_msgs(cs),
    }
}

/// Checks one port entry's name length.
fn check_port_entry_name(cname: &String, p: &PayloadTree, col: &mut Collector)
    ensures
        final(col)@ == old(col)@ + port_entry_name_msgs(cname@, *p),
{
    let path = path1("name");
    match lookup(p, &path) {
        Found::Absent => {
            proof {
                assert(old(col)@ + port_entry_name_msgs(cname@, *p) =~= old(col)@);
            }
        },
        Found::Mismatch => {
            col.record(build2("a port entry of container ", cname, " is not a mapping"));
            proof {
                assert(old(col)@.push(port_entry_shape_msg(cname@)) =~= old(col)@
                    + port_entry_name_msgs(cname@, *p));
            }
        },
        Found::Present(v) => {
            match v {
                PayloadTree::Str(s) => {
                    if s.as_str().unicode_len() >= 10 {
                        col.record(build_long_port_name(cname, s));
                        proof {
                            assert(old(col)@.push(long_port_name_msg(cname@, s@)) =~= old(col)@
                                + port_entry_name_msgs(cname@, *p));
                        }
                    } else {
                        proof {
                            assert(old(col)@ + port_entry_name_msgs(cname@, *p) =~= old(col)@);
                        }
                    }
                },
                _ => {
                    col.record(build2("a port name of container ", cname, " is not a string"));
                    proof {
                        assert(old(col)@.push(port_name_type_msg(cname@)) =~= old(col)@
                            + port_entry_name_msgs(cname@, *p));
                    }
                },
            }
        },
    }
}

/// Checks every port name of one container entry.
fn check_container_port_names(c: &PayloadTree, col: &mut Collector)
    ensures
        final(col)@ == old(col)@ + container_port_name_msgs(*c),
{
    let path = path1("ports");
    match lookup(c, &path) {
        Found::Absent => {
            proof {
                assert(old(col)@ + container_port_name_msgs(*c) =~= old(col)@);
            }
        },
        Found::Mismatch => {
            col.record(String::from_str("a container entry is not a mapping"));
            proof {
                assert(old(col)@.push(container_shape_msg()) =~= old(col)@
                    + container_port_name_msgs(*c));
            }
        },
        Found::Present(v) => {
            match v {
                PayloadTree::Arr(ps) => {
                    let cname = container_name_str(c);
                    let mut i: usize = 0;
                    proof {
                        assert(ps@.skip(0) =~= ps@);
                    }
                    while i < ps.len()
                        invariant
                            i <= ps.len(),
                            cname@ == container_name(*c),
                            container_port_name_msgs(*c) == ports_name_msgs(cname@, ps@),
                            col@ + ports_name_msgs(cname@, ps@.skip(i as int)) == old(col)@
                                + container_port_name_msgs(*c),
                        decreases ps.len() - i,
                    {
                        let ghost c0 = col@;
                        check_port_entry_name(&cname, &ps[i], col);
                        proof {
                            assert(ps@.skip(i as int)[0] == ps@[i as int]);
                            assert(ps@.skip(i as int).drop_first() =~= ps@.skip(i as int + 1));
                            assert((c0 + port_entry_name_msgs(cname@, ps@[i as int]))
                                + ports_name_msgs(cname@, ps@.skip(i as int + 1)) =~= c0 + (
                            port_entry_name_msgs(cname@, ps@[i as int]) + ports_name_msgs(
                                cname@,
                                ps@.skip(i as int + 1),
                            )));
                        }
                        i = i + 1;
                    }
                    proof {
                        assert(ps@.skip(ps.len() as int) =~= Seq::<PayloadTree>::empty());
                        assert(col@ + ports_name_msgs(cname@, ps@.skip(ps.len() as int)) =~= col@);
                    }
                },
                _ => {
                    let cname = container_name_str(c);
                    col.record(build2("ports of container ", &cname, " is not a sequence"));
                    proof {
                        assert(old(col)@.push(ports_shape_msg(container_name(*c))) =~= old(col)@
                            + container_port_name_msgs(*c));
                    }
                },
            }
        },
    }
}

/// Port-name-length rule: every port name under `spec.containers[].ports`
/// must be under ten characters. Appends exactly `port_name_msgs(*root)`.
pub fn port_name_rule(root: &PayloadTree, col: &mut Collector)
    ensures
        final(col)@ == old(col)@ + port_name_msgs(*root),
{
    let path = path2("spec", "containers");
    match lookup(root, &path) {
        Found::Absent => {
            proof {
                assert(old(col)@ + port_name_msgs(*root) =~= old(col)@);
            }
        },
        Found::Mismatch => {
            col.record(
                String::from_str("port names could not be checked: spec.containers is not a sequence"),
            );
            proof {
                assert(old(col)@.push(port_rule_shape_msg()) =~= old(col)@ + port_name_msgs(
                    *root,
                ));
            }
        },
        Found::Present(v) => {
            match v {
                PayloadTree::Arr(cs) => {
                    let mut i: usize = 0;
                    proof {
                        assert(cs@.skip(0) =~= cs@);
                    }
                    while i < cs.len()
                        invariant
                            i <= cs.len(),
                            port_name_msgs(*root) == containers_port_name_msgs(cs@),
                            col@ + containers_port_name_msgs(cs@.skip(i as int)) == old(col)@
                                + port_name_msgs(*root),
                        decreases cs.len() - i,
                    {
                        let ghost c0 = col@;
                        check_container_port_names(&cs[i], col);
                        proof {
                            assert(cs@.skip(i as int)[0] == cs@[i as int]);
                            assert(cs@.skip(i as int).drop_first() =~= cs@.skip(i as int + 1));
                            assert((c0 + container_port_name_msgs(cs@[i as int]))
                                + containers_port_name_msgs(cs@.skip(i as int + 1)) =~= c0 + (
                            container_port_name_msgs(cs@[i as int]) + containers_port_name_msgs(
                                cs@.skip(i as int + 1),
                            )));
                        }
                        i = i + 1;
                    }
                    proof {
                        assert(cs@.skip(cs.len() as int) =~= Seq::<PayloadTree>::empty());
                        assert(col@ + containers_port_name_msgs(cs@.skip(cs.len() as int))
                            =~= col@);
                    }
                },
                _ => {
                    col.record(
                        String::from_str(
                            "port names could not be checked: spec.containers is not a sequence",
                        ),
                    );
                    proof {
                        assert(old(col)@.push(port_rule_shape_msg()) =~= old(col)@
                            + port_name_msgs(*root));
                    }
                },
            }
        },
    }
}

// ---------------------------------------------------------------------------
// Duplicate-container-port rule.
// ---------------------------------------------------------------------------
/// One step of the duplicate-port scan: the messages recorded for port
/// entry `p` and the seen `containerPort` values afterwards. The scan is
/// scoped to the whole Pod spec: `seen` carries over between containers.
pub open spec fn dup_port_step(cname: Seq<char>, p: PayloadTree, seen: Seq<i64>) -> (
    Seq<Seq<char>>,
    Seq<i64>,
) {
    match resolve(p, seq!["containerPort"@]) {
        Resolution::Absent => (Seq::empty(), seen),
        Resolution::Mismatch => (seq![port_entry_shape_msg(cname)], seen),
        Resolution::Present(v) => match v {
            PayloadTree::Num(n) => if seen.contains(n) {
                (seq![dup_port_msg(cname, n as int)], seen)
            } else {
                (Seq::empty(), seen.push(n))
            },
            _ => (seq![cport_type_msg(cname)], seen),
        },
    }
}

/// The duplicate-port scan over one container's port entries, in order.
pub open spec fn dup_ports_scan(cname: Seq<char>, ps: Seq<PayloadTree>, seen: Seq<i64>) -> (
    Seq<Seq<char>>,
    Seq<i64>,
)
    decreases ps.len(),
{
    if ps.len() == 0 {
        (Seq::empty(), seen)
    } else {
        let head = dup_port_step(cname, ps[0], seen);
        let rest = dup_ports_scan(cname, ps.drop_first(), head.1);
        (head.0 + rest.0, rest.1)
    }
}

/// The duplicate-port scan over one container entry.
pub open spec fn dup_container_scan(c: PayloadTree, seen: Seq<i64>) -> (
    Seq<Seq<char>>,
    Seq<i64>,
) {
    match resolve(c, seq!["ports"@]) {
        Resolution::Absent => (Seq::empty(), seen),
        Resolution::Mismatch => (seq![container_shape_msg()], seen),
        Resolution::Present(v) => match v {
            PayloadTree::Arr(ps) => dup_ports_scan(container_name(c), ps@, seen),
            _ => (seq![ports_shape_msg(container_name(c))], seen),
        },
    }
}

/// The duplicate-port scan over the container list, in order.
pub open spec fn dup_containers_scan(cs: Seq<PayloadTree>, seen: Seq<i64>) -> (
    Seq<Seq<char>>,
    Seq<i64>,
)
    decreases cs.len(),
{
    if cs.len() == 0 {
        (Seq::empty(), seen)
    } else {
        let head = dup_container_scan(cs[0], seen);
        let rest = dup_containers_scan(cs.drop_first(), head.1);
        (head.0 + rest.0, rest.1)
    }
}

/// All messages the duplicate-port rule records for one payload tree. Only
/// the second and later occurrences of a `containerPort` value are flagged.
pub open spec fn dup_msgs(root: PayloadTree) -> Seq<Seq<char>> {
    match containers_of(root) {
        Containers::Missing => Seq::empty(),
        Containers::Malformed => seq![dup_rule_shape_msg()],
        Containers::Listed(cs) => dup_containers_scan(cs, Seq::empty()).0,
    }
}

/// Scans one port entry for a repeated `containerPort`.
fn check_port_dup(cname: &String, p: &PayloadTree, seen: &mut Vec<i64>, col: &mut Collector)
    ensures
        final(col)@ == old(col)@ + dup_port_step(cname@, *p, old(seen)@).0,
        final(seen)@ == dup_port_step(cname@, *p, old(seen)@).1,
{
    let path = path1("containerPort");
    match lookup(p, &path) {
        Found::Absent => {
            proof {
                assert(old(col)@ + dup_port_step(cname@, *p, old(seen)@).0 =~= old(col)@);
            }
        },
        Found::Mismatch => {
            col.record(build2("a port entry of container ", cname, " is not a mapping"));
            proof {
                assert(old(col)@.push(port_entry_shape_msg(cname@)) =~= old(col)@
                    + dup_port_step(cname@, *p, old(seen)@).0);
            }
        },
        Found::Present(v) => {
            match v {
                PayloadTree::Num(n) => {
                    if contains_i64(seen, *n) {
                        col.record(build_dup_port(cname, *n));
                        proof {
                            assert(old(col)@.push(dup_port_msg(cname@, *n as int)) =~= old(col)@
                                + dup_port_step(cname@, *p, old(seen)@).0);
                        }
                    } else {
                        seen.push(*n);
                        proof {
                            assert(old(col)@ + dup_port_step(cname@, *p, old(seen)@).0
                                =~= old(col)@);
                        }
                    }
                },
                _ => {
                    col.record(build2("containerPort of container ", cname, " is not an integer"));
                    proof {
                        assert(old(col)@.push(cport_type_msg(cname@)) =~= old(col)@
                            + dup_port_step(cname@, *p, old(seen)@).0);
                    }
                },
            }
        },
    }
}

/// Scans one container entry's ports for repeated `containerPort` values.
fn check_container_dup(c: &PayloadTree, seen: &mut Vec<i64>, col: &mut Collector)
    ensures
        final(col)@ == old(col)@ + dup_container_scan(*c, old(seen)@).0,
        final(seen)@ == dup_container_scan(*c, old(seen)@).1,
{
    let path = path1("ports");
    match lookup(c, &path) {
        Found::Absent => {
            proof {
                assert(old(col)@ + dup_container_scan(*c, old(seen)@).0 =~= old(col)@);
            }
        },
        Found::Mismatch => {
            col.record(String::from_str("a container entry is not a mapping"));
            proof {
                assert(old(col)@.push(container_shape_msg()) =~= old(col)@ + dup_container_scan(
                    *c,
                    old(seen)@,
                ).0);
            }
        },
        Found::Present(v) => {
            match v {
                PayloadTree::Arr(ps) => {
                    let cname = container_name_str(c);
                    let mut i: usize = 0;
                    proof {
                        assert(ps@.skip(0) =~= ps@);
                    }
                    while i < ps.len()
                        invariant
                            i <= ps.len(),
                            cname@ == container_name(*c),
                            dup_container_scan(*c, old(seen)@) == dup_ports_scan(
                                cname@,
                                ps@,
                                old(seen)@,
                            ),
                            col@ + dup_ports_scan(cname@, ps@.skip(i as int), seen@).0 == old(
                                col,
                            )@ + dup_ports_scan(cname@, ps@, old(seen)@).0,
                            dup_ports_scan(cname@, ps@.skip(i as int), seen@).1 == dup_ports_scan(
                                cname@,
                                ps@,
                                old(seen)@,
                            ).1,
                        decreases ps.len() - i,
                    {
                        let ghost c0 = col@;
                        let ghost s0 = seen@;
                        check_port_dup(&cname, &ps[i], seen, col);
                        proof {
                            assert(ps@.skip(i as int)[0] == ps@[i as int]);
                            assert(ps@.skip(i as int).drop_first() =~= ps@.skip(i as int + 1));
                            assert((c0 + dup_port_step(cname@, ps@[i as int], s0).0)
                                + dup_ports_scan(cname@, ps@.skip(i as int + 1), seen@).0 =~= c0 + (
                            dup_port_step(cname@, ps@[i as int], s0).0 + dup_ports_scan(
                                cname@,
                                ps@.skip(i as int + 1),
                                seen@,
                            ).0));
                        }
                        i = i + 1;
                    }
                    proof {
                        assert(ps@.skip(ps.len() as int) =~= Seq::<PayloadTree>::empty());
                        assert(col@ + dup_ports_scan(
                            cname@,
                            ps@.skip(ps.len() as int),
                            seen@,
                        ).0 =~= col@);
                    }
                },
                _ => {
                    let cname = container_name_str(c);
                    col.record(build2("ports of container ", &cname, " is not a sequence"));
                    proof {
                        assert(old(col)@.push(ports_shape_msg(container_name(*c))) =~= old(col)@
                            + dup_container_scan(*c, old(seen)@).0);
                    }
                },
            }
        },
    }
}

/// Duplicate-container-port rule: across all containers, in iteration
/// order, a `containerPort` value may occur once; every later occurrence
/// is flagged. Appends exactly `dup_msgs(*root)`.
pub fn duplicate_port_rule(root: &PayloadTree, col: &mut Collector)
    ensures
        final(col)@ == old(col)@ + dup_msgs(*root),
{
    let path = path2("spec", "containers");
    match lookup(root, &path) {
        Found::Absent => {
            proof {
                assert(old(col)@ + dup_msgs(*root) =~= old(col)@);
            }
        },
        Found::Mismatch => {
            col.record(
                String::from_str(
                    "container ports could not be checked: spec.containers is not a sequence",
                ),
            );
            proof {
                assert(old(col)@.push(dup_rule_shape_msg()) =~= old(col)@ + dup_msgs(*root));
            }
        },
        Found::Present(v) => {
            match v {
                PayloadTree::Arr(cs) => {
                    let mut seen: Vec<i64> = Vec::new();
                    let mut i: usize = 0;
                    proof {
                        assert(cs@.skip(0) =~= cs@);
                        assert(seen@ =~= Seq::<i64>::empty());
                    }
                    while i < cs.len()
                        invariant
                            i <= cs.len(),
                            dup_msgs(*root) == dup_containers_scan(cs@, Seq::empty()).0,
                            col@ + dup_containers_scan(cs@.skip(i as int), seen@).0 == old(col)@
                                + dup_containers_scan(cs@, Seq::empty()).0,
                            dup_containers_scan(cs@.skip(i as int), seen@).1
                                == dup_containers_scan(cs@, Seq::empty()).1,
                        decreases cs.len() - i,
                    {
                        let ghost c0 = col@;
                        let ghost s0 = seen@;
                        check_container_dup(&cs[i], &mut seen, col);
                        proof {
                            assert(cs@.skip(i as int)[0] == cs@[i as int]);
                            assert(cs@.skip(i as int).drop_first() =~= cs@.skip(i as int + 1));
                            assert((c0 + dup_container_scan(cs@[i as int], s0).0)
                                + dup_containers_scan(cs@.skip(i as int + 1), seen@).0 =~= c0 + (
                            dup_container_scan(cs@[i as int], s0).0 + dup_containers_scan(
                                cs@.skip(i as int + 1),
                                seen@,
                            ).0));
                        }
                        i = i + 1;
                    }
                    proof {
                        assert(cs@.skip(cs.len() as int) =~= Seq::<PayloadTree>::empty());
                        assert(col@ + dup_containers_scan(
                            cs@.skip(cs.len() as int),
                            seen@,
                        ).0 =~= col@);
                    }
                },
                _ => {
                    col.record(
                        String::from_str(
                            "container ports could not be checked: spec.containers is not a sequence",
                        ),
                    );
                    proof {
                        assert(old(col)@.push(dup_rule_shape_msg()) =~= old(col)@ + dup_msgs(
                            *root,
                        ));
                    }
                },
            }
        },
    }
}

// ---------------------------------------------------------------------------
// Privileged-container rule.
// ---------------------------------------------------------------------------
/// Messages the privileged rule records for one container entry: its
/// `securityContext.privileged`, when present, must not be `true`.
/// An absent field or an explicit `false` is not a violation.
pub open spec fn priv_container_msgs(c: PayloadTree) -> Seq<Seq<char>> {
    match resolve(c, seq!["securityContext"@, "privileged"@]) {
        Resolution::Absent => Seq::empty(),
        Resolution::Mismatch => seq![sc_shape_msg(container_name(c))],
        Resolution::Present(v) => match v {
            PayloadTree::Bool(b) => if b {
                seq![priv_msg(container_name(c))]
            } else {
                Seq::empty()
            },
            _ => seq![priv_type_msg(container_name(c))],
        },
    }
}

/// Messages the privileged rule records over the container list, in order.
pub open spec fn containers_priv_msgs(cs: Seq<PayloadTree>) -> Seq<Seq<char>>
    decreases cs.len(),
{
    if cs.len() == 0 {
        Seq::empty()
    } else {
        priv_container_msgs(cs[0]) + containers_priv_msgs(cs.drop_first())
    }
}

/// All messages the privileged rule records for one payload tree.
pub open spec fn privileged_msgs(root: PayloadTree) -> Seq<Seq<char>> {
    match containers_of(root) {
        Containers::Missing => Seq::empty(),
        Containers::Malformed => seq![priv_rule_shape_msg()],
        Containers::Listed(cs) => containers_priv_msgs(cs),
    }
}

/// Checks one container entry for a privileged security context.
fn check_container_priv(c: &PayloadTree, col: &mut Collector)
    ensures
        final(col)@ == old(col)@ + priv_container_msgs(*c),
{
    let path = path2("securityContext", "privileged");
    match lookup(c, &path) {
        Found::Absent => {
            proof {
                assert(old(col)@ + priv_container_msgs(*c) =~= old(col)@);
            }
        },
        Found::Mismatch => {
            let cname = container_name_str(c);
            col.record(build2("securityContext of container ", &cname, " is malformed"));
            proof {
                assert(old(col)@.push(sc_shape_msg(container_name(*c))) =~= old(col)@
                    + priv_container_msgs(*c));
            }
        },
        Found::Present(v) => {
            match v {
                PayloadTree::Bool(b) => {
                    if *b {
                        let cname = container_name_str(c);
                        col.record(build2("container ", &cname, " is privileged"));
                        proof {
                            assert(old(col)@.push(priv_msg(container_name(*c))) =~= old(col)@
                                + priv_container_msgs(*c));
                        }
                    } else {
                        proof {
                            assert(old(col)@ + priv_container_msgs(*c) =~= old(col)@);
                        }
                    }
                },
                _ => {
                    let cname = container_name_str(c);
                    col.record(build2("privileged of container ", &cname, " is not a boolean"));
                    proof {
                        assert(old(col)@.push(priv_type_msg(container_name(*c))) =~= old(col)@
                            + priv_container_msgs(*c));
                    }
                },
            }
        },
    }
}

/// Privileged-container rule: no container may set
/// `securityContext.privileged` to `true`. Appends exactly
/// `privileged_msgs(*root)`.
pub fn privileged_rule(root: &PayloadTree, col: &mut Collector)
    ensures
        final(col)@ == old(col)@ + privileged_msgs(*root),
{
    let path = path2("spec", "containers");
    match lookup(root, &path) {
        Found::Absent => {
            proof {
                assert(old(col)@ + privileged_msgs(*root) =~= old(col)@);
            }
        },
        Found::Mismatch => {
            col.record(
                String::from_str(
                    "privileged containers could not be checked: spec.containers is not a sequence",
                ),
            );
            proof {
                assert(old(col)@.push(priv_rule_shape_msg()) =~= old(col)@ + privileged_msgs(
                    *root,
                ));
            }
        },
        Found::Present(v) => {
            match v {
                PayloadTree::Arr(cs) => {
                    let mut i: usize = 0;
                    proof {
                        assert(cs@.skip(0) =~= cs@);
                    }
                    while i < cs.len()
                        invariant
                            i <= cs.len(),
                            privileged_msgs(*root) == containers_priv_msgs(cs@),
                            col@ + containers_priv_msgs(cs@.skip(i as int)) == old(col)@
                                + privileged_msgs(*root),
                        decreases cs.len() - i,
                    {
                        let ghost c0 = col@;
                        check_container_priv(&cs[i], col);
                        proof {
                            assert(cs@.skip(i as int)[0] == cs@[i as int]);
                            assert(cs@.skip(i as int).drop_first() =~= cs@.skip(i as int + 1));
                            assert((c0 + priv_container_msgs(cs@[i as int]))
                                + containers_priv_msgs(cs@.skip(i as int + 1)) =~= c0 + (
                            priv_container_msgs(cs@[i as int]) + containers_priv_msgs(
                                cs@.skip(i as int + 1),
                            )));
                        }
                        i = i + 1;
                    }
                    proof {
                        assert(cs@.skip(cs.len() as int) =~= Seq::<PayloadTree>::empty());
                        assert(col@ + containers_priv_msgs(cs@.skip(cs.len() as int)) =~= col@);
                    }
                },
                _ => {
                    col.record(
                        String::from_str(
                            "privileged containers could not be checked: spec.containers is not a sequence",
                        ),
                    );
                    proof {
                        assert(old(col)@.push(priv_rule_shape_msg()) =~= old(col)@
                            + privileged_msgs(*root));
                    }
                },
            }
        },
    }
}

// ---------------------------------------------------------------------------
// Readiness rule.
// ---------------------------------------------------------------------------
/// A speaker entry is ready when its `canTalk` field resolves to a boolean.
pub open spec fn entry_ready(e: PayloadTree) -> bool {
    match resolve(e, seq!["canTalk"@]) {
        Resolution::Present(v) => v is Bool,
        _ => false,
    }
}

/// Every entry of the list is ready.
pub open spec fn all_entries_ready(es: Seq<PayloadTree>) -> bool {
    forall|i: int| 0 <= i < es.len() ==> entry_ready(es[i])
}

/// All messages the readiness rule records for one payload tree: one
/// aggregate message for the whole request when some entry of
/// `spec.speaker` is not ready, never one message per entry.
pub open spec fn readiness_msgs(root: PayloadTree) -> Seq<Seq<char>> {
    match resolve(root, seq!["spec"@, "speaker"@]) {
        Resolution::Absent => Seq::empty(),
        Resolution::Mismatch => seq![speaker_shape_msg()],
        Resolution::Present(v) => match v {
            PayloadTree::Arr(es) => if all_entries_ready(es@) {
                Seq::empty()
            } else {
                seq![not_ready_msg()]
            },
            _ => seq![speaker_shape_msg()],
        },
    }
}

/// Whether one speaker entry is ready.
fn entry_is_ready(e: &PayloadTree) -> (r: bool)
    ensures
        r == entry_ready(*e),
{
    let path = path1("canTalk");
    match lookup(e, &path) {
        Found::Present(v) => match v {
            PayloadTree::Bool(_) => true,
            _ => false,
        },
        _ => false,
    }
}

/// Readiness rule: when `spec.speaker` is a sequence, every entry must
/// carry a `canTalk` boolean; otherwise one aggregate violation is
/// recorded for the whole request. Appends exactly `readiness_msgs(*root)`.
pub fn readiness_rule(root: &PayloadTree, col: &mut Collector)
    ensures
        final(col)@ == old(col)@ + readiness_msgs(*root),
{
    let path = path2("spec", "speaker");
    match lookup(root, &path) {
        Found::Absent => {
            proof {
                assert(old(col)@ + readiness_msgs(*root) =~= old(col)@);
            }
        },
        Found::Mismatch => {
            col.record(String::from_str("spec.speaker is not a sequence"));
            proof {
                assert(old(col)@.push(speaker_shape_msg()) =~= old(col)@ + readiness_msgs(*root));
            }
        },
        Found::Present(v) => {
            match v {
                PayloadTree::Arr(es) => {
                    let mut all_ready = true;
                    let mut i: usize = 0;
                    while i < es.len()
                        invariant
                            i <= es.len(),
                            all_ready == all_entries_ready(es@.take(i as int)),
                        decreases es.len() - i,
                    {
                        let r = entry_is_ready(&es[i]);
                        proof {
                            assert(es@.take(i as int + 1) =~= es@.take(i as int).push(
                                es@[i as int],
                            ));
                            assert(all_entries_ready(es@.take(i as int).push(es@[i as int])) == (
                            all_entries_ready(es@.take(i as int)) && entry_ready(es@[i as int])))
                                by {
                                let t = es@.take(i as int);
                                let p = t.push(es@[i as int]);
                                assert(forall|j: int| 0 <= j < t.len() ==> p[j] == t[j]);
                                assert(p[t.len() as int] == es@[i as int]);
                            }
                        }
                        all_ready = all_ready && r;
                        i = i + 1;
                    }
                    proof {
                        assert(es@.take(es.len() as int) =~= es@);
                    }
                    if !all_ready {
                        col.record(String::from_str("not all speakers are ready"));
                        proof {
                            assert(old(col)@.push(not_ready_msg()) =~= old(col)@ + readiness_msgs(
                                *root,
                            ));
                        }
                    } else {
                        proof {
                            assert(old(col)@ + readiness_msgs(*root) =~= old(col)@);
                        }
                    }
                },
                _ => {
                    col.record(String::from_str("spec.speaker is not a sequence"));
                    proof {
                        assert(old(col)@.push(speaker_shape_msg()) =~= old(col)@ + readiness_msgs(
                            *root,
                        ));
                    }
                },
            }
        },
    }
}

// ---------------------------------------------------------------------------
// No rule records an empty message.
// ---------------------------------------------------------------------------
/// A single nonempty message makes a sequence of nonempty messages.
proof fn lemma_singleton_nonempty(m: Seq<char>)
    requires
        m.len() > 0,
    ensures
        all_nonempty(seq![m]),
{
    assert(seq![m][0] == m);
}

proof fn lemma_ports_name_nonempty(cname: Seq<char>, ps: Seq<PayloadTree>)
    ensures
        all_nonempty(ports_name_msgs(cname, ps)),
    decreases ps.len(),
{
    if ps.len() > 0 {
        match resolve(ps[0], seq!["name"@]) {
            Resolution::Absent => {},
            Resolution::Mismatch => {
                lemma_messages_nonempty(cname, Seq::empty(), 0);
                lemma_singleton_nonempty(port_entry_shape_msg(cname));
            },
            Resolution::Present(v) => match v {
                PayloadTree::Str(s) => {
                    if s@.len() >= 10 {
                        lemma_messages_nonempty(cname, s@, 0);
                        lemma_singleton_nonempty(long_port_name_msg(cname, s@));
                    }
                },
                _ => {
                    lemma_messages_nonempty(cname, Seq::empty(), 0);
                    lemma_singleton_nonempty(port_name_type_msg(cname));
                },
            },
        }
        lemma_ports_name_nonempty(cname, ps.drop_first());
        lemma_all_nonempty_concat(
            port_entry_name_msgs(cname, ps[0]),
            ports_name_msgs(cname, ps.drop_first()),
        );
    }
}

proof fn lemma_container_port_name_nonempty(c: PayloadTree)
    ensures
        all_nonempty(container_port_name_msgs(c)),
{
    match resolve(c, seq!["ports"@]) {
        Resolution::Absent => {},
        Resolution::Mismatch => {
            lemma_messages_nonempty(Seq::empty(), Seq::empty(), 0);
            lemma_singleton_nonempty(container_shape_msg());
        },
        Resolution::Present(v) => match v {
            PayloadTree::Arr(ps) => {
                lemma_ports_name_nonempty(container_name(c), ps@);
            },
            _ => {
                lemma_messages_nonempty(container_name(c), Seq::empty(), 0);
                lemma_singleton_nonempty(ports_shape_msg(container_name(c)));
            },
        },
    }
}

proof fn lemma_containers_port_name_nonempty(cs: Seq<PayloadTree>)
    ensures
        all_nonempty(containers_port_name_msgs(cs)),
    decreases cs.len(),
{
    if cs.len() > 0 {
        lemma_container_port_name_nonempty(cs[0]);
        lemma_containers_port_name_nonempty(cs.drop_first());
        lemma_all_nonempty_concat(
            container_port_name_msgs(cs[0]),
            containers_port_name_msgs(cs.drop_first()),
        );
    }
}

/// The port-name rule only records nonempty messages.
pub proof fn lemma_port_name_msgs_nonempty(root: PayloadTree)
    ensures
        all_nonempty(port_name_msgs(root)),
{
    match containers_of(root) {
        Containers::Missing => {},
        Containers::Malformed => {
            lemma_messages_nonempty(Seq::empty(), Seq::empty(), 0);
            lemma_singleton_nonempty(port_rule_shape_msg());
        },
        Containers::Listed(cs) => {
            lemma_containers_port_name_nonempty(cs);
        },
    }
}

proof fn lemma_dup_ports_nonempty(cname: Seq<char>, ps: Seq<PayloadTree>, seen: Seq<i64>)
    ensures
        all_nonempty(dup_ports_scan(cname, ps, seen).0),
    decreases ps.len(),
{
    if ps.len() > 0 {
        match resolve(ps[0], seq!["containerPort"@]) {
            Resolution::Absent => {},
            Resolution::Mismatch => {
                lemma_messages_nonempty(cname, Seq::empty(), 0);
                lemma_singleton_nonempty(port_entry_shape_msg(cname));
            },
            Resolution::Present(v) => match v {
                PayloadTree::Num(n) => {
                    if seen.contains(n) {
                        lemma_messages_nonempty(cname, Seq::empty(), n as int);
                        lemma_singleton_nonempty(dup_port_msg(cname, n as int));
                    }
                },
                _ => {
                    lemma_messages_nonempty(cname, Seq::empty(), 0);
                    lemma_singleton_nonempty(cport_type_msg(cname));
                },
            },
        }
        lemma_dup_ports_nonempty(cname, ps.drop_first(), dup_port_step(cname, ps[0], seen).1);
        lemma_all_nonempty_concat(
            dup_port_step(cname, ps[0], seen).0,
            dup_ports_scan(cname, ps.drop_first(), dup_port_step(cname, ps[0], seen).1).0,
        );
    }
}

proof fn lemma_dup_container_nonempty(c: PayloadTree, seen: Seq<i64>)
    ensures
        all_nonempty(dup_container_scan(c, seen).0),
{
    match resolve(c, seq!["ports"@]) {
        Resolution::Absent => {},
        Resolution::Mismatch => {
            lemma_messages_nonempty(Seq::empty(), Seq::empty(), 0);
            lemma_singleton_nonempty(container_shape_msg());
        },
        Resolution::Present(v) => match v {
            PayloadTree::Arr(ps) => {
                lemma_dup_ports_nonempty(container_name(c), ps@, seen);
            },
            _ => {
                lemma_messages_nonempty(container_name(c), Seq::empty(), 0);
                lemma_singleton_nonempty(ports_shape_msg(container_name(c)));
            },
        },
    }
}

proof fn lemma_dup_containers_nonempty(cs: Seq<PayloadTree>, seen: Seq<i64>)
    ensures
        all_nonempty(dup_containers_scan(cs, seen).0),
    decreases cs.len(),
{
    if cs.len() > 0 {
        lemma_dup_container_nonempty(cs[0], seen);
        lemma_dup_containers_nonempty(cs.drop_first(), dup_container_scan(cs[0], seen).1);
        lemma_all_nonempty_concat(
            dup_container_scan(cs[0], seen).0,
            dup_containers_scan(cs.drop_first(), dup_container_scan(cs[0], seen).1).0,
        );
    }
}

/// The duplicate-port rule only records nonempty messages.
pub proof fn lemma_dup_msgs_nonempty(root: PayloadTree)
    ensures
        all_nonempty(dup_msgs(root)),
{
    match containers_of(root) {
        Containers::Missing => {},
        Containers::Malformed => {
            lemma_messages_nonempty(Seq::empty(), Seq::empty(), 0);
            lemma_singleton_nonempty(dup_rule_shape_msg());
        },
        Containers::Listed(cs) => {
            lemma_dup_containers_nonempty(cs, Seq::empty());
        },
    }
}

proof fn lemma_containers_priv_nonempty(cs: Seq<PayloadTree>)
    ensures
        all_nonempty(containers_priv_msgs(cs)),
    decreases cs.len(),
{
    if cs.len() > 0 {
        lemma_messages_nonempty(container_name(cs[0]), Seq::empty(), 0);
        match resolve(cs[0], seq!["securityContext"@, "privileged"@]) {
            Resolution::Absent => {},
            Resolution::Mismatch => {
                lemma_singleton_nonempty(sc_shape_msg(container_name(cs[0])));
            },
            Resolution::Present(v) => match v {
                PayloadTree::Bool(b) => {
                    if b {
                        lemma_singleton_nonempty(priv_msg(container_name(cs[0])));
                    }
                },
                _ => {
                    lemma_singleton_nonempty(priv_type_msg(container_name(cs[0])));
                },
            },
        }
        lemma_containers_priv_nonempty(cs.drop_first());
        lemma_all_nonempty_concat(
            priv_container_msgs(cs[0]),
            containers_priv_msgs(cs.drop_first()),
        );
    }
}

/// The privileged rule only records nonempty messages.
pub proof fn lemma_privileged_msgs_nonempty(root: PayloadTree)
    ensures
        all_nonempty(privileged_msgs(root)),
{
    match containers_of(root) {
        Containers::Missing => {},
        Containers::Malformed => {
            lemma_messages_nonempty(Seq::empty(), Seq::empty(), 0);
            lemma_singleton_nonempty(priv_rule_shape_msg());
        },
        Containers::Listed(cs) => {
            lemma_containers_priv_nonempty(cs);
        },
    }
}

/// The readiness rule only records nonempty messages.
pub proof fn lemma_readiness_msgs_nonempty(root: PayloadTree)
    ensures
        all_nonempty(readiness_msgs(root)),
{
    lemma_messages_nonempty(Seq::empty(), Seq::empty(), 0);
    match resolve(root, seq!["spec"@, "speaker"@]) {
        Resolution::Absent => {},
        Resolution::Mismatch => {
            lemma_singleton_nonempty(speaker_shape_msg());
        },
        Resolution::Present(v) => match v {
            PayloadTree::Arr(es) => {
                if !all_entries_ready(es@) {
                    lemma_singleton_nonempty(not_ready_msg());
                }
            },
            _ => {
                lemma_singleton_nonempty(speaker_shape_msg());
            },
        },
    }
}

} // verus!
