//! A typed description of the Pod fields the rules recognize, with
//! conversions into the dynamic payload tree. The engine itself works on
//! the tree alone; these types give callers and tests a structured way to
//! build one, with the conversion's shape pinned down by `resolve`.

use vstd::prelude::*;

use crate::lookup::{
    lemma_obj_find_push, lemma_resolve_one, lemma_resolve_two, resolve, Resolution,
};
use crate::tree::PayloadTree;

verus! {

/// One entry of a container's `ports` list.
#[allow(non_snake_case)]
pub struct PortEntry {
    pub name: Option<String>,
    pub containerPort: Option<u16>,
    pub hostPort: Option<u16>,
    pub hostIP: Option<String>,
    pub protocol: Option<String>,
}

/// A container's security context.
pub struct SecContext {
    pub privileged: Option<bool>,
}

/// One entry of a Pod's `spec.containers` list.
#[allow(non_snake_case)]
pub struct ContainerType {
    pub name: String,
    pub image: String,
    pub ports: Vec<PortEntry>,
    pub securityContext: Option<SecContext>,
}

/// The Pod spec under review: its container list.
pub struct TestSpec {
    pub containers: Vec<ContainerType>,
}

/// How a port entry's tree resolves: each field present exactly when the
/// entry carries it, with the entry's value.
pub open spec fn port_tree_rel(p: PortEntry, t: PayloadTree) -> bool {
    &&& match p.name {
        Some(n) => resolve(t, seq!["name"@]) == Resolution::Present(PayloadTree::Str(n)),
        None => resolve(t, seq!["name"@]) is Absent,
    }
    &&& match p.containerPort {
        Some(x) => resolve(t, seq!["containerPort"@]) == Resolution::Present(
            PayloadTree::Num(x as i64),
        ),
        None => resolve(t, seq!["containerPort"@]) is Absent,
    }
    &&& match p.hostPort {
        Some(x) => resolve(t, seq!["hostPort"@]) == Resolution::Present(
            PayloadTree::Num(x as i64),
        ),
        None => resolve(t, seq!["hostPort"@]) is Absent,
    }
    &&& match p.hostIP {
        Some(s) => resolve(t, seq!["hostIP"@]) == Resolution::Present(PayloadTree::Str(s)),
        None => resolve(t, seq!["hostIP"@]) is Absent,
    }
    &&& match p.protocol {
        Some(s) => resolve(t, seq!["protocol"@]) == Resolution::Present(PayloadTree::Str(s)),
        None => resolve(t, seq!["protocol"@]) is Absent,
    }
}

/// How a container's tree resolves: `name` and `image` with the
/// container's values, `ports` as a sequence matching the container's
/// port entries one for one, and `securityContext.privileged` present
/// exactly when the container sets it.
pub open spec fn container_tree_rel(c: ContainerType, t: PayloadTree) -> bool {
    &&& resolve(t, seq!["name"@]) == Resolution::Present(PayloadTree::Str(c.name))
    &&& resolve(t, seq!["image"@]) == Resolution::Present(PayloadTree::Str(c.image))
    &&& match resolve(t, seq!["ports"@]) {
        Resolution::Present(pv) => match pv {
            PayloadTree::Arr(ps) => ps@.len() == c.ports@.len() && (forall|i: int|
                0 <= i < ps@.len() ==> port_tree_rel(c.ports@[i], #[trigger] ps@[i])),
            _ => false,
        },
        _ => false,
    }
    &&& match c.securityContext {
        Some(sc) => match sc.privileged {
            Some(b) => resolve(t, seq!["securityContext"@, "privileged"@])
                == Resolution::Present(PayloadTree::Bool(b)),
            None => resolve(t, seq!["securityContext"@, "privileged"@]) is Absent,
        },
        None => resolve(t, seq!["securityContext"@, "privileged"@]) is Absent,
    }
}

/// How the Pod spec's tree resolves: `spec.containers` is a sequence
/// matching the container list one for one, and `spec.speaker` is absent.
pub open spec fn spec_tree_rel(s: TestSpec, t: PayloadTree) -> bool {
    &&& match resolve(t, seq!["spec"@, "containers"@]) {
        Resolution::Present(cv) => match cv {
            PayloadTree::Arr(cs) => cs@.len() == s.containers@.len() && (forall|i: int|
                0 <= i < cs@.len() ==> container_tree_rel(s.containers@[i], #[trigger] cs@[i])),
            _ => false,
        },
        _ => false,
    }
    &&& resolve(t, seq!["spec"@, "speaker"@]) is Absent
}

impl PortEntry {
    /// The payload subtree for this port entry.
    pub fn to_tree(&self) -> (r: PayloadTree)
        ensures
            port_tree_rel(*self, r),
    {
        let mut entries: Vec<(String, PayloadTree)> = Vec::new();
        proof {
            reveal_strlit("name");
            reveal_strlit("containerPort");
            reveal_strlit("hostPort");
            reveal_strlit("hostIP");
            reveal_strlit("protocol");
            assert(entries@ =~= Seq::<(String, PayloadTree)>::empty());
            assert("name"@.len() == 4);
            assert("containerPort"@.len() == 13);
            assert("hostPort"@.len() == 8);
            assert("hostIP"@.len() == 6);
            assert("protocol"@.len() == 8);
            assert("name"@ != "containerPort"@);
            assert("name"@ != "hostPort"@);
            assert("name"@ != "hostIP"@);
            assert("name"@ != "protocol"@);
            assert("containerPort"@ != "hostPort"@);
            assert("containerPort"@ != "hostIP"@);
            assert("containerPort"@ != "protocol"@);
            assert("hostPort"@ != "hostIP"@);
            assert("hostPort"@ != "protocol"@) by {
                assert("hostPort"@[0] == 'h');
                assert("protocol"@[0] == 'p');
            }
            assert("hostIP"@ != "protocol"@);
        }
        match &self.name {
            Some(n) => {
                let pair = (String::from_str("name"), PayloadTree::Str(n.clone()));
                let ghost kv = pair;
                let ghost e0 = entries@;
                entries.push(pair);
                proof {
                    lemma_obj_find_push(e0, kv, "name"@);
                    lemma_obj_find_push(e0, kv, "containerPort"@);
                    lemma_obj_find_push(e0, kv, "hostPort"@);
                    lemma_obj_find_push(e0, kv, "hostIP"@);
                    lemma_obj_find_push(e0, kv, "protocol"@);
                }
            },
            None => {},
        }
        match &self.containerPort {
            Some(x) => {
                let pair = (String::from_str("containerPort"), PayloadTree::Num(*x as i64));
                let ghost kv = pair;
                let ghost e0 = entries@;
                entries.push(pair);
                proof {
                    lemma_obj_find_push(e0, kv, "name"@);
                    lemma_obj_find_push(e0, kv, "containerPort"@);
                    lemma_obj_find_push(e0, kv, "hostPort"@);
                    lemma_obj_find_push(e0, kv, "hostIP"@);
                    lemma_obj_find_push(e0, kv, "protocol"@);
                }
            },
            None => {},
        }
        match &self.hostPort {
            Some(x) => {
                let pair = (String::from_str("hostPort"), PayloadTree::Num(*x as i64));
                let ghost kv = pair;
                let ghost e0 = entries@;
                entries.push(pair);
                proof {
                    lemma_obj_find_push(e0, kv, "name"@);
                    lemma_obj_find_push(e0, kv, "containerPort"@);
                    lemma_obj_find_push(e0, kv, "hostPort"@);
                    lemma_obj_find_push(e0, kv, "hostIP"@);
                    lemma_obj_find_push(e0, kv, "protocol"@);
                }
            },
            None => {},
        }
        match &self.hostIP {
            Some(s) => {
                let pair = (String::from_str("hostIP"), PayloadTree::Str(s.clone()));
                let ghost kv = pair;
                let ghost e0 = entries@;
                entries.push(pair);
                proof {
                    lemma_obj_find_push(e0, kv, "name"@);
                    lemma_obj_find_push(e0, kv, "containerPort"@);
                    lemma_obj_find_push(e0, kv, "hostPort"@);
                    lemma_obj_find_push(e0, kv, "hostIP"@);
                    lemma_obj_find_push(e0, kv, "protocol"@);
                }
            },
            None => {},
        }
        match &self.protocol {
            Some(s) => {
                let pair = (String::from_str("protocol"), PayloadTree::Str(s.clone()));
                let ghost kv = pair;
                let ghost e0 = entries@;
                entries.push(pair);
                proof {
                    lemma_obj_find_push(e0, kv, "name"@);
                    lemma_obj_find_push(e0, kv, "containerPort"@);
                    lemma_obj_find_push(e0, kv, "hostPort"@);
                    lemma_obj_find_push(e0, kv, "hostIP"@);
                    lemma_obj_find_push(e0, kv, "protocol"@);
                }
            },
            None => {},
        }
        let ghost efinal = entries@;
        let r = PayloadTree::Obj(entries);
        proof {
            assert(r->Obj_0@ == efinal);
            lemma_resolve_one(r, "name"@);
            lemma_resolve_one(r, "containerPort"@);
            lemma_resolve_one(r, "hostPort"@);
            lemma_resolve_one(r, "hostIP"@);
            lemma_resolve_one(r, "protocol"@);
            assert(match self.name {
                Some(n) => resolve(r, seq!["name"@]) == Resolution::Present(PayloadTree::Str(n)),
                None => resolve(r, seq!["name"@]) is Absent,
            });
            assert(match self.containerPort {
                Some(x) => resolve(r, seq!["containerPort"@]) == Resolution::Present(
                    PayloadTree::Num(x as i64),
                ),
                None => resolve(r, seq!["containerPort"@]) is Absent,
            });
            assert(match self.hostPort {
                Some(x) => resolve(r, seq!["hostPort"@]) == Resolution::Present(
                    PayloadTree::Num(x as i64),
                ),
                None => resolve(r, seq!["hostPort"@]) is Absent,
            });
            assert(match self.hostIP {
                Some(s) => resolve(r, seq!["hostIP"@]) == Resolution::Present(
                    PayloadTree::Str(s),
                ),
                None => resolve(r, seq!["hostIP"@]) is Absent,
            });
            assert(match self.protocol {
                Some(s) => resolve(r, seq!["protocol"@]) == Resolution::Present(
                    PayloadTree::Str(s),
                ),
                None => resolve(r, seq!["protocol"@]) is Absent,
            });
            assert(port_tree_rel(*self, r));
        }
        r
    }
}

impl ContainerType {
    /// The payload subtree for this container.
    pub fn to_tree(&self) -> (r: PayloadTree)
        ensures
            container_tree_rel(*self, r),
    {
        let mut pts: Vec<PayloadTree> = Vec::new();
        let mut i: usize = 0;
        while i < self.ports.len()
            invariant
                i <= self.ports.len(),
                pts@.len() == i,
                forall|j: int| 0 <= j < i ==> port_tree_rel(self.ports@[j], #[trigger] pts@[j]),
            decreases self.ports.len() - i,
        {
            let t = self.ports[i].to_tree();
            pts.push(t);
            i = i + 1;
        }
        let ghost gpts = pts@;
        let mut entries: Vec<(String, PayloadTree)> = Vec::new();
        proof {
            reveal_strlit("name");
            reveal_strlit("image");
            reveal_strlit("ports");
            reveal_strlit("securityContext");
            reveal_strlit("privileged");
            assert(entries@ =~= Seq::<(String, PayloadTree)>::empty());
            assert("name"@.len() == 4);
            assert("image"@.len() == 5);
            assert("ports"@.len() == 5);
            assert("securityContext"@.len() == 15);
            assert("privileged"@.len() == 10);
            assert("image"@ != "ports"@) by {
                assert("image"@[0] == 'i');
                assert("ports"@[0] == 'p');
            }
        }
        let pair = (String::from_str("name"), PayloadTree::Str(self.name.clone()));
        let ghost kv1 = pair;
        let ghost e0 = entries@;
        entries.push(pair);
        proof {
            lemma_obj_find_push(e0, kv1, "name"@);
            lemma_obj_find_push(e0, kv1, "image"@);
            lemma_obj_find_push(e0, kv1, "ports"@);
            lemma_obj_find_push(e0, kv1, "securityContext"@);
        }
        let pair = (String::from_str("image"), PayloadTree::Str(self.image.clone()));
        let ghost kv2 = pair;
        let ghost e1 = entries@;
        entries.push(pair);
        proof {
            lemma_obj_find_push(e1, kv2, "name"@);
            lemma_obj_find_push(e1, kv2, "image"@);
            lemma_obj_find_push(e1, kv2, "ports"@);
            lemma_obj_find_push(e1, kv2, "securityContext"@);
        }
        let pair = (String::from_str("ports"), PayloadTree::Arr(pts));
        let ghost kv3 = pair;
        let ghost e2 = entries@;
        entries.push(pair);
        proof {
            lemma_obj_find_push(e2, kv3, "name"@);
            lemma_obj_find_push(e2, kv3, "image"@);
            lemma_obj_find_push(e2, kv3, "ports"@);
            lemma_obj_find_push(e2, kv3, "securityContext"@);
            assert(kv3.1 == PayloadTree::Arr(pts));
        }
        match &self.securityContext {
            Some(sc) => {
                let mut sce: Vec<(String, PayloadTree)> = Vec::new();
                proof {
                    assert(sce@ =~= Seq::<(String, PayloadTree)>::empty());
                }
                match &sc.privileged {
                    Some(b) => {
                        let spair = (String::from_str("privileged"), PayloadTree::Bool(*b));
                        let ghost skv = spair;
                        let ghost se0 = sce@;
                        sce.push(spair);
                        proof {
                            lemma_obj_find_push(se0, skv, "privileged"@);
                            assert(sc.privileged == Some(*b));
                        }
                    },
                    None => {},
                }
                let sct = PayloadTree::Obj(sce);
                proof {
                    lemma_resolve_one(sct, "privileged"@);
                    assert(match sc.privileged {
                        Some(b) => resolve(sct, seq!["privileged"@]) == Resolution::Present(
                            PayloadTree::Bool(b),
                        ),
                        None => resolve(sct, seq!["privileged"@]) is Absent,
                    });
                }
                let pair = (String::from_str("securityContext"), sct);
                let ghost kv4 = pair;
                let ghost e3 = entries@;
                entries.push(pair);
                proof {
                    lemma_obj_find_push(e3, kv4, "name"@);
                    lemma_obj_find_push(e3, kv4, "image"@);
                    lemma_obj_find_push(e3, kv4, "ports"@);
                    lemma_obj_find_push(e3, kv4, "securityContext"@);
                    assert(self.securityContext == Some(*sc));
                }
            },
            None => {},
        }
        let ghost efinal = entries@;
        let r = PayloadTree::Obj(entries);
        proof {
            assert(r->Obj_0@ == efinal);
            lemma_resolve_one(r, "name"@);
            lemma_resolve_one(r, "image"@);
            lemma_resolve_one(r, "ports"@);
            lemma_resolve_two(r, "securityContext"@, "privileged"@);
            assert(resolve(r, seq!["name"@]) == Resolution::Present(
                PayloadTree::Str(self.name),
            ));
            assert(resolve(r, seq!["image"@]) == Resolution::Present(
                PayloadTree::Str(self.image),
            ));
            assert(resolve(r, seq!["ports"@]) == Resolution::Present(PayloadTree::Arr(pts)));
            assert(gpts.len() == self.ports@.len());
            assert(container_tree_rel(*self, r));
        }
        r
    }
}

impl TestSpec {
    /// The whole payload tree for this Pod spec.
    pub fn to_tree(&self) -> (r: PayloadTree)
        ensures
            spec_tree_rel(*self, r),
    {
        let mut cts: Vec<PayloadTree> = Vec::new();
        let mut i: usize = 0;
        while i < self.containers.len()
            invariant
                i <= self.containers.len(),
                cts@.len() == i,
                forall|j: int|
                    0 <= j < i ==> container_tree_rel(self.containers@[j], #[trigger] cts@[j]),
            decreases self.containers.len() - i,
        {
            let t = self.containers[i].to_tree();
            cts.push(t);
            i = i + 1;
        }
        let ghost gcts = cts@;
        proof {
            reveal_strlit("spec");
            reveal_strlit("containers");
            reveal_strlit("speaker");
            assert("spec"@.len() == 4);
            assert("containers"@.len() == 10);
            assert("speaker"@.len() == 7);
        }
        let mut inner: Vec<(String, PayloadTree)> = Vec::new();
        proof {
            assert(inner@ =~= Seq::<(String, PayloadTree)>::empty());
        }
        let ipair = (String::from_str("containers"), PayloadTree::Arr(cts));
        let ghost ikv = ipair;
        let ghost ie0 = inner@;
        inner.push(ipair);
        proof {
            lemma_obj_find_push(ie0, ikv, "containers"@);
            lemma_obj_find_push(ie0, ikv, "speaker"@);
        }
        let sct = PayloadTree::Obj(inner);
        let ghost gsct = sct;
        proof {
            lemma_resolve_one(sct, "containers"@);
            lemma_resolve_one(sct, "speaker"@);
            assert(resolve(sct, seq!["containers"@]) == Resolution::Present(
                PayloadTree::Arr(cts),
            ));
            assert(resolve(sct, seq!["speaker"@]) is Absent);
        }
        let mut outer: Vec<(String, PayloadTree)> = Vec::new();
        proof {
            assert(outer@ =~= Seq::<(String, PayloadTree)>::empty());
        }
        let opair = (String::from_str("spec"), sct);
        let ghost okv = opair;
        let ghost oe0 = outer@;
        outer.push(opair);
        proof {
            lemma_obj_find_push(oe0, okv, "spec"@);
        }
        let ghost ofinal = outer@;
        let r = PayloadTree::Obj(outer);
        proof {
            assert(r->Obj_0@ == ofinal);
            lemma_resolve_two(r, "spec"@, "containers"@);
            lemma_resolve_two(r, "spec"@, "speaker"@);
            assert(resolve(r, seq!["spec"@, "containers"@]) == Resolution::Present(
                PayloadTree::Arr(cts),
            ));
            assert(resolve(r, seq!["spec"@, "speaker"@]) is Absent);
            assert(gcts.len() == self.containers@.len());
            assert(spec_tree_rel(*self, r));
        }
        r
    }
}

} // verus!
