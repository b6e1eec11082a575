//! The path accessor: fault-tolerant navigation of a payload tree by an
//! ordered sequence of field names. A missing field along the way is
//! "absent" (not an error); a descent into a value that is not a mapping
//! is a "structural mismatch", a distinct outcome that callers decide
//! how to report. Navigation never mutates the tree and never panics.

use vstd::prelude::*;

use crate::tree::PayloadTree;

verus! {

/// Outcome of resolving a field path, at the specification level.
pub enum Resolution {
    /// Every path segment was consumed; this is the resolved subtree.
    Present(PayloadTree),
    /// Some mapping along the path lacked the next field name.
    Absent,
    /// Some value along the path was not a mapping where a descent was due.
    Mismatch,
}

/// Outcome of resolving a field path against a borrowed tree.
pub enum Found<'a> {
    /// Every path segment was consumed; this is the resolved subtree.
    Present(&'a PayloadTree),
    /// Some mapping along the path lacked the next field name.
    Absent,
    /// Some value along the path was not a mapping where a descent was due.
    Mismatch,
}

/// The value bound to `key` by the first entry of `entries` that carries it.
pub open spec fn obj_find(entries: Seq<(String, PayloadTree)>, key: Seq<char>) -> Option<
    PayloadTree,
>
    decreases entries.len(),
{
    if entries.len() == 0 {
        None
    } else if entries[0].0@ == key {
        Some(entries[0].1)
    } else {
        obj_find(entries.drop_first(), key)
    }
}

/// Appending an entry does not shadow an earlier binding of `key`; it
/// binds `key` only where no earlier entry did.
pub proof fn lemma_obj_find_push(
    entries: Seq<(String, PayloadTree)>,
    kv: (String, PayloadTree),
    key: Seq<char>,
)
    ensures
        obj_find(entries.push(kv), key) == (if obj_find(entries, key) is Some {
            obj_find(entries, key)
        } else if kv.0@ == key {
            Some(kv.1)
        } else {
            None::<PayloadTree>
        }),
    decreases entries.len(),
{
    if entries.len() == 0 {
        assert(entries.push(kv)[0] == kv);
        assert(entries.push(kv).drop_first() =~= Seq::<(String, PayloadTree)>::empty());
        assert(obj_find(Seq::<(String, PayloadTree)>::empty(), key) is None);
        assert(obj_find(entries, key) is None);
    } else {
        assert(entries.push(kv)[0] == entries[0]);
        assert(entries.push(kv).drop_first() =~= entries.drop_first().push(kv));
        lemma_obj_find_push(entries.drop_first(), kv, key);
    }
}

/// What walking `path` from `root`, one field name at a time, resolves to.
pub open spec fn resolve(root: PayloadTree, path: Seq<Seq<char>>) -> Resolution
    decreases path.len(),
{
    if path.len() == 0 {
        Resolution::Present(root)
    } else {
        match root {
            PayloadTree::Obj(entries) => match obj_find(entries@, path[0]) {
                Some(child) => resolve(child, path.drop_first()),
                None => Resolution::Absent,
            },
            _ => Resolution::Mismatch,
        }
    }
}

/// A one-segment path resolves by a single mapping lookup.
pub proof fn lemma_resolve_one(t: PayloadTree, key: Seq<char>)
    ensures
        resolve(t, seq![key]) == (match t {
            PayloadTree::Obj(entries) => match obj_find(entries@, key) {
                Some(child) => Resolution::Present(child),
                None => Resolution::Absent,
            },
            _ => Resolution::Mismatch,
        }),
{
    assert(seq![key].len() == 1);
    assert(seq![key][0] == key);
    assert(seq![key].drop_first() =~= Seq::<Seq<char>>::empty());
    match t {
        PayloadTree::Obj(entries) => {
            match obj_find(entries@, key) {
                Some(child) => {
                    assert(resolve(child, Seq::<Seq<char>>::empty()) == Resolution::Present(
                        child,
                    ));
                },
                None => {},
            }
        },
        _ => {},
    }
}

/// A two-segment path resolves by a mapping lookup followed by a
/// one-segment resolution in the child.
pub proof fn lemma_resolve_two(t: PayloadTree, k1: Seq<char>, k2: Seq<char>)
    ensures
        resolve(t, seq![k1, k2]) == (match t {
            PayloadTree::Obj(entries) => match obj_find(entries@, k1) {
                Some(child) => resolve(child, seq![k2]),
                None => Resolution::Absent,
            },
            _ => Resolution::Mismatch,
        }),
{
    assert(seq![k1, k2].len() == 2);
    assert(seq![k1, k2][0] == k1);
    assert(seq![k1, k2].drop_first() =~= seq![k2]);
}

/// The field names of a dot-separated path, in order: splitting at every
/// `'.'`, keeping empty segments, so that an empty path has one empty
/// segment.
pub open spec fn split_dotted(s: Seq<char>) -> Seq<Seq<char>>
    decreases s.len(),
{
    if s.len() == 0 {
        seq![Seq::<char>::empty()]
    } else if s.last() == '.' {
        split_dotted(s.drop_last()) + seq![Seq::<char>::empty()]
    } else {
        split_dotted(s.drop_last()).drop_last().push(
            split_dotted(s.drop_last()).last().push(s.last()),
        )
    }
}

/// Splits a dotted path into its ordered field names.
pub fn split_path(path: &str) -> (r: Vec<String>)
    ensures
        r.deep_view() == split_dotted(path@),
{
    let n = path.unicode_len();
    let mut segs: Vec<String> = Vec::new();
    let mut start: usize = 0;
    let mut i: usize = 0;
    proof {
        assert(path@.take(0) =~= Seq::<char>::empty());
        assert(path@.subrange(0, 0) =~= Seq::<char>::empty());
        assert(segs.deep_view().push(path@.subrange(0, 0)) =~= split_dotted(path@.take(0)));
    }
    while i < n
        invariant
            start <= i <= n,
            n == path@.len(),
            segs.deep_view().push(path@.subrange(start as int, i as int)) == split_dotted(
                path@.take(i as int),
            ),
        decreases n - i,
    {
        let c = path.get_char(i);
        proof {
            assert(path@.take(i as int + 1).drop_last() =~= path@.take(i as int));
            assert(path@.take(i as int + 1).last() == path@[i as int]);
        }
        if c == '.' {
            let ghost segs0 = segs.deep_view();
            let seg = path.substring_char(start, i);
            segs.push(String::from_str(seg));
            proof {
                assert(segs.deep_view() =~= segs0.push(path@.subrange(start as int, i as int)));
                assert(segs.deep_view() == split_dotted(path@.take(i as int)));
                assert(path@.subrange(i as int + 1, i as int + 1) =~= Seq::<char>::empty());
                assert(segs.deep_view().push(path@.subrange(i as int + 1, i as int + 1))
                    =~= split_dotted(path@.take(i as int)) + seq![Seq::<char>::empty()]);
            }
            start = i + 1;
        } else {
            proof {
                let r0 = split_dotted(path@.take(i as int));
                assert(r0.drop_last() =~= segs.deep_view());
                assert(r0.last() == path@.subrange(start as int, i as int));
                assert(path@.subrange(start as int, i as int + 1) =~= path@.subrange(
                    start as int,
                    i as int,
                ).push(path@[i as int]));
            }
        }
        i = i + 1;
    }
    let ghost segs0 = segs.deep_view();
    let seg = path.substring_char(start, n);
    segs.push(String::from_str(seg));
    proof {
        assert(segs.deep_view() =~= segs0.push(path@.subrange(start as int, n as int)));
        assert(path@.take(n as int) =~= path@);
    }
    segs
}

/// Walks a dot-separated path from `root`, splitting it into field names
/// first.
pub fn lookup_dotted<'a>(root: &'a PayloadTree, path: &str) -> (r: Found<'a>)
    ensures
        match r {
            Found::Present(v) => resolve(*root, split_dotted(path@)) == Resolution::Present(*v),
            Found::Absent => resolve(*root, split_dotted(path@)) == Resolution::Absent,
            Found::Mismatch => resolve(*root, split_dotted(path@)) == Resolution::Mismatch,
        },
{
    let segs = split_path(path);
    lookup(root, &segs)
}

/// Descends by one field name into a mapping's entry list.
pub fn obj_get<'a>(entries: &'a Vec<(String, PayloadTree)>, key: &String) -> (r: Option<
    &'a PayloadTree,
>)
    ensures
        match r {
            Some(v) => obj_find(entries@, key@) == Some(*v),
            None => obj_find(entries@, key@) is None,
        },
{
    let mut i: usize = 0;
    proof {
        assert(entries@.skip(0) =~= entries@);
    }
    while i < entries.len()
        invariant
            i <= entries.len(),
            obj_find(entries@, key@) == obj_find(entries@.skip(i as int), key@),
        decreases entries.len() - i,
    {
        proof {
            assert(entries@.skip(i as int)[0] == entries@[i as int]);
        }
        if entries[i].0 == *key {
            return Some(&entries[i].1);
        }
        proof {
            assert(entries@.skip(i as int).drop_first() =~= entries@.skip(i as int + 1));
        }
        i = i + 1;
    }
    None
}

/// Walks `path` one field name at a time from `root`. Side-effect-free:
/// the tree is only read.
pub fn lookup<'a>(root: &'a PayloadTree, path: &Vec<String>) -> (r: Found<'a>)
    ensures
        match r {
            Found::Present(v) => resolve(*root, path.deep_view()) == Resolution::Present(*v),
            Found::Absent => resolve(*root, path.deep_view()) == Resolution::Absent,
            Found::Mismatch => resolve(*root, path.deep_view()) == Resolution::Mismatch,
        },
{
    let mut cur: &PayloadTree = root;
    let mut i: usize = 0;
    proof {
        assert(path.deep_view().skip(0) =~= path.deep_view());
    }
    while i < path.len()
        invariant
            i <= path.len(),
            resolve(*root, path.deep_view()) == resolve(*cur, path.deep_view().skip(i as int)),
        decreases path.len() - i,
    {
        proof {
            assert(path.deep_view().skip(i as int)[0] == path@[i as int]@);
            assert(path.deep_view().skip(i as int).drop_first() =~= path.deep_view().skip(
                i as int + 1,
            ));
        }
        match cur {
            PayloadTree::Obj(entries) => {
                match obj_get(entries, &path[i]) {
                    Some(child) => {
                        cur = child;
                    },
                    None => {
                        return Found::Absent;
                    },
                }
            },
            _ => {
                return Found::Mismatch;
            },
        }
        i = i + 1;
    }
    proof {
        assert(path.deep_view().skip(i as int) =~= Seq::<Seq<char>>::empty());
    }
    Found::Present(cur)
}

} // verus!
