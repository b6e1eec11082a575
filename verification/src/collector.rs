//! The violation collector: an append-only, request-scoped accumulator of
//! human-readable violation messages, recorded in the order the rules
//! produce them and rendered as one newline-joined message.

use vstd::prelude::*;

verus! {

/// The newline-joined rendering of a sequence of messages: empty for no
/// messages, otherwise the messages in order with one `'\n'` between
/// each adjacent pair.
pub open spec fn joined(msgs: Seq<Seq<char>>) -> Seq<char>
    decreases msgs.len(),
{
    if msgs.len() == 0 {
        Seq::empty()
    } else if msgs.len() == 1 {
        msgs[0]
    } else {
        msgs[0] + seq!['\n'] + joined(msgs.drop_first())
    }
}

/// Appending one message to a join extends it by a separator (when the
/// join was nonempty) and the message.
pub proof fn lemma_joined_push(msgs: Seq<Seq<char>>, m: Seq<char>)
    ensures
        joined(msgs.push(m)) == if msgs.len() == 0 {
            m
        } else {
            joined(msgs) + seq!['\n'] + m
        },
    decreases msgs.len(),
{
    if msgs.len() == 0 {
        assert(msgs.push(m)[0] == m);
        assert(joined(msgs.push(m)) == m);
    } else {
        lemma_joined_push(msgs.drop_first(), m);
        assert(msgs.push(m).drop_first() =~= msgs.drop_first().push(m));
        assert(msgs.push(m)[0] == msgs[0]);
        if msgs.len() == 1 {
            assert(joined(msgs.push(m)) == msgs[0] + seq!['\n'] + m);
        } else {
            assert(joined(msgs.push(m)) == msgs[0] + seq!['\n'] + (joined(msgs.drop_first())
                + seq!['\n'] + m));
            assert(msgs[0] + seq!['\n'] + (joined(msgs.drop_first()) + seq!['\n'] + m) =~= (msgs[0]
                + seq!['\n'] + joined(msgs.drop_first())) + seq!['\n'] + m);
        }
    }
}

/// Every message of the sequence is a nonempty sentence.
pub open spec fn all_nonempty(msgs: Seq<Seq<char>>) -> bool {
    forall|i: int| 0 <= i < msgs.len() ==> msgs[i].len() > 0
}

/// Nonempty messages concatenate to nonempty messages.
pub proof fn lemma_all_nonempty_concat(a: Seq<Seq<char>>, b: Seq<Seq<char>>)
    requires
        all_nonempty(a),
        all_nonempty(b),
    ensures
        all_nonempty(a + b),
{
    assert forall|i: int| 0 <= i < (a + b).len() implies (a + b)[i].len() > 0 by {
        if i < a.len() {
            assert((a + b)[i] == a[i]);
        } else {
            assert((a + b)[i] == b[i - a.len()]);
        }
    }
}

/// The join of at least one nonempty message is itself nonempty.
pub proof fn lemma_joined_nonempty(msgs: Seq<Seq<char>>)
    requires
        msgs.len() > 0,
        all_nonempty(msgs),
    ensures
        joined(msgs).len() > 0,
{
    assert(msgs[0].len() > 0);
}

/// Append-only accumulator of violation messages for one request.
/// Its view is the sequence of recorded messages, oldest first.
pub struct Collector {
    entries: Vec<String>,
}

impl View for Collector {
    type V = Seq<Seq<char>>;

    closed spec fn view(&self) -> Seq<Seq<char>> {
        self.entries.deep_view()
    }
}

impl Collector {
    /// A collector with nothing recorded.
    pub fn new() -> (c: Collector)
        ensures
            c@ == Seq::<Seq<char>>::empty(),
    {
        let c = Collector { entries: Vec::new() };
        proof {
            assert(c@ =~= Seq::<Seq<char>>::empty());
        }
        c
    }

    /// Records one violation message after all earlier ones.
    pub fn record(&mut self, msg: String)
        ensures
            final(self)@ == old(self)@.push(msg@),
    {
        self.entries.push(msg);
        proof {
            assert(self@ =~= old(self)@.push(msg@));
        }
    }

    /// True iff no violation has been recorded.
    pub fn is_clean(&self) -> (r: bool)
        ensures
            r == (self@.len() == 0),
    {
        self.entries.len() == 0
    }

    /// Joins the recorded messages into one message, oldest first, with
    /// one `'\n'` between each adjacent pair; empty when clean.
    pub fn render(&self) -> (r: String)
        ensures
            r@ == joined(self@),
    {
        let mut out = String::new();
        let mut i: usize = 0;
        proof {
            assert(self@.take(0) =~= Seq::<Seq<char>>::empty());
        }
        while i < self.entries.len()
            invariant
                i <= self.entries.len(),
                out@ == joined(self@.take(i as int)),
            decreases self.entries.len() - i,
        {
            if i > 0 {
                out.append("\n");
                proof {
                    reveal_strlit("\n");
                    assert("\n"@ =~= seq!['\n']);
                }
            }
            out.append(self.entries[i].as_str());
            proof {
                lemma_joined_push(self@.take(i as int), self@[i as int]);
                assert(self@.take(i as int).push(self@[i as int]) =~= self@.take(i as int + 1));
            }
            i = i + 1;
        }
        proof {
            assert(self@.take(self.entries.len() as int) =~= self@);
        }
        out
    }
}

} // verus!
