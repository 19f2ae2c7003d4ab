//! Splitting a byte stream into terminated lines.
//!
//! Each output stream of a deploy script is consumed as a sequence of byte
//! chunks whose boundaries carry no meaning. A [`LineSplitter`] reassembles
//! the stream and hands out every line the moment its terminator arrives,
//! keeping the unterminated tail buffered. The splitter's contract pins the
//! result down completely: the lines it has produced, joined back with their
//! terminators and followed by the buffered tail, are exactly the bytes fed
//! so far — so no byte is lost, duplicated or reordered.

use vstd::prelude::*;

verus! {

/// The byte that closes a line in both output streams.
pub const LINE_END: u8 = 10;

/// A line proper: a byte sequence with no terminator inside it.
pub open spec fn is_line(l: Seq<u8>) -> bool {
    !l.contains(LINE_END)
}

/// Every element of `ls` is a line proper.
pub open spec fn all_lines(ls: Seq<Seq<u8>>) -> bool {
    forall|i: int| 0 <= i < ls.len() ==> is_line(#[trigger] ls[i])
}

/// The byte stream that carries exactly the given lines, each closed by the
/// terminator.
pub open spec fn join_lines(ls: Seq<Seq<u8>>) -> Seq<u8>
    decreases ls.len(),
{
    if ls.len() == 0 {
        Seq::empty()
    } else {
        ls[0] + seq![LINE_END] + join_lines(ls.drop_first())
    }
}

/// Appending one more line to a join extends the joined stream by that line
/// and its terminator.
pub proof fn lemma_join_lines_push(ls: Seq<Seq<u8>>, l: Seq<u8>)
    ensures
        join_lines(ls.push(l)) == join_lines(ls) + l + seq![LINE_END],
    decreases ls.len(),
{
    let x = ls.push(l);
    if ls.len() == 0 {
        assert(x[0] == l);
        assert(x.drop_first() =~~= Seq::<Seq<u8>>::empty());
        assert(join_lines(x.drop_first()) == Seq::<u8>::empty());
        assert(join_lines(x) == l + seq![LINE_END] + join_lines(x.drop_first()));
        assert(join_lines(ls) == Seq::<u8>::empty());
        assert(join_lines(x) =~= join_lines(ls) + l + seq![LINE_END]);
    } else {
        assert(x[0] == ls[0]);
        assert(x.drop_first() =~~= ls.drop_first().push(l));
        lemma_join_lines_push(ls.drop_first(), l);
        assert(join_lines(x) == x[0] + seq![LINE_END] + join_lines(x.drop_first()));
        assert(join_lines(ls) == ls[0] + seq![LINE_END] + join_lines(ls.drop_first()));
        assert(join_lines(x.drop_first()) == join_lines(ls.drop_first()) + l + seq![
            LINE_END,
        ]);
        assert(join_lines(x) =~= join_lines(ls) + l + seq![LINE_END]);
    }
}

/// A stream decomposes into terminated lines and a terminator-free tail in at
/// most one way. This is what makes the splitter's contract a full
/// description: order, multiplicity and content of the lines are all forced.
pub proof fn lemma_lines_unique(a: Seq<Seq<u8>>, ra: Seq<u8>, b: Seq<Seq<u8>>, rb: Seq<u8>)
    requires
        all_lines(a),
        all_lines(b),
        is_line(ra),
        is_line(rb),
        join_lines(a) + ra == join_lines(b) + rb,
    ensures
        a == b,
        ra == rb,
    decreases a.len() + b.len(),
{
    let s = join_lines(a) + ra;
    if a.len() == 0 && b.len() == 0 {
        assert(ra =~= rb);
        assert(a =~= b);
    } else if a.len() == 0 {
        // The whole stream is the terminator-free `ra`, yet the first line of
        // `b` puts a terminator at index `b[0].len()`: contradiction.
        assert(s == ra);
        let n = b[0].len() as int;
        assert(s[n] == LINE_END);
        assert(ra.contains(LINE_END));
        assert(false);
    } else if b.len() == 0 {
        assert(s == rb);
        let n = a[0].len() as int;
        assert(s[n] == LINE_END);
        assert(rb.contains(LINE_END));
        assert(false);
    } else {
        let na = a[0].len() as int;
        let nb = b[0].len() as int;
        assert(s[na] == LINE_END);
        assert(s[nb] == LINE_END);
        if na < nb {
            assert(s[na] == b[0][na]);
            assert(b[0].contains(LINE_END));
            assert(false);
        }
        if nb < na {
            assert(s[nb] == a[0][nb]);
            assert(a[0].contains(LINE_END));
            assert(false);
        }
        assert(na == nb);
        assert(join_lines(a) == a[0] + seq![LINE_END] + join_lines(a.drop_first()));
        assert(join_lines(b) == b[0] + seq![LINE_END] + join_lines(b.drop_first()));
        assert forall|i: int| 0 <= i < na implies a[0][i] == s[i] by {
            assert((a[0] + seq![LINE_END])[i] == a[0][i]);
        }
        assert forall|i: int| 0 <= i < nb implies b[0][i] == s[i] by {
            assert((b[0] + seq![LINE_END])[i] == b[0][i]);
        }
        assert forall|i: int| 0 <= i < na implies a[0][i] == b[0][i] by {
            assert(a[0][i] == s[i]);
            assert(b[0][i] == s[i]);
        }
        assert(a[0] =~= b[0]);
        let ta = join_lines(a.drop_first()) + ra;
        let tb = join_lines(b.drop_first()) + rb;
        assert(ta =~= s.skip(na + 1));
        assert(tb =~= s.skip(nb + 1));
        assert(all_lines(a.drop_first())) by {
            assert(forall|i: int|
                0 <= i < a.drop_first().len() ==> a.drop_first()[i] == a[i + 1]);
        }
        assert(all_lines(b.drop_first())) by {
            assert(forall|i: int|
                0 <= i < b.drop_first().len() ==> b.drop_first()[i] == b[i + 1]);
        }
        lemma_lines_unique(a.drop_first(), ra, b.drop_first(), rb);
        assert(a.len() == b.len());
        assert forall|i: int| 0 <= i < a.len() implies a[i] == b[i] by {
            if i > 0 {
                assert(a.drop_first()[i - 1] == a[i]);
                assert(b.drop_first()[i - 1] == b[i]);
                assert(a.drop_first() == b.drop_first());
            }
        }
        assert(a =~= b);
    }
}

/// Reassembles one byte stream into terminated lines, buffering the
/// unterminated tail.
pub struct LineSplitter {
    /// Bytes received since the last terminator.
    pub pending: Vec<u8>,
    /// All bytes ever fed, oldest first.
    pub history: Ghost<Seq<u8>>,
    /// All lines handed out so far, oldest first.
    pub complete: Ghost<Seq<Seq<u8>>>,
}

impl LineSplitter {
    /// The lines handed out, rejoined with their terminators and followed by
    /// the buffered tail, are exactly the bytes fed.
    pub open spec fn wf(self) -> bool {
        &&& all_lines(self.complete@)
        &&& is_line(self.pending@)
        &&& join_lines(self.complete@) + self.pending@ == self.history@
    }

    /// A fresh splitter: nothing fed, nothing buffered.
    pub fn new() -> (r: LineSplitter)
        ensures
            r.wf(),
            r.history@ == Seq::<u8>::empty(),
            r.complete@ == Seq::<Seq<u8>>::empty(),
            r.pending@ == Seq::<u8>::empty(),
    {
        let r = LineSplitter {
            pending: Vec::new(),
            history: Ghost(Seq::empty()),
            complete: Ghost(Seq::empty()),
        };
        proof {
            assert(join_lines(r.complete@) + r.pending@ =~= Seq::<u8>::empty());
        }
        r
    }

    /// Feeds one chunk and returns every line completed by it, oldest first.
    pub fn feed(&mut self, chunk: &[u8]) -> (out: Vec<Vec<u8>>)
        requires
            old(self).wf(),
        ensures
            final(self).wf(),
            final(self).history@ == old(self).history@ + chunk@,
            final(self).complete@ == old(self).complete@ + out.deep_view(),
            all_lines(out.deep_view()),
    {
        let mut out: Vec<Vec<u8>> = Vec::new();
        let mut i: usize = 0;
        while i < chunk.len()
            invariant
                i <= chunk.len(),
                self.wf(),
                self.history@ == old(self).history@ + chunk@.take(i as int),
                self.complete@ == old(self).complete@ + out.deep_view(),
                all_lines(out.deep_view()),
            decreases chunk.len() - i,
        {
            let b = chunk[i];
            let ghost pre = *self;
            let ghost out_pre = out.deep_view();
            if b == LINE_END {
                let mut done: Vec<u8> = Vec::new();
                core::mem::swap(&mut done, &mut self.pending);
                self.complete = Ghost(self.complete@.push(done@));
                self.history = Ghost(self.history@.push(LINE_END));
                out.push(done);
                proof {
                    lemma_join_lines_push(pre.complete@, done@);
                    assert(join_lines(self.complete@) + self.pending@ =~= self.history@);
                    assert(out.deep_view() =~~= out_pre.push(done@));
                    assert(self.complete@ =~~= old(self).complete@ + out.deep_view());
                }
            } else {
                self.pending.push(b);
                self.history = Ghost(self.history@.push(b));
                proof {
                    assert(forall|j: int|
                        0 <= j < self.pending@.len() ==> self.pending@[j] != LINE_END);
                    assert(is_line(self.pending@));
                    assert(join_lines(self.complete@) + self.pending@ =~= self.history@);
                }
            }
            i = i + 1;
            proof {
                assert(chunk@.take(i as int) =~= chunk@.take(i - 1).push(chunk@[i - 1]));
                assert(self.history@ =~= old(self).history@ + chunk@.take(i as int));
            }
        }
        proof {
            assert(chunk@.take(chunk@.len() as int) =~= chunk@);
        }
        out
    }
}

/// No loss and no reordering: once a stream that consists of whole terminated
/// lines has been fed — in any number of chunks, cut anywhere — the splitter
/// has handed out exactly those lines, in exactly that order, and buffers
/// nothing.
pub proof fn lemma_no_loss(s: LineSplitter, ls: Seq<Seq<u8>>)
    requires
        s.wf(),
        all_lines(ls),
        s.history@ == join_lines(ls),
    ensures
        s.complete@ == ls,
        s.pending@ == Seq::<u8>::empty(),
{
    assert(join_lines(ls) + Seq::<u8>::empty() =~= s.history@);
    lemma_lines_unique(s.complete@, s.pending@, ls, Seq::<u8>::empty());
}

} // verus!
