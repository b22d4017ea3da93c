//! The line framer: raw bytes go in, in chunks of any size, and
//! complete, terminator-ended lines come out. An unterminated trailing
//! fragment is retained, never dropped, until later bytes complete it.

use vstd::prelude::*;
use crate::bytes::{append_bytes, find_byte, find_byte_in, lemma_find_byte, lemma_find_byte_from, subvec};
use crate::irc::LF;

verus! {

/// The complete lines in `s`: each ends with the line-feed byte, in
/// order, and what follows the last line feed is not among them.
pub open spec fn complete_lines(s: Seq<u8>) -> Seq<Seq<u8>>
    decreases s.len(),
{
    let i = find_byte(s, LF);
    if 0 <= i && i < s.len() {
        seq![s.take(i + 1)] + complete_lines(s.skip(i + 1))
    } else {
        Seq::empty()
    }
}

/// What remains of `s` after its complete lines: the suffix with no
/// line feed in it.
pub open spec fn framer_rest(s: Seq<u8>) -> Seq<u8>
    decreases s.len(),
{
    let i = find_byte(s, LF);
    if 0 <= i && i < s.len() {
        framer_rest(s.skip(i + 1))
    } else {
        s
    }
}

/// Feeding a byte sequence in two chunks frames exactly the lines of the
/// whole, and retains exactly the remainder of the whole: where the
/// chunk boundary falls changes nothing.
pub proof fn lemma_feed_chunk_invariance(a: Seq<u8>, b: Seq<u8>)
    ensures
        complete_lines(a + b) == complete_lines(a) + complete_lines(framer_rest(a) + b),
        framer_rest(a + b) == framer_rest(framer_rest(a) + b),
    decreases a.len(),
{
    lemma_find_byte(a, LF);
    let i = find_byte(a, LF);
    if i < a.len() {
        assert forall|j: int| 0 <= j < i implies (a + b)[j] != LF by {
            assert((a + b)[j] == a[j]);
        }
        assert((a + b)[i] == a[i]);
        lemma_find_byte_from(a + b, LF, i);
        assert((a + b).take(i + 1) =~= a.take(i + 1));
        assert((a + b).skip(i + 1) =~= a.skip(i + 1) + b);
        lemma_feed_chunk_invariance(a.skip(i + 1), b);
        assert(complete_lines(a + b) == seq![a.take(i + 1)] + complete_lines(a.skip(i + 1) + b));
        assert(complete_lines(a) + complete_lines(framer_rest(a) + b) =~= seq![a.take(i + 1)]
            + (complete_lines(a.skip(i + 1)) + complete_lines(framer_rest(a.skip(i + 1)) + b)));
    } else {
        assert(framer_rest(a) == a);
        assert(complete_lines(a) == Seq::<Seq<u8>>::empty());
        assert(framer_rest(a) + b =~= a + b);
        assert(complete_lines(a) + complete_lines(a + b) =~= complete_lines(a + b));
    }
}

/// The framer: a retained buffer of bytes not yet ended by a line feed.
#[derive(Debug)]
pub struct LineFramer {
    pub buf: Vec<u8>,
}

impl LineFramer {
    /// A fresh framer retaining nothing.
    pub fn new() -> (r: LineFramer)
        ensures
            r.buf@ == Seq::<u8>::empty(),
    {
        LineFramer { buf: Vec::new() }
    }

    /// Append a chunk and yield every line now complete, in order; the
    /// unterminated remainder stays buffered for the next call.
    pub fn feed(&mut self, chunk: &Vec<u8>) -> (lines: Vec<Vec<u8>>)
        ensures
            Seq::new(lines@.len(), |i: int| lines@[i]@) == complete_lines(
                old(self).buf@ + chunk@,
            ),
            final(self).buf@ == framer_rest(old(self).buf@ + chunk@),
    {
        let ghost total = old(self).buf@ + chunk@;
        append_bytes(&mut self.buf, chunk);
        let mut lines: Vec<Vec<u8>> = Vec::new();
        proof {
            assert(Seq::new(lines@.len(), |i: int| lines@[i]@) =~= Seq::<Seq<u8>>::empty());
        }
        loop
            invariant
                complete_lines(total) == Seq::new(lines@.len(), |i: int| lines@[i]@)
                    + complete_lines(self.buf@),
                framer_rest(total) == framer_rest(self.buf@),
            ensures
                find_byte(self.buf@, LF) == self.buf@.len(),
            decreases self.buf@.len(),
        {
            let n = self.buf.len();
            match find_byte_in(&self.buf, LF) {
                Some(i) => {
                    let ghost before = self.buf@;
                    let ghost lines_before = Seq::new(lines@.len(), |j: int| lines@[j]@);
                    let line = subvec(&self.buf, 0, i + 1);
                    let rest = subvec(&self.buf, i + 1, n);
                    self.buf = rest;
                    lines.push(line);
                    proof {
                        assert(line@ =~= before.take(i + 1));
                        assert(self.buf@ =~= before.skip(i + 1));
                        assert(complete_lines(before) == seq![before.take(i + 1)]
                            + complete_lines(before.skip(i + 1)));
                        assert(framer_rest(before) == framer_rest(before.skip(i + 1)));
                        assert(Seq::new(lines@.len(), |j: int| lines@[j]@) =~= lines_before.push(
                            line@,
                        ));
                        assert(lines_before.push(line@) + complete_lines(self.buf@)
                            =~= lines_before + complete_lines(before));
                    }
                },
                None => {
                    break ;
                },
            }
        }
        proof {
            assert(complete_lines(self.buf@) =~= Seq::<Seq<u8>>::empty());
            assert(Seq::new(lines@.len(), |j: int| lines@[j]@) + Seq::<Seq<u8>>::empty()
                =~= Seq::new(lines@.len(), |j: int| lines@[j]@));
            assert(framer_rest(self.buf@) == self.buf@);
        }
        lines
    }
}

} // verus!
