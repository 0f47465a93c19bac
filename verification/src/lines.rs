//! Line buffering for the connection handler: bytes arrive from the socket
//! in arbitrary chunks, and the buffer yields exactly one line per LF
//! terminator, keeping any partial line for the next read.

use vstd::prelude::*;

verus! {

/// The completed lines of `s` so far, with `cur` the partial line read
/// before `s`: every LF ends a line (the terminator itself excluded).
pub open spec fn split_nl(s: Seq<u8>, cur: Seq<u8>) -> Seq<Seq<u8>>
    decreases s.len(),
{
    if s.len() == 0 {
        Seq::empty()
    } else if s[0] == 10u8 {
        seq![cur] + split_nl(s.drop_first(), Seq::empty())
    } else {
        split_nl(s.drop_first(), cur.push(s[0]))
    }
}

/// What remains after the last LF of `s`, with `cur` the partial line read
/// before `s`: the bytes of the still unterminated line.
pub open spec fn rest_nl(s: Seq<u8>, cur: Seq<u8>) -> Seq<u8>
    decreases s.len(),
{
    if s.len() == 0 {
        cur
    } else if s[0] == 10u8 {
        rest_nl(s.drop_first(), Seq::empty())
    } else {
        rest_nl(s.drop_first(), cur.push(s[0]))
    }
}

/// No LF occurs in `s`.
pub open spec fn no_nl(s: Seq<u8>) -> bool {
    forall|k: int| 0 <= k < s.len() ==> s[k] != 10u8
}

/// How the input is chunked makes no difference: feeding `a` and then `b`
/// completes the same lines, in the same order, and leaves the same
/// partial line behind, as feeding `a + b` in one read.
pub proof fn lemma_chunking_irrelevant(a: Seq<u8>, b: Seq<u8>, cur: Seq<u8>)
    ensures
        split_nl(a + b, cur) == split_nl(a, cur) + split_nl(b, rest_nl(a, cur)),
        rest_nl(a + b, cur) == rest_nl(b, rest_nl(a, cur)),
    decreases a.len(),
{
    if a.len() == 0 {
        assert(a + b =~= b);
        assert(split_nl(a, cur) + split_nl(b, rest_nl(a, cur)) =~= split_nl(b, cur));
    } else {
        assert((a + b)[0] == a[0]);
        assert((a + b).drop_first() =~= a.drop_first() + b);
        if a[0] == 10u8 {
            lemma_chunking_irrelevant(a.drop_first(), b, Seq::empty());
            assert((seq![cur] + split_nl(a.drop_first(), Seq::empty())) + split_nl(
                b,
                rest_nl(a.drop_first(), Seq::empty()),
            ) =~= seq![cur] + (split_nl(a.drop_first(), Seq::empty()) + split_nl(
                b,
                rest_nl(a.drop_first(), Seq::empty()),
            )));
        } else {
            lemma_chunking_irrelevant(a.drop_first(), b, cur.push(a[0]));
        }
    }
}

/// Accumulates socket reads and hands out one byte line per LF terminator.
pub struct LineBuffer {
    pub pending: Vec<u8>,
}

impl LineBuffer {
    /// The partial line held over never contains a terminator.
    pub open spec fn wf(self) -> bool {
        no_nl(self.pending@)
    }

    /// An empty buffer for a fresh connection.
    pub fn new() -> (r: LineBuffer)
        ensures
            r.pending@ == Seq::<u8>::empty(),
            r.wf(),
    {
        LineBuffer { pending: Vec::new() }
    }

    /// Feeds one received chunk in and returns the lines it completed, in
    /// order and without their LF terminators; the bytes after the last
    /// terminator stay buffered for the next read.
    pub fn push_bytes(&mut self, data: &[u8]) -> (lines: Vec<Vec<u8>>)
        requires
            old(self).wf(),
        ensures
            final(self).wf(),
            lines.deep_view() == split_nl(data@, old(self).pending@),
            final(self).pending@ == rest_nl(data@, old(self).pending@),
    {
        let mut lines: Vec<Vec<u8>> = Vec::new();
        let n = data.len();
        let mut i: usize = 0;
        proof {
            assert(data@.skip(0) =~= data@);
            assert(lines.deep_view() =~= Seq::<Seq<u8>>::empty());
            assert(Seq::<Seq<u8>>::empty() + split_nl(data@, self.pending@) =~= split_nl(
                data@,
                self.pending@,
            ));
        }
        while i < n
            invariant
                n == data@.len(),
                i <= n,
                self.wf(),
                split_nl(data@, old(self).pending@) == lines.deep_view() + split_nl(
                    data@.skip(i as int),
                    self.pending@,
                ),
                rest_nl(data@, old(self).pending@) == rest_nl(
                    data@.skip(i as int),
                    self.pending@,
                ),
            decreases n - i,
        {
            let b = data[i];
            proof {
                assert(data@.skip(i as int)[0] == data@[i as int]);
                assert(data@.skip(i as int).drop_first() =~= data@.skip(i as int + 1));
            }
            if b == 10u8 {
                let ghost old_dv = lines.deep_view();
                let ghost line = self.pending@;
                let mut done: Vec<u8> = Vec::new();
                core::mem::swap(&mut done, &mut self.pending);
                lines.push(done);
                proof {
                    assert(lines.deep_view() =~~= old_dv + seq![line]);
                    assert((old_dv + seq![line]) + split_nl(
                        data@.skip(i as int + 1),
                        Seq::empty(),
                    ) =~= old_dv + (seq![line] + split_nl(data@.skip(i as int + 1), Seq::empty())));
                }
            } else {
                self.pending.push(b);
                proof {
                    assert(no_nl(self.pending@));
                }
            }
            i += 1;
        }
        proof {
            assert(data@.skip(n as int).len() == 0);
            assert(lines.deep_view() + split_nl(data@.skip(n as int), self.pending@)
                =~= lines.deep_view());
        }
        lines
    }
}

} // verus!
