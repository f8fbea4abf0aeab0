//! Reassembly of newline-delimited records from arbitrarily fragmented
//! byte chunks.
//!
//! The transport delivers the response body as byte windows with no relation
//! to record boundaries.  [`LineBuffer`] accumulates those windows and hands
//! back every completed line, keeping the trailing partial line for the next
//! chunk.  The spec model is [`split_lines`]: the segments of a byte sequence
//! split on the newline byte, of which all but the last are complete lines.

use vstd::prelude::*;

verus! {

/// The byte that terminates a record on the wire.
pub const NEWLINE: u8 = 10;

/// The segments of `s` split on the newline byte, in order.  A sequence with
/// `n` newlines has `n + 1` segments; the last segment is the (possibly
/// empty) trailing partial line.
pub open spec fn split_lines(s: Seq<u8>) -> Seq<Seq<u8>>
    decreases s.len(),
{
    if s.len() == 0 {
        seq![Seq::<u8>::empty()]
    } else if s.last() == NEWLINE {
        split_lines(s.drop_last()).push(Seq::<u8>::empty())
    } else {
        let r = split_lines(s.drop_last());
        r.update(r.len() - 1, r.last().push(s.last()))
    }
}

/// A byte is ASCII whitespace: space, tab, line feed, form feed or carriage
/// return.
pub open spec fn is_ascii_space(b: u8) -> bool {
    b == 32 || b == 9 || b == 10 || b == 12 || b == 13
}

/// A line is blank when it holds nothing but ASCII whitespace; blank lines
/// are never handed to the decoder.
pub open spec fn blank(s: Seq<u8>) -> bool {
    forall|i: int| 0 <= i < s.len() ==> is_ascii_space(s[i])
}

/// Splitting always yields at least one segment.
pub proof fn lemma_split_lines_nonempty(s: Seq<u8>)
    ensures
        split_lines(s).len() >= 1,
    decreases s.len(),
{
    if s.len() != 0 {
        lemma_split_lines_nonempty(s.drop_last());
    }
}

/// No segment of a split contains the newline byte.
pub proof fn lemma_split_lines_no_newline(s: Seq<u8>)
    ensures
        forall|i: int|
            0 <= i < split_lines(s).len() ==> !(#[trigger] split_lines(s)[i]).contains(NEWLINE),
    decreases s.len(),
{
    if s.len() == 0 {
        assert(!Seq::<u8>::empty().contains(NEWLINE));
    } else {
        lemma_split_lines_nonempty(s.drop_last());
        lemma_split_lines_no_newline(s.drop_last());
        let r = split_lines(s.drop_last());
        if s.last() != NEWLINE {
            let ext = r.last().push(s.last());
            assert forall|j: int| 0 <= j < ext.len() implies ext[j] != NEWLINE by {
                if j < ext.len() - 1 {
                    assert(ext[j] == r.last()[j]);
                    assert(r.last() == r[r.len() - 1]);
                }
            }
            assert(!ext.contains(NEWLINE));
        }
    }
}

/// A byte sequence without a newline splits into itself alone.
pub proof fn lemma_split_lines_whole(s: Seq<u8>)
    requires
        !s.contains(NEWLINE),
    ensures
        split_lines(s) == seq![s],
    decreases s.len(),
{
    if s.len() != 0 {
        assert(s.last() != NEWLINE) by {
            assert(s[s.len() - 1] == s.last());
        }
        assert forall|j: int| 0 <= j < s.drop_last().len() implies s.drop_last()[j] != NEWLINE by {
            assert(s.drop_last()[j] == s[j]);
        }
        assert(!s.drop_last().contains(NEWLINE));
        lemma_split_lines_whole(s.drop_last());
        assert(s.drop_last().push(s.last()) =~= s);
        assert(split_lines(s) =~~= seq![s]);
    } else {
        assert(s =~= Seq::<u8>::empty());
        assert(split_lines(s) =~~= seq![s]);
    }
}

/// Splitting a concatenation: the completed lines of `a` stand unchanged,
/// and `c` extends only the trailing segment of `a`.
pub proof fn lemma_split_lines_append(a: Seq<u8>, c: Seq<u8>)
    ensures
        split_lines(a + c) == split_lines(a).drop_last() + split_lines(
            split_lines(a).last() + c,
        ),
    decreases c.len(),
{
    lemma_split_lines_nonempty(a);
    lemma_split_lines_no_newline(a);
    let tail = split_lines(a).last();
    assert(!tail.contains(NEWLINE)) by {
        assert(tail == split_lines(a)[split_lines(a).len() - 1]);
    }
    if c.len() == 0 {
        assert(a + c =~= a);
        assert(tail + c =~= tail);
        lemma_split_lines_whole(tail);
        assert(split_lines(a).drop_last() + seq![tail] =~~= split_lines(a));
    } else {
        lemma_split_lines_append(a, c.drop_last());
        let b = c.last();
        assert((a + c).drop_last() =~= a + c.drop_last());
        assert((a + c).last() == b);
        assert((tail + c).drop_last() =~= tail + c.drop_last());
        assert((tail + c).last() == b);
        let prev = split_lines(a + c.drop_last());
        let prev_r = split_lines(tail + c.drop_last());
        lemma_split_lines_nonempty(tail + c.drop_last());
        assert(prev == split_lines(a).drop_last() + prev_r);
        if b == NEWLINE {
            assert(split_lines(a + c) == prev.push(Seq::<u8>::empty()));
            assert(split_lines(tail + c) == prev_r.push(Seq::<u8>::empty()));
            assert(prev.push(Seq::<u8>::empty()) =~~= split_lines(a).drop_last() + prev_r.push(
                Seq::<u8>::empty(),
            ));
        } else {
            assert(prev.last() == prev_r.last()) by {
                assert(prev[prev.len() - 1] == prev_r[prev_r.len() - 1]);
            }
            let ext = prev.last().push(b);
            assert(split_lines(a + c) == prev.update(prev.len() - 1, ext));
            assert(split_lines(tail + c) == prev_r.update(prev_r.len() - 1, ext));
            assert(prev.update(prev.len() - 1, ext) =~~= split_lines(a).drop_last()
                + prev_r.update(prev_r.len() - 1, ext));
        }
    }
}

/// The bytes of `chunks`, concatenated in order.
pub open spec fn concat_chunks(chunks: Seq<Seq<u8>>) -> Seq<u8>
    decreases chunks.len(),
{
    if chunks.len() == 0 {
        Seq::empty()
    } else {
        concat_chunks(chunks.drop_last()) + chunks.last()
    }
}

/// The buffer content retained after feeding `chunks` in order into an empty
/// [`LineBuffer`].
pub open spec fn fed_residue(chunks: Seq<Seq<u8>>) -> Seq<u8>
    decreases chunks.len(),
{
    if chunks.len() == 0 {
        Seq::empty()
    } else {
        split_lines(fed_residue(chunks.drop_last()) + chunks.last()).last()
    }
}

/// Every complete line emitted, in order, by feeding `chunks` one at a time
/// into an empty [`LineBuffer`].
pub open spec fn fed_lines(chunks: Seq<Seq<u8>>) -> Seq<Seq<u8>>
    decreases chunks.len(),
{
    if chunks.len() == 0 {
        Seq::empty()
    } else {
        fed_lines(chunks.drop_last()) + split_lines(
            fed_residue(chunks.drop_last()) + chunks.last(),
        ).drop_last()
    }
}

/// Law: however a byte sequence is cut into chunks — mid-record, mid-field,
/// or exactly on newline boundaries — feeding the chunks one at a time emits
/// exactly the complete lines of the whole sequence, in order, and retains
/// exactly its trailing segment.
pub proof fn lemma_chunking_invariant(chunks: Seq<Seq<u8>>)
    ensures
        fed_lines(chunks) == split_lines(concat_chunks(chunks)).drop_last(),
        fed_residue(chunks) == split_lines(concat_chunks(chunks)).last(),
    decreases chunks.len(),
{
    if chunks.len() == 0 {
        assert(split_lines(concat_chunks(chunks)) == seq![Seq::<u8>::empty()]);
        assert(fed_lines(chunks) =~~= split_lines(concat_chunks(chunks)).drop_last());
    } else {
        let prev = chunks.drop_last();
        let c = chunks.last();
        lemma_chunking_invariant(prev);
        lemma_split_lines_append(concat_chunks(prev), c);
        let left = split_lines(concat_chunks(prev)).drop_last();
        let right = split_lines(fed_residue(prev) + c);
        lemma_split_lines_nonempty(fed_residue(prev) + c);
        assert(split_lines(concat_chunks(chunks)) == left + right);
        assert((left + right).drop_last() =~~= left + right.drop_last());
        assert((left + right).last() == right.last());
    }
}

/// The lines a byte sequence finally stands for: its complete lines,
/// followed by its trailing segment when that segment is not blank (the
/// server need not terminate the last record with a newline).
pub open spec fn terminal_lines(b: Seq<u8>) -> Seq<Seq<u8>> {
    if blank(split_lines(b).last()) {
        split_lines(b).drop_last()
    } else {
        split_lines(b)
    }
}

/// Law: with the final flush included, feeding any chunking of a byte
/// sequence emits exactly the lines of the whole sequence.
pub proof fn lemma_flush_invariant(chunks: Seq<Seq<u8>>)
    ensures
        fed_lines(chunks) + (if blank(fed_residue(chunks)) {
            Seq::<Seq<u8>>::empty()
        } else {
            seq![fed_residue(chunks)]
        }) == terminal_lines(concat_chunks(chunks)),
{
    lemma_chunking_invariant(chunks);
    let whole = split_lines(concat_chunks(chunks));
    lemma_split_lines_nonempty(concat_chunks(chunks));
    if blank(fed_residue(chunks)) {
        assert(fed_lines(chunks) + Seq::<Seq<u8>>::empty() =~~= whole.drop_last());
    } else {
        assert(fed_lines(chunks) + seq![fed_residue(chunks)] =~~= whole);
    }
}

/// Decides whether a line is blank (empty or ASCII whitespace only).
pub fn is_blank(s: &[u8]) -> (r: bool)
    ensures
        r == blank(s@),
{
    let mut i: usize = 0;
    while i < s.len()
        invariant
            0 <= i <= s@.len(),
            forall|j: int| 0 <= j < i ==> is_ascii_space(s@[j]),
        decreases s@.len() - i,
    {
        let b = s[i];
        if !(b == 32 || b == 9 || b == 10 || b == 12 || b == 13) {
            return false;
        }
        i += 1;
    }
    true
}

/// The mutable text buffer owned by one in-flight stream: it accumulates raw
/// chunks and drains completed lines.
pub struct LineBuffer {
    buf: Vec<u8>,
}

impl View for LineBuffer {
    type V = Seq<u8>;

    closed spec fn view(&self) -> Seq<u8> {
        self.buf@
    }
}

impl LineBuffer {
    /// The buffer holds a partial line only: completed lines are always
    /// drained by [`LineBuffer::feed`], so no newline byte is retained.
    pub open spec fn wf(&self) -> bool {
        !self@.contains(NEWLINE)
    }

    /// An empty buffer, ready for the first chunk.
    pub fn new() -> (r: Self)
        ensures
            r@ == Seq::<u8>::empty(),
            r.wf(),
    {
        LineBuffer { buf: Vec::new() }
    }

    /// Appends one chunk and returns every line it completed, in order; the
    /// trailing partial line (possibly empty) becomes the new buffer content.
    pub fn feed(&mut self, chunk: &[u8]) -> (lines: Vec<Vec<u8>>)
        requires
            old(self).wf(),
        ensures
            lines@.map_values(|l: Vec<u8>| l@) == split_lines(old(self)@ + chunk@).drop_last(),
            final(self)@ == split_lines(old(self)@ + chunk@).last(),
            final(self).wf(),
    {
        let mut lines: Vec<Vec<u8>> = Vec::new();
        let mut i: usize = 0;
        proof {
            assert(!Seq::<u8>::empty().contains(NEWLINE));
            lemma_split_lines_whole(old(self)@);
            assert(old(self)@ + chunk@.take(0) =~= old(self)@);
            assert(lines@.map_values(|l: Vec<u8>| l@).push(self.buf@) =~= seq![old(self)@]);
        }
        while i < chunk.len()
            invariant
                0 <= i <= chunk@.len(),
                split_lines(old(self)@ + chunk@.take(i as int)) =~~= lines@.map_values(
                    |l: Vec<u8>| l@,
                ).push(self.buf@),
            decreases chunk@.len() - i,
        {
            let ghost pre = old(self)@ + chunk@.take(i as int);
            let ghost pre_lines = lines@;
            let b = chunk[i];
            proof {
                assert((old(self)@ + chunk@.take(i + 1)).drop_last() =~= pre);
                assert((old(self)@ + chunk@.take(i + 1)).last() == chunk@[i as int]);
                lemma_split_lines_nonempty(pre);
            }
            if b == NEWLINE {
                let mut done: Vec<u8> = Vec::new();
                core::mem::swap(&mut done, &mut self.buf);
                lines.push(done);
                proof {
                    assert(lines@.map_values(|l: Vec<u8>| l@) =~= pre_lines.map_values(
                        |l: Vec<u8>| l@,
                    ).push(done@));
                    assert(split_lines(old(self)@ + chunk@.take(i + 1)) =~~= lines@.map_values(
                        |l: Vec<u8>| l@,
                    ).push(self.buf@));
                }
            } else {
                self.buf.push(b);
                proof {
                    let r = split_lines(pre);
                    assert(split_lines(old(self)@ + chunk@.take(i + 1)) == r.update(
                        r.len() - 1,
                        r.last().push(b),
                    ));
                    assert(r.last() == r[r.len() - 1]);
                    assert(split_lines(old(self)@ + chunk@.take(i + 1)) =~~= lines@.map_values(
                        |l: Vec<u8>| l@,
                    ).push(self.buf@));
                }
            }
            i += 1;
        }
        proof {
            assert(chunk@.take(chunk@.len() as int) =~= chunk@);
            let all = split_lines(old(self)@ + chunk@);
            let mapped = lines@.map_values(|l: Vec<u8>| l@);
            assert(all == mapped.push(self.buf@));
            assert(all.drop_last() =~~= mapped);
            assert(all.last() == self.buf@);
            lemma_split_lines_nonempty(old(self)@ + chunk@);
            lemma_split_lines_no_newline(old(self)@ + chunk@);
            assert(all.last() == all[all.len() - 1]);
        }
        lines
    }

    /// Ends the stream: a non-blank remainder is the final line (the server
    /// need not terminate its last record with a newline); a blank remainder
    /// is discarded.
    pub fn flush(self) -> (r: Option<Vec<u8>>)
        ensures
            match r {
                Some(l) => !blank(self@) && l@ == self@,
                None => blank(self@),
            },
    {
        if is_blank(self.buf.as_slice()) {
            None
        } else {
            Some(self.buf)
        }
    }
}

} // verus!
