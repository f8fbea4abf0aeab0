//! The streaming search session: the decision core of the pipeline that
//! drives one request and republishes decoded results.
//!
//! The caller performs the outside work — sending the request, reading body
//! chunks, pushing results into its channel — and reports each event here.
//! [`StreamSession`] decides everything else: accepting or rejecting the
//! response status, reassembling chunks into lines, skipping blank lines,
//! decoding records, reporting per-line failures, flushing the trailing
//! record, and closing exactly once.  Its state machine is
//! `Requesting -> (Streaming | Closed)`, `Streaming -> Closed`, and `Closed`
//! is terminal.

use vstd::prelude::*;

use crate::decode::{
    decode_line, decoded, domain_field, json_parses, line_decodes, lossy_decode, lossy_utf8,
    DecodeError,
};
use crate::domain::{DomainResult, DomainResultView};
use crate::lines::{blank, is_blank, split_lines, LineBuffer, NEWLINE};

verus! {

/// A line (as bytes) yields a decoded result when it is not blank and its
/// text decodes.
pub open spec fn line_yields(l: Seq<u8>) -> bool {
    !blank(l) && line_decodes(lossy_decode(l))
}

/// The result a yielding line stands for.
pub open spec fn line_result(l: Seq<u8>) -> DomainResultView {
    decoded(lossy_decode(l))
}

/// A line is reported to the error sink when it is not blank and its text
/// does not decode.
pub open spec fn line_fails(l: Seq<u8>) -> bool {
    !blank(l) && !line_decodes(lossy_decode(l))
}

/// The kind of failure a failing line is reported with: `true` for a parsed
/// document missing the `domain` field, `false` for malformed JSON.
pub open spec fn line_failure_is_missing(l: Seq<u8>) -> bool {
    json_parses(lossy_decode(l))
}

/// The results that a sequence of lines stands for, in order: blank lines
/// and failing lines contribute nothing.
pub open spec fn results_of_lines(lines: Seq<Seq<u8>>) -> Seq<DomainResultView>
    decreases lines.len(),
{
    if lines.len() == 0 {
        Seq::empty()
    } else if line_yields(lines.last()) {
        results_of_lines(lines.drop_last()).push(line_result(lines.last()))
    } else {
        results_of_lines(lines.drop_last())
    }
}

/// The failure kinds that a sequence of lines is reported with, in order.
pub open spec fn failures_of_lines(lines: Seq<Seq<u8>>) -> Seq<bool>
    decreases lines.len(),
{
    if lines.len() == 0 {
        Seq::empty()
    } else if line_fails(lines.last()) {
        failures_of_lines(lines.drop_last()).push(line_failure_is_missing(lines.last()))
    } else {
        failures_of_lines(lines.drop_last())
    }
}

/// Everything an entire response body stands for: the results of all its
/// lines, the trailing segment treated as one final line.
pub open spec fn stream_results(b: Seq<u8>) -> Seq<DomainResultView> {
    results_of_lines(split_lines(b))
}

/// Results distribute over concatenation of line sequences.
pub proof fn lemma_results_append(a: Seq<Seq<u8>>, b: Seq<Seq<u8>>)
    ensures
        results_of_lines(a + b) == results_of_lines(a) + results_of_lines(b),
    decreases b.len(),
{
    if b.len() == 0 {
        assert(a + b =~= a);
        assert(results_of_lines(a) + results_of_lines(b) =~= results_of_lines(a));
    } else {
        lemma_results_append(a, b.drop_last());
        assert((a + b).drop_last() =~= a + b.drop_last());
        assert((a + b).last() == b.last());
        if line_yields(b.last()) {
            assert((results_of_lines(a) + results_of_lines(b.drop_last())).push(
                line_result(b.last()),
            ) =~= results_of_lines(a) + results_of_lines(b.drop_last()).push(
                line_result(b.last()),
            ));
        }
    }
}

/// Failure reports distribute over concatenation of line sequences.
pub proof fn lemma_failures_append(a: Seq<Seq<u8>>, b: Seq<Seq<u8>>)
    ensures
        failures_of_lines(a + b) == failures_of_lines(a) + failures_of_lines(b),
    decreases b.len(),
{
    if b.len() == 0 {
        assert(a + b =~= a);
        assert(failures_of_lines(a) + failures_of_lines(b) =~= failures_of_lines(a));
    } else {
        lemma_failures_append(a, b.drop_last());
        assert((a + b).drop_last() =~= a + b.drop_last());
        assert((a + b).last() == b.last());
        if line_fails(b.last()) {
            assert((failures_of_lines(a) + failures_of_lines(b.drop_last())).push(
                line_failure_is_missing(b.last()),
            ) =~= failures_of_lines(a) + failures_of_lines(b.drop_last()).push(
                line_failure_is_missing(b.last()),
            ));
        }
    }
}

/// Law: a line that does not yield a result — blank, malformed, or missing
/// its `domain` field — contributes nothing to the stream's results.
pub proof fn lemma_skipped_line_adds_nothing(lines: Seq<Seq<u8>>, i: int)
    requires
        0 <= i < lines.len(),
        !line_yields(lines[i]),
    ensures
        results_of_lines(lines) == results_of_lines(lines.remove(i)),
    decreases lines.len(),
{
    if i == lines.len() - 1 {
        assert(lines.remove(i) =~= lines.drop_last());
    } else {
        lemma_skipped_line_adds_nothing(lines.drop_last(), i);
        assert(lines.remove(i).drop_last() =~= lines.drop_last().remove(i));
        assert(lines.remove(i).last() == lines.last());
    }
}

/// Law: a line that parses as JSON but has no string `domain` field is never
/// pushed as a result.
pub proof fn lemma_missing_domain_never_pushed(lines: Seq<Seq<u8>>, i: int)
    requires
        0 <= i < lines.len(),
        json_parses(lossy_decode(lines[i])),
        domain_field(lossy_decode(lines[i])) is None,
    ensures
        results_of_lines(lines) == results_of_lines(lines.remove(i)),
{
    lemma_skipped_line_adds_nothing(lines, i);
}

/// What one batch of lines produced: decoded results for the channel, and
/// per-line failures for the error sink.
pub struct ChunkOutput {
    /// The decoded results, in stream order.
    pub results: Vec<DomainResult>,
    /// One report per failing line, in stream order.
    pub errors: Vec<DecodeError>,
}

/// The output matches the model of the given lines.
pub open spec fn output_matches(out: ChunkOutput, lines: Seq<Seq<u8>>) -> bool {
    &&& out.results@.map_values(|d: DomainResult| d@) == results_of_lines(lines)
    &&& out.errors@.len() == failures_of_lines(lines).len()
    &&& forall|i: int|
        0 <= i < out.errors@.len() ==> ((#[trigger] out.errors@[i]) is MissingField
            == failures_of_lines(lines)[i])
}

/// Decodes a batch of complete lines: blank lines are skipped, failing
/// lines are reported, results keep stream order.
fn process_lines(lines: &Vec<Vec<u8>>) -> (out: ChunkOutput)
    ensures
        output_matches(out, lines@.map_values(|l: Vec<u8>| l@)),
{
    let ghost model = lines@.map_values(|l: Vec<u8>| l@);
    let mut results: Vec<DomainResult> = Vec::new();
    let mut errors: Vec<DecodeError> = Vec::new();
    let mut i: usize = 0;
    proof {
        assert(model.take(0) =~= Seq::<Seq<u8>>::empty());
    }
    while i < lines.len()
        invariant
            0 <= i <= lines@.len(),
            model == lines@.map_values(|l: Vec<u8>| l@),
            results@.map_values(|d: DomainResult| d@) == results_of_lines(model.take(i as int)),
            errors@.len() == failures_of_lines(model.take(i as int)).len(),
            forall|j: int|
                0 <= j < errors@.len() ==> ((#[trigger] errors@[j]) is MissingField
                    == failures_of_lines(model.take(i as int))[j]),
        decreases lines@.len() - i,
    {
        let ghost pre_results = results@;
        let ghost pre_errors = errors@;
        proof {
            assert(model.take(i + 1).drop_last() =~= model.take(i as int));
            assert(model.take(i + 1).last() == model[i as int]);
        }
        let line = &lines[i];
        assert(line@ == model[i as int]);
        if !is_blank(line.as_slice()) {
            let text = lossy_utf8(line.as_slice());
            match decode_line(text.as_str()) {
                Ok(d) => {
                    results.push(d);
                    proof {
                        assert(results@.map_values(|d: DomainResult| d@) =~= pre_results.map_values(
                            |d: DomainResult| d@,
                        ).push(results@.last()@));
                    }
                },
                Err(e) => {
                    errors.push(e);
                },
            }
        }
        i += 1;
    }
    proof {
        assert(model.take(model.len() as int) =~= model);
    }
    ChunkOutput { results, errors }
}

/// Where one session stands.
pub enum SessionPhase {
    /// The request is being issued; no body byte has been seen.
    Requesting,
    /// The response was accepted and body chunks are being consumed.
    Streaming,
    /// Terminal: no further event changes the session.
    Closed,
}

/// A failure that terminates the whole operation.
#[derive(Debug, Clone, PartialEq, Eq)]
pub enum StreamError {
    /// The response carried a non-success HTTP status; zero results were
    /// emitted.
    RequestFailed(u16),
    /// The connection failed while sending or reading; results already
    /// delivered remain valid.
    Transport,
}

/// An HTTP status accepted as success: the 2xx range.
pub open spec fn status_success(status: u16) -> bool {
    200 <= status < 300
}

/// One streaming search session.  The ghost `consumed` sequence records
/// every body byte fed so far; `delivered` records every result handed back
/// for the channel, in order.
pub struct StreamSession {
    phase: SessionPhase,
    buffer: LineBuffer,
    consumed: Ghost<Seq<u8>>,
    delivered: Ghost<Seq<DomainResultView>>,
}

impl StreamSession {
    /// Where the session stands.
    pub closed spec fn phase(&self) -> SessionPhase {
        self.phase
    }

    /// Every body byte fed so far.
    pub closed spec fn consumed(&self) -> Seq<u8> {
        self.consumed@
    }

    /// Every result handed back so far, in order.
    pub closed spec fn delivered(&self) -> Seq<DomainResultView> {
        self.delivered@
    }

    /// The retained trailing partial line.
    pub closed spec fn pending(&self) -> Seq<u8> {
        self.buffer@
    }

    /// The session invariant: before the body, nothing was consumed or
    /// delivered; while streaming, the buffer holds exactly the trailing
    /// segment of the consumed bytes and the delivered results are exactly
    /// those of the completed lines.
    pub open spec fn wf(&self) -> bool {
        &&& (self.phase() is Requesting ==> {
            &&& self.consumed() == Seq::<u8>::empty()
            &&& self.delivered() == Seq::<DomainResultView>::empty()
            &&& self.pending() == Seq::<u8>::empty()
        })
        &&& (self.phase() is Streaming ==> {
            &&& self.pending() == split_lines(self.consumed()).last()
            &&& !self.pending().contains(NEWLINE)
            &&& self.delivered() == results_of_lines(split_lines(self.consumed()).drop_last())
        })
    }

    /// A fresh session, about to issue its request.
    pub fn new() -> (s: Self)
        ensures
            s.wf(),
            s.phase() is Requesting,
            s.delivered() == Seq::<DomainResultView>::empty(),
    {
        StreamSession {
            phase: SessionPhase::Requesting,
            buffer: LineBuffer::new(),
            consumed: Ghost(Seq::empty()),
            delivered: Ghost(Seq::empty()),
        }
    }

    /// Accepts or rejects the response status: any non-success status is a
    /// terminal failure for the whole operation, with zero results ever
    /// emitted; a success status opens the stream.
    pub fn on_status(&mut self, status: u16) -> (r: Result<(), StreamError>)
        requires
            old(self).wf(),
            old(self).phase() is Requesting,
        ensures
            final(self).wf(),
            final(self).consumed() == old(self).consumed(),
            final(self).delivered() == old(self).delivered(),
            status_success(status) ==> r is Ok && final(self).phase() is Streaming,
            !status_success(status) ==> {
                &&& r == Err::<(), StreamError>(StreamError::RequestFailed(status))
                &&& final(self).phase() is Closed
                &&& final(self).delivered() == Seq::<DomainResultView>::empty()
            },
    {
        if 200 <= status && status < 300 {
            self.phase = SessionPhase::Streaming;
            proof {
                assert(split_lines(self.consumed@) == seq![Seq::<u8>::empty()]);
                assert(!Seq::<u8>::empty().contains(NEWLINE));
                assert(results_of_lines(split_lines(self.consumed@).drop_last())
                    =~= Seq::<DomainResultView>::empty());
            }
            Ok(())
        } else {
            self.phase = SessionPhase::Closed;
            Err(StreamError::RequestFailed(status))
        }
    }

    /// Consumes one body chunk: every line it completes is decoded, results
    /// keep stream order, failing lines are reported without aborting the
    /// stream.
    pub fn on_chunk(&mut self, chunk: &[u8]) -> (out: ChunkOutput)
        requires
            old(self).wf(),
            old(self).phase() is Streaming,
        ensures
            final(self).wf(),
            final(self).phase() is Streaming,
            final(self).consumed() == old(self).consumed() + chunk@,
            output_matches(out, split_lines(old(self).pending() + chunk@).drop_last()),
            final(self).delivered() == old(self).delivered() + out.results@.map_values(
                |d: DomainResult| d@,
            ),
    {
        let lines = self.buffer.feed(chunk);
        let out = process_lines(&lines);
        proof {
            self.consumed@ = self.consumed@ + chunk@;
            self.delivered@ = self.delivered@ + out.results@.map_values(|d: DomainResult| d@);
            crate::lines::lemma_split_lines_append(old(self).consumed(), chunk@);
            crate::lines::lemma_split_lines_nonempty(old(self).pending() + chunk@);
            crate::lines::lemma_split_lines_nonempty(old(self).consumed() + chunk@);
            crate::lines::lemma_split_lines_no_newline(old(self).consumed() + chunk@);
            let left = split_lines(old(self).consumed()).drop_last();
            let right = split_lines(old(self).pending() + chunk@);
            assert(split_lines(old(self).consumed() + chunk@) == left + right);
            assert((left + right).drop_last() =~~= left + right.drop_last());
            assert((left + right).last() == right.last());
            lemma_results_append(left, right.drop_last());
            let all = split_lines(old(self).consumed() + chunk@);
            assert(all.last() == all[all.len() - 1]);
        }
        out
    }

    /// Ends the body stream: the trailing record, if any, is decoded like
    /// every other line, and the session closes having delivered exactly the
    /// results of the whole body.
    pub fn finish(&mut self) -> (out: ChunkOutput)
        requires
            old(self).wf(),
            old(self).phase() is Streaming,
        ensures
            final(self).wf(),
            final(self).phase() is Closed,
            output_matches(out, seq![old(self).pending()]),
            final(self).delivered() == old(self).delivered() + out.results@.map_values(
                |d: DomainResult| d@,
            ),
            final(self).delivered() == stream_results(old(self).consumed()),
    {
        self.phase = SessionPhase::Closed;
        let mut buffer = LineBuffer::new();
        core::mem::swap(&mut buffer, &mut self.buffer);
        let ghost tail = buffer@;
        let mut results: Vec<DomainResult> = Vec::new();
        let mut errors: Vec<DecodeError> = Vec::new();
        match buffer.flush() {
            None => {},
            Some(line) => {
                let text = lossy_utf8(line.as_slice());
                match decode_line(text.as_str()) {
                    Ok(d) => {
                        results.push(d);
                    },
                    Err(e) => {
                        errors.push(e);
                    },
                }
            },
        }
        let out = ChunkOutput { results, errors };
        proof {
            self.delivered@ = self.delivered@ + out.results@.map_values(|d: DomainResult| d@);
            let tl = seq![tail];
            assert(tl.len() == 1);
            assert(tl.drop_last() =~= Seq::<Seq<u8>>::empty());
            assert(tl.last() == tail);
            assert(results_of_lines(Seq::<Seq<u8>>::empty()) == Seq::<DomainResultView>::empty());
            assert(failures_of_lines(Seq::<Seq<u8>>::empty()) == Seq::<bool>::empty());
            if line_yields(tail) {
                assert(results_of_lines(tl) == results_of_lines(tl.drop_last()).push(
                    line_result(tail),
                ));
                assert(out.results@.map_values(|d: DomainResult| d@) =~= seq![line_result(tail)]);
                assert(results_of_lines(tl) =~= seq![line_result(tail)]);
            } else {
                assert(results_of_lines(tl) == results_of_lines(tl.drop_last()));
                assert(out.results@.map_values(|d: DomainResult| d@)
                    =~= Seq::<DomainResultView>::empty());
            }
            if line_fails(tail) {
                assert(failures_of_lines(tl) == failures_of_lines(tl.drop_last()).push(
                    line_failure_is_missing(tail),
                ));
                assert(out.errors@.len() == 1);
                assert((out.errors@[0] is MissingField) == line_failure_is_missing(tail));
            } else {
                assert(failures_of_lines(tl) == failures_of_lines(tl.drop_last()));
                assert(out.errors@.len() == 0);
            }
            let whole = split_lines(old(self).consumed());
            crate::lines::lemma_split_lines_nonempty(old(self).consumed());
            assert(whole == whole.drop_last().push(whole.last()));
            assert(whole.drop_last().push(tail) =~= whole);
            assert(final(self).delivered() =~= stream_results(old(self).consumed()));
        }
        out
    }

    /// A transport failure while reading the body: terminal; results already
    /// delivered remain valid, the trailing partial line is discarded, and
    /// the session closes.  The caller reports the returned error once.
    pub fn on_transport_error(&mut self) -> (e: StreamError)
        requires
            old(self).wf(),
            old(self).phase() is Streaming,
        ensures
            final(self).wf(),
            final(self).phase() is Closed,
            final(self).delivered() == old(self).delivered(),
            e == StreamError::Transport,
    {
        self.phase = SessionPhase::Closed;
        StreamError::Transport
    }

    /// The consumer discarded its end of the channel: the session closes
    /// promptly, delivering nothing further.
    pub fn on_cancelled(&mut self)
        requires
            old(self).wf(),
        ensures
            final(self).wf(),
            final(self).phase() is Closed,
            final(self).delivered() == old(self).delivered(),
    {
        self.phase = SessionPhase::Closed;
    }

    /// Whether the session is consuming body chunks.
    pub fn is_streaming(&self) -> (r: bool)
        ensures
            r == (self.phase() is Streaming),
    {
        match self.phase {
            SessionPhase::Streaming => true,
            _ => false,
        }
    }

    /// Whether the session has closed.
    pub fn is_closed(&self) -> (r: bool)
        ensures
            r == (self.phase() is Closed),
    {
        match self.phase {
            SessionPhase::Closed => true,
            _ => false,
        }
    }
}

/// The consumer-side visibility filter: a pure predicate, applied
/// independently to each result.  Taken results are excluded unless
/// `show_taken`; premium results are excluded when `hide_premium`.
pub open spec fn included(available: bool, premium: bool, show_taken: bool, hide_premium: bool) -> bool {
    (available || show_taken) && (!premium || !hide_premium)
}

/// Decides whether one result is shown.
pub fn filter_result(result: &DomainResult, show_taken: bool, hide_premium: bool) -> (r: bool)
    ensures
        r == included(result.available, result.premium, show_taken, hide_premium),
{
    (result.available || show_taken) && (!result.premium || !hide_premium)
}

} // verus!
