//! Line chunking of a process's output and error byte streams.
//!
//! The multiplexer buffers bytes from a channel until a newline or
//! end-of-stream and emits one outbound chunk per delimited segment,
//! the final partial segment included. `split_stream` is the
//! mathematical statement of that segmentation; `LineChunker` is the
//! incremental engine the bridging loop drives.

use vstd::prelude::*;

verus! {

pub const NEWLINE: u8 = 10;

/// Segments a byte stream: the first component holds every completed
/// line (each up to and including its newline), the second the bytes
/// after the last newline, not yet delimited.
pub open spec fn split_stream(s: Seq<u8>) -> (Seq<Seq<u8>>, Seq<u8>)
    decreases s.len(),
{
    if s.len() == 0 {
        (Seq::empty(), Seq::empty())
    } else {
        let prior = split_stream(s.drop_last());
        if s.last() == NEWLINE {
            (prior.0.push(prior.1.push(NEWLINE)), Seq::empty())
        } else {
            (prior.0, prior.1.push(s.last()))
        }
    }
}

/// The completed, newline-terminated lines of a stream.
pub open spec fn complete_lines(s: Seq<u8>) -> Seq<Seq<u8>> {
    split_stream(s).0
}

/// The trailing bytes of a stream after its last newline.
pub open spec fn partial_line(s: Seq<u8>) -> Seq<u8> {
    split_stream(s).1
}

/// Every chunk emitted for a fully read stream: each completed line,
/// then the final unterminated segment if it is non-empty.
pub open spec fn stream_chunks(s: Seq<u8>) -> Seq<Seq<u8>> {
    if partial_line(s).len() == 0 {
        complete_lines(s)
    } else {
        complete_lines(s).push(partial_line(s))
    }
}

/// The concatenation of a sequence of chunks.
pub open spec fn concat_all(ss: Seq<Seq<u8>>) -> Seq<u8>
    decreases ss.len(),
{
    if ss.len() == 0 {
        Seq::empty()
    } else {
        concat_all(ss.drop_last()) + ss.last()
    }
}

/// A stream with no newline has no completed line: it is all one
/// pending partial segment.
pub proof fn lemma_no_newline_split(s: Seq<u8>)
    requires
        forall|i: int| 0 <= i < s.len() ==> s[i] != NEWLINE,
    ensures
        complete_lines(s) =~= Seq::<Seq<u8>>::empty(),
        partial_line(s) =~= s,
    decreases s.len(),
{
    if s.len() > 0 {
        lemma_no_newline_split(s.drop_last());
    }
}

/// The pending partial segment of any stream contains no newline.
pub proof fn lemma_partial_no_newline(s: Seq<u8>)
    ensures
        forall|i: int| 0 <= i < partial_line(s).len() ==> partial_line(s)[i] != NEWLINE,
    decreases s.len(),
{
    if s.len() > 0 {
        lemma_partial_no_newline(s.drop_last());
        if s.last() != NEWLINE {
            let p = partial_line(s.drop_last());
            assert forall|i: int| 0 <= i < partial_line(s).len()
                implies partial_line(s)[i] != NEWLINE by {
                assert(partial_line(s) == p.push(s.last()));
                if i < p.len() {
                    assert(p[i] != NEWLINE);
                }
            }
        }
    }
}

/// Every completed line is non-empty and ends with the newline that
/// delimited it.
pub proof fn lemma_lines_newline_terminated(s: Seq<u8>)
    ensures
        forall|k: int| 0 <= k < complete_lines(s).len() ==> (
            #[trigger] complete_lines(s)[k]).len() > 0
            && complete_lines(s)[k].last() == NEWLINE,
    decreases s.len(),
{
    if s.len() > 0 {
        lemma_lines_newline_terminated(s.drop_last());
        let prior = complete_lines(s.drop_last());
        if s.last() == NEWLINE {
            let line = partial_line(s.drop_last()).push(NEWLINE);
            assert forall|k: int| 0 <= k < complete_lines(s).len()
                implies (#[trigger] complete_lines(s)[k]).len() > 0
                    && complete_lines(s)[k].last() == NEWLINE by {
                assert(complete_lines(s) == prior.push(line));
                if k < prior.len() {
                    assert(prior[k].len() > 0 && prior[k].last() == NEWLINE);
                }
            }
        } else {
            assert forall|k: int| 0 <= k < complete_lines(s).len()
                implies (#[trigger] complete_lines(s)[k]).len() > 0
                    && complete_lines(s)[k].last() == NEWLINE by {
                assert(complete_lines(s) == prior);
                assert(prior[k].len() > 0 && prior[k].last() == NEWLINE);
            }
        }
    }
}

/// A completed line holds no newline before its final byte: every
/// chunk is exactly one `read`-until-newline segment.
pub proof fn lemma_lines_single_newline(s: Seq<u8>, k: int)
    requires
        0 <= k < complete_lines(s).len(),
    ensures
        forall|j: int|
            0 <= j < complete_lines(s)[k].len() - 1 ==> complete_lines(s)[k][j] != NEWLINE,
    decreases s.len(),
{
    if s.len() > 0 {
        let prior = complete_lines(s.drop_last());
        if s.last() == NEWLINE {
            let line = partial_line(s.drop_last()).push(NEWLINE);
            assert(complete_lines(s) == prior.push(line));
            if k < prior.len() {
                lemma_lines_single_newline(s.drop_last(), k);
                assert(complete_lines(s)[k] == prior[k]);
            } else {
                assert(complete_lines(s)[k] == line);
                lemma_partial_no_newline(s.drop_last());
                assert forall|j: int| 0 <= j < line.len() - 1 implies line[j] != NEWLINE by {
                    assert(line[j] == partial_line(s.drop_last())[j]);
                }
            }
        } else {
            assert(complete_lines(s) == prior);
            lemma_lines_single_newline(s.drop_last(), k);
        }
    }
}

/// Splitting is incremental: the lines of a stream extended by more
/// bytes are its own lines followed by the lines the pending segment
/// and the new bytes complete, and the new pending segment depends on
/// the old one and the new bytes alone. This is why feeding a stream
/// to the splitter read by read emits the same chunks as feeding it
/// whole.
pub proof fn lemma_split_append(s: Seq<u8>, t: Seq<u8>)
    ensures
        complete_lines(s + t) =~= complete_lines(s) + complete_lines(partial_line(s) + t),
        partial_line(s + t) =~= partial_line(partial_line(s) + t),
    decreases t.len(),
{
    lemma_partial_no_newline(s);
    if t.len() == 0 {
        assert(s + t =~= s);
        assert(partial_line(s) + t =~= partial_line(s));
        lemma_no_newline_split(partial_line(s));
    } else {
        lemma_split_append(s, t.drop_last());
        let b = t.last();
        assert(s + t =~= (s + t.drop_last()).push(b));
        assert(partial_line(s) + t =~= (partial_line(s) + t.drop_last()).push(b));
        assert((s + t).drop_last() =~= s + t.drop_last());
        assert((partial_line(s) + t).drop_last() =~= partial_line(s) + t.drop_last());
    }
}

/// Concatenating the completed lines and the pending partial segment
/// reproduces the stream exactly.
pub proof fn lemma_split_reassembles(s: Seq<u8>)
    ensures
        concat_all(complete_lines(s)) + partial_line(s) =~= s,
    decreases s.len(),
{
    if s.len() > 0 {
        lemma_split_reassembles(s.drop_last());
        let prior = split_stream(s.drop_last());
        if s.last() == NEWLINE {
            let pushed = prior.0.push(prior.1.push(NEWLINE));
            assert(pushed.drop_last() =~= prior.0);
            assert(concat_all(pushed) =~= concat_all(prior.0) + prior.1.push(NEWLINE));
        }
        assert(s.drop_last().push(s.last()) =~= s);
    }
}

/// Concatenating every emitted chunk, the final unterminated segment
/// included, reproduces the stream exactly.
pub proof fn lemma_chunks_reproduce_stream(s: Seq<u8>)
    ensures
        concat_all(stream_chunks(s)) =~= s,
{
    lemma_split_reassembles(s);
    if partial_line(s).len() == 0 {
        assert(concat_all(complete_lines(s)) + partial_line(s)
            =~= concat_all(complete_lines(s)));
    } else {
        let pushed = complete_lines(s).push(partial_line(s));
        assert(pushed.drop_last() =~= complete_lines(s));
        assert(concat_all(pushed)
            =~= concat_all(complete_lines(s)) + partial_line(s));
    }
}

/// Incremental line splitter for one process channel: buffers bytes
/// until a newline and hands back each completed line.
pub struct LineChunker {
    buf: Vec<u8>,
}

impl LineChunker {
    /// The bytes received so far that no emitted chunk covers yet.
    pub closed spec fn pending(&self) -> Seq<u8> {
        self.buf@
    }

    /// The buffer never retains a newline: every newline ends a chunk.
    pub closed spec fn wf(&self) -> bool {
        forall|i: int| 0 <= i < self.buf@.len() ==> self.buf@[i] != NEWLINE
    }

    pub fn new() -> (c: Self)
        ensures
            c.wf(),
            c.pending() =~= Seq::<u8>::empty(),
    {
        LineChunker { buf: Vec::new() }
    }

    /// Feeds the bytes of one read into the splitter; returns every
    /// line completed by them, in stream order, and keeps the rest
    /// pending.
    pub fn push(&mut self, data: &Vec<u8>) -> (out: Vec<Vec<u8>>)
        requires
            old(self).wf(),
        ensures
            final(self).wf(),
            out@.map_values(|v: Vec<u8>| v@)
                =~= complete_lines(old(self).pending() + data@),
            final(self).pending() =~= partial_line(old(self).pending() + data@),
    {
        let ghost start = self.buf@;
        proof {
            lemma_no_newline_split(start);
            assert(start + data@.take(0) =~= start);
        }
        let mut out: Vec<Vec<u8>> = Vec::new();
        let mut i: usize = 0;
        while i < data.len()
            invariant
                i <= data.len(),
                out@.map_values(|v: Vec<u8>| v@)
                    =~= complete_lines(start + data@.take(i as int)),
                self.buf@ =~= partial_line(start + data@.take(i as int)),
            decreases data.len() - i,
        {
            let ghost seen = start + data@.take(i as int);
            let b = data[i];
            self.buf.push(b);
            if b == NEWLINE {
                let mut line: Vec<u8> = Vec::new();
                core::mem::swap(&mut self.buf, &mut line);
                out.push(line);
            }
            proof {
                assert(start + data@.take(i + 1) =~= seen.push(b));
                assert((seen.push(b)).drop_last() =~= seen);
                if b == NEWLINE {
                    assert(out@.map_values(|v: Vec<u8>| v@)
                        =~= complete_lines(seen).push(partial_line(seen).push(NEWLINE)));
                }
            }
            i += 1;
        }
        proof {
            assert(start + data@.take(data@.len() as int) =~= start + data@);
            lemma_partial_no_newline(start + data@);
        }
        out
    }

    /// Ends the stream: hands back the final unterminated segment, if
    /// any bytes are pending.
    pub fn finish(self) -> (out: Option<Vec<u8>>)
        ensures
            match out {
                Some(rest) => self.pending().len() > 0 && rest@ =~= self.pending(),
                None => self.pending().len() == 0,
            },
    {
        if self.buf.len() == 0 {
            None
        } else {
            Some(self.buf)
        }
    }
}

} // verus!
