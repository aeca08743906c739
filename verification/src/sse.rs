//! Incremental parser for the Server-Sent-Events (SSE) text framing: input
//! bytes arrive in arbitrary chunks, records are terminated by a blank line,
//! consecutive `data:` payloads of one record are joined with a newline, and
//! every other field line is recognized and discarded.
//!
//! The parser is modelled byte by byte, which makes the emitted messages
//! independent of where the chunk boundaries fall.

use vstd::prelude::*;

verus! {

/// Line feed, the SSE line terminator.
pub const LF: u8 = 10;

/// Carriage return, stripped from line ends so CRLF input parses as LF input.
pub const CR: u8 = 13;

/// ASCII whitespace, as trimmed from around a `data:` payload.
pub open spec fn is_ws(b: u8) -> bool {
    b == 9 || b == 10 || b == 11 || b == 12 || b == 13 || b == 32
}

/// The five bytes of the field prefix `data:`.
pub open spec fn data_prefix() -> Seq<u8> {
    seq![100u8, 97u8, 116u8, 97u8, 58u8]
}

/// Abstract parser state: the bytes of the current, not yet terminated line,
/// and the accumulated data payload of the current record.
pub struct ParserModel {
    pub line: Seq<u8>,
    pub pending: Seq<u8>,
}

/// The state of a parser that has seen no input.
pub open spec fn init_model() -> ParserModel {
    ParserModel { line: Seq::empty(), pending: Seq::empty() }
}

/// All trailing carriage returns removed.
pub open spec fn strip_trailing_cr(l: Seq<u8>) -> Seq<u8>
    decreases l.len(),
{
    if l.len() > 0 && l.last() == CR {
        strip_trailing_cr(l.drop_last())
    } else {
        l
    }
}

/// Leading ASCII whitespace removed.
pub open spec fn trim_front(s: Seq<u8>) -> Seq<u8>
    decreases s.len(),
{
    if s.len() > 0 && is_ws(s.first()) {
        trim_front(s.drop_first())
    } else {
        s
    }
}

/// Trailing ASCII whitespace removed.
pub open spec fn trim_back(s: Seq<u8>) -> Seq<u8>
    decreases s.len(),
{
    if s.len() > 0 && is_ws(s.last()) {
        trim_back(s.drop_last())
    } else {
        s
    }
}

/// Leading and trailing ASCII whitespace removed.
pub open spec fn trim_ws(s: Seq<u8>) -> Seq<u8> {
    trim_back(trim_front(s))
}

/// Whether a (carriage-return-stripped) line carries the `data:` field.
pub open spec fn is_data_line(l: Seq<u8>) -> bool {
    l.len() >= 5 && l.take(5) == data_prefix()
}

/// The payload of a `data:` line: everything after the prefix, trimmed.
pub open spec fn data_payload(l: Seq<u8>) -> Seq<u8> {
    trim_ws(l.skip(5))
}

/// A record's accumulator after one more payload: an empty payload changes
/// nothing, and a further payload is joined with a newline.
pub open spec fn join_payload(pending: Seq<u8>, payload: Seq<u8>) -> Seq<u8> {
    if payload.len() == 0 {
        pending
    } else if pending.len() == 0 {
        payload
    } else {
        pending + seq![LF] + payload
    }
}

/// Effect of one complete line on the record accumulator: the new
/// accumulator, and the messages flushed by this line (none, or exactly one
/// when a blank line terminates a non-empty record).  Lines that are neither
/// blank nor `data:` lines are recognized and discarded.
pub open spec fn line_step(pending: Seq<u8>, raw_line: Seq<u8>) -> (Seq<u8>, Seq<Seq<u8>>) {
    let l = strip_trailing_cr(raw_line);
    if is_data_line(l) {
        (join_payload(pending, data_payload(l)), Seq::empty())
    } else if l.len() == 0 {
        if pending.len() > 0 {
            (Seq::empty(), seq![pending])
        } else {
            (pending, Seq::empty())
        }
    } else {
        (pending, Seq::empty())
    }
}

/// Effect of one input byte: a line feed completes the current line, any
/// other byte extends it.
pub open spec fn byte_step(m: ParserModel, b: u8) -> (ParserModel, Seq<Seq<u8>>) {
    if b == LF {
        let (pending, out) = line_step(m.pending, m.line);
        (ParserModel { line: Seq::empty(), pending }, out)
    } else {
        (ParserModel { line: m.line.push(b), pending: m.pending }, Seq::empty())
    }
}

/// Running the parser over a sequence of input bytes: the final state and
/// the messages emitted, in order.
pub open spec fn run(m: ParserModel, input: Seq<u8>) -> (ParserModel, Seq<Seq<u8>>)
    decreases input.len(),
{
    if input.len() == 0 {
        (m, Seq::empty())
    } else {
        let (m1, out1) = byte_step(m, input.first());
        let (m2, out2) = run(m1, input.drop_first());
        (m2, out1 + out2)
    }
}

/// Feeding two stretches of input in turn is the same as feeding their
/// concatenation: the parse does not depend on where the input was cut.
pub proof fn lemma_run_concat(m: ParserModel, a: Seq<u8>, b: Seq<u8>)
    ensures
        ({
            let (m1, out1) = run(m, a);
            let (m2, out2) = run(m1, b);
            run(m, a + b) == (m2, out1 + out2)
        }),
    decreases a.len(),
{
    let (m1, out1) = run(m, a);
    let (m2, out2) = run(m1, b);
    if a.len() == 0 {
        assert(a + b =~= b);
        assert(out1 + out2 =~= out2);
    } else {
        let (ma, outa) = byte_step(m, a.first());
        assert((a + b).first() == a.first());
        assert((a + b).drop_first() =~= a.drop_first() + b);
        lemma_run_concat(ma, a.drop_first(), b);
        let (mr, outr) = run(ma, a.drop_first());
        let (mrb, outrb) = run(mr, b);
        assert(run(m, a + b) == (mrb, outa + (outr + outrb)));
        assert(outa + (outr + outrb) =~= (outa + outr) + outrb);
    }
}

/// One more byte after a stretch of input: the run extends by one step.
pub proof fn lemma_run_snoc(m: ParserModel, s: Seq<u8>, b: u8)
    ensures
        ({
            let (m1, out1) = run(m, s);
            let (m2, out2) = byte_step(m1, b);
            run(m, s.push(b)) == (m2, out1 + out2)
        }),
{
    let (m1, out1) = run(m, s);
    let (m2, out2) = byte_step(m1, b);
    lemma_run_concat(m, s, seq![b]);
    let s1 = seq![b];
    assert(s.push(b) =~= s + s1);
    assert(s1.first() == b);
    assert(s1.drop_first().len() == 0);
    assert(run(m2, s1.drop_first()) == (m2, Seq::<Seq<u8>>::empty()));
    assert(run(m1, s1) == (m2, out2 + Seq::<Seq<u8>>::empty()));
    assert(out2 + Seq::<Seq<u8>>::empty() =~= out2);
}

/// Running the parser over a sequence of chunks, one after the other.
pub open spec fn run_chunks(m: ParserModel, chunks: Seq<Seq<u8>>) -> (ParserModel, Seq<Seq<u8>>)
    decreases chunks.len(),
{
    if chunks.len() == 0 {
        (m, Seq::empty())
    } else {
        let (m1, out1) = run(m, chunks.first());
        let (m2, out2) = run_chunks(m1, chunks.drop_first());
        (m2, out1 + out2)
    }
}

/// Chunk-boundary invariance: however a byte stream is cut into chunks —
/// mid-line, mid-field, or anywhere else — feeding the chunks in order
/// leaves the parser in the state, and emits exactly the messages, of
/// feeding the whole stream at once.
pub proof fn lemma_chunking_invariance(m: ParserModel, chunks: Seq<Seq<u8>>)
    ensures
        run_chunks(m, chunks) == run(m, chunks.flatten()),
    decreases chunks.len(),
{
    if chunks.len() == 0 {
        assert(chunks.flatten() =~= Seq::<u8>::empty());
    } else {
        let (m1, out1) = run(m, chunks.first());
        lemma_chunking_invariance(m1, chunks.drop_first());
        lemma_run_concat(m, chunks.first(), chunks.drop_first().flatten());
        assert(chunks.flatten() == chunks.first() + chunks.drop_first().flatten());
    }
}

/// A line that is neither blank nor a `data:` line leaves the record
/// accumulator untouched and emits nothing: unknown fields (`event:`, `id:`,
/// `retry:`, comments) interleaved with `data:` lines neither appear in the
/// emitted message nor break the accumulation.
pub proof fn lemma_unknown_line_ignored(m: ParserModel, raw_line: Seq<u8>)
    requires
        m.line.len() == 0,
        !raw_line.contains(LF),
        !is_data_line(strip_trailing_cr(raw_line)),
        strip_trailing_cr(raw_line).len() != 0,
    ensures
        ({
            let (m2, out) = run(m, raw_line.push(LF));
            m2 == (ParserModel { line: Seq::<u8>::empty(), pending: m.pending }) && out =~= Seq::<
                Seq<u8>,
            >::empty()
        }),
{
    lemma_run_all_non_lf(m, raw_line);
    lemma_run_snoc(m, raw_line, LF);
    let (m1, out1) = run(m, raw_line);
    assert(m1.line =~= raw_line);
}

/// Bytes containing no line feed only ever extend the current line.
proof fn lemma_run_all_non_lf(m: ParserModel, s: Seq<u8>)
    requires
        !s.contains(LF),
    ensures
        run(m, s) == ((ParserModel { line: m.line + s, pending: m.pending }), Seq::<
            Seq<u8>,
        >::empty()),
    decreases s.len(),
{
    if s.len() == 0 {
        assert(m.line + s =~= m.line);
        assert(m == (ParserModel { line: m.line + s, pending: m.pending }));
    } else {
        assert(s[0] != LF);
        let (m1, out1) = byte_step(m, s.first());
        assert(!s.drop_first().contains(LF)) by {
            assert(forall|i: int|
                0 <= i < s.drop_first().len() ==> s.drop_first()[i] == s[i + 1]);
        }
        lemma_run_all_non_lf(m1, s.drop_first());
        assert(m.line.push(s.first()) + s.drop_first() =~= m.line + s);
        assert(out1 + Seq::<Seq<u8>>::empty() =~= Seq::<Seq<u8>>::empty());
    }
}

/// Whether a byte is ASCII whitespace.
fn is_ws_byte(b: u8) -> (r: bool)
    ensures
        r == is_ws(b),
{
    b == 9 || b == 10 || b == 11 || b == 12 || b == 13 || b == 32
}

/// Executable incremental SSE parser.  Input bytes are fed in whatever
/// chunks the transport produced; completed messages come back out.
pub struct SseParser {
    line: Vec<u8>,
    pending: Vec<u8>,
}

impl View for SseParser {
    type V = ParserModel;

    closed spec fn view(&self) -> ParserModel {
        ParserModel { line: self.line@, pending: self.pending@ }
    }
}

impl SseParser {
    /// A parser that has seen no input.
    pub fn new() -> (p: Self)
        ensures
            p@ == init_model(),
    {
        let p = SseParser { line: Vec::new(), pending: Vec::new() };
        proof {
            assert(p@.line =~= Seq::<u8>::empty());
            assert(p@.pending =~= Seq::<u8>::empty());
        }
        p
    }

    /// Consumes the completed current line: strips trailing carriage
    /// returns, accumulates a `data:` payload, flushes the record on a blank
    /// line, and discards any other field line.
    fn finish_line(&mut self) -> (emitted: Option<Vec<u8>>)
        ensures
            ({
                let (pending, out) = line_step(old(self)@.pending, old(self)@.line);
                &&& final(self)@.line == Seq::<u8>::empty()
                &&& final(self)@.pending == pending
                &&& match emitted {
                    Option::None => out.len() == 0,
                    Option::Some(v) => out == seq![v@],
                }
            }),
    {
        // Strip trailing carriage returns.
        while self.line.len() > 0 && self.line[self.line.len() - 1] == CR
            invariant
                strip_trailing_cr(old(self)@.line) == strip_trailing_cr(self.line@),
                self.pending@ == old(self)@.pending,
            decreases self.line.len(),
        {
            self.line.pop();
        }
        let ghost l = self.line@;
        proof {
            assert(l == strip_trailing_cr(old(self)@.line));
        }
        // Recognize the `data:` field prefix.
        let is_data = self.line.len() >= 5 && self.line[0] == 100 && self.line[1] == 97
            && self.line[2] == 116 && self.line[3] == 97 && self.line[4] == 58;
        proof {
            if l.len() >= 5 {
                assert(forall|i: int| 0 <= i < 5 ==> l.take(5)[i] == l[i]);
                if l[0] == 100 && l[1] == 97 && l[2] == 116 && l[3] == 97 && l[4] == 58 {
                    assert(l.take(5) =~= data_prefix());
                } else {
                    assert(l.take(5) != data_prefix());
                }
            }
            assert(is_data == is_data_line(l));
        }
        let emitted: Option<Vec<u8>>;
        if is_data {
            let len = self.line.len();
            // Left edge of the trimmed payload.
            let mut start: usize = 5;
            while start < len && is_ws_byte(self.line[start])
                invariant
                    5 <= start <= len,
                    len == self.line.len(),
                    self.line@ == l,
                    trim_front(l.skip(5)) == trim_front(l.skip(start as int)),
                decreases len - start,
            {
                proof {
                    assert(l.skip(start as int).first() == l[start as int]);
                    assert(l.skip(start as int).drop_first() =~= l.skip(start as int + 1));
                }
                start += 1;
            }
            proof {
                if start < len {
                    assert(l.skip(start as int).first() == l[start as int]);
                    assert(trim_front(l.skip(start as int)) == l.skip(start as int));
                } else {
                    assert(l.skip(start as int).len() == 0);
                    assert(trim_front(l.skip(start as int)) == l.skip(start as int));
                }
                assert(trim_front(l.skip(5)) == l.skip(start as int));
                assert(l.skip(start as int) =~= l.subrange(start as int, len as int));
            }
            // Right edge of the trimmed payload.
            let mut end: usize = len;
            while end > start && is_ws_byte(self.line[end - 1])
                invariant
                    start <= end <= len,
                    len == self.line.len(),
                    self.line@ == l,
                    trim_back(l.subrange(start as int, len as int)) == trim_back(
                        l.subrange(start as int, end as int),
                    ),
                decreases end,
            {
                proof {
                    let sub = l.subrange(start as int, end as int);
                    assert(sub.last() == l[end - 1]);
                    assert(sub.drop_last() =~= l.subrange(start as int, end as int - 1));
                }
                end -= 1;
            }
            let ghost payload = l.subrange(start as int, end as int);
            proof {
                let sub = l.subrange(start as int, end as int);
                if end > start {
                    assert(sub.last() == l[end - 1]);
                    assert(trim_back(sub) == sub);
                } else {
                    assert(sub.len() == 0);
                    assert(trim_back(sub) == sub);
                }
                assert(data_payload(l) == payload);
            }
            if start < end {
                let ghost pending0 = self.pending@;
                if self.pending.len() > 0 {
                    self.pending.push(LF);
                }
                let ghost base = self.pending@;
                let mut k = start;
                while k < end
                    invariant
                        start <= k <= end <= len,
                        len == self.line.len(),
                        self.line@ == l,
                        self.pending@ == base + l.subrange(start as int, k as int),
                    decreases end - k,
                {
                    let b = self.line[k];
                    self.pending.push(b);
                    proof {
                        assert(base + l.subrange(start as int, k as int) + seq![l[k as int]]
                            =~= base + l.subrange(start as int, k as int + 1));
                    }
                    k += 1;
                }
                proof {
                    assert(self.pending@ == base + payload);
                    if pending0.len() == 0 {
                        assert(base =~= Seq::<u8>::empty());
                        assert(base + payload =~= payload);
                    } else {
                        assert(base =~= pending0 + seq![LF]);
                        assert(base + payload =~= pending0 + seq![LF] + payload);
                    }
                    assert(self.pending@ == join_payload(pending0, payload));
                }
            } else {
                proof {
                    assert(payload.len() == 0);
                    assert(join_payload(self.pending@, payload) == self.pending@);
                }
            }
            emitted = None;
        } else if self.line.len() == 0 {
            if self.pending.len() > 0 {
                let mut out: Vec<u8> = Vec::new();
                core::mem::swap(&mut self.pending, &mut out);
                emitted = Some(out);
            } else {
                emitted = None;
            }
        } else {
            emitted = None;
        }
        self.line.clear();
        proof {
            assert(self.line@ =~= Seq::<u8>::empty());
            if self.pending@.len() == 0 {
                assert(self.pending@ =~= Seq::<u8>::empty());
            }
        }
        emitted
    }

    /// Feeds one chunk of transport bytes and returns the messages the chunk
    /// completed, in order.  The result is exactly what the abstract parser
    /// emits, so it does not depend on how the stream was cut into chunks.
    pub fn feed(&mut self, chunk: &[u8]) -> (msgs: Vec<Vec<u8>>)
        ensures
            ({
                let (m, out) = run(old(self)@, chunk@);
                final(self)@ == m && msgs.deep_view() == out
            }),
    {
        let ghost m0 = self@;
        let mut msgs: Vec<Vec<u8>> = Vec::new();
        proof {
            assert(msgs.deep_view() =~= Seq::<Seq<u8>>::empty());
            assert(chunk@.take(0) =~= Seq::<u8>::empty());
        }
        let mut i: usize = 0;
        while i < chunk.len()
            invariant
                i <= chunk.len(),
                ({
                    let (m, out) = run(m0, chunk@.take(i as int));
                    self@ == m && msgs.deep_view() == out
                }),
            decreases chunk.len() - i,
        {
            let ghost prefix = chunk@.take(i as int);
            let ghost dv0 = msgs.deep_view();
            let b = chunk[i];
            proof {
                lemma_run_snoc(m0, prefix, b);
                assert(prefix.push(b) =~= chunk@.take(i as int + 1));
            }
            if b == LF {
                let e = self.finish_line();
                let ghost (pend, out1) = line_step(run(m0, prefix).0.pending, run(m0, prefix).0.line);
                match e {
                    Some(v) => {
                        msgs.push(v);
                        proof {
                            assert(v.deep_view() =~= v@);
                            assert(msgs.deep_view() =~= dv0.push(v@));
                            assert(dv0 + out1 =~= dv0.push(v@));
                        }
                    },
                    None => {
                        proof {
                            assert(dv0 + out1 =~= dv0);
                        }
                    },
                }
            } else {
                self.line.push(b);
                proof {
                    let (m1, out1) = byte_step(run(m0, prefix).0, b);
                    assert(out1 =~= Seq::<Seq<u8>>::empty());
                    assert(dv0 + out1 =~= dv0);
                }
            }
            i += 1;
        }
        proof {
            assert(chunk@.take(chunk@.len() as int) =~= chunk@);
        }
        msgs
    }

    /// Flushes the record still being accumulated when the stream ends
    /// cleanly: the final message, if the accumulator is non-empty.  Bytes
    /// of an unterminated line are discarded with the parser, as the record
    /// they would have belonged to never completed.
    pub fn take_final(&mut self) -> (last: Option<Vec<u8>>)
        ensures
            old(self)@.pending.len() > 0 ==> (last matches Some(v) && v@ == old(self)@.pending),
            old(self)@.pending.len() == 0 ==> last is None,
            final(self)@.pending == Seq::<u8>::empty(),
    {
        if self.pending.len() > 0 {
            let mut out: Vec<u8> = Vec::new();
            core::mem::swap(&mut self.pending, &mut out);
            proof {
                assert(self.pending@ =~= Seq::<u8>::empty());
            }
            Some(out)
        } else {
            proof {
                assert(self.pending@ =~= Seq::<u8>::empty());
            }
            None
        }
    }

    /// The accumulated payload of the record currently being built.
    pub fn pending_len(&self) -> (n: usize)
        ensures
            n == self@.pending.len(),
    {
        self.pending.len()
    }
}

} // verus!
