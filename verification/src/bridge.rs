//! Relaying a worker's output stream as discrete line events. The stream is
//! split at newline bytes into lines; each line that decodes as text becomes
//! one event, in receipt order; a line that is not valid text is skipped and
//! never interrupts the stream.

use vstd::prelude::*;
use vstd::utf8::{decode_utf8, valid_utf8};

verus! {

/// The newline byte the stream is split at.
pub const LINE_END: u8 = 0x0a;

/// One event carried to the sink: the text of one output line.
pub struct OutputEvent {
    pub text: String,
}

/// Splitting `input` after `buffered` bytes are already pending: the complete
/// lines that arise (newline excluded), and the bytes left pending after the
/// last newline.
pub open spec fn scan_result(input: Seq<u8>, buffered: Seq<u8>) -> (Seq<Seq<u8>>, Seq<u8>)
    decreases input.len(),
{
    if input.len() == 0 {
        (Seq::<Seq<u8>>::empty(), buffered)
    } else if input[0] == LINE_END {
        let rest = scan_result(input.skip(1), Seq::<u8>::empty());
        (seq![buffered] + rest.0, rest.1)
    } else {
        scan_result(input.skip(1), buffered.push(input[0]))
    }
}

/// The events of a sequence of raw lines: each line that is valid text,
/// decoded, in order; lines that are not valid text are dropped.
pub open spec fn decoded_events(lines: Seq<Seq<u8>>) -> Seq<Seq<char>>
    decreases lines.len(),
{
    if lines.len() == 0 {
        Seq::<Seq<char>>::empty()
    } else if valid_utf8(lines[0]) {
        seq![decode_utf8(lines[0])] + decoded_events(lines.skip(1))
    } else {
        decoded_events(lines.skip(1))
    }
}

/// Splitting a stream fed in two parts yields the same complete lines, in the
/// same order and with the same leftover, as splitting it fed whole: no line
/// is lost, duplicated or reordered at a chunk boundary.
pub proof fn lemma_scan_result_append(a: Seq<u8>, b: Seq<u8>, buffered: Seq<u8>)
    ensures
        scan_result(a + b, buffered).0 == scan_result(a, buffered).0 + scan_result(
            b,
            scan_result(a, buffered).1,
        ).0,
        scan_result(a + b, buffered).1 == scan_result(b, scan_result(a, buffered).1).1,
    decreases a.len(),
{
    if a.len() == 0 {
        assert(a + b =~= b);
        assert(scan_result(a, buffered).0 + scan_result(b, buffered).0 =~= scan_result(
            b,
            buffered,
        ).0);
    } else {
        assert((a + b).skip(1) =~= a.skip(1) + b);
        if a[0] == LINE_END {
            lemma_scan_result_append(a.skip(1), b, Seq::<u8>::empty());
            assert(scan_result(a + b, buffered).0 =~= scan_result(a, buffered).0 + scan_result(
                b,
                scan_result(a, buffered).1,
            ).0);
        } else {
            lemma_scan_result_append(a.skip(1), b, buffered.push(a[0]));
        }
    }
}

/// The events of lines delivered in two batches are the events of the first
/// batch followed by the events of the second: delivery order is the order of
/// the lines, with no duplication and no loss.
pub proof fn lemma_decoded_events_append(a: Seq<Seq<u8>>, b: Seq<Seq<u8>>)
    ensures
        decoded_events(a + b) == decoded_events(a) + decoded_events(b),
    decreases a.len(),
{
    if a.len() == 0 {
        assert(a + b =~= b);
        assert(decoded_events(a) + decoded_events(b) =~= decoded_events(b));
    } else {
        assert((a + b).skip(1) =~= a.skip(1) + b);
        lemma_decoded_events_append(a.skip(1), b);
        if valid_utf8(a[0]) {
            assert(decoded_events(a + b) =~= decoded_events(a) + decoded_events(b));
        }
    }
}

/// A line that is not valid text is skipped without ending delivery: the
/// events around it are exactly the events of the lines before it followed by
/// the events of the lines after it.
pub proof fn lemma_invalid_line_skipped(before: Seq<Seq<u8>>, bad: Seq<u8>, after: Seq<Seq<u8>>)
    requires
        !valid_utf8(bad),
    ensures
        decoded_events(before + seq![bad] + after) == decoded_events(before) + decoded_events(
            after,
        ),
{
    lemma_decoded_events_append(before + seq![bad], after);
    lemma_decoded_events_append(before, seq![bad]);
    lemma_decoded_single(bad);
    assert(decoded_events(before) + decoded_events(seq![bad]) =~= decoded_events(before));
}

/// Splitting a single byte: a newline finishes the pending line; any other
/// byte joins it.
proof fn lemma_scan_single(b: u8, buffered: Seq<u8>)
    ensures
        b == LINE_END ==> scan_result(seq![b], buffered).0 == seq![buffered] && scan_result(
            seq![b],
            buffered,
        ).1 == Seq::<u8>::empty(),
        b != LINE_END ==> scan_result(seq![b], buffered).0 == Seq::<Seq<u8>>::empty()
            && scan_result(seq![b], buffered).1 == buffered.push(b),
{
    reveal_with_fuel(scan_result, 2);
    let s = seq![b];
    assert(s.skip(1) =~= Seq::<u8>::empty());
    if b == LINE_END {
        assert(scan_result(s, buffered).0 =~= seq![buffered]);
    }
}

/// The events of a single raw line: the decoded line when it is valid text,
/// nothing otherwise.
proof fn lemma_decoded_single(line: Seq<u8>)
    ensures
        valid_utf8(line) ==> decoded_events(seq![line]) == seq![decode_utf8(line)],
        !valid_utf8(line) ==> decoded_events(seq![line]) == Seq::<Seq<char>>::empty(),
{
    reveal_with_fuel(decoded_events, 2);
    let s = seq![line];
    assert(s.skip(1) =~= Seq::<Seq<u8>>::empty());
    if valid_utf8(line) {
        assert(decoded_events(s) =~= seq![decode_utf8(line)]);
    }
}

/// Relies on String::from_utf8: it succeeds exactly on valid UTF-8 input and
/// returns the characters that the bytes encode.
#[verifier::external_body]
fn bytes_to_text(line: Vec<u8>) -> (r: Option<String>)
    ensures
        r is Some <==> valid_utf8(line@),
        r matches Some(s) ==> s@ == decode_utf8(line@),
{
    String::from_utf8(line).ok()
}

/// Incremental splitter of an output stream into text-line events. Feed it
/// the stream's bytes as they arrive, in any chunking; it emits one event per
/// complete line that decodes as text, in order.
pub struct LineDecoder {
    pub pending: Vec<u8>,
}

impl View for LineDecoder {
    type V = Seq<u8>;

    open spec fn view(&self) -> Seq<u8> {
        self.pending@
    }
}

impl LineDecoder {
    /// A decoder with nothing pending.
    pub fn new() -> (r: LineDecoder)
        ensures
            r@ == Seq::<u8>::empty(),
    {
        LineDecoder { pending: Vec::new() }
    }

    /// Consumes one chunk of the stream and returns the events of the
    /// complete lines it finishes, in order; bytes after the chunk's last
    /// newline stay pending for the next chunk.
    pub fn feed(&mut self, chunk: &[u8]) -> (events: Vec<OutputEvent>)
        ensures
            final(self)@ == scan_result(chunk@, old(self)@).1,
            events@.map_values(|e: OutputEvent| e.text@) == decoded_events(
                scan_result(chunk@, old(self)@).0,
            ),
    {
        let ghost buf0 = self.pending@;
        let mut events: Vec<OutputEvent> = Vec::new();
        let mut i: usize = 0;
        let n = chunk.len();
        while i < n
            invariant
                n == chunk@.len(),
                i <= n,
                self.pending@ == scan_result(chunk@.take(i as int), buf0).1,
                events@.map_values(|e: OutputEvent| e.text@) == decoded_events(
                    scan_result(chunk@.take(i as int), buf0).0,
                ),
            decreases n - i,
        {
            let b = chunk[i];
            let ghost lines_before = scan_result(chunk@.take(i as int), buf0).0;
            let ghost pending_before = self.pending@;
            proof {
                assert(chunk@.take(i as int + 1) =~= chunk@.take(i as int) + seq![b]);
                lemma_scan_result_append(chunk@.take(i as int), seq![b], buf0);
                lemma_scan_single(b, pending_before);
            }
            if b == LINE_END {
                let mut line: Vec<u8> = Vec::new();
                core::mem::swap(&mut line, &mut self.pending);
                proof {
                    assert(scan_result(chunk@.take(i as int + 1), buf0).0 =~= lines_before + seq![
                        pending_before,
                    ]);
                    lemma_decoded_single(pending_before);
                    lemma_decoded_events_append(lines_before, seq![pending_before]);
                }
                match bytes_to_text(line) {
                    Some(text) => {
                        events.push(OutputEvent { text });
                        proof {
                            assert(events@.map_values(|e: OutputEvent| e.text@) =~= decoded_events(
                                scan_result(chunk@.take(i as int + 1), buf0).0,
                            ));
                        }
                    },
                    None => {
                        proof {
                            assert(events@.map_values(|e: OutputEvent| e.text@) =~= decoded_events(
                                scan_result(chunk@.take(i as int + 1), buf0).0,
                            ));
                        }
                    },
                }
            } else {
                self.pending.push(b);
                proof {
                    assert(scan_result(chunk@.take(i as int + 1), buf0).0 =~= lines_before);
                }
            }
            i += 1;
        }
        proof {
            assert(chunk@.take(n as int) =~= chunk@);
        }
        events
    }

    /// Ends the stream: a final unterminated line, if any, becomes one last
    /// event when it decodes as text, and the decoder is left empty.
    pub fn finish(&mut self) -> (last: Option<OutputEvent>)
        ensures
            final(self)@ == Seq::<u8>::empty(),
            old(self)@.len() == 0 ==> last is None,
            old(self)@.len() > 0 && valid_utf8(old(self)@) ==> (last matches Some(e) && e.text@
                == decode_utf8(old(self)@)),
            old(self)@.len() > 0 && !valid_utf8(old(self)@) ==> last is None,
    {
        if self.pending.len() == 0 {
            return None;
        }
        let mut line: Vec<u8> = Vec::new();
        core::mem::swap(&mut line, &mut self.pending);
        match bytes_to_text(line) {
            Some(text) => Some(OutputEvent { text }),
            None => None,
        }
    }
}

} // verus!
