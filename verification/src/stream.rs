//! The stream parser: turns the newline-delimited body of a streaming
//! completion response into the accumulated completion result.
//!
//! The body is framed as one JSON object per line, each carrying a text
//! fragment (`response` on the wire) and a terminal flag (`done` on the
//! wire). Blank lines are skipped; any other line that is not a valid
//! chunk is a fatal parse error; accumulation stops at the first final
//! chunk, whose fragment is still included; a stream that ends without a
//! final chunk yields everything collected so far.

use vstd::prelude::*;

use crate::wire;
use crate::CompletionError;

verus! {

/// One decoded line of the streaming response.
pub struct CompletionChunk {
    /// The partial content this chunk carries (`response` on the wire).
    pub text_fragment: String,
    /// Whether this chunk terminates the stream (`done` on the wire).
    pub is_final: bool,
}

impl View for CompletionChunk {
    type V = (Seq<char>, bool);

    open spec fn view(&self) -> (Seq<char>, bool) {
        (self.text_fragment@, self.is_final)
    }
}

/// The views of a sequence of chunks.
pub open spec fn chunks_view(chunks: Seq<CompletionChunk>) -> Seq<(Seq<char>, bool)> {
    Seq::new(chunks.len(), |i: int| chunks[i]@)
}

/// The accumulated result of a chunk sequence: the concatenation of the
/// fragments of every chunk up to and including the first final one.
/// Chunks after the first final one do not take part.
pub open spec fn accumulated(chunks: Seq<(Seq<char>, bool)>) -> Seq<char>
    decreases chunks.len(),
{
    if chunks.len() == 0 {
        Seq::empty()
    } else if chunks[0].1 {
        chunks[0].0
    } else {
        chunks[0].0 + accumulated(chunks.drop_first())
    }
}

/// The concatenation of every fragment of `chunks`.
pub open spec fn all_fragments(chunks: Seq<(Seq<char>, bool)>) -> Seq<char>
    decreases chunks.len(),
{
    if chunks.len() == 0 {
        Seq::empty()
    } else {
        chunks[0].0 + all_fragments(chunks.drop_first())
    }
}

/// Whether any chunk of `chunks` is final.
pub open spec fn has_final(chunks: Seq<(Seq<char>, bool)>) -> bool {
    exists|i: int| 0 <= i < chunks.len() && chunks[i].1
}

/// A chunk sequence with no final chunk accumulates to the concatenation
/// of all its fragments; nothing is lost and nothing fails.
pub proof fn lemma_accumulate_no_final(chunks: Seq<(Seq<char>, bool)>)
    requires
        !has_final(chunks),
    ensures
        accumulated(chunks) == all_fragments(chunks),
    decreases chunks.len(),
{
    if chunks.len() > 0 {
        assert(!chunks[0].1);
        assert(!has_final(chunks.drop_first())) by {
            assert forall|i: int| 0 <= i < chunks.drop_first().len() implies !chunks.drop_first()[i].1 by {
                assert(chunks.drop_first()[i] == chunks[i + 1]);
            }
        }
        lemma_accumulate_no_final(chunks.drop_first());
    }
}

/// A chunk sequence whose one final chunk stands at its end accumulates to
/// the concatenation of all its fragments, the final chunk's included.
pub proof fn lemma_accumulate_final_at_end(chunks: Seq<(Seq<char>, bool)>)
    requires
        chunks.len() > 0,
        chunks.last().1,
        forall|i: int| 0 <= i < chunks.len() - 1 ==> !chunks[i].1,
    ensures
        accumulated(chunks) == all_fragments(chunks),
    decreases chunks.len(),
{
    if chunks.len() == 1 {
        assert(chunks[0].1);
        assert(chunks[0].0 + all_fragments(chunks.drop_first()) =~= chunks[0].0);
    } else {
        assert(!chunks[0].1);
        assert(chunks.drop_first().last() == chunks.last());
        lemma_accumulate_final_at_end(chunks.drop_first());
    }
}

/// Once a chunk sequence holds a final chunk, whatever comes after it
/// leaves the accumulated result unchanged: later chunks are never read.
pub proof fn lemma_accumulate_stops_at_final(
    chunks: Seq<(Seq<char>, bool)>,
    later: Seq<(Seq<char>, bool)>,
)
    requires
        has_final(chunks),
    ensures
        accumulated(chunks + later) == accumulated(chunks),
    decreases chunks.len(),
{
    assert(chunks.len() > 0);
    assert((chunks + later)[0] == chunks[0]);
    if !chunks[0].1 {
        assert((chunks + later).drop_first() =~= chunks.drop_first() + later);
        let i = choose|i: int| 0 <= i < chunks.len() && chunks[i].1;
        assert(chunks.drop_first()[i - 1].1);
        lemma_accumulate_stops_at_final(chunks.drop_first(), later);
    }
}

/// Accumulates an already decoded chunk sequence.
pub fn accumulate_chunks(chunks: &Vec<CompletionChunk>) -> (r: String)
    ensures
        r@ == accumulated(chunks_view(chunks@)),
{
    let ghost all = chunks_view(chunks@);
    let mut acc = String::new();
    proof {
        assert(all.skip(0) =~= all);
        assert(acc@ + accumulated(all) =~= accumulated(all));
    }
    let mut i: usize = 0;
    while i < chunks.len()
        invariant
            0 <= i <= chunks.len(),
            all == chunks_view(chunks@),
            accumulated(all) == acc@ + accumulated(all.skip(i as int)),
        decreases chunks.len() - i,
    {
        proof {
            assert(all.skip(i as int)[0] == chunks@[i as int]@);
            assert(all.skip(i as int).drop_first() =~= all.skip(i as int + 1));
            match accumulated(all.skip(i as int + 1)) {
                rest => {
                    assert((acc@ + chunks@[i as int]@.0) + rest =~= acc@ + (chunks@[i as int]@.0
                        + rest));
                },
            }
        }
        let chunk = &chunks[i];
        wire::push_str(&mut acc, chunk.text_fragment.as_str());
        if chunk.is_final {
            return acc;
        }
        i += 1;
    }
    proof {
        assert(all.skip(all.len() as int) =~= Seq::<(Seq<char>, bool)>::empty());
        assert(acc@ + accumulated(all.skip(chunks@.len() as int)) =~= acc@);
    }
    acc
}

/// ASCII whitespace as the line framing treats it.
pub open spec fn is_ws(b: u8) -> bool {
    b == 32 || b == 9 || b == 13 || b == 10 || b == 12
}

/// A line that carries no content and is skipped.
pub open spec fn is_blank(line: Seq<u8>) -> bool {
    forall|i: int| 0 <= i < line.len() ==> is_ws(line[i])
}

/// The length of the prefix of `s` before its first line feed, or
/// `s.len()` when `s` holds none.
pub open spec fn first_nl(s: Seq<u8>) -> int
    decreases s.len(),
{
    if s.len() == 0 {
        0
    } else if s[0] == 10u8 {
        0
    } else {
        1 + first_nl(s.drop_first())
    }
}

proof fn lemma_first_nl_bounds(s: Seq<u8>)
    ensures
        0 <= first_nl(s) <= s.len(),
    decreases s.len(),
{
    if s.len() > 0 && s[0] != 10u8 {
        lemma_first_nl_bounds(s.drop_first());
    }
}

/// `s` split at line feeds, the line feeds themselves dropped; a trailing
/// line feed does not open an empty last line.
pub open spec fn line_split(s: Seq<u8>) -> Seq<Seq<u8>>
    decreases s.len(),
    via line_split_decreases
{
    if s.len() == 0 {
        Seq::empty()
    } else {
        let i = first_nl(s);
        if i == s.len() {
            seq![s]
        } else {
            seq![s.take(i)] + line_split(s.skip(i + 1))
        }
    }
}

#[via_fn]
proof fn line_split_decreases(s: Seq<u8>) {
    lemma_first_nl_bounds(s);
}

/// Where the first line feed of `s` stands, told from its bytes.
proof fn lemma_first_nl_at(s: Seq<u8>, n: int)
    requires
        0 <= n <= s.len(),
        forall|k: int| 0 <= k < n ==> s[k] != 10u8,
        n == s.len() || s[n] == 10u8,
    ensures
        first_nl(s) == n,
    decreases n,
{
    if n > 0 {
        assert(s[0] != 10u8);
        let t = s.drop_first();
        assert forall|k: int| 0 <= k < n - 1 implies t[k] != 10u8 by {
            assert(t[k] == s[k + 1]);
        }
        if n < s.len() {
            assert(t[n - 1] == s[n]);
        }
        lemma_first_nl_at(t, n - 1);
    }
}

/// The chunk a raw line stands for, when it is one: a JSON object with a
/// string `response` and a boolean `done`.
pub open spec fn line_chunk(line: Seq<u8>) -> Option<(Seq<char>, bool)> {
    match (wire::str_field_of(line, "response"@), wire::bool_field_of(line, "done"@)) {
        (Some(t), Some(d)) => Some((t, d)),
        _ => None,
    }
}

/// What accumulation yields on a sequence of raw lines: blank lines are
/// skipped, every other line read must be a chunk, and reading stops at
/// the first final chunk, whose fragment is included. `None` is the fatal
/// parse error; a stream without a final chunk still yields its fragments.
pub open spec fn accumulate_lines_spec(lines: Seq<Seq<u8>>) -> Option<Seq<char>>
    decreases lines.len(),
{
    if lines.len() == 0 {
        Some(Seq::empty())
    } else if is_blank(lines[0]) {
        accumulate_lines_spec(lines.drop_first())
    } else {
        match line_chunk(lines[0]) {
            None => None,
            Some(c) => if c.1 {
                Some(c.0)
            } else {
                match accumulate_lines_spec(lines.drop_first()) {
                    None => None,
                    Some(rest) => Some(c.0 + rest),
                }
            },
        }
    }
}

/// The views of a sequence of byte lines.
pub open spec fn lines_view(lines: Seq<Vec<u8>>) -> Seq<Seq<u8>> {
    Seq::new(lines.len(), |i: int| lines[i]@)
}

/// A line that accumulation passes through without stopping: blank, or a
/// chunk that is not final.
pub open spec fn passthrough_line(line: Seq<u8>) -> bool {
    is_blank(line) || (line_chunk(line) matches Some(c) && !c.1)
}

/// The concatenation of the fragments of the chunk lines of `lines`,
/// blank lines skipped.
pub open spec fn line_fragments(lines: Seq<Seq<u8>>) -> Seq<char>
    decreases lines.len(),
{
    if lines.len() == 0 {
        Seq::empty()
    } else if is_blank(lines[0]) {
        line_fragments(lines.drop_first())
    } else {
        match line_chunk(lines[0]) {
            Some(c) => c.0 + line_fragments(lines.drop_first()),
            None => line_fragments(lines.drop_first()),
        }
    }
}

/// A line sequence without a final chunk accumulates, without error, to
/// the concatenation of all its fragments.
pub proof fn lemma_lines_no_final(lines: Seq<Seq<u8>>)
    requires
        forall|i: int| 0 <= i < lines.len() ==> passthrough_line(lines[i]),
    ensures
        accumulate_lines_spec(lines) == Some(line_fragments(lines)),
    decreases lines.len(),
{
    if lines.len() > 0 {
        assert(passthrough_line(lines[0]));
        let d = lines.drop_first();
        assert forall|i: int| 0 <= i < d.len() implies passthrough_line(d[i]) by {
            assert(d[i] == lines[i + 1]);
        }
        lemma_lines_no_final(d);
    }
}

/// One malformed line, anywhere before the first final chunk, aborts the
/// whole accumulation with the parse error.
pub proof fn lemma_malformed_line_aborts(lines: Seq<Seq<u8>>, j: int)
    requires
        0 <= j < lines.len(),
        !is_blank(lines[j]),
        line_chunk(lines[j]) is None,
        forall|k: int| 0 <= k < j ==> passthrough_line(lines[k]),
    ensures
        accumulate_lines_spec(lines) == None::<Seq<char>>,
    decreases j,
{
    if j > 0 {
        assert(passthrough_line(lines[0]));
        let d = lines.drop_first();
        assert(d[j - 1] == lines[j]);
        assert forall|k: int| 0 <= k < j - 1 implies passthrough_line(d[k]) by {
            assert(d[k] == lines[k + 1]);
        }
        lemma_malformed_line_aborts(d, j - 1);
    }
}

/// Accumulation stops at the first final chunk: the result is the
/// concatenation of the fragments up to and including it, and the lines
/// after it are never read.
pub proof fn lemma_final_line_stops(lines: Seq<Seq<u8>>, j: int)
    requires
        0 <= j < lines.len(),
        !is_blank(lines[j]),
        line_chunk(lines[j]) matches Some(c) && c.1,
        forall|k: int| 0 <= k < j ==> passthrough_line(lines[k]),
    ensures
        accumulate_lines_spec(lines) == Some(line_fragments(lines.take(j + 1))),
        accumulate_lines_spec(lines) == accumulate_lines_spec(lines.take(j + 1)),
    decreases j,
{
    if j == 0 {
        match line_chunk(lines[0]) {
            Some(c) => {
                assert(lines.take(1)[0] == lines[0]);
                assert(lines.take(1).drop_first() =~= Seq::<Seq<u8>>::empty());
                assert(c.0 + line_fragments(Seq::<Seq<u8>>::empty()) =~= c.0);
            },
            None => {
                assert(false);
            },
        }
    } else {
        assert(passthrough_line(lines[0]));
        let d = lines.drop_first();
        assert(d[j - 1] == lines[j]);
        assert forall|k: int| 0 <= k < j - 1 implies passthrough_line(d[k]) by {
            assert(d[k] == lines[k + 1]);
        }
        lemma_final_line_stops(d, j - 1);
        assert(lines.take(j + 1)[0] == lines[0]);
        assert(lines.take(j + 1).drop_first() =~= d.take(j));
    }
}

/// The chunks the lines stand for, blank lines skipped; meaningful when
/// every non-blank line parses.
pub open spec fn line_chunks(lines: Seq<Seq<u8>>) -> Seq<(Seq<char>, bool)>
    decreases lines.len(),
{
    if lines.len() == 0 {
        Seq::empty()
    } else if is_blank(lines[0]) {
        line_chunks(lines.drop_first())
    } else {
        match line_chunk(lines[0]) {
            Some(c) => seq![c] + line_chunks(lines.drop_first()),
            None => line_chunks(lines.drop_first()),
        }
    }
}

/// When every non-blank line parses as a chunk, accumulating the lines
/// succeeds and is exactly accumulating their chunks.
pub proof fn lemma_lines_accumulate_as_chunks(lines: Seq<Seq<u8>>)
    requires
        forall|i: int| 0 <= i < lines.len() ==> is_blank(lines[i]) || line_chunk(lines[i]) is Some,
    ensures
        accumulate_lines_spec(lines) == Some(accumulated(line_chunks(lines))),
    decreases lines.len(),
{
    if lines.len() > 0 {
        let d = lines.drop_first();
        assert forall|i: int| 0 <= i < d.len() implies is_blank(d[i]) || line_chunk(d[i]) is Some by {
            assert(d[i] == lines[i + 1]);
        }
        lemma_lines_accumulate_as_chunks(d);
        if !is_blank(lines[0]) {
            match line_chunk(lines[0]) {
                Some(c) => {
                    assert((seq![c] + line_chunks(d))[0] == c);
                    assert((seq![c] + line_chunks(d)).drop_first() =~= line_chunks(d));
                },
                None => {
                    assert(false);
                },
            }
        }
    }
}

fn line_is_blank(line: &[u8]) -> (r: bool)
    ensures
        r == is_blank(line@),
{
    let mut i: usize = 0;
    while i < line.len()
        invariant
            0 <= i <= line@.len(),
            forall|k: int| 0 <= k < i ==> is_ws(line@[k]),
        decreases line@.len() - i,
    {
        let b = line[i];
        if !(b == 32 || b == 9 || b == 13 || b == 10 || b == 12) {
            proof {
                assert(!is_ws(line@[i as int]));
            }
            return false;
        }
        i += 1;
    }
    true
}

/// Copies `body[from..to]` into a fresh vector.
fn copy_range(body: &[u8], from: usize, to: usize) -> (r: Vec<u8>)
    requires
        from <= to <= body@.len(),
    ensures
        r@ == body@.subrange(from as int, to as int),
{
    let mut r: Vec<u8> = Vec::new();
    let mut i: usize = from;
    while i < to
        invariant
            from <= i <= to <= body@.len(),
            r@ == body@.subrange(from as int, i as int),
        decreases to - i,
    {
        let b = body[i];
        r.push(b);
        proof {
            assert(r@ =~= body@.subrange(from as int, i as int + 1));
        }
        i += 1;
    }
    r
}

/// Splits a streaming body at line feeds.
pub fn split_lines(body: &[u8]) -> (r: Vec<Vec<u8>>)
    ensures
        lines_view(r@) == line_split(body@),
{
    let mut r: Vec<Vec<u8>> = Vec::new();
    proof {
        assert(body@.skip(0) =~= body@);
        assert(lines_view(r@) + line_split(body@) =~= line_split(body@));
    }
    let mut pos: usize = 0;
    while pos < body.len()
        invariant
            0 <= pos <= body@.len(),
            line_split(body@) == lines_view(r@) + line_split(body@.skip(pos as int)),
        decreases body@.len() - pos,
    {
        let mut j: usize = pos;
        while j < body.len() && body[j] != 10
            invariant
                pos <= j <= body@.len(),
                forall|k: int| pos <= k < j ==> body@[k] != 10u8,
            decreases body@.len() - j,
        {
            j += 1;
        }
        let ghost rest = body@.skip(pos as int);
        proof {
            assert forall|k: int| 0 <= k < j - pos implies rest[k] != 10u8 by {
                assert(rest[k] == body@[pos + k]);
            }
            if j < body@.len() {
                assert(rest[j as int - pos] == body@[j as int]);
            }
            lemma_first_nl_at(rest, j as int - pos);
        }
        let ghost old_lines = r@;
        let line = copy_range(body, pos, j);
        proof {
            assert(line@ =~= rest.take(j as int - pos));
        }
        r.push(line);
        proof {
            assert(lines_view(r@) =~= lines_view(old_lines) + seq![rest.take(j as int - pos)]);
        }
        if j == body.len() {
            proof {
                assert(rest.take(j as int - pos) =~= rest);
                assert(line_split(rest) =~= seq![rest]);
                assert(lines_view(r@) =~= line_split(body@));
            }
            return r;
        }
        proof {
            assert(line_split(rest) =~= seq![rest.take(j as int - pos)] + line_split(
                rest.skip(j as int - pos + 1),
            ));
            assert(rest.skip(j as int - pos + 1) =~= body@.skip(j as int + 1));
            assert(lines_view(old_lines) + line_split(rest) =~= lines_view(r@) + line_split(
                body@.skip(j as int + 1),
            ));
        }
        pos = j + 1;
    }
    proof {
        assert(body@.skip(pos as int) =~= Seq::<u8>::empty());
        assert(lines_view(r@) + line_split(Seq::<u8>::empty()) =~= lines_view(r@));
    }
    r
}

/// Accumulates a sequence of raw lines into the completion result.
pub fn accumulate_lines(lines: &Vec<Vec<u8>>) -> (r: Result<String, CompletionError>)
    ensures
        match accumulate_lines_spec(lines_view(lines@)) {
            Some(s) => r matches Ok(out) && out@ == s,
            None => r matches Err(e) && e is ParseError,
        },
{
    let ghost all = lines_view(lines@);
    let mut acc = String::new();
    proof {
        assert(all.skip(0) =~= all);
        match accumulate_lines_spec(all) {
            Some(s) => {
                assert(acc@ + s =~= s);
            },
            None => {},
        }
    }
    let mut i: usize = 0;
    while i < lines.len()
        invariant
            0 <= i <= lines.len(),
            all == lines_view(lines@),
            accumulate_lines_spec(all) == match accumulate_lines_spec(all.skip(i as int)) {
                Some(s) => Some(acc@ + s),
                None => None::<Seq<char>>,
            },
        decreases lines.len() - i,
    {
        proof {
            assert(all.skip(i as int)[0] == lines@[i as int]@);
            assert(all.skip(i as int).drop_first() =~= all.skip(i as int + 1));
        }
        let line = &lines[i];
        if !line_is_blank(line.as_slice()) {
            let text = wire::json_str_field(line.as_slice(), "response");
            let done = wire::json_bool_field(line.as_slice(), "done");
            match (text, done) {
                (Some(t), Some(d)) => {
                    proof {
                        match accumulate_lines_spec(all.skip(i as int + 1)) {
                            Some(rest) => {
                                assert((acc@ + t@) + rest =~= acc@ + (t@ + rest));
                            },
                            None => {},
                        }
                    }
                    wire::push_str(&mut acc, t.as_str());
                    if d {
                        return Ok(acc);
                    }
                },
                _ => {
                    return Err(CompletionError::ParseError);
                },
            }
        }
        i += 1;
    }
    proof {
        assert(all.skip(lines@.len() as int) =~= Seq::<Seq<u8>>::empty());
    }
    Ok(acc)
}

/// Accumulates a whole streaming body: splits it at line feeds and reads
/// the lines as chunks.
pub fn accumulate_body(body: &[u8]) -> (r: Result<String, CompletionError>)
    ensures
        match accumulate_lines_spec(line_split(body@)) {
            Some(s) => r matches Ok(out) && out@ == s,
            None => r matches Err(e) && e is ParseError,
        },
{
    let lines = split_lines(body);
    accumulate_lines(&lines)
}

} // verus!

