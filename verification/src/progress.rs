//! The progress-frame protocol.
//!
//! A pipeline run reports its stages to the consumer as an ordered sequence
//! of frames, one of seven tagged variants, each carrying one string.  A
//! well-formed sequence follows the ladder Status, Schema, CypherQuery,
//! CypherResult, any number of ModelOutputChunk frames, then exactly one
//! terminal frame (Result, or Error substituted at any point).  Each frame
//! travels as a single-key JSON object such as `{"Status":"..."}`; the
//! encoder here is verified against a character-level specification that
//! matches the JSON string-escaping rules.

use vstd::prelude::*;
use vstd::string::*;

use crate::strutil::push_char;

verus! {

/// One progress frame as sent to the consumer.
pub enum Progress {
    Status(String),
    Schema(String),
    CypherQuery(String),
    CypherResult(String),
    ModelOutputChunk(String),
    Result(String),
    Error(String),
}

/// The mathematical value of a frame: the same variant over a character
/// sequence.
pub enum ProgressV {
    Status(Seq<char>),
    Schema(Seq<char>),
    CypherQuery(Seq<char>),
    CypherResult(Seq<char>),
    ModelOutputChunk(Seq<char>),
    Result(Seq<char>),
    Error(Seq<char>),
}

impl View for Progress {
    type V = ProgressV;

    open spec fn view(&self) -> ProgressV {
        match self {
            Progress::Status(s) => ProgressV::Status(s@),
            Progress::Schema(s) => ProgressV::Schema(s@),
            Progress::CypherQuery(s) => ProgressV::CypherQuery(s@),
            Progress::CypherResult(s) => ProgressV::CypherResult(s@),
            Progress::ModelOutputChunk(s) => ProgressV::ModelOutputChunk(s@),
            Progress::Result(s) => ProgressV::Result(s@),
            Progress::Error(s) => ProgressV::Error(s@),
        }
    }
}

/// The views of a sequence of frames.
pub open spec fn frame_views(fs: Seq<Progress>) -> Seq<ProgressV> {
    fs.map_values(|f: Progress| f@)
}

/// The string carried by a frame.
pub open spec fn payload_of(f: ProgressV) -> Seq<char> {
    match f {
        ProgressV::Status(s) => s,
        ProgressV::Schema(s) => s,
        ProgressV::CypherQuery(s) => s,
        ProgressV::CypherResult(s) => s,
        ProgressV::ModelOutputChunk(s) => s,
        ProgressV::Result(s) => s,
        ProgressV::Error(s) => s,
    }
}

/// A frame's position in the protocol ladder.  Repetition is allowed only
/// at the chunk rank, and both terminal variants share the final rank.
pub open spec fn rank(f: ProgressV) -> int {
    match f {
        ProgressV::Status(_) => 0,
        ProgressV::Schema(_) => 1,
        ProgressV::CypherQuery(_) => 2,
        ProgressV::CypherResult(_) => 3,
        ProgressV::ModelOutputChunk(_) => 4,
        ProgressV::Result(_) => 5,
        ProgressV::Error(_) => 5,
    }
}

/// A terminal frame ends the run.
pub open spec fn is_terminal(f: ProgressV) -> bool {
    f is Result || f is Error
}

/// A well-formed emission: frame ranks never decrease, and a rank repeats
/// only for model-output chunks.  This is exactly the subsequence property:
/// the trace is a subsequence of Status, Schema, CypherQuery, CypherResult,
/// ModelOutputChunk*, terminal, and holds at most one terminal frame.
pub open spec fn wf_trace(t: Seq<ProgressV>) -> bool {
    &&& forall|i: int, j: int| 0 <= i < j < t.len() ==> rank(t[i]) <= rank(t[j])
    &&& forall|i: int, j: int|
        0 <= i < j < t.len() && rank(t[i]) == rank(t[j]) ==> t[i] is ModelOutputChunk
}

/// A completed run: well formed and closed by a terminal frame.
pub open spec fn complete_trace(t: Seq<ProgressV>) -> bool {
    wf_trace(t) && t.len() > 0 && is_terminal(t.last())
}

/// How many terminal frames a trace holds.
pub open spec fn terminal_count(t: Seq<ProgressV>) -> int
    decreases t.len(),
{
    if t.len() == 0 {
        0
    } else {
        terminal_count(t.drop_last()) + if is_terminal(t.last()) {
            1int
        } else {
            0int
        }
    }
}

/// A trace without terminal frames counts zero of them.
proof fn lemma_terminal_count_zero(t: Seq<ProgressV>)
    requires
        forall|i: int| 0 <= i < t.len() ==> !is_terminal(t[i]),
    ensures
        terminal_count(t) == 0,
    decreases t.len(),
{
    if t.len() > 0 {
        lemma_terminal_count_zero(t.drop_last());
    }
}

/// A completed well-formed trace holds exactly one terminal frame: the
/// closing one.
pub proof fn lemma_complete_trace_one_terminal(t: Seq<ProgressV>)
    requires
        complete_trace(t),
    ensures
        terminal_count(t) == 1,
{
    let p = t.drop_last();
    assert forall|i: int| 0 <= i < p.len() implies !is_terminal(p[i]) by {
        if is_terminal(p[i]) {
            assert(rank(t[i]) == 5);
            assert(rank(t[t.len() - 1]) == 5);
            assert(t[i] is ModelOutputChunk);
        }
    }
    lemma_terminal_count_zero(p);
}

/// The concatenated text of a run of chunk frames.
pub open spec fn chunk_concat(t: Seq<ProgressV>) -> Seq<char>
    decreases t.len(),
{
    if t.len() == 0 {
        Seq::empty()
    } else {
        chunk_concat(t.drop_last()) + payload_of(t.last())
    }
}

/// The JSON tag under which a frame's payload is sent.
pub open spec fn tag_of(f: ProgressV) -> Seq<char> {
    match f {
        ProgressV::Status(_) => "Status"@,
        ProgressV::Schema(_) => "Schema"@,
        ProgressV::CypherQuery(_) => "CypherQuery"@,
        ProgressV::CypherResult(_) => "CypherResult"@,
        ProgressV::ModelOutputChunk(_) => "ModelOutputChunk"@,
        ProgressV::Result(_) => "Result"@,
        ProgressV::Error(_) => "Error"@,
    }
}

/// The lower-case hexadecimal digit of a value below sixteen.
pub open spec fn hex_digit(n: int) -> char {
    if n == 0 {
        '0'
    } else if n == 1 {
        '1'
    } else if n == 2 {
        '2'
    } else if n == 3 {
        '3'
    } else if n == 4 {
        '4'
    } else if n == 5 {
        '5'
    } else if n == 6 {
        '6'
    } else if n == 7 {
        '7'
    } else if n == 8 {
        '8'
    } else if n == 9 {
        '9'
    } else if n == 10 {
        'a'
    } else if n == 11 {
        'b'
    } else if n == 12 {
        'c'
    } else if n == 13 {
        'd'
    } else if n == 14 {
        'e'
    } else {
        'f'
    }
}

/// How one character appears inside a JSON string literal: quote and
/// backslash get a backslash escape, the named control characters get their
/// short escapes, any other control character becomes a `\u00XX` sequence,
/// and everything else stands for itself.
pub open spec fn escape_char(c: char) -> Seq<char> {
    if c == '"' {
        seq!['\\', '"']
    } else if c == '\\' {
        seq!['\\', '\\']
    } else if c == '\n' {
        seq!['\\', 'n']
    } else if c == '\r' {
        seq!['\\', 'r']
    } else if c == '\t' {
        seq!['\\', 't']
    } else if c as u32 == 8 {
        seq!['\\', 'b']
    } else if c as u32 == 12 {
        seq!['\\', 'f']
    } else if (c as u32) < 32 {
        seq!['\\', 'u', '0', '0', hex_digit(c as u32 as int / 16), hex_digit(c as u32 as int % 16)]
    } else {
        seq![c]
    }
}

/// A whole string escaped for a JSON string literal.
pub open spec fn json_escape(s: Seq<char>) -> Seq<char>
    decreases s.len(),
{
    if s.len() == 0 {
        Seq::empty()
    } else {
        escape_char(s[0]) + json_escape(s.skip(1))
    }
}

/// Escaping distributes over concatenation.
proof fn lemma_json_escape_concat(a: Seq<char>, b: Seq<char>)
    ensures
        json_escape(a + b) == json_escape(a) + json_escape(b),
    decreases a.len(),
{
    if a.len() == 0 {
        assert(a + b =~= b);
        assert(json_escape(a) + json_escape(b) =~= json_escape(b));
    } else {
        assert((a + b).skip(1) =~= a.skip(1) + b);
        lemma_json_escape_concat(a.skip(1), b);
        assert(escape_char((a + b)[0]) + (json_escape(a.skip(1)) + json_escape(b))
            =~= (escape_char(a[0]) + json_escape(a.skip(1))) + json_escape(b));
    }
}

/// Escaping one more character extends the escaped prefix.
proof fn lemma_json_escape_snoc(s: Seq<char>, i: int)
    requires
        0 <= i < s.len(),
    ensures
        json_escape(s.take(i + 1)) == json_escape(s.take(i)) + escape_char(s[i]),
{
    assert(s.take(i + 1) =~= s.take(i) + seq![s[i]]);
    lemma_json_escape_concat(s.take(i), seq![s[i]]);
    assert(seq![s[i]].skip(1) =~= Seq::<char>::empty());
    assert(json_escape(seq![s[i]]) == escape_char(s[i]) + json_escape(Seq::<char>::empty()));
    assert(escape_char(s[i]) + Seq::<char>::empty() =~= escape_char(s[i]));
}

/// The JSON encoding of one frame: a single-key object whose key is the
/// variant tag and whose value is the escaped payload.
pub open spec fn frame_json(f: ProgressV) -> Seq<char> {
    "{\""@ + tag_of(f) + "\":\""@ + json_escape(payload_of(f)) + "\"}"@
}

/// Exec mirror of [`hex_digit`].
fn hex_digit_char(n: u32) -> (r: char)
    requires
        n < 16,
    ensures
        r == hex_digit(n as int),
{
    if n == 0 {
        '0'
    } else if n == 1 {
        '1'
    } else if n == 2 {
        '2'
    } else if n == 3 {
        '3'
    } else if n == 4 {
        '4'
    } else if n == 5 {
        '5'
    } else if n == 6 {
        '6'
    } else if n == 7 {
        '7'
    } else if n == 8 {
        '8'
    } else if n == 9 {
        '9'
    } else if n == 10 {
        'a'
    } else if n == 11 {
        'b'
    } else if n == 12 {
        'c'
    } else if n == 13 {
        'd'
    } else if n == 14 {
        'e'
    } else {
        'f'
    }
}

/// Appends one character's JSON escape to the output.
fn push_escaped(out: &mut String, c: char)
    ensures
        final(out)@ == old(out)@ + escape_char(c),
{
    if c == '"' {
        push_char(out, '\\');
        push_char(out, '"');
    } else if c == '\\' {
        push_char(out, '\\');
        push_char(out, '\\');
    } else if c == '\n' {
        push_char(out, '\\');
        push_char(out, 'n');
    } else if c == '\r' {
        push_char(out, '\\');
        push_char(out, 'r');
    } else if c == '\t' {
        push_char(out, '\\');
        push_char(out, 't');
    } else if c as u32 == 8 {
        push_char(out, '\\');
        push_char(out, 'b');
    } else if c as u32 == 12 {
        push_char(out, '\\');
        push_char(out, 'f');
    } else if (c as u32) < 32 {
        push_char(out, '\\');
        push_char(out, 'u');
        push_char(out, '0');
        push_char(out, '0');
        let hi = hex_digit_char((c as u32) / 16);
        push_char(out, hi);
        let lo = hex_digit_char((c as u32) % 16);
        push_char(out, lo);
        proof {
            assert(final(out)@ =~= old(out)@ + escape_char(c));
        }
    } else {
        push_char(out, c);
    }
    proof {
        assert(final(out)@ =~= old(out)@ + escape_char(c));
    }
}

/// Appends a whole string's JSON escape to the output.
fn push_json_escaped(out: &mut String, s: &str)
    ensures
        final(out)@ == old(out)@ + json_escape(s@),
{
    let len = s.unicode_len();
    let mut i: usize = 0;
    proof {
        assert(s@.take(0) =~= Seq::<char>::empty());
        assert(old(out)@ + json_escape(s@.take(0)) =~= old(out)@);
    }
    while i < len
        invariant
            i <= len,
            len == s@.len(),
            out@ == old(out)@ + json_escape(s@.take(i as int)),
        decreases len - i,
    {
        let c = s.get_char(i);
        push_escaped(out, c);
        proof {
            lemma_json_escape_snoc(s@, i as int);
            assert(out@ =~= old(out)@ + json_escape(s@.take(i + 1 as int)));
        }
        i = i + 1;
    }
    proof {
        assert(s@.take(len as int) =~= s@);
    }
}

impl Progress {
    /// The JSON text in which this frame is sent to the consumer.
    pub fn to_json(&self) -> (r: String)
        ensures
            r@ == frame_json(self@),
    {
        let (tag, payload): (&str, &String) = match self {
            Progress::Status(s) => ("Status", s),
            Progress::Schema(s) => ("Schema", s),
            Progress::CypherQuery(s) => ("CypherQuery", s),
            Progress::CypherResult(s) => ("CypherResult", s),
            Progress::ModelOutputChunk(s) => ("ModelOutputChunk", s),
            Progress::Result(s) => ("Result", s),
            Progress::Error(s) => ("Error", s),
        };
        let mut out = String::from_str("{\"");
        out.append(tag);
        out.append("\":\"");
        push_json_escaped(&mut out, payload.as_str());
        out.append("\"}");
        proof {
            assert(out@ =~= frame_json(self@));
        }
        out
    }
}

} // verus!
