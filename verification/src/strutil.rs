//! Verified string transformations used when cleaning model output.
//!
//! The language model returns a candidate Cypher query that may carry
//! newlines and Markdown code fences.  Before the query is executed it is
//! normalized: newlines become spaces, every code-fence marker is removed,
//! and surrounding whitespace is trimmed.

use vstd::prelude::*;
use vstd::string::*;

verus! {

/// Relies on `String::push`: appends exactly one character at the end.
#[verifier::external_body]
pub(crate) fn push_char(s: &mut String, c: char)
    ensures
        final(s)@ == old(s)@.push(c),
{
    s.push(c);
}

/// The whitespace characters recognized when trimming model output: the
/// Unicode White_Space set, exactly what `str::trim` removes — the ASCII
/// controls TAB through CR, space, next line, no-break space, ogham space
/// mark, the space separators, the line and paragraph separators, the
/// narrow no-break and medium mathematical spaces, and ideographic space.
pub open spec fn is_space(c: char) -> bool {
    ||| (0x9 <= c as u32 && c as u32 <= 0xD)
    ||| c as u32 == 0x20
    ||| c as u32 == 0x85
    ||| c as u32 == 0xA0
    ||| c as u32 == 0x1680
    ||| (0x2000 <= c as u32 && c as u32 <= 0x200A)
    ||| c as u32 == 0x2028
    ||| c as u32 == 0x2029
    ||| c as u32 == 0x202F
    ||| c as u32 == 0x205F
    ||| c as u32 == 0x3000
}

/// Exec mirror of [`is_space`].
pub fn is_space_char(c: char) -> (r: bool)
    ensures
        r == is_space(c),
{
    let v = c as u32;
    (0x9 <= v && v <= 0xD) || v == 0x20 || v == 0x85 || v == 0xA0 || v == 0x1680 || (0x2000 <= v
        && v <= 0x200A) || v == 0x2028 || v == 0x2029 || v == 0x202F || v == 0x205F || v == 0x3000
}

/// Every newline replaced by a space.
pub open spec fn replace_newlines_spec(s: Seq<char>) -> Seq<char> {
    s.map_values(|c: char| if c == '\n' { ' ' } else { c })
}

/// The string with every occurrence of a leftmost code-fence marker
/// (three backticks) removed.
pub open spec fn strip_fences_spec(s: Seq<char>) -> Seq<char>
    decreases s.len(),
{
    if s.len() == 0 {
        s
    } else if s.len() >= 3 && s[0] == '`' && s[1] == '`' && s[2] == '`' {
        strip_fences_spec(s.skip(3))
    } else {
        seq![s[0]] + strip_fences_spec(s.skip(1))
    }
}

/// The string with leading whitespace removed.
pub open spec fn trim_start_spec(s: Seq<char>) -> Seq<char>
    decreases s.len(),
{
    if s.len() > 0 && is_space(s[0]) {
        trim_start_spec(s.skip(1))
    } else {
        s
    }
}

/// The string with trailing whitespace removed.
pub open spec fn trim_end_spec(s: Seq<char>) -> Seq<char>
    decreases s.len(),
{
    if s.len() > 0 && is_space(s[s.len() - 1]) {
        trim_end_spec(s.take(s.len() - 1))
    } else {
        s
    }
}

/// The string with surrounding whitespace removed.
pub open spec fn trim_spec(s: Seq<char>) -> Seq<char> {
    trim_end_spec(trim_start_spec(s))
}

/// The full normalization applied to model output before it is used as a
/// Cypher query: newlines to spaces, code fences out, then trim.
pub open spec fn clean_query_spec(s: Seq<char>) -> Seq<char> {
    trim_spec(strip_fences_spec(replace_newlines_spec(s)))
}

/// Builds a new string with every newline replaced by a space.
pub fn replace_newlines(s: &str) -> (r: String)
    ensures
        r@ == replace_newlines_spec(s@),
{
    let len = s.unicode_len();
    let mut out = String::new();
    let mut i: usize = 0;
    while i < len
        invariant
            i <= len,
            len == s@.len(),
            out@ == replace_newlines_spec(s@.take(i as int)),
        decreases len - i,
    {
        let c = s.get_char(i);
        let m = if c == '\n' { ' ' } else { c };
        push_char(&mut out, m);
        proof {
            assert(s@.take(i + 1 as int).map_values(|c: char| if c == '\n' { ' ' } else { c })
                =~= s@.take(i as int).map_values(|c: char| if c == '\n' { ' ' } else { c }).push(m));
        }
        i = i + 1;
    }
    proof {
        assert(s@.take(len as int) =~= s@);
    }
    out
}

/// Stitches one step of [`strip_fences_spec`]'s recursion onto a suffix.
proof fn lemma_strip_fences_step(s: Seq<char>, i: int)
    requires
        0 <= i < s.len(),
    ensures
        (s.len() >= i + 3 && s[i] == '`' && s[i + 1] == '`' && s[i + 2] == '`') ==> strip_fences_spec(
            s.skip(i),
        ) == strip_fences_spec(s.skip(i + 3)),
        !(s.len() >= i + 3 && s[i] == '`' && s[i + 1] == '`' && s[i + 2] == '`')
            ==> strip_fences_spec(s.skip(i)) == seq![s[i]] + strip_fences_spec(s.skip(i + 1)),
{
    let t = s.skip(i);
    assert(t.len() == s.len() - i);
    assert(t[0] == s[i]);
    if s.len() >= i + 3 && s[i] == '`' && s[i + 1] == '`' && s[i + 2] == '`' {
        assert(t[1] == s[i + 1]);
        assert(t[2] == s[i + 2]);
        assert(t.skip(3) =~= s.skip(i + 3));
    } else {
        if t.len() >= 3 {
            assert(t[1] == s[i + 1]);
            assert(t[2] == s[i + 2]);
        }
        assert(t.skip(1) =~= s.skip(i + 1));
    }
}

/// Builds a new string with every leftmost code-fence marker removed.
pub fn strip_fences(s: &str) -> (r: String)
    ensures
        r@ == strip_fences_spec(s@),
{
    let len = s.unicode_len();
    let mut out = String::new();
    let mut i: usize = 0;
    proof {
        assert(s@.skip(0) =~= s@);
        assert(out@ + strip_fences_spec(s@) =~= strip_fences_spec(s@));
    }
    while i < len
        invariant
            i <= len,
            len == s@.len(),
            strip_fences_spec(s@) == out@ + strip_fences_spec(s@.skip(i as int)),
        decreases len - i,
    {
        proof {
            lemma_strip_fences_step(s@, i as int);
        }
        if 2 < len - i && s.get_char(i) == '`' && s.get_char(i + 1) == '`' && s.get_char(i + 2)
            == '`' {
            i = i + 3;
        } else {
            let c = s.get_char(i);
            push_char(&mut out, c);
            proof {
                assert(out@ + strip_fences_spec(s@.skip(i + 1 as int)) =~= (out@.drop_last()
                    + (seq![s@[i as int]] + strip_fences_spec(s@.skip(i + 1 as int)))));
            }
            i = i + 1;
        }
    }
    proof {
        assert(s@.skip(len as int) =~= Seq::<char>::empty());
        assert(strip_fences_spec(Seq::<char>::empty()) =~= Seq::<char>::empty());
        assert(out@ + Seq::<char>::empty() =~= out@);
    }
    out
}

/// Identifies [`trim_start_spec`]'s result by the first non-space position.
proof fn lemma_trim_start_at(s: Seq<char>, i: int)
    requires
        0 <= i <= s.len(),
        forall|k: int| 0 <= k < i ==> is_space(s[k]),
        i < s.len() ==> !is_space(s[i]),
    ensures
        trim_start_spec(s) == s.skip(i),
    decreases i,
{
    if i == 0 {
        if s.len() > 0 && is_space(s[0]) {
            assert(false);
        }
        assert(s.skip(0) =~= s);
    } else {
        assert(is_space(s[0]));
        let t = s.skip(1);
        assert(forall|k: int| 0 <= k < i - 1 ==> t[k] == s[k + 1] && is_space(s[k + 1]));
        assert(i - 1 < t.len() ==> t[i - 1] == s[i]);
        lemma_trim_start_at(t, i - 1);
        assert(t.skip(i - 1) =~= s.skip(i));
    }
}

/// Identifies [`trim_end_spec`]'s result by the last non-space position.
proof fn lemma_trim_end_at(s: Seq<char>, j: int)
    requires
        0 <= j <= s.len(),
        forall|k: int| j <= k < s.len() ==> is_space(s[k]),
        j > 0 ==> !is_space(s[j - 1]),
    ensures
        trim_end_spec(s) == s.take(j),
    decreases s.len() - j,
{
    if j == s.len() {
        if s.len() > 0 && is_space(s[s.len() - 1]) {
            assert(false);
        }
        assert(s.take(s.len() as int) =~= s);
    } else {
        assert(is_space(s[s.len() - 1]));
        let t = s.take(s.len() - 1);
        assert(forall|k: int| j <= k < t.len() ==> t[k] == s[k] && is_space(s[k]));
        lemma_trim_end_at(t, j);
        assert(t.take(j) =~= s.take(j));
    }
}

/// Returns the string with surrounding whitespace removed.
pub fn trim_string(s: &str) -> (r: String)
    ensures
        r@ == trim_spec(s@),
{
    let len = s.unicode_len();
    let mut start: usize = 0;
    while start < len && is_space_char(s.get_char(start))
        invariant
            start <= len,
            len == s@.len(),
            forall|k: int| 0 <= k < start ==> is_space(s@[k]),
        decreases len - start,
    {
        start = start + 1;
    }
    let mut end: usize = len;
    while end > start && is_space_char(s.get_char(end - 1))
        invariant
            start <= end <= len,
            len == s@.len(),
            forall|k: int| end <= k < len ==> is_space(s@[k]),
        decreases end,
    {
        end = end - 1;
    }
    proof {
        lemma_trim_start_at(s@, start as int);
        let t = s@.skip(start as int);
        if end == start {
            assert(forall|k: int| 0 <= k < t.len() ==> is_space(t[k]));
            lemma_trim_end_at(t, 0);
        } else {
            assert(forall|k: int| end - start <= k < t.len() ==> is_space(t[k]));
            assert(t[end - start - 1] == s@[end - 1]);
            assert(!is_space(t[end - start - 1]));
            lemma_trim_end_at(t, end - start);
        }
        assert(t.take(end - start) =~= s@.subrange(start as int, end as int));
    }
    let r = s.substring_char(start, end);
    String::from_str(r)
}

/// Normalizes raw model output into an executable query string.
pub fn clean_query(s: &str) -> (r: String)
    ensures
        r@ == clean_query_spec(s@),
{
    let no_newlines = replace_newlines(s);
    let no_fences = strip_fences(no_newlines.as_str());
    trim_string(no_fences.as_str())
}

} // verus!
