//! Raw-text measurements of a source file.
//!
//! `loc` is the number of newline-delimited lines of the text (blank and
//! comment lines included), counted the way a trailing newline does not open
//! an extra empty line. A comment line is one whose first non-whitespace
//! characters are the line-comment marker `//`; block and multi-line
//! comments are not detected — a deliberate, documented limitation.

use vstd::prelude::*;

verus! {

/// Whitespace, as the `White_Space` character property defines it.
pub open spec fn is_ws_char(c: char) -> bool {
    c == '\u{9}' || c == '\u{A}' || c == '\u{B}' || c == '\u{C}' || c == '\u{D}' || c == ' ' || c
        == '\u{85}' || c == '\u{A0}' || c == '\u{1680}' || c == '\u{2000}' || c == '\u{2001}' || c
        == '\u{2002}' || c == '\u{2003}' || c == '\u{2004}' || c == '\u{2005}' || c == '\u{2006}'
        || c == '\u{2007}' || c == '\u{2008}' || c == '\u{2009}' || c == '\u{200A}' || c
        == '\u{2028}' || c == '\u{2029}' || c == '\u{202F}' || c == '\u{205F}' || c == '\u{3000}'
}

/// Number of newline characters in the text.
pub open spec fn newline_count(s: Seq<char>) -> nat
    decreases s.len(),
{
    if s.len() == 0 {
        0
    } else {
        (if s[0] == '\n' {
            1nat
        } else {
            0nat
        }) + newline_count(s.drop_first())
    }
}

/// Number of lines of the text: one per newline, plus one for a trailing
/// segment that does not end in a newline. The empty text has no lines.
pub open spec fn spec_line_count(s: Seq<char>) -> nat {
    newline_count(s) + (if s.len() > 0 && s[s.len() - 1] != '\n' {
        1nat
    } else {
        0nat
    })
}

/// Index of the first newline of the text, or its length if there is none.
pub open spec fn first_nl(s: Seq<char>) -> nat
    decreases s.len(),
{
    if s.len() == 0 {
        0
    } else if s[0] == '\n' {
        0
    } else {
        1 + first_nl(s.drop_first())
    }
}

/// The text with its leading whitespace removed.
pub open spec fn trimmed(s: Seq<char>) -> Seq<char>
    decreases s.len(),
{
    if s.len() > 0 && is_ws_char(s[0]) {
        trimmed(s.drop_first())
    } else {
        s
    }
}

/// Whether a line's first non-whitespace characters are `//`.
pub open spec fn spec_is_comment_line(s: Seq<char>) -> bool {
    trimmed(s).len() >= 2 && trimmed(s)[0] == '/' && trimmed(s)[1] == '/'
}

pub proof fn lemma_first_nl(s: Seq<char>)
    ensures
        first_nl(s) <= s.len(),
        first_nl(s) < s.len() ==> s[first_nl(s) as int] == '\n',
        forall|k: int| 0 <= k < first_nl(s) ==> s[k] != '\n',
    decreases s.len(),
{
    if s.len() > 0 && s[0] != '\n' {
        lemma_first_nl(s.drop_first());
        assert forall|k: int| 0 <= k < first_nl(s) implies s[k] != '\n' by {
            if k >= 1 {
                assert(s.drop_first()[k - 1] == s[k]);
            }
        }
    }
}

/// Number of comment lines of the text.
pub open spec fn spec_comment_count(s: Seq<char>) -> nat
    decreases s.len(),
    via spec_comment_count_decreases
{
    if s.len() == 0 {
        0
    } else {
        let j = first_nl(s) as int;
        if j == s.len() {
            if spec_is_comment_line(s) {
                1nat
            } else {
                0nat
            }
        } else {
            (if spec_is_comment_line(s.take(j)) {
                1nat
            } else {
                0nat
            }) + spec_comment_count(s.skip(j + 1))
        }
    }
}

#[via_fn]
proof fn spec_comment_count_decreases(s: Seq<char>) {
    lemma_first_nl(s);
}

/// There are never more newlines than characters, and strictly fewer when
/// the last character is not itself a newline.
proof fn lemma_newline_count_bounds(s: Seq<char>)
    ensures
        newline_count(s) <= s.len(),
        s.len() > 0 && s[s.len() - 1] != '\n' ==> newline_count(s) < s.len(),
    decreases s.len(),
{
    if s.len() > 0 {
        lemma_newline_count_bounds(s.drop_first());
        if s.len() >= 2 {
            assert(s.drop_first()[s.drop_first().len() - 1] == s[s.len() - 1]);
        }
    }
}

/// A text has no more lines than characters.
pub proof fn lemma_line_count_le(s: Seq<char>)
    ensures
        spec_line_count(s) <= s.len(),
{
    lemma_newline_count_bounds(s);
}

/// A text has no more comment lines than characters.
pub proof fn lemma_comment_count_le(s: Seq<char>)
    ensures
        spec_comment_count(s) <= s.len(),
    decreases s.len(),
{
    lemma_first_nl(s);
    if s.len() > 0 {
        let j = first_nl(s) as int;
        if j != s.len() {
            lemma_comment_count_le(s.skip(j + 1));
        }
    }
}

/// Whitespace test for one character.
fn is_ws(c: char) -> (r: bool)
    ensures
        r == is_ws_char(c),
{
    c == '\u{9}' || c == '\u{A}' || c == '\u{B}' || c == '\u{C}' || c == '\u{D}' || c == ' ' || c
        == '\u{85}' || c == '\u{A0}' || c == '\u{1680}' || c == '\u{2000}' || c == '\u{2001}' || c
        == '\u{2002}' || c == '\u{2003}' || c == '\u{2004}' || c == '\u{2005}' || c == '\u{2006}'
        || c == '\u{2007}' || c == '\u{2008}' || c == '\u{2009}' || c == '\u{200A}' || c
        == '\u{2028}' || c == '\u{2029}' || c == '\u{202F}' || c == '\u{205F}' || c == '\u{3000}'
}

/// Counts the lines of the text.
pub fn count_lines(content: &Vec<char>) -> (r: usize)
    ensures
        r == spec_line_count(content@),
{
    let n = content.len();
    let mut cnt: usize = 0;
    let mut i: usize = 0;
    proof {
        assert(content@.skip(0) =~= content@);
    }
    while i < n
        invariant
            n == content@.len(),
            0 <= i <= n,
            cnt <= i,
            cnt + newline_count(content@.skip(i as int)) == newline_count(content@),
        decreases n - i,
    {
        proof {
            assert(content@.skip(i as int)[0] == content@[i as int]);
            assert(content@.skip(i as int).drop_first() =~= content@.skip(i as int + 1));
        }
        if content[i] == '\n' {
            cnt = cnt + 1;
        }
        i = i + 1;
    }
    proof {
        assert(content@.skip(n as int) =~= Seq::<char>::empty());
        lemma_newline_count_bounds(content@);
    }
    if n > 0 && content[n - 1] != '\n' {
        cnt = cnt + 1;
    }
    cnt
}

/// Counts the comment lines of the text.
pub fn count_comments(content: &Vec<char>) -> (r: usize)
    ensures
        r == spec_comment_count(content@),
{
    let n = content.len();
    let mut cnt: usize = 0;
    let mut i: usize = 0;
    proof {
        assert(content@.skip(0) =~= content@);
    }
    while i < n
        invariant
            n == content@.len(),
            0 <= i <= n,
            cnt <= i,
            cnt + spec_comment_count(content@.skip(i as int)) == spec_comment_count(content@),
        decreases n - i,
    {
        let ghost line_start = content@.skip(i as int);
        // Find the end of the current line.
        let mut k: usize = i;
        while k < n && content[k] != '\n'
            invariant
                n == content@.len(),
                i <= k <= n,
                first_nl(line_start) == (k - i) + first_nl(content@.skip(k as int)),
                line_start == content@.skip(i as int),
            decreases n - k,
        {
            proof {
                assert(content@.skip(k as int)[0] == content@[k as int]);
                assert(content@.skip(k as int).drop_first() =~= content@.skip(k as int + 1));
            }
            k = k + 1;
        }
        proof {
            if k < n {
                assert(content@.skip(k as int)[0] == content@[k as int]);
            } else {
                assert(content@.skip(k as int) =~= Seq::<char>::empty());
            }
            assert(first_nl(line_start) == k - i);
        }
        let ghost seg = content@.subrange(i as int, k as int);
        // Skip the line's leading whitespace.
        let mut t: usize = i;
        while t < k && is_ws(content[t])
            invariant
                n == content@.len(),
                i <= t <= k <= n,
                seg == content@.subrange(i as int, k as int),
                trimmed(seg) == trimmed(content@.subrange(t as int, k as int)),
            decreases k - t,
        {
            proof {
                assert(content@.subrange(t as int, k as int)[0] == content@[t as int]);
                assert(content@.subrange(t as int, k as int).drop_first() =~= content@.subrange(
                    t as int + 1,
                    k as int,
                ));
            }
            t = t + 1;
        }
        let is_c = k - t >= 2 && content[t] == '/' && content[t + 1] == '/';
        proof {
            let tail = content@.subrange(t as int, k as int);
            if t < k {
                assert(!is_ws_char(tail[0]));
                assert(trimmed(tail) == tail);
                if k - t >= 2 {
                    assert(tail[0] == content@[t as int]);
                    assert(tail[1] == content@[t as int + 1]);
                }
            } else {
                assert(tail =~= Seq::<char>::empty());
            }
            assert(is_c == spec_is_comment_line(seg));
            // Relate the processed line to one unfolding of the spec count.
            lemma_first_nl(line_start);
            if k == n {
                assert(seg =~= line_start);
            } else {
                assert(seg =~= line_start.take(first_nl(line_start) as int));
                assert(line_start.skip(first_nl(line_start) as int + 1) =~= content@.skip(
                    k as int + 1,
                ));
            }
        }
        if is_c {
            cnt = cnt + 1;
        }
        if k < n {
            i = k + 1;
        } else {
            i = k;
        }
    }
    proof {
        assert(content@.skip(n as int) =~= Seq::<char>::empty());
    }
    cnt
}

} // verus!
