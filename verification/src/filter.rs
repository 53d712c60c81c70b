//! Removing comments from source text before declarations are looked for.
//!
//! Line comments go first: each runs from `//` to the end of its line, and
//! the line break stays. Block comments go next, one at a time from the
//! left: each runs from the first `/*` to the first `*/` behind its opening
//! slash. An opener that is never closed ends the work, and what is left
//! stays as it is.

use crate::text::{find_pair, find_pair_at, lemma_find_pair, string_of_range, to_chars};
use vstd::prelude::*;

verus! {

/// The text from `pos` on without its line comments; `in_comment` says
/// whether `pos` lies inside one.
pub open spec fn strip_line_comments(s: Seq<char>, pos: int, in_comment: bool) -> Seq<char>
    decreases s.len() - pos,
{
    if pos < 0 || pos >= s.len() {
        Seq::<char>::empty()
    } else if in_comment {
        if s[pos] == '\n' {
            seq!['\n'] + strip_line_comments(s, pos + 1, false)
        } else {
            strip_line_comments(s, pos + 1, true)
        }
    } else if s[pos] == '/' && pos + 1 < s.len() && s[pos + 1] == '/' {
        strip_line_comments(s, pos + 2, true)
    } else {
        seq![s[pos]] + strip_line_comments(s, pos + 1, false)
    }
}

/// Where the leftmost block comment of `s` opens (`s.len()` when no `/*`
/// occurs).
pub open spec fn block_open(s: Seq<char>) -> int {
    find_pair(s, '/', '*', 0)
}

/// Where the block comment that opens at `open` closes: the position of
/// the `*` of the first `*/` behind the opening slash (`s.len()` when it
/// is never closed).
pub open spec fn block_close(s: Seq<char>, open: int) -> int {
    find_pair(s, '*', '/', open + 1)
}

/// The text without its closed block comments.
pub open spec fn strip_block_comments(s: Seq<char>) -> Seq<char>
    decreases s.len(),
{
    let open = block_open(s);
    let close = block_close(s, open);
    if open >= s.len() || close >= s.len() {
        s
    } else {
        proof {
            lemma_find_pair(s, '/', '*', 0);
            lemma_find_pair(s, '*', '/', open + 1);
        }
        strip_block_comments(s.subrange(0, open) + s.subrange(close + 2, s.len() as int))
    }
}

/// The text without its comments.
pub open spec fn without_comments(s: Seq<char>) -> Seq<char> {
    strip_block_comments(strip_line_comments(s, 0, false))
}

/// Text that holds no `/` is left as it is.
pub proof fn lemma_plain_text_unchanged(s: Seq<char>)
    requires
        forall|k: int| 0 <= k < s.len() ==> s[k] != '/',
    ensures
        without_comments(s) == s,
{
    lemma_no_slash_no_line_comment(s, 0);
    assert(s.subrange(0, s.len() as int) =~= s);
    lemma_find_pair(s, '/', '*', 0);
}

proof fn lemma_no_slash_no_line_comment(s: Seq<char>, pos: int)
    requires
        0 <= pos <= s.len(),
        forall|k: int| 0 <= k < s.len() ==> s[k] != '/',
    ensures
        strip_line_comments(s, pos, false) == s.subrange(pos, s.len() as int),
    decreases s.len() - pos,
{
    if pos < s.len() {
        lemma_no_slash_no_line_comment(s, pos + 1);
        assert(seq![s[pos]] + s.subrange(pos + 1, s.len() as int) =~= s.subrange(
            pos,
            s.len() as int,
        ));
    } else {
        assert(s.subrange(pos, s.len() as int) =~= Seq::<char>::empty());
    }
}

/// An opener that is never closed keeps the text as it is from there on,
/// and everything before it too.
pub proof fn lemma_unclosed_block_stays(s: Seq<char>)
    requires
        block_open(s) < s.len(),
        block_close(s, block_open(s)) >= s.len(),
    ensures
        strip_block_comments(s) == s,
{
}

/// Whether `s` holds `//` nowhere.
pub open spec fn no_line_comment(s: Seq<char>) -> bool {
    forall|k: int| 0 <= k && k + 1 < s.len() ==> !(#[trigger] s[k] == '/' && s[k + 1] == '/')
}

/// Whether `s` holds no block comment that is closed.
pub open spec fn no_closed_block(s: Seq<char>) -> bool {
    block_open(s) >= s.len() || block_close(s, block_open(s)) >= s.len()
}

/// What is left of the text from `pos` on holds no `//`; and it starts
/// with the line break that ends a comment open at `pos`, or else with the
/// character at `pos`.
proof fn lemma_line_comments_gone(s: Seq<char>, pos: int, in_comment: bool)
    requires
        0 <= pos <= s.len(),
    ensures
        no_line_comment(strip_line_comments(s, pos, in_comment)),
        strip_line_comments(s, pos, in_comment).len() > 0 ==> pos < s.len()
            && strip_line_comments(s, pos, in_comment)[0] == (if in_comment || (s[pos] == '/' && pos
            + 1 < s.len() && s[pos + 1] == '/') {
            '\n'
        } else {
            s[pos]
        }),
    decreases s.len() - pos,
{
    let out = strip_line_comments(s, pos, in_comment);
    if pos < s.len() {
        if in_comment {
            if s[pos] == '\n' {
                lemma_line_comments_gone(s, pos + 1, false);
                let rest = strip_line_comments(s, pos + 1, false);
                assert forall|k: int| 0 <= k && k + 1 < out.len() implies !(#[trigger] out[k] == '/'
                    && out[k + 1] == '/') by {
                    if k > 0 {
                        assert(out[k] == rest[k - 1]);
                        assert(out[k + 1] == rest[k]);
                    }
                }
            } else {
                lemma_line_comments_gone(s, pos + 1, true);
            }
        } else if s[pos] == '/' && pos + 1 < s.len() && s[pos + 1] == '/' {
            lemma_line_comments_gone(s, pos + 2, true);
        } else {
            lemma_line_comments_gone(s, pos + 1, false);
            let rest = strip_line_comments(s, pos + 1, false);
            assert forall|k: int| 0 <= k && k + 1 < out.len() implies !(#[trigger] out[k] == '/'
                && out[k + 1] == '/') by {
                if k > 0 {
                    assert(out[k] == rest[k - 1]);
                    assert(out[k + 1] == rest[k]);
                } else {
                    assert(out[1] == rest[0]);
                }
            }
        }
    }
}

/// Removing block comments leaves none that is closed, and brings no `//`
/// into a text that held none.
proof fn lemma_block_comments_gone(s: Seq<char>)
    requires
        no_line_comment(s),
    ensures
        no_closed_block(strip_block_comments(s)),
        no_line_comment(strip_block_comments(s)),
    decreases s.len(),
{
    let open = block_open(s);
    let close = block_close(s, open);
    lemma_find_pair(s, '/', '*', 0);
    if open < s.len() {
        lemma_find_pair(s, '*', '/', open + 1);
        if close < s.len() {
            let rest = s.subrange(0, open) + s.subrange(close + 2, s.len() as int);
            assert forall|k: int| 0 <= k && k + 1 < rest.len() implies !(#[trigger] rest[k] == '/'
                && rest[k + 1] == '/') by {
                if k + 1 < open {
                    assert(rest[k] == s[k] && rest[k + 1] == s[k + 1]);
                } else if k + 1 == open {
                    assert(rest[k] == s[k]);
                    assert(s[k + 1] == '/');
                } else {
                    let shift = close + 2 - open;
                    assert(rest[k] == s[k + shift] && rest[k + 1] == s[k + shift + 1]);
                }
            }
            lemma_block_comments_gone(rest);
        }
    }
}

/// The text without its comments holds no `//` and no block comment that
/// is closed.
pub proof fn lemma_no_comment_is_left(s: Seq<char>)
    ensures
        no_line_comment(without_comments(s)),
        no_closed_block(without_comments(s)),
{
    lemma_line_comments_gone(s, 0, false);
    lemma_block_comments_gone(strip_line_comments(s, 0, false));
}

fn remove_line_comments(v: &Vec<char>) -> (out: Vec<char>)
    ensures
        out@ == strip_line_comments(v@, 0, false),
{
    let mut out: Vec<char> = Vec::new();
    let mut i: usize = 0;
    let mut in_comment = false;
    while i < v.len()
        invariant
            i <= v.len(),
            strip_line_comments(v@, 0, false) == out@ + strip_line_comments(
                v@,
                i as int,
                in_comment,
            ),
        decreases v.len() - i,
    {
        let ghost before = out@;
        let c = v[i];
        if in_comment {
            if c == '\n' {
                out.push(c);
                in_comment = false;
                assert(before + (seq!['\n'] + strip_line_comments(v@, i + 1, false)) =~= out@
                    + strip_line_comments(v@, i + 1, false));
            }
            i += 1;
        } else if c == '/' && i + 1 < v.len() && v[i + 1] == '/' {
            in_comment = true;
            i += 2;
        } else {
            out.push(c);
            assert(before + (seq![c] + strip_line_comments(v@, i + 1, false)) =~= out@
                + strip_line_comments(v@, i + 1, false));
            i += 1;
        }
    }
    assert(out@ + Seq::<char>::empty() =~= out@);
    out
}

/// The text `v` without the span `from..to`.
fn without_span(v: &Vec<char>, from: usize, to: usize) -> (out: Vec<char>)
    requires
        from <= to <= v.len(),
    ensures
        out@ == v@.subrange(0, from as int) + v@.subrange(to as int, v@.len() as int),
{
    let mut out: Vec<char> = Vec::new();
    let mut i: usize = 0;
    while i < from
        invariant
            i <= from <= v.len(),
            out@ == v@.subrange(0, i as int),
        decreases from - i,
    {
        out.push(v[i]);
        i += 1;
        assert(out@ =~= v@.subrange(0, i as int));
    }
    let mut j: usize = to;
    while j < v.len()
        invariant
            to <= j <= v.len(),
            out@ == v@.subrange(0, from as int) + v@.subrange(to as int, j as int),
        decreases v.len() - j,
    {
        out.push(v[j]);
        j += 1;
        assert(out@ =~= v@.subrange(0, from as int) + v@.subrange(to as int, j as int));
    }
    out
}

fn remove_block_comments(v: Vec<char>) -> (out: Vec<char>)
    ensures
        out@ == strip_block_comments(v@),
{
    let mut cur = v;
    loop
        invariant
            strip_block_comments(v@) == strip_block_comments(cur@),
        decreases cur.len(),
    {
        let open = find_pair_at(&cur, '/', '*', 0);
        if open >= cur.len() {
            return cur;
        }
        let close = find_pair_at(&cur, '*', '/', open + 1);
        if close >= cur.len() {
            return cur;
        }
        proof {
            lemma_find_pair(cur@, '*', '/', open + 1);
        }
        cur = without_span(&cur, open, close + 2);
    }
}

/// Removes the comments from `text`.
pub fn filter_comments(text: &str) -> (out: String)
    ensures
        out@ == without_comments(text@),
        no_line_comment(out@),
        no_closed_block(out@),
{
    proof {
        lemma_no_comment_is_left(text@);
    }
    let v = to_chars(text);
    let lines = remove_line_comments(&v);
    let blocks = remove_block_comments(lines);
    let out = string_of_range(&blocks, 0, blocks.len());
    assert(blocks@.subrange(0, blocks@.len() as int) =~= blocks@);
    out
}

} // verus!
