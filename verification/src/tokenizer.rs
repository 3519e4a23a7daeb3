//! Quote-aware tokenization of an input line.
//!
//! Spaces and tabs outside double quotes separate tokens, and runs of them
//! collapse; a double quote toggles "inside quotes" mode, in which they are
//! literal; a quote pair that opens and immediately closes produces an empty
//! token, the only way one arises; a line that ends inside quotes is accepted
//! and any partial token is flushed.

use vstd::prelude::*;

use crate::text::{chars_to_string, is_blank, spec_join_space, str_to_chars};

verus! {

/// The tokens produced from `s` when the characters before position `i` have
/// already been folded into `toks` (finished tokens), `cur` (the partial
/// token) and `inq` (whether position `i` lies inside quotes).
pub open spec fn tok_from(
    s: Seq<char>,
    i: int,
    toks: Seq<Seq<char>>,
    cur: Seq<char>,
    inq: bool,
) -> Seq<Seq<char>>
    decreases s.len() - i,
{
    if i < 0 || i >= s.len() {
        if cur.len() > 0 {
            toks.push(cur)
        } else {
            toks
        }
    } else {
        let c = s[i];
        if c == '"' {
            if inq && cur.len() == 0 {
                tok_from(s, i + 1, toks.push(Seq::empty()), cur, false)
            } else {
                tok_from(s, i + 1, toks, cur, !inq)
            }
        } else if is_blank(c) && !inq {
            if cur.len() > 0 {
                tok_from(s, i + 1, toks.push(cur), Seq::empty(), inq)
            } else {
                tok_from(s, i + 1, toks, cur, inq)
            }
        } else {
            tok_from(s, i + 1, toks, cur.push(c), inq)
        }
    }
}

/// The sequence of tokens of a raw input line.
pub open spec fn spec_tokenize(s: Seq<char>) -> Seq<Seq<char>> {
    tok_from(s, 0, Seq::empty(), Seq::empty(), false)
}

/// Split a vector of characters into tokens, respecting double quotes.
pub fn tokenize_chars(chars: &Vec<char>) -> (r: Vec<String>)
    ensures
        r.deep_view() == spec_tokenize(chars@),
{
    let n = chars.len();
    let mut toks: Vec<String> = Vec::new();
    let mut cur: Vec<char> = Vec::new();
    let mut inq = false;
    let mut i: usize = 0;
    proof {
        assert(toks.deep_view() =~= Seq::<Seq<char>>::empty());
    }
    while i < n
        invariant
            n == chars@.len(),
            i <= n,
            spec_tokenize(chars@) == tok_from(chars@, i as int, toks.deep_view(), cur@, inq),
        decreases n - i,
    {
        let ghost pre = toks.deep_view();
        let c = chars[i];
        if c == '"' {
            if inq && cur.len() == 0 {
                toks.push(String::new());
                proof {
                    assert(toks.deep_view() =~= pre.push(Seq::empty()));
                }
                inq = false;
            } else {
                inq = !inq;
            }
        } else if (c == ' ' || c == '\t') && !inq {
            if cur.len() > 0 {
                let t = chars_to_string(&cur);
                toks.push(t);
                proof {
                    assert(toks.deep_view() =~= pre.push(cur@));
                }
                cur = Vec::new();
            }
        } else {
            cur.push(c);
        }
        i = i + 1;
    }
    if cur.len() > 0 {
        let ghost pre = toks.deep_view();
        let t = chars_to_string(&cur);
        toks.push(t);
        proof {
            assert(toks.deep_view() =~= pre.push(cur@));
        }
    }
    toks
}

/// Split a raw input line into tokens, respecting double quotes.
pub fn tokenize(input: &str) -> (r: Vec<String>)
    ensures
        r.deep_view() == spec_tokenize(input@),
{
    let chars = str_to_chars(input);
    tokenize_chars(&chars)
}

/// A line of only spaces and tabs yields no tokens.
///
/// This is half of the guarantee that blank input is skipped; the shell's
/// line handling turns "no tokens" into a fresh prompt.
pub proof fn lemma_blank_line_has_no_tokens(s: Seq<char>)
    requires
        forall|i: int| 0 <= i < s.len() ==> is_blank(#[trigger] s[i]),
    ensures
        spec_tokenize(s).len() == 0,
{
    lemma_blank_from(s, 0, Seq::empty());
}

proof fn lemma_blank_from(s: Seq<char>, i: int, toks: Seq<Seq<char>>)
    requires
        0 <= i <= s.len(),
        forall|j: int| i <= j < s.len() ==> is_blank(#[trigger] s[j]),
    ensures
        tok_from(s, i, toks, Seq::empty(), false) == toks,
    decreases s.len() - i,
{
    if i < s.len() {
        lemma_blank_from(s, i + 1, toks);
    }
}

/// The characters of `s` that survive tokenization: everything but
/// separators and quote characters.
pub open spec fn content(s: Seq<char>) -> Seq<char>
    decreases s.len(),
{
    if s.len() == 0 {
        Seq::empty()
    } else if is_blank(s.last()) || s.last() == '"' {
        content(s.drop_last())
    } else {
        content(s.drop_last()).push(s.last())
    }
}

/// The characters of `s` other than spaces and tabs.
pub open spec fn strip_blanks(s: Seq<char>) -> Seq<char>
    decreases s.len(),
{
    if s.len() == 0 {
        Seq::empty()
    } else if is_blank(s.last()) {
        strip_blanks(s.drop_last())
    } else {
        strip_blanks(s.drop_last()).push(s.last())
    }
}

proof fn lemma_strip_blanks_add(a: Seq<char>, b: Seq<char>)
    ensures
        strip_blanks(a + b) == strip_blanks(a) + strip_blanks(b),
    decreases b.len(),
{
    if b.len() == 0 {
        assert(a + b =~= a);
        assert(strip_blanks(a) + strip_blanks(b) =~= strip_blanks(a));
    } else {
        assert((a + b).drop_last() =~= a + b.drop_last());
        assert((a + b).last() == b.last());
        lemma_strip_blanks_add(a, b.drop_last());
        if !is_blank(b.last()) {
            assert((strip_blanks(a) + strip_blanks(b.drop_last())).push(b.last()) =~= strip_blanks(
                a,
            ) + strip_blanks(b.drop_last()).push(b.last()));
        }
    }
}

proof fn lemma_content_add(a: Seq<char>, b: Seq<char>)
    ensures
        content(a + b) == content(a) + content(b),
    decreases b.len(),
{
    if b.len() == 0 {
        assert(a + b =~= a);
        assert(content(a) + content(b) =~= content(a));
    } else {
        assert((a + b).drop_last() =~= a + b.drop_last());
        assert((a + b).last() == b.last());
        lemma_content_add(a, b.drop_last());
        if !(is_blank(b.last()) || b.last() == '"') {
            assert((content(a) + content(b.drop_last())).push(b.last()) =~= content(a) + content(
                b.drop_last(),
            ).push(b.last()));
        }
    }
}

/// The non-separator content of a token list, in order.
pub open spec fn tokens_content(toks: Seq<Seq<char>>) -> Seq<char>
    decreases toks.len(),
{
    if toks.len() == 0 {
        Seq::empty()
    } else {
        strip_blanks(toks[0]) + tokens_content(toks.drop_first())
    }
}

proof fn lemma_tokens_content_push(toks: Seq<Seq<char>>, x: Seq<char>)
    ensures
        tokens_content(toks.push(x)) == tokens_content(toks) + strip_blanks(x),
    decreases toks.len(),
{
    if toks.len() == 0 {
        assert(toks.push(x)[0] == x);
        assert(toks.push(x).drop_first() =~= Seq::<Seq<char>>::empty());
        assert(tokens_content(Seq::<Seq<char>>::empty()) =~= Seq::<char>::empty());
        assert(toks =~= Seq::<Seq<char>>::empty());
        assert(tokens_content(toks.push(x)) =~= strip_blanks(x) + Seq::<char>::empty());
        assert(strip_blanks(x) + Seq::<char>::empty() =~= strip_blanks(x));
        assert(Seq::<char>::empty() + strip_blanks(x) =~= strip_blanks(x));
    } else {
        assert(toks.push(x).drop_first() =~= toks.drop_first().push(x));
        lemma_tokens_content_push(toks.drop_first(), x);
        assert(toks.push(x)[0] == toks[0]);
        assert(strip_blanks(toks[0]) + (tokens_content(toks.drop_first()) + strip_blanks(x)) =~= (
        strip_blanks(toks[0]) + tokens_content(toks.drop_first())) + strip_blanks(x));
    }
}

/// Joining tokens with single spaces and then dropping separators leaves
/// exactly the tokens' own non-separator characters.
proof fn lemma_join_strip(toks: Seq<Seq<char>>)
    ensures
        strip_blanks(spec_join_space(toks)) == tokens_content(toks),
    decreases toks.len(),
{
    if toks.len() == 0 {
    } else if toks.len() == 1 {
        assert(toks.drop_first().len() == 0);
        assert(strip_blanks(toks[0]) + tokens_content(toks.drop_first()) =~= strip_blanks(
            toks[0],
        ));
    } else {
        lemma_join_strip(toks.drop_first());
        lemma_strip_blanks_add(toks[0] + seq![' '], spec_join_space(toks.drop_first()));
        lemma_strip_blanks_add(toks[0], seq![' ']);
        assert(seq![' '].drop_last() =~= Seq::<char>::empty());
        assert(strip_blanks(Seq::<char>::empty()) =~= Seq::<char>::empty());
        assert(strip_blanks(seq![' ']) =~= Seq::<char>::empty());
        assert(strip_blanks(toks[0]) + Seq::<char>::empty() =~= strip_blanks(toks[0]));
    }
}

proof fn lemma_tok_from_content(s: Seq<char>, i: int, toks: Seq<Seq<char>>, cur: Seq<char>, inq: bool)
    requires
        0 <= i <= s.len(),
    ensures
        tokens_content(tok_from(s, i, toks, cur, inq)) == tokens_content(toks) + strip_blanks(cur)
            + content(s.skip(i)),
    decreases s.len() - i, 1int,
{
    if i >= s.len() {
        assert(s.skip(i) =~= Seq::<char>::empty());
        if cur.len() > 0 {
            lemma_tokens_content_push(toks, cur);
        }
        assert(tokens_content(toks) + strip_blanks(cur) + Seq::<char>::empty() =~= tokens_content(
            toks,
        ) + strip_blanks(cur));
    } else {
        let c = s[i];
        assert(s.skip(i) =~= seq![c] + s.skip(i + 1));
        lemma_content_add(seq![c], s.skip(i + 1));
        assert(seq![c].drop_last() =~= Seq::<char>::empty());
        lemma_tok_from_content_step(s, i, toks, cur, inq);
    }
}

proof fn lemma_tok_from_content_step(
    s: Seq<char>,
    i: int,
    toks: Seq<Seq<char>>,
    cur: Seq<char>,
    inq: bool,
)
    requires
        0 <= i < s.len(),
        content(s.skip(i)) == content(seq![s[i]]) + content(s.skip(i + 1)),
    ensures
        tokens_content(tok_from(s, i, toks, cur, inq)) == tokens_content(toks) + strip_blanks(cur)
            + content(s.skip(i)),
    decreases s.len() - i, 0int,
{
    let c = s[i];
    assert(content(Seq::<char>::empty()) =~= Seq::<char>::empty());
    assert(strip_blanks(Seq::<char>::empty()) =~= Seq::<char>::empty());
    assert(seq![c].drop_last() =~= Seq::<char>::empty());
    if c == '"' {
        assert(content(seq![c]) =~= Seq::<char>::empty());
        assert(content(s.skip(i)) =~= content(s.skip(i + 1)));
        if inq && cur.len() == 0 {
            lemma_tok_from_content(s, i + 1, toks.push(Seq::empty()), cur, false);
            lemma_tokens_content_push(toks, Seq::empty());
            assert(strip_blanks(Seq::<char>::empty()) =~= Seq::<char>::empty());
            assert(tokens_content(toks.push(Seq::empty())) =~= tokens_content(toks));
        } else {
            lemma_tok_from_content(s, i + 1, toks, cur, !inq);
        }
    } else if is_blank(c) && !inq {
        assert(content(seq![c]) =~= Seq::<char>::empty());
        assert(content(s.skip(i)) =~= content(s.skip(i + 1)));
        if cur.len() > 0 {
            lemma_tok_from_content(s, i + 1, toks.push(cur), Seq::empty(), inq);
            lemma_tokens_content_push(toks, cur);
            assert(strip_blanks(Seq::<char>::empty()) =~= Seq::<char>::empty());
            assert((tokens_content(toks) + strip_blanks(cur)) + Seq::<char>::empty() + content(
                s.skip(i + 1),
            ) =~= tokens_content(toks) + strip_blanks(cur) + content(s.skip(i)));
        } else {
            lemma_tok_from_content(s, i + 1, toks, cur, inq);
        }
    } else {
        lemma_tok_from_content(s, i + 1, toks, cur.push(c), inq);
        assert(cur.push(c).drop_last() =~= cur);
        assert(cur.push(c).last() == c);
        if is_blank(c) {
            // only reachable inside quotes: the character joins the token but
            // is separator content on both sides
            assert(strip_blanks(cur.push(c)) =~= strip_blanks(cur));
            assert(content(seq![c]) =~= Seq::<char>::empty());
            assert(tokens_content(toks) + strip_blanks(cur) + content(s.skip(i + 1))
                =~= tokens_content(toks) + strip_blanks(cur) + content(s.skip(i)));
        } else {
            assert(strip_blanks(cur.push(c)) =~= strip_blanks(cur).push(c));
            assert(content(seq![c]) =~= seq![c]);
            assert(tokens_content(toks) + strip_blanks(cur).push(c) + content(s.skip(i + 1))
                =~= tokens_content(toks) + strip_blanks(cur) + (seq![c] + content(s.skip(i + 1))));
        }
    }
}

/// Content preservation of tokenization: rejoining the tokens of any line
/// with single spaces reproduces the line's non-separator, non-quote
/// characters exactly, in order. Whitespace runs are normalized away on both
/// sides, so this is content equality, not byte-for-byte reproduction.
pub proof fn lemma_tokenize_rejoin_content(s: Seq<char>)
    ensures
        strip_blanks(spec_join_space(spec_tokenize(s))) == content(s),
{
    lemma_join_strip(spec_tokenize(s));
    lemma_tok_from_content(s, 0, Seq::empty(), Seq::empty(), false);
    assert(s.skip(0) =~= s);
    assert(strip_blanks(Seq::<char>::empty()) =~= Seq::<char>::empty());
    assert(Seq::<char>::empty() + Seq::<char>::empty() + content(s) =~= content(s));
}

} // verus!
