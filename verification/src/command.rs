//! Grouping of tokens into a structured command.
//!
//! The first token names the command. Every later token that starts with `-`
//! and has more than one character contributes its characters after the dash
//! to the flag list, in encounter order and without deduplication; every
//! other token is a positional argument. A bare `-` is an argument. A
//! command's name is never empty: a line whose first token is the explicit
//! empty token is rejected like a blank line.

use vstd::prelude::*;

use crate::text::str_to_chars;
use crate::tokenizer::{spec_tokenize, tokenize_chars};

verus! {

/// A parsed command: its name, its positional arguments in input order, and
/// the flag characters gathered from all dash-prefixed tokens.
pub struct Command {
    pub name: String,
    pub args: Vec<String>,
    pub flags: Vec<char>,
}

/// A token that contributes flag characters: it starts with `-` and has at
/// least one character after it.
pub open spec fn is_flag_token(t: Seq<char>) -> bool {
    t.len() > 1 && t[0] == '-'
}

/// The positional arguments among a list of tokens, in order.
pub open spec fn args_of(toks: Seq<Seq<char>>) -> Seq<Seq<char>>
    decreases toks.len(),
{
    if toks.len() == 0 {
        Seq::empty()
    } else if is_flag_token(toks[0]) {
        args_of(toks.drop_first())
    } else {
        seq![toks[0]] + args_of(toks.drop_first())
    }
}

/// The flag characters contributed by a list of tokens, in order.
pub open spec fn flags_of(toks: Seq<Seq<char>>) -> Seq<char>
    decreases toks.len(),
{
    if toks.len() == 0 {
        Seq::empty()
    } else if is_flag_token(toks[0]) {
        toks[0].skip(1) + flags_of(toks.drop_first())
    } else {
        flags_of(toks.drop_first())
    }
}

/// What it means for a command to be the parse of a token list whose first
/// token is non-empty; in particular the command's name is never empty.
pub open spec fn parses_to(toks: Seq<Seq<char>>, c: Command) -> bool {
    &&& toks.len() > 0
    &&& toks[0].len() > 0
    &&& c.name@ == toks[0]
    &&& c.name@.len() > 0
    &&& c.args.deep_view() == args_of(toks.skip(1))
    &&& c.flags@ == flags_of(toks.skip(1))
}

/// Group a list of tokens into a command; `None` when there are no tokens
/// or the would-be name is the empty token.
pub fn parse_tokens(tokens: &Vec<String>) -> (r: Option<Command>)
    ensures
        match r {
            None => tokens.deep_view().len() == 0 || tokens.deep_view()[0].len() == 0,
            Some(c) => parses_to(tokens.deep_view(), c),
        },
{
    let ghost dv = tokens.deep_view();
    proof {
        assert(dv.len() == tokens@.len()) by {
            assert(dv == Seq::new(tokens@.len(), |k: int| tokens@[k]@));
        }
        if tokens@.len() > 0 {
            assert(dv[0] == tokens@[0]@);
        }
    }
    let n = tokens.len();
    if n == 0 {
        return None;
    }
    if tokens[0].as_str().unicode_len() == 0 {
        return None;
    }
    let name = tokens[0].clone();
    let mut args: Vec<String> = Vec::new();
    let mut flags: Vec<char> = Vec::new();
    let mut i: usize = 1;
    proof {
        assert(args.deep_view() =~= Seq::<Seq<char>>::empty());
        assert(args.deep_view() + args_of(dv.skip(1)) =~= args_of(dv.skip(1)));
        assert(flags@ + flags_of(dv.skip(1)) =~= flags_of(dv.skip(1)));
    }
    while i < n
        invariant
            1 <= i <= n,
            n == tokens@.len(),
            dv == tokens.deep_view(),
            dv.len() == n,
            args.deep_view() + args_of(dv.skip(i as int)) == args_of(dv.skip(1)),
            flags@ + flags_of(dv.skip(i as int)) == flags_of(dv.skip(1)),
        decreases n - i,
    {
        proof {
            assert(dv[i as int] == tokens@[i as int]@);
            assert(dv.skip(i as int)[0] == dv[i as int]);
            assert(dv.skip(i as int).drop_first() =~= dv.skip(i + 1));
        }
        let tok = &tokens[i];
        let tlen = tok.as_str().unicode_len();
        if tlen > 1 && tok.as_str().get_char(0) == '-' {
            let ghost fpre = flags@;
            let mut j: usize = 1;
            proof {
                assert(fpre + dv[i as int].subrange(1, 1) =~= fpre);
            }
            while j < tlen
                invariant
                    1 <= j <= tlen,
                    tlen == tok@.len(),
                    tok@ == dv.skip(i as int)[0],
                    flags@ == fpre + dv.skip(i as int)[0].subrange(1, j as int),
                decreases tlen - j,
            {
                flags.push(tok.as_str().get_char(j));
                proof {
                    assert(flags@ =~= fpre + dv.skip(i as int)[0].subrange(1, j + 1));
                }
                j = j + 1;
            }
            proof {
                assert(dv.skip(i as int)[0].subrange(1, tlen as int) =~= dv.skip(
                    i as int,
                )[0].skip(1));
                assert(flags@ + flags_of(dv.skip(i + 1)) =~= fpre + (dv.skip(i as int)[0].skip(1)
                    + flags_of(dv.skip(i + 1))));
            }
        } else {
            let ghost apre = args.deep_view();
            proof {
                assert(!is_flag_token(dv.skip(i as int)[0]));
            }
            args.push(tok.clone());
            proof {
                assert(args.deep_view() =~= apre.push(dv[i as int]));
                assert(apre.push(dv[i as int]) + args_of(dv.skip(i + 1)) =~= apre + (seq![
                    dv[i as int],
                ] + args_of(dv.skip(i + 1))));
            }
        }
        i = i + 1;
    }
    proof {
        assert(dv.skip(n as int).len() == 0);
        assert(args.deep_view() + Seq::<Seq<char>>::empty() =~= args.deep_view());
        assert(flags@ + Seq::<char>::empty() =~= flags@);
    }
    Some(Command { name, args, flags })
}

/// Parse a raw input line: tokenize it and group the tokens. A line with
/// no tokens, or whose first token is the empty token, is skipped.
pub fn parse_command(line: &str) -> (r: Option<Command>)
    ensures
        match r {
            None => spec_tokenize(line@).len() == 0 || spec_tokenize(line@)[0].len() == 0,
            Some(c) => parses_to(spec_tokenize(line@), c),
        },
{
    let chars = str_to_chars(line);
    let tokens = tokenize_chars(&chars);
    parse_tokens(&tokens)
}

/// A bare `-` token is classified as a positional argument: it appears among
/// the parsed args, and the parsed flags are the same as if the token were
/// absent, so it never contributes to flags.
pub proof fn lemma_bare_dash_is_argument(toks: Seq<Seq<char>>, i: int)
    requires
        1 <= i < toks.len(),
        toks[i] == seq!['-'],
    ensures
        args_of(toks.skip(1)).contains(toks[i]),
        flags_of(toks.skip(1)) == flags_of(toks.skip(1).remove(i - 1)),
{
    assert(!is_flag_token(toks[i]));
    assert(toks.skip(1)[i - 1] == toks[i]);
    lemma_non_flag_token(toks.skip(1), i - 1);
}

proof fn lemma_non_flag_token(rest: Seq<Seq<char>>, k: int)
    requires
        0 <= k < rest.len(),
        !is_flag_token(rest[k]),
    ensures
        args_of(rest).contains(rest[k]),
        flags_of(rest) == flags_of(rest.remove(k)),
    decreases rest.len(),
{
    if k == 0 {
        assert(args_of(rest)[0] == rest[0]);
        assert(rest.remove(0) =~= rest.drop_first());
    } else {
        lemma_non_flag_token(rest.drop_first(), k - 1);
        assert(rest.drop_first()[k - 1] == rest[k]);
        assert(rest.remove(k).drop_first() =~= rest.drop_first().remove(k - 1));
        assert(rest.remove(k)[0] == rest[0]);
        // membership lifts across the prepended head
        let sub = args_of(rest.drop_first());
        let w = choose|w: int| 0 <= w < sub.len() && sub[w] == rest[k];
        if is_flag_token(rest[0]) {
            assert(args_of(rest)[w] == rest[k]);
        } else {
            assert(args_of(rest) == seq![rest[0]] + sub);
            assert(args_of(rest)[w + 1] == rest[k]);
        }
    }
}

} // verus!
