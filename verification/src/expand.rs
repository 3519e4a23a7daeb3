//! Tilde and `$VAR` expansion of path-like arguments.
//!
//! A leading `~` is replaced by the home directory, and `$NAME` anywhere in
//! the string by the variable's value (empty when unset). The environment
//! is handed in as a table of name/value pairs, looked up first match
//! first, so the expansion itself is a pure function of its inputs.

use vstd::prelude::*;

use crate::text::{chars_to_string, str_to_chars};

verus! {

/// A snapshot of the environment variables, in lookup order.
pub struct Env {
    pub vars: Vec<(String, String)>,
}

/// First-match lookup in a name/value table.
pub open spec fn spec_lookup(env: Seq<(Seq<char>, Seq<char>)>, name: Seq<char>) -> Option<
    Seq<char>,
>
    decreases env.len(),
{
    if env.len() == 0 {
        None
    } else if env[0].0 == name {
        Some(env[0].1)
    } else {
        spec_lookup(env.drop_first(), name)
    }
}

impl Env {
    /// An empty environment.
    pub fn new() -> (e: Env)
        ensures
            e.vars.deep_view() == Seq::<(Seq<char>, Seq<char>)>::empty(),
    {
        let e = Env { vars: Vec::new() };
        proof {
            assert(e.vars.deep_view() =~= Seq::<(Seq<char>, Seq<char>)>::empty());
        }
        e
    }

    /// Add a variable at the end of the table.
    pub fn push(&mut self, name: String, value: String)
        ensures
            final(self).vars.deep_view() == old(self).vars.deep_view().push((name@, value@)),
    {
        let ghost pre = self.vars.deep_view();
        self.vars.push((name, value));
        proof {
            assert(self.vars.deep_view() =~= pre.push(
                (self.vars@.last().0@, self.vars@.last().1@),
            ));
        }
    }

    /// Look up a variable by name, first match first.
    pub fn lookup(&self, name: &str) -> (r: Option<String>)
        ensures
            match r {
                None => spec_lookup(self.vars.deep_view(), name@) is None,
                Some(v) => spec_lookup(self.vars.deep_view(), name@) == Some(v@),
            },
    {
        let ghost dv = self.vars.deep_view();
        proof {
            assert(dv.len() == self.vars@.len()) by {
                assert(dv == Seq::new(self.vars@.len(), |k: int| self.vars@[k].deep_view()));
            }
        }
        let n = self.vars.len();
        let mut i: usize = 0;
        proof {
            assert(dv.skip(0) =~= dv);
        }
        while i < n
            invariant
                i <= n,
                n == self.vars@.len(),
                dv == self.vars.deep_view(),
                dv.len() == n,
                spec_lookup(dv, name@) == spec_lookup(dv.skip(i as int), name@),
            decreases n - i,
        {
            proof {
                assert(dv[i as int] == self.vars@[i as int].deep_view());
                assert(dv.skip(i as int)[0] == dv[i as int]);
                assert(dv.skip(i as int).drop_first() =~= dv.skip(i + 1));
            }
            let entry = &self.vars[i];
            if crate::text::str_eq(entry.0.as_str(), name) {
                return Some(entry.1.clone());
            }
            i = i + 1;
        }
        proof {
            assert(dv.skip(n as int).len() == 0);
        }
        None
    }
}

/// The home directory drawn from the environment, with the filesystem root
/// as fallback.
pub open spec fn spec_home(env: Seq<(Seq<char>, Seq<char>)>) -> Seq<char> {
    match spec_lookup(env, "HOME"@) {
        Some(h) => h,
        None => "/"@,
    }
}

/// A leading `~` replaced by the home directory; anything else unchanged.
pub open spec fn spec_expand_tilde(s: Seq<char>, env: Seq<(Seq<char>, Seq<char>)>) -> Seq<char> {
    if s.len() > 0 && s[0] == '~' {
        spec_home(env) + s.skip(1)
    } else {
        s
    }
}

/// Whether a character can start a variable name.
pub open spec fn spec_is_var_start(c: char) -> bool {
    c == '_' || ('a' <= c && c <= 'z') || ('A' <= c && c <= 'Z')
}

/// Whether a character can continue a variable name.
pub open spec fn spec_is_var_char(c: char) -> bool {
    spec_is_var_start(c) || ('0' <= c && c <= '9')
}

/// Whether a character can start a variable name (`[A-Za-z_]`).
pub fn is_var_start(c: char) -> (r: bool)
    ensures
        r == spec_is_var_start(c),
{
    c == '_' || ('a' <= c && c <= 'z') || ('A' <= c && c <= 'Z')
}

/// Whether a character can continue a variable name (`[A-Za-z0-9_]`).
pub fn is_var_char(c: char) -> (r: bool)
    ensures
        r == spec_is_var_char(c),
{
    is_var_start(c) || ('0' <= c && c <= '9')
}

/// The first position at or after `k` that cannot continue a variable name.
pub open spec fn var_end(s: Seq<char>, k: int) -> int
    decreases s.len() - k,
{
    if 0 <= k < s.len() && spec_is_var_char(s[k]) {
        var_end(s, k + 1)
    } else {
        k
    }
}

proof fn lemma_var_end_bounds(s: Seq<char>, k: int)
    requires
        0 <= k <= s.len(),
    ensures
        k <= var_end(s, k) <= s.len(),
    decreases s.len() - k,
{
    if k < s.len() && spec_is_var_char(s[k]) {
        lemma_var_end_bounds(s, k + 1);
    }
}

/// The expansion of `s` from position `i` on: each `$NAME` is replaced by
/// the variable's value (empty when unset), a `$` that no name follows is
/// kept, and every other character is copied.
pub open spec fn spec_expand_vars(s: Seq<char>, env: Seq<(Seq<char>, Seq<char>)>, i: int) -> Seq<
    char,
>
    decreases s.len() - i,
    via spec_expand_vars_decreases
{
    if i < 0 || i >= s.len() {
        Seq::empty()
    } else if s[i] == '$' && i + 1 < s.len() && spec_is_var_start(s[i + 1]) {
        let j = var_end(s, i + 1);
        let name = s.subrange(i + 1, j);
        let val = match spec_lookup(env, name) {
            Some(v) => v,
            None => Seq::empty(),
        };
        val + spec_expand_vars(s, env, j)
    } else {
        seq![s[i]] + spec_expand_vars(s, env, i + 1)
    }
}

#[via_fn]
proof fn spec_expand_vars_decreases(s: Seq<char>, env: Seq<(Seq<char>, Seq<char>)>, i: int) {
    if 0 <= i < s.len() && s[i] == '$' && i + 1 < s.len() && spec_is_var_start(s[i + 1]) {
        lemma_var_end_bounds(s, i + 1);
    }
}

/// The full expansion of an argument: tilde replacement, then variable
/// substitution.
pub open spec fn spec_expand_one(s: Seq<char>, env: Seq<(Seq<char>, Seq<char>)>) -> Seq<char> {
    spec_expand_vars(spec_expand_tilde(s, env), env, 0)
}

/// Replace a leading `~` by the home directory.
fn expand_tilde(input: &str, env: &Env) -> (r: String)
    ensures
        r@ == spec_expand_tilde(input@, env.vars.deep_view()),
{
    let n = input.unicode_len();
    if n > 0 && input.get_char(0) == '~' {
        let mut home = match env.lookup("HOME") {
            Some(h) => h,
            None => String::from_str("/"),
        };
        let rest = input.substring_char(1, n);
        home.append(rest);
        proof {
            assert(input@.subrange(1, n as int) =~= input@.skip(1));
        }
        home
    } else {
        input.to_owned()
    }
}

/// Substitute `$NAME` occurrences by their values.
fn expand_vars(input: &str, env: &Env) -> (r: String)
    ensures
        r@ == spec_expand_vars(input@, env.vars.deep_view(), 0),
{
    let ghost s = input@;
    let ghost edv = env.vars.deep_view();
    let chars = str_to_chars(input);
    let n = chars.len();
    let mut out: Vec<char> = Vec::new();
    let mut i: usize = 0;
    proof {
        assert(out@ + spec_expand_vars(s, edv, 0) =~= spec_expand_vars(s, edv, 0));
    }
    while i < n
        invariant
            i <= n,
            n == s.len(),
            chars@ == s,
            edv == env.vars.deep_view(),
            out@ + spec_expand_vars(s, edv, i as int) == spec_expand_vars(s, edv, 0),
        decreases n - i,
    {
        let c = chars[i];
        if c == '$' && i + 1 < n && is_var_start(chars[i + 1]) {
            // scan the variable name
            let mut j: usize = i + 1;
            let mut name: Vec<char> = Vec::new();
            proof {
                lemma_var_end_bounds(s, i + 1);
                assert(name@ =~= s.subrange(i + 1, i + 1));
            }
            while j < n && is_var_char(chars[j])
                invariant
                    i + 1 <= j <= n,
                    n == s.len(),
                    chars@ == s,
                    name@ == s.subrange(i + 1, j as int),
                    var_end(s, i + 1) == var_end(s, j as int),
                decreases n - j,
            {
                name.push(chars[j]);
                proof {
                    assert(name@ =~= s.subrange(i + 1, j + 1));
                }
                j = j + 1;
            }
            proof {
                assert(var_end(s, j as int) == j as int);
                assert(var_end(s, i + 1) == j as int);
            }
            let name_str = chars_to_string(&name);
            let ghost opre = out@;
            match env.lookup(name_str.as_str()) {
                Some(v) => {
                    let mut vc = str_to_chars(v.as_str());
                    out.append(&mut vc);
                },
                None => {},
            }
            proof {
                let j0 = var_end(s, i + 1);
                assert(j0 == j as int);
                let val = match spec_lookup(edv, s.subrange(i + 1, j as int)) {
                    Some(v) => v,
                    None => Seq::<char>::empty(),
                };
                assert(out@ =~= opre + val);
                assert(spec_expand_vars(s, edv, i as int) == val + spec_expand_vars(
                    s,
                    edv,
                    j as int,
                ));
                assert(out@ + spec_expand_vars(s, edv, j as int) =~= opre + spec_expand_vars(
                    s,
                    edv,
                    i as int,
                ));
            }
            i = j;
        } else {
            out.push(c);
            proof {
                assert(spec_expand_vars(s, edv, i as int) == seq![s[i as int]] + spec_expand_vars(
                    s,
                    edv,
                    i + 1,
                ));
                assert(out@ + spec_expand_vars(s, edv, i + 1) =~= (out@.drop_last()
                    + spec_expand_vars(s, edv, i as int)));
            }
            i = i + 1;
        }
    }
    proof {
        assert(spec_expand_vars(s, edv, n as int) =~= Seq::<char>::empty());
        assert(out@ + Seq::<char>::empty() =~= out@);
    }
    chars_to_string(&out)
}

/// Expand a single path-like argument: a leading `~` becomes the home
/// directory, then every `$NAME` is replaced by its value.
pub fn expand_one(input: &str, env: &Env) -> (r: String)
    ensures
        r@ == spec_expand_one(input@, env.vars.deep_view()),
{
    let with_tilde = expand_tilde(input, env);
    expand_vars(with_tilde.as_str(), env)
}

/// Expand all arguments, returning a new vector.
pub fn expand_all(args: &Vec<String>, env: &Env) -> (r: Vec<String>)
    ensures
        r.deep_view() == Seq::new(
            args.deep_view().len(),
            |k: int| spec_expand_one(args.deep_view()[k], env.vars.deep_view()),
        ),
{
    let ghost adv = args.deep_view();
    let ghost edv = env.vars.deep_view();
    proof {
        assert(adv.len() == args@.len()) by {
            assert(adv == Seq::new(args@.len(), |k: int| args@[k]@));
        }
    }
    let n = args.len();
    let mut r: Vec<String> = Vec::new();
    let mut i: usize = 0;
    while i < n
        invariant
            i <= n,
            n == args@.len(),
            adv == args.deep_view(),
            adv.len() == n,
            edv == env.vars.deep_view(),
            r.deep_view().len() == i,
            forall|k: int| 0 <= k < i ==> r.deep_view()[k] == spec_expand_one(adv[k], edv),
        decreases n - i,
    {
        let ghost pre = r.deep_view();
        let e = expand_one(args[i].as_str(), env);
        r.push(e);
        proof {
            assert(r.deep_view() =~= pre.push(r@.last()@));
            assert(adv[i as int] == args@[i as int]@);
        }
        i = i + 1;
    }
    proof {
        assert(r.deep_view() =~= Seq::new(adv.len(), |k: int| spec_expand_one(adv[k], edv)));
    }
    r
}

} // verus!
