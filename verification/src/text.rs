//! Character-level string helpers shared by the tokenizer, the parser and
//! the formatting code: conversions between `&str` and `Vec<char>`, string
//! equality and lexicographic comparison, joining, trimming and decimal
//! formatting.

use vstd::prelude::*;

verus! {

/// The characters the tokenizer treats as separators outside quotes.
pub open spec fn is_blank(c: char) -> bool {
    c == ' ' || c == '\t'
}

/// The characters stripped from both ends of an input line before parsing.
pub open spec fn is_line_ws(c: char) -> bool {
    c == ' ' || c == '\t' || c == '\n' || c == '\r'
}

/// Collect the characters of a string slice into a vector.
pub fn str_to_chars(s: &str) -> (r: Vec<char>)
    ensures
        r@ == s@,
{
    let n = s.unicode_len();
    let mut r: Vec<char> = Vec::new();
    let mut i: usize = 0;
    while i < n
        invariant
            n == s@.len(),
            i <= n,
            r@ == s@.take(i as int),
        decreases n - i,
    {
        r.push(s.get_char(i));
        proof {
            assert(r@ =~= s@.take(i + 1));
        }
        i = i + 1;
    }
    proof {
        assert(s@.take(n as int) =~= s@);
    }
    r
}

/// Relies on `String`'s `FromIterator<char>` implementation (`collect`):
/// the string built from an iterator of characters holds exactly those
/// characters in order.
#[verifier::external_body]
pub fn chars_to_string(v: &Vec<char>) -> (r: String)
    ensures
        r@ == v@,
{
    v.iter().collect()
}

/// Whether a vector of characters holds the given character.
pub fn contains_char(v: &Vec<char>, c: char) -> (r: bool)
    ensures
        r == v@.contains(c),
{
    let n = v.len();
    let mut i: usize = 0;
    while i < n
        invariant
            n == v@.len(),
            i <= n,
            forall|j: int| 0 <= j < i ==> v@[j] != c,
        decreases n - i,
    {
        if v[i] == c {
            return true;
        }
        i = i + 1;
    }
    false
}

/// Character-by-character equality of two string slices.
pub fn str_eq(a: &str, b: &str) -> (r: bool)
    ensures
        r <==> a@ == b@,
{
    let na = a.unicode_len();
    let nb = b.unicode_len();
    if na != nb {
        proof {
            assert(a@ != b@) by {
                assert(a@.len() != b@.len());
            }
        }
        return false;
    }
    let mut i: usize = 0;
    while i < na
        invariant
            na == a@.len(),
            na == b@.len(),
            i <= na,
            forall|j: int| 0 <= j < i ==> a@[j] == b@[j],
        decreases na - i,
    {
        if a.get_char(i) != b.get_char(i) {
            return false;
        }
        i = i + 1;
    }
    proof {
        assert(a@ =~= b@);
    }
    true
}

/// A line stripped of leading and trailing whitespace.
pub open spec fn spec_trim(s: Seq<char>) -> Seq<char>
    decreases s.len(),
{
    if s.len() == 0 {
        s
    } else if is_line_ws(s[0]) {
        spec_trim(s.drop_first())
    } else if is_line_ws(s.last()) {
        spec_trim(s.drop_last())
    } else {
        s
    }
}

/// Trimming a line of nothing but whitespace leaves nothing.
pub proof fn lemma_trim_all_ws(s: Seq<char>)
    requires
        forall|i: int| 0 <= i < s.len() ==> is_line_ws(#[trigger] s[i]),
    ensures
        spec_trim(s).len() == 0,
    decreases s.len(),
{
    if s.len() > 0 {
        assert(forall|i: int|
            0 <= i < s.drop_first().len() ==> is_line_ws(#[trigger] s.drop_first()[i]));
        lemma_trim_all_ws(s.drop_first());
    }
}

/// Strip leading and trailing whitespace (spaces, tabs, carriage returns
/// and newlines) from a line of input.
pub fn trim_line(s: &str) -> (r: Vec<char>)
    ensures
        r@ == spec_trim(s@),
{
    let mut v = str_to_chars(s);
    let ghost orig = s@;
    while v.len() > 0 && is_line_ws_exec(v[0])
        invariant
            spec_trim(v@) == spec_trim(orig),
        decreases v.len(),
    {
        let ghost pre = v@;
        v.remove(0);
        proof {
            assert(v@ =~= pre.drop_first());
        }
    }
    while v.len() > 0 && is_line_ws_exec(v[v.len() - 1])
        invariant
            spec_trim(v@) == spec_trim(orig),
            v@.len() > 0 ==> !is_line_ws(v@[0]),
        decreases v.len(),
    {
        let ghost pre = v@;
        v.pop();
        proof {
            assert(v@ =~= pre.drop_last());
        }
    }
    proof {
        if v@.len() > 0 {
            assert(spec_trim(v@) == v@);
        }
    }
    v
}

/// Executable test for the whitespace characters stripped from line ends.
pub fn is_line_ws_exec(c: char) -> (r: bool)
    ensures
        r == is_line_ws(c),
{
    c == ' ' || c == '\t' || c == '\n' || c == '\r'
}

/// The tokens joined with a single space between consecutive tokens.
pub open spec fn spec_join_space(toks: Seq<Seq<char>>) -> Seq<char>
    decreases toks.len(),
{
    if toks.len() == 0 {
        Seq::empty()
    } else if toks.len() == 1 {
        toks[0]
    } else {
        toks[0] + seq![' '] + spec_join_space(toks.drop_first())
    }
}

/// Join strings with a single space between consecutive elements.
pub fn join_space(items: &Vec<String>) -> (r: String)
    ensures
        r@ == spec_join_space(items.deep_view()),
{
    let ghost dv = items.deep_view();
    let mut r = String::new();
    let n = items.len();
    let mut i: usize = 0;
    proof {
        assert(dv.len() == n) by {
            assert(dv == Seq::new(items@.len(), |k: int| items@[k]@));
        }
        assert(dv.skip(0) =~= dv);
        assert(r@ + spec_join_space(dv) =~= spec_join_space(dv));
    }
    while i < n
        invariant
            dv == items.deep_view(),
            dv.len() == n,
            n == items@.len(),
            i <= n,
            r@ + spec_join_space(dv.skip(i as int)) == spec_join_space(dv),
        decreases n - i,
    {
        proof {
            assert(dv[i as int] == items@[i as int]@);
            if i + 1 < n {
                assert(dv.skip(i as int).drop_first() =~= dv.skip(i + 1));
                assert(spec_join_space(dv.skip(i as int)) == dv[i as int] + seq![' ']
                    + spec_join_space(dv.skip(i + 1)));
            } else {
                assert(dv.skip(i as int).len() == 1);
                assert(dv.skip(i as int)[0] == dv[i as int]);
                assert(spec_join_space(dv.skip(i as int)) == dv[i as int]);
                assert(dv.skip(i + 1).len() == 0);
            }
        }
        let ghost r_old = r@;
        r.append(items[i].as_str());
        if i + 1 < n {
            r.append(" ");
            proof {
                reveal_strlit(" ");
                assert(" "@ =~= seq![' ']);
                assert(r@ =~= r_old + dv[i as int] + seq![' ']);
                assert(r@ + spec_join_space(dv.skip(i + 1)) =~= r_old + spec_join_space(
                    dv.skip(i as int),
                ));
            }
        } else {
            proof {
                assert(r@ =~= r_old + dv[i as int]);
                assert(r@ + spec_join_space(dv.skip(i + 1)) =~= r_old + spec_join_space(
                    dv.skip(i as int),
                ));
            }
        }
        i = i + 1;
    }
    proof {
        assert(dv.skip(n as int).len() == 0);
        assert(r@ + Seq::<char>::empty() =~= r@);
    }
    r
}

/// The character for a single decimal digit.
pub open spec fn digit_char(d: nat) -> char {
    if d == 0 {
        '0'
    } else if d == 1 {
        '1'
    } else if d == 2 {
        '2'
    } else if d == 3 {
        '3'
    } else if d == 4 {
        '4'
    } else if d == 5 {
        '5'
    } else if d == 6 {
        '6'
    } else if d == 7 {
        '7'
    } else if d == 8 {
        '8'
    } else {
        '9'
    }
}

/// The decimal rendering of a natural number, most significant digit first.
pub open spec fn spec_dec(n: nat) -> Seq<char>
    decreases n,
{
    if n < 10 {
        seq![digit_char(n)]
    } else {
        spec_dec(n / 10).push(digit_char(n % 10))
    }
}

/// The character for one digit below ten.
fn digit_char_exec(d: u64) -> (c: char)
    requires
        d < 10,
    ensures
        c == digit_char(d as nat),
{
    if d == 0 {
        '0'
    } else if d == 1 {
        '1'
    } else if d == 2 {
        '2'
    } else if d == 3 {
        '3'
    } else if d == 4 {
        '4'
    } else if d == 5 {
        '5'
    } else if d == 6 {
        '6'
    } else if d == 7 {
        '7'
    } else if d == 8 {
        '8'
    } else {
        '9'
    }
}

pub(crate) fn push_dec(n: u64, out: &mut Vec<char>)
    ensures
        final(out)@ == old(out)@ + spec_dec(n as nat),
    decreases n,
{
    if n < 10 {
        out.push(digit_char_exec(n));
        proof {
            assert(out@ =~= old(out)@ + spec_dec(n as nat));
        }
    } else {
        push_dec(n / 10, out);
        out.push(digit_char_exec(n % 10));
        proof {
            assert(out@ =~= old(out)@ + spec_dec(n as nat));
        }
    }
}

/// Render an unsigned integer in decimal.
pub fn u64_to_dec(n: u64) -> (r: String)
    ensures
        r@ == spec_dec(n as nat),
{
    let mut v: Vec<char> = Vec::new();
    push_dec(n, &mut v);
    proof {
        assert(v@ =~= spec_dec(n as nat));
    }
    chars_to_string(&v)
}

/// Lexicographic order on character sequences, decided from position `i` on;
/// characters compare by code point.
pub open spec fn lex_le_from(a: Seq<char>, b: Seq<char>, i: int) -> bool
    decreases a.len() - i,
{
    if i < 0 {
        lex_le_from(a, b, 0)
    } else if i >= a.len() {
        true
    } else if i >= b.len() {
        false
    } else if a[i] == b[i] {
        lex_le_from(a, b, i + 1)
    } else {
        a[i] < b[i]
    }
}

/// Lexicographic "less than or equal" on character sequences.
pub open spec fn lex_le(a: Seq<char>, b: Seq<char>) -> bool {
    lex_le_from(a, b, 0)
}

/// Lexicographic order is total.
pub proof fn lemma_lex_le_total(a: Seq<char>, b: Seq<char>)
    ensures
        lex_le(a, b) || lex_le(b, a),
{
    lemma_lex_le_total_from(a, b, 0);
}

proof fn lemma_lex_le_total_from(a: Seq<char>, b: Seq<char>, i: int)
    requires
        0 <= i,
    ensures
        lex_le_from(a, b, i) || lex_le_from(b, a, i),
    decreases a.len() - i,
{
    if i >= a.len() || i >= b.len() {
    } else if a[i] == b[i] {
        lemma_lex_le_total_from(a, b, i + 1);
    }
}

/// Lexicographic order is transitive.
pub proof fn lemma_lex_le_trans(a: Seq<char>, b: Seq<char>, c: Seq<char>)
    requires
        lex_le(a, b),
        lex_le(b, c),
    ensures
        lex_le(a, c),
{
    lemma_lex_le_trans_from(a, b, c, 0);
}

proof fn lemma_lex_le_trans_from(a: Seq<char>, b: Seq<char>, c: Seq<char>, i: int)
    requires
        0 <= i,
        lex_le_from(a, b, i),
        lex_le_from(b, c, i),
    ensures
        lex_le_from(a, c, i),
    decreases a.len() - i,
{
    if i >= a.len() {
    } else {
        assert(i < b.len());
        assert(i < c.len());
        if a[i] == b[i] && b[i] == c[i] {
            lemma_lex_le_trans_from(a, b, c, i + 1);
        }
    }
}

/// Decide lexicographic order of two strings.
pub fn str_le(a: &str, b: &str) -> (r: bool)
    ensures
        r == lex_le(a@, b@),
{
    let na = a.unicode_len();
    let nb = b.unicode_len();
    let mut i: usize = 0;
    loop
        invariant
            na == a@.len(),
            nb == b@.len(),
            0 <= i <= na,
            i <= nb,
            lex_le(a@, b@) == lex_le_from(a@, b@, i as int),
        decreases na - i,
    {
        if i >= na {
            return true;
        }
        if i >= nb {
            return false;
        }
        let ca = a.get_char(i);
        let cb = b.get_char(i);
        if ca != cb {
            return ca < cb;
        }
        i = i + 1;
    }
}

} // verus!
