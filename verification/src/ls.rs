//! The pure half of directory listing: which entries are shown, in what
//! order, and how each line is formatted.
//!
//! The driver reads the directory and hands over one record per entry with
//! the plain facts the listing needs; this module hides dot-files unless
//! all entries are requested, sorts by name, and renders each line,
//! optionally with the long form's type, permissions, size and time
//! columns and the classify suffix.

use vstd::prelude::*;

use vstd::multiset::Multiset;
use vstd::seq_lib::{to_multiset_insert, to_multiset_remove};

use crate::perms::{perms_9_chars, spec_perms9};
use crate::text::{chars_to_string, lemma_lex_le_total, lemma_lex_le_trans, lex_le, push_dec,
    spec_dec, str_le, str_to_chars};

verus! {

/// What a listing needs to know of one directory entry.
pub struct EntryInfo {
    pub name: String,
    pub is_dir: bool,
    /// Unix permission bits.
    pub mode: u32,
    /// Size in bytes.
    pub size: u64,
    /// Modification time in seconds since the epoch, zero when unknown.
    pub mtime: u64,
}

/// Whether an entry is shown: dot-files are hidden unless all entries are
/// requested.
pub open spec fn visible(e: EntryInfo, show_all: bool) -> bool {
    show_all || e.name@.len() == 0 || e.name@[0] != '.'
}

/// The visible entries of a listing, in their original order.
pub open spec fn spec_visible(s: Seq<EntryInfo>, show_all: bool) -> Seq<EntryInfo>
    decreases s.len(),
{
    if s.len() == 0 {
        Seq::empty()
    } else if visible(s[0], show_all) {
        seq![s[0]] + spec_visible(s.drop_first(), show_all)
    } else {
        spec_visible(s.drop_first(), show_all)
    }
}

/// Entries in non-decreasing name order.
pub open spec fn sorted_names(s: Seq<EntryInfo>) -> bool {
    forall|i: int, j: int| 0 <= i < j < s.len() ==> lex_le(#[trigger] s[i].name@, #[trigger] s[j].name@)
}

/// Insert an entry into a name-sorted vector, keeping it sorted.
fn insert_sorted(out: &mut Vec<EntryInfo>, e: EntryInfo)
    requires
        sorted_names(old(out)@),
    ensures
        final(out)@.to_multiset() == old(out)@.to_multiset().insert(e),
        sorted_names(final(out)@),
{
    let n = out.len();
    let mut p: usize = 0;
    while p < n && str_le(out[p].name.as_str(), e.name.as_str())
        invariant
            p <= n,
            n == out@.len(),
            sorted_names(out@),
            forall|k: int| 0 <= k < p ==> lex_le(#[trigger] out@[k].name@, e.name@),
        decreases n - p,
    {
        p = p + 1;
    }
    proof {
        if p < n {
            lemma_lex_le_total(out@[p as int].name@, e.name@);
            assert(lex_le(e.name@, out@[p as int].name@));
        }
        assert forall|k: int| p <= k < n implies lex_le(e.name@, #[trigger] out@[k].name@) by {
            if k > p {
                lemma_lex_le_trans(e.name@, out@[p as int].name@, out@[k].name@);
            }
        }
    }
    let ghost pre = out@;
    out.insert(p, e);
    proof {
        to_multiset_insert(pre, p as int, e);
        pre.insert_ensures(p as int, e);
        assert forall|i: int, j: int| 0 <= i < j < out@.len() implies lex_le(
            #[trigger] out@[i].name@,
            #[trigger] out@[j].name@,
        ) by {
            let pi = p as int;
            if j < pi {
                assert(out@[i] == pre[i] && out@[j] == pre[j]);
            } else if i > pi {
                assert(out@[i] == pre[i - 1] && out@[j] == pre[j - 1]);
            } else if i < pi && j == pi {
                assert(out@[i] == pre[i] && out@[j] == e);
            } else if i == pi {
                assert(out@[i] == e && out@[j] == pre[j - 1]);
            } else {
                // i < p < j
                assert(out@[i] == pre[i] && out@[j] == pre[j - 1]);
            }
        }
    }
}

/// The visible entries of a listing, sorted by name. The result holds
/// exactly the entries that are shown, as a multiset, in non-decreasing
/// name order.
pub fn visible_sorted(entries: Vec<EntryInfo>, show_all: bool) -> (v: Vec<EntryInfo>)
    ensures
        v@.to_multiset() == spec_visible(entries@, show_all).to_multiset(),
        sorted_names(v@),
{
    let ghost orig = entries@;
    let mut input = entries;
    let mut out: Vec<EntryInfo> = Vec::new();
    proof {
        broadcast use vstd::multiset::group_multiset_axioms;
        broadcast use vstd::seq_lib::group_to_multiset_ensures;

        assert(out@.to_multiset() =~= Multiset::<EntryInfo>::empty());
        assert(out@.to_multiset().add(spec_visible(input@, show_all).to_multiset())
            =~= spec_visible(orig, show_all).to_multiset());
    }
    while input.len() > 0
        invariant
            sorted_names(out@),
            out@.to_multiset().add(spec_visible(input@, show_all).to_multiset()) == spec_visible(
                orig,
                show_all,
            ).to_multiset(),
        decreases input.len(),
    {
        proof {
            broadcast use vstd::multiset::group_multiset_axioms;

            to_multiset_remove(input@, 0);
        }
        let ghost inpre = input@;
        let e = input.remove(0);
        proof {
            broadcast use vstd::multiset::group_multiset_axioms;
            broadcast use vstd::seq_lib::group_to_multiset_ensures;

            assert(input@ =~= inpre.drop_first());
            if visible(e, show_all) {
                assert(spec_visible(inpre, show_all) == seq![e] + spec_visible(
                    input@,
                    show_all,
                ));
                vstd::seq_lib::lemma_multiset_commutative(seq![e], spec_visible(input@, show_all));
                assert(seq![e] =~= Seq::<EntryInfo>::empty().push(e));
                assert(Seq::<EntryInfo>::empty().to_multiset() =~= Multiset::<
                    EntryInfo,
                >::empty());
                assert(Seq::<EntryInfo>::empty().push(e).to_multiset() =~= Multiset::<
                    EntryInfo,
                >::empty().insert(e));
                assert(seq![e].to_multiset() =~= Multiset::<EntryInfo>::empty().insert(e));
            } else {
                assert(spec_visible(inpre, show_all) == spec_visible(input@, show_all));
            }
        }
        let show = if show_all {
            true
        } else {
            let nm = &e.name;
            if nm.as_str().unicode_len() == 0 {
                true
            } else {
                nm.as_str().get_char(0) != '.'
            }
        };
        if show {
            let ghost opre = out@;
            insert_sorted(&mut out, e);
            proof {
                broadcast use vstd::multiset::group_multiset_axioms;

                assert(out@.to_multiset().add(spec_visible(input@, show_all).to_multiset())
                    =~= spec_visible(orig, show_all).to_multiset());
            }
        } else {
            proof {
                broadcast use vstd::multiset::group_multiset_axioms;
            }
        }
    }
    proof {
        broadcast use vstd::multiset::group_multiset_axioms;
        broadcast use vstd::seq_lib::group_to_multiset_ensures;

        assert(spec_visible(input@, show_all).to_multiset() =~= Multiset::<EntryInfo>::empty());
        assert(out@.to_multiset().add(Multiset::<EntryInfo>::empty()) =~= out@.to_multiset());
    }
    out
}

/// The paths a listing walks: the arguments in order, or the current
/// directory alone when there are none.
pub fn ls_targets(args: &Vec<String>) -> (r: Vec<String>)
    ensures
        args.deep_view().len() == 0 ==> r.deep_view() == seq!["."@],
        args.deep_view().len() > 0 ==> r.deep_view() == args.deep_view(),
{
    let ghost adv = args.deep_view();
    proof {
        assert(adv.len() == args@.len()) by {
            assert(adv == Seq::new(args@.len(), |k: int| args@[k]@));
        }
    }
    let n = args.len();
    let mut r: Vec<String> = Vec::new();
    if n == 0 {
        r.push(String::from_str("."));
        proof {
            assert(r.deep_view() =~= seq!["."@]);
        }
        return r;
    }
    let mut i: usize = 0;
    while i < n
        invariant
            i <= n,
            n == args@.len(),
            adv == args.deep_view(),
            adv.len() == n,
            r.deep_view().len() == i,
            forall|k: int| 0 <= k < i ==> r.deep_view()[k] == adv[k],
        decreases n - i,
    {
        let ghost pre = r.deep_view();
        r.push(args[i].clone());
        proof {
            assert(r.deep_view() =~= pre.push(r@.last()@));
            assert(adv[i as int] == args@[i as int]@);
        }
        i = i + 1;
    }
    proof {
        assert(r.deep_view() =~= adv);
    }
    r
}

/// What frames the listing of one target among `count`: the `name:` header
/// printed above it when several targets are listed, and whether a blank
/// line separates it from the next one.
pub fn target_frame(target: &str, index: usize, count: usize) -> (r: (Option<String>, bool))
    requires
        index < count,
    ensures
        count > 1 ==> (r.0 matches Some(h) && h@ == target@ + ":"@),
        count <= 1 ==> r.0 is None,
        r.1 == (index + 1 < count),
{
    let header = if count > 1 {
        let mut h = target.to_owned();
        h.append(":");
        Some(h)
    } else {
        None
    };
    (header, index + 1 < count)
}

/// A decimal rendering right-aligned to eight columns.
pub open spec fn spec_pad8(s: Seq<char>) -> Seq<char> {
    if s.len() >= 8 {
        s
    } else {
        Seq::new((8 - s.len()) as nat, |i: int| ' ') + s
    }
}

/// The classify suffix of an entry: `/` for a directory, `*` for an
/// executable file, nothing otherwise.
pub open spec fn spec_suffix(e: EntryInfo, classify: bool) -> Seq<char> {
    if classify {
        if e.is_dir {
            seq!['/']
        } else if e.mode & 0o111u32 != 0 {
            seq!['*']
        } else {
            Seq::empty()
        }
    } else {
        Seq::empty()
    }
}

/// The long-form columns of an entry: type character, permissions, size
/// right-aligned to eight columns, and modification time in epoch seconds,
/// each column separated by one space.
pub open spec fn spec_long_prefix(e: EntryInfo) -> Seq<char> {
    seq![if e.is_dir { 'd' } else { '-' }] + spec_perms9(e.mode) + seq![' '] + spec_pad8(
        spec_dec(e.size as nat),
    ) + seq![' '] + spec_dec(e.mtime as nat) + seq![' ']
}

/// The full listing line of an entry.
pub open spec fn spec_format_entry(e: EntryInfo, long: bool, classify: bool) -> Seq<char> {
    (if long {
        spec_long_prefix(e)
    } else {
        Seq::empty()
    }) + e.name@ + spec_suffix(e, classify)
}

/// Render one listing line.
pub fn format_entry(e: &EntryInfo, long: bool, classify: bool) -> (r: String)
    ensures
        r@ == spec_format_entry(*e, long, classify),
{
    let mut line: Vec<char> = Vec::new();
    if long {
        line.push(if e.is_dir { 'd' } else { '-' });
        let mut perms = perms_9_chars(e.mode);
        line.append(&mut perms);
        line.push(' ');
        let ghost before_size = line@;
        let mut digits: Vec<char> = Vec::new();
        push_dec(e.size, &mut digits);
        let mut k = digits.len();
        proof {
            assert(line@ =~= before_size + Seq::new(0nat, |i: int| ' '));
        }
        while k < 8
            invariant
                digits@ == spec_dec(e.size as nat),
                k >= digits@.len(),
                k <= 8 || k == digits@.len(),
                line@ == before_size + Seq::new((k - digits@.len()) as nat, |i: int| ' '),
            decreases 8 - k,
        {
            line.push(' ');
            proof {
                assert(line@ =~= before_size + Seq::new(
                    (k + 1 - digits@.len()) as nat,
                    |i: int| ' ',
                ));
            }
            k = k + 1;
        }
        line.append(&mut digits);
        proof {
            assert(line@ =~= before_size + spec_pad8(spec_dec(e.size as nat)));
        }
        line.push(' ');
        let mut tdigits: Vec<char> = Vec::new();
        push_dec(e.mtime, &mut tdigits);
        line.append(&mut tdigits);
        line.push(' ');
    }
    let mut name_chars = str_to_chars(e.name.as_str());
    line.append(&mut name_chars);
    if classify {
        if e.is_dir {
            line.push('/');
        } else if e.mode & 0o111u32 != 0 {
            line.push('*');
        }
    }
    proof {
        assert(line@ =~= spec_format_entry(*e, long, classify));
    }
    chars_to_string(&line)
}

} // verus!
