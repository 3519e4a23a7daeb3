//! Permission-bit rendering for long directory listings.

use vstd::prelude::*;

use crate::text::chars_to_string;

verus! {

/// The nine-character permission string for Unix mode bits, user, group
/// and other, each as read/write/execute.
pub open spec fn spec_perms9(mode: u32) -> Seq<char> {
    seq![
        if mode & 0o400u32 != 0 { 'r' } else { '-' },
        if mode & 0o200u32 != 0 { 'w' } else { '-' },
        if mode & 0o100u32 != 0 { 'x' } else { '-' },
        if mode & 0o040u32 != 0 { 'r' } else { '-' },
        if mode & 0o020u32 != 0 { 'w' } else { '-' },
        if mode & 0o010u32 != 0 { 'x' } else { '-' },
        if mode & 0o004u32 != 0 { 'r' } else { '-' },
        if mode & 0o002u32 != 0 { 'w' } else { '-' },
        if mode & 0o001u32 != 0 { 'x' } else { '-' },
    ]
}

/// The permission characters for Unix mode bits, as a character vector.
pub fn perms_9_chars(mode: u32) -> (v: Vec<char>)
    ensures
        v@ == spec_perms9(mode),
{
    let mut v: Vec<char> = Vec::new();
    v.push(if mode & 0o400u32 != 0 { 'r' } else { '-' });
    v.push(if mode & 0o200u32 != 0 { 'w' } else { '-' });
    v.push(if mode & 0o100u32 != 0 { 'x' } else { '-' });
    v.push(if mode & 0o040u32 != 0 { 'r' } else { '-' });
    v.push(if mode & 0o020u32 != 0 { 'w' } else { '-' });
    v.push(if mode & 0o010u32 != 0 { 'x' } else { '-' });
    v.push(if mode & 0o004u32 != 0 { 'r' } else { '-' });
    v.push(if mode & 0o002u32 != 0 { 'w' } else { '-' });
    v.push(if mode & 0o001u32 != 0 { 'x' } else { '-' });
    proof {
        assert(v@ =~= spec_perms9(mode));
    }
    v
}

/// Build the permissions string like `rwxr-xr-x` from Unix mode bits.
pub fn perms_9(mode: u32) -> (r: String)
    ensures
        r@ == spec_perms9(mode),
{
    let v = perms_9_chars(mode);
    chars_to_string(&v)
}

/// Whether any execute bit (user, group or other) is set.
pub fn is_executable(mode: u32) -> (r: bool)
    ensures
        r == (mode & 0o111u32 != 0),
{
    mode & 0o111u32 != 0
}

} // verus!
