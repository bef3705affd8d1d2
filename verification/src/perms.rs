//! Decoding POSIX permission bits into the nine-character `rwx` display
//! string, and parsing such a string back into bits.
//!
//! Only the low nine bits of a mode value matter here; the file-type bits
//! above them are masked away, so the rendering is lossy above `0o777`.

use vstd::prelude::*;
use vstd::string::StringExecFns;
use vstd::string::StrSliceExecFns;

verus! {

/// The nine display characters of a mode value: owner, group, other,
/// each as read/write/execute, with `-` for a cleared bit.
pub open spec fn perm_seq(mode: u32) -> Seq<char> {
    seq![
        if mode & 0o400 != 0 { 'r' } else { '-' },
        if mode & 0o200 != 0 { 'w' } else { '-' },
        if mode & 0o100 != 0 { 'x' } else { '-' },
        if mode & 0o040 != 0 { 'r' } else { '-' },
        if mode & 0o020 != 0 { 'w' } else { '-' },
        if mode & 0o010 != 0 { 'x' } else { '-' },
        if mode & 0o004 != 0 { 'r' } else { '-' },
        if mode & 0o002 != 0 { 'w' } else { '-' },
        if mode & 0o001 != 0 { 'x' } else { '-' },
    ]
}

/// Render the permission bits of `mode` as the nine-character string,
/// e.g. `0o755` becomes `rwxr-xr-x`. Total over all mode values; bits
/// above the low nine are ignored.
pub fn format_permissions(mode: u32) -> (r: String)
    ensures
        r@ == perm_seq(mode),
        r@.len() == 9,
{
    proof {
        reveal_strlit("r");
        reveal_strlit("w");
        reveal_strlit("x");
        reveal_strlit("-");
    }
    let mut s = String::new();
    s.append(if mode & 0o400 != 0 { "r" } else { "-" });
    s.append(if mode & 0o200 != 0 { "w" } else { "-" });
    s.append(if mode & 0o100 != 0 { "x" } else { "-" });
    s.append(if mode & 0o040 != 0 { "r" } else { "-" });
    s.append(if mode & 0o020 != 0 { "w" } else { "-" });
    s.append(if mode & 0o010 != 0 { "x" } else { "-" });
    s.append(if mode & 0o004 != 0 { "r" } else { "-" });
    s.append(if mode & 0o002 != 0 { "w" } else { "-" });
    s.append(if mode & 0o001 != 0 { "x" } else { "-" });
    proof {
        assert(s@ =~= perm_seq(mode));
    }
    s
}

/// A nine-character sequence in which each position holds either its
/// permission letter (`r`, `w` or `x`, as the position demands) or `-`.
pub open spec fn is_perm_string(s: Seq<char>) -> bool {
    &&& s.len() == 9
    &&& (s[0] == 'r' || s[0] == '-')
    &&& (s[1] == 'w' || s[1] == '-')
    &&& (s[2] == 'x' || s[2] == '-')
    &&& (s[3] == 'r' || s[3] == '-')
    &&& (s[4] == 'w' || s[4] == '-')
    &&& (s[5] == 'x' || s[5] == '-')
    &&& (s[6] == 'r' || s[6] == '-')
    &&& (s[7] == 'w' || s[7] == '-')
    &&& (s[8] == 'x' || s[8] == '-')
}

/// The mode bit that one display character contributes.
pub open spec fn bit_of(c: char, letter: char, bit: u32) -> u32 {
    if c == letter {
        bit
    } else {
        0u32
    }
}

/// The permission bits encoded by a valid nine-character display string.
pub open spec fn perm_bits_of(s: Seq<char>) -> u32 {
    (bit_of(s[0], 'r', 0o400) + bit_of(s[1], 'w', 0o200) + bit_of(s[2], 'x', 0o100) + bit_of(
        s[3],
        'r',
        0o040,
    ) + bit_of(s[4], 'w', 0o020) + bit_of(s[5], 'x', 0o010) + bit_of(s[6], 'r', 0o004) + bit_of(
        s[7],
        'w',
        0o002,
    ) + bit_of(s[8], 'x', 0o001)) as u32
}

/// What `parse_permissions` returns on a given character sequence.
pub open spec fn spec_parse_permissions(s: Seq<char>) -> Option<u32> {
    if is_perm_string(s) {
        Some(perm_bits_of(s))
    } else {
        None
    }
}

/// Parse a permission display string back into its mode bits. Succeeds
/// exactly on nine-character strings whose every position holds its
/// proper letter or `-`; any other input yields `None`.
pub fn parse_permissions(s: &str) -> (r: Option<u32>)
    ensures
        r == spec_parse_permissions(s@),
{
    if s.unicode_len() != 9 {
        return None;
    }
    let mut bits: u32 = 0;
    let c0 = s.get_char(0);
    if c0 == 'r' {
        bits = bits + 0o400;
    } else if c0 != '-' {
        return None;
    }
    let c1 = s.get_char(1);
    if c1 == 'w' {
        bits = bits + 0o200;
    } else if c1 != '-' {
        return None;
    }
    let c2 = s.get_char(2);
    if c2 == 'x' {
        bits = bits + 0o100;
    } else if c2 != '-' {
        return None;
    }
    let c3 = s.get_char(3);
    if c3 == 'r' {
        bits = bits + 0o040;
    } else if c3 != '-' {
        return None;
    }
    let c4 = s.get_char(4);
    if c4 == 'w' {
        bits = bits + 0o020;
    } else if c4 != '-' {
        return None;
    }
    let c5 = s.get_char(5);
    if c5 == 'x' {
        bits = bits + 0o010;
    } else if c5 != '-' {
        return None;
    }
    let c6 = s.get_char(6);
    if c6 == 'r' {
        bits = bits + 0o004;
    } else if c6 != '-' {
        return None;
    }
    let c7 = s.get_char(7);
    if c7 == 'w' {
        bits = bits + 0o002;
    } else if c7 != '-' {
        return None;
    }
    let c8 = s.get_char(8);
    if c8 == 'x' {
        bits = bits + 0o001;
    } else if c8 != '-' {
        return None;
    }
    Some(bits)
}

/// Rendering a mode and parsing the result recovers the mode's low nine
/// bits. The file-type bits above them are lost by design.
pub proof fn lemma_permissions_round_trip(mode: u32)
    ensures
        spec_parse_permissions(perm_seq(mode)) == Some(mode & 0o777),
{
    let s = perm_seq(mode);
    assert(is_perm_string(s));
    assert(mode & 0o400 == 0 || mode & 0o400 == 0o400) by (bit_vector);
    assert(mode & 0o200 == 0 || mode & 0o200 == 0o200) by (bit_vector);
    assert(mode & 0o100 == 0 || mode & 0o100 == 0o100) by (bit_vector);
    assert(mode & 0o040 == 0 || mode & 0o040 == 0o040) by (bit_vector);
    assert(mode & 0o020 == 0 || mode & 0o020 == 0o020) by (bit_vector);
    assert(mode & 0o010 == 0 || mode & 0o010 == 0o010) by (bit_vector);
    assert(mode & 0o004 == 0 || mode & 0o004 == 0o004) by (bit_vector);
    assert(mode & 0o002 == 0 || mode & 0o002 == 0o002) by (bit_vector);
    assert(mode & 0o001 == 0 || mode & 0o001 == 0o001) by (bit_vector);
    assert(bit_of(s[0], 'r', 0o400) == mode & 0o400);
    assert(bit_of(s[1], 'w', 0o200) == mode & 0o200);
    assert(bit_of(s[2], 'x', 0o100) == mode & 0o100);
    assert(bit_of(s[3], 'r', 0o040) == mode & 0o040);
    assert(bit_of(s[4], 'w', 0o020) == mode & 0o020);
    assert(bit_of(s[5], 'x', 0o010) == mode & 0o010);
    assert(bit_of(s[6], 'r', 0o004) == mode & 0o004);
    assert(bit_of(s[7], 'w', 0o002) == mode & 0o002);
    assert(bit_of(s[8], 'x', 0o001) == mode & 0o001);
    assert((mode & 0o400) + (mode & 0o200) + (mode & 0o100) + (mode & 0o040) + (mode & 0o020) + (
    mode & 0o010) + (mode & 0o004) + (mode & 0o002) + (mode & 0o001) == (mode
        & 0o777) as int) by (bit_vector);
}

} // verus!
