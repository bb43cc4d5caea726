//! The name of the mutex that marks a running window, in the UTF-16 form
//! the Windows API takes.
use vstd::prelude::*;
use crate::text::chars_of;

verus! {

/// The UTF-16 code units of one character.
pub open spec fn utf16(c: char) -> Seq<u16> {
    let u = c as u32;
    if u < 0x10000 {
        seq![u as u16]
    } else {
        seq![(0xD800 + (u - 0x10000) / 0x400) as u16, (0xDC00 + (u - 0x10000) % 0x400) as u16]
    }
}

/// The UTF-16 encoding of `s`.
pub open spec fn encode_utf16(s: Seq<char>) -> Seq<u16>
    decreases s.len(),
{
    if s.len() == 0 {
        Seq::empty()
    } else {
        encode_utf16(s.drop_last()) + utf16(s.last())
    }
}

/// `s` as a NUL-terminated UTF-16 string.
pub open spec fn spec_wide(s: Seq<char>) -> Seq<u16> {
    encode_utf16(s).push(0u16)
}

pub fn wide(s: &str) -> (r: Vec<u16>)
    ensures
        r@ == spec_wide(s@),
{
    let cs = chars_of(s);
    let mut out: Vec<u16> = Vec::new();
    let mut i: usize = 0;
    while i < cs.len()
        invariant
            i <= cs@.len(),
            out@ == encode_utf16(cs@.take(i as int)),
        decreases cs.len() - i,
    {
        let ghost t = cs@.take(i + 1);
        assert(t.drop_last() =~= cs@.take(i as int));
        let u = cs[i] as u32;
        if u < 0x10000 {
            out.push(u as u16);
        } else {
            out.push((0xD800 + (u - 0x10000) / 0x400) as u16);
            out.push((0xDC00 + (u - 0x10000) % 0x400) as u16);
        }
        i = i + 1;
        assert(out@ =~= encode_utf16(t));
    }
    assert(cs@.take(cs@.len() as int) =~= cs@);
    out.push(0u16);
    out
}

/// The name of the window's mutex.
pub open spec fn ui_mutex_name() -> Seq<char> {
    "Local\\BrewingetUI"@
}

/// The mutex name as `CreateMutexW` / `OpenMutexW` take it.
pub fn ui_mutex_name_wide() -> (r: Vec<u16>)
    ensures
        r@ == spec_wide(ui_mutex_name()),
{
    wide("Local\\BrewingetUI")
}

/// `MUTEX_ALL_ACCESS`, the access asked for when probing the mutex.
pub const MUTEX_ALL_ACCESS: u32 = 0x1F_0001;

} // verus!
