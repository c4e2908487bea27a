//! The aggregate status line the boot console displays once the memory map
//! has been classified, with its content pinned character by character.

use crate::decimal::{dec_digits, format_u64};
use crate::memory::MemoryInventory;
use vstd::prelude::*;

verus! {

/// The label opening the aggregate line.
pub open spec fn total_label() -> Seq<char> {
    seq!['T', 'o', 't', 'a', 'l', ':', ' ']
}

/// The words between the page count and the mebibyte figure.
pub open spec fn pages_label() -> Seq<char> {
    seq![' ', 'p', 'a', 'g', 'e', 's', ' ', '=', ' ']
}

/// The unit closing the aggregate line.
pub open spec fn mib_label() -> Seq<char> {
    seq![' ', 'M', 'i', 'B']
}

/// The whole aggregate line for a page count and a mebibyte figure, both in
/// canonical decimal.
pub open spec fn total_line_spec(pages: int, mib: int) -> Seq<char> {
    total_label() + dec_digits(pages) + pages_label() + dec_digits(mib) + mib_label()
}

/// Appends `src`'s characters to `dst`, leaving `src` empty.
fn append_chars(dst: &mut Vec<char>, src: &mut Vec<char>)
    ensures
        final(dst)@ == old(dst)@ + old(src)@,
{
    dst.append(src);
}

/// Composes the console line reporting the inventory: the total usable page
/// count and its truncated mebibyte size, exactly as the specification
/// string lays it out.
pub fn total_line(inv: &MemoryInventory) -> (r: Vec<char>)
    ensures
        r@ == total_line_spec(inv.total_pages as int, inv.size_mib as int),
{
    let mut r: Vec<char> = Vec::new();
    r.push('T');
    r.push('o');
    r.push('t');
    r.push('a');
    r.push('l');
    r.push(':');
    r.push(' ');
    proof {
        assert(r@ =~= total_label());
    }
    let mut pages = format_u64(inv.total_pages);
    append_chars(&mut r, &mut pages);
    let mut mid: Vec<char> = Vec::new();
    mid.push(' ');
    mid.push('p');
    mid.push('a');
    mid.push('g');
    mid.push('e');
    mid.push('s');
    mid.push(' ');
    mid.push('=');
    mid.push(' ');
    proof {
        assert(mid@ =~= pages_label());
    }
    append_chars(&mut r, &mut mid);
    let mut mib = format_u64(inv.size_mib);
    append_chars(&mut r, &mut mib);
    let mut unit: Vec<char> = Vec::new();
    unit.push(' ');
    unit.push('M');
    unit.push('i');
    unit.push('B');
    proof {
        assert(unit@ =~= mib_label());
    }
    append_chars(&mut r, &mut unit);
    proof {
        assert(r@ =~= total_line_spec(inv.total_pages as int, inv.size_mib as int));
    }
    r
}

} // verus!
