//! Classification of the firmware-reported memory map into a usable-memory
//! inventory. A page is a fixed 4096-byte unit; only regions whose kind is
//! `Usable` contribute to the inventory.

use vstd::prelude::*;

verus! {

/// Bytes per physical page, the granularity of the firmware memory map.
pub const PAGE_SIZE: u64 = 4096;

/// Bytes per mebibyte, used for the human-scaled inventory size.
pub const MIB: u64 = 1048576;

/// The usage classification firmware assigns to one region.
#[derive(Clone, Copy, Debug, PartialEq, Eq, Structural)]
pub enum MemoryKind {
    /// Conventional memory, free for the kernel to use.
    Usable,
    /// Reserved by the platform; must not be touched.
    Reserved,
    /// Holds firmware code.
    FirmwareCode,
    /// Holds firmware data.
    FirmwareData,
    /// Memory-mapped device registers.
    Mmio,
    /// Defective or otherwise unusable memory.
    Unusable,
}

/// One firmware-reported region: a kind, a starting physical page index and a
/// page count. Immutable once read from firmware.
#[derive(Clone, Copy, Debug, PartialEq, Eq, Structural)]
pub struct MemoryMapEntry {
    pub kind: MemoryKind,
    pub start_page: u64,
    pub pages: u64,
}

/// An ordered sequence of regions, captured atomically at one point in boot.
#[derive(Debug)]
pub struct MemoryMapSnapshot {
    pub entries: Vec<MemoryMapEntry>,
}

impl View for MemoryMapSnapshot {
    type V = Seq<MemoryMapEntry>;

    open spec fn view(&self) -> Seq<MemoryMapEntry> {
        self.entries@
    }
}

/// The derived aggregate: total usable pages, the same amount in bytes, and
/// the byte count scaled to whole mebibytes (integer truncation).
#[derive(Clone, Copy, Debug, PartialEq, Eq, Structural)]
pub struct MemoryInventory {
    pub total_pages: u64,
    pub bytes: u64,
    pub size_mib: u64,
}

/// How many pages one entry contributes to the inventory: its page count if
/// its kind is usable, zero otherwise.
pub open spec fn entry_usable_pages(e: MemoryMapEntry) -> int {
    if e.kind == MemoryKind::Usable {
        e.pages as int
    } else {
        0
    }
}

/// The sum of `pages` over the entries of `s` whose kind is usable.
pub open spec fn usable_pages(s: Seq<MemoryMapEntry>) -> int
    decreases s.len(),
{
    if s.len() == 0 {
        0
    } else {
        usable_pages(s.drop_last()) + entry_usable_pages(s.last())
    }
}

/// `inv` is the inventory of the snapshot `s`: the page total is the usable
/// sum, bytes is exactly pages times the page size, and the mebibyte figure
/// is bytes divided by one mebibyte with the fraction truncated.
pub open spec fn is_inventory_of(inv: MemoryInventory, s: Seq<MemoryMapEntry>) -> bool {
    &&& inv.total_pages == usable_pages(s)
    &&& inv.bytes == inv.total_pages * PAGE_SIZE
    &&& inv.size_mib == inv.bytes / MIB
}

/// The usable sum never decreases as entries are appended, and is never
/// negative.
proof fn lemma_usable_pages_take_monotone(s: Seq<MemoryMapEntry>, i: int)
    requires
        0 <= i <= s.len(),
    ensures
        0 <= usable_pages(s.take(i)) <= usable_pages(s),
    decreases s.len() - i,
{
    if i == s.len() {
        assert(s.take(i) == s);
        lemma_usable_pages_nonneg(s);
    } else {
        lemma_usable_pages_nonneg(s.take(i));
        lemma_usable_pages_take_succ(s, i);
        lemma_usable_pages_take_monotone(s, i + 1);
    }
}

/// The usable sum of any snapshot is nonnegative.
proof fn lemma_usable_pages_nonneg(s: Seq<MemoryMapEntry>)
    ensures
        usable_pages(s) >= 0,
    decreases s.len(),
{
    if s.len() > 0 {
        lemma_usable_pages_nonneg(s.drop_last());
    }
}

/// Extending a prefix by one entry adds exactly that entry's contribution.
proof fn lemma_usable_pages_take_succ(s: Seq<MemoryMapEntry>, i: int)
    requires
        0 <= i < s.len(),
    ensures
        usable_pages(s.take(i + 1)) == usable_pages(s.take(i)) + entry_usable_pages(s[i]),
{
    assert(s.take(i + 1).drop_last() == s.take(i));
    assert(s.take(i + 1).last() == s[i]);
}

/// Turns a raw memory-map snapshot into a usable-memory inventory.
///
/// Only entries of kind `Usable` contribute; all other kinds count as zero.
/// An empty or all-reserved snapshot yields a zero inventory, which is a
/// valid result, not an error. The snapshot is read through a shared borrow
/// and is not mutated. The precondition is the machine limit that the usable
/// byte total fits the 64-bit accumulator.
pub fn classify(snapshot: &MemoryMapSnapshot) -> (r: MemoryInventory)
    requires
        usable_pages(snapshot@) * PAGE_SIZE <= u64::MAX,
    ensures
        is_inventory_of(r, snapshot@),
{
    let n = snapshot.entries.len();
    let mut total_pages: u64 = 0;
    let mut i: usize = 0;
    proof {
        lemma_page_bound_bounds_pages(snapshot@);
        assert(snapshot@.take(0int) =~= Seq::<MemoryMapEntry>::empty());
    }
    while i < n
        invariant
            n == snapshot@.len(),
            0 <= i <= n,
            total_pages == usable_pages(snapshot@.take(i as int)),
            usable_pages(snapshot@) * PAGE_SIZE <= u64::MAX,
            usable_pages(snapshot@) <= u64::MAX,
        decreases n - i,
    {
        let e = snapshot.entries[i];
        proof {
            lemma_usable_pages_take_succ(snapshot@, i as int);
            lemma_usable_pages_take_monotone(snapshot@, i as int + 1);
        }
        if e.kind == MemoryKind::Usable {
            total_pages = total_pages + e.pages;
        }
        i = i + 1;
    }
    proof {
        assert(snapshot@.take(n as int) == snapshot@);
        lemma_usable_pages_nonneg(snapshot@);
        lemma_mul_le(usable_pages(snapshot@), PAGE_SIZE as int);
    }
    let bytes: u64 = total_pages * PAGE_SIZE;
    let size_mib: u64 = bytes / MIB;
    MemoryInventory { total_pages, bytes, size_mib }
}

/// If `p * 4096` fits in 64 bits and `p` is nonnegative, so does `p` itself.
proof fn lemma_page_bound_bounds_pages(s: Seq<MemoryMapEntry>)
    requires
        usable_pages(s) * PAGE_SIZE <= u64::MAX,
    ensures
        usable_pages(s) <= u64::MAX,
{
    lemma_usable_pages_nonneg(s);
    assert(usable_pages(s) <= usable_pages(s) * PAGE_SIZE) by (nonlinear_arith)
        requires
            usable_pages(s) >= 0,
            PAGE_SIZE >= 1,
    ;
}

/// For nonnegative `a` and `b >= 1`, `a <= a * b`.
proof fn lemma_mul_le(a: int, b: int)
    requires
        a >= 0,
        b >= 1,
    ensures
        a <= a * b,
{
    assert(a <= a * b) by (nonlinear_arith)
        requires
            a >= 0,
            b >= 1,
    ;
}

/// The inventory total is the usable-page sum, and the sum of an empty
/// snapshot is zero, so an empty snapshot yields a zero page total.
pub proof fn lemma_classify_total_is_usable_sum(inv: MemoryInventory, s: Seq<MemoryMapEntry>)
    requires
        is_inventory_of(inv, s),
    ensures
        inv.total_pages == usable_pages(s),
        s.len() == 0 ==> inv.total_pages == 0,
{
}

/// Classification is a pure function of the snapshot: any two inventories of
/// the same snapshot are identical. Together with `classify`'s postcondition
/// this says two calls of `classify` on one snapshot return equal results;
/// `classify` borrows the snapshot immutably, so it cannot mutate it.
pub proof fn lemma_classify_deterministic(
    a: MemoryInventory,
    b: MemoryInventory,
    s: Seq<MemoryMapEntry>,
)
    requires
        is_inventory_of(a, s),
        is_inventory_of(b, s),
    ensures
        a == b,
{
}

/// The byte figure of an inventory is exactly the page total times 4096, with
/// no rounding, and the mebibyte figure is the byte figure divided by
/// 1024 * 1024 with integer truncation.
pub proof fn lemma_inventory_scaling(inv: MemoryInventory, s: Seq<MemoryMapEntry>)
    requires
        is_inventory_of(inv, s),
    ensures
        inv.bytes == inv.total_pages * 4096,
        inv.size_mib == inv.bytes as int / (1024int * 1024),
{
}

} // verus!
