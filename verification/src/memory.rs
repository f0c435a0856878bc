//! The memory system, in two layers.
//!
//! The physical layer ([`PhysicalMemoryManagementUnit`]) maps disjoint
//! `[begin, end)` address ranges to memory banks ([`MemoryModule`]): sparse
//! RAM ([`ConventionalMemory`]) or ROM ([`ReadOnlyMemory`]). Reads of
//! unmapped addresses yield `0xFF`; writes to unmapped addresses or to ROM
//! are silent no-ops. Its view is a total map from address to byte together
//! with the set of writable addresses.
//!
//! The virtual layer ([`MemoryManagementUnit`]) performs the canonical
//! address check and a 4-level page-table walk over the physical layer, and
//! surfaces page faults and general protection as [`Interrupt`] values.
//! Multi-byte accessors translate per byte, little-endian: crossing a page
//! boundary can fault on a later byte after earlier bytes took effect.

use vstd::prelude::*;

use crate::interupt::{Interrupt, spec_is_cannonical, is_cannonical};
use crate::word::{wadd, le16, le32, le64, u16_byte, u32_byte, u64_byte};

verus! {

/// A sparsely allocated RAM bank: 4 KiB pages come into being on first
/// write; bytes never written read as zero.
pub struct ConventionalMemory {
    pages: Vec<RamPage>,
}

struct RamPage {
    base: u64,
    data: Vec<u8>,
}

/// The first index whose page starts at `base`, or -1.
spec fn find_page(pages: Seq<RamPage>, base: u64) -> int
    decreases pages.len(),
{
    if pages.len() == 0 {
        -1
    } else if pages[0].base == base {
        0
    } else {
        let r = find_page(pages.drop_first(), base);
        if r < 0 {
            -1
        } else {
            r + 1
        }
    }
}

/// `find_page` returns the first index with the sought base, or -1 where
/// no page has it.
proof fn lemma_find_page_props(pages: Seq<RamPage>, base: u64)
    ensures
        ({
            let r = find_page(pages, base);
            &&& -1 <= r < pages.len()
            &&& r >= 0 ==> pages[r].base == base && (forall|j: int|
                0 <= j < r ==> pages[j].base != base)
            &&& r == -1 ==> (forall|j: int| 0 <= j < pages.len() ==> pages[j].base != base)
        }),
    decreases pages.len(),
{
    if pages.len() > 0 && pages[0].base != base {
        let rest = pages.drop_first();
        lemma_find_page_props(rest, base);
        let r0 = find_page(rest, base);
        if r0 >= 0 {
            assert(pages[r0 + 1] == rest[r0]);
            assert forall|j: int| 0 <= j < r0 + 1 implies pages[j].base != base by {
                if j > 0 {
                    assert(pages[j] == rest[j - 1]);
                }
            }
        } else {
            assert forall|j: int| 0 <= j < pages.len() implies pages[j].base != base by {
                if j > 0 {
                    assert(pages[j] == rest[j - 1]);
                }
            }
        }
    }
}

/// Any index that carries the sought base behind only indices that do not
/// is what `find_page` returns.
proof fn lemma_find_page_at(pages: Seq<RamPage>, base: u64, i: int)
    requires
        0 <= i < pages.len(),
        pages[i].base == base,
        forall|j: int| 0 <= j < i ==> pages[j].base != base,
    ensures
        find_page(pages, base) == i,
    decreases pages.len(),
{
    if i > 0 {
        lemma_find_page_at(pages.drop_first(), base, i - 1);
    }
}

/// `find_page` only reads the bases: sequences with pointwise equal bases
/// agree on it.
proof fn lemma_find_page_same_bases(s1: Seq<RamPage>, s2: Seq<RamPage>, base: u64)
    requires
        s1.len() == s2.len(),
        forall|j: int| 0 <= j < s1.len() ==> s1[j].base == #[trigger] s2[j].base,
    ensures
        find_page(s1, base) == find_page(s2, base),
    decreases s1.len(),
{
    if s1.len() > 0 {
        assert forall|j: int| 0 <= j < s1.drop_first().len()
            implies s1.drop_first()[j].base == #[trigger] s2.drop_first()[j].base by {
            assert(s1[j + 1].base == s2[j + 1].base);
        }
        lemma_find_page_same_bases(s1.drop_first(), s2.drop_first(), base);
    }
}

/// Two addresses are equal exactly when they share a page base and an
/// offset within the page.
proof fn lemma_page_split(a: u64, b: u64)
    by (bit_vector)
    ensures
        (a == b) <==> (a & 0xFFFF_FFFF_FFFF_F000 == b & 0xFFFF_FFFF_FFFF_F000 && a & 0xFFF == b
            & 0xFFF),
        a & 0xFFF < 4096,
        (a & 0xFFFF_FFFF_FFFF_F000) & 0xFFF == 0,
{
}

impl ConventionalMemory {
    /// Every page holds exactly 4096 bytes, starts at a page-aligned base,
    /// and no two pages share a base.
    pub closed spec fn wf(&self) -> bool {
        &&& forall|i: int|
            0 <= i < self.pages@.len() ==> (#[trigger] self.pages@[i]).data@.len() == 4096
                && self.pages@[i].base & 0xFFF == 0
        &&& forall|i: int, j: int|
            0 <= i < j < self.pages@.len() ==> (#[trigger] self.pages@[i]).base != (
            #[trigger] self.pages@[j]).base
    }

    /// The byte stored at `address`; bytes never written read as zero.
    pub closed spec fn byte(&self, address: u64) -> u8 {
        let i = find_page(self.pages@, address & 0xFFFF_FFFF_FFFF_F000);
        if i >= 0 {
            self.pages@[i].data@[(address & 0xFFF) as int]
        } else {
            0
        }
    }

    /// Creates an empty RAM bank. The size is not recorded: pages are
    /// allocated only on first write, so capacity is bounded by the range
    /// the physical bus maps the bank under.
    pub fn create(_size: u64) -> (r: ConventionalMemory)
        ensures
            r.wf(),
            forall|a: u64| r.byte(a) == 0u8,
    {
        let r = ConventionalMemory { pages: Vec::new() };
        proof {
            assert forall|a: u64| r.byte(a) == 0u8 by {
                lemma_find_page_props(r.pages@, a & 0xFFFF_FFFF_FFFF_F000);
            }
        }
        r
    }

    /// The index of the page starting at `base`, if one is allocated.
    fn lookup(&self, base: u64) -> (r: Option<usize>)
        ensures
            match r {
                Some(i) => i < self.pages@.len() && find_page(self.pages@, base) == i,
                None => find_page(self.pages@, base) == -1,
            },
    {
        let mut i: usize = 0;
        while i < self.pages.len()
            invariant
                i <= self.pages@.len(),
                forall|j: int| 0 <= j < i ==> self.pages@[j].base != base,
            decreases self.pages@.len() - i,
        {
            if self.pages[i].base == base {
                proof {
                    lemma_find_page_at(self.pages@, base, i as int);
                }
                return Some(i);
            }
            i += 1;
        }
        proof {
            lemma_find_page_props(self.pages@, base);
        }
        None
    }

    fn read_u8(&self, address: u64) -> (r: u8)
        requires
            self.wf(),
        ensures
            r == self.byte(address),
    {
        let base = address & 0xFFFF_FFFF_FFFF_F000;
        let offset = (address & 0xFFF) as usize;
        proof {
            lemma_page_split(address, address);
        }
        match self.lookup(base) {
            Some(i) => self.pages[i].data[offset],
            None => 0,
        }
    }

    fn write_u8(&mut self, address: u64, value: u8)
        requires
            old(self).wf(),
        ensures
            final(self).wf(),
            forall|a: u64|
                #[trigger] final(self).byte(a) == if a == address {
                    value
                } else {
                    old(self).byte(a)
                },
    {
        let base = address & 0xFFFF_FFFF_FFFF_F000;
        let offset = (address & 0xFFF) as usize;
        proof {
            lemma_page_split(address, address);
        }
        match self.lookup(base) {
            Some(i) => {
                self.pages[i].data[offset] = value;
                proof {
                    let olds = old(self).pages@;
                    let news = self.pages@;
                    let ii = i as int;
                    let off0 = (address & 0xFFF) as int;
                    assert(news.len() == olds.len());
                    assert(news[ii].base == olds[ii].base);
                    assert(news[ii].data@ == olds[ii].data@.update(off0, value));
                    assert(forall|j: int| 0 <= j < news.len() && j != ii ==> news[j] == #[trigger] olds[j]);
                    assert forall|a: u64|
                        #[trigger] self.byte(a) == if a == address {
                            value
                        } else {
                            old(self).byte(a)
                        } by {
                        let pb = a & 0xFFFF_FFFF_FFFF_F000;
                        let base0 = address & 0xFFFF_FFFF_FFFF_F000;
                        let off_a = (a & 0xFFF) as int;
                        assert forall|j: int| 0 <= j < news.len() implies (#[trigger] news[j]).base
                            == olds[j].base by {}
                        lemma_find_page_same_bases(news, olds, pb);
                        lemma_find_page_props(olds, pb);
                        lemma_find_page_props(olds, base0);
                        lemma_page_split(a, address);
                        let r = find_page(olds, pb);
                        assert(olds[ii].base == base0);
                        assert(olds[ii].data@.len() == 4096);
                        if pb == base0 {
                            assert(r == ii);
                            assert(self.byte(a) == news[ii].data@[off_a]);
                            if a == address {
                                assert(off_a == off0);
                                assert(news[ii].data@[off_a] == value);
                            } else {
                                assert(off_a != off0);
                                assert(news[ii].data@[off_a] == olds[ii].data@[off_a]);
                            }
                        } else {
                            if r >= 0 {
                                assert(olds[r].base == pb);
                                assert(r != ii);
                                assert(news[r] == olds[r]);
                            }
                        }
                    }
                }
            }
            None => {
                let mut data: Vec<u8> = Vec::new();
                let mut k: usize = 0;
                while k < 4096
                    invariant
                        data@.len() == k,
                        k <= 4096,
                        forall|j: int| 0 <= j < k ==> data@[j] == 0u8,
                    decreases 4096 - k,
                {
                    data.push(0);
                    k += 1;
                }
                data[offset] = value;
                self.pages.push(RamPage { base, data });
                proof {
                    let olds = old(self).pages@;
                    let news = self.pages@;
                    let n = olds.len() as int;
                    lemma_find_page_props(olds, base);
                    assert forall|a: u64|
                        #[trigger] self.byte(a) == if a == address {
                            value
                        } else {
                            old(self).byte(a)
                        } by {
                        let pb = a & 0xFFFF_FFFF_FFFF_F000;
                        lemma_page_split(a, address);
                        if pb == base {
                            lemma_find_page_at(news, pb, n);
                            lemma_find_page_props(olds, pb);
                        } else {
                            lemma_find_page_props(olds, pb);
                            let r = find_page(olds, pb);
                            if r >= 0 {
                                lemma_find_page_at(news, pb, r);
                            } else {
                                lemma_find_page_props(news, pb);
                                if find_page(news, pb) >= 0 {
                                    assert(news[find_page(news, pb)].base == pb);
                                }
                            }
                        }
                    }
                }
            }
        }
    }
}

/// A ROM bank: a fixed byte array; writes are silently dropped.
pub struct ReadOnlyMemory {
    data: Vec<u8>,
}

impl ReadOnlyMemory {
    pub closed spec fn bytes(&self) -> Seq<u8> {
        self.data@
    }

    /// Creates a ROM of `size` bytes holding `prefix` followed by zeros.
    /// The machine cannot host a chip larger than its own address space,
    /// nor one smaller than the image loaded into it.
    pub fn create(prefix: &[u8], size: u64) -> (r: ReadOnlyMemory)
        requires
            prefix@.len() <= size,
            size <= 0x7FFF_FFFF_FFFF_FFFF,
            size <= usize::MAX,
        ensures
            r.bytes().len() == size,
            forall|i: int|
                0 <= i < size ==> r.bytes()[i] == if i < prefix@.len() {
                    prefix@[i]
                } else {
                    0u8
                },
    {
        let n = size as usize;
        let mut data: Vec<u8> = Vec::new();
        let mut k: usize = 0;
        while k < prefix.len()
            invariant
                k <= prefix@.len() <= n,
                data@.len() == k,
                forall|j: int| 0 <= j < k ==> data@[j] == prefix@[j],
            decreases prefix@.len() - k,
        {
            data.push(prefix[k]);
            k += 1;
        }
        while k < n
            invariant
                prefix@.len() <= k <= n,
                data@.len() == k,
                forall|j: int| 0 <= j < prefix@.len() ==> data@[j] == prefix@[j],
                forall|j: int| prefix@.len() <= j < k ==> data@[j] == 0u8,
            decreases n - k,
        {
            data.push(0);
            k += 1;
        }
        ReadOnlyMemory { data }
    }

    fn read_u8(&self, address: u64) -> (r: u8)
        requires
            address < self.bytes().len(),
        ensures
            r == self.bytes()[address as int],
    {
        let n = self.data.len();
        assert(address < n as u64);
        self.data[address as usize]
    }
}

/// A memory bank as the physical bus holds it: the capability set is one
/// byte read and one byte write, so a tagged union stands in for dynamic
/// dispatch over backend kinds.
pub enum MemoryModule {
    /// Sparse RAM.
    Conventional(ConventionalMemory),
    /// Fixed ROM; writes are silent no-ops.
    ReadOnly(ReadOnlyMemory),
}

impl MemoryModule {
    pub open spec fn wf(&self) -> bool {
        match self {
            MemoryModule::Conventional(m) => m.wf(),
            MemoryModule::ReadOnly(_) => true,
        }
    }

    /// Whether writes to this bank take effect.
    pub open spec fn accepts_writes(&self) -> bool {
        match self {
            MemoryModule::Conventional(_) => true,
            MemoryModule::ReadOnly(_) => false,
        }
    }

    /// Whether offsets within `size` can be read from this bank.
    pub open spec fn covers(&self, size: u64) -> bool {
        match self {
            MemoryModule::Conventional(_) => true,
            MemoryModule::ReadOnly(m) => m.bytes().len() == size,
        }
    }

    /// The byte at a bank-local offset.
    pub open spec fn byte(&self, offset: u64) -> u8 {
        match self {
            MemoryModule::Conventional(m) => m.byte(offset),
            MemoryModule::ReadOnly(m) => m.bytes()[offset as int],
        }
    }

    fn read_u8(&self, offset: u64, ghost_size: Ghost<u64>) -> (r: u8)
        requires
            self.wf(),
            self.covers(ghost_size@),
            offset < ghost_size@,
        ensures
            r == self.byte(offset),
    {
        match self {
            MemoryModule::Conventional(m) => m.read_u8(offset),
            MemoryModule::ReadOnly(m) => m.read_u8(offset),
        }
    }

    fn write_u8(&mut self, offset: u64, value: u8)
        requires
            old(self).wf(),
        ensures
            final(self).wf(),
            final(self).accepts_writes() == old(self).accepts_writes(),
            forall|s: u64| final(self).covers(s) == old(self).covers(s),
            forall|o: u64|
                #[trigger] final(self).byte(o) == if old(self).accepts_writes() && o == offset {
                    value
                } else {
                    old(self).byte(o)
                },
    {
        match self {
            MemoryModule::Conventional(m) => m.write_u8(offset, value),
            MemoryModule::ReadOnly(_) => (),
        }
    }
}

/// A physical address range `[begin, end)`.
#[derive(Clone, Copy)]
struct Range {
    begin: u64,
    end: u64,
}

impl Range {
    fn new(begin: u64, end: u64) -> (r: Range)
        ensures
            r.begin == begin,
            r.end == end,
    {
        Range { begin, end }
    }
}

spec fn in_range(r: Range, a: u64) -> bool {
    r.begin <= a < r.end
}

/// The first index whose range contains `a`, or -1. Ranges are pairwise
/// disjoint, so at most one contains `a`.
spec fn find_range(s: Seq<(Range, MemoryModule)>, a: u64) -> int
    decreases s.len(),
{
    if s.len() == 0 {
        -1
    } else if in_range(s[0].0, a) {
        0
    } else {
        let r = find_range(s.drop_first(), a);
        if r < 0 {
            -1
        } else {
            r + 1
        }
    }
}

/// `find_range` returns the first index whose range contains the address,
/// or -1 where none does.
proof fn lemma_find_range_props(s: Seq<(Range, MemoryModule)>, a: u64)
    ensures
        ({
            let r = find_range(s, a);
            &&& -1 <= r < s.len()
            &&& r >= 0 ==> in_range(s[r].0, a) && (forall|j: int|
                0 <= j < r ==> !in_range(#[trigger] s[j].0, a))
            &&& r == -1 ==> (forall|j: int| 0 <= j < s.len() ==> !in_range(#[trigger] s[j].0, a))
        }),
    decreases s.len(),
{
    if s.len() > 0 && !in_range(s[0].0, a) {
        let rest = s.drop_first();
        lemma_find_range_props(rest, a);
        let r0 = find_range(rest, a);
        if r0 >= 0 {
            assert(s[r0 + 1] == rest[r0]);
            assert forall|j: int| 0 <= j < r0 + 1 implies !in_range(#[trigger] s[j].0, a) by {
                if j > 0 {
                    assert(s[j] == rest[j - 1]);
                }
            }
        } else {
            assert forall|j: int| 0 <= j < s.len() implies !in_range(#[trigger] s[j].0, a) by {
                if j > 0 {
                    assert(s[j] == rest[j - 1]);
                }
            }
        }
    }
}

/// Any index whose range contains the address behind only indices whose
/// ranges do not is what `find_range` returns.
proof fn lemma_find_range_at(s: Seq<(Range, MemoryModule)>, a: u64, i: int)
    requires
        0 <= i < s.len(),
        in_range(s[i].0, a),
        forall|j: int| 0 <= j < i ==> !in_range(#[trigger] s[j].0, a),
    ensures
        find_range(s, a) == i,
    decreases s.len(),
{
    if i > 0 {
        let rest = s.drop_first();
        assert(rest[i - 1] == s[i]);
        assert forall|j: int| 0 <= j < i - 1 implies !in_range(#[trigger] rest[j].0, a) by {
            assert(rest[j] == s[j + 1]);
        }
        lemma_find_range_at(rest, a, i - 1);
    }
}

/// `find_range` only reads the ranges: sequences with pointwise equal
/// ranges agree on it.
proof fn lemma_find_range_same_ranges(
    s1: Seq<(Range, MemoryModule)>,
    s2: Seq<(Range, MemoryModule)>,
    a: u64,
)
    requires
        s1.len() == s2.len(),
        forall|j: int| 0 <= j < s1.len() ==> (#[trigger] s1[j]).0 == (#[trigger] s2[j]).0,
    ensures
        find_range(s1, a) == find_range(s2, a),
    decreases s1.len(),
{
    if s1.len() > 0 {
        assert forall|j: int| 0 <= j < s1.drop_first().len()
            implies (#[trigger] s1.drop_first()[j]).0 == (#[trigger] s2.drop_first()[j]).0 by {
            assert(s1[j + 1].0 == s2[j + 1].0);
        }
        lemma_find_range_same_ranges(s1.drop_first(), s2.drop_first(), a);
    }
}

/// The physical memory bus: registered address ranges backed by memory
/// banks. Its view is a total byte map — unmapped addresses read `0xFF` —
/// together with the set of addresses whose writes take effect.
pub struct PhysicalMemoryManagementUnit {
    ranges: Vec<(Range, MemoryModule)>,
}

/// The little-endian 64-bit word read bytewise from physical memory at
/// `a..a+8` (the span wraps around the top of the address space).
pub open spec fn spec_read_u64_phys(mem: Map<u64, u8>, a: u64) -> u64 {
    le64(
        mem[a], mem[wadd(a, 1)], mem[wadd(a, 2)], mem[wadd(a, 3)],
        mem[wadd(a, 4)], mem[wadd(a, 5)], mem[wadd(a, 6)], mem[wadd(a, 7)],
    )
}

/// One physical byte write: it takes effect only on writable addresses.
pub open spec fn phys_write1(mem: Map<u64, u8>, writable: Set<u64>, a: u64, b: u8) -> Map<u64, u8> {
    if writable.contains(a) {
        mem.insert(a, b)
    } else {
        mem
    }
}

/// Eight physical byte writes laying down `v` little-endian at `a..a+8`.
pub open spec fn spec_write_u64_phys(
    mem: Map<u64, u8>,
    writable: Set<u64>,
    a: u64,
    v: u64,
) -> Map<u64, u8> {
    let m1 = phys_write1(mem, writable, a, u64_byte(v, 0));
    let m2 = phys_write1(m1, writable, wadd(a, 1), u64_byte(v, 1));
    let m3 = phys_write1(m2, writable, wadd(a, 2), u64_byte(v, 2));
    let m4 = phys_write1(m3, writable, wadd(a, 3), u64_byte(v, 3));
    let m5 = phys_write1(m4, writable, wadd(a, 4), u64_byte(v, 4));
    let m6 = phys_write1(m5, writable, wadd(a, 5), u64_byte(v, 5));
    let m7 = phys_write1(m6, writable, wadd(a, 6), u64_byte(v, 6));
    phys_write1(m7, writable, wadd(a, 7), u64_byte(v, 7))
}

impl PhysicalMemoryManagementUnit {
    /// Ranges are well-formed, pairwise disjoint, and each bank covers its
    /// range's size.
    pub closed spec fn wf(&self) -> bool {
        &&& forall|i: int|
            0 <= i < self.ranges@.len() ==> {
                let (r, m) = #[trigger] self.ranges@[i];
                &&& r.begin <= r.end
                &&& m.wf()
                &&& m.covers((r.end - r.begin) as u64)
            }
        &&& forall|i: int, j: int|
            0 <= i < j < self.ranges@.len() ==> ((#[trigger] self.ranges@[i]).0.end <= (
            #[trigger] self.ranges@[j]).0.begin || self.ranges@[j].0.end <= self.ranges@[i].0.begin)
    }

    spec fn byte_at(&self, a: u64) -> u8 {
        let i = find_range(self.ranges@, a);
        if i >= 0 {
            self.ranges@[i].1.byte((a - self.ranges@[i].0.begin) as u64)
        } else {
            0xFF
        }
    }

    /// The byte each physical address reads: mapped ranges defer to their
    /// bank, every other address reads `0xFF`.
    pub closed spec fn mem(&self) -> Map<u64, u8> {
        Map::total(|a: u64| self.byte_at(a))
    }

    /// The addresses whose writes take effect: those mapped to RAM.
    pub closed spec fn writable(&self) -> Set<u64> {
        Set::new(
            |a: u64|
                {
                    let i = find_range(self.ranges@, a);
                    i >= 0 && self.ranges@[i].1.accepts_writes()
                },
        )
    }

    /// Whether a range of `size` bytes at `base` can be registered: its end
    /// must not overflow the address space and it must not overlap a
    /// registered range.
    pub closed spec fn accepts(&self, base: u64, size: u64) -> bool {
        &&& base + size <= u64::MAX
        &&& forall|i: int|
            0 <= i < self.ranges@.len() ==> !((#[trigger] self.ranges@[i]).0.begin < base + size
                && base < self.ranges@[i].0.end)
    }

    /// Creates a bus with nothing mapped: every byte reads `0xFF`, no
    /// write takes effect, and any range whose end stays in the address
    /// space can be registered.
    pub fn new() -> (r: PhysicalMemoryManagementUnit)
        ensures
            r.wf(),
            r.mem() == Map::total(|a: u64| 0xFFu8),
            r.writable() == Set::<u64>::empty(),
            forall|b: u64, s: u64| #[trigger] r.accepts(b, s) == (b + s <= u64::MAX),
    {
        let r = PhysicalMemoryManagementUnit { ranges: Vec::new() };
        proof {
            assert forall|a: u64| #[trigger] r.mem()[a] == 0xFFu8 by {
                lemma_find_range_props(r.ranges@, a);
            }
            assert forall|a: u64| !(#[trigger] r.writable().contains(a)) by {
                lemma_find_range_props(r.ranges@, a);
            }
            assert(r.mem() =~= Map::total(|a: u64| 0xFFu8));
            assert(r.writable() =~= Set::<u64>::empty());
        }
        r
    }

    /// Registers `module` under `[base, base + size)`. Returns whether the
    /// range was accepted: a range whose end overflows the address space or
    /// that overlaps a registered range is refused and nothing changes.
    pub fn add(&mut self, base: u64, size: u64, module: MemoryModule) -> (added: bool)
        requires
            old(self).wf(),
            module.wf(),
            module.covers(size),
        ensures
            final(self).wf(),
            added == old(self).accepts(base, size),
            !added ==> final(self).mem() == old(self).mem() && final(self).writable() == old(
                self,
            ).writable() && (forall|b: u64, s: u64|
                final(self).accepts(b, s) == old(self).accepts(b, s)),
            added ==> {
                &&& forall|a: u64|
                    #[trigger] final(self).mem()[a] == if base <= a < base + size {
                        module.byte((a - base) as u64)
                    } else {
                        old(self).mem()[a]
                    }
                &&& forall|a: u64|
                    #[trigger] final(self).writable().contains(a) == if base <= a < base + size {
                        module.accepts_writes()
                    } else {
                        old(self).writable().contains(a)
                    }
                &&& forall|b: u64, s: u64|
                    #[trigger] final(self).accepts(b, s) == (old(self).accepts(b, s) && !(base < b
                        + s && b < base + size))
            },
    {
        let end = match base.checked_add(size) {
            Some(e) => e,
            None => {
                return false;
            }
        };
        let mut i: usize = 0;
        while i < self.ranges.len()
            invariant
                *self == *old(self),
                old(self).wf(),
                i <= self.ranges@.len(),
                forall|j: int|
                    0 <= j < i ==> !((#[trigger] self.ranges@[j]).0.begin < base + size && base
                        < self.ranges@[j].0.end),
                end == base + size,
            decreases self.ranges@.len() - i,
        {
            let r = self.ranges[i].0;
            if r.begin < end && base < r.end {
                return false;
            }
            i += 1;
        }
        let ghost olds = self.ranges@;
        self.ranges.push((Range::new(base, end), module));
        proof {
            let news = self.ranges@;
            let n = olds.len() as int;
            assert forall|b: u64, s: u64|
                #[trigger] self.accepts(b, s) == (old(self).accepts(b, s) && !(base < b + s && b
                    < base + size)) by {
                if self.accepts(b, s) {
                    assert forall|i: int|
                        0 <= i < olds.len() implies !((#[trigger] olds[i]).0.begin < b + s && b
                        < olds[i].0.end) by {
                        assert(news[i] == olds[i]);
                        assert(!(news[i].0.begin < b + s && b < news[i].0.end));
                    }
                    assert(!(news[n].0.begin < b + s && b < news[n].0.end));
                } else {
                    if old(self).accepts(b, s) && !(base < b + s && b < base + size) {
                        assert forall|i: int|
                            0 <= i < news.len() implies !((#[trigger] news[i]).0.begin < b + s && b
                            < news[i].0.end) by {
                            if i < n {
                                assert(news[i] == olds[i]);
                            }
                        }
                        assert(self.accepts(b, s));
                    }
                }
            }
            assert forall|a: u64|
                #[trigger] self.mem()[a] == if base <= a < base + size {
                    module.byte((a - base) as u64)
                } else {
                    old(self).mem()[a]
                } by {
                lemma_find_range_props(olds, a);
                let r = find_range(olds, a);
                if base <= a < base + size {
                    if r >= 0 {
                        assert(in_range(olds[r].0, a));
                        assert(false);
                    }
                    lemma_find_range_at(news, a, n);
                } else {
                    if r >= 0 {
                        lemma_find_range_at(news, a, r);
                    } else {
                        lemma_find_range_props(news, a);
                        if find_range(news, a) >= 0 {
                            assert(in_range(news[find_range(news, a)].0, a));
                        }
                    }
                }
            }
            assert forall|a: u64|
                #[trigger] self.writable().contains(a) == if base <= a < base + size {
                    module.accepts_writes()
                } else {
                    old(self).writable().contains(a)
                } by {
                lemma_find_range_props(olds, a);
                let r = find_range(olds, a);
                if base <= a < base + size {
                    if r >= 0 {
                        assert(in_range(olds[r].0, a));
                        assert(false);
                    }
                    lemma_find_range_at(news, a, n);
                } else {
                    if r >= 0 {
                        lemma_find_range_at(news, a, r);
                    } else {
                        lemma_find_range_props(news, a);
                        if find_range(news, a) >= 0 {
                            assert(in_range(news[find_range(news, a)].0, a));
                        }
                    }
                }
            }
        }
        true
    }

    /// The index of the range containing `address`, if one is mapped.
    fn lookup(&self, address: u64) -> (r: Option<usize>)
        ensures
            match r {
                Some(i) => i < self.ranges@.len() && find_range(self.ranges@, address) == i,
                None => find_range(self.ranges@, address) == -1,
            },
    {
        let mut i: usize = 0;
        while i < self.ranges.len()
            invariant
                i <= self.ranges@.len(),
                forall|j: int| 0 <= j < i ==> !in_range((#[trigger] self.ranges@[j]).0, address),
            decreases self.ranges@.len() - i,
        {
            let r = self.ranges[i].0;
            if r.begin <= address && address < r.end {
                proof {
                    lemma_find_range_at(self.ranges@, address, i as int);
                }
                return Some(i);
            }
            i += 1;
        }
        proof {
            lemma_find_range_props(self.ranges@, address);
        }
        None
    }

    /// Reads one physical byte; unmapped addresses read `0xFF`.
    fn read_u8(&self, address: u64) -> (r: u8)
        requires
            self.wf(),
        ensures
            r == self.mem()[address],
    {
        match self.lookup(address) {
            Some(i) => {
                proof {
                    lemma_find_range_props(self.ranges@, address);
                    assert(in_range(self.ranges@[i as int].0, address));
                }
                let begin = self.ranges[i].0.begin;
                let ghost size = (self.ranges@[i as int].0.end - begin) as u64;
                self.ranges[i].1.read_u8(address - begin, Ghost(size))
            }
            None => 0xFF,
        }
    }

    /// Reads a little-endian 64-bit word bytewise at `address..address+8`.
    pub fn read_u64(&self, address: u64) -> (r: u64)
        requires
            self.wf(),
        ensures
            r == spec_read_u64_phys(self.mem(), address),
    {
        let b0 = self.read_u8(address);
        let b1 = self.read_u8(address.wrapping_add(1));
        let b2 = self.read_u8(address.wrapping_add(2));
        let b3 = self.read_u8(address.wrapping_add(3));
        let b4 = self.read_u8(address.wrapping_add(4));
        let b5 = self.read_u8(address.wrapping_add(5));
        let b6 = self.read_u8(address.wrapping_add(6));
        let b7 = self.read_u8(address.wrapping_add(7));
        (b0 as u64) | ((b1 as u64) << 8) | ((b2 as u64) << 16) | ((b3 as u64) << 24)
            | ((b4 as u64) << 32) | ((b5 as u64) << 40) | ((b6 as u64) << 48) | ((b7 as u64) << 56)
    }

    /// Writes one physical byte. Writes to unmapped addresses and to ROM
    /// are silent no-ops.
    pub fn write_u8(&mut self, address: u64, value: u8)
        requires
            old(self).wf(),
        ensures
            final(self).wf(),
            final(self).writable() == old(self).writable(),
            final(self).mem() == phys_write1(old(self).mem(), old(self).writable(), address, value),
            forall|b: u64, s: u64| final(self).accepts(b, s) == old(self).accepts(b, s),
    {
        let found = self.lookup(address);
        match found {
            Some(i) => {
                proof {
                    lemma_find_range_props(self.ranges@, address);
                    assert(in_range(self.ranges@[i as int].0, address));
                }
                let begin = self.ranges[i].0.begin;
                self.ranges[i].1.write_u8(address - begin, value);
                proof {
                    let olds = old(self).ranges@;
                    let news = self.ranges@;
                    let ii = i as int;
                    assert(in_range(olds[ii].0, address));
                    assert(news.len() == olds.len());
                    assert(news[ii].0 == olds[ii].0);
                    assert(forall|j: int|
                        0 <= j < news.len() && j != ii ==> news[j] == #[trigger] olds[j]);
                    lemma_find_range_props(olds, address);
                    assert forall|k: u64|
                        #[trigger] self.mem()[k] == phys_write1(
                            old(self).mem(),
                            old(self).writable(),
                            address,
                            value,
                        )[k] by {
                        assert forall|j: int|
                            0 <= j < news.len() implies (#[trigger] news[j]).0 == olds[j].0 by {}
                        lemma_find_range_same_ranges(news, olds, k);
                        lemma_find_range_props(olds, k);
                        let r = find_range(olds, k);
                        if r >= 0 && r != ii {
                            assert(news[r] == olds[r]);
                        }
                    }
                    assert forall|k: u64|
                        #[trigger] self.writable().contains(k) == old(self).writable().contains(
                            k,
                        ) by {
                        assert forall|j: int|
                            0 <= j < news.len() implies (#[trigger] news[j]).0 == olds[j].0 by {}
                        lemma_find_range_same_ranges(news, olds, k);
                        lemma_find_range_props(olds, k);
                        let r = find_range(olds, k);
                        if r >= 0 && r != ii {
                            assert(news[r] == olds[r]);
                        }
                    }
                    assert(self.mem() =~= phys_write1(
                        old(self).mem(),
                        old(self).writable(),
                        address,
                        value,
                    ));
                    assert(self.writable() =~= old(self).writable());
                }
            }
            None => {
                proof {
                    lemma_find_range_props(self.ranges@, address);
                    assert(!old(self).writable().contains(address));
                }
            }
        }
    }

    /// Writes a little-endian 64-bit word bytewise at `address..address+8`.
    pub fn write_u64(&mut self, address: u64, value: u64)
        requires
            old(self).wf(),
        ensures
            final(self).wf(),
            final(self).writable() == old(self).writable(),
            final(self).mem() == spec_write_u64_phys(
                old(self).mem(),
                old(self).writable(),
                address,
                value,
            ),
            forall|b: u64, s: u64| final(self).accepts(b, s) == old(self).accepts(b, s),
    {
        proof {
            crate::word::lemma_u64_byte0(value);
        }
        self.write_u8(address, value as u8);
        self.write_u8(address.wrapping_add(1), (value >> 8) as u8);
        self.write_u8(address.wrapping_add(2), (value >> 16) as u8);
        self.write_u8(address.wrapping_add(3), (value >> 24) as u8);
        self.write_u8(address.wrapping_add(4), (value >> 32) as u8);
        self.write_u8(address.wrapping_add(5), (value >> 40) as u8);
        self.write_u8(address.wrapping_add(6), (value >> 48) as u8);
        self.write_u8(address.wrapping_add(7), (value >> 56) as u8);
    }
}


/// The mathematical view of the virtual-memory unit: the physical byte map,
/// the writable addresses, and the page-table root.
#[verifier::ext_equal]
pub struct MmuView {
    /// The byte each physical address reads.
    pub mem: Map<u64, u8>,
    /// The physical addresses whose writes take effect.
    pub writable: Set<u64>,
    /// The physical address of the root page table.
    pub root: u64,
}

/// The 9-bit page-table index that `va` selects at a walk level.
pub open spec fn level_index(va: u64, shift: u64) -> u64 {
    (va >> shift) & 0x1FF
}

/// Bit 0 of a page-table entry is the present flag.
pub open spec fn pte_present(entry: u64) -> bool {
    entry & 1 == 1
}

/// Bits 12..51 of a page-table entry hold the next-level physical frame.
pub open spec fn pte_frame(entry: u64) -> u64 {
    entry & 0x7FFF_FFFF_FFFF_F000
}

/// One step of the page walk: reads the 8-byte entry at slot `index` of the
/// table at `base`; a non-present entry faults with `CR2` = the original
/// virtual address, a present one yields the next-level frame.
pub open spec fn spec_extract(mem: Map<u64, u8>, base: u64, index: u64, va: u64) -> Result<
    u64,
    Interrupt,
> {
    let entry = spec_read_u64_phys(mem, wadd(base, (8 * index) as u64));
    if !pte_present(entry) {
        Err(Interrupt::PageFault { error_code: 0, cr2: va })
    } else {
        Ok(pte_frame(entry))
    }
}

/// The 4-level translation of a virtual address: a canonical check, then one
/// `spec_extract` step per level, then the page offset.
#[verifier::opaque]
pub open spec fn spec_translate(v: MmuView, va: u64) -> Result<u64, Interrupt> {
    if !spec_is_cannonical(va) {
        Err(Interrupt::GeneralProtection)
    } else {
        match spec_extract(v.mem, v.root, level_index(va, 39), va) {
            Err(e) => Err(e),
            Ok(b2) => match spec_extract(v.mem, b2, level_index(va, 30), va) {
                Err(e) => Err(e),
                Ok(b3) => match spec_extract(v.mem, b3, level_index(va, 21), va) {
                    Err(e) => Err(e),
                    Ok(b4) => match spec_extract(v.mem, b4, level_index(va, 12), va) {
                        Err(e) => Err(e),
                        Ok(page) => Ok((page + (va & 0xFFF)) as u64),
                    },
                },
            },
        }
    }
}

/// A translated single-byte read.
pub open spec fn mmu_read8(v: MmuView, va: u64) -> Result<u8, Interrupt> {
    match spec_translate(v, va) {
        Err(e) => Err(e),
        Ok(pa) => Ok(v.mem[pa]),
    }
}

/// A translated little-endian 16-bit read; the first faulting byte wins.
pub open spec fn mmu_read16(v: MmuView, va: u64) -> Result<u16, Interrupt> {
    match mmu_read8(v, va) {
        Err(e) => Err(e),
        Ok(b0) => match mmu_read8(v, wadd(va, 1)) {
            Err(e) => Err(e),
            Ok(b1) => Ok(le16(b0, b1)),
        },
    }
}

/// A translated little-endian 32-bit read; the first faulting byte wins.
pub open spec fn mmu_read32(v: MmuView, va: u64) -> Result<u32, Interrupt> {
    match mmu_read8(v, va) {
        Err(e) => Err(e),
        Ok(b0) => match mmu_read8(v, wadd(va, 1)) {
            Err(e) => Err(e),
            Ok(b1) => match mmu_read8(v, wadd(va, 2)) {
                Err(e) => Err(e),
                Ok(b2) => match mmu_read8(v, wadd(va, 3)) {
                    Err(e) => Err(e),
                    Ok(b3) => Ok(le32(b0, b1, b2, b3)),
                },
            },
        },
    }
}

/// A translated little-endian 64-bit read; the first faulting byte wins.
pub open spec fn mmu_read64(v: MmuView, va: u64) -> Result<u64, Interrupt> {
    match mmu_read8(v, va) {
        Err(e) => Err(e),
        Ok(b0) => match mmu_read8(v, wadd(va, 1)) {
            Err(e) => Err(e),
            Ok(b1) => match mmu_read8(v, wadd(va, 2)) {
                Err(e) => Err(e),
                Ok(b2) => match mmu_read8(v, wadd(va, 3)) {
                    Err(e) => Err(e),
                    Ok(b3) => match mmu_read8(v, wadd(va, 4)) {
                        Err(e) => Err(e),
                        Ok(b4) => match mmu_read8(v, wadd(va, 5)) {
                            Err(e) => Err(e),
                            Ok(b5) => match mmu_read8(v, wadd(va, 6)) {
                                Err(e) => Err(e),
                                Ok(b6) => match mmu_read8(v, wadd(va, 7)) {
                                    Err(e) => Err(e),
                                    Ok(b7) => Ok(le64(b0, b1, b2, b3, b4, b5, b6, b7)),
                                },
                            },
                        },
                    },
                },
            },
        },
    }
}

/// A translated single-byte write. On a translation fault the view is
/// unchanged; otherwise the byte lands if its physical address is writable.
pub open spec fn mmu_write8(v: MmuView, va: u64, b: u8) -> (MmuView, Option<Interrupt>) {
    match spec_translate(v, va) {
        Err(e) => (v, Some(e)),
        Ok(pa) => (
            MmuView { mem: phys_write1(v.mem, v.writable, pa, b), writable: v.writable, root: v.root },
            None,
        ),
    }
}

/// Chains one more byte onto a multi-byte write: after a fault nothing more
/// is written.
pub open spec fn mmu_write_step(s: (MmuView, Option<Interrupt>), va: u64, b: u8) -> (
    MmuView,
    Option<Interrupt>,
) {
    if s.1 is Some {
        s
    } else {
        mmu_write8(s.0, va, b)
    }
}

/// A translated little-endian 16-bit write, one byte at a time: each byte
/// translates against the memory the earlier bytes produced, and a fault
/// aborts the rest while earlier bytes stay written.
pub open spec fn mmu_write16(v: MmuView, va: u64, x: u16) -> (MmuView, Option<Interrupt>) {
    mmu_write_step(mmu_write8(v, va, u16_byte(x, 0)), wadd(va, 1), u16_byte(x, 1))
}

/// A translated little-endian 32-bit write; see `mmu_write16`.
pub open spec fn mmu_write32(v: MmuView, va: u64, x: u32) -> (MmuView, Option<Interrupt>) {
    mmu_write_step(
        mmu_write_step(
            mmu_write_step(mmu_write8(v, va, u32_byte(x, 0)), wadd(va, 1), u32_byte(x, 1)),
            wadd(va, 2),
            u32_byte(x, 2),
        ),
        wadd(va, 3),
        u32_byte(x, 3),
    )
}

/// A translated little-endian 64-bit write; see `mmu_write16`.
pub open spec fn mmu_write64(v: MmuView, va: u64, x: u64) -> (MmuView, Option<Interrupt>) {
    mmu_write_step(
        mmu_write_step(
            mmu_write_step(
                mmu_write_step(
                    mmu_write_step(
                        mmu_write_step(
                            mmu_write_step(
                                mmu_write8(v, va, u64_byte(x, 0)),
                                wadd(va, 1),
                                u64_byte(x, 1),
                            ),
                            wadd(va, 2),
                            u64_byte(x, 2),
                        ),
                        wadd(va, 3),
                        u64_byte(x, 3),
                    ),
                    wadd(va, 4),
                    u64_byte(x, 4),
                ),
                wadd(va, 5),
                u64_byte(x, 5),
            ),
            wadd(va, 6),
            u64_byte(x, 6),
        ),
        wadd(va, 7),
        u64_byte(x, 7),
    )
}

/// The frame and offset bounds that make the final walk step overflow-free.
proof fn lemma_pte_bounds(entry: u64, va: u64)
    by (bit_vector)
    ensures
        entry & 0x7FFF_FFFF_FFFF_F000 <= 0x7FFF_FFFF_FFFF_F000,
        entry & 1 == 0 || entry & 1 == 1,
        va & 0xFFF < 4096,
        (va >> 39) & 0x1FF < 512,
        (va >> 30) & 0x1FF < 512,
        (va >> 21) & 0x1FF < 512,
        (va >> 12) & 0x1FF < 512,
{
}

/// The virtual-memory unit: the physical bus plus the page-table root
/// (the CR3 equivalent). All accessors take virtual addresses, translate
/// per byte, and surface translation faults as `Interrupt` values.
pub struct MemoryManagementUnit {
    memory_management_unit: PhysicalMemoryManagementUnit,
    paging_table_address: u64,
}

impl View for MemoryManagementUnit {
    type V = MmuView;

    closed spec fn view(&self) -> MmuView {
        MmuView {
            mem: self.memory_management_unit.mem(),
            writable: self.memory_management_unit.writable(),
            root: self.paging_table_address,
        }
    }
}

impl MemoryManagementUnit {
    pub closed spec fn wf(&self) -> bool {
        self.memory_management_unit.wf()
    }

    /// Wraps the physical bus; the page-table root starts at zero.
    pub fn new(memory_management_unit: PhysicalMemoryManagementUnit) -> (r: MemoryManagementUnit)
        requires
            memory_management_unit.wf(),
        ensures
            r.wf(),
            r@ == (MmuView {
                mem: memory_management_unit.mem(),
                writable: memory_management_unit.writable(),
                root: 0u64,
            }),
    {
        MemoryManagementUnit { memory_management_unit, paging_table_address: 0 }
    }

    /// One walk step: reads the entry at slot `index` of the table at `base`.
    fn extract_address(&self, base: u64, index: u64, virtual_address: u64) -> (r: Result<
        u64,
        Interrupt,
    >)
        requires
            self.wf(),
            index < 512,
        ensures
            r == spec_extract(self@.mem, base, index, virtual_address),
            r is Ok ==> r.unwrap() <= 0x7FFF_FFFF_FFFF_F000,
    {
        let entry = self.memory_management_unit.read_u64(base.wrapping_add(8 * index));
        proof {
            lemma_pte_bounds(entry, virtual_address);
        }
        if entry & 1 == 0 {
            Err(Interrupt::PageFault { error_code: 0, cr2: virtual_address })
        } else {
            Ok(entry & 0x7FFF_FFFF_FFFF_F000)
        }
    }

    /// The full 4-level translation of a virtual address.
    fn translate(&self, virtual_address: u64) -> (r: Result<u64, Interrupt>)
        requires
            self.wf(),
        ensures
            r == spec_translate(self@, virtual_address),
    {
        proof {
            reveal(spec_translate);
        }
        match is_cannonical(virtual_address) {
            Err(e) => {
                return Err(e);
            }
            Ok(()) => (),
        }
        proof {
            lemma_pte_bounds(0, virtual_address);
        }
        let level_1 = (virtual_address >> 39) & 0x1FF;
        let level_2 = (virtual_address >> 30) & 0x1FF;
        let level_3 = (virtual_address >> 21) & 0x1FF;
        let level_4 = (virtual_address >> 12) & 0x1FF;
        let offset = virtual_address & 0xFFF;
        let level_2_ptr = match self.extract_address(
            self.paging_table_address,
            level_1,
            virtual_address,
        ) {
            Ok(p) => p,
            Err(e) => {
                return Err(e);
            }
        };
        let level_3_ptr = match self.extract_address(level_2_ptr, level_2, virtual_address) {
            Ok(p) => p,
            Err(e) => {
                return Err(e);
            }
        };
        let level_4_ptr = match self.extract_address(level_3_ptr, level_3, virtual_address) {
            Ok(p) => p,
            Err(e) => {
                return Err(e);
            }
        };
        match self.extract_address(level_4_ptr, level_4, virtual_address) {
            Ok(page) => Ok(page + offset),
            Err(e) => Err(e),
        }
    }

    /// Reads one byte at a virtual address.
    pub fn read_u8(&self, virtual_address: u64) -> (r: Result<u8, Interrupt>)
        requires
            self.wf(),
        ensures
            r == mmu_read8(self@, virtual_address),
    {
        match self.translate(virtual_address) {
            Ok(address) => Ok(self.memory_management_unit.read_u8(address)),
            Err(e) => Err(e),
        }
    }

    /// Reads a little-endian 16-bit word, translating per byte.
    pub fn read_u16(&self, virtual_address: u64) -> (r: Result<u16, Interrupt>)
        requires
            self.wf(),
        ensures
            r == mmu_read16(self@, virtual_address),
    {
        let b0 = match self.read_u8(virtual_address) {
            Ok(b) => b,
            Err(e) => {
                return Err(e);
            }
        };
        let b1 = match self.read_u8(virtual_address.wrapping_add(1)) {
            Ok(b) => b,
            Err(e) => {
                return Err(e);
            }
        };
        Ok((b0 as u16) | ((b1 as u16) << 8))
    }

    /// Reads a little-endian 32-bit word, translating per byte.
    pub fn read_u32(&self, virtual_address: u64) -> (r: Result<u32, Interrupt>)
        requires
            self.wf(),
        ensures
            r == mmu_read32(self@, virtual_address),
    {
        let b0 = match self.read_u8(virtual_address) {
            Ok(b) => b,
            Err(e) => {
                return Err(e);
            }
        };
        let b1 = match self.read_u8(virtual_address.wrapping_add(1)) {
            Ok(b) => b,
            Err(e) => {
                return Err(e);
            }
        };
        let b2 = match self.read_u8(virtual_address.wrapping_add(2)) {
            Ok(b) => b,
            Err(e) => {
                return Err(e);
            }
        };
        let b3 = match self.read_u8(virtual_address.wrapping_add(3)) {
            Ok(b) => b,
            Err(e) => {
                return Err(e);
            }
        };
        Ok((b0 as u32) | ((b1 as u32) << 8) | ((b2 as u32) << 16) | ((b3 as u32) << 24))
    }

    /// Reads a little-endian 64-bit word, translating per byte.
    pub fn read_u64(&self, virtual_address: u64) -> (r: Result<u64, Interrupt>)
        requires
            self.wf(),
        ensures
            r == mmu_read64(self@, virtual_address),
    {
        let b0 = match self.read_u8(virtual_address) {
            Ok(b) => b,
            Err(e) => {
                return Err(e);
            }
        };
        let b1 = match self.read_u8(virtual_address.wrapping_add(1)) {
            Ok(b) => b,
            Err(e) => {
                return Err(e);
            }
        };
        let b2 = match self.read_u8(virtual_address.wrapping_add(2)) {
            Ok(b) => b,
            Err(e) => {
                return Err(e);
            }
        };
        let b3 = match self.read_u8(virtual_address.wrapping_add(3)) {
            Ok(b) => b,
            Err(e) => {
                return Err(e);
            }
        };
        let b4 = match self.read_u8(virtual_address.wrapping_add(4)) {
            Ok(b) => b,
            Err(e) => {
                return Err(e);
            }
        };
        let b5 = match self.read_u8(virtual_address.wrapping_add(5)) {
            Ok(b) => b,
            Err(e) => {
                return Err(e);
            }
        };
        let b6 = match self.read_u8(virtual_address.wrapping_add(6)) {
            Ok(b) => b,
            Err(e) => {
                return Err(e);
            }
        };
        let b7 = match self.read_u8(virtual_address.wrapping_add(7)) {
            Ok(b) => b,
            Err(e) => {
                return Err(e);
            }
        };
        Ok(
            (b0 as u64) | ((b1 as u64) << 8) | ((b2 as u64) << 16) | ((b3 as u64) << 24)
                | ((b4 as u64) << 32) | ((b5 as u64) << 40) | ((b6 as u64) << 48)
                | ((b7 as u64) << 56),
        )
    }

    /// Writes one byte at a virtual address; a translation fault leaves
    /// memory unchanged.
    pub fn write_u8(&mut self, virtual_address: u64, value: u8) -> (r: Result<(), Interrupt>)
        requires
            old(self).wf(),
        ensures
            final(self).wf(),
            ({
                let (v1, e) = mmu_write8(old(self)@, virtual_address, value);
                &&& final(self)@ == v1
                &&& r == (match e {
                    Some(i) => Err::<(), Interrupt>(i),
                    None => Ok(()),
                })
            }),
    {
        match self.translate(virtual_address) {
            Ok(address) => {
                self.memory_management_unit.write_u8(address, value);
                Ok(())
            }
            Err(e) => Err(e),
        }
    }

    /// Writes a little-endian 16-bit word, translating per byte: a fault on
    /// a later byte leaves the earlier bytes written.
    pub fn write_u16(&mut self, virtual_address: u64, value: u16) -> (r: Result<(), Interrupt>)
        requires
            old(self).wf(),
        ensures
            final(self).wf(),
            ({
                let (v1, e) = mmu_write16(old(self)@, virtual_address, value);
                &&& final(self)@ == v1
                &&& r == (match e {
                    Some(i) => Err::<(), Interrupt>(i),
                    None => Ok(()),
                })
            }),
    {
        proof {
            crate::word::lemma_u16_byte0(value);
        }
        match self.write_u8(virtual_address, value as u8) {
            Err(e) => {
                return Err(e);
            }
            Ok(()) => (),
        }
        match self.write_u8(virtual_address.wrapping_add(1), (value >> 8) as u8) {
            Err(e) => {
                return Err(e);
            }
            Ok(()) => (),
        }
        Ok(())
    }

    /// Writes a little-endian 32-bit word, translating per byte; see
    /// `write_u16`.
    pub fn write_u32(&mut self, virtual_address: u64, value: u32) -> (r: Result<(), Interrupt>)
        requires
            old(self).wf(),
        ensures
            final(self).wf(),
            ({
                let (v1, e) = mmu_write32(old(self)@, virtual_address, value);
                &&& final(self)@ == v1
                &&& r == (match e {
                    Some(i) => Err::<(), Interrupt>(i),
                    None => Ok(()),
                })
            }),
    {
        proof {
            crate::word::lemma_u32_byte0(value);
        }
        match self.write_u8(virtual_address, value as u8) {
            Err(e) => {
                return Err(e);
            }
            Ok(()) => (),
        }
        match self.write_u8(virtual_address.wrapping_add(1), (value >> 8) as u8) {
            Err(e) => {
                return Err(e);
            }
            Ok(()) => (),
        }
        match self.write_u8(virtual_address.wrapping_add(2), (value >> 16) as u8) {
            Err(e) => {
                return Err(e);
            }
            Ok(()) => (),
        }
        match self.write_u8(virtual_address.wrapping_add(3), (value >> 24) as u8) {
            Err(e) => {
                return Err(e);
            }
            Ok(()) => (),
        }
        Ok(())
    }

    /// Writes a little-endian 64-bit word, translating per byte; see
    /// `write_u16`.
    pub fn write_u64(&mut self, virtual_address: u64, value: u64) -> (r: Result<(), Interrupt>)
        requires
            old(self).wf(),
        ensures
            final(self).wf(),
            ({
                let (v1, e) = mmu_write64(old(self)@, virtual_address, value);
                &&& final(self)@ == v1
                &&& r == (match e {
                    Some(i) => Err::<(), Interrupt>(i),
                    None => Ok(()),
                })
            }),
    {
        proof {
            crate::word::lemma_u64_byte0(value);
        }
        match self.write_u8(virtual_address, value as u8) {
            Err(e) => {
                return Err(e);
            }
            Ok(()) => (),
        }
        match self.write_u8(virtual_address.wrapping_add(1), (value >> 8) as u8) {
            Err(e) => {
                return Err(e);
            }
            Ok(()) => (),
        }
        match self.write_u8(virtual_address.wrapping_add(2), (value >> 16) as u8) {
            Err(e) => {
                return Err(e);
            }
            Ok(()) => (),
        }
        match self.write_u8(virtual_address.wrapping_add(3), (value >> 24) as u8) {
            Err(e) => {
                return Err(e);
            }
            Ok(()) => (),
        }
        match self.write_u8(virtual_address.wrapping_add(4), (value >> 32) as u8) {
            Err(e) => {
                return Err(e);
            }
            Ok(()) => (),
        }
        match self.write_u8(virtual_address.wrapping_add(5), (value >> 40) as u8) {
            Err(e) => {
                return Err(e);
            }
            Ok(()) => (),
        }
        match self.write_u8(virtual_address.wrapping_add(6), (value >> 48) as u8) {
            Err(e) => {
                return Err(e);
            }
            Ok(()) => (),
        }
        match self.write_u8(virtual_address.wrapping_add(7), (value >> 56) as u8) {
            Err(e) => {
                return Err(e);
            }
            Ok(()) => (),
        }
        Ok(())
    }

    /// Loads the page-table root (the CR3 equivalent).
    pub fn swi4(&mut self, address: u64)
        requires
            old(self).wf(),
        ensures
            final(self).wf(),
            final(self)@ == (MmuView { root: address, ..old(self)@ }),
    {
        self.paging_table_address = address;
    }
}

/// Any access through a non-canonical virtual address surfaces general
/// protection, read or write, at every width.
pub proof fn lemma_non_canonical_faults(v: MmuView, va: u64)
    requires
        !spec_is_cannonical(va),
    ensures
        spec_translate(v, va) == Err::<u64, Interrupt>(Interrupt::GeneralProtection),
        mmu_read8(v, va) == Err::<u8, Interrupt>(Interrupt::GeneralProtection),
        mmu_read16(v, va) == Err::<u16, Interrupt>(Interrupt::GeneralProtection),
        mmu_read32(v, va) == Err::<u32, Interrupt>(Interrupt::GeneralProtection),
        mmu_read64(v, va) == Err::<u64, Interrupt>(Interrupt::GeneralProtection),
        mmu_write8(v, va, 0) == (v, Some(Interrupt::GeneralProtection)),
        forall|x: u16| #[trigger] mmu_write16(v, va, x) == (v, Some(Interrupt::GeneralProtection)),
        forall|x: u32| #[trigger] mmu_write32(v, va, x) == (v, Some(Interrupt::GeneralProtection)),
        forall|x: u64| #[trigger] mmu_write64(v, va, x) == (v, Some(Interrupt::GeneralProtection)),
{
    reveal(spec_translate);
}

/// A failed walk of a canonical address is always a page fault whose `CR2`
/// is the original virtual address and whose error code is zero, whichever
/// level's entry was non-present; general protection arises only from the
/// canonical check.
pub proof fn lemma_translate_fault_shape(v: MmuView, va: u64)
    ensures
        spec_translate(v, va) is Err ==> {
            ||| (spec_translate(v, va) == Err::<u64, Interrupt>(Interrupt::GeneralProtection)
                && !spec_is_cannonical(va))
            ||| spec_translate(v, va) == Err::<u64, Interrupt>(
                Interrupt::PageFault { error_code: 0, cr2: va },
            )
        },
{
    reveal(spec_translate);
}


/// The eight byte addresses of one page-table entry read.
pub open spec fn span8(a: u64) -> Set<u64> {
    Set::new(|x: u64| exists|k: u64| k < 8 && x == wadd(a, k))
}

/// The physical byte addresses a walk of `va` reads: the entry spans of the
/// levels it visits, up to the first non-present entry or all four.
#[verifier::opaque]
pub open spec fn walk_reads(v: MmuView, va: u64) -> Set<u64> {
    let ea1 = wadd(v.root, (8 * level_index(va, 39)) as u64);
    let e1 = spec_read_u64_phys(v.mem, ea1);
    if !pte_present(e1) {
        span8(ea1)
    } else {
        let ea2 = wadd(pte_frame(e1), (8 * level_index(va, 30)) as u64);
        let e2 = spec_read_u64_phys(v.mem, ea2);
        if !pte_present(e2) {
            span8(ea1).union(span8(ea2))
        } else {
            let ea3 = wadd(pte_frame(e2), (8 * level_index(va, 21)) as u64);
            let e3 = spec_read_u64_phys(v.mem, ea3);
            if !pte_present(e3) {
                span8(ea1).union(span8(ea2)).union(span8(ea3))
            } else {
                let ea4 = wadd(pte_frame(e3), (8 * level_index(va, 12)) as u64);
                span8(ea1).union(span8(ea2)).union(span8(ea3)).union(span8(ea4))
            }
        }
    }
}

/// An entry read sees only its own span: memories that agree on `span8(ea)`
/// read the same 64-bit entry at `ea`.
proof fn lemma_entry_frame(m1: Map<u64, u8>, m2: Map<u64, u8>, ea: u64)
    requires
        forall|a: u64| span8(ea).contains(a) ==> m2[a] == m1[a],
    ensures
        spec_read_u64_phys(m2, ea) == spec_read_u64_phys(m1, ea),
{
    assert forall|k: u64| k < 8 implies m2[wadd(ea, k)] == m1[wadd(ea, k)] by {
        assert(span8(ea).contains(wadd(ea, k)));
    }
    assert(m2[wadd(ea, 0)] == m1[wadd(ea, 0)]);
    assert(wadd(ea, 0) == ea);
}

/// Translation reads only the walk footprint: two views with the same root
/// whose memories agree on `walk_reads` translate `va` identically and have
/// the same footprint.
pub proof fn lemma_translate_frame(v1: MmuView, v2: MmuView, va: u64)
    requires
        v1.root == v2.root,
        forall|a: u64| walk_reads(v1, va).contains(a) ==> v2.mem[a] == v1.mem[a],
    ensures
        spec_translate(v2, va) == spec_translate(v1, va),
        walk_reads(v2, va) == walk_reads(v1, va),
{
    reveal(spec_translate);
    reveal(walk_reads);
    let ea1 = wadd(v1.root, (8 * level_index(va, 39)) as u64);
    assert forall|a: u64| span8(ea1).contains(a) implies v2.mem[a] == v1.mem[a] by {}
    lemma_entry_frame(v1.mem, v2.mem, ea1);
    let e1 = spec_read_u64_phys(v1.mem, ea1);
    if pte_present(e1) {
        let ea2 = wadd(pte_frame(e1), (8 * level_index(va, 30)) as u64);
        assert forall|a: u64| span8(ea2).contains(a) implies v2.mem[a] == v1.mem[a] by {
            assert(walk_reads(v1, va).contains(a));
        }
        lemma_entry_frame(v1.mem, v2.mem, ea2);
        let e2 = spec_read_u64_phys(v1.mem, ea2);
        if pte_present(e2) {
            let ea3 = wadd(pte_frame(e2), (8 * level_index(va, 21)) as u64);
            assert forall|a: u64| span8(ea3).contains(a) implies v2.mem[a] == v1.mem[a] by {
                assert(walk_reads(v1, va).contains(a));
            }
            lemma_entry_frame(v1.mem, v2.mem, ea3);
            let e3 = spec_read_u64_phys(v1.mem, ea3);
            if pte_present(e3) {
                let ea4 = wadd(pte_frame(e3), (8 * level_index(va, 12)) as u64);
                assert forall|a: u64| span8(ea4).contains(a) implies v2.mem[a] == v1.mem[a] by {
                    assert(walk_reads(v1, va).contains(a));
                }
                lemma_entry_frame(v1.mem, v2.mem, ea4);
            }
        }
    }
    assert(walk_reads(v2, va) =~= walk_reads(v1, va));
}

/// A byte write whose target lies outside the walk footprint of `va`
/// disturbs neither the translation of `va` nor the footprint itself.
pub proof fn lemma_write8_preserves_walk(v: MmuView, wa: u64, b: u8, va: u64)
    requires
        spec_translate(v, wa) is Ok,
        !walk_reads(v, va).contains(spec_translate(v, wa)->Ok_0),
    ensures
        ({
            let (v1, e) = mmu_write8(v, wa, b);
            &&& e is None
            &&& v1.root == v.root
            &&& v1.writable == v.writable
            &&& v1.mem == phys_write1(v.mem, v.writable, spec_translate(v, wa)->Ok_0, b)
            &&& spec_translate(v1, va) == spec_translate(v, va)
            &&& walk_reads(v1, va) == walk_reads(v, va)
        }),
{
    let pa = spec_translate(v, wa)->Ok_0;
    let (v1, e) = mmu_write8(v, wa, b);
    assert forall|a: u64| walk_reads(v, va).contains(a) implies v1.mem[a] == v.mem[a] by {}
    lemma_translate_frame(v, v1, va);
}

/// The MMU round trip: when the eight bytes of a 64-bit span translate to
/// distinct writable physical addresses, none of which lies in the walk
/// footprint of any byte of the span (as under identity paging, whose
/// tables sit apart from the data), writing a word and reading it back
/// yields the word.
#[verifier::rlimit(100)]
#[verifier::spinoff_prover]
pub proof fn lemma_mmu_round_trip_u64(v: MmuView, va: u64, x: u64)
    requires
        forall|k: u64| k < 8 ==> (#[trigger] spec_translate(v, wadd(va, k))) is Ok,
        forall|k: u64|
            k < 8 ==> v.writable.contains(#[trigger] spec_translate(v, wadd(va, k))->Ok_0),
        forall|j: u64, k: u64|
            j < 8 && k < 8 && j != k ==> spec_translate(v, wadd(va, j))->Ok_0 != spec_translate(
                v,
                wadd(va, k),
            )->Ok_0,
        forall|j: u64, k: u64|
            j < 8 && k < 8 ==> !(#[trigger] walk_reads(v, wadd(va, k)).contains(
                spec_translate(v, wadd(va, j))->Ok_0,
            )),
    ensures
        ({
            let (v1, e) = mmu_write64(v, va, x);
            &&& e is None
            &&& mmu_read64(v1, va) == Ok::<u64, Interrupt>(x)
        }),
{
    assert(wadd(va, 0) == va);
    let pa = Seq::new(8, |k: int| spec_translate(v, wadd(va, k as u64))->Ok_0);
    let w0 = v;
    let (w1, e1) = mmu_write8(w0, wadd(va, 0), u64_byte(x, 0));
    assert forall|k: u64|
        k < 8 implies spec_translate(w1, wadd(va, k)) == spec_translate(v, wadd(va, k))
        && walk_reads(w1, wadd(va, k)) == walk_reads(v, wadd(va, k)) by {
        lemma_write8_preserves_walk(w0, wadd(va, 0), u64_byte(x, 0), wadd(va, k));
    }
    let (w2, e2) = mmu_write8(w1, wadd(va, 1), u64_byte(x, 1));
    assert forall|k: u64|
        k < 8 implies spec_translate(w2, wadd(va, k)) == spec_translate(v, wadd(va, k))
        && walk_reads(w2, wadd(va, k)) == walk_reads(v, wadd(va, k)) by {
        lemma_write8_preserves_walk(w1, wadd(va, 1), u64_byte(x, 1), wadd(va, k));
    }
    let (w3, e3) = mmu_write8(w2, wadd(va, 2), u64_byte(x, 2));
    assert forall|k: u64|
        k < 8 implies spec_translate(w3, wadd(va, k)) == spec_translate(v, wadd(va, k))
        && walk_reads(w3, wadd(va, k)) == walk_reads(v, wadd(va, k)) by {
        lemma_write8_preserves_walk(w2, wadd(va, 2), u64_byte(x, 2), wadd(va, k));
    }
    let (w4, e4) = mmu_write8(w3, wadd(va, 3), u64_byte(x, 3));
    assert forall|k: u64|
        k < 8 implies spec_translate(w4, wadd(va, k)) == spec_translate(v, wadd(va, k))
        && walk_reads(w4, wadd(va, k)) == walk_reads(v, wadd(va, k)) by {
        lemma_write8_preserves_walk(w3, wadd(va, 3), u64_byte(x, 3), wadd(va, k));
    }
    let (w5, e5) = mmu_write8(w4, wadd(va, 4), u64_byte(x, 4));
    assert forall|k: u64|
        k < 8 implies spec_translate(w5, wadd(va, k)) == spec_translate(v, wadd(va, k))
        && walk_reads(w5, wadd(va, k)) == walk_reads(v, wadd(va, k)) by {
        lemma_write8_preserves_walk(w4, wadd(va, 4), u64_byte(x, 4), wadd(va, k));
    }
    let (w6, e6) = mmu_write8(w5, wadd(va, 5), u64_byte(x, 5));
    assert forall|k: u64|
        k < 8 implies spec_translate(w6, wadd(va, k)) == spec_translate(v, wadd(va, k))
        && walk_reads(w6, wadd(va, k)) == walk_reads(v, wadd(va, k)) by {
        lemma_write8_preserves_walk(w5, wadd(va, 5), u64_byte(x, 5), wadd(va, k));
    }
    let (w7, e7) = mmu_write8(w6, wadd(va, 6), u64_byte(x, 6));
    assert forall|k: u64|
        k < 8 implies spec_translate(w7, wadd(va, k)) == spec_translate(v, wadd(va, k))
        && walk_reads(w7, wadd(va, k)) == walk_reads(v, wadd(va, k)) by {
        lemma_write8_preserves_walk(w6, wadd(va, 6), u64_byte(x, 6), wadd(va, k));
    }
    let (w8, e8) = mmu_write8(w7, wadd(va, 7), u64_byte(x, 7));
    assert forall|k: u64|
        k < 8 implies spec_translate(w8, wadd(va, k)) == spec_translate(v, wadd(va, k))
        && walk_reads(w8, wadd(va, k)) == walk_reads(v, wadd(va, k)) by {
        lemma_write8_preserves_walk(w7, wadd(va, 7), u64_byte(x, 7), wadd(va, k));
    }
    assert(mmu_write64(v, va, x) == (w8, Option::<Interrupt>::None));
    assert forall|k: u64| k < 8 implies w8.mem[pa[k as int]] == u64_byte(x, k) by {}
    crate::word::lemma_le64_of_bytes(x);
    assert(mmu_read64(w8, va) == Ok::<u64, Interrupt>(x));
}

} // verus!
