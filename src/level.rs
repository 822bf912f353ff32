//! One level of a page table hierarchy: which virtual address bits index it, and how its entries
//! say "present" and "huge page". Virtual addresses are 64-bit words.
use vstd::prelude::*;

verus! {

/// Describes a single level of the page hierarchy.
#[derive(Clone, Copy, Debug)]
pub struct PageLevel {
    /// The bit position of this level's index within a virtual address; also the base-2
    /// logarithm of the size of a page at this level.
    pub shift_bits: u64,
    /// The number of virtual address bits that index this level.
    pub va_bits: u64,
    /// An entry is present when its bits under the first mask equal the second value.
    pub present_bit: (u64, u64),
    /// With a non-zero first mask, a present entry whose bits under the mask equal the second
    /// value maps a huge page. A zero mask means that the level has no huge pages.
    pub huge_page_bit: (u64, u64),
    /// The bits set in a freshly allocated entry that refers to a child page table.
    pub page_table_mask: u64,
}

/// The mask of the low `bits` bits: `(1 << bits) - 1`.
pub open spec fn low_mask(bits: u64) -> u64 {
    ((1u64 << bits) - 1) as u64
}

proof fn lemma_pow2_below_word(e: u64)
    requires
        e < 64,
    ensures
        vstd::arithmetic::power2::pow2(e as nat) <= u64::MAX,
{
    vstd::arithmetic::power2::lemma2_to64();
    vstd::arithmetic::power2::lemma2_to64_rest();
    vstd::arithmetic::power2::lemma_pow2_strictly_increases(e as nat, 64);
}

impl PageLevel {
    /// Both shifts stay below the width of an address.
    pub open spec fn shifts_fit(self) -> bool {
        self.shift_bits < 64 && self.va_bits < 64
    }

    /// The number of entries in a table of this level.
    pub open spec fn spec_entries(self) -> u64 {
        1u64 << self.va_bits
    }

    /// The size of a page of this level.
    pub open spec fn spec_page_size(self) -> u64 {
        1u64 << self.shift_bits
    }

    /// The address bits that index this level.
    pub open spec fn spec_mask(self) -> u64 {
        low_mask(self.va_bits) << self.shift_bits
    }

    /// The last address of the page of this level that holds `addr`.
    pub open spec fn spec_end(self, addr: u64) -> u64 {
        addr | low_mask(self.shift_bits)
    }

    /// The index of the entry of this level that covers `addr`.
    pub open spec fn spec_pte_index(self, addr: u64) -> u64 {
        (addr >> self.shift_bits) & low_mask(self.va_bits)
    }

    /// Whether `pte` is present at this level.
    pub open spec fn spec_is_present(self, pte: u64) -> bool {
        pte & self.present_bit.0 == self.present_bit.1
    }

    /// Whether `pte` maps a huge page at this level: a level with huge pages, and the present
    /// and huge-page patterns together.
    pub open spec fn spec_is_huge_page(self, pte: u64) -> bool {
        self.huge_page_bit.0 != 0 && pte & (self.present_bit.0 | self.huge_page_bit.0) == (
        self.present_bit.1 | self.huge_page_bit.1)
    }

    /// Calculates the number of entries in a page table of this level.
    pub fn entries(&self) -> (r: u64)
        requires
            self.va_bits < 64,
        ensures
            r == self.spec_entries(),
            r as nat == vstd::arithmetic::power2::pow2(self.va_bits as nat),
    {
        proof {
            lemma_pow2_below_word(self.va_bits);
            vstd::bits::lemma_u64_shl_is_mul(1, self.va_bits);
        }
        1u64 << self.va_bits
    }

    /// Calculates the page size of this level.
    pub fn page_size(&self) -> (r: u64)
        requires
            self.shift_bits < 64,
        ensures
            r == self.spec_page_size(),
            r >= 1,
            r as nat == vstd::arithmetic::power2::pow2(self.shift_bits as nat),
    {
        proof {
            lemma_pow2_below_word(self.shift_bits);
            vstd::bits::lemma_u64_shl_is_mul(1, self.shift_bits);
            vstd::arithmetic::power2::lemma_pow2_pos(self.shift_bits as nat);
        }
        1u64 << self.shift_bits
    }

    /// Calculates the mask that selects this level's index bits from a virtual address.
    pub fn mask(&self) -> (r: u64)
        requires
            self.shifts_fit(),
        ensures
            r == self.spec_mask(),
    {
        let bits = self.va_bits;
        assert(1u64 << bits >= 1) by (bit_vector)
            requires
                bits < 64,
        ;
        ((1u64 << self.va_bits) - 1) << self.shift_bits
    }

    /// The last virtual address of the page of this level that holds `addr`. Adding one gives the
    /// first address of the next page.
    pub fn end(&self, addr: u64) -> (r: u64)
        requires
            self.shift_bits < 64,
        ensures
            r == self.spec_end(addr),
            r >= addr,
    {
        let bits = self.shift_bits;
        assert(1u64 << bits >= 1) by (bit_vector)
            requires
                bits < 64,
        ;
        assert(addr | (((1u64 << bits) - 1) as u64) >= addr) by (bit_vector);
        addr | ((1u64 << self.shift_bits) - 1)
    }

    /// The index, in a page table of this level, of the entry that covers `addr`.
    pub fn pte_index(&self, addr: u64) -> (r: u64)
        requires
            self.shifts_fit(),
        ensures
            r == self.spec_pte_index(addr),
            r < self.spec_entries(),
    {
        let bits = self.va_bits;
        let s = self.shift_bits;
        assert(1u64 << bits >= 1) by (bit_vector)
            requires
                bits < 64,
        ;
        assert((addr >> s) & (((1u64 << bits) - 1) as u64) < 1u64 << bits) by (bit_vector)
            requires
                bits < 64,
        ;
        (addr >> self.shift_bits) & ((1u64 << self.va_bits) - 1)
    }

    /// Whether the entry refers to a present page or page table.
    pub fn is_present(&self, pte: u64) -> (r: bool)
        ensures
            r == self.spec_is_present(pte),
    {
        (pte & self.present_bit.0) == self.present_bit.1
    }

    /// Whether the entry maps a huge page; always `false` on a level without huge pages.
    pub fn is_huge_page(&self, pte: u64) -> (r: bool)
        ensures
            r == self.spec_is_huge_page(pte),
    {
        if self.huge_page_bit.0 != 0 {
            let mask = self.present_bit.0 | self.huge_page_bit.0;
            let value = self.present_bit.1 | self.huge_page_bit.1;

            (pte & mask) == value
        } else {
            false
        }
    }
}

/// The index of an address at a level is its bits from `shift_bits` on, `va_bits` of them; and
/// the last address of its page keeps all of the address's index bits.
pub proof fn lemma_index_decomposition(level: PageLevel, a: u64)
    requires
        level.shifts_fit(),
    ensures
        level.spec_pte_index(a) == (a >> level.shift_bits) & (((1u64 << level.va_bits) - 1) as u64),
        level.spec_end(a) | (a & level.spec_mask()) == level.spec_end(a),
{
    let s = level.shift_bits;
    let v = level.va_bits;
    assert(((a | (((1u64 << s) - 1) as u64)) | (a & ((((1u64 << v) - 1) as u64) << s))) == (a | (((
    1u64 << s) - 1) as u64))) by (bit_vector);
}

/// A present entry that also carries the huge-page pattern of a level with huge pages is a huge
/// page there, so a walk stops at it.
pub proof fn lemma_present_huge_is_page(level: PageLevel, pte: u64)
    requires
        level.huge_page_bit.0 != 0,
        pte & level.present_bit.0 == level.present_bit.1,
        pte & level.huge_page_bit.0 == level.huge_page_bit.1,
    ensures
        level.spec_is_huge_page(pte),
{
    let pm = level.present_bit.0;
    let pv = level.present_bit.1;
    let hm = level.huge_page_bit.0;
    let hv = level.huge_page_bit.1;
    assert(pte & (pm | hm) == (pv | hv)) by (bit_vector)
        requires
            pte & pm == pv,
            pte & hm == hv,
    ;
}

} // verus!
