//! A view of one block as a slotted page: header fields, slot table, index
//! entries and the trailing metadata of an index page.

use vstd::prelude::*;
use crate::layout::{
    read_u16, read_u32, u16_at, u32_at, BLOCK_SIZE, INDEX_TUPLE_HEAD_SIZE, ITEM_ID_SIZE,
    OPAQUE_SIZE, PAGE_HEADER_SIZE, PD_LOWER_OFFSET, PD_SPECIAL_OFFSET, PD_UPPER_OFFSET,
};

verus! {

/// Number of a block within an index file.
pub type BlockNumber = u32;

/// One-based position of a slot within a page.
pub type OffsetNumber = u16;

/// Position of the first slot of a page.
pub const FIRST_OFFSET_NUMBER: OffsetNumber = 1;

/// The block number that stands for "no block".
pub const INVALID_BLOCK_NUMBER: BlockNumber = 0xFFFF_FFFF;

/// Value of the flags of a page that is a leaf.
pub const F_LEAF: u16 = 1;

/// Slot position stored in the downlink of an entry that is a placeholder.
pub const TUPLE_IS_INVALID: OffsetNumber = 0xFFFE;

/// Why a page could not be decoded.
#[derive(Debug, Clone, Copy, PartialEq, Eq, Structural)]
pub enum PageError {
    /// The block does not have the size of a block.
    WrongSize,
    /// A slot position outside `1..=max_offset`.
    OutOfRange,
    /// The page refers to bytes that it does not have.
    LayoutViolation,
}

/// The boundaries that the page header records.
#[derive(Debug, Clone, Copy, PartialEq, Eq, Structural)]
pub struct PageHeaderData {
    /// End of the slot table.
    pub pd_lower: u16,
    /// Start of the item data.
    pub pd_upper: u16,
    /// Start of the trailing special region.
    pub pd_special: u16,
}

/// One entry of the slot table.
#[derive(Debug, Clone, Copy, PartialEq, Eq, Structural)]
pub struct ItemIdData {
    /// Offset of the item within the page.
    pub lp_off: u16,
    /// State of the slot.
    pub lp_flags: u8,
    /// Length of the item in bytes.
    pub lp_len: u16,
}

/// A reference to a place in the file: a block number in two halves and a
/// slot position.
#[derive(Debug, Clone, Copy, PartialEq, Eq, Structural)]
pub struct ItemPointerData {
    /// High half of the block number.
    pub bi_hi: u16,
    /// Low half of the block number.
    pub bi_lo: u16,
    /// Slot position.
    pub ip_posid: OffsetNumber,
}

/// The fixed head of an index entry.
#[derive(Debug, Clone, Copy, PartialEq, Eq, Structural)]
pub struct IndexTuple {
    /// On an internal page, the downlink.
    pub t_tid: ItemPointerData,
    /// Size and flag bits of the entry.
    pub t_info: u16,
}

/// The trailing metadata of an index page.
#[derive(Debug, Clone, Copy, PartialEq, Eq, Structural)]
pub struct GistPageOpaqueData {
    /// Right sibling, or `INVALID_BLOCK_NUMBER`.
    pub rightlink: BlockNumber,
    /// Kind of the page.
    pub flags: u16,
    /// Identification of the index type.
    pub gist_page_id: u16,
}

/// The header boundaries of a block.
pub open spec fn header_of(block: Seq<u8>) -> PageHeaderData {
    PageHeaderData {
        pd_lower: u16_at(block, PD_LOWER_OFFSET as int) as u16,
        pd_upper: u16_at(block, PD_UPPER_OFFSET as int) as u16,
        pd_special: u16_at(block, PD_SPECIAL_OFFSET as int) as u16,
    }
}

/// Whether the header boundaries are in order and within the block.
pub open spec fn consistent(block: Seq<u8>) -> bool {
    let h = header_of(block);
    h.pd_lower <= h.pd_upper && h.pd_upper <= h.pd_special && h.pd_special as int
        <= BLOCK_SIZE as int
}

/// Whether `block` can be taken as a page: it has the size of a block and its
/// header is consistent.
pub open spec fn valid_block(block: Seq<u8>) -> bool {
    block.len() == BLOCK_SIZE as nat && consistent(block)
}

/// Number of populated slots: the slot table's length in entries, 0 where the
/// lower boundary does not lie beyond the header.
pub open spec fn max_offset_of(block: Seq<u8>) -> int {
    let lower = header_of(block).pd_lower as int;
    if lower <= PAGE_HEADER_SIZE as int {
        0
    } else {
        (lower - PAGE_HEADER_SIZE as int) / (ITEM_ID_SIZE as int)
    }
}

/// Free bytes by the storage format's accounting: the gap between the slot
/// table and the item data less the room of one more slot entry, 0 where the
/// gap is smaller than that.
pub open spec fn free_space_of(block: Seq<u8>) -> int {
    let gap = header_of(block).pd_upper as int - header_of(block).pd_lower as int;
    if gap < ITEM_ID_SIZE as int {
        0
    } else {
        gap - ITEM_ID_SIZE as int
    }
}

/// Whether the special-region offset lies within `[header size, block size]`.
pub open spec fn is_special_of(block: Seq<u8>) -> bool {
    PAGE_HEADER_SIZE as int <= header_of(block).pd_special as int <= BLOCK_SIZE as int
}

/// Whether the block has a special region with room for the metadata of an
/// index page.
pub open spec fn has_opaque(block: Seq<u8>) -> bool {
    is_special_of(block) && header_of(block).pd_special as int + OPAQUE_SIZE as int
        <= BLOCK_SIZE as int
}

/// The metadata of an index page, read at the special-region offset.
pub open spec fn opaque_of(block: Seq<u8>) -> GistPageOpaqueData {
    let at = header_of(block).pd_special as int;
    GistPageOpaqueData {
        rightlink: u32_at(block, at + 8) as u32,
        flags: u16_at(block, at + 12) as u16,
        gist_page_id: u16_at(block, at + 14) as u16,
    }
}

/// Offset within the block of the slot entry at one-based `offset`.
pub open spec fn slot_at(offset: int) -> int {
    PAGE_HEADER_SIZE as int + (ITEM_ID_SIZE as int) * (offset - 1)
}

/// The slot entry that a 32-bit word encodes: 15 bits of offset, 2 bits of
/// flags, 15 bits of length, from the least significant bit up.
pub open spec fn item_id_of_word(word: int) -> ItemIdData {
    ItemIdData {
        lp_off: (word % 32768) as u16,
        lp_flags: ((word / 32768) % 4) as u8,
        lp_len: (word / 131072) as u16,
    }
}

/// What `Page::item_id` returns for a block and a one-based slot position.
pub open spec fn item_id_of(block: Seq<u8>, offset: int) -> Result<ItemIdData, PageError> {
    if !(1 <= offset <= max_offset_of(block)) {
        Err(PageError::OutOfRange)
    } else {
        Ok(item_id_of_word(u32_at(block, slot_at(offset))))
    }
}

/// What `Page::get_index_tuple` returns for a block and a slot entry.
pub open spec fn index_tuple_of(block: Seq<u8>, item_id: ItemIdData) -> Result<
    IndexTuple,
    PageError,
> {
    let at = item_id.lp_off as int;
    if at + INDEX_TUPLE_HEAD_SIZE as int > BLOCK_SIZE as int {
        Err(PageError::LayoutViolation)
    } else {
        Ok(
            IndexTuple {
                t_tid: ItemPointerData {
                    bi_hi: u16_at(block, at) as u16,
                    bi_lo: u16_at(block, at + 2) as u16,
                    ip_posid: u16_at(block, at + 4) as u16,
                },
                t_info: u16_at(block, at + 6) as u16,
            },
        )
    }
}

/// Whether metadata marks a leaf: its flags equal the leaf marker.
pub open spec fn is_leaf_of(opaque: GistPageOpaqueData) -> bool {
    opaque.flags == F_LEAF
}

/// The right sibling that metadata names, if any.
pub open spec fn right_link_of(opaque: GistPageOpaqueData) -> Option<BlockNumber> {
    if opaque.rightlink == INVALID_BLOCK_NUMBER {
        None
    } else {
        Some(opaque.rightlink)
    }
}

/// The head of the entry behind the slot at one-based `offset`.
pub open spec fn downlink_of(block: Seq<u8>, offset: int) -> Result<IndexTuple, PageError> {
    match item_id_of(block, offset) {
        Err(e) => Err(e),
        Ok(item_id) => index_tuple_of(block, item_id),
    }
}

/// The block number that a reference holds: its high half times 65536 plus
/// its low half.
pub open spec fn blk_num_of(ptr: ItemPointerData) -> int {
    65536 * (ptr.bi_hi as int) + ptr.bi_lo as int
}

/// Combines the two halves of the block number of `ptr`.
pub fn item_ptr_get_blk_num(ptr: ItemPointerData) -> (blk: BlockNumber)
    ensures
        blk as int == blk_num_of(ptr),
{
    let hi: u32 = ptr.bi_hi as u32;
    let lo: u32 = ptr.bi_lo as u32;
    assert(((hi << 16) | lo) == hi * 65536 + lo) by (bit_vector)
        requires
            hi < 65536,
            lo < 65536,
    ;
    (hi << 16) | lo
}

impl IndexTuple {
    /// The child page that the entry of an internal page points to.
    pub open spec fn spec_block_num(self) -> int {
        blk_num_of(self.t_tid)
    }

    /// Whether the entry is a placeholder downlink.
    pub open spec fn spec_is_invalid(self) -> bool {
        self.t_tid.ip_posid == TUPLE_IS_INVALID
    }

    /// The child page that the entry of an internal page points to.
    pub fn block_num(&self) -> (blk: BlockNumber)
        ensures
            blk as int == self.spec_block_num(),
    {
        item_ptr_get_blk_num(self.t_tid)
    }

    /// Whether the entry carries the mark of a placeholder downlink.
    pub fn is_invalid(&self) -> (b: bool)
        ensures
            b == self.spec_is_invalid(),
    {
        self.t_tid.ip_posid == TUPLE_IS_INVALID
    }
}

/// One block of an index file, seen as a slotted page.
#[derive(Debug, Clone, Copy)]
pub struct Page<'a> {
    bytes: &'a [u8],
}

impl<'a> View for Page<'a> {
    type V = Seq<u8>;

    closed spec fn view(&self) -> Seq<u8> {
        self.bytes@
    }
}

impl<'a> Page<'a> {
    #[verifier::type_invariant]
    spec fn well_formed(self) -> bool {
        valid_block(self.bytes@)
    }

    /// Takes a block as a page. A block of another size than `BLOCK_SIZE` is
    /// refused as `WrongSize`; one of that size whose header boundaries are
    /// out of order or beyond the block, as a layout violation.
    pub fn new(bytes: &'a [u8]) -> (r: Result<Page<'a>, PageError>)
        ensures
            valid_block(bytes@) ==> r is Ok && r->Ok_0@ == bytes@,
            bytes@.len() != BLOCK_SIZE as nat ==> r == Err::<Page<'a>, PageError>(
                PageError::WrongSize,
            ),
            bytes@.len() == BLOCK_SIZE as nat && !consistent(bytes@) ==> r == Err::<
                Page<'a>,
                PageError,
            >(PageError::LayoutViolation),
    {
        if bytes.len() != BLOCK_SIZE {
            return Err(PageError::WrongSize);
        }
        let pd_lower: u16 = read_u16(bytes, PD_LOWER_OFFSET);
        let pd_upper: u16 = read_u16(bytes, PD_UPPER_OFFSET);
        let pd_special: u16 = read_u16(bytes, PD_SPECIAL_OFFSET);
        if pd_lower <= pd_upper && pd_upper <= pd_special && pd_special as usize <= BLOCK_SIZE {
            Ok(Page { bytes })
        } else {
            Err(PageError::LayoutViolation)
        }
    }

    /// The bytes of the block.
    pub fn as_bytes(&self) -> (bytes: &'a [u8])
        ensures
            bytes@ == self@,
            valid_block(bytes@),
    {
        proof {
            use_type_invariant(self);
        }
        self.bytes
    }

    /// The boundaries recorded in the header.
    pub fn header(&self) -> (h: PageHeaderData)
        ensures
            h == header_of(self@),
            valid_block(self@),
    {
        proof {
            use_type_invariant(self);
        }
        PageHeaderData {
            pd_lower: read_u16(self.bytes, PD_LOWER_OFFSET),
            pd_upper: read_u16(self.bytes, PD_UPPER_OFFSET),
            pd_special: read_u16(self.bytes, PD_SPECIAL_OFFSET),
        }
    }

    /// Number of populated slots.
    pub fn max_offset(&self) -> (n: OffsetNumber)
        ensures
            n as int == max_offset_of(self@),
    {
        let header = self.header();
        let size_of_page_header_data: u16 = PAGE_HEADER_SIZE as u16;
        if header.pd_lower <= size_of_page_header_data {
            0
        } else {
            (header.pd_lower - size_of_page_header_data) / (ITEM_ID_SIZE as u16)
        }
    }

    /// Whether the special-region offset lies within the block, behind the
    /// header.
    pub fn is_special(&self) -> (b: bool)
        ensures
            b == is_special_of(self@),
    {
        let i: u16 = self.header().pd_special;
        i as usize <= BLOCK_SIZE && i as usize >= PAGE_HEADER_SIZE
    }

    /// Reads the trailing region as the metadata of an index page. Fails with
    /// a layout violation where the page has no special region, or one too
    /// small to hold the metadata.
    pub fn as_special(&self) -> (r: Result<GistPageOpaqueData, PageError>)
        ensures
            has_opaque(self@) ==> r == Ok::<GistPageOpaqueData, PageError>(opaque_of(self@)),
            !has_opaque(self@) ==> r == Err::<GistPageOpaqueData, PageError>(
                PageError::LayoutViolation,
            ),
    {
        proof {
            use_type_invariant(self);
        }
        if !self.is_special() {
            return Err(PageError::LayoutViolation);
        }
        let at: usize = self.header().pd_special as usize;
        if at + OPAQUE_SIZE > BLOCK_SIZE {
            return Err(PageError::LayoutViolation);
        }
        Ok(
            GistPageOpaqueData {
                rightlink: read_u32(self.bytes, at + 8),
                flags: read_u16(self.bytes, at + 12),
                gist_page_id: read_u16(self.bytes, at + 14),
            },
        )
    }

    /// The slot at one-based position `offset`. Fails with `OutOfRange` where
    /// `offset` is outside `1..=max_offset()`.
    pub fn item_id(&self, offset: usize) -> (r: Result<ItemIdData, PageError>)
        ensures
            r == item_id_of(self@, offset as int),
    {
        proof {
            use_type_invariant(self);
        }
        let max_offset: usize = self.max_offset() as usize;
        if offset < 1 || offset > max_offset {
            return Err(PageError::OutOfRange);
        }
        let at: usize = PAGE_HEADER_SIZE + ITEM_ID_SIZE * (offset - 1);
        let word: u32 = read_u32(self.bytes, at);
        Ok(
            ItemIdData {
                lp_off: (word % 32768) as u16,
                lp_flags: ((word / 32768) % 4) as u8,
                lp_len: (word / 131072) as u16,
            },
        )
    }

    /// The offset within the page of the item that a slot refers to.
    pub fn get_item(&self, item_id: ItemIdData) -> (at: usize)
        ensures
            at == item_id.lp_off,
    {
        item_id.lp_off as usize
    }

    /// The head of the index entry that a slot refers to. Fails with a layout
    /// violation where the head would reach beyond the block.
    pub fn get_index_tuple(&self, item_id: ItemIdData) -> (r: Result<IndexTuple, PageError>)
        ensures
            r == index_tuple_of(self@, item_id),
    {
        proof {
            use_type_invariant(self);
        }
        let at: usize = self.get_item(item_id);
        if at + INDEX_TUPLE_HEAD_SIZE > BLOCK_SIZE {
            return Err(PageError::LayoutViolation);
        }
        Ok(
            IndexTuple {
                t_tid: ItemPointerData {
                    bi_hi: read_u16(self.bytes, at),
                    bi_lo: read_u16(self.bytes, at + 2),
                    ip_posid: read_u16(self.bytes, at + 4),
                },
                t_info: read_u16(self.bytes, at + 6),
            },
        )
    }

    /// Free bytes between the slot table and the item data, by the storage
    /// format's accounting.
    pub fn free_space(&self) -> (free: usize)
        ensures
            free as int == free_space_of(self@),
            free <= BLOCK_SIZE,
    {
        let header = self.header();
        let gap: usize = (header.pd_upper - header.pd_lower) as usize;
        if gap < ITEM_ID_SIZE {
            0
        } else {
            gap - ITEM_ID_SIZE
        }
    }
}

/// The typed view of the trailing metadata of an index page.
pub struct GistPage {
    opaque: GistPageOpaqueData,
}

impl GistPage {
    /// The metadata that the view holds.
    pub closed spec fn opaque(self) -> GistPageOpaqueData {
        self.opaque
    }

    /// The metadata of `page`. Fails as `Page::as_special` does.
    pub fn new(page: &Page) -> (r: Result<GistPage, PageError>)
        ensures
            has_opaque(page@) ==> r is Ok && r->Ok_0.opaque() == opaque_of(page@),
            !has_opaque(page@) ==> r is Err && r->Err_0 == PageError::LayoutViolation,
    {
        match page.as_special() {
            Ok(opaque) => Ok(GistPage { opaque }),
            Err(e) => Err(e),
        }
    }

    /// Whether the page is a leaf.
    pub fn is_leaf(&self) -> (b: bool)
        ensures
            b == is_leaf_of(self.opaque()),
    {
        self.opaque.flags == F_LEAF
    }

    /// The right sibling of the page, `None` where the stored number is the
    /// one that stands for "no block".
    pub fn right_link(&self) -> (r: Option<BlockNumber>)
        ensures
            r == right_link_of(self.opaque()),
    {
        if self.opaque.rightlink == INVALID_BLOCK_NUMBER {
            None
        } else {
            Some(self.opaque.rightlink)
        }
    }
}

} // verus!
