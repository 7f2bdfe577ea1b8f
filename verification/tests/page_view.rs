use gevel::layout::{read_u16, read_u32, BLOCK_SIZE};
use gevel::page::{
    item_ptr_get_blk_num, GistPage, GistPageOpaqueData, IndexTuple, ItemIdData, ItemPointerData,
    Page, PageError, PageHeaderData,
};

fn put_u16(block: &mut [u8], at: usize, value: u16) {
    block[at] = (value & 0xff) as u8;
    block[at + 1] = (value >> 8) as u8;
}

fn put_u32(block: &mut [u8], at: usize, value: u32) {
    put_u16(block, at, (value & 0xffff) as u16);
    put_u16(block, at + 2, (value >> 16) as u16);
}

/// A block with the given header boundaries and nothing else.
fn block_with(lower: u16, upper: u16, special: u16) -> Vec<u8> {
    let mut block = vec![0u8; BLOCK_SIZE];
    put_u16(&mut block, 12, lower);
    put_u16(&mut block, 14, upper);
    put_u16(&mut block, 16, special);
    block
}

#[test]
fn little_endian_fields() {
    let bytes = [0x34u8, 0x12, 0x78, 0x56, 0xff];
    assert_eq!(read_u16(&bytes, 0), 0x1234);
    assert_eq!(read_u16(&bytes, 1), 0x7812);
    assert_eq!(read_u32(&bytes, 0), 0x5678_1234);
    assert_eq!(read_u32(&bytes, 1), 0xff56_7812);
}

#[test]
fn a_block_of_another_size_is_refused() {
    assert_eq!(Page::new(&[]).err(), Some(PageError::WrongSize));
    assert_eq!(Page::new(&vec![0u8; BLOCK_SIZE - 1]).err(), Some(PageError::WrongSize));
    assert_eq!(Page::new(&vec![0u8; BLOCK_SIZE + 1]).err(), Some(PageError::WrongSize));
    assert!(Page::new(&vec![0u8; BLOCK_SIZE]).is_ok());
}

#[test]
fn boundaries_out_of_order_are_a_layout_violation() {
    assert_eq!(
        Page::new(&block_with(100, 99, 8176)).err(),
        Some(PageError::LayoutViolation)
    );
    assert_eq!(
        Page::new(&block_with(24, 8177, 8176)).err(),
        Some(PageError::LayoutViolation)
    );
    assert_eq!(
        Page::new(&block_with(24, 8192, 8193)).err(),
        Some(PageError::LayoutViolation)
    );
    assert_eq!(
        Page::new(&block_with(9000, 9000, 9000)).err(),
        Some(PageError::LayoutViolation)
    );
    assert!(Page::new(&block_with(24, 8192, 8192)).is_ok());
    assert!(Page::new(&block_with(8192, 8192, 8192)).is_ok());
}

#[test]
fn page_keeps_its_bytes() {
    let block = block_with(40, 8000, 8176);
    let page = Page::new(&block).unwrap();
    assert_eq!(page.as_bytes(), &block[..]);
    assert_eq!(
        page.header(),
        PageHeaderData { pd_lower: 40, pd_upper: 8000, pd_special: 8176 }
    );
}

#[test]
fn max_offset_counts_slot_entries() {
    let cases: [(u16, u16); 8] =
        [(24, 0), (27, 0), (28, 1), (31, 1), (32, 2), (424, 100), (8176, 2038), (8192, 2042)];
    for (lower, expected) in cases {
        let block = block_with(lower, 8192, 8192);
        assert_eq!(Page::new(&block).unwrap().max_offset(), expected);
    }
}

#[test]
fn max_offset_is_zero_up_to_the_header() {
    for lower in [0u16, 1, 12, 23, 24] {
        let block = block_with(lower, 8000, 8176);
        assert_eq!(Page::new(&block).unwrap().max_offset(), 0);
    }
}

#[test]
fn free_space_leaves_room_for_one_slot_entry() {
    let cases: [(u16, u16, usize); 7] = [
        (24, 8192, 8164),
        (24, 8176, 8148),
        (100, 104, 0),
        (100, 103, 0),
        (100, 100, 0),
        (100, 105, 1),
        (0, 0, 0),
    ];
    for (lower, upper, expected) in cases {
        let block = block_with(lower, upper, 8192);
        assert_eq!(Page::new(&block).unwrap().free_space(), expected);
    }
}

#[test]
fn free_space_is_at_most_the_capacity() {
    for lower in (0..=8192u16).step_by(64) {
        for upper in (lower..=8192u16).step_by(128) {
            let block = block_with(lower, upper, 8192);
            assert!(Page::new(&block).unwrap().free_space() <= BLOCK_SIZE);
        }
    }
}

#[test]
fn special_region_starts_behind_the_header_and_within_the_block() {
    let cases: [(u16, bool); 6] =
        [(0, false), (23, false), (24, true), (8176, true), (8191, true), (8192, true)];
    for (special, expected) in cases {
        let block = block_with(0, 0, special);
        assert_eq!(Page::new(&block).unwrap().is_special(), expected);
    }
}

#[test]
fn metadata_is_read_at_the_special_offset() {
    let mut block = block_with(24, 8000, 8100);
    put_u32(&mut block, 8100 + 8, 0x0102_0304);
    put_u16(&mut block, 8100 + 12, 1);
    put_u16(&mut block, 8100 + 14, 0xff81);
    let page = Page::new(&block).unwrap();
    assert_eq!(
        page.as_special(),
        Ok(GistPageOpaqueData { rightlink: 0x0102_0304, flags: 1, gist_page_id: 0xff81 })
    );
}

#[test]
fn metadata_must_fit_into_the_block() {
    for special in [0u16, 23, 8177, 8191, 8192] {
        let block = block_with(0, 0, special);
        let page = Page::new(&block).unwrap();
        assert_eq!(page.as_special(), Err(PageError::LayoutViolation));
        assert!(GistPage::new(&page).is_err());
    }
    let block = block_with(24, 24, 8176);
    assert!(Page::new(&block).unwrap().as_special().is_ok());
    let block = block_with(24, 24, 24);
    assert!(Page::new(&block).unwrap().as_special().is_ok());
}

#[test]
fn leaf_is_the_leaf_marker_alone() {
    for (flags, expected) in [(0u16, false), (1, true), (2, false), (3, false), (0x11, false)] {
        let mut block = block_with(24, 8176, 8176);
        put_u16(&mut block, 8176 + 12, flags);
        let page = Page::new(&block).unwrap();
        assert_eq!(GistPage::new(&page).unwrap().is_leaf(), expected);
    }
}

#[test]
fn right_link_is_none_for_the_invalid_block_number() {
    for (stored, expected) in
        [(0u32, Some(0u32)), (7, Some(7)), (0xFFFF_FFFE, Some(0xFFFF_FFFE)), (0xFFFF_FFFF, None)]
    {
        let mut block = block_with(24, 8176, 8176);
        put_u32(&mut block, 8176 + 8, stored);
        let page = Page::new(&block).unwrap();
        assert_eq!(GistPage::new(&page).unwrap().right_link(), expected);
    }
}

#[test]
fn slots_are_counted_from_one() {
    let mut block = block_with(24 + 3 * 4, 8000, 8176);
    put_u32(&mut block, 24, 8100 | (1 << 15) | (16 << 17));
    put_u32(&mut block, 28, 8050 | (2 << 15) | (50 << 17));
    put_u32(&mut block, 32, 0xFFFF_FFFF);
    let page = Page::new(&block).unwrap();
    assert_eq!(page.item_id(0), Err(PageError::OutOfRange));
    assert_eq!(page.item_id(1), Ok(ItemIdData { lp_off: 8100, lp_flags: 1, lp_len: 16 }));
    assert_eq!(page.item_id(2), Ok(ItemIdData { lp_off: 8050, lp_flags: 2, lp_len: 50 }));
    assert_eq!(page.item_id(3), Ok(ItemIdData { lp_off: 32767, lp_flags: 3, lp_len: 32767 }));
    assert_eq!(page.item_id(4), Err(PageError::OutOfRange));
    assert_eq!(page.item_id(usize::MAX), Err(PageError::OutOfRange));
}

#[test]
fn no_slot_on_a_page_without_slots() {
    let block = block_with(24, 8000, 8176);
    let page = Page::new(&block).unwrap();
    assert_eq!(page.item_id(1), Err(PageError::OutOfRange));
}

#[test]
fn last_slot_of_a_full_slot_table() {
    let mut block = block_with(8192, 8192, 8192);
    put_u32(&mut block, 8188, 5 | (1 << 15) | (9 << 17));
    let page = Page::new(&block).unwrap();
    assert_eq!(page.max_offset(), 2042);
    assert_eq!(page.item_id(2042), Ok(ItemIdData { lp_off: 5, lp_flags: 1, lp_len: 9 }));
    assert_eq!(page.item_id(2043), Err(PageError::OutOfRange));
}

#[test]
fn item_is_at_the_offset_of_its_slot() {
    let block = block_with(24, 8000, 8176);
    let page = Page::new(&block).unwrap();
    assert_eq!(page.get_item(ItemIdData { lp_off: 8100, lp_flags: 1, lp_len: 16 }), 8100);
    assert_eq!(page.get_item(ItemIdData { lp_off: 0, lp_flags: 0, lp_len: 0 }), 0);
}

#[test]
fn entry_head_is_decoded() {
    let mut block = block_with(28, 8000, 8176);
    put_u16(&mut block, 8000, 0x0001);
    put_u16(&mut block, 8002, 0x0002);
    put_u16(&mut block, 8004, 0xfffe);
    put_u16(&mut block, 8006, 0x4010);
    let page = Page::new(&block).unwrap();
    let tuple =
        page.get_index_tuple(ItemIdData { lp_off: 8000, lp_flags: 1, lp_len: 16 }).unwrap();
    assert_eq!(
        tuple,
        IndexTuple {
            t_tid: ItemPointerData { bi_hi: 1, bi_lo: 2, ip_posid: 0xfffe },
            t_info: 0x4010,
        }
    );
    assert_eq!(tuple.block_num(), 65538);
    assert!(tuple.is_invalid());
}

#[test]
fn entry_head_must_fit_into_the_block() {
    let block = block_with(28, 8000, 8176);
    let page = Page::new(&block).unwrap();
    assert!(page.get_index_tuple(ItemIdData { lp_off: 8184, lp_flags: 1, lp_len: 8 }).is_ok());
    for at in [8185u16, 8192, 32767] {
        assert_eq!(
            page.get_index_tuple(ItemIdData { lp_off: at, lp_flags: 1, lp_len: 8 }),
            Err(PageError::LayoutViolation)
        );
    }
}

#[test]
fn block_number_is_made_of_two_halves() {
    let cases: [(u16, u16, u32); 5] = [
        (0, 0, 0),
        (0, 1, 1),
        (1, 0, 65536),
        (0x1234, 0x5678, 0x1234_5678),
        (0xffff, 0xffff, 0xFFFF_FFFF),
    ];
    for (bi_hi, bi_lo, expected) in cases {
        assert_eq!(item_ptr_get_blk_num(ItemPointerData { bi_hi, bi_lo, ip_posid: 1 }), expected);
    }
}

#[test]
fn only_the_invalid_mark_makes_an_entry_invalid() {
    for (ip_posid, expected) in [(0u16, false), (1, false), (0xfffe, true), (0xffff, false)] {
        let tuple = IndexTuple { t_tid: ItemPointerData { bi_hi: 0, bi_lo: 1, ip_posid }, t_info: 0 };
        assert_eq!(tuple.is_invalid(), expected);
    }
}
