use swar::masks::{left_mask, right_mask, LEFT_MASKS, RIGHT_MASKS, WEIGHT_MASK4, WEIGHT_MSB8};

#[test]
fn masks_cover_the_word_without_overlap() {
    for level in 0..7 {
        let l = left_mask(level);
        let r = right_mask(level);
        assert_eq!(l, LEFT_MASKS[level]);
        assert_eq!(r, RIGHT_MASKS[level]);
        assert_eq!(l | r, u128::MAX);
        assert_eq!(l & r, 0);
        // The left mask is the right mask moved up by half a block.
        assert_eq!(r << (1u32 << (6 - level)), l);
    }
}

#[test]
fn weight_masks_match_their_lane_widths() {
    assert_eq!(WEIGHT_MASK4 & 0xF, 0x7);
    assert_eq!(WEIGHT_MSB8 & 0xFF, 0x08);
}
