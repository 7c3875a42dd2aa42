use historical_backfill::bitmap::{Bitmap, BitmapError, BitmapOperator};

#[test]
fn test_getting_bit_from_array() {
    let operator: BitmapOperator = BitmapOperator::new();
    let byte_array: &[u8; 3] = &[0x01, 0x00, 0x09]; // 0000 0001 0000 0000 0000 1001
    let results: Vec<bool> = [7, 8, 9, 15, 19, 20, 22, 23]
        .iter()
        .map(|index| operator.get_bit_in_byte_array(byte_array, *index))
        .collect();
    assert_eq!(results, [true, false, false, false, false, true, false, true]);
}

#[test]
fn get_bit_matches_shift_and_mask_on_every_index() {
    let operator = BitmapOperator::new();
    let bytes = [0xA5u8, 0x3C, 0xFF, 0x00];
    for i in 0..32usize {
        let expected = ((bytes[i / 8] >> (7 - i % 8)) & 1) == 1;
        assert_eq!(operator.get_bit_in_byte_array(&bytes, i), expected);
    }
}

#[test]
fn decodes_set_run_then_skip_then_padding() {
    // 1 | 011 (three set) | 010 (skip two) | 0 padding
    let operator = BitmapOperator::new();
    let bitmap = Bitmap { start_block_height: 1000, bitmap: vec![0xB4] };
    assert_eq!(operator.decode_day_heights(&bitmap), Ok(vec![1000, 1001, 1002]));
}

#[test]
fn decodes_skip_first_polarity() {
    // 0 | 010 (skip two) | 1 (one set) | 0 padding
    let operator = BitmapOperator::new();
    let bitmap = Bitmap { start_block_height: 7, bitmap: vec![0b0010_1000] };
    assert_eq!(operator.decode_day_heights(&bitmap), Ok(vec![9]));
}

#[test]
fn decodes_empty_buffer_to_no_heights() {
    let operator = BitmapOperator::new();
    let bitmap = Bitmap { start_block_height: 5, bitmap: vec![] };
    assert_eq!(operator.decode_day_heights(&bitmap), Ok(vec![]));
}

#[test]
fn rejects_negative_start() {
    let operator = BitmapOperator::new();
    let bitmap = Bitmap { start_block_height: -1, bitmap: vec![0xB4] };
    assert_eq!(operator.decode_day_heights(&bitmap), Err(BitmapError::MalformedBitmap));
}

#[test]
fn rejects_codeword_past_end() {
    // 1 | six zeros then a one that needs six more bits
    let operator = BitmapOperator::new();
    let bitmap = Bitmap { start_block_height: 0, bitmap: vec![0b1000_0001] };
    assert_eq!(operator.decode_day_heights(&bitmap), Err(BitmapError::MalformedBitmap));
}

#[test]
fn rejects_run_longer_than_a_day() {
    // 1 | seventeen zeros, a one, seventeen zeros: a run of 131072 blocks
    let operator = BitmapOperator::new();
    let bitmap = Bitmap { start_block_height: 0, bitmap: vec![0x80, 0x00, 0x20, 0x00, 0x00] };
    assert_eq!(operator.decode_day_heights(&bitmap), Err(BitmapError::MalformedBitmap));
}
