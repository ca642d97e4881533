use byte_shifter::{
    from_hexdec_string, generate_long_random_u8, shift_bytes, unshift_bytes, MaskError,
};

#[test]
fn test_simple_shift() {
    let source_str = "1234567890abcdef";
    let mask_str = "0102030405";
    let source = source_str.as_bytes();
    let mask = from_hexdec_string(mask_str);
    let masked_bytes = shift_bytes(&source, &mask).unwrap();
    let shifted_str = masked_bytes.iter().map(|&b| b as char).collect::<String>();
    let expected_str = "2468:79;=5bdfhjg";
    assert_eq!(shifted_str, expected_str);

    assert_eq!(source, unshift_bytes(&masked_bytes, &mask).unwrap());
}

#[test]
fn test_one_mega_byte() {
    let mb_1 = 1024 * 1024;
    let source = generate_long_random_u8(mb_1);
    let mask = [1, 2, 3, 4, 5, 6, 7, 8, 9, 10, 11, 12, 13, 14, 15, 16];

    let masked_bytes = shift_bytes(&source, &mask).unwrap();

    assert_eq!(source.len(), masked_bytes.len());

    assert_eq!(source.len(), mb_1)
}

#[test]
fn one_mega_byte_round_trip() {
    let source = generate_long_random_u8(1_048_576);
    let mask = [1, 2, 3, 4, 5, 6, 7, 8, 9, 10, 11, 12, 13, 14, 15, 16];

    let masked = shift_bytes(&source, &mask).unwrap();
    assert_eq!(masked.len(), 1_048_576);
    for (i, &b) in masked.iter().enumerate() {
        assert_eq!(b, source[i].wrapping_add(mask[i % 16]));
    }

    let restored = unshift_bytes(&masked, &mask).unwrap();
    assert_eq!(restored.len(), 1_048_576);
    assert_eq!(restored, source);
}

#[test]
fn mask_text_reads_as_its_bytes() {
    assert_eq!(from_hexdec_string("0102030405"), vec![1, 2, 3, 4, 5]);
}

#[test]
fn shift_adds_modulo_256() {
    assert_eq!(shift_bytes(&[250, 1, 7], &[10, 255]).unwrap(), vec![4, 0, 17]);
    assert_eq!(shift_bytes(&[255], &[255]).unwrap(), vec![254]);
    assert_eq!(shift_bytes(&[255], &[1]).unwrap(), vec![0]);
    assert_eq!(shift_bytes(&[0], &[0]).unwrap(), vec![0]);
}

#[test]
fn unshift_subtracts_modulo_256() {
    assert_eq!(unshift_bytes(&[4, 0, 17], &[10, 255]).unwrap(), vec![250, 1, 7]);
    assert_eq!(unshift_bytes(&[0], &[1]).unwrap(), vec![255]);
    assert_eq!(unshift_bytes(&[0], &[255]).unwrap(), vec![1]);
    assert_eq!(unshift_bytes(&[9], &[9]).unwrap(), vec![0]);
}

#[test]
fn mask_repeats_over_a_longer_source() {
    let source = [0u8; 7];
    assert_eq!(
        shift_bytes(&source, &[1, 2, 3]).unwrap(),
        vec![1, 2, 3, 1, 2, 3, 1]
    );
    assert_eq!(
        unshift_bytes(&source, &[1, 2, 3]).unwrap(),
        vec![255, 254, 253, 255, 254, 253, 255]
    );
}

#[test]
fn mask_longer_than_the_source_is_cut_off() {
    assert_eq!(shift_bytes(&[10, 20], &[1, 2, 3, 4]).unwrap(), vec![11, 22]);
    assert_eq!(unshift_bytes(&[11, 22], &[1, 2, 3, 4]).unwrap(), vec![10, 20]);
}

#[test]
fn shift_is_not_the_identity() {
    let source = [1u8, 2, 3];
    assert_ne!(shift_bytes(&source, &[1]).unwrap(), source.to_vec());
    assert_ne!(unshift_bytes(&source, &[1]).unwrap(), source.to_vec());
}

#[test]
fn round_trip_over_every_byte_and_mask_byte() {
    let source: Vec<u8> = (0..=255).collect();
    for m in 0..=255u8 {
        let mask = [m, m.wrapping_mul(7), 255 - m];
        let masked = shift_bytes(&source, &mask).unwrap();
        assert_eq!(masked.len(), source.len());
        assert_eq!(unshift_bytes(&masked, &mask).unwrap(), source);

        let unmasked = unshift_bytes(&source, &mask).unwrap();
        assert_eq!(unmasked.len(), source.len());
        assert_eq!(shift_bytes(&unmasked, &mask).unwrap(), source);
    }
}

#[test]
fn length_is_kept_for_every_short_source() {
    let mask = [9u8, 8, 7, 6];
    for n in 0..40usize {
        let source = vec![n as u8; n];
        assert_eq!(shift_bytes(&source, &mask).unwrap().len(), n);
        assert_eq!(unshift_bytes(&source, &mask).unwrap().len(), n);
    }
}

#[test]
fn empty_source_gives_empty_result() {
    let empty: [u8; 0] = [];
    assert_eq!(shift_bytes(&empty, &[1]).unwrap(), Vec::<u8>::new());
    assert_eq!(shift_bytes(&empty, &[1, 2, 3]).unwrap(), Vec::<u8>::new());
    assert_eq!(unshift_bytes(&empty, &[200, 100]).unwrap(), Vec::<u8>::new());
}

#[test]
fn empty_mask_is_refused() {
    let empty: [u8; 0] = [];
    assert_eq!(shift_bytes(&[1, 2, 3], &empty), Err(MaskError::InvalidMask));
    assert_eq!(unshift_bytes(&[1, 2, 3], &empty), Err(MaskError::InvalidMask));
}

#[test]
fn empty_mask_is_refused_for_an_empty_source_too() {
    let empty: [u8; 0] = [];
    assert_eq!(shift_bytes(&empty, &empty), Err(MaskError::InvalidMask));
    assert_eq!(unshift_bytes(&empty, &empty), Err(MaskError::InvalidMask));
}
