use cube_life::codec::{decode, encode};

#[test]
fn encode_packs_fields_most_significant_first() {
    assert_eq!(encode(1, 2, 3), 0x0102_0300);
    assert_eq!(encode(0, 0, 0), 0);
    assert_eq!(encode(255, 255, 255), 0xffff_ff00);
}

#[test]
fn decode_reads_back_coordinates() {
    assert_eq!(decode(encode(14, 0, 7)), (14, 0, 7));
    assert_eq!(decode(0x0a0b_0c00), (10, 11, 12));
}

#[test]
fn encode_is_injective_on_small_lattice() {
    let mut seen = std::collections::HashSet::new();
    for x in 0..6u8 {
        for y in 0..6u8 {
            for z in 0..6u8 {
                assert!(seen.insert(encode(x, y, z)));
            }
        }
    }
    assert_eq!(seen.len(), 216);
}
