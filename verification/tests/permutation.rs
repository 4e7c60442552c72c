use zkevm_gadgets::NextInput;
use zkevm_gadgets::PermutationInputs;
use zkevm_gadgets::NEXT_INPUTS_BYTES;

#[test]
fn correct_padding() {
    let input: [u8; 298] = [
        65, 108, 105, 99, 101, 32, 119, 97, 115, 32, 98, 101, 103, 105, 110, 110, 105, 110,
        103, 32, 116, 111, 32, 103, 101, 116, 32, 118, 101, 114, 121, 32, 116, 105, 114, 101,
        100, 32, 111, 102, 32, 115, 105, 116, 116, 105, 110, 103, 32, 98, 121, 32, 104, 101,
        114, 32, 115, 105, 115, 116, 101, 114, 32, 111, 110, 32, 116, 104, 101, 32, 98, 97,
        110, 107, 44, 32, 97, 110, 100, 32, 111, 102, 32, 104, 97, 118, 105, 110, 103, 32, 110,
        111, 116, 104, 105, 110, 103, 32, 116, 111, 32, 100, 111, 58, 32, 111, 110, 99, 101,
        32, 111, 114, 32, 116, 119, 105, 99, 101, 32, 115, 104, 101, 32, 104, 97, 100, 32, 112,
        101, 101, 112, 101, 100, 32, 105, 110, 116, 111, 32, 116, 104, 101, 32, 98, 111, 111,
        107, 32, 104, 101, 114, 32, 115, 105, 115, 116, 101, 114, 32, 119, 97, 115, 32, 114,
        101, 97, 100, 105, 110, 103, 44, 32, 98, 117, 116, 32, 105, 116, 32, 104, 97, 100, 32,
        110, 111, 32, 112, 105, 99, 116, 117, 114, 101, 115, 32, 111, 114, 32, 99, 111, 110,
        118, 101, 114, 115, 97, 116, 105, 111, 110, 115, 32, 105, 110, 32, 105, 116, 44, 32,
        97, 110, 100, 32, 119, 104, 97, 116, 32, 105, 115, 32, 116, 104, 101, 32, 117, 115,
        101, 32, 111, 102, 32, 97, 32, 98, 111, 111, 107, 44, 32, 116, 104, 111, 117, 103, 104,
        116, 32, 65, 108, 105, 99, 101, 32, 119, 105, 116, 104, 111, 117, 116, 32, 112, 105,
        99, 116, 117, 114, 101, 115, 32, 111, 114, 32, 99, 111, 110, 118, 101, 114, 115, 97,
        116, 105, 111, 110, 115, 63,
    ];

    let perm_inputs = PermutationInputs::from_bytes(&input);

    let first_perm: Vec<u8> = input[0..NEXT_INPUTS_BYTES].to_vec();
    assert_eq!(perm_inputs.0[0].bytes, first_perm);

    let second_perm: Vec<u8> = input[NEXT_INPUTS_BYTES..2 * NEXT_INPUTS_BYTES].to_vec();
    assert_eq!(perm_inputs.0[1].bytes, second_perm);

    let mut last_perm_expected: Vec<u8> = input[NEXT_INPUTS_BYTES * 2..].to_vec();
    last_perm_expected.extend_from_slice(&[0x80u8]);
    last_perm_expected.extend_from_slice(&vec![0u8; 136 - 28]);
    last_perm_expected.extend_from_slice(&[1u8]);

    assert_eq!(perm_inputs.0.last().unwrap().bytes, last_perm_expected);
}

#[test]
fn empty_input_yields_no_blocks() {
    let perm_inputs = PermutationInputs::from_bytes(&[]);
    assert_eq!(perm_inputs.0.len(), 0);
}

#[test]
fn exact_block_is_not_padded() {
    let input = vec![7u8; NEXT_INPUTS_BYTES];
    let perm_inputs = PermutationInputs::from_bytes(&input);
    assert_eq!(perm_inputs.0.len(), 1);
    assert_eq!(perm_inputs.0[0].og_len, NEXT_INPUTS_BYTES);
    assert_eq!(perm_inputs.0[0].bytes, input);
}

#[test]
fn one_byte_short_block_gets_fused_padding() {
    let input = vec![9u8; NEXT_INPUTS_BYTES - 1];
    let block = NextInput::from_bytes(&input);
    assert_eq!(block.og_len, NEXT_INPUTS_BYTES - 1);
    let mut expected = input.clone();
    expected.push(0x81);
    assert_eq!(block.bytes, expected);
}

#[test]
fn fresh_block_is_zeroed() {
    let block = NextInput::new();
    assert_eq!(block.og_len, 0);
    assert_eq!(block.bytes, vec![0u8; NEXT_INPUTS_BYTES]);
}

#[test]
fn with_og_len_appends_zero_lanes() {
    let block = NextInput::with_og_len(&[1, 2, 3], 3);
    assert_eq!(block.og_len, 3);
    let mut expected = vec![1u8, 2, 3];
    expected.extend_from_slice(&vec![0u8; NEXT_INPUTS_BYTES - 3]);
    assert_eq!(block.bytes, expected);
}

#[test]
fn pad_of_short_block_sets_marker_and_terminator() {
    let mut block = NextInput::with_og_len(&[5, 5], 2);
    block.pad();
    assert_eq!(block.bytes[0], 5);
    assert_eq!(block.bytes[1], 5);
    assert_eq!(block.bytes[2], 0x80);
    assert!(block.bytes[3..NEXT_INPUTS_BYTES - 1].iter().all(|&b| b == 0));
    assert_eq!(block.bytes[NEXT_INPUTS_BYTES - 1], 1);
}
