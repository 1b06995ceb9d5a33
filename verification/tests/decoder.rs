use power_sequencer::bits::bit_iterator;

#[test]
fn decodes_all_four_nodes_in_ascending_order() {
    let updates = bit_iterator(0b0101, 0b1111);
    assert_eq!(updates, vec![(0, true), (1, false), (2, true), (3, false)]);
}

#[test]
fn yields_one_pair_per_set_mask_bit() {
    assert_eq!(bit_iterator(0xFF, 0b0000).len(), 0);
    assert_eq!(bit_iterator(0xFF, 0b0001).len(), 1);
    assert_eq!(bit_iterator(0xFF, 0b1010).len(), 2);
    assert_eq!(bit_iterator(0xFF, 0b1111).len(), 4);
}

#[test]
fn desired_state_follows_state_bits() {
    let updates = bit_iterator(0b0011, 0b1111);
    assert_eq!(updates, vec![(0, true), (1, true), (2, false), (3, false)]);
    let updates = bit_iterator(0b1111, 0b0110);
    assert_eq!(updates, vec![(1, true), (2, true)]);
}

#[test]
fn mask_bits_above_node_count_are_ignored() {
    assert_eq!(bit_iterator(0xFF, 0xF0).len(), 0);
    let updates = bit_iterator(0xFF, 0xF1);
    assert_eq!(updates, vec![(0, true)]);
    let full_low = bit_iterator(0b0101, 0b1111);
    let full_high = bit_iterator(0b0101, 0xFF);
    assert_eq!(full_low, full_high);
}

#[test]
fn state_bits_outside_mask_leave_no_trace() {
    let updates = bit_iterator(0b1111, 0b0001);
    assert_eq!(updates, vec![(0, true)]);
}

#[test]
fn decoder_is_restartable() {
    let first = bit_iterator(0b1010, 0b0110);
    let second = bit_iterator(0b1010, 0b0110);
    assert_eq!(first, second);
}
