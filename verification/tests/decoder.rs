use hr_scan::decoder::process_manufacturer_data;

#[test]
fn decodes_frame_at_buffer_start() {
    let buff = [0xA1, 0x00, 0x00, 0x01, 0x2C, 0x48];
    assert_eq!(process_manufacturer_data(&buff, 0xA1), Some((300, 72)));
}

#[test]
fn skips_leading_junk_before_start_code() {
    let buff = [0x05, 0xA1, 0x00, 0x00, 0x01, 0x2C, 0x48];
    assert_eq!(process_manufacturer_data(&buff, 0xA1), Some((300, 72)));
}

#[test]
fn rejects_short_frame() {
    let buff = [0xA1, 0x00, 0x00, 0x01, 0x2C];
    assert_eq!(process_manufacturer_data(&buff, 0xA1), None);
}

#[test]
fn rejects_empty_buffer() {
    let buff: [u8; 0] = [];
    assert_eq!(process_manufacturer_data(&buff, 0xA1), None);
}

#[test]
fn rejects_buffer_without_start_code() {
    let buff = [0x99, 0x99];
    assert_eq!(process_manufacturer_data(&buff, 0xA1), None);
}

#[test]
fn ignores_bytes_beyond_the_header() {
    let buff = [0xA1, 0x00, 0x00, 0x01, 0x2C, 0x48, 0xDE, 0xAD, 0xBE, 0xEF];
    assert_eq!(process_manufacturer_data(&buff, 0xA1), Some((300, 72)));
}

#[test]
fn device_id_is_big_endian() {
    let buff = [0xA1, 0x12, 0x34, 0x56, 0x78, 0x00];
    assert_eq!(process_manufacturer_data(&buff, 0xA1), Some((0x12345678, 0)));
}

#[test]
fn device_id_ignores_heart_rate_byte() {
    let low = [0xA1, 0x12, 0x34, 0x56, 0x78, 0x00];
    let high = [0xA1, 0x12, 0x34, 0x56, 0x78, 0xFF];
    let (id_low, hr_low) = process_manufacturer_data(&low, 0xA1).unwrap();
    let (id_high, hr_high) = process_manufacturer_data(&high, 0xA1).unwrap();
    assert_eq!(id_low, id_high);
    assert_eq!(hr_low, 0);
    assert_eq!(hr_high, 255);
}

#[test]
fn changing_one_identifier_byte_changes_device_id() {
    let base = [0xA1, 0x12, 0x34, 0x56, 0x78, 0x48];
    let (base_id, _) = process_manufacturer_data(&base, 0xA1).unwrap();
    for i in 1..5 {
        let mut tweaked = base;
        tweaked[i] ^= 0x01;
        let (tweaked_id, _) = process_manufacturer_data(&tweaked, 0xA1).unwrap();
        assert_ne!(base_id, tweaked_id);
    }
}

#[test]
fn heart_rate_is_byte_five_of_the_frame() {
    let buff = [0xFF, 0xA1, 0x00, 0x00, 0x00, 0x2A, 0xB7];
    assert_eq!(process_manufacturer_data(&buff, 0xA1), Some((42, 0xB7)));
}

#[test]
fn start_code_in_identifier_position_does_not_restart_scan() {
    // The scan anchors on the first occurrence, even when a later byte
    // also equals the start code.
    let buff = [0xA1, 0xA1, 0x00, 0x00, 0x01, 0x07];
    assert_eq!(
        process_manufacturer_data(&buff, 0xA1),
        Some((0xA1000001, 7))
    );
}

#[test]
fn same_inputs_give_same_outputs() {
    let buff = [0x05, 0xA1, 0x00, 0x00, 0x01, 0x2C, 0x48];
    let first = process_manufacturer_data(&buff, 0xA1);
    let second = process_manufacturer_data(&buff, 0xA1);
    assert_eq!(first, second);
}

#[test]
fn other_start_codes_are_honoured() {
    let buff = [0x10, 0x20, 0x30, 0x00, 0x00, 0x00, 0x05, 0x63];
    assert_eq!(process_manufacturer_data(&buff, 0x30), Some((5, 0x63)));
    assert_eq!(process_manufacturer_data(&buff, 0x40), None);
}
