use universal_machine::loader::parse_program;

#[test]
fn parse_program_reads_big_endian_words() {
    let bytes = vec![0xD0, 0x00, 0x00, 0x48, 0xA0, 0x00, 0x00, 0x00, 0x70, 0x00, 0x00, 0x00];
    assert_eq!(parse_program(&bytes), Some(vec![0xD000_0048, 0xA000_0000, 0x7000_0000]));
}

#[test]
fn parse_program_puts_the_first_byte_highest() {
    assert_eq!(parse_program(&vec![0x01, 0x02, 0x03, 0x04]), Some(vec![0x0102_0304]));
    assert_eq!(parse_program(&vec![0xFF, 0xFF, 0xFF, 0xFF]), Some(vec![u32::MAX]));
    assert_eq!(parse_program(&vec![0, 0, 0, 1, 1, 0, 0, 0]), Some(vec![1, 0x0100_0000]));
}

#[test]
fn parse_program_of_no_bytes_is_the_empty_program() {
    assert_eq!(parse_program(&Vec::new()), Some(Vec::new()));
}

#[test]
fn parse_program_refuses_a_length_that_is_no_multiple_of_four() {
    assert_eq!(parse_program(&vec![1]), None);
    assert_eq!(parse_program(&vec![1, 2]), None);
    assert_eq!(parse_program(&vec![1, 2, 3]), None);
    assert_eq!(parse_program(&vec![1, 2, 3, 4, 5]), None);
    assert_eq!(parse_program(&vec![1, 2, 3, 4, 5, 6, 7]), None);
}
