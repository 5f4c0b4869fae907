use universal_machine::registers::CPU;

#[test]
fn new_registers_are_all_zero() {
    let cpu = CPU::new();
    for r in 0..8u32 {
        assert_eq!(cpu.read(Some(r)), 0);
    }
}

#[test]
fn read_after_write_returns_the_written_word() {
    let mut cpu = CPU::new();
    for r in 0..8u32 {
        cpu.write(0xDEAD_0000 + r, Some(r));
        assert_eq!(cpu.read(Some(r)), 0xDEAD_0000 + r);
    }
}

#[test]
fn write_leaves_the_other_registers_alone() {
    let mut cpu = CPU::new();
    cpu.write(11, Some(3));
    cpu.write(22, Some(4));
    cpu.write(33, Some(3));
    assert_eq!(cpu.read(Some(3)), 33);
    assert_eq!(cpu.read(Some(4)), 22);
    for r in [0u32, 1, 2, 5, 6, 7] {
        assert_eq!(cpu.read(Some(r)), 0);
    }
}

#[test]
fn registers_hold_full_words() {
    let mut cpu = CPU::new();
    cpu.write(u32::MAX, Some(7));
    cpu.write(0, Some(0));
    assert_eq!(cpu.read(Some(7)), 0xFFFF_FFFF);
    assert_eq!(cpu.read(Some(0)), 0);
}
