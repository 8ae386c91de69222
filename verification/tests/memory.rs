use rusty_chip8::errors::Chip8Error;
use rusty_chip8::mem::{Chip8Mem, Memory16Bit};

fn display(mem: &Chip8Mem) -> Vec<u8> {
    mem.get(0xF00, 0x100).unwrap().to_vec()
}

#[test]
fn new_memory_is_all_zero() {
    let mem = Chip8Mem::new();
    assert_eq!(mem.dump().len(), 4096);
    assert!(mem.dump().iter().all(|b| *b == 0));
}

#[test]
fn read_returns_the_bytes_written() {
    let mut mem = Chip8Mem::new();
    mem.set(0x123, &[1, 2, 3, 4]).unwrap();
    assert_eq!(mem.get(0x123, 4).unwrap(), &[1, 2, 3, 4]);
    assert_eq!(mem.get(0x122, 3).unwrap(), &[0, 1, 2]);
    assert_eq!(mem.get(0x126, 2).unwrap(), &[4, 0]);
    assert_eq!(mem.get(0x200, 0).unwrap(), &[] as &[u8]);
}

#[test]
fn read_up_to_the_last_byte_succeeds() {
    let mut mem = Chip8Mem::new();
    mem.set_byte(0xFFF, 0xAB).unwrap();
    assert_eq!(mem.get(0xFFF, 1).unwrap(), &[0xAB]);
    assert_eq!(mem.get(0xFFE, 2).unwrap(), &[0, 0xAB]);
    assert_eq!(mem.get(0, 4096).unwrap().len(), 4096);
    assert_eq!(mem.get(4096, 0).unwrap().len(), 0);
}

#[test]
fn read_past_the_end_is_out_of_range() {
    let mem = Chip8Mem::new();
    let err = mem.get(0xFFF, 2).unwrap_err();
    assert!(matches!(err, Chip8Error::OutOfRange(_)));
    assert_eq!(err.message(), "InvalidAccessError : Address 0xFFF unreachable");
    assert!(matches!(mem.get(0, 4097), Err(Chip8Error::OutOfRange(_))));
    assert!(matches!(mem.get(4097, 0), Err(Chip8Error::OutOfRange(_))));
    assert!(matches!(mem.get(0xFFFF, 0xFFFF), Err(Chip8Error::OutOfRange(_))));
    assert!(matches!(mem.get(0x1000, 1), Err(Chip8Error::OutOfRange(_))));
}

#[test]
fn write_past_the_end_fails_and_changes_nothing() {
    let mut mem = Chip8Mem::new();
    mem.set(0xFF0, &[7; 16]).unwrap();
    let before = mem.dump().to_vec();
    let err = mem.set(0xFFF, &[1, 2]).unwrap_err();
    assert!(matches!(err, Chip8Error::OutOfRange(_)));
    assert_eq!(
        err.message(),
        "InvalidAccessError : Cannot set 0x2 bytes starting from 0xFFF, too big for emulated memory !"
    );
    assert_eq!(mem.dump(), &before[..]);
    let err = mem.set(0x20, &vec![9; 5000]).unwrap_err();
    assert_eq!(
        err.message(),
        "InvalidAccessError : Cannot set 0x1388 bytes starting from 0x020, too big for emulated memory !"
    );
    assert_eq!(mem.dump(), &before[..]);
    assert!(matches!(mem.set(0x1001, &[]), Err(Chip8Error::OutOfRange(_))));
    assert_eq!(mem.dump(), &before[..]);
}

#[test]
fn write_up_to_the_last_byte_succeeds() {
    let mut mem = Chip8Mem::new();
    mem.set(0xFFE, &[0x12, 0x34]).unwrap();
    assert_eq!(mem.dump()[0xFFE], 0x12);
    assert_eq!(mem.dump()[0xFFF], 0x34);
    mem.set(0x1000, &[]).unwrap();
    mem.set(0, &vec![0xEE; 4096]).unwrap();
    assert!(mem.dump().iter().all(|b| *b == 0xEE));
}

#[test]
fn write_leaves_the_rest_alone() {
    let mut mem = Chip8Mem::new();
    mem.set(0x10, &[1, 2, 3]).unwrap();
    mem.set(0x11, &[9]).unwrap();
    for (addr, byte) in mem.dump().iter().enumerate() {
        let expected = match addr {
            0x10 => 1,
            0x11 => 9,
            0x12 => 3,
            _ => 0,
        };
        assert_eq!(*byte, expected);
    }
}

#[test]
fn single_byte_write_checks_the_address() {
    let mut mem = Chip8Mem::new();
    mem.set_byte(0, 5).unwrap();
    mem.set_byte(0xFFF, 6).unwrap();
    assert_eq!(mem.dump()[0], 5);
    assert_eq!(mem.dump()[0xFFF], 6);
    let before = mem.dump().to_vec();
    let err = mem.set_byte(0x1000, 1).unwrap_err();
    assert!(matches!(err, Chip8Error::OutOfRange(_)));
    assert_eq!(
        err.message(),
        "InvalidAccessError : Cannot set a bytes starting from 0x1000, too big for emulated memory !"
    );
    assert_eq!(mem.dump(), &before[..]);
}

#[test]
fn full_byte_sprite_at_origin() {
    let mut mem = Chip8Mem::new();
    let collision = mem.load_sprite(&[0xFF], 0, 0, 1);
    assert!(!collision);
    let shown = display(&mem);
    assert_eq!(shown[0], 0xFF);
    assert!(shown[1..].iter().all(|b| *b == 0));
    assert!(mem.dump()[..0xF00].iter().all(|b| *b == 0));
}

#[test]
fn unaligned_sprite_straddles_two_bytes() {
    let mut mem = Chip8Mem::new();
    assert!(!mem.load_sprite(&[0xFF, 0x81], 4, 2, 2));
    let shown = display(&mem);
    assert_eq!(shown[2 * 8], 0x0F);
    assert_eq!(shown[2 * 8 + 1], 0xF0);
    assert_eq!(shown[3 * 8], 0x08);
    assert_eq!(shown[3 * 8 + 1], 0x10);
    let lit: usize = shown.iter().filter(|b| **b != 0).count();
    assert_eq!(lit, 4);
}

#[test]
fn sprite_shifted_by_every_amount() {
    for shift in 0..8u8 {
        let mut mem = Chip8Mem::new();
        mem.load_sprite(&[0b1011_0011], 8 + shift, 0, 1);
        let shown = display(&mem);
        let wide: u16 = (0b1011_0011u16 << 8) >> shift;
        assert_eq!(shown[1], (wide >> 8) as u8);
        assert_eq!(shown[2], (wide & 0xFF) as u8);
        assert_eq!(shown[0], 0);
        assert_eq!(shown[3], 0);
    }
}

#[test]
fn sprite_in_the_last_column_is_cut_off() {
    let mut mem = Chip8Mem::new();
    assert!(!mem.load_sprite(&[0xFF], 60, 0, 1));
    let shown = display(&mem);
    assert_eq!(shown[7], 0x0F);
    assert_eq!(shown[8], 0x00);
    assert_eq!(shown[0], 0x00);
    let mut mem = Chip8Mem::new();
    mem.load_sprite(&[0xFF], 63, 5, 1);
    let shown = display(&mem);
    assert_eq!(shown[5 * 8 + 7], 0x01);
    assert_eq!(shown.iter().filter(|b| **b != 0).count(), 1);
    let mut mem = Chip8Mem::new();
    mem.load_sprite(&[0xFF], 56, 0, 1);
    let shown = display(&mem);
    assert_eq!(shown[7], 0xFF);
    assert_eq!(shown.iter().filter(|b| **b != 0).count(), 1);
}

#[test]
fn sprite_below_the_last_row_is_cut_off() {
    let mut mem = Chip8Mem::new();
    assert!(!mem.load_sprite(&[0xAA, 0xBB, 0xCC], 0, 30, 3));
    let shown = display(&mem);
    assert_eq!(shown[30 * 8], 0xAA);
    assert_eq!(shown[31 * 8], 0xBB);
    assert_eq!(shown[0], 0x00);
    assert_eq!(shown.iter().filter(|b| **b != 0).count(), 2);
    assert!(mem.dump()[..0xF00].iter().all(|b| *b == 0));
}

#[test]
fn corner_of_a_sprite_wraps_round() {
    let mut mem = Chip8Mem::new();
    mem.load_sprite(&[0xFF], 64 + 8, 32 + 1, 1);
    let shown = display(&mem);
    assert_eq!(shown[8 + 1], 0xFF);
    assert_eq!(shown.iter().filter(|b| **b != 0).count(), 1);
    let mut mem = Chip8Mem::new();
    mem.load_sprite(&[0xFF], 255, 255, 1);
    let shown = display(&mem);
    assert_eq!(shown[31 * 8 + 7], 0x01);
    assert_eq!(shown.iter().filter(|b| **b != 0).count(), 1);
}

#[test]
fn collision_only_where_a_lit_pixel_goes_out() {
    let mut mem = Chip8Mem::new();
    assert!(!mem.load_sprite(&[0xF0], 0, 0, 1));
    assert!(!mem.load_sprite(&[0x0F], 0, 0, 1));
    assert_eq!(display(&mem)[0], 0xFF);
    assert!(mem.load_sprite(&[0x01], 0, 0, 1));
    assert_eq!(display(&mem)[0], 0xFE);
    assert!(!mem.load_sprite(&[0x01], 0, 0, 1));
    assert_eq!(display(&mem)[0], 0xFF);
    assert!(!mem.load_sprite(&[0xFF], 0, 1, 1));
    assert!(mem.load_sprite(&[0x00, 0x80], 4, 0, 2));
}

#[test]
fn collision_in_the_second_byte_counts() {
    let mut mem = Chip8Mem::new();
    mem.set_byte(0xF01, 0x80).unwrap();
    assert!(mem.load_sprite(&[0x01], 1, 0, 1));
    assert_eq!(display(&mem)[0], 0x00);
    assert_eq!(display(&mem)[1], 0x00);
}

#[test]
fn drawing_twice_restores_the_display() {
    let sprite = [0xBC, 0x42, 0xA5, 0x81, 0xA5, 0x99, 0x42, 0x3C];
    for (x, y) in [(0u8, 0u8), (5, 3), (59, 28), (63, 31), (200, 77), (13, 13)] {
        let mut mem = Chip8Mem::new();
        mem.set(0xF00, &[0x5A; 256]).unwrap();
        mem.set(0x300, &[1, 2, 3]).unwrap();
        let before = mem.dump().to_vec();
        mem.load_sprite(&sprite, x, y, 8);
        assert_ne!(mem.dump(), &before[..]);
        mem.load_sprite(&sprite, x, y, 8);
        assert_eq!(mem.dump(), &before[..]);
    }
}

#[test]
fn second_drawing_collides_where_the_first_lit() {
    let mut mem = Chip8Mem::new();
    assert!(!mem.load_sprite(&[0x18, 0x24], 10, 10, 2));
    assert!(mem.load_sprite(&[0x18, 0x24], 10, 10, 2));
    assert!(display(&mem).iter().all(|b| *b == 0));
    let mut mem = Chip8Mem::new();
    mem.set(0xF00, &[0xFF; 256]).unwrap();
    assert!(mem.load_sprite(&[0xFF], 0, 0, 1));
    assert!(!mem.load_sprite(&[0xFF], 0, 0, 1));
    let mut mem = Chip8Mem::new();
    assert!(!mem.load_sprite(&[0x00], 3, 3, 1));
    assert!(!mem.load_sprite(&[0x00], 3, 3, 1));
}

#[test]
fn sprite_without_rows_draws_nothing() {
    let mut mem = Chip8Mem::new();
    mem.set(0xF00, &[0xFF; 256]).unwrap();
    let before = mem.dump().to_vec();
    assert!(!mem.load_sprite(&[0xFF, 0xFF], 0, 0, 0));
    assert_eq!(mem.dump(), &before[..]);
}

#[test]
fn only_the_first_rows_of_a_longer_sprite_are_drawn() {
    let mut mem = Chip8Mem::new();
    mem.load_sprite(&[0x11, 0x22, 0x33], 0, 0, 2);
    let shown = display(&mem);
    assert_eq!(shown[0], 0x11);
    assert_eq!(shown[8], 0x22);
    assert_eq!(shown[16], 0x00);
}

#[test]
fn memory_dump_in_words() {
    let mut mem = Chip8Mem::new();
    mem.set(0x10, &[0xDE, 0xAD, 0xBE, 0xEF]).unwrap();
    mem.set_byte(0xFFF, 0x7F).unwrap();
    let text = mem.to_text();
    let lines: Vec<&str> = text.split('\n').collect();
    assert_eq!(lines.len(), 258);
    assert_eq!(lines[0], "\x1b[1mRAM dump :\x1b[0m");
    assert_eq!(
        lines[1],
        "\x1b[37m0x000 :\x1b[0m 0000 0000 0000 0000 0000 0000 0000 0000"
    );
    assert_eq!(
        lines[2],
        "\x1b[37m0x010 :\x1b[0m DEAD BEEF 0000 0000 0000 0000 0000 0000"
    );
    assert_eq!(
        lines[256],
        "\x1b[37m0xFF0 :\x1b[0m 0000 0000 0000 0000 0000 0000 0000 007F"
    );
    assert_eq!(lines[257], "");
}
