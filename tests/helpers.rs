use esb_bridge::{
    app_sanity_check, write_commands,
    erase_flash_check, fill, frange, get_info, hex_or_dec, is_erased, is_inbounds, read_flash_check, set_all_rgb,
    set_one_rgb, write_flash_check, EraseError, FlashEraseCommand, FlashReadCommand, FlashWriteCommand,
    InvalidIndex, ReadError, SetRGBCommand, WriteError, BUF_CT, LED_CT, RES, RGB8, T0H, T1H,
};

#[test]
fn hex_with_prefix() {
    assert_eq!(hex_or_dec::<u32>("0x10"), Some(16));
    assert_eq!(hex_or_dec::<u32>("0x0x1f"), Some(31));
    assert_eq!(hex_or_dec::<u64>("0xFFFF_FFFF"), None);
    assert_eq!(hex_or_dec::<u8>("0x100"), None);
}

#[test]
fn hex_with_suffix() {
    assert_eq!(hex_or_dec::<u16>("ffh"), Some(255));
    assert_eq!(hex_or_dec::<u16>("10hh"), Some(16));
    assert_eq!(hex_or_dec::<u16>("h"), None);
}

#[test]
fn decimal_otherwise() {
    assert_eq!(hex_or_dec::<u8>("255"), Some(255));
    assert_eq!(hex_or_dec::<u8>("256"), None);
    assert_eq!(hex_or_dec::<usize>("+42"), Some(42));
    assert_eq!(hex_or_dec::<u128>("340282366920938463463374607431768211455"), Some(u128::MAX));
    assert_eq!(hex_or_dec::<u32>("1f"), None);
    assert_eq!(hex_or_dec::<u32>(""), None);
    assert_eq!(hex_or_dec::<u32>("-1"), None);
    assert_eq!(hex_or_dec::<u32>(" 1"), None);
}

#[test]
fn inbounds_checks() {
    assert!(is_inbounds(0x1000, 0x10, 0x1000, 0x100));
    assert!(is_inbounds(0x10f0, 0x10, 0x1000, 0x100));
    assert!(!is_inbounds(0x10f1, 0x10, 0x1000, 0x100));
    assert!(!is_inbounds(0x0fff, 1, 0x1000, 0x100));
    assert!(!is_inbounds(u32::MAX, u32::MAX, 0x1000, 0x100));
}

#[test]
fn flash_range_saturates() {
    assert_eq!(frange(0x1000, 0x100), (0x1000, 0x1100));
    assert_eq!(frange(0xffff_ff00, 0x1000), (0xffff_ff00, u32::MAX));
}

#[test]
fn flash_read_checks() {
    let cmd = FlashReadCommand { start: 0x1000, len: 64 };
    assert_eq!(read_flash_check(&cmd, 0x1000, 0x1000, 1024), Ok(0));
    let cmd = FlashReadCommand { start: 0x1800, len: 513 };
    assert_eq!(
        read_flash_check(&cmd, 0x1000, 0x1000, 1024),
        Err(ReadError::TooLarge { req_len: 513, max_len: 512 })
    );
    let cmd = FlashReadCommand { start: 0x1800, len: 300 };
    assert_eq!(
        read_flash_check(&cmd, 0x1000, 0x1000, 256),
        Err(ReadError::TooLarge { req_len: 300, max_len: 256 })
    );
    let cmd = FlashReadCommand { start: 0x1ff0, len: 0x20 };
    assert_eq!(
        read_flash_check(&cmd, 0x1000, 0x1000, 1024),
        Err(ReadError::OutOfRange { req_start: 0x1ff0, req_end: 0x2010, mem_start: 0x1000, mem_end: 0x2000 })
    );
}

#[test]
fn flash_erase_checks() {
    let ok = FlashEraseCommand { start: 0x2000, len: 0x2000, force: false };
    assert_eq!(erase_flash_check(&ok, 0x1000, 0x4000, 0x1000), Ok(()));
    let c = FlashEraseCommand { start: 0x2100, len: 0x1000, force: false };
    assert_eq!(erase_flash_check(&c, 0x1000, 0x4000, 0x1000), Err(EraseError::StartNotAligned));
    let c = FlashEraseCommand { start: 0x2000, len: 0x800, force: true };
    assert_eq!(erase_flash_check(&c, 0x1000, 0x4000, 0x1000), Err(EraseError::LenNotAligned));
    let c = FlashEraseCommand { start: 0x4000, len: 0x2000, force: true };
    assert_eq!(erase_flash_check(&c, 0x1000, 0x4000, 0x1000), Err(EraseError::OutOfRange));
}

#[test]
fn flash_write_checks() {
    let w = |start: u32, n: usize| FlashWriteCommand { start, data: vec![0; n], force: false };
    assert_eq!(write_flash_check(&w(0x1000, 8), 0x1000, 0x100, 4), Ok(()));
    assert_eq!(write_flash_check(&w(0x1002, 8), 0x1000, 0x100, 4), Err(WriteError::StartNotAligned));
    assert_eq!(write_flash_check(&w(0x1000, 6), 0x1000, 0x100, 4), Err(WriteError::LenNotAligned));
    assert_eq!(write_flash_check(&w(0x10fc, 8), 0x1000, 0x100, 4), Err(WriteError::OutOfRange));
    assert!(is_erased(&[0xff, 0xff]));
    assert!(is_erased(&[]));
    assert!(!is_erased(&[0xff, 0xfe]));
}

#[test]
fn partition_info() {
    let i = get_info(0x1000, 0x8000, 300, 4, 4096);
    assert_eq!((i.start, i.len, i.transfer_chunk, i.write_sz, i.erase_sz, i.align), (0x1000, 0x8000, 300, 4, 4096, 4));
    assert_eq!(get_info(0, 0, 4096, 4, 4096).transfer_chunk, 512);
}

#[test]
fn led_words() {
    let mut rgb = vec![RGB8 { r: 0, g: 0, b: 0 }; LED_CT];
    rgb[0] = RGB8 { r: 0x80, g: 0x01, b: 0xff };
    rgb[LED_CT - 1] = RGB8 { r: 0xa5, g: 0, b: 0 };
    let mut buf = vec![RES; BUF_CT];
    fill(&rgb, &mut buf);
    assert_eq!(buf[0], T1H);
    assert_eq!(buf[1..8], [T0H; 7]);
    assert_eq!(buf[8..15], [T0H; 7]);
    assert_eq!(buf[15], T1H);
    assert_eq!(buf[16..24], [T1H; 8]);
    let last = 24 * (LED_CT - 1);
    assert_eq!(buf[last..last + 8], [T1H, T0H, T1H, T0H, T0H, T1H, T0H, T1H]);
    assert_eq!(buf[BUF_CT - 1], RES);
}

#[test]
fn led_setters() {
    let mut rgb = vec![RGB8 { r: 0, g: 0, b: 0 }; 4];
    let c = RGB8 { r: 1, g: 2, b: 3 };
    assert_eq!(set_one_rgb(&mut rgb, &SetRGBCommand { pos: 3, color: c }), Ok(()));
    assert_eq!(rgb[3], c);
    assert_eq!(set_one_rgb(&mut rgb, &SetRGBCommand { pos: 4, color: c }), Err(InvalidIndex));
    set_all_rgb(&mut rgb, c);
    assert!(rgb.iter().all(|x| *x == c));
}

#[test]
fn sanity_check_of_vector_table() {
    let good = [0x00, 0x00, 0x04, 0x20, 0x01, 0x00, 0x01, 0x00];
    assert!(app_sanity_check(&good));
    let low_rv = [0x00, 0x00, 0x04, 0x20, 0xff, 0xff, 0x00, 0x00];
    assert!(!app_sanity_check(&low_rv));
    let high_sp = [0x01, 0x00, 0x04, 0x20, 0x01, 0x00, 0x01, 0x00];
    assert!(!app_sanity_check(&high_sp));
    let erased = [0xff; 8];
    assert!(!app_sanity_check(&erased));
    let last_rv = [0x00, 0x00, 0x00, 0x20, 0xff, 0xff, 0x0f, 0x00];
    assert!(app_sanity_check(&last_rv));
}

#[test]
fn writes_are_cut_into_chunks() {
    let data: Vec<u8> = (0..1100u32).map(|i| i as u8).collect();
    let cmds = write_commands(0x1_0000, &data);
    assert_eq!(cmds.len(), 3);
    assert_eq!(cmds[0].start, 0x1_0000);
    assert_eq!(cmds[1].start, 0x1_0200);
    assert_eq!(cmds[2].start, 0x1_0400);
    assert_eq!(cmds[1].data, data[512..1024].to_vec());
    assert_eq!(cmds[2].data.len(), 76);
    assert!(cmds.iter().all(|c| !c.force));
    assert!(write_commands(0, &[]).is_empty());
}

#[test]
fn hex_for_wide_types() {
    assert_eq!(hex_or_dec::<u64>("0xFFFFFFFFFFFFFFFF"), Some(u64::MAX));
    assert_eq!(hex_or_dec::<u64>("18446744073709551616"), None);
    assert_eq!(hex_or_dec::<usize>("0x1Ah"), None);
    assert_eq!(hex_or_dec::<u16>("0xz"), None);
}
