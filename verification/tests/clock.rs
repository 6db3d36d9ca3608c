//! The clock chip.
use msx_rs::rtc::{time_nibble, Rtc};

#[test]
fn cmos_banks_retain_writes() {
    let mut rtc = Rtc::new();
    rtc.select(13);
    rtc.write(0x02);
    rtc.select(5);
    rtc.write(0x0A);
    assert_eq!(rtc.read(), 0xFA);
    rtc.select(13);
    rtc.write(0x03);
    rtc.select(5);
    assert_eq!(rtc.read(), 0xF0);
}

#[test]
fn mode_register_reads_back() {
    let mut rtc = Rtc::new();
    rtc.select(13);
    rtc.write(0x0A);
    assert_eq!(rtc.read(), 0xFA);
}

/// The digits of 1999-12-31, a Friday, 23:59:58.
#[test]
fn digits_of_a_time() {
    let secs: u64 = 946_684_798;
    let digits: Vec<u8> = (0u8..13).map(|reg| time_nibble(reg, secs)).collect();
    assert_eq!(&digits[0..6], &[8, 5, 9, 5, 3, 2]);
    assert_eq!(digits[6], 5);
    assert_eq!(&digits[7..11], &[1, 3, 2, 1]);
    assert_eq!(digits[11], 9);
    assert_eq!(digits[12], 1);
}

#[test]
fn leap_day_is_a_day() {
    // 2024-02-29 00:00:00.
    let secs: u64 = 1_709_164_800;
    assert_eq!(time_nibble(7, secs), 9);
    assert_eq!(time_nibble(8, secs), 2);
    assert_eq!(time_nibble(9, secs), 2);
    assert_eq!(time_nibble(7, secs + 86_400), 1);
    assert_eq!(time_nibble(9, secs + 86_400), 3);
}

/// The host's clock is past the year 2020, and so is that of the chip.
#[test]
fn clock_follows_the_host() {
    let mut rtc = Rtc::new();
    rtc.select(12);
    let tens = rtc.read() % 16;
    rtc.select(11);
    let ones = rtc.read() % 16;
    assert!(tens * 10 + ones >= 40);
    assert_eq!(rtc.read_at(1_709_164_800) % 16, 4);
}

#[test]
fn time_cannot_be_set() {
    let mut rtc = Rtc::new();
    rtc.select(4);
    let before = rtc.read_at(1_709_164_800);
    rtc.write(0x07);
    assert_eq!(rtc.read_at(1_709_164_800), before);
    rtc.select(13);
    rtc.write(0x02);
    rtc.select(4);
    assert_eq!(rtc.read(), 0xF0);
    rtc.select(14);
    rtc.write(0x00);
    assert_eq!(rtc.read(), 0xFF);
}

#[test]
fn time_is_zero_without_a_clock() {
    let mut rtc = Rtc::new();
    for reg in 0u8..13 {
        rtc.select(reg);
        assert_eq!(rtc.read_unset(), 0xF0);
    }
    rtc.select(14);
    assert_eq!(rtc.read_unset(), 0xFF);
    rtc.select(13);
    rtc.write(0x06);
    assert_eq!(rtc.read_unset(), 0xF6);
    rtc.select(5);
    rtc.write(0x0A);
    assert_eq!(rtc.read_unset(), 0xFA);
}
