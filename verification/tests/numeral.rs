use cvtr::numeral::{read_numeral, write_numeral};

#[test]
fn write_numeral_expected() {
    assert_eq!(write_numeral(0, 2), "0");
    assert_eq!(write_numeral(0, 36), "0");
    assert_eq!(write_numeral(5, 2), "101");
    assert_eq!(write_numeral(8, 3), "22");
    assert_eq!(write_numeral(35, 36), "z");
    assert_eq!(write_numeral(36, 36), "10");
    assert_eq!(write_numeral(1295, 36), "zz");
    assert_eq!(write_numeral(255, 16), "ff");
    assert_eq!(write_numeral(1000, 10), "1000");
    assert_eq!(write_numeral(u64::MAX, 36), "3w5e11264sgsf");
}

#[test]
fn write_numeral_every_digit() {
    let digits = "0123456789abcdefghijklmnopqrstuvwxyz";
    for d in 0..36u64 {
        let at = d as usize;
        assert_eq!(write_numeral(d, 36), digits[at..at + 1]);
        assert_eq!(write_numeral(36 + d, 36), format!("1{}", &digits[at..at + 1]));
    }
}

#[test]
fn read_numeral_expected() {
    assert_eq!(read_numeral("101", 2), Some(5));
    assert_eq!(read_numeral("22", 3), Some(8));
    assert_eq!(read_numeral("z", 36), Some(35));
    assert_eq!(read_numeral("Z", 36), Some(35));
    assert_eq!(read_numeral("zz", 36), Some(1295));
    assert_eq!(read_numeral("3w5e11264sgsf", 36), Some(u64::MAX));
    assert_eq!(read_numeral("3w5e11264sgsg", 36), None);
    assert_eq!(read_numeral("z", 35), None);
    assert_eq!(read_numeral("", 36), None);
    assert_eq!(read_numeral("+", 36), None);
    assert_eq!(read_numeral("+z", 36), None);
    assert_eq!(read_numeral("+1", 10), None);
}

#[test]
fn read_numeral_every_digit() {
    let lower = "0123456789abcdefghijklmnopqrstuvwxyz";
    let upper = "0123456789ABCDEFGHIJKLMNOPQRSTUVWXYZ";
    for d in 0..36usize {
        for radix in 2..=36u32 {
            let expected = if (d as u32) < radix { Some(d as u64) } else { None };
            assert_eq!(read_numeral(&lower[d..d + 1], radix), expected);
            assert_eq!(read_numeral(&upper[d..d + 1], radix), expected);
        }
    }
}

#[test]
fn read_numeral_rejects_what_is_next_to_the_digits() {
    for c in ['/', ':', '@', '[', '`', '{', '\0', '\u{7f}', '\u{80}', '\u{ff10}', '-', '+', ' '] {
        let text = format!("1{}", c);
        assert_eq!(read_numeral(&text, 36), None, "{:?}", text);
        assert_eq!(read_numeral(&c.to_string(), 36), None, "{:?}", c);
    }
}

#[test]
fn write_then_read_in_every_base() {
    let mut values: Vec<u64> = (0..100).collect();
    for shift in 0..64 {
        values.push(u64::MAX >> shift);
        values.push(0x0123456789abcdefu64 >> shift);
    }
    for radix in 2..=36u32 {
        for &v in &values {
            let text = write_numeral(v, radix);
            assert_eq!(read_numeral(&text, radix), Some(v));
            assert_eq!(u64::from_str_radix(&text, radix), Ok(v));
            assert!(text == "0" || !text.starts_with('0'));
            assert!(text.chars().all(|c| c.is_ascii_digit() || c.is_ascii_lowercase()));
        }
    }
}
