use sonda_core::decimal::Decimal;

fn dec(text: &str) -> Decimal {
    Decimal::parse(text).unwrap()
}

#[test]
fn parse_keeps_mantissa_and_scale() {
    let d = dec("1.320");
    assert_eq!(d.mantissa(), 1320);
    assert_eq!(d.scale(), 3);
    assert_eq!(dec("-0.5").mantissa(), -5);
    assert!(Decimal::parse("abc").is_err());
    assert!(Decimal::parse("").is_err());
}

#[test]
fn constructors_agree_with_parsing() {
    assert_eq!(Decimal::new(1, 1).to_text(), "0.1");
    assert_eq!(Decimal::new(250, 1).to_text(), "25.0");
    assert_eq!(Decimal::zero().to_text(), "0");
    assert_eq!(Decimal::one().to_text(), "1");
    assert_eq!(Decimal::try_new(-1320, 3).unwrap().to_text(), "-1.320");
    assert!(Decimal::try_new(1, 29).is_none());
    assert!(Decimal::try_new(79_228_162_514_264_337_593_543_950_336, 0).is_none());
    assert!(Decimal::try_new(79_228_162_514_264_337_593_543_950_335, 28).is_some());
}

#[test]
fn comparison_is_by_number() {
    assert!(dec("1.0").same_number(&dec("1.00")));
    assert_eq!(dec("0.2640"), dec("0.264000"));
    assert!(dec("0.1").le(&dec("0.10")));
    assert!(!dec("0.1").lt(&dec("0.10")));
    assert!(dec("0.1").ge(&dec("0.10")));
    assert!(dec("0.09").lt(&dec("0.1")));
    assert!(dec("-1").lt(&dec("0")));
    assert!(dec("2").ge(&dec("-3")));
    assert!(!dec("2").le(&dec("1.999")));
}

#[test]
fn exact_product_multiplies_mantissas_and_adds_scales() {
    let p = dec("1200").checked_mul(&dec("1.32")).unwrap();
    assert_eq!((p.mantissa(), p.scale()), (158400, 2));
    let q = p.checked_mul(&dec("0.0001")).unwrap();
    assert_eq!((q.mantissa(), q.scale()), (158400, 6));
    assert_eq!(q, dec("0.1584"));
    let z = dec("0.00").checked_mul(&dec("7.5")).unwrap();
    assert_eq!((z.mantissa(), z.scale()), (0, 0));
}

#[test]
fn product_beyond_the_range_is_none() {
    let big = Decimal::try_new(79_228_162_514_264_337_593_543_950_335, 0).unwrap();
    assert!(big.checked_mul(&dec("2")).is_none());
    assert!(big.checked_add(&dec("1")).is_none());
    assert!(big.checked_mul(&dec("0.5")).is_some());
}

#[test]
fn exact_sum_is_at_the_wider_scale() {
    let s = dec("0.027").checked_add(&dec("0.5760")).unwrap();
    assert_eq!((s.mantissa(), s.scale()), (6030, 4));
    let t = dec("1.5").checked_add(&dec("-1.50")).unwrap();
    assert_eq!((t.mantissa(), t.scale()), (0, 2));
    let left = dec("0").checked_add(&dec("2.50")).unwrap();
    assert_eq!((left.mantissa(), left.scale()), (250, 2));
    let right = dec("2.5").checked_add(&dec("0.000")).unwrap();
    assert_eq!((right.mantissa(), right.scale()), (25, 1));
}

#[test]
fn fixed_text_has_the_asked_digits() {
    assert_eq!(dec("0.1584").to_text_fixed(4), "0.1584");
    assert_eq!(dec("0.603").to_text_fixed(4), "0.6030");
    assert_eq!(dec("56.5").to_text_fixed(4), "56.5000");
    assert_eq!(dec("0").to_text_fixed(4), "0.0000");
    assert_eq!(dec("1.23456").to_text_fixed(2).len(), 4);
}

const MAX: i128 = 79_228_162_514_264_337_593_543_950_335;

struct Sequence(u64);

impl Sequence {
    fn next(&mut self) -> u64 {
        self.0 = self
            .0
            .wrapping_mul(6364136223846793005)
            .wrapping_add(1442695040888963407);
        self.0 >> 11
    }

    fn decimal(&mut self) -> Decimal {
        let bits = self.next() % 97;
        let raw = ((self.next() as u128) << 64 | self.next() as u128) >> (128 - bits.max(1));
        let magnitude = (raw as i128).min(MAX);
        let mantissa = if self.next() % 2 == 0 { magnitude } else { -magnitude };
        let mantissa = if self.next() % 7 == 0 { 0 } else { mantissa };
        let scale = (self.next() % 29) as u32;
        Decimal::try_new(mantissa, scale).unwrap()
    }
}

#[test]
fn products_in_range_are_exact() {
    let mut seq = Sequence(7);
    let mut exact = 0;
    for _ in 0..20000 {
        let a = seq.decimal();
        let b = seq.decimal();
        let got = a.checked_mul(&b).map(|p| (p.mantissa(), p.scale()));
        if a.mantissa() == 0 || b.mantissa() == 0 {
            assert_eq!(got, Some((0, 0)));
            continue;
        }
        let product = a.mantissa().checked_mul(b.mantissa());
        let scale = a.scale() + b.scale();
        if let Some(m) = product {
            if scale <= 28 && -MAX <= m && m <= MAX {
                assert_eq!(got, Some((m, scale)), "{:?} * {:?}", a, b);
                exact += 1;
            }
        }
        if let Some((m, s)) = got {
            assert!(-MAX <= m && m <= MAX && s <= 28);
        }
    }
    assert!(exact > 1000);
}

#[test]
fn sums_in_range_are_exact() {
    let mut seq = Sequence(11);
    let mut exact = 0;
    for _ in 0..20000 {
        let a = seq.decimal();
        let b = seq.decimal();
        let got = a.checked_add(&b).map(|p| (p.mantissa(), p.scale()));
        if a.mantissa() == 0 {
            assert_eq!(got, Some((b.mantissa(), b.scale())));
            continue;
        }
        if b.mantissa() == 0 {
            assert_eq!(got, Some((a.mantissa(), a.scale())));
            continue;
        }
        let scale = a.scale().max(b.scale());
        let left = 10i128
            .checked_pow(scale - a.scale())
            .and_then(|p| p.checked_mul(a.mantissa()));
        let right = 10i128
            .checked_pow(scale - b.scale())
            .and_then(|p| p.checked_mul(b.mantissa()));
        if let (Some(x), Some(y)) = (left, right) {
            let within = |v: i128| -MAX <= v && v <= MAX;
            if within(x) && within(y) && within(x + y) {
                assert_eq!(got, Some((x + y, scale)), "{:?} + {:?}", a, b);
                exact += 1;
            }
        }
        if let Some((m, s)) = got {
            assert!(-MAX <= m && m <= MAX && s <= 28);
        }
    }
    assert!(exact > 1000);
}

#[test]
fn order_agrees_with_the_numbers() {
    let mut seq = Sequence(13);
    for _ in 0..20000 {
        let a = seq.decimal();
        let b = seq.decimal();
        let left = 10i128
            .checked_pow(28 - a.scale())
            .and_then(|p| p.checked_mul(a.mantissa()));
        let right = 10i128
            .checked_pow(28 - b.scale())
            .and_then(|p| p.checked_mul(b.mantissa()));
        if let (Some(x), Some(y)) = (left, right) {
            assert_eq!(a.lt(&b), x < y);
            assert_eq!(a.le(&b), x <= y);
            assert_eq!(a.ge(&b), x >= y);
            assert_eq!(a.same_number(&b), x == y);
            assert_eq!(a == b, x == y);
        }
    }
}

#[test]
fn text_round_trips_through_parsing() {
    let mut seq = Sequence(17);
    for _ in 0..5000 {
        let a = seq.decimal();
        let back = Decimal::parse(&a.to_text()).unwrap();
        assert_eq!((back.mantissa(), back.scale()), (a.mantissa(), a.scale()));
    }
}

fn written(mantissa: i128, scale: u32, places: usize) -> String {
    let mut digits = if mantissa == 0 {
        String::new()
    } else {
        mantissa.unsigned_abs().to_string()
    };
    while digits.len() < scale as usize {
        digits.insert(0, '0');
    }
    let cut = digits.len() - scale as usize;
    let mut text = String::new();
    if mantissa < 0 {
        text.push('-');
    }
    if cut == 0 {
        text.push('0');
    } else {
        text.push_str(&digits[..cut]);
    }
    if places > 0 {
        text.push('.');
        let fraction = &digits[cut..];
        if places <= fraction.len() {
            text.push_str(&fraction[..places]);
        } else {
            text.push_str(fraction);
            text.push_str(&"0".repeat(places - fraction.len()));
        }
    }
    text
}

fn fits(mantissa: i128, scale: u32, places: usize) -> bool {
    let digits = if mantissa == 0 {
        0
    } else {
        mantissa.unsigned_abs().to_string().len()
    };
    let whole = digits.saturating_sub(scale as usize);
    let shown = places.min(28);
    let extra = if shown == 0 {
        0
    } else if whole == 0 {
        2
    } else {
        1
    };
    whole + shown + extra <= 32 && places <= usize::MAX / 2 - 64
}

#[test]
fn plain_text_is_sign_digits_point_digits() {
    assert_eq!(dec("0").to_text(), "0");
    assert_eq!(dec("0.000").to_text(), "0.000");
    assert_eq!(dec("-0.5").to_text(), "-0.5");
    assert_eq!(dec("0.030").to_text(), "0.030");
    assert_eq!(dec("120").to_text(), "120");
    assert_eq!(Decimal::try_new(-7, 28).unwrap().to_text(), "-0.0000000000000000000000000007");
    assert_eq!(Decimal::try_new(MAX, 28).unwrap().to_text(), "7.9228162514264337593543950335");
    assert_eq!(Decimal::try_new(-MAX, 0).unwrap().to_text(), "-79228162514264337593543950335");
    let mut seq = Sequence(19);
    for _ in 0..20000 {
        let a = seq.decimal();
        assert_eq!(a.to_text(), written(a.mantissa(), a.scale(), a.scale() as usize));
        assert!(a.to_text().len() <= 31);
    }
}

#[test]
fn fixed_text_cuts_off_or_fills_up() {
    assert_eq!(dec("1.23456").to_text_fixed(2), "1.23");
    assert_eq!(dec("1.999").to_text_fixed(0), "1");
    assert_eq!(dec("-0.00009").to_text_fixed(4), "-0.0000");
    assert_eq!(dec("0.5").to_text_fixed(0), "0");
    assert_eq!(dec("7").to_text_fixed(3), "7.000");
    assert_eq!(dec("0.1").to_text_fixed(30), "0.100000000000000000000000000000");
    assert_eq!(dec("12").to_text_fixed(40).len(), 43);
    let mut seq = Sequence(23);
    let mut compared = 0;
    for _ in 0..20000 {
        let a = seq.decimal();
        let places = (seq.next() % 41) as usize;
        assert_eq!(a.fits_fixed(places), fits(a.mantissa(), a.scale(), places));
        match a.try_text_fixed(places) {
            Some(text) => {
                assert_eq!(text, written(a.mantissa(), a.scale(), places));
                compared += 1;
            }
            None => assert!(!a.fits_fixed(places)),
        }
    }
    assert!(compared > 10000);
}

#[test]
fn fixed_text_has_a_longest_form() {
    let five = dec("12345");
    assert!(five.fits_fixed(26));
    assert_eq!(five.to_text_fixed(26).len(), 32);
    assert!(!five.fits_fixed(27));
    assert!(!five.fits_fixed(28));
    assert!(!five.fits_fixed(usize::MAX));
    assert_eq!(five.try_text_fixed(28), None);
    let wide = Decimal::try_new(10i128.pow(28), 0).unwrap();
    assert!(!wide.fits_fixed(4));
    assert_eq!(wide.try_text_fixed(4), None);
    assert!(wide.fits_fixed(2));
    assert_eq!(wide.to_text_fixed(2).len(), 32);
    assert!(wide.fits_fixed(0));
    let widest = Decimal::try_new(MAX, 0).unwrap();
    assert!(widest.fits_fixed(2));
    assert!(!widest.fits_fixed(3));
    assert_eq!(widest.to_text_fixed(0), "79228162514264337593543950335");
    let edge = Decimal::try_new(10i128.pow(27) - 1, 0).unwrap();
    assert_eq!(edge.to_text_fixed(4), "999999999999999999999999999.0000");
    let small = Decimal::try_new(1, 28).unwrap();
    assert!(small.fits_fixed(28));
    assert!(small.fits_fixed(1000));
    assert!(small.fits_fixed(usize::MAX / 2 - 64));
    assert!(!small.fits_fixed(usize::MAX / 2 - 63));
    assert!(!small.fits_fixed(usize::MAX));
    assert_eq!(small.to_text_fixed(30), "0.000000000000000000000000000100");
}
