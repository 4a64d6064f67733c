use decimal_clock::time::DecimalTime;

fn rendered(dec_hour: u32, dec_min: u32, dec_sec: u32) -> String {
    DecimalTime { dec_hour, dec_min, dec_sec }.to_string()
}

#[test]
fn all_zero_renders_zero_padded() {
    assert_eq!(rendered(0, 0, 0), "00:00:00");
}

#[test]
fn maximum_renders_in_full() {
    assert_eq!(rendered(9, 99, 99), "09:99:99");
}

#[test]
fn single_digit_fields_are_padded() {
    assert_eq!(rendered(5, 3, 7), "05:03:07");
    assert_eq!(rendered(1, 0, 9), "01:00:09");
}

#[test]
fn mixed_fields_render_each_two_wide() {
    assert_eq!(rendered(7, 91, 66), "07:91:66");
    assert_eq!(rendered(9, 10, 1), "09:10:01");
}

#[test]
fn every_valid_time_renders_as_digit_pairs() {
    for hour in 0..10u32 {
        for minute in (0..100u32).step_by(9) {
            for second in (0..100u32).step_by(11) {
                let s = rendered(hour, minute, second);
                assert_eq!(s.len(), 8);
                let b = s.as_bytes();
                for (i, &c) in b.iter().enumerate() {
                    if i == 2 || i == 5 {
                        assert_eq!(c, b':');
                    } else {
                        assert!(c.is_ascii_digit());
                    }
                }
            }
        }
    }
}
