use bullshark::text::{push_decimal, push_integer, push_metres, push_str};

fn metres(mm: u64) -> String {
    let mut v = Vec::new();
    push_metres(&mut v, mm);
    v.into_iter().collect()
}

fn integer(n: i64) -> String {
    let mut v = Vec::new();
    push_integer(&mut v, n);
    v.into_iter().collect()
}

#[test]
fn metres_render_like_shortest_float_text() {
    for (mm, f) in [(5_000_000u64, 5000.0f64), (5_012_300, 5012.3), (1_010_500, 1010.5), (20, 0.02), (1, 0.001), (0, 0.0), (123_450, 123.45)] {
        assert_eq!(metres(mm), format!("{}", f));
    }
}

#[test]
fn integers_render_in_decimal() {
    assert_eq!(integer(0), "0");
    assert_eq!(integer(1500), "1500");
    assert_eq!(integer(-42), "-42");
    assert_eq!(integer(i64::MIN), i64::MIN.to_string());
    assert_eq!(integer(i64::MAX), i64::MAX.to_string());
    let mut v = Vec::new();
    push_decimal(&mut v, u64::MAX);
    assert_eq!(v.into_iter().collect::<String>(), u64::MAX.to_string());
}

#[test]
fn push_str_appends_characters() {
    let mut v = vec!['a'];
    push_str(&mut v, "bé|c");
    assert_eq!(v, vec!['a', 'b', 'é', '|', 'c']);
}
