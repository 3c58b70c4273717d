use reims_vgpu::text::{push_decimal, push_hex, push_optional, push_truth};

#[test]
fn numbers_are_written_as_they_are_read() {
    let mut out = String::new();
    for n in [0, 7, 10, 255, u64::MAX] {
        push_decimal(&mut out, n);
        out.push(' ');
        push_hex(&mut out, n);
        out.push(';');
    }
    assert_eq!(out, "0 0;7 7;10 a;255 ff;18446744073709551615 ffffffffffffffff;");
}

#[test]
fn absent_numbers_and_truth_values_are_written_in_words() {
    let mut out = String::from("x=");
    push_optional(&mut out, Some(12));
    push_optional(&mut out, None);
    push_truth(&mut out, true);
    push_truth(&mut out, false);
    assert_eq!(out, "x=Some(12)Nonetruefalse");
}
