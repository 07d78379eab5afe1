use sonora_ns::fast_math::apply_batch;

#[test]
fn batch_applies_elementwise() {
    let x = [1.0_f32, 2.0, 4.0, 8.0];
    let mut y = [0.0_f32; 4];
    apply_batch(&x, &mut y, |v| v * 2.0);
    assert_eq!(y, [2.0, 4.0, 8.0, 16.0]);
}

#[test]
fn batch_stops_at_shorter_output() {
    let x = [1u32, 2, 3, 4, 5];
    let mut y = [0u64; 3];
    apply_batch(&x, &mut y, |v| v as u64 * 10);
    assert_eq!(y, [10, 20, 30]);
}

#[test]
fn batch_stops_at_shorter_input() {
    let x = [-1i8, 2];
    let mut y = [7i32; 4];
    apply_batch(&x, &mut y, |v| -(v as i32));
    assert_eq!(y, [1, -2, 7, 7]);
}

#[test]
fn batch_of_nothing_changes_nothing() {
    let x: [u8; 0] = [];
    let mut y = [3u8; 2];
    apply_batch(&x, &mut y, |v| v + 1);
    assert_eq!(y, [3, 3]);
}
