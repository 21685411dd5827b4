#[test]
fn always_passes() {
    assert!(true)
}
