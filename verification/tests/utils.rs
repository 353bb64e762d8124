use seagull::utils::RangeExt;

#[test]
fn clamp_constrains_to_range() {
    let range = 16u64..=1024u64;
    assert_eq!(range.clamp(8), 16);
    assert_eq!(range.clamp(16), 16);
    assert_eq!(range.clamp(64), 64);
    assert_eq!(range.clamp(1024), 1024);
    assert_eq!(range.clamp(2048), 1024);
}
