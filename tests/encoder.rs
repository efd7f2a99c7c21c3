use maidsafe_utilities::encoder::{make_json_pattern, make_pattern};

#[test]
fn json_pattern_with_id() {
    assert_eq!(
        make_json_pattern(12345),
        "{{\"id\":\"12345\",\"level\":\"{l}\",\"time\":\"{d}\",\"thread\":\"{T}\",\"module\":\"{M}\",\"file\":\"{f}\",\"line\":\"{L}\",\"msg\":\"{m}\"}}"
    );
}

#[test]
fn json_pattern_with_extreme_ids() {
    assert!(make_json_pattern(0).starts_with("{{\"id\":\"0\",\"level\""));
    assert!(make_json_pattern(u64::MAX).starts_with("{{\"id\":\"18446744073709551615\",\"level\""));
}

#[test]
fn json_pattern_differs_by_id() {
    assert_ne!(make_json_pattern(1), make_json_pattern(2));
    assert_eq!(make_json_pattern(7), make_json_pattern(7));
}

#[test]
fn line_patterns() {
    assert_eq!(make_pattern(true), "{l} {d(%H:%M:%S.%f)} {T} [{M} #FS#{f}#FE#:{L}] {m}{n}");
    assert_eq!(make_pattern(false), "{l} {d(%H:%M:%S.%f)} [{M} #FS#{f}#FE#:{L}] {m}{n}");
}
