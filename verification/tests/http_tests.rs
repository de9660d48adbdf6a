use zerosemester::http::{is_success_status, status_text};

#[test]
fn success_is_exactly_the_two_hundreds() {
    assert!(!is_success_status(199));
    assert!(is_success_status(200));
    assert!(is_success_status(204));
    assert!(is_success_status(299));
    assert!(!is_success_status(300));
    assert!(!is_success_status(404));
}

#[test]
fn status_text_matches_display() {
    for code in [100u16, 200, 201, 404, 418, 500, 599, 999] {
        let display = reqwest::StatusCode::from_u16(code).unwrap().to_string();
        assert_eq!(status_text(code), display);
    }
    assert_eq!(status_text(404), "404 Not Found");
    assert_eq!(status_text(42), "42");
}
