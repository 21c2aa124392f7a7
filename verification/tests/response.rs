use sundries::response::{
    BodyKind, ResponseError, check_json_response, check_status, classify_body,
    is_success,
};

#[test]
fn success_statuses_are_the_two_hundreds() {
    assert!(is_success(200));
    assert!(is_success(204));
    assert!(is_success(299));
    assert!(!is_success(199));
    assert!(!is_success(300));
    assert!(!is_success(404));
}

#[test]
fn bodies_classify_as_json_text_or_binary() {
    assert_eq!(classify_body(&b"{\"a\":1}".to_vec()), BodyKind::Json);
    assert_eq!(classify_body(&b"[1,2,3]".to_vec()), BodyKind::Json);
    assert_eq!(
        classify_body(&b"haha this not json dummy".to_vec()),
        BodyKind::Text,
    );
    assert_eq!(classify_body(&vec![0xff, 0xfe]), BodyKind::Binary);
}

#[test]
fn a_successful_json_response_yields_its_value() {
    let r = check_json_response(200, b"{\"a\":1,\"b\":\"ahha\",\"c\":true}".to_vec());
    assert!(r.is_ok());
}

#[test]
fn a_successful_non_json_response_is_refused() {
    let r = check_json_response(200, b"haha this not json dummy".to_vec());
    match r {
        Err(ResponseError::NotJson { kind, body }) => {
            assert_eq!(kind, BodyKind::Text);
            assert_eq!(body, b"haha this not json dummy".to_vec());
        },
        _ => panic!("expected a refusal"),
    }
    let r = check_json_response(200, vec![0xff]);
    assert!(matches!(
        r,
        Err(ResponseError::NotJson { kind: BodyKind::Binary, .. }),
    ));
}

#[test]
fn a_failing_status_is_reported_with_its_body() {
    let r = check_json_response(400, b"{\"error\":\"error text\"}".to_vec());
    match r {
        Err(ResponseError::BadStatus { status, kind, body }) => {
            assert_eq!(status, 400);
            assert_eq!(kind, BodyKind::Json);
            assert_eq!(body, b"{\"error\":\"error text\"}".to_vec());
        },
        _ => panic!("expected a bad status"),
    }
    let r = check_json_response(400, b"error text".to_vec());
    assert!(matches!(
        r,
        Err(ResponseError::BadStatus { status: 400, kind: BodyKind::Text, .. }),
    ));
}

#[test]
fn check_status_passes_successes_and_carries_failing_bodies() {
    assert!(check_status(204, Vec::new()).is_ok());
    match check_status(500, b"oops".to_vec()) {
        Err(ResponseError::BadStatus { status, kind, body }) => {
            assert_eq!(status, 500);
            assert_eq!(kind, BodyKind::Text);
            assert_eq!(body, b"oops".to_vec());
        },
        _ => panic!("expected a bad status"),
    }
    assert!(matches!(
        check_status(500, vec![0xff]),
        Err(ResponseError::BadStatus { kind: BodyKind::Binary, .. }),
    ));
}
