use async_patterns::app_error::{boom, get_item, AppError};

#[test]
fn not_found_reply() {
    let e = AppError::NotFound;
    assert_eq!(e.status_code(), 404);
    assert_eq!(e.code(), "NOT_FOUND");
    assert_eq!(e.message(), "not found");
}

#[test]
fn bad_request_reply() {
    let r = AppError::BadRequest("id must be greater than zero".to_string()).into_reply();
    assert_eq!(r.status, 400);
    assert_eq!(r.code, "BAD_REQUEST");
    assert_eq!(r.message, "invalid input: id must be greater than zero");
}

#[test]
fn internal_reply() {
    let r = AppError::Internal.into_reply();
    assert_eq!((r.status, r.code, r.message.as_str()), (500, "INTERNAL", "internal error"));
}

#[test]
fn item_lookup() {
    match get_item(0) {
        Err(AppError::BadRequest(detail)) => assert_eq!(detail, "id must be greater than zero"),
        _ => panic!("id 0 is a bad request"),
    }
    match get_item(1) {
        Ok(item) => assert_eq!((item.id, item.name), (1, "Tokio")),
        _ => panic!("id 1 exists"),
    }
    assert!(matches!(get_item(99), Err(AppError::NotFound)));
    assert!(matches!(get_item(u64::MAX), Err(AppError::NotFound)));
    assert!(matches!(boom(), Err(AppError::Internal)));
}
