use mikaana::error::ApiError;

#[test]
fn status_codes_follow_the_taxonomy() {
    assert_eq!(ApiError::Unauthorized.status(), 401);
    assert_eq!(ApiError::BadRequest.status(), 400);
    assert_eq!(ApiError::NotFound.status(), 404);
    assert_eq!(ApiError::BadGateway.status(), 502);
    assert_eq!(ApiError::Internal.status(), 500);
}
