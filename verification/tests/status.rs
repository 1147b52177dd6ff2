use mocktail::{Code, Error, StatusCode};

#[test]
fn status_codes_are_checked_for_range() {
    for code in [0u16, 1, 99, 999, 1000, 65535] {
        match StatusCode::from_u16(code) {
            Err(Error::Invalid(message)) => assert_eq!(message, "invalid status code"),
            other => panic!("{code} gave {other:?}"),
        }
    }
    for code in [100u16, 101, 200, 404, 599, 600, 998] {
        assert_eq!(StatusCode::from_u16(code).unwrap().as_u16(), code);
    }
}

#[test]
fn status_classes() {
    let class = |code: u16| {
        let s = StatusCode::from_u16(code).unwrap();
        (s.is_informational(), s.is_success(), s.is_redirection(), s.is_error(), s.is_ok())
    };
    assert_eq!(class(100), (true, false, false, false, false));
    assert_eq!(class(199), (true, false, false, false, false));
    assert_eq!(class(200), (false, true, false, false, true));
    assert_eq!(class(299), (false, true, false, false, true));
    assert_eq!(class(300), (false, false, true, false, false));
    assert_eq!(class(399), (false, false, true, false, false));
    assert_eq!(class(400), (false, false, false, true, false));
    assert_eq!(class(599), (false, false, false, true, false));
    assert_eq!(class(600), (false, false, false, false, false));
}

#[test]
fn status_maps_to_grpc_by_the_table() {
    let table: [(u16, Code, i32); 12] = [
        (200, Code::OK, 0),
        (400, Code::InvalidArgument, 3),
        (422, Code::InvalidArgument, 3),
        (401, Code::Unauthenticated, 16),
        (403, Code::PermissionDenied, 7),
        (404, Code::NotFound, 5),
        (429, Code::Unavailable, 14),
        (502, Code::Unavailable, 14),
        (503, Code::Unavailable, 14),
        (504, Code::Unavailable, 14),
        (500, Code::Internal, 13),
        (501, Code::Unimplemented, 12),
    ];
    for (status, code, number) in table {
        let s = StatusCode::from_u16(status).unwrap();
        assert_eq!(s.as_grpc(), code);
        assert_eq!(s.as_grpc_i32(), number);
        assert_eq!(Code::from_http(s), code);
        assert_eq!(Code::from_http_u16(status).unwrap(), code);
        assert_eq!(s.as_http(), status);
    }
    for other in [100u16, 201, 204, 301, 402, 405, 415, 418, 505, 998] {
        assert_eq!(StatusCode::from_u16(other).unwrap().as_grpc(), Code::Unknown);
    }
    assert!(matches!(Code::from_http_u16(99), Err(Error::Invalid(_))));
    assert!(matches!(Code::from_http_u16(999), Err(Error::Invalid(_))));
}

#[test]
fn named_statuses() {
    assert_eq!(StatusCode::ok().as_u16(), 200);
    assert_eq!(StatusCode::default(), StatusCode::ok());
    assert_eq!(StatusCode::bad_request().as_u16(), 400);
    assert_eq!(StatusCode::unauthorized().as_u16(), 401);
    assert_eq!(StatusCode::forbidden().as_u16(), 403);
    assert_eq!(StatusCode::not_found().as_u16(), 404);
    assert_eq!(StatusCode::method_not_allowed().as_u16(), 405);
    assert_eq!(StatusCode::unsupported_media_type().as_u16(), 415);
    assert_eq!(StatusCode::unprocessable_entity().as_u16(), 422);
    assert_eq!(StatusCode::internal_server_error().as_u16(), 500);
    assert_eq!(StatusCode::not_implemented().as_u16(), 501);
    assert_eq!(StatusCode::bad_gateway().as_u16(), 502);
    assert_eq!(StatusCode::service_unavailable().as_u16(), 503);
    assert_eq!(StatusCode::gateway_timeout().as_u16(), 504);
}

#[test]
fn codes_have_numbers_texts_and_descriptions() {
    let all = [
        Code::OK,
        Code::Cancelled,
        Code::Unknown,
        Code::InvalidArgument,
        Code::DeadlineExceeded,
        Code::NotFound,
        Code::AlreadyExists,
        Code::PermissionDenied,
        Code::ResourceExhausted,
        Code::FailedPrecondition,
        Code::Aborted,
        Code::OutOfRange,
        Code::Unimplemented,
        Code::Internal,
        Code::Unavailable,
        Code::DataLoss,
        Code::Unauthenticated,
    ];
    for (number, code) in all.iter().enumerate() {
        assert_eq!(code.value(), number as i32);
        assert_eq!(code.to_header_value(), format!("{number}"));
        assert!(!code.description().is_empty());
    }
    assert_eq!(Code::OK.description(), "The operation completed successfully");
    assert_eq!(Code::NotFound.description(), "Some requested entity was not found");
    assert_eq!(
        Code::Unauthenticated.description(),
        "The request does not have valid authentication credentials"
    );
}

#[test]
fn errors_render_with_their_label() {
    assert_eq!(Error::Invalid("x".to_string()).message(), "invalid: x");
    assert_eq!(Error::JsonError("y".to_string()).message(), "json error: y");
    assert_eq!(Error::IoError("z".to_string()).message(), "io error: z");
    assert_eq!(Error::ServerError("w".to_string()).message(), "server error: w");
    assert_eq!(Error::ServerError("w".to_string()).detail(), "w");
    assert_eq!(StatusCode::from_u16(7).unwrap_err().message(), "invalid: invalid status code");
}
