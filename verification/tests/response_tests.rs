use supabase_client::response::interpret_response;
use supabase_client::text::{check_identifier, i64_to_string, percent_encode, u64_to_string};
use supabase_client::ClientError;

#[test]
fn two_rows_under_single_is_multiple_rows_error() {
    let body = "[{\"id\":1},{\"id\":2}]".to_string();
    assert!(matches!(
        interpret_response(true, 200, body),
        Err(ClientError::MultipleRowsError)
    ));
}

#[test]
fn zero_rows_under_single_is_not_found() {
    assert!(matches!(
        interpret_response(true, 200, "[]".to_string()),
        Err(ClientError::NotFound)
    ));
}

#[test]
fn one_row_under_single_is_ok() {
    let body = "[{\"id\":1,\"tags\":[1,2,3]}]".to_string();
    assert_eq!(interpret_response(true, 200, body.clone()).unwrap(), body);
}

#[test]
fn non_array_under_single_is_decode_error() {
    assert!(matches!(
        interpret_response(true, 200, "{\"id\":1}".to_string()),
        Err(ClientError::DecodeError)
    ));
}

#[test]
fn commas_inside_strings_do_not_split_rows() {
    let body = " [ \"a,b]\" ] ".to_string();
    assert!(interpret_response(true, 200, body).is_ok());
}

#[test]
fn escaped_quotes_inside_strings_are_handled() {
    let body = "[\"say \\\"hi\\\", twice\"]".to_string();
    assert!(interpret_response(true, 200, body).is_ok());
}

#[test]
fn nested_arrays_count_as_single_elements() {
    assert!(matches!(
        interpret_response(true, 200, "[[1,2],[3,4]]".to_string()),
        Err(ClientError::MultipleRowsError)
    ));
}

#[test]
fn non_2xx_is_request_error_with_status_and_body() {
    match interpret_response(false, 503, "oops".to_string()) {
        Err(ClientError::RequestError { status, body }) => {
            assert_eq!(status, 503);
            assert_eq!(body, "oops");
        },
        other => panic!("unexpected interpretation: {:?}", other),
    }
}

#[test]
fn plural_success_hands_body_back() {
    let body = "[{\"id\":1},{\"id\":2}]".to_string();
    assert_eq!(interpret_response(false, 200, body.clone()).unwrap(), body);
}

#[test]
fn truncated_array_is_decode_error() {
    assert!(matches!(
        interpret_response(true, 200, "[{\"id\":1}".to_string()),
        Err(ClientError::DecodeError)
    ));
}

#[test]
fn identifier_check_accepts_and_rejects() {
    assert!(check_identifier("users"));
    assert!(check_identifier("user_account_2"));
    assert!(!check_identifier(""));
    assert!(!check_identifier("user account"));
    assert!(!check_identifier("user-account"));
    assert!(!check_identifier("select *"));
}

#[test]
fn decimal_rendering_is_exact() {
    assert_eq!(u64_to_string(0), "0");
    assert_eq!(u64_to_string(907), "907");
    assert_eq!(u64_to_string(u64::MAX), "18446744073709551615");
    assert_eq!(i64_to_string(-1), "-1");
    assert_eq!(i64_to_string(0), "0");
}

#[test]
fn percent_encoding_keeps_unreserved_and_escapes_the_rest() {
    assert_eq!(percent_encode("abc-XYZ_0.9~"), "abc-XYZ_0.9~");
    assert_eq!(percent_encode("a b"), "a%20b");
    assert_eq!(percent_encode("50%"), "50%25");
    assert_eq!(percent_encode("a=b&c"), "a%3Db%26c");
}

#[test]
fn error_kinds_name_their_variant() {
    assert_eq!(ClientError::InvalidUrl.kind(), "InvalidUrl");
    assert_eq!(ClientError::NetworkError.kind(), "NetworkError");
    assert_eq!(ClientError::Cancelled.kind(), "Cancelled");
}
