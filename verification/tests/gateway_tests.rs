use eryzaa_core::broker::GatewayError;
use eryzaa_core::gateway::{
    format_create_request, format_remove_request, interpret_helper_answer, trim_answer,
};

#[test]
fn request_lines_are_spelled_exactly() {
    assert_eq!(
        format_create_request("job_0a1b2c3d", "s3cr3t!pass#word"),
        "create|job_0a1b2c3d|s3cr3t!pass#word"
    );
    assert_eq!(format_remove_request("job_0a1b2c3d"), "remove|job_0a1b2c3d");
}

#[test]
fn only_the_success_token_counts_as_success() {
    assert_eq!(interpret_helper_answer("SUCCESS"), Ok(()));
    assert_eq!(interpret_helper_answer("SUCCESS\n"), Ok(()));
    assert_eq!(interpret_helper_answer("  SUCCESS \r\n"), Ok(()));
    assert_eq!(
        interpret_helper_answer("FAILURE: no such user"),
        Err(GatewayError::ServiceError("FAILURE: no such user".to_string()))
    );
    assert_eq!(
        interpret_helper_answer(" success \n"),
        Err(GatewayError::ServiceError("success".to_string()))
    );
    assert_eq!(
        interpret_helper_answer(""),
        Err(GatewayError::ServiceError(String::new()))
    );
}

#[test]
fn trimming_strips_only_the_edges() {
    assert_eq!(trim_answer("  a b\tc  \r\n"), "a b\tc");
    assert_eq!(trim_answer(""), "");
    assert_eq!(trim_answer(" \t\r\n"), "");
    assert_eq!(trim_answer("plain"), "plain");
}
