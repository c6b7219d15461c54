use load_rs::config::{parse_http_method, parse_order, PathCheck};
use load_rs::{ConfigError, HttpMethod, LoadTestRunner, Order};

fn checked(path: &str, is_file: bool) -> Option<PathCheck> {
    Some(PathCheck { path: path.to_string(), is_file })
}

#[test]
fn new_succeeds() {
    let result = LoadTestRunner::new("http://localhost:8080", 10, 2, &None, &None, &None).unwrap();

    assert_eq!(result.url, "http://localhost:8080");
    assert_eq!(result.requests, 10);
    assert_eq!(result.concurrency, 2);
}

#[test]
fn new_url_is_empty_fails() {
    let result = LoadTestRunner::new("", 2, 2, &None, &None, &None).err().unwrap();

    assert_eq!(result.message(), "URL cannot be empty");
}

#[test]
fn new_num_requests_is_zero_fails() {
    let result = LoadTestRunner::new("http://localhost:8080", 0, 2, &None, &None, &None)
        .err()
        .unwrap();

    assert_eq!(result.message(), "Number of requests cannot be zero");
}

#[test]
fn new_num_concurrency_is_zero_fails() {
    let result = LoadTestRunner::new("http://localhost:8080", 2, 0, &None, &None, &None)
        .err()
        .unwrap();

    assert_eq!(result.message(), "Number of concurrency cannot be zero");
}

#[test]
fn new_num_concurrency_greater_than_num_requests_fails() {
    let result = LoadTestRunner::new("http://localhost:8080", 2, 3, &None, &None, &None)
        .err()
        .unwrap();

    assert_eq!(
        result.message(),
        "Number of concurrency: 3 must be less than number of requests: 2"
    );
}

#[test]
fn new_ca_cert_does_not_exist_fails() {
    let result = LoadTestRunner::new(
        "http://localhost:8080",
        10,
        2,
        &checked("doesnotexist", false),
        &None,
        &None,
    )
    .err()
    .unwrap();

    assert_eq!(
        result.message(),
        "CA certificate 'doesnotexist' does not exist or is not a file"
    );
}

#[test]
fn new_cert_does_not_exist_fails() {
    let result = LoadTestRunner::new(
        "http://localhost:8080",
        10,
        2,
        &None,
        &checked("doesnotexist", false),
        &checked("tests/tls/key.pem", true),
    )
    .err()
    .unwrap();

    assert_eq!(
        result.message(),
        "Certificate 'doesnotexist' does not exist or is not a file"
    );
}

#[test]
fn new_key_does_not_exist_fails() {
    let result = LoadTestRunner::new(
        "http://localhost:8080",
        10,
        2,
        &None,
        &checked("tests/tls/client.crt", true),
        &checked("doesnotexist", false),
    )
    .err()
    .unwrap();

    assert_eq!(
        result.message(),
        "Private key 'doesnotexist' does not exist or is not a file"
    );
}

#[test]
fn new_cert_without_key_is_not_checked() {
    let result = LoadTestRunner::new(
        "http://localhost:8080",
        10,
        10,
        &checked("ca.pem", true),
        &checked("doesnotexist", false),
        &None,
    );
    assert!(result.is_ok());
}

#[test]
fn new_equal_concurrency_and_requests_succeeds() {
    assert!(LoadTestRunner::new("u", 1, 1, &None, &None, &None).is_ok());
}

#[test]
fn data_file_missing_message() {
    assert_eq!(
        ConfigError::MissingDataFile("doesnotexist".to_string()).message(),
        "Data file 'doesnotexist' does not exist or is not a file"
    );
    assert_eq!(
        ConfigError::MissingDataFile("tests/test_requests".to_string()).message(),
        "Data file 'tests/test_requests' does not exist or is not a file"
    );
}

#[test]
fn parse_http_method_ignores_case() {
    assert_eq!(parse_http_method("get").ok(), Some(HttpMethod::Get));
    assert_eq!(parse_http_method("POST").ok(), Some(HttpMethod::Post));
    assert_eq!(parse_http_method("Put").ok(), Some(HttpMethod::Put));
    assert_eq!(parse_http_method("dElEtE").ok(), Some(HttpMethod::Delete));
    assert_eq!(parse_http_method("patch").ok(), Some(HttpMethod::Patch));
    assert_eq!(parse_http_method("HEAD").ok(), Some(HttpMethod::Head));
}

#[test]
fn parse_http_method_rejects_unknown() {
    let err = parse_http_method("fetch").err().unwrap();
    assert_eq!(err, ConfigError::InvalidMethod("fetch".to_string()));
    assert_eq!(err.message(), "'fetch' is not a valid HTTP method");
    assert!(parse_http_method("gets").is_err());
    assert!(parse_http_method("").is_err());
}

#[test]
fn parse_order_ignores_case() {
    assert_eq!(parse_order("sequential").ok(), Some(Order::Sequential));
    assert_eq!(parse_order("RANDOM").ok(), Some(Order::Random));
    let err = parse_order("shuffled").err().unwrap();
    assert_eq!(err.message(), "'shuffled' is not a valid read order");
}

#[test]
fn method_names() {
    assert_eq!(HttpMethod::Get.name(), "Get");
    assert_eq!(HttpMethod::Delete.name(), "Delete");
    assert!(!HttpMethod::Head.allows_body());
    assert!(HttpMethod::Patch.allows_body());
}
