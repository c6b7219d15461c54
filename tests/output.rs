use load_rs::output::get_output_file;
use load_rs::record::{failure_record, success_record, ResponseRecord};

#[test]
fn get_output_file_succeeds() {
    let output_file = get_output_file(100, "/tmp", 3, &None, true);
    assert_eq!(output_file, "/tmp/success-003.json");

    let output_file = get_output_file(100, "/tmp", 3, &None, false);
    assert_eq!(output_file, "/tmp/failure-003.json");

    let output_file = get_output_file(100, "/tmp", 3, &Some("request".to_string()), true);
    assert_eq!(output_file, "/tmp/success-003-request.json");

    let output_file = get_output_file(100, "/tmp", 3, &Some("request".to_string()), false);
    assert_eq!(output_file, "/tmp/failure-003-request.json");
}

#[test]
fn output_file_width_follows_request_count() {
    assert_eq!(get_output_file(3, "/tmp/load-rs/lib1", 1, &None, true), "/tmp/load-rs/lib1/success-1.json");
    assert_eq!(get_output_file(9, "out/", 9, &None, false), "out/failure-9.json");
    assert_eq!(get_output_file(10, "", 7, &Some("test2".to_string()), true), "success-07-test2.json");
    assert_eq!(get_output_file(4294967295, "d", 12, &None, true), "d/success-0000000012.json");
    assert_eq!(get_output_file(1000, "d", 1000, &None, true), "d/success-1000.json");
}

#[test]
fn failure_record_is_pretty_json() {
    assert_eq!(failure_record("boom"), "{\n  \"error\": \"boom\"\n}");
    assert_eq!(failure_record("say \"hi\""), "{\n  \"error\": \"say \\\"hi\\\"\"\n}");
}

#[test]
fn success_record_is_pretty_json() {
    let record = ResponseRecord {
        version: "HTTP/1.1".to_string(),
        status: 200,
        headers: vec![
            ("content-type".to_string(), "text/plain".to_string()),
            ("a".to_string(), "b".to_string()),
        ],
        body: "Hello".to_string(),
    };
    let text = success_record(&record, 1_500_000_007);
    assert_eq!(
        text,
        "{\n  \"body\": \"Hello\",\n  \"duration\": {\n    \"nanos\": 500000007,\n    \"secs\": 1\n  },\n  \"headers\": {\n    \"a\": \"b\",\n    \"content-type\": \"text/plain\"\n  },\n  \"status\": 200,\n  \"version\": \"HTTP/1.1\"\n}"
    );
}
