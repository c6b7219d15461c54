use load_rs::body::{check_body, file_stem, manifest_entries, select_index, BodyFiles};
use load_rs::{Body, ConfigError, HttpMethod, Order};

#[test]
fn get_and_head_refuse_a_body() {
    for method in [HttpMethod::Get, HttpMethod::Head] {
        let sources = [
            Body::Data(b"x".to_vec()),
            Body::DataFile("tests/test_requests/test1.json".to_string()),
            Body::DataDir("tests/test_requests".to_string(), Order::Sequential),
            Body::Manifest("requests.jsonl".to_string(), Order::Random),
        ];
        for body in sources {
            let err = check_body(method, &Some(body)).err().unwrap();
            assert_eq!(err, ConfigError::MethodNotSupported(method));
        }
        assert!(check_body(method, &None).is_ok());
        assert!(check_body(method, &Some(Body::Data(Vec::new()))).is_ok());
    }
    let err = check_body(HttpMethod::Get, &Some(Body::DataDir("d".to_string(), Order::Sequential)))
        .err()
        .unwrap();
    assert_eq!(err.message(), "HTTP method 'Get' not supported");
}

#[test]
fn other_methods_accept_a_body() {
    for method in [HttpMethod::Post, HttpMethod::Put, HttpMethod::Patch, HttpMethod::Delete] {
        assert!(check_body(method, &Some(Body::DataDir("d".to_string(), Order::Random))).is_ok());
        assert!(check_body(method, &Some(Body::Data(b"hello".to_vec()))).is_ok());
    }
}

#[test]
fn sequential_selection_cycles() {
    let picks: Vec<usize> = (0..7).map(|i| select_index(Order::Sequential, i, 3)).collect();
    assert_eq!(picks, vec![0, 1, 2, 0, 1, 2, 0]);
}

#[test]
fn random_selection_stays_in_range() {
    for i in 0..200 {
        assert!(select_index(Order::Random, i, 5) < 5);
    }
    assert_eq!(select_index(Order::Random, 3, 1), 0);
}

#[test]
fn body_files_are_sorted_and_cycle() {
    let paths = vec![
        "tests/test_requests/test3.json".to_string(),
        "tests/test_requests/test1.json".to_string(),
        "tests/test_requests/test2.json".to_string(),
    ];
    let files = BodyFiles::new("tests/test_requests", paths).ok().unwrap();
    let picks: Vec<(String, String)> = (0..5).map(|i| files.pick(Order::Sequential, i)).collect();
    let labels: Vec<&str> = picks.iter().map(|p| p.1.as_str()).collect();
    assert_eq!(labels, vec!["test1", "test2", "test3", "test1", "test2"]);
    assert_eq!(picks[2].0, "tests/test_requests/test3.json");
    let (path, label) = files.pick(Order::Random, 9);
    assert!(path.starts_with("tests/test_requests/test"));
    assert_eq!(label, file_stem(&path));
}

#[test]
fn empty_directory_is_refused() {
    let err = BodyFiles::new("empty", Vec::new()).err().unwrap();
    assert_eq!(err.message(), "Directory 'empty' holds no files");
}

#[test]
fn file_stems() {
    assert_eq!(file_stem("tests/test_requests/test1.json"), "test1");
    assert_eq!(file_stem("a.tar.gz"), "a.tar");
    assert_eq!(file_stem("dir/.hidden"), ".hidden");
    assert_eq!(file_stem("dir.d/plain"), "plain");
    assert_eq!(file_stem("request"), "request");
}

#[test]
fn manifest_lines_skip_empty_lines() {
    assert_eq!(
        manifest_entries("a.json\nb.json\r\n\n  \nc.json"),
        vec!["a.json", "b.json", "  ", "c.json"]
    );
    assert_eq!(manifest_entries(""), Vec::<String>::new());
    assert_eq!(manifest_entries("only\n"), vec!["only"]);
}

#[test]
fn manifest_entries_keep_their_order() {
    let entries = manifest_entries("dir/zeta.json\ndir/alpha.json\n");
    let files = BodyFiles::from_manifest("requests.txt", entries).ok().unwrap();
    let picks: Vec<String> = (0..3).map(|i| files.pick(Order::Sequential, i).1).collect();
    assert_eq!(picks, vec!["zeta", "alpha", "zeta"]);
}

#[test]
fn empty_manifest_is_refused() {
    let err = BodyFiles::from_manifest("requests.txt", manifest_entries("\n\n")).err().unwrap();
    assert_eq!(err, ConfigError::EmptyManifest("requests.txt".to_string()));
    assert_eq!(err.message(), "Manifest 'requests.txt' holds no entries");
}
