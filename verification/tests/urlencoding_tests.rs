use harvester_dns_controller::routeros::urlencoding;

#[test]
fn test_urlencoding_passthrough() {
    assert_eq!(urlencoding::encode("hello"), "hello");
    assert_eq!(urlencoding::encode("Hello123"), "Hello123");
    assert_eq!(urlencoding::encode("a-b_c.d~e"), "a-b_c.d~e");
}

#[test]
fn test_urlencoding_spaces() {
    assert_eq!(urlencoding::encode("hello world"), "hello%20world");
}

#[test]
fn test_urlencoding_special_chars() {
    assert_eq!(urlencoding::encode("a=b"), "a%3Db");
    assert_eq!(urlencoding::encode("a&b"), "a%26b");
    assert_eq!(urlencoding::encode("a+b"), "a%2Bb");
}

#[test]
fn test_urlencoding_fqdn() {
    assert_eq!(
        urlencoding::encode("myvm.lab.example.com"),
        "myvm.lab.example.com"
    );
}

#[test]
fn test_urlencoding_comment_tag() {
    assert_eq!(
        urlencoding::encode("managed-by=test"),
        "managed-by%3Dtest"
    );
}

#[test]
fn test_urlencoding_multibyte_utf8() {
    assert_eq!(urlencoding::encode("é"), "%C3%A9");
    assert_eq!(urlencoding::encode("€"), "%E2%82%AC");
    assert_eq!(urlencoding::encode("😀"), "%F0%9F%98%80");
    assert_eq!(urlencoding::encode("/?#"), "%2F%3F%23");
    assert_eq!(urlencoding::encode(""), "");
}

#[test]
fn test_urlencoding_distinct_inputs_stay_distinct() {
    let inputs = ["a b", "a%20b", "a+b", "é", "%C3%A9", "a=b"];
    let encoded: Vec<String> = inputs.iter().map(|s| urlencoding::encode(s)).collect();
    for i in 0..encoded.len() {
        for j in 0..encoded.len() {
            assert_eq!(i == j, encoded[i] == encoded[j]);
        }
    }
}
