use inference_cache::query::parse_query;

fn pair(k: &str, v: &str) -> (Vec<u8>, Vec<u8>) {
    (k.as_bytes().to_vec(), v.as_bytes().to_vec())
}

#[test]
fn parses_two_pairs() {
    let q = b"container=photos&blob=cat.png".to_vec();
    assert_eq!(
        parse_query(&q),
        Some(vec![pair("container", "photos"), pair("blob", "cat.png")])
    );
}

#[test]
fn empty_query_gives_no_pairs() {
    let q: Vec<u8> = Vec::new();
    assert_eq!(parse_query(&q), Some(Vec::new()));
}

#[test]
fn an_empty_segment_ends_the_parse() {
    let with_trailing = b"a=1&".to_vec();
    assert_eq!(parse_query(&with_trailing), Some(vec![pair("a", "1")]));

    let with_hole = b"a=1&&b=2".to_vec();
    assert_eq!(parse_query(&with_hole), Some(vec![pair("a", "1")]));
}

#[test]
fn a_segment_without_a_value_is_refused() {
    let q = b"a=1&b".to_vec();
    assert_eq!(parse_query(&q), None);
}

#[test]
fn a_second_separator_ends_the_value() {
    let q = b"a=b=c".to_vec();
    assert_eq!(parse_query(&q), Some(vec![pair("a", "b")]));

    let keyless = b"=v".to_vec();
    assert_eq!(parse_query(&keyless), Some(vec![pair("", "v")]));
}
