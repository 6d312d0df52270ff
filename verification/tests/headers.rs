//! Headers and responses.

use corevisor::headers::{
    build_response, inject_credential, CredentialHeader, HeaderLimitReached,
};

fn header(name: &str, value: &str) -> Option<CredentialHeader> {
    Some(CredentialHeader {
        name: name.to_string(),
        value: value.to_string(),
    })
}

#[test]
fn injection_replaces_all_values_of_the_name() {
    let mut map = http::HeaderMap::new();
    map.append("x-key", "a".parse().unwrap());
    map.append("x-key", "b".parse().unwrap());
    map.append("x-other", "c".parse().unwrap());
    assert_eq!(inject_credential(&mut map, &header("X-KEY", "secret")), Ok(()));
    let values: Vec<&[u8]> = map.get_all("x-key").iter().map(|v| v.as_bytes()).collect();
    assert_eq!(values, vec![b"secret"]);
    assert_eq!(map["x-other"], "c");
}

#[test]
fn injection_keeps_the_bytes_of_the_value() {
    let mut map = http::HeaderMap::new();
    assert_eq!(inject_credential(&mut map, &header("K", "é\t")), Ok(()));
    assert_eq!(map["k"].as_bytes(), "é\t".as_bytes());
}

#[test]
fn nothing_to_inject() {
    let mut map = http::HeaderMap::new();
    assert_eq!(inject_credential(&mut map, &None), Ok(()));
    assert!(map.is_empty());
}

#[test]
fn invalid_names_and_values_are_passed_over() {
    let mut map = http::HeaderMap::new();
    for bad in ["", "a b", "a:b", "é", "a\n", "\"", "(", "{"] {
        assert_eq!(inject_credential(&mut map, &header(bad, "v")), Ok(()));
    }
    for bad in ["a\nb", "a\r", "\u{7f}", "\0"] {
        assert_eq!(inject_credential(&mut map, &header("k", bad)), Ok(()));
    }
    assert!(map.is_empty());
}

#[test]
fn every_token_character_is_valid_in_a_name() {
    let token = "!#$%&'*+-.^_`|~09azAZ";
    let mut map = http::HeaderMap::new();
    assert_eq!(inject_credential(&mut map, &header(token, "v")), Ok(()));
    assert_eq!(map["!#$%&'*+-.^_`|~09azaz"], "v");
}

#[test]
fn names_have_a_longest_length() {
    let mut map = http::HeaderMap::new();
    let longest = "a".repeat(65535);
    assert_eq!(inject_credential(&mut map, &header(&longest, "v")), Ok(()));
    assert_eq!(map.len(), 1);
    let longer = "b".repeat(65536);
    assert_eq!(inject_credential(&mut map, &header(&longer, "v")), Ok(()));
    assert_eq!(map.len(), 1);
}

#[test]
fn full_map_takes_no_new_name() {
    let mut map = http::HeaderMap::new();
    for i in 0.. {
        let name = http::HeaderName::from_bytes(format!("h{i}").as_bytes()).unwrap();
        if map.try_insert(name, http::HeaderValue::from_static("v")).is_err() {
            break;
        }
    }
    let held = map.len();
    assert!(held * 5 >= 32768);
    assert_eq!(
        inject_credential(&mut map, &header("authorization", "v")),
        Err(HeaderLimitReached)
    );
    assert_eq!(map.len(), held);
    assert_eq!(inject_credential(&mut map, &header("not valid", "v")), Ok(()));
}

fn entries(list: &[(&str, &[u8])]) -> Vec<(String, Vec<u8>)> {
    list.iter()
        .map(|(name, value)| (name.to_string(), value.to_vec()))
        .collect()
}

#[test]
fn response_has_status_headers_and_body() {
    let list = entries(&[("Content-Type", b"text/html"), ("X-A", b"1"), ("x-a", b"2")]);
    let response = build_response(404, &list, vec![1, 2, 3]).unwrap();
    assert_eq!(response.status().as_u16(), 404);
    assert_eq!(response.headers()["content-type"], "text/html");
    let values: Vec<&[u8]> = response
        .headers()
        .get_all("x-a")
        .iter()
        .map(|v| v.as_bytes())
        .collect();
    assert_eq!(values, vec![b"1", b"2"]);
    assert_eq!(response.headers().len(), 3);
    assert_eq!(response.body(), &vec![1, 2, 3]);
}

#[test]
fn response_status_has_limits() {
    assert!(build_response(99, &vec![], vec![]).is_err());
    assert!(build_response(100, &vec![], vec![]).is_ok());
    assert!(build_response(999, &vec![], vec![]).is_ok());
    assert!(build_response(1000, &vec![], vec![]).is_err());
}

#[test]
fn response_refuses_invalid_headers() {
    assert!(build_response(200, &entries(&[("bad name", b"v")]), vec![]).is_err());
    assert!(build_response(200, &entries(&[("k", b"a\nb")]), vec![]).is_err());
    assert!(build_response(200, &entries(&[("k", b"\xff\xfe")]), vec![]).is_ok());
}

#[test]
fn response_takes_many_values_of_one_name() {
    let list: Vec<(String, Vec<u8>)> = (0..40000)
        .map(|i| ("x-a".to_string(), format!("{i}").into_bytes()))
        .collect();
    let response = build_response(200, &list, vec![]).unwrap();
    assert_eq!(response.headers().len(), 40000);
    assert_eq!(response.headers().get_all("x-a").iter().last().unwrap(), "39999");
}

#[test]
fn response_takes_only_so_many_names() {
    let names = |count: u32| -> Vec<(String, Vec<u8>)> {
        (0..count).map(|i| (format!("h{i}"), vec![])).collect()
    };
    let response = build_response(200, &names(6553), vec![]).unwrap();
    assert_eq!(response.headers().keys_len(), 6553);
    assert!(build_response(200, &names(40000), vec![]).is_err());
}
