use sweetpaste::cache::create_cache;
use sweetpaste::codec::{Id, Mask};
use sweetpaste::config::Config;
use sweetpaste::error::Error;
use sweetpaste::routes::{
    client_ip, delete, get, is_authorized, is_not_found, paste_url, recover_status, rejection_of,
    same_octets, store_rendered, upload_allowed, Lookup, Rejection, Upload,
};

fn upload(password: Option<&str>) -> Upload {
    Upload {
        password: password.map(|p| p.to_string()),
        name: None,
        syntax: None,
        content: "fn main() {}".to_string(),
    }
}

#[test]
fn octets_are_compared_whole() {
    assert!(same_octets(&vec![127, 0, 0, 1], &vec![127, 0, 0, 1]));
    assert!(!same_octets(&vec![127, 0, 0, 1], &vec![127, 0, 0, 2]));
    assert!(!same_octets(&vec![127, 0, 0, 1], &vec![127, 0, 0]));
    assert!(same_octets(&vec![], &vec![]));
}

#[test]
fn header_of_a_trusted_peer_is_believed() {
    let config = Config::default();
    let ip = client_ip(&config, vec![127, 0, 0, 1], Some(vec![203, 0, 113, 9]));
    assert_eq!(ip, vec![203, 0, 113, 9]);
    let mut v6 = vec![0u8; 16];
    v6[15] = 1;
    assert_eq!(client_ip(&config, v6, Some(vec![203, 0, 113, 9])), vec![203, 0, 113, 9]);
}

#[test]
fn header_of_another_peer_is_ignored() {
    let config = Config::default();
    let ip = client_ip(&config, vec![198, 51, 100, 4], Some(vec![203, 0, 113, 9]));
    assert_eq!(ip, vec![198, 51, 100, 4]);
}

#[test]
fn without_a_header_the_peer_counts() {
    let config = Config::default();
    assert_eq!(client_ip(&config, vec![127, 0, 0, 1], None), vec![127, 0, 0, 1]);
    assert_eq!(client_ip(&config, vec![198, 51, 100, 4], None), vec![198, 51, 100, 4]);
}

#[test]
fn only_the_password_authorizes() {
    let config = Config::default();
    assert!(is_authorized(&config, &Some("hunter2".to_string())));
    assert!(!is_authorized(&config, &Some("hunter3".to_string())));
    assert!(!is_authorized(&config, &Some(String::new())));
    assert!(!is_authorized(&config, &None));
}

#[test]
fn private_instance_takes_uploads_with_the_password() {
    let config = Config::default();
    assert!(!upload_allowed(&config, &None, &upload(None)));
    assert!(upload_allowed(&config, &Some("hunter2".to_string()), &upload(None)));
    assert!(upload_allowed(&config, &None, &upload(Some("hunter2"))));
    assert!(!upload_allowed(&config, &None, &upload(Some("wrong"))));
    assert!(!upload_allowed(&config, &Some("wrong".to_string()), &upload(Some("hunter2"))));
    assert!(upload_allowed(&config, &Some("hunter2".to_string()), &upload(Some("wrong"))));
}

#[test]
fn public_instance_takes_every_upload() {
    let mut config = Config::default();
    config.public = true;
    assert!(upload_allowed(&config, &None, &upload(None)));
    assert!(upload_allowed(&config, &Some("wrong".to_string()), &upload(Some("wrong"))));
}

#[test]
fn url_is_site_slash_token() {
    let mut config = Config::default();
    config.site_url = "https://paste.example".to_string();
    let mask = Mask::from_bytes([0; 8]);
    let id = Id(i64::from_be_bytes([101, 2, 240, 6, 108, 11, 20, 97]));
    assert_eq!(
        paste_url(&config, &mask, id),
        "https://paste.example/digital-apollo-aroma--rival-artist-rebel"
    );
}

#[test]
fn rejections_map_to_statuses() {
    assert_eq!(recover_status(Rejection::NotFound), 404);
    assert_eq!(recover_status(Rejection::InvalidId), 404);
    assert_eq!(recover_status(Rejection::Failed), 500);
    assert_eq!(recover_status(Rejection::BadBody), 400);
    assert_eq!(recover_status(Rejection::MethodNotAllowed), 400);
    assert_eq!(recover_status(Rejection::PayloadTooLarge), 400);
    assert_eq!(recover_status(Rejection::Other), 500);
}

#[test]
fn read_of_a_bad_token_is_an_invalid_id() {
    let mask = Mask::derive(&[5; 32]);
    let mut cache = create_cache(&Config::default());
    cache.put(1, "one".to_string());
    assert!(matches!(get(&mask, &mut cache, "no-such-token"), Err(Error::InvalidId)));
    assert_eq!(cache.len(), 1);
}

#[test]
fn read_misses_then_hits() {
    let mask = Mask::derive(&[5; 32]);
    let mut cache = create_cache(&Config::default());
    let token = Id(31).encode(&mask);
    match get(&mask, &mut cache, &token) {
        Ok(Lookup::Missing(id)) => assert_eq!(id, Id(31)),
        other => panic!("{:?}", other),
    }
    store_rendered(&mut cache, Id(31), &Some("<b>31</b>".to_string()));
    match get(&mask, &mut cache, &token) {
        Ok(Lookup::Cached(html)) => assert_eq!(html, "<b>31</b>"),
        other => panic!("{:?}", other),
    }
}

#[test]
fn read_refreshes_recency() {
    let mask = Mask::derive(&[5; 32]);
    let mut config = Config::default();
    config.cache_limit = 100;
    let mut cache = create_cache(&config);
    cache.put(1, "a".repeat(16));
    cache.put(2, "b".repeat(16));
    assert!(matches!(get(&mask, &mut cache, &Id(1).encode(&mask)), Ok(Lookup::Cached(_))));
    cache.put(3, "c".repeat(16));
    assert_eq!(cache.get(2), None);
    assert_eq!(cache.get(1), Some("a".repeat(16)));
}

#[test]
fn failed_rendering_is_not_stored() {
    let mut cache = create_cache(&Config::default());
    store_rendered(&mut cache, Id(4), &None);
    assert_eq!(cache.len(), 0);
    assert_eq!(cache.get(4), None);
}

#[test]
fn delete_invalidates_when_a_row_was_removed() {
    let mut cache = create_cache(&Config::default());
    cache.put(9, "nine".to_string());
    assert!(delete(&mut cache, Id(9), 1));
    assert_eq!(cache.get(9), None);
}

#[test]
fn delete_keeps_the_cache_when_no_row_was_removed() {
    let mut cache = create_cache(&Config::default());
    cache.put(9, "nine".to_string());
    assert!(!delete(&mut cache, Id(9), 0));
    assert_eq!(cache.get(9), Some("nine".to_string()));
}

#[test]
fn invalid_id_is_answered_as_not_found() {
    let rejection = rejection_of(Error::InvalidId);
    assert_eq!(rejection, Rejection::InvalidId);
    assert!(is_not_found(rejection));
    assert_eq!(recover_status(rejection), recover_status(Rejection::NotFound));
    assert_eq!(recover_status(rejection), 404);
}

#[test]
fn a_malformed_token_is_answered_as_a_token_without_a_paste() {
    let mask = Mask::derive(&[5; 32]);
    let mut cache = create_cache(&Config::default());
    let error = match get(&mask, &mut cache, "digital-apollo") {
        Err(error) => error,
        other => panic!("{:?}", other),
    };
    assert_eq!(recover_status(rejection_of(error)), 404);
    assert!(is_not_found(rejection_of(error)));
}

#[test]
fn only_missing_pastes_get_the_not_found_page() {
    assert!(is_not_found(Rejection::NotFound));
    assert!(is_not_found(Rejection::InvalidId));
    assert!(!is_not_found(Rejection::Failed));
    assert!(!is_not_found(Rejection::BadBody));
    assert!(!is_not_found(Rejection::MethodNotAllowed));
    assert!(!is_not_found(Rejection::PayloadTooLarge));
    assert!(!is_not_found(Rejection::Other));
}

#[test]
fn url_gains_one_path_segment() {
    let mut config = Config::default();
    config.site_url = "https://paste.example".to_string();
    let mask = Mask::derive(&[9; 32]);
    for key in [0i64, 1, -1, i64::MAX, i64::MIN, 123456789] {
        let url = paste_url(&config, &mask, Id(key));
        let rest = url.strip_prefix("https://paste.example/").unwrap();
        assert!(!rest.is_empty());
        assert!(rest.chars().all(|c| c.is_ascii_lowercase() || c == '-'));
        for unsafe_char in ['/', '?', '#', '%', ' '] {
            assert!(!rest.contains(unsafe_char));
        }
    }
}

#[test]
fn delete_with_a_cut_token_touches_nothing() {
    let mask = Mask::derive(&[5; 32]);
    let mut cache = create_cache(&Config::default());
    cache.put(9, "nine".to_string());
    let token = Id(9).encode(&mask);
    let cut = &token[..token.rfind('-').unwrap()];
    assert_eq!(Id::decode(&mask, cut), Err(Error::InvalidId));
    assert_eq!(cache.get(9), Some("nine".to_string()));
    assert_eq!(cache.len(), 1);
}
