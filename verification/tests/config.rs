use ente_api::config::Settings;

fn vars(pairs: &[(&str, &str)]) -> Vec<(String, String)> {
    pairs.iter().map(|(k, v)| (k.to_string(), v.to_string())).collect()
}

#[test]
fn defaults_are_as_documented() {
    let s = Settings::from_env(&vec![]);
    assert_eq!(s.ente_api_url, "http://localhost:8080");
    assert_eq!(s.ente_download_url, "");
    assert_eq!(s.ente_timeout, 60);
    assert_eq!(s.session_ttl, 86400);
    assert_eq!(s.host, "0.0.0.0");
    assert_eq!(s.port, 8000);
    assert!(s.fetch_faces);
    assert_eq!(s.faces_batch_size, 200);
    assert_eq!(s.download_url(7), "http://localhost:8080/files/download/7");
}

#[test]
fn variables_are_read() {
    let s = Settings::from_env(&vars(&[
        ("ENTE_API_URL", "https://museum.example//"),
        ("ENTE_DOWNLOAD_URL", "https://blobs.example/b/"),
        ("ENTE_TIMEOUT", "5"),
        ("SESSION_TTL", "10"),
        ("HOST", "127.0.0.1"),
        ("PORT", "81"),
        ("ENTE_FETCH_FACES", " No "),
        ("ENTE_FACES_BATCH", "3"),
    ]));
    assert_eq!(s.api_base(), "https://museum.example");
    assert_eq!(s.download_url(-4), "https://blobs.example/b/-4");
    assert_eq!((s.ente_timeout, s.session_ttl, s.port), (5, 10, 81));
    assert_eq!(s.host, "127.0.0.1");
    assert!(!s.fetch_faces);
    assert_eq!(s.faces_batch_size, 3);
    let copy = s.clone();
    assert_eq!(copy.ente_api_url, s.ente_api_url);
    assert_eq!(copy.port, 81);
}

#[test]
fn bad_numbers_fall_back_and_flags_say_yes_in_any_case() {
    let s = Settings::from_env(&vars(&[
        ("ENTE_TIMEOUT", "soon"),
        ("SESSION_TTL", "-1"),
        ("PORT", "65536"),
        ("ENTE_FACES_BATCH", ""),
        ("ENTE_FETCH_FACES", "\tYES\n"),
    ]));
    assert_eq!((s.ente_timeout, s.session_ttl, s.port), (60, 86400, 8000));
    assert_eq!(s.faces_batch_size, 200);
    assert!(s.fetch_faces);
    for (word, expected) in [("1", true), ("On", true), ("TRUE", true), ("0", false), ("", false)] {
        let s = Settings::from_env(&vars(&[("ENTE_FETCH_FACES", word)]));
        assert_eq!(s.fetch_faces, expected, "{word}");
    }
}
