use ente_api::client::{
    is_redirection, is_success, BlobStep, EnteApiError, Method, MuseumClient, Peer, Reply,
};
use ente_api::doc::Doc;

fn reply(status: u16, text: &str, body: &str) -> Result<Reply, String> {
    Ok(Reply {
        status,
        location: None,
        text: text.to_string(),
        bytes: Ok(body.as_bytes().to_vec()),
    })
}

fn pair(k: &str, v: &str) -> (String, String) {
    (k.to_string(), v.to_string())
}

#[test]
fn requests_carry_the_headers() {
    let client = MuseumClient::new("https://m.example//", 9, Some("tok".to_string()));
    assert_eq!(client.timeout(), 9);
    let r = client.get("/x", vec![pair("a", "1")]);
    assert_eq!(r.peer, Peer::Museum);
    assert_eq!(r.method, Method::Get);
    assert_eq!(r.url, "https://m.example/x");
    assert_eq!(r.query, vec![pair("a", "1")]);
    assert_eq!(
        r.headers,
        vec![
            pair("X-Client-Package", "io.ente.photos"),
            pair("Accept", "application/json"),
            pair("X-Auth-Token", "tok"),
        ]
    );
    assert!(r.body.is_none());
    let r = MuseumClient::new("https://m.example", 9, None).post("/y", Doc::Null);
    assert_eq!(r.method, Method::Post);
    assert_eq!(r.url, "https://m.example/y");
    assert_eq!(r.headers.len(), 2);
    assert!(matches!(r.body, Some(Doc::Null)));
}

#[test]
fn answers_are_read() {
    let v = MuseumClient::json(&reply(200, "", r#"{"a": 1}"#)).unwrap();
    assert_eq!(v.i64_field("a"), Some(1));
    assert!(MuseumClient::json(&reply(204, "", "null")).is_ok());

    let e = MuseumClient::json(&reply(404, "nope", "")).err().unwrap();
    assert!(matches!(e, EnteApiError::Status(404, _)));
    assert_eq!(e.message(), "museum returned 404: nope");
    assert_eq!(e.status_code(), 404);
    assert!(matches!(
        MuseumClient::json(&reply(307, "", "{}")),
        Err(EnteApiError::Status(307, _))
    ));

    let e = MuseumClient::json(&Err("refused".to_string())).err().unwrap();
    assert_eq!(e.message(), "cannot reach museum instance: refused");
    assert_eq!(e.status_code(), 502);

    let e = MuseumClient::json(&reply(200, "", "{")).err().unwrap();
    assert_eq!(e.message(), "unexpected response: error decoding response body");
    assert_eq!(e.status_code(), 502);

    let broken = Ok(Reply {
        status: 200,
        location: None,
        text: String::new(),
        bytes: Err("cut off".to_string()),
    });
    let e = MuseumClient::json(&broken).err().unwrap();
    assert_eq!(e.message(), "unexpected response: cut off");
}

#[test]
fn answers_without_content() {
    assert!(MuseumClient::post_no_content(&reply(200, "", "")).is_ok());
    assert!(MuseumClient::post_no_content(&reply(299, "", "not json")).is_ok());
    assert!(matches!(
        MuseumClient::post_no_content(&reply(500, "boom", "")),
        Err(EnteApiError::Status(500, m)) if m == "boom"
    ));
    assert!(matches!(
        MuseumClient::post_no_content(&Err("x".to_string())),
        Err(EnteApiError::Transport(m)) if m == "x"
    ));
}

#[test]
fn statuses() {
    for s in 100..600u16 {
        assert_eq!(is_success(s), (200..300).contains(&s));
        assert_eq!(is_redirection(s), (300..400).contains(&s));
    }
}

#[test]
fn blobs_follow_the_redirect_without_the_token() {
    let client = MuseumClient::new("https://m.example", 9, Some("tok".to_string()));
    let r = client.get_stream("https://m.example/files/download/5");
    assert_eq!(r.url, "https://m.example/files/download/5");
    assert!(r.headers.contains(&pair("X-Auth-Token", "tok")));

    let redirect = Ok(Reply {
        status: 307,
        location: Some("https://s3.example/b?sig=secret".to_string()),
        text: String::new(),
        bytes: Ok(vec![]),
    });
    match MuseumClient::stream_from_museum(&redirect) {
        BlobStep::Ask(request, location) => {
            assert_eq!(request.peer, Peer::Storage);
            assert_eq!(request.url, "https://s3.example/b?sig=secret");
            assert_eq!(location, "https://s3.example/b?sig=secret");
            assert!(request.headers.is_empty());
            assert!(request.query.is_empty());
            assert!(request.body.is_none());
        }
        _ => panic!("no request to the storage"),
    }
    match MuseumClient::stream_from_storage(
        "https://s3.example/b?sig=secret",
        &reply(403, "denied", ""),
    ) {
        BlobStep::Failed(e) => assert_eq!(
            e.message(),
            "museum returned 403: storage backend rejected request (https://s3.example/b): denied"
        ),
        _ => panic!("not refused"),
    }
    assert!(matches!(
        MuseumClient::stream_from_storage("u", &reply(200, "", "x")),
        BlobStep::Open
    ));
    assert!(matches!(
        MuseumClient::stream_from_storage("u", &Err("down".to_string())),
        BlobStep::Failed(EnteApiError::Transport(m)) if m == "cannot reach file storage: down"
    ));
}

#[test]
fn blobs_from_the_museum_itself() {
    assert!(matches!(MuseumClient::stream_from_museum(&reply(200, "", "x")), BlobStep::Open));
    assert!(matches!(
        MuseumClient::stream_from_museum(&reply(401, "who", "")),
        BlobStep::Failed(EnteApiError::Status(401, m)) if m == "who"
    ));
    assert!(matches!(
        MuseumClient::stream_from_museum(&reply(302, "", "")),
        BlobStep::Failed(EnteApiError::Status(502, m))
            if m == "museum redirect missing Location header"
    ));
    assert!(matches!(
        MuseumClient::stream_from_museum(&Err("down".to_string())),
        BlobStep::Failed(EnteApiError::Transport(m))
            if m == "cannot reach museum instance: down"
    ));
    assert_eq!(MuseumClient::get_bytes(Ok(vec![1])).unwrap(), vec![1]);
    assert!(matches!(
        MuseumClient::get_bytes(Err("cut".to_string())),
        Err(EnteApiError::Transport(m)) if m == "cut"
    ));
}
