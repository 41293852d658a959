use tracklist::assets::{asset_path, asset_response, AssetResponse, StaticFile};

#[test]
fn leading_slashes_are_dropped() {
    assert_eq!(asset_path("/index.html"), "index.html");
    assert_eq!(asset_path("///css/site.css"), "css/site.css");
    assert_eq!(asset_path("plain"), "plain");
}

#[test]
fn only_leading_slashes_are_dropped() {
    assert_eq!(asset_path("/a/b/"), "a/b/");
    assert_eq!(asset_path("a//b"), "a//b");
}

#[test]
fn a_path_of_slashes_names_nothing() {
    assert_eq!(asset_path("/"), "");
    assert_eq!(asset_path("////"), "");
    assert_eq!(asset_path(""), "");
}

#[test]
fn asset_path_keeps_what_is_not_ascii() {
    assert_eq!(asset_path("/média/é.png"), "média/é.png");
}

#[test]
fn asset_path_agrees_with_the_standard_library() {
    for path in ["", "/", "//x", "x/", "/x/y", "a", "/ /"] {
        assert_eq!(asset_path(path), path.trim_start_matches('/'));
    }
}

#[test]
fn a_missing_asset_is_answered_with_404() {
    let response = StaticFile("nothing.css".to_string()).into_response(None);
    assert_eq!(
        response,
        AssetResponse { status: 404, content_type: None, body: b"404".to_vec() }
    );
}

#[test]
fn an_asset_goes_out_under_its_media_type() {
    let css = StaticFile("css/site.css".to_string()).into_response(Some(b"body{}".to_vec()));
    assert_eq!(
        css,
        AssetResponse {
            status: 200,
            content_type: Some("text/css".to_string()),
            body: b"body{}".to_vec(),
        }
    );
    let page = StaticFile("index.html".to_string()).into_response(Some(Vec::new()));
    assert_eq!(page.content_type, Some("text/html".to_string()));
    let script = StaticFile("htmx.min.js".to_string()).into_response(Some(vec![1, 2, 3]));
    assert_eq!(script.status, 200);
    assert_eq!(script.body, vec![1, 2, 3]);
    assert!(script.content_type.unwrap().contains("javascript"));
}

#[test]
fn an_unknown_extension_is_an_octet_stream() {
    let blob = StaticFile("data.zzzz".to_string()).into_response(Some(vec![0]));
    assert_eq!(blob.content_type, Some("application/octet-stream".to_string()));
    let bare = StaticFile("LICENSE".to_string()).into_response(Some(vec![0]));
    assert_eq!(bare.content_type, Some("application/octet-stream".to_string()));
}

#[test]
fn the_media_type_agrees_with_the_guesser() {
    for path in ["a.png", "b.SVG", "c.tar.gz", "d", ".hidden", "e.json", "dir.d/f"] {
        let response = StaticFile(path.to_string()).into_response(Some(Vec::new()));
        let expected = mime_guess::from_path(path).first_or_octet_stream();
        assert_eq!(response.content_type, Some(expected.as_ref().to_string()));
    }
}

#[test]
fn asset_response_takes_the_media_type_as_given() {
    let found = asset_response(Some(vec![9]), "image/png".to_string());
    assert_eq!(
        found,
        AssetResponse { status: 200, content_type: Some("image/png".to_string()), body: vec![9] }
    );
    let missing = asset_response(None, "image/png".to_string());
    assert_eq!(
        missing,
        AssetResponse { status: 404, content_type: None, body: b"404".to_vec() }
    );
}
