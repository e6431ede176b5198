use citybound::browser_ui::{
    asset_path_of_url, render_root_html, reply_for, sanitize_asset_path, Reply, MISSING_UI_HTML,
};
use citybound::network::NetworkConfig;

fn sample_network_config() -> NetworkConfig {
    NetworkConfig {
        mode: "local".to_owned(),
        serve_host_port: "localhost:1234".to_owned(),
        bind_sim: "localhost:9999".to_owned(),
        batch_msg_bytes: 500000,
        ok_turn_dist: 2,
        skip_ratio: 5,
    }
}

#[test]
fn sanitizes_asset_paths() {
    assert_eq!(sanitize_asset_path("/index.html"), Some("index.html"));
    assert_eq!(sanitize_asset_path("index.html"), Some("index.html"));
    assert_eq!(sanitize_asset_path(""), None);
    assert_eq!(sanitize_asset_path("/"), None);
    assert_eq!(sanitize_asset_path("../secret"), None);
}

#[test]
fn renders_fallback_html_when_template_missing() {
    let rendered = render_root_html(None, "v1.2.3", &sample_network_config());

    assert!(rendered.contains("Citybound server is running"));
    assert!(rendered.contains("npm run build-browser"));
}

#[test]
fn renders_network_values_into_template() {
    let template = b"<p>CB_VERSION|CB_BATCH_MESSAGE_BYTES|CB_ACCEPTABLE_TURN_DISTANCE|CB_SKIP_TURNS_PER_TURN_AHEAD</p>";
    let rendered = render_root_html(Some(template), " v1.2.3 \n", &sample_network_config());

    assert_eq!(rendered, "<p>v1.2.3|500000|2|5</p>");
}

#[test]
fn sanitizing_strips_every_leading_slash_and_keeps_inner_ones() {
    assert_eq!(sanitize_asset_path("///js/app.js"), Some("js/app.js"));
    assert_eq!(sanitize_asset_path("a/..b"), None);
    assert_eq!(sanitize_asset_path("a/.b/c.d"), Some("a/.b/c.d"));
}

#[test]
fn invalid_utf8_template_falls_back_to_missing_page() {
    let bytes: &[u8] = &[0xff, 0xfe, 0x43];
    let rendered = render_root_html(Some(bytes), "v1", &sample_network_config());
    assert_eq!(rendered, MISSING_UI_HTML);
}

#[test]
fn every_placeholder_occurrence_is_replaced() {
    let template = "CB_VERSION CB_VERSION CB_SKIP_TURNS_PER_TURN_AHEADCB_SKIP_TURNS_PER_TURN_AHEAD".as_bytes();
    let rendered = render_root_html(Some(template), "\t9\u{3000}", &sample_network_config());
    assert_eq!(rendered, "9 9 55");
}

#[test]
fn sanitized_paths_stay_inside() {
    for p in ["/a", "//b/c", "x..y", "..", "/../a", "a/b/c.html", "./a"] {
        if let Some(s) = sanitize_asset_path(p) {
            assert!(!s.is_empty());
            assert!(!s.starts_with('/'));
            assert!(!s.contains(".."));
        }
    }
}

#[test]
fn replies_to_requests() {
    assert!(matches!(reply_for("/", "/", true), Reply::RootPage));
    assert!(matches!(reply_for("/", "/", false), Reply::RootPage));
    match reply_for("/app.wasm?x=1", "/app.wasm", true) {
        Reply::Asset { content_type } => assert_eq!(content_type, "application/wasm"),
        _ => panic!("expected an asset"),
    }
    match reply_for("/style.css", "/style.css", true) {
        Reply::Asset { content_type } => assert_eq!(content_type, "text/css; charset=utf8"),
        _ => panic!("expected an asset"),
    }
    match reply_for("/js/app.min.js", "/js/app.min.js", true) {
        Reply::Asset { content_type } => assert_eq!(content_type, "application/javascript"),
        _ => panic!("expected an asset"),
    }
    match reply_for("/nothing", "/nothing", false) {
        Reply::NotFound { body } => assert_eq!(body, "404 error. Not found: /nothing"),
        _ => panic!("expected a 404 page"),
    }
}

#[test]
fn asset_path_drops_the_leading_slash() {
    assert_eq!(asset_path_of_url("/index.html"), "index.html");
    assert_eq!(asset_path_of_url("/"), "");
}
