use useless_bot::link_helper::{
    can_safely_previewed, curl_version_from_tag, extract_og_graph, get_current_curl_version,
    get_pure_facebook_link, grab_html_og_graph_meta, CurlVersionError, HtmlElement, HtmlNode,
};

#[test]
fn pure_link_keeps_www_links() {
    assert_eq!(
        get_pure_facebook_link("https://www.facebook.com/share/p/1BgEWKif2T/"),
        Some("https://www.facebook.com/share/p/1BgEWKif2T/".to_string())
    );
}

#[test]
fn pure_link_rewrites_mobile_links_and_trims() {
    assert_eq!(
        get_pure_facebook_link("  https://m.facebook.com/story.php?id=1 \n"),
        Some("https://www.facebook.com/story.php?id=1".to_string())
    );
    assert_eq!(
        get_pure_facebook_link("https://m.facebook.com/a?next=https://m.facebook.com/b"),
        Some("https://www.facebook.com/a?next=https://www.facebook.com/b".to_string())
    );
}

#[test]
fn pure_link_refuses_other_texts() {
    assert_eq!(get_pure_facebook_link("http://www.facebook.com/x"), None);
    assert_eq!(get_pure_facebook_link("https://facebook.com/x"), None);
    assert_eq!(get_pure_facebook_link("https://www.facebook.com"), None);
    assert_eq!(get_pure_facebook_link("https://www.facebook.com/x y"), None);
    assert_eq!(get_pure_facebook_link("look https://www.facebook.com/x"), None);
    assert_eq!(get_pure_facebook_link(""), None);
}

#[test]
fn preview_needs_the_service_marker() {
    let page = "<html><head><meta property=\"og:site_name\" content=\"facebed by pi.kt\"></head></html>";
    assert!(can_safely_previewed(page));
    assert!(!can_safely_previewed("<html><head><title>Facebook</title></head></html>"));
}

#[test]
fn curl_version_comes_from_the_release_tag() {
    assert_eq!(curl_version_from_tag("curl-8_11_0"), "curl/8.11.0");
    assert_eq!(
        get_current_curl_version("{\"tag_name\": \"curl-8_21_0\", \"name\": \"8.21.0\"}").ok(),
        Some("curl/8.21.0".to_string())
    );
}

#[test]
fn curl_version_errors() {
    match get_current_curl_version("not json") {
        Err(e @ CurlVersionError::InvalidJson(_)) => assert_eq!(
            e.message(),
            serde_json::from_str::<serde_json::Value>("not json").unwrap_err().to_string()
        ),
        other => panic!("expected a JSON error, got {:?}", other),
    }
    assert!(matches!(get_current_curl_version("{\"name\": 1}"), Err(CurlVersionError::TagNameNotFound)));
    assert!(matches!(get_current_curl_version("{\"tag_name\": 8}"), Err(CurlVersionError::TagNameNotText)));
    assert!(matches!(get_current_curl_version("[1, 2]"), Err(CurlVersionError::TagNameNotFound)));
    assert_eq!(CurlVersionError::TagNameNotFound.message(), "tag_name not found");
    assert_eq!(CurlVersionError::TagNameNotText.message(), "Cannot convert to str");
}

fn meta(attrs: &[(&str, &str)]) -> HtmlNode {
    HtmlNode {
        element: Some(HtmlElement {
            name: "meta".to_string(),
            attributes: attrs.iter().map(|(k, v)| (k.to_string(), v.to_string())).collect(),
        }),
        children: vec![],
    }
}

#[test]
fn og_graph_of_a_tree_keeps_every_value_in_order() {
    let head = HtmlNode {
        element: Some(HtmlElement { name: "head".to_string(), attributes: vec![] }),
        children: vec![
            meta(&[("property", "og:title"), ("content", "First")]),
            meta(&[("property", "og:image"), ("content", "a.png")]),
            meta(&[("name", "description"), ("content", "ignored")]),
            meta(&[("property", "og:only"), ]),
            meta(&[("property", "og:title"), ("content", "Second"), ("content", "Third")]),
            meta(&[("property", "og:image"), ("content", "b.png")]),
        ],
    };
    let og = extract_og_graph(&HtmlNode { element: None, children: vec![head] });
    assert_eq!(og.get("og:title"), Some(&vec!["First".to_string(), "Third".to_string()]));
    assert_eq!(og.get("og:image"), Some(&vec!["a.png".to_string(), "b.png".to_string()]));
    assert!(og.get("og:only").is_none());
    assert!(og.get("description").is_none());
    assert_eq!(og.keys().len(), 2);
}

#[test]
fn og_graph_of_an_html_page() {
    let html = "<!DOCTYPE html><html><head>\
        <meta property=\"og:site_name\" content=\"facebed by pi.kt\">\
        <meta property=\"og:video\" content=\"https://video.example/v.mp4\">\
        <meta property=\"og:image\" content=\"https://img.example/1.jpg\">\
        <meta property=\"og:image:width\" content=\"640\">\
        </head><body><p>text</p><meta property=\"og:title\" content=\"In body\"></body></html>";
    let og = grab_html_og_graph_meta(html);
    assert_eq!(og.get("og:site_name"), Some(&vec!["facebed by pi.kt".to_string()]));
    assert_eq!(og.get("og:video"), Some(&vec!["https://video.example/v.mp4".to_string()]));
    assert_eq!(og.get("og:title"), Some(&vec!["In body".to_string()]));
    let image_count = og.keys().iter().filter(|key| key.starts_with("og:image")).count();
    assert_eq!(image_count, 2);
    assert!(grab_html_og_graph_meta("<p>no metadata</p>").keys().is_empty());
}

#[test]
fn og_graph_of_a_page_with_several_photos() {
    let html = "<html><head>\
        <meta property=\"og:title\" content=\"Album\">\
        <meta property=\"og:image\" content=\"https://img.example/1.jpg\">\
        <meta property=\"og:image\" content=\"https://img.example/2.jpg\">\
        <meta property=\"og:image\" content=\"https://img.example/3.jpg\">\
        </head></html>";
    let og = grab_html_og_graph_meta(html);
    let images = og.get("og:image").expect("the page has images");
    assert_eq!(
        images,
        &vec![
            "https://img.example/1.jpg".to_string(),
            "https://img.example/2.jpg".to_string(),
            "https://img.example/3.jpg".to_string(),
        ]
    );
    assert_eq!(og.get("og:title"), Some(&vec!["Album".to_string()]));
}

#[test]
fn pure_link_of_a_pure_link_is_itself() {
    for link in [
        "  https://m.facebook.com/story.php?id=1&m=https://m.facebook.com/x  ",
        "https://www.facebook.com/username/posts/1234567890",
        "https://m.facebook.com/https://m.facebook.com/",
    ] {
        let pure = get_pure_facebook_link(link).expect("a Facebook link");
        assert!(!pure.contains("https://m.facebook.com"));
        assert_eq!(get_pure_facebook_link(&pure), Some(pure.clone()));
    }
}
