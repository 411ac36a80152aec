use useless_bot::data::KeywordResponse;
use useless_bot::events::{
    alternate_facebook_link_preview, dispatch_text_process_filters, facebook_link_in_message,
    facebook_link_replace_filter, facebook_preview_action, handle_events, keyword_reply_is_defined,
    keyword_reply_with, keyword_response_filter, result_helper, AlternatePreview, BotEvent,
    EventAction, FacebookPreviewAction, FacebookStep, FilterFailure, FilterResult, TextFilter,
};
use useless_bot::string_map::StringMap;

fn failure() -> FilterFailure {
    FilterFailure { message: "boom".to_string() }
}

#[test]
fn result_helper_counts_only_consumed_outcomes() {
    assert!(result_helper(Ok(FilterResult::Consumed)));
    assert!(!result_helper(Ok(FilterResult::NotConsumed)));
    assert!(!result_helper(Err(failure())));
}

#[test]
fn filters_run_in_order_until_one_consumes() {
    assert_eq!(
        dispatch_text_process_filters(TextFilter::FacebookLinkReplace, Ok(FilterResult::NotConsumed)),
        Some(TextFilter::KeywordResponse)
    );
    assert_eq!(
        dispatch_text_process_filters(TextFilter::FacebookLinkReplace, Err(failure())),
        Some(TextFilter::KeywordResponse)
    );
    assert_eq!(
        dispatch_text_process_filters(TextFilter::FacebookLinkReplace, Ok(FilterResult::Consumed)),
        None
    );
    assert_eq!(
        dispatch_text_process_filters(TextFilter::KeywordResponse, Ok(FilterResult::NotConsumed)),
        None
    );
}

#[test]
fn events_are_dispatched() {
    match handle_events(BotEvent::Ready { user_name: "useless".to_string() }) {
        EventAction::StoreUserName(n) => assert_eq!(n, "useless"),
        _ => panic!("expected the user name to be stored"),
    }
    assert!(matches!(handle_events(BotEvent::Message { author_is_bot: true }), EventAction::Ignore));
    assert!(matches!(
        handle_events(BotEvent::Message { author_is_bot: false }),
        EventAction::ProcessMessage
    ));
    assert!(matches!(handle_events(BotEvent::Other), EventAction::Ignore));
}

fn table() -> StringMap<KeywordResponse> {
    let mut d = StringMap::new();
    d.insert("hello".to_string(), KeywordResponse::Value("world".to_string()));
    d.insert(
        "pick".to_string(),
        KeywordResponse::List(vec!["a".to_string(), "b".to_string(), "c".to_string()]),
    );
    d.insert("sixteen chars!!!".to_string(), KeywordResponse::Value("never".to_string()));
    d.insert("empty".to_string(), KeywordResponse::List(vec![]));
    d
}

#[test]
fn keyword_replies_come_from_the_table() {
    let d = table();
    assert_eq!(keyword_reply_with(&d, "  hello \n", 0), Some("world".to_string()));
    assert_eq!(keyword_reply_with(&d, "pick", 0), Some("a".to_string()));
    assert_eq!(keyword_reply_with(&d, "pick", 4), Some("b".to_string()));
    assert_eq!(keyword_reply_with(&d, "pick", u32::MAX), Some("a".to_string()));
    assert_eq!(keyword_reply_with(&d, "unknown", 0), None);
    assert_eq!(keyword_reply_with(&d, "sixteen chars!!!", 0), None);
    assert_eq!(keyword_reply_with(&d, "Hello", 0), None);
    let r = keyword_response_filter(&d, "pick").unwrap();
    assert!(r == "a" || r == "b" || r == "c");
}

#[test]
fn empty_keyword_lists_are_detected() {
    let d = table();
    assert!(!keyword_reply_is_defined(&d, "empty"));
    assert!(keyword_reply_is_defined(&d, "pick"));
    assert!(keyword_reply_is_defined(&d, "unknown"));
}

#[test]
fn facebook_links_are_found_on_the_first_or_last_line() {
    assert_eq!(
        facebook_link_in_message("https://m.facebook.com/share/p/1/"),
        "https://www.facebook.com/share/p/1/"
    );
    assert_eq!(
        facebook_link_in_message("look at this\n\n  \nhttps://www.facebook.com/x/ \n"),
        "https://www.facebook.com/x/"
    );
    assert_eq!(facebook_link_in_message("first\nhttps://www.facebook.com/x/\nlast"), "");
    assert_eq!(facebook_link_in_message(""), "");
}

#[test]
fn facebook_filter_rewrites_to_the_preview_service() {
    match facebook_link_replace_filter(true, "https://www.facebook.com/username/posts/1234567890") {
        FacebookStep::CheckPreview { link, preview_link } => {
            assert_eq!(link, "https://www.facebook.com/username/posts/1234567890");
            assert_eq!(preview_link, "https://www.facebed.com/username/posts/1234567890");
        }
        FacebookStep::NotConsumed => panic!("expected a link to check"),
    }
    assert!(matches!(
        facebook_link_replace_filter(false, "https://www.facebook.com/username/posts/1"),
        FacebookStep::NotConsumed
    ));
    assert!(matches!(facebook_link_replace_filter(true, "no link here"), FacebookStep::NotConsumed));
    match facebook_link_replace_filter(true, "https://m.facebook.com/share?u=facebook.com/x") {
        FacebookStep::CheckPreview { link, preview_link } => {
            assert_eq!(link, "https://www.facebook.com/share?u=facebook.com/x");
            assert_eq!(preview_link, "https://www.facebed.com/share?u=facebook.com/x");
        }
        FacebookStep::NotConsumed => panic!("expected a link to check"),
    }
}

#[test]
fn facebook_preview_actions() {
    match facebook_preview_action(false, true, "https://facebed.com/x".to_string()) {
        FacebookPreviewAction::Apologize { message, delete_after_seconds } => {
            assert_eq!(
                message,
                "Sorry, this link cannot be previewed due to Facebook's restrictions.\n\nThis message will be deleted in 10 seconds."
            );
            assert_eq!(delete_after_seconds, 10);
        }
        _ => panic!("expected an apology"),
    }
    match facebook_preview_action(true, true, "https://facebed.com/x".to_string()) {
        FacebookPreviewAction::AlternatePreview { preview_link } => {
            assert_eq!(preview_link, "https://facebed.com/x")
        }
        _ => panic!("expected the alternate preview"),
    }
    match facebook_preview_action(true, false, "https://facebed.com/x".to_string()) {
        FacebookPreviewAction::ReplyWithLink { preview_link } => {
            assert_eq!(preview_link, "https://facebed.com/x")
        }
        _ => panic!("expected a reply with the link"),
    }
}

fn one(v: &str) -> Vec<String> {
    vec![v.to_string()]
}

#[test]
fn alternate_preview_of_a_video_page() {
    let mut og = StringMap::new();
    og.insert("og:title".to_string(), vec!["A title".to_string(), "Another".to_string()]);
    og.insert("og:description".to_string(), one("Some text"));
    og.insert("og:video".to_string(), one("https://v.example/1.mp4"));
    match alternate_facebook_link_preview(&og, "https://facebed.com/v/1") {
        AlternatePreview::VideoReply { text } => assert_eq!(
            text,
            "**[A title](https://facebed.com/v/1)**\nSome text\n[video](https://v.example/1.mp4)\n\nFacebook"
        ),
        _ => panic!("expected a video reply"),
    }
}

#[test]
fn alternate_preview_of_an_image_page() {
    let mut og = StringMap::new();
    og.insert("og:site_name".to_string(), one("facebed"));
    og.insert("og:image".to_string(), one("https://i.example/1.jpg"));
    match alternate_facebook_link_preview(&og, "https://facebed.com/p/1") {
        AlternatePreview::ImagePost { text, embeds } => {
            assert_eq!(text, "**[](https://facebed.com/p/1)**\n\n\nfacebed");
            assert_eq!(embeds.len(), 1);
            assert_eq!(embeds[0].image.as_deref(), Some("https://i.example/1.jpg"));
            assert_eq!(embeds[0].url.as_deref(), Some("https://facebed.com/p/1"));
            assert_eq!(embeds[0].colour, Some((1, 101, 255)));
            assert!(embeds[0].title.is_none() && embeds[0].description.is_none());
            assert!(embeds[0].thumbnail.is_none() && embeds[0].footer.is_none());
        }
        _ => panic!("expected an image post"),
    }
    let empty: StringMap<Vec<String>> = StringMap::new();
    match alternate_facebook_link_preview(&empty, "l") {
        AlternatePreview::ImagePost { text, embeds } => {
            assert_eq!(text, "**[](l)**\n\n\nFacebook");
            assert!(embeds.is_empty());
        }
        _ => panic!("expected an image post"),
    }
}

#[test]
fn alternate_preview_posts_every_image() {
    let mut og = StringMap::new();
    og.insert("og:title".to_string(), one("Album"));
    og.insert(
        "og:image".to_string(),
        vec!["https://i.example/1.jpg".to_string(), "https://i.example/2.jpg".to_string()],
    );
    match alternate_facebook_link_preview(&og, "https://www.facebed.com/p/2") {
        AlternatePreview::ImagePost { text, embeds } => {
            assert_eq!(text, "**[Album](https://www.facebed.com/p/2)**\n\n\nFacebook");
            let images: Vec<Option<String>> = embeds.iter().map(|e| e.image.clone()).collect();
            assert_eq!(
                images,
                vec![Some("https://i.example/1.jpg".to_string()), Some("https://i.example/2.jpg".to_string())]
            );
            for e in &embeds {
                assert_eq!(e.url.as_deref(), Some("https://www.facebed.com/p/2"));
                assert_eq!(e.colour, Some((1, 101, 255)));
            }
        }
        _ => panic!("expected an image post"),
    }
}
