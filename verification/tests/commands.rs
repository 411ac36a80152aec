use useless_bot::commands::{
    activity_name, choose_is_defined, choose_option, choose_with, coin, coin_face, dice, dice_with,
    hi, lmgtfy, ping, LmgtfySearchEngine,
};

#[test]
fn lmgtfy_links_percent_encode_the_query() {
    assert_eq!(
        lmgtfy("hello world!", None),
        "https://www.google.com/search?q=hello%20world%21"
    );
    assert_eq!(
        lmgtfy("a-b_c.d~e", Some(LmgtfySearchEngine::Bing)),
        "https://www.bing.com/search?q=a-b_c.d~e"
    );
    assert_eq!(
        lmgtfy("straße", Some(LmgtfySearchEngine::DuckDuckGo)),
        "https://duckduckgo.com/search?q=stra%C3%9Fe"
    );
    assert_eq!(
        lmgtfy("1+1=?", Some(LmgtfySearchEngine::Perplexity)),
        "https://www.perplexity.ai/search?q=1%2B1%3D%3F"
    );
}

#[test]
fn dice_replies() {
    assert_eq!(dice_with(Some(3), 7), "The number of faces must be at least 4.");
    assert_eq!(dice_with(Some(0), 7), "The number of faces must be at least 4.");
    assert_eq!(dice_with(None, 0), ":one:");
    assert_eq!(dice_with(None, 5), ":six:");
    assert_eq!(dice_with(None, 6), ":one:");
    assert_eq!(dice_with(Some(4), 3), ":four:");
    assert_eq!(dice_with(Some(20), 19), "You rolled a 20!");
    assert_eq!(dice_with(Some(255), 254), "You rolled a 255!");
    assert_eq!(dice_with(Some(255), 255), "You rolled a 1!");
    assert_eq!(dice(Some(2)), "The number of faces must be at least 4.");
    let emoji = [":one:", ":two:", ":three:", ":four:", ":five:", ":six:"];
    assert!(emoji.contains(&dice(None).as_str()));
}

#[test]
fn coin_sides() {
    let tails = coin_face(true, "heads.png", "tails.png");
    assert_eq!(tails.title.as_deref(), Some("Tails"));
    assert_eq!(tails.thumbnail.as_deref(), Some("tails.png"));
    let footer = tails.footer.expect("a footer");
    assert_eq!(footer.text, "Icon made by emoji.gg");
    assert_eq!(footer.icon_url, "https://emoji.gg/assets/img/logo.png?v=2");
    assert!(tails.description.is_none() && tails.image.is_none() && tails.url.is_none());
    assert!(tails.colour.is_none());
    let heads = coin_face(false, "heads.png", "tails.png");
    assert_eq!(heads.title.as_deref(), Some("Heads"));
    assert_eq!(heads.thumbnail.as_deref(), Some("heads.png"));
    let flip = coin("h", "t");
    let title = flip.title.clone().expect("a title");
    let thumbnail = flip.thumbnail.clone().expect("a thumbnail");
    assert!((title == "Tails" && thumbnail == "t") || (title == "Heads" && thumbnail == "h"));
}

#[test]
fn choices() {
    assert_eq!(choose_with("tea, coffee , water", None, 0), "I choose: tea");
    assert_eq!(choose_with("tea, coffee , water", None, 1), "I choose: coffee");
    assert_eq!(choose_with("tea, coffee , water", None, 5), "I choose: water");
    assert_eq!(
        choose_with("only one", None, 0),
        "Please provide at least two options separated by commas."
    );
    assert_eq!(choose_with("a|b", Some("|".to_string()), 1), "I choose: b");
    assert_eq!(choose_with("ab", Some("".to_string()), 1), "I choose: a");
    assert!(choose_is_defined("a,b", &None));
    let r = choose_option("x,y", None);
    assert!(r == "I choose: x" || r == "I choose: y");
}

#[test]
fn greeting_embed() {
    let e = hi(Some("Bot".to_string()), "Oh Hi!".to_string(), "https://github.com/u/b", "https://b.example/banner.png", "?");
    assert_eq!(e.title.as_deref(), Some("Oh Hi!"));
    assert_eq!(
        e.description.as_deref(),
        Some("Bot is a bot based on [useless-bot](https://github.com/u/b). This bot have no idea what it can do nor what it will do, it is just created for exporing how a discord bot can do or what it can achive.\n\nNot sure where to start? Try type `?help`!")
    );
    assert_eq!(e.url.as_deref(), Some("https://github.com/u/b"));
    assert_eq!(e.image.as_deref(), Some("https://b.example/banner.png"));
    assert_eq!(e.colour, Some((1, 4, 9)));
    assert!(e.thumbnail.is_none() && e.footer.is_none());
    let d = hi(None, "g".to_string(), "u", "b", "!").description.expect("a description");
    assert!(d.starts_with("Useless Bot is a bot"));
}

#[test]
fn ping_and_activity() {
    assert_eq!(ping(), ":ping_pong: Pong!");
    assert_eq!(activity_name("!"), "!hi");
}
