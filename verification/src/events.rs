//! What the bot does with the events it receives: the text filters that a
//! message goes through, and the replies that they make.

use vstd::prelude::*;
use crate::data::{KeywordResponse, KeywordResponseView};
use crate::embed::{Embed, EmbedView};
use crate::link_helper::{
    get_pure_facebook_link, og_texts, og_values, opt_view, pure_facebook_link, pure_link_is_on_www_host,
};
use crate::rng::random_u32;
use crate::string_map::{copy_strings, StringMap};
use crate::text::{
    decimal, decimal_string, len_as_u32, push_str, replace_prefix, replaced_prefix, split,
    split_parts, starts_with, string_views, trim, trimmed,
};

verus! {

/// Whether a text filter took care of a message.
#[derive(Debug, PartialEq, Eq, Structural)]
pub enum FilterResult {
    Consumed,
    NotConsumed,
}

/// A text filter that failed, with what it reported.
pub struct FilterFailure {
    pub message: String,
}

/// Whether a filter's outcome means that it took care of the message: a
/// failed filter counts as one that did not.
pub fn result_helper(func: Result<FilterResult, FilterFailure>) -> (consumed: bool)
    ensures
        consumed == (func matches Ok(FilterResult::Consumed)),
{
    match func {
        Ok(FilterResult::Consumed) => true,
        Ok(FilterResult::NotConsumed) => false,
        Err(_) => false,
    }
}

/// The text filters, in the order in which a message goes through them.
#[derive(Debug, PartialEq, Eq, Structural)]
pub enum TextFilter {
    FacebookLinkReplace,
    KeywordResponse,
}

/// The filter that a message goes through after `current` gave `outcome`:
/// none once a filter took care of the message or the last one ran.
pub fn dispatch_text_process_filters(
    current: TextFilter,
    outcome: Result<FilterResult, FilterFailure>,
) -> (next: Option<TextFilter>)
    ensures
        next == (if outcome matches Ok(FilterResult::Consumed) {
            None
        } else {
            match current {
                TextFilter::FacebookLinkReplace => Some(TextFilter::KeywordResponse),
                TextFilter::KeywordResponse => None::<TextFilter>,
            }
        }),
{
    if result_helper(outcome) {
        return None;
    }
    match current {
        TextFilter::FacebookLinkReplace => Some(TextFilter::KeywordResponse),
        TextFilter::KeywordResponse => None,
    }
}

/// An event of the chat gateway, as far as the bot reads it.
pub enum BotEvent {
    /// The bot is connected under the given user name.
    Ready { user_name: String },
    /// A message was posted, by a bot or not.
    Message { author_is_bot: bool },
    /// Any other event.
    Other,
}

/// What the bot does about an event.
pub enum EventAction {
    /// Remember the bot's user name.
    StoreUserName(String),
    /// Run the message through the text filters.
    ProcessMessage,
    /// Nothing.
    Ignore,
}

/// What the bot does about an event: it remembers its name when ready, runs
/// the messages of users (not of bots) through the text filters, and ignores
/// everything else.
pub fn handle_events(event: BotEvent) -> (action: EventAction)
    ensures
        match event {
            BotEvent::Ready { user_name } => action matches EventAction::StoreUserName(n)
                && n@ == user_name@,
            BotEvent::Message { author_is_bot } => if author_is_bot {
                action is Ignore
            } else {
                action is ProcessMessage
            },
            BotEvent::Other => action is Ignore,
        },
{
    match event {
        BotEvent::Ready { user_name } => EventAction::StoreUserName(user_name),
        BotEvent::Message { author_is_bot } => if author_is_bot {
            EventAction::Ignore
        } else {
            EventAction::ProcessMessage
        },
        BotEvent::Other => EventAction::Ignore,
    }
}

/// The longest message, in chars once trimmed, that can be a keyword.
pub const MAX_KEYWORD_CHARS: usize = 15;

/// The reply to a message from the keyword table, where `random` picks the
/// text from a list: the trimmed message is looked up if it has at most 15
/// chars; a list gives its text at `random` modulo its length taken as `u32`.
pub open spec fn keyword_reply(
    dict: Map<Seq<char>, KeywordResponseView>,
    content: Seq<char>,
    random: u32,
) -> Option<Seq<char>> {
    let text = trimmed(content);
    if text.len() > MAX_KEYWORD_CHARS || !dict.contains_key(text) {
        None
    } else {
        match dict[text] {
            KeywordResponseView::Value(s) => Some(s),
            KeywordResponseView::List(l) => Some(l[(random as int) % len_as_u32(l.len())]),
        }
    }
}

/// The keyword reply is defined: the message does not select a list whose
/// length, taken as `u32`, is zero (picking from it divides by zero).
pub open spec fn keyword_reply_defined(
    dict: Map<Seq<char>, KeywordResponseView>,
    content: Seq<char>,
) -> bool {
    let text = trimmed(content);
    if text.len() <= MAX_KEYWORD_CHARS && dict.contains_key(text) {
        match dict[text] {
            KeywordResponseView::List(l) => len_as_u32(l.len()) != 0,
            KeywordResponseView::Value(_) => true,
        }
    } else {
        true
    }
}

/// Whether the keyword reply to the message is defined.
pub fn keyword_reply_is_defined(dict: &StringMap<KeywordResponse>, content: &str) -> (b: bool)
    ensures
        b == keyword_reply_defined(dict@, content@),
{
    let text = trim(content);
    if text.as_str().unicode_len() > MAX_KEYWORD_CHARS {
        return true;
    }
    match dict.get(text.as_str()) {
        Some(KeywordResponse::List(arr)) => {
            let len = arr.len();
            let n = len as u32;
            assert(n as u64 == (len as u64) % 0x1_0000_0000u64) by (bit_vector)
                requires
                    n == len as u32,
            ;
            n != 0
        },
        _ => true,
    }
}

/// The reply to a message from the keyword table, with `random` picking the
/// text from a list.
pub fn keyword_reply_with(dict: &StringMap<KeywordResponse>, content: &str, random: u32) -> (r:
    Option<String>)
    requires
        keyword_reply_defined(dict@, content@),
    ensures
        opt_view(r) == keyword_reply(dict@, content@, random),
{
    let text = trim(content);
    if text.as_str().unicode_len() > MAX_KEYWORD_CHARS {
        return None;
    }
    match dict.get(text.as_str()) {
        None => None,
        Some(KeywordResponse::Value(s)) => Some(s.clone()),
        Some(KeywordResponse::List(arr)) => {
            let len = arr.len();
            let n = len as u32;
            assert(n as u64 == (len as u64) % 0x1_0000_0000u64) by (bit_vector)
                requires
                    n == len as u32,
            ;
            let idx = random % n;
            assert(string_views(arr@)[idx as int] == arr@[idx as int]@);
            Some(arr[idx as usize].clone())
        },
    }
}

/// A message gets a keyword reply only when, trimmed, it has at most 15 chars
/// and is in the table; the reply is the keyword's text, or one of its list.
pub proof fn keyword_reply_comes_from_table(
    dict: Map<Seq<char>, KeywordResponseView>,
    content: Seq<char>,
    random: u32,
)
    requires
        keyword_reply_defined(dict, content),
    ensures
        keyword_reply(dict, content, random) matches Some(r) ==> {
            let text = trimmed(content);
            &&& text.len() <= MAX_KEYWORD_CHARS
            &&& dict.contains_key(text)
            &&& match dict[text] {
                KeywordResponseView::Value(s) => r == s,
                KeywordResponseView::List(l) => exists|i: int| 0 <= i < l.len() && l[i] == r,
            }
        },
{
    let text = trimmed(content);
    if text.len() <= MAX_KEYWORD_CHARS && dict.contains_key(text) {
        match dict[text] {
            KeywordResponseView::List(l) => {
                let i = (random as int) % len_as_u32(l.len());
                assert(0 <= i < l.len());
            },
            KeywordResponseView::Value(_) => {},
        }
    }
}

/// What the keyword reply is, for every message and drawn number: a
/// message that, trimmed, is longer than fifteen chars or not in the table
/// gets none; a keyword with a text gets that text; a keyword with a list
/// gets the list's text at the drawn number modulo the list's length, so that
/// the drawn number `i` gives the `i`-th text.
pub proof fn keyword_reply_picks_by_the_drawn_number(
    dict: Map<Seq<char>, KeywordResponseView>,
    content: Seq<char>,
    random: u32,
)
    ensures
        ({
            let text = trimmed(content);
            &&& (text.len() > 15 || !dict.contains_key(text)) ==> keyword_reply(dict, content, random)
                is None
            &&& text.len() <= 15 && dict.contains_key(text) ==> match dict[text] {
                KeywordResponseView::Value(s) => keyword_reply(dict, content, random) == Some(s),
                KeywordResponseView::List(l) => 0 < l.len() <= u32::MAX ==> {
                    &&& keyword_reply(dict, content, random) == Some(l[(random as int) % (l.len() as int)])
                    &&& (random as int) < l.len() ==> keyword_reply(dict, content, random) == Some(
                        l[random as int],
                    )
                },
            }
        }),
{
    let text = trimmed(content);
    if text.len() <= 15 && dict.contains_key(text) {
        match dict[text] {
            KeywordResponseView::List(l) => {
                if 0 < l.len() <= u32::MAX {
                    assert(len_as_u32(l.len()) == l.len());
                    if (random as int) < l.len() {
                        vstd::arithmetic::div_mod::lemma_small_mod(random as nat, l.len());
                    }
                }
            },
            KeywordResponseView::Value(_) => {},
        }
    }
}

/// The reply to a message from the keyword table, picking from a list with a
/// random number (drawn only for a list).
pub fn keyword_response_filter(dict: &StringMap<KeywordResponse>, content: &str) -> (r: Option<
    String,
>)
    requires
        keyword_reply_defined(dict@, content@),
    ensures
        exists|random: u32| opt_view(r) == keyword_reply(dict@, content@, random),
{
    let text = trim(content);
    let picks_from_list = text.as_str().unicode_len() <= MAX_KEYWORD_CHARS && match dict.get(
        text.as_str(),
    ) {
        Some(KeywordResponse::List(_)) => true,
        _ => false,
    };
    let random = if picks_from_list {
        random_u32()
    } else {
        0
    };
    keyword_reply_with(dict, content, random)
}


/// A line that holds something besides whitespace.
pub open spec fn nonblank(line: Seq<char>) -> bool {
    trimmed(line).len() > 0
}

/// The lines of a message that hold something besides whitespace, in order.
pub open spec fn nonblank_lines(content: Seq<char>) -> Seq<Seq<char>> {
    split_parts(content, "\n"@).filter(|line: Seq<char>| nonblank(line))
}

/// The Facebook link that a message carries: its first non-blank line, else
/// its last one, trimmed, as a Facebook link; empty where neither is one.
pub open spec fn facebook_link_to_process(content: Seq<char>) -> Seq<char> {
    let lines = nonblank_lines(content);
    let first = if lines.len() > 0 {
        trimmed(lines[0])
    } else {
        Seq::<char>::empty()
    };
    let last = if lines.len() > 0 {
        trimmed(lines.last())
    } else {
        Seq::<char>::empty()
    };
    match pure_facebook_link(first) {
        Some(link) => link,
        None => match pure_facebook_link(last) {
            Some(link) => link,
            None => Seq::<char>::empty(),
        },
    }
}

/// The link of the preview service that stands for a Facebook link: its
/// host `https://www.facebook.com/` becomes `https://www.facebed.com/`, so
/// that `https://www.facebook.com/username/posts/1234567890` becomes
/// `https://www.facebed.com/username/posts/1234567890`; the rest of the link
/// is kept as it is.
pub open spec fn preview_link_of(link: Seq<char>) -> Seq<char> {
    replaced_prefix(link, "https://www.facebook.com/"@, "https://www.facebed.com/"@)
}

/// The preview link of a link on `https://www.facebook.com/` is on
/// `https://www.facebed.com/`, with the same path.
pub proof fn preview_link_of_www_link(link: Seq<char>)
    requires
        starts_with(link, "https://www.facebook.com/"@),
    ensures
        starts_with(preview_link_of(link), "https://www.facebed.com/"@),
        preview_link_of(link).subrange(24, preview_link_of(link).len() as int) == link.subrange(
            25,
            link.len() as int,
        ),
{
    reveal_strlit("https://www.facebook.com/");
    reveal_strlit("https://www.facebed.com/");
    let p = preview_link_of(link);
    assert(p.subrange(0, 24) =~= "https://www.facebed.com/"@);
    assert(p.subrange(24, p.len() as int) =~= link.subrange(25, link.len() as int));
}

/// Every preview link that the Facebook link filter checks is on
/// `https://www.facebed.com/`.
pub proof fn preview_link_is_on_facebed(content: Seq<char>)
    ensures
        facebook_link_to_process(content).len() > 0 ==> starts_with(
            preview_link_of(facebook_link_to_process(content)),
            "https://www.facebed.com/"@,
        ),
{
    let lines = nonblank_lines(content);
    let first = if lines.len() > 0 {
        trimmed(lines[0])
    } else {
        Seq::<char>::empty()
    };
    let last = if lines.len() > 0 {
        trimmed(lines.last())
    } else {
        Seq::<char>::empty()
    };
    pure_link_is_on_www_host(first);
    pure_link_is_on_www_host(last);
    if facebook_link_to_process(content).len() > 0 {
        preview_link_of_www_link(facebook_link_to_process(content));
    }
}

/// The link that a message carries comes from its first non-blank line
/// whenever that line is a Facebook link, whatever the other lines hold; the
/// last non-blank line counts only when the first is not a Facebook link,
/// and a message with neither carries none.
pub proof fn first_line_link_comes_first(content: Seq<char>)
    ensures
        ({
            let lines = nonblank_lines(content);
            &&& lines.len() == 0 ==> facebook_link_to_process(content).len() == 0
            &&& lines.len() > 0 ==> match pure_facebook_link(trimmed(lines[0])) {
                Some(p) => facebook_link_to_process(content) == p,
                None => match pure_facebook_link(trimmed(lines[lines.len() - 1])) {
                    Some(q) => facebook_link_to_process(content) == q,
                    None => facebook_link_to_process(content).len() == 0,
                },
            }
        }),
{
    let lines = nonblank_lines(content);
    if lines.len() == 0 {
        reveal_strlit("https://www.facebook.com/");
        reveal_strlit("https://m.facebook.com/");
        assert(trimmed(Seq::<char>::empty()) =~= Seq::<char>::empty());
        assert(pure_facebook_link(Seq::<char>::empty()) is None);
    }
}

/// The non-blank lines of a message.
fn nonblank_lines_of(content: &str) -> (lines: Vec<String>)
    ensures
        string_views(lines@) == nonblank_lines(content@),
{
    let parts = split(content, "\n");
    let mut lines: Vec<String> = Vec::new();
    let ghost pred = |line: Seq<char>| nonblank(line);
    for i in 0..parts.len()
        invariant
            string_views(lines@) == string_views(parts@).subrange(0, i as int).filter(pred),
            pred == (|line: Seq<char>| nonblank(line)),
    {
        let ghost before = lines@;
        proof {
            reveal_with_fuel(Seq::<_>::filter, 1);
            assert(string_views(parts@).subrange(0, i + 1).drop_last() =~= string_views(
                parts@,
            ).subrange(0, i as int));
            assert(string_views(parts@).subrange(0, i + 1).last() == parts@[i as int]@);
        }
        let t = trim(parts[i].as_str());
        if t.as_str().unicode_len() > 0 {
            lines.push(parts[i].clone());
            assert(string_views(lines@) =~= string_views(before).push(parts@[i as int]@));
        } else {
            assert(string_views(lines@) =~= string_views(before));
        }
    }
    assert(string_views(parts@).subrange(0, parts@.len() as int) =~= string_views(parts@));
    lines
}

/// The Facebook link that a message carries, or an empty string.
pub fn facebook_link_in_message(content: &str) -> (link: String)
    ensures
        link@ == facebook_link_to_process(content@),
{
    let lines = nonblank_lines_of(content);
    let n = lines.len();
    let first = if n > 0 {
        trim(lines[0].as_str())
    } else {
        String::new()
    };
    let last = if n > 0 {
        trim(lines[n - 1].as_str())
    } else {
        String::new()
    };
    proof {
        if n > 0 {
            assert(string_views(lines@)[0] == lines@[0]@);
            assert(string_views(lines@).last() == lines@[n - 1]@);
        }
    }
    match get_pure_facebook_link(first.as_str()) {
        Some(link) => link,
        None => match get_pure_facebook_link(last.as_str()) {
            Some(link) => link,
            None => String::new(),
        },
    }
}

/// What the Facebook link filter does first with a message.
pub enum FacebookStep {
    /// The filter does not take care of the message.
    NotConsumed,
    /// Check whether the preview link can be previewed.
    CheckPreview { link: String, preview_link: String },
}

/// The first decision of the Facebook link filter: when it is enabled and the
/// message carries a Facebook link, the link and its preview link (on the
/// preview service's host) are to be checked.
pub fn facebook_link_replace_filter(enabled: bool, content: &str) -> (step: FacebookStep)
    ensures
        match step {
            FacebookStep::NotConsumed => !enabled || facebook_link_to_process(content@).len() == 0,
            FacebookStep::CheckPreview { link, preview_link } => {
                &&& enabled
                &&& facebook_link_to_process(content@).len() > 0
                &&& link@ == facebook_link_to_process(content@)
                &&& preview_link@ == preview_link_of(link@)
            },
        },
{
    if !enabled {
        return FacebookStep::NotConsumed;
    }
    let link = facebook_link_in_message(content);
    if link.as_str().unicode_len() == 0 {
        return FacebookStep::NotConsumed;
    }
    let preview_link = replace_prefix(link.as_str(), "https://www.facebook.com/", "https://www.facebed.com/");
    FacebookStep::CheckPreview { link, preview_link }
}

/// The seconds after which the apology for a link without preview is deleted.
pub const AUTO_DELETE_INTERVAL_SECONDS: u64 = 10;

/// The apology for a link that cannot be previewed, deleted after `seconds`.
pub open spec fn apology_message(seconds: u64) -> Seq<char> {
    "Sorry, this link cannot be previewed due to Facebook's restrictions.\n\n"@
        + "This message will be deleted in "@ + decimal(seconds as nat) + " seconds."@
}

/// What the Facebook link filter does once it knows whether the preview link
/// can be previewed.
pub enum FacebookPreviewAction {
    /// Reply with an apology, and delete it after the given seconds.
    Apologize { message: String, delete_after_seconds: u64 },
    /// Post a preview built from the page's Open Graph metadata.
    AlternatePreview { preview_link: String },
    /// Reply with the preview link.
    ReplyWithLink { preview_link: String },
}

/// The second decision of the Facebook link filter: an apology where the
/// link cannot be previewed, else the alternate preview when it is enabled,
/// else a reply with the preview link. Each of these takes care of the message.
pub fn facebook_preview_action(can_preview: bool, alternate_preview: bool, preview_link: String) -> (action:
    FacebookPreviewAction)
    ensures
        match action {
            FacebookPreviewAction::Apologize { message, delete_after_seconds } => {
                &&& !can_preview
                &&& message@ == apology_message(AUTO_DELETE_INTERVAL_SECONDS)
                &&& delete_after_seconds == AUTO_DELETE_INTERVAL_SECONDS
            },
            FacebookPreviewAction::AlternatePreview { preview_link: l } => {
                &&& can_preview
                &&& alternate_preview
                &&& l@ == preview_link@
            },
            FacebookPreviewAction::ReplyWithLink { preview_link: l } => {
                &&& can_preview
                &&& !alternate_preview
                &&& l@ == preview_link@
            },
        },
{
    if !can_preview {
        let mut message = "Sorry, this link cannot be previewed due to Facebook's restrictions.\n\n".to_owned();
        push_str(&mut message, "This message will be deleted in ");
        let seconds = decimal_string(AUTO_DELETE_INTERVAL_SECONDS);
        push_str(&mut message, seconds.as_str());
        push_str(&mut message, " seconds.");
        return FacebookPreviewAction::Apologize {
            message,
            delete_after_seconds: AUTO_DELETE_INTERVAL_SECONDS,
        };
    }
    if alternate_preview {
        FacebookPreviewAction::AlternatePreview { preview_link }
    } else {
        FacebookPreviewAction::ReplyWithLink { preview_link }
    }
}

/// The first value of a metadata property, or a default where it has none.
pub open spec fn og_first_or(og: Map<Seq<char>, Seq<Seq<char>>>, key: Seq<char>, default: Seq<char>) -> Seq<
    char,
> {
    if og.contains_key(key) && og[key].len() > 0 {
        og[key][0]
    } else {
        default
    }
}

/// The text of the alternate preview: the title linked to the preview link,
/// the description, the video link where there is one, and the site name
/// (the first value of each property).
pub open spec fn alternate_preview_text(og: Map<Seq<char>, Seq<Seq<char>>>, link: Seq<char>) -> Seq<char> {
    let site_name = og_first_or(og, "og:site_name"@, "Facebook"@);
    let title = og_first_or(og, "og:title"@, ""@);
    let description = og_first_or(og, "og:description"@, ""@);
    let head = "**["@ + title + "]("@ + link + ")**\n"@ + description;
    if og.contains_key("og:video"@) {
        head + "\n[video]("@ + og_first_or(og, "og:video"@, ""@) + ")\n\n"@ + site_name
    } else {
        head + "\n\n"@ + site_name
    }
}

/// The text of an alternate preview, for every metadata and preview link:
/// given the first title `t`, description `d`, site name `s` and video `v`
/// of the page (the empty text for a missing title, description or video,
/// `Facebook` for a missing site name), it is the title linked to the
/// preview link, then the description, then for a page with a video the
/// video's link, then the site name.
pub proof fn alternate_preview_text_holds_each_part(
    og: Map<Seq<char>, Seq<Seq<char>>>,
    link: Seq<char>,
    t: Seq<char>,
    d: Seq<char>,
    s: Seq<char>,
    v: Seq<char>,
)
    requires
        og.contains_key("og:title"@) && og["og:title"@].len() > 0 ==> t == og["og:title"@][0],
        !(og.contains_key("og:title"@) && og["og:title"@].len() > 0) ==> t == ""@,
        og.contains_key("og:description"@) && og["og:description"@].len() > 0 ==> d
            == og["og:description"@][0],
        !(og.contains_key("og:description"@) && og["og:description"@].len() > 0) ==> d == ""@,
        og.contains_key("og:site_name"@) && og["og:site_name"@].len() > 0 ==> s
            == og["og:site_name"@][0],
        !(og.contains_key("og:site_name"@) && og["og:site_name"@].len() > 0) ==> s == "Facebook"@,
        og.contains_key("og:video"@) && og["og:video"@].len() > 0 ==> v == og["og:video"@][0],
        !(og.contains_key("og:video"@) && og["og:video"@].len() > 0) ==> v == ""@,
    ensures
        !og.contains_key("og:video"@) ==> alternate_preview_text(og, link) == "**["@ + t + "]("@
            + link + ")**\n"@ + d + "\n\n"@ + s,
        og.contains_key("og:video"@) ==> alternate_preview_text(og, link) == "**["@ + t + "]("@
            + link + ")**\n"@ + d + "\n[video]("@ + v + ")\n\n"@ + s,
{
}

/// The alternate preview of a link.
pub enum AlternatePreview {
    /// A reply with the text, for a page with a video.
    VideoReply { text: String },
    /// A post in the channel with the text and one embed per image.
    ImagePost { text: String, embeds: Vec<Embed> },
}

/// The embed that shows one image of a page: the image, linked to the
/// preview link, in the colour (1, 101, 255).
pub open spec fn image_embed(image: Seq<char>, link: Seq<char>) -> EmbedView {
    EmbedView {
        title: None,
        description: None,
        url: Some(link),
        image: Some(image),
        thumbnail: None,
        colour: Some((1u8, 101u8, 255u8)),
        footer: None,
    }
}

/// One embed per image, in order, each linked to the preview link.
fn image_embeds(images: &Vec<String>, link: &str) -> (embeds: Vec<Embed>)
    ensures
        embeds.len() == images.len(),
        forall|i: int| 0 <= i < images.len() ==> #[trigger] embeds@[i]@ == image_embed(images@[i]@, link@),
{
    let mut embeds: Vec<Embed> = Vec::new();
    for i in 0..images.len()
        invariant
            embeds.len() == i,
            forall|j: int| 0 <= j < i ==> #[trigger] embeds@[j]@ == image_embed(images@[j]@, link@),
    {
        embeds.push(
            Embed {
                title: None,
                description: None,
                url: Some(link.to_owned()),
                image: Some(images[i].clone()),
                thumbnail: None,
                colour: Some((1, 101, 255)),
                footer: None,
            },
        );
    }
    embeds
}

/// The first value of a metadata property, or a default.
fn og_first(og: &StringMap<Vec<String>>, key: &str, default: &str) -> (v: String)
    ensures
        v@ == og_first_or(og_texts(og@), key@, default@),
{
    match og.get(key) {
        Some(vs) => {
            if vs.len() > 0 {
                assert(string_views(vs@)[0] == vs@[0]@);
                vs[0].clone()
            } else {
                default.to_owned()
            }
        },
        None => default.to_owned(),
    }
}

/// The alternate preview that a page's Open Graph metadata gives for the
/// preview link: a reply for a video, else a post with one embed for every
/// image of the page, in order.
pub fn alternate_facebook_link_preview(og: &StringMap<Vec<String>>, preview_link: &str) -> (p:
    AlternatePreview)
    ensures
        match p {
            AlternatePreview::VideoReply { text } => og@.contains_key("og:video"@) && text@
                == alternate_preview_text(og_texts(og@), preview_link@),
            AlternatePreview::ImagePost { text, embeds } => {
                let images = og_values(og_texts(og@), "og:image"@);
                &&& !og@.contains_key("og:video"@)
                &&& text@ == alternate_preview_text(og_texts(og@), preview_link@)
                &&& embeds.len() == images.len()
                &&& forall|i: int| 0 <= i < images.len() ==> #[trigger] embeds@[i]@ == image_embed(
                    images[i],
                    preview_link@,
                )
            },
        },
{
    let site_name = og_first(og, "og:site_name", "Facebook");
    let title = og_first(og, "og:title", "");
    let description = og_first(og, "og:description", "");
    let mut text = "**[".to_owned();
    push_str(&mut text, title.as_str());
    push_str(&mut text, "](");
    push_str(&mut text, preview_link);
    push_str(&mut text, ")**\n");
    push_str(&mut text, description.as_str());
    if og.contains_key("og:video") {
        let video = og_first(og, "og:video", "");
        push_str(&mut text, "\n[video](");
        push_str(&mut text, video.as_str());
        push_str(&mut text, ")\n\n");
        push_str(&mut text, site_name.as_str());
        assert(text@ =~= alternate_preview_text(og_texts(og@), preview_link@));
        AlternatePreview::VideoReply { text }
    } else {
        push_str(&mut text, "\n\n");
        push_str(&mut text, site_name.as_str());
        assert(text@ =~= alternate_preview_text(og_texts(og@), preview_link@));
        let images: Vec<String> = match og.get("og:image") {
            Some(vs) => copy_strings(vs),
            None => Vec::new(),
        };
        assert(string_views(images@) =~= og_values(og_texts(og@), "og:image"@));
        let embeds = image_embeds(&images, preview_link);
        assert forall|i: int| 0 <= i < images.len() implies #[trigger] string_views(images@)[i]
            == images@[i]@ by {}
        AlternatePreview::ImagePost { text, embeds }
    }
}

} // verus!
