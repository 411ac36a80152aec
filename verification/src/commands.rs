//! The replies of the bot's commands: search links, dice, coins, choices and
//! the greeting.

use vstd::prelude::*;
use vstd::utf8::encode_utf8;
use crate::embed::{Embed, EmbedFooter, EmbedView};
use crate::rng::{random_bool, random_u32, random_u8};
use crate::text::{
    decimal, decimal_string, digit_char, len_as_u32, push_str, split, split_parts, string_views,
    trim, trimmed,
};

verus! {

/// The search engines that the "let me google that for you" command knows.
#[derive(Debug, Clone, Copy, PartialEq, Eq, Structural)]
pub enum LmgtfySearchEngine {
    Google,
    Bing,
    DuckDuckGo,
    Perplexity,
}

/// The address of a search engine's result page, to which the query is appended.
pub open spec fn search_address(engine: LmgtfySearchEngine) -> Seq<char> {
    match engine {
        LmgtfySearchEngine::Google => "https://www.google.com/search?q="@,
        LmgtfySearchEngine::Bing => "https://www.bing.com/search?q="@,
        LmgtfySearchEngine::DuckDuckGo => "https://duckduckgo.com/search?q="@,
        LmgtfySearchEngine::Perplexity => "https://www.perplexity.ai/search?q="@,
    }
}

/// A byte that percent-encoding leaves as it is: an ASCII letter or digit,
/// or one of `-`, `.`, `_`, `~`.
pub open spec fn is_unreserved_byte(b: u8) -> bool {
    ||| 48 <= b <= 57
    ||| 65 <= b <= 90
    ||| 97 <= b <= 122
    ||| b == 45
    ||| b == 46
    ||| b == 95
    ||| b == 126
}

/// The upper-case hexadecimal digit of `d` (from 0 to 15).
pub open spec fn hex_digit(d: int) -> char {
    if d < 10 {
        digit_char(d)
    } else if d == 10 {
        'A'
    } else if d == 11 {
        'B'
    } else if d == 12 {
        'C'
    } else if d == 13 {
        'D'
    } else if d == 14 {
        'E'
    } else {
        'F'
    }
}

/// A byte, percent-encoded.
pub open spec fn percent_encoded_byte(b: u8) -> Seq<char> {
    if is_unreserved_byte(b) {
        seq![b as char]
    } else {
        seq!['%', hex_digit((b / 16) as int), hex_digit((b % 16) as int)]
    }
}

/// Bytes, each percent-encoded, in order.
pub open spec fn percent_encoded(bytes: Seq<u8>) -> Seq<char>
    decreases bytes.len(),
{
    if bytes.len() == 0 {
        Seq::<char>::empty()
    } else {
        percent_encoded(bytes.drop_last()) + percent_encoded_byte(bytes.last())
    }
}

/// Calls `urlencoding::encode`, which percent-encodes every byte of the
/// UTF-8 encoding of `s` except ASCII letters, digits and `-`, `.`, `_`, `~`,
/// writing the others as `%` and two upper-case hexadecimal digits.
#[verifier::external_body]
fn url_encode(s: &str) -> (encoded: String)
    ensures
        encoded@ == percent_encoded(encode_utf8(s@)),
{
    urlencoding::encode(s).into_owned()
}

/// The search link for a query: the engine's result page (Google by default)
/// with the percent-encoded query.
pub open spec fn lmgtfy_link(query: Seq<char>, engine: Option<LmgtfySearchEngine>) -> Seq<char> {
    let e = match engine {
        Some(e) => e,
        None => LmgtfySearchEngine::Google,
    };
    search_address(e) + percent_encoded(encode_utf8(query))
}

/// The address of a search engine's result page.
fn search_address_of(engine: LmgtfySearchEngine) -> (a: String)
    ensures
        a@ == search_address(engine),
{
    match engine {
        LmgtfySearchEngine::Google => "https://www.google.com/search?q=".to_owned(),
        LmgtfySearchEngine::Bing => "https://www.bing.com/search?q=".to_owned(),
        LmgtfySearchEngine::DuckDuckGo => "https://duckduckgo.com/search?q=".to_owned(),
        LmgtfySearchEngine::Perplexity => "https://www.perplexity.ai/search?q=".to_owned(),
    }
}

/// The "let me google that for you" reply: the search link for the query.
pub fn lmgtfy(query: &str, search_engine: Option<LmgtfySearchEngine>) -> (link: String)
    ensures
        link@ == lmgtfy_link(query@, search_engine),
{
    let engine = match search_engine {
        Some(e) => e,
        None => LmgtfySearchEngine::Google,
    };
    let mut link = search_address_of(engine);
    let encoded = url_encode(query);
    push_str(&mut link, encoded.as_str());
    link
}

/// The number of faces a die has when none is given.
pub const DEFAULT_DICE_FACES: u8 = 6;

/// The number of faces of the die: the one given, else six.
pub open spec fn dice_faces(faces: Option<u8>) -> u8 {
    match faces {
        Some(f) => f,
        None => DEFAULT_DICE_FACES,
    }
}

/// The number that a die with `faces` faces (at least one) shows for `random`.
pub open spec fn dice_roll(faces: u8, random: u8) -> int {
    (random % faces) + 1
}

/// The emoji name of a number from one to six.
pub open spec fn number_emoji(n: int) -> Seq<char> {
    if n == 1 {
        ":one:"@
    } else if n == 2 {
        ":two:"@
    } else if n == 3 {
        ":three:"@
    } else if n == 4 {
        ":four:"@
    } else if n == 5 {
        ":five:"@
    } else {
        ":six:"@
    }
}

/// The reply to a dice roll: a die needs at least four faces; a roll of a
/// die with at most six faces is shown as an emoji, others as a number.
pub open spec fn dice_reply(faces: Option<u8>, random: u8) -> Seq<char> {
    let f = dice_faces(faces);
    if f < 4 {
        "The number of faces must be at least 4."@
    } else {
        let roll = dice_roll(f, random);
        if f <= 6 && 1 <= roll <= 6 {
            number_emoji(roll)
        } else {
            "You rolled a "@ + decimal(roll as nat) + "!"@
        }
    }
}

/// The reply to a dice roll, with `random` as the drawn number.
pub fn dice_with(faces: Option<u8>, random: u8) -> (reply: String)
    ensures
        reply@ == dice_reply(faces, random),
{
    let f = match faces {
        Some(f) => f,
        None => DEFAULT_DICE_FACES,
    };
    if f < 4 {
        return "The number of faces must be at least 4.".to_owned();
    }
    let roll: u8 = random % f + 1;
    if f <= 6 {
        match roll {
            1 => return ":one:".to_owned(),
            2 => return ":two:".to_owned(),
            3 => return ":three:".to_owned(),
            4 => return ":four:".to_owned(),
            5 => return ":five:".to_owned(),
            6 => return ":six:".to_owned(),
            _ => {},
        }
    }
    let mut reply = "You rolled a ".to_owned();
    let number = decimal_string(roll as u64);
    push_str(&mut reply, number.as_str());
    push_str(&mut reply, "!");
    reply
}

/// Rolls a die with the given number of faces (six by default); a number is
/// drawn only for a die with at least four faces.
pub fn dice(faces: Option<u8>) -> (reply: String)
    ensures
        exists|random: u8| reply@ == dice_reply(faces, random),
{
    let f = match faces {
        Some(f) => f,
        None => DEFAULT_DICE_FACES,
    };
    if f < 4 {
        return dice_with(faces, 0);
    }
    let random = random_u8();
    dice_with(faces, random)
}

/// The text of the footer of the coin's reply.
pub open spec fn coin_footer_text() -> Seq<char> {
    "Icon made by emoji.gg"@
}

/// The icon of the footer of the coin's reply.
pub open spec fn coin_footer_icon() -> Seq<char> {
    "https://emoji.gg/assets/img/logo.png?v=2"@
}

/// The reply to a coin flip that shows tails for `flip` and heads otherwise:
/// the side's name as title, the side's picture as thumbnail, and a footer
/// that credits the pictures.
pub open spec fn coin_embed(flip: bool, heads_picture: Seq<char>, tails_picture: Seq<char>) -> EmbedView {
    EmbedView {
        title: Some(
            if flip {
                "Tails"@
            } else {
                "Heads"@
            },
        ),
        description: None,
        url: None,
        image: None,
        thumbnail: Some(
            if flip {
                tails_picture
            } else {
                heads_picture
            },
        ),
        colour: None,
        footer: Some((coin_footer_text(), coin_footer_icon())),
    }
}

/// The reply to a coin flip, with `flip` as the drawn value (tails for
/// `true`), given the pictures of heads and of tails.
pub fn coin_face(flip: bool, heads_picture: &str, tails_picture: &str) -> (e: Embed)
    ensures
        e@ == coin_embed(flip, heads_picture@, tails_picture@),
{
    let (title, picture) = if flip {
        ("Tails".to_owned(), tails_picture.to_owned())
    } else {
        ("Heads".to_owned(), heads_picture.to_owned())
    };
    Embed {
        title: Some(title),
        description: None,
        url: None,
        image: None,
        thumbnail: Some(picture),
        colour: None,
        footer: Some(
            EmbedFooter {
                text: "Icon made by emoji.gg".to_owned(),
                icon_url: "https://emoji.gg/assets/img/logo.png?v=2".to_owned(),
            },
        ),
    }
}

/// Flips a coin, given the pictures of heads and of tails.
pub fn coin(heads_picture: &str, tails_picture: &str) -> (e: Embed)
    ensures
        exists|flip: bool| e@ == coin_embed(flip, heads_picture@, tails_picture@),
{
    let flip = random_bool();
    coin_face(flip, heads_picture, tails_picture)
}

/// The options of a choice: the text split at the separator (a comma by
/// default), each option trimmed.
pub open spec fn choose_options(options: Seq<char>, separator: Option<Seq<char>>) -> Seq<Seq<char>> {
    let sep = match separator {
        Some(s) => s,
        None => ","@,
    };
    split_parts(options, sep).map_values(|p: Seq<char>| trimmed(p))
}

/// The reply to a choice: at least two options are needed; else the option
/// at `random` modulo the number of options taken as `u32`.
pub open spec fn choose_reply(options: Seq<char>, separator: Option<Seq<char>>, random: u32) -> Seq<
    char,
> {
    let opts = choose_options(options, separator);
    if opts.len() < 2 {
        "Please provide at least two options separated by commas."@
    } else {
        "I choose: "@ + opts[(random as int) % len_as_u32(opts.len())]
    }
}

/// The choice is defined: there are fewer than two options, or their number
/// taken as `u32` is not zero (picking would divide by zero).
pub open spec fn choose_defined(options: Seq<char>, separator: Option<Seq<char>>) -> bool {
    let n = choose_options(options, separator).len();
    n < 2 || len_as_u32(n) != 0
}

/// The text of an optional string.
pub open spec fn opt_text(o: Option<String>) -> Option<Seq<char>> {
    match o {
        Some(s) => Some(s@),
        None => None,
    }
}

/// The trimmed options of a choice.
fn options_of(options: &str, separator: &Option<String>) -> (opts: Vec<String>)
    ensures
        string_views(opts@) == choose_options(options@, opt_text(*separator)),
{
    let parts = match separator {
        Some(s) => split(options, s.as_str()),
        None => split(options, ","),
    };
    let mut opts: Vec<String> = Vec::new();
    for i in 0..parts.len()
        invariant
            string_views(opts@) == string_views(parts@).subrange(0, i as int).map_values(
                |p: Seq<char>| trimmed(p),
            ),
    {
        let ghost before = opts@;
        let t = trim(parts[i].as_str());
        let ghost tv = t@;
        opts.push(t);
        assert(string_views(opts@) =~= string_views(before).push(tv));
        assert(string_views(parts@)[i as int] == parts@[i as int]@);
        assert(string_views(parts@).subrange(0, i + 1).map_values(|p: Seq<char>| trimmed(p))
            =~= string_views(parts@).subrange(0, i as int).map_values(|p: Seq<char>| trimmed(p)).push(
            trimmed(parts@[i as int]@),
        ));
        assert(string_views(opts@) =~= string_views(parts@).subrange(0, i + 1).map_values(
            |p: Seq<char>| trimmed(p),
        ));
    }
    assert(string_views(parts@).subrange(0, parts@.len() as int) =~= string_views(parts@));
    opts
}

/// Whether the choice among the options is defined.
pub fn choose_is_defined(options: &str, separator: &Option<String>) -> (b: bool)
    ensures
        b == choose_defined(options@, opt_text(*separator)),
{
    let opts = options_of(options, separator);
    let n = opts.len();
    let m = n as u32;
    assert(m as u64 == (n as u64) % 0x1_0000_0000u64) by (bit_vector)
        requires
            m == n as u32,
    ;
    n < 2 || m != 0
}

/// The reply to a choice, with `random` as the drawn number.
pub fn choose_with(options: &str, separator: Option<String>, random: u32) -> (reply: String)
    requires
        choose_defined(options@, opt_text(separator)),
    ensures
        reply@ == choose_reply(options@, opt_text(separator), random),
{
    let opts = options_of(options, &separator);
    let n = opts.len();
    if n < 2 {
        return "Please provide at least two options separated by commas.".to_owned();
    }
    let m = n as u32;
    assert(m as u64 == (n as u64) % 0x1_0000_0000u64) by (bit_vector)
        requires
            m == n as u32,
    ;
    let idx = random % m;
    assert(string_views(opts@)[idx as int] == opts@[idx as int]@);
    let mut reply = "I choose: ".to_owned();
    push_str(&mut reply, opts[idx as usize].as_str());
    reply
}

/// A die with at least four faces shows a number from one to its number of faces.
pub proof fn dice_roll_in_range(faces: u8, random: u8)
    requires
        faces >= 4,
    ensures
        1 <= dice_roll(faces, random) <= faces,
{
}

/// The reply to a roll of a die with four to six faces is the emoji of a
/// number from one to its number of faces.
pub proof fn small_dice_reply_is_emoji(faces: Option<u8>, random: u8)
    requires
        4 <= dice_faces(faces) <= 6,
    ensures
        exists|n: int| 1 <= n <= dice_faces(faces) && dice_reply(faces, random) == number_emoji(n),
{
    let n = dice_roll(dice_faces(faces), random);
    assert(1 <= n <= dice_faces(faces) && dice_reply(faces, random) == number_emoji(n));
}

/// The reply to a choice among at least two options names one of them.
pub proof fn choice_is_one_of_the_options(options: Seq<char>, separator: Option<Seq<char>>, random: u32)
    requires
        choose_defined(options, separator),
        choose_options(options, separator).len() >= 2,
    ensures
        exists|i: int|
            0 <= i < choose_options(options, separator).len() && choose_reply(options, separator, random)
                == "I choose: "@ + choose_options(options, separator)[i],
{
    let i = (random as int) % len_as_u32(choose_options(options, separator).len());
    assert(0 <= i < choose_options(options, separator).len());
    assert(choose_reply(options, separator, random) == "I choose: "@ + choose_options(
        options,
        separator,
    )[i]);
}

/// Chooses one of the options, drawing a number where there are at least two.
pub fn choose_option(options: &str, separator: Option<String>) -> (reply: String)
    requires
        choose_defined(options@, opt_text(separator)),
    ensures
        exists|random: u32| reply@ == choose_reply(options@, opt_text(separator), random),
{
    let count = options_of(options, &separator).len();
    let random = if count >= 2 {
        random_u32()
    } else {
        0
    };
    choose_with(options, separator, random)
}

/// The description of the greeting: the bot's name (`Useless Bot` where it
/// is not known), the project link, and the help command with the prefix.
pub open spec fn hi_description(name: Option<Seq<char>>, github_url: Seq<char>, prefix: Seq<char>) -> Seq<char> {
    let n = match name {
        Some(n) => n,
        None => "Useless Bot"@,
    };
    n + " is a bot based on [useless-bot]("@ + github_url + "). "@
        + "This bot have no idea what it can do nor what it will do, it is just created for exporing how a discord "@
        + "bot can do or what it can achive.\n\nNot sure where to start? Try type `"@ + prefix
        + "help`!"@
}

/// The greeting's embed: the greeting as title, the description, the
/// project's banner and link, and the colour (1, 4, 9).
pub open spec fn hi_embed(
    name: Option<Seq<char>>,
    greeting: Seq<char>,
    github_url: Seq<char>,
    banner_url: Seq<char>,
    prefix: Seq<char>,
) -> EmbedView {
    EmbedView {
        title: Some(greeting),
        description: Some(hi_description(name, github_url, prefix)),
        url: Some(github_url),
        image: Some(banner_url),
        thumbnail: None,
        colour: Some((1u8, 4u8, 9u8)),
        footer: None,
    }
}

/// The greeting to whoever says hi: an embed that introduces the bot by its
/// name (where it is known), with the project's banner and link.
pub fn hi(name: Option<String>, greeting: String, github_url: &str, banner_url: &str, prefix: &str) -> (e:
    Embed)
    ensures
        e@ == hi_embed(opt_text(name), greeting@, github_url@, banner_url@, prefix@),
{
    let mut d = match name {
        Some(n) => n,
        None => "Useless Bot".to_owned(),
    };
    push_str(&mut d, " is a bot based on [useless-bot](");
    push_str(&mut d, github_url);
    push_str(&mut d, "). ");
    push_str(
        &mut d,
        "This bot have no idea what it can do nor what it will do, it is just created for exporing how a discord ",
    );
    push_str(&mut d, "bot can do or what it can achive.\n\nNot sure where to start? Try type `");
    push_str(&mut d, prefix);
    push_str(&mut d, "help`!");
    Embed {
        title: Some(greeting),
        description: Some(d),
        url: Some(github_url.to_owned()),
        image: Some(banner_url.to_owned()),
        thumbnail: None,
        colour: Some((1, 4, 9)),
        footer: None,
    }
}

/// What a die shows, for every number of faces and every drawn number: with
/// no number of faces given the die has six; a die with fewer than four
/// faces is refused; otherwise the roll is the drawn number modulo the faces,
/// plus one, and a die of at most six faces names it with its emoji
/// (`:one:` for one, `:two:` for two, and so on), a larger die writes it out.
pub proof fn dice_show_the_rolled_number(faces: Option<u8>, random: u8)
    ensures
        ({
            let f: int = match faces {
                Some(f) => f as int,
                None => 6,
            };
            let roll: int = (random as int) % f + 1;
            let reply = dice_reply(faces, random);
            &&& f < 4 ==> reply == "The number of faces must be at least 4."@
            &&& f >= 4 ==> 1 <= roll <= f
            &&& 4 <= f <= 6 && roll == 1 ==> reply == ":one:"@
            &&& 4 <= f <= 6 && roll == 2 ==> reply == ":two:"@
            &&& 4 <= f <= 6 && roll == 3 ==> reply == ":three:"@
            &&& 4 <= f <= 6 && roll == 4 ==> reply == ":four:"@
            &&& 4 <= f <= 6 && roll == 5 ==> reply == ":five:"@
            &&& 4 <= f <= 6 && roll == 6 ==> reply == ":six:"@
            &&& f > 6 ==> reply == "You rolled a "@ + decimal(roll as nat) + "!"@
        }),
{
}

/// With at least two options, the drawn number picks the option at its
/// remainder modulo the number of options: every option can be chosen, the
/// `i`-th one for the drawn number `i`.
pub proof fn choice_picks_the_option_at_the_drawn_index(
    options: Seq<char>,
    separator: Option<Seq<char>>,
    random: u32,
)
    requires
        2 <= choose_options(options, separator).len() <= u32::MAX,
    ensures
        choose_reply(options, separator, random) == "I choose: "@ + choose_options(options, separator)[(
        random as int) % (choose_options(options, separator).len() as int)],
        (random as int) < choose_options(options, separator).len() ==> choose_reply(
            options,
            separator,
            random,
        ) == "I choose: "@ + choose_options(options, separator)[random as int],
{
    let n = choose_options(options, separator).len() as int;
    assert(len_as_u32(n as nat) == n);
    if (random as int) < n {
        vstd::arithmetic::div_mod::lemma_small_mod(random as nat, n as nat);
    }
}

/// Without a separator the options are separated by commas; the options are
/// the pieces between separators, each trimmed, in order.
pub proof fn choice_options_split_at_commas_by_default(options: Seq<char>, separator: Option<Seq<char>>)
    ensures
        choose_options(options, None) == choose_options(options, Some(","@)),
        ({
            let sep = match separator {
                Some(s) => s,
                None => ","@,
            };
            let parts = split_parts(options, sep);
            &&& choose_options(options, separator).len() == parts.len()
            &&& forall|i: int| 0 <= i < parts.len() ==> #[trigger] choose_options(options, separator)[i]
                == trimmed(parts[i])
        }),
{
}

/// The reply to a ping, which shows that the bot is there.
pub fn ping() -> (reply: String)
    ensures
        reply@ == ":ping_pong: Pong!"@,
{
    ":ping_pong: Pong!".to_owned()
}

/// What the bot shows itself listening to: the greeting command with the
/// prefix.
pub fn activity_name(prefix: &str) -> (name: String)
    ensures
        name@ == prefix@ + "hi"@,
{
    let mut name = prefix.to_owned();
    push_str(&mut name, "hi");
    name
}

} // verus!
