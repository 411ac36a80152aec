//! The rich embeds that the bot's messages carry, as plain values: each
//! part of an embed that is set.

use vstd::prelude::*;
use crate::link_helper::opt_view;

verus! {

/// The footer of an embed: its text and the link of its icon.
#[derive(Debug)]
pub struct EmbedFooter {
    pub text: String,
    pub icon_url: String,
}

/// An embed: its title, description, link, image, thumbnail, colour (red,
/// green, blue) and footer, each where it is set.
#[derive(Debug)]
pub struct Embed {
    pub title: Option<String>,
    pub description: Option<String>,
    pub url: Option<String>,
    pub image: Option<String>,
    pub thumbnail: Option<String>,
    pub colour: Option<(u8, u8, u8)>,
    pub footer: Option<EmbedFooter>,
}

/// The meaning of an [`Embed`]: its texts as char sequences, the footer as
/// its text and icon link.
pub struct EmbedView {
    pub title: Option<Seq<char>>,
    pub description: Option<Seq<char>>,
    pub url: Option<Seq<char>>,
    pub image: Option<Seq<char>>,
    pub thumbnail: Option<Seq<char>>,
    pub colour: Option<(u8, u8, u8)>,
    pub footer: Option<(Seq<char>, Seq<char>)>,
}

impl View for Embed {
    type V = EmbedView;

    open spec fn view(&self) -> EmbedView {
        EmbedView {
            title: opt_view(self.title),
            description: opt_view(self.description),
            url: opt_view(self.url),
            image: opt_view(self.image),
            thumbnail: opt_view(self.thumbnail),
            colour: self.colour,
            footer: match self.footer {
                Some(f) => Some((f.text@, f.icon_url@)),
                None => None,
            },
        }
    }
}

} // verus!
