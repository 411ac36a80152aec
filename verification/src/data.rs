//! The bot's shared data: the keyword replies and the curl user agent.

use vstd::prelude::*;
use crate::string_map::StringMap;
use crate::text::string_views;

verus! {

/// What the bot answers to a keyword: one text, or one text picked from a list.
pub enum KeywordResponse {
    Value(String),
    List(Vec<String>),
}

/// The meaning of a [`KeywordResponse`]: its texts as char sequences.
pub enum KeywordResponseView {
    Value(Seq<char>),
    List(Seq<Seq<char>>),
}

impl View for KeywordResponse {
    type V = KeywordResponseView;

    open spec fn view(&self) -> KeywordResponseView {
        match self {
            KeywordResponse::Value(s) => KeywordResponseView::Value(s@),
            KeywordResponse::List(l) => KeywordResponseView::List(string_views(l@)),
        }
    }
}

/// The data that every command and event handler shares.
pub struct Data {
    /// The reply to each keyword.
    pub keyword_response_dict: StringMap<KeywordResponse>,
    /// The user agent that web requests present, the one of the current curl release.
    pub curl_user_agent: String,
}

} // verus!
