//! The keyword reply table, read from a YAML document that maps each keyword
//! to a text or to a list of texts.

use vstd::prelude::*;
use crate::data::{KeywordResponse, KeywordResponseView};
use crate::string_map::{distinct_keys, entries_map, lemma_entries_map_contains, StringMap};
use crate::text::string_views;

verus! {

/// A value of the YAML document as the reply table reads it.
pub enum ConfigValue {
    /// A string.
    Text(String),
    /// A sequence, with each item's text where the item is a string.
    List(Vec<Option<String>>),
    /// Anything else.
    Other,
}

/// The meaning of a [`ConfigValue`]: its texts as char sequences.
pub enum ConfigValueView {
    Text(Seq<char>),
    List(Seq<Option<Seq<char>>>),
    Other,
}

/// The text of an item, where it has one.
pub open spec fn text_of(o: Option<String>) -> Option<Seq<char>> {
    match o {
        Some(s) => Some(s@),
        None => None,
    }
}

/// The texts of the items, item by item.
pub open spec fn item_texts(items: Seq<Option<String>>) -> Seq<Option<Seq<char>>> {
    items.map_values(|o: Option<String>| text_of(o))
}

impl View for ConfigValue {
    type V = ConfigValueView;

    open spec fn view(&self) -> ConfigValueView {
        match self {
            ConfigValue::Text(s) => ConfigValueView::Text(s@),
            ConfigValue::List(items) => ConfigValueView::List(item_texts(items@)),
            ConfigValue::Other => ConfigValueView::Other,
        }
    }
}

/// Why the reply table could not be read.
pub enum ConfigError {
    /// The document is not a YAML map from string keys to values.
    InvalidYaml,
}

/// The texts that are there, in order.
pub open spec fn present_texts(items: Seq<Option<Seq<char>>>) -> Seq<Seq<char>> {
    items.filter_map(|o: Option<Seq<char>>| o)
}

/// The texts of the items that are strings, in order.
pub open spec fn present_strings(items: Seq<Option<String>>) -> Seq<Seq<char>> {
    present_texts(item_texts(items))
}

/// The reply that a value gives: a string gives a single reply, a sequence
/// the list of its string items (anything else gives none: see
/// [`keyword_table`]).
pub open spec fn response_of(v: ConfigValueView) -> KeywordResponseView {
    match v {
        ConfigValueView::Text(s) => KeywordResponseView::Value(s),
        ConfigValueView::List(items) => KeywordResponseView::List(present_texts(items)),
        ConfigValueView::Other => KeywordResponseView::List(Seq::empty()),
    }
}

/// The reply table that a YAML map gives: each key whose value is a string
/// or a sequence, with the reply that the value gives.
pub open spec fn keyword_table(m: Map<Seq<char>, ConfigValueView>) -> Map<Seq<char>, KeywordResponseView> {
    Map::new(
        |k: Seq<char>| m.contains_key(k) && !(m[k] is Other),
        |k: Seq<char>| response_of(m[k]),
    )
}

/// The reply table that the entries give, taken in order: a string or a
/// sequence sets the key's reply, anything else leaves the table as it is.
pub open spec fn keyword_dict_of(entries: Seq<(String, ConfigValue)>) -> Map<
    Seq<char>,
    KeywordResponseView,
>
    decreases entries.len(),
{
    if entries.len() == 0 {
        Map::empty()
    } else {
        let prev = keyword_dict_of(entries.drop_last());
        let (key, value) = entries.last();
        if value is Other {
            prev
        } else {
            prev.insert(key@, response_of(value@))
        }
    }
}

/// With distinct keys, the reply table of the entries is the one of the map
/// that they form, whatever their order.
proof fn lemma_keyword_dict_of_map(entries: Seq<(String, ConfigValue)>)
    requires
        distinct_keys(entries),
    ensures
        keyword_dict_of(entries) == keyword_table(entries_map(entries)),
    decreases entries.len(),
{
    if entries.len() == 0 {
        assert(keyword_table(entries_map(entries)) =~= Map::empty());
    } else {
        let t = entries.drop_last();
        assert(distinct_keys(t)) by {
            assert forall|a: int, b: int|
                0 <= a < t.len() && 0 <= b < t.len() && a != b implies #[trigger] t[a].0@
                != #[trigger] t[b].0@ by {
                assert(t[a] == entries[a] && t[b] == entries[b]);
            }
        }
        lemma_keyword_dict_of_map(t);
        let (key, value) = entries.last();
        if value is Other {
            assert(!entries_map(t).contains_key(key@)) by {
                lemma_entries_map_contains(t, key@);
                if entries_map(t).contains_key(key@) {
                    let i = choose|i: int| 0 <= i < t.len() && #[trigger] t[i].0@ == key@;
                    assert(t[i] == entries[i]);
                    assert(entries[entries.len() - 1].0@ == key@);
                }
            }
            assert(keyword_table(entries_map(entries)) =~= keyword_table(entries_map(t)));
        } else {
            assert(keyword_table(entries_map(entries)) =~= keyword_table(entries_map(t)).insert(
                key@,
                response_of(value@),
            ));
        }
    }
}

/// A keyword is in the reply table exactly when some entry of the document
/// has it as key with a string or a sequence as value.
pub proof fn keyword_table_keys(entries: Seq<(String, ConfigValue)>, k: Seq<char>)
    ensures
        keyword_dict_of(entries).contains_key(k) <==> exists|i: int|
            0 <= i < entries.len() && #[trigger] entries[i].0@ == k && !(entries[i].1 is Other),
    decreases entries.len(),
{
    if entries.len() > 0 {
        let t = entries.drop_last();
        keyword_table_keys(t, k);
        if exists|i: int| 0 <= i < entries.len() && #[trigger] entries[i].0@ == k && !(entries[i].1 is Other) {
            let i = choose|i: int| 0 <= i < entries.len() && #[trigger] entries[i].0@ == k && !(entries[i].1 is Other);
            if i < entries.len() - 1 {
                assert(t[i] == entries[i]);
            }
        }
        if keyword_dict_of(entries).contains_key(k) {
            let last = entries.last();
            if last.0@ == k && !(last.1 is Other) {
                assert(entries[entries.len() - 1].0@ == k);
            } else {
                let i = choose|i: int| 0 <= i < t.len() && #[trigger] t[i].0@ == k && !(t[i].1 is Other);
                assert(t[i] == entries[i]);
            }
        }
    }
}

/// The texts of the items that are strings.
pub fn strings_of(items: Vec<Option<String>>) -> (r: Vec<String>)
    ensures
        string_views(r@) == present_strings(items@),
{
    let ghost all = items@;
    let mut rest = items;
    let mut out: Vec<String> = Vec::new();
    let ghost mut done: int = 0;
    assert(all.subrange(0, 0) =~= Seq::<Option<String>>::empty());
    assert(string_views(out@) =~= Seq::<Seq<char>>::empty());
    while rest.len() > 0
        invariant
            0 <= done <= all.len(),
            rest@ == all.subrange(done, all.len() as int),
            string_views(out@) == present_strings(all.subrange(0, done)),
        decreases rest@.len(),
    {
        let item = rest.remove(0);
        proof {
            assert(all[done] == item);
            assert(all.subrange(0, done + 1).drop_last() =~= all.subrange(0, done));
            assert(all.subrange(0, done + 1).last() == item);
            assert(item_texts(all.subrange(0, done + 1)).drop_last() =~= item_texts(
                all.subrange(0, done),
            ));
            assert(item_texts(all.subrange(0, done + 1)).last() == text_of(item));
        }
        let ghost before = out@;
        match item {
            Some(s) => {
                out.push(s);
                assert(string_views(out@) =~= string_views(before) + seq![out@.last()@]);
            },
            None => {},
        }
        proof {
            done = done + 1;
            assert(rest@ =~= all.subrange(done, all.len() as int));
        }
    }
    assert(all.subrange(0, done) =~= all);
    out
}

/// Builds the reply table from the document's entries, in their order.
pub fn keyword_dict_from_config(entries: Vec<(String, ConfigValue)>) -> (d: StringMap<
    KeywordResponse,
>)
    ensures
        d@ == keyword_dict_of(entries@),
{
    let ghost all = entries@;
    let mut rest = entries;
    let mut dict: StringMap<KeywordResponse> = StringMap::new();
    let ghost mut done: int = 0;
    assert(all.subrange(0, 0) =~= Seq::<(String, ConfigValue)>::empty());
    while rest.len() > 0
        invariant
            0 <= done <= all.len(),
            rest@ == all.subrange(done, all.len() as int),
            dict@ == keyword_dict_of(all.subrange(0, done)),
        decreases rest@.len(),
    {
        let (key, value) = rest.remove(0);
        proof {
            assert(all[done] == (key, value));
            assert(all.subrange(0, done + 1).drop_last() =~= all.subrange(0, done));
            assert(all.subrange(0, done + 1).last() == (key, value));
        }
        match value {
            ConfigValue::Text(s) => {
                dict.insert(key, KeywordResponse::Value(s));
            },
            ConfigValue::List(items) => {
                let texts = strings_of(items);
                dict.insert(key, KeywordResponse::List(texts));
            },
            ConfigValue::Other => {},
        }
        proof {
            done = done + 1;
            assert(rest@ =~= all.subrange(done, all.len() as int));
        }
    }
    assert(all.subrange(0, done) =~= all);
    dict
}

#[verifier::external_type_specification]
#[verifier::external_body]
pub struct ExYamlError(serde_yaml::Error);

/// Whether `text` reads as a YAML map from string keys to values.
pub uninterp spec fn yaml_string_map_parses(text: Seq<char>) -> bool;

/// The map from string keys to values that `text` reads as, each value as a
/// string, a sequence of items (each with its text where it is a string) or
/// something else.
pub uninterp spec fn yaml_string_map(text: Seq<char>) -> Map<Seq<char>, ConfigValueView>;

/// Calls `serde_yaml::from_str` to read `text` as a `HashMap` from string
/// keys to YAML values, and gives each entry with its value read as
/// `Value::as_str` and `Value::as_sequence` read it (tags are looked
/// through). Whether it succeeds, and the map that it reads, are named: the
/// entries, one per key of the map, form that map. Their order is not
/// stated: it is the order in which a `HashMap` is walked.
#[verifier::external_body]
fn yaml_entries(text: &str) -> (entries: Result<Vec<(String, ConfigValue)>, serde_yaml::Error>)
    ensures
        entries is Ok <==> yaml_string_map_parses(text@),
        entries matches Ok(v) ==> distinct_keys(v@) && entries_map(v@) == yaml_string_map(text@),
{
    let map: std::collections::HashMap<String, serde_yaml::Value> = serde_yaml::from_str(text)?;
    Ok(map.into_iter().map(|(key, value)| {
        let entry = match (value.as_str(), value.as_sequence()) {
            (Some(s), _) => ConfigValue::Text(s.to_string()),
            (None, Some(items)) => ConfigValue::List(
                items.iter().map(|item| item.as_str().map(|s| s.to_string())).collect(),
            ),
            (None, None) => ConfigValue::Other,
        };
        (key, entry)
    }).collect())
}

/// Reads the reply table from the text of the YAML document.
pub fn parse_keyword_response_config(text: &str) -> (r: Result<
    StringMap<KeywordResponse>,
    ConfigError,
>)
    ensures
        r is Ok <==> yaml_string_map_parses(text@),
        r matches Ok(d) ==> d@ == keyword_table(yaml_string_map(text@)),
{
    match yaml_entries(text) {
        Ok(entries) => {
            let ghost e = entries@;
            let d = keyword_dict_from_config(entries);
            proof {
                lemma_keyword_dict_of_map(e);
            }
            Ok(d)
        },
        Err(_) => Err(ConfigError::InvalidYaml),
    }
}

} // verus!
