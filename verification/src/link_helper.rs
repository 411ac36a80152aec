//! Facebook links, link previews, the current curl release and the Open
//! Graph metadata of web pages.

use vstd::prelude::*;
use html5ever::tendril::TendrilSink;
use std::rc::Rc;
use crate::string_map::StringMap;
use crate::text::string_views;
use crate::text::{
    contains, has_substring, is_white_space, lemma_replace_at_start, lemma_replace_keeps_prefix,
    lemma_replace_keeps_property, occurs_at, replace, replace_all, starts_with, str_eq, trim,
    trim_end, trim_start, trimmed,
};

verus! {

/// The text of an optional string.
pub open spec fn opt_view(o: Option<String>) -> Option<Seq<char>> {
    match o {
        Some(s) => Some(s@),
        None => None,
    }
}

/// The regular expression that a Facebook post link matches.
pub open spec fn facebook_url_pattern() -> Seq<char> {
    "^https://(www|m)\\.facebook\\.com/\\S*$"@
}

/// What the Facebook link pattern matches: the whole text is a link to
/// `www.facebook.com` or `m.facebook.com` over https with a path, and holds no
/// whitespace.
pub open spec fn facebook_url_shape(t: Seq<char>) -> bool {
    &&& (starts_with(t, "https://www.facebook.com/"@) || starts_with(t, "https://m.facebook.com/"@))
    &&& forall|i: int| 0 <= i < t.len() ==> !is_white_space(#[trigger] t[i])
}

/// What compiling `pattern` and matching `text` with it gives: `None` where
/// the pattern does not compile, else whether the text matches.
pub uninterp spec fn regex_match_outcome(pattern: Seq<char>, text: Seq<char>) -> Option<bool>;

#[verifier::external_type_specification]
#[verifier::external_body]
pub struct ExRegexError(regex::Error);

/// Calls `regex::Regex::new` on `pattern` and, where it compiles,
/// `Regex::is_match` on `text`. The result is named; for the Facebook link
/// pattern the contract states, from the regex syntax the crate documents
/// (`^` and `$` anchor at the ends of the text, `\S` is a char outside
/// Unicode `White_Space`), which texts match.
#[verifier::external_body]
fn regex_is_match(pattern: &str, text: &str) -> (outcome: Result<bool, regex::Error>)
    ensures
        outcome is Ok <==> regex_match_outcome(pattern@, text@) is Some,
        outcome matches Ok(b) ==> regex_match_outcome(pattern@, text@) == Some(b),
        outcome is Ok || pattern@ != facebook_url_pattern(),
        outcome matches Ok(b) ==> (pattern@ == facebook_url_pattern() ==> b == facebook_url_shape(
            text@,
        )),
{
    match regex::Regex::new(pattern) {
        Ok(re) => Ok(re.is_match(text)),
        Err(e) => Err(e),
    }
}

/// The link that a message line stands for, if it is a Facebook link: the
/// trimmed line, with the mobile host replaced by the `www` one.
pub open spec fn pure_facebook_link(link: Seq<char>) -> Option<Seq<char>> {
    let t = trimmed(link);
    if facebook_url_shape(t) {
        Some(replace_all(t, "https://m.facebook.com"@, "https://www.facebook.com"@))
    } else {
        None
    }
}

/// The Facebook link that `link` stands for, with the `www` host.
pub fn get_pure_facebook_link(link: &str) -> (r: Option<String>)
    ensures
        opt_view(r) == pure_facebook_link(link@),
{
    let t = trim(link);
    let pattern = "^https://(www|m)\\.facebook\\.com/\\S*$";
    match regex_is_match(pattern, t.as_str()) {
        Ok(true) => {
            proof {
                reveal_strlit("https://m.facebook.com");
            }
            Some(replace(t.as_str(), "https://m.facebook.com", "https://www.facebook.com"))
        },
        _ => None,
    }
}

/// Every link that a message line stands for is on `https://www.facebook.com/`
/// and holds no whitespace.
pub proof fn pure_link_is_on_www_host(link: Seq<char>)
    ensures
        pure_facebook_link(link) matches Some(p) ==> starts_with(p, "https://www.facebook.com/"@)
            && forall|i: int| 0 <= i < p.len() ==> !is_white_space(#[trigger] p[i]),
{
    let t = trimmed(link);
    if facebook_url_shape(t) {
        reveal_strlit("https://www.facebook.com/");
        reveal_strlit("https://m.facebook.com/");
        reveal_strlit("https://m.facebook.com");
        reveal_strlit("https://www.facebook.com");
        let m = "https://m.facebook.com"@;
        let w = "https://www.facebook.com"@;
        let www = "https://www.facebook.com/"@;
        let r = replace_all(t, m, w);
        if starts_with(t, www) {
            assert forall|i: int| 0 <= i < 25 implies !occurs_at(t, m, i) by {
                if occurs_at(t, m, i) {
                    let rest = t.subrange(i, t.len() as int);
                    assert(rest.subrange(0, 22)[0] == m[0]);
                    assert(t[i] == 'h');
                    if i == 0 {
                        assert(rest.subrange(0, 22)[8] == m[8]);
                        assert(t.subrange(0, 25)[8] == www[8]);
                    } else {
                        assert(t.subrange(0, 25)[i] == www[i]);
                    }
                }
            }
            lemma_replace_keeps_prefix(t, m, w, 25);
            assert(r.subrange(0, 25) =~= www);
        } else {
            let mm = "https://m.facebook.com/"@;
            assert(starts_with(t, mm));
            assert forall|i: int| 0 <= i < 22 implies #[trigger] t.subrange(0, 22)[i] == m[i] by {
                assert(t.subrange(0, 23)[i] == mm[i]);
            }
            assert(t.subrange(0, 22) =~= m);
            lemma_replace_at_start(t, m, w);
            let rest = t.subrange(22, t.len() as int);
            assert(t.subrange(0, 23)[22] == '/');
            assert(rest[0] == '/');
            assert(!occurs_at(rest, m, 0)) by {
                assert(rest.subrange(0, rest.len() as int) =~= rest);
                if starts_with(rest, m) {
                    assert(rest.subrange(0, 22)[0] == m[0]);
                }
            }
            lemma_replace_keeps_prefix(rest, m, w, 1);
            assert(r.subrange(0, 25) =~= www);
        }
        let no_space = |c: char| !is_white_space(c);
        lemma_replace_keeps_property(t, m, w, no_space);
    }
}

/// Where replacing `from` by `to` in `u` gives a text that begins with `q`,
/// and `q` nowhere holds the first char of `to`, `u` itself begins with `q`
/// (given that `from` occurs nowhere in `u` before `k`).
proof fn lemma_replaced_prefix_is_original(u: Seq<char>, from: Seq<char>, to: Seq<char>, q: Seq<char>, k: int)
    requires
        from.len() > 0,
        to.len() > 0,
        starts_with(replace_all(u, from, to), q),
        forall|j: int| 0 <= j < q.len() ==> #[trigger] q[j] != to[0],
        0 <= k <= q.len(),
        k <= u.len(),
        forall|i: int| 0 <= i < k ==> !occurs_at(u, from, i),
    ensures
        starts_with(u, q),
    decreases q.len() - k,
{
    let r = replace_all(u, from, to);
    let rest = u.subrange(k, u.len() as int);
    lemma_replace_keeps_prefix(u, from, to, k);
    assert(r == u.subrange(0, k) + replace_all(rest, from, to));
    if k == q.len() {
        assert forall|j: int| 0 <= j < k implies #[trigger] u.subrange(0, k)[j] == q[j] by {
            assert(r.subrange(0, q.len() as int)[j] == q[j]);
            assert(r[j] == u.subrange(0, k)[j]);
        }
        assert(u.subrange(0, q.len() as int) =~= q);
    } else if k == u.len() {
        assert(rest.len() == 0);
        assert(replace_all(rest, from, to) =~= Seq::<char>::empty());
        assert(r.len() == k);
    } else {
        if occurs_at(u, from, k) {
            lemma_replace_at_start(rest, from, to);
            assert(r[k] == to[0]);
            assert(r.subrange(0, q.len() as int)[k] == q[k]);
        }
        lemma_replaced_prefix_is_original(u, from, to, q, k + 1);
    }
}

/// After the mobile host is replaced by the `www` one, the mobile host occurs
/// nowhere in the text.
proof fn lemma_no_mobile_host_after_replace(t: Seq<char>)
    ensures
        forall|i: int|
            !occurs_at(
                replace_all(t, "https://m.facebook.com"@, "https://www.facebook.com"@),
                "https://m.facebook.com"@,
                i,
            ),
    decreases t.len(),
{
    reveal_strlit("https://m.facebook.com");
    reveal_strlit("https://www.facebook.com");
    let m = "https://m.facebook.com"@;
    let w = "https://www.facebook.com"@;
    let r = replace_all(t, m, w);
    if t.len() > 0 {
        if starts_with(t, m) {
            let rest = t.subrange(22, t.len() as int);
            lemma_no_mobile_host_after_replace(rest);
            let r2 = replace_all(rest, m, w);
            assert(r == w + r2);
            assert forall|i: int| !occurs_at(r, m, i) by {
                if occurs_at(r, m, i) {
                    if i >= 24 {
                        assert(r.subrange(i, r.len() as int) =~= r2.subrange(i - 24, r2.len() as int));
                        assert(occurs_at(r2, m, i - 24));
                    } else {
                        assert(r.subrange(i, r.len() as int).subrange(0, 22)[0] == m[0]);
                        assert(r[i] == w[i]);
                        if i == 0 {
                            assert(r.subrange(i, r.len() as int).subrange(0, 22)[8] == m[8]);
                            assert(r[8] == w[8]);
                        }
                    }
                }
            }
        } else {
            let rest = t.drop_first();
            lemma_no_mobile_host_after_replace(rest);
            let r2 = replace_all(rest, m, w);
            assert(r == seq![t[0]] + r2);
            assert forall|i: int| !occurs_at(r, m, i) by {
                if occurs_at(r, m, i) {
                    if i >= 1 {
                        assert(r.subrange(i, r.len() as int) =~= r2.subrange(i - 1, r2.len() as int));
                        assert(occurs_at(r2, m, i - 1));
                    } else {
                        let q = m.subrange(1, 22);
                        assert(r.subrange(0, 22) == m);
                        assert forall|j: int| 0 <= j < q.len() implies #[trigger] q[j] != w[0] by {
                            assert(q[j] == m[j + 1]);
                        }
                        assert(starts_with(r2, q)) by {
                            assert forall|j: int| 0 <= j < 21 implies #[trigger] r2.subrange(0, 21)[j]
                                == q[j] by {
                                assert(r2[j] == r[j + 1]);
                                assert(r.subrange(0, 22)[j + 1] == m[j + 1]);
                            }
                            assert(r2.subrange(0, 21) =~= q);
                        }
                        lemma_replaced_prefix_is_original(rest, m, w, q, 0);
                        assert(t[0] == m[0]) by {
                            assert(r[0] == t[0]);
                            assert(r.subrange(0, 22)[0] == m[0]);
                        }
                        assert forall|j: int| 0 <= j < 22 implies #[trigger] t.subrange(0, 22)[j]
                            == m[j] by {
                            if j > 0 {
                                assert(t[j] == rest[j - 1]);
                                assert(rest.subrange(0, 21)[j - 1] == q[j - 1]);
                            }
                        }
                        assert(t.subrange(0, 22) =~= m);
                    }
                }
            }
        }
    }
}

/// A pure Facebook link is its own pure link: rewriting a link twice gives
/// what rewriting it once gives.
pub proof fn pure_link_is_stable(link: Seq<char>)
    ensures
        pure_facebook_link(link) matches Some(p) ==> pure_facebook_link(p) == Some(p),
{
    if let Some(p) = pure_facebook_link(link) {
        pure_link_is_on_www_host(link);
        assert(trim_start(p) == p);
        assert(trim_end(p) == p);
        assert(trimmed(p) == p);
        lemma_no_mobile_host_after_replace(trimmed(link));
        reveal_strlit("https://m.facebook.com");
        lemma_replace_keeps_prefix(p, "https://m.facebook.com"@, "https://www.facebook.com"@, p.len() as int);
        assert(p.subrange(p.len() as int, p.len() as int) =~= Seq::<char>::empty());
        assert(p.subrange(0, p.len() as int) =~= p);
        assert(replace_all(p, "https://m.facebook.com"@, "https://www.facebook.com"@) =~= p);
    }
}

/// What a page that can be previewed holds: the site name that the preview
/// service puts on its pages.
pub open spec fn preview_marker() -> Seq<char> {
    "<meta property=\"og:site_name\" content=\"facebed by pi.kt"@
}

/// Whether the fetched page of a rewritten link can be previewed.
pub fn can_safely_previewed(page: &str) -> (b: bool)
    ensures
        b == has_substring(page@, preview_marker()),
{
    contains(page, "<meta property=\"og:site_name\" content=\"facebed by pi.kt")
}

/// The curl user agent for a release tag: `-` becomes `/` and `_` becomes `.`.
pub open spec fn curl_version(tag: Seq<char>) -> Seq<char> {
    replace_all(replace_all(tag, "-"@, "/"@), "_"@, "."@)
}

/// The curl user agent for a release tag, such as `curl/8.11.0` for `curl-8_11_0`.
pub fn curl_version_from_tag(tag: &str) -> (r: String)
    ensures
        r@ == curl_version(tag@),
{
    proof {
        reveal_strlit("-");
        reveal_strlit("_");
    }
    let slashed = replace(tag, "-", "/");
    replace(slashed.as_str(), "_", ".")
}

/// What a JSON document gives for a member of its top-level object: `None`
/// where the text is not JSON, else `None` where there is no such member,
/// else the member's text where it is a string.
pub uninterp spec fn json_string_member(doc: Seq<char>, key: Seq<char>) -> Option<
    Option<Option<Seq<char>>>,
>;

/// The text of a member found in a JSON document.
pub open spec fn member_view(m: Option<Option<String>>) -> Option<Option<Seq<char>>> {
    match m {
        Some(o) => Some(opt_view(o)),
        None => None,
    }
}

/// The text of the error that reading `doc` as JSON gives (its `Display`
/// text), where it is not JSON.
pub uninterp spec fn json_error_text(doc: Seq<char>) -> Seq<char>;

/// Calls `serde_json::from_str` to read `doc` as a JSON value, then
/// `Value::get` with `key` and `Value::as_str` on the member found. The
/// result is named; an error is turned into its `Display` text, which is
/// named too.
#[verifier::external_body]
fn json_member_text(doc: &str, key: &str) -> (outcome: Result<Option<Option<String>>, String>)
    ensures
        outcome is Err <==> json_string_member(doc@, key@) is None,
        outcome matches Ok(m) ==> json_string_member(doc@, key@) == Some(member_view(m)),
        outcome matches Err(e) ==> e@ == json_error_text(doc@),
{
    match serde_json::from_str::<serde_json::Value>(doc) {
        Ok(v) => Ok(v.get(key).map(|member| member.as_str().map(|s| s.to_string()))),
        Err(e) => Err(e.to_string()),
    }
}

/// Why the current curl version could not be read from a release description.
#[derive(Debug)]
pub enum CurlVersionError {
    /// The description is not JSON: the reader's error text.
    InvalidJson(String),
    /// The description has no `tag_name`.
    TagNameNotFound,
    /// The `tag_name` is not a string.
    TagNameNotText,
}

impl CurlVersionError {
    /// The message of the error.
    pub fn message(&self) -> (s: String)
        ensures
            s@ == match self {
                CurlVersionError::InvalidJson(e) => e@,
                CurlVersionError::TagNameNotFound => "tag_name not found"@,
                CurlVersionError::TagNameNotText => "Cannot convert to str"@,
            },
    {
        match self {
            CurlVersionError::InvalidJson(e) => e.clone(),
            CurlVersionError::TagNameNotFound => "tag_name not found".to_owned(),
            CurlVersionError::TagNameNotText => "Cannot convert to str".to_owned(),
        }
    }
}

/// The curl user agent that the description of the latest curl release
/// gives, from its `tag_name`.
pub fn get_current_curl_version(release: &str) -> (r: Result<String, CurlVersionError>)
    ensures
        match json_string_member(release@, "tag_name"@) {
            None => r matches Err(CurlVersionError::InvalidJson(e)) && e@ == json_error_text(release@),
            Some(None) => r matches Err(CurlVersionError::TagNameNotFound),
            Some(Some(None)) => r matches Err(CurlVersionError::TagNameNotText),
            Some(Some(Some(tag))) => r matches Ok(v) && v@ == curl_version(tag),
        },
{
    match json_member_text(release, "tag_name") {
        Err(e) => Err(CurlVersionError::InvalidJson(e)),
        Ok(None) => Err(CurlVersionError::TagNameNotFound),
        Ok(Some(None)) => Err(CurlVersionError::TagNameNotText),
        Ok(Some(Some(tag))) => Ok(curl_version_from_tag(tag.as_str())),
    }
}

/// An element of a parsed HTML document: its local name and its attributes'
/// local names and values, in document order.
pub struct HtmlElement {
    pub name: String,
    pub attributes: Vec<(String, String)>,
}

/// A node of a parsed HTML document: the element it is, if it is one, and
/// its children in document order.
pub struct HtmlNode {
    pub element: Option<HtmlElement>,
    pub children: Vec<HtmlNode>,
}

/// The value of the last attribute of `attrs` with the given name.
pub open spec fn last_attribute(attrs: Seq<(String, String)>, name: Seq<char>) -> Option<Seq<char>>
    decreases attrs.len(),
{
    if attrs.len() == 0 {
        None
    } else if attrs.last().0@ == name {
        Some(attrs.last().1@)
    } else {
        last_attribute(attrs.drop_last(), name)
    }
}

/// The property and content of an element that is a `meta` element with both
/// a `property` and a `content` attribute (the last of each counts).
pub open spec fn element_og_pair(element: Option<HtmlElement>) -> Option<(Seq<char>, Seq<char>)> {
    match element {
        Some(e) => if e.name@ == "meta"@ {
            match (last_attribute(e.attributes@, "property"@), last_attribute(e.attributes@, "content"@)) {
                (Some(p), Some(c)) => Some((p, c)),
                _ => None,
            }
        } else {
            None
        },
        None => None,
    }
}

/// The Open Graph entry that an element gives by itself: a `meta` element
/// with both a `property` and a `content` attribute maps the property to the
/// one-value list of the content.
pub open spec fn element_og_entry(element: Option<HtmlElement>) -> Map<Seq<char>, Seq<Seq<char>>> {
    match element_og_pair(element) {
        Some((p, c)) => Map::empty().insert(p, seq![c]),
        None => Map::empty(),
    }
}

/// The values of a property in metadata, none where it is absent.
pub open spec fn og_values(m: Map<Seq<char>, Seq<Seq<char>>>, k: Seq<char>) -> Seq<Seq<char>> {
    if m.contains_key(k) {
        m[k]
    } else {
        Seq::<Seq<char>>::empty()
    }
}

/// The metadata `a` followed by the metadata `b`: each property maps to its
/// values in `a`, then its values in `b`.
pub open spec fn og_merge(a: Map<Seq<char>, Seq<Seq<char>>>, b: Map<Seq<char>, Seq<Seq<char>>>) -> Map<
    Seq<char>,
    Seq<Seq<char>>,
> {
    Map::new(
        |k: Seq<char>| a.contains_key(k) || b.contains_key(k),
        |k: Seq<char>| og_values(a, k) + og_values(b, k),
    )
}

/// The Open Graph metadata of a node: each property maps to the contents of
/// the `meta` elements that give it, in document order (the node's own
/// entry, then its children's metadata in order).
pub open spec fn og_graph(node: HtmlNode) -> Map<Seq<char>, Seq<Seq<char>>>
    decreases node,
{
    og_children(element_og_entry(node.element), node.children@)
}

/// `base`, then the metadata of each of `kids` in order.
pub open spec fn og_children(base: Map<Seq<char>, Seq<Seq<char>>>, kids: Seq<HtmlNode>) -> Map<
    Seq<char>,
    Seq<Seq<char>>,
>
    decreases kids,
{
    if kids.len() == 0 {
        base
    } else {
        og_merge(og_children(base, kids.subrange(0, kids.len() - 1)), og_graph(kids[kids.len() - 1]))
    }
}

/// The metadata that a map of string lists stands for.
pub open spec fn og_texts(m: Map<Seq<char>, Seq<String>>) -> Map<Seq<char>, Seq<Seq<char>>> {
    Map::new(|k: Seq<char>| m.contains_key(k), |k: Seq<char>| string_views(m[k]))
}

/// Merging metadata is associative.
proof fn lemma_og_merge_assoc(
    a: Map<Seq<char>, Seq<Seq<char>>>,
    b: Map<Seq<char>, Seq<Seq<char>>>,
    c: Map<Seq<char>, Seq<Seq<char>>>,
)
    ensures
        og_merge(og_merge(a, b), c) == og_merge(a, og_merge(b, c)),
{
    assert forall|k: Seq<char>| #[trigger] og_merge(og_merge(a, b), c).contains_key(k) implies og_merge(
        og_merge(a, b),
        c,
    )[k] == og_merge(a, og_merge(b, c))[k] by {
        assert(og_values(og_merge(a, b), k) == og_values(a, k) + og_values(b, k));
        assert(og_values(og_merge(b, c), k) == og_values(b, k) + og_values(c, k));
        assert(og_values(a, k) + og_values(b, k) + og_values(c, k) =~= og_values(a, k) + (og_values(
            b,
            k,
        ) + og_values(c, k)));
    }
    assert(og_merge(og_merge(a, b), c) =~= og_merge(a, og_merge(b, c)));
}

/// Merging with nothing changes nothing.
proof fn lemma_og_merge_empty(a: Map<Seq<char>, Seq<Seq<char>>>)
    ensures
        og_merge(Map::empty(), a) == a,
        og_merge(a, Map::empty()) == a,
{
    assert forall|k: Seq<char>| #[trigger] a.contains_key(k) implies og_values(a, k) + Seq::<Seq<char>>::empty()
        == a[k] && Seq::<Seq<char>>::empty() + og_values(a, k) == a[k] by {
        assert(og_values(a, k) + Seq::<Seq<char>>::empty() =~= a[k]);
        assert(Seq::<Seq<char>>::empty() + og_values(a, k) =~= a[k]);
    }
    assert(og_merge(Map::empty(), a) =~= a);
    assert(og_merge(a, Map::empty()) =~= a);
}

/// A property is in the metadata of children exactly when it is in the base
/// or in the metadata of one of the children.
proof fn lemma_og_children_keys(base: Map<Seq<char>, Seq<Seq<char>>>, kids: Seq<HtmlNode>, k: Seq<char>)
    ensures
        og_children(base, kids).contains_key(k) <==> base.contains_key(k) || exists|i: int|
            0 <= i < kids.len() && #[trigger] og_graph(kids[i]).contains_key(k),
    decreases kids.len(),
{
    if kids.len() > 0 {
        let front = kids.subrange(0, kids.len() - 1);
        lemma_og_children_keys(base, front, k);
        if exists|i: int| 0 <= i < kids.len() && #[trigger] og_graph(kids[i]).contains_key(k) {
            let i = choose|i: int| 0 <= i < kids.len() && #[trigger] og_graph(kids[i]).contains_key(k);
            if i < kids.len() - 1 {
                assert(front[i] == kids[i]);
            }
        }
        let last = kids[kids.len() - 1];
        if og_graph(last).contains_key(k) {
            assert(og_graph(kids[kids.len() - 1]).contains_key(k));
        }
        if og_children(base, front).contains_key(k) && !base.contains_key(k) {
            let i = choose|i: int| 0 <= i < front.len() && #[trigger] og_graph(front[i]).contains_key(k);
            assert(front[i] == kids[i]);
            assert(og_graph(kids[i]).contains_key(k));
        }
    }
}

/// A property is in the metadata of a node exactly when the node itself or
/// one of its children gives it.
pub proof fn og_graph_keys(node: HtmlNode, k: Seq<char>)
    ensures
        og_graph(node).contains_key(k) <==> element_og_entry(node.element).contains_key(k)
            || exists|i: int| 0 <= i < node.children@.len() && #[trigger] og_graph(node.children@[i]).contains_key(k),
{
    lemma_og_children_keys(element_og_entry(node.element), node.children@, k);
}

/// Every value is kept, in document order: a property's values in a node are
/// its values in the node's children but the last, then its values in the
/// last child.
pub proof fn og_graph_keeps_every_value(node: HtmlNode, k: Seq<char>)
    requires
        node.children@.len() > 0,
    ensures
        og_values(og_graph(node), k) == og_values(
            og_children(
                element_og_entry(node.element),
                node.children@.subrange(0, node.children@.len() - 1),
            ),
            k,
        ) + og_values(og_graph(node.children@.last()), k),
{
}

/// The value of the last attribute with the given name.
fn last_attribute_value(attrs: &Vec<(String, String)>, name: &str) -> (r: Option<String>)
    ensures
        opt_view(r) == last_attribute(attrs@, name@),
{
    let mut found: Option<String> = None;
    for i in 0..attrs.len()
        invariant
            opt_view(found) == last_attribute(attrs@.subrange(0, i as int), name@),
    {
        assert(attrs@.subrange(0, i + 1).drop_last() =~= attrs@.subrange(0, i as int));
        assert(attrs@.subrange(0, i + 1).last() == attrs@[i as int]);
        if str_eq(attrs[i].0.as_str(), name) {
            found = Some(attrs[i].1.clone());
        }
    }
    assert(attrs@.subrange(0, attrs@.len() as int) =~= attrs@);
    found
}

/// The property and content of an element, if it is a `meta` element with both.
fn element_pair(element: &Option<HtmlElement>) -> (r: Option<(String, String)>)
    ensures
        match r {
            Some((p, c)) => element_og_pair(*element) == Some((p@, c@)),
            None => element_og_pair(*element) is None,
        },
{
    match element {
        Some(e) => {
            proof {
                reveal_strlit("meta");
            }
            if str_eq(e.name.as_str(), "meta") {
                let property = last_attribute_value(&e.attributes, "property");
                let content = last_attribute_value(&e.attributes, "content");
                match (property, content) {
                    (Some(p), Some(c)) => Some((p, c)),
                    _ => None,
                }
            } else {
                None
            }
        },
        None => None,
    }
}

/// Adds the metadata of a node and its descendants, in document order, after
/// the metadata already gathered.
fn collect_og_graph(node: &HtmlNode, og: &mut StringMap<Vec<String>>)
    ensures
        og_texts(final(og)@) == og_merge(og_texts(old(og)@), og_graph(*node)),
    decreases node,
{
    let ghost start = og_texts(og@);
    match element_pair(&node.element) {
        Some((p, c)) => {
            let ghost before = og@;
            let ghost key = p@;
            let ghost value = c@;
            og.push_value(p, c);
            proof {
                assert forall|k: Seq<char>| #[trigger] og_texts(og@).contains_key(k) implies og_texts(og@)[k]
                    == og_merge(start, element_og_entry(node.element))[k] by {
                    if k == key {
                        let old_values = if before.contains_key(key) {
                            before[key]
                        } else {
                            Seq::<String>::empty()
                        };
                        assert(string_views(old_values.push(og@[k].last())) =~= string_views(
                            old_values,
                        ) + seq![value]);
                        assert(og@[k] == old_values.push(og@[k].last()));
                    }
                }
                assert(og_texts(og@) =~= og_merge(start, element_og_entry(node.element)));
            }
        },
        None => {
            proof {
                lemma_og_merge_empty(start);
                assert(element_og_entry(node.element) =~= Map::<Seq<char>, Seq<Seq<char>>>::empty());
            }
        },
    }
    let n = node.children.len();
    assert(node.children@.subrange(0, 0) =~= Seq::<HtmlNode>::empty());
    for i in 0..n
        invariant
            n == node.children@.len(),
            og_texts(og@) == og_merge(
                start,
                og_children(element_og_entry(node.element), node.children@.subrange(0, i as int)),
            ),
    {
        let ghost prev = og_texts(og@);
        collect_og_graph(&node.children[i], og);
        proof {
            let kids = node.children@.subrange(0, i + 1);
            assert(kids.subrange(0, i as int) =~= node.children@.subrange(0, i as int));
            assert(kids[i as int] == node.children@[i as int]);
            lemma_og_merge_assoc(
                start,
                og_children(element_og_entry(node.element), node.children@.subrange(0, i as int)),
                og_graph(node.children@[i as int]),
            );
        }
    }
    assert(node.children@.subrange(0, n as int) =~= node.children@);
}

/// The Open Graph metadata of a node and its descendants: each property of a
/// `meta` element with a `property` and a `content` maps to all its contents,
/// in document order.
pub fn extract_og_graph(node: &HtmlNode) -> (og: StringMap<Vec<String>>)
    ensures
        og_texts(og@) == og_graph(*node),
{
    let mut og: StringMap<Vec<String>> = StringMap::new();
    assert(og_texts(og@) =~= Map::<Seq<char>, Seq<Seq<char>>>::empty());
    collect_og_graph(node, &mut og);
    proof {
        lemma_og_merge_empty(og_graph(*node));
    }
    og
}

/// The tree of the HTML document that parsing `html` gives.
pub uninterp spec fn html_document_tree(html: Seq<char>) -> HtmlNode;

#[verifier::external_type_specification]
#[verifier::external_body]
pub struct ExDomNode(markup5ever_rcdom::Node);

/// Converts a `markup5ever_rcdom` node into the library's tree, one node for
/// one node: an element gives its local name and its attributes' local names
/// and values in order, and the children come in document order. Nothing is
/// stated here; `parse_html_tree` names the tree of a whole document.
#[verifier::external_body]
fn dom_tree(node: &Rc<markup5ever_rcdom::Node>) -> HtmlNode {
    let element = match &node.data {
        markup5ever_rcdom::NodeData::Element { name, attrs, .. } => Some(HtmlElement {
            name: name.local.to_string(),
            attributes: attrs.borrow().iter().map(|a| (a.name.local.to_string(), a.value.to_string())).collect(),
        }),
        _ => None,
    };
    HtmlNode { element, children: node.children.borrow().iter().map(|child| dom_tree(child)).collect() }
}

/// Calls `html5ever::parse_document` with an `RcDom` sink and the default
/// options on `html`, and gives the document's tree, converted one node for
/// one node. The tree depends on the text alone: it is named.
#[verifier::external_body]
fn parse_html_tree(html: &str) -> (tree: HtmlNode)
    ensures
        tree == html_document_tree(html@),
{
    dom_tree(&html5ever::parse_document(markup5ever_rcdom::RcDom::default(), Default::default()).one(html).document)
}

/// The Open Graph metadata of an HTML page: the metadata of the tree that
/// parsing the page gives.
pub fn grab_html_og_graph_meta(html: &str) -> (og: StringMap<Vec<String>>)
    ensures
        og_texts(og@) == og_graph(html_document_tree(html@)),
{
    let tree = parse_html_tree(html);
    extract_og_graph(&tree)
}

} // verus!
