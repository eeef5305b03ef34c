//! What a markdown note holds besides its text: the properties of its front
//! matter, its tags, and the notes and files that it links to and embeds.

use crate::json::{json_text, null_value};
use crate::text::{chars_of, run_end, scan_forward, string_of, strip_bounds, stripped, CharClass};
use vstd::prelude::*;

verus! {

/// The JSON text of the value that `serde_yaml::from_str` reads from the
/// YAML document `text`, if it reads one.
pub uninterp spec fn yaml_json(text: Seq<char>) -> Option<Seq<char>>;

/// The matches of the regular expression `pattern` in `text` that
/// `regex::Regex::find_iter` gives, in their order; nothing if `pattern` is
/// no regular expression.
pub uninterp spec fn regex_matches(pattern: Seq<char>, text: Seq<char>) -> Option<Seq<Seq<char>>>;

/// For each match of the regular expression `pattern` in `text` that
/// `regex::Regex::captures_iter` gives, in their order, what its first group
/// matched, if it took part; nothing if `pattern` is no regular expression.
pub uninterp spec fn regex_groups(pattern: Seq<char>, text: Seq<char>) -> Option<
    Seq<Option<Seq<char>>>,
>;

/// Trusted: calls `serde_yaml::from_str` for a `serde_json::Value` and drops
/// the error. Whether it reads a value, and what that value holds, depends
/// on the text alone and is called [`yaml_json`].
#[verifier::external_body]
fn parse_yaml(text: &str) -> (value: Option<serde_json::Value>)
    ensures
        match value {
            Some(read) => yaml_json(text@) == Some(json_text(read)),
            None => yaml_json(text@) is None,
        },
{
    serde_yaml::from_str::<serde_json::Value>(text).ok()
}

/// Trusted: compiles `pattern` with `regex::Regex::new` and collects the text
/// of each match of `regex::Regex::find_iter` in `text`. The result depends
/// on the two texts alone and is called [`regex_matches`].
#[verifier::external_body]
fn find_all(pattern: &str, text: &str) -> (found: Option<Vec<String>>)
    ensures
        found.deep_view() == regex_matches(pattern@, text@),
{
    match regex::Regex::new(pattern) {
        Ok(re) => Some(re.find_iter(text).map(|m| m.as_str().to_string()).collect()),
        Err(_) => None,
    }
}

/// Trusted: compiles `pattern` with `regex::Regex::new` and collects, for
/// each match of `regex::Regex::captures_iter` in `text`, the text of its
/// first group. The result depends on the two texts alone and is called
/// [`regex_groups`].
#[verifier::external_body]
fn capture_all(pattern: &str, text: &str) -> (found: Option<Vec<Option<String>>>)
    ensures
        found.deep_view() == regex_groups(pattern@, text@),
{
    match regex::Regex::new(pattern) {
        Ok(re) => Some(
            re.captures_iter(text).map(|cap| cap.get(1).map(|m| m.as_str().to_string())).collect(),
        ),
        Err(_) => None,
    }
}

/// Whether three dashes stand at index `at` of `s`.
pub open spec fn is_marker(s: Seq<char>, at: int) -> bool {
    0 <= at && at + 3 <= s.len() && s[at] == '-' && s[at + 1] == '-' && s[at + 2] == '-'
}

/// The first index at or behind `from` at which three dashes stand, or the
/// length of `s` if there is none.
pub open spec fn marker_from(s: Seq<char>, from: int) -> int
    decreases s.len() - from,
{
    if from < 0 || from + 3 > s.len() {
        s.len() as int
    } else if is_marker(s, from) {
        from
    } else {
        marker_from(s, from + 1)
    }
}

/// The two parts of a note with front matter: the text between the three
/// dashes that the note starts with and the next three dashes, and the text
/// behind those. A note that does not start with three dashes, or in which no
/// more follow, has no front matter.
pub open spec fn framed(content: Seq<char>) -> Option<(Seq<char>, Seq<char>)> {
    let close = marker_from(content, 3);
    if is_marker(content, 0) && close < content.len() {
        Some((content.subrange(3, close), content.subrange(close + 3, content.len() as int)))
    } else {
        None
    }
}

/// The properties that the front matter of a note gives, as JSON text, if
/// the note has front matter and it is a YAML document.
pub open spec fn front_matter(content: Seq<char>) -> Option<Seq<char>> {
    match framed(content) {
        Some(parts) => yaml_json(parts.0),
        None => None,
    }
}

/// The properties of a note as JSON text: those of its front matter, or
/// `null` without front matter that can be read.
pub open spec fn properties(content: Seq<char>) -> Seq<char> {
    match front_matter(content) {
        Some(json) => json,
        None => "null"@,
    }
}

/// The text of a note: what stands behind its front matter, without the
/// white space at its two ends, or all of it if it has no front matter that
/// can be read.
pub open spec fn body(content: Seq<char>) -> Seq<char> {
    match framed(content) {
        Some(parts) => {
            if yaml_json(parts.0) is Some {
                stripped(parts.1, CharClass::Space)
            } else {
                content
            }
        },
        None => content,
    }
}

/// The regular expression for a tag: a hash sign and the word characters,
/// hyphens and slashes behind it.
pub open spec fn tag_pattern() -> Seq<char> {
    "#[\\w\\-/]+"@
}

/// The regular expression for a link: what stands between `[[` and `]]`.
pub open spec fn link_pattern() -> Seq<char> {
    "\\[\\[([^\\]]+)\\]\\]"@
}

/// The regular expression for an embedded file: a link behind an exclamation
/// mark.
pub open spec fn embed_pattern() -> Seq<char> {
    "!\\[\\[([^\\]]+)\\]\\]"@
}

/// `s` without the hash signs that it starts with.
pub open spec fn without_hash(s: Seq<char>) -> Seq<char> {
    s.subrange(run_end(s, 0, CharClass::Only('#')), s.len() as int)
}

/// The elements of `found` that are there, in their order.
pub open spec fn present(found: Seq<Option<Seq<char>>>) -> Seq<Seq<char>>
    decreases found.len(),
{
    if found.len() == 0 {
        Seq::empty()
    } else {
        match found.last() {
            Some(text) => present(found.drop_last()).push(text),
            None => present(found.drop_last()),
        }
    }
}

/// The tags of the text `body`: each match of [`tag_pattern`] without its
/// hash sign, as often as it occurs.
pub open spec fn tags(body: Seq<char>) -> Seq<Seq<char>> {
    match regex_matches(tag_pattern(), body) {
        Some(found) => found.map_values(|tag: Seq<char>| without_hash(tag)),
        None => Seq::empty(),
    }
}

/// What the first group of `pattern` matched in each match in `body`.
pub open spec fn targets(pattern: Seq<char>, body: Seq<char>) -> Seq<Seq<char>> {
    match regex_groups(pattern, body) {
        Some(found) => present(found),
        None => Seq::empty(),
    }
}

/// What a note holds.
pub struct ExtractedContent {
    /// The text behind the front matter.
    pub content: String,
    /// The properties of the front matter; `null` without front matter.
    pub frontmatter: serde_json::Value,
    pub tags: Vec<String>,
    /// The targets of the links, those of embedded files included.
    pub links: Vec<String>,
    /// The targets of the embedded files.
    pub embeds: Vec<String>,
}

/// The reader of markdown notes.
pub struct Extractor;

impl Extractor {
    /// Reads the front matter, the tags, the links and the embedded files of
    /// a note. Tags and links are looked for behind the front matter only.
    pub fn extract(content: &str) -> (extracted: ExtractedContent)
        ensures
            extracted.content@ == body(content@),
            json_text(extracted.frontmatter) == properties(content@),
            extracted.tags.deep_view() == tags(body(content@)),
            extracted.links.deep_view() == targets(link_pattern(), body(content@)),
            extracted.embeds.deep_view() == targets(embed_pattern(), body(content@)),
    {
        let (frontmatter, content) = Self::parse_frontmatter(content);
        let tags = Self::extract_tags(content.as_str());
        let links = Self::extract_wikilinks(content.as_str());
        let embeds = Self::extract_embeds(content.as_str());
        ExtractedContent { content, frontmatter, tags, links, embeds }
    }

    /// The first index at or behind `from` at which three dashes stand.
    fn find_marker(text: &Vec<char>, from: usize) -> (at: usize)
        ensures
            at == marker_from(text@, from as int),
            at <= text.len(),
            at < text.len() ==> from <= at && at + 3 <= text.len(),
    {
        let mut i: usize = from;
        while i < text.len() && text.len() - i >= 3
            invariant
                from <= i,
                marker_from(text@, i as int) == marker_from(text@, from as int),
            decreases text.len() - i,
        {
            if text[i] == '-' && text[i + 1] == '-' && text[i + 2] == '-' {
                return i;
            }
            i += 1;
        }
        text.len()
    }

    /// The properties of the front matter and the text behind it.
    fn parse_frontmatter(content: &str) -> (parts: (serde_json::Value, String))
        ensures
            parts.1@ == body(content@),
            json_text(parts.0) == properties(content@),
    {
        let text = chars_of(content);
        if text.len() >= 3 && text[0] == '-' && text[1] == '-' && text[2] == '-' {
            let close = Self::find_marker(&text, 3);
            if close < text.len() {
                let yaml = string_of(&text, 3, close);
                if let Some(props) = parse_yaml(yaml.as_str()) {
                    let rest = chars_of(string_of(&text, close + 3, text.len()).as_str());
                    let (a, b) = strip_bounds(&rest, CharClass::Space);
                    return (props, string_of(&rest, a, b));
                }
            }
        }
        (null_value(), content.to_owned())
    }

    /// The tags of a text.
    fn extract_tags(content: &str) -> (found: Vec<String>)
        ensures
            found.deep_view() == tags(content@),
    {
        let mut found: Vec<String> = Vec::new();
        if let Some(matches) = find_all("#[\\w\\-/]+", content) {
            let mut i: usize = 0;
            while i < matches.len()
                invariant
                    i <= matches.len(),
                    found.len() == i,
                    Some(matches.deep_view()) == regex_matches(tag_pattern(), content@),
                    forall|j: int|
                        0 <= j < i ==> found@[j]@ == without_hash(matches.deep_view()[j]),
                decreases matches.len() - i,
            {
                let tag = chars_of(matches[i].as_str());
                let start = scan_forward(&tag, 0, CharClass::Only('#'));
                found.push(string_of(&tag, start, tag.len()));
                i += 1;
            }
        }
        found
    }

    /// The first groups of the matches of `pattern` in `content`.
    fn extract_targets(pattern: &str, content: &str) -> (found: Vec<String>)
        ensures
            found.deep_view() == targets(pattern@, content@),
    {
        let mut found: Vec<String> = Vec::new();
        if let Some(groups) = capture_all(pattern, content) {
            let mut i: usize = 0;
            while i < groups.len()
                invariant
                    i <= groups.len(),
                    found.deep_view() == present(groups.deep_view().take(i as int)),
                decreases groups.len() - i,
            {
                proof {
                    let next = groups.deep_view().take(i + 1);
                    assert(next.drop_last() =~= groups.deep_view().take(i as int));
                }
                if let Some(text) = &groups[i] {
                    found.push(text.clone());
                }
                i += 1;
            }
            assert(groups.deep_view().take(groups.len() as int) =~= groups.deep_view());
        }
        found
    }

    /// The targets of the links of a text.
    fn extract_wikilinks(content: &str) -> (found: Vec<String>)
        ensures
            found.deep_view() == targets(link_pattern(), content@),
    {
        Self::extract_targets("\\[\\[([^\\]]+)\\]\\]", content)
    }

    /// The targets of the embedded files of a text.
    fn extract_embeds(content: &str) -> (found: Vec<String>)
        ensures
            found.deep_view() == targets(embed_pattern(), content@),
    {
        Self::extract_targets("!\\[\\[([^\\]]+)\\]\\]", content)
    }
}

} // verus!
