//! What the index decides and computes while it walks a directory of notes:
//! which files to read again, the record of a note, and the notes that link
//! to it. Walking the directory and talking to the store are not here.

use crate::db::Document;
use crate::extractor::ExtractedContent;
use crate::text::{
    chars_of, range_is, run_start, same_text, scan_backward, string_of, CharClass,
};
use vstd::prelude::*;

verus! {

/// Whether a file has to be read again: always when `force` is set or the
/// store holds no time for it, else when it was changed after the time that
/// the store holds.
pub fn needs_indexing(force: bool, stored: Option<i64>, modified: i64) -> (needed: bool)
    ensures
        needed == (force || match stored {
            Some(at) => modified > at,
            None => true,
        }),
{
    if force {
        return true;
    }
    match stored {
        Some(at) => modified > at,
        None => true,
    }
}

/// Whether `s` ends with `suffix`.
pub open spec fn ends_with(s: Seq<char>, suffix: Seq<char>) -> bool {
    s.len() >= suffix.len() && s.subrange(s.len() - suffix.len(), s.len() as int) == suffix
}

/// `s` without `suffix` at its end, as often as it stands there.
pub open spec fn without_suffix(s: Seq<char>, suffix: Seq<char>) -> Seq<char>
    decreases s.len(),
{
    if suffix.len() > 0 && ends_with(s, suffix) {
        without_suffix(s.subrange(0, s.len() - suffix.len()), suffix)
    } else {
        s
    }
}

/// The name of the note in the file `file_name`: the name without `.md` at
/// its end.
pub open spec fn name_of_note(file_name: Seq<char>) -> Seq<char> {
    without_suffix(file_name, ".md"@)
}

/// The name of the note that a link leads to: the link without the bars and
/// hash signs at its end.
pub open spec fn target_of(link: Seq<char>) -> Seq<char> {
    link.subrange(0, run_start(link, link.len() as int, CharClass::Either('|', '#')))
}

/// `path`, once for each of `links` that leads to the note `name`.
pub open spec fn mentions(name: Seq<char>, path: Seq<char>, links: Seq<Seq<char>>) -> Seq<
    Seq<char>,
>
    decreases links.len(),
{
    if links.len() == 0 {
        Seq::empty()
    } else if target_of(links.last()) == name {
        mentions(name, path, links.drop_last()).push(path)
    } else {
        mentions(name, path, links.drop_last())
    }
}

/// The paths of the notes that link to the note `name`, in the order of
/// `notes`, each as often as it links to it. An element of `notes` is the
/// path of a note and its links.
pub open spec fn backlinks(name: Seq<char>, notes: Seq<(Seq<char>, Seq<Seq<char>>)>) -> Seq<
    Seq<char>,
>
    decreases notes.len(),
{
    if notes.len() == 0 {
        Seq::empty()
    } else {
        backlinks(name, notes.drop_last()) + mentions(name, notes.last().0, notes.last().1)
    }
}

/// The name of the note in the file `file_name`.
pub fn note_name(file_name: &str) -> (name: String)
    ensures
        name@ == name_of_note(file_name@),
{
    let text = chars_of(file_name);
    let mut end: usize = text.len();
    proof {
        reveal_strlit(".md");
        assert(text@.subrange(0, end as int) == text@);
    }
    while end >= 3 && range_is(&text, end - 3, end, ".md")
        invariant
            end <= text.len(),
            ".md"@.len() == 3,
            without_suffix(text@.subrange(0, end as int), ".md"@) == name_of_note(text@),
        decreases end,
    {
        proof {
            let s = text@.subrange(0, end as int);
            assert(s.subrange(s.len() - 3, s.len() as int) == text@.subrange(end - 3, end as int));
            assert(s.subrange(0, s.len() - 3) == text@.subrange(0, end - 3));
        }
        end -= 3;
    }
    proof {
        let s = text@.subrange(0, end as int);
        if end >= 3 {
            assert(s.subrange(s.len() - 3, s.len() as int) == text@.subrange(end - 3, end as int));
        }
    }
    string_of(&text, 0, end)
}

/// The name of the note that `link` leads to.
pub fn link_target(link: &str) -> (name: String)
    ensures
        name@ == target_of(link@),
{
    let text = chars_of(link);
    let end = scan_backward(&text, text.len(), CharClass::Either('|', '#'));
    string_of(&text, 0, end)
}

/// The paths of the notes that link to the note `name`.
pub fn backlinks_of(name: &str, notes: &Vec<(String, Vec<String>)>) -> (paths: Vec<String>)
    ensures
        paths.deep_view() == backlinks(name@, notes.deep_view()),
{
    let mut paths: Vec<String> = Vec::new();
    let mut n: usize = 0;
    while n < notes.len()
        invariant
            n <= notes.len(),
            paths.deep_view() == backlinks(name@, notes.deep_view().take(n as int)),
        decreases notes.len() - n,
    {
        let path = &notes[n].0;
        let links = &notes[n].1;
        let ghost before = paths.deep_view();
        proof {
            let next = notes.deep_view().take(n + 1);
            assert(next.drop_last() =~= notes.deep_view().take(n as int));
        }
        let mut k: usize = 0;
        while k < links.len()
            invariant
                k <= links.len(),
                paths.deep_view() == before + mentions(name@, path@, links.deep_view().take(
                    k as int,
                )),
            decreases links.len() - k,
        {
            proof {
                let next = links.deep_view().take(k + 1);
                assert(next.drop_last() =~= links.deep_view().take(k as int));
            }
            if same_text(link_target(links[k].as_str()).as_str(), name) {
                paths.push(path.clone());
                proof {
                    let some = mentions(name@, path@, links.deep_view().take(k as int));
                    assert((before + some).push(path@) =~= before + some.push(path@));
                }
            }
            k += 1;
        }
        proof {
            assert(links.deep_view().take(links.len() as int) =~= links.deep_view());
        }
        n += 1;
    }
    proof {
        assert(notes.deep_view().take(notes.len() as int) =~= notes.deep_view());
    }
    paths
}

/// The record of the note in the file `file_name` of the folder `folder`:
/// what was read from the note, the name of the note, and no backlinks yet.
pub fn new_document(
    path: String,
    folder: String,
    file_name: &str,
    size: u64,
    ctime: i64,
    mtime: i64,
    extracted: ExtractedContent,
) -> (doc: Document)
    ensures
        doc.path == path,
        doc.folder == folder,
        doc.name@ == name_of_note(file_name@),
        doc.ext@ == "md"@,
        doc.size == size,
        doc.ctime == ctime,
        doc.mtime == mtime,
        doc.content == extracted.content,
        doc.tags == extracted.tags,
        doc.links == extracted.links,
        doc.backlinks@.len() == 0,
        doc.embeds == extracted.embeds,
        doc.properties == extracted.frontmatter,
{
    Document {
        path,
        folder,
        name: note_name(file_name),
        ext: "md".to_owned(),
        size,
        ctime,
        mtime,
        content: extracted.content,
        tags: extracted.tags,
        links: extracted.links,
        backlinks: Vec::new(),
        embeds: extracted.embeds,
        properties: extracted.frontmatter,
    }
}

} // verus!
