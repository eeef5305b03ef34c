//! The record of a document as the store holds it, and the values that go
//! into the store and come out of it. The store itself is not here: these
//! functions prepare what is sent to it and read what it sent back.

use crate::json::{
    decode_list, encode_list, encode_value, json_list_text, json_string_list, json_text,
    json_writes,
};
use crate::text::{decimal, decimal_text, signed_decimal, signed_decimal_text};
use vstd::prelude::*;

verus! {

/// A document as the index holds it.
#[derive(Debug, Clone)]
pub struct Document {
    pub path: String,
    pub folder: String,
    pub name: String,
    pub ext: String,
    pub size: u64,
    /// When the file was made, in seconds since 1970.
    pub ctime: i64,
    /// When the file was last changed, in seconds since 1970.
    pub mtime: i64,
    pub content: String,
    pub tags: Vec<String>,
    pub links: Vec<String>,
    pub backlinks: Vec<String>,
    pub embeds: Vec<String>,
    pub properties: serde_json::Value,
}

/// The thirteen values that are written to the table for one document, in
/// the order of its columns. The lists and the properties are JSON texts.
#[derive(Debug)]
pub struct DocumentRow {
    pub path: String,
    pub folder: String,
    pub name: String,
    pub ext: String,
    pub size: i64,
    pub ctime: i64,
    pub mtime: i64,
    pub content: String,
    pub tags: String,
    pub links: String,
    pub backlinks: String,
    pub embeds: String,
    pub properties: String,
}

/// Whether `row` holds the values of `doc` with the given JSON texts for its
/// lists and its properties. The size is taken as a signed number of 64 bits.
pub open spec fn row_with(
    row: DocumentRow,
    doc: Document,
    tags: Seq<char>,
    links: Seq<char>,
    backlinks: Seq<char>,
    embeds: Seq<char>,
    properties: Seq<char>,
) -> bool {
    &&& row.path@ == doc.path@
    &&& row.folder@ == doc.folder@
    &&& row.name@ == doc.name@
    &&& row.ext@ == doc.ext@
    &&& row.size == doc.size as i64
    &&& row.ctime == doc.ctime
    &&& row.mtime == doc.mtime
    &&& row.content@ == doc.content@
    &&& row.tags@ == tags
    &&& row.links@ == links
    &&& row.backlinks@ == backlinks
    &&& row.embeds@ == embeds
    &&& row.properties@ == properties
}

/// Whether the serializer gives a JSON text for the properties of `doc`. For
/// its four lists it always gives one.
pub open spec fn can_be_written(doc: Document) -> bool {
    json_writes(doc.properties)
}

/// Whether `row` holds the values of `doc`, its lists and its properties as
/// the JSON texts that the serializer gives for them.
pub open spec fn row_of(row: DocumentRow, doc: Document) -> bool {
    row_with(
        row,
        doc,
        json_list_text(doc.tags.deep_view()),
        json_list_text(doc.links.deep_view()),
        json_list_text(doc.backlinks.deep_view()),
        json_list_text(doc.embeds.deep_view()),
        json_text(doc.properties),
    )
}

/// The row of `doc` for five outcomes of the serializer, those for its tags,
/// links, backlinks, embedded files and properties: the row with the five
/// texts if all succeeded, else the first of the errors in that order.
pub fn row_from(
    doc: &Document,
    tags: Result<String, serde_json::Error>,
    links: Result<String, serde_json::Error>,
    backlinks: Result<String, serde_json::Error>,
    embeds: Result<String, serde_json::Error>,
    properties: Result<String, serde_json::Error>,
) -> (outcome: Result<DocumentRow, serde_json::Error>)
    ensures
        match (tags, links, backlinks, embeds, properties) {
            (Ok(t), Ok(l), Ok(b), Ok(e), Ok(p)) => outcome matches Ok(row) && row_with(
                row,
                *doc,
                t@,
                l@,
                b@,
                e@,
                p@,
            ),
            (Err(error), _, _, _, _) => outcome == Err::<DocumentRow, serde_json::Error>(error),
            (_, Err(error), _, _, _) => outcome == Err::<DocumentRow, serde_json::Error>(error),
            (_, _, Err(error), _, _) => outcome == Err::<DocumentRow, serde_json::Error>(error),
            (_, _, _, Err(error), _) => outcome == Err::<DocumentRow, serde_json::Error>(error),
            (_, _, _, _, Err(error)) => outcome == Err::<DocumentRow, serde_json::Error>(error),
        },
{
    let tags = match tags {
        Ok(text) => text,
        Err(error) => {
            return Err(error);
        },
    };
    let links = match links {
        Ok(text) => text,
        Err(error) => {
            return Err(error);
        },
    };
    let backlinks = match backlinks {
        Ok(text) => text,
        Err(error) => {
            return Err(error);
        },
    };
    let embeds = match embeds {
        Ok(text) => text,
        Err(error) => {
            return Err(error);
        },
    };
    let properties = match properties {
        Ok(text) => text,
        Err(error) => {
            return Err(error);
        },
    };
    Ok(
        DocumentRow {
            path: doc.path.clone(),
            folder: doc.folder.clone(),
            name: doc.name.clone(),
            ext: doc.ext.clone(),
            size: #[verifier::truncate]
            (doc.size as i64),
            ctime: doc.ctime,
            mtime: doc.mtime,
            content: doc.content.clone(),
            tags,
            links,
            backlinks,
            embeds,
            properties,
        },
    )
}

/// The values that are written to the table for `doc`. It succeeds exactly
/// where the serializer gives a text for the properties, and then gives the
/// row with the JSON texts of the four lists and of the properties.
pub fn document_row(doc: &Document) -> (outcome: Result<DocumentRow, serde_json::Error>)
    ensures
        can_be_written(*doc) ==> (outcome matches Ok(row) && row_of(row, *doc)),
        !can_be_written(*doc) ==> outcome is Err,
{
    let tags = encode_list(&doc.tags);
    let links = encode_list(&doc.links);
    let backlinks = encode_list(&doc.backlinks);
    let embeds = encode_list(&doc.embeds);
    let properties = encode_value(&doc.properties);
    row_from(doc, tags, links, backlinks, embeds, properties)
}

/// The links that the JSON text `text` lists; none if it is no list of
/// strings.
pub open spec fn listed_links(text: Seq<char>) -> Seq<Seq<char>> {
    match json_string_list(text) {
        Some(links) => links,
        None => Seq::empty(),
    }
}

/// Reads the links of a document from the JSON text that the store gives
/// for them.
pub fn links_from_json(text: &str) -> (links: Vec<String>)
    ensures
        links.deep_view() == listed_links(text@),
{
    match decode_list(text) {
        Some(links) => links,
        None => Vec::new(),
    }
}

/// The query `sql` with a limit of `limit` rows.
pub open spec fn limited(sql: Seq<char>, limit: nat) -> Seq<char> {
    sql + " LIMIT "@ + decimal(limit)
}

/// Puts a limit of `limit` rows behind the query `sql`.
pub fn with_limit(sql: &str, limit: usize) -> (text: String)
    ensures
        text@ == limited(sql@, limit as nat),
{
    let mut text = sql.to_owned();
    text.append(" LIMIT ");
    text.append(decimal_text(limit as u64).as_str());
    text
}

/// A value of a result row, as far as its text depends on plain values.
#[derive(Debug)]
pub enum Cell {
    Text(String),
    Int(i32),
    BigInt(i64),
    Boolean(bool),
    /// A point in time as the number that the store holds for it.
    Timestamp(i64),
    /// A value that is shown by a text made elsewhere, such as a number
    /// with a fraction.
    Shown(String),
    /// A list, each element as its text.
    List(Vec<String>),
    /// Every other value.
    Other,
}

/// The text of a list for an outcome of the serializer: its text, or nothing
/// where it failed.
pub fn list_text(outcome: Result<String, serde_json::Error>) -> (text: String)
    ensures
        match outcome {
            Ok(json) => text@ == json@,
            Err(_) => text@ == Seq::<char>::empty(),
        },
{
    match outcome {
        Ok(json) => json,
        Err(_) => String::new(),
    }
}

/// The text that stands for a value of a result row: a text as it is, a
/// number in decimal digits, a truth value as `true` or `false`, a list as
/// the JSON array of strings that the serializer gives for it, and nothing
/// for every other value.
pub open spec fn shown_text(cell: Cell) -> Seq<char> {
    match cell {
        Cell::Text(text) => text@,
        Cell::Int(n) => signed_decimal(n as int),
        Cell::BigInt(n) => signed_decimal(n as int),
        Cell::Boolean(b) => if b {
            "true"@
        } else {
            "false"@
        },
        Cell::Timestamp(at) => signed_decimal(at as int),
        Cell::Shown(text) => text@,
        Cell::List(items) => json_list_text(items.deep_view()),
        Cell::Other => Seq::empty(),
    }
}

/// The text that stands for a value of a result row.
pub fn cell_text(cell: &Cell) -> (text: String)
    ensures
        text@ == shown_text(*cell),
{
    match cell {
        Cell::Text(text) => text.clone(),
        Cell::Int(n) => signed_decimal_text(*n as i64),
        Cell::BigInt(n) => signed_decimal_text(*n),
        Cell::Boolean(b) => if *b {
            "true".to_owned()
        } else {
            "false".to_owned()
        },
        Cell::Timestamp(at) => signed_decimal_text(*at),
        Cell::Shown(text) => text.clone(),
        Cell::List(items) => list_text(encode_list(items)),
        Cell::Other => String::new(),
    }
}

} // verus!
