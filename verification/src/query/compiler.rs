//! The compiler: from the tree of a filter expression to the text of a SQL
//! query over the table `documents`.

use crate::query::parser::{parse, parse_text, AstNode, AstView};
use crate::text::{
    chars_of, count_char, join, joined, lemma_absent, lemma_first_occurrence,
    lemma_occurrences_concat, lemma_present_nowhere, lemma_run_end_unique, occurrences, pieces,
    push_range, range_is, run_end, same_text, scan_forward, split_commas, string_of, strip_bounds,
    stripped, trim, CharClass,
};
use vstd::prelude::*;

verus! {

/// The columns that describe the file of a document.
pub open spec fn file_fields() -> Seq<Seq<char>> {
    seq!["path"@, "folder"@, "name"@, "ext"@, "size"@, "ctime"@, "mtime"@]
}

/// The columns that describe the note in a document.
pub open spec fn note_fields() -> Seq<Seq<char>> {
    seq!["content"@, "tags"@, "links"@, "backlinks"@, "embeds"@, "properties"@]
}

/// Whether `name` is a column of the file.
pub open spec fn is_file_field(name: Seq<char>) -> bool {
    file_fields().contains(name)
}

/// Whether `name` is a column of the note.
pub open spec fn is_note_field(name: Seq<char>) -> bool {
    note_fields().contains(name)
}

/// The expression that reads the property `key` of a document.
pub open spec fn property_lookup(key: Seq<char>) -> Seq<char> {
    "json_extract_string(properties, '$."@ + key + "')"@
}

/// The SQL expression that the field reference `name` stands for.
///
/// A name without a dot is a column if it is the name of one, else a
/// property. A name with one dot is read as namespace and field: `file.` and
/// a column of the file is that column; `note.` and a column of the note is
/// that column, `note.` and anything else is a property. Every other name
/// with a dot stands for itself.
pub open spec fn resolved(name: Seq<char>) -> Seq<char> {
    let dots = occurrences(name, '.');
    if dots == 0 {
        if is_file_field(name) || is_note_field(name) {
            name
        } else {
            property_lookup(name)
        }
    } else if dots == 1 {
        let dot = run_end(name, 0, CharClass::Except('.'));
        let prefix = name.subrange(0, dot);
        let suffix = name.subrange(dot + 1, name.len() as int);
        if prefix == "file"@ && is_file_field(suffix) {
            suffix
        } else if prefix == "note"@ {
            if is_note_field(suffix) {
                suffix
            } else {
                property_lookup(suffix)
            }
        } else {
            name
        }
    } else {
        name
    }
}

/// The SQL operator for the operator `op` of a tree. What is not an operator
/// of the language is read as equality.
pub open spec fn sql_operator(op: Seq<char>) -> Seq<char> {
    if op == "AND"@ {
        "AND"@
    } else if op == "OR"@ {
        "OR"@
    } else if op == "=="@ {
        "="@
    } else if op == "!="@ {
        "!="@
    } else if op == ">"@ {
        ">"@
    } else if op == "<"@ {
        "<"@
    } else if op == ">="@ {
        ">="@
    } else if op == "<="@ {
        "<="@
    } else if op == "=~"@ {
        "LIKE"@
    } else {
        "="@
    }
}

/// `s` with each apostrophe written twice.
pub open spec fn doubled_quotes(s: Seq<char>) -> Seq<char>
    decreases s.len(),
{
    if s.len() == 0 {
        Seq::empty()
    } else if s.last() == '\'' {
        doubled_quotes(s.drop_last()) + seq!['\'', '\'']
    } else {
        doubled_quotes(s.drop_last()).push(s.last())
    }
}

/// The SQL string literal with the value `s`.
pub open spec fn quoted(s: Seq<char>) -> Seq<char> {
    "'"@ + doubled_quotes(s) + "'"@
}

/// The string literal that a call of `has` looks for, for a value that is
/// no string literal and compiles to `text`: the text between the
/// apostrophes at its two ends, in one pair of apostrophes.
pub open spec fn as_literal(text: Seq<char>) -> Seq<char> {
    "'"@ + stripped(text, CharClass::Only('\'')) + "'"@
}

/// The SQL text of the tree `node`.
///
/// A call of `has` with two arguments asks whether the second is an element
/// of the first. A string literal as second argument is the element that is
/// looked for, character for character: it is written as the literal that it
/// is, each of its apostrophes doubled. Every other second argument is
/// compiled and taken as a string, see [`as_literal`]. Every other call is
/// the condition that always holds.
pub open spec fn compiled(node: AstView) -> Seq<char>
    decreases node,
{
    match node {
        AstView::Binary { left, op, right } => compiled(*left) + " "@ + sql_operator(op) + " "@
            + compiled(*right),
        AstView::Field(name) => resolved(name),
        AstView::StringLiteral(value) => quoted(value),
        AstView::NumberLiteral(value) => value,
        AstView::FunctionCall { name, args } => {
            if name == "has"@ && args.len() == 2 {
                let element = match args[1] {
                    AstView::StringLiteral(value) => quoted(value),
                    _ => as_literal(compiled(args[1])),
                };
                element + " = ANY("@ + compiled(args[0]) + ")"@
            } else {
                "1=1"@
            }
        },
        AstView::Grouping(inner) => "("@ + compiled(*inner) + ")"@,
    }
}

/// The column that one piece of a list of fields selects.
pub open spec fn column(piece: Seq<char>) -> Seq<char> {
    resolved(stripped(piece, CharClass::Space))
}

/// The columns that the list `fields` selects: every column of the table for
/// `*`, else one for each piece between the commas.
pub open spec fn columns(fields: Seq<char>) -> Seq<Seq<char>> {
    if fields == "*"@ {
        file_fields() + note_fields()
    } else {
        pieces(fields).map_values(|piece: Seq<char>| column(piece))
    }
}

/// The query that selects `fields` from the documents that `filter` admits.
pub open spec fn query_text(filter: Seq<char>, fields: Seq<char>) -> Seq<char> {
    "SELECT "@ + joined(columns(fields), ", "@) + " FROM documents WHERE "@ + compiled(
        parse_text(filter),
    )
}

/// How a name behind the namespace `prefix` is cut at the dot: the namespace
/// before it, the name behind it.
proof fn lemma_namespace_split(prefix: Seq<char>, name: Seq<char>)
    requires
        occurrences(prefix, '.') == 0,
        occurrences(name, '.') == 0,
    ensures
        occurrences(prefix + seq!['.'] + name, '.') == 1,
        run_end(prefix + seq!['.'] + name, 0, CharClass::Except('.')) == prefix.len(),
        (prefix + seq!['.'] + name).subrange(0, prefix.len() as int) == prefix,
        (prefix + seq!['.'] + name).subrange(
            prefix.len() as int + 1,
            (prefix + seq!['.'] + name).len() as int,
        ) == name,
{
    let dot = seq!['.'];
    let full = prefix + dot + name;
    assert(dot.drop_last() =~= Seq::<char>::empty());
    assert(occurrences(Seq::<char>::empty(), '.') == 0);
    lemma_occurrences_concat(prefix, dot, '.');
    lemma_occurrences_concat(prefix + dot, name, '.');
    lemma_present_nowhere(prefix, '.');
    lemma_run_end_unique(full, 0, CharClass::Except('.'), prefix.len() as int);
}

/// The resolution of a name without a dot, bare and in the two namespaces:
/// bare, it is a column if it names one and a property if not; behind `file.`
/// it is a column of the file or the whole reference as written; behind
/// `note.` it is a column of the note or a property.
pub proof fn lemma_resolved_in_namespaces(name: Seq<char>)
    requires
        occurrences(name, '.') == 0,
    ensures
        resolved(name) == if is_file_field(name) || is_note_field(name) {
            name
        } else {
            property_lookup(name)
        },
        resolved("file."@ + name) == if is_file_field(name) {
            name
        } else {
            "file."@ + name
        },
        resolved("note."@ + name) == if is_note_field(name) {
            name
        } else {
            property_lookup(name)
        },
{
    reveal_strlit("file.");
    reveal_strlit("note.");
    reveal_strlit("file");
    reveal_strlit("note");
    let file = seq!['f', 'i', 'l', 'e'];
    let note = seq!['n', 'o', 't', 'e'];
    assert("file"@ =~= file);
    assert("note"@ =~= note);
    assert("file."@ =~= file + seq!['.']);
    assert("note."@ =~= note + seq!['.']);
    assert(occurrences(file, '.') == 0) by {
        lemma_absent(file, '.');
    }
    assert(occurrences(note, '.') == 0) by {
        lemma_absent(note, '.');
    }
    lemma_namespace_split(file, name);
    lemma_namespace_split(note, name);
}

/// The value that a SQL string literal with the body `body` denotes: a pair
/// of apostrophes stands for one, every other character for itself. A body
/// with a single apostrophe in it denotes nothing.
pub open spec fn denoted(body: Seq<char>) -> Option<Seq<char>>
    decreases body.len(),
{
    if body.len() == 0 {
        Some(Seq::empty())
    } else if body[0] != '\'' {
        match denoted(body.skip(1)) {
            Some(rest) => Some(seq![body[0]] + rest),
            None => None,
        }
    } else if body.len() >= 2 && body[1] == '\'' {
        match denoted(body.skip(2)) {
            Some(rest) => Some(seq!['\''] + rest),
            None => None,
        }
    } else {
        None
    }
}

/// Doubling the apostrophes of a text doubles them in each of its parts.
pub proof fn lemma_doubled_quotes_concat(a: Seq<char>, b: Seq<char>)
    ensures
        doubled_quotes(a + b) == doubled_quotes(a) + doubled_quotes(b),
    decreases b.len(),
{
    if b.len() > 0 {
        assert((a + b).drop_last() == a + b.drop_last());
        lemma_doubled_quotes_concat(a, b.drop_last());
    }
}

/// The doubled text of one character.
proof fn lemma_doubled_quotes_single(c: char)
    ensures
        doubled_quotes(seq![c]) == if c == '\'' {
            seq!['\'', '\'']
        } else {
            seq![c]
        },
{
    assert(doubled_quotes(seq![c].drop_last()) =~= Seq::<char>::empty());
}

/// Doubling adds one character for each apostrophe and doubles their number.
proof fn lemma_doubled_quotes_counts(value: Seq<char>)
    ensures
        doubled_quotes(value).len() == value.len() + occurrences(value, '\''),
        occurrences(doubled_quotes(value), '\'') == 2 * occurrences(value, '\''),
    decreases value.len(),
{
    if value.len() > 0 {
        let front = doubled_quotes(value.drop_last());
        lemma_doubled_quotes_counts(value.drop_last());
        let body = doubled_quotes(value);
        if value.last() == '\'' {
            let once = front.push('\'');
            assert(body.drop_last() =~= once);
            assert(once.drop_last() =~= front);
            assert(occurrences(body, '\'') == occurrences(once, '\'') + 1);
        } else {
            assert(body.drop_last() =~= front);
        }
    }
}

/// The doubled text of a value denotes that value.
proof fn lemma_doubled_quotes_denote(value: Seq<char>)
    ensures
        denoted(doubled_quotes(value)) == Some(value),
    decreases value.len(),
{
    if value.len() > 0 {
        let first = seq![value[0]];
        let rest = value.skip(1);
        assert(first + rest =~= value);
        lemma_doubled_quotes_concat(first, rest);
        lemma_doubled_quotes_single(value[0]);
        lemma_doubled_quotes_denote(rest);
        let body = doubled_quotes(value);
        if value[0] == '\'' {
            assert(body.skip(2) =~= doubled_quotes(rest));
        } else {
            assert(body.skip(1) =~= doubled_quotes(rest));
        }
    }
}

/// In the compiled text of a string literal every apostrophe of the value is
/// written twice and nothing else is changed: the text has one character more
/// for each apostrophe of the value and twice as many apostrophes, and the
/// value can be read back from it.
pub proof fn lemma_quoted_doubles_apostrophes(value: Seq<char>)
    ensures
        compiled(AstView::StringLiteral(value)) == "'"@ + doubled_quotes(value) + "'"@,
        doubled_quotes(value).len() == value.len() + occurrences(value, '\''),
        occurrences(doubled_quotes(value), '\'') == 2 * occurrences(value, '\''),
        denoted(doubled_quotes(value)) == Some(value),
{
    lemma_doubled_quotes_counts(value);
    lemma_doubled_quotes_denote(value);
}

/// A call of `has` looks for its string literal as it is: the element is
/// written with every apostrophe doubled, those at its two ends too, and can
/// be read back from the text.
pub proof fn lemma_has_keeps_its_literal(field: AstView, value: Seq<char>)
    ensures
        compiled(
            AstView::FunctionCall {
                name: "has"@,
                args: seq![field, AstView::StringLiteral(value)],
            },
        ) == quoted(value) + " = ANY("@ + compiled(field) + ")"@,
        denoted(doubled_quotes(value)) == Some(value),
{
    lemma_quoted_doubles_apostrophes(value);
}

/// For the field list `*` the query selects every column of the table by
/// name, the seven of the file and then the six of the note, whatever the
/// filter is.
pub proof fn lemma_star_selects_every_column(filter: Seq<char>)
    ensures
        query_text(filter, "*"@) == "SELECT "@ + joined(file_fields() + note_fields(), ", "@)
            + " FROM documents WHERE "@ + compiled(parse_text(filter)),
        (file_fields() + note_fields()).len() == 13,
        file_fields() + note_fields() == seq![
            "path"@,
            "folder"@,
            "name"@,
            "ext"@,
            "size"@,
            "ctime"@,
            "mtime"@,
            "content"@,
            "tags"@,
            "links"@,
            "backlinks"@,
            "embeds"@,
            "properties"@,
        ],
{
}

/// Compiling has no hidden state: the text depends on the tree alone, so two
/// trees with the same content, and two runs on one tree, give the same text.
pub proof fn lemma_compile_is_repeatable(first: AstNode, second: AstNode)
    requires
        first@ == second@,
    ensures
        compiled(first@) == compiled(second@),
{
}

/// Tests whether `text[from..to]` is a column of the file.
fn names_file_field(text: &Vec<char>, from: usize, to: usize) -> (b: bool)
    requires
        from <= to <= text.len(),
    ensures
        b == is_file_field(text@.subrange(from as int, to as int)),
{
    range_is(text, from, to, "path") || range_is(text, from, to, "folder")
        || range_is(text, from, to, "name") || range_is(text, from, to, "ext")
        || range_is(text, from, to, "size") || range_is(text, from, to, "ctime")
        || range_is(text, from, to, "mtime")
}

/// Tests whether `text[from..to]` is a column of the note.
fn names_note_field(text: &Vec<char>, from: usize, to: usize) -> (b: bool)
    requires
        from <= to <= text.len(),
    ensures
        b == is_note_field(text@.subrange(from as int, to as int)),
{
    range_is(text, from, to, "content") || range_is(text, from, to, "tags")
        || range_is(text, from, to, "links") || range_is(text, from, to, "backlinks")
        || range_is(text, from, to, "embeds") || range_is(text, from, to, "properties")
}

/// The expression that reads the property `text[from..to]`.
fn lookup_of(text: &Vec<char>, from: usize, to: usize) -> (sql: String)
    requires
        from <= to <= text.len(),
    ensures
        sql@ == property_lookup(text@.subrange(from as int, to as int)),
{
    let mut sql = "json_extract_string(properties, '$.".to_owned();
    push_range(&mut sql, text, from, to);
    sql.append("')");
    sql
}

/// Resolves a field reference to the SQL expression that it stands for.
pub fn resolve_field(field: &str) -> (sql: String)
    ensures
        sql@ == resolved(field@),
{
    let text = chars_of(field);
    let len = text.len();
    let dots = count_char(&text, '.');
    proof {
        assert(text@.subrange(0, len as int) == text@);
    }
    if dots == 0 {
        if names_file_field(&text, 0, len) || names_note_field(&text, 0, len) {
            string_of(&text, 0, len)
        } else {
            lookup_of(&text, 0, len)
        }
    } else if dots == 1 {
        proof {
            lemma_first_occurrence(text@, '.');
        }
        let dot = scan_forward(&text, 0, CharClass::Except('.'));
        if range_is(&text, 0, dot, "file") && names_file_field(&text, dot + 1, len) {
            string_of(&text, dot + 1, len)
        } else if range_is(&text, 0, dot, "note") {
            if names_note_field(&text, dot + 1, len) {
                string_of(&text, dot + 1, len)
            } else {
                lookup_of(&text, dot + 1, len)
            }
        } else {
            string_of(&text, 0, len)
        }
    } else {
        string_of(&text, 0, len)
    }
}

/// The SQL operator for the operator `op` of a tree.
fn operator_text(op: &str) -> (sql: &'static str)
    ensures
        sql@ == sql_operator(op@),
{
    if same_text(op, "AND") {
        "AND"
    } else if same_text(op, "OR") {
        "OR"
    } else if same_text(op, "==") {
        "="
    } else if same_text(op, "!=") {
        "!="
    } else if same_text(op, ">") {
        ">"
    } else if same_text(op, "<") {
        "<"
    } else if same_text(op, ">=") {
        ">="
    } else if same_text(op, "<=") {
        "<="
    } else if same_text(op, "=~") {
        "LIKE"
    } else {
        "="
    }
}

/// The SQL string literal with the value `value`.
fn quote(value: &str) -> (sql: String)
    ensures
        sql@ == quoted(value@),
{
    let text = chars_of(value);
    let mut sql = "'".to_owned();
    let mut i: usize = 0;
    while i < text.len()
        invariant
            i <= text.len(),
            sql@ == "'"@ + doubled_quotes(text@.take(i as int)),
        decreases text.len() - i,
    {
        proof {
            assert(text@.take(i + 1).drop_last() == text@.take(i as int));
        }
        if text[i] == '\'' {
            sql.push('\'');
            sql.push('\'');
        } else {
            sql.push(text[i]);
        }
        i += 1;
    }
    proof {
        assert(text@.take(text.len() as int) == text@);
    }
    sql.append("'");
    sql
}

/// Compiles the tree `node` to the text of a SQL condition.
pub fn compile(node: &AstNode) -> (sql: String)
    ensures
        sql@ == compiled(node@),
    decreases node,
{
    match node {
        AstNode::Binary { left, op, right } => {
            let mut sql = compile(left);
            let right_sql = compile(right);
            sql.append(" ");
            sql.append(operator_text(op.as_str()));
            sql.append(" ");
            sql.append(right_sql.as_str());
            sql
        },
        AstNode::Field(name) => resolve_field(name.as_str()),
        AstNode::StringLiteral(value) => quote(value.as_str()),
        AstNode::NumberLiteral(value) => value.clone(),
        AstNode::FunctionCall { name, args } => {
            if same_text(name.as_str(), "has") && args.len() == 2 {
                let field = compile(&args[0]);
                proof {
                    assert(node@->FunctionCall_args[0] == args@[0]@);
                    assert(node@->FunctionCall_args[1] == args@[1]@);
                }
                let mut sql = match &args[1] {
                    AstNode::StringLiteral(value) => quote(value.as_str()),
                    other => {
                        assert(!(other@ is StringLiteral));
                        let text = chars_of(compile(other).as_str());
                        let (a, b) = strip_bounds(&text, CharClass::Only('\''));
                        let mut element = "'".to_owned();
                        push_range(&mut element, &text, a, b);
                        element.append("'");
                        element
                    },
                };
                sql.append(" = ANY(");
                sql.append(field.as_str());
                sql.append(")");
                sql
            } else {
                "1=1".to_owned()
            }
        },
        AstNode::Grouping(inner) => {
            let mut sql = "(".to_owned();
            sql.append(compile(inner).as_str());
            sql.append(")");
            sql
        },
    }
}

/// The names of the columns of the table, those of the file first.
fn all_columns() -> (names: Vec<String>)
    ensures
        names.deep_view() == file_fields() + note_fields(),
{
    let mut names: Vec<String> = Vec::new();
    names.push("path".to_owned());
    names.push("folder".to_owned());
    names.push("name".to_owned());
    names.push("ext".to_owned());
    names.push("size".to_owned());
    names.push("ctime".to_owned());
    names.push("mtime".to_owned());
    names.push("content".to_owned());
    names.push("tags".to_owned());
    names.push("links".to_owned());
    names.push("backlinks".to_owned());
    names.push("embeds".to_owned());
    names.push("properties".to_owned());
    names
}

/// The columns that the list `fields` selects.
fn select_columns(fields: &str) -> (names: Vec<String>)
    ensures
        names.deep_view() == columns(fields@),
{
    if same_text(fields, "*") {
        return all_columns();
    }
    let parts = split_commas(fields);
    let mut names: Vec<String> = Vec::new();
    let mut i: usize = 0;
    while i < parts.len()
        invariant
            i <= parts.len(),
            names.len() == i,
            parts.deep_view() == pieces(fields@),
            forall|j: int| 0 <= j < i ==> names@[j]@ == column(pieces(fields@)[j]),
        decreases parts.len() - i,
    {
        let name = trim(parts[i].as_str());
        names.push(resolve_field(name.as_str()));
        i += 1;
    }
    names
}

/// Builds the query that selects `fields` from the documents that the filter
/// expression `query` admits. It never fails.
pub fn build_sql(query: &str, fields: &str) -> (result: Result<String, String>)
    ensures
        result matches Ok(sql) && sql@ == query_text(query@, fields@),
{
    let parsed = parse(query);
    let where_clause = compile(&parsed);
    let select_fields = join(&select_columns(fields), ", ");
    let mut sql = "SELECT ".to_owned();
    sql.append(select_fields.as_str());
    sql.append(" FROM documents WHERE ");
    sql.append(where_clause.as_str());
    Ok(sql)
}

} // verus!
