use mdb::extractor::Extractor;

fn list(items: &[&str]) -> Vec<String> {
    items.iter().map(|item| item.to_string()).collect()
}

#[test]
fn tags_keep_their_order_and_lose_the_hash() {
    let found = Extractor::extract("#b then #a/b-c and #b again, #\u{e9}t\u{e9}_1");
    assert_eq!(found.tags, list(&["b", "a/b-c", "b", "\u{e9}t\u{e9}_1"]));
}

#[test]
fn tag_ends_at_the_first_other_character() {
    let found = Extractor::extract("#one.two #three! x#four ##five # six");
    assert_eq!(found.tags, list(&["one", "three", "four", "five"]));
}

#[test]
fn links_keep_alias_and_heading() {
    let found = Extractor::extract("[[a|b]] [[c#d]] [[e]] [[ f g ]]");
    assert_eq!(found.links, list(&["a|b", "c#d", "e", " f g "]));
    assert!(found.embeds.is_empty());
}

#[test]
fn embedded_files_are_links_too() {
    let found = Extractor::extract("![[a.png]] and [[b]] and ![[c.svg]]");
    assert_eq!(found.links, list(&["a.png", "b", "c.svg"]));
    assert_eq!(found.embeds, list(&["a.png", "c.svg"]));
}

#[test]
fn empty_and_broken_links_are_none() {
    let found = Extractor::extract("[[]] [[a] ] [a]] [[b");
    assert!(found.links.is_empty());
}

#[test]
fn link_may_span_lines() {
    let found = Extractor::extract("[[a\nb]]");
    assert_eq!(found.links, list(&["a\nb"]));
}

#[test]
fn front_matter_is_taken_off_the_text() {
    let found = Extractor::extract("---\ntitle: T\n---\n\n  body #tag [[link]]  \n");
    assert_eq!(found.content, "body #tag [[link]]");
    assert_eq!(found.frontmatter.get("title").unwrap().as_str().unwrap(), "T");
    assert_eq!(found.tags, list(&["tag"]));
    assert_eq!(found.links, list(&["link"]));
}

#[test]
fn tags_in_the_front_matter_are_not_found() {
    let found = Extractor::extract("---\nnote: \"#inside [[x]]\"\n---\n#outside");
    assert_eq!(found.tags, list(&["outside"]));
    assert!(found.links.is_empty());
    assert_eq!(found.content, "#outside");
}

#[test]
fn front_matter_must_start_the_note() {
    let found = Extractor::extract(" ---\na: 1\n---\nbody");
    assert!(found.frontmatter.is_null());
    assert_eq!(found.content, " ---\na: 1\n---\nbody");
    let found = Extractor::extract("\n---\na: 1\n---\nbody");
    assert!(found.frontmatter.is_null());
}

#[test]
fn front_matter_that_is_not_closed_is_text() {
    let text = "---\na: 1\n--\nbody";
    let found = Extractor::extract(text);
    assert!(found.frontmatter.is_null());
    assert_eq!(found.content, text);
    for text in ["---", "----", "-----", "--", "", "---\n"] {
        let found = Extractor::extract(text);
        assert!(found.frontmatter.is_null());
        assert_eq!(found.content, text);
    }
}

#[test]
fn front_matter_ends_at_the_first_three_dashes() {
    // The dashes need not start a line.
    let found = Extractor::extract("---\na: b --- c\n---\nbody");
    assert_eq!(found.frontmatter.get("a").unwrap().as_str().unwrap(), "b");
    assert_eq!(found.content, "c\n---\nbody");
}

#[test]
fn six_dashes_are_an_empty_front_matter() {
    let found = Extractor::extract("------");
    assert!(found.frontmatter.is_null());
    assert_eq!(found.content, "");
    let found = Extractor::extract("------  text  ");
    assert_eq!(found.content, "text");
}

#[test]
fn front_matter_that_is_no_yaml_leaves_the_note_whole() {
    let text = "---\n[unclosed\n---\n\nbody #t";
    let found = Extractor::extract(text);
    assert!(found.frontmatter.is_null());
    assert_eq!(found.content, text);
    assert_eq!(found.tags, list(&["t"]));
}

#[test]
fn front_matter_with_other_scripts() {
    let found = Extractor::extract("---\nt\u{ef}tle: caf\u{e9}\n---\n\u{4e2d}\u{6587} #\u{4e2d}");
    assert_eq!(
        found.frontmatter.get("t\u{ef}tle").unwrap().as_str().unwrap(),
        "caf\u{e9}"
    );
    assert_eq!(found.content, "\u{4e2d}\u{6587} #\u{4e2d}");
    assert_eq!(found.tags, list(&["\u{4e2d}"]));
}

#[test]
fn front_matter_may_be_a_list_or_a_scalar() {
    let found = Extractor::extract("---\n- a\n- b\n---\nx");
    assert_eq!(found.frontmatter.as_array().unwrap().len(), 2);
    let found = Extractor::extract("---\njust text\n---\nx");
    assert_eq!(found.frontmatter.as_str().unwrap(), "just text");
    assert_eq!(found.content, "x");
}

#[test]
fn extracting_is_repeatable() {
    let text = "---\na: 1\n---\n#t [[l]] ![[e]]";
    let first = Extractor::extract(text);
    let second = Extractor::extract(text);
    assert_eq!(first.content, second.content);
    assert_eq!(first.frontmatter, second.frontmatter);
    assert_eq!(first.tags, second.tags);
    assert_eq!(first.links, second.links);
    assert_eq!(first.embeds, second.embeds);
}
