//! Tests for the autocomplete engine: tokenization, ranking, exclusion,
//! selection, and the byte/character conversions under them.

use vince621::autocomplete::{Autocompleter, select_suggestion, MAX_AUTOCOMPLETION_COUNT};
use vince621::tags::{Tag, TagCategory, TagIndex};
use vince621::text::{
    bytes_end_with, bytes_eq, bytes_start_with, char_range_of, char_to_byte, count_chars,
};
use vince621::tokenize::token_at;

fn tag(id: u32, name: &str, aliases: &[&str], post_count: u32) -> Tag {
    Tag {
        id,
        name: name.as_bytes().to_vec(),
        aliases: aliases.iter().map(|a| a.as_bytes().to_vec()).collect(),
        category: TagCategory::General,
        post_count,
    }
}

/// The index of the worked examples: cat (with alias kitty), then catfish,
/// ranked by post count.
fn cat_index() -> TagIndex {
    TagIndex::new(vec![
        tag(1, "cat", &["kitty"], 500),
        tag(2, "catfish", &[], 10),
    ])
    .expect("ranked list with distinct names")
}

#[test]
fn token_under_cursor_in_grouped_query() {
    let text = b"fox cat{dog".to_vec();
    // Cursor after "ca": inside the token "cat".
    let info = token_at(&text, 6).expect("cursor is inside a token");
    assert_eq!(info.start, 4);
    assert_eq!(info.end, 7);
    assert_eq!(&text[info.start..info.end], b"cat");
    // "cat" is not nested in any group, so nothing is excluded; in
    // particular nothing from outside a group leaks in.
    assert!(info.ancestors.is_empty());
}

#[test]
fn token_inside_group_sees_owning_tag_as_ancestor() {
    let text = b"fox cat{dog".to_vec();
    // Cursor inside "dog", which sits in the group opened by "cat".
    let info = token_at(&text, 9).expect("cursor is inside a token");
    assert_eq!(info.start, 8);
    assert_eq!(info.end, 11);
    assert_eq!(info.ancestors.len(), 1);
    assert_eq!(info.ancestors[0], b"cat".to_vec());
}

#[test]
fn no_token_between_separators() {
    let text = b"fox  cat".to_vec();
    assert!(token_at(&text, 4).is_none());
    // At the end of a token the token is still under edit.
    let info = token_at(&text, 3).expect("cursor at a token's end");
    assert_eq!((info.start, info.end), (0, 3));
}

#[test]
fn prefix_search_ranks_by_post_count() {
    let index = cat_index();
    let matches = index.prefix_search(&b"ca".to_vec(), &Vec::new(), &Vec::new(), 20);
    assert_eq!(matches.len(), 2);
    assert_eq!(matches[0].name, b"cat".to_vec());
    assert!(matches[0].alias.is_none());
    assert_eq!(matches[0].post_count, 500);
    assert_eq!(matches[1].name, b"catfish".to_vec());
    assert!(matches[1].alias.is_none());
    assert_eq!(matches[1].post_count, 10);
}

#[test]
fn prefix_search_matches_through_alias() {
    let index = cat_index();
    let matches = index.prefix_search(&b"ki".to_vec(), &Vec::new(), &Vec::new(), 20);
    assert_eq!(matches.len(), 1);
    assert_eq!(matches[0].name, b"cat".to_vec());
    assert_eq!(matches[0].alias, Some(b"kitty".to_vec()));
    assert_eq!(matches[0].tag_id, 1);
}

#[test]
fn suffix_filters_after_cursor() {
    let index = cat_index();
    // Token "cat" with the cursor after "c": prefix "c", suffix "at".
    let matches = index.prefix_search(&b"c".to_vec(), &b"at".to_vec(), &Vec::new(), 20);
    assert_eq!(matches.len(), 1);
    assert_eq!(matches[0].name, b"cat".to_vec());
}

#[test]
fn excluded_identity_is_skipped() {
    let index = cat_index();
    let matches = index.prefix_search(&b"ca".to_vec(), &Vec::new(), &vec![1u32], 20);
    assert_eq!(matches.len(), 1);
    assert_eq!(matches[0].name, b"catfish".to_vec());
}

#[test]
fn autocomplete_passes_ancestor_exclusion_through() {
    let mut engine = Autocompleter::new(cat_index());
    // Editing "ca" inside the group owned by "cat": cat itself must not be
    // suggested again.
    let text = b"cat{ca".to_vec();
    assert!(engine.do_autocomplete(&text, 6));
    let result = engine.last_result.as_ref().expect("a token was found");
    assert_eq!(result.token_start, 4);
    assert_eq!(result.token_end, 6);
    assert_eq!(result.matches.len(), 1);
    assert_eq!(result.matches[0].name, b"catfish".to_vec());
}

#[test]
fn unresolvable_ancestor_names_are_dropped() {
    let mut engine = Autocompleter::new(cat_index());
    // "zebra" resolves to no tag, so it excludes nothing.
    let text = b"zebra{ca".to_vec();
    assert!(engine.do_autocomplete(&text, 8));
    let result = engine.last_result.as_ref().expect("a token was found");
    assert_eq!(result.matches.len(), 2);
}

#[test]
fn autocomplete_without_token_clears_result() {
    let mut engine = Autocompleter::new(cat_index());
    assert!(engine.do_autocomplete(&b"cat x".to_vec(), 5));
    assert!(engine.last_result.is_some());
    assert!(!engine.do_autocomplete(&b"cat ".to_vec(), 4));
    assert!(engine.last_result.is_none());
}

#[test]
fn result_count_never_exceeds_maximum() {
    // Twenty-five tags sharing the prefix "t", all distinct.
    let mut tags = Vec::new();
    for i in 0..25u32 {
        let name = format!("tag{:02}", i);
        tags.push(tag(i + 1, &name, &[], 1000 - i));
    }
    let index = TagIndex::new(tags).expect("ranked list with distinct names");
    let matches = index.prefix_search(&b"t".to_vec(), &Vec::new(), &Vec::new(), 20);
    assert_eq!(matches.len(), MAX_AUTOCOMPLETION_COUNT);
    // The kept twenty are the twenty best-ranked.
    assert_eq!(matches[0].name, b"tag00".to_vec());
    assert_eq!(matches[19].name, b"tag19".to_vec());
}

#[test]
fn empty_prefix_returns_general_matches() {
    let index = cat_index();
    let matches = index.prefix_search(&Vec::new(), &Vec::new(), &Vec::new(), 20);
    assert_eq!(matches.len(), 2);
}

#[test]
fn selection_replaces_token_and_places_cursor() {
    // Token "ca" spans bytes [4, 6) of "fox ca dog"; selecting "cat" yields
    // "fox cat dog" with the cursor right after "cat".
    let (text, cursor) = select_suggestion(&b"fox ca dog".to_vec(), 4, 6, &b"cat".to_vec());
    assert_eq!(text, b"fox cat dog".to_vec());
    assert_eq!(cursor, 7);
}

#[test]
fn selection_at_end_appends_separator() {
    let (text, cursor) = select_suggestion(&b"fox ca".to_vec(), 4, 6, &b"cat".to_vec());
    assert_eq!(text, b"fox cat ".to_vec());
    assert_eq!(cursor, 8);
}

#[test]
fn selection_through_engine_uses_canonical_name() {
    let mut engine = Autocompleter::new(cat_index());
    // Matching through the alias still inserts the canonical name.
    let text = b"ki".to_vec();
    assert!(engine.do_autocomplete(&text, 2));
    let (new_text, cursor) = engine.select(&text, 0).expect("one match to select");
    assert_eq!(new_text, b"cat ".to_vec());
    assert_eq!(cursor, 4);
}

#[test]
fn selection_out_of_range_yields_nothing() {
    let mut engine = Autocompleter::new(cat_index());
    let text = b"ca".to_vec();
    assert!(engine.do_autocomplete(&text, 2));
    assert!(engine.select(&text, 99).is_none());
    let mut idle = Autocompleter::new(cat_index());
    assert!(idle.select(&text, 0).is_none());
}

#[test]
fn index_construction_rejects_bad_input() {
    // Not ranked by descending post count.
    assert!(TagIndex::new(vec![tag(1, "a", &[], 1), tag(2, "b", &[], 2)]).is_none());
    // Duplicate canonical name.
    assert!(TagIndex::new(vec![tag(1, "a", &[], 2), tag(2, "a", &[], 1)]).is_none());
    // Ranked and distinct.
    assert!(TagIndex::new(vec![tag(1, "b", &[], 2), tag(2, "a", &[], 1)]).is_some());
}

#[test]
fn lookup_resolves_names_and_aliases() {
    let index = cat_index();
    assert_eq!(index.lookup(&b"cat".to_vec()).expect("by name").id, 1);
    assert_eq!(index.lookup(&b"catfish".to_vec()).expect("by name").id, 2);
    assert_eq!(index.lookup(&b"kitty".to_vec()).expect("by alias").id, 1);
    assert!(index.lookup(&b"dog".to_vec()).is_none());
}

#[test]
fn cursor_conversion_is_multibyte_safe() {
    // "héllo": the second character takes two bytes.
    let text = "h\u{e9}llo".as_bytes().to_vec();
    assert_eq!(text.len(), 6);
    assert_eq!(char_to_byte(&text, 0), 0);
    assert_eq!(char_to_byte(&text, 1), 1);
    assert_eq!(char_to_byte(&text, 2), 3);
    assert_eq!(char_to_byte(&text, 5), 6);
    assert_eq!(char_to_byte(&text, 9), 6);
    assert_eq!(count_chars(&text, 6), 5);
    assert_eq!(count_chars(&text, 3), 2);
}

#[test]
fn multibyte_selection_reports_character_cursor() {
    // "\u{e9} ca" : the token "ca" spans bytes [3, 5).
    let text = "\u{e9} ca".as_bytes().to_vec();
    let (new_text, cursor) = select_suggestion(&text, 3, 5, &b"cat".to_vec());
    assert_eq!(new_text, "\u{e9} cat ".as_bytes().to_vec());
    // One character for "é", one space, three for "cat", one separator.
    assert_eq!(cursor, 6);
}

#[test]
fn engine_caps_suggestions_at_maximum() {
    let mut tags = Vec::new();
    for i in 0..30u32 {
        let name = format!("tail{:02}", i);
        tags.push(tag(i + 1, &name, &[], 500 - i));
    }
    let index = TagIndex::new(tags).expect("ranked list with distinct names");
    let mut engine = Autocompleter::new(index);
    assert!(engine.do_autocomplete(&b"ta".to_vec(), 2));
    let result = engine.last_result.as_ref().expect("a token was found");
    assert_eq!(result.matches.len(), MAX_AUTOCOMPLETION_COUNT);
}

#[test]
fn byte_range_becomes_character_range() {
    let text = "h\u{e9}llo".as_bytes().to_vec();
    assert_eq!(char_range_of(&text, 1, 6), (1, 5));
    assert_eq!(char_range_of(&text, 3, 3), (2, 2));
}

#[test]
fn byte_string_comparisons() {
    assert!(bytes_start_with(&b"catfish".to_vec(), &b"cat".to_vec()));
    assert!(!bytes_start_with(&b"ca".to_vec(), &b"cat".to_vec()));
    assert!(bytes_start_with(&b"cat".to_vec(), &Vec::new()));
    assert!(bytes_end_with(&b"catfish".to_vec(), &b"fish".to_vec()));
    assert!(!bytes_end_with(&b"catfish".to_vec(), &b"cat".to_vec()));
    assert!(bytes_eq(&b"cat".to_vec(), &b"cat".to_vec()));
    assert!(!bytes_eq(&b"cat".to_vec(), &b"cap".to_vec()));
}
