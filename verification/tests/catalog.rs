use yomu::catalog::{
    filter_chapters, filter_search_results, lookup_entry, manga_title_displayable,
    ChapterAttributes, ChapterData, MangaAttributes, MangaData,
};

fn manga_with_titles(id: &str, titles: Option<Vec<(&str, &str)>>) -> MangaData {
    MangaData {
        id: id.to_string(),
        type_: "manga".to_string(),
        attributes: MangaAttributes {
            title: titles.map(|pairs| {
                pairs.into_iter().map(|(k, v)| (k.to_string(), v.to_string())).collect()
            }),
            description: None,
            publication_demographic: None,
            status: None,
            year: None,
        },
    }
}

fn chapter_with_pages(id: &str, pages: Option<usize>) -> ChapterData {
    ChapterData {
        id: id.to_string(),
        type_: "chapter".to_string(),
        attributes: ChapterAttributes {
            volume: None,
            chapter: None,
            title: None,
            translated_language: None,
            is_unavailable: false,
            pages,
        },
    }
}

#[test]
fn lookup_finds_the_first_matching_language() {
    let entries = vec![
        ("ja".to_string(), "ワンピース".to_string()),
        ("en".to_string(), "One Piece".to_string()),
        ("en".to_string(), "Duplicate".to_string()),
    ];
    assert_eq!(lookup_entry(&entries, &"en".to_string()), Some("One Piece".to_string()));
    assert_eq!(lookup_entry(&entries, &"ja".to_string()), Some("ワンピース".to_string()));
    assert_eq!(lookup_entry(&entries, &"fr".to_string()), None);
}

#[test]
fn displayable_needs_a_real_english_title() {
    assert!(manga_title_displayable(&manga_with_titles("a", Some(vec![("en", "Real")]))));
    assert!(!manga_title_displayable(&manga_with_titles(
        "b",
        Some(vec![("en", "Unknown Title")])
    )));
    assert!(!manga_title_displayable(&manga_with_titles("c", Some(vec![("ja", "タイトル")]))));
    assert!(!manga_title_displayable(&manga_with_titles("d", None)));
}

#[test]
fn search_filter_keeps_order_of_displayable_entries() {
    let input = vec![
        manga_with_titles("keep-1", Some(vec![("en", "First")])),
        manga_with_titles("drop-1", Some(vec![("en", "Unknown Title")])),
        manga_with_titles("keep-2", Some(vec![("ja", "no"), ("en", "Second")])),
        manga_with_titles("drop-2", None),
    ];
    let out = filter_search_results(input);
    let ids: Vec<&str> = out.iter().map(|m| m.id.as_str()).collect();
    assert_eq!(ids, vec!["keep-1", "keep-2"]);
}

#[test]
fn chapter_filter_drops_pageless_chapters() {
    let input = vec![
        chapter_with_pages("keep-1", Some(12)),
        chapter_with_pages("drop-zero", Some(0)),
        chapter_with_pages("drop-none", None),
        chapter_with_pages("keep-2", Some(1)),
    ];
    let out = filter_chapters(input);
    let ids: Vec<&str> = out.iter().map(|c| c.id.as_str()).collect();
    assert_eq!(ids, vec!["keep-1", "keep-2"]);
}
