use yomu::catalog::{ChapterAttributes, ChapterData, MangaAttributes, MangaData};
use yomu::coordinator::Coordinator;
use yomu::error::YomuError;
use yomu::manifest::{ImageAttributes, ImageDataResponse};
use yomu::nav::{handle_key, open_chapter, App, AppScreen, NavCommand, NavKey};

fn manga(id: &str, title: &str) -> MangaData {
    MangaData {
        id: id.to_string(),
        type_: "manga".to_string(),
        attributes: MangaAttributes {
            title: Some(vec![("en".to_string(), title.to_string())]),
            description: None,
            publication_demographic: None,
            status: None,
            year: None,
        },
    }
}

fn chapter(id: &str, pages: usize) -> ChapterData {
    ChapterData {
        id: id.to_string(),
        type_: "chapter".to_string(),
        attributes: ChapterAttributes {
            volume: None,
            chapter: Some("1".to_string()),
            title: None,
            translated_language: Some("en".to_string()),
            is_unavailable: false,
            pages: Some(pages),
        },
    }
}

fn chapter_manifest(pages: usize) -> ImageDataResponse {
    ImageDataResponse {
        result: "ok".to_string(),
        base_url: "https://img.example".to_string(),
        chapter: ImageAttributes {
            hash: "abc123".to_string(),
            data: (0..pages).map(|i| format!("p{}.png", i)).collect(),
            data_saver: Vec::new(),
        },
    }
}

fn coord() -> Coordinator<u32, u32> {
    Coordinator::new(8, 20)
}

#[test]
fn any_key_leaves_the_splash_screen() {
    let mut app = App::new();
    let mut c = coord();
    let (cmd, acts) = handle_key(&mut app, &mut c, NavKey::Char('x'), None, None);
    assert!(matches!(app.screen, AppScreen::Search));
    assert!(cmd.is_none());
    assert!(acts.fetches.is_empty());
}

#[test]
fn typing_edits_the_query() {
    let mut app = App::new();
    app.screen = AppScreen::Search;
    let mut c = coord();
    handle_key(&mut app, &mut c, NavKey::Char('a'), None, None);
    handle_key(&mut app, &mut c, NavKey::Char('b'), None, None);
    assert_eq!(app.search_input, "ab");
    handle_key(&mut app, &mut c, NavKey::Backspace, None, None);
    assert_eq!(app.search_input, "a");
}

#[test]
fn enter_with_changed_query_issues_a_search() {
    let mut app = App::new();
    app.screen = AppScreen::Search;
    let mut c = coord();
    handle_key(&mut app, &mut c, NavKey::Char('o'), None, None);
    handle_key(&mut app, &mut c, NavKey::Char('k'), None, None);
    let (cmd, _) = handle_key(&mut app, &mut c, NavKey::Enter, None, None);
    match cmd {
        Some(NavCommand::Search { query }) => assert_eq!(query, "ok"),
        other => panic!("expected a search command, got {:?}", other),
    }
    // a successful search replaces the results and remembers the query
    let data = vec![manga("id-1", "One"), manga("id-2", "Two")];
    assert!(app.apply_search_result("ok".to_string(), Ok(data)).is_ok());
    assert_eq!(app.search_result.len(), 2);
    assert_eq!(app.last_search_query, "ok");
    assert_eq!(app.selected_index, 0);
    // the same query again is not searched twice: with results present,
    // enter moves on to the chapter listing of the selected title
    let (cmd, _) = handle_key(&mut app, &mut c, NavKey::Enter, None, None);
    match cmd {
        Some(NavCommand::FetchChapters { manga_id }) => assert_eq!(manga_id, "id-1"),
        other => panic!("expected a chapter listing command, got {:?}", other),
    }
}

#[test]
fn failed_search_aborts_the_transition() {
    let mut app = App::new();
    app.screen = AppScreen::Search;
    app.search_input = "q".to_string();
    let before_results = app.search_result.len();
    let r = app.apply_search_result("q".to_string(), Err(YomuError::Network));
    assert_eq!(r, Err(YomuError::Network));
    assert_eq!(app.search_result.len(), before_results);
    assert_eq!(app.last_search_query, "");
    assert!(matches!(app.screen, AppScreen::Search));
}

#[test]
fn cursor_stays_inside_the_result_list() {
    let mut app = App::new();
    app.screen = AppScreen::Search;
    app.search_result = vec![manga("a", "A"), manga("b", "B")];
    let mut c = coord();
    handle_key(&mut app, &mut c, NavKey::Up, None, None);
    assert_eq!(app.selected_index, 0);
    handle_key(&mut app, &mut c, NavKey::Down, None, None);
    assert_eq!(app.selected_index, 1);
    handle_key(&mut app, &mut c, NavKey::Down, None, None);
    assert_eq!(app.selected_index, 1);
    handle_key(&mut app, &mut c, NavKey::Up, None, None);
    assert_eq!(app.selected_index, 0);
}

#[test]
fn chapter_list_enter_asks_for_the_manifest() {
    let mut app = App::new();
    app.screen = AppScreen::Search;
    app.search_result = vec![manga("a", "A")];
    // arriving at the chapter list records the title and resets the cursor
    let chapters = vec![chapter("ch-1", 10), chapter("ch-2", 12)];
    assert!(app.apply_chapter_result(manga("a", "A"), Ok(chapters)).is_ok());
    assert!(matches!(app.screen, AppScreen::ChapterList));
    assert_eq!(app.selected_index, 0);
    let mut c = coord();
    handle_key(&mut app, &mut c, NavKey::Down, None, None);
    let (cmd, _) = handle_key(&mut app, &mut c, NavKey::Enter, None, None);
    match cmd {
        Some(NavCommand::FetchManifest { chapter_id }) => assert_eq!(chapter_id, "ch-2"),
        other => panic!("expected a manifest command, got {:?}", other),
    }
    // back returns to search
    let (cmd, _) = handle_key(&mut app, &mut c, NavKey::Char('b'), None, None);
    assert!(cmd.is_none());
    assert!(matches!(app.screen, AppScreen::Search));
}

#[test]
fn opening_a_chapter_enters_reading_and_queues_the_spread() {
    let mut app = App::new();
    app.screen = AppScreen::ChapterList;
    app.chapters = vec![chapter("ch-1", 5)];
    let mut c = coord();
    let r = open_chapter(&mut app, &mut c, Ok(chapter_manifest(5)), None, None);
    let acts = r.expect("a valid manifest opens the chapter");
    assert!(matches!(app.screen, AppScreen::Reading));
    assert_eq!(app.current_page, 0);
    assert_eq!(c.page_count(), 5);
    let pages: Vec<usize> = acts.fetches.iter().map(|f| f.page).collect();
    assert_eq!(pages, vec![0, 1, 2, 3, 4]);
}

#[test]
fn insecure_manifest_is_a_hard_validation_error() {
    let mut app = App::new();
    app.screen = AppScreen::ChapterList;
    let mut c = coord();
    let mut m = chapter_manifest(5);
    m.base_url = "http://img.example".to_string();
    let r = open_chapter(&mut app, &mut c, Ok(m), None, None);
    assert_eq!(r.err(), Some(YomuError::Validation));
    // the transition is aborted: still on the chapter list, nothing queued
    assert!(matches!(app.screen, AppScreen::ChapterList));
    assert!(app.image_data.is_none());
    assert_eq!(c.permits_in_use(), 0);
}

#[test]
fn empty_manifest_is_a_state_error() {
    let mut app = App::new();
    app.screen = AppScreen::ChapterList;
    let mut c = coord();
    let r = open_chapter(&mut app, &mut c, Ok(chapter_manifest(0)), None, None);
    assert_eq!(r.err(), Some(YomuError::State));
    assert!(matches!(app.screen, AppScreen::ChapterList));
}

#[test]
fn failed_manifest_fetch_aborts_the_transition() {
    let mut app = App::new();
    app.screen = AppScreen::ChapterList;
    let mut c = coord();
    let r = open_chapter(&mut app, &mut c, Err(YomuError::Api(500)), None, None);
    assert_eq!(r.err(), Some(YomuError::Api(500)));
    assert!(matches!(app.screen, AppScreen::ChapterList));
}

#[test]
fn spread_navigation_moves_by_two_and_clamps() {
    let mut app = App::new();
    app.screen = AppScreen::ChapterList;
    let mut c = coord();
    open_chapter(&mut app, &mut c, Ok(chapter_manifest(5)), None, None).unwrap();
    // 0 -> 2 -> 4, then clamped at the end of the chapter
    handle_key(&mut app, &mut c, NavKey::Right, None, None);
    assert_eq!(app.current_page, 2);
    handle_key(&mut app, &mut c, NavKey::Char('l'), None, None);
    assert_eq!(app.current_page, 4);
    handle_key(&mut app, &mut c, NavKey::Right, None, None);
    assert_eq!(app.current_page, 4);
    // back down to 0, then clamped at the start
    handle_key(&mut app, &mut c, NavKey::Left, None, None);
    assert_eq!(app.current_page, 2);
    handle_key(&mut app, &mut c, NavKey::Char('h'), None, None);
    assert_eq!(app.current_page, 0);
    handle_key(&mut app, &mut c, NavKey::Left, None, None);
    assert_eq!(app.current_page, 0);
    // back to the chapter list keeps the manifest and the caches
    handle_key(&mut app, &mut c, NavKey::Char('b'), None, None);
    assert!(matches!(app.screen, AppScreen::ChapterList));
    assert!(app.image_data.is_some());
}

#[test]
fn a_fresh_app_shows_the_splash_screen() {
    let app = App::new();
    assert!(matches!(app.screen, AppScreen::Splash));
    assert_eq!(app.search_input, "");
    assert_eq!(app.last_search_query, "");
    assert!(app.search_result.is_empty());
    assert!(app.selected_manga.is_none());
    assert!(app.chapters.is_empty());
    assert_eq!(app.selected_index, 0);
    assert!(app.image_data.is_none());
    assert_eq!(app.current_page, 0);
}
