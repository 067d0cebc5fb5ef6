//! The navigation state machine: screens, cursor and selection, the
//! current spread, and the transition logic for key input.
//!
//! Transitions that need a remote call return a [`NavCommand`]; the caller
//! performs the call and hands the outcome back through one of the
//! `apply_*` functions or [`open_chapter`]. A failed remote call aborts
//! the transition: the state is left exactly as it was.

use vstd::prelude::*;
use vstd::string::StringExecFns;
use crate::catalog::{ChapterData, MangaData};
use crate::coordinator::{same_config, Actions, Coordinator};
use crate::error::YomuError;
use crate::geometry::PanelRect;
use crate::manifest::{is_secure_url, validate_manifest, ImageDataResponse};
use crate::text::{pop_char, push_char};

verus! {

/// The different screens in the application.
#[derive(Clone, Copy, Debug, PartialEq, Eq, Structural)]
pub enum AppScreen {
    /// The opening splash screen.
    Splash,
    /// The search input and results screen.
    Search,
    /// The list of chapters for a selected manga.
    ChapterList,
    /// The screen for reading a chapter.
    Reading,
}

/// A key press, as the state machine understands it.
#[derive(Clone, Copy, Debug, PartialEq, Eq, Structural)]
pub enum NavKey {
    /// A printable character.
    Char(char),
    /// The backspace key.
    Backspace,
    /// The enter key.
    Enter,
    /// The up arrow.
    Up,
    /// The down arrow.
    Down,
    /// The left arrow.
    Left,
    /// The right arrow.
    Right,
}

/// A synchronous remote call the caller must perform; its outcome comes
/// back through [`App::apply_search_result`], [`App::apply_chapter_result`]
/// or [`open_chapter`].
#[derive(Clone, Debug)]
pub enum NavCommand {
    /// Search the catalog for titles matching the query.
    Search {
        /// The query to search for.
        query: String,
    },
    /// Fetch the chapter listing of the selected title.
    FetchChapters {
        /// The identifier of the selected title.
        manga_id: String,
    },
    /// Fetch the image manifest of the selected chapter.
    FetchManifest {
        /// The identifier of the selected chapter.
        chapter_id: String,
    },
}

/// The application state the transition logic works on: screen, query,
/// results, selection, manifest and current spread.
pub struct App {
    /// The screen being displayed.
    pub screen: AppScreen,
    /// The search query being typed.
    pub search_input: String,
    /// The results of the most recent successful search.
    pub search_result: Vec<MangaData>,
    /// The query of the most recent successful search, kept to avoid
    /// redundant remote calls.
    pub last_search_query: String,
    /// The title whose chapters are listed.
    pub selected_manga: Option<MangaData>,
    /// The chapters of the selected title.
    pub chapters: Vec<ChapterData>,
    /// The cursor into the list the current screen shows.
    pub selected_index: usize,
    /// The image manifest of the open chapter.
    pub image_data: Option<ImageDataResponse>,
    /// The page shown on the right panel; the left panel shows the next.
    pub current_page: usize,
}

impl App {
    /// The cursor stays inside the list the screen shows, a reading screen
    /// always has a manifest, and the current page stays inside it.
    pub open spec fn wf(&self) -> bool {
        &&& (self.screen is Search ==> self.selected_index == 0 || self.selected_index
            < self.search_result@.len())
        &&& (self.screen is ChapterList ==> self.selected_index == 0 || self.selected_index
            < self.chapters@.len())
        &&& (self.screen is Reading ==> self.image_data is Some && (self.selected_index == 0
            || self.selected_index < self.chapters@.len()))
        &&& (match self.image_data {
            Some(m) => self.current_page < m.chapter.data@.len(),
            None => self.current_page == 0,
        })
    }

    /// The number of pages of the open chapter.
    pub open spec fn spec_page_count(&self) -> nat {
        match self.image_data {
            Some(m) => m.chapter.data@.len(),
            None => 0,
        }
    }

    /// Advancing shows pages `current + 2` and `current + 3`; it is allowed
    /// only while the first of them exists.
    pub open spec fn can_advance(&self) -> bool {
        self.current_page + 2 < self.spec_page_count()
    }

    /// Retreating shows pages `current - 2` and `current - 1`.
    pub open spec fn can_retreat(&self) -> bool {
        self.current_page >= 2
    }

    /// A fresh application: splash screen, nothing typed, nothing loaded.
    pub fn new() -> (r: App)
        ensures
            r.wf(),
            r.screen is Splash,
            r.search_input@ =~= Seq::<char>::empty(),
            r.search_result@ =~= Seq::<MangaData>::empty(),
            r.last_search_query@ =~= Seq::<char>::empty(),
            r.selected_manga is None,
            r.chapters@ =~= Seq::<ChapterData>::empty(),
            r.selected_index == 0,
            r.image_data is None,
            r.current_page == 0,
    {
        App {
            screen: AppScreen::Splash,
            search_input: String::new(),
            search_result: Vec::new(),
            last_search_query: String::new(),
            selected_manga: None,
            chapters: Vec::new(),
            selected_index: 0,
            image_data: None,
            current_page: 0,
        }
    }
}

/// Any key on the splash screen moves to the search screen, with no side
/// effects.
pub open spec fn splash_step(pre: App, post: App, cmd: Option<NavCommand>) -> bool {
    &&& post == (App { screen: AppScreen::Search, selected_index: 0, ..pre })
    &&& cmd is None
}

/// Key handling on the search screen: characters edit the query, arrows
/// move the cursor bounded to the result list, and enter either issues a
/// search (non-empty, changed query), moves to the chapter list (unchanged
/// query, results present), or does nothing.
pub open spec fn search_step(pre: App, post: App, key: NavKey, cmd: Option<NavCommand>) -> bool {
    match key {
        NavKey::Char(c) => {
            &&& post == (App { search_input: post.search_input, ..pre })
            &&& post.search_input@ == pre.search_input@.push(c)
            &&& cmd is None
        },
        NavKey::Backspace => {
            &&& post == (App { search_input: post.search_input, ..pre })
            &&& post.search_input@ == (if pre.search_input@.len() > 0 {
                pre.search_input@.drop_last()
            } else {
                pre.search_input@
            })
            &&& cmd is None
        },
        NavKey::Enter => {
            if pre.search_input@.len() > 0 && pre.search_input@ != pre.last_search_query@ {
                &&& post == pre
                &&& (cmd matches Some(NavCommand::Search { query }) && query@
                    == pre.search_input@)
            } else if pre.search_result@.len() > 0 {
                &&& post == pre
                &&& (cmd matches Some(NavCommand::FetchChapters { manga_id }) && manga_id@
                    == pre.search_result@[pre.selected_index as int].id@)
            } else {
                post == pre && cmd is None
            }
        },
        NavKey::Up => {
            &&& post == (App {
                selected_index: if pre.selected_index > 0 {
                    (pre.selected_index - 1) as usize
                } else {
                    0
                },
                ..pre
            })
            &&& cmd is None
        },
        NavKey::Down => {
            &&& post == (App {
                selected_index: if pre.selected_index + 1 < pre.search_result@.len() {
                    (pre.selected_index + 1) as usize
                } else {
                    pre.selected_index
                },
                ..pre
            })
            &&& cmd is None
        },
        _ => post == pre && cmd is None,
    }
}

/// Key handling on the chapter list: arrows move the cursor bounded to the
/// chapter count, the back key returns to search, and enter asks for the
/// manifest of the selected chapter.
pub open spec fn chapter_list_step(pre: App, post: App, key: NavKey, cmd: Option<NavCommand>) -> bool {
    match key {
        NavKey::Char(c) => {
            if c == 'b' {
                post == (App { screen: AppScreen::Search, selected_index: 0, ..pre }) && cmd
                    is None
            } else {
                post == pre && cmd is None
            }
        },
        NavKey::Up => {
            &&& post == (App {
                selected_index: if pre.selected_index > 0 {
                    (pre.selected_index - 1) as usize
                } else {
                    0
                },
                ..pre
            })
            &&& cmd is None
        },
        NavKey::Down => {
            &&& post == (App {
                selected_index: if pre.selected_index + 1 < pre.chapters@.len() {
                    (pre.selected_index + 1) as usize
                } else {
                    pre.selected_index
                },
                ..pre
            })
            &&& cmd is None
        },
        NavKey::Enter => {
            if pre.chapters@.len() > 0 {
                &&& post == pre
                &&& (cmd matches Some(NavCommand::FetchManifest { chapter_id }) && chapter_id@
                    == pre.chapters@[pre.selected_index as int].id@)
            } else {
                post == pre && cmd is None
            }
        },
        _ => post == pre && cmd is None,
    }
}

/// Key handling while reading, the application part: the back key returns
/// to the chapter list keeping manifest and caches, advance moves the
/// spread forward by two pages and retreat back by two, each clamped to
/// the chapter; navigation past either end is a no-op, not an error.
pub open spec fn reading_step(pre: App, post: App, key: NavKey) -> bool {
    match key {
        NavKey::Char(c) => {
            if c == 'b' {
                post == (App { screen: AppScreen::ChapterList, ..pre })
            } else if c == 'l' {
                reading_advance(pre, post)
            } else if c == 'h' {
                reading_retreat(pre, post)
            } else {
                post == pre
            }
        },
        NavKey::Right => reading_advance(pre, post),
        NavKey::Left => reading_retreat(pre, post),
        _ => post == pre,
    }
}

/// The spread moves forward by two pages when two more exist.
pub open spec fn reading_advance(pre: App, post: App) -> bool {
    if pre.can_advance() {
        post == (App { current_page: (pre.current_page + 2) as usize, ..pre })
    } else {
        post == pre
    }
}

/// The spread moves back by two pages when it is not at the start.
pub open spec fn reading_retreat(pre: App, post: App) -> bool {
    if pre.can_retreat() {
        post == (App { current_page: (pre.current_page - 2) as usize, ..pre })
    } else {
        post == pre
    }
}

/// What a reading-screen key does to the coordinator: nothing unless the
/// spread moved, in which case the new spread is queued, warmed up and
/// settled, and both caches keep their contents.
pub open spec fn reading_coord_step<V, P>(
    pre_app: App,
    post_app: App,
    pre: Coordinator<V, P>,
    post: Coordinator<V, P>,
    left_rect: Option<PanelRect>,
    right_rect: Option<PanelRect>,
) -> bool {
    &&& same_config(pre, post)
    &&& post.page_map() == pre.page_map()
    &&& post.proto_map() == pre.proto_map()
    &&& post.failed_set() == pre.failed_set()
    &&& (post_app.current_page == pre_app.current_page ==> post == pre)
    &&& (post_app.current_page != pre_app.current_page ==> post.spread_settled(
        post_app.current_page,
        left_rect,
        right_rect,
    ))
}

impl App {
    /// Handles a key on the splash screen.
    pub fn handle_splash_key(&mut self) -> (cmd: Option<NavCommand>)
        requires
            old(self).wf(),
            old(self).screen is Splash,
        ensures
            final(self).wf(),
            splash_step(*old(self), *final(self), cmd),
    {
        self.screen = AppScreen::Search;
        self.selected_index = 0;
        None
    }

    /// Handles a key on the search screen.
    pub fn handle_search_key(&mut self, key: NavKey) -> (cmd: Option<NavCommand>)
        requires
            old(self).wf(),
            old(self).screen is Search,
        ensures
            final(self).wf(),
            search_step(*old(self), *final(self), key, cmd),
    {
        match key {
            NavKey::Char(c) => {
                push_char(&mut self.search_input, c);
                None
            },
            NavKey::Backspace => {
                let _ = pop_char(&mut self.search_input);
                None
            },
            NavKey::Enter => {
                let changed = !(self.search_input == self.last_search_query);
                if !self.search_input.as_str().is_empty() && changed {
                    Some(NavCommand::Search { query: self.search_input.clone() })
                } else if self.search_result.len() > 0 {
                    let manga_id = self.search_result[self.selected_index].id.clone();
                    Some(NavCommand::FetchChapters { manga_id })
                } else {
                    None
                }
            },
            NavKey::Up => {
                if self.selected_index > 0 {
                    self.selected_index = self.selected_index - 1;
                }
                None
            },
            NavKey::Down => {
                let n = self.search_result.len();
                proof {
                    assert(self.selected_index == 0 || self.selected_index < n);
                }
                if self.selected_index + 1 < n {
                    self.selected_index = self.selected_index + 1;
                }
                None
            },
            _ => None,
        }
    }

    /// Handles a key on the chapter list screen.
    pub fn handle_chapter_list_key(&mut self, key: NavKey) -> (cmd: Option<NavCommand>)
        requires
            old(self).wf(),
            old(self).screen is ChapterList,
        ensures
            final(self).wf(),
            chapter_list_step(*old(self), *final(self), key, cmd),
    {
        match key {
            NavKey::Char(c) => {
                if c == 'b' {
                    self.screen = AppScreen::Search;
                    self.selected_index = 0;
                }
                None
            },
            NavKey::Up => {
                if self.selected_index > 0 {
                    self.selected_index = self.selected_index - 1;
                }
                None
            },
            NavKey::Down => {
                let n = self.chapters.len();
                proof {
                    assert(self.selected_index == 0 || self.selected_index < n);
                }
                if self.selected_index + 1 < n {
                    self.selected_index = self.selected_index + 1;
                }
                None
            },
            NavKey::Enter => {
                if self.chapters.len() > 0 {
                    let chapter_id = self.chapters[self.selected_index].id.clone();
                    Some(NavCommand::FetchManifest { chapter_id })
                } else {
                    None
                }
            },
            _ => None,
        }
    }

    /// Handles a key on the reading screen, moving the spread and asking
    /// the coordinator to serve and prefetch it.
    pub fn handle_reading_key<V, P>(
        &mut self,
        coord: &mut Coordinator<V, P>,
        key: NavKey,
        left_rect: Option<PanelRect>,
        right_rect: Option<PanelRect>,
    ) -> (r: Actions)
        requires
            old(self).wf(),
            old(self).screen is Reading,
            old(coord).wf(),
            old(coord).spec_page_count() == old(self).spec_page_count(),
        ensures
            final(self).wf(),
            final(coord).wf(),
            final(coord).spec_page_count() == final(self).spec_page_count(),
            reading_step(*old(self), *final(self), key),
            reading_coord_step(
                *old(self),
                *final(self),
                *old(coord),
                *final(coord),
                left_rect,
                right_rect,
            ),
    {
        match key {
            NavKey::Char(c) => {
                if c == 'b' {
                    self.screen = AppScreen::ChapterList;
                    Actions::new()
                } else if c == 'l' {
                    self.advance_spread(coord, left_rect, right_rect)
                } else if c == 'h' {
                    self.retreat_spread(coord, left_rect, right_rect)
                } else {
                    Actions::new()
                }
            },
            NavKey::Right => self.advance_spread(coord, left_rect, right_rect),
            NavKey::Left => self.retreat_spread(coord, left_rect, right_rect),
            _ => Actions::new(),
        }
    }

    /// Moves the spread forward by two pages, if two more exist, and has
    /// the coordinator serve and prefetch the new spread.
    fn advance_spread<V, P>(
        &mut self,
        coord: &mut Coordinator<V, P>,
        left_rect: Option<PanelRect>,
        right_rect: Option<PanelRect>,
    ) -> (r: Actions)
        requires
            old(self).wf(),
            old(self).screen is Reading,
            old(coord).wf(),
            old(coord).spec_page_count() == old(self).spec_page_count(),
        ensures
            final(self).wf(),
            final(coord).wf(),
            final(self).screen is Reading,
            final(coord).spec_page_count() == final(self).spec_page_count(),
            reading_advance(*old(self), *final(self)),
            reading_coord_step(
                *old(self),
                *final(self),
                *old(coord),
                *final(coord),
                left_rect,
                right_rect,
            ),
    {
        let count = match &self.image_data {
            Some(m) => m.chapter.data.len(),
            None => 0,
        };
        if count > 2 && self.current_page < count - 2 {
            self.current_page = self.current_page + 2;
            coord.ensure_spread(self.current_page, left_rect, right_rect)
        } else {
            Actions::new()
        }
    }

    /// Moves the spread back by two pages, if it is not at the start, and
    /// has the coordinator serve and prefetch the new spread.
    fn retreat_spread<V, P>(
        &mut self,
        coord: &mut Coordinator<V, P>,
        left_rect: Option<PanelRect>,
        right_rect: Option<PanelRect>,
    ) -> (r: Actions)
        requires
            old(self).wf(),
            old(self).screen is Reading,
            old(coord).wf(),
            old(coord).spec_page_count() == old(self).spec_page_count(),
        ensures
            final(self).wf(),
            final(coord).wf(),
            final(self).screen is Reading,
            final(coord).spec_page_count() == final(self).spec_page_count(),
            reading_retreat(*old(self), *final(self)),
            reading_coord_step(
                *old(self),
                *final(self),
                *old(coord),
                *final(coord),
                left_rect,
                right_rect,
            ),
    {
        if self.current_page >= 2 {
            self.current_page = self.current_page - 2;
            coord.ensure_spread(self.current_page, left_rect, right_rect)
        } else {
            Actions::new()
        }
    }

    /// Applies the outcome of a search. Success replaces the result list,
    /// remembers the query and resets the cursor; failure leaves the state
    /// exactly as it was and hands the error back to be surfaced.
    pub fn apply_search_result(
        &mut self,
        query: String,
        result: Result<Vec<MangaData>, YomuError>,
    ) -> (r: Result<(), YomuError>)
        requires
            old(self).wf(),
        ensures
            final(self).wf(),
            match result {
                Ok(data) => {
                    &&& r is Ok
                    &&& *final(self) == (App {
                        search_result: final(self).search_result,
                        last_search_query: final(self).last_search_query,
                        selected_index: 0,
                        ..*old(self)
                    })
                    &&& final(self).search_result@ == data@
                    &&& final(self).last_search_query@ == query@
                },
                Err(e) => r == Err::<(), YomuError>(e) && *final(self) == *old(self),
            },
    {
        match result {
            Ok(data) => {
                self.search_result = data;
                self.last_search_query = query;
                self.selected_index = 0;
                Ok(())
            },
            Err(e) => Err(e),
        }
    }

    /// Applies the outcome of a chapter listing. Success records the
    /// selected title, replaces the chapter list, resets the cursor and
    /// moves to the chapter list screen; failure leaves the state exactly
    /// as it was and hands the error back to be surfaced.
    pub fn apply_chapter_result(
        &mut self,
        manga: MangaData,
        result: Result<Vec<ChapterData>, YomuError>,
    ) -> (r: Result<(), YomuError>)
        requires
            old(self).wf(),
        ensures
            final(self).wf(),
            match result {
                Ok(data) => {
                    &&& r is Ok
                    &&& *final(self) == (App {
                        screen: AppScreen::ChapterList,
                        selected_manga: final(self).selected_manga,
                        chapters: final(self).chapters,
                        selected_index: 0,
                        ..*old(self)
                    })
                    &&& (final(self).selected_manga matches Some(m) && m == manga)
                    &&& final(self).chapters@ == data@
                },
                Err(e) => r == Err::<(), YomuError>(e) && *final(self) == *old(self),
            },
    {
        match result {
            Ok(data) => {
                self.selected_manga = Some(manga);
                self.chapters = data;
                self.selected_index = 0;
                self.screen = AppScreen::ChapterList;
                Ok(())
            },
            Err(e) => Err(e),
        }
    }
}

/// Handles one key press: dispatches to the current screen's handler.
/// Screens other than reading never touch the coordinator and return no
/// background work.
pub fn handle_key<V, P>(
    app: &mut App,
    coord: &mut Coordinator<V, P>,
    key: NavKey,
    left_rect: Option<PanelRect>,
    right_rect: Option<PanelRect>,
) -> (r: (Option<NavCommand>, Actions))
    requires
        old(app).wf(),
        old(coord).wf(),
        old(app).screen is Reading ==> old(coord).spec_page_count() == old(app).spec_page_count(),
    ensures
        final(app).wf(),
        final(coord).wf(),
        match old(app).screen {
            AppScreen::Splash => splash_step(*old(app), *final(app), r.0) && *final(coord)
                == *old(coord),
            AppScreen::Search => search_step(*old(app), *final(app), key, r.0) && *final(coord)
                == *old(coord),
            AppScreen::ChapterList => chapter_list_step(*old(app), *final(app), key, r.0)
                && *final(coord) == *old(coord),
            AppScreen::Reading => reading_step(*old(app), *final(app), key) && r.0 is None
                && reading_coord_step(
                *old(app),
                *final(app),
                *old(coord),
                *final(coord),
                left_rect,
                right_rect,
            ),
        },
{
    match app.screen {
        AppScreen::Splash => {
            let cmd = app.handle_splash_key();
            (cmd, Actions::new())
        },
        AppScreen::Search => {
            let cmd = app.handle_search_key(key);
            (cmd, Actions::new())
        },
        AppScreen::ChapterList => {
            let cmd = app.handle_chapter_list_key(key);
            (cmd, Actions::new())
        },
        AppScreen::Reading => {
            let actions = app.handle_reading_key(coord, key, left_rect, right_rect);
            (None, actions)
        },
    }
}

/// Opens a chapter from a fetched manifest. The manifest is validated — an
/// insecure base URL and an empty page list are hard errors that abort the
/// transition — then both caches and both tracking sets are cleared
/// atomically with the chapter change, the spread is reset to page zero,
/// and the coordinator queues the first spread and the background warm-up.
pub fn open_chapter<V, P>(
    app: &mut App,
    coord: &mut Coordinator<V, P>,
    result: Result<ImageDataResponse, YomuError>,
    left_rect: Option<PanelRect>,
    right_rect: Option<PanelRect>,
) -> (r: Result<Actions, YomuError>)
    requires
        old(app).wf(),
        old(app).screen is ChapterList,
        old(coord).wf(),
        old(coord).spec_epoch() < u64::MAX,
    ensures
        final(app).wf(),
        final(coord).wf(),
        match result {
            Err(e) => (r matches Err(e2) && e2 == e) && *final(app) == *old(app) && *final(coord)
                == *old(coord),
            Ok(m) => {
                if !is_secure_url(m.base_url@) {
                    &&& (r matches Err(e2) && e2 == YomuError::Validation)
                    &&& *final(app) == *old(app)
                    &&& *final(coord) == *old(coord)
                } else if m.chapter.data@.len() == 0 {
                    &&& (r matches Err(e2) && e2 == YomuError::State)
                    &&& *final(app) == *old(app)
                    &&& *final(coord) == *old(coord)
                } else {
                    &&& r is Ok
                    &&& *final(app) == (App {
                        screen: AppScreen::Reading,
                        image_data: final(app).image_data,
                        current_page: 0,
                        ..*old(app)
                    })
                    &&& (final(app).image_data matches Some(m2) && m2 == m)
                    &&& final(coord).spec_epoch() == old(coord).spec_epoch() + 1
                    &&& final(coord).spec_page_count() == m.chapter.data@.len()
                    &&& final(coord).page_map() =~= Map::<usize, V>::empty()
                    &&& final(coord).proto_map() =~= Map::<(usize, bool), (PanelRect, P)>::empty()
                    &&& final(coord).failed_set() =~= Set::<usize>::empty()
                    &&& final(coord).spread_settled(0, left_rect, right_rect)
                }
            },
        },
{
    match result {
        Err(e) => Err(e),
        Ok(m) => {
            match validate_manifest(&m) {
                Err(e) => Err(e),
                Ok(_) => {
                    let count = m.chapter.data.len();
                    if count == 0 {
                        Err(YomuError::State)
                    } else {
                        app.image_data = Some(m);
                        app.current_page = 0;
                        app.screen = AppScreen::Reading;
                        coord.invalidate_chapter(count);
                        let actions = coord.ensure_spread(0, left_rect, right_rect);
                        Ok(actions)
                    }
                },
            }
        },
    }
}

} // verus!
