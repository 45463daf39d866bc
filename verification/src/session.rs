//! The viewer's state and what each event does to it.
use std::sync::Arc;

use hayro::hayro_interpret::hayro_syntax::{LoadPdfError, Pdf};

use crate::images::MAX_PAGE_RENDER_BYTES;
use crate::inspection::{can_have_pages, inspect_page, inspected, load_page_count, Inspection};
use crate::listing::{entry_views, list_rows, row_views, shows, DirEntry, FileRow};
use crate::paths::{
    absolute_paths_stay_absolute, clean_paths_stay_clean, has_no_trailing_slash, is_absolute,
    is_clean, is_plain_name, join_path, joined, parent, parent_of_joined, parent_path, root,
};
use crate::reading::{read_error_message, read_error_text, ReadError};
use crate::size::{human_size, size_text};
use crate::storage::{err_msg, fs_error_text, location_for, tab_location, FsError, Location};
use crate::text::{chars_of, decimal, push_decimal};
use vstd::prelude::*;
use vstd::string::StringExecFns;

verus! {

/// Where the reader is: a directory, and perhaps a page of a document.
pub struct State {
    pub location: Location,
    /// The current directory; it always starts with `/`.
    pub path: String,
    /// The bytes of the open document. They are parsed anew for every page that is drawn.
    pub data: Option<Arc<Vec<u8>>>,
    pub page_count: usize,
    /// The page on screen, counted from 0.
    pub page_idx: usize,
    pub doc_name: String,
}

/// The line for messages, and whether the reader or the browser is on screen.
pub struct Ui {
    pub message: String,
    pub message_error: bool,
    pub viewing: bool,
}

/// What the reader shows.
pub struct Viewer {
    /// The size of the bitmap on screen, if there is one.
    pub page_img: Option<(u32, u32)>,
    pub page_h: u32,
    /// Stands in place of a page that is not drawn.
    pub page_message: String,
    /// The page, counted from 1.
    pub page_num: usize,
    pub page_count: usize,
    pub doc_name: String,
}

/// What the browser shows.
pub struct Browser {
    pub entries: Vec<FileRow>,
    pub path: String,
    pub at_root: bool,
    pub status: String,
}

/// All that the viewer keeps between events.
pub struct Session {
    pub state: State,
    pub ui: Ui,
    pub viewer: Viewer,
    /// Why the last page was not drawn.
    pub refusal: String,
}

/// `State`, mathematically.
pub struct StateView {
    pub location: Location,
    pub path: Seq<char>,
    pub data: Option<Seq<u8>>,
    pub page_count: nat,
    pub page_idx: nat,
    pub doc_name: Seq<char>,
}

/// `Ui`, mathematically.
pub struct UiView {
    pub message: Seq<char>,
    pub message_error: bool,
    pub viewing: bool,
}

/// `Viewer`, mathematically.
pub struct ViewerView {
    pub page_img: Option<(u32, u32)>,
    pub page_h: nat,
    pub page_message: Seq<char>,
    pub page_num: nat,
    pub page_count: nat,
    pub doc_name: Seq<char>,
}

/// `Session`, mathematically.
pub struct SessionView {
    pub state: StateView,
    pub ui: UiView,
    pub viewer: ViewerView,
    pub refusal: Seq<char>,
}

impl View for State {
    type V = StateView;

    open spec fn view(&self) -> StateView {
        StateView {
            location: self.location,
            path: self.path@,
            data: match self.data {
                Some(data) => Some(data@),
                None => None,
            },
            page_count: self.page_count as nat,
            page_idx: self.page_idx as nat,
            doc_name: self.doc_name@,
        }
    }
}

impl View for Ui {
    type V = UiView;

    open spec fn view(&self) -> UiView {
        UiView {
            message: self.message@,
            message_error: self.message_error,
            viewing: self.viewing,
        }
    }
}

impl View for Viewer {
    type V = ViewerView;

    open spec fn view(&self) -> ViewerView {
        ViewerView {
            page_img: self.page_img,
            page_h: self.page_h as nat,
            page_message: self.page_message@,
            page_num: self.page_num as nat,
            page_count: self.page_count as nat,
            doc_name: self.doc_name@,
        }
    }
}

impl View for Session {
    type V = SessionView;

    open spec fn view(&self) -> SessionView {
        SessionView {
            state: self.state@,
            ui: self.ui@,
            viewer: self.viewer@,
            refusal: self.refusal@,
        }
    }
}

/// The message for a file that cannot be opened.
pub open spec fn cannot_open_text() -> Seq<char> {
    "Couldn't open this file. It may not be a PDF, or it may be encrypted."@
}

/// What stands in place of a page that is predicted to cost too much to draw.
pub open spec fn too_detailed_text(page_idx: nat, predicted: u64) -> Seq<char> {
    "Page "@ + decimal(page_idx + 1) + " is too detailed to display (needs ~"@ + size_text(
        predicted as nat,
    ) + ")."@
}

impl StateView {
    /// The directory is absolute, an open document has pages, and the page on screen is one
    /// of them.
    pub open spec fn well_formed(self) -> bool {
        &&& is_absolute(self.path)
        &&& self.data is Some ==> self.page_count > 0
        &&& self.page_idx < self.page_count || self.page_idx == 0
    }

    /// The parser comes back on the open document, if there is one.
    pub open spec fn can_be_parsed(self) -> bool {
        self.data matches Some(bytes) ==> crate::document::parser_returns(bytes)
    }

    /// There is a page before the one on screen.
    pub open spec fn can_turn_back(self) -> bool {
        self.data is Some && self.page_idx > 0
    }

    /// There is a page behind the one on screen.
    pub open spec fn can_turn_forward(self) -> bool {
        self.page_idx + 1 < self.page_count
    }
}

impl UiView {
    /// After a plain message.
    pub open spec fn with_info(self, message: Seq<char>) -> UiView {
        UiView { message, message_error: false, ..self }
    }

    /// After an error message.
    pub open spec fn with_error(self, message: Seq<char>) -> UiView {
        UiView { message, message_error: true, ..self }
    }
}

impl SessionView {
    /// See `StateView::well_formed`.
    pub open spec fn well_formed(self) -> bool {
        self.state.well_formed()
    }

    /// At the top of the device's own storage, with nothing open.
    pub open spec fn initial() -> SessionView {
        SessionView {
            state: StateView {
                location: Location::User,
                path: root(),
                data: None,
                page_count: 0,
                page_idx: 0,
                doc_name: Seq::empty(),
            },
            ui: UiView { message: Seq::empty(), message_error: false, viewing: false },
            viewer: ViewerView {
                page_img: None,
                page_h: 0,
                page_message: Seq::empty(),
                page_num: 0,
                page_count: 0,
                doc_name: Seq::empty(),
            },
            refusal: Seq::empty(),
        }
    }

    /// After an error message.
    pub open spec fn with_error(self, message: Seq<char>) -> SessionView {
        SessionView { ui: self.ui.with_error(message), ..self }
    }

    /// In the directory `path`.
    pub open spec fn in_directory(self, path: Seq<char>) -> SessionView {
        SessionView { state: StateView { path, ..self.state }, ..self }
    }

    /// At the top of the location behind a tab.
    pub open spec fn at_tab(self, index: i32) -> SessionView {
        SessionView {
            state: StateView { location: tab_location(index), path: root(), ..self.state },
            ..self
        }
    }

    /// On another page.
    pub open spec fn at_page(self, page_idx: nat) -> SessionView {
        SessionView { state: StateView { page_idx, ..self.state }, ..self }
    }

    /// One page back.
    pub open spec fn turned_back(self) -> SessionView {
        if self.state.can_turn_back() {
            self.at_page((self.state.page_idx - 1) as nat)
        } else {
            self
        }
    }

    /// One page forward.
    pub open spec fn turned_forward(self) -> SessionView {
        if self.state.can_turn_forward() {
            self.at_page(self.state.page_idx + 1)
        } else {
            self
        }
    }

    /// Back in the browser, without the document.
    pub open spec fn closed(self) -> SessionView {
        SessionView {
            state: StateView { data: None, page_count: 0, page_idx: 0, ..self.state },
            ui: UiView { viewing: false, ..self.ui },
            ..self
        }
    }

    /// After a file was parsed, which gave it `pages` pages or none at all: a document with
    /// pages is taken up, and what stood in place of a page of another one goes. Anything
    /// else is an error.
    pub open spec fn accepted(
        self,
        data: Seq<u8>,
        name: Seq<char>,
        pages: Option<usize>,
    ) -> SessionView {
        match pages {
            None => self.with_error(cannot_open_text()),
            Some(n) => if n == 0 {
                self.with_error("This PDF has no pages"@)
            } else {
                SessionView {
                    state: StateView {
                        data: Some(data),
                        page_count: n as nat,
                        page_idx: 0,
                        doc_name: name,
                        ..self.state
                    },
                    viewer: ViewerView { page_message: Seq::empty(), ..self.viewer },
                    ..self
                }
            },
        }
    }

    /// After a look at the page: a page within the limit is about to be drawn, so the old
    /// one goes; one over the limit is replaced by a message.
    pub open spec fn admitted(self, inspection: Inspection) -> SessionView {
        match inspection {
            Inspection::Unreadable => SessionView { refusal: "Couldn't read this PDF"@, ..self },
            Inspection::PastEnd => self,
            Inspection::Page { count, predicted } => if predicted > MAX_PAGE_RENDER_BYTES {
                let message = too_detailed_text(self.state.page_idx, predicted);
                SessionView {
                    refusal: message,
                    viewer: ViewerView {
                        page_img: None,
                        page_h: 0,
                        page_message: message,
                        page_num: self.state.page_idx + 1,
                        page_count: count as nat,
                        doc_name: self.state.doc_name,
                    },
                    ..self
                }
            } else {
                SessionView { viewer: ViewerView { page_img: None, ..self.viewer }, ..self }
            },
        }
    }

    /// After drawing: the bitmap is on screen, or the reason why there is none is kept.
    pub open spec fn drawn(self, count: usize, bitmap: Option<(u32, u32)>) -> SessionView {
        match bitmap {
            None => SessionView { refusal: "Couldn't render this page"@, ..self },
            Some(size) => SessionView {
                viewer: ViewerView {
                    page_img: Some(size),
                    page_h: size.1 as nat,
                    page_message: ""@,
                    page_num: self.state.page_idx + 1,
                    page_count: count as nat,
                    doc_name: self.state.doc_name,
                },
                ..self
            },
        }
    }

    /// After the first page of a new document was tried: the reader comes on screen if there
    /// is a page or a message in place of one, and otherwise the document is dropped.
    pub open spec fn opened(self, rendered: bool) -> SessionView {
        if rendered || self.viewer.page_message.len() > 0 {
            SessionView { ui: UiView { viewing: true, ..self.ui.with_info(""@) }, ..self }
        } else {
            SessionView {
                state: StateView { data: None, ..self.state },
                ui: self.ui.with_error(self.refusal),
                ..self
            }
        }
    }
}

/// The page of an inspection is to be drawn.
pub open spec fn is_drawable(inspection: Inspection) -> bool {
    inspection matches Inspection::Page { count, predicted } && predicted <= MAX_PAGE_RENDER_BYTES
}

/// `ready` is the parsed document and its number of pages exactly when the page is to be
/// drawn.
pub open spec fn is_handed_out(
    ready: Option<(Pdf, usize)>,
    outcome: Result<Pdf, LoadPdfError>,
    inspection: Inspection,
) -> bool {
    match ready {
        Some(document) => {
            &&& is_drawable(inspection)
            &&& outcome == Ok::<Pdf, LoadPdfError>(document.0)
            &&& document.1 == crate::document::page_count(document.0)
        },
        None => !is_drawable(inspection),
    }
}

/// What getting the page `page_idx` of a document ready can come to: a look at the page, the
/// decision on it, and the parsed document where the page is to be drawn.
pub open spec fn page_begun(
    bytes: Seq<u8>,
    page_idx: usize,
    before: SessionView,
    after: SessionView,
    ready: Option<(Pdf, usize)>,
) -> bool {
    exists|outcome: Result<Pdf, LoadPdfError>, inspection: Inspection| #[trigger]
        crate::document::load_outcome(bytes, outcome) && #[trigger] inspected(
            outcome,
            page_idx,
            inspection,
        ) && after == before.admitted(inspection) && is_handed_out(ready, outcome, inspection)
}

/// Keeps the reason why a page was not drawn.
pub fn set_refusal(refusal: &mut String, msg: &str)
    ensures
        final(refusal)@ == msg@,
{
    *refusal = msg.to_owned();
}

/// Shows a plain message.
pub fn show_info(ui: &mut Ui, msg: &str)
    ensures
        final(ui)@ == old(ui)@.with_info(msg@),
{
    ui.message = msg.to_owned();
    ui.message_error = false;
}

/// Shows an error message.
pub fn show_error(ui: &mut Ui, msg: String)
    ensures
        final(ui)@ == old(ui)@.with_error(msg@),
{
    ui.message = msg;
    ui.message_error = true;
}

/// What stands in place of a page that is predicted to cost too much to draw.
fn too_detailed_message(page_idx: usize, predicted: u64) -> (message: String)
    requires
        page_idx < usize::MAX,
    ensures
        message@ == too_detailed_text(page_idx as nat, predicted),
{
    let mut message: String = "Page ".to_owned();
    push_decimal(&mut message, (page_idx + 1) as u64);
    message.append(" is too detailed to display (needs ~");
    message.append(human_size(predicted).as_str());
    message.append(").");
    message
}

impl Browser {
    /// What the browser shows of the directory `path`, from the entries that were read and
    /// the report, if there was one, that ended the reading.
    pub fn of_directory(
        path: &str,
        entries: &Vec<DirEntry>,
        failure: &Option<FsError>,
    ) -> (browser: Browser)
        ensures
            shows(entry_views(entries@), row_views(browser.entries@)),
            browser.path@ == path@,
            browser.at_root == (path@ == root()),
            browser.status@ == (match *failure {
                Some(error) => fs_error_text(error),
                None => Seq::<char>::empty(),
            }),
    {
        let letters: Vec<char> = chars_of(path);
        let at_root: bool = letters.len() == 1 && letters[0] == '/';
        proof {
            if at_root {
                assert(path@ == root());
            }
        }
        Browser {
            entries: list_rows(entries),
            path: path.to_owned(),
            at_root,
            status: match failure {
                Some(error) => err_msg(error),
                None => String::new(),
            },
        }
    }
}

impl Session {
    /// At the top of the device's own storage, with nothing open.
    pub fn new() -> (session: Session)
        ensures
            session@ == SessionView::initial(),
            session@.well_formed(),
    {
        proof {
            reveal_strlit("/");
            reveal_strlit("");
            assert("/"@ == root());
            assert(""@ == Seq::<char>::empty());
        }
        Session {
            state: State {
                location: Location::User,
                path: "/".to_owned(),
                data: None,
                page_count: 0,
                page_idx: 0,
                doc_name: String::new(),
            },
            ui: Ui { message: String::new(), message_error: false, viewing: false },
            viewer: Viewer {
                page_img: None,
                page_h: 0,
                page_message: String::new(),
                page_num: 0,
                page_count: 0,
                doc_name: String::new(),
            },
            refusal: String::new(),
        }
    }

    /// Another tab was chosen.
    pub fn location_changed(&mut self, index: i32)
        ensures
            final(self)@ == old(self)@.at_tab(index),
    {
        proof {
            reveal_strlit("/");
            assert("/"@ == root());
        }
        self.state.location = location_for(index);
        self.state.path = "/".to_owned();
    }

    /// The path of an entry of the current directory.
    pub fn entry_path(&self, name: &str) -> (path: String)
        ensures
            path@ == joined(self@.state.path, name@),
    {
        join_path(self.state.path.as_str(), name)
    }

    /// A folder was chosen.
    pub fn enter_folder(&mut self, name: &str)
        ensures
            final(self)@ == old(self)@.in_directory(joined(old(self)@.state.path, name@)),
    {
        self.state.path = self.entry_path(name);
    }

    /// The way back up was chosen.
    pub fn go_back(&mut self)
        ensures
            final(self)@ == old(self)@.in_directory(parent(old(self)@.state.path)),
    {
        self.state.path = parent_path(self.state.path.as_str());
    }

    /// A file was chosen and could not be read.
    pub fn read_failed(&mut self, error: &ReadError)
        ensures
            final(self)@ == old(self)@.with_error(read_error_text(*error)),
    {
        show_error(&mut self.ui, read_error_message(error));
    }

    /// Takes up a document, from the number of pages that it turned out to have. Tells
    /// whether there is a first page to show.
    pub fn accept_document(&mut self, data: Arc<Vec<u8>>, name: &str, pages: Option<usize>) -> (
        accepted: bool)
        ensures
            final(self)@ == old(self)@.accepted(data@, name@, pages),
            accepted == (pages matches Some(n) && n > 0),
    {
        match pages {
            None => {
                show_error(
                    &mut self.ui,
                    "Couldn't open this file. It may not be a PDF, or it may be encrypted.".to_owned(),
                );
                false
            },
            Some(n) => {
                if n == 0 {
                    show_error(&mut self.ui, "This PDF has no pages".to_owned());
                    false
                } else {
                    self.state.data = Some(data);
                    self.state.page_count = n;
                    self.state.page_idx = 0;
                    self.state.doc_name = name.to_owned();
                    self.viewer.page_message = String::new();
                    true
                }
            },
        }
    }

    /// A file was chosen and read. Tells whether there is a first page to show.
    pub fn open_document(&mut self, data: Arc<Vec<u8>>, name: &str) -> (accepted: bool)
        requires
            crate::document::parser_returns(data@),
        ensures
            exists|pages: Option<usize>| #[trigger]
                can_have_pages(data@, pages) && final(self)@ == old(self)@.accepted(
                    data@,
                    name@,
                    pages,
                ) && accepted == (pages matches Some(n) && n > 0),
    {
        let pages: Option<usize> = load_page_count(&data);
        self.accept_document(data, name, pages)
    }

    /// The first page of a new document was tried.
    pub fn finish_open(&mut self, rendered: bool)
        ensures
            final(self)@ == old(self)@.opened(rendered),
    {
        if rendered || !self.viewer.page_message.as_str().is_empty() {
            show_info(&mut self.ui, "");
            self.ui.viewing = true;
        } else {
            self.state.data = None;
            show_error(&mut self.ui, self.refusal.clone());
        }
    }

    /// The reader was left.
    pub fn close_viewer(&mut self)
        ensures
            final(self)@ == old(self)@.closed(),
    {
        self.state.data = None;
        self.state.page_count = 0;
        self.state.page_idx = 0;
        self.ui.viewing = false;
    }

    /// The page before was asked for. Tells whether there is another page to show.
    pub fn prev_page(&mut self) -> (turned: bool)
        ensures
            final(self)@ == old(self)@.turned_back(),
            turned == old(self)@.state.can_turn_back(),
    {
        if self.state.data.is_some() && self.state.page_idx > 0 {
            self.state.page_idx = self.state.page_idx - 1;
            true
        } else {
            false
        }
    }

    /// The page behind was asked for. Tells whether there is another page to show.
    pub fn next_page(&mut self) -> (turned: bool)
        requires
            old(self)@.state.page_idx < usize::MAX,
        ensures
            final(self)@ == old(self)@.turned_forward(),
            turned == old(self)@.state.can_turn_forward(),
    {
        if self.state.page_idx + 1 < self.state.page_count {
            self.state.page_idx = self.state.page_idx + 1;
            true
        } else {
            false
        }
    }

    /// Decides on a page after a look at it. Tells whether it is to be drawn.
    pub fn admit_page(&mut self, inspection: Inspection) -> (drawable: bool)
        requires
            old(self)@.state.page_idx < usize::MAX,
        ensures
            final(self)@ == old(self)@.admitted(inspection),
            drawable == is_drawable(inspection),
    {
        match inspection {
            Inspection::Unreadable => {
                set_refusal(&mut self.refusal, "Couldn't read this PDF");
                false
            },
            Inspection::PastEnd => false,
            Inspection::Page { count, predicted } => {
                if predicted > MAX_PAGE_RENDER_BYTES {
                    let message: String = too_detailed_message(self.state.page_idx, predicted);
                    set_refusal(&mut self.refusal, message.as_str());
                    self.viewer.page_img = None;
                    self.viewer.page_h = 0;
                    self.viewer.page_message = message;
                    self.viewer.page_num = self.state.page_idx + 1;
                    self.viewer.page_count = count;
                    self.viewer.doc_name = self.state.doc_name.clone();
                    false
                } else {
                    self.viewer.page_img = None;
                    true
                }
            },
        }
    }

    /// Gets the current page ready to be drawn: the parsed document and its number of pages,
    /// or nothing where the page is not to be drawn.
    pub fn begin_page(&mut self) -> (ready: Option<(Pdf, usize)>)
        requires
            old(self)@.state.page_idx < usize::MAX,
            old(self)@.state.can_be_parsed(),
        ensures
            match old(self)@.state.data {
                None => ready is None && final(self)@ == old(self)@,
                Some(bytes) => page_begun(
                    bytes,
                    old(self).state.page_idx,
                    old(self)@,
                    final(self)@,
                    ready,
                ),
            },
            ready matches Some(document) ==> crate::document::page_lookups_return(document.0),
    {
        let data: Arc<Vec<u8>> = match &self.state.data {
            None => {
                return None;
            },
            Some(data) => data.clone(),
        };
        let (inspection, parsed): (Inspection, Option<Pdf>) = inspect_page(
            &data,
            self.state.page_idx,
        );
        let ghost outcome = choose|outcome: Result<Pdf, LoadPdfError>| #[trigger]
            crate::document::load_outcome(data@, outcome) && inspected(
                outcome,
                self.state.page_idx,
                inspection,
            ) && (inspection is Page ==> parsed is Some && outcome == Ok::<Pdf, LoadPdfError>(
                parsed->0,
            ));
        let drawable: bool = self.admit_page(inspection);
        assert(crate::document::load_outcome(data@, outcome));
        assert(inspected(outcome, old(self).state.page_idx, inspection));
        assert(self@ == old(self)@.admitted(inspection));
        assert(old(self)@.state.data == Some(data@));
        let ready: Option<(Pdf, usize)> = match (inspection, parsed) {
            (Inspection::Page { count, .. }, Some(pdf)) if drawable => Some((pdf, count)),
            _ => None,
        };
        assert(is_handed_out(ready, outcome, inspection));
        assert(page_begun(data@, old(self).state.page_idx, old(self)@, self@, ready));
        ready
    }

    /// The current page was drawn into a bitmap of this size, or drawing it failed. Tells
    /// whether there is a page on screen now.
    pub fn finish_page(&mut self, count: usize, bitmap: Option<(u32, u32)>) -> (rendered: bool)
        requires
            old(self)@.state.page_idx < usize::MAX,
        ensures
            final(self)@ == old(self)@.drawn(count, bitmap),
            rendered == (bitmap is Some),
    {
        match bitmap {
            None => {
                set_refusal(&mut self.refusal, "Couldn't render this page");
                false
            },
            Some(size) => {
                self.viewer.page_message = "".to_owned();
                self.viewer.page_img = Some(size);
                self.viewer.page_h = size.1;
                self.viewer.page_num = self.state.page_idx + 1;
                self.viewer.page_count = count;
                self.viewer.doc_name = self.state.doc_name.clone();
                true
            },
        }
    }
}

/// Whatever happens, the directory stays absolute, an open document has pages, and the page
/// on screen is one of them.
pub proof fn events_keep_sessions_well_formed(
    s: SessionView,
    index: i32,
    name: Seq<char>,
    message: Seq<char>,
    data: Seq<u8>,
    pages: Option<usize>,
    inspection: Inspection,
    count: usize,
    bitmap: Option<(u32, u32)>,
    rendered: bool,
)
    requires
        s.well_formed(),
    ensures
        s.at_tab(index).well_formed(),
        s.in_directory(joined(s.state.path, name)).well_formed(),
        s.in_directory(parent(s.state.path)).well_formed(),
        s.with_error(message).well_formed(),
        s.accepted(data, name, pages).well_formed(),
        s.admitted(inspection).well_formed(),
        s.drawn(count, bitmap).well_formed(),
        s.opened(rendered).well_formed(),
        s.turned_back().well_formed(),
        s.turned_forward().well_formed(),
        s.closed().well_formed(),
{
    absolute_paths_stay_absolute(s.state.path, name);
}

/// A document that was parsed to be taken up can be parsed again for every page: where a
/// session starts with no document, or with one that can be parsed, no event changes that.
pub proof fn open_documents_can_be_parsed_again(
    s: SessionView,
    index: i32,
    path: Seq<char>,
    name: Seq<char>,
    message: Seq<char>,
    data: Seq<u8>,
    pages: Option<usize>,
    inspection: Inspection,
    count: usize,
    bitmap: Option<(u32, u32)>,
    rendered: bool,
)
    requires
        s.state.can_be_parsed(),
        can_have_pages(data, pages),
    ensures
        SessionView::initial().state.can_be_parsed(),
        s.at_tab(index).state.can_be_parsed(),
        s.in_directory(path).state.can_be_parsed(),
        s.with_error(message).state.can_be_parsed(),
        s.accepted(data, name, pages).state.can_be_parsed(),
        s.admitted(inspection).state.can_be_parsed(),
        s.drawn(count, bitmap).state.can_be_parsed(),
        s.opened(rendered).state.can_be_parsed(),
        s.turned_back().state.can_be_parsed(),
        s.turned_forward().state.can_be_parsed(),
        s.closed().state.can_be_parsed(),
{
}

/// Going into a folder and back up changes nothing, and the way stays clean where it was.
pub proof fn folder_and_back(s: SessionView, name: Seq<char>)
    requires
        has_no_trailing_slash(s.state.path),
        !name.contains('/'),
    ensures
        ({
            let inside = s.in_directory(joined(s.state.path, name));
            &&& inside.in_directory(parent(inside.state.path)) == s
            &&& is_clean(s.state.path) && is_plain_name(name) ==> is_clean(inside.state.path)
        }),
{
    parent_of_joined(s.state.path, name);
    if is_clean(s.state.path) {
        clean_paths_stay_clean(s.state.path, name);
    }
}

/// Turning a page and turning back leads to the same page, both ways.
pub proof fn there_and_back(s: SessionView)
    requires
        s.well_formed(),
    ensures
        s.state.data is Some && s.state.can_turn_forward() ==> s.turned_forward().turned_back()
            == s,
        s.state.can_turn_back() ==> s.turned_back().turned_forward() == s,
{
}

/// Whatever becomes of a page, the document stays open at that page, and the message line
/// and the screen stay as they are.
pub proof fn pages_leave_the_document_open(
    s: SessionView,
    inspection: Inspection,
    count: usize,
    bitmap: Option<(u32, u32)>,
)
    ensures
        s.admitted(inspection).state == s.state,
        s.admitted(inspection).ui == s.ui,
        s.drawn(count, bitmap).state == s.state,
        s.drawn(count, bitmap).ui == s.ui,
{
}

/// The bitmap on screen is given up before another one is made.
pub proof fn old_bitmap_goes_first(s: SessionView, inspection: Inspection)
    requires
        inspection is Page,
    ensures
        s.admitted(inspection).viewer.page_img is None,
{
}

/// A first page that is refused is no refused document: the reader comes on screen with a
/// message in place of the page.
pub proof fn refused_first_page_opens_the_document(s: SessionView, count: usize, predicted: u64)
    requires
        predicted > MAX_PAGE_RENDER_BYTES,
    ensures
        ({
            let after = s.admitted(Inspection::Page { count, predicted }).opened(false);
            &&& after.state == s.state
            &&& after.ui.viewing
            &&& !after.ui.message_error
            &&& after.viewer.page_message == too_detailed_text(s.state.page_idx, predicted)
            &&& after.viewer.page_message.len() > 0
        }),
{
    reveal_strlit("Page ");
}

/// A file that the parser rejects or that has no pages gives an error message and changes
/// nothing else.
pub proof fn bad_files_give_an_error(s: SessionView, data: Seq<u8>, name: Seq<char>)
    ensures
        s.accepted(data, name, None).ui.message_error,
        s.accepted(data, name, None).ui.message.len() > 0,
        s.accepted(data, name, None) == s.with_error(s.accepted(data, name, None).ui.message),
        s.accepted(data, name, Some(0)).ui.message_error,
        s.accepted(data, name, Some(0)).ui.message.len() > 0,
        s.accepted(data, name, Some(0)) == s.with_error(
            s.accepted(data, name, Some(0)).ui.message,
        ),
{
    reveal_strlit("Couldn't open this file. It may not be a PDF, or it may be encrypted.");
    reveal_strlit("This PDF has no pages");
}

/// Where the first page of a new document can be neither read nor drawn, the document is
/// dropped with an error message, whatever was on screen before.
pub proof fn failed_first_page_gives_an_error(
    s: SessionView,
    data: Seq<u8>,
    name: Seq<char>,
    pages: usize,
    count: usize,
    predicted: u64,
)
    requires
        pages > 0,
        predicted <= MAX_PAGE_RENDER_BYTES,
    ensures
        ({
            let taken = s.accepted(data, name, Some(pages));
            let unread = taken.admitted(Inspection::Unreadable).opened(false);
            let missing = taken.admitted(Inspection::PastEnd).opened(false);
            let undrawn = taken.admitted(Inspection::Page { count, predicted }).drawn(
                count,
                None,
            ).opened(false);
            &&& unread.ui.message_error && unread.ui.message == "Couldn't read this PDF"@
            &&& unread.ui.message.len() > 0
            &&& unread.state.data is None && unread.ui.viewing == s.ui.viewing
            &&& missing.ui.message_error && missing.ui.message == s.refusal
            &&& missing.state.data is None && missing.ui.viewing == s.ui.viewing
            &&& undrawn.ui.message_error && undrawn.ui.message == "Couldn't render this page"@
            &&& undrawn.ui.message.len() > 0
            &&& undrawn.state.data is None && undrawn.ui.viewing == s.ui.viewing
        }),
{
    reveal_strlit("Couldn't read this PDF");
    reveal_strlit("Couldn't render this page");
}

/// Leaving the reader drops the document and leads back to the directory that it was opened
/// from.
pub proof fn closing_drops_the_document(s: SessionView)
    ensures
        s.closed().state.data is None,
        !s.closed().state.can_turn_back(),
        !s.closed().state.can_turn_forward(),
        !s.closed().ui.viewing,
        s.closed().state.location == s.state.location,
        s.closed().state.path == s.state.path,
{
}

} // verus!
