//! What every event does to the viewer, and what it leaves alone.
use std::sync::Arc;

use hayro::hayro_interpret::hayro_syntax::{LoadPdfError, Pdf};
use vstd::prelude::*;

use crate::inspection::Inspection;
use crate::laws::files::{
    leads_into, leads_out, lists, lower_names, tells_of_read, tells_of_report,
};
use crate::laws::pages::{has_pages, looks_like};
use crate::laws::words::{is_numeral, reads_as_size};
use crate::listing::DirEntry;
use crate::reading::ReadError;
use crate::session::{
    set_refusal, show_error, show_info, Browser, Session, SessionView, State, Ui, Viewer,
};
use crate::storage::FsError;

verus! {

/// The bytes of a document, if there is one.
pub open spec fn bytes_of(data: Option<Arc<Vec<u8>>>) -> Option<Seq<u8>> {
    match data {
        Some(data) => Some(data@),
        None => None,
    }
}

/// The same directory of the same location.
pub open spec fn same_place(a: State, b: State) -> bool {
    a.location == b.location && a.path@ == b.path@
}

/// The same document at the same page.
pub open spec fn same_document(a: State, b: State) -> bool {
    &&& bytes_of(a.data) == bytes_of(b.data)
    &&& a.page_count == b.page_count
    &&& a.page_idx == b.page_idx
    &&& a.doc_name@ == b.doc_name@
}

/// The same message line and the same screen.
pub open spec fn same_ui(a: Ui, b: Ui) -> bool {
    a.message@ == b.message@ && a.message_error == b.message_error && a.viewing == b.viewing
}

/// The same reader but for the bitmap.
pub open spec fn same_viewer_but_bitmap(a: Viewer, b: Viewer) -> bool {
    &&& a.page_h == b.page_h
    &&& a.page_message@ == b.page_message@
    &&& a.page_num == b.page_num
    &&& a.page_count == b.page_count
    &&& a.doc_name@ == b.doc_name@
}

/// The same reader.
pub open spec fn same_viewer(a: Viewer, b: Viewer) -> bool {
    a.page_img == b.page_img && same_viewer_but_bitmap(a, b)
}

/// The same document, message line, reader and refusal: at most the directory differs.
pub open spec fn same_but_place(a: Session, b: Session) -> bool {
    &&& same_document(a.state, b.state)
    &&& same_ui(a.ui, b.ui)
    &&& same_viewer(a.viewer, b.viewer)
    &&& a.refusal@ == b.refusal@
}

/// The same directory, document, reader and refusal: at most the message line differs.
pub open spec fn same_but_ui(a: Session, b: Session) -> bool {
    &&& same_place(a.state, b.state)
    &&& same_document(a.state, b.state)
    &&& same_viewer(a.viewer, b.viewer)
    &&& a.refusal@ == b.refusal@
}

/// The same session.
pub open spec fn same_session(a: Session, b: Session) -> bool {
    same_but_ui(a, b) && same_ui(a.ui, b.ui)
}

/// The message line shows `message` as an error, on the same screen.
pub open spec fn shows_error(before: Ui, after: Ui, message: Seq<char>) -> bool {
    after.message@ == message && after.message_error && after.viewing == before.viewing
}

/// `text` says that the page `number`, in digits `numeral`, needs `predicted` bytes, told as
/// `size`.
pub open spec fn names_page_and_size(
    text: Seq<char>,
    number: int,
    predicted: u64,
    numeral: Seq<char>,
    size: Seq<char>,
) -> bool {
    &&& is_numeral(numeral, number)
    &&& reads_as_size(size, predicted as int)
    &&& text == "Page "@ + numeral + " is too detailed to display (needs ~"@ + size + ")."@
}

/// `text` says that the page `number` is too detailed, and how many bytes it needs.
pub open spec fn tells_of_detail(text: Seq<char>, number: int, predicted: u64) -> bool {
    exists|numeral: Seq<char>, size: Seq<char>| #[trigger]
        names_page_and_size(text, number, predicted, numeral, size)
}

/// A session starts in the browser, at the top of the device's own storage, with nothing open
/// and nothing said.
pub proof fn a_session_starts_at_the_top(s: Session)
    requires
        call_ensures(Session::new, (), s),
    ensures
        s.state.location is User,
        s.state.path@ == "/"@,
        s.state.data is None,
        s.state.page_count == 0 && s.state.page_idx == 0 && s.state.doc_name@.len() == 0,
        s.ui.message@.len() == 0 && !s.ui.message_error && !s.ui.viewing,
        s.viewer.page_img is None && s.viewer.page_h == 0 && s.viewer.page_message@.len() == 0,
        s.viewer.page_num == 0 && s.viewer.page_count == 0 && s.viewer.doc_name@.len() == 0,
        s.refusal@.len() == 0,
{
    reveal_strlit("/");
}

/// A tab leads to the top of its location and changes nothing else.
pub proof fn a_tab_leads_to_the_top(s: &mut Session, index: i32)
    requires
        call_ensures(Session::location_changed, (s, index), ()),
    ensures
        final(s).state.location is Airlock <==> index == 1,
        final(s).state.location is Usb <==> index == 2,
        final(s).state.path@ == "/"@,
        same_but_place(*old(s), *final(s)),
{
    reveal_strlit("/");
}

/// The path of an entry is the directory and its name.
pub proof fn an_entry_is_in_the_directory(s: &Session, name: &str, path: String)
    requires
        call_ensures(Session::entry_path, (s, name), path),
    ensures
        leads_into(s.state.path@, name@, path@),
{
    crate::laws::files::joined_leads_into(s.state.path@, name@);
}

/// A folder leads one name down in the same location and changes nothing else.
pub proof fn a_folder_leads_down(s: &mut Session, name: &str)
    requires
        call_ensures(Session::enter_folder, (s, name), ()),
    ensures
        leads_into(old(s).state.path@, name@, final(s).state.path@),
        final(s).state.location == old(s).state.location,
        same_but_place(*old(s), *final(s)),
{
    crate::laws::files::joined_leads_into(old(s).state.path@, name@);
}

/// The way back leads one name up in the same location and changes nothing else.
pub proof fn the_way_back_leads_up(s: &mut Session)
    requires
        call_ensures(Session::go_back, (s,), ()),
    ensures
        leads_out(old(s).state.path@, final(s).state.path@),
        final(s).state.location == old(s).state.location,
        same_but_place(*old(s), *final(s)),
{
    crate::laws::files::parent_leads_out(old(s).state.path@);
}

/// A failed read is told as an error and changes nothing else.
pub proof fn a_failed_read_is_told(s: &mut Session, error: &ReadError)
    requires
        call_ensures(Session::read_failed, (s, error), ()),
    ensures
        tells_of_read(*error, final(s).ui.message@),
        shows_error(old(s).ui, final(s).ui, final(s).ui.message@),
        same_but_ui(*old(s), *final(s)),
{
    crate::laws::files::read_error_text_tells(*error);
}

/// What taking up a file comes to, from the number of pages that it turned out to have. A
/// document with pages is taken up whole and at its first page, and no message stands in
/// place of a page; the directory and the message line stay. Anything else is told as an
/// error and changes nothing else.
pub open spec fn is_taken_up(
    before: Session,
    after: Session,
    data: Seq<u8>,
    name: Seq<char>,
    pages: Option<usize>,
) -> bool {
    match pages {
        Some(n) if n > 0 => {
            &&& bytes_of(after.state.data) == Some(data)
            &&& after.state.page_count == n
            &&& after.state.page_idx == 0
            &&& after.state.doc_name@ == name
            &&& same_place(before.state, after.state)
            &&& same_ui(before.ui, after.ui)
            &&& after.viewer.page_message@.len() == 0
            &&& after.viewer.page_img == before.viewer.page_img
            &&& after.viewer.page_h == before.viewer.page_h
            &&& after.viewer.page_num == before.viewer.page_num
            &&& after.viewer.page_count == before.viewer.page_count
            &&& after.viewer.doc_name@ == before.viewer.doc_name@
            &&& after.refusal@ == before.refusal@
        },
        Some(_) => {
            &&& shows_error(before.ui, after.ui, "This PDF has no pages"@)
            &&& same_but_ui(before, after)
        },
        None => {
            &&& shows_error(
                before.ui,
                after.ui,
                "Couldn't open this file. It may not be a PDF, or it may be encrypted."@,
            )
            &&& same_but_ui(before, after)
        },
    }
}

/// A document is taken up at its first page with all its pages; see [`is_taken_up`].
pub proof fn a_document_is_taken_up_at_its_first_page(
    s: &mut Session,
    data: Arc<Vec<u8>>,
    name: &str,
    pages: Option<usize>,
    accepted: bool,
)
    requires
        call_ensures(Session::accept_document, (s, data, name, pages), accepted),
    ensures
        accepted <==> pages is Some && pages->0 > 0,
        is_taken_up(*old(s), *final(s), data@, name@, pages),
{
}

/// A file is opened with the pages that the parser lists.
pub proof fn a_file_is_opened_with_its_pages(
    s: &mut Session,
    data: Arc<Vec<u8>>,
    name: &str,
    accepted: bool,
)
    requires
        call_ensures(Session::open_document, (s, data, name), accepted),
    ensures
        exists|pages: Option<usize>| #[trigger]
            has_pages(data@, pages) && (accepted <==> pages is Some && pages->0 > 0)
                && is_taken_up(*old(s), *final(s), data@, name@, pages),
{
    let pages = choose|pages: Option<usize>| #[trigger]
        crate::inspection::can_have_pages(data@, pages) && final(s)@ == old(s)@.accepted(
            data@,
            name@,
            pages,
        ) && accepted == (pages matches Some(n) && n > 0);
    crate::laws::pages::possible_pages_are_listed(data@, pages);
    assert(has_pages(data@, pages));
}

/// The reader comes on screen where there is a page or a message in place of one. Otherwise
/// the document is dropped, and the reason why there is no page is told as an error.
pub proof fn an_opened_document_is_shown_or_dropped(s: &mut Session, rendered: bool)
    requires
        call_ensures(Session::finish_open, (s, rendered), ()),
    ensures
        rendered || old(s).viewer.page_message@.len() > 0 ==> {
            &&& final(s).ui.viewing && !final(s).ui.message_error
            &&& final(s).ui.message@.len() == 0
            &&& same_but_ui(*old(s), *final(s))
        },
        !rendered && old(s).viewer.page_message@.len() == 0 ==> {
            &&& final(s).state.data is None
            &&& final(s).state.page_count == old(s).state.page_count
            &&& final(s).state.page_idx == old(s).state.page_idx
            &&& final(s).state.doc_name@ == old(s).state.doc_name@
            &&& same_place(old(s).state, final(s).state)
            &&& shows_error(old(s).ui, final(s).ui, old(s).refusal@)
            &&& same_viewer(old(s).viewer, final(s).viewer)
            &&& final(s).refusal@ == old(s).refusal@
        },
{
    reveal_strlit("");
}

/// Leaving the reader drops the document and its pages, leads back to the browser, and changes
/// nothing else.
pub proof fn leaving_the_reader_drops_the_document(s: &mut Session)
    requires
        call_ensures(Session::close_viewer, (s,), ()),
    ensures
        final(s).state.data is None,
        final(s).state.page_count == 0 && final(s).state.page_idx == 0,
        final(s).state.doc_name@ == old(s).state.doc_name@,
        same_place(old(s).state, final(s).state),
        !final(s).ui.viewing,
        final(s).ui.message@ == old(s).ui.message@,
        final(s).ui.message_error == old(s).ui.message_error,
        same_viewer(old(s).viewer, final(s).viewer),
        final(s).refusal@ == old(s).refusal@,
{
}

/// All but the number of the page is the same.
pub open spec fn same_but_page(a: Session, b: Session) -> bool {
    &&& same_place(a.state, b.state)
    &&& bytes_of(a.state.data) == bytes_of(b.state.data)
    &&& a.state.page_count == b.state.page_count
    &&& a.state.doc_name@ == b.state.doc_name@
    &&& same_ui(a.ui, b.ui)
    &&& same_viewer(a.viewer, b.viewer)
    &&& a.refusal@ == b.refusal@
}

/// Turning forward leads to the very next page where there is one, and otherwise nowhere;
/// nothing else changes.
pub proof fn turning_forward_leads_to_the_next_page(s: &mut Session, turned: bool)
    requires
        call_ensures(Session::next_page, (s,), turned),
    ensures
        turned <==> old(s).state.page_idx + 1 < old(s).state.page_count,
        final(s).state.page_idx == old(s).state.page_idx + (if turned {
            1int
        } else {
            0int
        }),
        same_but_page(*old(s), *final(s)),
{
}

/// Turning back leads to the page just before where there is one and a document is open, and
/// otherwise nowhere; nothing else changes.
pub proof fn turning_back_leads_to_the_page_before(s: &mut Session, turned: bool)
    requires
        call_ensures(Session::prev_page, (s,), turned),
    ensures
        turned <==> old(s).state.data is Some && old(s).state.page_idx > 0,
        final(s).state.page_idx == old(s).state.page_idx - (if turned {
            1int
        } else {
            0int
        }),
        same_but_page(*old(s), *final(s)),
{
}

/// A session after turning forward `times` times.
pub open spec fn turned_forward_times(s: SessionView, times: nat) -> SessionView
    decreases times,
{
    if times == 0 {
        s
    } else {
        turned_forward_times(s, (times - 1) as nat).turned_forward()
    }
}

/// A session after turning back `times` times.
pub open spec fn turned_back_times(s: SessionView, times: nat) -> SessionView
    decreases times,
{
    if times == 0 {
        s
    } else {
        turned_back_times(s, (times - 1) as nat).turned_back()
    }
}

/// Every page of a document is reached from its first page by turning forward as often as
/// there are pages before it, and its first page again by turning back as often.
pub proof fn every_page_is_reached(s: SessionView, page: nat)
    requires
        s.state.data is Some,
        s.state.page_idx == 0,
        page < s.state.page_count,
    ensures
        turned_forward_times(s, page).state.page_idx == page,
        turned_back_times(turned_forward_times(s, page), page) == s,
{
    turns_forward(s, page);
    let there = turned_forward_times(s, page);
    turns_back(there, page);
    assert(turned_back_times(there, page) == s);
}

proof fn turns_forward(s: SessionView, times: nat)
    requires
        s.state.page_idx + times < s.state.page_count || times == 0,
    ensures
        turned_forward_times(s, times) == s.at_page(s.state.page_idx + times),
    decreases times,
{
    if times > 0 {
        turns_forward(s, (times - 1) as nat);
    }
}

proof fn turns_back(s: SessionView, times: nat)
    requires
        s.state.data is Some,
        times <= s.state.page_idx,
    ensures
        turned_back_times(s, times) == s.at_page((s.state.page_idx - times) as nat),
    decreases times,
{
    if times > 0 {
        turns_back(s, (times - 1) as nat);
    }
}

/// What a look at a page comes to. A page of up to 32 MB is to be drawn: the bitmap on screen
/// goes and all else stays. A page that costs more is replaced by a message that names it and
/// its cost, which is also kept as the refusal. A file that cannot be read is kept as a
/// refusal, and a page that is not there changes nothing.
pub open spec fn is_decided(before: Session, after: Session, look: Inspection) -> bool {
    &&& same_place(before.state, after.state)
    &&& same_document(before.state, after.state)
    &&& same_ui(before.ui, after.ui)
    &&& match look {
        Inspection::Unreadable => {
            &&& after.refusal@ == "Couldn't read this PDF"@
            &&& same_viewer(before.viewer, after.viewer)
        },
        Inspection::PastEnd => {
            &&& after.refusal@ == before.refusal@
            &&& same_viewer(before.viewer, after.viewer)
        },
        Inspection::Page { count, predicted } => if predicted <= 33554432 {
            &&& after.viewer.page_img is None
            &&& same_viewer_but_bitmap(before.viewer, after.viewer)
            &&& after.refusal@ == before.refusal@
        } else {
            &&& tells_of_detail(after.refusal@, before.state.page_idx + 1, predicted)
            &&& after.viewer.page_message@ == after.refusal@
            &&& after.viewer.page_img is None
            &&& after.viewer.page_h == 0
            &&& after.viewer.page_num == before.state.page_idx + 1
            &&& after.viewer.page_count == count
            &&& after.viewer.doc_name@ == before.state.doc_name@
        },
    }
}

/// A page is to be drawn exactly where it is there and costs at most 32 MB; see
/// [`is_decided`].
pub proof fn a_page_within_the_limit_is_drawn(s: &mut Session, look: Inspection, drawable: bool)
    requires
        call_ensures(Session::admit_page, (s, look), drawable),
    ensures
        drawable <==> (look matches Inspection::Page { count, predicted } && predicted <= 33554432),
        is_decided(*old(s), *final(s), look),
{
    admission_is_decided(*old(s), *final(s), look);
}

proof fn admission_is_decided(before: Session, after: Session, look: Inspection)
    requires
        after@ == before@.admitted(look),
    ensures
        is_decided(before, after, look),
{
    if let Inspection::Page { count, predicted } = look {
        let page_idx = before.state.page_idx as nat;
        crate::laws::words::decimal_is_numeral(page_idx + 1);
        crate::laws::words::size_text_reads_as_size(predicted as nat);
        assert(names_page_and_size(
            crate::session::too_detailed_text(page_idx, predicted),
            (page_idx + 1) as int,
            predicted,
            crate::text::decimal(page_idx + 1),
            crate::size::size_text(predicted as nat),
        ));
        assert(predicted > 33554432 ==> after@.refusal == crate::session::too_detailed_text(
            page_idx,
            predicted,
        ));
    }
}

/// `ready` is the parsed file and its number of pages exactly where the page of a look is to be
/// drawn.
pub open spec fn is_ready(
    ready: Option<(Pdf, usize)>,
    look: Inspection,
    parsed: Option<Pdf>,
) -> bool {
    match look {
        Inspection::Page { count, predicted } if predicted <= 33554432 => {
            &&& ready matches Some(document)
            &&& parsed == Some(document.0)
            &&& document.1 == count
        },
        _ => ready is None,
    }
}

/// The page that the session is at is looked at, decided on and handed out to be drawn;
/// without a document nothing changes.
pub proof fn the_page_on_turn_is_decided_on(s: &mut Session, ready: Option<(Pdf, usize)>)
    requires
        call_ensures(Session::begin_page, (s,), ready),
    ensures
        old(s).state.data is None ==> ready is None && same_session(*old(s), *final(s)),
        bytes_of(old(s).state.data) matches Some(bytes) ==> exists|
            look: Inspection,
            parsed: Option<Pdf>,
        | #[trigger]
            looks_like(bytes, old(s).state.page_idx, look, parsed) && is_decided(
                *old(s),
                *final(s),
                look,
            ) && is_ready(ready, look, parsed),
{
    if let Some(bytes) = bytes_of(old(s).state.data) {
        let page_idx = old(s).state.page_idx;
        let (outcome, look) = choose|outcome: Result<Pdf, LoadPdfError>, look: Inspection|
            #[trigger] crate::document::load_outcome(bytes, outcome)
                && #[trigger] crate::inspection::inspected(outcome, page_idx, look) && final(s)@
                == old(s)@.admitted(look) && crate::session::is_handed_out(ready, outcome, look);
        let parsed = match outcome {
            Ok(pdf) if look is Page => Some(pdf),
            _ => None,
        };
        crate::laws::pages::inspected_looks_like(bytes, outcome, page_idx, look, parsed);
        admission_is_decided(*old(s), *final(s), look);
        assert(is_ready(ready, look, parsed));
        assert(looks_like(bytes, page_idx, look, parsed));
    }
}

/// A bitmap comes on screen with the number of its page, in place of any message. Without one
/// the reader stays as it is, and that the page could not be drawn is kept as the refusal.
pub proof fn a_bitmap_comes_on_screen(
    s: &mut Session,
    count: usize,
    bitmap: Option<(u32, u32)>,
    rendered: bool,
)
    requires
        call_ensures(Session::finish_page, (s, count, bitmap), rendered),
    ensures
        rendered <==> bitmap is Some,
        same_place(old(s).state, final(s).state),
        same_document(old(s).state, final(s).state),
        same_ui(old(s).ui, final(s).ui),
        bitmap matches Some(size) ==> {
            &&& final(s).viewer.page_img == Some(size)
            &&& final(s).viewer.page_h == size.1
            &&& final(s).viewer.page_message@.len() == 0
            &&& final(s).viewer.page_num == old(s).state.page_idx + 1
            &&& final(s).viewer.page_count == count
            &&& final(s).viewer.doc_name@ == old(s).state.doc_name@
            &&& final(s).refusal@ == old(s).refusal@
        },
        bitmap is None ==> {
            &&& same_viewer(old(s).viewer, final(s).viewer)
            &&& final(s).refusal@ == "Couldn't render this page"@
        },
{
    reveal_strlit("");
}

/// A refusal is kept as it is given.
pub proof fn refusals_are_kept(refusal: &mut String, msg: &str)
    requires
        call_ensures(set_refusal, (refusal, msg), ()),
    ensures
        final(refusal)@ == msg@,
{
}

/// A plain message is shown as it is given, on the same screen.
pub proof fn messages_are_shown(ui: &mut Ui, msg: &str)
    requires
        call_ensures(show_info, (ui, msg), ()),
    ensures
        final(ui).message@ == msg@,
        !final(ui).message_error,
        final(ui).viewing == old(ui).viewing,
{
}

/// An error message is shown as it is given, on the same screen.
pub proof fn errors_are_shown(ui: &mut Ui, msg: String)
    requires
        call_ensures(show_error, (ui, msg), ()),
    ensures
        shows_error(*old(ui), *final(ui), msg@),
{
}

/// The browser shows the directory that it is given line by line, tells whether that is the
/// top, and tells of the report that ended the reading, if there was one.
pub proof fn the_browser_shows_its_directory(
    path: &str,
    entries: &Vec<DirEntry>,
    failure: &Option<FsError>,
    browser: Browser,
)
    requires
        call_ensures(Browser::of_directory, (path, entries, failure), browser),
    ensures
        exists|source: Seq<int>| #[trigger]
            lists(entries@, lower_names(entries@), browser.entries@, source),
        browser.path@ == path@,
        browser.at_root <==> path@ == "/"@,
        *failure is None ==> browser.status@.len() == 0,
        *failure matches Some(error) ==> tells_of_report(error, browser.status@),
{
    reveal_strlit("/");
    assert("/"@ == crate::paths::root());
    crate::laws::files::shown_directory_is_listed(entries@, browser.entries@);
}

} // verus!
