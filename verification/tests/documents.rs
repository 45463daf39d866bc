use std::sync::Arc;

use hayro::hayro_interpret::hayro_syntax::Pdf;
use pdf_viewer::images::{
    estimated_page_bytes, image_bytes, object_kind, page_image_bytes, render_cost, Kind,
};
use pdf_viewer::inspection::{inspect_page, load_page_count, Inspection};
use pdf_viewer::reading::ReadError;
use pdf_viewer::session::{set_refusal, show_error, show_info, Session};
use pdf_viewer::storage::Location;

/// A file made of these object bodies; the first is the catalog.
fn build(objects: &[String]) -> Vec<u8> {
    let mut pdf = b"%PDF-1.4\n".to_vec();
    let mut offsets = Vec::new();
    for (n, body) in objects.iter().enumerate() {
        offsets.push(pdf.len());
        pdf.extend_from_slice(format!("{} 0 obj\n{body}\nendobj\n", n + 1).as_bytes());
    }
    let xref = pdf.len();
    pdf.extend_from_slice(format!("xref\n0 {}\n", objects.len() + 1).as_bytes());
    pdf.extend_from_slice(b"0000000000 65535 f \n");
    for offset in &offsets {
        pdf.extend_from_slice(format!("{offset:010} 00000 n \n").as_bytes());
    }
    let trailer = format!(
        "trailer\n<< /Size {} /Root 1 0 R >>\nstartxref\n{xref}\n%%EOF\n",
        objects.len() + 1
    );
    pdf.extend_from_slice(trailer.as_bytes());
    pdf
}

/// A file with `count` pages, the first of which has this XObject dictionary. Objects that it
/// refers to are numbered from `count + 3` on.
fn document(count: usize, x_objects: &str, more: &[String]) -> Vec<u8> {
    let kids: Vec<String> = (0..count).map(|i| format!("{} 0 R", i + 3)).collect();
    let mut objects = vec![
        "<< /Type /Catalog /Pages 2 0 R >>".to_string(),
        format!("<< /Type /Pages /Kids [{}] /Count {count} >>", kids.join(" ")),
    ];
    for i in 0..count {
        let own = if i == 0 { x_objects } else { "" };
        objects.push(format!(
            "<< /Type /Page /Parent 2 0 R /MediaBox [0 0 612 792] \
             /Resources << /XObject << {own} >> >> >>"
        ));
    }
    objects.extend_from_slice(more);
    build(&objects)
}

fn stream(entries: &str) -> String {
    format!("<< /Type /XObject {entries} /Length 1 >>\nstream\nx\nendstream")
}

fn image(width: &str, height: &str) -> String {
    stream(&format!("/Subtype /Image /Width {width} /Height {height}"))
}

fn first_page_bytes(data: Vec<u8>) -> u64 {
    let pdf = Pdf::new(data).unwrap();
    page_image_bytes(&pdf.pages()[0])
}

fn first_page_cost(data: Vec<u8>) -> u64 {
    let pdf = Pdf::new(data).unwrap();
    estimated_page_bytes(&pdf.pages()[0])
}

#[test]
fn a_page_without_images_costs_the_fixed_amount() {
    assert_eq!(first_page_bytes(document(1, "", &[])), 0);
    assert_eq!(first_page_cost(document(1, "", &[])), 8388608);
}

#[test]
fn an_image_counts_four_bytes_per_pixel_three_times() {
    let data = document(1, "/Im0 4 0 R", &[image("100", "50")]);
    assert_eq!(first_page_bytes(data.clone()), 20000);
    assert_eq!(first_page_cost(data), 8388608 + 60000);
}

#[test]
fn an_image_counts_as_often_as_it_is_referred_to() {
    let data = document(1, "/Im0 4 0 R /Im1 4 0 R /Im2 5 0 R", &[image("10", "10"), image("1", "2")]);
    assert_eq!(first_page_bytes(data), 808);
}

#[test]
fn dimensions_are_cut_off_and_not_negative() {
    assert_eq!(first_page_bytes(document(1, "/I 4 0 R", &[image("10.9", "2.5")])), 80);
    assert_eq!(first_page_bytes(document(1, "/I 4 0 R", &[image("-10", "2")])), 0);
    let flat = stream("/Subtype /Image /Width 10");
    assert_eq!(first_page_bytes(document(1, "/I 4 0 R", &[flat])), 0);
}

#[test]
fn other_objects_cost_nothing() {
    let objects = [stream("/Subtype /PS /Width 10 /Height 10"), stream("/Width 10 /Height 10")];
    assert_eq!(first_page_bytes(document(1, "/A 4 0 R /B 5 0 R /C 7 /D 99 0 R", &objects)), 0);
}

#[test]
fn forms_are_followed() {
    let objects = [
        stream("/Subtype /Form /Resources << /XObject << /I 5 0 R /J 5 0 R >> >>"),
        image("10", "10"),
        stream("/Subtype /Form"),
        stream("/Subtype /Form /Resources << >>"),
    ];
    let data = document(1, "/F 4 0 R /G 6 0 R /H 7 0 R /I 5 0 R", &objects);
    assert_eq!(first_page_bytes(data), 1200);
}

/// A file whose page draws `forms` forms inside one another, each with a small image beside
/// the next form; the last one draws `innermost`.
fn nested(forms: usize, innermost: &str) -> Vec<u8> {
    let mut objects = vec![image("1", "1")];
    for i in 1..=forms {
        let inner = if i == forms {
            innermost.to_string()
        } else {
            format!("/I 4 0 R /F {} 0 R", i + 5)
        };
        objects.push(stream(&format!("/Subtype /Form /Resources << /XObject << {inner} >> >>")));
    }
    document(1, "/I 4 0 R /F 5 0 R", &objects)
}

#[test]
fn forms_are_followed_five_dictionaries_deep() {
    assert_eq!(first_page_bytes(nested(1, "/I 4 0 R")), 8);
    assert_eq!(first_page_bytes(nested(4, "/I 4 0 R")), 20);
}

#[test]
fn images_below_the_last_form_that_is_followed_are_too_much() {
    assert_eq!(first_page_bytes(nested(5, "/I 4 0 R")), u64::MAX);
    assert_eq!(first_page_bytes(nested(8, "/I 4 0 R")), u64::MAX);
    assert_eq!(first_page_cost(nested(5, "/I 4 0 R")), u64::MAX);
}

#[test]
fn a_form_that_draws_nothing_costs_nothing_at_any_depth() {
    assert_eq!(first_page_bytes(nested(4, "")), 16);
    assert_eq!(first_page_bytes(nested(5, "")), 20);
}

#[test]
fn a_form_that_draws_itself_is_followed_once() {
    let objects = [
        stream("/Subtype /Form /Resources << /XObject << /F 4 0 R /I 5 0 R >> >>"),
        image("10", "10"),
    ];
    assert_eq!(first_page_bytes(document(1, "/F 4 0 R", &objects)), 400);
}

#[test]
fn more_to_draw_never_counts_for_less() {
    let form = stream("/Subtype /Form /Resources << /XObject << /I 4 0 R >> >>");
    let larger = stream("/Subtype /Form /Resources << /XObject << /I 4 0 R /J 4 0 R >> >>");
    let counted = |page: &str, width: &str, form: &String| {
        first_page_bytes(document(1, page, &[image(width, "5"), form.clone()]))
    };
    assert_eq!(counted("/A 4 0 R /F 5 0 R", "10", &form), 400);
    assert_eq!(counted("/A 4 0 R /F 5 0 R", "11", &form), 440);
    assert_eq!(counted("/A 4 0 R /F 5 0 R", "10", &larger), 600);
    assert_eq!(counted("/F 5 0 R /A 4 0 R", "10", &form), 400);
}

#[test]
fn huge_images_saturate() {
    let data = document(1, "/I 4 0 R", &[image("9000000000000000000", "9000000000000000000")]);
    assert_eq!(first_page_bytes(data.clone()), u64::MAX);
    assert_eq!(first_page_cost(data), u64::MAX);
}

#[test]
fn the_parts_of_the_prediction() {
    assert_eq!(object_kind(&Some(b"Image".to_vec())), Kind::Image);
    assert_eq!(object_kind(&Some(b"Form".to_vec())), Kind::Form);
    assert_eq!(object_kind(&Some(b"image".to_vec())), Kind::Other);
    assert_eq!(object_kind(&Some(b"Images".to_vec())), Kind::Other);
    assert_eq!(object_kind(&None), Kind::Other);
    assert_eq!(image_bytes(Some(3), Some(5)), 60);
    assert_eq!(image_bytes(None, Some(5)), 0);
    assert_eq!(image_bytes(Some(u64::MAX), Some(1)), u64::MAX);
    assert_eq!(render_cost(0), 8388608);
    assert_eq!(render_cost(1_000_000), 11388608);
    assert_eq!(render_cost(u64::MAX), u64::MAX);
    assert!(render_cost(8 * 1024 * 1024) <= 32 * 1024 * 1024);
    assert!(render_cost(8 * 1024 * 1024 + 1) > 32 * 1024 * 1024);
}

#[test]
fn the_cover_of_a_manual_is_too_much_and_its_pages_are_not() {
    let limit = 32 * 1024 * 1024;
    assert!(render_cost(182 * 1024 * 1024 / 10) > limit);
    assert!(render_cost(15 * 1024 * 1024 / 10) <= limit);
    assert!(render_cost(0) <= limit);
}

#[test]
fn pages_are_counted() {
    assert_eq!(load_page_count(&Arc::new(document(3, "", &[]))), Some(3));
    assert_eq!(load_page_count(&Arc::new(document(0, "", &[]))), Some(0));
    assert_eq!(load_page_count(&Arc::new(b"no such format".to_vec())), None);
}

#[test]
fn a_look_at_a_page() {
    let data = Arc::new(document(2, "/I 5 0 R", &[image("10", "10")]));
    let (inspection, pdf) = inspect_page(&data, 0);
    assert_eq!(inspection, Inspection::Page { count: 2, predicted: 8389808 });
    assert_eq!(pdf.unwrap().pages().len(), 2);
    assert_eq!(inspect_page(&data, 1).0, Inspection::Page { count: 2, predicted: 8388608 });
    let (inspection, pdf) = inspect_page(&data, 2);
    assert_eq!(inspection, Inspection::PastEnd);
    assert!(pdf.is_none());
    assert_eq!(inspect_page(&Arc::new(Vec::new()), 0).0, Inspection::Unreadable);
}

#[test]
fn a_session_starts_in_the_browser() {
    let session = Session::new();
    assert_eq!(session.state.location, Location::User);
    assert_eq!(session.state.path, "/");
    assert!(session.state.data.is_none());
    assert!(!session.ui.viewing);
    assert_eq!(session.ui.message, "");
}

#[test]
fn browsing() {
    let mut session = Session::new();
    session.enter_folder("Docs");
    session.enter_folder("2024");
    assert_eq!(session.state.path, "/Docs/2024");
    assert_eq!(session.entry_path("a.pdf"), "/Docs/2024/a.pdf");
    session.go_back();
    assert_eq!(session.state.path, "/Docs");
    session.location_changed(2);
    assert_eq!(session.state.location, Location::Usb);
    assert_eq!(session.state.path, "/");
    session.go_back();
    assert_eq!(session.state.path, "/");
    session.read_failed(&ReadError::Failed);
    assert_eq!(session.ui.message, "Read failed");
    assert!(session.ui.message_error);
}

#[test]
fn opening_and_turning_pages() {
    let mut session = Session::new();
    let data = Arc::new(document(3, "", &[]));
    assert!(session.open_document(data, "a.pdf"));
    assert_eq!(session.state.page_count, 3);
    let (pdf, count) = session.begin_page().unwrap();
    assert_eq!(count, 3);
    assert_eq!(pdf.pages().len(), 3);
    assert!(session.finish_page(count, Some((440, 569))));
    session.finish_open(true);
    assert!(session.ui.viewing);
    assert_eq!(session.viewer.page_img, Some((440, 569)));
    assert_eq!(session.viewer.page_h, 569);
    assert_eq!(session.viewer.page_num, 1);
    assert_eq!(session.viewer.page_count, 3);
    assert_eq!(session.viewer.doc_name, "a.pdf");
    assert!(!session.prev_page());
    assert!(session.next_page());
    assert!(session.begin_page().is_some());
    assert!(session.viewer.page_img.is_none());
    assert!(session.next_page());
    assert!(!session.next_page());
    assert_eq!(session.state.page_idx, 2);
    assert!(session.prev_page());
    assert_eq!(session.state.page_idx, 1);
    session.close_viewer();
    assert!(session.state.data.is_none());
    assert!(!session.ui.viewing);
    assert!(!session.next_page());
    assert!(!session.prev_page());
    assert!(session.begin_page().is_none());
}

#[test]
fn bad_files_are_told_apart() {
    let mut session = Session::new();
    assert!(!session.open_document(Arc::new(b"%PDF-1.4 but no more".to_vec()), "x.pdf"));
    assert_eq!(
        session.ui.message,
        "Couldn't open this file. It may not be a PDF, or it may be encrypted."
    );
    assert!(session.ui.message_error);
    assert!(session.state.data.is_none());
    assert!(!session.open_document(Arc::new(document(0, "", &[])), "x.pdf"));
    assert_eq!(session.ui.message, "This PDF has no pages");
    assert!(session.state.data.is_none());
    assert!(!session.accept_document(Arc::new(Vec::new()), "x.pdf", None));
}

#[test]
fn a_refused_first_page_is_not_a_refused_document() {
    let mut session = Session::new();
    let data = Arc::new(document(2, "/I 5 0 R", &[image("2000", "2000")]));
    assert!(session.open_document(data, "cover.pdf"));
    assert!(session.begin_page().is_none());
    let message = "Page 1 is too detailed to display (needs ~53.8 MB).";
    assert_eq!(session.viewer.page_message, message);
    assert_eq!(session.refusal, message);
    assert_eq!(session.viewer.page_num, 1);
    assert_eq!(session.viewer.page_count, 2);
    session.finish_open(false);
    assert!(session.ui.viewing);
    assert!(!session.ui.message_error);
    assert!(session.next_page());
    let (_, count) = session.begin_page().unwrap();
    assert!(session.finish_page(count, Some((440, 569))));
    assert_eq!(session.viewer.page_message, "");
    assert_eq!(session.viewer.page_num, 2);
}

#[test]
fn a_first_page_that_cannot_be_drawn_drops_the_document() {
    let mut session = Session::new();
    assert!(session.open_document(Arc::new(document(1, "", &[])), "a.pdf"));
    let (_, count) = session.begin_page().unwrap();
    assert!(!session.finish_page(count, None));
    session.finish_open(false);
    assert!(session.state.data.is_none());
    assert!(!session.ui.viewing);
    assert_eq!(session.ui.message, "Couldn't render this page");
    assert!(session.ui.message_error);
}

#[test]
fn a_message_left_from_another_document_does_not_hide_a_failed_first_page() {
    let heavy = document(1, "/I 4 0 R", &[image("4000", "4000")]);
    let light = Arc::new(document(1, "", &[]));
    let mut s = Session::new();
    assert!(s.open_document(Arc::new(heavy), "heavy.pdf"));
    assert!(s.begin_page().is_none());
    s.finish_open(false);
    assert!(!s.viewer.page_message.is_empty());
    s.close_viewer();

    assert!(s.open_document(light.clone(), "light.pdf"));
    assert_eq!(s.viewer.page_message, "");
    let (_, count) = s.begin_page().unwrap();
    assert!(!s.finish_page(count, None));
    s.finish_open(false);
    assert!(s.ui.message_error);
    assert_eq!(s.ui.message, "Couldn't render this page");
    assert!(s.state.data.is_none());
    assert!(!s.ui.viewing);

    assert!(s.accept_document(light, "light.pdf", Some(1)));
    assert!(!s.admit_page(Inspection::Unreadable));
    s.finish_open(false);
    assert!(s.ui.message_error);
    assert_eq!(s.ui.message, "Couldn't read this PDF");
    assert!(s.state.data.is_none());
}

#[test]
fn a_message_stays_where_another_file_is_not_taken_up() {
    let mut s = Session::new();
    assert!(s.accept_document(Arc::new(Vec::new()), "a.pdf", Some(2)));
    assert!(!s.admit_page(Inspection::Page { count: 2, predicted: 64 * 1024 * 1024 }));
    let message = "Page 1 is too detailed to display (needs ~64.0 MB).";
    assert_eq!(s.viewer.page_message, message);
    assert!(!s.accept_document(Arc::new(Vec::new()), "b.pdf", None));
    assert_eq!(s.viewer.page_message, message);
    assert_eq!(s.state.doc_name, "a.pdf");
}

#[test]
fn a_page_that_cannot_be_read() {
    let mut session = Session::new();
    session.state.data = Some(Arc::new(Vec::new()));
    assert!(session.begin_page().is_none());
    assert_eq!(session.refusal, "Couldn't read this PDF");
    session.finish_open(false);
    assert_eq!(session.ui.message, "Couldn't read this PDF");
}

#[test]
fn a_page_past_the_end_changes_nothing() {
    let mut session = Session::new();
    assert!(session.open_document(Arc::new(document(1, "", &[])), "a.pdf"));
    session.state.page_idx = 5;
    assert!(session.begin_page().is_none());
    assert_eq!(session.refusal, "");
    assert!(!session.admit_page(Inspection::PastEnd));
    assert!(session.admit_page(Inspection::Page { count: 1, predicted: 32 * 1024 * 1024 }));
    assert!(!session.admit_page(Inspection::Page { count: 1, predicted: 32 * 1024 * 1024 + 1 }));
    assert_eq!(
        session.viewer.page_message,
        "Page 6 is too detailed to display (needs ~32.0 MB)."
    );
}

#[test]
fn messages() {
    let mut session = Session::new();
    show_error(&mut session.ui, "bad".to_string());
    assert_eq!(session.ui.message, "bad");
    assert!(session.ui.message_error);
    show_info(&mut session.ui, "good");
    assert_eq!(session.ui.message, "good");
    assert!(!session.ui.message_error);
    set_refusal(&mut session.refusal, "why");
    assert_eq!(session.refusal, "why");
}
