//! A look at a file, or at one of its pages, before anything is drawn.
//!
//! Nothing of a parsed file is kept from one look to the next: the parser holds on to every
//! page that was drawn from it, so that a long session would only ever grow.
use std::sync::Arc;

use hayro::hayro_interpret::hayro_syntax::{LoadPdfError, Pdf};

use crate::document::{count_pages, get_page, load};
use crate::images::estimated_page_bytes;
use vstd::prelude::*;

verus! {

/// What there is to know of a page before it is drawn.
#[derive(Clone, Copy, Debug, PartialEq, Eq, Structural)]
pub enum Inspection {
    /// The file cannot be parsed.
    Unreadable,
    /// The file has no such page.
    PastEnd,
    /// The page is there, in a file with `count` pages, and is predicted to cost
    /// `predicted` bytes to draw.
    Page { count: usize, predicted: u64 },
}

/// The number of pages that an outcome of parsing a file gives; none where it was rejected.
pub open spec fn outcome_pages(outcome: Result<Pdf, LoadPdfError>) -> Option<nat> {
    match outcome {
        Ok(pdf) => Some(crate::document::page_count(pdf)),
        Err(_) => None,
    }
}

/// `pages` is a page count that a file of these bytes can turn out to have; none stands for
/// a file that is rejected.
pub open spec fn can_have_pages(bytes: Seq<u8>, pages: Option<usize>) -> bool {
    exists|outcome: Result<Pdf, LoadPdfError>| #[trigger]
        crate::document::load_outcome(bytes, outcome) && match pages {
            Some(n) => outcome_pages(outcome) == Some(n as nat),
            None => outcome_pages(outcome) is None,
        }
}

/// `inspection` is what a look at the page `index` can give, for an outcome of parsing the
/// file.
pub open spec fn inspected(
    outcome: Result<Pdf, LoadPdfError>,
    index: usize,
    inspection: Inspection,
) -> bool {
    match outcome {
        Err(_) => inspection == Inspection::Unreadable,
        Ok(pdf) => if index >= crate::document::page_count(pdf) {
            inspection == Inspection::PastEnd
        } else {
            &&& inspection matches Inspection::Page { count, predicted }
            &&& count == crate::document::page_count(pdf)
            &&& exists|objects: Seq<crate::images::XObject>| #[trigger]
                crate::images::objects_on_page(
                    crate::document::page_at(pdf, index as int),
                    objects,
                ) && predicted
                    == crate::images::predicted_bytes(
                    crate::images::saturated(crate::images::total_bytes(objects)),
                )
        },
    }
}

/// The number of pages of a file; none where it cannot be parsed.
pub fn load_page_count(data: &Arc<Vec<u8>>) -> (pages: Option<usize>)
    requires
        crate::document::parser_returns(data@),
    ensures
        can_have_pages(data@, pages),
{
    let outcome: Result<Pdf, LoadPdfError> = load(data.clone());
    let ghost seen = outcome;
    match outcome {
        Ok(pdf) => {
            let count: usize = count_pages(&pdf);
            assert(crate::document::load_outcome(data@, seen));
            Some(count)
        },
        Err(_) => {
            assert(crate::document::load_outcome(data@, seen));
            None
        },
    }
}

/// A look at the page `index` of a file, and the parsed file where the page is there.
pub fn inspect_page(data: &Arc<Vec<u8>>, index: usize) -> (look: (Inspection, Option<Pdf>))
    requires
        crate::document::parser_returns(data@),
    ensures
        exists|outcome: Result<Pdf, LoadPdfError>| #[trigger]
            crate::document::load_outcome(data@, outcome) && inspected(outcome, index, look.0)
                && (look.0 is Page ==> look.1 is Some && outcome == Ok::<Pdf, LoadPdfError>(
                look.1->0,
            )),
        look.0 !is Page ==> look.1 is None,
        look.1 matches Some(pdf) ==> crate::document::page_lookups_return(pdf),
{
    let outcome: Result<Pdf, LoadPdfError> = load(data.clone());
    let ghost seen = outcome;
    assert(crate::document::load_outcome(data@, seen));
    match outcome {
        Err(_) => (Inspection::Unreadable, None),
        Ok(pdf) => {
            let count: usize = count_pages(&pdf);
            if index >= count {
                (Inspection::PastEnd, None)
            } else {
                let predicted: u64 = estimated_page_bytes(get_page(&pdf, index));
                (Inspection::Page { count, predicted }, Some(pdf))
            }
        },
    }
}

} // verus!
