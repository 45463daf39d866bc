//! What the viewer asks of the PDF parser.
//!
//! Objects of a file are looked up through its cross-reference table, and the parser
//! rebuilds that table when it finds it broken. One lookup may therefore be answered
//! differently before and after another, and the relations below say which answers a
//! lookup can have, not which one it has.
//!
//! There are files on which the parser panics or does not come back:
//!
//! - a compressed stream whose predictor works on rows of no bytes, which it divides by;
//! - object streams that are each kept in the other, or a page tree that holds itself and
//!   whose nodes are kept in an object stream, which it follows until the stack is used up;
//! - object numbers and offsets whose sum does not fit, which panic in builds that check
//!   for overflow.
//!
//! [`parser_returns`] leaves those files out, and what calls the parser requires it. The
//! parser's interface has no test for it. A file that has been parsed once is known to have
//! it, since an outcome is then at hand.
use std::sync::Arc;

use hayro::hayro_interpret::hayro_syntax::object::{Dict, Name, Number, Stream};
use hayro::hayro_interpret::hayro_syntax::page::Page;
use hayro::hayro_interpret::hayro_syntax::{LoadPdfError, Pdf};
use vstd::prelude::*;

verus! {

/// A parsed file, as `hayro_syntax::Pdf` keeps it.
#[verifier::external_type_specification]
#[verifier::external_body]
pub struct ExPdf(Pdf);

/// Why `Pdf::new` rejected a file.
#[verifier::external_type_specification]
#[verifier::external_body]
pub struct ExLoadPdfError(LoadPdfError);

/// A page of a parsed file.
#[verifier::external_type_specification]
#[verifier::external_body]
pub struct ExPage<'a>(Page<'a>);

/// A dictionary of a parsed file.
#[verifier::external_type_specification]
#[verifier::external_body]
pub struct ExDict<'a>(Dict<'a>);

/// A stream of a parsed file: a dictionary and data.
#[verifier::external_type_specification]
#[verifier::external_body]
pub struct ExStream<'a>(Stream<'a>);

/// On a file of these bytes the parser comes back from every call, that is from `Pdf::new`
/// and from every lookup in what it gives, and `outcome` is one that `Pdf::new` can have.
pub uninterp spec fn load_outcome(bytes: Seq<u8>, outcome: Result<Pdf, LoadPdfError>) -> bool;

/// On a file of these bytes the parser comes back from every call: some outcome is possible.
pub open spec fn parser_returns(bytes: Seq<u8>) -> bool {
    exists|outcome: Result<Pdf, LoadPdfError>| #[trigger] load_outcome(bytes, outcome)
}

/// The number of pages that `Pdf::pages` lists.
pub uninterp spec fn page_count(pdf: Pdf) -> nat;

/// The page that `Pdf::pages` lists at `index`.
pub uninterp spec fn page_at(pdf: Pdf, index: int) -> Page<'static>;

/// The XObject dictionary among the resources of a page.
pub uninterp spec fn page_x_objects(page: Page<'_>) -> Dict<'_>;

/// The keys that a dictionary holds, as bytes.
pub uninterp spec fn dict_keys(dict: Dict<'_>) -> Set<Seq<u8>>;

/// Every lookup in this dictionary, and in whatever such a lookup gives, comes back.
pub uninterp spec fn lookups_return(dict: Dict<'_>) -> bool;

/// Lookups in the XObject dictionaries of all pages come back.
pub open spec fn page_lookups_return(pdf: Pdf) -> bool {
    forall|i: int|
        0 <= i < page_count(pdf) ==> lookups_return(page_x_objects(#[trigger] page_at(pdf, i)))
}

/// `found` is an answer that a lookup of a stream under `key` can have.
pub uninterp spec fn stream_at(dict: Dict<'_>, key: Seq<u8>, found: Option<Stream<'_>>) -> bool;

/// The dictionary of a stream.
pub uninterp spec fn dict_of_stream(stream: Stream<'_>) -> Dict<'_>;

/// `found` is an answer that a lookup of a name under `key` can have, as bytes.
pub uninterp spec fn name_at(dict: Dict<'_>, key: Seq<char>, found: Option<Seq<u8>>) -> bool;

/// `found` is an answer that a lookup of a number under `key` can have, as an unsigned integer.
pub uninterp spec fn number_at(dict: Dict<'_>, key: Seq<char>, found: Option<u64>) -> bool;

/// `found` is an answer that a lookup of a dictionary under `key` can have.
pub uninterp spec fn dict_at(dict: Dict<'_>, key: Seq<char>, found: Option<Dict<'_>>) -> bool;

/// The contents of a row of byte vectors.
pub open spec fn byte_rows(rows: Seq<Vec<u8>>) -> Seq<Seq<u8>> {
    Seq::new(rows.len(), |i: int| rows[i]@)
}

/// The contents of an optional byte vector.
pub open spec fn optional_bytes(bytes: Option<Vec<u8>>) -> Option<Seq<u8>> {
    match bytes {
        Some(bytes) => Some(bytes@),
        None => None,
    }
}

/// Calls `Pdf::new`, on a file on which the parser comes back from every call. Claimed: the
/// result is an outcome that it can have on these bytes, and lookups in the XObject
/// dictionaries of the pages come back. Left unsaid is which files it accepts, and that two
/// calls agree: looking for pages in a damaged file walks a hash map, whose order depends on
/// the machine's word size.
#[verifier::external_body]
pub(crate) fn load(data: Arc<Vec<u8>>) -> (outcome: Result<Pdf, LoadPdfError>)
    requires
        parser_returns(data@),
    ensures
        load_outcome(data@, outcome),
        outcome matches Ok(pdf) ==> page_lookups_return(pdf),
{
    Pdf::new(data)
}

/// Calls `Pdf::pages` and takes the length of the list, which is fixed once the file
/// has been parsed.
#[verifier::external_body]
pub(crate) fn count_pages(pdf: &Pdf) -> (count: usize)
    ensures
        count == page_count(*pdf),
{
    pdf.pages().len()
}

/// Picks one of `Pdf::pages`, a list that is fixed once the file has been parsed. The page
/// has to exist: indexing past the last one panics.
#[verifier::external_body]
pub(crate) fn get_page<'a>(pdf: &'a Pdf, index: usize) -> (page: &'a Page<'a>)
    requires
        index < page_count(*pdf),
    ensures
        *page == page_at(*pdf, index as int),
{
    &pdf.pages()[index]
}

/// Calls `Page::resources` and picks the field `x_objects`, which is fixed once the file has
/// been parsed.
#[verifier::external_body]
pub(crate) fn x_objects_of<'a, 'b>(page: &'b Page<'a>) -> (dict: &'b Dict<'a>)
    ensures
        *dict == page_x_objects(*page),
{
    &page.resources().x_objects
}

/// Calls `Dict::keys`, which walks a hash map. Claimed: every key comes exactly once, in
/// no particular order.
#[verifier::external_body]
pub(crate) fn keys_of(dict: &Dict<'_>) -> (keys: Vec<Vec<u8>>)
    ensures
        byte_rows(keys@).no_duplicates(),
        byte_rows(keys@).to_set() == dict_keys(*dict),
{
    dict.keys().map(|key| key.to_vec()).collect()
}

/// Calls `Dict::get` for a stream, in a dictionary whose lookups come back. Claimed: the
/// result is an answer that this lookup can have, and lookups in the dictionary of a stream
/// that was found come back too.
#[verifier::external_body]
pub(crate) fn get_stream<'a>(dict: &Dict<'a>, key: &Vec<u8>) -> (found: Option<Stream<'a>>)
    requires
        lookups_return(*dict),
    ensures
        stream_at(*dict, key@, found),
        found matches Some(stream) ==> lookups_return(dict_of_stream(stream)),
{
    dict.get(key)
}

/// Calls `Stream::dict`.
#[verifier::external_body]
pub(crate) fn stream_dict<'a, 'b>(stream: &'b Stream<'a>) -> (dict: &'b Dict<'a>)
    ensures
        *dict == dict_of_stream(*stream),
{
    stream.dict()
}

/// Calls `Dict::get` for a name, in a dictionary whose lookups come back. Claimed: the result
/// is an answer that this lookup can have.
#[verifier::external_body]
pub(crate) fn get_name(dict: &Dict<'_>, key: &str) -> (found: Option<Vec<u8>>)
    requires
        lookups_return(*dict),
    ensures
        name_at(*dict, key@, optional_bytes(found)),
{
    dict.get::<Name<'_>>(key).map(|name| name.to_vec())
}

/// Calls `Dict::get` for a single-precision number, in a dictionary whose lookups come back,
/// takes it through `Number::from_f32` and `Number::as_f32`, which give it back as it is, and
/// casts it to an unsigned integer: the fraction is cut off and a negative number becomes 0.
/// Claimed: the result is an answer that this lookup can have.
#[verifier::external_body]
pub(crate) fn get_number(dict: &Dict<'_>, key: &str) -> (found: Option<u64>)
    requires
        lookups_return(*dict),
    ensures
        number_at(*dict, key@, found),
{
    dict.get(key).map(Number::from_f32).map(|number| number.as_f32() as u64)
}

/// Calls `Dict::get` for a dictionary, in one whose lookups come back. Claimed: the result is
/// an answer that this lookup can have, and lookups in a dictionary that was found come back
/// too.
#[verifier::external_body]
pub(crate) fn get_dict<'a>(dict: &Dict<'a>, key: &str) -> (found: Option<Dict<'a>>)
    requires
        lookups_return(*dict),
    ensures
        dict_at(*dict, key@, found),
        found matches Some(inner) ==> lookups_return(inner),
{
    dict.get(key)
}

} // verus!
