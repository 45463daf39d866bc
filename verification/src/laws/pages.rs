//! What the images of a page count, what drawing it will cost, and looks at a file.
//!
//! A lookup in a file may have more than one answer; see [`document`](crate::document).
use std::sync::Arc;

use hayro::hayro_interpret::hayro_syntax::object::{Dict, Stream};
use hayro::hayro_interpret::hayro_syntax::page::Page;
use hayro::hayro_interpret::hayro_syntax::{LoadPdfError, Pdf};
use vstd::prelude::*;

use crate::document::{
    dict_at, dict_keys, dict_of_stream, load_outcome, name_at, number_at, page_at, page_count,
    page_x_objects, stream_at,
};
use crate::images::{
    estimated_page_bytes, image_bytes, object_bytes, object_kind, objects_of, page_image_bytes,
    render_cost, total_bytes, Kind, XObject,
};
use crate::inspection::{inspect_page, load_page_count, Inspection};

verus! {

/// `n`, but at most the largest number of 64 bits.
pub open spec fn capped(n: int) -> int {
    if n < 0x1_0000_0000_0000_0000 {
        n
    } else {
        0xffff_ffff_ffff_ffff
    }
}

/// A dimension in pixels; a missing one is 0.
pub open spec fn pixels(dimension: Option<u64>) -> int {
    match dimension {
        Some(n) => n as int,
        None => 0,
    }
}

/// The sum of a row of sizes.
pub open spec fn sum(sizes: Seq<int>) -> int
    decreases sizes.len(),
{
    if sizes.len() == 0 {
        0
    } else {
        sum(sizes.drop_last()) + sizes.last()
    }
}

/// The bytes are the letters of `word`.
pub open spec fn is_word(bytes: Option<Seq<u8>>, word: Seq<char>) -> bool {
    bytes == Some(vstd::utf8::encode_utf8(word))
}

/// `n` is what the images under an XObject dictionary can count, where forms inside one
/// another are followed through `levels` dictionaries: the sum over its entries. A dictionary
/// below the last level counts more than can be afforded, unless it is empty.
pub open spec fn dict_counts(dict: Dict<'_>, levels: nat, n: int) -> bool
    decreases levels, 4int,
{
    if levels == 0 {
        n == (if exists|key: Seq<u8>| #[trigger] dict_keys(dict).contains(key) {
            0xffff_ffff_ffff_ffffint
        } else {
            0
        })
    } else {
        exists|keys: Seq<Seq<u8>>, sizes: Seq<int>|
            {
                &&& #[trigger] are_entries(dict, keys, sizes)
                &&& n == sum(sizes)
                &&& forall|i: int|
                    0 <= i < keys.len() ==> entry_counts(
                        dict,
                        keys[i],
                        levels,
                        #[trigger] sizes[i],
                    )
            }
    }
}

/// There is one size for each key of the dictionary.
pub open spec fn are_entries(dict: Dict<'_>, keys: Seq<Seq<u8>>, sizes: Seq<int>) -> bool {
    &&& keys.len() == sizes.len()
    &&& keys.no_duplicates()
    &&& forall|key: Seq<u8>| #[trigger] keys.contains(key) <==> dict_keys(dict).contains(key)
}

/// What an entry can count: nothing if it is no stream.
pub open spec fn entry_counts(dict: Dict<'_>, key: Seq<u8>, levels: nat, n: int) -> bool
    decreases levels, 3int,
{
    ||| stream_at(dict, key, None) && n == 0
    ||| exists|stream: Stream<'_>| #[trigger]
        stream_at(dict, key, Some(stream)) && stream_counts(dict_of_stream(stream), levels, n)
}

/// What a stream can count: an image four bytes for each of its pixels, a form what it draws,
/// and anything else nothing.
pub open spec fn stream_counts(dict: Dict<'_>, levels: nat, n: int) -> bool
    decreases levels, 2int,
{
    exists|subtype: Option<Seq<u8>>| #[trigger]
        name_at(dict, "Subtype"@, subtype) && if is_word(subtype, "Image"@) {
            image_counts(dict, n)
        } else if is_word(subtype, "Form"@) {
            form_counts(dict, levels, n)
        } else {
            n == 0
        }
}

/// What an image can count.
pub open spec fn image_counts(dict: Dict<'_>, n: int) -> bool {
    exists|width: Option<u64>, height: Option<u64>| #[trigger]
        number_at(dict, "Width"@, width) && #[trigger] number_at(dict, "Height"@, height) && n
            == 4 * (pixels(width) * pixels(height))
}

/// What a form can count.
pub open spec fn form_counts(dict: Dict<'_>, levels: nat, n: int) -> bool
    decreases levels, 1int,
{
    ||| dict_at(dict, "Resources"@, None) && n == 0
    ||| exists|resources: Dict<'_>| #[trigger]
        dict_at(dict, "Resources"@, Some(resources)) && {
            ||| dict_at(resources, "XObject"@, None) && n == 0
            ||| levels > 0 && exists|inner: Dict<'_>| #[trigger]
                dict_at(resources, "XObject"@, Some(inner)) && dict_counts(
                    inner,
                    (levels - 1) as nat,
                    n,
                )
        }
}

/// `n` is what the images of a page can count: forms are followed through five dictionaries,
/// the first of which is the page's own.
pub open spec fn page_counts(page: Page<'_>, n: int) -> bool {
    dict_counts(page_x_objects(page), 5, n)
}

/// `cost` is what drawing a page can be predicted to cost: 8 MB and three times its images.
pub open spec fn page_costs(page: Page<'_>, cost: u64) -> bool {
    exists|n: int| #[trigger] page_counts(page, n) && cost == capped(8388608 + 3 * n)
}

/// An image counts exactly four bytes for each of its pixels.
pub proof fn images_count_four_bytes_a_pixel(
    width: Option<u64>,
    height: Option<u64>,
    bytes: u64,
)
    requires
        call_ensures(image_bytes, (width, height), bytes),
    ensures
        bytes == capped(4 * (pixels(width) * pixels(height))),
{
    assert(pixels(width) * pixels(height) >= 0) by (nonlinear_arith);
}

/// Twice the width, or twice the height, is twice the bytes.
pub proof fn images_count_in_proportion(
    width: u64,
    height: u64,
    bytes: u64,
    wider: u64,
    higher: u64,
)
    requires
        2 * width <= u64::MAX,
        2 * height <= u64::MAX,
        call_ensures(image_bytes, (Some(width), Some(height)), bytes),
        call_ensures(image_bytes, (Some((2 * width) as u64), Some(height)), wider),
        call_ensures(image_bytes, (Some(width), Some((2 * height) as u64)), higher),
    ensures
        wider == capped(2 * bytes as int),
        higher == wider,
{
    images_count_four_bytes_a_pixel(Some(width), Some(height), bytes);
    images_count_four_bytes_a_pixel(Some((2 * width) as u64), Some(height), wider);
    images_count_four_bytes_a_pixel(Some(width), Some((2 * height) as u64), higher);
    assert((2 * width) * height == 2 * (width * height)) by (nonlinear_arith);
    assert(width * (2 * height) == 2 * (width * height)) by (nonlinear_arith);
    assert(width * height >= 0) by (nonlinear_arith);
}

/// Images and forms are told by their subtype, letter by letter.
pub proof fn kinds_are_told_by_their_subtype(subtype: &Option<Vec<u8>>, kind: Kind)
    requires
        call_ensures(object_kind, (subtype,), kind),
    ensures
        kind is Image <==> (*subtype matches Some(bytes) && bytes@ == vstd::utf8::encode_utf8(
            "Image"@,
        )),
        kind is Form <==> (*subtype matches Some(bytes) && bytes@ == vstd::utf8::encode_utf8(
            "Form"@,
        )),
{
    words_differ();
}

proof fn words_differ()
    ensures
        vstd::utf8::encode_utf8("Image"@) != vstd::utf8::encode_utf8("Form"@),
{
    reveal_strlit("Image");
    reveal_strlit("Form");
    vstd::utf8::encode_utf8_decode_utf8("Image"@);
    vstd::utf8::encode_utf8_decode_utf8("Form"@);
}

/// Drawing a page costs 8 MB and three times the bytes of its images.
pub proof fn pages_cost_three_times_their_images(image_bytes: u64, cost: u64)
    requires
        call_ensures(render_cost, (image_bytes,), cost),
    ensures
        cost == capped(8388608 + 3 * image_bytes),
{
}

/// Every image that a page refers to is counted, through its forms too.
pub proof fn every_image_of_a_page_counts(page: &Page<'_>, bytes: u64)
    requires
        call_ensures(page_image_bytes, (page,), bytes),
    ensures
        exists|n: int| #[trigger] page_counts(*page, n) && bytes == capped(n),
{
    let objects = choose|objects: Seq<XObject>| #[trigger]
        crate::images::objects_on_page(*page, objects) && bytes == crate::images::saturated(
            total_bytes(objects),
        );
    objects_count(page_x_objects(*page), 5, objects);
    assert(page_counts(*page, total_bytes(objects) as int));
}

/// The prediction for a page goes by the images of that page.
pub proof fn a_page_costs_what_its_images_do(page: &Page<'_>, cost: u64)
    requires
        call_ensures(estimated_page_bytes, (page,), cost),
    ensures
        page_costs(*page, cost),
{
    let objects = choose|objects: Seq<XObject>| #[trigger]
        crate::images::objects_on_page(*page, objects) && cost == crate::images::predicted_bytes(
            crate::images::saturated(total_bytes(objects)),
        );
    found_page_costs(*page, objects, cost);
}

pub(crate) proof fn found_page_costs(page: Page<'_>, objects: Seq<XObject>, cost: u64)
    requires
        crate::images::objects_on_page(page, objects),
        cost == crate::images::predicted_bytes(crate::images::saturated(total_bytes(objects))),
    ensures
        page_costs(page, cost),
{
    objects_count(page_x_objects(page), 5, objects);
    assert(page_counts(page, total_bytes(objects) as int));
}

proof fn total_is_sum(objects: Seq<XObject>, sizes: Seq<int>)
    requires
        sizes.len() == objects.len(),
        forall|i: int| 0 <= i < objects.len() ==> #[trigger] sizes[i] == object_bytes(objects[i]),
    ensures
        total_bytes(objects) == sum(sizes),
    decreases objects.len(),
{
    if objects.len() > 0 {
        assert forall|i: int| 0 <= i < objects.len() - 1 implies #[trigger] sizes.drop_last()[i]
            == object_bytes(objects.drop_last()[i]) by {
            assert(sizes[i] == object_bytes(objects[i]));
        }
        total_is_sum(objects.drop_last(), sizes.drop_last());
        assert(sizes[objects.len() - 1] == object_bytes(objects[objects.len() - 1]));
    }
}

proof fn objects_count(dict: Dict<'_>, levels: nat, objects: Seq<XObject>)
    requires
        objects_of(dict, levels, objects),
    ensures
        dict_counts(dict, levels, total_bytes(objects) as int),
    decreases levels, 1int,
{
    if levels == 0 {
        if exists|key: Seq<u8>| #[trigger] dict_keys(dict).contains(key) {
            let one = seq![XObject::TooDeep];
            assert(one.drop_last() == Seq::<XObject>::empty());
            assert(total_bytes(Seq::<XObject>::empty()) == 0);
            assert(objects == one);
            assert(total_bytes(one) == object_bytes(XObject::TooDeep));
        } else {
            assert(dict_keys(dict) =~= Set::<Seq<u8>>::empty());
        }
    } else {
        let keys = choose|keys: Seq<Seq<u8>>| #[trigger]
            crate::images::lists_keys(dict, keys) && keys.len() == objects.len() && forall|i: int|
                0 <= i < keys.len() ==> crate::images::object_at(
                    dict,
                    keys[i],
                    levels,
                    #[trigger] objects[i],
                );
        let sizes = Seq::new(objects.len(), |i: int| object_bytes(objects[i]) as int);
        total_is_sum(objects, sizes);
        assert forall|key: Seq<u8>| #[trigger] keys.contains(key) <==> dict_keys(dict).contains(
            key,
        ) by {
            assert(keys.to_set().contains(key) <==> keys.contains(key));
        }
        assert forall|i: int| 0 <= i < keys.len() implies entry_counts(
            dict,
            keys[i],
            levels,
            #[trigger] sizes[i],
        ) by {
            let object = objects[i];
            assert(crate::images::object_at(dict, keys[i], levels, object));
            if !(stream_at(dict, keys[i], None) && object is Other) {
                let stream = choose|stream: Stream<'_>| #[trigger]
                    stream_at(dict, keys[i], Some(stream)) && crate::images::described(
                        dict_of_stream(stream),
                        levels,
                        object,
                    );
                described_counts(dict_of_stream(stream), levels, object);
            }
        }
        assert(are_entries(dict, keys, sizes));
    }
}

proof fn described_counts(dict: Dict<'_>, levels: nat, object: XObject)
    requires
        levels > 0,
        crate::images::described(dict, levels, object),
    ensures
        stream_counts(dict, levels, object_bytes(object) as int),
    decreases levels, 0int,
{
    words_differ();
    let subtype = choose|subtype: Option<Seq<u8>>|
        {
            &&& #[trigger] name_at(dict, "Subtype"@, subtype)
            &&& match crate::images::kind_of(subtype) {
                Kind::Image => crate::images::image_described(dict, object),
                Kind::Form => {
                    ||| object == (XObject::Form { inner: Seq::empty() })
                        && crate::images::formless(dict)
                    ||| levels > 0 && exists|resources: Dict<'_>, inner: Dict<'_>|
                        {
                            &&& #[trigger] crate::images::form_resources(dict, resources, inner)
                            &&& object matches XObject::Form { inner: objects }
                            &&& objects_of(inner, (levels - 1) as nat, objects)
                        }
                },
                Kind::Other => object is Other,
            }
        };
    let n = object_bytes(object) as int;
    match crate::images::kind_of(subtype) {
        Kind::Image => {
            assert(image_counts(dict, n));
        },
        Kind::Form => {
            let objects = object->inner;
            assert(n == total_bytes(objects));
            if object == (XObject::Form { inner: Seq::empty() }) && crate::images::formless(dict) {
                assert(n == 0);
            } else {
                let (resources, inner) = choose|resources: Dict<'_>, inner: Dict<'_>|
                    #[trigger] crate::images::form_resources(dict, resources, inner)
                        && objects_of(inner, (levels - 1) as nat, objects);
                objects_count(inner, (levels - 1) as nat, objects);
                assert(dict_at(resources, "XObject"@, Some(inner)));
            }
            assert(form_counts(dict, levels, n));
        },
        Kind::Other => {},
    }
    assert(name_at(dict, "Subtype"@, subtype));
}

/// The dictionary has no entry.
pub open spec fn has_no_entry(dict: Dict<'_>) -> bool {
    forall|key: Seq<u8>| !#[trigger] dict_keys(dict).contains(key)
}

proof fn nothing_counts_nothing(dict: Dict<'_>, levels: nat, n: int)
    requires
        dict_counts(dict, levels, n),
        has_no_entry(dict),
    ensures
        n == 0,
{
    if levels > 0 {
        let (keys, sizes) = choose|keys: Seq<Seq<u8>>, sizes: Seq<int>|
            #[trigger] are_entries(dict, keys, sizes) && n == sum(sizes);
        if keys.len() > 0 {
            assert(keys.contains(keys[0]));
        }
    }
}

/// A page without external objects costs 8 MB, whatever else is in the file.
pub proof fn a_page_without_images_costs_the_fixed_amount(page: Page<'_>, cost: u64)
    requires
        page_costs(page, cost),
        has_no_entry(page_x_objects(page)),
    ensures
        cost == 8388608,
{
    let n = choose|n: int| #[trigger] page_counts(page, n) && cost == capped(8388608 + 3 * n);
    nothing_counts_nothing(page_x_objects(page), 5, n);
}

/// However the lookups are answered, the dictionary leads to an image of at least `least`
/// bytes through at most `levels` dictionaries, or further down than is looked.
pub open spec fn surely_draws(dict: Dict<'_>, levels: nat, least: int) -> bool
    decreases levels, 2int,
{
    exists|key: Seq<u8>| #[trigger]
        dict_keys(dict).contains(key) && (levels > 0 ==> {
            &&& !stream_at(dict, key, None)
            &&& forall|stream: Stream<'_>| #[trigger]
                stream_at(dict, key, Some(stream)) ==> stream_surely_draws(
                    dict_of_stream(stream),
                    levels,
                    least,
                )
        })
}

/// However the lookups are answered, the stream is an image of at least `least` bytes or a
/// form that leads to one.
pub open spec fn stream_surely_draws(dict: Dict<'_>, levels: nat, least: int) -> bool
    decreases levels, 1int,
{
    forall|subtype: Option<Seq<u8>>| #[trigger]
        name_at(dict, "Subtype"@, subtype) ==> {
            ||| is_word(subtype, "Image"@) && forall|width: Option<u64>, height: Option<u64>|
                #[trigger] number_at(dict, "Width"@, width) && #[trigger] number_at(
                    dict,
                    "Height"@,
                    height,
                ) ==> 4 * (pixels(width) * pixels(height)) >= least
            ||| is_word(subtype, "Form"@) && !dict_at(dict, "Resources"@, None) && forall|
                resources: Dict<'_>,
                inner: Option<Dict<'_>>,
            | #[trigger]
                dict_at(dict, "Resources"@, Some(resources)) && #[trigger] dict_at(
                    resources,
                    "XObject"@,
                    inner,
                ) ==> levels > 0 && (inner matches Some(found) && surely_draws(
                    found,
                    (levels - 1) as nat,
                    least,
                ))
        }
}

/// No image that a page refers to is left out, however deep in its forms: the page counts at
/// least that image, and costs at least 8 MB and three times the image.
pub proof fn no_image_is_left_out(page: &Page<'_>, bytes: u64, cost: u64, least: int)
    requires
        call_ensures(page_image_bytes, (page,), bytes),
        call_ensures(estimated_page_bytes, (page,), cost),
        surely_draws(page_x_objects(*page), 5, least),
    ensures
        bytes >= capped(least),
        cost >= capped(8388608 + 3 * capped(least)),
{
    every_image_of_a_page_counts(page, bytes);
    a_page_costs_what_its_images_do(page, cost);
    let n = choose|n: int| #[trigger] page_counts(*page, n) && bytes == capped(n);
    drawn_is_counted(page_x_objects(*page), 5, n, least);
    let m = choose|m: int| #[trigger] page_counts(*page, m) && cost == capped(8388608 + 3 * m);
    drawn_is_counted(page_x_objects(*page), 5, m, least);
}

proof fn sum_holds_each(sizes: Seq<int>, i: int)
    requires
        0 <= i < sizes.len(),
        forall|j: int| 0 <= j < sizes.len() ==> #[trigger] sizes[j] >= 0,
    ensures
        sum(sizes) >= sizes[i],
        sum(sizes) >= 0,
    decreases sizes.len(),
{
    let fewer = sizes.drop_last();
    assert(sizes[sizes.len() - 1] >= 0);
    assert forall|j: int| 0 <= j < fewer.len() implies #[trigger] fewer[j] >= 0 by {
        assert(sizes[j] >= 0);
    }
    if i < fewer.len() {
        sum_holds_each(fewer, i);
    } else if fewer.len() > 0 {
        sum_holds_each(fewer, 0);
    }
}

proof fn counts_are_not_negative(dict: Dict<'_>, levels: nat, n: int)
    requires
        dict_counts(dict, levels, n),
    ensures
        n >= 0,
    decreases levels,
{
    if levels > 0 {
        let (keys, sizes) = choose|keys: Seq<Seq<u8>>, sizes: Seq<int>|
            {
                &&& #[trigger] are_entries(dict, keys, sizes)
                &&& n == sum(sizes)
                &&& forall|i: int|
                    0 <= i < keys.len() ==> entry_counts(
                        dict,
                        keys[i],
                        levels,
                        #[trigger] sizes[i],
                    )
            };
        assert forall|i: int| 0 <= i < sizes.len() implies #[trigger] sizes[i] >= 0 by {
            entry_count_is_not_negative(dict, keys[i], levels, sizes[i]);
        }
        if sizes.len() > 0 {
            sum_holds_each(sizes, 0);
        }
    }
}

proof fn entry_count_is_not_negative(dict: Dict<'_>, key: Seq<u8>, levels: nat, n: int)
    requires
        levels > 0,
        entry_counts(dict, key, levels, n),
    ensures
        n >= 0,
    decreases levels, 0int,
{
    if !(stream_at(dict, key, None) && n == 0) {
        let stream = choose|stream: Stream<'_>| #[trigger]
            stream_at(dict, key, Some(stream)) && stream_counts(
                dict_of_stream(stream),
                levels,
                n,
            );
        let entry = dict_of_stream(stream);
        if image_counts(entry, n) {
            let (width, height) = choose|width: Option<u64>, height: Option<u64>| #[trigger]
                number_at(entry, "Width"@, width) && #[trigger] number_at(
                    entry,
                    "Height"@,
                    height,
                ) && n == 4 * (pixels(width) * pixels(height));
            assert(pixels(width) * pixels(height) >= 0) by (nonlinear_arith)
                requires
                    pixels(width) >= 0,
                    pixels(height) >= 0,
            ;
        } else if form_counts(entry, levels, n) && n != 0 {
            let resources = choose|resources: Dict<'_>| #[trigger]
                dict_at(entry, "Resources"@, Some(resources)) && exists|inner: Dict<'_>|
                    #[trigger] dict_at(resources, "XObject"@, Some(inner)) && dict_counts(
                        inner,
                        (levels - 1) as nat,
                        n,
                    );
            let inner = choose|inner: Dict<'_>| #[trigger]
                dict_at(resources, "XObject"@, Some(inner)) && dict_counts(
                    inner,
                    (levels - 1) as nat,
                    n,
                );
            counts_are_not_negative(inner, (levels - 1) as nat, n);
        }
    }
}

proof fn drawn_is_counted(dict: Dict<'_>, levels: nat, n: int, least: int)
    requires
        dict_counts(dict, levels, n),
        surely_draws(dict, levels, least),
    ensures
        n >= capped(least),
    decreases levels,
{
    let key = choose|key: Seq<u8>| #[trigger]
        dict_keys(dict).contains(key) && (levels > 0 ==> {
            &&& !stream_at(dict, key, None)
            &&& forall|stream: Stream<'_>| #[trigger]
                stream_at(dict, key, Some(stream)) ==> stream_surely_draws(
                    dict_of_stream(stream),
                    levels,
                    least,
                )
        });
    if levels > 0 {
        let (keys, sizes) = choose|keys: Seq<Seq<u8>>, sizes: Seq<int>|
            {
                &&& #[trigger] are_entries(dict, keys, sizes)
                &&& n == sum(sizes)
                &&& forall|i: int|
                    0 <= i < keys.len() ==> entry_counts(
                        dict,
                        keys[i],
                        levels,
                        #[trigger] sizes[i],
                    )
            };
        assert(keys.contains(key));
        let at = choose|at: int| 0 <= at < keys.len() && keys[at] == key;
        assert forall|i: int| 0 <= i < sizes.len() implies #[trigger] sizes[i] >= 0 by {
            entry_count_is_not_negative(dict, keys[i], levels, sizes[i]);
        }
        sum_holds_each(sizes, at);
        let size = sizes[at];
        assert(entry_counts(dict, key, levels, size));
        let stream = choose|stream: Stream<'_>| #[trigger]
            stream_at(dict, key, Some(stream)) && stream_counts(
                dict_of_stream(stream),
                levels,
                size,
            );
        let entry = dict_of_stream(stream);
        assert(stream_surely_draws(entry, levels, least));
        let subtype = choose|subtype: Option<Seq<u8>>| #[trigger]
            name_at(entry, "Subtype"@, subtype) && if is_word(subtype, "Image"@) {
                image_counts(entry, size)
            } else if is_word(subtype, "Form"@) {
                form_counts(entry, levels, size)
            } else {
                size == 0
            };
        words_differ();
        if is_word(subtype, "Form"@) {
            let resources = choose|resources: Dict<'_>| #[trigger]
                dict_at(entry, "Resources"@, Some(resources)) && {
                    ||| dict_at(resources, "XObject"@, None) && size == 0
                    ||| levels > 0 && exists|inner: Dict<'_>| #[trigger]
                        dict_at(resources, "XObject"@, Some(inner)) && dict_counts(
                            inner,
                            (levels - 1) as nat,
                            size,
                        )
                };
            assert(!dict_at(resources, "XObject"@, None));
            let inner = choose|inner: Dict<'_>| #[trigger]
                dict_at(resources, "XObject"@, Some(inner)) && dict_counts(
                    inner,
                    (levels - 1) as nat,
                    size,
                );
            drawn_is_counted(inner, (levels - 1) as nat, size, least);
        }
    }
}

/// The pages of a file are counted as the parser lists them.
pub proof fn pages_are_counted_as_listed(data: &Arc<Vec<u8>>, pages: Option<usize>)
    requires
        call_ensures(load_page_count, (data,), pages),
    ensures
        has_pages(data@, pages),
{
    possible_pages_are_listed(data@, pages);
}

pub(crate) proof fn possible_pages_are_listed(bytes: Seq<u8>, pages: Option<usize>)
    requires
        crate::inspection::can_have_pages(bytes, pages),
    ensures
        has_pages(bytes, pages),
{
    let outcome = choose|outcome: Result<Pdf, LoadPdfError>| #[trigger]
        load_outcome(bytes, outcome) && match pages {
            Some(n) => crate::inspection::outcome_pages(outcome) == Some(n as nat),
            None => crate::inspection::outcome_pages(outcome) is None,
        };
    match outcome {
        Ok(pdf) => {
            assert(load_outcome(bytes, Ok::<Pdf, LoadPdfError>(pdf)));
        },
        Err(error) => {
            assert(load_outcome(bytes, Err::<Pdf, LoadPdfError>(error)));
        },
    }
}

/// A file of these bytes can have so many pages, or be rejected where there is no number.
pub open spec fn has_pages(bytes: Seq<u8>, pages: Option<usize>) -> bool {
    match pages {
        Some(n) => exists|pdf: Pdf| #[trigger]
            load_outcome(bytes, Ok::<Pdf, LoadPdfError>(pdf)) && n == page_count(pdf),
        None => exists|error: LoadPdfError| #[trigger]
            load_outcome(bytes, Err::<Pdf, LoadPdfError>(error)),
    }
}

/// `look` is what the page at `index` of a file can look like, and the parsed file where
/// there is that page.
pub open spec fn looks_like(
    bytes: Seq<u8>,
    index: usize,
    look: Inspection,
    parsed: Option<Pdf>,
) -> bool {
    match look {
        Inspection::Unreadable => parsed is None && exists|error: LoadPdfError| #[trigger]
            load_outcome(bytes, Err::<Pdf, LoadPdfError>(error)),
        Inspection::PastEnd => parsed is None && exists|pdf: Pdf| #[trigger]
            load_outcome(bytes, Ok::<Pdf, LoadPdfError>(pdf)) && index >= page_count(pdf),
        Inspection::Page { count, predicted } => {
            &&& parsed matches Some(pdf)
            &&& load_outcome(bytes, Ok::<Pdf, LoadPdfError>(pdf))
            &&& count == page_count(pdf)
            &&& index < count
            &&& page_costs(page_at(pdf, index as int), predicted)
        },
    }
}

/// A look is at the page that was asked for: where the file has that page, its cost is told,
/// and never that of another page.
pub proof fn a_look_is_at_the_page_asked_for(
    data: &Arc<Vec<u8>>,
    index: usize,
    look: (Inspection, Option<Pdf>),
)
    requires
        call_ensures(inspect_page, (data, index), look),
    ensures
        looks_like(data@, index, look.0, look.1),
        look.0 matches Inspection::Page { count, predicted } ==> has_no_entry(
            page_x_objects(page_at(look.1->0, index as int)),
        ) ==> predicted == 8388608,
{
    let outcome = choose|outcome: Result<Pdf, LoadPdfError>| #[trigger]
        load_outcome(data@, outcome) && crate::inspection::inspected(outcome, index, look.0) && (
        look.0 is Page ==> look.1 is Some && outcome == Ok::<Pdf, LoadPdfError>(look.1->0));
    inspected_looks_like(data@, outcome, index, look.0, look.1);
    if let Inspection::Page { count, predicted } = look.0 {
        if has_no_entry(page_x_objects(page_at(look.1->0, index as int))) {
            a_page_without_images_costs_the_fixed_amount(
                page_at(look.1->0, index as int),
                predicted,
            );
        }
    }
}

pub(crate) proof fn inspected_looks_like(
    bytes: Seq<u8>,
    outcome: Result<Pdf, LoadPdfError>,
    index: usize,
    look: Inspection,
    parsed: Option<Pdf>,
)
    requires
        load_outcome(bytes, outcome),
        crate::inspection::inspected(outcome, index, look),
        look is Page ==> parsed is Some && outcome == Ok::<Pdf, LoadPdfError>(parsed->0),
        look !is Page ==> parsed is None,
    ensures
        looks_like(bytes, index, look, parsed),
{
    match outcome {
        Ok(pdf) => {
            assert(load_outcome(bytes, Ok::<Pdf, LoadPdfError>(pdf)));
            if let Inspection::Page { count, predicted } = look {
                let page = page_at(pdf, index as int);
                let objects = choose|objects: Seq<XObject>| #[trigger]
                    crate::images::objects_on_page(page, objects) && predicted
                        == crate::images::predicted_bytes(
                        crate::images::saturated(total_bytes(objects)),
                    );
                found_page_costs(page, objects, predicted);
            }
        },
        Err(error) => {
            assert(load_outcome(bytes, Err::<Pdf, LoadPdfError>(error)));
        },
    }
}

} // verus!
