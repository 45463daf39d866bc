//! What drawing a page will cost in memory, predicted from the images that it refers to.
use hayro::hayro_interpret::hayro_syntax::object::{Dict, Stream};
use hayro::hayro_interpret::hayro_syntax::page::Page;

use crate::document::{
    get_dict, get_name, get_number, get_stream, keys_of, stream_dict,
    x_objects_of,
};
use vstd::prelude::*;

verus! {

/// What every page costs beside its images: fonts, content streams and the renderer's own
/// state for the page.
pub const PAGE_RENDER_FIXED_BYTES: u64 = 8 * 1024 * 1024;

/// How often the decoded bytes of an image are held at the peak: decoded, converted to
/// another colour space and scaled.
pub const PAGE_IMAGE_FACTOR: u64 = 3;

/// A page that is predicted to cost more than this is not drawn.
pub const MAX_PAGE_RENDER_BYTES: u64 = 32 * 1024 * 1024;

/// A dictionary of external objects is looked into if it lies inside at most this many
/// forms.
pub const MAX_FORM_DEPTH: u32 = 4;

/// An image pixel is decoded to four bytes, whatever its colour space and bit depth.
pub const BYTES_PER_PIXEL: u64 = 4;

/// `n`, or the largest 64-bit number where `n` is larger.
pub open spec fn saturated(n: nat) -> u64 {
    if n > u64::MAX {
        u64::MAX
    } else {
        n as u64
    }
}

/// An external object of a page, with what the prediction reads of it.
pub enum XObject {
    /// An image and its native size in pixels.
    Image { width: nat, height: nat },
    /// A form and the objects that it draws in turn.
    Form { inner: Seq<XObject> },
    /// What lies too deep to be looked into.
    TooDeep,
    /// Anything else.
    Other,
}

/// The decoded size of an image in bytes.
pub open spec fn decoded_bytes(width: nat, height: nat) -> nat {
    BYTES_PER_PIXEL as nat * (width * height)
}

/// The decoded size of the images in one external object. What was not looked into may hold
/// any image, and counts as more than a page can afford.
pub open spec fn object_bytes(object: XObject) -> nat
    decreases object,
{
    match object {
        XObject::Image { width, height } => decoded_bytes(width, height),
        XObject::Form { inner } => total_bytes(inner),
        XObject::TooDeep => u64::MAX as nat,
        XObject::Other => 0,
    }
}

/// The decoded size of the images in a row of external objects; an image that occurs
/// twice counts twice.
pub open spec fn total_bytes(objects: Seq<XObject>) -> nat
    decreases objects,
{
    if objects.len() == 0 {
        0
    } else {
        total_bytes(objects.drop_last()) + object_bytes(objects.last())
    }
}

/// `objects` is what the prediction can find in the XObject dictionary `dict`, looking into
/// `levels` dictionaries inside one another: one object per key. A dictionary below the last
/// level is not looked into; if it holds anything, it is too deep.
pub open spec fn objects_of(dict: Dict<'_>, levels: nat, objects: Seq<XObject>) -> bool
    decreases levels, 2int,
{
    if levels == 0 {
        objects == unseen_objects(dict)
    } else {
        exists|keys: Seq<Seq<u8>>| #[trigger]
            lists_keys(dict, keys) && keys.len() == objects.len() && forall|i: int|
                0 <= i < keys.len() ==> object_at(
                    dict,
                    keys[i],
                    levels,
                    #[trigger] objects[i],
                )
    }
}

/// What stands for the contents of a dictionary that is not looked into.
pub open spec fn unseen_objects(dict: Dict<'_>) -> Seq<XObject> {
    if crate::document::dict_keys(dict) == Set::<Seq<u8>>::empty() {
        Seq::empty()
    } else {
        seq![XObject::TooDeep]
    }
}

/// `keys` lists the keys of `dict`, each once.
pub open spec fn lists_keys(dict: Dict<'_>, keys: Seq<Seq<u8>>) -> bool {
    keys.no_duplicates() && keys.to_set() == crate::document::dict_keys(dict)
}

/// `object` is what the entry `key` of `dict` can stand for. An entry that is no stream
/// stands for nothing that is drawn.
pub open spec fn object_at(dict: Dict<'_>, key: Seq<u8>, levels: nat, object: XObject) -> bool
    decreases levels, 1int,
{
    ||| crate::document::stream_at(dict, key, None) && object is Other
    ||| exists|stream: Stream<'_>|
        {
            &&& #[trigger] crate::document::stream_at(dict, key, Some(stream))
            &&& described(crate::document::dict_of_stream(stream), levels, object)
        }
}

/// `object` is what a stream with the dictionary `dict` can be, going by its `Subtype`.
pub open spec fn described(dict: Dict<'_>, levels: nat, object: XObject) -> bool
    decreases levels, 0int,
{
    exists|subtype: Option<Seq<u8>>|
        {
            &&& #[trigger] crate::document::name_at(dict, "Subtype"@, subtype)
            &&& match kind_of(subtype) {
                Kind::Image => image_described(dict, object),
                Kind::Form => {
                    ||| object == (XObject::Form { inner: Seq::empty() }) && formless(dict)
                    ||| levels > 0 && exists|resources: Dict<'_>, inner: Dict<'_>|
                        {
                            &&& #[trigger] form_resources(dict, resources, inner)
                            &&& object matches XObject::Form { inner: objects }
                            &&& objects_of(inner, (levels - 1) as nat, objects)
                        }
                },
                Kind::Other => object is Other,
            }
        }
}

/// `object` is the image that `dict` can describe; a missing dimension is 0.
pub open spec fn image_described(dict: Dict<'_>, object: XObject) -> bool {
    exists|width: Option<u64>, height: Option<u64>|
        {
            &&& #[trigger] crate::document::number_at(dict, "Width"@, width)
            &&& #[trigger] crate::document::number_at(dict, "Height"@, height)
            &&& object == (XObject::Image {
                width: or_zero(width) as nat,
                height: or_zero(height) as nat,
            })
        }
}

/// The form that `dict` describes can turn out to have no XObject dictionary.
pub open spec fn formless(dict: Dict<'_>) -> bool {
    ||| crate::document::dict_at(dict, "Resources"@, None)
    ||| exists|resources: Dict<'_>|
        {
            &&& #[trigger] crate::document::dict_at(dict, "Resources"@, Some(resources))
            &&& crate::document::dict_at(resources, "XObject"@, None)
        }
}

/// The form that `dict` describes can turn out to have these resources and this XObject
/// dictionary.
pub open spec fn form_resources(dict: Dict<'_>, resources: Dict<'_>, inner: Dict<'_>) -> bool {
    &&& crate::document::dict_at(dict, "Resources"@, Some(resources))
    &&& crate::document::dict_at(resources, "XObject"@, Some(inner))
}

/// `objects` is what the prediction can find on a page.
pub open spec fn objects_on_page(page: Page<'_>, objects: Seq<XObject>) -> bool {
    objects_of(crate::document::page_x_objects(page), MAX_FORM_DEPTH as nat + 1, objects)
}

/// The kinds of external objects that the prediction tells apart.
#[derive(Clone, Copy, Debug, PartialEq, Eq, Structural)]
pub enum Kind {
    Image,
    Form,
    Other,
}

/// The kind that a `Subtype` entry names.
pub open spec fn kind_of(subtype: Option<Seq<u8>>) -> Kind {
    match subtype {
        Some(bytes) => if bytes == vstd::utf8::encode_utf8("Image"@) {
            Kind::Image
        } else if bytes == vstd::utf8::encode_utf8("Form"@) {
            Kind::Form
        } else {
            Kind::Other
        },
        None => Kind::Other,
    }
}

/// A dimension, 0 where it is missing.
pub open spec fn or_zero(number: Option<u64>) -> u64 {
    match number {
        Some(n) => n,
        None => 0,
    }
}

/// What drawing a page will cost, from the decoded size of its images.
pub open spec fn predicted_bytes(image_bytes: u64) -> u64 {
    saturated(
        (PAGE_RENDER_FIXED_BYTES + saturated(
            (image_bytes * PAGE_IMAGE_FACTOR) as nat,
        )) as nat,
    )
}

fn saturating_product(a: u64, b: u64) -> (product: u64)
    ensures
        product == saturated((a * b) as nat),
{
    assert(a * b >= 0) by (nonlinear_arith);
    match a.checked_mul(b) {
        Some(product) => product,
        None => u64::MAX,
    }
}

/// Whether `bytes` spells `word`.
fn spells(bytes: &Vec<u8>, word: &str) -> (same: bool)
    ensures
        same == (bytes@ == vstd::utf8::encode_utf8(word@)),
{
    let letters: &[u8] = word.as_bytes();
    if bytes.len() != letters.len() {
        return false;
    }
    let mut i: usize = 0;
    while i < bytes.len()
        invariant
            i <= bytes.len() == letters.len(),
            letters@ == vstd::utf8::encode_utf8(word@),
            forall|j: int| 0 <= j < i ==> bytes@[j] == letters@[j],
        decreases bytes.len() - i,
    {
        if bytes[i] != letters[i] {
            return false;
        }
        i += 1;
    }
    assert(bytes@ == letters@);
    true
}

/// The kind that a `Subtype` entry names.
pub fn object_kind(subtype: &Option<Vec<u8>>) -> (kind: Kind)
    ensures
        kind == kind_of(crate::document::optional_bytes(*subtype)),
{
    match subtype {
        Some(bytes) => if spells(bytes, "Image") {
            Kind::Image
        } else if spells(bytes, "Form") {
            Kind::Form
        } else {
            Kind::Other
        },
        None => Kind::Other,
    }
}

/// The decoded size of one image, from the dimensions that its dictionary gives.
pub fn image_bytes(width: Option<u64>, height: Option<u64>) -> (bytes: u64)
    ensures
        bytes == saturated(decoded_bytes(or_zero(width) as nat, or_zero(height) as nat)),
{
    let w: u64 = match width {
        Some(n) => n,
        None => 0,
    };
    let h: u64 = match height {
        Some(n) => n,
        None => 0,
    };
    saturating_product(saturating_product(w, h), BYTES_PER_PIXEL)
}

/// Whether anything lies in a dictionary, by its keys.
proof fn unseen_objects_from_keys(dict: Dict<'_>, keys: Seq<Seq<u8>>)
    requires
        lists_keys(dict, keys),
    ensures
        total_bytes(unseen_objects(dict)) == (if keys.len() == 0 {
            0
        } else {
            u64::MAX as nat
        }),
        keys.len() == 0 <==> unseen_objects(dict).len() == 0,
{
    if keys.len() == 0 {
        assert(keys.to_set() =~= Set::<Seq<u8>>::empty());
    } else {
        assert(keys.to_set().contains(keys[0]));
        total_of_one(XObject::TooDeep);
    }
}

/// `total` and the decoded sizes of the images under `dict`.
fn walk(dict: &Dict<'_>, levels: u32, total: u64) -> (sum: u64)
    requires
        crate::document::lookups_return(*dict),
    ensures
        exists|objects: Seq<XObject>| #[trigger]
            objects_of(*dict, levels as nat, objects) && sum == saturated(
                total as nat + total_bytes(objects),
            ),
    decreases levels,
{
    let ghost mut objects: Seq<XObject> = Seq::empty();
    let keys: Vec<Vec<u8>> = keys_of(dict);
    let ghost rows = crate::document::byte_rows(keys@);
    if levels == 0 {
        proof {
            unseen_objects_from_keys(*dict, rows);
        }
        assert(objects_of(*dict, levels as nat, unseen_objects(*dict)));
        return if keys.len() == 0 {
            total
        } else {
            u64::MAX
        };
    }
    let mut sum: u64 = total;
    let mut i: usize = 0;
    while i < keys.len()
        invariant
            i <= keys.len(),
            levels > 0,
            crate::document::lookups_return(*dict),
            rows == crate::document::byte_rows(keys@),
            objects.len() == i,
            forall|j: int|
                0 <= j < i ==> object_at(*dict, rows[j], levels as nat, #[trigger] objects[j]),
            sum == saturated(total as nat + total_bytes(objects)),
        decreases keys.len() - i,
    {
        let ghost mut object = XObject::Other;
        let ghost start = sum;
        match get_stream(dict, &keys[i]) {
            None => {},
            Some(stream) => {
                let entry: &Dict<'_> = stream_dict(&stream);
                let subtype: Option<Vec<u8>> = get_name(entry, "Subtype");
                match object_kind(&subtype) {
                    Kind::Image => {
                        let width: Option<u64> = get_number(entry, "Width");
                        let height: Option<u64> = get_number(entry, "Height");
                        proof {
                            object = XObject::Image {
                                width: or_zero(width) as nat,
                                height: or_zero(height) as nat,
                            };
                            assert(image_described(*entry, object));
                        }
                        sum = sum.saturating_add(image_bytes(width, height));
                    },
                    Kind::Form => {
                        proof {
                            object = XObject::Form { inner: Seq::empty() };
                        }
                        match get_dict(entry, "Resources") {
                            None => {},
                            Some(resources) => {
                                match get_dict(&resources, "XObject") {
                                    None => {},
                                    Some(inner) => {
                                        let ghost before = sum;
                                        let next: u32 = levels - 1;
                                        sum = walk(&inner, next, sum);
                                        proof {
                                            let found = choose|found: Seq<XObject>| #[trigger]
                                                objects_of(inner, next as nat, found)
                                                    && sum == saturated(
                                                    before as nat + total_bytes(found),
                                                );
                                            object = XObject::Form { inner: found };
                                            assert(form_resources(*entry, resources, inner));
                                            assert(objects_of(
                                                inner,
                                                (levels as nat - 1) as nat,
                                                found,
                                            ));
                                        }
                                    },
                                }
                            },
                        }
                    },
                    Kind::Other => {},
                }
                assert(described(*entry, levels as nat, object));
            },
        }
        assert(sum == saturated(start as nat + object_bytes(object)));
        proof {
            assert(rows[i as int] == keys@[i as int]@);
            assert(object_at(*dict, rows[i as int], levels as nat, object));
            assert(objects.push(object).drop_last() == objects);
            objects = objects.push(object);
        }
        i += 1;
    }
    assert(lists_keys(*dict, rows));
    assert(objects_of(*dict, levels as nat, objects));
    sum
}

/// The decoded size of every image that a page refers to, through its forms too.
///
/// This is on purpose more than the renderer will hold: an image counts as often as it is
/// referred to, in full colour and at its native size, and forms that lie too deep to be
/// looked into count as more than any page can afford.
pub fn page_image_bytes(page: &Page<'_>) -> (bytes: u64)
    requires
        crate::document::lookups_return(crate::document::page_x_objects(*page)),
    ensures
        exists|objects: Seq<XObject>| #[trigger]
            objects_on_page(*page, objects) && bytes == saturated(total_bytes(objects)),
{
    let dict: &Dict<'_> = x_objects_of(page);
    let bytes: u64 = walk(dict, MAX_FORM_DEPTH + 1, 0);
    proof {
        let objects = choose|objects: Seq<XObject>| #[trigger]
            objects_of(*dict, (MAX_FORM_DEPTH + 1) as nat, objects) && bytes == saturated(
                0u64 as nat + total_bytes(objects),
            );
        assert(objects_on_page(*page, objects));
    }
    bytes
}

/// What drawing a page will cost, from the decoded size of its images.
pub fn render_cost(image_bytes: u64) -> (cost: u64)
    ensures
        cost == predicted_bytes(image_bytes),
{
    PAGE_RENDER_FIXED_BYTES.saturating_add(saturating_product(image_bytes, PAGE_IMAGE_FACTOR))
}

/// What drawing a page will cost.
pub fn estimated_page_bytes(page: &Page<'_>) -> (cost: u64)
    requires
        crate::document::lookups_return(crate::document::page_x_objects(*page)),
    ensures
        exists|objects: Seq<XObject>| #[trigger]
            objects_on_page(*page, objects) && cost == predicted_bytes(
                saturated(total_bytes(objects)),
            ),
{
    render_cost(page_image_bytes(page))
}

/// The prediction is the fixed cost and three times the images, up to the largest number
/// that can be written down: it is never below the decoded size of the images.
pub proof fn prediction_covers_the_images(objects: Seq<XObject>)
    ensures
        predicted_bytes(saturated(total_bytes(objects))) == saturated(
            (PAGE_RENDER_FIXED_BYTES + PAGE_IMAGE_FACTOR * total_bytes(objects)) as nat,
        ),
        predicted_bytes(saturated(total_bytes(objects))) >= saturated(total_bytes(objects)),
{
}

/// `b` is `a` or more than `a`: an image at least as wide and as high, or a form that draws
/// at least as much.
pub open spec fn object_covered(a: XObject, b: XObject) -> bool
    decreases a,
{
    match (a, b) {
        (XObject::Other, _) => true,
        (XObject::Image { width: w1, height: h1 }, XObject::Image { width: w2, height: h2 }) => w1
            <= w2 && h1 <= h2,
        (XObject::Form { inner: inner1 }, XObject::Form { inner: inner2 }) => covered(
            inner1,
            inner2,
        ),
        (XObject::TooDeep, XObject::TooDeep) => true,
        _ => false,
    }
}

/// `b` holds all that `a` holds or more of it, in any order, and perhaps further objects.
pub open spec fn covered(a: Seq<XObject>, b: Seq<XObject>) -> bool
    decreases a,
{
    exists|place: Seq<int>| #[trigger]
        is_placing(a.len(), b.len(), place) && forall|i: int|
            0 <= i < a.len() ==> object_covered(#[trigger] a[i], b[place[i]])
}

/// `place` gives each of `count` objects a place of its own among `room` places.
pub open spec fn is_placing(count: nat, room: nat, place: Seq<int>) -> bool {
    &&& place.len() == count
    &&& place.no_duplicates()
    &&& forall|i: int| 0 <= i < count ==> 0 <= #[trigger] place[i] < room
}

/// Neither another order, nor further objects at any depth, nor wider or higher images make
/// the images of a page count for less, or the page look cheaper. Where only the order
/// differs, at whatever depth, they count the same.
pub proof fn prediction_grows_with_the_images(a: Seq<XObject>, b: Seq<XObject>)
    requires
        covered(a, b),
    ensures
        total_bytes(a) <= total_bytes(b),
        saturated(total_bytes(a)) <= saturated(total_bytes(b)),
        predicted_bytes(saturated(total_bytes(a))) <= predicted_bytes(
            saturated(total_bytes(b)),
        ),
        covered(b, a) ==> total_bytes(a) == total_bytes(b),
{
    covered_counts_no_more(a, b);
    if covered(b, a) {
        covered_counts_no_more(b, a);
    }
}

proof fn covered_counts_no_more(a: Seq<XObject>, b: Seq<XObject>)
    requires
        covered(a, b),
    ensures
        total_bytes(a) <= total_bytes(b),
    decreases a,
{
    let place = choose|place: Seq<int>| #[trigger]
        is_placing(a.len(), b.len(), place) && forall|i: int|
            0 <= i < a.len() ==> object_covered(#[trigger] a[i], b[place[i]]);
    assert forall|i: int| 0 <= i < a.len() implies object_bytes(#[trigger] a[i]) <= object_bytes(
        b[place[i]],
    ) by {
        match (a[i], b[place[i]]) {
            (XObject::Image { width: w1, height: h1 }, XObject::Image { width: w2, height: h2 }) => {
                assert(w1 * h1 <= w2 * h2) by (nonlinear_arith)
                    requires
                        w1 <= w2,
                        h1 <= h2,
                ;
            },
            (XObject::Form { inner: inner1 }, XObject::Form { inner: inner2 }) => {
                covered_counts_no_more(inner1, inner2);
            },
            _ => {},
        }
    }
    placed_total_is_covered(a, b, place);
}

proof fn placed_total_is_covered(a: Seq<XObject>, b: Seq<XObject>, place: Seq<int>)
    requires
        is_placing(a.len(), b.len(), place),
        forall|i: int|
            0 <= i < a.len() ==> object_bytes(#[trigger] a[i]) <= object_bytes(b[place[i]]),
    ensures
        total_bytes(a) <= total_bytes(b),
    decreases a.len(),
{
    if a.len() > 0 {
        let last = a.len() - 1;
        let at = place[last];
        let fewer = a.drop_last();
        let others = b.remove(at);
        let places = Seq::new(
            fewer.len(),
            |i: int|
                if place[i] < at {
                    place[i]
                } else {
                    place[i] - 1
                },
        );
        assert forall|i: int, j: int| 0 <= i < j < places.len() implies places[i] != places[j] by {
            assert(place[i] != place[j] && place[i] != place[last] && place[j] != place[last]);
        }
        assert forall|i: int| 0 <= i < fewer.len() implies 0 <= #[trigger] places[i] < others.len()
            && object_bytes(fewer[i]) <= object_bytes(others[places[i]]) by {
            assert(place[i] != place[last]);
            assert(others[places[i]] == b[place[i]]);
            assert(object_bytes(a[i]) <= object_bytes(b[place[i]]));
        }
        assert forall|i: int| 0 <= i < fewer.len() implies object_bytes(#[trigger] fewer[i])
            <= object_bytes(others[places[i]]) by {
            assert(0 <= places[i] < others.len());
        }
        placed_total_is_covered(fewer, others, places);
        total_without_one(b, at);
        assert(object_bytes(a[last]) <= object_bytes(b[at]));
    }
}

proof fn total_of_one(object: XObject)
    ensures
        total_bytes(seq![object]) == object_bytes(object),
{
    assert(seq![object].drop_last() == Seq::<XObject>::empty());
    assert(seq![object].last() == object);
    assert(total_bytes(Seq::<XObject>::empty()) == 0);
}

proof fn total_without_one(objects: Seq<XObject>, at: int)
    requires
        0 <= at < objects.len(),
    ensures
        total_bytes(objects) == object_bytes(objects[at]) + total_bytes(objects.remove(at)),
{
    let before = objects.take(at);
    let after = objects.skip(at + 1);
    let one = seq![objects[at]];
    assert(objects.remove(at) == before + after);
    assert(objects == before + (one + after));
    total_of_concatenation(before, after);
    total_of_concatenation(before, one + after);
    total_of_concatenation(one, after);
    total_of_one(objects[at]);
}

/// A page is within the limit exactly when its images decode to at most 8 MB; one without
/// images always is.
pub proof fn pages_within_the_limit(image_bytes: u64)
    ensures
        predicted_bytes(image_bytes) <= MAX_PAGE_RENDER_BYTES <==> image_bytes <= 8 * 1024 * 1024,
        predicted_bytes(0) <= MAX_PAGE_RENDER_BYTES,
{
}

proof fn total_of_concatenation(a: Seq<XObject>, b: Seq<XObject>)
    ensures
        total_bytes(a + b) == total_bytes(a) + total_bytes(b),
    decreases b.len(),
{
    if b.len() == 0 {
        assert(a + b == a);
    } else {
        assert((a + b).drop_last() == a + b.drop_last());
        total_of_concatenation(a, b.drop_last());
    }
}

/// The order in which the objects of a page are met does not change what they add up to.
pub proof fn order_does_not_matter(a: Seq<XObject>, b: Seq<XObject>)
    requires
        a.to_multiset() == b.to_multiset(),
    ensures
        total_bytes(a) == total_bytes(b),
    decreases a.len(),
{
    broadcast use vstd::seq_lib::group_to_multiset_ensures;

    if a.len() == 0 {
        assert(b.len() == 0) by {
            assert(a.to_multiset().len() == a.len());
            assert(b.to_multiset().len() == b.len());
        }
    } else {
        let last = a.last();
        assert(b.to_multiset().count(last) > 0);
        assert(b.contains(last));
        let at = b.index_of(last);
        assert(a.drop_last() == a.remove(a.len() - 1));
        order_does_not_matter(a.drop_last(), b.remove(at));
        total_without_one(b, at);
    }
}

/// `objects`, cut off below `levels` dictionaries.
pub open spec fn cut(objects: Seq<XObject>, levels: nat) -> Seq<XObject>
    decreases levels, 1int,
{
    if levels == 0 {
        if objects.len() == 0 {
            Seq::empty()
        } else {
            seq![XObject::TooDeep]
        }
    } else {
        Seq::new(objects.len(), |i: int| cut_object(objects[i], levels))
    }
}

/// One external object, cut off below `levels` dictionaries counting the one that it is in.
pub open spec fn cut_object(object: XObject, levels: nat) -> XObject
    decreases levels, 0int,
{
    match object {
        XObject::Form { inner } => if levels > 0 {
            XObject::Form { inner: cut(inner, (levels - 1) as nat) }
        } else {
            object
        },
        _ => object,
    }
}

/// Looking into fewer levels only errs upwards: whatever a deeper look can find, a shallower
/// one can find its upper part, and counts at least as much for it.
pub proof fn the_bound_errs_upwards(
    dict: Dict<'_>,
    deeper: nat,
    levels: nat,
    objects: Seq<XObject>,
)
    requires
        levels <= deeper,
        objects_of(dict, deeper, objects),
    ensures
        objects_of(dict, levels, cut(objects, levels)),
        saturated(total_bytes(cut(objects, levels))) >= saturated(total_bytes(objects)),
{
    cut_is_found(dict, deeper, levels, objects);
    cut_counts_no_less(objects, levels);
}

proof fn cut_counts_no_less(objects: Seq<XObject>, levels: nat)
    ensures
        saturated(total_bytes(cut(objects, levels))) >= saturated(total_bytes(objects)),
    decreases levels, objects.len(),
{
    let upper = cut(objects, levels);
    if objects.len() == 0 {
        assert(upper.len() == 0);
    } else if levels == 0 {
        total_of_one(XObject::TooDeep);
    } else {
        let fewer = objects.drop_last();
        cut_counts_no_less(fewer, levels);
        assert(upper.drop_last() == cut(fewer, levels));
        assert(upper.last() == cut_object(objects.last(), levels));
        if let XObject::Form { inner } = objects.last() {
            cut_counts_no_less(inner, (levels - 1) as nat);
            assert(object_bytes(upper.last()) == total_bytes(cut(inner, (levels - 1) as nat)));
        }
        assert(saturated(object_bytes(upper.last())) >= saturated(object_bytes(objects.last())));
        assert(total_bytes(upper) == total_bytes(upper.drop_last()) + object_bytes(upper.last()));
    }
}

proof fn cut_is_found(dict: Dict<'_>, deeper: nat, levels: nat, objects: Seq<XObject>)
    requires
        levels <= deeper,
        objects_of(dict, deeper, objects),
    ensures
        objects_of(dict, levels, cut(objects, levels)),
    decreases levels, 1int,
{
    if deeper > 0 {
        let keys = choose|keys: Seq<Seq<u8>>| #[trigger]
            lists_keys(dict, keys) && keys.len() == objects.len() && forall|i: int|
                0 <= i < keys.len() ==> object_at(dict, keys[i], deeper, #[trigger] objects[i]);
        unseen_objects_from_keys(dict, keys);
        if levels > 0 {
            let found = cut(objects, levels);
            assert forall|i: int| 0 <= i < keys.len() implies object_at(
                dict,
                keys[i],
                levels,
                #[trigger] found[i],
            ) by {
                let object = objects[i];
                assert(object_at(dict, keys[i], deeper, object));
                assert(found[i] == cut_object(object, levels));
                if !(crate::document::stream_at(dict, keys[i], None) && object is Other) {
                    let stream = choose|stream: Stream<'_>|
                        #[trigger] crate::document::stream_at(dict, keys[i], Some(stream))
                            && described(crate::document::dict_of_stream(stream), deeper, object);
                    cut_is_described(
                        crate::document::dict_of_stream(stream),
                        deeper,
                        levels,
                        object,
                    );
                }
            }
            assert(lists_keys(dict, keys));
        } else {
            assert(cut(objects, 0) =~= unseen_objects(dict));
        }
    } else {
        assert(cut(objects, 0) =~= unseen_objects(dict));
    }
}

proof fn cut_is_described(dict: Dict<'_>, deeper: nat, levels: nat, object: XObject)
    requires
        0 < levels <= deeper,
        described(dict, deeper, object),
    ensures
        described(dict, levels, cut_object(object, levels)),
    decreases levels, 0int,
{
    let subtype = choose|subtype: Option<Seq<u8>>|
        {
            &&& #[trigger] crate::document::name_at(dict, "Subtype"@, subtype)
            &&& match kind_of(subtype) {
                Kind::Image => image_described(dict, object),
                Kind::Form => {
                    ||| object == (XObject::Form { inner: Seq::empty() }) && formless(dict)
                    ||| deeper > 0 && exists|resources: Dict<'_>, inner: Dict<'_>|
                        {
                            &&& #[trigger] form_resources(dict, resources, inner)
                            &&& object matches XObject::Form { inner: objects }
                            &&& objects_of(inner, (deeper - 1) as nat, objects)
                        }
                },
                Kind::Other => object is Other,
            }
        };
    if kind_of(subtype) == Kind::Form {
        let objects = object->inner;
        if object == (XObject::Form { inner: Seq::empty() }) && formless(dict) {
            assert(cut(Seq::<XObject>::empty(), (levels - 1) as nat) =~= Seq::<XObject>::empty());
        } else {
            let (resources, inner) = choose|resources: Dict<'_>, inner: Dict<'_>|
                #[trigger] form_resources(dict, resources, inner) && objects_of(
                    inner,
                    (deeper - 1) as nat,
                    objects,
                );
            cut_is_found(inner, (deeper - 1) as nat, (levels - 1) as nat, objects);
            assert(form_resources(dict, resources, inner));
        }
    }
    assert(crate::document::name_at(dict, "Subtype"@, subtype));
}

/// How many forms lie inside one another in an external object.
pub open spec fn object_nesting(object: XObject) -> nat
    decreases object,
{
    match object {
        XObject::Form { inner } => 1 + nesting(inner),
        _ => 0,
    }
}

/// How many forms lie inside one another in a row of external objects.
pub open spec fn nesting(objects: Seq<XObject>) -> nat
    decreases objects,
{
    if objects.len() == 0 {
        0
    } else if nesting(objects.drop_last()) > object_nesting(objects.last()) {
        nesting(objects.drop_last())
    } else {
        object_nesting(objects.last())
    }
}

/// However deep the forms of a file go, and whether or not they come back to themselves,
/// the prediction stops following them at a fixed depth.
pub proof fn forms_are_followed_to_a_fixed_depth(page: Page<'_>, objects: Seq<XObject>)
    requires
        objects_on_page(page, objects),
    ensures
        nesting(objects) <= MAX_FORM_DEPTH + 1,
{
    followed_depth(
        crate::document::page_x_objects(page),
        MAX_FORM_DEPTH as nat + 1,
        objects,
    );
}

proof fn followed_depth(dict: Dict<'_>, levels: nat, objects: Seq<XObject>)
    requires
        objects_of(dict, levels, objects),
    ensures
        nesting(objects) <= levels,
    decreases levels,
{
    if levels == 0 {
        nesting_is_bounded(objects, 0);
    } else {
        let keys = choose|keys: Seq<Seq<u8>>| #[trigger]
            lists_keys(dict, keys) && keys.len() == objects.len() && forall|i: int|
                0 <= i < keys.len() ==> object_at(dict, keys[i], levels, #[trigger] objects[i]);
        assert forall|i: int| 0 <= i < objects.len() implies object_nesting(
            #[trigger] objects[i],
        ) <= levels by {
            let object = objects[i];
            assert(object_at(dict, keys[i], levels, object));
            if let XObject::Form { inner } = object {
                let stream = choose|stream: Stream<'_>|
                    #[trigger] crate::document::stream_at(dict, keys[i], Some(stream))
                        && described(crate::document::dict_of_stream(stream), levels, object);
                let entry = crate::document::dict_of_stream(stream);
                if inner.len() == 0 {
                    assert(nesting(inner) == 0);
                } else {
                    let (resources, found) = choose|resources: Dict<'_>, found: Dict<'_>|
                        #[trigger] form_resources(entry, resources, found) && objects_of(
                            found,
                            (levels - 1) as nat,
                            inner,
                        );
                    followed_depth(found, (levels - 1) as nat, inner);
                }
            }
        }
        nesting_is_bounded(objects, levels);
    }
}

proof fn nesting_is_bounded(objects: Seq<XObject>, bound: nat)
    requires
        forall|i: int| 0 <= i < objects.len() ==> object_nesting(#[trigger] objects[i]) <= bound,
    ensures
        nesting(objects) <= bound,
    decreases objects.len(),
{
    if objects.len() > 0 {
        assert forall|i: int| 0 <= i < objects.drop_last().len() implies object_nesting(
            #[trigger] objects.drop_last()[i],
        ) <= bound by {
            assert(objects.drop_last()[i] == objects[i]);
        }
        nesting_is_bounded(objects.drop_last(), bound);
        assert(object_nesting(objects[objects.len() - 1]) <= bound);
    }
}

} // verus!
