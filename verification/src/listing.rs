//! What the browser shows of a directory.
use crate::size::{human_size, size_text};
use crate::text::{
    chars_before, chars_of, has_suffix, lex_before, lex_before_irreflexive, lex_before_total,
    lex_before_transitive,
};
use vstd::prelude::*;

verus! {

/// An entry of a directory, as the file system gives it.
#[derive(Debug)]
pub struct DirEntry {
    pub name: String,
    pub is_dir: bool,
    pub len: u64,
}

/// An entry of a directory, mathematically.
pub struct EntryView {
    pub name: Seq<char>,
    pub is_dir: bool,
    pub len: nat,
}

impl View for DirEntry {
    type V = EntryView;

    open spec fn view(&self) -> EntryView {
        EntryView { name: self.name@, is_dir: self.is_dir, len: self.len as nat }
    }
}

/// A line of the browser.
#[derive(Debug)]
pub struct FileRow {
    pub name: String,
    pub info: String,
    pub is_folder: bool,
}

/// A line of the browser, mathematically.
pub struct RowView {
    pub name: Seq<char>,
    pub info: Seq<char>,
    pub is_folder: bool,
}

impl View for FileRow {
    type V = RowView;

    open spec fn view(&self) -> RowView {
        RowView { name: self.name@, info: self.info@, is_folder: self.is_folder }
    }
}

/// The views of a row of entries.
pub open spec fn entry_views(entries: Seq<DirEntry>) -> Seq<EntryView> {
    entries.map_values(|entry: DirEntry| entry@)
}

/// The views of a row of lines.
pub open spec fn row_views(rows: Seq<FileRow>) -> Seq<RowView> {
    rows.map_values(|row: FileRow| row@)
}

/// A text in lower case, as `str::to_lowercase` gives it.
pub uninterp spec fn lowercase(text: Seq<char>) -> Seq<char>;

/// Calls `str::to_lowercase`, which maps by Unicode's tables alone. Claimed: the result
/// depends on the text only. Left unsaid is which letters it maps to which.
#[verifier::external_body]
fn to_lowercase(text: &str) -> (lower: String)
    ensures
        lower@ == lowercase(text@),
{
    text.to_lowercase()
}

/// A name that starts with a dot is hidden; `.` and `..` are such names.
pub open spec fn is_hidden(name: Seq<char>) -> bool {
    name.len() > 0 && name[0] == '.'
}

/// A name in lower case that belongs to a PDF.
pub open spec fn is_pdf_name(lower: Seq<char>) -> bool {
    ".pdf"@.is_suffix_of(lower)
}

/// An entry of a directory with its name in lower case, mathematically.
pub struct NamedView {
    pub entry: EntryView,
    pub lower: Seq<char>,
}

/// The views of a row of entries, with their names in lower case.
pub open spec fn named_views(entries: Seq<DirEntry>, lowered: Seq<String>) -> Seq<NamedView> {
    Seq::new(entries.len(), |i: int| NamedView { entry: entries[i]@, lower: lowered[i]@ })
}

/// An entry with its name in lower case.
pub open spec fn lowercased(entry: EntryView) -> NamedView {
    NamedView { entry, lower: lowercase(entry.name) }
}

/// A row of entries with their names in lower case.
pub open spec fn all_lowercased(entries: Seq<EntryView>) -> Seq<NamedView> {
    entries.map_values(|entry: EntryView| lowercased(entry))
}

/// The browser shows folders and PDFs that are not hidden.
pub open spec fn is_listed(named: NamedView) -> bool {
    !is_hidden(named.entry.name) && (named.entry.is_dir || is_pdf_name(named.lower))
}

/// The line for an entry.
pub open spec fn row_of(entry: EntryView) -> RowView {
    RowView {
        name: entry.name,
        info: if entry.is_dir {
            "Folder"@
        } else {
            size_text(entry.len)
        },
        is_folder: entry.is_dir,
    }
}

/// The entries that are shown, in the order in which they came.
pub open spec fn listed(entries: Seq<NamedView>) -> Seq<NamedView> {
    entries.filter(|named: NamedView| is_listed(named))
}

/// Entry `a` belongs above entry `b`: folders above files, and names in alphabetical order
/// regardless of case.
pub open spec fn above(a: NamedView, b: NamedView) -> bool {
    if a.entry.is_dir != b.entry.is_dir {
        a.entry.is_dir
    } else {
        lex_before(a.lower, b.lower)
    }
}

/// Entry `i` comes before entry `j` in a stable sort: it belongs above it, or neither belongs
/// above the other and it came first.
pub open spec fn precedes(entries: Seq<NamedView>, i: int, j: int) -> bool {
    above(entries[i], entries[j]) || (!above(entries[j], entries[i]) && i < j)
}

/// `order` lists every position below `count` once.
pub open spec fn is_arrangement(count: nat, order: Seq<int>) -> bool {
    &&& order.len() == count
    &&& order.no_duplicates()
    &&& forall|i: int| 0 <= i < order.len() ==> 0 <= #[trigger] order[i] < count
    &&& forall|position: int| 0 <= position < count ==> #[trigger] order.contains(position)
}

/// `order` arranges `entries` as a stable sort does.
pub open spec fn is_stable_order(entries: Seq<NamedView>, order: Seq<int>) -> bool {
    &&& is_arrangement(entries.len(), order)
    &&& forall|i: int, j: int|
        0 <= i < j < order.len() ==> precedes(entries, #[trigger] order[i], #[trigger] order[j])
}

/// The lines for `entries` in the arrangement `order`.
pub open spec fn arranged(entries: Seq<NamedView>, order: Seq<int>) -> Seq<RowView> {
    Seq::new(order.len(), |i: int| row_of(entries[order[i]].entry))
}

/// `rows` is what the browser shows of a directory with these entries, going by these names
/// in lower case.
pub open spec fn arranges(entries: Seq<NamedView>, rows: Seq<RowView>) -> bool {
    exists|order: Seq<int>| #[trigger]
        is_stable_order(listed(entries), order) && rows == arranged(listed(entries), order)
}

/// `rows` is what the browser shows of a directory with these entries.
pub open spec fn shows(entries: Seq<EntryView>, rows: Seq<RowView>) -> bool {
    arranges(all_lowercased(entries), rows)
}

/// `row` is the line of an entry that is shown.
pub open spec fn is_row_among(entries: Seq<EntryView>, row: RowView) -> bool {
    exists|e: int|
        0 <= e < entries.len() && is_listed(lowercased(#[trigger] entries[e])) && row == row_of(
            entries[e],
        )
}

proof fn listed_comes_from_an_entry(entries: Seq<NamedView>, k: int)
    requires
        0 <= k < listed(entries).len(),
    ensures
        is_listed(listed(entries)[k]),
        entries.contains(listed(entries)[k]),
    decreases entries.len(),
{
    reveal(Seq::filter);
    if entries.len() > 0 {
        let fewer = entries.drop_last();
        if k < listed(fewer).len() {
            listed_comes_from_an_entry(fewer, k);
            let e = choose|e: int| 0 <= e < fewer.len() && fewer[e] == listed(fewer)[k];
            assert(entries[e] == fewer[e]);
        } else {
            assert(listed(entries)[k] == entries[entries.len() - 1]);
        }
    }
}

proof fn entry_is_kept(entries: Seq<NamedView>, e: int)
    requires
        0 <= e < entries.len(),
        is_listed(entries[e]),
    ensures
        listed(entries).contains(entries[e]),
    decreases entries.len(),
{
    reveal(Seq::filter);
    let kept = listed(entries);
    let fewer = entries.drop_last();
    if e < fewer.len() {
        entry_is_kept(fewer, e);
        let before = listed(fewer);
        let k = choose|k: int| 0 <= k < before.len() && before[k] == fewer[e];
        assert(kept[k] == entries[e]);
    } else {
        assert(kept[kept.len() - 1] == entries[e]);
    }
}

/// Not belonging above is transitive.
proof fn not_above_transitive(a: NamedView, b: NamedView, c: NamedView)
    requires
        !above(b, a),
        !above(c, b),
    ensures
        !above(c, a),
{
    if a.entry.is_dir == b.entry.is_dir && b.entry.is_dir == c.entry.is_dir {
        let (x, y, z) = (a.lower, b.lower, c.lower);
        lex_before_total(x, y);
        lex_before_total(y, z);
        if lex_before(z, x) {
            if x == y {
            } else if y == z {
            } else {
                lex_before_transitive(x, y, z);
                lex_before_transitive(x, z, x);
                lex_before_irreflexive(x);
            }
        }
    }
}

/// Two entries do not both belong above one another.
proof fn above_asymmetric(a: NamedView, b: NamedView)
    requires
        above(a, b),
    ensures
        !above(b, a),
{
    if above(b, a) {
        let (x, y) = (a.lower, b.lower);
        lex_before_transitive(x, y, x);
        lex_before_irreflexive(x);
    }
}

/// The browser shows folders and PDFs only, none of them hidden, and leaves out none.
pub proof fn shows_folders_and_pdfs_only(entries: Seq<EntryView>, rows: Seq<RowView>)
    requires
        shows(entries, rows),
    ensures
        forall|i: int| 0 <= i < rows.len() ==> is_row_among(entries, #[trigger] rows[i]),
        forall|e: int|
            0 <= e < entries.len() && is_listed(lowercased(#[trigger] entries[e]))
                ==> rows.contains(row_of(entries[e])),
{
    let named = all_lowercased(entries);
    let kept = listed(named);
    let order = choose|order: Seq<int>| #[trigger]
        is_stable_order(kept, order) && rows == arranged(kept, order);
    assert forall|i: int| 0 <= i < rows.len() implies is_row_among(
        entries,
        #[trigger] rows[i],
    ) by {
        listed_comes_from_an_entry(named, order[i]);
        let e = choose|e: int| 0 <= e < named.len() && named[e] == kept[order[i]];
        assert(named[e] == lowercased(entries[e]));
    }
    assert forall|e: int|
        0 <= e < entries.len() && is_listed(
            lowercased(#[trigger] entries[e]),
        ) implies rows.contains(row_of(entries[e])) by {
        assert(named[e] == lowercased(entries[e]));
        entry_is_kept(named, e);
        let k = choose|k: int| 0 <= k < kept.len() && kept[k] == named[e];
        assert(order.contains(k));
        let i = choose|i: int| 0 <= i < order.len() && order[i] == k;
        assert(rows[i] == row_of(entries[e]));
    }
}

/// Folders come first, and below that names are in alphabetical order regardless of case.
pub proof fn shows_folders_first(entries: Seq<EntryView>, rows: Seq<RowView>)
    requires
        shows(entries, rows),
    ensures
        forall|i: int, j: int|
            0 <= i < j < rows.len() && (#[trigger] rows[j]).is_folder ==> (
            #[trigger] rows[i]).is_folder,
        forall|i: int, j: int|
            0 <= i < j < rows.len() && (#[trigger] rows[i]).is_folder == (
            #[trigger] rows[j]).is_folder ==> !lex_before(
                lowercase(rows[j].name),
                lowercase(rows[i].name),
            ),
{
    let named = all_lowercased(entries);
    let kept = listed(named);
    let order = choose|order: Seq<int>| #[trigger]
        is_stable_order(kept, order) && rows == arranged(kept, order);
    assert forall|i: int, j: int| 0 <= i < j < rows.len() implies !above(
        kept[order[j]],
        kept[order[i]],
    ) && #[trigger] rows[i].is_folder == kept[order[i]].entry.is_dir
        && #[trigger] rows[j].is_folder == kept[order[j]].entry.is_dir && kept[order[i]].lower
        == lowercase(rows[i].name) && kept[order[j]].lower == lowercase(rows[j].name) by {
        assert(precedes(kept, order[i], order[j]));
        if above(kept[order[i]], kept[order[j]]) {
            above_asymmetric(kept[order[i]], kept[order[j]]);
        }
        listed_comes_from_an_entry(named, order[i]);
        listed_comes_from_an_entry(named, order[j]);
    }
}

/// A directory is shown in one way only: what the browser shows follows from the entries and
/// their names in lower case.
pub proof fn arranges_one_way_only(entries: Seq<NamedView>, a: Seq<RowView>, b: Seq<RowView>)
    requires
        arranges(entries, a),
        arranges(entries, b),
    ensures
        a == b,
{
    let kept = listed(entries);
    let p = choose|p: Seq<int>| #[trigger] is_stable_order(kept, p) && a == arranged(kept, p);
    let q = choose|q: Seq<int>| #[trigger] is_stable_order(kept, q) && b == arranged(kept, q);
    assert forall|k: int| 0 <= k < p.len() implies p[k] == q[k] by {
        stable_orders_agree(kept, p, q, k);
    }
    assert(p == q);
}

/// A directory is shown in one way only: what the browser shows follows from the entries.
pub proof fn shows_one_way_only(entries: Seq<EntryView>, a: Seq<RowView>, b: Seq<RowView>)
    requires
        shows(entries, a),
        shows(entries, b),
    ensures
        a == b,
{
    arranges_one_way_only(all_lowercased(entries), a, b);
}

/// Two stable orders of the same entries agree at every position.
proof fn stable_orders_agree(entries: Seq<NamedView>, p: Seq<int>, q: Seq<int>, k: int)
    requires
        is_stable_order(entries, p),
        is_stable_order(entries, q),
        0 <= k < entries.len(),
    ensures
        p[k] == q[k],
    decreases k,
{
    assert forall|i: int| 0 <= i < k implies p[i] == q[i] by {
        stable_orders_agree(entries, p, q, i);
    }
    if p[k] != q[k] {
        assert(q.contains(p[k]));
        assert(p.contains(q[k]));
        let i = choose|i: int| 0 <= i < q.len() && q[i] == p[k];
        let j = choose|j: int| 0 <= j < p.len() && p[j] == q[k];
        assert(i > k);
        assert(j > k);
        assert(precedes(entries, q[k], q[i]));
        assert(precedes(entries, p[k], p[j]));
        if above(entries[p[k]], entries[q[k]]) {
            above_asymmetric(entries[p[k]], entries[q[k]]);
        }
        if above(entries[q[k]], entries[p[k]]) {
            above_asymmetric(entries[q[k]], entries[p[k]]);
        }
    }
}

/// What an entry is sorted by.
struct SortKey {
    is_folder: bool,
    lower: Vec<char>,
}

/// `key` is what the entry `named` is sorted by.
spec fn is_key_of(key: SortKey, named: NamedView) -> bool {
    key.is_folder == named.entry.is_dir && key.lower@ == named.lower
}

/// `keys` are what `entries` are sorted by.
spec fn are_keys_of(keys: Seq<SortKey>, entries: Seq<NamedView>) -> bool {
    keys.len() == entries.len() && forall|i: int|
        0 <= i < entries.len() ==> is_key_of(#[trigger] keys[i], entries[i])
}

/// The lines for a row of entries.
spec fn rows_of(entries: Seq<NamedView>) -> Seq<RowView> {
    entries.map_values(|named: NamedView| row_of(named.entry))
}

/// The line for an entry with this name in lower case, and what it is sorted by; nothing
/// where it is not shown.
fn listed_row(entry: &DirEntry, lower: &str) -> (line: Option<(FileRow, SortKey)>)
    ensures
        ({
            let named = NamedView { entry: entry@, lower: lower@ };
            match line {
                Some((row, key)) => is_listed(named) && row@ == row_of(entry@) && is_key_of(
                    key,
                    named,
                ),
                None => !is_listed(named),
            }
        }),
{
    let letters: Vec<char> = chars_of(entry.name.as_str());
    if letters.len() > 0 && letters[0] == '.' {
        return None;
    }
    let lower: Vec<char> = chars_of(lower);
    if entry.is_dir {
        let row: FileRow = FileRow {
            name: entry.name.clone(),
            info: "Folder".to_owned(),
            is_folder: true,
        };
        Some((row, SortKey { is_folder: true, lower }))
    } else if has_suffix(&lower, ".pdf") {
        let row: FileRow = FileRow {
            name: entry.name.clone(),
            info: human_size(entry.len),
            is_folder: false,
        };
        Some((row, SortKey { is_folder: false, lower }))
    } else {
        None
    }
}

/// Whether the entry with the key `a` belongs above that with the key `b`.
fn key_above(a: &SortKey, b: &SortKey, entries: Ghost<(NamedView, NamedView)>) -> (is_above: bool)
    requires
        is_key_of(*a, entries@.0),
        is_key_of(*b, entries@.1),
    ensures
        is_above == above(entries@.0, entries@.1),
{
    if a.is_folder != b.is_folder {
        a.is_folder
    } else {
        chars_before(&a.lower, &b.lower)
    }
}

/// The positions as integers.
spec fn positions(order: Seq<usize>) -> Seq<int> {
    order.map_values(|position: usize| position as int)
}

/// Where the entry `next` belongs among the entries before it, which `order` arranges: behind
/// all that it does not belong above.
fn insertion_point(
    keys: &Vec<SortKey>,
    order: &Vec<usize>,
    next: usize,
    entries: Ghost<Seq<NamedView>>,
) -> (at: usize)
    requires
        next < keys.len(),
        are_keys_of(keys@, entries@),
        is_stable_order(entries@.take(next as int), positions(order@)),
    ensures
        at <= order.len(),
        forall|q: int|
            0 <= q < at ==> !above(
                entries@[next as int],
                entries@[#[trigger] order@[q] as int],
            ),
        forall|q: int|
            at <= q < order.len() ==> above(
                entries@[next as int],
                entries@[#[trigger] order@[q] as int],
            ),
{
    let ghost before = entries@.take(next as int);
    let ghost entry = entries@[next as int];
    let mut low: usize = 0;
    let mut high: usize = order.len();
    proof {
        assert forall|q: int| 0 <= q < order.len() implies 0 <= (#[trigger] order@[q]) < next by {
            assert(positions(order@)[q] == order@[q] as int);
        }
    }
    while low < high
        invariant
            low <= high <= order.len(),
            next < keys.len(),
            are_keys_of(keys@, entries@),
            before == entries@.take(next as int),
            entry == entries@[next as int],
            is_stable_order(before, positions(order@)),
            forall|q: int| 0 <= q < order.len() ==> 0 <= (#[trigger] order@[q]) < next,
            forall|q: int| 0 <= q < low ==> !above(entry, entries@[#[trigger] order@[q] as int]),
            forall|q: int|
                high <= q < order.len() ==> above(entry, entries@[#[trigger] order@[q] as int]),
        decreases high - low,
    {
        let middle: usize = low + (high - low) / 2;
        let other: usize = order[middle];
        let is_above: bool = key_above(
            &keys[next],
            &keys[other],
            Ghost((entry, entries@[other as int])),
        );
        proof {
            assert forall|q: int, r: int| 0 <= q < r < order.len() implies !above(
                entries@[#[trigger] order@[r] as int],
                entries@[#[trigger] order@[q] as int],
            ) by {
                assert(positions(order@)[q] == order@[q] as int);
                assert(positions(order@)[r] == order@[r] as int);
                assert(precedes(before, positions(order@)[q], positions(order@)[r]));
                let (a, b) = (entries@[order@[q] as int], entries@[order@[r] as int]);
                if above(a, b) {
                    above_asymmetric(a, b);
                }
            }
            if is_above {
                assert forall|q: int| middle <= q < order.len() implies above(
                    entry,
                    entries@[#[trigger] order@[q] as int],
                ) by {
                    if middle < q && !above(entry, entries@[order@[q] as int]) {
                        not_above_transitive(
                            entries@[other as int],
                            entries@[order@[q] as int],
                            entry,
                        );
                    }
                }
            } else {
                assert forall|q: int| 0 <= q <= middle implies !above(
                    entry,
                    entries@[#[trigger] order@[q] as int],
                ) by {
                    if q < middle {
                        not_above_transitive(
                            entries@[order@[q] as int],
                            entries@[other as int],
                            entry,
                        );
                    }
                }
            }
        }
        if is_above {
            high = middle;
        } else {
            low = middle + 1;
        }
    }
    low
}

/// The arrangement that a stable sort gives.
fn stable_order(keys: &Vec<SortKey>, entries: Ghost<Seq<NamedView>>) -> (order: Vec<usize>)
    requires
        are_keys_of(keys@, entries@),
    ensures
        is_stable_order(entries@, positions(order@)),
{
    let mut order: Vec<usize> = Vec::new();
    let mut next: usize = 0;
    while next < keys.len()
        invariant
            next <= keys.len(),
            are_keys_of(keys@, entries@),
            is_stable_order(entries@.take(next as int), positions(order@)),
        decreases keys.len() - next,
    {
        let at: usize = insertion_point(keys, &order, next, entries);
        let ghost old_order = order@;
        order.insert(at, next);
        proof {
            inserted_order_is_stable(entries@, old_order, order@, at as int, next);
        }
        next += 1;
    }
    assert(next == entries@.len());
    assert(entries@.take(next as int) =~= entries@);
    order
}

/// Inserting the next entry at its insertion point keeps the arrangement stable.
proof fn inserted_order_is_stable(
    entries: Seq<NamedView>,
    before: Seq<usize>,
    after: Seq<usize>,
    at: int,
    next: usize,
)
    requires
        next < entries.len(),
        0 <= at <= before.len(),
        after == before.insert(at, next),
        is_stable_order(entries.take(next as int), positions(before)),
        forall|q: int|
            0 <= q < at ==> !above(
                entries[next as int],
                entries[#[trigger] before[q] as int],
            ),
        forall|q: int|
            at <= q < before.len() ==> above(
                entries[next as int],
                entries[#[trigger] before[q] as int],
            ),
    ensures
        is_stable_order(entries.take(next + 1), positions(after)),
{
    let old_order = positions(before);
    let order = positions(after);
    let old_entries = entries.take(next as int);
    let new_entries = entries.take(next + 1);
    assert forall|i: int| 0 <= i < order.len() implies order[i] == (if i < at {
        old_order[i]
    } else if i == at {
        next as int
    } else {
        old_order[i - 1]
    }) by {}
    assert(order[at] == next);
    assert forall|position: int|
        0 <= position < new_entries.len() implies #[trigger] order.contains(position) by {
        if position < next {
            assert(old_order.contains(position));
            let i = choose|i: int| 0 <= i < old_order.len() && old_order[i] == position;
            if i < at {
                assert(order[i] == position);
            } else {
                assert(order[i + 1] == position);
            }
        }
    }
    assert forall|i: int, j: int| 0 <= i < j < order.len() implies precedes(
        new_entries,
        #[trigger] order[i],
        #[trigger] order[j],
    ) by {
        let qi = if i < at {
            i
        } else {
            i - 1
        };
        let qj = if j < at {
            j
        } else {
            j - 1
        };
        if i == at {
            assert(before[qj] as int == old_order[qj]);
            assert(old_order[qj] < next);
        } else if j == at {
            assert(before[qi] as int == old_order[qi]);
            assert(old_order[qi] < next);
        } else {
            assert(precedes(old_entries, old_order[qi], old_order[qj]));
        }
    }
}

/// The lines of the browser for a directory with these entries, in the order shown, going by
/// these names in lower case.
pub fn arrange_rows(entries: &Vec<DirEntry>, lowered: &Vec<String>) -> (rows: Vec<FileRow>)
    requires
        lowered.len() == entries.len(),
    ensures
        arranges(named_views(entries@, lowered@), row_views(rows@)),
{
    let mut found: Vec<FileRow> = Vec::new();
    let mut keys: Vec<SortKey> = Vec::new();
    let ghost named = named_views(entries@, lowered@);
    let mut i: usize = 0;
    assert(listed(named.take(0)) == Seq::<NamedView>::empty()) by {
        reveal(Seq::filter);
    }
    while i < entries.len()
        invariant
            i <= entries.len() == lowered.len(),
            named == named_views(entries@, lowered@),
            row_views(found@) == rows_of(listed(named.take(i as int))),
            are_keys_of(keys@, listed(named.take(i as int))),
        decreases entries.len() - i,
    {
        let ghost before = listed(named.take(i as int));
        proof {
            reveal(Seq::filter);
            assert(named.take(i + 1).drop_last() == named.take(i as int));
            assert(named.take(i + 1).last() == named[i as int]);
        }
        match listed_row(&entries[i], lowered[i].as_str()) {
            None => {
                assert(listed(named.take(i + 1)) == before);
            },
            Some((row, key)) => {
                let ghost rows_before = row_views(found@);
                found.push(row);
                keys.push(key);
                assert(listed(named.take(i + 1)) == before.push(named[i as int]));
                assert(row_views(found@) == rows_before.push(row@));
                assert(rows_of(before.push(named[i as int])) == rows_of(before).push(row@));
            },
        }
        i += 1;
    }
    assert(named.take(i as int) == named);
    let ghost kept = listed(named);
    let order: Vec<usize> = stable_order(&keys, Ghost(kept));
    let mut rows: Vec<FileRow> = Vec::new();
    let mut k: usize = 0;
    while k < order.len()
        invariant
            k <= order.len(),
            row_views(found@) == rows_of(kept),
            is_stable_order(kept, positions(order@)),
            row_views(rows@) == arranged(kept, positions(order@)).take(k as int),
        decreases order.len() - k,
    {
        assert(positions(order@)[k as int] == order@[k as int] as int);
        assert(row_views(found@).len() == found.len());
        let row: &FileRow = &found[order[k]];
        assert(row@ == row_views(found@)[order@[k as int] as int]);
        let ghost rows_before = row_views(rows@);
        rows.push(
            FileRow {
                name: row.name.clone(),
                info: row.info.clone(),
                is_folder: row.is_folder,
            },
        );
        assert(row_views(rows@) == rows_before.push(row@));
        k += 1;
    }
    assert(arranged(kept, positions(order@)).take(k as int) == arranged(kept, positions(order@)));
    rows
}

/// The lines of the browser for a directory with these entries, in the order shown.
pub fn list_rows(entries: &Vec<DirEntry>) -> (rows: Vec<FileRow>)
    ensures
        shows(entry_views(entries@), row_views(rows@)),
{
    let mut lowered: Vec<String> = Vec::new();
    let mut i: usize = 0;
    while i < entries.len()
        invariant
            i <= entries.len(),
            lowered.len() == i,
            forall|j: int|
                0 <= j < i ==> (#[trigger] lowered@[j])@ == lowercase(entries@[j].name@),
        decreases entries.len() - i,
    {
        lowered.push(to_lowercase(entries[i].name.as_str()));
        i += 1;
    }
    assert(named_views(entries@, lowered@) == all_lowercased(entry_views(entries@)));
    arrange_rows(entries, &lowered)
}

} // verus!
