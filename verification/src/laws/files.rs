//! Paths, locations, listings and the reading of files.
use vstd::prelude::*;

use crate::laws::words::{comes_before, reads_as_size};
use crate::listing::{arrange_rows, list_rows, lowercase, DirEntry, FileRow};
use crate::paths::{join_path, parent_path};
use crate::reading::{
    admit_size, read_buffer, read_error_message, read_result, reserve_outcome, reserved_buffer,
    ReadError,
};
use crate::storage::{err_msg, location_for, FsError, Location};

verus! {

/// `path` is the directory `dir`, the name `name`, and between them one `/`, which may be the
/// last character of the directory.
pub open spec fn leads_into(dir: Seq<char>, name: Seq<char>, path: Seq<char>) -> bool {
    &&& dir.is_prefix_of(path)
    &&& name.is_suffix_of(path)
    &&& path.len() - name.len() == dir.len() + (if dir.len() > 0 && dir.last() == '/' {
        0int
    } else {
        1int
    })
    &&& path[path.len() - name.len() - 1] == '/'
}

/// `dir` is what is left of `path` without its last name and the `/` before it, and the top
/// where nothing is left.
pub open spec fn leads_out(path: Seq<char>, dir: Seq<char>) -> bool {
    &&& forall|before: Seq<char>, name: Seq<char>|
        path == #[trigger] (before + "/"@ + name) && !name.contains('/') ==> dir == (
        if before.len() == 0 {
            "/"@
        } else {
            before
        })
    &&& !path.contains('/') ==> dir == "/"@
}

/// A path is a directory and a name with one `/` between them.
pub proof fn paths_are_joined_by_one_slash(dir: &str, name: &str, path: String)
    requires
        call_ensures(join_path, (dir, name), path),
    ensures
        leads_into(dir@, name@, path@),
{
    joined_leads_into(dir@, name@);
}

pub(crate) proof fn joined_leads_into(dir: Seq<char>, name: Seq<char>)
    ensures
        leads_into(dir, name, crate::paths::joined(dir, name)),
{
    let path = crate::paths::joined(dir, name);
    assert(path.take(dir.len() as int) == dir);
    assert(path.subrange(path.len() - name.len(), path.len() as int) == name);
}

/// The way up takes the last name off, and ends at the top.
pub proof fn the_way_up_takes_the_last_name_off(path: &str, dir: String)
    requires
        call_ensures(parent_path, (path,), dir),
    ensures
        leads_out(path@, dir@),
{
    parent_leads_out(path@);
}

pub(crate) proof fn parent_leads_out(path: Seq<char>)
    ensures
        leads_out(path, crate::paths::parent(path)),
{
    let dir = crate::paths::parent(path);
    let at = crate::paths::last_slash(path);
    crate::paths::last_slash_position(path);
    reveal_strlit("/");
    assert(crate::paths::root() == "/"@);
    assert forall|before: Seq<char>, name: Seq<char>|
        path == #[trigger] (before + "/"@ + name) && !name.contains('/') implies dir == (
    if before.len() == 0 {
        "/"@
    } else {
        before
    }) by {
        let k = before.len() as int;
        assert(path[k] == '/');
        assert(at >= k);
        if at > k {
            assert(path[at] == name[at - k - 1]);
        }
        assert(path.take(k) == before);
    }
    if !path.contains('/') && at >= 0 {
        assert(path[at] == '/');
    }
}

/// The second tab is the airlock, the third is USB, and no other tab is either.
pub proof fn tabs_lead_to_their_locations(index: i32, location: Location)
    requires
        call_ensures(location_for, (index,), location),
    ensures
        location is Airlock <==> index == 1,
        location is Usb <==> index == 2,
        location is User <==> index != 1 && index != 2,
{
}

/// `message` is what the reader is told of a report of the file system.
pub open spec fn tells_of_report(error: FsError, message: Seq<char>) -> bool {
    &&& error is NoMedia ==> message == "Not connected"@
    &&& error is AccessDenied ==> message == "Access denied"@
    &&& error is FileNotFound ==> message == "Not found"@
    &&& error is FileAlreadyExists ==> message == "Already exists"@
    &&& error is FileInUse ==> message == "File is in use"@
    &&& error is InvalidPath ==> message == "Invalid name"@
    &&& error matches FsError::Other(text) ==> message == "Error: "@ + text@
}

/// Every report of the file system has words of its own.
pub proof fn reports_have_their_words(error: &FsError, message: String)
    requires
        call_ensures(err_msg, (error,), message),
    ensures
        tells_of_report(*error, message@),
{
}

/// `message` says that a file of `len` bytes, told as `size`, is over the limit, told as
/// `limit`.
pub open spec fn tells_of_size(
    len: u64,
    message: Seq<char>,
    size: Seq<char>,
    limit: Seq<char>,
) -> bool {
    &&& reads_as_size(size, len as int)
    &&& reads_as_size(limit, 16777216)
    &&& message == "This PDF is "@ + size + " — too large to open (limit "@ + limit + ")."@
}

/// `message` is what the reader is told of a failed read.
pub open spec fn tells_of_read(error: ReadError, message: Seq<char>) -> bool {
    &&& error matches ReadError::Open(report) ==> tells_of_report(report, message)
    &&& error matches ReadError::TooLarge(len) ==> exists|size: Seq<char>, limit: Seq<char>|
        #[trigger] tells_of_size(len, message, size, limit)
    &&& error is NoMemory ==> message == "Not enough memory to open this PDF"@
    &&& error is Failed ==> message == "Read failed"@
}

/// Every failed read has words of its own; a file that is too large is told with its size.
pub proof fn failed_reads_have_their_words(error: &ReadError, message: String)
    requires
        call_ensures(read_error_message, (error,), message),
    ensures
        tells_of_read(*error, message@),
{
    read_error_text_tells(*error);
}

pub(crate) proof fn read_error_text_tells(error: ReadError)
    ensures
        tells_of_read(error, crate::reading::read_error_text(error)),
{
    if let ReadError::TooLarge(len) = error {
        crate::laws::words::size_text_reads_as_size(len as nat);
        crate::laws::words::size_text_reads_as_size(16777216);
        assert(tells_of_size(
            len,
            crate::reading::read_error_text(error),
            crate::size::size_text(len as nat),
            crate::size::size_text(16777216),
        ));
    }
}

/// Room is made for exactly the bytes of a file of up to 16 MB; a larger one is refused with
/// its size, and where the size is unknown no room is made.
pub proof fn files_up_to_the_limit_are_admitted(len: Option<u64>, room: Result<usize, ReadError>)
    requires
        call_ensures(admit_size, (len,), room),
    ensures
        len is None ==> (room matches Ok(bytes) && bytes == 0),
        len matches Some(n) ==> if n <= 16777216 {
            room matches Ok(bytes) && bytes == n
        } else {
            room matches Err(ReadError::TooLarge(size)) && size == n
        },
{
}

/// A buffer is handed on as it is exactly where there was memory.
pub proof fn buffers_need_memory(buffer: Vec<u8>, reserved: bool, ready: Result<Vec<u8>, ReadError>)
    requires
        call_ensures(reserved_buffer, (buffer, reserved), ready),
    ensures
        ready is Ok <==> reserved,
        ready matches Ok(bytes) ==> bytes@ == buffer@,
        ready matches Err(error) ==> error is NoMemory,
{
}

/// A file of up to 16 MB gets an empty buffer where the allocator can give room for exactly
/// its bytes, and is refused for want of memory only where it cannot. A larger file is
/// refused with its size, and one of unknown size or no bytes gets a buffer.
pub proof fn buffers_fit_their_files(len: Option<u64>, buffer: Result<Vec<u8>, ReadError>)
    requires
        call_ensures(read_buffer, (len,), buffer),
    ensures
        buffer matches Ok(bytes) ==> bytes@.len() == 0,
        len is None ==> buffer is Ok,
        len == Some(0u64) ==> buffer is Ok,
        len matches Some(n) ==> if n > 16777216 {
            buffer matches Err(ReadError::TooLarge(size)) && size == n
        } else {
            match buffer {
                Ok(_) => reserve_outcome(0, n as nat, true),
                Err(error) => error is NoMemory && reserve_outcome(0, n as nat, false),
            }
        },
{
}

/// A file is taken up with every byte that was read, where reading did not fail and gave at
/// most 16 MB; a failure is told before the size.
pub proof fn reads_give_every_byte(
    buffer: Vec<u8>,
    complete: bool,
    result: Result<Vec<u8>, ReadError>,
)
    requires
        call_ensures(read_result, (buffer, complete), result),
    ensures
        result is Ok <==> complete && buffer@.len() <= 16777216,
        result matches Ok(bytes) ==> bytes@ == buffer@,
        !complete ==> (result matches Err(error) && error is Failed),
        complete && buffer@.len() > 16777216 ==> (result matches Err(ReadError::TooLarge(n)) && n
            == buffer@.len()),
{
    assert(buffer.len() == buffer@.len());
}

/// An entry has a line in the browser: its name does not start with a dot, and it is a folder
/// or its name in lower case ends in `.pdf`.
pub open spec fn has_a_line(entry: DirEntry, lower: Seq<char>) -> bool {
    &&& entry.name@.len() == 0 || entry.name@[0] != '.'
    &&& entry.is_dir || exists|stem: Seq<char>| lower == #[trigger] (stem + ".pdf"@)
}

/// `row` is the line for `entry`: its name, whether it is a folder, and for a file its size.
pub open spec fn is_line_for(row: FileRow, entry: DirEntry) -> bool {
    &&& row.name@ == entry.name@
    &&& row.is_folder == entry.is_dir
    &&& entry.is_dir ==> row.info@ == "Folder"@
    &&& !entry.is_dir ==> reads_as_size(row.info@, entry.len as int)
}

/// Entry `a` is shown above entry `b`: a folder above a file, and of two folders or two files
/// the one whose name in lower case comes first, or else the one that came first.
pub open spec fn is_shown_above(
    entries: Seq<DirEntry>,
    lower: Seq<Seq<char>>,
    a: int,
    b: int,
) -> bool {
    if entries[a].is_dir != entries[b].is_dir {
        entries[a].is_dir
    } else {
        comes_before(lower[a], lower[b]) || (lower[a] == lower[b] && a < b)
    }
}

/// `rows` shows these entries, whose names in lower case are `lower`: line `i` is that of
/// the entry at `source[i]`.
pub open spec fn lists(
    entries: Seq<DirEntry>,
    lower: Seq<Seq<char>>,
    rows: Seq<FileRow>,
    source: Seq<int>,
) -> bool {
    &&& source.len() == rows.len()
    &&& forall|i: int|
        0 <= i < rows.len() ==> {
            &&& 0 <= #[trigger] source[i] < entries.len()
            &&& has_a_line(entries[source[i]], lower[source[i]])
            &&& is_line_for(rows[i], entries[source[i]])
        }
    &&& forall|e: int|
        0 <= e < entries.len() && has_a_line(#[trigger] entries[e], lower[e]) ==> source.contains(e)
    &&& forall|i: int, j: int|
        0 <= i < j < rows.len() ==> source[i] != source[j] && is_shown_above(
            entries,
            lower,
            #[trigger] source[i],
            #[trigger] source[j],
        )
}

/// The names of these entries in lower case.
pub open spec fn lower_names(entries: Seq<DirEntry>) -> Seq<Seq<char>> {
    Seq::new(entries.len(), |i: int| lowercase(entries[i].name@))
}

/// `texts` as rows of characters.
pub open spec fn texts_of(texts: Seq<String>) -> Seq<Seq<char>> {
    Seq::new(texts.len(), |i: int| texts[i]@)
}

/// The browser has one line for every folder and every PDF that is not hidden, whatever its
/// size, and no other line; folders come first, then names go in alphabetical order
/// regardless of case, and what is equal keeps its order.
pub proof fn a_directory_is_listed_line_by_line(entries: &Vec<DirEntry>, rows: Vec<FileRow>)
    requires
        call_ensures(list_rows, (entries,), rows),
    ensures
        exists|source: Seq<int>| #[trigger]
            lists(entries@, lower_names(entries@), rows@, source),
{
    shown_directory_is_listed(entries@, rows@);
}

pub(crate) proof fn shown_directory_is_listed(entries: Seq<DirEntry>, rows: Seq<FileRow>)
    requires
        crate::listing::shows(
            crate::listing::entry_views(entries),
            crate::listing::row_views(rows),
        ),
    ensures
        exists|source: Seq<int>| #[trigger] lists(entries, lower_names(entries), rows, source),
{
    let named = crate::listing::all_lowercased(crate::listing::entry_views(entries));
    arrangement_lists(entries, lower_names(entries), named, rows);
}

/// The same where the names in lower case are given.
pub proof fn entries_are_listed_line_by_line(
    entries: &Vec<DirEntry>,
    lowered: &Vec<String>,
    rows: Vec<FileRow>,
)
    requires
        lowered.len() == entries.len(),
        call_ensures(arrange_rows, (entries, lowered), rows),
    ensures
        exists|source: Seq<int>| #[trigger]
            lists(entries@, texts_of(lowered@), rows@, source),
{
    let named = crate::listing::named_views(entries@, lowered@);
    arrangement_lists(entries@, texts_of(lowered@), named, rows@);
}

/// `row` is the line of one of these entries that is to have a line.
pub open spec fn is_line_among(row: FileRow, entries: Seq<DirEntry>) -> bool {
    exists|e: int|
        0 <= e < entries.len() && has_a_line(
            #[trigger] entries[e],
            lowercase(entries[e].name@),
        ) && is_line_for(row, entries[e])
}

/// Every folder and every PDF that is not hidden has a line whatever its size, and every
/// line is that of such an entry.
pub proof fn folders_and_pdfs_have_lines(entries: &Vec<DirEntry>, rows: Vec<FileRow>)
    requires
        call_ensures(list_rows, (entries,), rows),
    ensures
        forall|e: int|
            0 <= e < entries@.len() && has_a_line(
                #[trigger] entries@[e],
                lowercase(entries@[e].name@),
            ) ==> exists|i: int|
                0 <= i < rows@.len() && is_line_for(#[trigger] rows@[i], entries@[e]),
        forall|i: int| 0 <= i < rows@.len() ==> is_line_among(#[trigger] rows@[i], entries@),
{
    a_directory_is_listed_line_by_line(entries, rows);
    let lower = lower_names(entries@);
    let source = choose|source: Seq<int>| #[trigger] lists(entries@, lower, rows@, source);
    assert forall|e: int|
        0 <= e < entries@.len() && has_a_line(
            #[trigger] entries@[e],
            lowercase(entries@[e].name@),
        ) implies exists|i: int|
        0 <= i < rows@.len() && is_line_for(#[trigger] rows@[i], entries@[e]) by {
        assert(has_a_line(entries@[e], lower[e]));
        assert(source.contains(e));
        let i = choose|i: int| 0 <= i < source.len() && source[i] == e;
        assert(is_line_for(rows@[i], entries@[e]));
    }
    assert forall|i: int| 0 <= i < rows@.len() implies is_line_among(
        #[trigger] rows@[i],
        entries@,
    ) by {
        let e = source[i];
        assert(has_a_line(entries@[e], lower[e]));
        assert(is_line_for(rows@[i], entries@[e]));
    }
}

proof fn kept_positions(named: Seq<crate::listing::NamedView>) -> (at: Seq<int>)
    ensures
        at.len() == crate::listing::listed(named).len(),
        forall|k: int|
            0 <= k < at.len() ==> 0 <= #[trigger] at[k] < named.len() && named[at[k]]
                == crate::listing::listed(named)[k] && crate::listing::is_listed(named[at[k]]),
        forall|k: int, l: int| 0 <= k < l < at.len() ==> at[k] < at[l],
        forall|e: int|
            0 <= e < named.len() && crate::listing::is_listed(#[trigger] named[e])
                ==> at.contains(e),
    decreases named.len(),
{
    reveal(Seq::filter);
    if named.len() == 0 {
        Seq::empty()
    } else {
        let fewer = named.drop_last();
        let before = kept_positions(fewer);
        let last = named.len() - 1;
        if crate::listing::is_listed(named[last]) {
            let at = before.push(last);
            assert forall|e: int|
                0 <= e < named.len() && crate::listing::is_listed(
                    #[trigger] named[e],
                ) implies at.contains(e) by {
                if e < last {
                    assert(crate::listing::is_listed(fewer[e]));
                    let k = choose|k: int| 0 <= k < before.len() && before[k] == e;
                    assert(at[k] == e);
                } else {
                    assert(at[before.len() as int] == e);
                }
            }
            assert forall|k: int| 0 <= k < at.len() implies 0 <= #[trigger] at[k] < named.len()
                && named[at[k]] == crate::listing::listed(named)[k] && crate::listing::is_listed(
                named[at[k]],
            ) by {
                if k < before.len() {
                    assert(at[k] == before[k]);
                    assert(fewer[before[k]] == named[before[k]]);
                }
            }
            at
        } else {
            assert forall|e: int|
                0 <= e < named.len() && crate::listing::is_listed(
                    #[trigger] named[e],
                ) implies before.contains(e) by {
                assert(crate::listing::is_listed(fewer[e]));
            }
            before
        }
    }
}

proof fn arrangement_lists(
    entries: Seq<DirEntry>,
    lower: Seq<Seq<char>>,
    named: Seq<crate::listing::NamedView>,
    rows: Seq<FileRow>,
)
    requires
        lower.len() == entries.len(),
        named.len() == entries.len(),
        forall|e: int|
            0 <= e < entries.len() ==> #[trigger] named[e] == (crate::listing::NamedView {
                entry: entries[e]@,
                lower: lower[e],
            }),
        crate::listing::arranges(named, crate::listing::row_views(rows)),
    ensures
        exists|source: Seq<int>| #[trigger] lists(entries, lower, rows, source),
{
    let views = crate::listing::row_views(rows);
    let kept = crate::listing::listed(named);
    let order = choose|order: Seq<int>| #[trigger]
        crate::listing::is_stable_order(kept, order) && views == crate::listing::arranged(
            kept,
            order,
        );
    let at = kept_positions(named);
    let source = Seq::new(order.len(), |i: int| at[order[i]]);
    assert forall|e: int| 0 <= e < entries.len() implies has_a_line(
        #[trigger] entries[e],
        lower[e],
    ) == crate::listing::is_listed(named[e]) by {
        crate::laws::words::ending_is_suffix(lower[e], ".pdf"@);
    }
    assert(rows.len() == views.len());
    assert forall|i: int| 0 <= i < rows.len() implies {
        &&& 0 <= #[trigger] source[i] < entries.len()
        &&& has_a_line(entries[source[i]], lower[source[i]])
        &&& is_line_for(rows[i], entries[source[i]])
    } by {
        let k = order[i];
        assert(named[at[k]] == kept[k]);
        assert(has_a_line(entries[source[i]], lower[source[i]]));
        assert(views[i] == rows[i]@);
        assert(views[i] == crate::listing::row_of(entries[source[i]]@));
        crate::laws::words::size_text_reads_as_size(entries[source[i]].len as nat);
    }
    assert forall|e: int|
        0 <= e < entries.len() && has_a_line(
            #[trigger] entries[e],
            lower[e],
        ) implies source.contains(e) by {
        assert(crate::listing::is_listed(named[e]));
        let k = choose|k: int| 0 <= k < at.len() && at[k] == e;
        assert(order.contains(k));
        let i = choose|i: int| 0 <= i < order.len() && order[i] == k;
        assert(source[i] == e);
    }
    assert forall|i: int, j: int| 0 <= i < j < rows.len() implies source[i] != source[j]
        && is_shown_above(entries, lower, #[trigger] source[i], #[trigger] source[j]) by {
        let (k, l) = (order[i], order[j]);
        assert(crate::listing::precedes(kept, k, l));
        assert(named[at[k]] == kept[k] && named[at[l]] == kept[l]);
        assert(k != l);
        let (a, b) = (lower[source[i]], lower[source[j]]);
        crate::laws::words::lex_before_is_comes_before(a, b);
        crate::text::lex_before_total(a, b);
    }
    assert(lists(entries, lower, rows, source));
}

} // verus!
