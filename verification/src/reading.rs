//! Reading a file into memory: which files are small enough, and what is said otherwise.
use crate::size::{human_size, size_text};
use crate::storage::{err_msg, fs_error_text, FsError};
use vstd::prelude::*;
use vstd::string::StringExecFns;

verus! {

/// The largest file that is opened.
///
/// The file itself is the cheap part: its bytes and the parsed objects cost about 1.6 times
/// its size. What a page costs to draw is limited separately, so this only keeps the file
/// affordable.
pub const MAX_PDF_BYTES: u64 = 16 * 1024 * 1024;

/// Why a file could not be read.
#[derive(Debug)]
pub enum ReadError {
    /// The file could not be opened.
    Open(FsError),
    /// The file has this many bytes, more than is opened.
    TooLarge(u64),
    /// There is no memory for its bytes.
    NoMemory,
    /// Reading its bytes failed.
    Failed,
}

/// The words for a failed read.
pub open spec fn read_error_text(error: ReadError) -> Seq<char> {
    match error {
        ReadError::Open(error) => fs_error_text(error),
        ReadError::TooLarge(len) => "This PDF is "@ + size_text(len as nat)
            + " — too large to open (limit "@ + size_text(MAX_PDF_BYTES as nat) + ")."@,
        ReadError::NoMemory => "Not enough memory to open this PDF"@,
        ReadError::Failed => "Read failed"@,
    }
}

/// The words for a failed read.
pub fn read_error_message(error: &ReadError) -> (message: String)
    ensures
        message@ == read_error_text(*error),
{
    match error {
        ReadError::Open(error) => err_msg(error),
        ReadError::TooLarge(len) => {
            let mut message: String = "This PDF is ".to_owned();
            message.append(human_size(*len).as_str());
            message.append(" — too large to open (limit ");
            message.append(human_size(MAX_PDF_BYTES).as_str());
            message.append(").");
            message
        },
        ReadError::NoMemory => "Not enough memory to open this PDF".to_owned(),
        ReadError::Failed => "Read failed".to_owned(),
    }
}

/// How much room to make for a file whose size is `len`, if it is known. An unknown size
/// counts as nothing.
pub fn admit_size(len: Option<u64>) -> (room: Result<usize, ReadError>)
    ensures
        match len {
            Some(n) => if n > MAX_PDF_BYTES {
                room == Err::<usize, ReadError>(ReadError::TooLarge(n))
            } else {
                room == Ok::<usize, ReadError>(n as usize) && n as usize == n
            },
            None => room == Ok::<usize, ReadError>(0),
        },
{
    match len {
        Some(n) => if n > MAX_PDF_BYTES {
            Err(ReadError::TooLarge(n))
        } else {
            Ok(n as usize)
        },
        None => Ok(0),
    }
}

/// `reserved` tells how `Vec::try_reserve_exact` can end, on a vector of `len` bytes that is
/// asked for room for `additional` more.
pub uninterp spec fn reserve_outcome(len: nat, additional: nat, reserved: bool) -> bool;

/// Calls `Vec::try_reserve_exact`. Claimed: the bytes in `buffer` stay as they are, the
/// result is one that this request can have, and a request for nothing succeeds. Left
/// unsaid is for which other sizes the allocator succeeds.
#[verifier::external_body]
fn try_reserve_exact(buffer: &mut Vec<u8>, additional: usize) -> (reserved: bool)
    ensures
        final(buffer)@ == old(buffer)@,
        reserve_outcome(old(buffer)@.len(), additional as nat, reserved),
        additional == 0 ==> reserved,
{
    buffer.try_reserve_exact(additional).is_ok()
}

/// What to read into, from what came of making room: the buffer, or that there is no memory.
pub fn reserved_buffer(buffer: Vec<u8>, reserved: bool) -> (ready: Result<Vec<u8>, ReadError>)
    ensures
        ready == (if reserved {
            Ok::<Vec<u8>, ReadError>(buffer)
        } else {
            Err::<Vec<u8>, ReadError>(ReadError::NoMemory)
        }),
{
    if reserved {
        Ok(buffer)
    } else {
        Err(ReadError::NoMemory)
    }
}

/// An empty buffer with room for a file whose size is `len`.
///
/// A file over the limit is refused before anything is allocated. Asking for the exact size
/// turns a failed allocation into an error and avoids the overshoot of a growing buffer.
pub fn read_buffer(len: Option<u64>) -> (buffer: Result<Vec<u8>, ReadError>)
    ensures
        match buffer {
            Ok(bytes) => bytes@ == Seq::<u8>::empty() && (len matches Some(n) ==> n
                <= MAX_PDF_BYTES && reserve_outcome(0, n as nat, true)),
            Err(ReadError::TooLarge(n)) => len == Some(n) && n > MAX_PDF_BYTES,
            Err(ReadError::NoMemory) => len matches Some(n) && 0 < n <= MAX_PDF_BYTES
                && reserve_outcome(0, n as nat, false),
            Err(_) => false,
        },
        len matches Some(n) && n > MAX_PDF_BYTES ==> buffer is Err,
        len is None || len == Some(0u64) ==> buffer is Ok,
{
    match admit_size(len) {
        Err(error) => Err(error),
        Ok(room) => {
            let mut bytes: Vec<u8> = Vec::new();
            let reserved: bool = try_reserve_exact(&mut bytes, room);
            reserved_buffer(bytes, reserved)
        },
    }
}

/// What a finished read came to: `complete` tells whether `buffer` was read without a
/// failure, up to the end of the file or past the limit.
///
/// The size of a file may be unknown before it is read, or wrong. A file over the limit is
/// refused all the same, and a reader can stop one byte past the limit.
pub fn read_result(buffer: Vec<u8>, complete: bool) -> (result: Result<Vec<u8>, ReadError>)
    ensures
        result == (if !complete {
            Err::<Vec<u8>, ReadError>(ReadError::Failed)
        } else if buffer@.len() > MAX_PDF_BYTES {
            Err::<Vec<u8>, ReadError>(ReadError::TooLarge(buffer@.len() as u64))
        } else {
            Ok::<Vec<u8>, ReadError>(buffer)
        }),
{
    if !complete {
        Err(ReadError::Failed)
    } else if buffer.len() as u64 > MAX_PDF_BYTES {
        Err(ReadError::TooLarge(buffer.len() as u64))
    } else {
        Ok(buffer)
    }
}

/// Whatever stops a read, the reader is told something.
pub proof fn every_read_error_has_words(error: ReadError)
    ensures
        read_error_text(error).len() > 0,
{
    reveal_strlit("This PDF is ");
    reveal_strlit("Not enough memory to open this PDF");
    reveal_strlit("Read failed");
    if error is Open {
        crate::storage::every_error_has_words(error->Open_0);
    }
}

} // verus!
