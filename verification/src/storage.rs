//! Where files are kept, and what can go wrong on the way to them.
use vstd::prelude::*;
use vstd::string::StringExecFns;

verus! {

/// The places that files are read from.
#[derive(Clone, Copy, Debug, PartialEq, Eq, Structural)]
pub enum Location {
    /// The device's own storage.
    User,
    /// The partition that is shared with a computer.
    Airlock,
    /// A USB stick.
    Usb,
}

/// The location behind a tab of the browser.
pub open spec fn tab_location(index: i32) -> Location {
    if index == 1 {
        Location::Airlock
    } else if index == 2 {
        Location::Usb
    } else {
        Location::User
    }
}

/// The location behind a tab of the browser: the second is the airlock, the third USB, and
/// everything else the device's own storage.
pub fn location_for(index: i32) -> (location: Location)
    ensures
        location == tab_location(index),
{
    match index {
        1 => Location::Airlock,
        2 => Location::Usb,
        _ => Location::User,
    }
}

/// What the file system reports.
#[derive(Debug)]
pub enum FsError {
    NoMedia,
    AccessDenied,
    FileNotFound,
    FileAlreadyExists,
    FileInUse,
    InvalidPath,
    /// Any other error, as the file system writes it.
    Other(String),
}

/// The words for a report of the file system.
pub open spec fn fs_error_text(error: FsError) -> Seq<char> {
    match error {
        FsError::NoMedia => "Not connected"@,
        FsError::AccessDenied => "Access denied"@,
        FsError::FileNotFound => "Not found"@,
        FsError::FileAlreadyExists => "Already exists"@,
        FsError::FileInUse => "File is in use"@,
        FsError::InvalidPath => "Invalid name"@,
        FsError::Other(text) => "Error: "@ + text@,
    }
}

/// The words for a report of the file system.
pub fn err_msg(error: &FsError) -> (message: String)
    ensures
        message@ == fs_error_text(*error),
{
    match error {
        FsError::NoMedia => "Not connected".to_owned(),
        FsError::AccessDenied => "Access denied".to_owned(),
        FsError::FileNotFound => "Not found".to_owned(),
        FsError::FileAlreadyExists => "Already exists".to_owned(),
        FsError::FileInUse => "File is in use".to_owned(),
        FsError::InvalidPath => "Invalid name".to_owned(),
        FsError::Other(text) => {
            let mut message: String = "Error: ".to_owned();
            message.append(text.as_str());
            message
        },
    }
}

/// Whatever the file system reports, the reader is told something.
pub proof fn every_error_has_words(error: FsError)
    ensures
        fs_error_text(error).len() > 0,
{
    reveal_strlit("Not connected");
    reveal_strlit("Access denied");
    reveal_strlit("Not found");
    reveal_strlit("Already exists");
    reveal_strlit("File is in use");
    reveal_strlit("Invalid name");
    reveal_strlit("Error: ");
}

} // verus!
