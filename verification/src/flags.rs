//! Access requested when opening a file.

use vstd::prelude::*;

use crate::error;
use crate::error::{Error, Result};
use crate::text;
use crate::text::{decimal_text, join2, join3};

verus! {

/// Where errors say that they come from if they come from here.
pub const HERE: &'static str = "src/flags.rs";

/// Access requested when opening a file.
///
/// `read` and `write` are independent flags.
#[derive(Clone, Copy, Debug, PartialEq, Eq, Structural)]
pub struct FileOpenFlags {
    /// Allow reads through the handle.
    pub read: bool,
    /// Allow writes through the handle.
    pub write: bool,
    /// Create the file when it does not exist.
    pub create: bool,
    /// Write to the end of the file.
    pub append: bool,
    /// Create the file if missing, or clear it before opening if it exists.
    pub truncate_existing: bool,
}

/// Why a combination of flags makes no sense, if it makes none.
pub open spec fn flags_complaint(flags: FileOpenFlags) -> Option<Seq<char>> {
    if !flags.read && !flags.write {
        Some("at least one of read or write must be set"@)
    } else if flags.create && !flags.write {
        Some("create requires write access"@)
    } else if flags.append && !flags.write {
        Some("append requires write access"@)
    } else if flags.truncate_existing && !flags.create {
        Some("truncate existing requires create"@)
    } else {
        None
    }
}

/// The error for flags that make no sense.
pub open spec fn flags_error(reason: Seq<char>) -> error::ErrorView {
    error::invalid_argument_error("invalid file open flags: "@ + reason, HERE@)
}

/// The error for a read through a handle that was not opened for reading.
pub open spec fn unreadable_error(file_id: u64) -> error::ErrorView {
    error::invalid_argument_error(
        "cannot read file_id "@ + text::decimal(file_id as nat)
            + ": not opened for that access"@,
        HERE@,
    )
}

/// The error for a change through a handle that was not opened for writing.
pub open spec fn unwritable_error(file_id: u64) -> error::ErrorView {
    error::read_only_error(
        "cannot write to file_id "@ + text::decimal(file_id as nat)
            + ": not opened for that access"@,
        HERE@,
    )
}

/// The error for a change through a handle that was not opened for writing.
pub(crate) fn unwritable(file_id: u64) -> (r: Error)
    ensures
        r@ == unwritable_error(file_id),
{
    Error::read_only_violation(
        join3(
            "cannot write to file_id ",
            decimal_text(file_id).as_str(),
            ": not opened for that access",
        ),
        HERE,
    )
}

impl FileOpenFlags {
    /// Opens an existing file for reading.
    pub fn read_only() -> (r: Self)
        ensures
            r == (FileOpenFlags {
                read: true,
                write: false,
                create: false,
                append: false,
                truncate_existing: false,
            }),
    {
        FileOpenFlags {
            read: true,
            write: false,
            create: false,
            append: false,
            truncate_existing: false,
        }
    }

    /// Opens an existing file for reading and writing.
    pub fn read_write() -> (r: Self)
        ensures
            r == (FileOpenFlags {
                read: true,
                write: true,
                create: false,
                append: false,
                truncate_existing: false,
            }),
    {
        FileOpenFlags {
            read: true,
            write: true,
            create: false,
            append: false,
            truncate_existing: false,
        }
    }

    /// Opens a file for reading and writing, creating it if it is not there.
    pub fn open_or_create() -> (r: Self)
        ensures
            r == (FileOpenFlags {
                read: true,
                write: true,
                create: true,
                append: false,
                truncate_existing: false,
            }),
    {
        FileOpenFlags {
            read: true,
            write: true,
            create: true,
            append: false,
            truncate_existing: false,
        }
    }

    /// Creates a file, replacing its contents if it already exists.
    pub fn create_or_truncate() -> (r: Self)
        ensures
            r == (FileOpenFlags {
                read: false,
                write: true,
                create: true,
                append: false,
                truncate_existing: true,
            }),
    {
        FileOpenFlags {
            read: false,
            write: true,
            create: true,
            append: false,
            truncate_existing: true,
        }
    }

    /// Opens or creates a file for appending.
    pub fn append() -> (r: Self)
        ensures
            r == (FileOpenFlags {
                read: false,
                write: true,
                create: true,
                append: true,
                truncate_existing: false,
            }),
    {
        FileOpenFlags {
            read: false,
            write: true,
            create: true,
            append: true,
            truncate_existing: false,
        }
    }

    /// Rejects invalid flag combinations.
    pub fn validate(&self) -> (r: Result<()>)
        ensures
            r is Ok <==> flags_complaint(*self) is None,
            r matches Err(e) ==> e@ == flags_error(flags_complaint(*self)->0),
    {
        let reason = if !self.read && !self.write {
            "at least one of read or write must be set"
        } else if self.create && !self.write {
            "create requires write access"
        } else if self.append && !self.write {
            "append requires write access"
        } else if self.truncate_existing && !self.create {
            "truncate existing requires create"
        } else {
            return Ok(());
        };
        Err(Error::invalid_argument(join2("invalid file open flags: ", reason), HERE))
    }

    /// Rejects a read on a handle opened write-only.
    pub fn ensure_readable(&self, file_id: u64) -> (r: Result<()>)
        ensures
            r is Ok <==> self.read,
            r matches Err(e) ==> e@ == unreadable_error(file_id),
    {
        if self.read {
            return Ok(());
        }
        Err(
            Error::invalid_argument(
                join3(
                    "cannot read file_id ",
                    decimal_text(file_id).as_str(),
                    ": not opened for that access",
                ),
                HERE,
            ),
        )
    }

    /// Rejects a mutating operation on a handle opened read-only.
    pub fn ensure_writable(&self, file_id: u64) -> (r: Result<()>)
        ensures
            r is Ok <==> self.write,
            r matches Err(e) ==> e@ == unwritable_error(file_id),
    {
        if self.write {
            return Ok(());
        }
        Err(unwritable(file_id))
    }
}

/// Flags make sense exactly if they ask for some access, for nothing that needs writing
/// without it, and for clearing only where a file may be created.
pub proof fn flags_make_sense_unless_they_contradict_themselves(flags: FileOpenFlags)
    ensures
        flags_complaint(flags) is None <==> {
            &&& flags.read || flags.write
            &&& flags.create ==> flags.write
            &&& flags.append ==> flags.write
            &&& flags.truncate_existing ==> flags.create
        },
{
}

/// A refusal for want of access names the file, and tells a read from a change.
pub proof fn refusals_tell_reads_from_changes(file_id: u64)
    ensures
        unreadable_error(file_id).code == error::ErrorCode::InvalidArgument,
        unwritable_error(file_id).code == error::ErrorCode::ReadOnlyViolation,
        text::has_part(unreadable_error(file_id).message, text::decimal(file_id as nat)),
        text::has_part(unwritable_error(file_id).message, text::decimal(file_id as nat)),
{
    let id = text::decimal(file_id as nat);
    text::parts_are_found_wherever_they_stand(
        "cannot read file_id "@,
        id,
        ": not opened for that access"@,
        Seq::empty(),
    );
    text::parts_are_found_wherever_they_stand(
        "cannot write to file_id "@,
        id,
        ": not opened for that access"@,
        Seq::empty(),
    );
}

/// The common ways to open a file make sense. Reading alone changes nothing; only one of
/// them clears a file; and only one of them writes at the end.
pub proof fn common_flags_do_what_they_say(
    read_only: FileOpenFlags,
    read_write: FileOpenFlags,
    open_or_create: FileOpenFlags,
    create_or_truncate: FileOpenFlags,
    append: FileOpenFlags,
)
    requires
        call_ensures(FileOpenFlags::read_only, (), read_only),
        call_ensures(FileOpenFlags::read_write, (), read_write),
        call_ensures(FileOpenFlags::open_or_create, (), open_or_create),
        call_ensures(FileOpenFlags::create_or_truncate, (), create_or_truncate),
        call_ensures(FileOpenFlags::append, (), append),
    ensures
        read_only.read && !read_only.write && !read_only.create,
        read_write.read && read_write.write && !read_write.create,
        open_or_create.read && open_or_create.write && open_or_create.create,
        create_or_truncate.write && create_or_truncate.create,
        append.write && append.create && append.append,
        create_or_truncate.truncate_existing && !create_or_truncate.append,
        !read_only.append && !read_write.append && !open_or_create.append,
        !read_only.truncate_existing && !read_write.truncate_existing
            && !open_or_create.truncate_existing && !append.truncate_existing,
        flags_complaint(read_only) is None,
        flags_complaint(read_write) is None,
        flags_complaint(open_or_create) is None,
        flags_complaint(create_or_truncate) is None,
        flags_complaint(append) is None,
{
}

} // verus!
