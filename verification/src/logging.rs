//! Where the log is written, and when its files are rotated.

use vstd::prelude::*;
use vstd::string::*;

use crate::error;
use crate::error::{ErrorView, SymphonyError};
use crate::path;
use crate::text;

verus! {

/// The directory of the log, below the root.
pub const LOG_DIRECTORY_NAME: &'static str = "log";

/// The name of the log file.
pub const LOG_FILE_NAME: &'static str = "symphony.log";

/// The directory of the log: below the given root, or else below the current directory.
pub open spec fn log_directory(
    logs_root: Option<Seq<char>>,
    current_dir: Result<Seq<char>, Seq<char>>,
) -> Result<Seq<char>, ErrorView> {
    if logs_root is Some && !text::blank(logs_root->0) {
        Ok(path::below(logs_root->0, LOG_DIRECTORY_NAME@))
    } else {
        match current_dir {
            Ok(directory) => Ok(path::below(directory, LOG_DIRECTORY_NAME@)),
            Err(reason) => Err(
                ErrorView::Internal("failed to read current directory: "@ + reason),
            ),
        }
    }
}

/// What is known of the current directory.
pub open spec fn directory_view(current_dir: Result<String, String>) -> Result<
    Seq<char>,
    Seq<char>,
> {
    match current_dir {
        Ok(directory) => Ok(directory@),
        Err(reason) => Err(reason@),
    }
}

/// The directory of the log. The current directory, or why it is not known, is given.
pub fn resolve_log_directory(logs_root: Option<&str>, current_dir: &Result<String, String>) -> (r:
    Result<String, SymphonyError>)
    ensures
        error::result_is(r, log_directory(text::opt_str(logs_root), directory_view(*current_dir))),
{
    if let Some(root) = logs_root {
        if !text::is_blank(root) {
            return Ok(path::join_path(root, LOG_DIRECTORY_NAME));
        }
    }
    match current_dir {
        Ok(directory) => Ok(path::join_path(directory.as_str(), LOG_DIRECTORY_NAME)),
        Err(reason) => Err(
            SymphonyError::Internal(
                text::joined("failed to read current directory: ", reason.as_str()),
            ),
        ),
    }
}

/// The path of the log file.
pub fn resolve_log_file_path(logs_root: Option<&str>, current_dir: &Result<String, String>) -> (r:
    Result<String, SymphonyError>)
    ensures
        error::result_is(
            r,
            match log_directory(text::opt_str(logs_root), directory_view(*current_dir)) {
                Ok(directory) => Ok(path::below(directory, LOG_FILE_NAME@)),
                Err(error) => Err(error),
            },
        ),
{
    match resolve_log_directory(logs_root, current_dir) {
        Ok(directory) => Ok(path::join_path(directory.as_str(), LOG_FILE_NAME)),
        Err(error) => Err(error),
    }
}

/// The path of a rotated file; the file with number 0 is the one that is written.
pub open spec fn numbered(active_path: Seq<char>, index: nat) -> Seq<char> {
    if index == 0 {
        active_path
    } else {
        active_path + "."@ + text::decimal(index)
    }
}

/// The path of a rotated file.
pub fn rotated_path(active_path: &str, index: usize) -> (r: String)
    ensures
        r@ == numbered(active_path@, index as nat),
{
    let mut out: String = active_path.to_owned();
    if index > 0 {
        out.append(".");
        out.append(text::u64_text(index as u64).as_str());
    }
    out
}

/// How full the log file is, and its limits.
#[derive(Debug, Clone, Copy, PartialEq, Eq)]
pub struct RollingLog {
    pub max_bytes: u64,
    pub max_log_files: usize,
    pub current_size: u64,
}

impl RollingLog {
    /// A log file of a size. The limits are at least one.
    pub fn new(max_bytes: u64, max_log_files: usize, current_size: u64) -> (r: Self)
        ensures
            r == (RollingLog {
                max_bytes: if max_bytes == 0 {
                    1
                } else {
                    max_bytes
                },
                max_log_files: if max_log_files == 0 {
                    1
                } else {
                    max_log_files
                },
                current_size,
            }),
    {
        RollingLog {
            max_bytes: if max_bytes == 0 {
                1
            } else {
                max_bytes
            },
            max_log_files: if max_log_files == 0 {
                1
            } else {
                max_log_files
            },
            current_size,
        }
    }

    /// The file is full when it is opened.
    pub open spec fn is_full(self) -> bool {
        self.current_size >= self.max_bytes
    }

    /// The file has something in it and no room for more bytes.
    pub open spec fn has_no_room(self, incoming: nat) -> bool {
        self.current_size > 0 && self.after_write(incoming).current_size > self.max_bytes
    }

    /// The file after some bytes have been written.
    pub open spec fn after_write(self, written: nat) -> RollingLog {
        RollingLog {
            current_size: if self.current_size + written > u64::MAX {
                u64::MAX
            } else {
                (self.current_size + written) as u64
            },
            ..self
        }
    }

    /// Tells whether the files are rotated when the log is opened.
    pub fn rotates_at_start(&self) -> (r: bool)
        ensures
            r == self.is_full(),
    {
        self.current_size >= self.max_bytes
    }

    /// Tells whether the files are rotated before some bytes are written.
    pub fn rotates_before_write(&self, incoming: usize) -> (r: bool)
        ensures
            r == self.has_no_room(incoming as nat),
    {
        let total: u64 = if incoming as u64 > u64::MAX - self.current_size {
            u64::MAX
        } else {
            self.current_size + incoming as u64
        };
        self.current_size > 0 && total > self.max_bytes
    }

    /// Takes into account that some bytes have been written.
    pub fn wrote(&mut self, written: usize)
        ensures
            *final(self) == old(self).after_write(written as nat),
    {
        self.current_size = if written as u64 > u64::MAX - self.current_size {
            u64::MAX
        } else {
            self.current_size + written as u64
        };
    }

    /// Takes into account that the files have been rotated.
    pub fn rotated(&mut self)
        ensures
            *final(self) == (RollingLog { current_size: 0, ..*old(self) }),
    {
        self.current_size = 0;
    }
}

/// What becomes of a file when the files are rotated.
#[derive(Debug, Clone, Copy, PartialEq, Eq)]
pub enum FileStep {
    Keep,
    Remove,
    MoveUp,
}

/// What becomes of the file with a number: the oldest is removed, the others move up by one; the
/// file that is written stays where it is empty.
pub open spec fn step_of(log: RollingLog, index: nat, exists: bool) -> FileStep {
    if !exists {
        FileStep::Keep
    } else if index == log.max_log_files {
        FileStep::Remove
    } else if index == 0 && log.current_size == 0 {
        FileStep::Keep
    } else {
        FileStep::MoveUp
    }
}

/// What becomes of the file with a number. The files are gone through from the oldest down.
pub fn rotation_step(log: &RollingLog, index: usize, exists: bool) -> (r: FileStep)
    ensures
        r == step_of(*log, index as nat, exists),
{
    if !exists {
        FileStep::Keep
    } else if index == log.max_log_files {
        FileStep::Remove
    } else if index == 0 && log.current_size == 0 {
        FileStep::Keep
    } else {
        FileStep::MoveUp
    }
}

/// The files, by number, after one step.
pub open spec fn stepped<C>(files: Map<nat, C>, index: nat, step: FileStep) -> Map<nat, C> {
    match step {
        FileStep::Keep => files,
        FileStep::Remove => files.remove(index),
        FileStep::MoveUp => files.remove(index).insert(index + 1, files[index]),
    }
}

/// The files, by number, after the steps of all numbers from one down to 0.
pub open spec fn rotated_from<C>(log: RollingLog, files: Map<nat, C>, index: nat) -> Map<nat, C>
    decreases index,
{
    let next = stepped(files, index, step_of(log, index, files.contains_key(index)));
    if index == 0 {
        next
    } else {
        rotated_from(log, next, (index - 1) as nat)
    }
}

proof fn lemma_rotated_from<C>(log: RollingLog, files: Map<nat, C>, index: nat, i: nat)
    requires
        log.current_size > 0,
        index < log.max_log_files,
        !files.contains_key(index + 1),
    ensures
        i > index + 1 ==> (rotated_from(log, files, index).contains_key(i) == files.contains_key(i)
            && rotated_from(log, files, index)[i] == files[i]),
        0 < i <= index + 1 ==> rotated_from(log, files, index).contains_key(i)
            == files.contains_key((i - 1) as nat) && (files.contains_key((i - 1) as nat)
            ==> rotated_from(log, files, index)[i] == files[(i - 1) as nat]),
        !rotated_from(log, files, index).contains_key(0),
    decreases index,
{
    let next = stepped(files, index, step_of(log, index, files.contains_key(index)));
    if index > 0 {
        lemma_rotated_from(log, next, (index - 1) as nat, i);
        lemma_rotated_from(log, next, (index - 1) as nat, (index + 1) as nat);
    }
}

/// A rotation of a log that is not empty moves every file up by one number and loses only the one
/// that was the oldest, so that the number 0 is free and no number is above the limit.
pub proof fn lemma_rotation_shifts_files<C>(log: RollingLog, files: Map<nat, C>, i: nat)
    requires
        log.current_size > 0,
        log.max_log_files > 0,
        forall|k: nat| #[trigger] files.contains_key(k) ==> k <= log.max_log_files,
    ensures
        ({
            let after = rotated_from(log, files, log.max_log_files as nat);
            &&& !after.contains_key(0)
            &&& i > log.max_log_files ==> !after.contains_key(i)
            &&& 0 < i <= log.max_log_files ==> after.contains_key(i) == files.contains_key(
                (i - 1) as nat,
            ) && (files.contains_key((i - 1) as nat) ==> after[i] == files[(i - 1) as nat])
        }),
{
    let top = log.max_log_files as nat;
    let next = stepped(files, top, step_of(log, top, files.contains_key(top)));
    assert(!next.contains_key(top));
    assert(forall|k: nat| #[trigger] next.contains_key(k) ==> k < top);
    lemma_rotated_from(log, next, (top - 1) as nat, i);
}

/// A log that is rotated when it has no room stays within its limit, as long as no single write is
/// larger than the limit.
pub proof fn lemma_log_stays_within_limit(log: RollingLog, incoming: nat)
    requires
        log.current_size <= log.max_bytes,
        incoming <= log.max_bytes,
    ensures
        ({
            let before = if log.has_no_room(incoming) {
                RollingLog { current_size: 0, ..log }
            } else {
                log
            };
            before.after_write(incoming).current_size <= log.max_bytes
        }),
{
}

/// The log lies in the directory `log` below the root that is given, if it has more than white space,
/// and else below the current directory, which must then be known.
pub proof fn lemma_log_lies_below(
    root: Seq<char>,
    directory: Seq<char>,
    current_dir: Result<Seq<char>, Seq<char>>,
    reason: Seq<char>,
)
    ensures
        text::trimmed(root).len() > 0 ==> log_directory(Some(root), current_dir) == Ok::<
            Seq<char>,
            ErrorView,
        >(path::below(root, "log"@)),
        log_directory(None, Ok(directory)) == Ok::<Seq<char>, ErrorView>(
            path::below(directory, "log"@),
        ),
        text::trimmed(root).len() == 0 ==> log_directory(Some(root), Ok(directory)) == Ok::<
            Seq<char>,
            ErrorView,
        >(path::below(directory, "log"@)),
        log_directory(None, Err(reason)) == Err::<Seq<char>, ErrorView>(
            ErrorView::Internal("failed to read current directory: "@ + reason),
        ),
        LOG_FILE_NAME@ == "symphony.log"@,
{
    text::lemma_trimmed_empty(root);
}

/// What is known of the current directory is its name, or why it is not known.
pub proof fn lemma_directory_is_modelled(current_dir: Result<String, String>)
    ensures
        current_dir is Ok ==> directory_view(current_dir) == Ok::<Seq<char>, Seq<char>>(
            current_dir->Ok_0@,
        ),
        current_dir is Err ==> directory_view(current_dir) == Err::<Seq<char>, Seq<char>>(
            current_dir->Err_0@,
        ),
{
}

/// Each number has a file of its own: the path that is written with the number behind a dot.
pub proof fn lemma_numbers_have_files(active_path: Seq<char>, i: nat, j: nat)
    ensures
        numbered(active_path, 0) == active_path,
        i > 0 ==> numbered(active_path, i) == active_path + "."@ + text::decimal(i),
        numbered(active_path, i) == numbered(active_path, j) ==> i == j,
{
    reveal_strlit(".");
    text::lemma_decimal_reads_back(i);
    text::lemma_decimal_reads_back(j);
    let a = numbered(active_path, i);
    let b = numbered(active_path, j);
    if a == b && i > 0 && j > 0 {
        let n = active_path.len() + 1;
        assert(a.subrange(n as int, a.len() as int) =~= text::decimal(i));
        assert(b.subrange(n as int, b.len() as int) =~= text::decimal(j));
    }
}

/// A log is full at its limit, has no room where more bytes would go beyond it and there are some in
/// it, and grows by what is written.
pub proof fn lemma_log_is_measured(log: RollingLog, bytes: nat)
    requires
        log.current_size + bytes <= u64::MAX,
    ensures
        log.is_full() <==> log.current_size >= log.max_bytes,
        log.has_no_room(bytes) <==> log.current_size > 0 && log.current_size + bytes > log.max_bytes,
        log.after_write(bytes).current_size == log.current_size + bytes,
        log.after_write(bytes).max_bytes == log.max_bytes,
        log.after_write(bytes).max_log_files == log.max_log_files,
{
}

/// A rotation touches no file that is not there, removes the oldest, and leaves an empty log where it
/// is.
pub proof fn lemma_rotation_step(log: RollingLog, index: nat)
    ensures
        step_of(log, index, false) is Keep,
        step_of(log, log.max_log_files as nat, true) is Remove,
        log.current_size == 0 && log.max_log_files > 0 ==> step_of(log, 0, true) is Keep,
        0 < index < log.max_log_files ==> step_of(log, index, true) is MoveUp,
        log.current_size > 0 && log.max_log_files > 0 ==> step_of(log, 0, true) is MoveUp,
{
}

/// A step changes the file with its number alone: it is kept, gone, or under the next number.
pub proof fn lemma_step_moves_one_file<C>(files: Map<nat, C>, index: nat, other: nat)
    requires
        files.contains_key(index),
        other != index,
        other != index + 1,
    ensures
        stepped(files, index, FileStep::Keep) == files,
        !stepped(files, index, FileStep::Remove).contains_key(index),
        !stepped(files, index, FileStep::MoveUp).contains_key(index),
        stepped(files, index, FileStep::MoveUp).contains_key(index + 1),
        stepped(files, index, FileStep::MoveUp)[index + 1] == files[index],
        stepped(files, index, FileStep::Remove).contains_key(other) == files.contains_key(other),
        stepped(files, index, FileStep::MoveUp).contains_key(other) == files.contains_key(other),
        files.contains_key(other) ==> stepped(files, index, FileStep::MoveUp)[other]
            == files[other] && stepped(files, index, FileStep::Remove)[other] == files[other],
{
}

} // verus!
