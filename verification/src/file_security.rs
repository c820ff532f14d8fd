//! Files and directories that only their owner can open, on Windows.
//!
//! Each operation is a conversation: given the replies to the system calls made so far, it
//! says which call comes next, or how it ends.

use vstd::prelude::*;

verus! {

pub const ERROR_ALREADY_EXISTS: u32 = 183;

pub const FILE_ATTRIBUTE_DIRECTORY: u32 = 0x10;

pub const FILE_ATTRIBUTE_REPARSE_POINT: u32 = 0x400;

pub const FILE_ALL_ACCESS: u32 = 0x1F01FF;

pub const OBJECT_INHERIT_ACE: u32 = 1;

pub const CONTAINER_INHERIT_ACE: u32 = 2;

/// The flags of an entry that files and directories below inherit.
pub const INHERIT_ALL: u32 = 3;

pub const CREATE_NEW: u32 = 1;

pub const OPEN_ALWAYS: u32 = 4;

pub const SE_DACL_PROTECTED: u16 = 0x1000;

/// The sizes in bytes of the header of an access control list, of its entries, and of the
/// words that hold it.
pub const ACL_SIZE: usize = 8;

pub const ACCESS_ALLOWED_ACE_SIZE: usize = 12;

pub const WORD_SIZE: usize = 4;

// ---------------------------------------------------------------------------
// Errors
// ---------------------------------------------------------------------------

#[derive(Debug, Clone, Copy, PartialEq, Eq, Structural)]
pub enum FileError {
    /// An error of the system, by its code.
    Os(u32),
    EmbeddedNul,
    ReparsePoint,
    NotADirectory,
    AclSizeOverflow,
    AclTooLarge,
    TokenTruncated,
    TokenWithoutSid,
    /// The replies are to other calls than the ones that were asked for.
    OutOfOrder,
}

#[derive(Debug, Clone, Copy, PartialEq, Eq, Structural)]
pub enum FileErrorKind {
    Os,
    InvalidInput,
    NotADirectory,
    InvalidData,
}

pub open spec fn error_kind(e: FileError) -> FileErrorKind {
    match e {
        FileError::Os(_) => FileErrorKind::Os,
        FileError::EmbeddedNul | FileError::ReparsePoint | FileError::AclSizeOverflow
        | FileError::AclTooLarge => FileErrorKind::InvalidInput,
        FileError::NotADirectory => FileErrorKind::NotADirectory,
        FileError::TokenTruncated | FileError::TokenWithoutSid
        | FileError::OutOfOrder => FileErrorKind::InvalidData,
    }
}

pub open spec fn error_message(e: FileError) -> Seq<char> {
    match e {
        FileError::Os(_) => ""@,
        FileError::EmbeddedNul => "path contains an embedded NUL"@,
        FileError::ReparsePoint => "path is a reparse point"@,
        FileError::NotADirectory => "path is not a directory"@,
        FileError::AclSizeOverflow => "ACL size overflow"@,
        FileError::AclTooLarge => "ACL is too large"@,
        FileError::TokenTruncated => "token user information is truncated"@,
        FileError::TokenWithoutSid => "token user information has no SID"@,
        FileError::OutOfOrder => "replies are out of order"@,
    }
}

impl FileError {
    pub fn kind(&self) -> (r: FileErrorKind)
        ensures
            r == error_kind(*self),
    {
        match self {
            FileError::Os(_) => FileErrorKind::Os,
            FileError::EmbeddedNul | FileError::ReparsePoint | FileError::AclSizeOverflow
            | FileError::AclTooLarge => FileErrorKind::InvalidInput,
            FileError::NotADirectory => FileErrorKind::NotADirectory,
            FileError::TokenTruncated | FileError::TokenWithoutSid
            | FileError::OutOfOrder => FileErrorKind::InvalidData,
        }
    }

    /// What is said of the error. The system says it of its own errors.
    pub fn message(&self) -> (r: &'static str)
        ensures
            r@ == error_message(*self),
    {
        match self {
            FileError::Os(_) => "",
            FileError::EmbeddedNul => "path contains an embedded NUL",
            FileError::ReparsePoint => "path is a reparse point",
            FileError::NotADirectory => "path is not a directory",
            FileError::AclSizeOverflow => "ACL size overflow",
            FileError::AclTooLarge => "ACL is too large",
            FileError::TokenTruncated => "token user information is truncated",
            FileError::TokenWithoutSid => "token user information has no SID",
            FileError::OutOfOrder => "replies are out of order",
        }
    }
}

// ---------------------------------------------------------------------------
// Paths
// ---------------------------------------------------------------------------

/// The path as the system takes it: its units, with a NUL behind them.
pub fn to_wide(path: &Vec<u16>) -> (r: Result<Vec<u16>, FileError>)
    ensures
        match r {
            Ok(w) => !path@.contains(0u16) && w@ == path@.push(0u16),
            Err(e) => path@.contains(0u16) && e == FileError::EmbeddedNul,
        },
{
    let mut wide: Vec<u16> = Vec::new();
    let mut i: usize = 0;
    while i < path.len()
        invariant
            i <= path.len(),
            wide@ == path@.take(i as int),
            forall|k: int| 0 <= k < i ==> (#[trigger] path@[k]) != 0,
        decreases path.len() - i,
    {
        if path[i] == 0 {
            assert(path@[i as int] == 0u16);
            return Err(FileError::EmbeddedNul);
        }
        wide.push(path[i]);
        assert(path@.take(i + 1) =~= path@.take(i as int).push(path@[i as int]));
        i += 1;
    }
    assert(path@.take(i as int) =~= path@);
    wide.push(0);
    Ok(wide)
}

/// The path without the NUL behind it is the path that was given.
pub proof fn a_wide_path_ends_at_its_nul(path: Seq<u16>)
    requires
        !path.contains(0u16),
    ensures
        path.push(0u16).index_of_first(0u16) == Some(path.len() as int),
{
    let wide = path.push(0u16);
    wide.index_of_first_ensures(0u16);
    assert(wide[path.len() as int] == 0u16);
    assert(wide.contains(0u16));
    let i = wide.index_of_first(0u16)->0;
    if i < path.len() {
        assert(path[i] == 0u16);
    }
}

// ---------------------------------------------------------------------------
// Security descriptors
// ---------------------------------------------------------------------------

/// The words and the bytes of an access control list.
#[derive(Debug, Clone, Copy, PartialEq, Eq, Structural)]
pub struct AclLayout {
    pub words: usize,
    pub bytes: usize,
}

/// The size of a list with one entry for the owner, whose identifier takes so many words.
/// The entry holds the identifier's first word already.
pub open spec fn acl_size(sid_words: nat) -> int {
    ACL_SIZE + ACCESS_ALLOWED_ACE_SIZE + sid_words * WORD_SIZE - WORD_SIZE
}

/// The layout of the list for an owner whose identifier takes so many words.
pub fn acl_layout(sid_words: usize) -> (r: Result<AclLayout, FileError>)
    requires
        sid_words * WORD_SIZE <= usize::MAX,
    ensures
        match r {
            Ok(layout) => {
                &&& layout.bytes == acl_size(sid_words as nat) <= u16::MAX
                &&& layout.words * WORD_SIZE == layout.bytes
            },
            Err(e) => e == (if acl_size(sid_words as nat) + WORD_SIZE > usize::MAX {
                FileError::AclSizeOverflow
            } else {
                FileError::AclTooLarge
            }) && acl_size(sid_words as nat) > u16::MAX,
        },
{
    let size = match (ACL_SIZE + ACCESS_ALLOWED_ACE_SIZE).checked_add(sid_words * WORD_SIZE) {
        Some(size) => size - WORD_SIZE,
        None => {
            return Err(FileError::AclSizeOverflow);
        },
    };
    let words: usize = size / WORD_SIZE;
    let bytes: usize = words * WORD_SIZE;
    if bytes > 65535 {
        return Err(FileError::AclTooLarge);
    }
    Ok(AclLayout { words, bytes })
}

/// The words that hold so many bytes.
pub open spec fn words_for(bytes: nat) -> nat {
    (bytes + 3) / 4
}

/// The words of an identifier of that length. A length of nothing is the system's way to say
/// that it has failed, with the error that it then has.
pub fn sid_words(sid_len: u32, last_error: u32) -> (r: Result<usize, FileError>)
    ensures
        match r {
            Ok(n) => sid_len != 0 && n == words_for(sid_len as nat),
            Err(e) => sid_len == 0 && e == FileError::Os(last_error),
        },
{
    if sid_len == 0 {
        return Err(FileError::Os(last_error));
    }
    let len: usize = sid_len as usize;
    if len % 4 == 0 {
        Ok(len / 4)
    } else {
        Ok(len / 4 + 1)
    }
}

/// The size of the buffer for the token's user. That nothing is needed is the system's way to
/// say that it has failed.
pub fn token_buffer_len(needed: u32, last_error: u32) -> (r: Result<usize, FileError>)
    ensures
        match r {
            Ok(n) => needed != 0 && n == needed,
            Err(e) => needed == 0 && e == FileError::Os(last_error),
        },
{
    if needed == 0 {
        Err(FileError::Os(last_error))
    } else {
        Ok(needed as usize)
    }
}

/// The buffer holds a token's user.
pub fn check_token_user(buffer_len: usize, token_user_size: usize) -> (r: Result<(), FileError>)
    ensures
        match r {
            Ok(_) => buffer_len >= token_user_size,
            Err(e) => buffer_len < token_user_size && e == FileError::TokenTruncated,
        },
{
    if buffer_len < token_user_size {
        Err(FileError::TokenTruncated)
    } else {
        Ok(())
    }
}

/// The token's user has an identifier.
pub fn check_token_sid(is_null: bool) -> (r: Result<(), FileError>)
    ensures
        match r {
            Ok(_) => !is_null,
            Err(e) => is_null && e == FileError::TokenWithoutSid,
        },
{
    if is_null {
        Err(FileError::TokenWithoutSid)
    } else {
        Ok(())
    }
}

/// The calls that make a protected descriptor, with what they are given.
#[derive(Debug, Clone, Copy, PartialEq, Eq, Structural)]
pub enum DescriptorStep {
    InitializeDescriptor,
    InitializeAcl(AclLayout),
    /// Adds an entry for the owner, with its flags and the access that it allows.
    AddAccessAllowedAce(u32, u32),
    SetDacl,
    /// Sets these bits of the descriptor's control, by this mask.
    SetControl(u16, u16),
}

#[derive(Debug, Clone, Copy, PartialEq, Eq, Structural)]
pub enum DescriptorNext {
    Run(DescriptorStep),
    Failed(FileError),
    Ready,
}

/// The calls in order.
pub open spec fn descriptor_steps(ace_flags: u32, layout: AclLayout) -> Seq<DescriptorStep> {
    Seq::empty().push(DescriptorStep::InitializeDescriptor).push(
        DescriptorStep::InitializeAcl(layout),
    ).push(DescriptorStep::AddAccessAllowedAce(ace_flags, FILE_ALL_ACCESS)).push(
        DescriptorStep::SetDacl,
    ).push(DescriptorStep::SetControl(SE_DACL_PROTECTED, SE_DACL_PROTECTED))
}

/// What comes after so many calls, of which the last one may have failed.
pub fn protected_descriptor(
    ace_flags: u32,
    layout: AclLayout,
    done: usize,
    failed: Option<u32>,
) -> (r: DescriptorNext)
    ensures
        r == (match failed {
            Some(code) => DescriptorNext::Failed(FileError::Os(code)),
            None => if done < descriptor_steps(ace_flags, layout).len() {
                DescriptorNext::Run(descriptor_steps(ace_flags, layout)[done as int])
            } else {
                DescriptorNext::Ready
            },
        }),
{
    if let Some(code) = failed {
        return DescriptorNext::Failed(FileError::Os(code));
    }
    if done == 0 {
        DescriptorNext::Run(DescriptorStep::InitializeDescriptor)
    } else if done == 1 {
        DescriptorNext::Run(DescriptorStep::InitializeAcl(layout))
    } else if done == 2 {
        DescriptorNext::Run(DescriptorStep::AddAccessAllowedAce(ace_flags, FILE_ALL_ACCESS))
    } else if done == 3 {
        DescriptorNext::Run(DescriptorStep::SetDacl)
    } else if done == 4 {
        DescriptorNext::Run(DescriptorStep::SetControl(SE_DACL_PROTECTED, SE_DACL_PROTECTED))
    } else {
        DescriptorNext::Ready
    }
}

// ---------------------------------------------------------------------------
// Conversations with the system
// ---------------------------------------------------------------------------

#[derive(Debug, Clone, Copy, PartialEq, Eq, Structural)]
pub enum Step {
    /// Makes a protected descriptor whose entry has these flags.
    MakeDescriptor(u32),
    CreateDirectory,
    /// Opens the directory, or what stands in its place, without following it.
    OpenDirectory,
    /// Opens or creates the file, with this disposition, without following it.
    CreateFile(u32),
    Inspect,
    Protect,
    Truncate,
    Close,
    RemoveDirectory,
    DeleteFile,
}

#[derive(Debug, Clone, Copy, PartialEq, Eq, Structural)]
pub enum Reply {
    Done,
    /// The file was opened, and was there before.
    Existed,
    /// The attributes of what is open.
    Attributes(u32),
    Failed(FileError),
}

#[derive(Debug, Clone, Copy, PartialEq, Eq, Structural)]
pub enum Next {
    Run(Step),
    Failed(FileError),
    Ready,
}

/// What the system replies to each call, should it be made.
pub struct Replies {
    pub descriptor: Option<FileError>,
    pub create: Option<FileError>,
    pub existed: bool,
    pub open: Option<FileError>,
    pub attributes: Result<u32, FileError>,
    pub protect: Option<FileError>,
    pub truncate: Option<FileError>,
    pub close: Option<FileError>,
    pub remove: Option<FileError>,
}

pub open spec fn plain(failed: Option<FileError>) -> Reply {
    match failed {
        Some(e) => Reply::Failed(e),
        None => Reply::Done,
    }
}

pub open spec fn reply(w: Replies, step: Step) -> Reply {
    match step {
        Step::MakeDescriptor(_) => plain(w.descriptor),
        Step::CreateDirectory => plain(w.create),
        Step::OpenDirectory => plain(w.open),
        Step::CreateFile(_) => match w.create {
            Some(e) => Reply::Failed(e),
            None => if w.existed {
                Reply::Existed
            } else {
                Reply::Done
            },
        },
        Step::Inspect => match w.attributes {
            Ok(a) => Reply::Attributes(a),
            Err(e) => Reply::Failed(e),
        },
        Step::Protect => plain(w.protect),
        Step::Truncate => plain(w.truncate),
        Step::Close => plain(w.close),
        Step::RemoveDirectory | Step::DeleteFile => plain(w.remove),
    }
}

/// A conversation as a whole: the calls, and the error in which it ends, if it does.
pub struct Course {
    pub steps: Seq<Step>,
    pub error: Option<FileError>,
}

/// The replies so far are those to the first calls of the course.
pub open spec fn follows(course: Course, w: Replies, replies: Seq<Reply>) -> bool {
    &&& replies.len() <= course.steps.len()
    &&& forall|i: int|
        0 <= i < replies.len() ==> (#[trigger] replies[i]) == reply(w, course.steps[i])
}

/// What comes after the first calls of the course.
pub open spec fn after(course: Course, n: int) -> Next {
    if n < course.steps.len() {
        Next::Run(course.steps[n])
    } else {
        match course.error {
            Some(e) => Next::Failed(e),
            None => Next::Ready,
        }
    }
}

// ---------------------------------------------------------------------------
// Directories
// ---------------------------------------------------------------------------

/// The directory was made by this operation.
pub open spec fn dir_created(w: Replies) -> bool {
    w.create is None
}

/// What is wrong with what is open in the directory's place.
pub open spec fn dir_refusal(attributes: Result<u32, FileError>) -> Option<FileError> {
    match attributes {
        Err(e) => Some(e),
        Ok(a) => if a & FILE_ATTRIBUTE_REPARSE_POINT != 0 {
            Some(FileError::ReparsePoint)
        } else if a & FILE_ATTRIBUTE_DIRECTORY == 0 {
            Some(FileError::NotADirectory)
        } else {
            None
        },
    }
}

pub open spec fn first_error(a: Option<FileError>, b: Option<FileError>) -> Option<FileError> {
    match a {
        Some(e) => Some(e),
        None => b,
    }
}

/// The course ends in an error; a directory that it made is removed.
pub open spec fn dir_undone(steps: Seq<Step>, w: Replies, error: FileError) -> Course {
    Course {
        steps: if dir_created(w) {
            steps.push(Step::RemoveDirectory)
        } else {
            steps
        },
        error: Some(error),
    }
}

/// How a directory is made, or one that is there repaired: it is opened without following it,
/// looked at, protected and closed.
pub open spec fn dir_course(path: Seq<u16>, w: Replies) -> Course {
    let described = Seq::empty().push(Step::MakeDescriptor(INHERIT_ALL));
    let created = described.push(Step::CreateDirectory);
    let opened = created.push(Step::OpenDirectory);
    let inspected = opened.push(Step::Inspect);
    let closed = inspected.push(Step::Protect).push(Step::Close);
    if w.descriptor is Some {
        Course { steps: described, error: w.descriptor }
    } else if path.contains(0u16) {
        Course { steps: described, error: Some(FileError::EmbeddedNul) }
    } else if w.create is Some && w.create != Some(FileError::Os(ERROR_ALREADY_EXISTS)) {
        Course { steps: created, error: w.create }
    } else if w.open is Some {
        dir_undone(opened, w, w.open->0)
    } else if dir_refusal(w.attributes) is Some {
        dir_undone(inspected.push(Step::Close), w, dir_refusal(w.attributes)->0)
    } else if first_error(w.protect, w.close) is Some {
        dir_undone(closed, w, first_error(w.protect, w.close)->0)
    } else {
        Course { steps: closed, error: None }
    }
}

fn contains_nul(path: &Vec<u16>) -> (r: bool)
    ensures
        r == path@.contains(0u16),
{
    to_wide(path).is_err()
}

fn undo(created: bool, n: usize, at: usize, step: Step, error: FileError) -> (r: Next)
    ensures
        r == (if created && n == at {
            Next::Run(step)
        } else {
            Next::Failed(error)
        }),
{
    if created && n == at {
        Next::Run(step)
    } else {
        Next::Failed(error)
    }
}

/// Makes the directory, or repairs the one that is there, so that only its owner can open it
/// and what is put below it. Given the replies so far, says what comes next.
pub fn ensure_owner_only_dir(path: &Vec<u16>, replies: &Vec<Reply>) -> (r: Next)
    ensures
        forall|w: Replies| #[trigger]
            follows(dir_course(path@, w), w, replies@) ==> r == after(
                dir_course(path@, w),
                replies.len() as int,
            ),
{
    let n = replies.len();
    if n == 0 {
        return Next::Run(Step::MakeDescriptor(INHERIT_ALL));
    }
    if let Reply::Failed(e) = replies[0] {
        return Next::Failed(e);
    }
    if contains_nul(path) {
        return Next::Failed(FileError::EmbeddedNul);
    }
    if n == 1 {
        return Next::Run(Step::CreateDirectory);
    }
    let created = match replies[1] {
        Reply::Failed(e) => {
            if e != FileError::Os(ERROR_ALREADY_EXISTS) {
                return Next::Failed(e);
            }
            false
        },
        _ => true,
    };
    if n == 2 {
        return Next::Run(Step::OpenDirectory);
    }
    if let Reply::Failed(e) = replies[2] {
        return undo(created, n, 3, Step::RemoveDirectory, e);
    }
    if n == 3 {
        return Next::Run(Step::Inspect);
    }
    let refusal = match replies[3] {
        Reply::Failed(e) => Some(e),
        Reply::Attributes(a) => if a & FILE_ATTRIBUTE_REPARSE_POINT != 0 {
            Some(FileError::ReparsePoint)
        } else if a & FILE_ATTRIBUTE_DIRECTORY == 0 {
            Some(FileError::NotADirectory)
        } else {
            None
        },
        _ => Some(FileError::OutOfOrder),
    };
    if let Some(e) = refusal {
        if n == 4 {
            return Next::Run(Step::Close);
        }
        return undo(created, n, 5, Step::RemoveDirectory, e);
    }
    if n == 4 {
        return Next::Run(Step::Protect);
    }
    if n == 5 {
        return Next::Run(Step::Close);
    }
    if let Reply::Failed(e) = replies[4] {
        return undo(created, n, 6, Step::RemoveDirectory, e);
    }
    if let Reply::Failed(e) = replies[5] {
        return undo(created, n, 6, Step::RemoveDirectory, e);
    }
    Next::Ready
}

// ---------------------------------------------------------------------------
// Files
// ---------------------------------------------------------------------------

/// The file was made by this operation.
pub open spec fn file_created(w: Replies) -> bool {
    w.create is None && !w.existed
}

/// The course ends in an error: the file is closed, and one that it made is deleted.
pub open spec fn file_undone(steps: Seq<Step>, w: Replies, error: FileError) -> Course {
    Course {
        steps: if file_created(w) {
            steps.push(Step::Close).push(Step::DeleteFile)
        } else {
            steps.push(Step::Close)
        },
        error: Some(error),
    }
}

pub open spec fn is_reparse_point(attributes: u32) -> bool {
    attributes & FILE_ATTRIBUTE_REPARSE_POINT != 0
}

/// How a file is opened: without following it; looked at, protected and, where its
/// contents are to be replaced, emptied. It stays open where that succeeds.
pub open spec fn file_course(
    path: Seq<u16>,
    disposition: u32,
    truncates: bool,
    w: Replies,
) -> Course {
    let described = Seq::empty().push(Step::MakeDescriptor(0));
    let created = described.push(Step::CreateFile(disposition));
    let inspected = created.push(Step::Inspect);
    let protected = inspected.push(Step::Protect);
    let truncated = protected.push(Step::Truncate);
    if w.descriptor is Some {
        Course { steps: described, error: w.descriptor }
    } else if path.contains(0u16) {
        Course { steps: described, error: Some(FileError::EmbeddedNul) }
    } else if w.create is Some {
        Course { steps: created, error: w.create }
    } else if w.attributes is Err {
        file_undone(inspected, w, w.attributes->Err_0)
    } else if is_reparse_point(w.attributes->Ok_0) {
        Course { steps: inspected.push(Step::Close), error: Some(FileError::ReparsePoint) }
    } else if w.protect is Some {
        file_undone(protected, w, w.protect->0)
    } else if truncates && w.truncate is Some {
        file_undone(truncated, w, w.truncate->0)
    } else {
        Course {
            steps: if truncates {
                truncated
            } else {
                protected
            },
            error: None,
        }
    }
}

fn undo_file(created: bool, n: usize, at: usize, error: FileError) -> (r: Next)
    requires
        at < 10,
    ensures
        r == (if n == at {
            Next::Run(Step::Close)
        } else if created && n == at + 1 {
            Next::Run(Step::DeleteFile)
        } else {
            Next::Failed(error)
        }),
{
    if n == at {
        Next::Run(Step::Close)
    } else {
        undo(created, n, at + 1, Step::DeleteFile, error)
    }
}

fn open_file(path: &Vec<u16>, disposition: u32, truncates: bool, replies: &Vec<Reply>) -> (r: Next)
    ensures
        forall|w: Replies| #[trigger]
            follows(file_course(path@, disposition, truncates, w), w, replies@) ==> r == after(
                file_course(path@, disposition, truncates, w),
                replies.len() as int,
            ),
{
    let n = replies.len();
    if n == 0 {
        return Next::Run(Step::MakeDescriptor(0));
    }
    if let Reply::Failed(e) = replies[0] {
        return Next::Failed(e);
    }
    if contains_nul(path) {
        return Next::Failed(FileError::EmbeddedNul);
    }
    if n == 1 {
        return Next::Run(Step::CreateFile(disposition));
    }
    let created = match replies[1] {
        Reply::Failed(e) => {
            return Next::Failed(e);
        },
        Reply::Existed => false,
        _ => true,
    };
    if n == 2 {
        return Next::Run(Step::Inspect);
    }
    match replies[2] {
        Reply::Failed(e) => {
            return undo_file(created, n, 3, e);
        },
        Reply::Attributes(a) => {
            if a & FILE_ATTRIBUTE_REPARSE_POINT != 0 {
                return undo_file(false, n, 3, FileError::ReparsePoint);
            }
        },
        _ => {
            return undo_file(created, n, 3, FileError::OutOfOrder);
        },
    }
    if n == 3 {
        return Next::Run(Step::Protect);
    }
    if let Reply::Failed(e) = replies[3] {
        return undo_file(created, n, 4, e);
    }
    if !truncates {
        return Next::Ready;
    }
    if n == 4 {
        return Next::Run(Step::Truncate);
    }
    if let Reply::Failed(e) = replies[4] {
        return undo_file(created, n, 5, e);
    }
    Next::Ready
}

/// Opens a file for writing, replacing its contents after it is protected.
pub fn open_owner_only(path: &Vec<u16>, replies: &Vec<Reply>) -> (r: Next)
    ensures
        forall|w: Replies| #[trigger]
            follows(file_course(path@, OPEN_ALWAYS, true, w), w, replies@) ==> r == after(
                file_course(path@, OPEN_ALWAYS, true, w),
                replies.len() as int,
            ),
{
    open_file(path, OPEN_ALWAYS, true, replies)
}

/// Creates a temporary file at the path that is tried for it; it is protected before it is
/// handed out.
pub fn owner_only_tempfile_in(path: &Vec<u16>, replies: &Vec<Reply>) -> (r: Next)
    ensures
        forall|w: Replies| #[trigger]
            follows(file_course(path@, CREATE_NEW, false, w), w, replies@) ==> r == after(
                file_course(path@, CREATE_NEW, false, w),
                replies.len() as int,
            ),
{
    open_file(path, CREATE_NEW, false, replies)
}

// ---------------------------------------------------------------------------
// Laws
// ---------------------------------------------------------------------------

/// A file is emptied only after it was protected, and is never emptied where it is a reparse
/// point.
pub proof fn files_are_protected_before_they_are_emptied(
    path: Seq<u16>,
    disposition: u32,
    truncates: bool,
    w: Replies,
    i: int,
)
    requires
        0 <= i < file_course(path, disposition, truncates, w).steps.len(),
        file_course(path, disposition, truncates, w).steps[i] == Step::Truncate,
    ensures
        i > 0,
        file_course(path, disposition, truncates, w).steps[i - 1] == Step::Protect,
        w.protect is None,
        w.attributes is Ok && !is_reparse_point(w.attributes->Ok_0),
{
}

/// A file that is handed out was protected, and is open.
pub proof fn files_that_are_handed_out_are_protected(
    path: Seq<u16>,
    disposition: u32,
    truncates: bool,
    w: Replies,
)
    requires
        file_course(path, disposition, truncates, w).error is None,
    ensures
        file_course(path, disposition, truncates, w).steps.contains(Step::Protect),
        w.protect is None,
        !file_course(path, disposition, truncates, w).steps.contains(Step::Close),
        !file_course(path, disposition, truncates, w).steps.contains(Step::DeleteFile),
{
    assert(file_course(path, disposition, truncates, w).steps[3] == Step::Protect);
}

/// Nothing is deleted that was there before, nor a reparse point; and what was made is
/// deleted last, where the operation fails and it is none.
pub proof fn only_new_files_are_deleted(
    path: Seq<u16>,
    disposition: u32,
    truncates: bool,
    w: Replies,
)
    ensures
        ({
            let course = file_course(path, disposition, truncates, w);
            &&& course.steps.contains(Step::DeleteFile) ==> file_created(w) && course.error is Some
            &&& course.error is Some && course.steps.len() > 2 && file_created(w) && !(
            w.attributes is Ok && is_reparse_point(w.attributes->Ok_0)) ==> course.steps.last()
                == Step::DeleteFile
            &&& course.error is Some && course.steps.len() > 2 ==> course.steps.contains(
                Step::Close,
            )
        }),
{
    let course = file_course(path, disposition, truncates, w);
    if course.error is Some && course.steps.len() > 2 {
        assert(course.steps.last() == Step::Close || course.steps[course.steps.len() - 2]
            == Step::Close);
    }
}

/// A directory is protected only where it is one, and not a reparse point; where the
/// operation succeeds it was protected, and it is closed.
pub proof fn only_directories_are_protected(path: Seq<u16>, w: Replies)
    ensures
        ({
            let course = dir_course(path, w);
            &&& course.steps.contains(Step::Protect) ==> dir_refusal(w.attributes) is None
            &&& course.error is None ==> course.steps.contains(Step::Protect) && w.protect is None
                && course.steps.last() == Step::Close
        }),
{
    let course = dir_course(path, w);
    if course.error is None {
        assert(course.steps[4] == Step::Protect);
    }
}

/// A directory that was there before is never removed; one that was made is removed last,
/// where the operation fails.
pub proof fn only_new_directories_are_removed(path: Seq<u16>, w: Replies)
    ensures
        ({
            let course = dir_course(path, w);
            &&& course.steps.contains(Step::RemoveDirectory) ==> dir_created(w) && course.error
                is Some
            &&& course.error is Some && course.steps.len() > 2 && dir_created(w)
                ==> course.steps.last() == Step::RemoveDirectory
        }),
{
}

// ---------------------------------------------------------------------------
// Whole courses
// ---------------------------------------------------------------------------

/// A descriptor allows its owner everything, and nobody else anything: it inherits no
/// entry.
pub proof fn a_descriptor_is_made(ace_flags: u32, layout: AclLayout)
    ensures
        descriptor_steps(ace_flags, layout) == seq![
            DescriptorStep::InitializeDescriptor,
            DescriptorStep::InitializeAcl(layout),
            DescriptorStep::AddAccessAllowedAce(ace_flags, 0x1F01FF),
            DescriptorStep::SetDacl,
            DescriptorStep::SetControl(0x1000, 0x1000),
        ],
{
}

/// The list of a descriptor holds its head and one entry with its owner, in whole words.
pub proof fn a_list_has_room(sid_words: nat, bytes: nat)
    ensures
        acl_size(sid_words) == 16 + 4 * sid_words,
        4 * words_for(bytes) >= bytes,
        4 * words_for(bytes) < bytes + 4,
{
}

/// Where nothing fails, a directory is described, created, opened, inspected, protected and
/// closed; one that was there before is used.
pub proof fn a_directory_is_made(path: Seq<u16>, w: Replies)
    requires
        w.descriptor is None,
        !path.contains(0u16),
        w.create is None || w.create == Some(FileError::Os(183)),
        w.open is None,
        w.attributes matches Ok(a) && a & 0x400 == 0 && a & 0x10 != 0,
        w.protect is None,
        w.close is None,
    ensures
        dir_course(path, w) == (Course {
            steps: seq![
                Step::MakeDescriptor(3),
                Step::CreateDirectory,
                Step::OpenDirectory,
                Step::Inspect,
                Step::Protect,
                Step::Close,
            ],
            error: None,
        }),
{
    assert(dir_course(path, w).steps =~= seq![
        Step::MakeDescriptor(3),
        Step::CreateDirectory,
        Step::OpenDirectory,
        Step::Inspect,
        Step::Protect,
        Step::Close,
    ]);
}

/// What is a link, or no directory, is refused, and a path with a zero in it is never
/// created.
pub proof fn other_things_are_refused(path: Seq<u16>, w: Replies, a: u32)
    ensures
        a & 0x400 != 0 ==> dir_refusal(Ok(a)) == Some(FileError::ReparsePoint),
        a & 0x400 == 0 && a & 0x10 == 0 ==> dir_refusal(Ok(a)) == Some(FileError::NotADirectory),
        a & 0x400 == 0 && a & 0x10 != 0 ==> dir_refusal(Ok(a)) is None,
        is_reparse_point(a) <==> a & 0x400 != 0,
        path.contains(0u16) && w.descriptor is None ==> dir_course(path, w) == (Course {
            steps: seq![Step::MakeDescriptor(3)],
            error: Some(FileError::EmbeddedNul),
        }),
        path.contains(0u16) && w.descriptor is None ==> file_course(path, 1, false, w) == (Course {
            steps: seq![Step::MakeDescriptor(0)],
            error: Some(FileError::EmbeddedNul),
        }),
        w.descriptor matches Some(e) ==> dir_course(path, w).error == Some(e) && dir_course(
            path,
            w,
        ).steps.len() == 1,
        w.descriptor is None && !path.contains(0u16) ==> (w.create matches Some(e) ==> (e
            != FileError::Os(183) ==> dir_course(path, w).error == Some(e) && dir_course(
            path,
            w,
        ).steps.len() == 2)),
{
    assert(Seq::<Step>::empty().push(Step::MakeDescriptor(3)) =~= seq![Step::MakeDescriptor(3)]);
    assert(Seq::<Step>::empty().push(Step::MakeDescriptor(0)) =~= seq![Step::MakeDescriptor(0)]);
}

/// Where nothing fails, a file is described, created, inspected and protected, and then
/// emptied where that is asked for; it stays open.
pub proof fn a_file_is_made(path: Seq<u16>, disposition: u32, truncates: bool, w: Replies)
    requires
        w.descriptor is None,
        !path.contains(0u16),
        w.create is None,
        w.attributes matches Ok(a) && a & 0x400 == 0,
        w.protect is None,
        w.truncate is None,
    ensures
        file_course(path, disposition, truncates, w) == (Course {
            steps: if truncates {
                seq![
                    Step::MakeDescriptor(0),
                    Step::CreateFile(disposition),
                    Step::Inspect,
                    Step::Protect,
                    Step::Truncate,
                ]
            } else {
                seq![
                    Step::MakeDescriptor(0),
                    Step::CreateFile(disposition),
                    Step::Inspect,
                    Step::Protect,
                ]
            },
            error: None,
        }),
{
    let steps = file_course(path, disposition, truncates, w).steps;
    if truncates {
        assert(steps =~= seq![
            Step::MakeDescriptor(0),
            Step::CreateFile(disposition),
            Step::Inspect,
            Step::Protect,
            Step::Truncate,
        ]);
    } else {
        assert(steps =~= seq![
            Step::MakeDescriptor(0),
            Step::CreateFile(disposition),
            Step::Inspect,
            Step::Protect,
        ]);
    }
}

/// The error that is told is that of the step that failed.
pub proof fn the_failing_step_is_told(path: Seq<u16>, disposition: u32, truncates: bool, w: Replies)
    requires
        w.descriptor is None,
        !path.contains(0u16),
        w.create is None,
    ensures
        w.attributes matches Err(e) ==> file_course(path, disposition, truncates, w).error == Some(
            e,
        ),
        (w.attributes matches Ok(a) && a & 0x400 != 0) ==> file_course(
            path,
            disposition,
            truncates,
            w,
        ).error == Some(FileError::ReparsePoint),
        (w.attributes matches Ok(a) && a & 0x400 == 0) ==> {
            &&& w.protect matches Some(e) ==> file_course(path, disposition, truncates, w).error
                == Some(e)
            &&& w.protect is None && truncates ==> (w.truncate matches Some(e) ==> file_course(
                path,
                disposition,
                truncates,
                w,
            ).error == Some(e))
        },
        w.open matches Some(e) ==> dir_course(path, w).error == Some(e),
        w.open is None ==> (w.attributes matches Err(e) ==> dir_course(path, w).error == Some(e)),
        (w.open is None && (w.attributes matches Ok(a) && a & 0x400 == 0 && a & 0x10 != 0)) ==> {
            &&& w.protect matches Some(e) ==> dir_course(path, w).error == Some(e)
            &&& w.protect is None ==> (w.close matches Some(e) ==> dir_course(path, w).error
                == Some(e))
        },
{
}

/// Errors are told by their kind.
pub proof fn errors_have_kinds(code: u32)
    ensures
        error_kind(FileError::Os(code)) == FileErrorKind::Os,
        error_kind(FileError::EmbeddedNul) == FileErrorKind::InvalidInput,
        error_kind(FileError::ReparsePoint) == FileErrorKind::InvalidInput,
        error_kind(FileError::AclSizeOverflow) == FileErrorKind::InvalidInput,
        error_kind(FileError::AclTooLarge) == FileErrorKind::InvalidInput,
        error_kind(FileError::NotADirectory) == FileErrorKind::NotADirectory,
        error_kind(FileError::TokenTruncated) == FileErrorKind::InvalidData,
        error_kind(FileError::TokenWithoutSid) == FileErrorKind::InvalidData,
        error_kind(FileError::OutOfOrder) == FileErrorKind::InvalidData,
{
}

/// Errors are told in words, but for those of the system, which tells them itself.
pub proof fn errors_are_told(code: u32)
    ensures
        error_message(FileError::Os(code)).len() == 0,
        error_message(FileError::EmbeddedNul) == "path contains an embedded NUL"@,
        error_message(FileError::ReparsePoint) == "path is a reparse point"@,
        error_message(FileError::NotADirectory) == "path is not a directory"@,
        error_message(FileError::AclSizeOverflow) == "ACL size overflow"@,
        error_message(FileError::AclTooLarge) == "ACL is too large"@,
        error_message(FileError::TokenTruncated) == "token user information is truncated"@,
        error_message(FileError::TokenWithoutSid) == "token user information has no SID"@,
{
    reveal_strlit("");
}

} // verus!
