//! Files and directories that only their owner can open.

use dbt_fusion::file_security::{
    acl_layout, check_token_sid, check_token_user, ensure_owner_only_dir, open_owner_only,
    owner_only_tempfile_in, protected_descriptor, sid_words, to_wide, token_buffer_len, AclLayout,
    DescriptorNext, DescriptorStep, FileError, FileErrorKind, Next, Reply, Step, CREATE_NEW,
    ERROR_ALREADY_EXISTS, FILE_ALL_ACCESS, FILE_ATTRIBUTE_DIRECTORY, FILE_ATTRIBUTE_REPARSE_POINT,
    INHERIT_ALL, OPEN_ALWAYS, SE_DACL_PROTECTED,
};

const DENIED: FileError = FileError::Os(5);

fn path() -> Vec<u16> {
    "C:\\secret".encode_utf16().collect()
}

/// Runs a conversation, with a reply for each step, to its steps and its end.
fn run(
    operation: impl Fn(&Vec<u16>, &Vec<Reply>) -> Next,
    answer: impl Fn(Step) -> Reply,
) -> (Vec<Step>, Option<FileError>) {
    let mut steps = Vec::new();
    let mut replies = Vec::new();
    loop {
        match operation(&path(), &replies) {
            Next::Run(step) => {
                steps.push(step);
                replies.push(answer(step));
            }
            Next::Failed(e) => return (steps, Some(e)),
            Next::Ready => return (steps, None),
        }
    }
}

fn directory(step: Step) -> Reply {
    match step {
        Step::Inspect => Reply::Attributes(FILE_ATTRIBUTE_DIRECTORY),
        _ => Reply::Done,
    }
}

fn file(step: Step) -> Reply {
    match step {
        Step::Inspect => Reply::Attributes(0x20),
        _ => Reply::Done,
    }
}

#[test]
fn a_new_directory_is_protected_and_closed() {
    let (steps, error) = run(ensure_owner_only_dir, directory);
    assert_eq!(error, None);
    assert_eq!(
        steps,
        vec![
            Step::MakeDescriptor(INHERIT_ALL),
            Step::CreateDirectory,
            Step::OpenDirectory,
            Step::Inspect,
            Step::Protect,
            Step::Close,
        ]
    );
}

#[test]
fn a_directory_that_is_there_is_repaired_and_never_removed() {
    let existing = |step| match step {
        Step::CreateDirectory => Reply::Failed(FileError::Os(ERROR_ALREADY_EXISTS)),
        s => directory(s),
    };
    assert_eq!(run(ensure_owner_only_dir, existing).1, None);
    let denied = |step| match step {
        Step::Protect => Reply::Failed(DENIED),
        s => existing(s),
    };
    let (steps, error) = run(ensure_owner_only_dir, denied);
    assert_eq!(error, Some(DENIED));
    assert!(!steps.contains(&Step::RemoveDirectory));
    assert_eq!(steps.last(), Some(&Step::Close));
}

#[test]
fn a_new_directory_is_removed_where_it_cannot_be_protected() {
    for failing in [Step::OpenDirectory, Step::Inspect, Step::Protect, Step::Close] {
        let (steps, error) = run(ensure_owner_only_dir, |step| {
            if step == failing {
                Reply::Failed(DENIED)
            } else {
                directory(step)
            }
        });
        assert_eq!(error, Some(DENIED));
        assert_eq!(steps.last(), Some(&Step::RemoveDirectory));
        let closes = steps.iter().filter(|s| **s == Step::Close).count();
        assert_eq!(closes, if failing == Step::OpenDirectory { 0 } else { 1 });
    }
}

#[test]
fn a_file_or_a_link_is_no_directory() {
    for (attributes, expected) in [
        (0x20, FileError::NotADirectory),
        (
            FILE_ATTRIBUTE_DIRECTORY | FILE_ATTRIBUTE_REPARSE_POINT,
            FileError::ReparsePoint,
        ),
    ] {
        let (steps, error) = run(ensure_owner_only_dir, |step| match step {
            Step::CreateDirectory => Reply::Failed(FileError::Os(ERROR_ALREADY_EXISTS)),
            Step::Inspect => Reply::Attributes(attributes),
            _ => Reply::Done,
        });
        assert_eq!(error, Some(expected));
        assert!(!steps.contains(&Step::Protect));
        assert_eq!(steps.last(), Some(&Step::Close));
    }
}

#[test]
fn a_directory_that_cannot_be_made_is_not_opened() {
    let (steps, error) = run(ensure_owner_only_dir, |step| match step {
        Step::CreateDirectory => Reply::Failed(DENIED),
        s => directory(s),
    });
    assert_eq!(error, Some(DENIED));
    assert_eq!(steps.len(), 2);
    let (steps, error) = run(ensure_owner_only_dir, |_| Reply::Failed(DENIED));
    assert_eq!(error, Some(DENIED));
    assert_eq!(steps.len(), 1);
}

#[test]
fn a_file_is_emptied_after_it_is_protected() {
    let (steps, error) = run(open_owner_only, file);
    assert_eq!(error, None);
    assert_eq!(
        steps,
        vec![
            Step::MakeDescriptor(0),
            Step::CreateFile(OPEN_ALWAYS),
            Step::Inspect,
            Step::Protect,
            Step::Truncate,
        ]
    );
    let (steps, error) = run(owner_only_tempfile_in, file);
    assert_eq!(error, None);
    assert_eq!(steps[1], Step::CreateFile(CREATE_NEW));
    assert_eq!(steps.last(), Some(&Step::Protect));
}

#[test]
fn a_file_that_cannot_be_protected_keeps_its_contents() {
    let (steps, error) = run(open_owner_only, |step| match step {
        Step::CreateFile(_) => Reply::Existed,
        Step::Protect => Reply::Failed(DENIED),
        s => file(s),
    });
    assert_eq!(error, Some(DENIED));
    assert!(!steps.contains(&Step::Truncate));
    assert!(!steps.contains(&Step::DeleteFile));
    assert_eq!(steps.last(), Some(&Step::Close));
}

#[test]
fn a_link_is_neither_protected_nor_deleted() {
    for created in [Reply::Done, Reply::Existed] {
        let (steps, error) = run(open_owner_only, |step| match step {
            Step::CreateFile(_) => created,
            Step::Inspect => Reply::Attributes(FILE_ATTRIBUTE_REPARSE_POINT),
            _ => Reply::Done,
        });
        assert_eq!(error, Some(FileError::ReparsePoint));
        assert_eq!(steps.last(), Some(&Step::Close));
        assert!(!steps.contains(&Step::Protect));
    }
}

#[test]
fn a_new_file_is_deleted_where_it_fails() {
    for failing in [Step::Inspect, Step::Protect, Step::Truncate] {
        let (steps, error) = run(open_owner_only, |step| {
            if step == failing {
                Reply::Failed(DENIED)
            } else {
                file(step)
            }
        });
        assert_eq!(error, Some(DENIED));
        assert_eq!(&steps[steps.len() - 2..], &[Step::Close, Step::DeleteFile]);
    }
    let (steps, error) = run(open_owner_only, |step| match step {
        Step::CreateFile(_) => Reply::Failed(DENIED),
        s => file(s),
    });
    assert_eq!(error, Some(DENIED));
    assert_eq!(steps.len(), 2);
}

#[test]
fn paths_end_at_their_nul() {
    assert_eq!(to_wide(&vec![97, 98]), Ok(vec![97, 98, 0]));
    assert_eq!(to_wide(&vec![97, 0, 98]), Err(FileError::EmbeddedNul));
    assert_eq!(to_wide(&Vec::new()), Ok(vec![0]));
    let replies = vec![Reply::Done];
    let broken = vec![97, 0];
    assert_eq!(
        ensure_owner_only_dir(&broken, &replies),
        Next::Failed(FileError::EmbeddedNul)
    );
    assert_eq!(
        open_owner_only(&broken, &replies),
        Next::Failed(FileError::EmbeddedNul)
    );
}

#[test]
fn lists_are_sized_by_the_identifier() {
    assert_eq!(
        acl_layout(7),
        Ok(AclLayout {
            words: 11,
            bytes: 44
        })
    );
    assert_eq!(
        acl_layout(16379),
        Ok(AclLayout {
            words: 16383,
            bytes: 65532
        })
    );
    assert_eq!(acl_layout(16380), Err(FileError::AclTooLarge));
    assert_eq!(acl_layout(usize::MAX / 4), Err(FileError::AclSizeOverflow));
    assert_eq!(sid_words(28, 0), Ok(7));
    assert_eq!(sid_words(29, 0), Ok(8));
    assert_eq!(sid_words(0, 87), Err(FileError::Os(87)));
    assert_eq!(token_buffer_len(44, 0), Ok(44));
    assert_eq!(token_buffer_len(0, 6), Err(FileError::Os(6)));
    assert_eq!(check_token_user(16, 16), Ok(()));
    assert_eq!(check_token_user(15, 16), Err(FileError::TokenTruncated));
    assert_eq!(check_token_sid(false), Ok(()));
    assert_eq!(check_token_sid(true), Err(FileError::TokenWithoutSid));
}

#[test]
fn descriptors_are_made_step_by_step() {
    let layout = acl_layout(7).unwrap();
    let steps: Vec<DescriptorNext> = (0..6)
        .map(|done| protected_descriptor(INHERIT_ALL, layout, done, None))
        .collect();
    assert_eq!(
        steps,
        vec![
            DescriptorNext::Run(DescriptorStep::InitializeDescriptor),
            DescriptorNext::Run(DescriptorStep::InitializeAcl(layout)),
            DescriptorNext::Run(DescriptorStep::AddAccessAllowedAce(
                INHERIT_ALL,
                FILE_ALL_ACCESS
            )),
            DescriptorNext::Run(DescriptorStep::SetDacl),
            DescriptorNext::Run(DescriptorStep::SetControl(
                SE_DACL_PROTECTED,
                SE_DACL_PROTECTED
            )),
            DescriptorNext::Ready,
        ]
    );
    assert_eq!(
        protected_descriptor(0, layout, 3, Some(5)),
        DescriptorNext::Failed(DENIED)
    );
}

#[test]
fn errors_have_kinds_and_messages() {
    assert_eq!(FileError::ReparsePoint.kind(), FileErrorKind::InvalidInput);
    assert_eq!(FileError::ReparsePoint.message(), "path is a reparse point");
    assert_eq!(FileError::NotADirectory.kind(), FileErrorKind::NotADirectory);
    assert_eq!(FileError::TokenWithoutSid.kind(), FileErrorKind::InvalidData);
    assert_eq!(DENIED.kind(), FileErrorKind::Os);
    assert_eq!(FileError::AclTooLarge.message(), "ACL is too large");
}
