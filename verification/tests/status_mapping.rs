use repo_reconcile::project::status::FileStatus;

fn all_statuses() -> Vec<FileStatus> {
    vec![
        FileStatus::Current,
        FileStatus::IndexNew,
        FileStatus::IndexModified,
        FileStatus::IndexDeleted,
        FileStatus::IndexRenamed,
        FileStatus::IndexTypeChange,
        FileStatus::WorkTreeNew,
        FileStatus::WorkTreeModified,
        FileStatus::WorkTreeDeleted,
        FileStatus::WorkTreeTypeChange,
        FileStatus::WorkTreeRenamed,
        FileStatus::Ignored,
        FileStatus::Conflict,
    ]
}

#[test]
fn every_status_is_read_back_from_its_flag_word() {
    for status in all_statuses() {
        assert_eq!(FileStatus::from_bits(status.to_bits()), Some(status));
        assert_eq!(FileStatus::from(status.to_bits()), status);
    }
}

#[test]
fn no_two_statuses_share_a_flag_word() {
    let all = all_statuses();
    for (i, a) in all.iter().enumerate() {
        for (j, b) in all.iter().enumerate() {
            assert_eq!(a.to_bits() == b.to_bits(), i == j);
        }
    }
}

#[test]
fn flag_words_are_those_of_git() {
    let pairs = [
        (git2::Status::CURRENT, FileStatus::Current),
        (git2::Status::INDEX_NEW, FileStatus::IndexNew),
        (git2::Status::INDEX_MODIFIED, FileStatus::IndexModified),
        (git2::Status::INDEX_DELETED, FileStatus::IndexDeleted),
        (git2::Status::INDEX_RENAMED, FileStatus::IndexRenamed),
        (git2::Status::INDEX_TYPECHANGE, FileStatus::IndexTypeChange),
        (git2::Status::WT_NEW, FileStatus::WorkTreeNew),
        (git2::Status::WT_MODIFIED, FileStatus::WorkTreeModified),
        (git2::Status::WT_DELETED, FileStatus::WorkTreeDeleted),
        (git2::Status::WT_TYPECHANGE, FileStatus::WorkTreeTypeChange),
        (git2::Status::WT_RENAMED, FileStatus::WorkTreeRenamed),
        (git2::Status::IGNORED, FileStatus::Ignored),
        (git2::Status::CONFLICTED, FileStatus::Conflict),
    ];
    for (flag, status) in pairs {
        assert_eq!(FileStatus::from_bits(flag.bits()), Some(status));
        assert_eq!(status.to_bits(), flag.bits());
    }
}

#[test]
fn exact_flag_words() {
    assert_eq!(FileStatus::Current.to_bits(), 0);
    assert_eq!(FileStatus::IndexNew.to_bits(), 1);
    assert_eq!(FileStatus::IndexTypeChange.to_bits(), 16);
    assert_eq!(FileStatus::WorkTreeNew.to_bits(), 128);
    assert_eq!(FileStatus::WorkTreeRenamed.to_bits(), 2048);
    assert_eq!(FileStatus::Ignored.to_bits(), 16384);
    assert_eq!(FileStatus::Conflict.to_bits(), 32768);
}

#[test]
fn words_that_are_no_single_status_are_refused() {
    assert_eq!(FileStatus::from_bits(3), None);
    assert_eq!(FileStatus::from_bits(32), None);
    assert_eq!(FileStatus::from_bits(64), None);
    assert_eq!(FileStatus::from_bits(git2::Status::WT_UNREADABLE.bits()), None);
    assert_eq!(FileStatus::from_bits(8192), None);
    assert_eq!(FileStatus::from_bits(0x1_0000), None);
    assert_eq!(FileStatus::from_bits(u32::MAX), None);
    let staged_and_changed = git2::Status::INDEX_NEW | git2::Status::WT_MODIFIED;
    assert_eq!(FileStatus::from_bits(staged_and_changed.bits()), None);
}

#[test]
fn only_thirteen_words_are_read() {
    let mut read = 0;
    for bits in 0u32..=0x2_0000 {
        if FileStatus::from_bits(bits).is_some() {
            read += 1;
        }
    }
    assert_eq!(read, 13);
}
