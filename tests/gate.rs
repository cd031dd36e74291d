use shred::error::ShredError;
use shred::validate::{answer_confirms, confirm_answer, validate_file, Admission, PathFacts};

fn regular(len: u64) -> PathFacts {
    PathFacts { exists: true, is_symlink: false, is_file: true, read_only: false, len }
}

#[test]
fn missing_path_is_not_found() {
    let facts = PathFacts { exists: false, is_symlink: false, is_file: false, read_only: false, len: 0 };
    assert_eq!(validate_file(&facts, true), Err(ShredError::NotFound));
    assert_eq!(validate_file(&facts, false), Err(ShredError::NotFound));
}

#[test]
fn dangling_link_is_not_found() {
    let facts = PathFacts { exists: false, is_symlink: true, is_file: false, read_only: false, len: 0 };
    assert_eq!(validate_file(&facts, true), Err(ShredError::NotFound));
}

#[test]
fn link_to_regular_file_is_refused_even_forced() {
    let facts = PathFacts { exists: true, is_symlink: true, is_file: true, read_only: false, len: 10 };
    assert_eq!(validate_file(&facts, true), Err(ShredError::RefusedSymlink));
    assert_eq!(validate_file(&facts, false), Err(ShredError::RefusedSymlink));
}

#[test]
fn directory_is_not_a_file() {
    let facts = PathFacts { exists: true, is_symlink: false, is_file: false, read_only: false, len: 4096 };
    assert_eq!(validate_file(&facts, true), Err(ShredError::NotAFile));
}

#[test]
fn read_only_file_is_refused_even_forced() {
    let facts = PathFacts { read_only: true, ..regular(10) };
    assert_eq!(validate_file(&facts, true), Err(ShredError::ReadOnly));
    assert_eq!(validate_file(&facts, false), Err(ShredError::ReadOnly));
}

#[test]
fn forced_regular_file_is_admitted() {
    assert_eq!(
        validate_file(&regular(10), true),
        Ok(Admission { warn_empty: false, needs_confirmation: false })
    );
}

#[test]
fn unforced_file_needs_confirmation() {
    assert_eq!(
        validate_file(&regular(10), false),
        Ok(Admission { warn_empty: false, needs_confirmation: true })
    );
}

#[test]
fn empty_file_is_admitted_with_warning() {
    assert_eq!(
        validate_file(&regular(0), true),
        Ok(Admission { warn_empty: true, needs_confirmation: false })
    );
}

#[test]
fn answers_that_confirm() {
    for answer in ["y", "Y", "y\n", "  Y  \r\n", "\ty", "\u{3000}y\u{a0}"] {
        assert!(answer_confirms(answer), "{:?}", answer);
        assert_eq!(confirm_answer(answer), Ok(()));
    }
}

#[test]
fn answers_that_abort() {
    for answer in ["", "\n", "n", "N", "yes", "yy", "y y", "x", " ", "ý"] {
        assert!(!answer_confirms(answer), "{:?}", answer);
        assert_eq!(confirm_answer(answer), Err(ShredError::AbortedByUser));
    }
}
