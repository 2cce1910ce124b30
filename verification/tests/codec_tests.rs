use normal_oj::language::Language;
use normal_oj::problems::{Type, Visibility};
use normal_oj::role::{int_to_role, role_to_int, Role};
use normal_oj::status::SubmissionStatus;

#[test]
fn test_serde_visibility() {
    assert_eq!(Visibility::Show.to_int(), 0);
    assert_eq!(Visibility::Hidden.to_int(), 1);
    assert_eq!(Visibility::from_int(0), Some(Visibility::Show));
    assert_eq!(Visibility::from_int(1), Some(Visibility::Hidden));
    assert!(Visibility::from_int(3).is_none());
}

#[test]
fn type_encoding() {
    assert_eq!(Type::Normal.to_int(), 0);
    assert_eq!(Type::FillInTemplate.to_int(), 1);
    assert_eq!(Type::Handwritten.to_int(), 2);
    for i in 0..3 {
        assert_eq!(Type::from_int(i).unwrap().to_int(), i);
    }
    assert!(Type::from_int(3).is_none());
    assert!(Type::from_int(-1).is_none());
}

#[test]
fn role_encoding() {
    assert_eq!(role_to_int(&Role::Admin), 0);
    assert_eq!(role_to_int(&Role::Teacher), 1);
    assert_eq!(role_to_int(&Role::Student), 2);
    assert_eq!(int_to_role(0), Some(Role::Admin));
    assert_eq!(int_to_role(1), Some(Role::Teacher));
    assert_eq!(int_to_role(2), Some(Role::Student));
    assert_eq!(int_to_role(3), None);
    assert_eq!(int_to_role(-1), None);
}

#[test]
fn submission_status_encoding() {
    let all = [
        (SubmissionStatus::Pending, -1),
        (SubmissionStatus::Accepted, 0),
        (SubmissionStatus::WrongAnswer, 1),
        (SubmissionStatus::CompileError, 2),
        (SubmissionStatus::TimeLimitExceeded, 3),
        (SubmissionStatus::MemoryLimitExceeded, 4),
        (SubmissionStatus::RuntimeError, 5),
        (SubmissionStatus::JudgeError, 6),
        (SubmissionStatus::OutputLimitExceeded, 7),
    ];
    for (status, code) in all {
        assert_eq!(status.to_int(), code);
        assert_eq!(SubmissionStatus::from_int(code), Some(status));
    }
    assert!(SubmissionStatus::from_int(8).is_none());
    assert!(SubmissionStatus::from_int(-2).is_none());
}

#[test]
fn language_encoding() {
    assert_eq!(Language::C.to_int(), 0);
    assert_eq!(Language::Cpp.to_int(), 1);
    assert_eq!(Language::Python.to_int(), 2);
    for i in 0..3 {
        assert_eq!(Language::from_int(i).unwrap().to_int(), i);
    }
    assert!(Language::from_int(3).is_none());
}
