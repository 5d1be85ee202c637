use s3_vectors::setup::{setup_start, setup_step, SetupAction, SetupReply, SetupState, MAX_BUCKET_POLLS};
use s3_vectors::types::BucketStatus;

fn ok(status: Option<BucketStatus>) -> SetupReply {
    SetupReply::Succeeded(status)
}

#[test]
fn existing_bucket_goes_straight_to_the_index() {
    let (s, a) = setup_start();
    assert!(matches!(a, SetupAction::DescribeBucket));
    let (s, a) = setup_step(s, ok(Some(BucketStatus::Active)));
    assert!(matches!(a, SetupAction::CreateIndex));
    let (s, a) = setup_step(s, ok(None));
    assert!(matches!(a, SetupAction::WaitThenDescribeIndex(2000)));
    let (s, a) = setup_step(s, ok(None));
    assert_eq!(s, SetupState::Done);
    assert!(matches!(a, SetupAction::Finish));
}

#[test]
fn missing_bucket_is_created_and_polled_until_active() {
    let (s, _) = setup_start();
    let (s, a) = setup_step(s, SetupReply::NotFound("no bucket".into()));
    assert!(matches!(a, SetupAction::CreateBucket));
    let (s, a) = setup_step(s, ok(None));
    assert!(matches!(a, SetupAction::DescribeBucket));
    let (s, a) = setup_step(s, ok(Some(BucketStatus::Creating)));
    assert!(matches!(a, SetupAction::WaitThenDescribeBucket(1000)));
    let (_, a) = setup_step(s, ok(Some(BucketStatus::Active)));
    assert!(matches!(a, SetupAction::CreateIndex));
}

#[test]
fn bucket_created_elsewhere_is_described_again() {
    let (s, a) = setup_step(SetupState::CreatingBucket, SetupReply::AlreadyExists("exists".into()));
    assert_eq!(s, SetupState::RecheckingBucket);
    assert!(matches!(a, SetupAction::DescribeBucket));
}

#[test]
fn polling_gives_up_after_the_limit() {
    let mut s = SetupState::WaitingForBucket { polls: 1 };
    let mut polls = 1;
    loop {
        let (next, a) = setup_step(s, ok(Some(BucketStatus::Creating)));
        s = next;
        match a {
            SetupAction::WaitThenDescribeBucket(_) => polls += 1,
            SetupAction::Fail(m) => {
                assert_eq!(m, "Timeout waiting for bucket to become active");
                break;
            }
            other => panic!("unexpected {:?}", other),
        }
    }
    assert_eq!(polls, MAX_BUCKET_POLLS);
    let (_, a) = setup_step(SetupState::WaitingForBucket { polls: 3 }, ok(Some(BucketStatus::Failed)));
    assert!(matches!(a, SetupAction::Fail(m) if m == "Bucket creation failed"));
}

#[test]
fn existing_index_is_described_and_errors_end_the_setup() {
    let (s, a) = setup_step(SetupState::CreatingIndex, SetupReply::AlreadyExists("exists".into()));
    assert_eq!(s, SetupState::DescribingIndex);
    assert!(matches!(a, SetupAction::DescribeIndex));
    let (s, a) = setup_step(SetupState::VerifyingIndex, SetupReply::Failed("boom".into()));
    assert_eq!(s, SetupState::Failed);
    assert!(matches!(a, SetupAction::Fail(m) if m == "Failed to verify index creation: boom"));
    let (_, a) = setup_step(SetupState::CheckingBucket, SetupReply::Failed("denied".into()));
    assert!(matches!(a, SetupAction::Fail(m) if m == "denied"));
}
