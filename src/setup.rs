//! Setting up a bucket and an index for the retrieval pipeline: reuse what
//! exists, create what is missing, and wait until the bucket is active.
//! The caller sends each request that an action names and reports how it
//! went.
use vstd::prelude::*;
use crate::types::BucketStatus;

verus! {

/// Most times the bucket is described while waiting for it to be active.
pub const MAX_BUCKET_POLLS: u32 = 60;

/// Wait between two descriptions of a bucket that is not active yet, in
/// milliseconds.
pub const BUCKET_POLL_MS: u64 = 1000;

/// Wait before a new index is described, in milliseconds.
pub const INDEX_SETTLE_MS: u64 = 2000;

/// Where the setup stands: which request is out.
#[derive(Clone, Copy, Debug, PartialEq, Eq, Structural)]
pub enum SetupState {
    /// The bucket is being described, to see whether it exists.
    CheckingBucket,
    /// The bucket is being created.
    CreatingBucket,
    /// Another process created the bucket first; it is being described.
    RecheckingBucket,
    /// A new bucket is being described for the `polls`-th time.
    WaitingForBucket { polls: u32 },
    /// The index is being created.
    CreatingIndex,
    /// A new index is being described, to see that it exists.
    VerifyingIndex,
    /// The index existed already; it is being described.
    DescribingIndex,
    /// Bucket and index are ready.
    Done,
    /// The setup failed.
    Failed,
}

/// How the request that was out went.
#[derive(Clone, Debug)]
pub enum SetupReply {
    /// It succeeded; for a bucket, with the bucket's status.
    Succeeded(Option<BucketStatus>),
    /// The resource does not exist.
    NotFound(String),
    /// The resource exists already.
    AlreadyExists(String),
    /// Any other failure.
    Failed(String),
}

/// The next request to send, or the end of the setup.
#[derive(Clone, Debug)]
pub enum SetupAction {
    DescribeBucket,
    CreateBucket,
    /// Wait `ms`, then describe the bucket.
    WaitThenDescribeBucket(u64),
    CreateIndex,
    /// Wait `ms`, then describe the index.
    WaitThenDescribeIndex(u64),
    DescribeIndex,
    /// Bucket and index are ready.
    Finish,
    /// The setup failed, for this reason.
    Fail(String),
}

pub enum ActionView {
    DescribeBucket,
    CreateBucket,
    WaitThenDescribeBucket(u64),
    CreateIndex,
    WaitThenDescribeIndex(u64),
    DescribeIndex,
    Finish,
    Fail(Seq<char>),
}

impl View for SetupAction {
    type V = ActionView;

    open spec fn view(&self) -> ActionView {
        match self {
            SetupAction::DescribeBucket => ActionView::DescribeBucket,
            SetupAction::CreateBucket => ActionView::CreateBucket,
            SetupAction::WaitThenDescribeBucket(ms) => ActionView::WaitThenDescribeBucket(*ms),
            SetupAction::CreateIndex => ActionView::CreateIndex,
            SetupAction::WaitThenDescribeIndex(ms) => ActionView::WaitThenDescribeIndex(*ms),
            SetupAction::DescribeIndex => ActionView::DescribeIndex,
            SetupAction::Finish => ActionView::Finish,
            SetupAction::Fail(m) => ActionView::Fail(m@),
        }
    }
}

/// The message of a failed request.
pub open spec fn reply_message(r: SetupReply) -> Seq<char> {
    match r {
        SetupReply::Succeeded(_) => Seq::empty(),
        SetupReply::NotFound(m) => m@,
        SetupReply::AlreadyExists(m) => m@,
        SetupReply::Failed(m) => m@,
    }
}

/// The states the setup can be in: a poll count between one and the most
/// polls allowed.
pub open spec fn setup_wf(s: SetupState) -> bool {
    s matches SetupState::WaitingForBucket { polls } ==> 1 <= polls <= MAX_BUCKET_POLLS
}

/// The state after `reply` in state `s`, and what to do next.
pub open spec fn setup_step_spec(s: SetupState, reply: SetupReply) -> (SetupState, ActionView) {
    let fail = (SetupState::Failed, ActionView::Fail(reply_message(reply)));
    match s {
        SetupState::CheckingBucket => match reply {
            SetupReply::Succeeded(_) => (SetupState::CreatingIndex, ActionView::CreateIndex),
            SetupReply::NotFound(_) => (SetupState::CreatingBucket, ActionView::CreateBucket),
            _ => fail,
        },
        SetupState::CreatingBucket => match reply {
            SetupReply::Succeeded(_) => (
                SetupState::WaitingForBucket { polls: 1 },
                ActionView::DescribeBucket,
            ),
            SetupReply::AlreadyExists(_) => (SetupState::RecheckingBucket, ActionView::DescribeBucket),
            _ => fail,
        },
        SetupState::RecheckingBucket => match reply {
            SetupReply::Succeeded(_) => (SetupState::CreatingIndex, ActionView::CreateIndex),
            _ => fail,
        },
        SetupState::WaitingForBucket { polls } => match reply {
            SetupReply::Succeeded(Some(BucketStatus::Active)) => (
                SetupState::CreatingIndex,
                ActionView::CreateIndex,
            ),
            SetupReply::Succeeded(Some(BucketStatus::Failed)) => (
                SetupState::Failed,
                ActionView::Fail("Bucket creation failed"@),
            ),
            SetupReply::Succeeded(_) => if polls < MAX_BUCKET_POLLS {
                (
                    SetupState::WaitingForBucket { polls: (polls + 1) as u32 },
                    ActionView::WaitThenDescribeBucket(BUCKET_POLL_MS),
                )
            } else {
                (
                    SetupState::Failed,
                    ActionView::Fail("Timeout waiting for bucket to become active"@),
                )
            },
            _ => fail,
        },
        SetupState::CreatingIndex => match reply {
            SetupReply::Succeeded(_) => (
                SetupState::VerifyingIndex,
                ActionView::WaitThenDescribeIndex(INDEX_SETTLE_MS),
            ),
            SetupReply::AlreadyExists(_) => (SetupState::DescribingIndex, ActionView::DescribeIndex),
            _ => fail,
        },
        SetupState::VerifyingIndex => match reply {
            SetupReply::Succeeded(_) => (SetupState::Done, ActionView::Finish),
            _ => (
                SetupState::Failed,
                ActionView::Fail("Failed to verify index creation: "@ + reply_message(reply)),
            ),
        },
        SetupState::DescribingIndex => match reply {
            SetupReply::Succeeded(_) => (SetupState::Done, ActionView::Finish),
            _ => fail,
        },
        SetupState::Done => (SetupState::Done, ActionView::Finish),
        SetupState::Failed => (SetupState::Failed, ActionView::Fail(reply_message(reply))),
    }
}

fn message_of_reply(reply: SetupReply) -> (r: String)
    ensures
        r@ == reply_message(reply),
{
    match reply {
        SetupReply::Succeeded(_) => String::new(),
        SetupReply::NotFound(m) => m,
        SetupReply::AlreadyExists(m) => m,
        SetupReply::Failed(m) => m,
    }
}

/// The setup starts by describing the bucket.
pub fn setup_start() -> (r: (SetupState, SetupAction))
    ensures
        r.0 == SetupState::CheckingBucket,
        r.1@ == ActionView::DescribeBucket,
{
    (SetupState::CheckingBucket, SetupAction::DescribeBucket)
}

/// Decides what follows `reply` in state `state`: an existing bucket is
/// used as it is, a missing one is created (or described again if another
/// process created it first) and polled until active, at most
/// `MAX_BUCKET_POLLS` times; then the index is created, or described where
/// it exists already.
pub fn setup_step(state: SetupState, reply: SetupReply) -> (r: (SetupState, SetupAction))
    requires
        setup_wf(state),
    ensures
        r.0 == setup_step_spec(state, reply).0,
        r.1@ == setup_step_spec(state, reply).1,
        setup_wf(r.0),
{
    let succeeded = match &reply {
        SetupReply::Succeeded(_) => true,
        _ => false,
    };
    let status = match &reply {
        SetupReply::Succeeded(s) => *s,
        _ => None,
    };
    let not_found = match &reply {
        SetupReply::NotFound(_) => true,
        _ => false,
    };
    let already_exists = match &reply {
        SetupReply::AlreadyExists(_) => true,
        _ => false,
    };
    match state {
        SetupState::CheckingBucket => {
            if succeeded {
                (SetupState::CreatingIndex, SetupAction::CreateIndex)
            } else if not_found {
                (SetupState::CreatingBucket, SetupAction::CreateBucket)
            } else {
                (SetupState::Failed, SetupAction::Fail(message_of_reply(reply)))
            }
        },
        SetupState::CreatingBucket => {
            if succeeded {
                (SetupState::WaitingForBucket { polls: 1 }, SetupAction::DescribeBucket)
            } else if already_exists {
                (SetupState::RecheckingBucket, SetupAction::DescribeBucket)
            } else {
                (SetupState::Failed, SetupAction::Fail(message_of_reply(reply)))
            }
        },
        SetupState::RecheckingBucket => {
            if succeeded {
                (SetupState::CreatingIndex, SetupAction::CreateIndex)
            } else {
                (SetupState::Failed, SetupAction::Fail(message_of_reply(reply)))
            }
        },
        SetupState::WaitingForBucket { polls } => {
            if !succeeded {
                (SetupState::Failed, SetupAction::Fail(message_of_reply(reply)))
            } else {
                match status {
                    Some(BucketStatus::Active) => (SetupState::CreatingIndex, SetupAction::CreateIndex),
                    Some(BucketStatus::Failed) => (
                        SetupState::Failed,
                        SetupAction::Fail("Bucket creation failed".to_string()),
                    ),
                    _ => {
                        if polls < MAX_BUCKET_POLLS {
                            (
                                SetupState::WaitingForBucket { polls: polls + 1 },
                                SetupAction::WaitThenDescribeBucket(BUCKET_POLL_MS),
                            )
                        } else {
                            (
                                SetupState::Failed,
                                SetupAction::Fail(
                                    "Timeout waiting for bucket to become active".to_string(),
                                ),
                            )
                        }
                    },
                }
            }
        },
        SetupState::CreatingIndex => {
            if succeeded {
                (SetupState::VerifyingIndex, SetupAction::WaitThenDescribeIndex(INDEX_SETTLE_MS))
            } else if already_exists {
                (SetupState::DescribingIndex, SetupAction::DescribeIndex)
            } else {
                (SetupState::Failed, SetupAction::Fail(message_of_reply(reply)))
            }
        },
        SetupState::VerifyingIndex => {
            if succeeded {
                (SetupState::Done, SetupAction::Finish)
            } else {
                let mut m = String::from_str("Failed to verify index creation: ");
                let detail = message_of_reply(reply);
                m.append(detail.as_str());
                (SetupState::Failed, SetupAction::Fail(m))
            }
        },
        SetupState::DescribingIndex => {
            if succeeded {
                (SetupState::Done, SetupAction::Finish)
            } else {
                (SetupState::Failed, SetupAction::Fail(message_of_reply(reply)))
            }
        },
        SetupState::Done => (SetupState::Done, SetupAction::Finish),
        SetupState::Failed => (SetupState::Failed, SetupAction::Fail(message_of_reply(reply))),
    }
}

} // verus!
