use crate::identity::Identity;
use crate::record::{stake_outcome, unstake_outcome, StakeRecord};
use vstd::prelude::*;

verus! {

/// One request made of a stake record.
pub enum Request {
    Stake { caller: Identity, amount: u64, now: u64 },
    Unstake { caller: Identity, amount: u64, now: u64 },
}

/// The record after `request`: changed as the request asks where it is
/// granted, unchanged where it is refused.
pub open spec fn after(record: StakeRecord, request: Request, allow_top_up: bool) -> StakeRecord {
    match request {
        Request::Stake { caller, amount, now } => match stake_outcome(
            record,
            caller,
            amount,
            now,
            allow_top_up,
        ) {
            Ok(next) => next,
            Err(_) => record,
        },
        Request::Unstake { caller, amount, now } => match unstake_outcome(
            record,
            caller,
            amount,
            now,
        ) {
            Ok((next, _)) => next,
            Err(_) => record,
        },
    }
}

/// The amount that `request` adds to the stake of `record`: that of a granted
/// stake, and nothing otherwise.
pub open spec fn staked_by(record: StakeRecord, request: Request, allow_top_up: bool) -> nat {
    match request {
        Request::Stake { caller, amount, now } => if stake_outcome(
            record,
            caller,
            amount,
            now,
            allow_top_up,
        ) is Ok {
            amount as nat
        } else {
            0
        },
        Request::Unstake { .. } => 0,
    }
}

/// The principal that `request` takes out of the stake of `record`: that of a
/// granted unstake, and nothing otherwise.
pub open spec fn unstaked_by(record: StakeRecord, request: Request) -> nat {
    match request {
        Request::Stake { .. } => 0,
        Request::Unstake { caller, amount, now } => if unstake_outcome(
            record,
            caller,
            amount,
            now,
        ) is Ok {
            amount as nat
        } else {
            0
        },
    }
}

/// The record after all of `requests`, made in order.
pub open spec fn replay(
    record: StakeRecord,
    requests: Seq<Request>,
    allow_top_up: bool,
) -> StakeRecord
    decreases requests.len(),
{
    if requests.len() == 0 {
        record
    } else {
        after(replay(record, requests.drop_last(), allow_top_up), requests.last(), allow_top_up)
    }
}

/// The sum of the amounts staked by `requests`.
pub open spec fn total_staked(
    record: StakeRecord,
    requests: Seq<Request>,
    allow_top_up: bool,
) -> nat
    decreases requests.len(),
{
    if requests.len() == 0 {
        0
    } else {
        total_staked(record, requests.drop_last(), allow_top_up) + staked_by(
            replay(record, requests.drop_last(), allow_top_up),
            requests.last(),
            allow_top_up,
        )
    }
}

/// The sum of the principal unstaked by `requests`.
pub open spec fn total_unstaked(
    record: StakeRecord,
    requests: Seq<Request>,
    allow_top_up: bool,
) -> nat
    decreases requests.len(),
{
    if requests.len() == 0 {
        0
    } else {
        total_unstaked(record, requests.drop_last(), allow_top_up) + unstaked_by(
            replay(record, requests.drop_last(), allow_top_up),
            requests.last(),
        )
    }
}

/// Whatever is asked of a record, in whatever order, its principal is what it
/// held at first, plus all that was staked, less all the principal that was
/// unstaked; and never less than nothing.
pub proof fn lemma_principal_is_staked_less_unstaked(
    record: StakeRecord,
    requests: Seq<Request>,
    allow_top_up: bool,
)
    ensures
        replay(record, requests, allow_top_up).principal == record.principal + total_staked(
            record,
            requests,
            allow_top_up,
        ) - total_unstaked(record, requests, allow_top_up),
        total_unstaked(record, requests, allow_top_up) <= record.principal + total_staked(
            record,
            requests,
            allow_top_up,
        ),
    decreases requests.len(),
{
    if requests.len() > 0 {
        lemma_principal_is_staked_less_unstaked(record, requests.drop_last(), allow_top_up);
    }
}

/// Whatever is asked of a well-formed record, it stays well-formed, and its
/// staker and its asset stay what they were.
pub proof fn lemma_record_keeps_its_shape(
    record: StakeRecord,
    requests: Seq<Request>,
    allow_top_up: bool,
)
    requires
        record.wf(),
    ensures
        replay(record, requests, allow_top_up).wf(),
        replay(record, requests, allow_top_up).staker == record.staker,
        replay(record, requests, allow_top_up).asset == record.asset,
    decreases requests.len(),
{
    if requests.len() > 0 {
        lemma_record_keeps_its_shape(record, requests.drop_last(), allow_top_up);
    }
}

/// The tick at which `request` is made.
pub open spec fn tick_of(request: Request) -> u64 {
    match request {
        Request::Stake { now, .. } => now,
        Request::Unstake { now, .. } => now,
    }
}

/// No request is made at a tick behind the checkpoint that it finds.
pub open spec fn in_time(record: StakeRecord, requests: Seq<Request>, allow_top_up: bool) -> bool
    decreases requests.len(),
{
    requests.len() > 0 ==> {
        &&& in_time(record, requests.drop_last(), allow_top_up)
        &&& replay(record, requests.drop_last(), allow_top_up).checkpoint <= tick_of(
            requests.last(),
        )
    }
}

/// Where no request is made at a tick behind the checkpoint that it finds,
/// the checkpoint never goes back.
pub proof fn lemma_checkpoint_never_goes_back(
    record: StakeRecord,
    requests: Seq<Request>,
    allow_top_up: bool,
)
    requires
        in_time(record, requests, allow_top_up),
    ensures
        record.checkpoint <= replay(record, requests, allow_top_up).checkpoint,
    decreases requests.len(),
{
    if requests.len() > 0 {
        lemma_checkpoint_never_goes_back(record, requests.drop_last(), allow_top_up);
    }
}

} // verus!
