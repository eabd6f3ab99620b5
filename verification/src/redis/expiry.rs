//! Times to live. The host counts them in milliseconds; callers may give them
//! as a `time::Duration`.
use crate::error::RModError;
use crate::redis::handle_status;
use crate::redis::key::RedisKeyWritable;
use crate::redis::outcome;
use crate::redis::raw::Exchange;
use crate::redis::raw::Host;
use crate::redis::raw::Status;
use crate::redis::status_result;
use crate::redis::Redis;
use vstd::prelude::*;

verus! {

/// A span of time with a sign, as the `time` crate has it.
#[verifier::external_type_specification]
#[verifier::external_body]
pub struct ExDuration(time::Duration);

/// Whether a duration lies between the least and the greatest duration that
/// `time` means to hold: what `Duration::checked_add` tells of its sum.
pub uninterp spec fn duration_in_range(expire: time::Duration) -> bool;

/// The whole milliseconds of a duration: what `Duration::num_milliseconds`
/// returns.
pub uninterp spec fn duration_milliseconds(expire: time::Duration) -> i64;

/// `time::Duration::checked_add`, with a zero duration added. The sum with
/// zero is the duration itself, and `checked_add` hands a sum back only where
/// it lies between `Duration::min_value()` and `Duration::max_value()`.
#[verifier::external_body]
fn in_range(expire: &time::Duration) -> (within: bool)
    ensures
        within == duration_in_range(*expire),
{
    expire.checked_add(&time::Duration::zero()).is_some()
}

/// `time::Duration::num_milliseconds`. On a duration within the range its
/// arithmetic cannot overflow; arithmetic on durations can leave the range,
/// and such a duration is not admitted here.
#[verifier::external_body]
fn num_milliseconds(expire: &time::Duration) -> (millis: i64)
    requires
        duration_in_range(*expire),
    ensures
        millis == duration_milliseconds(*expire),
{
    expire.num_milliseconds()
}

impl RedisKeyWritable {
    /// Sets the time to live of the key to `millis` milliseconds. The host
    /// refuses where the key is empty.
    pub fn set_expire_milliseconds<H: Host>(&self, r: &mut Redis<H>, millis: i64) -> (res: Result<
        (),
        RModError,
    >)
        ensures
            exists|status: Status|
                {
                    &&& final(r).after(
                        old(r),
                        seq![Exchange::SetExpire { key: self.handle(), expire: millis, status }],
                    )
                    &&& outcome(res) == #[trigger] status_result(
                        status,
                        "Error while setting key expire"@,
                    )
                },
            final(r).outstanding() == old(r).outstanding(),
    {
        let status = r.host_set_expire(self.raw_key(), millis);
        proof {
            let e = Exchange::SetExpire { key: self.handle(), expire: millis, status };
            assert(old(r).trace().push(e) =~= old(r).trace() + seq![e]);
        }
        handle_status(status, "Error while setting key expire")
    }

    /// Sets the time to live of the key to the whole milliseconds of
    /// `expire`. The host refuses where the key is empty.
    pub fn set_expire<H: Host>(&self, r: &mut Redis<H>, expire: time::Duration) -> (res: Result<
        (),
        RModError,
    >)
        requires
            duration_in_range(expire),
        ensures
            exists|status: Status|
                {
                    &&& final(r).after(
                        old(r),
                        seq![
                            Exchange::SetExpire {
                                key: self.handle(),
                                expire: duration_milliseconds(expire),
                                status,
                            },
                        ],
                    )
                    &&& outcome(res) == #[trigger] status_result(
                        status,
                        "Error while setting key expire"@,
                    )
                },
            final(r).outstanding() == old(r).outstanding(),
    {
        let millis = num_milliseconds(&expire);
        self.set_expire_milliseconds(r, millis)
    }

    /// Sets the time to live as `set_expire` does, for any duration: for one
    /// that is out of range nothing is handed to the host, and the answer is
    /// `None`.
    pub fn try_set_expire<H: Host>(&self, r: &mut Redis<H>, expire: time::Duration) -> (res: Option<
        Result<(), RModError>,
    >)
        ensures
            !duration_in_range(expire) ==> res is None && final(r).after(old(r), seq![]),
            duration_in_range(expire) ==> res is Some && exists|status: Status|
                {
                    &&& final(r).after(
                        old(r),
                        seq![
                            Exchange::SetExpire {
                                key: self.handle(),
                                expire: duration_milliseconds(expire),
                                status,
                            },
                        ],
                    )
                    &&& outcome(res->Some_0) == #[trigger] status_result(
                        status,
                        "Error while setting key expire"@,
                    )
                },
            final(r).outstanding() == old(r).outstanding(),
    {
        if in_range(&expire) {
            Some(self.set_expire(r, expire))
        } else {
            proof {
                assert(old(r).trace() + Seq::<Exchange>::empty() =~= old(r).trace());
            }
            None
        }
    }
}

} // verus!
