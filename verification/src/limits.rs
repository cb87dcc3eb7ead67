//! The number of open files that the process asks for.
use vstd::prelude::*;

use crate::text::{decimal, join3, say1, say2};

verus! {

/// The soft limit on open files that the process would like to have.
pub const TARGET_NOFILE: u64 = 65_536;

/// The soft limit to ask for: the target as far as the hard limit allows it, and never less
/// than the soft limit in force.
pub open spec fn desired_limit(soft: u64, hard: u64) -> u64 {
    let reachable = if TARGET_NOFILE < hard {
        TARGET_NOFILE
    } else {
        hard
    };
    if soft < reachable {
        reachable
    } else {
        soft
    }
}

/// The soft limit to ask for.
pub fn desired_soft_limit(soft: u64, hard: u64) -> (limit: u64)
    ensures
        limit == desired_limit(soft, hard),
{
    let reachable: u64 = if TARGET_NOFILE < hard {
        TARGET_NOFILE
    } else {
        hard
    };
    if soft < reachable {
        reachable
    } else {
        soft
    }
}

/// The soft limit that has to be set, if the one in force is not enough.
pub fn soft_limit_change(soft: u64, hard: u64) -> (change: Option<u64>)
    ensures
        change == (if desired_limit(soft, hard) == soft {
            None
        } else {
            Some(desired_limit(soft, hard))
        }),
{
    let desired: u64 = desired_soft_limit(soft, hard);
    if desired != soft {
        Some(desired)
    } else {
        None
    }
}

/// What the user is told once the limit was raised as far as it can be, or could not be raised.
pub open spec fn limit_warning(outcome: Result<u64, Seq<char>>) -> Option<Seq<char>> {
    match outcome {
        Ok(actual) => if actual < TARGET_NOFILE {
            Some(
                "warning: file descriptor soft limit is "@ + decimal(actual as nat)
                    + "; requested "@ + decimal(TARGET_NOFILE as nat)
                    + ", limited by the hard limit"@,
            )
        } else {
            None
        },
        Err(error) => Some(
            ("warning: unable to raise file descriptor soft limit to "@ + decimal(
                TARGET_NOFILE as nat,
            ) + ": "@) + error + ""@,
        ),
    }
}

/// What the user is told once the limit was raised as far as it can be, or could not be raised.
pub fn prepare_warning(outcome: Result<u64, String>) -> (warning: Option<String>)
    ensures
        match (warning, limit_warning(crate::inputs::said(outcome))) {
            (Some(told), Some(text)) => told@ == text,
            (None, None) => true,
            _ => false,
        },
{
    match outcome {
        Ok(actual) => if actual < TARGET_NOFILE {
            Some(
                say2(
                    "warning: file descriptor soft limit is ",
                    actual,
                    "; requested ",
                    TARGET_NOFILE,
                    ", limited by the hard limit",
                ),
            )
        } else {
            None
        },
        Err(error) => {
            let start = say1(
                "warning: unable to raise file descriptor soft limit to ",
                TARGET_NOFILE,
                ": ",
            );
            Some(join3(start.as_str(), error.as_str(), ""))
        },
    }
}

/// The limit is never lowered, never raised over the hard limit or the target, and asking again
/// with the limit that was granted changes nothing.
pub proof fn law_limit_is_stable(soft: u64, hard: u64)
    ensures
        desired_limit(soft, hard) >= soft,
        desired_limit(soft, hard) > soft ==> desired_limit(soft, hard) <= hard && desired_limit(
            soft,
            hard,
        ) <= TARGET_NOFILE,
        desired_limit(desired_limit(soft, hard), hard) == desired_limit(soft, hard),
{
}

} // verus!
