//! Points in time as records, messages and files carry them.

use crate::arith::{clamp_i64, i64_from_u64};
use crate::model::{Duration, ProtoTimestamp, Timestamp, NANOS_PER_SECOND};
use crate::status::{fails_with, invalid_argument, Status};
use vstd::prelude::*;

verus! {

/// Encode one `(seconds, nanos)` pair as a message timestamp.
pub fn proto_timestamp_from_parts(seconds: i64, nanos: i64) -> (outcome: Result<
    ProtoTimestamp,
    Status,
>)
    ensures
        if 0 <= nanos < NANOS_PER_SECOND {
            outcome matches Ok(timestamp) && timestamp.seconds == seconds && timestamp.nanos == nanos
        } else {
            fails_with(
                outcome,
                invalid_argument("timestamp nanoseconds must be below one second"@),
            )
        },
{
    if nanos < 0 || nanos >= NANOS_PER_SECOND as i64 {
        return Err(Status::invalid_argument("timestamp nanoseconds must be below one second"));
    }
    Ok(ProtoTimestamp { seconds, nanos: nanos as i32 })
}

/// The message timestamp of a file's modification time.
pub open spec fn file_timestamp(seconds: u64, nanos: u32) -> ProtoTimestamp {
    ProtoTimestamp {
        seconds: clamp_i64(seconds as int) as i64,
        nanos: (if nanos <= i32::MAX {
            nanos as int
        } else {
            i32::MAX as int
        }) as i32,
    }
}

/// Encode one file mtime as a message timestamp.
pub fn proto_timestamp_from_file_parts(seconds: u64, nanos: u32) -> (timestamp: ProtoTimestamp)
    ensures
        timestamp == file_timestamp(seconds, nanos),
{
    let short: i32 = if nanos <= i32::MAX as u32 {
        nanos as i32
    } else {
        i32::MAX
    };
    ProtoTimestamp { seconds: i64_from_u64(seconds), nanos: short }
}

/// Whether `outcome` is the modification time that `timestamp` encodes.
pub open spec fn decodes_timestamp(
    timestamp: Option<ProtoTimestamp>,
    outcome: Result<(u64, u32), Status>,
) -> bool {
    match timestamp {
        None => fails_with(outcome, invalid_argument("file modified_at is required"@)),
        Some(at) => if at.seconds < 0 {
            fails_with(outcome, invalid_argument("file modified_at must not be negative"@))
        } else if at.nanos < 0 || at.nanos >= NANOS_PER_SECOND {
            fails_with(
                outcome,
                invalid_argument("file modified_at nanos must be below one second"@),
            )
        } else {
            outcome matches Ok(parts) && parts.0 == at.seconds && parts.1 == at.nanos
        },
    }
}

/// Decode one optional message timestamp into integer parts.
pub fn timestamp_parts(timestamp: Option<ProtoTimestamp>) -> (outcome: Result<(u64, u32), Status>)
    ensures
        decodes_timestamp(timestamp, outcome),
{
    match timestamp {
        None => Err(Status::invalid_argument("file modified_at is required")),
        Some(at) => {
            if at.seconds < 0 {
                return Err(Status::invalid_argument("file modified_at must not be negative"));
            }
            if at.nanos < 0 || at.nanos >= NANOS_PER_SECOND as i32 {
                return Err(
                    Status::invalid_argument("file modified_at nanos must be below one second"),
                );
            }
            Ok((at.seconds as u64, at.nanos as u32))
        },
    }
}

/// Decode one optional stored timestamp into integer parts.
pub fn optional_timestamp_parts(timestamp: Option<ProtoTimestamp>) -> (parts: Option<(i64, i64)>)
    ensures
        match timestamp {
            None => parts is None,
            Some(at) => parts == Some((at.seconds, at.nanos as i64)),
        },
{
    match timestamp {
        None => None,
        Some(at) => Some((at.seconds, at.nanos as i64)),
    }
}

/// The whole milliseconds of a span of time.
pub open spec fn millis_of(duration: Duration) -> int {
    duration.secs * 1000 + duration.nanos as int / 1_000_000
}

/// Convert one duration to a saturated millisecond count for local RPC output.
pub fn duration_to_millis_i64(duration: Duration) -> (millis: i64)
    ensures
        millis == clamp_i64(millis_of(duration)),
{
    let total: u128 = duration.secs as u128 * 1000 + (duration.nanos / 1_000_000) as u128;
    if total > i64::MAX as u128 {
        i64::MAX
    } else {
        total as i64
    }
}

/// The seconds of a point in time, as messages count them.
pub open spec fn seconds_of(now: Timestamp) -> int {
    clamp_i64(now.secs as int)
}

/// Return the seconds of a point in time, as messages count them.
pub fn now_secs(now: Timestamp) -> (secs: i64)
    ensures
        secs == seconds_of(now),
        secs >= 0,
{
    i64_from_u64(now.secs)
}

/// Whether `a` lies before `b`.
pub open spec fn timestamp_before(a: Timestamp, b: Timestamp) -> bool {
    a.secs < b.secs || (a.secs == b.secs && a.nanos < b.nanos)
}

/// Report whether `a` lies before `b`.
pub fn timestamp_less(a: Timestamp, b: Timestamp) -> (less: bool)
    ensures
        less == timestamp_before(a, b),
{
    a.secs < b.secs || (a.secs == b.secs && a.nanos < b.nanos)
}

/// A modification time survives being encoded and decoded.
pub proof fn law_file_time_round_trip(
    seconds: u64,
    nanos: u32,
    outcome: Result<(u64, u32), Status>,
)
    requires
        seconds <= i64::MAX,
        nanos < NANOS_PER_SECOND,
        decodes_timestamp(Some(file_timestamp(seconds, nanos)), outcome),
    ensures
        outcome matches Ok(parts) && parts.0 == seconds && parts.1 == nanos,
{
}

/// Parts make a message timestamp exactly when the nanoseconds stay below one
/// second, and the parts of a file time come back as they were. What was
/// decoded is what the message said.
pub proof fn law_parts_survive(
    seconds: i64,
    nanos: i64,
    encoded: Result<ProtoTimestamp, Status>,
    decoded: Result<(u64, u32), Status>,
    stored: Option<(i64, i64)>,
)
    requires
        call_ensures(proto_timestamp_from_parts, (seconds, nanos), encoded),
        encoded matches Ok(at) ==> call_ensures(timestamp_parts, (Some(at),), decoded)
            && call_ensures(optional_timestamp_parts, (Some(at),), stored),
    ensures
        encoded is Ok <==> 0 <= nanos < 1_000_000_000,
        encoded is Ok ==> {
            &&& stored == Some((seconds, nanos))
            &&& decoded is Ok <==> seconds >= 0
            &&& decoded matches Ok(parts) ==> parts.0 == seconds && parts.1 == nanos
        },
{
}

/// A file time is decoded exactly when it is there, is not negative and its
/// nanoseconds stay below one second.
pub proof fn law_only_sound_file_times_are_decoded(
    timestamp: Option<ProtoTimestamp>,
    outcome: Result<(u64, u32), Status>,
)
    requires
        call_ensures(timestamp_parts, (timestamp,), outcome),
    ensures
        outcome is Ok <==> (timestamp matches Some(at) && at.seconds >= 0 && 0 <= at.nanos
            < 1_000_000_000),
        outcome matches Ok(parts) ==> timestamp == Some(
            ProtoTimestamp { seconds: parts.0 as i64, nanos: parts.1 as i32 },
        ),
{
}

/// A file time keeps its parts as far as messages can hold them.
pub proof fn law_file_time_keeps_its_parts(seconds: u64, nanos: u32, timestamp: ProtoTimestamp)
    requires
        call_ensures(proto_timestamp_from_file_parts, (seconds, nanos), timestamp),
    ensures
        timestamp.seconds >= 0,
        timestamp.nanos >= 0,
        seconds <= i64::MAX ==> timestamp.seconds == seconds,
        seconds > i64::MAX ==> timestamp.seconds == i64::MAX,
        nanos <= i32::MAX ==> timestamp.nanos == nanos,
        nanos > i32::MAX ==> timestamp.nanos == i32::MAX,
{
}

/// Milliseconds are counted in full: no more than have passed, and less than
/// one is cut off. A point in time shows its whole seconds.
pub proof fn law_milliseconds_are_counted_in_full(
    duration: Duration,
    millis: i64,
    now: Timestamp,
    seconds: i64,
)
    requires
        call_ensures(duration_to_millis_i64, (duration,), millis),
        call_ensures(now_secs, (now,), seconds),
    ensures
        millis < i64::MAX ==> millis * 1_000_000 <= duration.secs * 1_000_000_000 + duration.nanos
            < (millis + 1) * 1_000_000,
        millis == i64::MAX ==> i64::MAX * 1_000_000 <= duration.secs * 1_000_000_000
            + duration.nanos,
        millis >= 0,
        now.secs <= i64::MAX ==> seconds == now.secs,
        now.secs > i64::MAX ==> seconds == i64::MAX,
{
    let nanos = duration.nanos as int;
    assert(nanos / 1_000_000 * 1_000_000 <= nanos < nanos / 1_000_000 * 1_000_000 + 1_000_000);
}

/// Of two points in time that are not the same one lies before the other.
pub proof fn law_points_in_time_stand_in_order(
    a: Timestamp,
    b: Timestamp,
    ab: bool,
    ba: bool,
)
    requires
        call_ensures(timestamp_less, (a, b), ab),
        call_ensures(timestamp_less, (b, a), ba),
        a.nanos < 1_000_000_000,
        b.nanos < 1_000_000_000,
    ensures
        ab <==> a.secs * 1_000_000_000 + a.nanos < b.secs * 1_000_000_000 + b.nanos,
        !(ab && ba),
        !ab && !ba ==> a.secs == b.secs && a.nanos == b.nanos,
{
}

} // verus!
