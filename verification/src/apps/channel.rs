//! Release channels and their diffs.
use vstd::prelude::*;
use crate::database::repo::{ChannelRow, DiffRow};

verus! {

/// A release channel.
pub struct Channel {
    pub guid: u128,
    pub tag_name: String,
    pub latest_version: String,
    /// sha256 of the full (raw) package.
    pub raw_sha256: String,
    pub raw_size: u64,
    /// Clients prefer this channel; without one they take the first listed.
    pub is_default: bool,
}

/// A diff: the patch that brings `base_sha256` up to the channel's latest version.
pub struct Diff {
    pub base_sha256: String,
    pub patch_sha256: String,
    pub algo: Option<String>,
    pub size: u64,
}

/// What a client is told of an update: the target channel and the diffs it may use.
pub struct Update {
    pub channel: Channel,
    pub diffs: Vec<Diff>,
}

/// `c` is the channel that `row` describes (sizes taken as `u64`, as `as` converts them).
pub open spec fn channel_of_row(c: Channel, row: ChannelRow) -> bool {
    &&& c.guid == row.guid
    &&& c.tag_name@ == row.tag_name@
    &&& c.latest_version@ == row.latest_version@
    &&& c.raw_sha256@ == row.raw_sha256@
    &&& c.raw_size == row.raw_size as u64
    &&& c.is_default == row.is_default
}

/// `d` is the diff that `row` describes.
pub open spec fn diff_of_row(d: Diff, row: DiffRow) -> bool {
    &&& d.base_sha256@ == row.base_sha256@
    &&& d.patch_sha256@ == row.patch_sha256@
    &&& d.algo == row.algo
    &&& d.size == row.size as u64
}

impl Channel {
    /// The channel a row of `channel` describes.
    pub fn from_row(row: ChannelRow) -> (c: Channel)
        ensures
            channel_of_row(c, row),
    {
        Channel {
            guid: row.guid,
            tag_name: row.tag_name,
            latest_version: row.latest_version,
            raw_sha256: row.raw_sha256,
            raw_size: row.raw_size as u64,
            is_default: row.is_default,
        }
    }
}

impl Diff {
    /// The diff a row of `diff` describes.
    pub fn from_row(row: DiffRow) -> (d: Diff)
        ensures
            diff_of_row(d, row),
    {
        Diff {
            base_sha256: row.base_sha256,
            patch_sha256: row.patch_sha256,
            algo: row.algo,
            size: row.size as u64,
        }
    }
}

/// The channels of `rows`, in the same order.
pub fn channels_of_rows(rows: Vec<ChannelRow>) -> (out: Vec<Channel>)
    ensures
        out@.len() == rows@.len(),
        forall|i: int| 0 <= i < rows@.len() ==> channel_of_row(#[trigger] out@[i], rows@[i]),
{
    let mut out: Vec<Channel> = Vec::new();
    let mut rest = rows;
    let ghost all = rest@;
    while rest.len() > 0
        invariant
            out@.len() <= all.len(),
            rest@ == all.subrange(out@.len() as int, all.len() as int),
            forall|i: int| 0 <= i < out@.len() ==> channel_of_row(#[trigger] out@[i], all[i]),
        decreases rest@.len(),
    {
        let row = rest.remove(0);
        proof {
            assert(row == all[out@.len() as int]);
        }
        out.push(Channel::from_row(row));
    }
    out
}

/// The update for a channel `row` with its diff rows.
pub fn update_of(row: ChannelRow, diffs: Vec<DiffRow>) -> (u: Update)
    ensures
        channel_of_row(u.channel, row),
        u.diffs@.len() == diffs@.len(),
        forall|i: int| 0 <= i < diffs@.len() ==> diff_of_row(#[trigger] u.diffs@[i], diffs@[i]),
{
    let mut out: Vec<Diff> = Vec::new();
    let mut rest = diffs;
    let ghost all = rest@;
    while rest.len() > 0
        invariant
            out@.len() <= all.len(),
            rest@ == all.subrange(out@.len() as int, all.len() as int),
            forall|i: int| 0 <= i < out@.len() ==> diff_of_row(#[trigger] out@[i], all[i]),
        decreases rest@.len(),
    {
        let d = rest.remove(0);
        proof {
            assert(d == all[out@.len() as int]);
        }
        out.push(Diff::from_row(d));
    }
    Update { channel: Channel::from_row(row), diffs: out }
}

} // verus!
