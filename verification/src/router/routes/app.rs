//! Client endpoints; the app is named by the `X-App-Id` header.
use vstd::prelude::*;
use crate::apps::channel::{Channel, Diff, Update};
use crate::apps::manager::AppManager;
use crate::common::ids::{parse_uuid, uuid_display, uuid_parsed, uuid_text};
use crate::common::text::join2;
use crate::database::repo::AnnounceRow;
use crate::router::error::{AppError, bad_request, not_found};

verus! {

/// A channel as clients see it.
pub struct ChannelView {
    pub guid: u128,
    pub tag_name: String,
    pub latest_version: String,
    pub raw_sha256: String,
    pub raw_size: u64,
    /// Clients prefer this one; without one they take the first listed.
    pub is_default: bool,
}

/// A diff as clients see it.
pub struct DiffView {
    pub base_sha256: String,
    pub patch_sha256: String,
    pub algo: Option<String>,
    pub size: u64,
}

/// An update as clients see it: a client compares its local version's sha256 with the
/// diffs' bases and downloads the matching patch, or else the raw package.
pub struct UpdateView {
    pub guid: u128,
    pub tag_name: String,
    pub version: String,
    pub raw_sha256: String,
    pub raw_size: u64,
    pub diffs: Vec<DiffView>,
}

/// An announcement as clients see it (times in microseconds since the Unix epoch).
pub struct AnnounceView {
    pub guid: u128,
    pub title: String,
    pub content: String,
    /// Start of display; `None` is unbounded.
    pub starts_at: Option<i64>,
    /// End of display; `None` is unbounded.
    pub expires_at: Option<i64>,
    pub created_at: i64,
    pub updated_at: i64,
}

/// `v` shows channel `c`.
pub open spec fn shows_channel(v: ChannelView, c: Channel) -> bool {
    v.guid == c.guid && v.tag_name == c.tag_name && v.latest_version == c.latest_version
        && v.raw_sha256 == c.raw_sha256 && v.raw_size == c.raw_size && v.is_default == c.is_default
}

/// `v` shows diff `d`.
pub open spec fn shows_diff(v: DiffView, d: Diff) -> bool {
    v.base_sha256 == d.base_sha256 && v.patch_sha256 == d.patch_sha256 && v.algo == d.algo
        && v.size == d.size
}

/// `v` shows update `u`.
pub open spec fn shows_update(v: UpdateView, u: Update) -> bool {
    &&& v.guid == u.channel.guid && v.tag_name == u.channel.tag_name
    &&& v.version == u.channel.latest_version && v.raw_sha256 == u.channel.raw_sha256
    &&& v.raw_size == u.channel.raw_size
    &&& v.diffs@.len() == u.diffs@.len()
    &&& forall|i: int| 0 <= i < v.diffs@.len() ==> shows_diff(#[trigger] v.diffs@[i], u.diffs@[i])
}

/// `v` shows announcement row `r`.
pub open spec fn shows_announce(v: AnnounceView, r: AnnounceRow) -> bool {
    v.guid == r.guid && v.title == r.title && v.content == r.content && v.starts_at == r.starts_at
        && v.expires_at == r.expires_at && v.created_at == r.created_at && v.updated_at
        == r.updated_at
}

/// The client views of `channels`, in order.
pub fn channel_views(channels: Vec<Channel>) -> (out: Vec<ChannelView>)
    ensures
        out@.len() == channels@.len(),
        forall|i: int| 0 <= i < out@.len() ==> shows_channel(#[trigger] out@[i], channels@[i]),
{
    let ghost all = channels@;
    let mut rest = channels;
    let mut out: Vec<ChannelView> = Vec::new();
    while rest.len() > 0
        invariant
            out@.len() <= all.len(),
            rest@ == all.subrange(out@.len() as int, all.len() as int),
            forall|i: int| 0 <= i < out@.len() ==> shows_channel(#[trigger] out@[i], all[i]),
        decreases rest@.len(),
    {
        let c = rest.remove(0);
        assert(c == all[out@.len() as int]);
        out.push(ChannelView {
            guid: c.guid,
            tag_name: c.tag_name,
            latest_version: c.latest_version,
            raw_sha256: c.raw_sha256,
            raw_size: c.raw_size,
            is_default: c.is_default,
        });
    }
    out
}

/// The channel guid of a request path; an unparsable one is a bad request (answered in
/// the envelope, not as the framework's plain-text rejection).
pub fn parse_channel_guid(raw: &str) -> (r: Result<u128, AppError>)
    ensures
        match uuid_parsed(raw@) {
            Some(id) => r == Ok::<u128, AppError>(id),
            None => r matches Err(e) && bad_request(e, "invalid channel guid: "@ + raw@),
        },
{
    match parse_uuid(raw) {
        Ok(id) => Ok(id),
        Err(_) => Err(AppError::BadRequest(join2("invalid channel guid: ", raw))),
    }
}

/// The client view of the update of channel `guid`; no such channel is `NotFound`.
pub fn update_view(guid: u128, update: Option<Update>) -> (r: Result<UpdateView, AppError>)
    ensures
        match update {
            None => r matches Err(e) && not_found(e, "channel "@ + uuid_display(guid)),
            Some(u) => r matches Ok(v) && shows_update(v, u),
        },
{
    let u = match update {
        None => {
            let text = uuid_text(guid);
            return Err(AppError::NotFound(join2("channel ", text.as_str())));
        },
        Some(u) => u,
    };
    let ghost all = u.diffs@;
    let mut rest = u.diffs;
    let mut diffs: Vec<DiffView> = Vec::new();
    while rest.len() > 0
        invariant
            diffs@.len() <= all.len(),
            rest@ == all.subrange(diffs@.len() as int, all.len() as int),
            forall|i: int| 0 <= i < diffs@.len() ==> shows_diff(#[trigger] diffs@[i], all[i]),
        decreases rest@.len(),
    {
        let d = rest.remove(0);
        assert(d == all[diffs@.len() as int]);
        diffs.push(DiffView {
            base_sha256: d.base_sha256,
            patch_sha256: d.patch_sha256,
            algo: d.algo,
            size: d.size,
        });
    }
    let c = u.channel;
    Ok(UpdateView {
        guid: c.guid,
        tag_name: c.tag_name,
        version: c.latest_version,
        raw_sha256: c.raw_sha256,
        raw_size: c.raw_size,
        diffs,
    })
}

/// A disabled or unknown app (absent from the cache) is `NotFound`, as for channels.
pub fn require_app(apps: &AppManager, id: u128) -> (r: Result<(), AppError>)
    ensures
        apps@.contains_key(id) ==> r is Ok,
        !apps@.contains_key(id) ==> (r matches Err(e) && not_found(e, uuid_display(id))),
{
    match apps.get(id) {
        Some(_) => Ok(()),
        None => Err(AppError::NotFound(uuid_text(id))),
    }
}

/// The client views of announcement rows (the visible ones, as the repository lists them).
pub fn announce_views(rows: Vec<AnnounceRow>) -> (out: Vec<AnnounceView>)
    ensures
        out@.len() == rows@.len(),
        forall|i: int| 0 <= i < out@.len() ==> shows_announce(#[trigger] out@[i], rows@[i]),
{
    let ghost all = rows@;
    let mut rest = rows;
    let mut out: Vec<AnnounceView> = Vec::new();
    while rest.len() > 0
        invariant
            out@.len() <= all.len(),
            rest@ == all.subrange(out@.len() as int, all.len() as int),
            forall|i: int| 0 <= i < out@.len() ==> shows_announce(#[trigger] out@[i], all[i]),
        decreases rest@.len(),
    {
        let r = rest.remove(0);
        assert(r == all[out@.len() as int]);
        out.push(AnnounceView {
            guid: r.guid,
            title: r.title,
            content: r.content,
            starts_at: r.starts_at,
            expires_at: r.expires_at,
            created_at: r.created_at,
            updated_at: r.updated_at,
        });
    }
    out
}

} // verus!
