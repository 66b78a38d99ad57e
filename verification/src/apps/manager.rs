//! The application manager: the `app` table is the only truth, the memory copy a cache.
//! The database work happens around these functions; they take what it read and keep the
//! cache in step with it.
use vstd::prelude::*;
use dashmap::DashMap;
use crate::apps::channel::{Channel, Update, channel_of_row, channels_of_rows, diff_of_row, update_of};
use crate::apps::error::AppError;
use crate::apps::instance::AppInstance;
use crate::common::ids::{uuid_display, uuid_text};
use crate::database::repo::{AppRow, ChannelRow, DiffRow};

verus! {

/// What a `DashMap` of apps holds: for each key, the id and the name of the instance
/// stored under it.
pub uninterp spec fn cached_apps(m: DashMap<u128, AppInstance>) -> Map<u128, (u128, Seq<char>)>;

/// `DashMap::new`: an empty map.
#[verifier::external_body]
fn cache_new() -> (m: DashMap<u128, AppInstance>)
    ensures
        cached_apps(m).dom() == Set::<u128>::empty(),
{
    DashMap::new()
}

/// `DashMap::insert`: the key now holds the instance, whatever it held before.
#[verifier::external_body]
fn cache_insert(m: &mut DashMap<u128, AppInstance>, id: u128, app: AppInstance)
    ensures
        cached_apps(*final(m)) == cached_apps(*old(m)).insert(id, (app.id, app.name@)),
{
    m.insert(id, app);
}

/// `DashMap::remove`: the key holds nothing afterwards.
#[verifier::external_body]
fn cache_remove(m: &mut DashMap<u128, AppInstance>, id: u128)
    ensures
        cached_apps(*final(m)) == cached_apps(*old(m)).remove(id),
{
    m.remove(&id);
}

/// `DashMap::clear`: the map is empty afterwards.
#[verifier::external_body]
fn cache_clear(m: &mut DashMap<u128, AppInstance>)
    ensures
        cached_apps(*final(m)).dom() == Set::<u128>::empty(),
{
    m.clear();
}

/// `DashMap::get`, the entry cloned out: what the key holds, or `None`.
#[verifier::external_body]
fn cache_get(m: &DashMap<u128, AppInstance>, id: u128) -> (r: Option<AppInstance>)
    ensures
        match r {
            Some(a) => cached_apps(*m).contains_key(id) && cached_apps(*m)[id] == (a.id, a.name@),
            None => !cached_apps(*m).contains_key(id),
        },
{
    match m.get(&id) {
        Some(entry) => Some(entry.value().clone()),
        None => None,
    }
}

/// `DashMap::len`: the number of keys.
#[verifier::external_body]
fn cache_len(m: &DashMap<u128, AppInstance>) -> (n: usize)
    ensures
        n == cached_apps(*m).dom().len(),
{
    m.len()
}

/// `DashMap::iter`, each entry taken as its key and a clone of its instance: every key once,
/// in the map's own order, with what it holds.
#[verifier::external_body]
fn cache_entries(m: &DashMap<u128, AppInstance>) -> (out: Vec<(u128, AppInstance)>)
    ensures
        out@.len() == cached_apps(*m).dom().len(),
        forall|i: int|
            0 <= i < out@.len() ==> cached_apps(*m).contains_key(#[trigger] out@[i].0)
                && cached_apps(*m)[out@[i].0] == (out@[i].1.id, out@[i].1.name@),
        forall|i: int, j: int| 0 <= i < j < out@.len() ==> #[trigger] out@[i].0 != #[trigger] out@[j].0,
        forall|k: u128|
            #[trigger] cached_apps(*m).contains_key(k) ==> exists|i: int|
                0 <= i < out@.len() && #[trigger] out@[i].0 == k,
{
    let mut out = Vec::new();
    for entry in m.iter() {
        out.push((*entry.key(), entry.value().clone()));
    }
    out
}

/// The apps that `rows` list, read in order (a later row of an id wins): id to name.
pub open spec fn rows_map(rows: Seq<AppRow>) -> Map<u128, Seq<char>>
    decreases rows.len(),
{
    if rows.len() == 0 {
        Map::empty()
    } else {
        rows_map(rows.drop_last()).insert(rows.last().id, rows.last().name@)
    }
}

/// The application cache: the enabled apps, by id.
pub struct AppManager {
    apps: DashMap<u128, AppInstance>,
}

/// `e` reports app `id` missing.
pub open spec fn missing(e: AppError, id: u128) -> bool {
    match e {
        AppError::NotFound(t) => t@ == uuid_display(id),
        _ => false,
    }
}

/// `e` reports app `id` taken.
pub open spec fn taken(e: AppError, id: u128) -> bool {
    match e {
        AppError::AlreadyExists(t) => t@ == uuid_display(id),
        _ => false,
    }
}

impl AppManager {
    #[verifier::type_invariant]
    spec fn keyed_by_id(self) -> bool {
        forall|k: u128| #[trigger] cached_apps(self.apps).contains_key(k) ==> cached_apps(self.apps)[k].0 == k
    }

    /// The cached apps: id to name.
    pub closed spec fn view(&self) -> Map<u128, Seq<char>> {
        Map::new(|k: u128| cached_apps(self.apps).contains_key(k), |k: u128| cached_apps(self.apps)[k].1)
    }

    /// An empty cache.
    pub fn new() -> (m: AppManager)
        ensures
            m@ == Map::<u128, Seq<char>>::empty(),
    {
        let apps = cache_new();
        let m = AppManager { apps };
        assert(m@ =~= Map::<u128, Seq<char>>::empty());
        m
    }

    /// Puts `app` in the cache under its own id.
    fn put(&mut self, app: AppInstance)
        ensures
            final(self)@ == old(self)@.insert(app.id, app.name@),
    {
        proof {
            use_type_invariant(&*self);
        }
        let ghost before = self@;
        let mut apps = cache_new();
        std::mem::swap(&mut apps, &mut self.apps);
        let id = app.id;
        cache_insert(&mut apps, id, app);
        *self = AppManager { apps };
        assert(self@ =~= before.insert(id, self@[id]));
    }

    /// Drops app `id` from the cache.
    fn drop_id(&mut self, id: u128)
        ensures
            final(self)@ == old(self)@.remove(id),
    {
        proof {
            use_type_invariant(&*self);
        }
        let ghost before = self@;
        let mut apps = cache_new();
        std::mem::swap(&mut apps, &mut self.apps);
        cache_remove(&mut apps, id);
        *self = AppManager { apps };
        assert(self@ =~= before.remove(id));
    }

    /// Fills the cache from the enabled apps' rows, as loading at start-up does.
    pub fn from_rows(rows: Vec<AppRow>) -> (m: AppManager)
        ensures
            m@ == rows_map(rows@),
    {
        let mut m = AppManager::new();
        m.reload(rows);
        m
    }

    /// Re-reads the table: the cache is emptied, then filled from the enabled apps' rows,
    /// so that disabled or deleted apps leave it.
    pub fn reload(&mut self, rows: Vec<AppRow>)
        ensures
            final(self)@ == rows_map(rows@),
    {
        let mut apps = cache_new();
        std::mem::swap(&mut apps, &mut self.apps);
        cache_clear(&mut apps);
        *self = AppManager { apps };
        assert(self@ =~= Map::<u128, Seq<char>>::empty());
        let ghost all = rows@;
        let n: usize = rows.len();
        let mut rest = rows;
        let mut done: usize = 0;
        while rest.len() > 0
            invariant
                all.len() == n,
                done <= all.len(),
                rest@ == all.subrange(done as int, all.len() as int),
                self@ == rows_map(all.take(done as int)),
            decreases rest@.len(),
        {
            let row = rest.remove(0);
            proof {
                assert(row == all[done as int]);
                assert(all.take(done + 1).drop_last() =~= all.take(done as int));
            }
            self.put(AppInstance::new(row.id, row.name));
            done = done + 1;
        }
        assert(all.take(done as int) =~= all);
    }

    /// The instances of the rows of every app, enabled or not (the management listing).
    pub fn list_all(rows: Vec<AppRow>) -> (out: Vec<AppInstance>)
        ensures
            out@.len() == rows@.len(),
            forall|i: int|
                0 <= i < rows@.len() ==> (#[trigger] out@[i]).id == rows@[i].id && out@[i].name@
                    == rows@[i].name@,
    {
        let mut out: Vec<AppInstance> = Vec::new();
        let ghost all = rows@;
        let mut rest = rows;
        while rest.len() > 0
            invariant
                out@.len() <= all.len(),
                rest@ == all.subrange(out@.len() as int, all.len() as int),
                forall|i: int|
                    0 <= i < out@.len() ==> (#[trigger] out@[i]).id == all[i].id && out@[i].name@
                        == all[i].name@,
            decreases rest@.len(),
        {
            let row = rest.remove(0);
            proof {
                assert(row == all[out@.len() as int]);
            }
            out.push(AppInstance::new(row.id, row.name));
        }
        out
    }

    /// The cached instance of app `id`.
    pub fn get(&self, id: u128) -> (r: Option<AppInstance>)
        ensures
            match r {
                Some(a) => self@.contains_key(id) && a.id == id && a.name@ == self@[id],
                None => !self@.contains_key(id),
            },
    {
        proof {
            use_type_invariant(self);
        }
        cache_get(&self.apps, id)
    }

    /// Every cached instance, each once, in the cache's own order.
    pub fn list(&self) -> (out: Vec<AppInstance>)
        ensures
            out@.len() == self@.dom().len(),
            forall|i: int|
                0 <= i < out@.len() ==> self@.contains_key(#[trigger] out@[i].id) && self@[out@[i].id]
                    == out@[i].name@,
            forall|i: int, j: int| 0 <= i < j < out@.len() ==> #[trigger] out@[i].id != #[trigger] out@[j].id,
            forall|k: u128|
                #[trigger] self@.contains_key(k) ==> exists|i: int| 0 <= i < out@.len() && #[trigger] out@[i].id == k,
    {
        proof {
            use_type_invariant(self);
        }
        let entries = cache_entries(&self.apps);
        let ghost m = cached_apps(self.apps);
        assert(self@.dom() =~= m.dom());
        let mut out: Vec<AppInstance> = Vec::new();
        let ghost all = entries@;
        let mut rest = entries;
        while rest.len() > 0
            invariant
                out@.len() <= all.len(),
                rest@ == all.subrange(out@.len() as int, all.len() as int),
                forall|i: int| 0 <= i < out@.len() ==> #[trigger] out@[i] == all[i].1,
            decreases rest@.len(),
        {
            let (_, app) = rest.remove(0);
            out.push(app);
        }
        proof {
            assert forall|i: int| 0 <= i < out@.len() implies #[trigger] out@[i].id == all[i].0 by {
                assert(m.contains_key(all[i].0));
            }
            assert forall|k: u128| #[trigger] self@.contains_key(k) implies exists|i: int|
                0 <= i < out@.len() && #[trigger] out@[i].id == k by {
                assert(m.contains_key(k));
                let i = choose|i: int| 0 <= i < all.len() && #[trigger] all[i].0 == k;
                assert(out@[i].id == k);
            }
            assert forall|i: int, j: int| 0 <= i < j < out@.len() implies #[trigger] out@[i].id
                != #[trigger] out@[j].id by {
                assert(all[i].0 != all[j].0);
                assert(out@[i].id == all[i].0);
                assert(out@[j].id == all[j].0);
            }
            assert forall|i: int| 0 <= i < out@.len() implies self@.contains_key(#[trigger] out@[i].id)
                && self@[out@[i].id] == out@[i].name@ by {
                assert(m.contains_key(all[i].0));
                assert(out@[i].id == all[i].0);
            }
        }
        out
    }

    /// Number of cached apps.
    pub fn count(&self) -> (n: usize)
        ensures
            n == self@.dom().len(),
    {
        proof {
            use_type_invariant(self);
        }
        let ghost m = cached_apps(self.apps);
        assert(self@.dom() =~= m.dom());
        cache_len(&self.apps)
    }

    /// After the row of app `id` was updated (`updated` tells whether any row matched) and
    /// read back (`row`): the instance as it now stands. An enabled app is (re)cached, a
    /// disabled one leaves the cache; no row means `NotFound` and the cache is unchanged.
    pub fn set_info(&mut self, id: u128, updated: bool, row: Option<AppRow>) -> (r: Result<AppInstance, AppError>)
        ensures
            match (updated, row) {
                (true, Some(row)) => {
                    &&& r matches Ok(a) && a.id == row.id && a.name@ == row.name@
                    &&& final(self)@ == if row.enabled {
                        old(self)@.insert(row.id, row.name@)
                    } else {
                        old(self)@.remove(row.id)
                    }
                },
                _ => r matches Err(e) && missing(e, id) && final(self)@ == old(self)@,
            },
    {
        if !updated {
            return Err(AppError::NotFound(uuid_text(id)));
        }
        match row {
            None => Err(AppError::NotFound(uuid_text(id))),
            Some(row) => {
                let app = AppInstance::new(row.id, row.name);
                if row.enabled {
                    self.put(app.clone());
                } else {
                    self.drop_id(app.id);
                }
                Ok(app)
            },
        }
    }

    /// Registers app `id` named `name`, `exists` telling whether the table already had it
    /// (then `AlreadyExists`, nothing cached); else the new app is cached and returned.
    pub fn create(&mut self, id: u128, name: &str, exists: bool) -> (r: Result<AppInstance, AppError>)
        ensures
            exists ==> (r matches Err(e) && taken(e, id) && final(self)@ == old(self)@),
            !exists ==> (r matches Ok(a) && a.id == id && a.name@ == name@ && final(self)@
                == old(self)@.insert(id, name@)),
    {
        if exists {
            return Err(AppError::AlreadyExists(uuid_text(id)));
        }
        let app = AppInstance::new(id, crate::common::text::owned(name));
        self.put(app.clone());
        Ok(app)
    }

    /// After `enabled` of app `id` was set to `enable` (`updated` tells whether any row
    /// matched): enabling caches the row read back (`row`, if any), disabling drops the app.
    pub fn set_enable(&mut self, id: u128, enable: bool, updated: bool, row: Option<AppRow>) -> (r: Result<(), AppError>)
        ensures
            !updated ==> (r matches Err(e) && missing(e, id) && final(self)@ == old(self)@),
            updated ==> r is Ok,
            updated && !enable ==> final(self)@ == old(self)@.remove(id),
            updated && enable ==> final(self)@ == match row {
                Some(row) => old(self)@.insert(row.id, row.name@),
                None => old(self)@,
            },
    {
        if !updated {
            return Err(AppError::NotFound(uuid_text(id)));
        }
        if enable {
            match row {
                Some(row) => self.put(AppInstance::new(row.id, row.name)),
                None => {},
            }
        } else {
            self.drop_id(id);
        }
        Ok(())
    }

    /// Deleting app `id`, whose row was read first (`row`): without one, `NotFound`; with
    /// one (deleted from the table meanwhile), the app leaves the cache and its instance
    /// is returned.
    pub fn remove(&mut self, id: u128, row: Option<AppRow>) -> (r: Result<AppInstance, AppError>)
        ensures
            match row {
                Some(row) => r matches Ok(a) && a.id == row.id && a.name@ == row.name@
                    && final(self)@ == old(self)@.remove(id),
                None => r matches Err(e) && missing(e, id) && final(self)@ == old(self)@,
            },
    {
        match row {
            None => Err(AppError::NotFound(uuid_text(id))),
            Some(row) => {
                let app = AppInstance::new(row.id, row.name);
                self.drop_id(id);
                Ok(app)
            },
        }
    }

    /// The channels of app `id` from its channel rows (the default first, as listed): a
    /// disabled or unknown app, absent from the cache, is `NotFound`.
    pub fn channels(&self, id: u128, rows: Vec<ChannelRow>) -> (r: Result<Vec<Channel>, AppError>)
        ensures
            !self@.contains_key(id) ==> (r matches Err(e) && missing(e, id)),
            self@.contains_key(id) ==> (r matches Ok(cs) && cs@.len() == rows@.len() && forall|i: int|
                0 <= i < rows@.len() ==> channel_of_row(#[trigger] cs@[i], rows@[i])),
    {
        match self.get(id) {
            None => Err(AppError::NotFound(uuid_text(id))),
            Some(_) => Ok(channels_of_rows(rows)),
        }
    }

    /// The update information of a channel, from its row (if the guid exists) and its diffs.
    pub fn update(row: Option<ChannelRow>, diffs: Vec<DiffRow>) -> (r: Option<Update>)
        ensures
            match row {
                None => r is None,
                Some(row) => r matches Some(u) && channel_of_row(u.channel, row) && u.diffs@.len()
                    == diffs@.len() && forall|i: int|
                    0 <= i < diffs@.len() ==> diff_of_row(#[trigger] u.diffs@[i], diffs@[i]),
            },
    {
        match row {
            None => None,
            Some(row) => Some(update_of(row, diffs)),
        }
    }
}

} // verus!
