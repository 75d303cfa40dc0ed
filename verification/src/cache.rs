//! The agenda cache: computed event lists kept by request fingerprint, with
//! expiry and a bound on the number of entries left to the caching library.
//! Clearing builds the cache anew.

use crate::config::CacheConfig;
use crate::output::{event_views, CalendarEvent, EventView};
use crate::text::{
    all_lack, decimal, join, join_strings, lemma_decimal_injective, lemma_decimal_lacks,
    lemma_join_injective, lemma_split_at_last, push_decimal, texts,
};
use vstd::prelude::*;

verus! {

/// The longest time-to-live that the caching library accepts: 1000 years of
/// 365 days, in seconds.
pub const MAX_TTL_SECONDS: u64 = 31_536_000_000;

/// moka's `sync::Cache`, taken as it is: nothing of its inside is known
/// here.
#[verifier::external_type_specification]
#[verifier::external_body]
#[verifier::reject_recursive_types(K)]
#[verifier::reject_recursive_types(V)]
#[verifier::reject_recursive_types(S)]
pub struct ExCache<K, V, S>(moka::sync::Cache<K, V, S>);

/// What has been written to the cache and not invalidated since: for each
/// key the list stored last. Entries that have expired or were evicted are
/// still part of it; a lookup may miss them.
pub uninterp spec fn cache_stored(cache: moka::sync::Cache<String, Vec<CalendarEvent>>) -> Map<
    Seq<char>,
    Seq<EventView>,
>;

/// A cache to which nothing has been written.
pub open spec fn no_entries() -> Map<Seq<char>, Seq<EventView>> {
    Map::empty()
}

/// The number of entries that the cache was built to hold.
pub uninterp spec fn cache_capacity(cache: moka::sync::Cache<String, Vec<CalendarEvent>>) -> nat;

/// The number of seconds after which the cache was built to let an entry
/// expire.
pub uninterp spec fn cache_ttl(cache: moka::sync::Cache<String, Vec<CalendarEvent>>) -> nat;

/// Builds the cache with moka's `Cache::builder`, `max_capacity`,
/// `time_to_live` and `build`. `build` panics on a time-to-live above 1000
/// years, which the precondition rules out. A new cache holds nothing and
/// remembers the capacity and the time-to-live it was built with.
#[verifier::external_body]
fn cache_build(max_entries: u64, ttl_seconds: u64) -> (cache: moka::sync::Cache<
    String,
    Vec<CalendarEvent>,
>)
    requires
        ttl_seconds <= MAX_TTL_SECONDS,
    ensures
        cache_stored(cache) == no_entries(),
        cache_capacity(cache) == max_entries,
        cache_ttl(cache) == ttl_seconds,
{
    moka::sync::Cache::builder().max_capacity(max_entries).time_to_live(
        std::time::Duration::from_secs(ttl_seconds),
    ).build()
}

/// Looks a key up with moka's `Cache::get`. Whether a stored entry is
/// still there depends on time and on eviction, so a miss is always
/// possible; a hit hands back a copy of what was stored last under the key.
/// A cache of capacity zero never answers.
#[verifier::external_body]
fn cache_get(cache: &moka::sync::Cache<String, Vec<CalendarEvent>>, key: &str) -> (found: Option<
    Vec<CalendarEvent>,
>)
    ensures
        found matches Some(events) ==> cache_stored(*cache).contains_key(key@) && event_views(
            events@,
        ) == cache_stored(*cache)[key@],
        cache_capacity(*cache) == 0 ==> found is None,
{
    cache.get(key)
}

/// The fingerprint of a request: the calendar identifiers in the order
/// given, separated by commas, then a colon and the number of days.
pub open spec fn cache_key(calendar_ids: Seq<Seq<char>>, days_ahead: int) -> Seq<char> {
    join(calendar_ids, seq![',']) + seq![':'] + decimal(days_ahead)
}

/// Whether a lookup of `key` may answer `found`, given what is stored: a
/// miss is always possible, a hit is the list stored last under the key.
pub open spec fn may_answer(
    stored: Map<Seq<char>, Seq<EventView>>,
    key: Seq<char>,
    found: Option<Seq<EventView>>,
) -> bool {
    match found {
        Some(events) => stored.contains_key(key) && stored[key] == events,
        None => true,
    }
}

/// Computed event lists by request fingerprint.
pub struct EventCache {
    cache: moka::sync::Cache<String, Vec<CalendarEvent>>,
    max_entries: u64,
    ttl_seconds: u64,
}

impl EventCache {
    /// The cache is the one that was built from the capacity and the
    /// time-to-live kept beside it, so that it can be built anew.
    #[verifier::type_invariant]
    spec fn is_as_built(&self) -> bool {
        &&& self.ttl_seconds <= MAX_TTL_SECONDS
        &&& cache_capacity(self.cache) == self.max_entries
        &&& cache_ttl(self.cache) == self.ttl_seconds
    }

    /// For each key written and not invalidated since, the list stored
    /// last. An entry stays part of this after it has expired or was
    /// evicted; `get` may then miss it.
    pub closed spec fn stored(&self) -> Map<Seq<char>, Seq<EventView>> {
        cache_stored(self.cache)
    }

    /// The number of entries that the cache was built to hold.
    pub closed spec fn capacity(&self) -> nat {
        cache_capacity(self.cache)
    }

    /// The number of seconds after which the cache lets an entry expire.
    pub closed spec fn time_to_live(&self) -> nat {
        cache_ttl(self.cache)
    }

    /// Stores a list with moka's `Cache::insert`, replacing what the key
    /// held. Capacity and time-to-live are as they were.
    #[verifier::external_body]
    fn cache_insert(&mut self, key: String, events: Vec<CalendarEvent>)
        ensures
            cache_stored(final(self).cache) == cache_stored(old(self).cache).insert(
                key@,
                event_views(events@),
            ),
            cache_capacity(final(self).cache) == cache_capacity(old(self).cache),
            cache_ttl(final(self).cache) == cache_ttl(old(self).cache),
            final(self).max_entries == old(self).max_entries,
            final(self).ttl_seconds == old(self).ttl_seconds,
    {
        self.cache.insert(key, events)
    }

    /// Drops one key with moka's `Cache::invalidate`. Capacity and
    /// time-to-live are as they were.
    #[verifier::external_body]
    fn cache_invalidate(&mut self, key: &str)
        ensures
            cache_stored(final(self).cache) == cache_stored(old(self).cache).remove(key@),
            cache_capacity(final(self).cache) == cache_capacity(old(self).cache),
            cache_ttl(final(self).cache) == cache_ttl(old(self).cache),
            final(self).max_entries == old(self).max_entries,
            final(self).ttl_seconds == old(self).ttl_seconds,
    {
        self.cache.invalidate(key)
    }

    /// An empty cache that keeps up to `config.max_entries` lists for
    /// `config.ttl_seconds` seconds each.
    pub fn new(config: &CacheConfig) -> (cache: Self)
        requires
            config.ttl_seconds <= MAX_TTL_SECONDS,
        ensures
            cache.stored() == no_entries(),
            cache.capacity() == config.max_entries,
            cache.time_to_live() == config.ttl_seconds,
    {
        EventCache {
            cache: cache_build(config.max_entries, config.ttl_seconds),
            max_entries: config.max_entries,
            ttl_seconds: config.ttl_seconds,
        }
    }

    /// The list stored under `key`, if it is still there.
    pub fn get(&self, key: &str) -> (found: Option<Vec<CalendarEvent>>)
        ensures
            may_answer(
                self.stored(),
                key@,
                match found {
                    Some(events) => Some(event_views(events@)),
                    None => None,
                },
            ),
            self.capacity() == 0 ==> found is None,
    {
        cache_get(&self.cache, key)
    }

    /// Stores `events` under `key`, in place of what the key held.
    pub fn set(&mut self, key: String, events: Vec<CalendarEvent>)
        ensures
            final(self).stored() == old(self).stored().insert(key@, event_views(events@)),
            final(self).capacity() == old(self).capacity(),
            final(self).time_to_live() == old(self).time_to_live(),
    {
        self.cache_insert(key, events)
    }

    /// Forgets what is stored under `key`.
    pub fn invalidate(&mut self, key: &str)
        ensures
            final(self).stored() == old(self).stored().remove(key@),
            final(self).capacity() == old(self).capacity(),
            final(self).time_to_live() == old(self).time_to_live(),
    {
        self.cache_invalidate(key)
    }

    /// Forgets everything: the cache starts anew, built as it was built
    /// at first.
    pub fn clear(&mut self)
        ensures
            final(self).stored() == no_entries(),
            final(self).capacity() == old(self).capacity(),
            final(self).time_to_live() == old(self).time_to_live(),
    {
        proof {
            use_type_invariant(&*self);
        }
        self.cache = cache_build(self.max_entries, self.ttl_seconds);
    }

    /// The fingerprint of a request for the given calendars and number of
    /// days.
    pub fn generate_key(&self, calendar_ids: &[String], days_ahead: i64) -> (key: String)
        ensures
            key@ == cache_key(texts(calendar_ids@), days_ahead as int),
    {
        proof {
            reveal_strlit(",");
            reveal_strlit(":");
        }
        let mut key = join_strings(calendar_ids, ",");
        key.append(":");
        push_decimal(&mut key, days_ahead);
        assert(","@ =~= seq![',']);
        assert(":"@ =~= seq![':']);
        key
    }
}

/// Two requests have the same fingerprint exactly if they ask for the
/// same number of days and their calendar lists join to the same text. In
/// particular, requests for different numbers of days never share a
/// fingerprint, whatever their calendars.
pub proof fn law_key_separates_days(
    ids_a: Seq<Seq<char>>,
    days_a: int,
    ids_b: Seq<Seq<char>>,
    days_b: int,
)
    ensures
        cache_key(ids_a, days_a) == cache_key(ids_b, days_b) <==> days_a == days_b && join(
            ids_a,
            seq![','],
        ) == join(ids_b, seq![',']),
{
    if cache_key(ids_a, days_a) == cache_key(ids_b, days_b) {
        lemma_decimal_lacks(days_a, ':');
        lemma_decimal_lacks(days_b, ':');
        lemma_split_at_last(
            join(ids_a, seq![',']),
            decimal(days_a),
            join(ids_b, seq![',']),
            decimal(days_b),
            ':',
        );
        lemma_decimal_injective(days_a, days_b);
    }
}

/// Whether a list of calendar identifiers can be told from every other
/// such list by its fingerprint: no identifier holds a comma, and the list
/// is not the single empty identifier, which reads like no calendar at all.
pub open spec fn is_plain_id_list(ids: Seq<Seq<char>>) -> bool {
    &&& all_lack(ids, ',')
    &&& !(ids.len() == 1 && ids[0].len() == 0)
}

/// Different requests have different fingerprints, as long as the
/// calendar identifiers hold no comma and none of the lists is the single
/// empty identifier.
pub proof fn law_key_separates_requests(
    ids_a: Seq<Seq<char>>,
    days_a: int,
    ids_b: Seq<Seq<char>>,
    days_b: int,
)
    requires
        is_plain_id_list(ids_a),
        is_plain_id_list(ids_b),
        cache_key(ids_a, days_a) == cache_key(ids_b, days_b),
    ensures
        ids_a == ids_b,
        days_a == days_b,
{
    law_key_separates_days(ids_a, days_a, ids_b, days_b);
    lemma_plain_join_is_empty(ids_a);
    lemma_plain_join_is_empty(ids_b);
    if ids_a.len() > 0 && ids_b.len() > 0 {
        lemma_join_injective(ids_a, ids_b, ',');
    } else {
        assert(ids_a =~= ids_b);
    }
}

/// A plain list joins to the empty text only if it is empty.
proof fn lemma_plain_join_is_empty(ids: Seq<Seq<char>>)
    requires
        is_plain_id_list(ids),
    ensures
        join(ids, seq![',']).len() == 0 <==> ids.len() == 0,
{
    if ids.len() >= 2 {
        let at = join(ids.drop_last(), seq![',']).len() as int;
        assert(join(ids, seq![','])[at] == ',');
    }
}

/// Whatever a lookup finds right after a list was stored under the same
/// key, it is that list, in the same order.
pub proof fn law_lookup_after_store(
    stored: Map<Seq<char>, Seq<EventView>>,
    key: Seq<char>,
    events: Seq<EventView>,
    found: Option<Seq<EventView>>,
)
    requires
        may_answer(stored.insert(key, events), key, found),
    ensures
        found matches Some(got) ==> got == events,
{
}

/// A lookup after the key was invalidated, or after the cache was
/// cleared, finds nothing.
pub proof fn law_lookup_after_forgetting(
    stored: Map<Seq<char>, Seq<EventView>>,
    key: Seq<char>,
    found: Option<Seq<EventView>>,
)
    requires
        may_answer(stored.remove(key), key, found) || may_answer(no_entries(), key, found),
    ensures
        found is None,
{
}

/// Storing under one key leaves what a lookup of another key may find
/// as it was.
pub proof fn law_store_leaves_other_keys(
    stored: Map<Seq<char>, Seq<EventView>>,
    key: Seq<char>,
    events: Seq<EventView>,
    other: Seq<char>,
    found: Option<Seq<EventView>>,
)
    requires
        other != key,
    ensures
        may_answer(stored.insert(key, events), other, found) == may_answer(stored, other, found),
{
}

} // verus!
