//! The host's shared state: the loaded plugins and their identities, the
//! event channels with their subscribers in dispatch order, and the values
//! that plugins expose to each other.

use crate::logging::{log_line, log_text, LogLevel};
use crate::plugin::{PluginId, PluginInfo};
use crate::stable_collections::{
    channel_list_get, channel_list_insert, channel_list_items, channel_list_len, channel_list_new,
    channel_table_entries, channel_table_get, channel_table_insert, channel_table_new,
    channel_table_remove, hash_table_entries, hash_table_get, hash_table_insert, hash_table_new,
};
use abi_stable::std_types::{RHashMap, RVec};
use std::collections::HashMap;
use vstd::prelude::*;

verus! {

broadcast use vstd::std_specs::hash::group_hash_axioms;

/// One subscription to an event channel: the handle of the handler to run,
/// its priority (higher runs earlier) and the plugin that subscribed.
#[derive(Clone, Copy, Debug)]
pub struct ChannelFunc {
    pub handler: usize,
    pub priority: i32,
    pub plugin_id: PluginId,
}

/// A channel is in dispatch order when no subscriber has a higher priority
/// than one that comes before it.
pub open spec fn is_dispatch_order(s: Seq<ChannelFunc>) -> bool {
    forall|i: int, j: int| 0 <= i < j < s.len() ==> s[i].priority >= s[j].priority
}

/// The number of subscribers at the front of `s` whose priority is at least
/// `priority`: where a new subscriber with that priority joins the channel.
pub open spec fn join_position(s: Seq<ChannelFunc>, priority: i32) -> nat
    decreases s.len(),
{
    if s.len() == 0 || s[0].priority < priority {
        0
    } else {
        1 + join_position(s.drop_first(), priority)
    }
}

/// The channel `s` once `c` has subscribed: `c` stands after every
/// subscriber of equal or higher priority and before all the others.
pub open spec fn with_subscriber(s: Seq<ChannelFunc>, c: ChannelFunc) -> Seq<ChannelFunc> {
    s.insert(join_position(s, c.priority) as int, c)
}

/// In a channel in dispatch order, the subscribers before the join position
/// of `priority` all have at least that priority and the rest less.
pub proof fn lemma_join_position(s: Seq<ChannelFunc>, priority: i32)
    requires
        is_dispatch_order(s),
    ensures
        join_position(s, priority) <= s.len(),
        forall|i: int| 0 <= i < join_position(s, priority) ==> s[i].priority >= priority,
        forall|i: int| join_position(s, priority) <= i < s.len() ==> s[i].priority < priority,
    decreases s.len(),
{
    if s.len() > 0 && s[0].priority >= priority {
        let t = s.drop_first();
        assert(is_dispatch_order(t)) by {
            assert forall|i: int, j: int| 0 <= i < j < t.len() implies t[i].priority
                >= t[j].priority by {
                assert(t[i] == s[i + 1] && t[j] == s[j + 1]);
            }
        }
        lemma_join_position(t, priority);
        assert forall|i: int| 0 <= i < join_position(s, priority) implies s[i].priority
            >= priority by {
            if i > 0 {
                assert(s[i] == t[i - 1]);
            }
        }
        assert forall|i: int| join_position(s, priority) <= i < s.len() implies s[i].priority
            < priority by {
            assert(s[i] == t[i - 1]);
        }
    }
}

/// A position `k` that splits `s` into the subscribers of at least
/// `priority` and the others is the join position of `priority`.
proof fn lemma_join_position_unique(s: Seq<ChannelFunc>, priority: i32, k: int)
    requires
        0 <= k <= s.len(),
        forall|i: int| 0 <= i < k ==> s[i].priority >= priority,
        k < s.len() ==> s[k].priority < priority,
    ensures
        join_position(s, priority) == k,
    decreases s.len(),
{
    if k > 0 {
        let t = s.drop_first();
        assert forall|i: int| 0 <= i < k - 1 implies t[i].priority >= priority by {
            assert(t[i] == s[i + 1]);
        }
        if k - 1 < t.len() {
            assert(t[k - 1] == s[k]);
        }
        lemma_join_position_unique(t, priority, k - 1);
    }
}

/// Subscribing keeps a channel in dispatch order.
pub proof fn lemma_with_subscriber_in_order(s: Seq<ChannelFunc>, c: ChannelFunc)
    requires
        is_dispatch_order(s),
    ensures
        is_dispatch_order(with_subscriber(s, c)),
        with_subscriber(s, c).len() == s.len() + 1,
{
    lemma_join_position(s, c.priority);
    let k = join_position(s, c.priority) as int;
    let r = with_subscriber(s, c);
    assert forall|i: int, j: int| 0 <= i < j < r.len() implies r[i].priority >= r[j].priority by {
        if i < k {
            assert(r[i] == s[i]);
        } else if i == k {
            assert(r[i] == c);
        } else {
            assert(r[i] == s[i - 1]);
        }
        if j < k {
            assert(r[j] == s[j]);
        } else if j == k {
            assert(r[j] == c);
        } else {
            assert(r[j] == s[j - 1]);
        }
    }
}

/// The subscribers of channel `name_hash` in a table of channels: none if
/// the table has no such channel.
pub open spec fn channel_of(channels: Map<[u8; 32], Seq<ChannelFunc>>, name_hash: [u8; 32]) -> Seq<ChannelFunc> {
    if channels.contains_key(name_hash) {
        channels[name_hash]
    } else {
        Seq::empty()
    }
}

/// The table of channels once `name_hash` is registered: a channel that
/// is not open yet opens with no subscribers; an open one is left alone.
pub open spec fn registered(channels: Map<[u8; 32], Seq<ChannelFunc>>, name_hash: [u8; 32]) -> Map<[u8; 32], Seq<ChannelFunc>> {
    if channels.contains_key(name_hash) {
        channels
    } else {
        channels.insert(name_hash, Seq::empty())
    }
}

/// The table of channels once `c` has subscribed to `name_hash`.
pub open spec fn subscribed(channels: Map<[u8; 32], Seq<ChannelFunc>>, name_hash: [u8; 32], c: ChannelFunc) -> Map<[u8; 32], Seq<ChannelFunc>> {
    channels.insert(name_hash, with_subscriber(channel_of(channels, name_hash), c))
}

/// What a read of `name_hash` finds in a table of exposed values.
pub open spec fn exposed_lookup(exposed: Map<[u8; 32], usize>, name_hash: [u8; 32]) -> Option<usize> {
    if exposed.contains_key(name_hash) {
        Some(exposed[name_hash])
    } else {
        None
    }
}

/// Reading a name right after exposing a value under it gives that value.
pub proof fn lemma_get_after_expose(exposed: Map<[u8; 32], usize>, name_hash: [u8; 32], value: usize)
    ensures
        exposed_lookup(exposed.insert(name_hash, value), name_hash) == Some(value),
{
}

/// Exposing a value under one name leaves what every other name reads.
pub proof fn lemma_expose_leaves_other_names(
    exposed: Map<[u8; 32], usize>,
    name_hash: [u8; 32],
    value: usize,
    other: [u8; 32],
)
    requires
        other != name_hash,
    ensures
        exposed_lookup(exposed.insert(name_hash, value), other) == exposed_lookup(exposed, other),
{
}

/// Registering an event never changes the subscribers of any channel,
/// the registered one included.
pub proof fn lemma_register_keeps_subscribers(
    channels: Map<[u8; 32], Seq<ChannelFunc>>,
    name_hash: [u8; 32],
    other: [u8; 32],
)
    ensures
        channel_of(registered(channels, name_hash), other) == channel_of(channels, other),
        registered(channels, name_hash).contains_key(name_hash),
{
}

/// Subscribing to one channel leaves every other channel as it was.
pub proof fn lemma_subscribe_leaves_other_channels(
    channels: Map<[u8; 32], Seq<ChannelFunc>>,
    name_hash: [u8; 32],
    c: ChannelFunc,
    other: [u8; 32],
)
    requires
        other != name_hash,
    ensures
        channel_of(subscribed(channels, name_hash, c), other) == channel_of(channels, other),
{
}

/// If every channel is in dispatch order, it still is after a subscription.
pub proof fn lemma_subscribe_keeps_dispatch_order(
    channels: Map<[u8; 32], Seq<ChannelFunc>>,
    name_hash: [u8; 32],
    c: ChannelFunc,
)
    requires
        forall|h: [u8; 32]| #[trigger] channels.contains_key(h) ==> is_dispatch_order(channels[h]),
    ensures
        forall|h: [u8; 32]| #[trigger]
            subscribed(channels, name_hash, c).contains_key(h) ==> is_dispatch_order(
                subscribed(channels, name_hash, c)[h],
            ),
{
    let s = channel_of(channels, name_hash);
    lemma_with_subscriber_in_order(s, c);
}

/// A subscription adds exactly the new subscriber: the channel holds the
/// old subscribers and `c`, and without `c` it is the old channel, in the
/// same order.
pub proof fn lemma_subscribe_adds_one(s: Seq<ChannelFunc>, c: ChannelFunc)
    requires
        is_dispatch_order(s),
    ensures
        with_subscriber(s, c)[join_position(s, c.priority) as int] == c,
        with_subscriber(s, c).remove(join_position(s, c.priority) as int) == s,
        with_subscriber(s, c).to_multiset() == s.to_multiset().insert(c),
{
    lemma_join_position(s, c.priority);
    let k = join_position(s, c.priority) as int;
    assert(with_subscriber(s, c).remove(k) =~= s);
    vstd::seq_lib::to_multiset_insert(s, k, c);
}

/// Of two subscriptions to the same channel, the later one runs after the
/// earlier one exactly when its priority is not higher: subscribers of
/// equal priority run in the order they subscribed.
pub proof fn lemma_later_subscriber_position(s: Seq<ChannelFunc>, c: ChannelFunc, d: ChannelFunc)
    requires
        is_dispatch_order(s),
    ensures
        d.priority <= c.priority ==> join_position(with_subscriber(s, c), d.priority) > join_position(
            s,
            c.priority,
        ),
        d.priority > c.priority ==> join_position(with_subscriber(s, c), d.priority) <= join_position(
            s,
            c.priority,
        ),
{
    let t = with_subscriber(s, c);
    let k = join_position(s, c.priority) as int;
    lemma_join_position(s, c.priority);
    lemma_with_subscriber_in_order(s, c);
    lemma_join_position(t, d.priority);
    assert(t[k] == c);
}

/// The host's identity names no plugin, and the plugin at position `i` in
/// load order is the one that identity `i + 1` names.
pub proof fn lemma_plugin_identities(ctx: &InternalPluggieCtx, i: int)
    requires
        ctx.wf(),
        0 <= i < ctx.plugin_list().len(),
    ensures
        ctx.plugin_index_of(0) is None,
        ctx.plugin_index_of((i + 1) as u32) == Some(i),
{
    ctx.lemma_identities_fit();
}

/// A subscription stores `c` itself in the channel `name_hash`, one more
/// than before, at the one place where every subscriber before it has at
/// least its priority and the one after it (if any) has less; every other
/// channel stays as it was.
pub proof fn lemma_subscription_places_subscriber(
    channels: Map<[u8; 32], Seq<ChannelFunc>>,
    name_hash: [u8; 32],
    c: ChannelFunc,
    before: Seq<ChannelFunc>,
)
    requires
        channels.contains_key(name_hash) ==> before == channels[name_hash],
        !channels.contains_key(name_hash) ==> before.len() == 0,
    ensures
        subscribed(channels, name_hash, c).contains_key(name_hash),
        subscribed(channels, name_hash, c)[name_hash].len() == before.len() + 1,
        subscribed(channels, name_hash, c)[name_hash].to_multiset() == before.to_multiset().insert(c),
        exists|k: int|
            #![trigger before.insert(k, c)]
            0 <= k <= before.len() && subscribed(channels, name_hash, c)[name_hash] == before.insert(
                k,
                c,
            ) && (forall|i: int| 0 <= i < k ==> before[i].priority >= c.priority) && (k
                < before.len() ==> before[k].priority < c.priority),
        forall|h: [u8; 32]|
            h != name_hash ==> (#[trigger] subscribed(channels, name_hash, c).contains_key(h)
                == channels.contains_key(h)) && (channels.contains_key(h) ==> subscribed(
                channels,
                name_hash,
                c,
            )[h] == channels[h]),
{
    assert(before =~= channel_of(channels, name_hash));
    let k = join_position_split(before, c.priority);
    assert(before.insert(k, c) == subscribed(channels, name_hash, c)[name_hash]);
    vstd::seq_lib::to_multiset_insert(before, k, c);
}

/// The join position of `priority` in any sequence: all subscribers before
/// it have at least that priority and the one at it, if any, has less.
proof fn join_position_split(s: Seq<ChannelFunc>, priority: i32) -> (k: int)
    ensures
        k == join_position(s, priority),
        0 <= k <= s.len(),
        forall|i: int| 0 <= i < k ==> s[i].priority >= priority,
        k < s.len() ==> s[k].priority < priority,
    decreases s.len(),
{
    if s.len() == 0 || s[0].priority < priority {
        0
    } else {
        let t = s.drop_first();
        let j = join_position_split(t, priority);
        assert forall|i: int| 0 <= i < j + 1 implies s[i].priority >= priority by {
            if i > 0 {
                assert(s[i] == t[i - 1]);
            }
        }
        if j + 1 < s.len() {
            assert(s[j + 1] == t[j]);
        }
        j + 1
    }
}

/// A read finds a value exactly when one is exposed under the name, and then
/// it is that value; a name never exposed reads as nothing.
pub proof fn lemma_read_finds_exactly_what_is_exposed(exposed: Map<[u8; 32], usize>, name_hash: [u8; 32])
    ensures
        exposed_lookup(exposed, name_hash) is Some <==> exposed.contains_key(name_hash),
        exposed.contains_key(name_hash) ==> exposed_lookup(exposed, name_hash) == Some(
            exposed[name_hash],
        ),
        !exposed.contains_key(name_hash) ==> exposed_lookup(exposed, name_hash) is None,
        exposed_lookup(Map::<[u8; 32], usize>::empty(), name_hash) is None,
{
}

/// The subscribers of a channel are exactly the list stored for it, every one
/// of them, and none when nothing is stored.
pub proof fn lemma_channel_is_whole_stored_list(ctx: &InternalPluggieCtx, name_hash: [u8; 32])
    ensures
        ctx.channels().contains_key(name_hash) ==> ctx.channel(name_hash) == ctx.channels()[name_hash],
        !ctx.channels().contains_key(name_hash) ==> ctx.channel(name_hash).len() == 0,
{
}

/// The handle by which an event is sent: the name hash of its channel.
#[derive(Clone, Copy, Debug)]
pub struct InternalEventSender {
    pub name_hash: [u8; 32],
}

impl InternalEventSender {
    /// The handles of the handlers that an event sent through this sender
    /// reaches, in the order they run: the channel's dispatch order.
    pub fn call_order(&self, ctx: &InternalPluggieCtx) -> (handlers: Vec<usize>)
        ensures
            handlers@.len() == ctx.channel(self.name_hash).len(),
            forall|i: int| 0 <= i < handlers@.len() ==> #[trigger] handlers@[i]
                == ctx.channel(self.name_hash)[i].handler,
            ctx.channels().contains_key(self.name_hash) ==> handlers@.len() == ctx.channels()[self.name_hash].len(),
            ctx.channels().contains_key(self.name_hash) ==> forall|i: int| 0 <= i < handlers@.len() ==> #[trigger] handlers@[i]
                == ctx.channels()[self.name_hash][i].handler,
            !ctx.channels().contains_key(self.name_hash) ==> handlers@.len() == 0,
    {
        let subs = ctx.subscribers(self.name_hash);
        let mut handlers: Vec<usize> = Vec::new();
        let mut i: usize = 0;
        while i < subs.len()
            invariant
                i <= subs@.len(),
                subs@ == ctx.channel(self.name_hash),
                handlers@.len() == i,
                forall|j: int| 0 <= j < i ==> #[trigger] handlers@[j] == subs@[j].handler,
            decreases subs@.len() - i,
        {
            handlers.push(subs[i].handler);
            i += 1;
        }
        handlers
    }
}

/// The host's state, shared by every plugin.
pub struct InternalPluggieCtx {
    channel_calls: RHashMap<[u8; 32], RVec<ChannelFunc>>,
    exposed: RHashMap<[u8; 32], usize>,
    plugins_map: HashMap<u32, usize>,
    plugins: Vec<PluginInfo>,
}

impl InternalPluggieCtx {
    /// The subscribers of each channel, by name hash, in dispatch order.
    pub closed spec fn channels(&self) -> Map<[u8; 32], Seq<ChannelFunc>> {
        channel_table_entries(self.channel_calls)
    }

    /// The subscribers of the channel `name_hash`: none if it was never
    /// registered or subscribed to.
    pub open spec fn channel(&self, name_hash: [u8; 32]) -> Seq<ChannelFunc> {
        channel_of(self.channels(), name_hash)
    }

    /// The exposed values (handles to them), by name hash.
    pub closed spec fn exposed_values(&self) -> Map<[u8; 32], usize> {
        hash_table_entries(self.exposed)
    }

    /// The loaded plugins, in load order.
    pub closed spec fn plugin_list(&self) -> Seq<PluginInfo> {
        self.plugins@
    }

    /// The plugin that an identity names: the one at position `id - 1` in
    /// load order; the host's identity 0 names none.
    pub open spec fn plugin_index_of(&self, id: u32) -> Option<int> {
        if 1 <= id <= self.plugin_list().len() {
            Some(id - 1)
        } else {
            None
        }
    }

    /// The state is well formed: every channel is in dispatch order, the
    /// identities fit a `u32` and the identity map numbers the plugins from 1.
    pub closed spec fn wf(&self) -> bool {
        &&& forall|h: [u8; 32]|
            #[trigger] self.channels().contains_key(h) ==> is_dispatch_order(self.channels()[h])
        &&& self.plugins@.len() <= u32::MAX
        &&& forall|k: u32| #[trigger]
            self.plugins_map@.contains_key(k) <==> 1 <= k <= self.plugins@.len()
        &&& forall|k: u32| #[trigger]
            self.plugins_map@.contains_key(k) ==> self.plugins_map@[k] == k - 1
    }

    /// In a well-formed state every identity of a plugin fits a `u32`.
    pub proof fn lemma_identities_fit(&self)
        requires
            self.wf(),
        ensures
            self.plugin_list().len() <= u32::MAX,
    {
    }

    /// Every channel of a well-formed state is in dispatch order.
    pub proof fn lemma_channels_in_dispatch_order(&self, name_hash: [u8; 32])
        requires
            self.wf(),
        ensures
            is_dispatch_order(self.channel(name_hash)),
    {
    }

    /// A fresh state for the plugins that were loaded, in load order: the
    /// plugin at position `i` gets the identity `i + 1`; no channel and no
    /// exposed value exists yet.
    pub fn new(plugins: Vec<PluginInfo>) -> (ctx: Self)
        requires
            plugins@.len() <= u32::MAX,
        ensures
            ctx.wf(),
            ctx.channels() =~= Map::empty(),
            ctx.exposed_values() =~= Map::empty(),
            ctx.plugin_list() == plugins@,
    {
        let mut plugins_map: HashMap<u32, usize> = HashMap::new();
        let mut i: usize = 0;
        while i < plugins.len()
            invariant
                i <= plugins@.len() <= u32::MAX,
                forall|k: u32| #[trigger] plugins_map@.contains_key(k) <==> 1 <= k <= i,
                forall|k: u32| #[trigger] plugins_map@.contains_key(k) ==> plugins_map@[k] == k - 1,
            decreases plugins@.len() - i,
        {
            let id = PluginId::of_index(i);
            plugins_map.insert(id.value(), i);
            i += 1;
        }
        InternalPluggieCtx {
            channel_calls: channel_table_new(),
            exposed: hash_table_new(),
            plugins_map,
            plugins,
        }
    }
    /// Opens the channel `name_hash` if it is not open yet, and hands out
    /// the sender for it. A channel that already has subscribers keeps them.
    pub fn register_event(&mut self, name_hash: [u8; 32]) -> (sender: InternalEventSender)
        requires
            old(self).wf(),
        ensures
            final(self).wf(),
            sender.name_hash == name_hash,
            final(self).channels() == registered(old(self).channels(), name_hash),
            final(self).exposed_values() == old(self).exposed_values(),
            final(self).plugin_list() == old(self).plugin_list(),
    {
        let open = channel_table_get(&self.channel_calls, &name_hash).is_some();
        if !open {
            let list = channel_list_new();
            channel_table_insert(&mut self.channel_calls, name_hash, list);
            assert(self.channels() =~= old(self).channels().insert(name_hash, Seq::empty()));
        }
        InternalEventSender { name_hash }
    }

    /// Subscribes the handler `handler` of plugin `plugin_id` to the channel
    /// `name_hash`, opening the channel if needed. The subscriber joins after
    /// every subscriber of equal or higher priority, so the channel stays in
    /// dispatch order and equal priorities run in the order they subscribed.
    pub fn subscribe(&mut self, name_hash: [u8; 32], handler: usize, priority: i32, plugin_id: PluginId)
        requires
            old(self).wf(),
            old(self).channel(name_hash).len() < usize::MAX,
        ensures
            final(self).wf(),
            final(self).channels() == subscribed(
                old(self).channels(),
                name_hash,
                ChannelFunc { handler, priority, plugin_id },
            ),
            final(self).channels().contains_key(name_hash),
            final(self).channels()[name_hash].len() == (if old(self).channels().contains_key(
                name_hash,
            ) {
                old(self).channels()[name_hash].len()
            } else {
                0
            }) + 1,
            final(self).channels()[name_hash].contains(ChannelFunc { handler, priority, plugin_id }),
            final(self).exposed_values() == old(self).exposed_values(),
            final(self).plugin_list() == old(self).plugin_list(),
    {
        let item = ChannelFunc { handler, priority, plugin_id };
        let mut list = match channel_table_remove(&mut self.channel_calls, &name_hash) {
            Some(list) => list,
            None => channel_list_new(),
        };
        let ghost before = channel_list_items(list);
        assert(before == old(self).channel(name_hash));
        assert(is_dispatch_order(before));
        let len = channel_list_len(&list);
        let mut pos: usize = 0;
        while pos < len && channel_list_get(&list, pos).priority >= priority
            invariant
                pos <= len == before.len(),
                channel_list_items(list) == before,
                forall|i: int| 0 <= i < pos ==> before[i].priority >= priority,
            decreases len - pos,
        {
            pos += 1;
        }
        proof {
            lemma_join_position(before, priority);
            if pos < len {
                assert(before[pos as int].priority < priority);
            }
            lemma_join_position_unique(before, priority, pos as int);
            lemma_with_subscriber_in_order(before, item);
        }
        channel_list_insert(&mut list, pos, item);
        channel_table_insert(&mut self.channel_calls, name_hash, list);
        assert(self.channels() =~= old(self).channels().insert(name_hash, with_subscriber(before, item)));
        proof {
            lemma_subscription_places_subscriber(old(self).channels(), name_hash, item, before);
            lemma_join_position(before, priority);
            assert(self.channels()[name_hash][pos as int] == item);
        }
        assert forall|h: [u8; 32]| #[trigger] self.channels().contains_key(h) implies is_dispatch_order(
            self.channels()[h],
        ) by {
            if h != name_hash {
                assert(old(self).channels().contains_key(h));
            }
        }
    }

    /// Exposes the value behind `value` under `name_hash`, replacing what was
    /// exposed there before.
    pub fn expose(&mut self, name_hash: [u8; 32], value: usize)
        requires
            old(self).wf(),
        ensures
            final(self).wf(),
            final(self).exposed_values() == old(self).exposed_values().insert(name_hash, value),
            final(self).channels() == old(self).channels(),
            final(self).plugin_list() == old(self).plugin_list(),
    {
        hash_table_insert(&mut self.exposed, name_hash, value);
        assert(self.channels() == old(self).channels());
        assert(self.plugins_map@ == old(self).plugins_map@);
    }

    /// The value exposed under `name_hash`, if any.
    pub fn get(&self, name_hash: [u8; 32]) -> (value: Option<usize>)
        ensures
            value == exposed_lookup(self.exposed_values(), name_hash),
            value is Some <==> self.exposed_values().contains_key(name_hash),
            value matches Some(v) ==> v == self.exposed_values()[name_hash],
    {
        hash_table_get(&self.exposed, &name_hash)
    }

    /// The subscribers of the channel `name_hash`, in the order in which an
    /// event sent on it reaches them.
    pub fn subscribers(&self, name_hash: [u8; 32]) -> (subs: Vec<ChannelFunc>)
        ensures
            subs@ == self.channel(name_hash),
            self.channels().contains_key(name_hash) ==> subs@ == self.channels()[name_hash],
            !self.channels().contains_key(name_hash) ==> subs@.len() == 0,
    {
        let mut subs: Vec<ChannelFunc> = Vec::new();
        match channel_table_get(&self.channel_calls, &name_hash) {
            None => {},
            Some(list) => {
                let len = channel_list_len(list);
                let mut i: usize = 0;
                while i < len
                    invariant
                        i <= len == channel_list_items(*list).len(),
                        subs@ == channel_list_items(*list).take(i as int),
                    decreases len - i,
                {
                    subs.push(channel_list_get(list, i));
                    i += 1;
                    assert(subs@ =~= channel_list_items(*list).take(i as int));
                }
                assert(subs@ =~= channel_list_items(*list));
            },
        }
        subs
    }

    /// The position in load order of the plugin with identity `id`, looked
    /// up in the identity map.
    pub fn plugin_index(&self, id: PluginId) -> (index: Option<usize>)
        requires
            self.wf(),
        ensures
            index matches Some(i) ==> self.plugin_index_of(id@) == Some(i as int),
            index is None ==> self.plugin_index_of(id@) is None,
    {
        match self.plugins_map.get(&id.value()) {
            Some(i) => Some(*i),
            None => None,
        }
    }

    /// The plugin with identity `id`, if it is a loaded plugin.
    pub fn get_plugin(&self, id: PluginId) -> (info: Option<&PluginInfo>)
        requires
            self.wf(),
        ensures
            info matches Some(p) ==> self.plugin_index_of(id@) matches Some(i) && *p
                == self.plugin_list()[i],
            info is None ==> self.plugin_index_of(id@) is None,
    {
        match self.plugin_index(id) {
            Some(i) => Some(&self.plugins[i]),
            None => None,
        }
    }

    /// The identities of the loaded plugins, in load order: 1, 2, and so on.
    pub fn plugin_ids(&self) -> (ids: Vec<PluginId>)
        requires
            self.wf(),
        ensures
            ids@.len() == self.plugin_list().len(),
            forall|i: int| 0 <= i < ids@.len() ==> #[trigger] ids@[i]@ == i + 1,
    {
        let mut ids: Vec<PluginId> = Vec::new();
        let mut i: usize = 0;
        while i < self.plugins.len()
            invariant
                i <= self.plugins@.len() <= u32::MAX,
                ids@.len() == i,
                forall|j: int| 0 <= j < i ==> #[trigger] ids@[j]@ == j + 1,
            decreases self.plugins@.len() - i,
        {
            ids.push(PluginId::of_index(i));
            i += 1;
        }
        ids
    }
    /// The line logged at `level` by the plugin `plugin_id`, naming the
    /// plugin; `None` when no loaded plugin has that identity.
    pub fn log_line_for(&self, plugin_id: PluginId, level: LogLevel, message: &str) -> (line: Option<String>)
        requires
            self.wf(),
        ensures
            line is Some <==> self.plugin_index_of(plugin_id@) is Some,
            line matches Some(l) ==> l@ == log_text(
                level,
                self.plugin_list()[self.plugin_index_of(plugin_id@)->0].name@,
                message@,
            ),
            line matches Some(l) ==> l@ == level.label_text() + " ["@ + self.plugin_list()[self.plugin_index_of(
                plugin_id@,
            )->0].name@ + "]: "@ + message@,
    {
        match self.get_plugin(plugin_id) {
            Some(info) => Some(log_line(level, info.name.as_str(), message)),
            None => None,
        }
    }
}

} // verus!
