//! The shared client state: configuration, watch-list, identity and emoji
//! caches, and the connection/transport lifecycle, with the laws the
//! watch-list operations obey.

use vstd::prelude::*;
use crate::config::{ChannelView, ConfigView, SlackChannel, SlackConfig, spec_merged};
use crate::profile::{ProfileView, UserProfile};
use crate::strmap::StringMap;
use crate::text::{opt_str_is, str_eq};
use vstd::string::StringExecFns;

verus! {

/// Result of a connect, disconnect or connection-test request.
pub struct SlackConnectionResult {
    pub success: bool,
    pub error: Option<String>,
}

/// Result of a watch-list mutation.
pub struct ChannelActionResult {
    pub success: bool,
    pub error: Option<String>,
    pub message: Option<String>,
}

/// The watched channel ids with their snapshots.
pub struct WatchedChannelsResult {
    pub ids: Vec<String>,
    pub data: StringMap<SlackChannel>,
}

/// Sizes of the identity and emoji caches.
pub struct CacheStatus {
    pub users: usize,
    pub emojis: usize,
}

/// The display name used while no channel is watched.
pub open spec fn default_channel_name() -> Seq<char> {
    "waigaya"@
}

/// Pairwise-distinct character sequences.
pub open spec fn seq_distinct(s: Seq<Seq<char>>) -> bool {
    forall|i: int, j: int| 0 <= i < j < s.len() ==> s[i] != s[j]
}

/// `s` without its (unique) occurrence of `x`; `s` itself when `x` is absent.
pub open spec fn remove_id(s: Seq<Seq<char>>, x: Seq<char>) -> Seq<Seq<char>> {
    if exists|i: int| 0 <= i < s.len() && s[i] == x {
        s.remove(choose|i: int| 0 <= i < s.len() && s[i] == x)
    } else {
        s
    }
}

/// Mathematical view of the client state.
pub ghost struct ClientView {
    pub config: ConfigView,
    pub connected: bool,
    pub watched: Seq<Seq<char>>,
    pub users: Map<Seq<char>, ProfileView>,
    pub emojis: Map<Seq<char>, Seq<char>>,
    pub current_channel_name: Seq<char>,
    pub transport_live: Option<u64>,
    pub next_epoch: u64,
}

/// The client state: exactly what the supervisor keeps behind its lock.
/// The live transport is abstracted as an epoch number; the host hands the
/// matching cancellation channel to the task it spawns.
pub struct SlackClientState {
    config: SlackConfig,
    is_connected: bool,
    watched_channels: Vec<String>,
    user_cache: StringMap<UserProfile>,
    custom_emoji_cache: StringMap<String>,
    current_channel_name: String,
    transport_live: Option<u64>,
    next_epoch: u64,
}

impl View for SlackClientState {
    type V = ClientView;

    closed spec fn view(&self) -> ClientView {
        ClientView {
            config: self.config@,
            connected: self.is_connected,
            watched: self.watched_channels@.map_values(|s: String| s@),
            users: self.user_cache@.map_values(|p: UserProfile| p@),
            emojis: self.custom_emoji_cache@.map_values(|u: String| u@),
            current_channel_name: self.current_channel_name@,
            transport_live: self.transport_live,
            next_epoch: self.next_epoch,
        }
    }
}

/// Whether a successful add of `id` with snapshot `info` is possible.
pub open spec fn spec_add_ok(v: ClientView, id: Seq<char>, info: ChannelView) -> bool {
    &&& !v.watched.contains(id)
    &&& info.is_member != Some(false)
}

/// The state after `add_watch_channel`; unchanged when the add fails.
pub open spec fn spec_add_state(v: ClientView, id: Seq<char>, info: ChannelView) -> ClientView {
    if spec_add_ok(v, id, info) {
        let watched = v.watched.push(id);
        ClientView {
            config: ConfigView {
                channels: watched,
                watched_channel_data: v.config.watched_channel_data.insert(id, info),
                ..v.config
            },
            watched,
            current_channel_name: if v.watched.len() == 0 {
                info.name
            } else {
                v.current_channel_name
            },
            ..v
        }
    } else {
        v
    }
}

/// Whether a successful remove of `id` is possible.
pub open spec fn spec_remove_ok(v: ClientView, id: Seq<char>) -> bool {
    v.watched.contains(id)
}

/// The state after `remove_watch_channel`; unchanged when the remove fails.
pub open spec fn spec_remove_state(v: ClientView, id: Seq<char>) -> ClientView {
    if spec_remove_ok(v, id) {
        let watched = remove_id(v.watched, id);
        ClientView {
            config: ConfigView {
                channels: watched,
                watched_channel_data: v.config.watched_channel_data.remove(id),
                ..v.config
            },
            watched,
            current_channel_name: if watched.len() == 0 {
                default_channel_name()
            } else {
                v.current_channel_name
            },
            ..v
        }
    } else {
        v
    }
}

impl SlackClientState {
    #[verifier::type_invariant]
    spec fn wf(self) -> bool {
        seq_distinct(self@.watched)
    }

    /// A fresh, disconnected client with empty caches.
    pub fn new() -> (s: Self)
        ensures
            s@.config == crate::config::empty_config_view(),
            !s@.connected,
            s@.watched == Seq::<Seq<char>>::empty(),
            s@.users == Map::<Seq<char>, ProfileView>::empty(),
            s@.emojis == Map::<Seq<char>, Seq<char>>::empty(),
            s@.current_channel_name == default_channel_name(),
            s@.transport_live is None,
            s@.next_epoch == 0,
    {
        let s = SlackClientState {
            config: SlackConfig::new(),
            is_connected: false,
            watched_channels: Vec::new(),
            user_cache: StringMap::new(),
            custom_emoji_cache: StringMap::new(),
            current_channel_name: "waigaya".to_owned(),
            transport_live: None,
            next_epoch: 0,
        };
        proof {
            assert(s@.watched =~= Seq::<Seq<char>>::empty());
            assert(s@.users =~= Map::<Seq<char>, ProfileView>::empty());
            assert(s@.emojis =~= Map::<Seq<char>, Seq<char>>::empty());
        }
        s
    }

    /// Whether `id` is on the watch-list.
    pub fn is_watched(&self, id: &str) -> (r: bool)
        ensures
            r == self@.watched.contains(id@),
    {
        let n = self.watched_channels.len();
        let mut i: usize = 0;
        while i < n
            invariant
                i <= n,
                n == self.watched_channels@.len(),
                forall|j: int| 0 <= j < i ==> (#[trigger] self.watched_channels@[j])@ != id@,
            decreases n - i,
        {
            if str_eq(self.watched_channels[i].as_str(), id) {
                assert(self@.watched[i as int] == id@);
                return true;
            }
            i = i + 1;
        }
        assert(forall|j: int| 0 <= j < self@.watched.len() ==> self@.watched[j] != id@);
        false
    }

    /// Merge a partial configuration update; a non-empty channel list in the
    /// update also replaces the watch-list (duplicates dropped, first
    /// occurrence kept).
    pub fn update_config(&mut self, config: SlackConfig)
        ensures
            final(self)@.config == spec_merged(old(self)@.config, config@),
            config@.channels.len() == 0 ==> final(self)@.watched == old(self)@.watched,
            config@.channels.len() > 0 ==> final(self)@.watched == dedup_first(config@.channels),
            final(self)@.connected == old(self)@.connected,
            final(self)@.users == old(self)@.users,
            final(self)@.emojis == old(self)@.emojis,
            final(self)@.current_channel_name == old(self)@.current_channel_name,
            final(self)@.transport_live == old(self)@.transport_live,
            final(self)@.next_epoch == old(self)@.next_epoch,
    {
        proof {
            use_type_invariant(&*self);
            assert(config@.channels.len() == config.channels@.len());
        }
        if !config.channels.is_empty() {
            let deduped = dedup_strings(&config.channels);
            proof {
                lemma_dedup_first(config.channels@.map_values(|s: String| s@));
            }
            self.watched_channels = deduped;
        }
        let mut merged = SlackConfig::new();
        core::mem::swap(&mut merged, &mut self.config);
        merged.merge_update(config);
        self.config = merged;
    }

    /// The display name of the current channel.
    pub fn get_current_channel_name(&self) -> (r: String)
        ensures
            r@ == self@.current_channel_name,
    {
        self.current_channel_name.clone()
    }

    /// Record that the bot credential was accepted and the client is usable.
    pub fn mark_connected(&mut self)
        ensures
            final(self)@ == (ClientView { connected: true, ..old(self)@ }),
    {
        proof {
            use_type_invariant(&*self);
        }
        self.is_connected = true;
    }

    /// Record that the transport loop has ended, for whatever reason.
    pub fn transport_exited(&mut self)
        ensures
            final(self)@ == (ClientView { connected: false, ..old(self)@ }),
    {
        proof {
            use_type_invariant(&*self);
        }
        self.is_connected = false;
    }

    /// Whether every transport epoch has been used up; while this holds, no
    /// further transport can be started.
    pub fn epochs_exhausted(&self) -> (r: bool)
        ensures
            r == (self@.next_epoch == u64::MAX),
    {
        self.next_epoch == u64::MAX
    }

    /// Supersede any live transport with a fresh one: the previous epoch (to
    /// be cancelled, fire-and-forget) is returned together with the new
    /// transport's epoch.
    pub fn begin_transport(&mut self) -> (r: (Option<u64>, u64))
        requires
            old(self)@.next_epoch < u64::MAX,
        ensures
            r.0 == old(self)@.transport_live,
            r.1 == old(self)@.next_epoch,
            final(self)@ == (ClientView {
                transport_live: Some(old(self)@.next_epoch),
                next_epoch: (old(self)@.next_epoch + 1) as u64,
                ..old(self)@
            }),
    {
        proof {
            use_type_invariant(&*self);
        }
        let cancelled = self.transport_live;
        let epoch = self.next_epoch;
        self.transport_live = Some(epoch);
        self.next_epoch = epoch + 1;
        (cancelled, epoch)
    }

    /// Cancel any live transport and mark the client disconnected at once.
    pub fn disconnect(&mut self) -> (cancelled: Option<u64>)
        ensures
            cancelled == old(self)@.transport_live,
            final(self)@ == (ClientView {
                connected: false,
                transport_live: None,
                ..old(self)@
            }),
    {
        proof {
            use_type_invariant(&*self);
        }
        let cancelled = self.transport_live;
        self.transport_live = None;
        self.is_connected = false;
        cancelled
    }

    /// A snapshot of the configuration, for persistence.
    pub fn config_snapshot(&self) -> (c: SlackConfig)
        ensures
            c@.bot_token == self@.config.bot_token,
            c@.app_token == self@.config.app_token,
            c@.channels == self@.config.channels,
            c@.watched_channel_data.dom() == self@.config.watched_channel_data.dom(),
            forall|k: Seq<char>| self@.config.watched_channel_data.dom().contains(k)
                ==> #[trigger] c@.watched_channel_data[k] == self@.config.watched_channel_data[k],
    {
        let c = SlackConfig {
            bot_token: self.config.bot_token.clone(),
            app_token: self.config.app_token.clone(),
            channels: clone_strings(&self.config.channels),
            watched_channel_data: self.config.watched_channel_data.duplicate(),
        };
        proof {
            assert(c@.watched_channel_data.dom() =~= self@.config.watched_channel_data.dom());
            assert forall|k: Seq<char>| self@.config.watched_channel_data.dom().contains(k)
                implies #[trigger] c@.watched_channel_data[k]
                    == self@.config.watched_channel_data[k] by {
                assert(c.watched_channel_data@[k]@ == self.config.watched_channel_data@[k]@);
            }
        }
        c
    }

    /// The bot credential, copied out for a request.
    pub fn bot_token(&self) -> (r: String)
        ensures
            r@ == self@.config.bot_token,
    {
        self.config.bot_token.clone()
    }

    /// The app credential, copied out for a request.
    pub fn app_token(&self) -> (r: String)
        ensures
            r@ == self@.config.app_token,
    {
        self.config.app_token.clone()
    }

    /// Add `id` to the watch-list, given the channel snapshot the platform
    /// reported for it. Fails, without touching the state, when `id` is
    /// already watched or when the bot is explicitly not a member.
    pub fn add_watch_channel(&mut self, channel_id: &str, channel_info: SlackChannel)
        -> (r: ChannelActionResult)
        ensures
            r.success == spec_add_ok(old(self)@, channel_id@, channel_info@),
            final(self)@ == spec_add_state(old(self)@, channel_id@, channel_info@),
            old(self)@.watched.contains(channel_id@) ==> !r.success
                && opt_str_is(r.error, "指定されたチャンネルは既に監視されています"@),
            !old(self)@.watched.contains(channel_id@)
                && channel_info@.is_member == Some(false) ==> !r.success
                && opt_str_is(
                    r.error,
                    "チャンネル「"@ + channel_info@.name + "」にボットが参加していません"@,
                ),
            r.success ==> r.error is None
                && opt_str_is(r.message, "#"@ + channel_info@.name + " を監視対象に追加しました"@),
    {
        proof {
            use_type_invariant(&*self);
        }
        if self.is_watched(channel_id) {
            return ChannelActionResult {
                success: false,
                error: Some("指定されたチャンネルは既に監視されています".to_owned()),
                message: None,
            };
        }
        if let Some(false) = channel_info.is_member {
            let error = "チャンネル「".to_owned()
                .concat(channel_info.name.as_str())
                .concat("」にボットが参加していません");
            return ChannelActionResult {
                success: false,
                error: Some(error),
                message: None,
            };
        }
        let message = "#".to_owned()
            .concat(channel_info.name.as_str())
            .concat(" を監視対象に追加しました");
        let first = self.watched_channels.is_empty();
        if first {
            self.current_channel_name = channel_info.name.clone();
        }
        let ghost watched0 = self@.watched;
        let mut watched: Vec<String> = Vec::new();
        core::mem::swap(&mut watched, &mut self.watched_channels);
        watched.push(channel_id.to_owned());
        proof {
            let w = watched@.map_values(|s: String| s@);
            assert(w =~= watched0.push(channel_id@));
            assert forall|i: int, j: int| 0 <= i < j < w.len() implies w[i] != w[j] by {
                if j == w.len() - 1 {
                    assert(w[i] == watched0[i]);
                    if watched0[i] == channel_id@ {
                        assert(watched0.contains(channel_id@));
                    }
                }
            }
        }
        self.watched_channels = watched;
        proof {
            assert(self@.watched =~= watched0.push(channel_id@));
        }
        self.config.channels = clone_strings(&self.watched_channels);
        proof {
            crate::strmap::lemma_map_values_insert(
                self.config.watched_channel_data@,
                |c: SlackChannel| c@,
                channel_id@,
                channel_info,
            );
        }
        let mut data = StringMap::new();
        core::mem::swap(&mut data, &mut self.config.watched_channel_data);
        data.insert(channel_id.to_owned(), channel_info);
        self.config.watched_channel_data = data;
        ChannelActionResult {
            success: true,
            error: None,
            message: Some(message),
        }
    }

    /// Remove `id` from the watch-list. Fails, without touching the state,
    /// when `id` is not watched; resets the current channel name to the
    /// default when the list becomes empty.
    pub fn remove_watch_channel(&mut self, channel_id: &str) -> (r: ChannelActionResult)
        ensures
            r.success == spec_remove_ok(old(self)@, channel_id@),
            final(self)@ == spec_remove_state(old(self)@, channel_id@),
            !r.success ==> opt_str_is(r.error, "指定されたチャンネルは監視されていません"@),
            r.success ==> r.error is None && opt_str_is(r.message, "監視を解除しました"@),
    {
        proof {
            use_type_invariant(&*self);
        }
        let ghost v0 = self@;
        let n = self.watched_channels.len();
        let mut i: usize = 0;
        let mut found: Option<usize> = None;
        while i < n
            invariant
                i <= n,
                n == self.watched_channels@.len(),
                match found {
                    Some(k) => k < i && self@.watched[k as int] == channel_id@,
                    None => forall|j: int| 0 <= j < i ==> self@.watched[j] != channel_id@,
                },
                found is Some ==> i == n,
            decreases n - i,
        {
            if str_eq(self.watched_channels[i].as_str(), channel_id) {
                assert(self@.watched[i as int] == channel_id@);
                found = Some(i);
                i = n;
            } else {
                i = i + 1;
            }
        }
        match found {
            None => {
                assert(!spec_remove_ok(v0, channel_id@));
                ChannelActionResult {
                    success: false,
                    error: Some("指定されたチャンネルは監視されていません".to_owned()),
                    message: None,
                }
            },
            Some(k) => {
                proof {
                    let j = choose|j: int| 0 <= j < v0.watched.len() && v0.watched[j]
                        == channel_id@;
                    assert(j == k as int);
                }
                let mut watched: Vec<String> = Vec::new();
                core::mem::swap(&mut watched, &mut self.watched_channels);
                watched.remove(k);
                proof {
                    let w = watched@.map_values(|s: String| s@);
                    assert(w =~= v0.watched.remove(k as int));
                    v0.watched.remove_ensures(k as int);
                    assert forall|i: int, j: int| 0 <= i < j < w.len()
                        implies w[i] != w[j] by {
                        let i0: int = if i < k as int { i } else { i + 1 };
                        let j0: int = if j < k as int { j } else { j + 1 };
                        assert(w[i] == v0.watched[i0]);
                        assert(w[j] == v0.watched[j0]);
                    }
                }
                self.watched_channels = watched;
                proof {
                    assert(self@.watched =~= v0.watched.remove(k as int));
                    assert(self@.watched == remove_id(v0.watched, channel_id@));
                }
                self.config.channels = clone_strings(&self.watched_channels);
                let mut data = StringMap::new();
                core::mem::swap(&mut data, &mut self.config.watched_channel_data);
                data.remove(channel_id);
                self.config.watched_channel_data = data;
                proof {
                    crate::strmap::lemma_map_values_remove(
                        old(self).config.watched_channel_data@,
                        |c: SlackChannel| c@,
                        channel_id@,
                    );
                }
                if self.watched_channels.is_empty() {
                    self.current_channel_name = "waigaya".to_owned();
                }
                ChannelActionResult {
                    success: true,
                    error: None,
                    message: Some("監視を解除しました".to_owned()),
                }
            },
        }
    }

    /// The watched ids and their snapshots, as fresh values.
    pub fn get_watched_channels(&self) -> (r: WatchedChannelsResult)
        ensures
            r.ids@.map_values(|s: String| s@) == self@.watched,
            r.data@.dom() == self@.config.watched_channel_data.dom(),
            forall|k: Seq<char>| self@.config.watched_channel_data.dom().contains(k)
                ==> (#[trigger] r.data@[k])@ == self@.config.watched_channel_data[k],
    {
        let r = WatchedChannelsResult {
            ids: clone_strings(&self.watched_channels),
            data: self.config.watched_channel_data.duplicate(),
        };
        proof {
            assert(r.ids@.map_values(|s: String| s@) =~= self@.watched);
            assert(r.data@.dom() =~= self@.config.watched_channel_data.dom());
            assert forall|k: Seq<char>| self@.config.watched_channel_data.dom().contains(k)
                implies (#[trigger] r.data@[k])@ == self@.config.watched_channel_data[k] by {
                assert(r.data@[k]@ == self.config.watched_channel_data@[k]@);
            }
        }
        r
    }

    /// Look up a cached user profile.
    pub fn get_user(&self, user_id: &str) -> (r: Option<&UserProfile>)
        ensures
            match r {
                Some(p) => self@.users.dom().contains(user_id@) && p@ == self@.users[user_id@],
                None => !self@.users.dom().contains(user_id@),
            },
    {
        let r = self.user_cache.get(user_id);
        proof {
            if self.user_cache@.dom().contains(user_id@) {
                assert(self@.users[user_id@] == self.user_cache@[user_id@]@);
            }
        }
        r
    }

    /// Cache a user profile fetched on demand.
    pub fn insert_user(&mut self, user_id: String, profile: UserProfile)
        ensures
            final(self)@ == (ClientView {
                users: old(self)@.users.insert(user_id@, profile@),
                ..old(self)@
            }),
    {
        proof {
            use_type_invariant(&*self);
            crate::strmap::lemma_map_values_insert(
                self.user_cache@,
                |p: UserProfile| p@,
                user_id@,
                profile,
            );
        }
        let mut cache = StringMap::new();
        core::mem::swap(&mut cache, &mut self.user_cache);
        cache.insert(user_id, profile);
        self.user_cache = cache;
    }

    /// Replace the whole identity cache (bulk fetch or local snapshot).
    pub fn set_local_users_data(&mut self, cache: StringMap<UserProfile>)
        ensures
            final(self)@ == (ClientView {
                users: cache@.map_values(|p: UserProfile| p@),
                ..old(self)@
            }),
    {
        proof {
            use_type_invariant(&*self);
        }
        self.user_cache = cache;
    }

    /// Replace the whole emoji cache (bulk fetch or local snapshot).
    pub fn set_local_emojis_data(&mut self, cache: StringMap<String>)
        ensures
            final(self)@ == (ClientView {
                emojis: cache@.map_values(|u: String| u@),
                ..old(self)@
            }),
    {
        proof {
            use_type_invariant(&*self);
        }
        self.custom_emoji_cache = cache;
    }

    /// The number of cached user profiles.
    pub fn get_users_count(&self) -> (n: usize)
        ensures
            n == self@.users.dom().len(),
    {
        let n = self.user_cache.len();
        proof {
            assert(self@.users.dom() =~= self.user_cache@.dom());
        }
        n
    }

    /// The cached URL of a custom emoji, if any.
    pub fn get_emoji_url(&self, name: &str) -> (r: Option<String>)
        ensures
            match r {
                Some(u) => self@.emojis.dom().contains(name@) && u@ == self@.emojis[name@],
                None => !self@.emojis.dom().contains(name@),
            },
    {
        match self.custom_emoji_cache.get(name) {
            Some(u) => {
                proof {
                    assert(self@.emojis[name@] == self.custom_emoji_cache@[name@]@);
                }
                Some(u.clone())
            },
            None => None,
        }
    }

    /// The sizes of both caches.
    pub fn get_cache_status(&self) -> (r: CacheStatus)
        ensures
            r.users == self@.users.dom().len(),
            r.emojis == self@.emojis.dom().len(),
    {
        proof {
            assert(self@.users.dom() =~= self.user_cache@.dom());
            assert(self@.emojis.dom() =~= self.custom_emoji_cache@.dom());
        }
        CacheStatus {
            users: self.user_cache.len(),
            emojis: self.custom_emoji_cache.len(),
        }
    }

    /// Whether the client is currently marked connected.
    pub fn is_connected(&self) -> (r: bool)
        ensures
            r == self@.connected,
    {
        self.is_connected
    }
}

/// Fresh copies of a string list, character-for-character.
pub fn clone_strings(v: &Vec<String>) -> (r: Vec<String>)
    ensures
        r@.map_values(|s: String| s@) == v@.map_values(|s: String| s@),
{
    let n = v.len();
    let mut r: Vec<String> = Vec::new();
    let mut i: usize = 0;
    while i < n
        invariant
            i <= n,
            n == v@.len(),
            r@.len() == i,
            forall|j: int| 0 <= j < i ==> (#[trigger] r@[j])@ == v@[j]@,
        decreases n - i,
    {
        r.push(v[i].clone());
        i = i + 1;
    }
    proof {
        assert(r@.map_values(|s: String| s@) =~= v@.map_values(|s: String| s@));
    }
    r
}

/// The sequence with later duplicates dropped: each element keeps its first
/// occurrence only.
pub open spec fn dedup_first(s: Seq<Seq<char>>) -> Seq<Seq<char>>
    decreases s.len(),
{
    if s.len() == 0 {
        Seq::empty()
    } else {
        let d = dedup_first(s.drop_last());
        if d.contains(s.last()) {
            d
        } else {
            d.push(s.last())
        }
    }
}

/// Deduplication keeps exactly the members, pairwise distinct.
pub proof fn lemma_dedup_first(s: Seq<Seq<char>>)
    ensures
        seq_distinct(dedup_first(s)),
        forall|x: Seq<char>| dedup_first(s).contains(x) == s.contains(x),
    decreases s.len(),
{
    if s.len() == 0 {
    } else {
        let d0 = dedup_first(s.drop_last());
        lemma_dedup_first(s.drop_last());
        assert forall|x: Seq<char>| dedup_first(s).contains(x) == s.contains(x) by {
            if dedup_first(s).contains(x) {
                if d0.contains(x) {
                    assert(s.drop_last().contains(x));
                    let i = choose|i: int| 0 <= i < s.drop_last().len() && s.drop_last()[i] == x;
                    assert(s[i] == x);
                } else {
                    assert(x == s.last());
                    assert(s[s.len() - 1] == x);
                }
            }
            if s.contains(x) {
                let i = choose|i: int| 0 <= i < s.len() && s[i] == x;
                if i < s.len() - 1 {
                    assert(s.drop_last()[i] == x);
                    assert(s.drop_last().contains(x));
                    if !d0.contains(s.last()) {
                        assert(dedup_first(s)[choose|j: int|
                            0 <= j < d0.len() && d0[j] == x] == x);
                    }
                } else {
                    assert(x == s.last());
                    if d0.contains(x) {
                    } else {
                        assert(dedup_first(s).last() == x);
                    }
                }
            }
        }
        if !d0.contains(s.last()) {
            assert forall|i: int, j: int| 0 <= i < j < dedup_first(s).len()
                implies dedup_first(s)[i] != dedup_first(s)[j] by {
                if j < d0.len() {
                } else {
                    assert(dedup_first(s)[j] == s.last());
                    assert(d0[i] == dedup_first(s)[i]);
                    assert(d0.contains(d0[i]));
                }
            }
        }
    }
}

/// Drop later duplicates from a string list, keeping first occurrences.
pub fn dedup_strings(v: &Vec<String>) -> (r: Vec<String>)
    ensures
        r@.map_values(|s: String| s@) == dedup_first(v@.map_values(|s: String| s@)),
{
    let n = v.len();
    let mut r: Vec<String> = Vec::new();
    let mut i: usize = 0;
    while i < n
        invariant
            i <= n,
            n == v@.len(),
            r@.map_values(|s: String| s@)
                == dedup_first(v@.map_values(|s: String| s@).subrange(0, i as int)),
        decreases n - i,
    {
        let ghost vs = v@.map_values(|s: String| s@);
        let ghost pre = vs.subrange(0, i as int);
        let ghost cur = vs.subrange(0, i + 1 as int);
        proof {
            assert(cur.drop_last() =~= pre);
            assert(cur.last() == vs[i as int]);
        }
        let m = r.len();
        let mut j: usize = 0;
        let mut seen = false;
        while j < m
            invariant
                j <= m,
                m == r@.len(),
                n == v@.len(),
                i < n,
                seen ==> exists|k: int| 0 <= k < m && r@[k]@ == v@[i as int]@,
                !seen ==> forall|k: int| 0 <= k < j ==> r@[k]@ != v@[i as int]@,
            decreases m - j,
        {
            if str_eq(r[j].as_str(), v[i].as_str()) {
                seen = true;
                j = m;
            } else {
                j = j + 1;
            }
        }
        proof {
            let rs = r@.map_values(|s: String| s@);
            if seen {
                let k = choose|k: int| 0 <= k < m && r@[k]@ == v@[i as int]@;
                assert(rs[k] == vs[i as int]);
                assert(rs.contains(vs[i as int]));
            } else {
                assert forall|k: int| 0 <= k < rs.len() implies rs[k] != vs[i as int] by {
                    assert(r@[k]@ != v@[i as int]@);
                }
                assert(!rs.contains(vs[i as int]));
            }
        }
        let ghost r0 = r@;
        if !seen {
            r.push(v[i].clone());
            proof {
                assert(r@.map_values(|s: String| s@)
                    =~= r0.map_values(|s: String| s@).push(vs[i as int]));
            }
        }
        proof {
            assert(r@.map_values(|s: String| s@) =~= dedup_first(cur));
        }
        i = i + 1;
    }
    proof {
        assert(v@.map_values(|s: String| s@).subrange(0, n as int)
            =~= v@.map_values(|s: String| s@));
    }
    r
}

/// The ids on the watch-list and the keys of the channel-snapshot map are
/// the same set, and the persisted channel list mirrors the watch-list.
pub open spec fn watch_consistent(v: ClientView) -> bool {
    &&& v.config.channels == v.watched
    &&& forall|x: Seq<char>| v.watched.contains(x)
        == v.config.watched_channel_data.dom().contains(x)
}

/// A client that watches nothing, with an empty channel list and an empty
/// snapshot map, is consistent; every add/remove sequence starts here.
pub proof fn lemma_initial_consistency(v: ClientView)
    requires
        v.watched == Seq::<Seq<char>>::empty(),
        v.config.channels == Seq::<Seq<char>>::empty(),
        v.config.watched_channel_data == Map::<Seq<char>, ChannelView>::empty(),
    ensures
        watch_consistent(v),
{
}

/// Adding a channel preserves watch-list/metadata-map consistency, whether
/// or not the add succeeds.
pub proof fn lemma_add_preserves_consistency(v: ClientView, id: Seq<char>, info: ChannelView)
    requires
        watch_consistent(v),
    ensures
        watch_consistent(spec_add_state(v, id, info)),
{
    if spec_add_ok(v, id, info) {
        let w = spec_add_state(v, id, info);
        assert forall|x: Seq<char>| w.watched.contains(x)
            == w.config.watched_channel_data.dom().contains(x) by {
            if w.watched.contains(x) {
                let i = choose|i: int| 0 <= i < w.watched.len() && w.watched[i] == x;
                if i < v.watched.len() {
                    assert(v.watched.contains(x));
                } else {
                    assert(x == id);
                }
            }
            if w.config.watched_channel_data.dom().contains(x) {
                if x == id {
                    assert(w.watched[w.watched.len() - 1] == x);
                } else {
                    assert(v.watched.contains(x));
                    let i = choose|i: int| 0 <= i < v.watched.len() && v.watched[i] == x;
                    assert(w.watched[i] == x);
                }
            }
        }
    }
}

/// Removing a channel preserves watch-list/metadata-map consistency, whether
/// or not the remove succeeds.
pub proof fn lemma_remove_preserves_consistency(v: ClientView, id: Seq<char>)
    requires
        watch_consistent(v),
        seq_distinct(v.watched),
    ensures
        watch_consistent(spec_remove_state(v, id)),
{
    if spec_remove_ok(v, id) {
        let w = spec_remove_state(v, id);
        let i = choose|i: int| 0 <= i < v.watched.len() && v.watched[i] == id;
        assert(w.watched == v.watched.remove(i));
        assert forall|x: Seq<char>| w.watched.contains(x)
            == w.config.watched_channel_data.dom().contains(x) by {
            if w.watched.contains(x) {
                let j = choose|j: int| 0 <= j < w.watched.len() && w.watched[j] == x;
                if j < i {
                    assert(v.watched[j] == x);
                } else {
                    assert(v.watched[j + 1] == x);
                }
                assert(v.watched.contains(x));
                assert(x != id);
            }
            if w.config.watched_channel_data.dom().contains(x) {
                assert(x != id);
                assert(v.watched.contains(x));
                let j = choose|j: int| 0 <= j < v.watched.len() && v.watched[j] == x;
                assert(j != i);
                if j < i {
                    assert(w.watched[j] == x);
                } else {
                    assert(w.watched[j - 1] == x);
                }
                assert(w.watched.contains(x));
            }
        }
    }
}

/// A failing add (already watched) and a failing remove (not watched) leave
/// the state untouched.
pub proof fn lemma_failed_mutations_leave_state(v: ClientView, id: Seq<char>, info: ChannelView)
    ensures
        v.watched.contains(id) ==> spec_add_state(v, id, info) == v,
        !v.watched.contains(id) ==> spec_remove_state(v, id) == v,
{
}

/// The first successful add names the current channel; removing the last
/// watched channel resets the name to the default; a later add names it
/// again.
pub proof fn lemma_current_name_lifecycle(
    v: ClientView,
    id1: Seq<char>,
    info1: ChannelView,
    id2: Seq<char>,
    info2: ChannelView,
)
    requires
        v.watched.len() == 0,
        info1.is_member != Some(false),
        info2.is_member != Some(false),
    ensures
        spec_add_state(v, id1, info1).current_channel_name == info1.name,
        spec_remove_state(spec_add_state(v, id1, info1), id1).current_channel_name
            == default_channel_name(),
        spec_add_state(
            spec_remove_state(spec_add_state(v, id1, info1), id1),
            id2,
            info2,
        ).current_channel_name == info2.name,
{
    let v1 = spec_add_state(v, id1, info1);
    assert(!v.watched.contains(id1));
    assert(v1.watched == v.watched.push(id1));
    assert(v1.watched[0] == id1);
    assert(v1.watched.contains(id1));
    let i = choose|i: int| 0 <= i < v1.watched.len() && v1.watched[i] == id1;
    assert(i == 0);
    let v2 = spec_remove_state(v1, id1);
    assert(v2.watched =~= Seq::<Seq<char>>::empty());
    assert(!v2.watched.contains(id2));
}

/// Starting a transport twice leaves exactly one live transport: the second
/// one. The first start's epoch is handed back by the second start as the
/// epoch to cancel.
pub proof fn lemma_single_live_transport(v: ClientView)
    requires
        v.next_epoch + 1 < u64::MAX,
    ensures
        ({
            let v1 = ClientView {
                transport_live: Some(v.next_epoch),
                next_epoch: (v.next_epoch + 1) as u64,
                ..v
            };
            let e1 = v.next_epoch;
            let v2 = ClientView {
                transport_live: Some(v1.next_epoch),
                next_epoch: (v1.next_epoch + 1) as u64,
                ..v1
            };
            let e2 = v1.next_epoch;
            &&& v1.transport_live == Some(e1)
            &&& v2.transport_live == Some(e2)
            &&& e1 != e2
            &&& v2.transport_live != Some(e1)
        }),
{
}

} // verus!
