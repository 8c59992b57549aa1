//! Credentials, the persisted channel configuration, and the merge rule for
//! partial configuration updates.

use vstd::prelude::*;
use crate::strmap::{Dup, StringMap};

verus! {

/// A channel snapshot as the platform reports it.
pub struct SlackChannel {
    pub id: String,
    pub name: String,
    pub is_private: Option<bool>,
    pub is_member: Option<bool>,
}

/// Mathematical view of a channel snapshot.
pub ghost struct ChannelView {
    pub id: Seq<char>,
    pub name: Seq<char>,
    pub is_private: Option<bool>,
    pub is_member: Option<bool>,
}

impl View for SlackChannel {
    type V = ChannelView;

    open spec fn view(&self) -> ChannelView {
        ChannelView {
            id: self.id@,
            name: self.name@,
            is_private: self.is_private,
            is_member: self.is_member,
        }
    }
}

impl Dup for SlackChannel {
    fn dup(&self) -> (r: Self) {
        SlackChannel {
            id: self.id.clone(),
            name: self.name.clone(),
            is_private: self.is_private,
            is_member: self.is_member,
        }
    }
}

/// Bot and app credentials, the watched channel ids, and the snapshot kept
/// for each watched channel.
pub struct SlackConfig {
    pub bot_token: String,
    pub app_token: String,
    pub channels: Vec<String>,
    pub watched_channel_data: StringMap<SlackChannel>,
}

/// Mathematical view of a configuration.
pub ghost struct ConfigView {
    pub bot_token: Seq<char>,
    pub app_token: Seq<char>,
    pub channels: Seq<Seq<char>>,
    pub watched_channel_data: Map<Seq<char>, ChannelView>,
}

impl View for SlackConfig {
    type V = ConfigView;

    open spec fn view(&self) -> ConfigView {
        ConfigView {
            bot_token: self.bot_token@,
            app_token: self.app_token@,
            channels: self.channels@.map_values(|s: String| s@),
            watched_channel_data: self.watched_channel_data@.map_values(|c: SlackChannel| c@),
        }
    }
}

/// The view of an entirely empty configuration.
pub open spec fn empty_config_view() -> ConfigView {
    ConfigView {
        bot_token: Seq::empty(),
        app_token: Seq::empty(),
        channels: Seq::empty(),
        watched_channel_data: Map::empty(),
    }
}

/// The merge rule: every empty field of the update is treated as unset and
/// the current value is kept; every non-empty field replaces it.
pub open spec fn spec_merged(current: ConfigView, update: ConfigView) -> ConfigView {
    ConfigView {
        bot_token: if update.bot_token.len() == 0 {
            current.bot_token
        } else {
            update.bot_token
        },
        app_token: if update.app_token.len() == 0 {
            current.app_token
        } else {
            update.app_token
        },
        channels: if update.channels.len() == 0 {
            current.channels
        } else {
            update.channels
        },
        watched_channel_data: if update.watched_channel_data.dom().len() == 0 {
            current.watched_channel_data
        } else {
            update.watched_channel_data
        },
    }
}

impl SlackConfig {
    /// An entirely empty configuration.
    pub fn new() -> (c: Self)
        ensures
            c@ == empty_config_view(),
    {
        let c = SlackConfig {
            bot_token: String::new(),
            app_token: String::new(),
            channels: Vec::new(),
            watched_channel_data: StringMap::new(),
        };
        proof {
            assert(c@.channels =~= Seq::<Seq<char>>::empty());
            assert(c@.watched_channel_data =~= Map::<Seq<char>, ChannelView>::empty());
            assert(c@ == empty_config_view());
        }
        c
    }

    /// Merge a partial update into this configuration, keeping every field
    /// the update leaves empty.
    pub fn merge_update(&mut self, update: SlackConfig)
        ensures
            final(self)@ == spec_merged(old(self)@, update@),
    {
        let ghost u = update@;
        let SlackConfig { bot_token, app_token, channels, watched_channel_data } = update;
        if !bot_token.as_str().is_empty() {
            self.bot_token = bot_token;
        }
        if !app_token.as_str().is_empty() {
            self.app_token = app_token;
        }
        proof {
            assert(channels@.map_values(|s: String| s@).len() == channels@.len());
        }
        if !channels.is_empty() {
            self.channels = channels;
        }
        proof {
            lemma_map_values_dom_len(watched_channel_data@, u.watched_channel_data);
        }
        let data_len = watched_channel_data.len();
        if data_len != 0 {
            self.watched_channel_data = watched_channel_data;
        }
    }
}

/// Mapping a map's values leaves its domain unchanged.
proof fn lemma_map_values_dom_len(m: Map<Seq<char>, SlackChannel>, mv: Map<Seq<char>, ChannelView>)
    requires
        mv == m.map_values(|c: SlackChannel| c@),
    ensures
        mv.dom() == m.dom(),
{
    assert(mv.dom() =~= m.dom());
}

/// Merging any update and then merging an entirely empty update changes
/// nothing, and an update with an empty channel list never replaces the
/// channel list.
pub proof fn lemma_merge_idempotent(current: ConfigView, update: ConfigView)
    ensures
        spec_merged(spec_merged(current, update), empty_config_view())
            == spec_merged(current, update),
        update.channels.len() == 0 ==> spec_merged(current, update).channels == current.channels,
{
    assert(Map::<Seq<char>, ChannelView>::empty().dom() =~= Set::<Seq<char>>::empty());
}

/// Outcome of persisting the configuration.
pub struct ConfigSaveResult {
    pub success: bool,
    pub error: Option<String>,
}

/// Outcome of loading the persisted configuration.
pub struct ConfigLoadResult {
    pub success: bool,
    pub config: Option<SlackConfig>,
    pub error: Option<String>,
}

} // verus!
