use waigaya_core::client::SlackClientState;
use waigaya_core::config::SlackChannel;

fn channel(id: &str, name: &str, member: Option<bool>) -> SlackChannel {
    SlackChannel {
        id: id.to_string(),
        name: name.to_string(),
        is_private: Some(false),
        is_member: member,
    }
}

fn ids_match_data_keys(state: &SlackClientState) -> bool {
    let watched = state.get_watched_channels();
    let mut ids = watched.ids.clone();
    let mut keys = watched.data.keys();
    ids.sort();
    keys.sort();
    ids == keys
}

#[test]
fn add_inserts_into_both_structures() {
    let mut state = SlackClientState::new();
    let r = state.add_watch_channel("C1", channel("C1", "general", Some(true)));
    assert!(r.success);
    assert_eq!(r.message, Some("#general を監視対象に追加しました".to_string()));
    let watched = state.get_watched_channels();
    assert_eq!(watched.ids, vec!["C1".to_string()]);
    assert_eq!(watched.data.get("C1").unwrap().name, "general");
    assert!(ids_match_data_keys(&state));
}

#[test]
fn add_existing_fails_without_mutation() {
    let mut state = SlackClientState::new();
    assert!(state.add_watch_channel("C1", channel("C1", "general", Some(true))).success);
    let before = state.get_watched_channels();
    let r = state.add_watch_channel("C1", channel("C1", "renamed", Some(true)));
    assert!(!r.success);
    assert_eq!(r.error, Some("指定されたチャンネルは既に監視されています".to_string()));
    let after = state.get_watched_channels();
    assert_eq!(before.ids, after.ids);
    assert_eq!(after.data.get("C1").unwrap().name, "general");
    assert_eq!(state.get_current_channel_name(), "general");
}

#[test]
fn add_refuses_channel_without_bot_membership() {
    let mut state = SlackClientState::new();
    let r = state.add_watch_channel("C9", channel("C9", "private-place", Some(false)));
    assert!(!r.success);
    assert_eq!(
        r.error,
        Some("チャンネル「private-place」にボットが参加していません".to_string())
    );
    assert_eq!(state.get_watched_channels().ids.len(), 0);
    assert_eq!(state.get_current_channel_name(), "waigaya");
}

#[test]
fn remove_missing_fails_without_mutation() {
    let mut state = SlackClientState::new();
    assert!(state.add_watch_channel("C1", channel("C1", "general", Some(true))).success);
    let r = state.remove_watch_channel("C2");
    assert!(!r.success);
    assert_eq!(r.error, Some("指定されたチャンネルは監視されていません".to_string()));
    assert_eq!(state.get_watched_channels().ids, vec!["C1".to_string()]);
}

#[test]
fn keyset_equality_through_interleaved_sequence() {
    let mut state = SlackClientState::new();
    assert!(state.add_watch_channel("C1", channel("C1", "one", Some(true))).success);
    assert!(ids_match_data_keys(&state));
    assert!(state.add_watch_channel("C2", channel("C2", "two", Some(true))).success);
    assert!(ids_match_data_keys(&state));
    assert!(state.remove_watch_channel("C1").success);
    assert!(ids_match_data_keys(&state));
    assert!(state.add_watch_channel("C1", channel("C1", "one-again", Some(true))).success);
    assert!(ids_match_data_keys(&state));
    assert!(state.remove_watch_channel("C2").success);
    assert!(ids_match_data_keys(&state));
    assert!(state.remove_watch_channel("C1").success);
    assert!(ids_match_data_keys(&state));
    assert_eq!(state.get_watched_channels().ids.len(), 0);
}

#[test]
fn current_name_lifecycle() {
    let mut state = SlackClientState::new();
    assert_eq!(state.get_current_channel_name(), "waigaya");
    assert!(state.add_watch_channel("C1", channel("C1", "first", Some(true))).success);
    assert_eq!(state.get_current_channel_name(), "first");
    assert!(state.add_watch_channel("C2", channel("C2", "second", Some(true))).success);
    assert_eq!(state.get_current_channel_name(), "first");
    assert!(state.remove_watch_channel("C2").success);
    assert!(state.remove_watch_channel("C1").success);
    assert_eq!(state.get_current_channel_name(), "waigaya");
    assert!(state.add_watch_channel("C3", channel("C3", "third", Some(true))).success);
    assert_eq!(state.get_current_channel_name(), "third");
}

#[test]
fn remove_success_message() {
    let mut state = SlackClientState::new();
    assert!(state.add_watch_channel("C1", channel("C1", "general", Some(true))).success);
    let r = state.remove_watch_channel("C1");
    assert!(r.success);
    assert_eq!(r.message, Some("監視を解除しました".to_string()));
}

#[test]
fn update_config_restores_watch_list() {
    let mut state = SlackClientState::new();
    let mut config = waigaya_core::config::SlackConfig::new();
    config.channels = vec!["C1".to_string(), "C2".to_string(), "C1".to_string()];
    state.update_config(config);
    let watched = state.get_watched_channels();
    assert_eq!(watched.ids, vec!["C1".to_string(), "C2".to_string()]);
}

#[test]
fn update_config_with_empty_channels_keeps_watch_list() {
    let mut state = SlackClientState::new();
    assert!(state.add_watch_channel("C1", channel("C1", "general", Some(true))).success);
    state.update_config(waigaya_core::config::SlackConfig::new());
    assert_eq!(state.get_watched_channels().ids, vec!["C1".to_string()]);
}

#[test]
fn second_transport_supersedes_first() {
    let mut state = SlackClientState::new();
    state.mark_connected();
    assert!(state.is_connected());
    let (cancelled1, epoch1) = state.begin_transport();
    assert_eq!(cancelled1, None);
    let (cancelled2, epoch2) = state.begin_transport();
    assert_eq!(cancelled2, Some(epoch1));
    assert_ne!(epoch1, epoch2);
    let cancelled3 = state.disconnect();
    assert_eq!(cancelled3, Some(epoch2));
    assert!(!state.is_connected());
}

#[test]
fn cache_status_counts_both_caches() {
    let mut state = SlackClientState::new();
    let status = state.get_cache_status();
    assert_eq!(status.users, 0);
    assert_eq!(status.emojis, 0);
    state.insert_user(
        "U1".to_string(),
        waigaya_core::profile::UserProfile {
            name: Some("ann".to_string()),
            real_name: None,
            display_name: None,
            image_72: None,
            image_48: None,
        },
    );
    let mut emojis = waigaya_core::strmap::StringMap::new();
    emojis.insert("party".to_string(), "https://example.test/party.png".to_string());
    state.set_local_emojis_data(emojis);
    let status = state.get_cache_status();
    assert_eq!(status.users, 1);
    assert_eq!(status.emojis, 1);
    assert_eq!(state.get_users_count(), 1);
    assert_eq!(
        state.get_emoji_url("party"),
        Some("https://example.test/party.png".to_string())
    );
    assert_eq!(state.get_emoji_url("missing"), None);
}
