use waigaya_core::gateway::{
    AppsConnectionsOpenResponse, AuthTestResponse, ConversationChannel,
    ConversationsInfoResponse, ConversationsListResponse, ConversationsRepliesResponse,
    EmojiListResponse, MemberRecord, ReplyMessage, ResponseMetadata, UsersListResponse,
    app_token_format_error, auth_step, channel_info_step, channel_page_step, collect_pages,
    connect_net_failure, credentials_error, emoji_list_step, replies_parent_step,
    socket_test_failure, socket_test_step, socket_url_step, test_auth_net_failure,
    users_list_step,
};
use waigaya_core::profile::UserProfile;

fn conv(id: &str, name: &str) -> ConversationChannel {
    ConversationChannel {
        id: id.to_string(),
        name: name.to_string(),
        is_private: false,
        is_member: true,
    }
}

fn empty_profile() -> UserProfile {
    UserProfile { name: None, real_name: None, display_name: None, image_72: None, image_48: None }
}

#[test]
fn missing_credentials_are_rejected_before_any_call() {
    let r = credentials_error("", "xapp-1").unwrap();
    assert!(!r.success);
    assert_eq!(r.error, Some("Bot Token と App Token が必要です".to_string()));
    assert!(credentials_error("xoxb-1", "").is_some());
    assert!(credentials_error("xoxb-1", "xapp-1").is_none());
}

#[test]
fn auth_step_carries_the_platform_error() {
    let ok = AuthTestResponse { ok: true, user: Some("bot".to_string()), error: None };
    assert!(auth_step(&ok).is_ok());
    let bad = AuthTestResponse { ok: false, user: None, error: Some("invalid_auth".to_string()) };
    assert_eq!(auth_step(&bad).unwrap_err(), "Bot Token認証失敗: invalid_auth");
}

#[test]
fn network_failure_messages_name_their_stage() {
    let r = test_auth_net_failure("HTTP通信エラー: timeout");
    assert_eq!(r.error, Some("Bot Token認証エラー: HTTP通信エラー: timeout".to_string()));
    let r = connect_net_failure("HTTP通信エラー: refused");
    assert_eq!(r.error, Some("接続エラー: HTTP通信エラー: refused".to_string()));
    let r = socket_test_failure("Socket Mode接続失敗: nope");
    assert_eq!(
        r.error,
        Some("Socket Mode接続テスト失敗: Socket Mode接続失敗: nope".to_string())
    );
}

#[test]
fn app_token_must_carry_the_platform_prefix() {
    let r = app_token_format_error("xoxb-wrong").unwrap();
    assert_eq!(r.error, Some("App Tokenは 'xapp-' で始まる必要があります".to_string()));
    assert!(app_token_format_error("xapp-right").is_none());
}

#[test]
fn socket_steps_distinguish_refusal_and_missing_url() {
    let refused = AppsConnectionsOpenResponse { ok: false, url: None, error: Some("denied".to_string()) };
    assert_eq!(socket_test_step(&refused).unwrap_err(), "Socket Mode接続失敗: denied");
    let accepted = AppsConnectionsOpenResponse {
        ok: true,
        url: Some("wss://push.test/socket".to_string()),
        error: None,
    };
    assert!(socket_test_step(&accepted).is_ok());
    let no_url = AppsConnectionsOpenResponse { ok: true, url: None, error: None };
    assert_eq!(socket_url_step(no_url).unwrap_err(), "WebSocket URLが取得できません");
    let with_url = AppsConnectionsOpenResponse {
        ok: true,
        url: Some("wss://push.test/socket".to_string()),
        error: None,
    };
    assert_eq!(socket_url_step(with_url).unwrap(), "wss://push.test/socket");
}

#[test]
fn channel_page_converts_and_reports_cursor() {
    let resp = ConversationsListResponse {
        ok: true,
        channels: vec![conv("C1", "one"), conv("C2", "two")],
        response_metadata: Some(ResponseMetadata { next_cursor: "next-page".to_string() }),
        error: None,
    };
    let (page, cursor) = channel_page_step(resp).unwrap();
    assert_eq!(page.len(), 2);
    assert_eq!(page[0].id, "C1");
    assert_eq!(page[0].is_member, Some(true));
    assert_eq!(cursor, Some("next-page".to_string()));

    let last = ConversationsListResponse {
        ok: true,
        channels: vec![conv("C3", "three")],
        response_metadata: Some(ResponseMetadata { next_cursor: String::new() }),
        error: None,
    };
    let (_, cursor) = channel_page_step(last).unwrap();
    assert_eq!(cursor, None);

    let failed = ConversationsListResponse {
        ok: false,
        channels: vec![],
        response_metadata: None,
        error: Some("ratelimited".to_string()),
    };
    match channel_page_step(failed) {
        Err(e) => assert_eq!(e, "APIエラー: ratelimited"),
        Ok(_) => panic!("expected an error"),
    }
}

#[test]
fn pagination_accumulates_all_pages() {
    let first: Vec<_> = (0..1000).map(|i| {
        channel_info_step(&format!("C{}", i), Some(ConversationsInfoResponse {
            ok: true,
            channel: Some(conv(&format!("C{}", i), &format!("name{}", i))),
        }))
    }).collect();
    let second: Vec<_> = (1000..1037).map(|i| {
        channel_info_step(&format!("C{}", i), Some(ConversationsInfoResponse {
            ok: true,
            channel: Some(conv(&format!("C{}", i), &format!("name{}", i))),
        }))
    }).collect();
    let all = collect_pages(vec![first, second]);
    assert_eq!(all.len(), 1037);
    let mut ids: Vec<String> = all.iter().map(|c| c.id.clone()).collect();
    ids.sort();
    ids.dedup();
    assert_eq!(ids.len(), 1037);
    assert_eq!(all[0].id, "C0");
    assert_eq!(all[1036].id, "C1036");
}

#[test]
fn channel_info_falls_back_to_unknown() {
    let fetched = channel_info_step("C1", Some(ConversationsInfoResponse {
        ok: true,
        channel: Some(conv("C1", "general")),
    }));
    assert_eq!(fetched.name, "general");
    let missing = channel_info_step("C1", Some(ConversationsInfoResponse { ok: true, channel: None }));
    assert_eq!(missing.id, "C1");
    assert_eq!(missing.name, "unknown");
    assert_eq!(missing.is_member, None);
    let unreachable_host = channel_info_step("C2", None);
    assert_eq!(unreachable_host.name, "unknown");
}

#[test]
fn users_list_keeps_only_members_with_id_and_profile() {
    let members = vec![
        MemberRecord {
            id: Some("U1".to_string()),
            has_profile: true,
            profile: UserProfile { real_name: Some("Ann".to_string()), ..empty_profile() },
        },
        MemberRecord { id: None, has_profile: true, profile: empty_profile() },
        MemberRecord { id: Some("U3".to_string()), has_profile: false, profile: empty_profile() },
    ];
    let cache = users_list_step(UsersListResponse { ok: true, members, error: None }).unwrap();
    assert_eq!(cache.len(), 1);
    assert_eq!(cache.get("U1").unwrap().real_name, Some("Ann".to_string()));
    assert!(cache.get("U3").is_none());

    let failed = UsersListResponse { ok: false, members: vec![], error: Some("nope".to_string()) };
    match users_list_step(failed) {
        Err(e) => assert_eq!(e, "APIエラー: nope"),
        Ok(_) => panic!("expected an error"),
    }
}

#[test]
fn emoji_filter_drops_alias_entries() {
    let resp = EmojiListResponse {
        ok: true,
        emoji: vec![
            ("party".to_string(), "https://emoji.test/party.png".to_string()),
            ("shortcut".to_string(), "alias:party".to_string()),
            ("plain".to_string(), "http://emoji.test/plain.gif".to_string()),
        ],
        error: None,
    };
    let (list, cache) = emoji_list_step(resp).unwrap();
    assert_eq!(list.len(), 2);
    assert_eq!(list[0].name, "party");
    assert_eq!(list[1].name, "plain");
    assert!(cache.contains_key("party"));
    assert!(cache.contains_key("plain"));
    assert!(!cache.contains_key("shortcut"));
}

#[test]
fn replies_parent_truncates_to_fifty_characters() {
    let long: String = (0..60).map(|_| 'x').collect();
    let resp = ConversationsRepliesResponse {
        ok: true,
        messages: vec![ReplyMessage { text: Some(long), user: Some("U9".to_string()) }],
        error: None,
    };
    let (user, text) = replies_parent_step(&resp).unwrap();
    assert_eq!(user, "U9");
    assert_eq!(text.chars().count(), 50);

    let empty = ConversationsRepliesResponse { ok: true, messages: vec![], error: None };
    assert!(replies_parent_step(&empty).is_none());
    let failed = ConversationsRepliesResponse { ok: false, messages: vec![], error: None };
    assert!(replies_parent_step(&failed).is_none());
}
