use waigaya_core::client::SlackClientState;
use waigaya_core::mentions::mention_ids;
use waigaya_core::profile::UserProfile;

fn profile(name: Option<&str>, real: Option<&str>, display: Option<&str>) -> UserProfile {
    UserProfile {
        name: name.map(|s| s.to_string()),
        real_name: real.map(|s| s.to_string()),
        display_name: display.map(|s| s.to_string()),
        image_72: None,
        image_48: None,
    }
}

#[test]
fn mention_ids_are_distinct_in_first_seen_order() {
    let ids = mention_ids("hi <@U1> and <@U2|bob>, again <@U1|x>");
    assert_eq!(ids, vec!["U1".to_string(), "U2".to_string()]);
}

#[test]
fn mention_ids_ignore_malformed_tokens() {
    assert_eq!(mention_ids("<@u1> <@U> <@U1 <@X1>").len(), 0);
    assert_eq!(mention_ids("<@U1|unclosed").len(), 0);
}

#[test]
fn text_without_mentions_is_unchanged() {
    let state = SlackClientState::new();
    let text = "plain text with <b>markup</b> & symbols";
    assert_eq!(state.resolve_mentions(text), text);
}

#[test]
fn resolving_twice_changes_nothing_without_mentions() {
    let state = SlackClientState::new();
    let once = state.resolve_mentions("no references here");
    let twice = state.resolve_mentions(once.as_str());
    assert_eq!(once, twice);
}

#[test]
fn both_token_shapes_resolve_identically() {
    let mut state = SlackClientState::new();
    state.insert_user("U1".to_string(), profile(Some("ann"), Some("Ann"), None));
    let resolved = state.resolve_mentions("hi <@U1> and <@U1|x>");
    assert_eq!(
        resolved,
        "hi <span class=\"slack-mention\">@Ann</span> and <span class=\"slack-mention\">@Ann</span>"
    );
}

#[test]
fn resolved_name_is_html_escaped() {
    let mut state = SlackClientState::new();
    state.insert_user("U7".to_string(), profile(None, Some("A&n<n>\"q\""), None));
    let resolved = state.resolve_mentions("<@U7>");
    assert_eq!(
        resolved,
        "<span class=\"slack-mention\">@A&amp;n&lt;n&gt;&quot;q&quot;</span>"
    );
}

#[test]
fn display_name_takes_priority_over_real_name() {
    let mut state = SlackClientState::new();
    state.insert_user("U2".to_string(), profile(Some("gen"), Some("Real"), Some("Disp")));
    assert_eq!(
        state.resolve_mentions("<@U2>"),
        "<span class=\"slack-mention\">@Disp</span>"
    );
}

#[test]
fn empty_display_name_falls_back_to_real_name() {
    let mut state = SlackClientState::new();
    state.insert_user("U3".to_string(), profile(Some("gen"), Some("Real"), Some("")));
    assert_eq!(
        state.resolve_mentions("<@U3>"),
        "<span class=\"slack-mention\">@Real</span>"
    );
}

#[test]
fn unknown_user_resolves_to_unknown() {
    let state = SlackClientState::new();
    assert_eq!(
        state.resolve_mentions("<@U404>"),
        "<span class=\"slack-mention\">@unknown</span>"
    );
}

#[test]
fn other_users_tokens_are_left_alone_by_each_pass() {
    let mut state = SlackClientState::new();
    state.insert_user("U1".to_string(), profile(Some("ann"), None, None));
    state.insert_user("U2".to_string(), profile(Some("bob"), None, None));
    let resolved = state.resolve_mentions("<@U1> <@U2>");
    assert_eq!(
        resolved,
        "<span class=\"slack-mention\">@ann</span> <span class=\"slack-mention\">@bob</span>"
    );
}
