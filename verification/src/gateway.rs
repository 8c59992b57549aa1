//! Models of the platform's API responses and the decisions taken on them:
//! authentication outcomes, channel-list pagination, user and emoji
//! filtering, and thread-reply lookup. The HTTP calls themselves are the
//! host's job; every function here is a total decision on plain values.

use vstd::prelude::*;
use crate::config::{ChannelView, SlackChannel};
use crate::profile::{ProfileView, UserProfile, view_of_opt};
use crate::strmap::{Dup, StringMap, lemma_map_values_insert};
use crate::text::{has_prefix, opt_or_empty, opt_str_is, spec_take, str_or_empty,
    str_starts_with, truncate_chars};
use vstd::string::StringExecFns;

verus! {

/// The identity-check response.
pub struct AuthTestResponse {
    pub ok: bool,
    pub user: Option<String>,
    pub error: Option<String>,
}

/// The push-handshake response carrying the one-time transport URL.
pub struct AppsConnectionsOpenResponse {
    pub ok: bool,
    pub url: Option<String>,
    pub error: Option<String>,
}

/// One channel as the channel-list endpoint reports it.
pub struct ConversationChannel {
    pub id: String,
    pub name: String,
    pub is_private: bool,
    pub is_member: bool,
}

/// The pagination cursor trailer of a channel-list page.
pub struct ResponseMetadata {
    pub next_cursor: String,
}

/// One page of the channel list.
pub struct ConversationsListResponse {
    pub ok: bool,
    pub channels: Vec<ConversationChannel>,
    pub response_metadata: Option<ResponseMetadata>,
    pub error: Option<String>,
}

/// The single-channel lookup response.
pub struct ConversationsInfoResponse {
    pub ok: bool,
    pub channel: Option<ConversationChannel>,
}

/// One member of the user-list response: its id when the source carries one,
/// whether a profile sub-object is present, and the profile fields read
/// later.
pub struct MemberRecord {
    pub id: Option<String>,
    pub has_profile: bool,
    pub profile: UserProfile,
}

/// The user-list response.
pub struct UsersListResponse {
    pub ok: bool,
    pub members: Vec<MemberRecord>,
    pub error: Option<String>,
}

/// The custom-emoji listing: name/URL pairs in the order received.
pub struct EmojiListResponse {
    pub ok: bool,
    pub emoji: Vec<(String, String)>,
    pub error: Option<String>,
}

/// One message of a thread-replies response.
pub struct ReplyMessage {
    pub text: Option<String>,
    pub user: Option<String>,
}

/// The thread-replies response.
pub struct ConversationsRepliesResponse {
    pub ok: bool,
    pub messages: Vec<ReplyMessage>,
    pub error: Option<String>,
}

/// A listed custom emoji.
pub struct CustomEmoji {
    pub name: String,
    pub url: String,
}

impl View for CustomEmoji {
    type V = (Seq<char>, Seq<char>);

    open spec fn view(&self) -> (Seq<char>, Seq<char>) {
        (self.name@, self.url@)
    }
}

/// Result of listing channels.
pub struct ChannelListResult {
    pub success: bool,
    pub channels: Option<Vec<SlackChannel>>,
    pub error: Option<String>,
}

/// Result of listing custom emojis.
pub struct EmojiListResult {
    pub success: bool,
    pub emojis: Option<Vec<CustomEmoji>>,
    pub error: Option<String>,
}

/// Result of reloading the user cache.
pub struct UsersReloadResult {
    pub success: bool,
    pub count: Option<usize>,
    pub error: Option<String>,
}

/// Result of counting cached users.
pub struct UsersCountResult {
    pub success: bool,
    pub count: usize,
    pub error: Option<String>,
}

/// Result of persisting the emoji snapshot.
pub struct EmojiSaveResult {
    pub success: bool,
    pub error: Option<String>,
}

/// The view of a listed channel as a channel snapshot.
pub open spec fn conv_channel_view(c: ConversationChannel) -> ChannelView {
    ChannelView {
        id: c.id@,
        name: c.name@,
        is_private: Some(c.is_private),
        is_member: Some(c.is_member),
    }
}

/// Turn a listed channel into a channel snapshot.
pub fn to_slack_channel(c: &ConversationChannel) -> (r: SlackChannel)
    ensures
        r@ == conv_channel_view(*c),
{
    SlackChannel {
        id: c.id.clone(),
        name: c.name.clone(),
        is_private: Some(c.is_private),
        is_member: Some(c.is_member),
    }
}

/// A missing-credentials check: the error the connection entry points
/// return, without any network call, when either token is absent.
pub fn credentials_error(bot_token: &str, app_token: &str)
    -> (r: Option<crate::client::SlackConnectionResult>)
    ensures
        r is Some <==> (bot_token@.len() == 0 || app_token@.len() == 0),
        match r {
            Some(res) => !res.success && opt_str_is(res.error, "Bot Token と App Token が必要です"@),
            None => true,
        },
{
    if bot_token.is_empty() || app_token.is_empty() {
        Some(crate::client::SlackConnectionResult {
            success: false,
            error: Some("Bot Token と App Token が必要です".to_owned()),
        })
    } else {
        None
    }
}

/// The identity-check outcome: accepted, or the platform's refusal message.
pub fn auth_step(resp: &AuthTestResponse) -> (r: Result<(), String>)
    ensures
        r is Ok <==> resp.ok,
        match r {
            Ok(_) => true,
            Err(e) => e@ == "Bot Token認証失敗: "@ + opt_or_empty(resp.error),
        },
{
    if resp.ok {
        Ok(())
    } else {
        Err("Bot Token認証失敗: ".to_owned().concat(str_or_empty(&resp.error).as_str()))
    }
}

/// A failed identity check during a connection test, for a transport-level
/// failure described by `detail`.
pub fn test_auth_net_failure(detail: &str) -> (r: crate::client::SlackConnectionResult)
    ensures
        !r.success,
        opt_str_is(r.error, "Bot Token認証エラー: "@ + detail@),
{
    crate::client::SlackConnectionResult {
        success: false,
        error: Some("Bot Token認証エラー: ".to_owned().concat(detail)),
    }
}

/// A failed identity check during connect, for a transport-level failure.
pub fn connect_net_failure(detail: &str) -> (r: crate::client::SlackConnectionResult)
    ensures
        !r.success,
        opt_str_is(r.error, "接続エラー: "@ + detail@),
{
    crate::client::SlackConnectionResult {
        success: false,
        error: Some("接続エラー: ".to_owned().concat(detail)),
    }
}

/// The app-token format check: the token must carry the platform's
/// app-token prefix.
pub fn app_token_format_error(app_token: &str)
    -> (r: Option<crate::client::SlackConnectionResult>)
    ensures
        r is Some <==> !has_prefix(app_token@, "xapp-"@),
        match r {
            Some(res) => !res.success
                && opt_str_is(res.error, "App Tokenは 'xapp-' で始まる必要があります"@),
            None => true,
        },
{
    if str_starts_with(app_token, "xapp-") {
        None
    } else {
        Some(crate::client::SlackConnectionResult {
            success: false,
            error: Some("App Tokenは 'xapp-' で始まる必要があります".to_owned()),
        })
    }
}

/// The push-handshake outcome used by the connection test: accepted, or the
/// platform's refusal message.
pub fn socket_test_step(resp: &AppsConnectionsOpenResponse) -> (r: Result<(), String>)
    ensures
        r is Ok <==> resp.ok,
        match r {
            Ok(_) => true,
            Err(e) => e@ == "Socket Mode接続失敗: "@ + opt_or_empty(resp.error),
        },
{
    if resp.ok {
        Ok(())
    } else {
        Err("Socket Mode接続失敗: ".to_owned().concat(str_or_empty(&resp.error).as_str()))
    }
}

/// The failed connection-test result, for a push-handshake failure
/// described by `detail`.
pub fn socket_test_failure(detail: &str) -> (r: crate::client::SlackConnectionResult)
    ensures
        !r.success,
        opt_str_is(r.error, "Socket Mode接続テスト失敗: "@ + detail@),
{
    crate::client::SlackConnectionResult {
        success: false,
        error: Some("Socket Mode接続テスト失敗: ".to_owned().concat(detail)),
    }
}

/// The push-handshake outcome used when the transport is really opened: the
/// one-time transport URL, or why there is none.
pub fn socket_url_step(resp: AppsConnectionsOpenResponse) -> (r: Result<String, String>)
    ensures
        resp.ok && resp.url is Some <==> r is Ok,
        match r {
            Ok(u) => u@ == opt_or_empty(resp.url),
            Err(e) => if resp.ok {
                e@ == "WebSocket URLが取得できません"@
            } else {
                e@ == "Socket Mode接続失敗: "@ + opt_or_empty(resp.error)
            },
        },
{
    if !resp.ok {
        return Err("Socket Mode接続失敗: ".to_owned().concat(str_or_empty(&resp.error).as_str()));
    }
    match resp.url {
        Some(u) => Ok(u),
        None => Err("WebSocket URLが取得できません".to_owned()),
    }
}

/// The cursor that continues the channel listing, when the page carries a
/// non-empty one.
pub open spec fn spec_next_cursor(meta: Option<ResponseMetadata>) -> Option<Seq<char>> {
    match meta {
        Some(m) => if m.next_cursor@.len() > 0 {
            Some(m.next_cursor@)
        } else {
            None
        },
        None => None,
    }
}

/// One page of the channel list: either its channels (converted to
/// snapshots) with the cursor that continues the listing, or the platform's
/// refusal message.
pub fn channel_page_step(resp: ConversationsListResponse)
    -> (r: Result<(Vec<SlackChannel>, Option<String>), String>)
    ensures
        r is Ok <==> resp.ok,
        match r {
            Ok(page) => ({
                &&& page.0@.map_values(|c: SlackChannel| c@)
                    == resp.channels@.map_values(|c: ConversationChannel| conv_channel_view(c))
                &&& view_of_opt(page.1) == spec_next_cursor(resp.response_metadata)
            }),
            Err(e) => e@ == "APIエラー: "@ + opt_or_empty(resp.error),
        },
{
    if !resp.ok {
        return Err("APIエラー: ".to_owned().concat(str_or_empty(&resp.error).as_str()));
    }
    let n = resp.channels.len();
    let mut out: Vec<SlackChannel> = Vec::new();
    let mut i: usize = 0;
    while i < n
        invariant
            i <= n,
            n == resp.channels@.len(),
            out@.len() == i,
            forall|j: int| 0 <= j < i
                ==> (#[trigger] out@[j])@ == conv_channel_view(resp.channels@[j]),
        decreases n - i,
    {
        out.push(to_slack_channel(&resp.channels[i]));
        i = i + 1;
    }
    proof {
        assert(out@.map_values(|c: SlackChannel| c@)
            =~= resp.channels@.map_values(|c: ConversationChannel| conv_channel_view(c)));
    }
    let cursor: Option<String> = match resp.response_metadata {
        Some(m) => {
            if m.next_cursor.as_str().is_empty() {
                None
            } else {
                Some(m.next_cursor)
            }
        },
        None => None,
    };
    Ok((out, cursor))
}

/// The concatenation of a list of pages, in order.
pub open spec fn pages_concat(ps: Seq<Seq<SlackChannel>>) -> Seq<SlackChannel>
    decreases ps.len(),
{
    if ps.len() == 0 {
        Seq::empty()
    } else {
        ps.first() + pages_concat(ps.drop_first())
    }
}

/// Accumulate the pages of a listing: no entry is lost and none is added.
pub fn collect_pages(pages: Vec<Vec<SlackChannel>>) -> (r: Vec<SlackChannel>)
    ensures
        r@ == pages_concat(pages@.map_values(|p: Vec<SlackChannel>| p@)),
{
    let ghost total = pages@.map_values(|p: Vec<SlackChannel>| p@);
    let mut pages = pages;
    let mut r: Vec<SlackChannel> = Vec::new();
    while pages.len() > 0
        invariant
            r@ + pages_concat(pages@.map_values(|p: Vec<SlackChannel>| p@))
                == pages_concat(total),
        decreases pages@.len(),
    {
        let ghost before = pages@.map_values(|p: Vec<SlackChannel>| p@);
        let ghost r0 = r@;
        let mut p = pages.remove(0);
        proof {
            assert(pages@.map_values(|q: Vec<SlackChannel>| q@) =~= before.drop_first());
            assert(before.first() == p@);
        }
        r.append(&mut p);
        proof {
            assert(r@ + pages_concat(before.drop_first())
                =~= r0 + (before.first() + pages_concat(before.drop_first())));
        }
    }
    proof {
        assert(pages@.map_values(|p: Vec<SlackChannel>| p@) =~= Seq::<Seq<SlackChannel>>::empty());
        assert(r@ + pages_concat(pages@.map_values(|p: Vec<SlackChannel>| p@)) =~= r@);
    }
    r
}

/// The identity cache built from a member listing: members that carry an id
/// and a profile, later entries winning.
pub open spec fn spec_user_cache(ms: Seq<MemberRecord>) -> Map<Seq<char>, ProfileView>
    decreases ms.len(),
{
    if ms.len() == 0 {
        Map::empty()
    } else {
        let rest = spec_user_cache(ms.drop_last());
        let m = ms.last();
        match m.id {
            Some(id) => if m.has_profile {
                rest.insert(id@, m.profile@)
            } else {
                rest
            },
            None => rest,
        }
    }
}

/// The user listing: either the identity cache it denotes, or the
/// platform's refusal message.
pub fn users_list_step(resp: UsersListResponse)
    -> (r: Result<StringMap<UserProfile>, String>)
    ensures
        r is Ok <==> resp.ok,
        match r {
            Ok(cache) => cache@.map_values(|p: UserProfile| p@) == spec_user_cache(resp.members@),
            Err(e) => e@ == "APIエラー: "@ + opt_or_empty(resp.error),
        },
{
    if !resp.ok {
        return Err("APIエラー: ".to_owned().concat(str_or_empty(&resp.error).as_str()));
    }
    let n = resp.members.len();
    let mut cache: StringMap<UserProfile> = StringMap::new();
    let mut i: usize = 0;
    proof {
        assert(cache@.map_values(|p: UserProfile| p@)
            =~= Map::<Seq<char>, ProfileView>::empty());
    }
    while i < n
        invariant
            i <= n,
            n == resp.members@.len(),
            cache@.map_values(|p: UserProfile| p@)
                == spec_user_cache(resp.members@.subrange(0, i as int)),
        decreases n - i,
    {
        let ghost pre = resp.members@.subrange(0, i as int);
        let ghost cur = resp.members@.subrange(0, i + 1 as int);
        proof {
            assert(cur.drop_last() =~= pre);
            assert(cur.last() == resp.members@[i as int]);
        }
        let m = &resp.members[i];
        match &m.id {
            Some(id) => {
                if m.has_profile {
                    let prof = m.profile.dup();
                    proof {
                        lemma_map_values_insert(cache@, |p: UserProfile| p@, id@, prof);
                    }
                    cache.insert(id.clone(), prof);
                }
            },
            None => {},
        }
        i = i + 1;
    }
    proof {
        assert(resp.members@.subrange(0, n as int) =~= resp.members@);
    }
    Ok(cache)
}

/// The name/URL pairs kept by the emoji filter: exactly those whose URL
/// starts with an HTTP scheme, in order.
pub open spec fn spec_emoji_kept(s: Seq<(String, String)>) -> Seq<(Seq<char>, Seq<char>)>
    decreases s.len(),
{
    if s.len() == 0 {
        Seq::empty()
    } else {
        let rest = spec_emoji_kept(s.drop_last());
        let p = s.last();
        if has_prefix(p.1@, "http"@) {
            rest.push((p.0@, p.1@))
        } else {
            rest
        }
    }
}

/// The emoji cache denoted by a listing: the kept pairs, later ones winning.
pub open spec fn spec_emoji_cache(s: Seq<(String, String)>) -> Map<Seq<char>, Seq<char>>
    decreases s.len(),
{
    if s.len() == 0 {
        Map::empty()
    } else {
        let rest = spec_emoji_cache(s.drop_last());
        let p = s.last();
        if has_prefix(p.1@, "http"@) {
            rest.insert(p.0@, p.1@)
        } else {
            rest
        }
    }
}

/// Every kept entry's URL starts with an HTTP scheme, and every listed
/// entry whose URL does is kept.
pub proof fn lemma_emoji_filter(s: Seq<(String, String)>)
    ensures
        forall|i: int| 0 <= i < spec_emoji_kept(s).len()
            ==> has_prefix((#[trigger] spec_emoji_kept(s)[i]).1, "http"@),
        forall|j: int| 0 <= j < s.len() && has_prefix((#[trigger] s[j]).1@, "http"@)
            ==> spec_emoji_kept(s).contains((s[j].0@, s[j].1@)),
    decreases s.len(),
{
    if s.len() == 0 {
    } else {
        lemma_emoji_filter(s.drop_last());
        let rest = spec_emoji_kept(s.drop_last());
        assert forall|j: int| 0 <= j < s.len() && has_prefix((#[trigger] s[j]).1@, "http"@)
            implies spec_emoji_kept(s).contains((s[j].0@, s[j].1@)) by {
            if j < s.len() - 1 {
                assert(s.drop_last()[j] == s[j]);
                assert(rest.contains((s[j].0@, s[j].1@)));
                let k = choose|k: int| 0 <= k < rest.len() && rest[k] == (s[j].0@, s[j].1@);
                assert(spec_emoji_kept(s)[k] == (s[j].0@, s[j].1@));
            } else {
                assert(spec_emoji_kept(s).last() == (s[j].0@, s[j].1@));
            }
        }
    }
}

/// The emoji listing: either the kept emojis (alias entries dropped) with
/// the cache they denote, or the platform's refusal message.
pub fn emoji_list_step(resp: EmojiListResponse)
    -> (r: Result<(Vec<CustomEmoji>, StringMap<String>), String>)
    ensures
        r is Ok <==> resp.ok,
        match r {
            Ok(kept) => ({
                &&& kept.0@.map_values(|e: CustomEmoji| e@) == spec_emoji_kept(resp.emoji@)
                &&& kept.1@.map_values(|u: String| u@) == spec_emoji_cache(resp.emoji@)
            }),
            Err(e) => e@ == "APIエラー: "@ + opt_or_empty(resp.error),
        },
{
    if !resp.ok {
        return Err("APIエラー: ".to_owned().concat(str_or_empty(&resp.error).as_str()));
    }
    let n = resp.emoji.len();
    let mut list: Vec<CustomEmoji> = Vec::new();
    let mut cache: StringMap<String> = StringMap::new();
    let mut i: usize = 0;
    proof {
        assert(list@.map_values(|e: CustomEmoji| e@) =~= Seq::<(Seq<char>, Seq<char>)>::empty());
        assert(cache@.map_values(|u: String| u@) =~= Map::<Seq<char>, Seq<char>>::empty());
    }
    while i < n
        invariant
            i <= n,
            n == resp.emoji@.len(),
            list@.map_values(|e: CustomEmoji| e@)
                == spec_emoji_kept(resp.emoji@.subrange(0, i as int)),
            cache@.map_values(|u: String| u@)
                == spec_emoji_cache(resp.emoji@.subrange(0, i as int)),
        decreases n - i,
    {
        let ghost pre = resp.emoji@.subrange(0, i as int);
        let ghost cur = resp.emoji@.subrange(0, i + 1 as int);
        proof {
            assert(cur.drop_last() =~= pre);
            assert(cur.last() == resp.emoji@[i as int]);
        }
        let ghost list0 = list@;
        let p = &resp.emoji[i];
        if str_starts_with(p.1.as_str(), "http") {
            list.push(CustomEmoji { name: p.0.clone(), url: p.1.clone() });
            let url = p.1.clone();
            proof {
                lemma_map_values_insert(cache@, |u: String| u@, p.0@, url);
                assert(list@.map_values(|e: CustomEmoji| e@)
                    =~= list0.map_values(|e: CustomEmoji| e@).push((p.0@, p.1@)));
            }
            cache.insert(p.0.clone(), url);
        }
        i = i + 1;
    }
    proof {
        assert(resp.emoji@.subrange(0, n as int) =~= resp.emoji@);
    }
    Ok((list, cache))
}

/// The thread-parent lookup: the parent's author id and its text cut to
/// fifty characters, from the first message of a successful reply listing.
pub fn replies_parent_step(resp: &ConversationsRepliesResponse)
    -> (r: Option<(String, String)>)
    ensures
        r is Some <==> resp.ok && resp.messages@.len() > 0,
        match r {
            Some(parent) => ({
                &&& parent.0@ == opt_or_empty(resp.messages@[0].user)
                &&& parent.1@ == spec_take(opt_or_empty(resp.messages@[0].text), 50)
            }),
            None => true,
        },
{
    if !resp.ok {
        return None;
    }
    if resp.messages.len() == 0 {
        return None;
    }
    let first = &resp.messages[0];
    let text = str_or_empty(&first.text);
    let truncated = truncate_chars(text.as_str(), 50);
    let user_id = str_or_empty(&first.user);
    Some((user_id, truncated))
}

/// The view of the placeholder snapshot used when a channel cannot be
/// looked up.
pub open spec fn unknown_channel_view(id: Seq<char>) -> ChannelView {
    ChannelView {
        id: id,
        name: "unknown"@,
        is_private: None,
        is_member: None,
    }
}

/// The channel-info decision: the reported channel as a snapshot, or the
/// placeholder when the lookup failed or reported nothing.
pub fn channel_info_step(channel_id: &str, resp: Option<ConversationsInfoResponse>)
    -> (r: SlackChannel)
    ensures
        match resp {
            Some(resp) => match resp.channel {
                Some(ch) => r@ == conv_channel_view(ch),
                None => r@ == unknown_channel_view(channel_id@),
            },
            None => r@ == unknown_channel_view(channel_id@),
        },
{
    match resp {
        Some(resp) => match resp.channel {
            Some(ch) => to_slack_channel(&ch),
            None => SlackChannel {
                id: channel_id.to_owned(),
                name: "unknown".to_owned(),
                is_private: None,
                is_member: None,
            },
        },
        None => SlackChannel {
            id: channel_id.to_owned(),
            name: "unknown".to_owned(),
            is_private: None,
            is_member: None,
        },
    }
}

} // verus!
