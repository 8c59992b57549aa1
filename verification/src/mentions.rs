//! The inline user-reference grammar and its resolution: scanning message
//! text for reference tokens, collecting the distinct user ids in first-seen
//! order, HTML-escaping the resolved names, and replacing every occurrence
//! of each user's token with a styled mention span.
//!
//! A token is `<@U` followed by at least one capital letter or digit, then
//! either `>` or a `|`-separated label (any characters but `>`) and `>`.

use vstd::prelude::*;
use crate::client::{SlackClientState, dedup_first, dedup_strings};
use crate::profile::{ProfileView, spec_mention_name, mention_name};
use crate::text::chars_of;
use crate::text::string_from_chars;

verus! {

/// An id character of a user reference: a capital letter (code 65 to 90) or
/// a digit (code 48 to 57).
pub open spec fn is_id_char(c: char) -> bool {
    (65 <= c as u32 && c as u32 <= 90) || (48 <= c as u32 && c as u32 <= 57)
}

/// See [`is_id_char`].
fn id_char(c: char) -> (r: bool)
    ensures
        r == is_id_char(c),
{
    let v = c as u32;
    (65 <= v && v <= 90) || (48 <= v && v <= 57)
}

/// The length of the run of id characters starting at `i`.
pub open spec fn id_run(s: Seq<char>, i: int) -> nat
    decreases s.len() - i,
    when 0 <= i <= s.len()
{
    if i < s.len() && is_id_char(s[i]) {
        1 + id_run(s, i + 1)
    } else {
        0
    }
}

/// The length of the run of non-`>` characters starting at `i`.
pub open spec fn label_run(s: Seq<char>, i: int) -> nat
    decreases s.len() - i,
    when 0 <= i <= s.len()
{
    if i < s.len() && s[i] != '>' {
        1 + label_run(s, i + 1)
    } else {
        0
    }
}

/// The user-reference token starting at position `i`, if any: the position
/// just past its id, and the position just past the whole token.
pub open spec fn spec_token_at(s: Seq<char>, i: int) -> Option<(int, int)> {
    if 0 <= i && i + 2 < s.len() && s[i] == '<' && s[i + 1] == '@' && s[i + 2] == 'U' {
        let k = i + 3 + id_run(s, i + 3);
        if k > i + 3 && k < s.len() {
            if s[k] == '>' {
                Some((k, k + 1))
            } else if s[k] == '|' {
                let m = k + 1 + label_run(s, k + 1);
                if m < s.len() {
                    Some((k, m + 1))
                } else {
                    None
                }
            } else {
                None
            }
        } else {
            None
        }
    } else {
        None
    }
}

/// The ids of the tokens in `s` from position `i` on, leftmost first, in
/// order of occurrence (duplicates kept).
pub open spec fn spec_scan(s: Seq<char>, i: int) -> Seq<Seq<char>>
    decreases s.len() - i,
    when 0 <= i <= s.len()
{
    if i >= s.len() {
        Seq::empty()
    } else {
        match spec_token_at(s, i) {
            Some(t) => seq![s.subrange(i + 2, t.0)] + spec_scan(s, t.1),
            None => spec_scan(s, i + 1),
        }
    }
}

/// `s` with every token of user `id` replaced by `repl`, other tokens and
/// all remaining text kept verbatim.
pub open spec fn spec_replace(s: Seq<char>, i: int, id: Seq<char>, repl: Seq<char>) -> Seq<char>
    decreases s.len() - i,
    when 0 <= i <= s.len()
{
    if i >= s.len() {
        Seq::empty()
    } else {
        match spec_token_at(s, i) {
            Some(t) => (if s.subrange(i + 2, t.0) == id {
                repl
            } else {
                s.subrange(i, t.1)
            }) + spec_replace(s, t.1, id, repl),
            None => seq![s[i]] + spec_replace(s, i + 1, id, repl),
        }
    }
}

/// The expansion of one character under HTML escaping: the four reserved
/// characters become entities, every other character stays.
pub open spec fn spec_escape_char(c: char) -> Seq<char> {
    if c == '&' {
        seq!['&', 'a', 'm', 'p', ';']
    } else if c == '<' {
        seq!['&', 'l', 't', ';']
    } else if c == '>' {
        seq!['&', 'g', 't', ';']
    } else if c == '"' {
        seq!['&', 'q', 'u', 'o', 't', ';']
    } else {
        seq![c]
    }
}

/// HTML escaping of a whole text.
pub open spec fn spec_escape(s: Seq<char>) -> Seq<char>
    decreases s.len(),
{
    if s.len() == 0 {
        Seq::empty()
    } else {
        spec_escape(s.drop_last()) + spec_escape_char(s.last())
    }
}

/// The display name a mention of `id` resolves to under the cache `users`.
pub open spec fn spec_resolved_name(users: Map<Seq<char>, ProfileView>, id: Seq<char>)
    -> Seq<char> {
    spec_mention_name(
        if users.dom().contains(id) {
            Some(users[id])
        } else {
            None
        },
    )
}

/// The styled span a mention of `id` is replaced with.
pub open spec fn spec_span_for(users: Map<Seq<char>, ProfileView>, id: Seq<char>) -> Seq<char> {
    "<span class=\"slack-mention\">@"@ + spec_escape(spec_resolved_name(users, id)) + "</span>"@
}

/// Resolve the ids in order: for each id in turn, all of its occurrences
/// are replaced before the next id is handled.
pub open spec fn spec_resolve_ids(
    s: Seq<char>,
    ids: Seq<Seq<char>>,
    users: Map<Seq<char>, ProfileView>,
) -> Seq<char>
    decreases ids.len(),
{
    if ids.len() == 0 {
        s
    } else {
        spec_resolve_ids(
            spec_replace(s, 0, ids.first(), spec_span_for(users, ids.first())),
            ids.drop_first(),
            users,
        )
    }
}

/// Full mention resolution: the distinct ids of `s` in first-seen order,
/// each resolved against `users` and replaced throughout.
pub open spec fn spec_resolve_mentions(s: Seq<char>, users: Map<Seq<char>, ProfileView>)
    -> Seq<char> {
    spec_resolve_ids(s, dedup_first(spec_scan(s, 0)), users)
}

/// Text without any user-reference token is left exactly as it is.
pub proof fn lemma_resolve_no_mentions(s: Seq<char>, users: Map<Seq<char>, ProfileView>)
    requires
        spec_scan(s, 0).len() == 0,
    ensures
        spec_resolve_mentions(s, users) == s,
{
    assert(dedup_first(spec_scan(s, 0)) =~= Seq::<Seq<char>>::empty());
}

/// Append `src[from .. to]` to `dst`.
fn push_range(dst: &mut Vec<char>, src: &Vec<char>, from: usize, to: usize)
    requires
        from <= to <= src@.len(),
    ensures
        final(dst)@ == old(dst)@ + src@.subrange(from as int, to as int),
{
    let ghost d0 = dst@;
    let mut j = from;
    while j < to
        invariant
            from <= j <= to <= src@.len(),
            dst@ == d0 + src@.subrange(from as int, j as int),
        decreases to - j,
    {
        let ghost before = dst@;
        dst.push(src[j]);
        proof {
            assert(dst@ =~= d0 + src@.subrange(from as int, j + 1 as int));
        }
        j = j + 1;
    }
    proof {
        assert(dst@ =~= d0 + src@.subrange(from as int, to as int));
    }
}

/// Whether `s[from .. to]` equals `id`.
fn range_eq(s: &Vec<char>, from: usize, to: usize, id: &Vec<char>) -> (r: bool)
    requires
        from <= to <= s@.len(),
    ensures
        r == (s@.subrange(from as int, to as int) == id@),
{
    let len = to - from;
    if id.len() != len {
        return false;
    }
    let mut j: usize = 0;
    while j < len
        invariant
            j <= len,
            len == id@.len(),
            from + len == to,
            to <= s@.len(),
            forall|x: int| 0 <= x < j ==> s@[from + x] == id@[x],
        decreases len - j,
    {
        if s[from + j] != id[j] {
            proof {
                assert(s@.subrange(from as int, to as int)[j as int] != id@[j as int]);
            }
            return false;
        }
        j = j + 1;
    }
    proof {
        assert(s@.subrange(from as int, to as int) =~= id@);
    }
    true
}

/// The user-reference token starting at `i`, if any.
fn token_at(s: &Vec<char>, i: usize) -> (r: Option<(usize, usize)>)
    requires
        i <= s@.len(),
    ensures
        match r {
            Some(t) => ({
                &&& spec_token_at(s@, i as int) == Some((t.0 as int, t.1 as int))
                &&& i + 2 < t.0 < t.1 <= s@.len()
            }),
            None => spec_token_at(s@, i as int) is None,
        },
{
    let n = s.len();
    if n < 3 || i >= n - 2 {
        return None;
    }
    if s[i] != '<' || s[i + 1] != '@' || s[i + 2] != 'U' {
        return None;
    }
    let mut k = i + 3;
    while k < n && id_char(s[k])
        invariant
            i + 3 <= k <= n,
            n == s@.len(),
            i + 2 < n,
            id_run(s@, i + 3) == (k - i - 3) + id_run(s@, k as int),
        decreases n - k,
    {
        k = k + 1;
    }
    proof {
        assert(id_run(s@, k as int) == 0);
        assert(id_run(s@, i + 3) == k - i - 3);
    }
    if k == i + 3 {
        return None;
    }
    if k >= n {
        return None;
    }
    let c = s[k];
    if c == '>' {
        Some((k, k + 1))
    } else if c == '|' {
        let mut m = k + 1;
        while m < n && s[m] != '>'
            invariant
                k + 1 <= m <= n,
                n == s@.len(),
                label_run(s@, k + 1 as int) == (m - k - 1) + label_run(s@, m as int),
            decreases n - m,
        {
            m = m + 1;
        }
        proof {
            assert(label_run(s@, m as int) == 0);
            assert(label_run(s@, k + 1 as int) == m - k - 1);
        }
        if m >= n {
            return None;
        }
        Some((k, m + 1))
    } else {
        None
    }
}

/// The ids of every token in `s`, leftmost first, duplicates kept.
fn scan_ids(s: &Vec<char>) -> (r: Vec<String>)
    ensures
        r@.map_values(|t: String| t@) == spec_scan(s@, 0),
{
    let n = s.len();
    let mut i: usize = 0;
    let mut r: Vec<String> = Vec::new();
    proof {
        assert(r@.map_values(|t: String| t@) + spec_scan(s@, 0) =~= spec_scan(s@, 0));
    }
    while i < n
        invariant
            i <= n,
            n == s@.len(),
            r@.map_values(|t: String| t@) + spec_scan(s@, i as int) == spec_scan(s@, 0),
        decreases n - i,
    {
        let ghost r0 = r@;
        match token_at(s, i) {
            Some(t) => {
                let mut idv: Vec<char> = Vec::new();
                push_range(&mut idv, s, i + 2, t.0);
                proof {
                    assert(idv@ =~= s@.subrange(i + 2, t.0 as int));
                }
                r.push(string_from_chars(&idv));
                proof {
                    assert(r@.map_values(|x: String| x@)
                        =~= r0.map_values(|x: String| x@).push(s@.subrange(i + 2, t.0 as int)));
                    assert(r@.map_values(|x: String| x@) + spec_scan(s@, t.1 as int)
                        =~= r0.map_values(|x: String| x@)
                            + (seq![s@.subrange(i + 2, t.0 as int)] + spec_scan(s@, t.1 as int)));
                }
                i = t.1;
            },
            None => {
                i = i + 1;
            },
        }
    }
    proof {
        assert(r@.map_values(|t: String| t@) + spec_scan(s@, n as int)
            =~= r@.map_values(|t: String| t@));
    }
    r
}

/// The distinct user ids referenced in `text`, in first-seen order.
pub fn mention_ids(text: &str) -> (r: Vec<String>)
    ensures
        r@.map_values(|t: String| t@) == dedup_first(spec_scan(text@, 0)),
{
    let tv = chars_of(text);
    let all = scan_ids(&tv);
    dedup_strings(&all)
}

/// `s` with every token of `id` replaced by `repl`.
fn replace_id(s: &Vec<char>, id: &Vec<char>, repl: &Vec<char>) -> (r: Vec<char>)
    ensures
        r@ == spec_replace(s@, 0, id@, repl@),
{
    let n = s.len();
    let mut i: usize = 0;
    let mut out: Vec<char> = Vec::new();
    proof {
        assert(out@ + spec_replace(s@, 0, id@, repl@) =~= spec_replace(s@, 0, id@, repl@));
    }
    while i < n
        invariant
            i <= n,
            n == s@.len(),
            out@ + spec_replace(s@, i as int, id@, repl@) == spec_replace(s@, 0, id@, repl@),
        decreases n - i,
    {
        let ghost out0 = out@;
        match token_at(s, i) {
            Some(t) => {
                if range_eq(s, i + 2, t.0, id) {
                    push_range(&mut out, repl, 0, repl.len());
                    proof {
                        assert(repl@.subrange(0, repl@.len() as int) =~= repl@);
                        assert(out@ + spec_replace(s@, t.1 as int, id@, repl@)
                            =~= out0 + (repl@ + spec_replace(s@, t.1 as int, id@, repl@)));
                    }
                } else {
                    push_range(&mut out, s, i, t.1);
                    proof {
                        assert(out@ + spec_replace(s@, t.1 as int, id@, repl@)
                            =~= out0 + (s@.subrange(i as int, t.1 as int)
                                + spec_replace(s@, t.1 as int, id@, repl@)));
                    }
                }
                i = t.1;
            },
            None => {
                out.push(s[i]);
                proof {
                    assert(out@ + spec_replace(s@, i + 1 as int, id@, repl@)
                        =~= out0 + (seq![s@[i as int]]
                            + spec_replace(s@, i + 1 as int, id@, repl@)));
                }
                i = i + 1;
            },
        }
    }
    proof {
        assert(out@ + spec_replace(s@, n as int, id@, repl@) =~= out@);
    }
    out
}

/// HTML-escape the reserved characters of `s`.
fn escape_chars(s: &Vec<char>) -> (r: Vec<char>)
    ensures
        r@ == spec_escape(s@),
{
    let n = s.len();
    let mut out: Vec<char> = Vec::new();
    let mut i: usize = 0;
    proof {
        assert(s@.subrange(0, 0) =~= Seq::<char>::empty());
        assert(out@ =~= spec_escape(s@.subrange(0, 0)));
    }
    while i < n
        invariant
            i <= n,
            n == s@.len(),
            out@ == spec_escape(s@.subrange(0, i as int)),
        decreases n - i,
    {
        let ghost pre = s@.subrange(0, i as int);
        let ghost cur = s@.subrange(0, i + 1 as int);
        proof {
            assert(cur.drop_last() =~= pre);
            assert(cur.last() == s@[i as int]);
        }
        let ghost out0 = out@;
        let c = s[i];
        if c == '&' {
            out.push('&');
            out.push('a');
            out.push('m');
            out.push('p');
            out.push(';');
        } else if c == '<' {
            out.push('&');
            out.push('l');
            out.push('t');
            out.push(';');
        } else if c == '>' {
            out.push('&');
            out.push('g');
            out.push('t');
            out.push(';');
        } else if c == '"' {
            out.push('&');
            out.push('q');
            out.push('u');
            out.push('o');
            out.push('t');
            out.push(';');
        } else {
            out.push(c);
        }
        proof {
            assert(out@ =~= out0 + spec_escape_char(s@[i as int]));
        }
        i = i + 1;
    }
    proof {
        assert(s@.subrange(0, n as int) =~= s@);
    }
    out
}

impl SlackClientState {
    /// Rewrite every inline user-reference token of `text` into a styled
    /// mention span, resolving names against the identity cache: per
    /// distinct id in first-seen order, all of that id's occurrences are
    /// replaced before the next id is handled.
    pub fn resolve_mentions(&self, text: &str) -> (r: String)
        ensures
            r@ == spec_resolve_mentions(text@, self@.users),
    {
        let tv = chars_of(text);
        let ids = mention_ids(text);
        let ghost idviews = ids@.map_values(|t: String| t@);
        let mut cur = tv;
        let m = ids.len();
        let mut j: usize = 0;
        proof {
            assert(idviews.skip(0) =~= idviews);
        }
        while j < m
            invariant
                j <= m,
                m == ids@.len(),
                idviews == ids@.map_values(|t: String| t@),
                spec_resolve_ids(cur@, idviews.skip(j as int), self@.users)
                    == spec_resolve_mentions(text@, self@.users),
            decreases m - j,
        {
            let ghost rest = idviews.skip(j as int);
            proof {
                assert(rest.first() == idviews[j as int]);
                assert(rest.drop_first() =~= idviews.skip(j + 1 as int));
            }
            let id = &ids[j];
            let profile = self.get_user(id.as_str());
            let name = mention_name(profile);
            let escaped = escape_chars(&chars_of(name.as_str()));
            let mut span = chars_of("<span class=\"slack-mention\">@");
            let ghost head = span@;
            push_range(&mut span, &escaped, 0, escaped.len());
            let tail = chars_of("</span>");
            push_range(&mut span, &tail, 0, tail.len());
            proof {
                assert(escaped@.subrange(0, escaped@.len() as int) =~= escaped@);
                assert(tail@.subrange(0, tail@.len() as int) =~= tail@);
                assert(span@ =~= spec_span_for(self@.users, idviews[j as int]));
            }
            let idv = chars_of(id.as_str());
            cur = replace_id(&cur, &idv, &span);
            j = j + 1;
        }
        proof {
            assert(idviews.skip(m as int) =~= Seq::<Seq<char>>::empty());
        }
        string_from_chars(&cur)
    }
}

} // verus!
