//! What the per-platform decisions and the recall plan promise, stated
//! directly over their inputs and results.

use vstd::prelude::*;

use crate::bridge::Bridges;
use crate::discord::{discord_decision_ok, DiscordDecision, DiscordIncoming};
use crate::fanout::{first_sender, lemma_first_sender_at, recall_plan};
use crate::matrix::{matrix_decision_ok, MatrixDecision, MatrixEvent};
use crate::message::Platform;
use crate::onebot::{qq_decision_ok, Event, QqDecision};
use crate::telegram::tg_name;
use crate::text::{is_ws, trim_hi, trim_lo, trimmed};

verus! {

/// Recalling a message deletes every related message other than the
/// recalled one itself that the bridge can reach: each related `(p, id)`
/// with a sender on `p` appears in the plan, through the first sender on `p`.
pub proof fn law_recall_targets_complete(
    source: Platform,
    msg_id: Seq<char>,
    related: Seq<(Platform, Seq<char>)>,
    senders: Seq<Platform>,
    i: int,
    f: int,
)
    requires
        0 <= i < related.len(),
        related[i] != (source, msg_id),
        0 <= f < senders.len(),
        senders[f] == related[i].0,
        forall|j: int| 0 <= j < f ==> senders[j] != related[i].0,
    ensures
        recall_plan(source, msg_id, related, senders).contains((f, related[i].0, related[i].1)),
    decreases related.len(),
{
    let rest = related.drop_last();
    let before = recall_plan(source, msg_id, rest, senders);
    let plan = recall_plan(source, msg_id, related, senders);
    if i == related.len() - 1 {
        lemma_first_sender_at(senders, related[i].0, f);
        assert(plan == before.push((f, related[i].0, related[i].1)));
        assert(plan[before.len() as int] == (f, related[i].0, related[i].1));
    } else {
        assert(rest[i] == related[i]);
        law_recall_targets_complete(source, msg_id, rest, senders, i, f);
        let k = choose|k: int| 0 <= k < before.len() && before[k] == (f, related[i].0, related[i].1);
        let (p, id) = related.last();
        if !(p == source && id == msg_id) {
            match first_sender(senders, p) {
                Some(x) => assert(plan[k] == before[k]),
                None => {},
            }
        }
    }
}

/// A QQ message is forwarded under the sender's group card, or under the
/// nickname when no card is set (so the name is never empty when the
/// nickname is not), and under `unknown` without sender information.
pub proof fn law_qq_sender_name(b: Bridges, ev: Event, d: QqDecision)
    requires
        qq_decision_ok(b, ev, d),
    ensures
        d matches QqDecision::Forward { message, .. } ==> match ev.sender {
            Some(s) => {
                &&& s.card@.len() == 0 ==> message.sender_name@ == s.nickname@
                &&& s.card@.len() > 0 ==> message.sender_name@ == s.card@
                &&& s.nickname@.len() > 0 ==> message.sender_name@.len() > 0
            },
            None => message.sender_name@ == seq!['u', 'n', 'k', 'n', 'o', 'w', 'n'],
        },
{
    reveal_strlit("unknown");
}

/// Messages of other bots on Discord, of the bot itself, and messages
/// without text are never forwarded; a forwarded message carries its text.
pub proof fn law_discord_skips_bots(b: Bridges, m: DiscordIncoming, d: DiscordDecision)
    requires
        discord_decision_ok(b, m, d),
    ensures
        m.author_bot == Some(true) ==> d is Skip,
        d matches DiscordDecision::Forward { message, .. } ==> {
            &&& m.author_bot != Some(true)
            &&& m.content matches Some(c) && c@.len() > 0 && message.content@ == c@
        },
{
}

/// A forwarded Matrix message carries the HTML body when there is one, and
/// the plain body only when there is no HTML body.
pub proof fn law_matrix_prefers_html(
    b: Bridges,
    room: Seq<char>,
    ev: MatrixEvent,
    hs: Seq<char>,
    d: MatrixDecision,
)
    requires
        matrix_decision_ok(b, room, ev, hs, d),
    ensures
        d matches MatrixDecision::Forward { content, .. } ==> {
            &&& ev.formatted_body matches Some(f) ==> content@ == f@
            &&& ev.formatted_body is None ==> (ev.body matches Some(x) ==> content@ == x@)
            &&& ev.formatted_body is None && ev.body is None ==> content@.len() == 0
        },
{
}

proof fn lemma_trim_lo(s: Seq<char>, i: int)
    requires
        0 <= i <= s.len(),
    ensures
        i <= trim_lo(s, i) <= s.len(),
        forall|j: int| i <= j < trim_lo(s, i) ==> is_ws(#[trigger] s[j]),
        trim_lo(s, i) < s.len() ==> !is_ws(s[trim_lo(s, i)]),
    decreases s.len() - i,
{
    if i < s.len() && is_ws(s[i]) {
        lemma_trim_lo(s, i + 1);
    }
}

proof fn lemma_trim_hi(s: Seq<char>, j: int)
    requires
        0 <= j <= s.len(),
    ensures
        0 <= trim_hi(s, j) <= j,
        forall|k: int| trim_hi(s, j) <= k < j ==> is_ws(#[trigger] s[k]),
        trim_hi(s, j) > 0 ==> !is_ws(s[trim_hi(s, j) - 1]),
    decreases j,
{
    if 0 < j && is_ws(s[j - 1]) {
        lemma_trim_hi(s, j - 1);
    }
}

/// A text trims to nothing exactly when every character is whitespace.
pub proof fn lemma_blank(s: Seq<char>)
    ensures
        trimmed(s).len() == 0 <==> forall|k: int| 0 <= k < s.len() ==> is_ws(#[trigger] s[k]),
{
    lemma_trim_lo(s, 0);
    lemma_trim_hi(s, s.len() as int);
    let lo = trim_lo(s, 0);
    let hi = trim_hi(s, s.len() as int);
    if exists|k: int| 0 <= k < s.len() && !is_ws(#[trigger] s[k]) {
        let k = choose|k: int| 0 <= k < s.len() && !is_ws(#[trigger] s[k]);
        assert(lo <= k);
        assert(k < hi);
        assert(trimmed(s).len() == hi - lo);
    } else {
        assert(lo == s.len());
    }
}

/// The first name, followed by a space and the last name when there is a
/// non-empty last name.
pub open spec fn joined_name(first: Option<String>, last: Option<String>) -> Seq<char> {
    let f = match first {
        Some(s) => s@,
        None => Seq::empty(),
    };
    match last {
        Some(l) => if l@.len() > 0 {
            f + seq![' '] + l@
        } else {
            f
        },
        None => f,
    }
}

/// The name shown for a Telegram user: with no (or an empty) last name it
/// is the first name, whatever the username, unless that is blank; with a
/// last name it is first and last name joined by a space, unless blank; only
/// a blank name gives way to the username, or `unknown`.
pub proof fn law_telegram_name(first: Option<String>, last: Option<String>, username: Option<String>)
    ensures
        (exists|k: int|
            0 <= k < joined_name(first, last).len() && !is_ws(#[trigger] joined_name(first, last)[k]))
            ==> tg_name(first, last, username) == joined_name(first, last),
        (forall|k: int|
            0 <= k < joined_name(first, last).len() ==> is_ws(#[trigger] joined_name(first, last)[k]))
            ==> tg_name(first, last, username) == match username {
            Some(u) => u@,
            None => seq!['u', 'n', 'k', 'n', 'o', 'w', 'n'],
        },
        (last is None || last->0@.len() == 0) && first is Some && (exists|k: int|
            0 <= k < first->0@.len() && !is_ws(#[trigger] first->0@[k]))
            ==> tg_name(first, last, username) == first->0@,
{
    reveal_strlit("unknown");
    let full = joined_name(first, last);
    lemma_blank(full);
    assert("unknown"@ =~= seq!['u', 'n', 'k', 'n', 'o', 'w', 'n']);
}

} // verus!
