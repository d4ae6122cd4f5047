//! Properties that span several operations of the library.

use vstd::prelude::*;

use crate::fanout::{forward_marks, marks_of, first_sender, recall_plan, forward_step, lemma_next_target, next_target, ForwardAction, ForwardEvent, ForwardPhase, Forwarding};
use crate::bridge::{last_discord, last_matrix, last_qq, last_telegram, names_room, Bridges};
use crate::config::BridgeConfig;
use crate::clip::{char_width, ellipsis, fit_count, truncated, utf8_len};
use crate::cq::{cq_open_at, strip_from, stripped};
use crate::message::{Platform, ReplyRecord};
use crate::panel::logs_after;
use crate::recall::age;
use crate::text::trimmed;
use crate::num::{
    all_digits, dec, dec_int, digit_char, digit_value, digits_value, is_digit, parse_i64_spec,
    parse_u64_spec, unsigned_body,
};
use crate::store::{named_platform, plat_from_name, plat_name, record_matches_row, route_id_on, RouteRow};

verus! {

proof fn lemma_digit_char(d: nat)
    requires
        d < 10,
    ensures
        is_digit(digit_char(d)),
        digit_value(digit_char(d)) == d,
        digit_char(d) != '+',
        digit_char(d) != '-',
{
}

/// The decimal form of `n`: non-empty, digits only, starting with a digit,
/// and of value `n`.
pub proof fn lemma_dec(n: nat)
    ensures
        dec(n).len() > 0,
        all_digits(dec(n)),
        is_digit(dec(n)[0]),
        digits_value(dec(n)) == n,
    decreases n,
{
    if n < 10 {
        lemma_digit_char(n);
        assert(dec(n).drop_last() =~= Seq::<char>::empty());
        assert(digits_value(dec(n)) == digits_value(dec(n).drop_last()) * 10 + digit_value(dec(n).last()));
    } else {
        lemma_dec(n / 10);
        lemma_digit_char(n % 10);
        let d = dec(n);
        assert(d.drop_last() =~= dec(n / 10));
        assert(d[0] == dec(n / 10)[0]);
        assert(d.last() == digit_char(n % 10));
        assert(digits_value(d) == digits_value(d.drop_last()) * 10 + digit_value(d.last()));
        assert(n == (n / 10) * 10 + n % 10);
        assert forall|k: int| 0 <= k < d.len() implies is_digit(#[trigger] d[k]) by {
            if k < d.len() - 1 {
                assert(d[k] == dec(n / 10)[k]);
            }
        }
    }
}

/// Printing a `u64` in decimal and parsing it back gives the number again.
pub proof fn law_u64_decimal_round_trip(n: u64)
    ensures
        parse_u64_spec(dec(n as nat)) == Some(n),
{
    lemma_dec(n as nat);
    assert(unsigned_body(dec(n as nat)) == dec(n as nat));
}

/// Printing an `i64` in decimal and parsing it back gives the number again.
pub proof fn law_i64_decimal_round_trip(n: i64)
    ensures
        parse_i64_spec(dec_int(n as int)) == Some(n),
{
    if n < 0 {
        let m: nat = (-n) as nat;
        lemma_dec(m);
        let s = dec_int(n as int);
        assert(s[0] == '-');
        assert(s.drop_first() =~= dec(m));
    } else {
        lemma_dec(n as nat);
        assert(unsigned_body(dec(n as nat)) == dec(n as nat));
    }
}

/// Distinct numbers print differently.
pub proof fn law_decimal_injective(n: nat, m: nat)
    requires
        dec(n) == dec(m),
    ensures
        n == m,
{
    lemma_dec(n);
    lemma_dec(m);
}

/// Successive echo and transaction IDs differ: two counter values that differ
/// give IDs that differ, whatever the common prefix.
pub proof fn law_counter_ids_distinct(prefix: Seq<char>, n: u64, m: u64)
    requires
        n != m,
    ensures
        prefix + dec(n as nat) != prefix + dec(m as nat),
{
    if prefix + dec(n as nat) == prefix + dec(m as nat) {
        let a = prefix + dec(n as nat);
        let b = prefix + dec(m as nat);
        assert(a.skip(prefix.len() as int) =~= dec(n as nat));
        assert(b.skip(prefix.len() as int) =~= dec(m as nat));
        law_decimal_injective(n as nat, m as nat);
    }
}

/// A platform's stored name reads back as that platform, and no two
/// platforms share a name.
pub proof fn law_platform_name_round_trip(p: Platform, q: Platform)
    ensures
        named_platform(plat_name(p)) == Some(p),
        plat_from_name(plat_name(p)) == p,
        plat_name(p) == plat_name(q) ==> p == q,
{
    assert(plat_name(Platform::QQ) != plat_name(Platform::Discord));
    assert(plat_name(Platform::QQ) != plat_name(Platform::Telegram));
    assert(plat_name(Platform::QQ) != plat_name(Platform::Matrix));
    assert(plat_name(Platform::Discord) != plat_name(Platform::Telegram));
    assert(plat_name(Platform::Discord) != plat_name(Platform::Matrix));
    assert(plat_name(Platform::Telegram) != plat_name(Platform::Matrix));
}

/// The sender a phase is about, if any.
pub open spec fn phase_sender(p: ForwardPhase) -> Option<int> {
    match p {
        ForwardPhase::BeforeSend(j) => Some(j as int),
        ForwardPhase::Sending(j) => Some(j as int),
        ForwardPhase::AfterSend(j, _) => Some(j as int),
        ForwardPhase::Deleting(j, _) => Some(j as int),
        ForwardPhase::Recorded(j) => Some(j as int),
        _ => None,
    }
}

/// A forwarding run only ever deals with senders of its bridge that are not
/// on the source platform.
pub open spec fn forward_targets_ok(s: Forwarding) -> bool {
    match phase_sender(s.phase) {
        Some(j) => 0 <= j < s.senders@.len() && s.senders@[j] != s.source,
        None => true,
    }
}

/// How far a run has got: phases in the order they are passed through, five
/// per sender.
pub open spec fn forward_rank(s: Forwarding) -> int {
    match s.phase {
        ForwardPhase::Start => 0,
        ForwardPhase::Gate => 1,
        ForwardPhase::Lookup => 2,
        ForwardPhase::BeforeSend(j) => 3 + 5 * j,
        ForwardPhase::Sending(j) => 4 + 5 * j,
        ForwardPhase::AfterSend(j, _) => 5 + 5 * j,
        ForwardPhase::Deleting(j, _) => 6 + 5 * j,
        ForwardPhase::Recorded(j) => 7 + 5 * j,
        ForwardPhase::Finished => 3 + 5 * (s.senders@.len() as int),
    }
}

/// The sender an action addresses, if any.
pub open spec fn action_sender(a: ForwardAction) -> Option<int> {
    match a {
        ForwardAction::Send { sender, .. } => Some(sender as int),
        ForwardAction::DeleteLateCopy { sender, .. } => Some(sender as int),
        ForwardAction::Record { sender, .. } => Some(sender as int),
        _ => None,
    }
}

proof fn lemma_scan_target(s: Forwarding, from: int, t: Forwarding, a: ForwardAction)
    requires
        0 <= from,
        s.senders@.len() <= usize::MAX,
        crate::fanout::scan_to(s, from, t.phase, a),
        t.source == s.source,
        t.senders == s.senders,
    ensures
        forward_targets_ok(t),
        t.phase is Finished || forward_rank(t) >= 3 + 5 * from,
{
    lemma_next_target(s.senders@, s.source, from);
    if let Some(j) = next_target(s.senders@, s.source, from) {
        assert(t.phase == ForwardPhase::BeforeSend(j as usize));
        assert(j as usize as int == j);
    }
}

/// Forwarding never sends to, deletes on or records for the platform the
/// message came from, and every step that does not end the run moves it
/// strictly forward, so no sender is sent to twice and the run ends.
pub proof fn law_forward_step(s: Forwarding, e: ForwardEvent, t: Forwarding, a: ForwardAction)
    requires
        s.senders@.len() <= usize::MAX,
        forward_targets_ok(s),
        forward_step(s, e, t, a),
    ensures
        forward_targets_ok(t),
        action_sender(a) matches Some(j) ==> 0 <= j < s.senders@.len() && s.senders@[j] != s.source,
        !(s.phase is Finished) ==> forward_rank(t) > forward_rank(s),
        t.phase is Finished ==> a is Stop,
        a is Send ==> s.phase is BeforeSend && t.phase is Sending,
{
    match (s.phase, e) {
        (ForwardPhase::Gate, ForwardEvent::Recalled(false)) => {
            if s.reply_to is None {
                lemma_scan_target(s, 0, t, a);
            }
        },
        (ForwardPhase::Lookup, ForwardEvent::ReplyFound(_)) => {
            lemma_scan_target(s, 0, t, a);
        },
        (ForwardPhase::Sending(j), ForwardEvent::Sent(None)) => {
            lemma_scan_target(s, j + 1, t, a);
        },
        (ForwardPhase::Recorded(j), ForwardEvent::Done) => {
            lemma_scan_target(s, j + 1, t, a);
        },
        _ => {},
    }
}

/// A new run starts within the rule above.
pub proof fn law_forward_start(s: Forwarding)
    requires
        s.phase is Start,
    ensures
        forward_targets_ok(s),
{
}

/// Marking a recall as the bridge's own and then taking the mark finds it;
/// taking it once more finds nothing; marks of other messages are untouched
/// (over the map of marks that `suppress` and `take` maintain).
pub proof fn law_recall_mark_taken_once(
    marks: Map<(Platform, Seq<char>), u64>,
    platform: Platform,
    msg_id: Seq<char>,
    now: u64,
    other: (Platform, Seq<char>),
)
    requires
        other != (platform, msg_id),
    ensures
        marks.insert((platform, msg_id), now).dom().contains((platform, msg_id)),
        !marks.insert((platform, msg_id), now).remove((platform, msg_id)).dom().contains(
            (platform, msg_id),
        ),
        marks.insert((platform, msg_id), now).remove((platform, msg_id)).dom().contains(other)
            == marks.dom().contains(other),
        marks.dom().contains(other) ==> marks.insert((platform, msg_id), now).remove(
            (platform, msg_id),
        )[other] == marks[other],
{
}

/// A mark made at `now` is never older than any limit at `now`, so a prune
/// at the time of marking keeps it.
pub proof fn law_fresh_mark_survives_prune(now: u64, max_age: u64)
    ensures
        age(now, now) <= max_age,
{
}

proof fn lemma_utf8_len_concat(a: Seq<char>, b: Seq<char>)
    ensures
        utf8_len(a + b) == utf8_len(a) + utf8_len(b),
    decreases a.len(),
{
    if a.len() > 0 {
        assert((a + b).drop_first() =~= a.drop_first() + b);
        assert((a + b)[0] == a[0]);
        lemma_utf8_len_concat(a.drop_first(), b);
    } else {
        assert(a + b =~= b);
    }
}

proof fn lemma_fit_prefix(s: Seq<char>, budget: int)
    requires
        budget >= 0,
    ensures
        fit_count(s, budget) <= s.len(),
        utf8_len(s.take(fit_count(s, budget) as int)) <= budget,
    decreases s.len(),
{
    let k = fit_count(s, budget);
    if s.len() == 0 || char_width(s[0]) > budget {
        assert(s.take(0) =~= Seq::<char>::empty());
    } else {
        let w = char_width(s[0]);
        let r = s.drop_first();
        lemma_fit_prefix(r, budget - w);
        let t = s.take(k as int);
        assert(t[0] == s[0]);
        assert(t.drop_first() =~= r.take(fit_count(r, budget - w) as int));
    }
}

/// Cutting a text to a byte limit twice cuts it as once: the result of a cut
/// is left alone by the next. For a limit of at least three bytes the result
/// fits the limit.
pub proof fn law_truncate_idempotent(s: Seq<char>, limit: nat)
    ensures
        truncated(truncated(s, limit), limit) == truncated(s, limit),
        limit >= 3 ==> utf8_len(truncated(s, limit)) <= limit,
{
    if utf8_len(s) > limit {
        let budget: int = if limit >= 3 { limit - 3 } else { 0 };
        let k = fit_count(s, budget);
        lemma_fit_prefix(s, budget);
        let head = s.take(k as int);
        let t = head + ellipsis();
        lemma_utf8_len_concat(head, ellipsis());
        assert(utf8_len(ellipsis()) == 3) by {
            let e = ellipsis();
            let e1 = e.drop_first();
            let e2 = e1.drop_first();
            assert(e2.drop_first() =~= Seq::<char>::empty());
            assert(e2 =~= seq!['.']);
            assert(e1 =~= seq!['.', '.']);
            assert(char_width('.') == 1);
            assert(utf8_len(e2) == char_width(e2[0]) + utf8_len(e2.drop_first()));
            assert(utf8_len(e1) == char_width(e1[0]) + utf8_len(e2));
            assert(utf8_len(e) == char_width(e[0]) + utf8_len(e1));
        }
        if limit < 3 {
            assert(s.len() > 0);
            assert(k == 0);
            assert(head =~= Seq::<char>::empty());
            assert(t =~= ellipsis());
            assert(fit_count(t, 0) == 0);
            assert(t.take(0) + ellipsis() =~= t);
        }
    }
}

proof fn lemma_strip_plain(c: Seq<char>, i: int)
    requires
        0 <= i <= c.len(),
        forall|k: int| !#[trigger] cq_open_at(c, k),
    ensures
        strip_from(c, i) == c.skip(i),
    decreases c.len() - i,
{
    if i < c.len() {
        assert(!cq_open_at(c, i));
        lemma_strip_plain(c, i + 1);
        assert(c.skip(i) =~= seq![c[i]] + c.skip(i + 1));
    } else {
        assert(c.skip(i) =~= Seq::<char>::empty());
    }
}

/// Text without any `[CQ:` block is only trimmed by CQ stripping.
pub proof fn law_plain_text_only_trimmed(m: Seq<char>)
    requires
        forall|k: int| !#[trigger] cq_open_at(m, k),
    ensures
        stripped(m) == trimmed(m),
{
    lemma_strip_plain(m, 0);
    assert(m.skip(0) =~= m);
}

/// A route stored for a message forwarded from platform `src` to another
/// platform `dst` reads back as a reply record that names the original on
/// `src`, the copy on `dst`, and nothing on the other platforms.
pub proof fn law_route_read_back(row: RouteRow, src: Platform, dst: Platform, r: ReplyRecord)
    requires
        row.src_plat@ == plat_name(src),
        row.dst_plat@ == plat_name(dst),
        src != dst,
        record_matches_row(r, row),
    ensures
        r.original_platform == src,
        r.spec_id_on(src) == Some(row.src_msg_id@),
        r.spec_id_on(dst) == Some(row.dst_msg_id@),
        forall|p: Platform| p != src && p != dst ==> #[trigger] r.spec_id_on(p) is None,
{
    law_platform_name_round_trip(src, dst);
    law_platform_name_round_trip(dst, src);
    assert(route_id_on(row, src) == Some(row.src_msg_id@));
    assert(route_id_on(row, dst) == Some(row.dst_msg_id@));
    assert forall|p: Platform| p != src && p != dst implies #[trigger] r.spec_id_on(p) is None by {
        assert(route_id_on(row, p) is None);
    }
}

proof fn lemma_first_sender(senders: Seq<Platform>, p: Platform)
    ensures
        first_sender(senders, p) matches Some(k) ==> 0 <= k < senders.len() && senders[k] == p,
    decreases senders.len(),
{
    if senders.len() > 0 && senders[0] != p {
        lemma_first_sender(senders.drop_first(), p);
    }
}

/// Recalling a message never deletes the recalled message itself, and each
/// bridged copy is deleted through a sender of the copy's platform and is
/// one of the messages related to the recalled one.
pub proof fn law_recall_targets_sound(
    source: Platform,
    msg_id: Seq<char>,
    related: Seq<(Platform, Seq<char>)>,
    senders: Seq<Platform>,
)
    ensures
        forall|i: int|
            0 <= i < recall_plan(source, msg_id, related, senders).len() ==> {
                let (k, p, id) = #[trigger] recall_plan(source, msg_id, related, senders)[i];
                &&& !(p == source && id == msg_id)
                &&& 0 <= k < senders.len()
                &&& senders[k] == p
                &&& related.contains((p, id))
            },
    decreases related.len(),
{
    if related.len() > 0 {
        let rest = related.drop_last();
        law_recall_targets_sound(source, msg_id, rest, senders);
        let (p, id) = related.last();
        lemma_first_sender(senders, p);
        let plan = recall_plan(source, msg_id, related, senders);
        let before = recall_plan(source, msg_id, rest, senders);
        assert forall|i: int| 0 <= i < plan.len() implies {
            let (k, q, jd) = #[trigger] plan[i];
            &&& !(q == source && jd == msg_id)
            &&& 0 <= k < senders.len()
            &&& senders[k] == q
            &&& related.contains((q, jd))
        } by {
            if i < before.len() {
                assert(plan[i] == before[i]);
                let (k, q, jd) = before[i];
                let w = choose|w: int| 0 <= w < rest.len() && rest[w] == (q, jd);
                assert(related[w] == rest[w]);
            } else {
                assert(related[related.len() - 1] == (p, id));
            }
        }
    }
}

/// The panel's log view never holds more than 800 lines, always ends with
/// the newest line, and is the tail of everything received.
pub proof fn law_log_view_bounded(logs: Seq<String>, line: String)
    requires
        logs.len() <= 800,
    ensures
        logs_after(logs, line).len() <= 800,
        logs_after(logs, line).len() > 0,
        logs_after(logs, line).last() == line,
        logs.push(line).skip(logs.len() + 1 - logs_after(logs, line).len()) == logs_after(logs, line),
{
    let all = logs.push(line);
    if all.len() <= 800 {
        assert(all.skip(0) =~= all);
    }
}

/// The bridge looked up for a Discord channel is the last one configured
/// with it; no bridge is found when none names it.
pub proof fn law_discord_lookup_is_last(cfgs: Seq<BridgeConfig>, ch: u64)
    ensures
        last_discord(cfgs, ch) matches Some(i) ==> 0 <= i < cfgs.len()
            && cfgs[i].discord_channel_id == Some(ch)
            && forall|j: int| i < j < cfgs.len() ==> (#[trigger] cfgs[j]).discord_channel_id != Some(ch),
        last_discord(cfgs, ch) is None ==> forall|j: int|
            0 <= j < cfgs.len() ==> (#[trigger] cfgs[j]).discord_channel_id != Some(ch),
    decreases cfgs.len(),
{
    if cfgs.len() > 0 {
        let rest = cfgs.drop_last();
        law_discord_lookup_is_last(rest, ch);
        assert forall|j: int| 0 <= j < rest.len() implies rest[j] == cfgs[j] by {}
    }
}

/// The bridge looked up for a QQ group is the last one configured
/// with it; no bridge is found when none names it.
pub proof fn law_qq_lookup_is_last(cfgs: Seq<BridgeConfig>, g: i64)
    ensures
        last_qq(cfgs, g) matches Some(i) ==> 0 <= i < cfgs.len()
            && cfgs[i].qq_group_id == Some(g)
            && forall|j: int| i < j < cfgs.len() ==> (#[trigger] cfgs[j]).qq_group_id != Some(g),
        last_qq(cfgs, g) is None ==> forall|j: int|
            0 <= j < cfgs.len() ==> (#[trigger] cfgs[j]).qq_group_id != Some(g),
    decreases cfgs.len(),
{
    if cfgs.len() > 0 {
        let rest = cfgs.drop_last();
        law_qq_lookup_is_last(rest, g);
        assert forall|j: int| 0 <= j < rest.len() implies rest[j] == cfgs[j] by {}
    }
}

/// The bridge looked up for a Telegram chat is the last one configured
/// with it; no bridge is found when none names it.
pub proof fn law_telegram_lookup_is_last(cfgs: Seq<BridgeConfig>, c: i64)
    ensures
        last_telegram(cfgs, c) matches Some(i) ==> 0 <= i < cfgs.len()
            && cfgs[i].telegram_group_id == Some(c)
            && forall|j: int| i < j < cfgs.len() ==> (#[trigger] cfgs[j]).telegram_group_id != Some(c),
        last_telegram(cfgs, c) is None ==> forall|j: int|
            0 <= j < cfgs.len() ==> (#[trigger] cfgs[j]).telegram_group_id != Some(c),
    decreases cfgs.len(),
{
    if cfgs.len() > 0 {
        let rest = cfgs.drop_last();
        law_telegram_lookup_is_last(rest, c);
        assert forall|j: int| 0 <= j < rest.len() implies rest[j] == cfgs[j] by {}
    }
}

/// The bridge looked up for a Matrix room is the last one configured
/// with it; no bridge is found when none names it.
pub proof fn law_matrix_lookup_is_last(cfgs: Seq<BridgeConfig>, room: Seq<char>)
    ensures
        last_matrix(cfgs, room) matches Some(i) ==> 0 <= i < cfgs.len()
            && names_room(cfgs[i], room)
            && forall|j: int| i < j < cfgs.len() ==> !names_room(#[trigger] cfgs[j], room),
        last_matrix(cfgs, room) is None ==> forall|j: int|
            0 <= j < cfgs.len() ==> !names_room(#[trigger] cfgs[j], room),
    decreases cfgs.len(),
{
    if cfgs.len() > 0 {
        let rest = cfgs.drop_last();
        law_matrix_lookup_is_last(rest, room);
        assert forall|j: int| 0 <= j < rest.len() implies rest[j] == cfgs[j] by {}
    }
}

/// The bridge a Matrix room is looked up to is a bridge of the set, so the
/// operations that take a bridge index accept it.
pub proof fn law_matrix_lookup_in_range(b: Bridges, room: Seq<char>)
    requires
        b.wf(),
    ensures
        last_matrix(b.spec_configs(), room) matches Some(i) ==> 0 <= i < b.spec_bridges().len(),
{
    b.lemma_wf();
    law_matrix_lookup_is_last(b.spec_configs(), room);
}

/// When a sent copy turns out late (its original was recalled), its
/// deletion is marked as the bridge's own; once the deletion is reported, the
/// mark is there exactly when the deletion succeeded.
pub proof fn law_late_copy_mark(
    s0: Forwarding,
    b0: Bridges,
    now0: u64,
    s1: Forwarding,
    b1: Bridges,
    a1: ForwardAction,
    ok: bool,
    now1: u64,
    b2: Bridges,
)
    requires
        s0.phase matches ForwardPhase::AfterSend(j, _) && j < s0.senders@.len(),
        forward_step(s0, ForwardEvent::Recalled(true), s1, a1),
        forward_marks(s0, b0, now0, ForwardEvent::Recalled(true), b1),
        forward_marks(s1, b1, now1, ForwardEvent::Deleted(ok), b2),
    ensures
        s0.phase matches ForwardPhase::AfterSend(j, dst) && marks_of(b2, s0.bridge as int).contains_key(
            (s0.senders@[j as int], dst@),
        ) == ok,
{
}

} // verus!
