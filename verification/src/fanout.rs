//! Forwarding one incoming message to every other platform of its bridge,
//! and recalling the bridged copies of a deleted message. The sending,
//! deleting and storing are done by the caller; this module decides, step by
//! step, what to do next.

use vstd::prelude::*;

use crate::bridge::Bridges;
use crate::message::{opt_view, Platform, ReplyRecord};

verus! {

/// Where a forwarding run stands.
pub enum ForwardPhase {
    /// Waiting for the readiness report.
    Start,
    /// Waiting to learn whether the message was recalled before forwarding.
    Gate,
    /// Waiting for the stored record of the message replied to.
    Lookup,
    /// Waiting to learn whether the message was recalled before sending to
    /// sender `0`.
    BeforeSend(usize),
    /// Waiting for the result of sending to sender `0`.
    Sending(usize),
    /// The copy `1` was sent through sender `0`; waiting to learn whether the
    /// message was recalled meanwhile.
    AfterSend(usize, String),
    /// The late copy `1` on sender `0` is being deleted.
    Deleting(usize, String),
    /// The route for sender `0` is being stored.
    Recorded(usize),
    /// Nothing more to do.
    Finished,
}

/// What the caller reports back.
pub enum ForwardEvent {
    /// Whether every platform is ready.
    Ready(bool),
    /// Whether the source message has been recalled.
    Recalled(bool),
    /// The stored record of the message replied to, if found.
    ReplyFound(Option<ReplyRecord>),
    /// The ID of the sent copy, or `None` if sending failed.
    Sent(Option<String>),
    /// Whether deleting the late copy succeeded.
    Deleted(bool),
    /// The requested action is done.
    Done,
}

/// What the caller does next.
pub enum ForwardAction {
    /// Stop: the run is over.
    Stop,
    /// Ask the store whether the source message was recalled; report `Recalled`.
    CheckRecalled,
    /// Look up the stored record of message `0` on the source platform;
    /// report `ReplyFound`.
    LookupReply(String),
    /// Send the message through sender `sender`, replying to `reply_to`;
    /// report `Sent`.
    Send { sender: usize, reply_to: Option<String> },
    /// Delete copy `dst` on sender `sender`'s platform; report `Deleted`. The
    /// bridge has already marked that deletion as its own.
    DeleteLateCopy { sender: usize, dst: String },
    /// Store the route to copy `dst` on sender `sender`; report `Done`.
    Record { sender: usize, dst: String },
}

/// The first sender at or after `from` that is not on the source platform.
pub open spec fn next_target(senders: Seq<Platform>, source: Platform, from: int) -> Option<int>
    decreases senders.len() - from,
{
    if from < 0 || from >= senders.len() {
        None
    } else if senders[from] != source {
        Some(from)
    } else {
        next_target(senders, source, from + 1)
    }
}

pub proof fn lemma_next_target(senders: Seq<Platform>, source: Platform, from: int)
    requires
        0 <= from,
    ensures
        next_target(senders, source, from) matches Some(j) ==> from <= j < senders.len()
            && senders[j] != source && forall|k: int| from <= k < j ==> senders[k] == source,
        next_target(senders, source, from) is None ==> forall|k: int|
            from <= k < senders.len() ==> senders[k] == source,
    decreases senders.len() - from,
{
    if from < senders.len() && senders[from] == source {
        lemma_next_target(senders, source, from + 1);
    }
}

/// The reply target on platform `p`, given the record of the message
/// replied to.
pub open spec fn reply_on(record: Option<ReplyRecord>, p: Platform) -> Option<Seq<char>> {
    match record {
        Some(r) => r.spec_id_on(p),
        None => None,
    }
}

/// One forwarding run, through bridge `bridge`.
pub struct Forwarding {
    pub bridge: usize,
    pub source: Platform,
    pub senders: Vec<Platform>,
    pub reply_to: Option<String>,
    pub record: Option<ReplyRecord>,
    pub phase: ForwardPhase,
}

/// Moving on to the first target at or after `from`: the phase and action.
pub open spec fn scan_to(s: Forwarding, from: int, p: ForwardPhase, a: ForwardAction) -> bool {
    match next_target(s.senders@, s.source, from) {
        None => p is Finished && a is Stop,
        Some(j) => p == ForwardPhase::BeforeSend(j as usize) && a is CheckRecalled,
    }
}

/// The effect of one step: the new state `t` and action `a` after event `e`
/// in state `s`.
pub open spec fn forward_step(s: Forwarding, e: ForwardEvent, t: Forwarding, a: ForwardAction) -> bool {
    &&& t.bridge == s.bridge
    &&& t.source == s.source
    &&& t.senders == s.senders
    &&& t.reply_to == s.reply_to
    &&& match (s.phase, e) {
        (ForwardPhase::Start, ForwardEvent::Ready(ready)) => t.record == s.record && if ready {
            t.phase is Gate && a is CheckRecalled
        } else {
            t.phase is Finished && a is Stop
        },
        (ForwardPhase::Gate, ForwardEvent::Recalled(recalled)) => t.record == s.record && if recalled {
            t.phase is Finished && a is Stop
        } else {
            match s.reply_to {
                Some(id) => {
                    &&& t.phase is Lookup
                    &&& a matches ForwardAction::LookupReply(q)
                    &&& q@ == id@
                },
                None => scan_to(s, 0, t.phase, a),
            }
        },
        (ForwardPhase::Lookup, ForwardEvent::ReplyFound(record)) => t.record == record && scan_to(
            s,
            0,
            t.phase,
            a,
        ),
        (ForwardPhase::BeforeSend(j), ForwardEvent::Recalled(recalled)) => t.record == s.record
            && if recalled || j >= s.senders@.len() {
            t.phase is Finished && a is Stop
        } else {
            &&& t.phase == ForwardPhase::Sending(j)
            &&& a matches ForwardAction::Send { sender, reply_to }
            &&& sender == j
            &&& opt_view(reply_to) == reply_on(s.record, s.senders@[j as int])
        },
        (ForwardPhase::Sending(j), ForwardEvent::Sent(res)) => t.record == s.record && match res {
            Some(dst) => t.phase == ForwardPhase::AfterSend(j, dst) && a is CheckRecalled,
            None => scan_to(s, j + 1, t.phase, a),
        },
        (ForwardPhase::AfterSend(j, dst), ForwardEvent::Recalled(recalled)) => t.record == s.record
            && if recalled {
            &&& t.phase == ForwardPhase::Deleting(j, dst)
            &&& a matches ForwardAction::DeleteLateCopy { sender, dst: d }
            &&& sender == j
            &&& d@ == dst@
        } else {
            &&& t.phase == ForwardPhase::Recorded(j)
            &&& a matches ForwardAction::Record { sender, dst: d }
            &&& sender == j
            &&& d == dst
        },
        (ForwardPhase::Deleting(j, dst), ForwardEvent::Deleted(ok)) => {
            &&& t.record == s.record
            &&& t.phase == ForwardPhase::Recorded(j)
            &&& a matches ForwardAction::Record { sender, dst: d }
            &&& sender == j
            &&& d == dst
        },
        (ForwardPhase::Recorded(j), ForwardEvent::Done) => t.record == s.record && scan_to(
            s,
            j + 1,
            t.phase,
            a,
        ),
        _ => t.record == s.record && t.phase is Finished && a is Stop,
    }
}

/// The recall marks of the bridge after event `e` in state `s` at time
/// `now`: the deletion of a late copy is marked when it is decided, and the
/// mark is withdrawn when that deletion fails; nothing else in `b0` changes.
pub open spec fn forward_marks(s: Forwarding, b0: Bridges, now: u64, e: ForwardEvent, b1: Bridges) -> bool {
    let i = s.bridge as int;
    let m0 = marks_of(b0, i);
    &&& same_but_marks(b0, b1, i)
    &&& marks_of(b1, i) == match (s.phase, e) {
        (ForwardPhase::AfterSend(j, dst), ForwardEvent::Recalled(true)) => if j < s.senders@.len() {
            m0.insert((s.senders@[j as int], dst@), now)
        } else {
            m0
        },
        (ForwardPhase::Deleting(j, dst), ForwardEvent::Deleted(false)) => if j < s.senders@.len() {
            m0.remove((s.senders@[j as int], dst@))
        } else {
            m0
        },
        _ => m0,
    }
}

fn opt_string(o: Option<&str>) -> (r: Option<String>)
    ensures
        r matches Some(x) ==> o matches Some(y) && x@ == y@,
        r is None ==> o is None,
{
    match o {
        Some(y) => Some(String::from_str(y)),
        None => None,
    }
}

impl Forwarding {
    /// A run forwarding a message from `source` (replying to `reply_to`)
    /// through bridge `bridge`, whose senders are `senders`.
    pub fn new(bridge: usize, source: Platform, senders: Vec<Platform>, reply_to: Option<String>) -> (r: Self)
        ensures
            r.bridge == bridge,
            r.source == source,
            r.senders == senders,
            r.reply_to == reply_to,
            r.record is None,
            r.phase is Start,
    {
        Forwarding { bridge, source, senders, reply_to, record: None, phase: ForwardPhase::Start }
    }

    fn scan(&mut self, from: usize) -> (a: ForwardAction)
        ensures
            final(self).bridge == old(self).bridge,
            final(self).source == old(self).source,
            final(self).senders == old(self).senders,
            final(self).reply_to == old(self).reply_to,
            final(self).record == old(self).record,
            scan_to(*old(self), from as int, final(self).phase, a),
    {
        let mut j = from;
        while j < self.senders.len() && self.senders[j] == self.source
            invariant
                from <= j,
                next_target(self.senders@, self.source, j as int) == next_target(
                    self.senders@,
                    self.source,
                    from as int,
                ),
            decreases self.senders@.len() - j,
        {
            j = j + 1;
        }
        if j < self.senders.len() {
            self.phase = ForwardPhase::BeforeSend(j);
            ForwardAction::CheckRecalled
        } else {
            self.phase = ForwardPhase::Finished;
            ForwardAction::Stop
        }
    }

    /// Advances the run by one event at time `now`, keeping the bridge's
    /// recall marks: a late copy's deletion is marked before it is handed
    /// out, and the mark is withdrawn when the deletion fails.
    pub fn step(&mut self, bridges: &mut Bridges, now: u64, e: ForwardEvent) -> (a: ForwardAction)
        requires
            old(bridges).wf(),
            (old(self).bridge as int) < old(bridges).spec_bridges().len(),
        ensures
            forward_step(*old(self), e, *final(self), a),
            forward_marks(*old(self), *old(bridges), now, e, *final(bridges)),
    {
        let mut phase = ForwardPhase::Finished;
        std::mem::swap(&mut phase, &mut self.phase);
        match (phase, e) {
            (ForwardPhase::Start, ForwardEvent::Ready(ready)) => {
                if ready {
                    self.phase = ForwardPhase::Gate;
                    ForwardAction::CheckRecalled
                } else {
                    ForwardAction::Stop
                }
            },
            (ForwardPhase::Gate, ForwardEvent::Recalled(recalled)) => {
                if recalled {
                    ForwardAction::Stop
                } else {
                    match &self.reply_to {
                        Some(id) => {
                            self.phase = ForwardPhase::Lookup;
                            ForwardAction::LookupReply(id.clone())
                        },
                        None => self.scan(0),
                    }
                }
            },
            (ForwardPhase::Lookup, ForwardEvent::ReplyFound(record)) => {
                self.record = record;
                self.scan(0)
            },
            (ForwardPhase::BeforeSend(j), ForwardEvent::Recalled(recalled)) => {
                if recalled || j >= self.senders.len() {
                    ForwardAction::Stop
                } else {
                    let target = self.senders[j];
                    let reply_to = match &self.record {
                        Some(r) => opt_string(r.id_on(target)),
                        None => None,
                    };
                    self.phase = ForwardPhase::Sending(j);
                    ForwardAction::Send { sender: j, reply_to }
                }
            },
            (ForwardPhase::Sending(j), ForwardEvent::Sent(res)) => {
                match res {
                    Some(dst) => {
                        self.phase = ForwardPhase::AfterSend(j, dst);
                        ForwardAction::CheckRecalled
                    },
                    None => {
                        if j < usize::MAX {
                            self.scan(j + 1)
                        } else {
                            let n = self.senders.len();
                            assert(n as int == self.senders@.len());
                            assert(next_target(self.senders@, self.source, j + 1) is None);
                            ForwardAction::Stop
                        }
                    },
                }
            },
            (ForwardPhase::AfterSend(j, dst), ForwardEvent::Recalled(recalled)) => {
                if recalled {
                    if j < self.senders.len() {
                        bridges.suppress_recall(self.bridge, self.senders[j], dst.as_str(), now);
                    }
                    let d = dst.clone();
                    self.phase = ForwardPhase::Deleting(j, dst);
                    ForwardAction::DeleteLateCopy { sender: j, dst: d }
                } else {
                    self.phase = ForwardPhase::Recorded(j);
                    ForwardAction::Record { sender: j, dst }
                }
            },
            (ForwardPhase::Deleting(j, dst), ForwardEvent::Deleted(ok)) => {
                if !ok && j < self.senders.len() {
                    let _ = bridges.take_suppressed_recall(self.bridge, self.senders[j], dst.as_str());
                }
                self.phase = ForwardPhase::Recorded(j);
                ForwardAction::Record { sender: j, dst }
            },
            (ForwardPhase::Recorded(j), ForwardEvent::Done) => {
                if j < usize::MAX {
                    self.scan(j + 1)
                } else {
                    let n = self.senders.len();
                            assert(n as int == self.senders@.len());
                    assert(next_target(self.senders@, self.source, j + 1) is None);
                    ForwardAction::Stop
                }
            },
            _ => ForwardAction::Stop,
        }
    }
}


/// The first sender on platform `p`.
pub open spec fn first_sender(senders: Seq<Platform>, p: Platform) -> Option<int>
    decreases senders.len(),
{
    if senders.len() == 0 {
        None
    } else if senders[0] == p {
        Some(0)
    } else {
        match first_sender(senders.drop_first(), p) {
            Some(k) => Some(k + 1),
            None => None,
        }
    }
}

/// One bridged copy to delete: through which sender, on which platform,
/// which message.
pub struct RecallTarget {
    pub sender: usize,
    pub platform: Platform,
    pub msg_id: String,
}

/// The copies to delete when message `msg_id` on `source` is recalled, in the
/// order of `related`: every related message except the recalled one itself,
/// for whose platform the bridge has a sender.
pub open spec fn recall_plan(
    source: Platform,
    msg_id: Seq<char>,
    related: Seq<(Platform, Seq<char>)>,
    senders: Seq<Platform>,
) -> Seq<(int, Platform, Seq<char>)>
    decreases related.len(),
{
    if related.len() == 0 {
        Seq::empty()
    } else {
        let before = recall_plan(source, msg_id, related.drop_last(), senders);
        let (p, id) = related.last();
        if p == source && id == msg_id {
            before
        } else {
            match first_sender(senders, p) {
                Some(k) => before.push((k, p, id)),
                None => before,
            }
        }
    }
}

/// The platform/message pairs of `related`.
pub open spec fn related_view(related: Seq<(Platform, String)>) -> Seq<(Platform, Seq<char>)> {
    related.map_values(|r: (Platform, String)| (r.0, r.1@))
}

/// The sender/platform/message triples of `targets`.
pub open spec fn targets_view(targets: Seq<RecallTarget>) -> Seq<(int, Platform, Seq<char>)> {
    targets.map_values(|t: RecallTarget| (t.sender as int, t.platform, t.msg_id@))
}

fn find_sender(senders: &[Platform], p: Platform) -> (r: Option<usize>)
    ensures
        r matches Some(k) ==> first_sender(senders@, p) == Some(k as int),
        r is None ==> first_sender(senders@, p) is None,
{
    let mut i: usize = 0;
    while i < senders.len()
        invariant
            i <= senders@.len(),
            forall|k: int| 0 <= k < i ==> senders@[k] != p,
        decreases senders@.len() - i,
    {
        if senders[i] == p {
            proof {
                lemma_first_sender_at(senders@, p, i as int);
            }
            return Some(i);
        }
        i = i + 1;
    }
    proof {
        lemma_first_sender_none(senders@, p);
    }
    None
}

pub proof fn lemma_first_sender_at(senders: Seq<Platform>, p: Platform, k: int)
    requires
        0 <= k < senders.len(),
        senders[k] == p,
        forall|j: int| 0 <= j < k ==> senders[j] != p,
    ensures
        first_sender(senders, p) == Some(k),
    decreases k,
{
    if k > 0 {
        let t = senders.drop_first();
        assert(t[k - 1] == senders[k]);
        assert forall|j: int| 0 <= j < k - 1 implies t[j] != p by {
            assert(t[j] == senders[j + 1]);
        }
        lemma_first_sender_at(t, p, k - 1);
    }
}

proof fn lemma_first_sender_none(senders: Seq<Platform>, p: Platform)
    requires
        forall|j: int| 0 <= j < senders.len() ==> senders[j] != p,
    ensures
        first_sender(senders, p) is None,
    decreases senders.len(),
{
    if senders.len() > 0 {
        let t = senders.drop_first();
        assert forall|j: int| 0 <= j < t.len() implies t[j] != p by {
            assert(t[j] == senders[j + 1]);
        }
        lemma_first_sender_none(t, p);
    }
}

/// Which bridged copies to delete when message `msg_id` on `source` is
/// recalled, given the messages the store relates to it and the bridge's
/// senders.
pub fn recall_targets(
    source: Platform,
    msg_id: &str,
    related: &[(Platform, String)],
    senders: &[Platform],
) -> (r: Vec<RecallTarget>)
    ensures
        targets_view(r@) == recall_plan(source, msg_id@, related_view(related@), senders@),
{
    let own = String::from_str(msg_id);
    let mut out: Vec<RecallTarget> = Vec::new();
    let mut i: usize = 0;
    while i < related.len()
        invariant
            i <= related@.len(),
            own@ == msg_id@,
            targets_view(out@) == recall_plan(
                source,
                msg_id@,
                related_view(related@).take(i as int),
                senders@,
            ),
        decreases related@.len() - i,
    {
        let ghost rv = related_view(related@);
        assert(rv.take(i + 1).drop_last() =~= rv.take(i as int));
        assert(rv.take(i + 1).last() == (related@[i as int].0, related@[i as int].1@));
        let (p, id) = (related[i].0, &related[i].1);
        let ghost before = out@;
        if !(p == source && *id == own) {
            match find_sender(senders, p) {
                Some(k) => {
                    out.push(RecallTarget { sender: k, platform: p, msg_id: id.clone() });
                    assert(targets_view(out@) =~= targets_view(before).push((k as int, p, id@)));
                },
                None => {},
            }
        }
        i = i + 1;
    }
    assert(related_view(related@).take(related@.len() as int) =~= related_view(related@));
    out
}


/// Where a recall run stands.
pub enum RecallPhase {
    /// Not begun.
    Start,
    /// The copy of target `0` is being deleted.
    Deleting(usize),
    /// Nothing more to do.
    Finished,
}

/// What the caller reports back to a recall run.
pub enum RecallEvent {
    /// Begin, at time `now`.
    Begin { now: u64 },
    /// Deleting the current copy succeeded (`ok`) or failed; it is now `now`.
    Deleted { ok: bool, now: u64 },
}

/// What the caller does next in a recall run.
pub enum RecallAction {
    /// Stop: the run is over.
    Stop,
    /// Delete copy `msg_id` on `platform` through sender `sender`; report
    /// `Deleted`. The bridge has already marked that deletion as its own.
    Delete { sender: usize, platform: Platform, msg_id: String },
}

/// Deleting the bridged copies of a recalled message, one after another, on
/// bridge `bridge`. Each copy's deletion is marked as the bridge's own before
/// the caller deletes it, so that the echo of the deletion is not taken for a
/// new recall; the mark is withdrawn when the deletion fails, and the run goes
/// on with the next copy either way.
pub struct Recalling {
    pub bridge: usize,
    pub targets: Vec<RecallTarget>,
    pub phase: RecallPhase,
}

/// The recall-mark key of a target.
pub open spec fn target_key(t: RecallTarget) -> (Platform, Seq<char>) {
    (t.platform, t.msg_id@)
}

/// The recall marks of bridge `i`.
pub open spec fn marks_of(b: Bridges, i: int) -> Map<(Platform, Seq<char>), u64> {
    b.spec_bridges()[i].spec_recalls()
}

/// `b1` is `b0` with at most the recall marks of bridge `i` changed.
pub open spec fn same_but_marks(b0: Bridges, b1: Bridges, i: int) -> bool {
    &&& b1.wf()
    &&& b1.spec_bridges().len() == b0.spec_bridges().len()
    &&& forall|j: int|
        0 <= j < b0.spec_bridges().len() && j != i ==> #[trigger] b1.spec_bridges()[j]
            == b0.spec_bridges()[j]
    &&& b1.spec_ids() == b0.spec_ids()
    &&& b1.spec_ready() == b0.spec_ready()
    &&& b1.spec_configs() == b0.spec_configs()
    &&& b1.spec_avail() == b0.spec_avail()
}

/// Moving on to target `k` with marks `m` (before marking) at time `now`:
/// the phase, the marks afterwards and the action.
pub open spec fn recall_to(
    s: Recalling,
    k: int,
    m: Map<(Platform, Seq<char>), u64>,
    now: u64,
    p: RecallPhase,
    m2: Map<(Platform, Seq<char>), u64>,
    a: RecallAction,
) -> bool {
    if 0 <= k < s.targets@.len() {
        let t = s.targets@[k];
        &&& p == RecallPhase::Deleting(k as usize)
        &&& m2 == m.insert(target_key(t), now)
        &&& a matches RecallAction::Delete { sender, platform, msg_id }
        &&& sender == t.sender
        &&& platform == t.platform
        &&& msg_id@ == t.msg_id@
    } else {
        &&& p is Finished
        &&& m2 == m
        &&& a is Stop
    }
}

/// The effect of one step of a recall run: state `s` and bridges `b0` become
/// `t` and `b1`, and the action is `a`.
pub open spec fn recall_step(
    s: Recalling,
    b0: Bridges,
    e: RecallEvent,
    t: Recalling,
    b1: Bridges,
    a: RecallAction,
) -> bool {
    let i = s.bridge as int;
    let m0 = marks_of(b0, i);
    &&& t.bridge == s.bridge
    &&& t.targets == s.targets
    &&& same_but_marks(b0, b1, i)
    &&& match (s.phase, e) {
        (RecallPhase::Start, RecallEvent::Begin { now }) => recall_to(
            s,
            0,
            m0,
            now,
            t.phase,
            marks_of(b1, i),
            a,
        ),
        (RecallPhase::Deleting(k), RecallEvent::Deleted { ok, now }) => if k < s.targets@.len() {
            let m = if ok {
                m0
            } else {
                m0.remove(target_key(s.targets@[k as int]))
            };
            recall_to(s, k + 1, m, now, t.phase, marks_of(b1, i), a)
        } else {
            t.phase is Finished && marks_of(b1, i) == m0 && a is Stop
        },
        _ => t.phase is Finished && marks_of(b1, i) == m0 && a is Stop,
    }
}

impl Recalling {
    /// A run recalling message `msg_id` on `source` through bridge `bridge`,
    /// over the copies that `recall_targets` picks.
    pub fn new(
        bridge: usize,
        source: Platform,
        msg_id: &str,
        related: &[(Platform, String)],
        senders: &[Platform],
    ) -> (r: Self)
        ensures
            r.bridge == bridge,
            targets_view(r.targets@) == recall_plan(source, msg_id@, related_view(related@), senders@),
            r.phase is Start,
    {
        Recalling {
            bridge,
            targets: recall_targets(source, msg_id, related, senders),
            phase: RecallPhase::Start,
        }
    }

    fn recall_next(&mut self, bridges: &mut Bridges, k: usize, now: u64) -> (a: RecallAction)
        requires
            old(bridges).wf(),
            (old(self).bridge as int) < old(bridges).spec_bridges().len(),
        ensures
            final(self).bridge == old(self).bridge,
            final(self).targets == old(self).targets,
            same_but_marks(*old(bridges), *final(bridges), old(self).bridge as int),
            recall_to(
                *old(self),
                k as int,
                marks_of(*old(bridges), old(self).bridge as int),
                now,
                final(self).phase,
                marks_of(*final(bridges), old(self).bridge as int),
                a,
            ),
    {
        if k < self.targets.len() {
            let a = {
                let t = &self.targets[k];
                bridges.suppress_recall(self.bridge, t.platform, t.msg_id.as_str(), now);
                RecallAction::Delete { sender: t.sender, platform: t.platform, msg_id: t.msg_id.clone() }
            };
            self.phase = RecallPhase::Deleting(k);
            a
        } else {
            self.phase = RecallPhase::Finished;
            RecallAction::Stop
        }
    }

    /// Advances the run by one event, keeping the bridge's recall marks.
    pub fn step(&mut self, bridges: &mut Bridges, e: RecallEvent) -> (a: RecallAction)
        requires
            old(bridges).wf(),
            (old(self).bridge as int) < old(bridges).spec_bridges().len(),
        ensures
            recall_step(*old(self), *old(bridges), e, *final(self), *final(bridges), a),
    {
        match (&self.phase, e) {
            (RecallPhase::Start, RecallEvent::Begin { now }) => self.recall_next(bridges, 0, now),
            (RecallPhase::Deleting(k), RecallEvent::Deleted { ok, now }) => {
                let k = *k;
                if k < self.targets.len() {
                    if !ok {
                        let t = &self.targets[k];
                        let _ = bridges.take_suppressed_recall(self.bridge, t.platform, t.msg_id.as_str());
                    }
                    self.recall_next(bridges, k + 1, now)
                } else {
                    self.phase = RecallPhase::Finished;
                    RecallAction::Stop
                }
            },
            _ => {
                self.phase = RecallPhase::Finished;
                RecallAction::Stop
            },
        }
    }
}

} // verus!
