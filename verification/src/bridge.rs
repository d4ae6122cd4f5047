//! Bridges: which chats are mirrored into which, the key under which a
//! bridge's message routes are stored, the bot's own user ID on each platform,
//! and whether every configured platform is ready.

use std::collections::HashMap;

use vstd::prelude::*;

use crate::config::{copy_bridge_config, BridgeConfig};
use crate::message::Platform;
use crate::num::{dec, dec_int, push_i64, push_u64};
use crate::recall::{age, SuppressedRecalls};
use crate::text::{push_char, push_str};

verus! {

/// Which platform clients are configured (and so which platforms can be
/// sent to).
#[derive(Debug, Clone, Copy, PartialEq, Eq, Structural)]
pub struct PlatformSet {
    pub discord: bool,
    pub qq: bool,
    pub telegram: bool,
    pub matrix: bool,
}

/// The platform parts of a bridge's key, in the order Discord, QQ, Telegram,
/// Matrix: `d_<channel>`, `q_<group>`, `t_<chat>`, `m_<room>`, each present
/// when the platform's client is configured and the bridge names a chat there.
pub open spec fn key_parts(cfg: BridgeConfig, avail: PlatformSet) -> Seq<Seq<char>> {
    let d = if avail.discord && cfg.discord_channel_id is Some {
        seq![seq!['d', '_'] + dec(cfg.discord_channel_id->0 as nat)]
    } else {
        Seq::empty()
    };
    let q = if avail.qq && cfg.qq_group_id is Some {
        seq![seq!['q', '_'] + dec_int(cfg.qq_group_id->0 as int)]
    } else {
        Seq::empty()
    };
    let t = if avail.telegram && cfg.telegram_group_id is Some {
        seq![seq!['t', '_'] + dec_int(cfg.telegram_group_id->0 as int)]
    } else {
        Seq::empty()
    };
    let m = if avail.matrix && cfg.matrix_room_id is Some {
        seq![seq!['m', '_'] + cfg.matrix_room_id->0@]
    } else {
        Seq::empty()
    };
    d + q + t + m
}

/// `parts.join(sep)`.
pub open spec fn join(parts: Seq<Seq<char>>, sep: char) -> Seq<char>
    decreases parts.len(),
{
    if parts.len() == 0 {
        Seq::empty()
    } else if parts.len() == 1 {
        parts[0]
    } else {
        join(parts.drop_last(), sep).push(sep) + parts.last()
    }
}

/// The key under which the bridge's message routes are stored.
pub open spec fn group_key_of(cfg: BridgeConfig, avail: PlatformSet) -> Seq<char> {
    join(key_parts(cfg, avail), ':')
}

/// The platforms the bridge sends to, in the order Discord, QQ, Telegram,
/// Matrix.
pub open spec fn senders_of(cfg: BridgeConfig, avail: PlatformSet) -> Seq<Platform> {
    let d = if avail.discord && cfg.discord_channel_id is Some {
        seq![Platform::Discord]
    } else {
        Seq::empty()
    };
    let q = if avail.qq && cfg.qq_group_id is Some {
        seq![Platform::QQ]
    } else {
        Seq::empty()
    };
    let t = if avail.telegram && cfg.telegram_group_id is Some {
        seq![Platform::Telegram]
    } else {
        Seq::empty()
    };
    let m = if avail.matrix && cfg.matrix_room_id is Some {
        seq![Platform::Matrix]
    } else {
        Seq::empty()
    };
    d + q + t + m
}

/// Appends one key part, separated by `:` from the parts before it.
fn push_key_part(
    s: &mut String,
    count: usize,
    parts: Ghost<Seq<Seq<char>>>,
    part: Ghost<Seq<char>>,
    build: &String,
)
    requires
        old(s)@ == join(parts@, ':'),
        count == parts@.len(),
        build@ == part@,
    ensures
        final(s)@ == join(parts@.push(part@), ':'),
{
    let ghost ps = parts@.push(part@);
    assert(ps.drop_last() =~= parts@);
    if count > 0 {
        push_char(s, ':');
    } else {
        assert(ps.len() == 1);
    }
    push_str(s, build.as_str());
}

/// The routing key and the target platforms of one bridge.
pub fn bridge_key(cfg: &BridgeConfig, avail: PlatformSet) -> (r: (String, Vec<Platform>))
    ensures
        r.0@ == group_key_of(*cfg, avail),
        r.1@ == senders_of(*cfg, avail),
{
    let mut key = String::new();
    let mut senders: Vec<Platform> = Vec::new();
    let mut count: usize = 0;
    let ghost mut parts: Seq<Seq<char>> = Seq::empty();
    let ghost mut plats: Seq<Platform> = Seq::empty();
    assert(key@ =~= join(parts, ':'));
    if avail.discord {
        if let Some(ch) = cfg.discord_channel_id {
            let mut p = String::new();
            push_char(&mut p, 'd');
            push_char(&mut p, '_');
            push_u64(&mut p, ch);
            assert(p@ =~= seq!['d', '_'] + dec(ch as nat));
            push_key_part(&mut key, count, Ghost(parts), Ghost(p@), &p);
            senders.push(Platform::Discord);
            count = count + 1;
            proof {
                parts = parts.push(p@);
                plats = plats.push(Platform::Discord);
            }
        }
    }
    let ghost d_spec: Seq<Seq<char>> = if avail.discord && cfg.discord_channel_id is Some {
        seq![seq!['d', '_'] + dec(cfg.discord_channel_id->0 as nat)]
    } else {
        Seq::empty()
    };
    assert(parts =~= d_spec);
    if avail.qq {
        if let Some(g) = cfg.qq_group_id {
            let mut p = String::new();
            push_char(&mut p, 'q');
            push_char(&mut p, '_');
            push_i64(&mut p, g);
            assert(p@ =~= seq!['q', '_'] + dec_int(g as int));
            push_key_part(&mut key, count, Ghost(parts), Ghost(p@), &p);
            senders.push(Platform::QQ);
            count = count + 1;
            proof {
                parts = parts.push(p@);
                plats = plats.push(Platform::QQ);
            }
        }
    }
    let ghost q_spec: Seq<Seq<char>> = if avail.qq && cfg.qq_group_id is Some {
        seq![seq!['q', '_'] + dec_int(cfg.qq_group_id->0 as int)]
    } else {
        Seq::empty()
    };
    assert(parts =~= d_spec + q_spec);
    if avail.telegram {
        if let Some(g) = cfg.telegram_group_id {
            let mut p = String::new();
            push_char(&mut p, 't');
            push_char(&mut p, '_');
            push_i64(&mut p, g);
            assert(p@ =~= seq!['t', '_'] + dec_int(g as int));
            push_key_part(&mut key, count, Ghost(parts), Ghost(p@), &p);
            senders.push(Platform::Telegram);
            count = count + 1;
            proof {
                parts = parts.push(p@);
                plats = plats.push(Platform::Telegram);
            }
        }
    }
    let ghost t_spec: Seq<Seq<char>> = if avail.telegram && cfg.telegram_group_id is Some {
        seq![seq!['t', '_'] + dec_int(cfg.telegram_group_id->0 as int)]
    } else {
        Seq::empty()
    };
    assert(parts =~= d_spec + q_spec + t_spec);
    if avail.matrix {
        if let Some(room) = &cfg.matrix_room_id {
            let mut p = String::new();
            push_char(&mut p, 'm');
            push_char(&mut p, '_');
            push_str(&mut p, room.as_str());
            assert(p@ =~= seq!['m', '_'] + room@);
            push_key_part(&mut key, count, Ghost(parts), Ghost(p@), &p);
            senders.push(Platform::Matrix);
            count = count + 1;
            proof {
                parts = parts.push(p@);
                plats = plats.push(Platform::Matrix);
            }
        }
    }
    proof {
        let kp = key_parts(*cfg, avail);
        let m_spec: Seq<Seq<char>> = if avail.matrix && cfg.matrix_room_id is Some {
            seq![seq!['m', '_'] + cfg.matrix_room_id->0@]
        } else {
            Seq::empty()
        };
        assert(parts =~= d_spec + q_spec + t_spec + m_spec);
        assert(parts =~= kp);
        assert(senders@ =~= senders_of(*cfg, avail));
    }
    (key, senders)
}

/// One bridge: its routing key, the platforms it sends to, and the recalls
/// it performed itself and must not act on again.
pub struct Bridge {
    group_key: String,
    senders: Vec<Platform>,
    recalls: SuppressedRecalls,
}

impl Bridge {
    pub closed spec fn spec_group_key(&self) -> Seq<char> {
        self.group_key@
    }

    pub closed spec fn spec_senders(&self) -> Seq<Platform> {
        self.senders@
    }

    pub closed spec fn spec_recalls(&self) -> Map<(Platform, Seq<char>), u64> {
        self.recalls@
    }

    /// The key under which this bridge's message routes are stored.
    pub fn group_key(&self) -> (r: &str)
        ensures
            r@ == self.spec_group_key(),
    {
        self.group_key.as_str()
    }

    /// The platforms this bridge sends to.
    pub fn senders(&self) -> (r: &[Platform])
        ensures
            r@ == self.spec_senders(),
    {
        self.senders.as_slice()
    }

    /// Whether a recall of `msg_id` on `platform` is one the bridge made.
    pub fn is_suppressed(&self, platform: Platform, msg_id: &str) -> (r: bool)
        ensures
            r == self.spec_recalls().dom().contains((platform, msg_id@)),
    {
        self.recalls.contains(platform, msg_id)
    }

    /// Records that the bridge itself is deleting `msg_id` on `platform`.
    pub fn suppress_recall(&mut self, platform: Platform, msg_id: &str, now: u64)
        ensures
            final(self).spec_recalls() == old(self).spec_recalls().insert((platform, msg_id@), now),
            final(self).spec_group_key() == old(self).spec_group_key(),
            final(self).spec_senders() == old(self).spec_senders(),
    {
        self.recalls.suppress(platform, msg_id, now);
    }

    /// Consumes the record of a recall the bridge made; `true` if there was one.
    pub fn take_suppressed_recall(&mut self, platform: Platform, msg_id: &str) -> (r: bool)
        ensures
            r == old(self).spec_recalls().dom().contains((platform, msg_id@)),
            final(self).spec_recalls() == old(self).spec_recalls().remove((platform, msg_id@)),
            final(self).spec_group_key() == old(self).spec_group_key(),
            final(self).spec_senders() == old(self).spec_senders(),
    {
        self.recalls.take(platform, msg_id)
    }

    /// Forgets recall records older than `max_age` at time `now`.
    pub fn prune_suppressed_recalls(&mut self, max_age: u64, now: u64)
        ensures
            forall|k: (Platform, Seq<char>)| #[trigger]
                final(self).spec_recalls().dom().contains(k) <==> old(self).spec_recalls().dom().contains(k)
                    && age(old(self).spec_recalls()[k], now) <= max_age,
            forall|k: (Platform, Seq<char>)| #[trigger]
                final(self).spec_recalls().dom().contains(k) ==> final(self).spec_recalls()[k]
                    == old(self).spec_recalls()[k],
            final(self).spec_group_key() == old(self).spec_group_key(),
            final(self).spec_senders() == old(self).spec_senders(),
    {
        self.recalls.prune(max_age, now);
    }
}


/// The index of the last bridge configured with Discord channel `ch`.
pub open spec fn last_discord(cfgs: Seq<BridgeConfig>, ch: u64) -> Option<int>
    decreases cfgs.len(),
{
    if cfgs.len() == 0 {
        None
    } else if cfgs.last().discord_channel_id == Some(ch) {
        Some(cfgs.len() - 1)
    } else {
        last_discord(cfgs.drop_last(), ch)
    }
}

/// The index of the last bridge configured with QQ group `g`.
pub open spec fn last_qq(cfgs: Seq<BridgeConfig>, g: i64) -> Option<int>
    decreases cfgs.len(),
{
    if cfgs.len() == 0 {
        None
    } else if cfgs.last().qq_group_id == Some(g) {
        Some(cfgs.len() - 1)
    } else {
        last_qq(cfgs.drop_last(), g)
    }
}

/// The index of the last bridge configured with Telegram chat `c`.
pub open spec fn last_telegram(cfgs: Seq<BridgeConfig>, c: i64) -> Option<int>
    decreases cfgs.len(),
{
    if cfgs.len() == 0 {
        None
    } else if cfgs.last().telegram_group_id == Some(c) {
        Some(cfgs.len() - 1)
    } else {
        last_telegram(cfgs.drop_last(), c)
    }
}

/// Whether bridge configuration `c` names Matrix room `room`.
pub open spec fn names_room(c: BridgeConfig, room: Seq<char>) -> bool {
    c.matrix_room_id matches Some(r) && r@ == room
}

/// The index of the last bridge configured with Matrix room `room`.
pub open spec fn last_matrix(cfgs: Seq<BridgeConfig>, room: Seq<char>) -> Option<int>
    decreases cfgs.len(),
{
    if cfgs.len() == 0 {
        None
    } else if names_room(cfgs.last(), room) {
        Some(cfgs.len() - 1)
    } else {
        last_matrix(cfgs.drop_last(), room)
    }
}

/// `m` maps each Discord channel named in `cfgs` to the last bridge naming it.
pub open spec fn indexes_discord(m: Map<u64, usize>, cfgs: Seq<BridgeConfig>) -> bool {
    forall|ch: u64|
        #![trigger m.contains_key(ch)]
        #![trigger last_discord(cfgs, ch)]
        (m.contains_key(ch) <==> last_discord(cfgs, ch) is Some) && (m.contains_key(ch)
            ==> last_discord(cfgs, ch) == Some(m[ch] as int))
}

/// `m` maps each QQ group named in `cfgs` to the last bridge naming it.
pub open spec fn indexes_qq(m: Map<i64, usize>, cfgs: Seq<BridgeConfig>) -> bool {
    forall|g: i64|
        #![trigger m.contains_key(g)]
        #![trigger last_qq(cfgs, g)]
        (m.contains_key(g) <==> last_qq(cfgs, g) is Some) && (m.contains_key(g) ==> last_qq(
            cfgs,
            g,
        ) == Some(m[g] as int))
}

/// `m` maps each Telegram chat named in `cfgs` to the last bridge naming it.
pub open spec fn indexes_telegram(m: Map<i64, usize>, cfgs: Seq<BridgeConfig>) -> bool {
    forall|c: i64|
        #![trigger m.contains_key(c)]
        #![trigger last_telegram(cfgs, c)]
        (m.contains_key(c) <==> last_telegram(cfgs, c) is Some) && (m.contains_key(c)
            ==> last_telegram(cfgs, c) == Some(m[c] as int))
}

/// The bridge configurations with hash indexes from the numeric chat IDs of
/// Discord, QQ and Telegram to the last bridge naming each.
struct ChatIndex {
    configs: Vec<BridgeConfig>,
    discord: HashMap<u64, usize>,
    qq: HashMap<i64, usize>,
    telegram: HashMap<i64, usize>,
}

impl ChatIndex {
    #[verifier::type_invariant]
    spec fn indexed(self) -> bool {
        &&& indexes_discord(self.discord@, self.configs@)
        &&& indexes_qq(self.qq@, self.configs@)
        &&& indexes_telegram(self.telegram@, self.configs@)
    }

    fn new(configs: Vec<BridgeConfig>) -> (r: Self)
        ensures
            r.configs@ == configs@,
    {
        broadcast use vstd::std_specs::hash::group_hash_axioms;

        let mut discord: HashMap<u64, usize> = HashMap::new();
        let mut qq: HashMap<i64, usize> = HashMap::new();
        let mut telegram: HashMap<i64, usize> = HashMap::new();
        let mut i: usize = 0;
        while i < configs.len()
            invariant
                i <= configs@.len(),
                indexes_discord(discord@, configs@.take(i as int)),
                indexes_qq(qq@, configs@.take(i as int)),
                indexes_telegram(telegram@, configs@.take(i as int)),
            decreases configs@.len() - i,
        {
            let ghost before = configs@.take(i as int);
            let ghost after = configs@.take(i + 1);
            assert(after.drop_last() =~= before);
            assert(after.last() == configs@[i as int]);
            if let Some(ch) = configs[i].discord_channel_id {
                discord.insert(ch, i);
            }
            if let Some(g) = configs[i].qq_group_id {
                qq.insert(g, i);
            }
            if let Some(c) = configs[i].telegram_group_id {
                telegram.insert(c, i);
            }
            assert forall|ch: u64|
                (discord@.contains_key(ch) <==> last_discord(after, ch) is Some) && (
                discord@.contains_key(ch) ==> last_discord(after, ch) == Some(discord@[ch] as int)) by {
                assert(last_discord(before, ch) == last_discord(before, ch));
            }
            assert forall|g: i64|
                (qq@.contains_key(g) <==> last_qq(after, g) is Some) && (qq@.contains_key(g)
                    ==> last_qq(after, g) == Some(qq@[g] as int)) by {
                assert(last_qq(before, g) == last_qq(before, g));
            }
            assert forall|c: i64|
                (telegram@.contains_key(c) <==> last_telegram(after, c) is Some) && (
                telegram@.contains_key(c) ==> last_telegram(after, c) == Some(telegram@[c] as int)) by {
                assert(last_telegram(before, c) == last_telegram(before, c));
            }
            i = i + 1;
        }
        assert(configs@.take(configs@.len() as int) =~= configs@);
        ChatIndex { configs, discord, qq, telegram }
    }

    fn discord(&self, channel_id: u64) -> (r: Option<usize>)
        ensures
            r matches Some(i) ==> last_discord(self.configs@, channel_id) == Some(i as int),
            r is None ==> last_discord(self.configs@, channel_id) is None,
    {
        broadcast use vstd::std_specs::hash::group_hash_axioms;

        proof {
            use_type_invariant(self);
        }
        match self.discord.get(&channel_id) {
            Some(i) => Some(*i),
            None => None,
        }
    }

    fn qq(&self, group_id: i64) -> (r: Option<usize>)
        ensures
            r matches Some(i) ==> last_qq(self.configs@, group_id) == Some(i as int),
            r is None ==> last_qq(self.configs@, group_id) is None,
    {
        broadcast use vstd::std_specs::hash::group_hash_axioms;

        proof {
            use_type_invariant(self);
        }
        match self.qq.get(&group_id) {
            Some(i) => Some(*i),
            None => None,
        }
    }

    fn telegram(&self, chat_id: i64) -> (r: Option<usize>)
        ensures
            r matches Some(i) ==> last_telegram(self.configs@, chat_id) == Some(i as int),
            r is None ==> last_telegram(self.configs@, chat_id) is None,
    {
        broadcast use vstd::std_specs::hash::group_hash_axioms;

        proof {
            use_type_invariant(self);
        }
        match self.telegram.get(&chat_id) {
            Some(i) => Some(*i),
            None => None,
        }
    }
}

/// Some bridge names a Discord channel.
pub open spec fn any_discord(cfgs: Seq<BridgeConfig>) -> bool {
    exists|i: int| 0 <= i < cfgs.len() && (#[trigger] cfgs[i]).discord_channel_id is Some
}

/// Some bridge names a QQ group.
pub open spec fn any_qq(cfgs: Seq<BridgeConfig>) -> bool {
    exists|i: int| 0 <= i < cfgs.len() && (#[trigger] cfgs[i]).qq_group_id is Some
}

/// Some bridge names a Telegram chat.
pub open spec fn any_telegram(cfgs: Seq<BridgeConfig>) -> bool {
    exists|i: int| 0 <= i < cfgs.len() && (#[trigger] cfgs[i]).telegram_group_id is Some
}

/// Some bridge names a Matrix room.
pub open spec fn any_matrix(cfgs: Seq<BridgeConfig>) -> bool {
    exists|i: int| 0 <= i < cfgs.len() && (#[trigger] cfgs[i]).matrix_room_id is Some
}

/// The bot's own user ID on each platform, as far as it is known.
pub struct SelfIds {
    pub discord: Option<u64>,
    pub qq: Option<i64>,
    pub telegram: Option<i64>,
    pub matrix: Option<Seq<char>>,
}

/// Every configured platform has reported the bot's own user ID.
pub open spec fn all_known(avail: PlatformSet, ids: SelfIds) -> bool {
    &&& (avail.discord ==> ids.discord is Some)
    &&& (avail.qq ==> ids.qq is Some)
    &&& (avail.telegram ==> ids.telegram is Some)
    &&& (avail.matrix ==> ids.matrix is Some)
}

/// QQ and Telegram share one ID slot when neither client is configured.
pub open spec fn shares_qq_telegram(avail: PlatformSet) -> bool {
    !avail.qq && !avail.telegram
}

/// All bridges, looked up by the chat ID on each platform (a later bridge
/// naming the same chat replaces an earlier one), and the state shared by
/// all of them.
pub struct Bridges {
    chats: ChatIndex,
    bridges: Vec<Bridge>,
    avail: PlatformSet,
    discord_self: Option<u64>,
    qq_self: Option<i64>,
    telegram_self: Option<i64>,
    matrix_self: Option<String>,
    ready: bool,
}

impl Bridges {
    /// The configurations the bridges were built from.
    pub closed spec fn spec_configs(&self) -> Seq<BridgeConfig> {
        self.chats.configs@
    }

    /// The bridges, one per configuration, in configuration order.
    pub closed spec fn spec_bridges(&self) -> Seq<Bridge> {
        self.bridges@
    }

    /// Which platform clients are configured.
    pub closed spec fn spec_avail(&self) -> PlatformSet {
        self.avail
    }

    /// The bot's own IDs known so far.
    pub closed spec fn spec_ids(&self) -> SelfIds {
        SelfIds {
            discord: self.discord_self,
            qq: self.qq_self,
            telegram: self.telegram_self,
            matrix: match self.matrix_self {
                Some(m) => Some(m@),
                None => None,
            },
        }
    }

    /// Whether forwarding is enabled.
    pub closed spec fn spec_ready(&self) -> bool {
        self.ready
    }

    /// The bridges agree with their configurations.
    pub closed spec fn wf(&self) -> bool {
        &&& self.chats.configs@.len() == self.bridges@.len()
        &&& forall|i: int|
            0 <= i < self.bridges@.len() ==> (#[trigger] self.bridges@[i]).spec_group_key()
                == group_key_of(self.chats.configs@[i], self.avail) && self.bridges@[i].spec_senders()
                == senders_of(self.chats.configs@[i], self.avail)
        &&& shares_qq_telegram(self.avail) ==> self.qq_self == self.telegram_self
    }

    /// What well-formedness gives a caller: one bridge per configuration,
    /// each with the key and senders of its configuration, and one shared ID
    /// slot for QQ and Telegram when neither client is configured.
    pub proof fn lemma_wf(&self)
        requires
            self.wf(),
        ensures
            self.spec_configs().len() == self.spec_bridges().len(),
            forall|i: int|
                0 <= i < self.spec_bridges().len() ==> (#[trigger] self.spec_bridges()[i]).spec_group_key()
                    == group_key_of(self.spec_configs()[i], self.spec_avail())
                    && self.spec_bridges()[i].spec_senders() == senders_of(
                    self.spec_configs()[i],
                    self.spec_avail(),
                ),
            shares_qq_telegram(self.spec_avail()) ==> self.spec_ids().qq == self.spec_ids().telegram,
    {
    }

    /// Builds one bridge per configuration. `avail` tells which platform
    /// clients are configured; a platform without a client is never sent to.
    pub fn new(configs: &[BridgeConfig], avail: PlatformSet) -> (r: Self)
        ensures
            r.wf(),
            r.spec_configs() == configs@,
            r.spec_avail() == avail,
            forall|i: int|
                0 <= i < configs@.len() ==> (#[trigger] r.spec_bridges()[i]).spec_recalls()
                    == Map::<(Platform, Seq<char>), u64>::empty(),
            r.spec_ids() == (SelfIds { discord: None, qq: None, telegram: None, matrix: None }),
            !r.spec_ready(),
    {
        let mut cfgs: Vec<BridgeConfig> = Vec::new();
        let mut bridges: Vec<Bridge> = Vec::new();
        let mut i: usize = 0;
        while i < configs.len()
            invariant
                i <= configs@.len(),
                cfgs@ == configs@.take(i as int),
                bridges@.len() == i,
                forall|j: int|
                    0 <= j < i ==> (#[trigger] bridges@[j]).spec_group_key() == group_key_of(
                        configs@[j],
                        avail,
                    ) && bridges@[j].spec_senders() == senders_of(configs@[j], avail)
                        && bridges@[j].spec_recalls() == Map::<
                        (Platform, Seq<char>),
                        u64,
                    >::empty(),
            decreases configs@.len() - i,
        {
            let (key, senders) = bridge_key(&configs[i], avail);
            bridges.push(Bridge { group_key: key, senders, recalls: SuppressedRecalls::new() });
            cfgs.push(copy_bridge_config(&configs[i]));
            assert(cfgs@ =~= configs@.take(i + 1));
            i = i + 1;
        }
        assert(cfgs@ =~= configs@);
        let r = Bridges {
            chats: ChatIndex::new(cfgs),
            bridges,
            avail,
            discord_self: None,
            qq_self: None,
            telegram_self: None,
            matrix_self: None,
            ready: false,
        };
        assert(r.spec_ids() == (SelfIds { discord: None, qq: None, telegram: None, matrix: None }));
        r
    }

    /// The bridge at index `i`.
    pub fn bridge(&self, i: usize) -> (r: &Bridge)
        requires
            i < self.spec_bridges().len(),
        ensures
            *r == self.spec_bridges()[i as int],
    {
        &self.bridges[i]
    }

    /// The number of bridges.
    pub fn len(&self) -> (r: usize)
        ensures
            r == self.spec_bridges().len(),
    {
        self.bridges.len()
    }

    /// The bridge for Discord channel `channel_id`.
    pub fn by_discord(&self, channel_id: u64) -> (r: Option<usize>)
        ensures
            r matches Some(i) ==> last_discord(self.spec_configs(), channel_id) == Some(i as int),
            r is None ==> last_discord(self.spec_configs(), channel_id) is None,
    {
        self.chats.discord(channel_id)
    }

    /// The bridge for QQ group `group_id`.
    pub fn by_qq(&self, group_id: i64) -> (r: Option<usize>)
        ensures
            r matches Some(i) ==> last_qq(self.spec_configs(), group_id) == Some(i as int),
            r is None ==> last_qq(self.spec_configs(), group_id) is None,
    {
        self.chats.qq(group_id)
    }

    /// The bridge for Telegram chat `chat_id`.
    pub fn by_telegram(&self, chat_id: i64) -> (r: Option<usize>)
        ensures
            r matches Some(i) ==> last_telegram(self.spec_configs(), chat_id) == Some(i as int),
            r is None ==> last_telegram(self.spec_configs(), chat_id) is None,
    {
        self.chats.telegram(chat_id)
    }

    /// The bridge for Matrix room `room_id`.
    pub fn by_matrix(&self, room_id: &str) -> (r: Option<usize>)
        ensures
            r matches Some(i) ==> last_matrix(self.spec_configs(), room_id@) == Some(i as int),
            r is None ==> last_matrix(self.spec_configs(), room_id@) is None,
    {
        let room = String::from_str(room_id);
        let mut found: Option<usize> = None;
        let mut i: usize = 0;
        while i < self.chats.configs.len()
            invariant
                i <= self.chats.configs@.len(),
                room@ == room_id@,
                found matches Some(k) ==> last_matrix(self.chats.configs@.take(i as int), room_id@)
                    == Some(k as int),
                found is None ==> last_matrix(self.chats.configs@.take(i as int), room_id@) is None,
            decreases self.chats.configs@.len() - i,
        {
            assert(self.chats.configs@.take(i + 1).drop_last() =~= self.chats.configs@.take(i as int));
            let hit = match &self.chats.configs[i].matrix_room_id {
                Some(r) => *r == room,
                None => false,
            };
            if hit {
                found = Some(i);
            }
            i = i + 1;
        }
        assert(self.chats.configs@.take(self.chats.configs@.len() as int) =~= self.chats.configs@);
        found
    }

    fn has_discord(&self) -> (r: bool)
        ensures
            r == any_discord(self.spec_configs()),
    {
        let mut i: usize = 0;
        while i < self.chats.configs.len()
            invariant
                i <= self.chats.configs@.len(),
                forall|j: int| 0 <= j < i ==> (#[trigger] self.chats.configs@[j]).discord_channel_id is None,
            decreases self.chats.configs@.len() - i,
        {
            if self.chats.configs[i].discord_channel_id.is_some() {
                assert(self.chats.configs@[i as int].discord_channel_id is Some);
                return true;
            }
            i = i + 1;
        }
        false
    }

    fn has_qq(&self) -> (r: bool)
        ensures
            r == any_qq(self.spec_configs()),
    {
        let mut i: usize = 0;
        while i < self.chats.configs.len()
            invariant
                i <= self.chats.configs@.len(),
                forall|j: int| 0 <= j < i ==> (#[trigger] self.chats.configs@[j]).qq_group_id is None,
            decreases self.chats.configs@.len() - i,
        {
            if self.chats.configs[i].qq_group_id.is_some() {
                assert(self.chats.configs@[i as int].qq_group_id is Some);
                return true;
            }
            i = i + 1;
        }
        false
    }

    fn has_telegram(&self) -> (r: bool)
        ensures
            r == any_telegram(self.spec_configs()),
    {
        let mut i: usize = 0;
        while i < self.chats.configs.len()
            invariant
                i <= self.chats.configs@.len(),
                forall|j: int| 0 <= j < i ==> (#[trigger] self.chats.configs@[j]).telegram_group_id is None,
            decreases self.chats.configs@.len() - i,
        {
            if self.chats.configs[i].telegram_group_id.is_some() {
                assert(self.chats.configs@[i as int].telegram_group_id is Some);
                return true;
            }
            i = i + 1;
        }
        false
    }

    fn has_matrix(&self) -> (r: bool)
        ensures
            r == any_matrix(self.spec_configs()),
    {
        let mut i: usize = 0;
        while i < self.chats.configs.len()
            invariant
                i <= self.chats.configs@.len(),
                forall|j: int| 0 <= j < i ==> (#[trigger] self.chats.configs@[j]).matrix_room_id is None,
            decreases self.chats.configs@.len() - i,
        {
            if self.chats.configs[i].matrix_room_id.is_some() {
                assert(self.chats.configs@[i as int].matrix_room_id is Some);
                return true;
            }
            i = i + 1;
        }
        false
    }

    /// Whether `user_id` is the bot itself on Discord.
    pub fn is_self_discord(&self, user_id: u64) -> (r: bool)
        ensures
            r == (any_discord(self.spec_configs()) && self.spec_ids().discord == Some(user_id)),
    {
        self.has_discord() && self.discord_self == Some(user_id)
    }

    /// Whether `user_id` is the bot itself on QQ.
    pub fn is_self_qq(&self, user_id: i64) -> (r: bool)
        ensures
            r == (any_qq(self.spec_configs()) && self.spec_ids().qq == Some(user_id)),
    {
        self.has_qq() && self.qq_self == Some(user_id)
    }

    /// Whether `user_id` is the bot itself on Telegram.
    pub fn is_self_telegram(&self, user_id: i64) -> (r: bool)
        ensures
            r == (any_telegram(self.spec_configs()) && self.spec_ids().telegram == Some(user_id)),
    {
        self.has_telegram() && self.telegram_self == Some(user_id)
    }

    /// Whether `user_id` is the bot itself on Matrix.
    pub fn is_self_matrix(&self, user_id: &str) -> (r: bool)
        ensures
            r == (any_matrix(self.spec_configs()) && self.spec_ids().matrix == Some(user_id@)),
    {
        if !self.has_matrix() {
            return false;
        }
        match &self.matrix_self {
            Some(m) => {
                let u = String::from_str(user_id);
                *m == u
            },
            None => false,
        }
    }

    /// Whether forwarding is enabled: every configured platform has reported
    /// the bot's own ID.
    pub fn is_ready(&self) -> (r: bool)
        ensures
            r == self.spec_ready(),
    {
        self.ready
    }

    fn check_ready(&mut self)
        requires
            old(self).wf(),
        ensures
            final(self).wf(),
            final(self).spec_ready() == (old(self).spec_ready() || all_known(
                old(self).spec_avail(),
                old(self).spec_ids(),
            )),
            final(self).spec_ids() == old(self).spec_ids(),
            final(self).spec_configs() == old(self).spec_configs(),
            final(self).spec_bridges() == old(self).spec_bridges(),
            final(self).spec_avail() == old(self).spec_avail(),
    {
        let ok = (!self.avail.discord || self.discord_self.is_some()) && (!self.avail.qq
            || self.qq_self.is_some()) && (!self.avail.telegram || self.telegram_self.is_some())
            && (!self.avail.matrix || self.matrix_self.is_some());
        if ok {
            self.ready = true;
        }
    }

    /// Records the bot's Discord ID (the first report wins), then enables
    /// forwarding if every configured platform is known.
    pub fn set_discord_self_id(&mut self, id: u64)
        requires
            old(self).wf(),
        ensures
            final(self).wf(),
            final(self).spec_ids() == (SelfIds {
                discord: if any_discord(old(self).spec_configs()) && old(self).spec_ids().discord is None {
                    Some(id)
                } else {
                    old(self).spec_ids().discord
                },
                ..old(self).spec_ids()
            }),
            final(self).spec_ready() == (old(self).spec_ready() || all_known(
                old(self).spec_avail(),
                final(self).spec_ids(),
            )),
            final(self).spec_configs() == old(self).spec_configs(),
            final(self).spec_bridges() == old(self).spec_bridges(),
            final(self).spec_avail() == old(self).spec_avail(),
    {
        if self.has_discord() && self.discord_self.is_none() {
            self.discord_self = Some(id);
        }
        self.check_ready();
    }

    /// Records the bot's QQ ID (the first report wins; QQ and Telegram share
    /// the slot when neither client is configured), then enables forwarding
    /// if every configured platform is known.
    pub fn set_qq_self_id(&mut self, id: i64)
        requires
            old(self).wf(),
        ensures
            final(self).wf(),
            final(self).spec_ids() == ({
                let o = old(self).spec_ids();
                let v = if any_qq(old(self).spec_configs()) && o.qq is None {
                    Some(id)
                } else {
                    o.qq
                };
                SelfIds {
                    qq: v,
                    telegram: if shares_qq_telegram(old(self).spec_avail()) {
                        v
                    } else {
                        o.telegram
                    },
                    ..o
                }
            }),
            final(self).spec_ready() == (old(self).spec_ready() || all_known(
                old(self).spec_avail(),
                final(self).spec_ids(),
            )),
            final(self).spec_configs() == old(self).spec_configs(),
            final(self).spec_bridges() == old(self).spec_bridges(),
            final(self).spec_avail() == old(self).spec_avail(),
    {
        if self.has_qq() && self.qq_self.is_none() {
            self.qq_self = Some(id);
            if !self.avail.qq && !self.avail.telegram {
                self.telegram_self = Some(id);
            }
        }
        self.check_ready();
    }

    /// Records the bot's QQ ID reported by the OneBot connection itself
    /// (the first report wins), without re-checking readiness.
    pub fn note_qq_connection_self_id(&mut self, id: i64)
        requires
            old(self).wf(),
        ensures
            final(self).wf(),
            final(self).spec_ids() == (SelfIds {
                qq: if old(self).spec_avail().qq && old(self).spec_ids().qq is None {
                    Some(id)
                } else {
                    old(self).spec_ids().qq
                },
                ..old(self).spec_ids()
            }),
            final(self).spec_ready() == old(self).spec_ready(),
            final(self).spec_configs() == old(self).spec_configs(),
            final(self).spec_bridges() == old(self).spec_bridges(),
            final(self).spec_avail() == old(self).spec_avail(),
    {
        if self.avail.qq && self.qq_self.is_none() {
            self.qq_self = Some(id);
        }
    }

    /// Records the bot's Telegram ID (the first report wins; QQ and Telegram
    /// share the slot when neither client is configured), then enables
    /// forwarding if every configured platform is known.
    pub fn set_telegram_self_id(&mut self, id: i64)
        requires
            old(self).wf(),
        ensures
            final(self).wf(),
            final(self).spec_ids() == ({
                let o = old(self).spec_ids();
                let v = if any_telegram(old(self).spec_configs()) && o.telegram is None {
                    Some(id)
                } else {
                    o.telegram
                };
                SelfIds {
                    telegram: v,
                    qq: if shares_qq_telegram(old(self).spec_avail()) {
                        v
                    } else {
                        o.qq
                    },
                    ..o
                }
            }),
            final(self).spec_ready() == (old(self).spec_ready() || all_known(
                old(self).spec_avail(),
                final(self).spec_ids(),
            )),
            final(self).spec_configs() == old(self).spec_configs(),
            final(self).spec_bridges() == old(self).spec_bridges(),
            final(self).spec_avail() == old(self).spec_avail(),
    {
        if self.has_telegram() && self.telegram_self.is_none() {
            self.telegram_self = Some(id);
            if !self.avail.qq && !self.avail.telegram {
                self.qq_self = Some(id);
            }
        }
        self.check_ready();
    }

    /// Records the bot's Matrix ID (the first report wins), then enables
    /// forwarding if every configured platform is known.
    pub fn set_matrix_self_id(&mut self, id: String)
        requires
            old(self).wf(),
        ensures
            final(self).wf(),
            final(self).spec_ids() == (SelfIds {
                matrix: if any_matrix(old(self).spec_configs()) && old(self).spec_ids().matrix is None {
                    Some(id@)
                } else {
                    old(self).spec_ids().matrix
                },
                ..old(self).spec_ids()
            }),
            final(self).spec_ready() == (old(self).spec_ready() || all_known(
                old(self).spec_avail(),
                final(self).spec_ids(),
            )),
            final(self).spec_configs() == old(self).spec_configs(),
            final(self).spec_bridges() == old(self).spec_bridges(),
            final(self).spec_avail() == old(self).spec_avail(),
    {
        if self.has_matrix() && self.matrix_self.is_none() {
            self.matrix_self = Some(id);
        }
        self.check_ready();
    }

    /// Records on bridge `i` that the bridge itself is deleting `msg_id` on
    /// `platform`.
    pub fn suppress_recall(&mut self, i: usize, platform: Platform, msg_id: &str, now: u64)
        requires
            old(self).wf(),
            i < old(self).spec_bridges().len(),
        ensures
            final(self).wf(),
            final(self).spec_bridges().len() == old(self).spec_bridges().len(),
            final(self).spec_bridges()[i as int].spec_recalls() == old(self).spec_bridges()[i as int].spec_recalls().insert((platform, msg_id@), now),
            forall|j: int|
                0 <= j < old(self).spec_bridges().len() && j != i ==> #[trigger] final(self).spec_bridges()[j] == old(self).spec_bridges()[j],
            final(self).spec_ids() == old(self).spec_ids(),
            final(self).spec_ready() == old(self).spec_ready(),
            final(self).spec_configs() == old(self).spec_configs(),
            final(self).spec_avail() == old(self).spec_avail(),
    {
        let mut b = self.bridges.remove(i);
        b.suppress_recall(platform, msg_id, now);
        self.bridges.insert(i, b);
        proof {
            assert forall|j: int| 0 <= j < self.bridges@.len() implies (#[trigger] self.bridges@[j]).spec_group_key()
                == group_key_of(self.chats.configs@[j], self.avail) && self.bridges@[j].spec_senders()
                == senders_of(self.chats.configs@[j], self.avail) by {
                if j != i {
                    assert(self.bridges@[j] == old(self).bridges@[j]);
                }
            }
        }
    }

    /// Consumes bridge `i`'s record of a recall it made; `true` if there was one.
    pub fn take_suppressed_recall(&mut self, i: usize, platform: Platform, msg_id: &str) -> (r: bool)
        requires
            old(self).wf(),
            i < old(self).spec_bridges().len(),
        ensures
            final(self).wf(),
            r == old(self).spec_bridges()[i as int].spec_recalls().dom().contains(
                (platform, msg_id@),
            ),
            final(self).spec_bridges().len() == old(self).spec_bridges().len(),
            final(self).spec_bridges()[i as int].spec_recalls() == old(self).spec_bridges()[i as int].spec_recalls().remove((platform, msg_id@)),
            forall|j: int|
                0 <= j < old(self).spec_bridges().len() && j != i ==> #[trigger] final(self).spec_bridges()[j] == old(self).spec_bridges()[j],
            final(self).spec_ids() == old(self).spec_ids(),
            final(self).spec_ready() == old(self).spec_ready(),
            final(self).spec_configs() == old(self).spec_configs(),
            final(self).spec_avail() == old(self).spec_avail(),
    {
        let mut b = self.bridges.remove(i);
        let r = b.take_suppressed_recall(platform, msg_id);
        self.bridges.insert(i, b);
        proof {
            assert forall|j: int| 0 <= j < self.bridges@.len() implies (#[trigger] self.bridges@[j]).spec_group_key()
                == group_key_of(self.chats.configs@[j], self.avail) && self.bridges@[j].spec_senders()
                == senders_of(self.chats.configs@[j], self.avail) by {
                if j != i {
                    assert(self.bridges@[j] == old(self).bridges@[j]);
                }
            }
        }
        r
    }

    /// Forgets, on every bridge, recall records older than `max_age` at
    /// time `now`.
    pub fn prune_recall_state(&mut self, max_age: u64, now: u64)
        requires
            old(self).wf(),
        ensures
            final(self).wf(),
            final(self).spec_bridges().len() == old(self).spec_bridges().len(),
            forall|j: int, k: (Platform, Seq<char>)|
                0 <= j < old(self).spec_bridges().len() ==> (#[trigger] final(self).spec_bridges()[j].spec_recalls().dom().contains(k) <==> old(self).spec_bridges()[j].spec_recalls().dom().contains(k) && age(
                    old(self).spec_bridges()[j].spec_recalls()[k],
                    now,
                ) <= max_age),
            forall|j: int, k: (Platform, Seq<char>)|
                0 <= j < old(self).spec_bridges().len() && #[trigger] final(self).spec_bridges()[j].spec_recalls().dom().contains(k) ==> final(self).spec_bridges()[j].spec_recalls()[k] == old(self).spec_bridges()[j].spec_recalls()[k],
            final(self).spec_ids() == old(self).spec_ids(),
            final(self).spec_ready() == old(self).spec_ready(),
            final(self).spec_configs() == old(self).spec_configs(),
            final(self).spec_avail() == old(self).spec_avail(),
    {
        let ghost b0 = self.bridges@;
        let mut i: usize = 0;
        let n = self.bridges.len();
        while i < n
            invariant
                n == b0.len(),
                self.bridges@.len() == n,
                i <= n,
                self.chats.configs@ == old(self).chats.configs@,
                self.avail == old(self).avail,
                self.discord_self == old(self).discord_self,
                self.qq_self == old(self).qq_self,
                self.telegram_self == old(self).telegram_self,
                self.matrix_self == old(self).matrix_self,
                self.ready == old(self).ready,
                b0 == old(self).bridges@,
                self.wf(),
                forall|j: int| i <= j < n ==> #[trigger] self.bridges@[j] == b0[j],
                forall|j: int, k: (Platform, Seq<char>)|
                    0 <= j < i ==> (#[trigger] self.bridges@[j].spec_recalls().dom().contains(k)
                        <==> b0[j].spec_recalls().dom().contains(k) && age(
                        b0[j].spec_recalls()[k],
                        now,
                    ) <= max_age),
                forall|j: int, k: (Platform, Seq<char>)|
                    0 <= j < i && #[trigger] self.bridges@[j].spec_recalls().dom().contains(k)
                        ==> self.bridges@[j].spec_recalls()[k] == b0[j].spec_recalls()[k],
            decreases n - i,
        {
            let ghost before = self.bridges@;
            let mut b = self.bridges.remove(i);
            b.prune_suppressed_recalls(max_age, now);
            self.bridges.insert(i, b);
            proof {
                assert forall|j: int| 0 <= j < n && j != i implies #[trigger] self.bridges@[j]
                    == before[j] by {}
                assert forall|j: int| 0 <= j < self.bridges@.len() implies (#[trigger] self.bridges@[j]).spec_group_key()
                    == group_key_of(self.chats.configs@[j], self.avail) && self.bridges@[j].spec_senders()
                    == senders_of(self.chats.configs@[j], self.avail) by {
                    if j != i {
                        assert(self.bridges@[j] == before[j]);
                    }
                }
            }
            i = i + 1;
        }
    }
}

} // verus!
