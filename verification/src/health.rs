//! The daemon's configuration, its health report, and connecting a user's
//! node to Twine: which channel to a peer counts, and what a connect answers.

use vstd::prelude::*;

use crate::amount::{hex_text, hex_u128, nat_digits, padded_digits, SHANNONS_PER_CKB};
use crate::order::{normalize_pubkey, opt_text, pubkey_key};
use crate::text::{
    chars_of, contains_chars, contains_text, lower_all, lower_chars, owned, slice_chars,
    string_of, text_is, trim, trim_chars,
};

verus! {

/// Channel funding when `FUNDING_SHANNONS` is unset (500 CKB).
pub const DEFAULT_FUNDING_SHANNONS: u128 = 50_000_000_000;

#[derive(Debug)]
pub struct Config {
    pub listen: String,
    pub twine_rpc: String,
    pub twine_p2p: String,
    pub funding_shannons: u128,
}

/// A set variable's value, or `default` when it is unset or empty.
pub open spec fn value_or(v: Option<Seq<char>>, default: Seq<char>) -> Seq<char> {
    match v {
        Some(s) => if s.len() > 0 {
            s
        } else {
            default
        },
        None => default,
    }
}

fn env_or(v: Option<String>, default: &str) -> (r: String)
    ensures
        r@ == value_or(opt_text(v), default@),
{
    match v {
        Some(s) => if s.as_str().is_empty() {
            owned(default)
        } else {
            s
        },
        None => owned(default),
    }
}

/// Value of the digit `c` in bases up to 36, if it is one.
pub open spec fn radix_digit(c: char) -> Option<nat> {
    if '0' <= c && c <= '9' {
        Some(((c as u32) - 48) as nat)
    } else if 'a' <= c && c <= 'z' {
        Some(((c as u32) - 87) as nat)
    } else if 'A' <= c && c <= 'Z' {
        Some(((c as u32) - 55) as nat)
    } else {
        None
    }
}

pub open spec fn is_radix_digit(c: char, radix: nat) -> bool {
    radix_digit(c) matches Some(d) && d < radix
}

/// The number that the base-`radix` digits `s` spell.
pub open spec fn radix_val(s: Seq<char>, radix: nat) -> nat
    decreases s.len(),
{
    if s.len() == 0 {
        0
    } else {
        radix_val(s.drop_last(), radix) * radix + radix_digit(s.last())->Some_0
    }
}

/// The digits after an optional leading `+`.
pub open spec fn unsigned_body(s: Seq<char>) -> Seq<char> {
    if s.len() > 0 && s[0] == '+' {
        s.drop_first()
    } else {
        s
    }
}

pub open spec fn all_radix_digits(s: Seq<char>, radix: nat) -> bool {
    forall|i: int| 0 <= i < s.len() ==> is_radix_digit(#[trigger] s[i], radix)
}

/// What `u128::from_str_radix(s, radix)` gives: an optional `+`, then at
/// least one digit, and a value that fits.
pub open spec fn from_radix(s: Seq<char>, radix: nat) -> Option<u128> {
    let body = unsigned_body(s);
    if body.len() == 0 || !all_radix_digits(body, radix) {
        None
    } else if radix_val(body, radix) > u128::MAX {
        None
    } else {
        Some(radix_val(body, radix) as u128)
    }
}

/// Hexadecimal after `0x`/`0X` (no digits reading as zero), decimal otherwise.
pub open spec fn parsed_u128(raw: Seq<char>) -> Option<u128> {
    let t = trim(raw);
    if t.len() >= 2 && t[0] == '0' && (t[1] == 'x' || t[1] == 'X') {
        let hex = t.subrange(2, t.len() as int);
        from_radix(
            if hex.len() == 0 {
                seq!['0']
            } else {
                hex
            },
            16,
        )
    } else {
        from_radix(t, 10)
    }
}

fn radix_digit_exec(c: char) -> (r: Option<u32>)
    ensures
        match r {
            Some(d) => radix_digit(c) == Some(d as nat),
            None => radix_digit(c) is None,
        },
{
    if '0' <= c && c <= '9' {
        Some((c as u32) - 48)
    } else if 'a' <= c && c <= 'z' {
        Some((c as u32) - 87)
    } else if 'A' <= c && c <= 'Z' {
        Some((c as u32) - 55)
    } else {
        None
    }
}

proof fn lemma_radix_prefix_le(s: Seq<char>, radix: nat, k: int)
    requires
        0 <= k <= s.len(),
        radix >= 1,
    ensures
        radix_val(s.subrange(0, k), radix) <= radix_val(s, radix),
    decreases s.len(),
{
    if k < s.len() {
        let t = s.drop_last();
        lemma_radix_prefix_le(t, radix, k);
        assert(t.subrange(0, k) == s.subrange(0, k));
        assert(radix_val(t, radix) * radix >= radix_val(t, radix)) by (nonlinear_arith)
            requires
                radix >= 1,
        ;
    } else {
        assert(s.subrange(0, k) == s);
    }
}

/// `u128::from_str_radix` for bases 10 and 16.
fn from_radix_exec(s: &[char], radix: u32) -> (r: Option<u128>)
    requires
        radix == 10 || radix == 16,
    ensures
        r == from_radix(s@, radix as nat),
{
    let start: usize = if s.len() > 0 && s[0] == '+' {
        1
    } else {
        0
    };
    let body = slice_chars(s, start, s.len());
    assert(body@ == unsigned_body(s@));
    if body.len() == 0 {
        return None;
    }
    let n = body.len();
    let mut v: u128 = 0;
    let mut i: usize = 0;
    let mut overflow = false;
    while i < n
        invariant
            n == body@.len(),
            body@ == unsigned_body(s@),
            radix == 10 || radix == 16,
            i <= n,
            forall|j: int| 0 <= j < i ==> is_radix_digit(#[trigger] body@[j], radix as nat),
            !overflow ==> v == radix_val(body@.subrange(0, i as int), radix as nat),
            overflow ==> radix_val(body@.subrange(0, i as int), radix as nat) > u128::MAX,
        decreases n - i,
    {
        let d = match radix_digit_exec(body[i]) {
            Some(d) => d,
            None => {
                assert(!is_radix_digit(body@[i as int], radix as nat));
                return None;
            },
        };
        if d >= radix {
            assert(!is_radix_digit(body@[i as int], radix as nat));
            return None;
        }
        proof {
            assert(body@.subrange(0, i + 1).drop_last() == body@.subrange(0, i as int));
            if overflow {
                lemma_radix_prefix_le(body@.subrange(0, i + 1), radix as nat, i as int);
                assert(body@.subrange(0, i + 1).subrange(0, i as int) == body@.subrange(0, i as int));
            }
        }
        if !overflow {
            match v.checked_mul(radix as u128) {
                Some(x) => match x.checked_add(d as u128) {
                    Some(y) => {
                        v = y;
                    },
                    None => {
                        overflow = true;
                    },
                },
                None => {
                    proof {
                        assert(v * radix + d >= v * radix);
                    }
                    overflow = true;
                },
            }
        }
        i = i + 1;
    }
    assert(body@.subrange(0, n as int) == body@);
    if overflow {
        None
    } else {
        Some(v)
    }
}

/// Reads a `u128` written in decimal, or in hexadecimal after `0x`.
pub fn parse_u128(raw: &str) -> (r: Option<u128>)
    ensures
        r == parsed_u128(raw@),
{
    let t = trim_chars(&chars_of(raw));
    if t.len() >= 2 && t[0] == '0' && (t[1] == 'x' || t[1] == 'X') {
        let hex = slice_chars(&t, 2, t.len());
        if hex.len() == 0 {
            let zero = vec!['0'];
            assert(zero@ == seq!['0']);
            return from_radix_exec(&zero, 16);
        }
        from_radix_exec(&hex, 16)
    } else {
        from_radix_exec(&t, 10)
    }
}

/// The text `format_ckb` writes for `v` shannon: whole CKB, '.', eight digits.
pub open spec fn ckb_text(v: nat) -> Seq<char> {
    nat_digits(v / 100_000_000) + seq!['.'] + padded_digits(v % 100_000_000, 8)
}

/// A shannon amount as CKB with all eight decimals, when it parses.
pub fn format_ckb(raw: &str) -> (r: Option<String>)
    ensures
        match parsed_u128(raw@) {
            Some(v) => r matches Some(s) && s@ == ckb_text(v as nat),
            None => r is None,
        },
{
    let shannon = match parse_u128(raw) {
        Some(v) => v,
        None => return None,
    };
    let whole = crate::amount::u128_digits(shannon / SHANNONS_PER_CKB);
    let frac = crate::amount::padded_digits_exec(shannon % SHANNONS_PER_CKB, 8);
    let mut out = whole;
    out.push('.');
    let ghost w0 = out@;
    let n = frac.len();
    for i in 0..n
        invariant
            n == frac@.len(),
            out@ == w0 + frac@.subrange(0, i as int),
    {
        out.push(frac[i]);
        assert(frac@.subrange(0, i + 1) == frac@.subrange(0, i as int).push(frac@[i as int]));
    }
    assert(frac@.subrange(0, n as int) == frac@);
    Some(string_of(&out))
}

impl Config {
    /// The configuration from the values of `LISTEN`, `TWINE_RPC`,
    /// `TWINE_P2P` and `FUNDING_SHANNONS` (`None` where a variable is unset).
    pub fn from_env(
        listen: Option<String>,
        twine_rpc: Option<String>,
        twine_p2p: Option<String>,
        funding_shannons: Option<String>,
    ) -> (r: Config)
        ensures
            r.listen@ == value_or(opt_text(listen), "127.0.0.1:8080"@),
            r.twine_rpc@ == value_or(opt_text(twine_rpc), "http://127.0.0.1:8237"@),
            r.twine_p2p@ == value_or(opt_text(twine_p2p), "/ip4/127.0.0.1/tcp/8238"@),
            r.funding_shannons == match parsed_u128(
                value_or(opt_text(funding_shannons), "50000000000"@),
            ) {
                Some(v) => v,
                None => DEFAULT_FUNDING_SHANNONS,
            },
    {
        let funding = env_or(funding_shannons, "50000000000");
        Config {
            listen: env_or(listen, "127.0.0.1:8080"),
            twine_rpc: env_or(twine_rpc, "http://127.0.0.1:8237"),
            twine_p2p: env_or(twine_p2p, "/ip4/127.0.0.1/tcp/8238"),
            funding_shannons: match parse_u128(funding.as_str()) {
                Some(v) => v,
                None => DEFAULT_FUNDING_SHANNONS,
            },
        }
    }
}

/// What `node_info` told about a node.
#[derive(Debug)]
pub struct NodeInfo {
    pub pubkey: Option<String>,
    pub node_name: Option<String>,
}

#[derive(Debug)]
pub struct NodeHealth {
    pub rpc: String,
    pub pubkey: Option<String>,
    pub node_name: Option<String>,
    pub error: Option<String>,
}

#[derive(Debug)]
pub struct Health {
    pub ready: bool,
    pub twine: NodeHealth,
}

#[derive(Debug)]
pub struct TwineInfo {
    pub rpc: String,
    pub pubkey: Option<String>,
    pub p2p_address: String,
    pub node_name: Option<String>,
    pub error: Option<String>,
}

#[derive(Debug)]
pub struct ConnectResult {
    pub connected: bool,
    pub channel_open: bool,
    pub channel_id: Option<String>,
    pub message: String,
}

/// The health of the node at `rpc_url` from its `node_info` answer.
pub fn node_health(rpc_url: &str, info: Result<NodeInfo, String>) -> (r: NodeHealth)
    ensures
        r.rpc@ == rpc_url@,
        match info {
            Ok(n) => opt_text(r.pubkey) == opt_text(n.pubkey) && opt_text(r.node_name) == opt_text(
                n.node_name,
            ) && r.error is None,
            Err(e) => r.pubkey is None && r.node_name is None && opt_text(r.error) == Some(e@),
        },
{
    match info {
        Ok(n) => NodeHealth { rpc: owned(rpc_url), pubkey: n.pubkey, node_name: n.node_name, error: None },
        Err(e) => NodeHealth { rpc: owned(rpc_url), pubkey: None, node_name: None, error: Some(e) },
    }
}

/// The daemon is ready when the Twine node answered with its public key.
pub fn health_report(config: &Config, info: Result<NodeInfo, String>) -> (r: Health)
    ensures
        r.twine.rpc@ == config.twine_rpc@,
        r.ready == (r.twine.pubkey is Some),
        match info {
            Ok(n) => opt_text(r.twine.pubkey) == opt_text(n.pubkey) && opt_text(r.twine.node_name)
                == opt_text(n.node_name) && r.twine.error is None,
            Err(e) => r.twine.pubkey is None && r.twine.node_name is None && opt_text(r.twine.error)
                == Some(e@),
        },
{
    let twine = node_health(config.twine_rpc.as_str(), info);
    let ready = twine.pubkey.is_some();
    Health { ready, twine }
}

/// Twine's public key and P2P address, for users opening channels to it.
pub fn twine_info(config: &Config, info: Result<NodeInfo, String>) -> (r: TwineInfo)
    ensures
        r.rpc@ == config.twine_rpc@,
        r.p2p_address@ == config.twine_p2p@,
        match info {
            Ok(n) => opt_text(r.pubkey) == opt_text(n.pubkey) && opt_text(r.node_name) == opt_text(
                n.node_name,
            ) && r.error is None,
            Err(e) => r.pubkey is None && r.node_name is None && opt_text(r.error) == Some(e@),
        },
{
    match info {
        Ok(n) => TwineInfo {
            rpc: config.twine_rpc.clone(),
            pubkey: n.pubkey,
            p2p_address: config.twine_p2p.clone(),
            node_name: n.node_name,
            error: None,
        },
        Err(e) => TwineInfo {
            rpc: config.twine_rpc.clone(),
            pubkey: None,
            p2p_address: config.twine_p2p.clone(),
            node_name: None,
            error: Some(e),
        },
    }
}

/// A channel as `list_channels` reports it.
#[derive(Debug)]
pub struct Channel {
    pub channel_id: Option<String>,
    pub pubkey: Option<String>,
    /// The channel is funded in CKB (no UDT type script).
    pub ckb: bool,
    pub state_name: Option<String>,
}

pub struct ChannelModel {
    pub channel_id: Option<Seq<char>>,
    pub pubkey: Option<Seq<char>>,
    pub ckb: bool,
    pub state_name: Option<Seq<char>>,
}

impl Channel {
    pub open spec fn model(&self) -> ChannelModel {
        ChannelModel {
            channel_id: opt_text(self.channel_id),
            pubkey: opt_text(self.pubkey),
            ckb: self.ckb,
            state_name: opt_text(self.state_name),
        }
    }

    pub fn duplicate(&self) -> (r: Channel)
        ensures
            r.model() == self.model(),
    {
        Channel {
            channel_id: crate::order::copy_opt(&self.channel_id),
            pubkey: crate::order::copy_opt(&self.pubkey),
            ckb: self.ckb,
            state_name: crate::order::copy_opt(&self.state_name),
        }
    }
}

/// The answer to `list_channels`: `None` when it has no `channels` array.
#[derive(Debug)]
pub struct ChannelList {
    pub channels: Option<Vec<Channel>>,
}

pub open spec fn is_ready_name(name: Seq<char>) -> bool {
    name == "ChannelReady"@ || name == "CHANNEL_READY"@
}

pub fn is_ready_state(name: &str) -> (r: bool)
    ensures
        r == is_ready_name(name@),
{
    text_is(name, "ChannelReady") || text_is(name, "CHANNEL_READY")
}

pub open spec fn channel_ready(c: ChannelModel) -> bool {
    c.state_name matches Some(n) && is_ready_name(n)
}

/// A CKB channel whose peer is `want` (compared as normalized keys).
pub open spec fn peer_channel(c: ChannelModel, want: Seq<char>) -> bool {
    c.ckb && (c.pubkey matches Some(p) && pubkey_key(p) == pubkey_key(want))
}

/// `cs[j]` is the channel to the peer `want` that is picked: the first ready
/// one, or the first one when none is ready.
pub open spec fn picked(cs: Seq<Channel>, want: Seq<char>, j: int) -> bool {
    &&& 0 <= j < cs.len()
    &&& peer_channel(cs[j].model(), want)
    &&& ({
        ||| channel_ready(cs[j].model()) && forall|k: int|
            0 <= k < j ==> !(peer_channel(#[trigger] cs[k].model(), want) && channel_ready(
                cs[k].model(),
            ))
        ||| (forall|k: int|
            0 <= k < cs.len() ==> !(peer_channel(#[trigger] cs[k].model(), want) && channel_ready(
                cs[k].model(),
            ))) && forall|k: int| 0 <= k < j ==> !peer_channel(#[trigger] cs[k].model(), want)
    })
}

/// No channel of `cs` goes to the peer `want`.
pub open spec fn no_peer_channel(cs: Seq<Channel>, want: Seq<char>) -> bool {
    forall|k: int| 0 <= k < cs.len() ==> !peer_channel(#[trigger] cs[k].model(), want)
}

/// The channel to the peer `peer`: the first ready one, else the first one.
pub fn channel_for_peer(list: &ChannelList, peer_pubkey: &str) -> (r: Result<Option<Channel>, String>)
    ensures
        match list.channels {
            None => r matches Err(e) && e@ == "list_channels response has no channels array"@,
            Some(cs) => match r {
                Err(_) => false,
                Ok(None) => no_peer_channel(cs@, peer_pubkey@),
                Ok(Some(c)) => exists|j: int| picked(cs@, peer_pubkey@, j) && c.model() == (#[trigger] cs@[j]).model(),
            },
        },
{
    let channels = match &list.channels {
        Some(cs) => cs,
        None => return Err(owned("list_channels response has no channels array")),
    };
    let want = normalize_pubkey(peer_pubkey);
    let n = channels.len();
    let mut first: Option<usize> = None;
    let mut i: usize = 0;
    while i < n
        invariant
            list.channels == Some(*channels),
            n == channels@.len(),
            i <= n,
            want@ == pubkey_key(peer_pubkey@),
            match first {
                Some(f) => f < i && peer_channel(channels@[f as int].model(), peer_pubkey@)
                    && forall|k: int| 0 <= k < f ==> !peer_channel(#[trigger] channels@[k].model(), peer_pubkey@),
                None => forall|k: int| 0 <= k < i ==> !peer_channel(#[trigger] channels@[k].model(), peer_pubkey@),
            },
            forall|k: int| 0 <= k < i ==> !(peer_channel(#[trigger] channels@[k].model(), peer_pubkey@)
                && channel_ready(channels@[k].model())),
        decreases n - i,
    {
        let c = &channels[i];
        let matches = c.ckb && match &c.pubkey {
            Some(p) => normalize_pubkey(p.as_str()) == want,
            None => false,
        };
        if matches {
            let ready = match &c.state_name {
                Some(s) => is_ready_state(s.as_str()),
                None => false,
            };
            if ready {
                let found = c.duplicate();
                assert(picked(channels@, peer_pubkey@, i as int));
                assert(list.channels->Some_0@[i as int] == channels@[i as int]);
                return Ok(Some(found));
            }
            if first.is_none() {
                first = Some(i);
            }
        }
        i = i + 1;
    }
    match first {
        Some(f) => {
            assert(picked(channels@, peer_pubkey@, f as int));
            assert(list.channels->Some_0@[f as int] == channels@[f as int]);
            Ok(Some(channels[f].duplicate()))
        },
        None => Ok(None),
    }
}

/// A connect error that only says the peer is already connected.
pub open spec fn says_connected(err: Seq<char>) -> bool {
    contains_text(lower_all(err), "already"@) || contains_text(lower_all(err), "connected"@)
}

pub fn already_connected(err: &str) -> (r: bool)
    ensures
        r == says_connected(err@),
{
    let lower = lower_chars(&chars_of(err));
    let a = chars_of("already");
    let c = chars_of("connected");
    contains_chars(&lower, &a) || contains_chars(&lower, &c)
}

/// The trimmed public key and P2P address of a connect request.
pub fn connect_request(pubkey: &str, address: &str) -> (r: Result<(String, String), String>)
    ensures
        if trim(pubkey@).len() == 0 {
            r matches Err(e) && e@ == "pubkey is required"@
        } else if trim(address@).len() == 0 {
            r matches Err(e) && e@ == "address is required"@
        } else {
            r matches Ok((p, a)) && p@ == trim(pubkey@) && a@ == trim(address@)
        },
{
    let p = trim_chars(&chars_of(pubkey));
    let a = trim_chars(&chars_of(address));
    if p.len() == 0 {
        return Err(owned("pubkey is required"));
    }
    if a.len() == 0 {
        return Err(owned("address is required"));
    }
    Ok((string_of(&p), string_of(&a)))
}

/// After `connect_peer`: go on unless it failed for another reason than
/// the peer being connected already.
pub fn after_connect(result: Result<(), String>) -> (r: Result<(), String>)
    ensures
        match result {
            Ok(()) => r is Ok,
            Err(e) => if says_connected(e@) {
                r is Ok
            } else {
                r matches Err(x) && x@ == e@
            },
        },
{
    match result {
        Ok(()) => Ok(()),
        Err(e) => if already_connected(e.as_str()) {
            Ok(())
        } else {
            Err(e)
        },
    }
}

/// When Twine already has a channel to the peer: the connect's answer.
pub fn existing_channel(list: &ChannelList, pubkey: &str) -> (r: Result<Option<ConnectResult>, String>)
    ensures
        list.channels is None ==> (r matches Err(e) && e@ == "list_channels response has no channels array"@),
        list.channels matches Some(cs) ==> match r {
            Err(_) => false,
            Ok(None) => no_peer_channel(cs@, pubkey@),
            Ok(Some(c)) => exists|j: int|
                picked(cs@, pubkey@, j) && c.connected && opt_text(c.channel_id) == (
                #[trigger] cs@[j]).model().channel_id && c.channel_open == channel_ready(
                    cs@[j].model(),
                ) && c.message@ == if channel_ready(cs@[j].model()) {
                    "Twine already has a ready channel to this node"@
                } else {
                    "Twine is already opening a channel to this node"@
                },
        },
{
    match channel_for_peer(list, pubkey)? {
        None => Ok(None),
        Some(channel) => {
            let ready = match &channel.state_name {
                Some(s) => is_ready_state(s.as_str()),
                None => false,
            };
            Ok(
                Some(
                    ConnectResult {
                        connected: true,
                        channel_open: ready,
                        channel_id: channel.channel_id,
                        message: if ready {
                            owned("Twine already has a ready channel to this node")
                        } else {
                            owned("Twine is already opening a channel to this node")
                        },
                    },
                ),
            )
        },
    }
}

/// The funding that `open_channel` asks for, in hexadecimal shannon.
pub fn funding_amount(config: &Config) -> (r: String)
    ensures
        r@ == hex_text(config.funding_shannons as nat),
{
    hex_u128(config.funding_shannons)
}

/// The connect's answer once Twine opened a channel; the channel id comes
/// from a later `list_channels`, when it answered.
pub fn opened_channel(list: Option<ChannelList>, pubkey: &str) -> (r: ConnectResult)
    ensures
        r.connected,
        r.channel_open,
        r.message@ == "Twine connected and opened a channel toward this node"@,
        match list {
            None => r.channel_id is None,
            Some(l) => match l.channels {
                None => r.channel_id is None,
                Some(cs) => if no_peer_channel(cs@, pubkey@) {
                    r.channel_id is None
                } else {
                    exists|j: int|
                        picked(cs@, pubkey@, j) && opt_text(r.channel_id) == (#[trigger] cs@[j]).model().channel_id
                },
            },
        },
{
    let channel_id = match &list {
        Some(l) => match channel_for_peer(l, pubkey) {
            Ok(Some(c)) => c.channel_id,
            _ => None,
        },
        None => None,
    };
    ConnectResult {
        connected: true,
        channel_open: true,
        channel_id,
        message: owned("Twine connected and opened a channel toward this node"),
    }
}

} // verus!
