//! Identifier generation.
//!
//! Two schemes, chosen deliberately apart. A [`GameId`] is content-addressed:
//! the version-5 (SHA-1) UUID of the game's name under a fixed namespace, so
//! the same name always maps to the same identifier, across processes and
//! restarts, and repeated registration is idempotent without coordination. A
//! trace identifier is time-ordered: a version-1 UUID built from the elapsed
//! time since the generator was created and a 48-bit node tag derived from the
//! generator's logical name and a caller-supplied node token. Trace
//! identifiers correlate log entries; they are never primary keys and carry no
//! global-uniqueness guarantee.

use vstd::prelude::*;
use vstd::string::StrSliceExecFns;
use vstd::utf8::encode_utf8;

use crate::text::{hyphenate_bytes, uuid_hyphenated};

verus! {

/// The fixed namespace under which game names are hashed.
pub const GAME_NAMESPACE: [u8; 16] = [
    86,
    176,
    45,
    56,
    20,
    122,
    68,
    206,
    156,
    87,
    152,
    132,
    171,
    175,
    150,
    140,
];

/// The fixed namespace under which player names are hashed.
pub const PLAYER_NAMESPACE: [u8; 16] = [
    40,
    147,
    143,
    180,
    76,
    248,
    59,
    91,
    82,
    154,
    120,
    2,
    188,
    28,
    185,
    188,
];

/// The sixteen bytes of the version-5 UUID of `name` under `namespace`: a
/// content hash, a function of its two arguments alone.
pub uninterp spec fn uuid5_of(namespace: Seq<u8>, name: Seq<char>) -> Seq<u8>;

/// Relies on uuid::Uuid::new_v5: the version-5 UUID is the SHA-1 content hash
/// of namespace and name, the same on every machine and in every process.
#[verifier::external_body]
fn uuid_v5_bytes(namespace: &[u8; 16], name: &str) -> (r: [u8; 16])
    ensures
        r@ == uuid5_of(namespace@, name@),
{
    *uuid::Uuid::new_v5(&uuid::Uuid::from_bytes(*namespace), name.as_bytes()).as_bytes()
}

/// The identifier bytes of the game named `name`.
pub open spec fn game_id_of(name: Seq<char>) -> Seq<u8> {
    uuid5_of(GAME_NAMESPACE@, name)
}

/// A content-addressed game identifier: sixteen bytes derived
/// deterministically from the game's name.
#[derive(Debug, Clone, Copy, PartialEq, Eq)]
pub struct GameId {
    bytes: [u8; 16],
}


impl View for GameId {
    type V = Seq<u8>;

    closed spec fn view(&self) -> Seq<u8> {
        self.bytes@
    }
}

impl GameId {
    /// The identifier's bytes.
    pub fn as_bytes(&self) -> (r: [u8; 16])
        ensures
            r@ == self@,
    {
        self.bytes
    }

    /// The hyphenated lowercase-hex form, under which the identifier appears
    /// in every store key and index entry.
    pub fn hyphenated(&self) -> (r: String)
        ensures
            r@ == uuid_hyphenated(self@),
    {
        hyphenate_bytes(&self.bytes)
    }
}

/// The identifier of the game named `game_name`: the same name always yields
/// the same identifier.
pub fn game_id(game_name: &str) -> (g: GameId)
    ensures
        g@ == game_id_of(game_name@),
{
    GameId { bytes: uuid_v5_bytes(&GAME_NAMESPACE, game_name) }
}

/// The identifier bytes of the player named `username`, under the player
/// namespace.
pub fn generate_player_uuid(username: &str) -> (r: [u8; 16])
    ensures
        r@ == uuid5_of(PLAYER_NAMESPACE@, username@),
{
    uuid_v5_bytes(&PLAYER_NAMESPACE, username)
}

/// Identifier generation is deterministic: equal names give equal game
/// identifiers, whoever computes them.
pub proof fn lemma_game_id_deterministic(n1: Seq<char>, n2: Seq<char>)
    ensures
        n1 == n2 ==> game_id_of(n1) == game_id_of(n2),
{
}

/// One mixing step of the node-tag hash: multiply by an odd constant and add
/// the next byte, modulo two to the sixty-fourth.
#[verifier::opaque]
pub open spec fn mix_step(h: u64, b: u8) -> u64 {
    u64::wrapping_add(u64::wrapping_mul(h, 0x100000001b3), b as u64)
}

/// The node-tag hash of a byte sequence, folded left from `init`.
pub open spec fn mix_bytes(init: u64, s: Seq<u8>) -> u64
    decreases s.len(),
{
    if s.len() == 0 {
        init
    } else {
        mix_bytes(mix_step(init, s[0]), s.drop_first())
    }
}

/// Folding one more byte extends the fold.
#[verifier::rlimit(50)]
proof fn lemma_mix_bytes_snoc(init: u64, s: Seq<u8>, b: u8)
    ensures
        mix_bytes(init, s + seq![b]) == mix_step(mix_bytes(init, s), b),
    decreases s.len(),
{
    if s.len() == 0 {
        assert(s + seq![b] =~= seq![b]);
        assert((s + seq![b]).drop_first() =~= Seq::<u8>::empty());
        assert(mix_bytes(init, seq![b]) == mix_bytes(mix_step(init, b), Seq::<u8>::empty()));
        assert(mix_bytes(mix_step(init, b), Seq::<u8>::empty()) == mix_step(init, b));
    } else {
        assert((s + seq![b])[0] == s[0]);
        assert((s + seq![b]).drop_first() =~= s.drop_first() + seq![b]);
        assert(mix_bytes(init, s + seq![b]) == mix_bytes(
            mix_step(init, s[0]),
            s.drop_first() + seq![b],
        ));
        lemma_mix_bytes_snoc(mix_step(init, s[0]), s.drop_first(), b);
    }
}

/// The node tag of a generator: the hash of the caller-supplied node token's
/// eight little-endian bytes and then of the logical name's UTF-8 bytes.
pub open spec fn node_tag_of(node_token: u64, name: Seq<char>) -> u64 {
    mix_bytes(mix_bytes(0xcbf29ce484222325, le_bytes_8(node_token)), encode_utf8(name))
}

/// The eight little-endian bytes of a 64-bit value.
pub open spec fn le_bytes_8(h: u64) -> Seq<u8> {
    seq![
        (h % 256) as u8,
        ((h / 256) % 256) as u8,
        ((h / 0x1_0000) % 256) as u8,
        ((h / 0x100_0000) % 256) as u8,
        ((h / 0x1_0000_0000) % 256) as u8,
        ((h / 0x100_0000_0000) % 256) as u8,
        ((h / 0x1_0000_0000_0000) % 256) as u8,
        ((h / 0x100_0000_0000_0000) % 256) as u8,
    ]
}

/// Hashes the bytes of `s` into `h`, exactly as [`mix_bytes`] describes.
fn mix_bytes_exec(init: u64, s: &[u8]) -> (r: u64)
    ensures
        r == mix_bytes(init, s@),
{
    let mut h: u64 = init;
    let mut i: usize = 0;
    proof {
        assert(s@.take(0) =~= Seq::<u8>::empty());
    }
    while i < s.len()
        invariant
            i <= s@.len(),
            h == mix_bytes(init, s@.take(i as int)),
        decreases s@.len() - i,
    {
        let b: u8 = s[i];
        proof {
            reveal(mix_step);
            assert(s@.take(i + 1) =~= s@.take(i as int) + seq![s@[i as int]]);
            lemma_mix_bytes_snoc(init, s@.take(i as int), s@[i as int]);
        }
        h = h.wrapping_mul(0x100000001b3).wrapping_add(b as u64);
        i = i + 1;
    }
    proof {
        assert(s@.take(s@.len() as int) =~= s@);
    }
    h
}

/// The clock-sequence counter a fresh context starts from.
pub const UUID_V1_CONTEXT_COUNT_INIT: u16 = 42;

#[verifier::external_type_specification]
#[verifier::external_body]
pub struct ExContextV1(uuid::ContextV1);

#[verifier::external_type_specification]
#[verifier::external_body]
pub struct ExInstant(std::time::Instant);

/// Relies on uuid::ContextV1::new: a clock-sequence context for version-1
/// identifiers, starting from the given counter.
#[verifier::external_body]
fn make_v1_context(init_count: u16) -> uuid::ContextV1 {
    uuid::ContextV1::new(init_count)
}

/// Relies on std::time::Instant::now: the instant the generator is created
/// at, against which elapsed time is measured.
#[verifier::external_body]
fn now_instant() -> std::time::Instant {
    std::time::Instant::now()
}

/// Relies on Instant::elapsed and Duration::as_secs / subsec_nanos: whatever
/// the clock says, the sub-second part is below one billion.
#[verifier::external_body]
fn elapsed_parts(start: &std::time::Instant) -> (r: (u64, u32))
    ensures
        r.1 < 1_000_000_000,
{
    let d = start.elapsed();
    (d.as_secs(), d.subsec_nanos())
}

/// The tick count a version-1 identifier derives from a timestamp:
/// 100-nanosecond units, offset to the Gregorian reform epoch, wrapping at
/// the 64-bit boundary.
pub open spec fn v1_ticks(secs: u64, nanos: u32) -> u64 {
    u64::wrapping_add(
        u64::wrapping_add(0x01B2_1DD2_1381_4000, u64::wrapping_mul(secs, 10_000_000)),
        (nanos / 100) as u64,
    )
}

/// The first eight bytes of a version-1 identifier: the low 32 bits of the
/// tick count, then the middle 16, then the top 12 under the version nibble,
/// each field most significant byte first.
pub open spec fn v1_time_field(ticks: u64) -> Seq<u8> {
    let low = ticks as int % 0x1_0000_0000;
    let mid = (ticks as int / 0x1_0000_0000) % 0x1_0000;
    let high = (ticks as int / 0x1_0000_0000_0000) % 0x1000;
    seq![
        (low / 0x100_0000) as u8,
        ((low / 0x1_0000) % 0x100) as u8,
        ((low / 0x100) % 0x100) as u8,
        (low % 0x100) as u8,
        (mid / 0x100) as u8,
        (mid % 0x100) as u8,
        (0x10 + high / 0x100) as u8,
        (high % 0x100) as u8,
    ]
}

/// Relies on uuid::Uuid::new_v1 and Timestamp::from_unix (RFC 9562 layout):
/// whatever the context counter, the first eight bytes encode the
/// 100-nanosecond tick count of the given timestamp under the version
/// nibble, the ninth byte carries the variant bits, and the last six bytes
/// are the node identifier it was given.
#[verifier::external_body]
fn uuid_v1_bytes(ctx: &uuid::ContextV1, secs: u64, nanos: u32, node: &[u8; 6]) -> (r: [u8; 16])
    ensures
        r@.subrange(0, 8) == v1_time_field(v1_ticks(secs, nanos)),
        r@[6] / 16 == 1,
        r@[8] / 64 == 2,
        r@.subrange(10, 16) == node@,
{
    *uuid::Uuid::new_v1(uuid::Timestamp::from_unix(ctx, secs, nanos), node).as_bytes()
}

/// A value below two to the thirty-second is the weighted sum of its four
/// bytes, most significant first.
proof fn lemma_four_byte_split(x: int)
    requires
        0 <= x < 0x1_0000_0000,
    ensures
        x == (x / 0x100_0000) * 0x100_0000 + ((x / 0x1_0000) % 0x100) * 0x1_0000 + ((x / 0x100)
            % 0x100) * 0x100 + x % 0x100,
{
    vstd::arithmetic::div_mod::lemma_fundamental_div_mod(x, 0x100);
    vstd::arithmetic::div_mod::lemma_fundamental_div_mod(x / 0x100, 0x100);
    vstd::arithmetic::div_mod::lemma_div_denominator(x, 0x100, 0x100);
    vstd::arithmetic::div_mod::lemma_fundamental_div_mod(x / 0x1_0000, 0x100);
    vstd::arithmetic::div_mod::lemma_div_denominator(x, 0x1_0000, 0x100);
}

/// The sixty bits a version-1 time field stores are the low, middle and high
/// parts it is split into.
proof fn lemma_sixty_bit_split(t: u64)
    ensures
        t as int % 0x1000_0000_0000_0000 == t as int % 0x1_0000_0000 + 0x1_0000_0000 * ((t as int
            / 0x1_0000_0000) % 0x1_0000) + 0x1_0000_0000_0000 * ((t as int / 0x1_0000_0000_0000)
            % 0x1000),
{
    vstd::arithmetic::div_mod::lemma_mod_breakdown(t as int, 0x1_0000_0000, 0x1000_0000);
    vstd::arithmetic::div_mod::lemma_mod_breakdown(t as int / 0x1_0000_0000, 0x1_0000, 0x1000);
    vstd::arithmetic::div_mod::lemma_div_denominator(t as int, 0x1_0000_0000, 0x1_0000);
}

/// The time field is injective on the sixty bits it stores: two tick counts
/// that differ there give different first eight bytes, so identifiers drawn
/// at instants at least one tick apart differ in their time field (the
/// count wraps only after thousands of years).
pub proof fn lemma_v1_time_field_injective(t1: u64, t2: u64)
    requires
        t1 as int % 0x1000_0000_0000_0000 != t2 as int % 0x1000_0000_0000_0000,
    ensures
        v1_time_field(t1) != v1_time_field(t2),
{
    if v1_time_field(t1) == v1_time_field(t2) {
        let low1 = t1 as int % 0x1_0000_0000;
        let mid1 = (t1 as int / 0x1_0000_0000) % 0x1_0000;
        let high1 = (t1 as int / 0x1_0000_0000_0000) % 0x1000;
        let low2 = t2 as int % 0x1_0000_0000;
        let mid2 = (t2 as int / 0x1_0000_0000) % 0x1_0000;
        let high2 = (t2 as int / 0x1_0000_0000_0000) % 0x1000;
        assert(v1_time_field(t1)[0] == v1_time_field(t2)[0]);
        assert(v1_time_field(t1)[1] == v1_time_field(t2)[1]);
        assert(v1_time_field(t1)[2] == v1_time_field(t2)[2]);
        assert(v1_time_field(t1)[3] == v1_time_field(t2)[3]);
        assert(v1_time_field(t1)[4] == v1_time_field(t2)[4]);
        assert(v1_time_field(t1)[5] == v1_time_field(t2)[5]);
        assert(v1_time_field(t1)[6] == v1_time_field(t2)[6]);
        assert(v1_time_field(t1)[7] == v1_time_field(t2)[7]);
        lemma_four_byte_split(low1);
        lemma_four_byte_split(low2);
        assert(low1 == low2);
        vstd::arithmetic::div_mod::lemma_fundamental_div_mod(mid1, 0x100);
        vstd::arithmetic::div_mod::lemma_fundamental_div_mod(mid2, 0x100);
        assert(mid1 == mid2);
        vstd::arithmetic::div_mod::lemma_fundamental_div_mod(high1, 0x100);
        vstd::arithmetic::div_mod::lemma_fundamental_div_mod(high2, 0x100);
        assert(high1 == high2);
        lemma_sixty_bit_split(t1);
        lemma_sixty_bit_split(t2);
    }
}

/// A time-ordered trace identifier: correlates log entries across one run,
/// with no global-uniqueness guarantee.
#[derive(Debug, Clone, Copy, PartialEq, Eq)]
pub struct TraceId {
    bytes: [u8; 16],
}

impl View for TraceId {
    type V = Seq<u8>;

    closed spec fn view(&self) -> Seq<u8> {
        self.bytes@
    }
}

impl TraceId {
    /// The identifier's bytes.
    pub fn as_bytes(&self) -> (r: [u8; 16])
        ensures
            r@ == self@,
    {
        self.bytes
    }

    /// The hyphenated lowercase-hex form, for log output.
    pub fn hyphenated(&self) -> (r: String)
        ensures
            r@ == uuid_hyphenated(self@),
    {
        hyphenate_bytes(&self.bytes)
    }
}

/// The eight little-endian bytes of `h`, as a vector.
fn u64_le_bytes(h: u64) -> (r: Vec<u8>)
    ensures
        r@ == le_bytes_8(h),
{
    let mut out: Vec<u8> = Vec::new();
    out.push((h % 256) as u8);
    out.push(((h / 256) % 256) as u8);
    out.push(((h / 0x1_0000) % 256) as u8);
    out.push(((h / 0x100_0000) % 256) as u8);
    out.push(((h / 0x1_0000_0000) % 256) as u8);
    out.push(((h / 0x100_0000_0000) % 256) as u8);
    out.push(((h / 0x1_0000_0000_0000) % 256) as u8);
    out.push(((h / 0x100_0000_0000_0000) % 256) as u8);
    assert(out@ =~= le_bytes_8(h));
    out
}

/// A generator of time-ordered trace identifiers. Each instance carries a
/// node tag that hashes a caller-supplied node token together with the
/// generator's logical name, so that instances with different names, or in
/// different processes, are told apart in logs.
pub struct UuidV1Generator {
    ctx: uuid::ContextV1,
    creation: std::time::Instant,
    thread_id_hash: [u8; 8],
}

impl UuidV1Generator {
    /// The generator's 48-bit node tag: the first six of its hash bytes.
    pub closed spec fn node_tag(&self) -> Seq<u8> {
        self.thread_id_hash@.subrange(0, 6)
    }

    /// A fresh clock-sequence context for version-1 identifiers.
    pub fn new_context() -> uuid::ContextV1 {
        make_v1_context(UUID_V1_CONTEXT_COUNT_INIT)
    }

    /// Creates a generator for the given logical `name`. The `node_token`
    /// stands for the process and thread the generator lives on; the tag
    /// hashes the two together, as [`node_tag_of`] describes.
    pub fn new(name: &str, node_token: u64, context: uuid::ContextV1) -> (g: UuidV1Generator)
        ensures
            g.node_tag() == le_bytes_8(node_tag_of(node_token, name@)).subrange(0, 6),
    {
        let token_bytes = u64_le_bytes(node_token);
        let name_bytes = name.as_bytes_vec();
        let h0 = mix_bytes_exec(0xcbf29ce484222325, token_bytes.as_slice());
        let h = mix_bytes_exec(h0, name_bytes.as_slice());
        let hb = u64_le_bytes(h);
        let arr: [u8; 8] = [hb[0], hb[1], hb[2], hb[3], hb[4], hb[5], hb[6], hb[7]];
        let g = UuidV1Generator {
            ctx: context,
            creation: now_instant(),
            thread_id_hash: arr,
        };
        proof {
            assert(arr@ =~= le_bytes_8(node_tag_of(node_token, name@)));
            assert(g.node_tag() =~= le_bytes_8(node_tag_of(node_token, name@)).subrange(0, 6));
        }
        g
    }

    /// The next trace identifier: a version-1 identifier whose time field
    /// encodes the tick count of the elapsed time since the generator's
    /// creation — whole seconds and sub-second nanoseconds — and whose last
    /// six bytes carry the generator's node tag.
    pub fn next_trace_id(&self) -> (t: TraceId)
        ensures
            t@.subrange(10, 16) == self.node_tag(),
            t@[6] / 16 == 1,
            t@[8] / 64 == 2,
            exists|secs: u64, nanos: u32|
                nanos < 1_000_000_000 && t@.subrange(0, 8) == #[trigger] v1_time_field(
                    v1_ticks(secs, nanos),
                ),
    {
        let (secs, nanos) = elapsed_parts(&self.creation);
        let node: [u8; 6] = [
            self.thread_id_hash[0],
            self.thread_id_hash[1],
            self.thread_id_hash[2],
            self.thread_id_hash[3],
            self.thread_id_hash[4],
            self.thread_id_hash[5],
        ];
        let bytes = uuid_v1_bytes(&self.ctx, secs, nanos, &node);
        proof {
            assert(node@ =~= self.node_tag());
            assert(nanos < 1_000_000_000 && bytes@.subrange(0, 8) == v1_time_field(
                v1_ticks(secs, nanos),
            ));
        }
        TraceId { bytes }
    }
}

} // verus!
