//! The registry: one operation per lifecycle command.
//!
//! Registering a game issues four independent, individually idempotent
//! mutations — the game record's fields, membership in the `initializing`
//! bucket, membership in the all-games set, and the name-index entry — and
//! succeeds whether or not any of them was already present; a membership
//! write that reports "already present" is a duplicate registration, worth a
//! warning and nothing more. Starting, ending and cleaning up a game are
//! placeholders at this protocol level: they accept their payload, are scoped
//! to the game name, and perform no bucket transition themselves.

use vstd::prelude::*;
use vstd::string::{StrSliceExecFns, StringExecFns};
use vstd::utf8::encode_utf8;

use crate::codec::{CleanupGame, EndGame, RegisterNewGame, StartGame};
use crate::ids::{game_id, game_id_of, GameId};
use crate::naming::prefixed_key;
use crate::store::{
    sv_add_member, sv_add_ranked, sv_ranked, sv_set, sv_write_fields, Store, StoreView,
};
use crate::text::{dec_str, u64_to_dec, uuid_hyphenated};

verus! {

/// The membership set of every game ever registered.
pub const ALL_GAMES_SET: &'static str = "collection:games:all";

/// The status bucket of games still initializing.
pub const GAME_INITIAL_STATE_SET: &'static str = "collection:games:initialization";

/// The status bucket of started games.
pub const GAME_STARTED_SET: &'static str = "collection:games:started";

/// The status bucket of ended games.
pub const GAME_ENDED_SET: &'static str = "collection:games:ended";

/// The ordered index from `name:identifier` entries to games.
pub const GAME_NAME_INDEX_KEY: &'static str = "index:game-name";

/// The key of the record holding one game's fields.
pub open spec fn game_record_key(id: Seq<u8>) -> Seq<char> {
    prefixed_key("game"@, uuid_hyphenated(id))
}

/// The `name:identifier` entry the name index holds for one game.
pub open spec fn name_index_entry(name: Seq<char>, id: Seq<u8>) -> Seq<char> {
    prefixed_key(name, uuid_hyphenated(id))
}

/// The fields of a game record: the raw identifier bytes, the name's bytes,
/// and the two options rendered in decimal.
pub open spec fn game_record_fields(
    name: Seq<char>,
    id: Seq<u8>,
    num_players: u32,
    turn_timeout_ms: u64,
) -> Seq<(Seq<char>, Seq<u8>)> {
    seq![
        ("id"@, id),
        ("game_name"@, encode_utf8(name)),
        ("num_players"@, encode_utf8(dec_str(num_players as nat))),
        ("turn_timeout_ms"@, encode_utf8(dec_str(turn_timeout_ms as nat))),
    ]
}

/// Registering a game: the four mutations, applied to the store.
pub open spec fn sv_register_new_game(
    v: StoreView,
    name: Seq<char>,
    num_players: u32,
    turn_timeout_ms: u64,
) -> StoreView {
    let id = game_id_of(name);
    let hy = uuid_hyphenated(id);
    let v1 = sv_write_fields(
        v,
        game_record_key(id),
        game_record_fields(name, id, num_players, turn_timeout_ms),
    );
    let v2 = sv_add_member(v1, "collection:games:initialization"@, hy);
    let v3 = sv_add_member(v2, "collection:games:all"@, hy);
    sv_add_ranked(v3, "index:game-name"@, 0, name_index_entry(name, id))
}

/// What the three membership writes of a registration report: whether each
/// member was new. A repeated registration reports nothing new anywhere.
pub open spec fn register_outcome_of(v: StoreView, name: Seq<char>) -> RegisterOutcome {
    let hy = uuid_hyphenated(game_id_of(name));
    RegisterOutcome {
        initializing_added: !sv_set(v, "collection:games:initialization"@).contains(hy),
        all_games_added: !sv_set(v, "collection:games:all"@).contains(hy),
        name_index_added: !sv_ranked(v, "index:game-name"@).contains_key(
            name_index_entry(name, game_id_of(name)),
        ),
    }
}

/// Which of a registration's membership writes found their member new. A
/// `false` flag is a duplicate registration attempt: a warning, never an
/// error.
#[derive(Debug, Clone, Copy, PartialEq, Eq, Structural)]
pub struct RegisterOutcome {
    pub initializing_added: bool,
    pub all_games_added: bool,
    pub name_index_added: bool,
}

/// Writing record fields touches no membership set, ranked set or script.
pub proof fn lemma_write_fields_only_hashes(
    v: StoreView,
    key: Seq<char>,
    fields: Seq<(Seq<char>, Seq<u8>)>,
)
    ensures
        sv_write_fields(v, key, fields).sets == v.sets,
        sv_write_fields(v, key, fields).ranked == v.ranked,
        sv_write_fields(v, key, fields).scripts == v.scripts,
    decreases fields.len(),
{
    if fields.len() > 0 {
        lemma_write_fields_only_hashes(
            crate::store::sv_set_field(v, key, fields.last().0, fields.last().1),
            key,
            fields.drop_last(),
        );
    }
}

/// The explicit shape of a registration: the four field writes, then the
/// three membership writes, in order.
proof fn lemma_register_unfold(v: StoreView, name: Seq<char>, n: u32, t: u64)
    ensures
        ({
            let id = game_id_of(name);
            let k = game_record_key(id);
            let hy = uuid_hyphenated(id);
            let m3 = crate::store::sv_set_field(v, k, "turn_timeout_ms"@, encode_utf8(dec_str(t as nat)));
            let m2 = crate::store::sv_set_field(m3, k, "num_players"@, encode_utf8(dec_str(n as nat)));
            let m1 = crate::store::sv_set_field(m2, k, "game_name"@, encode_utf8(name));
            let m0 = crate::store::sv_set_field(m1, k, "id"@, id);
            let a1 = sv_add_member(m0, "collection:games:initialization"@, hy);
            let a2 = sv_add_member(a1, "collection:games:all"@, hy);
            sv_register_new_game(v, name, n, t) == sv_add_ranked(
                a2,
                "index:game-name"@,
                0,
                name_index_entry(name, id),
            )
        }),
{
    let id = game_id_of(name);
    let k = game_record_key(id);
    let fs = game_record_fields(name, id, n, t);
    let f3 = fs.drop_last();
    let f2 = f3.drop_last();
    let f1 = f2.drop_last();
    let f0 = f1.drop_last();
    assert(f3 =~= seq![("id"@, id), ("game_name"@, encode_utf8(name)), (
        "num_players"@,
        encode_utf8(dec_str(n as nat)),
    )]);
    assert(f2 =~= seq![("id"@, id), ("game_name"@, encode_utf8(name))]);
    assert(f1 =~= seq![("id"@, id)]);
    assert(f0 =~= Seq::<(Seq<char>, Seq<u8>)>::empty());
    let m3 = crate::store::sv_set_field(v, k, "turn_timeout_ms"@, encode_utf8(dec_str(t as nat)));
    let m2 = crate::store::sv_set_field(m3, k, "num_players"@, encode_utf8(dec_str(n as nat)));
    let m1 = crate::store::sv_set_field(m2, k, "game_name"@, encode_utf8(name));
    let m0 = crate::store::sv_set_field(m1, k, "id"@, id);
    assert(sv_write_fields(v, k, fs) == sv_write_fields(m3, k, f3));
    assert(sv_write_fields(m3, k, f3) == sv_write_fields(m2, k, f2));
    assert(sv_write_fields(m2, k, f2) == sv_write_fields(m1, k, f1));
    assert(sv_write_fields(m1, k, f1) == sv_write_fields(m0, k, f0));
    assert(sv_write_fields(m0, k, f0) == m0);
}

/// What a registration leaves in the store: the game's record under its
/// content-addressed key, holding its identifier, name and options; the
/// identifier in the initializing bucket and the all-games set; and the
/// `name:identifier` entry in the name index.
pub proof fn lemma_register_creates_game(v: StoreView, name: Seq<char>, n: u32, t: u64)
    ensures
        ({
            let v1 = sv_register_new_game(v, name, n, t);
            let id = game_id_of(name);
            let hy = uuid_hyphenated(id);
            let rec = v1.hashes[game_record_key(id)];
            &&& v1.hashes.contains_key(game_record_key(id))
            &&& rec.contains_key("id"@) && rec["id"@] == id
            &&& rec.contains_key("game_name"@) && rec["game_name"@] == encode_utf8(name)
            &&& rec.contains_key("num_players"@) && rec["num_players"@] == encode_utf8(
                dec_str(n as nat),
            )
            &&& rec.contains_key("turn_timeout_ms"@) && rec["turn_timeout_ms"@] == encode_utf8(
                dec_str(t as nat),
            )
            &&& sv_set(v1, "collection:games:initialization"@).contains(hy)
            &&& sv_set(v1, "collection:games:all"@).contains(hy)
            &&& sv_ranked(v1, "index:game-name"@).contains_key(name_index_entry(name, id))
        }),
{
    lemma_register_unfold(v, name, n, t);
    lemma_field_names_distinct();
    lemma_bucket_keys_distinct();
}

/// The four field names of a game record are pairwise distinct.
proof fn lemma_field_names_distinct()
    ensures
        "id"@ != "game_name"@,
        "id"@ != "num_players"@,
        "id"@ != "turn_timeout_ms"@,
        "game_name"@ != "num_players"@,
        "game_name"@ != "turn_timeout_ms"@,
        "num_players"@ != "turn_timeout_ms"@,
{
    reveal_strlit("id");
    reveal_strlit("game_name");
    reveal_strlit("num_players");
    reveal_strlit("turn_timeout_ms");
    assert("id"@.len() == 2);
    assert("game_name"@.len() == 9);
    assert("num_players"@.len() == 11);
    assert("turn_timeout_ms"@.len() == 15);
}

/// The two status-bucket keys the registration writes are distinct.
proof fn lemma_bucket_keys_distinct()
    ensures
        "collection:games:all"@ != "collection:games:initialization"@,
{
    reveal_strlit("collection:games:all");
    reveal_strlit("collection:games:initialization");
    assert("collection:games:all"@.len() == 20);
    assert("collection:games:initialization"@.len() == 31);
}

/// Registration is idempotent: registering a name again, with the same
/// options, leaves the store exactly where the first registration left it.
pub proof fn lemma_register_twice_same(v: StoreView, name: Seq<char>, n: u32, t: u64)
    ensures
        sv_register_new_game(sv_register_new_game(v, name, n, t), name, n, t)
            == sv_register_new_game(v, name, n, t),
{
    let id = game_id_of(name);
    let k = game_record_key(id);
    let hy = uuid_hyphenated(id);
    let entry = name_index_entry(name, id);
    lemma_register_unfold(v, name, n, t);
    let v1 = sv_register_new_game(v, name, n, t);
    lemma_register_unfold(v1, name, n, t);
    lemma_field_names_distinct();
    lemma_bucket_keys_distinct();
    let rec1 = v1.hashes[k];
    let m3 = crate::store::sv_set_field(v1, k, "turn_timeout_ms"@, encode_utf8(dec_str(t as nat)));
    let m2 = crate::store::sv_set_field(m3, k, "num_players"@, encode_utf8(dec_str(n as nat)));
    let m1 = crate::store::sv_set_field(m2, k, "game_name"@, encode_utf8(name));
    let m0 = crate::store::sv_set_field(m1, k, "id"@, id);
    assert(m3.hashes[k] =~= rec1);
    assert(m2.hashes[k] =~= rec1);
    assert(m1.hashes[k] =~= rec1);
    assert(m0.hashes[k] =~= rec1);
    assert(m0.hashes =~= v1.hashes);
    let a1 = sv_add_member(m0, "collection:games:initialization"@, hy);
    assert(sv_set(m0, "collection:games:initialization"@).insert(hy) =~= sv_set(
        v1,
        "collection:games:initialization"@,
    ));
    assert(a1.sets =~= v1.sets);
    let a2 = sv_add_member(a1, "collection:games:all"@, hy);
    assert(sv_set(a1, "collection:games:all"@).insert(hy) =~= sv_set(v1, "collection:games:all"@));
    assert(a2.sets =~= v1.sets);
    let a3 = sv_add_ranked(a2, "index:game-name"@, 0, entry);
    assert(sv_ranked(a2, "index:game-name"@).insert(entry, 0) =~= sv_ranked(
        v1,
        "index:game-name"@,
    ));
    assert(a3.ranked =~= v1.ranked);
    assert(a3 =~~= v1);
}

/// A second registration of the same name reports every membership write as
/// already present: the duplicate is observable, and harmless — it never
/// becomes an error.
pub proof fn lemma_second_register_reports_duplicate(
    v: StoreView,
    name: Seq<char>,
    n1: u32,
    t1: u64,
)
    ensures
        ({
            let out2 = register_outcome_of(sv_register_new_game(v, name, n1, t1), name);
            &&& !out2.initializing_added
            &&& !out2.all_games_added
            &&& !out2.name_index_added
        }),
{
    lemma_register_creates_game(v, name, n1, t1);
}

/// The bytes a game identifier holds, as a vector.
fn id_bytes_vec(id: &GameId) -> (r: Vec<u8>)
    ensures
        r@ == id@,
{
    let arr = id.as_bytes();
    let mut out: Vec<u8> = Vec::new();
    let mut i: usize = 0;
    while i < 16
        invariant
            i <= 16,
            arr@ == id@,
            out@ == arr@.subrange(0, i as int),
        decreases 16 - i,
    {
        out.push(arr[i]);
        proof {
            assert(out@ =~= arr@.subrange(0, i + 1));
        }
        i = i + 1;
    }
    proof {
        assert(arr@.subrange(0, 16) =~= id@);
    }
    out
}

/// Builds `prefix:identifier` for a game identifier.
fn build_id_key(prefix: &str, id: &GameId) -> (r: String)
    ensures
        r@ == prefixed_key(prefix@, uuid_hyphenated(id@)),
{
    proof {
        reveal_strlit(":");
    }
    let mut out = String::from_str(prefix);
    out.append(":");
    let hy = id.hyphenated();
    out.append(hy.as_str());
    assert(out@ =~= prefixed_key(prefix@, uuid_hyphenated(id@)));
    out
}


/// The field list of a game's record, as built values: the identifier's raw
/// bytes, the name's bytes, and the two options rendered in decimal.
fn build_record_fields(game_name: &str, id: &GameId, options: RegisterNewGame) -> (r: Vec<
    (String, Vec<u8>),
>)
    ensures
        crate::store::field_views(r@) == game_record_fields(
            game_name@,
            id@,
            options.num_players,
            options.turn_timeout_ms,
        ),
{
    let mut fields: Vec<(String, Vec<u8>)> = Vec::new();
    fields.push((String::from_str("id"), id_bytes_vec(id)));
    fields.push((String::from_str("game_name"), game_name.as_bytes_vec()));
    fields.push(
        (
            String::from_str("num_players"),
            u64_to_dec(options.num_players as u64).as_str().as_bytes_vec(),
        ),
    );
    fields.push(
        (
            String::from_str("turn_timeout_ms"),
            u64_to_dec(options.turn_timeout_ms).as_str().as_bytes_vec(),
        ),
    );
    proof {
        assert(crate::store::field_views(fields@) =~= game_record_fields(
            game_name@,
            id@,
            options.num_players,
            options.turn_timeout_ms,
        ));
    }
    fields
}

/// Registers a new game: computes the game's content-addressed identifier
/// and issues the four mutations. Succeeds on every input; the outcome
/// reports which membership writes were no-ops, exactly as
/// [`register_outcome_of`] describes.
pub fn register_new_game(store: &mut Store, game_name: &str, options: RegisterNewGame) -> (r:
    RegisterOutcome)
    requires
        old(store).wf(),
    ensures
        final(store).wf(),
        final(store)@ == sv_register_new_game(
            old(store)@,
            game_name@,
            options.num_players,
            options.turn_timeout_ms,
        ),
        r == register_outcome_of(old(store)@, game_name@),
{
    let id = game_id(game_name);
    let ghost idv = id@;
    let ghost v0 = store@;

    let record_key = build_id_key("game", &id);
    let fields = build_record_fields(game_name, &id, options);
    store.write_fields(&record_key, fields);
    proof {
        lemma_write_fields_only_hashes(
            v0,
            game_record_key(idv),
            game_record_fields(game_name@, idv, options.num_players, options.turn_timeout_ms),
        );
    }

    let hy = id.hyphenated();
    let init_key = String::from_str("collection:games:initialization");
    let all_key = String::from_str("collection:games:all");
    let index_key = String::from_str("index:game-name");
    proof {
        reveal_strlit("collection:games:all");
        reveal_strlit("collection:games:initialization");
        assert("collection:games:all"@.len() == 20);
        assert("collection:games:initialization"@.len() == 31);
        assert("collection:games:all"@ != "collection:games:initialization"@);
    }

    let initializing_added = store.add_member(&init_key, hy.clone());
    let all_games_added = store.add_member(&all_key, hy.clone());

    let entry = build_id_key(game_name, &id);
    let name_index_added = store.add_ranked(&index_key, 0, entry);

    RegisterOutcome { initializing_added, all_games_added, name_index_added }
}

/// One mutation of the coordination store, as data: what a registry
/// operation asks the store to do. A process backed by an external store
/// issues these over the wire; the model store applies them directly.
#[derive(Debug, Clone, PartialEq, Eq)]
pub enum StoreOp {
    /// An atomic single-key, multi-field record write.
    WriteFields { key: String, fields: Vec<(String, Vec<u8>)> },
    /// An idempotent membership-set addition.
    AddMember { key: String, member: String },
    /// An idempotent ranked-set addition with a score.
    AddRanked { key: String, score: u64, member: String },
}

/// The four mutations a registration issues, in order: the record write,
/// the two membership additions, and the name-index entry.
pub fn register_mutations(game_name: &str, options: RegisterNewGame) -> (r: Vec<StoreOp>)
    ensures
        r@.len() == 4,
        ({
            let id = game_id_of(game_name@);
            let hy = uuid_hyphenated(id);
            &&& (r@[0] matches StoreOp::WriteFields { key, fields } && key@ == game_record_key(id)
                && crate::store::field_views(fields@) == game_record_fields(
                game_name@,
                id,
                options.num_players,
                options.turn_timeout_ms,
            ))
            &&& (r@[1] matches StoreOp::AddMember { key, member } && key@
                == "collection:games:initialization"@ && member@ == hy)
            &&& (r@[2] matches StoreOp::AddMember { key, member } && key@
                == "collection:games:all"@ && member@ == hy)
            &&& (r@[3] matches StoreOp::AddRanked { key, score, member } && key@
                == "index:game-name"@ && score == 0 && member@ == name_index_entry(game_name@, id))
        }),
{
    let id = game_id(game_name);
    let record_key = build_id_key("game", &id);
    let fields = build_record_fields(game_name, &id, options);
    let hy = id.hyphenated();
    let entry = build_id_key(game_name, &id);
    let mut ops: Vec<StoreOp> = Vec::new();
    ops.push(StoreOp::WriteFields { key: record_key, fields });
    ops.push(
        StoreOp::AddMember {
            key: String::from_str("collection:games:initialization"),
            member: hy.clone(),
        },
    );
    ops.push(StoreOp::AddMember { key: String::from_str("collection:games:all"), member: hy });
    ops.push(
        StoreOp::AddRanked {
            key: String::from_str("index:game-name"),
            score: 0,
            member: entry,
        },
    );
    ops
}

/// Starts a game: scoped to its name, accepted, and — at this protocol level
/// — a placeholder that moves no status bucket.
pub fn start_game(store: &mut Store, game_name: &str, _options: StartGame)
    requires
        old(store).wf(),
    ensures
        final(store).wf(),
        final(store)@ == old(store)@,
{
}

/// Ends a game: scoped to its name, accepted, and a placeholder that moves
/// no status bucket.
pub fn end_game(store: &mut Store, game_name: &str, _options: EndGame)
    requires
        old(store).wf(),
    ensures
        final(store).wf(),
        final(store)@ == old(store)@,
{
}

/// Cleans up a game: scoped to its name, accepted, and a placeholder that
/// moves no status bucket.
pub fn cleanup_game(store: &mut Store, game_name: &str, _options: CleanupGame)
    requires
        old(store).wf(),
    ensures
        final(store).wf(),
        final(store)@ == old(store)@,
{
}

} // verus!
