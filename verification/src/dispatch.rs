//! Decoding, dispatch, and the sequential core of the bus loop.
//!
//! A bus message is decoded into an envelope and routed to the registry
//! operation its command tag names; an envelope without a command tag is a
//! protocol error, never a silent no-op. The bus loop feeds messages through
//! dispatch one at a time: a message that fails — in decoding or in dispatch
//! — is counted and left behind, and never stops the loop. The service's
//! startup half lives here too: loading the script folder into the store and
//! assembling the service state.

use vstd::prelude::*;
use vstd::string::StringExecFns;

use crate::codec::{decode_request, dec_request, GameManagementRequest, RequestType, RequestView};
use crate::errors::ServerError;
use crate::ids::UuidV1Generator;
use crate::naming::{prefixed_key, service_key};
use crate::registry::{
    cleanup_game, end_game, register_new_game, start_game, sv_register_new_game,
};
use crate::store::{sv_register_script, Store, StoreView};
use crate::text::dec_str;

verus! {

/// The store after one envelope is dispatched: registration issues its four
/// mutations, the other commands are accepted and move nothing, and an
/// envelope without a command changes nothing.
pub open spec fn sv_dispatch(v: StoreView, req: RequestView) -> StoreView {
    match req.request_type {
        Some(RequestType::RegisterNewGame(o)) => sv_register_new_game(
            v,
            req.game_name,
            o.num_players,
            o.turn_timeout_ms,
        ),
        _ => v,
    }
}

/// Routes an envelope to the registry operation its command names, scoped to
/// the envelope's game name. Succeeds exactly when a command tag is present;
/// an envelope without one is refused as a missing command type.
pub fn dispatch(store: &mut Store, request: GameManagementRequest) -> (r: Result<(), ServerError>)
    requires
        old(store).wf(),
    ensures
        final(store).wf(),
        final(store)@ == sv_dispatch(old(store)@, request@),
        r is Ok <==> request@.request_type is Some,
        request@.request_type is None ==> r == Err::<(), ServerError>(
            ServerError::MissingCommandType,
        ),
{
    match request.request_type {
        Some(RequestType::RegisterNewGame(options)) => {
            let _outcome = register_new_game(store, request.game_name.as_str(), options);
            Ok(())
        },
        Some(RequestType::StartGame(options)) => {
            start_game(store, request.game_name.as_str(), options);
            Ok(())
        },
        Some(RequestType::EndGame(options)) => {
            end_game(store, request.game_name.as_str(), options);
            Ok(())
        },
        Some(RequestType::CleanupGame(options)) => {
            cleanup_game(store, request.game_name.as_str(), options);
            Ok(())
        },
        None => Err(ServerError::MissingCommandType),
    }
}

/// The store after one raw payload is handled: a payload that fails to
/// decode, or decodes to an envelope without a command, leaves the store as
/// it was.
pub open spec fn sv_process_message(v: StoreView, payload: Seq<u8>) -> StoreView {
    match dec_request(payload) {
        Err(_) => v,
        Ok(req) => sv_dispatch(v, req),
    }
}

/// Handles one raw bus payload: decode, then dispatch. The result reports
/// the message's failure, if any; the store moves exactly as
/// [`sv_process_message`] describes, whatever the result.
pub fn process_message(store: &mut Store, payload: &[u8]) -> (r: Result<(), ServerError>)
    requires
        old(store).wf(),
    ensures
        final(store).wf(),
        final(store)@ == sv_process_message(old(store)@, payload@),
        match dec_request(payload@) {
            Err(e) => r == Err::<(), ServerError>(ServerError::Codec(e)),
            Ok(req) => (r is Ok <==> req.request_type is Some) && (req.request_type is None
                ==> r == Err::<(), ServerError>(ServerError::MissingCommandType)),
        },
{
    match decode_request(payload) {
        Ok(request) => dispatch(store, request),
        Err(e) => Err(ServerError::Codec(e)),
    }
}

/// The byte sequences a vector of payloads holds.
pub open spec fn payload_views(s: Seq<Vec<u8>>) -> Seq<Seq<u8>> {
    s.map_values(|p: Vec<u8>| p@)
}

/// The store after a whole sequence of payloads, handled strictly in order.
pub open spec fn sv_process_all(v: StoreView, payloads: Seq<Seq<u8>>) -> StoreView
    decreases payloads.len(),
{
    if payloads.len() == 0 {
        v
    } else {
        sv_process_all(sv_process_message(v, payloads[0]), payloads.drop_first())
    }
}

/// The sequential core of the bus loop: handles every payload in delivery
/// order, isolating per-message failures, and returns the count of messages
/// processed — successfully or with a handled error. One bad message never
/// stops the loop.
pub fn process_all(store: &mut Store, payloads: &Vec<Vec<u8>>) -> (count: usize)
    requires
        old(store).wf(),
    ensures
        final(store).wf(),
        final(store)@ == sv_process_all(old(store)@, payload_views(payloads@)),
        count == payloads@.len(),
{
    let ghost v0 = store@;
    proof {
        assert(payloads@.skip(0) =~= payloads@);
    }
    let n = payloads.len();
    let mut i: usize = 0;
    while i < n
        invariant
            n == payloads@.len(),
            i <= n,
            store.wf(),
            sv_process_all(v0, payload_views(payloads@)) == sv_process_all(
                store@,
                payload_views(payloads@.skip(i as int)),
            ),
        decreases n - i,
    {
        let ghost before = payloads@.skip(i as int);
        proof {
            assert(payload_views(before)[0] == payloads@[i as int]@);
            assert(payload_views(before).drop_first() =~= payload_views(
                payloads@.skip(i + 1),
            ));
        }
        let _ = process_message(store, payloads[i].as_slice());
        i = i + 1;
    }
    proof {
        assert(payload_views(payloads@.skip(n as int)) =~= Seq::<Seq<u8>>::empty());
    }
    n
}

/// Handling any payload twice moves the store exactly where handling it once
/// does: a publisher that re-sends a message — a registration above all —
/// changes nothing the second time, while the processed count still grows.
pub proof fn lemma_process_message_idempotent(v: StoreView, payload: Seq<u8>)
    ensures
        sv_process_message(sv_process_message(v, payload), payload) == sv_process_message(
            v,
            payload,
        ),
{
    match dec_request(payload) {
        Err(_) => {},
        Ok(req) => match req.request_type {
            Some(RequestType::RegisterNewGame(o)) => {
                crate::registry::lemma_register_twice_same(
                    v,
                    req.game_name,
                    o.num_players,
                    o.turn_timeout_ms,
                );
            },
            _ => {},
        },
    }
}

#[verifier::external_type_specification]
#[verifier::external_body]
pub struct ExRespValue(redis_async::resp::RespValue);

/// Relies on matching redis_async::resp::RespValue: hands out the bytes of a
/// bulk string unchanged, and refuses every other variant with a parse
/// error.
#[verifier::external_body]
pub fn resp_value_as_bulk_contents(value: redis_async::resp::RespValue) -> (r: Result<
    Vec<u8>,
    ServerError,
>)
    ensures
        r is Err ==> r.unwrap_err() matches ServerError::RespParse(_),
{
    match value {
        redis_async::resp::RespValue::BulkString(contents) => Ok(contents),
        _ => Err(ServerError::RespParse("RespValue not BulkString".to_owned())),
    }
}

/// Decodes a bus message into an envelope: the message must be a bulk byte
/// payload, and the payload must decode. Every envelope handed out is the
/// decoding of some byte payload.
pub fn deserialize_request(message: redis_async::resp::RespValue) -> (r: Result<
    GameManagementRequest,
    ServerError,
>)
    ensures
        r matches Ok(env) ==> exists|b: Seq<u8>|
            #[trigger] dec_request(b) == Ok::<RequestView, crate::errors::DecodeError>(env@),
        r matches Err(e) ==> (e matches ServerError::RespParse(_) || e matches ServerError::Codec(
            _,
        )),
{
    let payload = match resp_value_as_bulk_contents(message) {
        Ok(p) => p,
        Err(e) => {
            return Err(e);
        },
    };
    match decode_request(payload.as_slice()) {
        Ok(env) => {
            proof {
                assert(dec_request(payload@) == Ok::<RequestView, crate::errors::DecodeError>(
                    env@,
                ));
            }
            Ok(env)
        },
        Err(e) => Err(ServerError::Codec(e)),
    }
}

/// The store after a list of script sources is registered, in order.
pub open spec fn sv_load_scripts(v: StoreView, sources: Seq<Seq<char>>) -> StoreView
    decreases sources.len(),
{
    if sources.len() == 0 {
        v
    } else {
        sv_load_scripts(sv_register_script(v, sources[0]), sources.drop_first())
    }
}

/// The name/source views a vector of script pairs holds.
pub open spec fn pair_views(s: Seq<(String, String)>) -> Seq<(Seq<char>, Seq<char>)> {
    s.map_values(|p: (String, String)| (p.0@, p.1@))
}

/// The sources of a list of script pairs.
pub open spec fn script_sources(s: Seq<(Seq<char>, Seq<char>)>) -> Seq<Seq<char>> {
    s.map_values(|p: (Seq<char>, Seq<char>)| p.1)
}

/// The name-to-handle map that loading scripts returns: each script's name,
/// paired with the handle of its registration — the decimal index it got.
pub open spec fn script_name_map(
    v: StoreView,
    scripts: Seq<(Seq<char>, Seq<char>)>,
) -> Seq<(Seq<char>, Seq<char>)> {
    Seq::new(scripts.len(), |k: int| (scripts[k].0, dec_str((v.scripts.len() + k) as nat)))
}

/// Loads the script folder into the store: every script's source is
/// registered, and the result maps each script's base name to the opaque
/// handle the store gave it. A path that is not a directory is refused
/// before anything is written. The caller supplies what it read from the
/// filesystem: whether the path is a directory, and each script's base name
/// and full contents.
pub fn load_scripts(store: &mut Store, folder_is_dir: bool, scripts: &Vec<(String, String)>) -> (r:
    Result<Vec<(String, String)>, ServerError>)
    requires
        old(store).wf(),
    ensures
        final(store).wf(),
        !folder_is_dir ==> r == Err::<Vec<(String, String)>, ServerError>(
            ServerError::NotADirectory,
        ) && final(store)@ == old(store)@,
        folder_is_dir ==> {
            &&& final(store)@ == sv_load_scripts(
                old(store)@,
                script_sources(pair_views(scripts@)),
            )
            &&& r matches Ok(m) && pair_views(m@) == script_name_map(
                old(store)@,
                pair_views(scripts@),
            )
        },
{
    if !folder_is_dir {
        return Err(ServerError::NotADirectory);
    }
    let ghost v0 = store@;
    proof {
        assert(scripts@.skip(0) =~= scripts@);
        assert(pair_views(Seq::<(String, String)>::empty()) =~= script_name_map(
            v0,
            pair_views(scripts@),
        ).take(0));
    }
    let n = scripts.len();
    let mut out: Vec<(String, String)> = Vec::new();
    let mut i: usize = 0;
    while i < n
        invariant
            n == scripts@.len(),
            i <= n,
            store.wf(),
            store@.scripts.len() == v0.scripts.len() + i,
            sv_load_scripts(v0, script_sources(pair_views(scripts@))) == sv_load_scripts(
                store@,
                script_sources(pair_views(scripts@.skip(i as int))),
            ),
            pair_views(out@) =~= script_name_map(v0, pair_views(scripts@)).take(i as int),
        decreases n - i,
    {
        let ghost before = scripts@.skip(i as int);
        proof {
            assert(script_sources(pair_views(before))[0] == scripts@[i as int].1@);
            assert(script_sources(pair_views(before)).drop_first() =~= script_sources(
                pair_views(scripts@.skip(i + 1)),
            ));
        }
        let p = &scripts[i];
        let stem = p.0.clone();
        let source = p.1.clone();
        let ghost out_before = out@;
        let handle = store.register_script(source);
        proof {
            assert(handle@ == dec_str((v0.scripts.len() + i) as nat));
        }
        out.push((stem, handle));
        proof {
            assert(pair_views(out@) =~= pair_views(out_before).push((stem@, handle@)));
            assert(script_name_map(v0, pair_views(scripts@)).take(i + 1) =~= script_name_map(
                v0,
                pair_views(scripts@),
            ).take(i as int).push((scripts@[i as int].0@, dec_str((v0.scripts.len() + i) as nat))));
            assert(pair_views(out@) =~= script_name_map(v0, pair_views(scripts@)).take(i + 1));
        }
        i = i + 1;
    }
    proof {
        assert(script_sources(pair_views(scripts@.skip(n as int))) =~= Seq::<Seq<char>>::empty());
        assert(script_name_map(v0, pair_views(scripts@)).take(n as int) =~= script_name_map(
            v0,
            pair_views(scripts@),
        ));
    }
    Ok(out)
}

/// The game-management service: its script handles, its trace-identifier
/// generator, and the bus topic it subscribes to.
pub struct GameManagementService {
    pub redis_scripts: Vec<(String, String)>,
    pub uuid_generator: UuidV1Generator,
    pub service_topic: String,
}

impl GameManagementService {
    /// The bus channel the service listens on.
    pub fn service_topic() -> (r: String)
        ensures
            r@ == prefixed_key("service"@, "game-management"@),
    {
        service_key("game-management")
    }

    /// Assembles the service at startup: loads the scripts into the store
    /// and takes ownership of the trace-identifier generator. A script path
    /// that is not a directory is fatal: no service is produced and nothing
    /// is written.
    pub fn new(
        store: &mut Store,
        folder_is_dir: bool,
        scripts: &Vec<(String, String)>,
        uuid_generator: UuidV1Generator,
    ) -> (r: Result<GameManagementService, ServerError>)
        requires
            old(store).wf(),
        ensures
            final(store).wf(),
            !folder_is_dir ==> r == Err::<GameManagementService, ServerError>(
                ServerError::NotADirectory,
            ) && final(store)@ == old(store)@,
            folder_is_dir ==> {
                &&& final(store)@ == sv_load_scripts(
                    old(store)@,
                    script_sources(pair_views(scripts@)),
                )
                &&& r matches Ok(svc) && pair_views(svc.redis_scripts@) == script_name_map(
                    old(store)@,
                    pair_views(scripts@),
                ) && svc.service_topic@ == prefixed_key("service"@, "game-management"@)
            },
    {
        let loaded = match load_scripts(store, folder_is_dir, scripts) {
            Ok(m) => m,
            Err(e) => {
                return Err(e);
            },
        };
        Ok(
            GameManagementService {
                redis_scripts: loaded,
                uuid_generator,
                service_topic: Self::service_topic(),
            },
        )
    }

    /// Routes one envelope, exactly as [`dispatch`] does.
    pub fn call(&self, store: &mut Store, request: GameManagementRequest) -> (r: Result<
        (),
        ServerError,
    >)
        requires
            old(store).wf(),
        ensures
            final(store).wf(),
            final(store)@ == sv_dispatch(old(store)@, request@),
            r is Ok <==> request@.request_type is Some,
            request@.request_type is None ==> r == Err::<(), ServerError>(
                ServerError::MissingCommandType,
            ),
    {
        dispatch(store, request)
    }
}

} // verus!
