//! The envelope wire format of the game-management bus.
//!
//! A bus message is an opaque byte payload holding an envelope
//! `{game_name, request_type}` in a field-tagged, forward-compatible binary
//! encoding: every field is introduced by a tag that carries its field number
//! and wire type, unknown fields are skipped, and absent fields keep their
//! default. The command is a tagged union carried as one of four
//! length-delimited submessage fields; an envelope in which none of them is
//! present decodes to a request without a command, which dispatch rejects.
//!
//! The encoding and the decoding are both specified against the same
//! specification functions, and `lemma_decode_encode` proves that decoding an
//! encoded envelope gives the envelope back.

use vstd::prelude::*;
use vstd::string::StrSliceExecFns;
use vstd::utf8::{decode_utf8, encode_utf8, valid_utf8};

use crate::errors::DecodeError;

verus! {

/// Options carried by a request to register a new game.
#[derive(Debug, Clone, Copy, PartialEq, Eq, Structural)]
pub struct RegisterNewGame {
    pub num_players: u32,
    pub turn_timeout_ms: u64,
}

/// A request to start a registered game.
#[derive(Debug, Clone, Copy, PartialEq, Eq, Structural)]
pub struct StartGame {}

/// A request to end a running game.
#[derive(Debug, Clone, Copy, PartialEq, Eq, Structural)]
pub struct EndGame {}

/// A request to clean a finished game out of the registry.
#[derive(Debug, Clone, Copy, PartialEq, Eq, Structural)]
pub struct CleanupGame {}

/// The lifecycle command inside an envelope: a closed tagged union, one
/// variant per registry operation.
#[derive(Debug, Clone, Copy, PartialEq, Eq, Structural)]
pub enum RequestType {
    RegisterNewGame(RegisterNewGame),
    StartGame(StartGame),
    EndGame(EndGame),
    CleanupGame(CleanupGame),
}

/// The envelope around every bus message: the game the command is scoped to,
/// and the command itself, if one was present in the payload.
#[derive(Debug, Clone, PartialEq, Eq)]
pub struct GameManagementRequest {
    pub game_name: String,
    pub request_type: Option<RequestType>,
}

/// The mathematical value of an envelope: the name as a character sequence,
/// and the command.
pub ghost struct RequestView {
    pub game_name: Seq<char>,
    pub request_type: Option<RequestType>,
}

impl View for GameManagementRequest {
    type V = RequestView;

    open spec fn view(&self) -> RequestView {
        RequestView { game_name: self.game_name@, request_type: self.request_type }
    }
}

/// One more than the largest value a variable-length integer may decode to.
pub open spec fn varint_limit() -> nat {
    0x1_0000_0000_0000_0000
}

/// The base-128, little-endian-group encoding of `n`: each byte carries seven
/// value bits, and the high bit of a byte says that another byte follows.
pub open spec fn varint_enc(n: nat) -> Seq<u8>
    decreases n,
{
    if n < 128 {
        seq![n as u8]
    } else {
        seq![(128 + n % 128) as u8] + varint_enc(n / 128)
    }
}

/// Reads a variable-length integer at position `i` of `s`: the value and the
/// number of bytes consumed, or nothing when the payload ends inside it.
pub open spec fn varint_dec(s: Seq<u8>, i: int) -> Option<(nat, nat)>
    decreases s.len() - i,
{
    if i < 0 || i >= s.len() {
        None
    } else if s[i] < 128 {
        Some((s[i] as nat, 1))
    } else {
        match varint_dec(s, i + 1) {
            None => None,
            Some((v, k)) => Some((((s[i] - 128) as nat + 128 * v), (k + 1) as nat)),
        }
    }
}

/// A variable-length integer that reads at all consumes at least one byte and
/// stays inside the payload.
pub proof fn lemma_varint_dec_bounds(s: Seq<u8>, i: int)
    requires
        varint_dec(s, i) is Some,
    ensures
        1 <= varint_dec(s, i).unwrap().1,
        i + varint_dec(s, i).unwrap().1 <= s.len(),
        0 <= i < s.len(),
    decreases s.len() - i,
{
    if s[i] >= 128 {
        lemma_varint_dec_bounds(s, i + 1);
    }
}

/// Reading a variable-length integer as the decoder does it: a value that must
/// fit 64 bits within ten bytes. A run of ten continuation bytes is invalid
/// whatever follows; a shorter run that reaches the end of the payload is a
/// truncation.
pub open spec fn varint_res(s: Seq<u8>, i: int) -> Result<(nat, nat), DecodeError> {
    match varint_dec(s, i) {
        Some((v, k)) => if k <= 10 {
            if v < varint_limit() {
                Ok((v, k))
            } else {
                Err(DecodeError::InvalidVarint)
            }
        } else {
            Err(DecodeError::InvalidVarint)
        },
        None => if s.len() - i >= 10 {
            Err(DecodeError::InvalidVarint)
        } else {
            Err(DecodeError::Truncated)
        },
    }
}

/// Reads the fields of a `RegisterNewGame` submessage body from position `i`
/// on, with the values decoded so far; later occurrences of a field replace
/// earlier ones, and unknown fields are skipped.
pub open spec fn dec_register_fields(s: Seq<u8>, i: int, acc: RegisterNewGame) -> Result<
    RegisterNewGame,
    DecodeError,
>
    decreases s.len() - i,
    via dec_register_fields_decreases
{
    if i >= s.len() {
        Ok(acc)
    } else {
        match varint_res(s, i) {
            Err(e) => Err(e),
            Ok((tag, tk)) => {
                let field = tag / 8;
                let wire = tag % 8;
                if field == 0 {
                    Err(DecodeError::InvalidTag)
                } else if wire == 0 {
                    match varint_res(s, i + tk) {
                        Err(e) => Err(e),
                        Ok((v, vk)) => if field == 1 {
                            if v < 0x1_0000_0000 {
                                dec_register_fields(
                                    s,
                                    i + tk + vk,
                                    RegisterNewGame {
                                        num_players: v as u32,
                                        turn_timeout_ms: acc.turn_timeout_ms,
                                    },
                                )
                            } else {
                                Err(DecodeError::InvalidVarint)
                            }
                        } else if field == 2 {
                            dec_register_fields(
                                s,
                                i + tk + vk,
                                RegisterNewGame {
                                    num_players: acc.num_players,
                                    turn_timeout_ms: v as u64,
                                },
                            )
                        } else {
                            dec_register_fields(s, i + tk + vk, acc)
                        },
                    }
                } else if wire == 2 {
                    match varint_res(s, i + tk) {
                        Err(e) => Err(e),
                        Ok((l, lk)) => if i + tk + lk + l > s.len() {
                            Err(DecodeError::Truncated)
                        } else {
                            dec_register_fields(s, i + tk + lk + l, acc)
                        },
                    }
                } else {
                    Err(DecodeError::InvalidTag)
                }
            },
        }
    }
}

#[via_fn]
proof fn dec_register_fields_decreases(s: Seq<u8>, i: int, acc: RegisterNewGame) {
    varint_step_bounds(s, i);
}

/// The bounds that every field-reading step needs for termination: the tag
/// and the value or length each consume at least one byte and stay inside the
/// payload.
proof fn varint_step_bounds(s: Seq<u8>, i: int)
    ensures
        varint_dec(s, i) is Some ==> {
            let tk = varint_dec(s, i).unwrap().1 as int;
            &&& 1 <= tk
            &&& 0 <= i
            &&& i + tk <= s.len()
            &&& (varint_dec(s, i + tk) is Some ==> 1 <= varint_dec(s, i + tk).unwrap().1 && i + tk
                + varint_dec(s, i + tk).unwrap().1 <= s.len())
        },
{
    if varint_dec(s, i) is Some {
        lemma_varint_dec_bounds(s, i);
        let tk = varint_dec(s, i).unwrap().1 as int;
        if varint_dec(s, i + tk) is Some {
            lemma_varint_dec_bounds(s, i + tk);
        }
    }
}

/// Reads the fields of a submessage that defines none: every known-wire-type
/// field is skipped, so the body only has to be well-formed.
pub open spec fn dec_empty_fields(s: Seq<u8>, i: int) -> Result<(), DecodeError>
    decreases s.len() - i,
    via dec_empty_fields_decreases
{
    if i >= s.len() {
        Ok(())
    } else {
        match varint_res(s, i) {
            Err(e) => Err(e),
            Ok((tag, tk)) => {
                let field = tag / 8;
                let wire = tag % 8;
                if field == 0 {
                    Err(DecodeError::InvalidTag)
                } else if wire == 0 {
                    match varint_res(s, i + tk) {
                        Err(e) => Err(e),
                        Ok((_v, vk)) => dec_empty_fields(s, i + tk + vk),
                    }
                } else if wire == 2 {
                    match varint_res(s, i + tk) {
                        Err(e) => Err(e),
                        Ok((l, lk)) => if i + tk + lk + l > s.len() {
                            Err(DecodeError::Truncated)
                        } else {
                            dec_empty_fields(s, i + tk + lk + l)
                        },
                    }
                } else {
                    Err(DecodeError::InvalidTag)
                }
            },
        }
    }
}

#[via_fn]
proof fn dec_empty_fields_decreases(s: Seq<u8>, i: int) {
    varint_step_bounds(s, i);
}

/// Decodes the submessage body of the command field numbered `field`
/// (2 registers, 3 starts, 4 ends, 5 cleans up).
pub open spec fn dec_command(field: nat, body: Seq<u8>) -> Result<RequestType, DecodeError>
    recommends
        2 <= field <= 5,
{
    if field == 2 {
        match dec_register_fields(body, 0, RegisterNewGame { num_players: 0, turn_timeout_ms: 0 }) {
            Err(e) => Err(e),
            Ok(r) => Ok(RequestType::RegisterNewGame(r)),
        }
    } else {
        match dec_empty_fields(body, 0) {
            Err(e) => Err(e),
            Ok(()) => if field == 3 {
                Ok(RequestType::StartGame(StartGame {}))
            } else if field == 4 {
                Ok(RequestType::EndGame(EndGame {}))
            } else {
                Ok(RequestType::CleanupGame(CleanupGame {}))
            },
        }
    }
}

/// Reads the fields of an envelope from position `i` on, with the name and
/// command decoded so far. Field 1 is the game name; fields 2 to 5 are the
/// command variants; anything else is skipped.
pub open spec fn dec_request_fields(s: Seq<u8>, i: int, name: Seq<char>, cmd: Option<RequestType>) -> Result<
    RequestView,
    DecodeError,
>
    decreases s.len() - i,
    via dec_request_fields_decreases
{
    if i >= s.len() {
        Ok(RequestView { game_name: name, request_type: cmd })
    } else {
        match varint_res(s, i) {
            Err(e) => Err(e),
            Ok((tag, tk)) => {
                let field = tag / 8;
                let wire = tag % 8;
                if field == 0 {
                    Err(DecodeError::InvalidTag)
                } else if wire == 0 {
                    match varint_res(s, i + tk) {
                        Err(e) => Err(e),
                        Ok((_v, vk)) => dec_request_fields(s, i + tk + vk, name, cmd),
                    }
                } else if wire == 2 {
                    match varint_res(s, i + tk) {
                        Err(e) => Err(e),
                        Ok((l, lk)) => if i + tk + lk + l > s.len() {
                            Err(DecodeError::Truncated)
                        } else {
                            let body = s.subrange(i + tk + lk, i + tk + lk + l);
                            if field == 1 {
                                if valid_utf8(body) {
                                    dec_request_fields(s, i + tk + lk + l, decode_utf8(body), cmd)
                                } else {
                                    Err(DecodeError::InvalidUtf8)
                                }
                            } else if 2 <= field <= 5 {
                                match dec_command(field, body) {
                                    Err(e) => Err(e),
                                    Ok(c) => dec_request_fields(s, i + tk + lk + l, name, Some(c)),
                                }
                            } else {
                                dec_request_fields(s, i + tk + lk + l, name, cmd)
                            }
                        },
                    }
                } else {
                    Err(DecodeError::InvalidTag)
                }
            },
        }
    }
}

#[via_fn]
proof fn dec_request_fields_decreases(
    s: Seq<u8>,
    i: int,
    name: Seq<char>,
    cmd: Option<RequestType>,
) {
    varint_step_bounds(s, i);
}

/// What a byte payload decodes to: an envelope value, or the first failure.
pub open spec fn dec_request(s: Seq<u8>) -> Result<RequestView, DecodeError> {
    dec_request_fields(s, 0, Seq::empty(), None)
}

/// The body of an encoded `RegisterNewGame` submessage; a zero value keeps
/// its field absent, as the decoder's defaults restore it.
pub open spec fn enc_register(r: RegisterNewGame) -> Seq<u8> {
    (if r.num_players == 0 {
        Seq::empty()
    } else {
        seq![8u8] + varint_enc(r.num_players as nat)
    }) + (if r.turn_timeout_ms == 0 {
        Seq::empty()
    } else {
        seq![16u8] + varint_enc(r.turn_timeout_ms as nat)
    })
}

/// The field number that carries a command variant.
pub open spec fn cmd_field(c: RequestType) -> nat {
    match c {
        RequestType::RegisterNewGame(_) => 2,
        RequestType::StartGame(_) => 3,
        RequestType::EndGame(_) => 4,
        RequestType::CleanupGame(_) => 5,
    }
}

/// The submessage body that carries a command variant.
pub open spec fn cmd_body(c: RequestType) -> Seq<u8> {
    match c {
        RequestType::RegisterNewGame(r) => enc_register(r),
        _ => Seq::empty(),
    }
}

/// The encoding of an envelope: the name field when the name is non-empty,
/// then the command field when a command is present.
pub open spec fn enc_request(v: RequestView) -> Seq<u8> {
    (if v.game_name.len() == 0 {
        Seq::empty()
    } else {
        seq![10u8] + varint_enc(encode_utf8(v.game_name).len()) + encode_utf8(v.game_name)
    }) + (match v.request_type {
        None => Seq::empty(),
        Some(c) => seq![(cmd_field(c) * 8 + 2) as u8] + varint_enc(cmd_body(c).len())
            + cmd_body(c),
    })
}

/// 128 raised to `k`: the number of values that `k` groups of seven bits can
/// carry.
pub open spec fn pow128(k: nat) -> nat
    decreases k,
{
    if k == 0 {
        1
    } else {
        128 * pow128((k - 1) as nat)
    }
}

/// The encoding of a value below `pow128(k)` takes at most `k` bytes.
proof fn lemma_varint_enc_len_bound(n: nat, k: nat)
    requires
        1 <= k,
        n < pow128(k),
    ensures
        varint_enc(n).len() <= k,
    decreases k,
{
    if n >= 128 {
        assert(pow128(k) == 128 * pow128((k - 1) as nat));
        assert(n / 128 < pow128((k - 1) as nat));
        lemma_varint_enc_len_bound(n / 128, (k - 1) as nat);
    }
}

/// Every encoding takes at least one byte, and an encoding of a value that
/// fits 64 bits takes at most ten.
pub proof fn lemma_varint_enc_len(n: nat)
    ensures
        1 <= varint_enc(n).len(),
        n < varint_limit() ==> varint_enc(n).len() <= 10,
{
    assert(pow128(0) == 1);
    assert(pow128(1) == 128 * pow128(0));
    assert(pow128(2) == 128 * pow128(1));
    assert(pow128(3) == 128 * pow128(2));
    assert(pow128(4) == 128 * pow128(3));
    assert(pow128(5) == 128 * pow128(4));
    assert(pow128(6) == 128 * pow128(5));
    assert(pow128(7) == 128 * pow128(6));
    assert(pow128(8) == 128 * pow128(7));
    assert(pow128(9) == 128 * pow128(8));
    assert(pow128(10) == 128 * pow128(9));
    assert(varint_limit() <= pow128(10)) by (nonlinear_arith)
        requires
            pow128(10) == 128 * (128 * (128 * (128 * (128 * (128 * (128 * (128 * (128
                * 128)))))))),
    ;
    if n < varint_limit() {
        lemma_varint_enc_len_bound(n, 10);
    }
}

/// Where a payload holds the encoding of `n` at position `i`, decoding at `i`
/// yields `n` and consumes exactly the encoding.
pub proof fn lemma_varint_dec_enc(s: Seq<u8>, i: int, n: nat)
    requires
        0 <= i,
        i + varint_enc(n).len() <= s.len(),
        s.subrange(i, i + varint_enc(n).len()) == varint_enc(n),
    ensures
        varint_dec(s, i) == Some((n, varint_enc(n).len() as nat)),
    decreases n,
{
    let e = varint_enc(n);
    if n < 128 {
        assert(s[i] == e[0]);
    } else {
        let e2 = varint_enc(n / 128);
        assert(s[i] == e[0]);
        assert(s[i] == 128 + n % 128);
        assert(s.subrange(i + 1, i + 1 + e2.len() as int) =~= e2) by {
            assert forall|j: int| 0 <= j < e2.len() implies s[i + 1 + j] == e2[j] by {
                assert(s[i + 1 + j] == s.subrange(i, i + e.len() as int)[1 + j]);
            }
        }
        lemma_varint_dec_enc(s, i + 1, n / 128);
        vstd::arithmetic::div_mod::lemma_fundamental_div_mod(n as int, 128);
    }
}

/// The decoder's reading of a payload that holds the encoding of `n` at
/// position `i`: the value itself, within the encoding's width.
pub proof fn lemma_varint_res_enc(s: Seq<u8>, i: int, n: nat)
    requires
        0 <= i,
        n < varint_limit(),
        i + varint_enc(n).len() <= s.len(),
        s.subrange(i, i + varint_enc(n).len()) == varint_enc(n),
    ensures
        varint_res(s, i) == Ok::<(nat, nat), DecodeError>((n, varint_enc(n).len() as nat)),
{
    lemma_varint_dec_enc(s, i, n);
    lemma_varint_enc_len(n);
}

/// A register submessage body decodes back to the options it was encoded
/// from.
proof fn lemma_dec_enc_register(r: RegisterNewGame)
    ensures
        dec_register_fields(
            enc_register(r),
            0,
            RegisterNewGame { num_players: 0, turn_timeout_ms: 0 },
        ) == Ok::<RegisterNewGame, DecodeError>(r),
{
    let s = enc_register(r);
    let a = if r.num_players == 0 {
        Seq::<u8>::empty()
    } else {
        seq![8u8] + varint_enc(r.num_players as nat)
    };
    let b = if r.turn_timeout_ms == 0 {
        Seq::<u8>::empty()
    } else {
        seq![16u8] + varint_enc(r.turn_timeout_ms as nat)
    };
    assert(s == a + b);
    lemma_varint_enc_len(r.num_players as nat);
    lemma_varint_enc_len(r.turn_timeout_ms as nat);
    let after_a = RegisterNewGame { num_players: r.num_players, turn_timeout_ms: 0 };
    if r.num_players != 0 {
        let el = varint_enc(r.num_players as nat).len() as int;
        assert(s[0] == 8);
        assert(s.subrange(1, 1 + el) =~= varint_enc(r.num_players as nat)) by {
            assert forall|j: int| 0 <= j < el implies s[1 + j] == varint_enc(
                r.num_players as nat,
            )[j] by {
                assert(s[1 + j] == a[1 + j]);
            }
        }
        lemma_varint_res_enc(s, 1, r.num_players as nat);
        assert(dec_register_fields(s, 0, RegisterNewGame { num_players: 0, turn_timeout_ms: 0 })
            == dec_register_fields(s, 1 + el, after_a));
    }
    let ai = a.len() as int;
    if r.turn_timeout_ms != 0 {
        let el2 = varint_enc(r.turn_timeout_ms as nat).len() as int;
        assert(s[ai] == 16);
        assert(s.subrange(ai + 1, ai + 1 + el2) =~= varint_enc(r.turn_timeout_ms as nat)) by {
            assert forall|j: int| 0 <= j < el2 implies s[ai + 1 + j] == varint_enc(
                r.turn_timeout_ms as nat,
            )[j] by {
                assert(s[ai + 1 + j] == b[1 + j]);
            }
        }
        lemma_varint_res_enc(s, ai + 1, r.turn_timeout_ms as nat);
        assert(dec_register_fields(s, ai, after_a) == dec_register_fields(s, s.len() as int, r));
    }
    assert(dec_register_fields(s, s.len() as int, r) == Ok::<RegisterNewGame, DecodeError>(r));
}

/// A command submessage body decodes back to the command it was encoded from.
proof fn lemma_dec_enc_command(c: RequestType)
    ensures
        cmd_body(c).len() < varint_limit(),
        dec_command(cmd_field(c), cmd_body(c)) == Ok::<RequestType, DecodeError>(c),
{
    match c {
        RequestType::RegisterNewGame(r) => {
            lemma_varint_enc_len(r.num_players as nat);
            lemma_varint_enc_len(r.turn_timeout_ms as nat);
            lemma_dec_enc_register(r);
        },
        _ => {
            assert(dec_empty_fields(Seq::<u8>::empty(), 0) == Ok::<(), DecodeError>(()));
        },
    }
}

/// Decoding an encoded envelope gives the envelope back: the codec loses
/// nothing, for every name that fits the wire's length field and every
/// command.
#[verifier::rlimit(100)]
pub proof fn lemma_decode_encode(v: RequestView)
    requires
        encode_utf8(v.game_name).len() < varint_limit(),
    ensures
        dec_request(enc_request(v)) == Ok::<RequestView, DecodeError>(v),
{
    let s = enc_request(v);
    let nb = encode_utf8(v.game_name);
    let a = if v.game_name.len() == 0 {
        Seq::<u8>::empty()
    } else {
        seq![10u8] + varint_enc(nb.len()) + nb
    };
    let b = match v.request_type {
        None => Seq::<u8>::empty(),
        Some(c) => seq![(cmd_field(c) * 8 + 2) as u8] + varint_enc(cmd_body(c).len()) + cmd_body(
            c,
        ),
    };
    assert(s == a + b);
    lemma_varint_enc_len(nb.len());
    broadcast use vstd::utf8::encode_utf8_valid_utf8, vstd::utf8::encode_utf8_decode_utf8;

    if v.game_name.len() != 0 {
        let el = varint_enc(nb.len()).len() as int;
        assert(s[0] == 10);
        assert(s.subrange(1, 1 + el) =~= varint_enc(nb.len())) by {
            assert forall|j: int| 0 <= j < el implies s[1 + j] == varint_enc(nb.len())[j] by {
                assert(s[1 + j] == a[1 + j]);
            }
        }
        lemma_varint_res_enc(s, 1, nb.len());
        assert(s.subrange(1 + el, 1 + el + nb.len() as int) =~= nb) by {
            assert forall|j: int| 0 <= j < nb.len() implies s[1 + el + j] == nb[j] by {
                assert(s[1 + el + j] == a[1 + el + j]);
            }
        }
        assert(dec_request_fields(s, 0, Seq::empty(), None) == dec_request_fields(
            s,
            a.len() as int,
            v.game_name,
            None,
        ));
    } else {
        assert(encode_utf8(Seq::<char>::empty()) =~= Seq::<u8>::empty());
        assert(decode_utf8(Seq::<u8>::empty()) =~= Seq::<char>::empty());
        assert(v.game_name =~= Seq::<char>::empty());
    }
    let ai = a.len() as int;
    match v.request_type {
        None => {
            assert(dec_request_fields(s, ai, v.game_name, None) == Ok::<
                RequestView,
                DecodeError,
            >(RequestView { game_name: v.game_name, request_type: None }));
        },
        Some(c) => {
            lemma_dec_enc_command(c);
            let cb = cmd_body(c);
            let el2 = varint_enc(cb.len()).len() as int;
            assert(s[ai] == cmd_field(c) * 8 + 2);
            assert(s.subrange(ai + 1, ai + 1 + el2) =~= varint_enc(cb.len())) by {
                assert forall|j: int| 0 <= j < el2 implies s[ai + 1 + j] == varint_enc(
                    cb.len(),
                )[j] by {
                    assert(s[ai + 1 + j] == b[1 + j]);
                }
            }
            lemma_varint_res_enc(s, ai + 1, cb.len());
            assert(s.subrange(ai + 1 + el2, ai + 1 + el2 + cb.len() as int) =~= cb) by {
                assert forall|j: int| 0 <= j < cb.len() implies s[ai + 1 + el2 + j] == cb[j] by {
                    assert(s[ai + 1 + el2 + j] == b[1 + el2 + j]);
                }
            }
            assert(dec_request_fields(s, ai, v.game_name, None) == dec_request_fields(
                s,
                s.len() as int,
                v.game_name,
                Some(c),
            ));
            assert(dec_request_fields(s, s.len() as int, v.game_name, Some(c)) == Ok::<
                RequestView,
                DecodeError,
            >(RequestView { game_name: v.game_name, request_type: Some(c) }));
        },
    }
}

/// Relies on str::from_utf8 and str::to_owned: conversion succeeds exactly on
/// valid UTF-8 input, and the resulting string is a view of the same bytes.
#[verifier::external_body]
fn bytes_to_string(v: &[u8]) -> (r: Option<String>)
    ensures
        r is Some <==> valid_utf8(v@),
        r is Some ==> encode_utf8(r.unwrap()@) == v@,
{
    match core::str::from_utf8(v) {
        Ok(s) => Some(s.to_owned()),
        Err(_) => None,
    }
}

/// Reads one variable-length integer at `pos`, returning its value and the
/// position just past it.
pub fn read_varint(s: &[u8], pos: usize) -> (r: Result<(u64, usize), DecodeError>)
    requires
        pos <= s@.len(),
    ensures
        match varint_res(s@, pos as int) {
            Ok(vk) => r is Ok && r.unwrap().0 as nat == vk.0 && r.unwrap().1 == pos + vk.1,
            Err(e) => r == Err::<(u64, usize), DecodeError>(e),
        },
        r is Ok ==> pos < r.unwrap().1 <= s@.len(),
    decreases s@.len() - pos,
{
    if pos == s.len() {
        return Err(DecodeError::Truncated);
    }
    let b: u8 = s[pos];
    if b < 128 {
        return Ok((b as u64, pos + 1));
    }
    match read_varint(s, pos + 1) {
        Ok((v, newpos)) => {
            let k: usize = newpos - pos;
            if k > 10 {
                return Err(DecodeError::InvalidVarint);
            }
            let c: u64 = (b - 128) as u64;
            match v.checked_mul(128) {
                Some(m) => match m.checked_add(c) {
                    Some(total) => Ok((total, newpos)),
                    None => Err(DecodeError::InvalidVarint),
                },
                None => Err(DecodeError::InvalidVarint),
            }
        },
        Err(e) => {
            if s.len() - pos >= 10 {
                Err(DecodeError::InvalidVarint)
            } else {
                Err(e)
            }
        },
    }
}

/// Reads the fields of a `RegisterNewGame` submessage body, as
/// [`dec_register_fields`] describes.
fn read_register_fields(s: &[u8], pos: usize, acc: RegisterNewGame) -> (r: Result<
    RegisterNewGame,
    DecodeError,
>)
    requires
        pos <= s@.len(),
    ensures
        r == dec_register_fields(s@, pos as int, acc),
    decreases s@.len() - pos,
{
    if pos == s.len() {
        return Ok(acc);
    }
    let (tag, p1) = match read_varint(s, pos) {
        Ok(t) => t,
        Err(e) => {
            return Err(e);
        },
    };
    let field: u64 = tag / 8;
    let wire: u64 = tag % 8;
    if field == 0 {
        Err(DecodeError::InvalidTag)
    } else if wire == 0 {
        let (v, p2) = match read_varint(s, p1) {
            Ok(t) => t,
            Err(e) => {
                return Err(e);
            },
        };
        if field == 1 {
            if v < 0x1_0000_0000 {
                read_register_fields(
                    s,
                    p2,
                    RegisterNewGame { num_players: v as u32, turn_timeout_ms: acc.turn_timeout_ms },
                )
            } else {
                Err(DecodeError::InvalidVarint)
            }
        } else if field == 2 {
            read_register_fields(
                s,
                p2,
                RegisterNewGame { num_players: acc.num_players, turn_timeout_ms: v },
            )
        } else {
            read_register_fields(s, p2, acc)
        }
    } else if wire == 2 {
        let (l, p2) = match read_varint(s, p1) {
            Ok(t) => t,
            Err(e) => {
                return Err(e);
            },
        };
        if l > (s.len() - p2) as u64 {
            Err(DecodeError::Truncated)
        } else {
            read_register_fields(s, p2 + l as usize, acc)
        }
    } else {
        Err(DecodeError::InvalidTag)
    }
}

/// Reads the fields of a submessage that defines none, as
/// [`dec_empty_fields`] describes.
fn read_empty_fields(s: &[u8], pos: usize) -> (r: Result<(), DecodeError>)
    requires
        pos <= s@.len(),
    ensures
        r == dec_empty_fields(s@, pos as int),
    decreases s@.len() - pos,
{
    if pos == s.len() {
        return Ok(());
    }
    let (tag, p1) = match read_varint(s, pos) {
        Ok(t) => t,
        Err(e) => {
            return Err(e);
        },
    };
    let field: u64 = tag / 8;
    let wire: u64 = tag % 8;
    if field == 0 {
        Err(DecodeError::InvalidTag)
    } else if wire == 0 {
        let (_v, p2) = match read_varint(s, p1) {
            Ok(t) => t,
            Err(e) => {
                return Err(e);
            },
        };
        read_empty_fields(s, p2)
    } else if wire == 2 {
        let (l, p2) = match read_varint(s, p1) {
            Ok(t) => t,
            Err(e) => {
                return Err(e);
            },
        };
        if l > (s.len() - p2) as u64 {
            Err(DecodeError::Truncated)
        } else {
            read_empty_fields(s, p2 + l as usize)
        }
    } else {
        Err(DecodeError::InvalidTag)
    }
}

/// Reads the fields of an envelope, as [`dec_request_fields`] describes.
fn read_request_fields(s: &[u8], pos: usize, name: String, cmd: Option<RequestType>) -> (r: Result<
    GameManagementRequest,
    DecodeError,
>)
    requires
        pos <= s@.len(),
    ensures
        match dec_request_fields(s@, pos as int, name@, cmd) {
            Ok(v) => r is Ok && r.unwrap()@ == v,
            Err(e) => r == Err::<GameManagementRequest, DecodeError>(e),
        },
    decreases s@.len() - pos,
{
    if pos == s.len() {
        return Ok(GameManagementRequest { game_name: name, request_type: cmd });
    }
    let (tag, p1) = match read_varint(s, pos) {
        Ok(t) => t,
        Err(e) => {
            return Err(e);
        },
    };
    let field: u64 = tag / 8;
    let wire: u64 = tag % 8;
    if field == 0 {
        Err(DecodeError::InvalidTag)
    } else if wire == 0 {
        let (_v, p2) = match read_varint(s, p1) {
            Ok(t) => t,
            Err(e) => {
                return Err(e);
            },
        };
        read_request_fields(s, p2, name, cmd)
    } else if wire == 2 {
        let (l, p2) = match read_varint(s, p1) {
            Ok(t) => t,
            Err(e) => {
                return Err(e);
            },
        };
        if l > (s.len() - p2) as u64 {
            Err(DecodeError::Truncated)
        } else {
            let body: &[u8] = vstd::slice::slice_subrange(s, p2, p2 + l as usize);
            if field == 1 {
                match bytes_to_string(body) {
                    Some(nm) => {
                        proof {
                            vstd::utf8::encode_utf8_decode_utf8(nm@);
                        }
                        read_request_fields(s, p2 + l as usize, nm, cmd)
                    },
                    None => Err(DecodeError::InvalidUtf8),
                }
            } else if field == 2 {
                match read_register_fields(
                    body,
                    0,
                    RegisterNewGame { num_players: 0, turn_timeout_ms: 0 },
                ) {
                    Ok(rg) => read_request_fields(
                        s,
                        p2 + l as usize,
                        name,
                        Some(RequestType::RegisterNewGame(rg)),
                    ),
                    Err(e) => Err(e),
                }
            } else if field == 3 || field == 4 || field == 5 {
                match read_empty_fields(body, 0) {
                    Ok(()) => {
                        let c = if field == 3 {
                            RequestType::StartGame(StartGame {})
                        } else if field == 4 {
                            RequestType::EndGame(EndGame {})
                        } else {
                            RequestType::CleanupGame(CleanupGame {})
                        };
                        read_request_fields(s, p2 + l as usize, name, Some(c))
                    },
                    Err(e) => Err(e),
                }
            } else {
                read_request_fields(s, p2 + l as usize, name, cmd)
            }
        }
    } else {
        Err(DecodeError::InvalidTag)
    }
}

/// Decodes a byte payload into an envelope, exactly as [`dec_request`]
/// describes: the value on success, and the first failure otherwise.
pub fn decode_request(payload: &[u8]) -> (r: Result<GameManagementRequest, DecodeError>)
    ensures
        match dec_request(payload@) {
            Ok(v) => r is Ok && r.unwrap()@ == v,
            Err(e) => r == Err::<GameManagementRequest, DecodeError>(e),
        },
{
    read_request_fields(payload, 0, String::new(), None)
}

/// Appends the variable-length encoding of `n` to `out`.
pub fn write_varint(out: &mut Vec<u8>, n: u64)
    ensures
        final(out)@ == old(out)@ + varint_enc(n as nat),
    decreases n,
{
    if n < 128 {
        out.push(n as u8);
        assert(out@ =~= old(out)@ + varint_enc(n as nat));
    } else {
        out.push((128 + (n % 128)) as u8);
        write_varint(out, n / 128);
        assert(out@ =~= old(out)@ + varint_enc(n as nat));
    }
}

/// Encodes the body of a `RegisterNewGame` submessage, as [`enc_register`]
/// describes.
fn encode_register(rg: &RegisterNewGame) -> (out: Vec<u8>)
    ensures
        out@ == enc_register(*rg),
{
    let mut out: Vec<u8> = Vec::new();
    if rg.num_players != 0 {
        out.push(8u8);
        write_varint(&mut out, rg.num_players as u64);
    }
    if rg.turn_timeout_ms != 0 {
        out.push(16u8);
        write_varint(&mut out, rg.turn_timeout_ms);
    }
    proof {
        assert(out@ =~= enc_register(*rg));
    }
    out
}

/// A character sequence encodes to no bytes exactly when it is empty.
proof fn lemma_encode_utf8_empty(s: Seq<char>)
    ensures
        encode_utf8(s).len() == 0 <==> s.len() == 0,
{
    if s.len() > 0 {
        assert(vstd::utf8::encode_scalar(s[0] as u32).len() >= 1);
    }
}

/// Encodes an envelope into its byte payload, exactly as [`enc_request`]
/// describes.
pub fn encode_request(req: &GameManagementRequest) -> (out: Vec<u8>)
    ensures
        out@ == enc_request(req@),
{
    let mut out: Vec<u8> = Vec::new();
    let mut name_bytes: Vec<u8> = req.game_name.as_str().as_bytes_vec();
    proof {
        lemma_encode_utf8_empty(req.game_name@);
    }
    if name_bytes.len() > 0 {
        out.push(10u8);
        write_varint(&mut out, name_bytes.len() as u64);
        out.append(&mut name_bytes);
    }
    match &req.request_type {
        None => {
            proof {
                assert(out@ =~= enc_request(req@));
            }
            out
        },
        Some(c) => {
            let mut body: Vec<u8> = match c {
                RequestType::RegisterNewGame(rg) => encode_register(rg),
                _ => Vec::new(),
            };
            let tagbyte: u8 = match c {
                RequestType::RegisterNewGame(_) => 18,
                RequestType::StartGame(_) => 26,
                RequestType::EndGame(_) => 34,
                RequestType::CleanupGame(_) => 42,
            };
            out.push(tagbyte);
            write_varint(&mut out, body.len() as u64);
            out.append(&mut body);
            proof {
                assert(out@ =~= enc_request(req@));
            }
            out
        },
    }
}

} // verus!
