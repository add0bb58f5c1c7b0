//! Session token management.
//!
//! - fixed mode: the token is written to the token file and reused after a restart
//! - random mode: the token lives in memory only and is replaced at every start or switch
//!
//! The functions here decide which token is active and what becomes of the
//! token file; reading and writing the files is left to the caller.

use vstd::prelude::*;
use vstd::utf8::{decode_utf8, encode_utf8, is_char_boundary};

use crate::models::{parse_mode_spec, AppConfig, TokenInfo, TokenMode};
use crate::text::{
    concat3, is_ws, lemma_trimmed_idempotent, opt_text, owned, trim, trimmed,
};

verus! {

/// The name of the configuration file.
pub const CONFIG_PATH: &'static str = "neuro_config.json";

/// The name of the token file.
pub const TOKEN_PATH: &'static str = "neuro_token.secret";

/// A lowercase hexadecimal digit.
pub open spec fn is_lower_hex(c: char) -> bool {
    ('0' <= c && c <= '9') || ('a' <= c && c <= 'f')
}

/// The text of a random (version 4) UUID in lowercase hyphenated form:
/// 36 characters, `-` at 8, 13, 18 and 23, lowercase hex digits elsewhere,
/// the version digit `4` at 14 and a variant digit `8`, `9`, `a` or `b` at 19.
pub open spec fn is_uuid_v4_text(s: Seq<char>) -> bool {
    &&& s.len() == 36
    &&& forall|i: int|
        0 <= i < 36 ==> if i == 8 || i == 13 || i == 18 || i == 23 {
            #[trigger] s[i] == '-'
        } else {
            is_lower_hex(s[i])
        }
    &&& s[14] == '4'
    &&& (s[19] == '8' || s[19] == '9' || s[19] == 'a' || s[19] == 'b')
}

/// A new session token: `Uuid::new_v4().to_string()`.
///
/// The contract claims that the text is a lowercase hyphenated version 4
/// UUID, which is what the `uuid` crate's `new_v4` and its `Display` produce.
/// Which UUID comes out rests on the system's random source and is not
/// stated; when the system cannot provide random bytes, `uuid` panics, which
/// no precondition can rule out.
#[verifier::external_body]
pub fn generate_token() -> (t: String)
    ensures
        is_uuid_v4_text(t@),
{
    uuid::Uuid::new_v4().to_string()
}

/// What becomes of the token file.
#[derive(Debug, Clone)]
pub enum TokenFileOp {
    /// the file stays as it is
    Keep,
    /// the file is written with exactly this text
    Write(String),
    /// the file is removed if present
    Clear,
}

/// The active token and what becomes of the token file.
#[derive(Debug, Clone)]
pub struct TokenPlan {
    pub token: String,
    pub file: TokenFileOp,
}

/// The token a token file holds, given the file's text if it could be read:
/// the trimmed text, unless that is empty.
pub open spec fn persisted_token(content: Option<Seq<char>>) -> Option<Seq<char>> {
    match content {
        Some(c) => if trimmed(c).len() > 0 {
            Some(trimmed(c))
        } else {
            None
        },
        None => None,
    }
}

/// A session token as the library keeps it: without surrounding whitespace.
pub open spec fn is_trimmed_token(t: Seq<char>) -> bool {
    trimmed(t) == t
}

/// The token held by a token file whose text is `content` (`None` when the
/// file is missing or unreadable).
pub fn token_from_file(content: Option<String>) -> (r: Option<String>)
    ensures
        match (r, persisted_token(opt_text(content))) {
            (Some(t), Some(u)) => t@ == u,
            (None, None) => true,
            _ => false,
        },
        r matches Some(t) ==> is_trimmed_token(t@),
{
    proof {
        if content is Some {
            lemma_trimmed_idempotent(content->0@);
        }
    }
    match content {
        Some(c) => {
            let t = trim(c.as_str());
            if t.is_empty() {
                None
            } else {
                Some(owned(t))
            }
        },
        None => None,
    }
}

/// The file operation that stores `token` (the file holds the trimmed token).
pub open spec fn writes_token(op: TokenFileOp, token: Seq<char>) -> bool {
    op matches TokenFileOp::Write(w) && w@ == trimmed(token)
}

/// The file operation that writes `token`, trimmed.
fn write_op(token: &str) -> (op: TokenFileOp)
    ensures
        writes_token(op, token@),
{
    TokenFileOp::Write(owned(trim(token)))
}

/// The session token at start-up, given the configuration, the token read
/// from the token file (see `token_from_file`) and a freshly drawn token.
///
/// - fixed mode: the stored token if there is one, else the fresh token, which is written
/// - random mode: the fresh token, and the token file is removed
pub fn resolve_session_token_with(config: &AppConfig, persisted: Option<String>, fresh: String) -> (p:
    TokenPlan)
    ensures
        config.token_mode == TokenMode::Fixed && persisted is Some ==> p.token@
            == persisted->0@ && p.file is Keep,
        config.token_mode == TokenMode::Fixed && persisted is None ==> p.token@ == fresh@
            && writes_token(p.file, fresh@),
        config.token_mode == TokenMode::Random ==> p.token@ == fresh@ && p.file is Clear,
{
    match config.token_mode {
        TokenMode::Fixed => {
            match persisted {
                Some(existing) => TokenPlan { token: existing, file: TokenFileOp::Keep },
                None => {
                    let op = write_op(fresh.as_str());
                    TokenPlan { token: fresh, file: op }
                },
            }
        },
        TokenMode::Random => TokenPlan { token: fresh, file: TokenFileOp::Clear },
    }
}

/// The session token at start-up, given the configuration and the token read
/// from the token file (see `token_from_file`); a new token is drawn when one
/// is needed.
///
/// - fixed mode: the stored token if there is one, else a new token that is written
/// - random mode: a new token, and the token file is removed
pub fn resolve_session_token(config: &AppConfig, persisted: Option<String>) -> (p: TokenPlan)
    ensures
        config.token_mode == TokenMode::Fixed && persisted is Some ==> p.token@
            == persisted->0@ && p.file is Keep,
        config.token_mode == TokenMode::Fixed && persisted is None ==> is_uuid_v4_text(p.token@)
            && writes_token(p.file, p.token@),
        config.token_mode == TokenMode::Random ==> is_uuid_v4_text(p.token@) && p.file is Clear,
        (persisted matches Some(t) ==> is_trimmed_token(t@)) ==> is_trimmed_token(p.token@),
{
    let needs_new = match (config.token_mode, &persisted) {
        (TokenMode::Fixed, Some(_)) => false,
        _ => true,
    };
    let fresh = if needs_new {
        generate_token()
    } else {
        String::new()
    };
    let ghost f = fresh@;
    let p = resolve_session_token_with(config, persisted, fresh);
    proof {
        if needs_new {
            law_generated_token_round_trip(f);
        }
    }
    p
}

/// The short form of a token for logs: `****` when the trimmed token is at
/// most 8 bytes long, else its first 4 bytes, `…` and its last 4 bytes.
pub open spec fn fingerprint_of(token: Seq<char>) -> Seq<char> {
    let b = encode_utf8(trimmed(token));
    if b.len() <= 8 {
        "****"@
    } else {
        decode_utf8(b.take(4)) + "…"@ + decode_utf8(b.skip(b.len() - 4))
    }
}

/// The trimmed token can be cut 4 bytes from either end: the bytes there
/// start characters.
pub open spec fn fingerprint_cuttable(token: Seq<char>) -> bool {
    let b = encode_utf8(trimmed(token));
    b.len() > 8 ==> is_char_boundary(b, 4) && is_char_boundary(b, b.len() - 4)
}

/// A short form of the token for logs, which does not print it whole.
pub fn token_fingerprint(token: &str) -> (r: String)
    requires
        fingerprint_cuttable(token@),
    ensures
        r@ == fingerprint_of(token@),
{
    let t = trim(token);
    let n = t.as_bytes().len();
    if n <= 8 {
        return owned("****");
    }
    let (head, _) = t.split_at(4);
    let (_, tail) = t.split_at(n - 4);
    proof {
        broadcast use vstd::utf8::encode_utf8_decode_utf8;
        assert(head@ == decode_utf8(encode_utf8(head@)));
        assert(tail@ == decode_utf8(encode_utf8(tail@)));
        assert(encode_utf8(t@).skip(n - 4) =~= encode_utf8(t@).subrange(n - 4, n as int));
    }
    concat3(head, "…", tail)
}

/// One step of the comparison: the running difference stays zero exactly
/// while the bytes agree.
proof fn lemma_or_xor_zero(d: u8, x: u8, y: u8)
    ensures
        ((d | (x ^ y)) == 0) == (d == 0 && x == y),
{
    assert(((d | (x ^ y)) == 0) == (d == 0 && x == y)) by (bit_vector);
}

/// Compares two tokens in time that does not depend on where they differ.
pub fn tokens_equal(a: &str, b: &str) -> (r: bool)
    ensures
        r == (a@ == b@),
{
    let ab = a.as_bytes();
    let bb = b.as_bytes();
    proof {
        broadcast use vstd::utf8::encode_utf8_decode_utf8;
        assert(decode_utf8(encode_utf8(a@)) == a@);
        assert(decode_utf8(encode_utf8(b@)) == b@);
    }
    if ab.len() != bb.len() {
        // one more pass over up to 32 bytes, so that a length mismatch is not
        // answered at once
        let mut acc: u8 = (ab.len() as u8) ^ (bb.len() as u8);
        let mut seen: usize = 0;
        let mut i: usize = 0;
        while i < ab.len() && seen < 32
            invariant
                seen == i,
                seen <= 32,
                i <= ab@.len(),
            decreases ab@.len() - i,
        {
            acc = acc | ab[i];
            seen += 1;
            i += 1;
        }
        let mut j: usize = 0;
        while j < bb.len() && seen < 32
            invariant
                j <= bb@.len(),
                seen <= 32,
            decreases bb@.len() - j,
        {
            acc = acc | bb[j];
            seen += 1;
            j += 1;
        }
        let _ = acc;
        return false;
    }
    let n = ab.len();
    let mut diff: u8 = 0;
    let mut i: usize = 0;
    while i < n
        invariant
            n == ab@.len(),
            n == bb@.len(),
            i <= n,
            (diff == 0) == (forall|j: int| 0 <= j < i ==> ab@[j] == bb@[j]),
        decreases n - i,
    {
        proof {
            lemma_or_xor_zero(diff, ab@[i as int], bb@[i as int]);
        }
        diff = diff | (ab[i] ^ bb[i]);
        i += 1;
    }
    if diff == 0 {
        assert(ab@ =~= bb@);
    }
    diff == 0
}

/// The message for an empty token in fixed mode.
pub open spec fn empty_fixed_token_message() -> Seq<char> {
    "固定模式下 token 不能为空"@
}

/// The outcome of a mode switch: the configuration to save first, then the
/// token to activate or the reason there is none.
#[derive(Debug)]
pub struct ModeSwitch {
    pub config: AppConfig,
    pub outcome: Result<TokenPlan, String>,
}

/// What a mode switch is owed, given the mode string, the token typed in,
/// the token in memory and the new token used in random mode.
pub open spec fn mode_switch_ok(
    mode: Seq<char>,
    current_token: Seq<char>,
    memory_token: Seq<char>,
    r: Result<ModeSwitch, String>,
    random_ok: spec_fn(TokenPlan) -> bool,
) -> bool {
    match (r, parse_mode_spec(mode)) {
        (Err(e), Err(f)) => e@ == f,
        (Ok(s), Ok(m)) => {
            &&& s.config.token_mode == m
            &&& m == TokenMode::Fixed ==> {
                let chosen = if trimmed(current_token).len() == 0 {
                    memory_token
                } else {
                    trimmed(current_token)
                };
                match s.outcome {
                    Ok(p) => chosen.len() > 0 && p.token@ == chosen && writes_token(p.file, chosen),
                    Err(e) => chosen.len() == 0 && e@ == empty_fixed_token_message(),
                }
            }
            &&& m == TokenMode::Random ==> (s.outcome matches Ok(p) && random_ok(p))
        },
        _ => false,
    }
}

/// Plans a switch of the token mode (the `set_token_mode` command), with
/// `fresh` as the new token of random mode.
///
/// - `fixed`: the trimmed `current_token`, or the token in memory when that
///   is empty; it is written to the token file
/// - `random`: the fresh token, and the token file is removed
///
/// An unknown mode is refused before anything is saved.
pub fn plan_token_mode_with(mode: &str, current_token: &str, memory_token: &str, fresh: String) -> (r:
    Result<ModeSwitch, String>)
    ensures
        mode_switch_ok(
            mode@,
            current_token@,
            memory_token@,
            r,
            |p: TokenPlan| p.token@ == fresh@ && p.file is Clear,
        ),
{
    let m = TokenMode::parse(mode)?;
    let config = AppConfig { token_mode: m };
    let outcome = match m {
        TokenMode::Fixed => {
            let trimmed_current = trim(current_token);
            let token = if trimmed_current.is_empty() {
                owned(memory_token)
            } else {
                owned(trimmed_current)
            };
            if token.as_str().is_empty() {
                Err(owned("固定模式下 token 不能为空"))
            } else {
                let op = write_op(token.as_str());
                Ok(TokenPlan { token, file: op })
            }
        },
        TokenMode::Random => Ok(TokenPlan { token: fresh, file: TokenFileOp::Clear }),
    };
    Ok(ModeSwitch { config, outcome })
}

/// Plans a switch of the token mode (the `set_token_mode` command).
///
/// - `fixed`: the trimmed `current_token`, or the token in memory when that
///   is empty; it is written to the token file
/// - `random`: a new token, and the token file is removed
///
/// An unknown mode is refused before anything is saved.
pub fn plan_token_mode(mode: &str, current_token: &str, memory_token: &str) -> (r: Result<
    ModeSwitch,
    String,
>)
    ensures
        mode_switch_ok(
            mode@,
            current_token@,
            memory_token@,
            r,
            |p: TokenPlan| is_uuid_v4_text(p.token@) && p.file is Clear,
        ),
        is_trimmed_token(memory_token@) ==> (r matches Ok(s) ==> (s.outcome matches Ok(p)
            ==> is_trimmed_token(p.token@))),
{
    let fresh = match TokenMode::parse(mode) {
        Ok(TokenMode::Random) => generate_token(),
        _ => String::new(),
    };
    let ghost f = fresh@;
    let r = plan_token_mode_with(mode, current_token, memory_token, fresh);
    proof {
        if parse_mode_spec(mode@) == Ok::<TokenMode, Seq<char>>(TokenMode::Random) {
            assert(is_uuid_v4_text(f));
            law_generated_token_round_trip(f);
        }
        lemma_trimmed_idempotent(current_token@);
    }
    r
}

/// Plans a forced rotation (the `rotate_token` command) with `fresh` as the
/// new token: written to the token file in fixed mode, the token file removed
/// in random mode.
pub fn plan_rotation_with(mode: TokenMode, fresh: String) -> (p: TokenPlan)
    ensures
        p.token@ == fresh@,
        mode == TokenMode::Fixed ==> writes_token(p.file, fresh@),
        mode == TokenMode::Random ==> p.file is Clear,
{
    match mode {
        TokenMode::Fixed => {
            let op = write_op(fresh.as_str());
            TokenPlan { token: fresh, file: op }
        },
        TokenMode::Random => TokenPlan { token: fresh, file: TokenFileOp::Clear },
    }
}

/// Plans a forced rotation (the `rotate_token` command): a new token, written
/// to the token file in fixed mode, the token file removed in random mode.
pub fn plan_rotation(mode: TokenMode) -> (p: TokenPlan)
    ensures
        is_uuid_v4_text(p.token@),
        is_trimmed_token(p.token@),
        mode == TokenMode::Fixed ==> writes_token(p.file, p.token@),
        mode == TokenMode::Random ==> p.file is Clear,
{
    let fresh = generate_token();
    proof {
        law_generated_token_round_trip(fresh@);
    }
    plan_rotation_with(mode, fresh)
}

/// The token information for the UI: the token is reported as persisted when
/// the mode is fixed and the token file holds a token.
pub fn token_info(token: String, mode: TokenMode, file_has_token: bool) -> (i: TokenInfo)
    ensures
        i.token == token,
        i.mode == mode,
        i.persisted == (mode == TokenMode::Fixed && file_has_token),
{
    let persisted = match mode {
        TokenMode::Fixed => file_has_token,
        TokenMode::Random => false,
    };
    TokenInfo { token, mode, persisted }
}

/// A token written in fixed mode is read back unchanged at the next start:
/// the file holds the trimmed token, and reading the file gives it back.
pub proof fn law_fixed_token_survives_restart(token: Seq<char>)
    requires
        trimmed(token).len() > 0,
    ensures
        persisted_token(Some(trimmed(token))) == Some(trimmed(token)),
{
    lemma_trimmed_idempotent(token);
}

/// A generated token has no surrounding whitespace, so the token file holds
/// it exactly and it is read back as itself.
pub proof fn law_generated_token_round_trip(token: Seq<char>)
    requires
        is_uuid_v4_text(token),
    ensures
        trimmed(token) == token,
        persisted_token(Some(token)) == Some(token),
{
    assert(!is_ws(token[0])) by {
        assert(is_lower_hex(token[0]));
    }
    assert(!is_ws(token.last())) by {
        assert(is_lower_hex(token[35]));
    }
}

} // verus!
