//! Auth token format, candidate parsing and constant-time hash checks.
//!
//! Tokens are issued as `odtk_<id>_<secret>`; only salted SHA-256 hashes of the
//! secret are stored.
use vstd::prelude::*;

use crate::text::{
    clone_opt_string, copy_str, has_prefix, is_ws, lemma_trim_len, push_char, str_eq, str_less, text_less, to_chars, trim,
    trim_bounds, trim_end, trim_start,
};
use vstd::utf8::encode_utf8;

use base64::Engine;
use ring::rand::SecureRandom;

verus! {

/// Length of a stored token hash.
pub const HASH_BYTES: usize = 32;

/// Length of a stored token salt.
pub const TOKEN_SALT_BYTES: usize = 16;

/// At most this many `id`/`secret` splits of a presented token are tried.
pub const MAX_TOKEN_DELIMITERS_TO_TRY: usize = 64;

/// A freshly issued token: its id and the full bearer value.
#[derive(Debug, Clone)]
pub struct IssuedToken {
    pub id: String,
    pub token: String,
}

/// A stored token as listed to administrators.
#[derive(Debug, Clone)]
pub struct TokenRecord {
    pub id: String,
    pub label: Option<String>,
    pub created_at: String,
    pub last_used_at: Option<String>,
    pub expires_at: Option<String>,
    pub revoked_at: Option<String>,
}

/// Byte `i` of `s`, or `0` past its end.
pub open spec fn byte_or_zero(s: Seq<u8>, i: int) -> u8 {
    if 0 <= i < s.len() { s[i] } else { 0 }
}

proof fn lemma_bits_or_zero(a: usize, b: usize)
    ensures
        (a | b) == 0 <==> (a == 0 && b == 0),
{
    assert((a | b) == 0usize <==> (a == 0usize && b == 0usize)) by (bit_vector);
}

proof fn lemma_xor_zero_u8(a: u8, b: u8)
    ensures
        ((a ^ b) as usize == 0) <==> a == b,
{
    assert(((a ^ b) as usize == 0usize) <==> a == b) by (bit_vector);
}

proof fn lemma_xor_zero_usize(a: usize, b: usize)
    ensures
        (a ^ b) == 0 <==> a == b,
{
    assert((a ^ b) == 0usize <==> a == b) by (bit_vector);
}

/// Compares two byte strings in time that depends only on their lengths.
pub fn constant_time_eq(left: &[u8], right: &[u8]) -> (r: bool)
    ensures
        r == (left@ == right@),
{
    let max_len: usize = if left.len() >= right.len() { left.len() } else { right.len() };
    let mut diff: usize = left.len() ^ right.len();
    proof {
        lemma_xor_zero_usize(left.len(), right.len());
    }
    let mut idx: usize = 0;
    while idx < max_len
        invariant
            max_len == if left@.len() >= right@.len() { left@.len() } else { right@.len() },
            idx <= max_len,
            (diff == 0) == (left@.len() == right@.len() && forall|j: int|
                0 <= j < idx ==> byte_or_zero(left@, j) == byte_or_zero(right@, j)),
        decreases max_len - idx,
    {
        let lhs: u8 = if idx < left.len() { left[idx] } else { 0 };
        let rhs: u8 = if idx < right.len() { right[idx] } else { 0 };
        let x: usize = (lhs ^ rhs) as usize;
        proof {
            lemma_xor_zero_u8(lhs, rhs);
            lemma_bits_or_zero(diff, x);
            assert(lhs == byte_or_zero(left@, idx as int));
            assert(rhs == byte_or_zero(right@, idx as int));
        }
        diff = diff | x;
        idx = idx + 1;
    }
    proof {
        if diff == 0 {
            assert forall|j: int| 0 <= j < left@.len() implies left@[j] == right@[j] by {
                assert(byte_or_zero(left@, j) == byte_or_zero(right@, j));
            }
            assert(left@ =~= right@);
        } else if left@ == right@ {
            assert forall|j: int| 0 <= j < idx implies byte_or_zero(left@, j) == byte_or_zero(
                right@,
                j,
            ) by {}
        }
    }
    diff == 0
}


/// The part of a presented token after `odtk_` (surrounding whitespace ignored).
pub open spec fn token_payload(token: Seq<char>) -> Option<Seq<char>> {
    let t = trim(token);
    if has_prefix(t, seq!['o', 'd', 't', 'k', '_']) {
        Some(t.subrange(5, t.len() as int))
    } else {
        None
    }
}

/// `(id, secret)` splits of `p` at each `_` before position `n`, left to right,
/// skipping splits with an empty id or secret.
pub open spec fn splits_upto(p: Seq<char>, n: nat) -> Seq<(Seq<char>, Seq<char>)>
    decreases n,
{
    if n == 0 {
        Seq::empty()
    } else {
        let prev = splits_upto(p, (n - 1) as nat);
        let idx = n - 1;
        if idx < p.len() && p[idx] == '_' && idx > 0 && idx + 1 < p.len() {
            prev.push((p.subrange(0, idx), p.subrange(idx + 1, p.len() as int)))
        } else {
            prev
        }
    }
}

/// Candidate `(id, secret)` pairs of a presented token: at most the first 64 splits,
/// latest delimiter first.
pub open spec fn token_candidates(token: Seq<char>) -> Seq<(Seq<char>, Seq<char>)> {
    match token_payload(token) {
        None => Seq::empty(),
        Some(p) => {
            let all = splits_upto(p, p.len());
            let kept = if all.len() <= 64 {
                all
            } else {
                all.take(64)
            };
            kept.reverse()
        },
    }
}

proof fn lemma_splits_prefix(p: Seq<char>, n: nat, m: nat)
    requires
        n <= m,
    ensures
        splits_upto(p, n).len() <= splits_upto(p, m).len(),
        splits_upto(p, m).subrange(0, splits_upto(p, n).len() as int) == splits_upto(p, n),
    decreases m,
{
    if n < m {
        lemma_splits_prefix(p, n, (m - 1) as nat);
        let a = splits_upto(p, n);
        let b = splits_upto(p, (m - 1) as nat);
        let c = splits_upto(p, m);
        assert(c.subrange(0, a.len() as int) =~= b.subrange(0, a.len() as int));
    } else {
        assert(splits_upto(p, m).subrange(0, splits_upto(p, m).len() as int) =~= splits_upto(p, m));
    }
}

/// Splits a presented bearer token into candidate `(id, secret)` pairs.
pub fn parse_token_candidates(token: &str) -> (r: Vec<(&str, &str)>)
    ensures
        r@.len() == token_candidates(token@).len(),
        forall|k: int|
            0 <= k < r@.len() ==> (#[trigger] r@[k]).0@ == token_candidates(token@)[k].0 && r@[k].1@
                == token_candidates(token@)[k].1,
{
    let chars = to_chars(token);
    let (lo, hi) = trim_bounds(&chars);
    let ghost t = trim(token@);
    let mut empty: Vec<(&str, &str)> = Vec::new();
    if hi - lo < 5 || chars[lo] != 'o' || chars[lo + 1] != 'd' || chars[lo + 2] != 't' || chars[lo
        + 3] != 'k' || chars[lo + 4] != '_' {
        proof {
            if has_prefix(t, seq!['o', 'd', 't', 'k', '_']) {
                assert(t.subrange(0, 5)[0] == t[0]);
                assert(t.subrange(0, 5)[1] == t[1]);
                assert(t.subrange(0, 5)[2] == t[2]);
                assert(t.subrange(0, 5)[3] == t[3]);
                assert(t.subrange(0, 5)[4] == t[4]);
            }
        }
        return empty;
    }
    let ps: usize = lo + 5;
    let ghost p = t.subrange(5, t.len() as int);
    proof {
        assert(t.subrange(0, 5) =~= seq!['o', 'd', 't', 'k', '_']);
        assert(token_payload(token@) == Some(p));
        assert forall|k: int| 0 <= k < p.len() implies p[k] == chars@[ps + k] by {}
    }
    let mut out: Vec<(&str, &str)> = Vec::new();
    let mut idx: usize = ps;
    while idx < hi
        invariant
            lo + 5 == ps <= idx <= hi <= chars@.len(),
            chars@ == token@,
            p == chars@.subrange(ps as int, hi as int),
            out@.len() <= 64,
            out@.len() == if splits_upto(p, (idx - ps) as nat).len() <= 64 {
                splits_upto(p, (idx - ps) as nat).len()
            } else {
                64
            },
            forall|k: int|
                0 <= k < out@.len() ==> (#[trigger] out@[k]).0@ == splits_upto(p, (idx - ps) as nat)[k].0
                    && out@[k].1@ == splits_upto(p, (idx - ps) as nat)[k].1,
        ensures
            idx >= hi || out@.len() == 64,
        decreases hi - idx,
    {
        if chars[idx] != '_' {
            proof {
                assert(splits_upto(p, (idx + 1 - ps) as nat) == splits_upto(p, (idx - ps) as nat));
            }
            idx = idx + 1;
            continue;
        }
        if out.len() >= 64 {
            proof {
                lemma_splits_prefix(p, (idx - ps) as nat, p.len());
            }
            break;
        }
        if idx > ps && idx + 1 < hi {
            let id = token.substring_char(ps, idx);
            let secret = token.substring_char(idx + 1, hi);
            proof {
                assert(id@ =~= p.subrange(0, idx - ps));
                assert(secret@ =~= p.subrange(idx + 1 - ps, p.len() as int));
            }
            out.push((id, secret));
        }
        idx = idx + 1;
    }
    proof {
        if idx >= hi {
            assert(idx - ps == p.len());
        }
        let all = splits_upto(p, p.len());
        lemma_splits_prefix(p, (idx - ps) as nat, p.len());
    }
    let n = out.len();
    let mut rev: Vec<(&str, &str)> = Vec::new();
    let mut j: usize = 0;
    while j < n
        invariant
            n == out@.len(),
            j <= n,
            rev@.len() == j,
            forall|k: int| 0 <= k < j ==> (#[trigger] rev@[k]) == out@[n - 1 - k],
        decreases n - j,
    {
        rev.push(out[n - 1 - j]);
        j = j + 1;
    }
    proof {
        let all = splits_upto(p, p.len());
        let kept = if all.len() <= 64 { all } else { all.take(64) };
        assert(kept.len() == n);
        assert forall|k: int| 0 <= k < n implies #[trigger] kept[k] == splits_upto(p, (idx - ps) as nat)[k] by {
            lemma_splits_prefix(p, (idx - ps) as nat, p.len());
            assert(all.subrange(0, splits_upto(p, (idx - ps) as nat).len() as int)[k] == all[k]);
        }
        assert(token_candidates(token@) == kept.reverse());
        assert forall|k: int| 0 <= k < n implies (#[trigger] rev@[k]).0@ == token_candidates(token@)[k].0
            && rev@[k].1@ == token_candidates(token@)[k].1 by {
            assert(kept.reverse()[k] == kept[n - 1 - k]);
        }
    }
    rev
}


/// SHA-256 digest of a byte string.
pub uninterp spec fn sha256(data: Seq<u8>) -> Seq<u8>;

/// `ring`'s SHA-256 over two parts fed in order (`Context::update` twice, then `finish`),
/// which equals the digest of their concatenation; the digest is 32 bytes long.
#[verifier::external_body]
fn sha256_of_parts(first: &[u8], second: &[u8]) -> (r: Vec<u8>)
    requires
        first@.len() + second@.len() < 0x2000_0000_0000_0000,
    ensures
        r@ == sha256(first@ + second@),
        r@.len() == 32,
{
    let mut context = ring::digest::Context::new(&ring::digest::SHA256);
    context.update(first);
    context.update(second);
    context.finish().as_ref().to_vec()
}

/// Salted hash of a token secret: SHA-256 of the salt followed by the secret's UTF-8 bytes.
pub fn hash_secret(salt: &[u8], secret: &str) -> (r: Vec<u8>)
    requires
        salt@.len() + encode_utf8(secret@).len() < 0x2000_0000_0000_0000,
    ensures
        r@ == sha256(salt@ + encode_utf8(secret@)),
        r@.len() == 32,
{
    sha256_of_parts(salt, secret.as_bytes())
}

/// Hash and salt stored for a token id.
#[derive(Debug, Clone)]
pub struct StoredTokenHash {
    pub token_hash: Vec<u8>,
    pub token_salt: Vec<u8>,
}

/// Whether the stored row for a candidate id accepts the candidate's secret.
pub open spec fn stored_accepts(stored: Option<StoredTokenHash>, secret: Seq<char>) -> bool {
    match stored {
        Some(s) => s.token_hash@.len() == 32 && s.token_salt@.len() == 16 && s.token_hash@
            == sha256(s.token_salt@ + encode_utf8(secret)),
        None => false,
    }
}

/// Among the candidates of a presented token, with the active stored row looked up for
/// each candidate's id (`None` when there is none), the first one whose secret matches.
pub fn select_matching_candidate(
    candidates: &Vec<(&str, &str)>,
    stored: &Vec<Option<StoredTokenHash>>,
) -> (r: Option<usize>)
    requires
        candidates@.len() == stored@.len(),
        forall|k: int|
            0 <= k < candidates@.len() ==> encode_utf8((#[trigger] candidates@[k]).1@).len()
                < 0x1000_0000_0000_0000,
    ensures
        match r {
            Some(i) => i < candidates@.len() && stored_accepts(stored@[i as int], candidates@[i as int].1@)
                && forall|k: int|
                0 <= k < i ==> !stored_accepts(#[trigger] stored@[k], candidates@[k].1@),
            None => forall|k: int|
                0 <= k < candidates@.len() ==> !stored_accepts(#[trigger] stored@[k], candidates@[k].1@),
        },
{
    let mut i: usize = 0;
    while i < candidates.len()
        invariant
            candidates@.len() == stored@.len(),
            i <= candidates@.len(),
            forall|k: int|
                0 <= k < candidates@.len() ==> encode_utf8((#[trigger] candidates@[k]).1@).len()
                    < 0x1000_0000_0000_0000,
            forall|k: int| 0 <= k < i ==> !stored_accepts(#[trigger] stored@[k], candidates@[k].1@),
        decreases candidates.len() - i,
    {
        let (_, secret) = candidates[i];
        match &stored[i] {
            Some(row) => {
                if row.token_hash.len() == HASH_BYTES && row.token_salt.len() == TOKEN_SALT_BYTES {
                    proof {
                        assert(encode_utf8(candidates@[i as int].1@).len() < 0x1000_0000_0000_0000);
                    }
                    let candidate_hash = hash_secret(row.token_salt.as_slice(), secret);
                    if constant_time_eq(row.token_hash.as_slice(), candidate_hash.as_slice()) {
                        return Some(i);
                    }
                }
            },
            None => {},
        }
        i = i + 1;
    }
    None
}

/// The bearer value of a token: `odtk_<id>_<secret>`.
pub open spec fn token_text(id: Seq<char>, secret: Seq<char>) -> Seq<char> {
    seq!['o', 'd', 't', 'k', '_'] + id + seq!['_'] + secret
}

/// Formats an issued token's bearer value.
pub fn format_token(id: &str, secret: &str) -> (r: String)
    ensures
        r@ == token_text(id@, secret@),
{
    let mut r = String::new();
    push_char(&mut r, 'o');
    push_char(&mut r, 'd');
    push_char(&mut r, 't');
    push_char(&mut r, 'k');
    push_char(&mut r, '_');
    r.append(id);
    push_char(&mut r, '_');
    r.append(secret);
    proof {
        assert(r@ =~= token_text(id@, secret@));
    }
    r
}

proof fn lemma_splits_len_bound(p: Seq<char>, n: nat)
    ensures
        splits_upto(p, n).len() <= if n == 0 { 0 } else { n - 1 },
    decreases n,
{
    if n > 0 {
        lemma_splits_len_bound(p, (n - 1) as nat);
    }
}

/// An issued token is accepted by the parser: for an id of 1 to 64 characters and a
/// non-empty secret that does not end in whitespace, the candidates of
/// `odtk_<id>_<secret>` include `(id, secret)`.
pub proof fn issued_token_parses_back(id: Seq<char>, secret: Seq<char>)
    requires
        1 <= id.len() <= 64,
        secret.len() >= 1,
        !is_ws(secret.last()),
    ensures
        exists|k: int|
            0 <= k < token_candidates(token_text(id, secret)).len() && #[trigger] token_candidates(
                token_text(id, secret),
            )[k] == (id, secret),
{
    let t = token_text(id, secret);
    assert(t[0] == 'o');
    assert(t.last() == secret.last());
    assert(trim_start(t) == t);
    assert(trim_end(t) == t);
    assert(trim(t) == t);
    assert(t.subrange(0, 5) =~= seq!['o', 'd', 't', 'k', '_']);
    let p = t.subrange(5, t.len() as int);
    assert(p =~= id + seq!['_'] + secret);
    assert(token_payload(t) == Some(p));
    let l = id.len();
    lemma_splits_len_bound(p, l);
    let before = splits_upto(p, l);
    let c = before.len();
    assert(p[l as int] == '_');
    assert(p.subrange(0, l as int) =~= id);
    assert(p.subrange((l + 1) as int, p.len() as int) =~= secret);
    let with = splits_upto(p, (l + 1) as nat);
    assert(with == before.push((id, secret)));
    lemma_splits_prefix(p, (l + 1) as nat, p.len());
    let all = splits_upto(p, p.len());
    assert(all.subrange(0, with.len() as int)[c as int] == all[c as int]);
    assert(all[c as int] == (id, secret));
    let kept = if all.len() <= 64 { all } else { all.take(64) };
    assert(c < 64);
    assert(kept[c as int] == (id, secret));
    let k = kept.len() - 1 - c;
    assert(kept.reverse()[k] == kept[c as int]);
    assert(token_candidates(t)[k] == (id, secret));
}


/// Characters of the URL-safe base64 alphabet.
pub open spec fn is_url_safe_b64(c: char) -> bool {
    ('A' <= c && c <= 'Z') || ('a' <= c && c <= 'z') || ('0' <= c && c <= '9') || c == '-' || c
        == '_'
}

/// URL-safe, unpadded base64 encoding of a byte string.
pub uninterp spec fn base64_url_no_pad(bytes: Seq<u8>) -> Seq<char>;

/// `base64`'s `URL_SAFE_NO_PAD.encode`: the output uses only the URL-safe alphabet and,
/// without padding, has `ceil(4n/3)` characters for `n` input bytes.
#[verifier::external_body]
fn encode_url_safe_no_pad(bytes: &[u8]) -> (r: String)
    requires
        bytes@.len() <= 0x1000_0000,
    ensures
        r@ == base64_url_no_pad(bytes@),
        r@.len() == (4 * bytes@.len() + 2) / 3,
        forall|i: int| 0 <= i < r@.len() ==> is_url_safe_b64(#[trigger] r@[i]),
{
    base64::engine::general_purpose::URL_SAFE_NO_PAD.encode(bytes)
}

/// `len` bytes from `ring::rand::SystemRandom::fill`, or `None` when the system source fails.
/// The bytes themselves are unknown.
#[verifier::external_body]
fn secure_random_bytes(len: usize) -> (r: Option<Vec<u8>>)
    ensures
        r matches Some(v) ==> v@.len() == len,
{
    let rng = ring::rand::SystemRandom::new();
    let mut bytes = vec![0u8; len];
    match rng.fill(&mut bytes) {
        Ok(()) => Some(bytes),
        Err(_) => None,
    }
}

/// Freshly generated material for one token.
#[derive(Debug, Clone)]
pub struct TokenMaterial {
    pub id: String,
    pub secret: String,
    pub salt: Vec<u8>,
    pub hash: Vec<u8>,
    pub token: String,
}

/// Token material made from given bytes: the id and secret are their URL-safe base64
/// texts, the salt is kept as given, the hash is SHA-256 of the salt followed by the
/// secret's UTF-8 bytes, and the bearer value is `odtk_<id>_<secret>`.
pub open spec fn is_material_of(
    m: TokenMaterial,
    id_bytes: Seq<u8>,
    secret_bytes: Seq<u8>,
    salt: Seq<u8>,
) -> bool {
    &&& m.id@ == base64_url_no_pad(id_bytes)
    &&& m.secret@ == base64_url_no_pad(secret_bytes)
    &&& m.salt@ == salt
    &&& m.hash@ == sha256(salt + encode_utf8(m.secret@))
    &&& m.token@ == token_text(m.id@, m.secret@)
}

/// Builds token material from the bytes drawn for it; see `is_material_of`. With a
/// non-empty id of at most 48 bytes, a non-empty secret and a 16-byte salt, the bearer
/// value parses back to its id and secret and the stored hash accepts the secret.
pub fn token_material_from(id_bytes: &[u8], secret_bytes: &[u8], salt: Vec<u8>) -> (m: TokenMaterial)
    requires
        id_bytes@.len() <= 0x1000_0000,
        secret_bytes@.len() <= 0x1000_0000,
        salt@.len() <= 0x1000_0000,
    ensures
        is_material_of(m, id_bytes@, secret_bytes@, salt@),
        m.id@.len() == (4 * id_bytes@.len() + 2) / 3,
        m.secret@.len() == (4 * secret_bytes@.len() + 2) / 3,
        salt@.len() == 16 ==> stored_accepts(
            Some(StoredTokenHash { token_hash: m.hash, token_salt: m.salt }),
            m.secret@,
        ),
        1 <= id_bytes@.len() <= 48 && secret_bytes@.len() >= 1 ==> exists|k: int|
            0 <= k < token_candidates(m.token@).len() && #[trigger] token_candidates(m.token@)[k] == (
                m.id@,
                m.secret@,
            ),
{
    let id = encode_url_safe_no_pad(id_bytes);
    let secret = encode_url_safe_no_pad(secret_bytes);
    proof {
        assert(vstd::utf8::is_ascii_chars(secret@)) by {
            assert forall|i: int| 0 <= i < secret@.len() implies '\0' <= #[trigger] secret@[i]
                <= '\u{7f}' by {
                assert(is_url_safe_b64(secret@[i]));
            }
        }
        vstd::utf8::is_ascii_chars_encode_utf8(secret@);
    }
    let hash = hash_secret(salt.as_slice(), secret.as_str());
    let token = format_token(id.as_str(), secret.as_str());
    proof {
        if 1 <= id_bytes@.len() <= 48 && secret_bytes@.len() >= 1 {
            let n = id_bytes@.len() as int;
            assert(1 <= (4 * n + 2) / 3 <= 64) by (nonlinear_arith)
                requires 1 <= n <= 48;
            let q = secret_bytes@.len() as int;
            assert((4 * q + 2) / 3 >= 1) by (nonlinear_arith)
                requires q >= 1;
            assert(is_url_safe_b64(secret@[secret@.len() - 1]));
            issued_token_parses_back(id@, secret@);
        }
    }
    let ghost (token_view, id_view, secret_view) = (token@, id@, secret@);
    let m = TokenMaterial { id, secret, salt, hash, token };
    assert(m.token@ == token_view && m.id@ == id_view && m.secret@ == secret_view);
    m
}

/// Generates a token from fresh random bytes: a 9-byte id, a 32-byte secret and a
/// 16-byte salt, made into material by `token_material_from`. `None` when the system
/// random source fails. Whatever the bytes drawn, the bearer value parses back to its
/// id and secret, and the stored hash accepts the secret.
pub fn generate_token_material() -> (r: Option<TokenMaterial>)
    ensures
        r matches Some(m) ==> {
            &&& exists|id_bytes: Seq<u8>, secret_bytes: Seq<u8>, salt: Seq<u8>|
                id_bytes.len() == 9 && secret_bytes.len() == 32 && salt.len() == 16
                    && #[trigger] is_material_of(m, id_bytes, secret_bytes, salt)
            &&& m.id@.len() == 12
            &&& m.secret@.len() == 43
            &&& stored_accepts(
                Some(StoredTokenHash { token_hash: m.hash, token_salt: m.salt }),
                m.secret@,
            )
            &&& exists|k: int|
                0 <= k < token_candidates(m.token@).len() && #[trigger] token_candidates(
                    m.token@,
                )[k] == (m.id@, m.secret@)
        },
{
    let id_bytes = match secure_random_bytes(9) {
        Some(b) => b,
        None => return None,
    };
    let secret_bytes = match secure_random_bytes(32) {
        Some(b) => b,
        None => return None,
    };
    let salt = match secure_random_bytes(16) {
        Some(b) => b,
        None => return None,
    };
    let ghost (ib, sb, sl) = (id_bytes@, secret_bytes@, salt@);
    let m = token_material_from(id_bytes.as_slice(), secret_bytes.as_slice(), salt);
    assert(is_material_of(m, ib, sb, sl));
    Some(m)
}

/// An optional token label with surrounding whitespace removed; blank labels are dropped.
pub fn normalize_label(label: Option<&str>) -> (r: Option<String>)
    ensures
        match label {
            Some(l) => if trim(l@).len() == 0 {
                r is None
            } else {
                r matches Some(v) && v@ == trim(l@)
            },
            None => r is None,
        },
{
    match label {
        Some(l) => {
            let t = crate::text::trim_str(l);
            if t.as_str().unicode_len() == 0 {
                None
            } else {
                Some(t)
            }
        },
        None => None,
    }
}


// ---------------------------------------------------------------------------
// The token table: what its queries count, list, revoke and accept.
// ---------------------------------------------------------------------------

/// Whether a token is usable at time `now`: not revoked, and with no expiry or one
/// after `now`. Timestamps are ISO-8601 text and compare as text.
pub open spec fn token_is_active(
    expires_at: Option<String>,
    revoked_at: Option<String>,
    now: Seq<char>,
) -> bool {
    &&& revoked_at is None
    &&& match expires_at {
        Some(e) => text_less(now, e@),
        None => true,
    }
}

/// Number of records active at `now`.
pub open spec fn count_active(rows: Seq<TokenRecord>, now: Seq<char>) -> nat
    decreases rows.len(),
{
    if rows.len() == 0 {
        0
    } else {
        count_active(rows.drop_last(), now) + if token_is_active(
            rows.last().expires_at,
            rows.last().revoked_at,
            now,
        ) {
            1nat
        } else {
            0nat
        }
    }
}

fn optional_is_active(expires_at: &Option<String>, revoked_at: &Option<String>, now: &str) -> (b:
    bool)
    ensures
        b == token_is_active(*expires_at, *revoked_at, now@),
{
    if revoked_at.is_some() {
        return false;
    }
    match expires_at {
        Some(e) => str_less(now, e.as_str()),
        None => true,
    }
}

/// Number of tokens that are active at `now`, the current time as ISO-8601 text.
pub fn active_token_count(rows: &Vec<TokenRecord>, now: &str) -> (n: i64)
    requires
        rows@.len() < i64::MAX,
    ensures
        n == count_active(rows@, now@),
{
    let mut n: i64 = 0;
    let mut i: usize = 0;
    while i < rows.len()
        invariant
            i <= rows@.len() < i64::MAX,
            n == count_active(rows@.take(i as int), now@),
            n <= i,
        decreases rows.len() - i,
    {
        proof {
            assert(rows@.take(i + 1).drop_last() =~= rows@.take(i as int));
        }
        if optional_is_active(&rows[i].expires_at, &rows[i].revoked_at, now) {
            n = n + 1;
        }
        i = i + 1;
    }
    proof {
        assert(rows@.take(i as int) =~= rows@);
    }
    n
}

fn clone_record(r: &TokenRecord) -> (c: TokenRecord)
    ensures
        c == *r,
{
    TokenRecord {
        id: r.id.clone(),
        label: clone_opt_string(&r.label),
        created_at: r.created_at.clone(),
        last_used_at: clone_opt_string(&r.last_used_at),
        expires_at: clone_opt_string(&r.expires_at),
        revoked_at: clone_opt_string(&r.revoked_at),
    }
}

/// Number of records not yet revoked.
pub open spec fn count_unrevoked(rows: Seq<TokenRecord>) -> nat
    decreases rows.len(),
{
    if rows.len() == 0 {
        0
    } else {
        count_unrevoked(rows.drop_last()) + if rows.last().revoked_at is None {
            1nat
        } else {
            0nat
        }
    }
}

/// `after` is `before` revoked at `now` when it was not revoked yet, and unchanged otherwise.
pub open spec fn revoked_from(before: TokenRecord, after: TokenRecord, now: Seq<char>) -> bool {
    &&& after.id == before.id
    &&& after.label == before.label
    &&& after.created_at == before.created_at
    &&& after.last_used_at == before.last_used_at
    &&& after.expires_at == before.expires_at
    &&& match before.revoked_at {
        None => after.revoked_at matches Some(t) && t@ == now,
        Some(_) => after.revoked_at == before.revoked_at,
    }
}

/// Revokes every token not yet revoked, stamping it with `now`; how many were revoked.
pub fn revoke_all_tokens(rows: &mut Vec<TokenRecord>, now: &str) -> (n: u64)
    requires
        old(rows)@.len() < u64::MAX,
    ensures
        final(rows)@.len() == old(rows)@.len(),
        n == count_unrevoked(old(rows)@),
        forall|i: int|
            0 <= i < old(rows)@.len() ==> revoked_from(
                #[trigger] old(rows)@[i],
                final(rows)@[i],
                now@,
            ),
{
    let ghost before = rows@;
    let mut n: u64 = 0;
    let mut i: usize = 0;
    while i < rows.len()
        invariant
            before == old(rows)@,
            rows@.len() == before.len() < u64::MAX,
            i <= rows@.len(),
            n == count_unrevoked(before.take(i as int)),
            n <= i,
            forall|k: int| 0 <= k < i ==> revoked_from(#[trigger] before[k], rows@[k], now@),
            forall|k: int| i <= k < rows@.len() ==> #[trigger] rows@[k] == before[k],
        decreases rows.len() - i,
    {
        proof {
            assert(before.take(i + 1).drop_last() =~= before.take(i as int));
        }
        if rows[i].revoked_at.is_none() {
            let current = clone_record(&rows[i]);
            let updated = TokenRecord {
                id: current.id,
                label: current.label,
                created_at: current.created_at,
                last_used_at: current.last_used_at,
                expires_at: current.expires_at,
                revoked_at: Some(copy_str(now)),
            };
            rows.set(i, updated);
            n = n + 1;
        }
        i = i + 1;
    }
    proof {
        assert(before.take(i as int) =~= before);
    }
    n
}

/// A row of the token table as the bearer check reads it.
#[derive(Debug, Clone)]
pub struct StoredToken {
    pub id: String,
    pub token_hash: Vec<u8>,
    pub token_salt: Vec<u8>,
    pub expires_at: Option<String>,
    pub revoked_at: Option<String>,
}

/// The hash and salt of the first row with this id that is active at `now`.
pub open spec fn active_row_for(rows: Seq<StoredToken>, id: Seq<char>, now: Seq<char>) -> Option<
    StoredTokenHash,
>
    decreases rows.len(),
{
    if rows.len() == 0 {
        None
    } else if rows[0].id@ == id && token_is_active(rows[0].expires_at, rows[0].revoked_at, now) {
        Some(StoredTokenHash { token_hash: rows[0].token_hash, token_salt: rows[0].token_salt })
    } else {
        active_row_for(rows.drop_first(), id, now)
    }
}

/// The id of the first candidate, from `k` on, whose secret the active row for its id
/// accepts.
pub open spec fn first_accepted_from(
    candidates: Seq<(Seq<char>, Seq<char>)>,
    rows: Seq<StoredToken>,
    now: Seq<char>,
    k: nat,
) -> Option<Seq<char>>
    decreases candidates.len() - k,
{
    if k >= candidates.len() {
        None
    } else if stored_accepts(active_row_for(rows, candidates[k as int].0, now), candidates[k as int].1) {
        Some(candidates[k as int].0)
    } else {
        first_accepted_from(candidates, rows, now, k + 1)
    }
}

/// The id of the active token that a presented bearer value proves, if any.
pub open spec fn resolved_token_id(token: Seq<char>, rows: Seq<StoredToken>, now: Seq<char>) -> Option<
    Seq<char>,
> {
    first_accepted_from(token_candidates(token), rows, now, 0)
}

fn copy_bytes(v: &Vec<u8>) -> (r: Vec<u8>)
    ensures
        r@ == v@,
{
    let r = v.clone();
    proof {
        assert(r@ =~= v@);
    }
    r
}

/// The hash and salt of the first row with this id that is active at `now`.
fn lookup_active_row(rows: &Vec<StoredToken>, id: &str, now: &str) -> (r: Option<StoredTokenHash>)
    ensures
        match active_row_for(rows@, id@, now@) {
            None => r is None,
            Some(e) => r matches Some(h) && h.token_hash@ == e.token_hash@ && h.token_salt@
                == e.token_salt@,
        },
{
    let mut i: usize = 0;
    proof {
        assert(rows@.skip(0) =~= rows@);
    }
    while i < rows.len()
        invariant
            i <= rows@.len(),
            active_row_for(rows@, id@, now@) == active_row_for(rows@.skip(i as int), id@, now@),
        decreases rows.len() - i,
    {
        proof {
            assert(rows@.skip(i as int)[0] == rows@[i as int]);
            assert(rows@.skip(i as int).drop_first() =~= rows@.skip(i + 1));
        }
        let row = &rows[i];
        if str_eq(row.id.as_str(), id) && optional_is_active(&row.expires_at, &row.revoked_at, now) {
            return Some(
                StoredTokenHash {
                    token_hash: copy_bytes(&row.token_hash),
                    token_salt: copy_bytes(&row.token_salt),
                },
            );
        }
        i = i + 1;
    }
    None
}

proof fn lemma_encode_utf8_len(s: Seq<char>)
    ensures
        encode_utf8(s).len() <= 4 * s.len(),
    decreases s.len(),
{
    if s.len() > 0 {
        lemma_encode_utf8_len(s.drop_first());
    }
}

proof fn lemma_splits_secret_len(p: Seq<char>, n: nat, k: int)
    requires
        0 <= k < splits_upto(p, n).len(),
    ensures
        splits_upto(p, n)[k].1.len() <= p.len(),
    decreases n,
{
    if n > 0 {
        let prev = splits_upto(p, (n - 1) as nat);
        if k < prev.len() {
            lemma_splits_secret_len(p, (n - 1) as nat, k);
        }
    }
}

/// A candidate's secret is no longer than the presented token.
proof fn lemma_candidate_secret_len(token: Seq<char>, k: int)
    requires
        0 <= k < token_candidates(token).len(),
    ensures
        token_candidates(token)[k].1.len() <= token.len(),
{
    lemma_trim_len(token);
    let p = token_payload(token)->0;
    let all = splits_upto(p, p.len());
    let kept = if all.len() <= 64 {
        all
    } else {
        all.take(64)
    };
    let j = kept.len() - 1 - k;
    assert(token_candidates(token)[k] == kept[j]);
    assert(kept[j] == all[j]);
    lemma_splits_secret_len(p, p.len(), j);
}

/// The id of the active token, at time `now`, that a presented bearer value proves:
/// its candidates are tried latest delimiter first, each against the active row for
/// its id. The caller then records the use.
pub fn resolve_active_token_id(token: &str, rows: &Vec<StoredToken>, now: &str) -> (r: Option<
    String,
>)
    requires
        token@.len() <= 0x0100_0000_0000_0000,
    ensures
        match resolved_token_id(token@, rows@, now@) {
            Some(id) => r matches Some(v) && v@ == id,
            None => r is None,
        },
{
    let candidates = parse_token_candidates(token);
    let ghost cands = token_candidates(token@);
    let mut stored: Vec<Option<StoredTokenHash>> = Vec::new();
    let mut i: usize = 0;
    while i < candidates.len()
        invariant
            i <= candidates@.len() == cands.len(),
            cands == token_candidates(token@),
            forall|k: int|
                0 <= k < candidates@.len() ==> (#[trigger] candidates@[k]).0@ == cands[k].0
                    && candidates@[k].1@ == cands[k].1,
            stored@.len() == i,
            forall|k: int|
                0 <= k < i ==> stored_accepts(#[trigger] stored@[k], cands[k].1) == stored_accepts(
                    active_row_for(rows@, cands[k].0, now@),
                    cands[k].1,
                ),
        decreases candidates.len() - i,
    {
        let (id, _) = candidates[i];
        let row = lookup_active_row(rows, id, now);
        stored.push(row);
        i = i + 1;
    }
    proof {
        assert forall|k: int| 0 <= k < candidates@.len() implies encode_utf8(
            (#[trigger] candidates@[k]).1@,
        ).len() < 0x1000_0000_0000_0000 by {
            lemma_candidate_secret_len(token@, k);
            lemma_encode_utf8_len(cands[k].1);
        }
    }
    let chosen = select_matching_candidate(&candidates, &stored);
    proof {
        let n = cands.len();
        assert forall|j: nat| j <= n implies #[trigger] first_accepted_from(cands, rows@, now@, j)
            == match chosen {
            Some(c) => if j <= c {
                Some(cands[c as int].0)
            } else {
                first_accepted_from(cands, rows@, now@, j)
            },
            None => None::<Seq<char>>,
        } by {
            lemma_first_accepted(cands, rows@, now@, stored@, chosen, j);
        }
    }
    match chosen {
        Some(c) => {
            let (id, _) = candidates[c];
            Some(copy_str(id))
        },
        None => None,
    }
}

proof fn lemma_first_accepted(
    cands: Seq<(Seq<char>, Seq<char>)>,
    rows: Seq<StoredToken>,
    now: Seq<char>,
    stored: Seq<Option<StoredTokenHash>>,
    chosen: Option<usize>,
    j: nat,
)
    requires
        j <= cands.len(),
        stored.len() == cands.len(),
        forall|k: int|
            0 <= k < cands.len() ==> stored_accepts(#[trigger] stored[k], cands[k].1) == stored_accepts(
                active_row_for(rows, cands[k].0, now),
                cands[k].1,
            ),
        match chosen {
            Some(i) => i < cands.len() && stored_accepts(stored[i as int], cands[i as int].1)
                && forall|k: int| 0 <= k < i ==> !stored_accepts(#[trigger] stored[k], cands[k].1),
            None => forall|k: int|
                0 <= k < cands.len() ==> !stored_accepts(#[trigger] stored[k], cands[k].1),
        },
    ensures
        first_accepted_from(cands, rows, now, j) == match chosen {
            Some(c) => if j <= c {
                Some(cands[c as int].0)
            } else {
                first_accepted_from(cands, rows, now, j)
            },
            None => None::<Seq<char>>,
        },
    decreases cands.len() - j,
{
    if j < cands.len() {
        lemma_first_accepted(cands, rows, now, stored, chosen, j + 1);
        assert(stored_accepts(stored[j as int], cands[j as int].1) == stored_accepts(
            active_row_for(rows, cands[j as int].0, now),
            cands[j as int].1,
        ));
    }
}

/// Whether a presented bearer value proves an active token at time `now`.
pub fn verify_bearer_token(token: &str, rows: &Vec<StoredToken>, now: &str) -> (r: bool)
    requires
        token@.len() <= 0x0100_0000_0000_0000,
    ensures
        r == resolved_token_id(token@, rows@, now@) is Some,
{
    resolve_active_token_id(token, rows, now).is_some()
}

proof fn lemma_first_accepted_found(
    cands: Seq<(Seq<char>, Seq<char>)>,
    rows: Seq<StoredToken>,
    now: Seq<char>,
    j: nat,
    k: int,
)
    requires
        j <= k < cands.len(),
        stored_accepts(active_row_for(rows, cands[k].0, now), cands[k].1),
    ensures
        first_accepted_from(cands, rows, now, j) is Some,
    decreases k - j,
{
    if j < k {
        if !stored_accepts(active_row_for(rows, cands[j as int].0, now), cands[j as int].1) {
            lemma_first_accepted_found(cands, rows, now, j + 1, k);
        }
    }
}

proof fn lemma_first_accepted_is_candidate(
    cands: Seq<(Seq<char>, Seq<char>)>,
    rows: Seq<StoredToken>,
    now: Seq<char>,
    j: nat,
)
    ensures
        first_accepted_from(cands, rows, now, j) matches Some(id) ==> exists|k: int|
            j <= k < cands.len() && #[trigger] cands[k].0 == id && stored_accepts(
                active_row_for(rows, id, now),
                cands[k].1,
            ),
    decreases cands.len() - j,
{
    if j < cands.len() {
        lemma_first_accepted_is_candidate(cands, rows, now, j + 1);
        if stored_accepts(active_row_for(rows, cands[j as int].0, now), cands[j as int].1) {
            assert(cands[j as int].0 == cands[j as int].0);
        }
    }
}

/// A stored token is accepted: when the active row for an issued id holds the salted
/// hash of its secret, the bearer value `odtk_<id>_<secret>` resolves to an active
/// token.
pub proof fn stored_token_is_accepted(
    id: Seq<char>,
    secret: Seq<char>,
    rows: Seq<StoredToken>,
    now: Seq<char>,
)
    requires
        1 <= id.len() <= 64,
        secret.len() >= 1,
        !is_ws(secret.last()),
        stored_accepts(active_row_for(rows, id, now), secret),
    ensures
        resolved_token_id(token_text(id, secret), rows, now) is Some,
{
    issued_token_parses_back(id, secret);
    let cands = token_candidates(token_text(id, secret));
    let k = choose|k: int| 0 <= k < cands.len() && #[trigger] cands[k] == (id, secret);
    lemma_first_accepted_found(cands, rows, now, 0, k);
}

/// Only a proven token resolves: the id a bearer value resolves to is the id of one of
/// its candidates, whose active row accepts that candidate's secret.
pub proof fn resolved_token_is_proven(token: Seq<char>, rows: Seq<StoredToken>, now: Seq<char>)
    ensures
        resolved_token_id(token, rows, now) matches Some(id) ==> exists|k: int|
            0 <= k < token_candidates(token).len() && #[trigger] token_candidates(token)[k].0 == id
                && stored_accepts(active_row_for(rows, id, now), token_candidates(token)[k].1),
{
    lemma_first_accepted_is_candidate(token_candidates(token), rows, now, 0);
}

proof fn lemma_no_active_row(rows: Seq<StoredToken>, id: Seq<char>, now: Seq<char>)
    requires
        forall|i: int| 0 <= i < rows.len() ==> (#[trigger] rows[i]).revoked_at is Some,
    ensures
        active_row_for(rows, id, now) is None,
    decreases rows.len(),
{
    if rows.len() > 0 {
        assert(rows[0].revoked_at is Some);
        assert forall|i: int| 0 <= i < rows.drop_first().len() implies (
        #[trigger] rows.drop_first()[i]).revoked_at is Some by {
            assert(rows.drop_first()[i] == rows[i + 1]);
        }
        lemma_no_active_row(rows.drop_first(), id, now);
    }
}

proof fn lemma_nothing_accepted(
    cands: Seq<(Seq<char>, Seq<char>)>,
    rows: Seq<StoredToken>,
    now: Seq<char>,
    j: nat,
)
    requires
        forall|i: int| 0 <= i < rows.len() ==> (#[trigger] rows[i]).revoked_at is Some,
    ensures
        first_accepted_from(cands, rows, now, j) is None,
    decreases cands.len() - j,
{
    if j < cands.len() {
        lemma_no_active_row(rows, cands[j as int].0, now);
        lemma_nothing_accepted(cands, rows, now, j + 1);
    }
}

/// Revoked tokens prove nothing: when every row is revoked, no bearer value resolves.
pub proof fn revoked_tokens_are_refused(token: Seq<char>, rows: Seq<StoredToken>, now: Seq<char>)
    requires
        forall|i: int| 0 <= i < rows.len() ==> (#[trigger] rows[i]).revoked_at is Some,
    ensures
        resolved_token_id(token, rows, now) is None,
{
    lemma_nothing_accepted(token_candidates(token), rows, now, 0);
}

proof fn lemma_none_accepted(
    cands: Seq<(Seq<char>, Seq<char>)>,
    rows: Seq<StoredToken>,
    now: Seq<char>,
    j: nat,
)
    requires
        forall|i: int|
            j <= i < cands.len() ==> !stored_accepts(
                active_row_for(rows, (#[trigger] cands[i]).0, now),
                cands[i].1,
            ),
    ensures
        first_accepted_from(cands, rows, now, j) is None,
    decreases cands.len() - j,
{
    if j < cands.len() {
        assert(!stored_accepts(active_row_for(rows, cands[j as int].0, now), cands[j as int].1));
        lemma_none_accepted(cands, rows, now, j + 1);
    }
}

proof fn lemma_revoked_id_has_no_active_row(rows: Seq<StoredToken>, id: Seq<char>, now: Seq<char>)
    requires
        forall|i: int| 0 <= i < rows.len() && (#[trigger] rows[i]).id@ == id ==> rows[i].revoked_at is Some,
    ensures
        active_row_for(rows, id, now) is None,
    decreases rows.len(),
{
    if rows.len() > 0 {
        assert(rows[0].id@ == id ==> rows[0].revoked_at is Some);
        assert forall|i: int| 0 <= i < rows.drop_first().len() && (#[trigger] rows.drop_first()[i]).id@
            == id implies rows.drop_first()[i].revoked_at is Some by {
            assert(rows.drop_first()[i] == rows[i + 1]);
        }
        lemma_revoked_id_has_no_active_row(rows.drop_first(), id, now);
    }
}

/// An issued token proves its own id: when the active row for the issued id holds the
/// salted hash of its secret, the bearer value `odtk_<id>_<secret>` resolves to that
/// id. (It is left out where another reading of the same bearer value would also be
/// accepted by the row for its id.)
pub proof fn issued_token_resolves_to_its_id(
    id: Seq<char>,
    secret: Seq<char>,
    rows: Seq<StoredToken>,
    now: Seq<char>,
)
    requires
        1 <= id.len() <= 64,
        secret.len() >= 1,
        !is_ws(secret.last()),
        stored_accepts(active_row_for(rows, id, now), secret),
        forall|j: int|
            0 <= j < token_candidates(token_text(id, secret)).len() && #[trigger] token_candidates(
                token_text(id, secret),
            )[j] != (id, secret) ==> !stored_accepts(
                active_row_for(rows, token_candidates(token_text(id, secret))[j].0, now),
                token_candidates(token_text(id, secret))[j].1,
            ),
    ensures
        resolved_token_id(token_text(id, secret), rows, now) == Some(id),
{
    stored_token_is_accepted(id, secret, rows, now);
    resolved_token_is_proven(token_text(id, secret), rows, now);
    let t = token_text(id, secret);
    let cands = token_candidates(t);
    let found = resolved_token_id(t, rows, now)->Some_0;
    let k = choose|k: int|
        0 <= k < cands.len() && #[trigger] cands[k].0 == found && stored_accepts(
            active_row_for(rows, found, now),
            cands[k].1,
        );
    assert(cands[k] == (id, secret));
}

/// Revoking a token refuses it: once every row with the issued id is revoked, its bearer
/// value resolves to nothing. (It is left out where another reading of the same bearer
/// value would be accepted by the row for its id.)
pub proof fn revoked_token_is_refused(
    id: Seq<char>,
    secret: Seq<char>,
    rows: Seq<StoredToken>,
    now: Seq<char>,
)
    requires
        forall|i: int| 0 <= i < rows.len() && (#[trigger] rows[i]).id@ == id ==> rows[i].revoked_at is Some,
        forall|j: int|
            0 <= j < token_candidates(token_text(id, secret)).len() && #[trigger] token_candidates(
                token_text(id, secret),
            )[j] != (id, secret) ==> !stored_accepts(
                active_row_for(rows, token_candidates(token_text(id, secret))[j].0, now),
                token_candidates(token_text(id, secret))[j].1,
            ),
    ensures
        resolved_token_id(token_text(id, secret), rows, now) is None,
{
    lemma_revoked_id_has_no_active_row(rows, id, now);
    let cands = token_candidates(token_text(id, secret));
    assert forall|i: int| 0 <= i < cands.len() implies !stored_accepts(
        active_row_for(rows, (#[trigger] cands[i]).0, now),
        cands[i].1,
    ) by {
        if cands[i] == (id, secret) {
            assert(active_row_for(rows, cands[i].0, now) is None);
        }
    }
    lemma_none_accepted(cands, rows, now, 0);
}

proof fn lemma_count_active_zero(rows: Seq<TokenRecord>, now: Seq<char>)
    requires
        forall|i: int| 0 <= i < rows.len() ==> (#[trigger] rows[i]).revoked_at is Some,
    ensures
        count_active(rows, now) == 0,
    decreases rows.len(),
{
    if rows.len() > 0 {
        assert(rows.last() == rows[rows.len() - 1]);
        assert forall|i: int| 0 <= i < rows.drop_last().len() implies (
        #[trigger] rows.drop_last()[i]).revoked_at is Some by {
            assert(rows.drop_last()[i] == rows[i]);
        }
        lemma_count_active_zero(rows.drop_last(), now);
    }
}

/// Revoking all tokens leaves none active: whatever the table held, after every record
/// is revoked as `revoke_all_tokens` revokes it, no token counts as active.
pub proof fn revoke_all_leaves_none_active(
    before: Seq<TokenRecord>,
    after: Seq<TokenRecord>,
    now: Seq<char>,
    later: Seq<char>,
)
    requires
        after.len() == before.len(),
        forall|i: int| 0 <= i < before.len() ==> revoked_from(#[trigger] before[i], after[i], now),
    ensures
        count_active(after, later) == 0,
{
    assert forall|i: int| 0 <= i < after.len() implies (#[trigger] after[i]).revoked_at is Some by {
        assert(revoked_from(before[i], after[i], now));
    }
    lemma_count_active_zero(after, later);
}

/// How many fresh ids issuing a token tries before it gives up.
pub const ISSUE_ATTEMPTS: u32 = 8;

/// What issuing a token does after one attempt to store a fresh id.
#[derive(Debug, Clone, Copy, PartialEq, Eq, Structural)]
pub enum IssueStep {
    /// The row was stored: the token is issued.
    Issued,
    /// Nothing was stored: try again with a fresh id.
    TryAgain,
    /// Every attempt stored nothing: issuing fails.
    GiveUp,
}

/// The step after attempt number `attempt` (counted from 1) stored `inserted` rows: one
/// stored row issues the token; otherwise a fresh id is tried, up to `ISSUE_ATTEMPTS`
/// attempts in all.
pub fn after_issue_attempt(attempt: u32, inserted: usize) -> (r: IssueStep)
    requires
        1 <= attempt <= ISSUE_ATTEMPTS,
    ensures
        r == (if inserted == 1 {
            IssueStep::Issued
        } else if attempt < ISSUE_ATTEMPTS {
            IssueStep::TryAgain
        } else {
            IssueStep::GiveUp
        }),
{
    if inserted == 1 {
        IssueStep::Issued
    } else if attempt < ISSUE_ATTEMPTS {
        IssueStep::TryAgain
    } else {
        IssueStep::GiveUp
    }
}

} // verus!
