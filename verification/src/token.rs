//! The token codec: a tamper-evident, self-contained credential.
//!
//! A token is the payload (principal id, issue and expiry instants, display
//! name, permission list, all in the wire format of `hexfmt`) followed by the
//! hexadecimal spelling of an HMAC-SHA256 tag computed over the payload with
//! the shared secret. Verification re-parses the payload, recomputes the tag,
//! and checks the expiry instant; parsing accepts only the canonical spelling
//! that minting produces, so a credential has exactly one token per secret.
//!
//! The permission list is fixed at mint time: a change in role or menu
//! assignments takes effect at the next login, not before. That is the
//! stateless-session trade-off, not an oversight.

use hmac::Mac;
use vstd::prelude::*;

use crate::hexfmt::{
    spec_hex_of, spec_encode_str, spec_hex_bytes, spec_parse_hex, spec_parse_chars, pow16,
    parse_hex, parse_chars, push_hex, push_encoded_str, push_hex_bytes,
    lemma_parse_chars_canonical, lemma_pow16_u64,
};

verus! {

/// The decoded content of a bearer token: who is calling, how they are
/// shown, what they may invoke, and when the grant starts and ends.
/// Instants are whole seconds.
pub struct Credential {
    pub id: i64,
    pub user_name: String,
    pub permissions: Vec<String>,
    pub iat: u64,
    pub exp: u64,
}

/// The mathematical image of a credential.
pub struct CredentialV {
    pub id: i64,
    pub user_name: Seq<char>,
    pub permissions: Seq<Seq<char>>,
    pub iat: u64,
    pub exp: u64,
}

impl View for Credential {
    type V = CredentialV;

    open spec fn view(&self) -> CredentialV {
        CredentialV {
            id: self.id,
            user_name: self.user_name@,
            permissions: self.permissions.deep_view(),
            iat: self.iat,
            exp: self.exp,
        }
    }
}

/// Why a token was rejected.
#[derive(Debug, Clone, Copy, PartialEq, Eq, Structural)]
pub enum TokenError {
    /// The string is not the canonical spelling of any payload.
    Malformed,
    /// The embedded tag is not the tag of the payload under this secret.
    SignatureMismatch,
    /// The instant of verification is at or past the embedded expiry.
    Expired,
}

/// No permission string occurs twice.
pub open spec fn spec_no_dups(ps: Seq<Seq<char>>) -> bool {
    forall|i: int, j: int| 0 <= i < j < ps.len() ==> ps[i] != ps[j]
}

/// A credential that the codec mints: the grant ends strictly after it
/// starts, the permission set carries no duplicates, and every length fits
/// the 16-digit width of the wire format (anything an executable value can
/// hold does).
pub open spec fn spec_wf_credential(c: CredentialV) -> bool {
    &&& c.iat < c.exp
    &&& spec_no_dups(c.permissions)
    &&& c.user_name.len() < pow16(16)
    &&& c.permissions.len() < pow16(16)
    &&& forall|i: int|
        0 <= i < c.permissions.len() ==> (#[trigger] c.permissions[i]).len() < pow16(16)
}

/// The wire form of the permission list: each entry as its length and its
/// encoded characters.
pub open spec fn spec_encode_perms(ps: Seq<Seq<char>>) -> Seq<char>
    decreases ps.len(),
{
    if ps.len() == 0 {
        Seq::empty()
    } else {
        spec_hex_of(ps.first().len(), 16) + spec_encode_str(ps.first()) + spec_encode_perms(
            ps.drop_first(),
        )
    }
}

/// The wire form of a credential's payload.
pub open spec fn spec_payload(c: CredentialV) -> Seq<char> {
    spec_hex_of((c.id as u64) as nat, 16) + spec_hex_of(c.iat as nat, 16) + spec_hex_of(
        c.exp as nat,
        16,
    ) + spec_hex_of(c.user_name.len(), 16) + spec_encode_str(c.user_name) + spec_hex_of(
        c.permissions.len(),
        16,
    ) + spec_encode_perms(c.permissions)
}

/// What the HMAC-SHA256 of a key and a message is. The tag depends on the
/// two strings alone, so it carries no definition here: the `hmac` crate
/// computes it, and contracts speak of it only by this name.
pub uninterp spec fn mac_of(key: Seq<char>, msg: Seq<char>) -> Seq<u8>;

/// The authentication tag at its documented width of 32 bytes.
pub open spec fn spec_tag(key: Seq<char>, msg: Seq<char>) -> Seq<u8> {
    if mac_of(key, msg).len() == 32 {
        mac_of(key, msg)
    } else {
        Seq::new(32, |i| 0u8)
    }
}

/// Relies on `Hmac<Sha256>` of the hmac and sha2 crates, applied to the
/// UTF-8 bytes of key and message: the tag is a function of the two strings
/// alone and is 32 bytes long (the SHA-256 output size); HMAC accepts keys
/// of any length, so `new_from_slice` cannot fail.
#[verifier::external_body]
fn hmac_sha256(key: &str, msg: &str) -> (t: Vec<u8>)
    ensures
        t@ == mac_of(key@, msg@),
        t@.len() == 32,
{
    let mut m = <hmac::Hmac<sha2::Sha256> as Mac>::new_from_slice(key.as_bytes())
        .expect("HMAC accepts keys of any length");
    m.update(msg.as_bytes());
    m.finalize().into_bytes().to_vec()
}

/// The stored form of a password: the tag of the cleartext under the salt,
/// spelled in hexadecimal. Only this form is kept; login recomputes it from
/// the supplied secret and compares.
pub open spec fn spec_password_hash(salt: Seq<char>, password: Seq<char>) -> Seq<char> {
    spec_hex_bytes(spec_tag(salt, password))
}

/// Computes the stored form of a password under a salt.
pub fn hash_password(salt: &str, password: &str) -> (h: String)
    ensures
        h@ == spec_password_hash(salt@, password@),
{
    let tag = hmac_sha256(salt, password);
    let mut v: Vec<char> = Vec::new();
    push_hex_bytes(&mut v, &tag);
    chars_to_string(&v)
}

/// Relies on String's FromIterator impl for char: collecting characters
/// yields the string of exactly those characters.
#[verifier::external_body]
pub fn chars_to_string(v: &Vec<char>) -> (s: String)
    ensures
        s@ == v@,
{
    v.iter().collect()
}

/// The characters of a string slice, as a vector.
pub fn str_chars(s: &str) -> (r: Vec<char>)
    ensures
        r@ == s@,
{
    let n = s.unicode_len();
    let mut r: Vec<char> = Vec::new();
    let mut i: usize = 0;
    proof {
        assert(s@.take(0) =~= Seq::<char>::empty());
    }
    while i < n
        invariant
            i <= n,
            n == s@.len(),
            r@ == s@.take(i as int),
        decreases n - i,
    {
        let c = s.get_char(i);
        r.push(c);
        proof {
            assert(s@.take(i as int).push(s@[i as int]) =~= s@.take(i + 1));
        }
        i = i + 1;
    }
    proof {
        assert(s@.take(n as int) =~= s@);
    }
    r
}

/// The complete token for a credential under a secret: payload, then tag.
pub open spec fn spec_token(secret: Seq<char>, c: CredentialV) -> Seq<char> {
    spec_payload(c) + spec_hex_bytes(spec_tag(secret, spec_payload(c)))
}

/// Reading the permission list back: n entries, each a length and that many
/// characters.
pub open spec fn spec_parse_perms(s: Seq<char>, n: nat) -> Option<(Seq<Seq<char>>, Seq<char>)>
    decreases n,
{
    if n == 0 {
        Some((Seq::empty(), s))
    } else {
        match spec_parse_hex(s, 16) {
            None => None,
            Some((len, r1)) => match spec_parse_chars(r1, len) {
                None => None,
                Some((p, r2)) => match spec_parse_perms(r2, (n - 1) as nat) {
                    None => None,
                    Some((ps, r3)) => Some((seq![p] + ps, r3)),
                },
            },
        }
    }
}

/// Reading a whole payload back. Nothing may follow the permission list,
/// the expiry must lie strictly after the issue instant, and the permission
/// list may hold no duplicates: only canonical payloads of well-formed
/// credentials parse.
pub open spec fn spec_parse_payload(s: Seq<char>) -> Option<CredentialV> {
    match spec_parse_hex(s, 16) {
        None => None,
        Some((idv, r1)) => match spec_parse_hex(r1, 16) {
            None => None,
            Some((iat, r2)) => match spec_parse_hex(r2, 16) {
                None => None,
                Some((exp, r3)) => match spec_parse_hex(r3, 16) {
                    None => None,
                    Some((nlen, r4)) => match spec_parse_chars(r4, nlen) {
                        None => None,
                        Some((name, r5)) => match spec_parse_hex(r5, 16) {
                            None => None,
                            Some((pcount, r6)) => match spec_parse_perms(r6, pcount) {
                                None => None,
                                Some((ps, r7)) => if r7.len() == 0 && iat < exp && spec_no_dups(
                                    ps,
                                ) {
                                    Some(
                                        CredentialV {
                                            id: (idv as u64) as i64,
                                            user_name: name,
                                            permissions: ps,
                                            iat: iat as u64,
                                            exp: exp as u64,
                                        },
                                    )
                                } else {
                                    None
                                },
                            },
                        },
                    },
                },
            },
        },
    }
}

/// What verification returns for any secret, token and instant. The three
/// rejections are exclusive and exhaustive: a token that is not a canonical
/// payload followed by 64 tag characters is malformed; one whose tag is not
/// the tag of its payload under the secret mismatches; one at or past its
/// expiry is expired; everything else succeeds.
pub open spec fn spec_verify(secret: Seq<char>, token: Seq<char>, now: u64) -> Result<
    CredentialV,
    TokenError,
> {
    if token.len() < 64 {
        Err(TokenError::Malformed)
    } else {
        let payload = token.take(token.len() - 64);
        let sig = token.skip(token.len() - 64);
        match spec_parse_payload(payload) {
            None => Err(TokenError::Malformed),
            Some(c) => if sig != spec_hex_bytes(spec_tag(secret, payload)) {
                Err(TokenError::SignatureMismatch)
            } else if now >= c.exp {
                Err(TokenError::Expired)
            } else {
                Ok(c)
            },
        }
    }
}

/// Whether the vector holds two equal strings.
fn has_dups(ps: &Vec<String>) -> (r: bool)
    ensures
        r == !spec_no_dups(ps.deep_view()),
{
    let ghost dv = ps.deep_view();
    let mut i: usize = 1;
    while i < ps.len()
        invariant
            1 <= i,
            dv == ps.deep_view(),
            dv.len() == ps@.len(),
            forall|a: int, b: int| 0 <= a < b < i && b < dv.len() ==> dv[a] != dv[b],
        decreases ps@.len() - i,
    {
        let mut j: usize = 0;
        while j < i
            invariant
                j <= i < ps@.len(),
                dv == ps.deep_view(),
                dv.len() == ps@.len(),
                forall|a: int| 0 <= a < j ==> dv[a] != dv[i as int],
            decreases i - j,
        {
            if ps[j].eq(&ps[i]) {
                assert(dv[j as int] == dv[i as int]);
                return true;
            }
            j = j + 1;
        }
        i = i + 1;
    }
    false
}

/// Reads n permission entries at position pos.
fn parse_perms(t: &Vec<char>, pos: usize, n: u64) -> (r: Option<(Vec<String>, usize)>)
    requires
        pos <= t@.len(),
    ensures
        match r {
            Some((ps, end)) => {
                &&& spec_parse_perms(t@.skip(pos as int), n as nat) == Some(
                    (ps.deep_view(), t@.skip(end as int)),
                )
                &&& pos <= end <= t@.len()
            },
            None => spec_parse_perms(t@.skip(pos as int), n as nat) is None,
        },
{
    let ghost s0 = t@.skip(pos as int);
    let mut acc: Vec<String> = Vec::new();
    let mut p = pos;
    let mut k: u64 = 0;
    while k < n
        invariant
            pos <= p <= t@.len(),
            k <= n,
            s0 == t@.skip(pos as int),
            spec_parse_perms(s0, n as nat) == match spec_parse_perms(
                t@.skip(p as int),
                (n - k) as nat,
            ) {
                None => None::<(Seq<Seq<char>>, Seq<char>)>,
                Some((ps, rest)) => Some((acc.deep_view() + ps, rest)),
            },
        decreases n - k,
    {
        let ghost s_cur = t@.skip(p as int);
        let ghost m = (n - k) as nat;
        let (len, p1) = match parse_hex(t, p, 16) {
            None => {
                return None;
            },
            Some(x) => x,
        };
        if len > (t.len() - p1) as u64 {
            proof {
                assert(t@.skip(p1 as int).len() < 6 * (len as nat)) by {
                    assert(t@.skip(p1 as int).len() == t@.len() - p1);
                    assert(len >= 1);
                }
                crate::hexfmt::lemma_parse_chars_too_short(t@.skip(p1 as int), len as nat);
            }
            return None;
        }
        let (cs, p2) = match parse_chars(t, p1, len as usize) {
            None => {
                return None;
            },
            Some(x) => x,
        };
        let perm = chars_to_string(&cs);
        let ghost old_acc = acc.deep_view();
        acc.push(perm);
        p = p2;
        k = k + 1;
        proof {
            assert(acc.deep_view() =~= old_acc.push(cs@));
            let rest = t@.skip(p as int);
            assert(spec_parse_chars(t@.skip(p1 as int), len as nat) == Some((cs@, rest)));
            assert(spec_parse_perms(s_cur, m) == (match spec_parse_perms(rest, (m - 1) as nat) {
                None => None::<(Seq<Seq<char>>, Seq<char>)>,
                Some((ps, r3)) => Some((seq![cs@] + ps, r3)),
            }));
            if spec_parse_perms(rest, (m - 1) as nat) is Some {
                let (ps, r3) = spec_parse_perms(rest, (m - 1) as nat)->Some_0;
                assert(old_acc + (seq![cs@] + ps) =~= acc.deep_view() + ps);
            }
        }
    }
    proof {
        assert(spec_parse_perms(t@.skip(p as int), 0) == Some(
            (Seq::<Seq<char>>::empty(), t@.skip(p as int)),
        ));
        assert(acc.deep_view() + Seq::<Seq<char>>::empty() =~= acc.deep_view());
    }
    Some((acc, p))
}

/// Reads a whole payload; returns the credential only when the input is the
/// canonical payload of a well-formed credential, consumed entirely.
fn parse_payload(t: &Vec<char>) -> (r: Option<Credential>)
    ensures
        match r {
            Some(c) => spec_parse_payload(t@) == Some(c@),
            None => spec_parse_payload(t@) is None,
        },
{
    proof {
        assert(t@.skip(0) =~= t@);
    }
    let (idv, p1) = match parse_hex(t, 0, 16) {
        None => {
            return None;
        },
        Some(x) => x,
    };
    let (iat, p2) = match parse_hex(t, p1, 16) {
        None => {
            return None;
        },
        Some(x) => x,
    };
    let (exp, p3) = match parse_hex(t, p2, 16) {
        None => {
            return None;
        },
        Some(x) => x,
    };
    let (nlen, p4) = match parse_hex(t, p3, 16) {
        None => {
            return None;
        },
        Some(x) => x,
    };
    if nlen > (t.len() - p4) as u64 {
        proof {
            assert(t@.skip(p4 as int).len() < 6 * (nlen as nat)) by {
                assert(t@.skip(p4 as int).len() == t@.len() - p4);
                assert(nlen >= 1);
            }
            crate::hexfmt::lemma_parse_chars_too_short(t@.skip(p4 as int), nlen as nat);
        }
        return None;
    }
    let (namev, p5) = match parse_chars(t, p4, nlen as usize) {
        None => {
            return None;
        },
        Some(x) => x,
    };
    let (pcount, p6) = match parse_hex(t, p5, 16) {
        None => {
            return None;
        },
        Some(x) => x,
    };
    let (perms, p7) = match parse_perms(t, p6, pcount) {
        None => {
            return None;
        },
        Some(x) => x,
    };
    if p7 != t.len() {
        return None;
    }
    if !(iat < exp) {
        return None;
    }
    if has_dups(&perms) {
        return None;
    }
    let c = Credential {
        id: idv as i64,
        user_name: chars_to_string(&namev),
        permissions: perms,
        iat,
        exp,
    };
    proof {
        assert(t@.skip(p7 as int).len() == 0);
    }
    Some(c)
}

/// The credential that minting at instant `now` with validity `ttl` carries.
pub open spec fn spec_minted(
    id: i64,
    user_name: Seq<char>,
    permissions: Seq<Seq<char>>,
    now: u64,
    ttl: u64,
) -> CredentialV {
    CredentialV { id, user_name, permissions, iat: now, exp: (now + ttl) as u64 }
}

/// Mints the token for a principal: the payload of the credential issued at
/// `now` and expiring at `now + ttl`, followed by its tag under `secret`.
pub fn mint(
    secret: &str,
    id: i64,
    user_name: &str,
    permissions: &Vec<String>,
    ttl: u64,
    now: u64,
) -> (t: String)
    requires
        0 < ttl,
        now + ttl <= u64::MAX,
        spec_no_dups(permissions.deep_view()),
    ensures
        t@ == spec_token(
            secret@,
            spec_minted(id, user_name@, permissions.deep_view(), now, ttl),
        ),
        spec_wf_credential(spec_minted(id, user_name@, permissions.deep_view(), now, ttl)),
{
    let ghost cv = spec_minted(id, user_name@, permissions.deep_view(), now, ttl);
    let mut pv: Vec<char> = Vec::new();
    push_hex(&mut pv, id as u64, 16);
    push_hex(&mut pv, now, 16);
    push_hex(&mut pv, now + ttl, 16);
    let name_chars = str_chars(user_name);
    let nl = name_chars.len();
    push_hex(&mut pv, nl as u64, 16);
    push_encoded_str(&mut pv, &name_chars);
    push_hex(&mut pv, permissions.len() as u64, 16);
    let ghost head = pv@;
    let ghost dv = permissions.deep_view();
    let mut i: usize = 0;
    proof {
        assert(dv.take(0) =~= Seq::<Seq<char>>::empty());
        assert(pv@ =~= head + spec_encode_perms(dv.take(0)));
    }
    while i < permissions.len()
        invariant
            i <= permissions@.len(),
            dv == permissions.deep_view(),
            dv.len() == permissions@.len(),
            pv@ == head + spec_encode_perms(dv.take(i as int)),
            forall|a: int| 0 <= a < i ==> (#[trigger] dv[a]).len() < pow16(16),
        decreases permissions@.len() - i,
    {
        let pc = str_chars(permissions[i].as_str());
        let pl = pc.len();
        proof {
            lemma_pow16_u64();
            assert(pc@.len() == pl);
        }
        push_hex(&mut pv, pl as u64, 16);
        push_encoded_str(&mut pv, &pc);
        proof {
            lemma_encode_perms_push(dv.take(i as int), pc@);
            assert(dv.take(i as int).push(dv[i as int]) =~= dv.take(i + 1));
            assert(pv@ =~= head + spec_encode_perms(dv.take(i + 1)));
        }
        i = i + 1;
    }
    proof {
        assert(dv.take(dv.len() as int) =~= dv);
        assert(pv@ =~= spec_payload(cv));
        lemma_pow16_u64();
        assert(name_chars@.len() == nl);
        assert(spec_wf_credential(cv));
    }
    let payload_s = chars_to_string(&pv);
    let tag = hmac_sha256(secret, payload_s.as_str());
    let mut tok = pv;
    push_hex_bytes(&mut tok, &tag);
    proof {
        assert(tag@ == spec_tag(secret@, spec_payload(cv)));
        assert(tok@ =~= spec_token(secret@, cv));
    }
    chars_to_string(&tok)
}

pub proof fn lemma_encode_perms_push(ps: Seq<Seq<char>>, p: Seq<char>)
    ensures
        spec_encode_perms(ps.push(p)) == spec_encode_perms(ps) + spec_hex_of(p.len(), 16)
            + spec_encode_str(p),
    decreases ps.len(),
{
    if ps.len() == 0 {
        assert(ps.push(p).drop_first() =~= Seq::<Seq<char>>::empty());
        assert(spec_encode_perms(Seq::<Seq<char>>::empty()) == Seq::<char>::empty());
        assert(spec_encode_perms(ps.push(p)) =~= spec_hex_of(p.len(), 16) + spec_encode_str(p));
        assert(spec_encode_perms(ps) + spec_hex_of(p.len(), 16) + spec_encode_str(p)
            =~= spec_hex_of(p.len(), 16) + spec_encode_str(p));
    } else {
        assert(ps.push(p).drop_first() =~= ps.drop_first().push(p));
        assert(ps.push(p).first() == ps.first());
        lemma_encode_perms_push(ps.drop_first(), p);
        assert(spec_encode_perms(ps.push(p)) =~= spec_encode_perms(ps) + spec_hex_of(p.len(), 16)
            + spec_encode_str(p));
    }
}

/// Verifies a token at instant `now` under `secret`: returns the embedded
/// credential, or the rejection that `spec_verify` prescribes.
pub fn verify(secret: &str, token: &str, now: u64) -> (r: Result<Credential, TokenError>)
    ensures
        match r {
            Ok(c) => spec_verify(secret@, token@, now) == Ok::<CredentialV, TokenError>(c@),
            Err(e) => spec_verify(secret@, token@, now) == Err::<CredentialV, TokenError>(e),
        },
{
    let tv = str_chars(token);
    if tv.len() < 64 {
        return Err(TokenError::Malformed);
    }
    let plen = tv.len() - 64;
    let mut pv: Vec<char> = Vec::new();
    let mut i: usize = 0;
    proof {
        assert(tv@.take(0) =~= Seq::<char>::empty());
    }
    while i < plen
        invariant
            i <= plen <= tv@.len(),
            pv@ == tv@.take(i as int),
        decreases plen - i,
    {
        pv.push(tv[i]);
        proof {
            assert(tv@.take(i as int).push(tv@[i as int]) =~= tv@.take(i + 1));
        }
        i = i + 1;
    }
    let ghost payload = token@.take(token@.len() - 64);
    proof {
        assert(pv@ =~= payload);
    }
    let cred = match parse_payload(&pv) {
        None => {
            return Err(TokenError::Malformed);
        },
        Some(c) => c,
    };
    let payload_s = chars_to_string(&pv);
    let tag = hmac_sha256(secret, payload_s.as_str());
    let mut machex: Vec<char> = Vec::new();
    push_hex_bytes(&mut machex, &tag);
    proof {
        assert(tag@ == spec_tag(secret@, payload));
        crate::hexfmt::lemma_hex_bytes_len(tag@);
    }
    let tvlen = tv.len();
    let mut j: usize = 0;
    while j < 64
        invariant
            j <= 64,
            plen + 64 == tvlen,
            tvlen == tv@.len(),
            tv@ == token@,
            payload == token@.take(token@.len() - 64),
            spec_parse_payload(payload) == Some(cred@),
            machex@.len() == 64,
            machex@ == spec_hex_bytes(spec_tag(secret@, payload)),
            forall|a: int| 0 <= a < j ==> tv@[plen + a] == machex@[a],
        decreases 64 - j,
    {
        if tv[plen + j] != machex[j] {
            proof {
                assert(token@.skip(token@.len() - 64)[j as int] != machex@[j as int]);
            }
            return Err(TokenError::SignatureMismatch);
        }
        j = j + 1;
    }
    proof {
        assert(token@.skip(token@.len() - 64) =~= machex@);
    }
    if now >= cred.exp {
        return Err(TokenError::Expired);
    }
    Ok(cred)
}

proof fn lemma_i64_u64_round_trip(x: i64)
    ensures
        (x as u64) as i64 == x,
{
    assert((x as u64) as i64 == x) by (bit_vector);
}

proof fn lemma_u64_i64_round_trip(x: u64)
    ensures
        (x as i64) as u64 == x,
{
    assert((x as i64) as u64 == x) by (bit_vector);
}

/// Reading the permission list back from its encoding yields the list.
pub proof fn lemma_parse_perms_of_encode(ps: Seq<Seq<char>>, rest: Seq<char>)
    requires
        forall|i: int| 0 <= i < ps.len() ==> (#[trigger] ps[i]).len() < pow16(16),
    ensures
        spec_parse_perms(spec_encode_perms(ps) + rest, ps.len()) == Some((ps, rest)),
    decreases ps.len(),
{
    if ps.len() == 0 {
        assert(spec_encode_perms(ps) + rest =~= rest);
        assert(ps =~= Seq::<Seq<char>>::empty());
    } else {
        let p = ps.first();
        let tail = ps.drop_first();
        let rtail = spec_encode_perms(tail) + rest;
        let s = spec_encode_perms(ps) + rest;
        assert(ps[0] == p);
        assert(s =~= crate::hexfmt::spec_hex_of(p.len(), 16) + (spec_encode_str(p) + rtail));
        crate::hexfmt::lemma_parse_hex_of_encode(p.len(), 16, spec_encode_str(p) + rtail);
        crate::hexfmt::lemma_parse_chars_of_encode(p, rtail);
        assert(forall|i: int|
            0 <= i < tail.len() ==> (#[trigger] tail[i]).len() < pow16(16)) by {
            assert(forall|i: int| 0 <= i < tail.len() ==> tail[i] == ps[i + 1]);
        }
        lemma_parse_perms_of_encode(tail, rest);
        assert(seq![p] + tail =~= ps);
    }
}

/// Reading a payload back from its encoding yields the credential.
pub proof fn lemma_parse_payload_of_encode(c: CredentialV)
    requires
        spec_wf_credential(c),
    ensures
        spec_parse_payload(spec_payload(c)) == Some(c),
{
    lemma_pow16_u64();
    let h1 = spec_hex_of((c.id as u64) as nat, 16);
    let h2 = spec_hex_of(c.iat as nat, 16);
    let h3 = spec_hex_of(c.exp as nat, 16);
    let h4 = spec_hex_of(c.user_name.len(), 16);
    let e5 = spec_encode_str(c.user_name);
    let h6 = spec_hex_of(c.permissions.len(), 16);
    let e7 = spec_encode_perms(c.permissions);
    let r6 = e7;
    let r5 = h6 + r6;
    let r4 = e5 + r5;
    let r3 = h4 + r4;
    let r2 = h3 + r3;
    let r1 = h2 + r2;
    let s = spec_payload(c);
    assert(s =~= h1 + r1);
    crate::hexfmt::lemma_parse_hex_of_encode((c.id as u64) as nat, 16, r1);
    crate::hexfmt::lemma_parse_hex_of_encode(c.iat as nat, 16, r2);
    crate::hexfmt::lemma_parse_hex_of_encode(c.exp as nat, 16, r3);
    crate::hexfmt::lemma_parse_hex_of_encode(c.user_name.len(), 16, r4);
    crate::hexfmt::lemma_parse_chars_of_encode(c.user_name, r5);
    crate::hexfmt::lemma_parse_hex_of_encode(c.permissions.len(), 16, r6);
    lemma_parse_perms_of_encode(c.permissions, Seq::empty());
    assert(e7 + Seq::<char>::empty() =~= e7);
    lemma_i64_u64_round_trip(c.id);
    assert(spec_parse_payload(s) == Some(c));
}

/// A payload parses only from the canonical encoding of a well-formed
/// credential.
pub proof fn lemma_parse_payload_canonical(s: Seq<char>)
    requires
        spec_parse_payload(s) is Some,
    ensures
        s == spec_payload(spec_parse_payload(s)->Some_0),
        spec_wf_credential(spec_parse_payload(s)->Some_0),
{
    let (idv, r1) = spec_parse_hex(s, 16)->Some_0;
    let (iat, r2) = spec_parse_hex(r1, 16)->Some_0;
    let (exp, r3) = spec_parse_hex(r2, 16)->Some_0;
    let (nlen, r4) = spec_parse_hex(r3, 16)->Some_0;
    let (name, r5) = spec_parse_chars(r4, nlen)->Some_0;
    let (pcount, r6) = spec_parse_hex(r5, 16)->Some_0;
    let (ps, r7) = spec_parse_perms(r6, pcount)->Some_0;
    let c = spec_parse_payload(s)->Some_0;
    crate::hexfmt::lemma_parse_hex_canonical(s, 16);
    crate::hexfmt::lemma_parse_hex_canonical(r1, 16);
    crate::hexfmt::lemma_parse_hex_canonical(r2, 16);
    crate::hexfmt::lemma_parse_hex_canonical(r3, 16);
    lemma_parse_chars_canonical(r4, nlen);
    crate::hexfmt::lemma_parse_hex_canonical(r5, 16);
    lemma_parse_perms_canonical(r6, pcount);
    crate::hexfmt::lemma_hex_val_bound(s.take(16));
    crate::hexfmt::lemma_hex_val_bound(r1.take(16));
    crate::hexfmt::lemma_hex_val_bound(r2.take(16));
    crate::hexfmt::lemma_hex_val_bound(r3.take(16));
    crate::hexfmt::lemma_hex_val_bound(r5.take(16));
    lemma_pow16_u64();
    lemma_u64_i64_round_trip(idv as u64);
    assert(r7 =~= Seq::<char>::empty());
    assert(c.user_name == name && c.permissions == ps);
    assert((c.id as u64) as nat == idv);
    assert(c.iat as nat == iat && c.exp as nat == exp);
    assert(name.len() == nlen && ps.len() == pcount);
    assert(s =~= spec_payload(c));
}

/// Each permission entry parses only from its canonical encoding, and each
/// parsed length fits the wire width.
pub proof fn lemma_parse_perms_canonical(s: Seq<char>, n: nat)
    requires
        spec_parse_perms(s, n) is Some,
    ensures
        spec_parse_perms(s, n)->Some_0.0.len() == n,
        s == spec_encode_perms(spec_parse_perms(s, n)->Some_0.0) + spec_parse_perms(
            s,
            n,
        )->Some_0.1,
        forall|i: int|
            0 <= i < n ==> (#[trigger] spec_parse_perms(s, n)->Some_0.0[i]).len() < pow16(16),
    decreases n,
{
    let (ps, rest) = spec_parse_perms(s, n)->Some_0;
    if n == 0 {
        assert(ps =~= Seq::<Seq<char>>::empty());
        assert(s =~= spec_encode_perms(ps) + rest);
    } else {
        let (len, r1) = spec_parse_hex(s, 16)->Some_0;
        let (p, r2) = spec_parse_chars(r1, len)->Some_0;
        let (tail, r3) = spec_parse_perms(r2, (n - 1) as nat)->Some_0;
        crate::hexfmt::lemma_parse_hex_canonical(s, 16);
        crate::hexfmt::lemma_hex_val_bound(s.take(16));
        lemma_parse_chars_canonical(r1, len);
        lemma_parse_perms_canonical(r2, (n - 1) as nat);
        assert(ps =~= seq![p] + tail);
        assert(ps.first() == p && ps.drop_first() =~= tail);
        assert(spec_encode_perms(ps) == spec_hex_of(p.len(), 16) + spec_encode_str(p)
            + spec_encode_perms(tail));
        assert(s =~= spec_encode_perms(ps) + rest);
        assert(forall|i: int| 1 <= i < n ==> ps[i] == tail[i - 1]);
    }
}

/// A token is its payload followed by exactly 64 tag characters.
pub proof fn lemma_token_len(secret: Seq<char>, c: CredentialV)
    ensures
        spec_token(secret, c).len() == spec_payload(c).len() + 64,
{
    crate::hexfmt::lemma_hex_bytes_len(spec_tag(secret, spec_payload(c)));
}

/// Round trip and expiry boundary: verifying the minted token of a
/// well-formed credential returns exactly that credential strictly before
/// its expiry instant, and fails with `Expired` from that instant on.
pub proof fn lemma_verify_of_mint(secret: Seq<char>, c: CredentialV, now: u64)
    requires
        spec_wf_credential(c),
    ensures
        now < c.exp ==> spec_verify(secret, spec_token(secret, c), now) == Ok::<
            CredentialV,
            TokenError,
        >(c),
        now >= c.exp ==> spec_verify(secret, spec_token(secret, c), now) == Err::<
            CredentialV,
            TokenError,
        >(TokenError::Expired),
{
    let payload = spec_payload(c);
    let t = spec_token(secret, c);
    lemma_token_len(secret, c);
    assert(t.take(t.len() - 64) =~= payload);
    assert(t.skip(t.len() - 64) =~= spec_hex_bytes(spec_tag(secret, payload)));
    lemma_parse_payload_of_encode(c);
}

/// A token that verifies is the canonical token of the credential it
/// yields: for one secret, a credential has exactly one accepted spelling,
/// so no distinct token can decode to the same payload.
pub proof fn lemma_token_canonical(secret: Seq<char>, t: Seq<char>, now: u64)
    requires
        spec_verify(secret, t, now) is Ok,
    ensures
        t == spec_token(secret, spec_verify(secret, t, now)->Ok_0),
        spec_wf_credential(spec_verify(secret, t, now)->Ok_0),
        now < spec_verify(secret, t, now)->Ok_0.exp,
{
    let payload = t.take(t.len() - 64);
    let c = spec_parse_payload(payload)->Some_0;
    lemma_parse_payload_canonical(payload);
    assert(t =~= payload + t.skip(t.len() - 64));
}

/// Two tokens that verify to the same credential under the same secret are
/// the same string.
pub proof fn lemma_token_unique(
    secret: Seq<char>,
    t1: Seq<char>,
    t2: Seq<char>,
    now1: u64,
    now2: u64,
)
    requires
        spec_verify(secret, t1, now1) is Ok,
        spec_verify(secret, t2, now2) is Ok,
        spec_verify(secret, t1, now1)->Ok_0 == spec_verify(secret, t2, now2)->Ok_0,
    ensures
        t1 == t2,
{
    lemma_token_canonical(secret, t1, now1);
    lemma_token_canonical(secret, t2, now2);
}

} // verus!
