//! Signature Version 4 request signing: canonical request, credential
//! scope, the chained HMAC signing key, and the Authorization header.
use hmac::Mac;
use sha2::Digest;
use vstd::prelude::*;
use vstd::multiset::Multiset;
use vstd::seq_lib::{lemma_multiset_commutative, lemma_sorted_unique};
use crate::error::S3VectorsError;
use crate::text::{
    decimal, digit_char, digits, join, join_texts, lower_of, lowercase, push_decimal, push_digits,
    sort_texts, str_eq, text_order, trim_of, trimmed, views,
};

verus! {

broadcast use vstd::seq_lib::group_to_multiset_ensures;

/// A header as (name, value).
pub type Header = (String, String);

/// The model of a header list: each name and value as characters.
pub open spec fn header_view(h: Seq<Header>) -> Seq<(Seq<char>, Seq<char>)> {
    h.map_values(|p: Header| (p.0@, p.1@))
}

pub open spec fn opt_text(o: Option<String>) -> Option<Seq<char>> {
    match o {
        Some(s) => Some(s@),
        None => None,
    }
}

/// A moment in UTC as calendar fields.
#[derive(Clone, Copy, Debug, PartialEq, Eq, Structural)]
pub struct Timestamp {
    pub year: u32,
    pub month: u32,
    pub day: u32,
    pub hour: u32,
    pub minute: u32,
    pub second: u32,
}

impl Timestamp {
    /// Fields in their calendar ranges, with a four-digit year.
    pub open spec fn wf(&self) -> bool {
        &&& self.year <= 9999
        &&& 1 <= self.month <= 12
        &&& 1 <= self.day <= 31
        &&& self.hour < 24
        &&& self.minute < 60
        &&& self.second <= 60
    }

    /// `YYYYMMDD`.
    pub open spec fn date_stamp(&self) -> Seq<char> {
        digits(self.year as nat, 4) + digits(self.month as nat, 2) + digits(self.day as nat, 2)
    }

    /// `YYYYMMDDTHHMMSSZ`.
    pub open spec fn full_stamp(&self) -> Seq<char> {
        self.date_stamp() + "T"@ + digits(self.hour as nat, 2) + digits(self.minute as nat, 2)
            + digits(self.second as nat, 2) + "Z"@
    }

    /// The timestamp of the given fields, if they are in range.
    pub fn new(year: i64, month: u32, day: u32, hour: u32, minute: u32, second: u32) -> (r: Option<
        Timestamp,
    >)
        ensures
            r is Some <==> (0 <= year <= 9999 && 1 <= month <= 12 && 1 <= day <= 31 && hour < 24
                && minute < 60 && second <= 60),
            r matches Some(t) ==> t.wf() && t.year == year && t.month == month && t.day == day
                && t.hour == hour && t.minute == minute && t.second == second,
    {
        if 0 <= year && year <= 9999 && 1 <= month && month <= 12 && 1 <= day && day <= 31 && hour
            < 24 && minute < 60 && second <= 60 {
            Some(Timestamp { year: year as u32, month, day, hour, minute, second })
        } else {
            None
        }
    }

    pub fn date_stamp_text(&self) -> (r: String)
        ensures
            r@ == self.date_stamp(),
    {
        let mut r = String::new();
        push_digits(&mut r, self.year as u64, 4);
        push_digits(&mut r, self.month as u64, 2);
        push_digits(&mut r, self.day as u64, 2);
        r
    }

    pub fn full_stamp_text(&self) -> (r: String)
        ensures
            r@ == self.full_stamp(),
    {
        let mut r = self.date_stamp_text();
        r.append("T");
        push_digits(&mut r, self.hour as u64, 2);
        push_digits(&mut r, self.minute as u64, 2);
        push_digits(&mut r, self.second as u64, 2);
        r.append("Z");
        r
    }
}

/// What SHA-256 yields for the given bytes.
pub uninterp spec fn sha256_of(data: Seq<u8>) -> Seq<u8>;

/// What HMAC-SHA256 yields for the given key and message.
pub uninterp spec fn hmac_sha256_of(key: Seq<u8>, msg: Seq<u8>) -> Seq<u8>;

/// What `url::Url::parse` yields for a URL, read through `host_str`,
/// `port` (absent for the scheme's default port) and `path`; `None` when
/// the URL does not parse.
pub uninterp spec fn url_parts_of(url: Seq<char>) -> Option<(Option<Seq<char>>, Option<u16>, Seq<char>)>;

/// Relies on `sha2::Sha256::digest`, whose output size is 32 bytes.
#[verifier::external_body]
fn sha256(data: &[u8]) -> (r: Vec<u8>)
    ensures
        r@ == sha256_of(data@),
        r@.len() == 32,
{
    sha2::Sha256::digest(data).to_vec()
}

/// Relies on `hmac::Hmac<Sha256>`: `new_from_slice` accepts a key of any
/// length (it never returns its error), then `update` and `finalize`, whose
/// output has SHA-256's size, 32 bytes.
#[verifier::external_body]
fn sign(key: &[u8], msg: &[u8]) -> (r: Vec<u8>)
    ensures
        r@ == hmac_sha256_of(key@, msg@),
        r@.len() == 32,
{
    match hmac::Hmac::<sha2::Sha256>::new_from_slice(key) {
        Ok(mut mac) => {
            mac.update(msg);
            mac.finalize().into_bytes().to_vec()
        },
        Err(_) => Vec::new(),
    }
}

/// The lower-case hexadecimal digit of a value below sixteen.
pub open spec fn hex_digit(n: nat) -> char {
    if n < 10 {
        digit_char(n)
    } else if n == 10 {
        'a'
    } else if n == 11 {
        'b'
    } else if n == 12 {
        'c'
    } else if n == 13 {
        'd'
    } else if n == 14 {
        'e'
    } else {
        'f'
    }
}

/// Two lower-case hexadecimal digits per byte, high digit first.
pub open spec fn hex_of(b: Seq<u8>) -> Seq<char>
    decreases b.len(),
{
    if b.len() == 0 {
        Seq::empty()
    } else {
        hex_of(b.drop_last()) + seq![hex_digit(b.last() as nat / 16), hex_digit(b.last() as nat % 16)]
    }
}

/// Relies on `hex::encode`: two lower-case digits per byte, in order.
#[verifier::external_body]
fn hex_encode(data: &[u8]) -> (r: String)
    ensures
        r@ == hex_of(data@),
{
    hex::encode(data)
}

/// Relies on `url::Url::parse`, `host_str`, `port` and `path`.
#[verifier::external_body]
fn url_parts(url: &str) -> (r: Option<(Option<String>, Option<u16>, String)>)
    ensures
        r is Some <==> url_parts_of(url@) is Some,
        r matches Some(p) ==> url_parts_of(url@) == Some((opt_text(p.0), p.1, p.2@)),
{
    match url::Url::parse(url) {
        Ok(u) => Some((u.host_str().map(|h| h.to_string()), u.port(), u.path().to_string())),
        Err(_) => None,
    }
}

/// The `host` header value for a URL: host, and `:port` where the URL
/// names a port other than its scheme's default; `None` without a host.
pub open spec fn host_of(url: Seq<char>) -> Option<Seq<char>> {
    match url_parts_of(url) {
        Some((Some(h), Some(port), _)) => Some(h + ":"@ + decimal(port as nat)),
        Some((Some(h), None, _)) => Some(h),
        _ => None,
    }
}

pub open spec fn path_of(url: Seq<char>) -> Seq<char> {
    match url_parts_of(url) {
        Some((_, _, p)) => p,
        None => Seq::empty(),
    }
}

/// Names that the signer sets itself, replacing a caller's header of the
/// same name.
pub open spec fn is_reserved(name: Seq<char>, has_token: bool) -> bool {
    ||| name == "authorization"@
    ||| name == "host"@
    ||| name == "x-amz-date"@
    ||| name == "x-amz-content-sha256"@
    ||| (has_token && name == "x-amz-security-token"@)
}

/// No two headers share a name, as in a map.
pub open spec fn distinct_names(hs: Seq<(Seq<char>, Seq<char>)>) -> bool {
    forall|i: int, j: int| 0 <= i < j < hs.len() ==> #[trigger] hs[i].0 != #[trigger] hs[j].0
}

/// The caller's headers, less those that the signer sets.
pub open spec fn kept(hs: Seq<(Seq<char>, Seq<char>)>, has_token: bool) -> Seq<(Seq<char>, Seq<char>)>
    decreases hs.len(),
{
    if hs.len() == 0 {
        hs
    } else if is_reserved(hs.last().0, has_token) {
        kept(hs.drop_last(), has_token)
    } else {
        kept(hs.drop_last(), has_token).push(hs.last())
    }
}

/// The headers that the signer adds to the caller's.
pub open spec fn added(host: Seq<char>, stamp: Seq<char>, token: Option<Seq<char>>, payload_hash: Seq<char>) -> Seq<
    (Seq<char>, Seq<char>),
> {
    let base = seq![("host"@, host), ("x-amz-date"@, stamp)];
    let with_token = match token {
        Some(t) => base.push(("x-amz-security-token"@, t)),
        None => base,
    };
    with_token.push(("x-amz-content-sha256"@, payload_hash))
}

/// Every header that is signed.
pub open spec fn merged(
    hs: Seq<(Seq<char>, Seq<char>)>,
    host: Seq<char>,
    stamp: Seq<char>,
    token: Option<Seq<char>>,
    payload_hash: Seq<char>,
) -> Seq<(Seq<char>, Seq<char>)> {
    kept(hs, token is Some) + added(host, stamp, token, payload_hash)
}

pub open spec fn canonical_line(h: (Seq<char>, Seq<char>)) -> Seq<char> {
    lower_of(h.0) + ":"@ + trim_of(h.1)
}

/// Lines `name:value`, names lower-cased and values trimmed, sorted, each
/// ending in a newline.
pub open spec fn canonical_block(hs: Seq<(Seq<char>, Seq<char>)>) -> Seq<char> {
    join(hs.map_values(|h: (Seq<char>, Seq<char>)| canonical_line(h)).sort_by(text_order()), "\n"@)
        + "\n"@
}

/// The lower-cased names, sorted, joined with `;`.
pub open spec fn signed_names(hs: Seq<(Seq<char>, Seq<char>)>) -> Seq<char> {
    join(hs.map_values(|h: (Seq<char>, Seq<char>)| lower_of(h.0)).sort_by(text_order()), ";"@)
}

pub open spec fn canonical_request(
    method: Seq<char>,
    path: Seq<char>,
    hs: Seq<(Seq<char>, Seq<char>)>,
    payload_hash: Seq<char>,
) -> Seq<char> {
    method + "\n"@ + path + "\n"@ + "\n"@ + canonical_block(hs) + "\n"@ + signed_names(hs) + "\n"@
        + payload_hash
}

pub open spec fn credential_scope(date: Seq<char>, region: Seq<char>) -> Seq<char> {
    date + "/"@ + region + "/s3vectors/aws4_request"@
}

pub open spec fn string_to_sign(stamp: Seq<char>, scope: Seq<char>, creq: Seq<char>) -> Seq<char> {
    "AWS4-HMAC-SHA256\n"@ + stamp + "\n"@ + scope + "\n"@ + hex_of(sha256_of(bytes_of(creq)))
}

pub open spec fn bytes_of(s: Seq<char>) -> Seq<u8> {
    vstd::utf8::encode_utf8(s)
}

/// The signing key: `"AWS4" + secret`, then HMAC with the date, the
/// region, the service name and `aws4_request`, each result keying the next.
pub open spec fn signing_key(secret: Seq<char>, date: Seq<char>, region: Seq<char>) -> Seq<u8> {
    let k_date = hmac_sha256_of(bytes_of("AWS4"@ + secret), bytes_of(date));
    let k_region = hmac_sha256_of(k_date, bytes_of(region));
    let k_service = hmac_sha256_of(k_region, bytes_of("s3vectors"@));
    hmac_sha256_of(k_service, bytes_of("aws4_request"@))
}

pub open spec fn signature(secret: Seq<char>, date: Seq<char>, region: Seq<char>, sts: Seq<char>) -> Seq<char> {
    hex_of(hmac_sha256_of(signing_key(secret, date, region), bytes_of(sts)))
}

pub open spec fn authorization(access_key_id: Seq<char>, scope: Seq<char>, signed: Seq<char>, sig: Seq<char>) -> Seq<
    char,
> {
    "AWS4-HMAC-SHA256 Credential="@ + access_key_id + "/"@ + scope + ", SignedHeaders="@ + signed
        + ", Signature="@ + sig
}

/// The credential of a signer: access key id, secret access key, optional
/// session token, region.
pub type Credential = (Seq<char>, Seq<char>, Option<Seq<char>>, Seq<char>);

/// The complete header list of a signed request: every signed header, then
/// `authorization`; `None` where the URL has no host.
pub open spec fn signed_request_headers(
    cred: Credential,
    method: Seq<char>,
    url: Seq<char>,
    hs: Seq<(Seq<char>, Seq<char>)>,
    payload: Seq<u8>,
    now: Timestamp,
) -> Option<Seq<(Seq<char>, Seq<char>)>> {
    let (access_key_id, secret, token, region) = cred;
    match host_of(url) {
        None => None,
        Some(host) => {
            let payload_hash = hex_of(sha256_of(payload));
            let all = merged(hs, host, now.full_stamp(), token, payload_hash);
            let scope = credential_scope(now.date_stamp(), region);
            let creq = canonical_request(method, path_of(url), all, payload_hash);
            let sts = string_to_sign(now.full_stamp(), scope, creq);
            let sig = signature(secret, now.date_stamp(), region, sts);
            Some(all.push(("authorization"@, authorization(access_key_id, scope, signed_names(all), sig))))
        },
    }
}

/// Signing is a function of its inputs: two signings of one request with
/// one credential at one moment give the same headers.
pub proof fn lemma_sign_deterministic(
    cred: Credential,
    method: Seq<char>,
    url: Seq<char>,
    hs: Seq<(Seq<char>, Seq<char>)>,
    payload: Seq<u8>,
    now: Timestamp,
    first: Seq<(Seq<char>, Seq<char>)>,
    second: Seq<(Seq<char>, Seq<char>)>,
)
    requires
        signed_request_headers(cred, method, url, hs, payload, now) == Some(first),
        signed_request_headers(cred, method, url, hs, payload, now) == Some(second),
    ensures
        first == second,
{
}

/// The signed-headers list in the canonical request that is signed and the
/// one in the Authorization header are the same string: the sorted
/// lower-cased names of every header sent but `authorization`.
pub proof fn lemma_signed_headers_agree(
    cred: Credential,
    method: Seq<char>,
    url: Seq<char>,
    hs: Seq<(Seq<char>, Seq<char>)>,
    payload: Seq<u8>,
    now: Timestamp,
)
    requires
        signed_request_headers(cred, method, url, hs, payload, now) is Some,
    ensures
        ({
            let out = signed_request_headers(cred, method, url, hs, payload, now)->0;
            let sent = out.drop_last();
            let names = signed_names(sent);
            let payload_hash = hex_of(sha256_of(payload));
            let creq = canonical_request(method, path_of(url), sent, payload_hash);
            let scope = credential_scope(now.date_stamp(), cred.3);
            let auth = out.last().1;
            let i: int = (method + "\n"@ + path_of(url) + "\n"@ + "\n"@ + canonical_block(sent)
                + "\n"@).len() as int;
            let k: int = ("AWS4-HMAC-SHA256 Credential="@ + cred.0 + "/"@ + scope
                + ", SignedHeaders="@).len() as int;
            &&& out.last().0 == "authorization"@
            &&& creq.subrange(i, i + names.len() as int) == names
            &&& auth.subrange(k, k + names.len() as int) == names
            &&& auth == authorization(
                cred.0,
                scope,
                names,
                signature(cred.1, now.date_stamp(), cred.3, string_to_sign(now.full_stamp(), scope, creq)),
            )
        }),
{
    let out = signed_request_headers(cred, method, url, hs, payload, now)->0;
    let host = host_of(url)->0;
    let payload_hash = hex_of(sha256_of(payload));
    let all = merged(hs, host, now.full_stamp(), cred.2, payload_hash);
    assert(out.drop_last() =~= all);
    let names = signed_names(all);
    let scope = credential_scope(now.date_stamp(), cred.3);
    let creq = canonical_request(method, path_of(url), all, payload_hash);
    let a = method + "\n"@ + path_of(url) + "\n"@ + "\n"@ + canonical_block(all) + "\n"@;
    assert(creq =~= a + names + ("\n"@ + payload_hash));
    assert((a + names + ("\n"@ + payload_hash)).subrange(a.len() as int, a.len() + names.len() as int)
        =~= names);
    let sig = signature(cred.1, now.date_stamp(), cred.3, string_to_sign(now.full_stamp(), scope, creq));
    let b = "AWS4-HMAC-SHA256 Credential="@ + cred.0 + "/"@ + scope + ", SignedHeaders="@;
    assert(authorization(cred.0, scope, names, sig) =~= b + names + (", Signature="@ + sig));
    assert((b + names + (", Signature="@ + sig)).subrange(b.len() as int, b.len() + names.len() as int)
        =~= names);
}

pub open spec fn unreserved(has_token: bool) -> spec_fn((Seq<char>, Seq<char>)) -> bool {
    |h: (Seq<char>, Seq<char>)| !is_reserved(h.0, has_token)
}

proof fn lemma_kept_multiset(hs: Seq<(Seq<char>, Seq<char>)>, has_token: bool)
    ensures
        kept(hs, has_token).to_multiset() =~= hs.to_multiset().filter(unreserved(has_token)),
    decreases hs.len(),
{
    broadcast use vstd::multiset::group_multiset_axioms;

    if hs.len() > 0 {
        lemma_kept_multiset(hs.drop_last(), has_token);
        assert(hs =~= hs.drop_last().push(hs.last()));
    } else {
        assert(hs.to_multiset() =~= Multiset::empty());
    }
}

proof fn lemma_map_multiset<A, B>(s1: Seq<A>, s2: Seq<A>, f: spec_fn(A) -> B)
    requires
        s1.to_multiset() == s2.to_multiset(),
    ensures
        s1.map_values(f).to_multiset() =~= s2.map_values(f).to_multiset(),
    decreases s1.len(),
{
    broadcast use vstd::multiset::group_multiset_axioms;

    if s1.len() == 0 {
        assert(s2.to_multiset().len() == 0);
        assert(s1.map_values(f) =~= Seq::<B>::empty());
        assert(s2.map_values(f) =~= Seq::<B>::empty());
    } else {
        let x = s1.last();
        let s1p = s1.drop_last();
        assert(s1 =~= s1p.push(x));
        assert(s2.to_multiset().count(x) > 0);
        assert(s2.contains(x));
        let k = choose|k: int| 0 <= k < s2.len() && s2[k] == x;
        let s2p = s2.remove(k);
        assert(s1p.to_multiset() =~= s2p.to_multiset());
        lemma_map_multiset(s1p, s2p, f);
        assert(s1.map_values(f) =~= s1p.map_values(f).push(f(x)));
        assert(s2.map_values(f) =~= s2p.map_values(f).insert(k, f(x)));
    }
}

proof fn lemma_sorted_of_same_multiset(a: Seq<Seq<char>>, b: Seq<Seq<char>>)
    requires
        a.to_multiset() == b.to_multiset(),
    ensures
        a.sort_by(text_order()) == b.sort_by(text_order()),
{
    crate::text::lemma_text_order_total();
    a.lemma_sort_by_ensures(text_order());
    b.lemma_sort_by_ensures(text_order());
    lemma_sorted_unique(a.sort_by(text_order()), b.sort_by(text_order()), text_order());
}

/// Reordering a header list changes neither its canonical header block
/// nor its signed-headers list.
pub proof fn lemma_canonical_block_order_free(h1: Seq<(Seq<char>, Seq<char>)>, h2: Seq<(Seq<char>, Seq<char>)>)
    requires
        h1.to_multiset() == h2.to_multiset(),
    ensures
        canonical_block(h1) == canonical_block(h2),
        signed_names(h1) == signed_names(h2),
{
    let line = |h: (Seq<char>, Seq<char>)| canonical_line(h);
    let name = |h: (Seq<char>, Seq<char>)| lower_of(h.0);
    lemma_map_multiset(h1, h2, line);
    lemma_map_multiset(h1, h2, name);
    lemma_sorted_of_same_multiset(h1.map_values(line), h2.map_values(line));
    lemma_sorted_of_same_multiset(h1.map_values(name), h2.map_values(name));
}

/// The order in which the caller lists its headers does not matter: two
/// lists with the same entries give the same canonical header block, the
/// same signed-headers list, the same Authorization header, and returned
/// header lists with the same entries.
pub proof fn lemma_header_order_irrelevant(
    cred: Credential,
    method: Seq<char>,
    url: Seq<char>,
    h1: Seq<(Seq<char>, Seq<char>)>,
    h2: Seq<(Seq<char>, Seq<char>)>,
    payload: Seq<u8>,
    now: Timestamp,
)
    requires
        h1.to_multiset() == h2.to_multiset(),
    ensures
        forall|host: Seq<char>, ph: Seq<char>|
            canonical_block(#[trigger] merged(h1, host, now.full_stamp(), cred.2, ph)) == canonical_block(
                merged(h2, host, now.full_stamp(), cred.2, ph),
            ) && signed_names(merged(h1, host, now.full_stamp(), cred.2, ph)) == signed_names(
                merged(h2, host, now.full_stamp(), cred.2, ph),
            ),
        signed_request_headers(cred, method, url, h1, payload, now) matches Some(o1) ==> (
        signed_request_headers(cred, method, url, h2, payload, now) matches Some(o2) && o1.last()
            == o2.last() && o1.to_multiset() == o2.to_multiset()),
{
    let t = cred.2 is Some;
    lemma_kept_multiset(h1, t);
    lemma_kept_multiset(h2, t);
    assert forall|host: Seq<char>, ph: Seq<char>|
        canonical_block(#[trigger] merged(h1, host, now.full_stamp(), cred.2, ph)) == canonical_block(
            merged(h2, host, now.full_stamp(), cred.2, ph),
        ) && signed_names(merged(h1, host, now.full_stamp(), cred.2, ph)) == signed_names(
            merged(h2, host, now.full_stamp(), cred.2, ph),
        ) by {
        let add = added(host, now.full_stamp(), cred.2, ph);
        lemma_multiset_commutative(kept(h1, t), add);
        lemma_multiset_commutative(kept(h2, t), add);
        lemma_canonical_block_order_free(
            merged(h1, host, now.full_stamp(), cred.2, ph),
            merged(h2, host, now.full_stamp(), cred.2, ph),
        );
    }
    if signed_request_headers(cred, method, url, h1, payload, now) is Some {
        let host = host_of(url)->0;
        let ph = hex_of(sha256_of(payload));
        let add = added(host, now.full_stamp(), cred.2, ph);
        let m1 = merged(h1, host, now.full_stamp(), cred.2, ph);
        let m2 = merged(h2, host, now.full_stamp(), cred.2, ph);
        lemma_multiset_commutative(kept(h1, t), add);
        lemma_multiset_commutative(kept(h2, t), add);
        assert(m1.to_multiset() == m2.to_multiset());
        assert(canonical_block(m1) == canonical_block(m2));
        let o1 = signed_request_headers(cred, method, url, h1, payload, now)->0;
        let o2 = signed_request_headers(cred, method, url, h2, payload, now)->0;
        assert(o1 == m1.push(o1.last()));
        assert(o2 == m2.push(o2.last()));
        assert(o1.last() == o2.last());
    }
}

pub open spec fn pow10(w: nat) -> nat
    decreases w,
{
    if w == 0 {
        1
    } else {
        10 * pow10((w - 1) as nat)
    }
}

proof fn lemma_digits_len(n: nat, w: nat)
    ensures
        digits(n, w).len() == w,
    decreases w,
{
    if w > 0 {
        lemma_digits_len(n / 10, (w - 1) as nat);
    }
}

proof fn lemma_digits_injective(a: nat, b: nat, w: nat)
    requires
        a < pow10(w),
        b < pow10(w),
        digits(a, w) == digits(b, w),
    ensures
        a == b,
    decreases w,
{
    if w > 0 {
        let p = pow10((w - 1) as nat);
        assert(digits(a, w).last() == digit_char(a % 10));
        assert(digits(b, w).last() == digit_char(b % 10));
        assert(a % 10 == b % 10);
        assert(digits(a, w).drop_last() == digits(a / 10, (w - 1) as nat));
        assert(digits(b, w).drop_last() == digits(b / 10, (w - 1) as nat));
        assert(a / 10 < p) by (nonlinear_arith)
            requires
                a < 10 * p,
        ;
        assert(b / 10 < p) by (nonlinear_arith)
            requires
                b < 10 * p,
        ;
        lemma_digits_injective(a / 10, b / 10, (w - 1) as nat);
        assert(a == 10 * (a / 10) + a % 10);
        assert(b == 10 * (b / 10) + b % 10);
    }
}

/// Two different moments give different `x-amz-date` stamps, so attempts
/// signed at different moments never carry the same stamp.
pub proof fn lemma_distinct_moments_distinct_stamps(t1: Timestamp, t2: Timestamp)
    requires
        t1.wf(),
        t2.wf(),
        t1 != t2,
    ensures
        t1.full_stamp() != t2.full_stamp(),
{
    reveal_strlit("T");
    reveal_strlit("Z");
    assert(pow10(0) == 1);
    assert(pow10(1) == 10);
    assert(pow10(2) == 100);
    assert(pow10(3) == 1000);
    assert(pow10(4) == 10000);
    if t1.full_stamp() == t2.full_stamp() {
        let (f, g) = (t1.full_stamp(), t2.full_stamp());
        lemma_digits_len(t1.year as nat, 4);
        lemma_digits_len(t2.year as nat, 4);
        lemma_digits_len(t1.month as nat, 2);
        lemma_digits_len(t2.month as nat, 2);
        lemma_digits_len(t1.day as nat, 2);
        lemma_digits_len(t2.day as nat, 2);
        lemma_digits_len(t1.hour as nat, 2);
        lemma_digits_len(t2.hour as nat, 2);
        lemma_digits_len(t1.minute as nat, 2);
        lemma_digits_len(t2.minute as nat, 2);
        lemma_digits_len(t1.second as nat, 2);
        lemma_digits_len(t2.second as nat, 2);
        assert(f.subrange(0, 4) =~= digits(t1.year as nat, 4));
        assert(g.subrange(0, 4) =~= digits(t2.year as nat, 4));
        assert(f.subrange(4, 6) =~= digits(t1.month as nat, 2));
        assert(g.subrange(4, 6) =~= digits(t2.month as nat, 2));
        assert(f.subrange(6, 8) =~= digits(t1.day as nat, 2));
        assert(g.subrange(6, 8) =~= digits(t2.day as nat, 2));
        assert(f.subrange(9, 11) =~= digits(t1.hour as nat, 2));
        assert(g.subrange(9, 11) =~= digits(t2.hour as nat, 2));
        assert(f.subrange(11, 13) =~= digits(t1.minute as nat, 2));
        assert(g.subrange(11, 13) =~= digits(t2.minute as nat, 2));
        assert(f.subrange(13, 15) =~= digits(t1.second as nat, 2));
        assert(g.subrange(13, 15) =~= digits(t2.second as nat, 2));
        lemma_digits_injective(t1.year as nat, t2.year as nat, 4);
        lemma_digits_injective(t1.month as nat, t2.month as nat, 2);
        lemma_digits_injective(t1.day as nat, t2.day as nat, 2);
        lemma_digits_injective(t1.hour as nat, t2.hour as nat, 2);
        lemma_digits_injective(t1.minute as nat, t2.minute as nat, 2);
        lemma_digits_injective(t1.second as nat, t2.second as nat, 2);
    }
}

proof fn lemma_hex_len(b: Seq<u8>)
    ensures
        hex_of(b).len() == 2 * b.len(),
    decreases b.len(),
{
    if b.len() > 0 {
        lemma_hex_len(b.drop_last());
    }
}

/// A lower-case hexadecimal digit.
pub open spec fn is_hex_char(c: char) -> bool {
    ('0' <= c && c <= '9') || ('a' <= c && c <= 'f')
}

proof fn lemma_hex_chars(b: Seq<u8>)
    ensures
        forall|i: int| 0 <= i < hex_of(b).len() ==> is_hex_char(#[trigger] hex_of(b)[i]),
    decreases b.len(),
{
    if b.len() > 0 {
        lemma_hex_chars(b.drop_last());
        lemma_hex_len(b.drop_last());
        let h = hex_of(b);
        let n = hex_of(b.drop_last()).len() as int;
        assert forall|i: int| 0 <= i < h.len() implies is_hex_char(#[trigger] h[i]) by {
            if i < n {
                assert(h[i] == hex_of(b.drop_last())[i]);
            }
        }
    }
}

proof fn lemma_hex_digit_injective(x: nat, y: nat)
    requires
        x < 16,
        y < 16,
        hex_digit(x) == hex_digit(y),
    ensures
        x == y,
{
}

proof fn lemma_hex_injective(a: Seq<u8>, b: Seq<u8>)
    requires
        hex_of(a) == hex_of(b),
    ensures
        a == b,
    decreases a.len(),
{
    lemma_hex_len(a);
    lemma_hex_len(b);
    if a.len() > 0 {
        let (ha, hb) = (hex_of(a), hex_of(b));
        lemma_hex_len(a.drop_last());
        lemma_hex_len(b.drop_last());
        let n = ha.len() as int;
        assert(ha[n - 2] == hex_digit(a.last() as nat / 16));
        assert(hb[n - 2] == hex_digit(b.last() as nat / 16));
        assert(ha[n - 1] == hex_digit(a.last() as nat % 16));
        assert(hb[n - 1] == hex_digit(b.last() as nat % 16));
        lemma_hex_digit_injective(a.last() as nat / 16, b.last() as nat / 16);
        lemma_hex_digit_injective(a.last() as nat % 16, b.last() as nat % 16);
        assert(hex_of(a.drop_last()) =~= ha.subrange(0, n - 2));
        assert(hex_of(b.drop_last()) =~= hb.subrange(0, n - 2));
        lemma_hex_injective(a.drop_last(), b.drop_last());
        assert(a =~= a.drop_last().push(a.last()));
        assert(b =~= b.drop_last().push(b.last()));
    } else {
        assert(b.len() == 0);
        assert(a =~= b);
    }
}

/// Payloads with different SHA-256 digests get different
/// `x-amz-content-sha256` values.
pub proof fn lemma_payload_hash_tracks_digest(p1: Seq<u8>, p2: Seq<u8>)
    requires
        sha256_of(p1) != sha256_of(p2),
    ensures
        hex_of(sha256_of(p1)) != hex_of(sha256_of(p2)),
{
    if hex_of(sha256_of(p1)) == hex_of(sha256_of(p2)) {
        lemma_hex_injective(sha256_of(p1), sha256_of(p2));
    }
}

/// The debug form of a credential: the region, with every key hidden.
pub open spec fn signer_debug_text(cred: Credential) -> Seq<char> {
    "AwsV4Signer { access_key_id: \"***REDACTED***\", secret_access_key: \"***REDACTED***\", session_token: "@
        + (if cred.2 is Some {
        "Some(\"***REDACTED***\")"@
    } else {
        "None"@
    }) + ", region: \""@ + cred.3 + "\" }"@
}

/// Signs requests with one fixed credential.  It has no derived `Debug`:
/// `debug_string` shows the region and hides the keys.
#[derive(Clone)]
pub struct AwsV4Signer {
    access_key_id: String,
    secret_access_key: String,
    session_token: Option<String>,
    region: String,
}

impl View for AwsV4Signer {
    type V = Credential;

    closed spec fn view(&self) -> Credential {
        (self.access_key_id@, self.secret_access_key@, opt_text(self.session_token), self.region@)
    }
}

impl AwsV4Signer {
    pub fn new(
        access_key_id: String,
        secret_access_key: String,
        session_token: Option<String>,
        region: String,
    ) -> (r: Self)
        ensures
            r@ == (access_key_id@, secret_access_key@, opt_text(session_token), region@),
    {
        AwsV4Signer { access_key_id, secret_access_key, session_token, region }
    }

    /// A description for logs that shows the region and hides every key.
    pub fn debug_string(&self) -> (r: String)
        ensures
            r@ == signer_debug_text(self@),
    {
        let mut r = String::from_str(
            "AwsV4Signer { access_key_id: \"***REDACTED***\", secret_access_key: \"***REDACTED***\", session_token: ",
        );
        match &self.session_token {
            Some(_) => r.append("Some(\"***REDACTED***\")"),
            None => r.append("None"),
        }
        r.append(", region: \"");
        r.append(self.region.as_str());
        r.append("\" }");
        r
    }

    /// The region that signatures are scoped to.
    pub fn region(&self) -> (r: &str)
        ensures
            r@ == self@.3,
    {
        self.region.as_str()
    }

    /// The headers to send with a request of `method` to `url` whose body
    /// is `payload`, at the moment `now`: the caller's headers, `host`,
    /// `x-amz-date`, the session token if any, `x-amz-content-sha256`, and
    /// `authorization`.  Fails where the URL has no host.
    pub fn sign_request(
        &self,
        method: &str,
        url: &str,
        headers: Vec<Header>,
        payload: &[u8],
        now: &Timestamp,
    ) -> (r: Result<Vec<Header>, S3VectorsError>)
        requires
            now.wf(),
            distinct_names(header_view(headers@)),
        ensures
            match signed_request_headers(self@, method@, url@, header_view(headers@), payload@, *now) {
                Some(h) => r matches Ok(out) && header_view(out@) == h,
                None => r matches Err(S3VectorsError::SigningError(_)),
            },
    {
        let parts = url_parts(url);
        let (host, path) = match parts {
            Some((Some(h), port, p)) => {
                let mut host = h;
                match port {
                    Some(n) => {
                        host.append(":");
                        push_decimal(&mut host, n as u64);
                    },
                    None => {},
                }
                (host, p)
            },
            _ => {
                return Err(S3VectorsError::SigningError("URL has no host".to_string()));
            },
        };
        let date_stamp = now.date_stamp_text();
        let time_stamp = now.full_stamp_text();
        let digest = sha256(payload);
        let payload_hash = hex_encode(digest.as_slice());

        let all = self.merge_headers(headers, host, time_stamp.clone(), payload_hash.clone());
        let canonical_headers = self.create_canonical_headers_map(&all);
        let signed_headers_str = self.get_signed_headers_map(&all);

        let mut canonical_request = String::from_str(method);
        canonical_request.append("\n");
        canonical_request.append(path.as_str());
        canonical_request.append("\n");
        canonical_request.append("\n");
        canonical_request.append(canonical_headers.as_str());
        canonical_request.append("\n");
        canonical_request.append(signed_headers_str.as_str());
        canonical_request.append("\n");
        canonical_request.append(payload_hash.as_str());

        let request_digest = sha256(canonical_request.as_str().as_bytes());
        let request_hash = hex_encode(request_digest.as_slice());
        let mut credential_scope = date_stamp.clone();
        credential_scope.append("/");
        credential_scope.append(self.region.as_str());
        credential_scope.append("/s3vectors/aws4_request");

        let mut string_to_sign = String::from_str("AWS4-HMAC-SHA256\n");
        string_to_sign.append(time_stamp.as_str());
        string_to_sign.append("\n");
        string_to_sign.append(credential_scope.as_str());
        string_to_sign.append("\n");
        string_to_sign.append(request_hash.as_str());

        let signature = self.calculate_signature(&date_stamp, &string_to_sign);

        let mut auth_header = String::from_str("AWS4-HMAC-SHA256 Credential=");
        auth_header.append(self.access_key_id.as_str());
        auth_header.append("/");
        auth_header.append(credential_scope.as_str());
        auth_header.append(", SignedHeaders=");
        auth_header.append(signed_headers_str.as_str());
        auth_header.append(", Signature=");
        auth_header.append(signature.as_str());

        let mut out = all;
        out.push((String::from_str("authorization"), auth_header));
        proof {
            assert(header_view(out@) =~= header_view(all@).push(("authorization"@, auth_header@)));
        }
        Ok(out)
    }

    /// The caller's headers without those the signer sets, then `host`,
    /// `x-amz-date`, the session token if any, and `x-amz-content-sha256`.
    fn merge_headers(&self, headers: Vec<Header>, host: String, stamp: String, payload_hash: String) -> (r: Vec<
        Header,
    >)
        ensures
            header_view(r@) == merged(header_view(headers@), host@, stamp@, self@.2, payload_hash@),
    {
        let has_token = self.session_token.is_some();
        let mut out: Vec<Header> = Vec::new();
        let mut i: usize = 0;
        while i < headers.len()
            invariant
                i <= headers.len(),
                has_token == (self@.2 is Some),
                header_view(out@) == kept(header_view(headers@.subrange(0, i as int)), has_token),
            decreases headers.len() - i,
        {
            let name = &headers[i].0;
            let reserved = str_eq(name.as_str(), "authorization") || str_eq(name.as_str(), "host")
                || str_eq(name.as_str(), "x-amz-date")
                || str_eq(name.as_str(), "x-amz-content-sha256") || (has_token && str_eq(
                name.as_str(),
                "x-amz-security-token",
            ));
            proof {
                let s = header_view(headers@.subrange(0, i + 1));
                assert(s.drop_last() =~= header_view(headers@.subrange(0, i as int)));
                assert(s.last() == (headers@[i as int].0@, headers@[i as int].1@));
            }
            if !reserved {
                let ghost before = out@;
                out.push((headers[i].0.clone(), headers[i].1.clone()));
                proof {
                    assert(header_view(out@) =~= header_view(before).push(
                        (headers@[i as int].0@, headers@[i as int].1@),
                    ));
                }
            }
            i = i + 1;
        }
        proof {
            assert(headers@.subrange(0, headers@.len() as int) =~= headers@);
        }
        let ghost kept_part = out@;
        out.push((String::from_str("host"), host));
        out.push((String::from_str("x-amz-date"), stamp));
        match &self.session_token {
            Some(t) => {
                out.push((String::from_str("x-amz-security-token"), t.clone()));
            },
            None => {},
        }
        out.push((String::from_str("x-amz-content-sha256"), payload_hash));
        proof {
            assert(header_view(out@) =~= header_view(kept_part) + added(
                host@,
                stamp@,
                self@.2,
                payload_hash@,
            ));
        }
        out
    }

    /// The canonical header block of `headers`.
    fn create_canonical_headers_map(&self, headers: &Vec<Header>) -> (r: String)
        ensures
            r@ == canonical_block(header_view(headers@)),
    {
        let mut canonical: Vec<String> = Vec::new();
        let mut i: usize = 0;
        while i < headers.len()
            invariant
                i <= headers.len(),
                views(canonical@) == header_view(headers@).subrange(0, i as int).map_values(
                    |h: (Seq<char>, Seq<char>)| canonical_line(h),
                ),
            decreases headers.len() - i,
        {
            let mut line = lowercase(headers[i].0.as_str());
            line.append(":");
            line.append(trimmed(headers[i].1.as_str()));
            let ghost before = canonical@;
            canonical.push(line);
            proof {
                assert(views(canonical@) =~= views(before).push(line@));
                assert(header_view(headers@).subrange(0, i + 1) =~= header_view(headers@).subrange(
                    0,
                    i as int,
                ).push(header_view(headers@)[i as int]));
            }
            i = i + 1;
        }
        proof {
            assert(header_view(headers@).subrange(0, headers@.len() as int) =~= header_view(
                headers@,
            ));
        }
        let sorted = sort_texts(canonical);
        let mut r = join_texts(&sorted, "\n");
        r.append("\n");
        r
    }

    /// The signed-headers list of `headers`.
    fn get_signed_headers_map(&self, headers: &Vec<Header>) -> (r: String)
        ensures
            r@ == signed_names(header_view(headers@)),
    {
        let mut signed: Vec<String> = Vec::new();
        let mut i: usize = 0;
        while i < headers.len()
            invariant
                i <= headers.len(),
                views(signed@) == header_view(headers@).subrange(0, i as int).map_values(
                    |h: (Seq<char>, Seq<char>)| lower_of(h.0),
                ),
            decreases headers.len() - i,
        {
            let name = lowercase(headers[i].0.as_str());
            let ghost before = signed@;
            signed.push(name);
            proof {
                assert(views(signed@) =~= views(before).push(name@));
                assert(header_view(headers@).subrange(0, i + 1) =~= header_view(headers@).subrange(
                    0,
                    i as int,
                ).push(header_view(headers@)[i as int]));
            }
            i = i + 1;
        }
        proof {
            assert(header_view(headers@).subrange(0, headers@.len() as int) =~= header_view(
                headers@,
            ));
        }
        let sorted = sort_texts(signed);
        join_texts(&sorted, ";")
    }

    /// The hex signature of `string_to_sign` under the key derived for
    /// `date_stamp`, this signer's region and the service.
    fn calculate_signature(&self, date_stamp: &String, string_to_sign: &String) -> (r: String)
        ensures
            r@ == signature(self@.1, date_stamp@, self@.3, string_to_sign@),
            r@.len() == 64,
            forall|i: int| 0 <= i < r@.len() ==> is_hex_char(#[trigger] r@[i]),
    {
        let mut k_secret = String::from_str("AWS4");
        k_secret.append(self.secret_access_key.as_str());
        let k_date = sign(k_secret.as_str().as_bytes(), date_stamp.as_str().as_bytes());
        let k_region = sign(k_date.as_slice(), self.region.as_str().as_bytes());
        let k_service = sign(k_region.as_slice(), "s3vectors".as_bytes());
        let k_signing = sign(k_service.as_slice(), "aws4_request".as_bytes());
        let sig = sign(k_signing.as_slice(), string_to_sign.as_str().as_bytes());
        proof {
            lemma_hex_len(sig@);
            lemma_hex_chars(sig@);
        }
        hex_encode(sig.as_slice())
    }
}

} // verus!
