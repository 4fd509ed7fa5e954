//! Expiration timestamps: seconds since the Unix epoch, stored as eight
//! big-endian bytes.

use vstd::prelude::*;

verus! {

/// Seconds in one hour: the pause between two sweep cycles.
pub const HOUR: u64 = 3600;

/// Seconds in one day: the lifetime of an object whose uploader names none.
pub const DAY: u64 = 86400;

/// Seconds a session lives after login. It is never renewed.
pub const SESSION_TTL: u64 = 7 * DAY;

/// Number of bytes of a stored timestamp.
pub const TIMESTAMP_LEN: usize = 8;

/// `t` without its `k` least significant bytes, for `k` up to seven.
pub open spec fn high_part(t: int, k: int) -> int {
    if k <= 0 {
        t
    } else if k == 1 {
        t / 256
    } else if k == 2 {
        t / 256 / 256
    } else if k == 3 {
        t / 256 / 256 / 256
    } else if k == 4 {
        t / 256 / 256 / 256 / 256
    } else if k == 5 {
        t / 256 / 256 / 256 / 256 / 256
    } else if k == 6 {
        t / 256 / 256 / 256 / 256 / 256 / 256
    } else {
        t / 256 / 256 / 256 / 256 / 256 / 256 / 256
    }
}

/// The byte at position `i` (0 is the most significant) of the big-endian
/// form of `t`.
pub open spec fn be_byte(t: u64, i: int) -> u8 {
    (high_part(t as int, 7 - i) % 256) as u8
}

/// The eight big-endian bytes of `t`.
pub open spec fn be_bytes(t: u64) -> Seq<u8> {
    Seq::new(8, |i: int| be_byte(t, i))
}

/// The number that eight big-endian bytes stand for.
pub open spec fn be_value(b: Seq<u8>) -> int
    recommends
        b.len() == 8,
{
    ((((((b[0] * 256 + b[1]) * 256 + b[2]) * 256 + b[3]) * 256 + b[4]) * 256 + b[5]) * 256
        + b[6]) * 256 + b[7]
}

/// What a stored value means as a timestamp: a value of any other length
/// than eight bytes means nothing.
pub open spec fn parse(b: Seq<u8>) -> Option<u64> {
    if b.len() == 8 {
        Some(be_value(b) as u64)
    } else {
        None
    }
}

/// Whether an object that expires at `expiration` can still be read at `now`.
pub open spec fn spec_is_live(expiration: u64, now: u64) -> bool {
    now < expiration
}

/// Whether `expiration` lies strictly in the past at `now`: the test of the
/// sweeps and of session validation.
pub open spec fn spec_has_lapsed(expiration: u64, now: u64) -> bool {
    now > expiration
}

/// Reading back the big-endian bytes of a number gives that number.
pub proof fn lemma_parse_be_bytes(t: u64)
    ensures
        be_value(be_bytes(t)) == t,
        parse(be_bytes(t)) == Some(t),
{
    let b = be_bytes(t);
    let n = t as int;
    assert(b.len() == 8);
    assert(high_part(n, 7) < 256);
    assert(b[0] == high_part(n, 7));
    assert(b[0] * 256 + b[1] == high_part(n, 6));
    assert(high_part(n, 6) * 256 + b[2] == high_part(n, 5));
    assert(high_part(n, 5) * 256 + b[3] == high_part(n, 4));
    assert(high_part(n, 4) * 256 + b[4] == high_part(n, 3));
    assert(high_part(n, 3) * 256 + b[5] == high_part(n, 2));
    assert(high_part(n, 2) * 256 + b[6] == high_part(n, 1));
    assert(high_part(n, 1) * 256 + b[7] == n);
}

/// Eight bytes are the big-endian form of the number they stand for, and
/// that number fits in 64 bits.
pub proof fn lemma_be_bytes_parse(b: Seq<u8>)
    requires
        b.len() == 8,
    ensures
        0 <= be_value(b) <= u64::MAX,
        be_bytes(be_value(b) as u64) == b,
{
    let n = be_value(b);
    let head1 = b[0] as int;
    let head2 = head1 * 256 + b[1];
    let head3 = head2 * 256 + b[2];
    let head4 = head3 * 256 + b[3];
    let head5 = head4 * 256 + b[4];
    let head6 = head5 * 256 + b[5];
    let head7 = head6 * 256 + b[6];
    assert(n == head7 * 256 + b[7]);
    assert(0 <= n <= u64::MAX);
    assert(high_part(n, 1) == head7);
    assert(high_part(n, 2) == head6);
    assert(high_part(n, 3) == head5);
    assert(high_part(n, 4) == head4);
    assert(high_part(n, 5) == head3);
    assert(high_part(n, 6) == head2);
    assert(high_part(n, 7) == head1);
    let t = n as u64;
    assert(be_byte(t, 0) == b[0]);
    assert(be_byte(t, 1) == b[1]);
    assert(be_byte(t, 2) == b[2]);
    assert(be_byte(t, 3) == b[3]);
    assert(be_byte(t, 4) == b[4]);
    assert(be_byte(t, 5) == b[5]);
    assert(be_byte(t, 6) == b[6]);
    assert(be_byte(t, 7) == b[7]);
    assert(be_bytes(t) =~= b);
}

/// The stored form of a timestamp.
pub fn encode(t: u64) -> (bytes: Vec<u8>)
    ensures
        bytes@ == be_bytes(t),
{
    let r1: u64 = t / 256;
    let r2: u64 = r1 / 256;
    let r3: u64 = r2 / 256;
    let r4: u64 = r3 / 256;
    let r5: u64 = r4 / 256;
    let r6: u64 = r5 / 256;
    let r7: u64 = r6 / 256;
    let mut bytes: Vec<u8> = Vec::new();
    bytes.push((r7 % 256) as u8);
    bytes.push((r6 % 256) as u8);
    bytes.push((r5 % 256) as u8);
    bytes.push((r4 % 256) as u8);
    bytes.push((r3 % 256) as u8);
    bytes.push((r2 % 256) as u8);
    bytes.push((r1 % 256) as u8);
    bytes.push((t % 256) as u8);
    assert(bytes@ =~= be_bytes(t));
    bytes
}

/// Reads a stored timestamp back: `None` exactly when the value is not
/// eight bytes long.
pub fn decode(bytes: &[u8]) -> (t: Option<u64>)
    ensures
        t == parse(bytes@),
        t is Some <==> bytes@.len() == 8,
        t matches Some(v) ==> bytes@ == be_bytes(v),
{
    if bytes.len() != TIMESTAMP_LEN {
        return None;
    }
    proof {
        lemma_be_bytes_parse(bytes@);
    }
    let head1: u64 = bytes[0] as u64;
    let head2: u64 = head1 * 256 + bytes[1] as u64;
    let head3: u64 = head2 * 256 + bytes[2] as u64;
    let head4: u64 = head3 * 256 + bytes[3] as u64;
    let head5: u64 = head4 * 256 + bytes[4] as u64;
    let head6: u64 = head5 * 256 + bytes[5] as u64;
    let head7: u64 = head6 * 256 + bytes[6] as u64;
    Some(head7 * 256 + bytes[7] as u64)
}

/// Whether an object that expires at `expiration` can still be read at `now`.
pub fn is_live(expiration: u64, now: u64) -> (live: bool)
    ensures
        live == spec_is_live(expiration, now),
{
    now < expiration
}

/// Whether `expiration` lies strictly in the past at `now`.
pub fn has_lapsed(expiration: u64, now: u64) -> (lapsed: bool)
    ensures
        lapsed == spec_has_lapsed(expiration, now),
{
    now > expiration
}

/// The expiration of an object uploaded at `now` without one of its own:
/// one day later.
pub fn default_expiration(now: u64) -> (expiration: u64)
    requires
        now + DAY <= u64::MAX,
    ensures
        expiration == now + DAY,
{
    now + DAY
}

/// The expiration of an upload at `now`: the one that the uploader asked
/// for, an absolute time, or one day after `now` where none was asked for.
pub fn expiration_or_default(requested: Option<u64>, now: u64) -> (expiration: u64)
    requires
        requested is None ==> now + DAY <= u64::MAX,
    ensures
        expiration == match requested {
            Some(at) => at as int,
            None => now + DAY,
        },
{
    match requested {
        Some(at) => at,
        None => default_expiration(now),
    }
}

/// The expiration of a session opened at `now`: seven days later.
pub fn session_expiration(now: u64) -> (expiration: u64)
    requires
        now + SESSION_TTL <= u64::MAX,
    ensures
        expiration == now + SESSION_TTL,
{
    now + SESSION_TTL
}

} // verus!
