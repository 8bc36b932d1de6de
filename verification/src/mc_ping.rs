//! The Minecraft (Java Edition) Server List Ping: the packets sent to ask a
//! server for its status and the reading of the player counts from its JSON
//! answer.
use vstd::prelude::*;
use vstd::string::StringSliceAdditionalSpecFns;
use crate::json::{json_u64_at, json_u64_lookup};
use crate::text::{chars_of, string_of};
use crate::varint::{varint_encoding, write_varint};

verus! {

/// Appends `bytes` to `out`.
fn push_bytes(out: &mut Vec<u8>, bytes: &[u8])
    ensures
        final(out)@ == old(out)@ + bytes@,
{
    let mut k: usize = 0;
    while k < bytes.len()
        invariant
            k <= bytes@.len(),
            out@ == old(out)@ + bytes@.take(k as int),
        decreases bytes@.len() - k,
    {
        out.push(bytes[k]);
        k = k + 1;
        assert(out@ =~= old(out)@ + bytes@.take(k as int));
    }
    assert(bytes@.take(bytes@.len() as int) =~= bytes@);
}

/// The handshake packet body (packet id 0x00): protocol version -1, the
/// server address as a length-prefixed UTF-8 string, the port big-endian,
/// and next state 1 (status).
pub open spec fn handshake_body(host: Seq<u8>, port: u16) -> Seq<u8> {
    seq![0x00u8] + varint_encoding((-1i32) as u32) + varint_encoding((host.len() as i32) as u32)
        + host + seq![(port >> 8u16) as u8, (port & 0xffu16) as u8] + varint_encoding(1u32)
}

/// The handshake names the server it greets: after the address come the
/// port's two bytes, high byte first (`port.to_be_bytes()`), then the next
/// state 1; the same holds at the end of the framed packet.
pub proof fn lemma_handshake_port(host: Seq<u8>, port: u16)
    ensures
        ({
            let b = handshake_body(host, port);
            let n = b.len();
            &&& n >= host.len() + 4
            &&& b[0] == 0u8
            &&& b.subrange(1, 6) == seq![0xffu8, 0xffu8, 0xffu8, 0xffu8, 0x0fu8]
            &&& b.subrange(n - 3 - host.len(), n - 3) == host
            &&& b[n - 3] as int * 256 + b[n - 2] as int == port as int
            &&& b[n - 1] == 1u8
        }),
        ({
            let f = framed(handshake_body(host, port));
            let m = f.len();
            &&& m >= 3
            &&& f[m - 3] as int * 256 + f[m - 2] as int == port as int
            &&& f[m - 1] == 1u8
        }),
{
    let b = handshake_body(host, port);
    let hi = (port >> 8u16) as u8;
    let lo = (port & 0xffu16) as u8;
    assert(hi as int * 256 + lo as int == port as int) by (bit_vector)
        requires
            hi == (port >> 8u16) as u8,
            lo == (port & 0xffu16) as u8,
    ;
    assert(varint_encoding(1u32) =~= seq![1u8]) by {
        assert(1u32 >> 7u32 == 0 && (1u32 & 0x7f) as u8 == 1u8) by (bit_vector);
    }
    let m1 = (-1i32) as u32;
    assert(m1 == 0xffff_ffffu32) by (bit_vector)
        requires
            m1 == (-1i32) as u32,
    ;
    assert(varint_encoding(m1) =~= seq![0xffu8, 0xffu8, 0xffu8, 0xffu8, 0x0fu8]) by {
        let w1 = m1 >> 7u32;
        let w2 = w1 >> 7u32;
        let w3 = w2 >> 7u32;
        let w4 = w3 >> 7u32;
        assert(w1 == 0x1ff_ffffu32 && w2 == 0x3_ffffu32 && w3 == 0x7ffu32 && w4 == 0xfu32
            && w4 >> 7u32 == 0) by (bit_vector)
            requires
                m1 == 0xffff_ffffu32,
                w1 == m1 >> 7u32,
                w2 == w1 >> 7u32,
                w3 == w2 >> 7u32,
                w4 == w3 >> 7u32,
        ;
        assert(((m1 & 0x7f) as u8 | 0x80u8) == 0xffu8 && ((w1 & 0x7f) as u8 | 0x80u8) == 0xffu8
            && ((w2 & 0x7f) as u8 | 0x80u8) == 0xffu8 && ((w3 & 0x7f) as u8 | 0x80u8) == 0xffu8
            && (w4 & 0x7f) as u8 == 0x0fu8) by (bit_vector)
            requires
                m1 == 0xffff_ffffu32,
                w1 == 0x1ff_ffffu32,
                w2 == 0x3_ffffu32,
                w3 == 0x7ffu32,
                w4 == 0xfu32,
        ;
        assert(varint_encoding(w4) == seq![0x0fu8]);
        assert(varint_encoding(w3) == seq![0xffu8] + varint_encoding(w4));
        assert(varint_encoding(w2) == seq![0xffu8] + varint_encoding(w3));
        assert(varint_encoding(w1) == seq![0xffu8] + varint_encoding(w2));
        assert(varint_encoding(m1) == seq![0xffu8] + varint_encoding(w1));
    }
    let head = seq![0x00u8] + varint_encoding((-1i32) as u32) + varint_encoding(
        (host.len() as i32) as u32,
    );
    assert(b =~= head + host + seq![hi, lo] + seq![1u8]);
    let n = b.len();
    assert(b.subrange(1, 6) =~= varint_encoding(m1));
    assert(b.subrange(n - 3 - host.len(), n - 3) =~= host);
    let f = framed(b);
    assert(f =~= varint_encoding((b.len() as i32) as u32) + b);
    assert(f[f.len() - 3] == b[n - 3] && f[f.len() - 2] == b[n - 2] && f[f.len() - 1] == b[n - 1]);
}

/// A packet framed with its length in front.
pub open spec fn framed(body: Seq<u8>) -> Seq<u8> {
    varint_encoding((body.len() as i32) as u32) + body
}

/// The framed handshake packet that opens a status query to `host:port`.
pub fn handshake_packet(host: &str, port: u16) -> (r: Vec<u8>)
    ensures
        r@ == framed(handshake_body(host.spec_bytes(), port)),
{
    let mut handshake: Vec<u8> = Vec::new();
    handshake.push(0x00u8);
    write_varint(&mut handshake, -1);
    let bytes = host.as_bytes();
    write_varint(&mut handshake, bytes.len() as i32);
    push_bytes(&mut handshake, bytes);
    let hi: u8 = (port >> 8) as u8;
    let lo: u8 = (port & 0xff) as u8;
    handshake.push(hi);
    handshake.push(lo);
    write_varint(&mut handshake, 1);
    assert(handshake@ =~= handshake_body(host.spec_bytes(), port));
    let mut out: Vec<u8> = Vec::new();
    write_varint(&mut out, handshake.len() as i32);
    push_bytes(&mut out, handshake.as_slice());
    assert(out@ =~= framed(handshake_body(host.spec_bytes(), port)));
    out
}

/// The status request packet: length 1, packet id 0x00, empty body.
pub fn status_request() -> (r: Vec<u8>)
    ensures
        r@ == seq![0x01u8, 0x00u8],
{
    let mut r: Vec<u8> = Vec::new();
    r.push(0x01);
    r.push(0x00);
    assert(r@ =~= seq![0x01u8, 0x00u8]);
    r
}

/// The largest status JSON accepted from a server, in bytes.
pub open spec fn max_status_json_len() -> int {
    10485760
}

/// The length the server announced for its JSON, as a byte count, when it
/// is not negative and at most 10 MiB; otherwise the error for an
/// unexpectedly large answer (a negative length reads as a huge one).
pub fn check_status_json_len(announced: i32) -> (r: Result<usize, String>)
    ensures
        match r {
            Ok(n) => 0 <= announced <= max_status_json_len() && n == announced,
            Err(m) => !(0 <= announced <= max_status_json_len()) && m@
                == "Unerwartet große Antwort vom Server"@,
        },
{
    if announced < 0 || announced > 10 * 1024 * 1024 {
        return Err(string_of(&chars_of("Unerwartet große Antwort vom Server")));
    }
    Ok(announced as usize)
}

/// A player count as the status shows it: the low 32 bits of the number.
pub open spec fn player_count(n: Option<u64>) -> Option<u32> {
    match n {
        Some(v) => Some(v as u32),
        None => None,
    }
}

/// The players online and the player limit from the numbers found in the
/// status JSON.
pub fn players_from_counts(online: Option<u64>, max: Option<u64>) -> (r: (Option<u32>, Option<u32>))
    ensures
        r == (player_count(online), player_count(max)),
{
    let a = match online {
        Some(n) => Some(n as u32),
        None => None,
    };
    let b = match max {
        Some(n) => Some(n as u32),
        None => None,
    };
    (a, b)
}

/// The players online and the player limit from a status response's JSON
/// (`players.online`, `players.max`); an error when it is not JSON.
pub fn player_counts(json: &[u8]) -> (r: Result<(Option<u32>, Option<u32>), String>)
    ensures
        match json_u64_at(json@, "players"@, "online"@) {
            Err(e) => r is Err && r->Err_0@ == e,
            Ok(online) => match json_u64_at(json@, "players"@, "max"@) {
                Err(e) => r is Err && r->Err_0@ == e,
                Ok(max) => r == Ok::<(Option<u32>, Option<u32>), String>(
                    (player_count(online), player_count(max)),
                ),
            },
        },
{
    let online = match json_u64_lookup(json, "players", "online") {
        Ok(v) => v,
        Err(e) => {
            return Err(e);
        },
    };
    let max = match json_u64_lookup(json, "players", "max") {
        Ok(v) => v,
        Err(e) => {
            return Err(e);
        },
    };
    Ok(players_from_counts(online, max))
}

} // verus!
