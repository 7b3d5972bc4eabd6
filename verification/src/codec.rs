//! The tile-layer payload decoder: CSV text, or base64 with optional zlib or
//! gzip compression, decoded into a row-major grid of GIDs.

use vstd::prelude::*;

use crate::error::{ErrKind, PRes, TiledError};
use crate::strutil::{trimmed, s_parse_u32, trim_str, parse_u32_str};

verus! {

// ---------------------------------------------------------------------------
// Trusted wrappers
// ---------------------------------------------------------------------------

/// What a character sequence decodes to as standard base64, or nothing when
/// it is not valid base64.  A function of the characters alone.
pub uninterp spec fn base64_decoded(s: Seq<char>) -> Option<Seq<u8>>;

/// Relies on `base64::decode` (crate `base64`): standard alphabet with
/// padding; returns the decoded bytes, or an error for invalid input.
#[verifier::external_body]
fn b64_decode(s: &str) -> (r: Result<Vec<u8>, String>)
    ensures
        match r {
            Ok(v) => base64_decoded(s@) == Some(v@),
            Err(_) => base64_decoded(s@) is None,
        },
{
    base64::decode(s).map_err(|e| e.to_string())
}

/// What a byte sequence inflates to as a zlib stream, or nothing when the
/// stream is corrupt.  A function of the bytes alone.
pub uninterp spec fn zlib_inflated(b: Seq<u8>) -> Option<Seq<u8>>;

/// Relies on `flate2::read::ZlibDecoder`: decompresses a whole zlib stream;
/// corrupt input turns into a read error.
#[verifier::external_body]
fn zlib_decompress(b: &Vec<u8>) -> (r: Result<Vec<u8>, String>)
    ensures
        match r {
            Ok(v) => zlib_inflated(b@) == Some(v@),
            Err(_) => zlib_inflated(b@) is None,
        },
{
    let mut out = Vec::new();
    match std::io::Read::read_to_end(&mut flate2::read::ZlibDecoder::new(b.as_slice()), &mut out) {
        Ok(_) => Ok(out),
        Err(e) => Err(e.to_string()),
    }
}

/// What a byte sequence inflates to as a gzip stream, or nothing when the
/// stream is corrupt.  A function of the bytes alone.
pub uninterp spec fn gzip_inflated(b: Seq<u8>) -> Option<Seq<u8>>;

/// Relies on `flate2::read::GzDecoder`: decompresses a whole gzip stream;
/// corrupt input turns into a read error.
#[verifier::external_body]
fn gzip_decompress(b: &Vec<u8>) -> (r: Result<Vec<u8>, String>)
    ensures
        match r {
            Ok(v) => gzip_inflated(b@) == Some(v@),
            Err(_) => gzip_inflated(b@) is None,
        },
{
    let mut out = Vec::new();
    match std::io::Read::read_to_end(&mut flate2::read::GzDecoder::new(b.as_slice()), &mut out) {
        Ok(_) => Ok(out),
        Err(e) => Err(e.to_string()),
    }
}

// ---------------------------------------------------------------------------
// CSV text
// ---------------------------------------------------------------------------

/// Token separators of the CSV form: comma and line breaks.
pub open spec fn is_sep(c: char) -> bool {
    c == ',' || c == '\n' || c == '\r'
}

fn is_sep_char(c: char) -> (r: bool)
    ensures
        r == is_sep(c),
{
    c == ',' || c == '\n' || c == '\r'
}

/// Ends one token: a token that is blank after trimming is skipped, any
/// other token must parse as a GID.
pub open spec fn s_flush(tok: Seq<char>, acc: Seq<u32>) -> Option<Seq<u32>> {
    let t = trimmed(tok);
    if t.len() == 0 {
        Some(acc)
    } else {
        match s_parse_u32(t) {
            Some(v) => Some(acc.push(v)),
            None => None,
        }
    }
}

pub open spec fn s_csv_go(s: Seq<char>, i: int, cur: Seq<char>, acc: Seq<u32>) -> Option<Seq<u32>>
    decreases s.len() - i,
{
    if i < 0 || i >= s.len() {
        s_flush(cur, acc)
    } else if is_sep(s[i]) {
        match s_flush(cur, acc) {
            None => None,
            Some(a2) => s_csv_go(s, i + 1, Seq::empty(), a2),
        }
    } else {
        s_csv_go(s, i + 1, cur.push(s[i]), acc)
    }
}

/// The GIDs a CSV payload denotes: tokens split on separators, trimmed,
/// each parsed as an unsigned 32-bit integer; blank tokens are skipped.
pub open spec fn s_csv(s: Seq<char>) -> Option<Seq<u32>> {
    s_csv_go(s, 0, Seq::<char>::empty(), Seq::<u32>::empty())
}

fn flush_token(s: &str, a: usize, b: usize, acc: Vec<u32>) -> (r: Option<Vec<u32>>)
    requires
        a <= b <= s@.len(),
    ensures
        match r {
            Some(v) => s_flush(s@.subrange(a as int, b as int), acc@) == Some(v@),
            None => s_flush(s@.subrange(a as int, b as int), acc@) is None,
        },
{
    let t0: &str = s.substring_char(a, b);
    let t: &str = trim_str(t0);
    if t.unicode_len() == 0 {
        return Some(acc);
    }
    match parse_u32_str(t) {
        Some(v) => {
            let mut acc2 = acc;
            acc2.push(v);
            Some(acc2)
        },
        None => None,
    }
}

/// Decodes CSV text to a flat GID list.
pub fn parse_csv_gids(s: &str) -> (r: Option<Vec<u32>>)
    ensures
        match r {
            Some(v) => s_csv(s@) == Some(v@),
            None => s_csv(s@) is None,
        },
{
    let n: usize = s.unicode_len();
    let mut start: usize = 0;
    let mut i: usize = 0;
    let mut acc: Vec<u32> = Vec::new();
    proof {
        assert(s@.subrange(0, 0) =~= Seq::<char>::empty());
    }
    while i < n
        invariant
            n == s@.len(),
            start <= i <= n,
            s_csv(s@) == s_csv_go(s@, i as int, s@.subrange(start as int, i as int), acc@),
        decreases n - i,
    {
        let c: char = s.get_char(i);
        if is_sep_char(c) {
            match flush_token(s, start, i, acc) {
                None => {
                    return None;
                },
                Some(a2) => {
                    acc = a2;
                },
            }
            proof {
                assert(s@.subrange(i as int + 1, i as int + 1) =~= Seq::<char>::empty());
            }
            start = i + 1;
        } else {
            proof {
                assert(s@.subrange(start as int, i as int + 1) =~= s@.subrange(
                    start as int,
                    i as int,
                ).push(s@[i as int]));
            }
        }
        i = i + 1;
    }
    flush_token(s, start, n, acc)
}

// ---------------------------------------------------------------------------
// Little-endian 32-bit extraction
// ---------------------------------------------------------------------------

pub open spec fn le_val(b: Seq<u8>, k: int) -> int {
    b[4 * k] + b[4 * k + 1] * 0x100 + b[4 * k + 2] * 0x10000 + b[4 * k + 3] * 0x1000000
}

/// The GID stream a byte sequence carries: consecutive little-endian 32-bit
/// unsigned integers.
pub open spec fn le_gids(b: Seq<u8>) -> Seq<u32> {
    Seq::new((b.len() / 4) as nat, |k: int| le_val(b, k) as u32)
}

/// Reinterprets bytes as little-endian 32-bit integers; the byte count must
/// be a multiple of four.
pub fn bytes_to_gids(b: &Vec<u8>) -> (r: Option<Vec<u32>>)
    ensures
        match r {
            Some(v) => b@.len() % 4 == 0 && v@ == le_gids(b@),
            None => b@.len() % 4 != 0,
        },
{
    let n: usize = b.len();
    if n % 4 != 0 {
        return None;
    }
    let m: usize = n / 4;
    proof {
        assert(b@.len() == 4 * m);
    }
    let mut out: Vec<u32> = Vec::new();
    let mut k: usize = 0;
    while k < m
        invariant
            b@.len() == n,
            b@.len() == 4 * m,
            0 <= k <= m,
            out@ =~= le_gids(b@).take(k as int),
        decreases m - k,
    {
        proof {
            assert(4 * k + 3 < b@.len());
        }
        let b0: u32 = b[4 * k] as u32;
        let b1: u32 = b[4 * k + 1] as u32;
        let b2: u32 = b[4 * k + 2] as u32;
        let b3: u32 = b[4 * k + 3] as u32;
        let g: u32 = b0 + b1 * 0x100 + b2 * 0x10000 + b3 * 0x1000000;
        out.push(g);
        proof {
            assert(out@ =~= le_gids(b@).take(k + 1));
        }
        k = k + 1;
    }
    proof {
        assert(le_gids(b@).take(m as int) =~= le_gids(b@));
    }
    Some(out)
}

// ---------------------------------------------------------------------------
// Row chunking
// ---------------------------------------------------------------------------

/// The view of a built grid: each row taken to its view.
pub open spec fn rows_m(v: Seq<Vec<u32>>) -> Seq<Seq<u32>> {
    v.map_values(|row: Vec<u32>| row@)
}

pub open spec fn s_rows(g: Seq<u32>, w: int, h: int) -> Seq<Seq<u32>> {
    Seq::new(h as nat, |r: int| g.subrange(r * w, r * w + w))
}

/// Chunks a flat GID list into `h` rows of `w`; any count mismatch is an
/// invalid payload.
pub open spec fn s_chunk(g: Seq<u32>, w: int, h: int) -> PRes<Seq<Seq<u32>>> {
    if g.len() == w * h {
        PRes::Val(s_rows(g, w, h))
    } else {
        PRes::Fail(ErrKind::InvalidEncodedPayload)
    }
}

pub fn chunk_gids(g: Vec<u32>, w: u32, h: u32) -> (r: Result<Vec<Vec<u32>>, TiledError>)
    ensures
        match r {
            Ok(rows) => s_chunk(g@, w as int, h as int) == PRes::Val(
                rows_m(rows@),
            ) && rows@.len() == h && (forall|t: int|
                0 <= t < rows@.len() ==> #[trigger] rows@[t]@.len() == w),
            Err(e) => s_chunk(g@, w as int, h as int) == PRes::<Seq<Seq<u32>>>::Fail(e.kind()),
        },
{
    proof {
        assert((w as int) * (h as int) <= 0xFFFF_FFFF * 0xFFFF_FFFF) by (nonlinear_arith)
            requires
                0 <= w as int <= 0xFFFF_FFFF,
                0 <= h as int <= 0xFFFF_FFFF,
        ;
    }
    let n: usize = g.len();
    if (n as u64) != (w as u64) * (h as u64) {
        proof {
            assert(g@.len() != w * h);
        }
        return Err(
            TiledError::InvalidEncodedPayload(
                "tile count does not match the layer's dimensions".to_owned(),
            ),
        );
    }
    let mut rows: Vec<Vec<u32>> = Vec::new();
    let mut t: usize = 0;
    while t < h as usize
        invariant
            g@.len() == w * h,
            g@.len() <= usize::MAX,
            0 <= t <= h,
            rows@.len() == t,
            forall|q: int|
                0 <= q < t ==> #[trigger] rows@[q]@ == g@.subrange(q * (w as int), q * (w as int) + w),
        decreases h - t,
    {
        proof {
            assert(t * (w as int) + w <= (h as int) * (w as int)) by (nonlinear_arith)
                requires
                    0 <= t,
                    t + 1 <= h as int,
                    0 <= w as int,
            ;
            assert((h as int) * (w as int) == (w as int) * (h as int)) by (nonlinear_arith);
            assert(t * (w as int) >= 0) by (nonlinear_arith)
                requires
                    t >= 0,
                    w as int >= 0,
            ;
        }
        let base: usize = t * (w as usize);
        let mut row: Vec<u32> = Vec::new();
        let mut j: usize = 0;
        while j < w as usize
            invariant
                g@.len() == w * h,
                g@.len() <= usize::MAX,
                0 <= j <= w,
                0 <= t < h,
                base == t * (w as int),
                base + w <= g@.len(),
                row@ =~= g@.subrange(base as int, base as int + j),
            decreases w - j,
        {
            row.push(g[base + j]);
            proof {
                assert(row@ =~= g@.subrange(base as int, base as int + j + 1));
            }
            j = j + 1;
        }
        rows.push(row);
        t = t + 1;
    }
    proof {
        assert forall|q: int| 0 <= q < rows@.len() implies #[trigger] rows@[q]@.len() == w by {
            assert(q * (w as int) + w <= (h as int) * (w as int)) by (nonlinear_arith)
                requires
                    0 <= q,
                    q + 1 <= h as int,
                    0 <= w as int,
            ;
            assert((h as int) * (w as int) == (w as int) * (h as int)) by (nonlinear_arith);
            assert(q * (w as int) >= 0) by (nonlinear_arith)
                requires
                    q >= 0,
                    w as int >= 0,
            ;
        }
        assert(rows_m(rows@) =~= s_rows(g@, w as int, h as int));
    }
    Ok(rows)
}

// ---------------------------------------------------------------------------
// The assembled text-payload decoder
// ---------------------------------------------------------------------------

pub open spec fn s_le_chunk(bytes: Seq<u8>, w: int, h: int) -> PRes<Seq<Seq<u32>>> {
    if bytes.len() % 4 != 0 {
        PRes::Fail(ErrKind::InvalidEncodedPayload)
    } else {
        s_chunk(le_gids(bytes), w, h)
    }
}

/// What a `<data>` element's text decodes to, given its `encoding` and
/// `compression` attributes and the layer's dimensions.
pub open spec fn s_decode_text(
    enc: Seq<char>,
    comp: Option<Seq<char>>,
    text: Seq<char>,
    w: int,
    h: int,
) -> PRes<Seq<Seq<u32>>> {
    if enc == "csv"@ && comp is None {
        match s_csv(text) {
            None => PRes::Fail(ErrKind::InvalidEncodedPayload),
            Some(g) => s_chunk(g, w, h),
        }
    } else if enc == "base64"@ {
        match base64_decoded(trimmed(text)) {
            None => PRes::Fail(ErrKind::InvalidEncodedPayload),
            Some(bytes) => match comp {
                None => s_le_chunk(bytes, w, h),
                Some(c) => if c == "zlib"@ {
                    match zlib_inflated(bytes) {
                        None => PRes::Fail(ErrKind::DecompressionFailure),
                        Some(raw) => s_le_chunk(raw, w, h),
                    }
                } else if c == "gzip"@ {
                    match gzip_inflated(bytes) {
                        None => PRes::Fail(ErrKind::DecompressionFailure),
                        Some(raw) => s_le_chunk(raw, w, h),
                    }
                } else {
                    PRes::Fail(ErrKind::MalformedAttributes)
                },
            },
        }
    } else {
        PRes::Fail(ErrKind::MalformedAttributes)
    }
}

fn le_chunk(bytes: Vec<u8>, w: u32, h: u32) -> (r: Result<Vec<Vec<u32>>, TiledError>)
    ensures
        match r {
            Ok(rows) => s_le_chunk(bytes@, w as int, h as int) == PRes::Val(
                rows_m(rows@),
            ) && rows@.len() == h && (forall|t: int|
                0 <= t < rows@.len() ==> #[trigger] rows@[t]@.len() == w),
            Err(e) => s_le_chunk(bytes@, w as int, h as int) == PRes::<Seq<Seq<u32>>>::Fail(e.kind()),
        },
{
    match bytes_to_gids(&bytes) {
        None => Err(
            TiledError::InvalidEncodedPayload(
                "payload length is not a whole number of 32-bit values".to_owned(),
            ),
        ),
        Some(g) => chunk_gids(g, w, h),
    }
}

/// Decodes the text of a `<data>` element carrying an `encoding` attribute.
pub fn decode_tile_payload(encoding: &str, compression: Option<&str>, text: &str, w: u32, h: u32) -> (r:
    Result<Vec<Vec<u32>>, TiledError>)
    ensures
        match r {
            Ok(rows) => s_decode_text(
                encoding@,
                match compression {
                    Some(c) => Some(c@),
                    None => None,
                },
                text@,
                w as int,
                h as int,
            ) == PRes::Val(rows_m(rows@)) && rows@.len() == h && (forall|
                t: int,
            |
                0 <= t < rows@.len() ==> #[trigger] rows@[t]@.len() == w),
            Err(e) => s_decode_text(
                encoding@,
                match compression {
                    Some(c) => Some(c@),
                    None => None,
                },
                text@,
                w as int,
                h as int,
            ) == PRes::<Seq<Seq<u32>>>::Fail(e.kind()),
        },
{
    if crate::strutil::str_eq(encoding, "csv") && compression.is_none() {
        match parse_csv_gids(text) {
            None => Err(
                TiledError::InvalidEncodedPayload("a CSV token is not a valid GID".to_owned()),
            ),
            Some(g) => chunk_gids(g, w, h),
        }
    } else if crate::strutil::str_eq(encoding, "base64") {
        let t: &str = trim_str(text);
        match b64_decode(t) {
            Err(m) => Err(TiledError::InvalidEncodedPayload(m)),
            Ok(bytes) => match compression {
                None => le_chunk(bytes, w, h),
                Some(c) => if crate::strutil::str_eq(c, "zlib") {
                    match zlib_decompress(&bytes) {
                        Err(m) => Err(TiledError::DecompressionFailure(m)),
                        Ok(raw) => le_chunk(raw, w, h),
                    }
                } else if crate::strutil::str_eq(c, "gzip") {
                    match gzip_decompress(&bytes) {
                        Err(m) => Err(TiledError::DecompressionFailure(m)),
                        Ok(raw) => le_chunk(raw, w, h),
                    }
                } else {
                    Err(TiledError::MalformedAttributes("unknown compression format".to_owned()))
                },
            },
        }
    } else {
        Err(TiledError::MalformedAttributes("unknown encoding format".to_owned()))
    }
}

// ---------------------------------------------------------------------------
// Law: every encoding of the same content decodes to the same grid
// ---------------------------------------------------------------------------

/// For any layer dimensions, decoding identical logical content expressed as
/// CSV, raw base64, base64+zlib and base64+gzip yields identical results:
/// whenever a CSV text and three base64 texts all denote the same GID stream
/// `gids`, the four decodes agree exactly (the same grid, or the same
/// count-mismatch failure).
pub proof fn lemma_encoding_equivalence(
    gids: Seq<u32>,
    w: int,
    h: int,
    csv_text: Seq<char>,
    raw_text: Seq<char>,
    zlib_text: Seq<char>,
    gzip_text: Seq<char>,
    raw: Seq<u8>,
    zb: Seq<u8>,
    gb: Seq<u8>,
)
    requires
        s_csv(csv_text) == Some(gids),
        raw.len() % 4 == 0,
        le_gids(raw) == gids,
        base64_decoded(trimmed(raw_text)) == Some(raw),
        base64_decoded(trimmed(zlib_text)) == Some(zb),
        zlib_inflated(zb) == Some(raw),
        base64_decoded(trimmed(gzip_text)) == Some(gb),
        gzip_inflated(gb) == Some(raw),
    ensures
        s_decode_text("csv"@, None, csv_text, w, h) == s_chunk(gids, w, h),
        s_decode_text("base64"@, None, raw_text, w, h) == s_chunk(gids, w, h),
        s_decode_text("base64"@, Some("zlib"@), zlib_text, w, h) == s_chunk(gids, w, h),
        s_decode_text("base64"@, Some("gzip"@), gzip_text, w, h) == s_chunk(gids, w, h),
{
    reveal_strlit("csv");
    reveal_strlit("base64");
    reveal_strlit("zlib");
    reveal_strlit("gzip");
    assert("base64"@ != "csv"@) by {
        assert("base64"@.len() == 6);
        assert("csv"@.len() == 3);
    }
    assert("gzip"@ != "zlib"@) by {
        assert("gzip"@[0] == 'g');
        assert("zlib"@[0] == 'z');
    }
}

} // verus!
