//! Locator grammar: which URLs the image host's driver can parse, and the
//! abbreviation between the full album URL and the short `bili://` form.

use vstd::prelude::*;

use vstd::utf8::encode_utf8;

use crate::manifest::{p_expect, spec_expect, string_from_utf8};

verus! {

/// A lowercase hexadecimal byte.
pub open spec fn is_hex_lower(b: u8) -> bool {
    (48 <= b && b <= 57) || (97 <= b && b <= 102)
}

/// The bytes of `bili://`.
pub open spec fn lit_short_prefix() -> Seq<u8> {
    seq![98u8, 105u8, 108u8, 105u8, 58u8, 47u8, 47u8]
}

/// The bytes of `http://`.
pub open spec fn lit_http() -> Seq<u8> {
    seq![104u8, 116u8, 116u8, 112u8, 58u8, 47u8, 47u8]
}

/// The bytes of `https://`.
pub open spec fn lit_https() -> Seq<u8> {
    seq![104u8, 116u8, 116u8, 112u8, 115u8, 58u8, 47u8, 47u8]
}

/// The bytes of `i0.hdslb.com/bfs/album/`.
pub open spec fn lit_album_host() -> Seq<u8> {
    seq![
        105u8, 48u8, 46u8, 104u8, 100u8, 115u8, 108u8, 98u8, 46u8, 99u8, 111u8, 109u8, 47u8, 98u8,
        102u8, 115u8, 47u8, 97u8, 108u8, 98u8, 117u8, 109u8, 47u8,
    ]
}

/// The bytes of `.png`.
pub open spec fn lit_png() -> Seq<u8> {
    seq![46u8, 112u8, 110u8, 103u8]
}

/// The bytes of `.jpeg`.
pub open spec fn lit_jpeg() -> Seq<u8> {
    seq![46u8, 106u8, 112u8, 101u8, 103u8]
}

/// A run of forty lowercase hexadecimal bytes.
pub open spec fn spec_hex40(s: Seq<u8>) -> bool {
    s.len() == 40 && forall|i: int| 0 <= i < 40 ==> is_hex_lower(#[trigger] s[i])
}

/// The short form: `bili://` followed by exactly forty hex bytes.
pub open spec fn spec_short_form(s: Seq<u8>) -> bool {
    s.len() == 47 && s.take(7) == lit_short_prefix() && spec_hex40(s.skip(7))
}

/// The long form: `http://` or `https://`, the album host path, forty hex
/// bytes, and a `.png` or `.jpeg` suffix.
pub open spec fn spec_long_form(s: Seq<u8>) -> bool {
    exists|p: int|
        {
            &&& #[trigger] spec_scheme_len(s, p) is Some
            &&& spec_scheme_len(s, p)->Some_0
        }
}

/// Whether the bytes after a scheme of length `p` spell the long form;
/// `None` when no scheme of that length is there.
pub open spec fn spec_scheme_len(s: Seq<u8>, p: int) -> Option<bool> {
    if p == 7 && s.len() >= 7 && s.take(7) == lit_http() {
        Some(spec_long_tail(s.skip(7)))
    } else if p == 8 && s.len() >= 8 && s.take(8) == lit_https() {
        Some(spec_long_tail(s.skip(8)))
    } else {
        None
    }
}

/// After the scheme: the album host path, forty hex bytes, then the image
/// suffix and nothing more.
pub open spec fn spec_long_tail(s: Seq<u8>) -> bool {
    &&& s.len() >= 63
    &&& s.take(23) == lit_album_host()
    &&& spec_hex40(s.subrange(23, 63))
    &&& (s.skip(63) == lit_png() || s.skip(63) == lit_jpeg())
}

/// The forty hex bytes of a long-form URL.
pub open spec fn spec_long_hex(s: Seq<u8>) -> Seq<u8> {
    if s.len() >= 8 && s.take(8) == lit_https() {
        s.subrange(31int, 71int)
    } else {
        s.subrange(30int, 70int)
    }
}


/// Bytes that are all plain ASCII form valid text.
proof fn lemma_ascii_bytes_valid(bytes: Seq<u8>)
    requires
        forall|i: int| 0 <= i < bytes.len() ==> #[trigger] bytes[i] <= 0x7f,
    ensures
        vstd::utf8::valid_utf8(bytes),
{
    assert(bytes.subrange(0, 0) =~= Seq::<u8>::empty());
    assert(vstd::utf8::partial_valid_utf8(bytes, 0));
    assert forall|i: int|
        0 <= 0 <= i < bytes.len() <= bytes.len() implies #[trigger] vstd::utf8::is_leading_byte_width_1(
        bytes[i],
    ) by {
        assert(bytes[i] <= 0x7f);
    }
    vstd::utf8::partial_valid_utf8_extend_ascii_block(bytes, 0, bytes.len() as int);
    assert(bytes.subrange(0, bytes.len() as int) =~= bytes);
}

/// The bytes of a string.
pub(crate) fn str_bytes(s: &str) -> (r: Vec<u8>)
    ensures
        r@ == encode_utf8(s@),
{
    let mut out: Vec<u8> = Vec::new();
    out.extend_from_slice(s.as_bytes());
    proof {
        assert(out@ =~= encode_utf8(s@));
    }
    out
}

fn lit_short_vec() -> (r: Vec<u8>)
    ensures
        r@ == lit_short_prefix(),
{
    let mut v: Vec<u8> = Vec::new();
    v.push(98);
    v.push(105);
    v.push(108);
    v.push(105);
    v.push(58);
    v.push(47);
    v.push(47);
    proof {
        assert(v@ =~= lit_short_prefix());
    }
    v
}

fn lit_http_vec() -> (r: Vec<u8>)
    ensures
        r@ == lit_http(),
{
    let mut v: Vec<u8> = Vec::new();
    v.push(104);
    v.push(116);
    v.push(116);
    v.push(112);
    v.push(58);
    v.push(47);
    v.push(47);
    proof {
        assert(v@ =~= lit_http());
    }
    v
}

fn lit_https_vec() -> (r: Vec<u8>)
    ensures
        r@ == lit_https(),
{
    let mut v: Vec<u8> = Vec::new();
    v.push(104);
    v.push(116);
    v.push(116);
    v.push(112);
    v.push(115);
    v.push(58);
    v.push(47);
    v.push(47);
    proof {
        assert(v@ =~= lit_https());
    }
    v
}

fn lit_album_host_vec() -> (r: Vec<u8>)
    ensures
        r@ == lit_album_host(),
{
    let mut v: Vec<u8> = Vec::new();
    v.push(105);
    v.push(48);
    v.push(46);
    v.push(104);
    v.push(100);
    v.push(115);
    v.push(108);
    v.push(98);
    v.push(46);
    v.push(99);
    v.push(111);
    v.push(109);
    v.push(47);
    v.push(98);
    v.push(102);
    v.push(115);
    v.push(47);
    v.push(97);
    v.push(108);
    v.push(98);
    v.push(117);
    v.push(109);
    v.push(47);
    proof {
        assert(v@ =~= lit_album_host());
    }
    v
}

fn lit_png_vec() -> (r: Vec<u8>)
    ensures
        r@ == lit_png(),
{
    let mut v: Vec<u8> = Vec::new();
    v.push(46);
    v.push(112);
    v.push(110);
    v.push(103);
    proof {
        assert(v@ =~= lit_png());
    }
    v
}

fn lit_jpeg_vec() -> (r: Vec<u8>)
    ensures
        r@ == lit_jpeg(),
{
    let mut v: Vec<u8> = Vec::new();
    v.push(46);
    v.push(106);
    v.push(112);
    v.push(101);
    v.push(103);
    proof {
        assert(v@ =~= lit_jpeg());
    }
    v
}

/// Whether forty lowercase hexadecimal bytes start at `i`.
fn hex40_at(buf: &Vec<u8>, i: usize) -> (r: bool)
    requires
        i <= buf@.len(),
    ensures
        r == (i + 40 <= buf@.len() && spec_hex40(buf@.subrange(i as int, i as int + 40))),
{
    let blen = buf.len();
    if blen - i < 40 {
        return false;
    }
    let mut k: usize = 0;
    while k < 40
        invariant
            0 <= k <= 40,
            i + 40 <= buf@.len() == blen,
            forall|t: int| 0 <= t < k ==> is_hex_lower(#[trigger] buf@[i + t]),
        decreases 40 - k,
    {
        let b = buf[i + k];
        if !((48 <= b && b <= 57) || (97 <= b && b <= 102)) {
            proof {
                assert(buf@.subrange(i as int, i as int + 40)[k as int] == buf@[i + k]);
            }
            return false;
        }
        k = k + 1;
    }
    proof {
        let s = buf@.subrange(i as int, i as int + 40);
        assert forall|t: int| 0 <= t < 40 implies is_hex_lower(#[trigger] s[t]) by {
            assert(s[t] == buf@[i + t]);
        }
    }
    true
}

/// Whether the bytes after position `p` spell the album host path, forty
/// hex bytes and an image suffix, with nothing after.
fn long_tail_at(buf: &Vec<u8>, p: usize) -> (r: bool)
    requires
        p <= buf@.len(),
    ensures
        r == spec_long_tail(buf@.skip(p as int)),
{
    let host = lit_album_host_vec();
    let s = match p_expect(buf, p, &host) {
        Some(j) => j,
        None => {
            return false;
        },
    };
    proof {
        assert(buf@.skip(p as int).len() >= 23 && buf@.skip(p as int).take(23)
            == lit_album_host());
    }
    if buf.len() - s < 40 {
        proof {
            assert(buf@.skip(p as int).len() < 63);
        }
        return false;
    }
    let after_hex = s + 40;
    proof {
        assert(buf@.skip(p as int).len() >= 63);
        assert(buf@.skip(p as int).subrange(23, 63) =~= buf@.subrange(s as int, s as int + 40));
        assert(buf@.skip(p as int).skip(63) =~= buf@.skip(after_hex as int));
    }
    if !hex40_at(buf, s) {
        return false;
    }
    let png = lit_png_vec();
    let jpeg = lit_jpeg_vec();
    let rem = buf.len() - after_hex;
    if rem == 4 {
        match p_expect(buf, after_hex, &png) {
            Some(_) => {
                proof {
                    assert(buf@.skip(after_hex as int) =~= buf@.skip(after_hex as int).take(4));
                }
                true
            },
            None => {
                proof {
                    assert(buf@.skip(after_hex as int).take(4) =~= buf@.skip(after_hex as int));
                    assert(buf@.skip(after_hex as int) != lit_png());
                    assert(buf@.skip(after_hex as int).len() == 4);
                    assert(buf@.skip(after_hex as int) != lit_jpeg());
                }
                false
            },
        }
    } else if rem == 5 {
        match p_expect(buf, after_hex, &jpeg) {
            Some(_) => {
                proof {
                    assert(buf@.skip(after_hex as int) =~= buf@.skip(after_hex as int).take(5));
                }
                true
            },
            None => {
                proof {
                    assert(buf@.skip(after_hex as int).take(5) =~= buf@.skip(after_hex as int));
                    assert(buf@.skip(after_hex as int) != lit_jpeg());
                    assert(buf@.skip(after_hex as int).len() == 5);
                    assert(buf@.skip(after_hex as int) != lit_png());
                }
                false
            },
        }
    } else {
        proof {
            assert(buf@.skip(after_hex as int).len() == rem);
            assert(buf@.skip(after_hex as int) != lit_png());
            assert(buf@.skip(after_hex as int) != lit_jpeg());
        }
        false
    }
}

/// Where the long form's scheme ends: after `https://` or `http://`.
fn scheme_end(buf: &Vec<u8>) -> (r: Option<usize>)
    ensures
        r matches Some(p) ==> (p == 7 || p == 8) && p <= buf@.len() && spec_scheme_len(
            buf@,
            p as int,
        ) == Some(spec_long_tail(buf@.skip(p as int))),
        r is None ==> forall|p: int| spec_scheme_len(buf@, p) is None,
{
    let https = lit_https_vec();
    let http = lit_http_vec();
    if let Some(j) = p_expect(buf, 0, &https) {
        proof {
            assert(buf@.skip(0) =~= buf@);
            assert(buf@.take(8) == lit_https());
            assert(j == 8);
            assert(spec_scheme_len(buf@, 8) == Some(spec_long_tail(buf@.skip(8))));
        }
        return Some(j);
    }
    if let Some(j) = p_expect(buf, 0, &http) {
        proof {
            assert(buf@.skip(0) =~= buf@);
            assert(buf@.take(7) == lit_http());
            assert(j == 7);
            assert(spec_scheme_len(buf@, 7) == Some(spec_long_tail(buf@.skip(7))));
        }
        return Some(j);
    }
    proof {
        assert(buf@.skip(0) =~= buf@);
        assert forall|p: int| spec_scheme_len(buf@, p) is None by {
            if p == 7 && buf@.len() >= 7 {
                assert(buf@.take(7) != lit_http());
            }
            if p == 8 && buf@.len() >= 8 {
                assert(buf@.take(8) != lit_https());
            }
        }
    }
    None
}

/// Whether this driver can parse a locator: it is the short `bili://` form
/// or the full album URL.
pub fn check_can_parse(url: &str) -> (r: bool)
    ensures
        r == (spec_short_form(encode_utf8(url@)) || spec_long_form(encode_utf8(url@))),
{
    let buf = str_bytes(url);
    let short = lit_short_vec();
    let is_short = if buf.len() == 47 {
        match p_expect(&buf, 0, &short) {
            Some(j) => {
                proof {
                    assert(buf@.skip(0) =~= buf@);
                    assert(buf@.subrange(7, 47) =~= buf@.skip(7));
                }
                hex40_at(&buf, j)
            },
            None => {
                proof {
                    assert(buf@.skip(0) =~= buf@);
                }
                false
            },
        }
    } else {
        false
    };
    if is_short {
        return true;
    }
    proof {
        if buf@.len() == 47 {
            assert(buf@.subrange(7, 47) =~= buf@.skip(7));
        }
        assert(!spec_short_form(buf@));
    }
    match scheme_end(&buf) {
        Some(p) => {
            let tail = long_tail_at(&buf, p);
            proof {
                if tail {
                    assert(spec_scheme_len(buf@, p as int) is Some && spec_scheme_len(
                        buf@,
                        p as int,
                    )->Some_0);
                } else {
                    assert forall|q: int| !(#[trigger] spec_scheme_len(buf@, q) is Some
                        && spec_scheme_len(buf@, q)->Some_0) by {
                        if q == 7 || q == 8 {
                            if spec_scheme_len(buf@, q) is Some && q != p as int {
                                assert(buf@[4] == 115 || buf@[4] == 58);
                                assert(lit_http()[4] == 58 && lit_https()[4] == 115);
                            }
                        }
                    }
                }
            }
            tail
        },
        None => {
            proof {
                assert(!spec_long_form(buf@));
            }
            false
        },
    }
}


/// Only one scheme can match: the two prefixes differ at their fifth byte.
proof fn lemma_scheme_unique(s: Seq<u8>, p: int, q: int)
    requires
        spec_scheme_len(s, p) is Some,
        spec_scheme_len(s, q) is Some,
    ensures
        p == q,
{
    if p != q {
        assert(s.take(7)[4] == s[4] && s.take(8)[4] == s[4]);
        assert(lit_http()[4] == 58 && lit_https()[4] == 115);
    }
}

/// Abbreviates a full album URL to the short `bili://` form; `None` for
/// anything that is not the long form.
pub fn abbr_url(url: &str) -> (r: Option<String>)
    ensures
        r is Some <==> spec_long_form(encode_utf8(url@)),
        r matches Some(s) ==> encode_utf8(s@) == lit_short_prefix() + spec_long_hex(
            encode_utf8(url@),
        ),
{
    let buf = str_bytes(url);
    let p = match scheme_end(&buf) {
        Some(p) => p,
        None => {
            proof {
                assert(!spec_long_form(buf@));
            }
            return None;
        },
    };
    if !long_tail_at(&buf, p) {
        proof {
            assert forall|q: int| !(#[trigger] spec_scheme_len(buf@, q) is Some
                && spec_scheme_len(buf@, q)->Some_0) by {
                if spec_scheme_len(buf@, q) is Some {
                    lemma_scheme_unique(buf@, q, p as int);
                }
            }
            assert(!spec_long_form(buf@));
        }
        return None;
    }
    let mut out = lit_short_vec();
    let start = p + 23;
    let blen = buf.len();
    let mut k: usize = 0;
    while k < 40
        invariant
            0 <= k <= 40,
            start == p + 23,
            p + 63 <= buf@.len(),
            buf@.len() == blen,
            out@ == lit_short_prefix() + buf@.subrange(start as int, start as int + k),
        decreases 40 - k,
    {
        out.push(buf[start + k]);
        proof {
            assert(out@ =~= lit_short_prefix() + buf@.subrange(
                start as int,
                start as int + (k + 1),
            ));
        }
        k = k + 1;
    }
    proof {
        let hex = buf@.subrange(start as int, start as int + 40);
        assert(spec_hex40(buf@.skip(p as int).subrange(23, 63)));
        assert(buf@.skip(p as int).subrange(23, 63) =~= hex);
        if p == 8 {
            assert(buf@.take(8) == lit_https());
            assert(spec_long_hex(buf@) =~= hex);
        } else {
            assert(buf@.take(7) == lit_http());
            if buf@.len() >= 8 && buf@.take(8) == lit_https() {
                assert(buf@.take(7)[4] == buf@[4] && buf@.take(8)[4] == buf@[4]);
                assert(lit_http()[4] == 58 && lit_https()[4] == 115);
            }
            assert(spec_long_hex(buf@) =~= hex);
        }
        assert forall|i: int| 0 <= i < out@.len() implies #[trigger] out@[i] <= 0x7f by {
            if i >= 7 {
                assert(is_hex_lower(hex[i - 7]));
            }
        }
        lemma_ascii_bytes_valid(out@);
    }
    let ghost out_bytes = out@;
    match string_from_utf8(out) {
        Some(s) => {
            proof {
                vstd::utf8::decode_utf8_encode_utf8(out_bytes);
            }
            Some(s)
        },
        None => None,
    }
}

/// Expands the short `bili://` form to the full album URL with the `.png`
/// suffix; `None` for anything that is not the short form.
pub fn un_abbr_url(url: &str) -> (r: Option<String>)
    ensures
        r is Some <==> spec_short_form(encode_utf8(url@)),
        r matches Some(s) ==> encode_utf8(s@) == lit_https() + lit_album_host() + encode_utf8(
            url@,
        ).skip(7) + lit_png(),
{
    let buf = str_bytes(url);
    if buf.len() != 47 {
        return None;
    }
    let short = lit_short_vec();
    match p_expect(&buf, 0, &short) {
        Some(_) => {
            proof {
                assert(buf@.skip(0) =~= buf@);
            }
        },
        None => {
            proof {
                assert(buf@.skip(0) =~= buf@);
            }
            return None;
        },
    };
    if !hex40_at(&buf, 7) {
        proof {
            assert(buf@.subrange(7, 47) =~= buf@.skip(7));
        }
        return None;
    }
    proof {
        assert(buf@.subrange(7, 47) =~= buf@.skip(7));
        assert(spec_short_form(buf@));
    }
    let mut out = lit_https_vec();
    let mut host = lit_album_host_vec();
    out.append(&mut host);
    let mut k: usize = 0;
    while k < 40
        invariant
            0 <= k <= 40,
            buf@.len() == 47,
            out@ == lit_https() + lit_album_host() + buf@.subrange(7, 7 + k),
        decreases 40 - k,
    {
        out.push(buf[7 + k]);
        proof {
            assert(out@ =~= lit_https() + lit_album_host() + buf@.subrange(7, 7 + (k + 1)));
        }
        k = k + 1;
    }
    let mut png = lit_png_vec();
    out.append(&mut png);
    proof {
        assert(out@ =~= lit_https() + lit_album_host() + buf@.skip(7) + lit_png());
        assert forall|i: int| 0 <= i < out@.len() implies #[trigger] out@[i] <= 0x7f by {
            let hex = buf@.skip(7);
            if 31 <= i < 71 {
                assert(is_hex_lower(hex[i - 31]));
            }
        }
        lemma_ascii_bytes_valid(out@);
    }
    let ghost out_bytes = out@;
    match string_from_utf8(out) {
        Some(s) => {
            proof {
                vstd::utf8::decode_utf8_encode_utf8(out_bytes);
            }
            Some(s)
        },
        None => None,
    }
}

} // verus!
