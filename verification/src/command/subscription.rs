//! Naming of subscriptions: percent decoding, `Content-Disposition`
//! parsing and the choice of a provider name.

use vstd::prelude::*;
use vstd::utf8::decode_utf8;
use vstd::utf8::encode_utf8;
use vstd::utf8::valid_utf8;
use vstd::utf8::encode_scalar;
use crate::text::{split, split_chars, trim, trim_chars, char_views, starts_with_ignore_case, starts_with_ignore_case_chars, str_chars, chars_to_string, copy_range};

verus! {

/// Value of an ASCII hexadecimal digit.
pub open spec fn hex_digit_value(b: u8) -> Option<u8> {
    if 48 <= b <= 57 {
        Some((b - 48) as u8)
    } else if 97 <= b <= 102 {
        Some((b - 87) as u8)
    } else if 65 <= b <= 70 {
        Some((b - 55) as u8)
    } else {
        None
    }
}

/// What `u8::from_str_radix` gives, in base 16, for the two-byte text `b1 b2`:
/// two hex digits, or a `+` sign followed by one.
pub open spec fn radix16_pair(b1: u8, b2: u8) -> Option<u8> {
    match (hex_digit_value(b1), hex_digit_value(b2)) {
        (Some(h), Some(l)) => Some((16 * h + l) as u8),
        (None, Some(l)) => if b1 == 43 { Some(l) } else { None },
        _ => None,
    }
}

/// Percent decoding of a byte string: `%` followed by two more bytes that
/// read as a base-16 byte is replaced by that byte; every other byte is kept.
pub open spec fn percent_decode_bytes(b: Seq<u8>) -> Seq<u8>
    decreases b.len(),
{
    if b.len() == 0 {
        Seq::empty()
    } else if b[0] == 37 && b.len() > 2 && radix16_pair(b[1], b[2]) is Some {
        seq![radix16_pair(b[1], b[2])->0] + percent_decode_bytes(b.subrange(3, b.len() as int))
    } else {
        seq![b[0]] + percent_decode_bytes(b.subrange(1, b.len() as int))
    }
}

/// The text that percent decoding of `s` yields: the decoded UTF-8 bytes read
/// back as text, or the empty text when they are not valid UTF-8.
pub open spec fn percent_decode_spec(s: Seq<char>) -> Seq<char> {
    let bytes = percent_decode_bytes(encode_utf8(s));
    if valid_utf8(bytes) {
        decode_utf8(bytes)
    } else {
        Seq::empty()
    }
}

fn hex_digit(b: u8) -> (res: Option<u8>)
    ensures
        res == hex_digit_value(b),
{
    if 48 <= b && b <= 57 {
        Some(b - 48)
    } else if 97 <= b && b <= 102 {
        Some(b - 87)
    } else if 65 <= b && b <= 70 {
        Some(b - 55)
    } else {
        None
    }
}

fn radix16(b1: u8, b2: u8) -> (res: Option<u8>)
    ensures
        res == radix16_pair(b1, b2),
{
    match (hex_digit(b1), hex_digit(b2)) {
        (Some(h), Some(l)) => Some(16 * h + l),
        (None, Some(l)) => if b1 == 43 {
            Some(l)
        } else {
            None
        },
        _ => None,
    }
}

/// Percent decoding over bytes.
pub fn percent_decode_raw(bytes: &[u8]) -> (res: Vec<u8>)
    ensures
        res@ == percent_decode_bytes(bytes@),
{
    let n = bytes.len();
    let mut out: Vec<u8> = Vec::new();
    let mut i: usize = 0;
    assert(bytes@.subrange(0, n as int) =~= bytes@);
    while i < n
        invariant
            i <= n,
            n == bytes@.len(),
            percent_decode_bytes(bytes@) == out@ + percent_decode_bytes(
                bytes@.subrange(i as int, n as int),
            ),
        decreases n - i,
    {
        let ghost rest = bytes@.subrange(i as int, n as int);
        if bytes[i] == 37 && n - i > 2 {
            let v = radix16(bytes[i + 1], bytes[i + 2]);
            if let Some(byte) = v {
                assert(rest.subrange(3, rest.len() as int) =~= bytes@.subrange(i + 3, n as int));
                assert(out@.push(byte) + percent_decode_bytes(bytes@.subrange(i + 3, n as int))
                    =~= out@ + percent_decode_bytes(rest));
                out.push(byte);
                i = i + 3;
                continue;
            }
        }
        assert(rest.subrange(1, rest.len() as int) =~= bytes@.subrange(i + 1, n as int));
        assert(out@.push(bytes@[i as int]) + percent_decode_bytes(bytes@.subrange(i + 1, n as int))
            =~= out@ + percent_decode_bytes(rest));
        out.push(bytes[i]);
        i = i + 1;
    }
    assert(bytes@.subrange(n as int, n as int) =~= Seq::<u8>::empty());
    assert(out@ + Seq::<u8>::empty() =~= out@);
    out
}

proof fn lemma_byte_or_bits(x: u32)
    ensures
        (0x80u8 | ((x & 0x3F) as u8)) != 37u8,
        (0xC0u8 | ((x >> 6) & 0x1F) as u8) != 37u8,
        (0x80u8 | ((x >> 6) & 0x3F) as u8) != 37u8,
        (0xE0u8 | ((x >> 12) & 0x0F) as u8) != 37u8,
        (0x80u8 | ((x >> 12) & 0x3F) as u8) != 37u8,
        (0xF0u8 | ((x >> 18) & 0x7) as u8) != 37u8,
        x <= 0x7F ==> ((x & 0x7F) as u8) as u32 == x,
{
    assert((0x80u8 | ((x & 0x3F) as u8)) != 37u8) by (bit_vector);
    assert((0xC0u8 | ((x >> 6) & 0x1F) as u8) != 37u8) by (bit_vector);
    assert((0x80u8 | ((x >> 6) & 0x3F) as u8) != 37u8) by (bit_vector);
    assert((0xE0u8 | ((x >> 12) & 0x0F) as u8) != 37u8) by (bit_vector);
    assert((0x80u8 | ((x >> 12) & 0x3F) as u8) != 37u8) by (bit_vector);
    assert((0xF0u8 | ((x >> 18) & 0x7) as u8) != 37u8) by (bit_vector);
    assert(x <= 0x7F ==> ((x & 0x7F) as u8) as u32 == x) by (bit_vector);
}

proof fn lemma_encode_no_percent(chars: Seq<char>)
    requires
        forall|i: int| 0 <= i < chars.len() ==> chars[i] != '%',
    ensures
        forall|j: int| 0 <= j < encode_utf8(chars).len() ==> encode_utf8(chars)[j] != 37u8,
    decreases chars.len(),
{
    if chars.len() > 0 {
        let c = chars[0];
        let v = c as u32;
        lemma_byte_or_bits(v);
        let head = encode_scalar(v);
        assert forall|j: int| 0 <= j < head.len() implies head[j] != 37u8 by {
            if v <= 0x7F {
                assert(('%' as u32) == 37);
                vstd::utf8::char_u32_cast(c, v);
                assert(v != 37);
            }
        }
        let rest = chars.drop_first();
        assert forall|i: int| 0 <= i < rest.len() implies rest[i] != '%' by {
            assert(rest[i] == chars[i + 1]);
        }
        lemma_encode_no_percent(rest);
        let all = encode_utf8(chars);
        assert(all == head + encode_utf8(rest));
        assert forall|j: int| 0 <= j < all.len() implies all[j] != 37u8 by {
            if j < head.len() {
                assert(all[j] == head[j]);
            } else {
                assert(all[j] == encode_utf8(rest)[j - head.len()]);
            }
        }
    }
}

proof fn lemma_decode_bytes_plain(b: Seq<u8>)
    requires
        forall|j: int| 0 <= j < b.len() ==> b[j] != 37u8,
    ensures
        percent_decode_bytes(b) == b,
    decreases b.len(),
{
    if b.len() > 0 {
        let rest = b.subrange(1, b.len() as int);
        assert forall|j: int| 0 <= j < rest.len() implies rest[j] != 37u8 by {
            assert(rest[j] == b[j + 1]);
        }
        lemma_decode_bytes_plain(rest);
        assert(seq![b[0]] + rest =~= b);
    }
}

/// Text without `%` comes out of percent decoding unchanged.
pub proof fn law_percent_decode_plain(s: Seq<char>)
    requires
        forall|i: int| 0 <= i < s.len() ==> s[i] != '%',
    ensures
        percent_decode_spec(s) == s,
{
    lemma_encode_no_percent(s);
    lemma_decode_bytes_plain(encode_utf8(s));
    vstd::utf8::encode_utf8_valid_utf8(s);
    vstd::utf8::encode_utf8_decode_utf8(s);
}

/// The ASCII hex digit for `d` (below 16), in upper or lower case.
pub open spec fn hex_digit_byte(d: u8, upper: bool) -> u8 {
    if d < 10 {
        (48 + d) as u8
    } else if upper {
        (55 + d) as u8
    } else {
        (87 + d) as u8
    }
}

/// Every byte of `b` written as `%` and two hex digits (upper or lower case).
pub open spec fn percent_encode_bytes(b: Seq<u8>, upper: bool) -> Seq<u8>
    decreases b.len(),
{
    if b.len() == 0 {
        Seq::empty()
    } else {
        seq![37u8, hex_digit_byte(b[0] / 16, upper), hex_digit_byte(b[0] % 16, upper)]
            + percent_encode_bytes(b.drop_first(), upper)
    }
}

proof fn lemma_decode_encoded_bytes(b: Seq<u8>, upper: bool)
    ensures
        percent_decode_bytes(percent_encode_bytes(b, upper)) == b,
    decreases b.len(),
{
    if b.len() > 0 {
        let e = percent_encode_bytes(b, upper);
        let hi = b[0] / 16;
        let lo = b[0] % 16;
        assert(hex_digit_value(hex_digit_byte(hi, upper)) == Some(hi));
        assert(hex_digit_value(hex_digit_byte(lo, upper)) == Some(lo));
        assert((16 * hi + lo) as u8 == b[0]);
        assert(e[0] == 37u8 && e[1] == hex_digit_byte(hi, upper) && e[2] == hex_digit_byte(lo, upper));
        assert(e.subrange(3, e.len() as int) =~= percent_encode_bytes(b.drop_first(), upper));
        lemma_decode_encoded_bytes(b.drop_first(), upper);
        assert(seq![b[0]] + b.drop_first() =~= b);
    }
}

/// Percent decoding undoes percent encoding: a text `s` whose UTF-8 bytes are those
/// of `t`, each written as `%` and two hex digits (upper or lower case), decodes to `t`.
pub proof fn law_percent_decode_undoes_encoding(t: Seq<char>, s: Seq<char>, upper: bool)
    requires
        encode_utf8(s) == percent_encode_bytes(encode_utf8(t), upper),
    ensures
        percent_decode_spec(s) == t,
{
    lemma_decode_encoded_bytes(encode_utf8(t), upper);
    vstd::utf8::encode_utf8_valid_utf8(t);
    vstd::utf8::encode_utf8_decode_utf8(t);
}

/// `String::from_utf8` (std): the bytes read as text when they are valid UTF-8.
#[verifier::external_body]
fn string_from_utf8(bytes: Vec<u8>) -> (res: Option<String>)
    ensures
        res is Some <==> valid_utf8(bytes@),
        res matches Some(s) ==> s@ == decode_utf8(bytes@),
{
    String::from_utf8(bytes).ok()
}

/// Decodes `%XX` escapes of `s`; a result that is not valid UTF-8 gives the empty string.
pub fn percent_decode(s: &str) -> (res: String)
    ensures
        res@ == percent_decode_spec(s@),
{
    let bytes = percent_decode_raw(s.as_bytes());
    match string_from_utf8(bytes) {
        Some(text) => text,
        None => String::new(),
    }
}


/// The value of the first `;`-separated parameter of a header that,
/// trimmed, begins with `key` (ASCII case ignored): the rest of that trimmed parameter.
pub open spec fn find_param(parts: Seq<Seq<char>>, key: Seq<char>) -> Option<Seq<char>>
    decreases parts.len(),
{
    if parts.len() == 0 {
        None
    } else if starts_with_ignore_case(trim(parts[0], None), key) {
        Some(trim(parts[0], None).skip(key.len() as int))
    } else {
        find_param(parts.drop_first(), key)
    }
}

/// The encoded part of an RFC 5987 `filename*` value (`charset'lang'text`):
/// the third `'`-separated piece when there are at least three, else the whole value.
pub open spec fn extended_value(v: Seq<char>) -> Seq<char> {
    let segs = split(v, '\'');
    if segs.len() >= 3 {
        segs[2]
    } else {
        v
    }
}

/// The file name that a `Content-Disposition` header value announces:
/// the first `filename*=` parameter, percent-decoded, wins; else the first
/// `filename=` parameter with surrounding `"` and then `'` stripped; else none.
pub open spec fn content_disposition_name(cd: Seq<char>) -> Option<Seq<char>> {
    let parts = split(cd, ';');
    match find_param(parts, "filename*="@) {
        Some(v) => Some(percent_decode_spec(extended_value(v))),
        None => match find_param(parts, "filename="@) {
            Some(v) => Some(trim(trim(v, Some('"')), Some('\''))),
            None => None,
        },
    }
}

fn find_param_in(parts: &Vec<Vec<char>>, key: &[char]) -> (res: Option<Vec<char>>)
    ensures
        res matches Some(v) ==> find_param(char_views(parts@), key@) == Some(v@),
        res is None ==> find_param(char_views(parts@), key@) is None,
{
    let n = parts.len();
    let mut i: usize = 0;
    assert(char_views(parts@).skip(0) =~= char_views(parts@));
    while i < n
        invariant
            i <= n,
            n == parts@.len(),
            find_param(char_views(parts@), key@) == find_param(
                char_views(parts@).skip(i as int),
                key@,
            ),
        decreases n - i,
    {
        let ghost rest = char_views(parts@).skip(i as int);
        assert(rest[0] == parts@[i as int]@);
        assert(rest.drop_first() =~= char_views(parts@).skip(i + 1));
        let p = trim_chars(parts[i].as_slice(), None);
        if starts_with_ignore_case_chars(p.as_slice(), key) {
            return Some(copy_range(p.as_slice(), key.len(), p.len()));
        }
        i = i + 1;
    }
    None
}

/// The file name announced by a `Content-Disposition` header value, if any.
pub fn parse_content_disposition(cd: &str) -> (res: Option<String>)
    ensures
        res matches Some(name) ==> content_disposition_name(cd@) == Some(name@),
        res is None ==> content_disposition_name(cd@) is None,
{
    let chars = str_chars(cd);
    let parts = split_chars(chars.as_slice(), ';');
    let ext_key = str_chars("filename*=");
    match find_param_in(&parts, ext_key.as_slice()) {
        Some(v) => {
            let segs = split_chars(v.as_slice(), '\'');
            assert(char_views(segs@).len() == segs@.len());
            let encoded = if segs.len() >= 3 {
                assert(char_views(segs@)[2] == segs@[2]@);
                chars_to_string(segs[2].as_slice())
            } else {
                chars_to_string(v.as_slice())
            };
            Some(percent_decode(encoded.as_str()))
        },
        None => {
            let plain_key = str_chars("filename=");
            match find_param_in(&parts, plain_key.as_slice()) {
                Some(v) => {
                    let once = trim_chars(v.as_slice(), Some('"'));
                    let twice = trim_chars(once.as_slice(), Some('\''));
                    Some(chars_to_string(twice.as_slice()))
                },
                None => None,
            }
        },
    }
}


/// What the `url` crate reads as the host of `s`: `None` when `s` does not
/// parse as a URL or the URL has no host.
pub uninterp spec fn url_host(s: Seq<char>) -> Option<Seq<char>>;

/// `url::Url::parse` followed by `Url::host_str`. The contract claims only that
/// the result is a function of the text alone, named `url_host`.
#[verifier::external_body]
fn parse_url_host(s: &str) -> (res: Option<String>)
    ensures
        res matches Some(h) ==> url_host(s@) == Some(h@),
        res is None ==> url_host(s@) is None,
{
    match url::Url::parse(s) {
        Ok(u) => match u.host_str() {
            Some(h) => Some(h.to_string()),
            None => None,
        },
        Err(_) => None,
    }
}

/// The host of a subscription URL, used as its fallback name.
pub fn subscription_domain(url: &str) -> (res: Option<String>)
    ensures
        res matches Some(h) ==> url_host(url@) == Some(h@),
        res is None ==> url_host(url@) is None,
{
    parse_url_host(url)
}

/// The name a subscription gets, given its URL host (`domain`) and the outcome of
/// fetching it: `Ok` with the `Content-Disposition` header value (empty when absent),
/// or `Err` with the request's error text.
pub open spec fn provider_name_choice(
    domain: Option<Seq<char>>,
    response: Result<Seq<char>, Seq<char>>,
) -> Result<Seq<char>, Seq<char>> {
    match response {
        Err(e) => match domain {
            Some(d) => Ok(d),
            None => Err("请求失败: "@ + e),
        },
        Ok(cd) => match content_disposition_name(cd) {
            Some(name) => Ok(name),
            None => match domain {
                Some(d) => Ok(d),
                None => Err("无法解析订阅名称"@),
            },
        },
    }
}

/// Chooses the provider name from a fetched subscription (see `provider_name_choice`).
pub fn resolve_provider_name(domain: Option<String>, response: Result<String, String>) -> (res:
    Result<String, String>)
    ensures
        match (res, provider_name_choice(
            match domain {
                Some(d) => Some(d@),
                None => None,
            },
            match response {
                Ok(cd) => Ok(cd@),
                Err(e) => Err(e@),
            },
        )) {
            (Ok(a), Ok(b)) => a@ == b,
            (Err(a), Err(b)) => a@ == b,
            _ => false,
        },
{
    match response {
        Err(e) => match domain {
            Some(d) => Ok(d),
            None => {
                let mut msg = "请求失败: ".to_owned();
                msg.append(e.as_str());
                Err(msg)
            },
        },
        Ok(cd) => match parse_content_disposition(cd.as_str()) {
            Some(name) => Ok(name),
            None => match domain {
                Some(d) => Ok(d),
                None => Err("无法解析订阅名称".to_owned()),
            },
        },
    }
}

} // verus!
