//! Character-level text helpers shared by the rest of the library.

use vstd::prelude::*;

verus! {

/// The decimal digit character for `d` (`d < 10`).
pub open spec fn digit_char(d: nat) -> char {
    if d == 0 { '0' }
    else if d == 1 { '1' }
    else if d == 2 { '2' }
    else if d == 3 { '3' }
    else if d == 4 { '4' }
    else if d == 5 { '5' }
    else if d == 6 { '6' }
    else if d == 7 { '7' }
    else if d == 8 { '8' }
    else { '9' }
}

/// Decimal rendering of a natural number, without sign or leading zeros.
pub open spec fn decimal(n: nat) -> Seq<char>
    decreases n,
{
    if n < 10 {
        seq![digit_char(n)]
    } else {
        decimal(n / 10).push(digit_char(n % 10))
    }
}

fn digit_to_char(d: u64) -> (c: char)
    requires
        d < 10,
    ensures
        c == digit_char(d as nat),
{
    if d == 0 { '0' }
    else if d == 1 { '1' }
    else if d == 2 { '2' }
    else if d == 3 { '3' }
    else if d == 4 { '4' }
    else if d == 5 { '5' }
    else if d == 6 { '6' }
    else if d == 7 { '7' }
    else if d == 8 { '8' }
    else { '9' }
}

/// Appends the decimal rendering of `n` to `out`.
pub fn push_decimal(out: &mut Vec<char>, n: u64)
    ensures
        final(out)@ == old(out)@ + decimal(n as nat),
    decreases n,
{
    if n < 10 {
        out.push(digit_to_char(n));
    } else {
        push_decimal(out, n / 10);
        out.push(digit_to_char(n % 10));
        assert(decimal(n as nat) == decimal((n / 10) as nat).push(digit_char((n % 10) as nat)));
    }
}

/// The characters of `s`, in order.
pub fn str_chars(s: &str) -> (res: Vec<char>)
    ensures
        res@ == s@,
{
    let mut res: Vec<char> = Vec::new();
    for c in it: s.chars()
        invariant
            res@ == it.seq().take(it.index() as int),
    {
        res.push(c);
    }
    res
}

/// Builds a `String` holding exactly the characters of `chars`
/// (std `FromIterator<char>` for `String`; not verified).
#[verifier::external_body]
pub(crate) fn chars_to_string(chars: &[char]) -> (res: String)
    ensures
        res@ == chars@,
{
    chars.iter().collect()
}


/// Unicode `White_Space`, the property that `char::is_whitespace` tests.
pub open spec fn is_white_space(c: char) -> bool {
    let u = c as u32;
    ||| 0x09 <= u <= 0x0d
    ||| u == 0x20
    ||| u == 0x85
    ||| u == 0xa0
    ||| u == 0x1680
    ||| 0x2000 <= u <= 0x200a
    ||| u == 0x2028
    ||| u == 0x2029
    ||| u == 0x202f
    ||| u == 0x205f
    ||| u == 0x3000
}

/// Whether `c` is removed by a trim that strips `target`:
/// white space when `target` is `None`, else that one character.
pub open spec fn trimmed_by(target: Option<char>, c: char) -> bool {
    match target {
        None => is_white_space(c),
        Some(t) => c == t,
    }
}

/// `s` without its leading characters that `target` strips.
pub open spec fn trim_start(s: Seq<char>, target: Option<char>) -> Seq<char>
    decreases s.len(),
{
    if s.len() > 0 && trimmed_by(target, s[0]) {
        trim_start(s.drop_first(), target)
    } else {
        s
    }
}

/// `s` without its trailing characters that `target` strips.
pub open spec fn trim_end(s: Seq<char>, target: Option<char>) -> Seq<char>
    decreases s.len(),
{
    if s.len() > 0 && trimmed_by(target, s.last()) {
        trim_end(s.drop_last(), target)
    } else {
        s
    }
}

/// `s` stripped at both ends (`str::trim` for `None`, `str::trim_matches(c)` for `Some(c)`).
pub open spec fn trim(s: Seq<char>, target: Option<char>) -> Seq<char> {
    trim_end(trim_start(s, target), target)
}

pub fn is_white_space_char(c: char) -> (res: bool)
    ensures
        res == is_white_space(c),
{
    let u = c as u32;
    (0x09 <= u && u <= 0x0d) || u == 0x20 || u == 0x85 || u == 0xa0 || u == 0x1680 || (0x2000
        <= u && u <= 0x200a) || u == 0x2028 || u == 0x2029 || u == 0x202f || u == 0x205f || u
        == 0x3000
}

fn is_trimmed_by(target: Option<char>, c: char) -> (res: bool)
    ensures
        res == trimmed_by(target, c),
{
    match target {
        None => is_white_space_char(c),
        Some(t) => c == t,
    }
}

proof fn lemma_trim_start_skip(s: Seq<char>, target: Option<char>, i: int)
    requires
        0 <= i <= s.len(),
        forall|k: int| 0 <= k < i ==> trimmed_by(target, #[trigger] s[k]),
    ensures
        trim_start(s, target) == trim_start(s.subrange(i, s.len() as int), target),
    decreases i,
{
    if i > 0 {
        let t = s.drop_first();
        assert forall|k: int| 0 <= k < i - 1 implies trimmed_by(target, #[trigger] t[k]) by {
            assert(t[k] == s[k + 1]);
        }
        lemma_trim_start_skip(t, target, i - 1);
        assert(t.subrange(i - 1, t.len() as int) =~= s.subrange(i, s.len() as int));
    } else {
        assert(s.subrange(0, s.len() as int) =~= s);
    }
}

proof fn lemma_trim_end_cut(s: Seq<char>, target: Option<char>, j: int)
    requires
        0 <= j <= s.len(),
        forall|k: int| j <= k < s.len() ==> trimmed_by(target, #[trigger] s[k]),
    ensures
        trim_end(s, target) == trim_end(s.subrange(0, j), target),
    decreases s.len() - j,
{
    if j < s.len() {
        let t = s.drop_last();
        assert forall|k: int| j <= k < t.len() implies trimmed_by(target, #[trigger] t[k]) by {
            assert(t[k] == s[k]);
        }
        lemma_trim_end_cut(t, target, j);
        assert(t.subrange(0, j) =~= s.subrange(0, j));
    } else {
        assert(s.subrange(0, j) =~= s);
    }
}

/// Copies `s[lo..hi]` into a new vector.
pub fn copy_range(s: &[char], lo: usize, hi: usize) -> (res: Vec<char>)
    requires
        lo <= hi <= s@.len(),
    ensures
        res@ == s@.subrange(lo as int, hi as int),
{
    let mut res: Vec<char> = Vec::new();
    let mut i = lo;
    while i < hi
        invariant
            lo <= i <= hi,
            hi <= s@.len(),
            res@ == s@.subrange(lo as int, i as int),
        decreases hi - i,
    {
        res.push(s[i]);
        i = i + 1;
        assert(res@ =~= s@.subrange(lo as int, i as int));
    }
    res
}

/// `s` stripped at both ends of the characters that `target` selects.
pub fn trim_chars(s: &[char], target: Option<char>) -> (res: Vec<char>)
    ensures
        res@ == trim(s@, target),
{
    let n = s.len();
    let mut a: usize = 0;
    while a < n && is_trimmed_by(target, s[a])
        invariant
            a <= n,
            n == s@.len(),
            forall|k: int| 0 <= k < a ==> trimmed_by(target, #[trigger] s@[k]),
        decreases n - a,
    {
        a = a + 1;
    }
    proof {
        lemma_trim_start_skip(s@, target, a as int);
    }
    let ghost mid = s@.subrange(a as int, n as int);
    assert(trim_start(mid, target) == mid);
    let mut b: usize = n;
    while b > a && is_trimmed_by(target, s[b - 1])
        invariant
            a <= b <= n,
            n == s@.len(),
            forall|k: int| b <= k < n ==> trimmed_by(target, #[trigger] s@[k]),
        decreases b - a,
    {
        b = b - 1;
    }
    proof {
        assert forall|k: int| b - a <= k < mid.len() implies trimmed_by(target, #[trigger] mid[k]) by {
            assert(mid[k] == s@[k + a]);
        }
        lemma_trim_end_cut(mid, target, b - a);
        assert(mid.subrange(0, b - a) =~= s@.subrange(a as int, b as int));
        let m2 = s@.subrange(a as int, b as int);
        if m2.len() > 0 {
            assert(m2.last() == s@[b - 1]);
        }
    }
    copy_range(s, a, b)
}

/// Pieces of `s` between separators, `cur` holding the piece begun so far.
pub open spec fn split_from(s: Seq<char>, sep: char, cur: Seq<char>) -> Seq<Seq<char>>
    decreases s.len(),
{
    if s.len() == 0 {
        seq![cur]
    } else if s[0] == sep {
        seq![cur] + split_from(s.drop_first(), sep, Seq::empty())
    } else {
        split_from(s.drop_first(), sep, cur.push(s[0]))
    }
}

/// `str::split(sep)`: the maximal pieces between separators, empty pieces included.
pub open spec fn split(s: Seq<char>, sep: char) -> Seq<Seq<char>> {
    split_from(s, sep, Seq::empty())
}

/// The views of a sequence of character vectors.
pub open spec fn char_views(v: Seq<Vec<char>>) -> Seq<Seq<char>> {
    v.map_values(|x: Vec<char>| x@)
}

/// The pieces of `s` between occurrences of `sep`, as `str::split` yields them.
pub fn split_chars(s: &[char], sep: char) -> (res: Vec<Vec<char>>)
    ensures
        char_views(res@) == split(s@, sep),
{
    let n = s.len();
    let mut out: Vec<Vec<char>> = Vec::new();
    let mut cur: Vec<char> = Vec::new();
    let mut i: usize = 0;
    assert(s@.subrange(0, n as int) =~= s@);
    while i < n
        invariant
            i <= n,
            n == s@.len(),
            split(s@, sep) == char_views(out@) + split_from(
                s@.subrange(i as int, n as int),
                sep,
                cur@,
            ),
        decreases n - i,
    {
        let ghost rest = s@.subrange(i as int, n as int);
        assert(rest.drop_first() =~= s@.subrange(i + 1, n as int));
        let c = s[i];
        if c == sep {
            let ghost old_out = out@;
            let ghost old_cur = cur@;
            out.push(cur);
            cur = Vec::new();
            assert(char_views(out@) =~= char_views(old_out) + seq![old_cur]);
            assert(char_views(old_out) + (seq![old_cur] + split_from(
                s@.subrange(i + 1, n as int),
                sep,
                Seq::empty(),
            )) =~= char_views(out@) + split_from(s@.subrange(i + 1, n as int), sep, cur@));
        } else {
            cur.push(c);
        }
        i = i + 1;
    }
    let ghost old_out = out@;
    let ghost last = cur@;
    out.push(cur);
    assert(char_views(out@) =~= char_views(old_out) + seq![last]);
    out
}

/// Splitting always yields a piece, and the piece after a final separator is empty.
pub proof fn lemma_split_from_props(s: Seq<char>, sep: char, cur: Seq<char>)
    ensures
        split_from(s, sep, cur).len() >= 1,
        s.len() > 0 && s.last() == sep ==> split_from(s, sep, cur).last() == Seq::<char>::empty(),
    decreases s.len(),
{
    if s.len() > 0 {
        let t = s.drop_first();
        if s[0] == sep {
            lemma_split_from_props(t, sep, Seq::empty());
            if t.len() > 0 {
                assert(t.last() == s.last());
            }
        } else {
            lemma_split_from_props(t, sep, cur.push(s[0]));
            if t.len() > 0 {
                assert(t.last() == s.last());
            }
        }
    }
}

/// ASCII lower-casing of a character, as a code point.
pub open spec fn lower_code(c: char) -> u32 {
    if 65 <= (c as u32) <= 90 {
        (c as u32 + 32) as u32
    } else {
        c as u32
    }
}

/// `s` begins with `pat` when ASCII letters are compared without regard to case.
/// For patterns made of ASCII lower-case letters and punctuation this is what
/// `s.to_lowercase().starts_with(pat)` decides.
pub open spec fn starts_with_ignore_case(s: Seq<char>, pat: Seq<char>) -> bool {
    &&& s.len() >= pat.len()
    &&& forall|i: int| 0 <= i < pat.len() ==> lower_code(#[trigger] s[i]) == pat[i] as u32
}

fn lower_code_of(c: char) -> (res: u32)
    ensures
        res == lower_code(c),
{
    let u = c as u32;
    if 65 <= u && u <= 90 {
        u + 32
    } else {
        u
    }
}

pub fn starts_with_ignore_case_chars(s: &[char], pat: &[char]) -> (res: bool)
    ensures
        res == starts_with_ignore_case(s@, pat@),
{
    if s.len() < pat.len() {
        return false;
    }
    let mut i: usize = 0;
    while i < pat.len()
        invariant
            i <= pat@.len() <= s@.len(),
            forall|k: int| 0 <= k < i ==> lower_code(#[trigger] s@[k]) == pat@[k] as u32,
        decreases pat@.len() - i,
    {
        if lower_code_of(s[i]) != pat[i] as u32 {
            return false;
        }
        i = i + 1;
    }
    true
}


/// Lower-case hexadecimal digit for `d < 16`.
pub open spec fn hex_char(d: nat) -> char {
    if d < 10 {
        digit_char(d)
    } else if d == 10 {
        'a'
    } else if d == 11 {
        'b'
    } else if d == 12 {
        'c'
    } else if d == 13 {
        'd'
    } else if d == 14 {
        'e'
    } else {
        'f'
    }
}

/// Each byte as two lower-case hexadecimal digits, high digit first (`{:02x}` per byte).
pub open spec fn hex_lower(bytes: Seq<u8>) -> Seq<char>
    decreases bytes.len(),
{
    if bytes.len() == 0 {
        Seq::empty()
    } else {
        hex_lower(bytes.drop_last()).push(hex_char((bytes.last() / 16) as nat)).push(
            hex_char((bytes.last() % 16) as nat),
        )
    }
}

proof fn lemma_hex_char_code(d: nat)
    requires
        d < 16,
    ensures
        hex_char(d) as u32 == (if d < 10 { 48 + d } else { 87 + d }),
{
}

/// The hexadecimal text has two lower-case digits per byte, high digit first: for
/// byte `b` at position `i`, characters `2i` and `2i + 1` have the codes of the
/// digits of `b / 16` and `b % 16` (`0`–`9` from 48, `a`–`f` from 97). So different
/// byte strings give different texts.
pub proof fn law_hex_lower_digits(bytes: Seq<u8>)
    ensures
        hex_lower(bytes).len() == 2 * bytes.len(),
        forall|i: int| #![trigger bytes[i]] 0 <= i < bytes.len() ==> {
            let hi = bytes[i] / 16;
            let lo = bytes[i] % 16;
            &&& hex_lower(bytes)[2 * i] as u32 == (if hi < 10 { 48 + hi } else { 87 + hi })
            &&& hex_lower(bytes)[2 * i + 1] as u32 == (if lo < 10 { 48 + lo } else { 87 + lo })
        },
    decreases bytes.len(),
{
    if bytes.len() > 0 {
        let init = bytes.drop_last();
        law_hex_lower_digits(init);
        let b = bytes.last();
        lemma_hex_char_code((b / 16) as nat);
        lemma_hex_char_code((b % 16) as nat);
        let h = hex_lower(bytes);
        assert forall|i: int| #![trigger bytes[i]] 0 <= i < bytes.len() implies {
            let hi = bytes[i] / 16;
            let lo = bytes[i] % 16;
            &&& h[2 * i] as u32 == (if hi < 10 { 48 + hi } else { 87 + hi })
            &&& h[2 * i + 1] as u32 == (if lo < 10 { 48 + lo } else { 87 + lo })
        } by {
            if i < bytes.len() - 1 {
                assert(bytes[i] == init[i]);
                assert(h[2 * i] == hex_lower(init)[2 * i]);
                assert(h[2 * i + 1] == hex_lower(init)[2 * i + 1]);
            }
        }
    }
}

fn hex_digit_char(d: u8) -> (c: char)
    requires
        d < 16,
    ensures
        c == hex_char(d as nat),
{
    if d < 10 {
        digit_to_char(d as u64)
    } else if d == 10 {
        'a'
    } else if d == 11 {
        'b'
    } else if d == 12 {
        'c'
    } else if d == 13 {
        'd'
    } else if d == 14 {
        'e'
    } else {
        'f'
    }
}

/// The lower-case hexadecimal text of `bytes`.
pub fn to_hex_lower(bytes: &[u8]) -> (res: String)
    ensures
        res@ == hex_lower(bytes@),
{
    let mut out: Vec<char> = Vec::new();
    let n = bytes.len();
    let mut i: usize = 0;
    while i < n
        invariant
            i <= n,
            n == bytes@.len(),
            out@ == hex_lower(bytes@.take(i as int)),
        decreases n - i,
    {
        let b = bytes[i];
        assert(bytes@.take(i + 1).drop_last() =~= bytes@.take(i as int));
        out.push(hex_digit_char(b / 16));
        out.push(hex_digit_char(b % 16));
        i = i + 1;
    }
    assert(bytes@.take(n as int) =~= bytes@);
    chars_to_string(out.as_slice())
}


/// `needle` occurs in `hay` when ASCII letters are compared without regard to case
/// (`needle` being lower-case).
pub open spec fn contains_ignore_case(hay: Seq<char>, needle: Seq<char>) -> bool {
    exists|i: int| 0 <= i <= hay.len() - needle.len() && #[trigger] starts_with_ignore_case(
        hay.skip(i),
        needle,
    )
}

/// `needle` occurs in `hay` as a contiguous piece.
pub open spec fn contains_seq(hay: Seq<char>, needle: Seq<char>) -> bool {
    exists|i: int| 0 <= i <= hay.len() - needle.len() && #[trigger] hay.subrange(i, i + needle.len()) == needle
}

/// Whether `needle` occurs in `hay`, ASCII case ignored.
pub fn contains_ignore_case_chars(hay: &[char], needle: &[char]) -> (res: bool)
    ensures
        res == contains_ignore_case(hay@, needle@),
{
    if needle.len() > hay.len() {
        return false;
    }
    let hlen = hay.len();
    let last = hlen - needle.len();
    let mut i: usize = 0;
    loop
        invariant
            hay@.len() == last + needle@.len(),
            hlen == hay@.len(),
            i <= last,
            forall|k: int| 0 <= k < i ==> !starts_with_ignore_case(#[trigger] hay@.skip(k), needle@),
        decreases last - i,
    {
        let mut j: usize = 0;
        let mut ok = true;
        while j < needle.len()
            invariant
                i <= last,
                hay@.len() == last + needle@.len(),
                hlen == hay@.len(),
                j <= needle@.len(),
                ok == forall|k: int| 0 <= k < j ==> lower_code(#[trigger] hay@[i + k]) == needle@[k] as u32,
            decreases needle@.len() - j,
        {
            assert(i + j < hay@.len());
            if lower_code_of(hay[i + j]) != needle[j] as u32 {
                ok = false;
            }
            j = j + 1;
        }
        proof {
            let t = hay@.skip(i as int);
            assert forall|k: int| 0 <= k < needle@.len() implies t[k] == hay@[i + k] by {}
            if ok {
                assert forall|k: int| 0 <= k < needle@.len() implies lower_code(#[trigger] t[k])
                    == needle@[k] as u32 by {
                    assert(t[k] == hay@[i + k]);
                }
                assert(starts_with_ignore_case(t, needle@));
            } else {
                let k = choose|k: int| 0 <= k < needle@.len() && lower_code(hay@[i + k]) != needle@[k] as u32;
                assert(lower_code(t[k]) != needle@[k] as u32);
            }
        }
        if ok {
            return true;
        }
        if i == last {
            return false;
        }
        i = i + 1;
    }
}

/// Whether `needle` occurs in `hay`.
pub fn contains_chars(hay: &[char], needle: &[char]) -> (res: bool)
    ensures
        res == contains_seq(hay@, needle@),
{
    if needle.len() > hay.len() {
        return false;
    }
    let hlen = hay.len();
    let last = hlen - needle.len();
    let mut i: usize = 0;
    loop
        invariant
            hay@.len() == last + needle@.len(),
            hlen == hay@.len(),
            i <= last,
            forall|k: int|
                0 <= k < i ==> #[trigger] hay@.subrange(k, k + needle@.len()) != needle@,
        decreases last - i,
    {
        let mut j: usize = 0;
        let mut ok = true;
        while j < needle.len()
            invariant
                i <= last,
                hay@.len() == last + needle@.len(),
                hlen == hay@.len(),
                j <= needle@.len(),
                ok == forall|k: int| 0 <= k < j ==> #[trigger] hay@[i + k] == needle@[k],
            decreases needle@.len() - j,
        {
            assert(i + j < hay@.len());
            if hay[i + j] != needle[j] {
                ok = false;
            }
            j = j + 1;
        }
        proof {
            let t = hay@.subrange(i as int, i + needle@.len());
            if ok {
                assert forall|k: int| 0 <= k < needle@.len() implies t[k] == needle@[k] by {
                    assert(t[k] == hay@[i + k]);
                }
                assert(t =~= needle@);
            } else {
                let k = choose|k: int| 0 <= k < needle@.len() && hay@[i + k] != needle@[k];
                assert(t[k] != needle@[k]);
            }
        }
        if ok {
            return true;
        }
        if i == last {
            return false;
        }
        i = i + 1;
    }
}

/// Value of `c` as a digit in `radix` (10 or 16; letters of either case).
pub open spec fn digit_value(c: char, radix: nat) -> Option<nat> {
    let u = c as u32;
    if 48 <= u <= 57 && u - 48 < radix {
        Some((u - 48) as nat)
    } else if radix == 16 && 97 <= u <= 102 {
        Some((u - 87) as nat)
    } else if radix == 16 && 65 <= u <= 70 {
        Some((u - 55) as nat)
    } else {
        None
    }
}

/// The number that a non-empty run of digits spells, if every character is a digit.
pub open spec fn digits_value(d: Seq<char>, radix: nat) -> Option<nat>
    decreases d.len(),
{
    if d.len() == 0 {
        None
    } else {
        match digit_value(d.last(), radix) {
            None => None,
            Some(v) => if d.len() == 1 {
                Some(v)
            } else {
                match digits_value(d.drop_last(), radix) {
                    Some(h) => Some(h * radix + v),
                    None => None,
                }
            },
        }
    }
}

/// What `from_str_radix` gives for an unsigned type whose largest value is `max`:
/// an optional leading `+`, then digits, the value not above `max`.
pub open spec fn parse_unsigned(s: Seq<char>, radix: nat, max: nat) -> Option<nat> {
    let d = if s.len() > 1 && s[0] == '+' {
        s.drop_first()
    } else {
        s
    };
    match digits_value(d, radix) {
        Some(v) => if v <= max {
            Some(v)
        } else {
            None
        },
        None => None,
    }
}

fn digit_of(c: char, radix: u32) -> (res: Option<u32>)
    requires
        radix == 10 || radix == 16,
    ensures
        res matches Some(v) ==> digit_value(c, radix as nat) == Some(v as nat) && v < radix,
        res is None ==> digit_value(c, radix as nat) is None,
{
    let u = c as u32;
    if 48 <= u && u <= 57 && u - 48 < radix {
        Some(u - 48)
    } else if radix == 16 && 97 <= u && u <= 102 {
        Some(u - 87)
    } else if radix == 16 && 65 <= u && u <= 70 {
        Some(u - 55)
    } else {
        None
    }
}

proof fn lemma_digits_bound(d: Seq<char>, radix: nat, i: int, max: nat)
    requires
        radix == 10 || radix == 16,
        0 < i < d.len(),
        digits_value(d.take(i), radix) matches Some(h) && h > max,
        forall|k: int| 0 <= k < d.len() ==> digit_value(#[trigger] d[k], radix) is Some,
    ensures
        digits_value(d, radix) matches Some(v) && v > max,
    decreases d.len() - i,
{
    let h = digits_value(d.take(i), radix)->0;
    assert(d.take(i + 1).drop_last() =~= d.take(i));
    let v = digit_value(d[i], radix)->0;
    assert(digits_value(d.take(i + 1), radix) == Some(h * radix + v));
    assert(h * radix + v > max) by (nonlinear_arith)
        requires
            h > max,
            radix >= 10,
    ;
    if i + 1 < d.len() {
        lemma_digits_bound(d, radix, i + 1, max);
    } else {
        assert(d.take(i + 1) =~= d);
    }
}

/// Parses an unsigned number in base 10 or 16 as `from_str_radix` does, for a type
/// whose largest value is `max`.
pub fn parse_unsigned_chars(s: &[char], radix: u32, max: u64) -> (res: Option<u64>)
    requires
        radix == 10 || radix == 16,
    ensures
        res matches Some(v) ==> parse_unsigned(s@, radix as nat, max as nat) == Some(v as nat),
        res is None ==> parse_unsigned(s@, radix as nat, max as nat) is None,
{
    let start: usize = if s.len() > 1 && s[0] == '+' {
        1
    } else {
        0
    };
    let ghost d = if s@.len() > 1 && s@[0] == '+' {
        s@.drop_first()
    } else {
        s@
    };
    assert(d =~= s@.skip(start as int));
    let n = s.len();
    if start == n {
        return None;
    }
    let mut acc: u128 = 0;
    let mut i: usize = start;
    // first pass: every character a digit
    while i < n
        invariant
            start <= i <= n,
            n == s@.len(),
            d =~= s@.skip(start as int),
            d == (if s@.len() > 1 && s@[0] == '+' {
                s@.drop_first()
            } else {
                s@
            }),
            forall|k: int| 0 <= k < i - start ==> digit_value(#[trigger] d[k], radix as nat) is Some,
            radix == 10 || radix == 16,
        decreases n - i,
    {
        assert(d[i - start] == s@[i as int]);
        if digit_of(s[i], radix).is_none() {
            proof {
                lemma_digits_none(d, radix as nat, i - start);
            }
            return None;
        }
        i = i + 1;
    }
    i = start;
    while i < n
        invariant
            start < n,
            start <= i <= n,
            n == s@.len(),
            d =~= s@.skip(start as int),
            d == (if s@.len() > 1 && s@[0] == '+' {
                s@.drop_first()
            } else {
                s@
            }),
            forall|k: int| 0 <= k < d.len() ==> digit_value(#[trigger] d[k], radix as nat) is Some,
            i > start ==> digits_value(d.take(i - start), radix as nat) == Some(acc as nat),
            i == start ==> acc == 0,
            acc <= max,
            radix == 10 || radix == 16,
        decreases n - i,
    {
        let v = match digit_of(s[i], radix) {
            Some(v) => v,
            None => 0,
        };
        assert(d[i - start] == s@[i as int]);
        let next: u128 = acc * (radix as u128) + (v as u128);
        proof {
            if i > start {
                assert(d.take(i - start + 1).drop_last() =~= d.take(i - start));
            } else {
                assert(d.take(1).len() == 1);
            }
        }
        if next > max as u128 {
            proof {
                if i + 1 < n {
                    lemma_digits_bound(d, radix as nat, i - start + 1, max as nat);
                } else {
                    assert(d.take(i - start + 1) =~= d);
                }
            }
            return None;
        }
        acc = next;
        i = i + 1;
    }
    assert(d.take(n - start) =~= d);
    Some(acc as u64)
}

proof fn lemma_digits_none(d: Seq<char>, radix: nat, i: int)
    requires
        0 <= i < d.len(),
        digit_value(d[i], radix) is None,
    ensures
        digits_value(d, radix) is None,
    decreases d.len(),
{
    if i < d.len() - 1 {
        assert(d.drop_last()[i] == d[i]);
        lemma_digits_none(d.drop_last(), radix, i);
    }
}

} // verus!
