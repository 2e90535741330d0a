//! UTF-16 text as the editor's windows hold it, and UTF-8 text as files hold it.
use vstd::prelude::*;
use vstd::utf8::*;

verus! {

/// A code unit in `0xD800..=0xDBFF`, the first half of a surrogate pair.
pub open spec fn is_high_surrogate(u: u16) -> bool {
    0xD800 <= u && u <= 0xDBFF
}

/// A code unit in `0xDC00..=0xDFFF`, the second half of a surrogate pair.
pub open spec fn is_low_surrogate(u: u16) -> bool {
    0xDC00 <= u && u <= 0xDFFF
}

/// A value that a `char` can hold: at most `0x10FFFF` and outside the surrogate range.
pub open spec fn is_char_value(v: u32) -> bool {
    v <= 0x10FFFF && !(0xD800 <= v && v <= 0xDFFF)
}

/// The UTF-16 code units of one character: one unit below `0x10000`, a surrogate pair above.
pub open spec fn utf16_units(c: char) -> Seq<u16> {
    let v = c as u32;
    if v < 0x10000 {
        seq![v as u16]
    } else {
        seq![
            (0xD800 + (v - 0x10000) / 0x400) as u16,
            (0xDC00 + (v - 0x10000) % 0x400) as u16,
        ]
    }
}

/// The UTF-16 encoding of a character sequence.
pub open spec fn encode_utf16(cs: Seq<char>) -> Seq<u16>
    decreases cs.len(),
{
    if cs.len() == 0 {
        seq![]
    } else {
        utf16_units(cs[0]) + encode_utf16(cs.drop_first())
    }
}

/// The character that a surrogate pair stands for.
pub open spec fn surrogate_pair_value(hi: u16, lo: u16) -> u32 {
    (0x10000 + (hi - 0xD800) * 0x400 + (lo - 0xDC00)) as u32
}

/// U+FFFD, which stands in for code units or bytes that encode no character.
pub open spec fn replacement_char() -> char {
    '\u{FFFD}'
}

/// UTF-16 decoding in which each unpaired surrogate becomes U+FFFD.
pub open spec fn decode_utf16_lossy(us: Seq<u16>) -> Seq<char>
    decreases us.len(),
{
    if us.len() == 0 {
        seq![]
    } else if us.len() >= 2 && is_high_surrogate(us[0]) && is_low_surrogate(us[1]) {
        seq![surrogate_pair_value(us[0], us[1]) as char] + decode_utf16_lossy(
            us.subrange(2, us.len() as int),
        )
    } else if is_high_surrogate(us[0]) || is_low_surrogate(us[0]) {
        seq![replacement_char()] + decode_utf16_lossy(us.subrange(1, us.len() as int))
    } else {
        seq![(us[0] as u32) as char] + decode_utf16_lossy(us.subrange(1, us.len() as int))
    }
}

/// The encoding of a character followed by others is its units followed by theirs.
pub(crate) proof fn lemma_encode_utf16_cons(c: char, rest: Seq<char>)
    ensures
        encode_utf16(seq![c] + rest) == utf16_units(c) + encode_utf16(rest),
{
    let s = seq![c] + rest;
    assert(s[0] == c);
    assert(s.drop_first() =~= rest);
}

/// Decoding what `encode_utf16` produced gives back the characters.
pub proof fn lemma_utf16_round_trip(cs: Seq<char>)
    ensures
        decode_utf16_lossy(encode_utf16(cs)) == cs,
    decreases cs.len(),
{
    if cs.len() > 0 {
        let c = cs[0];
        let rest = cs.drop_first();
        let us = encode_utf16(cs);
        char_is_scalar(c);
        let v = c as u32;
        lemma_utf16_round_trip(rest);
        if v < 0x10000 {
            assert(us.subrange(1, us.len() as int) =~= encode_utf16(rest));
            assert(us[0] == v as u16);
            assert(us[0] as u32 == v);
            char_u32_cast(c, v);
            assert(!is_high_surrogate(us[0]) && !is_low_surrogate(us[0]));
            assert(decode_utf16_lossy(us) == seq![c] + rest);
        } else {
            let hi = us[0];
            let lo = us[1];
            assert(is_high_surrogate(hi));
            assert(is_low_surrogate(lo));
            assert(surrogate_pair_value(hi, lo) == v);
            assert(us.subrange(2, us.len() as int) =~= encode_utf16(rest));
            char_u32_cast(c, v);
            assert(decode_utf16_lossy(us) == seq![c] + rest);
        }
        assert(seq![c] + rest =~= cs);
    }
}

/// The UTF-16 code units of a character are the standard ones: below `0x10000`
/// the value itself; above it a high surrogate and a low surrogate whose
/// offsets from `0xD800` and `0xDC00` are the upper and the lower ten bits of
/// the value less `0x10000`.
pub proof fn lemma_utf16_units_standard(c: char)
    ensures
        (c as u32) < 0x10000 ==> utf16_units(c) =~= seq![(c as u32) as u16],
        (c as u32) >= 0x10000 ==> {
            let us = utf16_units(c);
            &&& us.len() == 2
            &&& 0xD800 <= us[0] && us[0] <= 0xDBFF
            &&& 0xDC00 <= us[1] && us[1] <= 0xDFFF
            &&& us[0] - 0xD800 == ((c as u32) - 0x10000) / 0x400
            &&& us[1] - 0xDC00 == ((c as u32) - 0x10000) % 0x400
            &&& 0x10000 + (us[0] - 0xD800) * 0x400 + (us[1] - 0xDC00) == c as u32
        },
{
    char_is_scalar(c);
}

/// UTF-16 decoding reads a high surrogate followed by a low surrogate as the
/// character `0x10000 + (hi - 0xD800) * 0x400 + (lo - 0xDC00)`, any other
/// surrogate as U+FFFD, and any other unit as the character of that value, and
/// then goes on with the units that follow.
pub proof fn lemma_decode_utf16_standard(u: u16, v: u16, rest: Seq<u16>)
    ensures
        (0xD800 <= u && u <= 0xDBFF && 0xDC00 <= v && v <= 0xDFFF) ==> decode_utf16_lossy(
            seq![u, v] + rest,
        ) == seq![((0x10000 + (u - 0xD800) * 0x400 + (v - 0xDC00)) as u32) as char]
            + decode_utf16_lossy(rest),
        (0xD800 <= u && u <= 0xDFFF && !(0xD800 <= u && u <= 0xDBFF && 0xDC00 <= v && v
            <= 0xDFFF)) ==> decode_utf16_lossy(seq![u, v] + rest) == seq!['\u{FFFD}']
            + decode_utf16_lossy(seq![v] + rest),
        !(0xD800 <= u && u <= 0xDFFF) ==> decode_utf16_lossy(seq![u] + rest) == seq![
            (u as u32) as char,
        ] + decode_utf16_lossy(rest),
        (0xD800 <= u && u <= 0xDFFF) ==> decode_utf16_lossy(seq![u]) == seq!['\u{FFFD}'],
{
    let s2 = seq![u, v] + rest;
    assert(s2[0] == u && s2[1] == v);
    assert(s2.subrange(2, s2.len() as int) =~= rest);
    assert(s2.subrange(1, s2.len() as int) =~= seq![v] + rest);
    let s1 = seq![u] + rest;
    assert(s1[0] == u);
    assert(s1.subrange(1, s1.len() as int) =~= rest);
    assert(seq![u].subrange(1, 1) =~= Seq::<u16>::empty());
    assert(seq![u][0] == u);
    assert(decode_utf16_lossy(Seq::<u16>::empty()) =~= Seq::<char>::empty());
    if 0xD800 <= u && u <= 0xDFFF {
        assert(decode_utf16_lossy(seq![u]) =~= seq!['\u{FFFD}']);
    }
}

/// Appends the UTF-16 code units of the character with value `v`.
pub(crate) fn push_utf16_units(out: &mut Vec<u16>, v: u32)
    requires
        is_char_value(v),
    ensures
        final(out)@ == old(out)@ + utf16_units(v as char),
{
    if v < 0x10000 {
        out.push(v as u16);
    } else {
        let w = v - 0x10000;
        out.push((0xD800 + w / 0x400) as u16);
        out.push((0xDC00 + w % 0x400) as u16);
    }
    assert(out@ =~= old(out)@ + utf16_units(v as char));
}

/// Text that is well-formed UTF-16 and not empty comes back unchanged when it
/// is written to a file as UTF-8 and read back from it.
pub proof fn lemma_file_text_round_trip(text: Seq<u16>, cs: Seq<char>)
    requires
        text == encode_utf16(cs),
        text.len() > 0,
    ensures
        encode_utf16(decode_utf8_lossy(encode_utf8(decode_utf16_lossy(text)))) == text,
{
    lemma_utf16_round_trip(cs);
    encode_utf8_valid_utf8(cs);
    encode_utf8_decode_utf8(cs);
    lemma_utf8_lossy_exact(encode_utf8(cs));
}

/// A character sequence without `'\0'` has a UTF-16 encoding without a zero unit.
pub proof fn lemma_encode_utf16_no_nul(cs: Seq<char>)
    requires
        forall|i: int| 0 <= i < cs.len() ==> cs[i] as u32 != 0,
    ensures
        forall|i: int| 0 <= i < encode_utf16(cs).len() ==> encode_utf16(cs)[i] != 0u16,
    decreases cs.len(),
{
    if cs.len() > 0 {
        let rest = cs.drop_first();
        lemma_encode_utf16_no_nul(rest);
        let c = cs[0];
        char_is_scalar(c);
        let units = utf16_units(c);
        assert(c != '\0');
        assert forall|i: int| 0 <= i < units.len() implies units[i] != 0u16 by {
            if (c as u32) < 0x10000 {
                assert((c as u32) != 0);
            }
        }
        let whole = encode_utf16(cs);
        assert(whole == units + encode_utf16(rest));
        assert forall|i: int| 0 <= i < whole.len() implies whole[i] != 0u16 by {
            if i < units.len() {
                assert(whole[i] == units[i]);
            } else {
                assert(whole[i] == encode_utf16(rest)[i - units.len()]);
            }
        }
    }
}

/// UTF-8 decoding in which each byte that starts no well-formed encoding of a
/// character becomes U+FFFD, and decoding goes on at the next byte.
pub open spec fn decode_utf8_lossy(bytes: Seq<u8>) -> Seq<char>
    decreases bytes.len(),
{
    if bytes.len() == 0 {
        seq![]
    } else if valid_first_scalar(bytes) {
        seq![decode_first_scalar(bytes) as char] + decode_utf8_lossy(pop_first_scalar(bytes))
    } else {
        seq![replacement_char()] + decode_utf8_lossy(bytes.subrange(1, bytes.len() as int))
    }
}

/// The UTF-8 encoding of a character followed by others is its bytes followed by theirs.
proof fn lemma_encode_utf8_cons(c: char, rest: Seq<char>)
    ensures
        encode_utf8(seq![c] + rest) == encode_scalar(c as u32) + encode_utf8(rest),
{
    let s = seq![c] + rest;
    assert(s[0] == c);
    assert(s.drop_first() =~= rest);
}

/// On well-formed UTF-8 the lossy decoding is the exact decoding.
pub proof fn lemma_utf8_lossy_exact(bytes: Seq<u8>)
    requires
        valid_utf8(bytes),
    ensures
        decode_utf8_lossy(bytes) == decode_utf8(bytes),
    decreases bytes.len(),
{
    if bytes.len() > 0 {
        lemma_utf8_lossy_exact(pop_first_scalar(bytes));
    }
}

/// Appends the UTF-8 encoding of the character with value `v`.
fn push_utf8_scalar(out: &mut Vec<u8>, v: u32)
    requires
        is_char_value(v),
    ensures
        final(out)@ == old(out)@ + encode_scalar(v),
{
    if v <= 0x7F {
        out.push((v & 0x7F) as u8);
    } else if v <= 0x7FF {
        out.push(0xC0 | ((v >> 6) & 0x1F) as u8);
        out.push(0x80 | (v & 0x3F) as u8);
    } else if v <= 0xFFFF {
        out.push(0xE0 | ((v >> 12) & 0x0F) as u8);
        out.push(0x80 | ((v >> 6) & 0x3F) as u8);
        out.push(0x80 | (v & 0x3F) as u8);
    } else {
        out.push(0xF0 | ((v >> 18) & 0x7) as u8);
        out.push(0x80 | ((v >> 12) & 0x3F) as u8);
        out.push(0x80 | ((v >> 6) & 0x3F) as u8);
        out.push(0x80 | (v & 0x3F) as u8);
    }
    assert(out@ =~= old(out)@ + encode_scalar(v));
}

/// Converts UTF-16 text to the UTF-8 bytes of a file; an unpaired surrogate
/// is written as U+FFFD.
pub fn wide_to_utf8(text: &[u16]) -> (res: Vec<u8>)
    ensures
        res@ == encode_utf8(decode_utf16_lossy(text@)),
{
    let mut out: Vec<u8> = Vec::new();
    let n = text.len();
    let mut i: usize = 0;
    assert(text@.subrange(0, n as int) =~= text@);
    while i < n
        invariant
            n == text@.len(),
            i <= n,
            encode_utf8(decode_utf16_lossy(text@)) == out@ + encode_utf8(
                decode_utf16_lossy(text@.subrange(i as int, n as int)),
            ),
        decreases n - i,
    {
        let ghost rest = text@.subrange(i as int, n as int);
        let u = text[i];
        assert(rest[0] == u);
        let v: u32;
        let k: usize;
        if 0xD800 <= u && u <= 0xDBFF && i + 1 < n && 0xDC00 <= text[i + 1] && text[i + 1] <= 0xDFFF {
            let lo = text[i + 1];
            assert(rest[1] == lo);
            v = 0x10000 + (u as u32 - 0xD800) * 0x400 + (lo as u32 - 0xDC00);
            k = 2;
        } else if 0xD800 <= u && u <= 0xDFFF {
            v = 0xFFFD;
            k = 1;
        } else {
            v = u as u32;
            k = 1;
        }
        assert(rest.subrange(k as int, rest.len() as int) =~= text@.subrange(i + k, n as int));
        assert(decode_utf16_lossy(rest) == seq![v as char] + decode_utf16_lossy(
            text@.subrange(i + k, n as int),
        ));
        proof {
            lemma_encode_utf8_cons(v as char, decode_utf16_lossy(text@.subrange(i + k, n as int)));
        }
        push_utf8_scalar(&mut out, v);
        i = i + k;
    }
    assert(text@.subrange(n as int, n as int) =~= Seq::<u16>::empty());
    out
}

/// Reads the character whose UTF-8 encoding starts at `bytes[i]`: its value and
/// the number of bytes it takes, or `None` where no well-formed encoding starts there.
fn first_scalar(bytes: &[u8], i: usize) -> (r: Option<(u32, usize)>)
    requires
        i < bytes@.len(),
    ensures
        ({
            let rest = bytes@.subrange(i as int, bytes@.len() as int);
            match r {
                Some((v, k)) => {
                    &&& valid_first_scalar(rest)
                    &&& v == decode_first_scalar(rest)
                    &&& k == length_of_first_scalar(rest)
                    &&& is_char_value(v)
                },
                None => !valid_first_scalar(rest),
            }
        }),
{
    let ghost rest = bytes@.subrange(i as int, bytes@.len() as int);
    let n = bytes.len() - i;
    let b0 = bytes[i];
    assert(rest[0] == b0);
    if b0 <= 0x7F {
        let cp = (b0 & 0x7F) as u32;
        assert(cp <= 0x7F) by (bit_vector)
            requires
                cp == (b0 & 0x7F) as u32,
        ;
        Some((cp, 1))
    } else if 0xC0 <= b0 && b0 <= 0xDF {
        if n < 2 {
            return None;
        }
        let b1 = bytes[i + 1];
        assert(rest[1] == b1);
        if !(0x80 <= b1 && b1 <= 0xBF) {
            return None;
        }
        let cp = (((b0 & 0x1F) as u32) << 6) | ((b1 & 0x3F) as u32);
        assert(cp <= 0x7FF) by (bit_vector)
            requires
                cp == (((b0 & 0x1F) as u32) << 6) | ((b1 & 0x3F) as u32),
        ;
        if cp < 0x80 {
            None
        } else {
            Some((cp, 2))
        }
    } else if 0xE0 <= b0 && b0 <= 0xEF {
        if n < 3 {
            return None;
        }
        let b1 = bytes[i + 1];
        let b2 = bytes[i + 2];
        assert(rest[1] == b1 && rest[2] == b2);
        if !(0x80 <= b1 && b1 <= 0xBF && 0x80 <= b2 && b2 <= 0xBF) {
            return None;
        }
        let cp = (((b0 & 0x0F) as u32) << 12) | (((b1 & 0x3F) as u32) << 6) | ((b2 & 0x3F) as u32);
        assert(cp <= 0xFFFF) by (bit_vector)
            requires
                cp == (((b0 & 0x0F) as u32) << 12) | (((b1 & 0x3F) as u32) << 6) | ((b2
                    & 0x3F) as u32),
        ;
        if cp < 0x800 || (0xD800 <= cp && cp <= 0xDFFF) {
            None
        } else {
            Some((cp, 3))
        }
    } else if 0xF0 <= b0 && b0 <= 0xF7 {
        if n < 4 {
            return None;
        }
        let b1 = bytes[i + 1];
        let b2 = bytes[i + 2];
        let b3 = bytes[i + 3];
        assert(rest[1] == b1 && rest[2] == b2 && rest[3] == b3);
        if !(0x80 <= b1 && b1 <= 0xBF && 0x80 <= b2 && b2 <= 0xBF && 0x80 <= b3 && b3 <= 0xBF) {
            return None;
        }
        let cp = (((b0 & 0x07) as u32) << 18) | (((b1 & 0x3F) as u32) << 12) | (((b2 & 0x3F)
            as u32) << 6) | ((b3 & 0x3F) as u32);
        if cp < 0x10000 || cp > 0x10FFFF {
            None
        } else {
            Some((cp, 4))
        }
    } else {
        None
    }
}

/// Converts the UTF-8 bytes of a file to the UTF-16 text of the editor; each
/// byte that starts no well-formed encoding becomes U+FFFD. There must be at
/// least one byte: the conversion of an empty file fails.
pub fn utf8_to_wide(bytes: &[u8]) -> (res: Vec<u16>)
    requires
        bytes@.len() > 0,
    ensures
        res@ == encode_utf16(decode_utf8_lossy(bytes@)),
{
    let mut out: Vec<u16> = Vec::new();
    let n = bytes.len();
    let mut i: usize = 0;
    assert(bytes@.subrange(0, n as int) =~= bytes@);
    while i < n
        invariant
            n == bytes@.len(),
            i <= n,
            encode_utf16(decode_utf8_lossy(bytes@)) == out@ + encode_utf16(
                decode_utf8_lossy(bytes@.subrange(i as int, n as int)),
            ),
        decreases n - i,
    {
        let ghost rest = bytes@.subrange(i as int, n as int);
        let v: u32;
        let k: usize;
        match first_scalar(bytes, i) {
            Some((cp, len)) => {
                v = cp;
                k = len;
            },
            None => {
                v = 0xFFFD;
                k = 1;
            },
        }
        assert(rest.subrange(k as int, rest.len() as int) =~= bytes@.subrange(i + k, n as int));
        assert(decode_utf8_lossy(rest) == seq![v as char] + decode_utf8_lossy(
            bytes@.subrange(i + k, n as int),
        ));
        proof {
            lemma_encode_utf16_cons(v as char, decode_utf8_lossy(bytes@.subrange(i + k, n as int)));
        }
        push_utf16_units(&mut out, v);
        i = i + k;
    }
    assert(bytes@.subrange(n as int, n as int) =~= Seq::<u8>::empty());
    out
}

/// The number of line feeds (`0x000A`) among UTF-16 units.
pub open spec fn count_lf_units(s: Seq<u16>) -> nat
    decreases s.len(),
{
    if s.len() == 0 {
        0
    } else {
        (if s[0] == 0x000Au16 { 1nat } else { 0nat }) + count_lf_units(s.drop_first())
    }
}

/// The number of line feed bytes (`0x0A`) among bytes.
pub open spec fn count_lf_bytes(s: Seq<u8>) -> nat
    decreases s.len(),
{
    if s.len() == 0 {
        0
    } else {
        (if s[0] == 0x0Au8 { 1nat } else { 0nat }) + count_lf_bytes(s.drop_first())
    }
}

/// Line feeds among units add up over a concatenation.
pub proof fn lemma_count_lf_units_add(a: Seq<u16>, b: Seq<u16>)
    ensures
        count_lf_units(a + b) == count_lf_units(a) + count_lf_units(b),
    decreases a.len(),
{
    if a.len() == 0 {
        assert(a + b =~= b);
    } else {
        lemma_count_lf_units_add(a.drop_first(), b);
        assert((a + b).drop_first() =~= a.drop_first() + b);
        assert((a + b)[0] == a[0]);
    }
}

/// Line feed bytes add up over a concatenation.
pub proof fn lemma_count_lf_bytes_add(a: Seq<u8>, b: Seq<u8>)
    ensures
        count_lf_bytes(a + b) == count_lf_bytes(a) + count_lf_bytes(b),
    decreases a.len(),
{
    if a.len() == 0 {
        assert(a + b =~= b);
    } else {
        lemma_count_lf_bytes_add(a.drop_first(), b);
        assert((a + b).drop_first() =~= a.drop_first() + b);
        assert((a + b)[0] == a[0]);
    }
}

proof fn lemma_count_lf_bytes_none(s: Seq<u8>)
    requires
        forall|i: int| 0 <= i < s.len() ==> s[i] >= 0x80,
    ensures
        count_lf_bytes(s) == 0,
    decreases s.len(),
{
    if s.len() > 0 {
        lemma_count_lf_bytes_none(s.drop_first());
    }
}

proof fn lemma_count_lf_units_none(s: Seq<u16>)
    requires
        forall|i: int| 0 <= i < s.len() ==> s[i] >= 0x80,
    ensures
        count_lf_units(s) == 0,
    decreases s.len(),
{
    if s.len() > 0 {
        lemma_count_lf_units_none(s.drop_first());
    }
}

/// An ASCII byte decodes as the character of that value, and decoding goes on
/// at the next byte.
pub proof fn lemma_decode_utf8_ascii(bytes: Seq<u8>)
    requires
        bytes.len() > 0,
        bytes[0] < 0x80,
    ensures
        decode_utf8_lossy(bytes) == seq![(bytes[0] as u32) as char] + decode_utf8_lossy(
            bytes.subrange(1, bytes.len() as int),
        ),
{
    let b0 = bytes[0];
    assert((b0 & 0x7F) as u32 == b0 as u32) by (bit_vector)
        requires
            b0 < 0x80,
    ;
    assert(valid_first_scalar(bytes));
}

/// A byte that starts no well-formed UTF-8 encoding decodes as U+FFFD, and
/// decoding goes on at the very next byte: nothing after it is lost.
pub proof fn lemma_decode_utf8_bad_byte(bytes: Seq<u8>)
    requires
        bytes.len() > 0,
        !valid_first_scalar(bytes),
    ensures
        decode_utf8_lossy(bytes) == seq!['\u{FFFD}'] + decode_utf8_lossy(
            bytes.subrange(1, bytes.len() as int),
        ),
{
}

proof fn lemma_first_scalar_is_char(bytes: Seq<u8>)
    requires
        valid_first_scalar(bytes),
    ensures
        is_char_value(decode_first_scalar(bytes)),
{
    let b0 = bytes[0];
    if is_leading_byte_width_1(b0) {
        assert((b0 & 0x7F) as u32 <= 0x7F) by (bit_vector);
    } else if is_leading_byte_width_2(b0) {
        let b1 = bytes[1];
        assert(((((b0 & 0x1F) as u32) << 6) | ((b1 & 0x3F) as u32)) <= 0x7FF) by (bit_vector);
    } else if is_leading_byte_width_3(b0) {
        let b1 = bytes[1];
        let b2 = bytes[2];
        assert(((((b0 & 0x0F) as u32) << 12) | (((b1 & 0x3F) as u32) << 6) | ((b2 & 0x3F)
            as u32)) <= 0xFFFF) by (bit_vector);
    }
}

/// Decoding a file keeps its line feeds: the text holds exactly as many line
/// feed units as the file holds line feed bytes.
pub proof fn lemma_decode_keeps_line_feeds(bytes: Seq<u8>)
    ensures
        count_lf_units(encode_utf16(decode_utf8_lossy(bytes))) == count_lf_bytes(bytes),
    decreases bytes.len(),
{
    if bytes.len() > 0 {
        let b0 = bytes[0];
        if valid_first_scalar(bytes) {
            let k = length_of_first_scalar(bytes);
            let v = decode_first_scalar(bytes);
            let c = v as char;
            let rest = pop_first_scalar(bytes);
            lemma_decode_keeps_line_feeds(rest);
            lemma_encode_utf16_cons(c, decode_utf8_lossy(rest));
            lemma_count_lf_units_add(utf16_units(c), encode_utf16(decode_utf8_lossy(rest)));
            assert(bytes =~= bytes.subrange(0, k) + rest);
            lemma_count_lf_bytes_add(bytes.subrange(0, k), rest);
            if b0 < 0x80 {
                lemma_decode_utf8_ascii(bytes);
                assert(k == 1);
                assert((b0 & 0x7F) as u32 == b0 as u32) by (bit_vector)
                    requires
                        b0 < 0x80,
                ;
                assert(v == b0 as u32);
                assert(utf16_units(c) =~= seq![b0 as u16]);
                assert(bytes.subrange(0, k) =~= seq![b0]);
                assert(count_lf_bytes(seq![b0]) == (if b0 == 0x0Au8 { 1nat } else { 0nat })) by {
                    assert(seq![b0].drop_first() =~= Seq::<u8>::empty());
                }
                assert(count_lf_units(seq![b0 as u16]) == (if b0 == 0x0Au8 { 1nat } else { 0nat })) by {
                    assert(seq![b0 as u16].drop_first() =~= Seq::<u16>::empty());
                    assert(count_lf_units(Seq::<u16>::empty()) == 0);
                    assert(seq![b0 as u16][0] == b0 as u16);
                    assert((b0 as u16) as int == b0 as int);
                }
            } else {
                assert(v >= 0x80);
                assert forall|i: int| 0 <= i < k implies #[trigger] bytes.subrange(0, k)[i] >= 0x80 by {
                    assert(bytes.subrange(0, k)[i] == bytes[i]);
                }
                lemma_count_lf_bytes_none(bytes.subrange(0, k));
                let us = utf16_units(c);
                lemma_first_scalar_is_char(bytes);
                assert((c as u32) == v);
                assert forall|i: int| 0 <= i < us.len() implies #[trigger] us[i] >= 0x80 by {}
                lemma_count_lf_units_none(us);
            }
        } else {
            let rest = bytes.subrange(1, bytes.len() as int);
            lemma_decode_utf8_bad_byte(bytes);
            if b0 < 0x80 {
                assert((b0 & 0x7F) as u32 <= 0x7F) by (bit_vector);
                assert(valid_first_scalar(bytes));
            }
            lemma_decode_keeps_line_feeds(rest);
            lemma_encode_utf16_cons('\u{FFFD}', decode_utf8_lossy(rest));
            lemma_count_lf_units_add(utf16_units('\u{FFFD}'), encode_utf16(decode_utf8_lossy(rest)));
            assert(utf16_units('\u{FFFD}') =~= seq![0xFFFDu16]);
            assert(count_lf_units(seq![0xFFFDu16]) == 0) by {
                assert(seq![0xFFFDu16].drop_first() =~= Seq::<u16>::empty());
                assert(count_lf_units(Seq::<u16>::empty()) == 0);
                assert(seq![0xFFFDu16][0] == 0xFFFDu16);
            }
            assert(bytes.drop_first() =~= rest);
        }
    }
}

} // verus!
