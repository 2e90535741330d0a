//! Conversions between Rust strings and the NUL-terminated wide strings of Windows.
use vstd::prelude::*;
use vstd::utf8::*;
use crate::encoding::{encode_utf16, is_char_value, lemma_encode_utf16_cons, lemma_encode_utf16_no_nul, push_utf16_units};

verus! {

/// Converts a string to the NUL-terminated UTF-16 form that wide Windows calls take.
pub fn convert_string(string: &str) -> (res: Vec<u16>)
    ensures
        res@ == encode_utf16(string@).push(0u16),
{
    let mut out: Vec<u16> = Vec::new();
    assert(string@.skip(0) =~= string@);
    for c in it: string.chars()
        invariant
            it.seq() == string@,
            encode_utf16(string@) == out@ + encode_utf16(string@.skip(it.index() as int)),
    {
        let ghost i = it.index() as int;
        proof {
            let rest = string@.skip(i);
            assert(rest =~= seq![c] + string@.skip(i + 1));
            lemma_encode_utf16_cons(c, string@.skip(i + 1));
        }
        let v = c as u32;
        proof { char_is_scalar(c); }
        assert(is_char_value(v));
        push_utf16_units(&mut out, v);
    }
    assert(string@.skip(string@.len() as int) =~= Seq::<char>::empty());
    out.push(0u16);
    out
}

/// True when `prefix` is what a wide C string held in `units` reads as: the
/// units before the first zero unit, or all of them where there is none.
pub open spec fn is_nul_prefix(units: Seq<u16>, prefix: Seq<u16>) -> bool {
    &&& prefix.len() <= units.len()
    &&& prefix == units.take(prefix.len() as int)
    &&& forall|i: int| 0 <= i < prefix.len() ==> prefix[i] != 0u16
    &&& prefix.len() < units.len() ==> units[prefix.len() as int] == 0u16
}

/// The units of a wide string buffer up to its terminating zero, as `lstrlenW`
/// measures it; the whole buffer where it holds no zero.
pub fn until_nul(buf: &[u16]) -> (res: Vec<u16>)
    ensures
        is_nul_prefix(buf@, res@),
{
    let mut out: Vec<u16> = Vec::new();
    let mut i: usize = 0;
    while i < buf.len() && buf[i] != 0
        invariant
            i <= buf@.len(),
            out@ == buf@.take(i as int),
            forall|j: int| 0 <= j < i ==> buf@[j] != 0u16,
        decreases buf@.len() - i,
    {
        out.push(buf[i]);
        i = i + 1;
        assert(out@ =~= buf@.take(i as int));
    }
    out
}

/// A string without `'\0'` converted to a wide C string reads back, up to its
/// terminator, as exactly its UTF-16 encoding.
pub proof fn lemma_convert_string_reads_back(s: Seq<char>, converted: Seq<u16>)
    requires
        converted == encode_utf16(s).push(0u16),
        forall|i: int| 0 <= i < s.len() ==> s[i] as u32 != 0,
    ensures
        is_nul_prefix(converted, encode_utf16(s)),
{
    lemma_encode_utf16_no_nul(s);
    assert(converted.take(encode_utf16(s).len() as int) =~= encode_utf16(s));
}

} // verus!
