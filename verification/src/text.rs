//! Text and its UTF-8 bytes.
//!
//! Strings are compared and searched through their bytes. The lemmas here
//! carry what is found in the bytes over to the characters they encode:
//! an ASCII character is one byte, and that byte occurs nowhere else in
//! well-formed UTF-8.

use vstd::prelude::*;
use vstd::string::*;
use vstd::utf8::*;
use vstd::slice::slice_subrange;
use crate::ascii::same_bytes;

verus! {

/// Every byte is an ASCII character.
pub open spec fn is_ascii_bytes(bytes: Seq<u8>) -> bool {
    forall|i: int| 0 <= i < bytes.len() ==> #[trigger] bytes[i] <= 0x7f
}

/// The characters that ASCII bytes stand for, one for each byte.
pub open spec fn ascii_chars(bytes: Seq<u8>) -> Seq<char> {
    Seq::new(bytes.len(), |i: int| bytes[i] as char)
}

/// `needle` occurs in `hay` as a run of consecutive items.
pub open spec fn occurs_in<T>(needle: Seq<T>, hay: Seq<T>) -> bool {
    exists|i: int| occurs_at(needle, hay, i)
}

/// `needle` occurs in `hay` from index `i` on.
pub open spec fn occurs_at<T>(needle: Seq<T>, hay: Seq<T>, i: int) -> bool {
    0 <= i && i + needle.len() <= hay.len() && hay.subrange(i, i + needle.len()) == needle
}

/// ASCII bytes are well-formed UTF-8 and encode their own characters.
pub proof fn lemma_ascii_bytes(bytes: Seq<u8>)
    requires
        is_ascii_bytes(bytes),
    ensures
        valid_utf8(bytes),
        decode_utf8(bytes) == ascii_chars(bytes),
        encode_utf8(ascii_chars(bytes)) == bytes,
{
    let chars = ascii_chars(bytes);
    assert(is_ascii_chars(chars)) by {
        assert forall|i: int| 0 <= i < chars.len() implies '\0' <= #[trigger] chars[i]
            <= '\u{7f}' by {
            assert(bytes[i] <= 0x7f);
        }
    }
    is_ascii_chars_encode_utf8(chars);
    assert(encode_utf8(chars) =~= bytes) by {
        assert forall|i: int| 0 <= i < bytes.len() implies encode_utf8(chars)[i] == bytes[i] by {
            assert(chars[i] as u8 == encode_utf8(chars)[i]);
            assert(bytes[i] <= 0x7f);
        }
    }
    encode_utf8_valid_utf8(chars);
    encode_utf8_decode_utf8(chars);
}

/// Encoding goes through concatenation.
pub proof fn lemma_encode_concat(a: Seq<char>, b: Seq<char>)
    ensures
        encode_utf8(a + b) == encode_utf8(a) + encode_utf8(b),
    decreases a.len(),
{
    if a.len() == 0 {
        assert(a + b =~= b);
        assert(encode_utf8(a) + encode_utf8(b) =~= encode_utf8(b));
    } else {
        lemma_encode_concat(a.drop_first(), b);
        assert((a + b).drop_first() =~= a.drop_first() + b);
        assert((a + b)[0] == a[0]);
        assert(encode_utf8(a + b) =~= encode_utf8(a) + encode_utf8(b));
    }
}

/// Two texts with the same encoding are the same text.
pub proof fn lemma_encode_injective(a: Seq<char>, b: Seq<char>)
    requires
        encode_utf8(a) == encode_utf8(b),
    ensures
        a == b,
{
    encode_utf8_decode_utf8(a);
    encode_utf8_decode_utf8(b);
}

/// Well-formed bytes that start with `k` ASCII bytes decode to those `k`
/// characters followed by what the rest decodes to.
pub proof fn lemma_decode_ascii_prefix(bytes: Seq<u8>, k: int)
    requires
        valid_utf8(bytes),
        0 <= k <= bytes.len(),
        is_ascii_bytes(bytes.subrange(0, k)),
    ensures
        valid_utf8(bytes.subrange(k, bytes.len() as int)),
        decode_utf8(bytes) == ascii_chars(bytes.subrange(0, k)) + decode_utf8(
            bytes.subrange(k, bytes.len() as int),
        ),
    decreases k,
{
    let n = bytes.len() as int;
    if k == 0 {
        assert(bytes.subrange(0, n) =~= bytes);
        assert(ascii_chars(bytes.subrange(0, 0)) + decode_utf8(bytes) =~= decode_utf8(bytes));
    } else {
        let b0 = bytes[0];
        assert(b0 == bytes.subrange(0, k)[0]);
        assert(b0 <= 0x7f);
        assert(b0 & 0x7f == b0) by (bit_vector)
            requires
                b0 <= 0x7f,
        ;
        let rest = pop_first_scalar(bytes);
        assert(rest == bytes.subrange(1, n));
        assert(decode_first_scalar(bytes) == b0 as u32);
        assert(rest.subrange(0, k - 1) =~= bytes.subrange(1, k));
        assert(is_ascii_bytes(rest.subrange(0, k - 1))) by {
            assert forall|i: int| 0 <= i < k - 1 implies #[trigger] rest.subrange(0, k - 1)[i]
                <= 0x7f by {
                assert(bytes.subrange(0, k)[i + 1] <= 0x7f);
            }
        }
        lemma_decode_ascii_prefix(rest, k - 1);
        assert(rest.subrange(k - 1, rest.len() as int) =~= bytes.subrange(k, n));
        assert(seq![b0 as char] + ascii_chars(rest.subrange(0, k - 1)) =~= ascii_chars(
            bytes.subrange(0, k),
        ));
        assert(decode_utf8(bytes) =~= ascii_chars(bytes.subrange(0, k)) + decode_utf8(
            bytes.subrange(k, n),
        ));
    }
}

/// Well-formed bytes that hold a run of ASCII bytes from index `j` on decode
/// to what stands before the run, the run's characters, and what stands after.
pub proof fn lemma_decode_around_ascii(bytes: Seq<u8>, j: int, k: int)
    requires
        valid_utf8(bytes),
        0 <= j,
        0 < k,
        j + k <= bytes.len(),
        is_ascii_bytes(bytes.subrange(j, j + k)),
    ensures
        valid_utf8(bytes.subrange(0, j)),
        valid_utf8(bytes.subrange(j + k, bytes.len() as int)),
        decode_utf8(bytes) == decode_utf8(bytes.subrange(0, j)) + ascii_chars(
            bytes.subrange(j, j + k),
        ) + decode_utf8(bytes.subrange(j + k, bytes.len() as int)),
{
    let n = bytes.len() as int;
    assert(bytes[j] == bytes.subrange(j, j + k)[0]);
    assert(!is_continuation_byte(bytes[j]));
    is_char_boundary_iff_not_is_continuation_byte(bytes, j);
    valid_utf8_split(bytes, j);
    decode_utf8_split(bytes, j);
    let tail = bytes.subrange(j, n);
    assert(tail.subrange(0, k) =~= bytes.subrange(j, j + k));
    lemma_decode_ascii_prefix(tail, k);
    assert(tail.subrange(k, tail.len() as int) =~= bytes.subrange(j + k, n));
}

/// An ASCII run occurs in a text just when its bytes occur in the text's
/// encoding.
pub proof fn lemma_occurs_in_encoding(needle: Seq<u8>, text: Seq<char>)
    requires
        is_ascii_bytes(needle),
        needle.len() > 0,
    ensures
        occurs_in(ascii_chars(needle), text) <==> occurs_in(needle, encode_utf8(text)),
{
    let bytes = encode_utf8(text);
    let word = ascii_chars(needle);
    encode_utf8_valid_utf8(text);
    encode_utf8_decode_utf8(text);
    lemma_ascii_bytes(needle);
    if occurs_in(word, text) {
        let i = choose|i: int| occurs_at(word, text, i);
        let before = text.subrange(0, i);
        let after = text.subrange(i + word.len(), text.len() as int);
        assert(text =~= before + word + after);
        lemma_encode_concat(before + word, after);
        lemma_encode_concat(before, word);
        let j = encode_utf8(before).len() as int;
        assert(bytes.subrange(j, j + needle.len()) =~= needle);
        assert(occurs_at(needle, bytes, j));
    }
    if occurs_in(needle, bytes) {
        let j = choose|j: int| occurs_at(needle, bytes, j);
        lemma_decode_around_ascii(bytes, j, needle.len() as int);
        let before = decode_utf8(bytes.subrange(0, j));
        let i = before.len() as int;
        assert(text.subrange(i, i + word.len()) =~= word);
        assert(occurs_at(word, text, i));
    }
}

/// An ASCII character occurs in a text just when its byte occurs in the
/// text's encoding.
pub proof fn lemma_contains_in_encoding(b: u8, text: Seq<char>)
    requires
        b <= 0x7f,
    ensures
        text.contains(b as char) <==> encode_utf8(text).contains(b),
{
    let needle = seq![b];
    let word = seq![b as char];
    let bytes = encode_utf8(text);
    assert(is_ascii_bytes(needle));
    lemma_occurs_in_encoding(needle, text);
    assert(ascii_chars(needle) =~= word);
    if text.contains(b as char) {
        let i = choose|i: int| 0 <= i < text.len() && text[i] == b as char;
        assert(text.subrange(i, i + 1) =~= word);
        assert(occurs_at(word, text, i));
        let j = choose|j: int| occurs_at(needle, bytes, j);
        assert(bytes.subrange(j, j + 1)[0] == b);
    }
    if bytes.contains(b) {
        let j = choose|j: int| 0 <= j < bytes.len() && bytes[j] == b;
        assert(bytes.subrange(j, j + 1) =~= needle);
        assert(occurs_at(needle, bytes, j));
        let i = choose|i: int| occurs_at(word, text, i);
        assert(text.subrange(i, i + 1)[0] == b as char);
    }
}

/// Whether `bytes` is well-formed UTF-8.
///
/// Calls `std::str::from_utf8`, which accepts a slice just when it is valid
/// UTF-8; `valid_utf8` is taken to describe the same byte strings.
#[verifier::external_body]
pub(crate) fn is_utf8(bytes: &[u8]) -> (r: bool)
    ensures
        r == valid_utf8(bytes@),
{
    std::str::from_utf8(bytes).is_ok()
}

/// Whether `a` and `b` are the same text.
pub fn str_eq(a: &str, b: &str) -> (r: bool)
    ensures
        r == (a@ == b@),
{
    let r = same_bytes(a.as_bytes(), b.as_bytes());
    proof {
        if r {
            lemma_encode_injective(a@, b@);
        }
    }
    r
}

/// Whether `bytes` is the UTF-8 encoding of `text`.
pub fn str_is_encoded_as(text: &str, bytes: &[u8]) -> (r: bool)
    ensures
        r == (encode_utf8(text@) == bytes@),
{
    same_bytes(text.as_bytes(), bytes)
}

/// Whether `needle` occurs in `hay`.
pub fn contains_bytes(hay: &[u8], needle: &[u8]) -> (r: bool)
    ensures
        r == occurs_in(needle@, hay@),
{
    if needle.len() == 0 {
        assert(hay@.subrange(0, 0) =~= needle@);
        assert(occurs_at(needle@, hay@, 0));
        return true;
    }
    if needle.len() > hay.len() {
        return false;
    }
    let last = hay.len() - needle.len();
    let mut i: usize = 0;
    while i <= last
        invariant
            i <= last + 1,
            last == hay.len() - needle.len(),
            needle.len() > 0,
            forall|j: int| 0 <= j < i ==> !occurs_at(needle@, hay@, j),
        decreases last + 1 - i,
    {
        if same_bytes(slice_subrange(hay, i, i + needle.len()), needle) {
            assert(occurs_at(needle@, hay@, i as int));
            return true;
        }
        i += 1;
    }
    false
}

/// Whether the ASCII text `needle` occurs in `hay`.
pub(crate) fn str_contains(hay: &str, needle: &str) -> (r: bool)
    requires
        is_ascii_chars(needle@),
        needle@.len() > 0,
    ensures
        r == occurs_in(needle@, hay@),
{
    proof {
        let word = encode_utf8(needle@);
        is_ascii_chars_encode_utf8(needle@);
        assert(is_ascii_bytes(word)) by {
            assert forall|i: int| 0 <= i < word.len() implies #[trigger] word[i] <= 0x7f by {
                assert(needle@[i] as u8 == word[i]);
            }
        }
        assert(ascii_chars(word) =~= needle@) by {
            assert forall|i: int| 0 <= i < word.len() implies ascii_chars(word)[i] == needle@[i] by {
                assert(needle@[i] as u8 == word[i]);
            }
        }
        lemma_occurs_in_encoding(word, hay@);
    }
    contains_bytes(hay.as_bytes(), needle.as_bytes())
}

} // verus!
