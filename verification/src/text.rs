//! Text as characters and as bytes: where the characters of a text lie in
//! its UTF-8 encoding.

use vstd::prelude::*;
use vstd::utf8::*;

verus! {

/// The encoding of two texts, one after the other, is the encoding of the
/// first followed by that of the second.
pub proof fn lemma_encode_concat(a: Seq<char>, b: Seq<char>)
    ensures
        encode_utf8(a + b) == encode_utf8(a) + encode_utf8(b),
    decreases a.len(),
{
    if a.len() > 0 {
        lemma_encode_concat(a.drop_first(), b);
        assert((a + b).drop_first() =~= a.drop_first() + b);
    }
}

/// In the encoding of two texts, one after the other, the second starts at
/// the boundary of a character.
pub proof fn lemma_boundary_between(a: Seq<char>, b: Seq<char>)
    ensures
        is_char_boundary(encode_utf8(a + b), encode_utf8(a).len() as int),
    decreases a.len(),
{
    encode_utf8_valid_utf8(a + b);
    lemma_encode_concat(a, b);
    if a.len() > 0 {
        encode_utf8_first_scalar(a + b);
        assert((a + b).drop_first() =~= a.drop_first() + b);
        assert(pop_first_scalar(encode_utf8(a + b)) =~= encode_utf8(a.drop_first() + b));
        lemma_boundary_between(a.drop_first(), b);
        char_is_scalar(a[0]);
    }
}

/// The characters of `text` from `from` to `to`, encoded, are the bytes of
/// the encoded text between two boundaries of characters: cutting a text
/// by characters never cuts a character.
pub proof fn lemma_subrange_whole_chars(text: Seq<char>, from: int, to: int)
    requires
        0 <= from <= to <= text.len(),
    ensures
        ({
            let bytes = encode_utf8(text);
            let start = encode_utf8(text.take(from)).len() as int;
            let end = encode_utf8(text.take(to)).len() as int;
            &&& start <= end <= bytes.len()
            &&& is_char_boundary(bytes, start)
            &&& is_char_boundary(bytes, end)
            &&& encode_utf8(text.subrange(from, to)) == bytes.subrange(start, end)
            &&& valid_utf8(bytes.subrange(start, end))
        }),
{
    let before = text.take(from);
    let part = text.subrange(from, to);
    let after = text.skip(to);
    assert(text.take(to) =~= before + part);
    assert(text =~= text.take(to) + after);
    assert(text =~= before + text.skip(from));
    lemma_encode_concat(before, part);
    lemma_encode_concat(text.take(to), after);
    lemma_boundary_between(before, text.skip(from));
    lemma_boundary_between(text.take(to), after);
    encode_utf8_valid_utf8(part);
}

} // verus!
