//! Text as `String`: building it, and cutting it to a size in bytes.

use vstd::prelude::*;
use vstd::string::StrSliceExecFns;
use vstd::string::StringSliceAdditionalSpecFns;
use vstd::utf8::{
    decode_utf8, decode_utf8_split, encode_scalar, encode_utf8, encode_utf8_decode_utf8,
    encode_utf8_valid_utf8, is_char_boundary, is_char_boundary_start_end_of_seq, valid_utf8,
    valid_utf8_split, decode_utf8_encode_utf8,
};

verus! {

/// The length of `text` in bytes, encoded as UTF-8.
pub open spec fn utf8_len(text: Seq<char>) -> nat {
    encode_utf8(text).len()
}

/// The character that writes the digit `d`.
pub open spec fn digit_char(d: nat) -> char {
    if d == 0 {
        '0'
    } else if d == 1 {
        '1'
    } else if d == 2 {
        '2'
    } else if d == 3 {
        '3'
    } else if d == 4 {
        '4'
    } else if d == 5 {
        '5'
    } else if d == 6 {
        '6'
    } else if d == 7 {
        '7'
    } else if d == 8 {
        '8'
    } else {
        '9'
    }
}

/// `n` written in decimal, without sign or leading zeros.
pub open spec fn decimal_text(n: nat) -> Seq<char>
    decreases n,
{
    if n < 10 {
        seq![digit_char(n)]
    } else {
        decimal_text(n / 10).push(digit_char(n % 10))
    }
}

/// `text` with every `from` turned into `to`.
pub open spec fn replace_char(text: Seq<char>, from: char, to: char) -> Seq<char> {
    text.map_values(
        |c: char|
            if c == from {
                to
            } else {
                c
            },
    )
}

/// The last character boundary of `bytes` at or before `at`.
pub open spec fn floor_boundary(bytes: Seq<u8>, at: int) -> int
    decreases at,
{
    if at <= 0 {
        0
    } else if is_char_boundary(bytes, at) {
        at
    } else {
        floor_boundary(bytes, at - 1)
    }
}

/// The longest prefix of `text` that takes no more than `room` bytes.
pub open spec fn fit(text: Seq<char>, room: nat) -> Seq<char> {
    let bytes = encode_utf8(text);
    if bytes.len() <= room {
        text
    } else {
        decode_utf8(bytes.take(floor_boundary(bytes, room as int)))
    }
}

/// The encoding of two texts joined is their encodings joined.
pub proof fn lemma_encode_concat(p: Seq<char>, q: Seq<char>)
    ensures
        encode_utf8(p + q) == encode_utf8(p) + encode_utf8(q),
    decreases p.len(),
{
    if p.len() == 0 {
        assert(p + q =~= q);
        assert(encode_utf8(p) + encode_utf8(q) =~= encode_utf8(q));
    } else {
        assert((p + q).drop_first() =~= p.drop_first() + q);
        lemma_encode_concat(p.drop_first(), q);
        assert(encode_scalar(p[0] as u32) + (encode_utf8(p.drop_first()) + encode_utf8(q))
            =~= (encode_scalar(p[0] as u32) + encode_utf8(p.drop_first())) + encode_utf8(q));
    }
}

/// `floor_boundary` is a character boundary within reach.
pub proof fn lemma_floor_boundary(bytes: Seq<u8>, at: int)
    requires
        valid_utf8(bytes),
        0 <= at <= bytes.len(),
    ensures
        0 <= floor_boundary(bytes, at) <= at,
        is_char_boundary(bytes, floor_boundary(bytes, at)),
    decreases at,
{
    if at <= 0 {
        is_char_boundary_start_end_of_seq(bytes);
    } else if !is_char_boundary(bytes, at) {
        lemma_floor_boundary(bytes, at - 1);
    }
}

/// What `fit` leaves is a prefix of the text and takes no more than `room`
/// bytes.
pub proof fn lemma_fit(text: Seq<char>, room: nat)
    ensures
        utf8_len(fit(text, room)) <= room,
        utf8_len(fit(text, room)) <= utf8_len(text),
        fit(text, room).len() <= text.len(),
        fit(text, room) == text.take(fit(text, room).len() as int),
{
    let bytes = encode_utf8(text);
    encode_utf8_valid_utf8(text);
    if bytes.len() <= room {
        assert(text.take(text.len() as int) =~= text);
    } else {
        let k = floor_boundary(bytes, room as int);
        lemma_floor_boundary(bytes, room as int);
        let head = bytes.subrange(0, k);
        let tail = bytes.subrange(k, bytes.len() as int);
        assert(head =~= bytes.take(k));
        valid_utf8_split(bytes, k);
        decode_utf8_split(bytes, k);
        encode_utf8_decode_utf8(text);
        decode_utf8_encode_utf8(head);
        let kept = decode_utf8(head);
        let dropped = decode_utf8(tail);
        assert(text =~= kept + dropped);
        assert(text.take(kept.len() as int) =~= kept);
    }
}

/// Appends `c` with `String::push`. Trusted: the text afterwards is the text
/// before with `c` at its end.
#[verifier::external_body]
pub(crate) fn push_char(s: &mut String, c: char)
    ensures
        final(s)@ == old(s)@.push(c),
{
    s.push(c);
}

/// The character that writes the digit `d`.
fn digit(d: u64) -> (c: char)
    requires
        d < 10,
    ensures
        c == digit_char(d as nat),
{
    if d == 0 {
        '0'
    } else if d == 1 {
        '1'
    } else if d == 2 {
        '2'
    } else if d == 3 {
        '3'
    } else if d == 4 {
        '4'
    } else if d == 5 {
        '5'
    } else if d == 6 {
        '6'
    } else if d == 7 {
        '7'
    } else if d == 8 {
        '8'
    } else {
        '9'
    }
}

/// Appends `n` in decimal.
pub fn push_decimal(s: &mut String, n: u64)
    ensures
        final(s)@ == old(s)@ + decimal_text(n as nat),
    decreases n,
{
    if n >= 10 {
        push_decimal(s, n / 10);
        let ghost mid = s@;
        push_char(s, digit(n % 10));
        proof {
            assert(mid.push(digit_char((n % 10) as nat)) =~= old(s)@ + decimal_text(
                (n / 10) as nat,
            ).push(digit_char((n % 10) as nat)));
        }
    } else {
        push_char(s, digit(n));
        proof {
            assert(old(s)@.push(digit_char(n as nat)) =~= old(s)@ + seq![digit_char(n as nat)]);
        }
    }
}

/// `n` in decimal.
pub fn decimal(n: u64) -> (s: String)
    ensures
        s@ == decimal_text(n as nat),
{
    let mut s: String = String::new();
    push_decimal(&mut s, n);
    proof {
        assert(Seq::<char>::empty() + decimal_text(n as nat) =~= decimal_text(n as nat));
    }
    s
}

/// Appends `text` with every `from` turned into `to`.
pub fn push_replaced(s: &mut String, text: &str, from: char, to: char)
    ensures
        final(s)@ == old(s)@ + replace_char(text@, from, to),
{
    let n: usize = text.unicode_len();
    let mut i: usize = 0;
    proof {
        assert(old(s)@ + replace_char(text@.take(0), from, to) =~= old(s)@);
    }
    while i < n
        invariant
            n == text@.len(),
            i <= n,
            s@ == old(s)@ + replace_char(text@.take(i as int), from, to),
        decreases n - i,
    {
        let c: char = text.get_char(i);
        let ghost before = s@;
        push_char(s, if c == from { to } else { c });
        proof {
            assert(replace_char(text@.take(i + 1), from, to) =~= replace_char(
                text@.take(i as int),
                from,
                to,
            ).push(if c == from { to } else { c }));
            assert(s@ =~= old(s)@ + replace_char(text@.take(i + 1), from, to));
        }
        i = i + 1;
    }
    proof {
        assert(text@.take(n as int) =~= text@);
    }
}

/// The longest prefix of `text` that takes no more than `room` bytes.
pub fn fitted(text: &str, room: usize) -> (r: &str)
    ensures
        r@ == fit(text@, room as nat),
{
    let len: usize = text.as_bytes().len();
    if len <= room {
        return text;
    }
    let ghost bytes = text.spec_bytes();
    proof {
        encode_utf8_valid_utf8(text@);
    }
    let mut k: usize = room;
    while k > 0 && !text.is_char_boundary(k)
        invariant
            bytes == text.spec_bytes(),
            valid_utf8(bytes),
            k <= room < bytes.len(),
            floor_boundary(bytes, room as int) == floor_boundary(bytes, k as int),
        decreases k,
    {
        k = k - 1;
    }
    proof {
        is_char_boundary_start_end_of_seq(bytes);
        assert(floor_boundary(bytes, k as int) == k);
    }
    let (head, _tail) = text.split_at(k);
    proof {
        assert(head.spec_bytes() =~= bytes.take(k as int));
        encode_utf8_decode_utf8(head@);
    }
    head
}

} // verus!
