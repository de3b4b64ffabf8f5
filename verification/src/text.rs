//! Character-level helpers on strings, stated over `Seq<char>`.

use vstd::prelude::*;
use vstd::string::*;

verus! {

/// Appends one character to a string (`String::push`).
///
/// Trusted: std documents `push` as appending the given char to the end of
/// the string; the contract says exactly that.
#[verifier::external_body]
fn push_char(s: &mut String, c: char)
    ensures
        final(s)@ == old(s)@.push(c),
{
    s.push(c);
}

/// The characters of `s`, in order.
pub fn chars_of(s: &str) -> (out: Vec<char>)
    ensures
        out@ == s@,
{
    let n = s.unicode_len();
    let mut out: Vec<char> = Vec::new();
    let mut i: usize = 0;
    while i < n
        invariant
            n == s@.len(),
            i <= n,
            out@ == s@.take(i as int),
        decreases n - i,
    {
        let c = s.get_char(i);
        out.push(c);
        proof {
            assert(s@.take(i + 1) =~= s@.take(i as int).push(c));
        }
        i = i + 1;
    }
    proof {
        assert(s@.take(n as int) =~= s@);
    }
    out
}

/// A string holding exactly the characters of `cs`.
pub fn string_of(cs: &Vec<char>) -> (out: String)
    ensures
        out@ == cs@,
{
    let mut out = String::new();
    let mut i: usize = 0;
    while i < cs.len()
        invariant
            i <= cs@.len(),
            out@ == cs@.take(i as int),
        decreases cs@.len() - i,
    {
        push_char(&mut out, cs[i]);
        proof {
            assert(cs@.take(i + 1) =~= cs@.take(i as int).push(cs@[i as int]));
        }
        i = i + 1;
    }
    proof {
        assert(cs@.take(cs@.len() as int) =~= cs@);
    }
    out
}

/// `s` with every line feed removed.
pub open spec fn without_newlines(s: Seq<char>) -> Seq<char>
    decreases s.len(),
{
    if s.len() == 0 {
        s
    } else if s.last() == '\n' {
        without_newlines(s.drop_last())
    } else {
        without_newlines(s.drop_last()).push(s.last())
    }
}

/// The characters of the first `n` bytes of the UTF-8 encoding of `text`,
/// when byte `n` lies on a character boundary; `None` otherwise. This is
/// what `str::get(0..n)` gives back.
pub open spec fn byte_prefix(text: Seq<char>, n: int) -> Option<Seq<char>> {
    let bytes = vstd::utf8::encode_utf8(text);
    if vstd::utf8::is_char_boundary(bytes, n) {
        Some(vstd::utf8::decode_utf8(bytes.subrange(0, n)))
    } else {
        None
    }
}

/// The UTF-8 encoding of a text is the encoding of its first `k`
/// characters followed by that of the rest, and byte offset where the
/// first part ends is a character boundary.
pub proof fn lemma_encode_split(c: Seq<char>, k: int)
    requires
        0 <= k <= c.len(),
    ensures
        vstd::utf8::encode_utf8(c) == vstd::utf8::encode_utf8(c.take(k)) + vstd::utf8::encode_utf8(
            c.skip(k),
        ),
        vstd::utf8::is_char_boundary(
            vstd::utf8::encode_utf8(c),
            vstd::utf8::encode_utf8(c.take(k)).len() as int,
        ),
    decreases k,
{
    broadcast use vstd::utf8::encode_utf8_valid_utf8;

    let bytes = vstd::utf8::encode_utf8(c);
    if k == 0 {
        assert(c.take(0) =~= Seq::<char>::empty());
        assert(c.skip(0) =~= c);
        assert(vstd::utf8::encode_utf8(c.take(0)) =~= Seq::<u8>::empty());
        assert(bytes =~= Seq::<u8>::empty() + bytes);
    } else {
        let d = c.drop_first();
        lemma_encode_split(d, k - 1);
        let es = vstd::utf8::encode_scalar(c[0] as u32);
        assert(c.take(k).drop_first() =~= d.take(k - 1));
        assert(c.take(k)[0] == c[0]);
        assert(c.skip(k) =~= d.skip(k - 1));
        assert(vstd::utf8::encode_utf8(c.take(k)) == es + vstd::utf8::encode_utf8(d.take(k - 1)));
        assert(bytes == es + vstd::utf8::encode_utf8(d));
        assert(bytes =~= vstd::utf8::encode_utf8(c.take(k)) + vstd::utf8::encode_utf8(c.skip(k)));
        vstd::utf8::encode_utf8_first_scalar(c);
        let first = vstd::utf8::length_of_first_scalar(bytes);
        assert(1 <= first <= 4);
        assert(vstd::utf8::pop_first_scalar(bytes) =~= vstd::utf8::encode_utf8(d));
    }
}

/// `cs` with every line feed removed.
pub fn remove_newlines(cs: &Vec<char>) -> (out: Vec<char>)
    ensures
        out@ == without_newlines(cs@),
{
    let mut out: Vec<char> = Vec::new();
    let mut i: usize = 0;
    while i < cs.len()
        invariant
            i <= cs@.len(),
            out@ == without_newlines(cs@.take(i as int)),
        decreases cs@.len() - i,
    {
        let c = cs[i];
        proof {
            assert(cs@.take(i + 1).drop_last() =~= cs@.take(i as int));
        }
        if c != '\n' {
            out.push(c);
        }
        i = i + 1;
    }
    proof {
        assert(cs@.take(cs@.len() as int) =~= cs@);
    }
    out
}

/// Appends the characters of `tail` to `out`.
pub fn extend_chars(out: &mut Vec<char>, tail: &Vec<char>)
    ensures
        final(out)@ == old(out)@ + tail@,
{
    let mut i: usize = 0;
    while i < tail.len()
        invariant
            i <= tail@.len(),
            out@ == old(out)@ + tail@.take(i as int),
        decreases tail@.len() - i,
    {
        out.push(tail[i]);
        proof {
            assert(tail@.take(i + 1) =~= tail@.take(i as int).push(tail@[i as int]));
            assert(old(out)@ + tail@.take(i + 1) =~= (old(out)@ + tail@.take(i as int)).push(tail@[i as int]));
        }
        i = i + 1;
    }
    proof {
        assert(tail@.take(tail@.len() as int) =~= tail@);
    }
}

/// Appends the characters of `s` to `out`.
pub fn push_str_chars(out: &mut Vec<char>, s: &str)
    ensures
        final(out)@ == old(out)@ + s@,
{
    let cs = chars_of(s);
    extend_chars(out, &cs);
}

/// The decimal digit character for `d` (`'0'` is code point 48).
pub open spec fn digit_char(d: nat) -> char {
    (d + 48) as char
}

/// The decimal representation of `n`, without leading zeros.
pub open spec fn decimal(n: nat) -> Seq<char>
    decreases n,
{
    if n < 10 {
        seq![digit_char(n)]
    } else {
        decimal(n / 10).push(digit_char(n % 10))
    }
}

/// Appends the decimal representation of `n` to `out`.
pub fn push_decimal(out: &mut Vec<char>, n: usize)
    ensures
        final(out)@ == old(out)@ + decimal(n as nat),
    decreases n,
{
    if n >= 10 {
        push_decimal(out, n / 10);
    }
    let d: u8 = (n % 10) as u8;
    let c: char = (48u8 + d) as char;
    out.push(c);
    proof {
        assert(old(out)@ + decimal(n as nat) =~= if n >= 10 {
            (old(out)@ + decimal((n / 10) as nat)).push(c)
        } else {
            old(out)@.push(c)
        });
    }
}

// The number a sequence of decimal digit characters stands for, most
/// significant digit first.
pub open spec fn digits_value(s: Seq<char>) -> int
    decreases s.len(),
{
    if s.len() == 0 {
        0
    } else {
        digits_value(s.drop_last()) * 10 + (s.last() as int - 48)
    }
}

/// The decimal form of `n` stands for `n`: it is a non-empty run of the
/// characters `'0'` to `'9'` whose value is `n`, with no leading zero
/// (`n == 0` is written `"0"`).
pub proof fn law_decimal_denotes(n: nat)
    ensures
        decimal(n).len() >= 1,
        forall|i: int| 0 <= i < decimal(n).len() ==> '0' <= #[trigger] decimal(n)[i] <= '9',
        digits_value(decimal(n)) == n,
        n > 0 ==> decimal(n)[0] != '0',
        n == 0 ==> decimal(n) == seq!['0'],
    decreases n,
{
    let c = ((n % 10) + 48) as char;
    assert(c as int == (n % 10) + 48);
    if n < 10 {
        assert(decimal(n).drop_last() =~= Seq::<char>::empty());
        assert(decimal(n).last() == c);
        assert(digits_value(decimal(n).drop_last()) == 0);
    } else {
        law_decimal_denotes(n / 10);
        let init = decimal(n / 10);
        let s = init.push(c);
        assert(s.drop_last() =~= init);
        assert(n == (n / 10) * 10 + n % 10);
        assert(decimal(n) == s);
        assert(digits_value(s) == digits_value(init) * 10 + (c as int - 48));
        assert(s[0] == init[0]);
        assert forall|i: int| 0 <= i < s.len() implies '0' <= #[trigger] s[i] <= '9' by {
            if i < init.len() {
                assert(s[i] == init[i]);
            }
        }
    }
}

/// Appending a digit `d` to a positive number `n` (making `10 * n + d`)
/// appends that digit's character to its decimal form.
pub proof fn law_decimal_append_digit(n: nat, d: nat)
    requires
        n > 0,
        d < 10,
    ensures
        decimal(10 * n + d) == decimal(n).push((d + 48) as char),
{
    assert((10 * n + d) / 10 == n);
    assert((10 * n + d) % 10 == d);
}

} // verus!
