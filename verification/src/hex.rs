use vstd::prelude::*;

verus! {

/// The lower-case hexadecimal digit of a value below sixteen.
pub open spec fn hex_digit(d: nat) -> char
    recommends
        d < 16,
{
    if d < 10 {
        ('0' as nat + d) as char
    } else {
        ('a' as nat + d - 10) as char
    }
}

/// The hexadecimal digits of `n`, most significant first, without leading zeros
/// (a single `0` for zero).
pub open spec fn hex_digits(n: nat) -> Seq<char>
    decreases n,
{
    if n < 16 {
        seq![hex_digit(n)]
    } else {
        hex_digits(n / 16).push(hex_digit(n % 16))
    }
}

/// `count` copies of `c`.
pub open spec fn repeated(c: char, count: int) -> Seq<char> {
    Seq::new(
        if count > 0 {
            count as nat
        } else {
            0
        },
        |i: int| c,
    )
}

/// `n` as `0x` and at least four hexadecimal digits, padded with zeros: `0x002a`.
pub open spec fn hex_address(n: nat) -> Seq<char> {
    seq!['0', 'x'] + repeated('0', 4 - hex_digits(n).len()) + hex_digits(n)
}

/// `n` as `0x` and its hexadecimal digits: `0x2a`.
pub open spec fn hex_plain(n: nat) -> Seq<char> {
    seq!['0', 'x'] + hex_digits(n)
}

/// `hex_plain(n)` behind as many spaces as bring it to `width` characters.
pub open spec fn hex_right_aligned(n: nat, width: nat) -> Seq<char> {
    repeated(' ', width - hex_plain(n).len()) + hex_plain(n)
}

/// `String::push`: the string grows by the one character `c`.
#[verifier::external_body]
pub(crate) fn push_char(out: &mut String, c: char)
    ensures
        final(out)@ == old(out)@.push(c),
{
    out.push(c)
}

fn hex_digit_of(d: u8) -> (c: char)
    requires
        d < 16,
    ensures
        c == hex_digit(d as nat),
{
    if d < 10 {
        ('0' as u8 + d) as char
    } else {
        ('a' as u8 + (d - 10)) as char
    }
}

fn hex_digits_of(n: u64) -> (digits: Vec<char>)
    ensures
        digits@ == hex_digits(n as nat),
        1 <= digits@.len() <= 16,
    decreases n,
{
    if n < 16 {
        let mut digits: Vec<char> = Vec::new();
        digits.push(hex_digit_of(n as u8));
        assert(digits@ =~= seq![hex_digit(n as nat)]);
        digits
    } else {
        let mut digits = hex_digits_of(n / 16);
        digits.push(hex_digit_of((n % 16) as u8));
        proof {
            lemma_hex_digits_len(n as nat);
        }
        digits
    }
}

/// `16` to the power `k`.
pub open spec fn pow16(k: nat) -> nat
    decreases k,
{
    if k == 0 {
        1
    } else {
        16 * pow16((k - 1) as nat)
    }
}

/// A number below `16^k` has at most `k` hexadecimal digits, and every number has one.
pub proof fn lemma_hex_digits_bound(n: nat, k: nat)
    requires
        k >= 1,
    ensures
        1 <= hex_digits(n).len(),
        n < pow16(k) ==> hex_digits(n).len() <= k,
    decreases n,
{
    reveal_with_fuel(pow16, 2);
    if n >= 16 {
        if k >= 2 {
            lemma_hex_digits_bound(n / 16, (k - 1) as nat);
        } else {
            lemma_hex_digits_bound(n / 16, 1);
        }
    }
}

/// A 64-bit number has at most sixteen hexadecimal digits.
pub proof fn lemma_hex_digits_len(n: nat)
    ensures
        1 <= hex_digits(n).len(),
        n <= u64::MAX ==> hex_digits(n).len() <= 16,
{
    lemma_hex_digits_bound(n, 16);
    assert(pow16(16) == 0x1_0000_0000_0000_0000) by {
        reveal_with_fuel(pow16, 17);
    }
}

fn push_repeated(out: &mut String, c: char, count: usize)
    ensures
        final(out)@ == old(out)@ + repeated(c, count as int),
{
    let mut i: usize = 0;
    while i < count
        invariant
            i <= count,
            out@ == old(out)@ + repeated(c, i as int),
        decreases count - i,
    {
        push_char(out, c);
        i += 1;
        assert(out@ =~= old(out)@ + repeated(c, i as int));
    }
}

fn push_chars(out: &mut String, chars: &Vec<char>)
    ensures
        final(out)@ == old(out)@ + chars@,
{
    let mut i: usize = 0;
    while i < chars.len()
        invariant
            i <= chars.len(),
            out@ == old(out)@ + chars@.take(i as int),
        decreases chars.len() - i,
    {
        push_char(out, chars[i]);
        i += 1;
        assert(out@ =~= old(out)@ + chars@.take(i as int));
    }
    assert(chars@.take(chars.len() as int) =~= chars@);
}

/// Appends `n` in the form `0x002a`.
pub(crate) fn push_hex_address(out: &mut String, n: u64)
    ensures
        final(out)@ == old(out)@ + hex_address(n as nat),
{
    let digits = hex_digits_of(n);
    push_char(out, '0');
    push_char(out, 'x');
    if digits.len() < 4 {
        push_repeated(out, '0', 4 - digits.len());
    }
    push_chars(out, &digits);
    assert(out@ =~= old(out)@ + hex_address(n as nat));
}

/// Appends `n` in the form `0x2a`.
pub(crate) fn push_hex_plain(out: &mut String, n: u64)
    ensures
        final(out)@ == old(out)@ + hex_plain(n as nat),
{
    let digits = hex_digits_of(n);
    push_char(out, '0');
    push_char(out, 'x');
    push_chars(out, &digits);
    assert(out@ =~= old(out)@ + hex_plain(n as nat));
}

/// Appends `n` in the form `0x2a`, behind the spaces that bring it to `width` characters.
pub(crate) fn push_hex_right_aligned(out: &mut String, n: u64, width: usize)
    ensures
        final(out)@ == old(out)@ + hex_right_aligned(n as nat, width as nat),
{
    let digits = hex_digits_of(n);
    let len = digits.len() + 2;
    if len < width {
        push_repeated(out, ' ', width - len);
    }
    push_char(out, '0');
    push_char(out, 'x');
    push_chars(out, &digits);
    assert(out@ =~= old(out)@ + hex_right_aligned(n as nat, width as nat));
}

} // verus!
