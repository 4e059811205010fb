//! Strings whose length is part of their type, and the numbers that are
//! written into them.

use vstd::prelude::*;
use vstd::string::StringSliceAdditionalSpecFns;
use vstd::utf8::{
    encode_utf8_valid_utf8, partial_valid_utf8, partial_valid_utf8_extend_ascii_block,
    valid_utf8, valid_utf8_concat,
};

verus! {

/// The digits of `n` in base ten as ASCII bytes, most significant first.
pub open spec fn digits(n: nat) -> Seq<u8>
    decreases n,
{
    if n < 10 {
        seq![(48 + n) as u8]
    } else {
        digits(n / 10).push((48 + n % 10) as u8)
    }
}

/// The number `n` written in base ten as ASCII bytes, with a leading minus
/// sign where it is negative.
pub open spec fn decimal(n: int) -> Seq<u8> {
    if n < 0 {
        seq![45u8] + digits((-n) as nat)
    } else {
        digits(n as nat)
    }
}

/// Ten to the power `k`.
pub open spec fn pow10(k: nat) -> nat
    decreases k,
{
    if k == 0 {
        1
    } else {
        10 * pow10((k - 1) as nat)
    }
}

/// Powers of ten grow with the exponent.
proof fn lemma_pow10_increases(a: nat, b: nat)
    requires
        a <= b,
    ensures
        pow10(a) <= pow10(b),
        pow10(a) >= 1,
    decreases b,
{
    if b == 0 {
    } else if a == b {
        lemma_pow10_increases((a - 1) as nat, (b - 1) as nat);
    } else {
        lemma_pow10_increases(a, (b - 1) as nat);
    }
}

/// No number of 128 bits reaches ten to the power 39.
proof fn lemma_pow10_39()
    ensures
        pow10(39) > u128::MAX,
{
    assert(pow10(10) == 10000000000) by {
        reveal_with_fuel(pow10, 11);
    }
    assert(pow10(20) == 100000000000000000000) by {
        lemma_pow10_add(10, 10);
    }
    assert(pow10(39) == 1000000000000000000000000000000000000000) by {
        lemma_pow10_add(10, 9);
        assert(pow10(9) == 1000000000) by {
            reveal_with_fuel(pow10, 10);
        }
        lemma_pow10_add(20, 19);
    }
}

/// Powers of ten multiply as their exponents add.
proof fn lemma_pow10_add(a: nat, b: nat)
    ensures
        pow10(a + b) == pow10(a) * pow10(b),
    decreases b,
{
    if b == 0 {
        assert(pow10(a) * 1 == pow10(a));
    } else {
        lemma_pow10_add(a, (b - 1) as nat);
        assert(pow10(a + b) == 10 * pow10((a + b - 1) as nat));
        assert(10 * (pow10(a) * pow10((b - 1) as nat)) == pow10(a) * (10 * pow10((b - 1) as nat)))
            by (nonlinear_arith);
    }
}

/// The size of a number without its sign: the number itself, or its negation
/// where it is negative.
pub open spec fn spec_magnitude(num: i128) -> nat {
    if num < 0 {
        (-num) as nat
    } else {
        num as nat
    }
}

/// The size of a number without its sign.
fn magnitude(num: i128) -> (m: u128)
    ensures
        m == spec_magnitude(num),
{
    if num >= 0 {
        num as u128
    } else if num == i128::MIN {
        170141183460469231731687303715884105728u128
    } else {
        (-num) as u128
    }
}

/// Calculates the length of a number when represented as a string: one byte
/// for every digit, and one for the minus sign of a negative number.
pub fn calc_num_len(num: i128) -> (len: usize)
    ensures
        len == decimal(num as int).len(),
        1 <= len <= 40,
{
    let mut len: usize = 0;
    if num < 0 {
        // Negative sign
        len += 1;
    }
    let ghost sign = len as nat;
    let start: u128 = magnitude(num);
    let mut rest: u128 = start;
    len += 1;
    proof {
        assert(pow10(0) == 1);
        assert((len - sign - 1) as nat == 0);
        assert(rest * 1 == rest);
    }
    while rest >= 10
        invariant
            sign <= 1,
            sign < len,
            rest * pow10((len - sign - 1) as nat) <= start,
            len - 1 + digits(rest as nat).len() == sign + digits(start as nat).len(),
            len - sign <= 39,
        decreases rest,
    {
        proof {
            let k = (len - sign - 1) as nat;
            let p = pow10(k);
            assert((rest / 10) * (10 * p) <= rest * p) by (nonlinear_arith)
                requires
                    rest >= 0,
                    p >= 0,
            ;
            assert(1 * pow10(k + 1) <= (rest / 10) * pow10(k + 1)) by (nonlinear_arith)
                requires
                    rest / 10 >= 1,
            ;
            if k + 1 >= 39 {
                lemma_pow10_increases(39, k + 1);
                lemma_pow10_39();
            }
        }
        rest = rest / 10;
        len += 1;
    }
    len
}

/// Every byte of a number's digits is an ASCII digit.
proof fn lemma_digits_ascii(n: nat)
    ensures
        digits(n).len() >= 1,
        forall|i: int| 0 <= i < digits(n).len() ==> 48 <= #[trigger] digits(n)[i] <= 57,
    decreases n,
{
    if n >= 10 {
        lemma_digits_ascii(n / 10);
    }
}

/// Bytes that are all ASCII form a valid UTF-8 string.
proof fn lemma_ascii_is_utf8(bytes: Seq<u8>)
    requires
        forall|i: int| 0 <= i < bytes.len() ==> #[trigger] bytes[i] <= 0x7f,
    ensures
        valid_utf8(bytes),
{
    assert(bytes.subrange(0, 0) =~= Seq::<u8>::empty());
    assert(partial_valid_utf8(bytes, 0));
    partial_valid_utf8_extend_ascii_block(bytes, 0, bytes.len() as int);
    assert(bytes.subrange(0, bytes.len() as int) =~= bytes);
}

/// A number written in base ten is a valid UTF-8 string.
pub proof fn lemma_decimal_is_utf8(n: int)
    ensures
        valid_utf8(decimal(n)),
{
    let text = decimal(n);
    if n < 0 {
        lemma_digits_ascii((-n) as nat);
    } else {
        lemma_digits_ascii(n as nat);
    }
    lemma_ascii_is_utf8(text);
}

/// Identifies a string held in an array whose size is part of the type. The
/// bytes always form a valid UTF-8 string.
#[derive(PartialEq, Eq, Clone, Copy, Debug)]
pub struct ConstStr<const LEN: usize> {
    data: [u8; LEN],
}

impl<const LEN: usize> View for ConstStr<LEN> {
    type V = Seq<u8>;

    closed spec fn view(&self) -> Seq<u8> {
        self.data@
    }
}

impl<const LEN: usize> ConstStr<LEN> {
    #[verifier::type_invariant]
    spec fn holds_utf8(self) -> bool {
        valid_utf8(self.data@)
    }

    /// Builds a [`ConstStr`] from a string slice, which must be `LEN` bytes
    /// long.
    pub fn from_static(s: &'static str) -> (r: Option<ConstStr<LEN>>)
        ensures
            s.spec_bytes().len() == LEN ==> r.is_some() && r.unwrap()@ == s.spec_bytes(),
            s.spec_bytes().len() != LEN ==> r.is_none(),
    {
        let bytes = s.as_bytes();
        if bytes.len() != LEN {
            return None;
        }
        let mut buf = [0u8; LEN];
        const_copy_from_slice(&mut buf, 0, LEN, bytes);
        proof {
            assert(buf@ =~= s.spec_bytes());
            encode_utf8_valid_utf8(s@);
        }
        Some(ConstStr { data: buf })
    }

    /// Constructs a [`ConstStr`] from a raw buffer. The caller makes sure
    /// that the buffer holds a valid UTF-8 string.
    pub fn from_raw_parts(buf: [u8; LEN]) -> (s: ConstStr<LEN>)
        requires
            valid_utf8(buf@),
        ensures
            s@ == buf@,
    {
        ConstStr { data: buf }
    }

    /// Returns the array that contains the bytes of the string.
    pub fn as_bytes(&self) -> (bytes: &[u8; LEN])
        ensures
            bytes@ == self@,
            valid_utf8(self@),
            self@.len() == LEN,
    {
        proof {
            use_type_invariant(self);
        }
        &self.data
    }
}

/// Fills the window of `len` bytes of `buf` that starts at index `at` with
/// the first `len` bytes of `other`. What `other` holds beyond them is left
/// out, and `buf` outside the window is left as it was.
fn const_copy_from_slice<const N: usize>(buf: &mut [u8; N], at: usize, len: usize, other: &[u8])
    requires
        at + len <= N,
        len <= other@.len(),
    ensures
        final(buf)@ == old(buf)@.subrange(0, at as int) + other@.take(len as int) + old(
            buf,
        )@.subrange(at + len, N as int),
{
    let mut i: usize = 0;
    while i < len
        invariant
            i <= len,
            at + len <= N,
            len <= other@.len(),
            buf@.len() == N,
            forall|j: int| 0 <= j < at ==> buf@[j] == old(buf)@[j],
            forall|j: int| at <= j < at + i ==> buf@[j] == other@[j - at],
            forall|j: int| at + i <= j < N ==> buf@[j] == old(buf)@[j],
        decreases len - i,
    {
        buf[at + i] = other[i];
        i += 1;
    }
    proof {
        assert(buf@ =~= old(buf)@.subrange(0, at as int) + other@.take(len as int) + old(
            buf,
        )@.subrange(at + len, N as int));
    }
}

/// Represents a number whose length as a string is part of the type.
#[derive(PartialEq, Eq, Clone, Copy, Debug)]
pub struct NumLengthed<const LEN: usize> {
    value: i128,
}

impl<const LEN: usize> NumLengthed<LEN> {
    #[verifier::type_invariant]
    spec fn fits(self) -> bool {
        decimal(self.value as int).len() == LEN
    }

    /// The number held.
    pub closed spec fn spec_value(&self) -> i128 {
        self.value
    }

    /// Wraps a number, which must be `LEN` bytes long when written as a
    /// string.
    pub fn new(value: i128) -> (r: Option<NumLengthed<LEN>>)
        ensures
            decimal(value as int).len() == LEN ==> r.is_some() && r.unwrap().spec_value() == value,
            decimal(value as int).len() != LEN ==> r.is_none(),
    {
        if calc_num_len(value) == LEN {
            Some(NumLengthed { value })
        } else {
            None
        }
    }

    /// Gets the number held by this struct.
    pub fn value(&self) -> (v: i128)
        ensures
            v == self.spec_value(),
            decimal(v as int).len() == LEN,
    {
        proof {
            use_type_invariant(self);
        }
        self.value
    }
}

/// Converts an integer number to its string representation.
pub fn num_to_string<const LEN: usize>(value: NumLengthed<LEN>) -> (s: ConstStr<LEN>)
    ensures
        s@ == decimal(value.spec_value() as int),
{
    let number: i128 = value.value();
    let start: u128 = magnitude(number);
    let mut num: u128 = start;
    let mut buf = [0u8; LEN];
    let ghost sign: nat = if number < 0 { 1 } else { 0 };
    let ghost all = digits(start as nat);
    proof {
        lemma_digits_ascii(start as nat);
        assert(decimal(number as int).len() == sign + all.len());
    }
    if number < 0 {
        buf[0] = 45u8;
    }
    let mut offset: usize = LEN;
    let mut done = false;
    proof {
        assert(buf@.subrange(LEN as int, LEN as int) =~= Seq::<u8>::empty());
        assert(digits(num as nat) + Seq::<u8>::empty() =~= all);
    }
    while !done
        invariant
            LEN == sign + all.len(),
            sign <= 1,
            sign == 1 ==> buf@[0] == 45,
            buf@.len() == LEN,
            sign <= offset <= LEN,
            !done ==> offset == sign + digits(num as nat).len(),
            !done ==> digits(num as nat) + buf@.subrange(offset as int, LEN as int) == all,
            done ==> offset == sign,
            done ==> buf@.subrange(offset as int, LEN as int) == all,
        decreases num + if done { 0int } else { 1int },
    {
        let ghost before = buf@;
        let ghost old_offset = offset;
        let ghost old_num = num;
        proof {
            lemma_digits_ascii(num as nat);
        }
        let rem: u128 = num % 10;
        num = num / 10;
        offset -= 1;
        buf[offset] = 48u8 + (rem as u8);
        proof {
            let digit = (48 + old_num % 10) as u8;
            assert(buf@.subrange(offset as int, LEN as int) =~= seq![digit] + before.subrange(
                old_offset as int,
                LEN as int,
            ));
            if old_num < 10 {
                assert(digits(old_num as nat) =~= seq![digit]);
            } else {
                assert(digits(old_num as nat) =~= digits(num as nat) + seq![digit]);
                assert(digits(num as nat) + buf@.subrange(offset as int, LEN as int) =~= digits(
                    old_num as nat,
                ) + before.subrange(old_offset as int, LEN as int));
            }
        }
        if num == 0 {
            done = true;
        }
    }
    proof {
        let text = decimal(number as int);
        assert(buf@ =~= text) by {
            assert(buf@.len() == text.len());
            assert forall|i: int| 0 <= i < buf@.len() implies buf@[i] == text[i] by {
                if i >= sign {
                    assert(buf@.subrange(sign as int, LEN as int)[i - sign] == all[i - sign]);
                }
            }
        }
        lemma_decimal_is_utf8(number as int);
    }
    ConstStr { data: buf }
}

/// Represents an argument of [`const_concat2`]: a string or a number, of a
/// length that is part of the type.
#[derive(PartialEq, Eq, Clone, Copy, Debug)]
pub enum ConstArg<const LEN: usize> {
    String(ConstStr<LEN>),
    Integer(NumLengthed<LEN>),
}

impl<const LEN: usize> ConstArg<LEN> {
    /// The bytes of the argument written as a string.
    pub open spec fn spec_str(self) -> Seq<u8> {
        match self {
            ConstArg::String(s) => s@,
            ConstArg::Integer(i) => decimal(i.spec_value() as int),
        }
    }

    /// Converts the argument into its string representation.
    pub fn into_const_str(self) -> (s: ConstStr<LEN>)
        ensures
            s@ == self.spec_str(),
    {
        match self {
            ConstArg::String(s) => s,
            ConstArg::Integer(i) => num_to_string(i),
        }
    }
}

/// Concats two arguments into a [`ConstStr`], whose length `N` must be the
/// sum of theirs.
pub fn const_concat2<const LN: usize, const RN: usize, const N: usize>(
    l: ConstArg<LN>,
    r: ConstArg<RN>,
) -> (s: Option<ConstStr<N>>)
    ensures
        N == LN + RN ==> s.is_some() && s.unwrap()@ == l.spec_str() + r.spec_str(),
        N != LN + RN ==> s.is_none(),
{
    let fits = match LN.checked_add(RN) {
        Some(sum) => sum == N,
        None => false,
    };
    if !fits {
        return None;
    }
    let mut buf = [0u8; N];
    let lbuf = l.into_const_str();
    let rbuf = r.into_const_str();
    const_copy_from_slice(&mut buf, 0, LN, lbuf.as_bytes().as_slice());
    const_copy_from_slice(&mut buf, LN, RN, rbuf.as_bytes().as_slice());
    proof {
        assert(buf@ =~= lbuf@ + rbuf@);
        valid_utf8_concat(lbuf@, rbuf@);
    }
    Some(ConstStr::from_raw_parts(buf))
}

} // verus!
