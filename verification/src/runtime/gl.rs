//! The screen's resolution and how it is read from text.
use vstd::prelude::*;
use vstd::string::*;

verus! {

/// `c` is a decimal digit.
pub open spec fn is_digit(c: char) -> bool {
    '0' <= c && c <= '9'
}

/// The value of the decimal digit `c`.
pub open spec fn digit_value(c: char) -> nat
    recommends
        is_digit(c),
{
    (c as u32 - '0' as u32) as nat
}

/// Every character of `s` is a decimal digit.
pub open spec fn all_digits(s: Seq<char>) -> bool {
    forall|i: int| 0 <= i < s.len() ==> is_digit(#[trigger] s[i])
}

/// The number that the digits of `s` write in base ten.
pub open spec fn decimal(s: Seq<char>) -> nat
    decreases s.len(),
{
    if s.len() == 0 {
        0
    } else {
        decimal(s.drop_last()) * 10 + digit_value(s.last())
    }
}

/// The number that `digits` writes: at least one digit, with a value that
/// fits in 32 bits. `None` for any other text.
pub open spec fn parse_digits(digits: Seq<char>) -> Option<u32> {
    if digits.len() > 0 && all_digits(digits) && decimal(digits) <= u32::MAX {
        Some(decimal(digits) as u32)
    } else {
        None
    }
}

/// The number that `s` writes: an optional `+`, then digits as
/// `parse_digits` reads them.
pub open spec fn parse_number(s: Seq<char>) -> Option<u32> {
    if s.len() > 0 && s[0] == '+' {
        parse_digits(s.drop_first())
    } else {
        parse_digits(s)
    }
}

/// The index of the first `x` in `s`, or the length of `s` if it has none.
pub open spec fn first_x(s: Seq<char>) -> int
    decreases s.len(),
{
    if s.len() == 0 {
        0
    } else if s[0] == 'x' {
        0
    } else {
        1 + first_x(s.drop_first())
    }
}

/// The width and height that `s` writes as `<width>x<height>`, or `None` if
/// `s` is not of that form.
pub open spec fn parse_resolution(s: Seq<char>) -> Option<(u32, u32)> {
    let at = first_x(s);
    if at < s.len() {
        match (parse_number(s.take(at)), parse_number(s.skip(at + 1))) {
            (Some(width), Some(height)) => Some((width, height)),
            _ => None,
        }
    } else {
        None
    }
}

pub proof fn lemma_first_x(s: Seq<char>)
    ensures
        0 <= first_x(s) <= s.len(),
        first_x(s) < s.len() ==> s[first_x(s)] == 'x',
        forall|i: int| 0 <= i < first_x(s) ==> s[i] != 'x',
    decreases s.len(),
{
    if s.len() > 0 && s[0] != 'x' {
        let rest = s.drop_first();
        lemma_first_x(rest);
        assert forall|i: int| 0 <= i < first_x(s) implies s[i] != 'x' by {
            if i > 0 {
                assert(s[i] == rest[i - 1]);
            }
        }
    }
}

/// The first `x` of `s` stands at `at` if `s` has an `x` there and none before.
pub proof fn lemma_first_x_is(s: Seq<char>, at: int)
    requires
        0 <= at <= s.len(),
        at < s.len() ==> s[at] == 'x',
        forall|i: int| 0 <= i < at ==> s[i] != 'x',
    ensures
        first_x(s) == at,
{
    lemma_first_x(s);
}

/// A longer run of digits writes no smaller a number than its prefix.
pub proof fn lemma_decimal_prefix(s: Seq<char>, n: int)
    requires
        0 <= n <= s.len(),
    ensures
        decimal(s.take(n)) <= decimal(s),
    decreases s.len() - n,
{
    if n < s.len() {
        lemma_decimal_prefix(s, n + 1);
        assert(s.take(n + 1).drop_last() =~= s.take(n));
    } else {
        assert(s.take(n) =~= s);
    }
}

/// Reads a number as `parse_number` defines it.
pub fn number_from_str(s: &str) -> (r: Option<u32>)
    ensures
        r == parse_number(s@),
{
    let len = s.unicode_len();
    let start: usize = if len > 0 && s.get_char(0) == '+' {
        1
    } else {
        0
    };
    let ghost digits = s@.skip(start as int);
    assert(start == 1 ==> digits =~= s@.drop_first());
    assert(start == 0 ==> digits =~= s@);
    assert(parse_number(s@) == parse_digits(digits));
    if start == len {
        return None;
    }
    let mut value: u64 = 0;
    let mut i: usize = start;
    while i < len
        invariant
            start <= i <= len,
            len == s@.len(),
            digits == s@.skip(start as int),
            digits.len() > 0,
            parse_number(s@) == parse_digits(digits),
            all_digits(digits.take(i - start)),
            value == decimal(digits.take(i - start)),
            value <= u32::MAX,
        decreases len - i,
    {
        let c = s.get_char(i);
        let ghost k = i - start;
        assert(digits[k] == c);
        if c < '0' || c > '9' {
            assert(!is_digit(digits[k]));
            return None;
        }
        let digit: u64 = (c as u32 - '0' as u32) as u64;
        let next: u64 = value * 10 + digit;
        assert(digits.take(k + 1).drop_last() =~= digits.take(k));
        assert(digits.take(k + 1).last() == c);
        assert(next == decimal(digits.take(k + 1)));
        assert(all_digits(digits.take(k + 1))) by {
            assert forall|j: int| 0 <= j < k + 1 implies is_digit(
                #[trigger] digits.take(k + 1)[j],
            ) by {
                if j < k {
                    assert(digits.take(k + 1)[j] == digits.take(k)[j]);
                }
            }
        }
        if next > u32::MAX as u64 {
            proof {
                lemma_decimal_prefix(digits, k + 1);
            }
            return None;
        }
        value = next;
        i = i + 1;
    }
    assert(digits.take(len - start) =~= digits);
    Some(value as u32)
}

/// Reads a resolution as `parse_resolution` defines it.
pub fn resolution_from_str(s: &str) -> (r: Option<(u32, u32)>)
    ensures
        r == parse_resolution(s@),
{
    let len = s.unicode_len();
    let mut at: usize = 0;
    while at < len && s.get_char(at) != 'x'
        invariant
            at <= len,
            len == s@.len(),
            forall|i: int| 0 <= i < at ==> s@[i] != 'x',
        decreases len - at,
    {
        at = at + 1;
    }
    proof {
        lemma_first_x_is(s@, at as int);
    }
    if at == len {
        return None;
    }
    let left = s.substring_char(0, at);
    let right = s.substring_char(at + 1, len);
    assert(left@ =~= s@.take(at as int));
    assert(right@ =~= s@.skip(at + 1));
    match (number_from_str(left), number_from_str(right)) {
        (Some(width), Some(height)) => Some((width, height)),
        _ => None,
    }
}

/// The size of the drawing surface in pixels, and whether it fills the
/// screen.
pub struct ScreenResolution {
    width: u32,
    height: u32,
    fullscreen: bool,
}

impl Default for ScreenResolution {
    /// 1920 by 1080 pixels, filling the screen.
    fn default() -> (r: Self)
        ensures
            r.spec_resolution() == [1920u32, 1080u32],
            r.spec_fullscreen(),
    {
        ScreenResolution { width: 1920, height: 1080, fullscreen: true }
    }
}

impl ScreenResolution {
    /// Width, then height.
    pub closed spec fn spec_resolution(&self) -> [u32; 2] {
        [self.width, self.height]
    }

    pub closed spec fn spec_fullscreen(&self) -> bool {
        self.fullscreen
    }

    /// Width, then height.
    #[verifier::when_used_as_spec(spec_resolution)]
    pub fn resolution(&self) -> (r: [u32; 2])
        ensures
            r == self.spec_resolution(),
    {
        [self.width, self.height]
    }

    /// Whether the surface fills the screen.
    #[verifier::when_used_as_spec(spec_fullscreen)]
    pub fn fullscreen(&self) -> (r: bool)
        ensures
            r == self.spec_fullscreen(),
    {
        self.fullscreen
    }

    /// Takes width and height from text of the form `<width>x<height>`.
    pub fn resolution_from_str(&mut self, resolution_string: &str)
        requires
            parse_resolution(resolution_string@) is Some,
        ensures
            parse_resolution(resolution_string@) == Some(
                (final(self).spec_resolution()[0], final(self).spec_resolution()[1]),
            ),
            final(self).spec_fullscreen() == old(self).spec_fullscreen(),
    {
        match resolution_from_str(resolution_string) {
            Some((width, height)) => {
                self.width = width;
                self.height = height;
            },
            None => {},
        }
    }

    pub fn set_fullscreen(&mut self, fullscreen: bool)
        ensures
            final(self).spec_fullscreen() == fullscreen,
            final(self).spec_resolution() == old(self).spec_resolution(),
    {
        self.fullscreen = fullscreen;
    }

    /// A windowed surface of the size that `value` writes, or an error if
    /// `value` writes none.
    pub fn try_from(value: &str) -> (r: Result<ScreenResolution, ()>)
        ensures
            r is Ok <==> parse_resolution(value@) is Some,
            r is Ok ==> {
                &&& parse_resolution(value@) == Some(
                    (r->Ok_0.spec_resolution()[0], r->Ok_0.spec_resolution()[1]),
                )
                &&& !r->Ok_0.spec_fullscreen()
            },
    {
        match resolution_from_str(value) {
            Some((width, height)) => Ok(ScreenResolution { width, height, fullscreen: false }),
            None => Err(()),
        }
    }
}

} // verus!
