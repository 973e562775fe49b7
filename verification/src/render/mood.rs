//! Mood colours: their text form, and the ones that are not given.

use vstd::prelude::*;

use crate::voxelle::{blue, color_channels, green, red};

verus! {

/// The colour that a text which cannot be read stands for.
pub const UNREADABLE: u32 = 0xff_ffff;

/// Value of a hexadecimal digit.
pub open spec fn digit(c: char) -> Option<int> {
    if '0' <= c <= '9' {
        Some(c as int - '0' as int)
    } else if 'a' <= c <= 'f' {
        Some(c as int - 'a' as int + 10)
    } else if 'A' <= c <= 'F' {
        Some(c as int - 'A' as int + 10)
    } else {
        None
    }
}

/// Every letter is a hexadecimal digit.
pub open spec fn all_digits(s: Seq<char>) -> bool {
    forall|i: int| 0 <= i < s.len() ==> digit(#[trigger] s[i]) is Some
}

/// Value of hexadecimal digits.
pub open spec fn hex_value(s: Seq<char>) -> int
    decreases s.len(),
{
    if s.len() == 0 {
        0
    } else {
        16 * hex_value(s.drop_last()) + digit(s.last())->0
    }
}

/// Number of `#` at the front.
pub open spec fn hashes(s: Seq<char>) -> int
    decreases s.len(),
{
    if s.len() == 0 || s[0] != '#' {
        0
    } else {
        1 + hashes(s.skip(1))
    }
}

/// The digits of a colour: what follows the leading `#`, and one `+` after them.
pub open spec fn digits_of(s: Seq<char>) -> Seq<char> {
    let t = s.skip(hashes(s));
    if t.len() > 0 && t[0] == '+' {
        t.skip(1)
    } else {
        t
    }
}

/// The text stands for a 32 bit number.
pub open spec fn readable(s: Seq<char>) -> bool {
    let d = digits_of(s);
    d.len() > 0 && all_digits(d) && hex_value(d) <= u32::MAX
}

/// The colour that a text stands for.
pub open spec fn color_of(s: Seq<char>) -> int {
    if readable(s) {
        hex_value(digits_of(s))
    } else {
        UNREADABLE as int
    }
}

proof fn lemma_hashes(s: Seq<char>, k: int)
    requires
        0 <= k <= s.len(),
        forall|i: int| 0 <= i < k ==> s[i] == '#',
        k < s.len() ==> s[k] != '#',
    ensures
        hashes(s) == k,
    decreases k,
{
    if k > 0 {
        let t = s.skip(1);
        assert forall|i: int| 0 <= i < k - 1 implies t[i] == '#' by {
            assert(s[i + 1] == '#');
        }
        lemma_hashes(t, k - 1);
    }
}

proof fn lemma_hex_value(s: Seq<char>)
    requires
        all_digits(s),
    ensures
        hex_value(s) >= 0,
    decreases s.len(),
{
    if s.len() > 0 {
        assert(all_digits(s.drop_last())) by {
            assert forall|i: int| 0 <= i < s.drop_last().len() implies digit(
                #[trigger] s.drop_last()[i],
            ) is Some by {
                assert(s[i] == s.drop_last()[i]);
            }
        }
        lemma_hex_value(s.drop_last());
        assert(digit(s[s.len() - 1]) is Some);
    }
}

/// More digits make a number no smaller.
proof fn lemma_hex_grows(s: Seq<char>, k: int)
    requires
        all_digits(s),
        0 <= k <= s.len(),
    ensures
        hex_value(s.take(k)) <= hex_value(s),
    decreases s.len(),
{
    if k == s.len() {
        assert(s.take(k) =~= s);
    } else {
        let d = s.drop_last();
        assert(all_digits(d)) by {
            assert forall|i: int| 0 <= i < d.len() implies digit(#[trigger] d[i]) is Some by {
                assert(s[i] == d[i]);
            }
        }
        lemma_hex_grows(d, k);
        lemma_hex_value(d);
        assert(d.take(k) =~= s.take(k));
        assert(digit(s[s.len() - 1]) is Some);
    }
}

fn read_digit(c: char) -> (r: Option<u32>)
    ensures
        match r {
            Some(v) => digit(c) == Some(v as int) && v < 16,
            None => digit(c) is None,
        },
{
    let n: u32 = c as u32;
    if 48 <= n && n <= 57 {
        Some(n - 48)
    } else if 97 <= n && n <= 102 {
        Some(n - 97 + 10)
    } else if 65 <= n && n <= 70 {
        Some(n - 65 + 10)
    } else {
        None
    }
}

/// The number that a colour text stands for.
fn parse_color(hex: &str) -> (r: u32)
    ensures
        r == color_of(hex@),
{
    let n: usize = hex.unicode_len();
    let mut at: usize = 0;
    while at < n && hex.get_char(at) == '#'
        invariant
            at <= n,
            n == hex@.len(),
            forall|i: int| 0 <= i < at ==> #[trigger] hex@[i] == '#',
        ensures
            at <= n,
            forall|i: int| 0 <= i < at ==> #[trigger] hex@[i] == '#',
            at < n ==> hex@[at as int] != '#',
        decreases n - at,
    {
        at += 1;
    }
    proof {
        lemma_hashes(hex@, at as int);
    }
    let ghost t = hex@.skip(at as int);
    let mut start: usize = at;
    if at < n && hex.get_char(at) == '+' {
        start = at + 1;
        assert(t[0] == '+');
        assert(t.skip(1) =~= hex@.skip(start as int));
    } else {
        if at < n {
            assert(t[0] == hex@[at as int]);
        }
    }
    let ghost d = hex@.skip(start as int);
    assert(d == digits_of(hex@));
    if start >= n {
        return UNREADABLE;
    }
    let mut value: u32 = 0;
    let mut i: usize = start;
    while i < n
        invariant
            start <= i <= n,
            n == hex@.len(),
            d == hex@.skip(start as int),
            d == digits_of(hex@),
            forall|k: int| 0 <= k < i - start ==> digit(#[trigger] d[k]) is Some,
            value == hex_value(d.take(i - start)),
        decreases n - i,
    {
        let c = hex.get_char(i);
        assert(c == d[i - start]);
        match read_digit(c) {
            None => {
                assert(!all_digits(d)) by {
                    assert(digit(d[i - start]) is None);
                }
                return UNREADABLE;
            },
            Some(v) => {
                let wide: u64 = value as u64 * 16 + v as u64;
                proof {
                    let more = d.take(i - start + 1);
                    assert(more.drop_last() =~= d.take(i - start));
                    assert(more.last() == d[i - start]);
                    assert(wide == hex_value(more));
                }
                if wide > u32::MAX as u64 {
                    proof {
                        if all_digits(d) {
                            lemma_hex_grows(d, i - start + 1);
                        }
                    }
                    return UNREADABLE;
                }
                value = wide as u32;
            },
        }
        i += 1;
    }
    assert(d.take(d.len() as int) =~= d);
    value
}

/// Red, green and blue of a colour given as text. Text that is no number stands
/// for white; of a number above `0xffffff` the upper bits are ignored.
pub fn hex_to_rgb(hex: &str) -> (r: (u8, u8, u8))
    ensures
        r.0 == red(color_of(hex@) as u32),
        r.1 == green(color_of(hex@) as u32),
        r.2 == blue(color_of(hex@) as u32),
{
    let c: (i32, i32, i32) = color_channels(parse_color(hex));
    (c.0 as u8, c.1 as u8, c.2 as u8)
}

/// Colour of the atmosphere.
pub fn default_atm_color() -> (r: String)
    ensures
        r@ == "#c8d4e0"@,
{
    "#c8d4e0".to_string()
}

/// Tint of what is near.
pub fn default_dt_near_color() -> (r: String)
    ensures
        r@ == "#ffffff"@,
{
    "#ffffff".to_string()
}

/// Tint of what is half way.
pub fn default_dt_mid_color() -> (r: String)
    ensures
        r@ == "#c8d4e0"@,
{
    "#c8d4e0".to_string()
}

/// Tint of what is far.
pub fn default_dt_far_color() -> (r: String)
    ensures
        r@ == "#8fa3bf"@,
{
    "#8fa3bf".to_string()
}

/// A switch of the mood that is on.
pub fn default_true() -> (r: bool)
    ensures
        r,
{
    true
}

/// A `#` more in front of a colour changes nothing.
pub proof fn law_leading_hash_is_optional(s: Seq<char>)
    ensures
        color_of(seq!['#'] + s) == color_of(s),
{
    let t = seq!['#'] + s;
    assert(t.skip(1) =~= s);
    lemma_hashes_bound(s);
    assert(hashes(t) == 1 + hashes(s));
    assert(t.skip(1 + hashes(s)) =~= s.skip(hashes(s)));
}

proof fn lemma_hashes_bound(s: Seq<char>)
    ensures
        0 <= hashes(s) <= s.len(),
    decreases s.len(),
{
    if s.len() > 0 && s[0] == '#' {
        lemma_hashes_bound(s.skip(1));
    }
}

/// A digit stands for one of sixteen values, and two letters that stand for the same
/// value are the same letter, or differ in case alone.
pub proof fn law_digits_stand_for_different_values(a: char, b: char)
    requires
        digit(a) is Some,
        digit(b) is Some,
    ensures
        0 <= digit(a)->0 < 16,
        digit(a) == digit(b) ==> a == b || (a as int) - (b as int) == 32 || (b as int) - (a as int)
            == 32,
        a as int + 1 == b as int ==> digit(b)->0 == digit(a)->0 + 1,
{
}

/// `16` to the power `n`.
pub open spec fn sixteen_to(n: nat) -> int
    decreases n,
{
    if n == 0 {
        1
    } else {
        16 * sixteen_to((n - 1) as nat)
    }
}

/// Digits before others count for a power of sixteen each of them.
pub proof fn law_hex_is_positional(a: Seq<char>, b: Seq<char>)
    ensures
        hex_value(a + b) == hex_value(a) * sixteen_to(b.len()) + hex_value(b),
    decreases b.len(),
{
    if b.len() == 0 {
        assert(a + b =~= a);
    } else {
        law_hex_is_positional(a, b.drop_last());
        assert((a + b).drop_last() =~= a + b.drop_last());
        assert((a + b).last() == b.last());
        let (x, y) = (hex_value(a), sixteen_to((b.len() - 1) as nat));
        assert(16 * (x * y) == x * (16 * y)) by (nonlinear_arith);
    }
}

/// Six digits are red, green and blue, two digits each.
pub proof fn law_six_digits_are_three_channels(r: Seq<char>, g: Seq<char>, b: Seq<char>)
    requires
        r.len() == 2,
        g.len() == 2,
        b.len() == 2,
    ensures
        hex_value(r + g + b) == hex_value(r) * 0x10000 + hex_value(g) * 0x100 + hex_value(b),
{
    law_hex_is_positional(r + g, b);
    law_hex_is_positional(r, g);
    reveal_with_fuel(sixteen_to, 4);
    assert(sixteen_to(2) == 256);
}

} // verus!
