//! The text transforms behind reshaping pasted CSS into macro calls: a
//! property name is trimmed and snake-cased, a pixel value gets a space
//! before its unit, a colour becomes a grouped hex literal, and the pieces
//! are reassembled as a `css::name!(value),` line.  All of it works on
//! ASCII bytes; reading and writing the text is the caller's affair.

use vstd::prelude::*;

verus! {

/// Whether `b` is an ASCII space or tab.
pub open spec fn is_ascii_blank(b: u8) -> bool {
    b == 32 || b == 9
}

/// A dash becomes an underscore; everything else stays.
pub open spec fn snake_byte(b: u8) -> u8 {
    if b == 45 {
        95
    } else {
        b
    }
}

/// The value with every `px` replaced by ` px`, scanning left to right.
pub open spec fn spec_spaced_px(s: Seq<u8>) -> Seq<u8>
    decreases s.len(),
{
    if s.len() == 0 {
        Seq::empty()
    } else if s.len() >= 2 && s[0] == 112 && s[1] == 120 {
        seq![32u8, 112u8, 120u8] + spec_spaced_px(s.skip(2))
    } else {
        seq![s[0]] + spec_spaced_px(s.skip(1))
    }
}

/// The uppercase hex digit for a value under sixteen.
pub open spec fn hex_digit(n: u8) -> u8 {
    if n < 10 {
        (48 + n) as u8
    } else {
        (55 + n) as u8
    }
}

/// The two uppercase hex digits of a byte.
pub open spec fn hex_byte(n: u8) -> Seq<u8> {
    seq![hex_digit((n / 16) as u8), hex_digit((n % 16) as u8)]
}

/// Trims ASCII blanks from both ends and turns dashes into underscores,
/// readying a CSS property name for use as a macro name.
pub fn snake_property_name(name: &[u8]) -> (r: Vec<u8>)
    ensures
        exists|lo: int, hi: int|
            {
                &&& 0 <= lo <= hi <= name@.len()
                &&& (forall|j: int| 0 <= j < lo ==> is_ascii_blank(#[trigger] name@[j]))
                &&& (forall|j: int|
                    hi <= j < name@.len() ==> is_ascii_blank(#[trigger] name@[j]))
                &&& (lo == hi || (!is_ascii_blank(name@[lo]) && !is_ascii_blank(
                    name@[hi - 1],
                )))
                &&& r@ == name@.subrange(lo, hi).map_values(|b: u8| snake_byte(b))
            },
{
    let mut lo: usize = 0;
    let n = name.len();
    while lo < n && (name[lo] == 32 || name[lo] == 9)
        invariant
            lo <= n,
            n == name@.len(),
            forall|j: int| 0 <= j < lo ==> is_ascii_blank(#[trigger] name@[j]),
        decreases n - lo,
    {
        lo += 1;
    }
    let mut hi: usize = n;
    while hi > lo && (name[hi - 1] == 32 || name[hi - 1] == 9)
        invariant
            lo <= hi <= n,
            n == name@.len(),
            forall|j: int| hi <= j < n ==> is_ascii_blank(#[trigger] name@[j]),
        decreases hi,
    {
        hi -= 1;
    }
    let mut r: Vec<u8> = Vec::new();
    let mut i: usize = lo;
    while i < hi
        invariant
            lo <= i <= hi <= n,
            n == name@.len(),
            r@ == name@.subrange(lo as int, i as int).map_values(|b: u8| snake_byte(b)),
        decreases hi - i,
    {
        let b = name[i];
        r.push(if b == 45 {
            95
        } else {
            b
        });
        proof {
            assert(name@.subrange(lo as int, i + 1).drop_last()
                =~= name@.subrange(lo as int, i as int));
            assert(r@ =~= name@.subrange(lo as int, i + 1).map_values(
                |b: u8| snake_byte(b),
            ));
        }
        i += 1;
    }
    proof {
        let lo_g = lo as int;
        let hi_g = hi as int;
        assert(0 <= lo_g <= hi_g <= name@.len() && (forall|j: int|
            0 <= j < lo_g ==> is_ascii_blank(#[trigger] name@[j])) && (forall|j: int|
            hi_g <= j < name@.len() ==> is_ascii_blank(#[trigger] name@[j])) && (lo_g
            == hi_g || (!is_ascii_blank(name@[lo_g]) && !is_ascii_blank(name@[hi_g - 1])))
            && r@ == name@.subrange(lo_g, hi_g).map_values(|b: u8| snake_byte(b)));
    }
    r
}

/// Puts a space before every `px` unit in a CSS value.
pub fn spaced_px(value: &[u8]) -> (r: Vec<u8>)
    ensures
        r@ == spec_spaced_px(value@),
{
    let n = value.len();
    let mut r: Vec<u8> = Vec::new();
    let mut i: usize = 0;
    proof {
        assert(value@.skip(0) =~= value@);
        assert(r@ + spec_spaced_px(value@) =~= spec_spaced_px(value@));
    }
    while i < n
        invariant
            i <= n,
            n == value@.len(),
            r@ + spec_spaced_px(value@.skip(i as int)) == spec_spaced_px(value@),
        decreases n - i,
    {
        let ghost rest = value@.skip(i as int);
        if i + 1 < n && value[i] == 112 && value[i + 1] == 120 {
            r.push(32);
            r.push(112);
            r.push(120);
            proof {
                assert(rest[0] == value@[i as int] && rest[1] == value@[i + 1]);
                assert(rest.skip(2) =~= value@.skip(i + 2));
                assert(r@ + spec_spaced_px(value@.skip(i + 2)) =~= spec_spaced_px(
                    value@,
                ));
            }
            i += 2;
        } else {
            r.push(value[i]);
            proof {
                assert(rest[0] == value@[i as int]);
                assert(rest.skip(1) =~= value@.skip(i + 1));
                assert(r@ + spec_spaced_px(value@.skip(i + 1)) =~= spec_spaced_px(
                    value@,
                ));
            }
            i += 1;
        }
    }
    proof {
        assert(value@.skip(n as int) =~= Seq::<u8>::empty());
        assert(r@ =~= spec_spaced_px(value@));
    }
    r
}

/// Renders a colour as the grouped hex literal `0xRR_GG_BB_AA`.
pub fn hex_color_literal(red: u8, green: u8, blue: u8, alpha: u8) -> (r: Vec<u8>)
    ensures
        r@ == seq![48u8, 120u8] + hex_byte(red) + seq![95u8] + hex_byte(green)
            + seq![95u8] + hex_byte(blue) + seq![95u8] + hex_byte(alpha),
{
    let mut r: Vec<u8> = Vec::new();
    r.push(48);
    r.push(120);
    push_hex_byte(&mut r, red);
    r.push(95);
    push_hex_byte(&mut r, green);
    r.push(95);
    push_hex_byte(&mut r, blue);
    r.push(95);
    push_hex_byte(&mut r, alpha);
    proof {
        assert(r@ =~= seq![48u8, 120u8] + hex_byte(red) + seq![95u8] + hex_byte(green)
            + seq![95u8] + hex_byte(blue) + seq![95u8] + hex_byte(alpha));
    }
    r
}

/// Pushes the two hex digits of `n`.
fn push_hex_byte(r: &mut Vec<u8>, n: u8)
    ensures
        final(r)@ == old(r)@ + hex_byte(n),
{
    let hi = n / 16;
    let lo = n % 16;
    r.push(if hi < 10 {
        48 + hi
    } else {
        55 + hi
    });
    r.push(if lo < 10 {
        48 + lo
    } else {
        55 + lo
    });
    proof {
        assert(final(r)@ =~= old(r)@ + hex_byte(n));
    }
}

/// Reassembles a transformed property as a `css::name!(value),` line.
pub fn render_property(name: &Vec<u8>, value: &Vec<u8>) -> (r: Vec<u8>)
    ensures
        r@ == seq![99u8, 115u8, 115u8, 58u8, 58u8] + name@ + seq![33u8, 40u8] + value@
            + seq![41u8, 44u8],
{
    let mut r: Vec<u8> = Vec::new();
    r.push(99);
    r.push(115);
    r.push(115);
    r.push(58);
    r.push(58);
    let mut i: usize = 0;
    while i < name.len()
        invariant
            i <= name@.len(),
            r@ == seq![99u8, 115u8, 115u8, 58u8, 58u8] + name@.take(i as int),
        decreases name@.len() - i,
    {
        r.push(name[i]);
        proof {
            assert(name@.take(i + 1) =~= name@.take(i as int).push(name@[i as int]));
            assert(r@ =~= seq![99u8, 115u8, 115u8, 58u8, 58u8] + name@.take(i + 1));
        }
        i += 1;
    }
    r.push(33);
    r.push(40);
    let mut j: usize = 0;
    while j < value.len()
        invariant
            j <= value@.len(),
            r@ == seq![99u8, 115u8, 115u8, 58u8, 58u8] + name@.take(name@.len() as int)
                + seq![33u8, 40u8] + value@.take(j as int),
        decreases value@.len() - j,
    {
        r.push(value[j]);
        proof {
            assert(value@.take(j + 1) =~= value@.take(j as int).push(value@[j as int]));
            assert(r@ =~= seq![99u8, 115u8, 115u8, 58u8, 58u8] + name@.take(
                name@.len() as int,
            ) + seq![33u8, 40u8] + value@.take(j + 1));
        }
        j += 1;
    }
    r.push(41);
    r.push(44);
    proof {
        assert(name@.take(name@.len() as int) =~= name@);
        assert(value@.take(value@.len() as int) =~= value@);
        assert(r@ =~= seq![99u8, 115u8, 115u8, 58u8, 58u8] + name@ + seq![33u8, 40u8]
            + value@ + seq![41u8, 44u8]);
    }
    r
}

} // verus!
