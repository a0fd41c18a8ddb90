//! The indicator's ripple icon: an SVG of three concentric rings, each a
//! third of the animation cycle apart, expanding and fading as the frame
//! advances. The radii and opacities are exact decimal fractions, computed
//! and formatted in integer arithmetic.

use vstd::prelude::*;
use crate::reducer::ANIM_FRAMES;
use crate::strutil::{dec_digit, dec_digit_char, string_from_chars};

verus! {

/// A ring's radius for cycle position `k`, in tenths: it grows from 1.5
/// by half a unit per frame.
pub open spec fn radius_tenths(k: nat) -> nat {
    15 + 5 * k
}

/// The radius formatted with one decimal place.
pub open spec fn radius_text(k: nat) -> Seq<char> {
    seq![
        dec_digit(radius_tenths(k) / 10),
        '.',
        dec_digit(radius_tenths(k) % 10),
    ]
}

/// A ring's opacity for cycle position `k`, in hundredths, rounded to the
/// nearest: it fades from fully opaque as the ring expands.
pub open spec fn opacity_hundredths(k: nat) -> nat {
    (2412 - 200 * k) as nat / 24
}

/// The opacity formatted with two decimal places.
pub open spec fn opacity_text(k: nat) -> Seq<char> {
    if opacity_hundredths(k) == 100 {
        seq!['1', '.', '0', '0']
    } else {
        seq![
            '0',
            '.',
            dec_digit(opacity_hundredths(k) / 10),
            dec_digit(opacity_hundredths(k) % 10),
        ]
    }
}

/// One ring of the ripple, at cycle position `k`.
pub open spec fn ring_svg(k: nat) -> Seq<char> {
    "<circle cx=\"8\" cy=\"8\" r=\""@ + radius_text(k)
        + "\" fill=\"none\" stroke=\"currentColor\" stroke-width=\"1.2\" opacity=\""@
        + opacity_text(k) + "\"/>"@
}

/// The whole icon for an animation frame: three rings a third of the
/// cycle apart, and a center dot.
pub open spec fn ripple_svg_spec(frame: nat) -> Seq<char> {
    "<svg width=\"16\" height=\"16\" viewBox=\"0 0 16 16\" xmlns=\"http://www.w3.org/2000/svg\">"@
        + ring_svg(frame % 12) + ring_svg((frame + 4) % 12) + ring_svg((frame + 8) % 12)
        + "<circle cx=\"8\" cy=\"8\" r=\"1.2\" fill=\"currentColor\"/>"@ + "</svg>"@
}

fn ring_into(m: &mut String, k: u8)
    requires
        k < 12,
    ensures
        final(m)@ == old(m)@ + ring_svg(k as nat),
{
    m.append("<circle cx=\"8\" cy=\"8\" r=\"");
    let t: u64 = 15 + 5 * (k as u64);
    let mut rd: Vec<char> = Vec::new();
    rd.push(dec_digit_char(t / 10));
    rd.push('.');
    rd.push(dec_digit_char(t % 10));
    proof {
        assert(rd@ =~= radius_text(k as nat));
    }
    let rs = string_from_chars(&rd);
    m.append(rs.as_str());
    m.append("\" fill=\"none\" stroke=\"currentColor\" stroke-width=\"1.2\" opacity=\"");
    let o: u64 = (2412 - 200 * (k as u64)) / 24;
    let mut od: Vec<char> = Vec::new();
    if o == 100 {
        od.push('1');
        od.push('.');
        od.push('0');
        od.push('0');
    } else {
        od.push('0');
        od.push('.');
        od.push(dec_digit_char(o / 10));
        od.push(dec_digit_char(o % 10));
    }
    proof {
        assert(od@ =~= opacity_text(k as nat));
    }
    let os = string_from_chars(&od);
    m.append(os.as_str());
    m.append("\"/>");
    proof {
        assert(m@ =~= old(m)@ + ring_svg(k as nat));
    }
}

/// The icon's SVG text for an animation frame.
pub fn ripple_svg(frame: u8) -> (r: String)
    requires
        frame < ANIM_FRAMES,
    ensures
        r@ == ripple_svg_spec(frame as nat),
{
    let mut m = String::from_str(
        "<svg width=\"16\" height=\"16\" viewBox=\"0 0 16 16\" xmlns=\"http://www.w3.org/2000/svg\">",
    );
    ring_into(&mut m, frame % 12);
    ring_into(&mut m, (frame + 4) % 12);
    ring_into(&mut m, (frame + 8) % 12);
    m.append("<circle cx=\"8\" cy=\"8\" r=\"1.2\" fill=\"currentColor\"/>");
    m.append("</svg>");
    proof {
        assert(m@ =~= ripple_svg_spec(frame as nat));
    }
    m
}

} // verus!
