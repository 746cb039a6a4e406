//! What the 24-bit colour sequences of SGR do, stated over the numbers
//! written in them.
use vstd::prelude::*;
use super::{param_separator, sgr_init, sgr_run, Action, SgrState};

verus! {

/// The parameter digits of `n` written in decimal, as the parser records
/// them (one value 0..9 per digit).
pub open spec fn decimal_params(n: nat) -> Seq<u16>
    decreases n,
{
    if n < 10 {
        seq![n as u16]
    } else {
        decimal_params(n / 10).push((n % 10) as u16)
    }
}

/// The SGR parameters `38;2;R;G;B` (or `48;2;R;G;B` for the background),
/// each number ended by a separator as the parser records it.
pub open spec fn rgb_params(fg: bool, r: u8, g: u8, b: u8) -> Seq<u16> {
    let sep = seq![param_separator()];
    decimal_params(if fg { 38 } else { 48 }) + sep + decimal_params(2) + sep + decimal_params(r as nat)
        + sep + decimal_params(g as nat) + sep + decimal_params(b as nat) + sep
}

/// Walking the digits of `n` from a fresh number gives the number `n`.
proof fn lemma_run_digits(params: Seq<u16>, i: int, st: SgrState, n: nat)
    requires
        0 <= i,
        i + decimal_params(n).len() <= params.len(),
        params.subrange(i, i + decimal_params(n).len()) == decimal_params(n),
        st.b_param == 0,
        n <= 0xFFFF,
    ensures
        sgr_run(params, i, st) == sgr_run(params, i + decimal_params(n).len(), SgrState { b_param: n as u16, ..st }),
    decreases n,
{
    let d = decimal_params(n);
    if n < 10 {
        assert(params[i] == d[0]);
        assert(d[0] == n as u16);
        assert(SgrState { b_param: (st.b_param * 10 + n) as u16, ..st } == SgrState { b_param: n as u16, ..st });
    } else {
        let d1 = decimal_params(n / 10);
        let j = i + d1.len();
        assert(d == d1.push((n % 10) as u16));
        assert(params.subrange(i, j) =~= d1) by {
            assert forall|k: int| 0 <= k < d1.len() implies params.subrange(i, j)[k] == d1[k] by {
                assert(params.subrange(i, i + d.len())[k] == d[k]);
            }
        }
        lemma_run_digits(params, i, st, n / 10);
        assert(params[j] == (n % 10) as u16) by {
            assert(params.subrange(i, i + d.len())[d1.len() as int] == d[d1.len() as int]);
        }
        let st1 = SgrState { b_param: (n / 10) as u16, ..st };
        assert((n / 10) * 10 + n % 10 == n);
        assert(SgrState { b_param: (st1.b_param * 10 + (n % 10) as u16) as u16, ..st1 } == SgrState {
            b_param: n as u16,
            ..st
        });
    }
}

/// Digits and separators are different values.
proof fn lemma_digits_small(n: nat)
    ensures
        decimal_params(n).len() >= 1,
        forall|k: int| 0 <= k < decimal_params(n).len() ==> decimal_params(n)[k] <= 9,
    decreases n,
{
    if n >= 10 {
        lemma_digits_small(n / 10);
        let d1 = decimal_params(n / 10);
        assert forall|k: int| 0 <= k < decimal_params(n).len() implies decimal_params(n)[k] <= 9 by {
            if k < d1.len() {
                assert(decimal_params(n)[k] == d1[k]);
            }
        }
    }
}

/// After the SGR sequence `38;2;R;G;B` the foreground colour is the opaque
/// colour with red `R`, green `G` and blue `B` (`0xFF000000 | R<<16 | G<<8 |
/// B`); after `48;2;R;G;B` the background colour is; nothing else is done.
pub proof fn law_sgr_rgb(fg: bool, r: u8, g: u8, b: u8)
    ensures
        sgr_run(rgb_params(fg, r, g, b), 0, sgr_init()) == Some(
            seq![
                if fg {
                    Action::SetFgColor((0xFF00_0000 + r * 0x1_0000 + g * 0x100 + b) as u32)
                } else {
                    Action::SetBgColor((0xFF00_0000 + r * 0x1_0000 + g * 0x100 + b) as u32)
                },
            ],
        ),
{
    let p = rgb_params(fg, r, g, b);
    let sep = seq![param_separator()];
    let t: nat = if fg { 38 } else { 48 };
    let d0 = decimal_params(t);
    let d1 = decimal_params(2);
    let dr = decimal_params(r as nat);
    let dg = decimal_params(g as nat);
    let db = decimal_params(b as nat);
    lemma_digits_small(r as nat);
    lemma_digits_small(g as nat);
    lemma_digits_small(b as nat);
    assert(d0 == seq![(t / 10) as u16, (t % 10) as u16]) by {
        assert(decimal_params(t / 10) == seq![(t / 10) as u16]);
    }
    assert(d1 == seq![2u16]);
    let i1 = d0.len() as int;
    let i2 = i1 + 1 + 1;
    let i3 = i2 + 1 + dr.len();
    let i4 = i3 + 1 + dg.len();
    let i5 = i4 + 1 + db.len();
    assert(p.len() == i5 + 1);
    assert(p.subrange(0, i1) =~= d0);
    assert(p[i1] == param_separator());
    assert(p.subrange(i1 + 1, i1 + 2) =~= d1);
    assert(p[i1 + 2] == param_separator());
    assert(p.subrange(i2 + 1, i2 + 1 + dr.len()) =~= dr);
    assert(p[i3] == param_separator());
    assert(p.subrange(i3 + 1, i3 + 1 + dg.len()) =~= dg);
    assert(p[i4] == param_separator());
    assert(p.subrange(i4 + 1, i4 + 1 + db.len()) =~= db);
    assert(p[i5] == param_separator());
    let s0 = sgr_init();
    lemma_run_digits(p, 0, s0, t);
    let s1 = SgrState {
        color_type: if fg { crate::drivers::fonts::color::colors::ColorType::Foreground } else {
            crate::drivers::fonts::color::colors::ColorType::Background
        },
        ..s0
    };
    lemma_run_digits(p, i1 + 1, s1, 2);
    let s2 = SgrState { color_set: super::ColorSet::Rgb, ..s1 };
    lemma_run_digits(p, i2 + 1, s2, r as nat);
    let s3 = SgrState { color: crate::drivers::fonts::color::Color { r: r, ..s2.color }, color_counter: 1, ..s2 };
    lemma_run_digits(p, i3 + 1, s3, g as nat);
    let s4 = SgrState { color: crate::drivers::fonts::color::Color { g: g, ..s3.color }, color_counter: 2, ..s3 };
    lemma_run_digits(p, i4 + 1, s4, b as nat);
    let c = crate::drivers::fonts::color::Color { r: r, g: g, b: b, a: 255 };
    let act = if fg {
        Action::SetFgColor((0xFF00_0000 + r * 0x1_0000 + g * 0x100 + b) as u32)
    } else {
        Action::SetBgColor((0xFF00_0000 + r * 0x1_0000 + g * 0x100 + b) as u32)
    };
    assert(super::color_action(s4.color_type, crate::drivers::fonts::color::Color { b: b, ..s4.color }) == act);
    let s5 = SgrState {
        b_param: 0,
        color: crate::drivers::fonts::color::Color { b: b, ..s4.color },
        color_counter: 0,
        color_type: crate::drivers::fonts::color::colors::ColorType::Unset,
        color_set: super::ColorSet::Unset,
    };
    assert(sgr_run(p, i5 + 1, s5) == Some(Seq::<Action>::empty()));
    assert(seq![act] + Seq::<Action>::empty() =~= seq![act]);
    assert(Seq::<Action>::empty() + seq![act] =~= seq![act]);
    assert(sgr_run(p, i5, SgrState { b_param: b as u16, ..s4 }) == Some(seq![act]));
    assert(sgr_run(p, i4, SgrState { b_param: g as u16, ..s3 }) == Some(seq![act]));
    assert(sgr_run(p, i3, SgrState { b_param: r as u16, ..s2 }) == Some(seq![act]));
    assert(sgr_run(p, i1 + 2, SgrState { b_param: 2, ..s1 }) == Some(seq![act]));
    assert(sgr_run(p, i1, SgrState { b_param: t as u16, ..s0 }) == Some(seq![act]));
}

} // verus!
