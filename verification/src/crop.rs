//! The crop viewport calculator: from a source bounding box, padding, an
//! optional square constraint and a fit-to policy to a new view rectangle
//! and output size.
//!
//! The calculator is a pure function.  An invalid source box (any non-finite
//! field, or non-positive width or height) yields `None`: the caller must
//! leave its tree untouched.  Invalid padding is treated as zero.  When the
//! padded content area drops below one unit on either axis the result is a
//! one-unit placeholder view placed just outside the source box, flagged
//! `empty` so the caller can skip rendering.  When the fit-to policy cannot
//! be resolved, the (possibly squared) box itself is returned unscaled.

use vstd::prelude::*;

use crate::fx;
use crate::fx::{fits, fxmuldiv, half, imax, sat, tdiv, LIM, SCALE};
use crate::geom::{BBox, Rect, Scalar};

verus! {

/// The fit-to policy: how a source size maps to an output size.
#[derive(Clone, Copy, PartialEq, Eq, Structural, Debug)]
pub enum FitTo {
    /// Keep the source size.
    Original,
    /// Fit to a pixel width.
    Width(u32),
    /// Fit to a pixel height.
    Height(u32),
    /// Scale by a fixed-point factor.
    Zoom(i64),
}

/// The derived crop viewport: new view rectangle, output size, and whether
/// the content collapsed (rendering should be skipped).
#[derive(Clone, Copy, PartialEq, Eq, Structural, Debug)]
pub struct CropResult {
    pub view: Rect,
    pub size_w: i64,
    pub size_h: i64,
    pub empty: bool,
}

/// Mathematical model of a crop result.
pub ghost struct GCrop {
    pub vx: int,
    pub vy: int,
    pub vw: int,
    pub vh: int,
    pub sw: int,
    pub sh: int,
    pub empty: bool,
}

impl View for CropResult {
    type V = GCrop;

    open spec fn view(&self) -> GCrop {
        GCrop {
            vx: self.view.x as int,
            vy: self.view.y as int,
            vw: self.view.w as int,
            vh: self.view.h as int,
            sw: self.size_w as int,
            sh: self.size_h as int,
            empty: self.empty,
        }
    }
}

/// Model of an optional crop result.
pub open spec fn oc(o: Option<CropResult>) -> Option<GCrop> {
    match o {
        Some(c) => Some(c@),
        None => None,
    }
}

/// The source box is usable: all fields finite, width and height positive.
pub open spec fn valid_bbox(b: BBox) -> bool {
    b.x.is_finite() && b.y.is_finite() && b.width.is_finite() && b.height.is_finite()
        && b.width.val() > 0 && b.height.val() > 0
}

/// Effective padding: a finite, non-negative value, else zero.
pub open spec fn pad_of(p: Scalar) -> int {
    if p.is_finite() && p.val() >= 0 {
        p.val()
    } else {
        0
    }
}

/// Expand the smaller dimension to the larger one, re-centering on the
/// original center (the shift is half the difference, truncated).
pub open spec fn squared(x: int, y: int, w: int, h: int) -> (int, int, int, int) {
    if w < h {
        (x - half(h - w), y, h, h)
    } else if h < w {
        (x, y - half(w - h), w, w)
    } else {
        (x, y, w, h)
    }
}

/// Resolve the fit-to policy against a source size: the target size, or
/// `None` when the policy cannot be resolved (zero request, non-positive
/// zoom, or a target that collapses to zero).
pub open spec fn resolve_fit(fit: FitTo, w: int, h: int) -> Option<(int, int)>
    recommends
        w > 0,
        h > 0,
{
    match fit {
        FitTo::Original => Some((w, h)),
        FitTo::Width(px) => if px == 0 {
            None
        } else {
            let tw = sat(px as int * SCALE as int);
            let th = sat(tdiv(tw * h, w));
            if th == 0 {
                None
            } else {
                Some((tw, th))
            }
        },
        FitTo::Height(px) => if px == 0 {
            None
        } else {
            let th = sat(px as int * SCALE as int);
            let tw = sat(tdiv(th * w, h));
            if tw == 0 {
                None
            } else {
                Some((tw, th))
            }
        },
        FitTo::Zoom(z) => if z <= 0 {
            None
        } else {
            let tw = sat(tdiv(w * z as int, SCALE as int));
            let th = sat(tdiv(h * z as int, SCALE as int));
            if tw == 0 || th == 0 {
                None
            } else {
                Some((tw, th))
            }
        },
    }
}

/// The crop calculation.  `None` stands for "no-op": the source box was
/// unusable.  See the module header for the three result shapes.
pub open spec fn crop_spec(b: BBox, padding: Scalar, square: bool, fit: FitTo) -> Option<GCrop> {
    if !valid_bbox(b) {
        None
    } else {
        let pad = pad_of(padding);
        let x0 = b.x.val();
        let y0 = b.y.val();
        let w0 = b.width.val();
        let h0 = b.height.val();
        let q = if square {
            squared(x0, y0, w0, h0)
        } else {
            (x0, y0, w0, h0)
        };
        let x = q.0;
        let y = q.1;
        let w = q.2;
        let h = q.3;
        if fit is Original {
            Some(GCrop { vx: x, vy: y, vw: w, vh: h, sw: w, sh: h, empty: false })
        } else {
            match resolve_fit(fit, w, h) {
                None => Some(GCrop { vx: x, vy: y, vw: w, vh: h, sw: w, sh: h, empty: false }),
                Some(t) => {
                    let tw = if square {
                        imax(t.0, t.1)
                    } else {
                        t.0
                    };
                    let th = if square {
                        imax(t.0, t.1)
                    } else {
                        t.1
                    };
                    let cw = imax(tw - 2 * pad, 0);
                    let ch = imax(th - 2 * pad, 0);
                    if cw < SCALE as int || ch < SCALE as int {
                        Some(
                            GCrop {
                                vx: x + w,
                                vy: y + h,
                                vw: SCALE as int,
                                vh: SCALE as int,
                                sw: SCALE as int,
                                sh: SCALE as int,
                                empty: true,
                            },
                        )
                    } else {
                        let vw = fxmuldiv(w, tw, cw);
                        let vh = fxmuldiv(h, th, ch);
                        let vx = x + half(w) - half(vw);
                        let vy = y + half(h) - half(vh);
                        let s = match fit {
                            FitTo::Zoom(z) => (
                                fxmuldiv(tw, SCALE as int, z as int),
                                fxmuldiv(th, SCALE as int, z as int),
                            ),
                            _ => (tw, th),
                        };
                        Some(
                            GCrop {
                                vx: vx,
                                vy: vy,
                                vw: vw,
                                vh: vh,
                                sw: s.0,
                                sh: s.1,
                                empty: false,
                            },
                        )
                    }
                },
            }
        }
    }
}

/// Resolve the fit-to policy at runtime.
fn resolve_fit_exec(fit: FitTo, w: i64, h: i64) -> (r: Option<(i64, i64)>)
    requires
        0 < w <= LIM,
        0 < h <= LIM,
    ensures
        match r {
            Some(t) => resolve_fit(fit, w as int, h as int) == Some((t.0 as int, t.1 as int))
                && fits(t.0 as int) && fits(t.1 as int),
            None => resolve_fit(fit, w as int, h as int) is None,
        },
{
    match fit {
        FitTo::Original => Some((w, h)),
        FitTo::Width(px) => {
            if px == 0 {
                None
            } else {
                proof {
                    fx::lemma_mul_bound(px as int, SCALE as int, 0x1_0000_0000, 0x10000);
                }
                let tw = fx::sat128((px as i128) * (SCALE as i128));
                let th = fx::sat128(fx::tdiv128(fx::mul128(tw, h), w as i128));
                if th == 0 {
                    None
                } else {
                    Some((tw, th))
                }
            }
        },
        FitTo::Height(px) => {
            if px == 0 {
                None
            } else {
                proof {
                    fx::lemma_mul_bound(px as int, SCALE as int, 0x1_0000_0000, 0x10000);
                }
                let th = fx::sat128((px as i128) * (SCALE as i128));
                let tw = fx::sat128(fx::tdiv128(fx::mul128(th, w), h as i128));
                if tw == 0 {
                    None
                } else {
                    Some((tw, th))
                }
            }
        },
        FitTo::Zoom(z) => {
            if z <= 0 {
                None
            } else {
                let tw = fx::sat128(fx::tdiv128(fx::mul128(w, z), SCALE as i128));
                let th = fx::sat128(fx::tdiv128(fx::mul128(h, z), SCALE as i128));
                if tw == 0 || th == 0 {
                    None
                } else {
                    Some((tw, th))
                }
            }
        },
    }
}

/// Derive the crop viewport from a source box at runtime.
pub fn compute_viewport(b: &BBox, padding: Scalar, square: bool, fit: FitTo) -> (r: Option<
    CropResult,
>)
    ensures
        oc(r) == crop_spec(*b, padding, square, fit),
{
    if !(b.x.finite() && b.y.finite() && b.width.finite() && b.height.finite()) {
        return None;
    }
    let w0 = b.width.raw();
    let h0 = b.height.raw();
    if !(w0 > 0 && h0 > 0) {
        return None;
    }
    let x0 = b.x.raw();
    let y0 = b.y.raw();
    let pad: i64 = if padding.finite() {
        let p = padding.raw();
        if p >= 0 {
            p
        } else {
            0
        }
    } else {
        0
    };
    let mut x = x0;
    let mut y = y0;
    let mut w = w0;
    let mut h = h0;
    if square {
        if w < h {
            x = x - fx::fx_half(h - w);
            w = h;
        } else if h < w {
            y = y - fx::fx_half(w - h);
            h = w;
        }
    }
    if matches!(fit, FitTo::Original) {
        return Some(
            CropResult { view: Rect { x, y, w, h }, size_w: w, size_h: h, empty: false },
        );
    }
    match resolve_fit_exec(fit, w, h) {
        None => Some(CropResult { view: Rect { x, y, w, h }, size_w: w, size_h: h, empty: false }),
        Some(t) => {
            let tw: i64 = if square {
                fx::fx_max(t.0, t.1)
            } else {
                t.0
            };
            let th: i64 = if square {
                fx::fx_max(t.0, t.1)
            } else {
                t.1
            };
            let cw: i64 = if tw - 2 * pad >= 0 {
                tw - 2 * pad
            } else {
                0
            };
            let ch: i64 = if th - 2 * pad >= 0 {
                th - 2 * pad
            } else {
                0
            };
            if cw < SCALE || ch < SCALE {
                Some(
                    CropResult {
                        view: Rect { x: x + w, y: y + h, w: SCALE, h: SCALE },
                        size_w: SCALE,
                        size_h: SCALE,
                        empty: true,
                    },
                )
            } else {
                let vw = fx::fx_muldiv(w, tw, cw);
                let vh = fx::fx_muldiv(h, th, ch);
                let vx = x + fx::fx_half(w) - fx::fx_half(vw);
                let vy = y + fx::fx_half(h) - fx::fx_half(vh);
                let s: (i64, i64) = match fit {
                    FitTo::Zoom(z) => (
                        fx::fx_muldiv(tw, SCALE, z),
                        fx::fx_muldiv(th, SCALE, z),
                    ),
                    _ => (tw, th),
                };
                Some(
                    CropResult {
                        view: Rect { x: vx, y: vy, w: vw, h: vh },
                        size_w: s.0,
                        size_h: s.1,
                        empty: false,
                    },
                )
            }
        },
    }
}

} // verus!
