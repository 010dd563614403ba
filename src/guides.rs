//! Guides: infinite alignment lines in design space, with ids drawn from the
//! same source as points.
use crate::geom::{integer_sqrt, isqrt, DPoint, DVec2, ScreenPoint, ViewPort, MIN_POINT_DISTANCE};
use crate::path::{IdGen, PointId};
use vstd::prelude::*;

verus! {

/// The path number reserved for guide ids: no path gets it.
pub const GUIDE_PATH: u64 = 0xffff_ffff_ffff_ffff;

#[derive(Debug, Clone, Copy, PartialEq, Eq, Structural)]
pub enum GuideLine {
    /// The horizontal line through a point.
    Horiz(DPoint),
    /// The vertical line through a point.
    Vertical(DPoint),
    /// The line through two points.
    Angle { p1: DPoint, p2: DPoint },
}

#[derive(Debug, Clone, Copy, PartialEq, Eq, Structural)]
pub struct Guide {
    pub id: PointId,
    pub guide: GuideLine,
}

impl GuideLine {
    pub open spec fn wf(self) -> bool {
        match self {
            GuideLine::Horiz(p) => p.wf(),
            GuideLine::Vertical(p) => p.wf(),
            GuideLine::Angle { p1, p2 } => p1.wf() && p2.wf(),
        }
    }
}

/// Whether design point `d` lies within `MIN_POINT_DISTANCE` pixels of
/// `line` at zoom `zn / zd`; for an angled line through two equal points, of
/// that point.
pub open spec fn line_near(line: GuideLine, d: DPoint, zn: int, zd: int) -> bool {
    let tol = (MIN_POINT_DISTANCE as int) * zd;
    match line {
        GuideLine::Horiz(p) => (if d.y >= p.y { d.y - p.y } else { p.y - d.y }) * zn <= tol,
        GuideLine::Vertical(p) => (if d.x >= p.x { d.x - p.x } else { p.x - d.x }) * zn <= tol,
        GuideLine::Angle { p1, p2 } => {
            let dx = p2.x - p1.x;
            let dy = p2.y - p1.y;
            let cross = dx * (d.y - p1.y) - dy * (d.x - p1.x);
            let len2 = dx * dx + dy * dy;
            if len2 == 0 {
                ((d.x - p1.x) * (d.x - p1.x) + (d.y - p1.y) * (d.y - p1.y)) * (zn * zn) <= tol * tol
            } else {
                (if cross < 0 { -cross } else { cross }) * zn <= tol * isqrt(len2 as nat)
            }
        },
    }
}

impl Guide {
    fn new(ids: &mut IdGen, guide: GuideLine) -> (r: Guide)
        requires
            old(ids)@ < u64::MAX,
        ensures
            r.id == (PointId { path: GUIDE_PATH, point: old(ids)@ as u64 }),
            r.guide == guide,
            final(ids)@ == old(ids)@ + 1,
    {
        Guide { id: PointId { path: GUIDE_PATH, point: ids.fresh() }, guide }
    }

    pub fn horiz(ids: &mut IdGen, p1: DPoint) -> (r: Guide)
        requires
            old(ids)@ < u64::MAX,
        ensures
            r.id == (PointId { path: GUIDE_PATH, point: old(ids)@ as u64 }),
            r.guide == GuideLine::Horiz(p1),
            final(ids)@ == old(ids)@ + 1,
    {
        Guide::new(ids, GuideLine::Horiz(p1))
    }

    pub fn vertical(ids: &mut IdGen, p1: DPoint) -> (r: Guide)
        requires
            old(ids)@ < u64::MAX,
        ensures
            r.id == (PointId { path: GUIDE_PATH, point: old(ids)@ as u64 }),
            r.guide == GuideLine::Vertical(p1),
            final(ids)@ == old(ids)@ + 1,
    {
        Guide::new(ids, GuideLine::Vertical(p1))
    }

    pub fn angle(ids: &mut IdGen, p1: DPoint, p2: DPoint) -> (r: Guide)
        requires
            old(ids)@ < u64::MAX,
        ensures
            r.id == (PointId { path: GUIDE_PATH, point: old(ids)@ as u64 }),
            r.guide == (GuideLine::Angle { p1, p2 }),
            final(ids)@ == old(ids)@ + 1,
    {
        Guide::new(ids, GuideLine::Angle { p1, p2 })
    }

    /// Turns a horizontal guide vertical through `new_point`, and back; an
    /// angled guide stays as it is.
    pub fn toggle_vertical_horiz(&mut self, new_point: DPoint)
        ensures
            final(self).id == old(self).id,
            final(self).guide == match old(self).guide {
                GuideLine::Horiz(_) => GuideLine::Vertical(new_point),
                GuideLine::Vertical(_) => GuideLine::Horiz(new_point),
                GuideLine::Angle { p1, p2 } => GuideLine::Angle { p1, p2 },
            },
    {
        self.guide = match self.guide {
            GuideLine::Horiz(_) => GuideLine::Vertical(new_point),
            GuideLine::Vertical(_) => GuideLine::Horiz(new_point),
            GuideLine::Angle { p1, p2 } => GuideLine::Angle { p1, p2 },
        };
    }

    /// Moves the guide by `v`: a horizontal one only up or down, a vertical
    /// one only sideways, an angled one both ways (clamped to the design
    /// range).
    pub fn nudge(&mut self, v: DVec2)
        ensures
            final(self).id == old(self).id,
            final(self).guide == match old(self).guide {
                GuideLine::Horiz(p) => GuideLine::Horiz(p.translated(DVec2 { x: 0, y: v.y })),
                GuideLine::Vertical(p) => GuideLine::Vertical(p.translated(DVec2 { x: v.x, y: 0 })),
                GuideLine::Angle { p1, p2 } => GuideLine::Angle { p1: p1.translated(v), p2: p2.translated(v) },
            },
            final(self).guide.wf(),
    {
        self.guide = match self.guide {
            GuideLine::Horiz(p) => GuideLine::Horiz(p.translate(DVec2 { x: 0, y: v.y })),
            GuideLine::Vertical(p) => GuideLine::Vertical(p.translate(DVec2 { x: v.x, y: 0 })),
            GuideLine::Angle { p1, p2 } => GuideLine::Angle { p1: p1.translate(v), p2: p2.translate(v) },
        };
    }

    /// Whether the screen position `pos` is within the click tolerance of
    /// the guide, measured at the design point under `pos`.
    pub fn is_near(&self, vport: ViewPort, pos: ScreenPoint) -> (r: bool)
        requires
            self.guide.wf(),
            vport.wf(),
            pos.wf(),
        ensures
            r == line_near(
                self.guide,
                vport.to_design_spec(pos),
                vport.zoom_num as int,
                vport.zoom_den as int,
            ),
    {
        let d = vport.screen_to_design(pos);
        let zn: i128 = vport.zoom_num as i128;
        let tol: i128 = 10 * vport.zoom_den as i128;
        match self.guide {
            GuideLine::Horiz(p) => {
                let dist: i128 = if d.y >= p.y { d.y as i128 - p.y as i128 } else { p.y as i128 - d.y as i128 };
                assert(dist * zn <= 0x2000000 * 0x1000) by (nonlinear_arith)
                    requires 0 <= dist <= 0x2000000, 1 <= zn <= 0x1000;
                dist * zn <= tol
            },
            GuideLine::Vertical(p) => {
                let dist: i128 = if d.x >= p.x { d.x as i128 - p.x as i128 } else { p.x as i128 - d.x as i128 };
                assert(dist * zn <= 0x2000000 * 0x1000) by (nonlinear_arith)
                    requires 0 <= dist <= 0x2000000, 1 <= zn <= 0x1000;
                dist * zn <= tol
            },
            GuideLine::Angle { p1, p2 } => {
                let dx: i128 = p2.x as i128 - p1.x as i128;
                let dy: i128 = p2.y as i128 - p1.y as i128;
                let ex: i128 = d.x as i128 - p1.x as i128;
                let ey: i128 = d.y as i128 - p1.y as i128;
                assert(-0x4000000000000 <= dx * ey <= 0x4000000000000 && -0x4000000000000 <= dy * ex <= 0x4000000000000) by (nonlinear_arith)
                    requires -0x2000000 <= dx <= 0x2000000, -0x2000000 <= dy <= 0x2000000,
                        -0x2000000 <= ex <= 0x2000000, -0x2000000 <= ey <= 0x2000000;
                assert(0 <= dx * dx <= 0x4000000000000 && 0 <= dy * dy <= 0x4000000000000) by (nonlinear_arith)
                    requires -0x2000000 <= dx <= 0x2000000, -0x2000000 <= dy <= 0x2000000;
                assert(0 <= ex * ex <= 0x4000000000000 && 0 <= ey * ey <= 0x4000000000000) by (nonlinear_arith)
                    requires -0x2000000 <= ex <= 0x2000000, -0x2000000 <= ey <= 0x2000000;
                let cross: i128 = dx * ey - dy * ex;
                let len2: i128 = dx * dx + dy * dy;
                assert(1 <= zn * zn <= 0x1000000) by (nonlinear_arith) requires 1 <= zn <= 0x1000;
                assert(0 <= tol * tol <= 0x10000000000) by (nonlinear_arith) requires 0 <= tol <= 0x100000;
                if len2 == 0 {
                    let e2: i128 = ex * ex + ey * ey;
                    assert(e2 * (zn * zn) <= 0x8000000000000 * 0x1000000) by (nonlinear_arith)
                        requires 0 <= e2 <= 0x8000000000000, 1 <= zn * zn <= 0x1000000;
                    e2 * (zn * zn) <= tol * tol
                } else {
                    let ac: i128 = if cross < 0 { -cross } else { cross };
                    let l = integer_sqrt(len2 as u128);
                    proof {
                        crate::geom::lemma_isqrt_unique(len2 as nat, l as nat);
                    }
                    assert(ac * zn <= 0x8000000000000 * 0x1000) by (nonlinear_arith)
                        requires 0 <= ac <= 0x8000000000000, 1 <= zn <= 0x1000;
                    assert(tol * l <= 0x100000 * 0x40000000000) by (nonlinear_arith)
                        requires 0 <= tol <= 0x100000, 0 <= l < 0x40000000000;
                    ac * zn <= tol * l as i128
                }
            },
        }
    }
}

} // verus!
