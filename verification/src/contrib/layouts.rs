//! Additional layout functions.
use vstd::prelude::*;

use crate::wm::client::Client;
use crate::wm::data_types::{Region, ResizeAction};
use crate::wm::xconnection::Xid;

verus! {

/// The window IDs of `clients`, in order.
pub open spec fn ids_of(clients: Seq<&Client>) -> Seq<Xid> {
    clients.map_values(|c: &Client| c.id)
}

/// The region lies within the coordinate space.
pub open spec fn region_fits(r: Region) -> bool {
    r.x + r.w <= u32::MAX && r.y + r.h <= u32::MAX
}

/// The dwindle layout of windows `ids` over `region`: the last window takes the
/// first half of the region (its left half when splitting horizontally, its top
/// half otherwise) and the others are laid out over the second half, splitting the
/// other way. Once the region is narrower or shorter than `min_size` the first
/// window takes all of it and the others are not shown.
pub open spec fn dwindle_layout(ids: Seq<Xid>, region: Region, horizontal: bool, min_size: u32) -> Seq<ResizeAction>
    decreases ids.len(),
{
    if ids.len() > 1 {
        if region.w < min_size || region.h < min_size {
            Seq::new(
                ids.len(),
                |i: int|
                    if i == 0 {
                        (ids[i], Some(region))
                    } else {
                        (ids[i], None::<Region>)
                    },
            )
        } else if horizontal {
            let split = region.w / 2;
            let main = Region { w: split, ..region };
            let other = Region { x: (region.x + split) as u32, w: (region.w - split) as u32, ..region };
            dwindle_layout(ids.drop_last(), other, false, min_size).push((ids.last(), Some(main)))
        } else {
            let split = region.h / 2;
            let main = Region { h: split, ..region };
            let other = Region { y: (region.y + split) as u32, h: (region.h - split) as u32, ..region };
            dwindle_layout(ids.drop_last(), other, true, min_size).push((ids.last(), Some(main)))
        }
    } else if ids.len() == 1 {
        seq![(ids[0], Some(region))]
    } else {
        seq![]
    }
}

/// Whether the split at depth `d` of a dwindle layout that starts splitting
/// horizontally when `horizontal` is set is horizontal: the direction alternates.
pub open spec fn splits_horizontally(horizontal: bool, d: int) -> bool {
    if d % 2 == 0 {
        horizontal
    } else {
        !horizontal
    }
}

/// The dwindle layout gives each window an entry, in order.
pub proof fn lemma_dwindle_entries(ids: Seq<Xid>, region: Region, horizontal: bool, min_size: u32)
    ensures
        dwindle_layout(ids, region, horizontal, min_size).len() == ids.len(),
        forall|i: int| 0 <= i < ids.len() ==> #[trigger] dwindle_layout(ids, region, horizontal, min_size)[i].0 == ids[i],
    decreases ids.len(),
{
    if ids.len() > 1 && !(region.w < min_size || region.h < min_size) {
        let split_h = region.w / 2;
        let split_v = region.h / 2;
        let right = Region { x: (region.x + split_h) as u32, w: (region.w - split_h) as u32, ..region };
        let below = Region { y: (region.y + split_v) as u32, h: (region.h - split_v) as u32, ..region };
        lemma_dwindle_entries(ids.drop_last(), right, true, min_size);
        lemma_dwindle_entries(ids.drop_last(), right, false, min_size);
        lemma_dwindle_entries(ids.drop_last(), below, true, min_size);
        lemma_dwindle_entries(ids.drop_last(), below, false, min_size);
    }
}

/// The last entry of a dwindle layout, when shown, starts at the top left corner of
/// the region.
proof fn lemma_dwindle_last_corner(ids: Seq<Xid>, region: Region, horizontal: bool, min_size: u32)
    requires
        ids.len() >= 1,
        dwindle_layout(ids, region, horizontal, min_size).last().1 is Some,
    ensures
        dwindle_layout(ids, region, horizontal, min_size).last().1->0.x == region.x,
        dwindle_layout(ids, region, horizontal, min_size).last().1->0.y == region.y,
{
}

/// The splits of the dwindle layout alternate between horizontal and vertical: of two
/// neighbouring windows that are both shown, the later one in the order (which takes
/// the first part at split depth `d`, counting from the last window) lies directly
/// right of the earlier one's region (at its top) when the split at depth `d` is
/// horizontal, and directly below it (at its left) when it is vertical; the first
/// split is horizontal when `horizontal` is set.
pub proof fn lemma_dwindle_alternates(ids: Seq<Xid>, region: Region, horizontal: bool, min_size: u32, i: int)
    requires
        region_fits(region),
        0 <= i,
        i + 1 < ids.len(),
        dwindle_layout(ids, region, horizontal, min_size)[i].1 is Some,
        dwindle_layout(ids, region, horizontal, min_size)[i + 1].1 is Some,
    ensures
        ({
            let a = dwindle_layout(ids, region, horizontal, min_size)[i + 1].1->0;
            let b = dwindle_layout(ids, region, horizontal, min_size)[i].1->0;
            if splits_horizontally(horizontal, ids.len() - 2 - i) {
                b.x == a.x + a.w && b.y == a.y
            } else {
                b.y == a.y + a.h && b.x == a.x
            }
        }),
    decreases ids.len(),
{
    let l = dwindle_layout(ids, region, horizontal, min_size);
    if region.w < min_size || region.h < min_size {
        assert(l[i + 1].1 is None);
    } else {
        let split_h = region.w / 2;
        let split_v = region.h / 2;
        let other = if horizontal {
            Region { x: (region.x + split_h) as u32, w: (region.w - split_h) as u32, ..region }
        } else {
            Region { y: (region.y + split_v) as u32, h: (region.h - split_v) as u32, ..region }
        };
        let rest = ids.drop_last();
        let l2 = dwindle_layout(rest, other, !horizontal, min_size);
        lemma_dwindle_entries(rest, other, !horizontal, min_size);
        assert(l == l2.push(l[ids.len() - 1]));
        if i + 1 == ids.len() - 1 {
            assert(l[i] == l2.last());
            lemma_dwindle_last_corner(rest, other, !horizontal, min_size);
            assert(splits_horizontally(horizontal, 0) == horizontal);
        } else {
            assert(l[i] == l2[i]);
            assert(l[i + 1] == l2[i + 1]);
            lemma_dwindle_alternates(rest, other, !horizontal, min_size, i);
            let d = ids.len() - 2 - i;
            assert(rest.len() - 2 - i == d - 1);
            assert(splits_horizontally(!horizontal, d - 1) == splits_horizontally(horizontal, d));
        }
    }
}

/// Lay out the first `n` clients with the dwindle layout; see [dwindle_layout].
fn dwindle_prefix(clients: &[&Client], n: usize, region: &Region, horizontal: bool, min_size: u32) -> (r: Vec<
    ResizeAction,
>)
    requires
        n <= clients@.len(),
        region_fits(*region),
    ensures
        r@ == dwindle_layout(ids_of(clients@).take(n as int), *region, horizontal, min_size),
    decreases n,
{
    let ghost ids = ids_of(clients@).take(n as int);
    if n > 1 {
        if region.w < min_size || region.h < min_size {
            let mut out: Vec<ResizeAction> = Vec::new();
            let mut i: usize = 0;
            while i < n
                invariant
                    i <= n <= clients@.len(),
                    ids == ids_of(clients@).take(n as int),
                    out@.len() == i,
                    forall|j: int|
                        0 <= j < i ==> #[trigger] out@[j] == (if j == 0 {
                            (ids[j], Some(*region))
                        } else {
                            (ids[j], None::<Region>)
                        }),
                decreases n - i,
            {
                let c = clients[i];
                if i == 0 {
                    out.push((c.id, Some(*region)));
                } else {
                    out.push((c.id, None));
                }
                i = i + 1;
            }
            assert(out@ =~= dwindle_layout(ids, *region, horizontal, min_size));
            out
        } else {
            let (main, other) = if horizontal {
                let split = region.w / 2;
                (
                    Region { x: region.x, y: region.y, w: split, h: region.h },
                    Region { x: region.x + split, y: region.y, w: region.w - split, h: region.h },
                )
            } else {
                let split = region.h / 2;
                (
                    Region { x: region.x, y: region.y, w: region.w, h: split },
                    Region { x: region.x, y: region.y + split, w: region.w, h: region.h - split },
                )
            };
            let mut actions = dwindle_prefix(clients, n - 1, &other, !horizontal, min_size);
            let last = clients[n - 1];
            actions.push((last.id, Some(main)));
            proof {
                assert(ids.drop_last() == ids_of(clients@).take(n - 1));
                assert(ids.last() == last.id);
            }
            actions
        }
    } else if n == 1 {
        let first = clients[0];
        let mut out: Vec<ResizeAction> = Vec::new();
        out.push((first.id, Some(*region)));
        assert(out@ =~= seq![(ids[0], Some(*region))]);
        out
    } else {
        Vec::new()
    }
}

/// The dwindle layout of `clients` over `region`, starting with a horizontal split;
/// see [dwindle_layout].
pub fn dwindle_recurisive(clients: &[&Client], region: &Region, horizontal: bool, min_size: u32) -> (r: Vec<
    ResizeAction,
>)
    requires
        region_fits(*region),
    ensures
        r@ == dwindle_layout(ids_of(clients@), *region, horizontal, min_size),
{
    let r = dwindle_prefix(clients, clients.len(), region, horizontal, min_size);
    assert(ids_of(clients@).take(clients@.len() as int) == ids_of(clients@));
    r
}

/// The paper layout of windows `ids` over the region `r`, where the focused window
/// is `cw` wide: every window gets an equal step of the width that the focused one
/// leaves, and the focused window is laid over the others at its own step.
pub open spec fn paper_layout(ids: Seq<Xid>, focused: Xid, r: Region, cw: u32) -> Seq<ResizeAction> {
    let n = ids.len();
    if n == 1 {
        seq![(ids[0], Some(r))]
    } else {
        let step = (r.w - cw) / (n - 1);
        Seq::new(
            n,
            |i: int|
                if ids[i] == focused {
                    (ids[i], Some(Region { x: (r.x + i * step) as u32, y: r.y, w: cw, h: r.h }))
                } else {
                    let shift = if ids.take(i).contains(focused) {
                        cw - step
                    } else {
                        0
                    };
                    (ids[i], Some(Region { x: (r.x + i * step + shift) as u32, y: r.y, w: step as u32, h: r.h }))
                },
        )
    }
}

/// The paper layout lays the windows edge to edge across the region, in order, from
/// its left side and over its full height: the focused window is `cw` wide and every
/// other window gets the same share of the width that the focused one leaves.
pub proof fn lemma_paper_edge_to_edge(ids: Seq<Xid>, focused: Xid, r: Region, cw: u32, i: int)
    requires
        ids.len() >= 2,
        ids.len() <= u32::MAX,
        ids.no_duplicates(),
        ids.contains(focused),
        cw <= r.w,
        (r.w - cw) / (ids.len() - 1) <= cw,
        region_fits(r),
        0 <= i < ids.len(),
    ensures
        ({
            let l = paper_layout(ids, focused, r, cw);
            let c = l[i].1->0;
            &&& l.len() == ids.len()
            &&& l[i].0 == ids[i]
            &&& l[i].1 is Some
            &&& c.y == r.y && c.h == r.h
            &&& c.w == (if ids[i] == focused {
                cw as int
            } else {
                (r.w - cw) / (ids.len() - 1)
            })
            &&& i == 0 ==> c.x == r.x
            &&& i + 1 < ids.len() ==> l[i + 1].1->0.x == c.x + c.w
            &&& i + 1 == ids.len() ==> c.x + c.w <= r.x + r.w
        }),
{
    let n = ids.len();
    let step = (r.w - cw) / (n - 1);
    assert((n - 1) * step <= r.w - cw) by (nonlinear_arith)
        requires
            step == (r.w - cw) / (n - 1),
            n > 1,
            r.w >= cw,
    ;
    assert(0 <= i * step <= (n - 1) * step) by (nonlinear_arith)
        requires
            0 <= i < n,
            step >= 0,
    ;
    assert((i + 1) * step == i * step + step) by (nonlinear_arith);
    let f = choose|j: int| 0 <= j < n && ids[j] == focused;
    assert(forall|k: int| 0 <= k <= n ==> (#[trigger] ids.take(k).contains(focused) <==> f < k)) by {
        assert forall|k: int| 0 <= k <= n implies (#[trigger] ids.take(k).contains(focused) <==> f < k) by {
            if f < k {
                assert(ids.take(k)[f] == focused);
            }
            if ids.take(k).contains(focused) {
                let q = choose|q: int| 0 <= q < k && ids.take(k)[q] == focused;
                assert(ids[q] == ids[f]);
            }
        }
    }
    assert(ids.take(i).contains(focused) <==> f < i);
    assert(ids.take(i + 1).contains(focused) <==> f < i + 1);
    if i + 1 < n {
        assert((i + 1) * step <= (n - 1) * step) by (nonlinear_arith)
            requires
                i + 1 <= n - 1,
                step >= 0,
        ;
        assert(ids[i + 1] == focused ==> f == i + 1) by {
            if ids[i + 1] == focused {
                assert(ids[f] == ids[i + 1]);
            }
        }
        assert(ids[i] == focused ==> f == i) by {
            if ids[i] == focused {
                assert(ids[f] == ids[i]);
            }
        }
    } else {
        assert(ids[i] == focused ==> f == i) by {
            if ids[i] == focused {
                assert(ids[f] == ids[i]);
            }
        }
    }
}

/// A layout that mimics pieces of paper fanned out on a desk: the focused client is
/// `cw` wide and the others are stacked on top of one another to either side.
///
/// `cw` is the share of the monitor width that the focused client takes (at least
/// half of it); the share is a fraction and is worked out by the caller.
pub fn paper(clients: &[&Client], focused: Option<Xid>, monitor_region: &Region, cw: u32) -> (r: Vec<ResizeAction>)
    requires
        1 <= clients@.len() <= u32::MAX,
        clients@.len() > 1 ==> focused is Some,
        cw <= monitor_region.w,
        clients@.len() > 1 ==> (monitor_region.w - cw) / (clients@.len() - 1) <= cw,
        region_fits(*monitor_region),
    ensures
        r@ == paper_layout(ids_of(clients@), focused->0, *monitor_region, cw),
{
    let n = clients.len();
    let ghost ids = ids_of(clients@);
    if n == 1 {
        let mut out: Vec<ResizeAction> = Vec::new();
        out.push((clients[0].id, Some(*monitor_region)));
        assert(out@ =~= seq![(ids[0], Some(*monitor_region))]);
        return out;
    }
    let mx = monitor_region.x;
    let my = monitor_region.y;
    let mw = monitor_region.w;
    let mh = monitor_region.h;
    let step = (mw - cw) / ((n - 1) as u32);
    let fid = match focused {
        Some(f) => f,
        None => {
            proof {
                assert(false);
            }
            0
        },
    };
    proof {
        assert((n - 1) * step <= mw - cw) by (nonlinear_arith)
            requires
                step == (mw - cw) / ((n - 1) as int),
                n > 1,
                mw >= cw,
        ;
    }
    let mut after_focused = false;
    let mut out: Vec<ResizeAction> = Vec::new();
    let mut i: usize = 0;
    while i < n
        invariant
            1 < n == clients@.len() <= u32::MAX,
            ids == ids_of(clients@),
            fid == focused->0,
            mx == monitor_region.x,
            my == monitor_region.y,
            mw == monitor_region.w,
            mh == monitor_region.h,
            cw <= mw,
            mx + mw <= u32::MAX,
            step == (mw - cw) / ((n - 1) as int),
            (n - 1) * step <= mw - cw,
            step <= cw,
            i <= n,
            after_focused ==> i >= 1,
            after_focused == ids.take(i as int).contains(fid),
            out@.len() == i,
            forall|j: int| 0 <= j < i ==> #[trigger] out@[j] == paper_layout(ids, fid, *monitor_region, cw)[j],
        decreases n - i,
    {
        let c = clients[i];
        proof {
            assert(i * step <= (n - 1) * step) by (nonlinear_arith)
                requires
                    i < n,
                    step >= 0,
            ;
            if i >= 1 {
                assert((i - 1) * step == i * step - step) by (nonlinear_arith);
                assert((i - 1) * step <= (n - 2) * step) by (nonlinear_arith)
                    requires
                        i < n,
                        step >= 0,
                ;
                assert((n - 2) * step == (n - 1) * step - step) by (nonlinear_arith);
            }
            assert((i as u32) as int == i);
            assert(ids[i as int] == c.id);
        }
        let offset = (i as u32) * step;
        if c.id == fid {
            out.push((c.id, Some(Region { x: mx + offset, y: my, w: cw, h: mh })));
            proof {
                assert(ids.take(i + 1) == ids.take(i as int).push(c.id));
                assert(ids.take(i + 1).contains(fid)) by {
                    assert(ids.take(i + 1)[i as int] == fid);
                }
            }
            after_focused = true;
        } else {
            let mut x = mx + offset;
            if after_focused {
                x = x + (cw - step);
            }
            out.push((c.id, Some(Region { x, y: my, w: step, h: mh })));
            proof {
                assert(ids.take(i + 1) == ids.take(i as int).push(c.id));
                if ids.take(i + 1).contains(fid) {
                    let j = choose|j: int| 0 <= j < i + 1 && #[trigger] ids.take(i + 1)[j] == fid;
                    assert(j != i);
                    assert(ids.take(i as int)[j] == fid);
                }
            }
        }
        i = i + 1;
    }
    assert(out@ =~= paper_layout(ids, fid, *monitor_region, cw));
    out
}

} // verus!
