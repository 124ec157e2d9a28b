//! What holds of the arrangement of screens.
//!
//! Each law speaks of calls: of what goes into them and what comes out.

use super::{
    base_rect, count_at, greatest_x, greatest_y, last_where, least_x, least_y,
    lemma_screens_are_in_bounds, nearest_position, BaseRect, ScreenArrangement,
    ScreenArrangementView,
};
use crate::gui::window::{screen_views, ScreenItem, ScreenItemView};
use crate::ipc::{ClientHandle, Position};
use vstd::prelude::*;

verus! {

/// A point lies nearest to an edge of the axis along which it is further out.
pub proof fn lemma_nearest_edge(sideways: bool, right: bool, below: bool, p: Position)
    requires
        call_ensures(nearest_position, (sideways, right, below), p),
    ensures
        sideways && right ==> p == Position::Right,
        sideways && !right ==> p == Position::Left,
        !sideways && below ==> p == Position::Bottom,
        !sideways && !below ==> p == Position::Top,
{
}

/// This screen has the name it is given, or is called this device; naming it
/// draws it again where the name is another.
pub proof fn lemma_host_is_named(
    a: &mut ScreenArrangement,
    label: &str,
    redraw: bool,
    b: &ScreenArrangement,
    s: String,
)
    requires
        call_ensures(ScreenArrangement::set_host_label, (a, label), redraw),
        call_ensures(ScreenArrangement::host_label, (b,), s),
    ensures
        final(a)@ == (ScreenArrangementView { host_label: label@, ..old(a)@ }),
        redraw <==> old(a)@.host_label != label@,
        b@.host_label.len() == 0 ==> s@ == "This device"@,
        b@.host_label.len() > 0 ==> s@ == b@.host_label,
{
}

/// Other screens show as they are given; what is selected stays so where its
/// client is among them.
pub proof fn lemma_screens_are_shown(a: &mut ScreenArrangement, items: Vec<ScreenItem>, i: int)
    requires
        call_ensures(ScreenArrangement::set_items, (a, items), ()),
    ensures
        final(a)@ == (ScreenArrangementView {
            items: screen_views(items@),
            selected: final(a)@.selected,
            ..old(a)@
        }),
        old(a)@.selected is None ==> final(a)@.selected is None,
        0 <= i < items@.len() && old(a)@.selected == Some(items@[i].handle) ==> final(a)@.selected
            == old(a)@.selected,
        (forall|k: int|
            0 <= k < items@.len() ==> Some((#[trigger] items@[k]).handle) != old(a)@.selected)
            ==> final(a)@.selected is None,
{
    let v = screen_views(items@);
    if 0 <= i < items@.len() {
        assert(v[i] == items@[i]@);
    }
    if old(a)@.selected is Some && super::has_handle(v, old(a)@.selected->0) {
        let k = choose|k: int|
            0 <= k < v.len() && (#[trigger] v[k]).handle == old(a)@.selected->0;
        assert(v[k] == items@[k]@);
        assert(items@[k].handle == old(a)@.selected->0);
    }
}

/// A screen is on top: it is dragged, or its client is selected.
pub open spec fn raised(v: ScreenArrangementView, dragging: Option<usize>, i: int) -> bool {
    dragging == Some(i as usize) || v.selected == Some(v.items[i].handle)
}

/// A layer holds just its own screens, in order.
proof fn lemma_layer(v: ScreenArrangementView, n: nat, dragging: Option<usize>, top: bool)
    requires
        n <= v.items.len() <= usize::MAX,
    ensures
        ({
            let l = v.layer(n, dragging, top);
            &&& forall|k: int|
                0 <= k < l.len() ==> (#[trigger] l[k]) < n && raised(v, dragging, l[k] as int)
                    == top
            &&& forall|a: int, b: int| 0 <= a < b < l.len() ==> l[a] < l[b]
            &&& forall|i: int|
                0 <= i < n && #[trigger] raised(v, dragging, i) == top ==> l.contains(i as usize)
        }),
    decreases n,
{
    if n > 0 {
        let m = (n - 1) as nat;
        lemma_layer(v, m, dragging, top);
        let l = v.layer(m, dragging, top);
        let all = v.layer(n, dragging, top);
        assert(v.on_top(m as int, dragging) == raised(v, dragging, m as int));
        assert forall|i: int|
            0 <= i < n && #[trigger] raised(v, dragging, i) == top implies all.contains(
            i as usize,
        ) by {
            if i < m {
                let k = l.index_of(i as usize);
                assert(l.contains(i as usize));
                assert(all[k] == i as usize);
            } else {
                assert(all[all.len() - 1] == i as usize);
            }
        }
    }
}

/// Every screen is drawn once; those on top come behind all others, and in
/// each layer they come in order.
pub proof fn lemma_drawing_order(a: &ScreenArrangement, r: Vec<usize>, i: int, j: int)
    requires
        a@.items.len() <= usize::MAX,
        call_ensures(ScreenArrangement::draw_order, (a,), r),
    ensures
        0 <= i < a@.items.len() ==> r@.contains(i as usize),
        0 <= i < r@.len() ==> r@[i] < a@.items.len(),
        0 <= i < j < r@.len() ==> {
            let x = raised(a@, a@.dragging, r@[i] as int);
            let y = raised(a@, a@.dragging, r@[j] as int);
            (!x && y) || (x == y && r@[i] < r@[j])
        },
{
    lemma_order(a@, a@.dragging, i, j);
}

/// The order of screens.
proof fn lemma_order(v: ScreenArrangementView, dragging: Option<usize>, i: int, j: int)
    requires
        v.items.len() <= usize::MAX,
    ensures
        ({
            let r = v.order(dragging);
            &&& 0 <= i < v.items.len() ==> r.contains(i as usize)
            &&& 0 <= i < r.len() ==> r[i] < v.items.len()
            &&& 0 <= i < j < r.len() ==> {
                let x = raised(v, dragging, r[i] as int);
                let y = raised(v, dragging, r[j] as int);
                (!x && y) || (x == y && r[i] < r[j])
            }
        }),
{
    let n = v.items.len();
    lemma_layer(v, n, dragging, false);
    lemma_layer(v, n, dragging, true);
    let low = v.layer(n, dragging, false);
    let top = v.layer(n, dragging, true);
    let r = v.order(dragging);
    if 0 <= i < n {
        if raised(v, dragging, i) {
            assert(top.contains(i as usize));
            let k = top.index_of(i as usize);
            assert(r[low.len() + k] == i as usize);
        } else {
            assert(low.contains(i as usize));
            let k = low.index_of(i as usize);
            assert(r[k] == i as usize);
        }
    }
    if 0 <= i < r.len() {
        if i < low.len() {
            assert(r[i] == low[i]);
        } else {
            assert(r[i] == top[i - low.len()]);
        }
    }
    if 0 <= j < r.len() {
        if j < low.len() {
            assert(r[j] == low[j]);
        } else {
            assert(r[j] == top[j - low.len()]);
        }
    }
}

/// The last of a list whose flag is set is behind all others whose is.
proof fn lemma_last_where(order: Seq<usize>, flags: Seq<bool>)
    ensures
        match last_where(order, flags) {
            Some(k) => exists|i: int|
                0 <= i < order.len() && #[trigger] order[i] == k && k < flags.len()
                    && flags[k as int] && forall|j: int|
                    i < j < order.len() ==> !((#[trigger] order[j]) < flags.len()
                        && flags[order[j] as int]),
            None => forall|j: int|
                0 <= j < order.len() ==> !((#[trigger] order[j]) < flags.len()
                    && flags[order[j] as int]),
        },
    decreases order.len(),
{
    if order.len() > 0 {
        let n = (order.len() - 1) as int;
        assert(order[n] == order.last());
        if !(order.last() < flags.len() && flags[order.last() as int]) {
            let init = order.drop_last();
            lemma_last_where(init, flags);
            if let Some(k) = last_where(init, flags) {
                let i = choose|i: int|
                    0 <= i < init.len() && #[trigger] init[i] == k && k < flags.len()
                        && flags[k as int] && forall|j: int|
                        i < j < init.len() ==> !((#[trigger] init[j]) < flags.len()
                            && flags[init[j] as int]);
                assert(order[i] == k);
                assert forall|j: int| i < j < order.len() implies !((#[trigger] order[j])
                    < flags.len() && flags[order[j] as int]) by {
                    if j < n {
                        assert(init[j] == order[j]);
                    }
                }
            } else {
                assert forall|j: int| 0 <= j < order.len() implies !((#[trigger] order[j])
                    < flags.len() && flags[order[j] as int]) by {
                    if j < n {
                        assert(init[j] == order[j]);
                    }
                }
            }
        }
    }
}

/// The pointer is over the uppermost of the screens that contain it: over the
/// selected one where it is among them, and otherwise over the last.
pub proof fn lemma_pointer_is_over_the_uppermost(
    a: &ScreenArrangement,
    contains: &Vec<bool>,
    r: Option<usize>,
    j: int,
)
    requires
        a@.items.len() <= usize::MAX,
        call_ensures(ScreenArrangement::hit_test, (a, contains), r),
    ensures
        r matches Some(k) ==> k < a@.items.len() && k < contains@.len() && contains@[k as int],
        r is None && 0 <= j < a@.items.len() && j < contains@.len() ==> !contains@[j],
        r is Some && 0 <= j < a@.items.len() && j < contains@.len() && contains@[j] ==> {
            let x = a@.selected == Some(a@.items[j].handle);
            let y = a@.selected == Some(a@.items[r->0 as int].handle);
            (!x && y) || (x == y && j <= r->0)
        },
{
    let v = a@;
    let order = v.order(None);
    lemma_last_where(order, contains@);
    if let Some(k) = r {
        let i = choose|i: int|
            0 <= i < order.len() && #[trigger] order[i] == k && k < contains@.len()
                && contains@[k as int] && forall|j: int|
                i < j < order.len() ==> !((#[trigger] order[j]) < contains@.len()
                    && contains@[order[j] as int]);
        lemma_order(v, None, i, i);
        if 0 <= j < v.items.len() && j < contains@.len() && contains@[j] {
            lemma_order(v, None, j, j);
            let m = order.index_of(j as usize);
            assert(order[m] == j as usize);
            assert(!(i < m));
            lemma_order(v, None, m, i);
        }
    } else if 0 <= j < v.items.len() && j < contains@.len() {
        lemma_order(v, None, j, j);
        let m = order.index_of(j as usize);
        assert(order[m] == j as usize);
    }
}

/// A drag begins at the screen under the pointer, which is selected; where
/// there is none, nothing is dragged and the selection stays.
pub proof fn lemma_drag_begins(a: &mut ScreenArrangement, hit: Option<usize>)
    requires
        hit matches Some(i) ==> i < old(a)@.items.len(),
        call_ensures(ScreenArrangement::on_drag_begin, (a, hit), ()),
    ensures
        final(a)@ == (ScreenArrangementView {
            dragging: hit,
            drop_position: None,
            selected: match hit {
                Some(i) => Some(old(a)@.items[i as int].handle),
                None => old(a)@.selected,
            },
            ..old(a)@
        }),
{
}

/// A screen that is dragged would be dropped at the nearest edge; where none is
/// dragged nothing happens.
pub proof fn lemma_drag_goes_on(a: &mut ScreenArrangement, nearest: Position)
    requires
        call_ensures(ScreenArrangement::on_drag_update, (a, nearest), ()),
    ensures
        old(a)@.dragging is Some ==> final(a)@ == (ScreenArrangementView {
            drop_position: Some(nearest),
            ..old(a)@
        }),
        old(a)@.dragging is None ==> final(a)@ == old(a)@,
{
}

/// A screen that was dragged far enough lies at the edge that it was dropped
/// at, and its client is told to move where that is another; no other screen
/// moves.
pub proof fn lemma_screen_is_dropped(
    a: &mut ScreenArrangement,
    i: usize,
    p: Position,
    hit: Option<usize>,
    moved: Option<(ClientHandle, Position)>,
)
    requires
        old(a)@.dragging == Some(i),
        i < old(a)@.items.len(),
        old(a)@.drop_position == Some(p),
        call_ensures(ScreenArrangement::on_drag_end, (a, true, hit), moved),
    ensures
        ({
            let v = old(a)@;
            let item = v.items[i as int];
            &&& final(a)@ == (ScreenArrangementView {
                items: v.items.update(i as int, ScreenItemView { position: p, ..item }),
                dragging: None,
                drop_position: None,
                hovered: hit,
                ..v
            })
            &&& item.position != p ==> moved == Some((item.handle, p))
            &&& item.position == p ==> moved is None
        }),
{
}

/// A drag that did not go far, or over no edge, moves no screen; where none was
/// dragged nothing happens at all.
pub proof fn lemma_nothing_is_dropped(
    a: &mut ScreenArrangement,
    far: bool,
    hit: Option<usize>,
    moved: Option<(ClientHandle, Position)>,
)
    requires
        !far || old(a)@.drop_position is None || old(a)@.dragging is None,
        call_ensures(ScreenArrangement::on_drag_end, (a, far, hit), moved),
    ensures
        moved is None,
        old(a)@.dragging is None ==> final(a)@ == old(a)@,
        old(a)@.dragging is Some ==> final(a)@ == (ScreenArrangementView {
            dragging: None,
            drop_position: None,
            hovered: hit,
            ..old(a)@
        }),
{
}

/// The screen under the pointer is marked while nothing is dragged, and no
/// more once the pointer leaves.
pub proof fn lemma_pointer_moves(
    a: &mut ScreenArrangement,
    hit: Option<usize>,
    redraw: bool,
    b: &mut ScreenArrangement,
)
    requires
        call_ensures(ScreenArrangement::on_motion, (a, hit), redraw),
        call_ensures(ScreenArrangement::on_leave, (b,), ()),
    ensures
        old(a)@.dragging is Some ==> final(a)@ == old(a)@ && !redraw,
        old(a)@.dragging is None ==> final(a)@ == (ScreenArrangementView {
            hovered: hit,
            ..old(a)@
        }) && redraw == (old(a)@.hovered != hit),
        old(b)@.dragging is Some ==> final(b)@ == old(b)@,
        old(b)@.dragging is None ==> final(b)@ == (ScreenArrangementView {
            hovered: None,
            ..old(b)@
        }),
{
}

/// A screen is named after its client, or where it has no name, after where it
/// lies.
pub proof fn lemma_screens_are_named(a: &ScreenArrangement, i: usize, s: String)
    requires
        i < a@.items.len(),
        call_ensures(ScreenArrangement::label, (a, i), s),
    ensures
        ({
            let item = a@.items[i as int];
            let named = item.hostname is Some && item.hostname->0.len() > 0;
            &&& named ==> s@ == item.hostname->0
            &&& !named && item.position == Position::Left ==> s@ == "client @ "@ + "left"@
            &&& !named && item.position == Position::Right ==> s@ == "client @ "@ + "right"@
            &&& !named && item.position == Position::Top ==> s@ == "client @ "@ + "top"@
            &&& !named && item.position == Position::Bottom ==> s@ == "client @ "@ + "bottom"@
        }),
{
}

/// The screens at an edge.
pub open spec fn at_edge(items: Seq<ScreenItemView>, pos: Position) -> Seq<ScreenItemView> {
    items.filter(|s: ScreenItemView| s.position == pos)
}

/// The screens at an edge are counted.
proof fn lemma_counted(items: Seq<ScreenItemView>, n: nat, pos: Position)
    requires
        n <= items.len(),
    ensures
        count_at(items, n, pos) == at_edge(items.take(n as int), pos).len(),
    decreases n,
{
    reveal(Seq::filter);
    if n > 0 {
        let m = (n - 1) as nat;
        lemma_counted(items, m, pos);
        assert(items.take(n as int).drop_last() =~= items.take(m as int));
        assert(items.take(n as int).last() == items[m as int]);
    } else {
        assert(items.take(0) =~= seq![]);
    }
}

/// Screens lie beside this one, 32 apart from it; those at one edge are
/// 12 apart from each other, in order, and spread evenly around its middle.
pub proof fn lemma_where_screens_lie(a: &ScreenArrangement, i: usize, r: BaseRect)
    requires
        i < a@.items.len(),
        call_ensures(ScreenArrangement::base_rect, (a, i), r),
    ensures
        ({
            let items = a@.items;
            let pos = items[i as int].position;
            let before = at_edge(items.take(i as int), pos).len() as int;
            let all = at_edge(items, pos).len() as int;
            let shift = 12 * before - 6 * (all - 1);
            &&& r.position == pos
            &&& pos == Position::Left ==> r.x == -(58 + 32 + 100) && r.y == -32 + shift
            &&& pos == Position::Right ==> r.x == 58 + 32 && r.y == -32 + shift
            &&& pos == Position::Top ==> r.y == -(37 + 32 + 64) && r.x == -50 + shift
            &&& pos == Position::Bottom ==> r.y == 37 + 32 && r.x == -50 + shift
        }),
{
    let items = a@.items;
    let pos = items[i as int].position;
    lemma_counted(items, i as nat, pos);
    lemma_counted(items, items.len(), pos);
    assert(items.take(items.len() as int) =~= items);
}

/// The box holds all screens, and every place beside this one.
pub proof fn lemma_box_holds_all(a: &ScreenArrangement, r: (i128, i128, i128, i128), i: usize, s: BaseRect)
    requires
        call_ensures(ScreenArrangement::bounds, (a,), r),
        i < a@.items.len(),
        call_ensures(ScreenArrangement::base_rect, (a, i), s),
    ensures
        r.0 <= s.x && s.x + 100 <= r.1,
        r.2 <= s.y && s.y + 64 <= r.3,
        r.0 <= -190 && 190 <= r.1,
        r.2 <= -133 && 133 <= r.3,
{
    lemma_screens_are_in_bounds(a@.items, a@.items.len(), i as int);
    lemma_box_is_tight(a@.items, a@.items.len());
}

/// The box is no larger than it has to be: each of its sides is that of a
/// screen, or of a place beside this one.
pub proof fn lemma_box_is_small(a: &ScreenArrangement, r: (i128, i128, i128, i128))
    requires
        call_ensures(ScreenArrangement::bounds, (a,), r),
    ensures
        r.0 == -190 || exists|i: int|
            0 <= i < a@.items.len() && (#[trigger] base_rect(a@.items, i)).1 == r.0,
        r.1 == 190 || exists|i: int|
            0 <= i < a@.items.len() && (#[trigger] base_rect(a@.items, i)).1 + 100 == r.1,
        r.2 == -133 || exists|i: int|
            0 <= i < a@.items.len() && (#[trigger] base_rect(a@.items, i)).2 == r.2,
        r.3 == 133 || exists|i: int|
            0 <= i < a@.items.len() && (#[trigger] base_rect(a@.items, i)).2 + 64 == r.3,
{
    lemma_box_is_tight(a@.items, a@.items.len());
}

/// Each side of the box is that of something.
proof fn lemma_box_is_tight(items: Seq<ScreenItemView>, n: nat)
    requires
        n <= items.len(),
    ensures
        least_x(items, n) <= -190,
        greatest_x(items, n) >= 190,
        least_y(items, n) <= -133,
        greatest_y(items, n) >= 133,
        least_x(items, n) == -190 || exists|i: int|
            0 <= i < n && (#[trigger] base_rect(items, i)).1 == least_x(items, n),
        greatest_x(items, n) == 190 || exists|i: int|
            0 <= i < n && (#[trigger] base_rect(items, i)).1 + 100 == greatest_x(items, n),
        least_y(items, n) == -133 || exists|i: int|
            0 <= i < n && (#[trigger] base_rect(items, i)).2 == least_y(items, n),
        greatest_y(items, n) == 133 || exists|i: int|
            0 <= i < n && (#[trigger] base_rect(items, i)).2 + 64 == greatest_y(items, n),
    decreases n,
{
    if n > 0 {
        lemma_box_is_tight(items, (n - 1) as nat);
        let b = base_rect(items, n - 1);
    }
}

/// What is read of an arrangement is what it is, and at first there is no
/// screen but this one.
pub proof fn lemma_arrangement_is_read(
    new: ScreenArrangement,
    a: &ScreenArrangement,
    items: &Vec<ScreenItem>,
    selected: Option<ClientHandle>,
    hovered: Option<usize>,
    dragging: Option<usize>,
    drop: Option<Position>,
)
    requires
        call_ensures(ScreenArrangement::new, (), new),
        call_ensures(ScreenArrangement::items, (a,), items),
        call_ensures(ScreenArrangement::selected, (a,), selected),
        call_ensures(ScreenArrangement::hovered, (a,), hovered),
        call_ensures(ScreenArrangement::dragging, (a,), dragging),
        call_ensures(ScreenArrangement::drop_position, (a,), drop),
    ensures
        new@.items.len() == 0,
        new@.host_label.len() == 0,
        new@.dragging is None && new@.drop_position is None,
        new@.selected is None && new@.hovered is None,
        screen_views(items@) == a@.items,
        selected == a@.selected,
        hovered == a@.hovered,
        dragging == a@.dragging,
        drop == a@.drop_position,
{
}

} // verus!
