//! The arrangement of screens around this one: who lies where, what is
//! selected and dragged. Scaling to the canvas is left to the drawing code.

pub mod laws;

use super::window::{screen_views, ScreenItem, ScreenItemView};
use crate::ipc::{position_text, ClientHandle, Position};
use crate::text::{concat2, same};
use vstd::prelude::*;
use vstd::string::StrSliceExecFns;

verus! {

/// Width of this screen, before scaling.
pub const HOST_W: i128 = 116;

/// Height of this screen, before scaling.
pub const HOST_H: i128 = 74;

/// Width of another screen, before scaling.
pub const SAT_W: i128 = 100;

/// Height of another screen, before scaling.
pub const SAT_H: i128 = 64;

/// Space between this screen and the others.
pub const GAP: i128 = 32;

/// How far screens at the same edge are apart. Only one of them is active.
pub const STACK_OFFSET: i128 = 12;

/// The edge that a point lies nearest to: that of the axis along which it is
/// further from the center. `sideways` tells whether that is the horizontal
/// one, `right` and `below` on which side of the center the point lies.
pub fn nearest_position(sideways: bool, right: bool, below: bool) -> (p: Position)
    ensures
        p == if sideways {
            if right {
                Position::Right
            } else {
                Position::Left
            }
        } else if below {
            Position::Bottom
        } else {
            Position::Top
        },
{
    if sideways {
        if right {
            Position::Right
        } else {
            Position::Left
        }
    } else if below {
        Position::Bottom
    } else {
        Position::Top
    }
}

/// How many of the first `n` screens lie at an edge.
pub open spec fn count_at(items: Seq<ScreenItemView>, n: nat, pos: Position) -> nat
    decreases n,
{
    if n == 0 {
        0
    } else {
        count_at(items, (n - 1) as nat, pos) + if items[n - 1].position == pos {
            1nat
        } else {
            0nat
        }
    }
}

/// There are never more at an edge than there are.
proof fn lemma_count_bound(items: Seq<ScreenItemView>, n: nat, pos: Position)
    ensures
        count_at(items, n, pos) <= n,
    decreases n,
{
    if n > 0 {
        lemma_count_bound(items, (n - 1) as nat, pos);
    }
}

/// A screen before scaling: its upper left corner, around the center of this
/// screen.
#[derive(Clone, Copy, Debug, PartialEq, Eq, Structural)]
pub struct BaseRect {
    pub position: Position,
    pub x: i128,
    pub y: i128,
}

/// How far a screen is moved along its edge, so that those at the same edge
/// spread evenly around its middle.
pub open spec fn stack_shift(items: Seq<ScreenItemView>, i: int) -> int {
    let pos = items[i].position;
    STACK_OFFSET * count_at(items, i as nat, pos) - (STACK_OFFSET / 2) * (count_at(
        items,
        items.len(),
        pos,
    ) - 1)
}

/// Where a screen lies before scaling.
pub open spec fn base_rect(items: Seq<ScreenItemView>, i: int) -> (Position, int, int) {
    let shift = stack_shift(items, i);
    match items[i].position {
        Position::Left => (
            Position::Left,
            -(HOST_W / 2) - GAP - SAT_W,
            -(SAT_H / 2) + shift,
        ),
        Position::Right => (Position::Right, HOST_W / 2 + GAP as int, -(SAT_H / 2) + shift),
        Position::Top => (Position::Top, -(SAT_W / 2) + shift, -(HOST_H / 2) - GAP - SAT_H),
        Position::Bottom => (Position::Bottom, -(SAT_W / 2) + shift, HOST_H / 2 + GAP as int),
    }
}

/// The least x among the places around this screen and the first `n` screens.
pub open spec fn least_x(items: Seq<ScreenItemView>, n: nat) -> int
    decreases n,
{
    if n == 0 {
        -(HOST_W / 2) - GAP - SAT_W
    } else {
        let rest = least_x(items, (n - 1) as nat);
        let x = base_rect(items, n - 1).1;
        if x < rest {
            x
        } else {
            rest
        }
    }
}

/// The greatest x among the places around this screen and the first `n`
/// screens.
pub open spec fn greatest_x(items: Seq<ScreenItemView>, n: nat) -> int
    decreases n,
{
    if n == 0 {
        HOST_W / 2 + GAP + SAT_W
    } else {
        let rest = greatest_x(items, (n - 1) as nat);
        let x = base_rect(items, n - 1).1 + SAT_W;
        if x > rest {
            x
        } else {
            rest
        }
    }
}

/// The least y among the places around this screen and the first `n` screens.
pub open spec fn least_y(items: Seq<ScreenItemView>, n: nat) -> int
    decreases n,
{
    if n == 0 {
        -(HOST_H / 2) - GAP - SAT_H
    } else {
        let rest = least_y(items, (n - 1) as nat);
        let y = base_rect(items, n - 1).2;
        if y < rest {
            y
        } else {
            rest
        }
    }
}

/// The greatest y among the places around this screen and the first `n`
/// screens.
pub open spec fn greatest_y(items: Seq<ScreenItemView>, n: nat) -> int
    decreases n,
{
    if n == 0 {
        HOST_H / 2 + GAP + SAT_H
    } else {
        let rest = greatest_y(items, (n - 1) as nat);
        let y = base_rect(items, n - 1).2 + SAT_H;
        if y > rest {
            y
        } else {
            rest
        }
    }
}

/// The box that holds all screens and places.
pub open spec fn is_bound(
    items: Seq<ScreenItemView>,
    min_x: int,
    max_x: int,
    min_y: int,
    max_y: int,
) -> bool {
    &&& min_x == least_x(items, items.len())
    &&& max_x == greatest_x(items, items.len())
    &&& min_y == least_y(items, items.len())
    &&& max_y == greatest_y(items, items.len())
}

/// Every screen lies inside the box.
pub proof fn lemma_screens_are_in_bounds(items: Seq<ScreenItemView>, n: nat, i: int)
    requires
        0 <= i < n <= items.len(),
    ensures
        least_x(items, n) <= base_rect(items, i).1,
        base_rect(items, i).1 + SAT_W <= greatest_x(items, n),
        least_y(items, n) <= base_rect(items, i).2,
        base_rect(items, i).2 + SAT_H <= greatest_y(items, n),
    decreases n,
{
    if i < n - 1 {
        lemma_screens_are_in_bounds(items, (n - 1) as nat, i);
    }
}

/// The screens of an arrangement.
pub struct ScreenArrangementView {
    pub items: Seq<ScreenItemView>,
    /// the name of this screen
    pub host_label: Seq<char>,
    /// the screen that is dragged
    pub dragging: Option<usize>,
    /// the edge that it would be dropped at
    pub drop_position: Option<Position>,
    /// the client whose screen is selected
    pub selected: Option<ClientHandle>,
    /// the screen under the pointer
    pub hovered: Option<usize>,
}

impl ScreenArrangementView {
    /// A screen is drawn above the others.
    pub open spec fn on_top(self, i: int, dragging: Option<usize>) -> bool {
        dragging == Some(i as usize) || (self.selected is Some && self.selected == Some(
            self.items[i].handle,
        ))
    }

    /// The screens below in order, and above them those on top in order.
    pub open spec fn order(self, dragging: Option<usize>) -> Seq<usize> {
        self.layer(self.items.len(), dragging, false) + self.layer(
            self.items.len(),
            dragging,
            true,
        )
    }

    /// The screens of one layer among the first `n`.
    pub open spec fn layer(self, n: nat, dragging: Option<usize>, top: bool) -> Seq<usize>
        decreases n,
    {
        if n == 0 {
            seq![]
        } else if self.on_top(n - 1, dragging) == top {
            self.layer((n - 1) as nat, dragging, top).push((n - 1) as usize)
        } else {
            self.layer((n - 1) as nat, dragging, top)
        }
    }

    /// The screen that a pointer is over: the uppermost of those that contain
    /// it.
    pub open spec fn hit(self, contains: Seq<bool>) -> Option<usize> {
        last_where(self.order(None), contains)
    }

    /// Other screens. A selection that is not among them is lost.
    pub open spec fn set_items(self, items: Seq<ScreenItemView>) -> ScreenArrangementView {
        ScreenArrangementView {
            items,
            selected: match self.selected {
                Some(h) if has_handle(items, h) => Some(h),
                _ => None,
            },
            ..self
        }
    }

    /// A drag begins, at a screen or beside them.
    pub open spec fn drag_begin(self, hit: Option<usize>) -> ScreenArrangementView {
        ScreenArrangementView {
            dragging: hit,
            drop_position: None,
            selected: match hit {
                Some(i) if i < self.items.len() => Some(self.items[i as int].handle),
                _ => self.selected,
            },
            ..self
        }
    }

    /// A screen is dragged along.
    pub open spec fn drag_update(self, nearest: Position) -> ScreenArrangementView {
        if self.dragging is None {
            self
        } else {
            ScreenArrangementView { drop_position: Some(nearest), ..self }
        }
    }

    /// A drag ends. A screen that was moved far enough lies at the edge it
    /// was dropped at.
    pub open spec fn drag_end(self, far: bool, hit: Option<usize>) -> ScreenArrangementView {
        match self.dragging {
            None => self,
            Some(i) => ScreenArrangementView {
                dragging: None,
                drop_position: None,
                hovered: hit,
                items: match self.drop_position {
                    Some(p) if far && i < self.items.len() => self.items.update(
                        i as int,
                        ScreenItemView { position: p, ..self.items[i as int] },
                    ),
                    _ => self.items,
                },
                ..self
            },
        }
    }

    /// The client that a drag moved, and where to.
    pub open spec fn moved(self, far: bool) -> Option<(ClientHandle, Position)> {
        match (self.dragging, self.drop_position) {
            (Some(i), Some(p)) => if far && i < self.items.len() && self.items[i as int].position
                != p {
                Some((self.items[i as int].handle, p))
            } else {
                None
            },
            _ => None,
        }
    }
}

/// A screen of a client is among those of a list.
pub open spec fn has_handle(items: Seq<ScreenItemView>, h: ClientHandle) -> bool {
    exists|i: int| 0 <= i < items.len() && (#[trigger] items[i]).handle == h
}

/// The last of a list whose flag is set.
pub open spec fn last_where(order: Seq<usize>, flags: Seq<bool>) -> Option<usize>
    decreases order.len(),
{
    if order.len() == 0 {
        None
    } else if order.last() < flags.len() && flags[order.last() as int] {
        Some(order.last())
    } else {
        last_where(order.drop_last(), flags)
    }
}

/// The name of a screen: the client's host name, or where it lies.
pub open spec fn screen_label(i: ScreenItemView) -> Seq<char> {
    match i.hostname {
        Some(n) if n.len() > 0 => n,
        _ => "client @ "@ + position_text(i.position),
    }
}

/// The screens around this one.
pub struct ScreenArrangement {
    items: Vec<ScreenItem>,
    host_label: String,
    dragging: Option<usize>,
    drop_position: Option<Position>,
    selected: Option<ClientHandle>,
    hovered: Option<usize>,
}

impl View for ScreenArrangement {
    type V = ScreenArrangementView;

    closed spec fn view(&self) -> ScreenArrangementView {
        ScreenArrangementView {
            items: screen_views(self.items@),
            host_label: self.host_label@,
            dragging: self.dragging,
            drop_position: self.drop_position,
            selected: self.selected,
            hovered: self.hovered,
        }
    }
}

impl ScreenArrangement {
    /// No screen but this one.
    pub fn new() -> (a: ScreenArrangement)
        ensures
            a@ == (ScreenArrangementView {
                items: seq![],
                host_label: seq![],
                dragging: None,
                drop_position: None,
                selected: None,
                hovered: None,
            }),
    {
        let a = ScreenArrangement {
            items: Vec::new(),
            host_label: String::new(),
            dragging: None,
            drop_position: None,
            selected: None,
            hovered: None,
        };
        assert(a@.items =~= seq![]);
        assert(a@.host_label =~= seq![]);
        a
    }

    /// Names this screen. Tells whether it has to be drawn again.
    pub fn set_host_label(&mut self, label: &str) -> (redraw: bool)
        ensures
            redraw == (old(self)@.host_label != label@),
            final(self)@ == (ScreenArrangementView { host_label: label@, ..old(self)@ }),
    {
        if same(self.host_label.as_str(), label) {
            false
        } else {
            self.host_label = label.to_owned();
            true
        }
    }

    /// The name of this screen.
    pub fn host_label(&self) -> (s: String)
        ensures
            s@ == if self@.host_label.len() == 0 {
                "This device"@
            } else {
                self@.host_label
            },
    {
        if self.host_label.as_str().unicode_len() == 0 {
            "This device".to_owned()
        } else {
            self.host_label.clone()
        }
    }

    /// Shows other screens.
    pub fn set_items(&mut self, items: Vec<ScreenItem>)
        ensures
            final(self)@ == old(self)@.set_items(screen_views(items@)),
    {
        let ghost views = screen_views(items@);
        if let Some(h) = self.selected {
            let mut found: bool = false;
            let mut i: usize = 0;
            while i < items.len()
                invariant
                    i <= items@.len(),
                    views == screen_views(items@),
                    found == exists|k: int| 0 <= k < i && (#[trigger] views[k]).handle == h,
                decreases items@.len() - i,
            {
                assert(views[i as int].handle == items@[i as int].handle);
                if items[i].handle == h {
                    found = true;
                }
                i = i + 1;
            }
            assert(found == has_handle(views, h));
            if !found {
                self.selected = None;
            }
        }
        self.items = items;
    }

    /// The screens in the order they are drawn: those that are selected or
    /// dragged come last, above the others.
    pub fn draw_order(&self) -> (r: Vec<usize>)
        ensures
            r@ == self@.order(self@.dragging),
    {
        self.ordered(self.dragging)
    }

    /// The screens of one layer.
    fn layer(&self, dragging: Option<usize>, top: bool) -> (r: Vec<usize>)
        ensures
            r@ == self@.layer(self@.items.len(), dragging, top),
    {
        let mut r: Vec<usize> = Vec::new();
        let mut i: usize = 0;
        assert(r@ =~= self@.layer(0, dragging, top));
        while i < self.items.len()
            invariant
                i <= self.items@.len(),
                r@ == self@.layer(i as nat, dragging, top),
            decreases self.items@.len() - i,
        {
            let dragged: bool = match dragging {
                Some(d) => d == i,
                None => false,
            };
            let chosen: bool = match self.selected {
                Some(h) => h == self.items[i].handle,
                None => false,
            };
            assert(self@.items[i as int].handle == self.items@[i as int].handle);
            if (dragged || chosen) == top {
                r.push(i);
            }
            i = i + 1;
        }
        r
    }

    /// The screens below in order, and above them those on top.
    fn ordered(&self, dragging: Option<usize>) -> (r: Vec<usize>)
        ensures
            r@ == self@.order(dragging),
    {
        let mut r = self.layer(dragging, false);
        let mut top = self.layer(dragging, true);
        r.append(&mut top);
        r
    }

    /// The screen that a pointer is over. `contains` tells of each screen
    /// whether it contains the pointer.
    pub fn hit_test(&self, contains: &Vec<bool>) -> (r: Option<usize>)
        ensures
            r == self@.hit(contains@),
    {
        let order = self.ordered(None);
        let mut i: usize = order.len();
        assert(order@.take(i as int) =~= order@);
        while i > 0
            invariant
                i <= order@.len(),
                order@ == self@.order(None),
                self@.hit(contains@) == last_where(order@.take(i as int), contains@),
            decreases i,
        {
            assert(order@.take(i as int).drop_last() =~= order@.take(i - 1));
            let k: usize = order[i - 1];
            if k < contains.len() && contains[k] {
                return Some(k);
            }
            i = i - 1;
        }
        None
    }

    /// A drag begins at the screen under the pointer, which is selected.
    pub fn on_drag_begin(&mut self, hit: Option<usize>)
        ensures
            final(self)@ == old(self)@.drag_begin(hit),
    {
        self.dragging = hit;
        if let Some(i) = hit {
            if i < self.items.len() {
                assert(self@.items[i as int].handle == self.items@[i as int].handle);
                self.selected = Some(self.items[i].handle);
            }
        }
        self.drop_position = None;
    }

    /// The pointer was dragged nearest to an edge.
    pub fn on_drag_update(&mut self, nearest: Position)
        ensures
            final(self)@ == old(self)@.drag_update(nearest),
    {
        if self.dragging.is_some() {
            self.drop_position = Some(nearest);
        }
    }

    /// A drag ends. `far` tells whether the pointer moved far enough for a
    /// drag, and `hit` what it is over now. Gives the client that moved and
    /// where to.
    pub fn on_drag_end(&mut self, far: bool, hit: Option<usize>) -> (moved: Option<
        (ClientHandle, Position),
    >)
        ensures
            final(self)@ == old(self)@.drag_end(far, hit),
            moved == old(self)@.moved(far),
    {
        let index = match self.dragging {
            None => return None,
            Some(i) => i,
        };
        self.dragging = None;
        let drop_position = self.drop_position;
        self.drop_position = None;
        self.hovered = hit;
        if !far {
            return None;
        }
        let position = match drop_position {
            Some(p) => p,
            None => return None,
        };
        if index >= self.items.len() {
            return None;
        }
        assert(old(self)@.items[index as int] == self.items@[index as int]@);
        let handle = self.items[index].handle;
        let moved: bool = self.items[index].position != position;
        let item = &mut self.items[index];
        item.position = position;
        assert(self@.items =~= old(self)@.drag_end(far, hit).items);
        if moved {
            Some((handle, position))
        } else {
            None
        }
    }

    /// The pointer moves. Tells whether the screens have to be drawn again.
    pub fn on_motion(&mut self, hit: Option<usize>) -> (redraw: bool)
        ensures
            if old(self)@.dragging is Some {
                final(self)@ == old(self)@ && !redraw
            } else {
                final(self)@ == (ScreenArrangementView { hovered: hit, ..old(self)@ }) && redraw == (
                old(self)@.hovered != hit)
            },
    {
        if self.dragging.is_some() {
            return false;
        }
        let redraw: bool = match (self.hovered, hit) {
            (Some(a), Some(b)) => a != b,
            (None, None) => false,
            _ => true,
        };
        self.hovered = hit;
        redraw
    }

    /// The pointer leaves.
    pub fn on_leave(&mut self)
        ensures
            final(self)@ == if old(self)@.dragging is Some {
                old(self)@
            } else {
                ScreenArrangementView { hovered: None, ..old(self)@ }
            },
    {
        if self.dragging.is_none() {
            self.hovered = None;
        }
    }

    /// The name of a screen.
    pub fn label(&self, i: usize) -> (s: String)
        requires
            i < self@.items.len(),
        ensures
            s@ == screen_label(self@.items[i as int]),
    {
        let item = &self.items[i];
        assert(self@.items[i as int] == item@);
        match &item.hostname {
            Some(n) => {
                if n.as_str().unicode_len() > 0 {
                    return n.clone();
                }
            },
            None => {},
        }
        concat2("client @ ", item.position.as_str())
    }

    /// How many of the first `n` screens lie at an edge.
    fn count(&self, n: usize, pos: Position) -> (c: usize)
        requires
            n <= self@.items.len(),
        ensures
            c == count_at(self@.items, n as nat, pos),
            c <= n,
    {
        let mut c: usize = 0;
        let mut i: usize = 0;
        while i < n
            invariant
                i <= n,
                n <= self@.items.len(),
                c == count_at(self@.items, i as nat, pos),
                c <= i,
            decreases n - i,
        {
            assert(self@.items[i as int] == self.items@[i as int]@);
            if self.items[i].position == pos {
                c = c + 1;
            }
            i = i + 1;
        }
        c
    }

    /// Where a screen lies before scaling.
    pub fn base_rect(&self, i: usize) -> (r: BaseRect)
        requires
            i < self@.items.len(),
        ensures
            (r.position, r.x as int, r.y as int) == base_rect(self@.items, i as int),
    {
        let pos = self.items[i].position;
        assert(self@.items[i as int] == self.items@[i as int]@);
        let seen: usize = self.count(i, pos);
        let total: usize = self.count(self.items.len(), pos);
        let shift: i128 = STACK_OFFSET * seen as i128 - (STACK_OFFSET / 2) * (total as i128 - 1);
        match pos {
            Position::Left => BaseRect {
                position: pos,
                x: -(HOST_W / 2) - GAP - SAT_W,
                y: -(SAT_H / 2) + shift,
            },
            Position::Right => BaseRect {
                position: pos,
                x: HOST_W / 2 + GAP,
                y: -(SAT_H / 2) + shift,
            },
            Position::Top => BaseRect {
                position: pos,
                x: -(SAT_W / 2) + shift,
                y: -(HOST_H / 2) - GAP - SAT_H,
            },
            Position::Bottom => BaseRect {
                position: pos,
                x: -(SAT_W / 2) + shift,
                y: HOST_H / 2 + GAP,
            },
        }
    }

    /// The smallest box that holds all screens and all places that a screen
    /// could be dropped at, before scaling: least and greatest x, then y. It
    /// stays the same while screens are dragged.
    pub fn bounds(&self) -> (r: (i128, i128, i128, i128))
        ensures
            is_bound(self@.items, r.0 as int, r.1 as int, r.2 as int, r.3 as int),
    {
        let mut min_x: i128 = -(HOST_W / 2) - GAP - SAT_W;
        let mut max_x: i128 = HOST_W / 2 + GAP + SAT_W;
        let mut min_y: i128 = -(HOST_H / 2) - GAP - SAT_H;
        let mut max_y: i128 = HOST_H / 2 + GAP + SAT_H;
        let n: usize = self.items.len();
        let mut i: usize = 0;
        while i < n
            invariant
                i <= n,
                n == self@.items.len(),
                min_x == least_x(self@.items, i as nat),
                max_x == greatest_x(self@.items, i as nat),
                min_y == least_y(self@.items, i as nat),
                max_y == greatest_y(self@.items, i as nat),
            decreases n - i,
        {
            let r = self.base_rect(i);
            proof {
                lemma_count_bound(self@.items, i as nat, self@.items[i as int].position);
                lemma_count_bound(self@.items, n as nat, self@.items[i as int].position);
            }
            if r.x < min_x {
                min_x = r.x;
            }
            if r.x + SAT_W > max_x {
                max_x = r.x + SAT_W;
            }
            if r.y < min_y {
                min_y = r.y;
            }
            if r.y + SAT_H > max_y {
                max_y = r.y + SAT_H;
            }
            i = i + 1;
        }
        (min_x, max_x, min_y, max_y)
    }

    /// The screens.
    pub fn items(&self) -> (r: &Vec<ScreenItem>)
        ensures
            screen_views(r@) == self@.items,
    {
        &self.items
    }

    /// The client whose screen is selected.
    pub fn selected(&self) -> (h: Option<ClientHandle>)
        ensures
            h == self@.selected,
    {
        self.selected
    }

    /// The screen under the pointer.
    pub fn hovered(&self) -> (i: Option<usize>)
        ensures
            i == self@.hovered,
    {
        self.hovered
    }

    /// The screen that is dragged.
    pub fn dragging(&self) -> (i: Option<usize>)
        ensures
            i == self@.dragging,
    {
        self.dragging
    }

    /// The edge that the dragged screen would be dropped at.
    pub fn drop_position(&self) -> (p: Option<Position>)
        ensures
            p == self@.drop_position,
    {
        self.drop_position
    }
}

/// A click that does not move the pointer far, or a drag that ends where the
/// screen lies, moves nobody.
pub proof fn lemma_click_moves_nobody(v: ScreenArrangementView, hit: Option<usize>, far: bool)
    requires
        !far || (v.dragging matches Some(i) && i < v.items.len() && v.drop_position == Some(
            v.items[i as int].position,
        )),
    ensures
        v.moved(far) is None,
        v.drag_end(far, hit).items =~= v.items,
{
}

/// A drag always ends: whatever came of it, nothing is dragged any more.
pub proof fn lemma_drag_ends(v: ScreenArrangementView, far: bool, hit: Option<usize>)
    ensures
        v.drag_end(far, hit).dragging is None,
        v.drag_end(far, hit).items.len() == v.items.len(),
{
}

} // verus!
