//! The neighbour-group editor of a particle's movement: compass names of
//! offsets, the pending offset built by clicking direction arrows, and the
//! edits of a tier's list of offsets.
use vstd::prelude::*;

verus! {

/// The compass name of a unit direction, `?` for anything else.
pub open spec fn compass_name(dx: int, dy: int) -> Seq<char> {
    if dx == -1 && dy == 1 {
        "NW"@
    } else if dx == 0 && dy == 1 {
        "N"@
    } else if dx == 1 && dy == 1 {
        "NE"@
    } else if dx == -1 && dy == 0 {
        "W"@
    } else if dx == 1 && dy == 0 {
        "E"@
    } else if dx == -1 && dy == -1 {
        "SW"@
    } else if dx == 0 && dy == -1 {
        "S"@
    } else if dx == 1 && dy == -1 {
        "SE"@
    } else {
        "?"@
    }
}

/// The sign of `x`: -1, 0 or 1.
pub open spec fn signum(x: int) -> int {
    if x > 0 {
        1
    } else if x < 0 {
        -1
    } else {
        0
    }
}

/// The compass label of a nonzero unit direction `(dx, dy)` (`y` pointing
/// north) reads its vertical part first and its horizontal part last: it
/// starts with `N` going north and `S` going south, ends with `E` going east
/// and `W` going west, and has two letters exactly on the diagonals; any
/// other pair has the label `?`.
pub proof fn law_compass_letters(dx: int, dy: int)
    ensures
        ({
            let label = compass_name(dx, dy);
            let unit = -1 <= dx <= 1 && -1 <= dy <= 1 && (dx != 0 || dy != 0);
            &&& !unit ==> label == "?"@
            &&& unit ==> label.len() == (if dx != 0 && dy != 0 {
                2int
            } else {
                1int
            })
            &&& unit && dy == 1 ==> label[0] == 'N'
            &&& unit && dy == -1 ==> label[0] == 'S'
            &&& unit && dx == 1 ==> label.last() == 'E'
            &&& unit && dx == -1 ==> label.last() == 'W'
        }),
{
    reveal_strlit("NW");
    reveal_strlit("N");
    reveal_strlit("NE");
    reveal_strlit("W");
    reveal_strlit("E");
    reveal_strlit("SW");
    reveal_strlit("S");
    reveal_strlit("SE");
    reveal_strlit("?");
}

/// The compass label of any offset `(x, y)` other than `(0, 0)` follows its
/// signs: it contains `N` exactly when `y > 0`, `S` exactly when `y < 0`,
/// `E` exactly when `x > 0` and `W` exactly when `x < 0`. So offsets whose
/// sign pairs differ get different labels, and `(0, 0)` is labelled `?`.
pub proof fn law_compass_label_follows_signs(x: int, y: int, x2: int, y2: int)
    ensures
        ({
            let label = compass_name(signum(x), signum(y));
            &&& x == 0 && y == 0 ==> label == "?"@
            &&& (x != 0 || y != 0) ==> {
                &&& label.contains('N') == (y > 0)
                &&& label.contains('S') == (y < 0)
                &&& label.contains('E') == (x > 0)
                &&& label.contains('W') == (x < 0)
            }
        }),
        (x != 0 || y != 0) && (x2 != 0 || y2 != 0) && (signum(x) != signum(x2) || signum(y)
            != signum(y2)) ==> compass_name(signum(x), signum(y)) != compass_name(
            signum(x2),
            signum(y2),
        ),
{
    law_compass_letters(signum(x), signum(y));
    law_compass_letters(signum(x2), signum(y2));
    let label = compass_name(signum(x), signum(y));
    if x != 0 || y != 0 {
        assert(label.len() == 1 || label.len() == 2);
        assert(label.contains('N') ==> y > 0);
        assert(label.contains('S') ==> y < 0);
        assert(label.contains('E') ==> x > 0);
        assert(label.contains('W') ==> x < 0);
        if y > 0 {
            assert(label[0] == 'N');
        }
        if y < 0 {
            assert(label[0] == 'S');
        }
        if x > 0 {
            assert(label[label.len() - 1] == 'E');
        }
        if x < 0 {
            assert(label[label.len() - 1] == 'W');
        }
    }
}

fn sign_of(x: i32) -> (res: i32)
    ensures
        res == signum(x as int),
{
    if x > 0 {
        1
    } else if x < 0 {
        -1
    } else {
        0
    }
}

fn compass(dx: i32, dy: i32) -> (res: &'static str)
    ensures
        res@ == compass_name(dx as int, dy as int),
{
    if dx == -1 && dy == 1 {
        "NW"
    } else if dx == 0 && dy == 1 {
        "N"
    } else if dx == 1 && dy == 1 {
        "NE"
    } else if dx == -1 && dy == 0 {
        "W"
    } else if dx == 1 && dy == 0 {
        "E"
    } else if dx == -1 && dy == -1 {
        "SW"
    } else if dx == 0 && dy == -1 {
        "S"
    } else if dx == 1 && dy == -1 {
        "SE"
    } else {
        "?"
    }
}

/// The compass direction in which offset `(x, y)` points.
pub fn direction_label(x: i32, y: i32) -> (res: &'static str)
    ensures
        res@ == compass_name(signum(x as int), signum(y as int)),
{
    compass(sign_of(x), sign_of(y))
}

/// The label of the arrow button for the unit direction `(x, y)`.
pub fn direction_arrow(x: i32, y: i32) -> (res: &'static str)
    ensures
        res@ == compass_name(x as int, y as int),
{
    compass(x, y)
}

/// An offset being built by clicking direction arrows: a unit direction and
/// how many steps along it; nothing is pending when the steps are zero.
pub struct PendingNeighbor {
    dir_x: i32,
    dir_y: i32,
    magnitude: i32,
}

/// The view of a pending offset: direction and steps.
pub struct PendingModel {
    pub dir_x: int,
    pub dir_y: int,
    pub magnitude: int,
}

/// The pending offset after the arrow for `(dx, dy)` was clicked: the same
/// direction again adds a step, another direction starts over with one step.
pub open spec fn after_arrow_click(p: PendingModel, dx: int, dy: int) -> PendingModel {
    if p.magnitude > 0 && p.dir_x == dx && p.dir_y == dy {
        PendingModel { dir_x: dx, dir_y: dy, magnitude: p.magnitude + 1 }
    } else {
        PendingModel { dir_x: dx, dir_y: dy, magnitude: 1 }
    }
}

/// Whether `(x, y)` is one of the eight unit directions or zero.
pub open spec fn is_unit(x: int, y: int) -> bool {
    -1 <= x <= 1 && -1 <= y <= 1
}

impl View for PendingNeighbor {
    type V = PendingModel;

    closed spec fn view(&self) -> PendingModel {
        PendingModel {
            dir_x: self.dir_x as int,
            dir_y: self.dir_y as int,
            magnitude: self.magnitude as int,
        }
    }
}

impl PendingNeighbor {
    #[verifier::type_invariant]
    closed spec fn well_formed(&self) -> bool {
        is_unit(self.dir_x as int, self.dir_y as int) && self.magnitude >= 0
    }

    /// Nothing pending.
    pub fn new() -> (res: Self)
        ensures
            res@ == (PendingModel { dir_x: 0, dir_y: 0, magnitude: 0 }),
    {
        PendingNeighbor { dir_x: 0, dir_y: 0, magnitude: 0 }
    }

    /// Whether an offset is pending.
    pub fn is_pending(&self) -> (res: bool)
        ensures
            res == (self@.magnitude > 0),
    {
        self.magnitude > 0
    }

    /// Whether the arrow for `(dx, dy)` is the pending direction.
    pub fn is_pending_direction(&self, dx: i32, dy: i32) -> (res: bool)
        ensures
            res == (self@.magnitude > 0 && self@.dir_x == dx && self@.dir_y == dy),
    {
        self.magnitude > 0 && self.dir_x == dx && self.dir_y == dy
    }

    /// Clicks the arrow for the unit direction `(dx, dy)`.
    pub fn click_arrow(&mut self, dx: i32, dy: i32)
        requires
            is_unit(dx as int, dy as int),
            old(self)@.magnitude < i32::MAX,
        ensures
            final(self)@ == after_arrow_click(old(self)@, dx as int, dy as int),
    {
        if self.magnitude > 0 && self.dir_x == dx && self.dir_y == dy {
            self.magnitude = self.magnitude + 1;
        } else {
            *self = PendingNeighbor { dir_x: dx, dir_y: dy, magnitude: 1 };
        }
    }

    /// Removes one step; the "-" button only acts while more than one step
    /// is pending.
    pub fn decrement(&mut self)
        ensures
            old(self)@.magnitude > 1 ==> final(self)@ == (PendingModel {
                magnitude: old(self)@.magnitude - 1,
                ..old(self)@
            }),
            old(self)@.magnitude <= 1 ==> final(self)@ == old(self)@,
    {
        proof {
            use_type_invariant(&*self);
        }
        if self.magnitude > 1 {
            self.magnitude = self.magnitude - 1;
        }
    }

    /// Drops the pending offset.
    pub fn cancel(&mut self)
        ensures
            final(self)@ == (PendingModel { dir_x: 0, dir_y: 0, magnitude: 0 }),
    {
        *self = PendingNeighbor::new();
    }

    /// The pending offset: the direction scaled by the steps.
    pub fn offset(&self) -> (res: (i32, i32))
        ensures
            res.0 == self@.dir_x * self@.magnitude,
            res.1 == self@.dir_y * self@.magnitude,
    {
        proof {
            use_type_invariant(self);
        }
        let m = self.magnitude;
        let x: i32 = if self.dir_x > 0 {
            assert(self.dir_x == 1);
            assert(self@.dir_x * self@.magnitude == m) by (nonlinear_arith)
                requires
                    self@.dir_x == 1,
                    self@.magnitude == m,
            ;
            m
        } else if self.dir_x < 0 {
            assert(self@.dir_x * self@.magnitude == -m) by (nonlinear_arith)
                requires
                    self@.dir_x == -1,
                    self@.magnitude == m,
            ;
            -m
        } else {
            assert(self@.dir_x * self@.magnitude == 0) by (nonlinear_arith)
                requires
                    self@.dir_x == 0,
            ;
            0
        };
        let y: i32 = if self.dir_y > 0 {
            assert(self@.dir_y * self@.magnitude == m) by (nonlinear_arith)
                requires
                    self@.dir_y == 1,
                    self@.magnitude == m,
            ;
            m
        } else if self.dir_y < 0 {
            assert(self@.dir_y * self@.magnitude == -m) by (nonlinear_arith)
                requires
                    self@.dir_y == -1,
                    self@.magnitude == m,
            ;
            -m
        } else {
            assert(self@.dir_y * self@.magnitude == 0) by (nonlinear_arith)
                requires
                    self@.dir_y == 0,
            ;
            0
        };
        (x, y)
    }

    /// Confirms the pending offset into `group` ("Add"): when an offset is
    /// pending and the group does not hold it yet, it is appended and
    /// nothing stays pending. Returns whether it was added.
    pub fn confirm(&mut self, group: &mut Vec<(i32, i32)>) -> (added: bool)
        ensures
            added == (old(self)@.magnitude > 0 && !old(group)@.contains(
                (
                    (old(self)@.dir_x * old(self)@.magnitude) as i32,
                    (old(self)@.dir_y * old(self)@.magnitude) as i32,
                ),
            )),
            added ==> final(group)@ == old(group)@.push(
                (
                    (old(self)@.dir_x * old(self)@.magnitude) as i32,
                    (old(self)@.dir_y * old(self)@.magnitude) as i32,
                ),
            ),
            added ==> final(self)@ == (PendingModel { dir_x: 0, dir_y: 0, magnitude: 0 }),
            !added ==> final(group)@ == old(group)@ && final(self)@ == old(self)@,
    {
        if self.magnitude <= 0 {
            return false;
        }
        let offset = self.offset();
        if add_neighbor(group, offset) {
            self.cancel();
            true
        } else {
            false
        }
    }
}

/// Whether `group` holds `offset`.
pub fn contains_offset(group: &Vec<(i32, i32)>, offset: (i32, i32)) -> (res: bool)
    ensures
        res == group@.contains(offset),
{
    let mut i: usize = 0;
    while i < group.len()
        invariant
            i <= group@.len(),
            forall|k: int| 0 <= k < i ==> group@[k] != offset,
        decreases group@.len() - i,
    {
        if group[i].0 == offset.0 && group[i].1 == offset.1 {
            assert(group@[i as int] == offset);
            return true;
        }
        i += 1;
    }
    false
}

/// Appends `offset` to `group` unless it already holds it; returns whether
/// it was appended.
pub fn add_neighbor(group: &mut Vec<(i32, i32)>, offset: (i32, i32)) -> (added: bool)
    ensures
        added == !old(group)@.contains(offset),
        added ==> final(group)@ == old(group)@.push(offset),
        !added ==> final(group)@ == old(group)@,
{
    if contains_offset(group, offset) {
        false
    } else {
        group.push(offset);
        true
    }
}

/// An edit of a tier's list of offsets requested from its rows.
#[derive(PartialEq, Eq, Structural, Clone, Copy, Debug)]
pub enum NeighborAction {
    Swap(usize, usize),
    Remove(usize),
}

/// The edit of the "Up" button of row `j`: swap with the row above; the
/// first row has none.
pub fn move_up_action(j: usize) -> (res: Option<NeighborAction>)
    ensures
        j == 0 ==> res is None,
        j > 0 ==> res == Some(NeighborAction::Swap(j, (j - 1) as usize)),
{
    if j > 0 {
        Some(NeighborAction::Swap(j, j - 1))
    } else {
        None
    }
}

/// The edit of the "Dn" button of row `j` of `len` rows: swap with the row
/// below; the last row has none.
pub fn move_down_action(j: usize, len: usize) -> (res: Option<NeighborAction>)
    requires
        j < len,
    ensures
        j + 1 == len ==> res is None,
        j + 1 < len ==> res == Some(NeighborAction::Swap(j, (j + 1) as usize)),
{
    if j < len - 1 {
        Some(NeighborAction::Swap(j, j + 1))
    } else {
        None
    }
}

/// A confirmed offset is never added twice: adding keeps a list free of
/// repeats.
pub proof fn law_add_keeps_offsets_distinct(group: Seq<(i32, i32)>, offset: (i32, i32))
    requires
        group.no_duplicates(),
    ensures
        !group.contains(offset) ==> group.push(offset).no_duplicates(),
{
    if !group.contains(offset) {
        let g = group.push(offset);
        assert forall|i: int, j: int| 0 <= i < g.len() && 0 <= j < g.len() && i != j implies g[i]
            != g[j] by {
            if i == group.len() {
                assert(g[j] == group[j]);
            } else if j == group.len() {
                assert(g[i] == group[i]);
            }
        }
    }
}

/// A tier's offsets after `a`: a swap of two rows (nothing changes when a
/// row is out of range), or the removal of a row.
pub open spec fn neighbor_action_applied(group: Seq<(i32, i32)>, a: NeighborAction) -> Seq<(i32, i32)> {
    match a {
        NeighborAction::Swap(i, j) => if i < group.len() && j < group.len() {
            group.update(i as int, group[j as int]).update(j as int, group[i as int])
        } else {
            group
        },
        NeighborAction::Remove(i) => group.remove(i as int),
    }
}

/// Carries out an edit requested from a tier's rows.
pub fn apply_neighbor_action(group: &mut Vec<(i32, i32)>, a: NeighborAction)
    requires
        a matches NeighborAction::Remove(i) ==> i < old(group)@.len(),
    ensures
        final(group)@ == neighbor_action_applied(old(group)@, a),
{
    match a {
        NeighborAction::Swap(i, j) => {
            if i < group.len() && j < group.len() {
                let x = group[i];
                let y = group[j];
                group.set(i, y);
                group.set(j, x);
            }
        },
        NeighborAction::Remove(i) => {
            group.remove(i);
        },
    }
}

/// Swapping or removing rows keeps a tier free of repeated offsets.
pub proof fn law_neighbor_actions_keep_offsets_distinct(group: Seq<(i32, i32)>, a: NeighborAction)
    requires
        group.no_duplicates(),
        a matches NeighborAction::Remove(i) ==> i < group.len(),
    ensures
        neighbor_action_applied(group, a).no_duplicates(),
{
    let g = neighbor_action_applied(group, a);
    match a {
        NeighborAction::Swap(i, j) => {
            if i < group.len() && j < group.len() {
                let perm = |k: int| if k == i { j as int } else if k == j { i as int } else { k };
                assert forall|x: int, y: int| 0 <= x < g.len() && 0 <= y < g.len() && x != y implies g[x]
                    != g[y] by {
                    assert(g[x] == group[perm(x)]);
                    assert(g[y] == group[perm(y)]);
                }
            }
        },
        NeighborAction::Remove(i) => {
            assert forall|x: int, y: int| 0 <= x < g.len() && 0 <= y < g.len() && x != y implies g[x]
                != g[y] by {
                let x0 = if x < i { x } else { x + 1 };
                let y0 = if y < i { y } else { y + 1 };
                assert(g[x] == group[x0]);
                assert(g[y] == group[y0]);
            }
        },
    }
}

/// Appends an empty tier ("Add Tier").
pub fn add_tier(tiers: &mut Vec<Vec<(i32, i32)>>)
    ensures
        final(tiers)@.len() == old(tiers)@.len() + 1,
        final(tiers)@.drop_last() == old(tiers)@,
        final(tiers)@.last()@ == Seq::<(i32, i32)>::empty(),
{
    tiers.push(Vec::new());
    assert(tiers@.drop_last() =~= old(tiers)@);
}

/// Removes tier `index` ("Remove Tier").
pub fn remove_tier(tiers: &mut Vec<Vec<(i32, i32)>>, index: usize)
    requires
        index < old(tiers)@.len(),
    ensures
        final(tiers)@ == old(tiers)@.remove(index as int),
{
    tiers.remove(index);
}

/// Adding or removing a tier leaves every tier free of repeated offsets
/// when all were before.
pub proof fn law_tier_edits_keep_offsets_distinct(tiers: Seq<Seq<(i32, i32)>>, index: int)
    requires
        forall|t: int| 0 <= t < tiers.len() ==> (#[trigger] tiers[t]).no_duplicates(),
    ensures
        forall|t: int| 0 <= t < tiers.len() + 1 ==> (#[trigger] tiers.push(Seq::empty())[t]).no_duplicates(),
        0 <= index < tiers.len() ==> forall|t: int|
            0 <= t < tiers.len() - 1 ==> (#[trigger] tiers.remove(index)[t]).no_duplicates(),
{
    assert forall|t: int| 0 <= t < tiers.len() + 1 implies (#[trigger] tiers.push(Seq::empty())[t]).no_duplicates() by {
        if t < tiers.len() {
            assert(tiers.push(Seq::empty())[t] == tiers[t]);
        }
    }
    if 0 <= index < tiers.len() {
        assert forall|t: int| 0 <= t < tiers.len() - 1 implies (#[trigger] tiers.remove(index)[t]).no_duplicates() by {
            if t < index {
                assert(tiers.remove(index)[t] == tiers[t]);
            } else {
                assert(tiers.remove(index)[t] == tiers[t + 1]);
            }
        }
    }
}

} // verus!
