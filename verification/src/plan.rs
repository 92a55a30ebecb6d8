//! ChunkPlan: the transient per-generation scratch structure mapping
//! intra-chunk offsets to coarse tile categories (grass/dirt/water), the
//! smoothing pass that removes jutting and unconnected tiles, and the
//! transition-tile resolution that converts a finished plan into a concrete
//! chunk.

use vstd::prelude::*;

use crate::chunk::Chunk;
use crate::coords::OffsetCoords;
use crate::tile::Tile;

verus! {

/// Coarse terrain category assigned to each offset during generation.
#[derive(Clone, Copy, Debug, PartialEq, Eq, Structural)]
pub enum TileCategory {
    Grass,
    Dirt,
    Water,
}

impl Default for TileCategory {
    /// Grass is the default category: demoted and unassigned offsets are
    /// grass.
    fn default() -> (r: Self)
        ensures
            r == TileCategory::Grass,
    {
        TileCategory::Grass
    }
}

/// One assignment of a category to an offset position within a plan.
#[derive(Clone, Copy, Debug, PartialEq, Eq, Structural)]
pub struct PlanEntry {
    pub x: i32,
    pub y: i32,
    pub category: TileCategory,
}

/// A transient per-chunk scratch structure assigning a terrain category to
/// each offset position. Positions without an assignment are grass. Exists
/// only during generation; discarded once converted to a concrete [`Chunk`].
#[derive(Clone, Debug)]
pub struct ChunkPlan {
    entries: Vec<PlanEntry>,
}

/// No two entries of a plan assign the same position.
pub open spec fn plan_wf(s: Seq<PlanEntry>) -> bool {
    forall|i: int, j: int|
        0 <= i < s.len() && 0 <= j < s.len() && i != j ==> !(s[i].x == s[j].x && s[i].y == s[j].y)
}

/// Whether some entry of the plan assigns the given position.
pub open spec fn plan_contains(s: Seq<PlanEntry>, x: int, y: int) -> bool {
    exists|i: int| 0 <= i < s.len() && s[i].x == x && s[i].y == y
}

/// The index of the entry assigning the given position.
pub open spec fn plan_index_of(s: Seq<PlanEntry>, x: int, y: int) -> int {
    choose|i: int| 0 <= i < s.len() && s[i].x == x && s[i].y == y
}

/// The category of the given position: the assigned category if one exists,
/// grass otherwise. Total over all of the plane, so neighbours outside the
/// chunk are simply grass.
pub open spec fn plan_category(s: Seq<PlanEntry>, x: int, y: int) -> TileCategory {
    if plan_contains(s, x, y) {
        s[plan_index_of(s, x, y)].category
    } else {
        TileCategory::Grass
    }
}

/// The plan after assigning a category to a position: the existing entry for
/// that position is replaced, or a new entry is appended.
pub open spec fn plan_set(s: Seq<PlanEntry>, x: i32, y: i32, category: TileCategory) -> Seq<
    PlanEntry,
> {
    if plan_contains(s, x as int, y as int) {
        s.update(plan_index_of(s, x as int, y as int), PlanEntry { x, y, category })
    } else {
        s.push(PlanEntry { x, y, category })
    }
}

/// In a well-formed plan, setting one position changes that position's
/// category and no other, and preserves well-formedness.
pub proof fn lemma_plan_set(s: Seq<PlanEntry>, x: i32, y: i32, category: TileCategory)
    requires
        plan_wf(s),
    ensures
        plan_wf(plan_set(s, x, y, category)),
        plan_category(plan_set(s, x, y, category), x as int, y as int) == category,
        forall|a: int, b: int|
            !(a == x as int && b == y as int) ==> plan_category(plan_set(s, x, y, category), a, b)
                == plan_category(s, a, b),
        forall|a: int, b: int|
            !(a == x as int && b == y as int) ==> plan_contains(plan_set(s, x, y, category), a, b)
                == plan_contains(s, a, b),
        plan_contains(plan_set(s, x, y, category), x as int, y as int),
{
    let t = plan_set(s, x, y, category);
    if plan_contains(s, x as int, y as int) {
        let i = plan_index_of(s, x as int, y as int);
        assert(0 <= i < s.len() && s[i].x == x && s[i].y == y);
        assert forall|a: int, b: int| !(a == x as int && b == y as int) implies plan_category(
            t,
            a,
            b,
        ) == plan_category(s, a, b) && plan_contains(t, a, b) == plan_contains(s, a, b) by {
            if plan_contains(s, a, b) {
                let j = plan_index_of(s, a, b);
                assert(t[j] == s[j]);
                assert(plan_contains(t, a, b));
            }
            if plan_contains(t, a, b) {
                let j = plan_index_of(t, a, b);
                assert(t[j].x == a && t[j].y == b);
                assert(j != i);
                assert(s[j] == t[j]);
                assert(plan_contains(s, a, b));
            }
            if plan_contains(s, a, b) {
                let j = plan_index_of(s, a, b);
                let k = plan_index_of(t, a, b);
                assert(0 <= k < t.len() && t[k].x == a && t[k].y == b);
                assert(k != i);
                assert(s[k] == t[k]);
                assert(k == j);
            }
        };
        assert(plan_contains(t, x as int, y as int)) by {
            assert(t[i].x == x && t[i].y == y);
        };
        let k = plan_index_of(t, x as int, y as int);
        assert(0 <= k < t.len() && t[k].x == x && t[k].y == y);
        assert(k == i) by {
            if k != i {
                assert(s[k] == t[k]);
                assert(!(s[k].x == s[i].x && s[k].y == s[i].y));
            }
        };
    } else {
        assert forall|a: int, b: int| !(a == x as int && b == y as int) implies plan_category(
            t,
            a,
            b,
        ) == plan_category(s, a, b) && plan_contains(t, a, b) == plan_contains(s, a, b) by {
            if plan_contains(s, a, b) {
                let j = plan_index_of(s, a, b);
                assert(t[j] == s[j]);
                assert(plan_contains(t, a, b));
            }
            if plan_contains(t, a, b) {
                let j = plan_index_of(t, a, b);
                assert(t[j].x == a && t[j].y == b);
                assert(j != s.len() as int);
                assert(s[j] == t[j]);
                assert(plan_contains(s, a, b));
            }
            if plan_contains(s, a, b) {
                let j = plan_index_of(s, a, b);
                let k = plan_index_of(t, a, b);
                assert(0 <= k < t.len() && t[k].x == a && t[k].y == b);
                assert(k != s.len() as int);
                assert(s[k] == t[k]);
                assert(k == j);
            }
        };
        assert(plan_contains(t, x as int, y as int)) by {
            assert(t[s.len() as int].x == x && t[s.len() as int].y == y);
        };
        let k = plan_index_of(t, x as int, y as int);
        assert(0 <= k < t.len() && t[k].x == x && t[k].y == y);
        assert(k == s.len() as int) by {
            if k != s.len() as int {
                assert(s[k] == t[k]);
                assert(plan_contains(s, x as int, y as int));
            }
        };
    }
}

impl View for ChunkPlan {
    type V = Seq<PlanEntry>;

    closed spec fn view(&self) -> Seq<PlanEntry> {
        self.entries@
    }
}

impl Default for ChunkPlan {
    /// An empty plan: every position is grass.
    fn default() -> (r: Self)
        ensures
            r@ == Seq::<PlanEntry>::empty(),
            plan_wf(r@),
    {
        ChunkPlan { entries: Vec::new() }
    }
}

impl ChunkPlan {
    /// The plan never assigns the same position twice.
    pub open spec fn wf(&self) -> bool {
        plan_wf(self@)
    }

    /// Assign a category to the given offset position, replacing any previous
    /// assignment for that position.
    pub fn set_category_at(&mut self, offset_x: i32, offset_y: i32, category: TileCategory)
        requires
            old(self).wf(),
        ensures
            final(self).wf(),
            final(self)@ == plan_set(old(self)@, offset_x, offset_y, category),
    {
        proof {
            lemma_plan_set(self@, offset_x, offset_y, category);
        }
        let n = self.entries.len();
        let mut i: usize = 0;
        while i < n
            invariant
                self.wf(),
                self@ == old(self)@,
                n == self@.len(),
                i <= n,
                forall|j: int| 0 <= j < i ==> !(self@[j].x == offset_x && self@[j].y == offset_y),
            decreases n - i,
        {
            if self.entries[i].x == offset_x && self.entries[i].y == offset_y {
                self.entries[i] = PlanEntry { x: offset_x, y: offset_y, category };
                proof {
                    assert(plan_contains(old(self)@, offset_x as int, offset_y as int));
                    let k = plan_index_of(old(self)@, offset_x as int, offset_y as int);
                    assert(k == i as int) by {
                        if k != i as int {
                            assert(!(old(self)@[k].x == old(self)@[i as int].x && old(
                                self,
                            )@[k].y == old(self)@[i as int].y));
                        }
                    };
                }
                return ;
            }
            i += 1;
        }
        self.entries.push(PlanEntry { x: offset_x, y: offset_y, category });
        proof {
            assert(!plan_contains(old(self)@, offset_x as int, offset_y as int));
        }
    }

    /// The category assigned to the given offset position; grass if the
    /// position has no assignment.
    pub fn get_category_at(&self, offset_x: i32, offset_y: i32) -> (r: TileCategory)
        requires
            self.wf(),
        ensures
            r == plan_category(self@, offset_x as int, offset_y as int),
    {
        self.category_at_wide(offset_x as i64, offset_y as i64)
    }

    /// Category lookup with widened coordinates, so neighbour queries one
    /// step outside the `i32` range remain in bounds.
    fn category_at_wide(&self, x: i64, y: i64) -> (r: TileCategory)
        requires
            self.wf(),
        ensures
            r == plan_category(self@, x as int, y as int),
    {
        let n = self.entries.len();
        let mut i: usize = 0;
        while i < n
            invariant
                self.wf(),
                n == self@.len(),
                i <= n,
                forall|j: int| 0 <= j < i ==> !(self@[j].x == x as int && self@[j].y == y as int),
            decreases n - i,
        {
            let e = self.entries[i];
            if e.x as i64 == x && e.y as i64 == y {
                proof {
                    assert(plan_contains(self@, x as int, y as int));
                    let k = plan_index_of(self@, x as int, y as int);
                    assert(k == i as int) by {
                        if k != i as int {
                            assert(!(self@[k].x == self@[i as int].x
                                && self@[k].y == self@[i as int].y));
                        }
                    };
                }
                return e.category;
            }
            i += 1;
        }
        proof {
            assert(!plan_contains(self@, x as int, y as int));
        }
        TileCategory::Grass
    }
}

/// For each of the four orthogonal neighbours of a position (above, below,
/// left, right), whether that neighbour's category differs from the given
/// category.
pub open spec fn surrounding_differs(
    s: Seq<PlanEntry>,
    category: TileCategory,
    x: int,
    y: int,
) -> (bool, bool, bool, bool) {
    (
        plan_category(s, x, y + 1) != category,
        plan_category(s, x, y - 1) != category,
        plan_category(s, x - 1, y) != category,
        plan_category(s, x + 1, y) != category,
    )
}

/// Whether the position is jutting or unconnected: at least three of its
/// four orthogonal neighbours differ in category from the position itself.
pub open spec fn is_jutting(s: Seq<PlanEntry>, x: int, y: int) -> bool {
    let (above, below, left, right) = surrounding_differs(s, plan_category(s, x, y), x, y);
    (above && below && left) || (above && below && right) || (above && left && right) || (below
        && left && right)
}

/// How many entries of the plan hold a category other than grass. The
/// smoothing pass strictly decreases this measure with every demotion, which
/// is why it terminates.
pub open spec fn non_grass_count(s: Seq<PlanEntry>) -> nat
    decreases s.len(),
{
    if s.len() == 0 {
        0
    } else {
        (if s.last().category != TileCategory::Grass {
            1nat
        } else {
            0nat
        }) + non_grass_count(s.drop_last())
    }
}

/// Replacing a non-grass entry by a grass one strictly decreases the
/// non-grass count.
proof fn lemma_non_grass_count_update(s: Seq<PlanEntry>, i: int, e: PlanEntry)
    requires
        0 <= i < s.len(),
        s[i].category != TileCategory::Grass,
        e.category == TileCategory::Grass,
    ensures
        non_grass_count(s.update(i, e)) < non_grass_count(s),
    decreases s.len(),
{
    let t = s.update(i, e);
    if i == s.len() - 1 {
        assert(t.drop_last() =~= s.drop_last());
    } else {
        assert(t.drop_last() =~= s.drop_last().update(i, e));
        lemma_non_grass_count_update(s.drop_last(), i, e);
        assert(t.last() == s.last());
    }
}

/// Whether the entry at the given index is subject to demotion: it holds a
/// non-grass category and its position is jutting or unconnected.
pub open spec fn entry_demotable(s: Seq<PlanEntry>, i: int) -> bool {
    s[i].category != TileCategory::Grass && is_jutting(s, s[i].x as int, s[i].y as int)
}

/// The index of the first demotable entry at or after position `i`, if any.
pub open spec fn first_demotable_from(s: Seq<PlanEntry>, i: int) -> Option<int>
    decreases s.len() - i,
{
    if i >= s.len() {
        None
    } else if entry_demotable(s, i) {
        Some(i)
    } else {
        first_demotable_from(s, i + 1)
    }
}

/// If everything before `k` is not demotable and `k` is, then `k` is the
/// first demotable index.
proof fn lemma_first_demotable_some(s: Seq<PlanEntry>, i: int, k: int)
    requires
        0 <= i <= k < s.len(),
        forall|j: int| i <= j < k ==> !entry_demotable(s, j),
        entry_demotable(s, k),
    ensures
        first_demotable_from(s, i) == Some(k),
    decreases k - i,
{
    if i < k {
        lemma_first_demotable_some(s, i + 1, k);
    }
}

/// If no entry is demotable, the search finds nothing.
proof fn lemma_first_demotable_none(s: Seq<PlanEntry>, i: int)
    requires
        0 <= i <= s.len(),
        forall|j: int| i <= j < s.len() ==> !entry_demotable(s, j),
    ensures
        first_demotable_from(s, i) == None::<int>,
    decreases s.len() - i,
{
    if i < s.len() {
        lemma_first_demotable_none(s, i + 1);
    }
}

/// A successful search yields an in-range demotable index.
proof fn lemma_first_demotable_bounds(s: Seq<PlanEntry>, i: int)
    requires
        0 <= i <= s.len(),
        first_demotable_from(s, i) is Some,
    ensures
        i <= first_demotable_from(s, i)->Some_0 < s.len(),
        entry_demotable(s, first_demotable_from(s, i)->Some_0),
    decreases s.len() - i,
{
    if i < s.len() && !entry_demotable(s, i) {
        lemma_first_demotable_bounds(s, i + 1);
    }
}

/// If the search finds nothing, indeed no entry is demotable.
proof fn lemma_first_demotable_none_inverse(s: Seq<PlanEntry>, i: int)
    requires
        0 <= i <= s.len(),
        first_demotable_from(s, i) == None::<int>,
    ensures
        forall|j: int| i <= j < s.len() ==> !entry_demotable(s, j),
    decreases s.len() - i,
{
    if i < s.len() {
        lemma_first_demotable_none_inverse(s, i + 1);
    }
}

/// The plan with the entry at index `i` demoted to grass.
pub open spec fn grassify(s: Seq<PlanEntry>, i: int) -> Seq<PlanEntry> {
    s.update(i, PlanEntry { x: s[i].x, y: s[i].y, category: TileCategory::Grass })
}

/// In a well-formed plan, demoting the entry at index `i` is exactly setting
/// that entry's position to grass.
proof fn lemma_grassify_is_plan_set(s: Seq<PlanEntry>, i: int)
    requires
        plan_wf(s),
        0 <= i < s.len(),
    ensures
        grassify(s, i) == plan_set(s, s[i].x, s[i].y, TileCategory::Grass),
        plan_wf(grassify(s, i)),
{
    assert(plan_contains(s, s[i].x as int, s[i].y as int));
    let k = plan_index_of(s, s[i].x as int, s[i].y as int);
    assert(0 <= k < s.len() && s[k].x == s[i].x && s[k].y == s[i].y);
    assert(k == i);
    lemma_plan_set(s, s[i].x, s[i].y, TileCategory::Grass);
}

/// The result of repeatedly demoting the first jutting or unconnected
/// non-grass entry until none remains. Terminates because every demotion
/// moves one more entry to grass, never away from it.
pub open spec fn demote_fixpoint(s: Seq<PlanEntry>) -> Seq<PlanEntry>
    decreases non_grass_count(s),
    via demote_fixpoint_decreases
{
    match first_demotable_from(s, 0) {
        Some(i) => demote_fixpoint(grassify(s, i)),
        None => s,
    }
}

#[via_fn]
proof fn demote_fixpoint_decreases(s: Seq<PlanEntry>) {
    match first_demotable_from(s, 0) {
        Some(i) => {
            lemma_first_demotable_bounds(s, 0);
            lemma_non_grass_count_update(
                s,
                i,
                PlanEntry { x: s[i].x, y: s[i].y, category: TileCategory::Grass },
            );
        },
        None => {},
    }
}

/// A plan at the fixpoint has no non-grass position that is jutting or
/// unconnected.
proof fn lemma_no_demotable_no_jutting(s: Seq<PlanEntry>)
    requires
        plan_wf(s),
        first_demotable_from(s, 0) == None::<int>,
    ensures
        forall|x: int, y: int|
            plan_category(s, x, y) != TileCategory::Grass ==> !is_jutting(s, x, y),
{
    lemma_first_demotable_none_inverse(s, 0);
    assert forall|x: int, y: int|
        plan_category(s, x, y) != TileCategory::Grass implies !is_jutting(s, x, y) by {
        let k = plan_index_of(s, x, y);
        assert(plan_contains(s, x, y));
        assert(0 <= k < s.len() && s[k].x == x && s[k].y == y);
        assert(!entry_demotable(s, k));
    };
}

/// The smoothing pass only demotes: after it, every position holds either
/// its original category or grass, and the plan stays well-formed.
pub proof fn lemma_fixpoint_only_demotes(s: Seq<PlanEntry>)
    requires
        plan_wf(s),
    ensures
        plan_wf(demote_fixpoint(s)),
        forall|x: int, y: int|
            #![trigger plan_category(demote_fixpoint(s), x, y)]
            plan_category(demote_fixpoint(s), x, y) == plan_category(s, x, y) || plan_category(
                demote_fixpoint(s),
                x,
                y,
            ) == TileCategory::Grass,
    decreases non_grass_count(s),
{
    match first_demotable_from(s, 0) {
        Some(i) => {
            lemma_first_demotable_bounds(s, 0);
            lemma_grassify_is_plan_set(s, i);
            lemma_plan_set(s, s[i].x, s[i].y, TileCategory::Grass);
            lemma_non_grass_count_update(
                s,
                i,
                PlanEntry { x: s[i].x, y: s[i].y, category: TileCategory::Grass },
            );
            lemma_fixpoint_only_demotes(grassify(s, i));
        },
        None => {},
    }
}

impl ChunkPlan {
    /// Whether at least three of the four orthogonal neighbours of the given
    /// position differ in category from the position itself.
    fn jutting_at(&self, x: i64, y: i64) -> (r: bool)
        requires
            self.wf(),
            -0x8000_0000 <= x < 0x8000_0000,
            -0x8000_0000 <= y < 0x8000_0000,
        ensures
            r == is_jutting(self@, x as int, y as int),
    {
        let category = self.category_at_wide(x, y);
        let above = !(self.category_at_wide(x, y + 1) == category);
        let below = !(self.category_at_wide(x, y - 1) == category);
        let left = !(self.category_at_wide(x - 1, y) == category);
        let right = !(self.category_at_wide(x + 1, y) == category);
        (above && below && left) || (above && below && right) || (above && left && right) || (below
            && left && right)
    }

    /// For each of the four orthogonal neighbours of the given offset (above,
    /// below, left, right), whether that neighbour's category differs from
    /// the given category.
    pub fn surrounding_not_equal_to(
        &self,
        category: TileCategory,
        offset_x: i32,
        offset_y: i32,
    ) -> (r: (bool, bool, bool, bool))
        requires
            self.wf(),
        ensures
            r == surrounding_differs(self@, category, offset_x as int, offset_y as int),
    {
        let x = offset_x as i64;
        let y = offset_y as i64;
        (
            !(self.category_at_wide(x, y + 1) == category),
            !(self.category_at_wide(x, y - 1) == category),
            !(self.category_at_wide(x - 1, y) == category),
            !(self.category_at_wide(x + 1, y) == category),
        )
    }

    /// Demote the given position to grass if it is non-grass and jutting or
    /// unconnected; otherwise leave the plan unchanged. One step of the
    /// smoothing pass.
    pub fn remove_juttting_and_unconnected_tiles_at(&mut self, offset_x: i32, offset_y: i32)
        requires
            old(self).wf(),
        ensures
            final(self).wf(),
            final(self)@ == (if plan_category(old(self)@, offset_x as int, offset_y as int)
                != TileCategory::Grass && is_jutting(
                old(self)@,
                offset_x as int,
                offset_y as int,
            ) {
                plan_set(old(self)@, offset_x, offset_y, TileCategory::Grass)
            } else {
                old(self)@
            }),
    {
        let category = self.get_category_at(offset_x, offset_y);
        if !(category == TileCategory::Grass) && self.jutting_at(offset_x as i64, offset_y as i64) {
            self.set_category_at(offset_x, offset_y, TileCategory::Grass);
        }
    }

    /// The smoothing pass: repeatedly demote jutting and unconnected
    /// non-grass positions to grass until none remains, so that no category
    /// region can present an isolated single-tile peninsula or lone tile.
    /// Afterwards, no position holds a non-grass category while three or more
    /// of its four orthogonal neighbours differ from it.
    pub fn remove_all_juttting_and_unconnected_tiles(&mut self)
        requires
            old(self).wf(),
        ensures
            final(self).wf(),
            final(self)@ == demote_fixpoint(old(self)@),
            forall|x: int, y: int|
                plan_category(final(self)@, x, y) != TileCategory::Grass ==> !is_jutting(
                    final(self)@,
                    x,
                    y,
                ),
            forall|x: int, y: int|
                #![trigger plan_category(final(self)@, x, y)]
                plan_category(final(self)@, x, y) == plan_category(old(self)@, x, y)
                    || plan_category(final(self)@, x, y) == TileCategory::Grass,
    {
        let ghost orig = self@;
        loop
            invariant
                self.wf(),
                demote_fixpoint(self@) == demote_fixpoint(orig),
            ensures
                self.wf(),
                demote_fixpoint(self@) == demote_fixpoint(orig),
                first_demotable_from(self@, 0) == None::<int>,
            decreases non_grass_count(self@),
        {
            let ghost s0 = self@;
            let n = self.entries.len();
            let mut i: usize = 0;
            let mut found: bool = false;
            let mut found_i: usize = 0;
            while i < n
                invariant
                    self.wf(),
                    self@ == s0,
                    n == self@.len(),
                    i <= n,
                    !found ==> forall|j: int| 0 <= j < i ==> !entry_demotable(self@, j),
                    found ==> found_i < n && entry_demotable(self@, found_i as int) && forall|
                        j: int,
                    |
                        0 <= j < found_i ==> !entry_demotable(self@, j),
                decreases n - i,
            {
                if !found {
                    let e = self.entries[i];
                    if !(e.category == TileCategory::Grass) && self.jutting_at(
                        e.x as i64,
                        e.y as i64,
                    ) {
                        found = true;
                        found_i = i;
                    }
                }
                i += 1;
            }
            if found {
                let e = self.entries[found_i];
                proof {
                    lemma_first_demotable_some(self@, 0, found_i as int);
                    lemma_grassify_is_plan_set(self@, found_i as int);
                    lemma_plan_set(self@, e.x, e.y, TileCategory::Grass);
                    lemma_non_grass_count_update(
                        self@,
                        found_i as int,
                        PlanEntry { x: e.x, y: e.y, category: TileCategory::Grass },
                    );
                }
                self.entries[found_i] = PlanEntry {
                    x: e.x,
                    y: e.y,
                    category: TileCategory::Grass,
                };
                proof {
                    assert(self@ == grassify(s0, found_i as int));
                    assert(demote_fixpoint(s0) == demote_fixpoint(self@));
                }
            } else {
                proof {
                    lemma_first_demotable_none(self@, 0);
                }
                break ;
            }
        }
        proof {
            assert(demote_fixpoint(self@) == self@);
            lemma_no_demotable_no_jutting(self@);
            lemma_fixpoint_only_demotes(orig);
        }
    }
}

/// The set of tiles drawn at the boundary between one category and its
/// surroundings: straight edges, right-angle cuts, and rounded corners.
#[derive(Clone, Copy, Debug, PartialEq, Eq, Structural)]
pub struct TransitionTiles {
    pub top: Tile,
    pub bottom: Tile,
    pub left: Tile,
    pub right: Tile,
    pub top_left: Tile,
    pub top_right: Tile,
    pub bottom_left: Tile,
    pub bottom_right: Tile,
    pub corner_top_left: Tile,
    pub corner_top_right: Tile,
    pub corner_bottom_left: Tile,
    pub corner_bottom_right: Tile,
}

/// The plain tile placed for each category where no transition applies.
#[derive(Clone, Copy, Debug, PartialEq, Eq, Structural)]
pub struct CategoryTiles {
    pub grass: Tile,
    pub dirt: Tile,
    pub water: Tile,
}

/// The plain tile for a category.
pub open spec fn category_tile(plain: CategoryTiles, category: TileCategory) -> Tile {
    match category {
        TileCategory::Grass => plain.grass,
        TileCategory::Dirt => plain.dirt,
        TileCategory::Water => plain.water,
    }
}

/// The transition tile for a position, if any. Exactly one outcome applies
/// per position: an exact right-angle match of two adjacent differing
/// orthogonal neighbours selects a corner-cut tile; a single differing side
/// selects a straight edge tile; otherwise differing diagonal neighbours
/// select a rounded corner tile; otherwise there is no transition. Grass
/// positions never receive a transition tile.
pub open spec fn transition_tile_for(
    s: Seq<PlanEntry>,
    x: int,
    y: int,
    dirt: TransitionTiles,
    water: TransitionTiles,
) -> Option<Tile> {
    let category = plan_category(s, x, y);
    if category == TileCategory::Grass {
        None
    } else {
        let tiles = if category == TileCategory::Water {
            water
        } else {
            dirt
        };
        let (above, below, left, right) = surrounding_differs(s, category, x, y);
        if above && left && !right {
            Some(tiles.top_left)
        } else if above && !left && right {
            Some(tiles.top_right)
        } else if below && left && !right {
            Some(tiles.bottom_left)
        } else if below && !left && right {
            Some(tiles.bottom_right)
        } else if above && !left && !right {
            Some(tiles.top)
        } else if below && !left && !right {
            Some(tiles.bottom)
        } else if !above && !below && left {
            Some(tiles.left)
        } else if !above && !below && right {
            Some(tiles.right)
        } else {
            let diag_top_left = plan_category(s, x - 1, y + 1) != category;
            let diag_top_right = plan_category(s, x + 1, y + 1) != category;
            let diag_bottom_left = plan_category(s, x - 1, y - 1) != category;
            let diag_bottom_right = plan_category(s, x + 1, y - 1) != category;
            if diag_top_left && !diag_top_right && !diag_bottom_left {
                Some(tiles.corner_top_left)
            } else if !diag_top_left && diag_top_right && !diag_bottom_right {
                Some(tiles.corner_top_right)
            } else if !diag_top_left && diag_bottom_left && !diag_bottom_right {
                Some(tiles.corner_bottom_left)
            } else if !diag_top_right && !diag_bottom_left && diag_bottom_right {
                Some(tiles.corner_bottom_right)
            } else {
                None
            }
        }
    }
}

/// The final tile for a position: its transition tile where one applies,
/// else the plain tile of its category.
pub open spec fn plan_tile_at(
    s: Seq<PlanEntry>,
    dirt: TransitionTiles,
    water: TransitionTiles,
    plain: CategoryTiles,
    x: int,
    y: int,
) -> Tile {
    match transition_tile_for(s, x, y, dirt, water) {
        Some(t) => t,
        None => category_tile(plain, plan_category(s, x, y)),
    }
}

/// The full tile grid of the chunk a plan converts to, in row-major order.
pub open spec fn plan_chunk_tiles(
    s: Seq<PlanEntry>,
    dirt: TransitionTiles,
    water: TransitionTiles,
    plain: CategoryTiles,
) -> Seq<Tile> {
    Seq::new(256, |i: int| plan_tile_at(s, dirt, water, plain, i % 16, i / 16))
}

impl CategoryTiles {
    /// The plain tile for a category.
    pub fn tile_for(&self, category: TileCategory) -> (r: Tile)
        ensures
            r == category_tile(*self, category),
    {
        match category {
            TileCategory::Grass => self.grass,
            TileCategory::Dirt => self.dirt,
            TileCategory::Water => self.water,
        }
    }
}

impl ChunkPlan {
    /// The transition tile for the given offset, if one applies there.
    pub fn maybe_transition_tile(
        &self,
        offset_x: i32,
        offset_y: i32,
        dirt_transitions: &TransitionTiles,
        water_transitions: &TransitionTiles,
    ) -> (r: Option<Tile>)
        requires
            self.wf(),
        ensures
            r == transition_tile_for(
                self@,
                offset_x as int,
                offset_y as int,
                *dirt_transitions,
                *water_transitions,
            ),
    {
        let x = offset_x as i64;
        let y = offset_y as i64;
        let category = self.category_at_wide(x, y);
        if category == TileCategory::Grass {
            return None;
        }
        let tiles = if category == TileCategory::Water {
            water_transitions
        } else {
            dirt_transitions
        };
        let (above, below, left, right) = self.surrounding_not_equal_to(
            category,
            offset_x,
            offset_y,
        );
        if above && left && !right {
            Some(tiles.top_left)
        } else if above && !left && right {
            Some(tiles.top_right)
        } else if below && left && !right {
            Some(tiles.bottom_left)
        } else if below && !left && right {
            Some(tiles.bottom_right)
        } else if above && !left && !right {
            Some(tiles.top)
        } else if below && !left && !right {
            Some(tiles.bottom)
        } else if !above && !below && left {
            Some(tiles.left)
        } else if !above && !below && right {
            Some(tiles.right)
        } else {
            let diag_top_left = !(self.category_at_wide(x - 1, y + 1) == category);
            let diag_top_right = !(self.category_at_wide(x + 1, y + 1) == category);
            let diag_bottom_left = !(self.category_at_wide(x - 1, y - 1) == category);
            let diag_bottom_right = !(self.category_at_wide(x + 1, y - 1) == category);
            if diag_top_left && !diag_top_right && !diag_bottom_left {
                Some(tiles.corner_top_left)
            } else if !diag_top_left && diag_top_right && !diag_bottom_right {
                Some(tiles.corner_top_right)
            } else if !diag_top_left && diag_bottom_left && !diag_bottom_right {
                Some(tiles.corner_bottom_left)
            } else if !diag_top_right && !diag_bottom_left && diag_bottom_right {
                Some(tiles.corner_bottom_right)
            } else {
                None
            }
        }
    }

    /// Convert the finished plan into a concrete chunk: each offset receives
    /// its transition tile where one applies, else the plain tile of its
    /// category.
    pub fn to_chunk(
        &self,
        dirt_transitions: &TransitionTiles,
        water_transitions: &TransitionTiles,
        plain_tiles: &CategoryTiles,
    ) -> (r: Chunk)
        requires
            self.wf(),
        ensures
            r.wf(),
            r@ == plan_chunk_tiles(self@, *dirt_transitions, *water_transitions, *plain_tiles),
    {
        let ghost target = plan_chunk_tiles(
            self@,
            *dirt_transitions,
            *water_transitions,
            *plain_tiles,
        );
        let mut chunk = Chunk::new();
        let mut offset_x: u8 = 0;
        while offset_x < 16
            invariant
                self.wf(),
                offset_x <= 16,
                chunk.wf(),
                target == plan_chunk_tiles(
                    self@,
                    *dirt_transitions,
                    *water_transitions,
                    *plain_tiles,
                ),
                forall|i: int|
                    0 <= i < 256 ==> chunk@[i] == (if i % 16 < offset_x as int {
                        target[i]
                    } else {
                        crate::tile::default_tile()
                    }),
            decreases 16 - offset_x,
        {
            let mut offset_y: u8 = 0;
            while offset_y < 16
                invariant
                    self.wf(),
                    offset_x < 16,
                    offset_y <= 16,
                    chunk.wf(),
                    target == plan_chunk_tiles(
                        self@,
                        *dirt_transitions,
                        *water_transitions,
                        *plain_tiles,
                    ),
                    forall|i: int|
                        0 <= i < 256 ==> chunk@[i] == (if i % 16 < offset_x as int || (i % 16
                            == offset_x as int && i / 16 < offset_y as int) {
                            target[i]
                        } else {
                            crate::tile::default_tile()
                        }),
                decreases 16 - offset_y,
            {
                let category = self.get_category_at(offset_x as i32, offset_y as i32);
                let tile = match self.maybe_transition_tile(
                    offset_x as i32,
                    offset_y as i32,
                    dirt_transitions,
                    water_transitions,
                ) {
                    Some(t) => t,
                    None => plain_tiles.tile_for(category),
                };
                let coords = OffsetCoords { x: offset_x, y: offset_y };
                proof {
                    let idx = offset_y as int * 16 + offset_x as int;
                    vstd::arithmetic::div_mod::lemma_fundamental_div_mod_converse(
                        idx,
                        16,
                        offset_y as int,
                        offset_x as int,
                    );
                    assert(target[idx] == tile);
                }
                chunk.set_tile_at_offset(coords, tile);
                offset_y += 1;
            }
            offset_x += 1;
        }
        proof {
            assert(chunk@ =~= target);
        }
        chunk
    }
}

} // verus!
