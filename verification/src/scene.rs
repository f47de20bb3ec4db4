//! Scene bookkeeping: how many particles and stars to keep, and when the
//! screen has changed size.

use vstd::prelude::*;

verus! {

/// Confetti density settings.
pub const DENSITY_LIGHT: u32 = 0;
pub const DENSITY_NORMAL: u32 = 1;
pub const DENSITY_HEAVY: u32 = 2;

/// Confetti count for the density setting before load and quality scaling:
/// 20 for light, 150 for heavy and 60 otherwise.
pub open spec fn density_base_spec(option: u32) -> u32 {
    if option == DENSITY_LIGHT {
        20
    } else if option == DENSITY_HEAVY {
        150
    } else {
        60
    }
}

/// Confetti count for the density setting before load and quality scaling.
pub fn density_base(option: u32) -> (n: u32)
    ensures
        n == density_base_spec(option),
{
    match option {
        0 => 20,
        2 => 150,
        _ => 60,
    }
}

/// A heavier density setting never asks for less confetti: light < normal <
/// heavy, and any unknown setting counts as normal.
pub proof fn lemma_density_order(option: u32)
    ensures
        density_base_spec(DENSITY_LIGHT) < density_base_spec(DENSITY_NORMAL) < density_base_spec(
            DENSITY_HEAVY,
        ),
        option != DENSITY_LIGHT && option != DENSITY_HEAVY ==> density_base_spec(option)
            == density_base_spec(DENSITY_NORMAL),
{
}

/// Fewest and most background stars before quality scaling.
pub const MIN_STARS: usize = 20;
pub const MAX_STARS: usize = 90;

/// Background stars before quality scaling: one per twenty cells, kept
/// between [`MIN_STARS`] and [`MAX_STARS`].
pub open spec fn star_base_spec(cols: int, rows: int) -> int {
    let n = cols * rows / 20;
    if n < MIN_STARS {
        MIN_STARS as int
    } else if n > MAX_STARS {
        MAX_STARS as int
    } else {
        n
    }
}

/// Background stars before quality scaling for a `cols` by `rows` screen.
pub fn star_base(cols: usize, rows: usize) -> (n: usize)
    requires
        cols * rows <= usize::MAX,
    ensures
        n == star_base_spec(cols as int, rows as int),
        MIN_STARS <= n <= MAX_STARS,
{
    let n: usize = cols * rows / 20;
    if n < MIN_STARS {
        MIN_STARS
    } else if n > MAX_STARS {
        MAX_STARS
    } else {
        n
    }
}

/// Shortens `items` to `target` when it is longer, and returns how many
/// items are missing to reach `target` (0 when it was long enough).
pub fn trim_population<T>(items: &mut Vec<T>, target: usize) -> (missing: usize)
    ensures
        old(items)@.len() >= target ==> final(items)@ == old(items)@.subrange(0, target as int)
            && missing == 0,
        old(items)@.len() < target ==> final(items)@ == old(items)@ && missing == target - old(
            items,
        )@.len(),
{
    if items.len() > target {
        items.truncate(target);
        0
    } else {
        if items.len() == target {
            proof {
                assert(items@.subrange(0, target as int) =~= items@);
            }
        }
        target - items.len()
    }
}

/// Trimming a population and then adding the missing items leaves exactly
/// `target` items, the first of which are the old ones.
pub proof fn lemma_trim_then_refill<T>(old_items: Seq<T>, new_items: Seq<T>, target: nat, missing: nat, added: Seq<T>)
    requires
        old_items.len() >= target ==> new_items == old_items.subrange(0, target as int) && missing == 0,
        old_items.len() < target ==> new_items == old_items && missing == target - old_items.len(),
        added.len() == missing,
    ensures
        (new_items + added).len() == target,
        forall|i: int| 0 <= i < target && i < old_items.len() ==> #[trigger] (new_items + added)[i] == old_items[i],
{
}

/// The screen size the scene was last laid out for.
pub struct SceneSize {
    pub cols: usize,
    pub rows: usize,
}

/// Whether a `cols` by `rows` screen differs from the last layout.
pub open spec fn size_changed(last: SceneSize, cols: usize, rows: usize) -> bool {
    cols != last.cols || rows != last.rows
}

impl SceneSize {
    /// No layout yet: a zero-sized screen.
    pub fn new() -> (s: SceneSize)
        ensures
            s.cols == 0,
            s.rows == 0,
    {
        SceneSize { cols: 0, rows: 0 }
    }

    /// Records the current screen size and says whether it differs from the
    /// last one, in which case the scene must be laid out anew.
    pub fn observe(&mut self, cols: usize, rows: usize) -> (resized: bool)
        ensures
            resized == size_changed(*old(self), cols, rows),
            final(self).cols == cols,
            final(self).rows == rows,
    {
        let resized = cols != self.cols || rows != self.rows;
        self.cols = cols;
        self.rows = rows;
        resized
    }
}

/// Once a size has been observed, observing it again reports no resize.
pub proof fn lemma_observe_settles(cols: usize, rows: usize)
    ensures
        !size_changed(SceneSize { cols, rows }, cols, rows),
{
}

} // verus!
