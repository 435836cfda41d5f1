//! Level areas: which level holds the player, and where the camera may look.
use vstd::prelude::*;
use crate::geometry::{Vec2i, UNIT, clamp, round_div};
use crate::camera::{XRange, follow_point};

verus! {

/// A level placed in the world: its origin (lower-left corner) in position
/// units and its size in pixels.
#[derive(Clone, Copy, Debug, PartialEq, Eq, Structural)]
pub struct Level {
    pub id: u64,
    pub origin: Vec2i,
    pub px_wid: u32,
    pub px_hei: u32,
}

/// An axis-aligned rectangle in position units.
#[derive(Clone, Copy, Debug, PartialEq, Eq, Structural)]
pub struct LevelBounds {
    pub min_x: i64,
    pub min_y: i64,
    pub max_x: i64,
    pub max_y: i64,
}

impl Level {
    /// Width of the level in position units.
    pub open spec fn width(&self) -> int {
        self.px_wid * UNIT
    }

    /// Height of the level in position units.
    pub open spec fn height(&self) -> int {
        self.px_hei * UNIT
    }

    /// The far corner of the level is representable.
    pub open spec fn wf(&self) -> bool {
        &&& self.origin.x + self.width() <= i64::MAX
        &&& self.origin.y + self.height() <= i64::MAX
    }

    /// Whether `p` lies strictly inside the level.
    pub open spec fn contains_spec(&self, p: Vec2i) -> bool {
        &&& self.origin.x < p.x < self.origin.x + self.width()
        &&& self.origin.y < p.y < self.origin.y + self.height()
    }

    pub fn contains(&self, p: Vec2i) -> (r: bool)
        ensures
            r == self.contains_spec(p),
    {
        let unit: i128 = UNIT as i128;
        assert(unit == 1000);
        let max_x: i128 = self.origin.x as i128 + self.px_wid as i128 * unit;
        let max_y: i128 = self.origin.y as i128 + self.px_hei as i128 * unit;
        self.origin.x < p.x && (p.x as i128) < max_x && self.origin.y < p.y && (p.y as i128) < max_y
    }

    /// Whether the far corner of the level is representable.
    pub fn is_representable(&self) -> (r: bool)
        ensures
            r == self.wf(),
    {
        let unit: i128 = UNIT as i128;
        assert(unit == 1000);
        self.origin.x as i128 + self.px_wid as i128 * unit <= i64::MAX as i128
            && self.origin.y as i128 + self.px_hei as i128 * unit <= i64::MAX as i128
    }

    pub fn bounds(&self) -> (r: LevelBounds)
        requires
            self.wf(),
        ensures
            r.min_x == self.origin.x,
            r.min_y == self.origin.y,
            r.max_x == self.origin.x + self.width(),
            r.max_y == self.origin.y + self.height(),
    {
        LevelBounds {
            min_x: self.origin.x,
            min_y: self.origin.y,
            max_x: self.origin.x + self.px_wid as i64 * UNIT,
            max_y: self.origin.y + self.px_hei as i64 * UNIT,
        }
    }
}

/// Horizontal limits for a camera centre whose view reaches `half_view` to
/// each side, so that the view stays inside the level; none when the level is
/// narrower than the view.
pub open spec fn camera_range_spec(bounds: LevelBounds, half_view: int) -> Option<XRange> {
    if bounds.min_x + half_view <= bounds.max_x - half_view {
        Some(
            XRange {
                min_x: (bounds.min_x + half_view) as i64,
                max_x: (bounds.max_x - half_view) as i64,
            },
        )
    } else {
        None
    }
}

pub fn camera_x_range(bounds: LevelBounds, half_view: i64) -> (r: Option<XRange>)
    requires
        half_view >= 0,
    ensures
        r == camera_range_spec(bounds, half_view as int),
        r matches Some(x) ==> x.wf(),
{
    let lo: i128 = bounds.min_x as i128 + half_view as i128;
    let hi: i128 = bounds.max_x as i128 - half_view as i128;
    if lo <= hi {
        Some(XRange { min_x: lo as i64, max_x: hi as i64 })
    } else {
        None
    }
}

/// A camera inside a level's camera range stays inside it after a follow
/// step, wherever the target is: its centre keeps `half_view` away from both
/// horizontal edges of the level.
pub proof fn lemma_camera_stays_in_level(
    bounds: LevelBounds,
    half_view: int,
    cx: int,
    cy: int,
    tx: int,
    ty: int,
    factor: int,
)
    requires
        half_view >= 0,
        bounds.min_x + half_view <= cx <= bounds.max_x - half_view,
    ensures
        bounds.min_x + half_view <= follow_point(cx, cy, tx, ty, factor, camera_range_spec(bounds, half_view)).0
            <= bounds.max_x - half_view,
{
}

/// Whether some player stands strictly inside the level.
pub open spec fn holds_player(level: Level, players: Seq<Vec2i>) -> bool {
    exists|j: int| 0 <= j < players.len() && level.contains_spec(#[trigger] players[j])
}

/// The selected level after looking at each level in turn: a level that holds
/// a player becomes the selection, so the last such level wins.
pub open spec fn selection_after(levels: Seq<Level>, players: Seq<Vec2i>, selected: u64) -> u64
    decreases levels.len(),
{
    if levels.len() == 0 {
        selected
    } else {
        let before = selection_after(levels.drop_last(), players, selected);
        if holds_player(levels.last(), players) {
            levels.last().id
        } else {
            before
        }
    }
}

fn level_holds_player(level: &Level, players: &Vec<Vec2i>) -> (r: bool)
    ensures
        r == holds_player(*level, players@),
{
    let mut j: usize = 0;
    while j < players.len()
        invariant
            j <= players.len(),
            forall|k: int| 0 <= k < j ==> !level.contains_spec(#[trigger] players@[k]),
        decreases players.len() - j,
    {
        if level.contains(players[j]) {
            return true;
        }
        j = j + 1;
    }
    false
}

/// Selects the level that a player has walked into. Levels are looked at in
/// order; each one that holds a player strictly inside becomes the selection.
/// With no player inside any level the selection stays as it was.
pub fn update_level_selection(levels: &Vec<Level>, players: &Vec<Vec2i>, selected: u64) -> (r: u64)
    ensures
        r == selection_after(levels@, players@, selected),
{
    let mut current = selected;
    let mut i: usize = 0;
    while i < levels.len()
        invariant
            i <= levels.len(),
            current == selection_after(levels@.subrange(0, i as int), players@, selected),
        decreases levels.len() - i,
    {
        let level = &levels[i];
        let holds = level_holds_player(level, players);
        proof {
            let next = levels@.subrange(0, i + 1);
            assert(next.drop_last() =~= levels@.subrange(0, i as int));
            assert(next.last() == levels@[i as int]);
        }
        if holds {
            current = level.id;
        }
        i = i + 1;
    }
    assert(levels@.subrange(0, levels.len() as int) =~= levels@);
    current
}

/// A fixed-size camera view and the position of its lower-left corner.
#[derive(Clone, Copy, Debug, PartialEq, Eq, Structural)]
pub struct CameraFit {
    pub width: i64,
    pub height: i64,
    pub corner: Vec2i,
}

/// The level is wider than a 16:9 screen.
pub open spec fn wider_than_screen(level: Level) -> bool {
    9 * level.px_wid > 16 * level.px_hei
}

/// Screen-sized steps across the level: whole multiples of 9 pixels of its
/// height when it is wider than the screen, else of 16 pixels of its width.
pub open spec fn fit_steps(level: Level) -> int {
    if wider_than_screen(level) {
        round_div(level.px_hei as int, 9)
    } else {
        round_div(level.px_wid as int, 16)
    }
}

/// Width of the 16:9 view that fits the level, in position units.
pub open spec fn fit_width(level: Level) -> int {
    16 * fit_steps(level) * UNIT
}

/// Height of the 16:9 view that fits the level, in position units.
pub open spec fn fit_height(level: Level) -> int {
    9 * fit_steps(level) * UNIT
}

/// The view is no larger than the level along the axis it scrolls on.
pub open spec fn fit_possible(level: Level) -> bool {
    if wider_than_screen(level) {
        fit_width(level) <= level.width()
    } else {
        fit_height(level) <= level.height()
    }
}

/// Lower-left corner of the view: centred on the player along the scrolling
/// axis as far as the level allows, and at the level's edge along the other.
pub open spec fn fit_corner(level: Level, player: Vec2i) -> (int, int) {
    if wider_than_screen(level) {
        (
            clamp(player.x - level.origin.x - fit_width(level) / 2, 0, level.width() - fit_width(level))
                + level.origin.x,
            level.origin.y as int,
        )
    } else {
        (
            level.origin.x as int,
            clamp(player.y - level.origin.y - fit_height(level) / 2, 0, level.height() - fit_height(level))
                + level.origin.y,
        )
    }
}

/// Fits a 16:9 view to the level: a level wider than the screen is shown at
/// its full height and scrolls sideways with the player, any other at its full
/// width and scrolls vertically. None when the view would be larger than the
/// level along the scrolling axis.
pub fn camera_fit_inside_current_level(level: &Level, player: Vec2i) -> (r: Option<CameraFit>)
    requires
        level.wf(),
    ensures
        r is Some <==> fit_possible(*level),
        r matches Some(f) ==> {
            &&& f.width == fit_width(*level)
            &&& f.height == fit_height(*level)
            &&& (f.corner.x as int, f.corner.y as int) == fit_corner(*level, player)
        },
{
    let wid: u64 = level.px_wid as u64;
    let hei: u64 = level.px_hei as u64;
    let wider = 9 * wid > 16 * hei;
    let steps: u64 = if wider {
        (2 * hei + 9) / 18
    } else {
        (2 * wid + 16) / 32
    };
    let width: i64 = 16 * steps as i64 * UNIT;
    let height: i64 = 9 * steps as i64 * UNIT;
    let level_w: i64 = wid as i64 * UNIT;
    let level_h: i64 = hei as i64 * UNIT;
    if wider {
        if width > level_w {
            return None;
        }
        let offset: i128 = player.x as i128 - level.origin.x as i128 - (width / 2) as i128;
        let limited = if offset < 0 {
            0
        } else if offset > (level_w - width) as i128 {
            level_w - width
        } else {
            offset as i64
        };
        Some(
            CameraFit {
                width,
                height,
                corner: Vec2i { x: limited + level.origin.x, y: level.origin.y },
            },
        )
    } else {
        if height > level_h {
            return None;
        }
        let offset: i128 = player.y as i128 - level.origin.y as i128 - (height / 2) as i128;
        let limited = if offset < 0 {
            0
        } else if offset > (level_h - height) as i128 {
            level_h - height
        } else {
            offset as i64
        };
        Some(
            CameraFit {
                width,
                height,
                corner: Vec2i { x: level.origin.x, y: limited + level.origin.y },
            },
        )
    }
}

} // verus!
