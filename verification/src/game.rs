//! Game state and the per-frame transitions: edge-triggered firing,
//! bounds-checked player movement, and laser retention and advancement.
//!
//! Every transition of the executable state is pinned to a mathematical
//! model (`GameModel`, over `int` and `Seq`) by the `ensures` of the
//! corresponding method, and the model transitions themselves are plain
//! spec functions, so that frame-by-frame laws can be proved about them
//! (see the `laws` module).

use vstd::prelude::*;

verus! {

/// Horizontal distance the player moves per frame in which a direction key
/// is held (vertical movement uses the same step).
pub const PLAYER_SPEED: i32 = 10;

/// Horizontal distance a laser travels per frame.
pub const LASER_SPEED: i32 = 50;

/// Horizontal offset between a laser's stored position and the point where
/// it is rendered: ahead of the position when right-facing, behind otherwise.
pub const LASER_DRAW_OFFSET: i32 = 40;

/// Largest screen or sprite dimension the update accepts. Keeps every
/// coordinate computation far away from `i32` overflow.
pub const MAX_DIM: i32 = 1_000_000;

/// Bound within which player and laser coordinates are kept; together with
/// `MAX_DIM` it makes all per-frame arithmetic overflow-free.
pub const MAX_COORD: i32 = 2_000_000;

/// A laser shot: a position and the fixed direction it travels in.
#[derive(Clone, Copy, PartialEq, Eq, Structural, Debug)]
pub struct Laser {
    pub x: i32,
    pub y: i32,
    pub right_facing: bool,
}

/// Mathematical view of a `Laser`, with unbounded coordinates.
pub ghost struct LaserModel {
    pub x: int,
    pub y: int,
    pub right_facing: bool,
}

impl View for Laser {
    type V = LaserModel;

    open spec fn view(&self) -> LaserModel {
        LaserModel { x: self.x as int, y: self.y as int, right_facing: self.right_facing }
    }
}

impl Laser {
    /// Makes a laser at `(x, y)` travelling right when `right_facing` holds.
    pub fn new(x: i32, y: i32, right_facing: bool) -> (laser: Laser)
        ensures
            laser@ == (LaserModel { x: x as int, y: y as int, right_facing }),
    {
        Laser { x, y, right_facing }
    }
}

/// The keys sampled once per frame, each `true` while held down.
#[derive(Clone, Copy, PartialEq, Eq, Structural, Debug)]
pub struct Input {
    pub fire: bool,
    pub left: bool,
    pub right: bool,
    pub up: bool,
    pub down: bool,
}

/// The whole mutable game state.
pub struct MyGame {
    /// Incremented once per distinct press of the fire key; never decremented.
    pub score: i32,
    /// Whether the fire key was already down on the previous frame.
    pub keydown: bool,
    /// Player position (top-left anchored).
    pub x: i32,
    pub y: i32,
    /// Live lasers, in spawn order.
    pub laser_positions: Vec<Laser>,
    /// Last horizontal direction moved; chooses sprite mirroring and the
    /// direction of newly fired lasers.
    pub right_facing: bool,
}

/// Mathematical view of `MyGame`.
#[verifier::ext_equal]
pub ghost struct GameModel {
    pub score: int,
    pub keydown: bool,
    pub x: int,
    pub y: int,
    pub lasers: Seq<LaserModel>,
    pub right_facing: bool,
}

/// The views of a sequence of lasers, element by element.
pub open spec fn lasers_view(lasers: Seq<Laser>) -> Seq<LaserModel> {
    lasers.map_values(|laser: Laser| laser@)
}

impl View for MyGame {
    type V = GameModel;

    open spec fn view(&self) -> GameModel {
        GameModel {
            score: self.score as int,
            keydown: self.keydown,
            x: self.x as int,
            y: self.y as int,
            lasers: lasers_view(self.laser_positions@),
            right_facing: self.right_facing,
        }
    }
}

/// The state the game starts in: score zero, fire key not held, player at
/// `(50, 50)` facing right, no lasers.
pub open spec fn initial_state() -> GameModel {
    GameModel {
        score: 0,
        keydown: false,
        x: 50,
        y: 50,
        lasers: Seq::empty(),
        right_facing: true,
    }
}

/// Whether a laser is on screen horizontally: at least zero and short of
/// the right edge. Lasers that are not are dropped at the start of the
/// next update.
pub open spec fn laser_onscreen(laser: LaserModel, screen_w: int) -> bool {
    0 <= laser.x && laser.x < screen_w
}

/// The lasers of `lasers` that are still on screen, in order.
pub open spec fn retain_onscreen(lasers: Seq<LaserModel>, screen_w: int) -> Seq<LaserModel>
    decreases lasers.len(),
{
    if lasers.len() == 0 {
        Seq::empty()
    } else {
        let rest = retain_onscreen(lasers.drop_last(), screen_w);
        if laser_onscreen(lasers.last(), screen_w) {
            rest.push(lasers.last())
        } else {
            rest
        }
    }
}

/// The laser spawned by a fire press in state `g`: at the player's x, a
/// sixth of the sprite height below the player's y, travelling the way the
/// player faces.
pub open spec fn spawned_laser(g: GameModel, sprite_h: int) -> LaserModel {
    LaserModel { x: g.x, y: g.y + sprite_h / 6, right_facing: g.right_facing }
}

/// The fire step: on a distinct press (key down now, not held on the
/// previous frame) the score rises by one and a laser spawns; whenever the
/// key is up the held flag clears.
pub open spec fn fire_phase(g: GameModel, fire: bool, sprite_h: int) -> GameModel {
    let pressed = if fire && !g.keydown {
        GameModel {
            score: g.score + 1,
            keydown: true,
            lasers: g.lasers.push(spawned_laser(g, sprite_h)),
            ..g
        }
    } else {
        g
    };
    if !fire {
        GameModel { keydown: false, ..pressed }
    } else {
        pressed
    }
}

/// The player's x after the move-right step.
pub open spec fn step_right(x: int, right: bool, screen_w: int, sprite_w: int) -> int {
    if right && x + sprite_w / 4 < screen_w {
        x + PLAYER_SPEED as int
    } else {
        x
    }
}

/// The player's x after the move-left step.
pub open spec fn step_left(x: int, left: bool, sprite_w: int) -> int {
    if left && x - sprite_w / 4 > 0 {
        x - PLAYER_SPEED as int
    } else {
        x
    }
}

/// The player's y after the move-up step.
pub open spec fn step_up(y: int, up: bool) -> int {
    if up && y > 0 {
        y - PLAYER_SPEED as int
    } else {
        y
    }
}

/// The player's y after the move-down step.
pub open spec fn step_down(y: int, down: bool, screen_h: int, sprite_h: int) -> int {
    if down && y + sprite_h / 2 < screen_h {
        y + PLAYER_SPEED as int
    } else {
        y
    }
}

/// The move-right step: pressing right always turns the player to face
/// right, and moves it unless the bound check stops the move.
pub open spec fn move_right_phase(g: GameModel, right: bool, screen_w: int, sprite_w: int) -> GameModel {
    GameModel {
        x: step_right(g.x, right, screen_w, sprite_w),
        right_facing: if right { true } else { g.right_facing },
        ..g
    }
}

/// The move-left step, symmetric to move-right; it runs after move-right,
/// so when both keys are down in one frame the facing ends up left.
pub open spec fn move_left_phase(g: GameModel, left: bool, sprite_w: int) -> GameModel {
    GameModel {
        x: step_left(g.x, left, sprite_w),
        right_facing: if left { false } else { g.right_facing },
        ..g
    }
}

/// One whole update step: drop off-screen lasers from the previous frame's
/// positions, then fire, then move right, left, up, down, in that order.
pub open spec fn spec_update(
    g: GameModel,
    input: Input,
    screen_w: int,
    screen_h: int,
    sprite_w: int,
    sprite_h: int,
) -> GameModel {
    let retained = GameModel { lasers: retain_onscreen(g.lasers, screen_w), ..g };
    let fired = fire_phase(retained, input.fire, sprite_h);
    let moved_right = move_right_phase(fired, input.right, screen_w, sprite_w);
    let moved_left = move_left_phase(moved_right, input.left, sprite_w);
    let moved_up = GameModel { y: step_up(moved_left.y, input.up), ..moved_left };
    GameModel { y: step_down(moved_up.y, input.down, screen_h, sprite_h), ..moved_up }
}

/// One laser's travel for one frame: `LASER_SPEED` along its direction.
pub open spec fn advance_laser(laser: LaserModel) -> LaserModel {
    if laser.right_facing {
        LaserModel { x: laser.x + LASER_SPEED as int, ..laser }
    } else {
        LaserModel { x: laser.x - LASER_SPEED as int, ..laser }
    }
}

/// Every live laser advanced one frame.
pub open spec fn spec_advance(lasers: Seq<LaserModel>) -> Seq<LaserModel> {
    lasers.map_values(|laser: LaserModel| advance_laser(laser))
}

/// The draw pass's effect on the state: every laser moves one step.
pub open spec fn advance_frame(g: GameModel) -> GameModel {
    GameModel { lasers: spec_advance(g.lasers), ..g }
}

/// One whole frame: the update step followed by the draw pass's laser
/// movement.
pub open spec fn spec_frame(
    g: GameModel,
    input: Input,
    screen_w: int,
    screen_h: int,
    sprite_w: int,
    sprite_h: int,
) -> GameModel {
    advance_frame(spec_update(g, input, screen_w, screen_h, sprite_w, sprite_h))
}

/// The state after running the frames of `inputs` in order.
pub open spec fn run_frames(
    g: GameModel,
    inputs: Seq<Input>,
    screen_w: int,
    screen_h: int,
    sprite_w: int,
    sprite_h: int,
) -> GameModel
    decreases inputs.len(),
{
    if inputs.len() == 0 {
        g
    } else {
        run_frames(
            spec_frame(g, inputs[0], screen_w, screen_h, sprite_w, sprite_h),
            inputs.drop_first(),
            screen_w,
            screen_h,
            sprite_w,
            sprite_h,
        )
    }
}

/// How many distinct presses of the fire key the frames of `inputs` hold:
/// a press counts when the key is down on a frame and was not down on the
/// frame before (`held` tells whether it was down just before the first).
pub open spec fn press_count(held: bool, inputs: Seq<Input>) -> int
    decreases inputs.len(),
{
    if inputs.len() == 0 {
        0
    } else {
        (if inputs[0].fire && !held { 1int } else { 0int })
            + press_count(inputs[0].fire, inputs.drop_first())
    }
}

/// The fire key is down on every frame of `inputs`.
pub open spec fn all_inputs_fire(inputs: Seq<Input>) -> bool {
    forall|i: int| 0 <= i < inputs.len() ==> (#[trigger] inputs[i]).fire
}

/// Screen and sprite dimensions the update accepts.
pub open spec fn dims_ok(screen_w: int, screen_h: int, sprite_w: int, sprite_h: int) -> bool {
    0 <= screen_w <= MAX_DIM as int && 0 <= screen_h <= MAX_DIM as int
        && 0 <= sprite_w <= MAX_DIM as int && 0 <= sprite_h <= MAX_DIM as int
}

/// Player coordinates within the overflow-safe range.
pub open spec fn player_in_range(g: GameModel) -> bool {
    -(MAX_COORD as int) <= g.x <= MAX_COORD as int
        && -(MAX_COORD as int) <= g.y <= MAX_COORD as int
}

/// Laser coordinates within the overflow-safe range.
pub open spec fn lasers_in_range(lasers: Seq<LaserModel>) -> bool {
    forall|i: int| 0 <= i < lasers.len() ==> -(MAX_COORD as int) <= #[trigger] lasers[i].x <= MAX_COORD as int
}

impl MyGame {
    /// Makes the initial game state.
    pub fn new() -> (game: MyGame)
        ensures
            game@ == initial_state(),
    {
        let game = MyGame {
            score: 0,
            keydown: false,
            x: 50,
            y: 50,
            laser_positions: Vec::new(),
            right_facing: true,
        };
        proof {
            assert(lasers_view(game.laser_positions@) =~= Seq::<LaserModel>::empty());
            assert(game@ =~= initial_state());
        }
        game
    }

    /// One update step, from the keys sampled this frame and the current
    /// screen and sprite dimensions. Runs the fixed order the model fixes:
    /// drop off-screen lasers, fire, move right, left, up, down.
    pub fn update(
        &mut self,
        input: Input,
        screen_w: i32,
        screen_h: i32,
        sprite_w: i32,
        sprite_h: i32,
    )
        requires
            dims_ok(screen_w as int, screen_h as int, sprite_w as int, sprite_h as int),
            player_in_range(old(self)@),
            old(self).score < i32::MAX,
        ensures
            final(self)@ == spec_update(
                old(self)@,
                input,
                screen_w as int,
                screen_h as int,
                sprite_w as int,
                sprite_h as int,
            ),
    {
        let ghost g0 = self@;
        let kept = kept_onscreen(&self.laser_positions, screen_w);
        self.laser_positions = kept;
        let ghost retained = GameModel { lasers: retain_onscreen(g0.lasers, screen_w as int), ..g0 };
        assert(self@ =~= retained);

        if input.fire && !self.keydown {
            self.score = self.score + 1;
            let laser = Laser::new(self.x, self.y + sprite_h / 6, self.right_facing);
            assert(laser@ == spawned_laser(retained, sprite_h as int));
            let ghost before_push = self.laser_positions@;
            self.laser_positions.push(laser);
            self.keydown = true;
            assert(lasers_view(before_push.push(laser)) =~= lasers_view(before_push).push(laser@));
        }
        if !input.fire {
            self.keydown = false;
        }
        let ghost fired = fire_phase(retained, input.fire, sprite_h as int);
        assert(self@ =~= fired);

        if input.right {
            if self.x + sprite_w / 4 < screen_w {
                self.x = self.x + PLAYER_SPEED;
            }
            self.right_facing = true;
        }
        if input.left {
            if self.x - sprite_w / 4 > 0 {
                self.x = self.x - PLAYER_SPEED;
            }
            self.right_facing = false;
        }
        if input.up {
            if self.y > 0 {
                self.y = self.y - PLAYER_SPEED;
            }
        }
        if input.down {
            if self.y + sprite_h / 2 < screen_h {
                self.y = self.y + PLAYER_SPEED;
            }
        }
        assert(self@ =~= spec_update(
            g0,
            input,
            screen_w as int,
            screen_h as int,
            sprite_w as int,
            sprite_h as int,
        ));
    }

    /// The draw pass's state change: advances every live laser one step
    /// along its direction. In the frame order the game loop fixes this
    /// runs once per frame, after `update`, while the lasers are rendered.
    pub fn advance_lasers(&mut self)
        requires
            lasers_in_range(old(self)@.lasers),
        ensures
            final(self)@ == advance_frame(old(self)@),
    {
        let moved = advanced_copy(&self.laser_positions);
        self.laser_positions = moved;
        assert(self@ =~= advance_frame(old(self)@));
    }
}

/// The lasers of `lasers` whose x still lies within the screen, in order;
/// the rest are dropped.
fn kept_onscreen(lasers: &Vec<Laser>, screen_w: i32) -> (kept: Vec<Laser>)
    ensures
        lasers_view(kept@) == retain_onscreen(lasers_view(lasers@), screen_w as int),
{
    let ghost full = lasers_view(lasers@);
    let mut kept: Vec<Laser> = Vec::new();
    let mut i: usize = 0;
    proof {
        assert(lasers_view(kept@) =~= retain_onscreen(full.take(0), screen_w as int));
    }
    while i < lasers.len()
        invariant
            i <= lasers.len(),
            full == lasers_view(lasers@),
            lasers_view(kept@) == retain_onscreen(full.take(i as int), screen_w as int),
        decreases lasers.len() - i,
    {
        let laser = lasers[i];
        proof {
            assert(full.take(i as int + 1).drop_last() =~= full.take(i as int));
            assert(full.take(i as int + 1).last() == laser@);
        }
        if laser.x >= 0 && laser.x < screen_w {
            let ghost before = kept@;
            kept.push(laser);
            proof {
                assert(lasers_view(before.push(laser)) =~= lasers_view(before).push(laser@));
            }
        }
        i = i + 1;
    }
    proof {
        assert(full.take(lasers@.len() as int) =~= full);
    }
    kept
}

/// Every laser of `lasers` advanced one step along its direction.
fn advanced_copy(lasers: &Vec<Laser>) -> (moved: Vec<Laser>)
    requires
        lasers_in_range(lasers_view(lasers@)),
    ensures
        lasers_view(moved@) == spec_advance(lasers_view(lasers@)),
{
    let ghost full = lasers_view(lasers@);
    let mut moved: Vec<Laser> = Vec::new();
    let mut i: usize = 0;
    proof {
        assert(lasers_view(moved@) =~= spec_advance(full.take(0)));
    }
    while i < lasers.len()
        invariant
            i <= lasers.len(),
            full == lasers_view(lasers@),
            lasers_in_range(full),
            lasers_view(moved@) == spec_advance(full.take(i as int)),
        decreases lasers.len() - i,
    {
        let laser = lasers[i];
        assert(full[i as int] == laser@);
        assert(-(MAX_COORD as int) <= full[i as int].x <= MAX_COORD as int);
        let next = if laser.right_facing {
            Laser { x: laser.x + LASER_SPEED, ..laser }
        } else {
            Laser { x: laser.x - LASER_SPEED, ..laser }
        };
        assert(next@ == advance_laser(laser@));
        let ghost before = moved@;
        moved.push(next);
        proof {
            assert(lasers_view(before.push(next)) =~= lasers_view(before).push(next@));
            assert(spec_advance(full.take(i as int + 1)) =~= spec_advance(full.take(i as int)).push(
                advance_laser(full[i as int]),
            ));
        }
        i = i + 1;
    }
    proof {
        assert(full.take(lasers@.len() as int) =~= full);
    }
    moved
}

/// Where a laser is rendered: `LASER_DRAW_OFFSET` ahead of its position
/// when right-facing, behind it otherwise.
pub open spec fn laser_render_x(laser: LaserModel) -> int {
    if laser.right_facing {
        laser.x + LASER_DRAW_OFFSET as int
    } else {
        laser.x - LASER_DRAW_OFFSET as int
    }
}

/// The x at which `laser` is drawn this frame.
pub fn laser_draw_x(laser: &Laser) -> (x: i32)
    requires
        -(MAX_COORD as int) <= laser.x <= MAX_COORD as int,
    ensures
        x as int == laser_render_x(laser@),
{
    if laser.right_facing {
        laser.x + LASER_DRAW_OFFSET
    } else {
        laser.x - LASER_DRAW_OFFSET
    }
}

} // verus!
