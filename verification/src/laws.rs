//! Frame-by-frame laws of the game model: movement clamps, edge-triggered
//! scoring, and laser flight and removal, each proved over `run_frames`
//! or over one `spec_frame` step.

use vstd::prelude::*;

use crate::game::{
    advance_laser, all_inputs_fire, GameModel, Input, laser_onscreen, LaserModel, press_count,
    retain_onscreen, run_frames, spawned_laser, spec_frame, spec_update, step_left, step_right,
    LASER_SPEED, PLAYER_SPEED,
};

verus! {

/// The largest x from which the move-right bound check still allows a move
/// is just below this limit.
pub open spec fn right_limit(screen_w: int, sprite_w: int) -> int {
    screen_w - sprite_w / 4
}

/// The smallest x from which the move-left bound check still allows a move
/// is just above this limit.
pub open spec fn left_limit(sprite_w: int) -> int {
    sprite_w / 4
}

/// `x` sits exactly `k` movement steps below `bound`.
pub open spec fn steps_below(k: int, x: int, bound: int) -> bool {
    0 <= k && x == bound - PLAYER_SPEED as int * k
}

/// `x` is at most `bound` and offset from it by a whole number of steps.
pub open spec fn aligned_below(x: int, bound: int) -> bool {
    exists|k: int| steps_below(k, x, bound)
}

/// `x` sits exactly `k` movement steps above `bound`.
pub open spec fn steps_above(k: int, x: int, bound: int) -> bool {
    0 <= k && x == bound + PLAYER_SPEED as int * k
}

/// `x` is at least `bound` and offset from it by a whole number of steps.
pub open spec fn aligned_above(x: int, bound: int) -> bool {
    exists|k: int| steps_above(k, x, bound)
}

proof fn lemma_aligned_below_le(x: int, bound: int)
    requires
        aligned_below(x, bound),
    ensures
        x <= bound,
{
    let k = choose|k: int| steps_below(k, x, bound);
}

proof fn lemma_aligned_above_ge(x: int, bound: int)
    requires
        aligned_above(x, bound),
    ensures
        x >= bound,
{
    let k = choose|k: int| steps_above(k, x, bound);
}

/// One frame keeps the player's x a whole number of steps below the
/// move-right limit: the bound check refuses any move that would cross it.
proof fn lemma_frame_keeps_right_aligned(
    g: GameModel,
    input: Input,
    screen_w: int,
    screen_h: int,
    sprite_w: int,
    sprite_h: int,
)
    requires
        aligned_below(g.x, right_limit(screen_w, sprite_w)),
    ensures
        aligned_below(
            spec_frame(g, input, screen_w, screen_h, sprite_w, sprite_h).x,
            right_limit(screen_w, sprite_w),
        ),
{
    let bound = right_limit(screen_w, sprite_w);
    let k = choose|k: int| steps_below(k, g.x, bound);
    let x1 = step_right(g.x, input.right, screen_w, sprite_w);
    if input.right && g.x + sprite_w / 4 < screen_w {
        assert(g.x <= bound - 1);
        assert(k >= 1);
        assert(steps_below(k - 1, x1, bound));
    } else {
        assert(steps_below(k, x1, bound));
    }
    let k1 = choose|j: int| steps_below(j, x1, bound);
    let x2 = step_left(x1, input.left, sprite_w);
    if input.left && x1 - sprite_w / 4 > 0 {
        assert(steps_below(k1 + 1, x2, bound));
    } else {
        assert(steps_below(k1, x2, bound));
    }
    assert(spec_frame(g, input, screen_w, screen_h, sprite_w, sprite_h).x == x2);
}

/// One frame keeps the player's x a whole number of steps above the
/// move-left limit.
proof fn lemma_frame_keeps_left_aligned(
    g: GameModel,
    input: Input,
    screen_w: int,
    screen_h: int,
    sprite_w: int,
    sprite_h: int,
)
    requires
        aligned_above(g.x, left_limit(sprite_w)),
    ensures
        aligned_above(
            spec_frame(g, input, screen_w, screen_h, sprite_w, sprite_h).x,
            left_limit(sprite_w),
        ),
{
    let bound = left_limit(sprite_w);
    let k = choose|k: int| steps_above(k, g.x, bound);
    let x1 = step_right(g.x, input.right, screen_w, sprite_w);
    if input.right && g.x + sprite_w / 4 < screen_w {
        assert(steps_above(k + 1, x1, bound));
    } else {
        assert(steps_above(k, x1, bound));
    }
    let k1 = choose|j: int| steps_above(j, x1, bound);
    let x2 = step_left(x1, input.left, sprite_w);
    if input.left && x1 - sprite_w / 4 > 0 {
        assert(x1 >= bound + 1);
        assert(k1 >= 1);
        assert(steps_above(k1 - 1, x2, bound));
    } else {
        assert(steps_above(k1, x2, bound));
    }
    assert(spec_frame(g, input, screen_w, screen_h, sprite_w, sprite_h).x == x2);
}

/// Law: under every sequence of inputs the player's x never exceeds
/// `screen_w - sprite_w / 4`, provided it starts at or below that limit,
/// offset from it by a whole number of movement steps. (Starting unaligned
/// the check ordering lets x overshoot the limit by up to one step, so the
/// alignment premise is needed; the unconditional one-step bound is
/// `lemma_player_near_bounds`.)
pub proof fn lemma_move_right_clamped(
    g: GameModel,
    inputs: Seq<Input>,
    screen_w: int,
    screen_h: int,
    sprite_w: int,
    sprite_h: int,
)
    requires
        aligned_below(g.x, right_limit(screen_w, sprite_w)),
    ensures
        run_frames(g, inputs, screen_w, screen_h, sprite_w, sprite_h).x
            <= right_limit(screen_w, sprite_w),
        aligned_below(
            run_frames(g, inputs, screen_w, screen_h, sprite_w, sprite_h).x,
            right_limit(screen_w, sprite_w),
        ),
    decreases inputs.len(),
{
    if inputs.len() == 0 {
        lemma_aligned_below_le(g.x, right_limit(screen_w, sprite_w));
    } else {
        lemma_frame_keeps_right_aligned(g, inputs[0], screen_w, screen_h, sprite_w, sprite_h);
        lemma_move_right_clamped(
            spec_frame(g, inputs[0], screen_w, screen_h, sprite_w, sprite_h),
            inputs.drop_first(),
            screen_w,
            screen_h,
            sprite_w,
            sprite_h,
        );
    }
}

/// Law: under every sequence of inputs the player's x never goes below
/// `sprite_w / 4`, provided it starts at or above that limit, offset from
/// it by a whole number of movement steps.
pub proof fn lemma_move_left_clamped(
    g: GameModel,
    inputs: Seq<Input>,
    screen_w: int,
    screen_h: int,
    sprite_w: int,
    sprite_h: int,
)
    requires
        aligned_above(g.x, left_limit(sprite_w)),
    ensures
        run_frames(g, inputs, screen_w, screen_h, sprite_w, sprite_h).x >= left_limit(sprite_w),
        aligned_above(
            run_frames(g, inputs, screen_w, screen_h, sprite_w, sprite_h).x,
            left_limit(sprite_w),
        ),
    decreases inputs.len(),
{
    if inputs.len() == 0 {
        lemma_aligned_above_ge(g.x, left_limit(sprite_w));
    } else {
        lemma_frame_keeps_left_aligned(g, inputs[0], screen_w, screen_h, sprite_w, sprite_h);
        lemma_move_left_clamped(
            spec_frame(g, inputs[0], screen_w, screen_h, sprite_w, sprite_h),
            inputs.drop_first(),
            screen_w,
            screen_h,
            sprite_w,
            sprite_h,
        );
    }
}

/// Law: whatever keys are pressed, the player stays within one movement
/// step of the screen bounds: x strictly between the movement limits
/// widened by `PLAYER_SPEED`, and y strictly between `-PLAYER_SPEED` and
/// `screen_h - sprite_h / 2 + PLAYER_SPEED`, whenever it starts there.
pub proof fn lemma_player_near_bounds(
    g: GameModel,
    inputs: Seq<Input>,
    screen_w: int,
    screen_h: int,
    sprite_w: int,
    sprite_h: int,
)
    requires
        left_limit(sprite_w) - (PLAYER_SPEED as int) < g.x,
        g.x < right_limit(screen_w, sprite_w) + PLAYER_SPEED as int,
        -(PLAYER_SPEED as int) < g.y,
        g.y < screen_h - sprite_h / 2 + PLAYER_SPEED as int,
    ensures
        left_limit(sprite_w) - (PLAYER_SPEED as int)
            < run_frames(g, inputs, screen_w, screen_h, sprite_w, sprite_h).x,
        run_frames(g, inputs, screen_w, screen_h, sprite_w, sprite_h).x
            < right_limit(screen_w, sprite_w) + PLAYER_SPEED as int,
        -(PLAYER_SPEED as int) < run_frames(g, inputs, screen_w, screen_h, sprite_w, sprite_h).y,
        run_frames(g, inputs, screen_w, screen_h, sprite_w, sprite_h).y
            < screen_h - sprite_h / 2 + PLAYER_SPEED as int,
    decreases inputs.len(),
{
    if inputs.len() > 0 {
        lemma_player_near_bounds(
            spec_frame(g, inputs[0], screen_w, screen_h, sprite_w, sprite_h),
            inputs.drop_first(),
            screen_w,
            screen_h,
            sprite_w,
            sprite_h,
        );
    }
}

/// Law: across any sequence of frames the score rises by exactly one per
/// distinct press of the fire key — a press on a frame where the key was
/// not already held — and by nothing else. Holding the key adds nothing
/// beyond its first frame, and each release and re-press adds one.
pub proof fn lemma_score_counts_presses(
    g: GameModel,
    inputs: Seq<Input>,
    screen_w: int,
    screen_h: int,
    sprite_w: int,
    sprite_h: int,
)
    ensures
        run_frames(g, inputs, screen_w, screen_h, sprite_w, sprite_h).score
            == g.score + press_count(g.keydown, inputs),
    decreases inputs.len(),
{
    if inputs.len() > 0 {
        let next = spec_frame(g, inputs[0], screen_w, screen_h, sprite_w, sprite_h);
        assert(next.score == g.score + if inputs[0].fire && !g.keydown { 1int } else { 0int });
        assert(next.keydown == inputs[0].fire);
        lemma_score_counts_presses(
            next,
            inputs.drop_first(),
            screen_w,
            screen_h,
            sprite_w,
            sprite_h,
        );
    }
}

proof fn lemma_press_count_while_held(inputs: Seq<Input>)
    requires
        all_inputs_fire(inputs),
    ensures
        press_count(true, inputs) == 0,
    decreases inputs.len(),
{
    if inputs.len() > 0 {
        assert(inputs[0].fire);
        assert forall|i: int| 0 <= i < inputs.drop_first().len() implies (#[trigger] inputs.drop_first()[i]).fire by {
            assert(inputs[i + 1].fire);
        }
        lemma_press_count_while_held(inputs.drop_first());
    }
}

/// Law: holding the fire key down across any number of consecutive frames
/// increments the score exactly once, on the first of them.
pub proof fn lemma_holding_fire_scores_once(
    g: GameModel,
    inputs: Seq<Input>,
    screen_w: int,
    screen_h: int,
    sprite_w: int,
    sprite_h: int,
)
    requires
        !g.keydown,
        inputs.len() >= 1,
        all_inputs_fire(inputs),
    ensures
        run_frames(g, inputs, screen_w, screen_h, sprite_w, sprite_h).score == g.score + 1,
{
    lemma_score_counts_presses(g, inputs, screen_w, screen_h, sprite_w, sprite_h);
    assert(inputs[0].fire);
    assert forall|i: int| 0 <= i < inputs.drop_first().len() implies (#[trigger] inputs.drop_first()[i]).fire by {
        assert(inputs[i + 1].fire);
    }
    lemma_press_count_while_held(inputs.drop_first());
}

/// Every laser the retention step keeps is on screen; in particular a
/// laser whose x has left `[0, screen_w)` is gone from the sequence after
/// the next update's retention step.
pub proof fn lemma_retained_all_onscreen(lasers: Seq<LaserModel>, screen_w: int)
    ensures
        forall|j: int| 0 <= j < retain_onscreen(lasers, screen_w).len()
            ==> laser_onscreen(#[trigger] retain_onscreen(lasers, screen_w)[j], screen_w),
    decreases lasers.len(),
{
    if lasers.len() > 0 {
        lemma_retained_all_onscreen(lasers.drop_last(), screen_w);
        let rest = retain_onscreen(lasers.drop_last(), screen_w);
        let kept = retain_onscreen(lasers, screen_w);
        assert forall|j: int| 0 <= j < kept.len() implies laser_onscreen(kept[j], screen_w) by {
            if laser_onscreen(lasers.last(), screen_w) {
                assert(kept == rest.push(lasers.last()));
                if j < rest.len() {
                    assert(kept[j] == rest[j]);
                }
            } else {
                assert(kept == rest);
            }
        }
    }
}

/// The retention step keeps every laser that is on screen.
proof fn lemma_retain_keeps(lasers: Seq<LaserModel>, screen_w: int, i: int)
    requires
        0 <= i < lasers.len(),
        laser_onscreen(lasers[i], screen_w),
    ensures
        exists|j: int| 0 <= j < retain_onscreen(lasers, screen_w).len()
            && #[trigger] retain_onscreen(lasers, screen_w)[j] == lasers[i],
    decreases lasers.len(),
{
    let kept = retain_onscreen(lasers, screen_w);
    if i == lasers.len() - 1 {
        assert(lasers.last() == lasers[i]);
        assert(kept[kept.len() - 1] == lasers[i]);
    } else {
        assert(lasers.drop_last()[i] == lasers[i]);
        lemma_retain_keeps(lasers.drop_last(), screen_w, i);
        let rest = retain_onscreen(lasers.drop_last(), screen_w);
        let j = choose|j: int| 0 <= j < rest.len() && #[trigger] rest[j] == lasers.drop_last()[i];
        assert(kept[j] == lasers[i]);
    }
}

/// Law: a laser that is on screen at the start of a frame survives that
/// frame's retention step and moves exactly `LASER_SPEED` along its
/// direction during the frame's draw pass — so a right-facing laser's x
/// strictly increases by `LASER_SPEED` every frame while it stays within
/// `[0, screen_w)`.
pub proof fn lemma_laser_flight(
    g: GameModel,
    input: Input,
    screen_w: int,
    screen_h: int,
    sprite_w: int,
    sprite_h: int,
    i: int,
)
    requires
        0 <= i < g.lasers.len(),
        laser_onscreen(g.lasers[i], screen_w),
    ensures
        exists|j: int| 0 <= j < spec_frame(g, input, screen_w, screen_h, sprite_w, sprite_h).lasers.len()
            && #[trigger] spec_frame(g, input, screen_w, screen_h, sprite_w, sprite_h).lasers[j]
                == advance_laser(g.lasers[i]),
        g.lasers[i].right_facing ==> advance_laser(g.lasers[i]).x == g.lasers[i].x + LASER_SPEED as int,
        !g.lasers[i].right_facing ==> advance_laser(g.lasers[i]).x == g.lasers[i].x - LASER_SPEED as int,
{
    lemma_retain_keeps(g.lasers, screen_w, i);
    let kept = retain_onscreen(g.lasers, screen_w);
    let j = choose|j: int| 0 <= j < kept.len() && #[trigger] kept[j] == g.lasers[i];
    let updated = spec_update(g, input, screen_w, screen_h, sprite_w, sprite_h);
    assert(updated.lasers[j] == g.lasers[i]);
    let framed = spec_frame(g, input, screen_w, screen_h, sprite_w, sprite_h);
    assert(framed.lasers[j] == advance_laser(g.lasers[i]));
}

/// Law: a right-facing laser on screen travels exactly `LASER_SPEED`
/// rightward per frame, whatever keys are pressed: after the frames of
/// `inputs` a laser stands `inputs.len()` steps ahead of where it started,
/// provided its path stays on screen until the last of those frames. Once
/// its x leaves the screen, `lemma_retained_all_onscreen` puts it out of
/// the sequence at the following update.
pub proof fn lemma_laser_travels_right(
    g: GameModel,
    inputs: Seq<Input>,
    screen_w: int,
    screen_h: int,
    sprite_w: int,
    sprite_h: int,
    i: int,
)
    requires
        0 <= i < g.lasers.len(),
        g.lasers[i].right_facing,
        0 <= g.lasers[i].x,
        g.lasers[i].x + (inputs.len() - 1) * (LASER_SPEED as int) < screen_w,
    ensures
        exists|j: int|
            0 <= j < run_frames(g, inputs, screen_w, screen_h, sprite_w, sprite_h).lasers.len()
                && #[trigger] run_frames(g, inputs, screen_w, screen_h, sprite_w, sprite_h).lasers[j]
                == (LaserModel {
                    x: g.lasers[i].x + inputs.len() * (LASER_SPEED as int),
                    y: g.lasers[i].y,
                    right_facing: true,
                }),
    decreases inputs.len(),
{
    let l = g.lasers[i];
    if inputs.len() == 0 {
        assert(run_frames(g, inputs, screen_w, screen_h, sprite_w, sprite_h) == g);
        assert(g.lasers[i] == (LaserModel { x: l.x + 0, y: l.y, right_facing: true }));
    } else {
        lemma_laser_flight(g, inputs[0], screen_w, screen_h, sprite_w, sprite_h, i);
        let next = spec_frame(g, inputs[0], screen_w, screen_h, sprite_w, sprite_h);
        let j = choose|j: int|
            0 <= j < next.lasers.len() && #[trigger] next.lasers[j] == advance_laser(l);
        assert(next.lasers[j] == (LaserModel {
            x: l.x + LASER_SPEED as int,
            y: l.y,
            right_facing: true,
        }));
        lemma_laser_travels_right(
            next,
            inputs.drop_first(),
            screen_w,
            screen_h,
            sprite_w,
            sprite_h,
            j,
        );
        let rest = run_frames(next, inputs.drop_first(), screen_w, screen_h, sprite_w, sprite_h);
        let j2 = choose|j2: int|
            0 <= j2 < rest.lasers.len() && #[trigger] rest.lasers[j2] == (LaserModel {
                x: next.lasers[j].x + inputs.drop_first().len() * (LASER_SPEED as int),
                y: next.lasers[j].y,
                right_facing: true,
            });
        assert(run_frames(g, inputs, screen_w, screen_h, sprite_w, sprite_h) == rest);
        assert(rest.lasers[j2] == (LaserModel {
            x: l.x + inputs.len() * (LASER_SPEED as int),
            y: l.y,
            right_facing: true,
        }));
    }
}

/// Law: right after an update every laser in the sequence is on screen,
/// except possibly one fired on that very frame, which sits at the end of
/// the sequence at the player's spawn point.
pub proof fn lemma_update_lasers_onscreen(
    g: GameModel,
    input: Input,
    screen_w: int,
    screen_h: int,
    sprite_w: int,
    sprite_h: int,
)
    ensures
        forall|j: int| 0 <= j < spec_update(g, input, screen_w, screen_h, sprite_w, sprite_h).lasers.len()
            ==> laser_onscreen(
                #[trigger] spec_update(g, input, screen_w, screen_h, sprite_w, sprite_h).lasers[j],
                screen_w,
            ) || spec_update(g, input, screen_w, screen_h, sprite_w, sprite_h).lasers[j]
                == spawned_laser(g, sprite_h),
{
    lemma_retained_all_onscreen(g.lasers, screen_w);
}

} // verus!
