//! The part of the game state that the per-frame actions read and change,
//! and the actions themselves.

use vstd::prelude::*;

verus! {

/// The buttons as polled for one frame.
#[derive(Clone, Copy, Debug, PartialEq, Eq, Structural)]
pub struct Controls {
    pub home_button_down: bool,
    pub one_button_down: bool,
}

/// What one frame brings: the controls and the time since the last frame.
#[derive(Clone, Copy, Debug, PartialEq, Eq, Structural)]
pub struct Changes {
    pub controls: Controls,
    pub delta_time_ms: u32,
}

/// The state that the actions work on.
#[derive(Clone, Copy, Debug, PartialEq, Eq, Structural)]
pub struct GameState {
    pub is_running: bool,
    pub changes: Changes,
}

/// The raw random words for one velocity: one for each of its two axes.
#[derive(Clone, Copy, Debug, PartialEq, Eq, Structural)]
pub struct Jolt {
    pub x: u32,
    pub y: u32,
}

/// The time that the main loop reports for every frame.
pub const FRAME_TIME_MS: u32 = 100;

/// The seed that every shake starts its generator from.
pub const SHAKE_SEED: u64 = 10;

/// The generator behind the shake.
#[verifier::external_type_specification]
#[verifier::external_body]
pub struct ExSmallRng(rand::rngs::SmallRng);

/// `SeedableRng::seed_from_u64` for `SmallRng`. Which generator this is
/// depends on the platform, so nothing is said of it.
#[verifier::external_body]
fn seeded(seed: u64) -> rand::rngs::SmallRng {
    rand::SeedableRng::seed_from_u64(seed)
}

/// `RngCore::next_u32` for `SmallRng`: the next word, of which nothing is
/// known.
#[verifier::external_body]
fn draw(rng: &mut rand::rngs::SmallRng) -> u32 {
    rand::RngCore::next_u32(rng)
}

/// What one pass of the main loop makes of the buttons it has polled: with
/// the home button down the loop ends (`None`); otherwise the frame goes on
/// with these changes.
pub fn next_frame(home_button_down: bool, one_button_down: bool) -> (changes: Option<Changes>)
    ensures
        home_button_down ==> changes is None,
        !home_button_down ==> changes == Some(
            Changes {
                controls: Controls { home_button_down: false, one_button_down },
                delta_time_ms: FRAME_TIME_MS,
            },
        ),
{
    if home_button_down {
        None
    } else {
        Some(
            Changes {
                controls: Controls { home_button_down, one_button_down },
                delta_time_ms: FRAME_TIME_MS,
            },
        )
    }
}

/// A running game goes on running exactly while the home button is down; a
/// game that has stopped stays stopped.
pub fn system_exit_action(state: &mut GameState)
    ensures
        final(state).is_running == (old(state).is_running
            && old(state).changes.controls.home_button_down),
        final(state).changes == old(state).changes,
{
    if state.is_running {
        state.is_running = state.changes.controls.home_button_down;
    }
}

/// Draws the random words of one shake. With the one button down, a
/// generator is seeded afresh and gives two words for each of the `bodies`
/// velocities, in their order; with the button up nothing is drawn.
pub fn system_shake_action(state: &GameState, bodies: usize) -> (jolts: Vec<Jolt>)
    ensures
        state.changes.controls.one_button_down ==> jolts@.len() == bodies,
        !state.changes.controls.one_button_down ==> jolts@.len() == 0,
{
    let mut jolts: Vec<Jolt> = Vec::new();
    if state.changes.controls.one_button_down {
        let mut rng = seeded(SHAKE_SEED);
        let mut i: usize = 0;
        while i < bodies
            invariant
                i <= bodies,
                jolts@.len() == i,
            decreases bodies - i,
        {
            let x = draw(&mut rng);
            let y = draw(&mut rng);
            jolts.push(Jolt { x, y });
            i = i + 1;
        }
    }
    jolts
}

} // verus!
