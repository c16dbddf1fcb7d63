use vstd::prelude::*;
use crate::frame::{Drawable, Frame, blank_cells, new_frame, put};
use crate::invaders::{FormationView, Invaders, all_dead, at_bottom, killed, paint_army, update_spec};
use crate::player::{
    PLAYER_GLYPH, Player, PlayerView, any_hit, missed_upto, moved_left, moved_right, paint_shots, shot_spec,
    updated,
};

verus! {

/// A key press that the game acts on.
#[derive(Clone, Copy, Debug, PartialEq, Eq)]
pub enum Key {
    Quit,
    Left,
    Right,
    Fire,
}

/// A sound to play.
#[derive(Clone, Copy, Debug, PartialEq, Eq)]
pub enum Cue {
    Pew,
    Move,
    Explode,
    Win,
    Lose,
}

#[derive(Clone, Copy, Debug, PartialEq, Eq)]
pub enum Outcome {
    Running,
    Won,
    Lost,
}

/// What one tick of the game produced: the frame to show, the sounds to
/// play in order, and whether the game goes on.
pub struct Tick {
    pub frame: Frame,
    pub cues: Vec<Cue>,
    pub outcome: Outcome,
}

/// The player after the first `n` keys, the cues they raised, and whether
/// one of them was `Quit`; keys after a `Quit` are ignored.
pub open spec fn apply_keys(p: PlayerView, keys: Seq<Key>, n: int) -> (PlayerView, Seq<Cue>, bool)
    decreases n,
{
    if n <= 0 {
        (p, Seq::empty(), false)
    } else {
        let (q, cues, quit) = apply_keys(p, keys, n - 1);
        if quit {
            (q, cues, quit)
        } else {
            match keys[n - 1] {
                Key::Quit => (q, cues.push(Cue::Lose), true),
                Key::Left => (moved_left(q), cues, false),
                Key::Right => (moved_right(q), cues, false),
                Key::Fire => {
                    let (r, fired) = shot_spec(q);
                    (r, if fired { cues.push(Cue::Pew) } else { cues }, false)
                },
            }
        }
    }
}

/// A blank frame with the formation painted in, then the shots and the ship.
pub open spec fn scene(p: PlayerView, f: FormationView) -> Seq<char> {
    put(
        paint_shots(paint_army(blank_cells(), f.army, f.army.len() as int), p.shots, p.shots.len() as int),
        p.x as int,
        p.y as int,
        PLAYER_GLYPH,
    )
}

/// One tick: the keys in order, then `delta_ms` for the player and the
/// formation, then the hits; then the frame, the cues and the outcome.
pub open spec fn tick_spec(p: PlayerView, f: FormationView, keys: Seq<Key>, delta_ms: u64) -> (
    PlayerView,
    FormationView,
    Seq<char>,
    Seq<Cue>,
    Outcome,
) {
    let (p1, c1, quit) = apply_keys(p, keys, keys.len() as int);
    if quit {
        (p1, f, scene(p1, f), c1, Outcome::Lost)
    } else {
        let p2 = updated(p1, delta_ms);
        let (f2, moved) = update_spec(f, delta_ms);
        let c2 = if moved { c1.push(Cue::Move) } else { c1 };
        let hit = any_hit(p2.shots, f2.army);
        let p3 = PlayerView { shots: missed_upto(p2.shots, f2.army, p2.shots.len() as int), ..p2 };
        let f3 = FormationView { army: killed(f2.army, p2.shots), ..f2 };
        let c3 = if hit { c2.push(Cue::Explode) } else { c2 };
        if all_dead(f3.army) {
            (p3, f3, scene(p3, f3), c3.push(Cue::Win), Outcome::Won)
        } else if at_bottom(f3.army) {
            (p3, f3, scene(p3, f3), c3.push(Cue::Lose), Outcome::Lost)
        } else {
            (p3, f3, scene(p3, f3), c3, Outcome::Running)
        }
    }
}

/// Runs one tick of the game on the keys pressed since the last one and
/// the `delta_ms` milliseconds that have passed. A `Quit` key ends the game
/// lost at once; otherwise the game is won when every invader is dead, and
/// lost when one has reached the bottom.
pub fn tick(player: &mut Player, invaders: &mut Invaders, keys: &Vec<Key>, delta_ms: u64) -> (r: Tick)
    requires
        old(player).wf(),
        old(invaders).wf(),
    ensures
        final(player).wf(),
        final(invaders).wf(),
        r.frame.wf(),
        (final(player).view(), final(invaders).view(), r.frame.cells@, r.cues@, r.outcome) == tick_spec(
            old(player).view(),
            old(invaders).view(),
            keys@,
            delta_ms,
        ),
{
    let mut cues: Vec<Cue> = Vec::new();
    let mut quit = false;
    let mut i: usize = 0;
    while i < keys.len()
        invariant
            i <= keys@.len(),
            player.wf(),
            (player.view(), cues@, quit) == apply_keys(old(player).view(), keys@, i as int),
        decreases keys@.len() - i,
    {
        if !quit {
            match keys[i] {
                Key::Quit => {
                    cues.push(Cue::Lose);
                    quit = true;
                },
                Key::Left => player.move_left(),
                Key::Right => player.move_right(),
                Key::Fire => {
                    if player.shoot() {
                        cues.push(Cue::Pew);
                    }
                },
            }
        }
        i += 1;
    }
    if !quit {
        player.update(delta_ms);
        if invaders.update(delta_ms) {
            cues.push(Cue::Move);
        }
        if player.detect_hits(invaders) {
            cues.push(Cue::Explode);
        }
    }
    let mut frame = new_frame();
    invaders.draw(&mut frame);
    player.draw(&mut frame);
    let outcome = if quit {
        Outcome::Lost
    } else if invaders.all_killed() {
        cues.push(Cue::Win);
        Outcome::Won
    } else if invaders.reached_bottom() {
        cues.push(Cue::Lose);
        Outcome::Lost
    } else {
        Outcome::Running
    };
    Tick { frame, cues, outcome }
}

} // verus!
