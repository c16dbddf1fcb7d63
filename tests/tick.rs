use invaders::frame::{new_frame, NUM_COLS};
use invaders::game::{tick, Cue, Key, Outcome};
use invaders::invaders::Invaders;
use invaders::player::{Player, Shot};

fn formation(cells: &[(usize, usize)]) -> Invaders {
    Invaders::from_cells(&cells.to_vec()).unwrap()
}

#[test]
fn quit_ends_the_tick_lost() {
    let mut p = Player::new();
    let mut f = Invaders::new();
    let t = tick(&mut p, &mut f, &vec![Key::Left, Key::Quit, Key::Right], 1000);
    assert_eq!(t.outcome, Outcome::Lost);
    assert_eq!(t.cues, vec![Cue::Lose]);
    assert_eq!(p.x, NUM_COLS / 2 - 1);
    assert_eq!(f.army[0].x, 2);
}

#[test]
fn keys_then_time_then_hits() {
    let mut p = Player::new();
    let mut f = formation(&[(10, 5), (30, 5)]);
    let t = tick(&mut p, &mut f, &vec![Key::Right, Key::Fire, Key::Fire], 10);
    assert_eq!(t.outcome, Outcome::Running);
    assert_eq!(t.cues, vec![Cue::Pew]);
    assert_eq!(p.x, NUM_COLS / 2 + 1);
    assert_eq!(p.shots, vec![Shot { x: 21, y: 19, progress_ms: 10 }]);
    assert_eq!(t.frame.get(21, 19), Some('A'));
    assert_eq!(t.frame.get(10, 5), Some('x'));
    let mut empty = new_frame();
    empty.set(21, 19, 'A');
    assert_ne!(t.frame.cells, empty.cells);
}

#[test]
fn formation_move_and_hit_raise_cues() {
    let mut p = Player::new();
    p.shots = vec![Shot { x: 11, y: 8, progress_ms: 0 }];
    let mut f = formation(&[(10, 5), (30, 5)]);
    let t = tick(&mut p, &mut f, &vec![], 150);
    assert_eq!(t.cues, vec![Cue::Move, Cue::Explode]);
    assert_eq!(t.outcome, Outcome::Running);
    assert!(!f.army[0].alive);
    assert!(p.shots.is_empty());
    assert_eq!(t.frame.get(11, 5), Some(' '));
    assert_eq!(t.frame.get(31, 5), Some('x'));
}

#[test]
fn last_kill_wins() {
    let mut p = Player::new();
    p.shots = vec![Shot { x: 10, y: 5, progress_ms: 0 }];
    let mut f = formation(&[(10, 5)]);
    let t = tick(&mut p, &mut f, &vec![], 1);
    assert_eq!(t.cues, vec![Cue::Explode, Cue::Win]);
    assert_eq!(t.outcome, Outcome::Won);
}

#[test]
fn reaching_the_bottom_loses() {
    let mut p = Player::new();
    let mut f = formation(&[(3, 19)]);
    let t = tick(&mut p, &mut f, &vec![], 1);
    assert_eq!(t.cues, vec![Cue::Lose]);
    assert_eq!(t.outcome, Outcome::Lost);
}
