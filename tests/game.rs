use invaders::frame::{new_frame, Drawable, Frame, NUM_CELLS, NUM_COLS, NUM_ROWS};
use invaders::invaders::{Invader, Invaders, STARTING_INVADERS};
use invaders::player::{Player, Shot, COOLDOWN_MS, SHOT_STEP_MS};
use invaders::render::{diff, CellWrite};
use invaders::timer::Timer;

fn formation(cells: &[(usize, usize)]) -> Invaders {
    Invaders::from_cells(&cells.to_vec()).unwrap()
}

fn player_with_shots(x: usize, shots: &[(usize, usize)]) -> Player {
    let mut p = Player::new();
    p.x = x;
    p.shots = shots.iter().map(|&(x, y)| Shot { x, y, progress_ms: 0 }).collect();
    p
}

#[test]
fn new_frame_is_blank() {
    let f = new_frame();
    assert_eq!(f.cells.len(), NUM_COLS * NUM_ROWS);
    assert!(f.cells.iter().all(|&c| c == ' '));
}

#[test]
fn set_clips_off_grid() {
    let mut f = new_frame();
    f.set(NUM_COLS, 0, 'z');
    f.set(0, NUM_ROWS, 'z');
    assert!(f.cells.iter().all(|&c| c == ' '));
    f.set(3, 4, 'z');
    assert_eq!(f.get(3, 4), Some('z'));
    assert_eq!(f.cells[3 * NUM_ROWS + 4], 'z');
    assert_eq!(f.get(NUM_COLS, 4), None);
}

#[test]
fn diff_emits_one_write_per_changed_cell() {
    let prev = new_frame();
    let mut curr = new_frame();
    curr.set(0, 0, 'a');
    curr.set(5, 7, 'b');
    curr.set(39, 19, 'c');
    let w = diff(&prev, &curr, false);
    assert_eq!(
        w,
        vec![
            CellWrite { x: 0, y: 0, ch: 'a' },
            CellWrite { x: 5, y: 7, ch: 'b' },
            CellWrite { x: 39, y: 19, ch: 'c' },
        ]
    );
}

#[test]
fn diff_of_equal_frames_is_empty() {
    let mut a = new_frame();
    a.set(2, 2, 'x');
    let b = Frame { cells: a.cells.clone() };
    assert!(diff(&a, &b, false).is_empty());
}

#[test]
fn forced_diff_writes_every_cell() {
    let prev = new_frame();
    let mut curr = new_frame();
    curr.set(1, 1, 'q');
    let w = diff(&prev, &curr, true);
    assert_eq!(w.len(), NUM_CELLS);
    assert_eq!(w[0], CellWrite { x: 0, y: 0, ch: ' ' });
    assert_eq!(w[NUM_ROWS + 1], CellWrite { x: 1, y: 1, ch: 'q' });
    assert_eq!(w[NUM_CELLS - 1], CellWrite { x: 39, y: 19, ch: ' ' });
}

#[test]
fn player_stays_between_the_walls() {
    let mut p = Player::new();
    assert_eq!(p.x, 20);
    for _ in 0..100 {
        p.move_left();
        assert!(p.x < NUM_COLS);
    }
    assert_eq!(p.x, 0);
    for _ in 0..100 {
        p.move_right();
        p.update(7);
        assert!(p.x < NUM_COLS);
    }
    assert_eq!(p.x, NUM_COLS - 1);
}

#[test]
fn one_shot_per_cooldown() {
    let mut p = Player::new();
    assert!(p.shoot());
    assert!(!p.shoot());
    assert_eq!(p.shots.len(), 1);
    assert_eq!(p.shots[0], Shot { x: 20, y: 19, progress_ms: 0 });
    p.update(COOLDOWN_MS - 1);
    assert!(!p.shoot());
    assert_eq!(p.shots.len(), 1);
    p.update(1);
    assert!(p.shoot());
    assert_eq!(p.shots.len(), 2);
}

#[test]
fn shots_climb_and_leave_the_grid() {
    let mut p = player_with_shots(3, &[(3, 2)]);
    p.update(SHOT_STEP_MS - 1);
    assert_eq!(p.shots[0], Shot { x: 3, y: 2, progress_ms: SHOT_STEP_MS - 1 });
    p.update(1);
    assert_eq!(p.shots[0], Shot { x: 3, y: 1, progress_ms: 0 });
    p.update(2 * SHOT_STEP_MS + 10);
    assert!(p.shots.is_empty());
}

#[test]
fn shot_at_top_row_stays_until_it_climbs_past() {
    let mut p = player_with_shots(3, &[(3, 1)]);
    p.update(SHOT_STEP_MS);
    assert_eq!(p.shots, vec![Shot { x: 3, y: 0, progress_ms: 0 }]);
    p.update(SHOT_STEP_MS);
    assert!(p.shots.is_empty());
}

#[test]
fn hit_kills_one_invader_and_spends_the_shot() {
    let mut f = formation(&[(5, 10), (7, 10)]);
    let mut p = player_with_shots(5, &[(5, 10), (9, 3)]);
    assert!(p.detect_hits(&mut f));
    assert!(!f.army[0].alive);
    assert!(f.army[1].alive);
    assert_eq!(p.shots, vec![Shot { x: 9, y: 3, progress_ms: 0 }]);
    assert!(!p.detect_hits(&mut f));
    let mut q = player_with_shots(5, &[(5, 10)]);
    assert!(!q.detect_hits(&mut f));
    assert!(!f.army[0].alive);
    assert_eq!(q.shots.len(), 1);
}

#[test]
fn two_shots_on_one_cell_are_spent_together() {
    let mut f = formation(&[(5, 10)]);
    let mut p = player_with_shots(5, &[(5, 10), (5, 10)]);
    assert!(p.detect_hits(&mut f));
    assert!(p.shots.is_empty());
    assert!(f.all_killed());
}

#[test]
fn all_killed_tracks_alive_flags() {
    assert!(!Invaders::new().all_killed());
    assert!(formation(&[]).all_killed());
    let mut f = formation(&[(1, 1)]);
    assert!(!f.all_killed());
    f.army[0].alive = false;
    assert!(f.all_killed());
}

#[test]
fn killing_every_invader_in_turn() {
    let cells = [(4, 2), (6, 2), (8, 4)];
    let mut f = formation(&cells);
    assert!(!f.all_killed());
    for (n, &(x, y)) in cells.iter().enumerate() {
        let mut p = player_with_shots(x, &[(x, y)]);
        assert!(p.detect_hits(&mut f));
        assert_eq!(f.all_killed(), n == cells.len() - 1);
    }
}

#[test]
fn lone_invader_at_right_wall_turns_and_descends() {
    let mut f = formation(&[(NUM_COLS - 1, 0)]);
    assert!(f.moving_right);
    assert_eq!(f.move_timer, Timer { duration_ms: 125, elapsed_ms: 0 });
    assert!(!f.update(124));
    assert!(f.update(1));
    assert!(!f.moving_right);
    assert_eq!(f.army[0], Invader { x: NUM_COLS - 1, y: 1, alive: true });
    assert!(f.update(125));
    assert_eq!(f.army[0], Invader { x: NUM_COLS - 2, y: 1, alive: true });
}

#[test]
fn formation_turns_only_at_the_wall() {
    let mut f = formation(&[(36, 3), (37, 3)]);
    assert!(f.update(1000));
    assert_eq!((f.army[0].x, f.army[1].x, f.army[1].y), (37, 38, 3));
    assert!(f.update(1000));
    assert_eq!((f.army[0].x, f.army[1].x, f.army[1].y), (38, 39, 3));
    assert!(f.moving_right);
    assert!(f.update(1000));
    assert_eq!((f.army[0].x, f.army[1].x, f.army[1].y), (38, 39, 4));
    assert!(!f.moving_right);
    assert!(f.update(1000));
    assert_eq!((f.army[0].x, f.army[1].x, f.army[1].y), (37, 38, 4));
    assert!(!f.moving_right);
}

#[test]
fn left_wall_turns_and_dead_invaders_stay_put() {
    let mut f = formation(&[(0, 5), (3, 5)]);
    f.army[1].alive = false;
    f.moving_right = false;
    assert!(f.update(1000));
    assert!(f.moving_right);
    assert_eq!(f.army[0], Invader { x: 0, y: 6, alive: true });
    assert_eq!(f.army[1], Invader { x: 3, y: 5, alive: false });
}

#[test]
fn move_interval_shrinks_with_fewer_invaders() {
    let mut f = formation(&[(10, 1), (12, 1), (14, 1)]);
    assert_eq!(f.move_timer.duration_ms, 175);
    f.army[0].alive = false;
    assert!(f.update(175));
    assert_eq!(f.move_timer, Timer { duration_ms: 150, elapsed_ms: 0 });
}

#[test]
fn starting_formation() {
    let f = Invaders::new();
    assert_eq!(f.army.len(), STARTING_INVADERS);
    assert_eq!(f.army[0], Invader { x: 2, y: 2, alive: true });
    assert_eq!(f.army[STARTING_INVADERS - 1], Invader { x: 36, y: 8, alive: true });
    assert_eq!(f.count_alive(), STARTING_INVADERS);
    assert!(!f.reached_bottom());
}

#[test]
fn from_cells_rejects_bad_cells() {
    assert!(Invaders::from_cells(&vec![(NUM_COLS, 0)]).is_none());
    assert!(Invaders::from_cells(&vec![(1, 1), (2, 2), (1, 1)]).is_none());
    assert!(Invaders::from_cells(&vec![(1, 1), (1, 2)]).is_some());
}

#[test]
fn reached_bottom_sees_live_invaders_only() {
    let mut f = formation(&[(3, 19), (4, 2)]);
    assert!(f.reached_bottom());
    f.army[0].alive = false;
    assert!(!f.reached_bottom());
}

#[test]
fn drawing_puts_formation_under_player_and_shots() {
    let f = formation(&[(20, 19), (5, 5)]);
    let p = player_with_shots(20, &[(5, 5)]);
    let mut frame = new_frame();
    let drawables: Vec<&dyn Drawable> = vec![&f, &p];
    for d in drawables {
        d.draw(&mut frame);
    }
    assert_eq!(frame.get(20, 19), Some('A'));
    assert_eq!(frame.get(5, 5), Some('|'));
    let g = formation(&[(6, 6)]);
    g.draw(&mut frame);
    assert_eq!(frame.get(6, 6), Some('x'));
}
