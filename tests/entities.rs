use flappy::half;
use flappy::obstacle::{Bar, Obstacle};
use flappy::player::{Player, Rect};

#[test]
fn player_new_is_at_rest() {
    let p = Player::new(3, 7);
    assert_eq!(p, Player { x: 3, y: 7, velocity: 0, width: 1, height: 1 });
}

#[test]
fn gravity_speeds_up_to_the_cap() {
    let mut p = Player::new(0, 10);
    for _ in 0..30 {
        p.gravity_and_move();
        assert!(p.velocity <= 20);
    }
    assert_eq!(p.velocity, 20);
    assert_eq!(p.x, 30);
}

#[test]
fn gravity_moves_by_whole_cells() {
    let mut p = Player { x: 0, y: 10, velocity: 16, width: 1, height: 1 };
    p.gravity_and_move();
    assert_eq!(p.velocity, 18);
    assert_eq!(p.y, 11);
    assert_eq!(p.x, 1);
    p.gravity_and_move();
    assert_eq!(p.velocity, 20);
    assert_eq!(p.y, 13);
    p.gravity_and_move();
    assert_eq!(p.velocity, 20);
    assert_eq!(p.y, 15);
}

#[test]
fn rising_speed_truncates_toward_zero() {
    let mut p = Player { x: 0, y: 10, velocity: -20, width: 1, height: 1 };
    p.gravity_and_move();
    assert_eq!(p.velocity, -18);
    assert_eq!(p.y, 9);
}

#[test]
fn gravity_keeps_the_player_at_row_zero_or_below() {
    let mut p = Player::new(0, 1);
    p.flap();
    p.gravity_and_move();
    assert_eq!(p.y, 0);
    p.gravity_and_move();
    assert_eq!(p.y, 0);
}

#[test]
fn flap_overrides_any_speed() {
    let mut p = Player { x: 4, y: 9, velocity: 20, width: 1, height: 1 };
    p.flap();
    assert_eq!(p, Player { x: 4, y: 9, velocity: -20, width: 1, height: 1 });
    p.flap();
    assert_eq!(p.velocity, -20);
}

#[test]
fn player_render_leaves_it_unchanged() {
    let p = Player { x: 40, y: 12, velocity: 6, width: 1, height: 1 };
    let before = p;
    let r = p.render();
    assert_eq!(p, before);
    assert_eq!(r, Rect { x: 5, y: 12, width: 1, height: 1 });
}

#[test]
fn obstacle_render_leaves_it_unchanged() {
    let o = Obstacle { x: 106, gap_y: 20, size: 10 };
    let before = o;
    let _ = o.render(100);
    assert_eq!(o, before);
}

#[test]
fn obstacle_render_draws_outside_the_gap() {
    let o = Obstacle { x: 106, gap_y: 20, size: 10 };
    let bars = o.render(100);
    assert_eq!(bars.len(), 15 + 45);
    assert_eq!(bars[0], Bar { x: 6, y: 0 });
    assert_eq!(bars[14], Bar { x: 6, y: 14 });
    assert_eq!(bars[15], Bar { x: 6, y: 25 });
    assert_eq!(bars[59], Bar { x: 6, y: 69 });
    assert!(bars.iter().all(|b| b.y < 15 || b.y >= 25));
}

#[test]
fn obstacle_render_with_wide_gap_near_top() {
    let o = Obstacle { x: 50, gap_y: 10, size: 50 };
    let bars = o.render(60);
    assert_eq!(bars.len(), 70 - 35);
    assert_eq!(bars[0], Bar { x: -10, y: 35 });
}

#[test]
fn collision_outside_the_gap() {
    let p = Player { x: 6, y: 30, velocity: 0, width: 1, height: 1 };
    let o = Obstacle { x: 6, gap_y: 20, size: 10 };
    assert!(o.hit_obstacle(&p));
}

#[test]
fn no_collision_at_gap_center() {
    let p = Player { x: 6, y: 20, velocity: 0, width: 1, height: 1 };
    let o = Obstacle { x: 6, gap_y: 20, size: 10 };
    assert!(!o.hit_obstacle(&p));
}

#[test]
fn no_collision_in_another_column() {
    let p = Player { x: 5, y: 30, velocity: 0, width: 1, height: 1 };
    let o = Obstacle { x: 6, gap_y: 20, size: 10 };
    assert!(!o.hit_obstacle(&p));
}

#[test]
fn collision_edges_of_the_gap() {
    let o = Obstacle { x: 6, gap_y: 20, size: 10 };
    let at = |y: i32| Player { x: 6, y, velocity: 0, width: 1, height: 1 };
    assert!(o.hit_obstacle(&at(14)));
    assert!(!o.hit_obstacle(&at(15)));
    assert!(!o.hit_obstacle(&at(25)));
    assert!(o.hit_obstacle(&at(26)));
}

#[test]
fn tall_player_collides_by_its_half_height() {
    let p = Player { x: 5, y: 24, velocity: 0, width: 1, height: 2 };
    let o = Obstacle { x: 6, gap_y: 20, size: 10 };
    assert!(!o.hit_obstacle(&p));
    let q = Player { y: 25, ..p };
    assert!(o.hit_obstacle(&q));
}

#[test]
fn gap_size_narrows_with_score() {
    for (score, size) in [(0u64, 50), (15, 35), (39, 11), (40, 10), (41, 10), (1000, 10)] {
        let o = Obstacle::new(0, score);
        assert_eq!(o.size, size);
    }
}

#[test]
fn from_rolls_is_exact() {
    let o = Obstacle::from_rolls(30, 7, 150, 22);
    assert_eq!(o, Obstacle { x: 180, gap_y: 22, size: 43 });
    let o = Obstacle::from_rolls(-5, u64::MAX, 100, 10);
    assert_eq!(o, Obstacle { x: 95, gap_y: 10, size: 10 });
}

#[test]
fn spawned_obstacles_are_ahead_and_varied() {
    let mut gaps = Vec::new();
    for _ in 0..60 {
        let o = Obstacle::new(1000, 0);
        assert!(o.x >= 1100 && o.x < 1200);
        assert!(o.gap_y >= 10 && o.gap_y < 40);
        gaps.push(o.gap_y);
    }
    assert!(gaps.iter().any(|g| *g != gaps[0]));
}

#[test]
fn half_rounds_toward_zero() {
    assert_eq!(half(5), 2);
    assert_eq!(half(-3), -1);
    assert_eq!(half(0), 0);
    assert_eq!(half(i32::MIN), -1073741824);
}
