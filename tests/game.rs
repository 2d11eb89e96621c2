use snake_game::food::{food_cell, relocate_apple, reset_apple, FOOD_CELLS};
use snake_game::game::{GameState, Key, Outcome, APPLE_COUNT, SPEED_MULT_START};
use snake_game::point::{Direction, Point};
use snake_game::render::{
    cmd_goto, draw_apple, draw_apple_with, draw_apples, erase_cell, head_text, push_decimal, status_text, Color,
};
use snake_game::snake::Snake;

fn pt(x: i16, y: i16) -> Point {
    Point { x, y }
}

fn text(v: &Vec<char>) -> String {
    v.iter().collect()
}

fn in_food_area(p: Point) -> bool {
    (0..40).contains(&p.x) && (1..40).contains(&p.y)
}

fn scenario_state() -> GameState {
    let snake = Snake {
        direction: Direction::Right,
        head_pos: pt(2, 2),
        tail: vec![pt(2, 0), pt(2, 1)],
    };
    GameState::with_parts(snake, vec![pt(3, 2)], true)
}

/// A snake heading up into its own tail.
fn coiled_state(grace: bool) -> GameState {
    let snake = Snake {
        direction: Direction::Up,
        head_pos: pt(5, 5),
        tail: vec![pt(4, 4), pt(5, 4), pt(6, 4), pt(6, 5)],
    };
    GameState::with_parts(snake, vec![pt(20, 20)], grace)
}

#[test]
fn eating_scores_grows_and_relocates() {
    let mut s = scenario_state();
    let out = s.tick(Some(Key::Right));
    assert_eq!(out, Outcome::Moved(pt(2, 0)));
    assert_eq!(s.snake.head_pos, pt(3, 2));
    assert_eq!(s.points, 1);
    assert_eq!(s.snake.tail.len(), 3);
    assert_eq!(s.snake.tail, vec![pt(2, 1), pt(2, 2), pt(3, 2)]);
    assert_ne!(s.apples[0], pt(3, 2));
    assert!(in_food_area(s.apples[0]));
}

#[test]
fn eating_with_a_chosen_draw() {
    let mut s = scenario_state();
    let out = s.step_with(None, &vec![43]);
    assert_eq!(out, Outcome::Moved(pt(2, 0)));
    assert_eq!(s.points, 1);
    assert_eq!(s.apples, vec![pt(4, 2)]);
}

#[test]
fn grace_then_game_over() {
    let mut s = coiled_state(true);
    s.points = 3;
    let out = s.tick(None);
    assert_eq!(out, Outcome::Warned);
    assert!(s.warning);
    assert_eq!(s.snake.head_pos, pt(5, 5));
    assert_eq!(s.snake.tail, vec![pt(4, 4), pt(5, 4), pt(6, 4), pt(6, 5)]);
    let frame = s.draw_game();
    assert_eq!(frame[0].bg, Color::Red);
    assert_eq!(s.delay_ms(out), SPEED_MULT_START * 60);
    let out = s.tick(None);
    assert_eq!(out, Outcome::GameOver);
    assert_eq!(s.points, 3);
}

#[test]
fn grace_is_restored_by_a_good_move() {
    let mut s = coiled_state(true);
    assert_eq!(s.tick(None), Outcome::Warned);
    // while recovering, even a reversal is taken
    assert_eq!(s.tick(Some(Key::Down)), Outcome::Moved(pt(4, 4)));
    assert!(!s.warning);
    assert_eq!(s.snake.head_pos, pt(5, 6));
    assert_eq!(s.draw_game()[0].bg, Color::DarkGreen);
}

#[test]
fn without_grace_first_collision_ends_round() {
    let mut s = coiled_state(false);
    assert_eq!(s.tick(None), Outcome::GameOver);
}

#[test]
fn wall_is_a_collision() {
    let snake = Snake { direction: Direction::Left, head_pos: pt(0, 10), tail: vec![pt(1, 10)] };
    let mut s = GameState::with_parts(snake, vec![], false);
    assert_eq!(s.tick(None), Outcome::GameOver);
    let snake = Snake { direction: Direction::Up, head_pos: pt(7, 1), tail: vec![pt(7, 2)] };
    let mut s = GameState::with_parts(snake, vec![], true);
    assert_eq!(s.tick(None), Outcome::Warned);
    assert_eq!(s.snake.head_pos, pt(7, 1));
}

#[test]
fn pause_freezes_the_round() {
    let mut s = scenario_state();
    assert_eq!(s.tick(Some(Key::Char(' '))), Outcome::Skip);
    assert!(s.paused);
    for _ in 0..10 {
        assert_eq!(s.tick(None), Outcome::Paused);
        assert_eq!(s.tick(Some(Key::Down)), Outcome::Paused);
    }
    assert_eq!(s.snake.head_pos, pt(2, 2));
    assert_eq!(s.snake.tail, vec![pt(2, 0), pt(2, 1)]);
    assert_eq!(s.snake.direction, Direction::Right);
    assert_eq!(s.points, 0);
    assert_eq!(s.apples, vec![pt(3, 2)]);
    assert_eq!(s.tick(Some(Key::Char(' '))), Outcome::Skip);
    assert!(!s.paused);
    assert_eq!(s.step_with(None, &vec![0]), Outcome::Moved(pt(2, 0)));
    assert_eq!(s.snake.head_pos, pt(3, 2));
    assert_eq!(s.points, 1);
}

#[test]
fn reversal_is_refused() {
    let mut s = scenario_state();
    assert_eq!(s.tick(Some(Key::Left)), Outcome::Skip);
    assert_eq!(s.snake.direction, Direction::Right);
    assert_eq!(s.snake.head_pos, pt(2, 2));
}

#[test]
fn turns_are_taken() {
    for (key, dir, head) in [
        (Key::Down, Direction::Down, pt(2, 3)),
        (Key::Up, Direction::Up, pt(2, 1)),
        (Key::Right, Direction::Right, pt(3, 2)),
    ] {
        let snake = Snake { direction: Direction::Right, head_pos: pt(2, 2), tail: vec![pt(1, 2)] };
        let mut s = GameState::with_parts(snake, vec![], true);
        assert_eq!(s.tick(Some(key)), Outcome::Moved(pt(1, 2)));
        assert_eq!(s.snake.direction, dir);
        assert_eq!(s.snake.head_pos, head);
    }
}

#[test]
fn tail_length_kept_without_food() {
    let snake = Snake { direction: Direction::Down, head_pos: pt(9, 9), tail: vec![pt(9, 7), pt(9, 8)] };
    let mut s = GameState::with_parts(snake, vec![pt(30, 30)], true);
    for _ in 0..5 {
        s.tick(None);
    }
    assert_eq!(s.snake.head_pos, pt(9, 14));
    assert_eq!(s.snake.tail, vec![pt(9, 12), pt(9, 13)]);
    assert_eq!(s.points, 0);
}

#[test]
fn two_apples_on_one_cell_both_count() {
    let snake = Snake { direction: Direction::Right, head_pos: pt(2, 2), tail: vec![pt(1, 2)] };
    let mut s = GameState::with_parts(snake, vec![pt(3, 2), pt(3, 2), pt(8, 8)], true);
    assert_eq!(s.step_with(None, &vec![0, 1, 2]), Outcome::Moved(pt(1, 2)));
    assert_eq!(s.points, 2);
    assert_eq!(s.snake.tail, vec![pt(2, 2), pt(3, 2), pt(3, 2)]);
    assert_eq!(s.apples, vec![pt(0, 1), pt(1, 1), pt(8, 8)]);
}

#[test]
fn speed_stays_clamped() {
    let mut s = scenario_state();
    for _ in 0..30 {
        assert_eq!(s.tick(Some(Key::Char('-'))), Outcome::Skip);
    }
    assert_eq!(s.speed_mult, 20);
    assert_eq!(s.delay_ms(Outcome::Paused), 400);
    for _ in 0..30 {
        s.tick(Some(Key::Char('+')));
    }
    assert_eq!(s.speed_mult, 1);
    assert_eq!(s.delay_ms(Outcome::Moved(pt(0, 0))), 20);
    assert_eq!(s.snake.head_pos, pt(2, 2));
}

#[test]
fn quit_and_other_keys() {
    let mut s = scenario_state();
    assert_eq!(s.tick(Some(Key::Char('q'))), Outcome::Quit);
    assert_eq!(s.tick(Some(Key::Char('c'))), Outcome::Quit);
    assert_eq!(s.tick(Some(Key::Char('x'))), Outcome::Skip);
    assert_eq!(s.snake.head_pos, pt(2, 2));
    assert_eq!(s.step_with(Some(Key::Other), &vec![5]), Outcome::Moved(pt(2, 0)));
    assert_eq!(s.snake.head_pos, pt(3, 2));
}

#[test]
fn new_round_starts_moved() {
    let s = GameState::new(true);
    assert_eq!(s.snake.head_pos, pt(3, 2));
    assert_eq!(s.snake.tail, vec![pt(2, 1), pt(2, 2)]);
    assert_eq!(s.apples.len(), APPLE_COUNT);
    assert!(s.apples.iter().all(|a| in_food_area(*a)));
    assert_eq!(s.speed_mult, SPEED_MULT_START);
}

#[test]
fn move_and_collision_checks() {
    let mut snake = Snake { direction: Direction::Up, head_pos: pt(4, 4), tail: vec![pt(4, 6), pt(4, 5)] };
    assert_eq!(snake.move_snake(), pt(4, 6));
    assert_eq!(snake.head_pos, pt(4, 3));
    assert_eq!(snake.tail, vec![pt(4, 5), pt(4, 4)]);
    assert!(snake.check_snake_out_pos());
    snake.direction = Direction::Down;
    snake.move_snake();
    assert_eq!(snake.head_pos, pt(4, 4));
    assert!(!snake.check_snake_out_pos());
    assert!(snake.snake_eated_apple(pt(4, 4)));
    assert!(!snake.snake_eated_apple(pt(4, 5)));
    let edge = Snake { direction: Direction::Still, head_pos: pt(40, 40), tail: vec![pt(0, 0)] };
    assert!(edge.check_snake_out_pos());
    for head in [pt(41, 5), pt(-1, 5), pt(5, 0), pt(5, 41)] {
        let s = Snake { direction: Direction::Still, head_pos: head, tail: vec![pt(0, 0)] };
        assert!(!s.check_snake_out_pos());
    }
}

#[test]
fn points_and_directions() {
    assert_eq!(pt(5, 3).sub(pt(2, 7)), pt(3, -4));
    assert_eq!(pt(5, 5).step(Direction::Left), pt(4, 5));
    assert_eq!(pt(5, 5).step(Direction::Still), pt(5, 5));
    assert_eq!(pt(5, 5).step(Direction::Up).step(Direction::Up.opposite()), pt(5, 5));
    assert_eq!(Direction::Left.opposite(), Direction::Right);
    assert_eq!(Direction::Still.opposite(), Direction::Still);
}

#[test]
fn food_cells_and_relocation() {
    assert_eq!(FOOD_CELLS, 1560);
    assert_eq!(food_cell(0), pt(0, 1));
    assert_eq!(food_cell(1559), pt(39, 39));
    assert_eq!(food_cell(41), pt(1, 2));
    assert_eq!(relocate_apple(pt(3, 2), 42), pt(2, 2));
    assert_eq!(relocate_apple(pt(3, 2), 43), pt(4, 2));
    assert_eq!(relocate_apple(pt(0, 1), 0), pt(1, 1));
    assert_eq!(relocate_apple(pt(39, 39), 1558), pt(38, 39));
    for _ in 0..200 {
        assert!(in_food_area(reset_apple()));
    }
}

#[test]
fn status_bar_text() {
    assert_eq!(text(&status_text(12, 6, false)), "Points: 12  Game Speed: 15  Game Version: 1.3");
    assert_eq!(text(&status_text(0, 20, true)), "Points: 0  Game Speed: 1  Game Version: 1.3 (PAUSED)");
    let mut v = vec!['#'];
    push_decimal(&mut v, 1090);
    assert_eq!(text(&v), "#1090");
}

#[test]
fn head_glyphs_alternate() {
    assert_eq!(text(&head_text(Direction::Up, true)), "\\/");
    assert_eq!(text(&head_text(Direction::Up, false)), "||");
    assert_eq!(text(&head_text(Direction::Down, true)), "/\\");
    assert_eq!(text(&head_text(Direction::Left, true)), ">8");
    assert_eq!(text(&head_text(Direction::Left, false)), "=8");
    assert_eq!(text(&head_text(Direction::Right, true)), "8<");
    assert_eq!(text(&head_text(Direction::Right, false)), "8=");
    assert_eq!(text(&head_text(Direction::Still, true)), "  ");
}

#[test]
fn frame_cells() {
    let mut s = scenario_state();
    let f = s.draw_game();
    assert!(s.tempo);
    assert_eq!(f.len(), 5);
    assert_eq!(text(&f[0].text), " ".repeat(80));
    assert_eq!(text(&f[1].text), "Points: 0  Game Speed: 15  Game Version: 1.3");
    assert_eq!((f[2].col, f[2].row, text(&f[2].text)), (4, 0, "88".to_string()));
    assert_eq!((f[3].col, f[3].row, f[3].fg, f[3].bg), (4, 1, Color::White, Color::DarkGrey));
    assert_eq!((f[4].col, f[4].row, text(&f[4].text)), (4, 2, "8<".to_string()));
    let f = s.draw_game();
    assert!(!s.tempo);
    assert_eq!(text(&f[4].text), "8=");
}

#[test]
fn apple_cells() {
    let leaves = ["o\\", " /o", " |D", " |>"];
    let a = draw_apple(pt(3, 2));
    assert_eq!((a[0].col, a[0].row, a[0].fg, a[0].bg), (6, 1, Color::Green, Color::Black));
    assert!(leaves.contains(&text(&a[0].text).as_str()));
    assert_eq!((a[1].col, a[1].row, text(&a[1].text)), (6, 2, "()".to_string()));
    assert_eq!((a[1].fg, a[1].bg), (Color::Yellow, Color::Red));
    let all = draw_apples(&vec![pt(1, 1), pt(10, 5)]);
    assert_eq!(all.len(), 4);
    assert_eq!((all[3].col, all[3].row), (20, 5));
    let e = erase_cell(pt(7, 9));
    assert_eq!((e.col, e.row, text(&e.text), e.bg), (14, 9, "  ".to_string(), Color::Black));
    assert_eq!(cmd_goto(12, 3), (12, 3));
}

#[test]
fn only_moved_apples_are_redrawn() {
    let mut s = scenario_state();
    let before = s.apples.clone();
    assert!(s.apple_updates(&before).is_empty());
    s.step_with(None, &vec![100]);
    let cells = s.apple_updates(&before);
    assert_eq!(cells.len(), 2);
    assert_eq!((cells[1].col, cells[1].row), (2 * s.apples[0].x as u16, s.apples[0].y as u16));
    assert_eq!(s.apples[0], pt(21, 3));
}

#[test]
fn eaten_apple_never_lands_where_it_was() {
    for _ in 0..200 {
        let mut s = scenario_state();
        assert!(matches!(s.tick(None), Outcome::Moved(_)));
        assert_eq!(s.points, 1);
        assert_ne!(s.apples[0], pt(3, 2));
        assert!(in_food_area(s.apples[0]));
    }
}

#[test]
fn leaf_follows_its_draw() {
    let leaves = ["o\\", " /o", " |D", " |>"];
    for (k, leaf) in leaves.iter().enumerate() {
        let a = draw_apple_with(pt(40, 40), k as u64);
        assert_eq!((a[0].col, a[0].row, text(&a[0].text)), (80, 39, leaf.to_string()));
        assert_eq!((a[0].fg, a[0].bg), (Color::Green, Color::Black));
        assert_eq!((a[1].col, a[1].row, text(&a[1].text)), (80, 40, "()".to_string()));
        assert_eq!((a[1].fg, a[1].bg), (Color::Yellow, Color::Red));
    }
    let all = draw_apples(&vec![pt(40, 1), pt(0, 40)]);
    assert_eq!((all[0].col, all[0].row, all[0].fg, all[0].bg), (80, 0, Color::Green, Color::Black));
    assert_eq!((all[3].col, all[3].row), (0, 40));
}
