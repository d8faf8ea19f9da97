use rattlesnake::{
    advance, play, tick, Advance, Field, GameResult, GameState, PlayError, PlayerEvent,
    ScriptedSource, ThreadRandom, SPAWN_ATTEMPTS,
};

fn state_of(snake: Vec<(u16, u16)>, food: Vec<(u16, u16)>, direction: (i16, i16)) -> GameState {
    let mut state = GameState::new();
    state.snake = snake;
    state.food = food;
    state.direction = direction;
    state
}

#[test]
fn new_state_is_blank() {
    let state = GameState::new();
    assert!(state.snake.is_empty());
    assert!(state.food.is_empty());
    assert_eq!(state.direction, (0, 0));
    assert_eq!(state.score, 0);
}

#[test]
fn default_state_is_blank() {
    let state = GameState::default();
    assert!(state.snake.is_empty());
    assert!(state.food.is_empty());
    assert_eq!(state.direction, (0, 0));
    assert_eq!(state.score, 0);
}

#[test]
fn first_tick_places_head_at_center_and_food_where_drawn() {
    let field = Field::new(5, 5);
    let mut state = GameState::new();
    let mut rng = ScriptedSource::new(vec![1, 1]);
    let result = play(&mut state, &field, &PlayerEvent::Idle, &mut rng);
    assert_eq!(result, Ok(GameResult::Continue));
    assert_eq!(state.snake, vec![(3, 3)]);
    assert_eq!(state.food, vec![(1, 1)]);
    assert_eq!(state.direction, (0, 0));
    assert_eq!(state.score, 0);
}

#[test]
fn first_tick_on_an_even_field_starts_left_of_the_middle() {
    let field = Field::new(40, 20);
    let mut state = GameState::new();
    let mut rng = ScriptedSource::new(vec![7, 9]);
    let result = play(&mut state, &field, &PlayerEvent::Idle, &mut rng);
    assert_eq!(result, Ok(GameResult::Continue));
    assert_eq!(state.snake, vec![(20, 10)]);
    assert_eq!(state.food, vec![(7, 9)]);
}

#[test]
fn left_from_the_first_column_is_a_wall_collision() {
    let field = Field::new(5, 5);
    let mut state = state_of(vec![(1, 1)], vec![(4, 4)], (0, 0));
    let mut rng = ScriptedSource::new(vec![2, 2]);
    let result = play(&mut state, &field, &PlayerEvent::Left, &mut rng);
    assert_eq!(result, Ok(GameResult::GameOver));
    assert_eq!(state.snake, vec![(0, 1)]);
    assert_eq!(state.food, vec![(4, 4)]);
    assert_eq!(state.direction, (-1, 0));
}

#[test]
fn up_from_the_first_row_is_a_wall_collision() {
    let field = Field::new(5, 5);
    let mut state = state_of(vec![(2, 1)], vec![(4, 4)], (0, 0));
    let mut rng = ScriptedSource::new(vec![2, 2]);
    let result = play(&mut state, &field, &PlayerEvent::Up, &mut rng);
    assert_eq!(result, Ok(GameResult::GameOver));
    assert_eq!(state.snake, vec![(2, 0)]);
}

#[test]
fn right_from_the_last_column_is_a_wall_collision() {
    let field = Field::new(5, 5);
    let mut state = state_of(vec![(5, 3)], vec![(1, 1)], (0, 0));
    let mut rng = ScriptedSource::new(vec![2, 2]);
    let result = play(&mut state, &field, &PlayerEvent::Right, &mut rng);
    assert_eq!(result, Ok(GameResult::GameOver));
    assert_eq!(state.snake, vec![(6, 3)]);
}

#[test]
fn down_from_the_last_row_is_a_wall_collision() {
    let field = Field::new(5, 5);
    let mut state = state_of(vec![(3, 5)], vec![(1, 1)], (0, 0));
    let mut rng = ScriptedSource::new(vec![2, 2]);
    let result = play(&mut state, &field, &PlayerEvent::Down, &mut rng);
    assert_eq!(result, Ok(GameResult::GameOver));
    assert_eq!(state.snake, vec![(3, 6)]);
}

#[test]
fn right_from_the_last_column_of_the_widest_field_is_a_wall_collision() {
    let field = Field::new(u16::MAX, 3);
    let mut state = state_of(vec![(u16::MAX, 2)], vec![(1, 1)], (0, 0));
    let mut rng = ScriptedSource::new(vec![2, 2]);
    let result = play(&mut state, &field, &PlayerEvent::Right, &mut rng);
    assert_eq!(result, Ok(GameResult::GameOver));
    assert_eq!(state.snake, vec![(0, 2)]);
}

#[test]
fn reversal_is_refused_and_the_snake_keeps_going() {
    let field = Field::new(5, 5);
    let mut state = state_of(vec![(3, 3), (3, 4)], vec![(1, 1)], (0, -1));
    let mut rng = ScriptedSource::new(vec![2, 2]);
    let result = play(&mut state, &field, &PlayerEvent::Down, &mut rng);
    assert_eq!(result, Ok(GameResult::Continue));
    assert_eq!(state.direction, (0, -1));
    assert_eq!(state.snake, vec![(3, 2), (3, 3)]);
    assert_eq!(state.food, vec![(1, 1)]);
}

#[test]
fn snake_grows_once_its_tail_leaves_the_food_cell() {
    let field = Field::new(5, 5);
    let mut state = state_of(vec![(3, 3)], vec![(4, 3)], (1, 0));
    // The draws for the new item: (5, 3) and (4, 3) are taken, (2, 2) is free.
    let mut rng = ScriptedSource::new(vec![5, 3, 4, 3, 2, 2]);

    let result = play(&mut state, &field, &PlayerEvent::Idle, &mut rng);
    assert_eq!(result, Ok(GameResult::Continue));
    assert_eq!(state.snake, vec![(4, 3)]);
    assert_eq!(state.food, vec![(4, 3)]);
    assert_eq!(state.score, 0);

    let result = play(&mut state, &field, &PlayerEvent::Idle, &mut rng);
    assert_eq!(result, Ok(GameResult::Continue));
    assert_eq!(state.snake, vec![(5, 3), (4, 3)]);
    assert_eq!(state.score, 1);
    assert_eq!(state.food, vec![(2, 2)]);
    assert!(!state.food.contains(&(4, 3)));
    for cell in &state.snake {
        assert!(!state.food.contains(cell));
    }
}

#[test]
fn only_the_first_of_equal_food_items_is_eaten() {
    let field = Field::new(5, 5);
    let mut state = state_of(vec![(2, 2)], vec![(1, 1), (2, 2), (4, 4), (2, 2)], (1, 0));
    let mut rng = ScriptedSource::new(vec![5, 5]);
    let result = play(&mut state, &field, &PlayerEvent::Idle, &mut rng);
    assert_eq!(result, Ok(GameResult::Continue));
    assert_eq!(state.snake, vec![(3, 2), (2, 2)]);
    assert_eq!(state.food, vec![(1, 1), (4, 4), (2, 2), (5, 5)]);
    assert_eq!(state.score, 1);
}

#[test]
fn food_drawn_onto_the_starting_cell_is_eaten_at_once() {
    let field = Field::new(5, 5);
    let mut state = GameState::new();
    let mut rng = ScriptedSource::new(vec![3, 3, 3, 3, 1, 2]);
    let result = play(&mut state, &field, &PlayerEvent::Idle, &mut rng);
    assert_eq!(result, Ok(GameResult::Continue));
    assert_eq!(state.snake, vec![(3, 3), (3, 3)]);
    assert_eq!(state.food, vec![(1, 2)]);
    assert_eq!(state.score, 1);
    // A snake standing on itself collides on the next tick.
    let result = play(&mut state, &field, &PlayerEvent::Idle, &mut rng);
    assert_eq!(result, Ok(GameResult::GameOver));
}

#[test]
fn head_on_a_body_cell_is_game_over() {
    let field = Field::new(5, 5);
    // A snake of five cells curled so that a turn down runs into its own body.
    let snake = vec![(3, 2), (2, 2), (2, 3), (3, 3), (4, 3)];
    let mut state = state_of(snake, vec![(1, 1)], (1, 0));
    let mut rng = ScriptedSource::new(vec![5, 5]);
    let result = play(&mut state, &field, &PlayerEvent::Down, &mut rng);
    assert_eq!(result, Ok(GameResult::GameOver));
    assert_eq!(state.snake, vec![(3, 3), (3, 2), (2, 2), (2, 3), (3, 3)]);
    assert_eq!(state.score, 0);
}

#[test]
fn head_may_follow_the_tail() {
    let field = Field::new(5, 5);
    // A ring of four cells: the head moves onto the cell the tail leaves.
    let snake = vec![(2, 2), (3, 2), (3, 3), (2, 3)];
    let mut state = state_of(snake, vec![(5, 5)], (-1, 0));
    let mut rng = ScriptedSource::new(vec![1, 1]);
    let result = play(&mut state, &field, &PlayerEvent::Down, &mut rng);
    assert_eq!(result, Ok(GameResult::Continue));
    assert_eq!(state.snake, vec![(2, 3), (2, 2), (3, 2), (3, 3)]);
}

#[test]
fn quit_and_toggle_leave_the_heading_alone() {
    let field = Field::new(9, 9);
    let mut state = state_of(vec![(3, 3)], vec![(9, 9)], (1, 0));
    let mut rng = ScriptedSource::new(vec![1, 1]);
    assert_eq!(play(&mut state, &field, &PlayerEvent::Quit, &mut rng), Ok(GameResult::Continue));
    assert_eq!(state.snake, vec![(4, 3)]);
    assert_eq!(state.direction, (1, 0));
    assert_eq!(
        play(&mut state, &field, &PlayerEvent::ToggleArrowKeys, &mut rng),
        Ok(GameResult::Continue)
    );
    assert_eq!(state.snake, vec![(5, 3)]);
    assert_eq!(state.direction, (1, 0));
}

#[test]
fn spawn_gives_up_when_every_draw_is_taken() {
    let field = Field::new(5, 5);
    let mut state = state_of(vec![(2, 2)], vec![(2, 2)], (1, 0));
    // Every draw lands on the snake's new head.
    let mut rng = ScriptedSource::new(vec![3, 2]);
    let result = play(&mut state, &field, &PlayerEvent::Idle, &mut rng);
    assert_eq!(result, Err(PlayError::SpawnExhausted));
    assert_eq!(state.snake, vec![(3, 2), (2, 2)]);
    assert!(state.food.is_empty());
    assert_eq!(state.score, 1);
    assert_eq!(state.direction, (1, 0));
    assert_eq!(SPAWN_ATTEMPTS, 100_000);
}

#[test]
fn advance_places_the_snake_and_leaves_food_alone() {
    let field = Field::new(5, 5);
    let mut state = GameState::new();
    let advanced = advance(&mut state, &field, &PlayerEvent::Right);
    assert_eq!(advanced, Advance::Moved);
    assert_eq!(state.snake, vec![(4, 3)]);
    assert!(state.food.is_empty());
    assert_eq!(state.direction, (1, 0));
}

#[test]
fn advance_reports_a_crash() {
    let field = Field::new(5, 5);
    let mut state = state_of(vec![(1, 1)], vec![(4, 4)], (0, 0));
    assert_eq!(advance(&mut state, &field, &PlayerEvent::Left), Advance::Crashed);
    assert_eq!(state.snake, vec![(0, 1)]);
    assert_eq!(state.score, 0);
}

#[test]
fn advance_feeds_the_snake_without_placing_food() {
    let field = Field::new(5, 5);
    let mut state = state_of(vec![(3, 3)], vec![(3, 3)], (1, 0));
    assert_eq!(advance(&mut state, &field, &PlayerEvent::Idle), Advance::Fed);
    assert_eq!(state.snake, vec![(4, 3), (3, 3)]);
    assert!(state.food.is_empty());
    assert_eq!(state.score, 1);
}

#[test]
fn a_crash_comes_before_a_meal() {
    let field = Field::new(5, 5);
    let mut state = state_of(vec![(5, 3)], vec![(5, 3)], (1, 0));
    assert_eq!(advance(&mut state, &field, &PlayerEvent::Idle), Advance::Crashed);
    assert_eq!(state.food, vec![(5, 3)]);
    assert_eq!(state.score, 0);
}

#[test]
fn a_game_with_the_thread_generator_keeps_its_promises() {
    let field = Field::new(8, 6);
    let mut rng = ThreadRandom::new();
    let inputs = [
        PlayerEvent::Right,
        PlayerEvent::Down,
        PlayerEvent::Left,
        PlayerEvent::Up,
        PlayerEvent::Idle,
    ];
    for round in 0..50 {
        let mut state = GameState::new();
        let mut length = 0;
        for tick in 0..200 {
            let event = inputs[(tick * 7 + round) % inputs.len()];
            let score = state.score;
            let result = play(&mut state, &field, &event, &mut rng);
            assert!(state.snake.len() >= length);
            assert!(state.snake.len() >= 1);
            assert!(!state.food.is_empty());
            for cell in &state.food {
                assert!(field.contains(*cell));
            }
            for cell in &state.snake[1..] {
                assert!(field.contains(*cell));
            }
            match result {
                Ok(GameResult::Continue) => {
                    assert!(field.contains(state.snake[0]));
                    if state.score == score + 1 {
                        assert_eq!(state.snake.len(), length.max(1) + 1);
                        let fresh = state.food[state.food.len() - 1];
                        assert!(!state.snake.contains(&fresh));
                    } else {
                        assert_eq!(state.score, score);
                        assert_eq!(state.snake.len(), length.max(1));
                    }
                }
                Ok(GameResult::GameOver) => {
                    let head = state.snake[0];
                    assert!(!field.contains(head) || state.snake[1..].contains(&head));
                    break;
                }
                Err(PlayError::SpawnExhausted) => {
                    panic!("no free cell found on a board that is nearly empty")
                }
            }
            length = state.snake.len();
        }
    }
}

#[test]
fn tick_places_the_first_food_item_it_is_given() {
    let field = Field::new(5, 5);
    let mut state = GameState::new();
    let result = tick(&mut state, &field, &PlayerEvent::Idle, (1, 1), None);
    assert_eq!(result, Ok(GameResult::Continue));
    assert_eq!(state.snake, vec![(3, 3)]);
    assert_eq!(state.food, vec![(1, 1)]);
    assert_eq!(state.score, 0);
}

#[test]
fn tick_leaves_food_that_is_there_alone() {
    let field = Field::new(5, 5);
    let mut state = state_of(vec![(3, 3), (3, 4)], vec![(2, 2)], (0, -1));
    let result = tick(&mut state, &field, &PlayerEvent::Left, (1, 1), Some((5, 5)));
    assert_eq!(result, Ok(GameResult::Continue));
    assert_eq!(state.snake, vec![(2, 3), (3, 3)]);
    assert_eq!(state.food, vec![(2, 2)]);
    assert_eq!(state.direction, (-1, 0));
}

#[test]
fn tick_places_the_new_item_after_a_meal() {
    let field = Field::new(5, 5);
    let mut state = state_of(vec![(4, 3)], vec![(4, 3)], (1, 0));
    let result = tick(&mut state, &field, &PlayerEvent::Idle, (1, 1), Some((2, 2)));
    assert_eq!(result, Ok(GameResult::Continue));
    assert_eq!(state.snake, vec![(5, 3), (4, 3)]);
    assert_eq!(state.food, vec![(2, 2)]);
    assert_eq!(state.score, 1);
}

#[test]
fn tick_without_a_new_item_after_a_meal_is_exhausted() {
    let field = Field::new(5, 5);
    let mut state = state_of(vec![(4, 3)], vec![(4, 3)], (1, 0));
    let result = tick(&mut state, &field, &PlayerEvent::Idle, (1, 1), None);
    assert_eq!(result, Err(PlayError::SpawnExhausted));
    assert_eq!(state.snake, vec![(5, 3), (4, 3)]);
    assert!(state.food.is_empty());
    assert_eq!(state.score, 1);
}

#[test]
fn tick_reports_a_crash_and_places_nothing() {
    let field = Field::new(5, 5);
    let mut state = state_of(vec![(1, 1)], vec![(1, 1)], (0, 0));
    let result = tick(&mut state, &field, &PlayerEvent::Left, (3, 3), Some((2, 2)));
    assert_eq!(result, Ok(GameResult::GameOver));
    assert_eq!(state.snake, vec![(0, 1)]);
    assert_eq!(state.food, vec![(1, 1)]);
    assert_eq!(state.score, 0);
}

#[test]
fn play_and_tick_agree_on_the_same_draws() {
    let field = Field::new(5, 5);
    let mut played = state_of(vec![(2, 2)], vec![(2, 2)], (0, 1));
    let mut rng = ScriptedSource::new(vec![2, 3, 2, 2, 4, 1]);
    let result = play(&mut played, &field, &PlayerEvent::Idle, &mut rng);
    let mut ticked = state_of(vec![(2, 2)], vec![(2, 2)], (0, 1));
    let expected = tick(&mut ticked, &field, &PlayerEvent::Idle, (1, 1), Some((4, 1)));
    assert_eq!(result, expected);
    assert_eq!(played.snake, ticked.snake);
    assert_eq!(played.food, ticked.food);
    assert_eq!(played.score, ticked.score);
    assert_eq!(played.direction, ticked.direction);
}
