use rattlesnake::{Draw, Symbol, TerminalUI};

fn at(symbol: Symbol, x: u16, y: u16) -> Draw {
    Draw { symbol, x, y }
}

#[test]
fn symbols_have_their_glyphs() {
    assert_eq!(Symbol::Food.glyph(), '@');
    assert_eq!(Symbol::Snake.glyph(), 'S');
    assert_eq!(Symbol::Wall.glyph(), '#');
    assert_eq!(Symbol::Empty.glyph(), ' ');
}

#[test]
fn a_box_is_drawn_rows_first_then_sides() {
    let ui = TerminalUI::new();
    let plan = ui.draw_box(Symbol::Wall, 2, 1, 3, 4);
    let wall = |x, y| at(Symbol::Wall, x, y);
    assert_eq!(
        plan,
        vec![
            wall(2, 1),
            wall(2, 4),
            wall(3, 1),
            wall(3, 4),
            wall(4, 1),
            wall(4, 4),
            wall(2, 2),
            wall(4, 2),
            wall(2, 3),
            wall(4, 3),
        ]
    );
}

#[test]
fn a_flat_box_has_no_sides() {
    let ui = TerminalUI::new();
    let food = |x, y| at(Symbol::Food, x, y);
    assert_eq!(ui.draw_box(Symbol::Food, 0, 0, 2, 1), vec![food(0, 0), food(0, 0), food(1, 0), food(1, 0)]);
    assert_eq!(ui.draw_box(Symbol::Food, 5, 5, 1, 2), vec![food(5, 5), food(5, 6)]);
}

#[test]
fn a_box_may_touch_the_end_of_the_coordinate_range() {
    let ui = TerminalUI::new();
    let plan = ui.draw_box(Symbol::Wall, u16::MAX - 1, u16::MAX - 2, 2, 3);
    assert_eq!(plan.len(), 6);
    assert_eq!(plan[1], at(Symbol::Wall, u16::MAX - 1, u16::MAX));
    assert_eq!(plan[5], at(Symbol::Wall, u16::MAX, u16::MAX - 1));
}

#[test]
fn the_wall_surrounds_the_field() {
    let ui = TerminalUI::new();
    let plan = ui.draw_field(2, 1);
    let wall = |x, y| at(Symbol::Wall, x, y);
    assert_eq!(
        plan,
        vec![
            wall(0, 0),
            wall(0, 2),
            wall(1, 0),
            wall(1, 2),
            wall(2, 0),
            wall(2, 2),
            wall(3, 0),
            wall(3, 2),
            wall(0, 1),
            wall(3, 1),
        ]
    );
    assert_eq!(ui.draw_field(40, 20).len(), 2 * 42 + 2 * 20);
}

#[test]
fn clear_field_blanks_row_by_row() {
    let ui = TerminalUI::new();
    let blank = |x, y| at(Symbol::Empty, x, y);
    assert_eq!(
        ui.clear_field(3, 2),
        vec![blank(1, 1), blank(2, 1), blank(3, 1), blank(1, 2), blank(2, 2), blank(3, 2)]
    );
    assert_eq!(ui.clear_field(1, 1), vec![blank(1, 1)]);
    assert_eq!(ui.clear_field(1, 3), vec![blank(1, 1), blank(1, 2), blank(1, 3)]);
    assert_eq!(ui.clear_field(2, 1), vec![blank(1, 1), blank(2, 1)]);
}

#[test]
fn clear_field_blanks_the_whole_field_and_nothing_else() {
    let ui = TerminalUI::new();
    let plan = ui.clear_field(40, 20);
    assert_eq!(plan.len(), 40 * 20);
    for x in 1..=40 {
        for y in 1..=20 {
            assert!(plan.contains(&at(Symbol::Empty, x, y)));
        }
    }
    for step in &plan {
        assert_eq!(step.symbol, Symbol::Empty);
        assert!((1..=40).contains(&step.x) && (1..=20).contains(&step.y));
    }
    assert_eq!(plan[0], at(Symbol::Empty, 1, 1));
    assert_eq!(plan[plan.len() - 1], at(Symbol::Empty, 40, 20));
}

#[test]
fn clear_field_without_cells_blanks_nothing() {
    let ui = TerminalUI::new();
    assert!(ui.clear_field(0, 0).is_empty());
    assert!(ui.clear_field(0, 5).is_empty());
    assert!(ui.clear_field(5, 0).is_empty());
}

#[test]
fn clear_field_reaches_the_last_column_of_the_coordinate_range() {
    let ui = TerminalUI::new();
    let plan = ui.clear_field(u16::MAX, 1);
    assert_eq!(plan.len(), u16::MAX as usize);
    assert_eq!(plan[plan.len() - 1], at(Symbol::Empty, u16::MAX, 1));
    let plan = ui.clear_field(1, u16::MAX);
    assert_eq!(plan.len(), u16::MAX as usize);
    assert_eq!(plan[plan.len() - 1], at(Symbol::Empty, 1, u16::MAX));
}

#[test]
fn init_draws_the_wall_and_then_the_blanks() {
    let mut ui = TerminalUI::new();
    let plan = ui.init(3, 2);
    let mut expected = ui.draw_field(3, 2);
    expected.extend(ui.clear_field(3, 2));
    assert_eq!(plan, expected);
    assert_eq!(plan.len(), 2 * 5 + 2 * 2 + 3 * 2);
    assert_eq!(plan[0], at(Symbol::Wall, 0, 0));
    assert_eq!(plan[plan.len() - 1], at(Symbol::Empty, 3, 2));
}

#[test]
fn init_blanks_every_cell_of_the_field_and_none_of_the_wall() {
    let mut ui = TerminalUI::new();
    let plan = ui.init(4, 3);
    for x in 1..=4 {
        for y in 1..=3 {
            assert!(plan.contains(&at(Symbol::Empty, x, y)));
        }
    }
    for step in &plan {
        let on_wall = step.x == 0 || step.x == 5 || step.y == 0 || step.y == 4;
        assert_eq!(step.symbol == Symbol::Wall, on_wall);
        assert!(step.x <= 5 && step.y <= 4);
    }
}

#[test]
fn a_box_without_columns_is_not_drawn() {
    let ui = TerminalUI::new();
    assert!(ui.draw_box(Symbol::Wall, 0, 0, 0, 0).is_empty());
    assert!(ui.draw_box(Symbol::Wall, 3, 4, 0, 1).is_empty());
    assert!(ui.draw_box(Symbol::Wall, 0, 0, 0, 2).is_empty());
}

#[test]
fn single_draws_name_their_symbol() {
    let ui = TerminalUI::new();
    assert_eq!(ui.draw_snake(&(3, 4)), at(Symbol::Snake, 3, 4));
    assert_eq!(ui.draw_food(&(5, 6)), at(Symbol::Food, 5, 6));
    assert_eq!(ui.clear((7, 8)), at(Symbol::Empty, 7, 8));
}

#[test]
fn the_first_frame_draws_all_food_the_snake_and_blanks_the_origin() {
    let mut ui = TerminalUI::new();
    let plan = ui.render(&[(3, 3), (3, 4)], &vec![(1, 1), (2, 5)]);
    assert_eq!(
        plan,
        vec![
            at(Symbol::Food, 1, 1),
            at(Symbol::Food, 2, 5),
            at(Symbol::Snake, 3, 3),
            at(Symbol::Snake, 3, 4),
            at(Symbol::Empty, 0, 0),
        ]
    );
}

#[test]
fn a_later_frame_draws_only_what_changed() {
    let mut ui = TerminalUI::new();
    ui.render(&[(3, 3), (3, 4)], &vec![(1, 1), (2, 5)]);
    // The snake moves up, one food item is replaced.
    let plan = ui.render(&[(3, 2), (3, 3)], &vec![(1, 1), (4, 4)]);
    assert_eq!(
        plan,
        vec![
            at(Symbol::Food, 4, 4),
            at(Symbol::Snake, 3, 2),
            at(Symbol::Snake, 3, 3),
            at(Symbol::Empty, 3, 4),
        ]
    );
}

#[test]
fn a_tail_that_stays_is_not_blanked() {
    let mut ui = TerminalUI::new();
    ui.render(&[(3, 3)], &vec![(1, 1)]);
    // The snake has eaten: a new head, the tail where it was.
    let plan = ui.render(&[(4, 3), (3, 3)], &vec![(1, 1)]);
    assert_eq!(plan, vec![at(Symbol::Snake, 4, 3), at(Symbol::Snake, 3, 3)]);
}

#[test]
fn food_shown_twice_in_one_frame_is_drawn_twice() {
    let mut ui = TerminalUI::new();
    let plan = ui.render(&[(0, 0)], &vec![(2, 2), (2, 2)]);
    assert_eq!(plan, vec![at(Symbol::Food, 2, 2), at(Symbol::Food, 2, 2), at(Symbol::Snake, 0, 0)]);
}

#[test]
fn a_default_planner_is_a_new_one() {
    let mut fresh = TerminalUI::new();
    let mut default = TerminalUI::default();
    let snake = [(2, 2), (2, 3)];
    let food = vec![(1, 1)];
    assert_eq!(default.render(&snake, &food), fresh.render(&snake, &food));
}
