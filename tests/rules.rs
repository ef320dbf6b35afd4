use cube_life::rules::{GameRules, State};

fn standard_rules() -> GameRules {
    GameRules { reproduction: 4..5, underpopulation: 0..2, continuation: 2..5, overpopulation: 5..28 }
}

#[test]
fn active_with_one_neighbor_dies() {
    assert_eq!(standard_rules().next_state(State::Active, 1), State::Inactive);
}

#[test]
fn active_with_three_neighbors_survives() {
    assert_eq!(standard_rules().next_state(State::Active, 3), State::Active);
}

#[test]
fn inactive_with_four_neighbors_is_born() {
    assert_eq!(standard_rules().next_state(State::Inactive, 4), State::Active);
}

#[test]
fn inactive_with_two_neighbors_stays_inactive() {
    assert_eq!(standard_rules().next_state(State::Inactive, 2), State::Inactive);
}

#[test]
fn active_with_many_neighbors_dies() {
    assert_eq!(standard_rules().next_state(State::Active, 5), State::Inactive);
    assert_eq!(standard_rules().next_state(State::Active, 26), State::Inactive);
}

#[test]
fn active_in_a_gap_of_the_ranges_stays_active() {
    let rules = GameRules { reproduction: 4..5, underpopulation: 0..2, continuation: 3..5, overpopulation: 6..28 };
    assert_eq!(rules.next_state(State::Active, 2), State::Active);
    assert_eq!(rules.next_state(State::Active, 5), State::Active);
    assert_eq!(rules.next_state(State::Active, 27), State::Inactive);
}

#[test]
fn underpopulation_comes_before_continuation() {
    let rules = GameRules { reproduction: 4..5, underpopulation: 0..3, continuation: 2..5, overpopulation: 5..28 };
    assert_eq!(rules.next_state(State::Active, 2), State::Inactive);
}

#[test]
fn quiet_cells_keep_their_state() {
    let rules = standard_rules();
    for c in 2..5u8 {
        assert_eq!(rules.next_state(State::Active, c), State::Active);
    }
    for c in 0..27u8 {
        if c != 4 {
            assert_eq!(rules.next_state(State::Inactive, c), State::Inactive);
        }
    }
}

#[test]
fn draw_of_zero_is_active() {
    assert_eq!(State::from_draw(0), State::Active);
    assert_eq!(State::from_draw(1), State::Inactive);
    assert_eq!(State::from_draw(19), State::Inactive);
}
