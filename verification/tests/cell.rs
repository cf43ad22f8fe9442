use marubatsu::agent::AgentType;
use marubatsu::cell::CellState;
use marubatsu::cell::DECAY_THRESHOLD;

#[test]
fn marks_alternate() {
    assert_eq!(AgentType::MARU.next(), AgentType::BATSU);
    assert_eq!(AgentType::BATSU.next(), AgentType::MARU);
    assert_eq!(AgentType::MARU.next().next(), AgentType::MARU);
}

#[test]
fn marks_have_symbols() {
    assert_eq!(AgentType::MARU.symbol(), '○');
    assert_eq!(AgentType::BATSU.symbol(), '×');
}

#[test]
fn decay_threshold_is_three() {
    assert_eq!(DECAY_THRESHOLD, 3);
}

#[test]
fn new_cell_is_empty() {
    assert_eq!(CellState::new(), CellState::Empty);
}

#[test]
fn place_starts_at_age_zero() {
    let mut cell = CellState::new();
    cell.place(AgentType::BATSU);
    assert_eq!(cell, CellState::Occupied(AgentType::BATSU, 0));
}

#[test]
fn own_advances_age_then_fade_then_clear() {
    for owner in [AgentType::MARU, AgentType::BATSU] {
        let mut cell = CellState::new();
        cell.place(owner);
        cell.update(owner);
        assert_eq!(cell, CellState::Occupied(owner, 1));
        cell.update(owner);
        assert_eq!(cell, CellState::Occupied(owner, 2));
        cell.update(owner);
        assert_eq!(cell, CellState::Faded(owner));
        cell.update(owner);
        assert_eq!(cell, CellState::Empty);
        cell.update(owner);
        assert_eq!(cell, CellState::Empty);
    }
}

#[test]
fn foreign_advance_clears_a_live_mark() {
    for age in 0..DECAY_THRESHOLD {
        let mut cell = CellState::Occupied(AgentType::MARU, age);
        cell.update(AgentType::BATSU);
        assert_eq!(cell, CellState::Empty);
        let mut cell = CellState::Occupied(AgentType::BATSU, age);
        cell.update(AgentType::MARU);
        assert_eq!(cell, CellState::Empty);
    }
}

#[test]
fn any_advance_clears_a_faded_mark() {
    for owner in [AgentType::MARU, AgentType::BATSU] {
        for current in [AgentType::MARU, AgentType::BATSU] {
            let mut cell = CellState::Faded(owner);
            cell.update(current);
            assert_eq!(cell, CellState::Empty);
        }
    }
}

#[test]
fn empty_cell_stays_empty() {
    for current in [AgentType::MARU, AgentType::BATSU] {
        let mut cell = CellState::Empty;
        cell.update(current);
        assert_eq!(cell, CellState::Empty);
    }
}

#[test]
fn only_live_marks_belong_to_their_owner() {
    let live = CellState::Occupied(AgentType::MARU, 2);
    assert!(live.belongs_to(AgentType::MARU));
    assert!(!live.belongs_to(AgentType::BATSU));
    assert!(!CellState::Faded(AgentType::MARU).belongs_to(AgentType::MARU));
    assert!(!CellState::Empty.belongs_to(AgentType::MARU));
    assert!(!CellState::Empty.belongs_to(AgentType::BATSU));
}

#[test]
fn valid_maru_and_valid_batsu() {
    assert!(CellState::Occupied(AgentType::MARU, 0).is_valid_maru());
    assert!(!CellState::Occupied(AgentType::MARU, 0).is_valid_batsu());
    assert!(CellState::Occupied(AgentType::BATSU, 1).is_valid_batsu());
    assert!(!CellState::Occupied(AgentType::BATSU, 1).is_valid_maru());
    assert!(!CellState::Faded(AgentType::MARU).is_valid_maru());
    assert!(!CellState::Faded(AgentType::BATSU).is_valid_batsu());
    assert!(!CellState::Empty.is_valid_maru());
    assert!(!CellState::Empty.is_valid_batsu());
}
