use tictactoe::board::{Board, Field};

const O: Field = Field::O;
const X: Field = Field::X;
const EMPTY: Field = Field::E;

#[test]
fn for_empty_board_no_winner() {
    let board = Board {
        fields: vec![
            EMPTY, EMPTY, EMPTY, EMPTY, EMPTY, EMPTY, EMPTY, EMPTY, EMPTY,
        ],
    };
    assert_eq!(board.check_win(), false);
}

#[test]
fn for_board_with_one_x_wins_x() {
    let board = Board {
        fields: vec![X, X, X, X, X, X, X, X, X],
    };
    assert_eq!(board.check_win(), true);
}

#[test]
fn for_board_with_one_o_wins_o() {
    let board = Board {
        fields: vec![O, O, O, O, O, O, O, O, O],
    };
    assert_eq!(board.check_win(), true);
}

#[test]
fn for_board_with_one_o_and_a_line_of_x_wins_x() {
    let board = Board {
        fields: vec![O, X, EMPTY, EMPTY, X, EMPTY, EMPTY, X, EMPTY],
    };
    assert_eq!(board.check_win(), true);
}

#[test]
fn every_winning_line_wins_for_both_marks() {
    let lines = [
        [0, 1, 2],
        [3, 4, 5],
        [6, 7, 8],
        [0, 3, 6],
        [1, 4, 7],
        [2, 5, 8],
        [0, 4, 8],
        [2, 4, 6],
    ];
    for mark in [X, O] {
        for line in lines {
            let mut board = Board::new();
            for index in line {
                board.place(index, &mark);
            }
            assert!(board.check_win());
            assert!(!board.check_draw());
        }
    }
}

#[test]
fn winning_line_wins_with_other_cells_taken_by_the_other_mark() {
    let board = Board {
        fields: vec![O, O, X, EMPTY, X, O, X, EMPTY, EMPTY],
    };
    assert!(board.check_win());
}

#[test]
fn two_in_a_line_does_not_win() {
    let board = Board {
        fields: vec![X, X, EMPTY, O, O, EMPTY, EMPTY, EMPTY, EMPTY],
    };
    assert!(!board.check_win());
    assert!(!board.check_draw());
}

#[test]
fn mixed_line_does_not_win() {
    let board = Board {
        fields: vec![X, O, X, EMPTY, EMPTY, EMPTY, EMPTY, EMPTY, EMPTY],
    };
    assert!(!board.check_win());
}

#[test]
fn full_board_without_line_is_draw() {
    let board = Board {
        fields: vec![X, O, X, O, X, O, O, X, O],
    };
    assert!(!board.check_win());
    assert!(board.check_draw());
}

#[test]
fn full_board_with_line_is_won_and_full() {
    let board = Board {
        fields: vec![X, X, X, O, O, X, X, O, O],
    };
    assert!(board.check_win());
    assert!(board.check_draw());
}

#[test]
fn new_board_is_empty_and_not_drawn() {
    let board = Board::new();
    assert_eq!(board.fields.len(), 9);
    for index in 0..9 {
        assert_eq!(board.get(index), EMPTY);
    }
    assert!(!board.check_win());
    assert!(!board.check_draw());
}

#[test]
fn can_place_only_on_empty_cells_on_the_board() {
    let mut board = Board::new();
    assert!(board.can_place(0));
    assert!(board.can_place(8));
    assert!(!board.can_place(9));
    assert!(!board.can_place(100));
    assert!(!board.can_place(usize::MAX));
    board.place(4, &X);
    assert!(!board.can_place(4));
    assert!(board.can_place(3));
    assert_eq!(board.get(4), X);
}

#[test]
fn can_place_off_board_is_false_on_a_full_board() {
    let board = Board {
        fields: vec![X, O, X, O, X, O, O, X, O],
    };
    for index in 0..9 {
        assert!(!board.can_place(index));
    }
    assert!(!board.can_place(9));
}

#[test]
fn placing_empty_clears_a_cell() {
    let mut board = Board::new();
    board.place(2, &O);
    assert!(!board.can_place(2));
    board.place(2, &EMPTY);
    assert!(board.can_place(2));
    assert_eq!(board.get(2), EMPTY);
}

#[test]
fn symbols_of_cells() {
    assert_eq!(X.symbol(), 'X');
    assert_eq!(O.symbol(), 'O');
    assert_eq!(EMPTY.symbol(), ' ');
}
