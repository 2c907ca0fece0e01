use gravity::level_order::level_order_by_id;
use gravity::levels::{
    after_level_won, level0_grid_cells, level_menu_index, select_level, CurrentScore, Difficulty,
    LevelAdvance, LevelDifficulty,
};

#[test]
fn difficulty_defaults_to_normal() {
    assert_eq!(Difficulty::default(), Difficulty::Normal);
    assert_eq!(LevelDifficulty::default().0, Difficulty::Normal);
}

#[test]
fn difficulty_positions_round_trip() {
    assert_eq!(Difficulty::variant_count(), 3);
    assert_eq!(Difficulty::Easy.index(), 0);
    assert_eq!(Difficulty::Normal.index(), 1);
    assert_eq!(Difficulty::Hard.index(), 2);
    for i in 0..Difficulty::variant_count() {
        assert_eq!(Difficulty::from_index(i).index(), i);
    }
    for d in [Difficulty::Easy, Difficulty::Normal, Difficulty::Hard] {
        assert_eq!(Difficulty::from_index(d.index()), d);
    }
}

#[test]
fn score_starts_at_zero() {
    assert_eq!(CurrentScore::default().score, 0);
}

#[test]
fn winning_advances_or_completes() {
    assert_eq!(after_level_won(0, 3), LevelAdvance::NextLevel(1));
    assert_eq!(after_level_won(1, 3), LevelAdvance::NextLevel(2));
    assert_eq!(after_level_won(2, 3), LevelAdvance::GameCompleted);
    assert_eq!(after_level_won(0, 1), LevelAdvance::GameCompleted);
    assert_eq!(after_level_won(7, 3), LevelAdvance::GameCompleted);
}

#[test]
fn a_level_past_the_list_is_an_error() {
    assert_eq!(select_level(0, 1), Some(0));
    assert_eq!(select_level(1, 1), None);
    assert_eq!(select_level(0, 0), None);
}

#[test]
fn the_level_menu_starts_at_the_first_level() {
    assert_eq!(level_menu_index(None), 0);
    assert_eq!(level_menu_index(Some(4)), 4);
}

#[test]
fn the_first_level_spawns_a_cube_of_spheres() {
    let cells = level0_grid_cells();
    assert_eq!(cells.len(), 4096);
    assert_eq!(cells[0], (-8, 0, -8));
    assert_eq!(cells[1], (-8, 0, -7));
    assert_eq!(cells[16], (-8, 1, -8));
    assert_eq!(cells[256], (-7, 0, -8));
    assert_eq!(cells[4095], (7, 15, 7));
    let mut sorted = cells.clone();
    sorted.sort();
    sorted.dedup();
    assert_eq!(sorted.len(), 4096);
}

#[test]
fn levels_are_ordered_by_id() {
    let ids: Vec<String> = vec!["level2".to_string(), "level0".to_string(), "level1".to_string()];
    assert_eq!(level_order_by_id(&ids), vec![1, 2, 0]);
}

#[test]
fn equal_ids_keep_their_order() {
    let ids: Vec<String> = vec![
        "b".to_string(),
        "a".to_string(),
        "b".to_string(),
        "a".to_string(),
        "ab".to_string(),
        "".to_string(),
    ];
    assert_eq!(level_order_by_id(&ids), vec![5, 1, 3, 4, 0, 2]);
}

#[test]
fn id_order_is_byte_order() {
    let ids: Vec<String> = vec!["é".to_string(), "z".to_string(), "Z".to_string(), "level10".to_string(), "level9".to_string()];
    let order = level_order_by_id(&ids);
    let mut expected: Vec<usize> = (0..ids.len()).collect();
    expected.sort_by(|a, b| ids[*a].cmp(&ids[*b]));
    assert_eq!(order, expected);
    assert_eq!(order, vec![2, 3, 4, 1, 0]);
}

#[test]
fn no_levels_no_order() {
    assert_eq!(level_order_by_id(&vec![]), Vec::<usize>::new());
}
