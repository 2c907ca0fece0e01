use gravity::menus::{
    is_menu_action_click_bait, play_item_label, resume_item_label, should_play_menu_click,
    EnumMenuActions, MenuMessageKind, MenuOutcome, MenuScreen, SimpleMenuActions,
};

const ALL_KINDS: [MenuMessageKind; 6] = [
    MenuMessageKind::Navigate,
    MenuMessageKind::Activate,
    MenuMessageKind::Next,
    MenuMessageKind::Reset,
    MenuMessageKind::Previous,
    MenuMessageKind::Slide,
];

#[test]
fn clicks_play_on_navigation_not_activation() {
    assert!(is_menu_action_click_bait(MenuMessageKind::Navigate));
    assert!(is_menu_action_click_bait(MenuMessageKind::Next));
    assert!(is_menu_action_click_bait(MenuMessageKind::Reset));
    assert!(is_menu_action_click_bait(MenuMessageKind::Previous));
    assert!(!is_menu_action_click_bait(MenuMessageKind::Activate));
    assert!(!is_menu_action_click_bait(MenuMessageKind::Slide));
}

#[test]
fn one_click_when_any_input_clicks() {
    assert!(!should_play_menu_click(&vec![]));
    assert!(!should_play_menu_click(&vec![MenuMessageKind::Activate, MenuMessageKind::Slide]));
    assert!(should_play_menu_click(&vec![MenuMessageKind::Activate, MenuMessageKind::Navigate]));
    assert!(should_play_menu_click(&vec![MenuMessageKind::Previous]));
}

#[test]
fn plain_items_act_on_activate_and_next() {
    let table = [
        (SimpleMenuActions::PlayGame, MenuOutcome::StartGame),
        (SimpleMenuActions::GameMenu, MenuOutcome::GoInto(MenuScreen::GameMenu)),
        (SimpleMenuActions::OptionsMenu, MenuOutcome::GoInto(MenuScreen::OptionsMenu)),
        (SimpleMenuActions::AudioMenu, MenuOutcome::GoInto(MenuScreen::AudioMenu)),
        (SimpleMenuActions::VideoMenu, MenuOutcome::GoInto(MenuScreen::VideoMenu)),
        (SimpleMenuActions::ControlsMenu, MenuOutcome::GoInto(MenuScreen::ControlsMenu)),
        (SimpleMenuActions::Quit, MenuOutcome::Exit),
        (SimpleMenuActions::Back, MenuOutcome::GoBack),
        (SimpleMenuActions::ResumeGame, MenuOutcome::Resume),
        (SimpleMenuActions::StopGame, MenuOutcome::Stop),
    ];
    for (action, outcome) in table {
        for kind in ALL_KINDS {
            let expected = if kind == MenuMessageKind::Activate || kind == MenuMessageKind::Next {
                outcome
            } else {
                MenuOutcome::Nothing
            };
            assert_eq!(action.handle(kind), expected);
        }
    }
}

#[test]
fn only_activating_the_level_choice_starts_the_game() {
    assert_eq!(
        EnumMenuActions::SelectStartLevelEnum.handle(MenuMessageKind::Activate),
        MenuOutcome::StartGame
    );
    assert_eq!(
        EnumMenuActions::SelectStartLevelEnum.handle(MenuMessageKind::Next),
        MenuOutcome::Nothing
    );
    assert_eq!(
        EnumMenuActions::DifficultyEnum.handle(MenuMessageKind::Activate),
        MenuOutcome::Nothing
    );
}

#[test]
fn labels_name_the_current_level() {
    assert_eq!(play_item_label(None), "Play");
    assert_eq!(play_item_label(Some("Level 0")), "Reset (Level 0)");
    assert_eq!(resume_item_label("Level 0"), "Resume (Level 0)");
    assert_eq!(resume_item_label(""), "Resume ()");
}
