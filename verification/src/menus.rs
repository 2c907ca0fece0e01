use vstd::prelude::*;
use vstd::string::StringExecFns;

verus! {

/// The kind of a menu input, without its payload.
#[derive(Clone, Copy, PartialEq, Eq, Structural, Debug)]
pub enum MenuMessageKind {
    Navigate,
    Activate,
    Next,
    Reset,
    Previous,
    Slide,
}

/// Whether a menu input plays a click: moving around and stepping values
/// do; activating an item and sliding do not.
pub open spec fn is_click_bait(kind: MenuMessageKind) -> bool {
    match kind {
        MenuMessageKind::Navigate => true,
        MenuMessageKind::Next => true,
        MenuMessageKind::Reset => true,
        MenuMessageKind::Previous => true,
        MenuMessageKind::Activate => false,
        MenuMessageKind::Slide => false,
    }
}

/// Play a click sound on this menu input?
pub fn is_menu_action_click_bait(kind: MenuMessageKind) -> (b: bool)
    ensures
        b == is_click_bait(kind),
{
    match kind {
        MenuMessageKind::Activate => false,
        MenuMessageKind::Navigate | MenuMessageKind::Next | MenuMessageKind::Reset
        | MenuMessageKind::Previous => true,
        MenuMessageKind::Slide => false,
    }
}

/// Whether this frame's menu inputs play one click: when at least one of
/// them plays a click.
pub fn should_play_menu_click(messages: &Vec<MenuMessageKind>) -> (play: bool)
    ensures
        play == exists|i: int| 0 <= i < messages.len() && is_click_bait(#[trigger] messages@[i]),
{
    let mut i: usize = 0;
    while i < messages.len()
        invariant
            i <= messages.len(),
            forall|k: int| 0 <= k < i ==> !is_click_bait(#[trigger] messages@[k]),
        decreases messages.len() - i,
    {
        if is_menu_action_click_bait(messages[i]) {
            assert(is_click_bait(messages@[i as int]));
            return true;
        }
        i = i + 1;
    }
    false
}

/// The sub-menus one can enter.
#[derive(Clone, Copy, PartialEq, Eq, Structural, Debug)]
pub enum MenuScreen {
    GameMenu,
    OptionsMenu,
    AudioMenu,
    VideoMenu,
    ControlsMenu,
}

/// Plain menu items.
#[derive(Clone, Copy, PartialEq, Eq, Structural, Debug)]
pub enum SimpleMenuActions {
    PlayGame,
    GameMenu,
    OptionsMenu,
    AudioMenu,
    VideoMenu,
    ControlsMenu,
    Quit,
    Back,
    ResumeGame,
    StopGame,
}

/// What a menu item asks for.
#[derive(Clone, Copy, PartialEq, Eq, Structural, Debug)]
pub enum MenuOutcome {
    /// Nothing happens.
    Nothing,
    /// Leave the current menu.
    GoBack,
    /// Start (or restart) the game.
    StartGame,
    /// Enter a sub-menu.
    GoInto(MenuScreen),
    /// Quit the program.
    Exit,
    /// Leave the menu pause and hide the menu.
    Resume,
    /// Clear both pauses and go back to the launch menu.
    Stop,
}

/// What activating a plain menu item asks for.
pub open spec fn simple_action_outcome(action: SimpleMenuActions) -> MenuOutcome {
    match action {
        SimpleMenuActions::Back => MenuOutcome::GoBack,
        SimpleMenuActions::PlayGame => MenuOutcome::StartGame,
        SimpleMenuActions::GameMenu => MenuOutcome::GoInto(MenuScreen::GameMenu),
        SimpleMenuActions::OptionsMenu => MenuOutcome::GoInto(MenuScreen::OptionsMenu),
        SimpleMenuActions::AudioMenu => MenuOutcome::GoInto(MenuScreen::AudioMenu),
        SimpleMenuActions::VideoMenu => MenuOutcome::GoInto(MenuScreen::VideoMenu),
        SimpleMenuActions::ControlsMenu => MenuOutcome::GoInto(MenuScreen::ControlsMenu),
        SimpleMenuActions::Quit => MenuOutcome::Exit,
        SimpleMenuActions::ResumeGame => MenuOutcome::Resume,
        SimpleMenuActions::StopGame => MenuOutcome::Stop,
    }
}

/// What a menu input on a plain item asks for: activating the item, or
/// stepping it forward, carries it out; every other input does nothing.
pub open spec fn simple_handle_outcome(action: SimpleMenuActions, kind: MenuMessageKind) -> MenuOutcome {
    if kind == MenuMessageKind::Activate || kind == MenuMessageKind::Next {
        simple_action_outcome(action)
    } else {
        MenuOutcome::Nothing
    }
}

/// What a menu input on a choice item asks for: activating the start-level
/// choice starts the game; nothing else does anything.
pub open spec fn enum_handle_outcome(choice: EnumMenuActions, kind: MenuMessageKind) -> MenuOutcome {
    if kind == MenuMessageKind::Activate && choice == EnumMenuActions::SelectStartLevelEnum {
        MenuOutcome::StartGame
    } else {
        MenuOutcome::Nothing
    }
}

impl SimpleMenuActions {
    /// React to a menu input on this item: activating it, or stepping it
    /// forward, carries out the item; every other input does nothing.
    pub fn handle(&self, kind: MenuMessageKind) -> (outcome: MenuOutcome)
        ensures
            outcome == simple_handle_outcome(*self, kind),
    {
        match kind {
            MenuMessageKind::Activate | MenuMessageKind::Next => match self {
                SimpleMenuActions::Back => MenuOutcome::GoBack,
                SimpleMenuActions::PlayGame => MenuOutcome::StartGame,
                SimpleMenuActions::GameMenu => MenuOutcome::GoInto(MenuScreen::GameMenu),
                SimpleMenuActions::OptionsMenu => MenuOutcome::GoInto(MenuScreen::OptionsMenu),
                SimpleMenuActions::AudioMenu => MenuOutcome::GoInto(MenuScreen::AudioMenu),
                SimpleMenuActions::VideoMenu => MenuOutcome::GoInto(MenuScreen::VideoMenu),
                SimpleMenuActions::ControlsMenu => MenuOutcome::GoInto(MenuScreen::ControlsMenu),
                SimpleMenuActions::Quit => MenuOutcome::Exit,
                SimpleMenuActions::ResumeGame => MenuOutcome::Resume,
                SimpleMenuActions::StopGame => MenuOutcome::Stop,
            },
            MenuMessageKind::Navigate => MenuOutcome::Nothing,
            MenuMessageKind::Reset => MenuOutcome::Nothing,
            MenuMessageKind::Previous => MenuOutcome::Nothing,
            MenuMessageKind::Slide => MenuOutcome::Nothing,
        }
    }
}

/// Items that choose one of several values.
#[derive(Clone, Copy, PartialEq, Eq, Structural, Debug)]
pub enum EnumMenuActions {
    DifficultyEnum,
    SelectStartLevelEnum,
    AntialiasingEnum,
    ShadowQualityEnum,
    TextureQualityEnum,
}

impl EnumMenuActions {
    /// React to a menu input on this item: activating the start-level choice
    /// starts the game; nothing else does anything.
    pub fn handle(&self, kind: MenuMessageKind) -> (outcome: MenuOutcome)
        ensures
            outcome == enum_handle_outcome(*self, kind),
    {
        match (kind, self) {
            (MenuMessageKind::Activate, EnumMenuActions::SelectStartLevelEnum) => MenuOutcome::StartGame,
            _ => MenuOutcome::Nothing,
        }
    }
}

/// A menu item acts only on activation or on stepping forward: moving
/// around, stepping back, resetting and sliding never trigger anything,
/// while activating a plain item always does.
pub proof fn law_only_activation_acts(action: SimpleMenuActions, choice: EnumMenuActions, kind: MenuMessageKind)
    ensures
        !(kind == MenuMessageKind::Activate || kind == MenuMessageKind::Next)
            ==> simple_handle_outcome(action, kind) == MenuOutcome::Nothing,
        kind != MenuMessageKind::Activate ==> enum_handle_outcome(choice, kind) == MenuOutcome::Nothing,
        simple_handle_outcome(action, MenuMessageKind::Activate) != MenuOutcome::Nothing,
        simple_handle_outcome(action, MenuMessageKind::Activate) == simple_handle_outcome(
            action,
            MenuMessageKind::Next,
        ),
{
}

/// Of the choice items only the start-level choice ever acts, and it starts
/// the game exactly when activated.
pub proof fn law_only_the_level_choice_starts_the_game(choice: EnumMenuActions, kind: MenuMessageKind)
    ensures
        choice != EnumMenuActions::SelectStartLevelEnum ==> enum_handle_outcome(choice, kind)
            == MenuOutcome::Nothing,
        enum_handle_outcome(EnumMenuActions::SelectStartLevelEnum, kind) == (if kind
            == MenuMessageKind::Activate {
            MenuOutcome::StartGame
        } else {
            MenuOutcome::Nothing
        }),
{
}

/// Distinct plain items ask for distinct things: only "Play" starts the
/// game, only "Quit" exits, only "Back" goes back, only "Resume" resumes,
/// only "Stop" stops, and each sub-menu item enters its own sub-menu.
pub proof fn law_plain_items_do_distinct_things(a: SimpleMenuActions, b: SimpleMenuActions)
    ensures
        simple_action_outcome(a) == simple_action_outcome(b) ==> a == b,
        simple_action_outcome(a) == MenuOutcome::StartGame <==> a == SimpleMenuActions::PlayGame,
        simple_action_outcome(a) == MenuOutcome::Exit <==> a == SimpleMenuActions::Quit,
        simple_action_outcome(a) == MenuOutcome::GoBack <==> a == SimpleMenuActions::Back,
        simple_action_outcome(a) == MenuOutcome::Resume <==> a == SimpleMenuActions::ResumeGame,
        simple_action_outcome(a) == MenuOutcome::Stop <==> a == SimpleMenuActions::StopGame,
        simple_action_outcome(SimpleMenuActions::GameMenu) == MenuOutcome::GoInto(MenuScreen::GameMenu),
        simple_action_outcome(SimpleMenuActions::OptionsMenu) == MenuOutcome::GoInto(MenuScreen::OptionsMenu),
        simple_action_outcome(SimpleMenuActions::AudioMenu) == MenuOutcome::GoInto(MenuScreen::AudioMenu),
        simple_action_outcome(SimpleMenuActions::VideoMenu) == MenuOutcome::GoInto(MenuScreen::VideoMenu),
        simple_action_outcome(SimpleMenuActions::ControlsMenu) == MenuOutcome::GoInto(MenuScreen::ControlsMenu),
{
}

/// A menu input plays a click exactly when it moves the selection or steps a
/// value; activating an item and sliding a slider are silent.
pub proof fn law_clicks_follow_navigation(kind: MenuMessageKind)
    ensures
        is_click_bait(kind) <==> (kind != MenuMessageKind::Activate && kind != MenuMessageKind::Slide),
{
}

/// The label of the main menu's first item: "Play", or "Reset (<level>)"
/// while a level is current.
pub fn play_item_label(current_level: Option<&str>) -> (label: String)
    ensures
        label@ == (match current_level {
            Some(name) => "Reset ("@ + name@ + ")"@,
            None => "Play"@,
        }),
{
    match current_level {
        Some(name) => {
            let mut label = String::from_str("Reset (");
            label.append(name);
            label.append(")");
            label
        },
        None => String::from_str("Play"),
    }
}

/// The label of the escape menu's resume item: "Resume (<level>)".
pub fn resume_item_label(level: &str) -> (label: String)
    ensures
        label@ == "Resume ("@ + level@ + ")"@,
{
    let mut label = String::from_str("Resume (");
    label.append(level);
    label.append(")");
    label
}

} // verus!
