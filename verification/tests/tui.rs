use modder::cli::Source;
use modder::listing::ModEntry;
use modder::tui::{
    list_move, AddAction, AddComponent, AddFields, AddList, AddState, Home, HomeAction, Key, Mode, Move,
    SearchResult, ToggleAction, ToggleComponent, ToggleState,
};

const READY: AddFields = AddFields { has_version: true, has_search: true, has_loader: true, has_picked: true };
const EMPTY: AddFields = AddFields { has_version: false, has_search: false, has_loader: false, has_picked: false };

#[test]
fn keys_that_move_a_list() {
    assert_eq!(list_move(Key::Char('h')), Some(Move::Clear));
    assert_eq!(list_move(Key::Left), Some(Move::Clear));
    assert_eq!(list_move(Key::Char('j')), Some(Move::Next));
    assert_eq!(list_move(Key::Down), Some(Move::Next));
    assert_eq!(list_move(Key::Char('k')), Some(Move::Previous));
    assert_eq!(list_move(Key::Up), Some(Move::Previous));
    assert_eq!(list_move(Key::Char('g')), Some(Move::First));
    assert_eq!(list_move(Key::Home), Some(Move::First));
    assert_eq!(list_move(Key::Char('G')), Some(Move::Last));
    assert_eq!(list_move(Key::End), Some(Move::Last));
    assert_eq!(list_move(Key::Char('x')), None);
    assert_eq!(list_move(Key::Enter), None);
}

#[test]
fn first_screen() {
    assert_eq!(Home::new(), vec![Mode::Add, Mode::QuickAdd, Mode::Toggle, Mode::List]);
    assert_eq!(Home::handle_key_event(false, Key::Char('q'), None), HomeAction::Nothing);
    assert_eq!(Home::handle_key_event(true, Key::Char('q'), None), HomeAction::Quit);
    assert_eq!(Home::handle_key_event(true, Key::Down, None), HomeAction::Select(Move::Next));
    assert_eq!(Home::handle_key_event(true, Key::Enter, None), HomeAction::Open(Mode::Add));
    assert_eq!(Home::handle_key_event(true, Key::Enter, Some(2)), HomeAction::Open(Mode::Toggle));
    assert_eq!(Home::handle_key_event(true, Key::Enter, Some(4)), HomeAction::Nothing);
    assert_eq!(Home::handle_key_event(true, Key::Tab, None), HomeAction::Nothing);
    assert_eq!(Mode::QuickAdd.to_string(), "QuickAdd");
}

#[test]
fn screen_that_enables_and_disables() {
    let (normal, search, toggling) = (ToggleState::Normal, ToggleState::Search, ToggleState::Toggling);
    assert_eq!(ToggleComponent::toggle_state(normal), search);
    assert_eq!(ToggleComponent::toggle_state(search), normal);
    assert_eq!(ToggleComponent::toggle_state(toggling), normal);
    assert_eq!(ToggleComponent::handle_key_event(false, normal, Key::Enter), ToggleAction::Nothing);
    assert_eq!(ToggleComponent::handle_key_event(true, search, Key::Tab), ToggleAction::Enter(normal));
    assert_eq!(ToggleComponent::handle_key_event(true, search, Key::Esc), ToggleAction::Enter(normal));
    assert_eq!(ToggleComponent::handle_key_event(true, search, Key::Enter), ToggleAction::Nothing);
    assert_eq!(ToggleComponent::handle_key_event(true, search, Key::Char('q')), ToggleAction::Type);
    assert_eq!(ToggleComponent::handle_key_event(true, normal, Key::Char('k')), ToggleAction::Select(Move::Previous));
    assert_eq!(ToggleComponent::handle_key_event(true, normal, Key::Char(' ')), ToggleAction::Flip);
    assert_eq!(ToggleComponent::handle_key_event(true, normal, Key::Enter), ToggleAction::Apply);
    assert_eq!(ToggleComponent::handle_key_event(true, normal, Key::Char('q')), ToggleAction::Quit);
    assert_eq!(ToggleComponent::handle_key_event(true, normal, Key::Esc), ToggleAction::Leave);
    assert_eq!(ToggleComponent::handle_key_event(true, normal, Key::Char('/')), ToggleAction::Enter(search));
    assert_eq!(ToggleComponent::handle_key_event(true, toggling, Key::Char('/')), ToggleAction::Enter(normal));
    assert_eq!(ToggleComponent::handle_key_event(true, normal, Key::Other), ToggleAction::Nothing);
}

fn entry(name: &str) -> ModEntry {
    ModEntry {
        name: name.to_string(),
        source: Source::Modrinth,
        project_id: String::new(),
        version: String::new(),
        game_version: None,
        category: None,
        version_type: String::new(),
        enabled: true,
        path: format!("mods/{name}.jar"),
    }
}

#[test]
fn filter_and_flip() {
    let entries = vec![entry("Sodium"), entry("Fabric API"), entry("Sodium Extra"), entry("İris")];
    assert_eq!(ToggleComponent::filter(&entries, "sodium"), vec![0, 2]);
    assert_eq!(ToggleComponent::filter(&entries, "API"), vec![1]);
    assert_eq!(ToggleComponent::filter(&entries, ""), vec![0, 1, 2, 3]);
    assert_eq!(ToggleComponent::filter(&entries, "i\u{307}RIS"), vec![3]);
    assert_eq!(ToggleComponent::filter(&entries, "lithium"), Vec::<usize>::new());
    let mut shown = vec![true, false];
    assert!(ToggleComponent::flip(&mut shown, 1));
    assert_eq!(shown, vec![true, true]);
    assert!(!ToggleComponent::flip(&mut shown, 2));
    assert_eq!(shown, vec![true, true]);
}

#[test]
fn screen_that_adds() {
    let act = |state, fields, key| AddComponent::handle_key_event(true, state, fields, key);
    assert_eq!(AddComponent::handle_key_event(false, AddState::Normal, READY, Key::Char('q')), AddAction::Nothing);
    assert_eq!(AddComponent::toggle_state(AddState::Normal), AddState::Search);
    assert_eq!(AddComponent::toggle_state(AddState::Search), AddState::Normal);
    assert_eq!(AddComponent::toggle_state(AddState::Downloading), AddState::Normal);
    assert_eq!(AddComponent::search(AddState::Search, true), AddState::SearchResultList);
    assert_eq!(AddComponent::search(AddState::Search, false), AddState::Search);

    assert_eq!(act(AddState::Search, EMPTY, Key::Tab), AddAction::Enter(AddState::Normal));
    assert_eq!(act(AddState::Search, EMPTY, Key::Enter), AddAction::Search);
    assert_eq!(act(AddState::Search, EMPTY, Key::Char('q')), AddAction::TypeSearch);

    assert_eq!(act(AddState::ToggleSource, EMPTY, Key::Down), AddAction::Select(AddList::Sources, Move::Next));
    assert_eq!(act(AddState::ToggleSource, EMPTY, Key::Enter), AddAction::Nothing);
    assert_eq!(act(AddState::ToggleSource, READY, Key::Enter), AddAction::Search);
    assert_eq!(act(AddState::ToggleSource, READY, Key::Esc), AddAction::Enter(AddState::Normal));
    assert_eq!(act(AddState::ToggleSource, READY, Key::Char('q')), AddAction::Quit);

    let no_loader = AddFields { has_loader: false, ..READY };
    assert_eq!(act(AddState::ChangeLoader, no_loader, Key::Enter), AddAction::Search);
    assert_eq!(act(AddState::ChangeLoader, EMPTY, Key::Enter), AddAction::Enter(AddState::Search));
    assert_eq!(act(AddState::ChangeLoader, EMPTY, Key::Char('G')), AddAction::Select(AddList::Loaders, Move::Last));
    assert_eq!(act(AddState::ChangeLoader, EMPTY, Key::Tab), AddAction::Enter(AddState::Normal));

    assert_eq!(act(AddState::VersionInput, no_loader, Key::Enter), AddAction::Enter(AddState::Search));
    assert_eq!(act(AddState::VersionInput, READY, Key::Enter), AddAction::Search);
    assert_eq!(act(AddState::VersionInput, READY, Key::Char('j')), AddAction::TypeVersion);
    assert_eq!(act(AddState::VersionInput, READY, Key::Esc), AddAction::Enter(AddState::Normal));

    assert_eq!(act(AddState::SearchResultList, READY, Key::Char(' ')), AddAction::Pick);
    assert_eq!(act(AddState::SearchResultList, READY, Key::Enter), AddAction::Download);
    assert_eq!(act(AddState::SearchResultList, EMPTY, Key::Enter), AddAction::Nothing);
    assert_eq!(act(AddState::SearchResultList, EMPTY, Key::Up), AddAction::Select(AddList::Results, Move::Previous));

    assert_eq!(act(AddState::SelectedList, EMPTY, Key::Char('h')), AddAction::Nothing);
    assert_eq!(act(AddState::SelectedList, EMPTY, Key::Char('j')), AddAction::Select(AddList::Selected, Move::Next));
    assert_eq!(act(AddState::SelectedList, EMPTY, Key::Char('J')), AddAction::Enter(AddState::VersionInput));

    assert_eq!(act(AddState::Normal, EMPTY, Key::Char('S')), AddAction::Enter(AddState::ToggleSource));
    assert_eq!(act(AddState::Normal, EMPTY, Key::Char('R')), AddAction::Enter(AddState::SearchResultList));
    assert_eq!(act(AddState::Normal, EMPTY, Key::Char('l')), AddAction::Enter(AddState::SearchResultList));
    assert_eq!(act(AddState::Normal, EMPTY, Key::Char('V')), AddAction::Enter(AddState::VersionInput));
    assert_eq!(act(AddState::Normal, EMPTY, Key::Char('/')), AddAction::Enter(AddState::Search));
    assert_eq!(act(AddState::Normal, EMPTY, Key::Char('J')), AddAction::Enter(AddState::SelectedList));
    assert_eq!(act(AddState::Normal, EMPTY, Key::Char('s')), AddAction::Enter(AddState::SelectedList));
    assert_eq!(act(AddState::Normal, EMPTY, Key::Char('L')), AddAction::Enter(AddState::ChangeLoader));
    assert_eq!(act(AddState::Normal, EMPTY, Key::Esc), AddAction::Leave);
    assert_eq!(act(AddState::Normal, EMPTY, Key::Home), AddAction::Select(AddList::Installed, Move::First));
    assert_eq!(act(AddState::Downloading, EMPTY, Key::Char('/')), AddAction::Enter(AddState::Normal));
    assert_eq!(act(AddState::Downloading, EMPTY, Key::Char('q')), AddAction::Quit);
}

fn result(name: &str, selected: bool) -> SearchResult {
    SearchResult {
        name: name.to_string(),
        source: Source::Modrinth,
        id: name.to_lowercase(),
        game_version: "1.21.4".to_string(),
        selected,
    }
}

#[test]
fn picking_results() {
    let mut results = vec![result("Sodium", false), result("Lithium", false)];
    let mut picked: Vec<SearchResult> = Vec::new();
    assert!(AddComponent::pick(&mut results, &mut picked, 1));
    assert!(results[1].selected);
    assert!(!results[0].selected);
    assert_eq!(picked.len(), 1);
    assert_eq!(picked[0].name, "Lithium");
    assert!(AddComponent::pick(&mut results, &mut picked, 0));
    assert_eq!(picked.len(), 2);
    assert!(AddComponent::pick(&mut results, &mut picked, 1));
    assert!(!results[1].selected);
    assert_eq!(picked.len(), 1);
    assert_eq!(picked[0].name, "Sodium");
    assert!(!AddComponent::pick(&mut results, &mut picked, 2));
    assert_eq!(picked.len(), 1);

    // A new search shows what was picked before as picked.
    let mut again = vec![result("Lithium", true), result("Sodium", false), result("Iris", true)];
    AddComponent::mark(&mut again, &picked);
    let marks: Vec<bool> = again.iter().map(|r| r.get_is_selected()).collect();
    assert_eq!(marks, vec![false, true, false]);
    assert_eq!(AddComponent::position(&picked, &again[1]), Some(0));
    assert_eq!(AddComponent::position(&picked, &again[0]), None);
    let mut one = result("Iris", false);
    one.toggle_selected();
    assert!(one.selected);
    assert!(one.same(&result("Iris", false)));
}
