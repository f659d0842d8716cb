//! The screens of the terminal interface, as far as they decide: what a
//! key means in each state of a screen, which mods a search shows, and which
//! of them are picked. Drawing and reading keys is left to the caller.

use crate::cli::Source;
use crate::gh_releases::Release;
use crate::listing::ModEntry;
use crate::text::{lowercase, occurs, str_contains, str_eq, to_lowercase};
use vstd::prelude::*;

verus! {

/// A key, as far as the screens tell keys apart.
#[derive(Debug, Clone, Copy, PartialEq, Eq, Structural)]
pub enum Key {
    Char(char),
    Left,
    Down,
    Up,
    Home,
    End,
    Enter,
    Esc,
    Tab,
    Other,
}

/// How the mark of a list moves.
#[derive(Debug, Clone, Copy, PartialEq, Eq, Structural)]
pub enum Move {
    Clear,
    Next,
    Previous,
    First,
    Last,
}

/// The screens.
#[derive(Debug, Clone, Copy, PartialEq, Eq, Structural)]
pub enum Mode {
    Home,
    Add,
    QuickAdd,
    Toggle,
    List,
}

/// The move that a key asks of a list: `h` or left clears the mark, `j` or
/// down goes on, `k` or up goes back, `g` or home goes to the first item,
/// `G` or end to the last.
pub open spec fn move_of(key: Key) -> Option<Move> {
    match key {
        Key::Char('h') | Key::Left => Some(Move::Clear),
        Key::Char('j') | Key::Down => Some(Move::Next),
        Key::Char('k') | Key::Up => Some(Move::Previous),
        Key::Char('g') | Key::Home => Some(Move::First),
        Key::Char('G') | Key::End => Some(Move::Last),
        _ => None,
    }
}

/// The move that `key` asks of a list.
pub fn list_move(key: Key) -> (r: Option<Move>)
    ensures
        r == move_of(key),
{
    match key {
        Key::Char('h') | Key::Left => Some(Move::Clear),
        Key::Char('j') | Key::Down => Some(Move::Next),
        Key::Char('k') | Key::Up => Some(Move::Previous),
        Key::Char('g') | Key::Home => Some(Move::First),
        Key::Char('G') | Key::End => Some(Move::Last),
        _ => None,
    }
}

/// The entries of the menu of the first screen, in order.
pub open spec fn menu() -> Seq<Mode> {
    seq![Mode::Add, Mode::QuickAdd, Mode::Toggle, Mode::List]
}

/// The name of a screen.
pub open spec fn mode_name(mode: Mode) -> Seq<char> {
    match mode {
        Mode::Home => "Home"@,
        Mode::Add => "Add"@,
        Mode::QuickAdd => "QuickAdd"@,
        Mode::Toggle => "Toggle"@,
        Mode::List => "List"@,
    }
}

impl Mode {
    pub fn to_string(&self) -> (r: String)
        ensures
            r@ == mode_name(*self),
    {
        match self {
            Mode::Home => String::from_str("Home"),
            Mode::Add => String::from_str("Add"),
            Mode::QuickAdd => String::from_str("QuickAdd"),
            Mode::Toggle => String::from_str("Toggle"),
            Mode::List => String::from_str("List"),
        }
    }
}

/// What the first screen does on a key.
#[derive(Debug, Clone, Copy, PartialEq, Eq, Structural)]
pub enum HomeAction {
    Nothing,
    Select(Move),
    Open(Mode),
    Quit,
}

/// What the first screen does on a key: a screen that is not shown does
/// nothing; enter opens the entry that is marked, the first where none is.
pub open spec fn home_action(enabled: bool, key: Key, marked: Option<usize>) -> HomeAction {
    if !enabled {
        HomeAction::Nothing
    } else if let Some(m) = move_of(key) {
        HomeAction::Select(m)
    } else if key == Key::Enter {
        let at = match marked {
            Some(i) => i as int,
            None => 0,
        };
        if at < menu().len() {
            HomeAction::Open(menu()[at])
        } else {
            HomeAction::Nothing
        }
    } else if key == Key::Char('q') {
        HomeAction::Quit
    } else {
        HomeAction::Nothing
    }
}

/// The first screen.
pub struct Home;

impl Home {
    /// The entries of the menu.
    pub fn new() -> (r: Vec<Mode>)
        ensures
            r@ == menu(),
    {
        let mut r: Vec<Mode> = Vec::new();
        r.push(Mode::Add);
        r.push(Mode::QuickAdd);
        r.push(Mode::Toggle);
        r.push(Mode::List);
        assert(r@ =~= menu());
        r
    }

    /// What the screen does on `key`.
    pub fn handle_key_event(enabled: bool, key: Key, marked: Option<usize>) -> (r: HomeAction)
        ensures
            r == home_action(enabled, key, marked),
    {
        if !enabled {
            return HomeAction::Nothing;
        }
        match list_move(key) {
            Some(m) => {
                return HomeAction::Select(m);
            },
            None => {},
        }
        match key {
            Key::Enter => {
                let items = Home::new();
                let at: usize = match marked {
                    Some(i) => i,
                    None => 0,
                };
                if at < items.len() {
                    HomeAction::Open(items[at])
                } else {
                    HomeAction::Nothing
                }
            },
            Key::Char('q') => HomeAction::Quit,
            _ => HomeAction::Nothing,
        }
    }
}

/// The states of the screen that enables and disables mods.
#[derive(Debug, Clone, Copy, PartialEq, Eq, Structural)]
pub enum ToggleState {
    Normal,
    Search,
    Toggling,
}

/// What the screen that enables and disables mods does on a key.
#[derive(Debug, Clone, Copy, PartialEq, Eq, Structural)]
pub enum ToggleAction {
    Nothing,
    /// The state changes.
    Enter(ToggleState),
    /// The key goes to the search field, and the list is filtered anew.
    Type,
    Select(Move),
    /// The marked mod is flipped.
    Flip,
    /// The mods are renamed to the states they are shown in.
    Apply,
    Quit,
    /// The screen is left for the first one.
    Leave,
}

/// The state after the key that switches between the list and the search field.
pub open spec fn toggle_switched(state: ToggleState) -> ToggleState {
    match state {
        ToggleState::Normal => ToggleState::Search,
        ToggleState::Search => ToggleState::Normal,
        ToggleState::Toggling => ToggleState::Normal,
    }
}

/// What the screen does on a key.
pub open spec fn toggle_action(enabled: bool, state: ToggleState, key: Key) -> ToggleAction {
    if !enabled {
        ToggleAction::Nothing
    } else if state == ToggleState::Search {
        match key {
            Key::Tab | Key::Esc => ToggleAction::Enter(toggle_switched(state)),
            Key::Enter => ToggleAction::Nothing,
            _ => ToggleAction::Type,
        }
    } else if let Some(m) = move_of(key) {
        ToggleAction::Select(m)
    } else {
        match key {
            Key::Char(' ') => ToggleAction::Flip,
            Key::Enter => ToggleAction::Apply,
            Key::Char('q') => ToggleAction::Quit,
            Key::Esc => ToggleAction::Leave,
            Key::Char('/') => ToggleAction::Enter(toggle_switched(state)),
            _ => ToggleAction::Nothing,
        }
    }
}

/// Whether the name of an entry holds the text searched for.
pub open spec fn entry_matches(entry: ModEntry, query: Seq<char>) -> bool {
    occurs(lowercase(entry.name@), lowercase(query))
}

/// Where the entries that match stand among the first `n`, in order.
pub open spec fn matching(entries: Seq<ModEntry>, query: Seq<char>, n: nat) -> Seq<int>
    decreases n,
{
    if n == 0 {
        Seq::empty()
    } else {
        let before = matching(entries, query, (n - 1) as nat);
        if entry_matches(entries[n - 1], query) {
            before.push(n - 1)
        } else {
            before
        }
    }
}

/// The screen that enables and disables mods.
pub struct ToggleComponent;

impl ToggleComponent {
    /// The state after the key that switches between the list and the search field.
    pub fn toggle_state(state: ToggleState) -> (r: ToggleState)
        ensures
            r == toggle_switched(state),
    {
        match state {
            ToggleState::Normal => ToggleState::Search,
            ToggleState::Search => ToggleState::Normal,
            ToggleState::Toggling => ToggleState::Normal,
        }
    }

    /// What the screen does on `key`.
    pub fn handle_key_event(enabled: bool, state: ToggleState, key: Key) -> (r: ToggleAction)
        ensures
            r == toggle_action(enabled, state, key),
    {
        if !enabled {
            return ToggleAction::Nothing;
        }
        if state == ToggleState::Search {
            return match key {
                Key::Tab | Key::Esc => ToggleAction::Enter(ToggleComponent::toggle_state(state)),
                Key::Enter => ToggleAction::Nothing,
                _ => ToggleAction::Type,
            };
        }
        match list_move(key) {
            Some(m) => {
                return ToggleAction::Select(m);
            },
            None => {},
        }
        match key {
            Key::Char(' ') => ToggleAction::Flip,
            Key::Enter => ToggleAction::Apply,
            Key::Char('q') => ToggleAction::Quit,
            Key::Esc => ToggleAction::Leave,
            Key::Char('/') => ToggleAction::Enter(ToggleComponent::toggle_state(state)),
            _ => ToggleAction::Nothing,
        }
    }

    /// The entries whose names hold `query`, without regard to case: where
    /// each stands among `entries`, in order.
    pub fn filter(entries: &Vec<ModEntry>, query: &str) -> (found: Vec<usize>)
        ensures
            found@.len() == matching(entries@, query@, entries@.len()).len(),
            forall|k: int|
                0 <= k < found@.len() ==> found@[k] as int == matching(
                    entries@,
                    query@,
                    entries@.len(),
                )[k],
    {
        let needle = to_lowercase(query);
        let mut found: Vec<usize> = Vec::new();
        let mut i: usize = 0;
        while i < entries.len()
            invariant
                i <= entries.len(),
                needle@ == lowercase(query@),
                found@.len() == matching(entries@, query@, i as nat).len(),
                forall|k: int|
                    0 <= k < found@.len() ==> found@[k] as int == matching(entries@, query@, i as nat)[k],
            decreases entries.len() - i,
        {
            let name = to_lowercase(entries[i].name.as_str());
            if str_contains(name.as_str(), needle.as_str()) {
                found.push(i);
            }
            i = i + 1;
        }
        found
    }

    /// The states that the mods are shown in after the mod at `at` was flipped.
    pub fn flip(shown: &mut Vec<bool>, at: usize) -> (flipped: bool)
        ensures
            flipped == (at < old(shown)@.len()),
            final(shown)@ == if at < old(shown)@.len() {
                old(shown)@.update(at as int, !old(shown)@[at as int])
            } else {
                old(shown)@
            },
    {
        if at < shown.len() {
            let now = !shown[at];
            shown.set(at, now);
            true
        } else {
            false
        }
    }
}

/// The states of the screen that adds mods.
#[derive(Debug, Clone, Copy, PartialEq, Eq, Structural)]
pub enum AddState {
    Normal,
    Search,
    ToggleSource,
    SearchResultList,
    Downloading,
    VersionInput,
    SelectedList,
    ChangeLoader,
}

/// The lists of the screen that adds mods.
#[derive(Debug, Clone, Copy, PartialEq, Eq, Structural)]
pub enum AddList {
    Installed,
    Sources,
    Loaders,
    Results,
    Selected,
}

/// What the screen that adds mods does on a key.
#[derive(Debug, Clone, Copy, PartialEq, Eq, Structural)]
pub enum AddAction {
    Nothing,
    /// The state changes.
    Enter(AddState),
    /// The key goes to the search field.
    TypeSearch,
    /// The key goes to the field of the game version.
    TypeVersion,
    /// The mark of a list moves.
    Select(AddList, Move),
    /// The providers are searched.
    Search,
    /// The marked result is picked, or no longer picked.
    Pick,
    /// The mods that are picked are downloaded.
    Download,
    Quit,
    /// The screen is left for the first one.
    Leave,
}

/// What the fields of the screen hold, as far as a key depends on it.
#[derive(Debug, Clone, Copy, PartialEq, Eq, Structural)]
pub struct AddFields {
    /// Whether a game version is entered.
    pub has_version: bool,
    /// Whether a text to search for is entered.
    pub has_search: bool,
    /// Whether a loader is marked.
    pub has_loader: bool,
    /// Whether a mod is picked.
    pub has_picked: bool,
}

/// The state after the key that switches between the list and the search field.
pub open spec fn add_switched(state: AddState) -> AddState {
    match state {
        AddState::Normal => AddState::Search,
        _ => AddState::Normal,
    }
}

/// What the screen does on a key.
pub open spec fn add_action(enabled: bool, state: AddState, fields: AddFields, key: Key) -> AddAction {
    if !enabled {
        AddAction::Nothing
    } else {
        match state {
            AddState::Search => match key {
                Key::Tab | Key::Esc => AddAction::Enter(add_switched(state)),
                Key::Enter => AddAction::Search,
                _ => AddAction::TypeSearch,
            },
            AddState::ToggleSource => if let Some(m) = move_of(key) {
                AddAction::Select(AddList::Sources, m)
            } else {
                match key {
                    Key::Char('q') => AddAction::Quit,
                    Key::Enter => if fields.has_version && fields.has_search && fields.has_loader {
                        AddAction::Search
                    } else {
                        AddAction::Nothing
                    },
                    Key::Esc => AddAction::Enter(AddState::Normal),
                    _ => AddAction::Nothing,
                }
            },
            AddState::ChangeLoader => match key {
                Key::Tab | Key::Esc => AddAction::Enter(AddState::Normal),
                Key::Enter => if fields.has_version && fields.has_search {
                    AddAction::Search
                } else {
                    AddAction::Enter(AddState::Search)
                },
                _ => if let Some(m) = move_of(key) {
                    AddAction::Select(AddList::Loaders, m)
                } else if key == Key::Char('q') {
                    AddAction::Quit
                } else {
                    AddAction::Nothing
                },
            },
            AddState::VersionInput => match key {
                Key::Tab | Key::Esc => AddAction::Enter(AddState::Normal),
                Key::Enter => if fields.has_version && fields.has_search && fields.has_loader {
                    AddAction::Search
                } else {
                    AddAction::Enter(AddState::Search)
                },
                _ => AddAction::TypeVersion,
            },
            AddState::SearchResultList => if let Some(m) = move_of(key) {
                AddAction::Select(AddList::Results, m)
            } else {
                match key {
                    Key::Char('q') => AddAction::Quit,
                    Key::Char(' ') => AddAction::Pick,
                    Key::Esc => AddAction::Enter(AddState::Normal),
                    Key::Enter => if fields.has_picked {
                        AddAction::Download
                    } else {
                        AddAction::Nothing
                    },
                    _ => AddAction::Nothing,
                }
            },
            AddState::SelectedList => match key {
                Key::Char('h') | Key::Left => AddAction::Nothing,
                Key::Char('q') => AddAction::Quit,
                Key::Char('J') => AddAction::Enter(AddState::VersionInput),
                Key::Esc => AddAction::Enter(AddState::Normal),
                _ => if let Some(m) = move_of(key) {
                    AddAction::Select(AddList::Selected, m)
                } else {
                    AddAction::Nothing
                },
            },
            _ => if let Some(m) = move_of(key) {
                AddAction::Select(AddList::Installed, m)
            } else {
                match key {
                    Key::Char('S') => AddAction::Enter(AddState::ToggleSource),
                    Key::Char('R') => AddAction::Enter(AddState::SearchResultList),
                    Key::Char('V') => AddAction::Enter(AddState::VersionInput),
                    Key::Char('q') => AddAction::Quit,
                    Key::Char('/') => AddAction::Enter(add_switched(state)),
                    Key::Char('l') => AddAction::Enter(AddState::SearchResultList),
                    Key::Char('J') | Key::Char('s') => AddAction::Enter(AddState::SelectedList),
                    Key::Char('L') => AddAction::Enter(AddState::ChangeLoader),
                    Key::Esc => AddAction::Leave,
                    _ => AddAction::Nothing,
                }
            },
        }
    }
}

/// The state that a search leaves the screen in: without a game version
/// nothing is searched and the state stays.
pub open spec fn after_search(state: AddState, has_version: bool) -> AddState {
    if has_version {
        AddState::SearchResultList
    } else {
        state
    }
}

/// The screen that adds mods.
pub struct AddComponent;

impl AddComponent {
    /// The state after the key that switches between the list and the search field.
    pub fn toggle_state(state: AddState) -> (r: AddState)
        ensures
            r == add_switched(state),
    {
        match state {
            AddState::Normal => AddState::Search,
            _ => AddState::Normal,
        }
    }

    /// The state that a search leaves the screen in.
    pub fn search(state: AddState, has_version: bool) -> (r: AddState)
        ensures
            r == after_search(state, has_version),
    {
        if has_version {
            AddState::SearchResultList
        } else {
            state
        }
    }

    /// What the screen does on `key`.
    pub fn handle_key_event(enabled: bool, state: AddState, fields: AddFields, key: Key) -> (r:
        AddAction)
        ensures
            r == add_action(enabled, state, fields, key),
    {
        if !enabled {
            return AddAction::Nothing;
        }
        let moved = list_move(key);
        match state {
            AddState::Search => match key {
                Key::Tab | Key::Esc => AddAction::Enter(AddComponent::toggle_state(state)),
                Key::Enter => AddAction::Search,
                _ => AddAction::TypeSearch,
            },
            AddState::ToggleSource => match moved {
                Some(m) => AddAction::Select(AddList::Sources, m),
                None => match key {
                    Key::Char('q') => AddAction::Quit,
                    Key::Enter => if fields.has_version && fields.has_search && fields.has_loader {
                        AddAction::Search
                    } else {
                        AddAction::Nothing
                    },
                    Key::Esc => AddAction::Enter(AddState::Normal),
                    _ => AddAction::Nothing,
                },
            },
            AddState::ChangeLoader => match key {
                Key::Tab | Key::Esc => AddAction::Enter(AddState::Normal),
                Key::Enter => if fields.has_version && fields.has_search {
                    AddAction::Search
                } else {
                    AddAction::Enter(AddState::Search)
                },
                _ => match moved {
                    Some(m) => AddAction::Select(AddList::Loaders, m),
                    None => if key == Key::Char('q') {
                        AddAction::Quit
                    } else {
                        AddAction::Nothing
                    },
                },
            },
            AddState::VersionInput => match key {
                Key::Tab | Key::Esc => AddAction::Enter(AddState::Normal),
                Key::Enter => if fields.has_version && fields.has_search && fields.has_loader {
                    AddAction::Search
                } else {
                    AddAction::Enter(AddState::Search)
                },
                _ => AddAction::TypeVersion,
            },
            AddState::SearchResultList => match moved {
                Some(m) => AddAction::Select(AddList::Results, m),
                None => match key {
                    Key::Char('q') => AddAction::Quit,
                    Key::Char(' ') => AddAction::Pick,
                    Key::Esc => AddAction::Enter(AddState::Normal),
                    Key::Enter => if fields.has_picked {
                        AddAction::Download
                    } else {
                        AddAction::Nothing
                    },
                    _ => AddAction::Nothing,
                },
            },
            AddState::SelectedList => match key {
                Key::Char('h') | Key::Left => AddAction::Nothing,
                Key::Char('q') => AddAction::Quit,
                Key::Char('J') => AddAction::Enter(AddState::VersionInput),
                Key::Esc => AddAction::Enter(AddState::Normal),
                _ => match moved {
                    Some(m) => AddAction::Select(AddList::Selected, m),
                    None => AddAction::Nothing,
                },
            },
            _ => match moved {
                Some(m) => AddAction::Select(AddList::Installed, m),
                None => match key {
                    Key::Char('S') => AddAction::Enter(AddState::ToggleSource),
                    Key::Char('R') => AddAction::Enter(AddState::SearchResultList),
                    Key::Char('V') => AddAction::Enter(AddState::VersionInput),
                    Key::Char('q') => AddAction::Quit,
                    Key::Char('/') => AddAction::Enter(AddComponent::toggle_state(state)),
                    Key::Char('l') => AddAction::Enter(AddState::SearchResultList),
                    Key::Char('J') | Key::Char('s') => AddAction::Enter(AddState::SelectedList),
                    Key::Char('L') => AddAction::Enter(AddState::ChangeLoader),
                    Key::Esc => AddAction::Leave,
                    _ => AddAction::Nothing,
                },
            },
        }
    }
}

/// One mod that a search found.
#[derive(Debug, Clone)]
pub struct SearchResult {
    pub name: String,
    pub source: Source,
    /// The project, the repository or the number of the mod at its provider.
    pub id: String,
    pub game_version: String,
    /// Whether the mod is picked.
    pub selected: bool,
}

impl SearchResult {
    /// What makes two results one mod: whether it is picked does not count.
    pub open spec fn key(&self) -> (Source, Seq<char>, Seq<char>, Seq<char>) {
        (self.source, self.name@, self.id@, self.game_version@)
    }
}

/// The keys of the results, in order.
pub open spec fn result_keys(results: Seq<SearchResult>) -> Seq<
    (Source, Seq<char>, Seq<char>, Seq<char>),
> {
    results.map_values(|r: SearchResult| r.key())
}

/// Whether a release is for a game version: it has a name, and the name holds the version.
pub open spec fn release_matches(release: Release, version: Seq<char>) -> bool {
    match release.name {
        Some(name) => occurs(name@, version),
        None => false,
    }
}

impl SearchResult {
    /// Whether the two results are one mod.
    pub fn same(&self, other: &SearchResult) -> (r: bool)
        ensures
            r == (self.key() == other.key()),
    {
        self.source == other.source && str_eq(self.name.as_str(), other.name.as_str()) && str_eq(
            self.id.as_str(),
            other.id.as_str(),
        ) && str_eq(self.game_version.as_str(), other.game_version.as_str())
    }

    /// Whether the mod is picked.
    pub fn get_is_selected(&self) -> (r: bool)
        ensures
            r == self.selected,
    {
        self.selected
    }

    /// Picks the mod, or picks it no longer.
    pub fn toggle_selected(&mut self)
        ensures
            final(self).key() == old(self).key(),
            final(self).selected == !old(self).selected,
    {
        self.selected = !self.selected;
    }

    /// Whether a release is shown for a game version.
    pub fn shows_release(release: &Release, version: &str) -> (r: bool)
        ensures
            r == release_matches(*release, version@),
    {
        match &release.name {
            Some(name) => str_contains(name.as_str(), version),
            None => false,
        }
    }
}

impl AddComponent {
    /// Where `wanted` stands among `picked`.
    pub fn position(picked: &Vec<SearchResult>, wanted: &SearchResult) -> (r: Option<usize>)
        ensures
            match r {
                Some(i) => i < picked@.len() && picked@[i as int].key() == wanted.key(),
                None => !result_keys(picked@).contains(wanted.key()),
            },
    {
        let mut i: usize = 0;
        while i < picked.len()
            invariant
                i <= picked.len(),
                forall|j: int| 0 <= j < i ==> result_keys(picked@)[j] != wanted.key(),
            decreases picked.len() - i,
        {
            if picked[i].same(wanted) {
                return Some(i);
            }
            i = i + 1;
        }
        None
    }

    /// The results of a new search, each marked as picked exactly where it
    /// is among the mods picked before.
    pub fn mark(results: &mut Vec<SearchResult>, picked: &Vec<SearchResult>)
        ensures
            result_keys(final(results)@) == result_keys(old(results)@),
            forall|i: int|
                0 <= i < final(results)@.len() ==> (#[trigger] final(results)@[i]).selected
                    == result_keys(picked@).contains(old(results)@[i].key()),
    {
        let mut i: usize = 0;
        let ghost before = results@;
        while i < results.len()
            invariant
                i <= results.len(),
                results@.len() == before.len(),
                result_keys(results@) == result_keys(before),
                forall|j: int|
                    0 <= j < i ==> (#[trigger] results@[j]).selected == result_keys(picked@).contains(
                        before[j].key(),
                    ),
            decreases results.len() - i,
        {
            let is_picked = AddComponent::position(picked, &results[i]).is_some();
            let ghost prior = results@;
            assert(result_keys(prior)[i as int] == result_keys(before)[i as int]);
            let marked = SearchResult {
                name: results[i].name.clone(),
                source: results[i].source,
                id: results[i].id.clone(),
                game_version: results[i].game_version.clone(),
                selected: is_picked,
            };
            results.set(i, marked);
            proof {
                assert(result_keys(results@) =~= result_keys(prior));
                assert forall|j: int| 0 <= j < i + 1 implies (#[trigger] results@[j]).selected
                    == result_keys(picked@).contains(before[j].key()) by {
                    if j < i {
                        assert(results@[j] == prior[j]);
                    } else {
                        assert(picked@.len() > 0 && is_picked ==> result_keys(picked@).contains(
                            before[j].key(),
                        )) by {
                            if is_picked {
                                let at = choose|k: int|
                                    0 <= k < picked@.len() && picked@[k].key() == prior[i as int].key();
                                assert(result_keys(picked@)[at] == before[j].key());
                            }
                        }
                    }
                }
            }
            i = i + 1;
        }
    }

    /// Picks the result at `at`, or picks it no longer: the result is
    /// flipped, and it is among the picked mods afterwards exactly if it is
    /// picked. The other picked mods stay.
    pub fn pick(results: &mut Vec<SearchResult>, picked: &mut Vec<SearchResult>, at: usize) -> (done:
        bool)
        ensures
            done == (at < old(results)@.len()),
            !done ==> final(results)@ == old(results)@ && final(picked)@ == old(picked)@,
            done ==> {
                let key = old(results)@[at as int].key();
                &&& result_keys(final(results)@) == result_keys(old(results)@)
                &&& final(results)@[at as int].selected == !old(results)@[at as int].selected
                &&& forall|j: int|
                    0 <= j < final(results)@.len() && j != at ==> final(results)@[j] == old(
                        results,
                    )@[j]
                &&& result_keys(final(picked)@).contains(key) == final(results)@[at as int].selected
                &&& forall|k: (Source, Seq<char>, Seq<char>, Seq<char>)|
                    k != key ==> result_keys(final(picked)@).contains(k) == result_keys(
                        old(picked)@,
                    ).contains(k)
            },
    {
        if at >= results.len() {
            return false;
        }
        let ghost before = results@;
        let ghost held = picked@;
        let ghost key = results@[at as int].key();
        let now = !results[at].selected;
        let flipped = SearchResult {
            name: results[at].name.clone(),
            source: results[at].source,
            id: results[at].id.clone(),
            game_version: results[at].game_version.clone(),
            selected: now,
        };
        let copy = SearchResult {
            name: results[at].name.clone(),
            source: results[at].source,
            id: results[at].id.clone(),
            game_version: results[at].game_version.clone(),
            selected: now,
        };
        results.set(at, flipped);
        proof {
            assert(result_keys(results@) =~= result_keys(before));
        }
        let mut kept: Vec<SearchResult> = Vec::new();
        let mut i: usize = 0;
        while i < picked.len()
            invariant
                i <= picked.len(),
                picked@ == held,
                copy.key() == key,
                !result_keys(kept@).contains(key),
                forall|k: (Source, Seq<char>, Seq<char>, Seq<char>)|
                    k != key ==> result_keys(kept@).contains(k) == result_keys(
                        held.take(i as int),
                    ).contains(k),
            decreases picked.len() - i,
        {
            let ghost prior = kept@;
            let skip = picked[i].same(&copy);
            if !skip {
                let item = SearchResult {
                    name: picked[i].name.clone(),
                    source: picked[i].source,
                    id: picked[i].id.clone(),
                    game_version: picked[i].game_version.clone(),
                    selected: picked[i].selected,
                };
                kept.push(item);
            }
            proof {
                let item_key = held[i as int].key();
                let taken = result_keys(held.take(i as int));
                let more = result_keys(held.take(i + 1));
                assert(more =~= taken.push(item_key));
                if !skip {
                    assert(result_keys(kept@) =~= result_keys(prior).push(item_key));
                }
                assert forall|k: (Source, Seq<char>, Seq<char>, Seq<char>)| k != key implies result_keys(
                    kept@,
                ).contains(k) == more.contains(k) by {
                    lemma_contains_push(taken, item_key, k);
                    if !skip {
                        lemma_contains_push(result_keys(prior), item_key, k);
                    }
                }
                if !skip {
                    lemma_contains_push(result_keys(prior), item_key, key);
                }
            }
            i = i + 1;
        }
        proof {
            assert(held.take(held.len() as int) =~= held);
        }
        if now {
            let ghost prior = kept@;
            kept.push(copy);
            proof {
                assert(result_keys(kept@) =~= result_keys(prior).push(key));
                assert(result_keys(kept@)[prior.len() as int] == key);
                assert forall|k: (Source, Seq<char>, Seq<char>, Seq<char>)| k != key implies result_keys(
                    kept@,
                ).contains(k) == result_keys(held).contains(k) by {
                    lemma_contains_push(result_keys(prior), key, k);
                }
            }
        }
        *picked = kept;
        true
    }
}

/// What a sequence holds after one more item was put at its end.
pub proof fn lemma_contains_push<T>(s: Seq<T>, item: T, wanted: T)
    ensures
        s.push(item).contains(wanted) == (s.contains(wanted) || item == wanted),
{
    if s.contains(wanted) {
        let i = choose|i: int| 0 <= i < s.len() && s[i] == wanted;
        assert(s.push(item)[i] == wanted);
    }
    if item == wanted {
        assert(s.push(item)[s.len() as int] == wanted);
    }
    if s.push(item).contains(wanted) {
        let i = choose|i: int| 0 <= i < s.push(item).len() && s.push(item)[i] == wanted;
        if i < s.len() {
            assert(s[i] == wanted);
        }
    }
}

} // verus!
