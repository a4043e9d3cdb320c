//! The menu in which a player sets up a game.
//!
//! The menu has five entries, from the top: the player's name, the music
//! track, the difficulty, the game mode, and the start of the game.

use crate::music::MUSIC_TRACKS;
use crate::settings::{Difficulty, GameMode};
use crate::text::{alphanumeric, is_alphanumeric, pop_char, push_char, without_last};
use vstd::prelude::*;

verus! {

/// Number of entries of the menu.
pub const MENU_ENTRIES: usize = 5;

/// The entry with the player's name.
pub const ENTRY_NAME: usize = 0;

/// The entry with the music track.
pub const ENTRY_MUSIC: usize = 1;

/// The entry with the difficulty.
pub const ENTRY_DIFFICULTY: usize = 2;

/// The entry with the game mode.
pub const ENTRY_MODE: usize = 3;

/// The entry that starts the game.
pub const ENTRY_START: usize = 4;

/// True for the characters that a name is made of: letters, numbers and the
/// space.
pub open spec fn name_char(c: char) -> bool {
    c != '\u{8}' && (alphanumeric(c) || c == ' ')
}

/// The name with those of the first `n` typed characters added that a name
/// is made of.
pub open spec fn typed_upto(name: Seq<char>, typed: Seq<char>, n: nat) -> Seq<char>
    decreases n,
{
    if n == 0 {
        name
    } else if name_char(typed[n - 1]) {
        typed_upto(name, typed, (n - 1) as nat).push(typed[n - 1])
    } else {
        typed_upto(name, typed, (n - 1) as nat)
    }
}

/// The keys of one frame that the menu takes note of.
#[derive(Clone, Copy, Debug, PartialEq, Eq, Structural)]
pub struct MenuKeys {
    pub up: bool,
    pub down: bool,
    pub left: bool,
    pub right: bool,
    pub backspace: bool,
    pub enter: bool,
}

/// The menu.
#[derive(Debug)]
pub struct MainMenu {
    /// The entry that is picked: 0 the name, 1 the music, 2 the difficulty,
    /// 3 the mode, 4 the start.
    pub selected_index: usize,
    pub player_name: String,
    pub music_index: usize,
    pub difficulty: Difficulty,
    pub game_mode: GameMode,
}

/// The menu, as its rules see it.
#[verifier::ext_equal]
pub struct MenuView {
    pub selected_index: nat,
    pub player_name: Seq<char>,
    pub music_index: nat,
    pub difficulty: Difficulty,
    pub game_mode: GameMode,
}

impl MenuView {
    /// The menu as it opens: the name entry picked, the player called
    /// "Player", the first track, normal difficulty, the classic mode.
    pub open spec fn initial() -> MenuView {
        MenuView {
            selected_index: 0,
            player_name: "Player"@,
            music_index: 0,
            difficulty: Difficulty::Normal,
            game_mode: GameMode::Classic,
        }
    }

    /// An entry of the menu is picked, and the track is one of those that
    /// can be played.
    pub open spec fn wf(self) -> bool {
        self.selected_index < MENU_ENTRIES && self.music_index < MUSIC_TRACKS
    }

    /// Up picks the entry above, down the entry below; past either end the
    /// choice comes round. Up is looked at first.
    pub open spec fn navigated(self, keys: MenuKeys) -> MenuView {
        let after_up = if keys.up {
            if self.selected_index == 0 {
                (MENU_ENTRIES - 1) as nat
            } else {
                (self.selected_index - 1) as nat
            }
        } else {
            self.selected_index
        };
        let after_down = if keys.down {
            (after_up + 1) % (MENU_ENTRIES as nat)
        } else {
            after_up
        };
        MenuView { selected_index: after_down, ..self }
    }

    /// Left and right change the entry that is picked, if it is the music,
    /// the difficulty or the mode: left goes back, right goes on, and past
    /// either end the choice comes round. Left is looked at first.
    pub open spec fn adjusted(self, keys: MenuKeys) -> MenuView {
        if self.selected_index == ENTRY_MUSIC {
            let after_left = if keys.left {
                if self.music_index == 0 {
                    (MUSIC_TRACKS - 1) as nat
                } else {
                    (self.music_index - 1) as nat
                }
            } else {
                self.music_index
            };
            let after_right = if keys.right {
                (after_left + 1) % (MUSIC_TRACKS as nat)
            } else {
                after_left
            };
            MenuView { music_index: after_right, ..self }
        } else if self.selected_index == ENTRY_DIFFICULTY {
            let after_left = if keys.left {
                self.difficulty.prev()
            } else {
                self.difficulty
            };
            let after_right = if keys.right {
                after_left.next()
            } else {
                after_left
            };
            MenuView { difficulty: after_right, ..self }
        } else if self.selected_index == ENTRY_MODE {
            let after_left = if keys.left {
                self.game_mode.prev()
            } else {
                self.game_mode
            };
            let after_right = if keys.right {
                after_left.next()
            } else {
                after_left
            };
            MenuView { game_mode: after_right, ..self }
        } else {
            self
        }
    }

    /// While the name is picked, backspace takes its last character away,
    /// and then the typed characters are added, as far as a name is made of
    /// them.
    pub open spec fn edited(self, keys: MenuKeys, typed: Seq<char>) -> MenuView {
        if self.selected_index == ENTRY_NAME {
            let erased = if keys.backspace {
                without_last(self.player_name)
            } else {
                self.player_name
            };
            MenuView { player_name: typed_upto(erased, typed, typed.len()), ..self }
        } else {
            self
        }
    }

    /// The menu after one frame: first the choice of the entry, then the
    /// change of the entry that is picked, then the typing.
    pub open spec fn updated(self, keys: MenuKeys, typed: Seq<char>) -> MenuView {
        self.navigated(keys).adjusted(keys).edited(keys, typed)
    }

    /// The game starts when enter is pressed while the start entry is
    /// picked.
    pub open spec fn starts(self, keys: MenuKeys) -> bool {
        self.selected_index == ENTRY_START && keys.enter
    }
}

impl View for MainMenu {
    type V = MenuView;

    open spec fn view(&self) -> MenuView {
        MenuView {
            selected_index: self.selected_index as nat,
            player_name: self.player_name@,
            music_index: self.music_index as nat,
            difficulty: self.difficulty,
            game_mode: self.game_mode,
        }
    }
}

impl MainMenu {
    /// An entry of the menu is picked, and the track is one of those that
    /// can be played.
    pub open spec fn wf(&self) -> bool {
        self@.wf()
    }

    /// Tests whether an entry of the menu is picked and the track is one of
    /// those that can be played.
    pub fn is_well_formed(&self) -> (r: bool)
        ensures
            r == self.wf(),
    {
        self.selected_index < MENU_ENTRIES && self.music_index < MUSIC_TRACKS as usize
    }

    /// The menu as it opens.
    pub fn new() -> (m: MainMenu)
        ensures
            m@ == MenuView::initial(),
            m.wf(),
    {
        MainMenu {
            selected_index: 0,
            player_name: "Player".to_owned(),
            music_index: 0,
            difficulty: Difficulty::Normal,
            game_mode: GameMode::Classic,
        }
    }

    /// Tells whether the menu will read typed characters in a frame with
    /// these keys: it does while the name is picked, once the choice of the
    /// entry has been made.
    pub fn takes_text(&self, keys: &MenuKeys) -> (r: bool)
        requires
            self.wf(),
        ensures
            r == (self@.navigated(*keys).selected_index == ENTRY_NAME),
    {
        let mut selected: usize = self.selected_index;
        if keys.up {
            if selected == 0 {
                selected = MENU_ENTRIES - 1;
            } else {
                selected -= 1;
            }
        }
        if keys.down {
            selected = (selected + 1) % MENU_ENTRIES;
        }
        selected == ENTRY_NAME
    }

    /// Picks the entry above or below the one that is picked.
    pub fn navigate(&mut self, keys: &MenuKeys)
        requires
            old(self).wf(),
        ensures
            final(self)@ == old(self)@.navigated(*keys),
            final(self).wf(),
    {
        if keys.up {
            if self.selected_index == 0 {
                self.selected_index = MENU_ENTRIES - 1;
            } else {
                self.selected_index -= 1;
            }
        }
        if keys.down {
            self.selected_index = (self.selected_index + 1) % MENU_ENTRIES;
        }
    }

    /// Changes the music track, the difficulty or the mode, whichever is
    /// picked.
    pub fn adjust(&mut self, keys: &MenuKeys)
        requires
            old(self).wf(),
        ensures
            final(self)@ == old(self)@.adjusted(*keys),
            final(self).wf(),
    {
        if self.selected_index == ENTRY_MUSIC {
            if keys.left {
                if self.music_index == 0 {
                    self.music_index = MUSIC_TRACKS as usize - 1;
                } else {
                    self.music_index -= 1;
                }
            }
            if keys.right {
                self.music_index = (self.music_index + 1) % (MUSIC_TRACKS as usize);
            }
        }
        if self.selected_index == ENTRY_DIFFICULTY {
            if keys.left {
                self.difficulty = self.difficulty.prev();
            }
            if keys.right {
                self.difficulty = self.difficulty.next();
            }
        }
        if self.selected_index == ENTRY_MODE {
            if keys.left {
                self.game_mode = self.game_mode.prev();
            }
            if keys.right {
                self.game_mode = self.game_mode.next();
            }
        }
    }

    /// Changes the player's name, if the name is picked.
    pub fn edit_name(&mut self, keys: &MenuKeys, typed: &Vec<char>)
        ensures
            final(self)@ == old(self)@.edited(*keys, typed@),
            old(self).wf() ==> final(self).wf(),
    {
        if self.selected_index == ENTRY_NAME {
            if keys.backspace {
                pop_char(&mut self.player_name);
            }
            let ghost erased = self.player_name@;
            let mut i: usize = 0;
            while i < typed.len()
                invariant
                    i <= typed.len(),
                    self.player_name@ == typed_upto(erased, typed@, i as nat),
                    self.selected_index == old(self).selected_index,
                    self.music_index == old(self).music_index,
                    self.difficulty == old(self).difficulty,
                    self.game_mode == old(self).game_mode,
                decreases typed.len() - i,
            {
                let c: char = typed[i];
                if c != '\u{8}' {
                    if is_alphanumeric(c) || c == ' ' {
                        push_char(&mut self.player_name, c);
                    }
                }
                i += 1;
            }
        }
    }

    /// Carries out one frame of the menu with the keys that were pressed and
    /// the characters that were typed, and tells whether the game starts.
    pub fn update(&mut self, keys: &MenuKeys, typed: &Vec<char>) -> (start: bool)
        requires
            old(self).wf(),
        ensures
            final(self)@ == old(self)@.updated(*keys, typed@),
            start == final(self)@.starts(*keys),
            final(self).wf(),
    {
        self.navigate(keys);
        self.adjust(keys);
        self.edit_name(keys, typed);
        self.selected_index == ENTRY_START && keys.enter
    }
}

} // verus!
