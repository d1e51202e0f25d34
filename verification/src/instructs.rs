//! The row of key cards at the bottom of the screen.
use vstd::prelude::*;

use crate::app::{opt_view, App, Indicator, SavePath};
use crate::text::{debug_path_text, path_debug_text};

verus! {

/// The folders of the three save keys.
pub struct PathStates {
    save_a: Option<String>,
    save_d: Option<String>,
    save_g: Option<String>,
}

/// What the key cards show: the save folders, the last action, and how far
/// each of the five cards is lifted.
pub struct Instructs {
    state: PathStates,
    last_action: Option<Indicator>,
    offset_indicator: Vec<i32>,
}

/// The contents of `Instructs`.
pub struct InstructsView {
    pub save_a: Option<Seq<char>>,
    pub save_d: Option<Seq<char>>,
    pub save_g: Option<Seq<char>>,
    pub last_action: Option<Indicator>,
    pub offsets: Seq<i32>,
}

impl Instructs {
    /// There are five cards.
    #[verifier::type_invariant]
    spec fn five_cards(self) -> bool {
        self.offset_indicator@.len() == 5
    }
}

impl View for Instructs {
    type V = InstructsView;

    closed spec fn view(&self) -> InstructsView {
        InstructsView {
            save_a: opt_view(self.state.save_a),
            save_d: opt_view(self.state.save_d),
            save_g: opt_view(self.state.save_g),
            last_action: self.last_action,
            offsets: self.offset_indicator@,
        }
    }
}

/// The card that a mark lifts: the three save cards, the scrub card, the
/// delete card (the volume mark lifts none).
pub open spec fn indicator_card(indicator: Indicator) -> Option<int> {
    match indicator {
        Indicator::SavedA => Some(0),
        Indicator::SavedD => Some(1),
        Indicator::SavedG => Some(2),
        Indicator::Scrubbed => Some(3),
        Indicator::Deleted => Some(4),
        Indicator::Volume => None,
    }
}

/// The card offsets with the card of the last action lifted by one row.
pub open spec fn lifted_offsets(offsets: Seq<i32>, last_action: Option<Indicator>) -> Seq<i32> {
    match last_action {
        Some(indicator) => match indicator_card(indicator) {
            Some(k) => offsets.update(k, -1i32),
            None => offsets,
        },
        None => offsets,
    }
}

/// The letter of a save key.
pub open spec fn key_letter(which: SavePath) -> Seq<char> {
    match which {
        SavePath::A => "a"@,
        SavePath::D => "d"@,
        SavePath::G => "g"@,
    }
}

/// The card of a save key that has a folder, given how that folder shows.
pub open spec fn saved_folder_card(which: SavePath, shown: Seq<char>) -> Seq<char> {
    "Press "@ + key_letter(which) + "\r\nto save to\r\n\r\n"@ + shown
}

/// The card of a save key without a folder.
pub open spec fn choose_folder_card(which: SavePath) -> Seq<char> {
    "Press \""@ + key_letter(which) + "\"\r\nto select a\r\nfolder to save to\r\nfor this button"@
}

/// Each mark lifts its own card: the save marks of `a`, `d` and `g` the
/// first three, the scrub mark the fourth, the delete mark the fifth; the
/// volume mark, or no mark, lifts none. The other cards stay where they are.
pub proof fn law_marks_lift_their_cards(offsets: Seq<i32>)
    requires
        offsets.len() == 5,
    ensures
        lifted_offsets(offsets, Some(Indicator::SavedA)) == offsets.update(0, -1i32),
        lifted_offsets(offsets, Some(Indicator::SavedD)) == offsets.update(1, -1i32),
        lifted_offsets(offsets, Some(Indicator::SavedG)) == offsets.update(2, -1i32),
        lifted_offsets(offsets, Some(Indicator::Scrubbed)) == offsets.update(3, -1i32),
        lifted_offsets(offsets, Some(Indicator::Deleted)) == offsets.update(4, -1i32),
        lifted_offsets(offsets, Some(Indicator::Volume)) == offsets,
        lifted_offsets(offsets, None) == offsets,
{
}

/// The card of each save key names its own letter and reads its own folder.
pub proof fn law_cards_of_each_key(cards: Instructs)
    ensures
        key_letter(SavePath::A) == "a"@,
        key_letter(SavePath::D) == "d"@,
        key_letter(SavePath::G) == "g"@,
        cards.folder(SavePath::A) == cards@.save_a,
        cards.folder(SavePath::D) == cards@.save_d,
        cards.folder(SavePath::G) == cards@.save_g,
{
}

fn key_letter_str(which: SavePath) -> (letter: &'static str)
    ensures
        letter@ == key_letter(which),
{
    match which {
        SavePath::A => "a",
        SavePath::D => "d",
        SavePath::G => "g",
    }
}

/// The card of a save key that has a folder, given the folder as `Debug`
/// shows it.
pub fn saved_folder_label(which: SavePath, shown: &str) -> (card: String)
    ensures
        card@ == saved_folder_card(which, shown@),
{
    let mut card = "Press ".to_owned();
    card.append(key_letter_str(which));
    card.append("\r\nto save to\r\n\r\n");
    card.append(shown);
    card
}

/// The card of a save key without a folder.
pub fn choose_folder_label(which: SavePath) -> (card: String)
    ensures
        card@ == choose_folder_card(which),
{
    let mut card = "Press \"".to_owned();
    card.append(key_letter_str(which));
    card.append("\"\r\nto select a\r\nfolder to save to\r\nfor this button");
    card
}

impl Instructs {
    /// The cards for the sorter's current save folders and last action, none
    /// lifted yet.
    pub fn new(app_state: &App) -> (instructs: Instructs)
        ensures
            instructs@.save_a == app_state@.save_a,
            instructs@.save_d == app_state@.save_d,
            instructs@.save_g == app_state@.save_g,
            instructs@.last_action == app_state@.indicator,
            instructs@.offsets == seq![0i32, 0i32, 0i32, 0i32, 0i32],
    {
        let offsets: Vec<i32> = vec![0, 0, 0, 0, 0];
        let instructs = Instructs {
            state: PathStates {
                save_a: app_state.save_path_a.clone(),
                save_d: app_state.save_path_d.clone(),
                save_g: app_state.save_path_g.clone(),
            },
            last_action: app_state.visual_action_indicator,
            offset_indicator: offsets,
        };
        assert(instructs@.offsets =~= seq![0i32, 0i32, 0i32, 0i32, 0i32]);
        instructs
    }

    /// The offsets of the five cards, the card of the last action lifted.
    pub fn offsets(&self) -> (offsets: Vec<i32>)
        ensures
            offsets@ == lifted_offsets(self@.offsets, self@.last_action),
            offsets@.len() == 5,
    {
        proof {
            use_type_invariant(self);
        }
        let mut offsets = self.offset_indicator.clone();
        assert(offsets@ == self@.offsets);
        let card: Option<usize> = match self.last_action {
            Some(Indicator::SavedA) => Some(0),
            Some(Indicator::SavedD) => Some(1),
            Some(Indicator::SavedG) => Some(2),
            Some(Indicator::Scrubbed) => Some(3),
            Some(Indicator::Deleted) => Some(4),
            _ => None,
        };
        if let Some(k) = card {
            offsets.set(k, -1);
        }
        offsets
    }

    /// The folder of a save key.
    pub open spec fn folder(self, which: SavePath) -> Option<Seq<char>> {
        match which {
            SavePath::A => self@.save_a,
            SavePath::D => self@.save_d,
            SavePath::G => self@.save_g,
        }
    }

    /// The text of a save key's card: how to pick a folder when it has none,
    /// otherwise the folder it saves to, as `Debug` shows it.
    pub fn save_label(&self, which: SavePath) -> (card: String)
        requires
            self.folder(which) is Some,
        ensures
            card@ == if self.folder(which)->0.len() == 0 {
                choose_folder_card(which)
            } else {
                saved_folder_card(which, debug_path_text(self.folder(which)->0))
            },
    {
        let folder = match which {
            SavePath::A => &self.state.save_a,
            SavePath::D => &self.state.save_d,
            SavePath::G => &self.state.save_g,
        };
        match folder {
            Some(f) => {
                if f.unicode_len() == 0 {
                    choose_folder_label(which)
                } else {
                    let shown = path_debug_text(f.as_str());
                    saved_folder_label(which, shown.as_str())
                }
            },
            None => choose_folder_label(which),
        }
    }
}

} // verus!
