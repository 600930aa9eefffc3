//! The key-ceremony state machine.
//!
//! States: `TypeSelect` (choose a generator), `Configure` (set the length),
//! `Result` (view the generated key and its entropy) and `Saved` (browse
//! saved keys). Each key press moves the machine and names what the caller
//! must do next: go on, quit, write the saved keys to the vault, or read
//! more TRNG words and send the same key again.

use vstd::prelude::*;

use crate::generators::{
    draw_key, entropy_display, entropy_fits, generate, lemma_generated_keys_well_formed,
    spec_entropy_display, well_formed_key, GenType,
};
use crate::rng::Rng;
use crate::storage::SavedKey;

verus! {

pub const KEY_UP: char = '\u{F700}';
pub const KEY_DOWN: char = '\u{F701}';
pub const KEY_LEFT: char = '\u{F702}';
pub const KEY_RIGHT: char = '\u{F703}';
pub const KEY_ENTER: char = '\u{000D}';
pub const KEY_BACKSPACE: char = '\u{0008}';
pub const KEY_MENU: char = '\u{2234}';

/// The screens of the tool.
#[derive(Debug, Clone, Copy, PartialEq, Eq, Structural)]
pub enum AppState {
    TypeSelect,
    Configure,
    Result,
    Saved,
}

/// What the caller does after a key press.
#[derive(Debug, Clone, Copy, PartialEq, Eq, Structural)]
pub enum KeyAction {
    /// Keep running.
    Continue,
    /// Leave the tool.
    Quit,
    /// The saved list changed: write it to the vault, then keep running.
    SaveKeys,
    /// The TRNG words ran out while generating; nothing changed. Read more
    /// words and send the same key again.
    NeedEntropy,
}

/// The generator type at a menu position.
pub open spec fn type_at(i: int) -> GenType {
    if i == 0 {
        GenType::Password
    } else if i == 1 {
        GenType::Pin
    } else if i == 2 {
        GenType::Passphrase
    } else if i == 3 {
        GenType::HexKey
    } else if i == 4 {
        GenType::Base64Key
    } else {
        GenType::WpaKey
    }
}

/// The state of the tool as the contracts see it.
pub struct AppModel {
    pub state: AppState,
    pub type_cursor: usize,
    pub selected_type: GenType,
    pub length: usize,
    pub result_value: Seq<char>,
    pub result_entropy: u32,
    pub saved: Seq<(Seq<char>, usize, u32, Seq<char>)>,
    pub saved_cursor: usize,
}

impl AppModel {
    /// What every reachable state satisfies: the menu cursor is on a type,
    /// the length is within the selected type's limits, the saved-list
    /// cursor is on a key (or at the top of an empty list), and a shown
    /// result is a key that `generate` can produce for the selected type
    /// and length, with the matching entropy figure.
    pub open spec fn wf(self) -> bool {
        &&& self.type_cursor < 6
        &&& self.selected_type.spec_min_length() <= self.length <= self.selected_type.spec_max_length()
        &&& (self.saved_cursor == 0 || self.saved_cursor < self.saved.len())
        &&& self.state == AppState::Result ==> {
            &&& self.result_entropy == spec_entropy_display(self.selected_type, self.length)
            &&& possible_key(self.selected_type, self.length as nat, self.result_value)
        }
    }

    /// Whether the key press generates a key.
    pub open spec fn generates(self, key: char) -> bool {
        ||| self.state == AppState::Configure && (key == KEY_ENTER || key == ' ')
        ||| self.state == AppState::Result && (key == 'r' || key == 'R' || key == ' ')
    }

    /// The key presses that can be handled in this state without a panic:
    /// Enter on the type menu needs the cursor on a type, and generating
    /// needs an entropy figure that fits in a `u32`.
    pub open spec fn can_handle(self, key: char) -> bool {
        &&& (self.state == AppState::TypeSelect && key == KEY_ENTER ==> self.type_cursor < 6)
        &&& (self.generates(key) ==> spec_entropy_display(self.selected_type, self.length) <= u32::MAX)
    }
}

/// Some word supply makes `generate` produce exactly `s` for this type and
/// length.
pub open spec fn possible_key(gen_type: GenType, length: nat, s: Seq<char>) -> bool {
    exists|ws: Seq<u32>| #[trigger] draw_key(ws, gen_type, length) matches Some((k, _)) && k == s
}

/// Law: a key `generate` can produce has the shape its type promises.
pub proof fn lemma_possible_key_well_formed(gen_type: GenType, length: nat, s: Seq<char>)
    requires
        possible_key(gen_type, length, s),
    ensures
        well_formed_key(gen_type, length, s),
{
    let ws = choose|ws: Seq<u32>| #[trigger] draw_key(ws, gen_type, length) matches Some((k, _)) && k == s;
    lemma_generated_keys_well_formed(ws, gen_type, length);
}

/// Law: in a well-formed state every key press can be handled.
pub proof fn lemma_wf_can_handle(m: AppModel, key: char)
    requires
        m.wf(),
    ensures
        m.can_handle(key),
{
    let len = m.length;
    assert(len as u32 == len) by (bit_vector)
        requires len <= 64usize;
    assert(m.selected_type.bits_per_unit() <= 9);
}

/// Generating a key for the current type and length: the result screen
/// with the new key, or no change when the words run out.
pub open spec fn generate_step(m: AppModel, ws: Seq<u32>) -> (AppModel, KeyAction, Seq<u32>) {
    match draw_key(ws, m.selected_type, m.length as nat) {
        Some((s, rest)) => (
            AppModel {
                state: AppState::Result,
                result_value: s,
                result_entropy: spec_entropy_display(m.selected_type, m.length) as u32,
                ..m
            },
            KeyAction::Continue,
            rest,
        ),
        None => (m, KeyAction::NeedEntropy, Seq::<u32>::empty()),
    }
}

/// Key handling on the type menu.
pub open spec fn type_select_step(m: AppModel, key: char) -> (AppModel, KeyAction) {
    if key == KEY_MENU {
        (m, KeyAction::Quit)
    } else if key == KEY_UP {
        (AppModel { type_cursor: if m.type_cursor > 0 { (m.type_cursor - 1) as usize } else { m.type_cursor }, ..m }, KeyAction::Continue)
    } else if key == KEY_DOWN {
        (AppModel { type_cursor: if m.type_cursor < 5 { (m.type_cursor + 1) as usize } else { m.type_cursor }, ..m }, KeyAction::Continue)
    } else if key == KEY_ENTER {
        let t = type_at(m.type_cursor as int);
        (AppModel { selected_type: t, length: t.spec_default_length(), state: AppState::Configure, ..m }, KeyAction::Continue)
    } else if key == 's' || key == 'S' {
        (AppModel { saved_cursor: 0, state: AppState::Saved, ..m }, KeyAction::Continue)
    } else {
        (m, KeyAction::Continue)
    }
}

/// Key handling on the configuration screen.
pub open spec fn configure_step(m: AppModel, key: char, ws: Seq<u32>) -> (AppModel, KeyAction, Seq<u32>) {
    if key == KEY_MENU {
        (AppModel { state: AppState::TypeSelect, ..m }, KeyAction::Continue, ws)
    } else if key == KEY_LEFT {
        (AppModel { length: if m.length > m.selected_type.spec_min_length() { (m.length - 1) as usize } else { m.length }, ..m }, KeyAction::Continue, ws)
    } else if key == KEY_RIGHT {
        (AppModel { length: if m.length < m.selected_type.spec_max_length() { (m.length + 1) as usize } else { m.length }, ..m }, KeyAction::Continue, ws)
    } else if key == KEY_ENTER || key == ' ' {
        generate_step(m, ws)
    } else {
        (m, KeyAction::Continue, ws)
    }
}

/// Key handling on the result screen.
pub open spec fn result_step(m: AppModel, key: char, ws: Seq<u32>) -> (AppModel, KeyAction, Seq<u32>) {
    if key == KEY_MENU || key == KEY_LEFT {
        (AppModel { state: AppState::TypeSelect, ..m }, KeyAction::Continue, ws)
    } else if key == 'r' || key == 'R' || key == ' ' {
        generate_step(m, ws)
    } else if key == 's' || key == 'S' {
        let entry = (m.selected_type.spec_label()@, m.length, m.result_entropy, m.result_value);
        (AppModel { saved: m.saved.push(entry), ..m }, KeyAction::SaveKeys, ws)
    } else {
        (m, KeyAction::Continue, ws)
    }
}

/// Key handling on the saved-keys screen.
pub open spec fn saved_step(m: AppModel, key: char) -> (AppModel, KeyAction) {
    if key == KEY_MENU || key == KEY_LEFT {
        (AppModel { state: AppState::TypeSelect, ..m }, KeyAction::Continue)
    } else if key == KEY_UP {
        (AppModel { saved_cursor: if m.saved_cursor > 0 { (m.saved_cursor - 1) as usize } else { m.saved_cursor }, ..m }, KeyAction::Continue)
    } else if key == KEY_DOWN {
        (AppModel { saved_cursor: if m.saved.len() > 0 && m.saved_cursor < m.saved.len() - 1 { (m.saved_cursor + 1) as usize } else { m.saved_cursor }, ..m }, KeyAction::Continue)
    } else if key == 'd' || key == 'D' {
        if m.saved_cursor < m.saved.len() {
            let saved = m.saved.remove(m.saved_cursor as int);
            let cursor = if m.saved_cursor > 0 && m.saved_cursor >= saved.len() { (saved.len() - 1) as usize } else { m.saved_cursor };
            (AppModel { saved: saved, saved_cursor: cursor, ..m }, KeyAction::SaveKeys)
        } else {
            (m, KeyAction::Continue)
        }
    } else {
        (m, KeyAction::Continue)
    }
}

/// One key press: the next state, what the caller does next, and the TRNG
/// words left over.
pub open spec fn next_model(m: AppModel, key: char, ws: Seq<u32>) -> (AppModel, KeyAction, Seq<u32>) {
    match m.state {
        AppState::TypeSelect => {
            let (m2, a) = type_select_step(m, key);
            (m2, a, ws)
        },
        AppState::Configure => configure_step(m, key, ws),
        AppState::Result => result_step(m, key, ws),
        AppState::Saved => {
            let (m2, a) = saved_step(m, key);
            (m2, a, ws)
        },
    }
}

/// The state at start, with `saved` loaded from the vault: the type menu
/// on its first entry, a 16-character password selected, nothing
/// generated, the saved list's cursor at the top.
pub open spec fn initial_model(saved: Seq<(Seq<char>, usize, u32, Seq<char>)>) -> AppModel {
    AppModel {
        state: AppState::TypeSelect,
        type_cursor: 0,
        selected_type: GenType::Password,
        length: 16,
        result_value: Seq::empty(),
        result_entropy: 0,
        saved: saved,
        saved_cursor: 0,
    }
}

/// The state after a sequence of key presses, each with the TRNG words
/// supplied for it.
pub open spec fn run(m: AppModel, presses: Seq<(char, Seq<u32>)>) -> AppModel
    decreases presses.len(),
{
    if presses.len() == 0 {
        m
    } else {
        run(next_model(m, presses[0].0, presses[0].1).0, presses.drop_first())
    }
}

/// The key-ceremony tool: the current screen and what it shows.
pub struct KeygenApp {
    pub state: AppState,
    pub needs_redraw: bool,
    // Type selection
    pub type_cursor: usize,
    pub selected_type: GenType,
    // Configuration
    pub length: usize,
    // Generated result
    pub result_value: String,
    pub result_entropy: u32,
    // Saved keys
    pub saved: Vec<SavedKey>,
    pub saved_cursor: usize,
}

impl View for KeygenApp {
    type V = AppModel;

    open spec fn view(&self) -> AppModel {
        AppModel {
            state: self.state,
            type_cursor: self.type_cursor,
            selected_type: self.selected_type,
            length: self.length,
            result_value: self.result_value@,
            result_entropy: self.result_entropy,
            saved: self.saved@.map_values(|k: SavedKey| k@),
            saved_cursor: self.saved_cursor,
        }
    }
}

impl KeygenApp {
    /// The tool at start: the type menu on the first entry, a password of
    /// 16 characters selected, nothing generated and nothing saved.
    pub fn new() -> (r: Self)
        ensures
            r@.wf(),
            r@ == initial_model(Seq::empty()),
            r.needs_redraw,
            r@.state == AppState::TypeSelect,
            r@.type_cursor == 0,
            r@.selected_type == GenType::Password,
            r@.length == 16,
            r@.result_value.len() == 0,
            r@.result_entropy == 0,
            r@.saved.len() == 0,
            r@.saved_cursor == 0,
    {
        let app = KeygenApp {
            state: AppState::TypeSelect,
            needs_redraw: true,
            type_cursor: 0,
            selected_type: GenType::Password,
            length: 16,
            result_value: String::new(),
            result_entropy: 0,
            saved: Vec::new(),
            saved_cursor: 0,
        };
        assert(app@.saved =~= Seq::empty());
        assert(app@.result_value =~= Seq::empty());
        app
    }

    /// Takes the keys loaded from the vault as the saved list; nothing else
    /// changes.
    pub fn init_storage(&mut self, loaded: Vec<SavedKey>)
        ensures
            final(self)@ == (AppModel { saved: loaded@.map_values(|k: SavedKey| k@), ..old(self)@ }),
            final(self).needs_redraw == old(self).needs_redraw,
            old(self)@.wf() && (old(self).saved_cursor == 0 || old(self).saved_cursor < loaded@.len())
                ==> final(self)@.wf(),
    {
        self.saved = loaded;
    }

    /// Whether `handle_key` can take this key press (see
    /// [`AppModel::can_handle`]); always so in a well-formed state.
    pub fn accepts(&self, key: char) -> (r: bool)
        ensures
            r == self@.can_handle(key),
    {
        let enter_ok = !(self.state == AppState::TypeSelect && key == KEY_ENTER) || self.type_cursor < GenType::all().len();
        let generates = (self.state == AppState::Configure && (key == KEY_ENTER || key == ' ')) || (
        self.state == AppState::Result && (key == 'r' || key == 'R' || key == ' '));
        enter_ok && (!generates || entropy_fits(self.selected_type, self.length))
    }

    /// Handles one key press. The screen is redrawn afterwards.
    pub fn handle_key(&mut self, key: char, rng: &mut Rng) -> (r: KeyAction)
        requires
            old(self)@.can_handle(key),
        ensures
            final(self)@ == next_model(old(self)@, key, old(rng).remaining()).0,
            r == next_model(old(self)@, key, old(rng).remaining()).1,
            final(rng).remaining() == next_model(old(self)@, key, old(rng).remaining()).2,
            old(self)@.wf() ==> final(self)@.wf(),
            final(self).needs_redraw,
    {
        proof {
            if self@.wf() {
                lemma_step_preserves_wf(self@, key, rng.remaining());
            }
        }
        self.needs_redraw = true;
        match self.state {
            AppState::TypeSelect => self.handle_type_select(key),
            AppState::Configure => self.handle_configure(key, rng),
            AppState::Result => self.handle_result(key, rng),
            AppState::Saved => self.handle_saved(key),
        }
    }

    fn handle_type_select(&mut self, key: char) -> (r: KeyAction)
        requires
            old(self)@.state == AppState::TypeSelect,
            old(self)@.can_handle(key),
        ensures
            final(self)@ == type_select_step(old(self)@, key).0,
            r == type_select_step(old(self)@, key).1,
            final(self).needs_redraw == old(self).needs_redraw,
    {
        let types = GenType::all();
        if key == KEY_MENU {
            return KeyAction::Quit;
        } else if key == KEY_UP {
            if self.type_cursor > 0 {
                self.type_cursor -= 1;
            }
        } else if key == KEY_DOWN {
            if self.type_cursor < types.len() - 1 {
                self.type_cursor += 1;
            }
        } else if key == KEY_ENTER {
            self.selected_type = types[self.type_cursor];
            self.length = self.selected_type.default_length();
            self.state = AppState::Configure;
        } else if key == 's' || key == 'S' {
            self.saved_cursor = 0;
            self.state = AppState::Saved;
        }
        KeyAction::Continue
    }

    /// Generates a key for the selected type and length and shows it;
    /// leaves everything as it was when the words run out.
    fn regenerate(&mut self, rng: &mut Rng) -> (r: KeyAction)
        requires
            spec_entropy_display(old(self).selected_type, old(self).length) <= u32::MAX,
        ensures
            final(self)@ == generate_step(old(self)@, old(rng).remaining()).0,
            r == generate_step(old(self)@, old(rng).remaining()).1,
            final(rng).remaining() == generate_step(old(self)@, old(rng).remaining()).2,
            final(self).needs_redraw == old(self).needs_redraw,
    {
        match generate(rng, self.selected_type, self.length) {
            Some(value) => {
                self.result_value = value;
                self.result_entropy = entropy_display(self.selected_type, self.length);
                self.state = AppState::Result;
                KeyAction::Continue
            },
            None => KeyAction::NeedEntropy,
        }
    }

    fn handle_configure(&mut self, key: char, rng: &mut Rng) -> (r: KeyAction)
        requires
            old(self)@.state == AppState::Configure,
            old(self)@.can_handle(key),
        ensures
            final(self)@ == configure_step(old(self)@, key, old(rng).remaining()).0,
            r == configure_step(old(self)@, key, old(rng).remaining()).1,
            final(rng).remaining() == configure_step(old(self)@, key, old(rng).remaining()).2,
            final(self).needs_redraw == old(self).needs_redraw,
    {
        if key == KEY_MENU {
            self.state = AppState::TypeSelect;
        } else if key == KEY_LEFT {
            let min = self.selected_type.min_length();
            if self.length > min {
                self.length -= 1;
            }
        } else if key == KEY_RIGHT {
            let max = self.selected_type.max_length();
            if self.length < max {
                self.length += 1;
            }
        } else if key == KEY_ENTER || key == ' ' {
            return self.regenerate(rng);
        }
        KeyAction::Continue
    }

    fn handle_result(&mut self, key: char, rng: &mut Rng) -> (r: KeyAction)
        requires
            old(self)@.state == AppState::Result,
            old(self)@.can_handle(key),
        ensures
            final(self)@ == result_step(old(self)@, key, old(rng).remaining()).0,
            r == result_step(old(self)@, key, old(rng).remaining()).1,
            final(rng).remaining() == result_step(old(self)@, key, old(rng).remaining()).2,
            final(self).needs_redraw == old(self).needs_redraw,
    {
        if key == KEY_MENU || key == KEY_LEFT {
            self.state = AppState::TypeSelect;
        } else if key == 'r' || key == 'R' || key == ' ' {
            return self.regenerate(rng);
        } else if key == 's' || key == 'S' {
            let saved_key = SavedKey {
                gen_type: self.selected_type.label().to_owned(),
                length: self.length,
                entropy_bits: self.result_entropy,
                value: self.result_value.clone(),
            };
            self.saved.push(saved_key);
            assert(self@.saved =~= old(self)@.saved.push(saved_key@));
            return KeyAction::SaveKeys;
        }
        KeyAction::Continue
    }

    fn handle_saved(&mut self, key: char) -> (r: KeyAction)
        ensures
            final(self)@ == saved_step(old(self)@, key).0,
            r == saved_step(old(self)@, key).1,
            final(self).needs_redraw == old(self).needs_redraw,
    {
        if key == KEY_MENU || key == KEY_LEFT {
            self.state = AppState::TypeSelect;
        } else if key == KEY_UP {
            if self.saved_cursor > 0 {
                self.saved_cursor -= 1;
            }
        } else if key == KEY_DOWN {
            if !self.saved.is_empty() && self.saved_cursor < self.saved.len() - 1 {
                self.saved_cursor += 1;
            }
        } else if key == 'd' || key == 'D' {
            if self.saved_cursor < self.saved.len() {
                self.saved.remove(self.saved_cursor);
                assert(self@.saved =~= old(self)@.saved.remove(old(self).saved_cursor as int));
                if self.saved_cursor > 0 && self.saved_cursor >= self.saved.len() {
                    self.saved_cursor = self.saved.len().saturating_sub(1);
                }
                return KeyAction::SaveKeys;
            }
        }
        KeyAction::Continue
    }
}

/// Law: the screens change only as the controls say. Enter on the type
/// menu opens the configuration and `s` the saved keys (from the top);
/// Menu leaves the configuration, and Menu or Left leave the result and
/// saved screens, for the type menu; Enter or Space on the configuration
/// shows a result. When the TRNG words run out nothing changes. Every
/// other key press stays on the same screen.
pub proof fn lemma_screen_transitions(m: AppModel, key: char, ws: Seq<u32>)
    ensures
        ({
            let (m2, a, _) = next_model(m, key, ws);
            let to_configure = m.state == AppState::TypeSelect && key == KEY_ENTER;
            let to_saved = m.state == AppState::TypeSelect && (key == 's' || key == 'S');
            let back = (m.state == AppState::Configure && key == KEY_MENU) || ((m.state == AppState::Result
                || m.state == AppState::Saved) && (key == KEY_MENU || key == KEY_LEFT));
            let to_result = m.state == AppState::Configure && (key == KEY_ENTER || key == ' ');
            &&& (a == KeyAction::NeedEntropy ==> m2 == m)
            &&& (to_configure ==> m2.state == AppState::Configure)
            &&& (to_saved ==> m2.state == AppState::Saved && m2.saved_cursor == 0)
            &&& (back ==> m2.state == AppState::TypeSelect)
            &&& (to_result && a != KeyAction::NeedEntropy ==> m2.state == AppState::Result)
            &&& (!to_configure && !to_saved && !back && !to_result ==> m2.state == m.state)
        }),
{
}

/// Law: on the result screen, S saves the shown key: the saved list is the
/// old list with exactly one entry appended (every earlier key kept, in
/// order), holding the type's label, the length, the entropy figure and
/// the key; nothing else changes, and the caller is told to write the
/// list to the vault.
pub proof fn lemma_save_appends(m: AppModel, key: char, ws: Seq<u32>)
    requires
        m.state == AppState::Result,
        key == 's' || key == 'S',
    ensures
        ({
            let (m2, a, rest) = next_model(m, key, ws);
            &&& a == KeyAction::SaveKeys
            &&& rest == ws
            &&& m2.saved.len() == m.saved.len() + 1
            &&& forall|k: int| 0 <= k < m.saved.len() ==> #[trigger] m2.saved[k] == m.saved[k]
            &&& m2.saved[m.saved.len() as int] == (m.selected_type.spec_label()@, m.length, m.result_entropy, m.result_value)
            &&& m2.state == m.state && m2.type_cursor == m.type_cursor && m2.selected_type == m.selected_type
            &&& m2.length == m.length && m2.result_value == m.result_value && m2.result_entropy == m.result_entropy
            &&& m2.saved_cursor == m.saved_cursor
        }),
{
}

/// Law: on the saved-keys screen, D with the cursor on a key removes that
/// key and only it: the other keys keep their order. The cursor stays,
/// or moves to the new last key when it was past the end and not at the
/// top. The caller is told to write the list to the vault. With the
/// cursor past the end nothing changes.
pub proof fn lemma_delete_removes_selected(m: AppModel, key: char, ws: Seq<u32>)
    requires
        m.state == AppState::Saved,
        key == 'd' || key == 'D',
    ensures
        ({
            let (m2, a, rest) = next_model(m, key, ws);
            let c = m.saved_cursor as int;
            &&& rest == ws
            &&& m.saved_cursor < m.saved.len() ==> {
                &&& a == KeyAction::SaveKeys
                &&& m2.saved == m.saved.take(c) + m.saved.skip(c + 1)
                &&& m2.saved.len() == m.saved.len() - 1
                &&& m2.saved_cursor == (if c > 0 && c >= m.saved.len() - 1 { m.saved.len() - 2 } else { c })
                &&& m2.state == m.state && m2.length == m.length && m2.result_value == m.result_value
            }
            &&& m.saved_cursor >= m.saved.len() ==> a == KeyAction::Continue && m2 == m
        }),
{
    let c = m.saved_cursor as int;
    if m.saved_cursor < m.saved.len() {
        assert(m.saved.remove(c) =~= m.saved.take(c) + m.saved.skip(c + 1));
    }
}

/// Law: on the configuration screen Right raises the length by exactly one
/// while it is below the type's maximum and Left lowers it by exactly one
/// while it is above the minimum; at the limit the length stays. Nothing
/// else changes.
pub proof fn lemma_length_steps(m: AppModel, key: char, ws: Seq<u32>)
    requires
        m.state == AppState::Configure,
        key == KEY_LEFT || key == KEY_RIGHT,
    ensures
        ({
            let (m2, a, rest) = next_model(m, key, ws);
            let min = m.selected_type.spec_min_length();
            let max = m.selected_type.spec_max_length();
            &&& a == KeyAction::Continue && rest == ws
            &&& key == KEY_RIGHT ==> m2.length == if m.length < max { m.length + 1 } else { m.length as int }
            &&& key == KEY_LEFT ==> m2.length == if m.length > min { m.length - 1 } else { m.length as int }
            &&& m2 == AppModel { length: m2.length, ..m }
        }),
{
}

/// Law: the menu and list cursors move by one. On the type menu Up moves
/// the cursor one entry up (not above the first) and Down one entry down
/// (not below the sixth); Enter selects the type under the cursor, in
/// menu order Password, PIN, Passphrase, Hex, Base64, WPA, with its
/// default length. On the saved-keys screen Up and Down move the cursor by
/// one within the list.
pub proof fn lemma_cursor_moves(m: AppModel, key: char, ws: Seq<u32>)
    ensures
        ({
            let (m2, a, rest) = next_model(m, key, ws);
            let menu = seq![GenType::Password, GenType::Pin, GenType::Passphrase, GenType::HexKey, GenType::Base64Key, GenType::WpaKey];
            &&& m.state == AppState::TypeSelect && key == KEY_UP ==> m2 == AppModel {
                type_cursor: if m.type_cursor > 0 { (m.type_cursor - 1) as usize } else { 0 },
                ..m
            }
            &&& m.state == AppState::TypeSelect && key == KEY_DOWN && m.type_cursor < 6 ==> m2 == AppModel {
                type_cursor: if m.type_cursor < 5 { (m.type_cursor + 1) as usize } else { 5 },
                ..m
            }
            &&& m.state == AppState::TypeSelect && key == KEY_ENTER && m.type_cursor < 6 ==> {
                &&& m2.selected_type == menu[m.type_cursor as int]
                &&& m2.length == menu[m.type_cursor as int].spec_default_length()
                &&& m2.state == AppState::Configure
                &&& m2 == AppModel { selected_type: m2.selected_type, length: m2.length, state: m2.state, ..m }
            }
            &&& m.state == AppState::Saved && key == KEY_UP ==> m2 == AppModel {
                saved_cursor: if m.saved_cursor > 0 { (m.saved_cursor - 1) as usize } else { 0 },
                ..m
            }
            &&& m.state == AppState::Saved && key == KEY_DOWN ==> m2 == AppModel {
                saved_cursor: if m.saved_cursor + 1 < m.saved.len() { (m.saved_cursor + 1) as usize } else { m.saved_cursor },
                ..m
            }
            &&& m.state == AppState::TypeSelect && key == KEY_MENU ==> a == KeyAction::Quit && m2 == m
        }),
{
}

/// Law: generating (Enter or Space on the configuration screen, R or Space
/// on the result screen) keeps the selected type, length and saved keys,
/// and shows exactly the key `generate` draws from the words, with the
/// entropy figure for the type and length; when the words run out nothing
/// changes.
pub proof fn lemma_generate_shows_key(m: AppModel, key: char, ws: Seq<u32>)
    requires
        (m.state == AppState::Configure && (key == KEY_ENTER || key == ' ')) || (m.state == AppState::Result && (
        key == 'r' || key == 'R' || key == ' ')),
    ensures
        ({
            let (m2, a, rest) = next_model(m, key, ws);
            match draw_key(ws, m.selected_type, m.length as nat) {
                Some((s, r)) => {
                    &&& a == KeyAction::Continue && rest == r
                    &&& m2.state == AppState::Result && m2.result_value == s
                    &&& m2.result_entropy as int == (spec_entropy_display(m.selected_type, m.length) as u32) as int
                    &&& m2 == AppModel { state: m2.state, result_value: s, result_entropy: m2.result_entropy, ..m }
                },
                None => a == KeyAction::NeedEntropy && m2 == m,
            }
        }),
{
}

/// A generated result satisfies the state's invariant.
proof fn lemma_generate_step_wf(m: AppModel, ws: Seq<u32>)
    requires
        m.wf(),
    ensures
        generate_step(m, ws).0.wf(),
{
    assert(m.length <= 64);
    let len = m.length;
    assert(len as u32 == len) by (bit_vector)
        requires len <= 64usize;
    assert(spec_entropy_display(m.selected_type, m.length) <= 9 * 64);
    if let Some((s, _)) = draw_key(ws, m.selected_type, m.length as nat) {
        assert(possible_key(m.selected_type, m.length as nat, s));
    }
}

/// Law: every key press keeps the state well formed.
pub proof fn lemma_step_preserves_wf(m: AppModel, key: char, ws: Seq<u32>)
    requires
        m.wf(),
    ensures
        next_model(m, key, ws).0.wf(),
{
    match m.state {
        AppState::TypeSelect => {
            let t = type_at(m.type_cursor as int);
            assert(t.spec_min_length() <= t.spec_default_length() <= t.spec_max_length());
        },
        AppState::Configure => {
            lemma_generate_step_wf(m, ws);
        },
        AppState::Result => {
            lemma_generate_step_wf(m, ws);
        },
        AppState::Saved => {
            if (key == 'd' || key == 'D') && m.saved_cursor < m.saved.len() {
                let saved = m.saved.remove(m.saved_cursor as int);
                assert(saved.len() == m.saved.len() - 1);
            }
        },
    }
}

/// Every sequence of key presses from a well-formed state ends in a
/// well-formed state.
pub proof fn lemma_run_preserves_wf(m: AppModel, presses: Seq<(char, Seq<u32>)>)
    requires
        m.wf(),
    ensures
        run(m, presses).wf(),
    decreases presses.len(),
{
    if presses.len() > 0 {
        lemma_step_preserves_wf(m, presses[0].0, presses[0].1);
        lemma_run_preserves_wf(next_model(m, presses[0].0, presses[0].1).0, presses.drop_first());
    }
}

/// Law: every state reachable from the start (with any saved list loaded
/// from the vault) by any key presses, with any TRNG words, is well
/// formed: the menu cursor is on a type, the length within limits, the
/// saved-list cursor on a key or at the top, and a shown result a key that
/// `generate` can produce, with its entropy figure. Each of these key
/// presses can be handled (see `lemma_wf_can_handle`).
pub proof fn lemma_reachable_states_wf(
    saved: Seq<(Seq<char>, usize, u32, Seq<char>)>,
    presses: Seq<(char, Seq<u32>)>,
)
    ensures
        run(initial_model(saved), presses).wf(),
{
    lemma_run_preserves_wf(initial_model(saved), presses);
}

} // verus!
