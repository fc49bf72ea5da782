//! The command table: every command, its key chord and its palette row.

use vstd::prelude::*;
use crate::keys::{Key, KeyPress, Modifiers, NamedKey, ascii_lower, to_ascii_lower};
use crate::text::chars_of;

verus! {

/// A command in shelvd's vocabulary: the single thing a key chord and a palette
/// row both resolve to.
#[derive(Clone, Debug, PartialEq, Eq)]
pub enum Action {
    /// Open the command palette.
    OpenPalette,
    ScrollToTop,
    ScrollToBottom,
    CopySelection,
    CopyBlock,
    /// Paste the clipboard into the PTY.
    Paste,
    PrevBlock,
    NextBlock,
    /// Scroll the viewport one page up / down through history.
    PageUp,
    PageDown,
    /// Open the history-search overlay.
    SearchHistory,
    Quit,
    /// Write this command into the PTY's input line (a history pick).
    InsertCommand(String),
    /// Add the band's current input to the type-ahead queue, to run on the next
    /// prompt (the global "queue this command" action).
    QueueInput,
}

/// A command with its text as characters.
pub ghost enum ActionView {
    OpenPalette,
    ScrollToTop,
    ScrollToBottom,
    CopySelection,
    CopyBlock,
    Paste,
    PrevBlock,
    NextBlock,
    PageUp,
    PageDown,
    SearchHistory,
    Quit,
    InsertCommand(Seq<char>),
    QueueInput,
}

impl Action {
    pub open spec fn view(&self) -> ActionView {
        match self {
            Action::OpenPalette => ActionView::OpenPalette,
            Action::ScrollToTop => ActionView::ScrollToTop,
            Action::ScrollToBottom => ActionView::ScrollToBottom,
            Action::CopySelection => ActionView::CopySelection,
            Action::CopyBlock => ActionView::CopyBlock,
            Action::Paste => ActionView::Paste,
            Action::PrevBlock => ActionView::PrevBlock,
            Action::NextBlock => ActionView::NextBlock,
            Action::PageUp => ActionView::PageUp,
            Action::PageDown => ActionView::PageDown,
            Action::SearchHistory => ActionView::SearchHistory,
            Action::Quit => ActionView::Quit,
            Action::InsertCommand(s) => ActionView::InsertCommand(s@),
            Action::QueueInput => ActionView::QueueInput,
        }
    }

    /// A copy of this command.
    pub fn copy(&self) -> (a: Action)
        ensures
            a@ == self@,
    {
        match self {
            Action::OpenPalette => Action::OpenPalette,
            Action::ScrollToTop => Action::ScrollToTop,
            Action::ScrollToBottom => Action::ScrollToBottom,
            Action::CopySelection => Action::CopySelection,
            Action::CopyBlock => Action::CopyBlock,
            Action::Paste => Action::Paste,
            Action::PrevBlock => Action::PrevBlock,
            Action::NextBlock => Action::NextBlock,
            Action::PageUp => Action::PageUp,
            Action::PageDown => Action::PageDown,
            Action::SearchHistory => Action::SearchHistory,
            Action::Quit => Action::Quit,
            Action::InsertCommand(s) => Action::InsertCommand(s.clone()),
            Action::QueueInput => Action::QueueInput,
        }
    }
}

/// The base key of a chord: a character (matched case-insensitively) or a named
/// key.
#[derive(Clone, Copy, Debug, PartialEq, Eq, Structural)]
pub enum ChordKey {
    Char(char),
    Named(NamedKey),
}

/// A key chord: a base key plus the modifiers that must be held. Only the named
/// modifiers are *required* — extra ones are ignored, matching the terminal
/// convention that Ctrl+Shift+X fires whether or not Alt is also down.
#[derive(Clone, Copy, Debug, PartialEq, Eq, Structural)]
pub struct Chord {
    pub ctrl: bool,
    pub shift: bool,
    pub alt: bool,
    pub key: ChordKey,
}

/// `c` in upper case, where it is an ASCII letter.
pub open spec fn ascii_upper(c: char) -> char {
    if 'a' <= c <= 'z' {
        ((c as u8 - 0x20) as u8) as char
    } else {
        c
    }
}

/// How a chord's key reads.
pub open spec fn key_hint(key: ChordKey) -> Seq<char> {
    match key {
        ChordKey::Char(c) => seq![ascii_upper(c)],
        ChordKey::Named(NamedKey::ArrowUp) => "Up"@,
        ChordKey::Named(NamedKey::ArrowDown) => "Down"@,
        ChordKey::Named(NamedKey::PageUp) => "PageUp"@,
        ChordKey::Named(NamedKey::PageDown) => "PageDown"@,
        ChordKey::Named(NamedKey::Enter) => "Enter"@,
        ChordKey::Named(_) => Seq::empty(),
    }
}

/// How a chord reads, e.g. `Ctrl+Shift+X`.
pub open spec fn chord_hint(c: Chord) -> Seq<char> {
    (if c.ctrl {
        "Ctrl+"@
    } else {
        Seq::empty()
    }) + (if c.shift {
        "Shift+"@
    } else {
        Seq::empty()
    }) + (if c.alt {
        "Alt+"@
    } else {
        Seq::empty()
    }) + key_hint(c.key)
}

/// Whether a key press with `mods` held satisfies the chord: its modifiers are
/// held, and its key is pressed, whatever the case.
pub open spec fn chord_fires(c: Chord, key: Key, mods: Modifiers) -> bool {
    &&& c.ctrl ==> mods.ctrl
    &&& c.shift ==> mods.shift
    &&& c.alt ==> mods.alt
    &&& match (c.key, key) {
        (ChordKey::Char(ch), Key::Character(s)) => s@.len() == 1 && ascii_lower(s@[0])
            == ascii_lower(ch),
        (ChordKey::Named(n), Key::Named(k)) => n == k && k != NamedKey::Other,
        _ => false,
    }
}

impl Chord {
    /// A chord of the given modifiers and key.
    pub fn new(ctrl: bool, shift: bool, alt: bool, key: ChordKey) -> (c: Self)
        ensures
            c == (Chord { ctrl, shift, alt, key }),
    {
        Chord { ctrl, shift, alt, key }
    }

    /// Whether a key press with `mods` held satisfies this chord.
    pub fn matches(&self, key: &Key, mods: Modifiers) -> (b: bool)
        ensures
            b == chord_fires(*self, *key, mods),
    {
        if (self.ctrl && !mods.ctrl) || (self.shift && !mods.shift) || (self.alt && !mods.alt) {
            return false;
        }
        match (self.key, key) {
            (ChordKey::Char(c), Key::Character(s)) => {
                let v = chars_of(s.as_str());
                v.len() == 1 && to_ascii_lower(v[0]) == to_ascii_lower(c)
            },
            (ChordKey::Named(n), Key::Named(k)) => n == *k && *k != NamedKey::Other,
            _ => false,
        }
    }

    /// A human-readable rendering, e.g. `Ctrl+Shift+X`. The palette shows this as
    /// each row's keybinding hint, so the hint is derived from the binding and
    /// can never drift from it.
    pub fn hint(&self) -> (s: String)
        ensures
            s@ == chord_hint(*self),
    {
        let mut s = String::new();
        if self.ctrl {
            s.append("Ctrl+");
        }
        if self.shift {
            s.append("Shift+");
        }
        if self.alt {
            s.append("Alt+");
        }
        match self.key {
            ChordKey::Char(c) => {
                let up = if 'a' <= c && c <= 'z' {
                    (c as u8 - 0x20) as char
                } else {
                    c
                };
                s.push(up);
            },
            ChordKey::Named(NamedKey::ArrowUp) => s.append("Up"),
            ChordKey::Named(NamedKey::ArrowDown) => s.append("Down"),
            ChordKey::Named(NamedKey::PageUp) => s.append("PageUp"),
            ChordKey::Named(NamedKey::PageDown) => s.append("PageDown"),
            ChordKey::Named(NamedKey::Enter) => s.append("Enter"),
            ChordKey::Named(_) => {},
        }
        proof {
            assert(s@ =~= chord_hint(*self));
        }
        s
    }
}

/// One command's full definition: the [`Action`] it runs, its default key chord
/// (if any), and its palette label (if it appears as a palette row). This is the
/// single command table — both the keymap and the palette are derived from it,
/// so a command added here is reachable both ways and the two can't diverge.
#[derive(Clone, Debug)]
pub struct Binding {
    pub action: Action,
    pub chord: Option<Chord>,
    pub label: Option<&'static str>,
}

/// A row of the command table.
pub ghost struct BindingView {
    pub action: ActionView,
    pub chord: Option<Chord>,
    pub label: Option<Seq<char>>,
}

impl Binding {
    pub open spec fn view(&self) -> BindingView {
        BindingView {
            action: self.action@,
            chord: self.chord,
            label: match self.label {
                Some(s) => Some(s@),
                None => None,
            },
        }
    }
}

/// Ctrl+Shift and a key.
pub open spec fn ctrl_shift(key: ChordKey) -> Option<Chord> {
    Some(Chord { ctrl: true, shift: true, alt: false, key })
}

/// Shift and a key.
pub open spec fn shift_only(key: ChordKey) -> Option<Chord> {
    Some(Chord { ctrl: false, shift: true, alt: false, key })
}

/// The command table.
pub open spec fn command_table() -> Seq<BindingView> {
    seq![
        BindingView { action: ActionView::OpenPalette, chord: ctrl_shift(ChordKey::Char('p')), label: None },
        BindingView {
            action: ActionView::SearchHistory,
            chord: ctrl_shift(ChordKey::Char('r')),
            label: Some("Search command history"@),
        },
        BindingView {
            action: ActionView::PrevBlock,
            chord: ctrl_shift(ChordKey::Named(NamedKey::ArrowUp)),
            label: Some("Jump to previous block"@),
        },
        BindingView {
            action: ActionView::NextBlock,
            chord: ctrl_shift(ChordKey::Named(NamedKey::ArrowDown)),
            label: Some("Jump to next block"@),
        },
        BindingView {
            action: ActionView::CopyBlock,
            chord: ctrl_shift(ChordKey::Char('x')),
            label: Some("Copy current block"@),
        },
        BindingView {
            action: ActionView::CopySelection,
            chord: ctrl_shift(ChordKey::Char('c')),
            label: Some("Copy selection"@),
        },
        BindingView { action: ActionView::Paste, chord: ctrl_shift(ChordKey::Char('v')), label: None },
        BindingView {
            action: ActionView::QueueInput,
            chord: ctrl_shift(ChordKey::Named(NamedKey::Enter)),
            label: Some("Add typed input to run next"@),
        },
        BindingView {
            action: ActionView::PageUp,
            chord: shift_only(ChordKey::Named(NamedKey::PageUp)),
            label: None,
        },
        BindingView {
            action: ActionView::PageDown,
            chord: shift_only(ChordKey::Named(NamedKey::PageDown)),
            label: None,
        },
        BindingView { action: ActionView::ScrollToTop, chord: None, label: Some("Scroll to top"@) },
        BindingView {
            action: ActionView::ScrollToBottom,
            chord: None,
            label: Some("Scroll to bottom"@),
        },
        BindingView { action: ActionView::Quit, chord: None, label: Some("Quit shelvd"@) },
    ]
}

/// Rows as views.
pub open spec fn binding_views(v: Seq<Binding>) -> Seq<BindingView> {
    v.map_values(|b: Binding| b@)
}

/// The command table. Order matters twice: the keymap takes the first chord that
/// matches, and the palette lists labelled rows in this order.
pub fn commands() -> (v: Vec<Binding>)
    ensures
        binding_views(v@) == command_table(),
{
    let cs = |key: ChordKey| -> (c: Option<Chord>)
        ensures
            c == ctrl_shift(key),
        { Some(Chord::new(true, true, false, key)) };
    let sh = |key: ChordKey| -> (c: Option<Chord>)
        ensures
            c == shift_only(key),
        { Some(Chord::new(false, true, false, key)) };
    let v: Vec<Binding> = vec![
        Binding { action: Action::OpenPalette, chord: cs(ChordKey::Char('p')), label: None },
        Binding {
            action: Action::SearchHistory,
            chord: cs(ChordKey::Char('r')),
            label: Some("Search command history"),
        },
        Binding {
            action: Action::PrevBlock,
            chord: cs(ChordKey::Named(NamedKey::ArrowUp)),
            label: Some("Jump to previous block"),
        },
        Binding {
            action: Action::NextBlock,
            chord: cs(ChordKey::Named(NamedKey::ArrowDown)),
            label: Some("Jump to next block"),
        },
        Binding {
            action: Action::CopyBlock,
            chord: cs(ChordKey::Char('x')),
            label: Some("Copy current block"),
        },
        Binding {
            action: Action::CopySelection,
            chord: cs(ChordKey::Char('c')),
            label: Some("Copy selection"),
        },
        Binding { action: Action::Paste, chord: cs(ChordKey::Char('v')), label: None },
        Binding {
            action: Action::QueueInput,
            chord: cs(ChordKey::Named(NamedKey::Enter)),
            label: Some("Add typed input to run next"),
        },
        Binding {
            action: Action::PageUp,
            chord: sh(ChordKey::Named(NamedKey::PageUp)),
            label: None,
        },
        Binding {
            action: Action::PageDown,
            chord: sh(ChordKey::Named(NamedKey::PageDown)),
            label: None,
        },
        Binding { action: Action::ScrollToTop, chord: None, label: Some("Scroll to top") },
        Binding { action: Action::ScrollToBottom, chord: None, label: Some("Scroll to bottom") },
        Binding { action: Action::Quit, chord: None, label: Some("Quit shelvd") },
    ];
    proof {
        assert(binding_views(v@) =~= command_table());
    }
    v
}

/// The command that the first chord satisfied by a key press runs, from row `i`
/// of the table on.
pub open spec fn bound_action(
    table: Seq<BindingView>,
    key: Key,
    mods: Modifiers,
    i: int,
) -> Option<ActionView>
    decreases table.len() - i,
{
    if i >= table.len() {
        None
    } else if table[i].chord matches Some(c) && chord_fires(c, key, mods) {
        Some(table[i].action)
    } else {
        bound_action(table, key, mods, i + 1)
    }
}

/// Resolve a key press to the [`Action`] it is bound to, if any. The single
/// keymap: every direct keybinding lives in [`commands`], the same table the
/// palette lists, so the two can never drift apart.
pub fn key_to_action(press: &KeyPress, mods: Modifiers) -> (a: Option<Action>)
    ensures
        match bound_action(command_table(), press.logical_key, mods, 0) {
            Some(want) => a.is_some() && a->0@ == want,
            None => a.is_none(),
        },
{
    let table = commands();
    let ghost t = command_table();
    let mut i: usize = 0;
    while i < table.len()
        invariant
            i <= table.len(),
            binding_views(table@) == t,
            t == command_table(),
            bound_action(t, press.logical_key, mods, 0) == bound_action(
                t,
                press.logical_key,
                mods,
                i as int,
            ),
        decreases table.len() - i,
    {
        proof {
            assert(t[i as int] == table@[i as int]@);
        }
        match &table[i].chord {
            Some(c) => {
                if c.matches(&press.logical_key, mods) {
                    return Some(table[i].action.copy());
                }
            },
            None => {},
        }
        i = i + 1;
    }
    None
}

/// Every chord needs Shift: no key press without it is bound, so Ctrl+C and its
/// like reach the program.
pub proof fn keys_without_shift_are_unbound(key: Key, mods: Modifiers)
    requires
        !mods.shift,
    ensures
        bound_action(command_table(), key, mods, 0).is_none(),
{
    unbound_from(key, mods, 0);
}

proof fn unbound_from(key: Key, mods: Modifiers, i: int)
    requires
        !mods.shift,
        0 <= i <= command_table().len(),
    ensures
        bound_action(command_table(), key, mods, i).is_none(),
    decreases command_table().len() - i,
{
    if i < command_table().len() {
        unbound_from(key, mods, i + 1);
        assert(command_table()[i].chord matches Some(c) ==> c.shift);
    }
}

/// The key of row `i`'s chord, where it has one; no two rows share a key.
pub open spec fn chord_key(i: int) -> Option<ChordKey> {
    match command_table()[i].chord {
        Some(c) => Some(c.key),
        None => None,
    }
}

proof fn keys_are_distinct(i: int, j: int)
    requires
        0 <= i < command_table().len(),
        0 <= j < command_table().len(),
        i != j,
        chord_key(i).is_some(),
        chord_key(j).is_some(),
    ensures
        chord_key(i) != chord_key(j),
        match (chord_key(i)->0, chord_key(j)->0) {
            (ChordKey::Char(a), ChordKey::Char(b)) => ascii_lower(a) != ascii_lower(b),
            _ => true,
        },
{
}

/// Every chord runs its own command: where row `i`'s chord is pressed, no other row
/// comes before it.
pub proof fn every_chord_runs_its_command(i: int, key: Key, mods: Modifiers)
    requires
        0 <= i < command_table().len(),
        command_table()[i].chord matches Some(c) && chord_fires(c, key, mods),
    ensures
        bound_action(command_table(), key, mods, 0) == Some(command_table()[i].action),
{
    found_from(i, key, mods, 0);
}

proof fn found_from(i: int, key: Key, mods: Modifiers, k: int)
    requires
        0 <= k <= i < command_table().len(),
        command_table()[i].chord matches Some(c) && chord_fires(c, key, mods),
    ensures
        bound_action(command_table(), key, mods, k) == Some(command_table()[i].action),
    decreases i - k,
{
    if k < i {
        found_from(i, key, mods, k + 1);
        if chord_key(k).is_some() {
            keys_are_distinct(i, k);
        }
    }
}

/// A chord fires whatever further modifiers are held, never without its own, and
/// whatever the case of its letter.
pub proof fn chords_need_their_modifiers_alone(c: Chord, key: Key, mods: Modifiers, more: Modifiers)
    requires
        chord_fires(c, key, mods),
        mods.ctrl ==> more.ctrl,
        mods.shift ==> more.shift,
        mods.alt ==> more.alt,
    ensures
        chord_fires(c, key, more),
        c.ctrl ==> mods.ctrl,
        c.shift ==> mods.shift,
        c.alt ==> mods.alt,
        c.key matches ChordKey::Char(ch) ==> chord_fires(
            Chord { key: ChordKey::Char(ascii_upper(ch)), ..c },
            key,
            mods,
        ),
{
}

/// A chord on a character fires for that character alone, in either case, and one on a
/// named key for that key alone.
pub proof fn chords_fire_on_their_key(c: Chord, ch: char, s: String, named: NamedKey, mods: Modifiers)
    requires
        c.ctrl ==> mods.ctrl,
        c.shift ==> mods.shift,
        c.alt ==> mods.alt,
    ensures
        c.key == ChordKey::Char(ch) && 'a' <= ch <= 'z' ==> (chord_fires(c, Key::Character(s), mods) <==> (
        s@.len() == 1 && (s@[0] == ch || s@[0] as int + 0x20 == ch as int))),
        c.key == ChordKey::Char(ch) ==> !chord_fires(c, Key::Named(named), mods),
        c.key matches ChordKey::Named(k) ==> (chord_fires(c, Key::Named(named), mods) <==> named == k && k
            != NamedKey::Other),
        c.key is Named ==> !chord_fires(c, Key::Character(s), mods),
        !chord_fires(c, Key::Unidentified, mods),
{
}


/// With Ctrl and Shift, five letters run a command, in either case: `P` opens the
/// palette, `R` searches history, `X` copies the block, `C` the selection, and `V`
/// pastes. No other character does, and none without both.
pub proof fn letters_run_their_command(s: String, mods: Modifiers)
    requires
        s@.len() == 1,
    ensures
        ({
            let both = mods.ctrl && mods.shift;
            let c = s@[0];
            bound_action(command_table(), Key::Character(s), mods, 0) == if !both {
                None
            } else if c == 'p' || c == 'P' {
                Some(ActionView::OpenPalette)
            } else if c == 'r' || c == 'R' {
                Some(ActionView::SearchHistory)
            } else if c == 'x' || c == 'X' {
                Some(ActionView::CopyBlock)
            } else if c == 'c' || c == 'C' {
                Some(ActionView::CopySelection)
            } else if c == 'v' || c == 'V' {
                Some(ActionView::Paste)
            } else {
                None
            }
        }),
{
    reveal_with_fuel(bound_action, 15);
}

/// With Ctrl and Shift, the vertical arrows jump between blocks and Enter queues what is
/// typed; with Shift, the page keys scroll by a page. No other named key runs a command.
pub proof fn named_keys_run_their_command(key: NamedKey, mods: Modifiers)
    ensures
        bound_action(command_table(), Key::Named(key), mods, 0) == if !mods.shift {
            None
        } else if key == NamedKey::PageUp {
            Some(ActionView::PageUp)
        } else if key == NamedKey::PageDown {
            Some(ActionView::PageDown)
        } else if mods.ctrl && key == NamedKey::ArrowUp {
            Some(ActionView::PrevBlock)
        } else if mods.ctrl && key == NamedKey::ArrowDown {
            Some(ActionView::NextBlock)
        } else if mods.ctrl && key == NamedKey::Enter {
            Some(ActionView::QueueInput)
        } else {
            None::<ActionView>
        },
{
    reveal_with_fuel(bound_action, 15);
}

/// A press that is no single character runs no command.
pub proof fn other_presses_run_nothing(s: String, mods: Modifiers)
    ensures
        s@.len() != 1 ==> bound_action(command_table(), Key::Character(s), mods, 0).is_none(),
        bound_action(command_table(), Key::Unidentified, mods, 0).is_none(),
{
    reveal_with_fuel(bound_action, 15);
}

/// A chord's hint names its modifiers in the order Ctrl, Shift, Alt, each with a plus
/// behind it, and then its key; a letter is shown in upper case.
pub proof fn hints_name_the_modifiers(c: Chord, ch: char)
    ensures
        chord_hint(Chord { ctrl: true, ..c }) == "Ctrl+"@ + chord_hint(Chord { ctrl: false, ..c }),
        chord_hint(Chord { ctrl: false, shift: true, ..c }) == "Shift+"@ + chord_hint(
            Chord { ctrl: false, shift: false, ..c },
        ),
        chord_hint(Chord { ctrl: false, shift: false, alt: true, ..c }) == "Alt+"@ + key_hint(c.key),
        chord_hint(Chord { ctrl: false, shift: false, alt: false, ..c }) == key_hint(c.key),
        'a' <= ch <= 'z' ==> key_hint(ChordKey::Char(ch)).len() == 1 && key_hint(ChordKey::Char(ch))[0] as int
            + 0x20 == ch as int,
        !('a' <= ch <= 'z') ==> key_hint(ChordKey::Char(ch)) == seq![ch],
{
    let k = key_hint(c.key);
    assert(chord_hint(Chord { ctrl: true, ..c }) =~= "Ctrl+"@ + chord_hint(Chord { ctrl: false, ..c }));
    assert(chord_hint(Chord { ctrl: false, shift: true, ..c }) =~= "Shift+"@ + chord_hint(
        Chord { ctrl: false, shift: false, ..c },
    ));
    assert(chord_hint(Chord { ctrl: false, shift: false, alt: true, ..c }) =~= "Alt+"@ + k);
    assert(chord_hint(Chord { ctrl: false, shift: false, alt: false, ..c }) =~= k);
}

/// Every command but the one that opens the palette, pasting and paging has a row there;
/// scrolling to either end and quitting are reached from there alone.
pub proof fn labelled_commands_are_in_the_palette(i: int)
    requires
        0 <= i < command_table().len(),
    ensures
        ({
            let b = command_table()[i];
            &&& b.label.is_none() <==> b.action is OpenPalette || b.action is Paste || b.action is PageUp
                || b.action is PageDown
            &&& b.chord.is_none() <==> b.action is ScrollToTop || b.action is ScrollToBottom || b.action is Quit
        }),
{
}

} // verus!
