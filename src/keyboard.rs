use vstd::prelude::*;

use crate::commands::{frames_view, Key, KeyFrame, KeyView};
use crate::diagram::{
    animation_entries, animation_entries_of, frames_hold_shift, frames_hold_shift_of, holds_shift,
    keys_hold_shift, keys_view, legend_entries, legend_entries_of, lines_view, render_layout,
    render_lines, span_text, KeyStyle, StyledSpan, lemma_unpressed_lines_plain,
};
use crate::text::lower_of;

verus! {

/// Where a key sits on the keyboard diagram.
#[derive(Debug, Clone, Copy)]
pub struct KeyPosition {
    pub row: usize,
    pub col: usize,
    pub width: usize,
}

/// A row of the position table.
pub open spec fn slot(label: Seq<char>, row: usize, col: usize, width: usize) -> (Seq<char>, KeyPosition) {
    (label, KeyPosition { row, col, width })
}

/// The keys of the diagram and their positions, row by row.
pub open spec fn layout_slots() -> Seq<(Seq<char>, KeyPosition)> {
    seq![
        slot("Esc"@, 0, 1, 3),
        slot("F1"@, 0, 6, 2),
        slot("F2"@, 0, 9, 2),
        slot("F3"@, 0, 12, 2),
        slot("F4"@, 0, 15, 2),
        slot("F5"@, 0, 19, 2),
        slot("F6"@, 0, 22, 2),
        slot("F7"@, 0, 25, 2),
        slot("F8"@, 0, 28, 2),
        slot("F9"@, 0, 32, 2),
        slot("F10"@, 0, 35, 3),
        slot("F11"@, 0, 39, 3),
        slot("F12"@, 0, 43, 3),
        slot("`"@, 1, 1, 1),
        slot("1"@, 1, 5, 1),
        slot("2"@, 1, 9, 1),
        slot("3"@, 1, 13, 1),
        slot("4"@, 1, 17, 1),
        slot("5"@, 1, 21, 1),
        slot("6"@, 1, 25, 1),
        slot("7"@, 1, 29, 1),
        slot("8"@, 1, 33, 1),
        slot("9"@, 1, 37, 1),
        slot("0"@, 1, 41, 1),
        slot("-"@, 1, 45, 1),
        slot("="@, 1, 49, 1),
        slot("Backsp"@, 1, 53, 6),
        slot("Tab"@, 2, 1, 3),
        slot("q"@, 2, 7, 1),
        slot("w"@, 2, 11, 1),
        slot("e"@, 2, 15, 1),
        slot("r"@, 2, 19, 1),
        slot("t"@, 2, 23, 1),
        slot("y"@, 2, 27, 1),
        slot("u"@, 2, 31, 1),
        slot("i"@, 2, 35, 1),
        slot("o"@, 2, 39, 1),
        slot("p"@, 2, 43, 1),
        slot("["@, 2, 47, 1),
        slot("]"@, 2, 51, 1),
        slot("\\"@, 2, 55, 1),
        slot("Ctrl"@, 3, 1, 4),
        slot("a"@, 3, 8, 1),
        slot("s"@, 3, 12, 1),
        slot("d"@, 3, 16, 1),
        slot("f"@, 3, 20, 1),
        slot("g"@, 3, 24, 1),
        slot("h"@, 3, 28, 1),
        slot("j"@, 3, 32, 1),
        slot("k"@, 3, 36, 1),
        slot("l"@, 3, 40, 1),
        slot(";"@, 3, 44, 1),
        slot("'"@, 3, 48, 1),
        slot("Enter"@, 3, 52, 5),
        slot("Shift"@, 4, 1, 5),
        slot("z"@, 4, 9, 1),
        slot("x"@, 4, 13, 1),
        slot("c"@, 4, 17, 1),
        slot("v"@, 4, 21, 1),
        slot("b"@, 4, 25, 1),
        slot("n"@, 4, 29, 1),
        slot("m"@, 4, 33, 1),
        slot(","@, 4, 37, 1),
        slot("."@, 4, 41, 1),
        slot("/"@, 4, 45, 1),
        slot("RShift"@, 4, 49, 6),
        slot("LCtrl"@, 5, 1, 4),
        slot("Super"@, 5, 6, 3),
        slot("Alt"@, 5, 10, 3),
        slot("Space"@, 5, 14, 23),
        slot("RAlt"@, 5, 38, 3),
        slot("Fn"@, 5, 42, 2),
        slot("Menu"@, 5, 45, 4),
        slot("RCtrl"@, 5, 50, 4),
    ]
}

/// Some key of `table` is named `label`.
pub open spec fn has_label(table: Seq<(Seq<char>, KeyPosition)>, label: Seq<char>) -> bool {
    exists|i: int| 0 <= i < table.len() && (#[trigger] table[i]).0 == label
}

/// No two keys of `table` share a name.
pub open spec fn labels_distinct(table: Seq<(Seq<char>, KeyPosition)>) -> bool {
    forall|i: int, j: int|
        0 <= i < j < table.len() ==> (#[trigger] table[i]).0 != (#[trigger] table[j]).0
}

/// The slots in order, each name kept at its first position.
pub open spec fn first_slots(slots: Seq<(Seq<char>, KeyPosition)>) -> Seq<(Seq<char>, KeyPosition)>
    decreases slots.len(),
{
    if slots.len() == 0 {
        Seq::empty()
    } else {
        let front = first_slots(slots.drop_last());
        if has_label(front, slots.last().0) {
            front
        } else {
            front.push(slots.last())
        }
    }
}

/// The position table of the diagram: its slots, one per key name.
pub open spec fn key_table() -> Seq<(Seq<char>, KeyPosition)> {
    first_slots(layout_slots())
}

/// Position of the first key of `table` named `name`.
pub open spec fn find_position(table: Seq<(Seq<char>, KeyPosition)>, name: Seq<char>) -> Option<KeyPosition>
    decreases table.len(),
{
    if table.len() == 0 {
        None
    } else if table[0].0 == name {
        Some(table[0].1)
    } else {
        find_position(table.drop_first(), name)
    }
}

/// Position of a key looked up by its lower-cased name, then by its name as given.
pub open spec fn position_of(table: Seq<(Seq<char>, KeyPosition)>, key: Seq<char>) -> Option<KeyPosition> {
    match find_position(table, lower_of(key)) {
        Some(p) => Some(p),
        None => find_position(table, key),
    }
}

/// The rows of the diagram with nothing pressed and no Shift held.
pub open spec fn base_layout() -> Seq<Seq<char>> {
    seq![
        "┌───┬──┬──┬──┬──┬───┬──┬──┬──┬───┬───┬───┬───┐"@,
        "│Esc│F1│F2│F3│F4│ F5│F6│F7│F8│ F9│F10│F11│F12│"@,
        "├───┴┬─┴┬─┴┬─┴┬─┴┬─┴┬─┴┬─┴┬─┴┬─┴┬─┴┬─┴┬─┴┬───┤"@,
        "│ `  │1 │2 │3 │4 │5 │6 │7 │8 │9 │0 │- │= │Bsp│"@,
        "├────┴┬─┴┬─┴┬─┴┬─┴┬─┴┬─┴┬─┴┬─┴┬─┴┬─┴┬─┴┬─┴┬──┤"@,
        "│Tab  │q │w │e │r │t │y │u │i │o │p │[ │] │\\ │"@,
        "├─────┴┬─┴┬─┴┬─┴┬─┴┬─┴┬─┴┬─┴┬─┴┬─┴┬─┴┬─┴┬─┴──┤"@,
        "│Ctrl  │a │s │d │f │g │h │j │k │l │; │' │Ent │"@,
        "├──────┴┬─┴┬─┴┬─┴┬─┴┬─┴┬─┴┬─┴┬─┴┬─┴┬─┴┬─┴────┤"@,
        "│Shift  │z │x │c │v │b │n │m │, │. │/ │Shift │"@,
        "├────┬──┴┬─┴──┴──┴──┴──┴──┴──┴┬─┴─┬┴──┬───┬──┤"@,
        "│Ctrl│Sup│Alt │     Space     │Alt│Fn │Mnu│Ct│"@,
        "└────┴───┴────┴───────────────┴───┴───┴───┴──┘"@,
    ]
}

/// With no frame to show (animation) or no frames at all (legend), the
/// diagram is the whole layout, every span neutral.
pub proof fn lemma_no_frames_plain_layout(keys: Seq<KeyView>, frames: Seq<Seq<KeyView>>)
    requires
        keys.len() == 0,
        frames.len() == 0,
    ensures
        render_lines(base_layout(), holds_shift(keys), animation_entries(keys)) == render_lines(
            base_layout(),
            false,
            Seq::empty(),
        ),
        render_lines(base_layout(), frames_hold_shift(frames), legend_entries(frames))
            == render_lines(base_layout(), false, Seq::empty()),
        render_lines(base_layout(), false, Seq::empty()).len() == base_layout().len(),
        forall|k: int|
            0 <= k < base_layout().len() ==> span_text(
                #[trigger] render_lines(base_layout(), false, Seq::empty())[k],
            ) == base_layout()[k],
        forall|k: int, j: int|
            0 <= k < base_layout().len() && 0 <= j < render_lines(
                base_layout(),
                false,
                Seq::empty(),
            )[k].len() ==> (#[trigger] render_lines(base_layout(), false, Seq::empty())[k][j]).1
                == KeyStyle::Neutral,
{
    assert(animation_entries(keys) =~= Seq::empty());
    assert(legend_entries(frames) =~= Seq::empty());
    lemma_unpressed_lines_plain(base_layout());
}

/// ASCII keyboard layout with key positions.
pub struct Keyboard {
    key_positions: Vec<(&'static str, KeyPosition)>,
}

impl Default for Keyboard {
    fn default() -> (kb: Self)
        ensures
            kb.positions() == key_table(),
            labels_distinct(kb.positions()),
    {
        Self::new()
    }
}

impl Keyboard {
    /// The position table, as labels and positions.
    pub closed spec fn positions(&self) -> Seq<(Seq<char>, KeyPosition)> {
        self.key_positions@.map_values(|e: (&'static str, KeyPosition)| (e.0@, e.1))
    }

    pub fn new() -> (kb: Self)
        ensures
            kb.positions() == key_table(),
            labels_distinct(kb.positions()),
    {
        let mut slots: Vec<(&'static str, KeyPosition)> = Vec::new();
        slots.push(("Esc", KeyPosition { row: 0, col: 1, width: 3 }));
        slots.push(("F1", KeyPosition { row: 0, col: 6, width: 2 }));
        slots.push(("F2", KeyPosition { row: 0, col: 9, width: 2 }));
        slots.push(("F3", KeyPosition { row: 0, col: 12, width: 2 }));
        slots.push(("F4", KeyPosition { row: 0, col: 15, width: 2 }));
        slots.push(("F5", KeyPosition { row: 0, col: 19, width: 2 }));
        slots.push(("F6", KeyPosition { row: 0, col: 22, width: 2 }));
        slots.push(("F7", KeyPosition { row: 0, col: 25, width: 2 }));
        slots.push(("F8", KeyPosition { row: 0, col: 28, width: 2 }));
        slots.push(("F9", KeyPosition { row: 0, col: 32, width: 2 }));
        slots.push(("F10", KeyPosition { row: 0, col: 35, width: 3 }));
        slots.push(("F11", KeyPosition { row: 0, col: 39, width: 3 }));
        slots.push(("F12", KeyPosition { row: 0, col: 43, width: 3 }));
        slots.push(("`", KeyPosition { row: 1, col: 1, width: 1 }));
        slots.push(("1", KeyPosition { row: 1, col: 5, width: 1 }));
        slots.push(("2", KeyPosition { row: 1, col: 9, width: 1 }));
        slots.push(("3", KeyPosition { row: 1, col: 13, width: 1 }));
        slots.push(("4", KeyPosition { row: 1, col: 17, width: 1 }));
        slots.push(("5", KeyPosition { row: 1, col: 21, width: 1 }));
        slots.push(("6", KeyPosition { row: 1, col: 25, width: 1 }));
        slots.push(("7", KeyPosition { row: 1, col: 29, width: 1 }));
        slots.push(("8", KeyPosition { row: 1, col: 33, width: 1 }));
        slots.push(("9", KeyPosition { row: 1, col: 37, width: 1 }));
        slots.push(("0", KeyPosition { row: 1, col: 41, width: 1 }));
        slots.push(("-", KeyPosition { row: 1, col: 45, width: 1 }));
        slots.push(("=", KeyPosition { row: 1, col: 49, width: 1 }));
        slots.push(("Backsp", KeyPosition { row: 1, col: 53, width: 6 }));
        slots.push(("Tab", KeyPosition { row: 2, col: 1, width: 3 }));
        slots.push(("q", KeyPosition { row: 2, col: 7, width: 1 }));
        slots.push(("w", KeyPosition { row: 2, col: 11, width: 1 }));
        slots.push(("e", KeyPosition { row: 2, col: 15, width: 1 }));
        slots.push(("r", KeyPosition { row: 2, col: 19, width: 1 }));
        slots.push(("t", KeyPosition { row: 2, col: 23, width: 1 }));
        slots.push(("y", KeyPosition { row: 2, col: 27, width: 1 }));
        slots.push(("u", KeyPosition { row: 2, col: 31, width: 1 }));
        slots.push(("i", KeyPosition { row: 2, col: 35, width: 1 }));
        slots.push(("o", KeyPosition { row: 2, col: 39, width: 1 }));
        slots.push(("p", KeyPosition { row: 2, col: 43, width: 1 }));
        slots.push(("[", KeyPosition { row: 2, col: 47, width: 1 }));
        slots.push(("]", KeyPosition { row: 2, col: 51, width: 1 }));
        slots.push(("\\", KeyPosition { row: 2, col: 55, width: 1 }));
        slots.push(("Ctrl", KeyPosition { row: 3, col: 1, width: 4 }));
        slots.push(("a", KeyPosition { row: 3, col: 8, width: 1 }));
        slots.push(("s", KeyPosition { row: 3, col: 12, width: 1 }));
        slots.push(("d", KeyPosition { row: 3, col: 16, width: 1 }));
        slots.push(("f", KeyPosition { row: 3, col: 20, width: 1 }));
        slots.push(("g", KeyPosition { row: 3, col: 24, width: 1 }));
        slots.push(("h", KeyPosition { row: 3, col: 28, width: 1 }));
        slots.push(("j", KeyPosition { row: 3, col: 32, width: 1 }));
        slots.push(("k", KeyPosition { row: 3, col: 36, width: 1 }));
        slots.push(("l", KeyPosition { row: 3, col: 40, width: 1 }));
        slots.push((";", KeyPosition { row: 3, col: 44, width: 1 }));
        slots.push(("'", KeyPosition { row: 3, col: 48, width: 1 }));
        slots.push(("Enter", KeyPosition { row: 3, col: 52, width: 5 }));
        slots.push(("Shift", KeyPosition { row: 4, col: 1, width: 5 }));
        slots.push(("z", KeyPosition { row: 4, col: 9, width: 1 }));
        slots.push(("x", KeyPosition { row: 4, col: 13, width: 1 }));
        slots.push(("c", KeyPosition { row: 4, col: 17, width: 1 }));
        slots.push(("v", KeyPosition { row: 4, col: 21, width: 1 }));
        slots.push(("b", KeyPosition { row: 4, col: 25, width: 1 }));
        slots.push(("n", KeyPosition { row: 4, col: 29, width: 1 }));
        slots.push(("m", KeyPosition { row: 4, col: 33, width: 1 }));
        slots.push((",", KeyPosition { row: 4, col: 37, width: 1 }));
        slots.push((".", KeyPosition { row: 4, col: 41, width: 1 }));
        slots.push(("/", KeyPosition { row: 4, col: 45, width: 1 }));
        slots.push(("RShift", KeyPosition { row: 4, col: 49, width: 6 }));
        slots.push(("LCtrl", KeyPosition { row: 5, col: 1, width: 4 }));
        slots.push(("Super", KeyPosition { row: 5, col: 6, width: 3 }));
        slots.push(("Alt", KeyPosition { row: 5, col: 10, width: 3 }));
        slots.push(("Space", KeyPosition { row: 5, col: 14, width: 23 }));
        slots.push(("RAlt", KeyPosition { row: 5, col: 38, width: 3 }));
        slots.push(("Fn", KeyPosition { row: 5, col: 42, width: 2 }));
        slots.push(("Menu", KeyPosition { row: 5, col: 45, width: 4 }));
        slots.push(("RCtrl", KeyPosition { row: 5, col: 50, width: 4 }));
        let ghost slots_view = slots@.map_values(|e: (&'static str, KeyPosition)| (e.0@, e.1));
        assert(slots_view =~= layout_slots());
        let mut positions: Vec<(&'static str, KeyPosition)> = Vec::new();
        let mut i: usize = 0;
        while i < slots.len()
            invariant
                slots_view == slots@.map_values(|e: (&'static str, KeyPosition)| (e.0@, e.1)),
                i <= slots@.len(),
                positions@.map_values(|e: (&'static str, KeyPosition)| (e.0@, e.1)) == first_slots(
                    slots_view.take(i as int),
                ),
                labels_distinct(
                    positions@.map_values(|e: (&'static str, KeyPosition)| (e.0@, e.1)),
                ),
            decreases slots.len() - i,
        {
            let ghost before = positions@.map_values(
                |e: (&'static str, KeyPosition)| (e.0@, e.1),
            );
            let entry = slots[i];
            assert(slots_view.take(i + 1).drop_last() =~= slots_view.take(i as int));
            assert(slots_view.take(i + 1).last() == (entry.0@, entry.1));
            let mut k: usize = 0;
            let mut found = false;
            while k < positions.len() && !found
                invariant
                    before == positions@.map_values(|e: (&'static str, KeyPosition)| (e.0@, e.1)),
                    k <= positions@.len(),
                    found ==> has_label(before, entry.0@),
                    !found ==> forall|j: int| 0 <= j < k ==> (#[trigger] before[j]).0 != entry.0@,
                decreases positions.len() - k, if found { 0int } else { 1int },
            {
                if crate::text::same_text(positions[k].0, entry.0) {
                    assert(before[k as int].0 == entry.0@);
                    found = true;
                } else {
                    k = k + 1;
                }
            }
            if !found {
                positions.push(entry);
                assert(positions@.map_values(|e: (&'static str, KeyPosition)| (e.0@, e.1))
                    =~= before.push((entry.0@, entry.1)));
            }
            i = i + 1;
        }
        assert(slots_view.take(i as int) =~= slots_view);
        let kb = Self { key_positions: positions };
        kb
    }

    /// The rows of the diagram with nothing pressed and no Shift held.
    pub fn get_layout_lines(&self) -> (lines: Vec<&'static str>)
        ensures
            lines@.map_values(|l: &'static str| l@) == base_layout(),
    {
        let lines = vec![
            "┌───┬──┬──┬──┬──┬───┬──┬──┬──┬───┬───┬───┬───┐",
            "│Esc│F1│F2│F3│F4│ F5│F6│F7│F8│ F9│F10│F11│F12│",
            "├───┴┬─┴┬─┴┬─┴┬─┴┬─┴┬─┴┬─┴┬─┴┬─┴┬─┴┬─┴┬─┴┬───┤",
            "│ `  │1 │2 │3 │4 │5 │6 │7 │8 │9 │0 │- │= │Bsp│",
            "├────┴┬─┴┬─┴┬─┴┬─┴┬─┴┬─┴┬─┴┬─┴┬─┴┬─┴┬─┴┬─┴┬──┤",
            "│Tab  │q │w │e │r │t │y │u │i │o │p │[ │] │\\ │",
            "├─────┴┬─┴┬─┴┬─┴┬─┴┬─┴┬─┴┬─┴┬─┴┬─┴┬─┴┬─┴┬─┴──┤",
            "│Ctrl  │a │s │d │f │g │h │j │k │l │; │' │Ent │",
            "├──────┴┬─┴┬─┴┬─┴┬─┴┬─┴┬─┴┬─┴┬─┴┬─┴┬─┴┬─┴────┤",
            "│Shift  │z │x │c │v │b │n │m │, │. │/ │Shift │",
            "├────┬──┴┬─┴──┴──┴──┴──┴──┴──┴┬─┴─┬┴──┬───┬──┤",
            "│Ctrl│Sup│Alt │     Space     │Alt│Fn │Mnu│Ct│",
            "└────┴───┴────┴───────────────┴───┴───┴───┴──┘",
        ];
        assert(lines@.map_values(|l: &'static str| l@) =~= base_layout());
        lines
    }

    /// Animation mode: the diagram with the keys of one frame highlighted;
    /// leader, modifiers and other keys each in their own style. One-character
    /// labels show their shifted glyph when the frame holds Shift.
    pub fn render(&self, keys: &[Key]) -> (lines: Vec<Vec<StyledSpan>>)
        ensures
            lines_view(lines@) == render_lines(
                base_layout(),
                holds_shift(keys_view(keys@)),
                animation_entries(keys_view(keys@)),
            ),
    {
        let layout = self.get_layout_lines();
        let entries = animation_entries_of(keys);
        let shifted = keys_hold_shift(keys);
        render_layout(&layout, shifted, &entries)
    }

    /// Legend mode: the diagram with the keys of every frame in the palette
    /// color of their frame. One-character labels show their shifted glyph
    /// when some frame holds Shift.
    pub fn render_legend(&self, frames: &[KeyFrame]) -> (lines: Vec<Vec<StyledSpan>>)
        ensures
            lines_view(lines@) == render_lines(
                base_layout(),
                frames_hold_shift(frames_view(frames@)),
                legend_entries(frames_view(frames@)),
            ),
    {
        let layout = self.get_layout_lines();
        let entries = legend_entries_of(frames);
        let shifted = frames_hold_shift_of(frames);
        render_layout(&layout, shifted, &entries)
    }

    fn find(&self, name: &str) -> (r: Option<&KeyPosition>)
        ensures
            r is Some <==> find_position(self.positions(), name@) is Some,
            r is Some ==> *r->0 == find_position(self.positions(), name@)->0,
    {
        let mut i: usize = 0;
        assert(self.positions().skip(0) =~= self.positions());
        while i < self.key_positions.len()
            invariant
                i <= self.positions().len(),
                self.positions().len() == self.key_positions@.len(),
                find_position(self.positions(), name@) == find_position(
                    self.positions().skip(i as int),
                    name@,
                ),
            decreases self.key_positions.len() - i,
        {
            let entry = &self.key_positions[i];
            assert(self.positions().skip(i as int)[0] == (entry.0@, entry.1));
            if crate::text::same_text(entry.0, name) {
                return Some(&entry.1);
            }
            assert(self.positions().skip(i as int).drop_first() =~= self.positions().skip(i + 1));
            i = i + 1;
        }
        None
    }

    /// Position of a key by name: its lower-cased name first, then the name
    /// as given.
    pub fn get_key_position(&self, key: &str) -> (r: Option<&KeyPosition>)
        ensures
            r is Some <==> position_of(self.positions(), key@) is Some,
            r is Some ==> *r->0 == position_of(self.positions(), key@)->0,
    {
        let lower = crate::text::lowercase(key);
        match self.find(lower.as_str()) {
            Some(p) => Some(p),
            None => self.find(key),
        }
    }
}

} // verus!
