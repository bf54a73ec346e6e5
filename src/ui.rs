use vstd::prelude::*;

use crate::commands::{frames_view, parse_notation, Command, Key, KeyView};
use crate::diagram::{
    animation_entries, frames_hold_shift, holds_shift, legend_bar, legend_entries, legend_spans,
    lines_view, render_lines, spans_view, StyledSpan,
};
use crate::keyboard::{base_layout, Keyboard};
use crate::search::{is_ranking, SearchEngine};
use crate::sequencer::{after_tick, FrameSequencer};
use crate::text::{pop_char, push_char};

verus! {

/// Which of the two diagrams is shown.
#[derive(Debug, Clone, Copy, PartialEq, Eq, Structural)]
pub enum ViewMode {
    /// One frame at a time, advancing on a timer.
    Animation,
    /// All frames at once, one color per frame.
    Legend,
}

impl Default for ViewMode {
    fn default() -> (m: ViewMode)
        ensures
            m == ViewMode::Animation,
    {
        ViewMode::Animation
    }
}

/// The other view mode.
pub open spec fn toggled(m: ViewMode) -> ViewMode {
    match m {
        ViewMode::Animation => ViewMode::Legend,
        ViewMode::Legend => ViewMode::Animation,
    }
}

impl ViewMode {
    pub fn toggle(&mut self)
        ensures
            *final(self) == toggled(*old(self)),
    {
        *self = match self {
            ViewMode::Animation => ViewMode::Legend,
            ViewMode::Legend => ViewMode::Animation,
        };
    }
}

/// A key press, as the controller sees it.
#[derive(Debug, Clone, Copy, PartialEq, Eq, Structural)]
pub enum InputKey {
    Esc,
    Char(char),
    Backspace,
    Up,
    Down,
    Tab,
    BackTab,
    Other,
}

/// First and one-past-last result drawn in a list of `height` rows: as many
/// results as fit (the smaller of `height` and `count`), starting `height / 2`
/// rows above the selection where the list allows it, never before the first
/// result nor past `count - height`.
pub open spec fn visible_window(selected: int, count: int, height: int) -> (int, int) {
    let len = if height < count {
        height
    } else {
        count
    };
    let centered = selected - height / 2;
    let start = if height == 0 || centered < 0 {
        0
    } else if centered > count - len {
        count - len
    } else {
        centered
    };
    (start, start + len)
}

/// Rows of the results list to draw.
pub fn visible_range(selected: usize, count: usize, height: usize) -> (r: (usize, usize))
    ensures
        (r.0 as int, r.1 as int) == visible_window(selected as int, count as int, height as int),
        r.1 - r.0 == if height < count {
            height
        } else {
            count
        },
        height > 0 && selected < count ==> r.0 <= selected < r.1,
        count > height ==> r.0 <= count - height,
        count <= height ==> r.0 == 0,
{
    let mut start: usize = 0;
    if height > 0 && count > height {
        let half = height / 2;
        if selected > half {
            start = selected - half;
        }
        let max_start = count - height;
        if start > max_start {
            start = max_start;
        }
    }
    let end = if height == 0 {
        start
    } else if start + height < count {
        start + height
    } else {
        count
    };
    (start, end)
}

/// The controller: query, results, selection, animation and view mode.
pub struct App {
    pub query: String,
    pub commands: Vec<Command>,
    pub filtered_results: Vec<usize>,
    pub selected_index: usize,
    pub search_engine: SearchEngine,
    pub keyboard: Keyboard,
    pub should_quit: bool,
    pub animation: FrameSequencer,
    pub last_selected: Option<usize>,
    pub view_mode: ViewMode,
}

impl App {
    /// Results point into the catalog and the selection into the results.
    pub open spec fn wf(&self) -> bool {
        &&& forall|k: int|
            0 <= k < self.filtered_results@.len() ==> #[trigger] self.filtered_results@[k]
                < self.commands@.len()
        &&& (self.selected_index == 0 || self.selected_index < self.filtered_results@.len())
    }

    /// Catalog index of the selected result, if any.
    pub open spec fn selection(&self) -> Option<usize> {
        if self.selected_index < self.filtered_results@.len() {
            Some(self.filtered_results@[self.selected_index as int])
        } else {
            None
        }
    }

    /// Frames of the selected shortcut; none without a selection.
    pub open spec fn selected_frames(&self) -> Seq<Seq<KeyView>> {
        match self.selection() {
            Some(i) => parse_notation(self.commands@[i as int].keys@),
            None => Seq::empty(),
        }
    }

    /// The animation starts over on the selected shortcut.
    pub open spec fn animation_reset(&self) -> bool {
        &&& self.animation.frames_spec() == self.selected_frames()
        &&& self.animation.index_spec() == 0
        &&& self.animation.elapsed_spec() == 0
        &&& self.last_selected == self.selection()
    }

    /// The results are the ranking of the catalog for the query, the first
    /// one selected, the animation started over on it.
    pub open spec fn shows_search(&self) -> bool {
        &&& exists|r: Seq<(usize, i64)>|
            is_ranking(self.commands@, self.query@, r) && self.filtered_results@ == r.map_values(
                |p: (usize, i64)| p.0,
            )
        &&& self.selected_index == 0
        &&& self.animation_reset()
    }

    /// Keys of the frame shown now; none when there is no frame.
    pub open spec fn current_keys(&self) -> Seq<KeyView> {
        if self.animation.frames_spec().len() > 0 {
            self.animation.frames_spec()[self.animation.index_spec() as int]
        } else {
            Seq::empty()
        }
    }

    /// Every catalog item listed, nothing selected yet.
    pub fn new(commands: Vec<Command>) -> (app: Self)
        ensures
            app.wf(),
            app.query@.len() == 0,
            app.commands@ == commands@,
            app.filtered_results@.len() == commands@.len(),
            forall|k: int| 0 <= k < commands@.len() ==> #[trigger] app.filtered_results@[k] == k,
            app.selected_index == 0,
            !app.should_quit,
            app.animation.frames_spec().len() == 0,
            app.last_selected is None,
            app.view_mode == ViewMode::Animation,
    {
        let mut filtered_results: Vec<usize> = Vec::new();
        let mut i: usize = 0;
        while i < commands.len()
            invariant
                i <= commands@.len(),
                filtered_results@.len() == i,
                forall|k: int| 0 <= k < i ==> #[trigger] filtered_results@[k] == k,
            decreases commands.len() - i,
        {
            filtered_results.push(i);
            i = i + 1;
        }
        Self {
            query: String::new(),
            commands,
            filtered_results,
            selected_index: 0,
            search_engine: SearchEngine::new(),
            keyboard: Keyboard::new(),
            should_quit: false,
            animation: FrameSequencer::new(),
            last_selected: None,
            view_mode: ViewMode::default(),
        }
    }

    /// Whether the results point into the catalog and the selection into
    /// the results.
    pub fn is_consistent(&self) -> (r: bool)
        ensures
            r == self.wf(),
    {
        let mut k: usize = 0;
        while k < self.filtered_results.len()
            invariant
                k <= self.filtered_results@.len(),
                forall|j: int| 0 <= j < k ==> #[trigger] self.filtered_results@[j] < self.commands@.len(),
            decreases self.filtered_results.len() - k,
        {
            if self.filtered_results[k] >= self.commands.len() {
                return false;
            }
            k = k + 1;
        }
        self.selected_index == 0 || self.selected_index < self.filtered_results.len()
    }

    /// Catalog index of the selected result, if any.
    fn selected_position(&self) -> (r: Option<usize>)
        ensures
            r == self.selection(),
    {
        if self.selected_index < self.filtered_results.len() {
            Some(self.filtered_results[self.selected_index])
        } else {
            None
        }
    }

    /// Ranks the catalog for the query and selects the first result.
    pub fn update_search(&mut self)
        requires
            old(self).wf(),
        ensures
            final(self).wf(),
            final(self).shows_search(),
            final(self).query == old(self).query,
            final(self).commands == old(self).commands,
            final(self).should_quit == old(self).should_quit,
            final(self).view_mode == old(self).view_mode,
    {
        let results = self.search_engine.rank(self.commands.as_slice(), self.query.as_str());
        let mut indices: Vec<usize> = Vec::new();
        let mut k: usize = 0;
        while k < results.len()
            invariant
                is_ranking(self.commands@, self.query@, results@),
                k <= results@.len(),
                indices@ == results@.take(k as int).map_values(|p: (usize, i64)| p.0),
            decreases results.len() - k,
        {
            indices.push(results[k].0);
            assert(results@.take(k + 1).map_values(|p: (usize, i64)| p.0) =~= results@.take(
                k as int,
            ).map_values(|p: (usize, i64)| p.0).push(results@[k as int].0));
            k = k + 1;
        }
        assert(results@.take(k as int) =~= results@);
        assert forall|j: int| 0 <= j < indices@.len() implies #[trigger] indices@[j]
            < self.commands@.len() by {
            if self.query@.len() == 0 {
                assert(results@[j] == (j as usize, 0i64));
            } else {
                assert(results@[j].0 < self.commands@.len());
            }
        }
        self.filtered_results = indices;
        self.selected_index = 0;
        self.reset_animation();
    }

    /// The selected catalog item, if any.
    pub fn selected_command(&self) -> (r: Option<&Command>)
        requires
            self.wf(),
        ensures
            r is Some <==> self.selection() is Some,
            r is Some ==> *r->0 == self.commands@[self.selection()->0 as int],
    {
        match self.selected_position() {
            Some(idx) => Some(&self.commands[idx]),
            None => None,
        }
    }

    /// Starts the animation over on the selected shortcut: its frames, the
    /// first one shown, nothing elapsed, the selection recorded.
    pub fn reset_animation(&mut self)
        requires
            old(self).wf(),
        ensures
            final(self).wf(),
            final(self).animation_reset(),
            final(self).query == old(self).query,
            final(self).commands == old(self).commands,
            final(self).filtered_results == old(self).filtered_results,
            final(self).selected_index == old(self).selected_index,
            final(self).should_quit == old(self).should_quit,
            final(self).view_mode == old(self).view_mode,
    {
        let frames = match self.selected_command() {
            Some(cmd) => cmd.parse_keys(),
            None => {
                let none = Vec::new();
                assert(frames_view(none@) =~= Seq::<Seq<KeyView>>::empty());
                none
            },
        };
        self.animation.on_selection_changed(frames);
        self.last_selected = self.selected_position();
    }

    /// Lets `delta_ms` milliseconds pass: a changed selection starts the
    /// animation over; otherwise the animation clock advances.
    pub fn tick(&mut self, delta_ms: u64)
        requires
            old(self).wf(),
        ensures
            final(self).wf(),
            old(self).selection() != old(self).last_selected ==> final(self).animation_reset(),
            old(self).selection() == old(self).last_selected ==> {
                &&& final(self).animation.frames_spec() == old(self).animation.frames_spec()
                &&& (final(self).animation.index_spec(), final(self).animation.elapsed_spec())
                    == after_tick(
                    old(self).animation.frames_spec().len(),
                    old(self).animation.index_spec(),
                    old(self).animation.elapsed_spec(),
                    delta_ms as nat,
                )
                &&& final(self).last_selected == old(self).last_selected
            },
            final(self).query == old(self).query,
            final(self).commands == old(self).commands,
            final(self).filtered_results == old(self).filtered_results,
            final(self).selected_index == old(self).selected_index,
            final(self).should_quit == old(self).should_quit,
            final(self).view_mode == old(self).view_mode,
    {
        let current = self.selected_position();
        if current != self.last_selected {
            self.reset_animation();
        } else {
            self.animation.on_tick(delta_ms);
        }
    }

    /// Applies one key press: typing edits the query and searches again,
    /// arrows and Tab move the selection (wrapping), Ctrl+V switches the
    /// view, Esc clears the query or, on an empty query, quits, as Ctrl+C does.
    pub fn handle_key(&mut self, key: InputKey, ctrl: bool)
        requires
            old(self).wf(),
        ensures
            final(self).wf(),
            final(self).commands == old(self).commands,
            match key {
                InputKey::Esc => if old(self).query@.len() == 0 {
                    *final(self) == (App { should_quit: true, ..*old(self) })
                } else {
                    &&& final(self).query@.len() == 0
                    &&& final(self).shows_search()
                    &&& final(self).should_quit == old(self).should_quit
                    &&& final(self).view_mode == old(self).view_mode
                },
                InputKey::Char(c) => if ctrl && c == 'c' {
                    *final(self) == (App { should_quit: true, ..*old(self) })
                } else if ctrl && c == 'v' {
                    *final(self) == (App { view_mode: toggled(old(self).view_mode), ..*old(self) })
                } else {
                    &&& final(self).query@ == old(self).query@.push(c)
                    &&& final(self).shows_search()
                    &&& final(self).should_quit == old(self).should_quit
                    &&& final(self).view_mode == old(self).view_mode
                },
                InputKey::Backspace => {
                    &&& final(self).query@ == if old(self).query@.len() == 0 {
                        old(self).query@
                    } else {
                        old(self).query@.drop_last()
                    }
                    &&& final(self).shows_search()
                    &&& final(self).should_quit == old(self).should_quit
                    &&& final(self).view_mode == old(self).view_mode
                },
                InputKey::Down | InputKey::Tab => *final(self) == (App {
                    selected_index: if old(self).filtered_results@.len() > 0 {
                        ((old(self).selected_index + 1) % (old(
                            self,
                        ).filtered_results@.len() as int)) as usize
                    } else {
                        old(self).selected_index
                    },
                    ..*old(self)
                }),
                InputKey::Up | InputKey::BackTab => *final(self) == (App {
                    selected_index: if old(self).filtered_results@.len() == 0 {
                        old(self).selected_index
                    } else if old(self).selected_index == 0 {
                        (old(self).filtered_results@.len() - 1) as usize
                    } else {
                        (old(self).selected_index - 1) as usize
                    },
                    ..*old(self)
                }),
                InputKey::Other => *final(self) == *old(self),
            },
    {
        match key {
            InputKey::Esc => {
                if self.query.as_str().is_empty() {
                    self.should_quit = true;
                } else {
                    self.query = String::new();
                    self.update_search();
                }
            },
            InputKey::Char(c) => {
                if ctrl && c == 'c' {
                    self.should_quit = true;
                } else if ctrl && c == 'v' {
                    self.view_mode.toggle();
                } else {
                    push_char(&mut self.query, c);
                    self.update_search();
                }
            },
            InputKey::Backspace => {
                pop_char(&mut self.query);
                self.update_search();
            },
            InputKey::Down | InputKey::Tab => {
                if self.filtered_results.len() > 0 {
                    self.selected_index = (self.selected_index + 1) % self.filtered_results.len();
                }
            },
            InputKey::Up | InputKey::BackTab => {
                if self.filtered_results.len() > 0 {
                    self.selected_index = if self.selected_index == 0 {
                        self.filtered_results.len() - 1
                    } else {
                        self.selected_index - 1
                    };
                }
            },
            InputKey::Other => {},
        }
    }

    /// The keyboard diagram of the current view: the frame shown now in
    /// animation mode, every frame in legend mode.
    pub fn keyboard_lines(&self) -> (lines: Vec<Vec<StyledSpan>>)
        ensures
            self.view_mode == ViewMode::Animation ==> lines_view(lines@) == render_lines(
                base_layout(),
                holds_shift(self.current_keys()),
                animation_entries(self.current_keys()),
            ),
            self.view_mode == ViewMode::Legend ==> lines_view(lines@) == render_lines(
                base_layout(),
                frames_hold_shift(self.animation.frames_spec()),
                legend_entries(self.animation.frames_spec()),
            ),
    {
        match self.view_mode {
            ViewMode::Animation => match self.animation.current_frame() {
                Some(frame) => {
                    assert(crate::diagram::keys_view(frame.keys@) =~= frame@);
                    self.keyboard.render(frame.keys.as_slice())
                },
                None => {
                    let none: Vec<Key> = Vec::new();
                    assert(crate::diagram::keys_view(none@) =~= Seq::<KeyView>::empty());
                    self.keyboard.render(none.as_slice())
                },
            },
            ViewMode::Legend => self.keyboard.render_legend(self.animation.frames().as_slice()),
        }
    }

    /// The legend line of the selected shortcut.
    pub fn legend_line(&self) -> (spans: Vec<StyledSpan>)
        ensures
            spans_view(spans@) == legend_spans(self.animation.frames_spec()),
    {
        legend_bar(self.animation.frames().as_slice())
    }
}

} // verus!
