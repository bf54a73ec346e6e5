use vstd::prelude::*;

use crate::text::{chars_of, lower_of, lowercase, owned, same_text, string_of, string_of_char};

verus! {

/// Editor mode a shortcut applies to.
#[derive(Debug, Clone, Copy, PartialEq, Eq, Structural)]
pub enum Mode {
    Normal,
    Insert,
    Visual,
    Command,
}

impl Default for Mode {
    fn default() -> (m: Mode)
        ensures
            m == Mode::Normal,
    {
        Mode::Normal
    }
}

/// Group a shortcut belongs to.
#[derive(Debug, Clone, Copy, PartialEq, Eq, Structural)]
pub enum Category {
    General,
    Navigation,
    Search,
    Lsp,
    Git,
    Buffer,
    Window,
    Tab,
    Code,
    Debug,
    Terminal,
    Ui,
    Plugin,
}

/// Display label of a category.
pub open spec fn category_label(c: Category) -> Seq<char> {
    match c {
        Category::General => "General"@,
        Category::Navigation => "Navigation"@,
        Category::Search => "Search"@,
        Category::Lsp => "LSP"@,
        Category::Git => "Git"@,
        Category::Buffer => "Buffer"@,
        Category::Window => "Window"@,
        Category::Tab => "Tab"@,
        Category::Code => "Code"@,
        Category::Debug => "Debug"@,
        Category::Terminal => "Terminal"@,
        Category::Ui => "UI"@,
        Category::Plugin => "Plugin"@,
    }
}

impl Category {
    pub fn as_str(&self) -> (r: &'static str)
        ensures
            r@ == category_label(*self),
    {
        match self {
            Category::General => "General",
            Category::Navigation => "Navigation",
            Category::Search => "Search",
            Category::Lsp => "LSP",
            Category::Git => "Git",
            Category::Buffer => "Buffer",
            Category::Window => "Window",
            Category::Tab => "Tab",
            Category::Code => "Code",
            Category::Debug => "Debug",
            Category::Terminal => "Terminal",
            Category::Ui => "UI",
            Category::Plugin => "Plugin",
        }
    }
}

/// One shortcut of the catalog.
#[derive(Debug, Clone)]
pub struct Command {
    pub keys: String,
    pub description: String,
    pub category: Category,
    pub mode: Mode,
}

/// A single key of a key press.
#[derive(Debug, Clone, PartialEq, Eq)]
pub struct Key {
    pub key: String,
    pub is_modifier: bool,
    pub is_leader: bool,
}

/// Keys pressed at the same time (e.g. Shift+D).
#[derive(Debug, Clone, PartialEq, Eq)]
pub struct KeyFrame {
    pub keys: Vec<Key>,
}

/// Mathematical value of a `Key`.
pub struct KeyView {
    pub label: Seq<char>,
    pub is_modifier: bool,
    pub is_leader: bool,
}

impl View for Key {
    type V = KeyView;

    open spec fn view(&self) -> KeyView {
        KeyView { label: self.key@, is_modifier: self.is_modifier, is_leader: self.is_leader }
    }
}

impl View for KeyFrame {
    type V = Seq<KeyView>;

    open spec fn view(&self) -> Seq<KeyView> {
        self.keys@.map_values(|k: Key| k@)
    }
}

/// Mathematical value of a list of frames.
pub open spec fn frames_view(frames: Seq<KeyFrame>) -> Seq<Seq<KeyView>> {
    frames.map_values(|f: KeyFrame| f@)
}

pub open spec fn plain_key(label: Seq<char>) -> KeyView {
    KeyView { label, is_modifier: false, is_leader: false }
}

pub open spec fn modifier_key(label: Seq<char>) -> KeyView {
    KeyView { label, is_modifier: true, is_leader: false }
}

pub open spec fn leader_key() -> KeyView {
    KeyView { label: "Space"@, is_modifier: false, is_leader: true }
}

pub open spec fn is_ascii_upper(c: char) -> bool {
    'A' <= c <= 'Z'
}

/// Lower-case letter of an ASCII upper-case letter.
pub open spec fn ascii_lower(c: char) -> char {
    ((c as u32) + 32) as char
}

/// Frame of a literal character: an upper-case letter is Shift plus the letter.
pub open spec fn char_frame(c: char) -> Seq<KeyView> {
    if is_ascii_upper(c) {
        seq![modifier_key("Shift"@), plain_key(seq![ascii_lower(c)])]
    } else {
        seq![plain_key(seq![c])]
    }
}

/// Pieces of `s` between the `-` separators, as `str::split('-')` gives them.
pub open spec fn split_dash(s: Seq<char>) -> Seq<Seq<char>>
    decreases s.len(),
{
    if s.len() == 0 {
        seq![Seq::<char>::empty()]
    } else {
        let front = split_dash(s.drop_last());
        if s.last() == '-' {
            front.push(Seq::<char>::empty())
        } else {
            front.update(front.len() - 1, front.last().push(s.last()))
        }
    }
}

/// Names shared by a lone special key and the target of a combination.
pub open spec fn named_key(lower: Seq<char>) -> Option<Seq<char>> {
    if lower == "cr"@ || lower == "enter"@ || lower == "return"@ {
        Some("Enter"@)
    } else if lower == "esc"@ || lower == "escape"@ {
        Some("Esc"@)
    } else if lower == "bs"@ || lower == "backspace"@ {
        Some("Backsp"@)
    } else if lower == "tab"@ {
        Some("Tab"@)
    } else {
        None
    }
}

/// A token with no `-`, given its body and the body case-folded: `leader`
/// and `space` give the leader Space, the lone-key names their key; unknown
/// ones keep the body's text.
pub open spec fn lone_key(body: Seq<char>, lower: Seq<char>) -> KeyView {
    if lower == "leader"@ || lower == "space"@ {
        leader_key()
    } else {
        match named_key(lower) {
            Some(name) => plain_key(name),
            None => plain_key(body),
        }
    }
}

/// A token with no `-`: `<leader>`, `<CR>`, `<Esc>`, ...
pub open spec fn simple_special_key(body: Seq<char>) -> KeyView {
    lone_key(body, lower_of(body))
}

/// The modifier a case-folded part of a combination names, if any.
pub open spec fn folded_modifier(lower: Seq<char>) -> Option<Seq<char>> {
    if lower == "c"@ || lower == "ctrl"@ || lower == "control"@ {
        Some("Ctrl"@)
    } else if lower == "s"@ || lower == "shift"@ {
        Some("Shift"@)
    } else if lower == "a"@ || lower == "alt"@ || lower == "m"@ || lower == "meta"@ {
        Some("Alt"@)
    } else {
        None
    }
}

/// The modifier a part of a combination names, if any.
pub open spec fn modifier_name(part: Seq<char>) -> Option<Seq<char>> {
    folded_modifier(lower_of(part))
}

/// The target of a combination, given case-folded: the lone-key names
/// (`leader` and `space` give the leader Space), then the arrows; unknown
/// ones stay as folded.
pub open spec fn folded_target(lower: Seq<char>) -> KeyView {
    if lower == "leader"@ || lower == "space"@ {
        leader_key()
    } else {
        match named_key(lower) {
            Some(name) => plain_key(name),
            None => if lower == "up"@ {
                plain_key("Up"@)
            } else if lower == "down"@ {
                plain_key("Down"@)
            } else if lower == "left"@ {
                plain_key("Left"@)
            } else if lower == "right"@ {
                plain_key("Right"@)
            } else {
                plain_key(lower)
            },
        }
    }
}

/// The target (last part) of a combination, case-folded.
pub open spec fn target_key(part: Seq<char>) -> KeyView {
    folded_target(lower_of(part))
}

/// Modifier keys of the given parts, in order; unknown modifiers are dropped.
pub open spec fn modifier_keys(parts: Seq<Seq<char>>) -> Seq<KeyView>
    decreases parts.len(),
{
    if parts.len() == 0 {
        Seq::empty()
    } else {
        let front = modifier_keys(parts.drop_last());
        match modifier_name(parts.last()) {
            Some(name) => front.push(modifier_key(name)),
            None => front,
        }
    }
}

/// Frame of the body of a `<...>` token.
pub open spec fn special_frame(body: Seq<char>) -> Seq<KeyView> {
    let parts = split_dash(body);
    if parts.len() == 1 {
        seq![simple_special_key(body)]
    } else {
        modifier_keys(parts.drop_last()).push(target_key(parts.last()))
    }
}

/// Frames of `s[i..]`, scanning left to right; `token` holds the body read so
/// far of an open `<...>` token.
pub open spec fn scan(s: Seq<char>, i: int, token: Option<Seq<char>>) -> Seq<Seq<KeyView>>
    decreases s.len() - i,
{
    if i >= s.len() {
        match token {
            Some(body) => seq![special_frame(body)],
            None => Seq::empty(),
        }
    } else {
        let c = s[i];
        match token {
            Some(body) => if c == '>' {
                seq![special_frame(body)] + scan(s, i + 1, None)
            } else {
                scan(s, i + 1, Some(body.push(c)))
            },
            None => if c == '<' {
                scan(s, i + 1, Some(Seq::empty()))
            } else if c == '-' || c == '+' {
                scan(s, i + 1, None)
            } else {
                seq![char_frame(c)] + scan(s, i + 1, None)
            },
        }
    }
}

/// Frames of a whole notation string.
pub open spec fn parse_notation(s: Seq<char>) -> Seq<Seq<KeyView>> {
    scan(s, 0, None)
}

/// Parsing is deterministic: two parses of one notation give the same frames.
pub proof fn lemma_parse_deterministic(
    notation: Seq<char>,
    first: Seq<KeyFrame>,
    second: Seq<KeyFrame>,
)
    requires
        frames_view(first) == parse_notation(notation),
        frames_view(second) == parse_notation(notation),
    ensures
        frames_view(first) == frames_view(second),
{
}

proof fn lemma_split_dash_len(s: Seq<char>)
    ensures
        split_dash(s).len() >= 1,
    decreases s.len(),
{
    if s.len() > 0 {
        lemma_split_dash_len(s.drop_last());
    }
}

proof fn lemma_frames_view_push(frames: Seq<KeyFrame>, f: KeyFrame)
    ensures
        frames_view(frames.push(f)) == frames_view(frames).push(f@),
{
    assert(frames_view(frames.push(f)) =~= frames_view(frames).push(f@));
}

/// A key that is neither modifier nor leader.
fn plain(label: String) -> (k: Key)
    ensures
        k@ == plain_key(label@),
{
    Key { key: label, is_modifier: false, is_leader: false }
}

/// Name of a lone special key or a combination target, from its lower-cased text.
fn named_key_of(lower: &str) -> (r: Option<&'static str>)
    ensures
        r is Some <==> named_key(lower@) is Some,
        r is Some ==> r->0@ == named_key(lower@)->0,
{
    if same_text(lower, "cr") || same_text(lower, "enter") || same_text(lower, "return") {
        Some("Enter")
    } else if same_text(lower, "esc") || same_text(lower, "escape") {
        Some("Esc")
    } else if same_text(lower, "bs") || same_text(lower, "backspace") {
        Some("Backsp")
    } else if same_text(lower, "tab") {
        Some("Tab")
    } else {
        None
    }
}

/// The key of a token with no `-`, from its body and the body case-folded.
pub fn lone_key_from_folded(body: String, lower: &str) -> (k: Key)
    ensures
        k@ == lone_key(body@, lower@),
{
    if same_text(lower, "leader") || same_text(lower, "space") {
        Key { key: owned("Space"), is_modifier: false, is_leader: true }
    } else {
        match named_key_of(lower) {
            Some(name) => plain(owned(name)),
            None => plain(body),
        }
    }
}

/// The modifier a case-folded part of a combination names, if any.
pub fn modifier_from_folded(lower: &str) -> (r: Option<&'static str>)
    ensures
        r is Some <==> folded_modifier(lower@) is Some,
        r is Some ==> r->0@ == folded_modifier(lower@)->0,
{
    if same_text(lower, "c") || same_text(lower, "ctrl") || same_text(lower, "control") {
        Some("Ctrl")
    } else if same_text(lower, "s") || same_text(lower, "shift") {
        Some("Shift")
    } else if same_text(lower, "a") || same_text(lower, "alt") || same_text(lower, "m")
        || same_text(lower, "meta") {
        Some("Alt")
    } else {
        None
    }
}

/// The target key of a combination, from the case-folded target.
pub fn target_from_folded(lower: String) -> (k: Key)
    ensures
        k@ == folded_target(lower@),
{
    let l = lower.as_str();
    if same_text(l, "leader") || same_text(l, "space") {
        return Key { key: owned("Space"), is_modifier: false, is_leader: true };
    }
    match named_key_of(l) {
        Some(name) => plain(owned(name)),
        None => {
            if same_text(l, "up") {
                plain(owned("Up"))
            } else if same_text(l, "down") {
                plain(owned("Down"))
            } else if same_text(l, "left") {
                plain(owned("Left"))
            } else if same_text(l, "right") {
                plain(owned("Right"))
            } else {
                plain(lower)
            }
        },
    }
}

/// Splits `s` on `-`.
fn split_on_dash(s: &Vec<char>) -> (parts: Vec<String>)
    ensures
        parts@.map_values(|p: String| p@) == split_dash(s@),
{
    let mut parts: Vec<String> = Vec::new();
    let mut cur: Vec<char> = Vec::new();
    let mut i: usize = 0;
    while i < s.len()
        invariant
            i <= s@.len(),
            parts@.map_values(|p: String| p@).push(cur@) == split_dash(s@.take(i as int)),
        decreases s.len() - i,
    {
        let c = s[i];
        let ghost before = parts@.map_values(|p: String| p@).push(cur@);
        assert(s@.take(i + 1).drop_last() =~= s@.take(i as int));
        if c == '-' {
            let piece = string_of(&cur);
            parts.push(piece);
            cur = Vec::new();
            assert(parts@.map_values(|p: String| p@).push(cur@) =~= before.push(Seq::empty()));
        } else {
            cur.push(c);
            assert(parts@.map_values(|p: String| p@).push(cur@) =~= before.update(
                before.len() - 1,
                before.last().push(c),
            ));
        }
        i = i + 1;
    }
    let piece = string_of(&cur);
    parts.push(piece);
    assert(s@.take(s@.len() as int) =~= s@);
    assert(parts@.map_values(|p: String| p@) =~= split_dash(s@));
    parts
}

impl KeyFrame {
    pub fn new(keys: Vec<Key>) -> (f: Self)
        ensures
            f.keys == keys,
    {
        Self { keys }
    }

    pub fn single(key: Key) -> (f: Self)
        ensures
            f@ == seq![key@],
    {
        let f = Self { keys: vec![key] };
        assert(f@ =~= seq![key@]);
        f
    }
}

impl Command {
    /// Parses the notation into frames, each frame the keys pressed at the
    /// same time: `"gD"` gives `[g]`, `[Shift, d]`; `"<C-w>v"` gives
    /// `[Ctrl, w]`, `[v]`.
    pub fn parse_keys(&self) -> (frames: Vec<KeyFrame>)
        ensures
            frames_view(frames@) == parse_notation(self.keys@),
    {
        let chars = chars_of(self.keys.as_str());
        let ghost s = chars@;
        let mut frames: Vec<KeyFrame> = Vec::new();
        let mut i: usize = 0;
        while i < chars.len()
            invariant
                s == chars@,
                i <= s.len(),
                frames_view(frames@) + scan(s, i as int, None) == scan(s, 0, None),
            decreases chars.len() - i,
        {
            let c = chars[i];
            i = i + 1;
            if c == '<' {
                let mut special: Vec<char> = Vec::new();
                let ghost start = i;
                while i < chars.len() && chars[i] != '>'
                    invariant
                        s == chars@,
                        start <= i <= s.len(),
                        frames_view(frames@) + scan(s, i as int, Some(special@)) == scan(s, 0, None),
                    decreases chars.len() - i,
                {
                    special.push(chars[i]);
                    i = i + 1;
                }
                let frame = Self::parse_special_key(&special);
                proof {
                    lemma_frames_view_push(frames@, frame);
                }
                frames.push(frame);
                if i < chars.len() {
                    i = i + 1;
                } else {
                    assert(scan(s, i as int, None) =~= Seq::<Seq<KeyView>>::empty());
                }
                assert(frames_view(frames@) + scan(s, i as int, None) =~= scan(s, 0, None));
            } else if c != '-' && c != '+' {
                let frame = if 'A' <= c && c <= 'Z' {
                    let shift = Key { key: owned("Shift"), is_modifier: true, is_leader: false };
                    let letter = plain(string_of_char(((c as u8) + 32) as char));
                    let f = KeyFrame::new(vec![shift, letter]);
                    assert(f@ =~= char_frame(c));
                    f
                } else {
                    let f = KeyFrame::single(plain(string_of_char(c)));
                    assert(f@ =~= char_frame(c));
                    f
                };
                proof {
                    lemma_frames_view_push(frames@, frame);
                }
                frames.push(frame);
                assert(frames_view(frames@) + scan(s, i as int, None) =~= scan(s, 0, None));
            }
        }
        assert(frames_view(frames@) =~= frames_view(frames@) + scan(s, i as int, None));
        frames
    }

    /// Frame of the body of a `<...>` token: a lone special key, or
    /// modifiers followed by a target key.
    fn parse_special_key(special: &Vec<char>) -> (f: KeyFrame)
        ensures
            f@ == special_frame(special@),
    {
        let parts = split_on_dash(special);
        let ghost pv = parts@.map_values(|p: String| p@);
        proof {
            lemma_split_dash_len(special@);
        }
        assert(pv.len() == parts@.len());
        if parts.len() == 1 {
            let text = string_of(special);
            let lower = lowercase(text.as_str());
            let key = lone_key_from_folded(text, lower.as_str());
            KeyFrame::single(key)
        } else {
            let mut keys: Vec<Key> = Vec::new();
            let mut i: usize = 0;
            let last = parts.len() - 1;
            while i < last
                invariant
                    pv == parts@.map_values(|p: String| p@),
                    last == parts@.len() - 1,
                    i <= last,
                    keys@.map_values(|k: Key| k@) == modifier_keys(pv.take(i as int)),
                decreases last - i,
            {
                assert(pv.take(i + 1).drop_last() =~= pv.take(i as int));
                let lower = lowercase(parts[i].as_str());
                let name = modifier_from_folded(lower.as_str());
                match name {
                    Some(n) => {
                        let k = Key { key: owned(n), is_modifier: true, is_leader: false };
                        keys.push(k);
                    },
                    None => {},
                }
                assert(keys@.map_values(|k: Key| k@) =~= modifier_keys(pv.take(i + 1)));
                i = i + 1;
            }
            let target = target_from_folded(lowercase(parts[last].as_str()));
            keys.push(target);
            assert(pv.take(last as int) =~= pv.drop_last());
            let f = KeyFrame::new(keys);
            assert(f@ =~= special_frame(special@));
            f
        }
    }
}

} // verus!
