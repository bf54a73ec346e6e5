use vstd::prelude::*;

use crate::commands::{Key, KeyFrame, KeyView};
use crate::text::{
    chars_of, lower_of, lowercase, owned, push_char, push_range, push_text, same_text,
    starts_with_text, string_of_char, string_of_range, upper_of, uppercase,
};

verus! {

/// How a piece of the diagram is drawn.
#[derive(Debug, Clone, Copy, PartialEq, Eq, Structural)]
pub enum KeyStyle {
    /// Borders, spaces and keys that are not pressed.
    Neutral,
    /// A pressed key.
    Highlight,
    /// The leader (space) key.
    Leader,
    /// A pressed modifier.
    Modifier,
    /// Keys of the frame with this palette color.
    Frame(usize),
    /// Arrows between the frames of the legend line.
    Separator,
}

/// Number of colors of the frame palette; frame `i` takes color `i % PALETTE_SIZE`.
pub const PALETTE_SIZE: usize = 8;

/// A piece of text with its style.
pub struct StyledSpan {
    pub text: String,
    pub style: KeyStyle,
}

impl View for StyledSpan {
    type V = (Seq<char>, KeyStyle);

    open spec fn view(&self) -> (Seq<char>, KeyStyle) {
        (self.text@, self.style)
    }
}

pub open spec fn spans_view(spans: Seq<StyledSpan>) -> Seq<(Seq<char>, KeyStyle)> {
    spans.map_values(|s: StyledSpan| s@)
}

pub open spec fn lines_view(lines: Seq<Vec<StyledSpan>>) -> Seq<Seq<(Seq<char>, KeyStyle)>> {
    lines.map_values(|l: Vec<StyledSpan>| spans_view(l@))
}

/// Lower-cased key names with the style they give.
pub open spec fn entries_view(entries: Seq<(String, KeyStyle)>) -> Seq<(Seq<char>, KeyStyle)> {
    entries.map_values(|e: (String, KeyStyle)| (e.0@, e.1))
}

pub open spec fn keys_view(keys: Seq<Key>) -> Seq<KeyView> {
    keys.map_values(|k: Key| k@)
}

pub open spec fn is_border(c: char) -> bool {
    c == '│' || c == '┌' || c == '┐' || c == '└' || c == '┘' || c == '├' || c == '┤' || c == '┬'
        || c == '┴' || c == '┼' || c == '─'
}

/// A key label starts at any character that is neither border nor space.
pub open spec fn starts_label(c: char) -> bool {
    !is_border(c) && c != ' '
}

/// The symbol on the same keycap as an unshifted symbol, with Shift held.
pub open spec fn shifted_symbol(c: char) -> Option<char> {
    match c {
        '`' => Some('~'),
        '1' => Some('!'),
        '2' => Some('@'),
        '3' => Some('#'),
        '4' => Some('$'),
        '5' => Some('%'),
        '6' => Some('^'),
        '7' => Some('&'),
        '8' => Some('*'),
        '9' => Some('('),
        '0' => Some(')'),
        '-' => Some('_'),
        '=' => Some('+'),
        '[' => Some('{'),
        ']' => Some('}'),
        '\\' => Some('|'),
        ';' => Some(':'),
        '\'' => Some('"'),
        ',' => Some('<'),
        '.' => Some('>'),
        '/' => Some('?'),
        _ => None,
    }
}

/// What a one-character label shows with Shift held: upper-case letters and
/// shifted symbols.
pub open spec fn shift_glyph(c: char) -> char {
    if 'a' <= c <= 'z' {
        ((c as u32) - 32) as char
    } else {
        match shifted_symbol(c) {
            Some(s) => s,
            None => c,
        }
    }
}

/// `s` without its trailing spaces.
pub open spec fn trim_end(s: Seq<char>) -> Seq<char>
    decreases s.len(),
{
    if s.len() > 0 && s.last() == ' ' {
        trim_end(s.drop_last())
    } else {
        s
    }
}

/// Style of the last entry named `name`.
pub open spec fn lookup(entries: Seq<(Seq<char>, KeyStyle)>, name: Seq<char>) -> Option<KeyStyle>
    decreases entries.len(),
{
    if entries.len() == 0 {
        None
    } else if entries.last().0 == name {
        Some(entries.last().1)
    } else {
        lookup(entries.drop_last(), name)
    }
}

pub open spec fn has_prefix(s: Seq<char>, prefix: Seq<char>) -> bool {
    prefix.len() <= s.len() && s.subrange(0, prefix.len() as int) == prefix
}

/// Style through the abbreviations of the layout: `Bsp`, `Ent`, `Ct`, `Mnu`
/// and `Sup` stand for `Backsp`, `Enter`, `Ctrl`, `Menu` and `Super`.
pub open spec fn alias_style(lower: Seq<char>, entries: Seq<(Seq<char>, KeyStyle)>) -> Option<KeyStyle> {
    if has_prefix(lower, "bsp"@) && lookup(entries, "backsp"@) is Some {
        lookup(entries, "backsp"@)
    } else if has_prefix(lower, "ent"@) && lookup(entries, "enter"@) is Some {
        lookup(entries, "enter"@)
    } else if has_prefix(lower, "ct"@) && lookup(entries, "ctrl"@) is Some {
        lookup(entries, "ctrl"@)
    } else if has_prefix(lower, "mnu"@) && lookup(entries, "menu"@) is Some {
        lookup(entries, "menu"@)
    } else if has_prefix(lower, "sup"@) && lookup(entries, "super"@) is Some {
        lookup(entries, "super"@)
    } else {
        None
    }
}

/// Style of a layout label from its case-folded text `lower`: a key of that
/// name, then a key the abbreviation stands for; then, as the
/// single-character fallback, a one-character label shown in its shifted
/// glyph (`!` on the `1` key) takes the style of its case-folded unshifted
/// glyph `base_lower`. Neutral when none is pressed.
pub open spec fn folded_label_style(
    lower: Seq<char>,
    base_lower: Option<Seq<char>>,
    entries: Seq<(Seq<char>, KeyStyle)>,
) -> KeyStyle {
    match lookup(entries, lower) {
        Some(s) => s,
        None => match alias_style(lower, entries) {
            Some(s) => s,
            None => match base_lower {
                Some(b) => match lookup(entries, b) {
                    Some(s) => s,
                    None => KeyStyle::Neutral,
                },
                None => KeyStyle::Neutral,
            },
        },
    }
}

/// Style of a (trimmed) layout label as shown, `base` being the label with no
/// Shift held; the two differ only for a one-character label shown in its
/// shifted glyph.
pub open spec fn label_style(
    label: Seq<char>,
    base: Seq<char>,
    entries: Seq<(Seq<char>, KeyStyle)>,
) -> KeyStyle {
    folded_label_style(
        lower_of(label),
        if label != base {
            Some(lower_of(base))
        } else {
            None
        },
        entries,
    )
}

/// The trimmed label as shown: a one-character label takes its shifted glyph
/// when Shift is held.
pub open spec fn shown_label(trimmed: Seq<char>, shifted: bool) -> Seq<char> {
    if shifted && trimmed.len() == 1 {
        seq![shift_glyph(trimmed[0])]
    } else {
        trimmed
    }
}

/// Span of a layout label with its trailing spaces.
pub open spec fn label_span(
    label: Seq<char>,
    shifted: bool,
    entries: Seq<(Seq<char>, KeyStyle)>,
) -> (Seq<char>, KeyStyle) {
    let trimmed = trim_end(label);
    let shown = shown_label(trimmed, shifted);
    (
        shown + label.subrange(trimmed.len() as int, label.len() as int),
        label_style(shown, trimmed, entries),
    )
}

/// Spans of `line[i..]`: each border or space character alone and neutral,
/// each label (up to the next border) styled; `label` holds the label read
/// so far.
pub open spec fn line_spans(
    line: Seq<char>,
    i: int,
    label: Option<Seq<char>>,
    shifted: bool,
    entries: Seq<(Seq<char>, KeyStyle)>,
) -> Seq<(Seq<char>, KeyStyle)>
    decreases line.len() - i, if label is Some {
        1int
    } else {
        0int
    },
{
    match label {
        Some(l) => if i >= line.len() || is_border(line[i]) {
            seq![label_span(l, shifted, entries)] + line_spans(line, i, None, shifted, entries)
        } else {
            line_spans(line, i + 1, Some(l.push(line[i])), shifted, entries)
        },
        None => if i >= line.len() {
            Seq::empty()
        } else if starts_label(line[i]) {
            line_spans(line, i + 1, Some(seq![line[i]]), shifted, entries)
        } else {
            seq![(seq![line[i]], KeyStyle::Neutral)] + line_spans(line, i + 1, None, shifted, entries)
        },
    }
}

/// The spans of every line.
pub open spec fn render_lines(
    lines: Seq<Seq<char>>,
    shifted: bool,
    entries: Seq<(Seq<char>, KeyStyle)>,
) -> Seq<Seq<(Seq<char>, KeyStyle)>> {
    lines.map_values(|l: Seq<char>| line_spans(l, 0, None, shifted, entries))
}

/// Style of a pressed key in animation mode, from its case-folded label and
/// its flags: leader (or `space`), modifier (or `ctrl`, `alt`, `shift`,
/// `super`), any other key.
pub open spec fn folded_key_style(lower: Seq<char>, is_modifier: bool, is_leader: bool) -> KeyStyle {
    if is_leader || lower == "space"@ {
        KeyStyle::Leader
    } else if is_modifier || lower == "ctrl"@ || lower == "alt"@ || lower == "shift"@ || lower
        == "super"@ {
        KeyStyle::Modifier
    } else {
        KeyStyle::Highlight
    }
}

/// Style of a pressed key in animation mode.
pub open spec fn key_style(k: KeyView) -> KeyStyle {
    folded_key_style(lower_of(k.label), k.is_modifier, k.is_leader)
}

/// Entries of one frame in animation mode.
pub open spec fn animation_entries(keys: Seq<KeyView>) -> Seq<(Seq<char>, KeyStyle)> {
    keys.map_values(|k: KeyView| (lower_of(k.label), key_style(k)))
}

/// Entries of all frames in legend mode: each key takes the palette color of
/// its frame; a later frame wins over an earlier one.
pub open spec fn legend_entries(frames: Seq<Seq<KeyView>>) -> Seq<(Seq<char>, KeyStyle)>
    decreases frames.len(),
{
    if frames.len() == 0 {
        Seq::empty()
    } else {
        let color = KeyStyle::Frame(((frames.len() - 1) % (PALETTE_SIZE as int)) as usize);
        legend_entries(frames.drop_last()) + frames.last().map_values(
            |k: KeyView| (lower_of(k.label), color),
        )
    }
}

/// Some key is labelled `Shift`.
pub open spec fn holds_shift(keys: Seq<KeyView>) -> bool {
    exists|i: int| 0 <= i < keys.len() && (#[trigger] keys[i]).label == "Shift"@
}

/// Some key of some frame is labelled `Shift`.
pub open spec fn frames_hold_shift(frames: Seq<Seq<KeyView>>) -> bool {
    exists|i: int| 0 <= i < frames.len() && holds_shift(#[trigger] frames[i])
}

/// How a key reads in the legend line: Space as `␣`, a one-character key
/// upper-cased.
pub open spec fn legend_label(k: KeyView) -> Seq<char> {
    if k.label == "Space"@ {
        "␣"@
    } else if k.label.len() == 1 {
        upper_of(k.label)
    } else {
        k.label
    }
}

/// The parts joined by `+`.
pub open spec fn join_plus(parts: Seq<Seq<char>>) -> Seq<char>
    decreases parts.len(),
{
    if parts.len() == 0 {
        Seq::empty()
    } else if parts.len() == 1 {
        parts[0]
    } else {
        join_plus(parts.drop_last()) + seq!['+'] + parts.last()
    }
}

/// Legend text of one frame.
pub open spec fn frame_segment(frame: Seq<KeyView>) -> Seq<char> {
    seq![' '] + join_plus(frame.map_values(|k: KeyView| legend_label(k))) + seq![' ']
}

/// The legend line: a caption, then each frame in its palette color, frames
/// separated by arrows.
pub open spec fn legend_spans(frames: Seq<Seq<KeyView>>) -> Seq<(Seq<char>, KeyStyle)>
    decreases frames.len(),
{
    if frames.len() == 0 {
        seq![("Sequence: "@, KeyStyle::Neutral)]
    } else {
        let i = frames.len() - 1;
        let front = legend_spans(frames.drop_last());
        let front = if i > 0 {
            front.push((" → "@, KeyStyle::Separator))
        } else {
            front
        };
        front.push((frame_segment(frames.last()), KeyStyle::Frame((i % (PALETTE_SIZE as int)) as usize)))
    }
}

/// Concatenated text of spans.
pub open spec fn span_text(spans: Seq<(Seq<char>, KeyStyle)>) -> Seq<char>
    decreases spans.len(),
{
    if spans.len() == 0 {
        Seq::empty()
    } else {
        spans[0].0 + span_text(spans.drop_first())
    }
}

fn is_border_char(c: char) -> (r: bool)
    ensures
        r == is_border(c),
{
    c == '│' || c == '┌' || c == '┐' || c == '└' || c == '┘' || c == '├' || c == '┤' || c == '┬'
        || c == '┴' || c == '┼' || c == '─'
}

fn shifted_symbol_of(c: char) -> (r: Option<char>)
    ensures
        r == shifted_symbol(c),
{
    match c {
        '`' => Some('~'),
        '1' => Some('!'),
        '2' => Some('@'),
        '3' => Some('#'),
        '4' => Some('$'),
        '5' => Some('%'),
        '6' => Some('^'),
        '7' => Some('&'),
        '8' => Some('*'),
        '9' => Some('('),
        '0' => Some(')'),
        '-' => Some('_'),
        '=' => Some('+'),
        '[' => Some('{'),
        ']' => Some('}'),
        '\\' => Some('|'),
        ';' => Some(':'),
        '\'' => Some('"'),
        ',' => Some('<'),
        '.' => Some('>'),
        '/' => Some('?'),
        _ => None,
    }
}

fn shift_glyph_of(c: char) -> (r: char)
    ensures
        r == shift_glyph(c),
{
    if 'a' <= c && c <= 'z' {
        ((c as u8) - 32) as char
    } else {
        match shifted_symbol_of(c) {
            Some(s) => s,
            None => c,
        }
    }
}

/// Style of the last entry named `name`.
fn lookup_style(entries: &Vec<(String, KeyStyle)>, name: &str) -> (r: Option<KeyStyle>)
    ensures
        r == lookup(entries_view(entries@), name@),
{
    let ghost ev = entries_view(entries@);
    let mut k: usize = entries.len();
    assert(ev.take(k as int) =~= ev);
    while k > 0
        invariant
            ev == entries_view(entries@),
            k <= entries@.len(),
            lookup(ev, name@) == lookup(ev.take(k as int), name@),
        decreases k,
    {
        k = k - 1;
        assert(ev.take(k + 1).drop_last() =~= ev.take(k as int));
        if same_text(entries[k].0.as_str(), name) {
            return Some(entries[k].1);
        }
    }
    None
}

fn alias_style_of(lower: &str, entries: &Vec<(String, KeyStyle)>) -> (r: Option<KeyStyle>)
    ensures
        r == alias_style(lower@, entries_view(entries@)),
{
    if starts_with_text(lower, "bsp") {
        let s = lookup_style(entries, "backsp");
        if s.is_some() {
            return s;
        }
    }
    if starts_with_text(lower, "ent") {
        let s = lookup_style(entries, "enter");
        if s.is_some() {
            return s;
        }
    }
    if starts_with_text(lower, "ct") {
        let s = lookup_style(entries, "ctrl");
        if s.is_some() {
            return s;
        }
    }
    if starts_with_text(lower, "mnu") {
        let s = lookup_style(entries, "menu");
        if s.is_some() {
            return s;
        }
    }
    if starts_with_text(lower, "sup") {
        let s = lookup_style(entries, "super");
        if s.is_some() {
            return s;
        }
    }
    None
}

fn label_style_of(label: &str, base: &str, entries: &Vec<(String, KeyStyle)>) -> (r: KeyStyle)
    ensures
        r == label_style(label@, base@, entries_view(entries@)),
{
    let lower = lowercase(label);
    if same_text(label, base) {
        label_style_from_folded(lower.as_str(), None, entries)
    } else {
        let base_lower = lowercase(base);
        label_style_from_folded(lower.as_str(), Some(base_lower.as_str()), entries)
    }
}

/// Style of a layout label from its case-folded text and, for a label shown
/// in its shifted glyph, its case-folded unshifted glyph.
pub fn label_style_from_folded(
    lower: &str,
    base_lower: Option<&str>,
    entries: &Vec<(String, KeyStyle)>,
) -> (r: KeyStyle)
    ensures
        r == folded_label_style(
            lower@,
            match base_lower {
                Some(b) => Some(b@),
                None => None,
            },
            entries_view(entries@),
        ),
{
    match lookup_style(entries, lower) {
        Some(s) => s,
        None => match alias_style_of(lower, entries) {
            Some(s) => s,
            None => match base_lower {
                Some(b) => match lookup_style(entries, b) {
                    Some(s) => s,
                    None => KeyStyle::Neutral,
                },
                None => KeyStyle::Neutral,
            },
        },
    }
}

/// Span of the label `chars[start..end]`.
fn label_span_of(
    chars: &Vec<char>,
    start: usize,
    end: usize,
    shifted: bool,
    entries: &Vec<(String, KeyStyle)>,
) -> (r: StyledSpan)
    requires
        start < end <= chars@.len(),
        chars@[start as int] != ' ',
    ensures
        r@ == label_span(chars@.subrange(start as int, end as int), shifted, entries_view(entries@)),
{
    let ghost label = chars@.subrange(start as int, end as int);
    let mut t: usize = end;
    while t > start && chars[t - 1] == ' '
        invariant
            start < t <= end <= chars@.len(),
            chars@[start as int] != ' ',
            trim_end(label) == trim_end(chars@.subrange(start as int, t as int)),
        decreases t,
    {
        assert(chars@.subrange(start as int, t as int).drop_last() =~= chars@.subrange(
            start as int,
            t - 1,
        ));
        t = t - 1;
    }
    let ghost trimmed = chars@.subrange(start as int, t as int);
    assert(trim_end(trimmed) == trimmed);
    assert(label.subrange(trimmed.len() as int, label.len() as int) =~= chars@.subrange(
        t as int,
        end as int,
    ));
    let mut shown = if shifted && t - start == 1 {
        string_of_char(shift_glyph_of(chars[start]))
    } else {
        string_of_range(chars, start, t)
    };
    assert(shown@ =~= shown_label(trimmed, shifted));
    let base = string_of_range(chars, start, t);
    let style = label_style_of(shown.as_str(), base.as_str(), entries);
    push_range(&mut shown, chars, t, end);
    StyledSpan { text: shown, style }
}

proof fn lemma_spans_view_push(spans: Seq<StyledSpan>, s: StyledSpan)
    ensures
        spans_view(spans.push(s)) == spans_view(spans).push(s@),
{
    assert(spans_view(spans.push(s)) =~= spans_view(spans).push(s@));
}

/// Spans of one layout line.
fn render_line(line: &str, shifted: bool, entries: &Vec<(String, KeyStyle)>) -> (r: Vec<StyledSpan>)
    ensures
        spans_view(r@) == line_spans(line@, 0, None, shifted, entries_view(entries@)),
{
    let chars = chars_of(line);
    let ghost s = chars@;
    let ghost ev = entries_view(entries@);
    let mut spans: Vec<StyledSpan> = Vec::new();
    let mut pos: usize = 0;
    while pos < chars.len()
        invariant
            s == chars@,
            s == line@,
            ev == entries_view(entries@),
            pos <= s.len(),
            spans_view(spans@) + line_spans(s, pos as int, None, shifted, ev) == line_spans(
                s,
                0,
                None,
                shifted,
                ev,
            ),
        decreases chars.len() - pos,
    {
        let c = chars[pos];
        if c != ' ' && !is_border_char(c) {
            let start = pos;
            let mut end = pos + 1;
            assert(s.subrange(start as int, end as int) =~= seq![c]);
            while end < chars.len() && !is_border_char(chars[end])
                invariant
                    s == chars@,
                    ev == entries_view(entries@),
                    start < end <= s.len(),
                    spans_view(spans@) + line_spans(
                        s,
                        end as int,
                        Some(s.subrange(start as int, end as int)),
                        shifted,
                        ev,
                    ) == line_spans(s, 0, None, shifted, ev),
                decreases chars.len() - end,
            {
                assert(s.subrange(start as int, end as int).push(s[end as int]) =~= s.subrange(
                    start as int,
                    end + 1,
                ));
                end = end + 1;
            }
            let span = label_span_of(&chars, start, end, shifted, entries);
            proof {
                lemma_spans_view_push(spans@, span);
            }
            spans.push(span);
            pos = end;
            assert(spans_view(spans@) + line_spans(s, pos as int, None, shifted, ev) =~= line_spans(
                s,
                0,
                None,
                shifted,
                ev,
            ));
        } else {
            let span = StyledSpan { text: string_of_char(c), style: KeyStyle::Neutral };
            proof {
                lemma_spans_view_push(spans@, span);
            }
            spans.push(span);
            pos = pos + 1;
            assert(spans_view(spans@) + line_spans(s, pos as int, None, shifted, ev) =~= line_spans(
                s,
                0,
                None,
                shifted,
                ev,
            ));
        }
    }
    assert(spans_view(spans@) =~= spans_view(spans@) + line_spans(s, pos as int, None, shifted, ev));
    spans
}

/// Spans of every line.
pub(crate) fn render_layout(
    lines: &Vec<&'static str>,
    shifted: bool,
    entries: &Vec<(String, KeyStyle)>,
) -> (r: Vec<Vec<StyledSpan>>)
    ensures
        lines_view(r@) == render_lines(
            lines@.map_values(|l: &'static str| l@),
            shifted,
            entries_view(entries@),
        ),
{
    let ghost lv = lines@.map_values(|l: &'static str| l@);
    let mut out: Vec<Vec<StyledSpan>> = Vec::new();
    let mut i: usize = 0;
    while i < lines.len()
        invariant
            lv == lines@.map_values(|l: &'static str| l@),
            i <= lines@.len(),
            lines_view(out@) == render_lines(lv.take(i as int), shifted, entries_view(entries@)),
        decreases lines.len() - i,
    {
        let spans = render_line(lines[i], shifted, entries);
        let ghost prev = out@;
        out.push(spans);
        assert(lv.take(i + 1) =~= lv.take(i as int).push(lines@[i as int]@));
        assert(render_lines(lv.take(i + 1), shifted, entries_view(entries@)) =~= render_lines(
            lv.take(i as int),
            shifted,
            entries_view(entries@),
        ).push(line_spans(lines@[i as int]@, 0, None, shifted, entries_view(entries@))));
        assert(lines_view(out@) =~= lines_view(prev).push(spans_view(out@[i as int]@)));
        i = i + 1;
    }
    assert(lv.take(i as int) =~= lv);
    out
}

fn key_style_of(k: &Key) -> (r: KeyStyle)
    ensures
        r == key_style(k@),
{
    let lower = lowercase(k.key.as_str());
    key_style_from_folded(lower.as_str(), k.is_modifier, k.is_leader)
}

/// Style of a pressed key in animation mode, from its case-folded label and
/// its flags.
pub fn key_style_from_folded(lower: &str, is_modifier: bool, is_leader: bool) -> (r: KeyStyle)
    ensures
        r == folded_key_style(lower@, is_modifier, is_leader),
{
    if is_leader || same_text(lower, "space") {
        KeyStyle::Leader
    } else if is_modifier || same_text(lower, "ctrl") || same_text(lower, "alt") || same_text(
        lower,
        "shift",
    ) || same_text(lower, "super") {
        KeyStyle::Modifier
    } else {
        KeyStyle::Highlight
    }
}

/// Entries of the keys of one frame, for animation mode.
pub(crate) fn animation_entries_of(keys: &[Key]) -> (r: Vec<(String, KeyStyle)>)
    ensures
        entries_view(r@) == animation_entries(keys_view(keys@)),
{
    let mut out: Vec<(String, KeyStyle)> = Vec::new();
    let mut i: usize = 0;
    while i < keys.len()
        invariant
            i <= keys@.len(),
            entries_view(out@) == animation_entries(keys_view(keys@.take(i as int))),
        decreases keys.len() - i,
    {
        let k = &keys[i];
        let ghost prev = out@;
        let name = lowercase(k.key.as_str());
        let style = key_style_of(k);
        out.push((name, style));
        let ghost kv = keys_view(keys@.take(i as int));
        assert(keys_view(keys@.take(i + 1)) =~= kv.push(k@));
        assert(entries_view(out@) =~= entries_view(prev).push((lower_of(k@.label), key_style(k@))));
        assert(animation_entries(kv.push(k@)) =~= animation_entries(kv).push(
            (lower_of(k@.label), key_style(k@)),
        ));
        i = i + 1;
    }
    assert(keys@.take(i as int) =~= keys@);
    out
}

/// Entries of all frames, for legend mode.
pub(crate) fn legend_entries_of(frames: &[KeyFrame]) -> (r: Vec<(String, KeyStyle)>)
    ensures
        entries_view(r@) == legend_entries(crate::commands::frames_view(frames@)),
{
    let ghost fv = crate::commands::frames_view(frames@);
    let mut out: Vec<(String, KeyStyle)> = Vec::new();
    let mut i: usize = 0;
    while i < frames.len()
        invariant
            fv == crate::commands::frames_view(frames@),
            i <= frames@.len(),
            entries_view(out@) == legend_entries(fv.take(i as int)),
        decreases frames.len() - i,
    {
        let color = KeyStyle::Frame(i % PALETTE_SIZE);
        let keys = &frames[i].keys;
        let ghost before = entries_view(out@);
        let mut j: usize = 0;
        while j < keys.len()
            invariant
                i < frames@.len(),
                keys == frames@[i as int].keys,
                j <= keys@.len(),
                color == KeyStyle::Frame(i % PALETTE_SIZE),
                entries_view(out@) == before + keys_view(keys@.take(j as int)).map_values(
                    |k: KeyView| (lower_of(k.label), color),
                ),
            decreases keys.len() - j,
        {
            let ghost prev = out@;
            let name = lowercase(keys[j].key.as_str());
            out.push((name, color));
            let ghost kv = keys_view(keys@.take(j as int));
            assert(keys_view(keys@.take(j + 1)) =~= kv.push(keys@[j as int]@));
            assert(entries_view(out@) =~= entries_view(prev).push(
                (lower_of(keys@[j as int]@.label), color),
            ));
            assert(entries_view(out@) =~= before + keys_view(keys@.take(j + 1)).map_values(
                |k: KeyView| (lower_of(k.label), color),
            ));
            j = j + 1;
        }
        assert(keys@.take(j as int) =~= keys@);
        assert(fv.take(i + 1).drop_last() =~= fv.take(i as int));
        assert(fv.take(i + 1).last() == frames@[i as int]@);
        assert(entries_view(out@) =~= legend_entries(fv.take(i + 1)));
        i = i + 1;
    }
    assert(fv.take(i as int) =~= fv);
    out
}

/// Whether some key is labelled `Shift`.
pub(crate) fn keys_hold_shift(keys: &[Key]) -> (r: bool)
    ensures
        r == holds_shift(keys_view(keys@)),
{
    let mut i: usize = 0;
    while i < keys.len()
        invariant
            i <= keys@.len(),
            forall|k: int| 0 <= k < i ==> keys@[k].key@ != "Shift"@,
        decreases keys.len() - i,
    {
        if same_text(keys[i].key.as_str(), "Shift") {
            assert(keys_view(keys@)[i as int].label == "Shift"@);
            return true;
        }
        i = i + 1;
    }
    assert forall|k: int| 0 <= k < keys_view(keys@).len() implies (#[trigger] keys_view(
        keys@,
    )[k]).label != "Shift"@ by {
        assert(keys_view(keys@)[k].label == keys@[k].key@);
    }
    false
}

/// Whether some key of some frame is labelled `Shift`.
pub(crate) fn frames_hold_shift_of(frames: &[KeyFrame]) -> (r: bool)
    ensures
        r == frames_hold_shift(crate::commands::frames_view(frames@)),
{
    let ghost fv = crate::commands::frames_view(frames@);
    let mut i: usize = 0;
    while i < frames.len()
        invariant
            fv == crate::commands::frames_view(frames@),
            i <= frames@.len(),
            forall|k: int| 0 <= k < i ==> !holds_shift(#[trigger] fv[k]),
        decreases frames.len() - i,
    {
        assert(frames@[i as int]@ == keys_view(frames@[i as int].keys@));
        if keys_hold_shift(frames[i].keys.as_slice()) {
            assert(holds_shift(fv[i as int]));
            return true;
        }
        i = i + 1;
    }
    false
}

fn legend_label_of(k: &Key) -> (r: String)
    ensures
        r@ == legend_label(k@),
{
    let s = k.key.as_str();
    if same_text(s, "Space") {
        owned("␣")
    } else {
        let chars = chars_of(s);
        if chars.len() == 1 {
            uppercase(s)
        } else {
            owned(s)
        }
    }
}

/// Legend text of one frame.
fn frame_segment_of(frame: &KeyFrame) -> (r: String)
    ensures
        r@ == frame_segment(frame@),
{
    let ghost labels = frame@.map_values(|k: KeyView| legend_label(k));
    let mut text = String::new();
    push_char(&mut text, ' ');
    let mut i: usize = 0;
    while i < frame.keys.len()
        invariant
            labels == frame@.map_values(|k: KeyView| legend_label(k)),
            i <= frame.keys@.len(),
            text@ == seq![' '] + join_plus(labels.take(i as int)),
        decreases frame.keys.len() - i,
    {
        if i > 0 {
            push_char(&mut text, '+');
        }
        let label = legend_label_of(&frame.keys[i]);
        push_text(&mut text, label.as_str());
        assert(labels.take(i + 1).drop_last() =~= labels.take(i as int));
        assert(text@ =~= seq![' '] + join_plus(labels.take(i + 1)));
        i = i + 1;
    }
    push_char(&mut text, ' ');
    assert(labels.take(i as int) =~= labels);
    assert(text@ =~= frame_segment(frame@));
    text
}

/// The legend line of a sequence: a caption, then each frame in its palette
/// color, frames separated by arrows.
pub fn legend_bar(frames: &[KeyFrame]) -> (r: Vec<StyledSpan>)
    ensures
        spans_view(r@) == legend_spans(crate::commands::frames_view(frames@)),
{
    let ghost fv = crate::commands::frames_view(frames@);
    let mut spans: Vec<StyledSpan> = Vec::new();
    spans.push(StyledSpan { text: owned("Sequence: "), style: KeyStyle::Neutral });
    assert(spans_view(spans@) =~= legend_spans(fv.take(0)));
    let mut i: usize = 0;
    while i < frames.len()
        invariant
            fv == crate::commands::frames_view(frames@),
            i <= frames@.len(),
            spans_view(spans@) == legend_spans(fv.take(i as int)),
        decreases frames.len() - i,
    {
        if i > 0 {
            let arrow = StyledSpan { text: owned(" → "), style: KeyStyle::Separator };
            proof {
                lemma_spans_view_push(spans@, arrow);
            }
            spans.push(arrow);
        }
        let segment = StyledSpan {
            text: frame_segment_of(&frames[i]),
            style: KeyStyle::Frame(i % PALETTE_SIZE),
        };
        proof {
            lemma_spans_view_push(spans@, segment);
        }
        spans.push(segment);
        assert(fv.take(i + 1).drop_last() =~= fv.take(i as int));
        assert(fv.take(i + 1).last() == frames@[i as int]@);
        assert(spans_view(spans@) =~= legend_spans(fv.take(i + 1)));
        i = i + 1;
    }
    assert(fv.take(i as int) =~= fv);
    spans
}

proof fn lemma_trim_end_prefix(s: Seq<char>)
    ensures
        trim_end(s).len() <= s.len(),
        s.subrange(0, trim_end(s).len() as int) == trim_end(s),
    decreases s.len(),
{
    if s.len() > 0 && s.last() == ' ' {
        lemma_trim_end_prefix(s.drop_last());
        let n = trim_end(s).len() as int;
        assert(s.subrange(0, n) =~= s.drop_last().subrange(0, n));
    } else {
        assert(s.subrange(0, s.len() as int) =~= s);
    }
}

proof fn lemma_label_unpressed(label: Seq<char>, base: Seq<char>)
    ensures
        label_style(label, base, Seq::empty()) == KeyStyle::Neutral,
{
    let none: Seq<(Seq<char>, KeyStyle)> = Seq::empty();
    assert forall|name: Seq<char>| lookup(none, name) is None by {}
}

proof fn lemma_plain_spans(line: Seq<char>, i: int, label: Option<Seq<char>>)
    requires
        0 <= i <= line.len(),
    ensures
        span_text(line_spans(line, i, label, false, Seq::empty())) == match label {
            Some(l) => l,
            None => Seq::<char>::empty(),
        } + line.subrange(i, line.len() as int),
        forall|k: int|
            0 <= k < line_spans(line, i, label, false, Seq::empty()).len() ==> (#[trigger] line_spans(
                line,
                i,
                label,
                false,
                Seq::empty(),
            )[k]).1 == KeyStyle::Neutral,
    decreases line.len() - i, if label is Some {
        1int
    } else {
        0int
    },
{
    let none: Seq<(Seq<char>, KeyStyle)> = Seq::empty();
    let out = line_spans(line, i, label, false, none);
    match label {
        Some(l) => {
            if i >= line.len() || is_border(line[i]) {
                let rest = line_spans(line, i, None, false, none);
                lemma_plain_spans(line, i, None);
                let span = label_span(l, false, none);
                lemma_trim_end_prefix(l);
                lemma_label_unpressed(trim_end(l), trim_end(l));
                assert(span.0 =~= l);
                assert(out == seq![span] + rest);
                assert((seq![span] + rest).drop_first() =~= rest);
                assert(span_text(out) =~= l + line.subrange(i, line.len() as int));
            } else {
                lemma_plain_spans(line, i + 1, Some(l.push(line[i])));
                assert(l.push(line[i]) + line.subrange(i + 1, line.len() as int) =~= l
                    + line.subrange(i, line.len() as int));
            }
        },
        None => {
            if i >= line.len() {
                assert(line.subrange(i, line.len() as int) =~= Seq::<char>::empty());
                assert(Seq::<char>::empty() + Seq::<char>::empty() =~= Seq::<char>::empty());
            } else if starts_label(line[i]) {
                lemma_plain_spans(line, i + 1, Some(seq![line[i]]));
                assert(seq![line[i]] + line.subrange(i + 1, line.len() as int) =~= Seq::<
                    char,
                >::empty() + line.subrange(i, line.len() as int));
            } else {
                let rest = line_spans(line, i + 1, None, false, none);
                lemma_plain_spans(line, i + 1, None);
                let span = (seq![line[i]], KeyStyle::Neutral);
                assert((seq![span] + rest).drop_first() =~= rest);
                assert(seq![line[i]] + (Seq::<char>::empty() + line.subrange(i + 1, line.len() as int))
                    =~= Seq::<char>::empty() + line.subrange(i, line.len() as int));
            }
        },
    }
}

/// With nothing pressed and no Shift held, each line is drawn whole and
/// every span is neutral.
pub proof fn lemma_unpressed_lines_plain(lines: Seq<Seq<char>>)
    ensures
        render_lines(lines, false, Seq::empty()).len() == lines.len(),
        forall|k: int|
            0 <= k < lines.len() ==> span_text(#[trigger] render_lines(lines, false, Seq::empty())[k])
                == lines[k],
        forall|k: int, j: int|
            0 <= k < lines.len() && 0 <= j < render_lines(lines, false, Seq::empty())[k].len()
                ==> (#[trigger] render_lines(lines, false, Seq::empty())[k][j]).1 == KeyStyle::Neutral,
{
    assert forall|k: int| 0 <= k < lines.len() implies span_text(
        #[trigger] render_lines(lines, false, Seq::empty())[k],
    ) == lines[k] && forall|j: int|
        0 <= j < render_lines(lines, false, Seq::empty())[k].len() ==> (#[trigger] render_lines(
            lines,
            false,
            Seq::empty(),
        )[k][j]).1 == KeyStyle::Neutral by {
        lemma_plain_spans(lines[k], 0, None);
        assert(lines[k].subrange(0, lines[k].len() as int) =~= lines[k]);
        assert(Seq::<char>::empty() + lines[k] =~= lines[k]);
    }
}

} // verus!
