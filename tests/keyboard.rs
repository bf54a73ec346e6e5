use lazyvim_helper::commands::{Category, Command, Key, KeyFrame, Mode};
use lazyvim_helper::diagram::{
    key_style_from_folded, label_style_from_folded, legend_bar, KeyStyle, StyledSpan, PALETTE_SIZE,
};
use lazyvim_helper::keyboard::Keyboard;

fn frames_of(keys: &str) -> Vec<KeyFrame> {
    Command {
        keys: keys.to_string(),
        description: String::new(),
        category: Category::General,
        mode: Mode::Normal,
    }
    .parse_keys()
}

fn plain(label: &str) -> Key {
    Key { key: label.to_string(), is_modifier: false, is_leader: false }
}

fn line_text(line: &[StyledSpan]) -> String {
    line.iter().map(|s| s.text.as_str()).collect()
}

fn style_of(lines: &[Vec<StyledSpan>], row: usize, label: &str) -> Option<KeyStyle> {
    lines[row].iter().find(|s| s.text.trim() == label).map(|s| s.style)
}

#[test]
fn test_keyboard_creation() {
    let kb = Keyboard::new();
    assert!(kb.get_key_position("Space").is_some());
    assert!(kb.get_key_position("a").is_some());
    assert!(kb.get_key_position("Ctrl").is_some());
}

#[test]
fn test_render_keyboard() {
    let kb = Keyboard::new();
    let lines = kb.render(&[plain("f"), plain("f")]);
    assert!(!lines.is_empty());
}

#[test]
fn key_positions_by_name_and_lower_case() {
    let kb = Keyboard::new();
    let p = kb.get_key_position("A").unwrap();
    assert_eq!((p.row, p.col, p.width), (3, 8, 1));
    let p = kb.get_key_position("Space").unwrap();
    assert_eq!((p.row, p.col, p.width), (5, 14, 23));
    let p = kb.get_key_position("Backsp").unwrap();
    assert_eq!((p.row, p.col, p.width), (1, 53, 6));
    assert!(kb.get_key_position("BACKSP").is_none());
    assert!(kb.get_key_position("Up").is_none());
    let d = Keyboard::default();
    assert!(d.get_key_position("F12").is_some());
}

#[test]
fn no_keys_renders_whole_layout_neutral() {
    let kb = Keyboard::new();
    let layout = kb.get_layout_lines();
    let lines = kb.render(&[]);
    assert_eq!(lines.len(), layout.len());
    for (line, text) in lines.iter().zip(layout.iter()) {
        assert_eq!(line_text(line), *text);
        assert!(line.iter().all(|s| s.style == KeyStyle::Neutral));
    }
    let legend = kb.render_legend(&[]);
    assert_eq!(legend.len(), layout.len());
    for (line, text) in legend.iter().zip(layout.iter()) {
        assert_eq!(line_text(line), *text);
        assert!(line.iter().all(|s| s.style == KeyStyle::Neutral));
    }
}

#[test]
fn animation_styles_by_kind() {
    let kb = Keyboard::new();
    let frames = frames_of("<leader><C-w>x");
    let lines = kb.render(&frames[0].keys);
    assert_eq!(style_of(&lines, 11, "Space"), Some(KeyStyle::Leader));
    assert_eq!(style_of(&lines, 7, "a"), Some(KeyStyle::Neutral));
    let lines = kb.render(&frames[1].keys);
    assert_eq!(style_of(&lines, 7, "Ctrl"), Some(KeyStyle::Modifier));
    assert_eq!(style_of(&lines, 11, "Ctrl"), Some(KeyStyle::Modifier));
    assert_eq!(style_of(&lines, 11, "Ct"), Some(KeyStyle::Modifier));
    assert_eq!(style_of(&lines, 5, "w"), Some(KeyStyle::Highlight));
    let lines = kb.render(&frames[2].keys);
    assert_eq!(style_of(&lines, 9, "x"), Some(KeyStyle::Highlight));
}

#[test]
fn abbreviated_labels_match_full_names() {
    let kb = Keyboard::new();
    let frames = frames_of("<BS><CR>");
    let lines = kb.render(&frames[0].keys);
    assert_eq!(style_of(&lines, 3, "Bsp"), Some(KeyStyle::Highlight));
    let lines = kb.render(&frames[1].keys);
    assert_eq!(style_of(&lines, 7, "Ent"), Some(KeyStyle::Highlight));
}

#[test]
fn shift_shows_shifted_layout() {
    let kb = Keyboard::new();
    let frames = frames_of("gD");
    let unshifted = kb.render(&frames[0].keys);
    assert_eq!(line_text(&unshifted[7]), "│Ctrl  │a │s │d │f │g │h │j │k │l │; │' │Ent │");
    assert_eq!(style_of(&unshifted, 7, "g"), Some(KeyStyle::Highlight));
    let shifted = kb.render(&frames[1].keys);
    assert_eq!(line_text(&shifted[7]), "│Ctrl  │A │S │D │F │G │H │J │K │L │: │\" │Ent │");
    assert_eq!(line_text(&shifted[3]), "│ ~  │! │@ │# │$ │% │^ │& │* │( │) │_ │+ │Bsp│");
    assert_eq!(style_of(&shifted, 7, "D"), Some(KeyStyle::Highlight));
    assert_eq!(style_of(&shifted, 9, "Shift"), Some(KeyStyle::Modifier));
}

#[test]
fn symbol_key_does_not_light_other_keycap_glyph() {
    let kb = Keyboard::new();
    let lines = kb.render(&[plain("!")]);
    assert_eq!(style_of(&lines, 3, "1"), Some(KeyStyle::Neutral));
}

#[test]
fn shifted_glyph_takes_style_of_its_unshifted_label() {
    let kb = Keyboard::new();
    let frames = frames_of("<S-1>");
    let lines = kb.render(&frames[0].keys);
    assert_eq!(style_of(&lines, 3, "!"), Some(KeyStyle::Highlight));
    assert_eq!(style_of(&lines, 3, "@"), Some(KeyStyle::Neutral));
}

#[test]
fn legend_colors_each_frame() {
    let kb = Keyboard::new();
    let frames = frames_of("<leader>fg");
    let lines = kb.render_legend(&frames);
    assert_eq!(style_of(&lines, 11, "Space"), Some(KeyStyle::Frame(0)));
    assert_eq!(style_of(&lines, 7, "f"), Some(KeyStyle::Frame(1)));
    assert_eq!(style_of(&lines, 7, "g"), Some(KeyStyle::Frame(2)));
    assert_eq!(style_of(&lines, 7, "h"), Some(KeyStyle::Neutral));
}

#[test]
fn legend_later_frame_wins_and_palette_wraps() {
    let kb = Keyboard::new();
    let frames = frames_of("<leader>ff");
    let lines = kb.render_legend(&frames);
    assert_eq!(style_of(&lines, 7, "f"), Some(KeyStyle::Frame(2)));
    let frames = frames_of("abcdefghij");
    assert_eq!(PALETTE_SIZE, 8);
    let lines = kb.render_legend(&frames);
    assert_eq!(style_of(&lines, 5, "i"), Some(KeyStyle::Frame(0)));
    assert_eq!(style_of(&lines, 7, "j"), Some(KeyStyle::Frame(1)));
}

#[test]
fn legend_line_exact() {
    let spans = legend_bar(&frames_of("<leader>fD"));
    let got: Vec<(String, KeyStyle)> = spans.into_iter().map(|s| (s.text, s.style)).collect();
    let want: Vec<(String, KeyStyle)> = vec![
        ("Sequence: ".to_string(), KeyStyle::Neutral),
        (" ␣ ".to_string(), KeyStyle::Frame(0)),
        (" → ".to_string(), KeyStyle::Separator),
        (" F ".to_string(), KeyStyle::Frame(1)),
        (" → ".to_string(), KeyStyle::Separator),
        (" Shift+D ".to_string(), KeyStyle::Frame(2)),
    ];
    assert_eq!(got, want);
}

#[test]
fn legend_line_without_frames() {
    let spans = legend_bar(&[]);
    assert_eq!(spans.len(), 1);
    assert_eq!(spans[0].text, "Sequence: ");
}

#[test]
fn key_positions_of_every_layout_key() {
    let kb = Keyboard::new();
    for label in ["Esc", "F5", "`", "=", "Backsp", "Tab", "\\", "Enter", "Shift", "RShift", "LCtrl", "Super", "Alt", "RAlt", "Fn", "Menu", "RCtrl"] {
        assert!(kb.get_key_position(label).is_some(), "{}", label);
    }
    let p = kb.get_key_position("Shift").unwrap();
    assert_eq!((p.row, p.col, p.width), (4, 1, 5));
}

#[test]
fn folded_label_styles() {
    let entries = vec![
        ("ctrl".to_string(), KeyStyle::Modifier),
        ("1".to_string(), KeyStyle::Highlight),
        ("f".to_string(), KeyStyle::Frame(1)),
        ("f".to_string(), KeyStyle::Frame(2)),
    ];
    assert_eq!(label_style_from_folded("f", None, &entries), KeyStyle::Frame(2));
    assert_eq!(label_style_from_folded("ct", None, &entries), KeyStyle::Modifier);
    assert_eq!(label_style_from_folded("!", Some("1"), &entries), KeyStyle::Highlight);
    assert_eq!(label_style_from_folded("!", None, &entries), KeyStyle::Neutral);
    assert_eq!(label_style_from_folded("g", None, &entries), KeyStyle::Neutral);
}

#[test]
fn folded_key_styles() {
    assert_eq!(key_style_from_folded("space", false, false), KeyStyle::Leader);
    assert_eq!(key_style_from_folded("x", false, true), KeyStyle::Leader);
    assert_eq!(key_style_from_folded("super", false, false), KeyStyle::Modifier);
    assert_eq!(key_style_from_folded("x", true, false), KeyStyle::Modifier);
    assert_eq!(key_style_from_folded("x", false, false), KeyStyle::Highlight);
}
