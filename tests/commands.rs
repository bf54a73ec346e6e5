use lazyvim_helper::commands::{
    lone_key_from_folded, modifier_from_folded, target_from_folded, Category, Command, Key,
    KeyFrame, Mode,
};

fn command(keys: &str) -> Command {
    Command {
        keys: keys.to_string(),
        description: "test".to_string(),
        category: Category::General,
        mode: Mode::Normal,
    }
}

fn labels(frames: &[KeyFrame]) -> Vec<Vec<String>> {
    frames
        .iter()
        .map(|f| f.keys.iter().map(|k| k.key.clone()).collect())
        .collect()
}

#[test]
fn test_parse_leader_key() {
    let cmd = Command {
        keys: "<leader>ff".to_string(),
        description: "Find files".to_string(),
        category: Category::Search,
        mode: Mode::Normal,
    };

    let frames = cmd.parse_keys();
    assert_eq!(frames.len(), 3);
    assert_eq!(frames[0].keys.len(), 1);
    assert!(frames[0].keys[0].is_leader);
    assert_eq!(frames[0].keys[0].key, "Space");
    assert_eq!(frames[1].keys[0].key, "f");
    assert_eq!(frames[2].keys[0].key, "f");
}

#[test]
fn test_parse_ctrl_combo() {
    let cmd = Command {
        keys: "<C-w>v".to_string(),
        description: "Split vertical".to_string(),
        category: Category::Window,
        mode: Mode::Normal,
    };

    let frames = cmd.parse_keys();
    assert_eq!(frames.len(), 2);
    assert_eq!(frames[0].keys.len(), 2);
    assert_eq!(frames[0].keys[0].key, "Ctrl");
    assert!(frames[0].keys[0].is_modifier);
    assert_eq!(frames[0].keys[1].key, "w");
    assert_eq!(frames[1].keys.len(), 1);
    assert_eq!(frames[1].keys[0].key, "v");
}

#[test]
fn test_parse_uppercase_with_shift() {
    let cmd = Command {
        keys: "gD".to_string(),
        description: "Go to declaration".to_string(),
        category: Category::Lsp,
        mode: Mode::Normal,
    };

    let frames = cmd.parse_keys();
    assert_eq!(frames.len(), 2);
    assert_eq!(frames[0].keys.len(), 1);
    assert_eq!(frames[0].keys[0].key, "g");
    assert_eq!(frames[1].keys.len(), 2);
    assert_eq!(frames[1].keys[0].key, "Shift");
    assert!(frames[1].keys[0].is_modifier);
    assert_eq!(frames[1].keys[1].key, "d");
}

#[test]
fn test_parse_shift_combo() {
    let cmd = Command {
        keys: "<S-h>".to_string(),
        description: "Previous buffer".to_string(),
        category: Category::Buffer,
        mode: Mode::Normal,
    };

    let frames = cmd.parse_keys();
    assert_eq!(frames.len(), 1);
    assert_eq!(frames[0].keys.len(), 2);
    assert_eq!(frames[0].keys[0].key, "Shift");
    assert_eq!(frames[0].keys[1].key, "h");
}

#[test]
fn parse_twice_gives_same_frames() {
    for notation in ["<leader>ff", "<C-w>v", "gD", "<S-h>", "", "<C-", "a-b+c", "<Foo>x"] {
        let cmd = command(notation);
        assert_eq!(cmd.parse_keys(), cmd.parse_keys());
    }
}

#[test]
fn parse_leader_flags_exact() {
    let frames = command("<leader>ff").parse_keys();
    assert_eq!(
        frames[0].keys,
        vec![Key { key: "Space".to_string(), is_modifier: false, is_leader: true }]
    );
    assert!(!frames[1].keys[0].is_leader && !frames[1].keys[0].is_modifier);
    assert!(!frames[2].keys[0].is_leader && !frames[2].keys[0].is_modifier);
}

#[test]
fn parse_ctrl_combo_flags_exact() {
    let frames = command("<C-w>v").parse_keys();
    assert!(!frames[0].keys[1].is_modifier);
    assert!(!frames[1].keys[0].is_modifier);
}

#[test]
fn parse_shift_combo_flags_exact() {
    let frames = command("<S-h>").parse_keys();
    assert!(frames[0].keys[0].is_modifier);
    assert!(!frames[0].keys[1].is_modifier);
}

#[test]
fn parse_empty_notation_gives_no_frames() {
    assert!(command("").parse_keys().is_empty());
}

#[test]
fn parse_skips_separators() {
    let frames = command("a-b+c").parse_keys();
    assert_eq!(labels(&frames), vec![vec!["a"], vec!["b"], vec!["c"]]);
    assert!(command("-+-").parse_keys().is_empty());
}

#[test]
fn parse_unterminated_token_runs_to_end() {
    let frames = command("x<C-w").parse_keys();
    assert_eq!(labels(&frames), vec![vec!["x"], vec!["Ctrl", "w"]]);
}

#[test]
fn parse_simple_special_keys() {
    let frames = command("<CR><esc><BS><Tab><Space><Foo>").parse_keys();
    assert_eq!(
        labels(&frames),
        vec![vec!["Enter"], vec!["Esc"], vec!["Backsp"], vec!["Tab"], vec!["Space"], vec!["Foo"]]
    );
    assert!(frames[4].keys[0].is_leader);
    assert!(!frames[5].keys[0].is_leader && !frames[5].keys[0].is_modifier);
}

#[test]
fn parse_combination_targets_and_modifiers() {
    let frames = command("<C-Up><A-CR><M-Space><Ctrl-Shift-Left><Z-q><C-W>").parse_keys();
    assert_eq!(
        labels(&frames),
        vec![
            vec!["Ctrl", "Up"],
            vec!["Alt", "Enter"],
            vec!["Alt", "Space"],
            vec!["Ctrl", "Shift", "Left"],
            vec!["q"],
            vec!["Ctrl", "w"],
        ]
    );
    assert!(frames[2].keys[1].is_leader);
    assert!(frames[3].keys[1].is_modifier);
}

#[test]
fn parse_empty_token_and_trailing_dash() {
    let frames = command("<>").parse_keys();
    assert_eq!(labels(&frames), vec![vec![""]]);
    let frames = command("<C->").parse_keys();
    assert_eq!(labels(&frames), vec![vec!["Ctrl", ""]]);
}

#[test]
fn parse_non_letter_characters_verbatim() {
    let frames = command("1!é").parse_keys();
    assert_eq!(labels(&frames), vec![vec!["1"], vec!["!"], vec!["é"]]);
}

#[test]
fn key_frame_constructors() {
    let k = Key { key: "x".to_string(), is_modifier: false, is_leader: false };
    let single = KeyFrame::single(Key { key: "x".to_string(), is_modifier: false, is_leader: false });
    assert_eq!(single, KeyFrame::new(vec![k]));
}

#[test]
fn category_labels() {
    assert_eq!(Category::Lsp.as_str(), "LSP");
    assert_eq!(Category::Ui.as_str(), "UI");
    assert_eq!(Category::Navigation.as_str(), "Navigation");
    assert_eq!(Category::Plugin.as_str(), "Plugin");
}

#[test]
fn mode_defaults_to_normal() {
    assert_eq!(Mode::default(), Mode::Normal);
}

#[test]
fn combination_target_leader_is_leader_space() {
    for notation in ["<C-leader>", "<S-LEADER>", "<C-space>", "<A-Space>"] {
        let frames = command(notation).parse_keys();
        assert_eq!(frames.len(), 1);
        assert_eq!(frames[0].keys.len(), 2);
        assert_eq!(
            frames[0].keys[1],
            Key { key: "Space".to_string(), is_modifier: false, is_leader: true }
        );
    }
}

#[test]
fn folded_lone_keys() {
    let k = lone_key_from_folded("LEADER".to_string(), "leader");
    assert_eq!(k, Key { key: "Space".to_string(), is_modifier: false, is_leader: true });
    let k = lone_key_from_folded("Return".to_string(), "return");
    assert_eq!(k, Key { key: "Enter".to_string(), is_modifier: false, is_leader: false });
    let k = lone_key_from_folded("Foo".to_string(), "foo");
    assert_eq!(k.key, "Foo");
}

#[test]
fn folded_modifiers() {
    assert_eq!(modifier_from_folded("control"), Some("Ctrl"));
    assert_eq!(modifier_from_folded("s"), Some("Shift"));
    assert_eq!(modifier_from_folded("meta"), Some("Alt"));
    assert_eq!(modifier_from_folded("z"), None);
    assert_eq!(modifier_from_folded("C"), None);
}

#[test]
fn folded_targets() {
    let k = target_from_folded("space".to_string());
    assert_eq!(k, Key { key: "Space".to_string(), is_modifier: false, is_leader: true });
    assert_eq!(target_from_folded("esc".to_string()).key, "Esc");
    assert_eq!(target_from_folded("right".to_string()).key, "Right");
    assert_eq!(target_from_folded("w".to_string()).key, "w");
}
