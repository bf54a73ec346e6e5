use lazyvim_helper::commands::{Category, Command, Mode};
use lazyvim_helper::diagram::KeyStyle;
use lazyvim_helper::ui::{visible_range, App, InputKey, ViewMode};

fn catalog() -> Vec<Command> {
    vec![
        Command {
            keys: "<leader>ff".to_string(),
            description: "Find files".to_string(),
            category: Category::Search,
            mode: Mode::Normal,
        },
        Command {
            keys: "<C-w>v".to_string(),
            description: "Split vertical".to_string(),
            category: Category::Window,
            mode: Mode::Normal,
        },
        Command {
            keys: "gD".to_string(),
            description: "Go to declaration".to_string(),
            category: Category::Lsp,
            mode: Mode::Normal,
        },
    ]
}

#[test]
fn view_mode_toggles() {
    let mut m = ViewMode::default();
    assert_eq!(m, ViewMode::Animation);
    m.toggle();
    assert_eq!(m, ViewMode::Legend);
    m.toggle();
    assert_eq!(m, ViewMode::Animation);
}

#[test]
fn new_app_lists_everything() {
    let app = App::new(catalog());
    assert_eq!(app.filtered_results, vec![0, 1, 2]);
    assert_eq!(app.selected_index, 0);
    assert!(!app.should_quit);
    assert_eq!(app.selected_command().unwrap().keys, "<leader>ff");
}

#[test]
fn first_tick_loads_selected_frames() {
    let mut app = App::new(catalog());
    app.tick(0);
    assert_eq!(app.animation.frames().len(), 3);
    assert_eq!(app.last_selected, Some(0));
    app.tick(500);
    assert_eq!(app.animation.frame_index(), 1);
}

#[test]
fn selection_wraps_both_ways() {
    let mut app = App::new(catalog());
    app.handle_key(InputKey::Up, false);
    assert_eq!(app.selected_index, 2);
    app.handle_key(InputKey::Down, false);
    assert_eq!(app.selected_index, 0);
    app.handle_key(InputKey::Tab, false);
    assert_eq!(app.selected_index, 1);
    app.handle_key(InputKey::BackTab, false);
    assert_eq!(app.selected_index, 0);
    app.tick(0);
    app.handle_key(InputKey::Down, false);
    app.tick(400);
    assert_eq!(app.last_selected, Some(1));
    assert_eq!(app.animation.frame_index(), 0);
    assert_eq!(app.animation.frames().len(), 2);
}

#[test]
fn typing_searches_and_backspace_edits() {
    let mut app = App::new(catalog());
    app.handle_key(InputKey::Char('s'), false);
    app.handle_key(InputKey::Char('p'), false);
    assert_eq!(app.query, "sp");
    assert_eq!(app.filtered_results[0], 1);
    assert_eq!(app.selected_index, 0);
    assert_eq!(app.animation.frames().len(), 2);
    app.handle_key(InputKey::Backspace, false);
    assert_eq!(app.query, "s");
    app.handle_key(InputKey::Char('q'), false);
    app.handle_key(InputKey::Char('q'), false);
    app.handle_key(InputKey::Char('q'), false);
    assert!(app.filtered_results.is_empty());
    assert!(app.selected_command().is_none());
    assert!(app.animation.frames().is_empty());
}

#[test]
fn backspace_on_empty_query_keeps_it_empty() {
    let mut app = App::new(catalog());
    app.handle_key(InputKey::Backspace, false);
    assert_eq!(app.query, "");
    assert_eq!(app.filtered_results, vec![0, 1, 2]);
}

#[test]
fn esc_clears_then_quits() {
    let mut app = App::new(catalog());
    app.handle_key(InputKey::Char('g'), false);
    app.handle_key(InputKey::Esc, false);
    assert_eq!(app.query, "");
    assert_eq!(app.filtered_results, vec![0, 1, 2]);
    assert!(!app.should_quit);
    app.handle_key(InputKey::Esc, false);
    assert!(app.should_quit);
}

#[test]
fn ctrl_keys_quit_and_switch_view() {
    let mut app = App::new(catalog());
    app.handle_key(InputKey::Char('v'), true);
    assert_eq!(app.view_mode, ViewMode::Legend);
    assert_eq!(app.query, "");
    app.handle_key(InputKey::Other, false);
    assert_eq!(app.view_mode, ViewMode::Legend);
    app.handle_key(InputKey::Char('c'), true);
    assert!(app.should_quit);
}

#[test]
fn keyboard_lines_follow_view_mode() {
    let mut app = App::new(catalog());
    app.tick(0);
    let lines = app.keyboard_lines();
    let space = lines[11].iter().find(|s| s.text.trim() == "Space").unwrap();
    assert_eq!(space.style, KeyStyle::Leader);
    app.handle_key(InputKey::Char('v'), true);
    app.handle_key(InputKey::Esc, false);
    app.handle_key(InputKey::Char('v'), true);
    app.handle_key(InputKey::Char('v'), true);
    let lines = app.keyboard_lines();
    let f = lines[7].iter().find(|s| s.text.trim() == "f").unwrap();
    assert_eq!(f.style, KeyStyle::Frame(2));
    assert_eq!(app.legend_line().len(), 6);
}

#[test]
fn results_window_centers_selection() {
    assert_eq!(visible_range(0, 3, 10), (0, 3));
    assert_eq!(visible_range(10, 30, 8), (6, 14));
    assert_eq!(visible_range(29, 30, 8), (22, 30));
    assert_eq!(visible_range(3, 30, 0), (0, 0));
    assert_eq!(visible_range(0, 0, 5), (0, 0));
}

#[test]
fn controller_stays_consistent() {
    let mut app = App::new(catalog());
    assert!(app.is_consistent());
    app.handle_key(InputKey::Char('x'), false);
    assert!(app.is_consistent());
    app.filtered_results = vec![7];
    assert!(!app.is_consistent());
}

#[test]
fn reset_animation_restarts_on_selection() {
    let mut app = App::new(catalog());
    app.handle_key(InputKey::Down, false);
    app.reset_animation();
    assert_eq!(app.last_selected, Some(1));
    assert_eq!(app.animation.frame_index(), 0);
    assert_eq!(app.animation.frames().len(), 2);
    assert_eq!(app.animation.frames()[0].keys[0].key, "Ctrl");
    app.tick(500);
    assert_eq!(app.animation.frame_index(), 1);
    app.reset_animation();
    assert_eq!(app.animation.frame_index(), 0);
    assert_eq!(app.query, "");
    assert_eq!(app.filtered_results, vec![0, 1, 2]);
    assert_eq!(app.selected_index, 1);
}
