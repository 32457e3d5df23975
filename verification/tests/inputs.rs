use cagent_surfaces::input_syntax::CodeToken;
use cagent_surfaces::key::{KeyCode, KeyEvent, KeyModifiers};
use cagent_surfaces::multiline_input::MultilineInput;
use cagent_surfaces::settings::custom_setting_value;
use cagent_surfaces::single_line_input::SingleLineInput;
use cagent_surfaces::style::{CodeTokenKind, Role, Style};

#[test]
fn supports_line_and_word_editing() {
    let mut input = SingleLineInput::new("one two three".into(), "one two three".len());
    assert!(input.handle_key(KeyEvent::new(KeyCode::Char('a'), KeyModifiers::control())));
    assert_eq!(input.cursor(), 0);
    assert!(input.handle_key(KeyEvent::new(KeyCode::Char('e'), KeyModifiers::control())));
    assert!(input.handle_key(KeyEvent::new(KeyCode::Char('w'), KeyModifiers::control())));
    assert_eq!(input.into_parts(), ("one two ".into(), "one two ".len()));

    let mut input = SingleLineInput::new("one two three".into(), "one two ".len());
    assert!(input.handle_key(KeyEvent::new(KeyCode::Right, KeyModifiers::alt())));
    assert_eq!(input.cursor(), "one two three".len());
    assert!(input.handle_key(KeyEvent::new(KeyCode::Left, KeyModifiers::control())));
    assert_eq!(input.cursor(), "one two ".len());
}

#[test]
fn renders_a_visible_cursor_at_the_end() {
    let input = SingleLineInput::new("filter".into(), 6);
    let line = input.render_bounded(&[], 80, Style::plain(), Style::plain().reversed());
    assert_eq!(line.to_text(), "filter ");
    assert_eq!(line.spans.last().unwrap().style, Style::plain().reversed());
}

#[test]
fn bounded_render_keeps_the_cursor_visible() {
    let input = SingleLineInput::new("abcdefghijklmnopqrstuvwxyz".into(), 26);
    let line = input.render_bounded(&[], 8, Style::plain(), Style::plain().reversed());
    assert!(line.width() <= 8);
    assert_eq!(line.spans.last().unwrap().style, Style::plain().reversed());
}

fn token(kind: CodeTokenKind, text: &str) -> CodeToken {
    CodeToken { kind, text: text.into() }
}

#[test]
fn highlights_tagged_input_without_changing_cursor_style() {
    let source = r#"{"enabled":true}"#;
    let tokens = vec![
        token(CodeTokenKind::Punctuation, "{"),
        token(CodeTokenKind::StringLiteral, "\"enabled\""),
        token(CodeTokenKind::Punctuation, ":"),
        token(CodeTokenKind::Constant, "true"),
        token(CodeTokenKind::Punctuation, "}"),
    ];
    let input = SingleLineInput::new(source.into(), 0).with_syntax_language("json".into());
    let line = input.render_bounded(&tokens, 80, Style::plain(), Style::plain().reversed());

    assert!(line.spans.iter().any(|span| {
        span.text == "true" && span.style == Style::of(Role::Code(CodeTokenKind::Constant))
    }));
    assert_eq!(line.spans[0].style, Style::plain().reversed());
}

#[test]
fn click_mapping_preserves_grapheme_boundaries_and_bounded_windows() {
    let input = SingleLineInput::new("a界e\u{301}".into(), 0);
    assert_eq!(input.cursor_at_display_column(0, None), 0);
    assert_eq!(input.cursor_at_display_column(1, None), 1);
    // Both cells occupied by the wide grapheme select its leading boundary.
    assert_eq!(input.cursor_at_display_column(2, None), 1);
    assert_eq!(input.cursor_at_display_column(3, None), "a界".len());
    assert_eq!(
        input.cursor_at_display_column(99, None),
        "a界e\u{301}".len()
    );

    let input = SingleLineInput::new("abcdefgh".into(), 8);
    assert_eq!(input.cursor_at_display_column(0, Some(4)), 5);
    assert_eq!(input.cursor_at_display_column(99, Some(4)), 8);
}

#[test]
fn accepts_spaces_anywhere_in_the_input() {
    let mut input = SingleLineInput::new(String::new(), 0);
    assert!(input.handle_key(KeyEvent::new(KeyCode::Char(' '), KeyModifiers::none())));
    assert_eq!(input.into_parts(), (" ".into(), 1));

    let mut input = SingleLineInput::new("one".into(), 3);
    assert!(input.handle_key(KeyEvent::new(KeyCode::Char(' '), KeyModifiers::none())));
    assert!(input.handle_key(KeyEvent::new(KeyCode::Char('t'), KeyModifiers::none())));
    assert_eq!(input.into_parts(), ("one t".into(), 5));
}

#[test]
fn paste_remains_on_one_line_and_normalizes_line_endings() {
    let mut input = SingleLineInput::new("before after".into(), "before ".len());
    input.insert_text("one\r\ntwo\nthree\rfour");
    assert_eq!(
        input.into_parts(),
        (
            "before one two three fourafter".into(),
            "before one two three four".len()
        )
    );
}

#[test]
fn surface_control_custom_editors_start_empty_for_presets_and_restore_commands() {
    assert_eq!(custom_setting_value(None), "[]");
    assert_eq!(custom_setting_value(Some("triangles".into())), "[]");
    assert_eq!(custom_setting_value(Some("braille".into())), "[]");
    assert_eq!(
        custom_setting_value(Some("[\"!\", \" \"]".into())),
        "[\"!\", \" \"]"
    );
    assert_eq!(
        custom_setting_value(Some(
            "{ command = [\"nvim\"], mode = \"foreground\" }".into()
        )),
        "{ command = [\"nvim\"], mode = \"foreground\" }"
    );
}

#[test]
fn surface_control_settings_custom_editors_start_empty_for_presets_and_restore_commands() {
    assert_eq!(custom_setting_value(None), "[]");
    assert_eq!(custom_setting_value(Some("triangles".into())), "[]");
    assert_eq!(custom_setting_value(Some("braille".into())), "[]");
    assert_eq!(
        custom_setting_value(Some("[\"!\", \" \"]".into())),
        "[\"!\", \" \"]"
    );
    assert_eq!(
        custom_setting_value(Some(
            "{ command = [\"nvim\"], mode = \"foreground\" }".into()
        )),
        "{ command = [\"nvim\"], mode = \"foreground\" }"
    );
}

#[test]
fn the_window_contains_the_cluster_at_the_cursor() {
    let input = SingleLineInput::new("界界".into(), 3);
    assert_eq!(input.bounded_range(2), (3, 6));
    let line = input.render_bounded(&[], 2, Style::plain(), Style::of(Role::SearchCursor));
    assert_eq!(line.to_text(), "界");
    assert_eq!(line.spans[0].style, Style::of(Role::SearchCursor));
    let input = SingleLineInput::new("a界b".into(), 4);
    assert_eq!(input.bounded_range(2), (4, 5));
    for width in 1..8 {
        for cursor in [0, 1, 4, 5] {
            let input = SingleLineInput::new("a界b".into(), cursor);
            let (start, end) = input.bounded_range(width);
            assert!(start <= cursor && cursor <= end);
            assert!(cursor < end || cursor == 5);
        }
    }
}

#[test]
fn the_window_starts_at_the_column_that_the_cursor_leaves() {
    let range = |text: &str, cursor, width| {
        SingleLineInput::new(text.into(), cursor).bounded_range(width)
    };
    assert_eq!(range("abc\u{200b}", 3, 3), (1, 6));
    assert_eq!(range("a\u{200b}bc", 6, 3), (4, 6));
    assert_eq!(range("界\u{200b}", 3, 2), (0, 6));
    assert_eq!(range("abcdefgh", 8, 4), (5, 8));
    assert_eq!(range("abcdefgh", 3, 4), (0, 4));
    assert_eq!(range("abcdefgh", 8, 1), (8, 8));
    assert_eq!(range("\u{200b}abc", 0, 4), (0, 6));
}

#[test]
fn rows_are_moved_through_at_the_same_column() {
    let press = |input: &mut MultilineInput, code, capacity| {
        input.handle_key_in_view(KeyEvent::new(code, KeyModifiers::none()), 10, capacity)
    };
    let mut input = MultilineInput::new("abcdef\nxy\nuvwxyz".into(), 4);
    assert!(press(&mut input, KeyCode::Down, 5));
    assert_eq!(input.cursor(), 9);
    assert!(press(&mut input, KeyCode::Down, 5));
    assert_eq!(input.cursor(), 12);
    assert!(!press(&mut input, KeyCode::Down, 5));
    assert_eq!(input.cursor(), 12);
    assert!(press(&mut input, KeyCode::PageUp, 5));
    assert_eq!(input.cursor(), 2);
    assert!(!press(&mut input, KeyCode::Up, 5));
    assert!(press(&mut input, KeyCode::PageDown, 1));
    assert_eq!(input.cursor(), 9);
    assert!(press(&mut input, KeyCode::Char('!'), 1));
    assert_eq!(input.text(), "abcdef\nxy!\nuvwxyz");

    let mut wrapped = MultilineInput::new("abcdefghijkl".into(), 10);
    assert!(press(&mut wrapped, KeyCode::Up, 5));
    assert_eq!(wrapped.cursor(), 2);
    let mut wide = MultilineInput::new("界界界界bcdefg".into(), 16);
    let up = KeyEvent::new(KeyCode::Up, KeyModifiers::none());
    assert!(wide.handle_key_in_view(up, 9, 5));
    assert_eq!(wide.cursor(), 6);
}
