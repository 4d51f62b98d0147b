use mica::config::keymap::Keymap;
use mica::terminal::links::find_file_references;
use mica::terminal::input::{encode_key, encode_paste, KeyCode, KeyInput, KeyModifiers};
use mica::terminal::screen::{Screen, TerminalColor, TerminalSnapshot};

const NONE: KeyModifiers = KeyModifiers { control: false, alt: false, shift: false };
const CONTROL: KeyModifiers = KeyModifiers { control: true, alt: false, shift: false };
const ALT: KeyModifiers = KeyModifiers { control: false, alt: true, shift: false };

fn key(code: KeyCode, modifiers: KeyModifiers) -> KeyInput {
    KeyInput { code, modifiers }
}

/// Hands the parser's callbacks to the screen.
struct Performer<'a>(&'a mut Screen);

impl vte::Perform for Performer<'_> {
    fn print(&mut self, c: char) {
        self.0.put_char(c);
    }

    fn execute(&mut self, byte: u8) {
        self.0.execute(byte);
    }

    fn csi_dispatch(&mut self, params: &vte::Params, intermediates: &[u8], ignore: bool, action: char) {
        let values: Vec<u16> = params.iter().map(|p| p.first().copied().unwrap_or(0)).collect();
        self.0.csi_dispatch(&values, intermediates.contains(&b'?'), ignore, action);
    }

    fn esc_dispatch(&mut self, _intermediates: &[u8], ignore: bool, byte: u8) {
        self.0.esc_dispatch(ignore, byte);
    }

    fn osc_dispatch(&mut self, params: &[&[u8]], _bell_terminated: bool) {
        let owned: Vec<Vec<u8>> = params.iter().map(|p| p.to_vec()).collect();
        self.0.osc_dispatch(&owned);
    }
}

struct Emulator {
    parser: vte::Parser,
    screen: Screen,
}

impl Emulator {
    fn new(rows: usize, cols: usize, scrollback: usize) -> Self {
        Emulator { parser: vte::Parser::new(), screen: Screen::new(rows, cols, scrollback) }
    }

    fn feed(&mut self, bytes: &[u8]) {
        let mut performer = Performer(&mut self.screen);
        for byte in bytes {
            self.parser.advance(&mut performer, *byte);
        }
    }
}

fn text(snapshot: &TerminalSnapshot, row: usize) -> String {
    snapshot.lines[row]
        .iter()
        .filter(|cell| !cell.wide_continuation)
        .map(|cell| cell.character)
        .collect::<String>()
        .trim_end()
        .to_owned()
}

#[test]
fn resolves_default_binding() {
    let keymap = Keymap::default();
    assert_eq!(keymap.resolve(key(KeyCode::Char('s'), CONTROL)), Some("editor.save"));
}

#[test]
fn encodes_control_alt_cursor_and_bracketed_paste() {
    assert_eq!(encode_key(key(KeyCode::Char('c'), CONTROL), false), Some(vec![3]));
    assert_eq!(encode_key(key(KeyCode::Up, NONE), true), Some(b"\x1bOA".to_vec()));
    assert_eq!(encode_key(key(KeyCode::Char('x'), ALT), false), Some(b"\x1bx".to_vec()));
    assert_eq!(encode_paste("ok", true), b"\x1b[200~ok\x1b[201~");
}

#[test]
fn plain_paste_and_unknown_keys() {
    assert_eq!(encode_paste("ok", false), b"ok");
    assert_eq!(encode_key(key(KeyCode::Other, NONE), false), None);
    assert_eq!(encode_key(key(KeyCode::Up, NONE), false), Some(b"\x1b[A".to_vec()));
    assert_eq!(encode_key(key(KeyCode::Enter, NONE), false), Some(vec![b'\r']));
}

#[test]
fn parses_cursor_color_unicode_and_scrollback() {
    let mut terminal = Emulator::new(2, 8, 10);
    terminal.feed(b"one\r\ntwo\r\n\x1b[38;2;1;2;3mX");
    terminal.feed("日".as_bytes());
    let current = terminal.screen.snapshot(0);
    assert_eq!(text(&current, 0), "two");
    assert_eq!(text(&current, 1), "X日");
    assert_eq!(current.lines[1][0].style.foreground, TerminalColor::Rgb(1, 2, 3));
    assert_eq!(terminal.screen.scrollback_len(), 1);
    assert_eq!(text(&terminal.screen.snapshot(1), 0), "one");
}

#[test]
fn tracks_private_modes_and_restores_primary_screen() {
    let mut terminal = Emulator::new(3, 10, 10);
    terminal.feed(b"primary\x1b[?1h\x1b[?2004h\x1b[?1049halt");
    let alternate = terminal.screen.snapshot(0);
    assert!(alternate.application_cursor);
    assert!(alternate.bracketed_paste);
    assert!(alternate.alternate_screen);
    assert_eq!(text(&alternate, 0), "alt");
    terminal.feed(b"\x1b[?1049l");
    assert_eq!(text(&terminal.screen.snapshot(0), 0), "primary");
}

#[test]
fn resizes_without_losing_visible_content() {
    let mut terminal = Emulator::new(2, 4, 10);
    terminal.feed(b"abc");
    terminal.screen.resize(3, 8);
    let snapshot = terminal.screen.snapshot(0);
    assert_eq!(snapshot.lines.len(), 3);
    assert_eq!(snapshot.lines[0].len(), 8);
    assert_eq!(text(&snapshot, 0), "abc");
}

#[test]
fn extracts_multiline_selection_without_padding() {
    let mut terminal = Emulator::new(2, 8, 10);
    terminal.feed(b"hello\r\nworld");
    assert_eq!(terminal.screen.selected_text(0, (0, 1), (1, 2)), "ello\nwor");
}

#[test]
fn window_title_comes_from_osc() {
    let mut terminal = Emulator::new(2, 8, 10);
    terminal.feed(b"\x1b]0;shell\x07");
    assert_eq!(terminal.screen.snapshot(0).title.as_deref(), Some("shell"));
}

#[test]
fn cursor_moves_are_clamped_to_the_grid() {
    let mut terminal = Emulator::new(3, 5, 10);
    terminal.feed(b"\x1b[10;10H");
    let snapshot = terminal.screen.snapshot(0);
    assert_eq!((snapshot.cursor_row, snapshot.cursor_col), (2, 4));
    terminal.feed(b"\x1b[2A\x1b[3D");
    let snapshot = terminal.screen.snapshot(0);
    assert_eq!((snapshot.cursor_row, snapshot.cursor_col), (0, 1));
}

#[test]
fn detects_relative_and_absolute_compiler_locations() {
    let references = find_file_references("error src/main.rs:12:5 and /tmp/lib.py:3");
    assert_eq!(references.len(), 2);
    assert_eq!(references[0].path, "src/main.rs");
    assert_eq!((references[0].line, references[0].column), (12, 5));
    assert_eq!((references[1].line, references[1].column), (3, 1));
}

#[test]
fn reference_columns_count_chars_not_bytes() {
    let references = find_file_references("→ 日本.rs:7 done");
    assert_eq!(references.len(), 1);
    assert_eq!(references[0].path, "日本.rs");
    assert_eq!(references[0].display_columns, 2..9);
    assert!(find_file_references("no locations here: README").is_empty());
}

