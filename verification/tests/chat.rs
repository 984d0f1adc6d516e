use sebeke::chat::{utc_offset_of, AppEvent, AppState, ChatMessage, Key, KeyAction};
use sebeke::chat_view::{
    input_text, input_title, list_item, list_items, messages_title, status_line, Color, Face, Span,
};
use sebeke::text::{
    contains, decimal_string, pad_before, replace_all, starts_with, trim, two_digit_string,
};
use sebeke::tui;

fn message(from: &str, text: &str) -> ChatMessage {
    ChatMessage::at(from, text, 52_320)
}

fn chat(count: usize) -> AppState {
    let mut app = AppState::new("telemetry_chat".to_string(), "me".to_string());
    for _ in 0..count {
        app.push(message("alice", "hello"));
    }
    app
}

fn line(spans: &Vec<Span>) -> String {
    spans.iter().map(|s| s.text.as_str()).collect()
}

fn type_text(app: &mut AppState, text: &str) {
    for c in text.chars() {
        assert!(matches!(app.handle_key(Key::Char(c), false), KeyAction::Continue));
    }
}

#[test]
fn times_of_day() {
    assert_eq!(ChatMessage::time_string(0), "00:00");
    assert_eq!(ChatMessage::time_string(59), "00:00");
    assert_eq!(ChatMessage::time_string(52_320), "14:32");
    assert_eq!(ChatMessage::time_string(86_399), "23:59");
    assert_eq!(ChatMessage::time_string(86_400), "00:00");
    let now = ChatMessage::get_time_string(0).unwrap();
    assert_eq!(now.len(), 5);
    assert_eq!(now.as_bytes()[2], b':');
    let message = ChatMessage::new("me", "hi", 0, 3_600).unwrap();
    assert_eq!(message.from, "me");
    assert_eq!(message.text, "hi");
    assert_eq!(message.ts.len(), 5);
}

#[test]
fn times_are_local() {
    let at = |seconds, offset| {
        ChatMessage::time_at(ChatMessage::local_reading(Some(seconds), offset)).unwrap()
    };
    assert_eq!(at(52_320, 0), "14:32");
    assert_eq!(at(52_320, 7_200), "16:32");
    assert_eq!(at(52_320, 19_800), "20:02");
    assert_eq!(at(52_320, -54_000), "23:32");
    assert_eq!(at(86_399, 60), "00:00");
    assert_eq!(at(0, -60), "23:59");
    assert_eq!(ChatMessage::local_reading(Some(86_400 * 3 + 5), 0), Some(5));
    assert_eq!(ChatMessage::local_reading(Some(u64::MAX), i32::MAX), Some((u64::MAX as u128 + i32::MAX as u128).rem_euclid(86_400) as u64));
    assert_eq!(ChatMessage::local_reading(Some(0), i32::MIN), Some((i32::MIN as i64).rem_euclid(86_400) as u64));
    assert_eq!(ChatMessage::local_reading(None, 0), None);
}

#[test]
fn a_run_of_events() {
    let mut app = chat(0);
    assert!(matches!(app.handle_event(AppEvent::Tick), KeyAction::Continue));
    app.handle_event(AppEvent::Message(message("alice", "hello")));
    app.handle_event(AppEvent::Message(message("me", "hello")));
    assert_eq!(app.messages.len(), 1);
    for c in "/q ".chars() {
        let typed = AppEvent::Key { key: Key::Char(c), control: false };
        assert!(matches!(app.handle_event(typed), KeyAction::Continue));
        assert!(app.input.chars().count() <= app.input_limit);
    }
    let interrupted = AppEvent::Key { key: Key::Char('c'), control: true };
    assert!(matches!(app.handle_event(interrupted), KeyAction::Quit));
    assert_eq!(app.input, "/q ");
    assert_eq!(app.messages.len(), 1);
    let entered = AppEvent::Key { key: Key::Enter, control: false };
    assert!(matches!(app.handle_event(entered), KeyAction::Quit));
}

#[test]
fn a_clock_without_a_reading_gives_no_time() {
    assert_eq!(ChatMessage::time_at(Some(52_320)).unwrap(), "14:32");
    assert_eq!(ChatMessage::time_at(None), None);
    let message = ChatMessage::stamped("me", "hi", Some("14:32".to_string())).unwrap();
    assert_eq!(message.from, "me");
    assert_eq!(message.text, "hi");
    assert_eq!(message.ts, "14:32");
    assert!(ChatMessage::stamped("me", "hi", None).is_none());
}

#[test]
fn a_new_chat() {
    let app = chat(0);
    assert!(app.messages.is_empty());
    assert_eq!(app.input, "");
    assert_eq!(app.input_limit, 280);
    assert_eq!(app.topic, "telemetry_chat");
    assert_eq!(app.own_id, "me");
    assert_eq!(app.selected, None);
    assert!(app.follow_tail);
}

#[test]
fn the_tail_is_followed() {
    let mut app = chat(3);
    assert_eq!(app.selected, Some(2));
    app.scroll_up(1);
    assert_eq!(app.selected, Some(1));
    assert!(!app.follow_tail);
    app.push(message("bob", "x"));
    assert_eq!(app.selected, Some(1));
    app.scroll_down(1);
    assert!(!app.follow_tail);
    app.scroll_down(1);
    assert_eq!(app.selected, Some(3));
    assert!(app.follow_tail);
    app.push(message("bob", "y"));
    assert_eq!(app.selected, Some(4));
}

#[test]
fn scrolling_stops_at_the_ends() {
    let mut app = chat(5);
    app.scroll_up(10);
    assert_eq!(app.selected, Some(0));
    app.scroll_down(100);
    assert_eq!(app.selected, Some(4));
    assert!(app.follow_tail);
    let mut empty = chat(0);
    empty.scroll_up(1);
    empty.scroll_down(1);
    empty.scroll_to_bottom();
    assert_eq!(empty.selected, None);
    assert!(empty.follow_tail);
    let mut one = chat(1);
    one.scroll_up(1);
    assert!(one.follow_tail);
}

#[test]
fn scrolling_back_ends_at_the_same_message() {
    let mut app = chat(20);
    app.scroll_up(7);
    app.scroll_down(7);
    assert_eq!(app.selected, Some(19));
}

#[test]
fn keys_scroll() {
    let mut app = chat(30);
    app.handle_key(Key::Up, false);
    assert_eq!(app.selected, Some(28));
    app.handle_key(Key::PageUp, false);
    assert_eq!(app.selected, Some(18));
    app.handle_key(Key::Down, false);
    assert_eq!(app.selected, Some(19));
    app.handle_key(Key::PageDown, false);
    assert_eq!(app.selected, Some(29));
    app.handle_key(Key::Home, false);
    assert_eq!(app.selected, Some(0));
    assert!(!app.follow_tail);
    app.handle_key(Key::End, false);
    assert_eq!(app.selected, Some(29));
    assert!(app.follow_tail);
    app.handle_key(Key::Other, false);
    assert_eq!(app.selected, Some(29));
    let mut empty = chat(0);
    empty.handle_key(Key::Home, false);
    assert!(empty.follow_tail);
}

#[test]
fn keys_quit() {
    let mut app = chat(0);
    assert!(matches!(app.handle_key(Key::Esc, false), KeyAction::Quit));
    assert!(matches!(app.handle_key(Key::Char('c'), true), KeyAction::Quit));
    assert!(matches!(app.handle_key(Key::Char('c'), false), KeyAction::Continue));
    assert!(matches!(app.handle_key(Key::Char('d'), true), KeyAction::Continue));
    assert_eq!(app.input, "cd");
}

#[test]
fn typing_is_limited() {
    let mut app = chat(0);
    type_text(&mut app, &"é".repeat(300));
    assert_eq!(app.input.chars().count(), 280);
    app.handle_key(Key::Backspace, false);
    assert_eq!(app.input.chars().count(), 279);
    app.input = String::new();
    app.handle_key(Key::Backspace, false);
    assert_eq!(app.input, "");
}

#[test]
fn enter_sends_commands_and_texts() {
    let mut app = chat(0);
    type_text(&mut app, "  hey there \u{3000}");
    match app.handle_key(Key::Enter, false) {
        KeyAction::Send(text) => assert_eq!(text, "hey there"),
        _ => panic!("the text is sent"),
    }
    assert_eq!(app.input, "");
    type_text(&mut app, "   ");
    assert!(matches!(app.handle_key(Key::Enter, false), KeyAction::Continue));
    assert_eq!(app.input, "");
    type_text(&mut app, " /quit ");
    assert!(matches!(app.handle_key(Key::Enter, false), KeyAction::Quit));
    type_text(&mut app, "/q");
    assert!(matches!(app.handle_key(Key::Enter, false), KeyAction::Quit));
    type_text(&mut app, "/quits");
    assert!(matches!(app.handle_key(Key::Enter, false), KeyAction::Send(_)));
}

#[test]
fn own_messages_are_not_doubled() {
    let mut app = chat(0);
    app.receive(message("me", "x"));
    assert!(app.messages.is_empty());
    app.receive(message("alice", "x"));
    assert_eq!(app.messages.len(), 1);
    assert_eq!(app.selected, Some(0));
}

#[test]
fn messages_are_listed() {
    let own = list_item(&ChatMessage::at("me", "hey there", 52_320), "me");
    assert_eq!(line(&own), "[14:32]  you  ›  hey there");
    assert_eq!(own[1].color, Color::Cyan);
    assert_eq!(own[1].face, Face::Bold);
    assert_eq!(own[3].color, Color::White);
    let other = list_item(&ChatMessage::at("alice", "hello", 52_260), "me");
    assert_eq!(line(&other), "[14:31]  alice  ›  hello");
    assert_eq!(other[1].color, Color::Yellow);
    assert_eq!(other[3].color, Color::Gray);
    let mut short = message("a", "b");
    short.ts = "9:05".to_string();
    assert_eq!(line(&list_item(&short, "me")), "[ 9:05]  a  ›  b");
    let app = chat(2);
    assert_eq!(list_items(&app).len(), 2);
    assert_eq!(line(&list_items(&app)[1]), "[14:32]  alice  ›  hello");
}

#[test]
fn the_status_bar() {
    let mut app = chat(2);
    assert_eq!(line(&status_line(&app)), " ● topic: telemetry_chat  node: me  2 messages");
    app.scroll_up(1);
    assert_eq!(
        line(&status_line(&app)),
        " ● topic: telemetry_chat  node: me  2 messages  ↑ scrolled — ↓/End to follow"
    );
    assert_eq!(status_line(&app)[4].face, Face::Italic);
    assert_eq!(messages_title(&app).text, " telemetry_chat ");
}

#[test]
fn the_input_box() {
    let mut app = chat(0);
    assert_eq!(
        line(&input_title(&app)),
        " message  280 left  Enter: send   Esc/Ctrl-C: quit   ↑↓: scroll "
    );
    assert_eq!(input_title(&app)[1].color, Color::DarkGray);
    app.input = "x".repeat(260);
    assert_eq!(input_title(&app)[1].text, "20 left");
    assert_eq!(input_title(&app)[1].color, Color::DarkGray);
    app.input.push('x');
    assert_eq!(input_title(&app)[1].text, "19 left");
    assert_eq!(input_title(&app)[1].color, Color::Red);
    app.input = "ab".to_string();
    assert_eq!(input_text(&app), "ab▌");
}

#[test]
fn the_board() {
    let mut board = tui::AppState::new("chat".to_string());
    assert_eq!(board.title(), " Received Messages on topic 'chat' ");
    assert!(matches!(board.handle_key(Key::Enter), tui::KeyAction::Continue));
    board.handle_key(Key::Char('a'));
    board.handle_key(Key::Char('b'));
    board.handle_key(Key::Backspace);
    board.handle_key(Key::Up);
    assert_eq!(board.input, "a");
    match board.handle_key(Key::Enter) {
        tui::KeyAction::Publish(text) => assert_eq!(text, "a"),
        _ => panic!("the text is published"),
    }
    assert_eq!(board.input, "");
    assert!(matches!(board.handle_key(Key::Esc), tui::KeyAction::Quit));
    board.receive("x".to_string());
    board.receive("y".to_string());
    board.arrived("é".as_bytes().to_vec());
    board.arrived(vec![0xFF, 0xFE]);
    assert_eq!(board.lines(), vec![">>> x", ">>> y", ">>> é"]);
}

#[test]
fn texts() {
    assert_eq!(decimal_string(0), "0");
    assert_eq!(decimal_string(u128::MAX), u128::MAX.to_string());
    assert_eq!(two_digit_string(7), "07");
    assert_eq!(two_digit_string(42), "42");
    assert_eq!(pad_before("abc", 5), "  abc");
    assert_eq!(pad_before("abcdef", 5), "abcdef");
    assert_eq!(trim("\t a b \n"), "a b");
    assert_eq!(trim("   "), "");
    assert_eq!(replace_all("aXXXb", "XX", "-"), "a-Xb");
    assert!(contains("abc", "bc"));
    assert!(contains("abc", ""));
    assert!(!contains("abc", "cb"));
    assert!(starts_with("abc", "ab"));
    assert!(!starts_with("ab", "abc"));
}

#[test]
fn white_space_and_nothing_else_is_trimmed() {
    for code in 0..0x11_0000u32 {
        if let Some(c) = char::from_u32(code) {
            assert_eq!(trim(&c.to_string()), c.to_string().trim());
        }
    }
}

#[test]
fn a_text_is_sent_once() {
    let mut app = chat(1);
    type_text(&mut app, " hey there ");
    let entered = AppEvent::Key { key: Key::Enter, control: false };
    let text = match app.handle_event(entered) {
        KeyAction::Send(text) => text,
        _ => panic!("the text is sent"),
    };
    assert_eq!(app.messages.len(), 1);
    assert!(app.send(&text, None).is_none());
    assert_eq!(app.messages.len(), 1);
    let sent = app.send(&text, Some("14:32".to_string())).unwrap();
    assert_eq!(sent.from, "me");
    assert_eq!(sent.text, "hey there");
    assert_eq!(sent.ts, "14:32");
    assert_eq!(app.messages.len(), 2);
    assert_eq!(app.messages[1].from, "me");
    assert_eq!(app.messages[1].text, "hey there");
    assert_eq!(app.messages[1].ts, "14:32");
    assert_eq!(app.selected, Some(1));
    assert_eq!(app.input, "");
    // Its echo from the bus is passed over.
    app.handle_event(AppEvent::Message(sent));
    assert_eq!(app.messages.len(), 2);
}

#[test]
fn zones() {
    assert_eq!(utc_offset_of("+0000"), Some(0));
    assert_eq!(utc_offset_of("+0130"), Some(5_400));
    assert_eq!(utc_offset_of("-0530"), Some(-19_800));
    assert_eq!(utc_offset_of("+1400"), Some(50_400));
    assert_eq!(utc_offset_of("0130"), None);
    assert_eq!(utc_offset_of("+01:30"), None);
    assert_eq!(utc_offset_of("+01a0"), None);
    assert_eq!(utc_offset_of(""), None);
}
