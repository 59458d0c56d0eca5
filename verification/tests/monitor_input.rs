use yap::framework::RuntimeEvent;
use yap::http_proxy::{request_line, HttpProxy, HttpRequest};
use yap::input::Input;
use yap::keys::KeyInput;
use yap::rng::{generate_random_text, SimpleRng};

fn req(uri: &str) -> HttpRequest {
    HttpRequest {
        method: String::from("GET"),
        uri: String::from(uri),
        timestamp: String::from("12:00:00"),
    }
}

#[test]
fn monitor_records_events_and_caps_the_list() {
    let mut m = HttpProxy::new();
    for i in 0..101 {
        let quit = m.step(RuntimeEvent::External(req(&format!("http://h/{}", i))));
        assert!(!quit);
    }
    let requests = m.requests();
    assert_eq!(requests.len(), 100);
    assert_eq!(requests[0].uri, "http://h/1");
    assert_eq!(requests[99].uri, "http://h/100");
}

#[test]
fn clear_key_empties_the_list() {
    let mut m = HttpProxy::new();
    m.step(RuntimeEvent::External(req("http://h/a")));
    m.step(RuntimeEvent::External(req("http://h/b")));
    assert_eq!(m.request_count(), 2);
    let quit = m.step(RuntimeEvent::Key(KeyInput::Char('c')));
    assert!(!quit);
    assert_eq!(m.request_count(), 0);
}

#[test]
fn quit_keys_stop_the_loop() {
    let mut m = HttpProxy::new();
    assert!(m.step(RuntimeEvent::Key(KeyInput::Char('q'))));
    let mut m2 = HttpProxy::new();
    assert!(m2.step(RuntimeEvent::Key(KeyInput::Esc)));
    let mut m3 = HttpProxy::new();
    assert!(!m3.step(RuntimeEvent::Key(KeyInput::Char('x'))));
}

#[test]
fn monitor_lines_are_newest_first() {
    let mut m = HttpProxy::new();
    m.step(RuntimeEvent::External(req("http://h/first")));
    m.step(RuntimeEvent::External(req("http://h/second")));
    let lines = m.render_lines();
    assert_eq!(lines.len(), 2);
    assert_eq!(lines[0], "[12:00:00] GET http://h/second");
    assert_eq!(lines[1], "[12:00:00] GET http://h/first");
}

#[test]
fn request_line_has_exact_layout() {
    assert_eq!(request_line(&req("http://h/x")), "[12:00:00] GET http://h/x");
}

#[test]
fn editing_keys_change_the_filter_text() {
    let mut input = Input::new();
    assert!(input.handle_key(KeyInput::Char('a')));
    assert!(input.handle_key(KeyInput::Char('c')));
    assert!(!input.handle_key(KeyInput::Left));
    assert!(input.handle_key(KeyInput::Char('b')));
    assert_eq!(input.value(), "abc");
    assert_eq!(input.cursor, 2);
    assert!(input.handle_key(KeyInput::Backspace));
    assert_eq!(input.value(), "ac");
    assert!(!input.handle_key(KeyInput::Home));
    assert!(input.handle_key(KeyInput::Delete));
    assert_eq!(input.value(), "c");
    assert!(!input.handle_key(KeyInput::End));
    assert_eq!(input.cursor, 1);
    assert!(!input.handle_key(KeyInput::Right));
    assert!(!input.handle_key(KeyInput::Delete));
    assert_eq!(input.value(), "c");
}

#[test]
fn cursor_segments_split_the_line() {
    let mut input = Input::new();
    for c in "hello".chars() {
        input.handle_key(KeyInput::Char(c));
    }
    input.handle_key(KeyInput::Home);
    input.handle_key(KeyInput::Right);
    let (before, at, after) = input.cursor_segments();
    assert_eq!(before, "h");
    assert_eq!(at, 'e');
    assert_eq!(after, "llo");
    input.handle_key(KeyInput::End);
    let (before, at, after) = input.cursor_segments();
    assert_eq!(before, "hello");
    assert_eq!(at, ' ');
    assert_eq!(after, "");
}

#[test]
fn random_text_draws_from_the_alphabet() {
    let text = generate_random_text(50);
    assert_eq!(text.chars().count(), 50);
    let alphabet = "abcdefghijklmnopqrstuvwxyzABCDEFGHIJKLMNOPQRSTUVWXYZ0123456789 ";
    assert!(text.chars().all(|c| alphabet.contains(c)));
}

#[test]
fn generator_steps_are_the_fixed_recurrence() {
    let mut rng = SimpleRng { state: 1 };
    let next = rng.next();
    assert_eq!(next, 6364136223846793006);
    let mut rng2 = SimpleRng { state: 1 };
    let drawn = rng2.next_range(64);
    assert!(drawn < 64);
    assert_eq!(drawn, (6364136223846793006u64 % 64) as usize);
}
