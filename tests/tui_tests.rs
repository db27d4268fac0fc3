use chat_tui::{
    init, key_down_code, row_count, string_to_char_length, ConsoleSize, DrawOp, InputLine,
    InputSystem, Key, ScrollbackBuffer, Tui, TuiEvent, KEY_QUEUE_CAPACITY,
};

fn lines_of(buf: &ScrollbackBuffer) -> Vec<String> {
    let mut out = Vec::new();
    for i in 0..buf.len() {
        out.push(buf.line(i).clone());
    }
    out
}

fn text_of(line: &InputLine) -> String {
    line.chars().iter().collect()
}

fn screen(width: i16, height: i16) -> (Tui, Vec<DrawOp>) {
    let mut ops = Vec::new();
    let tui = init(ConsoleSize { width, height }, &mut ops);
    (tui, ops)
}

fn clears(ops: &[DrawOp]) -> usize {
    ops.iter().filter(|o| **o == DrawOp::ClearScreen).count()
}

#[test]
fn twenty_five_one_row_lines_keep_newest_twenty() {
    let mut buf = ScrollbackBuffer::new();
    for i in 0..25 {
        buf.append(format!("line {}", i), 80, 20);
    }
    let lines = lines_of(&buf);
    assert_eq!(lines.len(), 20);
    for (k, line) in lines.iter().enumerate() {
        assert_eq!(line, &format!("line {}", k + 5));
    }
}

#[test]
fn twenty_five_messages_through_the_screen() {
    let (mut tui, _) = screen(80, 24);
    let mut ops = Vec::new();
    for i in 0..25 {
        tui.add_message(&format!("m{}", i), &mut ops);
    }
    let lines = lines_of(tui.output_lines());
    assert_eq!(lines.len(), 20);
    assert_eq!(lines[0], "m5");
    assert_eq!(lines[19], "m24");
}

#[test]
fn editing_scenario_left_insert_backspace() {
    let size = ConsoleSize { width: 80, height: 24 };
    let (mut tui, _) = screen(80, 24);
    let mut ops = Vec::new();
    for c in "hello".chars() {
        assert_eq!(tui.update(size, Some(Key::Char(c)), &mut ops), None);
    }
    assert_eq!(tui.input().cursor(), 5);
    tui.update(size, Some(Key::Left), &mut ops);
    tui.update(size, Some(Key::Left), &mut ops);
    assert_eq!(tui.input().cursor(), 3);
    tui.update(size, Some(Key::Char('X')), &mut ops);
    assert_eq!(text_of(tui.input()), "helXlo");
    assert_eq!(tui.input().cursor(), 4);
    tui.update(size, Some(Key::Backspace), &mut ops);
    assert_eq!(text_of(tui.input()), "hello");
    assert_eq!(tui.input().cursor(), 3);
}

#[test]
fn enter_on_empty_input_sends_empty_message() {
    let size = ConsoleSize { width: 80, height: 24 };
    let (mut tui, _) = screen(80, 24);
    let mut ops = Vec::new();
    let ev = tui.update(size, Some(Key::Enter), &mut ops);
    assert_eq!(ev, Some(TuiEvent::SendMsg(String::new())));
    let lines = lines_of(tui.output_lines());
    assert_eq!(lines, vec!["You: ".to_string()]);
}

#[test]
fn enter_sends_text_and_clears_line() {
    let size = ConsoleSize { width: 80, height: 24 };
    let (mut tui, _) = screen(80, 24);
    let mut ops = Vec::new();
    tui.update(size, Some(Key::Char('h')), &mut ops);
    tui.update(size, Some(Key::Num(7)), &mut ops);
    let ev = tui.update(size, Some(Key::Enter), &mut ops);
    assert_eq!(ev, Some(TuiEvent::SendMsg("h7".to_string())));
    assert_eq!(lines_of(tui.output_lines()), vec!["You: h7".to_string()]);
    assert_eq!(tui.input().len(), 0);
    assert_eq!(tui.input().cursor(), 0);
    assert!(ops.contains(&DrawOp::Write("You: h7".to_string())));
}

#[test]
fn escape_asks_to_quit() {
    let size = ConsoleSize { width: 80, height: 24 };
    let (mut tui, _) = screen(80, 24);
    let mut ops = Vec::new();
    assert_eq!(tui.update(size, Some(Key::Escape), &mut ops), Some(TuiEvent::Quit));
    assert!(ops.is_empty());
}

#[test]
fn cursor_stays_within_text() {
    let mut line = InputLine::new();
    line.backspace();
    assert_eq!(line.cursor(), 0);
    line.move_cursor(-3);
    assert_eq!(line.cursor(), 0);
    line.insert('a');
    line.insert('b');
    line.move_cursor(10);
    assert_eq!(line.cursor(), 2);
    line.move_cursor(-1);
    line.insert('c');
    assert_eq!(text_of(&line), "acb");
    assert_eq!(line.cursor(), 2);
    line.move_cursor(-100);
    line.backspace();
    assert_eq!(text_of(&line), "acb");
    assert!(line.cursor() <= line.len());
}

#[test]
fn submit_empties_the_line() {
    let mut line = InputLine::new();
    line.insert('x');
    line.insert('y');
    let out = line.submit();
    assert_eq!(out, vec!['x', 'y']);
    assert_eq!(line.len(), 0);
    assert_eq!(line.cursor(), 0);
    let again = line.submit();
    assert!(again.is_empty());
    assert_eq!(line.cursor(), 0);
}

#[test]
fn row_count_wraps_by_characters() {
    assert_eq!(row_count("", 80), 1);
    assert_eq!(row_count(&"a".repeat(79), 80), 1);
    assert_eq!(row_count(&"a".repeat(80), 80), 2);
    assert_eq!(row_count(&"a".repeat(200), 80), 3);
    assert_eq!(row_count(&"a".repeat(200), 40), 6);
    assert_eq!(row_count("héllo", 2), 3);
    assert_eq!(string_to_char_length(&"héllo".to_string()), 5);
}

#[test]
fn long_line_evicts_several_short_ones() {
    let mut buf = ScrollbackBuffer::new();
    for i in 0..5 {
        buf.append(format!("s{}", i), 10, 6);
    }
    buf.append("x".repeat(25), 10, 6);
    assert_eq!(
        lines_of(&buf),
        vec!["s2".to_string(), "s3".to_string(), "s4".to_string(), "x".repeat(25)]
    );
}

#[test]
fn line_larger_than_region_is_not_kept() {
    let mut buf = ScrollbackBuffer::new();
    buf.append("a".to_string(), 10, 2);
    buf.append("b".repeat(30), 10, 2);
    assert_eq!(buf.len(), 0);
}

#[test]
fn eviction_is_oldest_first() {
    let mut buf = ScrollbackBuffer::new();
    for i in 0..4 {
        buf.append(format!("{}", i), 80, 3);
        let lines = lines_of(&buf);
        let first: usize = lines[0].parse().unwrap();
        for (k, line) in lines.iter().enumerate() {
            assert_eq!(line, &format!("{}", first + k));
        }
        assert_eq!(lines.last().unwrap(), &format!("{}", i));
    }
    assert_eq!(lines_of(&buf), vec!["1", "2", "3"]);
}

#[test]
fn narrower_width_recounts_rows() {
    let mut buf = ScrollbackBuffer::new();
    buf.append("a".repeat(30), 40, 4);
    buf.append("b".repeat(30), 40, 4);
    assert_eq!(buf.len(), 2);
    buf.fit(10, 4);
    assert_eq!(lines_of(&buf), vec!["b".repeat(30)]);
}

#[test]
fn resize_redraws_once() {
    let (mut tui, ops) = screen(80, 24);
    assert_eq!(clears(&ops), 1);
    let mut ops = Vec::new();
    let same = ConsoleSize { width: 80, height: 24 };
    tui.update(same, None, &mut ops);
    tui.update(same, None, &mut ops);
    assert_eq!(clears(&ops), 0);
    assert!(ops.is_empty());
    let bigger = ConsoleSize { width: 100, height: 30 };
    tui.update(bigger, None, &mut ops);
    assert_eq!(clears(&ops), 1);
    tui.update(bigger, None, &mut ops);
    assert_eq!(clears(&ops), 1);
    assert_eq!(tui.console_size(), bigger);
}

#[test]
fn shrinking_screen_drops_lines_that_no_longer_fit() {
    let (mut tui, _) = screen(80, 24);
    let mut ops = Vec::new();
    for i in 0..10 {
        tui.add_message(&format!("m{}", i), &mut ops);
    }
    tui.update(ConsoleSize { width: 80, height: 8 }, None, &mut ops);
    assert_eq!(lines_of(tui.output_lines()), vec!["m6", "m7", "m8", "m9"]);
}

#[test]
fn input_bar_tracks_edit_cursor() {
    let size = ConsoleSize { width: 20, height: 10 };
    let (mut tui, _) = screen(20, 10);
    let mut ops = Vec::new();
    tui.update(size, Some(Key::Char('a')), &mut ops);
    tui.update(size, Some(Key::Char('b')), &mut ops);
    tui.update(size, Some(Key::Left), &mut ops);
    assert_eq!(ops.last(), Some(&DrawOp::SetCursor { x: 1, y: 7 }));
    let mut bar = Vec::new();
    tui.draw_input_bar(&mut bar);
    assert_eq!(bar[5], DrawOp::Write("ab".to_string()));
    assert_eq!(bar[6], DrawOp::SetCursor { x: 1, y: 7 });
}

#[test]
fn output_rows_follow_wrapping() {
    let (mut tui, _) = screen(10, 14);
    let mut ops = Vec::new();
    tui.add_message(&"a".repeat(15), &mut ops);
    tui.add_message("b", &mut ops);
    assert!(ops.contains(&DrawOp::SetCursor { x: 0, y: 0 }));
    assert!(ops.contains(&DrawOp::SetCursor { x: 0, y: 2 }));
    assert!(ops.contains(&DrawOp::Write("b".to_string())));
}

#[test]
fn key_release_is_ignored() {
    assert_eq!(key_down_code([0, 1, 65, 0]), None);
    assert_eq!(key_down_code([1, 1, 65, 0]), Some(65));
}

#[test]
fn key_queue_is_fifo_and_drops_oldest() {
    let mut q = InputSystem::new();
    assert_eq!(q.poll(), None);
    q.push(Key::Enter);
    q.push(Key::Char('a'));
    assert_eq!(q.poll(), Some(Key::Enter));
    assert_eq!(q.poll(), Some(Key::Char('a')));
    assert_eq!(q.poll(), None);
    for i in 0..KEY_QUEUE_CAPACITY + 1 {
        q.push(Key::Num((i % 10) as u8));
    }
    assert_eq!(q.poll(), Some(Key::Num(1)));
}

#[test]
fn digit_out_of_range_is_ignored() {
    let size = ConsoleSize { width: 80, height: 24 };
    let (mut tui, _) = screen(80, 24);
    let mut ops = Vec::new();
    tui.update(size, Some(Key::Num(12)), &mut ops);
    assert_eq!(tui.input().len(), 0);
    tui.update(size, Some(Key::Num(0)), &mut ops);
    assert_eq!(text_of(tui.input()), "0");
}
