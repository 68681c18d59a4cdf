use ratatui::buffer::Buffer;
use ratatui::style::Color;
use ratatui::style::Style;
use ratatui::widgets::Block;
use tui_logger::clock::Timestamp;
use tui_logger::logger::ExtLogRecord;
use tui_logger::logger::TuiLoggerInner;
use tui_logger::screen::Rect;
use tui_logger::state::TuiWidgetInnerState;
use tui_logger::CircularBuffer;
use tui_logger::Level;
use tui_logger::LevelFilter;
use tui_logger::TuiLoggerLevelOutput;
use tui_logger::TuiLoggerWidget;
use tui_logger::TuiWidgetEvent;
use tui_logger::TuiWidgetState;

fn at(secs: i64) -> Timestamp {
    Timestamp { secs, nanos: 0, offset: 0 }
}

fn event(secs: i64, level: Level, target: &str, msg: &str) -> ExtLogRecord {
    ExtLogRecord {
        timestamp: at(secs),
        level,
        target: target.to_string(),
        file: "main.rs".to_string(),
        line: 42,
        msg: msg.to_string(),
    }
}

fn log(events: Vec<ExtLogRecord>) -> CircularBuffer<ExtLogRecord> {
    let mut buffer = CircularBuffer::new(100);
    for event in events {
        buffer.push(event);
    }
    buffer
}

fn numbered(n: i64) -> CircularBuffer<ExtLogRecord> {
    log((1..=n).map(|i| event(i, Level::Info, "t", &format!("m{}", i))).collect())
}

fn area(width: u16, height: u16) -> Rect {
    Rect { x: 0, y: 0, width, height }
}

fn press(state: &mut TuiWidgetInnerState, event: TuiWidgetEvent) {
    state.transition(event, &mut TuiLoggerInner::new());
}

fn empty(width: u16, height: u16) -> Buffer {
    Buffer::empty(ratatui::layout::Rect::new(0, 0, width, height))
}

fn lines(buf: &Buffer) -> Vec<String> {
    (0..buf.area.height)
        .map(|y| {
            let line: String =
                (0..buf.area.width).map(|x| buf.cell((x, y)).unwrap().symbol()).collect();
            line.trim_end().to_string()
        })
        .collect()
}

fn bare<'a>() -> TuiLoggerWidget<'a> {
    TuiLoggerWidget::default()
        .output_timestamp(None)
        .output_level(None)
        .output_target(false)
        .output_file(false)
        .output_line(false)
}

fn shown(
    widget: TuiLoggerWidget,
    state: &mut TuiWidgetInnerState,
    events: &CircularBuffer<ExtLogRecord>,
    width: u16,
    height: u16,
) -> Vec<String> {
    let mut buf = empty(width, height);
    assert!(widget.render(state, events, area(width, height), &mut buf));
    lines(&buf)
}

#[test]
fn defaults_of_the_log_widget() {
    let widget = TuiLoggerWidget::default();
    assert_eq!(widget.style, Style::default());
    assert!(widget.block.is_none());
    assert_eq!(widget.style_error, None);
    assert_eq!(widget.style_warn, None);
    assert_eq!(widget.style_info, None);
    assert_eq!(widget.style_debug, None);
    assert_eq!(widget.style_trace, None);
    assert_eq!(widget.format_separator, ':');
    assert_eq!(widget.format_timestamp, Some("%H:%M:%S".to_string()));
    assert_eq!(widget.format_output_level, Some(TuiLoggerLevelOutput::Long));
    assert!(widget.format_output_target);
    assert!(widget.format_output_file);
    assert!(widget.format_output_line);
}

#[test]
fn events_are_written_with_their_fields() {
    let widget = TuiLoggerWidget::default();
    let text = |level| widget.format_event(&event(3661, level, "net", "msg")).0;
    assert_eq!(text(Level::Error), "01:01:01:ERROR:net:main.rs:42:");
    assert_eq!(text(Level::Warn), "01:01:01:WARN :net:main.rs:42:");
    assert_eq!(text(Level::Info), "01:01:01:INFO :net:");
    assert_eq!(text(Level::Debug), "01:01:01:DEBUG:net:main.rs:42:");
    assert_eq!(text(Level::Trace), "01:01:01:TRACE:net:main.rs:42:");
}

#[test]
fn level_can_be_abbreviated() {
    let widget = TuiLoggerWidget::default()
        .output_level(Some(TuiLoggerLevelOutput::Abbreviated))
        .output_separator('|')
        .output_file(false);
    let text = |level| widget.format_event(&event(0, level, "net", "msg")).0;
    assert_eq!(text(Level::Error), "00:00:00|E|net|42|");
    assert_eq!(text(Level::Warn), "00:00:00|W|net|42|");
    assert_eq!(text(Level::Info), "00:00:00|I|net|");
    assert_eq!(text(Level::Debug), "00:00:00|D|net|42|");
    assert_eq!(text(Level::Trace), "00:00:00|T|net|42|");
}

#[test]
fn fields_can_be_left_out() {
    let event = event(0, Level::Error, "net", "msg");
    assert_eq!(bare().format_event(&event).0, "");
    assert_eq!(bare().output_line(true).format_event(&event).0, "42:");
    assert_eq!(bare().output_file(true).format_event(&event).0, "main.rs:");
    assert_eq!(bare().output_target(true).format_event(&event).0, "net:");
}

#[test]
fn time_is_local_to_where_it_was_taken() {
    let widget = bare().output_timestamp(Some("%Y-%m-%d %H:%M:%S%.3f %z".to_string()));
    let event = ExtLogRecord {
        timestamp: Timestamp { secs: 86_400, nanos: 250_000_000, offset: 7200 },
        ..event(0, Level::Info, "t", "m")
    };
    assert_eq!(widget.format_event(&event).0, "1970-01-02 02:00:00.250 +0200:");
    assert_eq!(
        widget.try_format_event(&event),
        Some(("1970-01-02 02:00:00.250 +0200:".to_string(), None))
    );
}

#[test]
fn time_that_cannot_be_written_is_reported() {
    let widget = bare().output_timestamp(Some("%Q".to_string()));
    let events = numbered(1);
    assert_eq!(widget.try_format_event(events.iter()[0]), None);
    let mut state = TuiWidgetInnerState::new();
    let mut buf = empty(20, 3);
    assert!(!widget.render(&mut state, &events, area(20, 3), &mut buf));
    assert_eq!(buf, empty(20, 3));
    let nowhere = ExtLogRecord {
        timestamp: Timestamp { secs: 0, nanos: 0, offset: 86_400 },
        ..event(0, Level::Info, "t", "m")
    };
    assert_eq!(TuiLoggerWidget::default().try_format_event(&nowhere), None);
}

#[test]
fn given_time_is_put_in_front() {
    let widget = TuiLoggerWidget::default();
    let event = event(0, Level::Info, "net", "msg");
    assert_eq!(widget.event_prefix(&event, Some("noon")).0, "noon:INFO :net:");
    assert_eq!(widget.event_prefix(&event, None).0, "INFO :net:");
}

#[test]
fn newest_event_stands_last() {
    let mut state = TuiWidgetInnerState::new();
    let rows = shown(TuiLoggerWidget::default(), &mut state, &numbered(2), 30, 4);
    assert_eq!(rows, vec!["00:00:01:INFO :t:m1", "00:00:02:INFO :t:m2", "", ""]);
    let rows = shown(bare(), &mut state, &numbered(20), 30, 4);
    assert_eq!(rows, vec!["m17", "m18", "m19", "m20"]);
}

#[test]
fn further_lines_of_a_message_are_indented() {
    let events = log(vec![event(1, Level::Info, "t", "one\ntwo\r\nthree")]);
    let mut state = TuiWidgetInnerState::new();
    let rows = shown(bare(), &mut state, &events, 20, 4);
    assert_eq!(rows, vec!["one", "         two", "         three", ""]);
}

#[test]
fn long_lines_are_wrapped() {
    let events = log(vec![event(1, Level::Info, "t", "abcdefghijklmnopqrstuvwxyz")]);
    let mut state = TuiWidgetInnerState::new();
    let rows = shown(bare(), &mut state, &events, 13, 6);
    assert_eq!(
        rows,
        vec![
            "abcdefghijklm",
            "         nopq",
            "         rstu",
            "         vwxy",
            "         z",
            "",
        ]
    );
    let rows = shown(bare(), &mut state, &events, 13, 2);
    assert_eq!(rows, vec!["         vwxy", "         z"]);
}

#[test]
fn wrapped_rows_hold_the_whole_line() {
    let text: String = ('a'..='z').cycle().take(200).collect();
    let line = tui_logger::log_widget::LogLine {
        style: None,
        indented: false,
        text: text.clone(),
    };
    let rows = TuiLoggerWidget::wrap(vec![line], 40, 100).unwrap();
    let joined: String = rows.iter().map(|row| row.text.as_str()).collect();
    assert_eq!(joined, text);
    assert_eq!(rows.len(), 7);
    assert_eq!(rows[0].text.len(), 40);
    assert!(!rows[0].indented);
    assert!(rows[1..].iter().all(|row| row.indented && row.text.len() <= 31));
}

#[test]
fn styles_follow_the_level() {
    let style = |color| Style::default().fg(color);
    let widget = bare()
        .style_error(style(Color::Red))
        .style_warn(style(Color::Yellow))
        .style_info(style(Color::Green))
        .style_debug(style(Color::Blue))
        .style_trace(style(Color::Gray));
    let levels = [Level::Error, Level::Warn, Level::Info, Level::Debug, Level::Trace];
    let events = log(levels.iter().map(|l| event(1, *l, "t", "m")).collect());
    let mut state = TuiWidgetInnerState::new();
    let mut buf = empty(20, 5);
    assert!(widget.render(&mut state, &events, area(20, 5), &mut buf));
    let colors = [Color::Red, Color::Yellow, Color::Green, Color::Blue, Color::Gray];
    for (y, color) in colors.iter().enumerate() {
        assert_eq!(buf.cell((0, y as u16)).unwrap().fg, *color);
    }
}

#[test]
fn base_style_is_used_where_a_level_has_none() {
    let widget = bare().style(Style::default().fg(Color::Cyan)).block(Block::bordered());
    let mut state = TuiWidgetInnerState::new();
    let mut buf = empty(20, 4);
    assert!(widget.render(&mut state, &numbered(1), area(20, 4), &mut buf));
    assert_eq!(lines(&buf)[1], "│m1                │");
    assert_eq!(buf.cell((1, 1)).unwrap().fg, Color::Cyan);
    assert_eq!(buf.cell((0, 0)).unwrap().symbol(), "┌");
}

#[test]
fn filters_of_the_state_are_applied() {
    let events = log(vec![
        event(1, Level::Debug, "a", "a debug"),
        event(2, Level::Warn, "a", "a warn"),
        event(3, Level::Debug, "b", "b debug"),
        event(4, Level::Error, "b", "b error"),
    ]);
    let mut state =
        TuiWidgetState::new().set_level_for_target("a", LevelFilter::Warn).inner;
    let rows = shown(bare(), &mut state, &events, 20, 4);
    assert_eq!(rows, vec!["a warn", "b debug", "b error", ""]);
    let mut state = TuiWidgetState::new()
        .set_level_for_target("a", LevelFilter::Trace)
        .set_default_display_level(LevelFilter::Error)
        .inner;
    let rows = shown(bare(), &mut state, &events, 20, 4);
    assert_eq!(rows, vec!["a debug", "a warn", "b error", ""]);
}

#[test]
fn focus_leaves_only_the_selected_target() {
    let events = log(vec![
        event(1, Level::Info, "a", "from a"),
        event(2, Level::Info, "b", "from b"),
    ]);
    let mut state = TuiWidgetInnerState::new();
    press(&mut state, TuiWidgetEvent::FocusKey);
    assert_eq!(shown(bare(), &mut state, &events, 20, 2), vec!["from a", "from b"]);
    state.opt_selected_target = Some("b".to_string());
    assert_eq!(shown(bare(), &mut state, &events, 20, 2), vec!["from b", ""]);
}

#[test]
fn paging_through_the_history() {
    let events = numbered(20);
    let mut state = TuiWidgetInnerState::new();
    assert_eq!(shown(bare(), &mut state, &events, 20, 4), vec!["m17", "m18", "m19", "m20"]);
    assert_eq!(state.opt_timestamp_next_page, None);
    assert_eq!(state.opt_timestamp_prev_page, Some(at(19)));
    press(&mut state, TuiWidgetEvent::PrevPageKey);
    assert_eq!(shown(bare(), &mut state, &events, 20, 4), vec!["m16", "m17", "m18", "m19"]);
    assert_eq!(state.opt_timestamp_next_page, Some(at(20)));
    assert_eq!(state.opt_timestamp_prev_page, Some(at(18)));
    state.opt_timestamp_bottom = Some(at(5));
    assert_eq!(shown(bare(), &mut state, &events, 20, 4), vec!["m2", "m3", "m4", "m5"]);
    assert_eq!(state.opt_timestamp_next_page, Some(at(15)));
    press(&mut state, TuiWidgetEvent::NextPageKey);
    assert_eq!(shown(bare(), &mut state, &events, 20, 4), vec!["m12", "m13", "m14", "m15"]);
    press(&mut state, TuiWidgetEvent::EscapeKey);
    assert_eq!(shown(bare(), &mut state, &events, 20, 4), vec!["m17", "m18", "m19", "m20"]);
}

#[test]
fn start_of_the_history_stands_at_the_bottom() {
    let events = numbered(20);
    let mut state = TuiWidgetInnerState::new();
    state.opt_timestamp_bottom = Some(at(1));
    assert_eq!(shown(bare(), &mut state, &events, 20, 4), vec!["", "", "", "m1"]);
    assert_eq!(state.opt_timestamp_prev_page, Some(at(1)));
    assert_eq!(state.opt_timestamp_next_page, Some(at(11)));
}

#[test]
fn full_page_of_one_event_has_no_page_before() {
    let events = log(vec![event(1, Level::Info, "t", "a"), event(2, Level::Info, "t", "b\nc")]);
    let mut state = TuiWidgetInnerState::new();
    assert_eq!(shown(bare(), &mut state, &events, 20, 2), vec!["b", "         c"]);
    assert_eq!(state.opt_timestamp_prev_page, None);
}

#[test]
fn page_goes_on_past_a_height_that_is_not_met_exactly() {
    let events = log(vec![event(1, Level::Info, "t", "a"), event(2, Level::Info, "t", "b\nc\nd")]);
    let mut state = TuiWidgetInnerState::new();
    assert_eq!(shown(bare(), &mut state, &events, 20, 2), vec!["         c", "         d"]);
    assert_eq!(state.opt_timestamp_prev_page, Some(at(2)));
}

#[test]
fn last_rows_of_all_events_are_shown() {
    // Taller and taller areas show more and more of the same rows.
    let events = log((1..=9).map(|i| {
        let msg = format!("{}{}", "x".repeat(i * 7), "\ny".repeat(i % 4));
        event(i as i64, Level::Info, "t", &msg)
    }).collect());
    let mut state = TuiWidgetInnerState::new();
    let all: Vec<String> = shown(bare(), &mut state, &events, 15, 60)
        .into_iter()
        .filter(|row| !row.is_empty())
        .collect();
    assert!(all.len() > 30 && all.len() < 60);
    for height in 1..all.len() {
        let rows = shown(bare(), &mut state, &events, 15, height as u16);
        assert_eq!(rows, all[all.len() - height..].to_vec());
    }
}

#[test]
fn only_the_ends_of_pages_change() {
    let mut state = TuiWidgetState::new().set_level_for_target("t", LevelFilter::Info).inner;
    state.selected = 2;
    state.offset = 1;
    state.opt_timestamp_bottom = Some(at(3));
    shown(bare(), &mut state, &numbered(9), 20, 4);
    assert_eq!((state.selected, state.offset, state.nr_items), (2, 1, 0));
    assert_eq!(state.opt_timestamp_bottom, Some(at(3)));
    assert_eq!(state.config.targets(false), vec!["t"]);
    assert_eq!(state.opt_timestamp_next_page, Some(at(9)));
}

#[test]
fn event_without_text_cannot_be_shown() {
    let events = log(vec![event(1, Level::Info, "t", "")]);
    let mut state = TuiWidgetInnerState::new();
    assert!(bare().layout(&mut state, &events, area(20, 3)).is_none());
    let mut buf = empty(20, 3);
    assert!(!bare().render(&mut state, &events, area(20, 3), &mut buf));
    assert_eq!(buf, empty(20, 3));
}

#[test]
fn log_in_a_small_area_stays_empty() {
    let mut state = TuiWidgetInnerState::new();
    let mut buf = empty(20, 3);
    assert!(bare().render(&mut state, &numbered(3), area(12, 3), &mut buf));
    assert_eq!(buf, empty(20, 3));
    assert!(bare().render(&mut state, &numbered(3), area(20, 0), &mut buf));
    assert_eq!(buf, empty(20, 3));
    assert_eq!(shown(bare(), &mut state, &numbered(3), 13, 1), vec!["m3"]);
}

#[test]
fn log_below_the_buffer_cannot_be_drawn() {
    let mut state = TuiWidgetInnerState::new();
    let mut buf = empty(20, 2);
    assert!(!bare().render(&mut state, &numbered(3), area(20, 3), &mut buf));
    assert_eq!(buf, empty(20, 2));
    assert!(bare().render(&mut state, &numbered(2), area(20, 3), &mut buf));
    assert_eq!(lines(&buf), vec!["m1", "m2"]);
}

#[test]
fn text_without_visible_characters_may_lie_outside() {
    for msg in ["\t", "\u{1}\u{7f}", "\u{200b}", "\u{200b}\t\u{feff}"] {
        let events = log(vec![
            event(1, Level::Info, "t", "a"),
            event(2, Level::Info, "t", "b"),
            event(3, Level::Info, "t", msg),
        ]);
        let mut state = TuiWidgetInnerState::new();
        let mut buf = empty(20, 2);
        assert!(bare().render(&mut state, &events, area(20, 3), &mut buf), "{:?}", msg);
        assert_eq!(lines(&buf), vec!["a", "b"]);
    }
    let events = log(vec![event(1, Level::Info, "t", "\tx")]);
    let mut state = TuiWidgetInnerState::new();
    let outside = Rect { x: 0, y: 2, width: 20, height: 1 };
    assert!(!bare().render(&mut state, &events, outside, &mut empty(20, 2)));
}

#[test]
fn text_beside_the_buffer_is_not_drawn() {
    let mut state = TuiWidgetInnerState::new();
    let mut buf = empty(20, 2);
    let beside = Rect { x: 20, y: 7, width: 20, height: 3 };
    assert!(bare().render(&mut state, &numbered(3), beside, &mut buf));
    assert_eq!(buf, empty(20, 2));
}

#[test]
fn rows_beyond_the_coordinates_cannot_be_laid_out() {
    let place = |x, y, width, height| {
        let area = Rect { x, y, width, height };
        bare().layout(&mut TuiWidgetInnerState::new(), &numbered(2), area).is_some()
    };
    assert!(place(65535, 65534, 20, 5));
    assert!(!place(65535, 65535, 20, 5));
    let two_lines = log(vec![event(1, Level::Info, "t", "a\nb")]);
    let mut state = TuiWidgetInnerState::new();
    let area = |x| Rect { x, y: 0, width: 20, height: 5 };
    assert!(bare().layout(&mut state, &two_lines, area(65526)).is_some());
    assert!(bare().layout(&mut state, &two_lines, area(65527)).is_none());
    state.opt_timestamp_bottom = Some(at(9));
    let low = Rect { x: 0, y: 65532, width: 20, height: 5 };
    assert!(bare().layout(&mut state, &two_lines, low).is_none());
    assert_eq!(state.opt_timestamp_prev_page, Some(at(1)));
}

#[test]
fn wide_characters_take_their_room() {
    let events = log(vec![event(1, Level::Info, "t", "日本語 ü")]);
    let mut state = TuiWidgetInnerState::new();
    let mut buf = empty(20, 1);
    assert!(bare().render(&mut state, &events, area(20, 1), &mut buf));
    assert_eq!(buf.cell((0, 0)).unwrap().symbol(), "日");
    assert_eq!(buf.cell((2, 0)).unwrap().symbol(), "本");
    assert_eq!(buf.cell((4, 0)).unwrap().symbol(), "語");
    assert_eq!(buf.cell((7, 0)).unwrap().symbol(), "ü");
}
