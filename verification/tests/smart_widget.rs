use ratatui::buffer::Buffer;
use ratatui::layout::Constraint;
use ratatui::layout::Direction;
use ratatui::layout::Layout;
use ratatui::style::Color;
use ratatui::style::Modifier;
use ratatui::style::Style;
use ratatui::text::Line;
use ratatui::widgets::Block;
use ratatui::widgets::Borders;
use tui_logger::clock::Timestamp;
use tui_logger::logger::ExtLogRecord;
use tui_logger::logger::TuiLoggerInner;
use tui_logger::screen::BorderType;
use tui_logger::screen::Rect;
use tui_logger::set_level_for_target;
use tui_logger::state::TuiWidgetInnerState;
use tui_logger::Level;
use tui_logger::LevelFilter;
use tui_logger::TuiLoggerLevelOutput;
use tui_logger::TuiLoggerSmartWidget;
use tui_logger::TuiWidgetEvent;

fn area(x: u16, y: u16, width: u16, height: u16) -> Rect {
    Rect { x, y, width, height }
}

fn press(state: &mut TuiWidgetInnerState, event: TuiWidgetEvent) {
    state.transition(event, &mut TuiLoggerInner::new());
}

fn empty(width: u16, height: u16) -> Buffer {
    Buffer::empty(ratatui::layout::Rect::new(0, 0, width, height))
}

fn line(buf: &Buffer, y: u16) -> String {
    (0..buf.area.width).map(|x| buf.cell((x, y)).unwrap().symbol()).collect()
}

fn logger() -> TuiLoggerInner {
    let mut inner = TuiLoggerInner::new();
    set_level_for_target(&mut inner, "alpha", LevelFilter::Info);
    inner.events.push(ExtLogRecord {
        timestamp: Timestamp { secs: 1, nanos: 0, offset: 0 },
        level: Level::Info,
        target: "alpha".to_string(),
        file: "?".to_string(),
        line: 0,
        msg: "m".to_string(),
    });
    inner
}

fn formula(width: u16, length: u16) -> (u16, u16) {
    let first = length.min(width.saturating_sub(10));
    (first, width - first)
}

#[test]
fn columns_share_the_width() {
    for width in 0..48 {
        for length in 8..56 {
            let (list, log) = TuiLoggerSmartWidget::columns(area(3, 1, width, 4), length);
            let (first, second) = formula(width, length);
            assert_eq!(list, area(3, 1, first, 4), "{} {}", width, length);
            assert_eq!(log, area(3 + first, 1, second, 4), "{} {}", width, length);
        }
    }
}

#[test]
fn columns_of_extreme_areas() {
    let sizes = [0, 1, 9, 10, 11, 80, 255, 256, 1000, 32767, 32768, 65000, 65525, 65534, 65535];
    for width in sizes {
        for length in sizes {
            let (list, log) = TuiLoggerSmartWidget::columns(area(0, 7, width, 65528), length);
            let (first, second) = formula(width, length);
            assert_eq!(list, area(0, 7, first, 65528), "{} {}", width, length);
            assert_eq!(log, area(first, 7, second, 65528), "{} {}", width, length);
        }
    }
}

#[test]
fn columns_far_to_the_right() {
    for x in [60000, 65500, 65524, 65525, 65535] {
        let width = 65535 - x;
        for length in [8, 9, 25, 26, 5000, 65535] {
            let (list, log) = TuiLoggerSmartWidget::columns(area(x, 0, width, 1), length);
            let (first, second) = formula(width, length);
            assert_eq!(list, area(x, 0, first, 1), "{} {}", x, length);
            assert_eq!(log, area(x + first, 0, second, 1), "{} {}", x, length);
        }
    }
}

#[test]
fn columns_of_areas_beyond_the_coordinates() {
    for (x, width) in [(65000, 60000), (65535, 1), (65520, 16), (65500, 65535)] {
        for length in [8, 20, 30, 600] {
            let outer = area(x, 65530, width, 100);
            let (list, log) = TuiLoggerSmartWidget::columns(outer, length);
            let (first, second) = formula(65535 - x, length);
            assert_eq!(list, area(x, 65530, first, 100), "{} {}", x, length);
            assert_eq!(log, area(x + first, 65530, second, 100), "{} {}", x, length);
        }
    }
}

#[test]
fn columns_are_those_of_the_layout() {
    for width in [0, 5, 10, 13, 20, 33, 120, 4000] {
        for length in [8, 10, 14, 30, 200] {
            let chunks = Layout::default()
                .direction(Direction::Horizontal)
                .constraints(vec![Constraint::Length(length), Constraint::Min(10)])
                .split(ratatui::layout::Rect::new(2, 3, width, 9));
            let (list, log) = TuiLoggerSmartWidget::columns(area(2, 3, width, 9), length);
            assert_eq!((list.x, list.width), (chunks[0].x, chunks[0].width));
            assert_eq!((log.x, log.width), (chunks[1].x, chunks[1].width));
            assert_eq!((list.y, list.height), (chunks[0].y, chunks[0].height));
        }
    }
}

#[test]
fn defaults_of_the_smart_widget() {
    let widget = TuiLoggerSmartWidget::default();
    assert_eq!(widget.title_log, Line::from("Tui Log"));
    assert_eq!(widget.title_target, Line::from("Tui Target Selector"));
    assert_eq!(widget.border_style, Style::default());
    assert_eq!(widget.border_type, BorderType::Plain);
    assert!(widget.style.is_none() && widget.highlight_style.is_none());
    assert!(widget.style_error.is_none() && widget.style_warn.is_none());
    assert!(widget.style_info.is_none() && widget.style_debug.is_none());
    assert!(widget.style_trace.is_none() && widget.style_off.is_none());
    assert!(widget.style_show.is_none() && widget.style_hide.is_none());
    assert!(widget.format_separator.is_none() && widget.format_timestamp.is_none());
    assert!(widget.format_output_level.is_none() && widget.format_output_target.is_none());
    assert!(widget.format_output_file.is_none() && widget.format_output_line.is_none());
}

#[test]
fn unset_options_keep_the_defaults() {
    let (target, log) = TuiLoggerSmartWidget::default().widgets("0.0");
    let reversed = Style::default().add_modifier(Modifier::REVERSED);
    let frame = |title| Block::default().title(title).borders(Borders::ALL);
    assert_eq!(target.block, Some(frame(Line::from("Tui Target Selector"))));
    assert_eq!(target.style_show, reversed);
    assert_eq!(target.highlight_style, reversed);
    assert_eq!(target.style_hide, Style::default());
    assert_eq!(target.style_off, None);
    let mut title = Line::from("Tui Log");
    title.spans.push(" [log=0.0/s]".into());
    assert_eq!(log.block, Some(frame(title)));
    assert_eq!(log.format_separator, ':');
    assert_eq!(log.format_timestamp, Some("%H:%M:%S".to_string()));
    assert_eq!(log.format_output_level, Some(TuiLoggerLevelOutput::Long));
    assert!(log.format_output_target && log.format_output_file && log.format_output_line);
}

#[test]
fn options_are_passed_on() {
    let style = |color| Style::default().fg(color);
    let (target, log) = TuiLoggerSmartWidget::default()
        .style(style(Color::Black))
        .style_error(style(Color::Red))
        .style_warn(style(Color::Yellow))
        .style_info(style(Color::Green))
        .style_debug(style(Color::Blue))
        .style_trace(style(Color::Gray))
        .style_off(style(Color::Cyan))
        .style_hide(style(Color::Magenta))
        .style_show(style(Color::White))
        .highlight_style(style(Color::LightRed))
        .border_style(style(Color::LightBlue))
        .border_type(BorderType::Double)
        .output_separator('|')
        .output_timestamp(None)
        .output_level(Some(TuiLoggerLevelOutput::Abbreviated))
        .output_target(false)
        .output_file(false)
        .output_line(false)
        .title_log(Line::from("L"))
        .title_target(Line::from("T"))
        .widgets("3.5");
    assert_eq!(target.style, style(Color::Black));
    assert_eq!(target.style_off, Some(style(Color::Cyan)));
    assert_eq!(target.style_hide, style(Color::Magenta));
    assert_eq!(target.style_show, style(Color::White));
    assert_eq!(target.highlight_style, style(Color::LightRed));
    let frame = |title| {
        Block::default()
            .title(title)
            .border_style(style(Color::LightBlue))
            .border_type(ratatui::widgets::BorderType::Double)
            .borders(Borders::ALL)
    };
    assert_eq!(target.block, Some(frame(Line::from("T"))));
    let mut title = Line::from("L");
    title.spans.push(" [log=3.5/s]".into());
    assert_eq!(log.block, Some(frame(title)));
    assert_eq!(log.style, style(Color::Black));
    assert_eq!(log.style_error, Some(style(Color::Red)));
    assert_eq!(log.style_warn, Some(style(Color::Yellow)));
    assert_eq!(log.style_info, Some(style(Color::Green)));
    assert_eq!(log.style_debug, Some(style(Color::Blue)));
    assert_eq!(log.style_trace, Some(style(Color::Gray)));
    assert_eq!(log.format_separator, '|');
    assert_eq!(log.format_timestamp, None);
    assert_eq!(log.format_output_level, Some(TuiLoggerLevelOutput::Abbreviated));
    assert!(!log.format_output_target && !log.format_output_file && !log.format_output_line);
}

#[test]
fn border_types_are_those_of_the_frame() {
    let types = [
        (BorderType::Plain, ratatui::widgets::BorderType::Plain),
        (BorderType::Rounded, ratatui::widgets::BorderType::Rounded),
        (BorderType::Double, ratatui::widgets::BorderType::Double),
        (BorderType::Thick, ratatui::widgets::BorderType::Thick),
        (BorderType::QuadrantInside, ratatui::widgets::BorderType::QuadrantInside),
        (BorderType::QuadrantOutside, ratatui::widgets::BorderType::QuadrantOutside),
    ];
    for (own, theirs) in types {
        let (target, _) = TuiLoggerSmartWidget::default().border_type(own).widgets("");
        let expected = Block::default()
            .title(Line::from("Tui Target Selector"))
            .border_type(theirs)
            .borders(Borders::ALL);
        assert_eq!(target.block, Some(expected));
    }
}

#[test]
fn list_and_log_stand_side_by_side() {
    let mut state = TuiWidgetInnerState::new();
    let mut buf = empty(40, 4);
    let widget = TuiLoggerSmartWidget::default();
    assert!(widget.render("2.0", &mut state, &logger(), area(0, 0, 40, 4), &mut buf));
    assert_eq!(line(&buf, 0), "┌Tui Target ┐┌Tui Log [log=2.0/s]──────┐");
    assert_eq!(line(&buf, 1), "│EWI  :alpha││00:00:01:INFO :alpha:m   │");
    assert_eq!(line(&buf, 2), "│           ││                         │");
    assert_eq!(line(&buf, 3), "└───────────┘└─────────────────────────┘");
    assert_eq!(state.opt_selected_target, Some("alpha".to_string()));
}

#[test]
fn hidden_list_leaves_its_room_to_the_log() {
    let mut state = TuiWidgetInnerState::new();
    press(&mut state, TuiWidgetEvent::HideKey);
    let mut buf = empty(30, 3);
    let widget = TuiLoggerSmartWidget::default();
    assert!(widget.render("0.0", &mut state, &logger(), area(0, 0, 30, 3), &mut buf));
    assert_eq!(line(&buf, 0), "┌Tui Log [log=0.0/s]─────────┐");
    assert_eq!(line(&buf, 1), "│00:00:01:INFO :alpha:m      │");
    assert!(state.opt_selected_target.is_none());
}

#[test]
fn list_is_as_wide_as_its_widest_target() {
    let mut inner = TuiLoggerInner::new();
    let mut state = TuiWidgetInnerState::new();
    assert_eq!(TuiLoggerSmartWidget::list_width(&mut state, &inner), Some(8));
    set_level_for_target(&mut inner, "äöü", LevelFilter::Info);
    set_level_for_target(&mut inner, "switched_off", LevelFilter::Off);
    assert_eq!(TuiLoggerSmartWidget::list_width(&mut state, &inner), Some(20));
    press(&mut state, TuiWidgetEvent::SpaceKey);
    assert_eq!(TuiLoggerSmartWidget::list_width(&mut state, &inner), Some(14));
    assert_eq!(state.config.get("äöü"), Some(LevelFilter::Info));
}

#[test]
fn width_of_the_list_has_sixteen_bits() {
    let width_for = |len: usize| {
        let mut inner = TuiLoggerInner::new();
        set_level_for_target(&mut inner, &"x".repeat(len), LevelFilter::Info);
        TuiLoggerSmartWidget::list_width(&mut TuiWidgetInnerState::new(), &inner)
    };
    assert_eq!(width_for(65527), Some(65535));
    assert_eq!(width_for(65528), None);
    assert_eq!(width_for(65536), Some(8));
}

#[test]
fn target_that_is_too_wide_cannot_be_drawn() {
    let mut inner = TuiLoggerInner::new();
    set_level_for_target(&mut inner, &"x".repeat(65530), LevelFilter::Info);
    let mut state = TuiWidgetInnerState::new();
    let mut buf = empty(40, 4);
    let widget = TuiLoggerSmartWidget::default();
    assert!(!widget.render("0.0", &mut state, &inner, area(0, 0, 40, 4), &mut buf));
    assert_eq!(buf, empty(40, 4));
}

fn drawn(
    widget: TuiLoggerSmartWidget,
    hide: bool,
    rate: &str,
    width: u16,
) -> (Option<bool>, String) {
    let mut state = TuiWidgetInnerState::new();
    if hide {
        press(&mut state, TuiWidgetEvent::HideKey);
    }
    let mut buf = empty(width, 3);
    let result =
        widget.try_render(rate, &mut state, &TuiLoggerInner::new(), area(0, 0, width, 3), &mut buf);
    (result, line(&buf, 0))
}

#[test]
fn titles_have_a_greatest_width() {
    let long = "t".repeat(65535);
    let widget = || TuiLoggerSmartWidget::default().title_target(Line::from(long.as_str()));
    assert_eq!(drawn(widget(), false, "0.0", 40).0, None);
    assert_eq!(drawn(widget(), true, "0.0", 40).0, Some(true));
    // A title that is moved to the right is not counted up.
    let right = Line::from(long.as_str()).right_aligned();
    let widget = TuiLoggerSmartWidget::default().title_target(right);
    assert_eq!(drawn(widget, false, "0.0", 40).0, Some(true));
    let long = "t".repeat(65535 - 12);
    let widget = || TuiLoggerSmartWidget::default().title_log(Line::from(long.as_str()));
    assert_eq!(drawn(widget(), false, "0.0", 40).0, None);
    assert_eq!(drawn(widget(), false, "10.0", 40).0, Some(true));
    let center = Line::from(long.as_str()).centered();
    assert_eq!(drawn(TuiLoggerSmartWidget::default().title_log(center), true, "0.0", 40).0, None);
}

#[test]
fn titles_that_are_cut_at_the_front() {
    let lam_alef = "aaaaaaaa\u{644}\u{627}";
    let target =
        |line: Line<'static>| drawn(TuiLoggerSmartWidget::default().title_target(line), false, "", 30);
    // Eight columns for a list without targets leave six to its title.
    assert_eq!(target(Line::from(lam_alef).right_aligned()).0, None);
    assert_eq!(target(Line::from(lam_alef).centered()).0, None);
    assert_eq!(target(Line::from(lam_alef)).0, Some(true));
    assert_eq!(target(Line::from(lam_alef).left_aligned()).0, Some(true));
    let (result, top) = target(Line::from("\u{644}\u{627}").right_aligned());
    assert_eq!(result, Some(true));
    assert!(top.contains('\u{644}'));
    let (result, top) = target(Line::from("0123456789").right_aligned());
    assert_eq!(result, Some(true));
    assert!(top.starts_with("┌456789┐"), "{}", top);
    let (result, top) = target(Line::from("0123456789").centered());
    assert_eq!(result, Some(true));
    assert!(top.starts_with("┌234567┐"), "{}", top);
}

#[test]
fn titles_whose_widths_add_up_can_be_cut() {
    let samples = [
        "grüße aus köln", "здравствуйте", "καλημέρα κόσμε", "日本語のタイトル", "한국어 제목입니다",
        "สวัสดีชาวโลก", "नमस्ते दुनिया", "e\u{301}e\u{301}e\u{301}e\u{301}e\u{301}e\u{301}e\u{301}",
        "🦀🦀🦀🦀🦀🦀", "🇩🇪🇫🇷🇮🇹🇪🇸🇵🇹", "─│┌┐└┘├┤┬┴", "שלום עולם וברכה",
        "مرحبا بك يا أحمد", "កខគឃងចឆជឈញ", "ⵜⵉⴼⵉⵏⴰⵖⵜⵉⴼ", "a\u{200b}b\u{200b}c\u{200b}defghij", "①②③④⑤⑥⑦⑧",
        "\u{7f}\u{80}\u{9f}\u{a0}abcdefgh", "ᄀᄀ가ᅡᆨᆨabcdefgh", "⚠☎✈❤☀♥♠☺☹x",
    ];
    for sample in samples {
        for width in 19..30 {
            for line in [Line::from(sample).right_aligned(), Line::from(sample).centered()] {
                let widget = TuiLoggerSmartWidget::default().title_log(line);
                assert_eq!(drawn(widget, true, "", width).0, Some(true), "{}", sample);
            }
        }
    }
}

#[test]
fn titles_need_no_room_where_nothing_is_visible() {
    let line = Line::from("aaaaaaaa\u{644}\u{627}").right_aligned();
    let widget = TuiLoggerSmartWidget::default().title_log(line);
    let mut state = TuiWidgetInnerState::new();
    press(&mut state, TuiWidgetEvent::HideKey);
    let mut buf = empty(10, 3);
    let outside = area(20, 0, 10, 3);
    let result =
        widget.try_render("", &mut state, &TuiLoggerInner::new(), outside, &mut buf);
    assert_eq!(result, Some(true));
    assert_eq!(buf, empty(10, 3));
}

#[test]
fn frame_reaches_the_last_column() {
    let mut state = TuiWidgetInnerState::new();
    let mut buf = Buffer::empty(ratatui::layout::Rect::new(65505, 0, 30, 3));
    let title = Line::from("tttttttttttttttttttt\u{301}\u{200b}");
    let widget = TuiLoggerSmartWidget::default().title_log(title);
    press(&mut state, TuiWidgetEvent::HideKey);
    let inner = logger();
    let outer = area(65505, 0, 30, 3);
    assert_eq!(widget.try_render("99.9", &mut state, &inner, outer, &mut buf), Some(true));
    assert_eq!(buf.cell((65534, 0)).unwrap().symbol(), "┐");
    assert_eq!(buf.cell((65505, 1)).unwrap().symbol(), "│");
}

#[test]
fn titles_that_do_not_fit_leave_the_buffer() {
    let line = Line::from("aaaaaaaa\u{644}\u{627}").right_aligned();
    let widget = TuiLoggerSmartWidget::default().title_target(line);
    let mut inner = TuiLoggerInner::new();
    set_level_for_target(&mut inner, "a", LevelFilter::Warn);
    let mut state = TuiWidgetInnerState::new();
    let mut buf = empty(40, 3);
    let result = widget.try_render("0.0", &mut state, &inner, area(0, 0, 40, 3), &mut buf);
    assert_eq!(result, None);
    assert_eq!(buf, empty(40, 3));
    assert_eq!(state.config.get("a"), Some(LevelFilter::Warn));
    assert_eq!(state.nr_items, 0);
}

#[test]
fn log_that_cannot_be_shown_is_reported() {
    let mut inner = logger();
    inner.events.push(ExtLogRecord {
        timestamp: Timestamp { secs: 2, nanos: 0, offset: 0 },
        level: Level::Info,
        target: "alpha".to_string(),
        file: "?".to_string(),
        line: 0,
        msg: String::new(),
    });
    let mut state = TuiWidgetInnerState::new();
    let mut buf = empty(40, 4);
    let widget = TuiLoggerSmartWidget::default();
    assert!(!widget.render("0.0", &mut state, &inner, area(0, 0, 40, 4), &mut buf));
    assert_eq!(&line(&buf, 1)[..], "│EWI  :alpha│                           ");
}
