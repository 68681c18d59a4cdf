use ratatui::buffer::Buffer;
use ratatui::style::Color;
use ratatui::style::Modifier;
use ratatui::style::Style;
use ratatui::widgets::Block;
use tui_logger::logger::TuiLoggerInner;
use tui_logger::screen::Rect;
use tui_logger::set_default_level;
use tui_logger::set_level_for_target;
use tui_logger::state::TuiWidgetInnerState;
use tui_logger::LevelFilter;
use tui_logger::TuiLoggerTargetWidget;
use tui_logger::TuiWidgetEvent;
use tui_logger::TuiWidgetState;

fn area(x: u16, y: u16, width: u16, height: u16) -> Rect {
    Rect { x, y, width, height }
}

fn press(state: &mut TuiWidgetInnerState, event: TuiWidgetEvent) {
    state.transition(event, &mut TuiLoggerInner::new());
}

fn empty(width: u16, height: u16) -> Buffer {
    Buffer::empty(ratatui::layout::Rect::new(0, 0, width, height))
}

fn line(buf: &Buffer, y: u16) -> String {
    (0..buf.area.width).map(|x| buf.cell((x, y)).unwrap().symbol()).collect()
}

fn style_at(buf: &Buffer, x: u16, y: u16) -> Style {
    buf.cell((x, y)).unwrap().style()
}

fn is_reversed(buf: &Buffer, x: u16, y: u16) -> bool {
    buf.cell((x, y)).unwrap().modifier.contains(Modifier::REVERSED)
}

fn logger() -> TuiLoggerInner {
    let mut inner = TuiLoggerInner::new();
    set_level_for_target(&mut inner, "beta", LevelFilter::Debug);
    set_level_for_target(&mut inner, "alpha", LevelFilter::Info);
    set_level_for_target(&mut inner, "gamma", LevelFilter::Off);
    inner
}

#[test]
fn defaults_of_the_target_widget() {
    let widget = TuiLoggerTargetWidget::default();
    let reversed = Style::default().add_modifier(Modifier::REVERSED);
    assert_eq!(widget.style, Style::default());
    assert_eq!(widget.style_hide, Style::default());
    assert_eq!(widget.style_show, reversed);
    assert_eq!(widget.highlight_style, reversed);
    assert_eq!(widget.style_off, None);
    assert!(widget.block.is_none());
}

#[test]
fn builders_of_the_target_widget() {
    let red = Style::default().fg(Color::Red);
    let widget = TuiLoggerTargetWidget::default()
        .style(red)
        .style_off(red)
        .style_hide(red)
        .style_show(red)
        .highlight_style(red)
        .block(Block::bordered());
    assert_eq!(widget.style, red);
    assert_eq!(widget.style_off, Some(red));
    assert_eq!(widget.style_hide, red);
    assert_eq!(widget.style_show, red);
    assert_eq!(widget.highlight_style, red);
    assert_eq!(widget.block, Some(Block::bordered()));
}

#[test]
fn list_shows_marks_and_targets() {
    let mut state = TuiWidgetInnerState::new();
    let mut buf = empty(14, 4);
    buf.cell_mut((3, 0)).unwrap().set_symbol("x");
    let widget = TuiLoggerTargetWidget::default();
    assert!(widget.render(&mut state, &logger(), area(0, 0, 14, 4), &mut buf));
    assert_eq!(line(&buf, 0), "EWI  :alpha   ");
    assert_eq!(line(&buf, 1), "EWID :beta    ");
    assert_eq!(line(&buf, 2), "     :gamma   ");
    assert_eq!(line(&buf, 3), "              ");
    assert!(is_reversed(&buf, 0, 0) && is_reversed(&buf, 2, 0));
    assert!(!is_reversed(&buf, 3, 0) && !is_reversed(&buf, 5, 0));
    // The selected target is highlighted.
    assert!(is_reversed(&buf, 6, 0) && is_reversed(&buf, 10, 0));
    assert!(!is_reversed(&buf, 6, 1));
    assert_eq!(state.nr_items, 3);
    assert_eq!(state.opt_selected_target, Some("alpha".to_string()));
}

#[test]
fn levels_that_are_recorded_but_not_displayed_are_hidden() {
    let blue = Style::default().fg(Color::Blue);
    let green = Style::default().fg(Color::Green);
    let gray = Style::default().fg(Color::Gray);
    let mut state =
        TuiWidgetState::new().set_level_for_target("beta", LevelFilter::Warn).inner;
    let mut buf = empty(14, 3);
    let widget =
        TuiLoggerTargetWidget::default().style_show(green).style_hide(blue).style_off(gray);
    assert!(widget.render(&mut state, &logger(), area(0, 0, 14, 3), &mut buf));
    assert_eq!(line(&buf, 1), "EWIDT:beta    ");
    assert_eq!(style_at(&buf, 0, 1).fg, Some(Color::Green));
    assert_eq!(style_at(&buf, 1, 1).fg, Some(Color::Green));
    assert_eq!(style_at(&buf, 2, 1).fg, Some(Color::Blue));
    assert_eq!(style_at(&buf, 3, 1).fg, Some(Color::Blue));
    assert_eq!(style_at(&buf, 4, 1).fg, Some(Color::Gray));
    assert_eq!(line(&buf, 2), "EWIDT:gamma   ");
}

#[test]
fn focus_shows_the_selected_target_only() {
    let mut state = TuiWidgetInnerState::new();
    press(&mut state, TuiWidgetEvent::FocusKey);
    let mut buf = empty(14, 3);
    let widget = TuiLoggerTargetWidget::default();
    assert!(widget.render(&mut state, &logger(), area(0, 0, 14, 3), &mut buf));
    assert!(is_reversed(&buf, 0, 0));
    assert!(!is_reversed(&buf, 0, 1));
    assert_eq!(line(&buf, 1), "EWID :beta    ");
}

#[test]
fn target_that_was_not_logged_yet_has_the_default_level() {
    let mut inner = TuiLoggerInner::new();
    set_default_level(&mut inner, LevelFilter::Warn);
    let mut state =
        TuiWidgetState::new().set_level_for_target("not_yet", LevelFilter::Error).inner;
    let mut buf = empty(16, 1);
    let widget = TuiLoggerTargetWidget::default();
    assert!(widget.render(&mut state, &inner, area(0, 0, 16, 1), &mut buf));
    assert_eq!(line(&buf, 0), "EW   :not_yet   ");
    assert!(is_reversed(&buf, 0, 0));
    assert!(!is_reversed(&buf, 1, 0));
}

#[test]
fn list_scrolls_to_the_selected_target() {
    let mut state = TuiWidgetInnerState::new();
    state.selected = 2;
    let mut buf = empty(14, 2);
    let widget = TuiLoggerTargetWidget::default();
    assert!(widget.render(&mut state, &logger(), area(0, 0, 14, 2), &mut buf));
    assert_eq!(line(&buf, 0), "EWID :beta    ");
    assert_eq!(line(&buf, 1), "     :gamma   ");
    assert_eq!(state.offset, 1);
    assert!(is_reversed(&buf, 6, 1));
}

#[test]
fn block_frames_the_list() {
    let mut state = TuiWidgetInnerState::new();
    let mut buf = empty(14, 5);
    let widget = TuiLoggerTargetWidget::default().block(Block::bordered().title("Targets"));
    assert!(widget.render(&mut state, &logger(), area(0, 0, 14, 5), &mut buf));
    assert_eq!(line(&buf, 0), "┌Targets─────┐");
    assert_eq!(line(&buf, 1), "│EWI  :alpha │");
    assert_eq!(line(&buf, 4), "└────────────┘");
}

#[test]
fn base_style_fills_the_area() {
    let red = Style::default().bg(Color::Red);
    let mut state = TuiWidgetInnerState::new();
    let mut buf = empty(14, 3);
    let widget = TuiLoggerTargetWidget::default().style(red);
    assert!(widget.render(&mut state, &logger(), area(1, 1, 10, 1), &mut buf));
    assert_eq!(style_at(&buf, 10, 1).bg, Some(Color::Red));
    assert_eq!(style_at(&buf, 0, 1).bg, Some(Color::Reset));
    assert_eq!(style_at(&buf, 10, 0).bg, Some(Color::Reset));
}

#[test]
fn small_areas_stay_empty() {
    let mut state = TuiWidgetInnerState::new();
    let mut buf = empty(14, 3);
    let widget = TuiLoggerTargetWidget::default();
    assert!(widget.render(&mut state, &logger(), area(0, 0, 7, 3), &mut buf));
    assert_eq!(buf, empty(14, 3));
    assert_eq!(state.nr_items, 0);
    let widget = TuiLoggerTargetWidget::default();
    assert!(widget.render(&mut state, &logger(), area(0, 0, 14, 0), &mut buf));
    assert_eq!(buf, empty(14, 3));
}

#[test]
fn list_below_the_buffer_cannot_be_drawn() {
    let mut state = TuiWidgetInnerState::new();
    let mut buf = empty(14, 2);
    let widget = TuiLoggerTargetWidget::default();
    assert!(!widget.render(&mut state, &logger(), area(0, 0, 14, 3), &mut buf));
    assert_eq!(buf, empty(14, 2));
    assert_eq!(state.nr_items, 3);
}

#[test]
fn list_beside_the_buffer_is_cut_off() {
    let mut state = TuiWidgetInnerState::new();
    let mut buf = empty(8, 3);
    let widget = TuiLoggerTargetWidget::default();
    assert!(widget.render(&mut state, &logger(), area(0, 0, 20, 3), &mut buf));
    assert_eq!(line(&buf, 0), "EWI  :al");
    let mut buf = empty(3, 3);
    let widget = TuiLoggerTargetWidget::default();
    assert!(widget.render(&mut state, &logger(), area(0, 0, 20, 3), &mut buf));
    assert_eq!(line(&buf, 1), "EWI");
}

#[test]
fn list_beyond_the_coordinates_cannot_be_drawn() {
    let mut state = TuiWidgetInnerState::new();
    let mut buf = empty(14, 3);
    let widget = TuiLoggerTargetWidget::default();
    assert!(widget.layout(&mut state, &logger(), area(65530, 0, 10, 3)).is_none());
    assert!(widget.layout(&mut state, &logger(), area(0, 65534, 10, 3)).is_none());
    assert!(widget.layout(&mut state, &logger(), area(65529, 65533, 10, 3)).is_some());
    assert!(!widget.render(&mut state, &logger(), area(65530, 0, 10, 3), &mut buf));
    assert_eq!(buf, empty(14, 3));
}

#[test]
fn area_may_reach_beyond_the_coordinates() {
    let mut state = TuiWidgetInnerState::new();
    let mut buf = Buffer::empty(ratatui::layout::Rect::new(65520, 65532, 15, 3));
    let widget = TuiLoggerTargetWidget::default();
    assert!(widget.render(&mut state, &logger(), area(65520, 65532, 100, 100), &mut buf));
    let row: String =
        (65520..65535).map(|x| buf.cell((x, 65533)).unwrap().symbol()).collect();
    assert_eq!(row, "EWID :beta     ");
}

#[test]
fn target_without_visible_characters_may_lie_outside() {
    let mut inner = TuiLoggerInner::new();
    set_level_for_target(&mut inner, "\u{200b}", LevelFilter::Info);
    let mut state = TuiWidgetInnerState::new();
    let draws =
        TuiLoggerTargetWidget::default().layout(&mut state, &inner, area(0, 5, 10, 1)).unwrap();
    assert!(tui_logger::screen::drawable(area(0, 5, 10, 1), &draws));
    // The colon before it is visible.
    assert!(!tui_logger::screen::drawable(area(0, 0, 10, 1), &draws));
    assert!(tui_logger::screen::drawable(area(0, 0, 10, 1), &draws[6..].iter().map(copy).collect()));
}

fn copy(draw: &tui_logger::screen::Draw) -> tui_logger::screen::Draw {
    match draw {
        tui_logger::screen::Draw::Text { x, y, text, max_width, style } => {
            tui_logger::screen::Draw::Text {
                x: *x,
                y: *y,
                text: text.clone(),
                max_width: *max_width,
                style: *style,
            }
        }
        tui_logger::screen::Draw::Letter { x, y, symbol, cell_style } => {
            tui_logger::screen::Draw::Letter {
                x: *x,
                y: *y,
                symbol: symbol.clone(),
                cell_style: *cell_style,
            }
        }
    }
}
