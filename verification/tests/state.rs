use tui_logger::clock::Timestamp;
use tui_logger::config::LevelConfig;
use tui_logger::logger::TuiLoggerInner;
use tui_logger::set_level_for_target;
use tui_logger::state::TuiWidgetInnerState;
use tui_logger::LevelFilter;
use tui_logger::TuiWidgetEvent;
use tui_logger::TuiWidgetState;

fn hot(names: &[(&str, LevelFilter)]) -> LevelConfig {
    let mut config = LevelConfig::new();
    for (name, level) in names {
        config.set(name, *level);
    }
    config
}

fn three() -> LevelConfig {
    hot(&[
        ("alpha", LevelFilter::Info),
        ("beta", LevelFilter::Debug),
        ("gamma", LevelFilter::Off),
    ])
}

fn press(state: &mut TuiWidgetInnerState, event: TuiWidgetEvent) {
    state.transition(event, &mut TuiLoggerInner::new());
}

fn at(secs: i64) -> Timestamp {
    Timestamp { secs, nanos: 0, offset: 0 }
}

#[test]
fn new_state_is_empty() {
    let state = TuiWidgetState::new().inner;
    assert_eq!(state.nr_items, 0);
    assert_eq!(state.selected, 0);
    assert_eq!(state.offset, 0);
    assert!(state.opt_timestamp_bottom.is_none());
    assert!(state.opt_selected_target.is_none());
    assert!(!state.hide_off && !state.hide_target && !state.focus_selected);
    assert!(state.config.targets(false).is_empty());
    assert_eq!(state.config.default_display_level(), None);
}

#[test]
fn switches_are_toggled() {
    let mut state = TuiWidgetState::default();
    let mut logger = TuiLoggerInner::new();
    for _ in 0..2 {
        let before =
            (state.inner.hide_off, state.inner.hide_target, state.inner.focus_selected);
        state.transition(TuiWidgetEvent::SpaceKey, &mut logger);
        state.transition(TuiWidgetEvent::HideKey, &mut logger);
        state.transition(TuiWidgetEvent::FocusKey, &mut logger);
        assert_eq!(
            (state.inner.hide_off, state.inner.hide_target, state.inner.focus_selected),
            (!before.0, !before.1, !before.2)
        );
    }
    assert!(!state.inner.hide_off && !state.inner.hide_target && !state.inner.focus_selected);
}

#[test]
fn selection_moves_within_the_list() {
    let mut state = TuiWidgetInnerState::new();
    state.update_targets(&three());
    press(&mut state, TuiWidgetEvent::UpKey);
    assert_eq!(state.selected, 0);
    press(&mut state, TuiWidgetEvent::DownKey);
    press(&mut state, TuiWidgetEvent::DownKey);
    press(&mut state, TuiWidgetEvent::DownKey);
    assert_eq!(state.selected, 2);
    press(&mut state, TuiWidgetEvent::UpKey);
    assert_eq!(state.selected, 1);
    press(&mut state, TuiWidgetEvent::HideKey);
    press(&mut state, TuiWidgetEvent::UpKey);
    press(&mut state, TuiWidgetEvent::DownKey);
    assert_eq!(state.selected, 1);
}

#[test]
fn selection_does_not_move_in_an_empty_list() {
    let mut state = TuiWidgetInnerState::new();
    press(&mut state, TuiWidgetEvent::DownKey);
    press(&mut state, TuiWidgetEvent::UpKey);
    assert_eq!(state.selected, 0);
}

#[test]
fn listed_targets_follow_the_logger() {
    let mut state = TuiWidgetInnerState::new();
    assert_eq!(state.update_targets(&three()), vec!["alpha", "beta", "gamma"]);
    assert_eq!(state.nr_items, 3);
    assert_eq!(state.opt_selected_target, Some("alpha".to_string()));
    assert_eq!(state.opt_selected_visibility_more, Some(LevelFilter::Debug));
    assert_eq!(state.opt_selected_visibility_less, Some(LevelFilter::Warn));
    assert_eq!(state.opt_selected_recording_more, Some(LevelFilter::Debug));
    assert_eq!(state.opt_selected_recording_less, Some(LevelFilter::Warn));
    state.selected = 2;
    press(&mut state, TuiWidgetEvent::SpaceKey);
    assert_eq!(state.update_targets(&three()), vec!["alpha", "beta"]);
    assert_eq!(state.selected, 1);
    assert_eq!(state.opt_selected_target, Some("beta".to_string()));
}

#[test]
fn selection_returns_to_the_start_of_an_empty_list() {
    let mut state = TuiWidgetInnerState::new();
    state.selected = 4;
    assert!(state.update_targets(&LevelConfig::new()).is_empty());
    assert_eq!(state.selected, 0);
    assert!(state.opt_selected_target.is_none());
}

#[test]
fn target_unknown_to_the_logger_cannot_be_recorded_differently() {
    let mut state =
        TuiWidgetState::new().set_level_for_target("not_yet", LevelFilter::Warn).inner;
    assert_eq!(state.update_targets(&LevelConfig::new()), vec!["not_yet"]);
    assert_eq!(state.opt_selected_visibility_more, Some(LevelFilter::Info));
    assert_eq!(state.opt_selected_recording_more, None);
    assert_eq!(state.opt_selected_recording_less, None);
    let mut logger = TuiLoggerInner::new();
    state.transition(TuiWidgetEvent::PlusKey, &mut logger);
    assert_eq!(logger.targets.get("not_yet"), None);
}

#[test]
fn left_and_right_change_what_is_displayed() {
    let mut logger = TuiLoggerInner::new();
    set_level_for_target(&mut logger, "alpha", LevelFilter::Trace);
    let mut state =
        TuiWidgetState::new().set_level_for_target("alpha", LevelFilter::Info).inner;
    state.update_targets(&logger.targets);
    state.transition(TuiWidgetEvent::RightKey, &mut logger);
    assert_eq!(state.config.get("alpha"), Some(LevelFilter::Debug));
    assert!(state.opt_selected_target.is_none());
    assert!(state.opt_selected_visibility_more.is_none());
    // The keys act once until the list is drawn again.
    state.transition(TuiWidgetEvent::RightKey, &mut logger);
    state.transition(TuiWidgetEvent::LeftKey, &mut logger);
    assert_eq!(state.config.get("alpha"), Some(LevelFilter::Debug));
    state.update_targets(&logger.targets);
    state.transition(TuiWidgetEvent::LeftKey, &mut logger);
    assert_eq!(state.config.get("alpha"), Some(LevelFilter::Info));
    assert_eq!(logger.targets.get("alpha"), Some(LevelFilter::Trace));
}

#[test]
fn plus_and_minus_change_what_is_recorded() {
    let mut logger = TuiLoggerInner::new();
    set_level_for_target(&mut logger, "alpha", LevelFilter::Info);
    let mut state = TuiWidgetInnerState::new();
    state.update_targets(&logger.targets);
    state.transition(TuiWidgetEvent::PlusKey, &mut logger);
    assert_eq!(logger.targets.get("alpha"), Some(LevelFilter::Debug));
    state.transition(TuiWidgetEvent::PlusKey, &mut logger);
    assert_eq!(logger.targets.get("alpha"), Some(LevelFilter::Debug));
    state.update_targets(&logger.targets);
    state.transition(TuiWidgetEvent::MinusKey, &mut logger);
    assert_eq!(logger.targets.get("alpha"), Some(LevelFilter::Info));
    assert_eq!(state.config.get("alpha"), Some(LevelFilter::Info));
}

#[test]
fn levels_at_the_ends_have_no_neighbour() {
    let mut logger = TuiLoggerInner::new();
    set_level_for_target(&mut logger, "all", LevelFilter::Trace);
    set_level_for_target(&mut logger, "nothing", LevelFilter::Off);
    let mut state = TuiWidgetInnerState::new();
    state.update_targets(&logger.targets);
    state.transition(TuiWidgetEvent::PlusKey, &mut logger);
    assert_eq!(logger.targets.get("all"), Some(LevelFilter::Trace));
    state.transition(TuiWidgetEvent::DownKey, &mut logger);
    state.update_targets(&logger.targets);
    assert_eq!(state.opt_selected_target, Some("nothing".to_string()));
    state.transition(TuiWidgetEvent::MinusKey, &mut logger);
    assert_eq!(logger.targets.get("nothing"), Some(LevelFilter::Off));
    assert!(state.opt_selected_target.is_none());
}

#[test]
fn paging_keys_choose_the_page() {
    let mut state = TuiWidgetInnerState::new();
    state.opt_timestamp_prev_page = Some(at(1));
    state.opt_timestamp_next_page = Some(at(2));
    press(&mut state, TuiWidgetEvent::PrevPageKey);
    assert_eq!(state.opt_timestamp_bottom, Some(at(1)));
    press(&mut state, TuiWidgetEvent::NextPageKey);
    assert_eq!(state.opt_timestamp_bottom, Some(at(2)));
    press(&mut state, TuiWidgetEvent::EscapeKey);
    assert_eq!(state.opt_timestamp_bottom, None);
    assert_eq!(state.opt_timestamp_prev_page, Some(at(1)));
}

#[test]
fn builder_sets_display_levels() {
    let state = TuiWidgetState::new()
        .set_default_display_level(LevelFilter::Warn)
        .set_level_for_target("a", LevelFilter::Trace);
    assert_eq!(state.inner.config.default_display_level(), Some(LevelFilter::Warn));
    assert_eq!(state.inner.config.get("a"), Some(LevelFilter::Trace));
}

#[test]
fn scrolling_follows_the_selection() {
    let mut state = TuiWidgetInnerState::new();
    state.nr_items = 10;
    state.selected = 7;
    assert_eq!(state.scroll(4), 4);
    assert_eq!(state.offset, 4);
    state.selected = 5;
    assert_eq!(state.scroll(4), 4);
    assert_eq!(state.offset, 4);
    state.selected = 2;
    assert_eq!(state.scroll(4), 4);
    assert_eq!(state.offset, 2);
    state.selected = 9;
    state.offset = 8;
    assert_eq!(state.scroll(4), 4);
    assert_eq!(state.offset, 6);
    assert_eq!(state.scroll(20), 10);
    assert_eq!(state.offset, 0);
}

#[test]
fn selected_target_is_always_visible() {
    for n in 0..6usize {
        for selected in 0..6usize {
            for offset in 0..6usize {
                for height in 1..6u16 {
                    let mut state = TuiWidgetInnerState::new();
                    state.nr_items = n;
                    state.selected = selected;
                    state.offset = offset;
                    let shown = state.scroll(height);
                    assert_eq!(shown, n.min(height as usize));
                    if selected < n {
                        assert!(state.offset <= selected && selected < state.offset + shown);
                        assert!(state.offset + shown <= n);
                    } else {
                        assert_eq!(state.offset, 0);
                    }
                }
            }
        }
    }
}
