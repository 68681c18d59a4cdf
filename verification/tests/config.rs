use tui_logger::config::widest_name;
use tui_logger::config::LevelConfig;
use tui_logger::level::advance_levelfilter;
use tui_logger::Level;
use tui_logger::LevelFilter;

const FILTERS: [LevelFilter; 6] = [
    LevelFilter::Off,
    LevelFilter::Error,
    LevelFilter::Warn,
    LevelFilter::Info,
    LevelFilter::Debug,
    LevelFilter::Trace,
];

const LEVELS: [Level; 5] =
    [Level::Error, Level::Warn, Level::Info, Level::Debug, Level::Trace];

#[test]
fn filters_let_through_what_is_severe_enough() {
    for (i, filter) in FILTERS.iter().enumerate() {
        for (j, level) in LEVELS.iter().enumerate() {
            assert_eq!(filter.allows(*level), j < i);
        }
        for (j, other) in FILTERS.iter().enumerate() {
            assert_eq!(filter.at_most(*other), i <= j);
        }
    }
}

#[test]
fn steps_of_verbosity() {
    assert_eq!(advance_levelfilter(LevelFilter::Off), (Some(LevelFilter::Error), None));
    assert_eq!(
        advance_levelfilter(LevelFilter::Info),
        (Some(LevelFilter::Debug), Some(LevelFilter::Warn))
    );
    assert_eq!(advance_levelfilter(LevelFilter::Trace), (None, Some(LevelFilter::Debug)));
    for pair in FILTERS.windows(2) {
        assert_eq!(advance_levelfilter(pair[0]).0, Some(pair[1]));
        assert_eq!(advance_levelfilter(pair[1]).1, Some(pair[0]));
    }
}

#[test]
fn set_filters_are_found() {
    let mut config = LevelConfig::new();
    assert_eq!(config.get("a"), None);
    config.set("b", LevelFilter::Warn);
    config.set("a", LevelFilter::Info);
    config.set("c", LevelFilter::Off);
    config.set("b", LevelFilter::Trace);
    assert_eq!(config.get("a"), Some(LevelFilter::Info));
    assert_eq!(config.get("b"), Some(LevelFilter::Trace));
    assert_eq!(config.get("c"), Some(LevelFilter::Off));
    assert_eq!(config.get("d"), None);
    assert_eq!(config.default_display_level(), None);
}

#[test]
fn default_display_level_is_kept() {
    let mut config = LevelConfig::new();
    config.set_default_display_level(LevelFilter::Debug);
    config.set("a", LevelFilter::Error);
    assert_eq!(config.default_display_level(), Some(LevelFilter::Debug));
    assert_eq!(config.get("a"), Some(LevelFilter::Error));
}

#[test]
fn targets_are_listed_in_order() {
    let mut config = LevelConfig::new();
    for name in ["net", "app", "db", "app::ui"] {
        config.set(name, LevelFilter::Info);
    }
    config.set("db", LevelFilter::Off);
    assert_eq!(config.targets(false), vec!["app", "app::ui", "db", "net"]);
    assert_eq!(config.targets(true), vec!["app", "app::ui", "net"]);
}

#[test]
fn merge_takes_over_targets_and_bounds_levels() {
    let mut origin = LevelConfig::new();
    origin.set("new", LevelFilter::Info);
    origin.set("lower", LevelFilter::Warn);
    origin.set("higher", LevelFilter::Trace);
    let mut own = LevelConfig::new();
    own.set("lower", LevelFilter::Debug);
    own.set("higher", LevelFilter::Info);
    own.set("own", LevelFilter::Trace);
    own.set_default_display_level(LevelFilter::Error);
    own.merge(&origin);
    assert_eq!(own.get("new"), Some(LevelFilter::Info));
    assert_eq!(own.get("lower"), Some(LevelFilter::Warn));
    assert_eq!(own.get("higher"), Some(LevelFilter::Info));
    assert_eq!(own.get("own"), Some(LevelFilter::Trace));
    assert_eq!(own.default_display_level(), Some(LevelFilter::Error));
    let once = own.targets(false);
    own.merge(&origin);
    assert_eq!(own.targets(false), once);
    assert_eq!(own.get("lower"), Some(LevelFilter::Warn));
}

#[test]
fn width_is_counted_in_bytes() {
    assert_eq!(widest_name(&vec![]), 0);
    assert_eq!(widest_name(&vec!["ab".to_string(), "äöü".to_string(), "abc".to_string()]), 6);
}
