//! The state that the widgets share, the events that change it, and how the target list follows
//! the logger.

use crate::clock::Timestamp;
use crate::config::is_listed;
use crate::config::law_target_list_exists;
use crate::config::law_target_list_unique;
use crate::config::lemma_merged_finite;
use crate::config::lists_targets;
use crate::config::merged;
use crate::config::target_list;
use crate::config::LevelConfig;
use crate::level::advance_levelfilter;
use crate::level::less_verbose;
use crate::level::more_verbose;
use crate::level::law_rank_is_verbosity;
use crate::level::LevelFilter;
use crate::logger::set_level_for_target;
use crate::logger::TuiLoggerInner;
use crate::text::opt_text;
use crate::text::precedes;
use crate::text::texts;
use vstd::prelude::*;

verus! {

/// What a user can ask of the widgets.
#[derive(Debug, Clone, Copy, Eq, PartialEq, Hash, Structural)]
pub enum TuiWidgetEvent {
    SpaceKey,
    UpKey,
    DownKey,
    LeftKey,
    RightKey,
    PlusKey,
    MinusKey,
    HideKey,
    FocusKey,
    PrevPageKey,
    NextPageKey,
    EscapeKey,
}

/// The state behind the widgets.
pub struct TuiWidgetInnerState {
    pub config: LevelConfig,
    pub nr_items: usize,
    pub selected: usize,
    pub opt_timestamp_bottom: Option<Timestamp>,
    pub opt_timestamp_next_page: Option<Timestamp>,
    pub opt_timestamp_prev_page: Option<Timestamp>,
    pub opt_selected_target: Option<String>,
    pub opt_selected_visibility_more: Option<LevelFilter>,
    pub opt_selected_visibility_less: Option<LevelFilter>,
    pub opt_selected_recording_more: Option<LevelFilter>,
    pub opt_selected_recording_less: Option<LevelFilter>,
    pub offset: usize,
    pub hide_off: bool,
    pub hide_target: bool,
    pub focus_selected: bool,
}

/// What a `TuiWidgetInnerState` says.
#[verifier::ext_equal]
pub struct StateView {
    /// The filter each known target is displayed with.
    pub levels: Map<Seq<char>, LevelFilter>,
    /// The filter unknown targets are displayed with.
    pub display_level: Option<LevelFilter>,
    pub nr_items: usize,
    pub selected: usize,
    pub timestamp_bottom: Option<Timestamp>,
    pub timestamp_next_page: Option<Timestamp>,
    pub timestamp_prev_page: Option<Timestamp>,
    pub selected_target: Option<Seq<char>>,
    pub visibility_more: Option<LevelFilter>,
    pub visibility_less: Option<LevelFilter>,
    pub recording_more: Option<LevelFilter>,
    pub recording_less: Option<LevelFilter>,
    pub offset: usize,
    pub hide_off: bool,
    pub hide_target: bool,
    pub focus_selected: bool,
}

impl View for TuiWidgetInnerState {
    type V = StateView;

    open spec fn view(&self) -> StateView {
        StateView {
            levels: self.config@,
            display_level: self.config.display_level(),
            nr_items: self.nr_items,
            selected: self.selected,
            timestamp_bottom: self.opt_timestamp_bottom,
            timestamp_next_page: self.opt_timestamp_next_page,
            timestamp_prev_page: self.opt_timestamp_prev_page,
            selected_target: opt_text(self.opt_selected_target),
            visibility_more: self.opt_selected_visibility_more,
            visibility_less: self.opt_selected_visibility_less,
            recording_more: self.opt_selected_recording_more,
            recording_less: self.opt_selected_recording_less,
            offset: self.offset,
            hide_off: self.hide_off,
            hide_target: self.hide_target,
            focus_selected: self.focus_selected,
        }
    }
}

/// The state before anything was shown or asked for.
pub open spec fn initial_state() -> StateView {
    StateView {
        levels: Map::empty(),
        display_level: None,
        nr_items: 0,
        selected: 0,
        timestamp_bottom: None,
        timestamp_next_page: None,
        timestamp_prev_page: None,
        selected_target: None,
        visibility_more: None,
        visibility_less: None,
        recording_more: None,
        recording_less: None,
        offset: 0,
        hide_off: false,
        hide_target: false,
        focus_selected: false,
    }
}

/// The levels after a target's level was changed, if there is a level to change it to.
pub open spec fn with_level(
    levels: Map<Seq<char>, LevelFilter>,
    target: Seq<char>,
    level: Option<LevelFilter>,
) -> Map<Seq<char>, LevelFilter> {
    match level {
        Some(level) => levels.insert(target, level),
        None => levels,
    }
}

/// The state after an event. The keys that change a level use up the selected target and the
/// level to change to, so that a second press does nothing until the list is drawn again.
pub open spec fn next_state(s: StateView, event: TuiWidgetEvent) -> StateView {
    match event {
        TuiWidgetEvent::SpaceKey => StateView { hide_off: !s.hide_off, ..s },
        TuiWidgetEvent::HideKey => StateView { hide_target: !s.hide_target, ..s },
        TuiWidgetEvent::FocusKey => StateView { focus_selected: !s.focus_selected, ..s },
        TuiWidgetEvent::UpKey => if !s.hide_target && s.selected > 0 {
            StateView { selected: (s.selected - 1) as usize, ..s }
        } else {
            s
        },
        TuiWidgetEvent::DownKey => if !s.hide_target && s.selected + 1 < s.nr_items {
            StateView { selected: (s.selected + 1) as usize, ..s }
        } else {
            s
        },
        TuiWidgetEvent::LeftKey => match s.selected_target {
            Some(target) => StateView {
                selected_target: None,
                visibility_less: None,
                levels: with_level(s.levels, target, s.visibility_less),
                ..s
            },
            None => s,
        },
        TuiWidgetEvent::RightKey => match s.selected_target {
            Some(target) => StateView {
                selected_target: None,
                visibility_more: None,
                levels: with_level(s.levels, target, s.visibility_more),
                ..s
            },
            None => s,
        },
        TuiWidgetEvent::PlusKey => match s.selected_target {
            Some(target) => StateView { selected_target: None, recording_more: None, ..s },
            None => s,
        },
        TuiWidgetEvent::MinusKey => match s.selected_target {
            Some(target) => StateView { selected_target: None, recording_less: None, ..s },
            None => s,
        },
        TuiWidgetEvent::PrevPageKey => StateView { timestamp_bottom: s.timestamp_prev_page, ..s },
        TuiWidgetEvent::NextPageKey => StateView { timestamp_bottom: s.timestamp_next_page, ..s },
        TuiWidgetEvent::EscapeKey => StateView { timestamp_bottom: None, ..s },
    }
}

/// The level that an event asks the logger to record a target with, if it asks for one.
pub open spec fn recording_change(s: StateView, event: TuiWidgetEvent) -> Option<
    (Seq<char>, LevelFilter),
> {
    let level = match event {
        TuiWidgetEvent::PlusKey => s.recording_more,
        TuiWidgetEvent::MinusKey => s.recording_less,
        _ => None,
    };
    match (s.selected_target, level) {
        (Some(target), Some(level)) => Some((target, level)),
        _ => None,
    }
}

/// How an event changes the logger: it records a target with the level that the event asks for,
/// and is otherwise left as it was.
pub open spec fn recording_changed(
    before: TuiLoggerInner,
    change: Option<(Seq<char>, LevelFilter)>,
    after: TuiLoggerInner,
) -> bool {
    match change {
        Some((target, level)) => {
            &&& after.targets@ == before.targets@.insert(target, level)
            &&& after.targets.display_level() == before.targets.display_level()
            &&& after.events == before.events
            &&& after.total_events == before.total_events
            &&& after.default == before.default
        },
        None => after == before,
    }
}

/// The selected index after the list was found to have `n` entries.
pub open spec fn clamped_selection(selected: usize, n: nat) -> usize {
    if selected < n {
        selected
    } else if n == 0 {
        0
    } else {
        (n - 1) as usize
    }
}

/// The next more verbose filter after an optional one.
pub open spec fn opt_more(filter: Option<LevelFilter>) -> Option<LevelFilter> {
    match filter {
        Some(filter) => more_verbose(filter),
        None => None,
    }
}

/// The next less verbose filter before an optional one.
pub open spec fn opt_less(filter: Option<LevelFilter>) -> Option<LevelFilter> {
    match filter {
        Some(filter) => less_verbose(filter),
        None => None,
    }
}

/// The state after it took over the targets of the logger, `hot`: the list is made anew, the
/// selection stays within it, and the levels next to those of the selected target are at hand.
pub open spec fn with_targets(s: StateView, hot: Map<Seq<char>, LevelFilter>) -> StateView {
    let levels = merged(s.levels, hot);
    let names = target_list(levels, s.hide_off);
    let selected = clamped_selection(s.selected, names.len());
    let listed = StateView { levels, nr_items: names.len() as usize, selected, ..s };
    if selected < names.len() {
        let target = names[selected as int];
        StateView {
            selected_target: Some(target),
            visibility_more: opt_more(levels.get(target)),
            visibility_less: opt_less(levels.get(target)),
            recording_more: opt_more(hot.get(target)),
            recording_less: opt_less(hot.get(target)),
            ..listed
        }
    } else {
        listed
    }
}

/// How many of `n` targets a list of the given height shows.
pub open spec fn list_height(height: nat, n: nat) -> nat {
    if height <= n {
        height
    } else {
        n
    }
}

/// The first target shown: as near to `offset` as can be, so that the selected one is shown and
/// no row stays empty that a target could fill.
pub open spec fn list_offset(selected: nat, offset: nat, shown: nat, n: nat) -> nat {
    let lowest = if selected <= offset {
        selected
    } else {
        offset
    };
    if selected >= n {
        0
    } else if selected >= offset + shown {
        (selected - shown + 1) as nat
    } else if lowest + shown > n {
        (n - shown) as nat
    } else {
        lowest
    }
}

/// The state after the list was scrolled for a height.
pub open spec fn scrolled(s: StateView, height: nat) -> StateView {
    let shown = list_height(height, s.nr_items as nat);
    StateView {
        offset: list_offset(
            s.selected as nat,
            s.offset as nat,
            shown,
            s.nr_items as nat,
        ) as usize,
        ..s
    }
}

impl Default for TuiWidgetInnerState {
    fn default() -> (r: TuiWidgetInnerState)
        ensures
            r.wf(),
            r@ == initial_state(),
    {
        TuiWidgetInnerState {
            config: LevelConfig::new(),
            nr_items: 0,
            selected: 0,
            opt_timestamp_bottom: None,
            opt_timestamp_next_page: None,
            opt_timestamp_prev_page: None,
            opt_selected_target: None,
            opt_selected_visibility_more: None,
            opt_selected_visibility_less: None,
            opt_selected_recording_more: None,
            opt_selected_recording_less: None,
            offset: 0,
            hide_off: false,
            hide_target: false,
            focus_selected: false,
        }
    }
}

impl TuiWidgetInnerState {
    /// The filters are sound.
    pub open spec fn wf(&self) -> bool {
        self.config.wf()
    }

    pub fn new() -> (r: TuiWidgetInnerState)
        ensures
            r.wf(),
            r@ == initial_state(),
    {
        TuiWidgetInnerState::default()
    }

    /// Follow an event. It may change the level that the logger records a target with.
    pub fn transition(&mut self, event: TuiWidgetEvent, logger: &mut TuiLoggerInner)
        requires
            old(self).wf(),
            old(logger).wf(),
        ensures
            final(self).wf(),
            final(self)@ == next_state(old(self)@, event),
            final(logger).wf(),
            recording_changed(
                *old(logger),
                recording_change(old(self)@, event),
                *final(logger),
            ),
    {
        match event {
            TuiWidgetEvent::SpaceKey => {
                self.hide_off = !self.hide_off;
            },
            TuiWidgetEvent::HideKey => {
                self.hide_target = !self.hide_target;
            },
            TuiWidgetEvent::FocusKey => {
                self.focus_selected = !self.focus_selected;
            },
            TuiWidgetEvent::UpKey => {
                if !self.hide_target && self.selected > 0 {
                    self.selected = self.selected - 1;
                }
            },
            TuiWidgetEvent::DownKey => {
                if !self.hide_target && self.nr_items > 0 && self.selected < self.nr_items - 1 {
                    self.selected = self.selected + 1;
                }
            },
            TuiWidgetEvent::LeftKey => {
                if let Some(target) = self.opt_selected_target.take() {
                    if let Some(level) = self.opt_selected_visibility_less.take() {
                        self.config.set(target.as_str(), level);
                    }
                }
            },
            TuiWidgetEvent::RightKey => {
                if let Some(target) = self.opt_selected_target.take() {
                    if let Some(level) = self.opt_selected_visibility_more.take() {
                        self.config.set(target.as_str(), level);
                    }
                }
            },
            TuiWidgetEvent::PlusKey => {
                if let Some(target) = self.opt_selected_target.take() {
                    if let Some(level) = self.opt_selected_recording_more.take() {
                        set_level_for_target(logger, target.as_str(), level);
                    }
                }
            },
            TuiWidgetEvent::MinusKey => {
                if let Some(target) = self.opt_selected_target.take() {
                    if let Some(level) = self.opt_selected_recording_less.take() {
                        set_level_for_target(logger, target.as_str(), level);
                    }
                }
            },
            TuiWidgetEvent::PrevPageKey => {
                self.opt_timestamp_bottom = self.opt_timestamp_prev_page;
            },
            TuiWidgetEvent::NextPageKey => {
                self.opt_timestamp_bottom = self.opt_timestamp_next_page;
            },
            TuiWidgetEvent::EscapeKey => {
                self.opt_timestamp_bottom = None;
            },
        }
    }

    /// Take over the targets of the logger, and return those that are listed.
    pub fn update_targets(&mut self, hot: &LevelConfig) -> (targets: Vec<String>)
        requires
            old(self).wf(),
            hot.wf(),
        ensures
            final(self).wf(),
            final(self)@ == with_targets(old(self)@, hot@),
            texts(targets@) == target_list(final(self)@.levels, final(self)@.hide_off),
            lists_targets(texts(targets@), final(self)@.levels, final(self)@.hide_off),
    {
        self.config.merge(hot);
        let targets: Vec<String> = self.config.targets(self.hide_off);
        assert(texts(targets@).len() == targets@.len());
        self.nr_items = targets.len();
        if self.selected >= self.nr_items {
            self.selected = if self.nr_items == 0 {
                0
            } else {
                self.nr_items - 1
            };
        }
        if self.selected < self.nr_items {
            let target: String = targets[self.selected].clone();
            assert(texts(targets@)[self.selected as int] == target@);
            let (more, less): (Option<LevelFilter>, Option<LevelFilter>) = match self.config.get(
                target.as_str(),
            ) {
                Some(level) => advance_levelfilter(level),
                None => (None, None),
            };
            self.opt_selected_visibility_less = less;
            self.opt_selected_visibility_more = more;
            let (more, less): (Option<LevelFilter>, Option<LevelFilter>) = match hot.get(
                target.as_str(),
            ) {
                Some(level) => advance_levelfilter(level),
                None => (None, None),
            };
            self.opt_selected_recording_less = less;
            self.opt_selected_recording_more = more;
            self.opt_selected_target = Some(target);
        }
        targets
    }

    /// Scroll the list for a height, and return how many targets it shows.
    pub fn scroll(&mut self, height: u16) -> (shown: usize)
        requires
            old(self).wf(),
            height > 0,
        ensures
            final(self).wf(),
            final(self)@ == scrolled(old(self)@, height as nat),
            shown == list_height(height as nat, old(self).nr_items as nat),
    {
        let n: usize = self.nr_items;
        let shown: usize = if height as usize <= n {
            height as usize
        } else {
            n
        };
        let selected: usize = self.selected;
        self.offset = if selected >= n {
            0
        } else {
            let lowest: usize = if selected <= self.offset {
                selected
            } else {
                self.offset
            };
            if selected >= shown && selected - shown >= self.offset {
                // selected is below visible list range => make it the bottom
                selected - shown + 1
            } else if lowest > n - shown {
                n - shown
            } else {
                lowest
            }
        };
        shown
    }
}

/// This struct contains the state of a TuiLoggerWidget and a TuiLoggerTargetWidget.
pub struct TuiWidgetState {
    pub inner: TuiWidgetInnerState,
}

impl Default for TuiWidgetState {
    fn default() -> (r: TuiWidgetState)
        ensures
            r.inner.wf(),
            r.inner@ == initial_state(),
    {
        TuiWidgetState { inner: TuiWidgetInnerState::default() }
    }
}

impl TuiWidgetState {
    /// Create a new TuiWidgetState
    pub fn new() -> (r: TuiWidgetState)
        ensures
            r.inner.wf(),
            r.inner@ == initial_state(),
    {
        TuiWidgetState { inner: TuiWidgetInnerState::new() }
    }

    /// Set the filter that unknown targets are displayed with.
    pub fn set_default_display_level(self, levelfilter: LevelFilter) -> (r: TuiWidgetState)
        requires
            self.inner.wf(),
        ensures
            r.inner.wf(),
            r.inner@ == (StateView { display_level: Some(levelfilter), ..self.inner@ }),
    {
        let mut state = self;
        state.inner.config.set_default_display_level(levelfilter);
        state
    }

    /// Set the filter that a target is displayed with.
    pub fn set_level_for_target(self, target: &str, levelfilter: LevelFilter) -> (r: TuiWidgetState)
        requires
            self.inner.wf(),
        ensures
            r.inner.wf(),
            r.inner@ == (StateView {
                levels: self.inner@.levels.insert(target@, levelfilter),
                ..self.inner@
            }),
    {
        let mut state = self;
        state.inner.config.set(target, levelfilter);
        state
    }

    /// Follow an event. It may change the level that the logger records a target with.
    pub fn transition(&mut self, event: TuiWidgetEvent, logger: &mut TuiLoggerInner)
        requires
            old(self).inner.wf(),
            old(logger).wf(),
        ensures
            final(self).inner.wf(),
            final(self).inner@ == next_state(old(self).inner@, event),
            final(logger).wf(),
            recording_changed(
                *old(logger),
                recording_change(old(self).inner@, event),
                *final(logger),
            ),
    {
        self.inner.transition(event, logger);
    }
}

/// The keys that switch something do nothing if pressed twice.
pub proof fn law_switches_undo_themselves(s: StateView, event: TuiWidgetEvent)
    requires
        event == TuiWidgetEvent::SpaceKey || event == TuiWidgetEvent::HideKey || event
            == TuiWidgetEvent::FocusKey,
    ensures
        next_state(next_state(s, event), event) == s,
{
}

/// After a move down, a move up leads back, and the other way round.
pub proof fn law_moves_undo_each_other(s: StateView)
    requires
        s.selected < s.nr_items,
    ensures
        next_state(s, TuiWidgetEvent::DownKey) != s ==> next_state(
            next_state(s, TuiWidgetEvent::DownKey),
            TuiWidgetEvent::UpKey,
        ) == s,
        next_state(s, TuiWidgetEvent::UpKey) != s ==> next_state(
            next_state(s, TuiWidgetEvent::UpKey),
            TuiWidgetEvent::DownKey,
        ) == s,
{
}

/// No event moves the selection out of the list, or away from the start of an empty one.
pub proof fn law_selection_stays_in_list(s: StateView, event: TuiWidgetEvent)
    requires
        s.selected < s.nr_items || s.selected == 0,
    ensures
        next_state(s, event).selected < next_state(s, event).nr_items || next_state(
            s,
            event,
        ).selected == 0,
{
}

/// While the target list is hidden, the selection does not move.
pub proof fn law_hidden_list_keeps_selection(s: StateView, event: TuiWidgetEvent)
    requires
        s.hide_target,
    ensures
        next_state(s, event).selected == s.selected,
{
}

/// A key that changes a level does so once: pressed again, or followed by another such key,
/// nothing changes any more and nothing is asked of the logger.
pub proof fn law_level_keys_act_once(s: StateView, first: TuiWidgetEvent, second: TuiWidgetEvent)
    requires
        first == TuiWidgetEvent::LeftKey || first == TuiWidgetEvent::RightKey || first
            == TuiWidgetEvent::PlusKey || first == TuiWidgetEvent::MinusKey,
        second == TuiWidgetEvent::LeftKey || second == TuiWidgetEvent::RightKey || second
            == TuiWidgetEvent::PlusKey || second == TuiWidgetEvent::MinusKey,
    ensures
        next_state(next_state(s, first), second) == next_state(s, first),
        recording_change(next_state(s, first), second) is None,
{
}

/// Whatever page is shown, escape leads back to the newest events.
pub proof fn law_escape_leaves_history(s: StateView)
    ensures
        next_state(s, TuiWidgetEvent::EscapeKey).timestamp_bottom is None,
        next_state(s, TuiWidgetEvent::EscapeKey) == (StateView { timestamp_bottom: None, ..s }),
{
}

/// Merging with the same levels twice is merging once.
pub proof fn law_merge_idempotent(
    own: Map<Seq<char>, LevelFilter>,
    origin: Map<Seq<char>, LevelFilter>,
)
    ensures
        merged(merged(own, origin), origin) == merged(own, origin),
{
    assert(merged(merged(own, origin), origin) =~= merged(own, origin));
}

/// After a merge no target that the logger knows is displayed with more than is recorded of it.
pub proof fn law_merge_bounds_display(
    own: Map<Seq<char>, LevelFilter>,
    origin: Map<Seq<char>, LevelFilter>,
    target: Seq<char>,
)
    requires
        origin.contains_key(target),
    ensures
        merged(own, origin).contains_key(target),
        merged(own, origin)[target].rank() <= origin[target].rank(),
{
}

/// The right key displays more of the selected target, as long as more is recorded of it, and
/// once the list is drawn again the left key takes this back.
pub proof fn law_left_takes_right_back(
    s: StateView,
    hot: Map<Seq<char>, LevelFilter>,
    more: LevelFilter,
)
    requires
        s.levels.dom().finite(),
        hot.dom().finite(),
        0 < target_list(merged(s.levels, hot), s.hide_off).len() <= usize::MAX,
        with_targets(s, hot).visibility_more == Some(more),
        hot.get(with_targets(s, hot).selected_target.unwrap()) matches Some(level) ==> more.rank()
            <= level.rank(),
    ensures
        ({
            let drawn = with_targets(s, hot);
            let target = drawn.selected_target.unwrap();
            let again = with_targets(next_state(drawn, TuiWidgetEvent::RightKey), hot);
            &&& again.levels == drawn.levels.insert(target, more)
            &&& again.selected_target == Some(target)
            &&& next_state(again, TuiWidgetEvent::LeftKey).levels == drawn.levels
        }),
{
    lemma_merged_finite(s.levels, hot);
    law_target_list_exists(merged(s.levels, hot), s.hide_off);
    let drawn = with_targets(s, hot);
    let names = target_list(drawn.levels, s.hide_off);
    let target = drawn.selected_target.unwrap();
    assert(names.contains(target));
    let levels = drawn.levels.insert(target, more);
    assert(merged(levels, hot) =~= levels);
    assert forall|t: Seq<char>| #[trigger] names.contains(t) <==> is_listed(
        levels,
        s.hide_off,
        t,
    ) by {
        assert(names.contains(t) <==> is_listed(drawn.levels, s.hide_off, t));
    }
    law_target_list_unique(names, levels, s.hide_off);
    assert(levels.insert(target, drawn.levels[target]) =~= drawn.levels);
}

/// The plus key records more of the selected target, and once the list is drawn again the minus
/// key takes this back.
pub proof fn law_minus_takes_plus_back(s: StateView, hot: Map<Seq<char>, LevelFilter>)
    requires
        s.levels.dom().finite(),
        hot.dom().finite(),
        0 < target_list(merged(s.levels, hot), s.hide_off).len() <= usize::MAX,
        with_targets(s, hot).recording_more is Some,
    ensures
        ({
            let drawn = with_targets(s, hot);
            let target = drawn.selected_target.unwrap();
            let more = drawn.recording_more.unwrap();
            let again = with_targets(
                next_state(drawn, TuiWidgetEvent::PlusKey),
                hot.insert(target, more),
            );
            &&& recording_change(drawn, TuiWidgetEvent::PlusKey) == Some((target, more))
            &&& more.rank() == hot[target].rank() + 1
            &&& again.levels == drawn.levels
            &&& recording_change(again, TuiWidgetEvent::MinusKey) == Some((target, hot[target]))
        }),
{
    lemma_merged_finite(s.levels, hot);
    law_target_list_exists(merged(s.levels, hot), s.hide_off);
    let drawn = with_targets(s, hot);
    let target = drawn.selected_target.unwrap();
    let more = drawn.recording_more.unwrap();
    assert(merged(drawn.levels, hot.insert(target, more)) =~= drawn.levels);
}

/// A list that was scrolled shows the selected target, and fills its rows.
pub proof fn law_selected_is_visible(s: StateView, height: nat)
    requires
        height > 0,
        s.selected < s.nr_items,
    ensures
        ({
            let after = scrolled(s, height);
            let shown = list_height(height, s.nr_items as nat);
            &&& after.offset <= s.selected < after.offset + shown
            &&& after.offset + shown <= s.nr_items
        }),
{
}

/// A list that already shows the selected target and fills its rows does not move.
pub proof fn law_no_needless_scroll(s: StateView, height: nat)
    requires
        height > 0,
        s.selected < s.nr_items,
        s.offset <= s.selected < s.offset + list_height(height, s.nr_items as nat),
        s.offset + list_height(height, s.nr_items as nat) <= s.nr_items,
    ensures
        scrolled(s, height) == s,
{
}

/// What is displayed of a target is the widgets' own affair: the keys that change it ask nothing
/// of the logger, and those that change what is recorded leave what is displayed as it is.
pub proof fn law_display_and_recording_are_apart(s: StateView, event: TuiWidgetEvent)
    ensures
        recording_change(s, event) is Some ==> next_state(s, event).levels == s.levels,
        event == TuiWidgetEvent::LeftKey || event == TuiWidgetEvent::RightKey ==> recording_change(
            s,
            event,
        ) is None,
{
}

/// While the list is shown, the keys for up and down move the selection by exactly one entry, as
/// long as there is one in this direction, whatever the rest of the state is. They change nothing
/// else, and nothing at all at the ends of the list or while it is hidden.
pub proof fn law_keys_move_selection(up: TuiWidgetEvent, down: TuiWidgetEvent)
    requires
        up == TuiWidgetEvent::UpKey,
        down == TuiWidgetEvent::DownKey,
    ensures
        forall|st: &mut TuiWidgetInnerState, lg: &mut TuiLoggerInner| #[trigger]
            call_ensures(TuiWidgetInnerState::transition, (st, down, lg), ()) ==> {
                let moves = !st.hide_target && st.selected + 1 < st.nr_items;
                &&& moves ==> final(st).selected == st.selected + 1
                &&& !moves ==> final(st).selected == st.selected
                &&& final(st)@ == (StateView { selected: final(st).selected, ..st@ })
                &&& *final(lg) == *lg
            },
        forall|st: &mut TuiWidgetInnerState, lg: &mut TuiLoggerInner| #[trigger]
            call_ensures(TuiWidgetInnerState::transition, (st, up, lg), ()) ==> {
                let moves = !st.hide_target && st.selected > 0;
                &&& moves ==> final(st).selected == st.selected - 1
                &&& !moves ==> final(st).selected == st.selected
                &&& final(st)@ == (StateView { selected: final(st).selected, ..st@ })
                &&& *final(lg) == *lg
            },
{
}

/// Each switch is flipped by its own key, always, and by no other.
pub proof fn law_keys_flip_switches(event: TuiWidgetEvent)
    ensures
        forall|st: &mut TuiWidgetInnerState, lg: &mut TuiLoggerInner| #[trigger]
            call_ensures(TuiWidgetInnerState::transition, (st, event, lg), ()) ==> {
                &&& final(st).hide_off != st.hide_off <==> event == TuiWidgetEvent::SpaceKey
                &&& final(st).hide_target != st.hide_target <==> event == TuiWidgetEvent::HideKey
                &&& final(st).focus_selected != st.focus_selected <==> event
                    == TuiWidgetEvent::FocusKey
                &&& event == TuiWidgetEvent::SpaceKey || event == TuiWidgetEvent::HideKey || event
                    == TuiWidgetEvent::FocusKey ==> *final(lg) == *lg && final(st)@ == (StateView {
                    hide_off: final(st).hide_off,
                    hide_target: final(st).hide_target,
                    focus_selected: final(st).focus_selected,
                    ..st@
                })
            },
{
}

/// The keys for left and right set the display level of the selected target to the one at hand,
/// and of no other target. They use up the selected target and this level. Without a selected
/// target they do nothing. They never touch the logger.
pub proof fn law_keys_set_display_level(left: TuiWidgetEvent, right: TuiWidgetEvent)
    requires
        left == TuiWidgetEvent::LeftKey,
        right == TuiWidgetEvent::RightKey,
    ensures
        forall|st: &mut TuiWidgetInnerState, lg: &mut TuiLoggerInner| #[trigger]
            call_ensures(TuiWidgetInnerState::transition, (st, left, lg), ()) ==> {
                &&& *final(lg) == *lg
                &&& st.opt_selected_target is None ==> final(st)@ == st@
                &&& st.opt_selected_target matches Some(target) ==> {
                    &&& final(st).opt_selected_target is None
                    &&& final(st).opt_selected_visibility_less is None
                    &&& st.opt_selected_visibility_less matches Some(level) ==> final(st).config@
                        == st.config@.insert(target@, level)
                    &&& st.opt_selected_visibility_less is None ==> final(st).config@ == st.config@
                }
                &&& final(st)@ == (StateView {
                    levels: final(st).config@,
                    selected_target: final(st)@.selected_target,
                    visibility_less: final(st)@.visibility_less,
                    ..st@
                })
            },
        forall|st: &mut TuiWidgetInnerState, lg: &mut TuiLoggerInner| #[trigger]
            call_ensures(TuiWidgetInnerState::transition, (st, right, lg), ()) ==> {
                &&& *final(lg) == *lg
                &&& st.opt_selected_target is None ==> final(st)@ == st@
                &&& st.opt_selected_target matches Some(target) ==> {
                    &&& final(st).opt_selected_target is None
                    &&& final(st).opt_selected_visibility_more is None
                    &&& st.opt_selected_visibility_more matches Some(level) ==> final(st).config@
                        == st.config@.insert(target@, level)
                    &&& st.opt_selected_visibility_more is None ==> final(st).config@ == st.config@
                }
                &&& final(st)@ == (StateView {
                    levels: final(st).config@,
                    selected_target: final(st)@.selected_target,
                    visibility_more: final(st)@.visibility_more,
                    ..st@
                })
            },
{
}

/// The keys plus and minus have the logger record the selected target with the level at hand, and
/// change nothing else in it. They use up the selected target and this level, and leave what is
/// displayed as it is. Without a selected target they do nothing.
pub proof fn law_keys_set_recording_level(plus: TuiWidgetEvent, minus: TuiWidgetEvent)
    requires
        plus == TuiWidgetEvent::PlusKey,
        minus == TuiWidgetEvent::MinusKey,
    ensures
        forall|st: &mut TuiWidgetInnerState, lg: &mut TuiLoggerInner| #[trigger]
            call_ensures(TuiWidgetInnerState::transition, (st, plus, lg), ()) ==> {
                let asked = st.opt_selected_target is Some && st.opt_selected_recording_more is Some;
                &&& st.opt_selected_target is None ==> final(st)@ == st@
                &&& st.opt_selected_target is Some ==> final(st).opt_selected_target is None
                    && final(st).opt_selected_recording_more is None
                &&& !asked ==> *final(lg) == *lg
                &&& asked ==> final(lg).targets@ == lg.targets@.insert(
                    st.opt_selected_target.unwrap()@,
                    st.opt_selected_recording_more.unwrap(),
                )
                &&& final(lg).events == lg.events && final(lg).default == lg.default
                &&& final(st)@ == (StateView {
                    selected_target: final(st)@.selected_target,
                    recording_more: final(st)@.recording_more,
                    ..st@
                })
            },
        forall|st: &mut TuiWidgetInnerState, lg: &mut TuiLoggerInner| #[trigger]
            call_ensures(TuiWidgetInnerState::transition, (st, minus, lg), ()) ==> {
                let asked = st.opt_selected_target is Some && st.opt_selected_recording_less is Some;
                &&& st.opt_selected_target is None ==> final(st)@ == st@
                &&& st.opt_selected_target is Some ==> final(st).opt_selected_target is None
                    && final(st).opt_selected_recording_less is None
                &&& !asked ==> *final(lg) == *lg
                &&& asked ==> final(lg).targets@ == lg.targets@.insert(
                    st.opt_selected_target.unwrap()@,
                    st.opt_selected_recording_less.unwrap(),
                )
                &&& final(lg).events == lg.events && final(lg).default == lg.default
                &&& final(st)@ == (StateView {
                    selected_target: final(st)@.selected_target,
                    recording_less: final(st)@.recording_less,
                    ..st@
                })
            },
{
}

/// The paging keys choose where the page ends that is shown next: where the page before or after
/// the present one ends, or at the newest event. They change nothing else.
pub proof fn law_keys_turn_pages(prev: TuiWidgetEvent, next: TuiWidgetEvent, escape: TuiWidgetEvent)
    requires
        prev == TuiWidgetEvent::PrevPageKey,
        next == TuiWidgetEvent::NextPageKey,
        escape == TuiWidgetEvent::EscapeKey,
    ensures
        forall|st: &mut TuiWidgetInnerState, lg: &mut TuiLoggerInner| #[trigger]
            call_ensures(TuiWidgetInnerState::transition, (st, prev, lg), ()) ==> {
                &&& final(st).opt_timestamp_bottom == st.opt_timestamp_prev_page
                &&& final(st)@ == (StateView { timestamp_bottom: st.opt_timestamp_prev_page, ..st@ })
                &&& *final(lg) == *lg
            },
        forall|st: &mut TuiWidgetInnerState, lg: &mut TuiLoggerInner| #[trigger]
            call_ensures(TuiWidgetInnerState::transition, (st, next, lg), ()) ==> {
                &&& final(st).opt_timestamp_bottom == st.opt_timestamp_next_page
                &&& final(st)@ == (StateView { timestamp_bottom: st.opt_timestamp_next_page, ..st@ })
                &&& *final(lg) == *lg
            },
        forall|st: &mut TuiWidgetInnerState, lg: &mut TuiLoggerInner| #[trigger]
            call_ensures(TuiWidgetInnerState::transition, (st, escape, lg), ()) ==> {
                &&& final(st).opt_timestamp_bottom is None
                &&& final(st)@ == (StateView { timestamp_bottom: None, ..st@ })
                &&& *final(lg) == *lg
            },
{
}

/// A `TuiWidgetState` follows events as the state in it does, and its settings go to that state.
pub proof fn law_outer_state_follows(event: TuiWidgetEvent, target: &str, level: LevelFilter)
    ensures
        forall|
            outer: &mut TuiWidgetState,
            inner: &mut TuiWidgetInnerState,
            a: &mut TuiLoggerInner,
            b: &mut TuiLoggerInner,
        |
            (#[trigger] call_ensures(TuiWidgetState::transition, (outer, event, a), ())
                && #[trigger] call_ensures(TuiWidgetInnerState::transition, (inner, event, b), ())
                && outer.inner@ == inner@ && *a == *b) ==> final(outer).inner@ == final(inner)@
                && final(a).targets@ == final(b).targets@,
        forall|before: TuiWidgetState, after: TuiWidgetState| #[trigger]
            call_ensures(TuiWidgetState::set_default_display_level, (before, level), after)
                ==> after.inner.config.display_level() == Some(level) && after.inner@ == (StateView {
                display_level: Some(level),
                ..before.inner@
            }),
        forall|before: TuiWidgetState, after: TuiWidgetState| #[trigger]
            call_ensures(TuiWidgetState::set_level_for_target, (before, target, level), after)
                ==> after.inner.config@ == before.inner.config@.insert(target@, level)
                && after.inner@ == (StateView {
                levels: after.inner.config@,
                ..before.inner@
            }),
        forall|st: TuiWidgetState| #[trigger]
            call_ensures(TuiWidgetState::new, (), st) ==> {
                &&& st.inner.config@ == Map::<Seq<char>, LevelFilter>::empty()
                &&& st.inner.config.display_level() is None
                &&& st.inner.nr_items == 0 && st.inner.selected == 0 && st.inner.offset == 0
                &&& st.inner.opt_timestamp_bottom is None
                &&& st.inner.opt_timestamp_next_page is None
                &&& st.inner.opt_timestamp_prev_page is None
                &&& st.inner.opt_selected_target is None
                &&& st.inner.opt_selected_visibility_more is None
                &&& st.inner.opt_selected_visibility_less is None
                &&& st.inner.opt_selected_recording_more is None
                &&& st.inner.opt_selected_recording_less is None
                &&& !st.inner.hide_off && !st.inner.hide_target && !st.inner.focus_selected
            },
{
}

/// When the list is made anew, it has all targets of the widget and of the logger, displayed with
/// no more than is recorded. The selection stays where it is, or at the last entry if the list has
/// become too short for it. The selected target is the entry there, and the levels at hand are
/// the neighbours of those that it is displayed and recorded with.
pub proof fn law_list_is_made_anew(hot: &LevelConfig, target: Seq<char>, k: int)
    ensures
        forall|st: &mut TuiWidgetInnerState, r: Vec<String>| #[trigger]
            call_ensures(TuiWidgetInnerState::update_targets, (st, hot), r) ==> {
                let after = *final(st);
                let n = r@.len();
                &&& after.config@.contains_key(target) <==> st.config@.contains_key(target)
                    || hot@.contains_key(target)
                &&& hot@.contains_key(target) ==> after.config@[target].rank()
                    <= hot@[target].rank()
                &&& st.config@.contains_key(target) ==> after.config@[target].rank()
                    <= st.config@[target].rank()
                &&& after.config@.contains_key(target) ==> (hot@.contains_key(target)
                    && after.config@[target] == hot@[target]) || (st.config@.contains_key(target)
                    && after.config@[target] == st.config@[target])
                &&& texts(r@).contains(target) <==> after.config@.contains_key(target) && !(
                st.hide_off && after.config@[target] == LevelFilter::Off)
                &&& 0 <= k < n - 1 ==> precedes(r@[k]@, r@[k + 1]@)
                &&& n <= usize::MAX ==> after.nr_items == n
                &&& 0 < n <= usize::MAX ==> {
                    let chosen = r@[after.selected as int]@;
                    &&& st.selected < n ==> after.selected == st.selected
                    &&& st.selected >= n ==> after.selected == n - 1
                    &&& opt_text(after.opt_selected_target) == Some(chosen)
                    &&& after.opt_selected_visibility_more == more_verbose(after.config@[chosen])
                    &&& after.opt_selected_visibility_less == less_verbose(after.config@[chosen])
                    &&& hot@.contains_key(chosen) ==> after.opt_selected_recording_more
                        == more_verbose(hot@[chosen]) && after.opt_selected_recording_less
                        == less_verbose(hot@[chosen])
                    &&& !hot@.contains_key(chosen) ==> after.opt_selected_recording_more is None
                        && after.opt_selected_recording_less is None
                }
                &&& n == 0 ==> after.selected == 0 && after@ == (StateView {
                    levels: after.config@,
                    nr_items: 0,
                    selected: 0,
                    ..st@
                })
                &&& after.hide_off == st.hide_off && after.hide_target == st.hide_target
                &&& after.focus_selected == st.focus_selected && after.offset == st.offset
                &&& after.opt_timestamp_bottom == st.opt_timestamp_bottom
                &&& after@.display_level == st@.display_level
            },
{
    assert forall|st: &mut TuiWidgetInnerState, r: Vec<String>| #[trigger]
        call_ensures(TuiWidgetInnerState::update_targets, (st, hot), r) implies ({
        let after = *final(st);
        let n = r@.len();
        &&& 0 <= k < n - 1 ==> precedes(r@[k]@, r@[k + 1]@)
        &&& 0 < n <= usize::MAX ==> after.config@.contains_key(r@[after.selected as int]@)
        &&& 0 < n <= usize::MAX ==> opt_text(after.opt_selected_target) == Some(
            r@[after.selected as int]@,
        )
    }) by {
        let after = *final(st);
        let names = texts(r@);
        assert(names.len() == r@.len());
        if 0 <= k < r@.len() - 1 {
            assert(precedes(names[k], names[k + 1]));
        }
        if 0 < r@.len() <= usize::MAX {
            assert(names[after.selected as int] == r@[after.selected as int]@);
            assert(names.contains(names[after.selected as int]));
        }
    }
    assert forall|st: &mut TuiWidgetInnerState, r: Vec<String>| #[trigger]
        call_ensures(TuiWidgetInnerState::update_targets, (st, hot), r) implies texts(r@).len()
        == r@.len() by {}
    if hot@.contains_key(target) {
        law_rank_is_verbosity(hot@[target], hot@[target]);
    }
}

/// How far two numbers are apart.
pub open spec fn distance(a: int, b: int) -> int {
    if a >= b {
        a - b
    } else {
        b - a
    }
}

/// Scrolling moves the list no further than it has to: of all places at which the list shows the
/// selected target and leaves no row empty, it takes the nearest. It shows as many targets as
/// there are, up to the height.
pub proof fn law_scrolls_to_nearest_place(height: u16, place: int)
    requires
        height > 0,
    ensures
        forall|st: &mut TuiWidgetInnerState, shown: usize|
            (#[trigger] call_ensures(TuiWidgetInnerState::scroll, (st, height), shown)) ==> {
                let old_offset = st.offset as int;
                let new_offset = final(st).offset as int;
                let reaches = place <= st.selected < place + shown && 0 <= place && place + shown
                    <= st.nr_items;
                &&& shown <= height && shown <= st.nr_items && (shown == height || shown
                    == st.nr_items)
                &&& st.selected < st.nr_items ==> new_offset <= st.selected < new_offset + shown
                    && new_offset + shown <= st.nr_items
                &&& st.selected < st.nr_items && reaches ==> distance(new_offset, old_offset)
                    <= distance(place, old_offset)
                &&& st.selected >= st.nr_items ==> new_offset == 0
                &&& final(st)@ == (StateView { offset: final(st).offset, ..st@ })
            },
{
}

/// A state is new in the same way wherever it comes from, and says what its fields say.
pub proof fn law_states_start_alike(st: TuiWidgetInnerState)
    ensures
        forall|a: TuiWidgetState, b: TuiWidgetState| #![all_triggers]
            call_ensures(TuiWidgetState::new, (), a) && call_ensures(
                TuiWidgetState::default,
                (),
                b,
            ) ==> a.inner@ == b.inner@,
        forall|a: TuiWidgetState, b: TuiWidgetInnerState| #![all_triggers]
            call_ensures(TuiWidgetState::new, (), a) && call_ensures(
                TuiWidgetInnerState::new,
                (),
                b,
            ) ==> a.inner@ == b@,
        forall|a: TuiWidgetState, b: TuiWidgetInnerState| #![all_triggers]
            call_ensures(TuiWidgetState::new, (), a) && call_ensures(
                TuiWidgetInnerState::default,
                (),
                b,
            ) ==> a.inner@ == b@,
        st@.levels == st.config@ && st@.display_level == st.config.display_level(),
        st@.nr_items == st.nr_items && st@.selected == st.selected && st@.offset == st.offset,
        st@.timestamp_bottom == st.opt_timestamp_bottom,
        st@.timestamp_next_page == st.opt_timestamp_next_page,
        st@.timestamp_prev_page == st.opt_timestamp_prev_page,
        st@.selected_target == opt_text(st.opt_selected_target),
        st@.visibility_more == st.opt_selected_visibility_more,
        st@.visibility_less == st.opt_selected_visibility_less,
        st@.recording_more == st.opt_selected_recording_more,
        st@.recording_less == st.opt_selected_recording_less,
        st@.hide_off == st.hide_off && st@.hide_target == st.hide_target,
        st@.focus_selected == st.focus_selected,
{
}

} // verus!
