//! Level filters per target.

use crate::level::law_rank_is_verbosity;
use crate::level::LevelFilter;
use crate::text::law_order_total;
use crate::text::law_order_transitive;
use crate::text::precedes;
use crate::text::text_precedes;
use crate::text::texts;
use vstd::prelude::*;
use vstd::seq_lib::seq_to_set_is_finite;
use vstd::utf8::encode_utf8;

verus! {

/// A level filter for each known target, and one to display unknown targets with.
///
/// Its view maps the known targets to their filters.
pub struct LevelConfig {
    entries: Vec<(String, LevelFilter)>,
    default_display_level: Option<LevelFilter>,
}

/// All targets of both maps. A target of `own` keeps its filter unless that is more verbose
/// than the filter in `origin`; every other target has the filter it has in `origin`.
pub open spec fn merged(
    own: Map<Seq<char>, LevelFilter>,
    origin: Map<Seq<char>, LevelFilter>,
) -> Map<Seq<char>, LevelFilter> {
    Map::new(
        |target: Seq<char>| own.contains_key(target) || origin.contains_key(target),
        |target: Seq<char>|
            if !origin.contains_key(target) || (own.contains_key(target) && own[target].rank()
                <= origin[target].rank()) {
                own[target]
            } else {
                origin[target]
            },
    )
}

/// Whether a target is listed: it is known, and not both switched off and hidden for it.
pub open spec fn is_listed(
    levels: Map<Seq<char>, LevelFilter>,
    hide_off: bool,
    target: Seq<char>,
) -> bool {
    levels.contains_key(target) && !(hide_off && levels[target] == LevelFilter::Off)
}

/// Each string comes before the next ones.
pub open spec fn is_sorted(names: Seq<Seq<char>>) -> bool {
    forall|i: int, j: int| 0 <= i < j < names.len() ==> precedes(#[trigger] names[i], #[trigger] names[j])
}

/// `names` are the listed targets, each once, in the order of strings.
pub open spec fn lists_targets(
    names: Seq<Seq<char>>,
    levels: Map<Seq<char>, LevelFilter>,
    hide_off: bool,
) -> bool {
    &&& is_sorted(names)
    &&& forall|target: Seq<char>| #[trigger]
        names.contains(target) <==> is_listed(levels, hide_off, target)
}

/// The listed targets in the order of strings.
pub open spec fn target_list(levels: Map<Seq<char>, LevelFilter>, hide_off: bool) -> Seq<Seq<char>> {
    choose|names: Seq<Seq<char>>| lists_targets(names, levels, hide_off)
}

proof fn lemma_sorted_last(names: Seq<Seq<char>>, target: Seq<char>)
    requires
        is_sorted(names),
        names.contains(target),
    ensures
        target == names.last() || precedes(target, names.last()),
{
    let i = choose|i: int| 0 <= i < names.len() && names[i] == target;
    if i < names.len() - 1 {
        assert(precedes(names[i], names[names.len() - 1]));
    }
}

/// Two sorted sequences with the same elements are the same.
proof fn lemma_sorted_unique(a: Seq<Seq<char>>, b: Seq<Seq<char>>)
    requires
        is_sorted(a),
        is_sorted(b),
        forall|target: Seq<char>| #[trigger] a.contains(target) <==> b.contains(target),
    ensures
        a == b,
    decreases a.len(),
{
    if a.len() == 0 {
        if b.len() > 0 {
            assert(b.contains(b[0]));
            assert(a.contains(b[0]));
        }
        assert(a =~= b);
    } else {
        assert(a.contains(a.last()));
        assert(b.len() > 0);
        assert(b.contains(b.last()));
        assert(a.contains(b.last()));
        lemma_sorted_last(a, b.last());
        lemma_sorted_last(b, a.last());
        law_order_total(a.last(), b.last());
        assert forall|target: Seq<char>| #[trigger]
            a.drop_last().contains(target) <==> b.drop_last().contains(target) by {
            lemma_without_last(a, target);
            lemma_without_last(b, target);
        }
        lemma_sorted_unique(a.drop_last(), b.drop_last());
        assert(a =~= a.drop_last().push(a.last()));
        assert(b =~= b.drop_last().push(b.last()));
    }
}

proof fn lemma_without_last(names: Seq<Seq<char>>, target: Seq<char>)
    requires
        is_sorted(names),
        names.len() > 0,
    ensures
        names.drop_last().contains(target) <==> names.contains(target) && target != names.last(),
{
    if names.drop_last().contains(target) {
        let i = choose|i: int| 0 <= i < names.drop_last().len() && names.drop_last()[i] == target;
        assert(names[i] == target);
        assert(precedes(names[i], names[names.len() - 1]));
        law_order_total(target, names.last());
    }
    if names.contains(target) && target != names.last() {
        let i = choose|i: int| 0 <= i < names.len() && names[i] == target;
        assert(names.drop_last()[i] == target);
    }
}

/// There is only one way to list the targets.
pub proof fn law_target_list_unique(
    names: Seq<Seq<char>>,
    levels: Map<Seq<char>, LevelFilter>,
    hide_off: bool,
)
    requires
        lists_targets(names, levels, hide_off),
    ensures
        target_list(levels, hide_off) == names,
{
    let chosen = target_list(levels, hide_off);
    assert(lists_targets(chosen, levels, hide_off));
    lemma_sorted_unique(chosen, names);
}

proof fn lemma_insert_sorted(names: Seq<Seq<char>>, target: Seq<char>) -> (r: Seq<Seq<char>>)
    requires
        is_sorted(names),
        !names.contains(target),
    ensures
        is_sorted(r),
        forall|t: Seq<char>| #[trigger] r.contains(t) <==> names.contains(t) || t == target,
    decreases names.len(),
{
    if names.len() == 0 || precedes(names.last(), target) {
        let r = names.push(target);
        assert forall|t: Seq<char>| #[trigger] r.contains(t) <==> names.contains(t) || t
            == target by {
            lemma_pushed_contains(names, target, t);
        }
        assert forall|i: int, j: int| 0 <= i < j < r.len() implies precedes(
            #[trigger] r[i],
            #[trigger] r[j],
        ) by {
            if j == names.len() && i < names.len() - 1 {
                assert(precedes(names[i], names[names.len() - 1]));
                law_order_transitive(names[i], names.last(), target);
            }
        }
        r
    } else {
        let last = names.last();
        assert(names.contains(last));
        law_order_total(last, target);
        let front = names.drop_last();
        lemma_without_last(names, target);
        let rest = lemma_insert_sorted(front, target);
        let r = rest.push(last);
        assert forall|t: Seq<char>| #[trigger] r.contains(t) <==> names.contains(t) || t
            == target by {
            lemma_pushed_contains(rest, last, t);
            lemma_without_last(names, t);
        }
        assert forall|i: int, j: int| 0 <= i < j < r.len() implies precedes(
            #[trigger] r[i],
            #[trigger] r[j],
        ) by {
            if j == rest.len() {
                assert(rest.contains(rest[i]));
                if rest[i] != target {
                    let k = front.index_of(rest[i]);
                    assert(names[k] == rest[i]);
                    assert(precedes(names[k], names[names.len() - 1]));
                }
            }
        }
        r
    }
}

proof fn lemma_pushed_contains(names: Seq<Seq<char>>, target: Seq<char>, t: Seq<char>)
    ensures
        names.push(target).contains(t) <==> names.contains(t) || t == target,
{
    let r = names.push(target);
    if names.contains(t) {
        assert(r[names.index_of(t)] == t);
    }
    if t == target {
        assert(r[names.len() as int] == t);
    }
    if r.contains(t) && t != target {
        assert(names[r.index_of(t)] == t);
    }
}

proof fn lemma_sorted_exists(targets: Set<Seq<char>>) -> (names: Seq<Seq<char>>)
    requires
        targets.finite(),
    ensures
        is_sorted(names),
        forall|t: Seq<char>| #[trigger] names.contains(t) <==> targets.contains(t),
    decreases targets.len(),
{
    if targets.is_empty() {
        Seq::empty()
    } else {
        let target = targets.choose();
        let names = lemma_sorted_exists(targets.remove(target));
        lemma_insert_sorted(names, target)
    }
}

/// Finitely many targets can be listed.
pub proof fn law_target_list_exists(levels: Map<Seq<char>, LevelFilter>, hide_off: bool)
    requires
        levels.dom().finite(),
    ensures
        lists_targets(target_list(levels, hide_off), levels, hide_off),
{
    let listed = |t: Seq<char>| is_listed(levels, hide_off, t);
    levels.dom().lemma_len_filter(listed);
    let names = lemma_sorted_exists(levels.dom().filter(listed));
    assert(lists_targets(names, levels, hide_off));
}

/// Two configurations with finitely many targets have finitely many together.
pub proof fn lemma_merged_finite(
    own: Map<Seq<char>, LevelFilter>,
    origin: Map<Seq<char>, LevelFilter>,
)
    requires
        own.dom().finite(),
        origin.dom().finite(),
    ensures
        merged(own, origin).dom().finite(),
{
    assert(merged(own, origin).dom() =~= own.dom().union(origin.dom()));
}

/// The names of the entries.
spec fn names_of(entries: Seq<(String, LevelFilter)>) -> Seq<Seq<char>> {
    entries.map_values(|e: (String, LevelFilter)| e.0@)
}

impl View for LevelConfig {
    type V = Map<Seq<char>, LevelFilter>;

    closed spec fn view(&self) -> Map<Seq<char>, LevelFilter> {
        let names = names_of(self.entries@);
        Map::new(
            |target: Seq<char>| names.contains(target),
            |target: Seq<char>| self.entries@[names.index_of(target)].1,
        )
    }
}

impl LevelConfig {
    /// The targets are kept in the order of strings, each once.
    pub closed spec fn wf(&self) -> bool {
        is_sorted(names_of(self.entries@))
    }

    /// The filter to display unknown targets with, if there is one.
    pub closed spec fn display_level(&self) -> Option<LevelFilter> {
        self.default_display_level
    }

    proof fn lemma_entry(&self, i: int)
        requires
            self.wf(),
            0 <= i < self.entries@.len(),
        ensures
            self@.contains_key(self.entries@[i].0@),
            self@[self.entries@[i].0@] == self.entries@[i].1,
    {
        let names = names_of(self.entries@);
        let target = self.entries@[i].0@;
        assert(names[i] == target);
        let j = names.index_of(target);
        assert(names[j] == target);
        law_order_total(target, target);
        if i < j {
            assert(precedes(names[i], names[j]));
        } else if j < i {
            assert(precedes(names[j], names[i]));
        }
    }

    /// A configuration knows finitely many targets.
    pub proof fn law_finitely_many(&self)
        ensures
            self@.dom().finite(),
    {
        let names = names_of(self.entries@);
        seq_to_set_is_finite(names);
        assert(self@.dom() =~= names.to_set());
    }

    /// A configuration without targets.
    pub fn new() -> (r: LevelConfig)
        ensures
            r.wf(),
            r@ == Map::<Seq<char>, LevelFilter>::empty(),
            r.display_level() is None,
    {
        let r = LevelConfig { entries: Vec::new(), default_display_level: None };
        assert(r@ =~= Map::<Seq<char>, LevelFilter>::empty());
        r
    }

    /// Where the target stands among the entries, or the place before which it belongs.
    fn find(&self, target: &str) -> (r: (bool, usize))
        requires
            self.wf(),
        ensures
            r.0 == self@.contains_key(target@),
            r.0 ==> r.1 < self.entries@.len() && self.entries@[r.1 as int].0@ == target@,
            !r.0 ==> r.1 <= self.entries@.len(),
            !r.0 ==> forall|i: int|
                0 <= i < r.1 ==> precedes(#[trigger] names_of(self.entries@)[i], target@),
            !r.0 ==> forall|i: int|
                r.1 <= i < self.entries@.len() ==> precedes(
                    target@,
                    #[trigger] names_of(self.entries@)[i],
                ),
    {
        let ghost names = names_of(self.entries@);
        let mut i: usize = 0;
        while i < self.entries.len() && text_precedes(self.entries[i].0.as_str(), target)
            invariant
                self.wf(),
                names == names_of(self.entries@),
                i <= self.entries@.len(),
                forall|k: int| 0 <= k < i ==> precedes(#[trigger] names[k], target@),
            decreases self.entries@.len() - i,
        {
            assert(names[i as int] == self.entries@[i as int].0@);
            i = i + 1;
        }
        if i < self.entries.len() && !text_precedes(target, self.entries[i].0.as_str()) {
            proof {
                law_order_total(self.entries@[i as int].0@, target@);
                self.lemma_entry(i as int);
            }
            (true, i)
        } else {
            proof {
                assert forall|k: int| i <= k < names.len() implies precedes(
                    target@,
                    #[trigger] names[k],
                ) by {
                    assert(precedes(target@, names[i as int]));
                    if k > i {
                        assert(precedes(names[i as int], names[k]));
                        law_order_transitive(target@, names[i as int], names[k]);
                    }
                }
                assert forall|k: int| 0 <= k < names.len() implies #[trigger] names[k] != target@ by {
                    law_order_total(names[k], target@);
                }
            }
            (false, i)
        }
    }

    /// The filter of a target, if it is known.
    pub fn get(&self, target: &str) -> (r: Option<LevelFilter>)
        requires
            self.wf(),
        ensures
            r == self@.get(target@),
    {
        let (found, i): (bool, usize) = self.find(target);
        if found {
            proof {
                self.lemma_entry(i as int);
            }
            Some(self.entries[i].1)
        } else {
            None
        }
    }

    /// Set the filter of a target, whether it was known or not.
    pub fn set(&mut self, target: &str, level: LevelFilter)
        requires
            old(self).wf(),
        ensures
            final(self).wf(),
            final(self)@ == old(self)@.insert(target@, level),
            final(self).display_level() == old(self).display_level(),
    {
        let ghost before = *self;
        let ghost names = names_of(self.entries@);
        let (found, i): (bool, usize) = self.find(target);
        if found {
            self.entries.set(i, (target.to_owned(), level));
            proof {
                assert(names_of(self.entries@) =~= names);
                assert forall|t: Seq<char>| names.contains(t) implies #[trigger] self@[t]
                    == before@.insert(target@, level)[t] by {
                    let k = names.index_of(t);
                    assert(names[k] == t);
                    self.lemma_entry(k);
                    before.lemma_entry(k);
                    law_order_total(t, target@);
                    assert(names[i as int] == target@);
                    if k < i {
                        assert(precedes(names[k], names[i as int]));
                    } else if i < k {
                        assert(precedes(names[i as int], names[k]));
                    }
                }
                assert(self@ =~= before@.insert(target@, level));
            }
        } else {
            self.entries.insert(i, (target.to_owned(), level));
            proof {
                let after = names_of(self.entries@);
                assert(after =~= names.insert(i as int, target@));
                assert forall|a: int, b: int| 0 <= a < b < after.len() implies precedes(
                    #[trigger] after[a],
                    #[trigger] after[b],
                ) by {
                    let p = if a < i {
                        a
                    } else {
                        a - 1
                    };
                    let q = if b < i {
                        b
                    } else {
                        b - 1
                    };
                    if a != i {
                        assert(after[a] == names[p]);
                    }
                    if b != i {
                        assert(after[b] == names[q]);
                    }
                }
                assert(self.wf());
                assert forall|t: Seq<char>| self@.contains_key(t) <==> before@.insert(
                    target@,
                    level,
                ).contains_key(t) by {
                    if before@.contains_key(t) {
                        let k = names.index_of(t);
                        assert(names[k] == t);
                        assert(after[if k < i {
                            k
                        } else {
                            k + 1
                        }] == t);
                    }
                    if t == target@ {
                        assert(after[i as int] == t);
                    }
                    if self@.contains_key(t) {
                        let k = after.index_of(t);
                        assert(after[k] == t);
                        if k != i {
                            assert(names[if k < i {
                                k
                            } else {
                                k - 1
                            }] == t);
                        }
                    }
                }
                assert forall|t: Seq<char>| self@.contains_key(t) implies #[trigger] self@[t]
                    == before@.insert(target@, level)[t] by {
                    let k = after.index_of(t);
                    assert(after[k] == t);
                    self.lemma_entry(k);
                    if k < i {
                        assert(names[k] == t);
                        before.lemma_entry(k);
                        law_order_total(t, target@);
                    } else if k > i {
                        assert(names[k - 1] == t);
                        before.lemma_entry(k - 1);
                        law_order_total(t, target@);
                    }
                }
                assert(self@ =~= before@.insert(target@, level));
            }
        }
    }

    /// The filter to display unknown targets with, if there is one.
    pub fn default_display_level(&self) -> (r: Option<LevelFilter>)
        ensures
            r == self.display_level(),
    {
        self.default_display_level
    }

    /// Set the filter to display unknown targets with.
    pub fn set_default_display_level(&mut self, level: LevelFilter)
        requires
            old(self).wf(),
        ensures
            final(self).wf(),
            final(self)@ == old(self)@,
            final(self).display_level() == Some(level),
    {
        self.default_display_level = Some(level);
    }

    /// Take over the targets of `origin`: an unknown target gets the filter it has there, and a
    /// known one is made no more verbose than it is there.
    pub fn merge(&mut self, origin: &LevelConfig)
        requires
            old(self).wf(),
            origin.wf(),
        ensures
            final(self).wf(),
            final(self)@ == merged(old(self)@, origin@),
            final(self).display_level() == old(self).display_level(),
    {
        let ghost own = self@;
        let ghost names = names_of(origin.entries@);
        let mut i: usize = 0;
        while i < origin.entries.len()
            invariant
                self.wf(),
                origin.wf(),
                names == names_of(origin.entries@),
                i <= names.len(),
                names.len() == origin.entries@.len(),
                self.default_display_level == old(self).default_display_level,
                forall|t: Seq<char>| #[trigger]
                    self@.contains_key(t) <==> own.contains_key(t) || names.take(i as int).contains(
                        t,
                    ),
                forall|t: Seq<char>|
                    self@.contains_key(t) ==> #[trigger] self@[t] == if names.take(
                        i as int,
                    ).contains(t) {
                        merged(own, origin@)[t]
                    } else {
                        own[t]
                    },
            decreases names.len() - i,
        {
            let ghost target = names[i as int];
            let ghost before = self@;
            proof {
                origin.lemma_entry(i as int);
                assert(names.take(i + 1) =~= names.take(i as int).push(target));
                assert(names.take(i + 1).contains(target)) by {
                    assert(names.take(i + 1)[i as int] == target);
                }
                assert(!names.take(i as int).contains(target)) by {
                    if names.take(i as int).contains(target) {
                        let k = names.take(i as int).index_of(target);
                        assert(names.take(i as int)[k] == names[k]);
                        assert(precedes(names[k], names[i as int]));
                        law_order_total(target, target);
                    }
                }
                assert forall|t: Seq<char>| t != target implies (names.take(i + 1).contains(t)
                    <==> names.take(i as int).contains(t)) by {
                    if names.take(i + 1).contains(t) {
                        let k = names.take(i + 1).index_of(t);
                        assert(names.take(i as int)[k] == t);
                    }
                    if names.take(i as int).contains(t) {
                        let k = names.take(i as int).index_of(t);
                        assert(names.take(i + 1)[k] == t);
                    }
                }
            }
            let level: LevelFilter = origin.entries[i].1;
            let keep: bool = match self.get(origin.entries[i].0.as_str()) {
                Some(known) => known.at_most(level),
                None => false,
            };
            if !keep {
                self.set(origin.entries[i].0.as_str(), level);
            }
            i = i + 1;
        }
        proof {
            assert(names.take(names.len() as int) =~= names);
            assert(self@ =~= merged(own, origin@));
        }
    }

    /// The known targets in the order of strings, without those that are switched off if these
    /// are hidden.
    pub fn targets(&self, hide_off: bool) -> (r: Vec<String>)
        requires
            self.wf(),
        ensures
            lists_targets(texts(r@), self@, hide_off),
            texts(r@) == target_list(self@, hide_off),
    {
        let ghost names = names_of(self.entries@);
        let mut out: Vec<String> = Vec::new();
        let mut i: usize = 0;
        while i < self.entries.len()
            invariant
                self.wf(),
                names == names_of(self.entries@),
                names.len() == self.entries@.len(),
                i <= names.len(),
                is_sorted(texts(out@)),
                forall|t: Seq<char>| #[trigger]
                    texts(out@).contains(t) <==> names.take(i as int).contains(t) && is_listed(
                        self@,
                        hide_off,
                        t,
                    ),
            decreases names.len() - i,
        {
            let ghost before = texts(out@);
            let ghost target = names[i as int];
            let hidden: bool = hide_off && self.entries[i].1 == LevelFilter::Off;
            proof {
                self.lemma_entry(i as int);
                assert(names.take(i + 1)[i as int] == target);
                assert forall|t: Seq<char>| #[trigger]
                    names.take(i + 1).contains(t) <==> names.take(i as int).contains(t) || t
                        == target by {
                    if names.take(i + 1).contains(t) {
                        let k = names.take(i + 1).index_of(t);
                        if k < i {
                            assert(names.take(i as int)[k] == t);
                        }
                    }
                    if names.take(i as int).contains(t) {
                        let k = names.take(i as int).index_of(t);
                        assert(names.take(i + 1)[k] == t);
                    }
                }
            }
            if !hidden {
                out.push(self.entries[i].0.clone());
                proof {
                    let after = texts(out@);
                    assert(after =~= before.push(target));
                    assert forall|t: Seq<char>| #[trigger]
                        after.contains(t) <==> before.contains(t) || t == target by {
                        if before.contains(t) {
                            let k = before.index_of(t);
                            assert(after[k] == t);
                        }
                        assert(after[before.len() as int] == target);
                        if after.contains(t) {
                            let k = after.index_of(t);
                            if k < before.len() {
                                assert(before[k] == t);
                            }
                        }
                    }
                    assert forall|a: int, b: int| 0 <= a < b < after.len() implies precedes(
                        #[trigger] after[a],
                        #[trigger] after[b],
                    ) by {
                        if b == before.len() {
                            assert(before.contains(before[a]));
                            let k = names.take(i as int).index_of(before[a]);
                            assert(names[k] == before[a]);
                            assert(precedes(names[k], names[i as int]));
                        } else {
                            assert(after[a] == before[a] && after[b] == before[b]);
                        }
                    }
                }
            }
            i = i + 1;
        }
        proof {
            assert(names.take(names.len() as int) =~= names);
            law_target_list_unique(texts(out@), self@, hide_off);
        }
        out
    }
}

/// The length of a text in bytes, when it is encoded in UTF-8.
pub open spec fn byte_len(text: Seq<char>) -> usize {
    encode_utf8(text).len() as usize
}

/// The greatest length in bytes among the names, or zero if there are none.
pub open spec fn widest(names: Seq<Seq<char>>) -> usize
    decreases names.len(),
{
    if names.len() == 0 {
        0
    } else {
        let before = widest(names.drop_last());
        let last = byte_len(names.last());
        if before >= last {
            before
        } else {
            last
        }
    }
}

/// The greatest length in bytes among the names, or zero if there are none.
pub fn widest_name(names: &Vec<String>) -> (r: usize)
    ensures
        r == widest(texts(names@)),
{
    let mut width: usize = 0;
    let mut i: usize = 0;
    while i < names.len()
        invariant
            i <= names@.len(),
            width == widest(texts(names@).take(i as int)),
        decreases names@.len() - i,
    {
        let len: usize = names[i].as_str().len();
        if len > width {
            width = len;
        }
        assert(texts(names@).take(i + 1).drop_last() =~= texts(names@).take(i as int));
        i = i + 1;
    }
    assert(texts(names@).take(names@.len() as int) =~= texts(names@));
    width
}

/// The less verbose of two filters.
pub open spec fn less_verbose_of(a: LevelFilter, b: LevelFilter) -> LevelFilter {
    if a.rank() <= b.rank() {
        a
    } else {
        b
    }
}

/// A merge knows the targets of both sides. A target that only one side knows has its filter; of
/// a target that both know, the less verbose filter counts.
pub proof fn law_merge_takes_the_less_verbose(
    own: Map<Seq<char>, LevelFilter>,
    origin: Map<Seq<char>, LevelFilter>,
    target: Seq<char>,
)
    ensures
        merged(own, origin).contains_key(target) <==> own.contains_key(target)
            || origin.contains_key(target),
        own.contains_key(target) && !origin.contains_key(target) ==> merged(own, origin)[target]
            == own[target],
        !own.contains_key(target) && origin.contains_key(target) ==> merged(own, origin)[target]
            == origin[target],
        own.contains_key(target) && origin.contains_key(target) ==> merged(own, origin)[target]
            == less_verbose_of(own[target], origin[target]),
        forall|c: &mut LevelConfig, o: &LevelConfig|
            (c@ == own && o@ == origin && #[trigger] call_ensures(LevelConfig::merge, (c, o), ()))
                ==> final(c)@ == merged(own, origin) && final(c).display_level()
                == c.display_level(),
{
    if own.contains_key(target) && origin.contains_key(target) {
        law_rank_is_verbosity(own[target], origin[target]);
    }
}

/// All known targets are listed, each once and in the order of strings. Those that are switched
/// off are left out only if these are hidden.
pub proof fn law_every_target_is_listed(
    levels: Map<Seq<char>, LevelFilter>,
    hide_off: bool,
    target: Seq<char>,
    i: int,
    j: int,
)
    requires
        levels.dom().finite(),
    ensures
        target_list(levels, false).contains(target) <==> levels.contains_key(target),
        target_list(levels, true).contains(target) <==> levels.contains_key(target)
            && levels[target] != LevelFilter::Off,
        0 <= i < j < target_list(levels, hide_off).len() ==> precedes(
            target_list(levels, hide_off)[i],
            target_list(levels, hide_off)[j],
        ),
        forall|c: LevelConfig, r: Vec<String>|
            (c@ == levels && #[trigger] call_ensures(LevelConfig::targets, (&c, hide_off), r))
                ==> texts(r@) == target_list(levels, hide_off),
{
    law_target_list_exists(levels, false);
    law_target_list_exists(levels, true);
    law_target_list_exists(levels, hide_off);
}

/// A filter that was set is found again, and setting it leaves those of other targets, known or
/// not, and the display level as they were.
pub proof fn law_set_filter_is_found(target: &str, level: LevelFilter, other: &str)
    ensures
        forall|c: &mut LevelConfig, d: LevelConfig, r: Option<LevelFilter>|
            (#[trigger] call_ensures(LevelConfig::set, (c, target, level), ()) && d == *final(c)
                && #[trigger] call_ensures(LevelConfig::get, (&d, target), r)) ==> r == Some(level),
        forall|
            c: &mut LevelConfig,
            d: LevelConfig,
            before: Option<LevelFilter>,
            after: Option<LevelFilter>,
        |
            (#[trigger] call_ensures(LevelConfig::set, (c, target, level), ()) && d == *final(c)
                && other@ != target@ && #[trigger] call_ensures(
                LevelConfig::get,
                (&*c, other),
                before,
            ) && #[trigger] call_ensures(LevelConfig::get, (&d, other), after)) ==> after == before,
        forall|c: &mut LevelConfig|
            (#[trigger] call_ensures(LevelConfig::set, (c, target, level), ()))
                ==> final(c).display_level() == c.display_level(),
        forall|c: &mut LevelConfig, d: LevelConfig, r: Option<LevelFilter>|
            (#[trigger] call_ensures(LevelConfig::set_default_display_level, (c, level), ()) && d
                == *final(c) && #[trigger] call_ensures(LevelConfig::default_display_level, (&d,), r))
                ==> r == Some(level) && d@ == c@,
        forall|c: LevelConfig, r: Option<LevelFilter>| #[trigger]
            call_ensures(LevelConfig::get, (&c, other), r) ==> (r is Some <==> c@.contains_key(
                other@,
            )) && (r matches Some(found) ==> found == c@[other@]),
{
}

/// The greatest width is that of one of the names, and no name is wider.
pub proof fn law_widest_is_a_width(names: Seq<Seq<char>>, i: int)
    ensures
        0 <= i < names.len() ==> byte_len(names[i]) <= widest(names),
        names.len() == 0 ==> widest(names) == 0,
        names.len() > 0 ==> exists|k: int|
            0 <= k < names.len() && byte_len(#[trigger] names[k]) == widest(names),
        forall|v: Vec<String>, r: usize|
            (texts(v@) == names && #[trigger] call_ensures(widest_name, (&v,), r)) ==> r == widest(
                names,
            ),
        byte_len(names[i]) == encode_utf8(names[i]).len() as usize,
    decreases names.len(),
{
    if names.len() > 0 {
        let front = names.drop_last();
        law_widest_is_a_width(front, i);
        assert(0 <= i < front.len() ==> front[i] == names[i]);
        if byte_len(names.last()) >= widest(front) {
            assert(byte_len(names[names.len() - 1]) == widest(names));
        } else {
            let k = choose|k: int| 0 <= k < front.len() && byte_len(#[trigger] front[k]) == widest(front);
            assert(names[k] == front[k]);
            assert(byte_len(names[k]) == widest(names));
        }
    }
}

} // verus!
