//! The recording picker: which finished recordings are listed, which one is in focus, which are
//! selected.
use vstd::prelude::*;

use std::collections::HashSet;

use crate::host;
use crate::host::{channel_key, Key, RecordingInfo, RecordingModel};
use crate::text;

verus! {

/// Which recordings the picker lists.
#[derive(Debug)]
pub enum RecordingFilter {
    All,
    /// Those of the channel with this key.
    ByChannel(String),
    /// Those of this playlist.
    ByPlaylist(String),
}

#[verifier::ext_equal]
pub enum FilterModel {
    All,
    ByChannel(Seq<char>),
    ByPlaylist(Seq<char>),
}

impl DeepView for RecordingFilter {
    type V = FilterModel;

    open spec fn deep_view(&self) -> FilterModel {
        match self {
            RecordingFilter::All => FilterModel::All,
            RecordingFilter::ByChannel(c) => FilterModel::ByChannel(c@),
            RecordingFilter::ByPlaylist(p) => FilterModel::ByPlaylist(p@),
        }
    }
}

/// The state of a recording picker.
#[derive(Debug)]
pub struct PickerState {
    /// The row in focus.
    pub selected: usize,
    /// The recordings picked for a batch.
    pub selections: HashSet<u128>,
    pub filter: RecordingFilter,
    /// The listed recordings, in order.
    pub visible_ids: Vec<u128>,
}

#[verifier::ext_equal]
pub struct PickerModel {
    pub selected: nat,
    pub selections: Set<u128>,
    pub filter: FilterModel,
    pub visible: Seq<u128>,
}

impl DeepView for PickerState {
    type V = PickerModel;

    open spec fn deep_view(&self) -> PickerModel {
        PickerModel {
            selected: self.selected as nat,
            selections: self.selections@,
            filter: self.filter.deep_view(),
            visible: self.visible_ids@,
        }
    }
}

/// The key of the channel that made a recording.
pub open spec fn recording_key(r: RecordingModel) -> Seq<char> {
    host::channel_key_of(r.platform, r.channel_id)
}

/// Whether a recording is listed: it is finished, not busy, and passes the filter.
pub open spec fn listed(r: RecordingModel, f: FilterModel, busy: Set<u128>) -> bool {
    &&& r.finished
    &&& !busy.contains(r.id)
    &&& match f {
        FilterModel::All => true,
        FilterModel::ByChannel(key) => recording_key(r) == key,
        FilterModel::ByPlaylist(p) => r.playlist == Some(p),
    }
}

/// The ids of the listed recordings, in the host's order.
pub open spec fn listing(all: Seq<RecordingModel>, f: FilterModel, busy: Set<u128>) -> Seq<u128>
    decreases all.len(),
{
    if all.len() == 0 {
        Seq::empty()
    } else if listed(all.last(), f, busy) {
        listing(all.drop_last(), f, busy).push(all.last().id)
    } else {
        listing(all.drop_last(), f, busy)
    }
}

/// The keys of the channels with finished recordings, each once, in order of first occurrence.
pub open spec fn finished_channels(all: Seq<RecordingModel>) -> Seq<Seq<char>>
    decreases all.len(),
{
    if all.len() == 0 {
        Seq::empty()
    } else {
        let before = finished_channels(all.drop_last());
        if all.last().finished && !before.contains(recording_key(all.last())) {
            before.push(recording_key(all.last()))
        } else {
            before
        }
    }
}

/// The filter behind `f` in the cycle: all, then each channel, then all again.
pub open spec fn next_filter(f: FilterModel, channels: Seq<Seq<char>>) -> FilterModel {
    match f {
        FilterModel::All => if channels.len() > 0 {
            FilterModel::ByChannel(channels[0])
        } else {
            FilterModel::All
        },
        FilterModel::ByChannel(current) => {
            let k = if channels.contains(current) {
                channels.index_of_first(current)->0
            } else {
                0
            };
            if k + 1 < channels.len() {
                FilterModel::ByChannel(channels[k + 1])
            } else {
                FilterModel::All
            }
        },
        FilterModel::ByPlaylist(_) => FilterModel::All,
    }
}

/// The row below `i` of `n` rows, the first below the last.
pub open spec fn row_below(i: nat, n: nat) -> nat {
    (i + 1) % n
}

/// The row above `i` of `n` rows, the last above the first.
pub open spec fn row_above(i: nat, n: nat) -> nat {
    if i == 0 {
        (n - 1) as nat
    } else {
        (i - 1) as nat
    }
}

impl PickerModel {
    /// Listed anew, the focus kept inside the list.
    pub open spec fn refreshed(self, all: Seq<RecordingModel>, busy: Set<u128>) -> PickerModel {
        let visible = listing(all, self.filter, busy);
        PickerModel {
            visible,
            selected: if self.selected < visible.len() {
                self.selected
            } else if visible.len() > 0 {
                (visible.len() - 1) as nat
            } else {
                0
            },
            ..self
        }
    }

    /// With the next filter and nothing selected.
    pub open spec fn cycled(self, all: Seq<RecordingModel>) -> PickerModel {
        PickerModel {
            filter: next_filter(self.filter, finished_channels(all)),
            selections: Set::empty(),
            ..self
        }
    }

    /// The focus one row down, around the end.
    pub open spec fn down(self) -> PickerModel {
        if self.visible.len() == 0 {
            self
        } else {
            PickerModel { selected: row_below(self.selected, self.visible.len()), ..self }
        }
    }

    /// The focus one row up, around the start.
    pub open spec fn up(self) -> PickerModel {
        if self.visible.len() == 0 {
            self
        } else {
            PickerModel { selected: row_above(self.selected, self.visible.len()), ..self }
        }
    }

    /// The recording in focus selected, or no longer.
    pub open spec fn toggled(self) -> PickerModel {
        if self.selected < self.visible.len() {
            let id = self.visible[self.selected as int];
            PickerModel {
                selections: if self.selections.contains(id) {
                    self.selections.remove(id)
                } else {
                    self.selections.insert(id)
                },
                ..self
            }
        } else {
            self
        }
    }

    /// All listed recordings selected besides those that were.
    pub open spec fn all_selected(self) -> PickerModel {
        PickerModel { selections: self.selections.union(self.visible.to_set()), ..self }
    }

    /// Nothing selected.
    pub open spec fn cleared(self) -> PickerModel {
        PickerModel { selections: Set::empty(), ..self }
    }

    /// The picker after a key that moves in it or selects. Other keys leave it.
    pub open spec fn moved(
        self,
        key: Key,
        all: Seq<RecordingModel>,
        busy: Set<u128>,
    ) -> PickerModel {
        match key {
            Key::Down | Key::Char('j') => self.down(),
            Key::Up | Key::Char('k') => self.up(),
            Key::Char(' ') => self.toggled(),
            Key::Char('a') => self.all_selected(),
            Key::Char('f') => self.cycled(all).refreshed(all, busy),
            _ => self,
        }
    }

    /// The recording in focus, if there is one.
    pub open spec fn focused(self) -> Seq<u128> {
        if self.selected < self.visible.len() {
            seq![self.visible[self.selected as int]]
        } else {
            Seq::empty()
        }
    }

    /// The orders in which the picked recordings may be handled: the one in focus if none is
    /// selected, else the selected ones in any order.
    pub open spec fn may_pick(self, ids: Seq<u128>) -> bool {
        if self.selections == Set::<u128>::empty() {
            ids == self.focused()
        } else {
            ids.no_duplicates() && ids.to_set() == self.selections
        }
    }
}

impl PickerState {
    /// An empty picker that lists everything.
    pub fn new() -> (r: PickerState)
        ensures
            r.deep_view() == (PickerModel {
                selected: 0,
                selections: Set::empty(),
                filter: FilterModel::All,
                visible: Seq::empty(),
            }),
    {
        PickerState {
            selected: 0,
            selections: HashSet::new(),
            filter: RecordingFilter::All,
            visible_ids: Vec::new(),
        }
    }

    /// Whether a recording is listed.
    fn lists(&self, r: &RecordingInfo, busy: &HashSet<u128>) -> (b: bool)
        ensures
            b == listed(r.deep_view(), self.filter.deep_view(), busy@),
    {
        if !r.finished || busy.contains(&r.id) {
            return false;
        }
        match &self.filter {
            RecordingFilter::All => true,
            RecordingFilter::ByChannel(key) => {
                let own = channel_key(r.platform.as_str(), r.channel_id.as_str());
                text::same_str(own.as_str(), key.as_str())
            },
            RecordingFilter::ByPlaylist(p) => match &r.playlist {
                Some(own) => text::same_str(own.as_str(), p.as_str()),
                None => false,
            },
        }
    }

    /// Refresh the visible list based on the current filter, leaving out the busy recordings.
    pub fn refresh(&mut self, all: &Vec<RecordingInfo>, busy: &HashSet<u128>)
        ensures
            final(self).deep_view() == old(self).deep_view().refreshed(all.deep_view(), busy@),
            final(self).selected < usize::MAX,
    {
        let mut visible: Vec<u128> = Vec::new();
        let mut i: usize = 0;
        let ghost recs = all.deep_view();
        let ghost f = self.filter.deep_view();
        assert(recs.take(0) == Seq::<RecordingModel>::empty());
        while i < all.len()
            invariant
                i <= all.len(),
                recs == all.deep_view(),
                f == self.filter.deep_view(),
                *self == *old(self),
                visible@ == listing(recs.take(i as int), f, busy@),
            decreases all.len() - i,
        {
            assert(recs.take(i + 1).drop_last() == recs.take(i as int));
            assert(recs.take(i + 1).last() == all[i as int].deep_view());
            if self.lists(&all[i], busy) {
                visible.push(all[i].id);
            }
            i = i + 1;
        }
        assert(recs.take(all.len() as int) == recs);
        self.visible_ids = visible;
        if self.selected >= self.visible_ids.len() {
            self.selected = if self.visible_ids.len() > 0 {
                self.visible_ids.len() - 1
            } else {
                0
            };
        }
    }

    /// Cycle to the next filter and drop the selection.
    pub fn cycle_filter(&mut self, all: &Vec<RecordingInfo>)
        ensures
            final(self).deep_view() == old(self).deep_view().cycled(all.deep_view()),
    {
        let channels = channels_of(all);
        let ghost keys = channels.deep_view();
        let next = match &self.filter {
            RecordingFilter::All => {
                if channels.len() > 0 {
                    assert(keys[0] == channels[0]@);
                    RecordingFilter::ByChannel(channels[0].clone())
                } else {
                    RecordingFilter::All
                }
            },
            RecordingFilter::ByChannel(current) => {
                let k = first_index(&channels, current.as_str());
                if channels.len() > 0 && k < channels.len() - 1 {
                    assert(keys[k + 1] == channels[k + 1]@);
                    RecordingFilter::ByChannel(channels[k + 1].clone())
                } else {
                    RecordingFilter::All
                }
            },
            RecordingFilter::ByPlaylist(_) => RecordingFilter::All,
        };
        self.filter = next;
        self.selections.clear();
    }

    /// The picker's own share of a key: moving, selecting, filtering.
    pub fn on_key(&mut self, key: Key, all: &Vec<RecordingInfo>, busy: &HashSet<u128>)
        requires
            old(self).selected < usize::MAX,
        ensures
            final(self).deep_view() == old(self).deep_view().moved(key, all.deep_view(), busy@),
    {
        match key {
            Key::Down | Key::Char('j') => {
                if self.visible_ids.len() > 0 {
                    self.selected = (self.selected + 1) % self.visible_ids.len();
                }
            },
            Key::Up | Key::Char('k') => {
                if self.visible_ids.len() > 0 {
                    self.selected = if self.selected == 0 {
                        self.visible_ids.len() - 1
                    } else {
                        self.selected - 1
                    };
                }
            },
            Key::Char(' ') => {
                if self.selected < self.visible_ids.len() {
                    let id: u128 = self.visible_ids[self.selected];
                    if !self.selections.remove(&id) {
                        self.selections.insert(id);
                    }
                }
            },
            Key::Char('a') => {
                self.select_all();
            },
            Key::Char('f') => {
                self.cycle_filter(all);
                self.refresh(all, busy);
            },
            _ => {},
        }
    }

    /// Select all visible recordings.
    fn select_all(&mut self)
        ensures
            final(self).deep_view() == old(self).deep_view().all_selected(),
    {
        let mut i: usize = 0;
        let ghost had = self.selections@;
        let ghost ids = self.visible_ids@;
        assert(had.union(ids.take(0).to_set()) == had);
        while i < self.visible_ids.len()
            invariant
                i <= self.visible_ids.len(),
                self.visible_ids@ == ids,
                self.selected == old(self).selected,
                self.filter == old(self).filter,
                self.selections@ == had.union(ids.take(i as int).to_set()),
            decreases self.visible_ids.len() - i,
        {
            let id: u128 = self.visible_ids[i];
            self.selections.insert(id);
            proof {
                let now = ids.take(i + 1);
                let before = ids.take(i as int);
                assert(now == before.push(id));
                assert(now.last() == id);
                assert forall|x: u128| now.to_set().contains(x) == (x == id
                    || before.to_set().contains(x)) by {
                    if before.contains(x) {
                        let j = choose|j: int| 0 <= j < before.len() && before[j] == x;
                        assert(now[j] == x);
                    }
                    if x == id {
                        assert(now[i as int] == x);
                    }
                }
                assert(had.union(now.to_set()) == had.union(before.to_set()).insert(id));
            }
            i = i + 1;
        }
        assert(ids.take(ids.len() as int) == ids);
    }

    /// The picked recordings: the one in focus if none is selected, else the selected ones, in
    /// the order in which the set is walked, and the selection is dropped.
    pub fn take_picked(&mut self) -> (r: Vec<u128>)
        ensures
            old(self).deep_view().may_pick(r@),
            final(self).deep_view() == old(self).deep_view().cleared(),
    {
        let mut out: Vec<u128> = Vec::new();
        if self.selections.is_empty() {
            if self.selected < self.visible_ids.len() {
                out.push(self.visible_ids[self.selected]);
                assert(out@ == self.deep_view().focused());
            }
            assert(self.selections@ == Set::<u128>::empty());
            return out;
        }
        for id in it: self.selections.iter()
            invariant
                *self == *old(self),
                it.seq().unref().to_set() == self.selections@,
                it.seq().no_duplicates(),
                out@ == it.seq().unref().take(it.index()),
                it.index() == it.seq().len() ==> out@ == it.seq().unref(),
                it.seq().unref().no_duplicates(),
        {
            assert(it.seq().unref().take(it.index() + 1) == it.seq().unref().take(it.index()).push(*id));
            out.push(*id);
        }
        self.selections.clear();
        out
    }
}

/// The keys of the channels with finished recordings, each once.
fn channels_of(all: &Vec<RecordingInfo>) -> (r: Vec<String>)
    ensures
        r.deep_view() == finished_channels(all.deep_view()),
{
    let mut out: Vec<String> = Vec::new();
    let mut i: usize = 0;
    let ghost recs = all.deep_view();
    assert(recs.take(0) == Seq::<RecordingModel>::empty());
    assert(out.deep_view() == Seq::<Seq<char>>::empty());
    while i < all.len()
        invariant
            i <= all.len(),
            recs == all.deep_view(),
            out.deep_view() == finished_channels(recs.take(i as int)),
        decreases all.len() - i,
    {
        let r = &all[i];
        assert(recs.take(i + 1).drop_last() == recs.take(i as int));
        assert(recs.take(i + 1).last() == r.deep_view());
        let key = channel_key(r.platform.as_str(), r.channel_id.as_str());
        if r.finished && !text::holds(&out, key.as_str()) {
            let ghost before = out.deep_view();
            let ghost k = key@;
            out.push(key);
            assert(out.deep_view() == before.push(k));
        }
        i = i + 1;
    }
    assert(recs.take(all.len() as int) == recs);
    out
}

/// Where `s` first stands in `all`, or 0 if it does not.
fn first_index(all: &Vec<String>, s: &str) -> (r: usize)
    ensures
        r == if all.deep_view().contains(s@) {
            all.deep_view().index_of_first(s@)->0
        } else {
            0
        },
{
    let mut i: usize = 0;
    let ghost list = all.deep_view();
    while i < all.len()
        invariant
            i <= all.len(),
            list == all.deep_view(),
            forall|j: int| 0 <= j < i ==> #[trigger] list[j] != s@,
        decreases all.len() - i,
    {
        assert(list[i as int] == all[i as int]@);
        if text::same_str(all[i].as_str(), s) {
            proof {
                assert(list[i as int] == s@);
                list.index_of_first_ensures(s@);
                let k = list.index_of_first(s@)->0;
                assert(list[k] == s@);
            }
            return i;
        }
        i = i + 1;
    }
    0
}

// ---------------------------------------------------------------------------
// Laws
// ---------------------------------------------------------------------------

impl PickerModel {
    /// The focus is on a listed recording, unless nothing is listed.
    pub open spec fn in_range(self) -> bool {
        if self.visible.len() == 0 {
            self.selected == 0
        } else {
            self.selected < self.visible.len()
        }
    }
}

/// A recording is listed exactly when it is finished, not busy, and passes the filter.
pub proof fn law_listing(all: Seq<RecordingModel>, f: FilterModel, busy: Set<u128>, id: u128)
    ensures
        listing(all, f, busy).contains(id) == exists|i: int|
            0 <= i < all.len() && (#[trigger] all[i]).id == id && listed(all[i], f, busy),
    decreases all.len(),
{
    if all.len() > 0 {
        let t = all.drop_last();
        let before = listing(t, f, busy);
        law_listing(t, f, busy, id);
        let now = listing(all, f, busy);
        if listed(all.last(), f, busy) {
            assert(now.last() == all.last().id);
            if before.contains(id) {
                let j = choose|j: int| 0 <= j < before.len() && before[j] == id;
                assert(now[j] == id);
            }
        }
        if exists|i: int| 0 <= i < t.len() && (#[trigger] t[i]).id == id && listed(t[i], f, busy) {
            let i = choose|i: int|
                0 <= i < t.len() && (#[trigger] t[i]).id == id && listed(t[i], f, busy);
            assert(all[i].id == id && listed(all[i], f, busy));
        }
        if exists|i: int|
            0 <= i < all.len() && (#[trigger] all[i]).id == id && listed(all[i], f, busy) {
            let i = choose|i: int|
                0 <= i < all.len() && (#[trigger] all[i]).id == id && listed(all[i], f, busy);
            if i < t.len() {
                assert(t[i].id == id && listed(t[i], f, busy));
            } else {
                assert(now.last() == id);
            }
        }
        if now.contains(id) && !before.contains(id) {
            let j = choose|j: int| 0 <= j < now.len() && now[j] == id;
            if j < before.len() {
                assert(before[j] == id);
            }
            assert(all[all.len() - 1].id == id);
        }
    }
}

/// No busy recording is ever listed.
pub proof fn law_busy_not_listed(
    all: Seq<RecordingModel>,
    f: FilterModel,
    busy: Set<u128>,
    id: u128,
)
    requires
        busy.contains(id),
    ensures
        !listing(all, f, busy).contains(id),
{
    law_listing(all, f, busy, id);
}

/// Refreshing brings the focus into the list, and every key keeps it there.
pub proof fn law_focus_in_range(
    p: PickerModel,
    key: Key,
    all: Seq<RecordingModel>,
    busy: Set<u128>,
)
    ensures
        p.refreshed(all, busy).in_range(),
        p.in_range() ==> p.moved(key, all, busy).in_range(),
{
    let n = p.visible.len();
    if n > 0 {
        assert((p.selected + 1) % n < n) by (nonlinear_arith)
            requires
                n > 0,
        ;
    }
}

/// One row down and one row up lead back.
pub proof fn law_down_up(p: PickerModel)
    requires
        p.in_range(),
    ensures
        p.down().up() == p,
        p.up().down() == p,
{
    let n = p.visible.len();
    if n > 0 {
        if p.selected + 1 < n {
            assert((p.selected + 1) % n == p.selected + 1) by (nonlinear_arith)
                requires
                    p.selected + 1 < n,
            ;
        } else {
            assert((p.selected + 1) % n == 0) by (nonlinear_arith)
                requires
                    p.selected + 1 == n,
                    n > 0,
            ;
        }
        if p.selected > 0 {
            assert(p.selected % n == p.selected) by (nonlinear_arith)
                requires
                    p.selected < n,
            ;
        } else {
            assert(n % n == 0) by (nonlinear_arith)
                requires
                    n > 0,
            ;
        }
    }
}

/// Toggling a recording twice changes nothing.
pub proof fn law_toggle_twice(p: PickerModel)
    ensures
        p.toggled().toggled() == p,
{
    if p.selected < p.visible.len() {
        let id = p.visible[p.selected as int];
        if p.selections.contains(id) {
            assert(p.selections.remove(id).insert(id) == p.selections);
        } else {
            assert(p.selections.insert(id).remove(id) == p.selections);
        }
    }
}

/// The channels offered as filters are those of the finished recordings, each once.
pub proof fn law_channels(all: Seq<RecordingModel>, key: Seq<char>)
    ensures
        finished_channels(all).no_duplicates(),
        finished_channels(all).contains(key) == exists|i: int|
            0 <= i < all.len() && (#[trigger] all[i]).finished && recording_key(all[i]) == key,
    decreases all.len(),
{
    if all.len() > 0 {
        let t = all.drop_last();
        let before = finished_channels(t);
        let now = finished_channels(all);
        law_channels(t, key);
        let own = recording_key(all.last());
        if all.last().finished && !before.contains(own) {
            assert(now.last() == own);
            assert forall|i: int, j: int| 0 <= i < j < now.len() implies now[i] != now[j] by {
                if j == before.len() {
                    assert(before[i] == now[i]);
                } else {
                    assert(before[i] == now[i] && before[j] == now[j]);
                }
            }
            if before.contains(key) {
                let j = choose|j: int| 0 <= j < before.len() && before[j] == key;
                assert(now[j] == key);
            }
            if now.contains(key) && key != own {
                let j = choose|j: int| 0 <= j < now.len() && now[j] == key;
                assert(before[j] == key);
            }
        }
        if exists|i: int| 0 <= i < t.len() && (#[trigger] t[i]).finished && recording_key(t[i]) == key {
            let i = choose|i: int|
                0 <= i < t.len() && (#[trigger] t[i]).finished && recording_key(t[i]) == key;
            assert(all[i].finished && recording_key(all[i]) == key);
        }
        if exists|i: int|
            0 <= i < all.len() && (#[trigger] all[i]).finished && recording_key(all[i]) == key {
            let i = choose|i: int|
                0 <= i < all.len() && (#[trigger] all[i]).finished && recording_key(all[i]) == key;
            if i < t.len() {
                assert(t[i].finished && recording_key(t[i]) == key);
            }
        }
        if all.last().finished && key == own {
            assert(all[all.len() - 1].finished);
        }
    }
}

/// The filter after `k` steps of the cycle from `f`.
pub open spec fn filter_after(f: FilterModel, channels: Seq<Seq<char>>, k: nat) -> FilterModel
    decreases k,
{
    if k == 0 {
        f
    } else {
        next_filter(filter_after(f, channels, (k - 1) as nat), channels)
    }
}

/// From "all", the cycle visits every channel once, in order, and comes back to "all".
pub proof fn law_filter_cycle(all: Seq<RecordingModel>, k: nat)
    requires
        k <= finished_channels(all).len() + 1,
    ensures
        filter_after(FilterModel::All, finished_channels(all), k) == if k == 0 || k
            == finished_channels(all).len() + 1 {
            FilterModel::All
        } else {
            FilterModel::ByChannel(finished_channels(all)[k - 1])
        },
    decreases k,
{
    let channels = finished_channels(all);
    if k > 0 {
        law_filter_cycle(all, (k - 1) as nat);
        if k > 1 {
            let current = channels[k - 2];
            law_channels(all, current);
            assert(channels.contains(current));
            channels.index_of_first_ensures(current);
            let j = channels.index_of_first(current)->0;
            assert(channels[j] == channels[k - 2]);
        }
    }
}

/// The row below is the next one, and below the last comes the first; the row above the other way
/// round.
pub proof fn law_rows(i: nat, n: nat)
    requires
        i < n,
    ensures
        i + 1 < n ==> row_below(i, n) == i + 1,
        i + 1 == n ==> row_below(i, n) == 0,
        i > 0 ==> row_above(i, n) == i - 1,
        i == 0 ==> row_above(i, n) == n - 1,
        row_above(row_below(i, n), n) == i,
        row_below(row_above(i, n), n) == i,
{
    if i + 1 < n {
        assert((i + 1) % n == i + 1) by (nonlinear_arith)
            requires
                i + 1 < n,
        ;
    } else {
        assert((i + 1) % n == 0) by (nonlinear_arith)
            requires
                i + 1 == n,
                n > 0,
        ;
    }
    if i > 0 {
        assert(i % n == i) by (nonlinear_arith)
            requires
                i < n,
        ;
    } else {
        assert(n % n == 0) by (nonlinear_arith)
            requires
                n > 0,
        ;
    }
}

/// The list holds each recording that is finished, not busy and lets the filter pass, as often as
/// the host has it and in the host's order.
pub proof fn law_listing_order(all: Seq<RecordingModel>, f: FilterModel, busy: Set<u128>)
    ensures
        listing(all, f, busy) == all.filter(
            |r: RecordingModel|
                {
                    &&& r.finished
                    &&& !busy.contains(r.id)
                    &&& f matches FilterModel::ByChannel(key) ==> key == r.platform + ":"@
                        + r.channel_id
                    &&& f matches FilterModel::ByPlaylist(p) ==> r.playlist == Some(p)
                },
        ).map_values(|r: RecordingModel| r.id),
    decreases all.len(),
{
    reveal(Seq::filter);
    let passes = |r: RecordingModel|
        {
            &&& r.finished
            &&& !busy.contains(r.id)
            &&& f matches FilterModel::ByChannel(key) ==> key == r.platform + ":"@ + r.channel_id
            &&& f matches FilterModel::ByPlaylist(p) ==> r.playlist == Some(p)
        };
    let id_of = |r: RecordingModel| r.id;
    if all.len() > 0 {
        let t = all.drop_last();
        law_listing_order(t, f, busy);
        assert(listed(all.last(), f, busy) == passes(all.last()));
        if passes(all.last()) {
            assert(t.filter(passes).push(all.last()).map_values(id_of) == t.filter(
                passes,
            ).map_values(id_of).push(all.last().id));
        }
    }
}

/// What is handed over is the recording in focus where nothing is selected, and else every selected
/// recording, once, and no other.
pub proof fn law_picked(p: PickerModel, ids: Seq<u128>, id: u128)
    requires
        p.may_pick(ids),
    ensures
        ids.no_duplicates(),
        p.selections.contains(id) ==> ids.contains(id),
        ids.contains(id) ==> p.selections.contains(id) || p.selections == Set::<u128>::empty()
            && p.selected < p.visible.len() && id == p.visible[p.selected as int],
        p.selections == Set::<u128>::empty() && p.selected < p.visible.len() ==> ids == seq![
            p.visible[p.selected as int],
        ],
        p.selections == Set::<u128>::empty() && p.selected >= p.visible.len() ==> ids.len() == 0,
{
    if p.selections != Set::<u128>::empty() {
        assert(ids.to_set().contains(id) == p.selections.contains(id));
        assert(ids.to_set().contains(id) == ids.contains(id));
    }
}

/// Selecting all adds every listed recording to the selected ones and takes none away; the focus
/// and the list stay.
pub proof fn law_select_all(p: PickerModel, id: u128)
    ensures
        p.all_selected().selections.contains(id) <==> p.selections.contains(id)
            || p.visible.contains(id),
        p.all_selected() == (PickerModel { selections: p.all_selected().selections, ..p }),
{
    assert(p.visible.to_set().contains(id) == p.visible.contains(id));
}

/// Listing anew keeps the filter, what is selected, and the focus as long as its row is there. The
/// next filter selects nothing. A toggle touches the recording in focus alone.
pub proof fn law_picker_keeps(p: PickerModel, all: Seq<RecordingModel>, busy: Set<u128>, id: u128)
    ensures
        ({
            let q = p.refreshed(all, busy);
            &&& q.filter == p.filter
            &&& q.selections == p.selections
            &&& p.selected < q.visible.len() ==> q.selected == p.selected
        }),
        p.cycled(all).selections == Set::<u128>::empty(),
        p.filter is ByPlaylist ==> p.cycled(all).filter is All,
        p.cleared() == (PickerModel { selections: Set::empty(), ..p }),
        p.selected < p.visible.len() && id == p.visible[p.selected as int] ==> (
        p.toggled().selections.contains(id) <==> !p.selections.contains(id)),
        p.selected < p.visible.len() && id != p.visible[p.selected as int] ==> (
        p.toggled().selections.contains(id) <==> p.selections.contains(id)),
        p.selected >= p.visible.len() ==> p.toggled() == p,
        p.moved(Key::Char('j'), all, busy) == p.moved(Key::Down, all, busy),
        p.moved(Key::Char('k'), all, busy) == p.moved(Key::Up, all, busy),
        p.moved(Key::Down, all, busy) == p.down(),
        p.moved(Key::Up, all, busy) == p.up(),
        p.moved(Key::Char(' '), all, busy) == p.toggled(),
        p.moved(Key::Char('a'), all, busy) == p.all_selected(),
{
}

/// The channels offered as filters come in the order of the recordings: one recording more adds its
/// channel behind the others exactly where it is finished and its channel is new.
pub proof fn law_channels_in_order(all: Seq<RecordingModel>, r: RecordingModel)
    ensures
        ({
            let key = r.platform + ":"@ + r.channel_id;
            let before = finished_channels(all);
            let now = finished_channels(all.push(r));
            &&& r.finished && !before.contains(key) ==> now == before.push(key)
            &&& !r.finished || before.contains(key) ==> now == before
        }),
        finished_channels(Seq::empty()).len() == 0,
{
    assert(all.push(r).drop_last() == all);
}

} // verus!
