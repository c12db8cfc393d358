//! The host's names of turns, for turns that the store numbers itself.
//!
//! A turn is given the host's name only where that is proven: by the key of the
//! event that closed it, or as the turn that is live now. Where the turns that
//! an earlier rollout started are known too, those that are left over are laid
//! against the turns that are left over, if there are as many of each. Anything
//! else stays unknown.

use vstd::prelude::*;
use vstd::string::*;

use crate::idempotency::{
    key_escaped, key_escaped_has_no_separator, lemma_key_escaped_first, turn_key,
};
use crate::records::{EventKind, EventRecord, EventRecordView, TurnRecord, TurnRecordView};
use crate::rollout::{EventMsg, EventMsgView, RolloutItem, RolloutItemView};
use crate::text::{
    after_prefix, all_digits, chars_of, holds_text, is_digit, lemma_first_from_unique, pieces,
    pieces_from, split, strip_prefix, text, text_eq,
};

verus! {

// ---------------------------------------------------------------------------
// Names in keys
// ---------------------------------------------------------------------------

/// The name is a number that the store gave: `t` and digits.
pub open spec fn is_store_name(id: Seq<char>) -> bool {
    id.len() > 1 && id[0] == 't' && all_digits(id.skip(1))
}

/// Whether a name is a number that the store gave: `t` and digits.
pub fn is_synthetic_lhc_turn_id(id: &str) -> (r: bool)
    ensures
        r == is_store_name(id@),
{
    let chars = chars_of(id);
    if chars.len() < 2 || chars[0] != 't' {
        return false;
    }
    let mut i: usize = 1;
    while i < chars.len()
        invariant
            1 <= i <= chars.len(),
            chars@ == id@,
            forall|j: int| 1 <= j < i ==> is_digit(#[trigger] chars@[j]),
        decreases chars.len() - i,
    {
        let c = chars[i];
        if !('0' <= c && c <= '9') {
            assert(!is_digit(chars@.skip(1)[i - 1]));
            return false;
        }
        i = i + 1;
    }
    assert forall|j: int| 0 <= j < chars@.skip(1).len() implies is_digit(
        #[trigger] chars@.skip(1)[j],
    ) by {
        assert(is_digit(chars@[j + 1]));
    }
    true
}

/// The text with every occurrence of three characters replaced by one, from
/// the left.
pub open spec fn replaced(s: Seq<char>, a: char, b: char, c: char, by: char) -> Seq<char>
    decreases s.len(),
{
    if s.len() == 0 {
        Seq::empty()
    } else if s.len() >= 3 && s[0] == a && s[1] == b && s[2] == c {
        seq![by] + replaced(s.skip(3), a, b, c, by)
    } else {
        seq![s[0]] + replaced(s.skip(1), a, b, c, by)
    }
}

fn replace(s: &str, a: char, b: char, c: char, by: char) -> (r: String)
    ensures
        r@ == replaced(s@, a, b, c, by),
{
    let chars = chars_of(s);
    let ghost all = chars@;
    let mut out = String::new();
    let mut i: usize = 0;
    assert(all.skip(0) =~= all);
    assert(Seq::<char>::empty() + replaced(all, a, b, c, by) =~= replaced(all, a, b, c, by));
    while i < chars.len()
        invariant
            i <= chars.len(),
            all == chars@,
            replaced(all, a, b, c, by) == out@ + replaced(all.skip(i as int), a, b, c, by),
        decreases chars.len() - i,
    {
        let ghost before = out@;
        let ghost rest = all.skip(i as int);
        if chars.len() - i >= 3 && chars[i] == a && chars[i + 1] == b && chars[i + 2] == c {
            out.push(by);
            assert(rest.skip(3) =~= all.skip(i + 3));
            assert(before + (seq![by] + replaced(all.skip(i + 3), a, b, c, by)) =~= out@ + replaced(
                all.skip(i + 3),
                a,
                b,
                c,
                by,
            ));
            i = i + 3;
        } else {
            out.push(chars[i]);
            assert(rest.skip(1) =~= all.skip(i + 1));
            assert(before + (seq![all[i as int]] + replaced(all.skip(i + 1), a, b, c, by)) =~= out@
                + replaced(all.skip(i + 1), a, b, c, by));
            i = i + 1;
        }
    }
    assert(out@ + replaced(all.skip(i as int), a, b, c, by) =~= out@);
    out
}

/// A name as it was before it was put into a key.
pub open spec fn unescaped_name(s: Seq<char>) -> Seq<char> {
    replaced(replaced(s, '%', '3', 'A', ':'), '%', '2', '5', '%')
}

/// The host's name of a turn in the key of its end.
pub open spec fn turn_of_end_key(key: Seq<char>) -> Option<Seq<char>> {
    match after_prefix(key, "codex:"@) {
        None => None,
        Some(rest) => {
            let parts = pieces(rest, ':');
            if parts.len() != 4 || parts[1] != "turn_end"@ || parts[3].len() == 0 {
                None
            } else {
                let name = unescaped_name(parts[2]);
                if name.len() == 0 || is_store_name(name) {
                    None
                } else {
                    Some(name)
                }
            }
        },
    }
}

/// The host's name of a turn in the key of its end; none when the key is no
/// such key, or holds a number that the store gave.
pub fn parse_host_turn_id_from_turn_end_key(key: &str) -> (r: Option<String>)
    ensures
        r.deep_view() == turn_of_end_key(key@),
{
    let rest = match strip_prefix(key, "codex:") {
        Some(rest) => rest,
        None => {
            return None;
        },
    };
    let parts = split(rest.as_str(), ':');
    let ghost view = parts.deep_view();
    if parts.len() != 4 {
        return None;
    }
    assert(view[1] == parts@[1]@ && view[2] == parts@[2]@ && view[3] == parts@[3]@);
    if !text_eq(parts[1].as_str(), "turn_end") || parts[3].as_str().unicode_len() == 0 {
        return None;
    }
    let mid = replace(parts[2].as_str(), '%', '3', 'A', ':');
    let name = replace(mid.as_str(), '%', '2', '5', '%');
    if name.as_str().unicode_len() == 0 || is_synthetic_lhc_turn_id(name.as_str()) {
        None
    } else {
        Some(name)
    }
}

// ---------------------------------------------------------------------------
// The map
// ---------------------------------------------------------------------------

/// A turn of the store and the host's name of it.
#[derive(Debug, PartialEq, Eq)]
pub struct TurnIdPair {
    pub lhc_turn_id: String,
    pub host_turn_id: String,
}

/// What a [`TurnIdPair`] stands for.
#[verifier::ext_equal]
pub struct TurnIdPairView {
    pub lhc: Seq<char>,
    pub host: Seq<char>,
}

impl View for TurnIdPair {
    type V = TurnIdPairView;

    open spec fn view(&self) -> TurnIdPairView {
        TurnIdPairView { lhc: self.lhc_turn_id@, host: self.host_turn_id@ }
    }
}

impl DeepView for TurnIdPair {
    type V = TurnIdPairView;

    open spec fn deep_view(&self) -> TurnIdPairView {
        self@
    }
}

/// The host's names of the turns that have one.
#[derive(Debug, PartialEq, Eq)]
pub struct HostTurnIds {
    pub pairs: Vec<TurnIdPair>,
}

impl View for HostTurnIds {
    type V = Seq<TurnIdPairView>;

    open spec fn view(&self) -> Seq<TurnIdPairView> {
        self.pairs.deep_view()
    }
}

impl Default for HostTurnIds {
    /// No names at all.
    fn default() -> (r: Self)
        ensures
            r@ == Seq::<TurnIdPairView>::empty(),
    {
        let r = HostTurnIds { pairs: Vec::new() };
        assert(r@ =~= Seq::<TurnIdPairView>::empty());
        r
    }
}

/// The host's name of a turn.
pub open spec fn host_of(map: Seq<TurnIdPairView>, lhc: Seq<char>) -> Option<Seq<char>>
    decreases map.len(),
{
    if map.len() == 0 {
        None
    } else if map.last().lhc == lhc {
        Some(map.last().host)
    } else {
        host_of(map.drop_last(), lhc)
    }
}

/// The turn has a name.
pub open spec fn is_named(map: Seq<TurnIdPairView>, lhc: Seq<char>) -> bool {
    exists|k: int| 0 <= k < map.len() && (#[trigger] map[k]).lhc == lhc
}

/// The name is taken.
pub open spec fn is_taken(map: Seq<TurnIdPairView>, host: Seq<char>) -> bool {
    exists|k: int| 0 <= k < map.len() && (#[trigger] map[k]).host == host
}

/// A turn has that identity.
pub open spec fn has_turn_id(turns: Seq<TurnRecordView>, id: Seq<char>) -> bool {
    exists|k: int| 0 <= k < turns.len() && (#[trigger] turns[k]).turn_id == id
}

/// The first turn, from the `i`-th on, that the event at `order` closed.
pub open spec fn turn_closed_at(turns: Seq<TurnRecordView>, order: i64, i: int) -> Option<
    Seq<char>,
>
    decreases turns.len() - i,
{
    if i < 0 || i >= turns.len() {
        None
    } else if turns[i].closed_at_event_order == Some(order) {
        Some(turns[i].turn_id)
    } else {
        turn_closed_at(turns, order, i + 1)
    }
}

/// The map with the turn that an event closed.
pub open spec fn named_by_event(
    map: Seq<TurnIdPairView>,
    turns: Seq<TurnRecordView>,
    event: EventRecordView,
) -> Seq<TurnIdPairView> {
    if event.kind != EventKind::TurnEnd {
        map
    } else {
        match (
            turn_of_end_key(event.idempotency_key),
            turn_closed_at(turns, event.event_order, 0),
        ) {
            (Some(host), Some(lhc)) => if is_taken(map, host) || is_named(map, lhc) {
                map
            } else {
                map.push(TurnIdPairView { lhc, host })
            },
            _ => map,
        }
    }
}

/// The map with the turns that the first `n` events closed.
pub open spec fn named_by_events(
    turns: Seq<TurnRecordView>,
    events: Seq<EventRecordView>,
    n: int,
) -> Seq<TurnIdPairView>
    decreases n,
{
    if n <= 0 {
        Seq::empty()
    } else {
        named_by_event(named_by_events(turns, events, n - 1), turns, events[n - 1])
    }
}

/// The map with the turn that is live.
pub open spec fn named_live(
    map: Seq<TurnIdPairView>,
    turns: Seq<TurnRecordView>,
    host: Option<Seq<char>>,
    lhc: Option<Seq<char>>,
) -> Seq<TurnIdPairView> {
    match (host, lhc) {
        (Some(h), Some(l)) => if !is_taken(map, h) && !is_named(map, l) && has_turn_id(turns, l) {
            map.push(TurnIdPairView { lhc: l, host: h })
        } else {
            map
        },
        _ => map,
    }
}

/// The turns that the first `n` lines start and whose names are not taken, each once.
pub open spec fn free_starts(
    map: Seq<TurnIdPairView>,
    prior: Seq<RolloutItemView>,
    n: int,
) -> Seq<Seq<char>>
    decreases n,
{
    if n <= 0 {
        Seq::empty()
    } else {
        let before = free_starts(map, prior, n - 1);
        match prior[n - 1] {
            RolloutItemView::EventMsg(EventMsgView::TurnStarted { turn_id, .. }) => if is_taken(
                map,
                turn_id,
            ) || before.contains(turn_id) {
                before
            } else {
                before.push(turn_id)
            },
            _ => before,
        }
    }
}

/// The first `n` turns that have no name, each once.
pub open spec fn unnamed_turns(
    map: Seq<TurnIdPairView>,
    turns: Seq<TurnRecordView>,
    n: int,
) -> Seq<Seq<char>>
    decreases n,
{
    if n <= 0 {
        Seq::empty()
    } else {
        let before = unnamed_turns(map, turns, n - 1);
        let id = turns[n - 1].turn_id;
        if is_named(map, id) || before.contains(id) {
            before
        } else {
            before.push(id)
        }
    }
}

/// Turns and names laid against each other.
pub open spec fn laid(lhc: Seq<Seq<char>>, hosts: Seq<Seq<char>>) -> Seq<TurnIdPairView> {
    Seq::new(lhc.len(), |i: int| TurnIdPairView { lhc: lhc[i], host: hosts[i] })
}

/// The map with what is left over laid against each other, if there is as much
/// of each.
pub open spec fn named_by_position(
    map: Seq<TurnIdPairView>,
    turns: Seq<TurnRecordView>,
    prior: Seq<RolloutItemView>,
) -> Seq<TurnIdPairView> {
    let lhc = unnamed_turns(map, turns, turns.len() as int);
    let hosts = free_starts(map, prior, prior.len() as int);
    if lhc.len() == hosts.len() {
        map + laid(lhc, hosts)
    } else {
        map
    }
}

/// The host's names of the turns.
pub open spec fn turn_names(
    turns: Seq<TurnRecordView>,
    events: Seq<EventRecordView>,
    prior: Seq<RolloutItemView>,
    host: Option<Seq<char>>,
    lhc: Option<Seq<char>>,
) -> Seq<TurnIdPairView> {
    named_by_position(
        named_live(named_by_events(turns, events, events.len() as int), turns, host, lhc),
        turns,
        prior,
    )
}

impl HostTurnIds {
    /// Whether no turn has a name.
    pub fn is_empty(&self) -> (r: bool)
        ensures
            r == (self@.len() == 0),
    {
        self.pairs.len() == 0
    }

    /// The host's name of a turn.
    pub fn get(&self, lhc_turn_id: &str) -> (r: Option<&String>)
        ensures
            r.deep_view() == host_of(self@, lhc_turn_id@),
    {
        let ghost view = self@;
        let mut n: usize = self.pairs.len();
        assert(view.take(n as int) =~= view);
        while n > 0
            invariant
                n <= self.pairs.len(),
                view == self@,
                host_of(view, lhc_turn_id@) == host_of(view.take(n as int), lhc_turn_id@),
            decreases n,
        {
            assert(view.take(n as int).drop_last() =~= view.take(n - 1));
            assert(view.take(n as int).last() == self.pairs@[n - 1]@);
            if text_eq(self.pairs[n - 1].lhc_turn_id.as_str(), lhc_turn_id) {
                return Some(&self.pairs[n - 1].host_turn_id);
            }
            n = n - 1;
        }
        None
    }

    fn names(&self, lhc: &str) -> (r: bool)
        ensures
            r == is_named(self@, lhc@),
    {
        let ghost view = self@;
        let mut k: usize = 0;
        while k < self.pairs.len()
            invariant
                k <= self.pairs.len(),
                view == self@,
                forall|j: int| 0 <= j < k ==> (#[trigger] view[j]).lhc != lhc@,
            decreases self.pairs.len() - k,
        {
            assert(view[k as int] == self.pairs@[k as int]@);
            if text_eq(self.pairs[k].lhc_turn_id.as_str(), lhc) {
                return true;
            }
            k = k + 1;
        }
        false
    }

    fn takes(&self, host: &str) -> (r: bool)
        ensures
            r == is_taken(self@, host@),
    {
        let ghost view = self@;
        let mut k: usize = 0;
        while k < self.pairs.len()
            invariant
                k <= self.pairs.len(),
                view == self@,
                forall|j: int| 0 <= j < k ==> (#[trigger] view[j]).host != host@,
            decreases self.pairs.len() - k,
        {
            assert(view[k as int] == self.pairs@[k as int]@);
            if text_eq(self.pairs[k].host_turn_id.as_str(), host) {
                return true;
            }
            k = k + 1;
        }
        false
    }

    fn name(&mut self, lhc: &str, host: &str)
        ensures
            final(self)@ == old(self)@.push(TurnIdPairView { lhc: lhc@, host: host@ }),
    {
        let ghost before = self@;
        self.pairs.push(TurnIdPair { lhc_turn_id: text(lhc), host_turn_id: text(host) });
        assert(self@ =~= before.push(TurnIdPairView { lhc: lhc@, host: host@ }));
    }
}

fn find_closed_at(turns: &Vec<TurnRecord>, order: i64) -> (r: Option<&String>)
    ensures
        r.deep_view() == turn_closed_at(turns.deep_view(), order, 0),
{
    let ghost view = turns.deep_view();
    let mut i: usize = 0;
    while i < turns.len()
        invariant
            i <= turns.len(),
            view == turns.deep_view(),
            turn_closed_at(view, order, 0) == turn_closed_at(view, order, i as int),
        decreases turns.len() - i,
    {
        assert(view[i as int] == turns@[i as int]@);
        if let Some(at) = turns[i].closed_at_event_order {
            if at == order {
                return Some(&turns[i].turn_id);
            }
        }
        i = i + 1;
    }
    None
}

fn holds_turn_id(turns: &Vec<TurnRecord>, id: &str) -> (r: bool)
    ensures
        r == has_turn_id(turns.deep_view(), id@),
{
    let ghost view = turns.deep_view();
    let mut k: usize = 0;
    while k < turns.len()
        invariant
            k <= turns.len(),
            view == turns.deep_view(),
            forall|j: int| 0 <= j < k ==> (#[trigger] view[j]).turn_id != id@,
        decreases turns.len() - k,
    {
        assert(view[k as int] == turns@[k as int]@);
        if text_eq(turns[k].turn_id.as_str(), id) {
            return true;
        }
        k = k + 1;
    }
    false
}

fn find_free_starts(map: &HostTurnIds, prior: &Vec<RolloutItem>) -> (r: Vec<String>)
    ensures
        r.deep_view() == free_starts(map@, prior.deep_view(), prior.len() as int),
{
    let ghost view = prior.deep_view();
    let mut out: Vec<String> = Vec::new();
    assert(out.deep_view() =~= Seq::<Seq<char>>::empty());
    let mut i: usize = 0;
    while i < prior.len()
        invariant
            i <= prior.len(),
            view == prior.deep_view(),
            out.deep_view() == free_starts(map@, view, i as int),
        decreases prior.len() - i,
    {
        let ghost before = out.deep_view();
        assert(view[i as int] == prior@[i as int]@);
        if let RolloutItem::EventMsg(EventMsg::TurnStarted { turn_id, .. }) = &prior[i] {
            if !map.takes(turn_id.as_str()) && !holds_text(&out, turn_id.as_str()) {
                out.push(turn_id.clone());
                assert(out.deep_view() =~= before.push(turn_id@));
            }
        }
        i = i + 1;
    }
    out
}

fn find_unnamed(map: &HostTurnIds, turns: &Vec<TurnRecord>) -> (r: Vec<String>)
    ensures
        r.deep_view() == unnamed_turns(map@, turns.deep_view(), turns.len() as int),
{
    let ghost view = turns.deep_view();
    let mut out: Vec<String> = Vec::new();
    assert(out.deep_view() =~= Seq::<Seq<char>>::empty());
    let mut i: usize = 0;
    while i < turns.len()
        invariant
            i <= turns.len(),
            view == turns.deep_view(),
            out.deep_view() == unnamed_turns(map@, view, i as int),
        decreases turns.len() - i,
    {
        let ghost before = out.deep_view();
        let id = &turns[i].turn_id;
        assert(view[i as int] == turns@[i as int]@);
        if !map.names(id.as_str()) && !holds_text(&out, id.as_str()) {
            out.push(id.clone());
            assert(out.deep_view() =~= before.push(id@));
        }
        i = i + 1;
    }
    out
}

/// The host's names of the turns, where an earlier rollout is known too.
pub fn host_turn_id_map_with_prior(
    turns: &Vec<TurnRecord>,
    events: &Vec<EventRecord>,
    prior: &Vec<RolloutItem>,
    current_host_turn_id: Option<&str>,
    current_lhc_turn_id: Option<&str>,
) -> (r: HostTurnIds)
    ensures
        r@ == turn_names(
            turns.deep_view(),
            events.deep_view(),
            prior.deep_view(),
            current_host_turn_id.deep_view(),
            current_lhc_turn_id.deep_view(),
        ),
{
    let ghost view = events.deep_view();
    let ghost turn_view = turns.deep_view();
    let mut map = HostTurnIds { pairs: Vec::new() };
    assert(map@ =~= Seq::<TurnIdPairView>::empty());
    let mut i: usize = 0;
    while i < events.len()
        invariant
            i <= events.len(),
            view == events.deep_view(),
            turn_view == turns.deep_view(),
            map@ == named_by_events(turn_view, view, i as int),
        decreases events.len() - i,
    {
        let event = &events[i];
        assert(view[i as int] == event@);
        if event.kind == EventKind::TurnEnd {
            if let Some(host) = parse_host_turn_id_from_turn_end_key(
                event.idempotency_key.as_str(),
            ) {
                if let Some(lhc) = find_closed_at(turns, event.event_order) {
                    if !map.takes(host.as_str()) && !map.names(lhc.as_str()) {
                        map.name(lhc.as_str(), host.as_str());
                    }
                }
            }
        }
        i = i + 1;
    }
    if let Some(host) = current_host_turn_id {
        if let Some(lhc) = current_lhc_turn_id {
            if !map.takes(host) && !map.names(lhc) && holds_turn_id(turns, lhc) {
                map.name(lhc, host);
            }
        }
    }
    let ghost proven = map@;
    let left = find_unnamed(&map, turns);
    let free = find_free_starts(&map, prior);
    if left.len() == free.len() {
        let ghost lhc_view = left.deep_view();
        let ghost host_view = free.deep_view();
        let mut k: usize = 0;
        assert(proven + laid(lhc_view, host_view).take(0) =~= proven);
        while k < left.len()
            invariant
                k <= left.len(),
                left.len() == free.len(),
                lhc_view == left.deep_view(),
                host_view == free.deep_view(),
                map@ == proven + laid(lhc_view, host_view).take(k as int),
            decreases left.len() - k,
        {
            map.name(left[k].as_str(), free[k].as_str());
            assert(laid(lhc_view, host_view).take(k + 1) =~= laid(lhc_view, host_view).take(
                k as int,
            ).push(TurnIdPairView { lhc: lhc_view[k as int], host: host_view[k as int] }));
            k = k + 1;
            assert(map@ =~= proven + laid(lhc_view, host_view).take(k as int));
        }
        assert(laid(lhc_view, host_view).take(k as int) =~= laid(lhc_view, host_view));
    }
    map
}

/// The host's names of the turns: by the events that closed them, and of the
/// turn that is live. Nothing is laid against an earlier rollout.
pub fn host_turn_id_map(
    turns: &Vec<TurnRecord>,
    events: &Vec<EventRecord>,
    current_host_turn_id: Option<&str>,
    current_lhc_turn_id: Option<&str>,
) -> (r: HostTurnIds)
    ensures
        r@ == named_live(
            named_by_events(turns.deep_view(), events.deep_view(), events.len() as int),
            turns.deep_view(),
            current_host_turn_id.deep_view(),
            current_lhc_turn_id.deep_view(),
        ),
{
    let prior: Vec<RolloutItem> = Vec::new();
    let r = host_turn_id_map_with_prior(
        turns,
        events,
        &prior,
        current_host_turn_id,
        current_lhc_turn_id,
    );
    proof {
        let proven = named_live(
            named_by_events(turns.deep_view(), events.deep_view(), events.len() as int),
            turns.deep_view(),
            current_host_turn_id.deep_view(),
            current_lhc_turn_id.deep_view(),
        );
        without_prior_nothing_is_laid(proven, turns.deep_view());
        assert(prior.deep_view() =~= Seq::<RolloutItemView>::empty());
    }
    r
}

/// The name under which a turn is shown.
pub open spec fn shown_name(map: Seq<TurnIdPairView>, lhc: Seq<char>) -> Seq<char> {
    match host_of(map, lhc) {
        Some(host) => host,
        None => lhc,
    }
}

/// The name under which a turn is shown: the host's, where it is known.
pub fn display_turn_id(lhc_turn_id: &str, map: &HostTurnIds) -> (r: String)
    ensures
        r@ == shown_name(map@, lhc_turn_id@),
{
    match map.get(lhc_turn_id) {
        Some(host) => host.clone(),
        None => text(lhc_turn_id),
    }
}

// ---------------------------------------------------------------------------
// Laws
// ---------------------------------------------------------------------------

/// Without an earlier rollout only what is proven has a name.
pub proof fn without_prior_nothing_is_laid(map: Seq<TurnIdPairView>, turns: Seq<TurnRecordView>)
    ensures
        named_by_position(map, turns, Seq::empty()) == map,
{
    let lhc = unnamed_turns(map, turns, turns.len() as int);
    let hosts = free_starts(map, Seq::empty(), 0);
    if lhc.len() == hosts.len() {
        assert(map + laid(lhc, hosts) =~= map);
    }
}

/// No turn has two names, and no name belongs to two turns.
pub open spec fn is_one_to_one(map: Seq<TurnIdPairView>) -> bool {
    forall|i: int, j: int|
        0 <= i < j < map.len() ==> (#[trigger] map[i]).lhc != (#[trigger] map[j]).lhc && map[i].host
            != map[j].host
}

proof fn lemma_host_of(map: Seq<TurnIdPairView>, lhc: Seq<char>)
    ensures
        host_of(map, lhc) matches Some(host) ==> exists|k: int|
            0 <= k < map.len() && (#[trigger] map[k]).lhc == lhc && map[k].host == host,
    decreases map.len(),
{
    if map.len() > 0 {
        if map.last().lhc == lhc {
            assert(map[map.len() - 1].lhc == lhc);
        } else {
            lemma_host_of(map.drop_last(), lhc);
            if let Some(host) = host_of(map.drop_last(), lhc) {
                let k = choose|k: int|
                    0 <= k < map.drop_last().len() && (#[trigger] map.drop_last()[k]).lhc == lhc
                        && map.drop_last()[k].host == host;
                assert(map[k].lhc == lhc && map[k].host == host);
            }
        }
    }
}

/// Different turns are shown under different names, where the names are one to
/// one and no host's name is the store's name of one of the turns.
pub proof fn shown_names_differ(map: Seq<TurnIdPairView>, a: Seq<char>, b: Seq<char>)
    requires
        is_one_to_one(map),
        !is_taken(map, a),
        !is_taken(map, b),
        a != b,
    ensures
        shown_name(map, a) != shown_name(map, b),
{
    lemma_host_of(map, a);
    lemma_host_of(map, b);
    if host_of(map, a) is Some && host_of(map, b) is Some {
        let i = choose|i: int|
            0 <= i < map.len() && (#[trigger] map[i]).lhc == a && map[i].host == host_of(map, a)->0;
        let j = choose|j: int|
            0 <= j < map.len() && (#[trigger] map[j]).lhc == b && map[j].host == host_of(map, b)->0;
        if i < j {
            assert(map[i].host != map[j].host);
        } else {
            assert(map[j].host != map[i].host);
        }
    }
}

proof fn lemma_events_one_to_one(
    turns: Seq<TurnRecordView>,
    events: Seq<EventRecordView>,
    n: int,
)
    ensures
        is_one_to_one(named_by_events(turns, events, n)),
    decreases n,
{
    if n > 0 {
        lemma_events_one_to_one(turns, events, n - 1);
    }
}

proof fn lemma_free_starts(map: Seq<TurnIdPairView>, prior: Seq<RolloutItemView>, n: int)
    ensures
        free_starts(map, prior, n).no_duplicates(),
        forall|k: int|
            0 <= k < free_starts(map, prior, n).len() ==> !is_taken(
                map,
                #[trigger] free_starts(map, prior, n)[k],
            ),
    decreases n,
{
    if n > 0 {
        lemma_free_starts(map, prior, n - 1);
        let before = free_starts(map, prior, n - 1);
        let after = free_starts(map, prior, n);
        assert forall|i: int, j: int|
            0 <= i < after.len() && 0 <= j < after.len() && i != j implies after[i]
            != after[j] by {
            if i < before.len() {
                assert(before.contains(before[i]));
            }
            if j < before.len() {
                assert(before.contains(before[j]));
            }
        }
        assert forall|k: int| 0 <= k < after.len() implies !is_taken(map, #[trigger] after[k]) by {
            if k < before.len() {
                assert(after[k] == before[k]);
            }
        }
    }
}

proof fn lemma_unnamed(map: Seq<TurnIdPairView>, turns: Seq<TurnRecordView>, n: int)
    ensures
        unnamed_turns(map, turns, n).no_duplicates(),
        forall|k: int|
            0 <= k < unnamed_turns(map, turns, n).len() ==> !is_named(
                map,
                #[trigger] unnamed_turns(map, turns, n)[k],
            ),
    decreases n,
{
    if n > 0 {
        lemma_unnamed(map, turns, n - 1);
        let before = unnamed_turns(map, turns, n - 1);
        let after = unnamed_turns(map, turns, n);
        assert forall|i: int, j: int|
            0 <= i < after.len() && 0 <= j < after.len() && i != j implies after[i]
            != after[j] by {
            if i < before.len() {
                assert(before.contains(before[i]));
            }
            if j < before.len() {
                assert(before.contains(before[j]));
            }
        }
        assert forall|k: int| 0 <= k < after.len() implies !is_named(map, #[trigger] after[k]) by {
            if k < before.len() {
                assert(after[k] == before[k]);
            }
        }
    }
}

/// Names are given one to one: no turn gets two, and none is used twice.
pub proof fn names_are_one_to_one(
    turns: Seq<TurnRecordView>,
    events: Seq<EventRecordView>,
    prior: Seq<RolloutItemView>,
    host: Option<Seq<char>>,
    lhc: Option<Seq<char>>,
)
    ensures
        is_one_to_one(turn_names(turns, events, prior, host, lhc)),
        is_one_to_one(
            named_live(named_by_events(turns, events, events.len() as int), turns, host, lhc),
        ),
{
    lemma_events_one_to_one(turns, events, events.len() as int);
    let keyed = named_by_events(turns, events, events.len() as int);
    let proven = named_live(keyed, turns, host, lhc);
    assert(is_one_to_one(proven));
    let left = unnamed_turns(proven, turns, turns.len() as int);
    let free = free_starts(proven, prior, prior.len() as int);
    lemma_unnamed(proven, turns, turns.len() as int);
    lemma_free_starts(proven, prior, prior.len() as int);
    if left.len() == free.len() {
        let all = proven + laid(left, free);
        assert forall|i: int, j: int| 0 <= i < j < all.len() implies (#[trigger] all[i]).lhc != (
        #[trigger] all[j]).lhc && all[i].host != all[j].host by {
            let n = proven.len();
            if j < n {
                assert(all[i] == proven[i] && all[j] == proven[j]);
            } else {
                assert(all[j] == laid(left, free)[j - n]);
                assert(!is_named(proven, left[j - n]));
                assert(!is_taken(proven, free[j - n]));
                if i < n {
                    assert(all[i] == proven[i]);
                } else {
                    assert(all[i] == laid(left, free)[i - n]);
                    assert(left[i - n] != left[j - n]);
                    assert(free[i - n] != free[j - n]);
                }
            }
        }
    }
}

/// An event that closed no turn names nothing.
pub proof fn inert_end_names_nothing(
    map: Seq<TurnIdPairView>,
    turns: Seq<TurnRecordView>,
    event: EventRecordView,
)
    requires
        turn_closed_at(turns, event.event_order, 0) is None,
    ensures
        named_by_event(map, turns, event) == map,
{
}

/// A name with `:` taken back and `%` still escaped.
spec fn half_escaped(s: Seq<char>) -> Seq<char>
    decreases s.len(),
{
    if s.len() == 0 {
        Seq::empty()
    } else if s[0] == '%' {
        seq!['%', '2', '5'] + half_escaped(s.drop_first())
    } else {
        seq![s[0]] + half_escaped(s.drop_first())
    }
}

proof fn lemma_first_pass(s: Seq<char>)
    ensures
        replaced(key_escaped(s), '%', '3', 'A', ':') == half_escaped(s),
    decreases s.len(),
{
    let e = key_escaped(s);
    if s.len() > 0 {
        lemma_key_escaped_first(s);
        let t = s.drop_first();
        lemma_first_pass(t);
        let rest = key_escaped(t);
        if s[0] == '%' {
            assert(e =~= seq!['%', '2', '5'] + rest);
            assert(e.skip(1) =~= seq!['2', '5'] + rest);
            assert(e.skip(1).skip(1) =~= seq!['5'] + rest);
            assert(e.skip(1).skip(1).skip(1) =~= rest);
            reveal_with_fuel(replaced, 4);
            assert(replaced(e, '%', '3', 'A', ':') =~= seq!['%', '2', '5'] + replaced(
                rest,
                '%',
                '3',
                'A',
                ':',
            ));
        } else if s[0] == ':' {
            assert(e =~= seq!['%', '3', 'A'] + rest);
            assert(e.skip(3) =~= rest);
        } else {
            assert(e =~= seq![s[0]] + rest);
            assert(e.skip(1) =~= rest);
        }
    }
}

proof fn lemma_second_pass(s: Seq<char>)
    ensures
        replaced(half_escaped(s), '%', '2', '5', '%') == s,
    decreases s.len(),
{
    let h = half_escaped(s);
    if s.len() > 0 {
        let t = s.drop_first();
        lemma_second_pass(t);
        if s[0] == '%' {
            assert(h =~= seq!['%', '2', '5'] + half_escaped(t));
            assert(h.skip(3) =~= half_escaped(t));
        } else {
            assert(h =~= seq![s[0]] + half_escaped(t));
            assert(h.skip(1) =~= half_escaped(t));
        }
        assert(seq![s[0]] + t =~= s);
    }
}

/// A name that was put into a key is read back.
pub proof fn name_reads_back(s: Seq<char>)
    ensures
        unescaped_name(key_escaped(s)) == s,
{
    lemma_first_pass(s);
    lemma_second_pass(s);
}

proof fn lemma_pieces_step(s: Seq<char>, from: int, a: Seq<char>)
    requires
        0 <= from,
        from + a.len() < s.len(),
        s.subrange(from, from + a.len()) == a,
        s[from + a.len()] == ':',
        !a.contains(':'),
    ensures
        pieces_from(s, ':', from) == seq![a] + pieces_from(s, ':', from + a.len() + 1),
{
    assert forall|j: int| from <= j < from + a.len() implies s[j] != ':' by {
        assert(a[j - from] == s[j]);
        assert(a.contains(a[j - from]));
    }
    lemma_first_from_unique(s, ':', from, from + a.len());
}

/// Four fields that hold no `:` are found again.
proof fn lemma_four_fields(a: Seq<char>, b: Seq<char>, c: Seq<char>, d: Seq<char>)
    requires
        !a.contains(':'),
        !b.contains(':'),
        !c.contains(':'),
        !d.contains(':'),
    ensures
        pieces(a + seq![':'] + b + seq![':'] + c + seq![':'] + d, ':') == seq![a, b, c, d],
{
    let s = a + seq![':'] + b + seq![':'] + c + seq![':'] + d;
    let p1 = a.len() as int;
    let p2 = p1 + 1 + b.len();
    let p3 = p2 + 1 + c.len();
    assert(s.subrange(0, p1) =~= a);
    assert(s.subrange(p1 + 1, p2) =~= b);
    assert(s.subrange(p2 + 1, p3) =~= c);
    assert(s.subrange(p3 + 1, s.len() as int) =~= d);
    lemma_pieces_step(s, 0, a);
    lemma_pieces_step(s, p1 + 1, b);
    lemma_pieces_step(s, p2 + 1, c);
    assert forall|j: int| p3 + 1 <= j < s.len() implies s[j] != ':' by {
        assert(d[j - p3 - 1] == s[j]);
        assert(d.contains(d[j - p3 - 1]));
    }
    lemma_first_from_unique(s, ':', p3 + 1, s.len() as int);
    assert(pieces_from(s, ':', p3 + 1) =~= seq![d]);
    assert(pieces(s, ':') =~= seq![a, b, c, d]);
}

/// The key of the end of a turn in its fields.
proof fn lemma_turn_key_fields(thread_id: Seq<char>, turn_id: Seq<char>, reason: Seq<char>)
    ensures
        after_prefix(turn_key(thread_id, turn_id, reason), "codex:"@) == Some(
            key_escaped(thread_id) + seq![':'] + "turn_end"@ + seq![':'] + key_escaped(turn_id)
                + seq![':'] + reason,
        ),
        !"turn_end"@.contains(':'),
{
    let key = turn_key(thread_id, turn_id, reason);
    reveal_strlit("codex:");
    reveal_strlit(":turn_end:");
    reveal_strlit("turn_end");
    reveal_strlit(":");
    let rest = key_escaped(thread_id) + seq![':'] + "turn_end"@ + seq![':'] + key_escaped(turn_id)
        + seq![':'] + reason;
    assert(":turn_end:"@ =~= seq![':'] + "turn_end"@ + seq![':']);
    assert(":"@ =~= seq![':']);
    assert(key =~= "codex:"@ + rest);
    assert(key.subrange(0, 6) =~= "codex:"@);
    assert(key.subrange(6, key.len() as int) =~= rest);
    assert("turn_end"@ =~= seq!['t', 'u', 'r', 'n', '_', 'e', 'n', 'd']);
}

/// The key of the end of a turn gives the host's name of the turn back, unless
/// that name is a number that the store gives.
pub proof fn turn_end_key_holds_the_name(
    thread_id: Seq<char>,
    turn_id: Seq<char>,
    reason: Seq<char>,
)
    requires
        turn_id.len() > 0,
        !is_store_name(turn_id),
        reason.len() > 0,
        !reason.contains(':'),
    ensures
        turn_of_end_key(turn_key(thread_id, turn_id, reason)) == Some(turn_id),
{
    lemma_turn_key_fields(thread_id, turn_id, reason);
    key_escaped_has_no_separator(thread_id);
    key_escaped_has_no_separator(turn_id);
    lemma_four_fields(key_escaped(thread_id), "turn_end"@, key_escaped(turn_id), reason);
    name_reads_back(turn_id);
}

} // verus!
