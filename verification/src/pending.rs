//! Tool calls that are being streamed, keyed by their index in the response.

use vstd::prelude::*;

use crate::text::owned;
use crate::types::{EventV, StreamEvent, events_v};

verus! {

/// The mathematical content of a tool call in flight.
pub struct SlotV {
    pub index: u32,
    pub id: Option<Seq<char>>,
    pub name: Option<Seq<char>>,
    pub arguments: Seq<char>,
    pub finished: bool,
}

/// A tool call in flight: what has arrived of it so far.
pub struct ToolSlot {
    pub index: u32,
    pub id: Option<String>,
    pub name: Option<String>,
    pub arguments: String,
    pub finished: bool,
}

impl View for ToolSlot {
    type V = SlotV;

    open spec fn view(&self) -> SlotV {
        SlotV {
            index: self.index,
            id: self.id.deep_view(),
            name: self.name.deep_view(),
            arguments: self.arguments@,
            finished: self.finished,
        }
    }
}

/// The slot that a first mention of `index` creates.
pub open spec fn default_slot(index: u32) -> SlotV {
    SlotV { index, id: None, name: None, arguments: seq![], finished: false }
}

/// Slots in strictly increasing index order: no index occurs twice.
pub open spec fn sorted_slots(t: Seq<SlotV>) -> bool {
    forall|i: int, j: int| 0 <= i < j < t.len() ==> t[i].index < t[j].index
}

/// The slot for `index`.
pub open spec fn slot_at(t: Seq<SlotV>, index: u32) -> Option<SlotV>
    decreases t.len(),
{
    if t.len() == 0 {
        None
    } else if t[0].index == index {
        Some(t[0])
    } else {
        slot_at(t.drop_first(), index)
    }
}

/// The slot for `index`, or the one a first mention creates.
pub open spec fn slot_or_default(t: Seq<SlotV>, index: u32) -> SlotV {
    match slot_at(t, index) {
        Some(s) => s,
        None => default_slot(index),
    }
}

/// The table with `s` stored under its index, in index order.
pub open spec fn set_slot(t: Seq<SlotV>, s: SlotV) -> Seq<SlotV>
    decreases t.len(),
{
    if t.len() == 0 {
        seq![s]
    } else if t[0].index == s.index {
        seq![s] + t.drop_first()
    } else if t[0].index > s.index {
        seq![s] + t
    } else {
        seq![t[0]] + set_slot(t.drop_first(), s)
    }
}

/// A text, or the empty text when absent.
pub open spec fn text_or_empty(t: Option<Seq<char>>) -> Seq<char> {
    match t {
        Some(x) => x,
        None => seq![],
    }
}

/// The event that finishing a slot gives: none when it was finished already or never
/// received an id, a name or arguments.
pub open spec fn finish_event(s: SlotV) -> Seq<EventV> {
    let id = text_or_empty(s.id);
    let name = text_or_empty(s.name);
    if s.finished || (id.len() == 0 && name.len() == 0 && s.arguments.len() == 0) {
        seq![]
    } else {
        seq![
            EventV::ToolFinished {
                id,
                name,
                arguments: s.arguments,
                index: Some(s.index),
            },
        ]
    }
}

/// The events of finishing every slot, in index order.
pub open spec fn finish_events(t: Seq<SlotV>) -> Seq<EventV>
    decreases t.len(),
{
    if t.len() == 0 {
        seq![]
    } else {
        finish_events(t.drop_last()) + finish_event(t.last())
    }
}

/// The slot marked finished.
pub open spec fn mark_finished(s: SlotV) -> SlotV {
    SlotV { finished: true, ..s }
}

/// The slot for `index` marked finished.
pub open spec fn mark_slot(t: Seq<SlotV>, index: u32) -> Seq<SlotV> {
    t.map_values(|s: SlotV| if s.index == index { mark_finished(s) } else { s })
}

/// The events of finishing the slot for `index`, if there is one.
pub open spec fn finish_at_events(t: Seq<SlotV>, index: u32) -> Seq<EventV> {
    match slot_at(t, index) {
        Some(s) => finish_event(s),
        None => seq![],
    }
}

/// Every slot marked finished.
pub open spec fn mark_all(t: Seq<SlotV>) -> Seq<SlotV> {
    t.map_values(|s: SlotV| mark_finished(s))
}

proof fn lemma_set_slot_shape(t: Seq<SlotV>, s: SlotV, p: int)
    requires
        0 <= p <= t.len(),
        forall|k: int| 0 <= k < p ==> t[k].index < s.index,
        p < t.len() ==> t[p].index >= s.index,
    ensures
        p < t.len() && t[p].index == s.index ==> set_slot(t, s) == t.take(p) + seq![s] + t.skip(
            p + 1,
        ),
        !(p < t.len() && t[p].index == s.index) ==> set_slot(t, s) == t.take(p) + seq![s]
            + t.skip(p),
    decreases t.len(),
{
    if t.len() == 0 {
        assert(t.take(0) + seq![s] + t.skip(0) == seq![s]);
    } else if p == 0 {
        assert(t.take(0) + seq![s] + t.skip(1) == seq![s] + t.drop_first());
        assert(t.take(0) + seq![s] + t.skip(0) == seq![s] + t);
    } else {
        let r = t.drop_first();
        assert forall|k: int| 0 <= k < p - 1 implies r[k].index < s.index by {
            assert(r[k] == t[k + 1]);
        }
        lemma_set_slot_shape(r, s, p - 1);
        assert(t.take(p) == seq![t[0]] + r.take(p - 1));
        assert(t.skip(p) == r.skip(p - 1));
        if p < t.len() {
            assert(t.skip(p + 1) == r.skip(p));
        }
    }
}

proof fn lemma_slot_at_skip(t: Seq<SlotV>, i: int, index: u32)
    requires
        0 <= i < t.len(),
        t[i].index != index,
    ensures
        slot_at(t.skip(i), index) == slot_at(t.skip(i + 1), index),
{
    assert(t.skip(i).drop_first() == t.skip(i + 1));
}

/// The tool calls in flight, stored in index order.
pub struct ToolTable {
    slots: Vec<ToolSlot>,
}

impl View for ToolTable {
    type V = Seq<SlotV>;

    closed spec fn view(&self) -> Seq<SlotV> {
        self.slots@.map_values(|s: ToolSlot| s@)
    }
}

impl ToolTable {
    #[verifier::type_invariant]
    spec fn well_ordered(&self) -> bool {
        sorted_slots(self@)
    }

    /// An empty table.
    pub fn new() -> (t: Self)
        ensures
            t@ == Seq::<SlotV>::empty(),
    {
        let t = ToolTable { slots: Vec::new() };
        assert(t@ =~= Seq::<SlotV>::empty());
        t
    }

    /// The number of slots.
    pub fn len(&self) -> (n: usize)
        ensures
            n == self@.len(),
    {
        self.slots.len()
    }

    /// The slot at position `i` in index order.
    pub fn slot(&self, i: usize) -> (s: &ToolSlot)
        requires
            i < self@.len(),
        ensures
            s@ == self@[i as int],
    {
        &self.slots[i]
    }

    /// The slot for `index`.
    pub fn get(&self, index: u32) -> (r: Option<&ToolSlot>)
        ensures
            match r {
                Some(s) => slot_at(self@, index) == Some(s@),
                None => slot_at(self@, index) is None,
            },
    {
        let ghost t = self@;
        let mut i: usize = 0;
        assert(t.skip(0) == t);
        while i < self.slots.len()
            invariant
                0 <= i <= self.slots@.len(),
                t == self@,
                t.len() == self.slots@.len(),
                slot_at(t, index) == slot_at(t.skip(i as int), index),
            decreases self.slots.len() - i,
        {
            assert(t[i as int] == self.slots@[i as int]@);
            if self.slots[i].index == index {
                assert(t.skip(i as int)[0] == t[i as int]);
                return Some(&self.slots[i]);
            }
            proof {
                lemma_slot_at_skip(t, i as int, index);
            }
            i = i + 1;
        }
        None
    }

    /// Store `s` under its index, replacing the slot there.
    pub fn put(&mut self, s: ToolSlot)
        ensures
            final(self)@ == set_slot(old(self)@, s@),
    {
        proof {
            use_type_invariant(&*self);
        }
        let ghost t = self@;
        let ghost sv = s@;
        let mut p: usize = 0;
        while p < self.slots.len() && self.slots[p].index < s.index
            invariant
                0 <= p <= self.slots@.len(),
                t == self@,
                t.len() == self.slots@.len(),
                sv == s@,
                forall|k: int| 0 <= k < p ==> t[k].index < sv.index,
            decreases self.slots.len() - p,
        {
            assert(t[p as int] == self.slots@[p as int]@);
            p = p + 1;
        }
        if p < self.slots.len() {
            assert(t[p as int] == self.slots@[p as int]@);
        }
        proof {
            lemma_set_slot_shape(t, sv, p as int);
        }
        let replace = p < self.slots.len() && self.slots[p].index == s.index;
        let ghost target = set_slot(t, sv);
        assert(sorted_slots(target)) by {
            assert forall|i: int, j: int| 0 <= i < j < target.len() implies target[i].index
                < target[j].index by {
                if replace {
                    assert(target == t.take(p as int) + seq![sv] + t.skip(p + 1));
                    if i < p && j < p {
                    } else if i < p && j == p {
                    } else if i < p {
                        assert(target[j] == t[j]);
                    } else if i == p {
                        assert(target[j] == t[j]);
                        assert(t[p as int].index == sv.index);
                    } else {
                        assert(target[i] == t[i] && target[j] == t[j]);
                    }
                } else {
                    assert(target == t.take(p as int) + seq![sv] + t.skip(p as int));
                    if i < p && j < p {
                    } else if i < p && j == p {
                    } else if i < p {
                        assert(target[j] == t[j - 1]);
                    } else if i == p {
                        assert(target[j] == t[j - 1]);
                    } else {
                        assert(target[i] == t[i - 1] && target[j] == t[j - 1]);
                    }
                }
            }
        }
        let mut slots = Vec::new();
        std::mem::swap(&mut slots, &mut self.slots);
        let ghost before = slots@;
        if replace {
            slots.set(p, s);
            assert(slots@.map_values(|x: ToolSlot| x@) == target);
        } else {
            slots.insert(p, s);
            assert(slots@.map_values(|x: ToolSlot| x@) == target);
        }
        self.slots = slots;
    }

    /// Remove every slot.
    pub fn clear(&mut self)
        ensures
            final(self)@ == Seq::<SlotV>::empty(),
    {
        self.slots = Vec::new();
        assert(self@ =~= Seq::<SlotV>::empty());
    }

    /// Mark the slot at position `i` finished.
    fn mark(&mut self, i: usize)
        requires
            i < old(self)@.len(),
        ensures
            final(self)@ == old(self)@.update(i as int, mark_finished(old(self)@[i as int])),
    {
        proof {
            use_type_invariant(&*self);
        }
        let ghost t = self@;
        let mut slots = Vec::new();
        std::mem::swap(&mut slots, &mut self.slots);
        let mut s = slots.remove(i);
        s.finished = true;
        slots.insert(i, s);
        assert(slots@.map_values(|x: ToolSlot| x@) == t.update(i as int, mark_finished(t[i as int])));
        assert(sorted_slots(slots@.map_values(|x: ToolSlot| x@)));
        self.slots = slots;
    }

    /// Finish the slot for `index`: its event, if it was not finished and is not empty;
    /// the slot is then marked finished.
    pub fn finish_at(&mut self, index: u32) -> (events: Vec<StreamEvent>)
        ensures
            events_v(events@) == finish_at_events(old(self)@, index),
            final(self)@ == mark_slot(old(self)@, index),
    {
        proof {
            use_type_invariant(&*self);
        }
        let ghost t = self@;
        let mut events: Vec<StreamEvent> = Vec::new();
        let mut i: usize = 0;
        assert(t.skip(0) == t);
        while i < self.slots.len()
            invariant
                0 <= i <= self.slots@.len(),
                t == self@,
                t == old(self)@,
                events@ == Seq::<StreamEvent>::empty(),
                t.len() == self.slots@.len(),
                sorted_slots(t),
                slot_at(t, index) == slot_at(t.skip(i as int), index),
                forall|k: int| 0 <= k < i ==> t[k].index != index,
            decreases self.slots.len() - i,
        {
            assert(t[i as int] == self.slots@[i as int]@);
            if self.slots[i].index == index {
                assert(t.skip(i as int)[0] == t[i as int]);
                push_finish_event(&mut events, &self.slots[i]);
                assert(events_v(Seq::<StreamEvent>::empty()) =~= Seq::<EventV>::empty());
                self.mark(i);
                assert(self@ =~= mark_slot(t, index));
                return events;
            }
            proof {
                lemma_slot_at_skip(t, i as int, index);
            }
            i = i + 1;
        }
        assert(t.skip(i as int) =~= Seq::<SlotV>::empty());
        assert(events_v(events@) =~= Seq::<EventV>::empty());
        assert(t =~= mark_slot(t, index));
        events
    }

    /// Finish every slot in index order, then mark all finished.
    pub fn finish_and_mark_all(&mut self) -> (events: Vec<StreamEvent>)
        ensures
            events_v(events@) == finish_events(old(self)@),
            final(self)@ == mark_all(old(self)@),
    {
        let events = finish_all(self);
        let ghost t = self@;
        let mut i: usize = 0;
        while i < self.slots.len()
            invariant
                0 <= i <= self.slots@.len(),
                t == old(self)@,
                self@.len() == self.slots@.len(),
                t.len() == self.slots@.len(),
                forall|k: int| 0 <= k < i ==> self@[k] == mark_finished(t[k]),
                forall|k: int| i <= k < t.len() ==> self@[k] == t[k],
            decreases self.slots.len() - i,
        {
            self.mark(i);
            assert(self.slots@.map_values(|x: ToolSlot| x@).len() == self.slots@.len());
            i = i + 1;
        }
        assert(self@ =~= mark_all(t));
        events
    }
}

fn opt_owned(s: &Option<String>) -> (r: Option<String>)
    ensures
        r.deep_view() == s.deep_view(),
{
    match s {
        Some(x) => Some(owned(x.as_str())),
        None => None,
    }
}

fn text_or_default(s: &Option<String>) -> (r: String)
    ensures
        r@ == text_or_empty(s.deep_view()),
{
    match s {
        Some(x) => owned(x.as_str()),
        None => String::new(),
    }
}

/// The event of finishing one slot, if any, appended to `events`.
pub fn push_finish_event(events: &mut Vec<StreamEvent>, s: &ToolSlot)
    ensures
        events_v(final(events)@) == events_v(old(events)@) + finish_event(s@),
{
    let id = text_or_default(&s.id);
    let name = text_or_default(&s.name);
    if s.finished || (id.as_str().is_empty() && name.as_str().is_empty()
        && s.arguments.as_str().is_empty()) {
        assert(events_v(events@) == events_v(events@) + Seq::<EventV>::empty());
        return;
    }
    let ghost before = events@;
    events.push(
        StreamEvent::ToolCallFinished {
            id,
            name,
            arguments: owned(s.arguments.as_str()),
            index: Some(s.index),
        },
    );
    assert(events_v(events@) == events_v(before) + finish_event(s@));
}

/// The events of finishing every slot, in index order.
pub fn finish_all(table: &ToolTable) -> (events: Vec<StreamEvent>)
    ensures
        events_v(events@) == finish_events(table@),
{
    let mut events: Vec<StreamEvent> = Vec::new();
    let mut i: usize = 0;
    let n = table.len();
    while i < n
        invariant
            0 <= i <= n == table@.len(),
            events_v(events@) == finish_events(table@.take(i as int)),
        decreases n - i,
    {
        proof {
            assert(table@.take(i + 1).drop_last() == table@.take(i as int));
            assert(table@.take(i + 1).last() == table@[i as int]);
        }
        push_finish_event(&mut events, table.slot(i));
        i = i + 1;
    }
    assert(table@.take(n as int) == table@);
    events
}

/// A copy of a slot's id and name, for a delta event.
pub fn slot_names(s: &ToolSlot) -> (r: (Option<String>, Option<String>))
    ensures
        r.0.deep_view() == s.id.deep_view(),
        r.1.deep_view() == s.name.deep_view(),
{
    (opt_owned(&s.id), opt_owned(&s.name))
}

/// An owned copy of the slot for `index`, or the slot a first mention creates.
pub fn take_slot(table: &ToolTable, index: u32) -> (s: ToolSlot)
    ensures
        s@ == slot_or_default(table@, index),
{
    match table.get(index) {
        Some(x) => ToolSlot {
            index: x.index,
            id: opt_owned(&x.id),
            name: opt_owned(&x.name),
            arguments: owned(x.arguments.as_str()),
            finished: x.finished,
        },
        None => ToolSlot {
            index,
            id: None,
            name: None,
            arguments: String::new(),
            finished: false,
        },
    }
}

} // verus!
