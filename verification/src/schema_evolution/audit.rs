//! The record of conversions.

use vstd::prelude::*;
use vstd::string::*;
use crate::clock::Timestamp;
use crate::crd::control_plane_health::{copy_opt, opt_view};
use crate::text::same;

verus! {

/// A conversion that was carried out.
#[derive(Clone, Debug)]
pub struct ConversionAuditEvent {
    pub crd_kind: String,
    pub resource_name: String,
    pub namespace: String,
    pub from_version: String,
    pub to_version: String,
    pub success: bool,
    pub error_message: Option<String>,
    pub timestamp: Timestamp,
    /// What the converted object says.
    pub spec_hash: String,
}

/// A conversion that was carried out, as a value.
pub ghost struct Conversion {
    pub crd_kind: Seq<char>,
    pub resource_name: Seq<char>,
    pub namespace: Seq<char>,
    pub from_version: Seq<char>,
    pub to_version: Seq<char>,
    pub success: bool,
    pub error_message: Option<Seq<char>>,
    pub timestamp: Timestamp,
    pub spec_hash: Seq<char>,
}

impl View for ConversionAuditEvent {
    type V = Conversion;

    open spec fn view(&self) -> Conversion {
        Conversion {
            crd_kind: self.crd_kind@,
            resource_name: self.resource_name@,
            namespace: self.namespace@,
            from_version: self.from_version@,
            to_version: self.to_version@,
            success: self.success,
            error_message: opt_view(self.error_message),
            timestamp: self.timestamp,
            spec_hash: self.spec_hash@,
        }
    }
}

impl ConversionAuditEvent {
    /// A copy of the event.
    pub fn copy(&self) -> (r: ConversionAuditEvent)
        ensures
            r@ == self@,
    {
        ConversionAuditEvent {
            crd_kind: self.crd_kind.clone(),
            resource_name: self.resource_name.clone(),
            namespace: self.namespace.clone(),
            from_version: self.from_version.clone(),
            to_version: self.to_version.clone(),
            success: self.success,
            error_message: copy_opt(&self.error_message),
            timestamp: self.timestamp,
            spec_hash: self.spec_hash.clone(),
        }
    }
}

/// The events, as values.
pub open spec fn conversions(v: Seq<ConversionAuditEvent>) -> Seq<Conversion> {
    Seq::new(v.len(), |i: int| v[i]@)
}

/// The last `n` of the events.
pub open spec fn newest(s: Seq<Conversion>, n: int) -> Seq<Conversion> {
    if s.len() <= n {
        s
    } else {
        s.subrange(s.len() - n, s.len() as int)
    }
}

/// Those of the first `n` events that are of a kind.
pub open spec fn of_kind(s: Seq<Conversion>, kind: Seq<char>, n: int) -> Seq<Conversion>
    decreases n,
{
    if n <= 0 {
        Seq::empty()
    } else if s[n - 1].crd_kind == kind {
        of_kind(s, kind, n - 1).push(s[n - 1])
    } else {
        of_kind(s, kind, n - 1)
    }
}

/// The last conversions, oldest first, never more than the capacity.
#[derive(Debug)]
pub struct ConversionAuditRingBuffer {
    capacity: usize,
    events: Vec<ConversionAuditEvent>,
}

impl ConversionAuditRingBuffer {
    #[verifier::type_invariant]
    spec fn bounded(self) -> bool {
        self.events@.len() <= self.capacity
    }

    pub closed spec fn room(self) -> int {
        self.capacity as int
    }

    pub closed spec fn kept(self) -> Seq<Conversion> {
        conversions(self.events@)
    }

    pub fn new(capacity: usize) -> (r: Self)
        ensures
            r.room() == capacity,
            r.kept() == Seq::<Conversion>::empty(),
    {
        let r = ConversionAuditRingBuffer { capacity, events: Vec::new() };
        assert(conversions(r.events@) =~= Seq::<Conversion>::empty());
        r
    }

    /// Records a conversion; the oldest makes room where there is none left.
    pub fn record(&mut self, event: ConversionAuditEvent)
        ensures
            final(self).room() == old(self).room(),
            final(self).kept() == newest(old(self).kept().push(event@), old(self).room()),
            final(self).kept().len() <= final(self).room(),
    {
        proof {
            use_type_invariant(&*self);
        }
        let ghost before = self.events@;
        let mut events: Vec<ConversionAuditEvent> = Vec::new();
        std::mem::swap(&mut events, &mut self.events);
        events.push(event);
        assert(conversions(events@) =~= conversions(before).push(event@));
        if events.len() > self.capacity {
            let ghost all = events@;
            events.remove(0);
            assert(conversions(events@) =~= newest(conversions(all), self.capacity as int));
        }
        self.events = events;
    }

    /// All conversions on record.
    pub fn get_events(&self) -> (r: Vec<ConversionAuditEvent>)
        ensures
            conversions(r@) == self.kept(),
            r@.len() <= self.room(),
    {
        proof {
            use_type_invariant(self);
        }
        let mut r: Vec<ConversionAuditEvent> = Vec::new();
        let mut i: usize = 0;
        while i < self.events.len()
            invariant
                i <= self.events.len(),
                conversions(r@) == conversions(self.events@).subrange(0, i as int),
            decreases self.events@.len() - i,
        {
            let ghost before = conversions(r@);
            r.push(self.events[i].copy());
            assert(conversions(r@) =~= before.push(self.events@[i as int]@));
            i = i + 1;
            assert(conversions(r@) =~= conversions(self.events@).subrange(0, i as int));
        }
        assert(conversions(r@) =~= self.kept());
        assert(conversions(r@).len() == r@.len());
        r
    }

    /// The conversions of a kind of resource.
    pub fn get_events_for_kind(&self, crd_kind: &str) -> (r: Vec<ConversionAuditEvent>)
        ensures
            conversions(r@) == of_kind(self.kept(), crd_kind@, self.kept().len() as int),
    {
        let ghost all = conversions(self.events@);
        let mut r: Vec<ConversionAuditEvent> = Vec::new();
        assert(conversions(r@) =~= of_kind(all, crd_kind@, 0));
        let mut i: usize = 0;
        while i < self.events.len()
            invariant
                i <= self.events.len(),
                all == conversions(self.events@),
                conversions(r@) == of_kind(all, crd_kind@, i as int),
            decreases self.events@.len() - i,
        {
            if same(&self.events[i].crd_kind, crd_kind) {
                let ghost before = conversions(r@);
                r.push(self.events[i].copy());
                assert(conversions(r@) =~= before.push(all[i as int]));
            }
            i = i + 1;
        }
        r
    }
}

/// The newest conversion is always on record, as long as there is room for one,
/// and what was on record before keeps its order.
pub proof fn law_newest_is_on_record(kept: Seq<Conversion>, c: Conversion, room: int)
    requires
        0 < room,
        kept.len() <= room,
    ensures
        newest(kept.push(c), room).last() == c,
        newest(kept.push(c), room).len() <= room,
        newest(kept.push(c), room).drop_last() == (if kept.len() < room {
            kept
        } else {
            kept.drop_first()
        }),
{
    let after = newest(kept.push(c), room);
    if kept.len() < room {
        assert(after.drop_last() =~= kept);
    } else {
        assert(after.drop_last() =~= kept.drop_first());
    }
}

/// The events of a kind are just those on record that are of it.
pub proof fn law_events_are_found_by_kind(s: Seq<Conversion>, kind: Seq<char>, n: int, c: Conversion)
    requires
        0 <= n <= s.len(),
    ensures
        of_kind(s, kind, n).contains(c) <==> c.crd_kind == kind && exists|i: int|
            0 <= i < n && #[trigger] s[i] == c,
    decreases n,
{
    if n > 0 {
        law_events_are_found_by_kind(s, kind, n - 1, c);
        let before = of_kind(s, kind, n - 1);
        let after = of_kind(s, kind, n);
        if before.contains(c) {
            let i = choose|i: int| 0 <= i < before.len() && before[i] == c;
            assert(after[i] == c);
        }
        if s[n - 1].crd_kind == kind {
            assert(after[before.len() as int] == s[n - 1]);
            if after.contains(c) && !before.contains(c) {
                let i = choose|i: int| 0 <= i < after.len() && after[i] == c;
                if i < before.len() {
                    assert(before[i] == c);
                }
            }
        }
    }
}

} // verus!
