//! Lifecycle domain types: lifecycle kinds, states, closure, correlation tiers.

use vstd::prelude::*;
use vstd::string::StrSliceExecFns;

verus! {

#[derive(Debug, Clone, Copy, PartialEq, Eq, Hash, Structural)]
pub enum LifecycleType {
    Payment,
}

/// The characters of `payment.`.
pub open spec fn payment_prefix() -> Seq<char> {
    seq!['p', 'a', 'y', 'm', 'e', 'n', 't', '.']
}

/// The lifecycle an event type belongs to: types starting with `payment.`
/// belong to payments; others to none.
pub open spec fn spec_lifecycle_type_of(event_type: Seq<char>) -> Option<LifecycleType> {
    if event_type.len() >= 8 && event_type.subrange(0, 8) == payment_prefix() {
        Some(LifecycleType::Payment)
    } else {
        None
    }
}

impl LifecycleType {
    /// Maps an event type (`payment.create`, `payment.settle`, ...) to its lifecycle type.
    pub fn from_event_type(event_type: &str) -> (r: Option<Self>)
        ensures
            r == spec_lifecycle_type_of(event_type@),
    {
        let n = event_type.unicode_len();
        if n < 8 {
            return None;
        }
        let p: [char; 8] = ['p', 'a', 'y', 'm', 'e', 'n', 't', '.'];
        assert(p@ == payment_prefix());
        let mut i: usize = 0;
        while i < 8
            invariant
                n == event_type@.len(),
                n >= 8,
                p@ == payment_prefix(),
                i <= 8,
                forall|j: int| 0 <= j < i ==> event_type@[j] == payment_prefix()[j],
            decreases 8 - i,
        {
            if event_type.get_char(i) != p[i] {
                assert(event_type@.subrange(0, 8)[i as int] != payment_prefix()[i as int]);
                return None;
            }
            i = i + 1;
        }
        assert(event_type@.subrange(0, 8) =~= payment_prefix());
        Some(LifecycleType::Payment)
    }
}

/// Lifecycle states.
#[derive(Debug, Clone, Copy, PartialEq, Eq, Structural)]
pub enum State {
    Started,
    Processing,
    Pending,
    Success,
    Failed,
    Cancelled,
    Rejected,
    Timeout,
    Expired,
    Abandoned,
    Reversed,
    Compensated,
    PartiallyCompleted,
    Conflicted,
    Unknown,
}

/// The states that end a lifecycle.
pub open spec fn spec_is_terminal(s: State) -> bool {
    match s {
        State::Success | State::Failed | State::Cancelled | State::Rejected | State::Timeout
        | State::Expired | State::Abandoned | State::Reversed | State::Compensated => true,
        _ => false,
    }
}

impl State {
    pub fn is_terminal(self) -> (b: bool)
        ensures
            b == spec_is_terminal(self),
    {
        match self {
            State::Success | State::Failed | State::Cancelled | State::Rejected | State::Timeout
            | State::Expired | State::Abandoned | State::Reversed | State::Compensated => true,
            _ => false,
        }
    }
}

/// Closure states.
#[derive(Debug, Clone, Copy, PartialEq, Eq, Structural)]
pub enum Closure {
    Open,
    Closed,
    ClosedWithException,
    ClosedWithUncertainty,
}

impl Closure {
    pub fn is_closed(self) -> (b: bool)
        ensures
            b == (self != Closure::Open),
    {
        !matches!(self, Closure::Open)
    }
}

/// Correlation tier by which an event was bound to a lifecycle.
#[derive(Debug, Clone, Copy, PartialEq, Eq, Structural)]
pub enum InferenceTier {
    Explicit,
    BusinessId,
    Causation,
    ResourceId,
    Unknown,
}

/// Classification of an event that arrives after its lifecycle closed.
#[derive(Debug, Clone, Copy, PartialEq, Eq, Structural)]
pub enum LateEventClass {
    Duplicate,
    Correction,
    Amendment,
    Conflict,
    LateInformation,
    Unknown,
}

/// An event that arrived after closure: classified, not applied.
#[derive(Debug, Clone, PartialEq, Eq)]
pub struct LateEvent {
    pub event_id: String,
    pub event_type: String,
    pub arrived_at_ms: u64,
    pub class: LateEventClass,
}

pub struct LateEventView {
    pub event_id: Seq<char>,
    pub event_type: Seq<char>,
    pub arrived_at_ms: u64,
    pub class: LateEventClass,
}

impl View for LateEvent {
    type V = LateEventView;

    open spec fn view(&self) -> LateEventView {
        LateEventView {
            event_id: self.event_id@,
            event_type: self.event_type@,
            arrived_at_ms: self.arrived_at_ms,
            class: self.class,
        }
    }
}

/// One lifecycle instance.
#[derive(Debug, Clone, PartialEq, Eq)]
pub struct Lifecycle {
    pub id: String,
    pub tenant_id: String,
    pub lifecycle_type: LifecycleType,
    pub business_key: Option<String>,
    pub resource_id: Option<String>,
    pub state: State,
    pub closure: Closure,
    pub started_at_ms: u64,
    pub last_event_at_ms: u64,
    pub closed_at_ms: Option<u64>,
    pub event_ids: Vec<String>,
    pub late_events: Vec<LateEvent>,
    /// Staleness threshold in milliseconds.
    pub staleness_ms: u64,
    /// Correlation tier of each event, in the order of `event_ids`.
    pub tiers: Vec<InferenceTier>,
}

/// A lifecycle as plain values.
pub struct LifecycleView {
    pub id: Seq<char>,
    pub tenant_id: Seq<char>,
    pub lifecycle_type: LifecycleType,
    pub business_key: Option<Seq<char>>,
    pub resource_id: Option<Seq<char>>,
    pub state: State,
    pub closure: Closure,
    pub started_at_ms: u64,
    pub last_event_at_ms: u64,
    pub closed_at_ms: Option<u64>,
    pub event_ids: Seq<Seq<char>>,
    pub late_events: Seq<LateEventView>,
    pub staleness_ms: u64,
    pub tiers: Seq<InferenceTier>,
}

pub open spec fn opt_str(o: Option<String>) -> Option<Seq<char>> {
    match o {
        Some(s) => Some(s@),
        None => None,
    }
}

impl View for Lifecycle {
    type V = LifecycleView;

    open spec fn view(&self) -> LifecycleView {
        LifecycleView {
            id: self.id@,
            tenant_id: self.tenant_id@,
            lifecycle_type: self.lifecycle_type,
            business_key: opt_str(self.business_key),
            resource_id: opt_str(self.resource_id),
            state: self.state,
            closure: self.closure,
            started_at_ms: self.started_at_ms,
            last_event_at_ms: self.last_event_at_ms,
            closed_at_ms: self.closed_at_ms,
            event_ids: self.event_ids@.map_values(|s: String| s@),
            late_events: self.late_events@.map_values(|l: LateEvent| l@),
            staleness_ms: self.staleness_ms,
            tiers: self.tiers@,
        }
    }
}

/// Staleness threshold per lifecycle type: one hour for payments.
pub fn staleness_for(t: LifecycleType) -> (ms: u64)
    ensures
        ms == 3_600_000,
{
    match t {
        LifecycleType::Payment => 60 * 60 * 1000,
    }
}

/// A copy of a string list, element for element.
pub(crate) fn clone_strings(v: &Vec<String>) -> (r: Vec<String>)
    ensures
        r@.map_values(|s: String| s@) == v@.map_values(|s: String| s@),
{
    let mut r: Vec<String> = Vec::new();
    let mut i: usize = 0;
    while i < v.len()
        invariant
            i <= v@.len(),
            r@.len() == i,
            forall|j: int| 0 <= j < i ==> r@[j]@ == v@[j]@,
        decreases v@.len() - i,
    {
        r.push(v[i].clone());
        i = i + 1;
    }
    assert(r@.map_values(|s: String| s@) =~= v@.map_values(|s: String| s@));
    r
}

/// A copy of a late event.
pub(crate) fn clone_late_event(e: &LateEvent) -> (r: LateEvent)
    ensures
        r@ == e@,
{
    LateEvent {
        event_id: e.event_id.clone(),
        event_type: e.event_type.clone(),
        arrived_at_ms: e.arrived_at_ms,
        class: e.class,
    }
}

/// A copy of an optional string.
pub(crate) fn clone_opt(o: &Option<String>) -> (r: Option<String>)
    ensures
        opt_str(r) == opt_str(*o),
{
    match o {
        Some(s) => Some(s.clone()),
        None => None,
    }
}

/// A copy of a lifecycle with the same view.
pub(crate) fn clone_lifecycle(lc: &Lifecycle) -> (r: Lifecycle)
    ensures
        r@ == lc@,
{
    let mut late: Vec<LateEvent> = Vec::new();
    let mut i: usize = 0;
    while i < lc.late_events.len()
        invariant
            i <= lc.late_events@.len(),
            late@.len() == i,
            forall|j: int| 0 <= j < i ==> late@[j]@ == lc.late_events@[j]@,
        decreases lc.late_events@.len() - i,
    {
        late.push(clone_late_event(&lc.late_events[i]));
        i = i + 1;
    }
    let mut tiers: Vec<InferenceTier> = Vec::new();
    let mut t: usize = 0;
    while t < lc.tiers.len()
        invariant
            t <= lc.tiers@.len(),
            tiers@ == lc.tiers@.subrange(0, t as int),
        decreases lc.tiers@.len() - t,
    {
        tiers.push(lc.tiers[t]);
        t = t + 1;
        assert(tiers@ =~= lc.tiers@.subrange(0, t as int));
    }
    assert(late@.map_values(|l: LateEvent| l@) =~= lc.late_events@.map_values(|l: LateEvent| l@));
    assert(tiers@ =~= lc.tiers@);
    Lifecycle {
        id: lc.id.clone(),
        tenant_id: lc.tenant_id.clone(),
        lifecycle_type: lc.lifecycle_type,
        business_key: clone_opt(&lc.business_key),
        resource_id: clone_opt(&lc.resource_id),
        state: lc.state,
        closure: lc.closure,
        started_at_ms: lc.started_at_ms,
        last_event_at_ms: lc.last_event_at_ms,
        closed_at_ms: lc.closed_at_ms,
        event_ids: clone_strings(&lc.event_ids),
        late_events: late,
        staleness_ms: lc.staleness_ms,
        tiers,
    }
}

/// The stored name of a state: the variant's name.
pub open spec fn state_name(s: State) -> Seq<char> {
    match s {
        State::Started => seq!['S', 't', 'a', 'r', 't', 'e', 'd'],
        State::Processing => seq!['P', 'r', 'o', 'c', 'e', 's', 's', 'i', 'n', 'g'],
        State::Pending => seq!['P', 'e', 'n', 'd', 'i', 'n', 'g'],
        State::Success => seq!['S', 'u', 'c', 'c', 'e', 's', 's'],
        State::Failed => seq!['F', 'a', 'i', 'l', 'e', 'd'],
        State::Cancelled => seq!['C', 'a', 'n', 'c', 'e', 'l', 'l', 'e', 'd'],
        State::Rejected => seq!['R', 'e', 'j', 'e', 'c', 't', 'e', 'd'],
        State::Timeout => seq!['T', 'i', 'm', 'e', 'o', 'u', 't'],
        State::Expired => seq!['E', 'x', 'p', 'i', 'r', 'e', 'd'],
        State::Abandoned => seq!['A', 'b', 'a', 'n', 'd', 'o', 'n', 'e', 'd'],
        State::Reversed => seq!['R', 'e', 'v', 'e', 'r', 's', 'e', 'd'],
        State::Compensated => seq!['C', 'o', 'm', 'p', 'e', 'n', 's', 'a', 't', 'e', 'd'],
        State::PartiallyCompleted => seq!['P', 'a', 'r', 't', 'i', 'a', 'l', 'l', 'y', 'C', 'o', 'm', 'p', 'l', 'e', 't', 'e', 'd'],
        State::Conflicted => seq!['C', 'o', 'n', 'f', 'l', 'i', 'c', 't', 'e', 'd'],
        State::Unknown => seq!['U', 'n', 'k', 'n', 'o', 'w', 'n'],
    }
}

/// The stored name of a closure: the variant's name.
pub open spec fn closure_name(c: Closure) -> Seq<char> {
    match c {
        Closure::Open => seq!['O', 'p', 'e', 'n'],
        Closure::Closed => seq!['C', 'l', 'o', 's', 'e', 'd'],
        Closure::ClosedWithException => seq!['C', 'l', 'o', 's', 'e', 'd', 'W', 'i', 't', 'h', 'E', 'x', 'c', 'e', 'p', 't', 'i', 'o', 'n'],
        Closure::ClosedWithUncertainty => seq!['C', 'l', 'o', 's', 'e', 'd', 'W', 'i', 't', 'h', 'U', 'n', 'c', 'e', 'r', 't', 'a', 'i', 'n', 't', 'y'],
    }
}

/// The stored name of a state.
pub fn state_str(s: State) -> (r: &'static str)
    ensures
        r@ == state_name(s),
{
    proof {
        reveal_strlit("Started");
        reveal_strlit("Processing");
        reveal_strlit("Pending");
        reveal_strlit("Success");
        reveal_strlit("Failed");
        reveal_strlit("Cancelled");
        reveal_strlit("Rejected");
        reveal_strlit("Timeout");
        reveal_strlit("Expired");
        reveal_strlit("Abandoned");
        reveal_strlit("Reversed");
        reveal_strlit("Compensated");
        reveal_strlit("PartiallyCompleted");
        reveal_strlit("Conflicted");
        reveal_strlit("Unknown");
    }
    match s {
        State::Started => "Started",
        State::Processing => "Processing",
        State::Pending => "Pending",
        State::Success => "Success",
        State::Failed => "Failed",
        State::Cancelled => "Cancelled",
        State::Rejected => "Rejected",
        State::Timeout => "Timeout",
        State::Expired => "Expired",
        State::Abandoned => "Abandoned",
        State::Reversed => "Reversed",
        State::Compensated => "Compensated",
        State::PartiallyCompleted => "PartiallyCompleted",
        State::Conflicted => "Conflicted",
        State::Unknown => "Unknown",
    }
}

/// The stored name of a closure.
pub fn closure_str(c: Closure) -> (r: &'static str)
    ensures
        r@ == closure_name(c),
{
    proof {
        reveal_strlit("Open");
        reveal_strlit("Closed");
        reveal_strlit("ClosedWithException");
        reveal_strlit("ClosedWithUncertainty");
    }
    match c {
        Closure::Open => "Open",
        Closure::Closed => "Closed",
        Closure::ClosedWithException => "ClosedWithException",
        Closure::ClosedWithUncertainty => "ClosedWithUncertainty",
    }
}

/// The stored name of a lifecycle type.
pub fn lct_str(t: LifecycleType) -> (r: &'static str)
    ensures
        r@ == seq!['P', 'a', 'y', 'm', 'e', 'n', 't'],
{
    proof {
        reveal_strlit("Payment");
    }
    match t {
        LifecycleType::Payment => "Payment",
    }
}

} // verus!
