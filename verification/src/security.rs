//! Permission checks and resource accounting for one sandbox.
//!
//! A [`SecurityContext`] holds the budget a sandbox was created with and the
//! counters that are held against it. Every operation that is refused leaves
//! the counters as they were.

use crate::clock::get_current_timestamp;
use crate::error::{fails_with, WASMError};
use crate::events::InteractionEvent;
use crate::kinds::interaction_name;
use crate::numeric::bump;
use crate::text::list_contains;
use vstd::prelude::*;
use vstd::string::*;

verus! {

/// What a sandbox is allowed to do, fixed when it is created.
#[derive(Clone, Debug)]
pub struct WASMPermissions {
    pub memory_limit: usize,
    pub allowed_imports: Vec<String>,
    /// Milliseconds of wall-clock time after which rendering is refused.
    pub cpu_time_limit: u32,
    pub allow_networking: bool,
    pub allow_file_system: bool,
    pub allowed_interactions: Vec<String>,
    pub max_data_size: usize,
    pub max_elements: u32,
}

/// The ceilings that the counters of a sandbox are held against.
#[derive(Clone, Copy, Debug, PartialEq, Eq, Structural)]
pub struct ResourceLimits {
    pub max_memory: usize,
    pub max_cpu_time: u32,
    pub max_interactions_per_second: u32,
    pub max_elements: u32,
}

/// The interaction rate that every sandbox is limited to.
pub const DEFAULT_INTERACTIONS_PER_SECOND: u32 = 100;

/// The limits that follow from a set of permissions.
pub open spec fn limits_of(permissions: WASMPermissions) -> ResourceLimits {
    ResourceLimits {
        max_memory: permissions.memory_limit,
        max_cpu_time: permissions.cpu_time_limit,
        max_interactions_per_second: DEFAULT_INTERACTIONS_PER_SECOND,
        max_elements: permissions.max_elements,
    }
}

/// Whether `count` interactions in `elapsed` milliseconds are more than
/// `max_per_second` allows. The rate is the average since the start, and no
/// rate is computed before time has passed.
pub open spec fn rate_exceeded(count: int, elapsed: int, max_per_second: int) -> bool {
    elapsed > 0 && count * 1000 > max_per_second * elapsed
}

/// The number of interactions admitted out of those submitted at the times
/// `times`, in order, to a sandbox that started at `start` and has admitted
/// `count` so far.
pub open spec fn admitted_after(count: u32, start: u64, max_per_second: u32, times: Seq<u64>) -> u32
    decreases times.len(),
{
    if times.len() == 0 {
        count
    } else {
        let now = times[0];
        let next = if rate_exceeded(bump(count) as int, now - start, max_per_second as int) {
            count
        } else {
            bump(count)
        };
        admitted_after(next, start, max_per_second, times.drop_first())
    }
}

/// The budget of a sandbox and the counters held against it.
#[derive(Debug)]
pub struct SecurityContext {
    permissions: WASMPermissions,
    resource_limits: ResourceLimits,
    allocated_memory: usize,
    interaction_count: u32,
    start_time: u64,
}

/// What a security context holds: two counters, the time it started at,
/// and what its permissions fixed. Only the counters ever change.
pub struct BudgetView {
    pub allocated: usize,
    pub interactions: u32,
    pub started_at: u64,
    pub limits: ResourceLimits,
    pub allowed: Seq<Seq<char>>,
    pub allowed_imports: Seq<Seq<char>>,
    pub allow_networking: bool,
    pub allow_file_system: bool,
    pub data_size_limit: usize,
}

impl View for SecurityContext {
    type V = BudgetView;

    open spec fn view(&self) -> BudgetView {
        BudgetView {
            allocated: self.allocated(),
            interactions: self.interactions(),
            started_at: self.started_at(),
            limits: self.limits(),
            allowed: self.allowed(),
            allowed_imports: self.imports(),
            allow_networking: self.networking(),
            allow_file_system: self.file_system(),
            data_size_limit: self.data_size_limit(),
        }
    }
}

/// Whether `after` and `outcome` are what a context that holds `before`
/// makes of an interaction of kind `kind` that arrives at `now`:
/// - a kind that the permissions do not name is refused;
/// - a kind that they name is refused when the interaction, once counted,
///   would lift the average rate since the start over the limit;
/// - any other interaction is admitted and counted.
/// A refusal changes nothing.
pub open spec fn interaction_checked(
    before: BudgetView,
    kind: crate::kinds::InteractionType,
    now: u64,
    after: BudgetView,
    outcome: Result<(), WASMError>,
) -> bool {
    let named = before.allowed.contains(interaction_name(kind));
    let flooded = rate_exceeded(
        bump(before.interactions) as int,
        now - before.started_at,
        before.limits.max_interactions_per_second as int,
    );
    if !named {
        fails_with(outcome, "INTERACTION_NOT_ALLOWED"@) && after == before
    } else if flooded {
        fails_with(outcome, "INTERACTION_RATE_EXCEEDED"@) && after == before
    } else {
        outcome is Ok && after == (BudgetView {
            interactions: bump(before.interactions),
            ..before
        })
    }
}

/// Whether `outcome` is what a context that holds `budget` makes of the
/// rendering of a frame at `now`: it is refused once more time than the
/// limit has passed since the start.
pub open spec fn render_checked(budget: BudgetView, now: u64, outcome: Result<(), WASMError>) -> bool {
    if now - budget.started_at > budget.limits.max_cpu_time {
        fails_with(outcome, "CPU_TIME_EXCEEDED"@)
    } else {
        outcome is Ok
    }
}

/// What the context of a sandbox holds when the sandbox starts at `now`
/// with the permissions `permissions`.
pub open spec fn default_budget(permissions: WASMPermissions, now: u64) -> BudgetView {
    BudgetView {
        allocated: 0,
        interactions: 0,
        started_at: now,
        limits: limits_of(permissions),
        allowed: permissions.allowed_interactions.deep_view(),
        allowed_imports: permissions.allowed_imports.deep_view(),
        allow_networking: permissions.allow_networking,
        allow_file_system: permissions.allow_file_system,
        data_size_limit: permissions.max_data_size,
    }
}

impl SecurityContext {
    /// No more memory is accounted for than the sandbox may hold.
    #[verifier::type_invariant]
    pub closed spec fn within_budget(&self) -> bool {
        self.allocated_memory <= self.resource_limits.max_memory
    }

    /// The number of bytes accounted for.
    pub closed spec fn allocated(&self) -> usize {
        self.allocated_memory
    }

    /// The number of interactions admitted so far.
    pub closed spec fn interactions(&self) -> u32 {
        self.interaction_count
    }

    /// The time at which the sandbox started.
    pub closed spec fn started_at(&self) -> u64 {
        self.start_time
    }

    /// The ceilings of the sandbox.
    pub closed spec fn limits(&self) -> ResourceLimits {
        self.resource_limits
    }

    /// The names that the permissions admit.
    pub closed spec fn allowed(&self) -> Seq<Seq<char>> {
        self.permissions.allowed_interactions.deep_view()
    }

    /// The imports that the permissions admit.
    pub closed spec fn imports(&self) -> Seq<Seq<char>> {
        self.permissions.allowed_imports.deep_view()
    }

    /// Whether the permissions admit networking.
    pub closed spec fn networking(&self) -> bool {
        self.permissions.allow_networking
    }

    /// Whether the permissions admit the file system.
    pub closed spec fn file_system(&self) -> bool {
        self.permissions.allow_file_system
    }

    /// The largest payload, in bytes, that the sandbox accepts.
    pub closed spec fn data_size_limit(&self) -> usize {
        self.permissions.max_data_size
    }

    /// Whether `name` is among the names that the permissions admit.
    pub open spec fn admits(&self, name: Seq<char>) -> bool {
        self.allowed().contains(name)
    }

    /// The accounting never exceeds the budget.
    pub proof fn lemma_within_budget(&self)
        requires
            self.within_budget(),
        ensures
            self.allocated() <= self.limits().max_memory,
    {
    }

    /// A context for a sandbox that starts now.
    pub fn new(permissions: WASMPermissions) -> (r: Result<Self, WASMError>)
        ensures
            r is Ok,
            r->Ok_0.allocated() == 0,
            r->Ok_0.interactions() == 0,
            r->Ok_0.limits() == limits_of(permissions),
            r->Ok_0.allowed() == permissions.allowed_interactions.deep_view(),
            r->Ok_0.imports() == permissions.allowed_imports.deep_view(),
            r->Ok_0.networking() == permissions.allow_networking,
            r->Ok_0.file_system() == permissions.allow_file_system,
            r->Ok_0.data_size_limit() == permissions.max_data_size,
    {
        Self::new_at(permissions, get_current_timestamp())
    }

    /// A context for a sandbox that started at `now`.
    pub fn new_at(permissions: WASMPermissions, now: u64) -> (r: Result<Self, WASMError>)
        ensures
            r is Ok,
            r->Ok_0.within_budget(),
            r->Ok_0.allocated() == 0,
            r->Ok_0.interactions() == 0,
            r->Ok_0.started_at() == now,
            r->Ok_0@ == default_budget(permissions, now),
    {
        let resource_limits = ResourceLimits {
            max_memory: permissions.memory_limit,
            max_cpu_time: permissions.cpu_time_limit,
            max_interactions_per_second: DEFAULT_INTERACTIONS_PER_SECOND,
            max_elements: permissions.max_elements,
        };
        Ok(
            SecurityContext {
                permissions,
                resource_limits,
                allocated_memory: 0,
                interaction_count: 0,
                start_time: now,
            },
        )
    }

    /// The ceilings of the sandbox.
    pub fn resource_limits(&self) -> (r: ResourceLimits)
        ensures
            r == self.limits(),
    {
        self.resource_limits
    }

    /// The number of bytes accounted for.
    pub fn allocated_memory(&self) -> (r: usize)
        ensures
            r == self.allocated(),
            r <= self.limits().max_memory,
    {
        proof {
            use_type_invariant(self);
        }
        self.allocated_memory
    }

    /// The number of interactions admitted so far.
    pub fn interaction_count(&self) -> (r: u32)
        ensures
            r == self.interactions(),
    {
        self.interaction_count
    }

    /// The time at which the sandbox started.
    pub fn start_time(&self) -> (r: u64)
        ensures
            r == self.started_at(),
    {
        self.start_time
    }

    /// Whether the permissions admit the name `name`.
    pub fn is_allowed(&self, name: &str) -> (r: bool)
        ensures
            r == self.admits(name@),
    {
        let wanted = String::from_str(name);
        list_contains(&self.permissions.allowed_interactions, &wanted)
    }

    /// Admits or refuses the interaction `event`, which arrives now: at the
    /// time that the clock shows, whatever that is.
    pub fn check_interaction_permission(&mut self, event: &InteractionEvent) -> (r: Result<
        (),
        WASMError,
    >)
        ensures
            exists|now: u64|
                #[trigger] interaction_checked(old(self)@, event.event_type, now, final(self)@, r),
    {
        let now = get_current_timestamp();
        let outcome = self.check_interaction_permission_at(event, now);
        assert(interaction_checked(old(self)@, event.event_type, now, self@, outcome));
        outcome
    }

    /// Admits or refuses the interaction `event`, which arrives at `now`.
    ///
    /// The kind of the event must be named in the permissions, and the
    /// interaction, once counted, must not lift the average rate since the
    /// start over the limit. An admitted interaction is counted; a refused
    /// one is not.
    pub fn check_interaction_permission_at(&mut self, event: &InteractionEvent, now: u64) -> (r:
        Result<(), WASMError>)
        ensures
            interaction_checked(old(self)@, event.event_type, now, final(self)@, r),
    {
        let name = event.event_type.name();
        if !list_contains(&self.permissions.allowed_interactions, &name) {
            let mut message = String::from_str("Interaction type '");
            message.append(name.as_str());
            message.append("' is not permitted");
            return Err(WASMError::new("INTERACTION_NOT_ALLOWED", message.as_str()));
        }
        let counted: u32 = if self.interaction_count < u32::MAX {
            self.interaction_count + 1
        } else {
            self.interaction_count
        };
        if now > self.start_time {
            let elapsed: u64 = now - self.start_time;
            let weighed: u128 = (counted as u128) * 1000;
            let per_second: u128 = self.resource_limits.max_interactions_per_second as u128;
            assert(per_second * (elapsed as u128) <= 0x1_0000_0000 * 0x1_0000_0000_0000_0000)
                by (nonlinear_arith)
                requires
                    per_second <= 0x1_0000_0000,
                    elapsed as u128 <= 0x1_0000_0000_0000_0000,
            ;
            let allowed: u128 = per_second * (elapsed as u128);
            if weighed > allowed {
                return Err(
                    WASMError::new("INTERACTION_RATE_EXCEEDED", "Too many interactions per second"),
                );
            }
        }
        proof {
            use_type_invariant(&*self);
        }
        self.interaction_count = counted;
        Ok(())
    }

    /// Admits or refuses the rendering of a frame now: at the time that the
    /// clock shows, whatever that is.
    pub fn check_render_permission(&self) -> (r: Result<(), WASMError>)
        ensures
            exists|now: u64| #[trigger] render_checked(self@, now, r),
    {
        let now = get_current_timestamp();
        let outcome = self.check_render_permission_at(now);
        assert(render_checked(self@, now, outcome));
        outcome
    }

    /// Admits or refuses the rendering of a frame at `now`: rendering is
    /// refused once more wall-clock time than the limit has passed since the
    /// start.
    pub fn check_render_permission_at(&self, now: u64) -> (r: Result<(), WASMError>)
        ensures
            render_checked(self@, now, r),
    {
        if now > self.start_time && now - self.start_time > self.resource_limits.max_cpu_time as u64 {
            return Err(WASMError::new("CPU_TIME_EXCEEDED", "CPU time limit exceeded"));
        }
        Ok(())
    }

    /// Admits every update of a data source.
    pub fn check_data_permission(&self, _data_source_id: &str) -> (r: Result<(), WASMError>)
        ensures
            r is Ok,
    {
        Ok(())
    }

    /// The largest payload, in bytes, that the sandbox accepts.
    pub fn max_data_size(&self) -> (r: usize)
        ensures
            r == self.data_size_limit(),
    {
        self.permissions.max_data_size
    }

    /// Accounts for `size` more bytes, or refuses when the total would
    /// exceed the limit.
    pub fn allocate_memory(&mut self, size: usize) -> (r: Result<(), WASMError>)
        ensures
            final(self)@ == (BudgetView { allocated: final(self).allocated(), ..old(self)@ }),
            final(self).allocated() <= final(self).limits().max_memory,
            old(self).allocated() + size > old(self).limits().max_memory ==> fails_with(
                r,
                "MEMORY_LIMIT_EXCEEDED"@,
            ) && final(self).allocated() == old(self).allocated(),
            old(self).allocated() + size <= old(self).limits().max_memory ==> r is Ok && final(self).allocated() == old(self).allocated() + size,
    {
        proof {
            use_type_invariant(&*self);
        }
        if size > self.resource_limits.max_memory - self.allocated_memory {
            return Err(
                WASMError::new("MEMORY_LIMIT_EXCEEDED", "Memory allocation would exceed limit"),
            );
        }
        self.allocated_memory = self.allocated_memory + size;
        Ok(())
    }

    /// Releases `size` bytes of the accounting, stopping at zero.
    pub fn deallocate_memory(&mut self, size: usize)
        ensures
            final(self)@ == (BudgetView { allocated: final(self).allocated(), ..old(self)@ }),
            final(self).allocated() <= final(self).limits().max_memory,
            final(self).allocated() == if old(self).allocated() >= size {
                old(self).allocated() - size
            } else {
                0
            },
    {
        proof {
            use_type_invariant(&*self);
        }
        if self.allocated_memory >= size {
            self.allocated_memory = self.allocated_memory - size;
        } else {
            self.allocated_memory = 0;
        }
    }

    /// Refuses unless the permissions name `operation`.
    fn require_named(&self, operation: &str, code: &str, message: &str) -> (r: Result<
        (),
        WASMError,
    >)
        ensures
            self.admits(operation@) ==> r is Ok,
            !self.admits(operation@) ==> fails_with(r, code@),
    {
        if self.is_allowed(operation) {
            Ok(())
        } else {
            Err(WASMError::new(code, message))
        }
    }

    /// Admits the creation of an element where the permissions name
    /// `create_element`.
    pub fn check_element_creation(&self) -> (r: Result<(), WASMError>)
        ensures
            self.admits("create_element"@) ==> r is Ok,
            !self.admits("create_element"@) ==> fails_with(r, "ELEMENT_CREATION_NOT_ALLOWED"@),
    {
        self.require_named(
            "create_element",
            "ELEMENT_CREATION_NOT_ALLOWED",
            "Element creation is not permitted",
        )
    }

    /// Admits one more element beside `current` existing ones while the
    /// element limit is not reached.
    pub fn check_element_capacity(&self, current: usize) -> (r: Result<(), WASMError>)
        ensures
            current < self.limits().max_elements ==> r is Ok,
            current >= self.limits().max_elements ==> fails_with(r, "ELEMENT_LIMIT_EXCEEDED"@),
    {
        if current < self.resource_limits.max_elements as usize {
            Ok(())
        } else {
            Err(WASMError::new("ELEMENT_LIMIT_EXCEEDED", "Element limit reached"))
        }
    }

    /// Admits the modification of an element where the permissions name
    /// `modify_element`.
    pub fn check_element_modification(&self, _element_id: &str) -> (r: Result<(), WASMError>)
        ensures
            self.admits("modify_element"@) ==> r is Ok,
            !self.admits("modify_element"@) ==> fails_with(
                r,
                "ELEMENT_MODIFICATION_NOT_ALLOWED"@,
            ),
    {
        self.require_named(
            "modify_element",
            "ELEMENT_MODIFICATION_NOT_ALLOWED",
            "Element modification is not permitted",
        )
    }

    /// Admits the creation of an animation where the permissions name
    /// `create_animation`.
    pub fn check_animation_creation(&self) -> (r: Result<(), WASMError>)
        ensures
            self.admits("create_animation"@) ==> r is Ok,
            !self.admits("create_animation"@) ==> fails_with(
                r,
                "ANIMATION_CREATION_NOT_ALLOWED"@,
            ),
    {
        self.require_named(
            "create_animation",
            "ANIMATION_CREATION_NOT_ALLOWED",
            "Animation creation is not permitted",
        )
    }

    /// Admits the creation of an event handler where the permissions name
    /// `create_event_handler`.
    pub fn check_event_handler_creation(&self) -> (r: Result<(), WASMError>)
        ensures
            self.admits("create_event_handler"@) ==> r is Ok,
            !self.admits("create_event_handler"@) ==> fails_with(
                r,
                "EVENT_HANDLER_CREATION_NOT_ALLOWED"@,
            ),
    {
        self.require_named(
            "create_event_handler",
            "EVENT_HANDLER_CREATION_NOT_ALLOWED",
            "Event handler creation is not permitted",
        )
    }
}

/// Interactions submitted faster than the limit are not all admitted: when
/// `times` holds more submissions than the limit allows for the time up to
/// the last of them, fewer than all of them are counted.
pub proof fn lemma_flood_is_refused(start: u64, max_per_second: u32, times: Seq<u64>)
    requires
        times.len() > 0,
        times.len() < u32::MAX,
        times.last() > start,
        times.len() * 1000 > max_per_second * (times.last() - start),
    ensures
        admitted_after(0, start, max_per_second, times) < times.len(),
{
    lemma_admitted_bound(0, start, max_per_second, times.drop_last());
    lemma_admitted_split(0, start, max_per_second, times.drop_last(), times.last());
    assert(times =~= times.drop_last().push(times.last()));
    let before = admitted_after(0, start, max_per_second, times.drop_last());
    if before == times.len() - 1 {
        assert(bump(before) == times.len());
        assert(rate_exceeded(
            bump(before) as int,
            times.last() - start,
            max_per_second as int,
        ));
    }
}

/// Interactions submitted within the limit are all admitted: when each
/// submission, counted with those before it, keeps the average rate within
/// the limit, every one of them is counted.
pub proof fn lemma_steady_is_admitted(start: u64, max_per_second: u32, times: Seq<u64>)
    requires
        times.len() < u32::MAX,
        forall|i: int|
            0 <= i < times.len() ==> !rate_exceeded(
                i + 1,
                #[trigger] times[i] - start,
                max_per_second as int,
            ),
    ensures
        admitted_after(0, start, max_per_second, times) == times.len(),
    decreases times.len(),
{
    if times.len() > 0 {
        let earlier = times.drop_last();
        assert forall|i: int| 0 <= i < earlier.len() implies !rate_exceeded(
            i + 1,
            #[trigger] earlier[i] - start,
            max_per_second as int,
        ) by {
            assert(earlier[i] == times[i]);
        }
        lemma_steady_is_admitted(start, max_per_second, earlier);
        lemma_admitted_split(0, start, max_per_second, earlier, times.last());
        assert(times =~= earlier.push(times.last()));
        let before = admitted_after(0, start, max_per_second, earlier);
        assert(bump(before) == times.len());
        assert(times[times.len() - 1] == times.last());
    }
}

/// Submitting one more interaction after a run counts it or not by the rate
/// at its arrival.
pub proof fn lemma_admitted_split(
    count: u32,
    start: u64,
    max_per_second: u32,
    times: Seq<u64>,
    now: u64,
)
    ensures
        admitted_after(count, start, max_per_second, times.push(now)) == {
            let before = admitted_after(count, start, max_per_second, times);
            if rate_exceeded(bump(before) as int, now - start, max_per_second as int) {
                before
            } else {
                bump(before)
            }
        },
    decreases times.len(),
{
    if times.len() == 0 {
        assert(times.push(now).drop_first() =~= times);
        assert(admitted_after(count, start, max_per_second, times) == count);
        let one = times.push(now);
        assert(one[0] == now);
        assert(admitted_after(
            if rate_exceeded(bump(count) as int, now - start, max_per_second as int) {
                count
            } else {
                bump(count)
            },
            start,
            max_per_second,
            one.drop_first(),
        ) == if rate_exceeded(bump(count) as int, now - start, max_per_second as int) {
            count
        } else {
            bump(count)
        });
    } else {
        let first = times[0];
        let next = if rate_exceeded(bump(count) as int, first - start, max_per_second as int) {
            count
        } else {
            bump(count)
        };
        assert(times.push(now).drop_first() =~= times.drop_first().push(now));
        assert(times.push(now)[0] == first);
        lemma_admitted_split(next, start, max_per_second, times.drop_first(), now);
    }
}

/// A run admits no more interactions than were submitted.
pub proof fn lemma_admitted_bound(count: u32, start: u64, max_per_second: u32, times: Seq<u64>)
    ensures
        count <= admitted_after(count, start, max_per_second, times) <= count + times.len(),
    decreases times.len(),
{
    if times.len() > 0 {
        let first = times[0];
        let next = if rate_exceeded(bump(count) as int, first - start, max_per_second as int) {
            count
        } else {
            bump(count)
        };
        lemma_admitted_bound(next, start, max_per_second, times.drop_first());
    }
}

} // verus!
