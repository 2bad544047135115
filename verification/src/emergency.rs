//! The emergency pallet: an authorised origin can stop individual calls
//! (named by pallet and function), resume them, and switch the chain in and
//! out of maintenance mode, which selects the base call filter.

use vstd::prelude::*;
use vstd::slice::slice_to_vec;
use vstd::utf8::valid_utf8;
use vstd::string::StringSliceAdditionalSpecFns;
use crate::arith::{bytes_eq, str_from_utf8};
use crate::keyed_map::KeyedMap;

verus! {

/// Why an emergency call was refused.
#[derive(Clone, Copy, Debug, PartialEq, Eq, Structural)]
pub enum Error {
    /// The origin is not the emergency origin.
    BadOrigin,
    /// Calls of the emergency pallet itself cannot be stopped.
    CannotStopEmergencyCall,
    /// The pallet name is not valid UTF-8.
    InvalidPalletAndFunction,
    /// The chain is already in maintenance mode.
    AlreadyInMaintenanceMode,
    /// The chain is not in maintenance mode.
    NotInMaintenanceMode,
}

/// What the pallet reports after a successful call.
#[derive(Debug, PartialEq, Eq)]
pub enum Event {
    EmergencyStopped { pallet_name_bytes: Vec<u8>, function_name_bytes: Vec<u8> },
    EmergencyUnStopped { pallet_name_bytes: Vec<u8>, function_name_bytes: Vec<u8> },
    MaintenanceModeStarted,
    MaintenanceModeEnded,
}

/// The abstract state of the pallet.
pub struct EmergencyView {
    /// The name the runtime registered this pallet under.
    pub name: Seq<u8>,
    /// The stopped calls, as (pallet name, function name).
    pub stopped: Set<(Seq<u8>, Seq<u8>)>,
    /// Whether the chain is in maintenance mode.
    pub maintenance_mode: bool,
}

impl EmergencyView {
    /// No call of the emergency pallet itself is stopped.
    pub open spec fn never_stops_itself(self) -> bool {
        forall|f: Seq<u8>| !self.stopped.contains((self.name, f))
    }

    /// The state with `(pallet, function)` stopped as well.
    pub open spec fn with_stopped(self, pallet: Seq<u8>, function: Seq<u8>) -> EmergencyView {
        EmergencyView { stopped: self.stopped.insert((pallet, function)), ..self }
    }

    /// The state with `(pallet, function)` no longer stopped.
    pub open spec fn without_stopped(self, pallet: Seq<u8>, function: Seq<u8>) -> EmergencyView {
        EmergencyView { stopped: self.stopped.remove((pallet, function)), ..self }
    }

    /// The state with maintenance mode set to `mode`.
    pub open spec fn with_maintenance_mode(self, mode: bool) -> EmergencyView {
        EmergencyView { maintenance_mode: mode, ..self }
    }
}

/// When `emergency_stop` refuses its arguments, and with which error.
pub open spec fn emergency_stop_error(
    s: EmergencyView,
    origin_allowed: bool,
    pallet_name: Seq<u8>,
) -> Option<Error> {
    if !origin_allowed {
        Some(Error::BadOrigin)
    } else if !valid_utf8(pallet_name) {
        Some(Error::InvalidPalletAndFunction)
    } else if pallet_name == s.name {
        Some(Error::CannotStopEmergencyCall)
    } else {
        None
    }
}

/// A call of the emergency pallet, with whether its origin passed the check.
pub enum EmergencyCall {
    Stop { allowed: bool, pallet: Seq<u8>, function: Seq<u8> },
    Unstop { allowed: bool, pallet: Seq<u8>, function: Seq<u8> },
    StartMaintenance { allowed: bool },
    ExitMaintenance { allowed: bool },
}

/// The state after `call`; a refused call leaves the state as it was.
pub open spec fn apply_call(s: EmergencyView, call: EmergencyCall) -> EmergencyView {
    match call {
        EmergencyCall::Stop { allowed, pallet, function } => if emergency_stop_error(
            s,
            allowed,
            pallet,
        ) is Some {
            s
        } else {
            s.with_stopped(pallet, function)
        },
        EmergencyCall::Unstop { allowed, pallet, function } => if allowed {
            s.without_stopped(pallet, function)
        } else {
            s
        },
        EmergencyCall::StartMaintenance { allowed } => if allowed && !s.maintenance_mode {
            s.with_maintenance_mode(true)
        } else {
            s
        },
        EmergencyCall::ExitMaintenance { allowed } => if allowed && s.maintenance_mode {
            s.with_maintenance_mode(false)
        } else {
            s
        },
    }
}

/// The state after the calls `calls`, in order.
pub open spec fn apply_calls(s: EmergencyView, calls: Seq<EmergencyCall>) -> EmergencyView
    decreases calls.len(),
{
    if calls.len() == 0 {
        s
    } else {
        apply_call(apply_calls(s, calls.drop_last()), calls.last())
    }
}

/// The state of a pallet registered under `name` at genesis.
pub open spec fn genesis(name: Seq<u8>) -> EmergencyView {
    EmergencyView { name, stopped: Set::empty(), maintenance_mode: false }
}

/// The maintenance mode that the last authorised start or exit among
/// `calls` set, or `mode` when there is none.
pub open spec fn last_mode(mode: bool, calls: Seq<EmergencyCall>) -> bool
    decreases calls.len(),
{
    if calls.len() == 0 {
        mode
    } else {
        match calls.last() {
            EmergencyCall::StartMaintenance { allowed: true } => true,
            EmergencyCall::ExitMaintenance { allowed: true } => false,
            _ => last_mode(mode, calls.drop_last()),
        }
    }
}

/// The emergency pallet's state: the stopped calls and the maintenance flag.
pub struct Pallet {
    name: Vec<u8>,
    stopped: KeyedMap<(Vec<u8>, Vec<u8>), ()>,
    maintenance_mode: bool,
}

impl View for Pallet {
    type V = EmergencyView;

    closed spec fn view(&self) -> EmergencyView {
        EmergencyView {
            name: self.name@,
            stopped: self.stopped@.dom(),
            maintenance_mode: self.maintenance_mode,
        }
    }
}

impl Pallet {
    /// A pallet registered under `name`, with nothing stopped and the chain
    /// in normal operation.
    pub fn new(name: Vec<u8>) -> (p: Pallet)
        ensures
            p@.name == name@,
            p@.stopped == Set::<(Seq<u8>, Seq<u8>)>::empty(),
            !p@.maintenance_mode,
            p@.never_stops_itself(),
            p@ == genesis(name@),
    {
        let p = Pallet { name, stopped: KeyedMap::new(), maintenance_mode: false };
        assert(p@.stopped =~= Set::<(Seq<u8>, Seq<u8>)>::empty());
        p
    }

    /// The name the runtime registered this pallet under.
    pub fn name(&self) -> (r: &Vec<u8>)
        ensures
            r@ == self@.name,
    {
        &self.name
    }

    /// Stops the call `function_name` of pallet `pallet_name`. Refused for a
    /// bad origin, for a pallet name that is not UTF-8 and for this pallet's
    /// own calls. Stopping a call that is already stopped changes nothing
    /// and emits no event.
    pub fn emergency_stop(
        &mut self,
        origin_allowed: bool,
        pallet_name: Vec<u8>,
        function_name: Vec<u8>,
    ) -> (r: Result<Option<Event>, Error>)
        ensures
            emergency_stop_error(old(self)@, origin_allowed, pallet_name@) matches Some(e) ==> r
                == Err::<Option<Event>, Error>(e) && final(self)@ == old(self)@,
            emergency_stop_error(old(self)@, origin_allowed, pallet_name@) is None ==> {
                &&& final(self)@ == old(self)@.with_stopped(pallet_name@, function_name@)
                &&& old(self)@.stopped.contains((pallet_name@, function_name@)) ==> r
                    == Ok::<Option<Event>, Error>(None)
                &&& !old(self)@.stopped.contains((pallet_name@, function_name@)) ==> r == Ok::<
                    Option<Event>,
                    Error,
                >(
                    Some(
                        Event::EmergencyStopped {
                            pallet_name_bytes: pallet_name,
                            function_name_bytes: function_name,
                        },
                    ),
                )
            },
            origin_allowed && valid_utf8(pallet_name@) && pallet_name@ != old(self)@.name ==> r is Ok
                && final(self)@.stopped.contains((pallet_name@, function_name@)),
            r == Err::<Option<Event>, Error>(Error::CannotStopEmergencyCall) ==> pallet_name@ == old(
                self,
            )@.name,
            old(self)@.never_stops_itself() ==> final(self)@.never_stops_itself(),
            final(self)@ == apply_call(
                old(self)@,
                EmergencyCall::Stop {
                    allowed: origin_allowed,
                    pallet: pallet_name@,
                    function: function_name@,
                },
            ),
    {
        if !origin_allowed {
            return Err(Error::BadOrigin);
        }
        let is_own_pallet = match str_from_utf8(pallet_name.as_slice()) {
            None => {
                return Err(Error::InvalidPalletAndFunction);
            },
            Some(pallet_name_string) => bytes_eq(
                pallet_name_string.as_bytes(),
                self.name.as_slice(),
            ),
        };
        if is_own_pallet {
            return Err(Error::CannotStopEmergencyCall);
        }
        let key = (slice_to_vec(pallet_name.as_slice()), slice_to_vec(function_name.as_slice()));
        if self.stopped.contains_key(&key) {
            assert(self@.stopped.insert((pallet_name@, function_name@)) =~= self@.stopped);
            return Ok(None);
        }
        self.stopped.insert(key, ());
        assert(self@.stopped =~= old(self)@.stopped.insert((pallet_name@, function_name@)));
        Ok(
            Some(
                Event::EmergencyStopped {
                    pallet_name_bytes: pallet_name,
                    function_name_bytes: function_name,
                },
            ),
        )
    }

    /// Resumes the call `function_name` of pallet `pallet_name`. Refused only
    /// for a bad origin; resuming a call that is not stopped changes nothing
    /// and emits no event.
    pub fn emergency_unstop(
        &mut self,
        origin_allowed: bool,
        pallet_name: Vec<u8>,
        function_name: Vec<u8>,
    ) -> (r: Result<Option<Event>, Error>)
        ensures
            !origin_allowed ==> r == Err::<Option<Event>, Error>(Error::BadOrigin) && final(self)@
                == old(self)@,
            origin_allowed ==> {
                &&& final(self)@ == old(self)@.without_stopped(pallet_name@, function_name@)
                &&& !old(self)@.stopped.contains((pallet_name@, function_name@)) ==> r == Ok::<
                    Option<Event>,
                    Error,
                >(None)
                &&& old(self)@.stopped.contains((pallet_name@, function_name@)) ==> r == Ok::<
                    Option<Event>,
                    Error,
                >(
                    Some(
                        Event::EmergencyUnStopped {
                            pallet_name_bytes: pallet_name,
                            function_name_bytes: function_name,
                        },
                    ),
                )
            },
            old(self)@.never_stops_itself() ==> final(self)@.never_stops_itself(),
            final(self)@ == apply_call(
                old(self)@,
                EmergencyCall::Unstop {
                    allowed: origin_allowed,
                    pallet: pallet_name@,
                    function: function_name@,
                },
            ),
    {
        if !origin_allowed {
            return Err(Error::BadOrigin);
        }
        let key = (slice_to_vec(pallet_name.as_slice()), slice_to_vec(function_name.as_slice()));
        let taken = self.stopped.remove(&key);
        assert(self@.stopped =~= old(self)@.stopped.remove((pallet_name@, function_name@)));
        assert(old(self)@.never_stops_itself() ==> self@.never_stops_itself()) by {
            if old(self)@.never_stops_itself() {
                assert forall|f: Seq<u8>| !self@.stopped.contains((self@.name, f)) by {
                    assert(!old(self)@.stopped.contains((old(self)@.name, f)));
                }
            }
        }
        if taken.is_some() {
            Ok(
                Some(
                    Event::EmergencyUnStopped {
                        pallet_name_bytes: pallet_name,
                        function_name_bytes: function_name,
                    },
                ),
            )
        } else {
            Ok(None)
        }
    }

    /// Puts the chain into maintenance mode. Refused for a bad origin and
    /// when the chain is already in maintenance mode.
    pub fn start_maintenance_mode(&mut self, origin_allowed: bool) -> (r: Result<Event, Error>)
        ensures
            !origin_allowed ==> r == Err::<Event, Error>(Error::BadOrigin),
            origin_allowed && old(self)@.maintenance_mode ==> r == Err::<Event, Error>(
                Error::AlreadyInMaintenanceMode,
            ),
            r is Err ==> final(self)@ == old(self)@,
            origin_allowed && !old(self)@.maintenance_mode ==> r == Ok::<Event, Error>(
                Event::MaintenanceModeStarted,
            ) && final(self)@ == old(self)@.with_maintenance_mode(true),
            old(self)@.never_stops_itself() ==> final(self)@.never_stops_itself(),
            final(self)@ == apply_call(
                old(self)@,
                EmergencyCall::StartMaintenance { allowed: origin_allowed },
            ),
    {
        if !origin_allowed {
            return Err(Error::BadOrigin);
        }
        if self.maintenance_mode {
            return Err(Error::AlreadyInMaintenanceMode);
        }
        self.maintenance_mode = true;
        Ok(Event::MaintenanceModeStarted)
    }

    /// Returns the chain to normal operation. Refused for a bad origin and
    /// when the chain is not in maintenance mode.
    pub fn exit_maintenance_mode(&mut self, origin_allowed: bool) -> (r: Result<Event, Error>)
        ensures
            !origin_allowed ==> r == Err::<Event, Error>(Error::BadOrigin),
            origin_allowed && !old(self)@.maintenance_mode ==> r == Err::<Event, Error>(
                Error::NotInMaintenanceMode,
            ),
            r is Err ==> final(self)@ == old(self)@,
            origin_allowed && old(self)@.maintenance_mode ==> r == Ok::<Event, Error>(
                Event::MaintenanceModeEnded,
            ) && final(self)@ == old(self)@.with_maintenance_mode(false),
            old(self)@.never_stops_itself() ==> final(self)@.never_stops_itself(),
            final(self)@ == apply_call(
                old(self)@,
                EmergencyCall::ExitMaintenance { allowed: origin_allowed },
            ),
    {
        if !origin_allowed {
            return Err(Error::BadOrigin);
        }
        if !self.maintenance_mode {
            return Err(Error::NotInMaintenanceMode);
        }
        self.maintenance_mode = false;
        Ok(Event::MaintenanceModeEnded)
    }

    /// The base call filter: in maintenance mode a call passes when the
    /// maintenance filter lets it through, otherwise when the normal filter
    /// does. The two arguments are what those filters answered for the call.
    pub fn contains(&self, normal_filter_allows: bool, maintenance_filter_allows: bool) -> (r:
        bool)
        ensures
            r == (if self@.maintenance_mode {
                maintenance_filter_allows
            } else {
                normal_filter_allows
            }),
    {
        if self.maintenance_mode {
            maintenance_filter_allows
        } else {
            normal_filter_allows
        }
    }

    /// Whether the chain is in maintenance mode.
    pub fn maintenance_mode(&self) -> (r: bool)
        ensures
            r == self@.maintenance_mode,
    {
        self.maintenance_mode
    }

    /// `Some(())` when the call `(pallet_name, function_name)` is stopped.
    pub fn emergency_stopped_pallets(&self, pallet_name: &[u8], function_name: &[u8]) -> (r:
        Option<()>)
        ensures
            r is Some <==> self@.stopped.contains((pallet_name@, function_name@)),
    {
        let key = (slice_to_vec(pallet_name), slice_to_vec(function_name));
        if self.stopped.contains_key(&key) {
            Some(())
        } else {
            None
        }
    }
}

/// The call filter that refuses stopped calls; it answers whether the call
/// named by pallet and function is stopped.
pub struct EmergencyStoppedFilter;

impl EmergencyStoppedFilter {
    /// Whether the call `function_name` of pallet `pallet_name` is stopped.
    pub fn contains(pallet: &Pallet, pallet_name: &str, function_name: &str) -> (r: bool)
        ensures
            r == pallet@.stopped.contains((pallet_name.spec_bytes(), function_name.spec_bytes())),
    {
        pallet.emergency_stopped_pallets(pallet_name.as_bytes(), function_name.as_bytes()).is_some()
    }
}

/// Once a call is stopped, the stopped-call filter names it as stopped.
pub proof fn law_stopped_call_is_filtered(s: EmergencyView, pallet: Seq<u8>, function: Seq<u8>)
    requires
        emergency_stop_error(s, true, pallet) is None,
    ensures
        s.with_stopped(pallet, function).stopped.contains((pallet, function)),
{
}

/// Stopping a call leaves every other call as it was.
pub proof fn law_stop_touches_only_its_call(
    s: EmergencyView,
    pallet: Seq<u8>,
    function: Seq<u8>,
    other_pallet: Seq<u8>,
    other_function: Seq<u8>,
)
    requires
        (other_pallet, other_function) != (pallet, function),
    ensures
        s.with_stopped(pallet, function).stopped.contains((other_pallet, other_function))
            == s.stopped.contains((other_pallet, other_function)),
        s.without_stopped(pallet, function).stopped.contains((other_pallet, other_function))
            == s.stopped.contains((other_pallet, other_function)),
{
}

/// Resuming a call undoes stopping it: the state is the one before the stop.
pub proof fn law_unstop_undoes_stop(s: EmergencyView, pallet: Seq<u8>, function: Seq<u8>)
    requires
        !s.stopped.contains((pallet, function)),
    ensures
        s.with_stopped(pallet, function).without_stopped(pallet, function) == s,
{
    assert(s.with_stopped(pallet, function).without_stopped(pallet, function).stopped =~= s.stopped);
}

/// Resuming a call that is not stopped changes nothing.
pub proof fn law_unstop_of_running_call_is_noop(s: EmergencyView, pallet: Seq<u8>, function: Seq<u8>)
    requires
        !s.stopped.contains((pallet, function)),
    ensures
        s.without_stopped(pallet, function) == s,
{
    assert(s.without_stopped(pallet, function).stopped =~= s.stopped);
}

/// Stopping a call twice is the same as stopping it once.
pub proof fn law_stop_is_idempotent(s: EmergencyView, pallet: Seq<u8>, function: Seq<u8>)
    ensures
        s.with_stopped(pallet, function).with_stopped(pallet, function) == s.with_stopped(
            pallet,
            function,
        ),
{
    assert(s.with_stopped(pallet, function).with_stopped(pallet, function).stopped =~= s.with_stopped(
        pallet,
        function,
    ).stopped);
}

/// The emergency pallet's own calls are refused by `emergency_stop`.
pub proof fn law_own_calls_cannot_be_stopped(s: EmergencyView)
    requires
        valid_utf8(s.name),
    ensures
        emergency_stop_error(s, true, s.name) == Some(Error::CannotStopEmergencyCall),
{
}

/// A stop that is accepted keeps the emergency pallet's own calls running.
pub proof fn law_stop_keeps_own_calls_running(s: EmergencyView, pallet: Seq<u8>, function: Seq<u8>)
    requires
        s.never_stops_itself(),
        emergency_stop_error(s, true, pallet) is None,
    ensures
        s.with_stopped(pallet, function).never_stops_itself(),
{
}

/// Entering and then leaving maintenance mode returns to the state before.
pub proof fn law_maintenance_round_trip(s: EmergencyView)
    requires
        !s.maintenance_mode,
    ensures
        s.with_maintenance_mode(true).with_maintenance_mode(false) == s,
{
}

/// No call changes the name the pallet is registered under.
pub proof fn law_calls_keep_name(s: EmergencyView, calls: Seq<EmergencyCall>)
    ensures
        apply_calls(s, calls).name == s.name,
    decreases calls.len(),
{
    if calls.len() > 0 {
        law_calls_keep_name(s, calls.drop_last());
    }
}

/// In every state reachable from genesis, no call of the emergency pallet
/// itself is stopped.
pub proof fn law_reachable_states_never_stop_own_calls(name: Seq<u8>, calls: Seq<EmergencyCall>)
    ensures
        apply_calls(genesis(name), calls).never_stops_itself(),
    decreases calls.len(),
{
    if calls.len() > 0 {
        law_reachable_states_never_stop_own_calls(name, calls.drop_last());
        let before = apply_calls(genesis(name), calls.drop_last());
        let after = apply_calls(genesis(name), calls);
        assert forall|f: Seq<u8>| !after.stopped.contains((after.name, f)) by {
            assert(!before.stopped.contains((before.name, f)));
        }
    }
}

/// A stopped call stays stopped through any calls that do not include an
/// authorised resume of it.
pub proof fn law_stopped_call_stays_stopped_until_resumed(
    s: EmergencyView,
    calls: Seq<EmergencyCall>,
    pallet: Seq<u8>,
    function: Seq<u8>,
)
    requires
        s.stopped.contains((pallet, function)),
        forall|i: int|
            0 <= i < calls.len() ==> #[trigger] calls[i] != (EmergencyCall::Unstop {
                allowed: true,
                pallet,
                function,
            }),
    ensures
        apply_calls(s, calls).stopped.contains((pallet, function)),
    decreases calls.len(),
{
    if calls.len() > 0 {
        let rest = calls.drop_last();
        assert forall|i: int| 0 <= i < rest.len() implies #[trigger] rest[i] != (
        EmergencyCall::Unstop { allowed: true, pallet, function }) by {
            assert(rest[i] == calls[i]);
        }
        law_stopped_call_stays_stopped_until_resumed(s, rest, pallet, function);
        assert(calls.last() == calls[calls.len() - 1]);
    }
}

/// A call that is not stopped stays running through any calls that do not
/// include an accepted stop of it (an authorised stop whose pallet name is
/// valid UTF-8 and not this pallet's).
pub proof fn law_running_call_stays_running_until_stopped(
    s: EmergencyView,
    calls: Seq<EmergencyCall>,
    pallet: Seq<u8>,
    function: Seq<u8>,
)
    requires
        !s.stopped.contains((pallet, function)),
        emergency_stop_error(s, true, pallet) is Some || forall|i: int|
            0 <= i < calls.len() ==> #[trigger] calls[i] != (EmergencyCall::Stop {
                allowed: true,
                pallet,
                function,
            }),
    ensures
        !apply_calls(s, calls).stopped.contains((pallet, function)),
    decreases calls.len(),
{
    if calls.len() > 0 {
        let rest = calls.drop_last();
        assert(emergency_stop_error(s, true, pallet) is Some || forall|i: int|
            0 <= i < rest.len() ==> #[trigger] rest[i] != (EmergencyCall::Stop {
                allowed: true,
                pallet,
                function,
            })) by {
            if emergency_stop_error(s, true, pallet) is None {
                assert forall|i: int| 0 <= i < rest.len() implies #[trigger] rest[i] != (
                EmergencyCall::Stop { allowed: true, pallet, function }) by {
                    assert(rest[i] == calls[i]);
                }
            }
        }
        law_running_call_stays_running_until_stopped(s, rest, pallet, function);
        law_calls_keep_name(s, rest);
        assert(calls.last() == calls[calls.len() - 1]);
    }
}

/// The maintenance mode, and so the base filter that `contains` consults,
/// is the one the last authorised start or exit set, or the initial one
/// when there was none.
pub proof fn law_mode_follows_last_change(s: EmergencyView, calls: Seq<EmergencyCall>)
    ensures
        apply_calls(s, calls).maintenance_mode == last_mode(s.maintenance_mode, calls),
    decreases calls.len(),
{
    if calls.len() > 0 {
        law_mode_follows_last_change(s, calls.drop_last());
    }
}


/// An authorised stop of a call of any pallet whose name is valid UTF-8 and
/// differs from this pallet's own name is accepted and leaves that call
/// stopped; the refusal of the pallet's own calls comes only for its own
/// name.
pub proof fn law_stop_of_other_pallet_succeeds(
    s: EmergencyView,
    allowed: bool,
    pallet: Seq<u8>,
    function: Seq<u8>,
)
    ensures
        allowed && valid_utf8(pallet) && pallet != s.name ==> {
            &&& emergency_stop_error(s, allowed, pallet) is None
            &&& apply_call(
                s,
                EmergencyCall::Stop { allowed, pallet, function },
            ).stopped.contains((pallet, function))
        },
        emergency_stop_error(s, allowed, pallet) == Some(Error::CannotStopEmergencyCall) ==> pallet
            == s.name,
{
}

} // verus!
