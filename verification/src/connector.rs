//! Finding an upstream that accepts a connection.
//!
//! The caller dials the address it is given and reports a failure; the
//! failed address leaves the live list and another live upstream is picked,
//! until one accepts or none is left. A dial is never made to an address
//! outside the live list as it is at that moment.

use crate::routing::{selected, without, within, LiveUpstreams};
use rand::rngs::{OsRng, StdRng};
use rand::{Rng, SeedableRng};
use vstd::prelude::*;

verus! {

/// What the caller reports to the connector.
#[derive(Clone, Debug, PartialEq, Eq)]
pub enum ConnectEvent {
    /// A connection is wanted.
    Begin,
    /// The dial to this address failed.
    Failed(String),
}

/// What the connector asks of the caller.
#[derive(Clone, Debug, PartialEq, Eq)]
pub enum ConnectAction {
    /// Dial this address; on failure report it with `ConnectEvent::Failed`.
    Dial(String),
    /// No upstream is live: the attempt has failed.
    Unreachable,
}

/// The live list after an event: a failed address has left it.
pub open spec fn live_after(live: Seq<Seq<char>>, event: ConnectEvent) -> Seq<Seq<char>> {
    match event {
        ConnectEvent::Begin => live,
        ConnectEvent::Failed(addr) => without(live, addr@),
    }
}

/// A number below `len` from `rand`'s `StdRng`, seeded for this one draw
/// from the operating system by `SeedableRng::from_rng(OsRng)` and drawn with
/// `Rng::gen_range(0..len)`. `gen_range` panics on an empty range, so `len`
/// must not be zero; it returns a value of the range. Nothing else is
/// claimed of the number. The result is `None` if the operating system gave
/// no seed.
#[verifier::external_body]
fn random_below(len: usize) -> (pick: Option<usize>)
    requires
        len > 0,
    ensures
        pick matches Some(below) ==> below < len,
{
    match StdRng::from_rng(OsRng) {
        Ok(mut rng) => Some(rng.gen_range(0..len)),
        Err(_) => None,
    }
}

/// Takes a failed address out of the live list.
fn note(upstreams: &mut LiveUpstreams, event: ConnectEvent)
    ensures
        final(upstreams).configured() == old(upstreams).configured(),
        final(upstreams).live() == live_after(old(upstreams).live(), event),
{
    match event {
        ConnectEvent::Begin => {},
        ConnectEvent::Failed(addr) => {
            upstreams.remove_live(addr.as_str());
        },
    }
}

/// The dial of the upstream that `selector` picks from the live list.
fn dial(upstreams: &LiveUpstreams, selector: usize) -> (action: ConnectAction)
    ensures
        within(upstreams.live(), upstreams.configured()),
        match action {
            ConnectAction::Dial(addr) => selected(upstreams.live(), selector as nat) == Some(addr@)
                && upstreams.live().contains(addr@),
            ConnectAction::Unreachable => upstreams.live().len() == 0,
        },
{
    match upstreams.select(selector) {
        Some(addr) => ConnectAction::Dial(addr),
        None => ConnectAction::Unreachable,
    }
}

/// One step of the connector, with the pick among the live upstreams made
/// by `selector`.
///
/// A failed address is first removed from the live list. Then the address
/// that `selector` picks from the list is to be dialled; if the list is
/// empty, the attempt is over.
pub fn connect_step_with(
    upstreams: &mut LiveUpstreams,
    event: ConnectEvent,
    selector: usize,
) -> (action: ConnectAction)
    ensures
        final(upstreams).configured() == old(upstreams).configured(),
        final(upstreams).live() == live_after(old(upstreams).live(), event),
        within(final(upstreams).live(), final(upstreams).configured()),
        match action {
            ConnectAction::Dial(addr) => selected(final(upstreams).live(), selector as nat)
                == Some(addr@) && final(upstreams).live().contains(addr@),
            ConnectAction::Unreachable => final(upstreams).live().len() == 0,
        },
{
    note(upstreams, event);
    dial(upstreams, selector)
}

/// One step of the connector, with a random pick among the live upstreams.
///
/// A failed address is first removed from the live list. Then one of the
/// upstreams that are still live is to be dialled; if the list is empty, the
/// attempt is over. Which upstream is picked is not determined: its place in
/// the list is drawn from a generator seeded by the operating system, and is
/// the first if no seed can be had.
pub fn connect_step(upstreams: &mut LiveUpstreams, event: ConnectEvent) -> (action: ConnectAction)
    ensures
        final(upstreams).configured() == old(upstreams).configured(),
        final(upstreams).live() == live_after(old(upstreams).live(), event),
        within(final(upstreams).live(), final(upstreams).configured()),
        match action {
            ConnectAction::Dial(addr) => final(upstreams).live().contains(addr@),
            ConnectAction::Unreachable => final(upstreams).live().len() == 0,
        },
{
    note(upstreams, event);
    let count = upstreams.live_count();
    if count == 0 {
        return ConnectAction::Unreachable;
    }
    let selector = match random_below(count) {
        Some(below) => below,
        None => 0,
    };
    dial(upstreams, selector)
}

} // verus!
