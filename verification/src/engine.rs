//! The business logic processor's order decision: a buy signal opens a
//! position when none is open, a sell signal closes the open one, and
//! everything else holds.
use vstd::prelude::*;
use crate::strategy::Signal;

verus! {

/// What the processor publishes for a tick.
#[derive(Clone, Copy, PartialEq, Eq, Structural, Debug)]
pub enum OrderAction {
    /// Open a long position at the tick's price.
    Open,
    /// Close the open position at the tick's price.
    Close,
    /// Do nothing.
    Hold,
}

/// The action for `signal` when a position is (`has_position`) or is not
/// open.
pub open spec fn spec_order_action(signal: Signal, has_position: bool) -> OrderAction {
    match signal {
        Signal::Buy => if has_position { OrderAction::Hold } else { OrderAction::Open },
        Signal::Sell => if has_position { OrderAction::Close } else { OrderAction::Hold },
        Signal::Hold => OrderAction::Hold,
    }
}

/// Whether a position is open after `action`, given whether one was.
pub open spec fn position_after(action: OrderAction, has_position: bool) -> bool {
    match action {
        OrderAction::Open => true,
        OrderAction::Close => false,
        OrderAction::Hold => has_position,
    }
}

/// Decides what to do with `signal` when a position is or is not open.
pub fn order_action(signal: Signal, has_position: bool) -> (r: OrderAction)
    ensures
        r == spec_order_action(signal, has_position),
{
    match signal {
        Signal::Buy if !has_position => OrderAction::Open,
        Signal::Sell if has_position => OrderAction::Close,
        _ => OrderAction::Hold,
    }
}

/// At most one position is ever open: the processor opens only when no
/// position is open and closes only when one is, so over any run opens and
/// closes alternate, starting with an open.
pub proof fn lemma_one_position_at_a_time(signal: Signal, has_position: bool)
    ensures
        spec_order_action(signal, has_position) == OrderAction::Open ==> !has_position,
        spec_order_action(signal, has_position) == OrderAction::Close ==> has_position,
        position_after(spec_order_action(signal, has_position), has_position) == (match signal {
            Signal::Buy => true,
            Signal::Sell => false,
            Signal::Hold => has_position,
        }),
{
}

} // verus!
