//! What the process does on each signal it listens for.

use vstd::prelude::*;

verus! {

/// A signal the process listens for.
#[derive(Debug, Clone, Copy, PartialEq, Eq, Structural)]
pub enum Signal {
    Terminate,
    Interrupt,
    Hangup,
}

/// What is done about a signal.
#[derive(Debug, Clone, Copy, PartialEq, Eq, Structural)]
pub enum SignalAction {
    /// Leave the process at once with this exit code.
    Exit { code: i32 },
    /// Reload the configuration. Reserved: nothing is reloaded yet.
    Reload,
}

/// The action for each signal.
pub open spec fn action_for(signal: Signal) -> SignalAction {
    match signal {
        Signal::Terminate => SignalAction::Exit { code: 0 },
        Signal::Interrupt => SignalAction::Exit { code: 0 },
        Signal::Hangup => SignalAction::Reload,
    }
}

/// Decides what is done about `signal`: the two termination signals end
/// the process with exit code 0, a hangup asks for a reload.
pub fn on_signal(signal: Signal) -> (action: SignalAction)
    ensures
        action == action_for(signal),
{
    match signal {
        Signal::Terminate => SignalAction::Exit { code: 0 },
        Signal::Interrupt => SignalAction::Exit { code: 0 },
        Signal::Hangup => SignalAction::Reload,
    }
}

/// The signals to install a handler for, in the order they are installed.
pub fn handle_signals() -> (signals: Vec<Signal>)
    ensures
        signals@ == seq![Signal::Terminate, Signal::Interrupt, Signal::Hangup],
{
    let mut signals: Vec<Signal> = Vec::new();
    signals.push(Signal::Terminate);
    signals.push(Signal::Interrupt);
    signals.push(Signal::Hangup);
    assert(signals@ =~= seq![Signal::Terminate, Signal::Interrupt, Signal::Hangup]);
    signals
}

} // verus!
