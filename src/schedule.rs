//! Fair choice between the two sources of the event loop: the command queue and
//! the network's event stream.
use vstd::prelude::*;

verus! {

/// A source that the event loop takes its next item from.
#[derive(Debug, Clone, Copy, PartialEq, Eq, Structural)]
pub enum Source {
    Commands,
    Network,
}

pub open spec fn other(s: Source) -> Source {
    match s {
        Source::Commands => Source::Network,
        Source::Network => Source::Commands,
    }
}

/// The source served next: the preferred one when both are ready, else the one
/// that is ready, if any.
pub open spec fn choose_source(preferred: Source, commands_ready: bool, network_ready: bool) -> Option<
    Source,
> {
    if commands_ready && network_ready {
        Some(preferred)
    } else if commands_ready {
        Some(Source::Commands)
    } else if network_ready {
        Some(Source::Network)
    } else {
        None
    }
}

/// Alternates between the two sources when both are ready: the source served
/// last yields to the other one.
pub struct FairSelect {
    preferred: Source,
}

impl FairSelect {
    pub closed spec fn spec_preferred(&self) -> Source {
        self.preferred
    }

    /// Commands are preferred at first.
    pub fn new() -> (r: Self)
        ensures
            r.spec_preferred() == Source::Commands,
    {
        FairSelect { preferred: Source::Commands }
    }

    /// The source to serve first when both are ready.
    pub fn preferred(&self) -> (r: Source)
        ensures
            r == self.spec_preferred(),
    {
        self.preferred
    }

    /// The source to serve, given which ones are ready.
    pub fn select(&self, commands_ready: bool, network_ready: bool) -> (r: Option<Source>)
        ensures
            r == choose_source(self.spec_preferred(), commands_ready, network_ready),
    {
        if commands_ready && network_ready {
            Some(self.preferred)
        } else if commands_ready {
            Some(Source::Commands)
        } else if network_ready {
            Some(Source::Network)
        } else {
            None
        }
    }

    /// Notes that `served` was served: the other source is preferred next.
    pub fn served(&mut self, served: Source)
        ensures
            final(self).spec_preferred() == other(served),
    {
        self.preferred = match served {
            Source::Commands => Source::Network,
            Source::Network => Source::Commands,
        };
    }
}

/// While a command stays ready, it is served within two rounds, however busy the
/// network is: the loop never starves the command queue.
pub proof fn commands_not_starved(preferred: Source, network_first: bool, network_second: bool)
    ensures
        ({
            let first = choose_source(preferred, true, network_first);
            let second = choose_source(other(first.unwrap()), true, network_second);
            first == Some(Source::Commands) || second == Some(Source::Commands)
        }),
{
}

/// While network events stay ready, one is served within two rounds, however
/// many commands arrive.
pub proof fn network_not_starved(preferred: Source, commands_first: bool, commands_second: bool)
    ensures
        ({
            let first = choose_source(preferred, commands_first, true);
            let second = choose_source(other(first.unwrap()), commands_second, true);
            first == Some(Source::Network) || second == Some(Source::Network)
        }),
{
}

} // verus!
