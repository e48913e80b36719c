use vstd::prelude::*;

verus! {

/// A request that a front-end of the tracker has handled, by its transport
/// and its kind. The front-ends over TCP have no requests that only
/// connect.
#[derive(Clone, Copy, Debug, PartialEq, Eq, Structural)]
pub enum Event {
    Tcp4Announce,
    Tcp4Scrape,
    Tcp6Announce,
    Tcp6Scrape,
    Udp4Connect,
    Udp4Announce,
    Udp4Scrape,
    Udp6Connect,
    Udp6Announce,
    Udp6Scrape,
}

/// How many requests the front-ends have handled, by transport and kind.
#[derive(Clone, Copy, Debug, PartialEq, Eq, Structural)]
pub struct Metrics {
    pub tcp4_connections_handled: u64,
    pub tcp4_announces_handled: u64,
    pub tcp4_scrapes_handled: u64,
    pub tcp6_connections_handled: u64,
    pub tcp6_announces_handled: u64,
    pub tcp6_scrapes_handled: u64,
    pub udp4_connections_handled: u64,
    pub udp4_announces_handled: u64,
    pub udp4_scrapes_handled: u64,
    pub udp6_connections_handled: u64,
    pub udp6_announces_handled: u64,
    pub udp6_scrapes_handled: u64,
}

/// A counter after one more request; it stays at its highest value.
pub open spec fn spec_one_more(n: u64) -> u64 {
    if n < u64::MAX {
        (n + 1) as u64
    } else {
        n
    }
}

#[verifier::when_used_as_spec(spec_one_more)]
pub fn one_more(n: u64) -> (r: u64)
    ensures
        r == spec_one_more(n),
{
    if n < u64::MAX {
        n + 1
    } else {
        n
    }
}

impl Default for Metrics {
    fn default() -> (r: Self)
        ensures
            r == Metrics::zeroed(),
    {
        Metrics {
            tcp4_connections_handled: 0,
            tcp4_announces_handled: 0,
            tcp4_scrapes_handled: 0,
            tcp6_connections_handled: 0,
            tcp6_announces_handled: 0,
            tcp6_scrapes_handled: 0,
            udp4_connections_handled: 0,
            udp4_announces_handled: 0,
            udp4_scrapes_handled: 0,
            udp6_connections_handled: 0,
            udp6_announces_handled: 0,
            udp6_scrapes_handled: 0,
        }
    }
}

impl Metrics {
    /// No request handled yet.
    pub open spec fn zeroed() -> Metrics {
        Metrics {
            tcp4_connections_handled: 0,
            tcp4_announces_handled: 0,
            tcp4_scrapes_handled: 0,
            tcp6_connections_handled: 0,
            tcp6_announces_handled: 0,
            tcp6_scrapes_handled: 0,
            udp4_connections_handled: 0,
            udp4_announces_handled: 0,
            udp4_scrapes_handled: 0,
            udp6_connections_handled: 0,
            udp6_announces_handled: 0,
            udp6_scrapes_handled: 0,
        }
    }

    /// The counts after one more request. Over TCP every announce and
    /// every scrape is a connection too.
    pub open spec fn with_event(self, event: Event) -> Metrics {
        match event {
            Event::Tcp4Announce => Metrics {
                tcp4_connections_handled: one_more(self.tcp4_connections_handled),
                tcp4_announces_handled: one_more(self.tcp4_announces_handled),
                ..self
            },
            Event::Tcp4Scrape => Metrics {
                tcp4_connections_handled: one_more(self.tcp4_connections_handled),
                tcp4_scrapes_handled: one_more(self.tcp4_scrapes_handled),
                ..self
            },
            Event::Tcp6Announce => Metrics {
                tcp6_connections_handled: one_more(self.tcp6_connections_handled),
                tcp6_announces_handled: one_more(self.tcp6_announces_handled),
                ..self
            },
            Event::Tcp6Scrape => Metrics {
                tcp6_connections_handled: one_more(self.tcp6_connections_handled),
                tcp6_scrapes_handled: one_more(self.tcp6_scrapes_handled),
                ..self
            },
            Event::Udp4Connect => Metrics {
                udp4_connections_handled: one_more(self.udp4_connections_handled),
                ..self
            },
            Event::Udp4Announce => Metrics {
                udp4_announces_handled: one_more(self.udp4_announces_handled),
                ..self
            },
            Event::Udp4Scrape => Metrics {
                udp4_scrapes_handled: one_more(self.udp4_scrapes_handled),
                ..self
            },
            Event::Udp6Connect => Metrics {
                udp6_connections_handled: one_more(self.udp6_connections_handled),
                ..self
            },
            Event::Udp6Announce => Metrics {
                udp6_announces_handled: one_more(self.udp6_announces_handled),
                ..self
            },
            Event::Udp6Scrape => Metrics {
                udp6_scrapes_handled: one_more(self.udp6_scrapes_handled),
                ..self
            },
        }
    }

    /// Counts one more request.
    pub fn record(&mut self, event: Event)
        ensures
            *final(self) == old(self).with_event(event),
    {
        match event {
            Event::Tcp4Announce => {
                self.tcp4_connections_handled = one_more(self.tcp4_connections_handled);
                self.tcp4_announces_handled = one_more(self.tcp4_announces_handled);
            },
            Event::Tcp4Scrape => {
                self.tcp4_connections_handled = one_more(self.tcp4_connections_handled);
                self.tcp4_scrapes_handled = one_more(self.tcp4_scrapes_handled);
            },
            Event::Tcp6Announce => {
                self.tcp6_connections_handled = one_more(self.tcp6_connections_handled);
                self.tcp6_announces_handled = one_more(self.tcp6_announces_handled);
            },
            Event::Tcp6Scrape => {
                self.tcp6_connections_handled = one_more(self.tcp6_connections_handled);
                self.tcp6_scrapes_handled = one_more(self.tcp6_scrapes_handled);
            },
            Event::Udp4Connect => {
                self.udp4_connections_handled = one_more(self.udp4_connections_handled);
            },
            Event::Udp4Announce => {
                self.udp4_announces_handled = one_more(self.udp4_announces_handled);
            },
            Event::Udp4Scrape => {
                self.udp4_scrapes_handled = one_more(self.udp4_scrapes_handled);
            },
            Event::Udp6Connect => {
                self.udp6_connections_handled = one_more(self.udp6_connections_handled);
            },
            Event::Udp6Announce => {
                self.udp6_announces_handled = one_more(self.udp6_announces_handled);
            },
            Event::Udp6Scrape => {
                self.udp6_scrapes_handled = one_more(self.udp6_scrapes_handled);
            },
        }
    }
}

} // verus!
