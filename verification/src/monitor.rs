//! The background monitor: traffic speed, network strategy and memory
//! warnings, computed from the readings the host takes every two seconds.

use vstd::prelude::*;

use crate::models::StrategyMode;

verus! {

/// The seconds between two monitor ticks.
pub const SPEED_INTERVAL_SECS: u64 = 2;

/// The network mode announced to the front end.
#[derive(PartialEq, Eq, Structural, Clone, Copy, Debug)]
pub enum NetworkMode {
    /// `LOW_DATA`: metered network, preloading is reduced
    LowData,
    /// `HIGH_SPEED`: full preloading
    HighSpeed,
}

impl NetworkMode {
    /// The event payload of the mode.
    pub fn label(&self) -> (s: &'static str)
        ensures
            s@ == (match self {
                NetworkMode::LowData => "LOW_DATA"@,
                NetworkMode::HighSpeed => "HIGH_SPEED"@,
            }),
    {
        match self {
            NetworkMode::LowData => "LOW_DATA",
            NetworkMode::HighSpeed => "HIGH_SPEED",
        }
    }
}

/// What the host does in a tick besides sampling traffic and memory.
#[derive(Debug, Clone, Copy)]
pub struct TickPlan {
    /// reload the list of network interfaces
    pub refresh_interfaces: bool,
    /// probe the network and update the strategy
    pub probe_network: bool,
}

/// The state the monitor keeps between ticks.
#[derive(Debug, Clone, Copy)]
pub struct MonitorState {
    pub tick_count: u64,
    pub last_rx: u64,
    pub last_tx: u64,
    /// whether a first traffic sample has been taken
    pub speed_primed: bool,
    pub strategy: StrategyMode,
}

/// The strategy for a network: a hotspot saves data, a poor pulse (score
/// below 50) recovers, anything else runs at full speed.
pub open spec fn strategy_for(is_hotspot: bool, score: u8) -> StrategyMode {
    if is_hotspot {
        StrategyMode::PowerSave
    } else if score < 50 {
        StrategyMode::Recovery
    } else {
        StrategyMode::Performance
    }
}

/// The strategy follows the network: a hotspot always saves data; off a
/// hotspot every pulse score below 50 recovers and every score of 50 or more
/// runs at full speed.
pub proof fn law_strategy_follows_the_network(is_hotspot: bool, score: u8)
    ensures
        is_hotspot ==> strategy_for(is_hotspot, score) == StrategyMode::PowerSave,
        !is_hotspot && score < 50 ==> strategy_for(is_hotspot, score) == StrategyMode::Recovery,
        !is_hotspot && score >= 50 ==> strategy_for(is_hotspot, score) == StrategyMode::Performance,
{
}

/// The strategy for a network.
pub fn classify_strategy(is_hotspot: bool, score: u8) -> (m: StrategyMode)
    ensures
        m == strategy_for(is_hotspot, score),
{
    if is_hotspot {
        StrategyMode::PowerSave
    } else if score < 50 {
        StrategyMode::Recovery
    } else {
        StrategyMode::Performance
    }
}

impl MonitorState {
    /// The state before the first tick: no sample taken, full speed.
    pub fn new() -> (s: MonitorState)
        ensures
            s.tick_count == 0,
            s.last_rx == 0,
            s.last_tx == 0,
            !s.speed_primed,
            s.strategy == StrategyMode::Performance,
    {
        MonitorState {
            tick_count: 0,
            last_rx: 0,
            last_tx: 0,
            speed_primed: false,
            strategy: StrategyMode::Performance,
        }
    }

    /// Starts a tick: the interface list is reloaded every 15 ticks (the
    /// first tick included), the network is probed every 5 ticks. The tick
    /// counter wraps at 2^64, as the release build's arithmetic does.
    pub fn begin_tick(&mut self) -> (p: TickPlan)
        ensures
            final(self).tick_count == (old(self).tick_count + 1) % 0x10000000000000000,
            final(self).last_rx == old(self).last_rx,
            final(self).last_tx == old(self).last_tx,
            final(self).speed_primed == old(self).speed_primed,
            final(self).strategy == old(self).strategy,
            p.refresh_interfaces == (final(self).tick_count % 15 == 1),
            p.probe_network == (final(self).tick_count % 5 == 0),
    {
        self.tick_count = self.tick_count.wrapping_add(1);
        TickPlan {
            refresh_interfaces: self.tick_count % 15 == 1,
            probe_network: self.tick_count % 5 == 0,
        }
    }

    /// Records the cumulative received and sent byte counts and returns the
    /// speed in bytes per second. The first sample only primes the counters
    /// and reports (0, 0), so that the traffic since boot is not taken for a
    /// speed; a counter that went backwards counts as no traffic.
    pub fn record_traffic(&mut self, rx: u64, tx: u64) -> (speed: (u64, u64))
        ensures
            final(self).last_rx == rx,
            final(self).last_tx == tx,
            final(self).speed_primed,
            final(self).tick_count == old(self).tick_count,
            final(self).strategy == old(self).strategy,
            !old(self).speed_primed ==> speed == (0u64, 0u64),
            old(self).speed_primed ==> speed.0 == (if rx >= old(self).last_rx {
                (rx - old(self).last_rx) / 2
            } else {
                0
            }) && speed.1 == (if tx >= old(self).last_tx {
                (tx - old(self).last_tx) / 2
            } else {
                0
            }),
    {
        if !self.speed_primed {
            self.last_rx = rx;
            self.last_tx = tx;
            self.speed_primed = true;
            (0, 0)
        } else {
            let delta_rx = rx.saturating_sub(self.last_rx);
            let delta_tx = tx.saturating_sub(self.last_tx);
            self.last_rx = rx;
            self.last_tx = tx;
            (delta_rx / SPEED_INTERVAL_SECS, delta_tx / SPEED_INTERVAL_SECS)
        }
    }

    /// Updates the strategy from a network pulse; when the strategy changes,
    /// returns the mode to announce (`LowData` for the power-save strategy,
    /// `HighSpeed` for the others).
    pub fn apply_pulse(&mut self, is_hotspot: bool, score: u8) -> (m: Option<NetworkMode>)
        ensures
            final(self).strategy == strategy_for(is_hotspot, score),
            final(self).tick_count == old(self).tick_count,
            final(self).last_rx == old(self).last_rx,
            final(self).last_tx == old(self).last_tx,
            final(self).speed_primed == old(self).speed_primed,
            m is Some == (strategy_for(is_hotspot, score) != old(self).strategy),
            m matches Some(mode) ==> (mode == NetworkMode::LowData) == (strategy_for(is_hotspot, score)
                == StrategyMode::PowerSave),
    {
        let new_strategy = classify_strategy(is_hotspot, score);
        if new_strategy != self.strategy {
            self.strategy = new_strategy;
            if new_strategy == StrategyMode::PowerSave {
                Some(NetworkMode::LowData)
            } else {
                Some(NetworkMode::HighSpeed)
            }
        } else {
            None
        }
    }
}

/// The total received and sent bytes of all interfaces, each wrapping at
/// 2^64 as the release build's arithmetic does.
pub fn total_traffic(counters: &Vec<(u64, u64)>) -> (t: (u64, u64))
    ensures
        t.0 == sum_rx(counters@) % 0x10000000000000000,
        t.1 == sum_tx(counters@) % 0x10000000000000000,
{
    let mut rx: u64 = 0;
    let mut tx: u64 = 0;
    let n = counters.len();
    let mut i: usize = 0;
    assert(counters@.take(0) =~= Seq::<(u64, u64)>::empty());
    while i < n
        invariant
            i <= n,
            n == counters@.len(),
            rx == sum_rx(counters@.take(i as int)) % 0x10000000000000000,
            tx == sum_tx(counters@.take(i as int)) % 0x10000000000000000,
        decreases n - i,
    {
        assert(counters@.take(i + 1).drop_last() =~= counters@.take(i as int));
        let (r, s) = counters[i];
        proof {
            lemma_wrapping_step(sum_rx(counters@.take(i as int)), r);
            lemma_wrapping_step(sum_tx(counters@.take(i as int)), s);
        }
        rx = rx.wrapping_add(r);
        tx = tx.wrapping_add(s);
        i += 1;
    }
    assert(counters@.take(n as int) =~= counters@);
    (rx, tx)
}

/// Adding to a running total kept modulo 2^64.
proof fn lemma_wrapping_step(total: nat, x: u64)
    ensures
        (if (total % 0x10000000000000000) + x > u64::MAX {
            (total % 0x10000000000000000) + x - 0x10000000000000000
        } else {
            (total % 0x10000000000000000) + x
        }) == (total + x) % 0x10000000000000000,
{
    let m: int = 0x10000000000000000;
    vstd::arithmetic::div_mod::lemma_add_mod_noop(total as int, x as int, m);
    vstd::arithmetic::div_mod::lemma_small_mod(x as nat, m as nat);
    vstd::arithmetic::div_mod::lemma_mod_bound(total as int, m);
    let a = (total as int) % m;
    if a + x >= m {
        vstd::arithmetic::div_mod::lemma_mod_sub_multiples_vanish(a + x, m);
        vstd::arithmetic::div_mod::lemma_small_mod((a + x - m) as nat, m as nat);
    } else {
        vstd::arithmetic::div_mod::lemma_small_mod((a + x) as nat, m as nat);
    }
}

/// The sum of the received counters.
pub open spec fn sum_rx(c: Seq<(u64, u64)>) -> nat
    decreases c.len(),
{
    if c.len() == 0 {
        0
    } else {
        sum_rx(c.drop_last()) + c.last().0 as nat
    }
}

/// The sum of the sent counters.
pub open spec fn sum_tx(c: Seq<(u64, u64)>) -> nat
    decreases c.len(),
{
    if c.len() == 0 {
        0
    } else {
        sum_tx(c.drop_last()) + c.last().1 as nat
    }
}

/// The totals add up over the interfaces: the totals of two lists of
/// counters together are the sums of their totals, and one interface's
/// totals are its own counters.
pub proof fn law_totals_add_up(a: Seq<(u64, u64)>, b: Seq<(u64, u64)>)
    ensures
        sum_rx(a + b) == sum_rx(a) + sum_rx(b),
        sum_tx(a + b) == sum_tx(a) + sum_tx(b),
        a.len() == 1 ==> sum_rx(a) == a[0].0 && sum_tx(a) == a[0].1,
        a.len() == 0 ==> sum_rx(a) == 0 && sum_tx(a) == 0,
    decreases b.len(),
{
    if a.len() == 1 {
        assert(sum_rx(a.drop_last()) == 0);
        assert(sum_tx(a.drop_last()) == 0);
        assert(a.last() == a[0]);
    }
    if b.len() == 0 {
        assert(a + b =~= a);
    } else {
        law_totals_add_up(a, b.drop_last());
        assert((a + b).drop_last() =~= a + b.drop_last());
        assert((a + b).last() == b.last());
    }
}

/// The memory use in percent reported with a memory warning; the product
/// wraps at 2^64, as the release build's arithmetic does.
pub fn memory_warning_percent(used: u64, total: u64) -> (p: u64)
    requires
        total > 0,
    ensures
        p == ((used * 100) % 0x10000000000000000) / total as int,
{
    used.wrapping_mul(100) / total
}

/// A hotspot always selects the power-save strategy, whatever the pulse; any
/// other network with a score of at least 50 runs at full speed.
pub proof fn law_hotspot_saves_data(is_hotspot: bool, score: u8)
    ensures
        is_hotspot ==> strategy_for(is_hotspot, score) == StrategyMode::PowerSave,
        !is_hotspot && score >= 50 ==> strategy_for(is_hotspot, score) == StrategyMode::Performance,
{
}

} // verus!
