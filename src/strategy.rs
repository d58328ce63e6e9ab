use vstd::prelude::*;

use crate::mean::{mean_lt, Mean};
use crate::window::{window_push, CircularBuffer, WindowError};

verus! {

/// A direction derived from two simultaneous means.
#[derive(Debug, PartialEq, Eq, Clone, Copy)]
pub enum Signal {
    Buy,
    Sell,
}

/// `Buy` when the short mean is above the long one, `Sell` when below; nothing
/// on a tie or while either mean is missing.
pub open spec fn signal_of(short: Option<Mean>, long: Option<Mean>) -> Option<Signal> {
    match (short, long) {
        (Some(s), Some(l)) => if mean_lt(l, s) {
            Some(Signal::Buy)
        } else if mean_lt(s, l) {
            Some(Signal::Sell)
        } else {
            None
        },
        _ => None,
    }
}

pub open spec fn valid_mean(m: Option<Mean>) -> bool {
    m matches Some(x) ==> x.wf()
}

/// Compares a short-window mean with a long-window mean.
pub fn crossover_signal(short: &Option<Mean>, long: &Option<Mean>) -> (r: Option<Signal>)
    requires
        valid_mean(*short),
        valid_mean(*long),
    ensures
        r == signal_of(*short, *long),
{
    match (short, long) {
        (Some(s), Some(l)) => {
            if l.less_than(s) {
                Some(Signal::Buy)
            } else if s.less_than(l) {
                Some(Signal::Sell)
            } else {
                None
            }
        },
        _ => None,
    }
}

/// A simulated trade, taken when a signal fires.
#[derive(Debug, PartialEq, Eq, Clone, Copy)]
pub struct Trade {
    /// Seconds since the Unix epoch.
    pub timestamp: u64,
    pub trade_type: Signal,
    pub price: i64,
    pub quantity: u64,
}

/// What one price sample produced: both means and the signal, if any.
#[derive(Debug, PartialEq, Eq, Clone, Copy)]
pub struct Tick {
    pub short_mean: Option<Mean>,
    pub long_mean: Option<Mean>,
    pub signal: Option<Signal>,
}

/// Two moving averages over one price stream, and the trades their crossings gave.
pub struct TradeSimulator {
    short_window: CircularBuffer,
    long_window: CircularBuffer,
    trades: Vec<Trade>,
}

impl TradeSimulator {
    pub closed spec fn short_window(&self) -> CircularBuffer {
        self.short_window
    }

    pub closed spec fn long_window(&self) -> CircularBuffer {
        self.long_window
    }

    pub closed spec fn trade_log(&self) -> Seq<Trade> {
        self.trades@
    }

    pub open spec fn wf(&self) -> bool {
        self.short_window().wf() && self.long_window().wf()
    }

    /// A simulator with empty windows of the two capacities and no trades.
    pub fn new(short_capacity: usize, long_capacity: usize) -> (r: Result<
        TradeSimulator,
        WindowError,
    >)
        ensures
            (short_capacity == 0 || long_capacity == 0) <==> r is Err,
            r matches Err(e) ==> e == WindowError::InvalidCapacity,
            r matches Ok(t) ==> {
                &&& t.wf()
                &&& t.short_window()@ == Seq::<i64>::empty()
                &&& t.long_window()@ == Seq::<i64>::empty()
                &&& t.short_window().cap() == short_capacity
                &&& t.long_window().cap() == long_capacity
                &&& t.trade_log() == Seq::<Trade>::empty()
            },
    {
        let short_window = match CircularBuffer::new(short_capacity) {
            Ok(b) => b,
            Err(e) => return Err(e),
        };
        let long_window = match CircularBuffer::new(long_capacity) {
            Ok(b) => b,
            Err(e) => return Err(e),
        };
        Ok(TradeSimulator { short_window, long_window, trades: Vec::new() })
    }

    /// Feeds one price to both windows, compares their means, and records a
    /// trade of one unit at `timestamp` when a signal fires.
    pub fn on_price(&mut self, price: i64, timestamp: u64) -> (r: Tick)
        requires
            old(self).wf(),
        ensures
            final(self).wf(),
            final(self).short_window().cap() == old(self).short_window().cap(),
            final(self).long_window().cap() == old(self).long_window().cap(),
            final(self).short_window()@ == window_push(
                old(self).short_window()@,
                old(self).short_window().cap(),
                price,
            ),
            final(self).long_window()@ == window_push(
                old(self).long_window()@,
                old(self).long_window().cap(),
                price,
            ),
            r.short_mean matches Some(m) && m.is_mean_of(final(self).short_window()@),
            r.long_mean matches Some(m) && m.is_mean_of(final(self).long_window()@),
            r.signal == signal_of(r.short_mean, r.long_mean),
            r.signal matches Some(s) ==> final(self).trade_log() == old(self).trade_log().push(
                (Trade { timestamp, trade_type: s, price, quantity: 1 }),
            ),
            r.signal is None ==> final(self).trade_log() == old(self).trade_log(),
    {
        self.short_window.add(price);
        self.long_window.add(price);
        let short_mean = self.short_window.average();
        let long_mean = self.long_window.average();
        let signal = crossover_signal(&short_mean, &long_mean);
        if let Some(s) = signal {
            self.trades.push(Trade { timestamp, trade_type: s, price, quantity: 1 });
        }
        Tick { short_mean, long_mean, signal }
    }

    /// The short-window moving average.
    pub fn short_average(&self) -> (r: Option<Mean>)
        requires
            self.wf(),
        ensures
            self.short_window()@.len() == 0 <==> r is None,
            r matches Some(m) ==> m.is_mean_of(self.short_window()@),
    {
        self.short_window.average()
    }

    /// The long-window moving average.
    pub fn long_average(&self) -> (r: Option<Mean>)
        requires
            self.wf(),
        ensures
            self.long_window()@.len() == 0 <==> r is None,
            r matches Some(m) ==> m.is_mean_of(self.long_window()@),
    {
        self.long_window.average()
    }

    /// The trades recorded so far, oldest first.
    pub fn trades(&self) -> (r: &Vec<Trade>)
        ensures
            r@ == self.trade_log(),
    {
        &self.trades
    }
}

} // verus!
