use trade_sim::mean::Mean;
use trade_sim::strategy::{crossover_signal, Signal, TradeSimulator};
use trade_sim::window::{CircularBuffer, WindowError};

#[test]
fn test_circular_buffer_addition() {
    let mut buffer = CircularBuffer::new(3).unwrap();
    buffer.add(1);
    buffer.add(2);
    buffer.add(3);
    assert_eq!(buffer.len(), 3);

    buffer.add(4);
    assert_eq!(buffer.len(), 3);
    assert_eq!(buffer.front(), Some(2));
}

#[test]
fn test_circular_buffer_average() {
    let mut buffer = CircularBuffer::new(3).unwrap();
    buffer.add(1);
    buffer.add(2);
    buffer.add(3);
    let m = buffer.average().unwrap();
    assert_eq!(m.whole as f64 + m.frac as f64 / m.count as f64, 2.0);
}

#[test]
fn test_empty_buffer_average() {
    let buffer = CircularBuffer::new(3).unwrap();
    assert_eq!(buffer.average(), None);
}

#[test]
fn zero_capacity_is_refused() {
    assert!(matches!(CircularBuffer::new(0), Err(WindowError::InvalidCapacity)));
    assert!(matches!(TradeSimulator::new(0, 20), Err(WindowError::InvalidCapacity)));
    assert!(matches!(TradeSimulator::new(5, 0), Err(WindowError::InvalidCapacity)));
}

#[test]
fn length_is_min_of_inserted_and_capacity() {
    let mut buffer = CircularBuffer::new(4).unwrap();
    for n in 1..=10i64 {
        buffer.add(n);
        assert_eq!(buffer.len() as i64, n.min(4));
        assert_eq!(buffer.capacity(), 4);
    }
}

#[test]
fn holds_last_values_in_arrival_order() {
    let mut buffer = CircularBuffer::new(3).unwrap();
    buffer.add(10);
    buffer.add(20);
    buffer.add(30);
    assert_eq!(buffer.to_vec(), vec![10, 20, 30]);
    buffer.add(40);
    assert_eq!(buffer.to_vec(), vec![20, 30, 40]);
    assert_eq!(buffer.back(), Some(40));
    buffer.add(50);
    buffer.add(60);
    assert_eq!(buffer.to_vec(), vec![40, 50, 60]);
}

#[test]
fn order_sensitive_contents_and_average() {
    let mut buffer = CircularBuffer::new(3).unwrap();
    for v in [1, 2, 3] {
        buffer.add(v);
    }
    buffer.add(4);
    assert_eq!(buffer.to_vec(), vec![2, 3, 4]);
    assert_eq!(buffer.average(), Some(Mean { whole: 3, frac: 0, count: 3 }));
}

#[test]
fn capacity_three_scenario() {
    let mut buffer = CircularBuffer::new(3).unwrap();
    buffer.add(1);
    buffer.add(2);
    buffer.add(3);
    assert_eq!(buffer.average(), Some(Mean { whole: 2, frac: 0, count: 3 }));
    buffer.add(4);
    assert_eq!(buffer.len(), 3);
    assert_eq!(buffer.front(), Some(2));
    assert_eq!(buffer.average(), Some(Mean { whole: 3, frac: 0, count: 3 }));
}

#[test]
fn capacity_one_keeps_only_newest() {
    let mut buffer = CircularBuffer::new(1).unwrap();
    assert!(buffer.is_empty());
    buffer.add(7);
    buffer.add(-9);
    assert_eq!(buffer.to_vec(), vec![-9]);
    assert_eq!(buffer.average(), Some(Mean { whole: -9, frac: 0, count: 1 }));
}

#[test]
fn zero_sample_is_accepted() {
    let mut buffer = CircularBuffer::new(2).unwrap();
    buffer.add(0);
    assert_eq!(buffer.len(), 1);
    assert_eq!(buffer.average(), Some(Mean { whole: 0, frac: 0, count: 1 }));
}

#[test]
fn fractional_mean_is_exact() {
    let mut buffer = CircularBuffer::new(5).unwrap();
    buffer.add(1);
    buffer.add(2);
    // 3 / 2 = 1 + 1/2
    assert_eq!(buffer.average(), Some(Mean { whole: 1, frac: 1, count: 2 }));
    buffer.add(-10);
    // -7 / 3 = -3 + 2/3
    assert_eq!(buffer.average(), Some(Mean { whole: -3, frac: 2, count: 3 }));
}

#[test]
fn extreme_samples_do_not_overflow() {
    let mut buffer = CircularBuffer::new(3).unwrap();
    buffer.add(i64::MAX);
    buffer.add(i64::MAX);
    buffer.add(i64::MAX);
    assert_eq!(buffer.average(), Some(Mean { whole: i64::MAX as i128, frac: 0, count: 3 }));
    buffer.add(i64::MIN);
    buffer.add(i64::MIN);
    buffer.add(i64::MIN);
    assert_eq!(buffer.average(), Some(Mean { whole: i64::MIN as i128, frac: 0, count: 3 }));
}

#[test]
fn mean_from_sum_floors() {
    assert_eq!(Mean::from_sum(7, 2), Mean { whole: 3, frac: 1, count: 2 });
    assert_eq!(Mean::from_sum(-7, 2), Mean { whole: -4, frac: 1, count: 2 });
    assert_eq!(Mean::from_sum(-6, 3), Mean { whole: -2, frac: 0, count: 3 });
    assert_eq!(Mean::from_sum(i128::MIN, 1), Mean { whole: i128::MIN, frac: 0, count: 1 });
}

#[test]
fn mean_comparison_is_by_value() {
    let half = Mean::from_sum(1, 2);
    let third = Mean::from_sum(1, 3);
    let two_quarters = Mean::from_sum(2, 4);
    assert!(third.less_than(&half));
    assert!(!half.less_than(&third));
    assert!(!half.less_than(&two_quarters));
    assert!(!two_quarters.less_than(&half));
    assert!(Mean::from_sum(-1, 2).less_than(&third));
}

#[test]
fn crossover_signal_cases() {
    let low = Some(Mean::from_sum(10, 5));
    let high = Some(Mean::from_sum(60, 20));
    assert_eq!(crossover_signal(&high, &low), Some(Signal::Buy));
    assert_eq!(crossover_signal(&low, &high), Some(Signal::Sell));
    assert_eq!(crossover_signal(&low, &Some(Mean::from_sum(4, 2))), None);
    assert_eq!(crossover_signal(&None, &high), None);
    assert_eq!(crossover_signal(&low, &None), None);
}

#[test]
fn increasing_prices_give_buy() {
    let mut sim = TradeSimulator::new(5, 20).unwrap();
    let mut last = None;
    for p in 1..=25i64 {
        last = Some(sim.on_price(p * 100, p as u64));
    }
    let tick = last.unwrap();
    let short = tick.short_mean.unwrap();
    let long = tick.long_mean.unwrap();
    // last 5 of 100..=2500 average 2300; last 20 average 1550
    assert_eq!(short, Mean { whole: 2300, frac: 0, count: 5 });
    assert_eq!(long, Mean { whole: 1550, frac: 0, count: 20 });
    assert!(long.less_than(&short));
    assert_eq!(tick.signal, Some(Signal::Buy));
    assert_eq!(sim.short_average(), Some(short));
    assert_eq!(sim.long_average(), Some(long));
}

#[test]
fn simulator_records_trades_on_signals_only() {
    let mut sim = TradeSimulator::new(2, 3).unwrap();
    let first = sim.on_price(100, 1);
    assert_eq!(first.signal, None);
    assert!(sim.trades().is_empty());

    let second = sim.on_price(200, 2);
    assert_eq!(second.signal, None);

    let third = sim.on_price(400, 3);
    // short [200, 400] = 300, long [100, 200, 400] = 700/3
    assert_eq!(third.signal, Some(Signal::Buy));
    assert_eq!(sim.trades().len(), 1);
    assert_eq!(sim.trades()[0].timestamp, 3);
    assert_eq!(sim.trades()[0].trade_type, Signal::Buy);
    assert_eq!(sim.trades()[0].price, 400);
    assert_eq!(sim.trades()[0].quantity, 1);

    let fourth = sim.on_price(0, 4);
    // short [400, 0] = 200, long [200, 400, 0] = 200
    assert_eq!(fourth.signal, None);
    let fifth = sim.on_price(0, 5);
    // short [0, 0] = 0, long [400, 0, 0] = 400/3
    assert_eq!(fifth.signal, Some(Signal::Sell));
    assert_eq!(sim.trades().len(), 2);
    assert_eq!(sim.trades()[1].trade_type, Signal::Sell);
    assert_eq!(sim.trades()[1].timestamp, 5);
}

#[test]
fn trade_stamped_with_current_time() {
    let mut sim = TradeSimulator::new(1, 2).unwrap();
    let now = chrono::Utc::now().timestamp() as u64;
    sim.on_price(10, now);
    let tick = sim.on_price(30, now + 1);
    assert_eq!(tick.signal, Some(Signal::Buy));
    assert_eq!(sim.trades().len(), 1);
    assert_eq!(sim.trades()[0].timestamp, now + 1);
    // after 2020-01-01
    assert!(sim.trades()[0].timestamp > 1_577_836_800);
}
