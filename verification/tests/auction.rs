use double_auction::engine::AuctionEngine;
use double_auction::order::{AuctionError, Nbbo, Order, Side, Trade};

// Prices are in thousandths of a currency unit: 99.50 is 99_500.
// A trade's clearing_price_twice of 199_600 is a clearing price of 99.80.

fn setup_nbbo() -> Nbbo {
    Nbbo { bid: 99_500, ask: 100_500 }
}

fn sample_buy_orders() -> Vec<Order> {
    vec![
        Order { id: 1, side: Side::Buy, price: 100_000, quantity: 100 },
        Order { id: 2, side: Side::Buy, price: 99_750, quantity: 200 },
    ]
}

fn sample_sell_orders() -> Vec<Order> {
    vec![
        Order { id: 3, side: Side::Sell, price: 99_600, quantity: 150 },
        Order { id: 4, side: Side::Sell, price: 100_100, quantity: 100 },
    ]
}

#[test]
fn test_greedy_auction_sample() {
    let engine = AuctionEngine::new(setup_nbbo());
    let trades = engine
        .run_greedy_auction(&sample_buy_orders(), &sample_sell_orders())
        .unwrap();

    let expected = vec![
        Trade { buy_order_id: 1, sell_order_id: 3, quantity: 100, clearing_price_twice: 199_600 },
        Trade { buy_order_id: 2, sell_order_id: 3, quantity: 50, clearing_price_twice: 199_350 },
    ];

    assert_eq!(trades.len(), expected.len());
    for (actual, exp) in trades.iter().zip(expected.iter()) {
        assert_eq!(actual.buy_order_id, exp.buy_order_id);
        assert_eq!(actual.sell_order_id, exp.sell_order_id);
        assert_eq!(actual.quantity, exp.quantity);
        assert_eq!(actual.clearing_price_twice, exp.clearing_price_twice);
    }
}

#[test]
fn test_combinatorial_auction_sample() {
    let engine = AuctionEngine::new(setup_nbbo());
    let trades = engine
        .run_combinatorial_auction(&sample_buy_orders(), &sample_sell_orders())
        .unwrap();

    let expected = vec![
        Trade { buy_order_id: 1, sell_order_id: 3, quantity: 100, clearing_price_twice: 199_350 },
        Trade { buy_order_id: 2, sell_order_id: 3, quantity: 50, clearing_price_twice: 199_350 },
    ];

    assert_eq!(trades.len(), expected.len());
    for (actual, exp) in trades.iter().zip(expected.iter()) {
        assert_eq!(actual.buy_order_id, exp.buy_order_id);
        assert_eq!(actual.sell_order_id, exp.sell_order_id);
        assert_eq!(actual.quantity, exp.quantity);
        assert_eq!(actual.clearing_price_twice, exp.clearing_price_twice);
    }
}

#[test]
fn test_invalid_buy_side_rejected() {
    let engine = AuctionEngine::new(setup_nbbo());
    let invalid_buy = vec![Order { id: 1, side: Side::Sell, price: 100_000, quantity: 100 }];
    let result = engine.run_greedy_auction(&invalid_buy, &vec![]);
    assert_eq!(
        result,
        Err(AuctionError::SideMismatch { order_id: 1, expected: Side::Buy, found: Side::Sell })
    );
}

#[test]
fn test_invalid_sell_side_rejected() {
    let engine = AuctionEngine::new(setup_nbbo());
    let invalid_sell = vec![Order { id: 3, side: Side::Buy, price: 99_600, quantity: 150 }];
    let result = engine.run_greedy_auction(&vec![], &invalid_sell);
    assert_eq!(
        result,
        Err(AuctionError::SideMismatch { order_id: 3, expected: Side::Sell, found: Side::Buy })
    );
}

#[test]
fn test_no_matches() {
    let engine = AuctionEngine::new(setup_nbbo());
    let buy_orders = vec![Order { id: 1, side: Side::Buy, price: 99_000, quantity: 100 }];
    let sell_orders = vec![Order { id: 3, side: Side::Sell, price: 101_000, quantity: 100 }];
    let trades_greedy = engine.run_greedy_auction(&buy_orders, &sell_orders).unwrap();
    let trades_combo = engine.run_combinatorial_auction(&buy_orders, &sell_orders).unwrap();
    assert!(trades_greedy.is_empty());
    assert!(trades_combo.is_empty());
}

#[test]
fn test_zero_quantity() {
    let engine = AuctionEngine::new(setup_nbbo());
    let buy_orders = vec![Order { id: 1, side: Side::Buy, price: 100_000, quantity: 0 }];
    let sell_orders = vec![Order { id: 3, side: Side::Sell, price: 99_600, quantity: 0 }];
    let trades_greedy = engine.run_greedy_auction(&buy_orders, &sell_orders).unwrap();
    let trades_combo = engine.run_combinatorial_auction(&buy_orders, &sell_orders).unwrap();
    assert!(trades_greedy.is_empty());
    assert!(trades_combo.is_empty());
}

#[test]
fn test_empty_inputs() {
    let engine = AuctionEngine::new(setup_nbbo());
    assert!(engine.run_greedy_auction(&vec![], &vec![]).unwrap().is_empty());
    assert!(engine.run_combinatorial_auction(&vec![], &vec![]).unwrap().is_empty());
}

#[test]
fn test_equal_price_pair_trades() {
    let engine = AuctionEngine::new(setup_nbbo());
    let buys = vec![Order { id: 1, side: Side::Buy, price: 100_000, quantity: 25 }];
    let sells = vec![Order { id: 2, side: Side::Sell, price: 100_000, quantity: 40 }];
    let trades = engine.run_greedy_auction(&buys, &sells).unwrap();
    assert_eq!(
        trades,
        vec![Trade {
            buy_order_id: 1,
            sell_order_id: 2,
            quantity: 25,
            clearing_price_twice: 200_000,
        }]
    );
}

#[test]
fn test_run_auction_is_greedy() {
    let engine = AuctionEngine::new(setup_nbbo());
    let plain = engine.run_auction(&sample_buy_orders(), &sample_sell_orders()).unwrap();
    let greedy = engine.run_greedy_auction(&sample_buy_orders(), &sample_sell_orders()).unwrap();
    assert_eq!(plain, greedy);
}

#[test]
fn test_buy_above_ask_excluded() {
    let engine = AuctionEngine::new(setup_nbbo());
    let buys = vec![Order { id: 1, side: Side::Buy, price: 101_000, quantity: 100 }];
    let sells = vec![Order { id: 2, side: Side::Sell, price: 99_600, quantity: 100 }];
    assert!(engine.run_greedy_auction(&buys, &sells).unwrap().is_empty());
}

#[test]
fn test_sell_below_bid_excluded() {
    let engine = AuctionEngine::new(setup_nbbo());
    let buys = vec![Order { id: 1, side: Side::Buy, price: 100_000, quantity: 100 }];
    let sells = vec![Order { id: 2, side: Side::Sell, price: 99_000, quantity: 100 }];
    assert!(engine.run_greedy_auction(&buys, &sells).unwrap().is_empty());
}

#[test]
fn test_inverted_band_never_matches() {
    let engine = AuctionEngine::new(Nbbo { bid: 101_000, ask: 99_000 });
    let buys = vec![Order { id: 1, side: Side::Buy, price: 100_000, quantity: 100 }];
    let sells = vec![Order { id: 2, side: Side::Sell, price: 100_000, quantity: 100 }];
    assert!(engine.run_greedy_auction(&buys, &sells).unwrap().is_empty());
    assert!(engine.run_combinatorial_auction(&buys, &sells).unwrap().is_empty());
}

#[test]
fn test_first_offending_buy_reported() {
    let engine = AuctionEngine::new(setup_nbbo());
    let buys = vec![
        Order { id: 1, side: Side::Buy, price: 100_000, quantity: 10 },
        Order { id: 2, side: Side::Sell, price: 100_000, quantity: 10 },
        Order { id: 3, side: Side::Sell, price: 100_000, quantity: 10 },
    ];
    let result = engine.run_combinatorial_auction(&buys, &vec![]);
    assert_eq!(
        result,
        Err(AuctionError::SideMismatch { order_id: 2, expected: Side::Buy, found: Side::Sell })
    );
}

#[test]
fn test_buy_list_checked_before_sell_list() {
    let engine = AuctionEngine::new(setup_nbbo());
    let buys = vec![Order { id: 7, side: Side::Sell, price: 100_000, quantity: 10 }];
    let sells = vec![Order { id: 8, side: Side::Buy, price: 100_000, quantity: 10 }];
    let result = engine.run_greedy_auction(&buys, &sells);
    assert_eq!(
        result,
        Err(AuctionError::SideMismatch { order_id: 7, expected: Side::Buy, found: Side::Sell })
    );
}

#[test]
fn test_price_priority_orders_trades() {
    // The higher bidder matches first however the input is ordered, and a
    // partially filled sell keeps matching later buys.
    let engine = AuctionEngine::new(setup_nbbo());
    let buys = vec![
        Order { id: 1, side: Side::Buy, price: 99_600, quantity: 10 },
        Order { id: 2, side: Side::Buy, price: 100_000, quantity: 10 },
    ];
    let sells = vec![Order { id: 3, side: Side::Sell, price: 99_600, quantity: 15 }];
    let trades = engine.run_greedy_auction(&buys, &sells).unwrap();
    assert_eq!(
        trades,
        vec![
            Trade { buy_order_id: 2, sell_order_id: 3, quantity: 10, clearing_price_twice: 199_600 },
            Trade { buy_order_id: 1, sell_order_id: 3, quantity: 5, clearing_price_twice: 199_200 },
        ]
    );
}

#[test]
fn test_equal_prices_keep_input_order() {
    // Stable sort: with equal prices the earlier input order matches first.
    let engine = AuctionEngine::new(setup_nbbo());
    let buys = vec![
        Order { id: 1, side: Side::Buy, price: 100_000, quantity: 10 },
        Order { id: 2, side: Side::Buy, price: 100_000, quantity: 10 },
    ];
    let sells = vec![Order { id: 3, side: Side::Sell, price: 99_600, quantity: 10 }];
    let trades = engine.run_greedy_auction(&buys, &sells).unwrap();
    assert_eq!(trades.len(), 1);
    assert_eq!(trades[0].buy_order_id, 1);
    assert_eq!(trades[0].quantity, 10);
}

#[test]
fn test_caller_lists_unchanged() {
    let engine = AuctionEngine::new(setup_nbbo());
    let buys = sample_buy_orders();
    let sells = sample_sell_orders();
    engine.run_greedy_auction(&buys, &sells).unwrap();
    engine.run_combinatorial_auction(&buys, &sells).unwrap();
    assert_eq!(buys, sample_buy_orders());
    assert_eq!(sells, sample_sell_orders());
}

#[test]
fn test_quantity_conservation_sample() {
    let engine = AuctionEngine::new(setup_nbbo());
    let buys = sample_buy_orders();
    let sells = sample_sell_orders();
    let trades = engine.run_greedy_auction(&buys, &sells).unwrap();
    for order in buys.iter().chain(sells.iter()) {
        let filled: u64 = trades
            .iter()
            .filter(|t| t.buy_order_id == order.id || t.sell_order_id == order.id)
            .map(|t| t.quantity as u64)
            .sum();
        assert!(filled <= order.quantity as u64);
    }
    for t in &trades {
        assert!(t.quantity > 0);
    }
}

#[test]
fn test_uniform_price_comes_from_last_pair() {
    // Two matches; the second (last-scanned) pair sets the uniform price.
    let engine = AuctionEngine::new(setup_nbbo());
    let buys = vec![
        Order { id: 1, side: Side::Buy, price: 100_000, quantity: 10 },
        Order { id: 2, side: Side::Buy, price: 99_800, quantity: 10 },
    ];
    let sells = vec![
        Order { id: 3, side: Side::Sell, price: 99_600, quantity: 10 },
        Order { id: 4, side: Side::Sell, price: 99_700, quantity: 10 },
    ];
    let trades = engine.run_combinatorial_auction(&buys, &sells).unwrap();
    assert_eq!(
        trades,
        vec![
            Trade { buy_order_id: 1, sell_order_id: 3, quantity: 10, clearing_price_twice: 199_500 },
            Trade { buy_order_id: 2, sell_order_id: 4, quantity: 10, clearing_price_twice: 199_500 },
        ]
    );
}
