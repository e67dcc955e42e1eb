use iex_deep_parser::message::{
    decode_auction, decode_message, decode_official_price, decode_operational_halt, decode_plu,
    decode_retail_liquidity, decode_security_dir, decode_security_event, decode_short_sale,
    decode_system_event, decode_trade, decode_trading_status, T_PLU_BUY, T_PLU_SELL,
    T_TRADE_BREAK, T_TRADE_REPORT,
};

/// A payload of `n` bytes: a code, a time, a symbol and counting bytes.
fn payload(code: u8, time: i64, symbol: &str, n: usize) -> Vec<u8> {
    let mut p = vec![code];
    p.extend_from_slice(&time.to_le_bytes());
    let mut padded = symbol.as_bytes().to_vec();
    padded.resize(8, b' ');
    p.extend_from_slice(&padded);
    let mut next = 1u8;
    while p.len() < n {
        p.push(next);
        next = next.wrapping_add(1);
    }
    p.truncate(n);
    p
}

fn put(p: &mut [u8], at: usize, bytes: &[u8]) {
    p[at..at + bytes.len()].copy_from_slice(bytes);
}

#[test]
fn price_level_updates() {
    let mut p = payload(0x01, 1_471_980_632_572_715_948, "ZIEXT", 29);
    put(&mut p, 17, &9_700u32.to_le_bytes());
    put(&mut p, 21, &990_500i64.to_le_bytes());
    let row = decode_plu(T_PLU_BUY, &p).unwrap();
    assert_eq!(row.msg_type, "price_level_update_buy");
    assert_eq!(row.timestamp, 1_471_980_632_572_715_948);
    assert_eq!(row.symbol, "ZIEXT");
    assert_eq!(row.flags, Some(1));
    assert_eq!(row.side, Some("B"));
    assert_eq!(row.price, Some(990_500));
    assert_eq!(row.size, Some(9_700));
    assert_eq!(row.trade_id, None);
    assert_eq!(row.is_trade_break, None);
    assert!(row.auction.is_none());
    assert!(row.secdir.is_none());
    let row = decode_plu(T_PLU_SELL, &p).unwrap();
    assert_eq!(row.msg_type, "price_level_update_sell");
    assert_eq!(row.side, Some("S"));
    assert!(decode_plu(T_PLU_BUY, &p[..28]).is_none());
}

#[test]
fn trades_and_breaks() {
    let mut p = payload(0x80, -5, "AAPL", 37);
    put(&mut p, 17, &100u32.to_le_bytes());
    put(&mut p, 21, &1_234_500i64.to_le_bytes());
    put(&mut p, 29, &429_974i64.to_le_bytes());
    let row = decode_trade(T_TRADE_REPORT, &p).unwrap();
    assert_eq!(row.msg_type, "trade_report");
    assert_eq!(row.timestamp, -5);
    assert_eq!(row.flags, Some(0x80));
    assert_eq!(row.side, None);
    assert_eq!(row.price, Some(1_234_500));
    assert_eq!(row.size, Some(100));
    assert_eq!(row.trade_id, Some(429_974));
    assert_eq!(row.is_trade_break, Some(false));
    let row = decode_trade(T_TRADE_BREAK, &p).unwrap();
    assert_eq!(row.msg_type, "trade_break");
    assert_eq!(row.is_trade_break, Some(true));
    assert!(decode_trade(T_TRADE_REPORT, &p[..36]).is_none());
}

#[test]
fn official_prices() {
    for (code, text) in [(0x51u8, "opening"), (0x4d, "closing"), (0x00, "unknown")] {
        let mut p = payload(code, 9, "B", 25);
        put(&mut p, 17, &(-1i64).to_le_bytes());
        let row = decode_official_price(&p).unwrap();
        assert_eq!(row.msg_type, "official_price");
        assert_eq!(row.symbol, "B");
        assert_eq!(row.price_type, Some(text));
        assert_eq!(row.price, Some(-1));
        assert_eq!(row.flags, None);
        assert_eq!(row.size, None);
        assert!(decode_official_price(&p[..24]).is_none());
    }
}

#[test]
fn auctions() {
    let kinds = [
        (0x4fu8, "opening"),
        (0x43, "closing"),
        (0x49, "ipo"),
        (0x48, "halt"),
        (0x56, "volatility"),
        (0x20, "unknown"),
    ];
    let sides = [(0x42u8, "B"), (0x53, "S"), (0x4e, "")];
    for (code, kind) in kinds {
        for (side_code, side) in sides {
            let mut p = payload(code, 3, "C", 79);
            put(&mut p, 17, &1u32.to_le_bytes());
            put(&mut p, 21, &2i64.to_le_bytes());
            put(&mut p, 29, &3i64.to_le_bytes());
            put(&mut p, 37, &4u32.to_le_bytes());
            p[41] = side_code;
            p[42] = 5;
            put(&mut p, 43, &6u32.to_le_bytes());
            put(&mut p, 47, &7i64.to_le_bytes());
            put(&mut p, 55, &8i64.to_le_bytes());
            put(&mut p, 63, &9i64.to_le_bytes());
            put(&mut p, 71, &10i64.to_le_bytes());
            let row = decode_auction(&p).unwrap();
            assert_eq!(row.msg_type, "auction_information");
            assert_eq!(row.price, None);
            let a = row.auction.unwrap();
            assert_eq!(a.auction_type, kind);
            assert_eq!(a.paired_shares, 1);
            assert_eq!(a.reference_price, 2);
            assert_eq!(a.indicative_clearing_price, 3);
            assert_eq!(a.imbalance_shares, 4);
            assert_eq!(a.imbalance_side, side);
            assert_eq!(a.extension_number, 5);
            assert_eq!(a.scheduled_auction_time, 6);
            assert_eq!(a.auction_book_clearing_price, 7);
            assert_eq!(a.collar_reference_price, 8);
            assert_eq!(a.lower_auction_collar, 9);
            assert_eq!(a.upper_auction_collar, 10);
            assert!(decode_auction(&p[..78]).is_none());
        }
    }
}

#[test]
fn security_directory() {
    let mut p = payload(0x80, 3, "DD", 30);
    put(&mut p, 17, &100u32.to_le_bytes());
    put(&mut p, 21, &99_0500i64.to_le_bytes());
    p[29] = 1;
    let row = decode_security_dir(&p).unwrap();
    assert_eq!(row.msg_type, "security_directory");
    assert_eq!(row.flags, Some(0x80));
    let d = row.secdir.unwrap();
    assert_eq!(d.round_lot_size, 100);
    assert_eq!(d.adj_poc_price, 990_500);
    assert_eq!(d.luld_tier, 1);
    assert!(decode_security_dir(&p[..29]).is_none());
}

#[test]
fn trading_statuses() {
    let codes = [
        (0x48u8, "halted"),
        (0x4f, "order_acceptance_period"),
        (0x50, "paused"),
        (0x54, "trading"),
        (0x55, "unknown"),
    ];
    for (code, text) in codes {
        let mut p = payload(code, 3, "E", 21);
        put(&mut p, 17, b"T1  ");
        let row = decode_trading_status(&p).unwrap();
        assert_eq!(row.msg_type, "trading_status");
        assert_eq!(row.trading_status, Some(text));
        assert_eq!(row.reason, Some("T1"));
        assert!(decode_trading_status(&p[..20]).is_none());
    }
}

#[test]
fn operational_halts() {
    for (code, text) in [(0x4fu8, "halted"), (0x4e, "not_halted"), (0x41, "unknown")] {
        let p = payload(code, 3, "F", 17);
        let row = decode_operational_halt(&p).unwrap();
        assert_eq!(row.msg_type, "operational_halt");
        assert_eq!(row.halt_status, Some(text));
        assert!(decode_operational_halt(&p[..16]).is_none());
    }
}

#[test]
fn short_sale_tests() {
    let codes = [(0x20u8, "none"), (0x41, "activated"), (0x43, "continued"), (0x4e, "unknown")];
    for (code, text) in codes {
        let mut p = payload(0x01, 3, "G", 18);
        p[17] = code;
        let row = decode_short_sale(&p).unwrap();
        assert_eq!(row.msg_type, "short_sale_status");
        assert_eq!(row.short_sale_status, Some(1));
        assert_eq!(row.short_sale_detail, Some(text));
        let row = decode_short_sale(&p[..17]).unwrap();
        assert_eq!(row.short_sale_detail, Some("unknown"));
        assert!(decode_short_sale(&p[..16]).is_none());
    }
}

#[test]
fn retail_liquidity() {
    let codes =
        [(0x20u8, "none"), (0x41, "buy"), (0x42, "sell"), (0x43, "buy_and_sell"), (0, "unknown")];
    for (code, text) in codes {
        let p = payload(code, 3, "H", 17);
        let row = decode_retail_liquidity(&p).unwrap();
        assert_eq!(row.msg_type, "retail_liquidity");
        assert_eq!(row.retail_indicator, Some(text));
        assert!(decode_retail_liquidity(&p[..16]).is_none());
    }
}

#[test]
fn security_events() {
    let codes = [
        (0x4fu8, "opening_process_complete"),
        (0x43, "closing_process_complete"),
        (0x44, "unknown"),
    ];
    for (code, text) in codes {
        let p = payload(code, 3, "I", 17);
        let row = decode_security_event(&p).unwrap();
        assert_eq!(row.msg_type, "security_event");
        assert_eq!(row.security_event, Some(text));
        assert!(decode_security_event(&p[..16]).is_none());
    }
}

#[test]
fn system_events_have_no_symbol() {
    let codes = [
        (0x4fu8, "start_of_messages"),
        (0x53, "start_of_system_hours"),
        (0x52, "start_of_regular_hours"),
        (0x4d, "end_of_regular_hours"),
        (0x45, "end_of_system_hours"),
        (0x43, "end_of_messages"),
        (0x00, "unknown"),
    ];
    for (code, text) in codes {
        let p = payload(code, 77, "IGNORED", 17);
        let row = decode_system_event(&p).unwrap();
        assert_eq!(row.msg_type, "system_event");
        assert_eq!(row.timestamp, 77);
        assert_eq!(row.symbol, "");
        assert_eq!(row.system_event, Some(text));
        assert!(decode_system_event(&p[..9]).is_some());
        assert!(decode_system_event(&p[..8]).is_none());
    }
}

#[test]
fn known_messages_become_rows() {
    let shortest = [
        (0x38u8, 29usize, "price_level_update_buy"),
        (0x35, 29, "price_level_update_sell"),
        (0x54, 37, "trade_report"),
        (0x42, 37, "trade_break"),
        (0x58, 25, "official_price"),
        (0x41, 79, "auction_information"),
        (0x44, 30, "security_directory"),
        (0x48, 21, "trading_status"),
        (0x4f, 17, "operational_halt"),
        (0x50, 17, "short_sale_status"),
        (0x49, 17, "retail_liquidity"),
        (0x45, 17, "security_event"),
        (0x53, 9, "system_event"),
    ];
    for mt in 0..=255u8 {
        let known = shortest.iter().find(|(t, _, _)| *t == mt);
        for n in [0usize, 8, 9, 16, 17, 20, 21, 24, 25, 28, 29, 30, 36, 37, 78, 79, 200] {
            let p = payload(1, 2, "SYM", n);
            match (decode_message(mt, &p), known) {
                (Some(row), Some((_, least, name))) => {
                    assert!(n >= *least);
                    assert_eq!(row.msg_type, *name);
                    assert_eq!(row.timestamp, 2);
                }
                (None, Some((_, least, _))) => assert!(n < *least),
                (row, None) => assert!(row.is_none()),
            }
        }
    }
}

#[test]
fn longer_payloads_give_the_same_row() {
    let p = payload(0x4f, 3, "LONG", 90);
    let a = decode_auction(&p).unwrap();
    let b = decode_auction(&p[..79]).unwrap();
    assert_eq!(a.symbol, b.symbol);
    assert_eq!(
        a.auction.unwrap().upper_auction_collar,
        b.auction.unwrap().upper_auction_collar
    );
}
