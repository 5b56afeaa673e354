use blackjack::{Move, StrategyError, StrategyTable};

#[test]
fn basic_table_is_complete() {
    let table = StrategyTable::basic();
    for total in 5..=17u8 {
        for up in 2..=11u8 {
            assert!(
                table.lookup(total, up).is_ok(),
                "missing hard entry {},{}",
                total,
                up
            );
        }
    }
    for value in 2..=11u8 {
        for up in 2..=11u8 {
            assert!(
                table.lookup_pair(value, up).is_ok(),
                "missing pair entry {},{},{}",
                value,
                value,
                up
            );
        }
    }
}

#[test]
fn hard_lookups_match_basic_strategy() {
    let table = StrategyTable::basic();
    assert_eq!(table.lookup(5, 2), Ok(Move::Hit));
    assert_eq!(table.lookup(8, 6), Ok(Move::Hit));
    assert_eq!(table.lookup(9, 3), Ok(Move::Double));
    assert_eq!(table.lookup(9, 2), Ok(Move::Hit));
    assert_eq!(table.lookup(10, 9), Ok(Move::Double));
    assert_eq!(table.lookup(10, 10), Ok(Move::Hit));
    assert_eq!(table.lookup(11, 10), Ok(Move::Double));
    assert_eq!(table.lookup(11, 11), Ok(Move::Hit));
    assert_eq!(table.lookup(12, 4), Ok(Move::Stand));
    assert_eq!(table.lookup(12, 3), Ok(Move::Hit));
    assert_eq!(table.lookup(13, 6), Ok(Move::Stand));
    assert_eq!(table.lookup(16, 10), Ok(Move::Hit));
    assert_eq!(table.lookup(17, 11), Ok(Move::Stand));
}

#[test]
fn pair_lookups_match_basic_strategy() {
    let table = StrategyTable::basic();
    assert_eq!(table.lookup_pair(8, 2), Ok(Move::Split));
    assert_eq!(table.lookup_pair(8, 10), Ok(Move::Split));
    assert_eq!(table.lookup_pair(11, 11), Ok(Move::Split));
    assert_eq!(table.lookup_pair(10, 6), Ok(Move::Stand));
    assert_eq!(table.lookup_pair(5, 9), Ok(Move::Double));
    assert_eq!(table.lookup_pair(5, 10), Ok(Move::Hit));
    assert_eq!(table.lookup_pair(9, 7), Ok(Move::Stand));
    assert_eq!(table.lookup_pair(9, 6), Ok(Move::Split));
    assert_eq!(table.lookup_pair(2, 7), Ok(Move::Split));
    assert_eq!(table.lookup_pair(2, 8), Ok(Move::Hit));
    assert_eq!(table.lookup_pair(6, 6), Ok(Move::Split));
    assert_eq!(table.lookup_pair(7, 8), Ok(Move::Hit));
    assert_eq!(table.lookup_pair(4, 5), Ok(Move::Split));
    assert_eq!(table.lookup_pair(4, 4), Ok(Move::Hit));
}

#[test]
fn out_of_domain_hard_lookup_reports_the_key() {
    let table = StrategyTable::basic();
    assert_eq!(
        table.lookup(4, 5),
        Err(StrategyError {
            pair: false,
            player: 4,
            dealer: 5
        })
    );
    assert_eq!(
        table.lookup(18, 2),
        Err(StrategyError {
            pair: false,
            player: 18,
            dealer: 2
        })
    );
    assert_eq!(
        table.lookup(10, 1),
        Err(StrategyError {
            pair: false,
            player: 10,
            dealer: 1
        })
    );
}

#[test]
fn out_of_domain_pair_lookup_reports_the_key() {
    let table = StrategyTable::basic();
    assert_eq!(
        table.lookup_pair(12, 2),
        Err(StrategyError {
            pair: true,
            player: 12,
            dealer: 2
        })
    );
    assert_eq!(
        table.lookup_pair(8, 12),
        Err(StrategyError {
            pair: true,
            player: 8,
            dealer: 12
        })
    );
}

#[test]
fn incomplete_table_lookup_is_the_configuration_defect() {
    let table = StrategyTable {
        hard: vec![],
        pairs: vec![],
    };
    assert_eq!(
        table.lookup(10, 2),
        Err(StrategyError {
            pair: false,
            player: 10,
            dealer: 2
        })
    );
    assert_eq!(
        table.lookup_pair(8, 9),
        Err(StrategyError {
            pair: true,
            player: 8,
            dealer: 9
        })
    );
}
