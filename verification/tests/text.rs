use juno_bid::text::{rank_of, to_decimal, Rank};

#[test]
fn rank_of_orders_texts_by_their_bytes() {
    assert_eq!(rank_of("", ""), Rank::Same);
    assert_eq!(rank_of("abc", "abc"), Rank::Same);
    assert_eq!(rank_of("", "a"), Rank::Before);
    assert_eq!(rank_of("a", ""), Rank::After);
    assert_eq!(rank_of("ab", "abc"), Rank::Before);
    assert_eq!(rank_of("abc", "ab"), Rank::After);
    assert_eq!(rank_of("abd", "abc"), Rank::After);
    assert_eq!(rank_of("Z", "a"), Rank::Before);
    assert_eq!(rank_of("juno1bidder", "juno1otherbidder"), Rank::Before);
    assert_eq!(rank_of("10", "9"), Rank::Before);
    // beyond ASCII the order is that of the UTF-8 bytes
    assert_eq!(rank_of("z", "é"), Rank::Before);
    assert_eq!(rank_of("é", "日"), Rank::Before);
    assert_eq!(rank_of("日", "😀"), Rank::Before);
    for (a, b) in [("z", "é"), ("é", "日"), ("ab", "abc"), ("", "a"), ("Z", "a")] {
        assert_eq!(rank_of(a, b) == Rank::Before, a < b);
        assert_eq!(rank_of(b, a) == Rank::After, b > a);
    }
}

#[test]
fn to_decimal_writes_numbers_without_leading_zeros() {
    assert_eq!(to_decimal(0), "0");
    assert_eq!(to_decimal(7), "7");
    assert_eq!(to_decimal(9), "9");
    assert_eq!(to_decimal(10), "10");
    assert_eq!(to_decimal(1000), "1000");
    assert_eq!(to_decimal(1234567890), "1234567890");
    assert_eq!(to_decimal(u64::MAX as u128), "18446744073709551615");
    assert_eq!(to_decimal(u128::MAX), "340282366920938463463374607431768211455");
    for n in [0u128, 5, 99, 100, 101, 4_294_967_296, 10u128.pow(38)] {
        assert_eq!(to_decimal(n), n.to_string());
    }
}
