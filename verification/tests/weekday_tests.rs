use smart_date::Weekday;

#[test]
fn test_days_until() {
    let today = Weekday::Tuesday;
    assert_eq!(today.days_until(&Weekday::Wednesday), 1);
    assert_eq!(today.days_until(&Weekday::Tuesday), 0);
    assert_eq!(today.days_until(&Weekday::Monday), 6);
}

#[test]
fn days_until_is_cyclic_and_small() {
    let days = [
        Weekday::Monday,
        Weekday::Tuesday,
        Weekday::Wednesday,
        Weekday::Thursday,
        Weekday::Friday,
        Weekday::Saturday,
        Weekday::Sunday,
    ];
    for a in &days {
        assert_eq!(a.days_until(a), 0);
        for b in &days {
            assert!(a.days_until(b) <= 6);
        }
    }
}

#[test]
fn days_until_exact_values() {
    assert_eq!(Weekday::Sunday.days_until(&Weekday::Monday), 1);
    assert_eq!(Weekday::Sunday.days_until(&Weekday::Saturday), 6);
    assert_eq!(Weekday::Friday.days_until(&Weekday::Monday), 3);
    assert_eq!(Weekday::Wednesday.days_until(&Weekday::Wednesday), 0);
}
