use zond_daemon::addresses::AddressSet;

fn v4(ranges: &[(u32, u32)]) -> AddressSet {
    AddressSet::from_ranges(&ranges.to_vec(), &Vec::new())
}

fn v6(ranges: &[(u128, u128, Option<u32>)]) -> AddressSet {
    AddressSet::from_ranges(&Vec::new(), &ranges.to_vec())
}

#[test]
fn ranges_are_kept_sorted_and_merged() {
    let set = v4(&[(20, 30), (1, 5), (6, 9), (25, 40), (50, 50)]);

    assert_eq!(set.v4_ranges(), vec![(1, 9), (20, 40), (50, 50)]);
    assert_eq!(set.len(), 9 + 21 + 1);
}

#[test]
fn an_empty_set_holds_nothing() {
    let set = AddressSet::new();

    assert!(set.is_empty());
    assert_eq!(set.len(), 0);
    assert!(v4(&[]).is_empty());
}

#[test]
fn a_range_written_backwards_holds_nothing() {
    assert!(v4(&[(9, 3)]).is_empty());
}

#[test]
fn extending_adds_every_address() {
    let mut set = v4(&[(1, 10)]);
    set.extend(&v4(&[(11, 20), (100, 200)]));

    assert_eq!(set.v4_ranges(), vec![(1, 20), (100, 200)]);
}

#[test]
fn subtracting_takes_out_every_address_and_nothing_else() {
    let mut set = v4(&[(1, 100)]);
    set.subtract(&v4(&[(10, 19), (50, 50), (95, 200)]));

    assert_eq!(set.v4_ranges(), vec![(1, 9), (20, 49), (51, 94)]);
    assert_eq!(set.len(), 9 + 30 + 44);
}

#[test]
fn the_ends_of_the_address_space_are_handled() {
    let mut set = v4(&[(0, u32::MAX)]);
    assert_eq!(set.len(), 1u128 << 32);

    set.subtract(&v4(&[(0, 0), (u32::MAX, u32::MAX)]));
    assert_eq!(set.v4_ranges(), vec![(1, u32::MAX - 1)]);

    let all = v6(&[(0, u128::MAX, None)]);
    assert_eq!(all.len(), u128::MAX, "the count stops at the largest u128");
}

#[test]
fn an_ipv6_address_on_two_interfaces_counts_twice() {
    let set = v6(&[(1, 10, Some(2)), (1, 10, None), (5, 20, Some(2))]);

    assert_eq!(set.v6_ranges(), vec![(1, 10, None), (1, 20, Some(2))]);
    assert_eq!(set.len(), 10 + 20);
}

#[test]
fn subtracting_an_ipv6_address_takes_it_off_every_interface() {
    let mut set = v6(&[(1, 10, Some(2)), (1, 10, None)]);
    set.subtract(&v6(&[(5, 5, Some(7))]));

    assert_eq!(
        set.v6_ranges(),
        vec![(1, 4, None), (6, 10, None), (1, 4, Some(2)), (6, 10, Some(2))]
    );
}

#[test]
fn the_families_are_kept_apart() {
    let mut set = v4(&[(1, 10)]);
    set.extend(&v6(&[(1, 10, None)]));
    set.subtract(&v6(&[(1, 10, None)]));

    assert_eq!(set.v4_ranges(), vec![(1, 10)]);
    assert!(set.v6_ranges().is_empty());
}
