use zond_daemon::addresses::AddressSet;
use zond_daemon::scope::Scope;

/// An IPv4 address in dotted decimal.
fn quad(text: &str) -> u32 {
    let parts: Vec<u32> = text.split('.').map(|p| p.parse().expect("an octet")).collect();
    assert_eq!(parts.len(), 4, "{text}");
    (parts[0] << 24) | (parts[1] << 16) | (parts[2] << 8) | parts[3]
}

/// The addresses an expression stands for, for the few forms these tests
/// write: an address, `first-last`, a CIDR block, and the IPv6 blocks below.
fn asking(expression: &str) -> AddressSet {
    let v6 = |first: u128, last: u128| AddressSet::from_ranges(&Vec::new(), &vec![(first, last, None)]);
    match expression {
        "::/0" => return v6(0, u128::MAX),
        "2001:db8::/64" => {
            let base: u128 = 0x2001_0db8 << 96;
            return v6(base, base | ((1u128 << 64) - 1));
        }
        _ => {}
    }
    let range = if let Some((address, bits)) = expression.split_once('/') {
        let bits: u32 = bits.parse().expect("a prefix length");
        let first = quad(address);
        let size: u64 = 1u64 << (32 - bits);
        (first, (first as u64 + size - 1) as u32)
    } else if let Some((first, last)) = expression.split_once('-') {
        (quad(first), quad(last))
    } else {
        (quad(expression), quad(expression))
    };
    AddressSet::from_ranges(&vec![range], &Vec::new())
}

/// A grammar for the few forms these tests write, refusing anything that
/// does not start like an address.
fn grammar(text: &String) -> Result<AddressSet, String> {
    match text.chars().next() {
        Some(c) if c.is_ascii_digit() || c == ':' => Ok(asking(text)),
        _ => Err("invalid IP address syntax".to_string()),
    }
}

fn texts(expressions: &[&str]) -> Vec<String> {
    expressions.iter().map(|e| (*e).to_string()).collect()
}

/// A policy list as a grammar already read it.
fn written(expressions: &[&str]) -> Vec<(String, Result<AddressSet, String>)> {
    expressions.iter().map(|e| ((*e).to_string(), Ok(asking(e)))).collect()
}

fn bounded(allowed: &[&str], denied: &[&str]) -> Scope {
    Scope::read(&texts(allowed), &texts(denied), &grammar).expect("a policy this test wrote")
}

/// A daemon told nothing may be pointed anywhere.
#[test]
fn a_daemon_told_nothing_permits_anything() {
    let anywhere = Scope::anywhere();

    assert!(!anywhere.is_bounded());
    assert!(anywhere.permits(&asking("0.0.0.0/0")).is_ok());
    assert!(anywhere.permits(&asking("::/0")).is_ok());
}

/// An allow list is the only place a scan may reach.
#[test]
fn an_allow_list_is_the_whole_of_where_a_scan_may_reach() {
    let inside = bounded(&["10.0.0.0/8"], &[]);

    assert!(inside.is_bounded());
    assert!(inside.permits(&asking("10.1.2.0/24")).is_ok());
    assert!(inside.permits(&asking("10.0.0.1")).is_ok());

    let refused = inside
        .permits(&asking("192.0.2.0/24"))
        .expect_err("outside the allow list");

    assert_eq!(refused.code(), "scope.refused");
    assert!(refused.message().contains("192.0.2.0"), "{}", refused.text());
}

/// A request reaching partly outside is refused whole.
#[test]
fn a_request_reaching_partly_outside_is_refused_whole() {
    let inside = bounded(&["10.0.0.0/8"], &[]);

    let refused = inside
        .permits(&asking("10.0.0.0-11.0.0.0"))
        .expect_err("half in, half out");

    assert_eq!(refused.code(), "scope.refused");
    assert!(
        refused.message().contains("11.0.0.0") || refused.message().contains("10.255"),
        "the refusal names the part that was outside: {}",
        refused.text()
    );
}

/// A deny list wins, whatever the allow list said.
#[test]
fn a_deny_list_overrides_an_allow_list() {
    let policy = bounded(&["10.0.0.0/8"], &["10.5.0.0/16"]);

    assert!(policy.permits(&asking("10.1.0.0/16")).is_ok());

    let refused = policy
        .permits(&asking("10.5.0.1"))
        .expect_err("allowed by one list and denied by the other");

    assert_eq!(refused.code(), "scope.refused");
    assert!(refused.message().contains("10.5.0.1"), "{}", refused.text());
}

/// A deny list on its own bounds an otherwise open daemon.
#[test]
fn a_deny_list_alone_still_bounds() {
    let policy = bounded(&[], &["169.254.169.254"]);

    assert!(policy.is_bounded());
    assert!(policy.permits(&asking("10.0.0.0/8")).is_ok());
    assert!(policy.permits(&asking("169.254.169.254")).is_err());
}

/// Both families are bounded, and an address of one says nothing about the
/// other.
#[test]
fn a_policy_written_in_one_family_does_not_open_the_other() {
    let policy = bounded(&["10.0.0.0/8"], &[]);

    let refused = policy
        .permits(&asking("2001:db8::/64"))
        .expect_err("no v6 was allowed");

    assert_eq!(refused.code(), "scope.refused");
    assert!(
        refused.message().contains('['),
        "a v6 range is bracketed so a reader can see where it ends: {}",
        refused.text()
    );
}

/// A range nobody could parse is a mistake in the policy, named as one.
#[test]
fn a_policy_nobody_could_parse_is_refused_rather_than_read_as_empty() {
    let refused = Scope::read(&texts(&["not a range"]), &Vec::new(), &grammar).expect_err("a range that is not one");

    assert_eq!(refused.code(), "scope.malformed");
    assert!(refused.message().contains("not a range"), "{}", refused.text());
    assert!(refused.message().contains("allowed"), "{}", refused.text());
}

#[test]
fn a_refusal_names_the_range_and_counts_it() {
    let policy = bounded(&["10.0.0.0/8"], &[]);

    let refused = policy.permits(&asking("192.0.2.0/30")).expect_err("outside");

    assert_eq!(
        refused.message(),
        "this daemon may not scan 192.0.2.0-192.0.2.3; 4 addresses of the request are outside what it is allowed"
    );
}

#[test]
fn a_single_refused_address_is_written_alone() {
    let policy = bounded(&[], &["192.0.2.7"]);

    let refused = policy.permits(&asking("192.0.2.7")).expect_err("denied");

    assert_eq!(
        refused.message(),
        "this daemon may not scan 192.0.2.7; 1 addresses of the request are outside what it is allowed"
    );
}

#[test]
fn a_malformed_deny_list_names_its_side() {
    let refused = Scope::read(&texts(&["10.0.0.0/8"]), &texts(&["nowhere"]), &grammar)
        .expect_err("a range that is not one");

    assert_eq!(refused.code(), "scope.malformed");
    assert_eq!(
        refused.message(),
        "nowhere is not an address range for the denied list: invalid IP address syntax"
    );
}

#[test]
fn a_refusal_of_many_ranges_names_three_and_says_there_are_more() {
    let policy = bounded(&["10.0.0.0/8"], &[]);

    let refused = policy.permits(&asking("192.0.2.1")).expect_err("outside");
    assert!(!refused.message().contains("and more"), "{}", refused.text());

    let mut many = asking("192.0.2.1");
    for extra in ["192.0.2.7", "192.0.2.5", "192.0.2.3"] {
        many.extend(&asking(extra));
    }

    let refused = policy.permits(&many).expect_err("outside");
    assert_eq!(
        refused.message(),
        "this daemon may not scan 192.0.2.1, 192.0.2.3, 192.0.2.5 and more; 4 addresses of the request are outside what it is allowed"
    );
}

#[test]
fn a_refused_v6_range_is_written_the_way_rust_writes_it() {
    let policy = bounded(&["10.0.0.0/8"], &[]);

    let refused = policy.permits(&asking("2001:db8::/64")).expect_err("no v6 was allowed");

    assert_eq!(
        refused.message(),
        "this daemon may not scan [2001:db8::]-[2001:db8::ffff:ffff:ffff:ffff]; 18446744073709551616 addresses of the request are outside what it is allowed"
    );
}

#[test]
fn an_empty_allow_list_is_no_allow_list() {
    let open = Scope::read(&Vec::new(), &Vec::new(), &grammar).expect("nothing to read");

    assert!(!open.is_bounded());
    assert!(open.permits(&asking("0.0.0.0/0")).is_ok());
}

#[test]
fn expressions_already_read_make_the_same_policy() {
    let read = Scope::read_written(&written(&["10.0.0.0/8"]), &written(&["10.5.0.0/16"])).expect("readable");
    let parsed = bounded(&["10.0.0.0/8"], &["10.5.0.0/16"]);

    assert!(read.permits(&asking("10.1.0.1")).is_ok());
    assert!(parsed.permits(&asking("10.1.0.1")).is_ok());
    assert!(read.permits(&asking("10.5.0.1")).is_err());
    assert!(parsed.permits(&asking("10.5.0.1")).is_err());
}

#[test]
fn every_expression_is_handed_to_the_grammar_in_order() {
    let asked = std::cell::RefCell::new(Vec::new());
    let noting = |text: &String| {
        asked.borrow_mut().push(text.clone());
        grammar(text)
    };

    Scope::read(&texts(&["10.0.0.0/8", "192.0.2.0/24"]), &texts(&["10.5.0.0/16"]), &noting).expect("readable");

    assert_eq!(*asked.borrow(), texts(&["10.0.0.0/8", "192.0.2.0/24", "10.5.0.0/16"]));
}
