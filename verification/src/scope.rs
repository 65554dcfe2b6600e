//! # What this daemon may be pointed at
//!
//! A scanner reached over a socket is a scanner whoever holds that socket can
//! aim, so where it may reach is a setting of the daemon rather than of a
//! request. A client that is taken over can ask for anything; what it gets is
//! still what the operator allowed.
//!
//! ## Refused, not narrowed
//!
//! A request reaching outside the policy is turned down whole rather than
//! quietly trimmed to fit: a caller who asked to scan a range and got a scan of
//! part of it has a report that says less than they think.
//!
//! ## Checked on the addresses, not on the words
//!
//! A policy is compared against the addresses a request resolved to, never
//! against the text it named them with.
//!
//! ## No policy is no policy
//!
//! A daemon told nothing permits everything. An allow list says where a scan
//! may reach, a deny list says where it may not whatever the allow list says,
//! and either may be given on its own.

use vstd::prelude::*;

use crate::address_text::{dotted, dotted_text, v6_text, v6_written};
use crate::addresses::{
    address_count, anywhere_in, canonical, v4_addresses, v6_addresses, v6_scoped, AddressSet,
};
use crate::error::Error;
use crate::text::{decimal, decimal_text, joined};

verus! {

/// Where this daemon may send probes.
#[derive(Debug)]
pub struct Scope {
    /// Where a scan may reach. `None` is anywhere.
    allowed: Option<AddressSet>,
    /// Where it may not, whatever `allowed` says.
    denied: AddressSet,
}

impl Scope {
    /// The allow list, or `None` for anywhere.
    pub closed spec fn allowed_set(&self) -> Option<AddressSet> {
        self.allowed
    }

    /// The deny list.
    pub closed spec fn denied_set(&self) -> AddressSet {
        self.denied
    }
}

/// Whether `scope` lets a scan reach the IPv4 address `a`.
pub open spec fn permits_v4(scope: Scope, a: u32) -> bool {
    &&& scope.allowed_set() matches Some(allowed) ==> v4_addresses(allowed).contains(a)
    &&& !v4_addresses(scope.denied_set()).contains(a)
}

/// Whether `scope` lets a scan reach the IPv6 address `a`, on any interface.
pub open spec fn permits_v6(scope: Scope, a: u128) -> bool {
    &&& scope.allowed_set() matches Some(allowed) ==> v6_addresses(allowed).contains(a)
    &&& !v6_addresses(scope.denied_set()).contains(a)
}

/// The IPv4 addresses of `asked` that `scope` does not permit: outside the
/// allow list where there is one, and inside the deny list.
pub open spec fn refused_v4(scope: Scope, asked: AddressSet) -> Set<u32> {
    let beyond = match scope.allowed_set() {
        Some(allowed) => v4_addresses(asked).difference(v4_addresses(allowed)),
        None => Set::empty(),
    };
    beyond.union(v4_addresses(asked).intersect(v4_addresses(scope.denied_set())))
}

/// The IPv6 addresses of `asked`, each on the interface it is asked on, that
/// `scope` does not permit.
pub open spec fn refused_v6(scope: Scope, asked: AddressSet) -> Set<(Option<u32>, u128)> {
    let beyond = match scope.allowed_set() {
        Some(allowed) => v6_scoped(asked).difference(anywhere_in(v6_addresses(allowed))),
        None => Set::empty(),
    };
    beyond.union(v6_scoped(asked).intersect(anywhere_in(v6_addresses(scope.denied_set()))))
}

/// Whether `scope` permits every address of `asked`.
pub open spec fn permitted(scope: Scope, asked: AddressSet) -> bool {
    refused_v4(scope, asked).is_empty() && refused_v6(scope, asked).is_empty()
}

/// Whether `e` is the refusal of `asked` under `scope`: `scope.refused`, in
/// the words that name the addresses refused.
pub open spec fn refusal_of(e: Error, scope: Scope, asked: AddressSet) -> bool {
    &&& e.code_text() == "scope.refused"@
    &&& exists|refused: AddressSet|
        v4_addresses(refused) == refused_v4(scope, asked) && v6_scoped(refused) == refused_v6(scope, asked)
            && canonical(refused.v4_blocks()) && canonical(refused.v6_blocks()) && e.message_text()
            == refusal_words(refused)
}

/// One IPv4 range, written as a person would write it: one address, or the
/// first and last with a dash between.
pub open spec fn v4_range_text(first: u32, last: u32) -> Seq<char> {
    if first == last {
        dotted(first)
    } else {
        dotted(first) + "-"@ + dotted(last)
    }
}

/// An IPv6 address bracketed, so a reader never has to decide whether the
/// last group is part of the address or something after it.
pub open spec fn bracketed(a: u128) -> Seq<char> {
    "["@ + v6_written(a) + "]"@
}

/// One IPv6 range, written as a person would write it.
pub open spec fn v6_range_text(first: u128, last: u128) -> Seq<char> {
    if first == last {
        bracketed(first)
    } else {
        bracketed(first) + "-"@ + bracketed(last)
    }
}

/// Every range of a set written out, in order, the IPv4 ones first.
pub open spec fn range_texts(set: AddressSet) -> Seq<Seq<char>> {
    set.v4_blocks().map_values(|b: (Option<u32>, u128, u128)| v4_range_text(b.1 as u32, b.2 as u32))
        + set.v6_blocks().map_values(|b: (Option<u32>, u128, u128)| v6_range_text(b.1, b.2))
}

/// Items joined with a comma and a space.
pub open spec fn comma_joined(items: Seq<Seq<char>>) -> Seq<char>
    decreases items.len(),
{
    if items.len() == 0 {
        Seq::empty()
    } else if items.len() == 1 {
        items[0]
    } else {
        comma_joined(items.drop_last()) + ", "@ + items.last()
    }
}

/// At most three items, and a word that there were more.
///
/// An operator reading a refusal wants to recognise what was asked for, and a
/// policy refusing a `/8` would otherwise answer with more ranges than anybody
/// reads.
pub open spec fn shortened(items: Seq<Seq<char>>) -> Seq<char> {
    if items.len() <= 3 {
        comma_joined(items)
    } else {
        comma_joined(items.take(3)) + " and more"@
    }
}

/// The words a refusal of `refused` is given in.
pub open spec fn refusal_words(refused: AddressSet) -> Seq<char> {
    "this daemon may not scan "@ + shortened(range_texts(refused)) + "; "@ + decimal(
        address_count(refused) as nat,
    ) + " addresses of the request are outside what it is allowed"@
}

/// One expression of a policy as the operator wrote it, and what the engine's
/// address grammar read it as: the addresses it stands for, or why it stands
/// for none.
pub type Written = (String, Result<AddressSet, String>);

/// Whether every expression of `written` was read as addresses.
pub open spec fn all_read(written: Seq<Written>) -> bool {
    forall|i: int| 0 <= i < written.len() ==> (#[trigger] written[i]).1 is Ok
}

/// The IPv4 addresses the expressions of `written` stand for, together.
pub open spec fn written_v4(written: Seq<Written>) -> Set<u32> {
    Set::new(
        |a: u32|
            exists|i: int|
                0 <= i < written.len() && (#[trigger] written[i].1 matches Ok(s) && v4_addresses(s).contains(a)),
    )
}

/// The IPv6 addresses the expressions of `written` stand for, together, each
/// on its interface.
pub open spec fn written_v6(written: Seq<Written>) -> Set<(Option<u32>, u128)> {
    Set::new(
        |p: (Option<u32>, u128)|
            exists|i: int|
                0 <= i < written.len() && (#[trigger] written[i].1 matches Ok(s) && v6_scoped(s).contains(p)),
    )
}

/// `e` is the refusal of the first expression of `written` that was not read
/// as addresses, on the list called `side`.
pub open spec fn malformed_at(e: Error, written: Seq<Written>, side: Seq<char>) -> bool {
    exists|i: int|
        0 <= i < written.len() && all_read(written.take(i)) && (#[trigger] written[i].1 matches Err(
            refused,
        ) && e.code_text() == "scope.malformed"@ && e.message_text() == written[i].0@
            + " is not an address range for the "@ + side + " list: "@ + refused@)
}

/// One IPv4 range, written as a person would write it.
pub fn v4_range_written(first: u32, last: u32) -> (r: String)
    ensures
        r@ == v4_range_text(first, last),
{
    if first == last {
        dotted_text(first)
    } else {
        let mut out = dotted_text(first);
        out.append("-");
        out.append(dotted_text(last).as_str());
        out
    }
}

/// An IPv6 address in brackets.
fn bracketed_text(a: u128) -> (r: String)
    ensures
        r@ == bracketed(a),
{
    let mut out = String::from_str("[");
    out.append(v6_text(a).as_str());
    out.append("]");
    out
}

/// One IPv6 range, written as a person would write it.
pub fn v6_range_written(first: u128, last: u128) -> (r: String)
    ensures
        r@ == v6_range_text(first, last),
{
    if first == last {
        bracketed_text(first)
    } else {
        let mut out = bracketed_text(first);
        out.append("-");
        out.append(bracketed_text(last).as_str());
        out
    }
}

/// Joining one more item onto a joined list.
proof fn lemma_comma_joined_push(items: Seq<Seq<char>>, item: Seq<char>)
    ensures
        comma_joined(items.push(item)) == if items.len() == 0 {
            item
        } else {
            comma_joined(items) + ", "@ + item
        },
{
    assert(items.push(item).drop_last() =~= items);
}

/// A set written out as the ranges it holds, shortened where there are many.
pub fn ranges_text(set: &AddressSet) -> (r: String)
    ensures
        r@ == shortened(range_texts(*set)),
{
    let ghost items = range_texts(*set);
    let four = set.v4_ranges();
    let six = set.v6_ranges();
    let n4 = four.len();
    let n6 = six.len();
    let mut out = String::new();
    let mut written: usize = 0;
    proof {
        assert(items.len() == n4 + n6);
        assert(items.take(0) =~= Seq::<Seq<char>>::empty());
    }
    let mut i: usize = 0;
    while i < n4
        invariant
            items == range_texts(*set),
            n4 == four@.len(),
            n4 == set.v4_blocks().len(),
            n6 == set.v6_blocks().len(),
            forall|k: int| 0 <= k < four@.len() ==> (#[trigger] four@[k]).0 == set.v4_blocks()[k].1 && four@[k].1
                == set.v4_blocks()[k].2,
            items.len() == n4 + n6,
            i <= n4,
            written == i,
            written <= 3,
            out@ == comma_joined(items.take(written as int)),
        decreases n4 - i,
    {
        if written == 3 {
            out.append(" and more");
            return out;
        }
        if written > 0 {
            out.append(", ");
        }
        let piece = v4_range_written(four[i].0, four[i].1);
        out.append(piece.as_str());
        proof {
            assert(items[i as int] == v4_range_text(four@[i as int].0, four@[i as int].1));
            lemma_comma_joined_push(items.take(i as int), items[i as int]);
            assert(items.take(i as int).push(items[i as int]) =~= items.take(i + 1));
        }
        written = written + 1;
        i = i + 1;
    }
    let mut j: usize = 0;
    while j < n6
        invariant
            items == range_texts(*set),
            n4 == set.v4_blocks().len(),
            n6 == six@.len(),
            n6 == set.v6_blocks().len(),
            forall|k: int| 0 <= k < six@.len() ==> (#[trigger] six@[k]) == (set.v6_blocks()[k].1, set.v6_blocks()[k].2, set.v6_blocks()[k].0),
            items.len() == n4 + n6,
            j <= n6,
            written <= 3,
            written == n4 + j,
            out@ == comma_joined(items.take(written as int)),
        decreases n6 - j,
    {
        if written == 3 {
            out.append(" and more");
            return out;
        }
        if written > 0 {
            out.append(", ");
        }
        let piece = v6_range_written(six[j].0, six[j].1);
        out.append(piece.as_str());
        proof {
            let k = (n4 + j) as int;
            assert(items[k] == v6_range_text(six@[j as int].0, six@[j as int].1));
            lemma_comma_joined_push(items.take(k), items[k]);
            assert(items.take(k).push(items[k]) =~= items.take(k + 1));
        }
        written = written + 1;
        j = j + 1;
    }
    proof {
        assert(items.take(items.len() as int) =~= items);
    }
    out
}

impl Clone for Scope {
    /// The same policy, holding copies of both lists.
    fn clone(&self) -> (r: Scope)
        ensures
            r.allowed_set() is Some == self.allowed_set() is Some,
            r.allowed_set() matches Some(a) ==> a.v4_blocks() == self.allowed_set()->0.v4_blocks()
                && a.v6_blocks() == self.allowed_set()->0.v6_blocks(),
            r.denied_set().v4_blocks() == self.denied_set().v4_blocks(),
            r.denied_set().v6_blocks() == self.denied_set().v6_blocks(),
    {
        let allowed = match &self.allowed {
            Some(a) => Some(a.clone()),
            None => None,
        };
        Scope { allowed, denied: self.denied.clone() }
    }
}

impl Default for Scope {
    /// A daemon that may be pointed anywhere.
    fn default() -> (r: Scope)
        ensures
            r.allowed_set() is None,
            v4_addresses(r.denied_set()).is_empty(),
            v6_addresses(r.denied_set()).is_empty(),
    {
        Scope::anywhere()
    }
}

impl Scope {
    /// A daemon that may be pointed anywhere.
    pub fn anywhere() -> (r: Scope)
        ensures
            r.allowed_set() is None,
            v4_addresses(r.denied_set()).is_empty(),
            v6_addresses(r.denied_set()).is_empty(),
            v6_scoped(r.denied_set()).is_empty(),
    {
        Scope { allowed: None, denied: AddressSet::new() }
    }

    /// Whether this policy bounds anything at all.
    pub fn is_bounded(&self) -> (r: bool)
        ensures
            r == (self.allowed_set() is Some || !v4_addresses(self.denied_set()).is_empty()
                || !v6_addresses(self.denied_set()).is_empty()),
    {
        self.allowed.is_some() || !self.denied.is_empty()
    }

    /// The addresses of `asked` this policy does not permit.
    ///
    /// Never walks an address: a deny list of a `/8` costs the same as one of a
    /// single host.
    fn outside(&self, asked: &AddressSet) -> (r: AddressSet)
        ensures
            v4_addresses(r) == refused_v4(*self, *asked),
            v6_scoped(r) == refused_v6(*self, *asked),
    {
        // Outside the allow list, where there is one.
        let mut beyond = match &self.allowed {
            Some(allowed) => {
                let mut beyond = asked.clone();
                beyond.subtract(allowed);
                beyond
            },
            None => {
                let beyond = AddressSet::new();
                proof {
                    assert(v4_addresses(beyond) =~= Set::<u32>::empty());
                    assert(v6_scoped(beyond) =~= Set::<(Option<u32>, u128)>::empty());
                }
                beyond
            },
        };
        // And inside the deny list, which is `asked` minus everything not denied.
        let mut permitted = asked.clone();
        permitted.subtract(&self.denied);
        let mut denied = asked.clone();
        denied.subtract(&permitted);
        proof {
            assert(v4_addresses(denied) =~= v4_addresses(*asked).intersect(v4_addresses(self.denied)));
            assert forall|p: (Option<u32>, u128)| v6_scoped(denied).contains(p) <==> v6_scoped(*asked).intersect(
                anywhere_in(v6_addresses(self.denied)),
            ).contains(p) by {
                if v6_scoped(*asked).contains(p) && !v6_addresses(self.denied).contains(p.1) {
                    assert(v6_scoped(permitted).contains(p));
                    assert(v6_addresses(permitted).contains(p.1));
                }
            }
            assert(v6_scoped(denied) =~= v6_scoped(*asked).intersect(anywhere_in(v6_addresses(self.denied))));
        }
        beyond.extend(&denied);
        beyond
    }

    /// Refuses `asked` unless every address in it is permitted.
    ///
    /// The refusal names what it refused: an operator reading an audit log
    /// wants to know which addresses somebody reached for, and a caller wants
    /// to know which part of their request to take out.
    pub fn permits(&self, asked: &AddressSet) -> (r: Result<(), Error>)
        ensures
            r is Ok <==> permitted(*self, *asked),
            r matches Err(e) ==> refusal_of(e, *self, *asked),
    {
        let refused = self.outside(asked);
        if refused.is_empty() {
            return Ok(());
        }
        let mut words = String::from_str("this daemon may not scan ");
        words.append(ranges_text(&refused).as_str());
        words.append("; ");
        words.append(decimal_text(refused.len()).as_str());
        words.append(" addresses of the request are outside what it is allowed");
        Err(Error::new("scope.refused", words))
    }

    /// Reads a policy off the words an operator wrote it in, each expression
    /// given with what the engine's address grammar read it as.
    ///
    /// An empty allow list is no allow list, which is anywhere; an expression
    /// nobody could read is a mistake in the policy, named as one, rather than
    /// an empty list. The allow list is read first.
    pub fn read_written(allowed: &Vec<Written>, denied: &Vec<Written>) -> (r: Result<Scope, Error>)
        ensures
            read_as(r, allowed@, denied@),
    {
        let allowed_set = if allowed.len() == 0 {
            None
        } else {
            match set(allowed, "allowed") {
                Ok(s) => Some(s),
                Err(e) => return Err(e),
            }
        };
        let denied_set = match set(denied, "denied") {
            Ok(s) => s,
            Err(e) => return Err(e),
        };
        Ok(Scope { allowed: allowed_set, denied: denied_set })
    }

    /// Reads a policy off the words an operator wrote it in, each expression
    /// read by `grammar`, the address grammar the daemon was built with: each
    /// text is handed to it once, in order, the allow list first, and the
    /// policy is what `read_written` makes of the texts beside their readings.
    pub fn read<F: Fn(&String) -> Result<AddressSet, String>>(
        allowed: &Vec<String>,
        denied: &Vec<String>,
        grammar: &F,
    ) -> (r: Result<Scope, Error>)
        requires
            forall|text: &String| #[trigger] grammar.requires((text,)),
        ensures
            exists|a: Seq<Written>, d: Seq<Written>|
                #![trigger read_as(r, a, d)]
                readings_by(*grammar, allowed@, a) && readings_by(*grammar, denied@, d) && read_as(r, a, d),
    {
        let a = read_each(allowed, grammar);
        let d = read_each(denied, grammar);
        let r = Self::read_written(&a, &d);
        assert(readings_by(*grammar, allowed@, a@) && readings_by(*grammar, denied@, d@) && read_as(r, a@, d@));
        r
    }
}

/// What reading a policy gives for expressions read as `allowed` and
/// `denied`: a policy exactly when every expression was read, with the
/// addresses they stand for, and otherwise the refusal of the first that was
/// not, on the allow list before the deny list.
pub open spec fn read_as(r: Result<Scope, Error>, allowed: Seq<Written>, denied: Seq<Written>) -> bool {
    &&& r is Ok <==> (all_read(allowed) && all_read(denied))
    &&& r matches Ok(scope) ==> {
        &&& (scope.allowed_set() is None <==> allowed.len() == 0)
        &&& scope.allowed_set() matches Some(a) ==> v4_addresses(a) == written_v4(allowed)
            && v6_scoped(a) == written_v6(allowed)
        &&& v4_addresses(scope.denied_set()) == written_v4(denied)
        &&& v6_scoped(scope.denied_set()) == written_v6(denied)
    }
    &&& r matches Err(e) ==> if all_read(allowed) {
        malformed_at(e, denied, "denied"@)
    } else {
        malformed_at(e, allowed, "allowed"@)
    }
}

/// Whether `written` holds each text of `texts`, in order, beside a reading
/// `grammar` gives of it.
pub open spec fn readings_by<F: Fn(&String) -> Result<AddressSet, String>>(
    grammar: F,
    texts: Seq<String>,
    written: Seq<Written>,
) -> bool {
    &&& written.len() == texts.len()
    &&& forall|i: int|
        0 <= i < texts.len() ==> (#[trigger] written[i]).0@ == texts[i]@ && grammar.ensures(
            (&texts[i],),
            written[i].1,
        )
}

/// Every text of `texts` beside what `grammar` reads it as.
fn read_each<F: Fn(&String) -> Result<AddressSet, String>>(texts: &Vec<String>, grammar: &F) -> (r: Vec<Written>)
    requires
        forall|text: &String| #[trigger] grammar.requires((text,)),
    ensures
        readings_by(*grammar, texts@, r@),
{
    let mut out: Vec<Written> = Vec::new();
    let mut i: usize = 0;
    while i < texts.len()
        invariant
            i <= texts@.len(),
            forall|text: &String| #[trigger] grammar.requires((text,)),
            out@.len() == i,
            forall|k: int|
                0 <= k < i ==> (#[trigger] out@[k]).0@ == texts@[k]@ && grammar.ensures(
                    (&texts@[k],),
                    out@[k].1,
                ),
        decreases texts@.len() - i,
    {
        let text = &texts[i];
        let reading = grammar(text);
        out.push((String::from_str(text.as_str()), reading));
        i = i + 1;
    }
    out
}

/// Reads one side of a policy: every expression's addresses together, or the
/// refusal of the first that was not read.
fn set(written: &Vec<Written>, side: &str) -> (r: Result<AddressSet, Error>)
    ensures
        r is Ok <==> all_read(written@),
        r matches Ok(s) ==> v4_addresses(s) == written_v4(written@) && v6_scoped(s) == written_v6(written@),
        r matches Err(e) ==> malformed_at(e, written@, side@),
{
    let mut whole = AddressSet::new();
    let mut i: usize = 0;
    proof {
        assert(written@.take(0) =~= Seq::<Written>::empty());
        assert(v4_addresses(whole) =~= written_v4(written@.take(0)));
        assert(v6_scoped(whole) =~= written_v6(written@.take(0)));
    }
    while i < written.len()
        invariant
            i <= written@.len(),
            all_read(written@.take(i as int)),
            v4_addresses(whole) == written_v4(written@.take(i as int)),
            v6_scoped(whole) == written_v6(written@.take(i as int)),
        decreases written@.len() - i,
    {
        let w = &written[i];
        match &w.1 {
            Ok(one) => {
                let ghost before = whole;
                whole.extend(one);
                proof {
                    let all = written@;
                    let t = all.take(i + 1);
                    let s = all.take(i as int);
                    assert(t =~= s.push(all[i as int]));
                    assert forall|j: int| 0 <= j < t.len() implies (#[trigger] t[j]).1 is Ok by {
                        if j < i {
                            assert(t[j] == s[j]);
                        }
                    }
                    assert forall|a: u32| v4_addresses(whole).contains(a) <==> written_v4(t).contains(a) by {
                        if written_v4(t).contains(a) {
                            let k = choose|k: int| 0 <= k < t.len() && (#[trigger] t[k].1 matches Ok(x) && v4_addresses(x).contains(a));
                            if k < i {
                                assert(t[k] == s[k]);
                                assert(written_v4(s).contains(a));
                            }
                        }
                        if v4_addresses(before).contains(a) {
                            let k = choose|k: int| 0 <= k < s.len() && (#[trigger] s[k].1 matches Ok(x) && v4_addresses(x).contains(a));
                            assert(t[k] == s[k]);
                        }
                        if v4_addresses(*one).contains(a) {
                            assert(t[i as int] == all[i as int]);
                        }
                    }
                    assert(v4_addresses(whole) =~= written_v4(t));
                    assert forall|p: (Option<u32>, u128)| v6_scoped(whole).contains(p) <==> written_v6(t).contains(p) by {
                        if written_v6(t).contains(p) {
                            let k = choose|k: int| 0 <= k < t.len() && (#[trigger] t[k].1 matches Ok(x) && v6_scoped(x).contains(p));
                            if k < i {
                                assert(t[k] == s[k]);
                                assert(written_v6(s).contains(p));
                            }
                        }
                        if v6_scoped(before).contains(p) {
                            let k = choose|k: int| 0 <= k < s.len() && (#[trigger] s[k].1 matches Ok(x) && v6_scoped(x).contains(p));
                            assert(t[k] == s[k]);
                        }
                        if v6_scoped(*one).contains(p) {
                            assert(t[i as int] == all[i as int]);
                        }
                    }
                    assert(v6_scoped(whole) =~= written_v6(t));
                }
            },
            Err(refused) => {
                let mut words = joined(w.0.as_str(), " is not an address range for the ");
                words.append(side);
                words.append(" list: ");
                words.append(refused.as_str());
                let e = Error::new("scope.malformed", words);
                proof {
                    let all = written@;
                    assert(all[i as int].1 is Err);
                    assert(!all_read(all));
                }
                return Err(e);
            },
        }
        i = i + 1;
    }
    proof {
        assert(written@.take(written@.len() as int) =~= written@);
    }
    Ok(whole)
}

/// A request is permitted exactly when every address it reaches is: refused
/// whole, never trimmed to the part that fits.
pub proof fn lemma_permitted_exactly(scope: Scope, asked: AddressSet)
    ensures
        (refused_v4(scope, asked).is_empty() && refused_v6(scope, asked).is_empty()) <==> (
        (forall|a: u32| v4_addresses(asked).contains(a) ==> #[trigger] permits_v4(scope, a))
            && (forall|p: (Option<u32>, u128)| v6_scoped(asked).contains(p) ==> #[trigger] permits_v6(
            scope,
            p.1,
        ))),
{
    if refused_v4(scope, asked).is_empty() && refused_v6(scope, asked).is_empty() {
        assert forall|a: u32| v4_addresses(asked).contains(a) implies #[trigger] permits_v4(scope, a) by {
            assert(!refused_v4(scope, asked).contains(a));
        }
        assert forall|p: (Option<u32>, u128)| v6_scoped(asked).contains(p) implies #[trigger] permits_v6(
            scope,
            p.1,
        ) by {
            assert(!refused_v6(scope, asked).contains(p));
        }
    }
    if (forall|a: u32| v4_addresses(asked).contains(a) ==> #[trigger] permits_v4(scope, a)) && (
    forall|p: (Option<u32>, u128)| v6_scoped(asked).contains(p) ==> #[trigger] permits_v6(scope, p.1)) {
        assert(refused_v4(scope, asked) =~= Set::empty()) by {
            assert forall|a: u32| !refused_v4(scope, asked).contains(a) by {
                if v4_addresses(asked).contains(a) {
                    assert(permits_v4(scope, a));
                }
            }
        }
        assert(refused_v6(scope, asked) =~= Set::empty()) by {
            assert forall|p: (Option<u32>, u128)| !refused_v6(scope, asked).contains(p) by {
                if v6_scoped(asked).contains(p) {
                    assert(permits_v6(scope, p.1));
                }
            }
        }
    }
}

/// A deny list wins, whatever the allow list said: an address a request
/// reaches that the deny list names is refused.
pub proof fn lemma_deny_overrides_allow(scope: Scope, asked: AddressSet, a: u32, p: (Option<u32>, u128))
    ensures
        v4_addresses(asked).contains(a) && v4_addresses(scope.denied_set()).contains(a)
            ==> refused_v4(scope, asked).contains(a),
        v6_scoped(asked).contains(p) && v6_addresses(scope.denied_set()).contains(p.1)
            ==> refused_v6(scope, asked).contains(p),
{
}

/// A daemon told nothing permits any request at all.
pub proof fn lemma_no_policy_permits_anything(scope: Scope, asked: AddressSet)
    requires
        scope.allowed_set() is None,
        v4_addresses(scope.denied_set()).is_empty(),
        v6_addresses(scope.denied_set()).is_empty(),
    ensures
        refused_v4(scope, asked).is_empty(),
        refused_v6(scope, asked).is_empty(),
{
    assert(refused_v4(scope, asked) =~= Set::empty());
    assert(refused_v6(scope, asked) =~= Set::empty());
}

/// Reaching for less is never refused where reaching for more was permitted.
pub proof fn lemma_less_is_permitted_where_more_was(scope: Scope, smaller: AddressSet, larger: AddressSet)
    requires
        v4_addresses(smaller).subset_of(v4_addresses(larger)),
        v6_scoped(smaller).subset_of(v6_scoped(larger)),
        refused_v4(scope, larger).is_empty(),
        refused_v6(scope, larger).is_empty(),
    ensures
        refused_v4(scope, smaller).is_empty(),
        refused_v6(scope, smaller).is_empty(),
{
    assert(refused_v4(scope, smaller) =~= Set::empty()) by {
        assert forall|a: u32| !refused_v4(scope, smaller).contains(a) by {
            if refused_v4(scope, smaller).contains(a) {
                assert(refused_v4(scope, larger).contains(a));
            }
        }
    }
    assert(refused_v6(scope, smaller) =~= Set::empty()) by {
        assert forall|p: (Option<u32>, u128)| !refused_v6(scope, smaller).contains(p) by {
            if refused_v6(scope, smaller).contains(p) {
                assert(refused_v6(scope, larger).contains(p));
            }
        }
    }
}

/// An allow list written in one family does not open the other: with no IPv6
/// address allowed, every IPv6 address a request reaches is refused.
pub proof fn lemma_one_family_does_not_open_the_other(scope: Scope, asked: AddressSet)
    requires
        scope.allowed_set() matches Some(allowed) && v6_addresses(allowed).is_empty(),
    ensures
        v6_scoped(asked).subset_of(refused_v6(scope, asked)),
{
}

} // verus!
