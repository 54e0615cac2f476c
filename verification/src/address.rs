//! Internet addresses: their canonical text, and the choice of one of a name's
//! addresses by its family.
use crate::error::{ErrorView, NodeError};
use crate::text::{decimal_text, digits_text};
use vstd::prelude::*;

verus! {

/// One address that a name lookup gave.
#[derive(Clone, Copy, Debug)]
pub enum IpAddress {
    /// An IPv4 address, by its four octets.
    V4 { octets: [u8; 4] },
    /// An IPv6 address, by its eight groups of sixteen bits.
    V6 { segments: [u16; 8] },
}

/// The dotted decimal text of an IPv4 address.
pub open spec fn ipv4_text(octets: Seq<u8>) -> Seq<char>
    recommends
        octets.len() == 4,
{
    crate::text::decimal(octets[0] as nat) + seq!['.'] + (crate::text::decimal(octets[1] as nat)
        + seq!['.'] + (crate::text::decimal(octets[2] as nat) + seq!['.'] + crate::text::decimal(
        octets[3] as nat,
    )))
}

/// Groups in lower-case hexadecimal, with a colon between each two.
pub open spec fn hex_groups(groups: Seq<u16>) -> Seq<char>
    decreases groups.len(),
{
    if groups.len() == 0 {
        Seq::empty()
    } else if groups.len() == 1 {
        crate::text::digits(groups[0] as nat, 16)
    } else {
        hex_groups(groups.drop_last()) + seq![':'] + crate::text::digits(groups.last() as nat, 16)
    }
}

/// Whether the `len` groups from `start` on are all zero.
pub open spec fn zero_run(groups: Seq<u16>, start: int, len: int) -> bool {
    &&& 0 <= start
    &&& 0 <= len
    &&& start + len <= groups.len()
    &&& forall|i: int| start <= i < start + len ==> groups[i] == 0
}

/// Whether a run of zero groups is one that `::` may stand for: at least two
/// groups long, no run being longer, and none as long starting before it.
pub open spec fn compressible_run(groups: Seq<u16>, start: int, len: int) -> bool {
    &&& len >= 2
    &&& zero_run(groups, start, len)
    &&& forall|s: int, l: int| #[trigger]
        zero_run(groups, s, l) ==> l < len || (l == len && start <= s)
}

/// Whether an IPv6 address stands for an IPv4 address (`::ffff:a.b.c.d`).
pub open spec fn is_ipv4_mapped(segments: Seq<u16>) -> bool {
    &&& zero_run(segments, 0, 5)
    &&& segments[5] == 0xffff
}

/// The octets of the IPv4 address that a mapped IPv6 address stands for.
pub open spec fn mapped_octets(segments: Seq<u16>) -> Seq<u8> {
    seq![
        (segments[6] / 256) as u8,
        (segments[6] % 256) as u8,
        (segments[7] / 256) as u8,
        (segments[7] % 256) as u8,
    ]
}

/// The canonical text of an IPv6 address: groups in hexadecimal, the first of
/// the longest runs of zero groups written `::`, and an address that stands
/// for an IPv4 address with that one in dotted decimal at its end.
pub open spec fn ipv6_text(segments: Seq<u16>) -> Seq<char>
    recommends
        segments.len() == 8,
{
    if is_ipv4_mapped(segments) {
        "::ffff:"@ + ipv4_text(mapped_octets(segments))
    } else if exists|start: int, len: int| compressible_run(segments, start, len) {
        let (start, len) = choose|start: int, len: int| compressible_run(segments, start, len);
        hex_groups(segments.take(start)) + "::"@ + hex_groups(segments.skip(start + len))
    } else {
        hex_groups(segments)
    }
}

/// One group is written in hexadecimal, and groups one after the other are
/// written with a colon where they meet.
pub proof fn lemma_hex_groups(groups: Seq<u16>, more: Seq<u16>, group: u16)
    ensures
        hex_groups(Seq::empty()) == Seq::<char>::empty(),
        hex_groups(seq![group]) == crate::text::digits(group as nat, 16),
        groups.len() > 0 && more.len() > 0 ==> hex_groups(groups + more) == hex_groups(groups)
            + seq![':'] + hex_groups(more),
    decreases more.len(),
{
    if groups.len() > 0 && more.len() > 0 {
        let joined = groups + more;
        assert(joined.drop_last() =~= groups + more.drop_last());
        if more.len() > 1 {
            lemma_hex_groups(groups, more.drop_last(), group);
        } else {
            assert(joined.drop_last() =~= groups);
        }
    }
}

/// A run of zero groups lies within the groups and holds no other group.
pub proof fn lemma_zero_run(groups: Seq<u16>, start: int, len: int)
    ensures
        zero_run(groups, start, len) <==> 0 <= start <= start + len <= groups.len() && (forall|
            i: int,
        |
            start <= i < start + len ==> groups[i] == 0),
{
}

/// The text of an IPv6 address that stands for an IPv4 address ends in the text
/// of that one.
pub proof fn lemma_ipv6_text_mapped(segments: Seq<u16>, octets: Seq<u8>)
    requires
        segments.len() == 8,
        octets.len() == 4,
        forall|i: int| 0 <= i < 5 ==> segments[i] == 0,
        segments[5] == 0xffff,
        segments[6] == 256 * octets[0] + octets[1],
        segments[7] == 256 * octets[2] + octets[3],
    ensures
        ipv6_text(segments) == "::ffff:"@ + ipv4_text(octets),
{
}

/// In the text of any other IPv6 address, `::` stands for the first of the
/// longest runs of zero groups, if that is longer than one group. The groups
/// before it and those after it are written out.
pub proof fn lemma_ipv6_text_compressed(segments: Seq<u16>, start: int, len: int)
    requires
        segments.len() == 8,
        len >= 2,
        zero_run(segments, start, len),
        forall|s: int, l: int| #[trigger]
            zero_run(segments, s, l) ==> l < len || (l == len && start <= s),
        !(start == 0 && len == 5 && segments[5] == 0xffff),
    ensures
        ipv6_text(segments) == hex_groups(segments.take(start)) + "::"@ + hex_groups(
            segments.skip(start + len),
        ),
{
    assert(compressible_run(segments, start, len));
    let chosen = choose|s: int, l: int| compressible_run(segments, s, l);
    lemma_compressible_run_unique(segments, start, len, chosen.0, chosen.1);
    if is_ipv4_mapped(segments) {
        assert(zero_run(segments, 0, 5));
    }
}

/// An IPv6 address without two zero groups side by side has all its groups
/// written out.
pub proof fn lemma_ipv6_text_in_full(segments: Seq<u16>)
    requires
        segments.len() == 8,
        forall|i: int, j: int|
            0 <= i < j < 8 && j == i + 1 && #[trigger] segments[i] == 0 ==> #[trigger] segments[j]
                != 0,
    ensures
        ipv6_text(segments) == hex_groups(segments),
{
    assert forall|start: int, len: int| !compressible_run(segments, start, len) by {
        if compressible_run(segments, start, len) {
            assert(segments[start] == 0);
            assert(segments[start + 1] == 0);
        }
    }
    if is_ipv4_mapped(segments) {
        assert(segments[0] == 0);
        assert(segments[1] == 0);
    }
}

/// At most one run is the one that `::` stands for.
proof fn lemma_compressible_run_unique(groups: Seq<u16>, s: int, l: int, t: int, m: int)
    requires
        compressible_run(groups, s, l),
        compressible_run(groups, t, m),
    ensures
        s == t,
        l == m,
{
}

/// A written number has no dot in it.
proof fn lemma_decimal_has_no_dot(n: nat)
    ensures
        !crate::text::decimal(n).contains('.'),
{
    crate::text::lemma_digits_chars(n, 10);
}

/// Different IPv4 addresses have different texts.
pub proof fn lemma_ipv4_text_injective(a: Seq<u8>, b: Seq<u8>)
    requires
        a.len() == 4,
        b.len() == 4,
        ipv4_text(a) == ipv4_text(b),
    ensures
        a == b,
{
    let d = |n: u8| crate::text::decimal(n as nat);
    let a3 = d(a[3]);
    let b3 = d(b[3]);
    let a2 = d(a[2]) + seq!['.'] + a3;
    let b2 = d(b[2]) + seq!['.'] + b3;
    let a1 = d(a[1]) + seq!['.'] + a2;
    let b1 = d(b[1]) + seq!['.'] + b2;
    assert forall|n: nat| !(#[trigger] crate::text::decimal(n)).contains('.') by {
        lemma_decimal_has_no_dot(n);
    }
    crate::text::lemma_split_at_mark(d(a[0]), a1, d(b[0]), b1, '.');
    crate::text::lemma_split_at_mark(d(a[1]), a2, d(b[1]), b2, '.');
    crate::text::lemma_split_at_mark(d(a[2]), a3, d(b[2]), b3, '.');
    crate::text::lemma_digits_injective(a[0] as nat, b[0] as nat, 10);
    crate::text::lemma_digits_injective(a[1] as nat, b[1] as nat, 10);
    crate::text::lemma_digits_injective(a[2] as nat, b[2] as nat, 10);
    crate::text::lemma_digits_injective(a[3] as nat, b[3] as nat, 10);
}

/// The text of an IPv4 address is its four octets in decimal, in their order,
/// with a dot between each two.
pub proof fn lemma_ipv4_text_parts(octets: Seq<u8>)
    requires
        octets.len() == 4,
    ensures
        ({
            let text = ipv4_text(octets);
            let first = crate::text::decimal(octets[0] as nat);
            let second = crate::text::decimal(octets[1] as nat);
            let third = crate::text::decimal(octets[2] as nat);
            let fourth = crate::text::decimal(octets[3] as nat);
            let i = first.len() as int;
            let j = i + 1 + second.len();
            let k = j + 1 + third.len();
            &&& text.take(i) == first
            &&& text[i] == '.'
            &&& text.subrange(i + 1, j) == second
            &&& text[j] == '.'
            &&& text.subrange(j + 1, k) == third
            &&& text[k] == '.'
            &&& text.skip(k + 1) == fourth
        }),
{
}

/// The dotted decimal text of the IPv4 address with these octets.
pub fn format_ipv4(octets: &[u8; 4]) -> (text: String)
    ensures
        text@ == ipv4_text(octets@),
{
    proof {
        reveal_strlit(".");
    }
    let mut text = decimal_text(octets[0] as u64);
    text.append(".");
    text.append(decimal_text(octets[1] as u64).as_str());
    text.append(".");
    text.append(decimal_text(octets[2] as u64).as_str());
    text.append(".");
    text.append(decimal_text(octets[3] as u64).as_str());
    text
}

/// Appends the groups from `from` up to `to` in hexadecimal.
fn append_groups(text: &mut String, segments: &[u16; 8], from: usize, to: usize)
    requires
        from <= to <= 8,
    ensures
        final(text)@ == old(text)@ + hex_groups(segments@.subrange(from as int, to as int)),
{
    let ghost before = text@;
    let mut i: usize = from;
    while i < to
        invariant
            from <= i <= to <= 8,
            text@ == before + hex_groups(segments@.subrange(from as int, i as int)),
        decreases to - i,
    {
        let ghost done = segments@.subrange(from as int, i as int);
        let ghost next = segments@.subrange(from as int, i + 1);
        if i > from {
            text.append(":");
        }
        text.append(digits_text(segments[i] as u64, 16).as_str());
        proof {
            reveal_strlit(":");
            assert(next.drop_last() =~= done);
        }
        i += 1;
    }
}

/// The first of the longest runs of zero groups, by its start and its length.
fn longest_zero_run(segments: &[u16; 8]) -> (run: (usize, usize))
    ensures
        zero_run(segments@, run.0 as int, run.1 as int),
        forall|s: int, l: int| #[trigger]
            zero_run(segments@, s, l) && l > 0 ==> l < run.1 || (l == run.1 && run.0 <= s),
{
    let mut best_start: usize = 0;
    let mut best_len: usize = 0;
    let mut start: usize = 0;
    let mut i: usize = 0;
    while i < 8
        invariant
            0 <= start <= i <= 8,
            best_start + best_len <= i,
            zero_run(segments@, start as int, i - start),
            start > 0 ==> segments@[start - 1] != 0,
            zero_run(segments@, best_start as int, best_len as int),
            forall|s: int, l: int| #[trigger]
                zero_run(segments@, s, l) && l > 0 && s + l <= i ==> l < best_len || (l == best_len
                    && best_start <= s),
        decreases 8 - i,
    {
        if segments[i] == 0 {
            if i - start + 1 > best_len {
                best_start = start;
                best_len = i - start + 1;
            }
        } else {
            start = i + 1;
        }
        i += 1;
    }
    (best_start, best_len)
}

/// The canonical text of the IPv6 address with these groups.
pub fn format_ipv6(segments: &[u16; 8]) -> (text: String)
    ensures
        text@ == ipv6_text(segments@),
{
    if segments[0] == 0 && segments[1] == 0 && segments[2] == 0 && segments[3] == 0 && segments[4]
        == 0 && segments[5] == 0xffff {
        let octets: [u8; 4] = [
            (segments[6] / 256) as u8,
            (segments[6] % 256) as u8,
            (segments[7] / 256) as u8,
            (segments[7] % 256) as u8,
        ];
        let mut text = "::ffff:".to_string();
        text.append(format_ipv4(&octets).as_str());
        return text;
    }
    let (start, len) = longest_zero_run(segments);
    let mut text = String::new();
    if len >= 2 {
        append_groups(&mut text, segments, 0, start);
        text.append("::");
        append_groups(&mut text, segments, start + len, 8);
        proof {
            let found = (start as int, len as int);
            assert(compressible_run(segments@, found.0, found.1));
            let chosen = choose|s: int, l: int| compressible_run(segments@, s, l);
            lemma_compressible_run_unique(segments@, found.0, found.1, chosen.0, chosen.1);
        }
    } else {
        append_groups(&mut text, segments, 0, 8);
        assert(segments@.subrange(0, 8) =~= segments@);
    }
    text
}

/// The first IPv4 address of a list.
pub open spec fn first_ipv4(addresses: Seq<IpAddress>) -> Option<Seq<u8>>
    decreases addresses.len(),
{
    if addresses.len() == 0 {
        None
    } else {
        match addresses[0] {
            IpAddress::V4 { octets } => Some(octets@),
            IpAddress::V6 { .. } => first_ipv4(addresses.drop_first()),
        }
    }
}

/// The first IPv6 address of a list.
pub open spec fn first_ipv6(addresses: Seq<IpAddress>) -> Option<Seq<u16>>
    decreases addresses.len(),
{
    if addresses.len() == 0 {
        None
    } else {
        match addresses[0] {
            IpAddress::V6 { segments } => Some(segments@),
            IpAddress::V4 { .. } => first_ipv6(addresses.drop_first()),
        }
    }
}

/// The first IPv4 address of a list is one of the list that no other comes
/// before, and there is one unless all are IPv6 addresses.
pub proof fn lemma_first_ipv4(addresses: Seq<IpAddress>)
    ensures
        match first_ipv4(addresses) {
            Some(octets) => exists|i: int|
                {
                    &&& 0 <= i < addresses.len()
                    &&& #[trigger] addresses[i] is V4
                    &&& addresses[i]->octets@ == octets
                    &&& forall|j: int| 0 <= j < i ==> #[trigger] addresses[j] is V6
                },
            None => forall|i: int| 0 <= i < addresses.len() ==> #[trigger] addresses[i] is V6,
        },
    decreases addresses.len(),
{
    if addresses.len() > 0 {
        let first = addresses[0];
        let rest = addresses.drop_first();
        if first is V6 {
            lemma_first_ipv4(rest);
            if first_ipv4(rest) is Some {
                let i = choose|i: int|
                    {
                        &&& 0 <= i < rest.len()
                        &&& #[trigger] rest[i] is V4
                        &&& rest[i]->octets@ == first_ipv4(rest)->0
                        &&& forall|j: int| 0 <= j < i ==> #[trigger] rest[j] is V6
                    };
                assert forall|j: int| 0 <= j < i + 1 implies #[trigger] addresses[j] is V6 by {
                    if j > 0 {
                        assert(rest[j - 1] is V6);
                    }
                }
            } else {
                assert forall|i: int|
                    0 <= i < addresses.len() implies #[trigger] addresses[i] is V6 by {
                    if i > 0 {
                        assert(rest[i - 1] is V6);
                    }
                }
            }
        }
    }
}

/// The first IPv6 address of a list is one of the list that no other comes
/// before, and there is one unless all are IPv4 addresses.
pub proof fn lemma_first_ipv6(addresses: Seq<IpAddress>)
    ensures
        match first_ipv6(addresses) {
            Some(segments) => exists|i: int|
                {
                    &&& 0 <= i < addresses.len()
                    &&& #[trigger] addresses[i] is V6
                    &&& addresses[i]->segments@ == segments
                    &&& forall|j: int| 0 <= j < i ==> #[trigger] addresses[j] is V4
                },
            None => forall|i: int| 0 <= i < addresses.len() ==> #[trigger] addresses[i] is V4,
        },
    decreases addresses.len(),
{
    if addresses.len() > 0 {
        let first = addresses[0];
        let rest = addresses.drop_first();
        if first is V4 {
            lemma_first_ipv6(rest);
            if first_ipv6(rest) is Some {
                let i = choose|i: int|
                    {
                        &&& 0 <= i < rest.len()
                        &&& #[trigger] rest[i] is V6
                        &&& rest[i]->segments@ == first_ipv6(rest)->0
                        &&& forall|j: int| 0 <= j < i ==> #[trigger] rest[j] is V4
                    };
                assert forall|j: int| 0 <= j < i + 1 implies #[trigger] addresses[j] is V4 by {
                    if j > 0 {
                        assert(rest[j - 1] is V4);
                    }
                }
            } else {
                assert forall|i: int|
                    0 <= i < addresses.len() implies #[trigger] addresses[i] is V4 by {
                    if i > 0 {
                        assert(rest[i - 1] is V4);
                    }
                }
            }
        }
    }
}

/// What a name lookup gave: its addresses in order, or the resolver's words.
pub type Lookup = Result<Vec<IpAddress>, String>;

/// The text of the first IPv4 address that a lookup gave, or why there is none.
pub open spec fn ipv4_resolution(lookup: Lookup) -> Result<Seq<char>, ErrorView> {
    match lookup {
        Err(reason) => Err(ErrorView::Lookup { reason: reason@ }),
        Ok(addresses) => match first_ipv4(addresses@) {
            Some(octets) => Ok(ipv4_text(octets)),
            None => Err(ErrorView::NoIpv4),
        },
    }
}

/// The text of the first IPv6 address that a lookup gave, or why there is none.
pub open spec fn ipv6_resolution(lookup: Lookup) -> Result<Seq<char>, ErrorView> {
    match lookup {
        Err(reason) => Err(ErrorView::Lookup { reason: reason@ }),
        Ok(addresses) => match first_ipv6(addresses@) {
            Some(segments) => Ok(ipv6_text(segments)),
            None => Err(ErrorView::NoIpv6),
        },
    }
}

/// A name is resolved to the text of the first of its IPv4 addresses: one that
/// the lookup gave and that only IPv6 addresses come before. It has none
/// exactly if all its addresses are IPv6 addresses. A lookup that failed is
/// told in the resolver's own words.
pub proof fn lemma_resolved_to_first_ipv4(lookup: Lookup)
    ensures
        match lookup {
            Err(reason) => ipv4_resolution(lookup) == Err::<Seq<char>, ErrorView>(
                ErrorView::Lookup { reason: reason@ },
            ),
            Ok(addresses) => match ipv4_resolution(lookup) {
                Ok(text) => exists|i: int|
                    {
                        &&& 0 <= i < addresses@.len()
                        &&& #[trigger] addresses@[i] is V4
                        &&& text == ipv4_text(addresses@[i]->octets@)
                        &&& forall|j: int| 0 <= j < i ==> #[trigger] addresses@[j] is V6
                    },
                Err(error) => {
                    &&& error is NoIpv4
                    &&& forall|i: int|
                        0 <= i < addresses@.len() ==> #[trigger] addresses@[i] is V6
                },
            },
        },
{
    if lookup is Ok {
        lemma_first_ipv4(lookup->Ok_0@);
    }
}

/// A name is resolved to the text of the first of its IPv6 addresses: one that
/// the lookup gave and that only IPv4 addresses come before. It has none
/// exactly if all its addresses are IPv4 addresses. A lookup that failed is
/// told in the resolver's own words.
pub proof fn lemma_resolved_to_first_ipv6(lookup: Lookup)
    ensures
        match lookup {
            Err(reason) => ipv6_resolution(lookup) == Err::<Seq<char>, ErrorView>(
                ErrorView::Lookup { reason: reason@ },
            ),
            Ok(addresses) => match ipv6_resolution(lookup) {
                Ok(text) => exists|i: int|
                    {
                        &&& 0 <= i < addresses@.len()
                        &&& #[trigger] addresses@[i] is V6
                        &&& text == ipv6_text(addresses@[i]->segments@)
                        &&& forall|j: int| 0 <= j < i ==> #[trigger] addresses@[j] is V4
                    },
                Err(error) => {
                    &&& error is NoIpv6
                    &&& forall|i: int|
                        0 <= i < addresses@.len() ==> #[trigger] addresses@[i] is V4
                },
            },
        },
{
    if lookup is Ok {
        lemma_first_ipv6(lookup->Ok_0@);
    }
}

/// Whether `lookup` is what a resolver gives for a name that is itself the text
/// of an IPv4 address: that address, once or more often, and no other. For any
/// other name it may be anything.
pub open spec fn keeps_ipv4_text(name: Seq<char>, lookup: Lookup) -> bool {
    forall|octets: Seq<u8>|
        octets.len() == 4 && name == #[trigger] ipv4_text(octets) ==> {
            &&& lookup matches Ok(addresses)
            &&& addresses@.len() > 0
            &&& forall|i: int|
                0 <= i < addresses@.len() ==> #[trigger] addresses@[i] is V4
                    && addresses@[i]->octets@ == octets
        }
}

/// Resolving what a name was resolved to gives it back, with a resolver that
/// takes the text of an IPv4 address for that address.
pub proof fn lemma_resolving_again(lookup: Lookup, text: Seq<char>, again: Lookup)
    requires
        ipv4_resolution(lookup) == Ok::<Seq<char>, ErrorView>(text),
        keeps_ipv4_text(text, again),
    ensures
        ipv4_resolution(again) == Ok::<Seq<char>, ErrorView>(text),
{
    lemma_first_ipv4(lookup->Ok_0@);
}

/// A text or an error, by their views.
pub open spec fn text_result_view(result: Result<String, NodeError>) -> Result<
    Seq<char>,
    ErrorView,
> {
    match result {
        Ok(text) => Ok(text@),
        Err(error) => Err(error@),
    }
}

/// What to hand to the resolver for `domain`: its name, and port 0.
pub fn lookup_target(domain: &str) -> (target: String)
    ensures
        target@ == domain@ + ":0"@,
{
    let mut target = domain.to_string();
    target.append(":0");
    target
}

/// The text of the first IPv4 address among those that a lookup gave.
pub fn resolve_ipv4(lookup: Lookup) -> (result: Result<String, NodeError>)
    ensures
        text_result_view(result) == ipv4_resolution(lookup),
        match result {
            Ok(text) => lookup matches Ok(addresses) && exists|i: int|
                {
                    &&& 0 <= i < addresses@.len()
                    &&& #[trigger] addresses@[i] is V4
                    &&& text@ == ipv4_text(addresses@[i]->octets@)
                    &&& forall|j: int| 0 <= j < i ==> #[trigger] addresses@[j] is V6
                },
            Err(NodeError::NoIpv4) => lookup matches Ok(addresses) && forall|i: int|
                0 <= i < addresses@.len() ==> #[trigger] addresses@[i] is V6,
            Err(NodeError::Lookup { reason }) => lookup matches Err(said) && reason@ == said@,
            Err(_) => false,
        },
{
    let addresses = match lookup {
        Ok(addresses) => addresses,
        Err(reason) => return Err(NodeError::Lookup { reason }),
    };
    let mut i: usize = 0;
    assert(addresses@.skip(0) =~= addresses@);
    while i < addresses.len()
        invariant
            i <= addresses@.len(),
            forall|j: int| 0 <= j < i ==> #[trigger] addresses@[j] is V6,
            first_ipv4(addresses@) == first_ipv4(addresses@.skip(i as int)),
            lookup == Ok::<Vec<IpAddress>, String>(addresses),
        decreases addresses@.len() - i,
    {
        assert(addresses@.skip(i as int).drop_first() =~= addresses@.skip(i + 1));
        match &addresses[i] {
            IpAddress::V4 { octets } => return Ok(format_ipv4(octets)),
            IpAddress::V6 { .. } => {},
        }
        i += 1;
    }
    Err(NodeError::NoIpv4)
}

/// The text of the first IPv6 address among those that a lookup gave.
pub fn resolve_ipv6(lookup: Lookup) -> (result: Result<String, NodeError>)
    ensures
        text_result_view(result) == ipv6_resolution(lookup),
        match result {
            Ok(text) => lookup matches Ok(addresses) && exists|i: int|
                {
                    &&& 0 <= i < addresses@.len()
                    &&& #[trigger] addresses@[i] is V6
                    &&& text@ == ipv6_text(addresses@[i]->segments@)
                    &&& forall|j: int| 0 <= j < i ==> #[trigger] addresses@[j] is V4
                },
            Err(NodeError::NoIpv6) => lookup matches Ok(addresses) && forall|i: int|
                0 <= i < addresses@.len() ==> #[trigger] addresses@[i] is V4,
            Err(NodeError::Lookup { reason }) => lookup matches Err(said) && reason@ == said@,
            Err(_) => false,
        },
{
    let addresses = match lookup {
        Ok(addresses) => addresses,
        Err(reason) => return Err(NodeError::Lookup { reason }),
    };
    let mut i: usize = 0;
    assert(addresses@.skip(0) =~= addresses@);
    while i < addresses.len()
        invariant
            i <= addresses@.len(),
            forall|j: int| 0 <= j < i ==> #[trigger] addresses@[j] is V4,
            first_ipv6(addresses@) == first_ipv6(addresses@.skip(i as int)),
            lookup == Ok::<Vec<IpAddress>, String>(addresses),
        decreases addresses@.len() - i,
    {
        assert(addresses@.skip(i as int).drop_first() =~= addresses@.skip(i + 1));
        match &addresses[i] {
            IpAddress::V6 { segments } => return Ok(format_ipv6(segments)),
            IpAddress::V4 { .. } => {},
        }
        i += 1;
    }
    Err(NodeError::NoIpv6)
}

} // verus!
