//! Network addresses as plain numbers.

use vstd::prelude::*;

use crate::text::{self, push_decimal, push_hexadecimal};

verus! {

/// An IP address.
#[derive(Debug, Clone, Copy, PartialEq, Eq, Structural)]
pub enum IpAddr {
    /// An IPv4 address: its four octets, the first the most significant.
    V4(u32),
    /// An IPv6 address: its sixteen octets, the first the most significant.
    V6(u128),
}

/// An IP address and a port.
#[derive(Debug, Clone, Copy, PartialEq, Eq, Structural)]
pub struct SocketAddr {
    /// The address.
    pub ip: IpAddr,
    /// The port.
    pub port: u16,
}

/// The group of an IPv6 address whose last bit has the value `weight`.
pub open spec fn group_at(octets: u128, weight: u128) -> u16 {
    (octets / weight % 0x1_0000) as u16
}

/// The eight groups of an IPv6 address, the first the most significant.
pub open spec fn groups(octets: u128) -> Seq<u16> {
    seq![
        group_at(octets, 0x1_0000_0000_0000_0000_0000_0000_0000),
        group_at(octets, 0x1_0000_0000_0000_0000_0000_0000),
        group_at(octets, 0x1_0000_0000_0000_0000_0000),
        group_at(octets, 0x1_0000_0000_0000_0000),
        group_at(octets, 0x1_0000_0000_0000),
        group_at(octets, 0x1_0000_0000),
        group_at(octets, 0x1_0000),
        group_at(octets, 1),
    ]
}

/// An IPv4 address in text: its octets in decimal, with dots between them.
pub open spec fn ipv4_text(octets: u32) -> Seq<char> {
    text::decimal((octets / 0x100_0000) as nat) + "."@ + text::decimal(
        (octets / 0x1_0000 % 0x100) as nat,
    ) + "."@ + text::decimal((octets / 0x100 % 0x100) as nat) + "."@ + text::decimal(
        (octets % 0x100) as nat,
    )
}

/// Groups in hexadecimal, with colons between them.
pub open spec fn groups_text(groups: Seq<u16>) -> Seq<char>
    decreases groups.len(),
{
    if groups.len() == 0 {
        Seq::empty()
    } else if groups.len() == 1 {
        text::hexadecimal(groups[0] as nat)
    } else {
        groups_text(groups.drop_last()) + ":"@ + text::hexadecimal(groups.last() as nat)
    }
}

/// Whether the `len` groups from `start` on are all zero.
pub open spec fn is_zero_run(groups: Seq<u16>, start: int, len: int) -> bool {
    &&& 0 <= start
    &&& 0 <= len
    &&& start + len <= groups.len()
    &&& forall|i: int| start <= i < start + len ==> #[trigger] groups[i] == 0
}

/// Whether no run of zero groups is longer, and none of the same length starts earlier.
pub open spec fn is_longest_zero_run(groups: Seq<u16>, start: int, len: int) -> bool {
    &&& is_zero_run(groups, start, len)
    &&& forall|s: int, l: int| #[trigger]
        is_zero_run(groups, s, l) ==> l < len || (l == len && start <= s)
}

/// Start and length of the longest run of zero groups, the first of them where several are
/// the longest.
pub open spec fn longest_zero_run(groups: Seq<u16>) -> (int, int) {
    choose|run: (int, int)| #[trigger] is_longest_zero_run(groups, run.0, run.1)
}

/// Whether an IPv6 address stands for an IPv4 address (`::ffff:0:0/96`).
pub open spec fn is_ipv4_mapped(octets: u128) -> bool {
    octets / 0x1_0000_0000 == 0xffff
}

/// An IPv6 address in its canonical text (RFC 5952): groups in hexadecimal with colons
/// between them, the longest run of two or more zero groups as `::`, and an IPv4-mapped
/// address with its last part in the text of IPv4.
pub open spec fn ipv6_text(octets: u128) -> Seq<char> {
    if is_ipv4_mapped(octets) {
        "::ffff:"@ + ipv4_text((octets % 0x1_0000_0000) as u32)
    } else {
        let groups = groups(octets);
        let (start, len) = longest_zero_run(groups);
        if len > 1 {
            groups_text(groups.take(start)) + "::"@ + groups_text(groups.skip(start + len))
        } else {
            groups_text(groups)
        }
    }
}

/// An IP address in text.
pub open spec fn ip_text(ip: IpAddr) -> Seq<char> {
    match ip {
        IpAddr::V4(octets) => ipv4_text(octets),
        IpAddr::V6(octets) => ipv6_text(octets),
    }
}

/// A run that is the longest, and the first of its length, is the only one.
pub proof fn law_longest_zero_run_is_determined(groups: Seq<u16>, start: int, len: int)
    requires
        is_longest_zero_run(groups, start, len),
    ensures
        longest_zero_run(groups) == (start, len),
{
    let run: (int, int) = (start, len);
    assert(is_longest_zero_run(groups, run.0, run.1));
    let other: (int, int) = longest_zero_run(groups);
    assert(is_longest_zero_run(groups, other.0, other.1));
    assert(is_zero_run(groups, start, len));
    assert(is_zero_run(groups, other.0, other.1));
}

/// Start and length of the longest run of zero groups, the first of them where several are
/// the longest.
fn find_longest_zero_run(groups: &Vec<u16>) -> (run: (usize, usize))
    ensures
        (run.0 as int, run.1 as int) == longest_zero_run(groups@),
        is_zero_run(groups@, run.0 as int, run.1 as int),
{
    let mut start: usize = 0;
    let mut len: usize = 0;
    let mut current: usize = 0;
    let mut index: usize = 0;
    while index < groups.len()
        invariant
            index <= groups@.len(),
            current <= index,
            is_zero_run(groups@, index - current, current as int),
            current == index || groups@[index - current - 1] != 0,
            is_zero_run(groups@, start as int, len as int),
            start + len <= index,
            current <= len,
            forall|s: int, l: int| #[trigger]
                is_zero_run(groups@, s, l) && s + l <= index ==> l < len || (l == len && start
                    <= s),
        decreases groups@.len() - index,
    {
        let ghost old_start: int = start as int;
        let ghost old_len: int = len as int;
        if groups[index] == 0 {
            current = current + 1;
            if current > len {
                start = index + 1 - current;
                len = current;
            }
        } else {
            current = 0;
        }
        proof {
            assert forall|s: int, l: int| #[trigger]
                is_zero_run(groups@, s, l) && s + l <= index + 1 implies l < len || (l == len
                && start <= s) by {
                if s + l == index + 1 && l > 0 {
                    assert(groups@[s + l - 1] == 0);
                    if l > current {
                        assert(groups@[index - current] == 0);
                    }
                } else if l > 0 {
                    assert(l < old_len || (l == old_len && old_start <= s));
                }
            }
        }
        index = index + 1;
    }
    proof {
        assert(is_longest_zero_run(groups@, start as int, len as int));
        law_longest_zero_run_is_determined(groups@, start as int, len as int);
    }
    (start, len)
}

/// Appends the groups from `from` up to `to` in hexadecimal, with colons between them.
fn push_groups(out: &mut String, groups: &Vec<u16>, from: usize, to: usize)
    requires
        from <= to <= groups@.len(),
    ensures
        final(out)@ == old(out)@ + groups_text(groups@.subrange(from as int, to as int)),
{
    let mut index: usize = from;
    assert(out@ =~= old(out)@ + groups_text(groups@.subrange(from as int, from as int)));
    while index < to
        invariant
            from <= index <= to <= groups@.len(),
            out@ == old(out)@ + groups_text(groups@.subrange(from as int, index as int)),
        decreases to - index,
    {
        let ghost written: Seq<u16> = groups@.subrange(from as int, index as int);
        let ghost longer: Seq<u16> = groups@.subrange(from as int, index + 1);
        assert(longer.drop_last() =~= written);
        if index > from {
            out.append(":");
        }
        push_hexadecimal(out, groups[index]);
        assert(out@ =~= old(out)@ + groups_text(longer));
        index = index + 1;
    }
}

/// Appends an IPv4 address in text.
fn push_ipv4(out: &mut String, octets: u32)
    ensures
        final(out)@ == old(out)@ + ipv4_text(octets),
{
    push_decimal(out, (octets / 0x100_0000) as u64);
    out.append(".");
    push_decimal(out, (octets / 0x1_0000 % 0x100) as u64);
    out.append(".");
    push_decimal(out, (octets / 0x100 % 0x100) as u64);
    out.append(".");
    push_decimal(out, (octets % 0x100) as u64);
    assert(final(out)@ =~= old(out)@ + ipv4_text(octets));
}

/// The eight groups of an IPv6 address, the first the most significant.
fn split_groups(octets: u128) -> (split: Vec<u16>)
    ensures
        split@ == groups(octets),
{
    vec![
        (octets / 0x1_0000_0000_0000_0000_0000_0000_0000 % 0x1_0000) as u16,
        (octets / 0x1_0000_0000_0000_0000_0000_0000 % 0x1_0000) as u16,
        (octets / 0x1_0000_0000_0000_0000_0000 % 0x1_0000) as u16,
        (octets / 0x1_0000_0000_0000_0000 % 0x1_0000) as u16,
        (octets / 0x1_0000_0000_0000 % 0x1_0000) as u16,
        (octets / 0x1_0000_0000 % 0x1_0000) as u16,
        (octets / 0x1_0000 % 0x1_0000) as u16,
        (octets % 0x1_0000) as u16,
    ]
}

impl IpAddr {
    /// The IPv4 address `a.b.c.d`.
    pub fn v4(a: u8, b: u8, c: u8, d: u8) -> (ip: IpAddr)
        ensures
            ip == IpAddr::V4((a * 0x100_0000 + b * 0x1_0000 + c * 0x100 + d) as u32),
    {
        IpAddr::V4(a as u32 * 0x100_0000 + b as u32 * 0x1_0000 + c as u32 * 0x100 + d as u32)
    }

    /// The address in text.
    pub fn to_text(&self) -> (text: String)
        ensures
            text@ == ip_text(*self),
    {
        let mut text: String = String::new();
        match self {
            IpAddr::V4(octets) => {
                push_ipv4(&mut text, *octets);
            },
            IpAddr::V6(octets) => {
                if *octets / 0x1_0000_0000 == 0xffff {
                    text.append("::ffff:");
                    push_ipv4(&mut text, (*octets % 0x1_0000_0000) as u32);
                } else {
                    let split: Vec<u16> = split_groups(*octets);
                    let (start, len): (usize, usize) = find_longest_zero_run(&split);
                    if len > 1 {
                        push_groups(&mut text, &split, 0, start);
                        text.append("::");
                        push_groups(&mut text, &split, start + len, split.len());
                    } else {
                        push_groups(&mut text, &split, 0, split.len());
                    }
                    assert(split@.subrange(0, 8) =~= split@);
                    assert(split@.subrange(0, start as int) =~= split@.take(start as int));
                    assert(split@.subrange(start + len, 8) =~= split@.skip(start + len));
                }
            },
        }
        assert(text@ =~= ip_text(*self));
        text
    }
}

/// The numbers of an IPv4 address are those that it was put together from.
proof fn lemma_octets_of_sum(a: u8, b: u8, c: u8, d: u8)
    ensures
        ({
            let octets = (a * 0x100_0000 + b * 0x1_0000 + c * 0x100 + d) as u32;
            &&& octets / 0x100_0000 == a
            &&& octets / 0x1_0000 % 0x100 == b
            &&& octets / 0x100 % 0x100 == c
            &&& octets % 0x100 == d
        }),
{
    let octets: int = a * 0x100_0000 + b * 0x1_0000 + c * 0x100 + d;
    assert(0 <= octets <= 0xffff_ffff);
    assert(octets / 0x100_0000 == a);
    assert(octets / 0x1_0000 == a * 0x100 + b);
    assert(octets / 0x100 == a * 0x1_0000 + b * 0x100 + c);
}

/// An IPv4 address is written as its four numbers in decimal, with dots between them.
pub proof fn law_ipv4_address_is_dotted(a: u8, b: u8, c: u8, d: u8, ip: IpAddr, text: String)
    requires
        call_ensures(IpAddr::v4, (a, b, c, d), ip),
        call_ensures(IpAddr::to_text, (&ip,), text),
    ensures
        text@ == text::decimal(a as nat) + "."@ + text::decimal(b as nat) + "."@ + text::decimal(
            c as nat,
        ) + "."@ + text::decimal(d as nat),
{
    lemma_octets_of_sum(a, b, c, d);
}

/// Groups on both sides of a colon are written as each side is, with a colon between them; one
/// group is written in hexadecimal.
pub proof fn law_groups_are_joined_by_colons(first: Seq<u16>, second: Seq<u16>, group: u16)
    requires
        first.len() > 0,
        second.len() > 0,
    ensures
        groups_text(first + second) == groups_text(first) + ":"@ + groups_text(second),
        groups_text(seq![group]) == text::hexadecimal(group as nat),
        groups_text(Seq::<u16>::empty()).len() == 0,
    decreases second.len(),
{
    let whole = first + second;
    assert(whole.drop_last() =~= first + second.drop_last());
    if second.len() > 1 {
        law_groups_are_joined_by_colons(first, second.drop_last(), group);
        assert(groups_text(whole) =~= groups_text(first) + ":"@ + groups_text(second));
    } else {
        assert(second.drop_last() =~= Seq::empty());
        assert(whole.drop_last() =~= first);
    }
}

/// The number of zero groups at the end.
spec fn trailing_zeros(groups: Seq<u16>) -> int
    decreases groups.len(),
{
    if groups.len() == 0 || groups.last() != 0 {
        0
    } else {
        trailing_zeros(groups.drop_last()) + 1
    }
}

/// The zero groups at the end are a run, and no longer run ends there.
proof fn lemma_trailing_zeros(groups: Seq<u16>)
    ensures
        0 <= trailing_zeros(groups) <= groups.len(),
        is_zero_run(groups, groups.len() - trailing_zeros(groups), trailing_zeros(groups)),
        trailing_zeros(groups) < groups.len() ==> groups[groups.len() - trailing_zeros(groups) - 1]
            != 0,
    decreases groups.len(),
{
    if groups.len() > 0 && groups.last() == 0 {
        lemma_trailing_zeros(groups.drop_last());
        let shorter = groups.drop_last();
        let count = trailing_zeros(shorter);
        assert forall|i: int| groups.len() - count - 1 <= i < groups.len() implies
            #[trigger] groups[i] == 0 by {
            if i < shorter.len() {
                assert(shorter[i] == 0);
            }
        }
        if count < shorter.len() {
            assert(shorter[shorter.len() - count - 1] != 0);
        }
    }
}

/// There is a longest run of zero groups that is the first of its length.
proof fn lemma_longest_zero_run_exists(groups: Seq<u16>) -> (run: (int, int))
    ensures
        is_longest_zero_run(groups, run.0, run.1),
    decreases groups.len(),
{
    if groups.len() == 0 {
        assert(is_zero_run(groups, 0, 0));
        (0, 0)
    } else {
        let shorter = groups.drop_last();
        let (start, len) = lemma_longest_zero_run_exists(shorter);
        let count = trailing_zeros(groups);
        lemma_trailing_zeros(groups);
        let run: (int, int) = if count > len {
            (groups.len() - count, count)
        } else {
            (start, len)
        };
        assert(is_zero_run(shorter, start, len));
        assert(is_zero_run(groups, start, len)) by {
            assert forall|i: int| start <= i < start + len implies #[trigger] groups[i] == 0 by {
                assert(shorter[i] == 0);
            }
        }
        assert(is_zero_run(groups, run.0, run.1));
        assert forall|s: int, l: int| #[trigger] is_zero_run(groups, s, l) implies l < run.1 || (l
            == run.1 && run.0 <= s) by {
            if s + l <= shorter.len() {
                assert(is_zero_run(shorter, s, l)) by {
                    assert forall|i: int| s <= i < s + l implies #[trigger] shorter[i] == 0 by {
                        assert(groups[i] == 0);
                    }
                }
            } else {
                if l > count {
                    assert(groups[groups.len() - count - 1] == 0);
                }
                if l == 0 && run.1 == 0 {
                    assert(is_zero_run(shorter, 0, 0));
                }
            }
        }
        run
    }
}

/// The groups of an IPv6 address are those that it was put together from.
proof fn lemma_groups_of_sum(parts: Seq<u16>, octets: u128)
    requires
        parts.len() == 8,
        octets == parts[0] * 0x1_0000_0000_0000_0000_0000_0000_0000 + parts[1]
            * 0x1_0000_0000_0000_0000_0000_0000 + parts[2] * 0x1_0000_0000_0000_0000_0000 + parts[3]
            * 0x1_0000_0000_0000_0000 + parts[4] * 0x1_0000_0000_0000 + parts[5] * 0x1_0000_0000
            + parts[6] * 0x1_0000 + parts[7],
    ensures
        groups(octets) == parts,
        octets / 0x1_0000_0000 == parts[0] * 0x1_0000_0000_0000_0000_0000 + parts[1]
            * 0x1_0000_0000_0000_0000 + parts[2] * 0x1_0000_0000_0000 + parts[3] * 0x1_0000_0000
            + parts[4] * 0x1_0000 + parts[5],
        octets % 0x1_0000_0000 == parts[6] * 0x1_0000 + parts[7],
{
    let p0: int = parts[0] as int;
    let p1: int = p0 * 0x1_0000 + parts[1];
    let p2: int = p1 * 0x1_0000 + parts[2];
    let p3: int = p2 * 0x1_0000 + parts[3];
    let p4: int = p3 * 0x1_0000 + parts[4];
    let p5: int = p4 * 0x1_0000 + parts[5];
    let p6: int = p5 * 0x1_0000 + parts[6];
    assert(octets == p6 * 0x1_0000 + parts[7]);
    assert(octets / 0x1_0000 == p6);
    assert(octets / 0x1_0000_0000 == p5);
    assert(octets / 0x1_0000_0000_0000 == p4);
    assert(octets / 0x1_0000_0000_0000_0000 == p3);
    assert(octets / 0x1_0000_0000_0000_0000_0000 == p2);
    assert(octets / 0x1_0000_0000_0000_0000_0000_0000 == p1);
    assert(octets / 0x1_0000_0000_0000_0000_0000_0000_0000 == p0);
    assert(groups(octets) =~= parts);
}

/// Groups that put together give 0xffff are zero but for the last.
proof fn lemma_mapped_groups(parts: Seq<u16>)
    requires
        parts.len() == 8,
    ensures
        parts[0] * 0x1_0000_0000_0000_0000_0000 + parts[1] * 0x1_0000_0000_0000_0000 + parts[2]
            * 0x1_0000_0000_0000 + parts[3] * 0x1_0000_0000 + parts[4] * 0x1_0000 + parts[5]
            == 0xffff <==> parts[0] == 0 && parts[1] == 0 && parts[2] == 0 && parts[3] == 0
            && parts[4] == 0 && parts[5] == 0xffff,
{
}

/// The numbers of the IPv4 address that two groups hold.
proof fn lemma_ipv4_of_groups(high: u16, low: u16)
    ensures
        ipv4_text((high * 0x1_0000 + low) as u32) == text::decimal((high / 0x100) as nat) + "."@
            + text::decimal((high % 0x100) as nat) + "."@ + text::decimal((low / 0x100) as nat)
            + "."@ + text::decimal((low % 0x100) as nat),
{
    lemma_octets_of_sum(
        (high / 0x100) as u8,
        (high % 0x100) as u8,
        (low / 0x100) as u8,
        (low % 0x100) as u8,
    );
    assert(high == (high / 0x100) * 0x100 + high % 0x100);
    assert(low == (low / 0x100) * 0x100 + low % 0x100);
}

/// The longest run of zero groups has two or more exactly where two stand side by side.
proof fn lemma_longest_zero_run_is_found(parts: Seq<u16>)
    requires
        parts.len() == 8,
    ensures
        ({
            let (start, len) = longest_zero_run(parts);
            &&& is_zero_run(parts, start, len)
            &&& forall|s: int, l: int| #[trigger]
                is_zero_run(parts, s, l) ==> l < len || (l == len && start <= s)
            &&& len >= 2 <==> exists|i: int|
                0 <= i < 7 && #[trigger] parts[i] == 0 && parts[i + 1] == 0
        }),
{
    let (start, len) = lemma_longest_zero_run_exists(parts);
    law_longest_zero_run_is_determined(parts, start, len);
    if exists|i: int| 0 <= i < 7 && #[trigger] parts[i] == 0 && parts[i + 1] == 0 {
        let i = choose|i: int| 0 <= i < 7 && #[trigger] parts[i] == 0 && parts[i + 1] == 0;
        assert(is_zero_run(parts, i, 2));
    }
    if len >= 2 {
        assert(parts[start] == 0 && parts[start + 1] == 0);
    }
}

/// An IPv6 address that stands for an IPv4 address is written with the numbers of that address;
/// any other is written as its groups in hexadecimal with colons between them, in which the
/// longest run of two or more zero groups, the first of its length, is written as `::`.
pub proof fn law_ipv6_address_is_canonical(parts: Seq<u16>, octets: u128, text: String)
    requires
        parts.len() == 8,
        octets == parts[0] * 0x1_0000_0000_0000_0000_0000_0000_0000 + parts[1]
            * 0x1_0000_0000_0000_0000_0000_0000 + parts[2] * 0x1_0000_0000_0000_0000_0000 + parts[3]
            * 0x1_0000_0000_0000_0000 + parts[4] * 0x1_0000_0000_0000 + parts[5] * 0x1_0000_0000
            + parts[6] * 0x1_0000 + parts[7],
        call_ensures(IpAddr::to_text, (&IpAddr::V6(octets),), text),
    ensures
        ({
            let mapped = parts[0] == 0 && parts[1] == 0 && parts[2] == 0 && parts[3] == 0
                && parts[4] == 0 && parts[5] == 0xffff;
            let compressed = exists|i: int|
                0 <= i < 7 && #[trigger] parts[i] == 0 && parts[i + 1] == 0;
            if mapped {
                text@ == "::ffff:"@ + text::decimal((parts[6] / 0x100) as nat) + "."@
                    + text::decimal((parts[6] % 0x100) as nat) + "."@ + text::decimal(
                    (parts[7] / 0x100) as nat,
                ) + "."@ + text::decimal((parts[7] % 0x100) as nat)
            } else if compressed {
                exists|start: int, len: int|
                    {
                        &&& #[trigger] is_zero_run(parts, start, len)
                        &&& len >= 2
                        &&& text@ == groups_text(parts.take(start)) + "::"@ + groups_text(
                            parts.skip(start + len),
                        )
                        &&& forall|s: int, l: int| #[trigger]
                            is_zero_run(parts, s, l) ==> l < len || (l == len && start <= s)
                    }
            } else {
                text@ == groups_text(parts)
            }
        }),
{
    lemma_groups_of_sum(parts, octets);
    lemma_mapped_groups(parts);
    if is_ipv4_mapped(octets) {
        lemma_ipv4_of_groups(parts[6], parts[7]);
        assert(text@ =~= "::ffff:"@ + text::decimal((parts[6] / 0x100) as nat) + "."@
            + text::decimal((parts[6] % 0x100) as nat) + "."@ + text::decimal(
            (parts[7] / 0x100) as nat,
        ) + "."@ + text::decimal((parts[7] % 0x100) as nat));
    } else {
        lemma_longest_zero_run_is_found(parts);
        let (start, len) = longest_zero_run(parts);
        assert(is_zero_run(parts, start, len));
    }
}

} // verus!
