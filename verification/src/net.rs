//! Client addresses: from the raw bytes of a dnstap record to the text that
//! names the client in topics and in the dedup set.
//!
//! Four bytes are an IPv4 address, sixteen an IPv6 address, and nothing else
//! is an address. The text is the usual one: dotted decimal for IPv4; for
//! IPv6 the eight groups in lower-case hexadecimal without leading zeros, the
//! first of the longest runs of two or more zero groups written as `::`, and
//! an IPv4-mapped address with its last four bytes in dotted decimal.

use vstd::prelude::*;
use vstd::string::*;

verus! {

/// The address of a client, as its bytes in network order.
#[derive(Clone, Copy, Debug, PartialEq, Eq)]
pub enum IpAddr {
    V4([u8; 4]),
    V6([u8; 16]),
}

/// Why some bytes are no address.
#[derive(Clone, Copy, Debug, PartialEq, Eq, Structural)]
pub enum AddressError {
    /// The bytes are neither four nor sixteen.
    InvalidAddressLength,
}

impl View for IpAddr {
    type V = Seq<u8>;

    /// The bytes of the address, in network order.
    open spec fn view(&self) -> Seq<u8> {
        match self {
            IpAddr::V4(octets) => octets@,
            IpAddr::V6(octets) => octets@,
        }
    }
}

/// The character for one digit, lower case from ten on.
pub open spec fn digit_char(digit: int) -> char {
    if digit < 10 {
        ((48 + digit) as u8) as char
    } else {
        ((87 + digit) as u8) as char
    }
}

/// `n` in decimal, without leading zeros.
pub open spec fn decimal(n: nat) -> Seq<char>
    decreases n,
{
    if n < 10 {
        seq![digit_char(n as int)]
    } else {
        decimal(n / 10).push(digit_char((n % 10) as int))
    }
}

/// `n` in lower-case hexadecimal, without leading zeros.
pub open spec fn hexadecimal(n: nat) -> Seq<char>
    decreases n,
{
    if n < 16 {
        seq![digit_char(n as int)]
    } else {
        hexadecimal(n / 16).push(digit_char((n % 16) as int))
    }
}

/// Four bytes in dotted decimal.
pub open spec fn ipv4_text(octets: Seq<u8>) -> Seq<char> {
    decimal(octets[0] as nat) + seq!['.'] + decimal(octets[1] as nat) + seq!['.'] + decimal(
        octets[2] as nat,
    ) + seq!['.'] + decimal(octets[3] as nat)
}

/// The eight 16-bit groups of sixteen bytes.
pub open spec fn groups_of(octets: Seq<u8>) -> Seq<u16> {
    Seq::new(8, |i: int| (octets[2 * i] as int * 256 + octets[2 * i + 1] as int) as u16)
}

/// How many zero groups follow each other from position `at` on.
pub open spec fn zero_run(groups: Seq<u16>, at: int) -> nat
    decreases groups.len() - at,
{
    if 0 <= at < groups.len() && groups[at] == 0 {
        1 + zero_run(groups, at + 1)
    } else {
        0
    }
}

/// The length of the longest run of zero groups that starts at `from` or later.
pub open spec fn longest_run(groups: Seq<u16>, from: int) -> nat
    decreases groups.len() - from,
{
    if 0 <= from < groups.len() {
        let here = zero_run(groups, from);
        let later = longest_run(groups, from + 1);
        if here >= later {
            here
        } else {
            later
        }
    } else {
        0
    }
}

/// The first position at `from` or later where a run of that greatest length
/// starts; the number of groups where there is no group left.
pub open spec fn longest_run_start(groups: Seq<u16>, from: int) -> int
    decreases groups.len() - from,
{
    if 0 <= from < groups.len() {
        if zero_run(groups, from) >= longest_run(groups, from + 1) {
            from
        } else {
            longest_run_start(groups, from + 1)
        }
    } else {
        groups.len() as int
    }
}

/// Groups in hexadecimal with a colon between neighbours.
pub open spec fn groups_text(groups: Seq<u16>) -> Seq<char>
    decreases groups.len(),
{
    if groups.len() == 0 {
        Seq::empty()
    } else if groups.len() == 1 {
        hexadecimal(groups[0] as nat)
    } else {
        groups_text(groups.drop_last()) + seq![':'] + hexadecimal(groups.last() as nat)
    }
}

/// True of the bytes of an IPv4-mapped IPv6 address: ten zero bytes, then two
/// bytes of ones.
pub open spec fn is_ipv4_mapped(octets: Seq<u8>) -> bool {
    &&& forall|i: int| 0 <= i < 10 ==> octets[i] == 0
    &&& octets[10] == 0xff
    &&& octets[11] == 0xff
}

/// Sixteen bytes as the text of an IPv6 address.
pub open spec fn ipv6_text(octets: Seq<u8>) -> Seq<char> {
    let groups = groups_of(octets);
    let run = longest_run(groups, 0);
    let start = longest_run_start(groups, 0);
    if is_ipv4_mapped(octets) {
        seq![':', ':', 'f', 'f', 'f', 'f', ':'] + ipv4_text(octets.subrange(12, 16))
    } else if run >= 2 {
        groups_text(groups.subrange(0, start)) + seq![':', ':'] + groups_text(
            groups.subrange(start + run, 8),
        )
    } else {
        groups_text(groups)
    }
}

/// The text of the address with the given bytes.
pub open spec fn address_text(octets: Seq<u8>) -> Seq<char> {
    if octets.len() == 4 {
        ipv4_text(octets)
    } else {
        ipv6_text(octets)
    }
}

/// Reads an address from its bytes in network order.
pub fn parse_octets(value: &[u8]) -> (parsed: Result<IpAddr, AddressError>)
    ensures
        parsed is Ok <==> (value@.len() == 4 || value@.len() == 16),
        parsed matches Ok(address) ==> address@ == value@ && (address is V4 <==> value@.len() == 4),
        parsed matches Err(error) ==> error == AddressError::InvalidAddressLength,
{
    if value.len() == 4 {
        let octets: [u8; 4] = [value[0], value[1], value[2], value[3]];
        assert(octets@ =~= value@);
        Ok(IpAddr::V4(octets))
    } else if value.len() == 16 {
        let octets: [u8; 16] = [
            value[0],
            value[1],
            value[2],
            value[3],
            value[4],
            value[5],
            value[6],
            value[7],
            value[8],
            value[9],
            value[10],
            value[11],
            value[12],
            value[13],
            value[14],
            value[15],
        ];
        assert(octets@ =~= value@);
        Ok(IpAddr::V6(octets))
    } else {
        Err(AddressError::InvalidAddressLength)
    }
}

fn digit_str(digit: u8) -> (text: &'static str)
    requires
        digit < 16,
    ensures
        text@ == seq![digit_char(digit as int)],
{
    proof {
        reveal_strlit("0");
        reveal_strlit("1");
        reveal_strlit("2");
        reveal_strlit("3");
        reveal_strlit("4");
        reveal_strlit("5");
        reveal_strlit("6");
        reveal_strlit("7");
        reveal_strlit("8");
        reveal_strlit("9");
        reveal_strlit("a");
        reveal_strlit("b");
        reveal_strlit("c");
        reveal_strlit("d");
        reveal_strlit("e");
        reveal_strlit("f");
    }
    let text = match digit {
        0 => "0",
        1 => "1",
        2 => "2",
        3 => "3",
        4 => "4",
        5 => "5",
        6 => "6",
        7 => "7",
        8 => "8",
        9 => "9",
        10 => "a",
        11 => "b",
        12 => "c",
        13 => "d",
        14 => "e",
        _ => "f",
    };
    assert(text@ =~= seq![digit_char(digit as int)]);
    text
}

fn append_decimal(text: &mut String, n: u8)
    ensures
        final(text)@ == old(text)@ + decimal(n as nat),
    decreases n,
{
    if n >= 10 {
        append_decimal(text, n / 10);
    }
    text.append(digit_str(n % 10));
    assert(text@ =~= old(text)@ + decimal(n as nat));
}

fn append_hexadecimal(text: &mut String, n: u16)
    ensures
        final(text)@ == old(text)@ + hexadecimal(n as nat),
    decreases n,
{
    if n >= 16 {
        append_hexadecimal(text, n / 16);
    }
    text.append(digit_str((n % 16) as u8));
    assert(text@ =~= old(text)@ + hexadecimal(n as nat));
}

fn append_ipv4(text: &mut String, a: u8, b: u8, c: u8, d: u8)
    ensures
        final(text)@ == old(text)@ + ipv4_text(seq![a, b, c, d]),
{
    proof {
        reveal_strlit(".");
    }
    append_decimal(text, a);
    text.append(".");
    append_decimal(text, b);
    text.append(".");
    append_decimal(text, c);
    text.append(".");
    append_decimal(text, d);
    assert(text@ =~= old(text)@ + ipv4_text(seq![a, b, c, d]));
}

fn append_groups(text: &mut String, groups: &[u16; 8], from: usize, to: usize)
    requires
        from <= to <= 8,
    ensures
        final(text)@ == old(text)@ + groups_text(groups@.subrange(from as int, to as int)),
{
    let mut at = from;
    while at < to
        invariant
            from <= at <= to <= 8,
            text@ == old(text)@ + groups_text(groups@.subrange(from as int, at as int)),
        decreases to - at,
    {
        let ghost so_far = text@;
        if at > from {
            text.append(":");
        }
        append_hexadecimal(text, groups[at]);
        proof {
            let before = groups@.subrange(from as int, at as int);
            let after = groups@.subrange(from as int, at + 1);
            let last = hexadecimal(groups@[at as int] as nat);
            assert(after.drop_last() =~= before);
            assert(after.last() == groups@[at as int]);
            if at > from {
                reveal_strlit(":");
                assert(":"@ =~= seq![':']);
                assert(groups_text(after) == groups_text(before) + seq![':'] + last);
                assert(text@ == so_far + seq![':'] + last);
            } else {
                assert(groups_text(after) == last);
                assert(groups_text(before) =~= Seq::<char>::empty());
            }
            assert(text@ =~= old(text)@ + groups_text(after));
        }
        at += 1;
    }
}

fn group_at(octets: &[u8; 16], at: usize) -> (group: u16)
    requires
        at < 8,
    ensures
        group == groups_of(octets@)[at as int],
{
    let high = octets[2 * at] as u16;
    let low = octets[2 * at + 1] as u16;
    high * 256 + low
}

fn groups(octets: &[u8; 16]) -> (groups: [u16; 8])
    ensures
        groups@ == groups_of(octets@),
{
    let groups = [
        group_at(octets, 0),
        group_at(octets, 1),
        group_at(octets, 2),
        group_at(octets, 3),
        group_at(octets, 4),
        group_at(octets, 5),
        group_at(octets, 6),
        group_at(octets, 7),
    ];
    assert(groups@ =~= groups_of(octets@));
    groups
}

fn ipv4_mapped(octets: &[u8; 16]) -> (mapped: bool)
    ensures
        mapped == is_ipv4_mapped(octets@),
{
    let mut at: usize = 0;
    while at < 10
        invariant
            at <= 10,
            forall|i: int| 0 <= i < at ==> octets@[i] == 0,
        decreases 10 - at,
    {
        if octets[at] != 0 {
            return false;
        }
        at += 1;
    }
    octets[10] == 0xff && octets[11] == 0xff
}

/// The longest run of zero groups: its length and where the first run of that
/// length starts.
fn longest_zero_run(groups: &[u16; 8]) -> (found: (usize, usize))
    ensures
        found.0 == longest_run(groups@, 0),
        found.1 == longest_run_start(groups@, 0),
        found.0 >= 1 ==> found.1 + found.0 <= 8,
{
    let mut at: usize = 8;
    let mut here: usize = 0;
    let mut longest: usize = 0;
    let mut start: usize = 8;
    while at > 0
        invariant
            at <= 8,
            here == zero_run(groups@, at as int),
            longest == longest_run(groups@, at as int),
            start == longest_run_start(groups@, at as int),
            here <= 8 - at,
            longest <= 8 - at,
            at <= start <= 8,
            longest >= 1 ==> start + longest <= 8,
        decreases at,
    {
        at -= 1;
        if groups[at] == 0 {
            here += 1;
        } else {
            here = 0;
        }
        if here >= longest {
            longest = here;
            start = at;
        }
    }
    (longest, start)
}

impl IpAddr {
    /// The text of the address.
    pub open spec fn text(&self) -> Seq<char> {
        address_text(self@)
    }

    /// The bytes of the address, in network order.
    pub fn octets(&self) -> (octets: Vec<u8>)
        ensures
            octets@ == self@,
    {
        let mut octets: Vec<u8> = Vec::new();
        match self {
            IpAddr::V4(bytes) => {
                let mut at: usize = 0;
                while at < 4
                    invariant
                        at <= 4,
                        octets@ == bytes@.subrange(0, at as int),
                    decreases 4 - at,
                {
                    octets.push(bytes[at]);
                    assert(octets@ =~= bytes@.subrange(0, at + 1));
                    at += 1;
                }
                assert(octets@ =~= bytes@);
            },
            IpAddr::V6(bytes) => {
                let mut at: usize = 0;
                while at < 16
                    invariant
                        at <= 16,
                        octets@ == bytes@.subrange(0, at as int),
                    decreases 16 - at,
                {
                    octets.push(bytes[at]);
                    assert(octets@ =~= bytes@.subrange(0, at + 1));
                    at += 1;
                }
                assert(octets@ =~= bytes@);
            },
        }
        octets
    }

    /// Writes the address as text.
    pub fn to_string(&self) -> (text: String)
        ensures
            text@ == self.text(),
    {
        let mut text = String::new();
        match self {
            IpAddr::V4(octets) => {
                append_ipv4(&mut text, octets[0], octets[1], octets[2], octets[3]);
                assert(seq![octets[0], octets[1], octets[2], octets[3]] =~= octets@);
                assert(text@ =~= ipv4_text(octets@));
            },
            IpAddr::V6(octets) => {
                if ipv4_mapped(octets) {
                    proof {
                        reveal_strlit("::ffff:");
                    }
                    text.append("::ffff:");
                    append_ipv4(&mut text, octets[12], octets[13], octets[14], octets[15]);
                    assert(seq![octets[12], octets[13], octets[14], octets[15]]
                        =~= octets@.subrange(12, 16));
                    assert("::ffff:"@ =~= seq![':', ':', 'f', 'f', 'f', 'f', ':']);
                    assert(text@ =~= ipv6_text(octets@));
                } else {
                    let groups = groups(octets);
                    let (run, start) = longest_zero_run(&groups);
                    if run >= 2 {
                        proof {
                            reveal_strlit("::");
                        }
                        append_groups(&mut text, &groups, 0, start);
                        text.append("::");
                        append_groups(&mut text, &groups, start + run, 8);
                        assert("::"@ =~= seq![':', ':']);
                        assert(text@ =~= ipv6_text(octets@));
                    } else {
                        append_groups(&mut text, &groups, 0, 8);
                        assert(groups@.subrange(0, 8) =~= groups@);
                        assert(text@ =~= ipv6_text(octets@));
                    }
                }
            },
        }
        text
    }
}

/// A run of zero groups ends with the groups at the latest.
pub proof fn lemma_zero_run_fits(groups: Seq<u16>, at: int)
    requires
        0 <= at <= groups.len(),
    ensures
        at + zero_run(groups, at) <= groups.len(),
        forall|i: int| at <= i < at + zero_run(groups, at) ==> groups[i] == 0,
        at + zero_run(groups, at) < groups.len() ==> groups[at + zero_run(groups, at)] != 0,
    decreases groups.len() - at,
{
    if at < groups.len() && groups[at] == 0 {
        lemma_zero_run_fits(groups, at + 1);
    }
}

/// What is written as `::` is the first of the longest runs of zero groups:
/// no run from `from` on is longer than `longest_run`, a run of that length
/// starts at `longest_run_start`, and every run that starts before it is
/// shorter.
pub proof fn lemma_longest_run_is_first_and_longest(groups: Seq<u16>, from: int, at: int)
    requires
        0 <= from <= at < groups.len(),
    ensures
        zero_run(groups, at) <= longest_run(groups, from),
        from <= longest_run_start(groups, from) < groups.len(),
        zero_run(groups, longest_run_start(groups, from)) == longest_run(groups, from),
        at < longest_run_start(groups, from) ==> zero_run(groups, at) < longest_run(groups, from),
    decreases groups.len() - from,
{
    if from + 1 < groups.len() {
        if at > from {
            lemma_longest_run_is_first_and_longest(groups, from + 1, at);
        } else {
            lemma_longest_run_is_first_and_longest(groups, from + 1, from + 1);
        }
    }
}

} // verus!
