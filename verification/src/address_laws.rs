//! The text of an address names one address only: where two addresses are
//! written the same, they are the same. The dedup set keeps clients by their
//! text, so this is what makes a client in the set the client on the wire.

use crate::net::{
    address_text, decimal, digit_char, groups_of, groups_text, hexadecimal, ipv4_text, ipv6_text,
    is_ipv4_mapped, lemma_longest_run_is_first_and_longest, lemma_zero_run_fits, longest_run,
    longest_run_start, zero_run,
};
use vstd::prelude::*;

verus! {

/// True of the characters that numbers are written with.
pub open spec fn is_digit(c: char) -> bool {
    ('0' <= c && c <= '9') || ('a' <= c && c <= 'f')
}

/// True of a text that is made of digits and has at least one.
pub open spec fn is_number(text: Seq<char>) -> bool {
    &&& text.len() >= 1
    &&& forall|i: int| 0 <= i < text.len() ==> is_digit(#[trigger] text[i])
}

/// Each of the sixteen digits has a character of its own, and none of them is
/// a dot or a colon.
pub proof fn lemma_digit_chars(a: int, b: int)
    requires
        0 <= a < 16,
        0 <= b < 16,
    ensures
        is_digit(digit_char(a)),
        digit_char(a) != '.',
        digit_char(a) != ':',
        digit_char(a) == digit_char(b) ==> a == b,
{
}

/// A number in decimal is made of digits.
pub proof fn lemma_decimal_is_number(n: nat)
    ensures
        is_number(decimal(n)),
    decreases n,
{
    if n < 10 {
        lemma_digit_chars(n as int, 0);
    } else {
        lemma_decimal_is_number(n / 10);
        lemma_digit_chars((n % 10) as int, 0);
    }
}

/// A number in hexadecimal is made of digits.
pub proof fn lemma_hexadecimal_is_number(n: nat)
    ensures
        is_number(hexadecimal(n)),
    decreases n,
{
    if n < 16 {
        lemma_digit_chars(n as int, 0);
    } else {
        lemma_hexadecimal_is_number(n / 16);
        lemma_digit_chars((n % 16) as int, 0);
    }
}

/// Two numbers with the same decimal text are the same number.
pub proof fn lemma_decimal_names_one_number(n: nat, m: nat)
    requires
        decimal(n) == decimal(m),
    ensures
        n == m,
    decreases n,
{
    lemma_decimal_is_number(n / 10);
    lemma_decimal_is_number(m / 10);
    if n < 10 && m < 10 {
        assert(decimal(n)[0] == digit_char(n as int));
        assert(decimal(m)[0] == digit_char(m as int));
        lemma_digit_chars(n as int, m as int);
    } else if n >= 10 && m >= 10 {
        let front_n = decimal(n / 10);
        let front_m = decimal(m / 10);
        let last_n = digit_char((n % 10) as int);
        let last_m = digit_char((m % 10) as int);
        assert(front_n.push(last_n).drop_last() =~= front_n);
        assert(front_m.push(last_m).drop_last() =~= front_m);
        assert(front_n.push(last_n).last() == last_n);
        assert(front_m.push(last_m).last() == last_m);
        lemma_decimal_names_one_number(n / 10, m / 10);
        lemma_digit_chars((n % 10) as int, (m % 10) as int);
    } else if n < 10 {
        assert(decimal(n).len() == 1);
        assert(decimal(m).len() == decimal(m / 10).len() + 1);
    } else {
        assert(decimal(m).len() == 1);
        assert(decimal(n).len() == decimal(n / 10).len() + 1);
    }
}

/// Two numbers with the same hexadecimal text are the same number.
pub proof fn lemma_hexadecimal_names_one_number(n: nat, m: nat)
    requires
        hexadecimal(n) == hexadecimal(m),
    ensures
        n == m,
    decreases n,
{
    lemma_hexadecimal_is_number(n / 16);
    lemma_hexadecimal_is_number(m / 16);
    if n < 16 && m < 16 {
        assert(hexadecimal(n)[0] == digit_char(n as int));
        assert(hexadecimal(m)[0] == digit_char(m as int));
        lemma_digit_chars(n as int, m as int);
    } else if n >= 16 && m >= 16 {
        let front_n = hexadecimal(n / 16);
        let front_m = hexadecimal(m / 16);
        let last_n = digit_char((n % 16) as int);
        let last_m = digit_char((m % 16) as int);
        assert(front_n.push(last_n).drop_last() =~= front_n);
        assert(front_m.push(last_m).drop_last() =~= front_m);
        assert(front_n.push(last_n).last() == last_n);
        assert(front_m.push(last_m).last() == last_m);
        lemma_hexadecimal_names_one_number(n / 16, m / 16);
        lemma_digit_chars((n % 16) as int, (m % 16) as int);
    } else if n < 16 {
        assert(hexadecimal(n).len() == 1);
        assert(hexadecimal(m).len() == hexadecimal(m / 16).len() + 1);
    } else {
        assert(hexadecimal(m).len() == 1);
        assert(hexadecimal(n).len() == hexadecimal(n / 16).len() + 1);
    }
}

/// A text that ends in a separator and a number can be taken apart in one way
/// only: the last separator is where the number begins.
pub proof fn lemma_last_number(
    front_a: Seq<char>,
    number_a: Seq<char>,
    front_b: Seq<char>,
    number_b: Seq<char>,
    separator: char,
)
    requires
        is_number(number_a),
        is_number(number_b),
        !is_digit(separator),
        front_a + seq![separator] + number_a == front_b + seq![separator] + number_b,
    ensures
        front_a == front_b,
        number_a == number_b,
{
    let text_a = front_a + seq![separator] + number_a;
    let text_b = front_b + seq![separator] + number_b;
    assert(text_a.len() == front_a.len() + 1 + number_a.len());
    assert(text_b.len() == front_b.len() + 1 + number_b.len());
    if number_a.len() < number_b.len() {
        let at = front_a.len() as int;
        assert(text_a[at] == separator);
        assert(text_b[at] == number_b[at - front_b.len() - 1]);
    } else if number_b.len() < number_a.len() {
        let at = front_b.len() as int;
        assert(text_b[at] == separator);
        assert(text_a[at] == number_a[at - front_a.len() - 1]);
    } else {
        assert forall|i: int| 0 <= i < front_a.len() implies front_a[i] == front_b[i] by {
            assert(text_a[i] == front_a[i]);
            assert(text_b[i] == front_b[i]);
        }
        assert(front_a =~= front_b);
        assert forall|i: int| 0 <= i < number_a.len() implies number_a[i] == number_b[i] by {
            assert(text_a[front_a.len() + 1 + i] == number_a[i]);
            assert(text_b[front_b.len() + 1 + i] == number_b[i]);
        }
        assert(number_a =~= number_b);
    }
}

/// True of a text of groups: nothing at all, or digits and single colons that
/// begins and ends with a digit.
pub open spec fn is_groups_text(text: Seq<char>) -> bool {
    &&& forall|i: int| 0 <= i < text.len() ==> is_digit(#[trigger] text[i]) || text[i] == ':'
    &&& forall|i: int| 0 <= i < text.len() - 1 ==> !(#[trigger] text[i] == ':' && text[i + 1] == ':')
    &&& text.len() > 0 ==> is_digit(text[0]) && is_digit(text.last())
}

/// Groups are written as a text of groups, which is empty for no group only,
/// and has a colon in it from two groups on.
pub proof fn lemma_groups_text_shape(groups: Seq<u16>)
    ensures
        is_groups_text(groups_text(groups)),
        groups.len() == 0 <==> groups_text(groups).len() == 0,
        groups.len() == 1 ==> is_number(groups_text(groups)),
        groups.len() >= 2 ==> exists|i: int|
            0 <= i < groups_text(groups).len() && #[trigger] groups_text(groups)[i] == ':',
    decreases groups.len(),
{
    if groups.len() == 1 {
        lemma_hexadecimal_is_number(groups[0] as nat);
    } else if groups.len() >= 2 {
        let front = groups_text(groups.drop_last());
        let last = hexadecimal(groups.last() as nat);
        let text = groups_text(groups);
        lemma_groups_text_shape(groups.drop_last());
        lemma_hexadecimal_is_number(groups.last() as nat);
        assert(text == front + seq![':'] + last);
        assert(text[front.len() as int] == ':');
        assert forall|i: int| 0 <= i < text.len() implies is_digit(#[trigger] text[i]) || text[i]
            == ':' by {
            if i < front.len() {
                assert(text[i] == front[i]);
            } else if i > front.len() {
                assert(text[i] == last[i - front.len() - 1]);
            }
        }
        assert forall|i: int| 0 <= i < text.len() - 1 implies !(#[trigger] text[i] == ':' && text[i
            + 1] == ':') by {
            if i + 1 < front.len() {
                assert(text[i] == front[i]);
                assert(text[i + 1] == front[i + 1]);
            } else if i + 1 == front.len() {
                assert(text[i] == front[i]);
                assert(front[i] == front.last());
            } else if i == front.len() {
                assert(text[i + 1] == last[0]);
            } else {
                assert(text[i] == last[i - front.len() - 1]);
            }
        }
        assert(text[0] == front[0]);
        assert(text.last() == last.last());
    }
}

/// Two runs of groups with the same text are the same groups.
pub proof fn lemma_groups_text_names_one_run(a: Seq<u16>, b: Seq<u16>)
    requires
        groups_text(a) == groups_text(b),
    ensures
        a == b,
    decreases a.len(),
{
    lemma_groups_text_shape(a);
    lemma_groups_text_shape(b);
    if a.len() == 0 || b.len() == 0 {
        assert(a =~= b);
    } else if a.len() == 1 && b.len() == 1 {
        lemma_hexadecimal_names_one_number(a[0] as nat, b[0] as nat);
        assert(a =~= b);
    } else if a.len() == 1 {
        let i = choose|i: int| 0 <= i < groups_text(b).len() && #[trigger] groups_text(b)[i] == ':';
        assert(is_digit(groups_text(a)[i]));
    } else if b.len() == 1 {
        let i = choose|i: int| 0 <= i < groups_text(a).len() && #[trigger] groups_text(a)[i] == ':';
        assert(is_digit(groups_text(b)[i]));
    } else {
        lemma_hexadecimal_is_number(a.last() as nat);
        lemma_hexadecimal_is_number(b.last() as nat);
        lemma_last_number(
            groups_text(a.drop_last()),
            hexadecimal(a.last() as nat),
            groups_text(b.drop_last()),
            hexadecimal(b.last() as nat),
            ':',
        );
        lemma_groups_text_names_one_run(a.drop_last(), b.drop_last());
        lemma_hexadecimal_names_one_number(a.last() as nat, b.last() as nat);
        assert(a =~= a.drop_last().push(a.last()));
        assert(b =~= b.drop_last().push(b.last()));
    }
}

/// A text in which `::` stands between two texts of groups can be taken apart
/// in one way only: neither side has two colons in a row, nor a colon where
/// it meets the `::`.
pub proof fn lemma_double_colon(
    before_a: Seq<char>,
    after_a: Seq<char>,
    before_b: Seq<char>,
    after_b: Seq<char>,
)
    requires
        is_groups_text(before_a),
        is_groups_text(after_a),
        is_groups_text(before_b),
        is_groups_text(after_b),
        before_a + seq![':', ':'] + after_a == before_b + seq![':', ':'] + after_b,
    ensures
        before_a == before_b,
        after_a == after_b,
{
    let text_a = before_a + seq![':', ':'] + after_a;
    let text_b = before_b + seq![':', ':'] + after_b;
    let at_a = before_a.len() as int;
    let at_b = before_b.len() as int;
    assert(text_a.len() == at_a + 2 + after_a.len());
    assert(text_b.len() == at_b + 2 + after_b.len());
    assert(text_a[at_a] == ':' && text_a[at_a + 1] == ':');
    assert(text_b[at_b] == ':' && text_b[at_b + 1] == ':');
    if at_a < at_b {
        assert(text_b[at_a] == before_b[at_a]);
        if at_a + 1 < at_b {
            assert(text_b[at_a + 1] == before_b[at_a + 1]);
        } else {
            assert(before_b[at_a] == before_b.last());
        }
    } else if at_b < at_a {
        assert(text_a[at_b] == before_a[at_b]);
        if at_b + 1 < at_a {
            assert(text_a[at_b + 1] == before_a[at_b + 1]);
        } else {
            assert(before_a[at_b] == before_a.last());
        }
    } else {
        assert forall|i: int| 0 <= i < at_a implies before_a[i] == before_b[i] by {
            assert(text_a[i] == before_a[i]);
            assert(text_b[i] == before_b[i]);
        }
        assert(before_a =~= before_b);
        assert forall|i: int| 0 <= i < after_a.len() implies after_a[i] == after_b[i] by {
            assert(text_a[at_a + 2 + i] == after_a[i]);
            assert(text_b[at_b + 2 + i] == after_b[i]);
        }
        assert(after_a =~= after_b);
    }
}

/// True of a text made of digits and of one other character.
pub open spec fn is_made_of(text: Seq<char>, separator: char) -> bool {
    forall|i: int| 0 <= i < text.len() ==> is_digit(#[trigger] text[i]) || text[i] == separator
}

/// An IPv4 address is written with digits and dots, and with a dot after its
/// first number.
pub proof fn lemma_ipv4_text_shape(octets: Seq<u8>)
    ensures
        is_made_of(ipv4_text(octets), '.'),
        decimal(octets[0] as nat).len() < ipv4_text(octets).len(),
        ipv4_text(octets)[decimal(octets[0] as nat).len() as int] == '.',
{
    let a = decimal(octets[0] as nat);
    let b = decimal(octets[1] as nat);
    let c = decimal(octets[2] as nat);
    let d = decimal(octets[3] as nat);
    let dot = seq!['.'];
    lemma_decimal_is_number(octets[0] as nat);
    lemma_decimal_is_number(octets[1] as nat);
    lemma_decimal_is_number(octets[2] as nat);
    lemma_decimal_is_number(octets[3] as nat);
    let text = ipv4_text(octets);
    assert(text == a + dot + b + dot + c + dot + d);
    assert(text[a.len() as int] == '.');
    assert forall|i: int| 0 <= i < text.len() implies is_digit(#[trigger] text[i]) || text[i]
        == '.' by {
        let ab = a.len() + 1;
        let bc = ab + b.len() + 1;
        let cd = bc + c.len() + 1;
        if i < a.len() {
            assert(text[i] == a[i]);
        } else if i < ab {
        } else if i < ab + b.len() {
            assert(text[i] == b[i - ab]);
        } else if i < bc {
        } else if i < bc + c.len() {
            assert(text[i] == c[i - bc]);
        } else if i < cd {
        } else {
            assert(text[i] == d[i - cd]);
        }
    }
}

/// Two IPv4 addresses that are written the same are the same.
pub proof fn lemma_ipv4_text_names_one_address(a: Seq<u8>, b: Seq<u8>)
    requires
        a.len() == 4,
        b.len() == 4,
        ipv4_text(a) == ipv4_text(b),
    ensures
        a == b,
{
    let dot = seq!['.'];
    let a0 = decimal(a[0] as nat);
    let a1 = decimal(a[1] as nat);
    let a2 = decimal(a[2] as nat);
    let a3 = decimal(a[3] as nat);
    let b0 = decimal(b[0] as nat);
    let b1 = decimal(b[1] as nat);
    let b2 = decimal(b[2] as nat);
    let b3 = decimal(b[3] as nat);
    lemma_decimal_is_number(a[0] as nat);
    lemma_decimal_is_number(a[1] as nat);
    lemma_decimal_is_number(a[2] as nat);
    lemma_decimal_is_number(a[3] as nat);
    lemma_decimal_is_number(b[0] as nat);
    lemma_decimal_is_number(b[1] as nat);
    lemma_decimal_is_number(b[2] as nat);
    lemma_decimal_is_number(b[3] as nat);
    lemma_last_number(a0 + dot + a1 + dot + a2, a3, b0 + dot + b1 + dot + b2, b3, '.');
    lemma_last_number(a0 + dot + a1, a2, b0 + dot + b1, b2, '.');
    lemma_last_number(a0, a1, b0, b1, '.');
    lemma_decimal_names_one_number(a[0] as nat, b[0] as nat);
    lemma_decimal_names_one_number(a[1] as nat, b[1] as nat);
    lemma_decimal_names_one_number(a[2] as nat, b[2] as nat);
    lemma_decimal_names_one_number(a[3] as nat, b[3] as nat);
    assert(a =~= b);
}

/// Sixteen bytes are known by their eight groups.
pub proof fn lemma_groups_name_one_address(a: Seq<u8>, b: Seq<u8>)
    requires
        a.len() == 16,
        b.len() == 16,
        groups_of(a) == groups_of(b),
    ensures
        a == b,
{
    assert forall|k: int| 0 <= k < 16 implies a[k] == b[k] by {
        let i = k / 2;
        assert(groups_of(a)[i] == groups_of(b)[i]);
        assert(groups_of(a)[i] == a[2 * i] as int * 256 + a[2 * i + 1] as int);
        assert(groups_of(b)[i] == b[2 * i] as int * 256 + b[2 * i + 1] as int);
    }
    assert(a =~= b);
}

/// How an IPv6 address that is no mapped IPv4 address is written: with `::`
/// between the groups before and after its longest run of zero groups where
/// that run has two groups or more, else as eight groups. Either way it has a
/// colon and no dot.
pub proof fn lemma_ipv6_text_shape(octets: Seq<u8>)
    requires
        octets.len() == 16,
        !is_ipv4_mapped(octets),
    ensures
        is_made_of(ipv6_text(octets), ':'),
        exists|i: int| 0 <= i < ipv6_text(octets).len() && #[trigger] ipv6_text(octets)[i] == ':',
        longest_run(groups_of(octets), 0) < 2 ==> is_groups_text(ipv6_text(octets)),
        longest_run(groups_of(octets), 0) >= 2 ==> {
            let at = groups_text(
                groups_of(octets).subrange(0, longest_run_start(groups_of(octets), 0)),
            ).len() as int;
            &&& at + 1 < ipv6_text(octets).len()
            &&& ipv6_text(octets)[at] == ':'
            &&& ipv6_text(octets)[at + 1] == ':'
        },
        0 <= longest_run_start(groups_of(octets), 0),
        longest_run_start(groups_of(octets), 0) + longest_run(groups_of(octets), 0) <= 8,
{
    let groups = groups_of(octets);
    let run = longest_run(groups, 0);
    let start = longest_run_start(groups, 0);
    let text = ipv6_text(octets);
    lemma_longest_run_is_first_and_longest(groups, 0, 0);
    lemma_zero_run_fits(groups, start);
    if run >= 2 {
        let before = groups_text(groups.subrange(0, start));
        let after = groups_text(groups.subrange(start + run, 8));
        lemma_groups_text_shape(groups.subrange(0, start));
        lemma_groups_text_shape(groups.subrange(start + run, 8));
        assert(text == before + seq![':', ':'] + after);
        assert(text[before.len() as int] == ':');
        assert(text[before.len() as int + 1] == ':');
        assert forall|i: int| 0 <= i < text.len() implies is_digit(#[trigger] text[i]) || text[i]
            == ':' by {
            if i < before.len() {
                assert(text[i] == before[i]);
            } else if i >= before.len() + 2 {
                assert(text[i] == after[i - before.len() - 2]);
            }
        }
    } else {
        lemma_groups_text_shape(groups);
    }
}

/// The text of an address names one address only: two addresses, of four or
/// of sixteen bytes each, that are written the same are the same address.
pub proof fn lemma_text_names_one_address(a: Seq<u8>, b: Seq<u8>)
    requires
        a.len() == 4 || a.len() == 16,
        b.len() == 4 || b.len() == 16,
        address_text(a) == address_text(b),
    ensures
        a == b,
{
    if a.len() == 4 && b.len() == 4 {
        lemma_ipv4_text_names_one_address(a, b);
    } else if a.len() == 4 {
        lemma_text_tells_the_kinds_apart(a, b);
    } else if b.len() == 4 {
        lemma_text_tells_the_kinds_apart(b, a);
    } else if is_ipv4_mapped(a) && is_ipv4_mapped(b) {
        let prefix = seq![':', ':', 'f', 'f', 'f', 'f', ':'];
        let tail_a = ipv4_text(a.subrange(12, 16));
        let tail_b = ipv4_text(b.subrange(12, 16));
        assert((prefix + tail_a).len() == 7 + tail_a.len());
        assert((prefix + tail_b).len() == 7 + tail_b.len());
        assert forall|i: int| 0 <= i < tail_a.len() implies tail_a[i] == tail_b[i] by {
            assert((prefix + tail_a)[7 + i] == tail_a[i]);
            assert((prefix + tail_b)[7 + i] == tail_b[i]);
        }
        assert(tail_a =~= tail_b);
        lemma_ipv4_text_names_one_address(a.subrange(12, 16), b.subrange(12, 16));
        assert forall|k: int| 0 <= k < 16 implies a[k] == b[k] by {
            if k >= 12 {
                assert(a.subrange(12, 16)[k - 12] == a[k]);
                assert(b.subrange(12, 16)[k - 12] == b[k]);
            }
        }
        assert(a =~= b);
    } else if is_ipv4_mapped(a) {
        lemma_mapped_text_has_a_dot(a);
        lemma_ipv6_text_shape(b);
    } else if is_ipv4_mapped(b) {
        lemma_mapped_text_has_a_dot(b);
        lemma_ipv6_text_shape(a);
    } else {
        let groups_a = groups_of(a);
        let groups_b = groups_of(b);
        let run_a = longest_run(groups_a, 0);
        let run_b = longest_run(groups_b, 0);
        let start_a = longest_run_start(groups_a, 0);
        let start_b = longest_run_start(groups_b, 0);
        lemma_ipv6_text_shape(a);
        lemma_ipv6_text_shape(b);
        if run_a >= 2 && run_b >= 2 {
            let before_a = groups_a.subrange(0, start_a);
            let before_b = groups_b.subrange(0, start_b);
            let after_a = groups_a.subrange(start_a + run_a, 8);
            let after_b = groups_b.subrange(start_b + run_b, 8);
            lemma_groups_text_shape(before_a);
            lemma_groups_text_shape(before_b);
            lemma_groups_text_shape(after_a);
            lemma_groups_text_shape(after_b);
            lemma_double_colon(
                groups_text(before_a),
                groups_text(after_a),
                groups_text(before_b),
                groups_text(after_b),
            );
            lemma_groups_text_names_one_run(before_a, before_b);
            lemma_groups_text_names_one_run(after_a, after_b);
            assert(before_a.len() == start_a);
            assert(before_b.len() == start_b);
            assert(after_a.len() == 8 - start_a - run_a);
            assert(after_b.len() == 8 - start_b - run_b);
            lemma_longest_run_is_first_and_longest(groups_a, 0, 0);
            lemma_longest_run_is_first_and_longest(groups_b, 0, 0);
            lemma_zero_run_fits(groups_a, start_a);
            lemma_zero_run_fits(groups_b, start_b);
            assert forall|i: int| 0 <= i < 8 implies groups_a[i] == groups_b[i] by {
                if i < start_a {
                    assert(before_a[i] == groups_a[i]);
                    assert(before_b[i] == groups_b[i]);
                } else if i >= start_a + run_a {
                    assert(after_a[i - start_a - run_a] == groups_a[i]);
                    assert(after_b[i - start_b - run_b] == groups_b[i]);
                }
            }
            assert(groups_a =~= groups_b);
        } else if run_a < 2 && run_b < 2 {
            lemma_groups_text_names_one_run(groups_a, groups_b);
        }
        lemma_groups_name_one_address(a, b);
    }
}

/// An IPv4 address is never written like an IPv6 address: the one has no
/// colon, the other has one.
proof fn lemma_text_tells_the_kinds_apart(short: Seq<u8>, long: Seq<u8>)
    requires
        short.len() == 4,
        long.len() == 16,
    ensures
        address_text(short) != address_text(long),
{
    lemma_ipv4_text_shape(short);
    if is_ipv4_mapped(long) {
        assert(ipv6_text(long)[0] == ':');
        if address_text(short) == address_text(long) {
            assert(is_digit(ipv4_text(short)[0]) || ipv4_text(short)[0] == '.');
        }
    } else {
        lemma_ipv6_text_shape(long);
        let i = choose|i: int| 0 <= i < ipv6_text(long).len() && #[trigger] ipv6_text(long)[i] == ':';
        if address_text(short) == address_text(long) {
            assert(is_digit(ipv4_text(short)[i]) || ipv4_text(short)[i] == '.');
        }
    }
}

/// A mapped IPv4 address is written with a dot.
proof fn lemma_mapped_text_has_a_dot(octets: Seq<u8>)
    requires
        octets.len() == 16,
        is_ipv4_mapped(octets),
    ensures
        exists|i: int| 0 <= i < ipv6_text(octets).len() && #[trigger] ipv6_text(octets)[i] == '.',
{
    let tail = octets.subrange(12, 16);
    lemma_ipv4_text_shape(tail);
    let at = decimal(tail[0] as nat).len() as int;
    let prefix = seq![':', ':', 'f', 'f', 'f', 'f', ':'];
    assert(ipv6_text(octets) == prefix + ipv4_text(tail));
    assert((prefix + ipv4_text(tail))[7 + at] == ipv4_text(tail)[at]);
}

} // verus!
