//! The name under which a host and port are recorded in a known-hosts store.

use vstd::prelude::*;
use crate::text::{is_space, is_word, push_char};

verus! {

/// The port for which a host is recorded under its bare name.
pub const DEFAULT_PORT: u16 = 22;

/// The character of the decimal digit `d`.
pub open spec fn digit_char(d: nat) -> char
    recommends
        d < 10,
{
    if d == 0 {
        '0'
    } else if d == 1 {
        '1'
    } else if d == 2 {
        '2'
    } else if d == 3 {
        '3'
    } else if d == 4 {
        '4'
    } else if d == 5 {
        '5'
    } else if d == 6 {
        '6'
    } else if d == 7 {
        '7'
    } else if d == 8 {
        '8'
    } else {
        '9'
    }
}

/// The decimal numeral of `n`, without leading zeros.
pub open spec fn decimal(n: nat) -> Seq<char>
    decreases n,
{
    if n < 10 {
        seq![digit_char(n)]
    } else {
        decimal(n / 10).push(digit_char(n % 10))
    }
}

/// The value of the decimal digit `c`, if it is one.
pub open spec fn digit_value(c: char) -> Option<nat> {
    let u = c as u32;
    if 48 <= u <= 57 {
        Some((u - 48) as nat)
    } else {
        None
    }
}

/// Whether `s` holds decimal digits only.
pub open spec fn all_digits(s: Seq<char>) -> bool {
    forall|i: int| 0 <= i < s.len() ==> digit_value(#[trigger] s[i]) is Some
}

/// The number that the digits of `s` spell; a character that is no digit
/// counts as zero.
pub open spec fn number_of(s: Seq<char>) -> nat
    decreases s.len(),
{
    if s.len() == 0 {
        0
    } else {
        let d = match digit_value(s.last()) {
            Some(d) => d,
            None => 0,
        };
        number_of(s.drop_last()) * 10 + d
    }
}

/// The host-spec of `host` on `port`: the bare host on the default port,
/// otherwise the host in square brackets, a colon and the port in decimal.
pub open spec fn host_spec_of(host: Seq<char>, port: u16) -> Seq<char> {
    if port == DEFAULT_PORT {
        host
    } else {
        seq!['['] + host + seq![']', ':'] + decimal(port as nat)
    }
}

fn digit(d: u16) -> (c: char)
    requires
        d < 10,
    ensures
        c == digit_char(d as nat),
{
    if d == 0 {
        '0'
    } else if d == 1 {
        '1'
    } else if d == 2 {
        '2'
    } else if d == 3 {
        '3'
    } else if d == 4 {
        '4'
    } else if d == 5 {
        '5'
    } else if d == 6 {
        '6'
    } else if d == 7 {
        '7'
    } else if d == 8 {
        '8'
    } else {
        '9'
    }
}

/// Appends the decimal numeral of `n` to `s`.
pub fn push_decimal(s: &mut String, n: u16)
    ensures
        final(s)@ == old(s)@ + decimal(n as nat),
    decreases n,
{
    if n < 10 {
        push_char(s, digit(n));
        assert(old(s)@.push(digit_char(n as nat)) =~= old(s)@ + decimal(n as nat));
    } else {
        push_decimal(s, n / 10);
        push_char(s, digit(n % 10));
        assert((old(s)@ + decimal((n / 10) as nat)).push(digit_char((n % 10) as nat)) =~= old(s)@
            + decimal(n as nat));
    }
}

/// The host-spec under which `host` on `port` is recorded and looked up.
pub fn host_spec(host: &str, port: u16) -> (spec: String)
    ensures
        spec@ == host_spec_of(host@, port),
{
    if port == DEFAULT_PORT {
        host.to_owned()
    } else {
        let mut spec = String::new();
        push_char(&mut spec, '[');
        spec.append(host);
        push_char(&mut spec, ']');
        push_char(&mut spec, ':');
        push_decimal(&mut spec, port);
        assert(spec@ =~= host_spec_of(host@, port));
        spec
    }
}

/// A decimal numeral holds digits only: it is not empty and has no white
/// space.
pub proof fn lemma_decimal_is_word(n: nat)
    ensures
        is_word(decimal(n)),
    decreases n,
{
    assert(forall|d: nat| d < 10 ==> !is_space(#[trigger] digit_char(d)));
    if n >= 10 {
        lemma_decimal_is_word(n / 10);
        let front = decimal(n / 10);
        let all = decimal(n);
        assert forall|k: int| 0 <= k < all.len() implies !is_space(#[trigger] all[k]) by {
            if k < front.len() {
                assert(all[k] == front[k]);
            }
        }
    }
}

/// A decimal numeral holds digits only, at least one, and spells its number.
pub proof fn lemma_decimal_is_read_back(n: nat)
    ensures
        decimal(n).len() > 0,
        all_digits(decimal(n)),
        number_of(decimal(n)) == n,
    decreases n,
{
    assert(forall|d: nat| d < 10 ==> digit_value(#[trigger] digit_char(d)) == Some(d));
    let all = decimal(n);
    if n < 10 {
        assert(all.drop_last() =~= Seq::<char>::empty());
        assert(number_of(all.drop_last()) == 0);
    } else {
        lemma_decimal_is_read_back(n / 10);
        let front = decimal(n / 10);
        assert(all.drop_last() =~= front);
        assert(all.last() == digit_char(n % 10));
        assert forall|k: int| 0 <= k < all.len() implies digit_value(#[trigger] all[k]) is Some by {
            if k < front.len() {
                assert(all[k] == front[k]);
            }
        }
    }
}

/// Two numbers with the same decimal numeral are the same number.
pub proof fn lemma_decimal_injective(n: nat, m: nat)
    requires
        decimal(n) == decimal(m),
    ensures
        n == m,
{
    lemma_decimal_is_read_back(n);
    lemma_decimal_is_read_back(m);
}

/// Whether `host` can be told from a host-spec in brackets: it does not
/// begin with a bracket.
pub open spec fn is_plain_host(host: Seq<char>) -> bool {
    host.len() == 0 || host[0] != '['
}

/// Hosts and ports are told apart by their host-specs: two plain hosts with
/// their ports that have the same host-spec are the same host on the same
/// port. So what is trusted for one host and port is never taken for
/// another.
pub proof fn lemma_host_spec_injective(host_a: Seq<char>, port_a: u16, host_b: Seq<char>, port_b: u16)
    requires
        is_plain_host(host_a),
        is_plain_host(host_b),
        host_spec_of(host_a, port_a) == host_spec_of(host_b, port_b),
    ensures
        host_a == host_b,
        port_a == port_b,
{
    let s1 = host_spec_of(host_a, port_a);
    let s2 = host_spec_of(host_b, port_b);
    if port_a == DEFAULT_PORT && port_b == DEFAULT_PORT {
    } else if port_a == DEFAULT_PORT {
        assert(s2[0] == '[');
        assert(s1.len() == s2.len());
    } else if port_b == DEFAULT_PORT {
        assert(s1[0] == '[');
        assert(s1.len() == s2.len());
    } else {
        let d1 = decimal(port_a as nat);
        let d2 = decimal(port_b as nat);
        lemma_decimal_is_read_back(port_a as nat);
        lemma_decimal_is_read_back(port_b as nat);
        let n1 = host_a.len() as int;
        let n2 = host_b.len() as int;
        assert(s1.len() == n1 + 3 + d1.len());
        assert(s2.len() == n2 + 3 + d2.len());
        assert(digit_value(':') is None);
        if d1.len() < d2.len() {
            let at = n1 + 2;
            assert(s1[at] == ':');
            assert(s2[at] == d2[at - n2 - 3]);
            assert(digit_value(d2[at - n2 - 3]) is Some);
            assert(false);
        }
        if d2.len() < d1.len() {
            let at = n2 + 2;
            assert(s2[at] == ':');
            assert(s1[at] == d1[at - n1 - 3]);
            assert(digit_value(d1[at - n1 - 3]) is Some);
            assert(false);
        }
        assert(n1 == n2);
        assert forall|k: int| 0 <= k < n1 implies host_a[k] == host_b[k] by {
            assert(s1[k + 1] == host_a[k]);
            assert(s2[k + 1] == host_b[k]);
        }
        assert(host_a =~= host_b);
        assert forall|k: int| 0 <= k < d1.len() implies d1[k] == d2[k] by {
            assert(s1[n1 + 3 + k] == d1[k]);
            assert(s2[n1 + 3 + k] == d2[k]);
        }
        assert(d1 =~= d2);
        lemma_decimal_injective(port_a as nat, port_b as nat);
    }
}

/// The host-spec of a host that is a word is a word, and begins like the
/// host or with a bracket.
pub proof fn lemma_host_spec_is_word(host: Seq<char>, port: u16)
    requires
        is_word(host),
    ensures
        is_word(host_spec_of(host, port)),
        host_spec_of(host, port)[0] == if port == DEFAULT_PORT {
            host[0]
        } else {
            '['
        },
{
    if port != DEFAULT_PORT {
        lemma_decimal_is_word(port as nat);
        let digits = decimal(port as nat);
        let spec = host_spec_of(host, port);
        let n = host.len() as int;
        assert(!is_space('[') && !is_space(']') && !is_space(':'));
        assert forall|k: int| 0 <= k < spec.len() implies !is_space(#[trigger] spec[k]) by {
            if k == 0 {
            } else if k <= n {
                assert(spec[k] == host[k - 1]);
            } else if k == n + 1 {
            } else if k == n + 2 {
            } else {
                assert(spec[k] == digits[k - n - 3]);
            }
        }
    }
}

} // verus!
