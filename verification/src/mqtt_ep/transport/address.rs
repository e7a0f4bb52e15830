//! Parsing of `host:port` addresses and the making of WebSocket URLs, for
//! the connect helpers.
use vstd::prelude::*;
use vstd::string::*;

use crate::mqtt_ep::transport::TransportError;

verus! {

/// The string's characters, in order.
fn chars_of(s: &str) -> (r: Vec<char>)
    ensures
        r@ == s@,
{
    let n = s.unicode_len();
    let mut r: Vec<char> = Vec::new();
    let mut i: usize = 0;
    while i < n
        invariant
            n == s@.len(),
            i <= n,
            r@ == s@.take(i as int),
        decreases n - i,
    {
        r.push(s.get_char(i));
        i += 1;
        assert(r@ =~= s@.take(i as int));
    }
    assert(s@.take(n as int) =~= s@);
    r
}

/// Calls `String::push`, which appends one character.
#[verifier::external_body]
fn push_char(s: &mut String, c: char)
    ensures
        final(s)@ == old(s)@.push(c),
{
    s.push(c)
}

pub open spec fn is_digit(c: char) -> bool {
    '0' <= c && c <= '9'
}

pub open spec fn digit_value(c: char) -> int {
    c as int - '0' as int
}

/// The value of a string of decimal digits.
pub open spec fn digits_value(d: Seq<char>) -> int
    decreases d.len(),
{
    if d.len() == 0 {
        0
    } else {
        digits_value(d.drop_last()) * 10 + digit_value(d.last())
    }
}

pub open spec fn all_digits(d: Seq<char>) -> bool {
    forall|i: int| 0 <= i < d.len() ==> #[trigger] is_digit(d[i])
}

/// A port number as `u16::from_str` reads it: an optional `+`, then one or
/// more decimal digits whose value fits in 16 bits.
pub open spec fn parse_port(s: Seq<char>) -> Option<u16> {
    let d = if s.len() > 0 && s[0] == '+' {
        s.drop_first()
    } else {
        s
    };
    if d.len() > 0 && all_digits(d) && digits_value(d) <= 65535 {
        Some(digits_value(d) as u16)
    } else {
        None
    }
}

/// The first position at or after `from` where `c` stands.
pub open spec fn find_from(s: Seq<char>, c: char, from: int) -> Option<int>
    decreases s.len() - from,
{
    if from < 0 || from >= s.len() {
        None
    } else if s[from] == c {
        Some(from)
    } else {
        find_from(s, c, from + 1)
    }
}

/// An address split at its only colon into a host and a port; an address
/// without exactly one colon has an invalid format.
pub open spec fn split_host_port_spec(s: Seq<char>) -> Result<(Seq<char>, u16), Seq<char>> {
    match find_from(s, ':', 0) {
        None => Err("Invalid address format"@),
        Some(i) => match find_from(s, ':', i + 1) {
            Some(_) => Err("Invalid address format"@),
            None => match parse_port(s.subrange(i + 1, s.len() as int)) {
                None => Err("Invalid port number"@),
                Some(p) => Ok((s.subrange(0, i), p)),
            },
        },
    }
}

/// The port of an address: the text between its first colon and the next
/// colon (or the end), read as a port number.
pub open spec fn port_of_address_spec(s: Seq<char>) -> Option<u16> {
    match find_from(s, ':', 0) {
        None => None,
        Some(i) => {
            let end = match find_from(s, ':', i + 1) {
                Some(j) => j,
                None => s.len() as int,
            };
            parse_port(s.subrange(i + 1, end))
        },
    }
}

pub open spec fn digit_char(d: int) -> char {
    if d == 0 {
        '0'
    } else if d == 1 {
        '1'
    } else if d == 2 {
        '2'
    } else if d == 3 {
        '3'
    } else if d == 4 {
        '4'
    } else if d == 5 {
        '5'
    } else if d == 6 {
        '6'
    } else if d == 7 {
        '7'
    } else if d == 8 {
        '8'
    } else {
        '9'
    }
}

/// The decimal form of a number, without leading zeros.
pub open spec fn decimal(n: nat) -> Seq<char>
    decreases n,
{
    if n < 10 {
        seq![digit_char(n as int)]
    } else {
        decimal(n / 10).push(digit_char((n % 10) as int))
    }
}

proof fn lemma_digit_char_value(d: int)
    requires
        0 <= d < 10,
    ensures
        is_digit(digit_char(d)),
        digit_value(digit_char(d)) == d,
{
}

proof fn lemma_decimal_digits(n: nat)
    ensures
        decimal(n).len() > 0,
        all_digits(decimal(n)),
        digits_value(decimal(n)) == n,
    decreases n,
{
    if n < 10 {
        lemma_digit_char_value(n as int);
        let d = decimal(n);
        assert(d.drop_last() =~= Seq::<char>::empty());
        assert(is_digit(d[0]));
        assert(d.last() == digit_char(n as int));
        assert(digits_value(d) == digits_value(d.drop_last()) * 10 + digit_value(d.last()));
        assert(digits_value(Seq::<char>::empty()) == 0);
    } else {
        lemma_decimal_digits(n / 10);
        lemma_digit_char_value((n % 10) as int);
        let f = decimal(n / 10);
        let d = decimal(n);
        assert(d == f.push(digit_char((n % 10) as int)));
        assert(d.drop_last() =~= f);
        assert forall|i: int| 0 <= i < d.len() implies #[trigger] is_digit(d[i]) by {
            if i < f.len() {
                assert(d[i] == f[i]);
                assert(is_digit(f[i]));
            }
        }
        assert(n == (n / 10) * 10 + n % 10);
        assert(d.last() == digit_char((n % 10) as int));
        assert(digits_value(d) == digits_value(f) * 10 + digit_value(d.last()));
    }
}

proof fn lemma_find_from(s: Seq<char>, c: char, from: int, k: int)
    requires
        0 <= from <= k <= s.len(),
        forall|j: int| from <= j < k ==> #[trigger] s[j] != c,
    ensures
        k < s.len() && s[k] == c ==> find_from(s, c, from) == Some(k),
        k == s.len() ==> find_from(s, c, from) is None,
    decreases k - from,
{
    if from < k {
        lemma_find_from(s, c, from + 1, k);
    }
}

/// The decimal form of a port reads back as that port, as `u16::from_str`
/// reads it.
pub proof fn law_decimal_reads_back(p: u16)
    ensures
        parse_port(decimal(p as nat)) == Some(p),
{
    lemma_decimal_digits(p as nat);
    let d = decimal(p as nat);
    assert(is_digit(d[0]));
}

/// An authority `host:port` whose host holds no colon splits back into that
/// host and that port, and its port is that port.
pub proof fn law_authority_splits_back(host: Seq<char>, p: u16)
    requires
        forall|i: int| 0 <= i < host.len() ==> #[trigger] host[i] != ':',
    ensures
        split_host_port_spec(host + ":"@ + decimal(p as nat)) == Ok::<(Seq<char>, u16), Seq<char>>((host, p)),
        port_of_address_spec(host + ":"@ + decimal(p as nat)) == Some(p),
{
    reveal_strlit(":");
    lemma_decimal_digits(p as nat);
    law_decimal_reads_back(p);
    let d = decimal(p as nat);
    let s = host + ":"@ + d;
    let k = host.len() as int;
    assert(s.len() == k + 1 + d.len());
    assert(s[k] == ':');
    assert forall|j: int| 0 <= j < k implies #[trigger] s[j] != ':' by {
        assert(s[j] == host[j]);
    }
    lemma_find_from(s, ':', 0, k);
    assert forall|j: int| k + 1 <= j < s.len() implies #[trigger] s[j] != ':' by {
        assert(s[j] == d[j - k - 1]);
        assert(is_digit(d[j - k - 1]));
    }
    lemma_find_from(s, ':', k + 1, s.len() as int);
    assert(s.subrange(k + 1, s.len() as int) =~= d);
    assert(s.subrange(0, k) =~= host);
}

/// The first position at or after `from` where `c` stands.
fn find(v: &Vec<char>, c: char, from: usize) -> (r: Option<usize>)
    ensures
        match r {
            Some(i) => find_from(v@, c, from as int) == Some(i as int) && from <= i < v.len() && v@[i as int] == c,
            None => find_from(v@, c, from as int) is None,
        },
    decreases v.len() - from,
{
    if from >= v.len() {
        None
    } else if v[from] == c {
        Some(from)
    } else {
        find(v, c, from + 1)
    }
}

proof fn lemma_digits_prefix(d: Seq<char>, k: int)
    requires
        0 <= k <= d.len(),
        all_digits(d),
    ensures
        digits_value(d.take(k)) <= digits_value(d),
        0 <= digits_value(d.take(k)),
    decreases d.len(),
{
    if k == d.len() {
        assert(d.take(k) =~= d);
        lemma_digits_nonneg(d);
    } else {
        assert(d.drop_last().take(k) =~= d.take(k));
        assert(all_digits(d.drop_last()));
        lemma_digits_prefix(d.drop_last(), k);
        assert(is_digit(d[d.len() - 1]));
    }
}

proof fn lemma_digits_nonneg(d: Seq<char>)
    requires
        all_digits(d),
    ensures
        0 <= digits_value(d),
    decreases d.len(),
{
    if d.len() > 0 {
        assert(all_digits(d.drop_last()));
        lemma_digits_nonneg(d.drop_last());
        assert(is_digit(d[d.len() - 1]));
    }
}

/// Reads `v[start..end]` as a port number.
fn parse_port_range(v: &Vec<char>, start: usize, end: usize) -> (r: Option<u16>)
    requires
        start <= end <= v.len(),
    ensures
        r == parse_port(v@.subrange(start as int, end as int)),
{
    let ghost s = v@.subrange(start as int, end as int);
    let mut i = start;
    if i < end && v[i] == '+' {
        i = i + 1;
    }
    let ghost d0 = i as int;
    let ghost d = v@.subrange(d0, end as int);
    assert(d =~= (if s.len() > 0 && s[0] == '+' { s.drop_first() } else { s }));
    if i >= end {
        return None;
    }
    let mut acc: u32 = 0;
    assert(v@.subrange(d0, d0) =~= Seq::<char>::empty());
    while i < end
        invariant
            0 <= d0 <= i <= end <= v.len(),
            d == v@.subrange(d0, end as int),
            s == v@.subrange(start as int, end as int),
            d == (if s.len() > 0 && s[0] == '+' { s.drop_first() } else { s }),
            d.len() > 0,
            acc as int == digits_value(v@.subrange(d0, i as int)),
            acc <= 65535,
            forall|j: int| d0 <= j < i ==> #[trigger] is_digit(v@[j]),
        decreases end - i,
    {
        let c = v[i];
        assert(d[i - d0] == v@[i as int]);
        if !(c >= '0' && c <= '9') {
            assert(!is_digit(d[i - d0]));
            return None;
        }
        let dv = (c as u32) - ('0' as u32);
        assert(v@.subrange(d0, i + 1).drop_last() =~= v@.subrange(d0, i as int));
        acc = acc * 10 + dv;
        i = i + 1;
        if acc > 65535 {
            proof {
                if all_digits(d) {
                    assert(d.take(i - d0) =~= v@.subrange(d0, i as int));
                    lemma_digits_prefix(d, i - d0);
                }
            }
            return None;
        }
    }
    assert(v@.subrange(d0, i as int) =~= d);
    Some(acc as u16)
}

/// Appends the decimal form of `n`.
fn push_decimal(n: u16, s: &mut String)
    ensures
        final(s)@ == old(s)@ + decimal(n as nat),
    decreases n,
{
    if n >= 10 {
        push_decimal(n / 10, s);
    }
    let d = n % 10;
    let c = if d == 0 {
        '0'
    } else if d == 1 {
        '1'
    } else if d == 2 {
        '2'
    } else if d == 3 {
        '3'
    } else if d == 4 {
        '4'
    } else if d == 5 {
        '5'
    } else if d == 6 {
        '6'
    } else if d == 7 {
        '7'
    } else if d == 8 {
        '8'
    } else {
        '9'
    };
    push_char(s, c);
    proof {
        if n >= 10 {
            assert(decimal(n as nat) == decimal((n / 10) as nat).push(digit_char((n % 10) as int)));
        }
    }
    assert(s@ =~= old(s)@ + decimal(n as nat));
}

/// The characters `v[from..to]` as a string.
fn string_of_range(v: &Vec<char>, from: usize, to: usize) -> (r: String)
    requires
        from <= to <= v.len(),
    ensures
        r@ == v@.subrange(from as int, to as int),
{
    let mut r = String::new();
    let mut i = from;
    while i < to
        invariant
            from <= i <= to <= v.len(),
            r@ == v@.subrange(from as int, i as int),
        decreases to - i,
    {
        push_char(&mut r, v[i]);
        assert(r@ =~= v@.subrange(from as int, i + 1));
        i = i + 1;
    }
    r
}

/// Splits a `hostname:port` address into its host and port.
///
/// An address with no colon or more than one has an invalid format; a port
/// that is not a number in 0..=65535 is invalid.
pub fn split_host_port(addr: &str) -> (r: Result<(String, u16), TransportError>)
    ensures
        match split_host_port_spec(addr@) {
            Ok((h, p)) => r matches Ok((host, port)) && host@ == h && port == p,
            Err(m) => r matches Err(TransportError::Connect(msg)) && msg@ == m,
        },
{
    let v = chars_of(addr);
    match find(&v, ':', 0) {
        None => Err(TransportError::Connect(String::from_str("Invalid address format"))),
        Some(i) => match find(&v, ':', i + 1) {
            Some(_) => Err(TransportError::Connect(String::from_str("Invalid address format"))),
            None => match parse_port_range(&v, i + 1, v.len()) {
                None => Err(TransportError::Connect(String::from_str("Invalid port number"))),
                Some(p) => Ok((string_of_range(&v, 0, i), p)),
            },
        },
    }
}

/// The port of an address: the text after its first colon, up to the next
/// colon if there is one.
pub fn port_of_address(addr: &str) -> (r: Result<u16, TransportError>)
    ensures
        match port_of_address_spec(addr@) {
            Some(p) => r == Ok::<u16, TransportError>(p),
            None => r matches Err(TransportError::Connect(msg)) && msg@ == "Invalid address format"@,
        },
{
    let v = chars_of(addr);
    let parsed = match find(&v, ':', 0) {
        None => None,
        Some(i) => {
            let end = match find(&v, ':', i + 1) {
                Some(j) => j,
                None => v.len(),
            };
            parse_port_range(&v, i + 1, end)
        },
    };
    match parsed {
        Some(p) => Ok(p),
        None => Err(TransportError::Connect(String::from_str("Invalid address format"))),
    }
}

/// `host:port`, the authority part of a URL and the value of a `Host` header.
pub fn authority(host: &str, port: u16) -> (r: String)
    ensures
        r@ == host@ + ":"@ + decimal(port as nat),
{
    let mut r = String::from_str(host);
    r.append(":");
    push_decimal(port, &mut r);
    r
}

/// `scheme://host:port` followed by `path`.
pub fn url(scheme: &str, host: &str, port: u16, path: &str) -> (r: String)
    ensures
        r@ == scheme@ + "://"@ + host@ + ":"@ + decimal(port as nat) + path@,
{
    let mut r = String::from_str(scheme);
    r.append("://");
    r.append(host);
    r.append(":");
    push_decimal(port, &mut r);
    r.append(path);
    r
}

/// Of resolved addresses, given by whether each is IPv4, the one to use:
/// the first IPv4 address, else the first address.
pub fn prefer_ipv4(is_ipv4: &Vec<bool>) -> (r: Option<usize>)
    ensures
        match r {
            Some(i) => i < is_ipv4.len() && (is_ipv4@[i as int] || forall|j: int| 0 <= j < is_ipv4.len() ==> !is_ipv4@[j]) && (
            forall|j: int| 0 <= j < i ==> !is_ipv4@[j]) && (!is_ipv4@[i as int] ==> i == 0),
            None => is_ipv4.len() == 0,
        },
{
    let mut i: usize = 0;
    while i < is_ipv4.len()
        invariant
            0 <= i <= is_ipv4.len(),
            forall|j: int| 0 <= j < i ==> !is_ipv4@[j],
        decreases is_ipv4.len() - i,
    {
        if is_ipv4[i] {
            return Some(i);
        }
        i += 1;
    }
    if is_ipv4.len() > 0 {
        Some(0)
    } else {
        None
    }
}

} // verus!
