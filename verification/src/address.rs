//! IP addresses: their notation, how one is read from a URL, and which of
//! several is preferred.
use vstd::prelude::*;
use crate::text;
use crate::text::{before_first, chars_of, decimal_text, without_all};
use vstd::string::*;

verus! {

/// An IP address. Of an IPv6 address only its notation is of interest.
#[derive(Debug, PartialEq, Eq)]
pub enum IpAddress {
    V4(u8, u8, u8, u8),
    V6(String),
}

impl Clone for IpAddress {
    fn clone(&self) -> (r: Self)
        ensures
            r == *self,
    {
        match self {
            IpAddress::V4(a, b, c, d) => IpAddress::V4(*a, *b, *c, *d),
            IpAddress::V6(notation) => IpAddress::V6(notation.clone()),
        }
    }
}

/// Four numbers in decimal notation with dots between them.
pub open spec fn dotted(a: u8, b: u8, c: u8, d: u8) -> Seq<char> {
    text::decimal(a as nat) + seq!['.'] + text::decimal(b as nat) + seq!['.'] + text::decimal(
        c as nat,
    ) + seq!['.'] + text::decimal(d as nat)
}

/// The notation of an address.
pub open spec fn notation(ip: IpAddress) -> Seq<char> {
    match ip {
        IpAddress::V4(a, b, c, d) => dotted(a, b, c, d),
        IpAddress::V6(words) => words@,
    }
}

/// The part of a URL that may be an address: what comes before the first colon
/// once the scheme is taken out.
pub open spec fn host_part(url: Seq<char>) -> Seq<char> {
    text::before(text::without(text::without(url, "http://"@), "https://"@), ':')
}

/// The IPv4 address that `words` are the notation of, where they are one.
pub open spec fn ipv4_in(words: Seq<char>) -> Option<IpAddress> {
    if exists|ip: IpAddress| ip is V4 && #[trigger] notation(ip) == words {
        Some(choose|ip: IpAddress| ip is V4 && #[trigger] notation(ip) == words)
    } else {
        None
    }
}

/// The address in a base URL. What is looked at has no colon in it, so it is
/// never the notation of an IPv6 address.
pub open spec fn base_url_ip(url: Seq<char>) -> Option<IpAddress> {
    ipv4_in(host_part(url))
}

/// Whether `words` are the notation of `ip`, or, where `ip` is missing, of no
/// IPv4 address.
spec fn is_ipv4_in(words: Seq<char>, ip: Option<IpAddress>) -> bool {
    match ip {
        Some(IpAddress::V4(a, b, c, d)) => words == dotted(a, b, c, d),
        Some(IpAddress::V6(_)) => false,
        None => forall|a: u8, b: u8, c: u8, d: u8| words != #[trigger] dotted(a, b, c, d),
    }
}

/// There is no more than one IPv4 address that words are the notation of.
proof fn ipv4_in_is_determined(words: Seq<char>, ip: Option<IpAddress>)
    requires
        is_ipv4_in(words, ip),
    ensures
        ip == ipv4_in(words),
{
    match ip {
        Some(found) => {
            assert(found is V4 && notation(found) == words);
            let chosen = choose|ip: IpAddress| ip is V4 && #[trigger] notation(ip) == words;
            ipv4_notation_is_unambiguous(found, chosen);
        },
        None => {
            assert forall|ip: IpAddress| ip is V4 implies #[trigger] notation(ip) != words by {
                if let IpAddress::V4(a, b, c, d) = ip {
                    assert(notation(ip) == dotted(a, b, c, d));
                }
            }
        },
    }
}

/// The notation of an address.
pub fn notation_text(ip: &IpAddress) -> (r: String)
    ensures
        r@ == notation(*ip),
{
    match ip {
        IpAddress::V4(a, b, c, d) => {
            proof {
                reveal_strlit(".");
                assert("."@ =~= seq!['.']);
            }
            let mut words = decimal_text(*a as u64);
            words.append(".");
            words.append(decimal_text(*b as u64).as_str());
            words.append(".");
            words.append(decimal_text(*c as u64).as_str());
            words.append(".");
            words.append(decimal_text(*d as u64).as_str());
            words
        },
        IpAddress::V6(words) => words.clone(),
    }
}

/// What number a decimal digit stands for.
fn digit_value(c: char) -> (r: Option<u64>)
    ensures
        match r {
            Some(d) => d < 10 && c == text::digit(d as nat),
            None => forall|d: nat| d < 10 ==> c != #[trigger] text::digit(d),
        },
{
    let code: u32 = c as u32;
    if code >= 48 && code <= 57 {
        Some((code - 48) as u64)
    } else {
        None
    }
}

/// The decimal notation of a small number, digit by digit.
proof fn small_decimals(n: nat)
    requires
        n < 1000,
    ensures
        n < 10 ==> text::decimal(n) == seq![text::digit(n)],
        10 <= n < 100 ==> text::decimal(n) == seq![text::digit(n / 10), text::digit(n % 10)],
        100 <= n ==> text::decimal(n) == seq![
            text::digit(n / 100),
            text::digit(n / 10 % 10),
            text::digit(n % 10),
        ],
        forall|i: int| 0 <= i < text::decimal(n).len() ==> #[trigger] text::decimal(n)[i] != '.',
{
    reveal_with_fuel(text::decimal, 3);
    if 10 <= n < 100 {
        assert(text::decimal(n) =~= seq![text::digit(n / 10), text::digit(n % 10)]);
    } else if 100 <= n {
        assert(n / 10 / 10 == n / 100);
        assert(text::decimal(n) =~= seq![
            text::digit(n / 100),
            text::digit(n / 10 % 10),
            text::digit(n % 10),
        ]);
    }
}

/// The number between 0 and 255 of which a part of `s` is the notation.
fn parse_octet(s: &Vec<char>, from: usize, to: usize) -> (r: Option<u8>)
    requires
        from <= to <= s@.len(),
    ensures
        match r {
            Some(v) => s@.subrange(from as int, to as int) == text::decimal(v as nat),
            None => forall|v: u8|
                s@.subrange(from as int, to as int) != #[trigger] text::decimal(v as nat),
        },
{
    let ghost part = s@.subrange(from as int, to as int);
    proof {
        assert forall|v: u8| part == #[trigger] text::decimal(v as nat) implies {
            &&& 1 <= part.len() <= 3
            &&& part.len() == 1 <==> v < 10
            &&& part.len() == 3 <==> v >= 100
        } by {
            small_decimals(v as nat);
        }
    }
    if to - from < 1 || to - from > 3 {
        return None;
    }
    let mut value: u64 = 0;
    let mut k: usize = from;
    let ghost mut digits: Seq<nat> = Seq::empty();
    while k < to
        invariant
            from <= k <= to <= s@.len(),
            1 <= to - from <= 3,
            part == s@.subrange(from as int, to as int),
            digits.len() == k - from,
            forall|i: int|
                0 <= i < digits.len() ==> #[trigger] digits[i] < 10 && part[i] == text::digit(
                    digits[i],
                ),
            digits.len() == 0 ==> value == 0,
            digits.len() == 1 ==> value == digits[0],
            digits.len() == 2 ==> value == digits[0] * 10 + digits[1],
            digits.len() == 3 ==> value == digits[0] * 100 + digits[1] * 10 + digits[2],
        decreases to - k,
    {
        match digit_value(s[k]) {
            Some(d) => {
                assert(part[k - from] == s@[k as int]);
                let ghost before = digits;
                proof {
                    digits = digits.push(d as nat);
                    assert(forall|i: int| 0 <= i < before.len() ==> before[i] == digits[i]);
                    if before.len() > 0 {
                        assert(before[0] < 10);
                    }
                    if before.len() > 1 {
                        assert(before[1] < 10);
                    }
                }
                value = value * 10 + d;
            },
            None => {
                proof {
                    assert forall|v: u8| part != #[trigger] text::decimal(v as nat) by {
                        small_decimals(v as nat);
                        if part == text::decimal(v as nat) {
                            assert(part[k - from] == s@[k as int]);
                        }
                    }
                }
                return None;
            },
        }
        k = k + 1;
    }
    proof {
        assert(digits[0] < 10);
        if digits.len() > 1 {
            assert(digits[1] < 10);
        }
        if digits.len() > 2 {
            assert(digits[2] < 10);
        }
        assert forall|v: u8| part == #[trigger] text::decimal(v as nat) implies value == v by {
            small_decimals(v as nat);
            octet_digits_determine_it(part, digits, v);
        }
    }
    let shortest = (to - from == 1) || (to - from == 2 && value >= 10) || (to - from == 3 && value
        >= 100);
    if shortest && value <= 255 {
        proof {
            small_decimals(value as nat);
            assert(part =~= text::decimal(value as nat));
        }
        Some(value as u8)
    } else {
        None
    }
}

/// The digits of a number's notation are those of the number.
proof fn octet_digits_determine_it(part: Seq<char>, digits: Seq<nat>, v: u8)
    requires
        part == text::decimal(v as nat),
        digits.len() == part.len(),
        forall|i: int|
            0 <= i < digits.len() ==> #[trigger] digits[i] < 10 && part[i] == text::digit(
                digits[i],
            ),
    ensures
        digits.len() == 1 ==> v == digits[0],
        digits.len() == 2 ==> v == digits[0] * 10 + digits[1],
        digits.len() == 3 ==> v == digits[0] * 100 + digits[1] * 10 + digits[2],
{
    small_decimals(v as nat);
    if digits.len() > 0 {
        assert(digits[0] < 10);
    }
    if digits.len() > 1 {
        assert(digits[1] < 10);
    }
    if digits.len() > 2 {
        assert(digits[2] < 10);
    }
}

/// The first place from `from` on where a dot stands, or the end.
fn find_dot(s: &Vec<char>, from: usize) -> (r: usize)
    requires
        from <= s@.len(),
    ensures
        is_first_dot(s@, from as int, r as int),
{
    let mut k: usize = from;
    while k < s.len() && s[k] != '.'
        invariant
            from <= k <= s@.len(),
            forall|i: int| from <= i < k ==> s@[i] != '.',
        decreases s@.len() - k,
    {
        k = k + 1;
    }
    k
}

/// Whether `at` is the first place from `from` on where a dot stands, or the end
/// where there is none.
spec fn is_first_dot(s: Seq<char>, from: int, at: int) -> bool {
    &&& from <= at <= s.len()
    &&& at < s.len() ==> s[at] == '.'
    &&& forall|i: int| from <= i < at ==> #[trigger] s[i] != '.'
}

/// Where the first three dots of a dotted notation stand, and what is between them.
proof fn dotted_parts(a: u8, b: u8, c: u8, d: u8, p: int, q: int, r: int)
    requires
        is_first_dot(dotted(a, b, c, d), 0, p),
        p < dotted(a, b, c, d).len() ==> is_first_dot(dotted(a, b, c, d), p + 1, q),
        p < dotted(a, b, c, d).len() && q < dotted(a, b, c, d).len() ==> is_first_dot(
            dotted(a, b, c, d),
            q + 1,
            r,
        ),
    ensures
        p < q < r < dotted(a, b, c, d).len(),
        dotted(a, b, c, d).subrange(0, p) == text::decimal(a as nat),
        dotted(a, b, c, d).subrange(p + 1, q) == text::decimal(b as nat),
        dotted(a, b, c, d).subrange(q + 1, r) == text::decimal(c as nat),
        dotted(a, b, c, d).subrange(r + 1, dotted(a, b, c, d).len() as int) == text::decimal(
            d as nat,
        ),
{
    let s = dotted(a, b, c, d);
    let (da, db, dc, dd) = (
        text::decimal(a as nat),
        text::decimal(b as nat),
        text::decimal(c as nat),
        text::decimal(d as nat),
    );
    small_decimals(a as nat);
    small_decimals(b as nat);
    small_decimals(c as nat);
    let la = da.len() as int;
    let lb = la + 1 + db.len();
    let lc = lb + 1 + dc.len();
    assert(s.len() == lc + 1 + dd.len());
    assert(s[la] == '.' && s[lb] == '.' && s[lc] == '.');
    assert(forall|i: int| 0 <= i < la ==> s[i] == da[i]);
    assert(forall|i: int| la < i < lb ==> s[i] == db[i - la - 1]);
    assert(forall|i: int| lb < i < lc ==> s[i] == dc[i - lb - 1]);
    assert(p == la);
    assert(q == lb);
    assert(r == lc);
    assert(s.subrange(0, la) =~= da);
    assert(s.subrange(la + 1, lb) =~= db);
    assert(s.subrange(lb + 1, lc) =~= dc);
    assert(s.subrange(lc + 1, s.len() as int) =~= dd);
}

/// The IPv4 address of which `s` is the notation.
fn parse_dotted(s: &Vec<char>) -> (r: Option<IpAddress>)
    ensures
        is_ipv4_in(s@, r),
{
    let n: usize = s.len();
    let p: usize = find_dot(s, 0);
    let q: usize = if p < n {
        find_dot(s, p + 1)
    } else {
        n
    };
    let t: usize = if p < n && q < n {
        find_dot(s, q + 1)
    } else {
        n
    };
    proof {
        assert forall|a: u8, b: u8, c: u8, d: u8| s@ == #[trigger] dotted(a, b, c, d) implies {
            &&& p < q < t < n
            &&& s@.subrange(0, p as int) == text::decimal(a as nat)
            &&& s@.subrange(p + 1, q as int) == text::decimal(b as nat)
            &&& s@.subrange(q + 1, t as int) == text::decimal(c as nat)
            &&& s@.subrange(t + 1, n as int) == text::decimal(d as nat)
        } by {
            dotted_parts(a, b, c, d, p as int, q as int, t as int);
        }
    }
    if p >= n || q >= n || t >= n {
        return None;
    }
    let first = parse_octet(s, 0, p);
    let second = parse_octet(s, p + 1, q);
    let third = parse_octet(s, q + 1, t);
    let fourth = parse_octet(s, t + 1, n);
    match (first, second, third, fourth) {
        (Some(a), Some(b), Some(c), Some(d)) => {
            assert(s@ =~= dotted(a, b, c, d)) by {
                assert(s@ =~= s@.subrange(0, p as int) + seq!['.'] + s@.subrange(p + 1, q as int)
                    + seq!['.'] + s@.subrange(q + 1, t as int) + seq!['.'] + s@.subrange(
                    t + 1,
                    n as int,
                ));
            }
            Some(IpAddress::V4(a, b, c, d))
        },
        _ => None,
    }
}

/// The address in a base URL such as `http://192.168.1.47:8095`, where there is
/// one in plain notation.
pub fn parse_ip_from_base_url(url_str: &str) -> (r: Option<IpAddress>)
    ensures
        r == base_url_ip(url_str@),
{
    let url = chars_of(url_str);
    let no_http = without_all(&url, &chars_of("http://"));
    let clean = without_all(&no_http, &chars_of("https://"));
    let host = before_first(&clean, ':');
    let ip = parse_dotted(&host);
    proof {
        ipv4_in_is_determined(host@, ip);
    }
    ip
}

/// The first IPv4 address in a list.
pub open spec fn first_ipv4(addresses: Seq<IpAddress>) -> Option<IpAddress>
    decreases addresses.len(),
{
    if addresses.len() == 0 {
        None
    } else if addresses[0] is V4 {
        Some(addresses[0])
    } else {
        first_ipv4(addresses.skip(1))
    }
}

/// The address that a server is contacted at: the one that it announces itself,
/// else its first IPv4 address, else its first address.
pub open spec fn preferred_ip(
    announced: Option<IpAddress>,
    addresses: Seq<IpAddress>,
) -> Option<IpAddress> {
    if announced is Some {
        announced
    } else if first_ipv4(addresses) is Some {
        first_ipv4(addresses)
    } else if addresses.len() > 0 {
        Some(addresses[0])
    } else {
        None
    }
}

/// The address that a server is contacted at.
pub fn select_preferred_ip(txt_ip: Option<IpAddress>, addresses: &[IpAddress]) -> (r: Option<
    IpAddress,
>)
    ensures
        r == preferred_ip(txt_ip, addresses@),
{
    if let Some(ip) = txt_ip {
        return Some(ip);
    }
    let mut k: usize = 0;
    assert(addresses@.skip(0) == addresses@);
    while k < addresses.len()
        invariant
            k <= addresses@.len(),
            txt_ip is None,
            first_ipv4(addresses@) == first_ipv4(addresses@.skip(k as int)),
        decreases addresses@.len() - k,
    {
        if let IpAddress::V4(_, _, _, _) = &addresses[k] {
            return Some(addresses[k].clone());
        }
        assert(addresses@.skip(k as int).skip(1) == addresses@.skip(k + 1));
        k = k + 1;
    }
    if addresses.len() > 0 {
        Some(addresses[0].clone())
    } else {
        None
    }
}

/// Two IPv4 addresses with the same notation are the same address.
pub proof fn ipv4_notation_is_unambiguous(x: IpAddress, y: IpAddress)
    requires
        x is V4,
        y is V4,
        notation(x) == notation(y),
    ensures
        x == y,
{
    if let (IpAddress::V4(a, b, c, d), IpAddress::V4(e, f, g, h)) = (x, y) {
        let p = text::decimal(a as nat).len() as int;
        let q = p + 1 + text::decimal(b as nat).len();
        let r = q + 1 + text::decimal(c as nat).len();
        small_decimals(a as nat);
        small_decimals(b as nat);
        small_decimals(c as nat);
        let s = dotted(a, b, c, d);
        assert(forall|i: int| 0 <= i < p ==> s[i] == text::decimal(a as nat)[i]);
        assert(forall|i: int| p < i < q ==> s[i] == text::decimal(b as nat)[i - p - 1]);
        assert(forall|i: int| q < i < r ==> s[i] == text::decimal(c as nat)[i - q - 1]);
        assert(s[p] == '.' && s[q] == '.' && s[r] == '.');
        dotted_parts(a, b, c, d, p, q, r);
        dotted_parts(e, f, g, h, p, q, r);
        octet_notation_is_unambiguous(a, e);
        octet_notation_is_unambiguous(b, f);
        octet_notation_is_unambiguous(c, g);
        octet_notation_is_unambiguous(d, h);
    }
}

/// Two numbers between 0 and 255 with the same notation are the same.
proof fn octet_notation_is_unambiguous(v: u8, w: u8)
    requires
        text::decimal(v as nat) == text::decimal(w as nat),
    ensures
        v == w,
{
    small_decimals(v as nat);
    small_decimals(w as nat);
    let part = text::decimal(v as nat);
    let digits = if v < 10 {
        seq![v as nat]
    } else if v < 100 {
        seq![v as nat / 10, v as nat % 10]
    } else {
        seq![v as nat / 100, v as nat / 10 % 10, v as nat % 10]
    };
    octet_digits_determine_it(part, digits, v);
    octet_digits_determine_it(part, digits, w);
}

/// A URL made of a scheme, an IPv4 address and a port has that address read from
/// it.
pub proof fn address_in_a_base_url_is_read_back(
    https: bool,
    a: u8,
    b: u8,
    c: u8,
    d: u8,
    port: u16,
)
    ensures
        base_url_ip(
            (if https {
                "https://"@
            } else {
                "http://"@
            }) + dotted(a, b, c, d) + seq![':'] + text::decimal(port as nat),
        ) == Some(IpAddress::V4(a, b, c, d)),
{
    let host = dotted(a, b, c, d);
    let rest = host + seq![':'] + text::decimal(port as nat);
    let scheme = if https {
        "https://"@
    } else {
        "http://"@
    };
    let url = scheme + host + seq![':'] + text::decimal(port as nat);
    reveal_strlit("http://");
    reveal_strlit("https://");
    text::decimals_are_digits(a as nat);
    text::decimals_are_digits(b as nat);
    text::decimals_are_digits(c as nat);
    text::decimals_are_digits(d as nat);
    text::decimals_are_digits(port as nat);
    assert forall|i: int| 0 <= i < host.len() implies #[trigger] host[i] != 'h' && host[i] != ':' by {
        let (da, db, dc, dd) = (
            text::decimal(a as nat),
            text::decimal(b as nat),
            text::decimal(c as nat),
            text::decimal(d as nat),
        );
        let la = da.len() as int;
        let lb = la + 1 + db.len();
        let lc = lb + 1 + dc.len();
        if i < la {
            assert(host[i] == da[i]);
        } else if la < i < lb {
            assert(host[i] == db[i - la - 1]);
        } else if lb < i < lc {
            assert(host[i] == dc[i - lb - 1]);
        } else if lc < i {
            assert(host[i] == dd[i - lc - 1]);
        }
    }
    assert forall|i: int| 0 <= i < rest.len() implies #[trigger] rest[i] != 'h' by {
        if i < host.len() {
            assert(rest[i] == host[i]);
        } else if i > host.len() {
            assert(rest[i] == text::decimal(port as nat)[i - host.len() - 1]);
        }
    }
    assert(url =~= scheme + rest);
    text::without_absent(rest, "https://"@);
    if https {
        assert(!"http://"@.is_prefix_of(url)) by {
            assert(url.subrange(0, 7)[4] == 's');
        }
        let tail = url.skip(1);
        assert forall|i: int| 0 <= i < tail.len() implies #[trigger] tail[i] != 'h' by {
            if i >= 7 {
                assert(tail[i] == rest[i - 7]);
            }
        }
        text::without_absent(tail, "http://"@);
        assert(text::without(url, "http://"@) =~= url) by {
            assert(seq![url[0]] + tail =~= url);
        }
        assert("https://"@.is_prefix_of(url)) by {
            assert(url.subrange(0, 8) =~= "https://"@);
        }
        assert(url.skip(8) =~= rest);
    } else {
        text::without_absent(rest, "http://"@);
        assert("http://"@.is_prefix_of(url)) by {
            assert(url.subrange(0, 7) =~= "http://"@);
        }
        assert(url.skip(7) =~= rest);
    }
    assert(text::without(text::without(url, "http://"@), "https://"@) == rest);
    text::before_the_first(host, ':', text::decimal(port as nat));
    assert(host_part(url) == host);
    ipv4_in_is_determined(host, Some(IpAddress::V4(a, b, c, d)));
}

/// The preferred address is one of those that are known, and there is one as
/// soon as any is known; an IPv6 address is chosen only where the server
/// announces it or has no IPv4 address.
pub proof fn preferred_ip_is_a_known_one(
    announced: Option<IpAddress>,
    addresses: Seq<IpAddress>,
)
    ensures
        preferred_ip(announced, addresses) is None <==> announced is None && addresses.len() == 0,
        announced is Some ==> preferred_ip(announced, addresses) == announced,
        announced is None && addresses.len() > 0 ==> addresses.contains(
            preferred_ip(announced, addresses)->Some_0,
        ),
        announced is None && preferred_ip(announced, addresses) is Some && preferred_ip(
            announced,
            addresses,
        )->Some_0 is V6 ==> forall|i: int| 0 <= i < addresses.len() ==> #[trigger] addresses[i] is V6,
{
    first_ipv4_is_found(addresses);
}

/// The first IPv4 address is in the list, and where there is none, there is none.
proof fn first_ipv4_is_found(addresses: Seq<IpAddress>)
    ensures
        match first_ipv4(addresses) {
            Some(ip) => ip is V4 && addresses.contains(ip),
            None => forall|i: int| 0 <= i < addresses.len() ==> #[trigger] addresses[i] is V6,
        },
    decreases addresses.len(),
{
    if addresses.len() > 0 {
        let rest = addresses.skip(1);
        first_ipv4_is_found(rest);
        assert(addresses.contains(addresses[0]));
        match first_ipv4(rest) {
            Some(ip) => {
                let i = choose|i: int| 0 <= i < rest.len() && rest[i] == ip;
                assert(addresses[i + 1] == ip);
            },
            None => {
                assert forall|i: int| 1 <= i < addresses.len() implies #[trigger] addresses[i] is V6 by {
                    assert(rest[i - 1] is V6);
                }
            },
        }
    }
}

/// A dotted notation is made of digits and dots.
proof fn dotted_is_plain(a: u8, b: u8, c: u8, d: u8)
    ensures
        forall|i: int|
            0 <= i < dotted(a, b, c, d).len() ==> #[trigger] dotted(a, b, c, d)[i] == '.' || (
            '0' as int <= dotted(a, b, c, d)[i] as int <= '9' as int),
{
    text::decimal_reads_back(a as nat);
    text::decimal_reads_back(b as nat);
    text::decimal_reads_back(c as nat);
    text::decimal_reads_back(d as nat);
    let s = dotted(a, b, c, d);
    let (da, db, dc, dd) = (
        text::decimal(a as nat),
        text::decimal(b as nat),
        text::decimal(c as nat),
        text::decimal(d as nat),
    );
    let la = da.len() as int;
    let lb = la + 1 + db.len();
    let lc = lb + 1 + dc.len();
    assert forall|i: int| 0 <= i < s.len() implies #[trigger] s[i] == '.' || ('0' as int
        <= s[i] as int <= '9' as int) by {
        if i < la {
            assert(s[i] == da[i]);
        } else if la < i < lb {
            assert(s[i] == db[i - la - 1]);
        } else if lb < i < lc {
            assert(s[i] == dc[i - lb - 1]);
        } else if lc < i {
            assert(s[i] == dd[i - lc - 1]);
        }
    }
}

/// The notation of an IPv4 address consists of its four numbers, in order, with
/// three dots between them. Where the dots stand is given.
pub proof fn ipv4_notation_reads_back(a: u8, b: u8, c: u8, d: u8, words: String) -> (dots: (
    int,
    int,
    int,
))
    requires
        call_ensures(notation_text, (&IpAddress::V4(a, b, c, d),), words),
    ensures
        0 < dots.0 && dots.0 + 1 < dots.1 && dots.1 + 1 < dots.2 && dots.2 + 1 < words@.len(),
        words@[dots.0] == '.' && words@[dots.1] == '.' && words@[dots.2] == '.',
        forall|i: int|
            0 <= i < words@.len() && i != dots.0 && i != dots.1 && i != dots.2 ==> '0' as int <= (
            #[trigger] words@[i]) as int <= '9' as int,
        text::number_in(words@.subrange(0, dots.0)) == a,
        text::number_in(words@.subrange(dots.0 + 1, dots.1)) == b,
        text::number_in(words@.subrange(dots.1 + 1, dots.2)) == c,
        text::number_in(words@.subrange(dots.2 + 1, words@.len() as int)) == d,
{
    text::decimal_reads_back(a as nat);
    text::decimal_reads_back(b as nat);
    text::decimal_reads_back(c as nat);
    text::decimal_reads_back(d as nat);
    let s = words@;
    let (da, db, dc, dd) = (
        text::decimal(a as nat),
        text::decimal(b as nat),
        text::decimal(c as nat),
        text::decimal(d as nat),
    );
    let p = da.len() as int;
    let q = p + 1 + db.len();
    let r = q + 1 + dc.len();
    assert(s.subrange(0, p) =~= da);
    assert(s.subrange(p + 1, q) =~= db);
    assert(s.subrange(q + 1, r) =~= dc);
    assert(s.subrange(r + 1, s.len() as int) =~= dd);
    assert forall|i: int| 0 <= i < s.len() && i != p && i != q && i != r implies '0' as int <= (
    #[trigger] s[i]) as int <= '9' as int by {
        if i < p {
            assert(s[i] == da[i]);
        } else if i < q {
            assert(s[i] == db[i - p - 1]);
        } else if i < r {
            assert(s[i] == dc[i - q - 1]);
        } else {
            assert(s[i] == dd[i - r - 1]);
        }
    }
    (p, q, r)
}

/// An IPv6 address is written as it is held, and a copy of an address is the same
/// address.
pub proof fn ipv6_notation_is_kept(held: String, words: String, ip: IpAddress, copy: IpAddress)
    requires
        call_ensures(notation_text, (&IpAddress::V6(held),), words),
        call_ensures(IpAddress::clone, (&ip,), copy),
    ensures
        words@ == held@,
        copy == ip,
{
}

/// An address is read from a base URL exactly where the URL, once `http://` and
/// then `https://` are taken out of it, is the notation of that address, either as
/// a whole or up to the first colon. It is never an IPv6 address.
pub proof fn address_is_read_from_the_beginning(
    url: &str,
    r: Option<IpAddress>,
    a: u8,
    b: u8,
    c: u8,
    d: u8,
)
    requires
        call_ensures(parse_ip_from_base_url, (url,), r),
    ensures
        ({
            let clean = text::without(text::without(url@, "http://"@), "https://"@);
            let host = dotted(a, b, c, d);
            r == Some(IpAddress::V4(a, b, c, d)) <==> host.is_prefix_of(clean) && (clean.len()
                == host.len() || clean[host.len() as int] == ':')
        }),
        r matches Some(ip) ==> ip is V4,
{
    let clean = text::without(text::without(url@, "http://"@), "https://"@);
    let host = dotted(a, b, c, d);
    let ip = IpAddress::V4(a, b, c, d);
    let part = text::before(clean, ':');
    text::before_ends_at_the_first(clean, ':');
    dotted_is_plain(a, b, c, d);
    assert(notation(ip) == host);
    if r == Some(ip) {
        assert(exists|other: IpAddress| other is V4 && #[trigger] notation(other) == part);
        let chosen = choose|other: IpAddress| other is V4 && #[trigger] notation(other) == part;
        assert(chosen == ip);
        assert(part == host);
        assert(host =~= clean.subrange(0, host.len() as int));
    }
    if host.is_prefix_of(clean) && (clean.len() == host.len() || clean[host.len() as int] == ':') {
        assert forall|i: int| 0 <= i < host.len() implies host[i] == clean[i] by {
            assert(clean.subrange(0, host.len() as int)[i] == clean[i]);
        }
        if part.len() < host.len() {
            assert(clean[part.len() as int] == ':');
            assert(host[part.len() as int] == ':');
        }
        if part.len() > host.len() {
            assert(part[host.len() as int] == clean[host.len() as int]);
        }
        assert(part =~= host);
        ipv4_in_is_determined(host, Some(ip));
    }
    if let Some(found) = r {
        let chosen = choose|other: IpAddress| other is V4 && #[trigger] notation(other) == part;
        assert(found == chosen);
    }
}

/// Of the addresses of a server the one that it announces itself is preferred,
/// then the first IPv4 address, then the first of all. Only where it has none at
/// all is there none to contact it at.
pub proof fn first_ipv4_address_is_preferred(
    txt_ip: Option<IpAddress>,
    addresses: &[IpAddress],
    r: Option<IpAddress>,
    k: int,
)
    requires
        call_ensures(select_preferred_ip, (txt_ip, addresses), r),
    ensures
        txt_ip is Some ==> r == txt_ip,
        txt_ip is None && addresses@.len() == 0 ==> r is None,
        txt_ip is None && 0 <= k < addresses@.len() && addresses@[k] is V4 && (forall|i: int|
            0 <= i < k ==> #[trigger] addresses@[i] is V6) ==> r == Some(addresses@[k]),
        txt_ip is None && addresses@.len() > 0 && (forall|i: int|
            0 <= i < addresses@.len() ==> #[trigger] addresses@[i] is V6) ==> r == Some(
            addresses@[0],
        ),
{
    preferred_by_place(txt_ip, addresses@, k);
}

/// Which address is preferred, by its place.
pub proof fn preferred_by_place(announced: Option<IpAddress>, addresses: Seq<IpAddress>, k: int)
    ensures
        announced is Some ==> preferred_ip(announced, addresses) == announced,
        announced is None && addresses.len() == 0 ==> preferred_ip(announced, addresses) is None,
        announced is None && 0 <= k < addresses.len() && addresses[k] is V4 && (forall|i: int|
            0 <= i < k ==> #[trigger] addresses[i] is V6) ==> preferred_ip(announced, addresses)
            == Some(addresses[k]),
        announced is None && addresses.len() > 0 && (forall|i: int|
            0 <= i < addresses.len() ==> #[trigger] addresses[i] is V6) ==> preferred_ip(
            announced,
            addresses,
        ) == Some(addresses[0]),
{
    first_ipv4_is_found(addresses);
    if 0 <= k < addresses.len() && addresses[k] is V4 && (forall|i: int|
        0 <= i < k ==> #[trigger] addresses[i] is V6) {
        first_ipv4_by_place(addresses, k);
    }
    if let Some(ip) = first_ipv4(addresses) {
        let i = choose|i: int| 0 <= i < addresses.len() && addresses[i] == ip;
        assert(addresses[i] is V4);
    }
}

/// The first IPv4 address is the one that no other comes before.
proof fn first_ipv4_by_place(addresses: Seq<IpAddress>, k: int)
    requires
        0 <= k < addresses.len(),
        addresses[k] is V4,
        forall|i: int| 0 <= i < k ==> #[trigger] addresses[i] is V6,
    ensures
        first_ipv4(addresses) == Some(addresses[k]),
    decreases addresses.len(),
{
    if k > 0 {
        let rest = addresses.skip(1);
        assert(addresses[0] is V6);
        assert forall|i: int| 0 <= i < k - 1 implies #[trigger] rest[i] is V6 by {
            assert(addresses[i + 1] is V6);
        }
        first_ipv4_by_place(rest, k - 1);
    }
}

} // verus!
