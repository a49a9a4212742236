//! Text as sequences of characters: the few string operations that the other
//! modules are specified and built with.
use vstd::prelude::*;
use vstd::string::*;

verus! {

/// The decimal digit `d`, for `d` below ten.
pub open spec fn digit(d: nat) -> char {
    (d + 48) as char
}

/// The shortest decimal notation of `n`.
pub open spec fn decimal(n: nat) -> Seq<char>
    decreases n,
{
    if n < 10 {
        seq![digit(n)]
    } else {
        decimal(n / 10).push(digit(n % 10))
    }
}

/// The shortest decimal notation of `n`, with a minus sign where it is negative.
pub open spec fn signed_decimal(n: int) -> Seq<char> {
    if n < 0 {
        seq!['-'] + decimal((-n) as nat)
    } else {
        decimal(n as nat)
    }
}

/// What is left of `s` once every occurrence of `pat` is taken out, scanning
/// from the left and never looking at a character twice.
pub open spec fn without(s: Seq<char>, pat: Seq<char>) -> Seq<char>
    decreases s.len(),
{
    if s.len() == 0 || pat.len() == 0 {
        s
    } else if pat.is_prefix_of(s) {
        without(s.skip(pat.len() as int), pat)
    } else {
        seq![s[0]] + without(s.skip(1), pat)
    }
}

/// The part of `s` before the first `c`, or all of `s` where there is none.
pub open spec fn before(s: Seq<char>, c: char) -> Seq<char>
    decreases s.len(),
{
    if s.len() == 0 || s[0] == c {
        seq![]
    } else {
        seq![s[0]] + before(s.skip(1), c)
    }
}

/// What is left of `s` once `suffix` is taken off its end as often as it is there.
pub open spec fn trimmed_end(s: Seq<char>, suffix: Seq<char>) -> Seq<char>
    decreases s.len(),
{
    if suffix.len() > 0 && suffix.is_suffix_of(s) {
        trimmed_end(s.take(s.len() - suffix.len()), suffix)
    } else {
        s
    }
}

/// Whether `a` comes strictly before `b` when texts are ordered by their first
/// differing code point, a proper prefix before what it is a prefix of.
pub open spec fn text_lt(a: Seq<char>, b: Seq<char>) -> bool
    decreases a.len(),
{
    if b.len() == 0 {
        false
    } else if a.len() == 0 {
        true
    } else if a[0] != b[0] {
        (a[0] as int) < (b[0] as int)
    } else {
        text_lt(a.skip(1), b.skip(1))
    }
}

/// The view of a text that may be missing.
pub open spec fn opt_text(t: Option<String>) -> Option<Seq<char>> {
    match t {
        Some(s) => Some(s@),
        None => None,
    }
}

/// The characters of `s`.
pub fn chars_of(s: &str) -> (r: Vec<char>)
    ensures
        r@ == s@,
{
    let mut r: Vec<char> = Vec::new();
    for c in it: s.chars()
        invariant
            it.seq() == s@,
            r@ == s@.take(it.index()),
    {
        r.push(c);
    }
    assert(s@.take(s@.len() as int) == s@);
    r
}

/// `a` and `b`, one after the other.
pub fn join(a: &str, b: &str) -> (r: String)
    ensures
        r@ == a@ + b@,
{
    let mut r = a.to_owned();
    r.append(b);
    r
}

/// `a`, `b` and `c`, one after the other.
pub fn join3(a: &str, b: &str, c: &str) -> (r: String)
    ensures
        r@ == a@ + b@ + c@,
{
    let mut r = a.to_owned();
    r.append(b);
    r.append(c);
    r
}

/// A copy of a text that may be missing.
pub fn clone_text(t: &Option<String>) -> (r: Option<String>)
    ensures
        r == *t,
{
    match t {
        Some(s) => Some(s.clone()),
        None => None,
    }
}

/// Whether `a` and `b` are the same text.
pub fn same_text(a: &str, b: &str) -> (r: bool)
    ensures
        r <==> a@ == b@,
{
    a.to_owned() == b.to_owned()
}

/// The text of one decimal digit.
fn digit_text(d: u64) -> (r: &'static str)
    requires
        d < 10,
    ensures
        r@ == seq![digit(d as nat)],
{
    proof {
        reveal_strlit("0");
        reveal_strlit("1");
        reveal_strlit("2");
        reveal_strlit("3");
        reveal_strlit("4");
        reveal_strlit("5");
        reveal_strlit("6");
        reveal_strlit("7");
        reveal_strlit("8");
        reveal_strlit("9");
    }
    match d {
        0 => "0",
        1 => "1",
        2 => "2",
        3 => "3",
        4 => "4",
        5 => "5",
        6 => "6",
        7 => "7",
        8 => "8",
        _ => "9",
    }
}

/// `n` in decimal notation.
pub fn decimal_text(n: u64) -> (r: String)
    ensures
        r@ == decimal(n as nat),
    decreases n,
{
    if n < 10 {
        digit_text(n).to_owned()
    } else {
        let mut r = decimal_text(n / 10);
        r.append(digit_text(n % 10));
        r
    }
}

/// `n` in decimal notation, with its sign.
pub fn signed_decimal_text(n: i32) -> (r: String)
    ensures
        r@ == signed_decimal(n as int),
{
    if n < 0 {
        proof {
            reveal_strlit("-");
        }
        let magnitude: u64 = (-(n as i64)) as u64;
        join("-", decimal_text(magnitude).as_str())
    } else {
        decimal_text(n as u64)
    }
}

/// Whether `pat` stands in `s` at position `at`.
fn stands_at(s: &Vec<char>, at: usize, pat: &Vec<char>) -> (r: bool)
    requires
        at <= s@.len(),
    ensures
        r <==> pat@.is_prefix_of(s@.skip(at as int)),
{
    if s.len() - at < pat.len() {
        return false;
    }
    let mut k: usize = 0;
    while k < pat.len()
        invariant
            at + pat.len() <= s.len(),
            k <= pat@.len(),
            forall|j: int| 0 <= j < k ==> pat@[j] == s@[at + j],
        decreases pat@.len() - k,
    {
        if s[at + k] != pat[k] {
            assert(s@.skip(at as int).subrange(0, pat@.len() as int)[k as int] != pat@[k as int]);
            return false;
        }
        k = k + 1;
    }
    assert(pat@ =~= s@.skip(at as int).subrange(0, pat@.len() as int));
    true
}

/// `s` with every occurrence of `pat` taken out.
pub fn without_all(s: &Vec<char>, pat: &Vec<char>) -> (r: Vec<char>)
    ensures
        r@ == without(s@, pat@),
{
    let mut r: Vec<char> = Vec::new();
    let mut at: usize = 0;
    assert(s@.skip(0) == s@);
    while at < s.len() && pat.len() > 0
        invariant
            at <= s@.len(),
            without(s@, pat@) == r@ + without(s@.skip(at as int), pat@),
        decreases s@.len() - at,
    {
        let ghost rest = s@.skip(at as int);
        if stands_at(s, at, pat) {
            assert(rest.skip(pat@.len() as int) == s@.skip(at + pat@.len()));
            at = at + pat.len();
        } else {
            assert(rest.skip(1) == s@.skip(at + 1));
            assert(rest[0] == s@[at as int]);
            let ghost kept = r@;
            r.push(s[at]);
            assert(r@ =~= kept + seq![rest[0]]);
            assert(kept + (seq![rest[0]] + without(rest.skip(1), pat@)) =~= r@ + without(
                rest.skip(1),
                pat@,
            ));
            at = at + 1;
        }
    }
    let ghost tail = s@.skip(at as int);
    assert(without(tail, pat@) == tail);
    while at < s.len()
        invariant
            at <= s@.len(),
            without(s@, pat@) == r@ + s@.skip(at as int),
        decreases s@.len() - at,
    {
        let ghost kept = r@;
        r.push(s[at]);
        assert(kept + s@.skip(at as int) =~= r@ + s@.skip(at + 1));
        at = at + 1;
    }
    assert(r@ + s@.skip(at as int) =~= r@);
    r
}

/// The part of `s` before the first `c`.
pub fn before_first(s: &Vec<char>, c: char) -> (r: Vec<char>)
    ensures
        r@ == before(s@, c),
{
    let mut r: Vec<char> = Vec::new();
    let mut at: usize = 0;
    assert(s@.skip(0) == s@);
    assert(r@ + before(s@, c) =~= before(s@, c));
    while at < s.len()
        invariant
            at <= s@.len(),
            before(s@, c) == r@ + before(s@.skip(at as int), c),
        decreases s@.len() - at,
    {
        let ghost rest = s@.skip(at as int);
        if s[at] == c {
            assert(r@ + before(rest, c) =~= r@);
            return r;
        }
        let ghost kept = r@;
        r.push(s[at]);
        assert(rest.skip(1) == s@.skip(at + 1));
        assert(kept + (seq![rest[0]] + before(rest.skip(1), c)) =~= r@ + before(rest.skip(1), c));
        at = at + 1;
    }
    assert(r@ + before(s@.skip(at as int), c) =~= r@);
    r
}

/// `s` with `suffix` taken off its end as often as it is there.
pub fn trim_end_text(s: &str, suffix: &str) -> (r: String)
    ensures
        r@ == trimmed_end(s@, suffix@),
{
    let chars = chars_of(s);
    let tail = chars_of(suffix);
    let mut end: usize = chars.len();
    assert(chars@.take(end as int) == s@);
    while tail.len() > 0 && tail.len() <= end && stands_before(&chars, end, &tail)
        invariant
            chars@ == s@,
            tail@ == suffix@,
            end <= chars@.len(),
            trimmed_end(s@, suffix@) == trimmed_end(s@.take(end as int), suffix@),
        decreases end,
    {
        assert(s@.take(end as int).take(end - tail@.len()) == s@.take(end - tail@.len()));
        end = end - tail.len();
    }
    assert(trimmed_end(s@.take(end as int), suffix@) == s@.take(end as int));
    assert(s@.take(end as int) == s@.subrange(0, end as int));
    s.substring_char(0, end).to_owned()
}

/// Whether `pat` stands in `s` right before position `end`.
fn stands_before(s: &Vec<char>, end: usize, pat: &Vec<char>) -> (r: bool)
    requires
        pat@.len() <= end <= s@.len(),
    ensures
        r <==> pat@.is_suffix_of(s@.take(end as int)),
{
    let at: usize = end - pat.len();
    assert(s@.skip(at as int).subrange(0, pat@.len() as int) =~= s@.take(end as int).subrange(
        at as int,
        end as int,
    ));
    stands_at(s, at, pat)
}

/// Whether `p` has the lower code point.
fn lower_code_point(p: char, q: char) -> (r: bool)
    ensures
        r <==> (p as int) < (q as int),
{
    (p as u32) < (q as u32)
}

/// Whether `a` comes strictly before `b`.
pub fn comes_before(a: &str, b: &str) -> (r: bool)
    ensures
        r <==> text_lt(a@, b@),
{
    let x = chars_of(a);
    let y = chars_of(b);
    let mut at: usize = 0;
    assert(x@.skip(0) == x@ && y@.skip(0) == y@);
    while at < x.len() && at < y.len() && x[at] == y[at]
        invariant
            x@ == a@,
            y@ == b@,
            at <= x@.len(),
            at <= y@.len(),
            text_lt(a@, b@) == text_lt(x@.skip(at as int), y@.skip(at as int)),
        decreases x@.len() - at,
    {
        assert(x@.skip(at as int).skip(1) == x@.skip(at + 1));
        assert(y@.skip(at as int).skip(1) == y@.skip(at + 1));
        at = at + 1;
    }
    if at >= y.len() {
        false
    } else if at >= x.len() {
        true
    } else {
        lower_code_point(x[at], y[at])
    }
}

/// No text comes before itself.
pub proof fn text_lt_irreflexive(a: Seq<char>)
    ensures
        !text_lt(a, a),
    decreases a.len(),
{
    if a.len() > 0 {
        text_lt_irreflexive(a.skip(1));
    }
}

/// The order of texts is transitive.
pub proof fn text_lt_transitive(a: Seq<char>, b: Seq<char>, c: Seq<char>)
    requires
        text_lt(a, b),
        text_lt(b, c),
    ensures
        text_lt(a, c),
    decreases a.len(),
{
    if a.len() > 0 && a[0] == b[0] && b[0] == c[0] {
        text_lt_transitive(a.skip(1), b.skip(1), c.skip(1));
    }
}

/// Of two different texts one comes before the other.
pub proof fn text_lt_total(a: Seq<char>, b: Seq<char>)
    requires
        a != b,
    ensures
        text_lt(a, b) || text_lt(b, a),
    decreases a.len(),
{
    if a.len() > 0 && b.len() > 0 && a[0] == b[0] {
        if a.skip(1) == b.skip(1) {
            assert(a =~= seq![a[0]] + a.skip(1));
            assert(b =~= seq![b[0]] + b.skip(1));
        }
        text_lt_total(a.skip(1), b.skip(1));
    } else if a.len() == 0 && b.len() == 0 {
        assert(a =~= b);
    }
}

/// A decimal notation is made of decimal digits.
pub proof fn decimals_are_digits(n: nat)
    ensures
        decimal(n).len() > 0,
        forall|i: int|
            0 <= i < decimal(n).len() ==> 48 <= (#[trigger] decimal(n)[i]) as int <= 57,
    decreases n,
{
    if n >= 10 {
        decimals_are_digits(n / 10);
    }
}

/// Nothing is taken out of a text that does not hold the first character of what
/// is to be taken out.
pub proof fn without_absent(s: Seq<char>, pat: Seq<char>)
    requires
        pat.len() > 0,
        forall|i: int| 0 <= i < s.len() ==> #[trigger] s[i] != pat[0],
    ensures
        without(s, pat) == s,
    decreases s.len(),
{
    if s.len() > 0 {
        let rest = s.skip(1);
        assert forall|i: int| 0 <= i < rest.len() implies #[trigger] rest[i] != pat[0] by {
            assert(rest[i] == s[i + 1]);
        }
        if pat.is_prefix_of(s) {
            assert(s.subrange(0, pat.len() as int)[0] == s[0]);
        }
        without_absent(rest, pat);
        assert(seq![s[0]] + rest =~= s);
    }
}

/// What comes before the first `c` in a text that starts with `a` and goes on
/// with `c`, for an `a` without `c`.
pub proof fn before_the_first(a: Seq<char>, c: char, b: Seq<char>)
    requires
        forall|i: int| 0 <= i < a.len() ==> #[trigger] a[i] != c,
    ensures
        before(a + seq![c] + b, c) == a,
    decreases a.len(),
{
    let s = a + seq![c] + b;
    if a.len() == 0 {
        assert(s[0] == c);
        assert(before(s, c) =~= a);
    } else {
        let rest = a.skip(1);
        assert forall|i: int| 0 <= i < rest.len() implies #[trigger] rest[i] != c by {
            assert(rest[i] == a[i + 1]);
        }
        before_the_first(rest, c, b);
        assert(s.skip(1) =~= rest + seq![c] + b);
        assert(s[0] == a[0]);
        assert(seq![a[0]] + rest =~= a);
    }
}

/// A trimmed text does not end with what was trimmed, and is a beginning of what
/// it was.
pub proof fn trimmed_end_is_trimmed(s: Seq<char>, suffix: Seq<char>)
    requires
        suffix.len() > 0,
    ensures
        !suffix.is_suffix_of(trimmed_end(s, suffix)),
        trimmed_end(s, suffix).is_prefix_of(s),
    decreases s.len(),
{
    if suffix.is_suffix_of(s) {
        let rest = s.take(s.len() - suffix.len());
        trimmed_end_is_trimmed(rest, suffix);
        let end = trimmed_end(rest, suffix);
        assert(rest.subrange(0, end.len() as int) =~= s.subrange(0, end.len() as int));
    } else {
        assert(s.subrange(0, s.len() as int) =~= s);
    }
}

/// The number that a row of digits stands for, read from the left.
pub open spec fn number_in(digits: Seq<char>) -> int
    decreases digits.len(),
{
    if digits.len() == 0 {
        0
    } else {
        10 * number_in(digits.drop_last()) + (digits.last() as int - '0' as int)
    }
}

/// A decimal notation consists of digits, stands for the number, and has no
/// needless zero in front.
pub proof fn decimal_reads_back(n: nat)
    ensures
        number_in(decimal(n)) == n,
        decimal(n).len() > 0,
        forall|i: int|
            0 <= i < decimal(n).len() ==> '0' as int <= (#[trigger] decimal(n)[i]) as int
                <= '9' as int,
        decimal(n)[0] == '0' ==> n == 0 && decimal(n).len() == 1,
    decreases n,
{
    if n < 10 {
        assert(decimal(n).drop_last() =~= Seq::<char>::empty());
        assert(number_in(decimal(n).drop_last()) == 0);
    } else {
        decimal_reads_back(n / 10);
        assert(decimal(n).drop_last() =~= decimal(n / 10));
    }
}

/// A signed notation is that of the magnitude, with a minus sign in front exactly
/// where the number is negative.
pub proof fn signed_decimal_reads_back(n: int)
    ensures
        n >= 0 ==> number_in(signed_decimal(n)) == n && signed_decimal(n)[0] != '-',
        n < 0 ==> signed_decimal(n)[0] == '-' && number_in(signed_decimal(n).skip(1)) == -n,
{
    if n < 0 {
        decimal_reads_back((-n) as nat);
        assert(signed_decimal(n).skip(1) =~= decimal((-n) as nat));
    } else {
        decimal_reads_back(n as nat);
    }
}

/// Numbers in decimal notation read as numbers.
pub proof fn written_numbers_read_back(n: u64, m: i32, plain: String, signed: String)
    requires
        call_ensures(decimal_text, (n,), plain),
        call_ensures(signed_decimal_text, (m,), signed),
    ensures
        number_in(plain@) == n,
        m >= 0 ==> number_in(signed@) == m,
        m < 0 ==> signed@[0] == '-' && number_in(signed@.skip(1)) == -m,
{
    decimal_reads_back(n as nat);
    signed_decimal_reads_back(m as int);
}

/// What comes before the first `c` is a beginning without `c`, and after it `c`
/// follows, or nothing.
pub proof fn before_ends_at_the_first(s: Seq<char>, c: char)
    ensures
        before(s, c).len() <= s.len(),
        forall|i: int| 0 <= i < before(s, c).len() ==> #[trigger] before(s, c)[i] == s[i],
        forall|i: int| 0 <= i < before(s, c).len() ==> #[trigger] before(s, c)[i] != c,
        before(s, c).len() < s.len() ==> s[before(s, c).len() as int] == c,
    decreases s.len(),
{
    if s.len() > 0 && s[0] != c {
        let rest = before(s.skip(1), c);
        before_ends_at_the_first(s.skip(1), c);
        assert forall|i: int| 0 <= i < before(s, c).len() implies #[trigger] before(s, c)[i] == s[i]
            && before(s, c)[i] != c by {
            if i > 0 {
                assert(before(s, c)[i] == rest[i - 1]);
                assert(s.skip(1)[i - 1] == s[i]);
            }
        }
        if before(s, c).len() < s.len() {
            assert(s.skip(1)[rest.len() as int] == c);
        }
    }
}

/// The part before the first `c` is a beginning without `c`, and after it `c`
/// follows, or nothing.
pub proof fn part_before_ends_at_the_first(s: Vec<char>, c: char, part: Vec<char>)
    requires
        call_ensures(before_first, (&s, c), part),
    ensures
        part@.is_prefix_of(s@),
        !part@.contains(c),
        part@.len() < s@.len() ==> s@[part@.len() as int] == c,
{
    before_ends_at_the_first(s@, c);
    assert(part@ =~= s@.subrange(0, part@.len() as int));
}

/// Whether `pat` stands in `s` at `at`.
pub open spec fn is_at(s: Seq<char>, at: int, pat: Seq<char>) -> bool {
    &&& 0 <= at
    &&& at + pat.len() <= s.len()
    &&& forall|k: int| 0 <= k < pat.len() ==> #[trigger] pat[k] == s[at + k]
}

/// A pattern is a prefix of a text exactly where it stands at the beginning.
proof fn prefix_stands_first(s: Seq<char>, pat: Seq<char>)
    ensures
        pat.is_prefix_of(s) <==> is_at(s, 0, pat),
{
    if pat.is_prefix_of(s) {
        assert forall|k: int| 0 <= k < pat.len() implies #[trigger] pat[k] == s[0 + k] by {
            assert(s.subrange(0, pat.len() as int)[k] == s[k]);
        }
    }
    if is_at(s, 0, pat) {
        assert forall|k: int| 0 <= k < pat.len() implies pat[k] == s[k] by {
            assert(pat[k] == s[0 + k]);
        }
        assert(pat =~= s.subrange(0, pat.len() as int));
    }
}

/// What stands at a place of a text stands one place earlier once its first
/// character is left out.
proof fn stands_earlier_in_the_rest(s: Seq<char>, at: int, pat: Seq<char>)
    requires
        s.len() > 0,
        at > 0,
    ensures
        is_at(s, at, pat) <==> is_at(s.skip(1), at - 1, pat),
{
    let rest = s.skip(1);
    if is_at(s, at, pat) {
        assert forall|k: int| 0 <= k < pat.len() implies #[trigger] pat[k] == rest[at - 1 + k] by {
            assert(pat[k] == s[at + k]);
        }
    }
    if is_at(rest, at - 1, pat) {
        assert forall|k: int| 0 <= k < pat.len() implies #[trigger] pat[k] == s[at + k] by {
            assert(pat[k] == rest[at - 1 + k]);
        }
    }
}

/// Taking a pattern out takes out its first occurrence, keeps what is before it,
/// and goes on in the same way with what is after it.
pub proof fn first_occurrence_is_taken_out(s: Seq<char>, pat: Seq<char>, at: int)
    requires
        pat.len() > 0,
        is_at(s, at, pat),
        forall|i: int| 0 <= i < at ==> !#[trigger] is_at(s, i, pat),
    ensures
        without(s, pat) == s.take(at) + without(s.skip(at + pat.len()), pat),
    decreases s.len(),
{
    prefix_stands_first(s, pat);
    if at == 0 {
        assert(s.take(0) + without(s.skip(pat.len() as int), pat) =~= without(
            s.skip(pat.len() as int),
            pat,
        ));
    } else {
        let rest = s.skip(1);
        assert(!is_at(s, 0, pat));
        stands_earlier_in_the_rest(s, at, pat);
        assert forall|i: int| 0 <= i < at - 1 implies !#[trigger] is_at(rest, i, pat) by {
            stands_earlier_in_the_rest(s, i + 1, pat);
            assert(!is_at(s, i + 1, pat));
        }
        first_occurrence_is_taken_out(rest, pat, at - 1);
        assert(rest.skip(at - 1 + pat.len()) =~= s.skip(at + pat.len()));
        assert(seq![s[0]] + rest.take(at - 1) =~= s.take(at));
        assert(seq![s[0]] + (rest.take(at - 1) + without(s.skip(at + pat.len()), pat)) =~= s.take(
            at,
        ) + without(s.skip(at + pat.len()), pat));
    }
}

/// A text in which a pattern does not occur is kept as it is.
pub proof fn text_without_occurrence_is_kept(s: Seq<char>, pat: Seq<char>)
    requires
        pat.len() > 0,
        forall|i: int| 0 <= i ==> !#[trigger] is_at(s, i, pat),
    ensures
        without(s, pat) == s,
    decreases s.len(),
{
    if s.len() > 0 {
        let rest = s.skip(1);
        prefix_stands_first(s, pat);
        assert(!is_at(s, 0, pat));
        assert forall|i: int| 0 <= i implies !#[trigger] is_at(rest, i, pat) by {
            stands_earlier_in_the_rest(s, i + 1, pat);
            assert(!is_at(s, i + 1, pat));
        }
        text_without_occurrence_is_kept(rest, pat);
        assert(seq![s[0]] + rest =~= s);
    }
}

/// Whatever a text ends with once too often is trimmed off, and nothing else is.
pub proof fn trimming_takes_off_the_suffix(s: Seq<char>, suffix: Seq<char>)
    requires
        suffix.len() > 0,
    ensures
        trimmed_end(s + suffix, suffix) == trimmed_end(s, suffix),
        !suffix.is_suffix_of(s) ==> trimmed_end(s, suffix) == s,
{
    let whole = s + suffix;
    assert(whole.subrange(s.len() as int, whole.len() as int) =~= suffix);
    assert(whole.take(s.len() as int) =~= s);
}

/// `suffix` written `n` times.
pub open spec fn repeated(suffix: Seq<char>, n: nat) -> Seq<char>
    decreases n,
{
    if n == 0 {
        seq![]
    } else {
        repeated(suffix, (n - 1) as nat) + suffix
    }
}

/// A text is its trimmed form with what was trimmed some times behind it, and the
/// trimmed form does not end with it any more.
pub proof fn trimmed_text_lacks_copies_alone(s: &str, suffix: &str, trimmed: String)
    requires
        call_ensures(trim_end_text, (s, suffix), trimmed),
        suffix@.len() > 0,
    ensures
        exists|n: nat| s@ == trimmed@ + #[trigger] repeated(suffix@, n),
        !suffix@.is_suffix_of(trimmed@),
{
    trimmed_end_is_trimmed(s@, suffix@);
    copies_were_trimmed(s@, suffix@);
}

/// What is trimmed off is made of copies.
pub proof fn copies_were_trimmed(s: Seq<char>, suffix: Seq<char>)
    requires
        suffix.len() > 0,
    ensures
        exists|n: nat| s == trimmed_end(s, suffix) + #[trigger] repeated(suffix, n),
    decreases s.len(),
{
    if suffix.is_suffix_of(s) {
        let rest = s.take(s.len() - suffix.len());
        copies_were_trimmed(rest, suffix);
        let n = choose|n: nat| rest == trimmed_end(rest, suffix) + #[trigger] repeated(suffix, n);
        assert(s =~= rest + suffix);
        assert(s =~= trimmed_end(s, suffix) + repeated(suffix, n + 1));
    } else {
        assert(s =~= trimmed_end(s, suffix) + repeated(suffix, 0));
    }
}

/// Whether `a` and `b` agree up to `at`, and `a` then ends or has the lower code
/// point there.
pub open spec fn is_lower_from(a: Seq<char>, b: Seq<char>, at: int) -> bool {
    &&& 0 <= at <= a.len()
    &&& at < b.len()
    &&& forall|i: int| 0 <= i < at ==> #[trigger] a[i] == b[i]
    &&& at < a.len() ==> (a[at] as int) < (b[at] as int)
}

/// One text comes before another exactly where they agree up to some place at
/// which the first ends or has the lower code point.
pub proof fn first_difference_decides(a: &str, b: &str, r: bool)
    requires
        call_ensures(comes_before, (a, b), r),
    ensures
        r <==> exists|at: int| #[trigger] is_lower_from(a@, b@, at),
{
    text_order_by_first_difference(a@, b@);
}

/// The order of texts is decided by the first difference.
pub proof fn text_order_by_first_difference(a: Seq<char>, b: Seq<char>)
    ensures
        text_lt(a, b) <==> exists|at: int| #[trigger] is_lower_from(a, b, at),
    decreases a.len(),
{
    if b.len() == 0 {
    } else if a.len() == 0 {
        assert(is_lower_from(a, b, 0));
    } else if a[0] != b[0] {
        if (a[0] as int) < (b[0] as int) {
            assert(is_lower_from(a, b, 0));
        } else if exists|at: int| #[trigger] is_lower_from(a, b, at) {
            let at = choose|at: int| #[trigger] is_lower_from(a, b, at);
            if at > 0 {
                assert(a[0] == b[0]);
            }
        }
    } else {
        let (x, y) = (a.skip(1), b.skip(1));
        text_order_by_first_difference(x, y);
        if text_lt(x, y) {
            let at = choose|at: int| #[trigger] is_lower_from(x, y, at);
            assert forall|i: int| 0 <= i < at + 1 implies #[trigger] a[i] == b[i] by {
                if i > 0 {
                    assert(x[i - 1] == y[i - 1]);
                }
            }
            assert(is_lower_from(a, b, at + 1));
        }
        if exists|at: int| #[trigger] is_lower_from(a, b, at) {
            let at = choose|at: int| #[trigger] is_lower_from(a, b, at);
            assert forall|i: int| 0 <= i < at - 1 implies #[trigger] x[i] == y[i] by {
                assert(a[i + 1] == b[i + 1]);
            }
            assert(is_lower_from(x, y, at - 1));
        }
    }
}

/// Joining keeps every text as it is, in order; a copy and a comparison are of
/// the whole text.
pub proof fn joined_texts_are_whole(
    a: &str,
    b: &str,
    c: &str,
    two: String,
    three: String,
    same: bool,
)
    requires
        call_ensures(join, (a, b), two),
        call_ensures(join3, (a, b, c), three),
        call_ensures(same_text, (a, b), same),
    ensures
        two@.len() == a@.len() + b@.len(),
        two@.take(a@.len() as int) == a@ && two@.skip(a@.len() as int) == b@,
        three@.take(two@.len() as int) == two@ && three@.skip(two@.len() as int) == c@,
        same <==> a@ == b@,
{
    assert(two@.take(a@.len() as int) =~= a@ && two@.skip(a@.len() as int) =~= b@);
    assert(three@.take(two@.len() as int) =~= two@ && three@.skip(two@.len() as int) =~= c@);
}

} // verus!
