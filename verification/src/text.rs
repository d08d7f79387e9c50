//! Character-level helpers for strings.

use vstd::prelude::*;
use vstd::std_specs::iter::IteratorSpec;
use vstd::string::*;

verus! {

/// `String::push`: the character is appended.
#[verifier::external_body]
pub(crate) fn push_char(s: &mut String, c: char)
    ensures
        final(s)@ == old(s)@.push(c),
{
    s.push(c)
}

/// Whether two strings hold the same characters.
pub fn same_text(a: &str, b: &str) -> (r: bool)
    ensures
        r == (a@ == b@),
{
    let x = a.to_owned();
    let y = b.to_owned();
    x == y
}

/// The characters of a string.
pub fn chars_of(s: &str) -> (r: Vec<char>)
    ensures
        r@ == s@,
{
    let mut out: Vec<char> = Vec::new();
    for c in it: s.chars()
        invariant
            it.seq() == s@,
            out@ == s@.subrange(0, it.index() as int),
    {
        out.push(c);
        assert(s@.subrange(0, it.index() + 1) == s@.subrange(0, it.index() as int).push(
            s@[it.index() as int],
        ));
    }
    assert(s@.subrange(0, s@.len() as int) == s@);
    out
}

/// The string made of the characters `v[from..to]`.
pub fn text_of(v: &Vec<char>, from: usize, to: usize) -> (r: String)
    requires
        from <= to <= v.len(),
    ensures
        r@ == v@.subrange(from as int, to as int),
{
    let mut out = String::new();
    let mut i: usize = from;
    while i < to
        invariant
            from <= i <= to <= v.len(),
            out@ == v@.subrange(from as int, i as int),
        decreases to - i,
    {
        push_char(&mut out, v[i]);
        i += 1;
        assert(v@.subrange(from as int, i as int) == v@.subrange(from as int, i - 1).push(v@[i - 1]));
    }
    out
}

/// Whether `s` begins with `prefix`.
pub open spec fn has_prefix(s: Seq<char>, prefix: Seq<char>) -> bool {
    prefix.len() <= s.len() && s.subrange(0, prefix.len() as int) == prefix
}

/// Whether `s` holds `part` at position `at`.
pub open spec fn holds_at(s: Seq<char>, part: Seq<char>, at: int) -> bool {
    0 <= at && at + part.len() <= s.len() && s.subrange(at, at + part.len()) == part
}

/// Whether `part` occurs somewhere in `s`.
pub open spec fn contains_text(s: Seq<char>, part: Seq<char>) -> bool {
    exists|at: int| holds_at(s, part, at)
}

/// Whether `v` holds `part` at position `at`.
pub fn occurs_at(v: &Vec<char>, part: &Vec<char>, at: usize) -> (r: bool)
    ensures
        r == holds_at(v@, part@, at as int),
{
    if part.len() > v.len() || at > v.len() - part.len() {
        return false;
    }
    let mut k: usize = 0;
    while k < part.len()
        invariant
            k <= part.len(),
            at + part.len() <= v.len(),
            forall|j: int| 0 <= j < k ==> v@[at + j] == part@[j],
        decreases part.len() - k,
    {
        if v[at + k] != part[k] {
            assert(v@.subrange(at as int, at + part.len())[k as int] != part@[k as int]);
            return false;
        }
        k += 1;
    }
    assert(v@.subrange(at as int, at + part.len()) =~= part@);
    true
}

/// Whether `s` begins with `prefix`.
pub fn starts_with(s: &str, prefix: &str) -> (r: bool)
    ensures
        r == has_prefix(s@, prefix@),
{
    let v = chars_of(s);
    let p = chars_of(prefix);
    occurs_at(&v, &p, 0)
}

/// The first position at or after `from` where `part` occurs in `v`.
pub fn find_from(v: &Vec<char>, part: &Vec<char>, from: usize) -> (r: Option<usize>)
    ensures
        match r {
            Some(at) => from <= at && holds_at(v@, part@, at as int) && forall|j: int|
                from <= j < at ==> !holds_at(v@, part@, j),
            None => forall|j: int| from <= j ==> !holds_at(v@, part@, j),
        },
{
    if part.len() > v.len() || from > v.len() - part.len() {
        return None;
    }
    let last: usize = v.len() - part.len();
    let mut at: usize = from;
    loop
        invariant
            part.len() <= v.len(),
            last == v.len() - part.len(),
            from <= at <= last,
            forall|j: int| from <= j < at ==> !holds_at(v@, part@, j),
        decreases last - at,
    {
        if occurs_at(v, part, at) {
            return Some(at);
        }
        if at == last {
            return None;
        }
        at += 1;
    }
}

/// Whether `part` occurs somewhere in `s`.
pub fn contains(s: &str, part: &str) -> (r: bool)
    ensures
        r == contains_text(s@, part@),
{
    let v = chars_of(s);
    let p = chars_of(part);
    find_from(&v, &p, 0).is_some()
}

/// The characters of each string.
pub open spec fn texts(parts: Seq<String>) -> Seq<Seq<char>> {
    parts.map_values(|s: String| s@)
}

/// The characters of each line.
pub open spec fn line_texts(lines: Seq<&str>) -> Seq<Seq<char>> {
    lines.map_values(|l: &str| l@)
}

/// The texts joined with `sep` between them.
pub open spec fn joined(parts: Seq<Seq<char>>, sep: Seq<char>) -> Seq<char>
    decreases parts.len(),
{
    if parts.len() == 0 {
        Seq::empty()
    } else if parts.len() == 1 {
        parts[0]
    } else {
        joined(parts.drop_last(), sep) + sep + parts.last()
    }
}

/// The texts joined with `sep` between them.
pub fn join(parts: &Vec<String>, sep: &str) -> (r: String)
    ensures
        r@ == joined(texts(parts@), sep@),
{
    let mut out = String::new();
    let mut i: usize = 0;
    while i < parts.len()
        invariant
            i <= parts.len(),
            out@ == joined(texts(parts@).take(i as int), sep@),
        decreases parts.len() - i,
    {
        if i > 0 {
            out.append(sep);
        }
        out.append(parts[i].as_str());
        proof {
            let next = texts(parts@).take(i + 1);
            assert(next.drop_last() == texts(parts@).take(i as int));
            assert(next.last() == parts@[i as int]@);
            if i == 0 {
                assert(out@ =~= parts@[0]@);
            }
        }
        i += 1;
    }
    assert(texts(parts@).take(parts.len() as int) == texts(parts@));
    out
}

/// What `str::to_lowercase` returns for a text.
pub uninterp spec fn lowercased(s: Seq<char>) -> Seq<char>;

/// `str::to_lowercase`: the lowercase equivalent of the text.
#[verifier::external_body]
pub(crate) fn lowercase(s: &str) -> (r: String)
    ensures
        r@ == lowercased(s@),
{
    s.to_lowercase()
}

/// The character of a decimal digit.
pub open spec fn digit(d: nat) -> char {
    if d == 0 {
        '0'
    } else if d == 1 {
        '1'
    } else if d == 2 {
        '2'
    } else if d == 3 {
        '3'
    } else if d == 4 {
        '4'
    } else if d == 5 {
        '5'
    } else if d == 6 {
        '6'
    } else if d == 7 {
        '7'
    } else if d == 8 {
        '8'
    } else {
        '9'
    }
}

/// A natural number in decimal notation.
pub open spec fn decimal_digits(n: nat) -> Seq<char>
    decreases n,
{
    if n < 10 {
        seq![digit(n)]
    } else {
        decimal_digits(n / 10).push(digit(n % 10))
    }
}

fn digit_char(d: usize) -> (r: char)
    requires
        d < 10,
    ensures
        r == digit(d as nat),
{
    if d == 0 {
        '0'
    } else if d == 1 {
        '1'
    } else if d == 2 {
        '2'
    } else if d == 3 {
        '3'
    } else if d == 4 {
        '4'
    } else if d == 5 {
        '5'
    } else if d == 6 {
        '6'
    } else if d == 7 {
        '7'
    } else if d == 8 {
        '8'
    } else {
        '9'
    }
}

/// A number in decimal notation.
pub fn number_text(n: usize) -> (r: String)
    ensures
        r@ == decimal_digits(n as nat),
    decreases n,
{
    if n < 10 {
        let mut out = String::new();
        push_char(&mut out, digit_char(n));
        assert(out@ =~= seq![digit(n as nat)]);
        out
    } else {
        let mut out = number_text(n / 10);
        push_char(&mut out, digit_char(n % 10));
        out
    }
}

/// Whether `a` comes before `b` in the order of strings: character by
/// character by code point, a proper prefix first.
pub open spec fn precedes(a: Seq<char>, b: Seq<char>) -> bool
    decreases a.len(),
{
    if b.len() == 0 {
        false
    } else if a.len() == 0 {
        true
    } else if a[0] != b[0] {
        (a[0] as int) < (b[0] as int)
    } else {
        precedes(a.drop_first(), b.drop_first())
    }
}

/// Of two different texts one comes before the other.
pub proof fn lemma_precedes_total(a: Seq<char>, b: Seq<char>)
    ensures
        a == b || precedes(a, b) || precedes(b, a),
        !(precedes(a, b) && precedes(b, a)),
    decreases a.len(),
{
    if a.len() == 0 || b.len() == 0 {
        if a.len() == 0 && b.len() == 0 {
            assert(a =~= b);
        }
    } else if a[0] == b[0] {
        lemma_precedes_total(a.drop_first(), b.drop_first());
        if a.drop_first() == b.drop_first() {
            assert(a =~= seq![a[0]] + a.drop_first());
            assert(b =~= seq![b[0]] + b.drop_first());
        }
    }
}

/// The order of strings is transitive.
pub proof fn lemma_precedes_transitive(a: Seq<char>, b: Seq<char>, c: Seq<char>)
    requires
        precedes(a, b),
        precedes(b, c),
    ensures
        precedes(a, c),
    decreases a.len(),
{
    if a.len() > 0 && a[0] == b[0] && b[0] == c[0] {
        lemma_precedes_transitive(a.drop_first(), b.drop_first(), c.drop_first());
    }
}

/// Whether `a` comes before `b` in the order of strings.
pub fn comes_before(a: &str, b: &str) -> (r: bool)
    ensures
        r == precedes(a@, b@),
{
    let x = chars_of(a);
    let y = chars_of(b);
    let mut i: usize = 0;
    assert(x@.skip(0) == x@ && y@.skip(0) == y@);
    loop
        invariant
            x@ == a@,
            y@ == b@,
            i <= x.len(),
            i <= y.len(),
            precedes(x@, y@) == precedes(x@.skip(i as int), y@.skip(i as int)),
        decreases x.len() - i,
    {
        if i >= y.len() {
            return false;
        }
        if i >= x.len() {
            return true;
        }
        proof {
            assert(x@.skip(i as int).drop_first() == x@.skip(i + 1));
            assert(y@.skip(i as int).drop_first() == y@.skip(i + 1));
        }
        if x[i] != y[i] {
            return x[i] < y[i];
        }
        i += 1;
    }
}

/// Each text comes before all that follow it.
pub open spec fn strictly_sorted(v: Seq<String>) -> bool {
    forall|i: int, j: int| 0 <= i < j < v.len() ==> precedes(#[trigger] v[i]@, #[trigger] v[j]@)
}

/// Whether one of the strings holds the text `name`.
pub open spec fn lists(v: Seq<String>, name: Seq<char>) -> bool {
    exists|k: int| 0 <= k < v.len() && #[trigger] v[k]@ == name
}

/// Puts a string at its place in a sorted list, unless the list holds it
/// already.
pub fn insert_sorted(v: &mut Vec<String>, s: String)
    requires
        strictly_sorted(old(v)@),
    ensures
        strictly_sorted(final(v)@),
        forall|name: Seq<char>| lists(final(v)@, name) <==> (lists(old(v)@, name) || name == s@),
{
    let mut i: usize = 0;
    while i < v.len() && comes_before(v[i].as_str(), s.as_str())
        invariant
            i <= v.len(),
            *v == *old(v),
            forall|k: int| 0 <= k < i ==> precedes(#[trigger] v@[k]@, s@),
        decreases v.len() - i,
    {
        i += 1;
    }
    let ghost before = v@;
    if i < v.len() && same_text(v[i].as_str(), s.as_str()) {
        assert forall|name: Seq<char>| lists(v@, name) <==> (lists(before, name) || name
            == s@) by {
            if name == s@ {
                assert(v@[i as int]@ == name);
            }
        }
        return ;
    }
    proof {
        if i < v.len() {
            lemma_precedes_total(v@[i as int]@, s@);
            assert forall|k: int| i <= k < v.len() implies precedes(s@, #[trigger] v@[k]@) by {
                if k > i {
                    lemma_precedes_transitive(s@, v@[i as int]@, v@[k]@);
                }
            }
        }
    }
    v.insert(i, s);
    proof {
        assert(v@ == before.insert(i as int, s));
        assert(v@.len() == before.len() + 1);
        assert(forall|k: int| 0 <= k < i ==> v@[k] == before[k]);
        assert(v@[i as int] == s);
        assert(forall|k: int| i < k < v@.len() ==> v@[k] == before[k - 1]);
        assert forall|a: int, b: int| 0 <= a < b < v@.len() implies precedes(
            #[trigger] v@[a]@,
            #[trigger] v@[b]@,
        ) by {
            if a < i && b > i {
                assert(v@[a] == before[a] && v@[b] == before[b - 1]);
            } else if a < i && b < i {
                assert(v@[a] == before[a] && v@[b] == before[b]);
            } else if a > i {
                assert(v@[a] == before[a - 1] && v@[b] == before[b - 1]);
            } else if a == i {
                assert(v@[b] == before[b - 1]);
            } else {
                assert(v@[a] == before[a]);
            }
        }
        assert forall|name: Seq<char>| lists(v@, name) <==> (lists(before, name) || name
            == s@) by {
            if lists(v@, name) {
                let k = choose|k: int| 0 <= k < v@.len() && #[trigger] v@[k]@ == name;
                if k < i {
                    assert(before[k]@ == name);
                } else if k > i {
                    assert(before[k - 1]@ == name);
                }
            }
            if lists(before, name) {
                let k = choose|k: int| 0 <= k < before.len() && #[trigger] before[k]@ == name;
                if k < i {
                    assert(v@[k]@ == name);
                } else {
                    assert(v@[k + 1]@ == name);
                }
            }
            if name == s@ {
                assert(v@[i as int]@ == name);
            }
        }
    }
}

/// An integer in decimal notation, with a minus sign where it is negative.
pub open spec fn signed_digits(n: int) -> Seq<char> {
    if n < 0 {
        seq!['-'] + decimal_digits((-n) as nat)
    } else {
        decimal_digits(n as nat)
    }
}

/// An integer in decimal notation.
pub fn signed_number_text(n: i32) -> (r: String)
    ensures
        r@ == signed_digits(n as int),
{
    if n < 0 {
        let mut out = String::new();
        push_char(&mut out, '-');
        let magnitude: usize = if n == i32::MIN {
            2147483648usize
        } else {
            (-n) as usize
        };
        out.append(number_text(magnitude).as_str());
        assert(out@ =~= seq!['-'] + decimal_digits((-n) as nat));
        out
    } else {
        number_text(n as usize)
    }
}

/// Whether `char::is_whitespace` holds of a character: whether it has the
/// Unicode property White_Space.
pub uninterp spec fn is_space(c: char) -> bool;

/// `char::is_whitespace`.
#[verifier::external_body]
pub(crate) fn is_whitespace(c: char) -> (r: bool)
    ensures
        r == is_space(c),
{
    c.is_whitespace()
}

/// The number of whitespace characters that `s` begins with.
pub open spec fn leading_spaces(s: Seq<char>) -> int
    decreases s.len(),
{
    if s.len() == 0 || !is_space(s[0]) {
        0
    } else {
        1 + leading_spaces(s.drop_first())
    }
}

/// The number of whitespace characters that `s` ends with.
pub open spec fn trailing_spaces(s: Seq<char>) -> int
    decreases s.len(),
{
    if s.len() == 0 || !is_space(s.last()) {
        0
    } else {
        1 + trailing_spaces(s.drop_last())
    }
}

/// `s` without the whitespace at its end.
pub open spec fn trimmed_end(s: Seq<char>) -> Seq<char> {
    s.subrange(0, s.len() - trailing_spaces(s))
}

/// `s` without the whitespace at its start.
pub open spec fn trimmed_start(s: Seq<char>) -> Seq<char> {
    s.subrange(leading_spaces(s), s.len() as int)
}

/// `s` without the whitespace at its start and at its end.
pub open spec fn trimmed(s: Seq<char>) -> Seq<char> {
    trimmed_end(trimmed_start(s))
}

/// The position in `v[from..to]` after its leading whitespace.
pub fn skip_spaces(v: &Vec<char>, from: usize, to: usize) -> (r: usize)
    requires
        from <= to <= v.len(),
    ensures
        from <= r <= to,
        r - from == leading_spaces(v@.subrange(from as int, to as int)),
{
    let mut i: usize = from;
    let ghost s = v@.subrange(from as int, to as int);
    assert(s.skip(0) == s);
    while i < to && is_whitespace(v[i])
        invariant
            from <= i <= to <= v.len(),
            s == v@.subrange(from as int, to as int),
            leading_spaces(s) == (i - from) + leading_spaces(s.skip(i - from)),
        decreases to - i,
    {
        proof {
            assert(s.skip(i - from)[0] == v@[i as int]);
            assert(s.skip(i - from).drop_first() == s.skip(i - from + 1));
        }
        i += 1;
    }
    proof {
        if i < to {
            assert(s.skip(i - from)[0] == v@[i as int]);
        }
    }
    i
}

/// The position in `v[from..to]` before its trailing whitespace.
pub fn skip_spaces_back(v: &Vec<char>, from: usize, to: usize) -> (r: usize)
    requires
        from <= to <= v.len(),
    ensures
        from <= r <= to,
        to - r == trailing_spaces(v@.subrange(from as int, to as int)),
{
    let mut i: usize = to;
    let ghost s = v@.subrange(from as int, to as int);
    assert(s.take(s.len() as int) == s);
    while i > from && is_whitespace(v[i - 1])
        invariant
            from <= i <= to <= v.len(),
            s == v@.subrange(from as int, to as int),
            trailing_spaces(s) == (to - i) + trailing_spaces(s.take(i - from)),
        decreases i - from,
    {
        proof {
            assert(s.take(i - from).last() == v@[i - 1]);
            assert(s.take(i - from).drop_last() == s.take(i - from - 1));
        }
        i -= 1;
    }
    proof {
        if i > from {
            assert(s.take(i - from).last() == v@[i - 1]);
        }
    }
    i
}

/// The bounds in `v[from..to]` of what is left without the whitespace at
/// either end.
pub fn trim_bounds(v: &Vec<char>, from: usize, to: usize) -> (r: (usize, usize))
    requires
        from <= to <= v.len(),
    ensures
        from <= r.0 <= r.1 <= to,
        v@.subrange(r.0 as int, r.1 as int) == trimmed(v@.subrange(from as int, to as int)),
{
    let start = skip_spaces(v, from, to);
    let end = skip_spaces_back(v, start, to);
    proof {
        let s = v@.subrange(from as int, to as int);
        assert(trimmed_start(s) =~= v@.subrange(start as int, to as int));
        assert(trimmed_end(v@.subrange(start as int, to as int)) =~= v@.subrange(
            start as int,
            end as int,
        ));
    }
    (start, end)
}

/// The characters of a string without the whitespace at either end.
pub fn trimmed_chars(s: &str) -> (r: Vec<char>)
    ensures
        r@ == trimmed(s@),
{
    let v = chars_of(s);
    assert(v@.subrange(0, v.len() as int) == v@);
    let (start, end) = trim_bounds(&v, 0, v.len());
    slice_of(&v, start, end)
}

/// The characters `v[from..to]`.
pub fn slice_of(v: &Vec<char>, from: usize, to: usize) -> (r: Vec<char>)
    requires
        from <= to <= v.len(),
    ensures
        r@ == v@.subrange(from as int, to as int),
{
    let mut out: Vec<char> = Vec::new();
    let mut i: usize = from;
    while i < to
        invariant
            from <= i <= to <= v.len(),
            out@ == v@.subrange(from as int, i as int),
        decreases to - i,
    {
        out.push(v[i]);
        i += 1;
        assert(v@.subrange(from as int, i as int) == v@.subrange(from as int, i - 1).push(v@[i - 1]));
    }
    out
}

/// The string of all characters of `v`.
pub fn string_of(v: &Vec<char>) -> (r: String)
    ensures
        r@ == v@,
{
    assert(v@.subrange(0, v.len() as int) == v@);
    text_of(v, 0, v.len())
}

/// The lowercase form of characters.
pub fn lowercase_chars(v: &Vec<char>) -> (r: Vec<char>)
    ensures
        r@ == lowercased(v@),
{
    chars_of(lowercase(string_of(v).as_str()).as_str())
}

/// Whether `part` occurs somewhere in `v`.
pub fn has(v: &Vec<char>, part: &str) -> (r: bool)
    ensures
        r == contains_text(v@, part@),
{
    let p = chars_of(part);
    find_from(v, &p, 0).is_some()
}

/// Whether `v` begins with `prefix`.
pub fn begins_with(v: &Vec<char>, prefix: &str) -> (r: bool)
    ensures
        r == has_prefix(v@, prefix@),
{
    let p = chars_of(prefix);
    occurs_at(v, &p, 0)
}

/// Whether two vectors hold the same characters.
pub fn vec_equal(a: &Vec<char>, b: &Vec<char>) -> (r: bool)
    ensures
        r == (a@ == b@),
{
    if a.len() != b.len() {
        return false;
    }
    let mut i: usize = 0;
    while i < a.len()
        invariant
            i <= a.len(),
            a.len() == b.len(),
            forall|k: int| 0 <= k < i ==> a@[k] == b@[k],
        decreases a.len() - i,
    {
        if a[i] != b[i] {
            return false;
        }
        i += 1;
    }
    assert(a@ =~= b@);
    true
}

/// Whether a vector holds the characters of a string.
pub fn chars_equal(v: &Vec<char>, s: &str) -> (r: bool)
    ensures
        r == (v@ == s@),
{
    let other = chars_of(s);
    vec_equal(v, &other)
}

/// The last character that takes one byte in UTF-8.
pub const ASCII_LAST: char = '\u{7f}';

/// The last character that takes two bytes in UTF-8.
pub const TWO_BYTES_LAST: char = '\u{7ff}';

/// The last character that takes three bytes in UTF-8.
pub const THREE_BYTES_LAST: char = '\u{ffff}';

/// The number of bytes that a character takes in UTF-8.
pub open spec fn utf8_len(c: char) -> int {
    if c <= ASCII_LAST {
        1
    } else if c <= TWO_BYTES_LAST {
        2
    } else if c <= THREE_BYTES_LAST {
        3
    } else {
        4
    }
}

/// The number of bytes that a text takes in UTF-8.
pub open spec fn utf8_size(s: Seq<char>) -> int
    decreases s.len(),
{
    if s.len() == 0 {
        0
    } else {
        utf8_size(s.drop_last()) + utf8_len(s.last())
    }
}

/// A text takes at least as many bytes as it has characters.
pub proof fn lemma_utf8_size_grows(s: Seq<char>, n: int)
    requires
        0 <= n <= s.len(),
    ensures
        0 <= utf8_size(s.take(n)) <= utf8_size(s),
    decreases s.len() - n,
{
    lemma_utf8_size_nonnegative(s.take(n));
    if n < s.len() {
        lemma_utf8_size_grows(s, n + 1);
        assert(s.take(n + 1).drop_last() == s.take(n));
    } else {
        assert(s.take(n) == s);
        lemma_utf8_size_nonnegative(s);
    }
}

/// The size of a text is not negative.
pub proof fn lemma_utf8_size_nonnegative(s: Seq<char>)
    ensures
        utf8_size(s) >= 0,
    decreases s.len(),
{
    if s.len() > 0 {
        lemma_utf8_size_nonnegative(s.drop_last());
    }
}

/// The position of the first occurrence of `part` in `s` at or after
/// `from`.
pub open spec fn first_at(s: Seq<char>, part: Seq<char>, from: int) -> Option<int>
    decreases s.len() - from,
{
    if from < 0 || from + part.len() > s.len() {
        None
    } else if holds_at(s, part, from) {
        Some(from)
    } else if from >= s.len() {
        None
    } else {
        first_at(s, part, from + 1)
    }
}

/// The position of the first occurrence of `part` in `v` at or after
/// `from`.
pub fn find_first(v: &Vec<char>, part: &Vec<char>, from: usize) -> (r: Option<usize>)
    ensures
        match r {
            Some(at) => from <= at && at + part.len() <= v.len() && first_at(
                v@,
                part@,
                from as int,
            ) == Some(at as int),
            None => first_at(v@, part@, from as int) is None,
        },
{
    if part.len() > v.len() || from > v.len() - part.len() {
        return None;
    }
    let last: usize = v.len() - part.len();
    let mut at: usize = from;
    loop
        invariant
            part.len() <= v.len(),
            last == v.len() - part.len(),
            from <= at <= last,
            first_at(v@, part@, from as int) == first_at(v@, part@, at as int),
        decreases last - at,
    {
        if occurs_at(v, part, at) {
            return Some(at);
        }
        if at == last {
            assert(first_at(v@, part@, at + 1) is None);
            return None;
        }
        at += 1;
    }
}

/// The number of bytes that `v[..upto]` takes in UTF-8.
pub fn size_of_prefix(v: &Vec<char>, upto: usize) -> (r: u128)
    requires
        upto <= v.len(),
    ensures
        r == utf8_size(v@.take(upto as int)),
        r <= 4 * upto,
{
    let mut total: u128 = 0;
    let mut i: usize = 0;
    assert(v@.take(0) =~= Seq::empty());
    while i < upto
        invariant
            i <= upto <= v.len(),
            total == utf8_size(v@.take(i as int)),
            total <= 4 * i,
        decreases upto - i,
    {
        let c = v[i];
        let size: u128 = if c <= ASCII_LAST {
            1
        } else if c <= TWO_BYTES_LAST {
            2
        } else if c <= THREE_BYTES_LAST {
            3
        } else {
            4
        };
        proof {
            assert(v@.take(i + 1).drop_last() == v@.take(i as int));
            assert(v@.take(i + 1).last() == v@[i as int]);
        }
        total = total + size;
        i += 1;
    }
    total
}

/// The number of characters of `s`, counted from `k` on, after which `s`
/// has taken exactly `offset` bytes in UTF-8; `None` where `offset` falls
/// inside a character or beyond the text.
pub open spec fn char_index_at(s: Seq<char>, offset: int, k: int) -> Option<int>
    decreases s.len() - k,
{
    if k < 0 || k > s.len() {
        None
    } else if utf8_size(s.take(k)) == offset {
        Some(k)
    } else if utf8_size(s.take(k)) > offset || k >= s.len() {
        None
    } else {
        char_index_at(s, offset, k + 1)
    }
}

/// The number of characters after which `v` has taken exactly `offset`
/// bytes in UTF-8.
pub fn char_index(v: &Vec<char>, offset: u128) -> (r: Option<usize>)
    ensures
        match r {
            Some(k) => k <= v.len() && char_index_at(v@, offset as int, 0) == Some(k as int),
            None => char_index_at(v@, offset as int, 0) is None,
        },
{
    let mut total: u128 = 0;
    let mut k: usize = 0;
    assert(v@.take(0) =~= Seq::empty());
    loop
        invariant
            k <= v.len(),
            total == utf8_size(v@.take(k as int)),
            total <= 4 * k,
            char_index_at(v@, offset as int, 0) == char_index_at(v@, offset as int, k as int),
        decreases v.len() - k,
    {
        if total == offset {
            return Some(k);
        }
        if total > offset || k >= v.len() {
            return None;
        }
        let c = v[k];
        let size: u128 = if c <= ASCII_LAST {
            1
        } else if c <= TWO_BYTES_LAST {
            2
        } else if c <= THREE_BYTES_LAST {
            3
        } else {
            4
        };
        proof {
            assert(v@.take(k + 1).drop_last() == v@.take(k as int));
            assert(v@.take(k + 1).last() == v@[k as int]);
        }
        total = total + size;
        k += 1;
    }
}

/// Whether `char::is_alphabetic` holds of a character: whether it has the
/// Unicode property Alphabetic.
pub uninterp spec fn is_letter(c: char) -> bool;

/// `char::is_alphabetic`.
#[verifier::external_body]
pub(crate) fn is_alphabetic(c: char) -> (r: bool)
    ensures
        r == is_letter(c),
{
    c.is_alphabetic()
}

/// The character `c`, `n` times.
pub open spec fn repeated(c: char, n: nat) -> Seq<char> {
    Seq::new(n, |i: int| c)
}

/// The character `c`, `n` times.
pub fn repeat_char(c: char, n: usize) -> (r: String)
    ensures
        r@ == repeated(c, n as nat),
{
    let mut out = String::new();
    let mut i: usize = 0;
    while i < n
        invariant
            i <= n,
            out@ == repeated(c, i as nat),
        decreases n - i,
    {
        push_char(&mut out, c);
        i += 1;
        assert(out@ =~= repeated(c, i as nat));
    }
    assert(out@ =~= repeated(c, n as nat));
    out
}

/// A text filled up with spaces at its end to `width` characters.
pub open spec fn padded_right(s: Seq<char>, width: nat) -> Seq<char> {
    if s.len() < width {
        s + repeated(' ', (width - s.len()) as nat)
    } else {
        s
    }
}

/// A text filled up with spaces at its start to `width` characters.
pub open spec fn padded_left(s: Seq<char>, width: nat) -> Seq<char> {
    if s.len() < width {
        repeated(' ', (width - s.len()) as nat) + s
    } else {
        s
    }
}

/// Appends a text, filled up with spaces at its end to `width`
/// characters.
pub fn append_padded_right(out: &mut String, s: &str, width: usize)
    ensures
        final(out)@ == old(out)@ + padded_right(s@, width as nat),
{
    out.append(s);
    let length = s.unicode_len();
    if length < width {
        out.append(repeat_char(' ', width - length).as_str());
        assert(out@ =~= old(out)@ + padded_right(s@, width as nat));
    }
}

/// Appends a text, filled up with spaces at its start to `width`
/// characters.
pub fn append_padded_left(out: &mut String, s: &str, width: usize)
    ensures
        final(out)@ == old(out)@ + padded_left(s@, width as nat),
{
    let length = s.unicode_len();
    if length < width {
        out.append(repeat_char(' ', width - length).as_str());
    }
    out.append(s);
    assert(out@ =~= old(out)@ + padded_left(s@, width as nat));
}

/// The number of bytes that a text takes in UTF-8, as `str::len` tells
/// it.
pub open spec fn byte_length(s: Seq<char>) -> usize {
    vstd::utf8::encode_utf8(s).len() as usize
}

/// What `str::lines` yields for a text: its lines without their endings.
pub uninterp spec fn lines_of(text: Seq<char>) -> Seq<Seq<char>>;

/// `str::lines`: the lines of a text, without their line endings.
#[verifier::external_body]
pub(crate) fn text_lines(text: &str) -> (r: Vec<String>)
    ensures
        texts(r@) == lines_of(text@),
{
    text.lines().map(|l| l.to_string()).collect()
}

/// A sorted list is told by what it lists: two lists that are strictly
/// sorted and list the same texts hold the same texts in the same order.
pub proof fn lemma_sorted_lists_agree(a: Seq<String>, b: Seq<String>)
    requires
        strictly_sorted(a),
        strictly_sorted(b),
        forall|name: Seq<char>| lists(a, name) <==> lists(b, name),
    ensures
        texts(a) == texts(b),
    decreases a.len(),
{
    if a.len() == 0 {
        if b.len() > 0 {
            assert(lists(b, b[0]@));
            assert(lists(a, b[0]@));
        }
        assert(texts(a) =~= texts(b));
    } else {
        assert(lists(a, a[0]@));
        assert(lists(b, a[0]@));
        let j = choose|j: int| 0 <= j < b.len() && #[trigger] b[j]@ == a[0]@;
        assert(lists(b, b[0]@));
        assert(lists(a, b[0]@));
        let i = choose|i: int| 0 <= i < a.len() && #[trigger] a[i]@ == b[0]@;
        lemma_precedes_total(a[0]@, b[0]@);
        if j > 0 && i > 0 {
            assert(precedes(b[0]@, b[j]@));
            assert(precedes(a[0]@, a[i]@));
        }
        assert(a[0]@ == b[0]@);
        let x = a.drop_first();
        let y = b.drop_first();
        assert forall|m: int, n: int| 0 <= m < n < x.len() implies precedes(
            #[trigger] x[m]@,
            #[trigger] x[n]@,
        ) by {
            assert(precedes(a[m + 1]@, a[n + 1]@));
        }
        assert forall|m: int, n: int| 0 <= m < n < y.len() implies precedes(
            #[trigger] y[m]@,
            #[trigger] y[n]@,
        ) by {
            assert(precedes(b[m + 1]@, b[n + 1]@));
        }
        assert forall|name: Seq<char>| lists(x, name) <==> lists(y, name) by {
            lemma_precedes_total(name, name);
            if lists(x, name) {
                let k = choose|k: int| 0 <= k < x.len() && #[trigger] x[k]@ == name;
                assert(precedes(a[0]@, a[k + 1]@));
                assert(a[k + 1]@ == name);
                assert(lists(a, name));
                let l = choose|l: int| 0 <= l < b.len() && #[trigger] b[l]@ == name;
                assert(l > 0);
                assert(y[l - 1]@ == name);
            }
            if lists(y, name) {
                let k = choose|k: int| 0 <= k < y.len() && #[trigger] y[k]@ == name;
                assert(precedes(b[0]@, b[k + 1]@));
                assert(b[k + 1]@ == name);
                assert(lists(b, name));
                let l = choose|l: int| 0 <= l < a.len() && #[trigger] a[l]@ == name;
                assert(l > 0);
                assert(x[l - 1]@ == name);
            }
        }
        lemma_sorted_lists_agree(x, y);
        assert(texts(x).len() == texts(y).len());
        assert forall|k: int| 0 <= k < a.len() implies texts(a)[k] == texts(b)[k] by {
            if k > 0 {
                assert(texts(x)[k - 1] == texts(y)[k - 1]);
                assert(texts(x)[k - 1] == a[k]@);
                assert(texts(y)[k - 1] == b[k]@);
            }
        }
        assert(texts(a) =~= texts(b));
    }
}

} // verus!
