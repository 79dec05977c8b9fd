//! Strings as sequences of characters: the small vocabulary that every other
//! module states its contracts in.
use vstd::prelude::*;
use vstd::string::*;

verus! {

/// Unicode's `White_Space` property.
pub open spec fn is_white_space(c: char) -> bool {
    let n = c as u32;
    ||| 0x9 <= n <= 0xd
    ||| n == 0x20
    ||| n == 0x85
    ||| n == 0xa0
    ||| n == 0x1680
    ||| 0x2000 <= n <= 0x200a
    ||| n == 0x2028
    ||| n == 0x2029
    ||| n == 0x202f
    ||| n == 0x205f
    ||| n == 0x3000
}

/// `char::is_whitespace` answers for the `White_Space` property, whose members
/// `is_white_space` lists.
pub assume_specification[ char::is_whitespace ](c: char) -> (b: bool)
    ensures
        b == is_white_space(c),
;

/// Unicode's general category `Cc`.
pub open spec fn is_control_char(c: char) -> bool {
    let n = c as u32;
    n <= 0x1f || 0x7f <= n <= 0x9f
}

/// `char::is_control` answers for the general category `Cc`, which holds the
/// code points up to U+001F and those from U+007F to U+009F.
pub assume_specification[ char::is_control ](c: char) -> (b: bool)
    ensures
        b == is_control_char(c),
;

/// `String::push` appends the character to the end of the string.
pub assume_specification[ String::push ](s: &mut String, c: char)
    ensures
        final(s)@ == old(s)@.push(c),
;

pub open spec fn is_digit(c: char) -> bool {
    '0' <= c <= '9'
}

/// The characters of `s`, in order.
pub fn to_chars(s: &str) -> (v: Vec<char>)
    ensures
        v@ == s@,
{
    let mut v: Vec<char> = Vec::new();
    for c in it: s.chars()
        invariant
            it.seq() == s@,
            v@ == s@.take(it.index() as int),
    {
        v.push(c);
        assert(v@ =~= s@.take(it.index() as int + 1));
    }
    assert(s@.take(s@.len() as int) =~= s@);
    v
}

/// The string made of the characters from index `from` up to index `to`.
pub fn from_chars(v: &[char], from: usize, to: usize) -> (s: String)
    requires
        from <= to <= v@.len(),
    ensures
        s@ == v@.subrange(from as int, to as int),
{
    let mut s: String = String::new();
    let mut i: usize = from;
    assert(s@ =~= v@.subrange(from as int, from as int));
    while i < to
        invariant
            from <= i <= to <= v@.len(),
            s@ == v@.subrange(from as int, i as int),
        decreases to - i,
    {
        s.push(v[i]);
        i = i + 1;
        assert(s@ =~= v@.subrange(from as int, i as int));
    }
    s
}

/// Whether the two strings hold the same characters.
pub fn same(a: &str, b: &str) -> (r: bool)
    ensures
        r == (a@ == b@),
{
    let x = to_chars(a);
    let y = to_chars(b);
    same_chars(&x, &y)
}

pub fn same_chars(x: &[char], y: &[char]) -> (r: bool)
    ensures
        r == (x@ == y@),
{
    if x.len() != y.len() {
        return false;
    }
    let mut i: usize = 0;
    while i < x.len()
        invariant
            i <= x@.len() == y@.len(),
            forall|j: int| 0 <= j < i ==> x@[j] == y@[j],
        decreases x@.len() - i,
    {
        if x[i] != y[i] {
            return false;
        }
        i = i + 1;
    }
    assert(x@ =~= y@);
    true
}

/// Whether `p` stands in `s` at index `at`.
pub open spec fn occurs_at(s: Seq<char>, at: int, p: Seq<char>) -> bool {
    0 <= at && at + p.len() <= s.len() && s.subrange(at, at + p.len()) == p
}

pub fn matches_at(s: &[char], at: usize, p: &str) -> (r: bool)
    ensures
        r == occurs_at(s@, at as int, p@),
{
    let q = to_chars(p);
    let n: usize = s.len();
    if at > n || q.len() > n - at {
        return false;
    }
    let mut i: usize = 0;
    while i < q.len()
        invariant
            q@ == p@,
            i <= q@.len(),
            at + q@.len() <= n,
            n == s@.len(),
            forall|j: int| 0 <= j < i ==> s@[at + j] == q@[j],
        decreases q@.len() - i,
    {
        if s[at + i] != q[i] {
            assert(s@.subrange(at as int, at + p@.len())[i as int] != p@[i as int]);
            return false;
        }
        i = i + 1;
    }
    assert(s@.subrange(at as int, at + p@.len()) =~= p@);
    true
}

/// Whether `s` begins with `p`.
pub open spec fn begins_with(s: Seq<char>, p: Seq<char>) -> bool {
    p.len() <= s.len() && s.take(p.len() as int) == p
}

/// Whether `s` ends with `p`.
pub open spec fn ends_in(s: Seq<char>, p: Seq<char>) -> bool {
    p.len() <= s.len() && s.skip(s.len() - p.len()) == p
}

pub fn starts_with(s: &str, p: &str) -> (r: bool)
    ensures
        r == begins_with(s@, p@),
{
    let v = to_chars(s);
    let r = matches_at(&v, 0, p);
    assert(p@.len() <= s@.len() ==> s@.take(p@.len() as int) =~= s@.subrange(0, p@.len() as int));
    r
}

pub fn ends_with(s: &str, p: &str) -> (r: bool)
    ensures
        r == ends_in(s@, p@),
{
    let v = to_chars(s);
    let n = p.unicode_len();
    if n > v.len() {
        return false;
    }
    let at: usize = v.len() - n;
    let r = matches_at(&v, at, p);
    assert(s@.skip(s@.len() - p@.len()) =~= s@.subrange(at as int, at + p@.len()));
    r
}

/// What is left of `s` behind the prefix `p`.
pub fn strip_prefix<'a>(s: &'a str, p: &str) -> (r: Option<&'a str>)
    ensures
        r is Some <==> begins_with(s@, p@),
        r matches Some(rest) ==> rest@ == s@.skip(p@.len() as int),
{
    if starts_with(s, p) {
        let n = s.unicode_len();
        let k = p.unicode_len();
        let rest = s.substring_char(k, n);
        assert(s@.subrange(k as int, n as int) =~= s@.skip(p@.len() as int));
        Some(rest)
    } else {
        None
    }
}

/// The first index at which `p` stands in `s`, counted from `from`.
pub fn find_text(s: &[char], from: usize, p: &str) -> (r: Option<usize>)
    ensures
        match r {
            Some(i) => from <= i && occurs_at(s@, i as int, p@)
                && forall|j: int| from <= j < i ==> !occurs_at(s@, j, p@),
            None => forall|j: int| from <= j ==> !occurs_at(s@, j, p@),
        },
{
    let mut i: usize = from;
    while i <= s.len()
        invariant
            from <= i,
            i <= s@.len() + 1 || i == from,
            forall|j: int| from <= j < i ==> !occurs_at(s@, j, p@),
        decreases s@.len() + 1 - i,
    {
        if matches_at(s, i, p) {
            return Some(i);
        }
        if i == s.len() {
            assert forall|j: int| from <= j implies !occurs_at(s@, j, p@) by {
                if j > s@.len() {
                }
            }
            return None;
        }
        i = i + 1;
    }
    None
}

/// Leading white space removed.
pub open spec fn trim_left(s: Seq<char>) -> Seq<char>
    decreases s.len(),
{
    if s.len() > 0 && is_white_space(s[0]) {
        trim_left(s.drop_first())
    } else {
        s
    }
}

/// Trailing white space removed.
pub open spec fn trim_right(s: Seq<char>) -> Seq<char>
    decreases s.len(),
{
    if s.len() > 0 && is_white_space(s.last()) {
        trim_right(s.drop_last())
    } else {
        s
    }
}

/// White space removed at both ends.
pub open spec fn trimmed(s: Seq<char>) -> Seq<char> {
    trim_right(trim_left(s))
}

fn trim_start_index(v: &[char]) -> (i: usize)
    ensures
        i <= v@.len(),
        v@.skip(i as int) == trim_left(v@),
{
    let mut i: usize = 0;
    assert(v@.skip(0) =~= v@);
    while i < v.len() && v[i].is_whitespace()
        invariant
            i <= v@.len(),
            trim_left(v@.skip(i as int)) == trim_left(v@),
        decreases v@.len() - i,
    {
        assert(v@.skip(i as int).drop_first() =~= v@.skip(i + 1));
        i = i + 1;
    }
    i
}

fn trim_end_index(v: &[char], from: usize) -> (i: usize)
    requires
        from <= v@.len(),
    ensures
        from <= i <= v@.len(),
        v@.subrange(from as int, i as int) == trim_right(v@.skip(from as int)),
{
    let mut i: usize = v.len();
    assert(v@.subrange(from as int, i as int) =~= v@.skip(from as int));
    while i > from && v[i - 1].is_whitespace()
        invariant
            from <= i <= v@.len(),
            trim_right(v@.subrange(from as int, i as int)) == trim_right(v@.skip(from as int)),
        decreases i - from,
    {
        assert(v@.subrange(from as int, i as int).drop_last() =~= v@.subrange(
            from as int,
            i - 1,
        ));
        i = i - 1;
    }
    i
}

pub fn trim(s: &str) -> (r: &str)
    ensures
        r@ == trimmed(s@),
{
    let v = to_chars(s);
    let from = trim_start_index(&v);
    let to = trim_end_index(&v, from);
    s.substring_char(from, to)
}

pub fn trim_start(s: &str) -> (r: &str)
    ensures
        r@ == trim_left(s@),
{
    let v = to_chars(s);
    let from = trim_start_index(&v);
    assert(s@.subrange(from as int, v@.len() as int) =~= s@.skip(from as int));
    s.substring_char(from, v.len())
}

pub fn trim_end(s: &str) -> (r: &str)
    ensures
        r@ == trim_right(s@),
{
    let v = to_chars(s);
    let to = trim_end_index(&v, 0);
    assert(s@.skip(0) =~= s@);
    s.substring_char(0, to)
}

/// The pieces of `s` between the separators `sep`; a string without one is a
/// single piece.
pub open spec fn split_at_char(s: Seq<char>, sep: char) -> Seq<Seq<char>>
    decreases s.len(),
{
    if s.len() == 0 {
        seq![Seq::<char>::empty()]
    } else {
        let before = split_at_char(s.drop_last(), sep);
        if s.last() == sep {
            before.push(Seq::<char>::empty())
        } else {
            before.update(before.len() - 1, before.last().push(s.last()))
        }
    }
}

pub proof fn lemma_split_nonempty(s: Seq<char>, sep: char)
    ensures
        split_at_char(s, sep).len() > 0,
    decreases s.len(),
{
    if s.len() > 0 {
        lemma_split_nonempty(s.drop_last(), sep);
    }
}

/// The texts of a vector of strings.
pub open spec fn texts(v: Seq<String>) -> Seq<Seq<char>> {
    v.map_values(|s: String| s@)
}

pub proof fn lemma_texts_push(v: Seq<String>, s: String)
    ensures
        texts(v.push(s)) == texts(v).push(s@),
{
    assert(texts(v.push(s)) =~= texts(v).push(s@));
}

pub fn split_char(s: &str, sep: char) -> (r: Vec<String>)
    ensures
        texts(r@) == split_at_char(s@, sep),
        r@.len() > 0,
{
    let v = to_chars(s);
    let mut out: Vec<String> = Vec::new();
    let mut current: String = String::new();
    let mut i: usize = 0;
    assert(texts(out@).push(current@) =~= split_at_char(s@.take(0), sep));
    while i < v.len()
        invariant
            v@ == s@,
            i <= v@.len(),
            texts(out@).push(current@) == split_at_char(s@.take(i as int), sep),
        decreases v@.len() - i,
    {
        let c = v[i];
        let ghost before = split_at_char(s@.take(i as int), sep);
        assert(s@.take(i + 1).drop_last() =~= s@.take(i as int));
        assert(before.last() == current@);
        if c == sep {
            proof {
                lemma_texts_push(out@, current);
            }
            out.push(current);
            current = String::new();
            assert(texts(out@).push(current@) =~= split_at_char(s@.take(i + 1), sep));
        } else {
            current.push(c);
            assert(texts(out@).push(current@) =~= split_at_char(s@.take(i + 1), sep));
        }
        i = i + 1;
    }
    assert(s@.take(s@.len() as int) =~= s@);
    proof {
        lemma_texts_push(out@, current);
    }
    out.push(current);
    out
}

/// A line without the carriage return that ends it, if one does.
pub open spec fn without_cr(s: Seq<char>) -> Seq<char> {
    if s.len() > 0 && s.last() == '\r' {
        s.drop_last()
    } else {
        s
    }
}

/// The lines of a text: the pieces between line feeds, each line that a line
/// feed ends freed of a carriage return before it, and no line behind the last
/// line feed.
pub open spec fn lines_of(s: Seq<char>) -> Seq<Seq<char>> {
    let pieces = split_at_char(s, '\n');
    let ended = pieces.drop_last().map_values(|p: Seq<char>| without_cr(p));
    if pieces.last().len() == 0 {
        ended
    } else {
        ended.push(pieces.last())
    }
}

pub fn lines(s: &str) -> (r: Vec<String>)
    ensures
        texts(r@) == lines_of(s@),
{
    let pieces = split_char(s, '\n');
    let ghost all = split_at_char(s@, '\n');
    let n: usize = pieces.len();
    assert(all.len() == n);
    let mut out: Vec<String> = Vec::new();
    let mut i: usize = 0;
    while i < n - 1
        invariant
            texts(pieces@) == all,
            n == pieces@.len(),
            i <= n - 1,
            out@.len() == i,
            forall|j: int| 0 <= j < i ==> (#[trigger] out@[j])@ == without_cr(all[j]),
        decreases n - i,
    {
        let v = to_chars(pieces[i].as_str());
        let m: usize = v.len();
        assert(v@ == all[i as int]);
        if m > 0 && v[m - 1] == '\r' {
            let line = from_chars(&v, 0, m - 1);
            assert(line@ =~= v@.drop_last());
            out.push(line);
        } else {
            let line = pieces[i].clone();
            out.push(line);
        }
        i = i + 1;
    }
    let last = pieces[n - 1].clone();
    assert(last@ == all.last());
    let empty = last.as_str().is_empty();
    if !empty {
        out.push(last);
    }
    assert(texts(out@) =~= lines_of(s@));
    out
}

/// The words of a text: its longest runs without white space.
pub open spec fn words_of(s: Seq<char>) -> Seq<Seq<char>>
    decreases s.len(),
{
    if s.len() == 0 {
        Seq::empty()
    } else {
        let before = words_of(s.drop_last());
        let c = s.last();
        if is_white_space(c) {
            before
        } else if s.len() == 1 || is_white_space(s[s.len() - 2]) {
            before.push(seq![c])
        } else {
            before.update(before.len() - 1, before.last().push(c))
        }
    }
}

pub fn words(s: &str) -> (r: Vec<String>)
    ensures
        texts(r@) == words_of(s@),
{
    let v = to_chars(s);
    let mut out: Vec<String> = Vec::new();
    let mut current: String = String::new();
    let mut i: usize = 0;
    assert(texts(out@) =~= words_of(s@.take(0)));
    while i < v.len()
        invariant
            v@ == s@,
            i <= v@.len(),
            (i == 0 || is_white_space(v@[i - 1])) <==> current@.len() == 0,
            current@.len() == 0 ==> texts(out@) == words_of(s@.take(i as int)),
            current@.len() > 0 ==> texts(out@).push(current@) == words_of(s@.take(i as int)),
        decreases v@.len() - i,
    {
        let c = v[i];
        let ghost before = words_of(s@.take(i as int));
        assert(s@.take(i + 1).drop_last() =~= s@.take(i as int));
        if c.is_whitespace() {
            if !current.as_str().is_empty() {
                proof {
                    lemma_texts_push(out@, current);
                }
                out.push(current);
                current = String::new();
            }
        } else {
            let ghost was = current@;
            current.push(c);
            proof {
                if was.len() == 0 {
                    assert(current@ =~= seq![c]);
                } else {
                    assert(before.last() == was);
                }
                assert(texts(out@).push(current@) =~= words_of(s@.take(i + 1)));
            }
        }
        i = i + 1;
    }
    assert(s@.take(s@.len() as int) =~= s@);
    if !current.as_str().is_empty() {
        proof {
            lemma_texts_push(out@, current);
        }
        out.push(current);
    }
    out
}

/// The parts in order, with `sep` between each two.
pub open spec fn joined(parts: Seq<Seq<char>>, sep: Seq<char>) -> Seq<char>
    decreases parts.len(),
{
    if parts.len() == 0 {
        Seq::empty()
    } else if parts.len() == 1 {
        parts[0]
    } else {
        joined(parts.drop_last(), sep) + sep + parts.last()
    }
}

pub fn join(parts: &[String], sep: &str) -> (r: String)
    ensures
        r@ == joined(texts(parts@), sep@),
{
    let mut out: String = String::new();
    let mut i: usize = 0;
    assert(texts(parts@).take(0) =~= Seq::empty());
    while i < parts.len()
        invariant
            i <= parts@.len(),
            out@ == joined(texts(parts@).take(i as int), sep@),
        decreases parts@.len() - i,
    {
        let ghost next = texts(parts@).take(i + 1);
        assert(next.drop_last() =~= texts(parts@).take(i as int));
        if i > 0 {
            out.append(sep);
        }
        out.append(parts[i].as_str());
        i = i + 1;
        assert(out@ =~= joined(next, sep@));
    }
    assert(texts(parts@).take(parts@.len() as int) =~= texts(parts@));
    out
}

/// `n` times the character `c`.
pub open spec fn run_of(c: char, n: nat) -> Seq<char> {
    Seq::new(n, |i: int| c)
}

pub fn repeat_char(c: char, n: usize) -> (r: String)
    ensures
        r@ == run_of(c, n as nat),
{
    let mut r: String = String::new();
    let mut i: usize = 0;
    assert(r@ =~= run_of(c, 0));
    while i < n
        invariant
            i <= n,
            r@ == run_of(c, i as nat),
        decreases n - i,
    {
        r.push(c);
        i = i + 1;
        assert(r@ =~= run_of(c, i as nat));
    }
    r
}

/// `n` spaces.
pub fn spaces(n: usize) -> (r: String)
    ensures
        r@ == run_of(' ', n as nat),
{
    repeat_char(' ', n)
}

/// The digit of value `d`.
pub open spec fn digit_char(d: nat) -> char {
    (48 + d) as char
}

/// `n` in decimal notation.
pub open spec fn decimal(n: nat) -> Seq<char>
    decreases n,
{
    if n < 10 {
        seq![digit_char(n)]
    } else {
        decimal(n / 10).push(digit_char(n % 10))
    }
}

pub fn wide_decimal_text(n: u128) -> (r: String)
    ensures
        r@ == decimal(n as nat),
    decreases n,
{
    let d: u8 = (n % 10) as u8;
    let c: char = (48u8 + d) as char;
    assert(c == digit_char((n % 10) as nat));
    let mut r: String = if n < 10 {
        String::new()
    } else {
        wide_decimal_text(n / 10)
    };
    r.push(c);
    assert(r@ =~= decimal(n as nat));
    r
}

pub fn decimal_text(n: u64) -> (r: String)
    ensures
        r@ == decimal(n as nat),
{
    wide_decimal_text(n as u128)
}

/// Decimal notation holds digits only, at least one, and reads back as the
/// number it was made from.
pub proof fn lemma_decimal(n: nat)
    ensures
        decimal(n).len() > 0,
        all_digits(decimal(n)),
        digits_value(decimal(n)) == n,
    decreases n,
{
    if n < 10 {
        assert(decimal(n).drop_last() =~= Seq::empty());
        assert(digits_value(decimal(n).drop_last()) == 0);
        assert(decimal(n).last() as u32 == 48 + n);
    } else {
        lemma_decimal(n / 10);
        assert(decimal(n).drop_last() =~= decimal(n / 10));
        assert(decimal(n).last() as u32 == 48 + n % 10);
    }
}

/// At least two digits, filled up with a zero on the left.
pub open spec fn two_digits(n: nat) -> Seq<char> {
    if n < 10 {
        seq!['0'] + decimal(n)
    } else {
        decimal(n)
    }
}

pub fn two_digit_text(n: u64) -> (r: String)
    ensures
        r@ == two_digits(n as nat),
{
    let digits = decimal_text(n);
    if n < 10 {
        let mut r: String = String::new();
        r.push('0');
        assert(r@ =~= seq!['0']);
        r.append(digits.as_str());
        r
    } else {
        digits
    }
}

pub open spec fn all_digits(s: Seq<char>) -> bool {
    forall|i: int| 0 <= i < s.len() ==> is_digit(#[trigger] s[i])
}

/// The number that a run of decimal digits stands for.
pub open spec fn digits_value(s: Seq<char>) -> nat
    decreases s.len(),
{
    if s.len() == 0 {
        0
    } else {
        10 * digits_value(s.drop_last()) + ((s.last() as u32) - 48) as nat
    }
}

/// The number that a non-empty run of digits stands for, if it fits.
pub open spec fn digits_number(s: Seq<char>) -> Option<usize> {
    if s.len() > 0 && all_digits(s) && digits_value(s) <= usize::MAX {
        Some(digits_value(s) as usize)
    } else {
        None
    }
}

/// The number written by the digits `v[from..to]`, or nothing where they are
/// no digits, or none at all, or stand for more than a `usize` holds.
pub fn parse_digits(v: &[char], from: usize, to: usize) -> (r: Option<usize>)
    requires
        from <= to <= v@.len(),
    ensures
        r == digits_number(v@.subrange(from as int, to as int)),
{
    let ghost s = v@.subrange(from as int, to as int);
    if from == to {
        return None;
    }
    let mut value: usize = 0;
    let mut i: usize = from;
    let mut fits: bool = true;
    assert(s.take(0) =~= Seq::empty());
    while i < to
        invariant
            from <= i <= to <= v@.len(),
            s == v@.subrange(from as int, to as int),
            forall|j: int| 0 <= j < i - from ==> is_digit(#[trigger] s[j]),
            fits ==> value == digits_value(s.take(i - from)),
            !fits ==> digits_value(s.take(i - from)) > usize::MAX,
        decreases to - i,
    {
        let c = v[i];
        assert(c == s[i - from]);
        if !('0' <= c && c <= '9') {
            return None;
        }
        assert(s.take(i - from + 1).drop_last() =~= s.take(i - from));
        let d: usize = (c as u32 - 48u32) as usize;
        if fits {
            if value > usize::MAX / 10 || (value == usize::MAX / 10 && d > usize::MAX % 10) {
                fits = false;
            } else {
                value = value * 10 + d;
            }
        }
        i = i + 1;
    }
    assert(s.take(s.len() as int) =~= s);
    if fits {
        Some(value)
    } else {
        None
    }
}

/// What `str::parse::<usize>` reads: digits, with at most one `+` before them.
pub open spec fn number_of(s: Seq<char>) -> Option<usize> {
    if s.len() > 0 && s[0] == '+' {
        digits_number(s.drop_first())
    } else {
        digits_number(s)
    }
}

pub fn parse_number(s: &str) -> (r: Option<usize>)
    ensures
        r == number_of(s@),
{
    let v = to_chars(s);
    let n: usize = v.len();
    if n > 0 && v[0] == '+' {
        assert(v@.subrange(1, n as int) =~= s@.drop_first());
        parse_digits(&v, 1, n)
    } else {
        assert(v@.subrange(0, n as int) =~= s@);
        parse_digits(&v, 0, n)
    }
}

/// ASCII letters in lower case, everything else as it is.
pub open spec fn lower_char(c: char) -> char {
    if 'A' <= c <= 'Z' {
        (c as u32 + 32) as char
    } else {
        c
    }
}

pub open spec fn lower(s: Seq<char>) -> Seq<char> {
    s.map_values(|c: char| lower_char(c))
}

pub fn ascii_lower(c: char) -> (r: char)
    ensures
        r == lower_char(c),
{
    if 'A' <= c && c <= 'Z' {
        let b: u8 = (c as u32) as u8;
        (b + 32) as char
    } else {
        c
    }
}

pub fn lowercase(s: &str) -> (r: String)
    ensures
        r@ == lower(s@),
{
    let mut r: String = String::new();
    for c in it: s.chars()
        invariant
            it.seq() == s@,
            r@ == lower(s@.take(it.index() as int)),
    {
        r.push(ascii_lower(c));
        assert(r@ =~= lower(s@.take(it.index() as int + 1)));
    }
    assert(s@.take(s@.len() as int) =~= s@);
    r
}

/// Whether the two texts differ in nothing but the case of ASCII letters.
pub fn same_ignoring_case(a: &str, b: &str) -> (r: bool)
    ensures
        r == (lower(a@) == lower(b@)),
{
    let x = lowercase(a);
    let y = lowercase(b);
    same(x.as_str(), y.as_str())
}

/// Dictionary order by code point.
pub open spec fn text_le(a: Seq<char>, b: Seq<char>) -> bool
    decreases a.len(),
{
    if a.len() == 0 {
        true
    } else if b.len() == 0 {
        false
    } else if a[0] == b[0] {
        text_le(a.drop_first(), b.drop_first())
    } else {
        a[0] < b[0]
    }
}

pub open spec fn ascending(v: Seq<Seq<char>>) -> bool {
    forall|i: int, j: int| 0 <= i < j < v.len() ==> text_le(#[trigger] v[i], #[trigger] v[j])
}

pub proof fn lemma_text_le_total(a: Seq<char>, b: Seq<char>)
    ensures
        text_le(a, b) || text_le(b, a),
        text_le(a, a),
    decreases a.len(),
{
    if a.len() > 0 {
        lemma_text_le_total(a.drop_first(), b.drop_first());
    }
}

pub proof fn lemma_text_le_transitive(a: Seq<char>, b: Seq<char>, c: Seq<char>)
    requires
        text_le(a, b),
        text_le(b, c),
    ensures
        text_le(a, c),
    decreases a.len(),
{
    if a.len() > 0 && b.len() > 0 && c.len() > 0 && a[0] == b[0] && b[0] == c[0] {
        lemma_text_le_transitive(a.drop_first(), b.drop_first(), c.drop_first());
    }
}

fn not_after(a: &str, b: &str) -> (r: bool)
    ensures
        r == text_le(a@, b@),
{
    let x = to_chars(a);
    let y = to_chars(b);
    let mut i: usize = 0;
    assert(x@.skip(0) =~= x@);
    assert(y@.skip(0) =~= y@);
    while i < x.len() && i < y.len()
        invariant
            x@ == a@,
            y@ == b@,
            i <= x@.len(),
            i <= y@.len(),
            text_le(a@, b@) == text_le(x@.skip(i as int), y@.skip(i as int)),
        decreases x@.len() - i,
    {
        if x[i] != y[i] {
            return x[i] < y[i];
        }
        assert(x@.skip(i as int).drop_first() =~= x@.skip(i + 1));
        assert(y@.skip(i as int).drop_first() =~= y@.skip(i + 1));
        i = i + 1;
    }
    i >= x.len()
}

/// The names in dictionary order.
pub fn sorted_names(names: Vec<String>) -> (r: Vec<String>)
    ensures
        ascending(texts(r@)),
        texts(r@).to_multiset() == texts(names@).to_multiset(),
{
    let mut out: Vec<String> = Vec::new();
    let mut i: usize = 0;
    assert(texts(names@).take(0) =~= texts(out@));
    while i < names.len()
        invariant
            i <= names@.len(),
            ascending(texts(out@)),
            texts(out@).to_multiset() == texts(names@).take(i as int).to_multiset(),
        decreases names@.len() - i,
    {
        broadcast use vstd::seq_lib::group_to_multiset_ensures;

        let name = names[i].clone();
        let mut k: usize = out.len();
        while k > 0 && !not_after(out[k - 1].as_str(), name.as_str())
            invariant
                k <= out@.len(),
                ascending(texts(out@)),
                forall|j: int| k <= j < out@.len() ==> !text_le((#[trigger] out@[j])@, name@),
            decreases k,
        {
            k = k - 1;
        }
        let ghost before = texts(out@);
        let ghost at = k as int;
        proof {
            assert forall|j: int| 0 <= j < at implies text_le(#[trigger] before[j], name@) by {
                if j < at - 1 {
                    lemma_text_le_transitive(before[j], before[at - 1], name@);
                }
            }
            assert forall|j: int| at <= j < before.len() implies text_le(
                name@,
                #[trigger] before[j],
            ) by {
                lemma_text_le_total(name@, before[j]);
                assert(before[j] == out@[j]@);
            }
        }
        out.insert(k, name);
        assert(texts(out@) =~= before.insert(at, name@));
        assert(texts(names@).take(i + 1) =~= texts(names@).take(i as int).push(name@));
        i = i + 1;
    }
    assert(texts(names@).take(names@.len() as int) =~= texts(names@));
    out
}

/// Trimming takes white space off both ends and nothing else: what is left begins
/// and ends with something that shows, and stands in the text between white space.
pub proof fn law_trimming_takes_white_space_off(s: &str, r: &str)
    requires
        call_ensures(trim, (s,), r),
    ensures
        r@.len() > 0 ==> !is_white_space(r@[0]) && !is_white_space(r@.last()),
        exists|i: int|
            {
                &&& 0 <= i
                &&& i + r@.len() <= s@.len()
                &&& #[trigger] s@.subrange(i, i + r@.len()) == r@
                &&& forall|k: int|
                    0 <= k < s@.len() && !(i <= k < i + r@.len()) ==> is_white_space(
                        #[trigger] s@[k],
                    )
            },
{
    let left = trim_left(s@);
    lemma_trim_left(s@);
    lemma_trim_right(left);
    let i = s@.len() - left.len();
    assert(s@.subrange(i, i + r@.len()) =~= r@) by {
        assert(r@ == left.take(r@.len() as int));
        assert(left == s@.skip(i));
    }
    assert forall|k: int| 0 <= k < s@.len() && !(i <= k < i + r@.len()) implies is_white_space(
        #[trigger] s@[k],
    ) by {
        if k >= i {
            assert(left[k - i] == s@[k]);
        }
    }
    if r@.len() > 0 {
        assert(r@[0] == left[0]);
    }
}

proof fn lemma_trim_left(s: Seq<char>)
    ensures
        trim_left(s).len() <= s.len(),
        trim_left(s) == s.skip(s.len() - trim_left(s).len()),
        trim_left(s).len() > 0 ==> !is_white_space(trim_left(s)[0]),
        forall|k: int|
            0 <= k < s.len() - trim_left(s).len() ==> is_white_space(#[trigger] s[k]),
    decreases s.len(),
{
    if s.len() > 0 && is_white_space(s[0]) {
        let rest = s.drop_first();
        lemma_trim_left(rest);
        assert(trim_left(s) =~= s.skip(s.len() - trim_left(s).len()));
        assert forall|k: int| 0 <= k < s.len() - trim_left(s).len() implies is_white_space(
            #[trigger] s[k],
        ) by {
            if k > 0 {
                assert(rest[k - 1] == s[k]);
            }
        }
    } else {
        assert(s.skip(0) =~= s);
    }
}

/// What trimming takes off the end is white space.
pub proof fn lemma_trim_right(s: Seq<char>)
    ensures
        trim_right(s).len() <= s.len(),
        trim_right(s) == s.take(trim_right(s).len() as int),
        trim_right(s).len() > 0 ==> !is_white_space(trim_right(s).last()),
        forall|k: int| trim_right(s).len() <= k < s.len() ==> is_white_space(#[trigger] s[k]),
    decreases s.len(),
{
    if s.len() > 0 && is_white_space(s.last()) {
        let rest = s.drop_last();
        lemma_trim_right(rest);
        assert(trim_right(s) =~= s.take(trim_right(s).len() as int));
        assert forall|k: int| trim_right(s).len() <= k < s.len() implies is_white_space(
            #[trigger] s[k],
        ) by {
            if k < rest.len() {
                assert(rest[k] == s[k]);
            }
        }
    } else {
        assert(s.take(s.len() as int) =~= s);
    }
}

/// Trimming one end leaves the other as it is.
pub proof fn law_trimming_one_end(s: &str, start: &str, end: &str)
    requires
        call_ensures(trim_start, (s,), start),
        call_ensures(trim_end, (s,), end),
    ensures
        start@.len() <= s@.len(),
        start@ == s@.skip(s@.len() - start@.len()),
        start@.len() > 0 ==> !is_white_space(start@[0]),
        forall|k: int| 0 <= k < s@.len() - start@.len() ==> is_white_space(#[trigger] s@[k]),
        end@.len() <= s@.len(),
        end@ == s@.take(end@.len() as int),
        end@.len() > 0 ==> !is_white_space(end@.last()),
        forall|k: int| end@.len() <= k < s@.len() ==> is_white_space(#[trigger] s@[k]),
{
    lemma_trim_left(s@);
    lemma_trim_right(s@);
}

/// Splitting undoes joining: the pieces with the separator between them are the
/// text, and no piece holds the separator.
pub proof fn law_pieces_join_to_the_text(s: &str, sep: char, r: Vec<String>, i: int)
    requires
        call_ensures(split_char, (s, sep), r),
    ensures
        joined(texts(r@), seq![sep]) == s@,
        0 <= i < r@.len() ==> !r@[i]@.contains(sep),
{
    lemma_split_joins(s@, sep);
    assert(texts(r@).len() == r@.len());
    if 0 <= i < r@.len() {
        assert(texts(r@)[i] == r@[i]@);
    }
}

proof fn lemma_split_joins(s: Seq<char>, sep: char)
    ensures
        split_at_char(s, sep).len() > 0,
        joined(split_at_char(s, sep), seq![sep]) == s,
        forall|i: int|
            0 <= i < split_at_char(s, sep).len() ==> !(#[trigger] split_at_char(
                s,
                sep,
            )[i]).contains(sep),
    decreases s.len(),
{
    let parts = split_at_char(s, sep);
    if s.len() == 0 {
        assert(joined(parts, seq![sep]) =~= s);
    } else {
        let before = split_at_char(s.drop_last(), sep);
        lemma_split_joins(s.drop_last(), sep);
        if s.last() == sep {
            assert(parts.drop_last() =~= before);
            assert(joined(parts, seq![sep]) =~= s.drop_last() + seq![sep]);
            assert(s.drop_last() + seq![sep] =~= s);
        } else {
            assert(parts.drop_last() =~= before.drop_last());
            assert(parts.last() == before.last().push(s.last()));
            if before.len() == 1 {
                assert(parts[0] == before[0].push(s.last()));
                assert(before[0] == s.drop_last());
                assert(s.drop_last().push(s.last()) =~= s);
            } else {
                assert(joined(parts, seq![sep]) =~= joined(before, seq![sep]).push(s.last()));
                assert(s.drop_last().push(s.last()) =~= s);
            }
            assert forall|i: int| 0 <= i < parts.len() implies !(#[trigger] parts[i]).contains(
                sep,
            ) by {
                if i == parts.len() - 1 {
                    assert(!before[i].contains(sep));
                    if parts[i].contains(sep) {
                        let k = choose|k: int| 0 <= k < parts[i].len() && parts[i][k] == sep;
                        assert(k < before[i].len());
                        assert(before[i][k] == sep);
                    }
                } else {
                    assert(parts[i] == before[i]);
                }
            }
        }
    }
}

/// A line feed ends a line: text without one is a single line, and more text
/// behind a line feed is one line more, the one before it freed of a carriage
/// return.
pub proof fn law_line_feeds_end_lines(a: Seq<char>, b: Seq<char>)
    requires
        !b.contains('\n'),
    ensures
        lines_of(Seq::empty()).len() == 0,
        b.len() > 0 ==> lines_of(b) == seq![b],
        lines_of(a + seq!['\n'] + b).len() == split_at_char(a, '\n').len() + if b.len() > 0 {
            1int
        } else {
            0
        },
        b.len() > 0 ==> lines_of(a + seq!['\n'] + b).last() == b,
        !a.contains('\n') && (a.len() == 0 || a.last() != '\r') ==> lines_of(a + seq!['\n'] + b)[0]
            == a,
        !a.contains('\n') && a.len() > 0 && a.last() == '\r' ==> lines_of(a + seq!['\n'] + b)[0]
            == a.drop_last(),
{
    lemma_split_nonempty(a, '\n');
    lemma_split_behind(a, b, '\n');
    law_pieces_of_one_line(b, '\n');
    let pieces = split_at_char(a + seq!['\n'] + b, '\n');
    assert(pieces.drop_last() =~= split_at_char(a, '\n'));
    assert(pieces.last() == b);
    assert(lines_of(Seq::<char>::empty()) =~= Seq::<Seq<char>>::empty());
    if b.len() > 0 {
        assert(lines_of(b) =~= seq![b]);
    }
    if !a.contains('\n') {
        law_pieces_of_one_line(a, '\n');
    }
}

/// Text without the separator is a single piece.
pub proof fn law_pieces_of_one_line(s: Seq<char>, sep: char)
    requires
        !s.contains(sep),
    ensures
        split_at_char(s, sep) == seq![s],
    decreases s.len(),
{
    if s.len() == 0 {
        assert(s =~= Seq::<char>::empty());
    } else {
        assert forall|c: char| s.drop_last().contains(c) implies s.contains(c) by {
            let k = choose|k: int| 0 <= k < s.drop_last().len() && s.drop_last()[k] == c;
            assert(s[k] == c);
        }
        law_pieces_of_one_line(s.drop_last(), sep);
        assert(s[s.len() - 1] != sep);
        assert(s.drop_last().push(s.last()) =~= s);
        assert(split_at_char(s, sep) =~= seq![s]);
    }
}

proof fn lemma_split_behind(a: Seq<char>, b: Seq<char>, sep: char)
    requires
        !b.contains(sep),
    ensures
        split_at_char(a + seq![sep] + b, sep) == split_at_char(a, sep).push(b),
    decreases b.len(),
{
    let s = a + seq![sep] + b;
    if b.len() == 0 {
        assert(s.drop_last() =~= a);
        assert(b =~= Seq::<char>::empty());
    } else {
        assert forall|c: char| b.drop_last().contains(c) implies b.contains(c) by {
            let k = choose|k: int| 0 <= k < b.drop_last().len() && b.drop_last()[k] == c;
            assert(b[k] == c);
        }
        lemma_split_behind(a, b.drop_last(), sep);
        assert(s.drop_last() =~= a + seq![sep] + b.drop_last());
        assert(b[b.len() - 1] != sep);
        assert(b.drop_last().push(b.last()) =~= b);
        assert(split_at_char(s, sep) =~= split_at_char(a, sep).push(b));
    }
}

/// A word holds no white space and is not empty; a text without white space is
/// one word.
pub proof fn law_words_hold_no_white_space(s: &str, r: Vec<String>, i: int)
    requires
        call_ensures(words, (s,), r),
    ensures
        0 <= i < r@.len() ==> r@[i]@.len() > 0 && forall|k: int|
            0 <= k < r@[i]@.len() ==> !is_white_space(#[trigger] r@[i]@[k]),
        s@.len() > 0 && (forall|k: int| 0 <= k < s@.len() ==> !is_white_space(#[trigger] s@[k]))
            ==> r@.len() == 1 && r@[0]@ == s@,
        (forall|k: int| 0 <= k < s@.len() ==> is_white_space(#[trigger] s@[k])) ==> r@.len() == 0,
{
    lemma_words(s@);
    assert(texts(r@).len() == r@.len());
    if 0 <= i < r@.len() {
        assert(texts(r@)[i] == r@[i]@);
    }
    if r@.len() > 0 {
        assert(texts(r@)[0] == r@[0]@);
    }
}

proof fn lemma_words(s: Seq<char>)
    ensures
        forall|i: int|
            0 <= i < words_of(s).len() ==> (#[trigger] words_of(s)[i]).len() > 0 && forall|k: int|
                0 <= k < words_of(s)[i].len() ==> !is_white_space(#[trigger] words_of(s)[i][k]),
        s.len() > 0 && !is_white_space(s.last()) ==> words_of(s).len() > 0,
        s.len() > 0 && (forall|k: int| 0 <= k < s.len() ==> !is_white_space(#[trigger] s[k]))
            ==> words_of(s) == seq![s],
        (forall|k: int| 0 <= k < s.len() ==> is_white_space(#[trigger] s[k])) ==> words_of(s).len()
            == 0,
    decreases s.len(),
{
    if s.len() > 0 {
        let rest = s.drop_last();
        let before = words_of(rest);
        let c = s.last();
        lemma_words(rest);
        assert(forall|k: int| 0 <= k < rest.len() ==> #[trigger] rest[k] == s[k]);
        let all = words_of(s);
        if is_white_space(c) {
            assert(all == before);
            assert(is_white_space(s[s.len() - 1]));
        } else if s.len() == 1 || is_white_space(s[s.len() - 2]) {
            assert forall|i: int| 0 <= i < all.len() implies (#[trigger] all[i]).len() > 0
                && forall|k: int| 0 <= k < all[i].len() ==> !is_white_space(
                #[trigger] all[i][k],
            ) by {
                if i < before.len() {
                    assert(all[i] == before[i]);
                }
            }
            if s.len() == 1 {
                assert(before.len() == 0);
                assert(all =~= seq![s]) by {
                    assert(seq![c] =~= s);
                }
            }
        } else {
            assert(rest.last() == s[s.len() - 2]);
            assert(before.len() > 0);
            assert forall|i: int| 0 <= i < all.len() implies (#[trigger] all[i]).len() > 0
                && forall|k: int| 0 <= k < all[i].len() ==> !is_white_space(
                #[trigger] all[i][k],
            ) by {
                if i < before.len() - 1 {
                    assert(all[i] == before[i]);
                } else {
                    assert(all[i] == before[i].push(c));
                    assert forall|k: int| 0 <= k < all[i].len() implies !is_white_space(
                        #[trigger] all[i][k],
                    ) by {
                        if k < before[i].len() {
                            assert(before[i][k] == all[i][k]);
                        }
                    }
                }
            }
            if forall|k: int| 0 <= k < s.len() ==> !is_white_space(#[trigger] s[k]) {
                assert forall|k: int| 0 <= k < rest.len() implies !is_white_space(
                    #[trigger] rest[k],
                ) by {
                    assert(rest[k] == s[k]);
                }
                assert(before == seq![rest]);
                assert(rest.push(c) =~= s);
                assert(all =~= seq![s]);
            }
        }
        if forall|k: int| 0 <= k < s.len() ==> is_white_space(#[trigger] s[k]) {
            assert(is_white_space(s[s.len() - 1]));
            assert forall|k: int| 0 <= k < rest.len() implies is_white_space(#[trigger] rest[k]) by {
                assert(rest[k] == s[k]);
            }
        }
    }
}

/// Joining puts the separator between each two parts and nowhere else.
pub proof fn law_joining_puts_the_separator_between(parts: Seq<Seq<char>>, part: Seq<char>, sep: Seq<char>)
    ensures
        joined(Seq::empty(), sep).len() == 0,
        joined(seq![part], sep) == part,
        parts.len() > 0 ==> joined(parts.push(part), sep) == joined(parts, sep) + sep + part,
{
    assert(parts.push(part).drop_last() =~= parts);
}

/// A text begins or ends with another where it is that and something more; what
/// is behind a beginning is the rest.
pub proof fn law_beginnings_and_endings(s: &str, p: &str, begins: bool, ends: bool, rest: Option<&str>)
    requires
        call_ensures(starts_with, (s, p), begins),
        call_ensures(ends_with, (s, p), ends),
        call_ensures(strip_prefix, (s, p), rest),
    ensures
        begins <==> exists|t: Seq<char>| s@ == #[trigger] (p@ + t),
        ends <==> exists|t: Seq<char>| s@ == #[trigger] (t + p@),
        rest is Some <==> begins,
        rest is Some ==> s@ == p@ + rest->0@,
{
    if begins {
        let t = s@.skip(p@.len() as int);
        assert(s@ =~= p@ + t) by {
            assert(s@.take(p@.len() as int) + t =~= s@);
        }
    }
    if exists|t: Seq<char>| s@ == #[trigger] (p@ + t) {
        let t = choose|t: Seq<char>| s@ == #[trigger] (p@ + t);
        assert(s@.take(p@.len() as int) =~= p@);
    }
    if ends {
        let n = s@.len() - p@.len();
        let t = s@.take(n);
        assert(s@ =~= t + p@) by {
            assert(t + s@.skip(n) =~= s@);
        }
    }
    if exists|t: Seq<char>| s@ == #[trigger] (t + p@) {
        let t = choose|t: Seq<char>| s@ == #[trigger] (t + p@);
        assert(s@.skip(s@.len() - p@.len()) =~= p@);
    }
}

/// A number that is written down reads back as itself, with a plus sign before it
/// too; anything but digits is no number.
pub proof fn law_numbers_read_back(n: u64, text: String, s: &str, r: Option<usize>)
    requires
        call_ensures(decimal_text, (n,), text),
        call_ensures(parse_number, (s,), r),
        n <= usize::MAX,
    ensures
        s@ == text@ ==> r == Some(n as usize),
        s@ == seq!['+'] + text@ ==> r == Some(n as usize),
        s@.len() == 0 ==> r is None,
        s@.len() > 0 && s@[0] != '+' && !all_digits(s@) ==> r is None,
        r is Some ==> forall|k: int| 1 <= k < s@.len() ==> is_digit(#[trigger] s@[k]),
{
    lemma_decimal(n as nat);
    if s@ == seq!['+'] + text@ {
        assert(s@.drop_first() =~= text@);
    }
    if s@ == text@ {
        assert(is_digit(s@[0]));
    }
    if r is Some && s@[0] == '+' {
        assert forall|k: int| 1 <= k < s@.len() implies is_digit(#[trigger] s@[k]) by {
            assert(s@.drop_first()[k - 1] == s@[k]);
        }
    }
}

/// Small numbers get a zero in front: there are at least two digits, and they read
/// back as the number.
pub proof fn law_two_digits_at_least(n: u64, r: String)
    requires
        call_ensures(two_digit_text, (n,), r),
    ensures
        r@.len() >= 2,
        all_digits(r@),
        n < 10 ==> r@[0] == '0' && r@.skip(1) == decimal(n as nat),
        n >= 10 ==> r@ == decimal(n as nat),
{
    lemma_decimal(n as nat);
    if n < 10 {
        assert(r@.skip(1) =~= decimal(n as nat));
        assert forall|i: int| 0 <= i < r@.len() implies is_digit(#[trigger] r@[i]) by {
            if i > 0 {
                assert(decimal(n as nat)[i - 1] == r@[i]);
            }
        }
    } else {
        assert(decimal(n as nat / 10).len() >= 1) by {
            lemma_decimal(n as nat / 10);
        }
    }
}

/// Letters from A to Z become small, everything else stays, and texts that become
/// the same differ by case at most.
pub proof fn law_only_capitals_become_small(s: &str, r: String, i: int, t: &str, same_text: bool)
    requires
        call_ensures(lowercase, (s,), r),
        call_ensures(same_ignoring_case, (s, t), same_text),
    ensures
        r@.len() == s@.len(),
        0 <= i < s@.len() && 'A' <= s@[i] <= 'Z' ==> r@[i] as u32 == s@[i] as u32 + 32,
        0 <= i < s@.len() && !('A' <= s@[i] <= 'Z') ==> r@[i] == s@[i],
        s@ == t@ ==> same_text,
        t@ == r@ ==> same_text,
        s@.len() != t@.len() ==> !same_text,
        same_text && 0 <= i < s@.len() && !('A' <= s@[i] <= 'Z') && !('A' <= t@[i] <= 'Z') ==> s@[i]
            == t@[i],
{
    assert(lower(s@).len() == s@.len());
    assert(lower(t@).len() == t@.len());
    if 0 <= i < s@.len() {
        assert(r@[i] == lower_char(s@[i]));
        if same_text {
            assert(lower(s@)[i] == lower(t@)[i]);
        }
    }
    if t@ == r@ {
        assert(lower(t@) =~= lower(s@)) by {
            assert forall|k: int| 0 <= k < s@.len() implies lower(t@)[k] == lower(s@)[k] by {
                assert(t@[k] == lower_char(s@[k]));
            }
        }
    }
}

/// Dictionary order goes by the first character that differs; a beginning comes
/// before what it begins.
pub proof fn law_dictionary_order(a: Seq<char>, b: Seq<char>, n: int)
    requires
        0 <= n <= a.len(),
        n <= b.len(),
        a.take(n) == b.take(n),
    ensures
        n == a.len() ==> text_le(a, b),
        n == b.len() && n < a.len() ==> !text_le(a, b),
        n < a.len() && n < b.len() && a[n] < b[n] ==> text_le(a, b),
        n < a.len() && n < b.len() && a[n] > b[n] ==> !text_le(a, b),
    decreases n,
{
    if n > 0 {
        assert(a.take(n)[0] == a[0]);
        assert(b.take(n)[0] == b[0]);
        assert(a.drop_first().take(n - 1) =~= a.take(n).drop_first());
        assert(b.drop_first().take(n - 1) =~= b.take(n).drop_first());
        law_dictionary_order(a.drop_first(), b.drop_first(), n - 1);
    }
}

/// Each two names stand in dictionary order behind the sorting, and none is lost.
pub proof fn law_sorting_keeps_every_name(names: Vec<String>, r: Vec<String>, i: int, j: int)
    requires
        call_ensures(sorted_names, (names,), r),
    ensures
        r@.len() == names@.len(),
        0 <= i < j < r@.len() ==> text_le(r@[i]@, r@[j]@),
        0 <= i < names@.len() ==> texts(r@).contains(names@[i]@),
{
    broadcast use vstd::seq_lib::group_to_multiset_ensures;

    assert(texts(r@).len() == r@.len());
    assert(texts(names@).len() == names@.len());
    assert(texts(r@).to_multiset().len() == texts(names@).to_multiset().len());
    if 0 <= i < j < r@.len() {
        assert(texts(r@)[i] == r@[i]@ && texts(r@)[j] == r@[j]@);
    }
    if 0 <= i < names@.len() {
        assert(texts(names@)[i] == names@[i]@);
        assert(texts(names@).contains(names@[i]@));
        assert(texts(names@).to_multiset().count(names@[i]@) > 0);
    }
}

} // verus!
