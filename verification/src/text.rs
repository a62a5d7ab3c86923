//! Text operations on characters, with exact models over `Seq<char>`.
//!
//! Every function here works on whole characters; the models speak of the
//! character sequence of a string and never of its bytes.
use vstd::prelude::*;

verus! {

/// `String::push`: the string gains the character at its end.
pub assume_specification[ std::string::String::push ](s: &mut std::string::String, c: char)
    ensures
        final(s)@ == old(s)@.push(c),
;

/// The error that `std::str::from_utf8` returns; nothing reads it.
#[verifier::external_type_specification]
#[verifier::external_body]
pub struct ExUtf8Error(std::str::Utf8Error);

/// `std::str::from_utf8`: succeeds on exactly the valid UTF-8 byte sequences,
/// and the string it returns is encoded by those bytes.
pub assume_specification<'a>[ std::str::from_utf8 ](v: &'a [u8]) -> (r: Result<
    &'a str,
    std::str::Utf8Error,
>)
    ensures
        r is Ok <==> vstd::utf8::valid_utf8(v@),
        r matches Ok(s) ==> vstd::utf8::encode_utf8(s@) == v@,
;

// ---------------------------------------------------------------------------
// Models
// ---------------------------------------------------------------------------

/// The character sequences of a list of strings.
pub open spec fn views(list: Seq<String>) -> Seq<Seq<char>> {
    Seq::new(list.len(), |i: int| list[i]@)
}

/// The character sequence of an optional string.
pub open spec fn opt_view(s: Option<String>) -> Option<Seq<char>> {
    match s {
        Some(s) => Some(s@),
        None => None,
    }
}

/// A `Result` whose payload and error message are taken by their views.
pub open spec fn result_view<T: View>(r: Result<T, String>) -> Result<T::V, Seq<char>> {
    match r {
        Ok(v) => Ok(v@),
        Err(e) => Err(e@),
    }
}

/// The text of an optional byte string, where the bytes are valid UTF-8.
pub open spec fn utf8_text(raw: Option<Seq<u8>>) -> Option<Seq<char>> {
    match raw {
        Some(bytes) => if vstd::utf8::valid_utf8(bytes) {
            Some(vstd::utf8::decode_utf8(bytes))
        } else {
            None
        },
        None => None,
    }
}

/// The characters with Unicode's `White_Space` property.
pub open spec fn is_space(c: char) -> bool {
    let n = c as int;
    ||| 0x9 <= n <= 0xd
    ||| n == 0x20
    ||| n == 0x85
    ||| n == 0xa0
    ||| n == 0x1680
    ||| 0x2000 <= n <= 0x200a
    ||| n == 0x2028
    ||| n == 0x2029
    ||| n == 0x202f
    ||| n == 0x205f
    ||| n == 0x3000
}

pub open spec fn trim_start_spec(s: Seq<char>) -> Seq<char>
    decreases s.len(),
{
    if s.len() > 0 && is_space(s[0]) {
        trim_start_spec(s.drop_first())
    } else {
        s
    }
}

pub open spec fn trim_end_spec(s: Seq<char>) -> Seq<char>
    decreases s.len(),
{
    if s.len() > 0 && is_space(s.last()) {
        trim_end_spec(s.drop_last())
    } else {
        s
    }
}

/// The text without the white space at its two ends.
pub open spec fn trim_spec(s: Seq<char>) -> Seq<char> {
    trim_end_spec(trim_start_spec(s))
}

pub open spec fn lower_char(c: char) -> char {
    if 'A' as int <= c as int <= 'Z' as int {
        (c as int + 32) as char
    } else {
        c
    }
}

/// The text with the letters `A` to `Z` in lower case.
pub open spec fn lower_spec(s: Seq<char>) -> Seq<char> {
    Seq::new(s.len(), |i: int| lower_char(s[i]))
}

/// The pieces of a text between the occurrences of a separator.
pub open spec fn split_spec(s: Seq<char>, sep: char) -> Seq<Seq<char>>
    decreases s.len(),
{
    if s.len() == 0 {
        seq![Seq::<char>::empty()]
    } else {
        let pieces = split_spec(s.drop_last(), sep);
        if s.last() == sep {
            pieces.push(Seq::<char>::empty())
        } else {
            pieces.drop_last().push(pieces.last().push(s.last()))
        }
    }
}

/// The texts in order, with a separator between each two neighbours.
pub open spec fn join_spec(list: Seq<Seq<char>>, sep: Seq<char>) -> Seq<char>
    decreases list.len(),
{
    if list.len() == 0 {
        Seq::empty()
    } else if list.len() == 1 {
        list[0]
    } else {
        join_spec(list.drop_last(), sep) + sep + list.last()
    }
}

/// Does `pat` stand in `s` at position `i`?
pub open spec fn occurs_at(s: Seq<char>, pat: Seq<char>, i: int) -> bool {
    &&& 0 <= i
    &&& i + pat.len() <= s.len()
    &&& s.subrange(i, i + pat.len()) =~= pat
}

/// The first position at or after `from` at which `pat` stands in `s`.
pub open spec fn find_spec(s: Seq<char>, pat: Seq<char>, from: int) -> Option<int>
    decreases s.len() - from,
{
    if from < 0 || from + pat.len() > s.len() {
        None
    } else if occurs_at(s, pat, from) {
        Some(from)
    } else {
        find_spec(s, pat, from + 1)
    }
}

/// The characters before the first `stop`, or all of them where there is none.
pub open spec fn until_spec(s: Seq<char>, stop: char) -> Seq<char>
    decreases s.len(),
{
    if s.len() == 0 || s[0] == stop {
        Seq::empty()
    } else {
        seq![s[0]] + until_spec(s.drop_first(), stop)
    }
}

/// The first line of a text, without its `\n` or `\r\n`.
pub open spec fn first_line_spec(s: Seq<char>) -> Seq<char> {
    let line = until_spec(s, '\n');
    if line.len() < s.len() && line.len() > 0 && line.last() == '\r' {
        line.drop_last()
    } else {
        line
    }
}

/// The list without the items that occurred before.
pub open spec fn dedup_spec(list: Seq<Seq<char>>) -> Seq<Seq<char>>
    decreases list.len(),
{
    if list.len() == 0 {
        Seq::empty()
    } else {
        let kept = dedup_spec(list.drop_last());
        if kept.contains(list.last()) {
            kept
        } else {
            kept.push(list.last())
        }
    }
}

pub open spec fn digit_char(d: int) -> char {
    (if d < 10 {
        48 + d
    } else {
        87 + d
    }) as char
}

/// A natural number in decimal.
pub open spec fn decimal_nat(n: nat) -> Seq<char>
    decreases n,
{
    if n < 10 {
        seq![digit_char(n as int)]
    } else {
        decimal_nat(n / 10).push(digit_char((n % 10) as int))
    }
}

/// An integer in decimal, with `-` before a negative one.
pub open spec fn decimal_spec(n: int) -> Seq<char> {
    if n < 0 {
        seq!['-'] + decimal_nat((-n) as nat)
    } else {
        decimal_nat(n as nat)
    }
}

/// The lowest `width` hexadecimal digits of a number, highest first.
pub open spec fn hex_spec(n: nat, width: nat) -> Seq<char>
    decreases width,
{
    if width == 0 {
        Seq::empty()
    } else {
        hex_spec(n / 16, (width - 1) as nat).push(digit_char((n % 16) as int))
    }
}

pub open spec fn is_digit(c: char) -> bool {
    '0' as int <= c as int <= '9' as int
}

/// The number that a run of decimal digits stands for.
pub open spec fn digits_value(s: Seq<char>) -> nat
    decreases s.len(),
{
    if s.len() == 0 {
        0
    } else {
        digits_value(s.drop_last()) * 10 + (s.last() as int - '0' as int) as nat
    }
}

pub open spec fn all_digits(s: Seq<char>) -> bool {
    s.len() > 0 && forall|i: int| 0 <= i < s.len() ==> is_digit(#[trigger] s[i])
}

/// The integer that an optionally signed run of decimal digits stands for.
pub open spec fn integer_spec(s: Seq<char>) -> Option<int> {
    let signed = s.len() > 0 && (s[0] == '+' || s[0] == '-');
    let body = if signed {
        s.drop_first()
    } else {
        s
    };
    if all_digits(body) {
        if signed && s[0] == '-' {
            Some(-(digits_value(body) as int))
        } else {
            Some(digits_value(body) as int)
        }
    } else {
        None
    }
}

/// Strict lexicographic order by code point.
pub open spec fn lex_lt(a: Seq<char>, b: Seq<char>) -> bool
    decreases a.len(),
{
    if b.len() == 0 {
        false
    } else if a.len() == 0 {
        true
    } else if a[0] != b[0] {
        (a[0] as int) < (b[0] as int)
    } else {
        lex_lt(a.drop_first(), b.drop_first())
    }
}

/// Each text stands before the next.
pub open spec fn strictly_sorted(list: Seq<Seq<char>>) -> bool {
    forall|i: int, j: int| 0 <= i < j < list.len() ==> lex_lt(#[trigger] list[i], #[trigger] list[j])
}

/// No text stands before itself.
pub proof fn lemma_lt_irreflexive(a: Seq<char>)
    ensures
        !lex_lt(a, a),
    decreases a.len(),
{
    if a.len() > 0 {
        lemma_lt_irreflexive(a.drop_first());
    }
}

/// What stands before a text stands before all that the text stands before.
pub proof fn lemma_lt_transitive(a: Seq<char>, b: Seq<char>, c: Seq<char>)
    requires
        lex_lt(a, b),
        lex_lt(b, c),
    ensures
        lex_lt(a, c),
    decreases a.len(),
{
    if a.len() > 0 && a[0] == b[0] && b[0] == c[0] {
        lemma_lt_transitive(a.drop_first(), b.drop_first(), c.drop_first());
    }
}

/// Of two different texts one stands before the other.
pub proof fn lemma_lt_total(a: Seq<char>, b: Seq<char>)
    ensures
        lex_lt(a, b) || a == b || lex_lt(b, a),
    decreases a.len(),
{
    if a.len() > 0 && b.len() > 0 {
        if a[0] == b[0] {
            lemma_lt_total(a.drop_first(), b.drop_first());
            if a.drop_first() == b.drop_first() {
                assert(a =~= seq![a[0]] + a.drop_first());
                assert(b =~= seq![b[0]] + b.drop_first());
            }
        }
    } else if a.len() == 0 && b.len() == 0 {
        assert(a =~= b);
    }
}

/// No text stands twice in a list in which each stands before the next.
pub proof fn law_sorted_texts_are_distinct(list: Seq<Seq<char>>)
    requires
        strictly_sorted(list),
    ensures
        list.no_duplicates(),
{
    assert forall|i: int, j: int| 0 <= i < list.len() && 0 <= j < list.len() && i
        != j implies list[i] != list[j] by {
        lemma_lt_irreflexive(list[i]);
        if i < j {
            assert(lex_lt(list[i], list[j]));
        } else {
            assert(lex_lt(list[j], list[i]));
        }
    }
}

// ---------------------------------------------------------------------------
// Operations
// ---------------------------------------------------------------------------

/// The characters of a string.
pub fn chars_of(s: &str) -> (r: Vec<char>)
    ensures
        r@ == s@,
{
    let mut out: Vec<char> = Vec::new();
    for c in it: s.chars()
        invariant
            it.seq() == s@,
            out@ == s@.take(it.index() as int),
    {
        out.push(c);
    }
    out
}

/// The characters from `from` up to `to`, as a string.
pub fn string_of(cs: &Vec<char>, from: usize, to: usize) -> (r: String)
    requires
        from <= to <= cs@.len(),
    ensures
        r@ == cs@.subrange(from as int, to as int),
{
    let mut out = String::new();
    let mut i: usize = from;
    while i < to
        invariant
            from <= i <= to <= cs@.len(),
            out@ == cs@.subrange(from as int, i as int),
        decreases to - i,
    {
        out.push(cs[i]);
        i += 1;
    }
    out
}

/// Are the two texts the same?
pub fn str_eq(a: &str, b: &str) -> (r: bool)
    ensures
        r == (a@ == b@),
{
    let x = chars_of(a);
    let y = chars_of(b);
    if x.len() != y.len() {
        return false;
    }
    let mut i: usize = 0;
    while i < x.len()
        invariant
            x@ == a@,
            y@ == b@,
            x@.len() == y@.len(),
            i <= x@.len(),
            x@.take(i as int) =~= y@.take(i as int),
        decreases x@.len() - i,
    {
        if x[i] != y[i] {
            assert(x@[i as int] != y@[i as int]);
            return false;
        }
        i += 1;
    }
    assert(x@ =~= x@.take(i as int));
    assert(y@ =~= y@.take(i as int));
    true
}

/// Does `pat` stand in `s` at position `at`?
fn matches_at(s: &Vec<char>, pat: &Vec<char>, at: usize) -> (r: bool)
    ensures
        r == occurs_at(s@, pat@, at as int),
{
    if at > s.len() || pat.len() > s.len() - at {
        return false;
    }
    let mut i: usize = 0;
    while i < pat.len()
        invariant
            at + pat@.len() <= s.len(),
            i <= pat@.len(),
            forall|j: int| 0 <= j < i ==> s@[at + j] == #[trigger] pat@[j],
        decreases pat@.len() - i,
    {
        if s[at + i] != pat[i] {
            assert(s@.subrange(at as int, at + pat@.len())[i as int] != pat@[i as int]);
            return false;
        }
        i += 1;
    }
    assert(s@.subrange(at as int, at + pat@.len()) =~= pat@);
    true
}

/// Does the text begin with `prefix`?
pub fn starts_with(s: &str, prefix: &str) -> (r: bool)
    ensures
        r == prefix@.is_prefix_of(s@),
{
    let r = matches_at(&chars_of(s), &chars_of(prefix), 0);
    r
}

/// The rest of the text behind `prefix`, where it begins with it.
pub fn strip_prefix(s: &str, prefix: &str) -> (r: Option<String>)
    ensures
        opt_view(r) == (if prefix@.is_prefix_of(s@) {
            Some(s@.skip(prefix@.len() as int))
        } else {
            None
        }),
{
    let cs = chars_of(s);
    let ps = chars_of(prefix);
    if matches_at(&cs, &ps, 0) {
        Some(string_of(&cs, ps.len(), cs.len()))
    } else {
        None
    }
}

/// The first position at or after `from` at which `pat` stands in `s`.
pub fn find(s: &Vec<char>, pat: &Vec<char>, from: usize) -> (r: Option<usize>)
    ensures
        match r {
            Some(i) => find_spec(s@, pat@, from as int) == Some(i as int),
            None => find_spec(s@, pat@, from as int) is None,
        },
{
    let mut i: usize = from;
    while i <= s.len()
        invariant
            from <= i,
            i <= s@.len() + 1 || i == from,
            find_spec(s@, pat@, from as int) == find_spec(s@, pat@, i as int),
        decreases s@.len() + 1 - i,
    {
        if matches_at(s, pat, i) {
            return Some(i);
        }
        if i == s.len() {
            return None;
        }
        i += 1;
    }
    None
}

/// Does `pat` stand anywhere in the text?
pub fn contains(s: &str, pat: &str) -> (r: bool)
    ensures
        r == (find_spec(s@, pat@, 0) is Some),
{
    let cs = chars_of(s);
    find(&cs, &chars_of(pat), 0).is_some()
}

fn is_space_exec(c: char) -> (r: bool)
    ensures
        r == is_space(c),
{
    let n: u32 = c as u32;
    (0x9 <= n && n <= 0xd) || n == 0x20 || n == 0x85 || n == 0xa0 || n == 0x1680 || (0x2000 <= n
        && n <= 0x200a) || n == 0x2028 || n == 0x2029 || n == 0x202f || n == 0x205f || n == 0x3000
}

/// The text without the white space at its two ends.
pub fn trim(s: &str) -> (r: String)
    ensures
        r@ == trim_spec(s@),
{
    let cs = chars_of(s);
    let mut from: usize = 0;
    assert(cs@.skip(0) =~= cs@);
    while from < cs.len() && is_space_exec(cs[from])
        invariant
            from <= cs@.len(),
            trim_start_spec(cs@) == trim_start_spec(cs@.skip(from as int)),
        decreases cs@.len() - from,
    {
        assert(cs@.skip(from as int).drop_first() =~= cs@.skip(from + 1));
        from += 1;
    }
    let mut to: usize = cs.len();
    assert(trim_start_spec(cs@) =~= cs@.subrange(from as int, to as int));
    while to > from && is_space_exec(cs[to - 1])
        invariant
            from <= to <= cs@.len(),
            trim_spec(cs@) == trim_end_spec(cs@.subrange(from as int, to as int)),
        decreases to - from,
    {
        assert(cs@.subrange(from as int, to as int).drop_last() =~= cs@.subrange(
            from as int,
            to - 1,
        ));
        to -= 1;
    }
    string_of(&cs, from, to)
}

/// The character in lower case, where it is one of `A` to `Z`.
pub fn lower_char_exec(c: char) -> (r: char)
    ensures
        r == lower_char(c),
{
    if 'A' <= c && c <= 'Z' {
        (c as u8 + 32) as char
    } else {
        c
    }
}

/// The text with the letters `A` to `Z` in lower case.
pub fn to_ascii_lowercase(s: &str) -> (r: String)
    ensures
        r@ == lower_spec(s@),
{
    let cs = chars_of(s);
    let mut out = String::new();
    let mut i: usize = 0;
    while i < cs.len()
        invariant
            i <= cs@.len(),
            out@ == lower_spec(cs@).take(i as int),
        decreases cs@.len() - i,
    {
        out.push(lower_char_exec(cs[i]));
        i += 1;
    }
    assert(lower_spec(cs@).take(i as int) =~= lower_spec(cs@));
    out
}

/// The pieces of a text between the occurrences of a separator.
pub fn split(s: &str, sep: char) -> (r: Vec<String>)
    ensures
        views(r@) == split_spec(s@, sep),
{
    let cs = chars_of(s);
    let mut done: Vec<String> = Vec::new();
    let mut piece = String::new();
    let mut i: usize = 0;
    assert(cs@.take(0) =~= Seq::<char>::empty());
    while i < cs.len()
        invariant
            i <= cs@.len(),
            views(done@).push(piece@) =~= split_spec(cs@.take(i as int), sep),
        decreases cs@.len() - i,
    {
        assert(cs@.take(i + 1).drop_last() =~= cs@.take(i as int));
        if cs[i] == sep {
            let ghost before = done@;
            done.push(piece);
            piece = String::new();
            assert(views(done@) =~= views(before).push(done@.last()@));
        } else {
            piece.push(cs[i]);
        }
        i += 1;
    }
    let ghost before = done@;
    done.push(piece);
    assert(views(done@) =~= views(before).push(done@.last()@));
    assert(cs@.take(i as int) =~= cs@);
    done
}

/// The texts in order, with a separator between each two neighbours.
pub fn join(list: &Vec<String>, sep: &str) -> (r: String)
    ensures
        r@ == join_spec(views(list@), sep@),
{
    let mut out = String::new();
    let mut i: usize = 0;
    while i < list.len()
        invariant
            i <= list@.len(),
            out@ == join_spec(views(list@).take(i as int), sep@),
        decreases list@.len() - i,
    {
        assert(views(list@).take(i + 1).drop_last() =~= views(list@).take(i as int));
        if i > 0 {
            out.append(sep);
        }
        out.append(list[i].as_str());
        i += 1;
        assert(out@ =~= join_spec(views(list@).take(i as int), sep@));
    }
    assert(views(list@).take(i as int) =~= views(list@));
    out
}

/// The first line of a text, without its `\n` or `\r\n`.
pub fn first_line(s: &str) -> (r: String)
    ensures
        r@ == first_line_spec(s@),
{
    let cs = chars_of(s);
    let mut end: usize = 0;
    assert(cs@.skip(0) =~= cs@);
    while end < cs.len() && cs[end] != '\n'
        invariant
            end <= cs@.len(),
            until_spec(cs@, '\n') =~= cs@.take(end as int) + until_spec(cs@.skip(end as int), '\n'),
        decreases cs@.len() - end,
    {
        assert(cs@.skip(end as int).drop_first() =~= cs@.skip(end + 1));
        assert(cs@.take(end + 1) =~= cs@.take(end as int) + seq![cs@[end as int]]);
        end += 1;
    }
    assert(until_spec(cs@, '\n') =~= cs@.take(end as int));
    if end < cs.len() && end > 0 && cs[end - 1] == '\r' {
        assert(cs@.take(end as int).drop_last() =~= cs@.subrange(0, end - 1));
        string_of(&cs, 0, end - 1)
    } else {
        assert(cs@.take(end as int) =~= cs@.subrange(0, end as int));
        string_of(&cs, 0, end)
    }
}

/// Is the text one of the list?
pub fn list_contains(list: &Vec<String>, item: &str) -> (r: bool)
    ensures
        r == views(list@).contains(item@),
{
    let mut i: usize = 0;
    while i < list.len()
        invariant
            i <= list@.len(),
            forall|j: int| 0 <= j < i ==> #[trigger] views(list@)[j] != item@,
        decreases list@.len() - i,
    {
        if str_eq(list[i].as_str(), item) {
            assert(views(list@)[i as int] == item@);
            return true;
        }
        i += 1;
    }
    false
}

/// Digit `d` of the number systems up to base 16.
fn digit_of(d: u8) -> (r: char)
    requires
        d < 16,
    ensures
        r == digit_char(d as int),
{
    if d < 10 {
        (48 + d) as char
    } else {
        (87 + d) as char
    }
}

/// A natural number in decimal.
pub fn decimal_u64(n: u64) -> (r: String)
    ensures
        r@ == decimal_nat(n as nat),
    decreases n,
{
    let mut out = if n < 10 {
        String::new()
    } else {
        decimal_u64(n / 10)
    };
    out.push(digit_of((n % 10) as u8));
    assert(n < 10 ==> out@ =~= decimal_nat(n as nat));
    out
}

/// An integer in decimal, with `-` before a negative one.
pub fn decimal_i64(n: i64) -> (r: String)
    ensures
        r@ == decimal_spec(n as int),
{
    if n < 0 {
        let mut out = String::new();
        out.push('-');
        let magnitude: u64 = if n == i64::MIN {
            0x8000_0000_0000_0000
        } else {
            (-n) as u64
        };
        out.append(decimal_u64(magnitude).as_str());
        assert(out@ =~= decimal_spec(n as int));
        out
    } else {
        decimal_u64(n as u64)
    }
}

/// The 16 hexadecimal digits of a 64-bit number.
pub fn hex16(n: u64) -> (r: String)
    ensures
        r@ == hex_spec(n as nat, 16),
{
    hex(n, 16)
}

fn hex(n: u64, width: u8) -> (r: String)
    ensures
        r@ == hex_spec(n as nat, width as nat),
    decreases width,
{
    if width == 0 {
        String::new()
    } else {
        let mut out = hex(n / 16, width - 1);
        out.push(digit_of((n % 16) as u8));
        out
    }
}

/// `a` stands before `b` in lexicographic order by code point.
pub fn str_lt(a: &str, b: &str) -> (r: bool)
    ensures
        r == lex_lt(a@, b@),
{
    let x = chars_of(a);
    let y = chars_of(b);
    let mut i: usize = 0;
    assert(x@.skip(0) =~= x@);
    assert(y@.skip(0) =~= y@);
    while i < x.len() && i < y.len()
        invariant
            x@ == a@,
            y@ == b@,
            i <= x@.len(),
            i <= y@.len(),
            lex_lt(x@, y@) == lex_lt(x@.skip(i as int), y@.skip(i as int)),
        decreases x@.len() - i,
    {
        if x[i] != y[i] {
            return x[i] < y[i];
        }
        assert(x@.skip(i as int).drop_first() =~= x@.skip(i + 1));
        assert(y@.skip(i as int).drop_first() =~= y@.skip(i + 1));
        i += 1;
    }
    i < y.len()
}

/// The 64-bit integer that an optionally signed run of decimal digits stands
/// for; none where the text is no such run or the integer does not fit.
pub fn parse_i64(s: &str) -> (r: Option<i64>)
    ensures
        match r {
            Some(v) => integer_spec(s@) == Some(v as int),
            None => integer_spec(s@) matches Some(v) ==> v < i64::MIN || v > i64::MAX,
        },
{
    let cs = chars_of(s);
    let signed = cs.len() > 0 && (cs[0] == '+' || cs[0] == '-');
    let negative = signed && cs[0] == '-';
    let from: usize = if signed {
        1
    } else {
        0
    };
    let ghost body = cs@.skip(from as int);
    assert(signed ==> body =~= cs@.drop_first());
    assert(!signed ==> body =~= cs@);
    let limit: u128 = 0x8000_0000_0000_0000;
    let mut value: u128 = 0;
    let mut too_large = false;
    let mut i: usize = from;
    if from == cs.len() {
        return None;
    }
    while i < cs.len()
        invariant
            cs@ == s@,
            signed == (cs@.len() > 0 && (cs@[0] == '+' || cs@[0] == '-')),
            body == (if signed {
                cs@.drop_first()
            } else {
                cs@
            }),
            body == cs@.skip(from as int),
            limit == 0x8000_0000_0000_0000,
            from <= i <= cs@.len(),
            forall|j: int| 0 <= j < i - from ==> is_digit(#[trigger] body[j]),
            value <= limit,
            !too_large ==> value == digits_value(body.take(i - from)),
            too_large ==> digits_value(body.take(i - from)) > limit,
        decreases cs@.len() - i,
    {
        let c = cs[i];
        assert(body[i - from] == c);
        if !('0' <= c && c <= '9') {
            return None;
        }
        assert(body.take(i + 1 - from).drop_last() =~= body.take(i - from));
        if !too_large {
            let next: u128 = value * 10 + (c as u8 - 48) as u128;
            if next > limit {
                too_large = true;
            } else {
                value = next;
            }
        }
        i += 1;
    }
    assert(body.take(i - from) =~= body);
    assert(all_digits(body));
    if too_large {
        None
    } else if negative {
        if value == limit {
            Some(i64::MIN)
        } else {
            Some(-(value as i64))
        }
    } else if value == limit {
        None
    } else {
        Some(value as i64)
    }
}

/// The text of an optional byte string, where the bytes are valid UTF-8.
pub fn utf8_to_string(raw: &Option<Vec<u8>>) -> (r: Option<String>)
    ensures
        opt_view(r) == utf8_text(match raw {
            Some(bytes) => Some(bytes@),
            None => None,
        }),
{
    match raw {
        Some(bytes) => match std::str::from_utf8(bytes.as_slice()) {
            Ok(s) => {
                proof {
                    vstd::utf8::encode_utf8_decode_utf8(s@);
                }
                Some(String::from_str(s))
            },
            Err(_) => None,
        },
        None => None,
    }
}

// ---------------------------------------------------------------------------
// Laws
// ---------------------------------------------------------------------------

/// The model of a list of strings has the characters of each string in its
/// place, that of an optional string those of the string, and that of a result
/// the model of what it holds.
pub proof fn law_models_of_texts<T: View>(list: Seq<String>, s: Option<String>, r: Result<T, String>)
    ensures
        views(list).len() == list.len(),
        forall|i: int| 0 <= i < list.len() ==> #[trigger] views(list)[i] == list[i]@,
        s is Some <==> opt_view(s) is Some,
        s matches Some(text) ==> opt_view(s)->0 == text@,
        r matches Ok(v) ==> result_view(r) == Ok::<T::V, Seq<char>>(v@),
        r matches Err(e) ==> result_view(r) == Err::<T::V, Seq<char>>(e@),
{
}

/// Bytes stand for the text that they encode; bytes that encode no text, and no
/// bytes at all, stand for none.
pub proof fn law_bytes_stand_for_the_text_they_encode(s: Seq<char>, bytes: Seq<u8>)
    ensures
        utf8_text(Some(vstd::utf8::encode_utf8(s))) == Some(s),
        utf8_text(Some(bytes)) is Some <==> vstd::utf8::valid_utf8(bytes),
        utf8_text(None) is None,
{
    vstd::utf8::encode_utf8_valid_utf8(s);
    vstd::utf8::encode_utf8_decode_utf8(s);
}

/// The white space of Unicode.
pub proof fn law_white_space(c: char)
    ensures
        is_space(c) <==> (c == '\t' || c == '\n' || c == '\u{b}' || c == '\u{c}' || c == '\r' || c
            == ' ' || c == '\u{85}' || c == '\u{a0}' || c == '\u{1680}' || c == '\u{2000}' || c
            == '\u{2001}' || c == '\u{2002}' || c == '\u{2003}' || c == '\u{2004}'
                || c == '\u{2005}'
            || c == '\u{2006}' || c == '\u{2007}' || c == '\u{2008}' || c == '\u{2009}' || c
            == '\u{200a}' || c == '\u{2028}' || c == '\u{2029}' || c == '\u{202f}'
                || c == '\u{205f}'
            || c == '\u{3000}'),
{
}

/// Is the text white space throughout?
pub open spec fn blank(s: Seq<char>) -> bool {
    forall|i: int| 0 <= i < s.len() ==> is_space(#[trigger] s[i])
}

proof fn lemma_trim_start_skips(lead: Seq<char>, s: Seq<char>)
    requires
        blank(lead),
    ensures
        trim_start_spec(lead + s) == trim_start_spec(s),
    decreases lead.len(),
{
    if lead.len() > 0 {
        assert(is_space(lead[0]));
        assert((lead + s).drop_first() =~= lead.drop_first() + s);
        lemma_trim_start_skips(lead.drop_first(), s);
    } else {
        assert(lead + s =~= s);
    }
}

proof fn lemma_trim_end_skips(s: Seq<char>, tail: Seq<char>)
    requires
        blank(tail),
    ensures
        trim_end_spec(s + tail) == trim_end_spec(s),
    decreases tail.len(),
{
    if tail.len() > 0 {
        assert(is_space(tail[tail.len() - 1]));
        assert((s + tail).drop_last() =~= s + tail.drop_last());
        lemma_trim_end_skips(s, tail.drop_last());
    } else {
        assert(s + tail =~= s);
    }
}

proof fn lemma_trim_start_before(s: Seq<char>, tail: Seq<char>)
    ensures
        blank(s) || trim_start_spec(s + tail) == trim_start_spec(s) + tail,
    decreases s.len(),
{
    if s.len() > 0 {
        assert((s + tail)[0] == s[0]);
        if is_space(s[0]) {
            assert((s + tail).drop_first() =~= s.drop_first() + tail);
            lemma_trim_start_before(s.drop_first(), tail);
            if blank(s.drop_first()) {
                assert forall|i: int| 0 <= i < s.len() implies is_space(#[trigger] s[i]) by {
                    if i > 0 {
                        assert(s[i] == s.drop_first()[i - 1]);
                    }
                }
            }
        }
    }
}

/// White space around a text does not count.
pub proof fn law_trim_drops_outer_white_space(lead: Seq<char>, s: Seq<char>, tail: Seq<char>)
    requires
        blank(lead),
        blank(tail),
    ensures
        trim_spec(lead + s + tail) == trim_spec(s),
{
    assert(lead + s + tail =~= lead + (s + tail));
    lemma_trim_start_skips(lead, s + tail);
    lemma_trim_start_before(s, tail);
    if blank(s) {
        lemma_trim_start_skips(s, tail);
        lemma_trim_start_skips(s, Seq::empty());
        assert(s + Seq::<char>::empty() =~= s);
        lemma_trim_start_skips(tail, Seq::empty());
        assert(tail + Seq::<char>::empty() =~= tail);
    } else {
        lemma_trim_end_skips(trim_start_spec(s), tail);
    }
}

/// All that stands between the white space at the two ends of a text is kept.
pub proof fn law_trim_keeps_the_rest(s: Seq<char>)
    requires
        s.len() > 0 ==> !is_space(s[0]) && !is_space(s[s.len() - 1]),
    ensures
        trim_spec(s) == s,
{
}

/// Each letter `A` to `Z` becomes its lower case, and every other character
/// stays.
pub proof fn law_lower_case(s: Seq<char>, i: int, letter: int)
    requires
        0 <= i < s.len(),
        0 <= letter < 26,
    ensures
        lower_spec(s).len() == s.len(),
        s[i] as int == 'A' as int + letter ==> lower_spec(s)[i] as int == 'a' as int + letter,
        (s[i] as int) < 'A' as int || s[i] as int > 'Z' as int ==> lower_spec(s)[i] == s[i],
{
}

/// Joining sets the separator between the two parts of a list, and nowhere else.
pub proof fn law_join(a: Seq<Seq<char>>, b: Seq<Seq<char>>, sep: Seq<char>, text: Seq<char>)
    requires
        a.len() > 0,
        b.len() > 0,
    ensures
        join_spec(a + b, sep) == join_spec(a, sep) + sep + join_spec(b, sep),
        join_spec(seq![text], sep) == text,
        join_spec(Seq::empty(), sep) == Seq::<char>::empty(),
    decreases b.len(),
{
    let front = b.drop_last();
    assert((a + b).drop_last() =~= a + front);
    assert((a + b).last() == b.last());
    if b.len() == 1 {
        assert(a + front =~= a);
        assert(join_spec(b, sep) == b.last());
    } else {
        law_join(a, front, sep, text);
        assert(join_spec(a + b, sep) =~= join_spec(a, sep) + sep + join_spec(b, sep));
    }
}

proof fn lemma_split_last_piece(a: Seq<char>, sep: char, b: Seq<char>)
    requires
        !b.contains(sep),
    ensures
        split_spec(a + seq![sep] + b, sep) == split_spec(a, sep).push(b),
        split_spec(b, sep) == seq![b],
    decreases b.len(),
{
    let whole = a + seq![sep] + b;
    if b.len() == 0 {
        assert(whole.drop_last() =~= a);
        assert(whole.last() == sep);
        assert(b =~= Seq::<char>::empty());
        assert(split_spec(b, sep) =~= seq![b]);
    } else {
        let front = b.drop_last();
        assert(b[b.len() - 1] != sep) by {
            assert(b.contains(b[b.len() - 1]));
        }
        assert(!front.contains(sep)) by {
            if front.contains(sep) {
                let i = choose|i: int| 0 <= i < front.len() && front[i] == sep;
                assert(b[i] == sep);
            }
        }
        lemma_split_last_piece(a, sep, front);
        assert(whole.drop_last() =~= a + seq![sep] + front);
        assert(whole.last() == b.last());
        assert(front.push(b.last()) =~= b);
        let pieces = split_spec(a, sep).push(front);
        assert(pieces.drop_last().push(pieces.last().push(b.last()))
            =~= split_spec(a, sep).push(b));
        let one = seq![front];
        assert(one.drop_last().push(one.last().push(b.last())) =~= seq![b]);
    }
}

/// Texts without the separator that are joined by it are the pieces again.
pub proof fn law_split_undoes_join(pieces: Seq<Seq<char>>, sep: char)
    requires
        pieces.len() > 0,
        forall|i: int| 0 <= i < pieces.len() ==> !(#[trigger] pieces[i]).contains(sep),
    ensures
        split_spec(join_spec(pieces, seq![sep]), sep) == pieces,
    decreases pieces.len(),
{
    let last = pieces.last();
    assert(!pieces[pieces.len() - 1].contains(sep));
    if pieces.len() == 1 {
        lemma_split_last_piece(Seq::empty(), sep, last);
        assert(seq![last] =~= pieces);
    } else {
        let front = pieces.drop_last();
        assert forall|i: int| 0 <= i < front.len() implies !(#[trigger] front[i]).contains(sep) by {
            assert(!pieces[i].contains(sep));
        }
        law_split_undoes_join(front, sep);
        lemma_split_last_piece(join_spec(front, seq![sep]), sep, last);
        assert(front.push(last) =~= pieces);
    }
}

/// The pieces of a text hold no separator, and joined by it they are the text.
pub proof fn law_pieces_make_up_the_text(s: Seq<char>, sep: char)
    ensures
        split_spec(s, sep).len() > 0,
        join_spec(split_spec(s, sep), seq![sep]) == s,
        forall|i: int|
            0 <= i < split_spec(s, sep).len() ==> !(#[trigger] split_spec(s, sep)[i]).contains(sep),
    decreases s.len(),
{
    let glue = seq![sep];
    if s.len() == 0 {
        assert(join_spec(split_spec(s, sep), glue) =~= s);
    } else {
        let front = s.drop_last();
        law_pieces_make_up_the_text(front, sep);
        let pieces = split_spec(front, sep);
        let r = split_spec(s, sep);
        assert(front.push(s.last()) =~= s);
        if s.last() == sep {
            law_join(pieces, seq![Seq::<char>::empty()], glue, Seq::empty());
            assert(r =~= pieces + seq![Seq::<char>::empty()]);
            assert(join_spec(r, glue) =~= s);
        } else {
            let last = pieces.last();
            let init = pieces.drop_last();
            assert(!pieces[pieces.len() - 1].contains(sep));
            assert(!last.push(s.last()).contains(sep)) by {
                if last.push(s.last()).contains(sep) {
                    let i = choose|i: int|
                        0 <= i < last.push(s.last()).len() && last.push(s.last())[i] == sep;
                    if i < last.len() {
                        assert(last[i] == sep);
                        assert(last.contains(sep));
                    }
                }
            }
            assert(pieces =~= init + seq![last]);
            assert(r =~= init + seq![last.push(s.last())]);
            law_join(seq![last], seq![last], glue, last);
            law_join(seq![last], seq![last], glue, last.push(s.last()));
            if init.len() > 0 {
                law_join(init, seq![last], glue, last);
                law_join(init, seq![last.push(s.last())], glue, last);
            } else {
                assert(pieces =~= seq![last]);
                assert(r =~= seq![last.push(s.last())]);
            }
            assert(join_spec(r, glue) =~= s);
        }
        assert forall|i: int| 0 <= i < r.len() implies !(#[trigger] r[i]).contains(sep) by {
            if i < pieces.len() - 1 || (s.last() == sep && i < pieces.len()) {
                assert(r[i] == pieces[i]);
            }
        }
    }
}

/// A search finds the first place at or after its start at which the pattern
/// stands, and fails only where there is none.
pub proof fn law_find(s: Seq<char>, pat: Seq<char>, from: int)
    requires
        0 <= from,
    ensures
        match find_spec(s, pat, from) {
            Some(i) => {
                &&& from <= i <= s.len()
                &&& pat.is_prefix_of(s.skip(i))
                &&& forall|j: int| from <= j < i ==> !pat.is_prefix_of(#[trigger] s.skip(j))
            },
            None => forall|j: int| from <= j <= s.len() ==> !pat.is_prefix_of(#[trigger] s.skip(j)),
        },
    decreases s.len() - from,
{
    if from + pat.len() <= s.len() {
        assert(s.skip(from).subrange(0, pat.len() as int) =~= s.subrange(from, from + pat.len()));
        if !occurs_at(s, pat, from) {
            law_find(s, pat, from + 1);
            assert(!pat.is_prefix_of(s.skip(from)));
        }
    }
}

proof fn lemma_without_first(s: Seq<char>, stop: char)
    requires
        s.len() > 0,
        !s.contains(stop),
    ensures
        s[0] != stop,
        !s.drop_first().contains(stop),
{
    assert(s.contains(s[0]));
    if s.drop_first().contains(stop) {
        let i = choose|i: int| 0 <= i < s.drop_first().len() && s.drop_first()[i] == stop;
        assert(s[i + 1] == stop);
    }
}

/// What stands before the first stop is all that stands before it.
pub proof fn law_until(head: Seq<char>, stop: char, tail: Seq<char>)
    requires
        !head.contains(stop),
    ensures
        until_spec(head, stop) == head,
        until_spec(head + seq![stop] + tail, stop) == head,
    decreases head.len(),
{
    let s = head + seq![stop] + tail;
    if head.len() > 0 {
        lemma_without_first(head, stop);
        law_until(head.drop_first(), stop, tail);
        assert(s.drop_first() =~= head.drop_first() + seq![stop] + tail);
        assert(seq![head[0]] + head.drop_first() =~= head);
    } else {
        assert(until_spec(s, stop) =~= head);
        assert(until_spec(head, stop) =~= head);
    }
}

/// The first line ends before the first line break, `\n` or `\r\n`, or with the
/// text.
pub proof fn law_first_line(line: Seq<char>, rest: Seq<char>)
    requires
        !line.contains('\n'),
    ensures
        first_line_spec(line) == line,
        line.len() == 0 || line[line.len() - 1] != '\r' ==> first_line_spec(
            line + seq!['\n'] + rest,
        ) == line,
        first_line_spec(line + seq!['\r', '\n'] + rest) == line,
{
    law_until(line, '\n', rest);
    let with_return = line.push('\r');
    assert(!with_return.contains('\n')) by {
        if with_return.contains('\n') {
            let i = choose|i: int| 0 <= i < with_return.len() && with_return[i] == '\n';
            assert(line[i] == '\n');
            assert(line.contains('\n'));
        }
    }
    law_until(with_return, '\n', rest);
    assert(line + seq!['\r', '\n'] + rest =~= with_return + seq!['\n'] + rest);
    assert(with_return.drop_last() =~= line);
}

/// A list without repetitions holds each item of the list once, in the order in
/// which they first occur.
pub proof fn law_dedup(list: Seq<Seq<char>>, more: Seq<Seq<char>>, item: Seq<char>)
    ensures
        dedup_spec(list).contains(item) <==> list.contains(item),
        dedup_spec(list).no_duplicates(),
        dedup_spec(list).is_prefix_of(dedup_spec(list + more)),
    decreases list.len() + more.len(),
{
    if more.len() > 0 {
        law_dedup(list, more.drop_last(), item);
        assert((list + more).drop_last() =~= list + more.drop_last());
        let shorter = dedup_spec(list + more.drop_last());
        let longer = dedup_spec(list + more);
        assert(shorter.is_prefix_of(longer)) by {
            assert(longer.subrange(0, shorter.len() as int) =~= shorter);
        }
        assert(longer.subrange(0, dedup_spec(list).len() as int) =~= shorter.subrange(
            0,
            dedup_spec(list).len() as int,
        ));
    } else {
        assert(list + more =~= list);
        assert(dedup_spec(list).subrange(0, dedup_spec(list).len() as int) =~= dedup_spec(list));
        if list.len() > 0 {
            let front = list.drop_last();
            law_dedup(front, Seq::empty(), item);
            law_dedup(front, Seq::empty(), list.last());
            let kept = dedup_spec(front);
            if list.contains(item) {
                let i = choose|i: int| 0 <= i < list.len() && list[i] == item;
                if i < front.len() {
                    assert(front[i] == item);
                    assert(front.contains(item));
                }
            }
            if front.contains(item) {
                let i = choose|i: int| 0 <= i < front.len() && front[i] == item;
                assert(list[i] == item);
            }
            assert(list.contains(list.last()));
            let r = dedup_spec(list);
            if kept.contains(item) {
                let i = choose|i: int| 0 <= i < kept.len() && kept[i] == item;
                assert(r[i] == item);
            }
            if !kept.contains(list.last()) {
                assert(r[r.len() - 1] == list.last());
                assert(r.contains(list.last()));
                if r.contains(item) {
                    let i = choose|i: int| 0 <= i < r.len() && r[i] == item;
                    if i < kept.len() {
                        assert(kept[i] == item);
                        assert(kept.contains(item));
                    }
                }
            }
        }
    }
}

/// A number is written in decimal: the digits of its tens, then its ones.
pub proof fn law_decimal(n: nat, digit: int)
    requires
        0 <= digit < 10,
    ensures
        decimal_nat(digit as nat) == seq!["0123456789"@[digit]],
        n > 0 ==> decimal_nat(10 * n + digit as nat) == decimal_nat(n).push("0123456789"@[digit]),
        decimal_spec(n as int) == decimal_nat(n),
        n > 0 ==> decimal_spec(-(n as int)) == seq!['-'] + decimal_nat(n),
{
    reveal_strlit("0123456789");
    assert(digit_char(digit) == "0123456789"@[digit]);
    assert((10 * n + digit as nat) / 10 == n);
    assert((10 * n + digit as nat) % 10 == digit);
}

/// A number is written in hexadecimal: the digits of its sixteens, then its ones.
pub proof fn law_hexadecimal(n: nat, digit: int, width: nat)
    requires
        0 <= digit < 16,
    ensures
        hex_spec(16 * n + digit as nat, width + 1) == hex_spec(n, width).push(
            "0123456789abcdef"@[digit],
        ),
        hex_spec(n, 0) == Seq::<char>::empty(),
{
    reveal_strlit("0123456789abcdef");
    assert(digit_char(digit) == "0123456789abcdef"@[digit]);
    assert((16 * n + digit as nat) / 16 == n);
    assert((16 * n + digit as nat) % 16 == digit);
}

spec fn shifted(n: nat, width: nat) -> nat
    decreases width,
{
    if width == 0 {
        n
    } else {
        shifted(n / 16, (width - 1) as nat)
    }
}

proof fn lemma_hex_injective(a: nat, b: nat, width: nat)
    requires
        hex_spec(a, width) == hex_spec(b, width),
        shifted(a, width) == shifted(b, width),
    ensures
        a == b,
    decreases width,
{
    if width > 0 {
        let w = (width - 1) as nat;
        let x = hex_spec(a / 16, w);
        let y = hex_spec(b / 16, w);
        let dx = digit_char((a % 16) as int);
        let dy = digit_char((b % 16) as int);
        assert(x.push(dx).drop_last() =~= x);
        assert(y.push(dy).drop_last() =~= y);
        assert(x.push(dx).last() == dx);
        assert(y.push(dy).last() == dy);
        assert(a % 16 == b % 16);
        lemma_hex_injective(a / 16, b / 16, w);
    }
}

/// Two 64-bit numbers have different hexadecimal digits.
pub proof fn law_hexadecimal_tells_numbers_apart(a: u64, b: u64)
    ensures
        hex_spec(a as nat, 16) == hex_spec(b as nat, 16) ==> a == b,
        hex_spec(a as nat, 16).len() == 16,
{
    reveal_with_fuel(shifted, 17);
    reveal_with_fuel(hex_spec, 17);
    if hex_spec(a as nat, 16) == hex_spec(b as nat, 16) {
        lemma_hex_injective(a as nat, b as nat, 16);
    }
}

/// Decimal digits stand for the number that they write; a sign before them is
/// its sign, and no other text stands for an integer.
pub proof fn law_integer_texts(s: Seq<char>, digit: int)
    requires
        0 <= digit < 10,
    ensures
        integer_spec(Seq::empty()) is None,
        integer_spec(seq!["0123456789"@[digit]]) == Some(digit),
        all_digits(s) ==> integer_spec(s) is Some && integer_spec(s.push("0123456789"@[digit]))
            == Some(10 * integer_spec(s)->0 + digit),
        all_digits(s) ==> integer_spec(seq!['-'] + s) == Some(-integer_spec(s)->0) && integer_spec(
            seq!['+'] + s,
        ) == integer_spec(s),
        integer_spec(s) is Some ==> exists|i: int|
            0 <= i < s.len() && "0123456789"@.contains(#[trigger] s[i]),
        integer_spec(s) is Some ==> forall|i: int|
            0 <= i < s.len() ==> "0123456789"@.contains(#[trigger] s[i]) || (i == 0 && (s[i] == '+'
                || s[i] == '-')),
{
    reveal_strlit("0123456789");
    let c = "0123456789"@[digit];
    assert forall|d: char| is_digit(d) implies "0123456789"@.contains(d) by {
        assert("0123456789"@[d as int - 48] == d);
    }
    let one = seq![c];
    assert(one.drop_last() =~= Seq::<char>::empty());
    reveal_with_fuel(digits_value, 2);
    assert(all_digits(one));
    let more = s.push(c);
    assert(more.drop_last() =~= s);
    if all_digits(s) {
        assert(is_digit(s[0]));
        assert(all_digits(more));
        assert((seq!['-'] + s).drop_first() =~= s);
        assert((seq!['+'] + s).drop_first() =~= s);
    }
    if integer_spec(s) is Some {
        let signed = s.len() > 0 && (s[0] == '+' || s[0] == '-');
        let body = if signed {
            s.drop_first()
        } else {
            s
        };
        assert(is_digit(body[0]));
        if signed {
            assert(s[1] == body[0]);
            assert forall|i: int| 0 <= i < s.len() implies "0123456789"@.contains(#[trigger] s[i])
                || (i == 0 && (s[i] == '+' || s[i] == '-')) by {
                if i > 0 {
                    assert(s[i] == body[i - 1]);
                }
            }
        } else {
            assert(is_digit(s[0]));
        }
    }
}

/// Which texts are runs of digits.
pub proof fn law_digit_texts(s: Seq<char>)
    ensures
        all_digits(s) <==> s.len() > 0 && forall|i: int|
            0 <= i < s.len() ==> "0123456789"@.contains(#[trigger] s[i]),
{
    reveal_strlit("0123456789");
    assert forall|d: char| is_digit(d) implies "0123456789"@.contains(d) by {
        assert("0123456789"@[d as int - 48] == d);
    }
}

proof fn lemma_decimal_value(n: nat)
    ensures
        all_digits(decimal_nat(n)),
        digits_value(decimal_nat(n)) == n,
    decreases n,
{
    let s = decimal_nat(n);
    if n < 10 {
        assert(s.drop_last() =~= Seq::<char>::empty());
        reveal_with_fuel(digits_value, 2);
    } else {
        lemma_decimal_value(n / 10);
        assert(s.drop_last() =~= decimal_nat(n / 10));
    }
}

/// An integer that is written in decimal is read back as it was.
pub proof fn law_decimal_is_read_back(n: int)
    ensures
        integer_spec(decimal_spec(n)) == Some(n),
{
    if n < 0 {
        lemma_decimal_value((-n) as nat);
        assert(decimal_spec(n).drop_first() =~= decimal_nat((-n) as nat));
    } else {
        lemma_decimal_value(n as nat);
        assert(is_digit(decimal_nat(n as nat)[0]));
    }
}

/// The order of texts is decided by the first place at which they differ; a text
/// stands before all that continue it.
pub proof fn law_order_of_texts(
    common: Seq<char>,
    a: char,
    rest_a: Seq<char>,
    b: char,
    rest_b: Seq<char>,
)
    ensures
        a != b ==> (lex_lt(common + seq![a] + rest_a, common + seq![b] + rest_b) <==> (a as int) < (
        b as int)),
        lex_lt(common, common + seq![b] + rest_b),
        !lex_lt(common + seq![b] + rest_b, common),
        !lex_lt(common, common),
    decreases common.len(),
{
    let x = common + seq![a] + rest_a;
    let y = common + seq![b] + rest_b;
    lemma_lt_irreflexive(common);
    if common.len() > 0 {
        law_order_of_texts(common.drop_first(), a, rest_a, b, rest_b);
        assert(x.drop_first() =~= common.drop_first() + seq![a] + rest_a);
        assert(y.drop_first() =~= common.drop_first() + seq![b] + rest_b);
    }
}

/// Which lists are sorted.
pub proof fn law_sorted_lists(list: Seq<Seq<char>>)
    ensures
        strictly_sorted(list) <==> forall|i: int, j: int|
            0 <= i < j < list.len() ==> lex_lt(#[trigger] list[i], #[trigger] list[j]),
{
}

} // verus!
