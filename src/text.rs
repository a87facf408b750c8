//! Character-level helpers shared by the parsers and the renderer, each with
//! the spec function that says what it computes.

use vstd::prelude::*;

verus! {

/// The characters that `char::is_whitespace` accepts (the Unicode White_Space set).
pub open spec fn is_ws(c: char) -> bool {
    let u = c as u32;
    (0x09 <= u && u <= 0x0D) || u == 0x20 || u == 0x85 || u == 0xA0 || u == 0x1680 || (0x2000
        <= u && u <= 0x200A) || u == 0x2028 || u == 0x2029 || u == 0x202F || u == 0x205F || u
        == 0x3000
}

pub fn is_whitespace(c: char) -> (r: bool)
    ensures
        r == is_ws(c),
{
    let u = c as u32;
    (0x09 <= u && u <= 0x0D) || u == 0x20 || u == 0x85 || u == 0xA0 || u == 0x1680 || (0x2000
        <= u && u <= 0x200A) || u == 0x2028 || u == 0x2029 || u == 0x202F || u == 0x205F || u
        == 0x3000
}

/// `s` with every whitespace character removed.
pub open spec fn strip_ws(s: Seq<char>) -> Seq<char>
    decreases s.len(),
{
    if s.len() == 0 {
        s
    } else if is_ws(s.last()) {
        strip_ws(s.drop_last())
    } else {
        strip_ws(s.drop_last()).push(s.last())
    }
}

/// `s` without its leading whitespace.
pub open spec fn trim_start(s: Seq<char>) -> Seq<char>
    decreases s.len(),
{
    if s.len() > 0 && is_ws(s[0]) {
        trim_start(s.drop_first())
    } else {
        s
    }
}

/// `s` without its trailing whitespace.
pub open spec fn trim_end(s: Seq<char>) -> Seq<char>
    decreases s.len(),
{
    if s.len() > 0 && is_ws(s.last()) {
        trim_end(s.drop_last())
    } else {
        s
    }
}

/// `s` without leading and trailing whitespace, as `str::trim` gives it.
pub open spec fn trim(s: Seq<char>) -> Seq<char> {
    trim_end(trim_start(s))
}

/// The position of the first `c` in `s`, or -1 where there is none.
pub open spec fn index_of(s: Seq<char>, c: char) -> int
    decreases s.len(),
{
    if s.len() == 0 {
        -1
    } else if index_of(s.drop_last(), c) >= 0 {
        index_of(s.drop_last(), c)
    } else if s.last() == c {
        s.len() - 1
    } else {
        -1
    }
}

/// The position of the first whitespace character in `s`, or -1 where there is none.
pub open spec fn ws_index(s: Seq<char>) -> int
    decreases s.len(),
{
    if s.len() == 0 {
        -1
    } else if ws_index(s.drop_last()) >= 0 {
        ws_index(s.drop_last())
    } else if is_ws(s.last()) {
        s.len() - 1
    } else {
        -1
    }
}

/// The pieces of `s` between occurrences of `sep`, as `str::split` gives them:
/// never empty, and `n` separators give `n + 1` pieces.
pub open spec fn split(s: Seq<char>, sep: char) -> Seq<Seq<char>>
    decreases s.len(),
{
    if s.len() == 0 {
        seq![Seq::empty()]
    } else {
        let p = split(s.drop_last(), sep);
        if s.last() == sep {
            p.push(Seq::empty())
        } else {
            p.update(p.len() - 1, p.last().push(s.last()))
        }
    }
}

/// What each string of `v` holds.
pub open spec fn views(v: Seq<String>) -> Seq<Seq<char>> {
    v.map_values(|x: String| x@)
}

pub open spec fn is_prefix(p: Seq<char>, s: Seq<char>) -> bool {
    p.len() <= s.len() && s.subrange(0, p.len() as int) == p
}

pub open spec fn is_digit(c: char) -> bool {
    '0' <= c && c <= '9'
}

pub open spec fn all_digits(s: Seq<char>) -> bool {
    forall|i: int| 0 <= i < s.len() ==> is_digit(#[trigger] s[i])
}

pub open spec fn digit_value(c: char) -> nat {
    (c as u32 - '0' as u32) as nat
}

/// The number that a string of decimal digits denotes.
pub open spec fn digits_value(s: Seq<char>) -> nat
    decreases s.len(),
{
    if s.len() == 0 {
        0
    } else {
        10 * digits_value(s.drop_last()) + digit_value(s.last())
    }
}

/// `s` without one leading `+`.
pub open spec fn unsigned_part(s: Seq<char>) -> Seq<char> {
    if s.len() > 0 && s[0] == '+' {
        s.drop_first()
    } else {
        s
    }
}

/// What `str::parse::<u16>` accepts: an optional `+`, then one or more ASCII
/// digits whose value fits in 16 bits.
pub open spec fn u16_value(s: Seq<char>) -> Option<u16> {
    let d = unsigned_part(s);
    if d.len() > 0 && all_digits(d) && digits_value(d) <= 0xFFFF {
        Some(digits_value(d) as u16)
    } else {
        None
    }
}

pub open spec fn decimal_digits() -> Seq<char> {
    seq!['0', '1', '2', '3', '4', '5', '6', '7', '8', '9']
}

pub open spec fn hex_digits() -> Seq<char> {
    seq!['0', '1', '2', '3', '4', '5', '6', '7', '8', '9', 'a', 'b', 'c', 'd', 'e', 'f']
}

/// The decimal text of `n`, without sign or leading zeros.
pub open spec fn decimal(n: nat) -> Seq<char>
    decreases n,
{
    if n < 10 {
        seq![decimal_digits()[n as int]]
    } else {
        decimal(n / 10).push(decimal_digits()[(n % 10) as int])
    }
}

/// How a character stands inside a JSON string literal.
pub open spec fn escape_char(c: char) -> Seq<char> {
    if c == '"' {
        seq!['\\', '"']
    } else if c == '\\' {
        seq!['\\', '\\']
    } else if c == '\n' {
        seq!['\\', 'n']
    } else if c == '\r' {
        seq!['\\', 'r']
    } else if c == '\t' {
        seq!['\\', 't']
    } else if (c as u32) < 0x20 {
        seq![
            '\\',
            'u',
            '0',
            '0',
            hex_digits()[(c as u32 / 16) as int],
            hex_digits()[(c as u32 % 16) as int],
        ]
    } else {
        seq![c]
    }
}

/// `s` escaped for use inside a JSON string literal.
pub open spec fn escape(s: Seq<char>) -> Seq<char>
    decreases s.len(),
{
    if s.len() == 0 {
        Seq::empty()
    } else {
        escape(s.drop_last()) + escape_char(s.last())
    }
}

/// `s` as a JSON string literal, quotes included.
pub open spec fn quoted(s: Seq<char>) -> Seq<char> {
    seq!['"'] + escape(s) + seq!['"']
}

pub proof fn lemma_index_of_prefix(s: Seq<char>, c: char, i: int)
    requires
        0 <= i <= s.len(),
        index_of(s.subrange(0, i), c) >= 0,
    ensures
        index_of(s, c) == index_of(s.subrange(0, i), c),
    decreases s.len() - i,
{
    if s.len() == i {
        assert(s.subrange(0, i) =~= s);
    } else {
        assert(s.drop_last().subrange(0, i) =~= s.subrange(0, i));
        lemma_index_of_prefix(s.drop_last(), c, i);
    }
}

pub proof fn lemma_ws_index_prefix(s: Seq<char>, i: int)
    requires
        0 <= i <= s.len(),
        ws_index(s.subrange(0, i)) >= 0,
    ensures
        ws_index(s) == ws_index(s.subrange(0, i)),
    decreases s.len() - i,
{
    if s.len() == i {
        assert(s.subrange(0, i) =~= s);
    } else {
        assert(s.drop_last().subrange(0, i) =~= s.subrange(0, i));
        lemma_ws_index_prefix(s.drop_last(), i);
    }
}

/// The characters of `s`, one by one.
pub fn chars_of(s: &str) -> (r: Vec<char>)
    ensures
        r@ == s@,
{
    let n = s.unicode_len();
    let mut r: Vec<char> = Vec::new();
    let mut i: usize = 0;
    while i < n
        invariant
            n == s@.len(),
            i <= n,
            r@ == s@.subrange(0, i as int),
        decreases n - i,
    {
        r.push(s.get_char(i));
        i = i + 1;
        assert(r@ =~= s@.subrange(0, i as int));
    }
    assert(r@ =~= s@);
    r
}

/// Relies on `String::from_iter` over `&char`: it pushes each character in turn.
#[verifier::external_body]
pub(crate) fn to_string(v: &Vec<char>) -> (r: String)
    ensures
        r@ == v@,
{
    String::from_iter(v.iter())
}

/// The characters `s[from..to]` as a new vector.
pub fn slice(s: &Vec<char>, from: usize, to: usize) -> (r: Vec<char>)
    requires
        from <= to <= s@.len(),
    ensures
        r@ == s@.subrange(from as int, to as int),
{
    let mut r: Vec<char> = Vec::new();
    let mut i: usize = from;
    while i < to
        invariant
            from <= i <= to <= s@.len(),
            r@ == s@.subrange(from as int, i as int),
        decreases to - i,
    {
        r.push(s[i]);
        i = i + 1;
        assert(r@ =~= s@.subrange(from as int, i as int));
    }
    r
}

/// Appends the characters of `s` to `out`.
pub fn push_str(out: &mut Vec<char>, s: &str)
    ensures
        final(out)@ == old(out)@ + s@,
{
    let n = s.unicode_len();
    let mut i: usize = 0;
    while i < n
        invariant
            n == s@.len(),
            i <= n,
            out@ == old(out)@ + s@.subrange(0, i as int),
        decreases n - i,
    {
        out.push(s.get_char(i));
        i = i + 1;
        assert(out@ =~= old(out)@ + s@.subrange(0, i as int));
    }
    assert(s@.subrange(0, n as int) =~= s@);
}

/// Appends the characters of `s` to `out`.
pub fn push_chars(out: &mut Vec<char>, s: &Vec<char>)
    ensures
        final(out)@ == old(out)@ + s@,
{
    let mut i: usize = 0;
    while i < s.len()
        invariant
            i <= s@.len(),
            out@ == old(out)@ + s@.subrange(0, i as int),
        decreases s@.len() - i,
    {
        out.push(s[i]);
        i = i + 1;
        assert(out@ =~= old(out)@ + s@.subrange(0, i as int));
    }
    assert(s@.subrange(0, s@.len() as int) =~= s@);
}

/// Whether `p` is a prefix of `s`.
pub fn starts_with(s: &Vec<char>, p: &str) -> (r: bool)
    ensures
        r == is_prefix(p@, s@),
{
    let n = p.unicode_len();
    if n > s.len() {
        return false;
    }
    let mut i: usize = 0;
    while i < n
        invariant
            n == p@.len(),
            n <= s@.len(),
            i <= n,
            forall|j: int| 0 <= j < i ==> s@[j] == p@[j],
        decreases n - i,
    {
        if s[i] != p.get_char(i) {
            assert(s@.subrange(0, n as int)[i as int] != p@[i as int]);
            return false;
        }
        i = i + 1;
    }
    assert(s@.subrange(0, n as int) =~= p@);
    true
}

/// The first position of `c` in `s`.
pub fn find_char(s: &Vec<char>, c: char) -> (r: Option<usize>)
    ensures
        match r {
            Some(i) => index_of(s@, c) == i as int && i < s@.len() && s@[i as int] == c,
            None => index_of(s@, c) == -1,
        },
{
    let mut i: usize = 0;
    while i < s.len()
        invariant
            i <= s@.len(),
            index_of(s@.subrange(0, i as int), c) == -1,
        decreases s@.len() - i,
    {
        assert(s@.subrange(0, i as int + 1).drop_last() =~= s@.subrange(0, i as int));
        if s[i] == c {
            proof {
                lemma_index_of_prefix(s@, c, i as int + 1);
            }
            return Some(i);
        }
        i = i + 1;
    }
    assert(s@.subrange(0, i as int) =~= s@);
    None
}

/// The first position of a whitespace character in `s`.
pub fn find_ws(s: &Vec<char>) -> (r: Option<usize>)
    ensures
        match r {
            Some(i) => ws_index(s@) == i as int && i < s@.len() && is_ws(s@[i as int]),
            None => ws_index(s@) == -1,
        },
{
    let mut i: usize = 0;
    while i < s.len()
        invariant
            i <= s@.len(),
            ws_index(s@.subrange(0, i as int)) == -1,
        decreases s@.len() - i,
    {
        assert(s@.subrange(0, i as int + 1).drop_last() =~= s@.subrange(0, i as int));
        if is_whitespace(s[i]) {
            proof {
                lemma_ws_index_prefix(s@, i as int + 1);
            }
            return Some(i);
        }
        i = i + 1;
    }
    assert(s@.subrange(0, i as int) =~= s@);
    None
}

/// `s` with every whitespace character removed.
pub fn remove_ws(s: &Vec<char>) -> (r: Vec<char>)
    ensures
        r@ == strip_ws(s@),
{
    let mut r: Vec<char> = Vec::new();
    let mut i: usize = 0;
    while i < s.len()
        invariant
            i <= s@.len(),
            r@ == strip_ws(s@.subrange(0, i as int)),
        decreases s@.len() - i,
    {
        assert(s@.subrange(0, i as int + 1).drop_last() =~= s@.subrange(0, i as int));
        if !is_whitespace(s[i]) {
            r.push(s[i]);
        }
        i = i + 1;
    }
    assert(s@.subrange(0, i as int) =~= s@);
    r
}

/// `s` without leading whitespace.
pub fn trim_start_chars(s: &Vec<char>) -> (r: Vec<char>)
    ensures
        r@ == trim_start(s@),
{
    let n = s.len();
    let mut a: usize = 0;
    assert(s@.subrange(0, n as int) =~= s@);
    while a < n && is_whitespace(s[a])
        invariant
            n == s@.len(),
            a <= n,
            trim_start(s@) == trim_start(s@.subrange(a as int, n as int)),
        decreases n - a,
    {
        assert(s@.subrange(a as int, n as int).drop_first() =~= s@.subrange(a as int + 1, n as int));
        a = a + 1;
    }
    slice(s, a, n)
}

/// `s` without leading and trailing whitespace.
pub fn trim_chars(s: &Vec<char>) -> (r: Vec<char>)
    ensures
        r@ == trim(s@),
{
    let n = s.len();
    let mut a: usize = 0;
    assert(s@.subrange(0, n as int) =~= s@);
    while a < n && is_whitespace(s[a])
        invariant
            n == s@.len(),
            a <= n,
            trim_start(s@) == trim_start(s@.subrange(a as int, n as int)),
        decreases n - a,
    {
        assert(s@.subrange(a as int, n as int).drop_first() =~= s@.subrange(a as int + 1, n as int));
        a = a + 1;
    }
    assert(trim_start(s@) == s@.subrange(a as int, n as int));
    let mut b: usize = n;
    while b > a && is_whitespace(s[b - 1])
        invariant
            n == s@.len(),
            a <= b <= n,
            trim(s@) == trim_end(s@.subrange(a as int, b as int)),
        decreases b,
    {
        assert(s@.subrange(a as int, b as int).drop_last() =~= s@.subrange(a as int, b - 1));
        b = b - 1;
    }
    slice(s, a, b)
}

/// The pieces of `s` between occurrences of `sep`.
pub fn split_chars(s: &Vec<char>, sep: char) -> (r: Vec<String>)
    ensures
        views(r@) == split(s@, sep),
{
    let mut done: Vec<String> = Vec::new();
    let mut cur: Vec<char> = Vec::new();
    let mut i: usize = 0;
    assert(s@.subrange(0, 0) =~= Seq::<char>::empty());
    assert(views(done@).push(cur@) =~= split(Seq::<char>::empty(), sep));
    while i < s.len()
        invariant
            i <= s@.len(),
            split(s@.subrange(0, i as int), sep) == views(done@).push(cur@),
        decreases s@.len() - i,
    {
        let ghost before = views(done@);
        assert(s@.subrange(0, i as int + 1).drop_last() =~= s@.subrange(0, i as int));
        if s[i] == sep {
            let piece = to_string(&cur);
            done.push(piece);
            cur = Vec::new();
            assert(views(done@) =~= before.push(piece@));
        } else {
            cur.push(s[i]);
        }
        i = i + 1;
        assert(split(s@.subrange(0, i as int), sep) =~= views(done@).push(
            cur@,
        ));
    }
    assert(s@.subrange(0, i as int) =~= s@);
    let ghost before = views(done@);
    let last = to_string(&cur);
    done.push(last);
    assert(views(done@) =~= before.push(cur@));
    done
}

proof fn lemma_digits_value_grows(s: Seq<char>, c: char)
    requires
        is_digit(c),
    ensures
        digits_value(s.push(c)) >= digits_value(s),
        digits_value(s.push(c)) == 10 * digits_value(s) + digit_value(c),
{
    assert(s.push(c).drop_last() =~= s);
}

/// The value of `s` as `str::parse::<u16>` reads it.
pub fn parse_u16(s: &Vec<char>) -> (r: Option<u16>)
    ensures
        r == u16_value(s@),
{
    let n = s.len();
    let start: usize = if n > 0 && s[0] == '+' {
        1
    } else {
        0
    };
    let ghost d = unsigned_part(s@);
    assert(d =~= s@.subrange(start as int, n as int));
    if start == n {
        return None;
    }
    let mut acc: u32 = 0;
    let mut i: usize = start;
    while i < n
        invariant
            n == s@.len(),
            start <= i <= n,
            d == s@.subrange(start as int, n as int),
            d == unsigned_part(s@),
            forall|j: int| start <= j < i ==> is_digit(#[trigger] s@[j]),
            acc as int == if digits_value(s@.subrange(start as int, i as int)) > 0x10000 {
                0x10000
            } else {
                digits_value(s@.subrange(start as int, i as int))
            },
        decreases n - i,
    {
        let c = s[i];
        if !('0' <= c && c <= '9') {
            assert(d[i - start] == c);
            assert(!is_digit(d[i - start]));
            assert(!all_digits(d));
            return None;
        }
        let ghost pre = s@.subrange(start as int, i as int);
        assert(s@.subrange(start as int, i as int + 1) =~= pre.push(c));
        proof {
            lemma_digits_value_grows(pre, c);
        }
        let dv = (c as u32) - ('0' as u32);
        if acc < 0x10000 {
            acc = acc * 10 + dv;
            if acc > 0x10000 {
                acc = 0x10000;
            }
        }
        i = i + 1;
    }
    assert(s@.subrange(start as int, i as int) =~= d);
    assert(all_digits(d));
    if acc <= 0xFFFF {
        Some(acc as u16)
    } else {
        None
    }
}

/// The character for the decimal digit `n`.
fn decimal_digit(n: u64) -> (r: char)
    requires
        n < 10,
    ensures
        r == decimal_digits()[n as int],
{
    match n {
        0 => '0',
        1 => '1',
        2 => '2',
        3 => '3',
        4 => '4',
        5 => '5',
        6 => '6',
        7 => '7',
        8 => '8',
        _ => '9',
    }
}

/// The character for the hexadecimal digit `n`.
fn hex_digit(n: u32) -> (r: char)
    requires
        n < 16,
    ensures
        r == hex_digits()[n as int],
{
    match n {
        0 => '0',
        1 => '1',
        2 => '2',
        3 => '3',
        4 => '4',
        5 => '5',
        6 => '6',
        7 => '7',
        8 => '8',
        9 => '9',
        10 => 'a',
        11 => 'b',
        12 => 'c',
        13 => 'd',
        14 => 'e',
        _ => 'f',
    }
}

/// Appends the decimal text of `n` to `out`.
pub fn push_decimal(out: &mut Vec<char>, n: u64)
    ensures
        final(out)@ == old(out)@ + decimal(n as nat),
    decreases n,
{
    if n >= 10 {
        push_decimal(out, n / 10);
    }
    out.push(decimal_digit(n % 10));
    assert(out@ =~= old(out)@ + decimal(n as nat));
}

/// Appends `c` as it stands inside a JSON string literal.
pub fn push_escaped_char(out: &mut Vec<char>, c: char)
    ensures
        final(out)@ == old(out)@ + escape_char(c),
{
    let u = c as u32;
    if c == '"' {
        out.push('\\');
        out.push('"');
    } else if c == '\\' {
        out.push('\\');
        out.push('\\');
    } else if c == '\n' {
        out.push('\\');
        out.push('n');
    } else if c == '\r' {
        out.push('\\');
        out.push('r');
    } else if c == '\t' {
        out.push('\\');
        out.push('t');
    } else if u < 0x20 {
        out.push('\\');
        out.push('u');
        out.push('0');
        out.push('0');
        out.push(hex_digit(u / 16));
        out.push(hex_digit(u % 16));
    } else {
        out.push(c);
    }
    assert(out@ =~= old(out)@ + escape_char(c));
}

/// Appends `s` escaped for a JSON string literal.
pub fn push_escaped(out: &mut Vec<char>, s: &Vec<char>)
    ensures
        final(out)@ == old(out)@ + escape(s@),
{
    let mut i: usize = 0;
    assert(s@.subrange(0, 0) =~= Seq::<char>::empty());
    assert(out@ =~= old(out)@ + escape(s@.subrange(0, 0)));
    while i < s.len()
        invariant
            i <= s@.len(),
            out@ == old(out)@ + escape(s@.subrange(0, i as int)),
        decreases s@.len() - i,
    {
        assert(s@.subrange(0, i as int + 1).drop_last() =~= s@.subrange(0, i as int));
        push_escaped_char(out, s[i]);
        i = i + 1;
        assert(out@ =~= old(out)@ + escape(s@.subrange(0, i as int)));
    }
    assert(s@.subrange(0, i as int) =~= s@);
}

/// Appends `s` as a JSON string literal, quotes included.
pub fn push_quoted(out: &mut Vec<char>, s: &Vec<char>)
    ensures
        final(out)@ == old(out)@ + quoted(s@),
{
    out.push('"');
    push_escaped(out, s);
    out.push('"');
    assert(out@ =~= old(out)@ + quoted(s@));
}

/// The character that a one-letter JSON escape `\x` stands for.
pub open spec fn simple_escape(x: char) -> Option<char> {
    if x == '"' {
        Some('"')
    } else if x == '\\' {
        Some('\\')
    } else if x == '/' {
        Some('/')
    } else if x == 'b' {
        Some('\x08')
    } else if x == 'f' {
        Some('\x0c')
    } else if x == 'n' {
        Some('\n')
    } else if x == 'r' {
        Some('\r')
    } else if x == 't' {
        Some('\t')
    } else {
        None
    }
}

/// The value of a hexadecimal digit, either case.
pub open spec fn hex_value(c: char) -> Option<nat> {
    if '0' <= c && c <= '9' {
        Some((c as u32 - '0' as u32) as nat)
    } else if 'a' <= c && c <= 'f' {
        Some((c as u32 - 'a' as u32 + 10) as nat)
    } else if 'A' <= c && c <= 'F' {
        Some((c as u32 - 'A' as u32 + 10) as nat)
    } else {
        None
    }
}

/// The value of four hexadecimal digits.
pub open spec fn hex4_value(h: Seq<char>) -> Option<nat> {
    if h.len() == 4 && hex_value(h[0]) is Some && hex_value(h[1]) is Some && hex_value(h[2]) is Some
        && hex_value(h[3]) is Some {
        Some(
            ((hex_value(h[0])->0 * 16 + hex_value(h[1])->0) * 16 + hex_value(h[2])->0) * 16
                + hex_value(h[3])->0,
        )
    } else {
        None
    }
}

pub open spec fn code(d: char) -> nat {
    d as u32 as nat
}

pub open spec fn prepend(c: char, rest: Option<Seq<char>>) -> Option<Seq<char>> {
    match rest {
        Some(r) => Some(seq![c] + r),
        None => None,
    }
}

/// The text that the body of a JSON string literal stands for; `None` where
/// the body is no valid one (a bare quote or control character, or a bad
/// escape).
pub open spec fn unescape(e: Seq<char>) -> Option<Seq<char>>
    decreases e.len(),
{
    if e.len() == 0 {
        Some(Seq::empty())
    } else if e[0] == '\\' {
        if e.len() >= 2 && simple_escape(e[1]) is Some {
            prepend(simple_escape(e[1])->0, unescape(e.subrange(2, e.len() as int)))
        } else if e.len() >= 6 && e[1] == 'u' && hex4_value(e.subrange(2, 6)) is Some && exists|
            d: char,
        | #[trigger] code(d) == hex4_value(e.subrange(2, 6))->0 {
            prepend(
                choose|d: char| #[trigger] code(d) == hex4_value(e.subrange(2, 6))->0,
                unescape(e.subrange(6, e.len() as int)),
            )
        } else {
            None
        }
    } else if e[0] == '"' || (e[0] as u32) < 0x20 {
        None
    } else {
        prepend(e[0], unescape(e.drop_first()))
    }
}

proof fn lemma_escape_concat(a: Seq<char>, b: Seq<char>)
    ensures
        escape(a + b) == escape(a) + escape(b),
    decreases b.len(),
{
    if b.len() == 0 {
        assert(a + b =~= a);
        assert(escape(a) + escape(b) =~= escape(a));
    } else {
        assert((a + b).drop_last() =~= a + b.drop_last());
        lemma_escape_concat(a, b.drop_last());
        assert(escape(a + b) =~= escape(a) + escape(b));
    }
}

proof fn lemma_hex_digit_value(k: int)
    requires
        0 <= k < 16,
    ensures
        hex_value(hex_digits()[k]) == Some(k as nat),
{
    let h = hex_digits();
    if k < 10 {
        assert(h[k] as u32 == '0' as u32 + k) by {
            assert(h[0] == '0' && h[1] == '1' && h[2] == '2' && h[3] == '3' && h[4] == '4');
            assert(h[5] == '5' && h[6] == '6' && h[7] == '7' && h[8] == '8' && h[9] == '9');
        }
    } else {
        assert(h[k] as u32 == 'a' as u32 + (k - 10)) by {
            assert(h[10] == 'a' && h[11] == 'b' && h[12] == 'c');
            assert(h[13] == 'd' && h[14] == 'e' && h[15] == 'f');
        }
    }
}

proof fn lemma_unescape_escape_char(c: char, rest: Seq<char>)
    ensures
        unescape(escape_char(c) + rest) == prepend(c, unescape(rest)),
{
    let e = escape_char(c) + rest;
    let u = c as u32;
    if c == '"' || c == '\\' || c == '\n' || c == '\r' || c == '\t' {
        assert(e.subrange(2, e.len() as int) =~= rest);
    } else if u < 0x20 {
        lemma_hex_digit_value((u / 16) as int);
        lemma_hex_digit_value((u % 16) as int);
        assert(e.subrange(2, 6) =~= seq!['0', '0', hex_digits()[(u / 16) as int], hex_digits()[(u % 16) as int]]);
        assert(hex4_value(e.subrange(2, 6)) == Some(u as nat));
        assert(e.subrange(6, e.len() as int) =~= rest);
        assert(code(c) == u);
        let d = choose|d: char| #[trigger] code(d) == u;
        vstd::utf8::char_u32_cast(d, u);
        vstd::utf8::char_u32_cast(c, u);
        assert(d == c);
    } else {
        assert(e.drop_first() =~= rest);
    }
}

/// Escaping loses nothing: decoding the body of a JSON string literal made by
/// `escape` gives back exactly the text that was escaped. So every string
/// that a payload embeds, the nested document included, is a well-formed
/// JSON string that reads back as its source.
pub proof fn lemma_escape_round_trip(s: Seq<char>)
    ensures
        unescape(escape(s)) == Some(s),
    decreases s.len(),
{
    if s.len() > 0 {
        let rest = s.drop_first();
        assert(s =~= seq![s[0]] + rest);
        lemma_escape_concat(seq![s[0]], rest);
        let one = seq![s[0]];
        assert(one.drop_last() =~= Seq::<char>::empty());
        assert(one.last() == s[0]);
        assert(escape(Seq::<char>::empty()) == Seq::<char>::empty());
        assert(escape(one) == escape(one.drop_last()) + escape_char(s[0]));
        assert(escape(one) =~= escape_char(s[0]));
        lemma_escape_round_trip(rest);
        lemma_unescape_escape_char(s[0], escape(rest));
        assert(seq![s[0]] + rest =~= s);
    }
}

/// Splitting gives at least one piece.
pub proof fn lemma_split_not_empty(s: Seq<char>, sep: char)
    ensures
        split(s, sep).len() >= 1,
    decreases s.len(),
{
    if s.len() > 0 {
        lemma_split_not_empty(s.drop_last(), sep);
    }
}

} // verus!
