//! Text: decimal numbers, words, lines and fields.

use vstd::prelude::*;

verus! {

/// The decimal digit of value `d`.
pub open spec fn digit(d: int) -> char {
    (48 + d) as char
}

/// `n` written in decimal, without leading zeros.
pub open spec fn dec(n: nat) -> Seq<char>
    decreases n,
{
    if n < 10 {
        seq![digit(n as int)]
    } else {
        dec(n / 10).push(digit((n % 10) as int))
    }
}

/// The decimal digit of value `d`, as text.
fn digit_str(d: u32) -> (r: &'static str)
    requires
        d < 10,
    ensures
        r@ == seq![digit(d as int)],
{
    proof {
        reveal_strlit("0");
        reveal_strlit("1");
        reveal_strlit("2");
        reveal_strlit("3");
        reveal_strlit("4");
        reveal_strlit("5");
        reveal_strlit("6");
        reveal_strlit("7");
        reveal_strlit("8");
        reveal_strlit("9");
    }
    let r = match d {
        0 => "0",
        1 => "1",
        2 => "2",
        3 => "3",
        4 => "4",
        5 => "5",
        6 => "6",
        7 => "7",
        8 => "8",
        _ => "9",
    };
    assert(r@ =~= seq![digit(d as int)]);
    r
}

/// Appends `n` in decimal.
pub fn push_dec(out: &mut String, n: u32)
    ensures
        final(out)@ == old(out)@ + dec(n as nat),
    decreases n,
{
    if n >= 10 {
        push_dec(out, n / 10);
    }
    out.append(digit_str(n % 10));
    assert(out@ =~= old(out)@ + dec(n as nat));
}

/// The characters of `s`.
pub fn chars_of(s: &str) -> (r: Vec<char>)
    ensures
        r@ == s@,
{
    broadcast use vstd::string::axiom_spec_iter;

    let mut out: Vec<char> = Vec::new();
    for c in it: s.chars()
        invariant
            it.seq() == s@,
            out@ =~= s@.take(it.index()),
    {
        out.push(c);
    }
    assert(s@.take(s@.len() as int) =~= s@);
    out
}

// Pieces.

/// White space, as Unicode has it.
pub open spec fn is_space(c: char) -> bool {
    ||| '\u{9}' <= c <= '\u{d}'
    ||| c == '\u{20}'
    ||| c == '\u{85}'
    ||| c == '\u{a0}'
    ||| c == '\u{1680}'
    ||| '\u{2000}' <= c <= '\u{200a}'
    ||| c == '\u{2028}'
    ||| c == '\u{2029}'
    ||| c == '\u{202f}'
    ||| c == '\u{205f}'
    ||| c == '\u{3000}'
}

/// Whether `c` is white space.
pub fn space(c: char) -> (r: bool)
    ensures
        r == is_space(c),
{
    ('\u{9}' <= c && c <= '\u{d}') || c == '\u{20}' || c == '\u{85}' || c == '\u{a0}' || c
        == '\u{1680}' || ('\u{2000}' <= c && c <= '\u{200a}') || c == '\u{2028}' || c == '\u{2029}'
        || c == '\u{202f}' || c == '\u{205f}' || c == '\u{3000}'
}

/// The characters that part two pieces.
#[derive(Clone, Copy, Debug, PartialEq, Eq, Structural)]
pub enum Separator {
    /// Any white space.
    Space,
    /// This character.
    Char(char),
}

impl Separator {
    /// `c` parts two pieces.
    pub open spec fn matches(self, c: char) -> bool {
        match self {
            Separator::Space => is_space(c),
            Separator::Char(sep) => c == sep,
        }
    }

    /// Whether `c` parts two pieces.
    pub fn test(self, c: char) -> (r: bool)
        ensures
            r == self.matches(c),
    {
        match self {
            Separator::Space => space(c),
            Separator::Char(sep) => c == sep,
        }
    }
}

/// The pieces of `s` between separators; there is one more than there are separators.
pub open spec fn pieces(s: Seq<char>, sep: Separator) -> Seq<Seq<char>>
    decreases s.len(),
{
    if s.len() == 0 {
        seq![Seq::empty()]
    } else {
        let before = pieces(s.drop_last(), sep);
        if sep.matches(s.last()) {
            before.push(Seq::empty())
        } else {
            before.drop_last().push(before.last().push(s.last()))
        }
    }
}

/// The pieces of `s` between separators.
pub fn split(s: &[char], sep: Separator) -> (r: Vec<Vec<char>>)
    ensures
        r@.len() == pieces(s@, sep).len(),
        forall|i: int| 0 <= i < r@.len() ==> (#[trigger] r@[i])@ == pieces(s@, sep)[i],
{
    let mut done: Vec<Vec<char>> = Vec::new();
    let mut last: Vec<char> = Vec::new();
    let mut i: usize = 0;
    assert(last@ =~= Seq::empty());
    assert(s@.take(0) =~= Seq::empty());
    while i < s.len()
        invariant
            i <= s@.len(),
            pieces(s@.take(i as int), sep).len() == done@.len() + 1,
            forall|j: int|
                0 <= j < done@.len() ==> (#[trigger] done@[j])@ == pieces(
                    s@.take(i as int),
                    sep,
                )[j],
            last@ == pieces(s@.take(i as int), sep).last(),
        decreases s.len() - i,
    {
        let c = s[i];
        proof {
            assert(s@.take(i + 1).drop_last() =~= s@.take(i as int));
            assert(s@.take(i + 1).last() == c);
        }
        if sep.test(c) {
            done.push(last);
            last = Vec::new();
            assert(last@ =~= Seq::empty());
        } else {
            last.push(c);
        }
        i += 1;
    }
    assert(s@.take(i as int) =~= s@);
    done.push(last);
    done
}

/// `s` without white space at its start.
pub open spec fn trim_start(s: Seq<char>) -> Seq<char>
    decreases s.len(),
{
    if s.len() > 0 && is_space(s.first()) {
        trim_start(s.drop_first())
    } else {
        s
    }
}

/// `s` without white space at its end.
pub open spec fn trim_end(s: Seq<char>) -> Seq<char>
    decreases s.len(),
{
    if s.len() > 0 && is_space(s.last()) {
        trim_end(s.drop_last())
    } else {
        s
    }
}

/// `s` without white space at its ends.
pub open spec fn trim(s: Seq<char>) -> Seq<char> {
    trim_end(trim_start(s))
}

/// `s` without white space at its ends.
pub fn trimmed(s: &[char]) -> (r: &[char])
    ensures
        r@ == trim(s@),
{
    let (from, to) = trim_bounds(s);
    &s[from..to]
}

/// Where what is left of `s` without white space at its ends starts and ends.
pub fn trim_bounds(s: &[char]) -> (r: (usize, usize))
    ensures
        r.0 <= r.1 <= s@.len(),
        s@.subrange(r.0 as int, r.1 as int) == trim(s@),
{
    let mut from: usize = 0;
    assert(s@.skip(0) =~= s@);
    while from < s.len() && space(s[from])
        invariant
            from <= s@.len(),
            trim_start(s@.skip(from as int)) == trim_start(s@),
        decreases s.len() - from,
    {
        assert(s@.skip(from as int).drop_first() =~= s@.skip(from + 1));
        from += 1;
    }
    let ghost rest = s@.skip(from as int);
    assert(rest == trim_start(s@));
    let mut to: usize = s.len();
    assert(s@.subrange(from as int, to as int) =~= rest);
    while to > from && space(s[to - 1])
        invariant
            from <= to <= s@.len(),
            trim_end(s@.subrange(from as int, to as int)) == trim_end(rest),
        decreases to,
    {
        assert(s@.subrange(from as int, to as int).drop_last() =~= s@.subrange(
            from as int,
            to - 1,
        ));
        to -= 1;
    }
    (from, to)
}

/// Whether `s` starts with `prefix`.
pub fn starts_with(s: &[char], prefix: &str) -> (r: bool)
    ensures
        r == prefix@.is_prefix_of(s@),
{
    let p = chars_of(prefix);
    if s.len() < p.len() {
        return false;
    }
    let mut i: usize = 0;
    while i < p.len()
        invariant
            i <= p@.len() <= s@.len(),
            p@ == prefix@,
            forall|j: int| 0 <= j < i ==> p@[j] == s@[j],
        decreases p.len() - i,
    {
        if s[i] != p[i] {
            assert(s@.subrange(0, p@.len() as int)[i as int] != p@[i as int]);
            return false;
        }
        i += 1;
    }
    assert(p@ =~= s@.subrange(0, p@.len() as int));
    true
}

/// Whether `s` is `other`.
pub fn same(s: &[char], other: &str) -> (r: bool)
    ensures
        r == (s@ == other@),
{
    let o = chars_of(other);
    if s.len() != o.len() {
        return false;
    }
    let mut i: usize = 0;
    while i < o.len()
        invariant
            i <= o@.len() == s@.len(),
            o@ == other@,
            forall|j: int| 0 <= j < i ==> o@[j] == s@[j],
        decreases o.len() - i,
    {
        if s[i] != o[i] {
            return false;
        }
        i += 1;
    }
    assert(s@ =~= o@);
    true
}

// Numbers.

/// The value of a digit in a radix up to 16.
pub open spec fn digit_value(c: char, radix: nat) -> Option<nat> {
    let v = if '0' <= c <= '9' {
        c as int - '0' as int
    } else if 'a' <= c <= 'f' {
        c as int - 'a' as int + 10
    } else if 'A' <= c <= 'F' {
        c as int - 'A' as int + 10
    } else {
        16
    };
    if v < radix {
        Some(v as nat)
    } else {
        None
    }
}

/// The number that is written as `s`, where all of it is digits.
pub open spec fn number(s: Seq<char>, radix: nat) -> Option<nat>
    decreases s.len(),
{
    if s.len() == 0 {
        Some(0)
    } else {
        match (number(s.drop_last(), radix), digit_value(s.last(), radix)) {
            (Some(n), Some(d)) => Some(n * radix + d),
            _ => None,
        }
    }
}

/// `s` without a plus sign at its start.
pub open spec fn unsigned_part(s: Seq<char>) -> Seq<char> {
    if s.len() > 0 && s[0] == '+' {
        s.skip(1)
    } else {
        s
    }
}

/// The 32-bit number that is written as `s`: at least one digit, with or without a plus sign.
pub open spec fn u32_of(s: Seq<char>, radix: nat) -> Option<u32> {
    let digits = unsigned_part(s);
    if digits.len() == 0 {
        None
    } else {
        match number(digits, radix) {
            Some(n) if n <= u32::MAX => Some(n as u32),
            _ => None,
        }
    }
}

/// A number is not smaller than one that is written as its start.
proof fn number_of_start(s: Seq<char>, radix: nat, i: int)
    requires
        0 <= i <= s.len(),
        radix >= 1,
        number(s, radix) is Some,
    ensures
        number(s.take(i), radix) is Some,
        number(s.take(i), radix)->0 <= number(s, radix)->0,
    decreases s.len(),
{
    if i == s.len() {
        assert(s.take(i) =~= s);
    } else {
        number_of_start(s.drop_last(), radix, i);
        assert(s.drop_last().take(i) =~= s.take(i));
        let n = number(s.drop_last(), radix)->0;
        assert(n <= n * radix) by (nonlinear_arith)
            requires
                radix >= 1,
        ;
    }
}

/// A number in decimal is digits only, at least one.
pub proof fn dec_is_digits(n: nat)
    ensures
        dec(n).len() >= 1,
        forall|i: int| 0 <= i < dec(n).len() ==> '0' <= #[trigger] dec(n)[i] <= '9',
    decreases n,
{
    if n >= 10 {
        dec_is_digits(n / 10);
    }
}

/// A number in decimal reads back as the number.
pub proof fn dec_reads_back(n: nat)
    ensures
        number(dec(n), 10) == Some(n),
    decreases n,
{
    let d = digit((n % 10) as int);
    assert(digit_value(d, 10) == Some(n % 10));
    if n >= 10 {
        dec_reads_back(n / 10);
        assert(dec(n).drop_last() =~= dec(n / 10));
        assert(dec(n).last() == d);
    } else {
        assert(dec(n) =~= seq![d]);
        assert(dec(n).drop_last() =~= Seq::empty());
        assert(number(Seq::empty(), 10) == Some(0nat));
        assert(dec(n).last() == d);
    }
}

/// The value of a digit.
fn value_of_digit(c: char, radix: u32) -> (r: Option<u32>)
    requires
        radix <= 16,
    ensures
        match r {
            Some(d) => digit_value(c, radix as nat) == Some(d as nat) && d < radix,
            None => digit_value(c, radix as nat) is None,
        },
{
    let v: u32 = if '0' <= c && c <= '9' {
        c as u32 - '0' as u32
    } else if 'a' <= c && c <= 'f' {
        c as u32 - 'a' as u32 + 10
    } else if 'A' <= c && c <= 'F' {
        c as u32 - 'A' as u32 + 10
    } else {
        16
    };
    if v < radix {
        Some(v)
    } else {
        None
    }
}

/// Reads a 32-bit number.
pub fn parse_u32(s: &[char], radix: u32) -> (r: Option<u32>)
    requires
        2 <= radix <= 16,
    ensures
        r == u32_of(s@, radix as nat),
{
    let digits = if s.len() > 0 && s[0] == '+' {
        &s[1..s.len()]
    } else {
        s
    };
    assert(digits@ =~= unsigned_part(s@));
    if digits.len() == 0 {
        return None;
    }
    let mut n: u32 = 0;
    let mut i: usize = 0;
    assert(digits@.take(0) =~= Seq::empty());
    while i < digits.len()
        invariant
            i <= digits@.len(),
            2 <= radix <= 16,
            number(digits@.take(i as int), radix as nat) == Some(n as nat),
            digits@ == unsigned_part(s@),
            digits@.len() > 0,
        decreases digits.len() - i,
    {
        proof {
            assert(digits@.take(i + 1).drop_last() =~= digits@.take(i as int));
            assert(digits@.take(i + 1).last() == digits@[i as int]);
            if number(digits@, radix as nat) is Some {
                number_of_start(digits@, radix as nat, i + 1);
            }
        }
        match value_of_digit(digits[i], radix) {
            None => {
                return None;
            },
            Some(d) => {
                let wide = widened(n, radix, d);
                if wide > 0xFFFF_FFFF {
                    return None;
                }
                n = wide as u32;
            },
        }
        i += 1;
    }
    assert(digits@.take(i as int) =~= digits@);
    Some(n)
}

/// One more digit.
fn widened(n: u32, radix: u32, d: u32) -> (r: u64)
    requires
        radix <= 16,
        d < radix,
    ensures
        r == n as nat * radix as nat + d as nat,
{
    assert(n as u64 * radix as u64 <= 0xFFFF_FFFF * 16) by (nonlinear_arith)
        requires
            n <= 0xFFFF_FFFF,
            radix <= 16,
    ;
    n as u64 * radix as u64 + d as u64
}

// What the pieces of a text are.

/// No character of `s` is a separator.
pub open spec fn is_whole(s: Seq<char>, sep: Separator) -> bool {
    forall|i: int| 0 <= i < s.len() ==> !sep.matches(#[trigger] s[i])
}

/// Every character of `s` is white space.
pub open spec fn is_blank(s: Seq<char>) -> bool {
    forall|i: int| 0 <= i < s.len() ==> is_space(#[trigger] s[i])
}

/// `s` neither starts nor ends with white space.
pub open spec fn is_tight(s: Seq<char>) -> bool {
    s.len() > 0 ==> !is_space(s[0]) && !is_space(s.last())
}

/// Which characters are white space: tabulators and ends of lines, and the spaces of Unicode.
pub proof fn spaces_are_these(c: char)
    ensures
        is_space(c) <==> {
            ||| 9 <= c as int <= 13 || c as int == 32 || c as int == 133 || c as int == 160
            ||| c as int == 5760 || 8192 <= c as int <= 8202 || c as int == 8232
            ||| c as int == 8233 || c as int == 8239 || c as int == 8287 || c as int == 12288
        },
        Separator::Space.matches(c) == is_space(c),
        Separator::Char(c).matches(c),
{
}

/// A separator parts a text in two: its pieces are those of what is before it and then those of
/// what is after it.  A text without separators is one piece.
pub proof fn separators_part_texts(a: Seq<char>, c: char, b: Seq<char>, sep: Separator)
    requires
        sep.matches(c),
    ensures
        pieces(a.push(c) + b, sep) == pieces(a, sep) + pieces(b, sep),
        is_whole(a, sep) ==> pieces(a, sep) == seq![a],
        pieces(a, sep).len() >= 1,
    decreases b.len(),
{
    whole_texts_are_one_piece(a, sep);
    pieces_are_there(a, sep);
    let all = a.push(c) + b;
    if b.len() == 0 {
        assert(all.drop_last() =~= a);
        assert(all.last() == c);
        assert(b =~= Seq::empty());
        assert(pieces(all, sep) =~= pieces(a, sep) + pieces(b, sep));
    } else {
        separators_part_texts(a, c, b.drop_last(), sep);
        pieces_are_there(b.drop_last(), sep);
        assert(all.drop_last() =~= a.push(c) + b.drop_last());
        assert(all.last() == b.last());
        assert(pieces(all, sep) =~= pieces(a, sep) + pieces(b, sep));
    }
}

/// There is always a piece.
proof fn pieces_are_there(s: Seq<char>, sep: Separator)
    ensures
        pieces(s, sep).len() >= 1,
    decreases s.len(),
{
    if s.len() > 0 {
        pieces_are_there(s.drop_last(), sep);
    }
}

/// A text without separators is one piece.
proof fn whole_texts_are_one_piece(s: Seq<char>, sep: Separator)
    ensures
        is_whole(s, sep) ==> pieces(s, sep) == seq![s],
    decreases s.len(),
{
    if is_whole(s, sep) {
        if s.len() == 0 {
            assert(s =~= Seq::empty());
        } else {
            assert(is_whole(s.drop_last(), sep)) by {
                assert forall|i: int| 0 <= i < s.drop_last().len() implies !sep.matches(
                    #[trigger] s.drop_last()[i],
                ) by {
                    assert(!sep.matches(s[i]));
                }
            }
            whole_texts_are_one_piece(s.drop_last(), sep);
            assert(!sep.matches(s[s.len() - 1]));
            assert(s.drop_last().push(s.last()) =~= s);
            assert(pieces(s, sep) =~= seq![s]);
        }
    }
}

/// White space around a text is taken away, all of it and nothing else.
pub proof fn trimming_takes_white_space_away(a: Seq<char>, s: Seq<char>, b: Seq<char>)
    requires
        is_blank(a),
        is_blank(b),
        is_tight(s),
    ensures
        trim(a + s + b) == s,
{
    if s.len() == 0 {
        assert(is_blank(a + s + b));
        blank_texts_vanish(a + s + b);
        assert(s =~= Seq::empty());
    } else {
        assert(a + s + b =~= a + (s + b));
        starts_are_trimmed(a, s + b);
        ends_are_trimmed(s, b);
    }
}

/// Of a text that is all white space nothing is left.
proof fn blank_texts_vanish(s: Seq<char>)
    requires
        is_blank(s),
    ensures
        trim_start(s).len() == 0,
        trim(s) == Seq::<char>::empty(),
    decreases s.len(),
{
    if s.len() > 0 {
        assert(is_space(s[0]));
        assert forall|i: int| 0 <= i < s.drop_first().len() implies is_space(
            #[trigger] s.drop_first()[i],
        ) by {
            assert(is_space(s[i + 1]));
        }
        blank_texts_vanish(s.drop_first());
    }
    assert(trim_start(s) =~= Seq::empty());
}

/// White space before a text that starts with none is taken away.
proof fn starts_are_trimmed(a: Seq<char>, s: Seq<char>)
    requires
        is_blank(a),
        s.len() > 0,
        !is_space(s[0]),
    ensures
        trim_start(a + s) == s,
    decreases a.len(),
{
    if a.len() == 0 {
        assert(a + s =~= s);
    } else {
        assert((a + s)[0] == a[0]);
        assert(is_space(a[0]));
        assert forall|i: int| 0 <= i < a.drop_first().len() implies is_space(
            #[trigger] a.drop_first()[i],
        ) by {
            assert(is_space(a[i + 1]));
        }
        assert((a + s).drop_first() =~= a.drop_first() + s);
        starts_are_trimmed(a.drop_first(), s);
    }
}

/// White space after a text that ends with none is taken away.
proof fn ends_are_trimmed(s: Seq<char>, b: Seq<char>)
    requires
        is_blank(b),
        s.len() > 0,
        !is_space(s.last()),
    ensures
        trim_end(s + b) == s,
    decreases b.len(),
{
    if b.len() == 0 {
        assert(s + b =~= s);
    } else {
        assert((s + b).last() == b.last());
        assert(is_space(b[b.len() - 1]));
        assert forall|i: int| 0 <= i < b.drop_last().len() implies is_space(
            #[trigger] b.drop_last()[i],
        ) by {
            assert(is_space(b[i]));
        }
        assert((s + b).drop_last() =~= s + b.drop_last());
        ends_are_trimmed(s, b.drop_last());
    }
}

/// What digits are worth: '0' to '9' from zero on, and in radix 16 'a' to 'f', in either case, from
/// ten on.  Nothing else is a digit.
pub proof fn digits_are_worth_this(c: char)
    ensures
        digit_value(c, 10) is Some <==> '0' <= c <= '9',
        '0' <= c <= '9' ==> digit_value(c, 10) == Some((c as int - 48) as nat),
        '0' <= c <= '9' ==> digit_value(c, 16) == Some((c as int - 48) as nat),
        'a' <= c <= 'f' ==> digit_value(c, 16) == Some((c as int - 87) as nat),
        'A' <= c <= 'F' ==> digit_value(c, 16) == Some((c as int - 55) as nat),
        digit_value(c, 16) is Some <==> '0' <= c <= '9' || 'a' <= c <= 'f' || 'A' <= c <= 'F',
{
}

/// Numbers are positional: one more digit multiplies by the radix and adds its worth.
pub proof fn numbers_are_positional(s: Seq<char>, c: char, radix: nat)
    requires
        number(s, radix) is Some,
        digit_value(c, radix) is Some,
    ensures
        number(Seq::<char>::empty(), radix) == Some(0nat),
        number(s.push(c), radix) == Some(number(s, radix)->0 * radix + digit_value(c, radix)->0),
{
    assert(s.push(c).drop_last() =~= s);
}

/// A text that holds something else than digits is no number.
pub proof fn other_texts_are_no_numbers(s: Seq<char>, radix: nat, i: int)
    requires
        0 <= i < s.len(),
        digit_value(s[i], radix) is None,
    ensures
        number(s, radix) is None,
    decreases s.len(),
{
    if i < s.len() - 1 {
        other_texts_are_no_numbers(s.drop_last(), radix, i);
    }
}

/// A 32-bit number is read exactly from texts of at least one digit whose number fits, with a plus
/// sign before it or not.
pub proof fn words_are_read_where_they_fit(s: Seq<char>, radix: nat)
    requires
        s.len() > 0,
        s[0] != '+',
    ensures
        u32_of(s, radix) is Some <==> number(s, radix) is Some && number(s, radix)->0
            < 0x1_0000_0000,
        u32_of(s, radix) matches Some(n) ==> number(s, radix) == Some(n as nat),
        u32_of(seq!['+'] + s, radix) == u32_of(s, radix),
        u32_of(Seq::<char>::empty(), radix) is None,
        u32_of(seq!['+'], radix) is None,
{
    assert((seq!['+'] + s).skip(1) =~= s);
}

} // verus!
