//! Versions of the NVIDIA driver.

use vstd::prelude::*;

use crate::text::{
    chars_of, dec, dec_is_digits, dec_reads_back, digit, is_space, is_whole, number, parse_u32,
    pieces, push_dec, separators_part_texts, split, u32_of, unsigned_part, Separator,
};

verus! {

/// A version such as 535.129.03.
#[derive(Clone, Copy, Debug, PartialEq, Eq, Structural)]
pub struct DriverVersion {
    pub major: u32,
    pub minor: u32,
    pub patch: u32,
}

/// `n` in decimal, with at least two digits.
pub open spec fn dec2(n: nat) -> Seq<char> {
    if n < 10 {
        "0"@ + dec(n)
    } else {
        dec(n)
    }
}

/// The version that a word is: three numbers with dots between them, the first at least 500.
pub open spec fn version_of_word(word: Seq<char>) -> Option<DriverVersion> {
    let parts = pieces(word, Separator::Char('.'));
    if parts.len() == 3 {
        match (u32_of(parts[0], 10), u32_of(parts[1], 10), u32_of(parts[2], 10)) {
            (Some(major), Some(minor), Some(patch)) if major >= 500 => Some(
                DriverVersion { major, minor, patch },
            ),
            _ => None,
        }
    } else {
        None
    }
}

/// The first version among words.
pub open spec fn first_version(words: Seq<Seq<char>>) -> Option<DriverVersion>
    decreases words.len(),
{
    if words.len() == 0 {
        None
    } else {
        match version_of_word(words.first()) {
            Some(v) => Some(v),
            None => first_version(words.drop_first()),
        }
    }
}

/// The first version in a text.
pub open spec fn version_in(text: Seq<char>) -> Option<DriverVersion> {
    first_version(pieces(text, Separator::Space))
}

/// The version that a word is.
fn word_version(word: &[char]) -> (r: Option<DriverVersion>)
    ensures
        r == version_of_word(word@),
{
    let parts = split(word, Separator::Char('.'));
    if parts.len() != 3 {
        return None;
    }
    match (
        parse_u32(parts[0].as_slice(), 10),
        parse_u32(parts[1].as_slice(), 10),
        parse_u32(parts[2].as_slice(), 10),
    ) {
        (Some(major), Some(minor), Some(patch)) => if major >= 500 {
            Some(DriverVersion { major, minor, patch })
        } else {
            None
        },
        _ => None,
    }
}

impl DriverVersion {
    /// The version `major.minor.patch`.
    pub fn new(major: u32, minor: u32, patch: u32) -> (r: Self)
        ensures
            r == (DriverVersion { major, minor, patch }),
    {
        DriverVersion { major, minor, patch }
    }

    /// Finds the version in what the driver says of itself in /proc/driver/nvidia/version, such
    /// as "NVRM version: NVIDIA UNIX x86_64 Kernel Module  535.129.03  ...".
    pub fn detect(content: &str) -> (r: Result<Self, String>)
        ensures
            match r {
                Ok(v) => version_in(content@) == Some(v),
                Err(e) => version_in(content@) is None && e@
                    == "Could not parse NVIDIA driver version from /proc/driver/nvidia/version"@,
            },
    {
        let text = chars_of(content);
        let words = split(text.as_slice(), Separator::Space);
        let ghost all = pieces(content@, Separator::Space);
        let mut i: usize = 0;
        assert(all.skip(0) =~= all);
        while i < words.len()
            invariant
                i <= words@.len() == all.len(),
                all == pieces(content@, Separator::Space),
                forall|j: int| 0 <= j < words@.len() ==> (#[trigger] words@[j])@ == all[j],
                first_version(all) == first_version(all.skip(i as int)),
            decreases words.len() - i,
        {
            let found = word_version(words[i].as_slice());
            assert(all.skip(i as int).first() == all[i as int]);
            assert(all.skip(i as int).drop_first() =~= all.skip(i + 1));
            if let Some(v) = found {
                return Ok(v);
            }
            i += 1;
        }
        Err("Could not parse NVIDIA driver version from /proc/driver/nvidia/version".to_owned())
    }

    /// The version as text: at least two digits for its second and third number.
    pub open spec fn text(self) -> Seq<char> {
        dec(self.major as nat) + "."@ + dec2(self.minor as nat) + "."@ + dec2(self.patch as nat)
    }

    /// The version as text, such as "535.129.03".
    pub fn as_string(&self) -> (r: String)
        ensures
            r@ == self.text(),
    {
        let mut out = String::new();
        push_dec(&mut out, self.major);
        out.append(".");
        push_dec2(&mut out, self.minor);
        out.append(".");
        push_dec2(&mut out, self.patch);
        assert(out@ =~= self.text());
        out
    }
}

/// Appends `n` in decimal, with at least two digits.
fn push_dec2(out: &mut String, n: u32)
    ensures
        final(out)@ == old(out)@ + dec2(n as nat),
{
    if n < 10 {
        out.append("0");
    }
    push_dec(out, n);
    assert(out@ =~= old(out)@ + dec2(n as nat));
}

/// A part of a version reads back as its number, and holds neither dots nor white space.
proof fn part_reads_back(n: u32)
    ensures
        u32_of(dec(n as nat), 10) == Some(n),
        u32_of(dec2(n as nat), 10) == Some(n),
        forall|i: int|
            0 <= i < dec(n as nat).len() ==> '0' <= #[trigger] dec(n as nat)[i] <= '9',
        forall|i: int|
            0 <= i < dec2(n as nat).len() ==> '0' <= #[trigger] dec2(n as nat)[i] <= '9',
{
    reveal_strlit("0");
    dec_is_digits(n as nat);
    dec_reads_back(n as nat);
    let d = dec(n as nat);
    assert(d.len() > 0);
    assert(unsigned_part(d) == d);
    let e = dec2(n as nat);
    if n < 10 {
        assert(d =~= seq![digit(n as int)]);
        assert(e =~= seq!['0', digit(n as int)]);
        assert(e.drop_last() =~= seq!['0']);
        assert(seq!['0'].drop_last() =~= Seq::empty());
        assert(number(Seq::empty(), 10) == Some(0nat));
        assert(number(seq!['0'], 10) == Some(0nat));
        assert(d.drop_last() =~= Seq::empty());
    }
    assert(unsigned_part(e) == e);
}

/// Text without the separator is one piece; text after a separator starts a new one.
proof fn pieces_of_parts(before: Seq<char>, word: Seq<char>, sep: Separator)
    requires
        forall|i: int| 0 <= i < word.len() ==> !sep.matches(#[trigger] word[i]),
    ensures
        pieces(word, sep) == seq![word],
        forall|c: char|
            #![trigger before.push(c)]
            sep.matches(c) ==> pieces(before.push(c) + word, sep) == pieces(before, sep).push(word),
    decreases word.len(),
{
    if word.len() == 0 {
        assert(word =~= Seq::empty());
        assert forall|c: char|
            #![trigger before.push(c)]
            sep.matches(c) implies pieces(before.push(c) + word, sep) == pieces(before, sep).push(
            word,
        ) by {
            assert(before.push(c) + word =~= before.push(c));
            assert(before.push(c).drop_last() =~= before);
        }
    } else {
        let shorter = word.drop_last();
        pieces_of_parts(before, shorter, sep);
        assert(shorter.push(word.last()) =~= word);
        assert(pieces(word, sep) =~= seq![word]);
        assert forall|c: char|
            #![trigger before.push(c)]
            sep.matches(c) implies pieces(before.push(c) + word, sep) == pieces(before, sep).push(
            word,
        ) by {
            let all = before.push(c) + word;
            assert(all.drop_last() =~= before.push(c) + shorter);
            assert(all.last() == word.last());
            assert(pieces(all, sep) =~= pieces(before, sep).push(word));
        }
    }
}

/// A version is found again in the text that it is written as.
pub proof fn text_reads_back(v: DriverVersion)
    requires
        v.major >= 500,
    ensures
        version_in(v.text()) == Some(v),
{
    let (a, b, c) = (dec(v.major as nat), dec2(v.minor as nat), dec2(v.patch as nat));
    reveal_strlit(".");
    part_reads_back(v.major);
    part_reads_back(v.minor);
    part_reads_back(v.patch);
    let dot = Separator::Char('.');
    let text = v.text();
    let two = a.push('.') + b;
    assert("."@ =~= seq!['.']);
    assert(text =~= two.push('.') + c);
    pieces_of_parts(Seq::empty(), a, dot);
    pieces_of_parts(a, b, dot);
    pieces_of_parts(two, c, dot);
    assert(pieces(text, dot) =~= seq![a, b, c]);
    assert forall|i: int| 0 <= i < text.len() implies !Separator::Space.matches(#[trigger] text[i])
        by {
        if i < a.len() {
            assert(text[i] == a[i]);
        } else if a.len() < i < a.len() + 1 + b.len() {
            assert(text[i] == b[i - a.len() - 1]);
        } else if i > a.len() + 1 + b.len() {
            assert(text[i] == c[i - a.len() - 1 - b.len() - 1]);
        } else {
            assert(text[i] == '.');
        }
    }
    pieces_of_parts(Seq::empty(), text, Separator::Space);
    assert(seq![text].first() == text);
}

/// A version is three numbers with dots between them, the first at least 500.
pub proof fn versions_are_three_numbers(a: Seq<char>, b: Seq<char>, c: Seq<char>)
    requires
        is_whole(a, Separator::Char('.')),
        is_whole(b, Separator::Char('.')),
        is_whole(c, Separator::Char('.')),
    ensures
        ({
            let v = version_of_word(a.push('.') + (b.push('.') + c));
            let (x, y, z) = (u32_of(a, 10), u32_of(b, 10), u32_of(c, 10));
            &&& v is Some <==> x is Some && y is Some && z is Some && x->0 >= 500
            &&& v is Some ==> v->0.major == x->0 && v->0.minor == y->0 && v->0.patch == z->0
        }),
{
    let dot = Separator::Char('.');
    separators_part_texts(a, '.', b.push('.') + c, dot);
    separators_part_texts(b, '.', c, dot);
    separators_part_texts(c, '.', c, dot);
    assert(pieces(a.push('.') + (b.push('.') + c), dot) =~= seq![a, b, c]);
}

/// Words with more or fewer than two dots are no versions.
pub proof fn other_words_are_no_versions(word: Seq<char>)
    requires
        pieces(word, Separator::Char('.')).len() != 3,
    ensures
        version_of_word(word) is None,
{
}

/// The first version of a text counts: that of what is before white space, if there is one, or
/// else that of what is after it.  A text without white space is one word.
pub proof fn first_version_counts(a: Seq<char>, space: char, b: Seq<char>)
    requires
        is_space(space),
    ensures
        version_in(a.push(space) + b) == if version_in(a) is Some {
            version_in(a)
        } else {
            version_in(b)
        },
        is_whole(a, Separator::Space) ==> version_in(a) == version_of_word(a),
{
    separators_part_texts(a, space, b, Separator::Space);
    first_of_both(pieces(a, Separator::Space), pieces(b, Separator::Space));
    if is_whole(a, Separator::Space) {
        let one = seq![a];
        assert(one.first() == a);
        assert(one.drop_first() =~= Seq::empty());
        assert(first_version(one.drop_first()) is None);
    }
}

/// The first version of words and further words.
proof fn first_of_both(a: Seq<Seq<char>>, b: Seq<Seq<char>>)
    ensures
        first_version(a + b) == if first_version(a) is Some {
            first_version(a)
        } else {
            first_version(b)
        },
    decreases a.len(),
{
    if a.len() == 0 {
        assert(a + b =~= b);
    } else {
        assert((a + b).first() == a.first());
        assert((a + b).drop_first() =~= a.drop_first() + b);
        first_of_both(a.drop_first(), b);
    }
}

/// The second and third number of a version are written with at least two digits, and with a zero
/// before them only where they have one.
pub proof fn small_numbers_have_two_digits(n: u32)
    ensures
        dec2(n as nat).len() >= 2,
        u32_of(dec2(n as nat), 10) == Some(n),
        n < 10 ==> dec2(n as nat).len() == 2 && dec2(n as nat)[0] == '0',
        n >= 10 ==> dec2(n as nat) == dec(n as nat),
{
    reveal_strlit("0");
    part_reads_back(n);
    dec_is_digits(n as nat);
    if n >= 10 {
        dec_is_digits((n / 10) as nat);
    }
}

} // verus!
