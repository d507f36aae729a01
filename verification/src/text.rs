//! Character classes and whitespace handling shared by the text-processing
//! modules. Strings are modelled by their view, a `Seq<char>`.

use vstd::prelude::*;

verus! {

/// `String::push` appends one character to the end of the string.
pub assume_specification[ std::string::String::push ](s: &mut std::string::String, ch: char)
    ensures
        final(s)@ == old(s)@.push(ch),
;

/// Unicode `White_Space` property, the class that `char::is_whitespace`,
/// `str::trim` and `str::split_whitespace` use.
pub open spec fn is_ws(c: char) -> bool {
    let u = c as u32;
    ||| 0x09 <= u <= 0x0D
    ||| u == 0x20
    ||| u == 0x85
    ||| u == 0xA0
    ||| u == 0x1680
    ||| 0x2000 <= u <= 0x200A
    ||| u == 0x2028
    ||| u == 0x2029
    ||| u == 0x202F
    ||| u == 0x205F
    ||| u == 0x3000
}

/// General category `Cc` (what `char::is_control` tests).
pub open spec fn is_control(c: char) -> bool {
    let u = c as u32;
    u <= 0x1F || (0x7F <= u <= 0x9F)
}

pub fn char_is_ws(c: char) -> (b: bool)
    ensures
        b == is_ws(c),
{
    let u = c as u32;
    (0x09 <= u && u <= 0x0D) || u == 0x20 || u == 0x85 || u == 0xA0 || u == 0x1680 || (0x2000
        <= u && u <= 0x200A) || u == 0x2028 || u == 0x2029 || u == 0x202F || u == 0x205F || u
        == 0x3000
}

pub fn char_is_control(c: char) -> (b: bool)
    ensures
        b == is_control(c),
{
    let u = c as u32;
    u <= 0x1F || (0x7F <= u && u <= 0x9F)
}

/// The characters of `s` with leading whitespace removed (`str::trim_start`).
pub open spec fn trim_start_ws(s: Seq<char>) -> Seq<char>
    decreases s.len(),
{
    if s.len() > 0 && is_ws(s[0]) {
        trim_start_ws(s.drop_first())
    } else {
        s
    }
}

/// The characters of `s` with trailing whitespace removed (`str::trim_end`).
pub open spec fn trim_end_ws(s: Seq<char>) -> Seq<char>
    decreases s.len(),
{
    if s.len() > 0 && is_ws(s.last()) {
        trim_end_ws(s.drop_last())
    } else {
        s
    }
}

/// `str::trim`.
pub open spec fn trim_ws(s: Seq<char>) -> Seq<char> {
    trim_end_ws(trim_start_ws(s))
}

/// Leading occurrences of `c` removed (`str::trim_start_matches(c)`).
pub open spec fn trim_start_char(s: Seq<char>, c: char) -> Seq<char>
    decreases s.len(),
{
    if s.len() > 0 && s[0] == c {
        trim_start_char(s.drop_first(), c)
    } else {
        s
    }
}

/// Trailing occurrences of `c` removed (`str::trim_end_matches(c)`).
pub open spec fn trim_end_char(s: Seq<char>, c: char) -> Seq<char>
    decreases s.len(),
{
    if s.len() > 0 && s.last() == c {
        trim_end_char(s.drop_last(), c)
    } else {
        s
    }
}

/// `str::trim_matches(c)` for a single character.
pub open spec fn trim_char(s: Seq<char>, c: char) -> Seq<char> {
    trim_end_char(trim_start_char(s, c), c)
}

/// True when every character is whitespace (`s.trim().is_empty()`).
pub open spec fn is_blank(s: Seq<char>) -> bool {
    forall|i: int| 0 <= i < s.len() ==> is_ws(#[trigger] s[i])
}

pub open spec fn starts_with(s: Seq<char>, p: Seq<char>) -> bool {
    p.len() <= s.len() && s.take(p.len() as int) == p
}

pub open spec fn ends_with(s: Seq<char>, p: Seq<char>) -> bool {
    p.len() <= s.len() && s.skip(s.len() - p.len()) == p
}

/// True when `p` occurs as a contiguous run of `s` (`str::contains`).
pub open spec fn contains_seq(s: Seq<char>, p: Seq<char>) -> bool {
    exists|i: int| 0 <= i && i + p.len() <= s.len() && #[trigger] s.subrange(i, i + p.len()) == p
}

/// The number of leading `c` characters of `s`.
pub open spec fn count_leading(s: Seq<char>, c: char) -> nat
    decreases s.len(),
{
    if s.len() > 0 && s[0] == c {
        1 + count_leading(s.drop_first(), c)
    } else {
        0
    }
}

pub proof fn lemma_trim_start_char_skip(s: Seq<char>, c: char)
    ensures
        count_leading(s, c) <= s.len(),
        trim_start_char(s, c) == s.skip(count_leading(s, c) as int),
        forall|j: int| 0 <= j < count_leading(s, c) ==> s[j] == c,
        count_leading(s, c) < s.len() ==> s[count_leading(s, c) as int] != c,
    decreases s.len(),
{
    if s.len() > 0 && s[0] == c {
        lemma_trim_start_char_skip(s.drop_first(), c);
        assert(s.drop_first().skip(count_leading(s.drop_first(), c) as int) =~= s.skip(
            count_leading(s, c) as int,
        ));
        assert forall|j: int| 0 <= j < count_leading(s, c) implies s[j] == c by {
            if j > 0 {
                assert(s[j] == s.drop_first()[j - 1]);
            }
        }
    } else {
        assert(s.skip(0) =~= s);
    }
}

/// `s` as a vector of characters.
pub fn chars_of(s: &str) -> (v: Vec<char>)
    ensures
        v@ == s@,
{
    let mut v: Vec<char> = Vec::new();
    for c in it: s.chars()
        invariant
            v@ == it.seq().take(it.index() as int),
            it.seq() == s@,
    {
        v.push(c);
    }
    v
}

/// Appends the characters `v[from..to]` to `out`.
pub fn push_chars(out: &mut String, v: &[char], from: usize, to: usize)
    requires
        from <= to <= v@.len(),
    ensures
        final(out)@ == old(out)@ + v@.subrange(from as int, to as int),
{
    let mut i = from;
    while i < to
        invariant
            from <= i <= to <= v@.len(),
            out@ == old(out)@ + v@.subrange(from as int, i as int),
        decreases to - i,
    {
        out.push(v[i]);
        proof {
            assert(v@.subrange(from as int, i + 1) =~= v@.subrange(from as int, i as int).push(
                v@[i as int],
            ));
        }
        i = i + 1;
    }
}

/// Appends the characters of `t` to `out`.
pub fn push_str(out: &mut String, t: &str)
    ensures
        final(out)@ == old(out)@ + t@,
{
    let v = chars_of(t);
    push_chars(out, v.as_slice(), 0, v.len());
    proof {
        assert(v@.subrange(0, v@.len() as int) =~= v@);
    }
}

/// First index in `from..to` whose character is not whitespace (`to` when
/// there is none): `trim_start` of the range.
pub fn skip_ws(v: &[char], from: usize, to: usize) -> (r: usize)
    requires
        from <= to <= v@.len(),
    ensures
        from <= r <= to,
        forall|j: int| from <= j < r ==> is_ws(#[trigger] v@[j]),
        r < to ==> !is_ws(v@[r as int]),
        trim_start_ws(v@.subrange(from as int, to as int)) == v@.subrange(r as int, to as int),
{
    let mut i = from;
    while i < to && char_is_ws(v[i])
        invariant
            from <= i <= to <= v@.len(),
            forall|j: int| from <= j < i ==> is_ws(#[trigger] v@[j]),
            trim_start_ws(v@.subrange(from as int, to as int)) == trim_start_ws(
                v@.subrange(i as int, to as int),
            ),
        decreases to - i,
    {
        proof {
            assert(v@.subrange(i as int, to as int).drop_first() =~= v@.subrange(
                i + 1,
                to as int,
            ));
        }
        i = i + 1;
    }
    proof {
        if i < to {
            assert(v@.subrange(i as int, to as int)[0] == v@[i as int]);
        }
    }
    i
}

/// One past the last index in `from..to` whose character is not
/// whitespace (`from` when there is none): `trim_end` of the range.
pub fn skip_ws_back(v: &[char], from: usize, to: usize) -> (r: usize)
    requires
        from <= to <= v@.len(),
    ensures
        from <= r <= to,
        forall|j: int| r <= j < to ==> is_ws(#[trigger] v@[j]),
        r > from ==> !is_ws(v@[r - 1]),
        trim_end_ws(v@.subrange(from as int, to as int)) == v@.subrange(from as int, r as int),
{
    let mut i = to;
    while i > from && char_is_ws(v[i - 1])
        invariant
            from <= i <= to <= v@.len(),
            forall|j: int| i <= j < to ==> is_ws(#[trigger] v@[j]),
            trim_end_ws(v@.subrange(from as int, to as int)) == trim_end_ws(
                v@.subrange(from as int, i as int),
            ),
        decreases i,
    {
        proof {
            assert(v@.subrange(from as int, i as int).drop_last() =~= v@.subrange(
                from as int,
                i - 1,
            ));
        }
        i = i - 1;
    }
    i
}

/// First index in `from..to` whose character is not `c`: leading `c`s of
/// the range removed.
pub fn skip_char(v: &[char], from: usize, to: usize, c: char) -> (r: usize)
    requires
        from <= to <= v@.len(),
    ensures
        from <= r <= to,
        trim_start_char(v@.subrange(from as int, to as int), c) == v@.subrange(
            r as int,
            to as int,
        ),
{
    let mut i = from;
    while i < to && v[i] == c
        invariant
            from <= i <= to <= v@.len(),
            trim_start_char(v@.subrange(from as int, to as int), c) == trim_start_char(
                v@.subrange(i as int, to as int),
                c,
            ),
        decreases to - i,
    {
        proof {
            assert(v@.subrange(i as int, to as int).drop_first() =~= v@.subrange(
                i + 1,
                to as int,
            ));
        }
        i = i + 1;
    }
    proof {
        if i < to {
            assert(v@.subrange(i as int, to as int)[0] == v@[i as int]);
        }
    }
    i
}

/// One past the last index in `from..to` whose character is not `c`:
/// trailing `c`s of the range removed.
pub fn skip_char_back(v: &[char], from: usize, to: usize, c: char) -> (r: usize)
    requires
        from <= to <= v@.len(),
    ensures
        from <= r <= to,
        trim_end_char(v@.subrange(from as int, to as int), c) == v@.subrange(
            from as int,
            r as int,
        ),
{
    let mut i = to;
    while i > from && v[i - 1] == c
        invariant
            from <= i <= to <= v@.len(),
            trim_end_char(v@.subrange(from as int, to as int), c) == trim_end_char(
                v@.subrange(from as int, i as int),
                c,
            ),
        decreases i,
    {
        proof {
            assert(v@.subrange(from as int, i as int).drop_last() =~= v@.subrange(
                from as int,
                i - 1,
            ));
        }
        i = i - 1;
    }
    i
}

/// `a == b` on string slices.
pub fn str_eq(a: &str, b: &str) -> (r: bool)
    ensures
        r == (a@ == b@),
{
    let x = a.to_owned();
    let y = b.to_owned();
    x.eq(&y)
}

/// `char::to_ascii_lowercase`.
pub open spec fn ascii_lower(c: char) -> char {
    if 'A' <= c && c <= 'Z' {
        ((c as u32) + 32) as char
    } else {
        c
    }
}

pub open spec fn ascii_lower_seq(s: Seq<char>) -> Seq<char> {
    s.map_values(|c: char| ascii_lower(c))
}

/// `char::to_ascii_lowercase`.
pub fn char_to_ascii_lowercase(c: char) -> (r: char)
    ensures
        r == ascii_lower(c),
{
    let r = match c {
        'A' => 'a',
        'B' => 'b',
        'C' => 'c',
        'D' => 'd',
        'E' => 'e',
        'F' => 'f',
        'G' => 'g',
        'H' => 'h',
        'I' => 'i',
        'J' => 'j',
        'K' => 'k',
        'L' => 'l',
        'M' => 'm',
        'N' => 'n',
        'O' => 'o',
        'P' => 'p',
        'Q' => 'q',
        'R' => 'r',
        'S' => 's',
        'T' => 't',
        'U' => 'u',
        'V' => 'v',
        'W' => 'w',
        'X' => 'x',
        'Y' => 'y',
        'Z' => 'z',
        _ => c,
    };
    proof {
        if 'A' <= c && c <= 'Z' {
            assert(r as u32 == c as u32 + 32);
        }
    }
    r
}

/// `str::to_ascii_lowercase`.
pub fn to_ascii_lowercase(s: &str) -> (r: String)
    ensures
        r@ == ascii_lower_seq(s@),
{
    let v = chars_of(s);
    let mut r = String::new();
    let mut i: usize = 0;
    while i < v.len()
        invariant
            i <= v@.len(),
            v@ == s@,
            r@ == ascii_lower_seq(v@.take(i as int)),
        decreases v@.len() - i,
    {
        r.push(char_to_ascii_lowercase(v[i]));
        proof {
            assert(ascii_lower_seq(v@.take(i + 1)) =~= ascii_lower_seq(v@.take(i as int)).push(
                ascii_lower(v@[i as int]),
            ));
        }
        i = i + 1;
    }
    proof {
        assert(v@.take(i as int) =~= v@);
    }
    r
}

} // verus!
