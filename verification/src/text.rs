//! Text helpers: the string operations that the console, the portal protocol
//! and the enrollment files are built from, each with its meaning on
//! sequences of characters.
use vstd::prelude::*;

verus! {

/// `String::push`: appends the given character to the end of the string.
pub assume_specification[ String::push ](s: &mut String, c: char)
    ensures
        final(s)@ == old(s)@.push(c),
;

/// The characters that Unicode gives the property `White_Space`.
pub open spec fn is_space(c: char) -> bool {
    let n = c as int;
    ||| 0x09 <= n <= 0x0d
    ||| n == 0x20
    ||| n == 0x85
    ||| n == 0xa0
    ||| n == 0x1680
    ||| 0x2000 <= n <= 0x200a
    ||| n == 0x2028
    ||| n == 0x2029
    ||| n == 0x202f
    ||| n == 0x205f
    ||| n == 0x3000
}

/// The characters of the Unicode general category `Cc`.
pub open spec fn is_control(c: char) -> bool {
    c as int <= 0x1f || 0x7f <= c as int <= 0x9f
}

/// The decimal digits of ASCII.
pub open spec fn is_digit(c: char) -> bool {
    '0' <= c <= '9'
}

/// An ASCII capital becomes the small letter; every other character stays.
pub open spec fn lower_char(c: char) -> char {
    if 'A' <= c <= 'Z' {
        (c as int + 32) as char
    } else {
        c
    }
}

/// `s` with each ASCII capital made small.
pub open spec fn lower(s: Seq<char>) -> Seq<char> {
    Seq::new(s.len(), |i: int| lower_char(s[i]))
}

/// `s` without its leading white space.
pub open spec fn trim_start(s: Seq<char>) -> Seq<char>
    decreases s.len(),
{
    if s.len() > 0 && is_space(s.first()) {
        trim_start(s.drop_first())
    } else {
        s
    }
}

/// `s` without its trailing white space.
pub open spec fn trim_end(s: Seq<char>) -> Seq<char>
    decreases s.len(),
{
    if s.len() > 0 && is_space(s.last()) {
        trim_end(s.drop_last())
    } else {
        s
    }
}

/// `s` without white space at either end.
pub open spec fn trim(s: Seq<char>) -> Seq<char> {
    trim_end(trim_start(s))
}

/// The characters of `s` before its first white space.
pub open spec fn first_word(s: Seq<char>) -> Seq<char>
    decreases s.len(),
{
    if s.len() == 0 || is_space(s.first()) {
        Seq::empty()
    } else {
        seq![s.first()] + first_word(s.drop_first())
    }
}

/// `s` without the copies of `c` at its end.
pub open spec fn trim_end_char(s: Seq<char>, c: char) -> Seq<char>
    decreases s.len(),
{
    if s.len() > 0 && s.last() == c {
        trim_end_char(s.drop_last(), c)
    } else {
        s
    }
}

/// The decimal digit for `n`, which is below ten.
pub open spec fn digit(n: int) -> char {
    ('0' as int + n) as char
}

/// `n` in decimal, without leading zeros.
pub open spec fn decimal_digits(n: nat) -> Seq<char>
    decreases n,
{
    if n < 10 {
        seq![digit(n as int)]
    } else {
        decimal_digits(n / 10).push(digit((n % 10) as int))
    }
}

/// `n` in decimal, with a minus sign where it is negative.
pub open spec fn decimal(n: int) -> Seq<char> {
    if n < 0 {
        seq!['-'] + decimal_digits((-n) as nat)
    } else {
        decimal_digits(n as nat)
    }
}

/// The parts one after the other, with `sep` between each two.
pub open spec fn join(parts: Seq<Seq<char>>, sep: Seq<char>) -> Seq<char>
    decreases parts.len(),
{
    if parts.len() == 0 {
        Seq::empty()
    } else if parts.len() == 1 {
        parts[0]
    } else {
        join(parts.drop_last(), sep) + sep + parts.last()
    }
}

/// What the strings of a list hold.
pub open spec fn texts(v: Seq<String>) -> Seq<Seq<char>> {
    Seq::new(v.len(), |i: int| v[i]@)
}

/// What an optional string holds.
pub open spec fn opt_text(o: Option<String>) -> Option<Seq<char>> {
    match o {
        Some(s) => Some(s@),
        None => None,
    }
}

/// What a result of two strings holds.
pub open spec fn result_text(r: Result<String, String>) -> Result<Seq<char>, Seq<char>> {
    match r {
        Ok(s) => Ok(s@),
        Err(s) => Err(s@),
    }
}

/// Tells whether `c` is white space.
pub fn space(c: char) -> (b: bool)
    ensures
        b == is_space(c),
{
    let n: u32 = c as u32;
    (0x09 <= n && n <= 0x0d) || n == 0x20 || n == 0x85 || n == 0xa0 || n == 0x1680 || (0x2000 <= n
        && n <= 0x200a) || n == 0x2028 || n == 0x2029 || n == 0x202f || n == 0x205f || n == 0x3000
}

/// Tells whether `c` is a control character.
pub fn control(c: char) -> (b: bool)
    ensures
        b == is_control(c),
{
    let n: u32 = c as u32;
    n <= 0x1f || (0x7f <= n && n <= 0x9f)
}

/// Makes an ASCII capital small.
pub fn to_lower(c: char) -> (d: char)
    ensures
        d == lower_char(c),
{
    if 'A' <= c && c <= 'Z' {
        (c as u8 + 32) as char
    } else {
        c
    }
}

/// The characters of `s`, in order.
pub fn to_chars(s: &str) -> (v: Vec<char>)
    ensures
        v@ == s@,
{
    let mut v: Vec<char> = Vec::new();
    for c in it: s.chars()
        invariant
            it.seq() == s@,
            v@ == s@.take(it.index() as int),
    {
        v.push(c);
        assert(s@.take(it.index() + 1) == s@.take(it.index() as int).push(c));
    }
    assert(s@.take(s@.len() as int) == s@);
    v
}

/// The string of the characters of `v` from `from` up to `to`.
pub fn from_chars(v: &Vec<char>, from: usize, to: usize) -> (s: String)
    requires
        from <= to <= v@.len(),
    ensures
        s@ == v@.subrange(from as int, to as int),
{
    let mut s = String::new();
    let mut i: usize = from;
    while i < to
        invariant
            from <= i <= to <= v@.len(),
            s@ == v@.subrange(from as int, i as int),
        decreases to - i,
    {
        s.push(v[i]);
        i = i + 1;
        assert(v@.subrange(from as int, i as int) == v@.subrange(from as int, i - 1).push(
            v@[i - 1],
        ));
    }
    s
}

/// Tells whether two texts are the same.
pub fn same(a: &str, b: &str) -> (r: bool)
    ensures
        r == (a@ == b@),
{
    a.to_owned() == b.to_owned()
}

/// Tells whether `s` has the character `c` in it.
pub fn has_char(s: &str, c: char) -> (b: bool)
    ensures
        b == s@.contains(c),
{
    let v = to_chars(s);
    let mut i: usize = 0;
    while i < v.len()
        invariant
            i <= v@.len(),
            v@ == s@,
            forall|j: int| 0 <= j < i ==> s@[j] != c,
        decreases v@.len() - i,
    {
        if v[i] == c {
            assert(s@[i as int] == c);
            return true;
        }
        i = i + 1;
    }
    false
}

/// Tells whether every character of `s` is an ASCII digit.
pub fn all_digits(s: &str) -> (b: bool)
    ensures
        b == (forall|i: int| 0 <= i < s@.len() ==> is_digit(#[trigger] s@[i])),
{
    let v = to_chars(s);
    let mut i: usize = 0;
    while i < v.len()
        invariant
            i <= v@.len(),
            v@ == s@,
            forall|j: int| 0 <= j < i ==> is_digit(#[trigger] s@[j]),
        decreases v@.len() - i,
    {
        if !('0' <= v[i] && v[i] <= '9') {
            assert(!is_digit(s@[i as int]));
            return false;
        }
        i = i + 1;
    }
    true
}

/// The index of the first character of `v` that is not white space, or the
/// length of `v` where there is none.
pub fn skip_space(v: &Vec<char>) -> (i: usize)
    ensures
        i <= v@.len(),
        v@.skip(i as int) == trim_start(v@),
{
    let mut i: usize = 0;
    assert(v@.skip(0) == v@);
    while i < v.len() && space(v[i])
        invariant
            i <= v@.len(),
            trim_start(v@.skip(i as int)) == trim_start(v@),
        decreases v@.len() - i,
    {
        assert(v@.skip(i as int).drop_first() == v@.skip(i + 1));
        i = i + 1;
    }
    i
}

/// `s` without white space at either end.
pub fn trimmed(s: &str) -> (r: String)
    ensures
        r@ == trim(s@),
{
    let v = to_chars(s);
    let start = skip_space(&v);
    let mut end: usize = v.len();
    assert(v@.subrange(start as int, end as int) == v@.skip(start as int));
    while start < end && space(v[end - 1])
        invariant
            start <= end <= v@.len(),
            trim_end(v@.subrange(start as int, end as int)) == trim(v@),
        decreases end,
    {
        assert(v@.subrange(start as int, end as int).drop_last() == v@.subrange(
            start as int,
            end - 1,
        ));
        end = end - 1;
    }
    from_chars(&v, start, end)
}

/// `s` without the copies of `c` at its end.
pub fn without_trailing(s: &str, c: char) -> (r: String)
    ensures
        r@ == trim_end_char(s@, c),
{
    let v = to_chars(s);
    let mut end: usize = v.len();
    assert(v@.subrange(0, end as int) == v@);
    while end > 0 && v[end - 1] == c
        invariant
            end <= v@.len(),
            trim_end_char(v@.subrange(0, end as int), c) == trim_end_char(v@, c),
        decreases end,
    {
        assert(v@.subrange(0, end as int).drop_last() == v@.subrange(0, end - 1));
        end = end - 1;
    }
    from_chars(&v, 0, end)
}

/// Writes `n` in decimal.
fn write_digits(n: u32) -> (s: String)
    ensures
        s@ == decimal_digits(n as nat),
    decreases n,
{
    let mut s = if n < 10 {
        String::new()
    } else {
        write_digits(n / 10)
    };
    s.push((48u8 + (n % 10) as u8) as char);
    s
}

/// Writes `n` in decimal, with a minus sign where it is negative.
pub fn write_decimal(n: i32) -> (s: String)
    ensures
        s@ == decimal(n as int),
{
    if n < 0 {
        let mut s = String::new();
        s.push('-');
        let magnitude: u32 = (-(n + 1)) as u32 + 1;
        let digits = write_digits(magnitude);
        s.append(digits.as_str());
        s
    } else {
        write_digits(n as u32)
    }
}

/// Joins the parts, with `sep` between each two.
pub fn joined(parts: &Vec<String>, sep: &str) -> (s: String)
    ensures
        s@ == join(texts(parts@), sep@),
{
    let mut s = String::new();
    let mut i: usize = 0;
    while i < parts.len()
        invariant
            i <= parts@.len(),
            s@ == join(texts(parts@).take(i as int), sep@),
        decreases parts@.len() - i,
    {
        if i > 0 {
            s.append(sep);
        }
        s.append(parts[i].as_str());
        i = i + 1;
        assert(texts(parts@).take(i as int).drop_last() == texts(parts@).take(i - 1));
    }
    assert(texts(parts@).take(i as int) == texts(parts@));
    s
}

/// Making a text small changes its ASCII capitals, each into its small letter,
/// and nothing else.
pub proof fn law_only_ascii_capitals_are_made_small(s: Seq<char>, i: int)
    requires
        0 <= i < s.len(),
    ensures
        lower(s).len() == s.len(),
        'A' <= s[i] <= 'Z' ==> lower(s)[i] as int - 'a' as int == s[i] as int - 'A' as int,
        !('A' <= s[i] <= 'Z') ==> lower(s)[i] == s[i],
{
}

proof fn lemma_trim_start_of(pad: Seq<char>, s: Seq<char>)
    requires
        forall|i: int| 0 <= i < pad.len() ==> is_space(#[trigger] pad[i]),
        s.len() == 0 || !is_space(s[0]),
    ensures
        trim_start(pad + s) == s,
    decreases pad.len(),
{
    if pad.len() == 0 {
        assert(pad + s == s);
    } else {
        assert((pad + s).first() == pad[0]);
        assert((pad + s).drop_first() == pad.drop_first() + s);
        lemma_trim_start_of(pad.drop_first(), s);
    }
}

proof fn lemma_trim_end_of(s: Seq<char>, pad: Seq<char>)
    requires
        forall|i: int| 0 <= i < pad.len() ==> is_space(#[trigger] pad[i]),
        s.len() == 0 || !is_space(s.last()),
    ensures
        trim_end(s + pad) == s,
    decreases pad.len(),
{
    if pad.len() == 0 {
        assert(s + pad == s);
    } else {
        assert((s + pad).last() == pad.last());
        assert((s + pad).drop_last() == s + pad.drop_last());
        lemma_trim_end_of(s, pad.drop_last());
    }
}

/// Trimming takes the white space off both ends and leaves what is between
/// them, white space inside it included.
pub proof fn law_trimming_takes_off_the_ends_alone(
    before: Seq<char>,
    core: Seq<char>,
    after: Seq<char>,
)
    requires
        forall|i: int| 0 <= i < before.len() ==> is_space(#[trigger] before[i]),
        forall|i: int| 0 <= i < after.len() ==> is_space(#[trigger] after[i]),
        core.len() > 0,
        !is_space(core[0]),
        !is_space(core[core.len() - 1]),
    ensures
        trim(before + core + after) == core,
        trim(before) == Seq::<char>::empty(),
{
    assert(before + core + after == before + (core + after));
    lemma_trim_start_of(before, core + after);
    lemma_trim_end_of(core, after);
    lemma_trim_start_of(before, Seq::empty());
    assert(before + Seq::<char>::empty() == before);
}

/// What is left without trailing copies of a character does not end in it, and
/// gives the text back with the copies behind it.
pub proof fn law_trailing_copies_alone_are_taken_off(s: Seq<char>, c: char)
    ensures
        ({
            let kept = trim_end_char(s, c);
            &&& kept.len() > 0 ==> kept[kept.len() - 1] != c
            &&& kept.len() <= s.len()
            &&& s == kept + Seq::new((s.len() - kept.len()) as nat, |i: int| c)
        }),
    decreases s.len(),
{
    let kept = trim_end_char(s, c);
    if s.len() > 0 && s.last() == c {
        law_trailing_copies_alone_are_taken_off(s.drop_last(), c);
        assert(s == kept + Seq::new((s.len() - kept.len()) as nat, |i: int| c)) by {
            let fewer = kept + Seq::new((s.len() - 1 - kept.len()) as nat, |i: int| c);
            assert(s.drop_last() == fewer);
            assert forall|j: int| 0 <= j < s.len() implies s[j] == (kept + Seq::new(
                (s.len() - kept.len()) as nat,
                |i: int| c,
            ))[j] by {
                if j < s.len() - 1 {
                    assert(s[j] == fewer[j]);
                }
            }
        }
    } else {
        assert(s == kept + Seq::new((s.len() - kept.len()) as nat, |i: int| c));
    }
}

/// A number is written digit by digit: one digit for itself, ten times a number
/// and a digit as the number with the digit behind it, and a negative number
/// with a minus sign before its magnitude.
pub proof fn law_numbers_are_written_digit_by_digit(n: int, d: int)
    requires
        0 <= d <= 9,
        n > 0,
    ensures
        decimal(d).len() == 1 && decimal(d)[0] as int == '0' as int + d,
        decimal(10 * n + d) == decimal(n) + decimal(d),
        decimal(-n) == seq!['-'] + decimal(n),
{
    assert((10 * n + d) / 10 == n);
    assert((10 * n + d) % 10 == d);
    assert(decimal(10 * n + d) == decimal(n) + decimal(d));
}

/// Parts are joined in order, the separator between each two and nowhere else:
/// a part by itself stays as it is, and what two lists are joined to is joined
/// to the same as both lists together.
pub proof fn law_joining_puts_the_separator_between(
    a: Seq<Seq<char>>,
    b: Seq<Seq<char>>,
    part: Seq<char>,
    sep: Seq<char>,
)
    requires
        a.len() > 0,
        b.len() > 0,
    ensures
        join(Seq::empty(), sep) == Seq::<char>::empty(),
        join(seq![part], sep) == part,
        join(a + b, sep) == join(a, sep) + sep + join(b, sep),
    decreases b.len(),
{
    assert((a + b).drop_last() == a + b.drop_last());
    assert((a + b).last() == b.last());
    if b.len() == 1 {
        assert(a + b.drop_last() == a);
    } else {
        law_joining_puts_the_separator_between(a, b.drop_last(), part, sep);
        assert(join(a, sep) + sep + (join(b.drop_last(), sep) + sep + b.last()) == join(a, sep)
            + sep + join(b.drop_last(), sep) + sep + b.last());
    }
}

/// The texts of a list are those of its strings, one for one, and a string that
/// may be missing or stand for an error keeps its text.
pub proof fn law_texts_are_those_of_the_strings(v: Seq<String>, i: int, s: String)
    requires
        0 <= i < v.len(),
    ensures
        texts(v).len() == v.len(),
        texts(v)[i] == v[i]@,
        opt_text(Some(s)) == Some(s@),
        opt_text(None) is None,
        result_text(Ok(s)) == Ok::<Seq<char>, Seq<char>>(s@),
        result_text(Err(s)) == Err::<Seq<char>, Seq<char>>(s@),
{
}

} // verus!
