//! Text building: numbers, trimming, shortening and joining.
use vstd::prelude::*;

verus! {

/// `String::push` puts the character behind what the string already holds.
pub assume_specification[ String::push ](s: &mut String, c: char)
    ensures
        final(s)@ == old(s)@.push(c),
;

/// What [`String::from_utf8_lossy`] makes of some bytes.
pub uninterp spec fn utf8_lossy(bytes: Seq<u8>) -> Seq<char>;

/// Calls `String::from_utf8_lossy`. Bytes that are not UTF-8 come out as
/// replacement characters, one way for given bytes; bytes that are UTF-8 come
/// out as the characters that they encode.
#[verifier::external_body]
pub(crate) fn from_utf8_lossy(bytes: &[u8]) -> (text: String)
    ensures
        text@ == utf8_lossy(bytes@),
        vstd::utf8::valid_utf8(bytes@) ==> text@ == vstd::utf8::decode_utf8(bytes@),
{
    String::from_utf8_lossy(bytes).into_owned()
}

/// The texts that a list of strings holds.
pub open spec fn texts(list: Seq<String>) -> Seq<Seq<char>> {
    list.map_values(|s: String| s@)
}

/// A copy of a list of strings.
pub(crate) fn copy_of(list: &Vec<String>) -> (copy: Vec<String>)
    ensures
        copy@ == list@,
{
    let mut copy: Vec<String> = Vec::new();
    let mut i: usize = 0;
    while i < list.len()
        invariant
            i <= list.len(),
            copy@ == list@.take(i as int),
        decreases list.len() - i,
    {
        copy.push(list[i].clone());
        i += 1;
    }
    assert(list@.take(i as int) =~= list@);
    copy
}

// ---------------------------------------------------------------------------
// Numbers

/// The decimal digit of value `d`.
pub open spec fn digit(d: int) -> char {
    (48 + d) as char
}

/// `n` in decimal, without leading zeros.
pub open spec fn decimal(n: nat) -> Seq<char>
    decreases n,
{
    if n < 10 {
        seq![digit(n as int)]
    } else {
        decimal(n / 10).push(digit((n % 10) as int))
    }
}

/// `n` in decimal, with a minus sign in front of a negative one.
pub open spec fn signed_decimal(n: int) -> Seq<char> {
    if n < 0 {
        seq!['-'] + decimal((-n) as nat)
    } else {
        decimal(n as nat)
    }
}

/// The hexadecimal digit of value `d`, in upper case.
pub open spec fn hex_digit(d: int) -> char {
    if d < 10 {
        (48 + d) as char
    } else {
        (55 + d) as char
    }
}

/// `n` as eight hexadecimal digits, the most significant first.
pub open spec fn hex8(n: u32) -> Seq<char> {
    seq![
        hex_digit((n / 0x1000_0000) as int),
        hex_digit((n / 0x100_0000 % 16) as int),
        hex_digit((n / 0x10_0000 % 16) as int),
        hex_digit((n / 0x1_0000 % 16) as int),
        hex_digit((n / 0x1000 % 16) as int),
        hex_digit((n / 0x100 % 16) as int),
        hex_digit((n / 0x10 % 16) as int),
        hex_digit((n % 16) as int),
    ]
}

fn hex_char(d: u32) -> (c: char)
    requires
        d < 16,
    ensures
        c == hex_digit(d as int),
{
    match d {
        0 => '0',
        1 => '1',
        2 => '2',
        3 => '3',
        4 => '4',
        5 => '5',
        6 => '6',
        7 => '7',
        8 => '8',
        9 => '9',
        10 => 'A',
        11 => 'B',
        12 => 'C',
        13 => 'D',
        14 => 'E',
        _ => 'F',
    }
}

/// Writes `n` in decimal.
pub fn decimal_text(n: u64) -> (out: String)
    ensures
        out@ == decimal(n as nat),
    decreases n,
{
    let mut out = if n < 10 {
        String::new()
    } else {
        decimal_text(n / 10)
    };
    out.push(hex_char((n % 10) as u32));
    out
}

/// Writes `n` in decimal, with a minus sign in front of a negative one.
pub fn signed_decimal_text(n: i32) -> (out: String)
    ensures
        out@ == signed_decimal(n as int),
{
    if n < 0 {
        let magnitude: u64 = (-(n as i64)) as u64;
        let digits = decimal_text(magnitude);
        let mut out = String::new();
        out.push('-');
        out.append(digits.as_str());
        out
    } else {
        decimal_text(n as u64)
    }
}

/// Writes `n` as eight hexadecimal digits.
pub fn hex8_text(n: u32) -> (out: String)
    ensures
        out@ == hex8(n),
{
    let mut out = String::new();
    out.push(hex_char(n / 0x1000_0000));
    out.push(hex_char(n / 0x100_0000 % 16));
    out.push(hex_char(n / 0x10_0000 % 16));
    out.push(hex_char(n / 0x1_0000 % 16));
    out.push(hex_char(n / 0x1000 % 16));
    out.push(hex_char(n / 0x100 % 16));
    out.push(hex_char(n / 0x10 % 16));
    out.push(hex_char(n % 16));
    out
}

// ---------------------------------------------------------------------------
// Characters

/// The characters of `s` in a list.
pub(crate) fn chars_of(s: &str) -> (list: Vec<char>)
    ensures
        list@ == s@,
{
    let mut list: Vec<char> = Vec::new();
    for c in it: s.chars()
        invariant
            it.seq() == s@,
            list@ == s@.take(it.index() as int),
    {
        list.push(c);
    }
    list
}

/// The part of `list` from `from` up to `to`, as a string.
pub(crate) fn string_of(list: &Vec<char>, from: usize, to: usize) -> (out: String)
    requires
        from <= to <= list.len(),
    ensures
        out@ == list@.subrange(from as int, to as int),
{
    let mut out = String::new();
    let mut i: usize = from;
    while i < to
        invariant
            from <= i <= to <= list.len(),
            out@ == list@.subrange(from as int, i as int),
        decreases to - i,
    {
        out.push(list[i]);
        i += 1;
    }
    out
}

/// The characters of the Unicode property White_Space.
pub open spec fn is_white(c: char) -> bool {
    let u = c as int;
    ||| 0x9 <= u <= 0xD
    ||| u == 0x20
    ||| u == 0x85
    ||| u == 0xA0
    ||| u == 0x1680
    ||| 0x2000 <= u <= 0x200A
    ||| u == 0x2028
    ||| u == 0x2029
    ||| u == 0x202F
    ||| u == 0x205F
    ||| u == 0x3000
}

fn is_white_char(c: char) -> (white: bool)
    ensures
        white == is_white(c),
{
    let u: u32 = c as u32;
    (0x9 <= u && u <= 0xD) || u == 0x20 || u == 0x85 || u == 0xA0 || u == 0x1680 || (0x2000 <= u && u
        <= 0x200A) || u == 0x2028 || u == 0x2029 || u == 0x202F || u == 0x205F || u == 0x3000
}

/// `s` without the white space in front of it.
pub open spec fn trimmed_start(s: Seq<char>) -> Seq<char>
    decreases s.len(),
{
    if s.len() > 0 && is_white(s.first()) {
        trimmed_start(s.drop_first())
    } else {
        s
    }
}

/// `s` without the white space behind it.
pub open spec fn trimmed_end(s: Seq<char>) -> Seq<char>
    decreases s.len(),
{
    if s.len() > 0 && is_white(s.last()) {
        trimmed_end(s.drop_last())
    } else {
        s
    }
}

/// `s` without the white space around it.
pub open spec fn trimmed(s: Seq<char>) -> Seq<char> {
    trimmed_end(trimmed_start(s))
}

/// Takes the white space off both ends.
pub fn trim(s: &str) -> (out: String)
    ensures
        out@ == trimmed(s@),
{
    let list = chars_of(s);
    let mut from: usize = 0;
    assert(s@.skip(0) == s@);
    while from < list.len() && is_white_char(list[from])
        invariant
            from <= list.len(),
            list@ == s@,
            trimmed_start(s@.skip(from as int)) == trimmed_start(s@),
        decreases list.len() - from,
    {
        assert(s@.skip(from as int).drop_first() == s@.skip(from as int + 1));
        from += 1;
    }
    let ghost rest = s@.skip(from as int);
    assert(trimmed_start(s@) == rest);
    let mut to: usize = list.len();
    assert(s@.subrange(from as int, to as int) == rest);
    while to > from && is_white_char(list[to - 1])
        invariant
            from <= to <= list.len(),
            list@ == s@,
            trimmed_end(s@.subrange(from as int, to as int)) == trimmed_end(rest),
        decreases to,
    {
        assert(s@.subrange(from as int, to as int).drop_last() == s@.subrange(
            from as int,
            to as int - 1,
        ));
        to -= 1;
    }
    string_of(&list, from, to)
}

// ---------------------------------------------------------------------------
// Shortening and joining

/// `input` cut to `max_chars` characters, with three dots behind a cut.
pub open spec fn truncated(input: Seq<char>, max_chars: int) -> Seq<char> {
    if input.len() > max_chars {
        input.take(max_chars) + "..."@
    } else {
        input
    }
}

/// Shortens what a command printed, for a log line.
pub fn truncate_for_log(input: &str, max_chars: usize) -> (out: String)
    ensures
        out@ == truncated(input@, max_chars as int),
{
    let list = chars_of(input);
    if list.len() > max_chars {
        let mut out = string_of(&list, 0, max_chars);
        out.append("...");
        out
    } else {
        input.to_owned()
    }
}

/// A text that fits is kept whole; of a longer one the beginning is kept, with
/// three dots behind it.
pub proof fn law_truncation_keeps_the_beginning(input: Seq<char>, max_chars: int)
    requires
        0 <= max_chars,
    ensures
        input.len() <= max_chars ==> truncated(input, max_chars) == input,
        input.len() > max_chars ==> {
            &&& truncated(input, max_chars).len() == max_chars + 3
            &&& truncated(input, max_chars).take(max_chars) == input.take(max_chars)
            &&& truncated(input, max_chars).skip(max_chars) == seq!['.', '.', '.']
        },
{
    reveal_strlit("...");
    if input.len() > max_chars {
        assert(truncated(input, max_chars).take(max_chars) =~= input.take(max_chars));
        assert(truncated(input, max_chars).skip(max_chars) =~= seq!['.', '.', '.']);
    }
}

/// The texts of `parts` with `separator` between each two.
pub open spec fn joined(parts: Seq<Seq<char>>, separator: Seq<char>) -> Seq<char>
    decreases parts.len(),
{
    if parts.len() == 0 {
        seq![]
    } else if parts.len() == 1 {
        parts[0]
    } else {
        joined(parts.drop_last(), separator) + separator + parts.last()
    }
}

/// Puts `separator` between each two of `parts`.
pub fn join_texts(parts: &Vec<String>, separator: &str) -> (out: String)
    ensures
        out@ == joined(texts(parts@), separator@),
{
    let mut out = String::new();
    let mut i: usize = 0;
    assert(texts(parts@).take(0) =~= seq![]);
    while i < parts.len()
        invariant
            i <= parts.len(),
            out@ == joined(texts(parts@).take(i as int), separator@),
        decreases parts.len() - i,
    {
        assert(texts(parts@).take(i as int + 1).drop_last() =~= texts(parts@).take(i as int));
        if i > 0 {
            out.append(separator);
        }
        out.append(parts[i].as_str());
        i += 1;
    }
    assert(texts(parts@).take(i as int) =~= texts(parts@));
    out
}

// ---------------------------------------------------------------------------
// What holds of texts

/// A number below ten is one digit; ten times a number and a digit is the number
/// with the digit behind it.
pub proof fn law_decimal_digits(n: nat, d: nat)
    requires
        d < 10,
    ensures
        decimal(d) == seq![(48 + d) as char],
        n > 0 ==> decimal(10 * n + d) == decimal(n).push((48 + d) as char),
{
    if n > 0 {
        assert((10 * n + d) / 10 == n);
        assert((10 * n + d) % 10 == d);
    }
}

/// A negative number is written as a minus sign and the number without it.
pub proof fn law_sign_comes_first(n: nat)
    ensures
        signed_decimal(n as int) == decimal(n),
        n > 0 ==> signed_decimal(-n) == seq!['-'] + decimal(n),
{
}

/// Nothing is eight zeros; sixteen times a number and a digit is the number with
/// the digit behind it. Digits from ten on are the letters from A to F.
pub proof fn law_hexadecimal_digits(n: u32, m: u32, d: u32)
    requires
        d < 16,
        n == 16 * m + d,
    ensures
        hex8(0) == seq!['0', '0', '0', '0', '0', '0', '0', '0'],
        hex8(n) == hex8(m).drop_first().push(
            if d < 10 {
                (48 + d) as char
            } else {
                (65 + d - 10) as char
            },
        ),
{
    assert(n / 0x10 == m && n % 16 == d);
    assert(n / 0x100 == m / 0x10) by (nonlinear_arith)
        requires
            n / 0x10 == m,
    ;
    assert(n / 0x1000 == m / 0x100) by (nonlinear_arith)
        requires
            n / 0x10 == m,
    ;
    assert(n / 0x1_0000 == m / 0x1000) by (nonlinear_arith)
        requires
            n / 0x10 == m,
    ;
    assert(n / 0x10_0000 == m / 0x1_0000) by (nonlinear_arith)
        requires
            n / 0x10 == m,
    ;
    assert(n / 0x100_0000 == m / 0x10_0000) by (nonlinear_arith)
        requires
            n / 0x10 == m,
    ;
    assert(n / 0x1000_0000 == m / 0x100_0000) by (nonlinear_arith)
        requires
            n / 0x10 == m,
    ;
    assert(m / 0x100_0000 % 16 == m / 0x100_0000);
    assert(hex_digit(0) == '0');
    assert(hex8(0) =~= seq!['0', '0', '0', '0', '0', '0', '0', '0']);
    let last = if d < 10 {
        (48 + d) as char
    } else {
        (65 + d - 10) as char
    };
    assert(hex_digit(d as int) == last);
    assert(hex8(n) =~= hex8(m).drop_first().push(last));
}

/// White space is what Unicode says it is.
pub proof fn law_white_space(c: char)
    ensures
        is_white(c) <==> {
            let u = c as int;
            9 <= u <= 13 || u == 32 || u == 133 || u == 160 || u == 5760 || 8192 <= u <= 8202 || u
                == 8232 || u == 8233 || u == 8239 || u == 8287 || u == 12288
        },
{
}

proof fn lemma_trimmed_start(before: Seq<char>, rest: Seq<char>)
    requires
        forall|i: int| 0 <= i < before.len() ==> is_white(#[trigger] before[i]),
        rest.len() > 0 ==> !is_white(rest.first()),
    ensures
        trimmed_start(before + rest) == rest,
    decreases before.len(),
{
    let s = before + rest;
    if before.len() == 0 {
        assert(s =~= rest);
    } else {
        assert(s.first() == before[0]);
        assert(s.drop_first() =~= before.drop_first() + rest);
        lemma_trimmed_start(before.drop_first(), rest);
    }
}

proof fn lemma_trimmed_end(rest: Seq<char>, behind: Seq<char>)
    requires
        forall|i: int| 0 <= i < behind.len() ==> is_white(#[trigger] behind[i]),
        rest.len() > 0 ==> !is_white(rest.last()),
    ensures
        trimmed_end(rest + behind) == rest,
    decreases behind.len(),
{
    let s = rest + behind;
    if behind.len() == 0 {
        assert(s =~= rest);
    } else {
        assert(s.last() == behind.last());
        assert(s.drop_last() =~= rest + behind.drop_last());
        lemma_trimmed_end(rest, behind.drop_last());
    }
}

/// Trimming takes the white space around a text off, and nothing else.
pub proof fn law_trimming_takes_white_space_off(
    before: Seq<char>,
    core: Seq<char>,
    behind: Seq<char>,
)
    requires
        forall|i: int| 0 <= i < before.len() ==> is_white(#[trigger] before[i]),
        forall|i: int| 0 <= i < behind.len() ==> is_white(#[trigger] behind[i]),
        core.len() > 0 ==> !is_white(core.first()) && !is_white(core.last()),
    ensures
        trimmed(before + core + behind) == core,
{
    let rest = core + behind;
    assert(before + core + behind =~= before + rest);
    if core.len() > 0 {
        assert(rest.first() == core.first());
        lemma_trimmed_start(before, rest);
        lemma_trimmed_end(core, behind);
    } else {
        let all = before + behind;
        assert(before + core + behind =~= all + Seq::<char>::empty());
        lemma_trimmed_start(all, Seq::<char>::empty());
        assert(core =~= seq![]);
    }
}

/// Joining puts the separator between each two parts and nowhere else.
pub proof fn law_joining_separates_the_parts(
    parts: Seq<Seq<char>>,
    part: Seq<char>,
    separator: Seq<char>,
)
    ensures
        joined(seq![], separator) == Seq::<char>::empty(),
        joined(seq![part], separator) == part,
        parts.len() > 0 ==> joined(parts.push(part), separator) == joined(parts, separator)
            + separator + part,
{
    if parts.len() > 0 {
        assert(parts.push(part).drop_last() =~= parts);
    }
}

/// The texts of a list are those of its strings, one by one.
pub proof fn law_texts_one_by_one(list: Seq<String>)
    ensures
        texts(list).len() == list.len(),
        forall|i: int| 0 <= i < list.len() ==> #[trigger] texts(list)[i] == list[i]@,
{
}

} // verus!
