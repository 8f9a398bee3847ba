//! Text building blocks: decimal rendering, padding, joining and searching.
//!
//! Every function states the characters it produces, so that the messages and file formats built
//! from them can be stated character by character too.
use vstd::prelude::*;
use vstd::string::*;

verus! {

/// `String::push` of std: the character is appended at the end.
pub assume_specification[ String::push ](s: &mut String, c: char)
    ensures
        final(s)@ == old(s)@.push(c),
;

/// The decimal digit for `d`.
pub open spec fn digit_char(d: nat) -> char {
    (48 + d) as char
}

/// The decimal rendering of `n`, without leading zeros.
pub open spec fn decimal(n: nat) -> Seq<char>
    decreases n,
{
    if n < 10 {
        seq![digit_char(n)]
    } else {
        decimal(n / 10).push(digit_char(n % 10))
    }
}

/// The decimal rendering of a signed number.
pub open spec fn signed_decimal(n: int) -> Seq<char> {
    if n < 0 {
        seq!['-'] + decimal((-n) as nat)
    } else {
        decimal(n as nat)
    }
}

/// `count` copies of `c`.
pub open spec fn repeated(c: char, count: nat) -> Seq<char> {
    Seq::new(count, |i: int| c)
}

/// How many characters are missing from `text` to reach `width`.
pub open spec fn missing_width(text: Seq<char>, width: nat) -> nat {
    if text.len() < width {
        (width - text.len()) as nat
    } else {
        0
    }
}

/// `text` filled up on the left with `fill` to at least `width` characters.
pub open spec fn padded_left(text: Seq<char>, width: nat, fill: char) -> Seq<char> {
    repeated(fill, missing_width(text, width)) + text
}

/// `text` filled up on the right with spaces to at least `width` characters.
pub open spec fn padded_right(text: Seq<char>, width: nat) -> Seq<char> {
    text + repeated(' ', missing_width(text, width))
}

/// The decimal rendering of `n` with zeros in front, at least `width` characters wide.
pub open spec fn zero_padded(n: nat, width: nat) -> Seq<char> {
    padded_left(decimal(n), width, '0')
}

/// The parts in order with `separator` between neighbours.
pub open spec fn joined(parts: Seq<Seq<char>>, separator: Seq<char>) -> Seq<char>
    decreases parts.len(),
{
    if parts.len() == 0 {
        Seq::empty()
    } else if parts.len() == 1 {
        parts[0]
    } else {
        joined(parts.drop_last(), separator) + separator + parts.last()
    }
}

/// The views of a list of strings.
pub open spec fn texts(list: Seq<String>) -> Seq<Seq<char>> {
    list.map_values(|s: String| s@)
}

/// The decimal digits of a number are its rendering, so two numbers with one rendering are equal.
pub proof fn decimal_is_injective(a: nat, b: nat)
    requires
        decimal(a) == decimal(b),
    ensures
        a == b,
    decreases a + b,
{
    if a < 10 && b < 10 {
        assert(decimal(a)[0] == digit_char(a));
        assert(decimal(b)[0] == digit_char(b));
    } else if a < 10 {
        decimal_nonempty(b / 10);
        assert(decimal(a).len() == 1);
        assert(decimal(b).len() == decimal(b / 10).len() + 1);
    } else if b < 10 {
        decimal_nonempty(a / 10);
        assert(decimal(b).len() == 1);
        assert(decimal(a).len() == decimal(a / 10).len() + 1);
    } else {
        assert(decimal(a).drop_last() =~= decimal(a / 10));
        assert(decimal(b).drop_last() =~= decimal(b / 10));
        assert(decimal(a).last() == digit_char(a % 10));
        assert(decimal(b).last() == digit_char(b % 10));
        decimal_is_injective(a / 10, b / 10);
    }
}

/// A rendering has at least one character.
pub proof fn decimal_nonempty(n: nat)
    ensures
        decimal(n).len() >= 1,
{
}

/// Every character of a rendering is a decimal digit.
pub proof fn decimal_holds_digits(n: nat, i: int)
    requires
        0 <= i < decimal(n).len(),
    ensures
        '0' <= decimal(n)[i] <= '9',
    decreases n,
{
    if n >= 10 && i < decimal(n).len() - 1 {
        decimal_holds_digits(n / 10, i);
    }
}


/// Joining one more part puts the separator and the part at the end.
pub proof fn joined_push(parts: Seq<Seq<char>>, part: Seq<char>, separator: Seq<char>)
    ensures
        parts.len() == 0 ==> joined(parts.push(part), separator) == part,
        parts.len() > 0 ==> joined(parts.push(part), separator) == joined(parts, separator)
            + separator + part,
{
    assert(parts.push(part).drop_last() =~= parts);
}

fn digit(d: u8) -> (c: char)
    requires
        d < 10,
    ensures
        c == digit_char(d as nat),
{
    (48 + d) as char
}

/// Appends the decimal rendering of `n`.
pub fn push_decimal(out: &mut String, n: u64)
    ensures
        final(out)@ == old(out)@ + decimal(n as nat),
{
    push_wide_decimal(out, n as u128);
}

/// Appends the decimal rendering of a number of up to 128 bits.
pub fn push_wide_decimal(out: &mut String, n: u128)
    ensures
        final(out)@ == old(out)@ + decimal(n as nat),
    decreases n,
{
    if n >= 10 {
        push_wide_decimal(out, n / 10);
    }
    let ghost before = out@;
    let last: u8 = (n % 10) as u8;
    out.push(digit(last));
    proof {
        if n < 10 {
            assert(out@ =~= old(out)@ + decimal(n as nat));
        } else {
            assert(before == old(out)@ + decimal((n / 10) as nat));
            assert(out@ =~= old(out)@ + decimal(n as nat));
        }
    }
}

/// The decimal rendering of `n`.
pub fn decimal_text(n: u64) -> (text: String)
    ensures
        text@ == decimal(n as nat),
{
    let mut out = String::new();
    push_decimal(&mut out, n);
    assert(out@ =~= decimal(n as nat));
    out
}

/// Appends the decimal rendering of a signed number.
pub fn push_signed(out: &mut String, n: i64)
    ensures
        final(out)@ == old(out)@ + signed_decimal(n as int),
{
    if n < 0 {
        out.push('-');
        let magnitude: u64 = if n == i64::MIN {
            0x8000_0000_0000_0000
        } else {
            (-n) as u64
        };
        push_decimal(out, magnitude);
        assert(out@ =~= old(out)@ + signed_decimal(n as int));
    } else {
        push_decimal(out, n as u64);
    }
}

/// The decimal rendering of a signed number.
pub fn signed_text(n: i64) -> (text: String)
    ensures
        text@ == signed_decimal(n as int),
{
    let mut out = String::new();
    push_signed(&mut out, n);
    assert(out@ =~= signed_decimal(n as int));
    out
}

/// Appends `count` copies of `c`.
fn push_repeated(out: &mut String, c: char, count: usize)
    ensures
        final(out)@ == old(out)@ + repeated(c, count as nat),
{
    let ghost before = out@;
    let mut done: usize = 0;
    assert(out@ =~= before + repeated(c, 0));
    while done < count
        invariant
            done <= count,
            out@ == before + repeated(c, done as nat),
        decreases count - done,
    {
        out.push(c);
        done = done + 1;
        assert(out@ =~= before + repeated(c, done as nat));
    }
}

fn fill_width(text: &str, width: usize) -> (missing: usize)
    ensures
        missing == missing_width(text@, width as nat),
{
    let len: usize = text.unicode_len();
    if len < width {
        width - len
    } else {
        0
    }
}

/// Appends `text` filled up on the left with `fill` to at least `width` characters.
pub fn push_padded_left(out: &mut String, text: &str, width: usize, fill: char)
    ensures
        final(out)@ == old(out)@ + padded_left(text@, width as nat, fill),
{
    let missing: usize = fill_width(text, width);
    push_repeated(out, fill, missing);
    out.append(text);
    assert(out@ =~= old(out)@ + padded_left(text@, width as nat, fill));
}

/// Appends `text` filled up on the right with spaces to at least `width` characters.
pub fn push_padded_right(out: &mut String, text: &str, width: usize)
    ensures
        final(out)@ == old(out)@ + padded_right(text@, width as nat),
{
    out.append(text);
    let missing: usize = fill_width(text, width);
    push_repeated(out, ' ', missing);
    assert(out@ =~= old(out)@ + padded_right(text@, width as nat));
}

/// Appends the decimal rendering of `n` with zeros in front, at least `width` characters wide.
pub fn push_zero_padded(out: &mut String, n: u64, width: usize)
    ensures
        final(out)@ == old(out)@ + zero_padded(n as nat, width as nat),
{
    let digits = decimal_text(n);
    push_padded_left(out, digits.as_str(), width, '0');
}

/// Joins the strings with `separator` between neighbours.
pub fn join(parts: &Vec<String>, separator: &str) -> (text: String)
    ensures
        text@ == joined(texts(parts@), separator@),
{
    let mut out = String::new();
    let ghost all = texts(parts@);
    assert(out@ =~= joined(all.take(0), separator@));
    for i in 0..parts.len()
        invariant
            all == texts(parts@),
            out@ == joined(all.take(i as int), separator@),
    {
        proof {
            joined_push(all.take(i as int), all[i as int], separator@);
            assert(all.take(i as int).push(all[i as int]) =~= all.take(i + 1));
        }
        if i > 0 {
            out.append(separator);
            out.append(parts[i].as_str());
        } else {
            out.append(parts[i].as_str());
            assert(out@ =~= all[0]);
        }
        assert(out@ =~= joined(all.take(i + 1), separator@));
    }
    assert(all.take(parts.len() as int) =~= all);
    out
}

/// Whether the two texts hold the same characters.
pub fn same_text(a: &str, b: &str) -> (same: bool)
    ensures
        same == (a@ == b@),
{
    let a_owned: String = a.to_owned();
    let b_owned: String = b.to_owned();
    a_owned == b_owned
}

/// The characters of `text`, one by one.
pub fn characters(text: &str) -> (list: Vec<char>)
    ensures
        list@ == text@,
{
    let mut list: Vec<char> = Vec::new();
    for c in chars: text.chars()
        invariant
            chars.seq() == text@,
            list@ == text@.take(chars.index() as int),
    {
        proof {
            let at = chars.index() as int;
            assert(text@.take(at).push(text@[at]) =~= text@.take(at + 1));
        }
        list.push(c);
    }
    assert(text@.take(text@.len() as int) =~= text@);
    list
}

/// The position of the first `wanted` in `text`, counted in characters.
pub fn find_char(text: &str, wanted: char) -> (found: Option<usize>)
    ensures
        found matches Some(at) ==> at < text@.len() && text@[at as int] == wanted && !text@.take(
            at as int,
        ).contains(wanted),
        found is None <==> !text@.contains(wanted),
{
    let list = characters(text);
    let mut at: usize = 0;
    while at < list.len()
        invariant
            at <= list.len(),
            list@ == text@,
            forall|j: int| 0 <= j < at ==> text@[j] != wanted,
        decreases list.len() - at,
    {
        if list[at] == wanted {
            return Some(at);
        }
        at = at + 1;
    }
    None
}

/// The first `limit` characters of `text`, or all of it if it is shorter.
pub fn take_chars(text: &str, limit: usize) -> (taken: String)
    ensures
        taken@ == text@.take(
            if text@.len() < limit {
                text@.len() as int
            } else {
                limit as int
            },
        ),
{
    let len: usize = text.unicode_len();
    let end: usize = if len < limit {
        len
    } else {
        limit
    };
    let taken = text.substring_char(0, end).to_owned();
    assert(taken@ =~= text@.take(end as int));
    taken
}

/// A text between two others.
pub(crate) fn quoted(before: &str, text: &str, after: &str) -> (line: String)
    ensures
        line@ == before@ + text@ + after@,
{
    let mut line = before.to_owned();
    line.append(text);
    line.append(after);
    line
}

} // verus!
