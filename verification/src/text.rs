//! Character-level helpers on strings, stated over their `Seq<char>` views.

use vstd::prelude::*;

verus! {

/// `String::push` appends exactly one character to the end of the string
/// and leaves everything before it unchanged.
pub assume_specification[ String::push ](s: &mut String, c: char)
    ensures
        final(s)@ == old(s)@.push(c),
;

/// `str`'s equality compares the two slices character by character: it
/// holds exactly when both have the same sequence of characters.
pub assume_specification[ <str as PartialEq>::eq ](a: &str, b: &str) -> (r: bool)
    ensures
        r == (a@ == b@),
;

/// Reads `bytes` as UTF-8 text with `String::from_utf8`. There is a string
/// exactly where the bytes are valid UTF-8, and its encoding is `bytes`.
#[verifier::external_body]
pub(crate) fn utf8_text(bytes: &[u8]) -> (text: Option<String>)
    ensures
        match text {
            Some(s) => vstd::utf8::encode_utf8(s@) == bytes@,
            None => !vstd::utf8::valid_utf8(bytes@),
        },
{
    String::from_utf8(bytes.to_vec()).ok()
}

/// The views of a list of strings, in order.
pub open spec fn strings_view(list: Seq<String>) -> Seq<Seq<char>> {
    list.map_values(|s: String| s@)
}

/// `text` with every occurrence of `from` replaced by `to`.
pub open spec fn replaced(text: Seq<char>, from: char, to: char) -> Seq<char> {
    Seq::new(text.len(), |i: int| if text[i] == from { to } else { text[i] })
}

/// Index of the last occurrence of `c` in `text`, or -1 where there is none.
pub open spec fn last_index_of(text: Seq<char>, c: char) -> int
    decreases text.len(),
{
    if text.len() == 0 {
        -1
    } else if text.last() == c {
        text.len() - 1
    } else {
        last_index_of(text.drop_last(), c)
    }
}

/// The first position at or after `i` that holds `c`, or the length of
/// `text` where there is none.
pub open spec fn index_from(text: Seq<char>, c: char, i: int) -> int
    decreases text.len() - i,
{
    if 0 <= i < text.len() && text[i] != c {
        index_from(text, c, i + 1)
    } else {
        i
    }
}

/// The search of `index_from` never moves backwards, and ends within `text`.
pub proof fn index_from_bounds(text: Seq<char>, c: char, i: int)
    requires
        0 <= i <= text.len(),
    ensures
        i <= index_from(text, c, i) <= text.len(),
    decreases text.len() - i,
{
    if i < text.len() && text[i] != c {
        index_from_bounds(text, c, i + 1);
    }
}

/// The characters of a string slice, as a vector that can be indexed.
pub fn chars_of(text: &str) -> (out: Vec<char>)
    ensures
        out@ == text@,
{
    broadcast use vstd::string::group_string_axioms;

    let mut out: Vec<char> = Vec::new();
    for c in it: text.chars()
        invariant
            it.seq() == text@,
            out@ == text@.take(it.index() as int),
    {
        out.push(c);
    }
    out
}

/// The string made of `chars[from..to]`.
pub fn string_of(chars: &Vec<char>, from: usize, to: usize) -> (out: String)
    requires
        from <= to <= chars.len(),
    ensures
        out@ == chars@.subrange(from as int, to as int),
{
    let mut out = String::new();
    let mut i: usize = from;
    while i < to
        invariant
            from <= i <= to <= chars.len(),
            out@ == chars@.subrange(from as int, i as int),
        decreases to - i,
    {
        out.push(chars[i]);
        i = i + 1;
    }
    out
}

/// Whether two string slices hold the same characters.
pub fn text_eq(a: &str, b: &str) -> (r: bool)
    ensures
        r == (a@ == b@),
{
    *a == *b
}

/// `a` followed by `b`.
pub fn glue(a: &str, b: &str) -> (out: String)
    ensures
        out@ == a@ + b@,
{
    let mut out = String::from_str(a);
    out.append(b);
    out
}

/// A copy of `text` in which every `from` has become `to`.
pub fn replace_char(text: &str, from: char, to: char) -> (out: String)
    ensures
        out@ == replaced(text@, from, to),
{
    broadcast use vstd::string::group_string_axioms;

    let mut out = String::new();
    for c in it: text.chars()
        invariant
            it.seq() == text@,
            out@ == replaced(text@.take(it.index() as int), from, to),
    {
        if c == from {
            out.push(to);
        } else {
            out.push(c);
        }
    }
    out
}

/// Whether `c` occurs in `text`.
pub fn contains_char(text: &str, c: char) -> (r: bool)
    ensures
        r == text@.contains(c),
{
    broadcast use vstd::string::group_string_axioms;

    let mut found = false;
    for d in it: text.chars()
        invariant
            it.seq() == text@,
            found == text@.take(it.index() as int).contains(c),
    {
        let ghost before = text@.take(it.index() as int);
        let ghost after = text@.take(it.index() + 1);
        proof {
            assert(after == before.push(d));
            if before.contains(c) {
                let k = choose|k: int| 0 <= k < before.len() && before[k] == c;
                assert(after[k] == c);
            }
            if d == c {
                assert(after[before.len() as int] == c);
            }
        }
        if d == c {
            found = true;
        }
    }
    assert(text@.take(text@.len() as int) =~= text@);
    found
}

/// Whether `text` begins with `prefix`.
pub fn starts_with(text: &str, prefix: &str) -> (r: bool)
    ensures
        r == prefix@.is_prefix_of(text@),
{
    let t = chars_of(text);
    let p = chars_of(prefix);
    if p.len() > t.len() {
        return false;
    }
    let mut i: usize = 0;
    while i < p.len()
        invariant
            i <= p.len() <= t.len(),
            t@ == text@,
            p@ == prefix@,
            forall|k: int| 0 <= k < i ==> t@[k] == p@[k],
        decreases p.len() - i,
    {
        if t[i] != p[i] {
            assert(prefix@[i as int] != text@.subrange(0, prefix@.len() as int)[i as int]);
            return false;
        }
        i = i + 1;
    }
    assert(prefix@ =~= text@.subrange(0, prefix@.len() as int));
    true
}

/// Whether some element of `list` equals `item`.
pub fn list_contains(list: &Vec<String>, item: &str) -> (r: bool)
    ensures
        r == strings_view(list@).contains(item@),
{
    let mut i: usize = 0;
    while i < list.len()
        invariant
            i <= list.len(),
            forall|k: int| 0 <= k < i ==> strings_view(list@)[k] != item@,
        decreases list.len() - i,
    {
        if text_eq(list[i].as_str(), item) {
            assert(strings_view(list@)[i as int] == item@);
            return true;
        }
        i = i + 1;
    }
    false
}

/// Position of the last `c` in `chars`, if there is one.
pub fn find_last(chars: &Vec<char>, c: char) -> (r: Option<usize>)
    ensures
        match r {
            Some(i) => i < chars.len() && i == last_index_of(chars@, c),
            None => last_index_of(chars@, c) == -1,
        },
{
    let mut i: usize = chars.len();
    assert(chars@.take(i as int) =~= chars@);
    while i > 0
        invariant
            i <= chars.len(),
            last_index_of(chars@, c) == last_index_of(chars@.take(i as int), c),
        decreases i,
    {
        let ghost head = chars@.take(i as int);
        assert(head.last() == chars@[i - 1]);
        assert(head.drop_last() == chars@.take(i - 1));
        if chars[i - 1] == c {
            return Some(i - 1);
        }
        i = i - 1;
    }
    assert(chars@.take(0).len() == 0);
    None
}

/// Position of the first `c` in `chars`, or the length of `chars` where
/// there is none.
pub fn find_first(chars: &Vec<char>, c: char) -> (i: usize)
    ensures
        i <= chars.len(),
        i == index_from(chars@, c, 0),
{
    let mut i: usize = 0;
    while i < chars.len() && chars[i] != c
        invariant
            i <= chars.len(),
            index_from(chars@, c, 0) == index_from(chars@, c, i as int),
        decreases chars.len() - i,
    {
        i = i + 1;
    }
    i
}

/// The character of a decimal digit.
pub open spec fn digit_char(digit: nat) -> char {
    if digit == 0 {
        '0'
    } else if digit == 1 {
        '1'
    } else if digit == 2 {
        '2'
    } else if digit == 3 {
        '3'
    } else if digit == 4 {
        '4'
    } else if digit == 5 {
        '5'
    } else if digit == 6 {
        '6'
    } else if digit == 7 {
        '7'
    } else if digit == 8 {
        '8'
    } else {
        '9'
    }
}

/// A number in decimal notation, without leading zeros.
pub open spec fn decimal_text(n: nat) -> Seq<char>
    decreases n,
{
    if n < 10 {
        seq![digit_char(n)]
    } else {
        decimal_text(n / 10).push(digit_char(n % 10))
    }
}

/// The character of the decimal digit `digit`.
fn digit_of(digit: usize) -> (c: char)
    requires
        digit < 10,
    ensures
        c == digit_char(digit as nat),
{
    if digit == 0 {
        '0'
    } else if digit == 1 {
        '1'
    } else if digit == 2 {
        '2'
    } else if digit == 3 {
        '3'
    } else if digit == 4 {
        '4'
    } else if digit == 5 {
        '5'
    } else if digit == 6 {
        '6'
    } else if digit == 7 {
        '7'
    } else if digit == 8 {
        '8'
    } else {
        '9'
    }
}

/// The number `n` in decimal notation.
pub fn decimal(n: usize) -> (out: String)
    ensures
        out@ == decimal_text(n as nat),
    decreases n,
{
    if n < 10 {
        let mut out = String::new();
        out.push(digit_of(n));
        out
    } else {
        let mut out = decimal(n / 10);
        out.push(digit_of(n % 10));
        out
    }
}

} // verus!
