//! Text primitives: comparison, search, lower case, decimal numbers and concatenation.

use vstd::prelude::*;

verus! {

/// `needle` stands in `hay` as a run of consecutive characters.
pub open spec fn has_part(hay: Seq<char>, needle: Seq<char>) -> bool {
    exists|at: int| part_at(hay, needle, at)
}

/// `needle` stands in `hay` starting at position `at`.
pub open spec fn part_at(hay: Seq<char>, needle: Seq<char>, at: int) -> bool {
    &&& 0 <= at
    &&& at + needle.len() <= hay.len()
    &&& hay.subrange(at, at + needle.len()) == needle
}

/// The character of a decimal digit.
pub open spec fn digit(d: nat) -> char {
    (d + 48) as char
}

/// A natural number in decimal, without leading zeros.
pub open spec fn decimal(n: nat) -> Seq<char>
    decreases n,
{
    if n < 10 {
        seq![digit(n)]
    } else {
        decimal(n / 10).push(digit(n % 10))
    }
}

/// An integer in decimal: a minus sign where it is negative, then its absolute value.
pub open spec fn signed_decimal(n: int) -> Seq<char> {
    if n < 0 {
        seq!['-'] + decimal((-n) as nat)
    } else {
        decimal(n as nat)
    }
}

/// The texts of a list of strings.
pub open spec fn texts(list: Seq<String>) -> Seq<Seq<char>> {
    list.map_values(|s: String| s@)
}

/// `list` with `separator` between each two neighbours.
pub open spec fn joined(list: Seq<Seq<char>>, separator: Seq<char>) -> Seq<char>
    decreases list.len(),
{
    if list.len() == 0 {
        Seq::empty()
    } else if list.len() == 1 {
        list[0]
    } else {
        joined(list.drop_last(), separator) + separator + list.last()
    }
}

/// The characters of a text, in order.
pub fn characters(s: &str) -> (chars: Vec<char>)
    ensures
        chars@ == s@,
{
    let mut chars: Vec<char> = Vec::new();
    for c in it: s.chars()
        invariant
            it.seq() == s@,
            chars@ == s@.take(it.index() as int),
    {
        chars.push(c);
    }
    assert(s@.take(s@.len() as int) == s@);
    chars
}

/// Whether two texts are equal.
pub fn same_text(a: &str, b: &str) -> (same: bool)
    ensures
        same == (a@ == b@),
{
    let left = characters(a);
    let right = characters(b);
    if left.len() != right.len() {
        return false;
    }
    for i in 0..left.len()
        invariant
            left@ == a@,
            right@ == b@,
            left.len() == right.len(),
            forall|j: int| 0 <= j < i ==> left@[j] == right@[j],
    {
        if left[i] != right[i] {
            return false;
        }
    }
    assert(a@ =~= b@);
    true
}

/// Whether `needle` stands in `hay` at position `at`.
fn chars_match_at(hay: &Vec<char>, needle: &Vec<char>, at: usize) -> (found: bool)
    requires
        at + needle.len() <= hay.len(),
    ensures
        found == part_at(hay@, needle@, at as int),
{
    for k in 0..needle.len()
        invariant
            at + needle.len() <= hay.len(),
            forall|j: int| 0 <= j < k ==> hay@[at + j] == needle@[j],
    {
        if hay[at + k] != needle[k] {
            assert(hay@.subrange(at as int, at + needle@.len())[k as int] != needle@[k as int]);
            return false;
        }
    }
    assert(hay@.subrange(at as int, at + needle@.len()) =~= needle@);
    true
}

/// Whether `needle` is a part of `hay`.
pub fn contains(hay: &str, needle: &str) -> (found: bool)
    ensures
        found == has_part(hay@, needle@),
{
    let h = characters(hay);
    let n = characters(needle);
    if n.len() > h.len() {
        return false;
    }
    let last: usize = h.len() - n.len();
    let mut at: usize = 0;
    while at <= last
        invariant
            h@ == hay@,
            n@ == needle@,
            last + n.len() == h.len(),
            at <= last + 1,
            forall|j: int| 0 <= j < at ==> !part_at(hay@, needle@, j),
        decreases last + 1 - at,
    {
        if chars_match_at(&h, &n, at) {
            return true;
        }
        if at == last {
            assert forall|j: int| !part_at(hay@, needle@, j) by {}
            return false;
        }
        at = at + 1;
    }
    false
}

/// Whether `s` starts with `prefix`.
pub fn starts_with(s: &str, prefix: &str) -> (found: bool)
    ensures
        found == part_at(s@, prefix@, 0),
{
    let h = characters(s);
    let n = characters(prefix);
    n.len() <= h.len() && chars_match_at(&h, &n, 0)
}

/// Whether `list` holds the text `s`.
pub fn listed(list: &Vec<String>, s: &str) -> (found: bool)
    ensures
        found == texts(list@).contains(s@),
{
    for i in 0..list.len()
        invariant
            forall|j: int| 0 <= j < i ==> texts(list@)[j] != s@,
    {
        if same_text(&list[i], s) {
            assert(texts(list@)[i as int] == s@);
            return true;
        }
    }
    false
}

/// What `str::to_lowercase` makes of a text.
pub uninterp spec fn lowercase(s: Seq<char>) -> Seq<char>;

/// The lower case of one ASCII character.
pub open spec fn ascii_lower(c: char) -> char {
    if 'A' <= c && c <= 'Z' {
        (c as int + 32) as char
    } else {
        c
    }
}

/// `str::to_lowercase` of `std`: the Unicode lower case of a text. Its result is named
/// [`lowercase`]. Of a text made of ASCII characters alone it is the text with each of `A` to `Z`
/// replaced by the matching letter of `a` to `z`. What it is of any other text is left unsaid.
#[verifier::external_body]
fn to_lowercase(s: &str) -> (lower: String)
    ensures
        lower@ == lowercase(s@),
        vstd::utf8::is_ascii_chars(s@) ==> lower@ == s@.map_values(|c: char| ascii_lower(c)),
{
    s.to_lowercase()
}

/// A text in lower case. Of a text made of ASCII characters alone it is the text with each of `A`
/// to `Z` replaced by the matching letter of `a` to `z`.
pub fn lower_text(s: &str) -> (lower: String)
    ensures
        lower@ == lowercase(s@),
        vstd::utf8::is_ascii_chars(s@) ==> lower@ == s@.map_values(|c: char| ascii_lower(c)),
{
    to_lowercase(s)
}

/// `s` followed by `tail`.
pub fn plus(s: String, tail: &str) -> (longer: String)
    ensures
        longer@ == s@ + tail@,
{
    s.concat(tail)
}

/// A number in decimal.
pub fn number(n: u64) -> (s: String)
    ensures
        s@ == decimal(n as nat),
    decreases n,
{
    if n < 10 {
        let s = digit_text(n);
        s
    } else {
        let head = number(n / 10);
        let tail = digit_text(n % 10);
        let s = plus(head, &tail);
        assert(s@ =~= decimal((n / 10) as nat).push(digit((n % 10) as nat)));
        s
    }
}

/// One decimal digit.
fn digit_text(d: u64) -> (s: String)
    requires
        d < 10,
    ensures
        s@ == seq![digit(d as nat)],
{
    proof {
        reveal_strlit("0");
        reveal_strlit("1");
        reveal_strlit("2");
        reveal_strlit("3");
        reveal_strlit("4");
        reveal_strlit("5");
        reveal_strlit("6");
        reveal_strlit("7");
        reveal_strlit("8");
        reveal_strlit("9");
    }
    let t: &str = match d {
        0 => "0",
        1 => "1",
        2 => "2",
        3 => "3",
        4 => "4",
        5 => "5",
        6 => "6",
        7 => "7",
        8 => "8",
        _ => "9",
    };
    assert(t@ =~= seq![digit(d as nat)]);
    t.to_owned()
}

/// A signed number in decimal.
pub fn signed_number(n: i64) -> (s: String)
    ensures
        s@ == signed_decimal(n as int),
{
    if n < 0 {
        proof {
            reveal_strlit("-");
        }
        let sign: &str = "-";
        assert(sign@ =~= seq!['-']);
        let size: u64 = (0i128 - n as i128) as u64;
        plus(sign.to_owned(), &number(size))
    } else {
        number(n as u64)
    }
}

/// The texts of `list`, with `separator` between each two neighbours.
pub fn join(list: &Vec<String>, separator: &str) -> (s: String)
    ensures
        s@ == joined(texts(list@), separator@),
{
    let mut s = String::new();
    let ghost all = texts(list@);
    for i in 0..list.len()
        invariant
            all == texts(list@),
            s@ == joined(all.take(i as int), separator@),
    {
        assert(all.take(i + 1).drop_last() =~= all.take(i as int));
        if i > 0 {
            s = plus(s, separator);
        }
        s = plus(s, &list[i]);
        assert(i == 0 ==> s@ =~= all[0]);
    }
    assert(all.take(all.len() as int) =~= all);
    s
}

/// The texts of a list of string slices.
pub open spec fn str_texts(list: Seq<&'static str>) -> Seq<Seq<char>> {
    list.map_values(|s: &'static str| s@)
}

/// The first text of the list that is a part of `hay`.
pub open spec fn first_part(hay: Seq<char>, needles: Seq<Seq<char>>) -> Option<Seq<char>>
    decreases needles.len(),
{
    if needles.len() == 0 {
        None
    } else {
        match first_part(hay, needles.drop_last()) {
            Some(needle) => Some(needle),
            None => if has_part(hay, needles.last()) {
                Some(needles.last())
            } else {
                None
            },
        }
    }
}

/// The first text of the list that is a part of `hay`.
pub fn find_part(hay: &str, needles: &Vec<&'static str>) -> (found: Option<&'static str>)
    ensures
        match found {
            Some(needle) => first_part(hay@, str_texts(needles@)) == Some(needle@),
            None => first_part(hay@, str_texts(needles@)) is None,
        },
{
    let mut found: Option<&'static str> = None;
    let ghost all = str_texts(needles@);
    for i in 0..needles.len()
        invariant
            all == str_texts(needles@),
            match found {
                Some(needle) => first_part(hay@, all.take(i as int)) == Some(needle@),
                None => first_part(hay@, all.take(i as int)) is None,
            },
    {
        assert(all.take(i + 1).drop_last() =~= all.take(i as int));
        if found.is_none() && contains(hay, needles[i]) {
            found = Some(needles[i]);
        }
    }
    assert(all.take(all.len() as int) =~= all);
    found
}

/// Whether the list holds the text `s`.
pub fn one_of(s: &str, list: &Vec<&'static str>) -> (found: bool)
    ensures
        found == str_texts(list@).contains(s@),
{
    for i in 0..list.len()
        invariant
            forall|j: int| 0 <= j < i ==> str_texts(list@)[j] != s@,
    {
        if same_text(list[i], s) {
            assert(str_texts(list@)[i as int] == s@);
            return true;
        }
    }
    false
}

/// Two texts, one after the other.
pub fn cat2(a: &str, b: &str) -> (s: String)
    ensures
        s@ == a@ + b@,
{
    plus(a.to_owned(), b)
}

/// Three texts, one after the other.
pub fn cat3(a: &str, b: &str, c: &str) -> (s: String)
    ensures
        s@ == a@ + b@ + c@,
{
    plus(cat2(a, b), c)
}

/// Four texts, one after the other.
pub fn cat4(a: &str, b: &str, c: &str, d: &str) -> (s: String)
    ensures
        s@ == a@ + b@ + c@ + d@,
{
    plus(cat3(a, b, c), d)
}

/// Five texts, one after the other.
pub fn cat5(a: &str, b: &str, c: &str, d: &str, e: &str) -> (s: String)
    ensures
        s@ == a@ + b@ + c@ + d@ + e@,
{
    plus(cat4(a, b, c, d), e)
}

/// Six texts, one after the other.
pub fn cat6(a: &str, b: &str, c: &str, d: &str, e: &str, f: &str) -> (s: String)
    ensures
        s@ == a@ + b@ + c@ + d@ + e@ + f@,
{
    plus(cat5(a, b, c, d, e), f)
}

/// Seven texts, one after the other.
pub fn cat7(a: &str, b: &str, c: &str, d: &str, e: &str, f: &str, g: &str) -> (s: String)
    ensures
        s@ == a@ + b@ + c@ + d@ + e@ + f@ + g@,
{
    plus(cat6(a, b, c, d, e, f), g)
}

} // verus!
