//! Laws of texts: what searching, numbering and joining mean for the texts that come out.

use crate::text::{
    decimal, digit, first_part, has_part, joined, part_at, signed_decimal, str_texts, texts,
};
use vstd::prelude::*;

verus! {

broadcast use vstd::seq_lib::group_seq_properties;

/// Whatever stands around it, a text is found where it stands.
pub proof fn a_part_is_found(before: Seq<char>, part: Seq<char>, behind: Seq<char>)
    ensures
        has_part(before + part + behind, part),
        part_at(before + part + behind, part, before.len() as int),
{
    let hay = before + part + behind;
    assert(hay.subrange(before.len() as int, (before.len() + part.len()) as int) =~= part);
    assert(part_at(hay, part, before.len() as int));
}

/// Where a text is found, it stands between what is before it and what is behind it.
pub proof fn a_found_part_is_there(hay: Seq<char>, part: Seq<char>) -> (around: (
    Seq<char>,
    Seq<char>,
))
    requires
        has_part(hay, part),
    ensures
        hay == around.0 + part + around.1,
{
    let at = choose|at: int| part_at(hay, part, at);
    let before = hay.subrange(0, at);
    let behind = hay.subrange(at + part.len(), hay.len() as int);
    assert(hay =~= before + part + behind) by {
        assert forall|i: int| 0 <= i < hay.len() implies hay[i] == (before + part + behind)[i] by {
            if at <= i < at + part.len() {
                assert(hay.subrange(at, at + part.len())[i - at] == hay[i]);
            }
        }
    }
    (before, behind)
}

/// A text starts with another exactly where it is that other with something behind it.
pub proof fn a_prefix_is_what_a_text_starts_with(prefix: Seq<char>, rest: Seq<char>, s: Seq<char>)
    ensures
        part_at(prefix + rest, prefix, 0),
        part_at(s, prefix, 0) ==> s == prefix + s.skip(prefix.len() as int),
{
    assert((prefix + rest).subrange(0, prefix.len() as int) =~= prefix);
    if part_at(s, prefix, 0) {
        assert forall|i: int| 0 <= i < prefix.len() implies s[i] == prefix[i] by {
            assert(s.subrange(0, prefix.len() as int)[i] == s[i]);
        }
        assert(s =~= prefix + s.skip(prefix.len() as int));
    }
}

/// What is chosen of a list is found, and nothing before it is; nothing is chosen only where
/// nothing is found.
pub proof fn the_first_part_is_chosen(hay: Seq<char>, needles: Seq<Seq<char>>, k: int)
    requires
        0 <= k < needles.len(),
    ensures
        has_part(hay, needles[k]) && (forall|j: int|
            0 <= j < k ==> !has_part(hay, #[trigger] needles[j])) ==> first_part(hay, needles)
            == Some(needles[k]),
        first_part(hay, needles) is None ==> !has_part(hay, needles[k]),
    decreases needles.len(),
{
    let front = needles.drop_last();
    if k < front.len() {
        assert(front[k] == needles[k]);
        assert forall|j: int| 0 <= j < k implies front[j] == needles[j] by {}
        the_first_part_is_chosen(hay, front, k);
    } else if front.len() > 0 {
        if forall|j: int| 0 <= j < k ==> !has_part(hay, #[trigger] needles[j]) {
            nothing_is_chosen_of_what_is_not_there(hay, front);
        }
    }
}

/// Where no text of a list is found, none is chosen.
pub proof fn nothing_is_chosen_of_what_is_not_there(hay: Seq<char>, needles: Seq<Seq<char>>)
    requires
        forall|j: int| 0 <= j < needles.len() ==> !has_part(hay, #[trigger] needles[j]),
    ensures
        first_part(hay, needles) is None,
    decreases needles.len(),
{
    if needles.len() > 0 {
        let front = needles.drop_last();
        assert forall|j: int| 0 <= j < front.len() implies !has_part(hay, #[trigger] front[j]) by {
            assert(front[j] == needles[j]);
        }
        nothing_is_chosen_of_what_is_not_there(hay, front);
    }
}

/// What is chosen of a list stands in it, is found, and nothing before it is found.
pub proof fn a_chosen_part_is_the_first(hay: Seq<char>, needles: Seq<Seq<char>>) -> (k: int)
    requires
        first_part(hay, needles) is Some,
    ensures
        0 <= k < needles.len(),
        first_part(hay, needles) == Some(needles[k]),
        has_part(hay, needles[k]),
        forall|j: int| 0 <= j < k ==> !has_part(hay, #[trigger] needles[j]),
    decreases needles.len(),
{
    let front = needles.drop_last();
    if first_part(hay, front) is Some {
        let k = a_chosen_part_is_the_first(hay, front);
        assert forall|j: int| 0 <= j < k implies !has_part(hay, #[trigger] needles[j]) by {
            assert(front[j] == needles[j]);
        }
        k
    } else {
        assert forall|j: int| 0 <= j < front.len() implies !has_part(hay, #[trigger] needles[j]) by {
            assert(front[j] == needles[j]);
            the_first_part_is_chosen(hay, front, j);
        }
        needles.len() - 1
    }
}

/// The number that decimal digits stand for.
pub open spec fn value_of(digits: Seq<char>) -> int
    decreases digits.len(),
{
    if digits.len() == 0 {
        0
    } else {
        value_of(digits.drop_last()) * 10 + (digits.last() as int - '0' as int)
    }
}

/// A number in decimal is made of digits, has no leading zero, and stands for the number.
pub proof fn decimals_stand_for_their_number(n: nat)
    ensures
        decimal(n).len() > 0,
        forall|i: int| 0 <= i < decimal(n).len() ==> '0' <= #[trigger] decimal(n)[i] <= '9',
        decimal(n).len() > 1 ==> decimal(n)[0] != '0',
        value_of(decimal(n)) == n,
    decreases n,
{
    reveal_with_fuel(value_of, 2);
    if n >= 10 {
        decimals_stand_for_their_number(n / 10);
        let head = decimal(n / 10);
        let last = digit(n % 10);
        assert(decimal(n) == head.push(last));
        assert(decimal(n).drop_last() =~= head);
        assert forall|i: int| 0 <= i < decimal(n).len() implies '0' <= #[trigger] decimal(n)[i]
            <= '9' by {
            if i < head.len() {
                assert(decimal(n)[i] == head[i]);
            }
        }
        assert(decimal(n)[0] == head[0]);
        if head.len() == 1 {
            assert(head.drop_last() =~= Seq::<char>::empty());
            assert(value_of(head) == head[0] as int - '0' as int);
            assert(head[0] != '0');
        }
    } else {
        assert(decimal(n).drop_last() =~= Seq::<char>::empty());
    }
}

/// Different numbers have different decimals.
pub proof fn decimals_differ(a: nat, b: nat)
    requires
        decimal(a) == decimal(b),
    ensures
        a == b,
{
    decimals_stand_for_their_number(a);
    decimals_stand_for_their_number(b);
}

/// A signed number in decimal is that of its size, behind a minus where it is negative; different
/// numbers have different ones.
pub proof fn signed_decimals_differ(a: int, b: int)
    ensures
        a >= 0 ==> value_of(signed_decimal(a)) == a,
        a < 0 ==> signed_decimal(a)[0] == '-' && value_of(signed_decimal(a).skip(1)) == -a,
        signed_decimal(a) == signed_decimal(b) ==> a == b,
{
    let (x, y) = (signed_decimal(a), signed_decimal(b));
    let size_a: int = if a < 0 {
        -a
    } else {
        a
    };
    let size_b: int = if b < 0 {
        -b
    } else {
        b
    };
    decimals_stand_for_their_number(size_a as nat);
    decimals_stand_for_their_number(size_b as nat);
    if a < 0 {
        assert(x.skip(1) =~= decimal((-a) as nat));
    }
    if b < 0 {
        assert(y.skip(1) =~= decimal((-b) as nat));
    }
    if x == y {
        assert(x[0] == y[0]);
    }
}

/// Joining two lists one behind the other puts one separator between what each of them gives.
pub proof fn joining_puts_separators_between(
    first: Seq<Seq<char>>,
    second: Seq<Seq<char>>,
    one: Seq<char>,
    separator: Seq<char>,
)
    ensures
        joined(Seq::<Seq<char>>::empty(), separator) == Seq::<char>::empty(),
        joined(seq![one], separator) == one,
        first.len() > 0 && second.len() > 0 ==> joined(first + second, separator) == joined(
            first,
            separator,
        ) + separator + joined(second, separator),
    decreases second.len(),
{
    if first.len() > 0 && second.len() > 0 {
        let all = first + second;
        assert(all.drop_last() =~= first + second.drop_last());
        if second.len() == 1 {
            assert(first + second.drop_last() =~= first);
            assert(second[0] == all.last());
        } else {
            joining_puts_separators_between(first, second.drop_last(), one, separator);
            assert(joined(all, separator) =~= joined(first, separator) + separator + joined(
                second,
                separator,
            ));
        }
    }
}

/// The texts of a list are the texts of its strings, in their order.
pub proof fn texts_are_those_of_the_strings(list: Seq<String>, slices: Seq<&'static str>, i: int)
    ensures
        texts(list).len() == list.len(),
        0 <= i < list.len() ==> texts(list)[i] == list[i]@,
        str_texts(slices).len() == slices.len(),
        0 <= i < slices.len() ==> str_texts(slices)[i] == slices[i]@,
{
}

/// Of two equal texts with a colon in each, where nothing before the two colons is a colon, the
/// parts before and behind the colons are equal.
pub proof fn a_first_colon_divides_a_text(
    a: Seq<char>,
    b: Seq<char>,
    behind_a: Seq<char>,
    behind_b: Seq<char>,
)
    requires
        a + seq![':'] + behind_a == b + seq![':'] + behind_b,
        !a.contains(':'),
        !b.contains(':'),
    ensures
        a == b,
        behind_a == behind_b,
{
    let s = a + seq![':'] + behind_a;
    let t = b + seq![':'] + behind_b;
    assert(s[a.len() as int] == ':');
    assert(t[b.len() as int] == ':');
    if a.len() < b.len() {
        assert(b[a.len() as int] == t[a.len() as int]);
        assert(b.contains(':'));
    }
    if b.len() < a.len() {
        assert(a[b.len() as int] == s[b.len() as int]);
        assert(a.contains(':'));
    }
    assert(a =~= s.take(a.len() as int));
    assert(b =~= t.take(b.len() as int));
    assert(behind_a =~= s.skip(a.len() as int + 1));
    assert(behind_b =~= t.skip(b.len() as int + 1));
}

/// Texts that are equal behind one and the same beginning are equal.
pub proof fn a_beginning_can_be_taken_away(beginning: Seq<char>, a: Seq<char>, b: Seq<char>)
    requires
        beginning + a == beginning + b,
    ensures
        a == b,
{
    assert(a =~= (beginning + a).skip(beginning.len() as int));
    assert(b =~= (beginning + b).skip(beginning.len() as int));
}

} // verus!
