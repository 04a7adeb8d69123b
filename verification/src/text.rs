//! Text as the rest of the library reads and writes it: searching, splitting,
//! trimming, joining and the rendering of numbers.

use vstd::prelude::*;
use vstd::string::*;

verus! {

/// The place of the first `c` in `s`, or the length of `s` where there is none.
pub open spec fn find(s: Seq<char>, c: char) -> int
    decreases s.len(),
{
    if s.len() == 0 || s[0] == c {
        0
    } else {
        1 + find(s.drop_first(), c)
    }
}

/// The parts of `s` between the occurrences of `c`: one more than there are
/// occurrences, some of them possibly empty.
pub open spec fn split(s: Seq<char>, c: char) -> Seq<Seq<char>>
    decreases s.len(),
{
    proof {
        lemma_find(s, c);
    }
    if find(s, c) >= s.len() {
        seq![s]
    } else {
        seq![s.take(find(s, c))] + split(s.skip(find(s, c) + 1), c)
    }
}

/// The items of `list` with `sep` between each two.
pub open spec fn join(list: Seq<Seq<char>>, sep: Seq<char>) -> Seq<char>
    decreases list.len(),
{
    if list.len() == 0 {
        Seq::empty()
    } else if list.len() == 1 {
        list[0]
    } else {
        join(list.drop_last(), sep) + sep + list.last()
    }
}

/// The views of a list of strings.
pub open spec fn texts(list: Seq<String>) -> Seq<Seq<char>> {
    Seq::new(list.len(), |i: int| list[i]@)
}

/// The view of an optional string.
pub open spec fn optional_text(text: Option<String>) -> Option<Seq<char>> {
    match text {
        Some(text) => Some(text@),
        None => None,
    }
}

/// The characters with the Unicode property White_Space.
pub open spec fn is_white_space(c: char) -> bool {
    ||| '\u{9}' <= c <= '\u{d}'
    ||| c == '\u{20}'
    ||| c == '\u{85}'
    ||| c == '\u{a0}'
    ||| c == '\u{1680}'
    ||| '\u{2000}' <= c <= '\u{200a}'
    ||| c == '\u{2028}'
    ||| c == '\u{2029}'
    ||| c == '\u{202f}'
    ||| c == '\u{205f}'
    ||| c == '\u{3000}'
}

/// `s` without the white space at its end.
pub open spec fn trimmed_end(s: Seq<char>) -> Seq<char>
    decreases s.len(),
{
    if s.len() > 0 && is_white_space(s.last()) {
        trimmed_end(s.drop_last())
    } else {
        s
    }
}

/// `s` without the white space at its start.
pub open spec fn trimmed_start(s: Seq<char>) -> Seq<char>
    decreases s.len(),
{
    if s.len() > 0 && is_white_space(s[0]) {
        trimmed_start(s.drop_first())
    } else {
        s
    }
}

/// `s` without the white space at both its ends.
pub open spec fn trimmed(s: Seq<char>) -> Seq<char> {
    trimmed_start(trimmed_end(s))
}

/// The sixteen digits, the first ten of them the decimal ones.
pub open spec fn digit(d: nat) -> char {
    if d == 0 {
        '0'
    } else if d == 1 {
        '1'
    } else if d == 2 {
        '2'
    } else if d == 3 {
        '3'
    } else if d == 4 {
        '4'
    } else if d == 5 {
        '5'
    } else if d == 6 {
        '6'
    } else if d == 7 {
        '7'
    } else if d == 8 {
        '8'
    } else if d == 9 {
        '9'
    } else if d == 10 {
        'a'
    } else if d == 11 {
        'b'
    } else if d == 12 {
        'c'
    } else if d == 13 {
        'd'
    } else if d == 14 {
        'e'
    } else {
        'f'
    }
}

/// `n` in decimal, without leading zeros.
pub open spec fn decimal(n: nat) -> Seq<char>
    decreases n,
{
    if n < 10 {
        seq![digit(n)]
    } else {
        decimal(n / 10).push(digit(n % 10))
    }
}

/// The last `width` digits of `n` in base sixteen, with leading zeros.
pub open spec fn hexadecimal(n: nat, width: nat) -> Seq<char>
    decreases width,
{
    if width == 0 {
        Seq::empty()
    } else {
        hexadecimal(n / 16, (width - 1) as nat).push(digit(n % 16))
    }
}

/// The number of bytes in the UTF-8 encoding of `s`.
pub open spec fn byte_len(s: Seq<char>) -> usize {
    vstd::utf8::encode_utf8(s).len() as usize
}

/// The text of a string as the standard library's `Debug` writes it: in double
/// quotes, with what cannot be printed escaped.
pub uninterp spec fn quoted(s: Seq<char>) -> Seq<char>;

/// `s` as `Debug` writes it.
///
/// Calls `format!` with `{:?}` on a `str`. Claimed of it: the text depends on
/// the characters of `s` alone. What the escapes look like is left unsaid.
#[verifier::external_body]
pub(crate) fn quote(s: &str) -> (text: String)
    ensures
        text@ == quoted(s@),
{
    format!("{:?}", s)
}

/// `str::trim`: what is left of `s` without the characters of property
/// White_Space at its start and at its end.
pub assume_specification[ str::trim ](s: &str) -> (res: &str)
    ensures
        res@ == trimmed(s@),
;

/// What `find` says: no `c` stands before the place it gives, and one stands
/// there unless it is the end.
pub proof fn lemma_find(s: Seq<char>, c: char)
    ensures
        0 <= find(s, c) <= s.len(),
        find(s, c) < s.len() ==> s[find(s, c)] == c,
        forall|i: int| 0 <= i < find(s, c) ==> s[i] != c,
    decreases s.len(),
{
    if s.len() > 0 && s[0] != c {
        let rest = s.drop_first();
        lemma_find(rest, c);
        assert forall|i: int| 0 <= i < find(s, c) implies s[i] != c by {
            if i > 0 {
                assert(rest[i - 1] == s[i]);
            }
        }
    }
}

/// The place of the first `c` is the only one with nothing equal before it.
pub proof fn lemma_find_is(s: Seq<char>, c: char, at: int)
    requires
        0 <= at <= s.len(),
        at < s.len() ==> s[at] == c,
        forall|i: int| 0 <= i < at ==> s[i] != c,
    ensures
        find(s, c) == at,
{
    lemma_find(s, c);
}

/// Splitting takes off the part before the first `c` and goes on behind it.
proof fn lemma_split_contains(s: Seq<char>, c: char, part: Seq<char>)
    ensures
        split(s, c).contains(part) <==> s.take(find(s, c)) == part || (find(s, c) < s.len()
            && split(s.skip(find(s, c) + 1), c).contains(part)),
{
    lemma_find(s, c);
    let at = find(s, c);
    if at < s.len() {
        let rest = split(s.skip(at + 1), c);
        let all = split(s, c);
        assert(all =~= seq![s.take(at)] + rest);
        if rest.contains(part) {
            let i = choose|i: int| 0 <= i < rest.len() && rest[i] == part;
            assert(all[i + 1] == part);
        }
        if s.take(at) == part {
            assert(all[0] == part);
        }
        if all.contains(part) {
            let i = choose|i: int| 0 <= i < all.len() && all[i] == part;
            if i > 0 {
                assert(rest[i - 1] == part);
            }
        }
    } else {
        assert(s.take(at) =~= s);
        assert(split(s, c)[0] == s);
    }
}

/// Around a separator, splitting is splitting both sides.
pub proof fn lemma_split_concat(a: Seq<char>, c: char, b: Seq<char>)
    ensures
        split(a.push(c) + b, c) == split(a, c) + split(b, c),
    decreases a.len(),
{
    let whole = a.push(c) + b;
    let at = find(a, c);
    lemma_find(a, c);
    lemma_find_is(whole, c, at);
    if at == a.len() {
        assert(whole.take(at) =~= a);
        assert(whole.skip(at + 1) =~= b);
    } else {
        let rest = a.skip(at + 1);
        assert(whole.take(at) =~= a.take(at));
        assert(whole.skip(at + 1) =~= rest.push(c) + b);
        lemma_split_concat(rest, c, b);
    }
    assert(split(whole, c) =~= split(a, c) + split(b, c));
}

/// Nothing that is left after trimming is white space at an end.
pub proof fn lemma_trimmed(s: Seq<char>)
    ensures
        trimmed(s).len() > 0 ==> !is_white_space(trimmed(s)[0]) && !is_white_space(
            trimmed(s).last(),
        ),
{
    lemma_trimmed_end(s);
    lemma_trimmed_start(trimmed_end(s));
}

proof fn lemma_trimmed_end(s: Seq<char>)
    ensures
        trimmed_end(s).len() > 0 ==> !is_white_space(trimmed_end(s).last()),
    decreases s.len(),
{
    if s.len() > 0 && is_white_space(s.last()) {
        lemma_trimmed_end(s.drop_last());
    }
}

proof fn lemma_trimmed_start(s: Seq<char>)
    ensures
        trimmed_start(s).len() > 0 ==> !is_white_space(trimmed_start(s)[0])
            && trimmed_start(s).last() == s.last(),
    decreases s.len(),
{
    if s.len() > 0 && is_white_space(s[0]) {
        lemma_trimmed_start(s.drop_first());
    }
}

/// The characters of `s`.
pub fn chars_of(s: &str) -> (chars: Vec<char>)
    ensures
        chars@ == s@,
{
    let mut chars: Vec<char> = Vec::new();
    for c in it: s.chars()
        invariant
            chars@ == s@.take(it.index() as int),
            it.seq() == s@,
    {
        chars.push(c);
    }
    chars
}

/// The place of the first `c` at or behind `from`, or the length.
pub fn find_from(chars: &Vec<char>, c: char, from: usize) -> (at: usize)
    requires
        from <= chars@.len(),
    ensures
        at == from + find(chars@.skip(from as int), c),
        from <= at <= chars@.len(),
{
    let mut at: usize = from;
    while at < chars.len() && chars[at] != c
        invariant
            from <= at <= chars@.len(),
            forall|i: int| from <= i < at ==> chars@[i] != c,
        decreases chars@.len() - at,
    {
        at += 1;
    }
    proof {
        lemma_find_is(chars@.skip(from as int), c, at - from);
    }
    at
}

/// Whether one of the parts between the occurrences of `c` is `part`.
pub fn has_part(chars: &Vec<char>, c: char, part: &Vec<char>) -> (found: bool)
    ensures
        found == split(chars@, c).contains(part@),
{
    let mut start: usize = 0;
    proof {
        assert(chars@.skip(0) =~= chars@);
    }
    loop
        invariant
            start <= chars@.len(),
            split(chars@, c).contains(part@) == split(chars@.skip(start as int), c).contains(part@),
        decreases chars@.len() - start,
    {
        let at: usize = find_from(chars, c, start);
        proof {
            let rest = chars@.skip(start as int);
            lemma_split_contains(rest, c, part@);
            assert(rest.take(at - start) =~= chars@.subrange(start as int, at as int));
            if at < chars@.len() {
                assert(rest.skip(at - start + 1) =~= chars@.skip(at + 1));
            }
        }
        if is_range(chars, start, at, part) {
            return true;
        }
        if at == chars.len() {
            return false;
        }
        start = at + 1;
    }
}

/// Whether the characters from `from` to `to` are those of `part`.
fn is_range(chars: &Vec<char>, from: usize, to: usize, part: &Vec<char>) -> (same: bool)
    requires
        from <= to <= chars@.len(),
    ensures
        same == (chars@.subrange(from as int, to as int) == part@),
{
    let ghost range = chars@.subrange(from as int, to as int);
    if to - from != part.len() {
        return false;
    }
    let mut i: usize = 0;
    while i < part.len()
        invariant
            from <= to <= chars@.len(),
            range == chars@.subrange(from as int, to as int),
            to - from == part@.len(),
            i <= part@.len(),
            forall|j: int| 0 <= j < i ==> range[j] == part@[j],
        decreases part@.len() - i,
    {
        if chars[from + i] != part[i] {
            proof {
                assert(range[i as int] != part@[i as int]);
            }
            return false;
        }
        i += 1;
    }
    proof {
        assert(range =~= part@);
    }
    true
}

/// The digit `d` as a text of one character.
fn digit_text(d: u64) -> (text: &'static str)
    requires
        d < 16,
    ensures
        text@ == seq![digit(d as nat)],
{
    proof {
        reveal_strlit("0");
        reveal_strlit("1");
        reveal_strlit("2");
        reveal_strlit("3");
        reveal_strlit("4");
        reveal_strlit("5");
        reveal_strlit("6");
        reveal_strlit("7");
        reveal_strlit("8");
        reveal_strlit("9");
        reveal_strlit("a");
        reveal_strlit("b");
        reveal_strlit("c");
        reveal_strlit("d");
        reveal_strlit("e");
        reveal_strlit("f");
    }
    match d {
        0 => "0",
        1 => "1",
        2 => "2",
        3 => "3",
        4 => "4",
        5 => "5",
        6 => "6",
        7 => "7",
        8 => "8",
        9 => "9",
        10 => "a",
        11 => "b",
        12 => "c",
        13 => "d",
        14 => "e",
        _ => "f",
    }
}

/// `n` in decimal.
pub fn decimal_text(n: u64) -> (text: String)
    ensures
        text@ == decimal(n as nat),
    decreases n,
{
    if n < 10 {
        digit_text(n).to_owned()
    } else {
        let text = decimal_text(n / 10).concat(digit_text(n % 10));
        proof {
            assert(text@ =~= decimal((n / 10) as nat).push(digit((n % 10) as nat)));
        }
        text
    }
}

/// The last `width` digits of `n` in base sixteen.
pub fn hexadecimal_text(n: u64, width: u8) -> (text: String)
    ensures
        text@ == hexadecimal(n as nat, width as nat),
    decreases width,
{
    if width == 0 {
        String::new()
    } else {
        let text = hexadecimal_text(n / 16, width - 1).concat(digit_text(n % 16));
        proof {
            assert(text@ =~= hexadecimal((n / 16) as nat, (width - 1) as nat).push(
                digit((n % 16) as nat),
            ));
        }
        text
    }
}

/// A different number has a different rendering, as long as both fit the width.
pub proof fn lemma_hexadecimal_injective(a: nat, b: nat, width: nat)
    requires
        a < vstd::arithmetic::power::pow(16, width),
        b < vstd::arithmetic::power::pow(16, width),
        hexadecimal(a, width) == hexadecimal(b, width),
    ensures
        a == b,
    decreases width,
{
    if width == 0 {
        vstd::arithmetic::power::lemma_pow0(16);
    } else {
        let w = (width - 1) as nat;
        vstd::arithmetic::power::lemma_pow1(16);
        vstd::arithmetic::power::lemma_pow_adds(16, w, 1);
        let ta = hexadecimal(a / 16, w);
        let tb = hexadecimal(b / 16, w);
        let ha = hexadecimal(a, width);
        let hb = hexadecimal(b, width);
        assert(ha.drop_last() =~= ta);
        assert(hb.drop_last() =~= tb);
        assert(ha.last() == digit(a % 16));
        assert(hb.last() == digit(b % 16));
        assert(a % 16 == b % 16);
        lemma_hexadecimal_injective(a / 16, b / 16, w);
    }
}

/// Joining puts the separator between items and nowhere else.
pub proof fn law_join(list: Seq<Seq<char>>, sep: Seq<char>, item: Seq<char>)
    ensures
        join(Seq::empty(), sep) == Seq::<char>::empty(),
        join(seq![item], sep) == item,
        list.len() > 0 ==> join(list.push(item), sep) == join(list, sep) + sep + item,
{
    assert(list.push(item).drop_last() =~= list);
}

/// Joining can be undone from the front as well.
proof fn lemma_join_front(item: Seq<char>, list: Seq<Seq<char>>, sep: Seq<char>)
    requires
        list.len() > 0,
    ensures
        join(seq![item] + list, sep) == item + sep + join(list, sep),
    decreases list.len(),
{
    let all = seq![item] + list;
    assert(all.drop_last() =~= seq![item] + list.drop_last());
    assert(all.last() == list.last());
    assert(join(all, sep) == join(all.drop_last(), sep) + sep + list.last());
    if list.len() == 1 {
        assert(all.drop_last() =~= seq![item]);
    } else {
        lemma_join_front(item, list.drop_last(), sep);
    }
    assert(join(all, sep) =~= item + sep + join(list, sep));
}

/// Splitting loses nothing but the separators, and leaves none behind.
pub proof fn law_split(s: Seq<char>, c: char)
    ensures
        split(s, c).len() > 0,
        join(split(s, c), seq![c]) == s,
        forall|i: int| 0 <= i < split(s, c).len() ==> !(#[trigger] split(s, c)[i]).contains(c),
    decreases s.len(),
{
    lemma_find(s, c);
    let at = find(s, c);
    if at < s.len() {
        let rest = s.skip(at + 1);
        law_split(rest, c);
        lemma_join_front(s.take(at), split(rest, c), seq![c]);
        assert(s =~= s.take(at) + seq![c] + rest);
        assert forall|i: int| 0 <= i < split(s, c).len() implies !(#[trigger] split(
            s,
            c,
        )[i]).contains(c) by {
            if i > 0 {
                assert(split(s, c)[i] == split(rest, c)[i - 1]);
            } else {
                assert(split(s, c)[i] =~= s.take(at));
            }
        }
    }
}

/// Whether the characters of `s` from `from` to `to` are all that stands between
/// two occurrences of `c`, or between one and an end of `s`.
pub open spec fn bounded(s: Seq<char>, c: char, from: int, to: int) -> bool {
    &&& 0 <= from <= to <= s.len()
    &&& from == 0 || s[from - 1] == c
    &&& to == s.len() || s[to] == c
}

/// The parts of a text are what lies between its separators.
pub proof fn law_parts_lie_between(s: Seq<char>, c: char, part: Seq<char>)
    requires
        !part.contains(c),
    ensures
        split(s, c).contains(part) <==> exists|from: int, to: int| #[trigger]
            bounded(s, c, from, to) && s.subrange(from, to) == part,
    decreases s.len(),
{
    lemma_find(s, c);
    lemma_split_contains(s, c, part);
    let at = find(s, c);
    if s.take(at) == part {
        assert(s.subrange(0, at) =~= part);
        assert(bounded(s, c, 0, at));
    }
    if at < s.len() {
        let rest = s.skip(at + 1);
        law_parts_lie_between(rest, c, part);
        if split(rest, c).contains(part) {
            let (from, to) = choose|from: int, to: int| #[trigger]
                bounded(rest, c, from, to) && rest.subrange(from, to) == part;
            assert(s.subrange(at + 1 + from, at + 1 + to) =~= part);
            assert(bounded(s, c, at + 1 + from, at + 1 + to));
        }
    }
    if exists|from: int, to: int| #[trigger]
        bounded(s, c, from, to) && s.subrange(from, to) == part {
        let (from, to) = choose|from: int, to: int| #[trigger]
            bounded(s, c, from, to) && s.subrange(from, to) == part;
        if from <= at {
            if from > 0 {
                assert(s[from - 1] == c);
            }
            if to > at {
                assert(part[at - from] == c);
            }
            if to < at {
                assert(s[to] != c);
            }
            assert(s.take(at) =~= part);
        } else {
            let rest = s.skip(at + 1);
            assert(rest.subrange(from - at - 1, to - at - 1) =~= part);
            assert(bounded(rest, c, from - at - 1, to - at - 1));
        }
    }
}

/// Whether `s` is nothing but white space.
pub open spec fn is_blank(s: Seq<char>) -> bool {
    forall|i: int| 0 <= i < s.len() ==> is_white_space(#[trigger] s[i])
}

/// Whether `value` starts and ends with something other than white space.
pub open spec fn is_tight(value: Seq<char>) -> bool {
    &&& value.len() > 0
    &&& !is_white_space(value[0])
    &&& !is_white_space(value.last())
}

/// Whether `text` is `value` with nothing but white space around it.
pub open spec fn surrounds(text: Seq<char>, value: Seq<char>) -> bool {
    exists|before: Seq<char>, after: Seq<char>|
        is_blank(before) && is_blank(after) && text == #[trigger] (before + value + after)
}

/// What is trimmed off is white space, all of it at the ends, and nothing else is
/// lost.
pub proof fn law_trimmed(s: Seq<char>)
    ensures
        surrounds(s, trimmed(s)),
        is_blank(s) <==> trimmed(s).len() == 0,
        !is_blank(s) ==> is_tight(trimmed(s)),
{
    lemma_trimmed(s);
    let after = lemma_end_is_blank(s);
    let before = lemma_start_is_blank(trimmed_end(s));
    assert(s =~= before + trimmed(s) + after);
    if is_blank(s) && trimmed(s).len() > 0 {
        assert(trimmed(s)[0] == s[before.len() as int]);
    }
    if trimmed(s).len() == 0 {
        assert forall|i: int| 0 <= i < s.len() implies is_white_space(#[trigger] s[i]) by {
            if i < before.len() {
                assert(s[i] == before[i]);
            } else {
                assert(s[i] == after[i - before.len()]);
            }
        }
    }
}

proof fn lemma_end_is_blank(s: Seq<char>) -> (after: Seq<char>)
    ensures
        is_blank(after),
        s == trimmed_end(s) + after,
    decreases s.len(),
{
    if s.len() > 0 && is_white_space(s.last()) {
        let less = lemma_end_is_blank(s.drop_last());
        let after = less.push(s.last());
        assert(s =~= s.drop_last().push(s.last()));
        assert(trimmed_end(s) == trimmed_end(s.drop_last()));
        assert(s =~= trimmed_end(s) + after);
        after
    } else {
        assert(s =~= trimmed_end(s) + Seq::<char>::empty());
        Seq::empty()
    }
}

proof fn lemma_start_is_blank(s: Seq<char>) -> (before: Seq<char>)
    ensures
        is_blank(before),
        s == before + trimmed_start(s),
    decreases s.len(),
{
    if s.len() > 0 && is_white_space(s[0]) {
        let less = lemma_start_is_blank(s.drop_first());
        let before = seq![s[0]] + less;
        assert(s =~= seq![s[0]] + s.drop_first());
        assert(trimmed_start(s) == trimmed_start(s.drop_first()));
        assert(s =~= before + trimmed_start(s));
        before
    } else {
        assert(s =~= Seq::<char>::empty() + trimmed_start(s));
        Seq::empty()
    }
}

/// There is but one way to take the white space off.
pub proof fn law_trimming_is_unique(s: Seq<char>, value: Seq<char>)
    requires
        surrounds(s, value),
        is_tight(value),
    ensures
        trimmed(s) == value,
{
    law_trimmed(s);
    let (before, after) = choose|before: Seq<char>, after: Seq<char>|
        is_blank(before) && is_blank(after) && s == #[trigger] (before + value + after);
    let other = trimmed(s);
    assert(s[before.len() as int] == value[0]);
    assert(!is_blank(s));
    let (start, end) = choose|start: Seq<char>, end: Seq<char>|
        is_blank(start) && is_blank(end) && s == #[trigger] (start + other + end);
    assert(s[start.len() as int] == other[0]);
    if before.len() < start.len() {
        assert(s[before.len() as int] == start[before.len() as int]);
    }
    if start.len() < before.len() {
        assert(s[start.len() as int] == before[start.len() as int]);
    }
    let value_end = before.len() + value.len() - 1;
    let other_end = start.len() + other.len() - 1;
    assert(s[value_end] == value.last());
    assert(s[other_end] == other.last());
    if value_end < other_end {
        assert(s[other_end] == after[other_end - value_end - 1]);
    }
    if other_end < value_end {
        assert(s[value_end] == end[value_end - other_end - 1]);
    }
    assert(value =~= s.subrange(before.len() as int, value_end + 1));
    assert(other =~= s.subrange(start.len() as int, other_end + 1));
}

/// The value of a digit.
pub open spec fn digit_value(c: char) -> int {
    if '0' <= c <= '9' {
        c as int - '0' as int
    } else {
        c as int - 'a' as int + 10
    }
}

/// The number that a text of digits stands for.
pub open spec fn number(text: Seq<char>, base: int) -> int
    decreases text.len(),
{
    if text.len() == 0 {
        0
    } else {
        number(text.drop_last(), base) * base + digit_value(text.last())
    }
}

/// A rendering in decimal is of decimal digits, has no zero in front but its only
/// digit, and stands for the number.
pub proof fn law_decimal(n: nat)
    ensures
        decimal(n).len() > 0,
        forall|i: int| 0 <= i < decimal(n).len() ==> '0' <= #[trigger] decimal(n)[i] <= '9',
        decimal(n).len() > 1 ==> decimal(n)[0] != '0',
        number(decimal(n), 10) == n,
    decreases n,
{
    let text = decimal(n);
    if n < 10 {
        assert(text.drop_last() =~= Seq::empty());
        assert(number(text.drop_last(), 10) == 0);
    } else {
        law_decimal(n / 10);
        assert(text.drop_last() =~= decimal(n / 10));
        if decimal(n / 10).len() == 1 {
            assert(number(decimal(n / 10), 10) == digit_value(decimal(n / 10)[0])) by {
                reveal_with_fuel(number, 2);
                assert(decimal(n / 10).drop_last() =~= Seq::empty());
            }
        }
    }
}

/// A rendering in base sixteen has the width asked for, is of lower-case digits
/// and stands for the number, or for as much of it as fits.
pub proof fn law_hexadecimal(n: nat, width: nat)
    ensures
        hexadecimal(n, width).len() == width,
        forall|i: int|
            0 <= i < width ==> ('0' <= #[trigger] hexadecimal(n, width)[i] <= '9' || 'a'
                <= hexadecimal(n, width)[i] <= 'f'),
        number(hexadecimal(n, width), 16) == n as int % vstd::arithmetic::power::pow(16, width),
    decreases width,
{
    if width == 0 {
        vstd::arithmetic::power::lemma_pow0(16);
    } else {
        let w = (width - 1) as nat;
        law_hexadecimal(n / 16, w);
        assert(hexadecimal(n, width).drop_last() =~= hexadecimal(n / 16, w));
        vstd::arithmetic::power::lemma_pow1(16);
        vstd::arithmetic::power::lemma_pow_adds(16, 1, w);
        vstd::arithmetic::power::lemma_pow_positive(16, w);
        vstd::arithmetic::div_mod::lemma_mod_breakdown(
            n as int,
            16,
            vstd::arithmetic::power::pow(16, w),
        );
    }
}

} // verus!
