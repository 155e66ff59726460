//! Character sequences: finding, splitting and joining, with the executable
//! counterparts on `str` and `String`.

use vstd::prelude::*;
use vstd::string::*;

verus! {

/// The index of the first `c` in `s`, or `s.len()` when `s` holds none.
pub open spec fn first_at(s: Seq<char>, c: char) -> int
    decreases s.len(),
{
    if s.len() == 0 || s[0] == c {
        0
    } else {
        1 + first_at(s.drop_first(), c)
    }
}

/// The pieces of `s` between occurrences of `sep`. There is always at least
/// one piece; an empty `s` gives one empty piece.
pub open spec fn split(s: Seq<char>, sep: char) -> Seq<Seq<char>>
    decreases s.len(),
{
    let i = first_at(s, sep);
    if 0 <= i < s.len() {
        seq![s.take(i)] + split(s.skip(i + 1), sep)
    } else {
        seq![s]
    }
}

/// The pieces written one after another with `sep` between neighbours.
pub open spec fn join(parts: Seq<Seq<char>>, sep: Seq<char>) -> Seq<char>
    decreases parts.len(),
{
    if parts.len() == 0 {
        Seq::empty()
    } else if parts.len() == 1 {
        parts[0]
    } else {
        join(parts.drop_last(), sep) + sep + parts.last()
    }
}

/// No piece holds the character `c`.
pub open spec fn all_free_of(parts: Seq<Seq<char>>, c: char) -> bool {
    forall|i: int| 0 <= i < parts.len() ==> !(#[trigger] parts[i]).contains(c)
}

/// `first_at` is the least index that holds `c`, and the length if there is none.
pub proof fn lemma_first_at(s: Seq<char>, c: char)
    ensures
        0 <= first_at(s, c) <= s.len(),
        forall|j: int| 0 <= j < first_at(s, c) ==> s[j] != c,
        first_at(s, c) < s.len() ==> s[first_at(s, c)] == c,
        first_at(s, c) < s.len() <==> s.contains(c),
    decreases s.len(),
{
    if s.len() == 0 || s[0] == c {
    } else {
        let rest = s.drop_first();
        lemma_first_at(rest, c);
        assert forall|j: int| 0 <= j < first_at(s, c) implies s[j] != c by {
            if j > 0 {
                assert(s[j] == rest[j - 1]);
            }
        }
        if first_at(s, c) < s.len() {
            assert(s[first_at(s, c)] == rest[first_at(rest, c)]);
        }
        if s.contains(c) {
            let k = choose|k: int| 0 <= k < s.len() && s[k] == c;
            assert(rest[k - 1] == c);
        }
    }
}

/// An index with no `c` before it that holds `c`, or is the length, is `first_at`.
pub proof fn lemma_first_at_is(s: Seq<char>, c: char, i: int)
    requires
        0 <= i <= s.len(),
        forall|j: int| 0 <= j < i ==> s[j] != c,
        i < s.len() ==> s[i] == c,
    ensures
        first_at(s, c) == i,
{
    lemma_first_at(s, c);
    let f = first_at(s, c);
    if f < i {
        assert(s[f] != c);
    } else if i < f {
        assert(s[i] != c);
    }
}

/// Splitting gives at least one piece, and no piece holds the separator.
pub proof fn lemma_split_pieces(s: Seq<char>, sep: char)
    ensures
        split(s, sep).len() >= 1,
        all_free_of(split(s, sep), sep),
    decreases s.len(),
{
    lemma_first_at(s, sep);
    let i = first_at(s, sep);
    if 0 <= i < s.len() {
        let rest = split(s.skip(i + 1), sep);
        lemma_split_pieces(s.skip(i + 1), sep);
        let all = seq![s.take(i)] + rest;
        assert forall|k: int| 0 <= k < all.len() implies !(#[trigger] all[k]).contains(sep) by {
            if k == 0 {
                assert(all[0] == s.take(i));
                if s.take(i).contains(sep) {
                    let j = choose|j: int| 0 <= j < s.take(i).len() && s.take(i)[j] == sep;
                    assert(s[j] == sep);
                }
            } else {
                assert(all[k] == rest[k - 1]);
            }
        }
    } else {
        assert(split(s, sep)[0] == s);
    }
}

/// Joining a piece in front of others puts the separator after it.
pub proof fn lemma_join_prepend(head: Seq<char>, rest: Seq<Seq<char>>, sep: Seq<char>)
    requires
        rest.len() >= 1,
    ensures
        join(seq![head] + rest, sep) == head + sep + join(rest, sep),
    decreases rest.len(),
{
    let all = seq![head] + rest;
    assert(all.last() == rest.last());
    if rest.len() == 1 {
        assert(all.drop_last() =~= seq![head]);
        assert(join(seq![head], sep) == head);
        assert(join(rest, sep) == rest[0]);
    } else {
        assert(all.drop_last() =~= seq![head] + rest.drop_last());
        lemma_join_prepend(head, rest.drop_last(), sep);
        assert(join(all, sep) =~= head + sep + join(rest, sep));
    }
}

/// Joining one more piece at the end puts the separator before it.
pub proof fn lemma_join_push(parts: Seq<Seq<char>>, last: Seq<char>, sep: Seq<char>)
    requires
        parts.len() >= 1,
    ensures
        join(parts.push(last), sep) == join(parts, sep) + sep + last,
{
    assert(parts.push(last).drop_last() =~= parts);
}

/// Every character of a piece is a character of the joined text.
pub proof fn lemma_join_holds(parts: Seq<Seq<char>>, sep: Seq<char>, c: char)
    ensures
        forall|i: int|
            0 <= i < parts.len() && (#[trigger] parts[i]).contains(c) ==> join(parts, sep).contains(
                c,
            ),
    decreases parts.len(),
{
    if parts.len() >= 2 {
        let front = parts.drop_last();
        lemma_join_holds(front, sep, c);
        let whole = join(parts, sep);
        let lead = join(front, sep) + sep;
        assert(whole == lead + parts.last());
        assert forall|i: int|
            0 <= i < parts.len() && (#[trigger] parts[i]).contains(c) implies whole.contains(c) by {
            if i < parts.len() - 1 {
                assert(front[i] == parts[i]);
                let k = choose|k: int| 0 <= k < join(front, sep).len() && join(front, sep)[k] == c;
                assert(whole[k] == c);
            } else {
                let k = choose|k: int| 0 <= k < parts[i].len() && parts[i][k] == c;
                assert(whole[lead.len() + k] == c);
            }
        }
    }
}

/// Splitting at a character and joining with it gives the text back.
pub proof fn lemma_join_split(s: Seq<char>, sep: char)
    ensures
        join(split(s, sep), seq![sep]) == s,
    decreases s.len(),
{
    lemma_first_at(s, sep);
    let i = first_at(s, sep);
    if 0 <= i < s.len() {
        let tail = s.skip(i + 1);
        lemma_join_split(tail, sep);
        lemma_split_pieces(tail, sep);
        lemma_join_prepend(s.take(i), split(tail, sep), seq![sep]);
        assert(s.take(i) + seq![sep] + tail =~= s);
    } else {
        assert(split(s, sep) =~= seq![s]);
    }
}

/// Joining pieces that are free of the separator and splitting again gives
/// the pieces back.
pub proof fn lemma_split_join(parts: Seq<Seq<char>>, sep: char)
    requires
        parts.len() >= 1,
        all_free_of(parts, sep),
    ensures
        split(join(parts, seq![sep]), sep) == parts,
    decreases parts.len(),
{
    let head = parts[0];
    assert(!head.contains(sep));
    if parts.len() == 1 {
        lemma_first_at(head, sep);
        assert(join(parts, seq![sep]) == head);
        assert(split(head, sep) =~= parts);
    } else {
        let rest = parts.drop_first();
        assert(parts =~= seq![head] + rest);
        assert forall|i: int| 0 <= i < rest.len() implies !(#[trigger] rest[i]).contains(sep) by {
            assert(rest[i] == parts[i + 1]);
        }
        lemma_join_prepend(head, rest, seq![sep]);
        lemma_split_join(rest, sep);
        let whole = head + seq![sep] + join(rest, seq![sep]);
        assert(join(parts, seq![sep]) == whole);
        assert forall|j: int| 0 <= j < head.len() implies whole[j] != sep by {
            assert(whole[j] == head[j]);
        }
        assert(whole[head.len() as int] == sep);
        lemma_first_at_is(whole, sep, head.len() as int);
        assert(whole.take(head.len() as int) =~= head);
        assert(whole.skip(head.len() as int + 1) =~= join(rest, seq![sep]));
    }
}

/// The characters of a string slice, one by one.
pub fn chars_of(s: &str) -> (v: Vec<char>)
    ensures
        v@ == s@,
{
    let mut v: Vec<char> = Vec::new();
    for c in it: s.chars()
        invariant
            v@ == it.seq().take(it.index() as int),
            it.seq() == s@,
    {
        v.push(c);
    }
    v
}

/// The first index at or after `from` that holds `c`, or the length.
pub fn find_from(chars: &Vec<char>, from: usize, c: char) -> (i: usize)
    requires
        from <= chars.len(),
    ensures
        from <= i <= chars.len(),
        i - from == first_at(chars@.skip(from as int), c),
{
    let mut i: usize = from;
    while i < chars.len() && chars[i] != c
        invariant
            from <= i <= chars.len(),
            forall|j: int| from <= j < i ==> chars@[j] != c,
        decreases chars.len() - i,
    {
        i = i + 1;
    }
    proof {
        let tail = chars@.skip(from as int);
        assert forall|j: int| 0 <= j < i - from implies tail[j] != c by {
            assert(tail[j] == chars@[from + j]);
        }
        lemma_first_at_is(tail, c, i - from);
    }
    i
}

/// Whether the text holds the character.
pub fn has_char(chars: &Vec<char>, c: char) -> (b: bool)
    ensures
        b == chars@.contains(c),
{
    let i = find_from(chars, 0, c);
    proof {
        assert(chars@.skip(0) =~= chars@);
        lemma_first_at(chars@, c);
    }
    i < chars.len()
}

/// A copy of the characters from `from` up to `to`.
pub fn slice_of(s: &str, from: usize, to: usize) -> (r: String)
    requires
        from <= to <= s@.len(),
    ensures
        r@ == s@.subrange(from as int, to as int),
{
    s.substring_char(from, to).to_owned()
}

/// Splits the text at every `sep`.
pub fn split_text(s: &str, sep: char) -> (parts: Vec<String>)
    ensures
        parts.deep_view() == split(s@, sep),
{
    let chars = chars_of(s);
    let n = chars.len();
    let mut parts: Vec<String> = Vec::new();
    let mut start: usize = 0;
    proof {
        assert(s@.skip(0) =~= s@);
        assert(parts.deep_view() + split(s@, sep) =~= split(s@, sep));
    }
    loop
        invariant
            n == chars.len(),
            chars@ == s@,
            start <= n,
            split(s@, sep) == parts.deep_view() + split(s@.skip(start as int), sep),
        decreases n - start,
    {
        let end = find_from(&chars, start, sep);
        let piece = slice_of(s, start, end);
        let ghost before = parts.deep_view();
        let ghost tail = s@.skip(start as int);
        parts.push(piece);
        proof {
            assert(parts.deep_view() =~= before.push(tail.take(end - start))) by {
                assert(tail.take(end - start) =~= s@.subrange(start as int, end as int));
            }
        }
        if end == n {
            proof {
                assert(split(tail, sep) =~= seq![tail]);
                assert(tail.take(end - start) =~= tail);
            }
            return parts;
        }
        proof {
            assert(tail.skip(end - start + 1) =~= s@.skip(end + 1));
            assert(parts.deep_view() + split(s@.skip(end + 1), sep) =~= before + split(tail, sep));
        }
        start = end + 1;
    }
}

/// Writes the pieces one after another with `sep` between neighbours.
pub fn join_text(parts: &Vec<String>, sep: &str) -> (r: String)
    ensures
        r@ == join(parts.deep_view(), sep@),
{
    let mut r = String::new();
    let mut i: usize = 0;
    while i < parts.len()
        invariant
            i <= parts.len(),
            r@ == join(parts.deep_view().take(i as int), sep@),
        decreases parts.len() - i,
    {
        let ghost done = parts.deep_view().take(i as int);
        if i > 0 {
            r.append(sep);
        }
        r.append(parts[i].as_str());
        proof {
            let next = parts.deep_view().take(i + 1);
            assert(next =~= done.push(parts[i as int]@));
            if i > 0 {
                lemma_join_push(done, parts[i as int]@, sep@);
            } else {
                assert(r@ =~= parts[i as int]@);
            }
        }
        i = i + 1;
    }
    proof {
        assert(parts.deep_view().take(i as int) =~= parts.deep_view());
    }
    r
}

/// The index of the last `c` in `s`, or `-1` when `s` holds none.
pub open spec fn last_at(s: Seq<char>, c: char) -> int
    decreases s.len(),
{
    if s.len() == 0 {
        -1
    } else if s.last() == c {
        s.len() - 1
    } else {
        last_at(s.drop_last(), c)
    }
}

/// `last_at` is the greatest index that holds `c`, and `-1` if there is none.
pub proof fn lemma_last_at(s: Seq<char>, c: char)
    ensures
        -1 <= last_at(s, c) < s.len(),
        forall|j: int| last_at(s, c) < j < s.len() ==> s[j] != c,
        last_at(s, c) >= 0 ==> s[last_at(s, c)] == c,
        last_at(s, c) >= 0 <==> s.contains(c),
    decreases s.len(),
{
    if s.len() == 0 {
    } else if s.last() == c {
    } else {
        let front = s.drop_last();
        lemma_last_at(front, c);
        assert forall|j: int| last_at(s, c) < j < s.len() implies s[j] != c by {
            if j < s.len() - 1 {
                assert(s[j] == front[j]);
            }
        }
        if last_at(s, c) >= 0 {
            assert(s[last_at(s, c)] == front[last_at(front, c)]);
        }
        if s.contains(c) {
            let k = choose|k: int| 0 <= k < s.len() && s[k] == c;
            assert(front[k] == c);
        }
    }
}

/// Whether `c` is one of the digits `0` to `9`.
pub open spec fn is_digit(c: char) -> bool {
    '0' <= c <= '9'
}

/// The number that a digit stands for.
pub open spec fn digit_value(c: char) -> nat {
    (c as u32 - '0' as u32) as nat
}

/// The number that a text of decimal digits stands for; `None` for an empty
/// text and for one that holds anything but digits.
pub open spec fn decimal(digits: Seq<char>) -> Option<nat>
    decreases digits.len(),
{
    if digits.len() == 0 || !is_digit(digits.last()) {
        None
    } else if digits.len() == 1 {
        Some(digit_value(digits.last()))
    } else {
        match decimal(digits.drop_last()) {
            Some(n) => Some(n * 10 + digit_value(digits.last())),
            None => None,
        }
    }
}

/// A text of digits stands for at least as much as each of its beginnings,
/// all of which are texts of digits.
pub proof fn lemma_decimal_prefix(digits: Seq<char>, k: int)
    requires
        1 <= k <= digits.len(),
        decimal(digits) is Some,
    ensures
        decimal(digits.take(k)) is Some,
        decimal(digits.take(k))->0 <= decimal(digits)->0,
    decreases digits.len(),
{
    if k == digits.len() {
        assert(digits.take(k) =~= digits);
    } else {
        let front = digits.drop_last();
        assert(front.take(k) =~= digits.take(k));
        lemma_decimal_prefix(front, k);
    }
}

/// The index of the last `c`, if there is one.
pub fn find_last(chars: &Vec<char>, c: char) -> (r: Option<usize>)
    ensures
        match r {
            Some(i) => i == last_at(chars@, c),
            None => last_at(chars@, c) == -1,
        },
{
    let mut i: usize = chars.len();
    proof {
        assert(chars@.take(i as int) =~= chars@);
    }
    while i > 0 && chars[i - 1] != c
        invariant
            i <= chars.len(),
            last_at(chars@, c) == last_at(chars@.take(i as int), c),
        decreases i,
    {
        proof {
            assert(chars@.take(i as int).drop_last() =~= chars@.take(i - 1));
        }
        i = i - 1;
    }
    if i == 0 {
        None
    } else {
        Some(i - 1)
    }
}

/// Reads a text of decimal digits as a number that fits in 32 bits.
pub fn parse_u32(chars: &Vec<char>, from: usize, to: usize) -> (r: Option<u32>)
    requires
        from <= to <= chars.len(),
    ensures
        match decimal(chars@.subrange(from as int, to as int)) {
            Some(n) => if n <= u32::MAX {
                r == Some(n as u32)
            } else {
                r is None
            },
            None => r is None,
        },
{
    let ghost digits = chars@.subrange(from as int, to as int);
    if from == to {
        return None;
    }
    let mut acc: u64 = 0;
    let mut i: usize = from;
    while i < to
        invariant
            from <= i <= to <= chars.len(),
            digits == chars@.subrange(from as int, to as int),
            acc <= u32::MAX,
            i > from ==> decimal(digits.take(i - from)) == Some(acc as nat),
            i == from ==> acc == 0,
        decreases to - i,
    {
        let c = chars[i];
        let ghost upto = digits.take(i - from + 1);
        proof {
            assert(upto.last() == c);
            assert(upto.drop_last() =~= digits.take(i - from));
        }
        if !('0' <= c && c <= '9') {
            proof {
                if decimal(digits) is Some {
                    lemma_decimal_prefix(digits, i - from + 1);
                }
            }
            return None;
        }
        let d: u64 = (c as u32 - '0' as u32) as u64;
        let next: u64 = acc * 10 + d;
        proof {
            assert(decimal(upto) == Some(next as nat));
        }
        if next > u32::MAX as u64 {
            proof {
                if decimal(digits) is Some {
                    lemma_decimal_prefix(digits, i - from + 1);
                }
            }
            return None;
        }
        acc = next;
        i = i + 1;
    }
    proof {
        assert(digits.take(to - from) =~= digits);
    }
    Some(acc as u32)
}

/// Whether the characters from `at` on begin with the characters of `word`.
pub fn holds_at(chars: &Vec<char>, at: usize, word: &Vec<char>) -> (b: bool)
    requires
        at + word.len() <= chars.len(),
    ensures
        b == (chars@.subrange(at as int, at + word.len()) == word@),
{
    let mut i: usize = 0;
    while i < word.len()
        invariant
            i <= word.len(),
            at + word.len() <= chars.len(),
            forall|j: int| 0 <= j < i ==> chars@[at + j] == word@[j],
        decreases word.len() - i,
    {
        if chars[at + i] != word[i] {
            proof {
                assert(chars@.subrange(at as int, at + word.len())[i as int] != word@[i as int]);
            }
            return false;
        }
        i = i + 1;
    }
    proof {
        assert(chars@.subrange(at as int, at + word.len()) =~= word@);
    }
    true
}

/// Whether the text begins with the word.
pub fn has_prefix(text: &str, word: &str) -> (b: bool)
    ensures
        b == word@.is_prefix_of(text@),
{
    let chars = chars_of(text);
    let wanted = chars_of(word);
    if wanted.len() > chars.len() {
        return false;
    }
    holds_at(&chars, 0, &wanted)
}

/// Whether the text ends with the word.
pub fn has_suffix(text: &str, word: &str) -> (b: bool)
    ensures
        b == word@.is_suffix_of(text@),
{
    let chars = chars_of(text);
    let wanted = chars_of(word);
    if wanted.len() > chars.len() {
        return false;
    }
    holds_at(&chars, chars.len() - wanted.len(), &wanted)
}

} // verus!
