//! Text of console commands: splitting a line into words at each space, and
//! reading 32-bit integers from decimal text.

use vstd::prelude::*;

verus! {

/// The pieces of `s` between its spaces, in order: one more piece than `s`
/// has spaces, empty pieces included.
pub open spec fn split_spaces(s: Seq<char>) -> Seq<Seq<char>>
    decreases s.len(),
{
    if s.len() == 0 {
        seq![Seq::<char>::empty()]
    } else {
        let pieces = split_spaces(s.drop_last());
        if s.last() == ' ' {
            pieces.push(Seq::<char>::empty())
        } else {
            pieces.update(pieces.len() - 1, pieces.last().push(s.last()))
        }
    }
}

/// The words joined again, one space between two neighbours.
pub open spec fn join_spaces(words: Seq<Seq<char>>) -> Seq<char>
    decreases words.len(),
{
    if words.len() == 0 {
        Seq::<char>::empty()
    } else if words.len() == 1 {
        words[0]
    } else {
        join_spaces(words.drop_last()) + seq![' '] + words.last()
    }
}

/// The views of a list of words.
pub open spec fn views(words: Seq<&str>) -> Seq<Seq<char>> {
    words.map_values(|w: &str| w@)
}

pub proof fn lemma_split_len(s: Seq<char>)
    ensures
        split_spaces(s).len() >= 1,
    decreases s.len(),
{
    if s.len() > 0 {
        lemma_split_len(s.drop_last());
    }
}

/// Splits `line` at each space, as `str::split(' ')` does.
pub fn split_words<'a>(line: &'a str) -> (words: Vec<&'a str>)
    ensures
        views(words@) == split_spaces(line@),
{
    let n = line.unicode_len();
    let mut words: Vec<&'a str> = Vec::new();
    let mut start: usize = 0;
    let mut i: usize = 0;
    proof {
        assert(line@.subrange(0, 0) =~= Seq::<char>::empty());
        assert(views(words@).push(line@.subrange(0, 0)) =~= split_spaces(line@.subrange(0, 0)));
    }
    while i < n
        invariant
            n == line@.len(),
            start <= i <= n,
            views(words@).push(line@.subrange(start as int, i as int)) == split_spaces(
                line@.subrange(0, i as int),
            ),
        decreases n - i,
    {
        let c = line.get_char(i);
        let ghost before = views(words@);
        let ghost prefix = line@.subrange(0, i as int + 1);
        assert(prefix.drop_last() =~= line@.subrange(0, i as int));
        assert(prefix.last() == c);
        if c == ' ' {
            let w = line.substring_char(start, i);
            words.push(w);
            start = i + 1;
            assert(views(words@) =~= before.push(w@));
            assert(line@.subrange(start as int, i as int + 1) =~= Seq::<char>::empty());
        } else {
            assert(line@.subrange(start as int, i as int + 1) =~= line@.subrange(
                start as int,
                i as int,
            ).push(c));
            assert(before.push(line@.subrange(start as int, i as int + 1)) =~= before.push(
                line@.subrange(start as int, i as int),
            ).update(before.len() as int, line@.subrange(start as int, i as int).push(c)));
        }
        i = i + 1;
    }
    let w = line.substring_char(start, n);
    let ghost before = views(words@);
    words.push(w);
    proof {
        assert(views(words@) =~= before.push(w@));
        assert(line@.subrange(0, n as int) =~= line@);
    }
    words
}

/// Joining the words of a split gives the line back, and no word holds a
/// space: the words are the pieces between the spaces of the line.
pub proof fn lemma_split_join(s: Seq<char>)
    ensures
        join_spaces(split_spaces(s)) == s,
        forall|k: int, j: int|
            0 <= k < split_spaces(s).len() && 0 <= j < split_spaces(s)[k].len()
                ==> #[trigger] split_spaces(s)[k][j] != ' ',
    decreases s.len(),
{
    if s.len() > 0 {
        let rest = s.drop_last();
        lemma_split_join(rest);
        lemma_split_len(rest);
        let pieces = split_spaces(rest);
        if s.last() == ' ' {
            let now = pieces.push(Seq::<char>::empty());
            assert(now.drop_last() =~= pieces);
            assert(join_spaces(now) =~= s);
            assert forall|k: int, j: int|
                0 <= k < now.len() && 0 <= j < now[k].len() implies #[trigger] now[k][j] != ' ' by {
                assert(now[k] == pieces[k]);
            }
        } else {
            let last = pieces.last().push(s.last());
            let now = pieces.update(pieces.len() - 1, last);
            if pieces.len() == 1 {
                assert(join_spaces(now) == last);
                assert(last =~= s);
            } else {
                assert(now.drop_last() =~= pieces.drop_last());
                assert(join_spaces(now) =~= join_spaces(pieces).push(s.last()));
                assert(join_spaces(now) =~= s);
            }
            assert forall|k: int, j: int|
                0 <= k < now.len() && 0 <= j < now[k].len() implies #[trigger] now[k][j] != ' ' by {
                if k < pieces.len() - 1 {
                    assert(now[k] == pieces[k]);
                } else if j < pieces.last().len() {
                    assert(now[k][j] == pieces[k][j]);
                }
            }
        }
    }
}

/// No character of `w` is a space.
pub open spec fn space_free(w: Seq<char>) -> bool {
    forall|j: int| 0 <= j < w.len() ==> #[trigger] w[j] != ' '
}

/// Appending space-free text to a line extends its last word.
proof fn lemma_split_extend(x: Seq<char>, b: Seq<char>)
    requires
        space_free(b),
    ensures
        split_spaces(x + b) == split_spaces(x).update(
            split_spaces(x).len() - 1,
            split_spaces(x).last() + b,
        ),
    decreases b.len(),
{
    lemma_split_len(x);
    if b.len() == 0 {
        assert(x + b =~= x);
        assert(split_spaces(x).last() + b =~= split_spaces(x).last());
        assert(split_spaces(x).update(split_spaces(x).len() - 1, split_spaces(x).last())
            =~= split_spaces(x));
    } else {
        let b0 = b.drop_last();
        assert(space_free(b0)) by {
            assert forall|j: int| 0 <= j < b0.len() implies #[trigger] b0[j] != ' ' by {
                assert(b0[j] == b[j]);
            }
        }
        lemma_split_extend(x, b0);
        assert((x + b).drop_last() =~= x + b0);
        assert((x + b).last() == b.last());
        assert(b.last() != ' ');
        let p = split_spaces(x + b0);
        lemma_split_len(x + b0);
        assert(p.last() =~= split_spaces(x).last() + b0);
        assert((split_spaces(x).last() + b0).push(b.last()) =~= split_spaces(x).last() + b);
        assert(split_spaces(x + b) == p.update(p.len() - 1, p.last().push(b.last())));
        assert(p.len() == split_spaces(x).len());
        assert(split_spaces(x + b) =~= split_spaces(x).update(
            split_spaces(x).len() - 1,
            split_spaces(x).last() + b,
        ));
    }
}

/// Splitting space-free words joined by single spaces gives the words back:
/// with `lemma_split_join`, the words of a line are exactly its pieces between
/// spaces.
pub proof fn lemma_join_split(words: Seq<Seq<char>>)
    requires
        words.len() >= 1,
        forall|k: int| 0 <= k < words.len() ==> space_free(#[trigger] words[k]),
    ensures
        split_spaces(join_spaces(words)) == words,
    decreases words.len(),
{
    if words.len() == 1 {
        lemma_split_extend(Seq::<char>::empty(), words[0]);
        assert(Seq::<char>::empty() + words[0] =~= words[0]);
        assert(split_spaces(Seq::<char>::empty()) =~= seq![Seq::<char>::empty()]);
        assert(Seq::<char>::empty() + words[0] =~= words[0]);
        assert(split_spaces(words[0]) =~= words);
    } else {
        let front = words.drop_last();
        assert forall|k: int| 0 <= k < front.len() implies space_free(#[trigger] front[k]) by {
            assert(front[k] == words[k]);
        }
        lemma_join_split(front);
        let a = join_spaces(front) + seq![' '];
        assert(a.drop_last() =~= join_spaces(front));
        assert(a.last() == ' ');
        assert(split_spaces(a) == front.push(Seq::<char>::empty()));
        assert(space_free(words[words.len() - 1]));
        lemma_split_extend(a, words.last());
        assert(Seq::<char>::empty() + words.last() =~= words.last());
        assert(split_spaces(a + words.last()) =~= words);
    }
}

/// An ASCII decimal digit.
pub open spec fn is_digit(c: char) -> bool {
    '0' <= c <= '9'
}

/// All characters are ASCII decimal digits.
pub open spec fn all_digits(s: Seq<char>) -> bool {
    forall|i: int| 0 <= i < s.len() ==> is_digit(#[trigger] s[i])
}

/// The number that a string of decimal digits writes.
pub open spec fn digits_value(s: Seq<char>) -> int
    decreases s.len(),
{
    if s.len() == 0 {
        0
    } else {
        digits_value(s.drop_last()) * 10 + (s.last() as int - '0' as int)
    }
}

/// The integer that `str::parse::<i32>` reads from `s`: an optional sign
/// (`+` or `-`), then one or more decimal digits and nothing else, with a
/// value in the range of `i32`; `None` for any other text.
pub open spec fn spec_parse_i32(s: Seq<char>) -> Option<int> {
    let signed = s.len() > 0 && (s[0] == '+' || s[0] == '-');
    let digits = if signed {
        s.subrange(1, s.len() as int)
    } else {
        s
    };
    let value = if signed && s[0] == '-' {
        -digits_value(digits)
    } else {
        digits_value(digits)
    };
    if digits.len() == 0 || !all_digits(digits) || value < i32::MIN || value > i32::MAX {
        None
    } else {
        Some(value)
    }
}

proof fn lemma_digits_value_nonneg(s: Seq<char>)
    requires
        all_digits(s),
    ensures
        digits_value(s) >= 0,
    decreases s.len(),
{
    if s.len() > 0 {
        assert(all_digits(s.drop_last())) by {
            assert forall|i: int| 0 <= i < s.drop_last().len() implies is_digit(
                #[trigger] s.drop_last()[i],
            ) by {
                assert(s.drop_last()[i] == s[i]);
            }
        }
        lemma_digits_value_nonneg(s.drop_last());
        assert(is_digit(s[s.len() - 1]));
    }
}

/// The value of one decimal digit.
pub open spec fn digit_of(c: char) -> int {
    c as int - '0' as int
}

proof fn lemma_all_digits_push(s: Seq<char>, d: char)
    requires
        all_digits(s),
        is_digit(d),
    ensures
        all_digits(s.push(d)),
{
    assert forall|i: int| 0 <= i < s.push(d).len() implies is_digit(#[trigger] s.push(d)[i]) by {
        if i < s.len() {
            assert(s.push(d)[i] == s[i]);
        }
    }
}

/// A single digit reads as its value.
pub proof fn lemma_parse_i32_digit(d: char)
    requires
        is_digit(d),
    ensures
        spec_parse_i32(seq![d]) == Some(digit_of(d)),
{
    assert(seq![d].drop_last() =~= Seq::<char>::empty());
    assert(seq![d][0] == d && seq![d].last() == d);
    assert(d != '+' && d != '-');
    assert(digits_value(Seq::<char>::empty()) == 0);
    assert(digits_value(seq![d]) == digit_of(d));
    assert(all_digits(seq![d]));
}

/// Appending a digit to unsigned decimal text multiplies its value by ten and
/// adds the digit, as long as the result is an `i32`.
pub proof fn lemma_parse_i32_append_digit(s: Seq<char>, d: char)
    requires
        s.len() >= 1,
        all_digits(s),
        is_digit(d),
    ensures
        spec_parse_i32(s) matches Some(v) ==> (v * 10 + digit_of(d) <= i32::MAX ==> spec_parse_i32(
            s.push(d),
        ) == Some(v * 10 + digit_of(d))),
        spec_parse_i32(s) is None ==> spec_parse_i32(s.push(d)) is None,
{
    lemma_all_digits_push(s, d);
    lemma_digits_value_nonneg(s);
    assert(s.push(d).drop_last() =~= s);
    assert(is_digit(s[0]));
    assert(s.push(d)[0] == s[0]);
}

/// A sign in front of unsigned decimal text: `+` reads the same, `-` reads
/// the negation.
pub proof fn lemma_parse_i32_sign(s: Seq<char>)
    requires
        s.len() >= 1,
        all_digits(s),
    ensures
        spec_parse_i32(seq!['+'] + s) == spec_parse_i32(s),
        spec_parse_i32(s) matches Some(v) ==> spec_parse_i32(seq!['-'] + s) == Some(-v),
{
    lemma_digits_value_nonneg(s);
    assert((seq!['+'] + s).subrange(1, s.len() as int + 1) =~= s);
    assert((seq!['-'] + s).subrange(1, s.len() as int + 1) =~= s);
    assert(is_digit(s[0]));
}

/// Text that reads as an integer is one or more ASCII digits, after at most
/// one leading sign: any other character, or no digit at all, is refused.
pub proof fn lemma_parse_i32_shape(s: Seq<char>)
    ensures
        spec_parse_i32(s) is Some ==> {
            &&& s.len() >= 1
            &&& forall|i: int| 1 <= i < s.len() ==> is_digit(#[trigger] s[i])
            &&& is_digit(s[0]) || (s.len() >= 2 && (s[0] == '+' || s[0] == '-'))
        },
{
    if spec_parse_i32(s) is Some {
        let signed = s.len() > 0 && (s[0] == '+' || s[0] == '-');
        if signed {
            let digits = s.subrange(1, s.len() as int);
            assert forall|i: int| 1 <= i < s.len() implies is_digit(#[trigger] s[i]) by {
                assert(s[i] == digits[i - 1]);
            }
        }
    }
}

/// A magnitude that no `i32` reaches; digits are counted up to it and no further.
const MAGNITUDE_CAP: i64 = 2_147_483_649;

/// Reads an `i32` from decimal text, as `str::parse::<i32>` does.
pub fn parse_i32(s: &str) -> (r: Option<i32>)
    ensures
        match r {
            Some(v) => spec_parse_i32(s@) == Some(v as int),
            None => spec_parse_i32(s@) is None,
        },
{
    let n = s.unicode_len();
    if n == 0 {
        return None;
    }
    let first = s.get_char(0);
    let signed = first == '+' || first == '-';
    let negative = first == '-';
    let start: usize = if signed { 1 } else { 0 };
    let ghost digits = if signed {
        s@.subrange(1, s@.len() as int)
    } else {
        s@
    };
    if start == n {
        return None;
    }
    // `magnitude` is the value of the digits read so far, capped at MAGNITUDE_CAP.
    let mut magnitude: i64 = 0;
    let mut i: usize = start;
    while i < n
        invariant
            n == s@.len(),
            n > 0,
            first == s@[0],
            signed == (first == '+' || first == '-'),
            negative == (first == '-'),
            start == (if signed { 1usize } else { 0usize }),
            digits == (if signed { s@.subrange(1, s@.len() as int) } else { s@ }),
            start <= i <= n,
            digits == s@.subrange(start as int, n as int),
            all_digits(s@.subrange(start as int, i as int)),
            0 <= magnitude <= MAGNITUDE_CAP,
            magnitude == MAGNITUDE_CAP ==> digits_value(s@.subrange(start as int, i as int))
                >= MAGNITUDE_CAP,
            magnitude < MAGNITUDE_CAP ==> digits_value(s@.subrange(start as int, i as int))
                == magnitude,
        decreases n - i,
    {
        let c = s.get_char(i);
        let ghost prefix = s@.subrange(start as int, i as int + 1);
        assert(prefix.drop_last() =~= s@.subrange(start as int, i as int));
        assert(prefix.last() == c);
        if !('0' <= c && c <= '9') {
            proof {
                assert(digits[i - start] == c);
            }
            return None;
        }
        let d = (c as u32 - '0' as u32) as i64;
        if magnitude < MAGNITUDE_CAP {
            let next = magnitude * 10 + d;
            magnitude = if next > MAGNITUDE_CAP {
                MAGNITUDE_CAP
            } else {
                next
            };
        }
        proof {
            assert forall|k: int| 0 <= k < prefix.len() implies is_digit(#[trigger] prefix[k]) by {
                if k < prefix.len() - 1 {
                    assert(prefix[k] == s@.subrange(start as int, i as int)[k]);
                }
            }
        }
        i = i + 1;
    }
    proof {
        assert(s@.subrange(start as int, n as int) == digits);
        lemma_digits_value_nonneg(digits);
    }
    if negative {
        if magnitude <= 2_147_483_648 {
            Some((0 - magnitude) as i32)
        } else {
            None
        }
    } else if magnitude <= 2_147_483_647 {
        Some(magnitude as i32)
    } else {
        None
    }
}

} // verus!
