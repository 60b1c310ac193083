//! What the text helpers give, said of their results.

use vstd::prelude::*;

verus! {

/// The texts of `list` one after the other, with `sep` between them.
pub open spec fn joined(list: Seq<Seq<char>>, sep: char) -> Seq<char>
    decreases list.len(),
{
    if list.len() == 0 {
        Seq::empty()
    } else if list.len() == 1 {
        list[0]
    } else {
        joined(list.drop_last(), sep).push(sep) + list.last()
    }
}

/// Cutting a text loses nothing: the pieces hold no separator, and joined by it they are the text
/// again.
pub proof fn pieces_join_back(s: Seq<char>, sep: char)
    ensures
        crate::text::pieces(s, sep).len() > 0,
        joined(crate::text::pieces(s, sep), sep) == s,
        forall|i: int, j: int|
            0 <= i < crate::text::pieces(s, sep).len() && 0 <= j < crate::text::pieces(
                s,
                sep,
            )[i].len() ==> #[trigger] crate::text::pieces(s, sep)[i][j] != sep,
    decreases s.len(),
{
    let list = crate::text::pieces(s, sep);
    if s.len() > 0 {
        let before = crate::text::pieces(s.drop_last(), sep);
        pieces_join_back(s.drop_last(), sep);
        assert(s =~= s.drop_last().push(s.last()));
        assert forall|i: int, j: int| 0 <= i < list.len() && 0 <= j < list[i].len() implies
            #[trigger] list[i][j] != sep by {
            if i < before.len() && j < before[i].len() {
                assert(list[i][j] == before[i][j]);
            }
        }
        if s.last() == sep {
            assert(list.drop_last() =~= before);
            assert(joined(list, sep) =~= s);
        } else {
            assert(list.drop_last() =~= before.drop_last());
            assert(list.last() =~= before.last().push(s.last()));
            assert(joined(list, sep) =~= s);
        }
    } else {
        assert(joined(list, sep) =~= s);
    }
}

/// No other list does: a list of texts without separator, joined by it, is cut into just these.
pub proof fn joined_is_cut_again(list: Seq<Seq<char>>, sep: char)
    requires
        list.len() > 0,
        forall|i: int, j: int|
            0 <= i < list.len() && 0 <= j < list[i].len() ==> #[trigger] list[i][j] != sep,
    ensures
        crate::text::pieces(joined(list, sep), sep) == list,
    decreases list.len(),
{
    let last = list.last();
    assert forall|j: int| 0 <= j < last.len() implies #[trigger] last[j] != sep by {
        assert(list[list.len() - 1][j] != sep);
    }
    crate::text::pieces_of_one(last, sep);
    if list.len() == 1 {
        assert(list =~= seq![last]);
    } else {
        let front = list.drop_last();
        assert forall|i: int, j: int| 0 <= i < front.len() && 0 <= j < front[i].len() implies
            #[trigger] front[i][j] != sep by {
            assert(list[i][j] != sep);
        }
        joined_is_cut_again(front, sep);
        crate::text::pieces_around(joined(front, sep), sep, last);
        assert(front + seq![last] =~= list);
    }
}

/// The white-space characters, by their code points: the six of ASCII, and nineteen others.
pub proof fn white_space_by_code_point(c: char)
    ensures
        c as u32 <= 0x7f ==> (crate::text::white_space(c) <==> c == '\t' || c == '\n' || c
            == '\u{b}' || c == '\u{c}' || c == '\r' || c == ' '),
        c as u32 > 0x7f ==> (crate::text::white_space(c) <==> {
            ||| c as u32 == 0x85 || c as u32 == 0xa0 || c as u32 == 0x1680
            ||| 0x2000 <= c as u32 <= 0x200a
            ||| c as u32 == 0x2028 || c as u32 == 0x2029 || c as u32 == 0x202f
            ||| c as u32 == 0x205f || c as u32 == 0x3000
        }),
{
}

/// Whether `s[from..to]` is all of `s` but the white space at its two ends.
pub open spec fn core_of(s: Seq<char>, from: int, to: int) -> bool {
    &&& 0 <= from <= to <= s.len()
    &&& forall|i: int| 0 <= i < from ==> crate::text::white_space(#[trigger] s[i])
    &&& forall|i: int| to <= i < s.len() ==> crate::text::white_space(#[trigger] s[i])
    &&& from < to ==> !crate::text::white_space(s[from]) && !crate::text::white_space(s[to - 1])
}

proof fn trimmed_core(s: Seq<char>) -> (r: (int, int))
    ensures
        core_of(s, r.0, r.1),
        crate::text::trimmed(s) == s.subrange(r.0, r.1),
    decreases s.len(),
{
    if s.len() > 0 && crate::text::white_space(s[0]) {
        let rest = s.skip(1);
        let (from, to) = trimmed_core(rest);
        assert forall|i: int| 0 <= i < from + 1 implies crate::text::white_space(
            #[trigger] s[i],
        ) by {
            if i > 0 {
                assert(rest[i - 1] == s[i]);
            }
        }
        assert forall|i: int| to + 1 <= i < s.len() implies crate::text::white_space(
            #[trigger] s[i],
        ) by {
            assert(rest[i - 1] == s[i]);
        }
        assert(rest.subrange(from, to) =~= s.subrange(from + 1, to + 1));
        (from + 1, to + 1)
    } else if s.len() > 0 && crate::text::white_space(s.last()) {
        let rest = s.drop_last();
        let (from, to) = trimmed_core(rest);
        assert forall|i: int| 0 <= i < from implies crate::text::white_space(#[trigger] s[i]) by {
            assert(rest[i] == s[i]);
        }
        assert forall|i: int| to <= i < s.len() implies crate::text::white_space(
            #[trigger] s[i],
        ) by {
            if i < rest.len() {
                assert(rest[i] == s[i]);
            }
        }
        assert(rest.subrange(from, to) =~= s.subrange(from, to));
        (from, to)
    } else {
        assert(s.subrange(0, s.len() as int) =~= s);
        (0, s.len() as int)
    }
}

/// Trimming takes away white space alone, from the two ends alone, and all of it: what is left
/// neither begins nor ends with white space.
pub proof fn trimming_takes_the_ends(s: Seq<char>, from: int, to: int)
    requires
        core_of(s, from, to),
    ensures
        crate::text::trimmed(s) == s.subrange(from, to),
{
    let (a, b) = trimmed_core(s);
    if a < b {
        assert(from < to) by {
            if from == to {
                assert(crate::text::white_space(s[a]));
            }
        }
        assert(from == a) by {
            if from < a {
                assert(crate::text::white_space(s[from]));
            } else if a < from {
                assert(crate::text::white_space(s[a]));
            }
        }
        assert(to == b) by {
            if to < b {
                assert(crate::text::white_space(s[b - 1]));
            } else if b < to {
                assert(crate::text::white_space(s[to - 1]));
            }
        }
    } else {
        assert(from == to) by {
            if from < to {
                assert(from < a || b <= from);
                assert(crate::text::white_space(s[from]));
            }
        }
        assert(s.subrange(a, b) =~= s.subrange(from, to));
    }
}

/// Every text can be trimmed.
pub proof fn every_text_has_a_core(s: Seq<char>)
    ensures
        exists|from: int, to: int| core_of(s, from, to),
{
    let (from, to) = trimmed_core(s);
    assert(core_of(s, from, to));
}

/// The first occurrence of a text is replaced, what stands before it is kept, and the rest is
/// treated in the same way. With [`crate::pages::nothing_replaced`] this says what becomes of
/// every text.
pub proof fn first_occurrence_is_replaced(
    before: Seq<char>,
    from: Seq<char>,
    after: Seq<char>,
    to: Seq<char>,
)
    requires
        from.len() > 0,
        forall|i: int|
            i < before.len() ==> !#[trigger] crate::pages::occurs_at(before + from + after, from, i),
    ensures
        crate::text::replaced(before + from + after, from, to) == before + to
            + crate::text::replaced(after, from, to),
    decreases before.len(),
{
    let whole = before + from + after;
    assert(whole.skip(0) =~= whole);
    if before.len() == 0 {
        assert(from.is_prefix_of(whole));
        assert(whole.skip(from.len() as int) =~= after);
        assert(before + to =~= to);
    } else {
        let rest = before.skip(1);
        assert(whole.skip(1) =~= rest + from + after);
        assert forall|i: int| i < rest.len() implies !#[trigger] crate::pages::occurs_at(
            rest + from + after,
            from,
            i,
        ) by {
            if crate::pages::occurs_at(rest + from + after, from, i) {
                assert(whole.skip(i + 1) =~= (rest + from + after).skip(i));
                assert(crate::pages::occurs_at(whole, from, i + 1));
            }
        }
        first_occurrence_is_replaced(rest, from, after, to);
        assert(!crate::pages::occurs_at(whole, from, 0));
        assert(seq![before[0]] + (rest + to + crate::text::replaced(after, from, to)) =~= before
            + to + crate::text::replaced(after, from, to));
    }
}

/// Whether a reader of decimal numbers finds `n` in `digits`, written without leading zeros.
pub open spec fn reads_as(digits: Seq<char>, n: nat) -> bool {
    &&& digits.len() > 0
    &&& forall|i: int| 0 <= i < digits.len() ==> '0' <= #[trigger] digits[i] <= '9'
    &&& digits[0] == '0' ==> digits.len() == 1
    &&& crate::credentials::decimal_value(digits) == n
}

/// How digits are read: none are zero, and one more digit makes ten times as much, plus its value.
pub proof fn digits_are_read(digits: Seq<char>, c: char)
    requires
        '0' <= c <= '9',
    ensures
        crate::credentials::decimal_value(Seq::empty()) == 0,
        crate::credentials::decimal_value(digits.push(c)) == 10
            * crate::credentials::decimal_value(digits) + (c as nat - 0x30),
{
    assert(digits.push(c).drop_last() =~= digits);
}

proof fn digit_facts(d: nat)
    requires
        d < 10,
    ensures
        '0' <= crate::text::digit(d) <= '9',
        crate::text::digit(d) as nat == 0x30 + d,
{
}

/// A number that is written in decimal is read back as that number.
pub proof fn decimal_reads_back(n: nat)
    ensures
        reads_as(crate::text::decimal(n), n),
        n > 0 ==> crate::text::decimal(n)[0] != '0',
    decreases n,
{
    let text = crate::text::decimal(n);
    digit_facts(n % 10);
    if n < 10 {
        assert(text =~= Seq::<char>::empty().push(crate::text::digit(n)));
        digits_are_read(Seq::empty(), crate::text::digit(n));
    } else {
        decimal_reads_back(n / 10);
        digits_are_read(crate::text::decimal(n / 10), crate::text::digit(n % 10));
    }
}

/// Bytes in hexadecimal: two digits for each byte, at twice its index, the high half first and
/// every digit in lower case.
pub proof fn hex_by_index(bytes: Seq<u8>, i: int)
    requires
        0 <= i < bytes.len(),
    ensures
        crate::text::hex(bytes).len() == 2 * bytes.len(),
        crate::text::hex(bytes)[2 * i] as int == (if bytes[i] as int / 16 < 10 {
            0x30 + bytes[i] as int / 16
        } else {
            0x61 + bytes[i] as int / 16 - 10
        }),
        crate::text::hex(bytes)[2 * i + 1] as int == (if bytes[i] as int % 16 < 10 {
            0x30 + bytes[i] as int % 16
        } else {
            0x61 + bytes[i] as int % 16 - 10
        }),
    decreases bytes.len(),
{
    crate::credentials::hex_digits(bytes);
    crate::credentials::hex_digits(bytes.drop_last());
    hex_digit_code(bytes.last() as nat / 16);
    hex_digit_code(bytes.last() as nat % 16);
    if i < bytes.len() - 1 {
        hex_by_index(bytes.drop_last(), i);
    }
}

proof fn hex_digit_code(d: nat)
    requires
        d < 16,
    ensures
        crate::text::hex_digit(d) as int == (if d < 10 {
            0x30 + d as int
        } else {
            0x61 + d as int - 10
        }),
{
}

/// A map to strings and the map to their characters have the same keys, and under each key the
/// same text.
pub proof fn text_map_keeps_entries(m: Map<Seq<char>, String>, key: Seq<char>)
    ensures
        crate::text::text_map(m).contains_key(key) <==> m.contains_key(key),
        m.contains_key(key) ==> crate::text::text_map(m)[key] == m[key]@,
{
}

} // verus!
