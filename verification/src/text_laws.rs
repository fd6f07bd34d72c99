//! What words, white space, letter case, order and decimal numbers come down to.

use vstd::prelude::*;

use crate::number::{
    all_digits, bounded_value, decimal, digits_value, integer_text, is_digit, law_decimal_reads_back,
    unsigned_value,
};
use crate::order::text_le;
use crate::text::{
    collapsed, folded, is_white, join, lemma_words_are_plain, lemma_words_of_join, lower, lower_char,
    plain_word, trim, trim_end, trim_start, words,
};

verus! {

/// Whether `s` holds nothing but white space.
pub open spec fn all_white(s: Seq<char>) -> bool {
    forall|i: int| 0 <= i < s.len() ==> is_white(#[trigger] s[i])
}

/// White space anywhere parts the words before it from those behind it.
pub proof fn law_white_space_parts_words(a: Seq<char>, c: char, b: Seq<char>)
    requires
        is_white(c),
    ensures
        words(a.push(c) + b) == words(a) + words(b),
    decreases b.len(),
{
    let s = a.push(c) + b;
    if b.len() == 0 {
        assert(s == a.push(c));
        assert(s.drop_last() == a);
        assert(words(a) + words(b) == words(a));
    } else {
        let rest = b.drop_last();
        law_white_space_parts_words(a, c, rest);
        lemma_words_are_plain(rest);
        assert(s.drop_last() == a.push(c) + rest);
        assert(s.last() == b.last());
        let wa = words(a);
        let wr = words(rest);
        if !is_white(b.last()) {
            if b.len() == 1 {
                assert(s[s.len() - 2] == c);
                assert(wr.len() == 0);
                assert((wa + wr).push(seq![b.last()]) == wa + wr.push(seq![b.last()]));
            } else {
                assert(s[s.len() - 2] == b[b.len() - 2]);
                assert(rest.last() == b[b.len() - 2]);
                if is_white(b[b.len() - 2]) {
                    assert((wa + wr).push(seq![b.last()]) == wa + wr.push(seq![b.last()]));
                } else {
                    assert(wr.len() > 0);
                    let w = wr.last().push(b.last());
                    assert((wa + wr).last() == wr.last());
                    assert((wa + wr).drop_last().push(w) == wa + wr.drop_last().push(w));
                }
            }
        }
    }
}

/// Text without white space is one word.
pub proof fn law_plain_text_is_one_word(w: Seq<char>)
    requires
        plain_word(w),
    ensures
        words(w) == seq![w],
        collapsed(w) == w,
{
    let ws = seq![w];
    lemma_words_of_join(ws);
    assert(join(ws, seq![' ']) == w);
}

/// Only white space holds no word.
pub proof fn law_blank_text_has_no_words(s: Seq<char>)
    ensures
        words(s).len() == 0 <==> all_white(s),
    decreases s.len(),
{
    if s.len() > 0 {
        let t = s.drop_last();
        law_blank_text_has_no_words(t);
        lemma_words_are_plain(s);
        assert(forall|i: int| 0 <= i < t.len() ==> t[i] == s[i]);
        if all_white(s) {
            assert(is_white(s[s.len() - 1]));
            assert(all_white(t));
        }
        if words(s).len() == 0 {
            assert(is_white(s.last()));
            assert forall|i: int| 0 <= i < s.len() implies is_white(#[trigger] s[i]) by {
                if i < t.len() {
                    assert(is_white(t[i]));
                }
            }
        }
    }
}

/// Joining two lists is joining each, with the separator between.
pub proof fn law_join_of_two_lists(p: Seq<Seq<char>>, q: Seq<Seq<char>>, sep: Seq<char>)
    ensures
        join(p + q, sep) == if p.len() == 0 {
            join(q, sep)
        } else if q.len() == 0 {
            join(p, sep)
        } else {
            join(p, sep) + sep + join(q, sep)
        },
        q.len() == 1 ==> join(q, sep) == q[0],
        q.len() == 0 ==> join(q, sep).len() == 0,
    decreases q.len(),
{
    if p.len() == 0 {
        assert(p + q == q);
    } else if q.len() == 0 {
        assert(p + q == p);
    } else {
        let r = q.drop_last();
        law_join_of_two_lists(p, r, sep);
        assert((p + q).drop_last() == p + r);
        assert((p + q).last() == q.last());
        assert(join(p + q, sep) == join(p + r, sep) + sep + q.last());
        if q.len() == 1 {
            assert(r.len() == 0);
            assert(join(q, sep) == q[0]);
        } else {
            assert(join(p + q, sep) == join(p, sep) + sep + (join(r, sep) + sep + q.last()));
        }
    }
}

/// Around any white space, collapsed text is the collapsed text before it and behind it with one
/// space between, or the one of them that is not blank.
pub proof fn law_collapsed_around_white_space(a: Seq<char>, c: char, b: Seq<char>)
    requires
        is_white(c),
    ensures
        collapsed(a.push(c) + b) == if all_white(a) {
            collapsed(b)
        } else if all_white(b) {
            collapsed(a)
        } else {
            collapsed(a) + seq![' '] + collapsed(b)
        },
{
    law_white_space_parts_words(a, c, b);
    law_blank_text_has_no_words(a);
    law_blank_text_has_no_words(b);
    law_join_of_two_lists(words(a), words(b), seq![' ']);
}

proof fn lemma_trim_start_cuts(s: Seq<char>)
    ensures
        trim_start(s).len() <= s.len(),
        trim_start(s) == s.skip(s.len() - trim_start(s).len()),
        all_white(s.take(s.len() - trim_start(s).len())),
    decreases s.len(),
{
    if s.len() > 0 && is_white(s[0]) {
        let t = s.drop_first();
        lemma_trim_start_cuts(t);
        let k = t.len() - trim_start(t).len();
        assert(s.skip(k + 1) == t.skip(k));
        assert forall|i: int| 0 <= i < k + 1 implies is_white(#[trigger] s.take(k + 1)[i]) by {
            if i > 0 {
                assert(is_white(t.take(k)[i - 1]));
            }
        }
    } else {
        assert(s.skip(0) == s);
    }
}

proof fn lemma_trim_end_cuts(s: Seq<char>)
    ensures
        trim_end(s).len() <= s.len(),
        trim_end(s) == s.take(trim_end(s).len() as int),
        all_white(s.skip(trim_end(s).len() as int)),
    decreases s.len(),
{
    if s.len() > 0 && is_white(s.last()) {
        let t = s.drop_last();
        lemma_trim_end_cuts(t);
        let k = trim_end(t).len() as int;
        assert(s.take(k) == t.take(k));
        assert forall|i: int| 0 <= i < s.len() - k implies is_white(#[trigger] s.skip(k)[i]) by {
            if i < t.len() - k {
                assert(is_white(t.skip(k)[i]));
            }
        }
    } else {
        assert(s.take(s.len() as int) == s);
    }
}

/// Trimming cuts white space from both ends and nothing else, until neither end is white space.
pub proof fn law_trim_cuts_white_ends(s: Seq<char>)
    ensures
        exists|a: Seq<char>, b: Seq<char>|
            #![trigger all_white(a), all_white(b)]
            all_white(a) && all_white(b) && s == a + trim(s) + b,
        trim(s).len() > 0 ==> !is_white(trim(s)[0]) && !is_white(trim(s).last()),
{
    let t = trim_start(s);
    let u = trim(s);
    lemma_trim_start_cuts(s);
    lemma_trim_end_cuts(t);
    crate::text::lemma_trim_ends(s);
    let a = s.take(s.len() - t.len());
    let b = t.skip(u.len() as int);
    assert(all_white(a) && all_white(b));
    assert(t == u + b);
    assert(s == a + u + b);
}

proof fn lemma_trim_start_of(a: Seq<char>, t: Seq<char>)
    requires
        all_white(a),
        t.len() > 0 ==> !is_white(t[0]),
    ensures
        trim_start(a + t) == t,
    decreases a.len(),
{
    let s = a + t;
    if a.len() > 0 {
        assert(is_white(a[0]));
        assert(s[0] == a[0]);
        assert(s.drop_first() == a.drop_first() + t);
        assert(all_white(a.drop_first())) by {
            assert forall|i: int| 0 <= i < a.drop_first().len() implies is_white(
                #[trigger] a.drop_first()[i],
            ) by {
                assert(is_white(a[i + 1]));
            }
        }
        lemma_trim_start_of(a.drop_first(), t);
    } else {
        assert(s == t);
    }
}

proof fn lemma_trim_end_of(t: Seq<char>, b: Seq<char>)
    requires
        all_white(b),
        t.len() > 0 ==> !is_white(t.last()),
    ensures
        trim_end(t + b) == t,
    decreases b.len(),
{
    let s = t + b;
    if b.len() > 0 {
        assert(is_white(b[b.len() - 1]));
        assert(s.last() == b.last());
        assert(s.drop_last() == t + b.drop_last());
        assert(all_white(b.drop_last())) by {
            assert forall|i: int| 0 <= i < b.drop_last().len() implies is_white(
                #[trigger] b.drop_last()[i],
            ) by {
                assert(is_white(b[i]));
            }
        }
        lemma_trim_end_of(t, b.drop_last());
    } else {
        assert(s == t);
    }
}

/// Of text with white space around it, folding leaves the text, character by character, with ASCII
/// capitals made small.
pub proof fn law_folding_drops_margins_and_case(a: Seq<char>, s: Seq<char>, b: Seq<char>)
    requires
        all_white(a),
        all_white(b),
        s.len() > 0 ==> !is_white(s[0]) && !is_white(s.last()),
    ensures
        trim(a + s + b) == s,
        folded(a + s + b).len() == s.len(),
        forall|i: int| 0 <= i < s.len() ==> #[trigger] folded(a + s + b)[i] == lower_char(s[i]),
{
    if s.len() > 0 {
        assert(a + s + b == a + (s + b));
        lemma_trim_start_of(a, s + b);
        lemma_trim_end_of(s, b);
    } else {
        let w = a + b;
        assert(a + s + b == w + s);
        assert(all_white(w)) by {
            assert forall|i: int| 0 <= i < w.len() implies is_white(#[trigger] w[i]) by {
                if i < a.len() {
                    assert(is_white(a[i]));
                } else {
                    assert(is_white(b[i - a.len()]));
                }
            }
        }
        lemma_trim_start_of(w, s);
        assert(trim_end(s) == s);
    }
}

/// Making letters small goes character by character, and changes the ASCII capitals alone.
pub proof fn law_small_letters(s: Seq<char>)
    ensures
        lower(s).len() == s.len(),
        forall|i: int|
            0 <= i < s.len() ==> #[trigger] lower(s)[i] as u32 == if 65 <= s[i] as u32 <= 90 {
                s[i] as u32 + 32
            } else {
                s[i] as u32 as int
            },
{
}

/// The first place where two texts differ decides which comes first; a text comes before what it is
/// the beginning of.
pub proof fn law_first_difference_orders(p: Seq<char>, a: Seq<char>, b: Seq<char>)
    requires
        a.len() > 0 && b.len() > 0 ==> a[0] != b[0],
    ensures
        text_le(p + a, p + b) <==> (a.len() == 0 || (b.len() > 0 && a[0] < b[0])),
    decreases p.len(),
{
    if p.len() > 0 {
        let q = p.drop_first();
        assert((p + a).drop_first() == q + a);
        assert((p + b).drop_first() == q + b);
        assert((p + a)[0] == p[0] && (p + b)[0] == p[0]);
        law_first_difference_orders(q, a, b);
    } else {
        assert(p + a == a);
        assert(p + b == b);
    }
}

/// What a number is in decimal: digits that read back as the number, the first of them no zero
/// unless it is the only one; before them a minus sign where the number is negative.
pub proof fn law_decimal_form(n: nat)
    ensures
        all_digits(decimal(n)),
        digits_value(decimal(n)) == n,
        decimal(n).len() > 1 ==> decimal(n)[0] != '0',
        integer_text(n as int) == decimal(n),
        n > 0 ==> integer_text(-n) == seq!['-'] + decimal(n),
    decreases n,
{
    law_decimal_reads_back(n);
    if n >= 10 {
        law_decimal_form(n / 10);
        let d = decimal(n / 10);
        law_decimal_reads_back(n / 10);
        assert(decimal(n)[0] == d[0]);
        if d.len() == 1 && d[0] == '0' {
            assert(d.drop_last().len() == 0);
            assert(digits_value(d.drop_last()) == 0);
            assert(d.last() == '0');
            assert(n / 10 == 0);
        }
    }
}

/// The value of digits: ten times that of those before the last, and the last.
pub proof fn law_digits_count_by_ten(s: Seq<char>, d: char)
    requires
        is_digit(d),
    ensures
        digits_value(s.push(d)) == 10 * digits_value(s) + (d as u32 - '0' as u32),
        digits_value(Seq::empty()) == 0,
{
    assert(s.push(d).drop_last() == s);
}

/// A number is read exactly from one or more digits, with or without one plus sign before them, and
/// where it is no larger than the bound.
pub proof fn law_numbers_are_read(s: Seq<char>, max: nat)
    ensures
        s.len() > 0 && all_digits(s) ==> unsigned_value(s) == Some(digits_value(s)),
        s.len() > 0 && all_digits(s) ==> unsigned_value(seq!['+'] + s) == Some(digits_value(s)),
        unsigned_value(s) is Some ==> (s.len() > 0 && all_digits(s)) || (s.len() > 1 && s[0] == '+'
            && all_digits(s.drop_first())),
        bounded_value(s, max) is Some <==> unsigned_value(s) is Some && unsigned_value(s)->0 <= max,
        bounded_value(s, max) is Some ==> bounded_value(s, max) == unsigned_value(s),
{
    let p = seq!['+'] + s;
    assert(p.drop_first() == s);
    if s.len() > 0 && all_digits(s) {
        assert(is_digit(s[0]));
    }
}

} // verus!
