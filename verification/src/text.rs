//! Text as the service reads it: characters, words, letter case and white space.

use vstd::prelude::*;

verus! {

/// Whether `c` has the Unicode property `White_Space`.
pub open spec fn is_white(c: char) -> bool {
    let n = c as u32;
    ||| 0x9 <= n <= 0xd
    ||| n == 0x20
    ||| n == 0x85
    ||| n == 0xa0
    ||| n == 0x1680
    ||| 0x2000 <= n <= 0x200a
    ||| n == 0x2028
    ||| n == 0x2029
    ||| n == 0x202f
    ||| n == 0x205f
    ||| n == 0x3000
}

/// `c` with an ASCII capital made small.
pub open spec fn lower_char(c: char) -> char {
    if 'A' <= c <= 'Z' {
        (c as u8 + 32) as u8 as char
    } else {
        c
    }
}

/// `s` with each ASCII capital made small.
pub open spec fn lower(s: Seq<char>) -> Seq<char> {
    s.map_values(|c: char| lower_char(c))
}

/// The words of `s`: its maximal runs of characters that are not white space, in order.
pub open spec fn words(s: Seq<char>) -> Seq<Seq<char>>
    decreases s.len(),
{
    if s.len() == 0 {
        Seq::empty()
    } else {
        let before = words(s.drop_last());
        if is_white(s.last()) {
            before
        } else if s.len() == 1 || is_white(s[s.len() - 2]) {
            before.push(seq![s.last()])
        } else {
            before.drop_last().push(before.last().push(s.last()))
        }
    }
}

/// `parts` one after the other with `sep` between neighbours.
pub open spec fn join(parts: Seq<Seq<char>>, sep: Seq<char>) -> Seq<char>
    decreases parts.len(),
{
    if parts.len() == 0 {
        Seq::empty()
    } else if parts.len() == 1 {
        parts[0]
    } else {
        join(parts.drop_last(), sep) + sep + parts.last()
    }
}

/// The words of `s` with one space between neighbours.
pub open spec fn collapsed(s: Seq<char>) -> Seq<char> {
    join(words(s), seq![' '])
}

/// `s` without its leading white space.
pub open spec fn trim_start(s: Seq<char>) -> Seq<char>
    decreases s.len(),
{
    if s.len() > 0 && is_white(s[0]) {
        trim_start(s.drop_first())
    } else {
        s
    }
}

/// `s` without its trailing white space.
pub open spec fn trim_end(s: Seq<char>) -> Seq<char>
    decreases s.len(),
{
    if s.len() > 0 && is_white(s.last()) {
        trim_end(s.drop_last())
    } else {
        s
    }
}

/// `s` without white space at either end.
pub open spec fn trim(s: Seq<char>) -> Seq<char> {
    trim_end(trim_start(s))
}

/// `s` without white space at either end, ASCII capitals made small.
pub open spec fn folded(s: Seq<char>) -> Seq<char> {
    lower(trim(s))
}

/// The pieces of `s` between the places where `sep` stands.
pub open spec fn pieces(s: Seq<char>, sep: char) -> Seq<Seq<char>>
    decreases s.len(),
{
    if s.len() == 0 {
        seq![Seq::empty()]
    } else {
        let before = pieces(s.drop_last(), sep);
        if s.last() == sep {
            before.push(Seq::empty())
        } else {
            before.drop_last().push(before.last().push(s.last()))
        }
    }
}

/// What the strings hold.
pub open spec fn texts(v: Seq<String>) -> Seq<Seq<char>> {
    v.map_values(|s: String| s@)
}

/// What the rows of characters hold.
pub open spec fn rows(v: Seq<Vec<char>>) -> Seq<Seq<char>> {
    v.map_values(|w: Vec<char>| w@)
}

/// What the string holds, where there is one.
pub open spec fn opt_text(o: Option<String>) -> Option<Seq<char>> {
    match o {
        Some(s) => Some(s@),
        None => None,
    }
}

/// `String::push`: the character goes behind those that are there.
pub assume_specification[ String::push ](s: &mut String, c: char)
    ensures
        final(s)@ == old(s)@.push(c),
;

/// Whether `c` is white space.
pub fn is_white_space(c: char) -> (r: bool)
    ensures
        r == is_white(c),
{
    let n = c as u32;
    (0x9 <= n && n <= 0xd) || n == 0x20 || n == 0x85 || n == 0xa0 || n == 0x1680 || (0x2000 <= n
        && n <= 0x200a) || n == 0x2028 || n == 0x2029 || n == 0x202f || n == 0x205f || n == 0x3000
}

/// `c` with an ASCII capital made small.
pub fn to_lower_char(c: char) -> (r: char)
    ensures
        r == lower_char(c),
{
    if 'A' <= c && c <= 'Z' {
        (c as u8 + 32) as char
    } else {
        c
    }
}

/// The characters of `s`.
pub fn chars_of(s: &str) -> (v: Vec<char>)
    ensures
        v@ == s@,
{
    let mut v: Vec<char> = Vec::new();
    for c in it: s.chars()
        invariant
            v@ == s@.take(it.index() as int),
            it.seq() == s@,
    {
        v.push(c);
    }
    v
}

/// The string of the characters `v`.
pub fn string_of(v: &Vec<char>) -> (s: String)
    ensures
        s@ == v@,
{
    let mut s = String::new();
    for i in 0..v.len()
        invariant
            s@ == v@.take(i as int),
    {
        s.push(v[i]);
        assert(v@.take(i + 1) == v@.take(i as int).push(v@[i as int]));
    }
    assert(v@.take(v@.len() as int) == v@);
    s
}

/// The strings of the rows `v`.
pub fn strings_of(v: &Vec<Vec<char>>) -> (r: Vec<String>)
    ensures
        texts(r@) == rows(v@),
{
    let mut r: Vec<String> = Vec::new();
    for i in 0..v.len()
        invariant
            texts(r@) == rows(v@.take(i as int)),
    {
        let ghost before = r@;
        r.push(string_of(&v[i]));
        assert(texts(r@) == texts(before).push(v@[i as int]@));
        assert(rows(v@.take(i + 1)) == rows(v@.take(i as int)).push(v@[i as int]@));
    }
    assert(v@.take(v@.len() as int) == v@);
    r
}

/// The words of `s`, in order.
pub fn split_words(s: &str) -> (r: Vec<Vec<char>>)
    ensures
        rows(r@) == words(s@),
{
    let chars = chars_of(s);
    let mut done: Vec<Vec<char>> = Vec::new();
    let mut word: Vec<char> = Vec::new();
    for i in 0..chars.len()
        invariant
            chars@ == s@,
            word@.len() > 0 <==> i > 0 && !is_white(s@[i - 1]),
            words(s@.take(i as int)) == if word@.len() > 0 {
                rows(done@).push(word@)
            } else {
                rows(done@)
            },
    {
        let c = chars[i];
        let ghost head = s@.take(i as int);
        let ghost next = s@.take(i + 1);
        assert(next.drop_last() == head);
        if is_white_space(c) {
            if word.len() > 0 {
                let ghost rows_before = rows(done@);
                let ghost last = word@;
                done.push(word);
                word = Vec::new();
                assert(rows(done@) == rows_before.push(last));
            }
        } else {
            let ghost before = word@;
            word.push(c);
            proof {
                if before.len() > 0 {
                    assert(rows(done@).push(before).drop_last() == rows(done@));
                } else {
                    assert(word@ == seq![c]);
                }
            }
        }
    }
    assert(s@.take(s@.len() as int) == s@);
    if word.len() > 0 {
        let ghost rows_before = rows(done@);
        let ghost last = word@;
        done.push(word);
        assert(rows(done@) == rows_before.push(last));
    }
    done
}

/// The pieces of `s` between the places where `sep` stands.
pub fn split_on(s: &str, sep: char) -> (r: Vec<Vec<char>>)
    ensures
        rows(r@) == pieces(s@, sep),
{
    let chars = chars_of(s);
    let mut done: Vec<Vec<char>> = Vec::new();
    let mut piece: Vec<char> = Vec::new();
    assert(rows(done@).push(piece@) == pieces(s@.take(0), sep));
    for i in 0..chars.len()
        invariant
            chars@ == s@,
            rows(done@).push(piece@) == pieces(s@.take(i as int), sep),
    {
        let c = chars[i];
        let ghost head = rows(done@);
        let ghost last = piece@;
        assert(s@.take(i + 1).drop_last() == s@.take(i as int));
        assert(head.push(last).drop_last() == head);
        if c == sep {
            done.push(piece);
            piece = Vec::new();
            assert(rows(done@) == head.push(last));
        } else {
            piece.push(c);
        }
    }
    assert(s@.take(s@.len() as int) == s@);
    let ghost head = rows(done@);
    let ghost last = piece@;
    done.push(piece);
    assert(rows(done@) == head.push(last));
    done
}

/// `s` without white space at either end.
pub fn trimmed(s: &str) -> (r: Vec<char>)
    ensures
        r@ == trim(s@),
{
    let chars = chars_of(s);
    let mut start: usize = 0;
    assert(chars@.skip(0) == chars@);
    while start < chars.len() && is_white_space(chars[start])
        invariant
            start <= chars@.len(),
            trim_start(chars@) == trim_start(chars@.skip(start as int)),
        decreases chars@.len() - start,
    {
        assert(chars@.skip(start as int).drop_first() == chars@.skip(start + 1));
        start += 1;
    }
    let ghost rest = chars@.skip(start as int);
    assert(trim_start(chars@) == rest);
    let mut end: usize = chars.len();
    while start < end && is_white_space(chars[end - 1])
        invariant
            start <= end <= chars@.len(),
            rest == chars@.skip(start as int),
            trim_end(rest) == trim_end(chars@.subrange(start as int, end as int)),
        decreases end,
    {
        assert(chars@.subrange(start as int, end as int).drop_last() == chars@.subrange(
            start as int,
            end - 1,
        ));
        end -= 1;
    }
    let mut r: Vec<char> = Vec::new();
    for i in start..end
        invariant
            start <= end <= chars@.len(),
            r@ == chars@.subrange(start as int, i as int),
    {
        r.push(chars[i]);
        assert(chars@.subrange(start as int, i + 1) == chars@.subrange(start as int, i as int).push(
            chars@[i as int],
        ));
    }
    r
}

/// `v` with each ASCII capital made small.
pub fn lowered(v: &Vec<char>) -> (r: Vec<char>)
    ensures
        r@ == lower(v@),
{
    let mut r: Vec<char> = Vec::new();
    for i in 0..v.len()
        invariant
            r@ == lower(v@.take(i as int)),
    {
        r.push(to_lower_char(v[i]));
        assert(lower(v@.take(i + 1)) == lower(v@.take(i as int)).push(lower_char(v@[i as int])));
    }
    assert(v@.take(v@.len() as int) == v@);
    r
}

/// `parts` one after the other with `sep` between neighbours.
pub fn join_texts(parts: &Vec<String>, sep: &str) -> (r: String)
    ensures
        r@ == join(texts(parts@), sep@),
{
    let mut r = String::new();
    for i in 0..parts.len()
        invariant
            r@ == join(texts(parts@).take(i as int), sep@),
    {
        let ghost head = texts(parts@).take(i as int);
        let ghost next = texts(parts@).take(i + 1);
        assert(next.drop_last() == head);
        assert(next.last() == parts@[i as int]@);
        if i > 0 {
            r.append(sep);
        }
        r.append(parts[i].as_str());
    }
    assert(texts(parts@).take(parts@.len() as int) == texts(parts@));
    r
}

/// The words of `value` with one space between neighbours.
pub fn collapse_ws(value: &str) -> (r: String)
    ensures
        r@ == collapsed(value@),
{
    let sep = " ";
    proof {
        reveal_strlit(" ");
        assert(sep@ == seq![' ']);
    }
    join_texts(&strings_of(&split_words(value)), sep)
}

/// `value` without white space at either end, ASCII capitals made small.
pub fn fold(value: &str) -> (r: String)
    ensures
        r@ == folded(value@),
{
    string_of(&lowered(&trimmed(value)))
}

/// Not empty, and without white space.
pub open spec fn plain_word(w: Seq<char>) -> bool {
    &&& w.len() > 0
    &&& forall|i: int| 0 <= i < w.len() ==> !is_white(#[trigger] w[i])
}

/// Each is not empty, and without white space.
pub open spec fn plain_words(ws: Seq<Seq<char>>) -> bool {
    forall|i: int| 0 <= i < ws.len() ==> plain_word(#[trigger] ws[i])
}

/// No word is empty or holds white space.
pub proof fn lemma_words_are_plain(s: Seq<char>)
    ensures
        plain_words(words(s)),
        s.len() > 0 && !is_white(s.last()) ==> words(s).len() > 0,
    decreases s.len(),
{
    if s.len() > 0 {
        lemma_words_are_plain(s.drop_last());
        let before = words(s.drop_last());
        if !is_white(s.last()) && s.len() > 1 && !is_white(s[s.len() - 2]) {
            assert(s.drop_last().last() == s[s.len() - 2]);
            assert(plain_word(before.last()));
            assert(plain_word(before.last().push(s.last())));
        } else if !is_white(s.last()) {
            assert(plain_word(seq![s.last()]));
        }
    }
}

/// A word that follows white space, or nothing, is the last word.
proof fn lemma_words_push(a: Seq<char>, w: Seq<char>)
    requires
        plain_word(w),
        a.len() > 0 ==> is_white(a.last()),
    ensures
        words(a + w) == words(a).push(w),
    decreases w.len(),
{
    let s = a + w;
    assert(s.last() == w.last());
    if w.len() == 1 {
        assert(s.drop_last() == a);
        assert(w == seq![w.last()]);
        if a.len() > 0 {
            assert(s[s.len() - 2] == a.last());
        }
    } else {
        let v = w.drop_last();
        lemma_words_push(a, v);
        assert(s.drop_last() == a + v);
        assert(s[s.len() - 2] == w[w.len() - 2]);
        assert(words(a).push(v).drop_last() == words(a));
        assert(v.push(w.last()) == w);
    }
}

/// Words joined by single spaces are read back as they were.
pub proof fn lemma_words_of_join(ws: Seq<Seq<char>>)
    requires
        plain_words(ws),
    ensures
        words(join(ws, seq![' '])) == ws,
    decreases ws.len(),
{
    let sep = seq![' '];
    if ws.len() == 1 {
        lemma_words_push(Seq::empty(), ws[0]);
        assert(Seq::<char>::empty() + ws[0] == ws[0]);
        assert(words(Seq::empty()).push(ws[0]) == ws);
    } else if ws.len() > 1 {
        let rest = ws.drop_last();
        lemma_words_of_join(rest);
        let a = join(rest, sep) + sep;
        assert(a.drop_last() == join(rest, sep));
        assert(plain_word(ws.last()));
        lemma_words_push(a, ws.last());
        assert(rest.push(ws.last()) == ws);
    }
}

/// Collapsing white space keeps the words and their order.
pub proof fn law_collapse_keeps_words(s: Seq<char>)
    ensures
        words(collapsed(s)) == words(s),
{
    lemma_words_are_plain(s);
    lemma_words_of_join(words(s));
}

/// Collapsing white space a second time changes nothing.
pub proof fn law_collapse_is_idempotent(s: Seq<char>)
    ensures
        collapsed(collapsed(s)) == collapsed(s),
{
    law_collapse_keeps_words(s);
}

proof fn lemma_pieces_push(a: Seq<char>, p: Seq<char>, sep: char)
    requires
        !p.contains(sep),
        a.len() > 0 ==> a.last() == sep,
    ensures
        pieces(a + p, sep) == pieces(a, sep).drop_last().push(p),
    decreases p.len(),
{
    let s = a + p;
    if p.len() == 0 {
        assert(s == a);
        assert(pieces(a, sep).len() > 0 && pieces(a, sep).last() == p);
        assert(pieces(a, sep) == pieces(a, sep).drop_last().push(p));
    } else {
        let q = p.drop_last();
        assert(!q.contains(sep)) by {
            if q.contains(sep) {
                let i = choose|i: int| 0 <= i < q.len() && q[i] == sep;
                assert(p[i] == sep);
            }
        }
        lemma_pieces_push(a, q, sep);
        assert(s.drop_last() == a + q);
        assert(p[p.len() - 1] != sep);
        let before = pieces(a + q, sep);
        assert(before.drop_last() == pieces(a, sep).drop_last());
        assert(q.push(p.last()) == p);
    }
}

/// Pieces joined by a character that none of them holds are read back as they were.
pub proof fn law_pieces_of_join(ps: Seq<Seq<char>>, sep: char)
    requires
        ps.len() > 0,
        forall|i: int| 0 <= i < ps.len() ==> !(#[trigger] ps[i]).contains(sep),
    ensures
        pieces(join(ps, seq![sep]), sep) == ps,
    decreases ps.len(),
{
    assert(!ps[ps.len() - 1].contains(sep));
    if ps.len() == 1 {
        lemma_pieces_push(Seq::empty(), ps[0], sep);
        assert(Seq::<char>::empty() + ps[0] == ps[0]);
        assert(pieces(Seq::empty(), sep).drop_last().push(ps[0]) == ps);
    } else {
        let rest = ps.drop_last();
        assert forall|i: int| 0 <= i < rest.len() implies !(#[trigger] rest[i]).contains(sep) by {
            assert(!ps[i].contains(sep));
        }
        law_pieces_of_join(rest, sep);
        let a = join(rest, seq![sep]) + seq![sep];
        assert(a.drop_last() == join(rest, seq![sep]));
        assert(pieces(a, sep) == rest.push(Seq::empty()));
        lemma_pieces_push(a, ps.last(), sep);
        assert(rest.push(Seq::<char>::empty()).drop_last() == rest);
        assert(rest.push(ps.last()) == ps);
    }
}

/// Making an ASCII capital small does not make or unmake white space.
pub proof fn lemma_lower_keeps_white(c: char)
    ensures
        is_white(lower_char(c)) == is_white(c),
        lower_char(lower_char(c)) == lower_char(c),
{
}

/// Making capitals small a second time changes nothing.
pub proof fn lemma_lower_twice(s: Seq<char>)
    ensures
        lower(lower(s)) == lower(s),
{
    assert forall|i: int| 0 <= i < s.len() implies lower(lower(s))[i] == lower(s)[i] by {
        lemma_lower_keeps_white(s[i]);
    }
}

proof fn lemma_trim_start_ends(s: Seq<char>)
    ensures
        trim_start(s).len() > 0 ==> !is_white(trim_start(s)[0]),
    decreases s.len(),
{
    if s.len() > 0 && is_white(s[0]) {
        lemma_trim_start_ends(s.drop_first());
    }
}

proof fn lemma_trim_end_ends(s: Seq<char>)
    ensures
        trim_end(s).len() > 0 ==> !is_white(trim_end(s).last()) && trim_end(s)[0] == s[0],
    decreases s.len(),
{
    if s.len() > 0 && is_white(s.last()) {
        lemma_trim_end_ends(s.drop_last());
    }
}

/// Trimmed text neither begins nor ends with white space.
pub proof fn lemma_trim_ends(s: Seq<char>)
    ensures
        trim(s).len() > 0 ==> !is_white(trim(s)[0]) && !is_white(trim(s).last()),
{
    lemma_trim_start_ends(s);
    lemma_trim_end_ends(trim_start(s));
}

/// Folding text a second time changes nothing.
pub proof fn law_fold_is_idempotent(s: Seq<char>)
    ensures
        folded(folded(s)) == folded(s),
{
    let t = trim(s);
    lemma_trim_ends(s);
    if t.len() > 0 {
        lemma_lower_keeps_white(t[0]);
        lemma_lower_keeps_white(t.last());
        assert(lower(t).last() == lower_char(t.last()));
    }
    assert(trim(lower(t)) == lower(t));
    lemma_lower_twice(t);
}

} // verus!
