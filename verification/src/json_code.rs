//! Different values have different JSON texts.

use vstd::prelude::*;

use crate::json::{
    escape_char, escaped, hex_char, json_array, json_bool, json_member, json_object,
    json_opt_integer, json_opt_string, json_string, json_strings,
};
use crate::number::{
    decimal, integer_text, is_digit, law_decimal_reads_back, lemma_integer_text_injective,
};
use crate::text::join;

verus! {

/// Whether `c` ends a value inside an array or an object.
pub open spec fn is_terminator(c: char) -> bool {
    c == ',' || c == ']' || c == '}'
}

/// Whether `x` goes on with a character that ends a value.
pub open spec fn terminated(x: Seq<char>) -> bool {
    x.len() > 0 && is_terminator(x[0])
}

/// Whether neither of two texts can be taken for the beginning of the other where a value ends.
pub open spec fn splits(a: Seq<char>, b: Seq<char>) -> bool {
    forall|x: Seq<char>, y: Seq<char>|
        terminated(x) && terminated(y) && #[trigger] (a + x) == #[trigger] (b + y) ==> a == b
}

/// Whether `a` holds no character that ends a value.
pub open spec fn unbroken(a: Seq<char>) -> bool {
    forall|i: int| 0 <= i < a.len() ==> !is_terminator(#[trigger] a[i])
}

pub proof fn lemma_cancel(a: Seq<char>, x: Seq<char>, b: Seq<char>, y: Seq<char>)
    requires
        a.len() == b.len(),
        a + x == b + y,
    ensures
        a == b,
        x == y,
{
    assert((a + x).take(a.len() as int) == a);
    assert((b + y).take(a.len() as int) == b);
    assert((a + x).skip(a.len() as int) == x);
    assert((b + y).skip(a.len() as int) == y);
}

pub proof fn lemma_unbroken_splits(a: Seq<char>, b: Seq<char>)
    requires
        unbroken(a),
        unbroken(b),
    ensures
        splits(a, b),
{
    assert forall|x: Seq<char>, y: Seq<char>|
        terminated(x) && terminated(y) && #[trigger] (a + x) == #[trigger] (b + y) implies a == b by {
        if a.len() < b.len() {
            assert((a + x)[a.len() as int] == x[0]);
            assert((b + y)[a.len() as int] == b[a.len() as int]);
        } else if b.len() < a.len() {
            assert((b + y)[b.len() as int] == y[0]);
            assert((a + x)[b.len() as int] == a[b.len() as int]);
        } else {
            lemma_cancel(a, x, b, y);
        }
    }
}

proof fn lemma_escape_prefix(c: char, d: char, x: Seq<char>, y: Seq<char>)
    requires
        escape_char(c) + x == escape_char(d) + y,
    ensures
        c == d,
        x == y,
{
    let s = escape_char(c) + x;
    let t = escape_char(d) + y;
    let e = escape_char(c);
    let f = escape_char(d);
    assert(s[0] == e[0]);
    assert(t[0] == f[0]);
    if e.len() > 1 && f.len() > 1 {
        assert(s[1] == e[1]);
        assert(t[1] == f[1]);
        if e.len() == 6 && f.len() == 6 {
            assert(s[4] == e[4]);
            assert(t[4] == f[4]);
            assert(s[5] == e[5]);
            assert(t[5] == f[5]);
            let m = c as u32 as int;
            let n = d as u32 as int;
            assert(hex_char(m / 16) == hex_char(n / 16));
            assert(hex_char(m % 16) == hex_char(n % 16));
            lemma_hex_injective(m / 16, n / 16);
            lemma_hex_injective(m % 16, n % 16);
            assert(m == n);
        }
    }
    assert(c == d);
    lemma_cancel(e, x, f, y);
}

proof fn lemma_hex_injective(a: int, b: int)
    requires
        0 <= a < 16,
        0 <= b < 16,
        hex_char(a) == hex_char(b),
    ensures
        a == b,
{
    assert(hex_char(a) as u32 == if a < 10 {
        48 + a
    } else {
        87 + a
    });
    assert(hex_char(b) as u32 == if b < 10 {
        48 + b
    } else {
        87 + b
    });
}

proof fn lemma_escaped_prefix(s: Seq<char>, t: Seq<char>, x: Seq<char>, y: Seq<char>)
    requires
        escaped(s) + (seq!['"'] + x) == escaped(t) + (seq!['"'] + y),
    ensures
        s == t,
        x == y,
    decreases s.len(),
{
    let xs = seq!['"'] + x;
    let yt = seq!['"'] + y;
    let u = escaped(s) + xs;
    let v = escaped(t) + yt;
    if s.len() == 0 && t.len() == 0 {
        assert(u == xs);
        assert(v == yt);
        lemma_cancel(seq!['"'], x, seq!['"'], y);
        assert(s == t);
    } else if s.len() == 0 {
        assert(u[0] == '"');
        assert(v[0] == escape_char(t[0])[0]);
    } else if t.len() == 0 {
        assert(v[0] == '"');
        assert(u[0] == escape_char(s[0])[0]);
    } else {
        let s1 = escaped(s.drop_first()) + xs;
        let t1 = escaped(t.drop_first()) + yt;
        assert(u == escape_char(s[0]) + s1);
        assert(v == escape_char(t[0]) + t1);
        lemma_escape_prefix(s[0], t[0], s1, t1);
        lemma_escaped_prefix(s.drop_first(), t.drop_first(), x, y);
        assert(s == seq![s[0]] + s.drop_first());
        assert(t == seq![t[0]] + t.drop_first());
    }
}

/// A JSON string shows where it ends, and which text it is.
pub proof fn lemma_json_string_prefix(s: Seq<char>, t: Seq<char>, x: Seq<char>, y: Seq<char>)
    requires
        json_string(s) + x == json_string(t) + y,
    ensures
        s == t,
        x == y,
{
    let q = seq!['"'];
    let a = escaped(s) + (q + x);
    let b = escaped(t) + (q + y);
    assert(json_string(s) + x == q + a);
    assert(json_string(t) + y == q + b);
    lemma_cancel(q, a, q, b);
    lemma_escaped_prefix(s, t, x, y);
}

/// Two texts with one JSON string are one text.
pub proof fn lemma_json_string_injective(s: Seq<char>, t: Seq<char>)
    requires
        json_string(s) == json_string(t),
    ensures
        s == t,
{
    lemma_json_string_prefix(s, t, Seq::empty(), Seq::empty());
}

proof fn lemma_string_splits(s: Seq<char>, t: Seq<char>)
    ensures
        splits(json_string(s), json_string(t)),
{
    assert forall|x: Seq<char>, y: Seq<char>|
        terminated(x) && terminated(y) && #[trigger] (json_string(s) + x) == #[trigger] (json_string(
            t,
        ) + y) implies json_string(s) == json_string(t) by {
        lemma_json_string_prefix(s, t, x, y);
    }
}

/// `json_opt_string` shows where it ends, and which value it is.
pub proof fn lemma_opt_string_code(o: Option<Seq<char>>, p: Option<Seq<char>>)
    ensures
        splits(json_opt_string(o), json_opt_string(p)),
        json_opt_string(o) == json_opt_string(p) ==> o == p,
{
    let a = json_opt_string(o);
    let b = json_opt_string(p);
    if o is Some && p is Some {
        lemma_string_splits(o->0, p->0);
        if a == b {
            lemma_json_string_injective(o->0, p->0);
        }
    } else if o is Some || p is Some {
        assert(a[0] != b[0]);
        assert forall|x: Seq<char>, y: Seq<char>|
            terminated(x) && terminated(y) && #[trigger] (a + x) == #[trigger] (b + y) implies a
            == b by {
            assert((a + x)[0] == a[0]);
            assert((b + y)[0] == b[0]);
        }
    }
}

proof fn lemma_integer_unbroken(n: int)
    ensures
        unbroken(integer_text(n)),
        integer_text(n).len() > 0,
        integer_text(n)[0] != 'n',
{
    let m = if n < 0 {
        (-n) as nat
    } else {
        n as nat
    };
    law_decimal_reads_back(m);
    let d = decimal(m);
    assert forall|i: int| 0 <= i < d.len() implies !is_terminator(#[trigger] d[i]) by {
        assert(is_digit(d[i]));
    }
    assert(is_digit(d[0]));
    let s = integer_text(n);
    assert forall|i: int| 0 <= i < s.len() implies !is_terminator(#[trigger] s[i]) by {
        if n < 0 && i > 0 {
            assert(s[i] == d[i - 1]);
        }
    }
}

/// `json_opt_integer` shows where it ends, and which value it is.
pub proof fn lemma_opt_integer_code(o: Option<int>, p: Option<int>)
    ensures
        splits(json_opt_integer(o), json_opt_integer(p)),
        json_opt_integer(o) == json_opt_integer(p) ==> o == p,
{
    let a = json_opt_integer(o);
    let b = json_opt_integer(p);
    if o is Some {
        lemma_integer_unbroken(o->0);
    }
    if p is Some {
        lemma_integer_unbroken(p->0);
    }
    lemma_unbroken_splits(a, b);
    if a == b {
        assert(a[0] == b[0]);
        if o is Some && p is Some {
            lemma_integer_text_injective(o->0, p->0);
        }
    }
}

/// `json_bool` shows where it ends, and which value it is.
pub proof fn lemma_bool_code(b: bool, c: bool)
    ensures
        splits(json_bool(b), json_bool(c)),
        json_bool(b) == json_bool(c) ==> b == c,
{
    assert(json_bool(true)[0] != json_bool(false)[0]);
    lemma_unbroken_splits(json_bool(b), json_bool(c));
}

/// `join` seen from the left.
pub proof fn lemma_join_first(parts: Seq<Seq<char>>, sep: Seq<char>)
    requires
        parts.len() > 1,
    ensures
        join(parts, sep) == parts[0] + (sep + join(parts.drop_first(), sep)),
    decreases parts.len(),
{
    let rest = parts.drop_first();
    let head = parts.drop_last();
    if parts.len() == 2 {
        assert(join(head, sep) == parts[0]);
        assert(join(rest, sep) == parts[1]);
    } else {
        lemma_join_first(head, sep);
        assert(head.drop_first() == rest.drop_last());
        assert(rest.last() == parts.last());
    }
    assert(join(parts, sep) == join(head, sep) + sep + parts.last());
    assert(join(parts, sep) == parts[0] + (sep + join(rest, sep)));
}

/// Values with commas between them, up to a closing bracket, show what the values are.
pub proof fn lemma_join_code(
    p: Seq<Seq<char>>,
    q: Seq<Seq<char>>,
    close: char,
    x: Seq<char>,
    y: Seq<char>,
)
    requires
        close == ']' || close == '}',
        forall|i: int| 0 <= i < p.len() ==> #[trigger] p[i].len() > 0 && !is_terminator(p[i][0]),
        forall|i: int| 0 <= i < q.len() ==> #[trigger] q[i].len() > 0 && !is_terminator(q[i][0]),
        forall|i: int| 0 <= i < p.len() && i < q.len() ==> #[trigger] splits(p[i], q[i]),
        join(p, seq![',']) + (seq![close] + x) == join(q, seq![',']) + (seq![close] + y),
    ensures
        p == q,
        x == y,
    decreases p.len(),
{
    let comma = seq![','];
    let xs = seq![close] + x;
    let ys = seq![close] + y;
    let u = join(p, comma) + xs;
    let v = join(q, comma) + ys;
    assert(terminated(xs));
    assert(terminated(ys));
    if q.len() > 1 {
        lemma_join_first(q, comma);
    }
    if p.len() > 1 {
        lemma_join_first(p, comma);
    }
    if p.len() == 0 && q.len() == 0 {
        assert(u == xs);
        assert(v == ys);
        lemma_cancel(seq![close], x, seq![close], y);
        assert(p == q);
    } else if p.len() == 0 {
        assert(u[0] == close);
        assert(q[0].len() > 0);
        assert(v[0] == q[0][0]);
    } else if q.len() == 0 {
        assert(v[0] == close);
        assert(p[0].len() > 0);
        assert(u[0] == p[0][0]);
    } else {
        let pr = p.drop_first();
        let qr = q.drop_first();
        let pt = if p.len() == 1 {
            xs
        } else {
            comma + (join(pr, comma) + xs)
        };
        let qt = if q.len() == 1 {
            ys
        } else {
            comma + (join(qr, comma) + ys)
        };
        assert(u == p[0] + pt);
        assert(v == q[0] + qt);
        assert(terminated(pt));
        assert(terminated(qt));
        assert(splits(p[0], q[0]));
        assert(p[0] == q[0]);
        lemma_cancel(p[0], pt, q[0], qt);
        if p.len() == 1 || q.len() == 1 {
            assert(pt[0] == qt[0]);
            assert(p.len() == 1 && q.len() == 1);
            lemma_cancel(seq![close], x, seq![close], y);
            assert(p == q);
        } else {
            lemma_cancel(comma, join(pr, comma) + xs, comma, join(qr, comma) + ys);
            assert forall|i: int| 0 <= i < pr.len() implies #[trigger] pr[i].len() > 0
                && !is_terminator(pr[i][0]) by {
                assert(p[i + 1].len() > 0);
            }
            assert forall|i: int| 0 <= i < qr.len() implies #[trigger] qr[i].len() > 0
                && !is_terminator(qr[i][0]) by {
                assert(q[i + 1].len() > 0);
            }
            assert forall|i: int| 0 <= i < pr.len() && i < qr.len() implies #[trigger] splits(
                pr[i],
                qr[i],
            ) by {
                assert(splits(p[i + 1], q[i + 1]));
            }
            lemma_join_code(pr, qr, close, x, y);
            assert(p == seq![p[0]] + pr);
            assert(q == seq![q[0]] + qr);
        }
    }
}

/// An array of strings shows where it ends, and which strings it holds.
pub proof fn lemma_string_array_code(s: Seq<Seq<char>>, t: Seq<Seq<char>>)
    ensures
        splits(json_array(json_strings(s)), json_array(json_strings(t))),
        json_array(json_strings(s)) == json_array(json_strings(t)) ==> s == t,
{
    let a = json_array(json_strings(s));
    let b = json_array(json_strings(t));
    assert forall|x: Seq<char>, y: Seq<char>| #[trigger] (a + x) == #[trigger] (b + y) implies s
        == t by {
        let p = json_strings(s);
        let q = json_strings(t);
        let open = seq!['['];
        let comma = seq![','];
        let u = join(p, comma) + (seq![']'] + x);
        let v = join(q, comma) + (seq![']'] + y);
        assert(a + x == open + u);
        assert(b + y == open + v);
        lemma_cancel(open, u, open, v);
        assert forall|i: int| 0 <= i < p.len() && i < q.len() implies #[trigger] splits(
            p[i],
            q[i],
        ) by {
            lemma_string_splits(s[i], t[i]);
        }
        lemma_join_code(p, q, ']', x, y);
        assert(s.len() == t.len());
        assert forall|i: int| 0 <= i < s.len() implies s[i] == t[i] by {
            assert(p[i] == q[i]);
            lemma_json_string_injective(s[i], t[i]);
        }
        assert(s == t);
    }
    if a == b {
        assert(a + Seq::<char>::empty() == b + Seq::<char>::empty());
    }
}

/// Members with one name show where they end as far as their values do.
pub proof fn lemma_member_code(name: Seq<char>, v: Seq<char>, w: Seq<char>)
    requires
        splits(v, w),
    ensures
        splits(json_member(name, v), json_member(name, w)),
        json_member(name, v) == json_member(name, w) ==> v == w,
        json_member(name, v).len() > 0,
        json_member(name, v)[0] == '"',
{
    let head = seq!['"'] + name + seq!['"', ':'];
    let a = json_member(name, v);
    let b = json_member(name, w);
    assert forall|x: Seq<char>, y: Seq<char>|
        terminated(x) && terminated(y) && #[trigger] (a + x) == #[trigger] (b + y) implies a == b by {
        assert(a + x == head + (v + x));
        assert(b + y == head + (w + y));
        lemma_cancel(head, v + x, head, w + y);
    }
    if a == b {
        lemma_cancel(head, v, head, w);
    }
}

/// Objects whose members show where they end show what their members are.
pub proof fn lemma_object_code(p: Seq<Seq<char>>, q: Seq<Seq<char>>)
    requires
        forall|i: int| 0 <= i < p.len() ==> #[trigger] p[i].len() > 0 && p[i][0] == '"',
        forall|i: int| 0 <= i < q.len() ==> #[trigger] q[i].len() > 0 && q[i][0] == '"',
        forall|i: int| 0 <= i < p.len() && i < q.len() ==> #[trigger] splits(p[i], q[i]),
        json_object(p) == json_object(q),
    ensures
        p == q,
{
    let open = seq!['{'];
    let comma = seq![','];
    let none = Seq::<char>::empty();
    let u = join(p, comma) + (seq!['}'] + none);
    let v = join(q, comma) + (seq!['}'] + none);
    assert(json_object(p) == open + u);
    assert(json_object(q) == open + v);
    lemma_cancel(open, u, open, v);
    lemma_join_code(p, q, '}', none, none);
}

} // verus!
