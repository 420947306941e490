//! Serialization of newsletter records, with a proved round trip.
//!
//! The wire form is a flat character sequence of named fields. A string
//! field is written escaped — `%` and the terminator `;` are preceded by
//! `%` — and closed by `;`, so any text can be carried without length
//! prefixes. The numeric date fields are written in decimal. The article
//! list is written as `article;`-tagged records closed by `end;`.

use vstd::prelude::*;
use vstd::string::StrSliceExecFns;
use vstd::string::StringExecFns;
use crate::article::Article;
use crate::article::ArticleV;
use crate::article::articles_view;
use crate::newsletter::Newsletter;
use crate::newsletter::NewsletterV;

verus! {

/// Whether `c` is a decimal digit.
pub open spec fn is_digit(c: char) -> bool {
    '0' <= c <= '9'
}

/// The digit character of `d`, for `0 <= d <= 9`.
pub open spec fn digit_char(d: int) -> char {
    if d == 0 { '0' }
    else if d == 1 { '1' }
    else if d == 2 { '2' }
    else if d == 3 { '3' }
    else if d == 4 { '4' }
    else if d == 5 { '5' }
    else if d == 6 { '6' }
    else if d == 7 { '7' }
    else if d == 8 { '8' }
    else { '9' }
}

/// The value of the digit character `c`.
pub open spec fn digit_val(c: char) -> int {
    c as int - '0' as int
}

/// The decimal digits of `n`, most significant first.
pub open spec fn dec_spec(n: nat) -> Seq<char>
    decreases n,
{
    if n < 10 {
        seq![digit_char(n as int)]
    } else {
        dec_spec(n / 10) + seq![digit_char((n % 10) as int)]
    }
}

/// Whether every character of `d` is a decimal digit.
pub open spec fn all_digits(d: Seq<char>) -> bool {
    forall|k: int| 0 <= k < d.len() ==> is_digit(#[trigger] d[k])
}

/// The value of the digit sequence `d`, most significant first.
pub open spec fn value_of(d: Seq<char>) -> nat
    decreases d.len(),
{
    if d.len() == 0 {
        0
    } else {
        value_of(d.drop_last()) * 10 + (if is_digit(d.last()) {
            digit_val(d.last())
        } else {
            0
        }) as nat
    }
}

/// Ten to the `k`.
pub open spec fn pow10(k: nat) -> nat
    decreases k,
{
    if k == 0 {
        1
    } else {
        10 * pow10((k - 1) as nat)
    }
}

/// The escaped form of one character: `%` and `;` gain a `%` prefix.
pub open spec fn esc_char(c: char) -> Seq<char> {
    if c == '%' || c == ';' {
        seq!['%', c]
    } else {
        seq![c]
    }
}

/// The escaped form of a text: each character escaped, in order.
pub open spec fn esc_spec(s: Seq<char>) -> Seq<char>
    decreases s.len(),
{
    if s.len() == 0 {
        Seq::<char>::empty()
    } else {
        esc_char(s[0]) + esc_spec(s.drop_first())
    }
}

/// A serialized string field: the name, `=`, the escaped text, `;`.
pub open spec fn ser_str_field(name: Seq<char>, v: Seq<char>) -> Seq<char> {
    name + seq!['='] + esc_spec(v) + seq![';']
}

/// A serialized unsigned numeric field: the name, `=`, the digits, `;`.
pub open spec fn ser_num_field(name: Seq<char>, n: nat) -> Seq<char> {
    name + seq!['='] + dec_spec(n) + seq![';']
}

/// A serialized signed numeric field: as the unsigned one, with a `-`
/// before the digits of the magnitude when `n` is negative.
pub open spec fn ser_int_field(name: Seq<char>, n: int) -> Seq<char> {
    if n < 0 {
        name + seq!['='] + seq!['-'] + dec_spec((-n) as nat) + seq![';']
    } else {
        name + seq!['='] + dec_spec(n as nat) + seq![';']
    }
}

/// A serialized article: its three string fields behind an `article;` tag.
pub open spec fn ser_article(a: ArticleV) -> Seq<char> {
    seq!['a', 'r', 't', 'i', 'c', 'l', 'e', ';'] + ser_str_field(
        seq!['t', 'i', 't', 'l', 'e'],
        a.title,
    ) + ser_str_field(
        seq!['d', 'e', 's', 'c', 'r', 'i', 'p', 't', 'i', 'o', 'n'],
        a.description,
    ) + ser_str_field(seq!['u', 'r', 'l'], a.url)
}

/// The serialized articles `arts[i..]`, closed by `end;`.
pub open spec fn ser_articles(arts: Seq<ArticleV>, i: int) -> Seq<char>
    decreases arts.len() - i,
{
    if i < 0 || i >= arts.len() {
        seq!['e', 'n', 'd', ';']
    } else {
        ser_article(arts[i]) + ser_articles(arts, i + 1)
    }
}

/// The serialized form of a newsletter record: its five fields by name, in
/// order, the date as three numeric fields.
pub open spec fn ser_newsletter(v: NewsletterV) -> Seq<char> {
    ser_str_field(seq!['t', 'i', 't', 'l', 'e'], v.title) + ser_str_field(
        seq!['s', 'u', 'b', 't', 'i', 't', 'l', 'e'],
        v.subtitle,
    ) + ser_str_field(seq!['c', 'a', 't', 'e', 'g', 'o', 'r', 'y'], v.category) + ser_int_field(
        seq!['y', 'e', 'a', 'r'],
        v.date.year as int,
    ) + ser_num_field(seq!['m', 'o', 'n', 't', 'h'], v.date.month as nat) + ser_num_field(
        seq!['d', 'a', 'y'],
        v.date.day as nat,
    ) + seq!['a', 'r', 't', 'i', 'c', 'l', 'e', 's', '='] + ser_articles(v.articles, 0)
}

/// Reads an escaped text from position `i` up to its closing `;`: the text
/// and the position after the terminator, or `None` when the input ends
/// before an unescaped `;`.
pub open spec fn parse_tok(s: Seq<char>, i: int) -> Option<(Seq<char>, int)>
    decreases s.len() - i,
{
    if i < 0 || i >= s.len() {
        None
    } else if s[i] == ';' {
        Some((Seq::<char>::empty(), i + 1))
    } else if s[i] == '%' {
        if i + 1 >= s.len() {
            None
        } else {
            match parse_tok(s, i + 2) {
                Some((v, j)) => Some((seq![s[i + 1]] + v, j)),
                None => None,
            }
        }
    } else {
        match parse_tok(s, i + 1) {
            Some((v, j)) => Some((seq![s[i]] + v, j)),
            None => None,
        }
    }
}

/// Whether `lit` stands at position `i` of `s`; on a match, the position
/// after it.
pub open spec fn parse_lit(s: Seq<char>, i: int, lit: Seq<char>) -> Option<int> {
    if 0 <= i && i + lit.len() <= s.len() && s.subrange(i, i + lit.len()) == lit {
        Some(i + lit.len())
    } else {
        None
    }
}

/// The value of a raw token as an unsigned number: defined for one to ten
/// digits, which keeps every value below `pow10(10)`.
pub open spec fn num_of_tok(t: Seq<char>) -> Option<nat> {
    if 1 <= t.len() <= 10 && all_digits(t) {
        Some(value_of(t))
    } else {
        None
    }
}

/// The value of a raw token as a signed number: an optional `-` before the
/// digits of the magnitude.
pub open spec fn int_of_tok(t: Seq<char>) -> Option<int> {
    if t.len() > 0 && t[0] == '-' {
        match num_of_tok(t.drop_first()) {
            Some(n) => Some(-(n as int)),
            None => None,
        }
    } else {
        match num_of_tok(t) {
            Some(n) => Some(n as int),
            None => None,
        }
    }
}

/// Reads a named string field: the name, `=`, then an escaped text.
pub open spec fn deser_str_field(s: Seq<char>, i: int, name: Seq<char>) -> Option<
    (Seq<char>, int),
> {
    match parse_lit(s, i, name + seq!['=']) {
        Some(j) => parse_tok(s, j),
        None => None,
    }
}

/// Reads a named unsigned numeric field.
pub open spec fn deser_num_field(s: Seq<char>, i: int, name: Seq<char>) -> Option<(nat, int)> {
    match parse_lit(s, i, name + seq!['=']) {
        Some(j) => match parse_tok(s, j) {
            Some((t, k)) => match num_of_tok(t) {
                Some(n) => Some((n, k)),
                None => None,
            },
            None => None,
        },
        None => None,
    }
}

/// Reads a named signed numeric field.
pub open spec fn deser_int_field(s: Seq<char>, i: int, name: Seq<char>) -> Option<(int, int)> {
    match parse_lit(s, i, name + seq!['=']) {
        Some(j) => match parse_tok(s, j) {
            Some((t, k)) => match int_of_tok(t) {
                Some(n) => Some((n, k)),
                None => None,
            },
            None => None,
        },
        None => None,
    }
}

/// Reads the three fields of one article.
pub open spec fn deser_article(s: Seq<char>, i: int) -> Option<(ArticleV, int)> {
    match deser_str_field(s, i, seq!['t', 'i', 't', 'l', 'e']) {
        None => None,
        Some((title, j)) => match deser_str_field(
            s,
            j,
            seq!['d', 'e', 's', 'c', 'r', 'i', 'p', 't', 'i', 'o', 'n'],
        ) {
            None => None,
            Some((description, k)) => match deser_str_field(s, k, seq!['u', 'r', 'l']) {
                None => None,
                Some((url, m)) => Some((ArticleV { title, description, url }, m)),
            },
        },
    }
}

/// Reads the article list: `article;`-tagged records closed by `end;`.
pub open spec fn deser_articles(s: Seq<char>, i: int) -> Option<(Seq<ArticleV>, int)>
    decreases s.len() - i,
{
    if parse_lit(s, i, seq!['e', 'n', 'd', ';']) is Some {
        Some((Seq::<ArticleV>::empty(), i + 4))
    } else {
        match parse_lit(s, i, seq!['a', 'r', 't', 'i', 'c', 'l', 'e', ';']) {
            None => None,
            Some(j) => match deser_article(s, j) {
                None => None,
                Some((a, k)) => if i < k <= s.len() {
                    match deser_articles(s, k) {
                        Some((rest, m)) => Some((seq![a] + rest, m)),
                        None => None,
                    }
                } else {
                    None
                },
            },
        }
    }
}

/// Reads a whole serialized newsletter; the record must fill the input
/// exactly, and the date fields must fit their machine ranges.
pub open spec fn deser_newsletter(s: Seq<char>) -> Option<NewsletterV> {
    match deser_str_field(s, 0, seq!['t', 'i', 't', 'l', 'e']) {
        None => None,
        Some((title, i1)) => match deser_str_field(
            s,
            i1,
            seq!['s', 'u', 'b', 't', 'i', 't', 'l', 'e'],
        ) {
            None => None,
            Some((subtitle, i2)) => match deser_str_field(
                s,
                i2,
                seq!['c', 'a', 't', 'e', 'g', 'o', 'r', 'y'],
            ) {
                None => None,
                Some((category, i3)) => match deser_int_field(s, i3, seq!['y', 'e', 'a', 'r']) {
                    None => None,
                    Some((year, i4)) => match deser_num_field(
                        s,
                        i4,
                        seq!['m', 'o', 'n', 't', 'h'],
                    ) {
                        None => None,
                        Some((month, i5)) => match deser_num_field(s, i5, seq!['d', 'a', 'y']) {
                            None => None,
                            Some((day, i6)) => match parse_lit(
                                s,
                                i6,
                                seq!['a', 'r', 't', 'i', 'c', 'l', 'e', 's', '='],
                            ) {
                                None => None,
                                Some(i7) => match deser_articles(s, i7) {
                                    None => None,
                                    Some((articles, i8)) => if i8 == s.len()
                                        && -0x8000_0000 <= year < 0x8000_0000 && month < 256
                                        && day < 256 {
                                        Some(
                                            NewsletterV {
                                                title,
                                                subtitle,
                                                category,
                                                date: crate::date::Date {
                                                    year: year as i32,
                                                    month: month as u8,
                                                    day: day as u8,
                                                },
                                                articles,
                                            },
                                        )
                                    } else {
                                        None
                                    },
                                },
                            },
                        },
                    },
                },
            },
        },
    }
}

/// Every character of a decimal rendering is a digit.
pub proof fn lemma_dec_digits(n: nat)
    ensures
        all_digits(dec_spec(n)),
    decreases n,
{
    if n >= 10 {
        lemma_dec_digits(n / 10);
        assert forall|k: int| 0 <= k < dec_spec(n).len() implies is_digit(
            #[trigger] dec_spec(n)[k],
        ) by {
            if k < dec_spec(n / 10).len() {
                assert(dec_spec(n)[k] == dec_spec(n / 10)[k]);
            } else {
                assert(dec_spec(n)[k] == digit_char((n % 10) as int));
            }
        }
    }
}

/// A decimal rendering is never empty.
pub proof fn lemma_dec_nonempty(n: nat)
    ensures
        dec_spec(n).len() >= 1,
{
    if n >= 10 {
    }
}

/// The value of the decimal rendering of `n` is `n`.
pub proof fn lemma_dec_value(n: nat)
    ensures
        value_of(dec_spec(n)) == n,
    decreases n,
{
    assert(value_of(Seq::<char>::empty()) == 0);
    if n < 10 {
        assert(dec_spec(n).drop_last() =~= Seq::<char>::empty());
        assert(value_of(dec_spec(n)) == value_of(Seq::<char>::empty()) * 10 + n);
    } else {
        lemma_dec_value(n / 10);
        assert(dec_spec(n).drop_last() =~= dec_spec(n / 10));
        assert(dec_spec(n).last() == digit_char((n % 10) as int));
    }
}

/// A digit sequence of length `l` holds a value below `pow10(l)`.
pub proof fn lemma_value_bound(d: Seq<char>)
    ensures
        value_of(d) < pow10(d.len() as nat),
    decreases d.len(),
{
    if d.len() > 0 {
        lemma_value_bound(d.drop_last());
        let v = value_of(d.drop_last());
        let p = pow10((d.len() - 1) as nat);
        assert(v * 10 + 9 < 10 * p) by (nonlinear_arith)
            requires
                v < p,
        ;
    }
}

/// A number below `pow10(k)` renders in at most `k` digits.
pub proof fn lemma_dec_len(n: nat, k: nat)
    requires
        n < pow10(k),
        k >= 1,
    ensures
        dec_spec(n).len() <= k,
    decreases n,
{
    if n >= 10 {
        let p = pow10((k - 1) as nat);
        assert(pow10(k) == 10 * p);
        assert(n == 10 * (n / 10) + n % 10);
        assert(n / 10 < p) by (nonlinear_arith)
            requires
                10 * (n / 10) + n % 10 < 10 * p,
                0 <= n % 10 < 10,
                n / 10 >= 0,
        ;
        lemma_dec_len(n / 10, (k - 1) as nat);
    }
}

/// Digits carry no escape or terminator character, so escaping a digit
/// sequence leaves it unchanged.
pub proof fn lemma_esc_digits(d: Seq<char>)
    requires
        all_digits(d),
    ensures
        esc_spec(d) == d,
    decreases d.len(),
{
    if d.len() > 0 {
        assert(is_digit(d[0]));
        assert forall|k: int| 0 <= k < d.drop_first().len() implies is_digit(
            #[trigger] d.drop_first()[k],
        ) by {
            assert(d.drop_first()[k] == d[k + 1]);
        }
        lemma_esc_digits(d.drop_first());
        assert(esc_spec(d) =~= d);
    }
}

/// Splitting a suffix: when the tail of `s` from `i` is `a + b`, the tail
/// from `i + a.len()` is `b`.
pub proof fn lemma_suffix_split(s: Seq<char>, i: int, a: Seq<char>, b: Seq<char>)
    requires
        0 <= i <= s.len(),
        s.subrange(i, s.len() as int) == a + b,
    ensures
        s.subrange(i + a.len(), s.len() as int) == b,
{
    assert(s.subrange(i, s.len() as int).len() == s.len() - i);
    assert forall|k: int| 0 <= k < b.len() implies s.subrange(i + a.len(), s.len() as int)[k]
        == b[k] by {
        assert(s.subrange(i, s.len() as int)[a.len() + k] == s[i + a.len() + k]);
        assert(s.subrange(i + a.len(), s.len() as int)[k] == s[i + a.len() + k]);
    }
    assert(s.subrange(i + a.len(), s.len() as int) =~= b);
}

/// Reading a token from the escaped form of `v` followed by `;` yields
/// `v` and stops right after the terminator.
pub proof fn lemma_parse_tok(s: Seq<char>, i: int, v: Seq<char>, rest: Seq<char>)
    requires
        0 <= i <= s.len(),
        s.subrange(i, s.len() as int) == esc_spec(v) + seq![';'] + rest,
    ensures
        parse_tok(s, i) == Some((v, i + esc_spec(v).len() + 1)),
    decreases v.len(),
{
    let suf = s.subrange(i, s.len() as int);
    assert(suf.len() == s.len() - i);
    if v.len() == 0 {
        assert(suf[0] == s[i]);
        assert(s[i] == ';');
    } else {
        let c = v[0];
        let v2 = v.drop_first();
        assert(esc_spec(v) == esc_char(c) + esc_spec(v2));
        if c == '%' || c == ';' {
            assert(suf[0] == s[i]);
            assert(suf[1] == s[i + 1]);
            assert(s[i] == '%');
            assert(s[i + 1] == c);
            assert(s.subrange(i, s.len() as int) =~= esc_char(c) + (esc_spec(v2) + seq![';']
                + rest));
            lemma_suffix_split(s, i, esc_char(c), esc_spec(v2) + seq![';'] + rest);
            lemma_parse_tok(s, i + 2, v2, rest);
            assert(seq![s[i + 1]] + v2 =~= v);
        } else {
            assert(suf[0] == s[i]);
            assert(s[i] == c);
            assert(s.subrange(i, s.len() as int) =~= esc_char(c) + (esc_spec(v2) + seq![';']
                + rest));
            lemma_suffix_split(s, i, esc_char(c), esc_spec(v2) + seq![';'] + rest);
            lemma_parse_tok(s, i + 1, v2, rest);
            assert(seq![s[i]] + v2 =~= v);
        }
    }
}

/// A literal standing at `i` is recognized there.
pub proof fn lemma_parse_lit(s: Seq<char>, i: int, lit: Seq<char>, rest: Seq<char>)
    requires
        0 <= i <= s.len(),
        s.subrange(i, s.len() as int) == lit + rest,
    ensures
        parse_lit(s, i, lit) == Some(i + lit.len()),
{
    assert(s.subrange(i, s.len() as int).len() == s.len() - i);
    assert(s.subrange(i, i + lit.len()) =~= lit);
}

/// Reading a serialized string field yields its text and stops after it.
pub proof fn lemma_deser_str_field(
    s: Seq<char>,
    i: int,
    name: Seq<char>,
    v: Seq<char>,
    rest: Seq<char>,
)
    requires
        0 <= i <= s.len(),
        s.subrange(i, s.len() as int) == ser_str_field(name, v) + rest,
    ensures
        deser_str_field(s, i, name) == Some((v, i + ser_str_field(name, v).len())),
{
    let nm = name + seq!['='];
    assert(s.subrange(i, s.len() as int).len() == s.len() - i);
    assert(s.subrange(i, s.len() as int) =~= nm + (esc_spec(v) + seq![';'] + rest));
    lemma_parse_lit(s, i, nm, esc_spec(v) + seq![';'] + rest);
    lemma_suffix_split(s, i, nm, esc_spec(v) + seq![';'] + rest);
    lemma_parse_tok(s, i + nm.len(), v, rest);
}

/// Reading a serialized unsigned numeric field yields its value.
pub proof fn lemma_deser_num_field(s: Seq<char>, i: int, name: Seq<char>, n: nat, rest: Seq<char>)
    requires
        0 <= i <= s.len(),
        n < pow10(10),
        s.subrange(i, s.len() as int) == ser_num_field(name, n) + rest,
    ensures
        deser_num_field(s, i, name) == Some((n, i + ser_num_field(name, n).len())),
{
    lemma_dec_digits(n);
    lemma_dec_value(n);
    lemma_dec_nonempty(n);
    lemma_dec_len(n, 10);
    lemma_esc_digits(dec_spec(n));
    let nm = name + seq!['='];
    assert(s.subrange(i, s.len() as int).len() == s.len() - i);
    assert(s.subrange(i, s.len() as int) =~= nm + (dec_spec(n) + seq![';'] + rest));
    lemma_parse_lit(s, i, nm, dec_spec(n) + seq![';'] + rest);
    lemma_suffix_split(s, i, nm, dec_spec(n) + seq![';'] + rest);
    lemma_parse_tok(s, i + nm.len(), dec_spec(n), rest);
}

/// Reading a serialized signed numeric field yields its value.
pub proof fn lemma_deser_int_field(s: Seq<char>, i: int, name: Seq<char>, n: int, rest: Seq<char>)
    requires
        0 <= i <= s.len(),
        -pow10(10) < n < pow10(10),
        s.subrange(i, s.len() as int) == ser_int_field(name, n) + rest,
    ensures
        deser_int_field(s, i, name) == Some((n, i + ser_int_field(name, n).len())),
{
    let nm = name + seq!['='];
    assert(s.subrange(i, s.len() as int).len() == s.len() - i);
    if n < 0 {
        let m = (-n) as nat;
        lemma_dec_digits(m);
        lemma_dec_value(m);
        lemma_dec_nonempty(m);
        lemma_dec_len(m, 10);
        lemma_esc_digits(dec_spec(m));
        let tok = seq!['-'] + dec_spec(m);
        assert(esc_spec(tok) =~= tok) by {
            assert(tok[0] == '-');
            assert(tok.drop_first() =~= dec_spec(m));
            assert(esc_spec(tok) == esc_char('-') + esc_spec(tok.drop_first()));
        }
        assert(s.subrange(i, s.len() as int) =~= nm + (esc_spec(tok) + seq![';'] + rest));
        lemma_parse_lit(s, i, nm, esc_spec(tok) + seq![';'] + rest);
        lemma_suffix_split(s, i, nm, esc_spec(tok) + seq![';'] + rest);
        lemma_parse_tok(s, i + nm.len(), tok, rest);
        assert(tok.drop_first() =~= dec_spec(m));
    } else {
        let m = n as nat;
        lemma_dec_digits(m);
        lemma_dec_value(m);
        lemma_dec_nonempty(m);
        lemma_dec_len(m, 10);
        lemma_esc_digits(dec_spec(m));
        assert(s.subrange(i, s.len() as int) =~= nm + (esc_spec(dec_spec(m)) + seq![';'] + rest));
        lemma_parse_lit(s, i, nm, esc_spec(dec_spec(m)) + seq![';'] + rest);
        lemma_suffix_split(s, i, nm, esc_spec(dec_spec(m)) + seq![';'] + rest);
        lemma_parse_tok(s, i + nm.len(), dec_spec(m), rest);
        assert(dec_spec(m)[0] != '-') by {
            lemma_dec_digits(m);
            assert(is_digit(dec_spec(m)[0]));
        }
    }
}

/// Reading the three serialized fields of an article yields it back.
pub proof fn lemma_deser_article(s: Seq<char>, i: int, a: ArticleV, rest: Seq<char>)
    requires
        0 <= i <= s.len(),
        s.subrange(i, s.len() as int) == ser_str_field(seq!['t', 'i', 't', 'l', 'e'], a.title)
            + ser_str_field(
            seq!['d', 'e', 's', 'c', 'r', 'i', 'p', 't', 'i', 'o', 'n'],
            a.description,
        ) + ser_str_field(seq!['u', 'r', 'l'], a.url) + rest,
    ensures
        deser_article(s, i) == Some(
            (
                a,
                i + ser_str_field(seq!['t', 'i', 't', 'l', 'e'], a.title).len() + ser_str_field(
                    seq!['d', 'e', 's', 'c', 'r', 'i', 'p', 't', 'i', 'o', 'n'],
                    a.description,
                ).len() + ser_str_field(seq!['u', 'r', 'l'], a.url).len(),
            ),
        ),
{
    let f1 = ser_str_field(seq!['t', 'i', 't', 'l', 'e'], a.title);
    let f2 = ser_str_field(seq!['d', 'e', 's', 'c', 'r', 'i', 'p', 't', 'i', 'o', 'n'], a.description);
    let f3 = ser_str_field(seq!['u', 'r', 'l'], a.url);
    assert(s.subrange(i, s.len() as int).len() == s.len() - i);
    assert(s.subrange(i, s.len() as int) =~= f1 + (f2 + f3 + rest));
    lemma_deser_str_field(s, i, seq!['t', 'i', 't', 'l', 'e'], a.title, f2 + f3 + rest);
    lemma_suffix_split(s, i, f1, f2 + f3 + rest);
    assert(s.subrange(i + f1.len(), s.len() as int) =~= f2 + (f3 + rest));
    lemma_deser_str_field(
        s,
        i + f1.len(),
        seq!['d', 'e', 's', 'c', 'r', 'i', 'p', 't', 'i', 'o', 'n'],
        a.description,
        f3 + rest,
    );
    lemma_suffix_split(s, i + f1.len(), f2, f3 + rest);
    assert(s.subrange(i + f1.len() + f2.len(), s.len() as int) =~= f3 + rest);
    lemma_deser_str_field(s, i + f1.len() + f2.len(), seq!['u', 'r', 'l'], a.url, rest);
    assert(a == (ArticleV { title: a.title, description: a.description, url: a.url }));
}

/// Reading the serialized article list from `k` on yields those articles.
pub proof fn lemma_deser_articles(
    s: Seq<char>,
    i: int,
    arts: Seq<ArticleV>,
    k: int,
    rest: Seq<char>,
)
    requires
        0 <= i <= s.len(),
        0 <= k <= arts.len(),
        s.subrange(i, s.len() as int) == ser_articles(arts, k) + rest,
    ensures
        deser_articles(s, i) == Some(
            (arts.subrange(k, arts.len() as int), i + ser_articles(arts, k).len()),
        ),
    decreases arts.len() - k,
{
    let suf = s.subrange(i, s.len() as int);
    assert(suf.len() == s.len() - i);
    let endlit = seq!['e', 'n', 'd', ';'];
    let taglit = seq!['a', 'r', 't', 'i', 'c', 'l', 'e', ';'];
    if k >= arts.len() {
        lemma_parse_lit(s, i, endlit, rest);
        assert(arts.subrange(k, arts.len() as int) =~= Seq::<ArticleV>::empty());
    } else {
        let a = arts[k];
        let f1 = ser_str_field(seq!['t', 'i', 't', 'l', 'e'], a.title);
        let f2 = ser_str_field(
            seq!['d', 'e', 's', 'c', 'r', 'i', 'p', 't', 'i', 'o', 'n'],
            a.description,
        );
        let f3 = ser_str_field(seq!['u', 'r', 'l'], a.url);
        let tail = ser_articles(arts, k + 1);
        assert(ser_articles(arts, k) == ser_article(a) + tail);
        assert(ser_article(a) == taglit + f1 + f2 + f3);
        assert(suf[0] == s[i]);
        assert(s[i] == 'a');
        assert(parse_lit(s, i, endlit) is None) by {
            if parse_lit(s, i, endlit) is Some {
                assert(s.subrange(i, i + 4) == endlit);
                assert(s.subrange(i, i + 4)[0] == s[i]);
                assert(s[i] == 'e');
            }
        }
        assert(s.subrange(i, s.len() as int) =~= taglit + (f1 + f2 + f3 + (tail + rest)));
        lemma_parse_lit(s, i, taglit, f1 + f2 + f3 + (tail + rest));
        lemma_suffix_split(s, i, taglit, f1 + f2 + f3 + (tail + rest));
        lemma_deser_article(s, i + 8, a, tail + rest);
        let j = i + 8 + f1.len() + f2.len() + f3.len();
        lemma_suffix_split(s, i + 8, f1 + f2 + f3, tail + rest);
        assert(s.subrange(j, s.len() as int) == tail + rest);
        lemma_deser_articles(s, j, arts, k + 1, rest);
        assert(seq![a] + arts.subrange(k + 1, arts.len() as int) =~= arts.subrange(
            k,
            arts.len() as int,
        ));
    }
}

/// Round trip: deserializing the serialized form of any newsletter value
/// yields that value back, field for field, date and article order
/// included.
#[verifier::rlimit(60)]
pub proof fn lemma_round_trip(v: NewsletterV)
    ensures
        deser_newsletter(ser_newsletter(v)) == Some(v),
{
    let s = ser_newsletter(v);
    assert(s.subrange(0, s.len() as int).len() == s.len());
    let f1 = ser_str_field(seq!['t', 'i', 't', 'l', 'e'], v.title);
    let f2 = ser_str_field(seq!['s', 'u', 'b', 't', 'i', 't', 'l', 'e'], v.subtitle);
    let f3 = ser_str_field(seq!['c', 'a', 't', 'e', 'g', 'o', 'r', 'y'], v.category);
    let f4 = ser_int_field(seq!['y', 'e', 'a', 'r'], v.date.year as int);
    let f5 = ser_num_field(seq!['m', 'o', 'n', 't', 'h'], v.date.month as nat);
    let f6 = ser_num_field(seq!['d', 'a', 'y'], v.date.day as nat);
    let lit7 = seq!['a', 'r', 't', 'i', 'c', 'l', 'e', 's', '='];
    let f8 = ser_articles(v.articles, 0);
    let r6 = lit7 + f8;
    let r5 = f6 + r6;
    let r4 = f5 + r5;
    let r3 = f4 + r4;
    let r2 = f3 + r3;
    let r1 = f2 + r2;
    assert(pow10(10) == 10000000000) by {
        reveal_with_fuel(pow10, 11);
    }
    assert(s.subrange(0, s.len() as int) =~= f1 + r1);
    lemma_deser_str_field(s, 0, seq!['t', 'i', 't', 'l', 'e'], v.title, r1);
    lemma_suffix_split(s, 0, f1, r1);
    let i1 = f1.len() as int;
    lemma_deser_str_field(s, i1, seq!['s', 'u', 'b', 't', 'i', 't', 'l', 'e'], v.subtitle, r2);
    lemma_suffix_split(s, i1, f2, r2);
    let i2 = i1 + f2.len();
    lemma_deser_str_field(s, i2, seq!['c', 'a', 't', 'e', 'g', 'o', 'r', 'y'], v.category, r3);
    lemma_suffix_split(s, i2, f3, r3);
    let i3 = i2 + f3.len();
    lemma_deser_int_field(s, i3, seq!['y', 'e', 'a', 'r'], v.date.year as int, r4);
    lemma_suffix_split(s, i3, f4, r4);
    let i4 = i3 + f4.len();
    lemma_deser_num_field(s, i4, seq!['m', 'o', 'n', 't', 'h'], v.date.month as nat, r5);
    lemma_suffix_split(s, i4, f5, r5);
    let i5 = i4 + f5.len();
    lemma_deser_num_field(s, i5, seq!['d', 'a', 'y'], v.date.day as nat, r6);
    lemma_suffix_split(s, i5, f6, r6);
    let i6 = i5 + f6.len();
    lemma_parse_lit(s, i6, lit7, f8);
    lemma_suffix_split(s, i6, lit7, f8);
    let i7 = i6 + lit7.len();
    assert(s.subrange(i7, s.len() as int) =~= f8 + Seq::<char>::empty());
    lemma_deser_articles(s, i7, v.articles, 0, Seq::<char>::empty());
    assert(v.articles.subrange(0, v.articles.len() as int) =~= v.articles);
    assert(i7 + f8.len() == s.len());
    assert((v.date.year as int) as i32 == v.date.year);
    assert(v == (NewsletterV {
        title: v.title,
        subtitle: v.subtitle,
        category: v.category,
        date: crate::date::Date { year: v.date.year, month: v.date.month, day: v.date.day },
        articles: v.articles,
    }));
}

/// Ten to a larger power is no smaller.
pub proof fn lemma_pow10_mono(a: nat, b: nat)
    requires
        a <= b,
    ensures
        pow10(a) <= pow10(b),
    decreases b,
{
    if a < b {
        lemma_pow10_mono(a, (b - 1) as nat);
    }
}

/// Relies on `String::push`: appends the given character to the end of
/// the string.
#[verifier::external_body]
fn push_char(out: &mut String, c: char)
    ensures
        final(out)@ == old(out)@ + seq![c],
{
    out.push(c);
}

/// Appends one decimal digit character.
fn push_digit(out: &mut String, d: u8)
    requires
        d < 10,
    ensures
        final(out)@ == old(out)@ + seq![digit_char(d as int)],
{
    let c: char = if d == 0 { '0' }
    else if d == 1 { '1' }
    else if d == 2 { '2' }
    else if d == 3 { '3' }
    else if d == 4 { '4' }
    else if d == 5 { '5' }
    else if d == 6 { '6' }
    else if d == 7 { '7' }
    else if d == 8 { '8' }
    else { '9' };
    push_char(out, c);
}

/// Appends the decimal rendering of `n`.
fn ser_num_exec(out: &mut String, n: u64)
    ensures
        final(out)@ == old(out)@ + dec_spec(n as nat),
    decreases n,
{
    if n < 10 {
        push_digit(out, n as u8);
    } else {
        ser_num_exec(out, n / 10);
        push_digit(out, (n % 10) as u8);
    }
}

/// Appends the escaped form of `v[k..]`.
fn ser_esc_from(out: &mut String, v: &str, k: usize)
    requires
        k <= v@.len(),
    ensures
        final(out)@ == old(out)@ + esc_spec(v@.subrange(k as int, v@.len() as int)),
    decreases v@.len() - k,
{
    let n = v.unicode_len();
    let ghost tail = v@.subrange(k as int, v@.len() as int);
    if k < n {
        let c = v.get_char(k);
        proof {
            assert(tail[0] == v@[k as int]);
            assert(tail.drop_first() =~= v@.subrange(k as int + 1, v@.len() as int));
        }
        if c == '%' || c == ';' {
            push_char(out, '%');
            push_char(out, c);
        } else {
            push_char(out, c);
        }
        ser_esc_from(out, v, k + 1);
        assert(out@ =~= old(out)@ + esc_spec(tail));
    } else {
        assert(tail =~= Seq::<char>::empty());
        assert(out@ =~= old(out)@ + esc_spec(tail));
    }
}

/// Appends a serialized string field: `lit` must be the name followed by
/// `=`.
fn ser_str_field_exec(out: &mut String, lit: &str, name: Ghost<Seq<char>>, v: &String)
    requires
        lit@ == name@ + seq!['='],
    ensures
        final(out)@ == old(out)@ + ser_str_field(name@, v@),
{
    out.append(lit);
    ser_esc_from(out, v.as_str(), 0);
    out.append(";");
    proof {
        reveal_strlit(";");
        assert(";"@ =~= seq![';']);
        assert(v@.subrange(0, v@.len() as int) =~= v@);
        assert(out@ =~= old(out)@ + ser_str_field(name@, v@));
    }
}

/// Appends a serialized unsigned numeric field.
fn ser_num_field_exec(out: &mut String, lit: &str, name: Ghost<Seq<char>>, n: u64)
    requires
        lit@ == name@ + seq!['='],
    ensures
        final(out)@ == old(out)@ + ser_num_field(name@, n as nat),
{
    out.append(lit);
    ser_num_exec(out, n);
    out.append(";");
    proof {
        reveal_strlit(";");
        assert(";"@ =~= seq![';']);
        assert(out@ =~= old(out)@ + ser_num_field(name@, n as nat));
    }
}

/// Appends a serialized signed numeric field.
fn ser_int_field_exec(out: &mut String, lit: &str, name: Ghost<Seq<char>>, n: i32)
    requires
        lit@ == name@ + seq!['='],
    ensures
        final(out)@ == old(out)@ + ser_int_field(name@, n as int),
{
    out.append(lit);
    if n < 0 {
        out.append("-");
        proof {
            reveal_strlit("-");
            assert("-"@ =~= seq!['-']);
        }
        let m: i64 = -(n as i64);
        ser_num_exec(out, m as u64);
    } else {
        ser_num_exec(out, n as u64);
    }
    out.append(";");
    proof {
        reveal_strlit(";");
        assert(";"@ =~= seq![';']);
        assert(out@ =~= old(out)@ + ser_int_field(name@, n as int));
    }
}

/// Appends the serialized articles `arts[i..]` and the closing `end;`.
fn ser_articles_exec(out: &mut String, arts: &Vec<Article>, i: usize)
    requires
        i <= arts@.len(),
    ensures
        final(out)@ == old(out)@ + ser_articles(articles_view(arts@), i as int),
    decreases arts@.len() - i,
{
    proof {
        assert(articles_view(arts@).len() == arts@.len());
    }
    if i == arts.len() {
        out.append("end;");
        proof {
            reveal_strlit("end;");
            assert("end;"@ =~= seq!['e', 'n', 'd', ';']);
            assert(out@ =~= old(out)@ + ser_articles(articles_view(arts@), i as int));
        }
    } else {
        proof {
            reveal_strlit("article;");
            reveal_strlit("title=");
            reveal_strlit("description=");
            reveal_strlit("url=");
            assert("article;"@ =~= seq!['a', 'r', 't', 'i', 'c', 'l', 'e', ';']);
            assert("title="@ =~= seq!['t', 'i', 't', 'l', 'e'] + seq!['=']);
            assert("description="@ =~= seq!['d', 'e', 's', 'c', 'r', 'i', 'p', 't', 'i', 'o',
                'n'] + seq!['=']);
            assert("url="@ =~= seq!['u', 'r', 'l'] + seq!['=']);
            assert(articles_view(arts@)[i as int] == arts@[i as int]@);
        }
        let ghost nm_title: Seq<char> = seq!['t', 'i', 't', 'l', 'e'];
        let ghost nm_desc: Seq<char> = seq!['d', 'e', 's', 'c', 'r', 'i', 'p', 't', 'i', 'o', 'n'];
        let ghost nm_url: Seq<char> = seq!['u', 'r', 'l'];
        out.append("article;");
        ser_str_field_exec(out, "title=", Ghost(nm_title), &arts[i].title);
        ser_str_field_exec(out, "description=", Ghost(nm_desc), &arts[i].description);
        ser_str_field_exec(out, "url=", Ghost(nm_url), &arts[i].url);
        ser_articles_exec(out, arts, i + 1);
        assert(out@ =~= old(out)@ + ser_articles(articles_view(arts@), i as int));
    }
}

/// Writes a newsletter record in the serialized form.
pub fn serialize_newsletter(n: &Newsletter) -> (r: String)
    ensures
        r@ == ser_newsletter(n@),
{
    proof {
        reveal_strlit("title=");
        reveal_strlit("subtitle=");
        reveal_strlit("category=");
        reveal_strlit("year=");
        reveal_strlit("month=");
        reveal_strlit("day=");
        reveal_strlit("articles=");
        assert("title="@ =~= seq!['t', 'i', 't', 'l', 'e'] + seq!['=']);
        assert("subtitle="@ =~= seq!['s', 'u', 'b', 't', 'i', 't', 'l', 'e'] + seq!['=']);
        assert("category="@ =~= seq!['c', 'a', 't', 'e', 'g', 'o', 'r', 'y'] + seq!['=']);
        assert("year="@ =~= seq!['y', 'e', 'a', 'r'] + seq!['=']);
        assert("month="@ =~= seq!['m', 'o', 'n', 't', 'h'] + seq!['=']);
        assert("day="@ =~= seq!['d', 'a', 'y'] + seq!['=']);
        assert("articles="@ =~= seq!['a', 'r', 't', 'i', 'c', 'l', 'e', 's', '=']);
    }
    let ghost nm_title: Seq<char> = seq!['t', 'i', 't', 'l', 'e'];
    let ghost nm_subtitle: Seq<char> = seq!['s', 'u', 'b', 't', 'i', 't', 'l', 'e'];
    let ghost nm_category: Seq<char> = seq!['c', 'a', 't', 'e', 'g', 'o', 'r', 'y'];
    let ghost nm_year: Seq<char> = seq!['y', 'e', 'a', 'r'];
    let ghost nm_month: Seq<char> = seq!['m', 'o', 'n', 't', 'h'];
    let ghost nm_day: Seq<char> = seq!['d', 'a', 'y'];
    let mut out = String::new();
    ser_str_field_exec(&mut out, "title=", Ghost(nm_title), &n.title);
    ser_str_field_exec(&mut out, "subtitle=", Ghost(nm_subtitle), &n.subtitle);
    ser_str_field_exec(&mut out, "category=", Ghost(nm_category), &n.category);
    ser_int_field_exec(&mut out, "year=", Ghost(nm_year), n.date.year);
    ser_num_field_exec(&mut out, "month=", Ghost(nm_month), n.date.month as u64);
    ser_num_field_exec(&mut out, "day=", Ghost(nm_day), n.date.day as u64);
    out.append("articles=");
    ser_articles_exec(&mut out, &n.articles, 0);
    assert(out@ =~= ser_newsletter(n@));
    out
}

/// Whether `lit` stands at position `i` of `s`.
fn parse_lit_exec(s: &str, i: usize, lit: &str) -> (r: Option<usize>)
    requires
        i <= s@.len(),
    ensures
        match r {
            Some(j) => parse_lit(s@, i as int, lit@) == Some(j as int) && i <= j <= s@.len(),
            None => parse_lit(s@, i as int, lit@) is None,
        },
{
    let n = lit.unicode_len();
    let sl = s.unicode_len();
    if n > sl - i {
        return None;
    }
    let mut k: usize = 0;
    while k < n
        invariant
            k <= n,
            n == lit@.len(),
            sl == s@.len(),
            i + n <= sl,
            forall|t: int| 0 <= t < k ==> s@[i + t] == lit@[t],
        decreases n - k,
    {
        if s.get_char(i + k) != lit.get_char(k) {
            proof {
                assert(!(s@.subrange(i as int, i + lit@.len()) =~= lit@)) by {
                    assert(s@.subrange(i as int, i + lit@.len())[k as int] == s@[i + k]);
                }
            }
            return None;
        }
        k += 1;
    }
    proof {
        assert(s@.subrange(i as int, i + lit@.len()) =~= lit@);
    }
    Some(i + n)
}

/// Reads an escaped text from position `i` up to its closing `;`.
fn parse_tok_exec(s: &str, i: usize) -> (r: Option<(String, usize)>)
    requires
        i <= s@.len(),
    ensures
        match r {
            Some(v) => parse_tok(s@, i as int) == Some((v.0@, v.1 as int)) && i < v.1 <= s@.len(),
            None => parse_tok(s@, i as int) is None,
        },
    decreases s@.len() - i,
{
    let sl = s.unicode_len();
    if i >= sl {
        return None;
    }
    let c = s.get_char(i);
    if c == ';' {
        Some((String::new(), i + 1))
    } else if c == '%' {
        if i + 1 >= sl {
            return None;
        }
        let d = s.get_char(i + 1);
        match parse_tok_exec(s, i + 2) {
            None => None,
            Some((v, j)) => {
                let mut w = String::new();
                push_char(&mut w, d);
                w.append(v.as_str());
                Some((w, j))
            }
        }
    } else {
        match parse_tok_exec(s, i + 1) {
            None => None,
            Some((v, j)) => {
                let mut w = String::new();
                push_char(&mut w, c);
                w.append(v.as_str());
                Some((w, j))
            }
        }
    }
}

/// The unsigned value of a raw token.
fn num_from_tok(t: &str) -> (r: Option<u64>)
    ensures
        match r {
            Some(v) => num_of_tok(t@) == Some(v as nat),
            None => num_of_tok(t@) is None,
        },
{
    let n = t.unicode_len();
    if n < 1 || n > 10 {
        return None;
    }
    proof {
        assert(pow10(10) == 10000000000) by {
            reveal_with_fuel(pow10, 11);
        }
    }
    let mut k: usize = 0;
    let mut acc: u64 = 0;
    while k < n
        invariant
            k <= n,
            1 <= n <= 10,
            n == t@.len(),
            pow10(10) == 10000000000,
            forall|j: int| 0 <= j < k ==> is_digit(#[trigger] t@[j]),
            acc == value_of(t@.subrange(0, k as int)),
            acc < pow10(k as nat),
        decreases n - k,
    {
        let c = t.get_char(k);
        if c < '0' || c > '9' {
            proof {
                assert(!all_digits(t@)) by {
                    assert(!is_digit(t@[k as int]));
                }
            }
            return None;
        }
        let d: u64 = ((c as u32) - ('0' as u32)) as u64;
        proof {
            lemma_pow10_mono(k as nat + 1, 10);
            assert(pow10(k as nat + 1) == 10 * pow10(k as nat));
            assert(acc * 10 + d < 10 * pow10(k as nat)) by (nonlinear_arith)
                requires
                    acc < pow10(k as nat),
                    d < 10,
            ;
        }
        let new_acc: u64 = acc * 10 + d;
        proof {
            let pre = t@.subrange(0, k as int + 1);
            assert(pre.drop_last() =~= t@.subrange(0, k as int));
            assert(pre.last() == t@[k as int]);
            assert(digit_val(t@[k as int]) == d);
        }
        acc = new_acc;
        k += 1;
    }
    proof {
        assert(t@.subrange(0, n as int) =~= t@);
    }
    Some(acc)
}

/// The signed value of a raw token.
fn int_from_tok(t: &str) -> (r: Option<i64>)
    ensures
        match r {
            Some(v) => int_of_tok(t@) == Some(v as int),
            None => int_of_tok(t@) is None,
        },
{
    let n = t.unicode_len();
    if n > 0 && t.get_char(0) == '-' {
        let rest = t.substring_char(1, n);
        proof {
            assert(rest@ =~= t@.drop_first());
        }
        match num_from_tok(rest) {
            None => None,
            Some(v) => {
                proof {
                    assert(pow10(10) == 10000000000) by {
                        reveal_with_fuel(pow10, 11);
                    }
                    if num_of_tok(rest@) is Some {
                        lemma_value_bound(rest@);
                        lemma_pow10_mono(rest@.len() as nat, 10);
                    }
                }
                Some(-(v as i64))
            }
        }
    } else {
        match num_from_tok(t) {
            None => None,
            Some(v) => {
                proof {
                    assert(pow10(10) == 10000000000) by {
                        reveal_with_fuel(pow10, 11);
                    }
                    if num_of_tok(t@) is Some {
                        lemma_value_bound(t@);
                        lemma_pow10_mono(t@.len() as nat, 10);
                    }
                }
                Some(v as i64)
            }
        }
    }
}

/// Reads one article's three fields from position `i`.
fn deser_article_exec(s: &str, i: usize) -> (r: Option<(Article, usize)>)
    requires
        i <= s@.len(),
    ensures
        match r {
            Some(v) => deser_article(s@, i as int) == Some((v.0@, v.1 as int)) && i < v.1
                <= s@.len(),
            None => deser_article(s@, i as int) is None,
        },
{
    proof {
        reveal_strlit("title=");
        reveal_strlit("description=");
        reveal_strlit("url=");
        assert("title="@ =~= seq!['t', 'i', 't', 'l', 'e'] + seq!['=']);
        assert("description="@ =~= seq!['d', 'e', 's', 'c', 'r', 'i', 'p', 't', 'i', 'o', 'n']
            + seq!['=']);
        assert("url="@ =~= seq!['u', 'r', 'l'] + seq!['=']);
    }
    let j0 = match parse_lit_exec(s, i, "title=") {
        Some(j) => j,
        None => {
            return None;
        }
    };
    let (title, j1) = match parse_tok_exec(s, j0) {
        Some(v) => v,
        None => {
            return None;
        }
    };
    let j2 = match parse_lit_exec(s, j1, "description=") {
        Some(j) => j,
        None => {
            return None;
        }
    };
    let (description, j3) = match parse_tok_exec(s, j2) {
        Some(v) => v,
        None => {
            return None;
        }
    };
    let j4 = match parse_lit_exec(s, j3, "url=") {
        Some(j) => j,
        None => {
            return None;
        }
    };
    let (url, j5) = match parse_tok_exec(s, j4) {
        Some(v) => v,
        None => {
            return None;
        }
    };
    Some((Article { title, description, url }, j5))
}

/// Reads the tagged article list from position `i`.
fn deser_articles_exec(s: &str, i: usize) -> (r: Option<(Vec<Article>, usize)>)
    requires
        i <= s@.len(),
    ensures
        match r {
            Some(v) => deser_articles(s@, i as int) == Some(
                (articles_view(v.0@), v.1 as int),
            ) && i <= v.1 <= s@.len(),
            None => deser_articles(s@, i as int) is None,
        },
    decreases s@.len() - i,
{
    proof {
        reveal_strlit("end;");
        reveal_strlit("article;");
        assert("end;"@ =~= seq!['e', 'n', 'd', ';']);
        assert("article;"@ =~= seq!['a', 'r', 't', 'i', 'c', 'l', 'e', ';']);
    }
    match parse_lit_exec(s, i, "end;") {
        Some(j) => {
            let empty: Vec<Article> = Vec::new();
            proof {
                assert(articles_view(empty@) =~= Seq::<ArticleV>::empty());
            }
            Some((empty, j))
        }
        None => {
            let j = match parse_lit_exec(s, i, "article;") {
                Some(j) => j,
                None => {
                    return None;
                }
            };
            let (a, k) = match deser_article_exec(s, j) {
                Some(v) => v,
                None => {
                    return None;
                }
            };
            match deser_articles_exec(s, k) {
                None => None,
                Some((rest, m)) => {
                    let ghost a_snap = a;
                    let ghost rest_seq = rest@;
                    let mut out: Vec<Article> = Vec::new();
                    out.push(a);
                    let mut rest_m = rest;
                    out.append(&mut rest_m);
                    proof {
                        assert(out@ =~= seq![a_snap] + rest_seq);
                        assert(articles_view(out@) =~= seq![a_snap@] + articles_view(rest_seq));
                    }
                    Some((out, m))
                }
            }
        }
    }
}

/// Reads a whole serialized newsletter, or `None` when the text is not
/// exactly the serialized form of one.
pub fn deserialize_newsletter(s: &str) -> (r: Option<Newsletter>)
    ensures
        match r {
            Some(n) => deser_newsletter(s@) == Some(n@),
            None => deser_newsletter(s@) is None,
        },
{
    proof {
        reveal_strlit("title=");
        reveal_strlit("subtitle=");
        reveal_strlit("category=");
        reveal_strlit("year=");
        reveal_strlit("month=");
        reveal_strlit("day=");
        reveal_strlit("articles=");
        assert("title="@ =~= seq!['t', 'i', 't', 'l', 'e'] + seq!['=']);
        assert("subtitle="@ =~= seq!['s', 'u', 'b', 't', 'i', 't', 'l', 'e'] + seq!['=']);
        assert("category="@ =~= seq!['c', 'a', 't', 'e', 'g', 'o', 'r', 'y'] + seq!['=']);
        assert("year="@ =~= seq!['y', 'e', 'a', 'r'] + seq!['=']);
        assert("month="@ =~= seq!['m', 'o', 'n', 't', 'h'] + seq!['=']);
        assert("day="@ =~= seq!['d', 'a', 'y'] + seq!['=']);
        assert("articles="@ =~= seq!['a', 'r', 't', 'i', 'c', 'l', 'e', 's', '=']);
    }
    let j0 = match parse_lit_exec(s, 0, "title=") {
        Some(j) => j,
        None => {
            return None;
        }
    };
    let (title, j1) = match parse_tok_exec(s, j0) {
        Some(v) => v,
        None => {
            return None;
        }
    };
    let j2 = match parse_lit_exec(s, j1, "subtitle=") {
        Some(j) => j,
        None => {
            return None;
        }
    };
    let (subtitle, j3) = match parse_tok_exec(s, j2) {
        Some(v) => v,
        None => {
            return None;
        }
    };
    let j4 = match parse_lit_exec(s, j3, "category=") {
        Some(j) => j,
        None => {
            return None;
        }
    };
    let (category, j5) = match parse_tok_exec(s, j4) {
        Some(v) => v,
        None => {
            return None;
        }
    };
    let j6 = match parse_lit_exec(s, j5, "year=") {
        Some(j) => j,
        None => {
            return None;
        }
    };
    let (year_tok, j7) = match parse_tok_exec(s, j6) {
        Some(v) => v,
        None => {
            return None;
        }
    };
    let year = match int_from_tok(year_tok.as_str()) {
        Some(v) => v,
        None => {
            return None;
        }
    };
    let j8 = match parse_lit_exec(s, j7, "month=") {
        Some(j) => j,
        None => {
            return None;
        }
    };
    let (month_tok, j9) = match parse_tok_exec(s, j8) {
        Some(v) => v,
        None => {
            return None;
        }
    };
    let month = match num_from_tok(month_tok.as_str()) {
        Some(v) => v,
        None => {
            return None;
        }
    };
    let j10 = match parse_lit_exec(s, j9, "day=") {
        Some(j) => j,
        None => {
            return None;
        }
    };
    let (day_tok, j11) = match parse_tok_exec(s, j10) {
        Some(v) => v,
        None => {
            return None;
        }
    };
    let day = match num_from_tok(day_tok.as_str()) {
        Some(v) => v,
        None => {
            return None;
        }
    };
    let j12 = match parse_lit_exec(s, j11, "articles=") {
        Some(j) => j,
        None => {
            return None;
        }
    };
    let (articles, j13) = match deser_articles_exec(s, j12) {
        Some(v) => v,
        None => {
            return None;
        }
    };
    let sl = s.unicode_len();
    if j13 != sl {
        return None;
    }
    if !(-2147483648 <= year && year < 2147483648) {
        return None;
    }
    if !(month < 256 && day < 256) {
        return None;
    }
    let date = crate::date::Date { year: year as i32, month: month as u8, day: day as u8 };
    Some(Newsletter { title, subtitle, category, date, articles })
}

} // verus!
