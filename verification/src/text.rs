//! Character-level ground work for the wire protocol: whitespace
//! tokenisation, separator splitting and decimal numerals, each as a spec
//! model with a verified executable counterpart and the inverse lemmas the
//! codec's round-trip argument rests on.

use vstd::prelude::*;
use vstd::string::*;

verus! {

/// The whitespace characters the protocol separates tokens with.
pub open spec fn is_ws(c: char) -> bool {
    c == ' ' || c == '\t' || c == '\r' || c == '\n'
}

/// No character of `t` is whitespace.
pub open spec fn no_ws(t: Seq<char>) -> bool {
    forall|i: int| 0 <= i < t.len() ==> !is_ws(#[trigger] t[i])
}

/// A well-formed wire token: non-empty and free of whitespace.
pub open spec fn wf_token(t: Seq<char>) -> bool {
    t.len() >= 1 && no_ws(t)
}

/// Whether `c` is protocol whitespace.
pub fn ws_char(c: char) -> (r: bool)
    ensures
        r == is_ws(c),
{
    c == ' ' || c == '\t' || c == '\r' || c == '\n'
}

/// The maximal whitespace-separated tokens of `s`, in order, defined one
/// character at a time: a non-whitespace character either opens a new token
/// (at the end of the text or before whitespace) or extends the token that
/// the rest of the text starts with.
pub open spec fn spec_tokenize(s: Seq<char>) -> Seq<Seq<char>>
    decreases s.len(),
{
    if s.len() == 0 {
        seq![]
    } else {
        let rest = spec_tokenize(s.drop_first());
        if is_ws(s[0]) {
            rest
        } else if s.len() == 1 || is_ws(s[1]) {
            seq![seq![s[0]]] + rest
        } else {
            seq![seq![s[0]] + rest[0]] + rest.drop_first()
        }
    }
}

/// The tokens joined back into one line with single spaces.
pub open spec fn join_tokens(ts: Seq<Seq<char>>) -> Seq<char>
    decreases ts.len(),
{
    if ts.len() == 0 {
        seq![]
    } else if ts.len() == 1 {
        ts[0]
    } else {
        ts[0] + seq![' '] + join_tokens(ts.drop_first())
    }
}

/// Prefixing a whitespace-free, non-empty token to a text that does not begin
/// inside a token inserts exactly that token in front.
pub proof fn lemma_tokenize_prepend(t: Seq<char>, s: Seq<char>)
    requires
        wf_token(t),
        s.len() == 0 || is_ws(s[0]),
    ensures
        spec_tokenize(t + s) == seq![t] + spec_tokenize(s),
    decreases t.len(),
{
    let w = t + s;
    assert(!is_ws(w[0]));
    if t.len() == 1 {
        if s.len() == 0 {
            assert(w.len() == 1);
            assert(spec_tokenize(w) == seq![seq![w[0]]] + spec_tokenize(w.drop_first()));
            assert(w.drop_first() =~= Seq::<char>::empty());
            assert(seq![w[0]] =~= t);
            assert(spec_tokenize(w) =~= seq![t] + spec_tokenize(s));
        } else {
            assert(w.len() >= 2 && is_ws(w[1]));
            assert(w.drop_first() =~= s);
            assert(seq![w[0]] =~= t);
            assert(spec_tokenize(w) =~= seq![t] + spec_tokenize(s));
        }
    } else {
        assert(!is_ws(w[1]));
        lemma_tokenize_prepend(t.drop_first(), s);
        assert(w.drop_first() =~= t.drop_first() + s);
        let rest = spec_tokenize(w.drop_first());
        assert(rest == seq![t.drop_first()] + spec_tokenize(s));
        assert(rest[0] == t.drop_first());
        assert(seq![w[0]] + rest[0] =~= t);
        assert(rest.drop_first() =~= spec_tokenize(s));
        assert(spec_tokenize(w) =~= seq![t] + spec_tokenize(s));
    }
}

/// Tokenising a line built by joining well-formed tokens with single spaces
/// recovers exactly those tokens.
pub proof fn lemma_tokenize_join(ts: Seq<Seq<char>>)
    requires
        forall|i: int| 0 <= i < ts.len() ==> wf_token(#[trigger] ts[i]),
    ensures
        spec_tokenize(join_tokens(ts)) == ts,
    decreases ts.len(),
{
    if ts.len() == 0 {
        assert(spec_tokenize(join_tokens(ts)) =~= ts);
    } else if ts.len() == 1 {
        lemma_tokenize_prepend(ts[0], Seq::<char>::empty());
        assert(ts[0] + Seq::<char>::empty() =~= ts[0]);
        assert(spec_tokenize(join_tokens(ts)) =~= ts);
    } else {
        lemma_tokenize_join(ts.drop_first());
        let tail = seq![' '] + join_tokens(ts.drop_first());
        lemma_tokenize_prepend(ts[0], tail);
        assert(join_tokens(ts) =~= ts[0] + tail);
        assert(spec_tokenize(tail) == spec_tokenize(tail.drop_first()));
        assert(tail.drop_first() =~= join_tokens(ts.drop_first()));
        assert(spec_tokenize(join_tokens(ts)) =~= ts);
    }
}

/// The pieces of `s` between occurrences of the separator `sep`, in order,
/// empty pieces kept; a text without the separator is one piece, so the
/// result is never empty.
pub open spec fn split_on(s: Seq<char>, sep: char) -> Seq<Seq<char>>
    decreases s.len(),
{
    if s.len() == 0 {
        seq![seq![]]
    } else {
        let rest = split_on(s.drop_first(), sep);
        if s[0] == sep {
            seq![seq![]] + rest
        } else {
            seq![seq![s[0]] + rest[0]] + rest.drop_first()
        }
    }
}

/// The pieces joined back with the separator between them; meaningful for a
/// non-empty piece list, matching `split_on`.
pub open spec fn join_with(ps: Seq<Seq<char>>, sep: char) -> Seq<char>
    decreases ps.len(),
{
    if ps.len() == 0 {
        seq![]
    } else if ps.len() == 1 {
        ps[0]
    } else {
        ps[0] + seq![sep] + join_with(ps.drop_first(), sep)
    }
}

/// `split_on` yields at least one piece, and none of its pieces contains the
/// separator.
pub proof fn lemma_split_on_wf(s: Seq<char>, sep: char)
    ensures
        split_on(s, sep).len() >= 1,
        forall|i: int, j: int|
            0 <= i < split_on(s, sep).len() && 0 <= j < split_on(s, sep)[i].len() ==> #[trigger] split_on(
                s,
                sep,
            )[i][j] != sep,
    decreases s.len(),
{
    if s.len() > 0 {
        lemma_split_on_wf(s.drop_first(), sep);
    }
}

/// Prefixing separator-free text to `s` extends the first piece of `s` by
/// that text.
pub proof fn lemma_split_on_prepend(p: Seq<char>, s: Seq<char>, sep: char)
    requires
        forall|i: int| 0 <= i < p.len() ==> #[trigger] p[i] != sep,
    ensures
        split_on(p + s, sep) == seq![p + split_on(s, sep)[0]] + split_on(s, sep).drop_first(),
    decreases p.len(),
{
    lemma_split_on_wf(s, sep);
    if p.len() == 0 {
        let r = split_on(s, sep);
        assert(p + s =~= s);
        assert(p + r[0] =~= r[0]);
        assert(seq![p + r[0]] + r.drop_first() =~= r);
    } else {
        let w = p + s;
        assert(w[0] != sep);
        lemma_split_on_prepend(p.drop_first(), s, sep);
        assert(w.drop_first() =~= p.drop_first() + s);
        let r = split_on(s, sep);
        let rest = split_on(w.drop_first(), sep);
        assert(rest == seq![p.drop_first() + r[0]] + r.drop_first());
        assert(seq![w[0]] + rest[0] =~= p + r[0]);
        assert(rest.drop_first() =~= r.drop_first());
        assert(split_on(w, sep) =~= seq![p + r[0]] + r.drop_first());
    }
}

/// Splitting a text built by joining separator-free pieces recovers exactly
/// those pieces.
pub proof fn lemma_split_join(ps: Seq<Seq<char>>, sep: char)
    requires
        ps.len() >= 1,
        forall|i: int, j: int|
            0 <= i < ps.len() && 0 <= j < ps[i].len() ==> #[trigger] ps[i][j] != sep,
    ensures
        split_on(join_with(ps, sep), sep) == ps,
    decreases ps.len(),
{
    if ps.len() == 1 {
        lemma_split_on_prepend(ps[0], Seq::<char>::empty(), sep);
        assert(ps[0] + Seq::<char>::empty() =~= ps[0]);
        assert(split_on(Seq::<char>::empty(), sep)[0] =~= Seq::<char>::empty());
        assert(ps[0] + split_on(Seq::<char>::empty(), sep)[0] =~= ps[0]);
        assert(split_on(join_with(ps, sep), sep) =~= ps);
    } else {
        lemma_split_join(ps.drop_first(), sep);
        let tail = seq![sep] + join_with(ps.drop_first(), sep);
        lemma_split_on_prepend(ps[0], tail, sep);
        assert(join_with(ps, sep) =~= ps[0] + tail);
        assert(tail.drop_first() =~= join_with(ps.drop_first(), sep));
        let rt = split_on(tail, sep);
        assert(rt == seq![seq![]] + split_on(tail.drop_first(), sep));
        assert(rt[0] =~= Seq::<char>::empty());
        assert(ps[0] + rt[0] =~= ps[0]);
        assert(rt.drop_first() =~= ps.drop_first());
        assert(split_on(join_with(ps, sep), sep) =~= ps);
    }
}

/// The index of the first occurrence of `c` in `s`, or the length of `s`
/// if it never occurs.
pub open spec fn first_at(s: Seq<char>, c: char) -> nat
    decreases s.len(),
{
    if s.len() == 0 {
        0
    } else if s[0] == c {
        0
    } else {
        1 + first_at(s.drop_first(), c)
    }
}

/// An index with `c`-free text before it that sits at `c` or at the end is
/// exactly `first_at`.
pub proof fn lemma_first_at_is(s: Seq<char>, c: char, k: int)
    requires
        0 <= k <= s.len(),
        forall|j: int| 0 <= j < k ==> #[trigger] s[j] != c,
        k == s.len() || s[k] == c,
    ensures
        first_at(s, c) == k,
    decreases s.len(),
{
    if s.len() > 0 && k > 0 {
        lemma_first_at_is(s.drop_first(), c, k - 1);
    }
}

/// An ASCII decimal digit.
pub open spec fn is_digit(c: char) -> bool {
    '0' <= c && c <= '9'
}

pub open spec fn all_digits(s: Seq<char>) -> bool {
    forall|i: int| 0 <= i < s.len() ==> is_digit(#[trigger] s[i])
}

pub open spec fn digit_val(c: char) -> nat {
    (c as nat - '0' as nat) as nat
}

pub open spec fn digit_char(d: nat) -> char {
    (('0' as u8) + (d as u8)) as char
}

/// The numeric value of a digit string, most significant digit first.
pub open spec fn digits_val(s: Seq<char>) -> nat
    decreases s.len(),
{
    if s.len() == 0 {
        0
    } else {
        digits_val(s.drop_last()) * 10 + digit_val(s.last())
    }
}

/// The canonical decimal numeral of `n`: no sign, no leading zero except for
/// zero itself.
pub open spec fn dec_digits(n: nat) -> Seq<char>
    decreases n,
{
    if n < 10 {
        seq![digit_char(n)]
    } else {
        dec_digits(n / 10) + seq![digit_char(n % 10)]
    }
}

/// What an unsigned-integer token means: a non-empty all-digit string whose
/// value fits, and nothing else.
pub open spec fn spec_parse_usize(s: Seq<char>) -> Option<usize> {
    if s.len() >= 1 && all_digits(s) && digits_val(s) <= usize::MAX {
        Some(digits_val(s) as usize)
    } else {
        None
    }
}

/// The canonical numeral of `n` is a well-formed all-digit token and reads
/// back as `n`.
pub proof fn lemma_dec_digits_val(n: nat)
    ensures
        dec_digits(n).len() >= 1,
        all_digits(dec_digits(n)),
        digits_val(dec_digits(n)) == n,
    decreases n,
{
    if n < 10 {
        assert((('0' as u8) + (n as u8)) as char as nat == ('0' as nat) + n);
        assert(is_digit(digit_char(n)));
        assert(digit_val(digit_char(n)) == n);
        assert(dec_digits(n) =~= seq![digit_char(n)]);
        assert(digits_val(dec_digits(n)) == digits_val(seq![digit_char(n)].drop_last()) * 10
            + digit_val(digit_char(n)));
        assert(seq![digit_char(n)].drop_last() =~= Seq::<char>::empty());
    } else {
        lemma_dec_digits_val(n / 10);
        let d = n % 10;
        assert((('0' as u8) + (d as u8)) as char as nat == ('0' as nat) + d);
        assert(is_digit(digit_char(d)));
        assert(digit_val(digit_char(d)) == d);
        let w = dec_digits(n);
        assert(w.drop_last() =~= dec_digits(n / 10));
        assert(w.last() == digit_char(d));
        assert(digits_val(w) == (n / 10) * 10 + d);
        assert((n / 10) * 10 + n % 10 == n) by (nonlinear_arith);
        assert forall|i: int| 0 <= i < w.len() implies is_digit(#[trigger] w[i]) by {
            if i < w.len() - 1 {
                assert(w[i] == dec_digits(n / 10)[i]);
            }
        }
    }
}

/// A digit string's value never shrinks when the string is extended: a
/// prefix's value bounds the whole from below.
pub proof fn lemma_digits_val_prefix(s: Seq<char>, i: int)
    requires
        0 <= i <= s.len(),
    ensures
        digits_val(s.take(i)) <= digits_val(s),
    decreases s.len() - i,
{
    if i < s.len() {
        lemma_digits_val_prefix(s, i + 1);
        let p = s.take(i + 1);
        assert(p.drop_last() =~= s.take(i));
        assert(digits_val(p) == digits_val(s.take(i)) * 10 + digit_val(p.last()));
        assert(digits_val(s.take(i)) * 10 >= digits_val(s.take(i))) by (nonlinear_arith);
    } else {
        assert(s.take(i) =~= s);
    }
}

/// The whitespace-separated tokens of `s`, as owned strings.
pub fn tokenize(s: &str) -> (r: Vec<String>)
    ensures
        r.deep_view() == spec_tokenize(s@),
{
    let n = s.unicode_len();
    let mut r: Vec<String> = Vec::new();
    let mut i: usize = 0;
    proof {
        assert(r.deep_view() =~~= Seq::<Seq<char>>::empty());
        assert(s@.skip(0) =~= s@);
    }
    while i < n
        invariant
            i <= n,
            n == s@.len(),
            spec_tokenize(s@) == r.deep_view() + spec_tokenize(s@.skip(i as int)),
        decreases n - i,
    {
        let c = s.get_char(i);
        if ws_char(c) {
            proof {
                let rem = s@.skip(i as int);
                assert(rem[0] == c);
                assert(rem.drop_first() =~= s@.skip(i as int + 1));
            }
            i = i + 1;
        } else {
            let mut j = i + 1;
            while j < n && !ws_char(s.get_char(j))
                invariant
                    i < j <= n,
                    n == s@.len(),
                    forall|k: int| i <= k < j ==> !is_ws(#[trigger] s@[k]),
                decreases n - j,
            {
                j = j + 1;
            }
            let tok = s.substring_char(i, j).to_owned();
            proof {
                let t = s@.subrange(i as int, j as int);
                let tail = s@.skip(j as int);
                assert(wf_token(t));
                assert(tail.len() == 0 || is_ws(tail[0]));
                lemma_tokenize_prepend(t, tail);
                assert(s@.skip(i as int) =~= t + tail);
                let dv = r.deep_view();
                assert(spec_tokenize(s@) == dv + (seq![t] + spec_tokenize(tail)));
                assert(dv + (seq![t] + spec_tokenize(tail)) =~= dv.push(t) + spec_tokenize(tail));
            }
            let ghost dv = r.deep_view();
            r.push(tok);
            proof {
                assert(r.deep_view() =~~= dv.push(tok@));
            }
            i = j;
        }
    }
    proof {
        assert(s@.skip(n as int) =~= Seq::<char>::empty());
        assert(r.deep_view() + spec_tokenize(Seq::<char>::empty()) =~~= r.deep_view());
    }
    r
}

/// The pieces of `s` between occurrences of `sep`, empty pieces kept, as
/// owned strings.
pub fn split_char(s: &str, sep: char) -> (r: Vec<String>)
    ensures
        r.deep_view() == split_on(s@, sep),
{
    let n = s.unicode_len();
    let mut r: Vec<String> = Vec::new();
    let mut i: usize = 0;
    proof {
        assert(r.deep_view() =~~= Seq::<Seq<char>>::empty());
        assert(s@.skip(0) =~= s@);
    }
    loop
        invariant
            i <= n,
            n == s@.len(),
            split_on(s@, sep) == r.deep_view() + split_on(s@.skip(i as int), sep),
        decreases n - i + 1,
    {
        let mut j = i;
        while j < n && s.get_char(j) != sep
            invariant
                i <= j <= n,
                n == s@.len(),
                forall|k: int| i <= k < j ==> #[trigger] s@[k] != sep,
            decreases n - j,
        {
            j = j + 1;
        }
        let piece = s.substring_char(i, j).to_owned();
        let ghost dv = r.deep_view();
        if j == n {
            proof {
                let p = s@.subrange(i as int, j as int);
                lemma_split_on_prepend(p, Seq::<char>::empty(), sep);
                assert(s@.skip(i as int) =~= p + Seq::<char>::empty());
                assert(p + split_on(Seq::<char>::empty(), sep)[0] =~= p);
                assert(split_on(s@.skip(i as int), sep) =~= seq![p]);
                assert(dv + seq![p] =~= dv.push(p));
            }
            r.push(piece);
            proof {
                assert(r.deep_view() =~~= dv.push(piece@));
            }
            return r;
        } else {
            proof {
                let p = s@.subrange(i as int, j as int);
                let tail = s@.skip(j as int);
                lemma_split_on_prepend(p, tail, sep);
                assert(s@.skip(i as int) =~= p + tail);
                assert(tail[0] == sep);
                assert(tail.drop_first() =~= s@.skip(j as int + 1));
                assert(p + split_on(tail, sep)[0] =~= p);
                assert(split_on(s@.skip(i as int), sep) =~= seq![p] + split_on(
                    s@.skip(j as int + 1),
                    sep,
                ));
                assert(dv + (seq![p] + split_on(s@.skip(j as int + 1), sep)) =~= dv.push(p)
                    + split_on(s@.skip(j as int + 1), sep));
            }
            r.push(piece);
            proof {
                assert(r.deep_view() =~~= dv.push(piece@));
            }
            i = j + 1;
        }
    }
}

/// Reads `s` as an unsigned decimal numeral; `None` on anything that is not
/// a non-empty digit string whose value fits in `usize`.
pub fn parse_usize(s: &str) -> (r: Option<usize>)
    ensures
        r == spec_parse_usize(s@),
{
    let n = s.unicode_len();
    if n == 0 {
        return None;
    }
    let mut acc: usize = 0;
    let mut i: usize = 0;
    proof {
        assert(s@.take(0) =~= Seq::<char>::empty());
    }
    while i < n
        invariant
            i <= n,
            n == s@.len(),
            all_digits(s@.take(i as int)),
            acc == digits_val(s@.take(i as int)),
        decreases n - i,
    {
        let c = s.get_char(i);
        if c < '0' || c > '9' {
            proof {
                assert(!is_digit(s@[i as int]));
            }
            return None;
        }
        let d: usize = ((c as u32) - ('0' as u32)) as usize;
        proof {
            assert(d == digit_val(c));
            assert(s@.take(i as int + 1).drop_last() =~= s@.take(i as int));
            assert(s@.take(i as int + 1).last() == c);
            assert(digits_val(s@.take(i as int + 1)) == acc * 10 + d);
        }
        if acc > (usize::MAX - d) / 10 {
            proof {
                let m = usize::MAX as nat;
                assert(acc * 10 + d > m) by (nonlinear_arith)
                    requires
                        acc > (m - d) / 10,
                        d <= 9,
                        acc >= 0,
                ;
                lemma_digits_val_prefix(s@, i as int + 1);
                assert(digits_val(s@) > m);
            }
            return None;
        }
        proof {
            let m = usize::MAX as nat;
            assert(acc * 10 + d <= m) by (nonlinear_arith)
                requires
                    acc <= (m - d) / 10,
                    d <= 9,
                    acc >= 0,
            ;
        }
        acc = acc * 10 + d;
        i = i + 1;
    }
    proof {
        assert(s@.take(n as int) =~= s@);
    }
    Some(acc)
}

/// Appending one more token extends the joined line by a space and that
/// token.
pub proof fn lemma_join_tokens_snoc(ts: Seq<Seq<char>>, t: Seq<char>)
    requires
        ts.len() >= 1,
    ensures
        join_tokens(ts.push(t)) == join_tokens(ts) + seq![' '] + t,
    decreases ts.len(),
{
    if ts.len() == 1 {
        let w = ts.push(t);
        assert(w.drop_first() =~= seq![t]);
        assert(join_tokens(w) == w[0] + seq![' '] + join_tokens(w.drop_first()));
        assert(join_tokens(ts.push(t)) =~= join_tokens(ts) + seq![' '] + t);
    } else {
        lemma_join_tokens_snoc(ts.drop_first(), t);
        let w = ts.push(t);
        assert(w.drop_first() =~= ts.drop_first().push(t));
        assert(join_tokens(w) == w[0] + seq![' '] + join_tokens(ts.drop_first().push(t)));
        assert(join_tokens(ts.push(t)) =~= join_tokens(ts) + seq![' '] + t);
    }
}

/// Appending one more piece extends the joined text by the separator and
/// that piece.
pub proof fn lemma_join_with_snoc(ps: Seq<Seq<char>>, p: Seq<char>, sep: char)
    requires
        ps.len() >= 1,
    ensures
        join_with(ps.push(p), sep) == join_with(ps, sep) + seq![sep] + p,
    decreases ps.len(),
{
    if ps.len() == 1 {
        let w = ps.push(p);
        assert(w.drop_first() =~= seq![p]);
        assert(join_with(w, sep) == w[0] + seq![sep] + join_with(w.drop_first(), sep));
        assert(join_with(ps.push(p), sep) =~= join_with(ps, sep) + seq![sep] + p);
    } else {
        lemma_join_with_snoc(ps.drop_first(), p, sep);
        let w = ps.push(p);
        assert(w.drop_first() =~= ps.drop_first().push(p));
        assert(join_with(w, sep) == w[0] + seq![sep] + join_with(ps.drop_first().push(p), sep));
        assert(join_with(ps.push(p), sep) =~= join_with(ps, sep) + seq![sep] + p);
    }
}

/// Decimal digits are never whitespace and never a separator drawn from
/// outside their range.
pub proof fn lemma_digits_no_ws(s: Seq<char>)
    requires
        all_digits(s),
    ensures
        no_ws(s),
        forall|i: int| 0 <= i < s.len() ==> #[trigger] s[i] != '|',
{
    assert forall|i: int| 0 <= i < s.len() implies !is_ws(#[trigger] s[i]) && s[i] != '|' by {
        assert(is_digit(s[i]));
    }
}

/// Joining whitespace-free pieces with a non-whitespace separator yields a
/// whitespace-free text at least as long as its first piece.
pub proof fn lemma_join_with_no_ws(ps: Seq<Seq<char>>, sep: char)
    requires
        !is_ws(sep),
        forall|i: int| 0 <= i < ps.len() ==> no_ws(#[trigger] ps[i]),
        ps.len() >= 1,
    ensures
        no_ws(join_with(ps, sep)),
        join_with(ps, sep).len() >= ps[0].len(),
    decreases ps.len(),
{
    if ps.len() == 1 {
    } else {
        lemma_join_with_no_ws(ps.drop_first(), sep);
        let w = ps[0] + seq![sep] + join_with(ps.drop_first(), sep);
        assert(join_with(ps, sep) == w);
        assert forall|i: int| 0 <= i < w.len() implies !is_ws(#[trigger] w[i]) by {
            if i < ps[0].len() {
                assert(w[i] == ps[0][i]);
            } else if i == ps[0].len() {
                assert(w[i] == sep);
            } else {
                assert(w[i] == join_with(ps.drop_first(), sep)[i - ps[0].len() - 1]);
            }
        }
    }
}

/// Whether the string `a` spells exactly the text `b`.
pub fn str_eq(a: &String, b: &str) -> (r: bool)
    ensures
        r == (a@ == b@),
{
    let bs = String::from_str(b);
    *a == bs
}

/// Relies on `String::push`: appends exactly the one given character.
#[verifier::external_body]
pub fn push_char(s: &mut String, c: char)
    ensures
        final(s)@ == old(s)@.push(c),
{
    s.push(c);
}

/// The canonical decimal numeral of `n`, as executable text.
pub fn format_usize(n: usize) -> (r: String)
    ensures
        r@ == dec_digits(n as nat),
    decreases n,
{
    let d: u8 = (n % 10) as u8;
    let zero: u8 = '0' as u8;
    let c: char = (zero + d) as char;
    proof {
        assert(digit_char((n % 10) as nat) == c);
    }
    if n < 10 {
        let mut r = String::new();
        push_char(&mut r, c);
        proof {
            assert(r@ =~= dec_digits(n as nat));
        }
        r
    } else {
        let mut r = format_usize(n / 10);
        push_char(&mut r, c);
        proof {
            assert(r@ =~= dec_digits(n as nat));
        }
        r
    }
}

} // verus!
