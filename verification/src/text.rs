//! Lexical layer of the wire protocol: blanks, tokens, line ends, decimals.

use vstd::prelude::*;

verus! {

pub const TAB: u8 = 9;

pub const LF: u8 = 10;

pub const CR: u8 = 13;

pub const SPACE: u8 = 32;

pub const DIGIT_ZERO: u8 = 48;

/// A blank separates the fields of a header: a space or a horizontal tab.
pub open spec fn is_blank(b: u8) -> bool {
    b == 32 || b == 9
}

/// A byte that may stand inside a field: no blank, no CR, no LF.
pub open spec fn is_field_byte(b: u8) -> bool {
    b != 32 && b != 9 && b != 13 && b != 10
}

/// A field of a header: not empty, made of field bytes only.
pub open spec fn is_field(s: Seq<u8>) -> bool {
    s.len() > 0 && forall|i: int| 0 <= i < s.len() ==> is_field_byte(#[trigger] s[i])
}

/// Free text to the end of a line: it holds no CR and no LF and does not begin with a blank.
pub open spec fn is_line_text(s: Seq<u8>) -> bool {
    &&& forall|i: int| 0 <= i < s.len() ==> #[trigger] s[i] != 13 && s[i] != 10
    &&& s.len() > 0 ==> !is_blank(s[0])
}

/// No byte of `s` is a CR or an LF.
pub open spec fn no_line_end(s: Seq<u8>) -> bool {
    forall|i: int| 0 <= i < s.len() ==> #[trigger] s[i] != 13 && s[i] != 10
}

/// Length of the run of non-blank bytes at the start of `s`.
pub open spec fn token_len(s: Seq<u8>) -> nat
    decreases s.len(),
{
    if s.len() == 0 || is_blank(s[0]) {
        0
    } else {
        1 + token_len(s.skip(1))
    }
}

/// `s` without the blanks it begins with.
pub open spec fn drop_blanks(s: Seq<u8>) -> Seq<u8>
    decreases s.len(),
{
    if s.len() > 0 && is_blank(s[0]) {
        drop_blanks(s.skip(1))
    } else {
        s
    }
}

/// The maximal runs of non-blank bytes of `s`, in order.
pub open spec fn tokens(s: Seq<u8>) -> Seq<Seq<u8>>
    decreases s.len(),
    via tokens_decreases
{
    if s.len() == 0 {
        Seq::empty()
    } else if is_blank(s[0]) {
        tokens(s.skip(1))
    } else {
        let n = token_len(s) as int;
        seq![s.take(n)] + tokens(s.skip(n))
    }
}

#[via_fn]
proof fn tokens_decreases(s: Seq<u8>) {
    if s.len() > 0 && !is_blank(s[0]) {
        lemma_token_len_bounds(s);
    }
}

/// A token is no longer than the text it begins, and not empty where the text begins
/// with a byte that is no blank.
pub proof fn lemma_token_len_bounds(s: Seq<u8>)
    ensures
        token_len(s) <= s.len(),
        s.len() > 0 && !is_blank(s[0]) ==> token_len(s) >= 1,
    decreases s.len(),
{
    if s.len() > 0 && !is_blank(s[0]) {
        lemma_token_len_bounds(s.skip(1));
    }
}

/// What follows the first token of `s` and the blanks after it.
pub open spec fn after_first_token(s: Seq<u8>) -> Seq<u8> {
    let t = drop_blanks(s);
    drop_blanks(t.skip(token_len(t) as int))
}

/// The views of a vector of byte vectors.
pub open spec fn views(v: Seq<Vec<u8>>) -> Seq<Seq<u8>> {
    Seq::new(v.len(), |i: int| v[i]@)
}

/// Whether a CR LF pair stands at `i`.
pub open spec fn crlf_at(s: Seq<u8>, i: int) -> bool {
    0 <= i && i + 1 < s.len() && s[i] == 13 && s[i + 1] == 10
}

/// Index of the first CR LF pair of `s` at or after `from`.
pub open spec fn first_crlf_from(s: Seq<u8>, from: int) -> Option<int>
    decreases s.len() - from,
{
    if from < 0 || from + 1 >= s.len() {
        None
    } else if crlf_at(s, from) {
        Some(from)
    } else {
        first_crlf_from(s, from + 1)
    }
}

/// Index of the first CR LF pair of `s`.
pub open spec fn first_crlf(s: Seq<u8>) -> Option<int> {
    first_crlf_from(s, 0)
}

/// An ASCII digit.
pub open spec fn is_digit(b: u8) -> bool {
    48 <= b <= 57
}

/// A run of digits that is not empty.
pub open spec fn is_decimal(s: Seq<u8>) -> bool {
    s.len() > 0 && forall|i: int| 0 <= i < s.len() ==> is_digit(#[trigger] s[i])
}

/// The number that a run of decimal digits denotes.
pub open spec fn decimal_value(s: Seq<u8>) -> nat
    decreases s.len(),
{
    if s.len() == 0 {
        0
    } else {
        decimal_value(s.drop_last()) * 10 + (s.last() - 48) as nat
    }
}

/// The decimal digits of `n`, without leading zeros.
pub open spec fn decimal_digits(n: nat) -> Seq<u8>
    decreases n,
{
    if n < 10 {
        seq![(48 + n) as u8]
    } else {
        decimal_digits(n / 10).push((48 + n % 10) as u8)
    }
}

/// The number that a field denotes, where it is a decimal that fits the machine word.
pub open spec fn parse_decimal_spec(s: Seq<u8>) -> Option<usize> {
    if is_decimal(s) && decimal_value(s) <= usize::MAX {
        Some(decimal_value(s) as usize)
    } else {
        None
    }
}

/// The digits of a number are a decimal, a field, and denote that number.
pub proof fn lemma_decimal_digits(n: nat)
    ensures
        is_decimal(decimal_digits(n)),
        is_field(decimal_digits(n)),
        decimal_value(decimal_digits(n)) == n,
    decreases n,
{
    let d = decimal_digits(n);
    if n >= 10 {
        lemma_decimal_digits(n / 10);
        assert(d.drop_last() =~= decimal_digits(n / 10));
        assert(d.last() == (48 + n % 10) as u8);
        assert(decimal_value(d) == decimal_value(d.drop_last()) * 10 + (d.last() - 48) as nat);
    } else {
        assert(d.drop_last() =~= Seq::<u8>::empty());
        assert(d.last() == (48 + n) as u8);
        assert(decimal_value(d.drop_last()) == 0);
        assert(decimal_value(d) == decimal_value(d.drop_last()) * 10 + (d.last() - 48) as nat);
    }
}

/// The first digits of a decimal denote no more than all of them.
pub proof fn lemma_decimal_prefix(s: Seq<u8>, i: int)
    requires
        0 <= i <= s.len(),
    ensures
        decimal_value(s.take(i)) <= decimal_value(s),
    decreases s.len(),
{
    if i < s.len() {
        lemma_decimal_prefix(s.drop_last(), i);
        assert(s.drop_last().take(i) =~= s.take(i));
    } else {
        assert(s.take(i) =~= s);
    }
}

/// Token of a header that begins with a field and goes on with a blank, or ends there.
pub proof fn lemma_token_len_field(t: Seq<u8>, rest: Seq<u8>)
    requires
        forall|i: int| 0 <= i < t.len() ==> !is_blank(#[trigger] t[i]),
        rest.len() == 0 || is_blank(rest[0]),
    ensures
        token_len(t + rest) == t.len(),
    decreases t.len(),
{
    if t.len() > 0 {
        assert((t + rest).skip(1) =~= t.skip(1) + rest);
        lemma_token_len_field(t.skip(1), rest);
    } else {
        assert(t + rest =~= rest);
    }
}

/// A field, one tab and more text split into the field and the tokens of that text.
pub proof fn lemma_tokens_cons(t: Seq<u8>, rest: Seq<u8>)
    requires
        is_field(t),
    ensures
        tokens(t + seq![9u8] + rest) == seq![t] + tokens(rest),
        tokens(t) == seq![t],
{
    let tail = seq![9u8] + rest;
    let s = t + tail;
    assert(s =~= t + seq![9u8] + rest);
    assert(!is_blank(t[0]));
    lemma_token_len_field(t, tail);
    assert(s.take(t.len() as int) =~= t);
    assert(s.skip(t.len() as int) =~= tail);
    assert(tail.skip(1) =~= rest);
    assert(is_blank(tail[0]));
    assert(tokens(tail) == tokens(rest));
    assert(s[0] == t[0]);
    assert(tokens(s) == seq![s.take(token_len(s) as int)] + tokens(s.skip(token_len(s) as int)));
    let e = Seq::<u8>::empty();
    lemma_token_len_field(t, e);
    assert(t + e =~= t);
    assert(t.take(t.len() as int) =~= t);
    assert(t.skip(t.len() as int) =~= e);
    assert(tokens(e) =~= Seq::<Seq<u8>>::empty());
    assert(tokens(t) == seq![t.take(token_len(t) as int)] + tokens(t.skip(token_len(t) as int)));
    assert(tokens(t) =~= seq![t]);
}

/// After a field and one tab, line text is what follows the first token.
pub proof fn lemma_after_first_token(t: Seq<u8>, text: Seq<u8>)
    requires
        is_field(t),
        text.len() == 0 || !is_blank(text[0]),
    ensures
        after_first_token(t + seq![9u8] + text) == text,
        after_first_token(t) == Seq::<u8>::empty(),
{
    let tail = seq![9u8] + text;
    let s = t + tail;
    assert(s =~= t + seq![9u8] + text);
    assert(!is_blank(t[0]));
    lemma_token_len_field(t, tail);
    assert(s.skip(t.len() as int) =~= tail);
    assert(tail.skip(1) =~= text);
    assert(is_blank(tail[0]));
    assert(s[0] == t[0]);
    assert(drop_blanks(s) == s);
    assert(drop_blanks(text) == text);
    assert(drop_blanks(tail) == drop_blanks(tail.skip(1)));
    let e = Seq::<u8>::empty();
    lemma_token_len_field(t, e);
    assert(t + e =~= t);
    assert(t.skip(t.len() as int) =~= e);
    assert(drop_blanks(t) == t);
    assert(drop_blanks(e) == e);
}

/// A header without CR, then CR LF: the first line end is where the header ends.
pub proof fn lemma_first_crlf(head: Seq<u8>, rest: Seq<u8>, from: int)
    requires
        forall|i: int| 0 <= i < head.len() ==> #[trigger] head[i] != 13,
        0 <= from <= head.len(),
    ensures
        first_crlf_from(head + seq![13u8, 10u8] + rest, from) == Some(head.len() as int),
    decreases head.len() - from,
{
    let s = head + seq![13u8, 10u8] + rest;
    if from < head.len() {
        assert(s[from] == head[from]);
        lemma_first_crlf(head, rest, from + 1);
    } else {
        assert(s[from] == 13u8);
        assert(s[from + 1] == 10u8);
    }
}

/// Whether `b` is a blank.
pub fn is_blank_byte(b: u8) -> (r: bool)
    ensures
        r == is_blank(b),
{
    b == SPACE || b == TAB
}

/// Whether two byte strings are equal.
pub fn bytes_eq(a: &[u8], b: &[u8]) -> (r: bool)
    ensures
        r == (a@ == b@),
{
    if a.len() != b.len() {
        return false;
    }
    let mut i: usize = 0;
    while i < a.len()
        invariant
            i <= a.len(),
            a.len() == b.len(),
            forall|j: int| 0 <= j < i ==> a@[j] == b@[j],
        decreases a.len() - i,
    {
        if a[i] != b[i] {
            return false;
        }
        i += 1;
    }
    assert(a@ =~= b@);
    true
}

/// Splits the first `end` bytes of `line` into its tokens.
pub fn split_tokens(line: &[u8], end: usize) -> (r: Vec<Vec<u8>>)
    requires
        end <= line@.len(),
    ensures
        views(r@) == tokens(line@.take(end as int)),
{
    let ghost s = line@.take(end as int);
    let mut out: Vec<Vec<u8>> = Vec::new();
    let mut i: usize = 0;
    assert(s.skip(0) =~= s);
    assert(views(out@) =~= Seq::<Seq<u8>>::empty());
    while i < end
        invariant
            i <= end,
            end <= line@.len(),
            s == line@.take(end as int),
            tokens(s) == views(out@) + tokens(s.skip(i as int)),
        decreases end - i,
    {
        if is_blank_byte(line[i]) {
            assert(s.skip(i as int).skip(1) =~= s.skip(i + 1));
            i += 1;
        } else {
            let start: usize = i;
            let mut tok: Vec<u8> = Vec::new();
            while i < end && !is_blank_byte(line[i])
                invariant
                    start <= i <= end,
                    end <= line@.len(),
                    s == line@.take(end as int),
                    tok@ == s.subrange(start as int, i as int),
                    token_len(s.skip(start as int)) == (i - start) + token_len(s.skip(i as int)),
                decreases end - i,
            {
                assert(s.skip(i as int).skip(1) =~= s.skip(i + 1));
                tok.push(line[i]);
                assert(tok@ =~= s.subrange(start as int, i + 1));
                i += 1;
            }
            proof {
                let u = s.skip(start as int);
                assert(token_len(s.skip(i as int)) == 0);
                assert(u.take((i - start) as int) =~= tok@);
                assert(u.skip((i - start) as int) =~= s.skip(i as int));
                assert(views(out@.push(tok)) =~= views(out@) + seq![tok@]);
            }
            out.push(tok);
        }
    }
    assert(s.skip(end as int) =~= Seq::<u8>::empty());
    out
}

/// Finds the first CR LF pair of `buf`.
pub fn find_crlf(buf: &[u8]) -> (r: Option<usize>)
    ensures
        match r {
            Some(i) => first_crlf(buf@) == Some(i as int) && i + 1 < buf@.len(),
            None => first_crlf(buf@) is None,
        },
{
    let mut i: usize = 0;
    while i < buf.len() && i + 1 < buf.len()
        invariant
            first_crlf(buf@) == first_crlf_from(buf@, i as int),
        decreases buf.len() - i,
    {
        if buf[i] == CR && buf[i + 1] == LF {
            return Some(i);
        }
        i += 1;
    }
    None
}

/// Reads a field as a decimal number.
pub fn parse_decimal(s: &[u8]) -> (r: Option<usize>)
    ensures
        r == parse_decimal_spec(s@),
{
    if s.len() == 0 {
        return None;
    }
    let mut acc: usize = 0;
    let mut i: usize = 0;
    assert(s@.take(0) =~= Seq::<u8>::empty());
    while i < s.len()
        invariant
            i <= s.len(),
            forall|j: int| 0 <= j < i ==> is_digit(#[trigger] s@[j]),
            acc == decimal_value(s@.take(i as int)),
        decreases s.len() - i,
    {
        let b: u8 = s[i];
        if b < DIGIT_ZERO || b > 57 {
            return None;
        }
        let d: usize = (b - DIGIT_ZERO) as usize;
        proof {
            assert(s@.take(i + 1).drop_last() =~= s@.take(i as int));
            lemma_decimal_prefix(s@, i + 1);
        }
        if acc > (usize::MAX - d) / 10 {
            return None;
        }
        acc = acc * 10 + d;
        i += 1;
    }
    assert(s@.take(s.len() as int) =~= s@);
    Some(acc)
}

/// Appends the decimal digits of `n` to `out`.
pub fn push_decimal(out: &mut Vec<u8>, n: usize)
    ensures
        final(out)@ == old(out)@ + decimal_digits(n as nat),
    decreases n,
{
    if n >= 10 {
        push_decimal(out, n / 10);
    }
    let d: u8 = (n % 10) as u8;
    out.push(DIGIT_ZERO + d);
    assert(out@ =~= old(out)@ + decimal_digits(n as nat));
}

/// Appends the bytes of `src` to `out`.
pub fn push_all(out: &mut Vec<u8>, src: &[u8])
    ensures
        final(out)@ == old(out)@ + src@,
{
    let mut i: usize = 0;
    while i < src.len()
        invariant
            i <= src.len(),
            out@ == old(out)@ + src@.take(i as int),
        decreases src.len() - i,
    {
        out.push(src[i]);
        assert(out@ =~= old(out)@ + src@.take(i + 1));
        i += 1;
    }
    assert(src@.take(src.len() as int) =~= src@);
}

/// No byte of a token is a blank.
pub proof fn lemma_token_bytes(s: Seq<u8>, i: int)
    requires
        0 <= i < token_len(s),
    ensures
        i < s.len(),
        !is_blank(s[i]),
    decreases s.len(),
{
    if i > 0 {
        lemma_token_bytes(s.skip(1), i - 1);
    }
}

/// The tokens of a text without CR and LF are fields.
pub proof fn lemma_tokens_are_fields(s: Seq<u8>)
    requires
        no_line_end(s),
    ensures
        forall|i: int| 0 <= i < tokens(s).len() ==> is_field(#[trigger] tokens(s)[i]),
    decreases s.len(),
{
    if s.len() == 0 {
        assert(tokens(s).len() == 0);
    } else if is_blank(s[0]) {
        let r = s.skip(1);
        assert forall|k: int| 0 <= k < r.len() implies #[trigger] r[k] != 13 && r[k] != 10 by {
            assert(r[k] == s[k + 1]);
        }
        lemma_tokens_are_fields(r);
        assert(tokens(s) == tokens(r));
    } else {
        lemma_token_len_bounds(s);
        let n = token_len(s) as int;
        let first = s.take(n);
        let r = s.skip(n);
        assert forall|k: int| 0 <= k < first.len() implies is_field_byte(#[trigger] first[k]) by {
            lemma_token_bytes(s, k);
            assert(first[k] == s[k]);
        }
        assert(is_field(first));
        assert forall|k: int| 0 <= k < r.len() implies #[trigger] r[k] != 13 && r[k] != 10 by {
            assert(r[k] == s[k + n]);
        }
        lemma_tokens_are_fields(r);
        let t = tokens(s);
        assert(t == seq![first] + tokens(r));
        assert forall|i: int| 0 <= i < t.len() implies is_field(#[trigger] t[i]) by {
            if i > 0 {
                assert(t[i] == tokens(r)[i - 1]);
            }
        }
    }
}

/// A text without CR and LF, once its leading blanks are dropped, is line text.
pub proof fn lemma_drop_blanks_text(s: Seq<u8>)
    requires
        no_line_end(s),
    ensures
        is_line_text(drop_blanks(s)),
        no_line_end(drop_blanks(s)),
    decreases s.len(),
{
    if s.len() > 0 && is_blank(s[0]) {
        let r = s.skip(1);
        assert forall|k: int| 0 <= k < r.len() implies #[trigger] r[k] != 13 && r[k] != 10 by {
            assert(r[k] == s[k + 1]);
        }
        lemma_drop_blanks_text(r);
    }
}

/// In a header without CR and LF, what follows the first token is line text.
pub proof fn lemma_after_first_token_text(s: Seq<u8>)
    requires
        no_line_end(s),
    ensures
        is_line_text(after_first_token(s)),
{
    lemma_drop_blanks_text(s);
    let t = drop_blanks(s);
    lemma_token_len_bounds(t);
    let n = token_len(t) as int;
    let r = t.skip(n);
    assert forall|k: int| 0 <= k < r.len() implies #[trigger] r[k] != 13 && r[k] != 10 by {
        assert(r[k] == t[k + n]);
    }
    lemma_drop_blanks_text(r);
}

/// Whether one of the first `end` bytes of `line` is a CR or an LF.
pub fn has_line_end(line: &[u8], end: usize) -> (r: bool)
    requires
        end <= line@.len(),
    ensures
        r == !no_line_end(line@.take(end as int)),
{
    let ghost s = line@.take(end as int);
    let mut i: usize = 0;
    while i < end
        invariant
            i <= end,
            end <= line@.len(),
            s == line@.take(end as int),
            forall|j: int| 0 <= j < i ==> #[trigger] s[j] != 13 && s[j] != 10,
        decreases end - i,
    {
        if line[i] == CR || line[i] == LF {
            assert(s[i as int] == 13 || s[i as int] == 10);
            return true;
        }
        i += 1;
    }
    false
}

} // verus!
