use crate::expression::{Expr, Expression};
use crate::failure::{Expected, FailureView, ParseFailure, Reason, ReasonView, Span};
use crate::grammar::{
    byte_offset, in_class, missing_close, operand_start, operators, run, run_end, spec_addend,
    spec_addend_rest, spec_call, spec_factor, spec_number, spec_parse, spec_term, spec_term_rest,
    unexpected, CharClass, Parsed,
};
use crate::numeral::{
    all_digits, is_digit, is_numeral, is_unsigned_numeral, rational_from_numeral,
};
use vstd::prelude::*;
use vstd::utf8::{encode_scalar, encode_utf8};

verus! {

/// What one rule returns: the tree and the position after it and after the
/// whitespace that follows it, or a failure located by characters.
pub type Step = Result<(Box<Expression>, usize), ParseFailure>;

/// What a parse step returned, as the grammar states it.
pub open spec fn parsed_view(r: Step) -> Parsed {
    match r {
        Ok((e, q)) => Ok(((*e)@, q as int)),
        Err(f) => Err(f@),
    }
}

/// Whether a successful step moved past `p` and stayed within a line of `n`
/// characters, and a failure lies within that line.
pub open spec fn advances(r: Step, p: int, n: int) -> bool {
    match r {
        Ok((_, q)) => p < q <= n,
        Err(f) => within(f@, n),
    }
}

/// Whether the spans of `f` lie within a line of `n` characters.
pub open spec fn within(f: FailureView, n: int) -> bool {
    &&& f.span.start <= f.span.end <= n
    &&& f.reason matches ReasonView::Unclosed { span, .. } ==> span.start <= span.end <= n
}

fn class_contains(c: char, k: CharClass) -> (r: bool)
    ensures
        r == in_class(c, k),
{
    match k {
        CharClass::Space => c == ' ' || c == '\t' || c == '\n' || c == '\r' || c == '\x0B' || c
            == '\x0C',
        CharClass::Digit => '0' <= c && c <= '9',
        CharClass::Letter => 'a' <= c && c <= 'z',
    }
}

/// The end of the run of class `k` that starts at `p`.
fn scan(cs: &Vec<char>, p: usize, k: CharClass) -> (r: usize)
    requires
        p <= cs.len(),
    ensures
        r == run_end(cs@, p as int, k),
        p <= r <= cs.len(),
        forall|j: int| p <= j < r ==> in_class(#[trigger] cs@[j], k),
        r < cs.len() ==> !in_class(cs@[r as int], k),
{
    let mut i: usize = p;
    while i < cs.len() && class_contains(cs[i], k)
        invariant
            p <= i <= cs.len(),
            run_end(cs@, p as int, k) == i + run(cs@.subrange(i as int, cs.len() as int), k),
            forall|j: int| p <= j < i ==> in_class(#[trigger] cs@[j], k),
        decreases cs.len() - i,
    {
        assert(cs@.subrange(i as int, cs.len() as int).drop_first() =~= cs@.subrange(
            i + 1,
            cs.len() as int,
        ));
        i = i + 1;
    }
    i
}

fn expected_one(e: Expected) -> (v: Vec<Expected>)
    ensures
        v@ == seq![e],
{
    let mut v = Vec::new();
    v.push(e);
    v
}

fn operators_then(extra: &Vec<Expected>) -> (v: Vec<Expected>)
    ensures
        v@ == operators() + extra@,
{
    let mut v = Vec::new();
    v.push(Expected::Char('*'));
    v.push(Expected::Char('/'));
    v.push(Expected::Char('+'));
    v.push(Expected::Char('-'));
    let mut i: usize = 0;
    while i < extra.len()
        invariant
            i <= extra.len(),
            v@ == operators() + extra@.subrange(0, i as int),
        decreases extra.len() - i,
    {
        v.push(extra[i]);
        assert(operators() + extra@.subrange(0, i + 1) =~= (operators() + extra@.subrange(
            0,
            i as int,
        )).push(extra@[i as int]));
        i = i + 1;
    }
    assert(extra@.subrange(0, i as int) =~= extra@);
    v
}

fn operand_start_vec() -> (v: Vec<Expected>)
    ensures
        v@ == operand_start(),
{
    let mut v = Vec::new();
    v.push(Expected::Letter);
    v.push(Expected::Digit);
    v.push(Expected::Char('-'));
    v.push(Expected::Char('@'));
    v.push(Expected::Char('('));
    v
}

/// The failure at `q`, where none of `expected` was found.
fn unexpected_at(cs: &Vec<char>, q: usize, expected: Vec<Expected>) -> (f: ParseFailure)
    requires
        q <= cs.len(),
    ensures
        f@ == unexpected(cs@, q as int, expected@),
        within(f@, cs.len() as int),
{
    let end = if q < cs.len() { q + 1 } else { q };
    let found = if q < cs.len() { Some(cs[q]) } else { None };
    ParseFailure { span: Span { start: q, end }, label: None, reason: Reason::Unexpected, expected, found }
}

/// The failure at `q`, where the `(` at `open` should have been closed.
fn missing_close_at(cs: &Vec<char>, q: usize, open: usize, comma: bool) -> (f: ParseFailure)
    requires
        q <= cs.len(),
        open < cs.len(),
    ensures
        f@ == missing_close(cs@, q as int, open as int, comma),
        within(f@, cs.len() as int),
{
    let mut extra = Vec::new();
    if comma {
        extra.push(Expected::Char(','));
    }
    extra.push(Expected::Char(')'));
    let expected = operators_then(&extra);
    proof {
        if comma {
            assert(extra@ =~= seq![Expected::Char(','), Expected::Char(')')]);
        } else {
            assert(extra@ =~= seq![Expected::Char(')')]);
        }
    }
    if q < cs.len() {
        unexpected_at(cs, q, expected)
    } else {
        ParseFailure {
            span: Span { start: q, end: q },
            label: None,
            reason: Reason::Unclosed { span: Span { start: open, end: open + 1 }, delimiter: '(' },
            expected,
            found: None,
        }
    }
}

/// A numeral at `q`.
fn parse_number(line: &str, cs: &Vec<char>, q: usize) -> (r: Step)
    requires
        cs@ == line@,
        q < cs.len(),
    ensures
        parsed_view(r) == spec_number(cs@, q as int),
        advances(r, q as int, cs.len() as int),
{
    let a = if cs[q] == '-' { q + 1 } else { q };
    if !(a < cs.len() && '0' <= cs[a] && cs[a] <= '9') {
        return Err(unexpected_at(cs, a, expected_one(Expected::Digit)));
    }
    let d = scan(cs, a, CharClass::Digit);
    let e = if d < cs.len() && cs[d] == '.' {
        if d + 1 < cs.len() && '0' <= cs[d + 1] && cs[d + 1] <= '9' {
            scan(cs, d + 1, CharClass::Digit)
        } else {
            return Err(unexpected_at(cs, d + 1, expected_one(Expected::Digit)));
        }
    } else {
        d
    };
    let ghost s = cs@.subrange(q as int, e as int);
    proof {
        let u = if s.len() > 0 && s[0] == '-' { s.drop_first() } else { s };
        assert(u =~= cs@.subrange(a as int, e as int));
        assert(d > a);
        if e == d {
            assert forall|j: int| 0 <= j < u.len() implies is_digit(#[trigger] u[j]) by {
                assert(in_class(cs@[a + j], CharClass::Digit));
            }
            assert(all_digits(u));
            assert(is_unsigned_numeral(u));
        } else {
            let k = d - a;
            assert(u.subrange(0, k) =~= cs@.subrange(a as int, d as int));
            assert(u.subrange(k + 1, u.len() as int) =~= cs@.subrange(d + 1, e as int));
            assert forall|j: int| 0 <= j < k implies is_digit(#[trigger] u.subrange(0, k)[j]) by {
                assert(in_class(cs@[a + j], CharClass::Digit));
            }
            assert forall|j: int| 0 <= j < u.len() - k - 1 implies is_digit(
                #[trigger] u.subrange(k + 1, u.len() as int)[j],
            ) by {
                assert(in_class(cs@[d + 1 + j], CharClass::Digit));
            }
            assert(e > d + 1);
            assert(0 < k < u.len() - 1 && u[k] == '.');
            assert(all_digits(u.subrange(0, k)));
            assert(all_digits(u.subrange(k + 1, u.len() as int)));
            assert(is_unsigned_numeral(u));
        }
        assert(is_numeral(s));
    }
    let value = rational_from_numeral(line.substring_char(q, e));
    let next = scan(cs, e, CharClass::Space);
    Ok((Box::new(Expression::Rational(value)), next))
}

/// A call at `q`, where the line has `@`.
#[verifier::rlimit(60)]
fn parse_call(line: &str, cs: &Vec<char>, q: usize) -> (r: Step)
    requires
        cs@ == line@,
        q < cs.len(),
        cs@[q as int] == '@',
    ensures
        parsed_view(r) == spec_call(cs@, q as int),
        advances(r, q as int, cs.len() as int),
    decreases cs.len() - q, 0int,
{
    let i = scan(cs, q + 1, CharClass::Space);
    if !(i < cs.len() && 'a' <= cs[i] && cs[i] <= 'z') {
        return Err(unexpected_at(cs, i, expected_one(Expected::Letter)));
    }
    let e = scan(cs, i, CharClass::Letter);
    let o = scan(cs, e, CharClass::Space);
    if !(o < cs.len() && cs[o] == '(') {
        return Err(unexpected_at(cs, o, expected_one(Expected::Char('('))));
    }
    let (a1, r) = match parse_addend(line, cs, o + 1) {
        Err(f) => return Err(f),
        Ok(x) => x,
    };
    let mut arguments: Vec<Box<Expression>> = Vec::new();
    arguments.push(a1);
    if r < cs.len() && cs[r] == ')' {
        let next = scan(cs, r + 1, CharClass::Space);
        let call = Expression::Call { name: line.substring_char(i, e).to_owned(), arguments };
        proof {
            assert(call@->arguments =~= seq![(*arguments@[0])@]);
        }
        return Ok((Box::new(call), next));
    }
    if !(r < cs.len() && cs[r] == ',') {
        return Err(missing_close_at(cs, r, o, true));
    }
    let (a2, r2) = match parse_addend(line, cs, r + 1) {
        Err(f) => return Err(f),
        Ok(x) => x,
    };
    if !(r2 < cs.len() && cs[r2] == ')') {
        return Err(missing_close_at(cs, r2, o, false));
    }
    arguments.push(a2);
    let next = scan(cs, r2 + 1, CharClass::Space);
    let call = Expression::Call { name: line.substring_char(i, e).to_owned(), arguments };
    proof {
        assert(call@->arguments =~= seq![(*arguments@[0])@, (*arguments@[1])@]);
    }
    Ok((Box::new(call), next))
}

/// An operand at `p`.
fn parse_factor(line: &str, cs: &Vec<char>, p: usize) -> (r: Step)
    requires
        cs@ == line@,
        p <= cs.len(),
    ensures
        parsed_view(r) == spec_factor(cs@, p as int),
        advances(r, p as int, cs.len() as int),
    decreases cs.len() - p, 1int,
{
    let q = scan(cs, p, CharClass::Space);
    if !(q < cs.len()) {
        return Err(unexpected_at(cs, q, operand_start_vec()));
    }
    let c = cs[q];
    if 'a' <= c && c <= 'z' {
        let e = scan(cs, q, CharClass::Letter);
        let next = scan(cs, e, CharClass::Space);
        Ok((Box::new(Expression::Variable(line.substring_char(q, e).to_owned())), next))
    } else if ('0' <= c && c <= '9') || c == '-' {
        parse_number(line, cs, q)
    } else if c == '@' {
        parse_call(line, cs, q)
    } else if c == '(' {
        let (x, r) = match parse_addend(line, cs, q + 1) {
            Err(f) => return Err(f),
            Ok(x) => x,
        };
        if r < cs.len() && cs[r] == ')' {
            let next = scan(cs, r + 1, CharClass::Space);
            Ok((x, next))
        } else {
            Err(missing_close_at(cs, r, q, false))
        }
    } else {
        Err(unexpected_at(cs, q, operand_start_vec()))
    }
}

/// Folds `*` and `/` operands onto `acc` from `q` on.
fn parse_term_rest(line: &str, cs: &Vec<char>, q: usize, acc: Box<Expression>) -> (r: Step)
    requires
        cs@ == line@,
        q <= cs.len(),
    ensures
        parsed_view(r) == spec_term_rest(cs@, q as int, (*acc)@),
        match r {
            Ok((_, s)) => q <= s <= cs.len(),
            Err(f) => within(f@, cs.len() as int),
        },
    decreases cs.len() - q, 2int,
{
    if q < cs.len() && (cs[q] == '*' || cs[q] == '/') {
        let (y, s) = match parse_factor(line, cs, q + 1) {
            Err(f) => return Err(f),
            Ok(x) => x,
        };
        let node = if cs[q] == '*' { Expression::Mul(acc, y) } else { Expression::Div(acc, y) };
        parse_term_rest(line, cs, s, Box::new(node))
    } else {
        Ok((acc, q))
    }
}

/// A product at `p`.
fn parse_term(line: &str, cs: &Vec<char>, p: usize) -> (r: Step)
    requires
        cs@ == line@,
        p <= cs.len(),
    ensures
        parsed_view(r) == spec_term(cs@, p as int),
        advances(r, p as int, cs.len() as int),
    decreases cs.len() - p, 3int,
{
    let (x, q) = match parse_factor(line, cs, p) {
        Err(f) => return Err(f),
        Ok(x) => x,
    };
    parse_term_rest(line, cs, q, x)
}

/// Folds `+` and `-` products onto `acc` from `q` on.
fn parse_addend_rest(line: &str, cs: &Vec<char>, q: usize, acc: Box<Expression>) -> (r: Step)
    requires
        cs@ == line@,
        q <= cs.len(),
    ensures
        parsed_view(r) == spec_addend_rest(cs@, q as int, (*acc)@),
        match r {
            Ok((_, s)) => q <= s <= cs.len(),
            Err(f) => within(f@, cs.len() as int),
        },
    decreases cs.len() - q, 4int,
{
    if q < cs.len() && (cs[q] == '+' || cs[q] == '-') {
        let (y, s) = match parse_term(line, cs, q + 1) {
            Err(f) => return Err(f),
            Ok(x) => x,
        };
        let node = if cs[q] == '+' { Expression::Add(acc, y) } else { Expression::Sub(acc, y) };
        parse_addend_rest(line, cs, s, Box::new(node))
    } else {
        Ok((acc, q))
    }
}

/// A sum at `p`.
fn parse_addend(line: &str, cs: &Vec<char>, p: usize) -> (r: Step)
    requires
        cs@ == line@,
        p <= cs.len(),
    ensures
        parsed_view(r) == spec_addend(cs@, p as int),
        advances(r, p as int, cs.len() as int),
    decreases cs.len() - p, 5int,
{
    let (x, q) = match parse_term(line, cs, p) {
        Err(f) => return Err(f),
        Ok(x) => x,
    };
    parse_addend_rest(line, cs, q, x)
}

/// The characters of `line`, in order.
fn chars_of(line: &str) -> (cs: Vec<char>)
    ensures
        cs@ == line@,
{
    let n = line.unicode_len();
    let mut cs: Vec<char> = Vec::new();
    let mut i: usize = 0;
    while i < n
        invariant
            n == line@.len(),
            i <= n,
            cs@ == line@.subrange(0, i as int),
        decreases n - i,
    {
        cs.push(line.get_char(i));
        assert(cs@ =~= line@.subrange(0, i + 1));
        i = i + 1;
    }
    assert(cs@ =~= line@);
    cs
}

proof fn lemma_encode_concat(a: Seq<char>, b: Seq<char>)
    ensures
        encode_utf8(a + b) == encode_utf8(a) + encode_utf8(b),
    decreases a.len(),
{
    if a.len() == 0 {
        assert(a + b =~= b);
        assert(encode_utf8(a) + encode_utf8(b) =~= encode_utf8(b));
    } else {
        assert((a + b).drop_first() =~= a.drop_first() + b);
        lemma_encode_concat(a.drop_first(), b);
        assert(encode_utf8(a + b) =~= encode_utf8(a) + encode_utf8(b));
    }
}

/// The number of bytes that UTF-8 takes for `c`.
fn utf8_width(c: char) -> (w: usize)
    ensures
        w == encode_scalar(c as u32).len(),
{
    let v = c as u32;
    if v <= 0x7F {
        1
    } else if v <= 0x7FF {
        2
    } else if v <= 0xFFFF && !(0xD800 <= v && v <= 0xDFFF) {
        3
    } else {
        4
    }
}

/// The byte offset of every character position of `line`, its end included.
fn byte_offsets(line: &str, cs: &Vec<char>) -> (offsets: Vec<usize>)
    requires
        cs@ == line@,
    ensures
        offsets.len() == cs.len() + 1,
        forall|i: int| 0 <= i <= cs.len() ==> offsets@[i] == byte_offset(cs@, i),
{
    let total_len = line.as_bytes().len();
    let mut offsets: Vec<usize> = Vec::new();
    let mut total: usize = 0;
    offsets.push(0);
    assert(cs@.subrange(0, 0) =~= Seq::<char>::empty());
    let mut i: usize = 0;
    while i < cs.len()
        invariant
            total_len == encode_utf8(cs@).len(),
            i <= cs.len(),
            offsets.len() == i + 1,
            total == byte_offset(cs@, i as int),
            forall|j: int| 0 <= j <= i ==> offsets@[j] == byte_offset(cs@, j),
        decreases cs.len() - i,
    {
        let w = utf8_width(cs[i]);
        proof {
            let c = cs@[i as int];
            assert(cs@.subrange(0, i + 1) =~= cs@.subrange(0, i as int) + seq![c]);
            lemma_encode_concat(cs@.subrange(0, i as int), seq![c]);
            assert(seq![c].drop_first() =~= Seq::<char>::empty());
            assert(encode_utf8(Seq::<char>::empty()) =~= Seq::<u8>::empty());
            assert(encode_utf8(seq![c]) == encode_scalar(c as u32) + encode_utf8(
                Seq::<char>::empty(),
            ));
            assert(encode_utf8(seq![c]) =~= encode_scalar(c as u32));
            assert(cs@ =~= cs@.subrange(0, i + 1) + cs@.subrange(i + 1, cs.len() as int));
            lemma_encode_concat(cs@.subrange(0, i + 1), cs@.subrange(i + 1, cs.len() as int));
        }
        total = total + w;
        offsets.push(total);
        i = i + 1;
    }
    offsets
}

/// A span over characters, located by bytes through `offsets`.
fn relocate(offsets: &Vec<usize>, s: Span) -> (r: Span)
    requires
        s.start < offsets.len(),
        s.end < offsets.len(),
    ensures
        r == (Span { start: offsets@[s.start as int], end: offsets@[s.end as int] }),
{
    Span { start: offsets[s.start], end: offsets[s.end] }
}

/// Parses one line into an expression tree that covers all of it, or returns
/// the failure at the first point where the line leaves the grammar, with its
/// spans in bytes of the line.
pub fn parser(line: &str) -> (r: Result<Box<Expression>, Vec<ParseFailure>>)
    ensures
        r is Ok <==> spec_parse(line@) is Ok,
        r matches Ok(e) ==> spec_parse(line@) == Ok::<Expr, FailureView>((*e)@),
        r matches Err(fs) ==> fs@.len() == 1 && spec_parse(line@) == Err::<Expr, FailureView>(
            fs@[0]@,
        ),
{
    let cs = chars_of(line);
    let result = parse_addend(line, &cs, 0);
    let failure = match result {
        Ok((e, q)) => {
            if q >= cs.len() {
                return Ok(e);
            }
            let mut extra = Vec::new();
            extra.push(Expected::EndOfInput);
            let expected = operators_then(&extra);
            proof {
                assert(operators() + extra@ =~= operators().push(Expected::EndOfInput));
            }
            unexpected_at(&cs, q, expected)
        },
        Err(f) => f,
    };
    let offsets = byte_offsets(line, &cs);
    let ParseFailure { span, label, reason, expected, found } = failure;
    let reason = match reason {
        Reason::Unclosed { span: opened, delimiter } => Reason::Unclosed {
            span: relocate(&offsets, opened),
            delimiter,
        },
        other => other,
    };
    let mut failures: Vec<ParseFailure> = Vec::new();
    failures.push(ParseFailure { span: relocate(&offsets, span), label, reason, expected, found });
    Err(failures)
}

} // verus!
