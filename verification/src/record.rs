use vstd::prelude::*;
use vstd::utf8::encode_utf8;
use vstd::slice::slice_subrange;
use vstd::string::StringSliceAdditionalSpecFns;
use crate::action::{action_index_of, offset_spec, Action};
use crate::agent::ScriptedAgent;
use crate::state::DebugRand;
use crate::tensor::OutputIndex;
use crate::tensor::encode::positions;
use crate::card::{card_att, card_index, card_of, Card, NUM_CARDS};
use crate::country::{cname_of, opposite_spec, CName, Side, NUM_COUNTRIES};

pub mod names;

use names::{card_ident, card_ident_str, cname_ident, cname_ident_str};

verus! {

/// The classes of bytes that the record format splits on.
#[derive(Clone, Copy, PartialEq, Eq, Structural, Debug)]
pub enum Class {
    Blank,
    NotBlank,
    NotSpace,
    Dash,
    NotDash,
    NotNewline,
}

/// Whether a byte belongs to a class: blanks are spaces and tabs.
pub open spec fn in_class(b: u8, c: Class) -> bool {
    match c {
        Class::Blank => b == 32 || b == 9,
        Class::NotBlank => !(b == 32 || b == 9),
        Class::NotSpace => b != 32,
        Class::Dash => b == 45,
        Class::NotDash => b != 45,
        Class::NotNewline => b != 10,
    }
}

/// Where the run of bytes of a class that starts at `i` ends.
pub open spec fn span_end(x: Seq<u8>, i: int, c: Class) -> int
    decreases x.len() - i,
{
    if 0 <= i < x.len() && in_class(x[i], c) {
        span_end(x, i + 1, c)
    } else {
        i
    }
}

/// A run ends within the input, holds only bytes of its class, and stops at a byte of
/// another class or at the end.
pub proof fn lemma_span_end(x: Seq<u8>, i: int, c: Class)
    requires
        0 <= i <= x.len(),
    ensures
        i <= span_end(x, i, c) <= x.len(),
        forall|j: int| i <= j < span_end(x, i, c) ==> in_class(#[trigger] x[j], c),
        span_end(x, i, c) < x.len() ==> !in_class(x[span_end(x, i, c)], c),
    decreases x.len() - i,
{
    if i < x.len() && in_class(x[i], c) {
        lemma_span_end(x, i + 1, c);
    }
}

/// The run of at least one byte of a class at the start of the input, and what follows it.
pub open spec fn take1(x: Seq<u8>, c: Class) -> Option<(Seq<u8>, Seq<u8>)> {
    let n = span_end(x, 0, c);
    if n == 0 {
        None
    } else {
        Some((x.subrange(n, x.len() as int), x.subrange(0, n)))
    }
}

/// The input after the blanks at its start.
pub open spec fn skip_blanks(x: Seq<u8>) -> Seq<u8> {
    x.subrange(span_end(x, 0, Class::Blank), x.len() as int)
}

fn in_class_exec(b: u8, c: Class) -> (r: bool)
    ensures
        r == in_class(b, c),
{
    match c {
        Class::Blank => b == 32 || b == 9,
        Class::NotBlank => !(b == 32 || b == 9),
        Class::NotSpace => b != 32,
        Class::Dash => b == 45,
        Class::NotDash => b != 45,
        Class::NotNewline => b != 10,
    }
}

/// Where the run of bytes of a class that starts at `i` ends.
fn span(x: &[u8], i: usize, c: Class) -> (r: usize)
    requires
        i <= x@.len(),
    ensures
        r == span_end(x@, i as int, c),
        i <= r <= x@.len(),
{
    let mut j = i;
    while j < x.len() && in_class_exec(x[j], c)
        invariant
            i <= j <= x@.len(),
            span_end(x@, j as int, c) == span_end(x@, i as int, c),
        decreases x@.len() - j,
    {
        j = j + 1;
    }
    j
}

/// The run of at least one byte of a class at the start, as (rest, run).
fn take1_exec(x: &[u8], c: Class) -> (r: Option<(&[u8], &[u8])>)
    ensures
        r is None <==> take1(x@, c) is None,
        r matches Some((rest, run)) ==> take1(x@, c) == Some((rest@, run@)),
{
    let n = span(x, 0, c);
    if n == 0 {
        None
    } else {
        let (run, rest) = x.split_at(n);
        Some((rest, run))
    }
}

/// The input after its leading blanks.
fn skip_blanks_exec(x: &[u8]) -> (r: &[u8])
    ensures
        r@ == skip_blanks(x@),
{
    let n = span(x, 0, Class::Blank);
    let (_, rest) = x.split_at(n);
    rest
}

/// Whether two byte strings are equal.
fn bytes_eq(a: &[u8], b: &[u8]) -> (r: bool)
    ensures
        r == (a@ == b@),
{
    if a.len() != b.len() {
        return false;
    }
    let mut i: usize = 0;
    while i < a.len()
        invariant
            a@.len() == b@.len(),
            i <= a@.len(),
            forall|j: int| 0 <= j < i ==> a@[j] == b@[j],
        decreases a@.len() - i,
    {
        if a[i] != b[i] {
            return false;
        }
        i = i + 1;
    }
    proof {
        assert(a@ =~= b@);
    }
    true
}

/// The side at the start of a line: `USSR` or `US`, and what follows it.
pub open spec fn side_spec(x: Seq<u8>) -> Option<(Seq<u8>, Side)> {
    if x.len() >= 4 && x.subrange(0, 4) == seq![85u8, 83u8, 83u8, 82u8] {
        Some((x.subrange(4, x.len() as int), Side::USSR))
    } else if x.len() >= 2 && x.subrange(0, 2) == seq![85u8, 83u8] {
        Some((x.subrange(2, x.len() as int), Side::US))
    } else {
        None
    }
}

/// Reads `USSR` or `US` at the start of the input.
pub fn side(x: &[u8]) -> (r: Option<(&[u8], Side)>)
    ensures
        r is None <==> side_spec(x@) is None,
        r matches Some((rest, s)) ==> side_spec(x@) == Some((rest@, s)),
{
    if x.len() >= 4 && x[0] == 85u8 && x[1] == 83u8 && x[2] == 83u8 && x[3] == 82u8 {
        proof {
            assert(x@.subrange(0, 4) =~= seq![85u8, 83u8, 83u8, 82u8]);
        }
        let (_, rest) = x.split_at(4);
        Some((rest, Side::USSR))
    } else if x.len() >= 2 && x[0] == 85u8 && x[1] == 83u8 {
        proof {
            assert(x@.subrange(0, 2) =~= seq![85u8, 83u8]);
            if x@.len() >= 4 {
                assert(x@.subrange(0, 4)[2] == x@[2]);
                assert(x@.subrange(0, 4)[3] == x@[3]);
            }
        }
        let (_, rest) = x.split_at(2);
        Some((rest, Side::US))
    } else {
        proof {
            if x@.len() >= 4 && x@.subrange(0, 4) == seq![85u8, 83u8, 83u8, 82u8] {
                assert(x@.subrange(0, 4)[0] == x@[0]);
                assert(x@.subrange(0, 4)[1] == x@[1]);
                assert(x@.subrange(0, 4)[2] == x@[2]);
                assert(x@.subrange(0, 4)[3] == x@[3]);
            }
            if x@.len() >= 2 && x@.subrange(0, 2) == seq![85u8, 83u8] {
                assert(x@.subrange(0, 2)[0] == x@[0]);
                assert(x@.subrange(0, 2)[1] == x@[1]);
            }
        }
        None
    }
}

/// The card whose identifier a word is, searching from position `k` of the enumeration.
pub open spec fn card_from(w: Seq<u8>, k: int) -> Option<Card>
    decreases NUM_CARDS - k,
{
    if k < 0 || k >= NUM_CARDS {
        None
    } else if w == encode_utf8(card_ident(card_of(k as usize))) {
        Some(card_of(k as usize))
    } else {
        card_from(w, k + 1)
    }
}

/// The card a record names by its identifier; the dummy card has no name there.
pub open spec fn card_named(w: Seq<u8>) -> Option<Card> {
    card_from(w, 1)
}

/// The card a word names, if any.
fn find_card(w: &[u8]) -> (r: Option<Card>)
    ensures
        r == card_named(w@),
{
    let mut k: usize = 1;
    while k < NUM_CARDS
        invariant
            1 <= k <= NUM_CARDS,
            card_from(w@, k as int) == card_named(w@),
        decreases NUM_CARDS - k,
    {
        let c = Card::from_index(k);
        if bytes_eq(w, card_ident_str(c).as_bytes()) {
            return Some(c);
        }
        k = k + 1;
    }
    None
}

/// A card given by its identifier at the start of the input, and what follows it.
pub open spec fn card_spec(x: Seq<u8>) -> Option<(Seq<u8>, Card)> {
    match take1(x, Class::NotBlank) {
        Some((rest, w)) => match card_named(w) {
            Some(c) => Some((rest, c)),
            None => None,
        },
        None => None,
    }
}

/// Reads a card identifier at the start of the input.
pub fn card(x: &[u8]) -> (r: Option<(&[u8], Card)>)
    ensures
        r is None <==> card_spec(x@) is None,
        r matches Some((rest, c)) ==> card_spec(x@) == Some((rest@, c)),
{
    match take1_exec(x, Class::NotBlank) {
        Some((rest, w)) => match find_card(w) {
            Some(c) => Some((rest, c)),
            None => None,
        },
        None => None,
    }
}

/// The position of the country whose identifier a word is, searching from position `k`.
pub open spec fn country_from(w: Seq<u8>, k: int) -> Option<usize>
    decreases NUM_COUNTRIES - k,
{
    if k < 0 || k >= NUM_COUNTRIES {
        None
    } else if w == encode_utf8(cname_ident(cname_of(k as usize))) {
        Some(k as usize)
    } else {
        country_from(w, k + 1)
    }
}

/// The position of the country a record names by its identifier; the first country of the
/// enumeration, Turkey, is not among the names a record knows.
pub open spec fn country_named(w: Seq<u8>) -> Option<usize> {
    country_from(w, 1)
}

/// The position of the country a word names, if any.
fn find_country(w: &[u8]) -> (r: Option<usize>)
    ensures
        r == country_named(w@),
{
    let mut k: usize = 1;
    while k < NUM_COUNTRIES
        invariant
            1 <= k <= NUM_COUNTRIES,
            country_from(w@, k as int) == country_named(w@),
        decreases NUM_COUNTRIES - k,
    {
        let c = CName::from_index(k);
        if bytes_eq(w, cname_ident_str(c).as_bytes()) {
            return Some(k);
        }
        k = k + 1;
    }
    None
}

/// Whether every byte is a decimal digit.
pub open spec fn all_digits(d: Seq<u8>) -> bool {
    forall|i: int| 0 <= i < d.len() ==> 48 <= #[trigger] d[i] <= 57
}

/// The number that decimal digits write.
pub open spec fn dec_value(d: Seq<u8>) -> nat
    decreases d.len(),
{
    if d.len() == 0 {
        0
    } else {
        dec_value(d.drop_last()) * 10 + (d.last() - 48) as nat
    }
}

/// The value of a word read as a `usize` the way the standard library reads one: an
/// optional `+`, then at least one decimal digit, and a value that fits.
pub open spec fn parse_usize_spec(t: Seq<u8>) -> Option<usize> {
    let d = if t.len() > 0 && t[0] == 43u8 { t.subrange(1, t.len() as int) } else { t };
    if d.len() > 0 && all_digits(d) && dec_value(d) <= usize::MAX {
        Some(dec_value(d) as usize)
    } else {
        None
    }
}

/// Appending a digit never makes a number smaller.
proof fn lemma_dec_value_grows(d: Seq<u8>, i: int, j: int)
    requires
        0 <= i <= j <= d.len(),
        all_digits(d),
    ensures
        dec_value(d.subrange(0, i)) <= dec_value(d.subrange(0, j)),
    decreases j - i,
{
    if i < j {
        lemma_dec_value_grows(d, i, j - 1);
        assert(d.subrange(0, j).drop_last() =~= d.subrange(0, j - 1));
        let v = dec_value(d.subrange(0, j - 1));
        assert(v * 10 + (d[j - 1] - 48) as nat >= v) by (nonlinear_arith);
    }
}

/// Reads a word as a `usize`.
fn parse_usize(t: &[u8]) -> (r: Option<usize>)
    ensures
        r == parse_usize_spec(t@),
{
    let d = if t.len() > 0 && t[0] == 43u8 {
        let (_, rest) = t.split_at(1);
        rest
    } else {
        t
    };
    if d.len() == 0 {
        return None;
    }
    let mut v: usize = 0;
    let mut i: usize = 0;
    while i < d.len()
        invariant
            d@ == (if t@.len() > 0 && t@[0] == 43u8 { t@.subrange(1, t@.len() as int) } else { t@ }),
            d@.len() > 0,
            i <= d@.len(),
            all_digits(d@.subrange(0, i as int)),
            v == dec_value(d@.subrange(0, i as int)),
        decreases d@.len() - i,
    {
        let b = d[i];
        if b < 48u8 || b > 57u8 {
            proof {
                assert(!(48 <= d@[i as int] <= 57));
                assert(!all_digits(d@));
            }
            return None;
        }
        let ghost prefix = d@.subrange(0, i as int + 1);
        proof {
            assert(prefix.drop_last() =~= d@.subrange(0, i as int));
            assert(all_digits(prefix));
        }
        let digit = (b - 48u8) as usize;
        if v > (usize::MAX - digit) / 10 {
            proof {
                assert(v * 10 + digit > usize::MAX) by (nonlinear_arith)
                    requires
                        v > (usize::MAX - digit) / 10,
                        digit <= 9;
                assert(dec_value(prefix) == v * 10 + digit);
                if all_digits(d@) {
                    lemma_dec_value_grows(d@, i as int + 1, d@.len() as int);
                    assert(d@.subrange(0, d@.len() as int) =~= d@);
                }
            }
            return None;
        }
        proof {
            assert(v * 10 + digit <= usize::MAX) by (nonlinear_arith)
                requires
                    v <= (usize::MAX - digit) / 10,
                    digit <= 9;
        }
        v = v * 10 + digit;
        i = i + 1;
    }
    proof {
        assert(d@.subrange(0, d@.len() as int) =~= d@);
    }
    Some(v)
}

/// Reads a country given in short as a count, dashes and an identifier, such as
/// `3-Italy`: that many copies of the country's position, and what follows.
pub open spec fn expand_spec(x: Seq<u8>) -> Option<(Seq<u8>, Seq<usize>)> {
    let a = span_end(x, 0, Class::NotDash);
    let b = span_end(x, a, Class::Dash);
    let e = span_end(x, b, Class::NotSpace);
    if a > 0 && b > a && e > b {
        match (parse_usize_spec(x.subrange(0, a)), country_named(x.subrange(b, e))) {
            (Some(n), Some(ci)) => Some((x.subrange(e, x.len() as int), Seq::new(n as nat, |_i: int| ci))),
            _ => None,
        }
    } else {
        None
    }
}

/// Reads a country given in short, such as `3-Italy`.
pub fn expand_country(x: &[u8]) -> (r: Option<(&[u8], Vec<usize>)>)
    ensures
        r is None <==> expand_spec(x@) is None,
        r matches Some((rest, v)) ==> expand_spec(x@) == Some((rest@, v@)),
{
    let a = span(x, 0, Class::NotDash);
    let b = span(x, a, Class::Dash);
    let e = span(x, b, Class::NotSpace);
    if a == 0 || b == a || e == b {
        return None;
    }
    let num = parse_usize(slice_subrange(x, 0, a));
    let country = find_country(slice_subrange(x, b, e));
    match (num, country) {
        (Some(n), Some(ci)) => {
            let mut v: Vec<usize> = Vec::new();
            let mut k: usize = 0;
            while k < n
                invariant
                    k <= n,
                    v@ == Seq::new(k as nat, |_i: int| ci),
                decreases n - k,
            {
                v.push(ci);
                k = k + 1;
                proof {
                    assert(v@ =~= Seq::new(k as nat, |_i: int| ci));
                }
            }
            let (_, rest) = x.split_at(e);
            Some((rest, v))
        },
        _ => None,
    }
}

/// The tokens of a list that goes on at `i`, just after a token, with the position where
/// the list ends: each further token follows a single space.
pub open spec fn more_tokens(x: Seq<u8>, i: int) -> (int, Seq<Seq<u8>>)
    decreases x.len() - i,
{
    if 0 <= i < x.len() && x[i] == 32u8 {
        let e = span_end(x, i + 1, Class::NotSpace);
        if e > i + 1 {
            proof {
                lemma_span_end(x, i + 1, Class::NotSpace);
            }
            let (end, ts) = more_tokens(x, e);
            (end, seq![x.subrange(i + 1, e)] + ts)
        } else {
            (i, seq![])
        }
    } else {
        (i, seq![])
    }
}

/// The tokens of a list separated by single spaces at the start of the input, and where
/// the list ends.
pub open spec fn token_list(x: Seq<u8>) -> (int, Seq<Seq<u8>>) {
    let e = span_end(x, 0, Class::NotSpace);
    if e > 0 {
        let (end, ts) = more_tokens(x, e);
        (end, seq![x.subrange(0, e)] + ts)
    } else {
        (0, seq![])
    }
}

/// What a token of a list of choices stands for: a number, a country by its identifier, or
/// a country given in short such as `3-Italy`.
pub open spec fn token_value(t: Seq<u8>) -> Option<Seq<usize>> {
    match parse_usize_spec(t) {
        Some(n) => Some(seq![n]),
        None => match country_named(t) {
            Some(ci) => Some(seq![ci]),
            None => match expand_spec(t) {
                Some((_, v)) => Some(v),
                None => None,
            },
        },
    }
}

/// What the tokens stand for, one after the other, if each stands for something.
pub open spec fn tokens_value(ts: Seq<Seq<u8>>) -> Option<Seq<usize>>
    decreases ts.len(),
{
    if ts.len() == 0 {
        Some(seq![])
    } else {
        match (tokens_value(ts.drop_last()), token_value(ts.last())) {
            (Some(a), Some(b)) => Some(a + b),
            _ => None,
        }
    }
}

/// A token that stands for nothing spoils every list it starts.
proof fn lemma_tokens_value_spoiled(p: Seq<Seq<u8>>, q: Seq<Seq<u8>>)
    requires
        tokens_value(p) is None,
    ensures
        tokens_value(p + q) is None,
    decreases q.len(),
{
    if q.len() > 0 {
        lemma_tokens_value_spoiled(p, q.drop_last());
        assert((p + q).drop_last() =~= p + q.drop_last());
    } else {
        assert(p + q =~= p);
    }
}

/// The choices of a line: what the tokens of the list at its start stand for, and what
/// follows the list.
pub open spec fn choices_spec(x: Seq<u8>) -> Option<(Seq<u8>, Seq<usize>)> {
    let (end, ts) = token_list(x);
    match tokens_value(ts) {
        Some(v) => Some((x.subrange(end, x.len() as int), v)),
        None => None,
    }
}

/// What one token of a list of choices stands for.
fn token_value_exec(t: &[u8]) -> (r: Option<Vec<usize>>)
    ensures
        r is None <==> token_value(t@) is None,
        r matches Some(v) ==> token_value(t@) == Some(v@),
{
    match parse_usize(t) {
        Some(n) => {
            let v = vec![n];
            proof {
                assert(v@ =~= seq![n]);
            }
            Some(v)
        },
        None => match find_country(t) {
            Some(ci) => {
                let v = vec![ci];
                proof {
                    assert(v@ =~= seq![ci]);
                }
                Some(v)
            },
            None => match expand_country(t) {
                Some((_, v)) => Some(v),
                None => None,
            },
        },
    }
}

/// Reads a list of choices separated by single spaces: numbers, countries by their
/// identifiers, or countries given in short such as `3-Italy`.
pub fn choices(x: &[u8]) -> (r: Option<(&[u8], Vec<usize>)>)
    ensures
        r is None <==> choices_spec(x@) is None,
        r matches Some((rest, v)) ==> choices_spec(x@) == Some((rest@, v@)),
{
    let e0 = span(x, 0, Class::NotSpace);
    if e0 == 0 {
        proof {
            assert(x@.subrange(0, x@.len() as int) =~= x@);
        }
        return Some((x, Vec::new()));
    }
    let mut out: Vec<usize> = Vec::new();
    let ghost mut toks: Seq<Seq<u8>> = seq![];
    let mut start: usize = 0;
    let mut end: usize = e0;
    proof {
        assert(toks + seq![x@.subrange(0, e0 as int)] + more_tokens(x@, e0 as int).1
            =~= seq![x@.subrange(0, e0 as int)] + more_tokens(x@, e0 as int).1);
    }
    loop
        invariant
            0 <= start < end <= x@.len(),
            token_list(x@) == (more_tokens(x@, end as int).0,
                toks + seq![x@.subrange(start as int, end as int)] + more_tokens(x@, end as int).1),
            tokens_value(toks) == Some(out@),
        decreases x@.len() - end,
    {
        let tok = slice_subrange(x, start, end);
        let ghost toks1 = toks.push(tok@);
        proof {
            assert(toks1.drop_last() =~= toks);
        }
        match token_value_exec(tok) {
            None => {
                proof {
                    lemma_tokens_value_spoiled(toks1, more_tokens(x@, end as int).1);
                    assert(token_list(x@).1 =~= toks1 + more_tokens(x@, end as int).1);
                }
                return None;
            },
            Some(vals) => {
                let mut k: usize = 0;
                let ghost out0 = out@;
                while k < vals.len()
                    invariant
                        k <= vals@.len(),
                        out@ == out0 + vals@.subrange(0, k as int),
                    decreases vals@.len() - k,
                {
                    out.push(vals[k]);
                    k = k + 1;
                    proof {
                        assert(out@ =~= out0 + vals@.subrange(0, k as int));
                    }
                }
                proof {
                    assert(vals@.subrange(0, vals@.len() as int) =~= vals@);
                }
            },
        }
        proof {
            toks = toks1;
        }
        if end < x.len() && x[end] == 32u8 {
            let e2 = span(x, end + 1, Class::NotSpace);
            if e2 > end + 1 {
                proof {
                    assert(token_list(x@).1 =~= toks + seq![x@.subrange(end + 1, e2 as int)]
                        + more_tokens(x@, e2 as int).1);
                }
                start = end + 1;
                end = e2;
                continue;
            }
        }
        let (_, rest) = x.split_at(end);
        proof {
            assert(token_list(x@).1 =~= toks);
        }
        return Some((rest, out));
    }
}

/// The kind of a line of a game record.
#[derive(Clone, Copy, PartialEq, Eq, Structural, Debug)]
pub enum MetaAction {
    Real(Action),
    Touch,
    Roll,
    Unknown,
}

/// The kind of line a keyword starts: `Inf`, `Coup`, `Place`, `Special`, `Remove`, `Roll`,
/// `HL` (a headline), `OE`, `EO`, `E`, `O`, `War`, `Discard`, `Space`, `Pass` or `Touch`.
pub open spec fn keyword(w: Seq<u8>) -> Option<MetaAction> {
    if w == seq![73u8, 110u8, 102u8] {
        Some(MetaAction::Real(Action::Influence))
    } else if w == seq![67u8, 111u8, 117u8, 112u8] {
        Some(MetaAction::Real(Action::Coup))
    } else if w == seq![80u8, 108u8, 97u8, 99u8, 101u8] {
        Some(MetaAction::Real(Action::Place))
    } else if w == seq![83u8, 112u8, 101u8, 99u8, 105u8, 97u8, 108u8] {
        Some(MetaAction::Real(Action::SpecialEvent))
    } else if w == seq![82u8, 101u8, 109u8, 111u8, 118u8, 101u8] {
        Some(MetaAction::Real(Action::Remove))
    } else if w == seq![82u8, 111u8, 108u8, 108u8] {
        Some(MetaAction::Roll)
    } else if w == seq![72u8, 76u8] {
        Some(MetaAction::Real(Action::ChooseCard))
    } else if w == seq![79u8, 69u8] {
        Some(MetaAction::Real(Action::OpsEvent))
    } else if w == seq![69u8, 79u8] {
        Some(MetaAction::Real(Action::EventOps))
    } else if w == seq![69u8] {
        Some(MetaAction::Real(Action::Event))
    } else if w == seq![79u8] {
        Some(MetaAction::Real(Action::Ops))
    } else if w == seq![87u8, 97u8, 114u8] {
        Some(MetaAction::Real(Action::War))
    } else if w == seq![68u8, 105u8, 115u8, 99u8, 97u8, 114u8, 100u8] {
        Some(MetaAction::Real(Action::Discard))
    } else if w == seq![83u8, 112u8, 97u8, 99u8, 101u8] {
        Some(MetaAction::Real(Action::Space))
    } else if w == seq![80u8, 97u8, 115u8, 115u8] {
        Some(MetaAction::Real(Action::Pass))
    } else if w == seq![84u8, 111u8, 117u8, 99u8, 104u8] {
        Some(MetaAction::Touch)
    } else {
        None
    }
}

/// The kind of line a keyword starts, if it is one.
fn keyword_exec(w: &[u8]) -> (r: Option<MetaAction>)
    ensures
        r == keyword(w@),
{
    let k0: [u8; 3] = [73u8, 110u8, 102u8];
    let k1: [u8; 4] = [67u8, 111u8, 117u8, 112u8];
    let k2: [u8; 5] = [80u8, 108u8, 97u8, 99u8, 101u8];
    let k3: [u8; 7] = [83u8, 112u8, 101u8, 99u8, 105u8, 97u8, 108u8];
    let k4: [u8; 6] = [82u8, 101u8, 109u8, 111u8, 118u8, 101u8];
    let k5: [u8; 4] = [82u8, 111u8, 108u8, 108u8];
    let k6: [u8; 2] = [72u8, 76u8];
    let k7: [u8; 2] = [79u8, 69u8];
    let k8: [u8; 2] = [69u8, 79u8];
    let k9: [u8; 1] = [69u8];
    let k10: [u8; 1] = [79u8];
    let k11: [u8; 3] = [87u8, 97u8, 114u8];
    let k12: [u8; 7] = [68u8, 105u8, 115u8, 99u8, 97u8, 114u8, 100u8];
    let k13: [u8; 5] = [83u8, 112u8, 97u8, 99u8, 101u8];
    let k14: [u8; 4] = [80u8, 97u8, 115u8, 115u8];
    let k15: [u8; 5] = [84u8, 111u8, 117u8, 99u8, 104u8];
    proof {
        assert(k0@ =~= seq![73u8, 110u8, 102u8]);
        assert(k1@ =~= seq![67u8, 111u8, 117u8, 112u8]);
        assert(k2@ =~= seq![80u8, 108u8, 97u8, 99u8, 101u8]);
        assert(k3@ =~= seq![83u8, 112u8, 101u8, 99u8, 105u8, 97u8, 108u8]);
        assert(k4@ =~= seq![82u8, 101u8, 109u8, 111u8, 118u8, 101u8]);
        assert(k5@ =~= seq![82u8, 111u8, 108u8, 108u8]);
        assert(k6@ =~= seq![72u8, 76u8]);
        assert(k7@ =~= seq![79u8, 69u8]);
        assert(k8@ =~= seq![69u8, 79u8]);
        assert(k9@ =~= seq![69u8]);
        assert(k10@ =~= seq![79u8]);
        assert(k11@ =~= seq![87u8, 97u8, 114u8]);
        assert(k12@ =~= seq![68u8, 105u8, 115u8, 99u8, 97u8, 114u8, 100u8]);
        assert(k13@ =~= seq![83u8, 112u8, 97u8, 99u8, 101u8]);
        assert(k14@ =~= seq![80u8, 97u8, 115u8, 115u8]);
        assert(k15@ =~= seq![84u8, 111u8, 117u8, 99u8, 104u8]);
    }
    if bytes_eq(w, k0.as_slice()) {
        Some(MetaAction::Real(Action::Influence))
    } else if bytes_eq(w, k1.as_slice()) {
        Some(MetaAction::Real(Action::Coup))
    } else if bytes_eq(w, k2.as_slice()) {
        Some(MetaAction::Real(Action::Place))
    } else if bytes_eq(w, k3.as_slice()) {
        Some(MetaAction::Real(Action::SpecialEvent))
    } else if bytes_eq(w, k4.as_slice()) {
        Some(MetaAction::Real(Action::Remove))
    } else if bytes_eq(w, k5.as_slice()) {
        Some(MetaAction::Roll)
    } else if bytes_eq(w, k6.as_slice()) {
        Some(MetaAction::Real(Action::ChooseCard))
    } else if bytes_eq(w, k7.as_slice()) {
        Some(MetaAction::Real(Action::OpsEvent))
    } else if bytes_eq(w, k8.as_slice()) {
        Some(MetaAction::Real(Action::EventOps))
    } else if bytes_eq(w, k9.as_slice()) {
        Some(MetaAction::Real(Action::Event))
    } else if bytes_eq(w, k10.as_slice()) {
        Some(MetaAction::Real(Action::Ops))
    } else if bytes_eq(w, k11.as_slice()) {
        Some(MetaAction::Real(Action::War))
    } else if bytes_eq(w, k12.as_slice()) {
        Some(MetaAction::Real(Action::Discard))
    } else if bytes_eq(w, k13.as_slice()) {
        Some(MetaAction::Real(Action::Space))
    } else if bytes_eq(w, k14.as_slice()) {
        Some(MetaAction::Real(Action::Pass))
    } else if bytes_eq(w, k15.as_slice()) {
        Some(MetaAction::Touch)
    } else {
        None
    }
}

/// The keyword at the start of the input, if there is a word there: what follows it, and
/// the kind of line it starts, or None for an unknown word.
pub open spec fn action_spec(x: Seq<u8>) -> Option<(Seq<u8>, Option<MetaAction>)> {
    match take1(x, Class::NotBlank) {
        Some((rest, w)) => Some((rest, keyword(w))),
        None => None,
    }
}

/// Reads the keyword at the start of the input, which must be known where there is a word.
fn action(x: &[u8]) -> (r: Option<(&[u8], MetaAction)>)
    requires
        action_spec(x@) matches Some((_, k)) ==> k is Some,
    ensures
        r is None <==> action_spec(x@) is None,
        r matches Some((rest, m)) ==> action_spec(x@) == Some((rest@, Some(m))),
{
    match take1_exec(x, Class::NotBlank) {
        Some((rest, w)) => {
            let m = keyword_exec(w);
            Some((rest, m.unwrap()))
        },
        None => None,
    }
}

/// A line of a game record as read: the side it is about, the card it names, its kind and
/// its choices, where the list of choices could be read.
pub struct LineView {
    pub side: Side,
    pub card: Option<Card>,
    pub action: MetaAction,
    pub choices: Option<Seq<usize>>,
}

/// A line of a game record as read.
pub struct Parsed {
    pub side: Side,
    pub card: Option<Card>,
    pub action: MetaAction,
    pub choices: Option<Vec<usize>>,
}

impl Parsed {
    /// What was read, as values.
    pub open spec fn view_line(&self) -> LineView {
        LineView {
            side: self.side,
            card: self.card,
            action: self.action,
            choices: match self.choices {
                Some(v) => Some(v@),
                None => None,
            },
        }
    }
}

/// How a line that names a card and no keyword plays it: a card of the other side for its
/// operations with its event, any other card for its operations.
pub open spec fn default_action(card: Option<Card>, side: Side) -> Option<MetaAction> {
    match card {
        Some(c) => if card_att(c).side == opposite_spec(side) {
            Some(MetaAction::Real(Action::OpsEvent))
        } else {
            Some(MetaAction::Real(Action::Ops))
        },
        None => None,
    }
}

/// Reads a line: an optional side (else the side of the line before), an optional card, an
/// optional keyword and the list of choices, each part after optional blanks. None where
/// the line has a word that is no keyword where the keyword goes, or names neither a
/// keyword nor a card.
pub open spec fn parse_line_spec(line: Seq<u8>, last: Side) -> Option<LineView> {
    let (x1, side) = match side_spec(line) {
        Some((r, s)) => (r, s),
        None => (line, last),
    };
    let x2 = skip_blanks(x1);
    let (x3, card) = match card_spec(x2) {
        Some((r, c)) => (r, Some(c)),
        None => (x2, None),
    };
    let x4 = skip_blanks(x3);
    let (x5, act) = match action_spec(x4) {
        Some((r, k)) => (r, Some(k)),
        None => (x4, None),
    };
    let choices = match choices_spec(skip_blanks(x5)) {
        Some((_, v)) => Some(v),
        None => None,
    };
    match act {
        Some(None) => None,
        Some(Some(m)) => Some(LineView { side, card, action: m, choices }),
        None => match default_action(card, side) {
            Some(m) => Some(LineView { side, card, action: m, choices }),
            None => None,
        },
    }
}

/// Reads a line of a game record; `last_side` is the side of the line before.
pub fn parse_line(line: &[u8], last_side: Side) -> (r: Parsed)
    requires
        last_side != Side::Neutral,
        parse_line_spec(line@, last_side) is Some,
    ensures
        parse_line_spec(line@, last_side) == Some(r.view_line()),
        r.side != Side::Neutral,
{
    let (x1, side) = match side(line) {
        Some((r, s)) => (r, s),
        None => (line, last_side),
    };
    let x2 = skip_blanks_exec(x1);
    let (x3, card) = match card(x2) {
        Some((r, c)) => (r, Some(c)),
        None => (x2, None),
    };
    let x4 = skip_blanks_exec(x3);
    let (x5, act) = match action(x4) {
        Some((r, m)) => (r, Some(m)),
        None => (x4, None),
    };
    let x6 = skip_blanks_exec(x5);
    let choices = match choices(x6) {
        Some((_, v)) => Some(v),
        None => None,
    };
    let action = match act {
        Some(m) => m,
        None => {
            let c = card.unwrap();
            if c.side() == side.opposite() {
                MetaAction::Real(Action::OpsEvent)
            } else {
                MetaAction::Real(Action::Ops)
            }
        },
    };
    Parsed { side, card, action, choices }
}

/// What a game record has told up to some line: the side of that line, and for each side
/// its die rolls, the cards it played or touched, and its choices as output positions, each
/// in the order of the record.
pub struct RecordTrace {
    pub last_side: Side,
    pub us_rolls: Seq<i8>,
    pub ussr_rolls: Seq<i8>,
    pub us_cards: Seq<Card>,
    pub ussr_cards: Seq<Card>,
    pub us_choices: Seq<usize>,
    pub ussr_choices: Seq<usize>,
}

/// Nothing told yet; a record starts with the USSR.
pub open spec fn start_trace() -> RecordTrace {
    RecordTrace {
        last_side: Side::USSR,
        us_rolls: seq![],
        ussr_rolls: seq![],
        us_cards: seq![],
        ussr_cards: seq![],
        us_choices: seq![],
        ussr_choices: seq![],
    }
}

/// The trace with the side of the latest line.
pub open spec fn at_side(t: RecordTrace, side: Side) -> RecordTrace {
    RecordTrace {
        last_side: side,
        us_rolls: t.us_rolls,
        ussr_rolls: t.ussr_rolls,
        us_cards: t.us_cards,
        ussr_cards: t.ussr_cards,
        us_choices: t.us_choices,
        ussr_choices: t.ussr_choices,
    }
}

/// The trace with a die roll of a side after the others.
pub open spec fn push_roll(t: RecordTrace, side: Side, r: i8) -> RecordTrace {
    RecordTrace {
        last_side: t.last_side,
        us_rolls: if side == Side::US { t.us_rolls.push(r) } else { t.us_rolls },
        ussr_rolls: if side == Side::US { t.ussr_rolls } else { t.ussr_rolls.push(r) },
        us_cards: t.us_cards,
        ussr_cards: t.ussr_cards,
        us_choices: t.us_choices,
        ussr_choices: t.ussr_choices,
    }
}

/// The trace with a card of a side after the others.
pub open spec fn push_card(t: RecordTrace, side: Side, c: Card) -> RecordTrace {
    RecordTrace {
        last_side: t.last_side,
        us_rolls: t.us_rolls,
        ussr_rolls: t.ussr_rolls,
        us_cards: if side == Side::US { t.us_cards.push(c) } else { t.us_cards },
        ussr_cards: if side == Side::US { t.ussr_cards } else { t.ussr_cards.push(c) },
        us_choices: t.us_choices,
        ussr_choices: t.ussr_choices,
    }
}

/// The trace with choices of a side after the others.
pub open spec fn push_choices(t: RecordTrace, side: Side, v: Seq<usize>) -> RecordTrace {
    RecordTrace {
        last_side: t.last_side,
        us_rolls: t.us_rolls,
        ussr_rolls: t.ussr_rolls,
        us_cards: t.us_cards,
        ussr_cards: t.ussr_cards,
        us_choices: if side == Side::US { t.us_choices + v } else { t.us_choices },
        ussr_choices: if side == Side::US { t.ussr_choices } else { t.ussr_choices + v },
    }
}

/// Giving a side two lists of choices gives it both, one after the other.
proof fn lemma_push_choices_twice(t: RecordTrace, side: Side, a: Seq<usize>, b: Seq<usize>)
    ensures
        push_choices(push_choices(t, side, a), side, b) == push_choices(t, side, a + b),
{
    assert(t.us_choices + a + b =~= t.us_choices + (a + b));
    assert(t.ussr_choices + a + b =~= t.ussr_choices + (a + b));
}

/// The output position of a choice of a kind of action.
pub open spec fn encoded(a: Action, n: usize) -> int {
    offset_spec(action_index_of(a) as nat) + n
}

/// The kinds of action whose choice is the card of the line.
pub open spec fn card_action(a: Action) -> bool {
    a == Action::Event || a == Action::EventOps || a == Action::Ops || a == Action::OpsEvent
        || a == Action::ChooseCard || a == Action::Discard || a == Action::Space
}

/// The kinds of action whose choices are the list of the line.
pub open spec fn board_action(a: Action) -> bool {
    a == Action::Influence || a == Action::Coup || a == Action::Realignment || a == Action::Place
        || a == Action::Remove || a == Action::War || a == Action::SpecialEvent
}

/// What one line adds to the trace. A line that starts with `#` is a comment. A roll line
/// gives its side the first choice as a die roll; a touch line gives it the card. A line that
/// plays a card gives its side the card and the choice of that card; a line of board
/// choices gives its side each choice; a pass gives it the pass. None where the line cannot
/// be read, or lacks the card or the choices it needs, or a choice lies beyond `usize`.
pub open spec fn line_step(line: Seq<u8>, t: RecordTrace) -> Option<RecordTrace> {
    if line.len() > 0 && line[0] == 35u8 {
        Some(t)
    } else {
        match parse_line_spec(line, t.last_side) {
            None => None,
            Some(p) => {
                let t1 = at_side(t, p.side);
                match p.action {
                    MetaAction::Roll => match p.choices {
                        Some(v) => if v.len() > 0 {
                            Some(push_roll(t1, p.side, v[0] as i8))
                        } else {
                            None
                        },
                        None => None,
                    },
                    MetaAction::Touch => match p.card {
                        Some(c) => Some(push_card(t1, p.side, c)),
                        None => None,
                    },
                    MetaAction::Real(a) => if card_action(a) {
                        match p.card {
                            Some(c) => Some(push_choices(push_card(t1, p.side, c), p.side,
                                seq![encoded(a, card_index(c)) as usize])),
                            None => None,
                        }
                    } else if board_action(a) {
                        match p.choices {
                            Some(v) => if forall|i: int| 0 <= i < v.len() ==> #[trigger] encoded(a, v[i]) <= usize::MAX {
                                Some(push_choices(t1, p.side, v.map_values(|n: usize| encoded(a, n) as usize)))
                            } else {
                                None
                            },
                            None => None,
                        }
                    } else if a == Action::Pass {
                        Some(push_choices(t1, p.side, seq![encoded(Action::Pass, 0) as usize]))
                    } else {
                        None
                    },
                    MetaAction::Unknown => None,
                }
            },
        }
    }
}

/// The first line of the input and what follows it: lines end at a newline, which may come
/// after a carriage return, and the last one may end without.
pub open spec fn next_line(x: Seq<u8>) -> (Seq<u8>, Seq<u8>) {
    let e = span_end(x, 0, Class::NotNewline);
    if e < x.len() {
        let line = if e > 0 && x[e - 1] == 13u8 { x.subrange(0, e - 1) } else { x.subrange(0, e) };
        (line, x.subrange(e + 1, x.len() as int))
    } else {
        (x, seq![])
    }
}

/// The trace after every line of the input, or None where a line cannot be taken.
pub open spec fn run_record(x: Seq<u8>, t: RecordTrace) -> Option<RecordTrace>
    decreases x.len(),
{
    if x.len() == 0 {
        Some(t)
    } else {
        proof {
            lemma_span_end(x, 0, Class::NotNewline);
        }
        let (line, rest) = next_line(x);
        match line_step(line, t) {
            Some(t2) => run_record(rest, t2),
            None => None,
        }
    }
}

/// What a whole game record tells.
pub open spec fn record_of(x: Seq<u8>) -> Option<RecordTrace> {
    run_record(x, start_trace())
}

/// A game record read for a replay: each side as an agent that plays its recorded choices,
/// and randomness that gives the recorded rolls and cards.
pub struct Record {
    pub ussr_agent: ScriptedAgent,
    pub us_agent: ScriptedAgent,
    pub rng: DebugRand,
}

/// What has been read so far, as in `RecordTrace`.
struct Collected {
    last_side: Side,
    us_rolls: Vec<i8>,
    ussr_rolls: Vec<i8>,
    us_cards: Vec<Card>,
    ussr_cards: Vec<Card>,
    us_choices: Vec<OutputIndex>,
    ussr_choices: Vec<OutputIndex>,
}

impl Collected {
    spec fn trace(&self) -> RecordTrace {
        RecordTrace {
            last_side: self.last_side,
            us_rolls: self.us_rolls@,
            ussr_rolls: self.ussr_rolls@,
            us_cards: self.us_cards@,
            ussr_cards: self.ussr_cards@,
            us_choices: positions(self.us_choices@),
            ussr_choices: positions(self.ussr_choices@),
        }
    }

    fn push_choice(&mut self, side: Side, o: OutputIndex)
        ensures
            final(self).trace() == push_choices(old(self).trace(), side, seq![o@]),
            final(self).last_side == old(self).last_side,
    {
        if side == Side::US {
            self.us_choices.push(o);
            proof {
                assert(positions(self.us_choices@) =~= positions(old(self).us_choices@) + seq![o@]);
            }
        } else {
            self.ussr_choices.push(o);
            proof {
                assert(positions(self.ussr_choices@) =~= positions(old(self).ussr_choices@) + seq![o@]);
            }
        }
    }

    /// Takes one line of the record.
    fn step(&mut self, line: &[u8])
        requires
            old(self).last_side != Side::Neutral,
            line_step(line@, old(self).trace()) is Some,
        ensures
            final(self).last_side != Side::Neutral,
            Some(final(self).trace()) == line_step(line@, old(self).trace()),
    {
        if line.len() > 0 && line[0] == 35u8 {
            return;
        }
        let p = parse_line(line, self.last_side);
        self.last_side = p.side;
        let side = p.side;
        match p.action {
            MetaAction::Roll => {
                let cs = p.choices.unwrap();
                let roll: i8 = #[verifier::truncate] (cs[0] as i8);
                if side == Side::US {
                    self.us_rolls.push(roll);
                } else {
                    self.ussr_rolls.push(roll);
                }
            },
            MetaAction::Touch => {
                let c = p.card.unwrap();
                if side == Side::US {
                    self.us_cards.push(c);
                } else {
                    self.ussr_cards.push(c);
                }
            },
            MetaAction::Real(a) => {
                match a {
                    Action::Event | Action::EventOps | Action::Ops | Action::OpsEvent
                    | Action::ChooseCard | Action::Discard | Action::Space => {
                        let c = p.card.unwrap();
                        if side == Side::US {
                            self.us_cards.push(c);
                        } else {
                            self.ussr_cards.push(c);
                        }
                        proof {
                            crate::action::lemma_action_index_of_inverse(a);
                            crate::action::lemma_offsets_bounded(action_index_of(a) as nat);
                            crate::card::lemma_card_index_inverse(c);
                        }
                        let x = OutputIndex::encode_single(a, c.index());
                        self.push_choice(side, x);
                    },
                    Action::Pass => {
                        proof {
                            crate::action::lemma_action_index_of_inverse(Action::Pass);
                        }
                        self.push_choice(side, OutputIndex::pass());
                    },
                    _ => {
                        let cs = p.choices.unwrap();
                        let ghost t1 = self.trace();
                        let mut k: usize = 0;
                        while k < cs.len()
                            invariant
                                k <= cs@.len(),
                                board_action(a),
                                forall|i: int| 0 <= i < cs@.len() ==> #[trigger] encoded(a, cs@[i]) <= usize::MAX,
                                self.last_side == side,
                                self.trace() == push_choices(t1, side,
                                    cs@.subrange(0, k as int).map_values(|n: usize| encoded(a, n) as usize)),
                            decreases cs@.len() - k,
                        {
                            assert(encoded(a, cs@[k as int]) <= usize::MAX);
                            let x = OutputIndex::encode_single(a, cs[k]);
                            self.push_choice(side, x);
                            k = k + 1;
                            proof {
                                lemma_push_choices_twice(t1, side,
                                    cs@.subrange(0, k - 1).map_values(|n: usize| encoded(a, n) as usize), seq![x@]);
                                assert(cs@.subrange(0, k as int).map_values(|n: usize| encoded(a, n) as usize)
                                    =~= cs@.subrange(0, k - 1).map_values(|n: usize| encoded(a, n) as usize)
                                    + seq![x@]);
                            }
                        }
                        proof {
                            assert(cs@.subrange(0, cs@.len() as int) =~= cs@);
                        }
                    },
                }
            },
            MetaAction::Unknown => {},
        }
    }
}

/// A copy of a list, last first.
fn reversed<T: Copy>(v: &Vec<T>) -> (r: Vec<T>)
    ensures
        r@ == v@.reverse(),
{
    let mut out: Vec<T> = Vec::new();
    let mut i: usize = v.len();
    while i > 0
        invariant
            i <= v@.len(),
            out@ == v@.subrange(i as int, v@.len() as int).reverse(),
        decreases i,
    {
        i = i - 1;
        out.push(v[i]);
        proof {
            assert(out@ =~= v@.subrange(i as int, v@.len() as int).reverse());
        }
    }
    proof {
        assert(v@.subrange(0, v@.len() as int) =~= v@);
    }
    out
}

/// Reads a game record: one line per step of the game, in the order of play. Each side's
/// agent replays its choices in order; the randomness gives each side its rolls in order,
/// no random hand cards, and each side's cards as its draws, taken from the end.
pub fn parse_lines(string: &str) -> (r: Record)
    requires
        record_of(string.spec_bytes()) is Some,
    ensures
        ({
            let t = record_of(string.spec_bytes()).unwrap();
            &&& positions(r.us_agent.choices@) == t.us_choices.reverse()
            &&& positions(r.ussr_agent.choices@) == t.ussr_choices.reverse()
            &&& r.rng.us_rolls@ == t.us_rolls.reverse()
            &&& r.rng.ussr_rolls@ == t.ussr_rolls.reverse()
            &&& r.rng.discards@ == Seq::<Option<Card>>::empty()
            &&& r.rng.us_draw@ == t.us_cards
            &&& r.rng.ussr_draw@ == t.ussr_cards
        }),
{
    let bytes = string.as_bytes();
    let mut acc = Collected {
        last_side: Side::USSR,
        us_rolls: Vec::new(),
        ussr_rolls: Vec::new(),
        us_cards: Vec::new(),
        ussr_cards: Vec::new(),
        us_choices: Vec::new(),
        ussr_choices: Vec::new(),
    };
    proof {
        assert(acc.trace() == start_trace()) by {
            assert(positions(acc.us_choices@) =~= seq![]);
            assert(positions(acc.ussr_choices@) =~= seq![]);
        }
    }
    let mut rest: &[u8] = bytes;
    while rest.len() > 0
        invariant
            acc.last_side != Side::Neutral,
            run_record(rest@, acc.trace()) == record_of(string.spec_bytes()),
            record_of(string.spec_bytes()) is Some,
        decreases rest@.len(),
    {
        let e = span(rest, 0, Class::NotNewline);
        let line = if e < rest.len() && e > 0 && rest[e - 1] == 13u8 {
            slice_subrange(rest, 0, e - 1)
        } else if e < rest.len() {
            slice_subrange(rest, 0, e)
        } else {
            rest
        };
        let next = if e < rest.len() {
            slice_subrange(rest, e + 1, rest.len())
        } else {
            slice_subrange(rest, rest.len(), rest.len())
        };
        proof {
            assert(next_line(rest@) == (line@, next@)) by {
                if e >= rest@.len() {
                    assert(next@ =~= seq![]);
                }
            }
        }
        acc.step(line);
        rest = next;
    }
    let us_agent = ScriptedAgent::new(&acc.us_choices);
    let ussr_agent = ScriptedAgent::new(&acc.ussr_choices);
    proof {
        assert(positions(us_agent.choices@) =~= positions(acc.us_choices@).reverse());
        assert(positions(ussr_agent.choices@) =~= positions(acc.ussr_choices@).reverse());
    }
    let rng = DebugRand::new(reversed(&acc.us_rolls), reversed(&acc.ussr_rolls), Vec::new(),
        acc.us_cards, acc.ussr_cards);
    Record { ussr_agent, us_agent, rng }
}

/// Reads the keyword of a line, if a word stands there, and whether it is a keyword.
fn try_action(x: &[u8]) -> (r: Option<(&[u8], Option<MetaAction>)>)
    ensures
        r is None <==> action_spec(x@) is None,
        r matches Some((rest, k)) ==> action_spec(x@) == Some((rest@, k)),
{
    match take1_exec(x, Class::NotBlank) {
        Some((rest, w)) => Some((rest, keyword_exec(w))),
        None => None,
    }
}

/// Whether a line of a game record can be read, the side of the line before being `last_side`.
pub fn line_parses(line: &[u8], last_side: Side) -> (r: bool)
    ensures
        r == (parse_line_spec(line@, last_side) is Some),
{
    let (x1, _side) = match side(line) {
        Some((r, s)) => (r, s),
        None => (line, last_side),
    };
    let x2 = skip_blanks_exec(x1);
    let (x3, card) = match card(x2) {
        Some((r, c)) => (r, Some(c)),
        None => (x2, None),
    };
    let x4 = skip_blanks_exec(x3);
    match try_action(x4) {
        Some((_, Some(_))) => true,
        Some((_, None)) => false,
        None => card.is_some(),
    }
}

/// Whether a line can be taken into a record whose latest side is `last_side`: it is a
/// comment, or it reads and says what it needs (a roll its number, a played card its card,
/// an action on the map its choices), and names an action a record holds.
#[verifier::loop_isolation(false)]
fn line_fits(line: &[u8], last_side: Side, Ghost(t): Ghost<RecordTrace>) -> (r: bool)
    requires
        last_side != Side::Neutral,
        t.last_side == last_side,
    ensures
        r == (line_step(line@, t) is Some),
{
    if line.len() > 0 && line[0] == 35u8 {
        return true;
    }
    if !line_parses(line, last_side) {
        return false;
    }
    let p = parse_line(line, last_side);
    match p.action {
        MetaAction::Roll => match &p.choices {
            Some(v) => v.len() > 0,
            None => false,
        },
        MetaAction::Touch => p.card.is_some(),
        MetaAction::Real(a) => match a {
            Action::Event | Action::EventOps | Action::Ops | Action::OpsEvent
            | Action::ChooseCard | Action::Discard | Action::Space => p.card.is_some(),
            Action::Influence | Action::Coup | Action::Realignment | Action::Place
            | Action::Remove | Action::War | Action::SpecialEvent => match &p.choices {
                Some(v) => {
                    proof {
                        crate::action::lemma_action_index_of_inverse(a);
                        crate::action::lemma_offsets_bounded(action_index_of(a) as nat);
                    }
                    let base = a.offset();
                    let mut k: usize = 0;
                    while k < v.len()
                        invariant
                            k <= v@.len(),
                            base == offset_spec(action_index_of(a) as nat),
                            forall|i: int| 0 <= i < k ==> #[trigger] encoded(a, v@[i]) <= usize::MAX,
                        decreases v@.len() - k,
                    {
                        if v[k] > usize::MAX - base {
                            proof {
                                assert(encoded(a, v@[k as int]) > usize::MAX);
                                assert(!(forall|i: int| 0 <= i < v@.len() ==> #[trigger] encoded(a, v@[i]) <= usize::MAX));
                                let lv = parse_line_spec(line@, last_side).unwrap();
                                assert(lv.choices == Some(v@));
                                assert(lv.action == MetaAction::Real(a));
                                assert(board_action(a) && !card_action(a));
                                assert(line_step(line@, t) is None);
                            }
                            return false;
                        }
                        k = k + 1;
                    }
                    true
                },
                None => false,
            },
            Action::Pass => true,
            _ => false,
        },
        MetaAction::Unknown => false,
    }
}

/// Reads a game record, or answers None where a line cannot be taken.
pub fn try_parse_lines(string: &str) -> (r: Option<Record>)
    ensures
        r is None <==> record_of(string.spec_bytes()) is None,
        r matches Some(rec) ==> ({
            let t = record_of(string.spec_bytes()).unwrap();
            &&& positions(rec.us_agent.choices@) == t.us_choices.reverse()
            &&& positions(rec.ussr_agent.choices@) == t.ussr_choices.reverse()
            &&& rec.rng.us_rolls@ == t.us_rolls.reverse()
            &&& rec.rng.ussr_rolls@ == t.ussr_rolls.reverse()
            &&& rec.rng.discards@ == Seq::<Option<Card>>::empty()
            &&& rec.rng.us_draw@ == t.us_cards
            &&& rec.rng.ussr_draw@ == t.ussr_cards
        }),
{
    let bytes = string.as_bytes();
    let mut last_side = Side::USSR;
    let ghost mut t = start_trace();
    let mut rest: &[u8] = bytes;
    while rest.len() > 0
        invariant
            last_side != Side::Neutral,
            t.last_side == last_side,
            run_record(rest@, t) == record_of(string.spec_bytes()),
        decreases rest@.len(),
    {
        let e = span(rest, 0, Class::NotNewline);
        let line = if e < rest.len() && e > 0 && rest[e - 1] == 13u8 {
            slice_subrange(rest, 0, e - 1)
        } else if e < rest.len() {
            slice_subrange(rest, 0, e)
        } else {
            rest
        };
        let next = if e < rest.len() {
            slice_subrange(rest, e + 1, rest.len())
        } else {
            slice_subrange(rest, rest.len(), rest.len())
        };
        proof {
            assert(next_line(rest@) == (line@, next@)) by {
                if e >= rest@.len() {
                    assert(next@ =~= seq![]);
                }
            }
        }
        if !line_fits(line, last_side, Ghost(t)) {
            return None;
        }
        proof {
            t = line_step(line@, t).unwrap();
        }
        if !(line.len() > 0 && line[0] == 35u8) {
            let p = parse_line(line, last_side);
            last_side = p.side;
        }
        rest = next;
    }
    Some(parse_lines(string))
}

/// What is kept last first comes out in the order it was given: after `k` items are taken
/// off the end of a reversed list, the next one is the `k`-th of the original. A record's
/// rolls and each side's script are kept so, and replay in the order of the record.
pub proof fn lemma_replay_order<T>(given: Seq<T>, kept: Seq<T>, k: int)
    requires
        kept == given.reverse(),
        0 <= k < given.len(),
    ensures
        kept.subrange(0, kept.len() - k).last() == given[k],
{
}

} // verus!
