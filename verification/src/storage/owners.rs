use vstd::prelude::*;

use crate::decimal::{
    all_digits, decimal, is_digit, lemma_decimal, lemma_parse_decimal, parse_u64_range, push_decimal,
    spec_parse_u64, spec_u64_error, u64_parse_error,
};

verus! {

/// Index of the first occurrence of `b` in `s`, or `s.len()` when there is none.
pub open spec fn first_index_of(s: Seq<u8>, b: u8) -> nat
    decreases s.len(),
{
    if s.len() == 0 {
        0
    } else if s[0] == b {
        0
    } else {
        1 + first_index_of(s.drop_first(), b)
    }
}

/// Drops one trailing carriage return.
pub open spec fn strip_cr(l: Seq<u8>) -> Seq<u8> {
    if l.len() > 0 && l.last() == 13u8 {
        l.drop_last()
    } else {
        l
    }
}

/// The first line of a nonempty text and what follows its line feed, as `str::lines`
/// splits them: a `\r` just before the `\n` is not part of the line.
pub open spec fn next_line(s: Seq<u8>) -> (Seq<u8>, Seq<u8>) {
    let i = first_index_of(s, 10u8);
    if i < s.len() {
        (strip_cr(s.subrange(0, i as int)), s.subrange(i + 1 as int, s.len() as int))
    } else {
        (s, Seq::empty())
    }
}

/// Every line of the text holds a comma (a line without one makes the
/// owner index unreadable).
pub open spec fn owner_lines_well_formed(s: Seq<u8>) -> bool
    decreases s.len(),
{
    if s.len() == 0 {
        true
    } else {
        let i = first_index_of(s, 10u8);
        let line = next_line(s).0;
        let rest = next_line(s).1;
        &&& first_index_of(line, 44u8) < line.len()
        &&& if i < s.len() {
            owner_lines_well_formed(rest)
        } else {
            true
        }
    }
}

/// An owner line `id,owner[,...]`: the fields before the first and the second comma.
pub open spec fn spec_parse_owner_line(l: Seq<u8>) -> Option<(u64, u64)> {
    let c = first_index_of(l, 44u8);
    let rest = l.subrange(c + 1 as int, l.len() as int);
    let f2 = rest.subrange(0, first_index_of(rest, 44u8) as int);
    match (spec_parse_u64(l.subrange(0, c as int)), spec_parse_u64(f2)) {
        (Some(id), Some(owner)) => Some((id, owner)),
        _ => None,
    }
}

/// The `(id, owner)` entries of an owner index text, line by line; `None` when a
/// field is not a `u64`.
pub open spec fn spec_parse_owners(s: Seq<u8>) -> Option<Seq<(u64, u64)>>
    decreases s.len(),
{
    if s.len() == 0 {
        Some(Seq::empty())
    } else {
        let i = first_index_of(s, 10u8);
        let line = next_line(s).0;
        let rest = next_line(s).1;
        match spec_parse_owner_line(line) {
            None => None,
            Some(e) => if i < s.len() {
                match spec_parse_owners(rest) {
                    None => None,
                    Some(r) => Some(seq![e] + r),
                }
            } else {
                Some(seq![e])
            },
        }
    }
}

/// The words for the first field of an owner line that is not a `u64`.
pub open spec fn spec_owner_line_error(l: Seq<u8>) -> Seq<char> {
    let c = first_index_of(l, 44u8);
    let rest = l.subrange(c + 1 as int, l.len() as int);
    let f1 = l.subrange(0, c as int);
    let f2 = rest.subrange(0, first_index_of(rest, 44u8) as int);
    if spec_parse_u64(f1) is None {
        spec_u64_error(f1)
    } else {
        spec_u64_error(f2)
    }
}

/// The words for the first field of an owner index text that is not a `u64`,
/// as `str::parse::<u64>` gives them.
pub open spec fn spec_owners_error(s: Seq<u8>) -> Seq<char>
    decreases s.len(),
{
    if s.len() == 0 {
        Seq::empty()
    } else {
        let i = first_index_of(s, 10u8);
        let line = next_line(s).0;
        let rest = next_line(s).1;
        if spec_parse_owner_line(line) is None {
            spec_owner_line_error(line)
        } else if i < s.len() {
            spec_owners_error(rest)
        } else {
            Seq::empty()
        }
    }
}

/// The line `id,owner\n`.
pub open spec fn owner_line(id: u64, owner: u64) -> Seq<u8> {
    decimal(id as nat) + seq![44u8] + decimal(owner as nat) + seq![10u8]
}

/// The owner index text of a list of `(id, owner)` entries.
pub open spec fn owners_text(es: Seq<(u64, u64)>) -> Seq<u8>
    decreases es.len(),
{
    if es.len() == 0 {
        Seq::empty()
    } else {
        owner_line(es[0].0, es[0].1) + owners_text(es.drop_first())
    }
}

pub proof fn lemma_first_index_bound(s: Seq<u8>, b: u8)
    ensures
        first_index_of(s, b) <= s.len(),
        first_index_of(s, b) < s.len() ==> s[first_index_of(s, b) as int] == b,
        forall|k: int| 0 <= k < first_index_of(s, b) ==> s[k] != b,
    decreases s.len(),
{
    if s.len() > 0 && s[0] != b {
        lemma_first_index_bound(s.drop_first(), b);
        assert forall|k: int| 0 <= k < first_index_of(s, b) implies s[k] != b by {
            if k > 0 {
                assert(s[k] == s.drop_first()[k - 1]);
            }
        }
    }
}

/// The first `b` sits at `m` when nothing before `m` is `b` and `m` ends `s` or holds `b`.
pub proof fn lemma_first_index_at(s: Seq<u8>, b: u8, m: int)
    requires
        0 <= m <= s.len(),
        forall|k: int| 0 <= k < m ==> s[k] != b,
        m == s.len() || s[m] == b,
    ensures
        first_index_of(s, b) == m,
    decreases m,
{
    if m > 0 {
        let t = s.drop_first();
        assert forall|k: int| 0 <= k < m - 1 implies t[k] != b by {
            assert(t[k] == s[k + 1]);
        }
        if m < s.len() {
            assert(t[m - 1] == s[m]);
        }
        lemma_first_index_at(t, b, m - 1);
    }
}

proof fn lemma_digits_avoid(n: nat, b: u8)
    requires
        !is_digit(b),
    ensures
        forall|k: int| 0 <= k < decimal(n).len() ==> decimal(n)[k] != b,
{
    lemma_decimal(n);
    assert forall|k: int| 0 <= k < decimal(n).len() implies decimal(n)[k] != b by {
        assert(is_digit(decimal(n)[k]));
    }
}

/// Reading an owner index back gives the entries that were written, and the text
/// is well formed.
pub proof fn lemma_owners_roundtrip(es: Seq<(u64, u64)>)
    ensures
        spec_parse_owners(owners_text(es)) == Some(es),
        owner_lines_well_formed(owners_text(es)),
    decreases es.len(),
{
    if es.len() > 0 {
        let id = es[0].0;
        let owner = es[0].1;
        let d1 = decimal(id as nat);
        let d2 = decimal(owner as nat);
        let l = owner_line(id, owner);
        let r = owners_text(es.drop_first());
        let s = owners_text(es);
        assert(s == l + r);
        lemma_owners_roundtrip(es.drop_first());
        lemma_decimal(id as nat);
        lemma_decimal(owner as nat);
        lemma_digits_avoid(id as nat, 10u8);
        lemma_digits_avoid(owner as nat, 10u8);
        lemma_digits_avoid(id as nat, 44u8);
        lemma_digits_avoid(owner as nat, 44u8);
        let nl = l.len() - 1;
        assert forall|k: int| 0 <= k < nl implies s[k] != 10u8 by {
            if k < d1.len() {
                assert(s[k] == d1[k]);
            } else if k > d1.len() {
                assert(s[k] == d2[k - d1.len() - 1]);
            }
        }
        assert(s[nl] == 10u8);
        lemma_first_index_at(s, 10u8, nl);
        let body = d1 + seq![44u8] + d2;
        assert(s.subrange(0, nl) =~= body);
        assert(s.subrange(nl + 1, s.len() as int) =~= r);
        assert(body.last() == d2.last());
        assert(is_digit(d2[d2.len() - 1]));
        assert(strip_cr(body) == body);
        assert(next_line(s).0 == body);
        assert(next_line(s).1 == r);
        assert forall|k: int| 0 <= k < d1.len() implies body[k] != 44u8 by {
            assert(body[k] == d1[k]);
        }
        assert(body[d1.len() as int] == 44u8);
        lemma_first_index_at(body, 44u8, d1.len() as int);
        assert(body.subrange(0, d1.len() as int) =~= d1);
        assert(body.subrange(d1.len() + 1 as int, body.len() as int) =~= d2);
        lemma_first_index_at(d2, 44u8, d2.len() as int);
        assert(d2.subrange(0, d2.len() as int) =~= d2);
        lemma_parse_decimal(id);
        lemma_parse_decimal(owner);
        assert(spec_parse_owner_line(body) == Some((id, owner)));
        assert(seq![(id, owner)] + es.drop_first() =~= es);
    }
}

/// Appends the line `id,owner\n` to `out`.
pub fn push_owner_line(id: u64, owner: u64, out: &mut Vec<u8>)
    ensures
        final(out)@ == old(out)@ + owner_line(id, owner),
{
    push_decimal(id, out);
    out.push(44u8);
    push_decimal(owner, out);
    out.push(10u8);
    assert(final(out)@ =~= old(out)@ + owner_line(id, owner));
}

/// The owner index text of `entries`, one `id,owner` line each.
pub fn format_owners(entries: &Vec<(u64, u64)>) -> (r: Vec<u8>)
    ensures
        r@ == owners_text(entries@),
{
    let mut out: Vec<u8> = Vec::new();
    let mut i: usize = entries.len();
    let ghost es = entries@;
    let mut tail: Vec<u8> = Vec::new();
    // Build from the back so that the text grows as owners_text unfolds.
    while i > 0
        invariant
            i <= es.len(),
            es == entries@,
            tail@ == owners_text(es.subrange(i as int, es.len() as int)),
        decreases i,
    {
        i = i - 1;
        let (id, owner) = entries[i];
        let mut line: Vec<u8> = Vec::new();
        push_owner_line(id, owner, &mut line);
        line.append(&mut tail);
        tail = line;
        proof {
            let sub = es.subrange(i as int, es.len() as int);
            assert(sub.drop_first() =~= es.subrange(i + 1, es.len() as int));
            assert(sub[0] == (id, owner));
        }
    }
    assert(es.subrange(0, es.len() as int) =~= es);
    out.append(&mut tail);
    assert(out@ =~= owners_text(es));
    out
}

/// Whether every line of an owner index text holds a comma.
pub fn owners_text_well_formed(text: &Vec<u8>) -> (r: bool)
    ensures
        r == owner_lines_well_formed(text@),
{
    let n = text.len();
    let mut pos: usize = 0;
    let ghost s = text@;
    assert(s.subrange(0, n as int) =~= s);
    while pos < n
        invariant
            n == s.len(),
            s == text@,
            pos <= n,
            owner_lines_well_formed(s) == owner_lines_well_formed(s.subrange(pos as int, n as int)),
        decreases n - pos,
    {
        let ghost t = s.subrange(pos as int, n as int);
        let (line_end, next) = line_bounds(text, pos);
        let mut c = pos;
        let mut found = false;
        while c < line_end
            invariant_except_break
                !found,
            invariant
                pos <= c <= line_end <= n,
                n == s.len(),
                s == text@,
                forall|k: int| pos <= k < c ==> s[k] != 44u8,
            ensures
                pos <= c <= line_end,
                forall|k: int| pos <= k < c ==> s[k] != 44u8,
                found ==> c < line_end && s[c as int] == 44u8,
                !found ==> c == line_end,
            decreases line_end - c,
        {
            if text[c] == 44u8 {
                found = true;
                break;
            }
            c = c + 1;
        }
        proof {
            let line = next_line(t).0;
            assert(line =~= s.subrange(pos as int, line_end as int));
            if found {
                lemma_first_index_bound(line, 44u8);
                assert(line[c - pos] == 44u8);
                if first_index_of(line, 44u8) >= line.len() {
                    assert(false);
                }
            } else {
                lemma_first_index_at(line, 44u8, line.len() as int);
            }
        }
        if !found {
            return false;
        }
        proof {
            if next < n {
                assert(s.subrange(next as int, n as int) =~= next_line(t).1);
            } else {
                assert(s.subrange(n as int, n as int) =~= Seq::<u8>::empty());
                if first_index_of(t, 10u8) < t.len() {
                    assert(next_line(t).1 =~= Seq::<u8>::empty());
                }
            }
        }
        pos = next;
    }
    true
}

/// The end of the line that starts at `pos` (a `\r` before the `\n` excluded) and
/// where the next line starts, with what `next_line` says of the rest of the text.
fn line_bounds(text: &Vec<u8>, pos: usize) -> (r: (usize, usize))
    requires
        pos < text.len(),
    ensures
        pos <= r.0 <= r.1 <= text.len(),
        pos < r.1,
        next_line(text@.subrange(pos as int, text.len() as int)).0 == text@.subrange(
            pos as int,
            r.0 as int,
        ),
        r.1 < text.len() ==> next_line(text@.subrange(pos as int, text.len() as int)).1
            == text@.subrange(r.1 as int, text.len() as int),
        r.1 < text.len() ==> first_index_of(text@.subrange(pos as int, text.len() as int), 10u8)
            < text@.subrange(pos as int, text.len() as int).len(),
        r.1 == text.len() ==> (first_index_of(text@.subrange(pos as int, text.len() as int), 10u8)
            >= text@.subrange(pos as int, text.len() as int).len() || next_line(
            text@.subrange(pos as int, text.len() as int),
        ).1.len() == 0),
{
    let n = text.len();
    let ghost t = text@.subrange(pos as int, n as int);
    let mut j = pos;
    while j < n
        invariant
            pos <= j <= n,
            n == text.len(),
            forall|k: int| pos <= k < j ==> text@[k] != 10u8,
        ensures
            pos <= j <= n,
            forall|k: int| pos <= k < j ==> text@[k] != 10u8,
            j == n || text@[j as int] == 10u8,
        decreases n - j,
    {
        if text[j] == 10u8 {
            break;
        }
        j = j + 1;
    }
    proof {
        assert forall|k: int| 0 <= k < j - pos implies t[k] != 10u8 by {
            assert(t[k] == text@[pos + k]);
        }
        if j < n {
            assert(t[j - pos] == 10u8);
        }
        lemma_first_index_at(t, 10u8, j - pos);
    }
    if j < n {
        let mut e = j;
        if j > pos && text[j - 1] == 13u8 {
            e = j - 1;
        }
        proof {
            let raw = t.subrange(0, j - pos);
            assert(raw =~= text@.subrange(pos as int, j as int));
            if j > pos && text@[j - 1] == 13u8 {
                assert(raw.drop_last() =~= text@.subrange(pos as int, e as int));
            } else {
                assert(strip_cr(raw) == raw);
            }
            assert(t.subrange(j - pos + 1, t.len() as int) =~= text@.subrange(j + 1, n as int));
        }
        (e, j + 1)
    } else {
        assert(t =~= text@.subrange(pos as int, n as int));
        (n, n)
    }
}

/// The first comma at or after `a` and before `b`, or `b`.
fn comma_in(text: &Vec<u8>, a: usize, b: usize) -> (c: usize)
    requires
        a <= b <= text.len(),
    ensures
        a <= c <= b,
        c == a + first_index_of(text@.subrange(a as int, b as int), 44u8),
{
    let mut c = a;
    while c < b
        invariant
            a <= c <= b <= text.len(),
            forall|k: int| a <= k < c ==> text@[k] != 44u8,
        ensures
            a <= c <= b,
            forall|k: int| a <= k < c ==> text@[k] != 44u8,
            c == b || text@[c as int] == 44u8,
        decreases b - c,
    {
        if text[c] == 44u8 {
            break;
        }
        c = c + 1;
    }
    proof {
        let t = text@.subrange(a as int, b as int);
        assert forall|k: int| 0 <= k < c - a implies t[k] != 44u8 by {
            assert(t[k] == text@[a + k]);
        }
        if c < b {
            assert(t[c - a] == 44u8);
        }
        lemma_first_index_at(t, 44u8, c - a);
    }
    c
}

/// Reads an owner index text into its `(id, owner)` entries, in file order.
pub fn parse_owners(text: &Vec<u8>) -> (r: Option<Vec<(u64, u64)>>)
    requires
        owner_lines_well_formed(text@),
    ensures
        r is Some <==> spec_parse_owners(text@) is Some,
        r is Some ==> r->0@ == spec_parse_owners(text@)->0,
{
    let n = text.len();
    let ghost s = text@;
    let mut pos: usize = 0;
    let mut entries: Vec<(u64, u64)> = Vec::new();
    assert(s.subrange(0, n as int) =~= s);
    assert(entries@ + Seq::<(u64, u64)>::empty() =~= entries@);
    while pos < n
        invariant
            n == s.len(),
            s == text@,
            pos <= n,
            owner_lines_well_formed(s.subrange(pos as int, n as int)),
            spec_parse_owners(s) == (match spec_parse_owners(s.subrange(pos as int, n as int)) {
                None => None,
                Some(rest) => Some(entries@ + rest),
            }),
        decreases n - pos,
    {
        let ghost t = s.subrange(pos as int, n as int);
        let (line_end, next) = line_bounds(text, pos);
        let c = comma_in(text, pos, line_end);
        let ghost line = s.subrange(pos as int, line_end as int);
        proof {
            assert(line == next_line(t).0);
            assert(first_index_of(line, 44u8) < line.len());
        }
        let c2 = comma_in(text, c + 1, line_end);
        let id = parse_u64_range(text, pos, c);
        let owner = parse_u64_range(text, c + 1, c2);
        proof {
            let fc = first_index_of(line, 44u8);
            assert(fc == c - pos);
            assert(line.subrange(0, fc as int) =~= s.subrange(pos as int, c as int));
            let rest = line.subrange(fc + 1 as int, line.len() as int);
            assert(rest =~= s.subrange(c + 1, line_end as int));
            assert(rest.subrange(0, first_index_of(rest, 44u8) as int) =~= s.subrange(
                c + 1,
                c2 as int,
            ));
        }
        match (id, owner) {
            (Some(i), Some(o)) => {
                let ghost before = entries@;
                entries.push((i, o));
                proof {
                    let e = (i, o);
                    assert(spec_parse_owner_line(line) == Some(e));
                    if next < n {
                        let r2 = s.subrange(next as int, n as int);
                        assert(r2 == next_line(t).1);
                        match spec_parse_owners(r2) {
                            None => {},
                            Some(rr) => {
                                assert(before + (seq![e] + rr) =~= entries@ + rr);
                            },
                        }
                    } else {
                        assert(s.subrange(n as int, n as int) =~= Seq::<u8>::empty());
                        assert(before + seq![e] =~= entries@ + Seq::<(u64, u64)>::empty());
                        if first_index_of(t, 10u8) < t.len() {
                            assert(next_line(t).1.len() == 0);
                            assert(next_line(t).1 =~= Seq::<u8>::empty());
                            assert(seq![e] + Seq::<(u64, u64)>::empty() =~= seq![e]);
                        }
                    }
                }
                pos = next;
            },
            _ => {
                return None;
            },
        }
    }
    proof {
        assert(s.subrange(n as int, n as int) =~= Seq::<u8>::empty());
        assert(entries@ + Seq::<(u64, u64)>::empty() =~= entries@);
    }
    Some(entries)
}

/// The words for the first field of an owner index text that is not a `u64`.
pub fn owners_error(text: &Vec<u8>) -> (r: String)
    requires
        owner_lines_well_formed(text@),
    ensures
        r@ == spec_owners_error(text@),
{
    let n = text.len();
    let ghost s = text@;
    let mut pos: usize = 0;
    assert(s.subrange(0, n as int) =~= s);
    while pos < n
        invariant
            n == s.len(),
            s == text@,
            pos <= n,
            owner_lines_well_formed(s.subrange(pos as int, n as int)),
            spec_owners_error(s) == spec_owners_error(s.subrange(pos as int, n as int)),
        decreases n - pos,
    {
        let ghost t = s.subrange(pos as int, n as int);
        let (line_end, next) = line_bounds(text, pos);
        let c = comma_in(text, pos, line_end);
        let ghost line = s.subrange(pos as int, line_end as int);
        proof {
            assert(line == next_line(t).0);
            assert(first_index_of(line, 44u8) < line.len());
        }
        let c2 = comma_in(text, c + 1, line_end);
        let id = parse_u64_range(text, pos, c);
        let owner = parse_u64_range(text, c + 1, c2);
        proof {
            let fc = first_index_of(line, 44u8);
            assert(fc == c - pos);
            assert(line.subrange(0, fc as int) =~= s.subrange(pos as int, c as int));
            let rest = line.subrange(fc + 1 as int, line.len() as int);
            assert(rest =~= s.subrange(c + 1, line_end as int));
            assert(rest.subrange(0, first_index_of(rest, 44u8) as int) =~= s.subrange(
                c + 1,
                c2 as int,
            ));
        }
        if id.is_none() {
            return u64_parse_error(text, pos, c);
        }
        if owner.is_none() {
            return u64_parse_error(text, c + 1, c2);
        }
        proof {
            if next < n {
                assert(s.subrange(next as int, n as int) == next_line(t).1);
            } else {
                assert(s.subrange(n as int, n as int) =~= Seq::<u8>::empty());
                if first_index_of(t, 10u8) < t.len() {
                    assert(next_line(t).1 =~= Seq::<u8>::empty());
                }
            }
        }
        pos = next;
    }
    proof {
        assert(s.subrange(n as int, n as int) =~= Seq::<u8>::empty());
    }
    String::new()
}

} // verus!
