//! Editing calendar events: the attendee change of an edit, and the split of a
//! recurring series at an occurrence ("this and future occurrences").
use vstd::prelude::*;

use crate::datetime::{datetime_format, format_utc, ical_utc_pattern, instant_in_range, one_second};
use crate::db::error::DbError;
use crate::text::{clone_opt_string, contains_seq, find_str, occurs_at};
use crate::types::{opt_string_view, EventFull, EventUpdate};

verus! {

/// `UNTIL=`, the recurrence-rule part that ends a series.
pub open spec fn until_key() -> Seq<char> {
    seq!['U', 'N', 'T', 'I', 'L', '=']
}

/// The first position at which `pat` occurs in `s` (meaningful where it occurs).
pub open spec fn first_occurrence(s: Seq<char>, pat: Seq<char>) -> int {
    choose|i: int| occurs_at(s, pat, i) && forall|k: int| 0 <= k < i ==> !occurs_at(s, pat, k)
}

/// Where a rule value that starts at `p` ends: the first `;` at or after `p`, or the
/// end of the rule.
pub open spec fn value_end(s: Seq<char>, p: int) -> int
    decreases s.len() - p,
{
    if p >= s.len() || p < 0 {
        s.len() as int
    } else if s[p] == ';' {
        p
    } else {
        value_end(s, p + 1)
    }
}

/// The rule `rrule` ended at `until`: the first `UNTIL=` and the value after it (up to
/// the next `;`) are replaced by `UNTIL=<until>`; a rule without `UNTIL=` gets
/// `;UNTIL=<until>` appended.
pub open spec fn truncated_rrule(rrule: Seq<char>, until: Seq<char>) -> Seq<char> {
    if contains_seq(rrule, until_key()) {
        let i = first_occurrence(rrule, until_key());
        let j = value_end(rrule, i + until_key().len());
        rrule.subrange(0, i) + until_key() + until + rrule.subrange(j, rrule.len() as int)
    } else {
        rrule + seq![';'] + until_key() + until
    }
}

proof fn lemma_first_occurrence(s: Seq<char>, pat: Seq<char>, i: int)
    requires
        occurs_at(s, pat, i),
        forall|k: int| 0 <= k < i ==> !occurs_at(s, pat, k),
    ensures
        first_occurrence(s, pat) == i,
{
    let f = first_occurrence(s, pat);
    assert(occurs_at(s, pat, f) && forall|k: int| 0 <= k < f ==> !occurs_at(s, pat, k));
    if f < i {
        assert(!occurs_at(s, pat, f));
    }
    if i < f {
        assert(!occurs_at(s, pat, i));
    }
}

proof fn lemma_min_occurrence_from(s: Seq<char>, pat: Seq<char>, k: int, w: int)
    requires
        0 <= k <= w,
        occurs_at(s, pat, w),
        forall|q: int| 0 <= q < k ==> !occurs_at(s, pat, q),
    ensures
        occurs_at(s, pat, first_occurrence(s, pat)),
        forall|q: int| 0 <= q < first_occurrence(s, pat) ==> !occurs_at(s, pat, q),
    decreases w - k,
{
    if occurs_at(s, pat, k) {
        lemma_first_occurrence(s, pat, k);
    } else {
        lemma_min_occurrence_from(s, pat, k + 1, w);
    }
}

/// Where `pat` occurs in `s`, `first_occurrence` is its earliest position.
proof fn lemma_first_occurrence_found(s: Seq<char>, pat: Seq<char>)
    requires
        contains_seq(s, pat),
    ensures
        occurs_at(s, pat, first_occurrence(s, pat)),
        forall|q: int| 0 <= q < first_occurrence(s, pat) ==> !occurs_at(s, pat, q),
{
    let w = choose|w: int| occurs_at(s, pat, w);
    lemma_min_occurrence_from(s, pat, 0, w);
}

proof fn lemma_value_end_step(s: Seq<char>, p: int)
    requires
        0 <= p < s.len(),
        s[p] != ';',
    ensures
        value_end(s, p) == value_end(s, p + 1),
{
}

/// Ends the rule `rrule` at `until` (see `truncated_rrule`); this is what replacing
/// the pattern `UNTIL=[^;]*` does.
pub fn truncate_rrule(rrule: &str, until: &str) -> (r: String)
    ensures
        r@ == truncated_rrule(rrule@, until@),
{
    proof {
        reveal_strlit("UNTIL=");
        reveal_strlit(";UNTIL=");
        assert("UNTIL="@ =~= until_key());
    }
    match find_str(rrule, "UNTIL=") {
        Some(i) => {
            proof {
                lemma_first_occurrence(rrule@, until_key(), i as int);
            }
            let n = rrule.unicode_len();
            let mut j: usize = i + 6;
            while j < n && rrule.get_char(j) != ';'
                invariant
                    n == rrule@.len(),
                    i + 6 <= j <= n,
                    value_end(rrule@, j as int) == value_end(rrule@, i + 6),
                decreases n - j,
            {
                proof {
                    lemma_value_end_step(rrule@, j as int);
                }
                j = j + 1;
            }
            let mut out = String::from_str(rrule.substring_char(0, i));
            out.append("UNTIL=");
            out.append(until);
            out.append(rrule.substring_char(j, n));
            assert(out@ =~= truncated_rrule(rrule@, until@));
            out
        },
        None => {
            let mut out = String::from_str(rrule);
            out.append(";UNTIL=");
            out.append(until);
            assert(";UNTIL="@ =~= seq![';'] + until_key());
            assert(out@ =~= truncated_rrule(rrule@, until@));
            out
        },
    }
}

/// The `;`-separated parts of a recurrence rule.
pub open spec fn rule_parts(s: Seq<char>) -> Seq<Seq<char>>
    decreases s.len(),
{
    if s.len() == 0 {
        seq![Seq::<char>::empty()]
    } else {
        let p = rule_parts(s.drop_last());
        if s.last() == ';' {
            p.push(Seq::<char>::empty())
        } else {
            p.update(p.len() - 1, p.last().push(s.last()))
        }
    }
}

/// Parts joined with `;`.
pub open spec fn join_parts(parts: Seq<Seq<char>>) -> Seq<char>
    decreases parts.len(),
{
    if parts.len() == 0 {
        Seq::empty()
    } else if parts.len() == 1 {
        parts[0]
    } else {
        join_parts(parts.drop_last()) + seq![';'] + parts.last()
    }
}

/// Whether a rule part is an `UNTIL=` part.
pub open spec fn is_until_part(p: Seq<char>) -> bool {
    p.len() >= until_key().len() && p.subrange(0, until_key().len() as int) == until_key()
}

/// The parts that are not `UNTIL=` parts, in order.
pub open spec fn non_until_parts(parts: Seq<Seq<char>>) -> Seq<Seq<char>>
    decreases parts.len(),
{
    if parts.len() == 0 {
        parts
    } else if is_until_part(parts.last()) {
        non_until_parts(parts.drop_last())
    } else {
        non_until_parts(parts.drop_last()).push(parts.last())
    }
}

/// The rule without its `UNTIL=` parts: the series it describes is open-ended.
pub open spec fn rrule_without_until(s: Seq<char>) -> Seq<char> {
    join_parts(non_until_parts(rule_parts(s)))
}

proof fn lemma_rule_parts_nonempty(s: Seq<char>)
    ensures
        rule_parts(s).len() >= 1,
    decreases s.len(),
{
    if s.len() > 0 {
        lemma_rule_parts_nonempty(s.drop_last());
    }
}

proof fn lemma_join_push(parts: Seq<Seq<char>>, c: Seq<char>)
    ensures
        join_parts(parts.push(c)) == if parts.len() == 0 {
            c
        } else {
            join_parts(parts) + seq![';'] + c
        },
{
    assert(parts.push(c).drop_last() =~= parts);
}

proof fn lemma_filter_push(parts: Seq<Seq<char>>, c: Seq<char>)
    ensures
        non_until_parts(parts.push(c)) == if !is_until_part(c) {
            non_until_parts(parts).push(c)
        } else {
            non_until_parts(parts)
        },
{
    assert(parts.push(c).drop_last() =~= parts);
}

proof fn lemma_parts_no_separator(s: Seq<char>)
    requires
        !s.contains(';'),
    ensures
        rule_parts(s) == seq![s],
    decreases s.len(),
{
    if s.len() > 0 {
        let init = s.drop_last();
        assert(!init.contains(';')) by {
            if init.contains(';') {
                let w = choose|w: int| 0 <= w < init.len() && init[w] == ';';
                assert(s[w] == ';');
            }
        }
        lemma_parts_no_separator(init);
        assert(s.last() != ';') by {
            assert(s[s.len() - 1] == s.last());
        }
        assert(init.push(s.last()) =~= s);
        assert(rule_parts(s) =~= seq![s]);
    } else {
        assert(s =~= Seq::<char>::empty());
    }
}

proof fn lemma_parts_concat(x: Seq<char>, y: Seq<char>)
    ensures
        rule_parts(x + seq![';'] + y) == rule_parts(x) + rule_parts(y),
    decreases y.len(),
{
    let xs = x + seq![';'];
    if y.len() == 0 {
        assert(xs + y =~= xs);
        assert(xs.drop_last() =~= x);
        assert(rule_parts(y) =~= seq![Seq::<char>::empty()]);
        assert(rule_parts(xs) =~= rule_parts(x) + rule_parts(y));
    } else {
        let yi = y.drop_last();
        let c = y.last();
        lemma_parts_concat(x, yi);
        lemma_rule_parts_nonempty(yi);
        lemma_rule_parts_nonempty(x);
        assert((xs + y).drop_last() =~= xs + yi);
        assert((xs + y).last() == c);
        let px = rule_parts(x);
        let py = rule_parts(yi);
        if c == ';' {
            assert(rule_parts(xs + y) =~= (px + py).push(Seq::<char>::empty()));
            assert(rule_parts(y) =~= py.push(Seq::<char>::empty()));
            assert((px + py).push(Seq::<char>::empty()) =~= px + py.push(Seq::<char>::empty()));
        } else {
            let both = px + py;
            assert(both.last() == py.last());
            assert(rule_parts(xs + y) =~= both.update(both.len() - 1, both.last().push(c)));
            assert(rule_parts(y) =~= py.update(py.len() - 1, py.last().push(c)));
            assert(both.update(both.len() - 1, both.last().push(c)) =~= px + py.update(py.len() - 1, py.last().push(c)));
        }
    }
}

proof fn lemma_non_until_concat(a: Seq<Seq<char>>, b: Seq<Seq<char>>)
    ensures
        non_until_parts(a + b) == non_until_parts(a) + non_until_parts(b),
    decreases b.len(),
{
    if b.len() == 0 {
        assert(a + b =~= a);
        assert(non_until_parts(a) + non_until_parts(b) =~= non_until_parts(a));
    } else {
        let bi = b.drop_last();
        lemma_non_until_concat(a, bi);
        assert((a + b).drop_last() =~= a + bi);
        assert((a + b).last() == b.last());
        if !is_until_part(b.last()) {
            assert(non_until_parts(a) + non_until_parts(bi).push(b.last()) =~= (non_until_parts(a)
                + non_until_parts(bi)).push(b.last()));
        }
    }
}

proof fn lemma_value_end_props(s: Seq<char>, p: int)
    requires
        0 <= p <= s.len(),
    ensures
        p <= value_end(s, p) <= s.len(),
        forall|k: int| p <= k < value_end(s, p) ==> s[k] != ';',
        value_end(s, p) < s.len() ==> s[value_end(s, p)] == ';',
    decreases s.len() - p,
{
    if p < s.len() && s[p] != ';' {
        lemma_value_end_props(s, p + 1);
    }
}

proof fn lemma_join_rule_parts(s: Seq<char>)
    ensures
        join_parts(rule_parts(s)) == s,
    decreases s.len(),
{
    if s.len() == 0 {
        assert(s =~= Seq::<char>::empty());
    } else {
        let init = s.drop_last();
        let c = s.last();
        let p = rule_parts(init);
        lemma_join_rule_parts(init);
        lemma_rule_parts_nonempty(init);
        assert(init.push(c) =~= s);
        if c == ';' {
            lemma_join_push(p, Seq::<char>::empty());
            assert(join_parts(p) + seq![';'] + Seq::<char>::empty() =~= s);
        } else {
            let q = p.update(p.len() - 1, p.last().push(c));
            if p.len() == 1 {
                assert(join_parts(q) == q[0]);
                assert(q[0] =~= p[0].push(c));
                assert(join_parts(p) == p[0]);
            } else {
                assert(q.drop_last() =~= p.drop_last());
                assert(q.last() == p.last().push(c));
                assert(join_parts(q) == join_parts(q.drop_last()) + seq![';'] + q.last());
                assert(join_parts(p) == join_parts(p.drop_last()) + seq![';'] + p.last());
                assert(join_parts(q) =~= join_parts(p).push(c));
            }
        }
    }
}

/// Whether `p` occurs somewhere in `s`.
spec fn occurs_in(s: Seq<char>, p: Seq<char>) -> bool {
    exists|i: int| occurs_at(s, p, i)
}

proof fn lemma_rule_parts_occur(s: Seq<char>)
    ensures
        forall|k: int| 0 <= k < rule_parts(s).len() ==> occurs_in(s, #[trigger] rule_parts(s)[k]),
        occurs_at(s, rule_parts(s).last(), s.len() - rule_parts(s).last().len()),
    decreases s.len(),
{
    lemma_rule_parts_nonempty(s);
    let parts = rule_parts(s);
    if s.len() == 0 {
        assert(parts[0] =~= Seq::<char>::empty());
        assert(s.subrange(0, 0) =~= Seq::<char>::empty());
        assert(occurs_at(s, parts[0], 0));
        assert forall|k: int| 0 <= k < parts.len() implies occurs_in(s, #[trigger] parts[k]) by {
            assert(occurs_at(s, parts[k], 0));
        }
    } else {
        let init = s.drop_last();
        let c = s.last();
        let p = rule_parts(init);
        lemma_rule_parts_occur(init);
        lemma_rule_parts_nonempty(init);
        assert forall|k: int| 0 <= k < p.len() implies occurs_in(s, #[trigger] p[k]) by {
            assert(occurs_in(init, p[k]));
            let i = choose|i: int| occurs_at(init, p[k], i);
            assert(s.subrange(i, i + p[k].len()) =~= init.subrange(i, i + p[k].len()));
            assert(occurs_at(s, p[k], i));
        }
        if c == ';' {
            assert(parts == p.push(Seq::<char>::empty()));
            assert(s.subrange(s.len() as int, s.len() as int) =~= Seq::<char>::empty());
            assert(occurs_at(s, parts.last(), s.len() as int));
            assert forall|k: int| 0 <= k < parts.len() implies occurs_in(s, #[trigger] parts[k]) by {
                if k < p.len() {
                    assert(parts[k] == p[k]);
                } else {
                    assert(occurs_at(s, parts[k], s.len() as int));
                }
            }
        } else {
            let l = p.last();
            assert(parts == p.update(p.len() - 1, l.push(c)));
            let st = init.len() - l.len();
            assert(occurs_at(init, l, st));
            assert(s.subrange(st, s.len() as int) =~= init.subrange(st, init.len() as int).push(c));
            assert(occurs_at(s, parts.last(), s.len() - parts.last().len()));
            assert forall|k: int| 0 <= k < parts.len() implies occurs_in(s, #[trigger] parts[k]) by {
                if k < p.len() - 1 {
                    assert(parts[k] == p[k]);
                } else {
                    assert(occurs_at(s, parts[k], s.len() - parts.last().len()));
                }
            }
        }
    }
}

proof fn lemma_non_until_identity(parts: Seq<Seq<char>>)
    requires
        forall|k: int| 0 <= k < parts.len() ==> !is_until_part(#[trigger] parts[k]),
    ensures
        non_until_parts(parts) == parts,
    decreases parts.len(),
{
    if parts.len() > 0 {
        let init = parts.drop_last();
        assert forall|k: int| 0 <= k < init.len() implies !is_until_part(#[trigger] init[k]) by {
            assert(init[k] == parts[k]);
        }
        lemma_non_until_identity(init);
        assert(!is_until_part(parts[parts.len() - 1]));
        assert(init.push(parts.last()) =~= parts);
    }
}

/// A rule without `UNTIL=` is open-ended already: taking its `UNTIL=` parts out leaves
/// it as it is.
pub proof fn lemma_open_rule_unchanged(rrule: Seq<char>)
    requires
        !contains_seq(rrule, until_key()),
    ensures
        rrule_without_until(rrule) == rrule,
{
    let parts = rule_parts(rrule);
    lemma_rule_parts_occur(rrule);
    assert forall|k: int| 0 <= k < parts.len() implies !is_until_part(#[trigger] parts[k]) by {
        if is_until_part(parts[k]) {
            assert(occurs_in(rrule, parts[k]));
            let i = choose|i: int| occurs_at(rrule, parts[k], i);
            assert(rrule.subrange(i, i + 6) =~= parts[k].subrange(0, 6));
            assert(occurs_at(rrule, until_key(), i));
        }
    }
    lemma_non_until_identity(parts);
    lemma_join_rule_parts(rrule);
}

/// Whether the first `UNTIL=` of a rule begins one of its `;`-separated parts.
pub open spec fn until_starts_part(rrule: Seq<char>) -> bool {
    contains_seq(rrule, until_key()) ==> {
        let i = first_occurrence(rrule, until_key());
        i == 0 || rrule[i - 1] == ';'
    }
}

proof fn lemma_single_until_part_dropped(p: Seq<char>)
    requires
        is_until_part(p),
    ensures
        non_until_parts(seq![p]) == Seq::<Seq<char>>::empty(),
{
    let e = Seq::<Seq<char>>::empty();
    assert(seq![p].drop_last() =~= e);
    assert(seq![p].last() == p);
    assert(non_until_parts(e) == e);
    assert(non_until_parts(seq![p]) == non_until_parts(seq![p].drop_last()));
}

proof fn lemma_until_value_part(until: Seq<char>)
    requires
        !until.contains(';'),
    ensures
        !(until_key() + until).contains(';'),
        is_until_part(until_key() + until),
{
    let key = until_key();
    let tail = key + until;
    assert(!tail.contains(';')) by {
        if tail.contains(';') {
            let w = choose|w: int| 0 <= w < tail.len() && tail[w] == ';';
            if w >= key.len() {
                assert(until[w - key.len()] == ';');
            }
        }
    }
    assert(tail.subrange(0, 6) =~= key);
}

proof fn lemma_parts_around(r: Seq<char>, i: int, j: int, mid: Seq<char>)
    requires
        0 <= i <= j <= r.len(),
        i == 0 || r[i - 1] == ';',
        j == r.len() || r[j] == ';',
        !mid.contains(';'),
    ensures
        rule_parts(r.subrange(0, i) + mid + r.subrange(j, r.len() as int)) == (if i == 0 {
            Seq::<Seq<char>>::empty()
        } else {
            rule_parts(r.subrange(0, i - 1))
        }) + seq![mid] + (if j == r.len() {
            Seq::<Seq<char>>::empty()
        } else {
            rule_parts(r.subrange(j + 1, r.len() as int))
        }),
{
    let n = r.len() as int;
    lemma_parts_no_separator(mid);
    let left = r.subrange(0, i);
    let right = r.subrange(j, n);
    if i == 0 {
        assert(left =~= Seq::<char>::empty());
        if j == n {
            assert(left + mid + right =~= mid);
            assert(Seq::<Seq<char>>::empty() + seq![mid] + Seq::<Seq<char>>::empty() =~= seq![mid]);
        } else {
            assert(right =~= seq![';'] + r.subrange(j + 1, n));
            assert(left + mid + right =~= mid + seq![';'] + r.subrange(j + 1, n));
            lemma_parts_concat(mid, r.subrange(j + 1, n));
            assert(Seq::<Seq<char>>::empty() + seq![mid] + rule_parts(r.subrange(j + 1, n)) =~= seq![mid]
                + rule_parts(r.subrange(j + 1, n)));
        }
    } else {
        assert(left =~= r.subrange(0, i - 1) + seq![';']);
        if j == n {
            assert(left + mid + right =~= r.subrange(0, i - 1) + seq![';'] + mid);
            lemma_parts_concat(r.subrange(0, i - 1), mid);
            assert(rule_parts(r.subrange(0, i - 1)) + seq![mid] + Seq::<Seq<char>>::empty() =~= rule_parts(
                r.subrange(0, i - 1),
            ) + seq![mid]);
        } else {
            assert(right =~= seq![';'] + r.subrange(j + 1, n));
            assert(left + mid + right =~= r.subrange(0, i - 1) + seq![';'] + (mid + seq![';']
                + r.subrange(j + 1, n)));
            lemma_parts_concat(mid, r.subrange(j + 1, n));
            lemma_parts_concat(r.subrange(0, i - 1), mid + seq![';'] + r.subrange(j + 1, n));
            assert(rule_parts(r.subrange(0, i - 1)) + (seq![mid] + rule_parts(r.subrange(j + 1, n)))
                =~= rule_parts(r.subrange(0, i - 1)) + seq![mid] + rule_parts(r.subrange(j + 1, n)));
        }
    }
}

proof fn lemma_replace_until_part(r: Seq<char>, i: int, j: int, tail: Seq<char>)
    requires
        0 <= i <= j <= r.len(),
        i == 0 || r[i - 1] == ';',
        j == r.len() || r[j] == ';',
        !r.subrange(i, j).contains(';'),
        is_until_part(r.subrange(i, j)),
        !tail.contains(';'),
        is_until_part(tail),
    ensures
        non_until_parts(rule_parts(r.subrange(0, i) + tail + r.subrange(j, r.len() as int)))
            == non_until_parts(rule_parts(r)),
{
    let n = r.len() as int;
    let b = r.subrange(i, j);
    let pre = if i == 0 { Seq::<Seq<char>>::empty() } else { rule_parts(r.subrange(0, i - 1)) };
    let post = if j == n { Seq::<Seq<char>>::empty() } else { rule_parts(r.subrange(j + 1, n)) };
    lemma_parts_around(r, i, j, b);
    lemma_parts_around(r, i, j, tail);
    assert(r.subrange(0, i) + b + r.subrange(j, n) =~= r);
    lemma_single_until_part_dropped(b);
    lemma_single_until_part_dropped(tail);
    lemma_non_until_concat(pre + seq![b], post);
    lemma_non_until_concat(pre, seq![b]);
    lemma_non_until_concat(pre + seq![tail], post);
    lemma_non_until_concat(pre, seq![tail]);
}

proof fn lemma_until_value_bounds(rrule: Seq<char>, i: int)
    requires
        occurs_at(rrule, until_key(), i),
    ensures
        !rrule.subrange(i, value_end(rrule, i + 6)).contains(';'),
        is_until_part(rrule.subrange(i, value_end(rrule, i + 6))),
        i + 6 <= value_end(rrule, i + 6) <= rrule.len(),
        value_end(rrule, i + 6) == rrule.len() || rrule[value_end(rrule, i + 6)] == ';',
{
    let key = until_key();
    let j = value_end(rrule, i + 6);
    lemma_value_end_props(rrule, i + 6);
    let b = rrule.subrange(i, j);
    assert(!b.contains(';')) by {
        if b.contains(';') {
            let w = choose|w: int| 0 <= w < b.len() && b[w] == ';';
            assert(rrule[i + w] == ';');
            if w < 6 {
                assert(rrule.subrange(i, i + 6)[w] == key[w]);
            }
        }
    }
    assert(b.subrange(0, 6) =~= rrule.subrange(i, i + 6));
}

/// Splitting a series keeps its recurrence pattern: without their `UNTIL=` parts, the
/// rule ended at `until` and the rule it was cut from are the same, for a rule whose first
/// `UNTIL=` begins a part and an `until` value without `;`.
pub proof fn lemma_truncation_keeps_pattern(rrule: Seq<char>, until: Seq<char>)
    requires
        until_starts_part(rrule),
        !until.contains(';'),
    ensures
        rrule_without_until(truncated_rrule(rrule, until)) == rrule_without_until(rrule),
{
    let key = until_key();
    let tail = key + until;
    lemma_until_value_part(until);
    if !contains_seq(rrule, key) {
        let t = rrule + seq![';'] + tail;
        assert(truncated_rrule(rrule, until) =~= t);
        lemma_parts_no_separator(tail);
        lemma_parts_concat(rrule, tail);
        lemma_single_until_part_dropped(tail);
        lemma_non_until_concat(rule_parts(rrule), seq![tail]);
        assert(non_until_parts(rule_parts(rrule)) + Seq::<Seq<char>>::empty() =~= non_until_parts(
            rule_parts(rrule),
        ));
    } else {
        let i = first_occurrence(rrule, key);
        lemma_first_occurrence_found(rrule, key);
        let j = value_end(rrule, i + 6);
        lemma_until_value_bounds(rrule, i);
        assert(truncated_rrule(rrule, until) =~= rrule.subrange(0, i) + tail + rrule.subrange(j, rrule.len() as int));
        lemma_replace_until_part(rrule, i, j, tail);
    }
}

/// A series split ends the old series at `until`: the truncated rule holds `UNTIL=`
/// followed by the `until` value.
pub proof fn lemma_truncation_sets_until(rrule: Seq<char>, until: Seq<char>)
    ensures
        contains_seq(truncated_rrule(rrule, until), until_key() + until),
{
    let key = until_key();
    let t = truncated_rrule(rrule, until);
    let pat = key + until;
    if contains_seq(rrule, key) {
        let i = first_occurrence(rrule, key);
        lemma_first_occurrence_found(rrule, key);
        lemma_until_value_bounds(rrule, i);
        let j = value_end(rrule, i + 6);
        let left = rrule.subrange(0, i);
        let right = rrule.subrange(j, rrule.len() as int);
        assert(t == left + pat + right);
        assert((left + pat + right).subrange(i, i + pat.len()) =~= pat);
        assert(occurs_at(t, pat, i));
    } else {
        let p = rrule.len() as int + 1;
        assert(t == rrule + seq![';'] + pat);
        assert((rrule + seq![';'] + pat).subrange(p, p + pat.len()) =~= pat);
        assert(occurs_at(t, pat, p));
    }
}

/// Removes the `UNTIL=` parts of a recurrence rule (see `rrule_without_until`).
pub fn remove_until_from_rrule(rrule: &str) -> (r: String)
    ensures
        r@ == rrule_without_until(rrule@),
{
    proof {
        reveal_strlit("UNTIL=");
        reveal_strlit(";");
        assert("UNTIL="@ =~= until_key());
        assert(";"@ =~= seq![';']);
    }
    let n = rrule.unicode_len();
    let mut out = String::new();
    let mut any = false;
    let mut cur: usize = 0;
    let mut j: usize = 0;
    let ghost mut done: Seq<Seq<char>> = Seq::empty();
    assert(rrule@.subrange(0, 0) =~= Seq::<char>::empty());
    assert(rule_parts(rrule@.subrange(0, 0)) =~= done.push(rrule@.subrange(0, 0)));
    while j < n
        invariant
            n == rrule@.len(),
            "UNTIL="@ == until_key(),
            ";"@ == seq![';'],
            0 <= cur <= j <= n,
            rule_parts(rrule@.subrange(0, j as int)) == done.push(rrule@.subrange(cur as int, j as int)),
            out@ == join_parts(non_until_parts(done)),
            any == (non_until_parts(done).len() > 0),
        decreases n - j,
    {
        let ghost pre = rrule@.subrange(0, j as int);
        assert(rrule@.subrange(0, j + 1).drop_last() =~= pre);
        let c = rrule.get_char(j);
        assert(rrule@.subrange(0, j + 1).last() == c);
        if c == ';' {
            let ghost comp = rrule@.subrange(cur as int, j as int);
            let is_until = j - cur >= 6 && crate::text::matches_at(rrule, "UNTIL=", cur);
            proof {
                if j - cur >= 6 {
                    assert(comp.subrange(0, 6) =~= rrule@.subrange(cur as int, cur + 6));
                }
                assert(is_until == is_until_part(comp));
                lemma_filter_push(done, comp);
                lemma_join_push(non_until_parts(done), comp);
            }
            if !is_until {
                let piece = rrule.substring_char(cur, j);
                assert(piece@ == comp);
                if any {
                    out.append(";");
                }
                out.append(piece);
                any = true;
                assert(out@ =~= join_parts(non_until_parts(done.push(comp))));
            }
            proof {
                assert(rule_parts(rrule@.subrange(0, j + 1)) == rule_parts(pre).push(Seq::<char>::empty()));
                done = done.push(comp);
                assert(rrule@.subrange(j + 1, j + 1) =~= Seq::<char>::empty());
                assert(rule_parts(rrule@.subrange(0, j + 1)) =~= done.push(rrule@.subrange(j + 1, j + 1)));
            }
            cur = j + 1;
        } else {
            proof {
                lemma_rule_parts_nonempty(pre);
                assert(rrule@.subrange(cur as int, j + 1) =~= rrule@.subrange(cur as int, j as int).push(c));
                assert(rule_parts(rrule@.subrange(0, j + 1)) =~= done.push(rrule@.subrange(cur as int, j + 1)));
            }
        }
        j = j + 1;
    }
    let ghost comp = rrule@.subrange(cur as int, n as int);
    let is_until = n - cur >= 6 && crate::text::matches_at(rrule, "UNTIL=", cur);
    proof {
        if n - cur >= 6 {
            assert(comp.subrange(0, 6) =~= rrule@.subrange(cur as int, cur + 6));
        }
        assert(rrule@.subrange(0, n as int) =~= rrule@);
        lemma_filter_push(done, comp);
        lemma_join_push(non_until_parts(done), comp);
    }
    if !is_until {
        if any {
            out.append(";");
        }
        out.append(rrule.substring_char(cur, n));
    }
    out
}

/// The UNTIL value of a series cut before the occurrence at `occurrence`: the instant
/// one second earlier in the iCalendar UTC form.
pub fn until_before(occurrence: i64) -> (r: String)
    requires
        instant_in_range(occurrence - one_second()),
    ensures
        r@ == datetime_format(occurrence - one_second(), ical_utc_pattern()),
        !r@.contains(';'),
{
    proof {
        reveal_strlit("%Y%m%dT%H%M%SZ");
        assert("%Y%m%dT%H%M%SZ"@ =~= ical_utc_pattern());
    }
    format_utc(occurrence - 1000000, "%Y%m%dT%H%M%SZ")
}

/// Which occurrences of a series an edit covers.
pub enum EditScope {
    ThisOnly,
    ThisAndFuture,
}

/// What an edit request does.
pub enum EditAction {
    /// Edit the stored event itself.
    EditEvent,
    /// Edit (or create) the exception that replaces the occurrence at `occurrence`.
    EditOccurrence { occurrence: i64 },
    /// Split the series at `occurrence` and edit the part from it on.
    SplitSeries { occurrence: i64 },
}

/// The action of an edit request on the event named by an id that carries the
/// `occurrence` of a series (a virtual instance) or none (a stored event).
pub fn edit_action(occurrence: Option<i64>, scope: &EditScope) -> (r: EditAction)
    ensures
        match occurrence {
            None => r is EditEvent,
            Some(t) => match scope {
                EditScope::ThisOnly => r matches EditAction::EditOccurrence { occurrence } && occurrence == t,
                EditScope::ThisAndFuture => r matches EditAction::SplitSeries { occurrence } && occurrence == t,
            },
        },
{
    match occurrence {
        None => EditAction::EditEvent,
        Some(t) => match scope {
            EditScope::ThisOnly => EditAction::EditOccurrence { occurrence: t },
            EditScope::ThisAndFuture => EditAction::SplitSeries { occurrence: t },
        },
    }
}

/// What an edit does to the attendee of an event.
pub enum AttendeeChange {
    /// The attendee stays as it is.
    Keep,
    /// The attendee becomes `new_attendee`; the current one is removed first where
    /// there is one.
    Replace { remove_current: bool, new_attendee: String },
}

/// The attendee change of an edit: a requested attendee that differs from the current
/// one (or where there is none) replaces it; otherwise nothing changes.
pub fn attendee_change(current: &Option<String>, requested: &Option<String>) -> (r: AttendeeChange)
    ensures
        match requested {
            None => r is Keep,
            Some(n) => if opt_string_view(*current) == Some(n@) {
                r is Keep
            } else {
                r matches AttendeeChange::Replace { remove_current, new_attendee }
                    && remove_current == current.is_some() && new_attendee@ == n@
            },
        },
{
    match requested {
        None => AttendeeChange::Keep,
        Some(n) => {
            let same = match current {
                Some(c) => *c == *n,
                None => false,
            };
            if same {
                AttendeeChange::Keep
            } else {
                AttendeeChange::Replace { remove_current: current.is_some(), new_attendee: n.clone() }
            }
        },
    }
}

/// One hour, in microseconds: the length given to a new series whose master has no end.
pub open spec fn one_hour() -> int {
    3600000000
}

/// The duration of a series' occurrences: end minus start, or one hour without an end.
pub open spec fn series_duration(m: EventFull) -> int {
    match m.dtend_time {
        Some(e) => e - m.dtstart_time,
        None => one_hour(),
    }
}

/// The start of the new series that continues from `occurrence`.
pub open spec fn split_start(updates: EventUpdate, occurrence: i64) -> i64 {
    match updates.dtstart_time {
        Some(t) => t,
        None => occurrence,
    }
}

/// The end of the new series' first occurrence.
pub open spec fn split_end(m: EventFull, updates: EventUpdate, occurrence: i64) -> i64 {
    match updates.dtend_time {
        Some(t) => t,
        None => (split_start(updates, occurrence) + series_duration(m)) as i64,
    }
}

/// The new series of a split keeps the times the user asked for: a requested start is
/// the new start (the occurrence otherwise), a requested end is the new end, and without
/// one the new series lasts as long as the old one did (one hour where it had no end).
pub proof fn lemma_split_takes_requested_times(m: EventFull, updates: EventUpdate, occurrence: i64)
    ensures
        updates.dtstart_time matches Some(s) ==> split_start(updates, occurrence) == s,
        updates.dtstart_time is None ==> split_start(updates, occurrence) == occurrence,
        updates.dtend_time matches Some(e) ==> split_end(m, updates, occurrence) == e,
        updates.dtend_time is None ==> (m.dtend_time matches Some(e) ==> split_end(m, updates, occurrence)
            == (split_start(updates, occurrence) + (e - m.dtstart_time)) as i64),
        updates.dtend_time is None && m.dtend_time is None ==> split_end(m, updates, occurrence)
            == (split_start(updates, occurrence) + 3600000000int) as i64,
{
}

/// The pieces of a series split: the old series' rule ended before the occurrence,
/// and the values of the new series that continues from it.
pub struct SeriesSplit {
    pub truncated_rrule: String,
    pub new_rrule: String,
    pub new_start: i64,
    pub new_end: Option<i64>,
    pub summary: String,
    pub location: Option<String>,
}

/// Splits the recurring series `master` at `occurrence`: the old series' rule ends one
/// second before it, and a new series starts at the requested start (or the
/// occurrence), lasting the requested end or the series' duration, with the requested
/// summary and location where given and the master's otherwise, and the old rule
/// without its end. An event without a rule is not recurring.
pub fn plan_this_and_future(master: &EventFull, occurrence: i64, updates: &EventUpdate) -> (r: Result<SeriesSplit, DbError>)
    requires
        master.rrule is Some ==> {
            &&& instant_in_range(master.dtstart_time as int)
            &&& (master.dtend_time matches Some(e) ==> instant_in_range(e as int))
            &&& instant_in_range(occurrence - one_second())
            &&& (updates.dtend_time is None ==> instant_in_range(split_start(*updates, occurrence) + series_duration(*master)))
        },
    ensures
        master.rrule is None ==> r matches Err(DbError::NotRecurring),
        master.rrule matches Some(rule) ==> r matches Ok(p) && {
            &&& p.truncated_rrule@ == truncated_rrule(rule@, datetime_format(occurrence - one_second(), ical_utc_pattern()))
            &&& p.new_rrule@ == rrule_without_until(rule@)
            &&& until_starts_part(rule@) ==> rrule_without_until(p.truncated_rrule@) == p.new_rrule@
            &&& p.new_start == split_start(*updates, occurrence)
            &&& p.new_end == Some(split_end(*master, *updates, occurrence))
            &&& (updates.dtstart_time matches Some(s) ==> p.new_start == s)
            &&& (updates.dtstart_time is None ==> p.new_start == occurrence)
            &&& (updates.dtend_time matches Some(e) ==> p.new_end == Some(e))
            &&& (updates.dtend_time is None ==> p.new_end == Some((p.new_start + match master.dtend_time {
                Some(e) => e - master.dtstart_time,
                None => 3600000000int,
            }) as i64))
            &&& p.summary@ == match updates.summary { Some(s) => s@, None => master.summary@ }
            &&& opt_string_view(p.location) == match updates.location {
                Some(l) => Some(l@),
                None => opt_string_view(master.location),
            }
        },
{
    let rrule_str = match &master.rrule {
        Some(r) => r,
        None => return Err(DbError::NotRecurring),
    };
    let until = until_before(occurrence);
    let truncated = truncate_rrule(rrule_str.as_str(), until.as_str());
    let new_rrule = remove_until_from_rrule(rrule_str.as_str());
    proof {
        if until_starts_part(rrule_str@) {
            lemma_truncation_keeps_pattern(rrule_str@, until@);
        }
    }
    let new_start = match updates.dtstart_time {
        Some(t) => t,
        None => occurrence,
    };
    let new_end = match updates.dtend_time {
        Some(t) => t,
        None => {
            let duration: i128 = match master.dtend_time {
                Some(e) => e as i128 - master.dtstart_time as i128,
                None => 3600000000,
            };
            (new_start as i128 + duration) as i64
        },
    };
    let summary = match &updates.summary {
        Some(s) => s.clone(),
        None => master.summary.clone(),
    };
    let location = match &updates.location {
        Some(l) => Some(l.clone()),
        None => clone_opt_string(&master.location),
    };
    Ok(SeriesSplit { truncated_rrule: truncated, new_rrule, new_start, new_end: Some(new_end), summary, location })
}

} // verus!
