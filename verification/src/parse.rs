//! The text form of a cron expression.
//!
//! An expression is five fields separated by blanks (spaces or tabs): minute
//! (0-59), hour (0-23), day of month (1-31), month (1-12) and day of week
//! (0-7, where both 0 and 7 stand for Sunday). A field is a list of items
//! separated by commas. An item is `*`, a number, or a range `a-b`, each
//! optionally followed by `/` and a step; a single number with a step runs
//! up to the field's largest value. Numbers have one or two decimal digits.

use vstd::prelude::*;
use vstd::string::StringSliceAdditionalSpecFns;
use crate::expr::{covers, is_field, CronExpr, CronExprView};
use crate::field::{lemma_stepped_range, stepped_range, FieldSet};

verus! {

pub open spec fn is_blank(b: u8) -> bool {
    b == 32 || b == 9
}

pub open spec fn is_digit(b: u8) -> bool {
    48 <= b <= 57
}

/// The first position at or after `i` that holds no blank.
pub open spec fn skip_blanks(s: Seq<u8>, i: int) -> int
    decreases s.len() - i,
{
    if 0 <= i < s.len() && is_blank(s[i]) {
        skip_blanks(s, i + 1)
    } else {
        i
    }
}

/// The first position at or after `i` that holds a blank, or the end of the text.
pub open spec fn token_end(s: Seq<u8>, i: int) -> int
    decreases s.len() - i,
{
    if 0 <= i < s.len() && !is_blank(s[i]) {
        token_end(s, i + 1)
    } else {
        i
    }
}

/// The first position in `from..to` that holds `b`, or `to` if there is none.
pub open spec fn find_byte(s: Seq<u8>, b: u8, from: int, to: int) -> int
    decreases to - from,
{
    if 0 <= from < to <= s.len() && s[from] != b {
        find_byte(s, b, from + 1, to)
    } else {
        from
    }
}

/// The number written in `s[a..b]`.
pub open spec fn number_at(s: Seq<u8>, a: int, b: int) -> Option<int> {
    if b - a == 1 && is_digit(s[a]) {
        Some(s[a] - 48)
    } else if b - a == 2 && is_digit(s[a]) && is_digit(s[a + 1]) {
        Some((s[a] - 48) * 10 + (s[a + 1] - 48))
    } else {
        None
    }
}

/// `s[a..b]` is the one character `*`.
pub open spec fn is_star(s: Seq<u8>, a: int, b: int) -> bool {
    b - a == 1 && s[a] == 42
}

/// The first and last value that the part of an item before its step names, for a field
/// that runs from `lo` to `hi`. `stepped` says that a step follows.
pub open spec fn item_bounds(s: Seq<u8>, a: int, b: int, lo: int, hi: int, stepped: bool) -> Option<
    (int, int),
> {
    let dash = find_byte(s, 45, a, b);
    if is_star(s, a, b) {
        Some((lo, hi))
    } else if dash == b {
        match number_at(s, a, b) {
            Some(n) => Some(
                (
                    n,
                    if stepped {
                        hi
                    } else {
                        n
                    },
                ),
            ),
            None => None,
        }
    } else {
        match (number_at(s, a, dash), number_at(s, dash + 1, b)) {
            (Some(x), Some(y)) => Some((x, y)),
            _ => None,
        }
    }
}

/// The values that the item `s[a..b]` names, for a field that runs from `lo` to `hi`.
pub open spec fn item_values(s: Seq<u8>, a: int, b: int, lo: int, hi: int) -> Option<Set<int>> {
    let slash = find_byte(s, 47, a, b);
    let step = if slash == b {
        Some(1int)
    } else {
        number_at(s, slash + 1, b)
    };
    match (item_bounds(s, a, slash, lo, hi, slash != b), step) {
        (Some((first, last)), Some(st)) => if lo <= first <= last <= hi && st >= 1 {
            Some(stepped_range(first, last, st))
        } else {
            None
        },
        _ => None,
    }
}

/// The union of a set with a set that may be missing.
pub open spec fn joined(x: Set<int>, rest: Option<Set<int>>) -> Option<Set<int>> {
    match rest {
        Some(y) => Some(x.union(y)),
        None => None,
    }
}

/// The values that the field `s[a..b]` names: those of its items together.
pub open spec fn field_values(s: Seq<u8>, a: int, b: int, lo: int, hi: int) -> Option<Set<int>>
    decreases b - a,
{
    let comma = find_byte(s, 44, a, b);
    if a <= comma < b <= s.len() {
        match item_values(s, a, comma, lo, hi) {
            Some(x) => joined(x, field_values(s, comma + 1, b, lo, hi)),
            None => None,
        }
    } else {
        item_values(s, a, b, lo, hi)
    }
}

/// Days of the week as 0 to 6, where a 7 in the text counts as 0.
pub open spec fn weekdays_of(x: Set<int>) -> Set<int> {
    (if x.contains(7) {
        x.insert(0)
    } else {
        x
    }).intersect(stepped_range(0, 6, 1))
}

/// What the text `s` says as a cron expression, if it is one.
pub open spec fn parse_spec(s: Seq<u8>) -> Option<CronExprView> {
    let a0 = skip_blanks(s, 0);
    let b0 = token_end(s, a0);
    let a1 = skip_blanks(s, b0);
    let b1 = token_end(s, a1);
    let a2 = skip_blanks(s, b1);
    let b2 = token_end(s, a2);
    let a3 = skip_blanks(s, b2);
    let b3 = token_end(s, a3);
    let a4 = skip_blanks(s, b3);
    let b4 = token_end(s, a4);
    if skip_blanks(s, b4) != s.len() {
        None
    } else {
        match (
            field_values(s, a0, b0, 0, 59),
            field_values(s, a1, b1, 0, 23),
            field_values(s, a2, b2, 1, 31),
            field_values(s, a3, b3, 1, 12),
            field_values(s, a4, b4, 0, 7),
        ) {
            (Some(minutes), Some(hours), Some(days), Some(months), Some(weekdays)) => Some(
                CronExprView {
                    minutes,
                    hours,
                    days,
                    months,
                    weekdays: weekdays_of(weekdays),
                    day_restricted: !is_star(s, a2, b2),
                    weekday_restricted: !is_star(s, a4, b4),
                },
            ),
            _ => None,
        }
    }
}

/// Skipping blanks and reading a token stay inside the text.
pub proof fn lemma_scan_bounds(s: Seq<u8>, i: int)
    requires
        0 <= i <= s.len(),
    ensures
        i <= skip_blanks(s, i) <= s.len(),
        i <= token_end(s, i) <= s.len(),
    decreases s.len() - i,
{
    if i < s.len() {
        lemma_scan_bounds(s, i + 1);
    }
}

/// The first position of a byte lies inside the range that is searched.
pub proof fn lemma_find_bounds(s: Seq<u8>, b: u8, from: int, to: int)
    requires
        0 <= from <= to <= s.len(),
    ensures
        from <= find_byte(s, b, from, to) <= to,
    decreases to - from,
{
    if from < to && s[from] != b {
        lemma_find_bounds(s, b, from + 1, to);
    }
}

/// What an item names is not empty and lies in the range of its field; the item `*`
/// names the whole range.
pub proof fn lemma_item_values(s: Seq<u8>, a: int, b: int, lo: int, hi: int)
    requires
        0 <= a <= b <= s.len(),
        item_values(s, a, b, lo, hi).is_some(),
    ensures
        is_field(item_values(s, a, b, lo, hi).unwrap(), lo, hi),
        is_star(s, a, b) ==> covers(item_values(s, a, b, lo, hi).unwrap(), lo, hi),
{
    let slash = find_byte(s, 47, a, b);
    lemma_find_bounds(s, 47, a, b);
    let step = if slash == b {
        Some(1int)
    } else {
        number_at(s, slash + 1, b)
    };
    let (first, last) = item_bounds(s, a, slash, lo, hi, slash != b).unwrap();
    let st = step.unwrap();
    let values = stepped_range(first, last, st);
    lemma_stepped_range(first, last, st, first);
    assert(values.contains(first));
    assert forall|v: int| values.contains(v) implies lo <= v <= hi by {
        lemma_stepped_range(first, last, st, v);
    }
    if is_star(s, a, b) {
        assert(slash == b);
        assert forall|v: int| lo <= v <= hi implies values.contains(v) by {
            lemma_stepped_range(first, last, st, v);
        }
    }
}

/// What a field names is not empty and lies in the range of the field; the field `*`
/// names the whole range.
pub proof fn lemma_field_values(s: Seq<u8>, a: int, b: int, lo: int, hi: int)
    requires
        0 <= a <= b <= s.len(),
        field_values(s, a, b, lo, hi).is_some(),
    ensures
        is_field(field_values(s, a, b, lo, hi).unwrap(), lo, hi),
        is_star(s, a, b) ==> covers(field_values(s, a, b, lo, hi).unwrap(), lo, hi),
    decreases b - a,
{
    let comma = find_byte(s, 44, a, b);
    lemma_find_bounds(s, 44, a, b);
    if a <= comma < b <= s.len() {
        lemma_item_values(s, a, comma, lo, hi);
        lemma_field_values(s, comma + 1, b, lo, hi);
        let x = item_values(s, a, comma, lo, hi).unwrap();
        let witness = choose|v: int| x.contains(v);
        assert(field_values(s, a, b, lo, hi).unwrap().contains(witness));
    } else {
        lemma_item_values(s, a, b, lo, hi);
    }
}

/// Every text that is a cron expression says something well formed.
pub proof fn lemma_parsed_is_well_formed(s: Seq<u8>)
    requires
        parse_spec(s).is_some(),
    ensures
        parse_spec(s).unwrap().well_formed(),
{
    let a0 = skip_blanks(s, 0);
    lemma_scan_bounds(s, 0);
    let b0 = token_end(s, a0);
    lemma_scan_bounds(s, a0);
    let a1 = skip_blanks(s, b0);
    lemma_scan_bounds(s, b0);
    let b1 = token_end(s, a1);
    lemma_scan_bounds(s, a1);
    let a2 = skip_blanks(s, b1);
    lemma_scan_bounds(s, b1);
    let b2 = token_end(s, a2);
    lemma_scan_bounds(s, a2);
    let a3 = skip_blanks(s, b2);
    lemma_scan_bounds(s, b2);
    let b3 = token_end(s, a3);
    lemma_scan_bounds(s, a3);
    let a4 = skip_blanks(s, b3);
    lemma_scan_bounds(s, b3);
    let b4 = token_end(s, a4);
    lemma_scan_bounds(s, a4);
    lemma_field_values(s, a0, b0, 0, 59);
    lemma_field_values(s, a1, b1, 0, 23);
    lemma_field_values(s, a2, b2, 1, 31);
    lemma_field_values(s, a3, b3, 1, 12);
    lemma_field_values(s, a4, b4, 0, 7);
    let named = field_values(s, a4, b4, 0, 7).unwrap();
    let weekdays = weekdays_of(named);
    assert forall|v: int| 0 <= v <= 6 implies stepped_range(0, 6, 1).contains(v) by {
        lemma_stepped_range(0, 6, 1, v);
    }
    assert forall|v: int| weekdays.contains(v) implies 0 <= v <= 6 by {
        lemma_stepped_range(0, 6, 1, v);
    }
    let some = choose|v: int| named.contains(v);
    if some == 7 {
        assert(weekdays.contains(0));
    } else {
        assert(weekdays.contains(some));
    }
}

/// The text `* * * * *` in bytes.
pub open spec fn every_minute_text() -> Seq<u8> {
    seq![42u8, 32, 42, 32, 42, 32, 42, 32, 42]
}

/// The field `*` at the position `a` of a text names the whole range of the field.
proof fn lemma_star_field(s: Seq<u8>, a: int, lo: int, hi: int)
    requires
        0 <= a < s.len(),
        s[a] == 42,
        lo <= hi,
    ensures
        field_values(s, a, a + 1, lo, hi) matches Some(values) && covers(values, lo, hi),
{
    reveal_with_fuel(find_byte, 3);
    assert(find_byte(s, 44, a, a + 1) == a + 1);
    assert(find_byte(s, 47, a, a + 1) == a + 1);
    assert(is_star(s, a, a + 1));
    assert(item_bounds(s, a, a + 1, lo, hi, false) == Some((lo, hi)));
    assert(item_values(s, a, a + 1, lo, hi).is_some());
    lemma_field_values(s, a, a + 1, lo, hi);
}

/// The text `* * * * *` is a cron expression, and it asks for every minute.
pub proof fn lemma_every_minute_text()
    ensures
        parse_spec(every_minute_text()) matches Some(e) && e.every_minute() && e.well_formed(),
{
    let s = every_minute_text();
    reveal_with_fuel(skip_blanks, 3);
    reveal_with_fuel(token_end, 3);
    assert(skip_blanks(s, 0) == 0 && token_end(s, 0) == 1);
    assert(skip_blanks(s, 1) == 2 && token_end(s, 2) == 3);
    assert(skip_blanks(s, 3) == 4 && token_end(s, 4) == 5);
    assert(skip_blanks(s, 5) == 6 && token_end(s, 6) == 7);
    assert(skip_blanks(s, 7) == 8 && token_end(s, 8) == 9);
    assert(skip_blanks(s, 9) == 9);
    lemma_star_field(s, 0, 0, 59);
    lemma_star_field(s, 2, 0, 23);
    lemma_star_field(s, 4, 1, 31);
    lemma_star_field(s, 6, 1, 12);
    lemma_star_field(s, 8, 0, 7);
    assert(parse_spec(s).is_some());
    lemma_parsed_is_well_formed(s);
    assert(is_star(s, 4, 5) && is_star(s, 8, 9));
}

fn skip_blanks_from(s: &[u8], i: usize) -> (r: usize)
    requires
        i <= s.len(),
    ensures
        r == skip_blanks(s@, i as int),
        i <= r <= s.len(),
{
    let mut j: usize = i;
    while j < s.len() && (s[j] == 32 || s[j] == 9)
        invariant
            i <= j <= s.len(),
            skip_blanks(s@, j as int) == skip_blanks(s@, i as int),
        decreases s.len() - j,
    {
        j = j + 1;
    }
    j
}

fn token_end_from(s: &[u8], i: usize) -> (r: usize)
    requires
        i <= s.len(),
    ensures
        r == token_end(s@, i as int),
        i <= r <= s.len(),
{
    let mut j: usize = i;
    while j < s.len() && !(s[j] == 32 || s[j] == 9)
        invariant
            i <= j <= s.len(),
            token_end(s@, j as int) == token_end(s@, i as int),
        decreases s.len() - j,
    {
        j = j + 1;
    }
    j
}

fn find_byte_in(s: &[u8], b: u8, from: usize, to: usize) -> (r: usize)
    requires
        from <= to <= s.len(),
    ensures
        r == find_byte(s@, b, from as int, to as int),
        from <= r <= to,
{
    let mut j: usize = from;
    while j < to && s[j] != b
        invariant
            from <= j <= to <= s.len(),
            find_byte(s@, b, j as int, to as int) == find_byte(s@, b, from as int, to as int),
        decreases to - j,
    {
        j = j + 1;
    }
    j
}

fn digit_of(b: u8) -> (r: Option<u64>)
    ensures
        r == (if is_digit(b) {
            Some((b - 48) as u64)
        } else {
            None
        }),
{
    if 48 <= b && b <= 57 {
        Some((b - 48) as u64)
    } else {
        None
    }
}

fn parse_number(s: &[u8], a: usize, b: usize) -> (r: Option<u64>)
    requires
        a <= b <= s.len(),
    ensures
        match number_at(s@, a as int, b as int) {
            Some(n) => r matches Some(found) && found == n,
            None => r.is_none(),
        },
{
    if b - a == 1 {
        digit_of(s[a])
    } else if b - a == 2 {
        match (digit_of(s[a]), digit_of(s[a + 1])) {
            (Some(x), Some(y)) => Some(x * 10 + y),
            _ => None,
        }
    } else {
        None
    }
}

fn parse_bounds(s: &[u8], a: usize, b: usize, lo: u64, hi: u64, stepped: bool) -> (r: Option<
    (u64, u64),
>)
    requires
        a <= b <= s.len(),
    ensures
        match item_bounds(s@, a as int, b as int, lo as int, hi as int, stepped) {
            Some((x, y)) => r matches Some((first, last)) && first == x && last == y,
            None => r.is_none(),
        },
{
    if b - a == 1 && s[a] == 42 {
        return Some((lo, hi));
    }
    let dash = find_byte_in(s, 45, a, b);
    if dash == b {
        match parse_number(s, a, b) {
            Some(n) => Some(
                (
                    n,
                    if stepped {
                        hi
                    } else {
                        n
                    },
                ),
            ),
            None => None,
        }
    } else {
        match (parse_number(s, a, dash), parse_number(s, dash + 1, b)) {
            (Some(x), Some(y)) => Some((x, y)),
            _ => None,
        }
    }
}

fn parse_item(s: &[u8], a: usize, b: usize, lo: u64, hi: u64) -> (r: Option<FieldSet>)
    requires
        a <= b <= s.len(),
        hi < 64,
    ensures
        match item_values(s@, a as int, b as int, lo as int, hi as int) {
            Some(v) => r matches Some(f) && f@ == v,
            None => r.is_none(),
        },
{
    let slash = find_byte_in(s, 47, a, b);
    let step = if slash == b {
        Some(1u64)
    } else {
        parse_number(s, slash + 1, b)
    };
    match (parse_bounds(s, a, slash, lo, hi, slash != b), step) {
        (Some((first, last)), Some(st)) => {
            if lo <= first && first <= last && last <= hi && st >= 1 {
                Some(FieldSet::stepped(first, last, st))
            } else {
                None
            }
        },
        _ => None,
    }
}

fn parse_field(s: &[u8], a: usize, b: usize, lo: u64, hi: u64) -> (r: Option<FieldSet>)
    requires
        a <= b <= s.len(),
        hi < 64,
    ensures
        match field_values(s@, a as int, b as int, lo as int, hi as int) {
            Some(v) => r matches Some(f) && f@ == v,
            None => r.is_none(),
        },
{
    let mut acc = FieldSet::empty();
    let mut start: usize = a;
    loop
        invariant
            a <= start <= b <= s.len(),
            hi < 64,
            field_values(s@, a as int, b as int, lo as int, hi as int) == joined(
                acc@,
                field_values(s@, start as int, b as int, lo as int, hi as int),
            ),
        decreases b - start,
    {
        let comma = find_byte_in(s, 44, start, b);
        match parse_item(s, start, comma, lo, hi) {
            None => {
                return None;
            },
            Some(item) => {
                let ghost before = acc@;
                acc = acc.union(&item);
                if comma >= b {
                    return Some(acc);
                }
                proof {
                    let rest = field_values(s@, comma + 1, b as int, lo as int, hi as int);
                    if let Some(y) = rest {
                        assert(before.union(item@.union(y)) =~= before.union(item@).union(y));
                    }
                }
                start = comma + 1;
            },
        }
    }
}

impl CronExpr {
    /// Reads a cron expression from its text. What it reads is well formed.
    pub fn parse(text: &str) -> (r: Option<CronExpr>)
        ensures
            match parse_spec(text.spec_bytes()) {
                Some(v) => r matches Some(e) && e@ == v && e@.well_formed(),
                None => r.is_none(),
            },
    {
        proof {
            if parse_spec(text.spec_bytes()).is_some() {
                lemma_parsed_is_well_formed(text.spec_bytes());
            }
        }
        let s = text.as_bytes();
        let a0 = skip_blanks_from(s, 0);
        let b0 = token_end_from(s, a0);
        let a1 = skip_blanks_from(s, b0);
        let b1 = token_end_from(s, a1);
        let a2 = skip_blanks_from(s, b1);
        let b2 = token_end_from(s, a2);
        let a3 = skip_blanks_from(s, b2);
        let b3 = token_end_from(s, a3);
        let a4 = skip_blanks_from(s, b3);
        let b4 = token_end_from(s, a4);
        if skip_blanks_from(s, b4) != s.len() {
            return None;
        }
        match (
            parse_field(s, a0, b0, 0, 59),
            parse_field(s, a1, b1, 0, 23),
            parse_field(s, a2, b2, 1, 31),
            parse_field(s, a3, b3, 1, 12),
            parse_field(s, a4, b4, 0, 7),
        ) {
            (Some(minutes), Some(hours), Some(days), Some(months), Some(named)) => {
                let folded = if named.has(7) {
                    named.with(0)
                } else {
                    named
                };
                let weekdays = folded.intersect(&FieldSet::stepped(0, 6, 1));
                Some(
                    CronExpr {
                        minutes,
                        hours,
                        days,
                        months,
                        weekdays,
                        day_restricted: !(b2 - a2 == 1 && s[a2] == 42),
                        weekday_restricted: !(b4 - a4 == 1 && s[a4] == 42),
                    },
                )
            },
            _ => None,
        }
    }
}

} // verus!
