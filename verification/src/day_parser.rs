//! The grammar of day lists typed by the user.
//!
//! An input names days separated by commas; each item is a day name, a
//! prefix of at least two letters of one ("mon", "tue", ...), or a
//! hyphenated range such as "mon-thu" whose low end must come strictly
//! before its high end. Spaces around items are ignored, duplicates
//! collapse, and the empty input denotes the empty set of days.

use crate::day::{Day, Days};
use vstd::prelude::*;
use vstd::string::StringSliceAdditionalSpecFns;

verus! {

#[derive(Clone, Copy, Debug, PartialEq, Eq, Structural)]
pub enum DayParseError {
    /// A token is not a day name nor a prefix of one.
    InvalidDay,
    /// A range's high end does not come strictly after its low end.
    InvalidRange,
}

pub open spec fn day_name(d: Day) -> Seq<u8> {
    match d {
        Day::Monday => seq!['m' as u8, 'o' as u8, 'n' as u8, 'd' as u8, 'a' as u8, 'y' as u8],
        Day::Tuesday => seq![
            't' as u8,
            'u' as u8,
            'e' as u8,
            's' as u8,
            'd' as u8,
            'a' as u8,
            'y' as u8,
        ],
        Day::Wednesday => seq![
            'w' as u8,
            'e' as u8,
            'd' as u8,
            'n' as u8,
            'e' as u8,
            's' as u8,
            'd' as u8,
            'a' as u8,
            'y' as u8,
        ],
        Day::Thursday => seq![
            't' as u8,
            'h' as u8,
            'u' as u8,
            'r' as u8,
            's' as u8,
            'd' as u8,
            'a' as u8,
            'y' as u8,
        ],
        Day::Friday => seq!['f' as u8, 'r' as u8, 'i' as u8, 'd' as u8, 'a' as u8, 'y' as u8],
        Day::Saturday => seq![
            's' as u8,
            'a' as u8,
            't' as u8,
            'u' as u8,
            'r' as u8,
            'd' as u8,
            'a' as u8,
            'y' as u8,
        ],
        Day::Sunday => seq!['s' as u8, 'u' as u8, 'n' as u8, 'd' as u8, 'a' as u8, 'y' as u8],
    }
}

pub open spec fn is_prefix(p: Seq<u8>, s: Seq<u8>) -> bool {
    p.len() <= s.len() && p == s.subrange(0, p.len() as int)
}

/// A token denotes a day when it has at least two characters and is a
/// prefix of the day's name. Two-letter prefixes of the seven names are
/// all distinct, so at most one day can match.
pub open spec fn day_token_spec(t: Seq<u8>) -> Option<Day> {
    if t.len() < 2 {
        None
    } else if is_prefix(t, day_name(Day::Monday)) {
        Some(Day::Monday)
    } else if is_prefix(t, day_name(Day::Tuesday)) {
        Some(Day::Tuesday)
    } else if is_prefix(t, day_name(Day::Wednesday)) {
        Some(Day::Wednesday)
    } else if is_prefix(t, day_name(Day::Thursday)) {
        Some(Day::Thursday)
    } else if is_prefix(t, day_name(Day::Friday)) {
        Some(Day::Friday)
    } else if is_prefix(t, day_name(Day::Saturday)) {
        Some(Day::Saturday)
    } else if is_prefix(t, day_name(Day::Sunday)) {
        Some(Day::Sunday)
    } else {
        None
    }
}

/// Index of the first occurrence of `c` in `t`, or -1.
pub open spec fn find_first(t: Seq<u8>, c: u8) -> int
    decreases t.len(),
{
    if t.len() == 0 {
        -1
    } else if t[0] == c {
        0
    } else {
        let r = find_first(t.subrange(1, t.len() as int), c);
        if r == -1 {
            -1
        } else {
            r + 1
        }
    }
}

proof fn lemma_find_first_found(t: Seq<u8>, c: u8, i: int)
    requires
        0 <= i < t.len(),
        t[i] == c,
        forall|j: int| 0 <= j < i ==> t[j] != c,
    ensures
        find_first(t, c) == i,
    decreases t.len(),
{
    if i > 0 {
        lemma_find_first_found(t.subrange(1, t.len() as int), c, i - 1);
    }
}

proof fn lemma_find_first_character(t: Seq<u8>, c: u8)
    ensures
        ({
            let i = find_first(t, c);
            if i == -1 {
                forall|j: int| 0 <= j < t.len() ==> t[j] != c
            } else {
                &&& 0 <= i < t.len()
                &&& t[i] == c
                &&& forall|j: int| 0 <= j < i ==> t[j] != c
            }
        }),
    decreases t.len(),
{
    if t.len() > 0 && t[0] != c {
        let s = t.subrange(1, t.len() as int);
        lemma_find_first_character(s, c);
        let i = find_first(t, c);
        if find_first(s, c) == -1 {
            assert forall|j: int| 0 <= j < t.len() implies t[j] != c by {
                if j > 0 {
                    assert(s[j - 1] != c);
                }
            }
        } else {
            assert(t[i] == s[i - 1]);
            assert forall|j: int| 0 <= j < i implies t[j] != c by {
                if j > 0 {
                    assert(s[j - 1] != c);
                }
            }
        }
    }
}

proof fn lemma_find_first_absent(t: Seq<u8>, c: u8)
    requires
        forall|j: int| 0 <= j < t.len() ==> t[j] != c,
    ensures
        find_first(t, c) == -1,
    decreases t.len(),
{
    if t.len() > 0 {
        lemma_find_first_absent(t.subrange(1, t.len() as int), c);
    }
}

pub open spec fn trim_front(t: Seq<u8>) -> Seq<u8>
    decreases t.len(),
{
    if t.len() > 0 && t[0] == ' ' as u8 {
        trim_front(t.subrange(1, t.len() as int))
    } else {
        t
    }
}

pub open spec fn trim_back(t: Seq<u8>) -> Seq<u8>
    decreases t.len(),
{
    if t.len() > 0 && t[t.len() - 1] == ' ' as u8 {
        trim_back(t.subrange(0, t.len() - 1))
    } else {
        t
    }
}

pub open spec fn spec_trim(t: Seq<u8>) -> Seq<u8> {
    trim_back(trim_front(t))
}

proof fn lemma_trim_front(t: Seq<u8>, k: int)
    requires
        0 <= k <= t.len(),
        forall|j: int| 0 <= j < k ==> t[j] == ' ' as u8,
        k == t.len() || t[k] != ' ' as u8,
    ensures
        trim_front(t) == t.subrange(k, t.len() as int),
    decreases k,
{
    if k == 0 {
        assert(t.subrange(0, t.len() as int) =~= t);
    } else {
        let s = t.subrange(1, t.len() as int);
        lemma_trim_front(s, k - 1);
        assert(s.subrange(k - 1, s.len() as int) =~= t.subrange(k, t.len() as int));
    }
}

proof fn lemma_trim_back(t: Seq<u8>, k: int)
    requires
        0 <= k <= t.len(),
        forall|j: int| k <= j < t.len() ==> t[j] == ' ' as u8,
        k == 0 || t[k - 1] != ' ' as u8,
    ensures
        trim_back(t) == t.subrange(0, k),
    decreases t.len() - k,
{
    if k == t.len() {
        assert(t.subrange(0, t.len() as int) =~= t);
        if t.len() > 0 && t[t.len() - 1] == ' ' as u8 {
            let s = t.subrange(0, t.len() - 1);
            lemma_trim_back(s, k - 1);
            assert(s.subrange(0, k - 1) =~= t.subrange(0, k - 1));
        }
    } else {
        let s = t.subrange(0, t.len() - 1);
        lemma_trim_back(s, k);
        assert(s.subrange(0, k) =~= t.subrange(0, k));
    }
}

/// The set of days from `a` through `b` by ordinal.
pub open spec fn day_range_set(a: Day, b: Day) -> Set<Day> {
    Set::new(|d: Day| a.spec_ordinal() <= d.spec_ordinal() <= b.spec_ordinal())
}

/// One comma-separated item, after trimming: a single day or a range.
pub open spec fn item_spec(t: Seq<u8>) -> Result<Set<Day>, DayParseError> {
    let u = spec_trim(t);
    let i = find_first(u, '-' as u8);
    if i == -1 {
        match day_token_spec(u) {
            Some(d) => Ok(set![d]),
            None => Err(DayParseError::InvalidDay),
        }
    } else {
        match (day_token_spec(u.subrange(0, i)), day_token_spec(u.subrange(i + 1, u.len() as int))) {
            (Some(a), Some(b)) => if a.spec_ordinal() < b.spec_ordinal() {
                Ok(day_range_set(a, b))
            } else {
                Err(DayParseError::InvalidRange)
            },
            _ => Err(DayParseError::InvalidDay),
        }
    }
}

/// A comma-separated list of items, folded left to right; the first
/// failing item decides the error.
pub open spec fn segments_spec(t: Seq<u8>) -> Result<Set<Day>, DayParseError>
    decreases t.len(),
{
    let i = find_first(t, ',' as u8);
    if !(0 <= i < t.len()) {
        item_spec(t)
    } else {
        match item_spec(t.subrange(0, i)) {
            Err(e) => Err(e),
            Ok(s) => match segments_spec(t.subrange(i + 1, t.len() as int)) {
                Err(e) => Err(e),
                Ok(rest) => Ok(s.union(rest)),
            },
        }
    }
}

/// The whole grammar: an input that is empty after trimming denotes the
/// empty set of days.
pub open spec fn parse_days_spec(t: Seq<u8>) -> Result<Set<Day>, DayParseError> {
    if spec_trim(t).len() == 0 {
        Ok(Set::empty())
    } else {
        segments_spec(t)
    }
}

fn day_name_str(d: Day) -> (r: &'static str)
    ensures
        r.spec_bytes() == day_name(d),
{
    proof {
        reveal_strlit("monday");
        reveal_strlit("tuesday");
        reveal_strlit("wednesday");
        reveal_strlit("thursday");
        reveal_strlit("friday");
        reveal_strlit("saturday");
        reveal_strlit("sunday");
        broadcast use vstd::utf8::is_ascii_chars_encode_utf8;

        assert(vstd::utf8::is_ascii_chars(("monday")@));
        assert(vstd::utf8::is_ascii_chars(("tuesday")@));
        assert(vstd::utf8::is_ascii_chars(("wednesday")@));
        assert(vstd::utf8::is_ascii_chars(("thursday")@));
        assert(vstd::utf8::is_ascii_chars(("friday")@));
        assert(vstd::utf8::is_ascii_chars(("saturday")@));
        assert(vstd::utf8::is_ascii_chars(("sunday")@));
        assert(("monday").spec_bytes() =~= day_name(Day::Monday));
        assert(("tuesday").spec_bytes() =~= day_name(Day::Tuesday));
        assert(("wednesday").spec_bytes() =~= day_name(Day::Wednesday));
        assert(("thursday").spec_bytes() =~= day_name(Day::Thursday));
        assert(("friday").spec_bytes() =~= day_name(Day::Friday));
        assert(("saturday").spec_bytes() =~= day_name(Day::Saturday));
        assert(("sunday").spec_bytes() =~= day_name(Day::Sunday));
    }
    match d {
        Day::Monday => "monday",
        Day::Tuesday => "tuesday",
        Day::Wednesday => "wednesday",
        Day::Thursday => "thursday",
        Day::Friday => "friday",
        Day::Saturday => "saturday",
        Day::Sunday => "sunday",
    }
}

pub(crate) fn is_prefix_of_name(b: &[u8], start: usize, end: usize, name: &str) -> (r: bool)
    requires
        start <= end <= b@.len(),
    ensures
        r == is_prefix(b@.subrange(start as int, end as int), name.spec_bytes()),
{
    let nb = name.as_bytes();
    let tlen = end - start;
    if tlen > nb.len() {
        return false;
    }
    let ghost sub = b@.subrange(start as int, end as int);
    let mut i: usize = 0;
    while i < tlen
        invariant
            start <= end <= b@.len(),
            tlen == end - start,
            tlen <= nb@.len(),
            nb@ == name.spec_bytes(),
            sub == b@.subrange(start as int, end as int),
            0 <= i <= tlen,
            forall|j: int| 0 <= j < i ==> sub[j] == nb@[j],
        decreases tlen - i,
    {
        if b[start + i] != nb[i] {
            proof {
                if is_prefix(sub, nb@) {
                    assert(sub[i as int] == nb@.subrange(0, sub.len() as int)[i as int]);
                }
            }
            return false;
        }
        i = i + 1;
    }
    proof {
        assert(sub =~= nb@.subrange(0, sub.len() as int));
    }
    true
}

/// Parses one token (a byte range of the input) as a day.
fn parse_day_token(b: &[u8], start: usize, end: usize) -> (r: Option<Day>)
    requires
        start <= end <= b@.len(),
    ensures
        r == day_token_spec(b@.subrange(start as int, end as int)),
{
    if end - start < 2 {
        return None;
    }
    if is_prefix_of_name(b, start, end, day_name_str(Day::Monday)) {
        Some(Day::Monday)
    } else if is_prefix_of_name(b, start, end, day_name_str(Day::Tuesday)) {
        Some(Day::Tuesday)
    } else if is_prefix_of_name(b, start, end, day_name_str(Day::Wednesday)) {
        Some(Day::Wednesday)
    } else if is_prefix_of_name(b, start, end, day_name_str(Day::Thursday)) {
        Some(Day::Thursday)
    } else if is_prefix_of_name(b, start, end, day_name_str(Day::Friday)) {
        Some(Day::Friday)
    } else if is_prefix_of_name(b, start, end, day_name_str(Day::Saturday)) {
        Some(Day::Saturday)
    } else if is_prefix_of_name(b, start, end, day_name_str(Day::Sunday)) {
        Some(Day::Sunday)
    } else {
        None
    }
}

/// Index of the first `c` in `b[start..end]`, or `end` when absent.
fn find_byte(b: &[u8], start: usize, end: usize, c: u8) -> (r: usize)
    requires
        start <= end <= b@.len(),
    ensures
        start <= r <= end,
        ({
            let i = find_first(b@.subrange(start as int, end as int), c);
            if i == -1 {
                r == end
            } else {
                r == start + i
            }
        }),
{
    let ghost sub = b@.subrange(start as int, end as int);
    let mut i: usize = start;
    while i < end
        invariant
            start <= i <= end <= b@.len(),
            sub == b@.subrange(start as int, end as int),
            forall|j: int| 0 <= j < i - start ==> sub[j] != c,
        decreases end - i,
    {
        if b[i] == c {
            proof {
                lemma_find_first_found(sub, c, i - start);
            }
            return i;
        }
        i = i + 1;
    }
    proof {
        lemma_find_first_absent(sub, c);
    }
    end
}

/// Shrinks a byte range to exclude leading and trailing spaces.
fn trim_bounds(b: &[u8], start: usize, end: usize) -> (r: (usize, usize))
    requires
        start <= end <= b@.len(),
    ensures
        start <= r.0 <= r.1 <= end,
        b@.subrange(r.0 as int, r.1 as int) == spec_trim(b@.subrange(start as int, end as int)),
{
    let ghost sub = b@.subrange(start as int, end as int);
    let mut s: usize = start;
    while s < end && b[s] == (' ' as u8)
        invariant
            start <= s <= end <= b@.len(),
            sub == b@.subrange(start as int, end as int),
            forall|j: int| 0 <= j < s - start ==> sub[j] == ' ' as u8,
        decreases end - s,
    {
        proof {
            assert(sub[s - start] == b@[s as int]);
        }
        s = s + 1;
    }
    proof {
        lemma_trim_front(sub, s - start);
    }
    let ghost fronted = sub.subrange(s - start, sub.len() as int);
    let mut e: usize = end;
    while e > s && b[e - 1] == (' ' as u8)
        invariant
            start <= s <= e <= end <= b@.len(),
            sub == b@.subrange(start as int, end as int),
            forall|j: int| e - s <= j < fronted.len() ==> fronted[j] == ' ' as u8,
            fronted == sub.subrange(s - start, sub.len() as int),
        decreases e,
    {
        proof {
            assert(fronted[e - 1 - s] == b@[e - 1]);
        }
        e = e - 1;
    }
    proof {
        lemma_trim_back(fronted, e - s);
        assert(fronted.subrange(0, e - s) =~= b@.subrange(s as int, e as int));
    }
    (s, e)
}

/// Parses one comma-separated item and adds its days to `acc`.
fn parse_item_into(b: &[u8], start: usize, end: usize, acc: &mut Days) -> (r: Result<
    (),
    DayParseError,
>)
    requires
        start <= end <= b@.len(),
        old(acc).wf(),
    ensures
        final(acc).wf(),
        ({
            let spec = item_spec(b@.subrange(start as int, end as int));
            match r {
                Ok(_) => spec is Ok && final(acc)@ == old(acc)@.union(spec.unwrap()),
                Err(e) => spec == Err::<Set<Day>, DayParseError>(e) && final(acc)@ == old(acc)@,
            }
        }),
{
    let (s, e) = trim_bounds(b, start, end);
    let ghost u = spec_trim(b@.subrange(start as int, end as int));
    proof {
        lemma_find_first_character(u, '-' as u8);
    }
    let h = find_byte(b, s, e, ('-' as u8));
    if h == e {
        // No hyphen: a single day token.
        match parse_day_token(b, s, e) {
            Some(d) => {
                acc.insert(d);
                proof {
                    assert(acc@ =~= old(acc)@.union(set![d]));
                }
                Ok(())
            },
            None => Err(DayParseError::InvalidDay),
        }
    } else {
        proof {
            assert(b@.subrange(s as int, h as int) =~= u.subrange(0, h - s));
            assert(b@.subrange(h + 1, e as int) =~= u.subrange(h - s + 1, u.len() as int));
        }
        let lo = parse_day_token(b, s, h);
        let hi = parse_day_token(b, h + 1, e);
        match (lo, hi) {
            (Some(a), Some(z)) => {
                let ao = a.ordinal();
                let zo = z.ordinal();
                if ao < zo {
                    let ghost entry = acc@;
                    proof {
                        assert(entry =~= entry.union(
                            Set::new(|d: Day| ao <= d.spec_ordinal() && d.spec_ordinal() < ao),
                        ));
                    }
                    let mut o = ao;
                    while o <= zo
                        invariant
                            acc.wf(),
                            1 <= ao <= o <= zo + 1,
                            zo <= 7,
                            acc@ == entry.union(
                                Set::new(
                                    |d: Day| ao <= d.spec_ordinal() && d.spec_ordinal() < o,
                                ),
                            ),
                        decreases zo + 1 - o,
                    {
                        let ghost before = acc@;
                        acc.insert(Day::of_ordinal(o));
                        proof {
                            assert(acc@ =~= entry.union(
                                Set::new(
                                    |d: Day| ao <= d.spec_ordinal() && d.spec_ordinal() < o + 1,
                                ),
                            ));
                        }
                        o = o + 1;
                    }
                    proof {
                        assert(acc@ =~= entry.union(day_range_set(a, z)));
                    }
                    Ok(())
                } else {
                    Err(DayParseError::InvalidRange)
                }
            },
            _ => Err(DayParseError::InvalidDay),
        }
    }
}

/// Parses a comma-separated list of days and ranges into a set of days.
pub fn parse_days(input: &str) -> (r: Result<Days, DayParseError>)
    ensures
        ({
            let spec = parse_days_spec(input.spec_bytes());
            match r {
                Ok(days) => days.wf() && spec is Ok && days@ == spec.unwrap(),
                Err(e) => spec == Err::<Set<Day>, DayParseError>(e),
            }
        }),
{
    let b = input.as_bytes();
    let n = b.len();
    let ghost whole = b@;
    let (ts, te) = trim_bounds(b, 0, n);
    proof {
        assert(whole.subrange(0, whole.len() as int) =~= whole);
    }
    let mut acc = Days::empty();
    if ts == te {
        return Ok(acc);
    }
    proof {
        if segments_spec(whole) is Ok {
            let s0 = segments_spec(whole).unwrap();
            assert(acc@.union(s0) =~= s0);
        }
    }
    let mut pos: usize = 0;
    loop
        invariant
            pos <= n == b@.len(),
            b@ == whole,
            whole == input.spec_bytes(),
            acc.wf(),
            spec_trim(whole).len() != 0,
            match segments_spec(whole.subrange(pos as int, n as int)) {
                Ok(s) => parse_days_spec(whole) == Ok::<Set<Day>, DayParseError>(acc@.union(s)),
                Err(e) => parse_days_spec(whole) == Err::<Set<Day>, DayParseError>(e),
            },
        decreases n - pos,
    {
        let ghost rest = whole.subrange(pos as int, n as int);
        let c = find_byte(b, pos, n, (',' as u8));
        proof {
            lemma_find_first_character(rest, ',' as u8);
            assert(whole.subrange(pos as int, c as int) =~= rest.subrange(0, c - pos));
            if c == n {
                assert(rest =~= rest.subrange(0, c - pos));
            }
        }
        let ghost before = acc@;
        match parse_item_into(b, pos, c, &mut acc) {
            Err(e) => {
                proof {
                    assert(segments_spec(rest) == Err::<Set<Day>, DayParseError>(e));
                }
                return Err(e);
            },
            Ok(_) => {
                let ghost s = item_spec(whole.subrange(pos as int, c as int)).unwrap();
                if c == n {
                    proof {
                        assert(segments_spec(rest) == Ok::<Set<Day>, DayParseError>(s));
                    }
                    return Ok(acc);
                }
                proof {
                    assert(whole.subrange(c + 1, n as int) =~= rest.subrange(
                        c - pos + 1,
                        rest.len() as int,
                    ));
                    match segments_spec(whole.subrange(c + 1, n as int)) {
                        Ok(s2) => {
                            assert(segments_spec(rest) == Ok::<Set<Day>, DayParseError>(
                                s.union(s2),
                            ));
                            assert(before.union(s.union(s2)) =~= before.union(s).union(s2));
                        },
                        Err(e2) => {
                            assert(segments_spec(rest) == Err::<Set<Day>, DayParseError>(e2));
                        },
                    }
                }
                pos = c + 1;
            },
        }
    }
}

/// Parses a hyphenated pair of day tokens, without validating the order.
pub open spec fn day_range_spec(t: Seq<u8>) -> Option<(Day, Day)> {
    let i = find_first(t, '-' as u8);
    if !(0 <= i < t.len()) {
        None
    } else {
        match (day_token_spec(t.subrange(0, i)), day_token_spec(t.subrange(i + 1, t.len() as int))) {
            (Some(a), Some(b)) => Some((a, b)),
            _ => None,
        }
    }
}

/// Splits "mon-thu" into its two end days, in the order written; the
/// order is validated later by `days_in_range`.
pub fn day_range(input: &str) -> (r: Option<(Day, Day)>)
    ensures
        r == day_range_spec(input.spec_bytes()),
{
    let b = input.as_bytes();
    let n = b.len();
    proof {
        assert(b@.subrange(0, n as int) =~= b@);
        lemma_find_first_character(b@, '-' as u8);
    }
    let h = find_byte(b, 0, n, ('-' as u8));
    if h == n {
        return None;
    }
    let lo = parse_day_token(b, 0, h);
    let hi = parse_day_token(b, h + 1, n);
    match (lo, hi) {
        (Some(a), Some(z)) => Some((a, z)),
        _ => None,
    }
}

/// The days from a range's low end through its high end, in order;
/// rejects ranges whose high end does not come strictly after the low
/// end.
pub fn days_in_range(range: &(Day, Day)) -> (r: Option<Vec<Day>>)
    ensures
        r is Some <==> range.0.spec_ordinal() < range.1.spec_ordinal(),
        r is Some ==> ({
            let v = r.unwrap()@;
            &&& v.len() == range.1.spec_ordinal() - range.0.spec_ordinal() + 1
            &&& forall|i: int|
                0 <= i < v.len() ==> (#[trigger] v[i]).spec_ordinal() == range.0.spec_ordinal() + i
        }),
{
    let a = range.0.ordinal();
    let z = range.1.ordinal();
    if a >= z {
        return None;
    }
    let mut v: Vec<Day> = Vec::new();
    let mut o = a;
    while o <= z
        invariant
            1 <= a <= o <= z + 1,
            z <= 7,
            v@.len() == o - a,
            forall|i: int| 0 <= i < v@.len() ==> (#[trigger] v@[i]).spec_ordinal() == a + i,
        decreases z + 1 - o,
    {
        v.push(Day::of_ordinal(o));
        o = o + 1;
    }
    Some(v)
}

} // verus!
