//! Character and string helpers shared by the analysis modules.
//!
//! Text is handled as sequences of Unicode scalar values (`char`), the view
//! that Verus gives to `str` and `String`.
use vstd::prelude::*;
use vstd::string::*;

verus! {

// ---------------------------------------------------------------------------
// Character classes
// ---------------------------------------------------------------------------

/// `char::is_ascii_digit`.
pub open spec fn spec_is_ascii_digit(c: char) -> bool {
    '0' <= c && c <= '9'
}

/// `char::is_ascii_alphanumeric`.
pub open spec fn spec_is_ascii_alphanumeric(c: char) -> bool {
    ('0' <= c && c <= '9') || ('a' <= c && c <= 'z') || ('A' <= c && c <= 'Z')
}

/// `char::is_whitespace`: the Unicode `White_Space` property.
pub open spec fn spec_is_whitespace(c: char) -> bool {
    let u = c as u32;
    ||| 0x09 <= u && u <= 0x0D
    ||| u == 0x20
    ||| u == 0x85
    ||| u == 0xA0
    ||| u == 0x1680
    ||| 0x2000 <= u && u <= 0x200A
    ||| u == 0x2028
    ||| u == 0x2029
    ||| u == 0x202F
    ||| u == 0x205F
    ||| u == 0x3000
}

/// `char::to_ascii_lowercase`.
pub open spec fn spec_ascii_lower(c: char) -> char {
    if 'A' <= c && c <= 'Z' {
        ((c as u32) + 32) as char
    } else {
        c
    }
}

/// `str::to_ascii_lowercase`, character by character.
pub open spec fn spec_ascii_lower_seq(s: Seq<char>) -> Seq<char> {
    s.map_values(|c: char| spec_ascii_lower(c))
}

pub fn is_ascii_digit(c: char) -> (r: bool)
    ensures
        r == spec_is_ascii_digit(c),
{
    '0' <= c && c <= '9'
}

pub fn is_ascii_alphanumeric(c: char) -> (r: bool)
    ensures
        r == spec_is_ascii_alphanumeric(c),
{
    ('0' <= c && c <= '9') || ('a' <= c && c <= 'z') || ('A' <= c && c <= 'Z')
}

pub fn is_whitespace(c: char) -> (r: bool)
    ensures
        r == spec_is_whitespace(c),
{
    let u = c as u32;
    (0x09 <= u && u <= 0x0D) || u == 0x20 || u == 0x85 || u == 0xA0 || u == 0x1680 || (0x2000
        <= u && u <= 0x200A) || u == 0x2028 || u == 0x2029 || u == 0x202F || u == 0x205F || u
        == 0x3000
}

pub fn ascii_lower(c: char) -> (r: char)
    ensures
        r == spec_ascii_lower(c),
{
    if 'A' <= c && c <= 'Z' {
        let b: u8 = (c as u32) as u8;
        let r = (b + 32) as char;
        assert(r as u32 == (c as u32) + 32);
        r
    } else {
        c
    }
}

// ---------------------------------------------------------------------------
// Conversions between `str`, `String` and character vectors
// ---------------------------------------------------------------------------

/// Appends one character: `String::push`.
#[verifier::external_body]
pub fn push_char(s: &mut String, c: char)
    ensures
        final(s)@ == old(s)@.push(c),
{
    s.push(c);
}

/// String equality (`==` on `String`).
pub fn same(a: &String, b: &String) -> (r: bool)
    ensures
        r == (a@ == b@),
{
    *a == *b
}

/// String slice equality (`==` on `&str`).
pub fn str_eq(a: &str, b: &str) -> (r: bool)
    ensures
        r == (a@ == b@),
{
    let x = owned(a);
    let y = owned(b);
    same(&x, &y)
}

/// The characters of a string slice, in order.
pub fn chars_of(s: &str) -> (r: Vec<char>)
    ensures
        r@ == s@,
{
    broadcast use vstd::string::group_string_axioms;

    let mut v: Vec<char> = Vec::new();
    for c in it: s.chars()
        invariant
            v@ == it.seq().take(it.index() as int),
    {
        v.push(c);
    }
    v
}

/// The string made of the characters `cs[from..to]`.
pub fn string_of_range(cs: &Vec<char>, from: usize, to: usize) -> (r: String)
    requires
        from <= to <= cs@.len(),
    ensures
        r@ == cs@.subrange(from as int, to as int),
{
    let mut r = String::new();
    let mut i = from;
    while i < to
        invariant
            from <= i <= to <= cs@.len(),
            r@ == cs@.subrange(from as int, i as int),
        decreases to - i,
    {
        push_char(&mut r, cs[i]);
        i = i + 1;
        assert(r@ =~= cs@.subrange(from as int, i as int));
    }
    r
}

/// The string made of all of `cs`.
pub fn string_of(cs: &Vec<char>) -> (r: String)
    ensures
        r@ == cs@,
{
    let r = string_of_range(cs, 0, cs.len());
    assert(cs@.subrange(0, cs@.len() as int) =~= cs@);
    r
}

/// A copy of a string slice.
pub fn owned(s: &str) -> (r: String)
    ensures
        r@ == s@,
{
    String::from_str(s)
}

/// `a + b`, as a new string.
pub fn concat2(a: &str, b: &str) -> (r: String)
    ensures
        r@ == a@ + b@,
{
    let mut r = String::from_str(a);
    r.append(b);
    r
}

/// `a + b + c`, as a new string.
pub fn concat3(a: &str, b: &str, c: &str) -> (r: String)
    ensures
        r@ == a@ + b@ + c@,
{
    let mut r = String::from_str(a);
    r.append(b);
    r.append(c);
    r
}

/// ASCII lower-casing of a whole string (`str::to_ascii_lowercase`).
pub fn to_ascii_lowercase(s: &str) -> (r: String)
    ensures
        r@ == spec_ascii_lower_seq(s@),
{
    let cs = chars_of(s);
    let mut r = String::new();
    let mut i: usize = 0;
    while i < cs.len()
        invariant
            i <= cs@.len(),
            cs@ == s@,
            r@ =~= spec_ascii_lower_seq(cs@.take(i as int)),
        decreases cs.len() - i,
    {
        let c = ascii_lower(cs[i]);
        push_char(&mut r, c);
        i = i + 1;
        assert(spec_ascii_lower_seq(cs@.take(i as int)) =~= spec_ascii_lower_seq(
            cs@.take(i - 1),
        ).push(spec_ascii_lower(cs@[i - 1])));
    }
    assert(cs@.take(cs@.len() as int) =~= cs@);
    r
}

// ---------------------------------------------------------------------------
// Searching
// ---------------------------------------------------------------------------

/// `needle` occurs in `hay` starting at position `i`.
pub open spec fn occurs_at(hay: Seq<char>, needle: Seq<char>, i: int) -> bool {
    0 <= i && i + needle.len() <= hay.len() && hay.subrange(i, i + needle.len()) == needle
}

/// `str::contains` for a string pattern.
pub open spec fn spec_contains(hay: Seq<char>, needle: Seq<char>) -> bool {
    exists|i: int| occurs_at(hay, needle, i)
}

/// `str::starts_with` for a string pattern.
pub open spec fn spec_starts_with(s: Seq<char>, prefix: Seq<char>) -> bool {
    prefix.len() <= s.len() && s.subrange(0, prefix.len() as int) == prefix
}

fn matches_at(hay: &Vec<char>, needle: &Vec<char>, i: usize) -> (r: bool)
    ensures
        r == occurs_at(hay@, needle@, i as int),
{
    if needle.len() > hay.len() || i > hay.len() - needle.len() {
        return false;
    }
    let hl = hay.len();
    let mut k: usize = 0;
    while k < needle.len()
        invariant
            hl == hay@.len(),
            i <= hay@.len(),
            i + needle@.len() <= hay@.len(),
            k <= needle@.len(),
            forall|j: int| 0 <= j < k ==> hay@[i + j] == needle@[j],
        decreases needle.len() - k,
    {
        if hay[i + k] != needle[k] {
            assert(hay@.subrange(i as int, i + needle@.len())[k as int] != needle@[k as int]);
            return false;
        }
        k = k + 1;
    }
    assert(hay@.subrange(i as int, i + needle@.len()) =~= needle@);
    true
}

/// The first position at which `needle` occurs in `hay` (`str::find`).
pub fn find(hay: &Vec<char>, needle: &Vec<char>) -> (r: Option<usize>)
    ensures
        match r {
            Some(i) => occurs_at(hay@, needle@, i as int) && forall|j: int|
                0 <= j < i ==> !occurs_at(hay@, needle@, j),
            None => !spec_contains(hay@, needle@),
        },
{
    let mut i: usize = 0;
    while i < hay.len()
        invariant
            i <= hay@.len(),
            forall|j: int| 0 <= j < i ==> !occurs_at(hay@, needle@, j),
        decreases hay.len() - i,
    {
        if matches_at(hay, needle, i) {
            return Some(i);
        }
        i = i + 1;
    }
    if matches_at(hay, needle, i) {
        return Some(i);
    }
    assert forall|j: int| !occurs_at(hay@, needle@, j) by {
        if 0 <= j && j < i {
        }
    }
    None
}

/// `str::contains` for a string pattern.
pub fn contains(hay: &str, needle: &str) -> (r: bool)
    ensures
        r == spec_contains(hay@, needle@),
{
    let h = chars_of(hay);
    let n = chars_of(needle);
    match find(&h, &n) {
        Some(_) => true,
        None => false,
    }
}

/// `str::starts_with` for a string pattern.
pub fn starts_with(s: &Vec<char>, prefix: &Vec<char>) -> (r: bool)
    ensures
        r == spec_starts_with(s@, prefix@),
{
    let r = matches_at(s, prefix, 0);
    assert(occurs_at(s@, prefix@, 0) == spec_starts_with(s@, prefix@));
    r
}

// ---------------------------------------------------------------------------
// Trimming
// ---------------------------------------------------------------------------

/// `str::trim_start`: drops leading white space.
pub open spec fn spec_trim_start(s: Seq<char>) -> Seq<char>
    decreases s.len(),
{
    if s.len() > 0 && spec_is_whitespace(s[0]) {
        spec_trim_start(s.drop_first())
    } else {
        s
    }
}

/// `str::trim_end`: drops trailing white space.
pub open spec fn spec_trim_end(s: Seq<char>) -> Seq<char>
    decreases s.len(),
{
    if s.len() > 0 && spec_is_whitespace(s.last()) {
        spec_trim_end(s.drop_last())
    } else {
        s
    }
}

/// `str::trim`.
pub open spec fn spec_trim(s: Seq<char>) -> Seq<char> {
    spec_trim_end(spec_trim_start(s))
}

proof fn lemma_trim_start_skip(s: Seq<char>, i: int)
    requires
        0 <= i <= s.len(),
        forall|j: int| 0 <= j < i ==> spec_is_whitespace(#[trigger] s[j]),
    ensures
        spec_trim_start(s) == spec_trim_start(s.subrange(i, s.len() as int)),
    decreases i,
{
    if i > 0 {
        assert(spec_is_whitespace(s[0]));
        let t = s.drop_first();
        assert forall|j: int| 0 <= j < i - 1 implies spec_is_whitespace(#[trigger] t[j]) by {
            assert(t[j] == s[j + 1]);
        }
        lemma_trim_start_skip(t, i - 1);
        assert(t.subrange(i - 1, t.len() as int) =~= s.subrange(i, s.len() as int));
    } else {
        assert(s.subrange(0, s.len() as int) =~= s);
    }
}

proof fn lemma_trim_end_cut(s: Seq<char>, e: int)
    requires
        0 <= e <= s.len(),
        forall|j: int| e <= j < s.len() ==> spec_is_whitespace(#[trigger] s[j]),
    ensures
        spec_trim_end(s) == spec_trim_end(s.subrange(0, e)),
    decreases s.len() - e,
{
    if e < s.len() {
        assert(spec_is_whitespace(s.last()));
        let t = s.drop_last();
        assert forall|j: int| e <= j < t.len() implies spec_is_whitespace(#[trigger] t[j]) by {
            assert(t[j] == s[j]);
        }
        lemma_trim_end_cut(t, e);
        assert(t.subrange(0, e) =~= s.subrange(0, e));
    } else {
        assert(s.subrange(0, e) =~= s);
    }
}

/// The start and end positions of `s` with white space trimmed on both sides.
pub fn trim_bounds(cs: &Vec<char>) -> (r: (usize, usize))
    ensures
        r.0 <= r.1 <= cs@.len(),
        cs@.subrange(r.0 as int, r.1 as int) == spec_trim(cs@),
{
    let mut i: usize = 0;
    while i < cs.len() && is_whitespace(cs[i])
        invariant
            i <= cs@.len(),
            forall|j: int| 0 <= j < i ==> spec_is_whitespace(#[trigger] cs@[j]),
        decreases cs.len() - i,
    {
        i = i + 1;
    }
    proof {
        lemma_trim_start_skip(cs@, i as int);
        let rest = cs@.subrange(i as int, cs@.len() as int);
        if rest.len() > 0 {
            assert(rest[0] == cs@[i as int]);
        }
        assert(spec_trim_start(rest) == rest);
    }
    let mut e: usize = cs.len();
    while e > i && is_whitespace(cs[e - 1])
        invariant
            i <= e <= cs@.len(),
            forall|j: int| e <= j < cs@.len() ==> spec_is_whitespace(#[trigger] cs@[j]),
        decreases e,
    {
        e = e - 1;
    }
    proof {
        let rest = cs@.subrange(i as int, cs@.len() as int);
        assert forall|j: int| e - i <= j < rest.len() implies spec_is_whitespace(
            #[trigger] rest[j],
        ) by {
            assert(rest[j] == cs@[i + j]);
        }
        lemma_trim_end_cut(rest, e - i);
        let core = rest.subrange(0, e - i);
        assert(core =~= cs@.subrange(i as int, e as int));
        if core.len() > 0 {
            assert(core.last() == cs@[e - 1]);
        }
        assert(spec_trim_end(core) == core);
    }
    (i, e)
}

/// `str::trim`, as a new string.
pub fn trim(s: &str) -> (r: String)
    ensures
        r@ == spec_trim(s@),
{
    let cs = chars_of(s);
    let (a, b) = trim_bounds(&cs);
    string_of_range(&cs, a, b)
}

// ---------------------------------------------------------------------------
// Decimal numbers
// ---------------------------------------------------------------------------

/// The ASCII digit for `d < 10`.
pub open spec fn digit_char(d: nat) -> char {
    ((d + 48) as u32) as char
}

/// The value of an ASCII digit.
pub open spec fn digit_value(c: char) -> nat {
    ((c as u32) - 48) as nat
}

/// The decimal representation of `n`, without leading zeros (`u64::to_string`).
pub open spec fn spec_decimal(n: nat) -> Seq<char>
    decreases n,
{
    if n < 10 {
        seq![digit_char(n)]
    } else {
        spec_decimal(n / 10).push(digit_char(n % 10))
    }
}

/// The value of a sequence of decimal digits, most significant first.
pub open spec fn digits_value(s: Seq<char>) -> nat
    decreases s.len(),
{
    if s.len() == 0 {
        0
    } else {
        digits_value(s.drop_last()) * 10 + digit_value(s.last())
    }
}

/// Every character of `s` is an ASCII digit.
pub open spec fn all_digits(s: Seq<char>) -> bool {
    forall|i: int| 0 <= i < s.len() ==> spec_is_ascii_digit(#[trigger] s[i])
}

/// `u64::to_string`.
pub fn decimal_string(n: u64) -> (r: String)
    ensures
        r@ == spec_decimal(n as nat),
    decreases n,
{
    if n < 10 {
        let mut r = String::new();
        push_char(&mut r, ((n as u8) + 48) as char);
        assert(r@ =~= spec_decimal(n as nat));
        r
    } else {
        let mut r = decimal_string(n / 10);
        let d = (n % 10) as u8;
        push_char(&mut r, (d + 48) as char);
        r
    }
}

/// `str::parse::<u64>` on a run of ASCII digits: `None` when the run is empty
/// or its value does not fit in a `u64`.
pub fn parse_digits_u64(d: &Vec<char>, from: usize, to: usize) -> (r: Option<u64>)
    requires
        from <= to <= d@.len(),
        all_digits(d@.subrange(from as int, to as int)),
    ensures
        r == (if from == to || digits_value(d@.subrange(from as int, to as int))
            > u64::MAX as nat {
            None::<u64>
        } else {
            Some(digits_value(d@.subrange(from as int, to as int)) as u64)
        }),
{
    if from == to {
        return None;
    }
    let ghost s = d@.subrange(from as int, to as int);
    let mut v: u64 = 0;
    let mut i = from;
    while i < to
        invariant
            from <= i <= to <= d@.len(),
            s == d@.subrange(from as int, to as int),
            all_digits(s),
            v as nat == digits_value(s.take(i - from)),
        decreases to - i,
    {
        assert(spec_is_ascii_digit(s[i - from]));
        assert(s[i - from] == d@[i as int]);
        let dv = ((d[i] as u32) - 48) as u64;
        let ghost k = (i - from) + 1;
        assert(s.take(k).drop_last() =~= s.take(k - 1));
        assert(digits_value(s.take(k)) == v * 10 + dv);
        match v.checked_mul(10) {
            Some(t) => match t.checked_add(dv) {
                Some(w) => {
                    v = w;
                },
                None => {
                    proof {
                        lemma_digits_value_monotone(s, k);
                    }
                    return None;
                },
            },
            None => {
                proof {
                    lemma_digits_value_monotone(s, k);
                }
                return None;
            },
        }
        i = i + 1;
    }
    assert(s.take(to - from) =~= s);
    Some(v)
}

/// A longer prefix of digits is never worth less.
pub proof fn lemma_digits_value_monotone(s: Seq<char>, k: int)
    requires
        0 <= k <= s.len(),
    ensures
        digits_value(s.take(k)) <= digits_value(s),
    decreases s.len() - k,
{
    if k < s.len() {
        lemma_digits_value_monotone(s, k + 1);
        assert(s.take(k + 1).drop_last() =~= s.take(k));
    } else {
        assert(s.take(k) =~= s);
    }
}

// ---------------------------------------------------------------------------
// Distinct strings
// ---------------------------------------------------------------------------

/// The character sequences of a sequence of strings.
pub open spec fn views(xs: Seq<String>) -> Seq<Seq<char>> {
    xs.map_values(|s: String| s@)
}

/// How many different strings `xs` holds.
pub open spec fn distinct_count(xs: Seq<String>) -> nat {
    views(xs).to_set().len()
}

/// Whether `xs` holds a string equal to `x`.
pub fn contains_string(xs: &Vec<String>, x: &String) -> (r: bool)
    ensures
        r == views(xs@).contains(x@),
{
    let mut k: usize = 0;
    while k < xs.len()
        invariant
            k <= xs@.len(),
            forall|q: int| 0 <= q < k ==> xs@[q]@ != x@,
        decreases xs.len() - k,
    {
        if same(&xs[k], x) {
            assert(views(xs@)[k as int] == x@);
            return true;
        }
        k = k + 1;
    }
    assert(!views(xs@).contains(x@)) by {
        if views(xs@).contains(x@) {
            let w = choose|w: int| 0 <= w < views(xs@).len() && views(xs@)[w] == x@;
            assert(xs@[w]@ == x@);
        }
    }
    false
}

/// Appends `x` unless an equal string is already there (`HashSet::insert`).
pub fn insert_distinct(xs: &mut Vec<String>, x: &String) -> (added: bool)
    requires
        views(old(xs)@).no_duplicates(),
    ensures
        views(final(xs)@).no_duplicates(),
        views(final(xs)@).to_set() == views(old(xs)@).to_set().insert(x@),
        forall|y: Seq<char>| #[trigger]
            views(final(xs)@).contains(y) <==> (views(old(xs)@).contains(y) || y == x@),
        added == !views(old(xs)@).contains(x@),
        final(xs)@ == if added {
            old(xs)@.push(*x)
        } else {
            old(xs)@
        },
{
    if contains_string(xs, x) {
        assert(views(xs@).to_set() =~= views(xs@).to_set().insert(x@)) by {
            assert(views(xs@).to_set().contains(x@));
        }
        false
    } else {
        let ghost before = xs@;
        xs.push(x.clone());
        assert(views(xs@) =~= views(before).push(x@));
        proof {
            views(before).lemma_push_to_set_commute(x@);
            lemma_push_contains(views(before), x@);
        }
        assert(views(xs@).no_duplicates()) by {
            assert forall|i: int, j: int|
                0 <= i < views(xs@).len() && 0 <= j < views(xs@).len() && i != j implies views(
                xs@,
            )[i] != views(xs@)[j] by {
                if i == before.len() {
                    assert(views(before).contains(views(before)[j]));
                } else if j == before.len() {
                    assert(views(before).contains(views(before)[i]));
                }
            }
        }
        true
    }
}

/// The number of different strings among `xs`.
pub fn count_distinct(xs: &[String]) -> (n: usize)
    ensures
        n == distinct_count(xs@),
{
    let mut d: Vec<String> = Vec::new();
    let mut k: usize = 0;
    assert(views(d@).to_set() =~= views(xs@.take(0)).to_set());
    while k < xs.len()
        invariant
            k <= xs@.len(),
            d@.len() <= k,
            views(d@).no_duplicates(),
            views(d@).to_set() == views(xs@.take(k as int)).to_set(),
        decreases xs.len() - k,
    {
        insert_distinct(&mut d, &xs[k]);
        proof {
            assert(views(xs@.take(k + 1)) =~= views(xs@.take(k as int)).push(xs@[k as int]@));
            views(xs@.take(k as int)).lemma_push_to_set_commute(xs@[k as int]@);
        }
        k = k + 1;
    }
    proof {
        assert(xs@.take(xs@.len() as int) =~= xs@);
        views(d@).unique_seq_to_set();
    }
    d.len()
}

// ---------------------------------------------------------------------------
// Counting equal strings
// ---------------------------------------------------------------------------

/// How many strings of `xs` equal `x`.
pub open spec fn occurrences(xs: Seq<String>, x: Seq<char>) -> nat
    decreases xs.len(),
{
    if xs.len() == 0 {
        0
    } else {
        occurrences(xs.drop_last(), x) + (if xs.last()@ == x {
            1nat
        } else {
            0
        })
    }
}

/// One distinct string and how often it occurs.
#[derive(Debug, Clone)]
pub struct Tally {
    pub key: String,
    pub count: usize,
}

/// The keys of a tally are distinct and each count is the number of
/// occurrences of its key in `xs`; every string of `xs` has an entry.
pub open spec fn is_tally_of(r: Seq<Tally>, xs: Seq<String>) -> bool {
    &&& forall|i: int, j: int| 0 <= i < r.len() && 0 <= j < r.len() && i != j ==> r[i].key@ != r[j].key@
    &&& forall|i: int|
        0 <= i < r.len() ==> #[trigger] r[i].count == occurrences(xs, r[i].key@) && r[i].count > 0
    &&& forall|x: Seq<char>| #[trigger] occurrences(xs, x) > 0 ==> tally_has(r, x)
}

/// The tally has an entry for `x`.
pub open spec fn tally_has(r: Seq<Tally>, x: Seq<char>) -> bool {
    exists|i: int| 0 <= i < r.len() && #[trigger] r[i].key@ == x
}

proof fn lemma_occurrences_le_len(xs: Seq<String>, x: Seq<char>)
    ensures
        occurrences(xs, x) <= xs.len(),
    decreases xs.len(),
{
    if xs.len() > 0 {
        lemma_occurrences_le_len(xs.drop_last(), x);
    }
}

fn find_tally(r: &Vec<Tally>, x: &String) -> (found: Option<usize>)
    ensures
        match found {
            Some(i) => i < r@.len() && r@[i as int].key@ == x@,
            None => !tally_has(r@, x@),
        },
{
    let mut i: usize = 0;
    while i < r.len()
        invariant
            i <= r@.len(),
            forall|q: int| 0 <= q < i ==> r@[q].key@ != x@,
        decreases r.len() - i,
    {
        if same(&r[i].key, x) {
            return Some(i);
        }
        i = i + 1;
    }
    None
}

/// Counts equal strings (a `HashMap<String, usize>` of occurrences).
pub fn tally(xs: &Vec<String>) -> (r: Vec<Tally>)
    ensures
        is_tally_of(r@, xs@),
{
    let mut r: Vec<Tally> = Vec::new();
    let mut k: usize = 0;
    while k < xs.len()
        invariant
            k <= xs@.len(),
            is_tally_of(r@, xs@.take(k as int)),
        decreases xs.len() - k,
    {
        let x = &xs[k];
        let ghost p0 = xs@.take(k as int);
        let ghost p1 = xs@.take(k + 1);
        let ghost r0 = r@;
        assert(p1.drop_last() =~= p0);
        assert(p1.last() == *x);
        let found_at = find_tally(&r, x);
        proof {
            lemma_occurrences_le_len(p0, x@);
        }
        if let Some(i) = found_at {
            assert(r@[i as int].key@ == x@);
            let c = r[i].count + 1;
            r[i].count = c;
            proof {
                assert forall|q: int| 0 <= q < r@.len() && q != i implies #[trigger] r@[q] == r0[q] by {}
                assert forall|q: int| 0 <= q < r@.len() implies #[trigger] r@[q].count == occurrences(
                    p1,
                    r@[q].key@,
                ) && r@[q].count > 0 by {
                    assert(r@[q].key@ == r0[q].key@);
                }
                assert forall|y: Seq<char>| #[trigger] occurrences(p1, y) > 0 implies tally_has(r@, y) by {
                    if y != x@ {
                        assert(occurrences(p0, y) > 0);
                        let w = choose|w: int| 0 <= w < r0.len() && #[trigger] r0[w].key@ == y;
                        assert(r@[w].key@ == y);
                    } else {
                        assert(r@[i as int].key@ == y);
                    }
                }
                assert forall|a: int, b: int|
                    0 <= a < r@.len() && 0 <= b < r@.len() && a != b implies r@[a].key@ != r@[b].key@ by {
                    assert(r@[a].key@ == r0[a].key@);
                    assert(r@[b].key@ == r0[b].key@);
                }
            }
        } else {
            proof {
                assert(!tally_has(r0, x@));
                assert(occurrences(p0, x@) == 0);
            }
            r.push(Tally { key: x.clone(), count: 1 });
            proof {
                let n = r0.len() as int;
                assert(r@[n].key@ == x@);
                assert forall|q: int| 0 <= q < r@.len() implies #[trigger] r@[q].count == occurrences(
                    p1,
                    r@[q].key@,
                ) && r@[q].count > 0 by {
                    if q < n {
                        assert(r@[q] == r0[q]);
                    }
                }
                assert forall|y: Seq<char>| #[trigger] occurrences(p1, y) > 0 implies tally_has(r@, y) by {
                    if y != x@ {
                        assert(occurrences(p0, y) > 0);
                        let w = choose|w: int| 0 <= w < r0.len() && #[trigger] r0[w].key@ == y;
                        assert(r@[w] == r0[w]);
                    } else {
                        assert(r@[n].key@ == y);
                    }
                }
                assert forall|a: int, b: int|
                    0 <= a < r@.len() && 0 <= b < r@.len() && a != b implies r@[a].key@ != r@[b].key@ by {
                    if a < n && b < n {
                        assert(r@[a] == r0[a]);
                        assert(r@[b] == r0[b]);
                    } else if a < n {
                        assert(r@[a] == r0[a]);
                    } else {
                        assert(r@[b] == r0[b]);
                    }
                }
            }
        }
        k = k + 1;
    }
    assert(xs@.take(xs@.len() as int) =~= xs@);
    r
}

/// The strings of `xs` that occur at least `n` times, once each.
pub fn keys_with_count_at_least(xs: &Vec<String>, n: usize) -> (r: Vec<String>)
    ensures
        views(r@).no_duplicates(),
        forall|p: int| 0 <= p < r@.len() ==> occurrences(xs@, #[trigger] r@[p]@) >= n,
        forall|x: Seq<char>| #[trigger] occurrences(xs@, x) >= n && n > 0 ==> views(r@).contains(x),
{
    let t = tally(xs);
    let mut r: Vec<String> = Vec::new();
    let mut i: usize = 0;
    while i < t.len()
        invariant
            i <= t@.len(),
            is_tally_of(t@, xs@),
            views(r@).no_duplicates(),
            forall|p: int| 0 <= p < r@.len() ==> occurrences(xs@, #[trigger] r@[p]@) >= n,
            forall|p: int|
                #![trigger r@[p]]
                0 <= p < r@.len() ==> exists|q: int| 0 <= q < i && t@[q].key@ == r@[p]@,
            forall|q: int| 0 <= q < i && #[trigger] t@[q].count >= n ==> views(r@).contains(t@[q].key@),
        decreases t.len() - i,
    {
        let ghost r0 = r@;
        if t[i].count >= n {
            r.push(t[i].key.clone());
            proof {
                let m = r0.len() as int;
                assert(views(r@) =~= views(r0).push(t@[i as int].key@));
                assert(views(r@)[m] == t@[i as int].key@);
                assert forall|a: int, b: int|
                    0 <= a < views(r@).len() && 0 <= b < views(r@).len() && a != b implies views(r@)[a]
                        != views(r@)[b] by {
                    if a == m || b == m {
                        let o = if a == m {
                            b
                        } else {
                            a
                        };
                        assert(r@[o] == r0[o]);
                        let q = choose|q: int| 0 <= q < i && t@[q].key@ == r0[o]@;
                        assert(t@[q].key@ != t@[i as int].key@);
                    } else {
                        assert(views(r@)[a] == views(r0)[a]);
                        assert(views(r@)[b] == views(r0)[b]);
                    }
                }
                assert forall|p: int| #![trigger r@[p]] 0 <= p < r@.len() implies exists|q: int|
                    0 <= q < i + 1 && t@[q].key@ == r@[p]@ by {
                    if p < m {
                        assert(r@[p] == r0[p]);
                        let q = choose|q: int| 0 <= q < i && t@[q].key@ == r0[p]@;
                    } else {
                        assert(t@[i as int].key@ == r@[p]@);
                    }
                }
                assert forall|q: int| 0 <= q < i + 1 && #[trigger] t@[q].count >= n implies views(
                    r@,
                ).contains(t@[q].key@) by {
                    if q < i {
                        let w = choose|w: int| 0 <= w < views(r0).len() && views(r0)[w] == t@[q].key@;
                        assert(views(r@)[w] == views(r0)[w]);
                    } else {
                        assert(views(r@)[m] == t@[q].key@);
                    }
                }
                assert forall|p: int| 0 <= p < r@.len() implies occurrences(xs@, #[trigger] r@[p]@) >= n by {
                    if p < m {
                        assert(r@[p] == r0[p]);
                    } else {
                        assert(t@[i as int].count == occurrences(xs@, t@[i as int].key@));
                    }
                }
            }
        }
        i = i + 1;
    }
    proof {
        assert forall|x: Seq<char>| #[trigger] occurrences(xs@, x) >= n && n > 0 implies views(
            r@,
        ).contains(x) by {
            assert(tally_has(t@, x));
            let q = choose|q: int| 0 <= q < t@.len() && #[trigger] t@[q].key@ == x;
            assert(t@[q].count == occurrences(xs@, t@[q].key@));
        }
    }
    r
}

/// Occurrence counts depend only on the characters of the strings.
pub proof fn lemma_occurrences_views(xs: Seq<String>, ys: Seq<String>, x: Seq<char>)
    requires
        views(xs) == views(ys),
    ensures
        occurrences(xs, x) == occurrences(ys, x),
    decreases xs.len(),
{
    assert(xs.len() == views(xs).len());
    assert(ys.len() == views(ys).len());
    if xs.len() > 0 {
        assert(views(xs.drop_last()) =~= views(xs).drop_last());
        assert(views(ys.drop_last()) =~= views(ys).drop_last());
        assert(xs.last()@ == views(xs)[xs.len() - 1]);
        assert(ys.last()@ == views(ys)[ys.len() - 1]);
        lemma_occurrences_views(xs.drop_last(), ys.drop_last(), x);
    }
}

/// Membership in a sequence after a push.
pub proof fn lemma_push_contains<A>(xs: Seq<A>, y: A)
    ensures
        forall|x: A| #[trigger] xs.push(y).contains(x) <==> (xs.contains(x) || x == y),
{
    assert forall|x: A| #[trigger] xs.push(y).contains(x) <==> (xs.contains(x) || x == y) by {
        if xs.push(y).contains(x) {
            let w = choose|w: int| 0 <= w < xs.push(y).len() && xs.push(y)[w] == x;
            if w < xs.len() {
                assert(xs[w] == x);
            }
        }
        if xs.contains(x) {
            let w = choose|w: int| 0 <= w < xs.len() && xs[w] == x;
            assert(xs.push(y)[w] == x);
        }
        if x == y {
            assert(xs.push(y)[xs.len() as int] == x);
        }
    }
}

} // verus!
