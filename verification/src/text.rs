//! Text seen as a sequence of characters: white space, lines, joining,
//! searching, decimal numbers.

use crate::list;
use vstd::prelude::*;

verus! {

/// `String::push` appends one character at the end.
pub assume_specification[ String::push ](s: &mut String, ch: char)
    ensures
        final(s)@ == old(s)@.push(ch),
;

/// `String::pop` takes the last character off, if there is one.
pub assume_specification[ String::pop ](s: &mut String) -> (r: Option<char>)
    ensures
        old(s)@.len() == 0 ==> r is None && final(s)@ == old(s)@,
        old(s)@.len() > 0 ==> r == Some(old(s)@.last()) && final(s)@ == old(s)@.drop_last(),
;

/// The lower-case form of a text, as `str::to_lowercase` computes it from
/// the Unicode tables.
pub uninterp spec fn lowercase(s: Seq<char>) -> Seq<char>;

/// `str::to_lowercase` depends on the text alone. Of text that is all ASCII it
/// changes the letters `A` to `Z` only, each to its lower-case letter.
pub assume_specification[ str::to_lowercase ](s: &str) -> (r: String)
    ensures
        r@ == lowercase(s@),
        all_ascii(s@) ==> r@ == ascii_lowercase(s@),
;

/// Every character is ASCII.
pub open spec fn all_ascii(s: Seq<char>) -> bool {
    forall|i: int| 0 <= i < s.len() ==> (#[trigger] s[i] as u32) < 0x80
}

/// The lower-case form of an ASCII letter; any other character as it is.
pub open spec fn ascii_lower(c: char) -> char {
    if 'A' <= c <= 'Z' {
        ((c as u32 + 32) as u32) as char
    } else {
        c
    }
}

/// `ascii_lower` on every character.
pub open spec fn ascii_lowercase(s: Seq<char>) -> Seq<char> {
    s.map_values(|c: char| ascii_lower(c))
}

/// The lower-case form of a text.
pub open spec fn lower(s: Seq<char>) -> Seq<char> {
    if all_ascii(s) {
        ascii_lowercase(s)
    } else {
        lowercase(s)
    }
}

/// The lower-case form of a text.
pub fn to_lower(s: &str) -> (r: String)
    ensures
        r@ == lower(s@),
{
    s.to_lowercase()
}

/// The characters with the Unicode property `White_Space`.
pub open spec fn is_space(c: char) -> bool {
    let n = c as u32;
    ||| 0x09 <= n <= 0x0d
    ||| n == 0x20
    ||| n == 0x85
    ||| n == 0xa0
    ||| n == 0x1680
    ||| 0x2000 <= n <= 0x200a
    ||| n == 0x2028
    ||| n == 0x2029
    ||| n == 0x202f
    ||| n == 0x205f
    ||| n == 0x3000
}

/// Whether `c` is white space.
pub fn is_whitespace(c: char) -> (b: bool)
    ensures
        b == is_space(c),
{
    let n: u32 = c as u32;
    (0x09 <= n && n <= 0x0d) || n == 0x20 || n == 0x85 || n == 0xa0 || n == 0x1680 || (0x2000 <= n
        && n <= 0x200a) || n == 0x2028 || n == 0x2029 || n == 0x202f || n == 0x205f || n == 0x3000
}

/// Whether two characters are equal up to the case of ASCII letters.
pub fn eq_ignore_ascii_case(a: char, b: char) -> (r: bool)
    ensures
        r == (ascii_lower(a) == ascii_lower(b)),
{
    let x: u32 = if 'A' <= a && a <= 'Z' {
        a as u32 + 32
    } else {
        a as u32
    };
    let y: u32 = if 'A' <= b && b <= 'Z' {
        b as u32 + 32
    } else {
        b as u32
    };
    x == y
}

/// The characters of `s`.
pub fn chars_of(s: &str) -> (v: Vec<char>)
    ensures
        v@ == s@,
{
    let mut v: Vec<char> = Vec::new();
    for c in it: s.chars()
        invariant
            it.seq() == s@,
            v@ == s@.take(it.index()),
    {
        v.push(c);
    }
    v
}

/// The text made of the characters `from` to `to` (exclusive) of `chars`.
pub fn text_of(chars: &Vec<char>, from: usize, to: usize) -> (r: String)
    requires
        from <= to <= chars@.len(),
    ensures
        r@ == chars@.subrange(from as int, to as int),
{
    let mut r: String = String::new();
    let mut i: usize = from;
    while i < to
        invariant
            from <= i <= to <= chars@.len(),
            r@ == chars@.subrange(from as int, i as int),
        decreases to - i,
    {
        r.push(chars[i]);
        i += 1;
    }
    r
}

/// A copy of a text.
pub fn copy_of(s: &str) -> (r: String)
    ensures
        r@ == s@,
{
    s.to_owned()
}

/// Whether two texts are the same.
pub fn same(a: &str, b: &str) -> (r: bool)
    ensures
        r == (a@ == b@),
{
    let x: String = a.to_owned();
    let y: String = b.to_owned();
    x == y
}

/// Appends a copy of `s` to a list of texts.
pub fn add_text(v: &mut Vec<String>, s: &str)
    ensures
        final(v).deep_view() == old(v).deep_view().push(s@),
{
    list::add_item(v, copy_of(s));
}

/// Appends copies of all `more` to a list of texts.
pub fn add_texts(v: &mut Vec<String>, more: &Vec<String>)
    ensures
        final(v).deep_view() == old(v).deep_view() + more.deep_view(),
{
    let ghost before = v.deep_view();
    let ghost all = more.deep_view();
    let mut i: usize = 0;
    assert(before + all.take(0) =~= before);
    while i < more.len()
        invariant
            i <= more@.len(),
            all == more.deep_view(),
            v.deep_view() == before + all.take(i as int),
        decreases more@.len() - i,
    {
        add_text(v, more[i].as_str());
        assert(before + all.take(i + 1) =~= (before + all.take(i as int)).push(more@[i as int]@));
        i += 1;
    }
    assert(all.take(i as int) =~= all);
}

/// The texts of a list of literals.
pub fn owned(parts: &[&str]) -> (r: Vec<String>)
    ensures
        r.deep_view() == parts.deep_view(),
{
    let mut r: Vec<String> = Vec::new();
    let mut i: usize = 0;
    assert(r.deep_view() =~= parts.deep_view().take(0));
    while i < parts.len()
        invariant
            i <= parts@.len(),
            r.deep_view() == parts.deep_view().take(i as int),
        decreases parts@.len() - i,
    {
        add_text(&mut r, parts[i]);
        assert(parts.deep_view().take(i + 1) =~= parts.deep_view().take(i as int).push(
            parts[i as int]@,
        ));
        i += 1;
    }
    assert(parts.deep_view().take(i as int) =~= parts.deep_view());
    r
}

/// A copy of a list of texts.
pub fn copy_texts(v: &Vec<String>) -> (r: Vec<String>)
    ensures
        r.deep_view() == v.deep_view(),
{
    let mut r: Vec<String> = Vec::new();
    add_texts(&mut r, v);
    assert(r.deep_view() =~= v.deep_view());
    r
}

/// A copy of a text that may be absent.
pub fn copy_optional(o: &Option<String>) -> (r: Option<String>)
    ensures
        r.deep_view() == o.deep_view(),
{
    match o {
        Some(s) => Some(copy_of(s.as_str())),
        None => None,
    }
}

/// One text after another.
pub fn concat(a: &str, b: &str) -> (r: String)
    ensures
        r@ == a@ + b@,
{
    let mut r: String = copy_of(a);
    r.append(b);
    r
}

/// `body` between two texts.
pub fn between(before: &str, body: &str, after: &str) -> (r: String)
    ensures
        r@ == before@ + body@ + after@,
{
    let mut r: String = copy_of(before);
    r.append(body);
    r.append(after);
    r
}

// ---------------------------------------------------------------------------
// Trimming
// ---------------------------------------------------------------------------

/// `s` without the white space in front.
pub open spec fn trim_start(s: Seq<char>) -> Seq<char>
    decreases s.len(),
{
    if s.len() > 0 && is_space(s[0]) {
        trim_start(s.drop_first())
    } else {
        s
    }
}

/// `s` without the white space at the end.
pub open spec fn trim_end(s: Seq<char>) -> Seq<char>
    decreases s.len(),
{
    if s.len() > 0 && is_space(s.last()) {
        trim_end(s.drop_last())
    } else {
        s
    }
}

/// `s` without the white space in front and at the end.
pub open spec fn trimmed(s: Seq<char>) -> Seq<char> {
    trim_end(trim_start(s))
}

proof fn lemma_trim_start(s: Seq<char>, i: int)
    requires
        0 <= i <= s.len(),
        forall|k: int| 0 <= k < i ==> is_space(#[trigger] s[k]),
        i < s.len() ==> !is_space(s[i]),
    ensures
        trim_start(s) == s.skip(i),
    decreases i,
{
    if i == 0 {
        assert(s.skip(0) =~= s);
    } else {
        assert(is_space(s[0]));
        let t = s.drop_first();
        assert forall|k: int| 0 <= k < i - 1 implies is_space(#[trigger] t[k]) by {
            assert(t[k] == s[k + 1]);
        }
        lemma_trim_start(t, i - 1);
        assert(t.skip(i - 1) =~= s.skip(i));
    }
}

proof fn lemma_trim_end(s: Seq<char>, j: int)
    requires
        0 <= j <= s.len(),
        forall|k: int| j <= k < s.len() ==> is_space(#[trigger] s[k]),
        j > 0 ==> !is_space(s[j - 1]),
    ensures
        trim_end(s) == s.take(j),
    decreases s.len() - j,
{
    if j == s.len() {
        assert(s.take(j) =~= s);
    } else {
        assert(is_space(s[s.len() - 1]));
        let t = s.drop_last();
        assert forall|k: int| j <= k < t.len() implies is_space(#[trigger] t[k]) by {
            assert(t[k] == s[k]);
        }
        lemma_trim_end(t, j);
        assert(t.take(j) =~= s.take(j));
    }
}

proof fn lemma_trim_start_map(s: Seq<char>)
    ensures
        trim_start(ascii_lowercase(s)) == ascii_lowercase(trim_start(s)),
    decreases s.len(),
{
    if s.len() > 0 && is_space(s[0]) {
        lemma_trim_start_map(s.drop_first());
        assert(ascii_lowercase(s).drop_first() =~= ascii_lowercase(s.drop_first()));
    }
}

proof fn lemma_trim_end_map(s: Seq<char>)
    ensures
        trim_end(ascii_lowercase(s)) == ascii_lowercase(trim_end(s)),
    decreases s.len(),
{
    if s.len() > 0 && is_space(s.last()) {
        lemma_trim_end_map(s.drop_last());
        assert(ascii_lowercase(s).drop_last() =~= ascii_lowercase(s.drop_last()));
    }
}

proof fn lemma_trimmed_ascii(s: Seq<char>)
    requires
        all_ascii(s),
    ensures
        all_ascii(trimmed(s)),
    decreases s.len(),
{
    if s.len() > 0 && is_space(s[0]) {
        assert forall|i: int| 0 <= i < s.drop_first().len() implies (
        #[trigger] s.drop_first()[i] as u32) < 0x80 by {
            assert(s.drop_first()[i] == s[i + 1]);
        }
        lemma_trimmed_ascii(s.drop_first());
    } else if s.len() > 0 && is_space(s.last()) {
        assert forall|i: int| 0 <= i < s.drop_last().len() implies (
        #[trigger] s.drop_last()[i] as u32) < 0x80 by {
            assert(s.drop_last()[i] == s[i]);
        }
        lemma_trimmed_ascii(s.drop_last());
        assert(trim_start(s) == s);
        assert(s.drop_last().len() > 0 ==> s.drop_last()[0] == s[0]);
        assert(trim_start(s.drop_last()) == s.drop_last());
    }
}

/// Of ASCII text, lower case is lower case again, and trimming and lowering
/// can be done in either order.
pub proof fn lowering_ascii_twice_is_lowering_once(s: Seq<char>)
    requires
        all_ascii(s),
    ensures
        all_ascii(ascii_lowercase(s)),
        lower(ascii_lowercase(s)) == lower(s),
        lower(trimmed(ascii_lowercase(s))) == lower(trimmed(s)),
{
    let low = ascii_lowercase(s);
    assert forall|i: int| 0 <= i < low.len() implies (#[trigger] low[i] as u32) < 0x80 by {
        assert((s[i] as u32) < 0x80);
    }
    assert(ascii_lowercase(low) =~= low);
    lemma_trim_start_map(s);
    lemma_trim_end_map(trim_start(s));
    lemma_trimmed_ascii(s);
    lemma_trimmed_ascii(low);
    let t = trimmed(s);
    assert(ascii_lowercase(ascii_lowercase(t)) =~= ascii_lowercase(t));
}

/// Of white space alone nothing is left.
pub proof fn blank_text_trims_to_nothing(s: Seq<char>)
    requires
        forall|k: int| 0 <= k < s.len() ==> is_space(#[trigger] s[k]),
    ensures
        trimmed(s).len() == 0,
{
    lemma_trim_start(s, s.len() as int);
}

/// `s` without the white space at both ends.
pub fn trim<'a>(s: &'a str) -> (r: &'a str)
    ensures
        r@ == trimmed(s@),
{
    let cs: Vec<char> = chars_of(s);
    let n: usize = cs.len();
    let mut i: usize = 0;
    while i < n && is_whitespace(cs[i])
        invariant
            i <= n == cs@.len(),
            forall|k: int| 0 <= k < i ==> is_space(#[trigger] cs@[k]),
        ensures
            i < n ==> !is_space(cs@[i as int]),
        decreases n - i,
    {
        i += 1;
    }
    let mut j: usize = n;
    while j > i && is_whitespace(cs[j - 1])
        invariant
            i <= j <= n == cs@.len(),
            forall|k: int| j <= k < n ==> is_space(#[trigger] cs@[k]),
        ensures
            j > i ==> !is_space(cs@[j - 1]),
        decreases j,
    {
        j -= 1;
    }
    proof {
        lemma_trim_start(cs@, i as int);
        let t = cs@.skip(i as int);
        assert forall|k: int| j - i <= k < t.len() implies is_space(#[trigger] t[k]) by {
            assert(t[k] == cs@[k + i]);
        }
        lemma_trim_end(t, j - i);
        assert(t.take(j - i) =~= s@.subrange(i as int, j as int));
    }
    s.substring_char(i, j)
}

// ---------------------------------------------------------------------------
// Lines
// ---------------------------------------------------------------------------

/// The number of characters before the first line feed (all of them if there
/// is none).
pub open spec fn line_len(s: Seq<char>) -> nat
    decreases s.len(),
{
    if s.len() == 0 || s[0] == '\n' {
        0
    } else {
        1 + line_len(s.drop_first())
    }
}

/// `line` without a carriage return at its end.
pub open spec fn chomp(line: Seq<char>) -> Seq<char> {
    if line.len() > 0 && line.last() == '\r' {
        line.drop_last()
    } else {
        line
    }
}

/// The lines of `s`: each ends with a line feed, or with a carriage return and
/// a line feed; neither belongs to the line. The last line may lack its ending.
pub open spec fn lines(s: Seq<char>) -> Seq<Seq<char>>
    decreases s.len(),
{
    if s.len() == 0 {
        Seq::empty()
    } else if line_len(s) < s.len() {
        seq![chomp(s.take(line_len(s) as int))] + lines(s.skip(line_len(s) as int + 1))
    } else {
        seq![s]
    }
}

proof fn lemma_line_len(s: Seq<char>, n: int)
    requires
        0 <= n <= s.len(),
        forall|k: int| 0 <= k < n ==> #[trigger] s[k] != '\n',
        n < s.len() ==> s[n] == '\n',
    ensures
        line_len(s) == n,
    decreases n,
{
    if n > 0 {
        assert(s[0] != '\n');
        let t = s.drop_first();
        assert forall|k: int| 0 <= k < n - 1 implies #[trigger] t[k] != '\n' by {
            assert(t[k] == s[k + 1]);
        }
        lemma_line_len(t, n - 1);
    }
}

/// Splits a text into its lines.
pub fn split_lines(s: &str) -> (v: Vec<String>)
    ensures
        v.deep_view() == lines(s@),
{
    let cs: Vec<char> = chars_of(s);
    let mut v: Vec<String> = Vec::new();
    let mut start: usize = 0;
    let mut i: usize = 0;
    assert(cs@.skip(0) =~= cs@);
    while i < cs.len()
        invariant
            cs@ == s@,
            start <= i <= cs@.len(),
            forall|k: int| start <= k < i ==> #[trigger] cs@[k] != '\n',
            lines(s@) == v.deep_view() + lines(cs@.skip(start as int)),
        decreases cs@.len() - i,
    {
        if cs[i] == '\n' {
            let end: usize = if i > start && cs[i - 1] == '\r' {
                i - 1
            } else {
                i
            };
            let line: String = text_of(&cs, start, end);
            let ghost before = v.deep_view();
            v.push(line);
            proof {
                let t = cs@.skip(start as int);
                assert forall|k: int| 0 <= k < i - start implies #[trigger] t[k] != '\n' by {
                    assert(t[k] == cs@[k + start]);
                }
                lemma_line_len(t, i - start);
                assert(t.take(i - start) =~= cs@.subrange(start as int, i as int));
                assert(chomp(t.take(i - start)) =~= line@);
                assert(t.skip(i - start + 1) =~= cs@.skip(i + 1));
                assert(v.deep_view() =~= before.push(line@));
                assert(before + (seq![line@] + lines(cs@.skip(i + 1))) =~= before.push(line@)
                    + lines(cs@.skip(i + 1)));
            }
            start = i + 1;
        }
        i += 1;
    }
    let ghost before = v.deep_view();
    if start < cs.len() {
        let line: String = text_of(&cs, start, cs.len());
        v.push(line);
        proof {
            let t = cs@.skip(start as int);
            assert forall|k: int| 0 <= k < t.len() implies #[trigger] t[k] != '\n' by {
                assert(t[k] == cs@[k + start]);
            }
            lemma_line_len(t, t.len() as int);
            assert(line@ =~= t);
            assert(v.deep_view() =~= before.push(line@));
            assert(before + seq![line@] =~= before.push(line@));
        }
    } else {
        assert(cs@.skip(start as int) =~= Seq::<char>::empty());
        assert(before + lines(Seq::<char>::empty()) =~= before);
    }
    v
}

// ---------------------------------------------------------------------------
// Joining
// ---------------------------------------------------------------------------

/// The parts one after the other with `sep` between them.
pub open spec fn joined(parts: Seq<Seq<char>>, sep: Seq<char>) -> Seq<char>
    decreases parts.len(),
{
    if parts.len() == 0 {
        Seq::empty()
    } else if parts.len() == 1 {
        parts[0]
    } else {
        joined(parts.drop_last(), sep) + sep + parts.last()
    }
}

/// Joins texts with `sep` between them.
pub fn join(parts: &Vec<String>, sep: &str) -> (r: String)
    ensures
        r@ == joined(parts.deep_view(), sep@),
{
    let mut r: String = String::new();
    let mut i: usize = 0;
    let ghost all = parts.deep_view();
    while i < parts.len()
        invariant
            i <= parts@.len(),
            all == parts.deep_view(),
            r@ == joined(all.take(i as int), sep@),
        decreases parts@.len() - i,
    {
        proof {
            assert(all.take(i + 1).drop_last() =~= all.take(i as int));
            assert(all.take(i + 1).last() == parts@[i as int]@);
        }
        if i > 0 {
            r.append(sep);
        }
        r.append(parts[i].as_str());
        i += 1;
        assert(i == 1 ==> r@ =~= all[0]);
    }
    assert(all.take(i as int) =~= all);
    r
}

// ---------------------------------------------------------------------------
// Decimal numbers
// ---------------------------------------------------------------------------

/// The decimal digit `d`.
pub open spec fn digit(d: nat) -> char {
    ((48 + d) as u32) as char
}

/// `n` in decimal notation, without leading zeros.
pub open spec fn decimal(n: nat) -> Seq<char>
    decreases n,
{
    if n < 10 {
        seq![digit(n)]
    } else {
        decimal(n / 10).push(digit(n % 10))
    }
}

/// The decimal notation of `n`.
pub fn to_decimal(n: usize) -> (r: String)
    ensures
        r@ == decimal(n as nat),
    decreases n,
{
    let d: u8 = (n % 10) as u8;
    let c: char = (48 + d) as char;
    if n < 10 {
        let mut r: String = String::new();
        r.push(c);
        assert(r@ =~= seq![digit(n as nat)]);
        r
    } else {
        let mut r: String = to_decimal(n / 10);
        r.push(c);
        r
    }
}

// ---------------------------------------------------------------------------
// Searching
// ---------------------------------------------------------------------------

/// `part` stands in `s` at `i`.
pub open spec fn occurs_at(s: Seq<char>, part: Seq<char>, i: int) -> bool {
    0 <= i && i + part.len() <= s.len() && s.subrange(i, i + part.len()) == part
}

/// `part` stands somewhere in `s`.
pub open spec fn occurs_in(s: Seq<char>, part: Seq<char>) -> bool {
    exists|i: int| occurs_at(s, part, i)
}

/// `s` begins with `part`.
pub open spec fn begins_with(s: Seq<char>, part: Seq<char>) -> bool {
    occurs_at(s, part, 0)
}

fn part_at(s: &Vec<char>, part: &Vec<char>, i: usize) -> (r: bool)
    requires
        i <= s@.len(),
    ensures
        r == occurs_at(s@, part@, i as int),
{
    let n: usize = s.len();
    if part.len() > n - i {
        return false;
    }
    let mut k: usize = 0;
    while k < part.len()
        invariant
            k <= part@.len(),
            n == s@.len(),
            i + part@.len() <= n,
            forall|m: int| 0 <= m < k ==> s@[i + m] == #[trigger] part@[m],
        decreases part@.len() - k,
    {
        if s[i + k] != part[k] {
            assert(s@.subrange(i as int, i + part@.len())[k as int] != part@[k as int]);
            return false;
        }
        k += 1;
    }
    assert(s@.subrange(i as int, i + part@.len()) =~= part@);
    true
}

/// Whether `s` begins with `part`.
pub fn starts_with(s: &str, part: &str) -> (r: bool)
    ensures
        r == begins_with(s@, part@),
{
    let a: Vec<char> = chars_of(s);
    let b: Vec<char> = chars_of(part);
    part_at(&a, &b, 0)
}

/// Whether `part` stands somewhere in `s`.
pub fn contains(s: &str, part: &str) -> (r: bool)
    ensures
        r == occurs_in(s@, part@),
{
    let a: Vec<char> = chars_of(s);
    let b: Vec<char> = chars_of(part);
    let mut i: usize = 0;
    while i < a.len()
        invariant
            i <= a@.len(),
            a@ == s@,
            b@ == part@,
            forall|m: int| 0 <= m < i ==> !#[trigger] occurs_at(s@, part@, m),
        decreases a@.len() - i,
    {
        if part_at(&a, &b, i) {
            return true;
        }
        i += 1;
    }
    let r: bool = part_at(&a, &b, i);
    r
}

/// `at` holds, in ascending order, places of `s` where the characters of
/// `pattern` stand.
pub open spec fn embeds(at: Seq<int>, pattern: Seq<char>, s: Seq<char>) -> bool {
    &&& at.len() == pattern.len()
    &&& forall|k: int|
        0 <= k < at.len() ==> 0 <= #[trigger] at[k] < s.len() && s[at[k]] == pattern[k]
    &&& forall|j: int, k: int| 0 <= j < k < at.len() ==> #[trigger] at[j] < #[trigger] at[k]
}

/// All characters of `pattern` appear in `s` in order, with anything between.
pub open spec fn in_order(pattern: Seq<char>, s: Seq<char>) -> bool {
    exists|at: Seq<int>| embeds(at, pattern, s)
}

/// Whether all characters of `pattern` appear in `s` in order.
pub fn appears_in_order(pattern: &str, s: &str) -> (r: bool)
    ensures
        r == in_order(pattern@, s@),
{
    let p: Vec<char> = chars_of(pattern);
    let t: Vec<char> = chars_of(s);
    let mut k: usize = 0;
    let mut i: usize = 0;
    let ghost mut at: Seq<int> = Seq::empty();
    while i < t.len() && k < p.len()
        invariant
            p@ == pattern@,
            t@ == s@,
            i <= t@.len(),
            k <= p@.len(),
            at.len() == k,
            forall|j: int|
                0 <= j < k ==> 0 <= #[trigger] at[j] < i && t@[at[j]] == p@[j],
            forall|j: int, m: int| 0 <= j < m < k ==> #[trigger] at[j] < #[trigger] at[m],
            k < p@.len() ==> forall|m: int|
                (if k == 0 {
                    0
                } else {
                    at[k - 1] + 1
                }) <= m < i ==> #[trigger] t@[m] != p@[k as int],
            forall|e: Seq<int>, j: int| #[trigger]
                embeds(e, p@, t@) && 0 <= j < k ==> #[trigger] e[j] >= at[j],
        decreases t@.len() - i,
    {
        if t[i] == p[k] {
            proof {
                assert forall|e: Seq<int>, j: int| #[trigger]
                    embeds(e, p@, t@) && 0 <= j < k + 1 implies #[trigger] e[j] >= at.push(
                    i as int,
                )[j] by {
                    if j == k {
                        let low: int = if k == 0 {
                            0
                        } else {
                            at[k - 1] + 1
                        };
                        if k > 0 {
                            assert(e[k - 1] < e[k as int]);
                            assert(e[k - 1] >= at[k - 1]);
                        }
                        assert(t@[e[k as int]] == p@[k as int]);
                    }
                }
                at = at.push(i as int);
            }
            k += 1;
        }
        i += 1;
    }
    if k == p.len() {
        assert(embeds(at, pattern@, s@));
        true
    } else {
        assert(!in_order(pattern@, s@)) by {
            if in_order(pattern@, s@) {
                let e = choose|e: Seq<int>| embeds(e, pattern@, s@);
                assert(embeds(e, p@, t@));
                if k > 0 {
                    assert(e[k - 1] < e[k as int]);
                    assert(e[k - 1] >= at[k - 1]);
                }
                assert(t@[e[k as int]] == p@[k as int]);
            }
        }
        false
    }
}

// ---------------------------------------------------------------------------
// Size in bytes
// ---------------------------------------------------------------------------

/// The number of bytes that UTF-8 takes for `c`.
pub open spec fn char_bytes(c: char) -> nat {
    if (c as u32) < 0x80 {
        1
    } else if (c as u32) < 0x800 {
        2
    } else if (c as u32) < 0x10000 {
        3
    } else {
        4
    }
}

/// The number of bytes that UTF-8 takes for `s`.
pub open spec fn byte_count(s: Seq<char>) -> nat
    decreases s.len(),
{
    if s.len() == 0 {
        0
    } else {
        char_bytes(s[0]) + byte_count(s.drop_first())
    }
}

/// `byte_count` is the length of the UTF-8 encoding.
pub proof fn byte_count_is_encoded_length(s: Seq<char>)
    ensures
        byte_count(s) == vstd::utf8::encode_utf8(s).len(),
    decreases s.len(),
{
    if s.len() > 0 {
        byte_count_is_encoded_length(s.drop_first());
        let first = vstd::utf8::encode_scalar(s[0] as u32);
        assert(vstd::utf8::is_scalar(s[0] as u32)) by {
            vstd::utf8::char_is_scalar(s[0]);
        }
        assert(first.len() == char_bytes(s[0]));
        assert(vstd::utf8::encode_utf8(s) == first + vstd::utf8::encode_utf8(s.drop_first()));
    }
}

proof fn lemma_byte_count_push(s: Seq<char>, c: char)
    ensures
        byte_count(s.push(c)) == byte_count(s) + char_bytes(c),
    decreases s.len(),
{
    reveal_with_fuel(byte_count, 2);
    if s.len() == 0 {
        assert(s.push(c).drop_first() =~= Seq::<char>::empty());
    } else {
        lemma_byte_count_push(s.drop_first(), c);
        assert(s.push(c).drop_first() =~= s.drop_first().push(c));
    }
}

/// The size of `s` in bytes, or `usize::MAX` if it is larger.
pub fn byte_len(s: &str) -> (r: usize)
    ensures
        r == if byte_count(s@) <= usize::MAX {
            byte_count(s@) as int
        } else {
            usize::MAX as int
        },
{
    let mut n: usize = 0;
    for c in it: s.chars()
        invariant
            it.seq() == s@,
            n == if byte_count(s@.take(it.index())) <= usize::MAX {
                byte_count(s@.take(it.index())) as int
            } else {
                usize::MAX as int
            },
    {
        proof {
            lemma_byte_count_push(s@.take(it.index()), c);
            assert(s@.take(it.index()).push(c) =~= s@.take(it.index() + 1));
        }
        let w: usize = if (c as u32) < 0x80 {
            1
        } else if (c as u32) < 0x800 {
            2
        } else if (c as u32) < 0x10000 {
            3
        } else {
            4
        };
        n = n.saturating_add(w);
    }
    assert(s@.take(s@.len() as int) =~= s@);
    n
}

// ---------------------------------------------------------------------------
// Laws
// ---------------------------------------------------------------------------

/// Of ASCII text the letters `A` to `Z` become `a` to `z`, in their places, and
/// nothing else changes. Any other text is what `str::to_lowercase` makes of it.
pub proof fn lowering_changes_capital_letters_only(s: Seq<char>, c: char)
    ensures
        (forall|i: int| 0 <= i < s.len() ==> (#[trigger] s[i] as u32) < 0x80) ==> lower(s).len()
            == s.len() && forall|i: int|
            0 <= i < s.len() ==> (#[trigger] lower(s)[i]) as u32 == if 65 <= s[i] as u32 <= 90 {
                s[i] as u32 + 32
            } else {
                s[i] as int
            },
        (exists|i: int| 0 <= i < s.len() && (#[trigger] s[i] as u32) >= 0x80) ==> lower(s)
            == lowercase(s),
        ascii_lower(c) as u32 == if 65 <= c as u32 <= 90 {
            c as u32 + 32
        } else {
            c as int
        },
        ascii_lowercase(s).len() == s.len(),
        forall|i: int|
            0 <= i < s.len() ==> #[trigger] ascii_lowercase(s)[i] == ascii_lower(s[i]),
{
}

/// Whatever white space stands around a text, trimming takes it off and nothing
/// else.
pub proof fn trimming_takes_off_what_stands_around(
    before: Seq<char>,
    body: Seq<char>,
    after: Seq<char>,
)
    requires
        forall|i: int| 0 <= i < before.len() ==> is_space(#[trigger] before[i]),
        forall|i: int| 0 <= i < after.len() ==> is_space(#[trigger] after[i]),
        body.len() > 0 ==> !is_space(body[0]) && !is_space(body[body.len() - 1]),
    ensures
        trimmed(before + body + after) == body,
{
    let s = before + body + after;
    if body.len() == 0 {
        assert forall|k: int| 0 <= k < s.len() implies is_space(#[trigger] s[k]) by {
            if k < before.len() {
                assert(s[k] == before[k]);
            } else {
                assert(s[k] == after[k - before.len()]);
            }
        }
        blank_text_trims_to_nothing(s);
        assert(trimmed(s) =~= body);
    } else {
        assert forall|k: int| 0 <= k < before.len() implies is_space(#[trigger] s[k]) by {
            assert(s[k] == before[k]);
        }
        assert(s[before.len() as int] == body[0]);
        lemma_trim_start(s, before.len() as int);
        let t = s.skip(before.len() as int);
        assert(t =~= body + after);
        assert forall|k: int| body.len() <= k < t.len() implies is_space(#[trigger] t[k]) by {
            assert(t[k] == after[k - body.len()]);
        }
        lemma_trim_end(t, body.len() as int);
        assert(t.take(body.len() as int) =~= body);
    }
}

/// A line reaches to the next line feed, and the text behind it is split on its
/// own. One carriage return before the line feed is dropped; a last line without
/// a line feed counts.
pub proof fn lines_end_at_line_feeds(line: Seq<char>, rest: Seq<char>)
    requires
        !line.contains('\n'),
    ensures
        lines(line + seq!['\n'] + rest) == seq![
            if line.len() > 0 && line[line.len() - 1] == '\r' {
                line.take(line.len() - 1)
            } else {
                line
            },
        ] + lines(rest),
        line.len() > 0 ==> lines(line) == seq![line],
        lines(Seq::empty()) == Seq::<Seq<char>>::empty(),
{
    let s = line + seq!['\n'] + rest;
    let n = line.len() as int;
    assert forall|k: int| 0 <= k < n implies #[trigger] s[k] != '\n' by {
        assert(line.contains(line[k]));
    }
    lemma_line_len(s, n);
    assert(s.take(n) =~= line);
    assert(s.skip(n + 1) =~= rest);
    assert(line.len() > 0 ==> line.drop_last() =~= line.take(n - 1));
    assert forall|k: int| 0 <= k < n implies #[trigger] line[k] != '\n' by {
        assert(line.contains(line[k]));
    }
    lemma_line_len(line, n);
}

/// Two lists of texts joined are what both are joined to, with the separator
/// between; one text alone is joined to itself, none to nothing.
pub proof fn joining_lists_joins_what_they_are_joined_to(
    a: Seq<Seq<char>>,
    b: Seq<Seq<char>>,
    sep: Seq<char>,
)
    ensures
        a.len() > 0 && b.len() > 0 ==> joined(a + b, sep) == joined(a, sep) + sep + joined(b, sep),
        a.len() == 1 ==> joined(a, sep) == a[0],
        joined(Seq::empty(), sep) == Seq::<char>::empty(),
    decreases b.len(),
{
    if a.len() > 0 && b.len() > 0 {
        let init = b.drop_last();
        assert((a + b).drop_last() =~= a + init);
        assert((a + b).last() == b.last());
        if b.len() == 1 {
            assert(a + init =~= a);
        } else {
            joining_lists_joins_what_they_are_joined_to(a, init, sep);
            assert(joined(a, sep) + sep + joined(init, sep) + sep + b.last() =~= joined(a, sep)
                + sep + (joined(init, sep) + sep + b.last()));
        }
    }
}

/// The number that decimal digits stand for.
pub open spec fn number(digits: Seq<char>) -> nat
    decreases digits.len(),
{
    if digits.len() == 0 {
        0
    } else {
        (10 * number(digits.drop_last()) + (digits.last() as int - '0' as int)) as nat
    }
}

/// The decimal notation of a number is made of digits, reads as that number and
/// has no leading zero.
pub proof fn decimal_notation_reads_as_the_number(n: nat)
    ensures
        number(decimal(n)) == n,
        decimal(n).len() > 0,
        forall|i: int| 0 <= i < decimal(n).len() ==> '0' <= #[trigger] decimal(n)[i] <= '9',
        n > 0 ==> decimal(n)[0] != '0',
    decreases n,
{
    reveal_with_fuel(number, 2);
    if n < 10 {
        assert(decimal(n).drop_last() =~= Seq::<char>::empty());
    } else {
        decimal_notation_reads_as_the_number(n / 10);
        assert(decimal(n).drop_last() =~= decimal(n / 10));
        assert(decimal(n)[0] == decimal(n / 10)[0]);
        assert forall|i: int| 0 <= i < decimal(n).len() implies '0' <= #[trigger] decimal(n)[i]
            <= '9' by {
            if i < decimal(n / 10).len() {
                assert(decimal(n)[i] == decimal(n / 10)[i]);
            }
        }
    }
}

/// A text begins with a part exactly when it has the part's characters in the
/// part's first places, and holds a part exactly when it has them from some place
/// on.
pub proof fn parts_are_found_where_they_stand(s: Seq<char>, part: Seq<char>)
    ensures
        begins_with(s, part) <==> part.len() <= s.len() && forall|k: int|
            0 <= k < part.len() ==> s[k] == #[trigger] part[k],
        occurs_in(s, part) <==> exists|i: int|
            0 <= i <= s.len() && #[trigger] begins_with(s.skip(i), part),
{
    if part.len() <= s.len() && forall|k: int| 0 <= k < part.len() ==> s[k] == #[trigger] part[k] {
        assert(s.subrange(0, part.len() as int) =~= part);
    }
    if begins_with(s, part) {
        assert forall|k: int| 0 <= k < part.len() implies s[k] == #[trigger] part[k] by {
            assert(s.subrange(0, part.len() as int)[k] == s[k]);
        }
    }
    if occurs_in(s, part) {
        let i = choose|i: int| occurs_at(s, part, i);
        assert(s.skip(i).subrange(0, part.len() as int) =~= part);
        assert(begins_with(s.skip(i), part));
    }
    if exists|i: int| 0 <= i <= s.len() && #[trigger] begins_with(s.skip(i), part) {
        let i = choose|i: int| 0 <= i <= s.len() && #[trigger] begins_with(s.skip(i), part);
        assert(s.subrange(i, i + part.len()) =~= s.skip(i).subrange(0, part.len() as int));
        assert(occurs_at(s, part, i));
    }
}

/// Read from the left: the first character of the text either is the next one of
/// the pattern, and then both go on behind it, or it is passed over. Nothing is
/// left to find of an empty pattern, and nothing is found in an empty text.
pub proof fn patterns_are_found_from_the_left(pattern: Seq<char>, s: Seq<char>)
    ensures
        pattern.len() == 0 ==> in_order(pattern, s),
        pattern.len() > 0 && s.len() == 0 ==> !in_order(pattern, s),
        pattern.len() > 0 && s.len() > 0 && pattern[0] == s[0] ==> in_order(pattern, s)
            == in_order(pattern.skip(1), s.skip(1)),
        pattern.len() > 0 && s.len() > 0 && pattern[0] != s[0] ==> in_order(pattern, s)
            == in_order(pattern, s.skip(1)),
{
    if pattern.len() == 0 {
        assert(embeds(Seq::empty(), pattern, s));
    } else if s.len() == 0 {
        if in_order(pattern, s) {
            let at = choose|at: Seq<int>| embeds(at, pattern, s);
            assert(0 <= at[0] < s.len());
        }
    } else {
        let p = if pattern[0] == s[0] {
            pattern.skip(1)
        } else {
            pattern
        };
        let t = s.skip(1);
        if in_order(pattern, s) {
            let at = choose|at: Seq<int>| embeds(at, pattern, s);
            let d = pattern.len() - p.len();
            let e = Seq::new(p.len(), |k: int| at[k + d] - 1);
            assert forall|k: int| 0 <= k < e.len() implies 0 <= #[trigger] e[k] < t.len() && t[e[k]]
                == p[k] by {
                assert(0 <= at[k + d] < s.len() && s[at[k + d]] == pattern[k + d]);
                if k + d > 0 {
                    assert(at[0] < at[k + d]);
                    assert(0 <= at[0]);
                }
            }
            assert forall|j: int, k: int| 0 <= j < k < e.len() implies #[trigger] e[j]
                < #[trigger] e[k] by {
                assert(at[j + d] < at[k + d]);
            }
            assert(embeds(e, p, t));
        }
        if in_order(p, t) {
            let e = choose|e: Seq<int>| embeds(e, p, t);
            let d = pattern.len() - p.len();
            let at = Seq::new(
                pattern.len(),
                |k: int|
                    if k < d {
                        0
                    } else {
                        e[k - d] + 1
                    },
            );
            assert forall|k: int| 0 <= k < at.len() implies 0 <= #[trigger] at[k] < s.len()
                && s[at[k]] == pattern[k] by {
                if k >= d {
                    assert(0 <= e[k - d] < t.len() && t[e[k - d]] == p[k - d]);
                }
            }
            assert forall|j: int, k: int| 0 <= j < k < at.len() implies #[trigger] at[j]
                < #[trigger] at[k] by {
                if j >= d {
                    assert(e[j - d] < e[k - d]);
                } else {
                    assert(0 <= e[k - d]);
                }
            }
            assert(embeds(at, pattern, s));
        }
    }
}

} // verus!
