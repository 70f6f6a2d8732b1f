//! Text operations over sequences of characters.
use vstd::prelude::*;

verus! {

/// `String::push` appends one character.
pub assume_specification[ String::push ](s: &mut String, c: char)
    ensures
        final(s)@ == old(s)@.push(c),
;

/// The view of an optional string.
pub open spec fn opt_view(o: Option<String>) -> Option<Seq<char>> {
    match o {
        Some(s) => Some(s@),
        None => None,
    }
}

/// The characters of a string.
pub fn chars_of(s: &str) -> (r: Vec<char>)
    ensures
        r@ == s@,
{
    let mut out: Vec<char> = Vec::new();
    for c in it: s.chars()
        invariant
            out@ == it.seq().take(it.index()),
            it.seq() == s@,
    {
        out.push(c);
        assert(it.seq().take(it.index() + 1) =~= it.seq().take(it.index()).push(c));
    }
    assert(out@ =~= s@);
    out
}

/// The string made of the given characters.
pub fn string_of(chars: &[char]) -> (r: String)
    ensures
        r@ == chars@,
{
    let mut out = String::new();
    let mut i: usize = 0;
    while i < chars.len()
        invariant
            i <= chars.len(),
            out@ == chars@.take(i as int),
        decreases chars.len() - i,
    {
        out.push(chars[i]);
        i += 1;
        assert(chars@.take(i as int) =~= chars@.take(i - 1).push(chars@[i - 1]));
    }
    assert(out@ =~= chars@);
    out
}

/// Whether two strings hold the same characters.
pub fn same_text(a: &str, b: &str) -> (r: bool)
    ensures
        r == (a@ == b@),
{
    a.to_owned() == b.to_owned()
}

/// Whether an optional string is present and equal to `b`.
pub fn is_text(a: &Option<String>, b: &str) -> (r: bool)
    ensures
        r == (opt_view(*a) == Some(b@)),
{
    match a {
        Some(s) => same_text(s.as_str(), b),
        None => false,
    }
}

// ---------------------------------------------------------------------------
// White space
// ---------------------------------------------------------------------------

/// The characters with the Unicode property `White_Space`.
pub open spec fn is_white_space(c: char) -> bool {
    ||| '\u{9}' <= c <= '\u{d}'
    ||| c == '\u{20}'
    ||| c == '\u{85}'
    ||| c == '\u{a0}'
    ||| c == '\u{1680}'
    ||| '\u{2000}' <= c <= '\u{200a}'
    ||| c == '\u{2028}'
    ||| c == '\u{2029}'
    ||| c == '\u{202f}'
    ||| c == '\u{205f}'
    ||| c == '\u{3000}'
}

/// Decides the property `White_Space` of a character.
pub fn white_space(c: char) -> (r: bool)
    ensures
        r == is_white_space(c),
{
    ('\u{9}' <= c && c <= '\u{d}') || c == '\u{20}' || c == '\u{85}' || c == '\u{a0}' || c
        == '\u{1680}' || ('\u{2000}' <= c && c <= '\u{200a}') || c == '\u{2028}' || c == '\u{2029}'
        || c == '\u{202f}' || c == '\u{205f}' || c == '\u{3000}'
}

/// `s` without its leading white space.
pub open spec fn trimmed_start(s: Seq<char>) -> Seq<char>
    decreases s.len(),
{
    if s.len() > 0 && is_white_space(s[0]) {
        trimmed_start(s.drop_first())
    } else {
        s
    }
}

/// `s` without its trailing white space.
pub open spec fn trimmed_end(s: Seq<char>) -> Seq<char>
    decreases s.len(),
{
    if s.len() > 0 && is_white_space(s.last()) {
        trimmed_end(s.drop_last())
    } else {
        s
    }
}

/// `s` without white space at either end.
pub open spec fn trimmed(s: Seq<char>) -> Seq<char> {
    trimmed_end(trimmed_start(s))
}

/// Removes leading white space.
pub fn trim_start_chars(s: &[char]) -> (r: Vec<char>)
    ensures
        r@ == trimmed_start(s@),
{
    let mut i: usize = 0;
    assert(s@.skip(0) =~= s@);
    while i < s.len() && white_space(s[i])
        invariant
            i <= s.len(),
            trimmed_start(s@.skip(i as int)) == trimmed_start(s@),
        decreases s.len() - i,
    {
        assert(s@.skip(i as int).drop_first() =~= s@.skip(i + 1));
        i += 1;
    }
    slice_of(s, i, s.len())
}

/// Removes trailing white space.
pub fn trim_end_chars(s: &[char]) -> (r: Vec<char>)
    ensures
        r@ == trimmed_end(s@),
{
    let mut n: usize = s.len();
    assert(s@.take(n as int) =~= s@);
    while n > 0 && white_space(s[n - 1])
        invariant
            n <= s.len(),
            trimmed_end(s@.take(n as int)) == trimmed_end(s@),
        decreases n,
    {
        assert(s@.take(n as int).drop_last() =~= s@.take(n - 1));
        n -= 1;
    }
    slice_of(s, 0, n)
}

/// The characters from `from` up to `to`.
pub fn slice_of(s: &[char], from: usize, to: usize) -> (r: Vec<char>)
    requires
        from <= to <= s@.len(),
    ensures
        r@ == s@.subrange(from as int, to as int),
{
    let mut out: Vec<char> = Vec::new();
    let mut i: usize = from;
    while i < to
        invariant
            from <= i <= to <= s@.len(),
            out@ == s@.subrange(from as int, i as int),
        decreases to - i,
    {
        out.push(s[i]);
        assert(s@.subrange(from as int, i + 1) =~= s@.subrange(from as int, i as int).push(
            s@[i as int],
        ));
        i += 1;
    }
    out
}

/// Removes white space at both ends.
pub fn trim_chars(s: &[char]) -> (r: Vec<char>)
    ensures
        r@ == trimmed(s@),
{
    let front = trim_start_chars(s);
    trim_end_chars(front.as_slice())
}

/// Removes white space at both ends of a string.
pub fn trim(s: &str) -> (r: String)
    ensures
        r@ == trimmed(s@),
{
    let chars = chars_of(s);
    let kept = trim_chars(chars.as_slice());
    string_of(kept.as_slice())
}

// ---------------------------------------------------------------------------
// Letter case
// ---------------------------------------------------------------------------

/// What `str::to_lowercase` makes of a text.
pub uninterp spec fn lowercase(s: Seq<char>) -> Seq<char>;

/// What `str::to_uppercase` makes of a text.
pub uninterp spec fn uppercase(s: Seq<char>) -> Seq<char>;

/// Calls `str::to_lowercase`. The claim is only that the result is a function
/// of the text, called `lowercase`: the Unicode tables behind it are not
/// spelled out.
#[verifier::external_body]
pub(crate) fn to_lowercase(s: &str) -> (r: String)
    ensures
        r@ == lowercase(s@),
{
    s.to_lowercase()
}

/// Calls `str::to_uppercase`. The claim is only that the result is a function
/// of the text, called `uppercase`: the Unicode tables behind it are not
/// spelled out.
#[verifier::external_body]
pub(crate) fn to_uppercase(s: &str) -> (r: String)
    ensures
        r@ == uppercase(s@),
{
    s.to_uppercase()
}

// ---------------------------------------------------------------------------
// Searching
// ---------------------------------------------------------------------------

/// Whether `p` stands in `s` at position `i`.
pub open spec fn occurs_at(s: Seq<char>, p: Seq<char>, i: int) -> bool {
    0 <= i && i + p.len() <= s.len() && s.subrange(i, i + p.len()) == p
}

/// Whether `s` begins with `p`.
pub open spec fn begins_with(s: Seq<char>, p: Seq<char>) -> bool {
    occurs_at(s, p, 0)
}

/// Whether `p` stands anywhere in `s`.
pub open spec fn has_text(s: Seq<char>, p: Seq<char>) -> bool {
    exists|i: int| #[trigger] occurs_at(s, p, i)
}

/// Decides whether `p` stands in `s` at position `at`.
pub fn matches_at(s: &[char], p: &[char], at: usize) -> (r: bool)
    ensures
        r == occurs_at(s@, p@, at as int),
{
    if at > s.len() || s.len() - at < p.len() {
        return false;
    }
    let mut k: usize = 0;
    while k < p.len()
        invariant
            k <= p.len(),
            at + p.len() <= s.len(),
            forall|j: int| 0 <= j < k ==> s@[at + j] == p@[j],
        decreases p.len() - k,
    {
        if s[at + k] != p[k] {
            assert(s@.subrange(at as int, at + p@.len())[k as int] != p@[k as int]);
            return false;
        }
        k += 1;
    }
    assert(s@.subrange(at as int, at + p@.len()) =~= p@);
    true
}

/// Decides whether `p` stands anywhere in `s`.
pub fn contains_chars(s: &[char], p: &[char]) -> (r: bool)
    ensures
        r == has_text(s@, p@),
{
    let mut i: usize = 0;
    while i < s.len()
        invariant
            i <= s.len(),
            forall|j: int| 0 <= j < i ==> !occurs_at(s@, p@, j),
        decreases s.len() - i,
    {
        if matches_at(s, p, i) {
            return true;
        }
        i += 1;
    }
    let last = matches_at(s, p, i);
    if !last {
        assert forall|j: int| !occurs_at(s@, p@, j) by {
            if j > s@.len() {
                assert(j + p@.len() > s@.len());
            }
        }
    }
    last
}

/// Decides whether the string `p` stands anywhere in `s`.
pub fn contains_text(s: &str, p: &str) -> (r: bool)
    ensures
        r == has_text(s@, p@),
{
    let a = chars_of(s);
    let b = chars_of(p);
    contains_chars(a.as_slice(), b.as_slice())
}

/// Decides whether the string `s` begins with `p`.
pub fn starts_with(s: &str, p: &str) -> (r: bool)
    ensures
        r == begins_with(s@, p@),
{
    let a = chars_of(s);
    let b = chars_of(p);
    matches_at(a.as_slice(), b.as_slice(), 0)
}

// ---------------------------------------------------------------------------
// Joining and splitting
// ---------------------------------------------------------------------------

/// The texts in order, with `sep` between each two.
pub open spec fn joined(parts: Seq<Seq<char>>, sep: Seq<char>) -> Seq<char>
    decreases parts.len(),
{
    if parts.len() == 0 {
        Seq::empty()
    } else if parts.len() == 1 {
        parts[0]
    } else {
        joined(parts.drop_last(), sep) + sep + parts.last()
    }
}

/// The views of a list of strings.
pub open spec fn views(list: Seq<String>) -> Seq<Seq<char>> {
    list.map_values(|s: String| s@)
}

/// Puts the strings together with `sep` between each two.
pub fn join(parts: &Vec<String>, sep: &str) -> (r: String)
    ensures
        r@ == joined(views(parts@), sep@),
{
    let mut out = String::new();
    let mut i: usize = 0;
    while i < parts.len()
        invariant
            i <= parts.len(),
            out@ == joined(views(parts@.take(i as int)), sep@),
        decreases parts.len() - i,
    {
        let ghost before = views(parts@.take(i as int));
        let ghost after = views(parts@.take(i + 1));
        assert(after =~= before.push(parts@[i as int]@));
        assert(after.drop_last() =~= before);
        if i > 0 {
            out.append(sep);
        }
        out.append(parts[i].as_str());
        if i == 0 {
            assert(out@ =~= after[0]);
        }
        i += 1;
    }
    assert(parts@.take(parts@.len() as int) =~= parts@);
    out
}

/// The first position from `i` on at which a blank line separates two
/// paragraphs, or the length of the text.
pub open spec fn next_break(s: Seq<char>, i: int) -> int
    decreases s.len() - i,
{
    if i + 1 >= s.len() {
        s.len() as int
    } else if s[i] == '\n' && s[i + 1] == '\n' {
        i
    } else {
        next_break(s, i + 1)
    }
}

/// The pieces between the blank lines of `s`, from left to right.
pub open spec fn paragraphs(s: Seq<char>) -> Seq<Seq<char>>
    decreases s.len(),
{
    let b = next_break(s, 0);
    if 0 <= b && b + 2 <= s.len() {
        seq![s.take(b)] + paragraphs(s.skip(b + 2))
    } else {
        seq![s]
    }
}

proof fn lemma_next_break_bounds(s: Seq<char>, i: int)
    requires
        0 <= i <= s.len(),
    ensures
        i <= next_break(s, i) <= s.len(),
        next_break(s, i) < s.len() ==> next_break(s, i) + 2 <= s.len(),
    decreases s.len() - i,
{
    if i + 1 >= s.len() {
    } else if s[i] == '\n' && s[i + 1] == '\n' {
    } else {
        lemma_next_break_bounds(s, i + 1);
    }
}

/// A separation of two paragraphs is a blank line.
pub proof fn break_is_blank_line(s: Seq<char>, i: int)
    requires
        0 <= i <= s.len(),
        next_break(s, i) < s.len(),
    ensures
        i <= next_break(s, i),
        next_break(s, i) + 2 <= s.len(),
        s[next_break(s, i)] == '\n',
        s[next_break(s, i) + 1] == '\n',
    decreases s.len() - i,
{
    if i + 1 >= s.len() {
    } else if s[i] == '\n' && s[i + 1] == '\n' {
    } else {
        break_is_blank_line(s, i + 1);
    }
}

proof fn lemma_next_break_shift(s: Seq<char>, from: int, i: int)
    requires
        0 <= from <= i <= s.len(),
    ensures
        next_break(s, i) == from + next_break(s.skip(from), i - from),
    decreases s.len() - i,
{
    let t = s.skip(from);
    if i + 1 >= s.len() {
    } else {
        assert(t[i - from] == s[i] && t[i - from + 1] == s[i + 1]);
        if s[i] == '\n' && s[i + 1] == '\n' {
        } else {
            lemma_next_break_shift(s, from, i + 1);
        }
    }
}

/// Splits a text at its blank lines.
pub fn split_paragraphs(text: &str) -> (r: Vec<Vec<char>>)
    ensures
        r@.map_values(|p: Vec<char>| p@) == paragraphs(text@),
{
    let s = chars_of(text);
    let mut out: Vec<Vec<char>> = Vec::new();
    let mut start: usize = 0;
    let mut i: usize = 0;
    let ghost whole = paragraphs(s@);
    assert(s@.skip(0) =~= s@);
    let ghost mut done: Seq<Seq<char>> = Seq::empty();
    assert(whole =~= done + paragraphs(s@.skip(0)));
    while i < s.len()
        invariant
            0 <= start <= i <= s@.len(),
            next_break(s@, start as int) == next_break(s@, i as int),
            done =~= out@.map_values(|p: Vec<char>| p@),
            whole == done + paragraphs(s@.skip(start as int)),
        decreases s.len() - i,
    {
        if i + 1 < s.len() && s[i] == '\n' && s[i + 1] == '\n' {
            let piece = slice_of(s.as_slice(), start, i);
            proof {
                let rest = s@.skip(start as int);
                lemma_next_break_shift(s@, start as int, start as int);
                assert(next_break(rest, 0) == i - start);
                assert(rest.take(i - start) =~= piece@);
                assert(rest.skip(i - start + 2) =~= s@.skip(i + 2));
                done = done.push(piece@);
                assert(whole =~= done + paragraphs(s@.skip(i + 2)));
            }
            out.push(piece);
            i += 2;
            start = i;
        } else {
            i += 1;
            if i == s.len() {
                assert(next_break(s@, i - 1) == next_break(s@, i as int));
            }
        }
    }
    let last = slice_of(s.as_slice(), start, s.len());
    proof {
        let rest = s@.skip(start as int);
        lemma_next_break_shift(s@, start as int, start as int);
        assert(next_break(s@, s@.len() as int) == s@.len());
        assert(last@ =~= rest);
        assert(paragraphs(rest) =~= seq![rest]);
        done = done.push(last@);
    }
    out.push(last);
    assert(out@.map_values(|p: Vec<char>| p@) =~= done);
    assert(done =~= whole);
    out
}

// ---------------------------------------------------------------------------
// Numbers
// ---------------------------------------------------------------------------

/// The decimal digit `d`.
pub open spec fn digit(d: nat) -> char {
    (('0' as u32) + d) as char
}

/// The number `n` written in decimal, without leading zeros.
pub open spec fn decimal(n: nat) -> Seq<char>
    decreases n,
{
    if n < 10 {
        seq![digit(n)]
    } else {
        decimal(n / 10).push(digit(n % 10))
    }
}

/// The number that a sequence of decimal digits stands for.
pub open spec fn decimal_value(s: Seq<char>) -> int
    decreases s.len(),
{
    if s.len() == 0 {
        0
    } else {
        10 * decimal_value(s.drop_last()) + (s.last() as int - '0' as int)
    }
}

/// Reading a number back from its decimal form gives the number.
pub proof fn decimal_value_of_decimal(n: nat)
    ensures
        decimal_value(decimal(n)) == n,
        decimal(n).len() > 0,
    decreases n,
{
    reveal_with_fuel(decimal_value, 2);
    if n < 10 {
        assert(seq![digit(n)].drop_last() =~= Seq::<char>::empty());
    } else {
        decimal_value_of_decimal(n / 10);
        assert(decimal(n).drop_last() =~= decimal(n / 10));
        assert(decimal(n).last() == digit(n % 10));
    }
}

/// Different numbers have different decimal forms.
pub proof fn decimal_is_injective(a: nat, b: nat)
    requires
        decimal(a) == decimal(b),
    ensures
        a == b,
{
    decimal_value_of_decimal(a);
    decimal_value_of_decimal(b);
}

fn digit_char(d: u64) -> (r: char)
    requires
        d < 10,
    ensures
        r == digit(d as nat),
{
    (48u8 + d as u8) as char
}

/// Writes a number in decimal.
pub fn decimal_of(n: u64) -> (r: String)
    ensures
        r@ == decimal(n as nat),
    decreases n,
{
    if n < 10 {
        let mut out = String::new();
        out.push(digit_char(n));
        assert(out@ =~= seq![digit(n as nat)]);
        out
    } else {
        let mut out = decimal_of(n / 10);
        out.push(digit_char(n % 10));
        out
    }
}

// ---------------------------------------------------------------------------
// Laws
// ---------------------------------------------------------------------------

/// A text is found in every text that is made of it with something before and
/// behind, and at the start of one with nothing before.
pub proof fn text_is_found_where_it_stands(a: Seq<char>, p: Seq<char>, b: Seq<char>)
    ensures
        has_text(a + p + b, p),
        begins_with(p + b, p),
{
    let s = a + p + b;
    assert(s.subrange(a.len() as int, a.len() as int + p.len()) =~= p);
    assert(occurs_at(s, p, a.len() as int));
    assert((p + b).subrange(0, p.len() as int) =~= p);
}

/// A text in which another one is found is made of that one with something
/// before and behind; one that begins with it has nothing before.
pub proof fn found_text_can_be_cut_out(s: Seq<char>, p: Seq<char>)
    ensures
        has_text(s, p) ==> exists|a: Seq<char>, b: Seq<char>| s == #[trigger] (a + p + b),
        begins_with(s, p) ==> p.len() <= s.len() && s == p + s.skip(p.len() as int),
{
    if has_text(s, p) {
        let i = choose|i: int| #[trigger] occurs_at(s, p, i);
        let a = s.take(i);
        let b = s.skip(i + p.len());
        assert(s =~= a + s.subrange(i, i + p.len()) + b);
        assert(s == a + p + b);
    }
    if begins_with(s, p) {
        assert(s =~= s.subrange(0, p.len() as int) + s.skip(p.len() as int));
    }
}

/// The characters that count as white space, by their numbers.
pub proof fn white_space_by_number(c: char)
    ensures
        is_white_space(c) <==> {
            let n = c as u32;
            ||| 9 <= n <= 13
            ||| n == 32 || n == 133 || n == 160 || n == 5760
            ||| 8192 <= n <= 8202
            ||| n == 8232 || n == 8233 || n == 8239 || n == 8287 || n == 12288
        },
{
}

proof fn lemma_trimmed_start(s: Seq<char>) -> (a: int)
    ensures
        0 <= a <= s.len(),
        trimmed_start(s) == s.skip(a),
        forall|i: int| 0 <= i < a ==> is_white_space(#[trigger] s[i]),
        a < s.len() ==> !is_white_space(s[a]),
    decreases s.len(),
{
    if s.len() > 0 && is_white_space(s[0]) {
        let rest = s.drop_first();
        let b = lemma_trimmed_start(rest);
        assert(rest.skip(b) =~= s.skip(b + 1));
        assert forall|i: int| 0 <= i < b + 1 implies is_white_space(#[trigger] s[i]) by {
            if i > 0 {
                assert(rest[i - 1] == s[i]);
            }
        }
        b + 1
    } else {
        assert(s.skip(0) =~= s);
        0
    }
}

proof fn lemma_trimmed_end(s: Seq<char>) -> (b: int)
    ensures
        0 <= b <= s.len(),
        trimmed_end(s) == s.take(b),
        forall|i: int| b <= i < s.len() ==> is_white_space(#[trigger] s[i]),
        b > 0 ==> !is_white_space(s[b - 1]),
    decreases s.len(),
{
    if s.len() > 0 && is_white_space(s.last()) {
        let front = s.drop_last();
        let b = lemma_trimmed_end(front);
        assert(front.take(b) =~= s.take(b));
        assert forall|i: int| b <= i < s.len() implies is_white_space(#[trigger] s[i]) by {
            if i < front.len() {
                assert(front[i] == s[i]);
            }
        }
        b
    } else {
        assert(s.take(s.len() as int) =~= s);
        s.len() as int
    }
}

/// Whether `inner` is what lies between the places `a` and `b` of `s`, and all
/// around it is white space.
pub open spec fn lies_in_white_space(s: Seq<char>, inner: Seq<char>, a: int, b: int) -> bool {
    &&& 0 <= a <= b <= s.len()
    &&& inner == s.subrange(a, b)
    &&& forall|i: int| 0 <= i < a || b <= i < s.len() ==> is_white_space(#[trigger] s[i])
}

/// Trimming takes white space at the ends and nothing else, and leaves none
/// there.
pub proof fn trimming_takes_the_white_space_around(s: Seq<char>) -> (ends: (int, int))
    ensures
        lies_in_white_space(s, trimmed(s), ends.0, ends.1),
        trimmed(s).len() > 0 ==> !is_white_space(trimmed(s)[0]) && !is_white_space(
            trimmed(s).last(),
        ),
{
    let a = lemma_trimmed_start(s);
    let t = trimmed_start(s);
    let n = lemma_trimmed_end(t);
    assert forall|i: int| a + n <= i < s.len() implies is_white_space(#[trigger] s[i]) by {
        assert(t[i - a] == s[i]);
    }
    assert(trimmed(s) =~= s.subrange(a, a + n));
    if n > 0 {
        assert(trimmed(s).last() == t[n - 1]);
        assert(trimmed(s)[0] == s[a]);
    }
    (a, a + n)
}

/// A text without white space at its ends stays as it is.
pub proof fn trimmed_text_stays(s: Seq<char>)
    requires
        s.len() > 0 ==> !is_white_space(s[0]) && !is_white_space(s.last()),
    ensures
        trimmed(s) == s,
{
}

/// Putting two lists together puts their texts together, with the separator in
/// between. One text alone stays as it is.
pub proof fn joining_follows_the_list(a: Seq<Seq<char>>, b: Seq<Seq<char>>, sep: Seq<char>)
    requires
        a.len() > 0,
        b.len() > 0,
    ensures
        joined(a + b, sep) == joined(a, sep) + sep + joined(b, sep),
        a.len() == 1 ==> joined(a, sep) == a[0],
    decreases b.len(),
{
    assert((a + b).drop_last() =~= a + b.drop_last());
    assert((a + b).last() == b.last());
    if b.len() == 1 {
        assert(a + b.drop_last() =~= a);
        assert(b.last() == b[0]);
    } else {
        joining_follows_the_list(a, b.drop_last(), sep);
        assert(joined(a, sep) + sep + joined(b.drop_last(), sep) + sep + b.last() =~= joined(a, sep)
            + sep + (joined(b.drop_last(), sep) + sep + b.last()));
    }
}

/// Whether two line breaks follow each other somewhere in a text.
pub open spec fn has_blank_line(s: Seq<char>) -> bool {
    exists|i: int| 0 <= i && i + 1 < s.len() && #[trigger] s[i] == '\n' && s[i + 1] == '\n'
}

proof fn lemma_nothing_before_break(s: Seq<char>, i: int)
    requires
        0 <= i <= s.len(),
    ensures
        forall|j: int|
            i <= j < next_break(s, i) && j + 1 < s.len() ==> !(#[trigger] s[j] == '\n' && s[j + 1]
                == '\n'),
    decreases s.len() - i,
{
    if i + 1 >= s.len() {
    } else if s[i] == '\n' && s[i + 1] == '\n' {
    } else {
        lemma_nothing_before_break(s, i + 1);
    }
}

/// The paragraphs of a text, with a blank line between each two, are the text.
/// No paragraph has a blank line in it, and a blank line begins as early as it
/// can.
pub proof fn paragraphs_lie_between_blank_lines(s: Seq<char>)
    ensures
        paragraphs(s).len() > 0,
        joined(paragraphs(s), "\n\n"@) == s,
        forall|i: int| 0 <= i < paragraphs(s).len() ==> !has_blank_line(#[trigger] paragraphs(s)[i]),
        forall|i: int|
            0 <= i < paragraphs(s).len() - 1 ==> (#[trigger] paragraphs(s)[i]).len() == 0
                || paragraphs(s)[i].last() != '\n',
    decreases s.len(),
{
    let b = next_break(s, 0);
    lemma_next_break_bounds(s, 0);
    lemma_nothing_before_break(s, 0);
    reveal_strlit("\n\n");
    if b < s.len() {
        break_is_blank_line(s, 0);
        let head = s.take(b);
        let rest = s.skip(b + 2);
        paragraphs_lie_between_blank_lines(rest);
        joining_follows_the_list(seq![head], paragraphs(rest), "\n\n"@);
        assert(s =~= head + "\n\n"@ + rest);
        assert(!has_blank_line(head)) by {
            if has_blank_line(head) {
                let i = choose|i: int|
                    0 <= i && i + 1 < head.len() && #[trigger] head[i] == '\n' && head[i + 1] == '\n';
                assert(s[i] == '\n' && s[i + 1] == '\n');
            }
        }
        let all = paragraphs(s);
        assert forall|i: int| 0 <= i < all.len() implies !has_blank_line(#[trigger] all[i]) by {
            if i > 0 {
                assert(all[i] == paragraphs(rest)[i - 1]);
            }
        }
        assert forall|i: int| 0 <= i < all.len() - 1 implies (#[trigger] all[i]).len() == 0
            || all[i].last() != '\n' by {
            if i > 0 {
                assert(all[i] == paragraphs(rest)[i - 1]);
            } else if b > 0 {
                assert(head.last() == s[b - 1]);
            }
        }
    } else {
        assert(!has_blank_line(s)) by {
            if has_blank_line(s) {
                let i = choose|i: int|
                    0 <= i && i + 1 < s.len() && #[trigger] s[i] == '\n' && s[i + 1] == '\n';
            }
        }
    }
}

/// A text that was put together from others begins with the first of them, and
/// each of them is found in it.
pub proof fn joined_text_holds_its_parts(parts: Seq<Seq<char>>, sep: Seq<char>, i: int)
    requires
        0 <= i < parts.len(),
    ensures
        has_text(joined(parts, sep), parts[i]),
        begins_with(joined(parts, sep), parts[0]),
    decreases parts.len(),
{
    let all = joined(parts, sep);
    if parts.len() == 1 {
        text_is_found_where_it_stands(Seq::empty(), all, Seq::empty());
        assert(Seq::<char>::empty() + all + Seq::<char>::empty() =~= all);
        assert(all + Seq::<char>::empty() =~= all);
    } else {
        let front = parts.drop_last();
        let before = joined(front, sep);
        if i == parts.len() - 1 {
            text_is_found_where_it_stands(before + sep, parts[i], Seq::empty());
            assert(before + sep + parts[i] + Seq::<char>::empty() =~= all);
            joined_text_holds_its_parts(front, sep, 0);
        } else {
            joined_text_holds_its_parts(front, sep, i);
            assert(front[i] == parts[i]);
            text_stays_found(before, parts[i], Seq::empty(), sep + parts.last());
            assert(Seq::<char>::empty() + before + (sep + parts.last()) =~= all);
        }
        assert(front[0] == parts[0]);
        found_text_can_be_cut_out(before, parts[0]);
        let rest = before.skip(parts[0].len() as int) + sep + parts.last();
        assert(all =~= parts[0] + rest);
        text_is_found_where_it_stands(Seq::empty(), parts[0], rest);
    }
}

/// What is found in a text is found in every longer one around it.
pub proof fn text_stays_found(s: Seq<char>, p: Seq<char>, before: Seq<char>, behind: Seq<char>)
    requires
        has_text(s, p),
    ensures
        has_text(before + s + behind, p),
{
    found_text_can_be_cut_out(s, p);
    let (a, b) = choose|a: Seq<char>, b: Seq<char>| s == #[trigger] (a + p + b);
    text_is_found_where_it_stands(before + a, p, b + behind);
    assert(before + a + p + (b + behind) =~= before + s + behind);
}

} // verus!
