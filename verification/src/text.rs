//! Text as sequences of characters: searching, splitting, trimming, padding, numbers.

use vstd::prelude::*;

verus! {

/// `String::push` appends one character.
pub assume_specification[ String::push ](s: &mut String, ch: char)
    ensures
        final(s)@ == old(s)@.push(ch),
;

/// `String::pop` takes the last character off and returns it; of an empty string it returns
/// `None`.
pub assume_specification[ String::pop ](s: &mut String) -> (ch: Option<char>)
    ensures
        old(s)@.len() == 0 ==> ch is None && final(s)@ == old(s)@,
        old(s)@.len() > 0 ==> ch == Some(old(s)@.last()) && final(s)@ == old(s)@.drop_last(),
;

/// The lower-case form of a text, as the standard library's Unicode tables have it.
pub uninterp spec fn lowercase(s: Seq<char>) -> Seq<char>;

/// Calls `str::to_lowercase`, whose result is named `lowercase` here. Each character is mapped
/// to one or more characters, so only an empty text gives an empty one.
#[verifier::external_body]
pub(crate) fn to_lowercase(s: &str) -> (r: String)
    ensures
        r@ == lowercase(s@),
        r@.len() == 0 <==> s@.len() == 0,
{
    s.to_lowercase()
}

// ---------------------------------------------------------------------------------------------
// Views
// ---------------------------------------------------------------------------------------------
/// The texts of a list of strings.
pub open spec fn texts(v: Seq<String>) -> Seq<Seq<char>> {
    Seq::new(v.len(), |i: int| v[i]@)
}

/// One more string is one more text.
pub broadcast proof fn lemma_texts_push(v: Seq<String>, s: String)
    ensures
        #[trigger] texts(v.push(s)) == texts(v).push(s@),
{
    assert(texts(v.push(s)) =~= texts(v).push(s@));
}

/// The text of an optional string.
pub open spec fn opt_text(o: Option<String>) -> Option<Seq<char>> {
    match o {
        Some(s) => Some(s@),
        None => None,
    }
}

/// The length of a text in bytes of UTF-8.
pub open spec fn byte_len(s: Seq<char>) -> usize {
    vstd::utf8::encode_utf8(s).len() as usize
}

// ---------------------------------------------------------------------------------------------
// Searching
// ---------------------------------------------------------------------------------------------
/// `pat` stands in `s` at position `i`.
pub open spec fn occurs_at(s: Seq<char>, pat: Seq<char>, i: int) -> bool {
    &&& 0 <= i
    &&& i + pat.len() <= s.len()
    &&& s.subrange(i, i + pat.len()) == pat
}

/// `pat` stands somewhere in `s`.
pub open spec fn contains(s: Seq<char>, pat: Seq<char>) -> bool {
    exists|i: int| occurs_at(s, pat, i)
}

/// `s` begins with `prefix`.
pub open spec fn starts_with(s: Seq<char>, prefix: Seq<char>) -> bool {
    occurs_at(s, prefix, 0)
}

/// The first position at or after `from` at which `pat` stands in `s`.
pub open spec fn find_from(s: Seq<char>, pat: Seq<char>, from: int) -> Option<int>
    decreases s.len() + 1 - from,
{
    if from + pat.len() > s.len() {
        None
    } else if occurs_at(s, pat, from) {
        Some(from)
    } else {
        find_from(s, pat, from + 1)
    }
}

/// What `find_from` finds is the first place at or after `from`, and it finds one if there is one.
pub proof fn lemma_find_from(s: Seq<char>, pat: Seq<char>, from: int)
    requires
        0 <= from,
    ensures
        match find_from(s, pat, from) {
            Some(i) => {
                &&& from <= i
                &&& occurs_at(s, pat, i)
                &&& forall|k: int| from <= k < i ==> !occurs_at(s, pat, k)
            },
            None => forall|k: int| from <= k ==> !occurs_at(s, pat, k),
        },
    decreases s.len() + 1 - from,
{
    if from + pat.len() <= s.len() && !occurs_at(s, pat, from) {
        lemma_find_from(s, pat, from + 1);
    }
}

/// The characters of a string.
pub fn to_chars(s: &str) -> (v: Vec<char>)
    ensures
        v@ == s@,
{
    let mut v: Vec<char> = Vec::new();
    for c in it: s.chars()
        invariant
            v@ == s@.take(it.index()),
            it.seq() == s@,
    {
        v.push(c);
    }
    v
}

/// The string of the characters from `from` up to `to`.
pub fn substring(v: &Vec<char>, from: usize, to: usize) -> (r: String)
    requires
        from <= to <= v@.len(),
    ensures
        r@ == v@.subrange(from as int, to as int),
{
    let mut r = String::new();
    let mut i: usize = from;
    while i < to
        invariant
            from <= i <= to <= v@.len(),
            r@ == v@.subrange(from as int, i as int),
        decreases to - i,
    {
        r.push(v[i]);
        i += 1;
    }
    r
}

/// Do two texts have the same characters?
pub fn same(a: &str, b: &str) -> (r: bool)
    ensures
        r == (a@ == b@),
{
    a.to_owned() == b.to_owned()
}

/// Does `pat` stand in `s` at position `at`?
fn matches_at(s: &Vec<char>, pat: &Vec<char>, at: usize) -> (r: bool)
    requires
        at <= s@.len(),
    ensures
        r == occurs_at(s@, pat@, at as int),
{
    let len: usize = s.len();
    if pat.len() > len - at {
        return false;
    }
    let mut i: usize = 0;
    while i < pat.len()
        invariant
            i <= pat@.len(),
            len == s@.len(),
            at + pat@.len() <= len,
            s@.subrange(at as int, at + i) == pat@.take(i as int),
        decreases pat@.len() - i,
    {
        if s[at + i] != pat[i] {
            proof {
                assert(s@.subrange(at as int, at + pat@.len())[i as int] != pat@[i as int]);
            }
            return false;
        }
        proof {
            assert(s@.subrange(at as int, at + i + 1) =~= s@.subrange(at as int, at + i).push(
                s@[at + i],
            ));
            assert(pat@.take(i + 1) =~= pat@.take(i as int).push(pat@[i as int]));
        }
        i += 1;
    }
    proof {
        assert(pat@.take(pat@.len() as int) =~= pat@);
    }
    true
}

/// Finds the first place of `pat` at or after `from`.
fn find(s: &Vec<char>, pat: &Vec<char>, from: usize) -> (r: Option<usize>)
    requires
        from <= s@.len(),
    ensures
        match r {
            Some(i) => find_from(s@, pat@, from as int) == Some(i as int),
            None => find_from(s@, pat@, from as int) is None,
        },
        r matches Some(i) ==> from <= i && i + pat@.len() <= s@.len(),
{
    let mut i: usize = from;
    let len: usize = s.len();
    while pat.len() <= len - i
        invariant
            len == s@.len(),
            from <= i <= len,
            find_from(s@, pat@, from as int) == find_from(s@, pat@, i as int),
        decreases s@.len() + 1 - i,
    {
        if matches_at(s, pat, i) {
            return Some(i);
        }
        if i == len {
            assert(s@.subrange(i as int, i as int) =~= pat@);
            return None;
        }
        i += 1;
    }
    None
}

/// Does `pat` stand anywhere in `s`?
pub fn has(s: &str, pat: &str) -> (r: bool)
    ensures
        r == contains(s@, pat@),
{
    let text = to_chars(s);
    let wanted = to_chars(pat);
    proof {
        lemma_find_from(s@, pat@, 0);
    }
    match find(&text, &wanted, 0) {
        Some(i) => {
            assert(occurs_at(s@, pat@, i as int));
            true
        },
        None => false,
    }
}

/// Does `s` begin with `prefix`?
pub fn begins_with(s: &str, prefix: &str) -> (r: bool)
    ensures
        r == starts_with(s@, prefix@),
{
    let text = to_chars(s);
    let wanted = to_chars(prefix);
    matches_at(&text, &wanted, 0)
}

/// What follows `prefix` in a text that begins with it.
pub fn strip_prefix(s: &str, prefix: &str) -> (r: Option<String>)
    ensures
        match r {
            Some(rest) => starts_with(s@, prefix@) && rest@ == s@.skip(prefix@.len() as int),
            None => !starts_with(s@, prefix@),
        },
{
    let text = to_chars(s);
    let wanted = to_chars(prefix);
    if matches_at(&text, &wanted, 0) {
        let rest = substring(&text, wanted.len(), text.len());
        assert(rest@ =~= s@.skip(prefix@.len() as int));
        Some(rest)
    } else {
        None
    }
}

// ---------------------------------------------------------------------------------------------
// Splitting and joining
// ---------------------------------------------------------------------------------------------
/// The pieces of `s` from `start` on, cut at each `sep`.
pub open spec fn split_from(s: Seq<char>, sep: Seq<char>, start: int) -> Seq<Seq<char>>
    decreases s.len() - start,
{
    match find_from(s, sep, start) {
        Some(i) => if sep.len() > 0 && start <= i && i + sep.len() <= s.len() {
            seq![s.subrange(start, i)] + split_from(s, sep, i + sep.len())
        } else {
            seq![s.skip(start)]
        },
        None => seq![s.skip(start)],
    }
}

/// The pieces of `s`, cut at each `sep`, from left to right.
pub open spec fn split(s: Seq<char>, sep: Seq<char>) -> Seq<Seq<char>> {
    split_from(s, sep, 0)
}

/// The pieces with `sep` between them.
pub open spec fn join(parts: Seq<Seq<char>>, sep: Seq<char>) -> Seq<char>
    decreases parts.len(),
{
    if parts.len() == 0 {
        Seq::empty()
    } else if parts.len() == 1 {
        parts[0]
    } else {
        parts[0] + sep + join(parts.drop_first(), sep)
    }
}

proof fn lemma_join_split_from(s: Seq<char>, sep: Seq<char>, start: int)
    requires
        0 <= start <= s.len(),
    ensures
        split_from(s, sep, start).len() > 0,
        join(split_from(s, sep, start), sep) == s.skip(start),
    decreases s.len() - start,
{
    lemma_find_from(s, sep, start);
    match find_from(s, sep, start) {
        Some(i) => if sep.len() > 0 {
            let rest = split_from(s, sep, i + sep.len());
            lemma_join_split_from(s, sep, i + sep.len());
            let all = split_from(s, sep, start);
            assert(all.drop_first() =~= rest);
            assert(s.skip(start) =~= s.subrange(start, i) + sep + s.skip(i + sep.len())) by {
                assert(s.subrange(i, i + sep.len()) == sep);
                assert(s.skip(start) =~= s.subrange(start, i) + s.subrange(i, i + sep.len())
                    + s.skip(i + sep.len()));
            }
        },
        None => {},
    }
}

/// Joining what a separator cut apart gives the text back.
pub proof fn law_join_undoes_split(s: Seq<char>, sep: Seq<char>)
    ensures
        split(s, sep).len() > 0,
        join(split(s, sep), sep) == s,
{
    lemma_join_split_from(s, sep, 0);
    assert(s.skip(0) =~= s);
}

/// Cuts a text at each `sep`.
pub fn split_text(s: &str, sep: &str) -> (parts: Vec<String>)
    requires
        sep@.len() > 0,
    ensures
        texts(parts@) == split(s@, sep@),
{
    let text = to_chars(s);
    let cut = to_chars(sep);
    let len: usize = text.len();
    let mut parts: Vec<String> = Vec::new();
    let mut start: usize = 0;
    proof {
        assert(texts(parts@) =~= Seq::empty());
        assert(texts(parts@) + split_from(s@, sep@, 0) =~= split(s@, sep@));
    }
    loop
        invariant
            text@ == s@,
            cut@ == sep@,
            len == s@.len(),
            sep@.len() > 0,
            start <= s@.len(),
            texts(parts@) + split_from(s@, sep@, start as int) == split(s@, sep@),
        decreases s@.len() - start,
    {
        let ghost before = parts@;
        match find(&text, &cut, start) {
            Some(i) => {
                let piece = substring(&text, start, i);
                parts.push(piece);
                proof {
                    assert(texts(parts@) =~= texts(before).push(s@.subrange(start as int, i as int)));
                    assert(texts(before) + split_from(s@, sep@, start as int) =~= texts(parts@)
                        + split_from(s@, sep@, i + sep@.len()));
                }
                start = i + cut.len();
            },
            None => {
                let piece = substring(&text, start, len);
                parts.push(piece);
                proof {
                    assert(s@.skip(start as int) =~= s@.subrange(start as int, s@.len() as int));
                    assert(texts(parts@) =~= texts(before).push(s@.skip(start as int)));
                    assert(texts(parts@) =~= texts(before) + split_from(s@, sep@, start as int));
                }
                return parts;
            },
        }
    }
}

/// Joins texts with `sep` between them.
pub fn join_texts(parts: &Vec<String>, sep: &str) -> (r: String)
    ensures
        r@ == join(texts(parts@), sep@),
{
    let mut i: usize = parts.len();
    let mut r = String::new();
    let ghost all = texts(parts@);
    proof {
        assert(all.skip(i as int) =~= Seq::empty());
    }
    while i > 0
        invariant
            i <= parts@.len(),
            all == texts(parts@),
            r@ == join(all.skip(i as int), sep@),
        decreases i,
    {
        i -= 1;
        let mut longer = parts[i].clone();
        if i + 1 < parts.len() {
            longer.append(sep);
            longer.append(r.as_str());
        }
        r = longer;
        proof {
            assert(all.skip(i as int)[0] == parts@[i as int]@);
            assert(all.skip(i as int).drop_first() =~= all.skip(i + 1));
        }
    }
    proof {
        assert(all.skip(0) =~= all);
    }
    r
}

/// The part of `s` before the first `c`, or all of it where there is none.
pub open spec fn before_char(s: Seq<char>, c: char) -> Seq<char> {
    match find_from(s, seq![c], 0) {
        Some(i) => s.take(i),
        None => s,
    }
}

/// The part of `s` after the first `c`, where there is one.
pub open spec fn after_char(s: Seq<char>, c: char) -> Option<Seq<char>> {
    match find_from(s, seq![c], 0) {
        Some(i) => Some(s.skip(i + 1)),
        None => None,
    }
}

/// Cuts a text at the first `c`.
pub fn cut_at_char(s: &str, c: char) -> (r: (String, Option<String>))
    ensures
        r.0@ == before_char(s@, c),
        opt_text(r.1) == after_char(s@, c),
{
    let text = to_chars(s);
    let len: usize = text.len();
    let mut wanted: Vec<char> = Vec::new();
    wanted.push(c);
    assert(wanted@ =~= seq![c]);
    match find(&text, &wanted, 0) {
        Some(i) => {
            let head = substring(&text, 0, i);
            let tail = substring(&text, i + 1, len);
            assert(head@ =~= s@.take(i as int));
            assert(tail@ =~= s@.skip(i + 1));
            (head, Some(tail))
        },
        None => (s.to_owned(), None),
    }
}

// ---------------------------------------------------------------------------------------------
// White space
// ---------------------------------------------------------------------------------------------
/// Has the character the Unicode property `White_Space`?
pub open spec fn white_space(c: char) -> bool {
    let n = c as u32;
    ||| 0x09 <= n <= 0x0d
    ||| n == 0x20
    ||| n == 0x85
    ||| n == 0xa0
    ||| n == 0x1680
    ||| 0x2000 <= n <= 0x200a
    ||| n == 0x2028
    ||| n == 0x2029
    ||| n == 0x202f
    ||| n == 0x205f
    ||| n == 0x3000
}

/// A text without the white space at its start.
pub open spec fn trim_start(s: Seq<char>) -> Seq<char>
    decreases s.len(),
{
    if s.len() > 0 && white_space(s[0]) {
        trim_start(s.skip(1))
    } else {
        s
    }
}

/// A text without the white space at its end.
pub open spec fn trim_end(s: Seq<char>) -> Seq<char>
    decreases s.len(),
{
    if s.len() > 0 && white_space(s.last()) {
        trim_end(s.drop_last())
    } else {
        s
    }
}

/// A text without the white space at its start and at its end.
pub open spec fn trim(s: Seq<char>) -> Seq<char> {
    trim_end(trim_start(s))
}

/// Is the character white space?
pub fn is_white_space(c: char) -> (r: bool)
    ensures
        r == white_space(c),
{
    let n: u32 = c as u32;
    (0x09 <= n && n <= 0x0d) || n == 0x20 || n == 0x85 || n == 0xa0 || n == 0x1680 || (0x2000 <= n
        && n <= 0x200a) || n == 0x2028 || n == 0x2029 || n == 0x202f || n == 0x205f || n == 0x3000
}

/// Cuts the white space off the end of the characters from `from` on.
fn trim_tail(text: &Vec<char>, from: usize) -> (r: String)
    requires
        from <= text@.len(),
    ensures
        r@ == trim_end(text@.skip(from as int)),
{
    let mut to: usize = text.len();
    proof {
        assert(text@.skip(from as int) =~= text@.subrange(from as int, to as int));
    }
    while from < to && is_white_space(text[to - 1])
        invariant
            from <= to <= text@.len(),
            trim_end(text@.skip(from as int)) == trim_end(text@.subrange(from as int, to as int)),
        decreases to,
    {
        proof {
            assert(text@.subrange(from as int, to as int).drop_last() =~= text@.subrange(
                from as int,
                to - 1,
            ));
        }
        to -= 1;
    }
    substring(text, from, to)
}

/// Cuts the white space off both ends of a text.
pub fn trim_text(s: &str) -> (r: String)
    ensures
        r@ == trim(s@),
{
    let text = to_chars(s);
    let mut from: usize = 0;
    proof {
        assert(s@.skip(0) =~= s@);
    }
    while from < text.len() && is_white_space(text[from])
        invariant
            from <= text@.len(),
            text@ == s@,
            trim_start(s@) == trim_start(s@.skip(from as int)),
        decreases text@.len() - from,
    {
        proof {
            assert(s@.skip(from as int).skip(1) =~= s@.skip(from + 1));
        }
        from += 1;
    }
    trim_tail(&text, from)
}

/// Cuts the white space off the end of a text.
pub fn trim_text_end(s: &str) -> (r: String)
    ensures
        r@ == trim_end(s@),
{
    let text = to_chars(s);
    proof {
        assert(s@.skip(0) =~= s@);
    }
    trim_tail(&text, 0)
}

// ---------------------------------------------------------------------------------------------
// Columns
// ---------------------------------------------------------------------------------------------
/// `n` blanks.
pub open spec fn blanks(n: nat) -> Seq<char> {
    Seq::new(n, |i: int| ' ')
}

/// A text cut to `width` characters, or filled up to that many with blanks on its right.
pub open spec fn left_aligned(s: Seq<char>, width: nat) -> Seq<char> {
    if s.len() >= width {
        s.take(width as int)
    } else {
        s + blanks((width - s.len()) as nat)
    }
}

/// A text cut to `width` characters, or filled up to that many with blanks on its left.
pub open spec fn right_aligned(s: Seq<char>, width: nat) -> Seq<char> {
    if s.len() >= width {
        s.take(width as int)
    } else {
        blanks((width - s.len()) as nat) + s
    }
}

fn blank_text(n: usize) -> (r: String)
    ensures
        r@ == blanks(n as nat),
{
    let mut r = String::new();
    let mut i: usize = 0;
    while i < n
        invariant
            i <= n,
            r@ == blanks(i as nat),
        decreases n - i,
    {
        r.push(' ');
        i += 1;
        assert(r@ =~= blanks(i as nat));
    }
    r
}

/// Sets a text flush left in a column of `width` characters.
pub fn align_left(s: &str, width: usize) -> (r: String)
    ensures
        r@ == left_aligned(s@, width as nat),
{
    let text = to_chars(s);
    if text.len() >= width {
        let cut = substring(&text, 0, width);
        assert(cut@ =~= s@.take(width as int));
        cut
    } else {
        let mut r = s.to_owned();
        r.append(blank_text(width - text.len()).as_str());
        r
    }
}

/// Sets a text flush right in a column of `width` characters.
pub fn align_right(s: &str, width: usize) -> (r: String)
    ensures
        r@ == right_aligned(s@, width as nat),
{
    let text = to_chars(s);
    if text.len() >= width {
        let cut = substring(&text, 0, width);
        assert(cut@ =~= s@.take(width as int));
        cut
    } else {
        let mut r = blank_text(width - text.len());
        r.append(s);
        r
    }
}

/// Every entry of a column is exactly as wide as the column.
pub proof fn law_columns_line_up(s: Seq<char>, width: nat)
    ensures
        left_aligned(s, width).len() == width,
        right_aligned(s, width).len() == width,
{
}

// ---------------------------------------------------------------------------------------------
// Numbers and lines
// ---------------------------------------------------------------------------------------------
/// The decimal digit of a number below ten.
pub open spec fn digit(d: int) -> char {
    if d == 0 {
        '0'
    } else if d == 1 {
        '1'
    } else if d == 2 {
        '2'
    } else if d == 3 {
        '3'
    } else if d == 4 {
        '4'
    } else if d == 5 {
        '5'
    } else if d == 6 {
        '6'
    } else if d == 7 {
        '7'
    } else if d == 8 {
        '8'
    } else {
        '9'
    }
}

/// A number in decimal.
pub open spec fn decimal(n: nat) -> Seq<char>
    decreases n,
{
    if n < 10 {
        seq![digit(n as int)]
    } else {
        decimal(n / 10).push(digit((n % 10) as int))
    }
}

/// A number that may be negative, in decimal.
pub open spec fn signed_decimal(n: int) -> Seq<char> {
    if n < 0 {
        seq!['-'] + decimal((-n) as nat)
    } else {
        decimal(n as nat)
    }
}

fn digit_char(d: u64) -> (c: char)
    requires
        d < 10,
    ensures
        c == digit(d as int),
{
    if d == 0 {
        '0'
    } else if d == 1 {
        '1'
    } else if d == 2 {
        '2'
    } else if d == 3 {
        '3'
    } else if d == 4 {
        '4'
    } else if d == 5 {
        '5'
    } else if d == 6 {
        '6'
    } else if d == 7 {
        '7'
    } else if d == 8 {
        '8'
    } else {
        '9'
    }
}

/// Writes a number in decimal.
pub fn decimal_text(n: u64) -> (r: String)
    ensures
        r@ == decimal(n as nat),
    decreases n,
{
    let mut r = if n < 10 {
        String::new()
    } else {
        decimal_text(n / 10)
    };
    r.push(digit_char(n % 10));
    assert(n < 10 ==> r@ =~= seq![digit(n as int)]);
    r
}

/// Writes a number that may be negative in decimal.
pub fn signed_decimal_text(n: i32) -> (r: String)
    ensures
        r@ == signed_decimal(n as int),
{
    if n < 0 {
        let mut r = String::new();
        r.push('-');
        let m: i64 = -(n as i64);
        r.append(decimal_text(m as u64).as_str());
        assert(r@ =~= seq!['-'] + decimal((-n) as nat));
        r
    } else {
        decimal_text(n as u64)
    }
}

/// How many lines a text has: a line feed ends a line, and what follows the last one is a line
/// unless it is empty.
pub open spec fn line_count(s: Seq<char>) -> nat
    decreases s.len(),
{
    if s.len() == 0 {
        0
    } else if s.last() == '\n' {
        feeds(s)
    } else {
        feeds(s) + 1
    }
}

/// How many line feeds a text has.
pub open spec fn feeds(s: Seq<char>) -> nat
    decreases s.len(),
{
    if s.len() == 0 {
        0
    } else {
        feeds(s.drop_last()) + (if s.last() == '\n' {
            1nat
        } else {
            0nat
        })
    }
}

/// Counts the lines of a text.
pub fn count_lines(s: &str) -> (n: usize)
    ensures
        n == line_count(s@),
{
    let text = to_chars(s);
    let mut n: usize = 0;
    let mut i: usize = 0;
    while i < text.len()
        invariant
            i <= text@.len(),
            n <= i,
            n == feeds(text@.take(i as int)),
        decreases text@.len() - i,
    {
        proof {
            assert(text@.take(i + 1).drop_last() =~= text@.take(i as int));
        }
        if text[i] == '\n' {
            n += 1;
        }
        i += 1;
    }
    proof {
        assert(text@.take(i as int) =~= text@);
    }
    if text.len() > 0 && text[text.len() - 1] != '\n' {
        proof {
            lemma_feeds_bound(text@.drop_last());
        }
        n += 1;
    }
    n
}

proof fn lemma_feeds_bound(s: Seq<char>)
    ensures
        feeds(s) <= s.len(),
    decreases s.len(),
{
    if s.len() > 0 {
        lemma_feeds_bound(s.drop_last());
    }
}

} // verus!
