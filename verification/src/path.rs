//! Where a job writes its output: file names with placeholders, and paths.

use vstd::prelude::*;
use vstd::utf8::encode_utf8;

use crate::text::{before_char, cut_at_char, same, to_chars};

verus! {

/// What the placeholders in a file name stand for.
pub ghost struct Fields {
    pub array_master: Seq<char>,
    pub array_id: Seq<char>,
    pub id: Seq<char>,
    pub host: Seq<char>,
    pub user: Seq<char>,
    pub name: Seq<char>,
}

/// The letters that make a placeholder when a percent sign precedes them.
pub open spec fn is_code(c: char) -> bool {
    c == '%' || c == 'A' || c == 'a' || c == 'J' || c == 'j' || c == 'N' || c == 'n' || c == 's'
        || c == 't' || c == 'u' || c == 'x'
}

/// What a placeholder stands for.
pub open spec fn replacement(c: char, f: Fields) -> Seq<char> {
    if c == '%' {
        "%"@
    } else if c == 'A' {
        f.array_master
    } else if c == 'a' {
        f.array_id
    } else if c == 'J' || c == 'j' {
        f.id
    } else if c == 'N' {
        before_char(f.host, ',')
    } else if c == 'n' || c == 't' {
        "0"@
    } else if c == 's' {
        "batch"@
    } else if c == 'u' {
        f.user
    } else {
        f.name
    }
}

/// A file name with its placeholders replaced, from left to right. Other percent signs stay.
pub open spec fn expanded(s: Seq<char>, f: Fields) -> Seq<char>
    decreases s.len(),
{
    if s.len() < 2 {
        s
    } else if s[0] == '%' && is_code(s[1]) {
        replacement(s[1], f) + expanded(s.skip(2), f)
    } else {
        seq![s[0]] + expanded(s.skip(1), f)
    }
}

// ---------------------------------------------------------------------------------------------
// Placeholders in the bytes of a text
// ---------------------------------------------------------------------------------------------
/// The pattern of a placeholder.
pub open spec fn placeholder_pattern() -> Seq<char> {
    "%(%|A|a|J|j|N|n|s|t|u|x)"@
}

/// A placeholder begins at position `i` of the bytes.
pub open spec fn placeholder_at(b: Seq<u8>, i: int) -> bool {
    0 <= i && i + 1 < b.len() && b[i] == 0x25 && is_code(b[i + 1] as char)
}

/// Where the placeholders from position `from` on begin. They are found from left to right and
/// do not overlap.
pub open spec fn placeholders(b: Seq<u8>, from: int) -> Seq<int>
    decreases b.len() - from,
{
    if from + 1 >= b.len() {
        Seq::empty()
    } else if placeholder_at(b, from) {
        seq![from] + placeholders(b, from + 2)
    } else {
        placeholders(b, from + 1)
    }
}

/// Calls `regex::Regex::captures_iter` and gives the byte range of each match. The pattern
/// matches a percent sign followed by one of eleven ASCII characters; matches are found from left
/// to right and do not overlap.
#[verifier::external_body]
fn find_placeholders(pattern: &str, text: &str) -> (ranges: Vec<(usize, usize)>)
    requires
        pattern@ == placeholder_pattern(),
    ensures
        ranges@.len() == placeholders(encode_utf8(text@), 0).len(),
        forall|k: int|
            0 <= k < ranges@.len() ==> {
                &&& (#[trigger] ranges@[k]).0 == placeholders(encode_utf8(text@), 0)[k]
                &&& ranges@[k].1 == placeholders(encode_utf8(text@), 0)[k] + 2
            },
{
    let re = regex::Regex::new(pattern).unwrap();
    re.captures_iter(text).map(|cap| cap.get(0).unwrap()).map(|m| (m.start(), m.end())).collect()
}

/// The bytes of a file name with its placeholders replaced.
spec fn expanded_bytes(b: Seq<u8>, f: Fields) -> Seq<u8>
    decreases b.len(),
{
    if b.len() < 2 {
        b
    } else if placeholder_at(b, 0) {
        encode_utf8(replacement(b[1] as char, f)) + expanded_bytes(b.skip(2), f)
    } else {
        seq![b[0]] + expanded_bytes(b.skip(1), f)
    }
}

proof fn lemma_encode_concat(a: Seq<char>, b: Seq<char>)
    ensures
        encode_utf8(a + b) == encode_utf8(a) + encode_utf8(b),
    decreases a.len(),
{
    if a.len() == 0 {
        assert(a + b =~= b);
        assert(encode_utf8(a) + encode_utf8(b) =~= encode_utf8(b));
    } else {
        lemma_encode_concat(a.drop_first(), b);
        assert((a + b).drop_first() =~= a.drop_first() + b);
        assert(encode_utf8(a + b) =~= encode_utf8(a) + encode_utf8(b));
    }
}

/// The bytes of one character: an ASCII character is its own byte, and no byte of another
/// character is below 128.
proof fn lemma_encode_char(first: char)
    ensures
        encode_utf8(seq![first]).len() > 0,
        (first as u32) < 128 ==> encode_utf8(seq![first]) == seq![first as u8] && (first as u8)
            as char == first,
        (first as u32) >= 128 ==> forall|i: int|
            0 <= i < encode_utf8(seq![first]).len() ==> #[trigger] encode_utf8(seq![first])[i]
                >= 128,
{
    let c = first as u32;
    let one = seq![first];
    assert(one.drop_first() =~= Seq::empty());
    assert(encode_utf8(one.drop_first()) =~= Seq::empty());
    assert(encode_utf8(one) =~= vstd::utf8::encode_scalar(c));
    if c < 128 {
        assert(vstd::utf8::is_ascii_chars(one));
        vstd::utf8::is_ascii_chars_encode_utf8(one);
        assert(one[0] as u8 == encode_utf8(one)[0]);
        assert(encode_utf8(one) =~= seq![first as u8]);
    } else {
        assert(c >= 128 && vstd::utf8::has_width_2_encoding(c)
            ==> vstd::utf8::leading_byte_width_2(c) >= 128 && vstd::utf8::last_continuation_byte(c)
            >= 128) by (bit_vector);
        assert(vstd::utf8::has_width_3_encoding(c) ==> vstd::utf8::leading_byte_width_3(c) >= 128
            && vstd::utf8::second_last_continuation_byte(c) >= 128
            && vstd::utf8::last_continuation_byte(c) >= 128) by (bit_vector);
        assert(vstd::utf8::leading_byte_width_4(c) >= 128
            && vstd::utf8::third_last_continuation_byte(c) >= 128
            && vstd::utf8::second_last_continuation_byte(c) >= 128
            && vstd::utf8::last_continuation_byte(c) >= 128) by (bit_vector);
    }
}

/// The bytes of a text begin with those of its first character.
proof fn lemma_encode_first(s: Seq<char>)
    requires
        s.len() > 0,
    ensures
        encode_utf8(s) == encode_utf8(seq![s[0]]) + encode_utf8(s.skip(1)),
        encode_utf8(seq![s[0]]).len() > 0,
        (s[0] as u32) < 128 ==> encode_utf8(seq![s[0]]) == seq![s[0] as u8] && (s[0] as u8) as char
            == s[0],
        (s[0] as u32) >= 128 ==> forall|i: int|
            0 <= i < encode_utf8(seq![s[0]]).len() ==> #[trigger] encode_utf8(seq![s[0]])[i] >= 128,
{
    assert(s =~= seq![s[0]] + s.skip(1));
    lemma_encode_concat(seq![s[0]], s.skip(1));
    lemma_encode_char(s[0]);
}

/// Bytes that are not percent signs are kept.
proof fn lemma_expanded_bytes_keeps(x: Seq<u8>, y: Seq<u8>, f: Fields)
    requires
        forall|i: int| 0 <= i < x.len() ==> x[i] != 0x25,
    ensures
        expanded_bytes(x + y, f) == x + expanded_bytes(y, f),
    decreases x.len(),
{
    if x.len() == 0 {
        assert(x + y =~= y);
        assert(x + expanded_bytes(y, f) =~= expanded_bytes(y, f));
    } else {
        let rest = x.skip(1);
        lemma_expanded_bytes_keeps(rest, y, f);
        assert((x + y).skip(1) =~= rest + y);
        assert(x =~= seq![x[0]] + rest);
        if (x + y).len() < 2 {
            assert(rest.len() == 0 && y.len() == 0);
            assert(x + expanded_bytes(y, f) =~= x + y);
        } else {
            assert(seq![x[0]] + (rest + expanded_bytes(y, f)) =~= x + expanded_bytes(y, f));
        }
    }
}

/// Replacing placeholders in the bytes of a text is the same as replacing them in the text.
proof fn lemma_expanded_bytes(s: Seq<char>, f: Fields)
    ensures
        expanded_bytes(encode_utf8(s), f) == encode_utf8(expanded(s, f)),
    decreases s.len(),
{
    let b = encode_utf8(s);
    if s.len() == 0 {
    } else {
        lemma_encode_first(s);
        let head = encode_utf8(seq![s[0]]);
        let tail = encode_utf8(s.skip(1));
        if s.len() == 1 {
            assert(s.skip(1) =~= Seq::empty());
            assert(tail =~= Seq::empty());
            assert(b =~= head);
            if (s[0] as u32) < 128 {
                assert(b.len() == 1);
            } else {
                lemma_expanded_bytes_keeps(head, tail, f);
                assert(head + expanded_bytes(tail, f) =~= head);
            }
        } else {
            lemma_encode_first(s.skip(1));
            assert(s.skip(1).skip(1) =~= s.skip(2));
            let second = encode_utf8(seq![s[1]]);
            lemma_expanded_bytes(s.skip(1), f);
            lemma_expanded_bytes(s.skip(2), f);
            lemma_encode_concat(seq![s[0]], expanded(s.skip(1), f));
            lemma_encode_concat(replacement(s[1], f), expanded(s.skip(2), f));
            if (s[0] as u32) >= 128 {
                lemma_expanded_bytes_keeps(head, tail, f);
            } else if s[0] == '%' && is_code(s[1]) {
                assert(b =~= seq![0x25u8, s[1] as u8] + encode_utf8(s.skip(2)));
                assert(b.skip(2) =~= encode_utf8(s.skip(2)));
            } else {
                assert(b[0] == s[0] as u8);
                assert(b.skip(1) =~= tail);
                assert(tail[0] == second[0]);
                assert(b[1] == tail[0]);
                if s[0] == '%' {
                    if (s[1] as u32) < 128 {
                        assert(b[1] as char == s[1]);
                    } else {
                        assert(b[1] >= 128);
                    }
                }
                assert(!placeholder_at(b, 0));
            }
        }
    }
}

/// Up to the first placeholder nothing changes.
proof fn lemma_expanded_bytes_upto(b: Seq<u8>, from: int, f: Fields)
    requires
        0 <= from <= b.len(),
    ensures
        ({
            let found = placeholders(b, from);
            if found.len() > 0 {
                &&& from <= found[0]
                &&& placeholder_at(b, found[0])
                &&& found.skip(1) == placeholders(b, found[0] + 2)
                &&& expanded_bytes(b.skip(from), f) == b.subrange(from, found[0])
                    + encode_utf8(replacement(b[found[0] + 1] as char, f)) + expanded_bytes(
                    b.skip(found[0] + 2),
                    f,
                )
            } else {
                expanded_bytes(b.skip(from), f) == b.skip(from)
            }
        }),
    decreases b.len() - from,
{
    let found = placeholders(b, from);
    let rest = b.skip(from);
    if from + 1 >= b.len() {
    } else if placeholder_at(b, from) {
        assert(placeholder_at(rest, 0));
        assert(rest.skip(2) =~= b.skip(from + 2));
        assert(found.skip(1) =~= placeholders(b, from + 2));
        assert(b.subrange(from, from) + encode_utf8(replacement(b[from + 1] as char, f))
            =~= encode_utf8(replacement(b[from + 1] as char, f)));
    } else {
        assert(!placeholder_at(rest, 0));
        assert(rest.skip(1) =~= b.skip(from + 1));
        lemma_expanded_bytes_upto(b, from + 1, f);
        if found.len() > 0 {
            assert(seq![b[from]] + b.subrange(from + 1, found[0]) =~= b.subrange(from, found[0]));
            let middle = encode_utf8(replacement(b[found[0] + 1] as char, f));
            let end = expanded_bytes(b.skip(found[0] + 2), f);
            assert(seq![b[from]] + (b.subrange(from + 1, found[0]) + middle + end)
                =~= b.subrange(from, found[0]) + middle + end);
        } else {
            assert(seq![b[from]] + b.skip(from + 1) =~= b.skip(from));
        }
    }
}

/// What each placeholder stands for.
pub struct PathFields {
    pub array_master: String,
    pub array_id: String,
    pub id: String,
    pub host: String,
    pub user: String,
    pub name: String,
}

impl View for PathFields {
    type V = Fields;

    open spec fn view(&self) -> Fields {
        Fields {
            array_master: self.array_master@,
            array_id: self.array_id@,
            id: self.id@,
            host: self.host@,
            user: self.user@,
            name: self.name@,
        }
    }
}

impl PathFields {
    /// What the placeholder with this letter stands for.
    pub fn replacement(&self, code: char) -> (r: String)
        requires
            is_code(code),
        ensures
            r@ == replacement(code, self@),
    {
        if code == '%' {
            "%".to_owned()
        } else if code == 'A' {
            self.array_master.clone()
        } else if code == 'a' {
            self.array_id.clone()
        } else if code == 'J' || code == 'j' {
            self.id.clone()
        } else if code == 'N' {
            cut_at_char(self.host.as_str(), ',').0
        } else if code == 'n' || code == 't' {
            "0".to_owned()
        } else if code == 's' {
            "batch".to_owned()
        } else if code == 'u' {
            self.user.clone()
        } else {
            self.name.clone()
        }
    }

    /// Replaces the placeholders in a file name.
    pub fn expand(&self, text: &str) -> (r: String)
        ensures
            r@ == expanded(text@, self@),
    {
        let ranges = find_placeholders("%(%|A|a|J|j|N|n|s|t|u|x)", text);
        let ghost b = encode_utf8(text@);
        let ghost all = placeholders(b, 0);
        let mut out = String::new();
        let mut rest: &str = text;
        let mut done: usize = 0;
        let mut k: usize = 0;
        proof {
            assert(all.skip(0) =~= all);
            assert(b.skip(0) =~= b);
            assert(encode_utf8(out@) + expanded_bytes(b.skip(0), self@) =~= expanded_bytes(
                b,
                self@,
            ));
        }
        while k < ranges.len()
            invariant
                b == encode_utf8(text@),
                all == placeholders(b, 0),
                ranges@.len() == all.len(),
                forall|i: int|
                    0 <= i < ranges@.len() ==> (#[trigger] ranges@[i]).0 == all[i] && ranges@[i].1
                        == all[i] + 2,
                k <= ranges@.len(),
                done <= b.len(),
                all.skip(k as int) == placeholders(b, done as int),
                encode_utf8(rest@) == b.skip(done as int),
                encode_utf8(out@) + expanded_bytes(b.skip(done as int), self@) == expanded_bytes(
                    b,
                    self@,
                ),
            decreases ranges@.len() - k,
        {
            let (start, end) = ranges[k];
            let ghost out_before = out@;
            proof {
                let found = placeholders(b, done as int);
                assert(found[0] == all[k as int]);
                lemma_expanded_bytes_upto(b, done as int, self@);
                assert(found.skip(1) =~= all.skip(k + 1));
                vstd::utf8::encode_utf8_valid_utf8(rest@);
                assert(encode_utf8(rest@)[start - done] == 0x25u8);
                assert(!vstd::utf8::is_continuation_byte(0x25u8));
                vstd::utf8::is_char_boundary_iff_not_is_continuation_byte(
                    encode_utf8(rest@),
                    start - done,
                );
            }
            let (piece, after) = rest.split_at(start - done);
            proof {
                vstd::utf8::encode_utf8_valid_utf8(after@);
                assert(encode_utf8(after@) =~= b.skip(start as int));
                lemma_boundary_after_two(encode_utf8(after@));
            }
            let code: u8 = after.as_bytes()[1];
            let (_, tail) = after.split_at(2);
            let word = self.replacement(code as char);
            out.append(piece);
            out.append(word.as_str());
            proof {
                lemma_encode_concat(out_before, piece@);
                lemma_encode_concat(out_before + piece@, word@);
                assert(encode_utf8(piece@) =~= b.subrange(done as int, start as int));
                assert(encode_utf8(tail@) =~= b.skip(start + 2));
                assert(encode_utf8(out@) + expanded_bytes(b.skip(start + 2), self@)
                    =~= encode_utf8(out_before) + expanded_bytes(b.skip(done as int), self@));
            }
            rest = tail;
            done = end;
            k += 1;
        }
        proof {
            assert(all.skip(k as int).len() == 0);
            lemma_expanded_bytes_upto(b, done as int, self@);
            lemma_encode_concat(out@, rest@);
            lemma_expanded_bytes(text@, self@);
            vstd::utf8::encode_utf8_decode_utf8(out@ + rest@);
            vstd::utf8::encode_utf8_decode_utf8(expanded(text@, self@));
        }
        out.append(rest);
        out
    }
}

/// After two ASCII characters a new character begins, or the text ends.
proof fn lemma_boundary_after_two(b: Seq<u8>)
    requires
        vstd::utf8::valid_utf8(b),
        b.len() >= 2,
        b[0] < 128,
        b[1] < 128,
    ensures
        vstd::utf8::is_char_boundary(b, 2),
{
    reveal_with_fuel(vstd::utf8::is_char_boundary, 3);
    reveal_with_fuel(vstd::utf8::valid_utf8, 3);
    let after = vstd::utf8::pop_first_scalar(b);
    assert(after =~= b.skip(1));
}

// ---------------------------------------------------------------------------------------------
// Paths
// ---------------------------------------------------------------------------------------------
/// A path taken from a directory, as on Unix: an absolute path stays what it is, any other is
/// appended to the directory, with a slash between them where the directory does not end in one.
pub open spec fn joined(dir: Seq<char>, path: Seq<char>) -> Seq<char> {
    if path.len() > 0 && path[0] == '/' {
        path
    } else if dir.len() == 0 || dir.last() == '/' {
        dir + path
    } else {
        dir + "/"@ + path
    }
}

/// Takes a path from a directory.
pub fn join_path(dir: &str, path: &str) -> (r: String)
    ensures
        r@ == joined(dir@, path@),
{
    let from = to_chars(dir);
    let to = to_chars(path);
    if to.len() > 0 && to[0] == '/' {
        return path.to_owned();
    }
    let mut r = dir.to_owned();
    if from.len() > 0 && from[from.len() - 1] != '/' {
        r.append("/");
    }
    r.append(path);
    r
}

/// What stands for the number of a task in a job that is not part of an array.
pub open spec fn no_task() -> Seq<char> {
    "4294967294"@
}

/// The number of a task, as file names have it.
pub open spec fn task_number(array_id: Seq<char>) -> Seq<char> {
    if array_id == "N/A"@ {
        no_task()
    } else {
        array_id
    }
}

/// The file name before its placeholders are replaced. A job that names no file writes to one in
/// its working directory that is named after it.
pub open spec fn file_pattern(path: Seq<char>, number: Seq<char>, working_dir: Seq<char>) -> Seq<
    char,
> {
    if path.len() > 0 {
        path
    } else if number == no_task() {
        joined(working_dir, "slurm-%J.out"@)
    } else {
        joined(working_dir, "slurm-%A_%a.out"@)
    }
}

/// The path of an output file. The field `array_id` of `f` is `N/A` for a job that is not part
/// of an array.
pub open spec fn resolved(path: Seq<char>, f: Fields, working_dir: Seq<char>) -> Seq<char> {
    let g = Fields { array_id: task_number(f.array_id), ..f };
    joined(working_dir, expanded(file_pattern(path, g.array_id, working_dir), g))
}

/// Finds the path of an output file.
pub fn resolve(path: &str, fields: PathFields, working_dir: &str) -> (r: String)
    ensures
        r@ == resolved(path@, fields@, working_dir@),
{
    let mut fields = fields;
    if same(fields.array_id.as_str(), "N/A") {
        fields.array_id = "4294967294".to_owned();
    }
    let pattern = if !path.is_empty() {
        path.to_owned()
    } else if same(fields.array_id.as_str(), "4294967294") {
        join_path(working_dir, "slurm-%J.out")
    } else {
        join_path(working_dir, "slurm-%A_%a.out")
    };
    join_path(working_dir, fields.expand(pattern.as_str()).as_str())
}

/// A text with every percent sign doubled.
pub open spec fn escaped(s: Seq<char>) -> Seq<char>
    decreases s.len(),
{
    if s.len() == 0 {
        s
    } else if s[0] == '%' {
        "%%"@ + escaped(s.skip(1))
    } else {
        seq![s[0]] + escaped(s.skip(1))
    }
}

/// A file name without percent signs has no placeholders and is kept.
pub proof fn law_plain_names_are_kept(s: Seq<char>, f: Fields)
    requires
        !s.contains('%'),
    ensures
        expanded(s, f) == s,
    decreases s.len(),
{
    if s.len() >= 2 {
        assert(s[0] != '%') by {
            assert(s.contains(s[0]));
        }
        assert(!s.skip(1).contains('%')) by {
            if s.skip(1).contains('%') {
                let i = choose|i: int| 0 <= i < s.skip(1).len() && s.skip(1)[i] == '%';
                assert(s[i + 1] == '%');
            }
        }
        law_plain_names_are_kept(s.skip(1), f);
        assert(seq![s[0]] + s.skip(1) =~= s);
    }
}

/// Doubled percent signs stand for themselves: a name in which every percent sign is doubled
/// comes out as it was before.
pub proof fn law_doubled_percent_signs_are_literal(s: Seq<char>, f: Fields)
    ensures
        expanded(escaped(s), f) == s,
    decreases s.len(),
{
    reveal_strlit("%%");
    reveal_strlit("%");
    if s.len() > 0 {
        let rest = s.skip(1);
        law_doubled_percent_signs_are_literal(rest, f);
        let e = escaped(s);
        if s[0] == '%' {
            assert(e.skip(2) =~= escaped(rest));
            assert("%"@ =~= seq!['%']);
            assert(replacement('%', f) + rest =~= s);
        } else {
            assert(e.skip(1) =~= escaped(rest));
            if e.len() < 2 {
                assert(escaped(rest).len() == 0);
                assert(expanded(escaped(rest), f) == escaped(rest));
                assert(rest.len() == 0);
                assert(e =~= s);
            } else {
                assert(seq![s[0]] + rest =~= s);
            }
        }
    }
}

/// An absolute path without percent signs is the path of the file, whatever the job.
pub proof fn law_absolute_paths_are_kept(path: Seq<char>, f: Fields, working_dir: Seq<char>)
    requires
        path.len() > 0,
        path[0] == '/',
        !path.contains('%'),
    ensures
        resolved(path, f, working_dir) == path,
{
    law_plain_names_are_kept(path, Fields { array_id: task_number(f.array_id), ..f });
}

/// The path of an output file of a job in an absolute directory is absolute.
pub proof fn law_paths_are_absolute(path: Seq<char>, f: Fields, working_dir: Seq<char>)
    requires
        working_dir.len() > 0,
        working_dir[0] == '/',
    ensures
        resolved(path, f, working_dir).len() > 0,
        resolved(path, f, working_dir)[0] == '/',
{
}

} // verus!
