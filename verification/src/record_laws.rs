//! What is read from the accounting command and what is asked of it, told on the texts.

use vstd::prelude::*;

use crate::command::{
    exit_line, failure_text, output_parts, scancel, scontrol_update_timelimit,
};
use crate::job_acct::{
    acct_jobs, field_names, line_job, lines_jobs, record_fields, sacct_arg, sacct_args, separator,
};
use crate::path::{expanded, joined, law_plain_names_are_kept, resolved, task_number, Fields};
use crate::text::{
    after_char, before_char, contains, decimal, find_from, join, lemma_find_from, occurs_at, split,
    split_from, starts_with, trim, trim_end,
};
use crate::text_laws::{law_cut_is_at_the_first, law_joining_lists};

verus! {

// ---------------------------------------------------------------------------------------------
// Placeholders and paths
// ---------------------------------------------------------------------------------------------
/// Text without a percent sign in front of a file name stays in front of it.
pub proof fn law_text_before_a_placeholder_stays(before: Seq<char>, rest: Seq<char>, f: Fields)
    requires
        !before.contains('%'),
    ensures
        expanded(before + rest, f) == before + expanded(rest, f),
    decreases before.len(),
{
    if before.len() == 0 {
        assert(before + rest =~= rest);
        assert(before + expanded(rest, f) =~= expanded(rest, f));
    } else {
        let tail = before.skip(1);
        assert(before.contains(before[0]));
        assert forall|i: int| 0 <= i < tail.len() implies tail[i] != '%' by {
            assert(before.contains(before[i + 1]));
        }
        law_text_before_a_placeholder_stays(tail, rest, f);
        assert((before + rest).skip(1) =~= tail + rest);
        if (before + rest).len() < 2 {
            assert(rest.len() == 0);
            assert(before + expanded(rest, f) =~= before + rest);
        } else {
            assert(seq![before[0]] + (tail + expanded(rest, f)) =~= before + expanded(rest, f));
        }
    }
}

/// What each placeholder becomes, whatever stands behind it.
pub proof fn law_what_placeholders_become(c: char, rest: Seq<char>, f: Fields)
    ensures
        ({
            let all = expanded(seq!['%', c] + rest, f);
            let behind = expanded(rest, f);
            &&& c == '%' ==> all == seq!['%'] + behind
            &&& c == 'A' ==> all == f.array_master + behind
            &&& c == 'a' ==> all == f.array_id + behind
            &&& c == 'J' || c == 'j' ==> all == f.id + behind
            &&& c == 'n' || c == 't' ==> all == seq!['0'] + behind
            &&& c == 's' ==> all == seq!['b', 'a', 't', 'c', 'h'] + behind
            &&& c == 'u' ==> all == f.user + behind
            &&& c == 'x' ==> all == f.name + behind
            &&& c == 'N' && !f.host.contains(',') ==> all == f.host + behind
            &&& c != '%' && c != 'A' && c != 'a' && c != 'J' && c != 'j' && c != 'N' && c != 'n'
                && c != 's' && c != 't' && c != 'u' && c != 'x' ==> all == seq!['%'] + expanded(
                seq![c] + rest,
                f,
            )
        }),
{
    reveal_strlit("%");
    reveal_strlit("0");
    reveal_strlit("batch");
    let name = seq!['%', c] + rest;
    assert(name.skip(2) =~= rest);
    assert(name.skip(1) =~= seq![c] + rest);
    assert(name[0] == '%' && name[1] == c);
    assert("%"@ =~= seq!['%']);
    assert("0"@ =~= seq!['0']);
    assert("batch"@ =~= seq!['b', 'a', 't', 'c', 'h']);
    law_cut_is_at_the_first(f.host, ',');
    if !f.host.contains(',') {
        if let Some(others) = after_char(f.host, ',') {
            let first = before_char(f.host, ',');
            assert((first.push(',') + others)[first.len() as int] == ',');
            assert(f.host.contains(','));
        }
    }
}

/// Of several hosts the first one is taken.
pub proof fn law_first_host_is_taken(
    first: Seq<char>,
    others: Seq<char>,
    rest: Seq<char>,
    f: Fields,
)
    requires
        !first.contains(','),
        f.host == first.push(',') + others,
    ensures
        expanded(seq!['%', 'N'] + rest, f) == first + expanded(rest, f),
{
    let name = seq!['%', 'N'] + rest;
    assert(name.skip(2) =~= rest);
    assert(name[0] == '%' && name[1] == 'N');
    law_cut_is_at_the_first(f.host, ',');
    let found = before_char(f.host, ',');
    assert(f.host[first.len() as int] == ',');
    assert(f.host.contains(','));
    let behind = after_char(f.host, ',')->0;
    let whole = found.push(',') + behind;
    assert(whole[found.len() as int] == ',');
    if found.len() < first.len() {
        assert(first[found.len() as int] == (first.push(',') + others)[found.len() as int]);
        assert(first.contains(','));
    }
    if first.len() < found.len() {
        assert(found[first.len() as int] == whole[first.len() as int]);
        assert(found.contains(','));
    }
    assert forall|k: int| 0 <= k < first.len() implies found[k] == first[k] by {
        assert(whole[k] == found[k]);
        assert((first.push(',') + others)[k] == first[k]);
    }
    assert(found =~= first);
}

/// A path from a directory: an absolute path is itself, another one follows the directory with
/// one slash between them.
pub proof fn law_paths_are_taken_from_a_directory(dir: Seq<char>, path: Seq<char>)
    ensures
        path.len() > 0 && path[0] == '/' ==> joined(dir, path) == path,
        !(path.len() > 0 && path[0] == '/') && dir.len() == 0 ==> joined(dir, path) == path,
        !(path.len() > 0 && path[0] == '/') ==> joined(dir.push('/'), path) == dir.push('/')
            + path,
        !(path.len() > 0 && path[0] == '/') && dir.len() > 0 && dir.last() != '/' ==> joined(
            dir,
            path,
        ) == dir.push('/') + path,
{
    reveal_strlit("/");
    if dir.len() == 0 {
        assert(dir + path =~= path);
    }
    assert(dir + "/"@ + path =~= dir.push('/') + path);
}

/// A file name of a job: an absolute one that ends in a placeholder is what stands before the
/// placeholder and what that stands for. The number of a task is kept as it is, and only `N/A`
/// becomes the number that stands for none.
pub proof fn law_absolute_name_with_a_placeholder(
    before: Seq<char>,
    c: char,
    f: Fields,
    dir: Seq<char>,
)
    requires
        before.len() > 0,
        before[0] == '/',
        !before.contains('%'),
    ensures
        ({
            let path = before + seq!['%', c];
            &&& c == 'x' ==> resolved(path, f, dir) == before + f.name
            &&& c == 'u' ==> resolved(path, f, dir) == before + f.user
            &&& c == 'j' || c == 'J' ==> resolved(path, f, dir) == before + f.id
            &&& c == 'A' ==> resolved(path, f, dir) == before + f.array_master
            &&& c == 'a' && f.array_id != "N/A"@ ==> resolved(path, f, dir) == before + f.array_id
            &&& c == 'a' && f.array_id == "N/A"@ ==> resolved(path, f, dir) == before
                + "4294967294"@
            &&& c == 'N' && !f.host.contains(',') ==> resolved(path, f, dir) == before + f.host
        }),
{
    let g = Fields {
        array_id: if f.array_id == "N/A"@ {
            "4294967294"@
        } else {
            f.array_id
        },
        ..f
    };
    let path = before + seq!['%', c];
    let none = Seq::<char>::empty();
    law_text_before_a_placeholder_stays(before, seq!['%', c], g);
    law_what_placeholders_become(c, none, g);
    assert(seq!['%', c] + none =~= seq!['%', c]);
    assert(expanded(none, g) =~= none);
    assert(g.name + none =~= g.name);
    assert(g.user + none =~= g.user);
    assert(g.id + none =~= g.id);
    assert(g.array_master + none =~= g.array_master);
    assert(g.array_id + none =~= g.array_id);
    assert(g.host + none =~= g.host);
    assert(path.len() > 0);
}

proof fn lemma_usual_names(master: Seq<char>, f: Fields)
    requires
        f.array_master == master,
    ensures
        expanded("slurm-%A_%a.out"@, f) == "slurm-"@ + master + "_"@ + f.array_id + ".out"@,
        expanded("slurm-%J.out"@, f) == "slurm-"@ + f.id + ".out"@,
{
    reveal_strlit("slurm-%A_%a.out");
    reveal_strlit("slurm-%J.out");
    reveal_strlit("slurm-");
    reveal_strlit(".out");
    reveal_strlit("_");
    let end = ".out"@;
    law_plain_names_are_kept(end, f);
    let second = seq!['%', 'a'] + end;
    law_what_placeholders_become('a', end, f);
    law_text_before_a_placeholder_stays("_"@, second, f);
    let middle = "_"@ + second;
    law_what_placeholders_become('A', middle, f);
    law_text_before_a_placeholder_stays("slurm-"@, seq!['%', 'A'] + middle, f);
    assert("slurm-%A_%a.out"@ =~= "slurm-"@ + (seq!['%', 'A'] + middle));
    assert("slurm-"@ + (master + ("_"@ + (f.array_id + end))) =~= "slurm-"@ + master + "_"@
        + f.array_id + end);
    law_what_placeholders_become('J', end, f);
    law_text_before_a_placeholder_stays("slurm-"@, seq!['%', 'J'] + end, f);
    assert("slurm-%J.out"@ =~= "slurm-"@ + (seq!['%', 'J'] + end));
    assert("slurm-"@ + (f.id + end) =~= "slurm-"@ + f.id + end);
}

/// A job that names no file writes to one in its directory: a task of an array to one named after
/// the array and the number of the task, any other job to one named after it.
pub proof fn law_job_without_a_file_name(f: Fields, dir: Seq<char>)
    requires
        dir.len() > 0,
        dir[0] == '/',
        !dir.contains('%'),
    ensures
        ({
            let inside = if dir.last() == '/' {
                dir
            } else {
                dir.push('/')
            };
            let path = resolved(Seq::empty(), f, dir);
            &&& f.array_id == "N/A"@ || f.array_id == "4294967294"@ ==> path == inside + ("slurm-"@
                + f.id + ".out"@)
            &&& f.array_id != "N/A"@ && f.array_id != "4294967294"@ ==> path == inside + (
            "slurm-"@ + f.array_master + "_"@ + f.array_id + ".out"@)
        }),
{
    reveal_strlit("slurm-%A_%a.out");
    reveal_strlit("slurm-%J.out");
    reveal_strlit("slurm-");
    reveal_strlit("/");
    let inside = if dir.last() == '/' {
        dir
    } else {
        dir.push('/')
    };
    let number = if f.array_id == "N/A"@ {
        "4294967294"@
    } else {
        f.array_id
    };
    let g = Fields { array_id: number, ..f };
    assert(!inside.contains('%')) by {
        assert forall|i: int| 0 <= i < inside.len() implies inside[i] != '%' by {
            if i < dir.len() {
                assert(dir.contains(dir[i]));
            }
        }
    }
    lemma_usual_names(g.array_master, g);
    law_text_before_a_placeholder_stays(inside, "slurm-%A_%a.out"@, g);
    law_text_before_a_placeholder_stays(inside, "slurm-%J.out"@, g);
    assert(joined(dir, "slurm-%A_%a.out"@) =~= inside + "slurm-%A_%a.out"@);
    assert(joined(dir, "slurm-%J.out"@) =~= inside + "slurm-%J.out"@);
    assert((inside + expanded("slurm-%A_%a.out"@, g))[0] == '/');
    assert((inside + expanded("slurm-%J.out"@, g))[0] == '/');
}

/// A file name without placeholders that is not absolute is taken from the directory.
pub proof fn law_relative_names_are_taken_from_the_directory(
    path: Seq<char>,
    f: Fields,
    dir: Seq<char>,
)
    requires
        path.len() > 0,
        path[0] != '/',
        !path.contains('%'),
        dir.len() > 0,
        dir.last() != '/',
    ensures
        resolved(path, f, dir) == dir.push('/') + path,
{
    reveal_strlit("/");
    law_plain_names_are_kept(path, Fields { array_id: task_number(f.array_id), ..f });
    assert(dir + "/"@ + path =~= dir.push('/') + path);
}

/// A file that is named is the name with its placeholders replaced, taken from the directory. For a
/// job that is no task the number that stands for none takes the place of the number of the task.
pub proof fn law_named_files(path: Seq<char>, f: Fields, dir: Seq<char>)
    requires
        path.len() > 0,
    ensures
        f.array_id != "N/A"@ ==> resolved(path, f, dir) == joined(dir, expanded(path, f)),
        f.array_id == "N/A"@ ==> resolved(path, f, dir) == joined(
            dir,
            expanded(path, Fields { array_id: "4294967294"@, ..f }),
        ),
        path[0] == '/' ==> expanded(path, f).len() > 0 && expanded(path, f)[0] == '/',
{
}

/// A file that is not named is named after the job or the task and taken from the directory; the
/// placeholders in the name of the directory are replaced too.
pub proof fn law_unnamed_files(f: Fields, dir: Seq<char>)
    ensures
        f.array_id == "N/A"@ ==> resolved(Seq::empty(), f, dir) == joined(
            dir,
            expanded(
                joined(dir, "slurm-%J.out"@),
                Fields { array_id: "4294967294"@, ..f },
            ),
        ),
        f.array_id == "4294967294"@ ==> resolved(Seq::empty(), f, dir) == joined(
            dir,
            expanded(joined(dir, "slurm-%J.out"@), f),
        ),
        f.array_id != "N/A"@ && f.array_id != "4294967294"@ ==> resolved(Seq::empty(), f, dir)
            == joined(dir, expanded(joined(dir, "slurm-%A_%a.out"@), f)),
{
}

// ---------------------------------------------------------------------------------------------
// Records
// ---------------------------------------------------------------------------------------------
/// The parts of a line between the separators, without the white space around the line.
pub open spec fn parts_of(line: Seq<char>) -> Seq<Seq<char>> {
    split(trim(line), "###turm###"@)
}

/// A line tells of a job exactly where it has thirteen parts, the first of them has no point, and
/// the third is not `RUNNING`.
pub proof fn law_which_lines_tell_of_a_job(line: Seq<char>)
    ensures
        line_job(line) is Some <==> parts_of(line).len() == 13 && !parts_of(line)[0].contains('.')
            && parts_of(line)[2] != "RUNNING"@,
{
    reveal_strlit(".");
    let id = parts_of(line)[0];
    assert("."@ =~= seq!['.']);
    if contains(id, "."@) {
        let i = choose|i: int| occurs_at(id, "."@, i);
        assert(id.subrange(i, i + 1)[0] == '.');
    }
    if id.contains('.') {
        let i = choose|i: int| 0 <= i < id.len() && id[i] == '.';
        assert(id.subrange(i, i + 1) =~= seq!['.']);
        assert(occurs_at(id, "."@, i));
    }
}

/// What a line says of a job, part by part.
pub proof fn law_what_a_line_says(line: Seq<char>)
    requires
        line_job(line) is Some,
    ensures
        ({
            let p = parts_of(line);
            let job = line_job(line)->0;
            &&& job.job_id == p[0] && job.name == p[1] && job.state == p[2] && job.user == p[3]
            &&& job.time == p[4] && job.tres == p[5] && job.partition == p[6]
            &&& job.nodelist == p[7] && job.command == p[8]
            &&& job.time_limit.len() == 0 && job.start_time.len() == 0 && job.qos.len() == 0
            &&& p[9] == "None"@ ==> job.reason is None
            &&& p[9] != "None"@ ==> job.reason == Some(p[9])
            &&& !p[0].contains('_') ==> job.array_id == p[0] && job.array_step is None
            &&& p[0].contains('_') ==> job.array_step is Some && p[0] == job.array_id.push('_')
                + job.array_step->0 && !job.array_id.contains('_')
            &&& p[2].len() > 0 && (p[2][0] as u32) < 128 ==> job.state_compact == seq![p[2][0]]
            &&& p[2].len() == 0 || (p[2][0] as u32) >= 128 ==> job.state_compact == "?"@
        }),
{
    let p = parts_of(line);
    law_cut_is_at_the_first(p[0], '_');
    if p[2].len() > 0 {
        assert(p[2].take(1) =~= seq![p[2][0]]);
    }
    if after_char(p[0], '_') is Some {
        assert(p[0][before_char(p[0], '_').len() as int] == '_');
    }
}

/// Where the output of a job goes, by its own record: absolute names that end in a placeholder get
/// the name, the user, the id, the array or the number of the task that the same line tells; names
/// without placeholders are kept, or taken from the directory that the line tells.
pub proof fn law_files_of_a_line(line: Seq<char>, before: Seq<char>, c: char)
    requires
        line_job(line) is Some,
        before.len() > 0,
        before[0] == '/',
        !before.contains('%'),
    ensures
        ({
            let p = parts_of(line);
            let job = line_job(line)->0;
            let file = before + seq!['%', c];
            let becomes = |field: Seq<char>, path: Option<Seq<char>>|
                {
                    field == file ==> {
                        &&& c == 'x' ==> path == Some(before + job.name)
                        &&& c == 'u' ==> path == Some(before + job.user)
                        &&& c == 'j' || c == 'J' ==> path == Some(before + job.job_id)
                        &&& c == 'A' ==> path == Some(before + job.array_id)
                        &&& c == 'a' && job.array_step is None ==> path == Some(
                            before + "4294967294"@,
                        )
                        &&& c == 'a' && job.array_step is Some && job.array_step != Some("N/A"@)
                            ==> path == Some(before + job.array_step->0)
                        &&& c == 'N' && !job.nodelist.contains(',') ==> path == Some(
                            before + job.nodelist,
                        )
                    }
                };
            &&& becomes(p[11], job.stdout)
            &&& becomes(p[12], job.stderr)
            &&& p[11] == before ==> job.stdout == Some(before)
            &&& p[12] == before ==> job.stderr == Some(before)
        }),
{
    let p = parts_of(line);
    law_absolute_name_with_a_placeholder(before, c, record_fields(p), p[10]);
    crate::path::law_absolute_paths_are_kept(before, record_fields(p), p[10]);
}

/// Where the output of a job goes, where a file is named: the placeholders in the name stand for
/// what the same line tells of the job, and the name is taken from the directory of the line.
pub proof fn law_named_files_of_a_line(line: Seq<char>)
    requires
        line_job(line) is Some,
    ensures
        ({
            let p = parts_of(line);
            let job = line_job(line)->0;
            let f = Fields {
                array_master: job.array_id,
                array_id: if job.array_step is Some && job.array_step != Some("N/A"@) {
                    job.array_step->0
                } else {
                    "4294967294"@
                },
                id: job.job_id,
                host: job.nodelist,
                user: job.user,
                name: job.name,
            };
            &&& p[11].len() > 0 ==> job.stdout == Some(joined(p[10], expanded(p[11], f)))
            &&& p[12].len() > 0 ==> job.stderr == Some(joined(p[10], expanded(p[12], f)))
        }),
{
    let p = parts_of(line);
    if p[11].len() > 0 {
        law_named_files(p[11], record_fields(p), p[10]);
    }
    if p[12].len() > 0 {
        law_named_files(p[12], record_fields(p), p[10]);
    }
}

/// A file that is named relatively, or not at all, is in the directory that the line tells.
pub proof fn law_files_in_the_directory_of_a_line(line: Seq<char>, name: Seq<char>)
    requires
        line_job(line) is Some,
        parts_of(line)[10].len() > 0,
        parts_of(line)[10][0] == '/',
        parts_of(line)[10].last() != '/',
        !parts_of(line)[10].contains('%'),
        name.len() > 0,
        name[0] != '/',
        !name.contains('%'),
    ensures
        ({
            let p = parts_of(line);
            let job = line_job(line)->0;
            let inside = p[10].push('/');
            let usual = match job.array_step {
                None => "slurm-"@ + job.job_id + ".out"@,
                Some(step) => "slurm-"@ + job.array_id + "_"@ + step + ".out"@,
            };
            let numbered = job.array_step != Some("N/A"@) && job.array_step != Some(
                "4294967294"@,
            );
            &&& p[11] == name ==> job.stdout == Some(inside + name)
            &&& p[12] == name ==> job.stderr == Some(inside + name)
            &&& p[11].len() == 0 && numbered ==> job.stdout == Some(inside + usual)
            &&& p[12].len() == 0 && numbered ==> job.stderr == Some(inside + usual)
        }),
{
    let p = parts_of(line);
    law_relative_names_are_taken_from_the_directory(name, record_fields(p), p[10]);
    law_job_without_a_file_name(record_fields(p), p[10]);
    if p[11].len() == 0 {
        assert(p[11] =~= Seq::empty());
    }
    if p[12].len() == 0 {
        assert(p[12] =~= Seq::empty());
    }
}

// ---------------------------------------------------------------------------------------------
// Lines
// ---------------------------------------------------------------------------------------------
proof fn lemma_occurs(s: Seq<char>, c: char, k: int)
    ensures
        occurs_at(s, seq![c], k) <==> 0 <= k < s.len() && s[k] == c,
{
    if 0 <= k < s.len() {
        assert(s.subrange(k, k + 1)[0] == s[k]);
        if s[k] == c {
            assert(s.subrange(k, k + 1) =~= seq![c]);
        }
    }
}

proof fn lemma_find_is(s: Seq<char>, c: char, from: int, i: int)
    requires
        0 <= from <= i < s.len(),
        s[i] == c,
        forall|k: int| from <= k < i ==> s[k] != c,
    ensures
        find_from(s, seq![c], from) == Some(i),
{
    lemma_find_from(s, seq![c], from);
    lemma_occurs(s, c, i);
    if let Some(j) = find_from(s, seq![c], from) {
        lemma_occurs(s, c, j);
    }
}

proof fn lemma_find_none(s: Seq<char>, c: char, from: int)
    requires
        0 <= from,
        forall|k: int| from <= k < s.len() ==> s[k] != c,
    ensures
        find_from(s, seq![c], from) is None,
{
    lemma_find_from(s, seq![c], from);
    if let Some(j) = find_from(s, seq![c], from) {
        lemma_occurs(s, c, j);
    }
}

proof fn lemma_found_char(s: Seq<char>, c: char, from: int)
    requires
        0 <= from,
    ensures
        match find_from(s, seq![c], from) {
            Some(i) => from <= i < s.len() && s[i] == c && forall|k: int|
                from <= k < i ==> s[k] != c,
            None => forall|k: int| from <= k < s.len() ==> s[k] != c,
        },
{
    lemma_find_from(s, seq![c], from);
    assert forall|k: int| occurs_at(s, seq![c], k) <==> 0 <= k < s.len() && s[k] == c by {
        lemma_occurs(s, c, k);
    }
    match find_from(s, seq![c], from) {
        Some(i) => {
            assert forall|k: int| from <= k < i implies s[k] != c by {
                assert(!occurs_at(s, seq![c], k));
            }
        },
        None => {
            assert forall|k: int| from <= k < s.len() implies s[k] != c by {
                assert(!occurs_at(s, seq![c], k));
            }
        },
    }
}

proof fn lemma_split_behind(w: Seq<char>, b: Seq<char>, c: char, off: int, j: int)
    requires
        0 <= off,
        off + b.len() == w.len(),
        w.skip(off) == b,
        0 <= j <= b.len(),
    ensures
        split_from(w, seq![c], off + j) == split_from(b, seq![c], j),
    decreases b.len() - j,
{
    lemma_found_char(b, c, j);
    assert forall|k: int| 0 <= k < b.len() implies b[k] == w[off + k] by {
        assert(w.skip(off)[k] == w[off + k]);
    }
    match find_from(b, seq![c], j) {
        Some(i) => {
            assert forall|k: int| off + j <= k < off + i implies w[k] != c by {
                assert(b[k - off] == w[off + (k - off)]);
            }
            lemma_find_is(w, c, off + j, off + i);
            lemma_split_behind(w, b, c, off, i + 1);
            assert(w.subrange(off + j, off + i) =~= b.subrange(j, i));
        },
        None => {
            assert forall|k: int| off + j <= k < w.len() implies w[k] != c by {
                assert(b[k - off] == w[off + (k - off)]);
            }
            lemma_find_none(w, c, off + j);
            assert(w.skip(off + j) =~= b.skip(j));
        },
    }
}

proof fn lemma_split_sum(a: Seq<char>, b: Seq<char>, c: char, start: int)
    requires
        0 <= start <= a.len(),
    ensures
        split_from(a.push(c) + b, seq![c], start) == split_from(a, seq![c], start) + split(
            b,
            seq![c],
        ),
    decreases a.len() - start,
{
    let w = a.push(c) + b;
    lemma_found_char(a, c, start);
    match find_from(a, seq![c], start) {
        Some(i) => {
            lemma_find_is(w, c, start, i);
            lemma_split_sum(a, b, c, i + 1);
            assert(w.subrange(start, i) =~= a.subrange(start, i));
            assert(seq![a.subrange(start, i)] + (split_from(a, seq![c], i + 1) + split(
                b,
                seq![c],
            )) =~= split_from(a, seq![c], start) + split(b, seq![c]));
        },
        None => {
            lemma_find_is(w, c, start, a.len() as int);
            assert(w.skip(a.len() as int + 1) =~= b);
            lemma_split_behind(w, b, c, a.len() as int + 1, 0);
            assert(w.subrange(start, a.len() as int) =~= a.skip(start));
        },
    }
}

proof fn lemma_lines_jobs_sum(a: Seq<Seq<char>>, b: Seq<Seq<char>>)
    ensures
        lines_jobs(a + b) == lines_jobs(a) + lines_jobs(b),
    decreases b.len(),
{
    if b.len() == 0 {
        assert(a + b =~= a);
        assert(lines_jobs(a) + lines_jobs(b) =~= lines_jobs(a));
    } else {
        lemma_lines_jobs_sum(a, b.drop_last());
        assert((a + b).drop_last() =~= a + b.drop_last());
        assert(lines_jobs(a + b) =~= lines_jobs(a) + lines_jobs(b));
    }
}

/// The jobs of an answer are those of its lines, in their order: those of what stands before an end
/// of a line, and then those of what stands behind it.
pub proof fn law_answers_are_read_line_by_line(a: Seq<char>, b: Seq<char>)
    ensures
        acct_jobs(a.push('\n') + b) == acct_jobs(a) + acct_jobs(b),
        !a.contains('\n') && line_job(a) is None ==> acct_jobs(a).len() == 0,
        !a.contains('\n') && line_job(a) is Some ==> acct_jobs(a) == seq![line_job(a)->0],
{
    reveal_strlit("\n");
    assert("\n"@ =~= seq!['\n']);
    lemma_split_sum(a, b, '\n', 0);
    lemma_lines_jobs_sum(split(a, seq!['\n']), split(b, seq!['\n']));
    if !a.contains('\n') {
        assert forall|k: int| 0 <= k < a.len() implies a[k] != '\n' by {
            assert(a.contains(a[k]));
        }
        lemma_find_none(a, '\n', 0);
        assert(a.skip(0) =~= a);
        let one = seq![a];
        assert(split(a, seq!['\n']) =~= one);
        assert(one.drop_last() =~= Seq::empty());
        assert(lines_jobs(one.drop_last()) =~= Seq::empty());
        assert(one.last() == a);
        if let Some(job) = line_job(a) {
            assert(lines_jobs(one) =~= seq![job]);
        }
    }
}

/// The fields are asked for in the order in which a record is read, with the separator between
/// them at which it is cut.
pub proof fn law_what_records_are_asked_for()
    ensures
        separator() == "###turm###"@,
        field_names() == "jobid,jobname,state,user,"@ + "Elapsed,AllocTRES,Partition,NodeList,"@
            + "SubmitLine,Reason,WorkDir,StdOut,StdErr"@,
{
    reveal_strlit("jobid,jobname,state,user,");
    reveal_strlit("Elapsed,AllocTRES,Partition,NodeList,");
    reveal_strlit("SubmitLine,Reason,WorkDir,StdOut,StdErr");
    reveal_strlit(
        "jobid,jobname,state,user,Elapsed,AllocTRES,Partition,NodeList,SubmitLine,Reason,WorkDir,StdOut,StdErr",
    );
}

// ---------------------------------------------------------------------------------------------
// Arguments
// ---------------------------------------------------------------------------------------------
proof fn lemma_begins(prefix: Seq<char>, rest: Seq<char>)
    ensures
        starts_with(prefix + rest, prefix),
        (prefix + rest).skip(prefix.len() as int) == rest,
{
    assert((prefix + rest).subrange(0, prefix.len() as int) =~= prefix);
    assert((prefix + rest).skip(prefix.len() as int) =~= rest);
}

/// The flags that have another name, whatever their value is.
pub proof fn law_flags_with_another_name(value: Seq<char>)
    ensures
        sacct_arg("--job="@ + value) == Some("--jobs="@ + value),
        sacct_arg("--states="@ + value) == Some("--state="@ + value),
{
    reveal_strlit("--job=");
    reveal_strlit("--states=");
    lemma_begins("--job="@, value);
    lemma_begins("--states="@, value);
    let arg = "--states="@ + value;
    if starts_with(arg, "--job="@) {
        assert(arg.subrange(0, 6)[2] == 'j');
        assert(arg[2] == 's');
    }
}

/// The flags that have no counterpart, whatever their value is, are dropped.
pub proof fn law_flags_without_a_counterpart(value: Seq<char>)
    ensures
        sacct_arg("--all"@) is None,
        sacct_arg("--hide"@) is None,
        sacct_arg("--me"@) is None,
        sacct_arg("--sibling"@) is None,
        sacct_arg("--licenses="@ + value) is None,
        sacct_arg("--reservation="@ + value) is None,
        sacct_arg("--step="@ + value) is None,
        sacct_arg("--sort="@ + value) is None,
{
    reveal_strlit("--job=");
    reveal_strlit("--states=");
    reveal_strlit("--all");
    reveal_strlit("--hide");
    reveal_strlit("--me");
    reveal_strlit("--sibling");
    reveal_strlit("--licenses=");
    reveal_strlit("--reservation=");
    reveal_strlit("--step=");
    reveal_strlit("--sort=");
    lemma_begins("--licenses="@, value);
    lemma_begins("--reservation="@, value);
    lemma_begins("--step="@, value);
    lemma_begins("--sort="@, value);
    lemma_not_renamed("--all"@);
    lemma_not_renamed("--hide"@);
    lemma_not_renamed("--me"@);
    lemma_not_renamed("--sibling"@);
    lemma_not_renamed("--licenses="@ + value);
    lemma_not_renamed("--reservation="@ + value);
    lemma_not_renamed("--step="@ + value);
    lemma_not_renamed("--sort="@ + value);
}

proof fn lemma_not_renamed(arg: Seq<char>)
    requires
        arg.len() >= 4,
        arg[2] != 'j',
        arg[2] != 's' || arg[3] != 't' || arg[4] != 'a',
    ensures
        !starts_with(arg, "--job="@),
        !starts_with(arg, "--states="@),
{
    reveal_strlit("--job=");
    reveal_strlit("--states=");
    if starts_with(arg, "--job="@) {
        assert(arg.subrange(0, 6)[2] == 'j');
    }
    if starts_with(arg, "--states="@) {
        assert(arg.subrange(0, 9)[2] == 's');
        assert(arg.subrange(0, 9)[3] == 't');
        assert(arg.subrange(0, 9)[4] == 'a');
    }
}

/// Every other argument is kept as it is.
pub proof fn law_other_arguments_are_kept(arg: Seq<char>)
    requires
        forall|value: Seq<char>| arg != #[trigger] ("--job="@ + value),
        forall|value: Seq<char>| arg != #[trigger] ("--states="@ + value),
        forall|value: Seq<char>| arg != #[trigger] ("--licenses="@ + value),
        forall|value: Seq<char>| arg != #[trigger] ("--reservation="@ + value),
        forall|value: Seq<char>| arg != #[trigger] ("--step="@ + value),
        forall|value: Seq<char>| arg != #[trigger] ("--sort="@ + value),
        arg != "--all"@,
        arg != "--hide"@,
        arg != "--me"@,
        arg != "--sibling"@,
    ensures
        sacct_arg(arg) == Some(arg),
{
    lemma_rest(arg, "--job="@);
    lemma_rest(arg, "--states="@);
    lemma_rest(arg, "--licenses="@);
    lemma_rest(arg, "--reservation="@);
    lemma_rest(arg, "--step="@);
    lemma_rest(arg, "--sort="@);
}

proof fn lemma_rest(arg: Seq<char>, prefix: Seq<char>)
    ensures
        starts_with(arg, prefix) ==> arg == prefix + arg.skip(prefix.len() as int),
{
    if starts_with(arg, prefix) {
        assert(arg =~= arg.subrange(0, prefix.len() as int) + arg.skip(prefix.len() as int));
    }
}

/// Arguments are taken one by one, in their order.
pub proof fn law_arguments_are_taken_one_by_one(a: Seq<Seq<char>>, b: Seq<Seq<char>>)
    ensures
        sacct_args(a + b) == sacct_args(a) + sacct_args(b),
        a.len() == 0 ==> sacct_args(a).len() == 0,
        a.len() == 1 ==> match sacct_arg(a[0]) {
            Some(arg) => sacct_args(a) == seq![arg],
            None => sacct_args(a).len() == 0,
        },
    decreases b.len(),
{
    if b.len() == 0 {
        assert(a + b =~= a);
        assert(sacct_args(a) + sacct_args(b) =~= sacct_args(a));
    } else {
        law_arguments_are_taken_one_by_one(a, b.drop_last());
        assert((a + b).drop_last() =~= a + b.drop_last());
        assert(sacct_args(a + b) =~= sacct_args(a) + sacct_args(b));
    }
    if a.len() == 1 {
        assert(sacct_args(a.drop_last()) =~= Seq::empty());
        assert(a.last() == a[0]);
        if let Some(arg) = sacct_arg(a[0]) {
            assert(sacct_args(a) =~= seq![arg]);
        }
    }
}

// ---------------------------------------------------------------------------------------------
// Commands
// ---------------------------------------------------------------------------------------------
/// What is run to cancel a job, to send it a signal, and to set its time limit.
pub proof fn law_what_is_run(id: Seq<char>, signal: Seq<char>, limit: Seq<char>)
    ensures
        scancel(id, None).program == "scancel"@ && scancel(id, None).args == seq![id],
        scancel(id, Some(signal)).program == "scancel"@ && scancel(id, Some(signal)).args
            == seq!["--signal"@, signal, id],
        scontrol_update_timelimit(id, limit).program == "scontrol"@,
        scontrol_update_timelimit(id, limit).args == seq![
            "update"@,
            "JobId="@ + id,
            "TimeLimit="@ + limit,
        ],
{
}

/// What is told of a command that failed: the exit code in a line of its own, and then what it
/// printed, each stream without the white space at its end. Where both printed something each has
/// its name in front; where neither did, that is told.
pub proof fn law_what_is_told_of_a_failure(
    code: Option<i32>,
    stdout: Seq<char>,
    stderr: Seq<char>,
)
    ensures
        ({
            let head = match code {
                Some(n) => if n < 0 {
                    "Exit code: "@ + (seq!['-'] + decimal((-(n as int)) as nat))
                } else {
                    "Exit code: "@ + decimal(n as nat)
                },
                None => "Exit code: N/A"@,
            };
            let out = trim_end(stdout);
            let err = trim_end(stderr);
            let told = failure_text(code, stdout, stderr);
            &&& out.len() > 0 && err.len() > 0 ==> told == head + "\n\n"@ + ("stdout:\n"@ + out)
                + "\n\n"@ + ("stderr:\n"@ + err)
            &&& out.len() > 0 && err.len() == 0 ==> told == head + "\n\n"@ + out
            &&& out.len() == 0 && err.len() > 0 ==> told == head + "\n\n"@ + err
            &&& out.len() == 0 && err.len() == 0 ==> told == head + "\n\n"@ + "No output."@
        }),
{
    let sep = "\n\n"@;
    let head = seq![exit_line(code)];
    let parts = output_parts(stdout, stderr);
    law_joining_lists(head, parts, sep);
    if parts.len() == 1 {
        law_joining_lists(parts, parts, sep);
    } else {
        let first = seq![parts[0]];
        let second = seq![parts[1]];
        law_joining_lists(first, second, sep);
        law_joining_lists(second, second, sep);
        assert(parts =~= first + second);
        assert(join(head, sep) + sep + (parts[0] + sep + parts[1]) =~= join(head, sep) + sep
            + parts[0] + sep + parts[1]);
    }
}

} // verus!
