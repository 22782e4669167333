//! Reading what host commands print: the identifier that `docker ps -q`
//! prints, and the process ids of the container-spawning script in the
//! output of `ps aux`.

use vstd::prelude::*;
use crate::text::{contains_text, fields, lemma_split_lines_nonempty, range_contains, range_field, split_lines, trim, trim_range};

verus! {

/// The name of the script that keeps spawning containers, as it shows in the
/// command column of `ps aux`.
pub open spec fn cron_marker() -> Seq<char> {
    seq!['p', 'r', 'o', 'j', 'e', 'c', 't', '.', 's', 'h']
}

fn cron_marker_chars() -> (v: Vec<char>)
    ensures
        v@ == cron_marker(),
{
    let mut v: Vec<char> = Vec::new();
    v.push('p');
    v.push('r');
    v.push('o');
    v.push('j');
    v.push('e');
    v.push('c');
    v.push('t');
    v.push('.');
    v.push('s');
    v.push('h');
    assert(v@ =~= cron_marker());
    v
}

/// The second field of every line that mentions the script, in order.
pub open spec fn pids_of_lines(lines: Seq<Seq<char>>) -> Seq<Seq<char>>
    decreases lines.len(),
{
    if lines.len() == 0 {
        Seq::<Seq<char>>::empty()
    } else {
        let prev = pids_of_lines(lines.drop_last());
        if contains_text(lines.last(), cron_marker()) {
            prev.push(fields(lines.last())[1])
        } else {
            prev
        }
    }
}

/// The process ids that the cleanup kills: the second field (the PID column
/// of `ps aux`) of each line of the output that mentions the script.
pub open spec fn cron_pids(ps_output: Seq<char>) -> Seq<Seq<char>> {
    pids_of_lines(split_lines(ps_output))
}

/// Every line that mentions the script has a second field.
pub open spec fn cron_lines_have_pid(ps_output: Seq<char>) -> bool {
    forall|k: int|
        0 <= k < split_lines(ps_output).len() && contains_text(
            #[trigger] split_lines(ps_output)[k],
            cron_marker(),
        ) ==> fields(split_lines(ps_output)[k]).len() >= 2
}

/// The bounds of the lines of `s`, newline characters excluded.
pub fn line_ranges(s: &Vec<char>) -> (r: Vec<(usize, usize)>)
    ensures
        r@.len() == split_lines(s@).len(),
        forall|k: int|
            0 <= k < r@.len() ==> (#[trigger] r@[k]).0 <= r@[k].1 <= s@.len() && s@.subrange(
                r@[k].0 as int,
                r@[k].1 as int,
            ) == split_lines(s@)[k],
{
    let n = s.len();
    let mut r: Vec<(usize, usize)> = Vec::new();
    let mut start: usize = 0;
    let mut i: usize = 0;
    while i < n
        invariant
            n == s@.len(),
            start <= i <= n,
            split_lines(s@.take(i as int)).len() == r@.len() + 1,
            split_lines(s@.take(i as int)).last() == s@.subrange(start as int, i as int),
            forall|k: int|
                0 <= k < r@.len() ==> (#[trigger] r@[k]).0 <= r@[k].1 <= n && s@.subrange(
                    r@[k].0 as int,
                    r@[k].1 as int,
                ) == split_lines(s@.take(i as int))[k],
        decreases n - i,
    {
        let ghost t = s@.take(i as int + 1);
        assert(t.drop_last() =~= s@.take(i as int));
        assert(t.last() == s@[i as int]);
        proof {
            lemma_split_lines_nonempty(s@.take(i as int));
        }
        if s[i] == '\n' {
            r.push((start, i));
            start = i + 1;
        } else {
            assert(s@.subrange(start as int, i + 1) =~= s@.subrange(start as int, i as int).push(
                s@[i as int],
            ));
        }
        i = i + 1;
    }
    r.push((start, n));
    assert(s@.take(n as int) =~= s@);
    r
}

/// The process ids of the script in the output of `ps aux`: for each line
/// that mentions `project.sh`, its second whitespace-separated field.
pub fn cron_job_pids(ps_output: &Vec<char>) -> (pids: Vec<String>)
    requires
        cron_lines_have_pid(ps_output@),
    ensures
        pids@.map_values(|p: String| p@) == cron_pids(ps_output@),
        pids@.len() == split_lines(ps_output@).filter(
            |l: Seq<char>| contains_text(l, "project.sh"@),
        ).len(),
{
    proof {
        lemma_cron_marker_is_script_name();
        lemma_pids_one_per_script_line(split_lines(ps_output@));
    }
    let ghost lines = split_lines(ps_output@);
    let ranges = line_ranges(ps_output);
    let marker = cron_marker_chars();
    let mut pids: Vec<String> = Vec::new();
    let mut k: usize = 0;
    while k < ranges.len()
        invariant
            lines == split_lines(ps_output@),
            cron_lines_have_pid(ps_output@),
            marker@ == cron_marker(),
            ranges@.len() == lines.len(),
            forall|j: int|
                0 <= j < ranges@.len() ==> (#[trigger] ranges@[j]).0 <= ranges@[j].1
                    <= ps_output@.len() && ps_output@.subrange(
                    ranges@[j].0 as int,
                    ranges@[j].1 as int,
                ) == lines[j],
            k <= ranges@.len(),
            pids@.map_values(|p: String| p@) == pids_of_lines(lines.take(k as int)),
        decreases ranges@.len() - k,
    {
        let (a, b) = ranges[k];
        let ghost line = lines[k as int];
        assert(ranges@[k as int].0 == a && ranges@[k as int].1 == b);
        assert(lines.take(k as int + 1).drop_last() =~= lines.take(k as int));
        assert(lines.take(k as int + 1).last() == line);
        if range_contains(ps_output, a, b, &marker) {
            assert(fields(line).len() >= 2);
            let field = range_field(ps_output, a, b, 1);
            let pid = field.unwrap();
            let ghost before = pids@;
            pids.push(pid);
            assert(pids@.map_values(|p: String| p@) =~= before.map_values(|p: String| p@).push(
                pid@,
            ));
        }
        k = k + 1;
    }
    assert(lines.take(ranges@.len() as int) =~= lines);
    pids
}

/// The container identifier that `docker ps -q` printed: its output with the
/// surrounding whitespace removed.
pub fn container_id_from_ps(ps_stdout: &Vec<char>) -> (id: String)
    ensures
        id@ == trim(ps_stdout@),
{
    assert(ps_stdout@.subrange(0, ps_stdout@.len() as int) =~= ps_stdout@);
    trim_range(ps_stdout, 0, ps_stdout.len())
}

/// The marker searched for is exactly the script's name, `project.sh`.
pub proof fn lemma_cron_marker_is_script_name()
    ensures
        cron_marker() == "project.sh"@,
{
    reveal_strlit("project.sh");
    assert(cron_marker() =~= "project.sh"@);
}

/// Each line that contains the text `project.sh` gives one process id, and
/// no other line gives any.
pub proof fn lemma_pids_one_per_script_line(lines: Seq<Seq<char>>)
    ensures
        pids_of_lines(lines).len() == lines.filter(
            |l: Seq<char>| contains_text(l, "project.sh"@),
        ).len(),
    decreases lines.len(),
{
    lemma_cron_marker_is_script_name();
    let pred = |l: Seq<char>| contains_text(l, "project.sh"@);
    if lines.len() > 0 {
        let rest = lines.drop_last();
        lemma_pids_one_per_script_line(rest);
        assert(rest.push(lines.last()) =~= lines);
        rest.lemma_filter_push(lines.last(), pred);
    } else {
        reveal(Seq::filter);
    }
}

/// A `ps aux` output in which no line contains `project.sh` yields no
/// process id: nothing is killed.
pub proof fn lemma_no_script_no_pids(ps_output: Seq<char>)
    requires
        forall|k: int|
            0 <= k < split_lines(ps_output).len() ==> !contains_text(
                #[trigger] split_lines(ps_output)[k],
                "project.sh"@,
            ),
    ensures
        cron_pids(ps_output).len() == 0,
{
    let lines = split_lines(ps_output);
    let pred = |l: Seq<char>| contains_text(l, "project.sh"@);
    lemma_pids_one_per_script_line(lines);
    lines.lemma_all_neg_filter_empty(pred);
}

} // verus!
