//! Reading what the version-control tool prints.
use vstd::prelude::*;
use vstd::string::*;
use crate::config::strs;
use crate::pattern::{pattern_search, regex_compiles, regex_finds, regex_group};
use crate::sync::{blank, is_blank};
use crate::template::chars_of;

verus! {

/// `s` cut at every line break, as `str::split('\n')` cuts it.
pub open spec fn split_lines(s: Seq<char>) -> Seq<Seq<char>>
    decreases s.len(),
{
    if s.len() == 0 {
        seq![seq![]]
    } else {
        let prev = split_lines(s.drop_last());
        if s.last() == '\n' {
            prev.push(seq![])
        } else {
            prev.update(prev.len() - 1, prev.last().push(s.last()))
        }
    }
}

proof fn lemma_split_nonempty(s: Seq<char>)
    ensures
        split_lines(s).len() >= 1,
    decreases s.len(),
{
    if s.len() > 0 {
        lemma_split_nonempty(s.drop_last());
    }
}

/// The lines of `ls` that are not empty, in order.
pub open spec fn nonempty(ls: Seq<Seq<char>>) -> Seq<Seq<char>>
    decreases ls.len(),
{
    if ls.len() == 0 {
        seq![]
    } else if ls.last().len() == 0 {
        nonempty(ls.drop_last())
    } else {
        nonempty(ls.drop_last()).push(ls.last())
    }
}

/// The pieces of `out` between line breaks.
pub fn split_text(out: &str) -> (r: Vec<String>)
    ensures
        strs(r@) == split_lines(out@),
{
    let cs = chars_of(out);
    let len = cs.len();
    let mut done: Vec<String> = Vec::new();
    let mut start: usize = 0;
    let mut i: usize = 0;
    assert(out@.subrange(0, 0) =~= Seq::<char>::empty());
    assert(strs(done@).push(out@.subrange(0, 0)) =~= seq![Seq::<char>::empty()]);
    while i < len
        invariant
            cs@ == out@,
            len == cs@.len(),
            start <= i <= len,
            split_lines(out@.subrange(0, i as int)) == strs(done@).push(
                out@.subrange(start as int, i as int),
            ),
        decreases len - i,
    {
        let ghost pre = out@.subrange(0, i as int);
        let ghost cur = out@.subrange(start as int, i as int);
        assert(out@.subrange(0, i + 1).drop_last() =~= pre);
        if cs[i] == '\n' {
            let piece = out.substring_char(start, i);
            let ghost before = done@;
            done.push(String::from_str(piece));
            start = i + 1;
            assert(strs(done@) =~= strs(before).push(cur));
            assert(out@.subrange(start as int, i + 1) =~= seq![]);
        } else {
            assert(out@.subrange(start as int, i + 1) =~= cur.push(cs@[i as int]));
            assert(strs(done@).push(cur).update(strs(done@).len() as int, cur.push(cs@[i as int]))
                =~= strs(done@).push(cur.push(cs@[i as int])));
        }
        i = i + 1;
    }
    assert(out@.subrange(0, len as int) =~= out@);
    done.push(String::from_str(out.substring_char(start, len)));
    proof {
        let ghost d = done@;
        assert(strs(d) =~= strs(d.drop_last()).push(out@.subrange(start as int, len as int)));
    }
    done
}

/// The lines of `ls` that are not empty.
fn keep_nonempty(ls: &Vec<String>) -> (r: Vec<String>)
    ensures
        strs(r@) == nonempty(strs(ls@)),
{
    let mut r: Vec<String> = Vec::new();
    let mut i: usize = 0;
    while i < ls.len()
        invariant
            i <= ls@.len(),
            strs(r@) == nonempty(strs(ls@.subrange(0, i as int))),
        decreases ls@.len() - i,
    {
        let ghost sub = strs(ls@.subrange(0, i + 1));
        assert(sub.drop_last() =~= strs(ls@.subrange(0, i as int)));
        assert(sub.last() == ls@[i as int]@);
        if ls[i].unicode_len() > 0 {
            let ghost before = r@;
            r.push(ls[i].clone());
            assert(strs(r@) =~= strs(before).push(ls@[i as int]@));
        }
        i = i + 1;
    }
    assert(ls@.subrange(0, ls@.len() as int) =~= ls@);
    r
}

/// Reads what git prints.
pub struct Git {}

impl Git {
    /// The lines of `out` that are not empty: the commits that `git log`
    /// listed, the remotes that `git remote` listed.
    pub fn lines(out: &str) -> (r: Vec<String>)
        ensures
            strs(r@) == nonempty(split_lines(out@)),
    {
        let all = split_text(out);
        keep_nonempty(&all)
    }

    /// The local branches that `git branch` printed as `out`.
    pub fn get_local_branches(out: &str) -> (r: Vec<String>)
        ensures
            strs(r@) == nonempty(split_lines(out@)).map_values(|l: Seq<char>| branch_of_line(l)),
    {
        let lines = Git::lines(out);
        let ghost ls = strs(lines@);
        let mut r: Vec<String> = Vec::new();
        let mut i: usize = 0;
        while i < lines.len()
            invariant
                ls == strs(lines@),
                i <= lines@.len(),
                strs(r@) == ls.subrange(0, i as int).map_values(|l: Seq<char>| branch_of_line(l)),
            decreases lines@.len() - i,
        {
            let b = clean_branch(lines[i].as_str());
            let ghost before = r@;
            r.push(b);
            assert(strs(r@) =~= strs(before).push(b@));
            assert(ls.subrange(0, i + 1).map_values(|l: Seq<char>| branch_of_line(l)) =~= ls.subrange(
                0,
                i as int,
            ).map_values(|l: Seq<char>| branch_of_line(l)).push(branch_of_line(ls[i as int])));
            i = i + 1;
        }
        assert(ls.subrange(0, ls.len() as int) =~= ls);
        r
    }

    /// The branches of remote `repo`, without its prefix, that
    /// `git branch -r` printed as `out`. The first line, where the remote's
    /// default branch is shown, is passed over.
    pub fn get_remote_branches(out: &str, repo: &str) -> (r: Vec<String>)
        ensures
            strs(r@) == remote_names(nonempty(split_lines(out@).drop_first()), repo@),
    {
        let all = split_text(out);
        proof {
            lemma_split_nonempty(out@);
        }
        let mut rest: Vec<String> = Vec::new();
        let mut k: usize = 1;
        while k < all.len()
            invariant
                1 <= k <= all@.len(),
                strs(rest@) == strs(all@).subrange(1, k as int),
            decreases all@.len() - k,
        {
            let ghost before = rest@;
            rest.push(all[k].clone());
            assert(strs(rest@) =~= strs(before).push(all@[k as int]@));
            assert(strs(all@).subrange(1, k + 1) =~= strs(all@).subrange(1, k as int).push(
                all@[k as int]@,
            ));
            k = k + 1;
        }
        assert(strs(all@).subrange(1, all@.len() as int) =~= split_lines(out@).drop_first());
        let lines = keep_nonempty(&rest);
        let word_pattern = String::from_str("(\\S+/\\S+)");
        let mut name_pattern = String::from_str(repo);
        name_pattern.append("/(\\S+)");
        let ghost ls = strs(lines@);
        let mut r: Vec<String> = Vec::new();
        let mut i: usize = 0;
        while i < lines.len()
            invariant
                ls == strs(lines@),
                word_pattern@ == tracking_pattern(),
                name_pattern@ == repo_pattern(repo@),
                i <= lines@.len(),
                strs(r@) == remote_names(ls.subrange(0, i as int), repo@),
            decreases lines@.len() - i,
        {
            let ghost sub = ls.subrange(0, i + 1);
            assert(sub.drop_last() =~= ls.subrange(0, i as int));
            assert(sub.last() == lines@[i as int]@);
            match pattern_search(word_pattern.as_str(), lines[i].as_str()) {
                Some(Some(word)) => match pattern_search(name_pattern.as_str(), word.as_str()) {
                    Some(Some(name)) => {
                        let ghost before = r@;
                        r.push(name);
                        assert(strs(r@) =~= strs(before).push(name@));
                    },
                    _ => {},
                },
                _ => {},
            }
            i = i + 1;
        }
        assert(ls.subrange(0, ls.len() as int) =~= ls);
        r
    }
}

/// A line of the local branch list without the current-branch marker and
/// the indentation: `line[lo..hi]`.
pub open spec fn branch_bounds(line: Seq<char>, lo: int, hi: int) -> bool {
    &&& 0 <= lo <= hi <= line.len()
    &&& forall|k: int| 0 <= k < lo ==> (is_blank(#[trigger] line[k]) || line[k] == '*')
    &&& lo < line.len() ==> !(is_blank(line[lo]) || line[lo] == '*')
    &&& forall|k: int| hi <= k < line.len() ==> is_blank(#[trigger] line[k])
    &&& lo < hi ==> !is_blank(line[hi - 1])
}

/// The branch name on one line of the local branch list.
pub open spec fn branch_of_line(line: Seq<char>) -> Seq<char> {
    let (lo, hi) = choose|lo: int, hi: int| branch_bounds(line, lo, hi);
    line.subrange(lo, hi)
}

fn clean_branch(line: &str) -> (r: String)
    ensures
        r@ == branch_of_line(line@),
{
    let cs = chars_of(line);
    let len = cs.len();
    let mut lo: usize = 0;
    while lo < len && (blank(cs[lo]) || cs[lo] == '*')
        invariant
            len == cs@.len(),
            lo <= len,
            forall|k: int| 0 <= k < lo ==> (is_blank(#[trigger] cs@[k]) || cs@[k] == '*'),
        decreases len - lo,
    {
        lo = lo + 1;
    }
    let mut hi: usize = len;
    while hi > lo && blank(cs[hi - 1])
        invariant
            len == cs@.len(),
            lo <= hi <= len,
            forall|k: int| hi <= k < len ==> is_blank(#[trigger] cs@[k]),
        decreases hi - lo,
    {
        hi = hi - 1;
    }
    assert(branch_bounds(line@, lo as int, hi as int));
    proof {
        let (a, b) = choose|a: int, b: int| branch_bounds(line@, a, b);
        lemma_branch_bounds_unique(line@, a, b, lo as int, hi as int);
    }
    String::from_str(line.substring_char(lo, hi))
}

proof fn lemma_branch_bounds_unique(line: Seq<char>, a: int, b: int, c: int, d: int)
    requires
        branch_bounds(line, a, b),
        branch_bounds(line, c, d),
    ensures
        a == c && b == d,
{
    if a < c {
        assert(!(is_blank(line[a]) || line[a] == '*'));
    }
    if c < a {
        assert(!(is_blank(line[c]) || line[c] == '*'));
    }
    if b < d {
        assert(is_blank(line[d - 1]));
    }
    if d < b {
        assert(is_blank(line[b - 1]));
    }
}


/// The pattern of a remote-tracking branch: a word with a slash in it.
pub open spec fn tracking_pattern() -> Seq<char> {
    "(\\S+/\\S+)"@
}

/// The pattern of a branch of remote `repo`.
pub open spec fn repo_pattern(repo: Seq<char>) -> Seq<char> {
    repo + "/(\\S+)"@
}

/// The branch of `repo` that a line of the remote branch list names, if any.
pub open spec fn remote_branch_of(line: Seq<char>, repo: Seq<char>) -> Option<Seq<char>> {
    if regex_compiles(tracking_pattern()) && regex_finds(tracking_pattern(), line) && regex_group(
        tracking_pattern(),
        line,
    ) is Some {
        let word = regex_group(tracking_pattern(), line)->0;
        if regex_compiles(repo_pattern(repo)) && regex_finds(repo_pattern(repo), word)
            && regex_group(repo_pattern(repo), word) is Some {
            regex_group(repo_pattern(repo), word)
        } else {
            None
        }
    } else {
        None
    }
}

/// The names, in order, that the lines of `ls` give for `repo`.
pub open spec fn remote_names(ls: Seq<Seq<char>>, repo: Seq<char>) -> Seq<Seq<char>>
    decreases ls.len(),
{
    if ls.len() == 0 {
        seq![]
    } else {
        let rest = remote_names(ls.drop_last(), repo);
        match remote_branch_of(ls.last(), repo) {
            Some(n) => rest.push(n),
            None => rest,
        }
    }
}


} // verus!
