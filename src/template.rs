//! Naming templates: the placeholder token, how often it occurs, and
//! substituting a name for it.
use vstd::prelude::*;
use vstd::string::*;

verus! {

/// The token `{new_branch}`, which a naming template holds exactly once and a
/// hook argument may hold: it stands for the short name of a branch.
pub open spec fn placeholder() -> Seq<char> {
    seq!['{', 'n', 'e', 'w', '_', 'b', 'r', 'a', 'n', 'c', 'h', '}']
}

/// `p` occurs in `s` starting at position `i`.
pub open spec fn occurs_at(s: Seq<char>, p: Seq<char>, i: int) -> bool {
    0 <= i && i + p.len() <= s.len() && s.subrange(i, i + p.len()) == p
}

/// The number of positions at or after `from` where the placeholder starts.
pub open spec fn count_from(s: Seq<char>, from: int) -> nat
    decreases s.len() - from,
{
    if from < 0 || from >= s.len() {
        0
    } else {
        (if occurs_at(s, placeholder(), from) { 1nat } else { 0nat }) + count_from(s, from + 1)
    }
}

/// How many times the placeholder occurs in `s`.
pub open spec fn placeholder_count(s: Seq<char>) -> nat {
    count_from(s, 0)
}

/// The first position at or after `from` where the placeholder starts.
pub open spec fn first_from(s: Seq<char>, from: int) -> Option<int>
    decreases s.len() - from,
{
    if from < 0 || from >= s.len() {
        None
    } else if occurs_at(s, placeholder(), from) {
        Some(from)
    } else {
        first_from(s, from + 1)
    }
}

/// `s` with its first placeholder replaced by `v`; `s` itself when it has none.
pub open spec fn substituted(s: Seq<char>, v: Seq<char>) -> Seq<char> {
    match first_from(s, 0) {
        None => s,
        Some(k) => s.subrange(0, k) + v + s.subrange(k + placeholder().len(), s.len() as int),
    }
}

proof fn lemma_count_bound(s: Seq<char>, from: int)
    requires
        0 <= from <= s.len(),
    ensures
        count_from(s, from) <= s.len() - from,
    decreases s.len() - from,
{
    if from < s.len() {
        lemma_count_bound(s, from + 1);
    }
}

proof fn lemma_first_in_range(s: Seq<char>, from: int)
    requires
        0 <= from,
    ensures
        first_from(s, from) matches Some(k) ==> from <= k && occurs_at(s, placeholder(), k),
    decreases s.len() - from,
{
    if from < s.len() && !occurs_at(s, placeholder(), from) {
        lemma_first_in_range(s, from + 1);
    }
}

fn placeholder_chars() -> (r: Vec<char>)
    ensures
        r@ == placeholder(),
{
    let r = vec!['{', 'n', 'e', 'w', '_', 'b', 'r', 'a', 'n', 'c', 'h', '}'];
    assert(r@ =~= placeholder());
    r
}

/// The characters of `s`, in order.
pub fn chars_of(s: &str) -> (r: Vec<char>)
    ensures
        r@ == s@,
{
    let n = s.unicode_len();
    let mut r: Vec<char> = Vec::new();
    let mut i: usize = 0;
    while i < n
        invariant
            n == s@.len(),
            i <= n,
            r@ == s@.subrange(0, i as int),
        decreases n - i,
    {
        r.push(s.get_char(i));
        i = i + 1;
        assert(r@ =~= s@.subrange(0, i as int));
    }
    assert(r@ =~= s@);
    r
}

fn placeholder_at(cs: &Vec<char>, ph: &Vec<char>, i: usize) -> (r: bool)
    requires
        ph@ == placeholder(),
    ensures
        r == occurs_at(cs@, placeholder(), i as int),
{
    let m = ph.len();
    let len = cs.len();
    if i > len || m > len - i {
        return false;
    }
    let mut j: usize = 0;
    while j < m
        invariant
            ph@ == placeholder(),
            m == ph@.len(),
            len == cs@.len(),
            i + m <= len,
            j <= m,
            forall|k: int| 0 <= k < j ==> cs@[i + k] == ph@[k],
        decreases m - j,
    {
        if cs[i + j] != ph[j] {
            assert(cs@.subrange(i as int, i + m)[j as int] != ph@[j as int]);
            return false;
        }
        j = j + 1;
    }
    assert(cs@.subrange(i as int, i + m) =~= ph@);
    true
}

/// How many times the placeholder occurs in `s`.
pub fn count_placeholders(s: &str) -> (n: usize)
    ensures
        n == placeholder_count(s@),
{
    let cs = chars_of(s);
    let ph = placeholder_chars();
    let len = cs.len();
    let mut i: usize = len;
    let mut n: usize = 0;
    proof {
        lemma_count_bound(cs@, i as int);
    }
    while i > 0
        invariant
            cs@ == s@,
            ph@ == placeholder(),
            len == cs@.len(),
            i <= len,
            n == count_from(cs@, i as int),
            n <= cs@.len() - i,
        decreases i,
    {
        i = i - 1;
        if placeholder_at(&cs, &ph, i) {
            n = n + 1;
        }
        proof {
            lemma_count_bound(cs@, i as int);
        }
    }
    n
}

fn find_placeholder(cs: &Vec<char>, ph: &Vec<char>) -> (r: Option<usize>)
    requires
        ph@ == placeholder(),
    ensures
        r matches Some(k) ==> first_from(cs@, 0) == Some(k as int),
        r is None ==> first_from(cs@, 0) is None,
{
    let mut i: usize = 0;
    while i < cs.len()
        invariant
            i <= cs@.len(),
            ph@ == placeholder(),
            first_from(cs@, 0) == first_from(cs@, i as int),
        decreases cs@.len() - i,
    {
        if placeholder_at(cs, ph, i) {
            return Some(i);
        }
        i = i + 1;
    }
    None
}

/// `template` with its first placeholder replaced by `value`.
pub fn substitute(template: &str, value: &str) -> (r: String)
    ensures
        r@ == substituted(template@, value@),
{
    let cs = chars_of(template);
    let ph = placeholder_chars();
    let len = cs.len();
    match find_placeholder(&cs, &ph) {
        None => String::from_str(template),
        Some(k) => {
            proof {
                lemma_first_in_range(cs@, 0);
                assert(placeholder().len() == 12);
            }
            let mut r = String::from_str(template.substring_char(0, k));
            r.append(value);
            r.append(template.substring_char(k + 12, len));
            r
        },
    }
}

} // verus!
