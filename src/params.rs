//! Path-pattern parsing.
use vstd::prelude::*;

verus! {

/// State of the left-to-right scan of a path pattern: whether a `{...}`
/// placeholder is open, the name read so far inside it, and the names
/// completed so far.
pub open spec fn scan_pattern(s: Seq<char>) -> (bool, Seq<char>, Seq<Seq<char>>)
    decreases s.len(),
{
    if s.len() == 0 {
        (false, Seq::empty(), Seq::empty())
    } else {
        let (open, cur, names) = scan_pattern(s.drop_last());
        let c = s.last();
        if c == '{' {
            (true, Seq::empty(), names)
        } else if c == '}' {
            (false, Seq::empty(), if open && cur.len() > 0 { names.push(cur) } else { names })
        } else if open {
            (true, cur.push(c), names)
        } else {
            (false, cur, names)
        }
    }
}

/// The placeholder names of a path pattern, in order: each non-empty run of
/// characters between a `{` and the next `}` with no other `{` in between.
pub open spec fn path_param_names(s: Seq<char>) -> Seq<Seq<char>> {
    scan_pattern(s).2
}

proof fn lemma_scan_closed_cur_empty(s: Seq<char>)
    ensures
        !scan_pattern(s).0 ==> scan_pattern(s).1.len() == 0,
    decreases s.len(),
{
    if s.len() > 0 {
        lemma_scan_closed_cur_empty(s.drop_last());
    }
}

/// Extracts the placeholder names of a route pattern such as
/// `/users/{user_id}/posts/{post_id}` (giving `user_id`, `post_id`).
pub fn extract_path_param_names(path: &str) -> (r: Vec<String>)
    ensures
        r@.map_values(|x: String| x@) == path_param_names(path@),
{
    let n = path.unicode_len();
    let mut params: Vec<String> = Vec::new();
    let mut in_param = false;
    let mut start: usize = 0;
    let mut i: usize = 0;
    while i < n
        invariant
            n == path@.len(),
            i <= n,
            start <= i,
            scan_pattern(path@.take(i as int)).0 == in_param,
            in_param ==> scan_pattern(path@.take(i as int)).1 == path@.subrange(start as int, i as int),
            scan_pattern(path@.take(i as int)).2 == params@.map_values(|x: String| x@),
        decreases n - i,
    {
        let c = path.get_char(i);
        let ghost pre = path@.take(i as int);
        assert(path@.take(i as int + 1).drop_last() == pre);
        assert(path@.take(i as int + 1).last() == c);
        proof {
            lemma_scan_closed_cur_empty(pre);
        }
        if c == '{' {
            in_param = true;
            start = i + 1;
        } else if c == '}' {
            if in_param && start < i {
                let name = String::from_str(path.substring_char(start, i));
                params.push(name);
                assert(params@.map_values(|x: String| x@) =~= scan_pattern(pre).2.push(
                    path@.subrange(start as int, i as int),
                ));
            }
            in_param = false;
        } else if in_param {
            assert(path@.subrange(start as int, i as int + 1) =~= path@.subrange(
                start as int,
                i as int,
            ).push(c));
        }
        i = i + 1;
    }
    assert(path@.take(n as int) =~= path@);
    params
}

} // verus!
