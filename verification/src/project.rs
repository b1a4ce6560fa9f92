//! Project identifiers from the address of a git remote.

use vstd::prelude::*;
use crate::text::blank;
use crate::text::chars_of;
use crate::text::is_blank;
use crate::text::find_from;
use crate::text::first_match;
use crate::text::lemma_first_match;
use crate::text::matches_at;
use crate::text::slice_of;
use crate::text::string_of;
use crate::text::trim;
use crate::text::trim_bounds;
use crate::text::trimmed;

verus! {

/// The project that a given name stands for: the name trimmed, and none
/// where the name is blank.
pub fn named_project(name: &str) -> (r: Option<String>)
    ensures
        is_blank(name@) <==> r is None,
        r matches Some(project) ==> project@ == trim(name@),
{
    if blank(&chars_of(name)) {
        None
    } else {
        Some(trimmed(name))
    }
}

/// `s` without every repetition of `suffix` at its end.
pub open spec fn strip_suffix_all(s: Seq<char>, suffix: Seq<char>) -> Seq<char>
    decreases s.len(),
{
    if 0 < suffix.len() <= s.len() && s.skip(s.len() - suffix.len()) == suffix {
        strip_suffix_all(s.take(s.len() - suffix.len()), suffix)
    } else {
        s
    }
}

/// The index of the last `c` in `s`, or -1 where there is none.
pub open spec fn last_index_of(s: Seq<char>, c: char) -> int
    decreases s.len(),
{
    if s.len() == 0 {
        -1
    } else if s.last() == c {
        s.len() - 1
    } else {
        last_index_of(s.drop_last(), c)
    }
}

/// The index of the first `c` in `s`, or -1 where there is none.
pub open spec fn first_index_of(s: Seq<char>, c: char) -> int {
    first_match(s, seq![c], 0)
}

/// What follows the first `sep` in `s`, up to the next `sep`; nothing where
/// `s` does not hold `sep`.
pub open spec fn second_part(s: Seq<char>, sep: Seq<char>) -> Option<Seq<char>> {
    let at = first_match(s, sep, 0);
    if at < 0 {
        None
    } else {
        let rest = s.skip(at + sep.len());
        let end = first_match(rest, sep, 0);
        Some(
            if end < 0 {
                rest
            } else {
                rest.take(end)
            },
        )
    }
}

/// The last two segments of a path with at least three segments, joined by
/// the slash between them; nothing for a path with fewer.
pub open spec fn last_two_segments(path: Seq<char>) -> Option<Seq<char>> {
    let last = last_index_of(path, '/');
    if last < 0 {
        None
    } else {
        let before = last_index_of(path.take(last), '/');
        if before < 0 {
            None
        } else {
            Some(path.skip(before + 1))
        }
    }
}

/// The project that a remote address names, as `owner/repo` where the
/// address has that shape.
///
/// The address is trimmed and loses every `.git` at its end. After `git@`
/// the project is what follows the first colon. After `://` it is the last
/// two segments of what follows, if there are at least three segments. In
/// every other case it is the address itself.
pub open spec fn project_of_remote(url: Seq<char>) -> Seq<char> {
    let u = strip_suffix_all(trim(url), ".git"@);
    let prefix = "git@"@;
    let after_user = u.skip(prefix.len() as int);
    if prefix.len() <= u.len() && u.take(prefix.len() as int) == prefix && first_index_of(
        after_user,
        ':',
    ) >= 0 {
        after_user.skip(first_index_of(after_user, ':') + 1)
    } else {
        match second_part(u, "://"@) {
            Some(rest) => match last_two_segments(rest) {
                Some(project) => project,
                None => u,
            },
            None => u,
        }
    }
}

/// The index of the last `c` in the first `end` characters of `s`.
fn rfind_char(s: &Vec<char>, end: usize, c: char) -> (r: Option<usize>)
    requires
        end <= s@.len(),
    ensures
        match r {
            Some(i) => last_index_of(s@.take(end as int), c) == i && i < end,
            None => last_index_of(s@.take(end as int), c) == -1,
        },
{
    let mut i: usize = end;
    while i > 0
        invariant
            i <= end <= s@.len(),
            last_index_of(s@.take(end as int), c) == last_index_of(s@.take(i as int), c),
        decreases i,
    {
        assert(s@.take(i as int).last() == s@[i - 1]);
        assert(s@.take(i as int).drop_last() =~= s@.take(i - 1));
        if s[i - 1] == c {
            return Some(i - 1);
        }
        i -= 1;
    }
    None
}

/// Cuts every `suffix` off the end of the first `end` characters of `s`.
fn strip_end(s: &Vec<char>, suffix: &Vec<char>) -> (end: usize)
    ensures
        end <= s@.len(),
        s@.take(end as int) == strip_suffix_all(s@, suffix@),
{
    let mut end: usize = s.len();
    assert(s@.take(end as int) =~= s@);
    while suffix.len() > 0 && suffix.len() <= end && matches_at(s, suffix, end - suffix.len())
        invariant
            end <= s@.len(),
            strip_suffix_all(s@, suffix@) == strip_suffix_all(s@.take(end as int), suffix@),
        decreases end,
    {
        let ghost cur = s@.take(end as int);
        assert(cur.skip(cur.len() - suffix@.len()) =~= s@.subrange(
            end - suffix@.len(),
            end as int,
        ));
        assert(cur.take(cur.len() - suffix@.len()) =~= s@.take(end - suffix@.len()));
        end -= suffix.len();
    }
    proof {
        let cur = s@.take(end as int);
        if 0 < suffix@.len() <= end {
            assert(cur.skip(cur.len() - suffix@.len()) =~= s@.subrange(
                end - suffix@.len(),
                end as int,
            ));
        }
    }
    end
}

/// Parses the address of a git remote to `owner/repo` form.
pub fn parse_git_remote(url: &str) -> (r: String)
    ensures
        r@ == project_of_remote(url@),
{
    let all = chars_of(url);
    let (lo, hi) = trim_bounds(&all);
    let trimmed = slice_of(&all, lo, hi);
    let suffix = chars_of(".git");
    let end = strip_end(&trimmed, &suffix);
    let u = slice_of(&trimmed, 0, end);
    assert(u@ == strip_suffix_all(trim(url@), ".git"@));

    let prefix = chars_of("git@");
    if prefix.len() <= u.len() && matches_at(&u, &prefix, 0) {
        let after_user = slice_of(&u, prefix.len(), u.len());
        assert(after_user@ =~= u@.skip(prefix@.len() as int));
        assert(u@.subrange(0int, 0int + prefix@.len()) =~= u@.take(prefix@.len() as int));
        let mut colon: Vec<char> = Vec::new();
        colon.push(':');
        assert(colon@ =~= seq![':']);
        match find_from(&after_user, &colon, 0) {
            Some(at) => {
                proof {
                    lemma_first_match(after_user@, colon@, 0);
                }
                let project = slice_of(&after_user, at + 1, after_user.len());
                assert(project@ =~= after_user@.skip(at + 1));
                return string_of(&project);
            },
            None => {},
        }
    } else {
        proof {
            if prefix@.len() <= u@.len() {
                assert(u@.subrange(0int, 0int + prefix@.len()) =~= u@.take(prefix@.len() as int));
            }
        }
    }
    let sep = chars_of("://");
    match find_from(&u, &sep, 0) {
        None => string_of(&u),
        Some(at) => {
            let total = u.len();
            proof {
                lemma_first_match(u@, sep@, 0);
                assert(at + sep@.len() <= total);
            }
            let tail = slice_of(&u, at + sep.len(), total);
            assert(tail@ =~= u@.skip(at + sep@.len()));
            let stop = match find_from(&tail, &sep, 0) {
                None => tail.len(),
                Some(e) => {
                    proof {
                        lemma_first_match(tail@, sep@, 0);
                    }
                    e
                },
            };
            let rest = slice_of(&tail, 0, stop);
            assert(tail@.subrange(0, tail@.len() as int) =~= tail@);
            assert(second_part(u@, sep@) == Some(rest@));
            assert(rest@.take(rest@.len() as int) =~= rest@);
            match rfind_char(&rest, rest.len(), '/') {
                None => string_of(&u),
                Some(last) => match rfind_char(&rest, last, '/') {
                    None => string_of(&u),
                    Some(before) => {
                        let project = slice_of(&rest, before + 1, rest.len());
                        assert(project@ =~= rest@.skip(before + 1));
                        string_of(&project)
                    },
                },
            }
        },
    }
}

} // verus!
