//! The `DATABASE_URL` line of an environment file.
//!
//! Tools that read the address of the store from an environment file are
//! kept in line with the settings: the line that sets `DATABASE_URL` is made
//! to name the address of the settings.

use vstd::prelude::*;
use crate::migrate::text::{chars_of, find_first, first_index, occurs, slice_of, text_of};

verus! {

/// The name that the line sets.
pub open spec fn key() -> Seq<char> {
    seq!['D', 'A', 'T', 'A', 'B', 'A', 'S', 'E', '_', 'U', 'R', 'L']
}

/// The line that sets the address `uri`.
pub open spec fn line_for(uri: Seq<char>) -> Seq<char> {
    key() + seq!['='] + uri
}

/// `pattern` stands in `s` at place `at`.
pub open spec fn stands_at(s: Seq<char>, at: int, pattern: Seq<char>) -> bool {
    0 <= at && at + pattern.len() <= s.len() && s.subrange(at, at + pattern.len()) == pattern
}

/// A line of `s` starts at place `i`.
pub open spec fn line_starts_at(s: Seq<char>, i: int) -> bool {
    0 <= i <= s.len() && (i == 0 || s[i - 1] == '\n')
}

/// The line of `s` that starts at place `i` ends before place `j`.
pub open spec fn line_ends_at(s: Seq<char>, i: int, j: int) -> bool {
    &&& i <= j <= s.len()
    &&& j < s.len() ==> s[j] == '\n'
    &&& forall|k: int| i <= k < j ==> s[k] != '\n'
}

/// Where the line of `s` that starts at place `i` ends.
pub open spec fn line_end(s: Seq<char>, i: int) -> int {
    choose|j: int| line_ends_at(s, i, j)
}

/// A line that starts with the name starts at place `i` of `s`.
pub open spec fn key_line_at(s: Seq<char>, i: int) -> bool {
    line_starts_at(s, i) && stands_at(s, i, key())
}

/// The first line that starts with the name starts at place `i` of `s`.
pub open spec fn first_key_line_at(s: Seq<char>, i: int) -> bool {
    key_line_at(s, i) && forall|j: int| 0 <= j < i ==> !key_line_at(s, j)
}

/// Some line of `s` starts with the name.
pub open spec fn has_key_line(s: Seq<char>) -> bool {
    exists|i: int| key_line_at(s, i)
}

/// Where the first line that starts with the name starts.
pub open spec fn key_line_start(s: Seq<char>) -> int {
    choose|i: int| first_key_line_at(s, i)
}

/// What the line `line` sets: what follows its first `=`, and nothing where
/// it has none.
pub open spec fn value_of(line: Seq<char>) -> Seq<char> {
    if occurs(line, '=') {
        line.skip(first_index(line, '=') + 1)
    } else {
        Seq::empty()
    }
}

/// `s` with every occurrence of `pattern` replaced by `with`, the
/// occurrences being looked for from the left and one after the other.
pub open spec fn replaced_all(s: Seq<char>, pattern: Seq<char>, with: Seq<char>) -> Seq<char>
    decreases s.len(),
{
    if pattern.len() == 0 || s.len() < pattern.len() {
        s
    } else if stands_at(s, 0, pattern) {
        with + replaced_all(s.skip(pattern.len() as int), pattern, with)
    } else {
        seq![s[0]] + replaced_all(s.skip(1), pattern, with)
    }
}

/// What an environment file with the text `contents` is to hold so that it
/// names the address `uri`, or nothing where it does so already.
///
/// The first line that starts with `DATABASE_URL` decides. Where it sets the
/// address already, nothing is to change. Otherwise that line is replaced
/// wherever its text occurs. A file without such a line gets one at its
/// end.
pub open spec fn env_contents(contents: Seq<char>, uri: Seq<char>) -> Option<Seq<char>> {
    if has_key_line(contents) {
        let start = key_line_start(contents);
        let line = contents.subrange(start, line_end(contents, start));
        if value_of(line) == uri {
            None
        } else {
            Some(replaced_all(contents, line, line_for(uri)))
        }
    } else {
        Some(contents + seq!['\n'] + line_for(uri))
    }
}

/// A line ends in one place only.
pub proof fn lemma_line_end(s: Seq<char>, i: int, j: int)
    requires
        line_ends_at(s, i, j),
    ensures
        line_end(s, i) == j,
{
    let k = line_end(s, i);
    assert(line_ends_at(s, i, k));
    if k < j {
        assert(s[k] != '\n');
    }
    if j < k {
        assert(s[j] != '\n');
    }
}

/// The first line that starts with the name starts in one place only.
pub proof fn lemma_key_line_start(s: Seq<char>, i: int)
    requires
        first_key_line_at(s, i),
    ensures
        has_key_line(s),
        key_line_start(s) == i,
{
    let k = key_line_start(s);
    assert(first_key_line_at(s, k));
    if k < i {
        assert(!key_line_at(s, k));
    }
    if i < k {
        assert(!key_line_at(s, i));
    }
}

/// The characters of the name.
fn key_chars() -> (v: Vec<char>)
    ensures
        v@ == key(),
{
    let v = vec!['D', 'A', 'T', 'A', 'B', 'A', 'S', 'E', '_', 'U', 'R', 'L'];
    assert(v@ =~= key());
    v
}

/// Whether `pattern` stands in `s` at place `at`.
pub fn matches_at(s: &Vec<char>, at: usize, pattern: &Vec<char>) -> (r: bool)
    ensures
        r == stands_at(s@, at as int, pattern@),
{
    if at > s.len() || pattern.len() > s.len() - at {
        return false;
    }
    let ghost part = s@.subrange(at as int, at + pattern.len());
    let mut k: usize = 0;
    while k < pattern.len()
        invariant
            k <= pattern.len(),
            at + pattern.len() <= s.len(),
            part == s@.subrange(at as int, at + pattern.len()),
            forall|j: int| 0 <= j < k ==> part[j] == pattern@[j],
        decreases pattern.len() - k,
    {
        if s[at + k] != pattern[k] {
            assert(part[k as int] != pattern@[k as int]);
            return false;
        }
        k += 1;
    }
    assert(part =~= pattern@);
    true
}

/// Where the line that starts at place `i` ends.
fn end_of_line(s: &Vec<char>, i: usize) -> (j: usize)
    requires
        i <= s.len(),
    ensures
        line_ends_at(s@, i as int, j as int),
        j == line_end(s@, i as int),
{
    let mut j: usize = i;
    while j < s.len() && s[j] != '\n'
        invariant
            i <= j <= s.len(),
            forall|k: int| i <= k < j ==> s@[k] != '\n',
        decreases s.len() - j,
    {
        j += 1;
    }
    proof {
        lemma_line_end(s@, i as int, j as int);
    }
    j
}

/// Where the first line that starts with the name starts, if there is one.
fn find_key_line(s: &Vec<char>) -> (r: Option<usize>)
    ensures
        r is Some <==> has_key_line(s@),
        r is Some ==> r->Some_0 <= s.len() && r->Some_0 == key_line_start(s@)
            && first_key_line_at(s@, r->Some_0 as int),
{
    let name = key_chars();
    let mut i: usize = 0;
    loop
        invariant
            i <= s.len(),
            name@ == key(),
            line_starts_at(s@, i as int),
            forall|j: int| 0 <= j < i ==> !key_line_at(s@, j),
        decreases s.len() - i,
    {
        if matches_at(s, i, &name) {
            proof {
                lemma_key_line_start(s@, i as int);
            }
            return Some(i);
        }
        let end = end_of_line(s, i);
        assert forall|j: int| i < j <= end implies !key_line_at(s@, j) by {
            assert(s@[j - 1] != '\n');
        }
        if end == s.len() {
            assert(!has_key_line(s@)) by {
                if has_key_line(s@) {
                    let j = choose|j: int| key_line_at(s@, j);
                    assert(j <= s@.len());
                }
            }
            return None;
        }
        i = end + 1;
    }
}

/// Replaces every occurrence of `pattern` in `s` by `with`.
pub fn replace_all(s: &Vec<char>, pattern: &Vec<char>, with: &Vec<char>) -> (r: Vec<char>)
    requires
        pattern@.len() > 0,
    ensures
        r@ == replaced_all(s@, pattern@, with@),
{
    let mut r: Vec<char> = Vec::new();
    let mut i: usize = 0;
    assert(s@.skip(0) =~= s@);
    while i < s.len()
        invariant
            i <= s.len(),
            pattern@.len() > 0,
            r@ + replaced_all(s@.skip(i as int), pattern@, with@) == replaced_all(
                s@,
                pattern@,
                with@,
            ),
        decreases s.len() - i,
    {
        let ghost rest = s@.skip(i as int);
        let ghost before = r@;
        if matches_at(s, i, pattern) {
            assert(stands_at(rest, 0, pattern@)) by {
                assert(rest.subrange(0, pattern@.len() as int) =~= s@.subrange(
                    i as int,
                    i + pattern@.len(),
                ));
            }
            assert(rest.skip(pattern@.len() as int) =~= s@.skip(i + pattern@.len()));
            let mut k: usize = 0;
            while k < with.len()
                invariant
                    k <= with.len(),
                    r@ == before + with@.take(k as int),
                decreases with.len() - k,
            {
                r.push(with[k]);
                assert(with@.take(k + 1) =~= with@.take(k as int).push(with@[k as int]));
                assert(r@ =~= before + with@.take(k + 1));
                k += 1;
            }
            assert(with@.take(with@.len() as int) =~= with@);
            assert(r@ + replaced_all(s@.skip(i + pattern@.len()), pattern@, with@) =~= before + (
            with@ + replaced_all(rest.skip(pattern@.len() as int), pattern@, with@)));
            i += pattern.len();
        } else {
            assert(!stands_at(rest, 0, pattern@)) by {
                if stands_at(rest, 0, pattern@) {
                    assert(rest.subrange(0, pattern@.len() as int) =~= s@.subrange(
                        i as int,
                        i + pattern@.len(),
                    ));
                }
            }
            assert(rest.skip(1) =~= s@.skip(i + 1));
            assert(rest[0] == s@[i as int]);
            r.push(s[i]);
            proof {
                if rest.len() < pattern@.len() {
                    assert(replaced_all(rest, pattern@, with@) == rest);
                    assert(replaced_all(rest.skip(1), pattern@, with@) == rest.skip(1));
                    assert(rest =~= seq![rest[0]] + rest.skip(1));
                }
            }
            assert(r@ + replaced_all(s@.skip(i + 1), pattern@, with@) =~= before + (seq![rest[0]]
                + replaced_all(rest.skip(1), pattern@, with@)));
            i += 1;
        }
    }
    assert(s@.skip(s@.len() as int) =~= Seq::empty());
    assert(r@ + Seq::<char>::empty() =~= r@);
    r
}

/// Whether two texts are the same.
fn same_chars(a: &Vec<char>, b: &Vec<char>) -> (r: bool)
    ensures
        r == (a@ == b@),
{
    if a.len() != b.len() {
        return false;
    }
    let mut i: usize = 0;
    while i < a.len()
        invariant
            i <= a.len(),
            a.len() == b.len(),
            forall|j: int| 0 <= j < i ==> a@[j] == b@[j],
        decreases a.len() - i,
    {
        if a[i] != b[i] {
            return false;
        }
        i += 1;
    }
    assert(a@ =~= b@);
    true
}

/// `a` followed by `b`.
fn joined(a: &Vec<char>, b: &Vec<char>) -> (r: Vec<char>)
    ensures
        r@ == a@ + b@,
{
    let mut r: Vec<char> = Vec::new();
    let mut i: usize = 0;
    while i < a.len()
        invariant
            i <= a.len(),
            r@ == a@.take(i as int),
        decreases a.len() - i,
    {
        r.push(a[i]);
        assert(a@.take(i + 1) =~= a@.take(i as int).push(a@[i as int]));
        i += 1;
    }
    assert(a@.take(a@.len() as int) =~= a@);
    let mut k: usize = 0;
    while k < b.len()
        invariant
            k <= b.len(),
            r@ == a@ + b@.take(k as int),
        decreases b.len() - k,
    {
        r.push(b[k]);
        assert(a@ + b@.take(k + 1) =~= (a@ + b@.take(k as int)).push(b@[k as int]));
        k += 1;
    }
    assert(b@.take(b@.len() as int) =~= b@);
    r
}

/// What the environment file with the text `contents` is to hold so that it
/// names the address `uri`, or nothing where it does so already.
pub fn root_env_file(contents: &str, uri: &str) -> (r: Option<String>)
    ensures
        match env_contents(contents@, uri@) {
            Some(text) => r is Some && r->Some_0@ == text,
            None => r is None,
        },
{
    let text = chars_of(contents);
    let address = chars_of(uri);
    let mut assignment = key_chars();
    assignment.push('=');
    let line_to_set = joined(&assignment, &address);
    assert(line_to_set@ =~= line_for(uri@));
    match find_key_line(&text) {
        Some(start) => {
            let end = end_of_line(&text, start);
            let line = slice_of(&text, start, end);
            let value = match find_first(&line, '=') {
                Some(at) => slice_of(&line, at + 1, line.len()),
                None => Vec::new(),
            };
            assert(value@ =~= value_of(line@));
            if same_chars(&value, &address) {
                None
            } else {
                assert(line@.len() > 0) by {
                    assert(stands_at(text@, start as int, key()));
                    assert(key().len() == 12);
                    assert(text@[start as int] == key()[0]) by {
                        assert(text@.subrange(start as int, start + 12)[0] == key()[0]);
                    }
                    assert(text@[start as int] != '\n');
                }
                Some(text_of(&replace_all(&text, &line, &line_to_set)))
            }
        },
        None => {
            let mut ending: Vec<char> = Vec::new();
            ending.push('\n');
            let appended = joined(&joined(&text, &ending), &line_to_set);
            assert(appended@ =~= contents@ + seq!['\n'] + line_for(uri@));
            Some(text_of(&appended))
        },
    }
}

} // verus!
