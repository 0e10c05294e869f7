//! Names derived from slash-separated paths: file names, extensions, the
//! default output name and the names of the output chunks.

use vstd::prelude::*;
use crate::strings::{chars_of, decimal, decimal_text, lemma_decimal_is_injective};

verus! {

/// The largest index at which `c` occurs in `s`, if it occurs at all.
pub open spec fn last_index_of(s: Seq<char>, c: char) -> Option<int>
    decreases s.len(),
{
    if s.len() == 0 {
        None
    } else if s.last() == c {
        Some(s.len() - 1)
    } else {
        last_index_of(s.drop_last(), c)
    }
}

/// Where the file name of `path` begins: behind its last `/`.
pub open spec fn name_start(path: Seq<char>) -> int {
    match last_index_of(path, '/') {
        Some(i) => i + 1,
        None => 0,
    }
}

/// The file name of `path`: what follows its last `/`.
pub open spec fn file_name(path: Seq<char>) -> Seq<char> {
    path.skip(name_start(path))
}

/// The index in `path` of the dot that begins the extension of its file name.
///
/// The extension follows the last dot of the file name. A file name whose only
/// dot is its first character has no extension, and neither has `..`.
pub open spec fn extension_dot(path: Seq<char>) -> Option<int> {
    let name = file_name(path);
    match last_index_of(name, '.') {
        Some(d) => if d == 0 || name == seq!['.', '.'] {
            None
        } else {
            Some(name_start(path) + d)
        },
        None => None,
    }
}

/// The extension of the file name of `path`, without its dot.
pub open spec fn extension(path: Seq<char>) -> Option<Seq<char>> {
    match extension_dot(path) {
        Some(d) => Some(path.skip(d + 1)),
        None => None,
    }
}

/// `path` without the slashes at its end.
pub open spec fn trim_slashes(path: Seq<char>) -> Seq<char>
    decreases path.len(),
{
    if path.len() > 0 && path.last() == '/' {
        trim_slashes(path.drop_last())
    } else {
        path
    }
}

/// The name of the directory `root`, if it has one: the last component of the
/// path, unless that is empty, `.` or `..`.
pub open spec fn dir_name(root: Seq<char>) -> Option<Seq<char>> {
    let name = file_name(trim_slashes(root));
    if name.len() == 0 || name == seq!['.'] || name == seq!['.', '.'] {
        None
    } else {
        Some(name)
    }
}

/// The stem used for the output when the root directory has no name.
pub open spec fn fallback_stem() -> Seq<char> {
    seq!['t', 'r', 'e', 'e', 'm', 'e', 'r', 'g', 'e']
}

/// The extension, with its dot, of a default output name.
pub open spec fn output_suffix() -> Seq<char> {
    seq!['.', 't', 'x', 't']
}

/// The output name used when none is configured: the root's directory name, or
/// `treemerge` where it has none, followed by `.txt`.
pub open spec fn default_output(root: Seq<char>) -> Seq<char> {
    match dir_name(root) {
        Some(name) => name + output_suffix(),
        None => fallback_stem() + output_suffix(),
    }
}

/// What stands between the stem of the output name and the index of a chunk.
pub open spec fn part_marker() -> Seq<char> {
    seq!['.', 'p', 'a', 'r', 't']
}

/// Where the index of a chunk is inserted into the output name: before the
/// extension of its file name, or at its end where it has none.
pub open spec fn insertion_point(base: Seq<char>) -> int {
    match extension_dot(base) {
        Some(d) => d,
        None => base.len() as int,
    }
}

/// The name of chunk `index`. The first chunk has the output name itself; a
/// later one has `.part` and its index inserted before the extension.
pub open spec fn chunk_name(base: Seq<char>, index: nat) -> Seq<char> {
    if index == 0 {
        base
    } else {
        base.take(insertion_point(base)) + part_marker() + decimal(index) + base.skip(
            insertion_point(base),
        )
    }
}

/// What `last_index_of` finds is the last occurrence, and it finds one if
/// there is any.
pub proof fn lemma_last_index_of(s: Seq<char>, c: char)
    ensures
        match last_index_of(s, c) {
            Some(i) => 0 <= i < s.len() && s[i] == c && forall|j: int|
                i < j < s.len() ==> s[j] != c,
            None => forall|j: int| 0 <= j < s.len() ==> s[j] != c,
        },
    decreases s.len(),
{
    if s.len() > 0 && s.last() != c {
        let t = s.drop_last();
        lemma_last_index_of(t, c);
        match last_index_of(t, c) {
            Some(i) => {
                assert forall|j: int| i < j < s.len() implies s[j] != c by {
                    if j < t.len() {
                        assert(t[j] == s[j]);
                    }
                }
            },
            None => {
                assert forall|j: int| 0 <= j < s.len() implies s[j] != c by {
                    if j < t.len() {
                        assert(t[j] == s[j]);
                    }
                }
            },
        }
    }
}

/// An occurrence of `c` with none behind it is the one `last_index_of` finds.
pub proof fn lemma_last_index_of_unique(s: Seq<char>, c: char, i: int)
    requires
        0 <= i < s.len(),
        s[i] == c,
        forall|j: int| i < j < s.len() ==> s[j] != c,
    ensures
        last_index_of(s, c) == Some(i),
{
    lemma_last_index_of(s, c);
}

/// The index of a chunk is inserted at a place inside the output name.
pub proof fn lemma_insertion_point_in_range(base: Seq<char>)
    ensures
        0 <= insertion_point(base) <= base.len(),
{
    lemma_last_index_of(base, '/');
    lemma_last_index_of(file_name(base), '.');
}

/// No two chunks of one output have the same name, so no chunk is written
/// over another.
pub proof fn lemma_chunk_names_differ(base: Seq<char>, i: nat, j: nat)
    requires
        i != j,
    ensures
        chunk_name(base, i) != chunk_name(base, j),
{
    lemma_insertion_point_in_range(base);
    let at = insertion_point(base);
    let a = chunk_name(base, i);
    let b = chunk_name(base, j);
    if i > 0 && j > 0 {
        if a == b {
            let start = at + part_marker().len();
            assert(decimal(i).len() == decimal(j).len());
            assert(decimal(i) =~= a.subrange(start, start + decimal(i).len()));
            assert(decimal(j) =~= b.subrange(start, start + decimal(j).len()));
            lemma_decimal_is_injective(i, j);
        }
    } else if i > 0 {
        assert(a.len() > b.len());
    } else {
        assert(b.len() > a.len());
    }
}

/// The last index at or behind `from` at which `c` stands in `s`.
fn rfind_from(s: &[char], from: usize, c: char) -> (r: Option<usize>)
    requires
        from <= s.len(),
    ensures
        match r {
            Some(i) => from <= i < s.len() && last_index_of(s@.skip(from as int), c) == Some(
                i - from,
            ),
            None => last_index_of(s@.skip(from as int), c) is None,
        },
{
    let ghost tail = s@.skip(from as int);
    let mut i: usize = s.len();
    while i > from
        invariant
            from <= i <= s.len(),
            tail == s@.skip(from as int),
            forall|j: int| i <= j < s.len() ==> s@[j] != c,
        decreases i,
    {
        i -= 1;
        if s[i] == c {
            proof {
                lemma_last_index_of_unique(tail, c, i - from);
            }
            return Some(i);
        }
    }
    proof {
        lemma_last_index_of(tail, c);
    }
    None
}

/// Where the file name begins in the characters of a path.
fn name_start_of(path: &[char]) -> (r: usize)
    ensures
        r == name_start(path@),
        r <= path.len(),
{
    assert(path@.skip(0) =~= path@);
    match rfind_from(path, 0, '/') {
        Some(i) => i + 1,
        None => 0,
    }
}

/// Where the extension begins in the characters of a path.
fn extension_dot_of(path: &[char]) -> (r: Option<usize>)
    ensures
        match r {
            Some(d) => extension_dot(path@) == Some(d as int) && d < path.len(),
            None => extension_dot(path@) is None,
        },
{
    let start: usize = name_start_of(path);
    let ghost name = file_name(path@);
    match rfind_from(path, start, '.') {
        Some(d) => {
            let two_dots: bool = path.len() - start == 2 && path[start] == '.' && path[start + 1]
                == '.';
            proof {
                if two_dots {
                    assert(name =~= seq!['.', '.']);
                } else if name == seq!['.', '.'] {
                }
            }
            if d == start || two_dots {
                None
            } else {
                Some(d)
            }
        },
        None => None,
    }
}

/// The extension of the file name of `path`, without its dot.
pub fn extension_of(path: &[char]) -> (r: Option<Vec<char>>)
    ensures
        match r {
            Some(e) => extension(path@) == Some(e@),
            None => extension(path@) is None,
        },
{
    match extension_dot_of(path) {
        Some(d) => {
            let mut e: Vec<char> = Vec::new();
            let mut i: usize = d + 1;
            while i < path.len()
                invariant
                    d + 1 <= i <= path.len(),
                    e@ == path@.subrange(d + 1, i as int),
                decreases path.len() - i,
            {
                e.push(path[i]);
                i += 1;
            }
            Some(e)
        },
        None => None,
    }
}

/// The number of characters of `path` that are left without the slashes at
/// its end.
fn trimmed_len(path: &[char]) -> (n: usize)
    ensures
        n <= path.len(),
        trim_slashes(path@) == path@.take(n as int),
{
    let mut n: usize = path.len();
    assert(path@.take(n as int) =~= path@);
    while n > 0 && path[n - 1] == '/'
        invariant
            n <= path.len(),
            trim_slashes(path@) == trim_slashes(path@.take(n as int)),
        decreases n,
    {
        assert(path@.take(n as int).drop_last() =~= path@.take(n - 1));
        n -= 1;
    }
    n
}

/// The output name used when none is configured.
pub fn default_output_name(root: &str) -> (name: String)
    ensures
        name@ == default_output(root@),
{
    proof {
        reveal_strlit("treemerge");
        reveal_strlit(".txt");
        reveal_strlit(".");
        reveal_strlit("..");
    }
    let chars: Vec<char> = chars_of(root);
    let end: usize = trimmed_len(chars.as_slice());
    let ghost trimmed = trim_slashes(root@);
    let trimmed_text: &str = root.substring_char(0, end);
    let trimmed_chars: Vec<char> = chars_of(trimmed_text);
    let start: usize = name_start_of(trimmed_chars.as_slice());
    let len: usize = end - start;
    let dots: bool = (len == 1 && trimmed_chars[start] == '.') || (len == 2 && trimmed_chars[start]
        == '.' && trimmed_chars[start + 1] == '.');
    proof {
        let name = file_name(trimmed);
        if len == 1 {
            assert(name[0] == trimmed_chars@[start as int]);
        }
        if dots {
            assert(name =~= if len == 1 {
                seq!['.']
            } else {
                seq!['.', '.']
            });
        }
    }
    if len == 0 || dots {
        String::from_str("treemerge").concat(".txt")
    } else {
        let stem: &str = trimmed_text.substring_char(start, end);
        String::from_str(stem).concat(".txt")
    }
}

/// The name of chunk `index` of the output `base`.
pub fn chunk_file_name(base: &str, index: usize) -> (name: String)
    ensures
        name@ == chunk_name(base@, index as nat),
{
    if index == 0 {
        return String::from_str(base);
    }
    proof {
        reveal_strlit(".part");
    }
    let chars: Vec<char> = chars_of(base);
    let at: usize = match extension_dot_of(chars.as_slice()) {
        Some(d) => d,
        None => chars.len(),
    };
    let stem: &str = base.substring_char(0, at);
    let tail: &str = base.substring_char(at, chars.len());
    let number: String = decimal_text(index);
    String::from_str(stem).concat(".part").concat(number.as_str()).concat(tail)
}

} // verus!
