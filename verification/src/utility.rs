//! Helpers on `/`-separated path text.

use vstd::prelude::*;
use vstd::string::*;
use crate::text::{chars_of, has_prefix, same_text, slice_of, starts_with};

verus! {

/// Index of the last occurrence of `c` in `s`, or -1 where `s` holds none.
pub open spec fn last_index_of(s: Seq<char>, c: char) -> int
    decreases s.len(),
{
    if s.len() == 0 {
        -1
    } else if s.last() == c {
        s.len() - 1
    } else {
        last_index_of(s.drop_last(), c)
    }
}

/// `last_index_of` names an occurrence of `c` behind which no other follows.
pub proof fn lemma_last_index_of(s: Seq<char>, c: char)
    ensures
        -1 <= last_index_of(s, c) < s.len(),
        last_index_of(s, c) >= 0 ==> s[last_index_of(s, c)] == c,
        forall|i: int| last_index_of(s, c) < i < s.len() ==> s[i] != c,
    decreases s.len(),
{
    if s.len() == 0 {
    } else if s.last() == c {
    } else {
        let t = s.drop_last();
        lemma_last_index_of(t, c);
        assert forall|i: int| last_index_of(s, c) < i < s.len() implies s[i] != c by {
            if i < t.len() {
                assert(t[i] == s[i]);
            }
        }
    }
}

/// The length of `s` without what closes it and names nothing: slashes at
/// its end, and a `.` that follows a slash.
pub open spec fn trimmed_length(s: Seq<char>) -> nat
    decreases s.len(),
{
    if s.len() > 0 && s.last() == '/' {
        trimmed_length(s.drop_last())
    } else if s.len() >= 2 && s[s.len() - 1] == '.' && s[s.len() - 2] == '/' {
        trimmed_length(s.take(s.len() - 2))
    } else {
        s.len()
    }
}

/// `s` up to the end of its last component.
pub open spec fn trimmed_path(s: Seq<char>) -> Seq<char> {
    s.take(trimmed_length(s) as int)
}

/// What is trimmed is a prefix.
pub proof fn lemma_trimmed_length(s: Seq<char>)
    ensures
        trimmed_length(s) <= s.len(),
    decreases s.len(),
{
    if s.len() > 0 && s.last() == '/' {
        lemma_trimmed_length(s.drop_last());
    } else if s.len() >= 2 && s[s.len() - 1] == '.' && s[s.len() - 2] == '/' {
        lemma_trimmed_length(s.take(s.len() - 2));
    }
}

/// The last component of a path, where it is a name: slashes at the end of
/// the path are passed over, and so is a `.` behind a slash. A path that ends
/// in `..`, the path `.`, the root and the empty path have none, and the
/// result is empty.
pub open spec fn head_of(s: Seq<char>) -> Seq<char> {
    let t = trimmed_path(s);
    let h = t.subrange(last_index_of(t, '/') + 1, t.len() as int);
    if h == seq!['.'] || h == seq!['.', '.'] {
        Seq::empty()
    } else {
        h
    }
}

/// The extension of a path: what follows the last `.` of its last component.
/// A component without a `.`, or whose only `.` is its first character, has none.
pub open spec fn extension_of(s: Seq<char>) -> Option<Seq<char>> {
    let head = head_of(s);
    let dot = last_index_of(head, '.');
    if dot <= 0 {
        None
    } else {
        Some(head.subrange(dot + 1, head.len() as int))
    }
}

/// The directory that holds the last component of a path: the path without
/// that component and without what closes the rest. The empty path and the
/// root have none; a bare name lies in the empty directory; what lies
/// directly below the root lies in `/`.
pub open spec fn parent_of(s: Seq<char>) -> Option<Seq<char>> {
    let t = trimmed_path(s);
    if t.len() == 0 {
        None
    } else {
        let rest = t.take(last_index_of(t, '/') + 1);
        if trimmed_length(rest) == 0 && rest.len() > 0 {
            Some(seq!['/'])
        } else {
            Some(trimmed_path(rest))
        }
    }
}

/// `name` placed under `dir`. A `name` that begins at the root stands alone.
pub open spec fn joined(dir: Seq<char>, name: Seq<char>) -> Seq<char> {
    if has_prefix(name, seq!['/']) || dir.len() == 0 {
        name
    } else if dir.last() == '/' {
        dir + name
    } else {
        dir + seq!['/'] + name
    }
}

/// Position of the last `c` among the first `n` characters of `s`.
pub fn find_last_in(s: &Vec<char>, n: usize, c: char) -> (r: Option<usize>)
    requires
        n <= s.len(),
    ensures
        match r {
            Some(i) => i < n && i as int == last_index_of(s@.take(n as int), c),
            None => last_index_of(s@.take(n as int), c) == -1,
        },
{
    let ghost front = s@.take(n as int);
    proof {
        lemma_last_index_of(front, c);
    }
    let mut k: usize = n;
    while k > 0
        invariant
            k <= n <= s.len(),
            front == s@.take(n as int),
            forall|i: int| k <= i < n ==> front[i] != c,
            -1 <= last_index_of(front, c) < n,
            last_index_of(front, c) >= 0 ==> front[last_index_of(front, c)] == c,
            forall|i: int| last_index_of(front, c) < i < n ==> front[i] != c,
        decreases k,
    {
        k -= 1;
        if s[k] == c {
            assert(front[k as int] == c);
            return Some(k);
        }
        assert(front[k as int] == s@[k as int]);
    }
    None
}

/// Position of the last `c` in `s`.
pub fn find_last(s: &Vec<char>, c: char) -> (r: Option<usize>)
    ensures
        match r {
            Some(i) => i < s.len() && i as int == last_index_of(s@, c),
            None => last_index_of(s@, c) == -1,
        },
{
    assert(s@.take(s.len() as int) =~= s@);
    find_last_in(s, s.len(), c)
}

/// The length of the first `n` characters of `s` without what closes them.
pub fn trimmed_length_of(s: &Vec<char>, n: usize) -> (r: usize)
    requires
        n <= s.len(),
    ensures
        r <= n,
        r == trimmed_length(s@.take(n as int)),
{
    let mut k: usize = n;
    let mut done = false;
    while !done
        invariant
            k <= n <= s.len(),
            trimmed_length(s@.take(n as int)) == trimmed_length(s@.take(k as int)),
            done ==> trimmed_length(s@.take(k as int)) == k,
        decreases k + if done { 0int } else { 1int },
    {
        let ghost front = s@.take(k as int);
        if k > 0 && s[k - 1] == '/' {
            assert(front.last() == s@[k - 1]);
            assert(front.drop_last() =~= s@.take(k - 1));
            k -= 1;
        } else if k >= 2 && s[k - 1] == '.' && s[k - 2] == '/' {
            assert(front[front.len() - 1] == s@[k - 1]);
            assert(front[front.len() - 2] == s@[k - 2]);
            assert(front.take(front.len() - 2) =~= s@.take(k - 2));
            k -= 2;
        } else {
            proof {
                if k > 0 {
                    assert(front.last() == s@[k - 1]);
                }
                if k >= 2 {
                    assert(front[front.len() - 2] == s@[k - 2]);
                }
            }
            done = true;
        }
    }
    k
}

/// The last component of `path`, where it is a name; else the empty text.
pub fn get_head_directory(path: &str) -> (r: String)
    ensures
        r@ == head_of(path@),
{
    let chars = chars_of(path);
    assert(chars@.take(chars.len() as int) =~= chars@);
    let end = trimmed_length_of(&chars, chars.len());
    let ghost t = trimmed_path(path@);
    let start: usize = match find_last_in(&chars, end, '/') {
        Some(i) => i + 1,
        None => 0,
    };
    let ghost h = t.subrange(start as int, end as int);
    proof {
        assert(path@.subrange(start as int, end as int) =~= h);
        if end - start >= 1 {
            assert(h[0] == chars@[start as int]);
        }
        if end - start >= 2 {
            assert(h[1] == chars@[start + 1]);
        }
    }
    let dots = (end - start == 1 && chars[start] == '.') || (end - start == 2 && chars[start] == '.' && chars[start + 1]
        == '.');
    proof {
        if dots {
            if end - start == 1 {
                assert(h =~= seq!['.']);
            } else {
                assert(h =~= seq!['.', '.']);
            }
        } else {
            if h == seq!['.'] {
                assert(h.len() == 1 && h[0] == '.');
            }
            if h == seq!['.', '.'] {
                assert(h.len() == 2 && h[0] == '.' && h[1] == '.');
            }
        }
    }
    if dots {
        String::new()
    } else {
        slice_of(path, start, end)
    }
}

/// Whether the last component of `path` is `src` or `source`.
pub fn is_source_directory(path: &str) -> (r: bool)
    ensures
        r == (head_of(path@) == "src"@ || head_of(path@) == "source"@),
{
    let head = get_head_directory(path);
    same_text(head.as_str(), "src") || same_text(head.as_str(), "source")
}

/// Whether the last component of `path` is `test`.
pub fn is_test_directory(path: &str) -> (r: bool)
    ensures
        r == (head_of(path@) == "test"@),
{
    let head = get_head_directory(path);
    same_text(head.as_str(), "test")
}

/// The extension of `path`, without its dot.
pub fn file_extension(path: &str) -> (r: Option<String>)
    ensures
        match r {
            Some(e) => extension_of(path@) == Some(e@),
            None => extension_of(path@) is None,
        },
{
    let head = get_head_directory(path);
    let chars = chars_of(head.as_str());
    match find_last(&chars, '.') {
        Some(dot) => {
            if dot == 0 {
                None
            } else {
                Some(slice_of(head.as_str(), dot + 1, chars.len()))
            }
        },
        None => None,
    }
}

/// The directory that holds the last component of `path`.
pub fn parent_directory(path: &str) -> (r: Option<String>)
    ensures
        match r {
            Some(p) => parent_of(path@) == Some(p@),
            None => parent_of(path@) is None,
        },
{
    proof {
        reveal_strlit("/");
        assert("/"@ =~= seq!['/']);
    }
    let chars = chars_of(path);
    assert(chars@.take(chars.len() as int) =~= chars@);
    let end = trimmed_length_of(&chars, chars.len());
    if end == 0 {
        return None;
    }
    let ghost t = trimmed_path(path@);
    let rest_length: usize = match find_last_in(&chars, end, '/') {
        Some(slash) => slash + 1,
        None => 0,
    };
    assert(t.take(rest_length as int) =~= chars@.take(rest_length as int));
    let kept = trimmed_length_of(&chars, rest_length);
    if kept == 0 && rest_length > 0 {
        Some(String::from_str("/"))
    } else {
        let parent = slice_of(path, 0, kept);
        assert(parent@ =~= trimmed_path(t.take(rest_length as int)));
        Some(parent)
    }
}

/// `name` placed under `dir`.
pub fn join_path(dir: &str, name: &str) -> (r: String)
    ensures
        r@ == joined(dir@, name@),
{
    proof {
        reveal_strlit("/");
        assert("/"@ =~= seq!['/']);
    }
    let d = chars_of(dir);
    if starts_with(name, "/") || d.len() == 0 {
        String::from_str(name)
    } else if d[d.len() - 1] == '/' {
        String::from_str(dir).concat(name)
    } else {
        String::from_str(dir).concat("/").concat(name)
    }
}

/// `path`, up to the end of its last component, with `extension` in place of
/// the extension of that component; a component without extension gains it.
/// A path without last component stays as it is.
pub open spec fn replaced_extension(path: Seq<char>, extension: Seq<char>) -> Seq<char> {
    let t = trimmed_path(path);
    if head_of(path).len() == 0 {
        path
    } else {
        match extension_of(path) {
            Some(old) => t.take(t.len() - old.len()) + extension,
            None => t + seq!['.'] + extension,
        }
    }
}

/// `path` with `extension` in place of its own.
pub fn replace_extension(path: &str, extension: &str) -> (r: String)
    ensures
        r@ == replaced_extension(path@, extension@),
{
    proof {
        reveal_strlit(".");
        assert("."@ =~= seq!['.']);
        lemma_extension_length(path@);
    }
    let head = get_head_directory(path);
    if head.as_str().unicode_len() == 0 {
        return String::from_str(path);
    }
    let chars = chars_of(path);
    assert(chars@.take(chars.len() as int) =~= chars@);
    let end = trimmed_length_of(&chars, chars.len());
    match file_extension(path) {
        Some(old) => {
            let k = old.as_str().unicode_len();
            let stem = slice_of(path, 0, end - k);
            assert(stem@ =~= trimmed_path(path@).take(end - k));
            stem.concat(extension)
        },
        None => {
            let whole = slice_of(path, 0, end);
            assert(whole@ =~= trimmed_path(path@));
            whole.concat(".").concat(extension)
        },
    }
}

/// The last component of a path lies within the path up to its end, and its
/// extension is shorter than it.
pub proof fn lemma_extension_length(path: Seq<char>)
    ensures
        head_of(path).len() <= trimmed_length(path) <= path.len(),
        extension_of(path) is Some ==> extension_of(path).unwrap().len() < head_of(path).len(),
        extension_of(path) is Some ==> extension_of(path).unwrap().len() < path.len(),
{
    lemma_trimmed_length(path);
    let t = trimmed_path(path);
    lemma_last_index_of(t, '/');
    let head = head_of(path);
    lemma_last_index_of(head, '.');
}

/// Why a path cannot be used.
#[derive(Debug, PartialEq, Eq, Clone)]
pub enum FsError {
    /// The path has no canonical form.
    Canonicalize(String),
    /// No file stands at the path.
    FileDoesNotExist(String),
    /// No directory of headers belongs to the path.
    IncludeDirectoryNotFound(String),
}

/// An `FsError` over character sequences.
pub ghost enum FsErrorView {
    Canonicalize(Seq<char>),
    FileDoesNotExist(Seq<char>),
    IncludeDirectoryNotFound(Seq<char>),
}

impl View for FsError {
    type V = FsErrorView;

    open spec fn view(&self) -> FsErrorView {
        match self {
            FsError::Canonicalize(p) => FsErrorView::Canonicalize(p@),
            FsError::FileDoesNotExist(p) => FsErrorView::FileDoesNotExist(p@),
            FsError::IncludeDirectoryNotFound(p) => FsErrorView::IncludeDirectoryNotFound(p@),
        }
    }
}


/// The directory of sources that belongs to `path`: `src` in it where that
/// exists, else `source` in it where that exists, else `path` itself.
pub open spec fn source_directory(path: Seq<char>, has_src: bool, has_source: bool) -> Seq<char> {
    if has_src {
        joined(path, "src"@)
    } else if has_source {
        joined(path, "source"@)
    } else {
        path
    }
}

/// The directory of headers that belongs to `path`: `include` in it where that
/// exists, else `include` beside it where that exists.
pub open spec fn include_directory(path: Seq<char>, inside: bool, beside: bool) -> Result<Seq<char>, FsErrorView> {
    if inside {
        Ok(joined(path, "include"@))
    } else if beside && parent_of(path) is Some {
        Ok(joined(parent_of(path).unwrap(), "include"@))
    } else {
        Err(FsErrorView::IncludeDirectoryNotFound(path))
    }
}

/// The directory of sources that belongs to `path`, given whether it holds a
/// directory `src` and whether it holds a directory `source`.
pub fn get_source_directory_from_path(path: &str, has_src: bool, has_source: bool) -> (r: String)
    ensures
        r@ == source_directory(path@, has_src, has_source),
{
    if has_src {
        join_path(path, "src")
    } else if has_source {
        join_path(path, "source")
    } else {
        String::from_str(path)
    }
}

/// The directory of headers that belongs to `path`, given whether a directory
/// `include` lies in it and whether one lies beside it.
pub fn get_include_directory_from_path(path: &str, inside: bool, beside: bool) -> (r: Result<String, FsError>)
    ensures
        match r {
            Ok(d) => include_directory(path@, inside, beside) == Ok::<Seq<char>, FsErrorView>(d@),
            Err(e) => include_directory(path@, inside, beside) == Err::<Seq<char>, FsErrorView>(e@),
        },
{
    if inside {
        return Ok(join_path(path, "include"));
    }
    if beside {
        match parent_directory(path) {
            Some(parent) => {
                return Ok(join_path(parent.as_str(), "include"));
            },
            None => {},
        }
    }
    Err(FsError::IncludeDirectoryNotFound(String::from_str(path)))
}

} // verus!
