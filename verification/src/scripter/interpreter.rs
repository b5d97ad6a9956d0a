//! Which files of the scripts folder are scripts, and how a script's
//! printed output is cut into log lines. Walking the folder, reading the
//! files and running the interpreter are the caller's part.

use vstd::prelude::*;

use crate::mem::pattern::str_chars;
use crate::render::string_from_chars;

verus! {

/// The characters with their trailing carriage returns and line feeds
/// removed.
pub open spec fn trim_line_end(s: Seq<char>) -> Seq<char>
    decreases s.len(),
{
    if s.len() > 0 && (s.last() == '\r' || s.last() == '\n') {
        trim_line_end(s.drop_last())
    } else {
        s
    }
}

/// The index of the first line feed, if any.
pub open spec fn first_newline(s: Seq<char>) -> Option<int> {
    crate::search::first_where(s, |c: char| c == '\n')
}

/// The characters with their trailing carriage returns and line feeds
/// removed.
fn trim_end(v: &Vec<char>) -> (r: Vec<char>)
    ensures
        r@ == trim_line_end(v@),
{
    let mut n = v.len();
    assert(v@.take(n as int) =~= v@);
    while n > 0 && (v[n - 1] == '\r' || v[n - 1] == '\n')
        invariant
            n <= v@.len(),
            trim_line_end(v@.take(n as int)) == trim_line_end(v@),
        decreases n,
    {
        proof {
            assert(v@.take(n as int).drop_last() =~= v@.take(n - 1));
        }
        n = n - 1;
    }
    assert(trim_line_end(v@.take(n as int)) == v@.take(n as int));
    let mut out: Vec<char> = Vec::new();
    let mut i: usize = 0;
    while i < n
        invariant
            n <= v@.len(),
            i <= n,
            out@ == v@.take(i as int),
        decreases n - i,
    {
        out.push(v[i]);
        i = i + 1;
        assert(out@ =~= v@.take(i as int));
    }
    proof {
        assert(v@.take(n as int).len() == n);
    }
    out
}

/// Collects what a script prints to one of its output streams and hands it
/// out line by line
#[derive(Debug)]
pub struct LineBuffer {
    buf: Vec<char>,
}

impl LineBuffer {
    /// What is buffered.
    pub closed spec fn spec_buf(&self) -> Seq<char> {
        self.buf@
    }

    /// An empty buffer.
    pub fn new() -> (r: LineBuffer)
        ensures
            r.spec_buf() == Seq::<char>::empty(),
    {
        LineBuffer { buf: Vec::new() }
    }

    /// Appends printed text. Where the buffer then holds a line feed, the
    /// text up to and including the first one leaves the buffer and is
    /// returned, its line-end characters trimmed.
    pub fn write(&mut self, data: &str) -> (r: Option<String>)
        ensures
            ({
                let all = old(self).spec_buf() + data@;
                match first_newline(all) {
                    Some(p) => r matches Some(line) && line@ == trim_line_end(all.take(p + 1))
                        && final(self).spec_buf() == all.skip(p + 1),
                    None => r is None && final(self).spec_buf() == all,
                }
            }),
    {
        let chars = str_chars(data);
        let ghost all = self.buf@ + data@;
        let mut k: usize = 0;
        while k < chars.len()
            invariant
                chars@ == data@,
                k <= chars@.len(),
                all == old(self).spec_buf() + data@,
                self.buf@ == old(self).spec_buf() + data@.take(k as int),
            decreases chars@.len() - k,
        {
            self.buf.push(chars[k]);
            k = k + 1;
            assert(self.buf@ =~= old(self).spec_buf() + data@.take(k as int));
        }
        assert(data@.take(k as int) =~= data@);
        let mut p: usize = 0;
        while p < self.buf.len()
            invariant
                self.buf@ == all,
                all == old(self).spec_buf() + data@,
                p <= all.len(),
                forall|j: int| 0 <= j < p ==> all[j] != '\n',
            decreases all.len() - p,
        {
            if self.buf[p] == '\n' {
                proof {
                    crate::search::lemma_first_where(all, |c: char| c == '\n', p as int);
                }
                let mut line: Vec<char> = Vec::new();
                let mut rest: Vec<char> = Vec::new();
                let mut i: usize = 0;
                while i < self.buf.len()
                    invariant
                        self.buf@ == all,
                        p < all.len(),
                        i <= all.len(),
                        i <= p + 1 ==> line@ == all.take(i as int) && rest@.len() == 0,
                        i > p + 1 ==> line@ == all.take(p + 1) && rest@ == all.subrange(p + 1, i as int),
                    decreases all.len() - i,
                {
                    if i <= p {
                        line.push(self.buf[i]);
                        assert(line@ =~= all.take(i + 1));
                    } else {
                        rest.push(self.buf[i]);
                        assert(rest@ =~= all.subrange(p + 1, i + 1));
                    }
                    i = i + 1;
                }
                assert(rest@ =~= all.skip(p + 1));
                self.buf = rest;
                let trimmed = trim_end(&line);
                let out = string_from_chars(trimmed.as_slice());
                assert(out@ == trim_line_end(all.take(p + 1)));
                assert(first_newline(all) == Some(p as int));
                return Some(out);
            }
            p = p + 1;
        }
        proof {
            assert(!exists|i: int| 0 <= i < all.len() && (|c: char| c == '\n')(all[i]));
        }
        None
    }

    /// Empties the buffer; what it held, its line-end characters trimmed,
    /// is returned unless nothing is left of it.
    pub fn flush(&mut self) -> (r: Option<String>)
        ensures
            final(self).spec_buf() == Seq::<char>::empty(),
            trim_line_end(old(self).spec_buf()).len() == 0 ==> r is None,
            trim_line_end(old(self).spec_buf()).len() > 0 ==> (r matches Some(s) && s@ == trim_line_end(
                old(self).spec_buf(),
            )),
    {
        let trimmed = trim_end(&self.buf);
        self.buf = Vec::new();
        if trimmed.len() == 0 {
            None
        } else {
            Some(string_from_chars(trimmed.as_slice()))
        }
    }
}

/// The code of a character with ASCII capitals made small.
pub open spec fn ascii_lower_code(c: char) -> u32 {
    let x = c as u32;
    if 65 <= x <= 90 {
        (x + 32) as u32
    } else {
        x
    }
}

/// Two texts are equal but for the case of ASCII letters.
pub open spec fn eq_ignore_ascii_case(a: Seq<char>, b: Seq<char>) -> bool {
    a.len() == b.len() && forall|i: int| 0 <= i < a.len() ==> ascii_lower_code(#[trigger] a[i]) == ascii_lower_code(b[i])
}

/// The code of a character with ASCII capitals made small.
fn lower_code(c: char) -> (r: u32)
    ensures
        r == ascii_lower_code(c),
{
    let x = c as u32;
    if 65 <= x && x <= 90 {
        x + 32
    } else {
        x
    }
}

/// Whether two texts are equal but for the case of ASCII letters.
fn chars_eq_ignore_ascii_case(a: &[char], b: &[char]) -> (r: bool)
    ensures
        r == eq_ignore_ascii_case(a@, b@),
{
    if a.len() != b.len() {
        return false;
    }
    let mut i: usize = 0;
    while i < a.len()
        invariant
            a@.len() == b@.len(),
            i <= a@.len(),
            forall|j: int| 0 <= j < i ==> ascii_lower_code(#[trigger] a@[j]) == ascii_lower_code(b@[j]),
        decreases a@.len() - i,
    {
        if lower_code(a[i]) != lower_code(b[i]) {
            return false;
        }
        i = i + 1;
    }
    true
}

/// The index of the last `.` of a file name, if any.
pub open spec fn last_dot(s: Seq<char>) -> Option<int>
    decreases s.len(),
{
    if s.len() == 0 {
        None
    } else if s.last() == '.' {
        Some(s.len() - 1)
    } else {
        last_dot(s.drop_last())
    }
}

/// The last `.` lies inside the name.
proof fn lemma_last_dot(s: Seq<char>)
    ensures
        last_dot(s) matches Some(i) ==> 0 <= i < s.len() && s[i] == '.',
    decreases s.len(),
{
    if s.len() > 0 && s.last() != '.' {
        lemma_last_dot(s.drop_last());
    }
}

/// The file name is `..`.
pub open spec fn is_parent_name(name: Seq<char>) -> bool {
    name == seq!['.', '.']
}

/// A file name's stem, as `Path::file_stem` gives it: the name before its
/// last `.`, or the whole name where it has no `.` but a leading one (and
/// for `..`).
pub open spec fn file_stem(name: Seq<char>) -> Seq<char> {
    if is_parent_name(name) {
        name
    } else {
        match last_dot(name) {
            Some(i) => if i == 0 {
                name
            } else {
                name.take(i)
            },
            None => name,
        }
    }
}

/// A file name's extension, as `Path::extension` gives it: the name after
/// its last `.`, where that `.` is not the first character (and not for `..`).
pub open spec fn extension(name: Seq<char>) -> Option<Seq<char>> {
    if is_parent_name(name) {
        None
    } else {
        match last_dot(name) {
            Some(i) => if i == 0 {
                None
            } else {
                Some(name.skip(i + 1))
            },
            None => None,
        }
    }
}

/// The index of the last `.` of a file name, if any.
fn find_last_dot(name: &Vec<char>) -> (r: Option<usize>)
    ensures
        match last_dot(name@) {
            Some(i) => r == Some(i as usize),
            None => r is None,
        },
{
    let mut n = name.len();
    assert(name@.take(n as int) =~= name@);
    while n > 0
        invariant
            n <= name@.len(),
            last_dot(name@) == last_dot(name@.take(n as int)),
        decreases n,
    {
        proof {
            assert(name@.take(n as int).drop_last() =~= name@.take(n - 1));
        }
        if name[n - 1] == '.' {
            return Some(n - 1);
        }
        n = n - 1;
    }
    None
}

/// A script found in the scripts folder: its name, and the folders its
/// imports are looked up in
#[derive(Debug)]
pub struct ScriptPlan {
    /// the script's name
    pub name: String,
    /// the module search path added for it
    pub module_paths: Vec<String>,
}

/// The characters of a slice of a text.
fn chars_between(v: &Vec<char>, from: usize, to: usize) -> (r: Vec<char>)
    requires
        from <= to <= v@.len(),
    ensures
        r@ == v@.subrange(from as int, to as int),
{
    let mut out: Vec<char> = Vec::new();
    let mut i: usize = from;
    while i < to
        invariant
            from <= i <= to <= v@.len(),
            out@ == v@.subrange(from as int, i as int),
        decreases to - i,
    {
        out.push(v[i]);
        i = i + 1;
        assert(out@ =~= v@.subrange(from as int, i as int));
    }
    out
}

/// Decides whether an entry of the scripts folder is a script to run. The
/// entry is at `depth` below the folder; scripts are files outside the
/// packages folder: a `.py` file directly in the folder (named by its
/// stem), or a `main.py` one folder down (named by that folder, which joins
/// its module search path). Every script also searches the packages folder.
pub fn plan_script(
    depth: usize,
    is_file: bool,
    in_packages: bool,
    file_name: &str,
    parent_name: &str,
    parent_path: &str,
    packages_path: &str,
) -> (r: Option<ScriptPlan>)
    ensures
        in_packages || !is_file ==> r is None,
        !in_packages && is_file && depth == 1 ==> match extension(file_name@) {
            Some(e) => if eq_ignore_ascii_case(e, seq!['p', 'y']) {
                r matches Some(p) && p.name@ == file_stem(file_name@) && p.module_paths@.len() == 1
                    && p.module_paths@[0]@ == packages_path@
            } else {
                r is None
            },
            None => r is None,
        },
        !in_packages && is_file && depth == 2 ==> if eq_ignore_ascii_case(
            file_name@,
            seq!['m', 'a', 'i', 'n', '.', 'p', 'y'],
        ) {
            r matches Some(p) && p.name@ == parent_name@ && p.module_paths@.len() == 2 && p.module_paths@[0]@
                == parent_path@ && p.module_paths@[1]@ == packages_path@
        } else {
            r is None
        },
        depth != 1 && depth != 2 ==> r is None,
{
    if in_packages || !is_file {
        return None;
    }
    let name = str_chars(file_name);
    if depth == 1 {
        if name.len() == 2 && name[0] == '.' && name[1] == '.' {
            assert(name@ =~= seq!['.', '.']);
            return None;
        }
        proof {
            if is_parent_name(name@) {
                assert(name@[0] == '.' && name@[1] == '.');
            }
        }
        proof {
            lemma_last_dot(name@);
            assert(!is_parent_name(name@));
        }
        match find_last_dot(&name) {
            Some(i) => {
                if i == 0 {
                    assert(extension(file_name@) is None);
                    return None;
                }
                let ext = chars_between(&name, i + 1, name.len());
                let py = vec!['p', 'y'];
                assert(py@ =~= seq!['p', 'y']);
                assert(ext@ =~= name@.skip(i + 1));
                if !chars_eq_ignore_ascii_case(ext.as_slice(), py.as_slice()) {
                    return None;
                }
                let stem = chars_between(&name, 0, i);
                assert(stem@ =~= name@.take(i as int));
                let mut paths: Vec<String> = Vec::new();
                paths.push(packages_path.to_owned());
                Some(ScriptPlan { name: string_from_chars(stem.as_slice()), module_paths: paths })
            },
            None => None,
        }
    } else if depth == 2 {
        let main = vec!['m', 'a', 'i', 'n', '.', 'p', 'y'];
        assert(main@ =~= seq!['m', 'a', 'i', 'n', '.', 'p', 'y']);
        if !chars_eq_ignore_ascii_case(name.as_slice(), main.as_slice()) {
            return None;
        }
        let mut paths: Vec<String> = Vec::new();
        paths.push(parent_path.to_owned());
        paths.push(packages_path.to_owned());
        Some(ScriptPlan { name: parent_name.to_owned(), module_paths: paths })
    } else {
        None
    }
}

} // verus!
