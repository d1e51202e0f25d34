//! Path text as Unix paths spell it: components, the final file name, and the
//! extension of that name.
use vstd::prelude::*;

use crate::text::{chars_of, find_char, lemma_find_char, lemma_find_char_at};

verus! {

/// A segment between separators that names something: neither empty nor `.`.
pub open spec fn names_component(seg: Seq<char>) -> bool {
    seg.len() > 0 && seg != seq!['.']
}

/// The components of a path: the pieces between `/` separators, leaving out the
/// empty ones (repeated or trailing separators) and the `.` ones.
pub open spec fn path_components(p: Seq<char>) -> Seq<Seq<char>>
    decreases p.len(),
{
    if p.len() == 0 {
        seq![]
    } else {
        let k = find_char(p, '/') as int;
        let seg = p.subrange(0, k);
        let rest = if k < p.len() {
            path_components(p.subrange(k + 1, p.len() as int))
        } else {
            Seq::<Seq<char>>::empty()
        };
        if names_component(seg) {
            seq![seg] + rest
        } else {
            rest
        }
    }
}

/// The final component of a path, unless there is none or it is `..`.
pub open spec fn path_file_name(p: Seq<char>) -> Option<Seq<char>> {
    let comps = path_components(p);
    if comps.len() == 0 || comps.last() == seq!['.', '.'] {
        None
    } else {
        Some(comps.last())
    }
}

/// Index of the last occurrence of `c` in `s`, or -1 when `c` does not occur.
pub open spec fn rfind_char(s: Seq<char>, c: char) -> int
    decreases s.len(),
{
    if s.len() == 0 {
        -1
    } else if s.last() == c {
        s.len() - 1
    } else {
        rfind_char(s.drop_last(), c)
    }
}

/// The extension of a file name: what follows its last `.`, unless the name
/// has no `.` or its only `.` is the first character.
pub open spec fn name_extension(name: Seq<char>) -> Option<Seq<char>> {
    let d = rfind_char(name, '.');
    if d <= 0 {
        None
    } else {
        Some(name.subrange(d + 1, name.len() as int))
    }
}

/// The extension of the file name of a path.
pub open spec fn path_extension(p: Seq<char>) -> Option<Seq<char>> {
    match path_file_name(p) {
        None => None,
        Some(name) => name_extension(name),
    }
}

proof fn lemma_rfind_char_at(s: Seq<char>, c: char, k: int)
    requires
        -1 <= k < s.len(),
        k >= 0 ==> s[k] == c,
        forall|j: int| k < j < s.len() ==> s[j] != c,
    ensures
        rfind_char(s, c) == k,
    decreases s.len(),
{
    if s.len() > 0 && k < s.len() - 1 {
        assert(s.last() != c);
        lemma_rfind_char_at(s.drop_last(), c, k);
    }
}

/// Unfolds `path_components` at the first separator of `p[start..]`.
proof fn lemma_components_step(p: Seq<char>, start: int, i: int)
    requires
        0 <= start <= i < p.len(),
        p[i] == '/',
        forall|j: int| start <= j < i ==> p[j] != '/',
    ensures
        path_components(p.subrange(start, p.len() as int)) == (if names_component(
            p.subrange(start, i),
        ) {
            seq![p.subrange(start, i)]
        } else {
            Seq::<Seq<char>>::empty()
        }) + path_components(p.subrange(i + 1, p.len() as int)),
{
    let q = p.subrange(start, p.len() as int);
    assert forall|j: int| 0 <= j < i - start implies q[j] != '/' by {
        assert(q[j] == p[start + j]);
    }
    lemma_find_char_at(q, '/', i - start);
    assert(q.subrange(0, i - start) =~= p.subrange(start, i));
    assert(q.subrange(i - start + 1, q.len() as int) =~= p.subrange(i + 1, p.len() as int));
    if names_component(p.subrange(start, i)) {
    } else {
        assert(Seq::<Seq<char>>::empty() + path_components(p.subrange(i + 1, p.len() as int))
            =~= path_components(p.subrange(i + 1, p.len() as int)));
    }
}

/// Unfolds `path_components` on a final piece without separators.
proof fn lemma_components_last(p: Seq<char>, start: int)
    requires
        0 <= start <= p.len(),
        forall|j: int| start <= j < p.len() ==> p[j] != '/',
    ensures
        path_components(p.subrange(start, p.len() as int)) == (if names_component(
            p.subrange(start, p.len() as int),
        ) {
            seq![p.subrange(start, p.len() as int)]
        } else {
            Seq::<Seq<char>>::empty()
        }),
{
    let q = p.subrange(start, p.len() as int);
    if q.len() > 0 {
        assert forall|j: int| 0 <= j < q.len() implies q[j] != '/' by {
            assert(q[j] == p[start + j]);
        }
        lemma_find_char_at(q, '/', q.len() as int);
        assert(q.subrange(0, q.len() as int) =~= q);
        if names_component(q) {
            assert(seq![q] + Seq::<Seq<char>>::empty() =~= seq![q]);
        }
    } else {
        assert(!names_component(q));
    }
}

/// Bounds `(a, b)` of the final component of `path`, within its characters
/// `cs`, when the path has a file name.
fn file_name_bounds(path: &str, cs: &Vec<char>) -> (r: Option<(usize, usize)>)
    requires
        cs@ == path@,
    ensures
        match r {
            None => path_file_name(path@) is None,
            Some((a, b)) => a <= b <= cs.len() && path_file_name(path@) == Some(
                cs@.subrange(a as int, b as int),
            ),
        },
{
    let n = cs.len();
    let mut start: usize = 0;
    let mut last: Option<(usize, usize)> = None;
    let ghost mut done: Seq<Seq<char>> = seq![];
    let mut i: usize = 0;
    assert(cs@.subrange(0, n as int) =~= cs@);
    while i < n
        invariant
            n == cs.len(),
            cs@ == path@,
            start <= i <= n,
            forall|j: int| start <= j < i ==> cs@[j] != '/',
            path_components(path@) == done + path_components(cs@.subrange(start as int, n as int)),
            match last {
                None => done.len() == 0,
                Some((a, b)) => a <= b <= n && done.len() > 0 && done.last() == cs@.subrange(
                    a as int,
                    b as int,
                ),
            },
        decreases n - i,
    {
        if cs[i] == '/' {
            proof {
                lemma_components_step(cs@, start as int, i as int);
            }
            let keep = !(i == start || (i - start == 1 && cs[start] == '.'));
            let ghost seg = cs@.subrange(start as int, i as int);
            proof {
                if i - start == 1 && cs@[start as int] == '.' {
                    assert(seg =~= seq!['.']);
                }
            }
            assert(keep == names_component(seg));
            if keep {
                proof {
                    assert(done + (seq![seg] + path_components(cs@.subrange(i + 1, n as int)))
                        =~= done.push(seg) + path_components(cs@.subrange(i + 1, n as int)));
                    done = done.push(seg);
                }
                last = Some((start, i));
            } else {
                assert(done + (Seq::<Seq<char>>::empty() + path_components(
                    cs@.subrange(i + 1, n as int),
                )) =~= done + path_components(cs@.subrange(i + 1, n as int)));
            }
            start = i + 1;
        }
        i += 1;
    }
    proof {
        lemma_components_last(cs@, start as int);
    }
    let ghost seg = cs@.subrange(start as int, n as int);
    let keep = !(n == start || (n - start == 1 && cs[start] == '.'));
    proof {
        if n - start == 1 && cs@[start as int] == '.' {
            assert(seg =~= seq!['.']);
        }
    }
    assert(keep == names_component(seg));
    if keep {
        assert(path_components(path@) =~= done.push(seg));
        last = Some((start, n));
    } else {
        assert(path_components(path@) =~= done);
    }
    match last {
        None => None,
        Some((a, b)) => {
            if b - a == 2 && cs[a] == '.' && cs[a + 1] == '.' {
                assert(cs@.subrange(a as int, b as int) =~= seq!['.', '.']);
                None
            } else {
                Some((a, b))
            }
        },
    }
}

/// The file name of a path, as `Path::file_name` gives it for Unix paths.
pub fn file_name(path: &str) -> (name: Option<String>)
    ensures
        match name {
            None => path_file_name(path@) is None,
            Some(n) => path_file_name(path@) == Some(n@),
        },
{
    let cs = chars_of(path);
    match file_name_bounds(path, &cs) {
        None => None,
        Some((a, b)) => Some(path.substring_char(a, b).to_owned()),
    }
}

/// The extension of a path, as `Path::extension` gives it for Unix paths.
pub fn extension(path: &str) -> (ext: Option<String>)
    ensures
        match ext {
            None => path_extension(path@) is None,
            Some(e) => path_extension(path@) == Some(e@),
        },
{
    let cs = chars_of(path);
    match file_name_bounds(path, &cs) {
        None => None,
        Some((a, b)) => {
            let ghost name = cs@.subrange(a as int, b as int);
            // last '.' of the name
            let mut k: usize = b;
            while k > a && cs[k - 1] != '.'
                invariant
                    a <= k <= b <= cs.len(),
                    forall|j: int| k <= j < b ==> cs@[j] != '.',
                decreases k - a,
            {
                k -= 1;
            }
            proof {
                if k > a && cs@[k - 1] == '.' {
                    assert forall|j: int| k - 1 - a < j < name.len() implies name[j] != '.' by {
                        assert(name[j] == cs@[a + j]);
                    }
                    lemma_rfind_char_at(name, '.', k - 1 - a);
                } else {
                    assert forall|j: int| -1 < j < name.len() implies name[j] != '.' by {
                        assert(name[j] == cs@[a + j]);
                    }
                    lemma_rfind_char_at(name, '.', -1);
                }
            }
            if k - a > 1 && cs[k - 1] == '.' {
                assert(name.subrange(k - a, name.len() as int) =~= cs@.subrange(k as int, b as int));
                Some(path.substring_char(k, b).to_owned())
            } else {
                None
            }
        },
    }
}

/// The code of a character after ASCII lower-casing: `A`..=`Z` map to `a`..=`z`,
/// every other character stays.
pub open spec fn ascii_lower_code(c: char) -> u32 {
    let x = c as u32;
    if 65 <= x <= 90 {
        (x + 32) as u32
    } else {
        x
    }
}

/// A name without separators that names something is its own only component.
proof fn lemma_components_of_name(name: Seq<char>)
    requires
        names_component(name),
        forall|j: int| 0 <= j < name.len() ==> name[j] != '/',
    ensures
        path_components(name) == seq![name],
{
    lemma_find_char_at(name, '/', name.len() as int);
    assert(name.subrange(0, name.len() as int) =~= name);
    assert(seq![name] + Seq::<Seq<char>>::empty() =~= seq![name]);
}

/// Appending a separator and a name without separators appends that name to
/// the components.
proof fn lemma_components_append(p: Seq<char>, name: Seq<char>)
    requires
        names_component(name),
        forall|j: int| 0 <= j < name.len() ==> name[j] != '/',
    ensures
        path_components(p + seq!['/'] + name) == path_components(p) + seq![name],
    decreases p.len(),
{
    let q = p + seq!['/'] + name;
    lemma_components_of_name(name);
    lemma_find_char(p, '/');
    let k = find_char(p, '/') as int;
    if p.len() == 0 {
        lemma_find_char_at(q, '/', 0);
        assert(q.subrange(1, q.len() as int) =~= name);
        assert(q.subrange(0, 0) =~= Seq::<char>::empty());
        assert(path_components(p) == Seq::<Seq<char>>::empty());
        assert(path_components(q) == path_components(name));
        assert(Seq::<Seq<char>>::empty() + seq![name] =~= seq![name]);
    } else if k < p.len() {
        assert forall|j: int| 0 <= j < k implies q[j] != '/' by {
            assert(q[j] == p[j]);
        }
        assert(q[k] == p[k]);
        lemma_find_char_at(q, '/', k);
        let p2 = p.subrange(k + 1, p.len() as int);
        assert(q.subrange(k + 1, q.len() as int) =~= p2 + seq!['/'] + name);
        assert(q.subrange(0, k) =~= p.subrange(0, k));
        lemma_components_append(p2, name);
        let seg = p.subrange(0, k);
        if names_component(seg) {
            assert(seq![seg] + (path_components(p2) + seq![name]) =~= (seq![seg] + path_components(
                p2,
            )) + seq![name]);
        }
    } else {
        assert forall|j: int| 0 <= j < p.len() implies q[j] != '/' by {
            assert(q[j] == p[j]);
        }
        assert(q[p.len() as int] == '/');
        lemma_find_char_at(q, '/', p.len() as int);
        assert(q.subrange(p.len() as int + 1, q.len() as int) =~= name);
        assert(q.subrange(0, p.len() as int) =~= p);
        assert(p.subrange(0, p.len() as int) =~= p);
        assert(path_components(p) == (if names_component(p) {
            seq![p]
        } else {
            Seq::<Seq<char>>::empty()
        }) + Seq::<Seq<char>>::empty());
        if names_component(p) {
            assert(seq![p] + Seq::<Seq<char>>::empty() =~= seq![p]);
        } else {
            assert(Seq::<Seq<char>>::empty() + Seq::<Seq<char>>::empty() =~= Seq::<Seq<char>>::empty());
            assert(Seq::<Seq<char>>::empty() + seq![name] =~= seq![name]);
        }
    }
}

/// A file name joined onto a folder is the file name of the result, and its
/// extension is the extension of the result: moving a file into a folder
/// keeps its name. (The name must name something: not empty, `.` or `..`,
/// and without a separator.)
pub proof fn law_joined_path_keeps_the_name(dir: Seq<char>, name: Seq<char>)
    requires
        names_component(name),
        name != seq!['.', '.'],
        forall|j: int| 0 <= j < name.len() ==> name[j] != '/',
    ensures
        path_file_name(join_path(dir, name)) == Some(name),
        path_extension(join_path(dir, name)) == name_extension(name),
{
    lemma_components_of_name(name);
    if dir.len() == 0 {
        assert(join_path(dir, name) =~= name);
    } else if dir.last() == '/' {
        let d = dir.drop_last();
        assert(join_path(dir, name) =~= d + seq!['/'] + name);
        lemma_components_append(d, name);
    } else {
        lemma_components_append(dir, name);
    }
}

/// The extension of a name is what follows its last `.`: a stem that is not
/// empty, a `.`, and a tail without `.` give that tail.
pub proof fn law_extension_after_last_dot(stem: Seq<char>, ext: Seq<char>)
    requires
        stem.len() > 0,
        forall|j: int| 0 <= j < ext.len() ==> ext[j] != '.',
    ensures
        name_extension(stem + seq!['.'] + ext) == Some(ext),
{
    let name = stem + seq!['.'] + ext;
    assert forall|j: int| stem.len() < j < name.len() implies name[j] != '.' by {
        assert(name[j] == ext[j - stem.len() - 1]);
    }
    lemma_rfind_char_at(name, '.', stem.len() as int);
    assert(name.subrange(stem.len() as int + 1, name.len() as int) =~= ext);
}

/// ASCII lower-casing takes each capital letter `A`..=`Z` to its small
/// letter, 32 code points on, and leaves every other character as it is.
pub proof fn law_ascii_lower_letters_map_to_small(c: char)
    ensures
        'A' as u32 <= c as u32 <= 'Z' as u32 ==> ascii_lower_code(c) == c as u32 + 32,
        !('A' as u32 <= c as u32 <= 'Z' as u32) ==> ascii_lower_code(c) == c as u32,
        ascii_lower_code('W') == 'w' as u32,
        ascii_lower_code('Z') == 'z' as u32,
        ascii_lower_code('A') == 'a' as u32,
{
}

/// Two texts that are equal up to the case of ASCII letters.
pub open spec fn eq_ignore_ascii_case(a: Seq<char>, b: Seq<char>) -> bool {
    &&& a.len() == b.len()
    &&& forall|i: int| 0 <= i < a.len() ==> ascii_lower_code(a[i]) == ascii_lower_code(b[i])
}

/// Whether the path's extension equals one of `exts`, ignoring ASCII case.
pub open spec fn has_any_extension(p: Seq<char>, exts: Seq<Seq<char>>) -> bool {
    match path_extension(p) {
        None => false,
        Some(e) => exists|i: int| 0 <= i < exts.len() && eq_ignore_ascii_case(#[trigger] exts[i], e),
    }
}

fn lower_code(c: char) -> (r: u32)
    ensures
        r == ascii_lower_code(c),
{
    let x = c as u32;
    if 65 <= x && x <= 90 {
        x + 32
    } else {
        x
    }
}

/// `str::eq_ignore_ascii_case`: equality up to the case of ASCII letters.
pub fn str_eq_ignore_ascii_case(a: &str, b: &str) -> (r: bool)
    ensures
        r == eq_ignore_ascii_case(a@, b@),
{
    let ac = chars_of(a);
    let bc = chars_of(b);
    if ac.len() != bc.len() {
        return false;
    }
    let mut i: usize = 0;
    while i < ac.len()
        invariant
            ac@ == a@,
            bc@ == b@,
            ac.len() == bc.len(),
            i <= ac.len(),
            forall|j: int| 0 <= j < i ==> ascii_lower_code(a@[j]) == ascii_lower_code(b@[j]),
        decreases ac.len() - i,
    {
        if lower_code(ac[i]) != lower_code(bc[i]) {
            return false;
        }
        i += 1;
    }
    true
}

/// Paths that can say whether they carry one of a list of extensions.
pub trait FileExtension {
    /// The path's text.
    spec fn path_text(&self) -> Seq<char>;

    /// Whether the path's extension is one of `extensions`, ignoring ASCII case.
    fn has_extension(&self, extensions: &[&str]) -> (r: bool)
        ensures
            r == has_any_extension(self.path_text(), extensions@.map_values(|e: &str| e@)),
    ;
}

impl FileExtension for String {
    open spec fn path_text(&self) -> Seq<char> {
        self@
    }

    fn has_extension(&self, extensions: &[&str]) -> (r: bool) {
        let ghost exts = extensions@.map_values(|e: &str| e@);
        match extension(self.as_str()) {
            None => false,
            Some(ext) => {
                let mut i: usize = 0;
                while i < extensions.len()
                    invariant
                        i <= extensions@.len(),
                        exts == extensions@.map_values(|e: &str| e@),
                        path_extension(self@) == Some(ext@),
                        forall|j: int| 0 <= j < i ==> !eq_ignore_ascii_case(#[trigger] exts[j], ext@),
                    decreases extensions@.len() - i,
                {
                    if str_eq_ignore_ascii_case(extensions[i], ext.as_str()) {
                        assert(eq_ignore_ascii_case(exts[i as int], ext@));
                        return true;
                    }
                    i += 1;
                }
                false
            },
        }
    }
}

/// A directory path with a relative name appended, the way `PathBuf::push`
/// appends it: a `/` goes between them unless the directory is empty or
/// already ends with one.
pub open spec fn join_path(dir: Seq<char>, name: Seq<char>) -> Seq<char> {
    if dir.len() == 0 || dir.last() == '/' {
        dir + name
    } else {
        dir + seq!['/'] + name
    }
}

/// Appends a relative name to a directory path (see `join_path`).
pub fn join_file_name(dir: &str, name: &str) -> (joined: String)
    ensures
        joined@ == join_path(dir@, name@),
{
    let n = dir.unicode_len();
    let mut joined = dir.to_owned();
    if n > 0 && dir.get_char(n - 1) != '/' {
        joined.append("/");
        proof {
            reveal_strlit("/");
        }
    }
    joined.append(name);
    joined
}

} // verus!
