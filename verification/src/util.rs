//! Path handling on UTF-8 path strings.
//!
//! The pipeline rejects non-UTF-8 paths, so every path it works with is held
//! as a `String` with `/` as the separator. The operations here mirror the
//! usual hierarchical-path conventions: the file name is what follows the
//! last separator, and the extension is what follows the last dot of the
//! file name, unless that dot is its first character (a leading-dot name has
//! no extension).

use vstd::prelude::*;

verus! {

/// A path is absolute when it starts with the separator.
pub open spec fn is_absolute_spec(p: Seq<char>) -> bool {
    p.len() > 0 && p[0] == '/'
}

/// The position after the last `/`, or 0 when there is none: where the file
/// name starts.
pub open spec fn file_name_start(p: Seq<char>) -> int
    decreases p.len(),
{
    if p.len() == 0 {
        0
    } else if p.last() == '/' {
        p.len() as int
    } else {
        file_name_start(p.drop_last())
    }
}

/// The directory part of a path: everything before the file name, without a
/// trailing separator unless the parent is the root itself. The parent of a
/// bare file name is the empty path.
pub open spec fn parent_spec(p: Seq<char>) -> Seq<char> {
    let s = file_name_start(p);
    if s <= 1 {
        p.take(s)
    } else {
        p.take(s - 1)
    }
}

/// Joining a relative path onto a base: the base and the path with a single
/// separator between them; an empty base or a base that already ends with
/// the separator adds none.
pub open spec fn join_spec(base: Seq<char>, rel: Seq<char>) -> Seq<char> {
    if base.len() == 0 {
        rel
    } else if base.last() == '/' {
        base + rel
    } else {
        base + seq!['/'] + rel
    }
}

/// The position of the last `.` of the file name, where that dot separates a
/// non-empty stem from the extension; `p.len()` when the file name has no
/// extension.
pub open spec fn extension_dot(p: Seq<char>) -> int
    decreases p.len(),
{
    if p.len() == 0 {
        0
    } else if p.last() == '/' {
        p.len() as int
    } else if p.last() == '.' && p.len() - 1 > file_name_start(p) {
        (p.len() - 1) as int
    } else {
        let d = extension_dot(p.drop_last());
        if d == p.len() - 1 {
            p.len() as int
        } else {
            d
        }
    }
}

/// The path with its extension (if any) replaced by `ext`; an empty `ext`
/// removes the extension and its dot.
pub open spec fn with_extension_spec(p: Seq<char>, ext: Seq<char>) -> Seq<char> {
    let stem = p.take(extension_dot(p));
    if ext.len() == 0 {
        stem
    } else {
        stem + seq!['.'] + ext
    }
}

/// The result of `with_added_extension_but_stable`: the extension composes
/// with what is already there instead of replacing it.
pub open spec fn added_extension_spec(p: Seq<char>, ext: Seq<char>) -> Seq<char> {
    p + seq!['.'] + ext
}

/// Turns the characters of a string into a vector, one element per `char`.
///
/// Relies on `str::chars` and `FromIterator for Vec`: the characters of the
/// string, in order.
#[verifier::external_body]
fn path_chars(s: &str) -> (r: Vec<char>)
    ensures
        r@ == s@,
{
    s.chars().collect()
}

/// Builds a string whose characters are exactly the given vector.
///
/// Relies on `FromIterator for String`: the characters, in order.
#[verifier::external_body]
fn path_string(v: &Vec<char>) -> (r: String)
    ensures
        r@ == v@,
{
    v.iter().collect()
}

/// True when the path starts with the separator.
pub fn is_absolute(p: &str) -> (r: bool)
    ensures
        r == is_absolute_spec(p@),
{
    let chars = path_chars(p);
    chars.len() > 0 && chars[0] == '/'
}

/// Index right after the last `/`, or 0.
fn find_file_name_start(chars: &Vec<char>) -> (r: usize)
    ensures
        r == file_name_start(chars@),
        0 <= r <= chars@.len(),
{
    let mut i = chars.len();
    proof {
        assert(chars@.take(chars@.len() as int) =~= chars@);
    }
    while i > 0
        invariant
            0 <= i <= chars@.len(),
            file_name_start(chars@) == file_name_start(chars@.take(i as int)),
        decreases i,
    {
        if chars[i - 1] == '/' {
            proof {
                assert(chars@.take(i as int).last() == chars@[i as int - 1]);
            }
            return i;
        }
        proof {
            assert(chars@.take(i as int).last() == chars@[i as int - 1]);
            assert(chars@.take(i as int).drop_last() =~= chars@.take(i as int - 1));
        }
        i -= 1;
    }
    proof {
        assert(chars@.take(0).len() == 0);
    }
    0
}

/// The directory part of the path: `"src/a/x.doll"` gives `"src/a"`,
/// `"x.doll"` gives `""`, `"/x"` gives `"/"`.
pub fn parent(p: &str) -> (r: String)
    ensures
        r@ == parent_spec(p@),
{
    let chars = path_chars(p);
    let s = find_file_name_start(&chars);
    let keep: usize = if s <= 1 {
        s
    } else {
        s - 1
    };
    let mut out: Vec<char> = Vec::new();
    let mut i: usize = 0;
    while i < keep
        invariant
            0 <= i <= keep <= chars@.len(),
            chars@ == p@,
            out@ == p@.take(i as int),
        decreases keep - i,
    {
        out.push(chars[i]);
        proof {
            assert(p@.take(i as int + 1) =~= p@.take(i as int).push(p@[i as int]));
        }
        i += 1;
    }
    path_string(&out)
}

/// Joins a relative path onto a base directory.
pub fn join(base: &str, rel: &str) -> (r: String)
    ensures
        r@ == join_spec(base@, rel@),
{
    let bchars = path_chars(base);
    let mut out = bchars;
    if out.len() > 0 && out[out.len() - 1] != '/' {
        out.push('/');
        proof {
            assert(out@ =~= base@ + seq!['/']);
        }
    }
    let rchars = path_chars(rel);
    let ghost mid = out@;
    let mut i: usize = 0;
    while i < rchars.len()
        invariant
            0 <= i <= rchars@.len(),
            rchars@ == rel@,
            out@ == mid + rel@.take(i as int),
        decreases rchars@.len() - i,
    {
        out.push(rchars[i]);
        proof {
            assert(mid + rel@.take(i as int + 1) =~= (mid + rel@.take(i as int)).push(
                rel@[i as int],
            ));
        }
        i += 1;
    }
    proof {
        assert(rel@.take(rel@.len() as int) =~= rel@);
        if base@.len() == 0 {
            assert(mid + rel@ =~= rel@);
        }
    }
    path_string(&out)
}

/// Index of the dot that starts the extension, or the path's length when it
/// has no extension.
fn find_extension_dot(chars: &Vec<char>) -> (r: usize)
    ensures
        r == extension_dot(chars@),
        r <= chars@.len(),
{
    let n = chars.len();
    proof {
        lemma_extension_dot_le(chars@);
    }
    let start = find_file_name_start(chars);
    let mut i = n;
    while i > start
        invariant
            start <= i <= n,
            n == chars@.len(),
            start == file_name_start(chars@),
            forall|k: int| i <= k < n ==> chars@[k] != '/' && chars@[k] != '.',
        decreases i,
    {
        let c = chars[i - 1];
        if c == '.' {
            if i - 1 > start {
                proof {
                    lemma_extension_dot_found(chars@, i as int - 1);
                }
                return i - 1;
            } else {
                proof {
                    lemma_extension_dot_none(chars@, i as int - 1);
                }
                return n;
            }
        }
        proof {
            assert(chars@[i as int - 1] != '/') by {
                lemma_file_name_no_sep(chars@, i as int - 1);
            }
        }
        i -= 1;
    }
    proof {
        lemma_extension_dot_none_at_start(chars@);
    }
    n
}

proof fn lemma_extension_dot_le(p: Seq<char>)
    ensures
        0 <= extension_dot(p) <= p.len(),
        file_name_start(p) <= p.len(),
        0 <= file_name_start(p),
    decreases p.len(),
{
    if p.len() > 0 {
        lemma_extension_dot_le(p.drop_last());
    }
}

/// No separator stands at or after the file-name start.
proof fn lemma_file_name_no_sep(p: Seq<char>, k: int)
    requires
        file_name_start(p) <= k < p.len(),
    ensures
        p[k] != '/',
    decreases p.len(),
{
    lemma_extension_dot_le(p.drop_last());
    if k == p.len() - 1 {
        if p[k] == '/' {
            assert(file_name_start(p) == p.len());
        }
    } else {
        if p.last() == '/' {
            assert(file_name_start(p) == p.len());
        } else {
            lemma_file_name_no_sep(p.drop_last(), k);
        }
    }
}

/// A dot strictly after the file-name start, with nothing but plain
/// characters after it, is where the extension starts.
proof fn lemma_extension_dot_found(p: Seq<char>, d: int)
    requires
        file_name_start(p) < d < p.len(),
        p[d] == '.',
        forall|k: int| d < k < p.len() ==> p[k] != '/' && p[k] != '.',
    ensures
        extension_dot(p) == d,
    decreases p.len(),
{
    lemma_extension_dot_le(p.drop_last());
    if d == p.len() - 1 {
        assert(p.last() == '.');
    } else {
        assert(p.last() != '/' && p.last() != '.');
        assert(file_name_start(p.drop_last()) == file_name_start(p));
        lemma_extension_dot_found(p.drop_last(), d);
    }
}

/// A `/` stands right before the file-name start, when the start is not 0.
proof fn lemma_file_name_start_sep(p: Seq<char>)
    requires
        file_name_start(p) > 0,
    ensures
        p[file_name_start(p) - 1] == '/',
    decreases p.len(),
{
    lemma_extension_dot_le(p.drop_last());
    if p.len() > 0 && p.last() != '/' {
        lemma_file_name_start_sep(p.drop_last());
    }
}

/// A dot at the very start of the file name starts no extension when nothing
/// but plain characters follow it.
proof fn lemma_extension_dot_none(p: Seq<char>, d: int)
    requires
        file_name_start(p) == d,
        0 <= d < p.len(),
        p[d] == '.',
        forall|k: int| d < k < p.len() ==> p[k] != '/' && p[k] != '.',
    ensures
        extension_dot(p) == p.len(),
    decreases p.len(),
{
    lemma_extension_dot_le(p.drop_last());
    if d == p.len() - 1 {
        assert(p.last() == '.');
        // the part before the dot is empty or ends with the separator,
        // so it holds no extension dot of its own
        if d == 0 {
            assert(extension_dot(p.drop_last()) == d);
        } else {
            lemma_file_name_start_sep(p);
            assert(p.drop_last().last() == '/');
            assert(extension_dot(p.drop_last()) == d);
        }
    } else {
        assert(p.last() != '/' && p.last() != '.');
        assert(file_name_start(p.drop_last()) == file_name_start(p));
        lemma_extension_dot_none(p.drop_last(), d);
    }
}

/// A file name without any dot has no extension.
proof fn lemma_extension_dot_none_at_start(p: Seq<char>)
    requires
        forall|k: int| file_name_start(p) <= k < p.len() ==> p[k] != '/' && p[k] != '.',
    ensures
        extension_dot(p) == p.len(),
    decreases p.len(),
{
    lemma_extension_dot_le(p.drop_last());
    if p.len() > 0 && p.last() != '/' {
        assert(file_name_start(p) <= p.len() - 1);
        assert(p.last() != '.');
        assert(file_name_start(p.drop_last()) == file_name_start(p));
        lemma_extension_dot_none_at_start(p.drop_last());
    }
}

/// The path with its extension replaced by `ext` (`"a/x.doll"` with `"html"`
/// gives `"a/x.html"`; with `""` it gives `"a/x"`).
pub fn with_extension(p: &str, ext: &str) -> (r: String)
    ensures
        r@ == with_extension_spec(p@, ext@),
{
    let chars = path_chars(p);
    let dot = find_extension_dot(&chars);
    let mut out: Vec<char> = Vec::new();
    let mut i: usize = 0;
    while i < dot
        invariant
            0 <= i <= dot <= chars@.len(),
            chars@ == p@,
            out@ == p@.take(i as int),
        decreases dot - i,
    {
        out.push(chars[i]);
        proof {
            assert(p@.take(i as int + 1) =~= p@.take(i as int).push(p@[i as int]));
        }
        i += 1;
    }
    let echars = path_chars(ext);
    if echars.len() > 0 {
        out.push('.');
        let ghost mid = out@;
        let mut k: usize = 0;
        while k < echars.len()
            invariant
                0 <= k <= echars@.len(),
                echars@ == ext@,
                out@ == mid + ext@.take(k as int),
            decreases echars@.len() - k,
        {
            out.push(echars[k]);
            proof {
                assert(mid + ext@.take(k as int + 1) =~= (mid + ext@.take(k as int)).push(
                    ext@[k as int],
                ));
            }
            k += 1;
        }
        proof {
            assert(ext@.take(ext@.len() as int) =~= ext@);
            assert(mid =~= p@.take(extension_dot(p@)) + seq!['.']);
            assert(out@ =~= p@.take(extension_dot(p@)) + seq!['.'] + ext@);
        }
    }
    path_string(&out)
}

/// Appends `ext` so that it composes with any existing extension instead of
/// replacing it: `"page"` gives `"page.liquid"`, `"page.txt"` gives
/// `"page.txt.liquid"`.
pub fn with_added_extension_but_stable(p: &str, ext: &str) -> (r: String)
    ensures
        r@ == added_extension_spec(p@, ext@),
{
    let chars = path_chars(p);
    let mut out = chars;
    out.push('.');
    let echars = path_chars(ext);
    let ghost mid = out@;
    let mut k: usize = 0;
    while k < echars.len()
        invariant
            0 <= k <= echars@.len(),
            echars@ == ext@,
            out@ == mid + ext@.take(k as int),
        decreases echars@.len() - k,
    {
        out.push(echars[k]);
        proof {
            assert(mid + ext@.take(k as int + 1) =~= (mid + ext@.take(k as int)).push(
                ext@[k as int],
            ));
        }
        k += 1;
    }
    proof {
        assert(ext@.take(ext@.len() as int) =~= ext@);
        assert(mid =~= p@ + seq!['.']);
        assert(out@ =~= p@ + seq!['.'] + ext@);
    }
    path_string(&out)
}

} // verus!
