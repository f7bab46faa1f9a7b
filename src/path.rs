//! Paths and keys as UTF-8 byte sequences.
//!
//! A path names a node of the virtual hierarchy; its components are separated
//! by `/`. Stored keys carry no leading or trailing separator, and the root is
//! the empty string: a top-level entry `a` is stored as `a`, its child `b` as
//! `a/b`. A path handed in by a caller is brought to that form by
//! [`normalize_path`] before it is used.
use vstd::prelude::*;
use vstd::string::{StringExecFns, StringSliceAdditionalSpecFns};
use vstd::utf8::*;

verus! {

broadcast use group_utf8_lib;

/// The byte that separates path components (`/`).
pub const SEPARATOR: u8 = 0x2f;

/// `s` with every leading separator removed.
pub open spec fn trim_leading(s: Seq<u8>) -> Seq<u8>
    decreases s.len(),
{
    if s.len() > 0 && s[0] == SEPARATOR {
        trim_leading(s.drop_first())
    } else {
        s
    }
}

/// `s` with every trailing separator removed.
pub open spec fn trim_trailing(s: Seq<u8>) -> Seq<u8>
    decreases s.len(),
{
    if s.len() > 0 && s.last() == SEPARATOR {
        trim_trailing(s.drop_last())
    } else {
        s
    }
}

/// The normalized form of a path: no leading and no trailing separator.
pub open spec fn normalize(s: Seq<u8>) -> Seq<u8> {
    trim_trailing(trim_leading(s))
}

/// The key of the entry `name` in the normalized directory `dir`: `name`
/// itself in the root, else `dir`, a separator and `name`.
pub open spec fn child_key(dir: Seq<u8>, name: Seq<u8>) -> Seq<u8> {
    if dir.len() == 0 {
        name
    } else {
        dir + seq![SEPARATOR] + name
    }
}

/// The component that `key` holds after `dir` and one separator (the whole
/// key in the root).
pub open spec fn child_component(dir: Seq<u8>, key: Seq<u8>) -> Seq<u8> {
    if dir.len() == 0 {
        key
    } else {
        key.subrange(dir.len() + 1int, key.len() as int)
    }
}

/// `key` lies directly below `dir`: it is `child_key(dir, name)` for a
/// non-empty `name` that holds no separator.
pub open spec fn is_direct_child(dir: Seq<u8>, key: Seq<u8>) -> bool {
    if dir.len() == 0 {
        key.len() > 0 && !key.contains(SEPARATOR)
    } else {
        &&& key.len() > dir.len() + 1
        &&& key.subrange(0, dir.len() as int) == dir
        &&& key[dir.len() as int] == SEPARATOR
        &&& !child_component(dir, key).contains(SEPARATOR)
    }
}

/// Index 1 of a valid UTF-8 text that starts with a separator is a character boundary.
proof fn lemma_boundary_after_first(bytes: Seq<u8>)
    requires
        valid_utf8(bytes),
        bytes.len() > 0,
        bytes[0] == SEPARATOR,
    ensures
        is_char_boundary(bytes, 1),
{
    reveal_with_fuel(is_char_boundary, 2);
    assert(length_of_first_scalar(bytes) == 1);
}

/// The index of a separator in a valid UTF-8 text is a character boundary.
proof fn lemma_boundary_at_separator(bytes: Seq<u8>, i: int)
    requires
        valid_utf8(bytes),
        0 <= i < bytes.len(),
        bytes[i] == SEPARATOR,
    ensures
        is_char_boundary(bytes, i),
{
    assert(!is_continuation_byte(bytes[i]));
}

/// Removes the leading and trailing separators of `path`.
pub fn normalize_path(path: &str) -> (r: &str)
    ensures
        r.spec_bytes() == normalize(path.spec_bytes()),
{
    let mut s = path;
    loop
        invariant
            trim_leading(s.spec_bytes()) == trim_leading(path.spec_bytes()),
        ensures
            trim_leading(s.spec_bytes()) == trim_leading(path.spec_bytes()),
            s.spec_bytes().len() == 0 || s.spec_bytes()[0] != SEPARATOR,
        decreases s.spec_bytes().len(),
    {
        let b = s.as_bytes();
        if b.len() == 0 || b[0] != SEPARATOR {
            break;
        }
        proof {
            lemma_boundary_after_first(s.spec_bytes());
            assert(s.spec_bytes().drop_first() =~= s.spec_bytes().subrange(1, s.spec_bytes().len() as int));
        }
        let (_, rest) = s.split_at(1);
        s = rest;
    }
    assert(trim_leading(s.spec_bytes()) == s.spec_bytes());
    let ghost lead = s.spec_bytes();
    loop
        invariant
            trim_trailing(s.spec_bytes()) == trim_trailing(lead),
        ensures
            trim_trailing(s.spec_bytes()) == trim_trailing(lead),
            s.spec_bytes().len() == 0 || s.spec_bytes().last() != SEPARATOR,
        decreases s.spec_bytes().len(),
    {
        let b = s.as_bytes();
        let n = b.len();
        if n == 0 || b[n - 1] != SEPARATOR {
            break;
        }
        proof {
            lemma_boundary_at_separator(s.spec_bytes(), n - 1);
            assert(s.spec_bytes().drop_last() =~= s.spec_bytes().subrange(0, n - 1));
        }
        let (front, _) = s.split_at(n - 1);
        s = front;
    }
    s
}

/// The pattern that matches every key below the normalized directory `dir`:
/// `dir` followed by `/*`, or `*` for the root, whose keys have no leading
/// separator. It matches grandchildren too; [`child_name`] tells the direct
/// children apart.
pub fn glob_pattern(dir: &str) -> (r: String)
    ensures
        dir@.len() > 0 ==> r@ == dir@ + seq!['/', '*'],
        dir@.len() == 0 ==> r@ == seq!['*'],
{
    if dir.is_empty() {
        let pattern = "*".to_owned();
        proof {
            reveal_strlit("*");
        }
        pattern
    } else {
        let mut pattern = dir.to_owned();
        pattern.append("/*");
        proof {
            reveal_strlit("/*");
        }
        pattern
    }
}

/// The name of `key` in the root: the key itself, when it is non-empty and
/// holds no separator.
fn top_level_name<'a>(key: &'a str) -> (r: Option<&'a str>)
    ensures
        r is Some <==> is_direct_child(Seq::<u8>::empty(), key.spec_bytes()),
        r is Some ==> r->Some_0.spec_bytes() == key.spec_bytes(),
{
    let k = key.as_bytes();
    if k.len() == 0 {
        return None;
    }
    let mut j: usize = 0;
    while j < k.len()
        invariant
            k@ == key.spec_bytes(),
            j <= k@.len(),
            forall|m: int| 0 <= m < j ==> k@[m] != SEPARATOR,
        decreases k@.len() - j,
    {
        if k[j] == SEPARATOR {
            assert(k@[j as int] == SEPARATOR);
            return None;
        }
        j = j + 1;
    }
    Some(key)
}

/// The name under which `key` is listed in the normalized directory `dir`:
/// the component after `dir` and its separator (the whole key in the root),
/// when `key` is a direct child
/// of `dir`, and `None` otherwise (the directory itself, a deeper descendant,
/// or a key outside `dir`).
pub fn child_name<'a>(dir: &str, key: &'a str) -> (r: Option<&'a str>)
    ensures
        r is Some <==> is_direct_child(dir.spec_bytes(), key.spec_bytes()),
        r is Some ==> r->Some_0.spec_bytes() == child_component(dir.spec_bytes(), key.spec_bytes()),
{
    let d = dir.as_bytes();
    let k = key.as_bytes();
    let n = d.len();
    if n == 0 {
        return top_level_name(key);
    }
    if k.len() == 0 || k.len() - 1 <= n {
        return None;
    }
    let mut i: usize = 0;
    while i < n
        invariant
            k@ == key.spec_bytes(),
            d@ == dir.spec_bytes(),
            n == d@.len(),
            n < k@.len(),
            i <= n,
            forall|j: int| 0 <= j < i ==> k@[j] == d@[j],
        decreases n - i,
    {
        if k[i] != d[i] {
            assert(k@.subrange(0, n as int)[i as int] != d@[i as int]);
            return None;
        }
        i = i + 1;
    }
    assert(k@.subrange(0, n as int) =~= d@);
    if k[n] != SEPARATOR {
        return None;
    }
    let mut j: usize = n + 1;
    while j < k.len()
        invariant
            k@ == key.spec_bytes(),
            d@ == dir.spec_bytes(),
            n == d@.len(),
            0 < n < k@.len(),
            n + 1 <= j <= k@.len(),
            forall|m: int| n + 1 <= m < j ==> k@[m] != SEPARATOR,
        decreases k@.len() - j,
    {
        if k[j] == SEPARATOR {
            assert(child_component(d@, k@)[j - (n + 1)] == SEPARATOR);
            return None;
        }
        j = j + 1;
    }
    assert(!child_component(d@, k@).contains(SEPARATOR));
    proof {
        lemma_boundary_at_separator(k@, n as int);
    }
    let (_, tail) = key.split_at(n);
    proof {
        lemma_boundary_after_first(tail.spec_bytes());
    }
    let (_, name) = tail.split_at(1);
    assert(name.spec_bytes() =~= child_component(d@, k@));
    Some(name)
}

} // verus!
