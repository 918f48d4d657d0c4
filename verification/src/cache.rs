//! Where cached data lives: the cache root, installed once, and one
//! directory per named entry below it.

use vstd::prelude::*;

use crate::text::{alphanumeric, chars_of, is_alphanumeric, push_char};

verus! {

/// A space becomes `-`; every other character stays.
pub open spec fn safe_char(c: char) -> char {
    if c == ' ' {
        '-'
    } else {
        c
    }
}

/// The characters a safe path keeps: alphanumerics, `-` and `_`.
pub open spec fn kept(c: char) -> bool {
    alphanumeric(c) || c == '-' || c == '_'
}

/// `s` with spaces turned into `-`, then every character dropped that is not
/// alphanumeric, `-` or `_`.
pub open spec fn safe_path_spec(s: Seq<char>) -> Seq<char>
    decreases s.len(),
{
    if s.len() == 0 {
        Seq::<char>::empty()
    } else {
        let rest = safe_path_spec(s.drop_last());
        let c = safe_char(s.last());
        if kept(c) {
            rest.push(c)
        } else {
            rest
        }
    }
}

/// `child` below `base`, as `Path::join` forms it on Unix: an absolute
/// `child` replaces `base`; otherwise a `/` separates them unless `base` is
/// empty or already ends with one.
pub open spec fn join_spec(base: Seq<char>, child: Seq<char>) -> Seq<char> {
    if child.len() > 0 && child[0] == '/' {
        child
    } else if base.len() == 0 || base.last() == '/' {
        base + child
    } else {
        base + seq!['/'] + child
    }
}

/// Every character of `s` is kept and none is a space.
pub open spec fn is_safe(s: Seq<char>) -> bool {
    forall|i: int| 0 <= i < s.len() ==> kept(#[trigger] s[i]) && s[i] != ' '
}

/// Turns a path into one made only of alphanumerics, `-` and `_`.
pub fn to_safe_path(s: &str) -> (out: String)
    ensures
        out@ == safe_path_spec(s@),
{
    let chars = chars_of(s);
    let n = chars.len();
    let mut out = String::new();
    let mut i: usize = 0;
    while i < n
        invariant
            n == s@.len(),
            chars@ == s@,
            i <= n,
            out@ == safe_path_spec(s@.take(i as int)),
        decreases n - i,
    {
        let c = if chars[i] == ' ' {
            '-'
        } else {
            chars[i]
        };
        proof {
            let t = s@.take(i + 1);
            assert(t.drop_last() =~= s@.take(i as int));
            assert(t.last() == s@[i as int]);
        }
        if is_alphanumeric(c) || c == '-' || c == '_' {
            push_char(&mut out, c);
        }
        i = i + 1;
    }
    assert(s@.take(n as int) =~= s@);
    out
}

/// The output of `safe_path_spec` is safe.
pub proof fn lemma_safe_path_is_safe(s: Seq<char>)
    ensures
        is_safe(safe_path_spec(s)),
    decreases s.len(),
{
    if s.len() > 0 {
        lemma_safe_path_is_safe(s.drop_last());
    }
}

/// A safe text passes through unchanged.
pub proof fn lemma_safe_path_of_safe(s: Seq<char>)
    requires
        is_safe(s),
    ensures
        safe_path_spec(s) == s,
    decreases s.len(),
{
    if s.len() > 0 {
        let t = s.drop_last();
        assert(is_safe(t)) by {
            assert forall|i: int| 0 <= i < t.len() implies kept(#[trigger] t[i]) && t[i] != ' ' by {
                assert(t[i] == s[i]);
            }
        }
        lemma_safe_path_of_safe(t);
        assert(kept(s[s.len() - 1]) && s[s.len() - 1] != ' ');
        assert(t.push(s.last()) =~= s);
    }
}

/// Making a path safe twice changes nothing more than making it safe once;
/// the result holds no space and only alphanumerics, `-` and `_`.
pub proof fn law_safe_path_idempotent(s: Seq<char>)
    ensures
        safe_path_spec(safe_path_spec(s)) == safe_path_spec(s),
        is_safe(safe_path_spec(s)),
{
    lemma_safe_path_is_safe(s);
    lemma_safe_path_of_safe(safe_path_spec(s));
}

/// A safe path holds no separator and no dot, so it never climbs out of
/// nor jumps past the directory it is joined below.
pub proof fn law_safe_path_has_no_separator(s: Seq<char>)
    ensures
        forall|i: int|
            0 <= i < safe_path_spec(s).len() ==> #[trigger] safe_path_spec(s)[i] != '/'
                && safe_path_spec(s)[i] != '.',
{
    lemma_safe_path_is_safe(s);
    assert forall|i: int| 0 <= i < safe_path_spec(s).len() implies #[trigger] safe_path_spec(
        s,
    )[i] != '/' && safe_path_spec(s)[i] != '.' by {
        assert(kept(safe_path_spec(s)[i]));
    }
}

/// The directory of a cache entry lies directly below the root: the root,
/// a separator unless the root is empty or ends with one, then the safe
/// form of the entry's name.
pub proof fn law_entry_below_root(root: Seq<char>, name: Seq<char>)
    ensures
        join_spec(root, safe_path_spec(name)) == root + (if root.len() == 0 || root.last()
            == '/' {
            Seq::<char>::empty()
        } else {
            seq!['/']
        }) + safe_path_spec(name),
{
    law_safe_path_has_no_separator(name);
    let child = safe_path_spec(name);
    if child.len() > 0 {
        assert(child[0] != '/');
    }
    if root.len() == 0 || root.last() == '/' {
        assert(root + child =~= root + Seq::<char>::empty() + child);
    }
}

/// `child` joined below `base` (see `join_spec`).
pub fn join_path(base: &str, child: &str) -> (out: String)
    ensures
        out@ == join_spec(base@, child@),
{
    let nb = base.unicode_len();
    let nc = child.unicode_len();
    if nc > 0 && child.get_char(0) == '/' {
        String::from_str(child)
    } else if nb == 0 || base.get_char(nb - 1) == '/' {
        let mut out = String::from_str(base);
        out.append(child);
        out
    } else {
        let mut out = String::from_str(base);
        out.append("/");
        out.append(child);
        proof {
            reveal_strlit("/");
        }
        out
    }
}

/// The cache root, which can be installed once.
#[derive(Debug)]
pub struct Cache {
    loc: Option<String>,
}

/// One named entry of the cache and the directory that holds its files.
#[derive(Debug)]
pub struct CacheContainer {
    pub name: String,
    pub loc: String,
}

impl Cache {
    /// The installed root, if any.
    pub closed spec fn root(&self) -> Option<Seq<char>> {
        match self.loc {
            Some(l) => Some(l@),
            None => None,
        }
    }

    /// A cache with no root installed yet.
    pub fn new() -> (c: Cache)
        ensures
            c.root() is None,
    {
        Cache { loc: None }
    }

    /// Installs the root at `loc`, as given. Only the first install takes
    /// effect; a later one is refused and hands `loc` back.
    pub fn install(&mut self, loc: &str) -> (r: Result<(), String>)
        ensures
            match old(self).root() {
                None => r is Ok && final(self).root() == Some(loc@),
                Some(prev) => final(self).root() == Some(prev) && (match r {
                    Err(p) => p@ == loc@,
                    Ok(_) => false,
                }),
            },
    {
        let given = String::from_str(loc);
        if self.loc.is_some() {
            Err(given)
        } else {
            self.loc = Some(given);
            Ok(())
        }
    }

    /// Whether a root is installed.
    pub fn is_installed(&self) -> (r: bool)
        ensures
            r == self.root() is Some,
    {
        self.loc.is_some()
    }

    /// The installed root.
    pub fn loc(&self) -> (l: &str)
        requires
            self.root() is Some,
        ensures
            l@ == self.root()->0,
    {
        match &self.loc {
            Some(l) => l.as_str(),
            None => "",
        }
    }

    /// The entry called `name`: its directory is the safe form of `name`
    /// below the root.
    pub fn entry(&self, name: &str) -> (c: CacheContainer)
        requires
            self.root() is Some,
        ensures
            c.name@ == name@,
            c.loc@ == join_spec(self.root()->0, safe_path_spec(name@)),
    {
        let root = self.loc();
        let safe = to_safe_path(name);
        let loc = join_path(root, safe.as_str());
        CacheContainer { name: String::from_str(name), loc }
    }
}

impl CacheContainer {
    /// The path of the file `item` inside this entry.
    pub fn item_path(&self, item: &str) -> (p: String)
        ensures
            p@ == join_spec(self.loc@, item@),
    {
        join_path(self.loc.as_str(), item)
    }
}

} // verus!
