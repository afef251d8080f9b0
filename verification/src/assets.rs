//! The files built into the program: which of them a directory lists, which
//! of them are fonts, and what a request for one of them yields.
//!
//! The files themselves are embedded by the application; the library decides
//! over their paths and over what a lookup found.

use vstd::prelude::*;
use vstd::string::*;

verus! {

/// `s` begins with `p`.
pub open spec fn starts_with(s: Seq<char>, p: Seq<char>) -> bool {
    p.len() <= s.len() && s.take(p.len() as int) == p
}

/// `s` ends with `p`.
pub open spec fn ends_with(s: Seq<char>, p: Seq<char>) -> bool {
    p.len() <= s.len() && s.skip(s.len() - p.len()) == p
}

/// Whether `s` begins with `p`.
pub fn has_prefix(s: &str, p: &str) -> (r: bool)
    ensures
        r == starts_with(s@, p@),
{
    let n = s.unicode_len();
    let m = p.unicode_len();
    if m > n {
        return false;
    }
    let mut i: usize = 0;
    while i < m
        invariant
            n == s@.len(),
            m == p@.len(),
            m <= n,
            i <= m,
            forall|j: int| 0 <= j < i ==> s@[j] == p@[j],
        decreases m - i,
    {
        if s.get_char(i) != p.get_char(i) {
            assert(s@.take(m as int)[i as int] != p@[i as int]);
            return false;
        }
        i = i + 1;
    }
    assert(s@.take(m as int) =~= p@);
    true
}

/// Whether `s` ends with `p`.
pub fn has_suffix(s: &str, p: &str) -> (r: bool)
    ensures
        r == ends_with(s@, p@),
{
    let n = s.unicode_len();
    let m = p.unicode_len();
    if m > n {
        return false;
    }
    let start = n - m;
    let mut i: usize = 0;
    while i < m
        invariant
            n == s@.len(),
            m == p@.len(),
            start == n - m,
            i <= m,
            forall|j: int| 0 <= j < i ==> s@[start + j] == p@[j],
        decreases m - i,
    {
        if s.get_char(start + i) != p.get_char(i) {
            assert(s@.skip(start as int)[i as int] != p@[i as int]);
            return false;
        }
        i = i + 1;
    }
    assert(s@.skip(start as int) =~= p@);
    true
}

/// The texts of a list of paths.
pub open spec fn path_texts(paths: Seq<String>) -> Seq<Seq<char>> {
    paths.map_values(|s: String| s@)
}

/// The paths of `paths` that begin with `prefix`, in their order.
pub open spec fn under(paths: Seq<Seq<char>>, prefix: Seq<char>) -> Seq<Seq<char>>
    decreases paths.len(),
{
    if paths.len() == 0 {
        Seq::empty()
    } else {
        let rest = under(paths.drop_last(), prefix);
        if starts_with(paths.last(), prefix) {
            rest.push(paths.last())
        } else {
            rest
        }
    }
}

/// The paths of `paths` that end with `suffix`, in their order.
pub open spec fn ending(paths: Seq<Seq<char>>, suffix: Seq<char>) -> Seq<Seq<char>>
    decreases paths.len(),
{
    if paths.len() == 0 {
        Seq::empty()
    } else {
        let rest = ending(paths.drop_last(), suffix);
        if ends_with(paths.last(), suffix) {
            rest.push(paths.last())
        } else {
            rest
        }
    }
}

/// What a request for an embedded file yields: nothing for the empty path,
/// the file's bytes when it is embedded, and an error naming the path when
/// it is not.
pub open spec fn load_spec(path: Seq<char>, found: Option<Seq<u8>>) -> Result<Option<Seq<u8>>, Seq<char>> {
    if path.len() == 0 {
        Ok(None)
    } else {
        match found {
            Some(data) => Ok(Some(data)),
            None => Err("could not find asset at path \""@ + path + "\""@),
        }
    }
}

/// The bytes a lookup found, as a sequence.
pub open spec fn found_view(found: Option<Vec<u8>>) -> Option<Seq<u8>> {
    match found {
        Some(v) => Some(v@),
        None => None,
    }
}

/// The answer to a request, its bytes and message taken as sequences.
pub open spec fn load_view(r: Result<Option<Vec<u8>>, String>) -> Result<Option<Seq<u8>>, Seq<char>> {
    match r {
        Ok(Some(v)) => Ok(Some(v@)),
        Ok(None) => Ok(None),
        Err(e) => Err(e@),
    }
}

/// The files embedded in the program: the icons and the fonts.
#[derive(Clone, Copy, Debug)]
pub struct Assets;

impl Assets {
    /// The embedded paths that begin with `prefix`, from the list of all
    /// embedded paths, in its order.
    pub fn list(&self, paths: &[String], prefix: &str) -> (r: Vec<String>)
        ensures
            path_texts(r@) == under(path_texts(paths@), prefix@),
    {
        let mut r: Vec<String> = Vec::new();
        let mut i: usize = 0;
        while i < paths.len()
            invariant
                i <= paths@.len(),
                path_texts(r@) == under(path_texts(paths@).take(i as int), prefix@),
            decreases paths@.len() - i,
        {
            assert(path_texts(paths@).take(i as int + 1).drop_last() =~= path_texts(paths@).take(i as int));
            if has_prefix(paths[i].as_str(), prefix) {
                let ghost before = r@;
                r.push(paths[i].clone());
                assert(path_texts(r@) =~= path_texts(before).push(paths@[i as int]@));
            }
            i = i + 1;
        }
        assert(path_texts(paths@).take(paths@.len() as int) =~= path_texts(paths@));
        r
    }

    /// The font files to register: the paths under "fonts" that end in
    /// ".ttf".
    pub fn font_paths(&self, paths: &[String]) -> (r: Vec<String>)
        ensures
            path_texts(r@) == ending(under(path_texts(paths@), "fonts"@), ".ttf"@),
    {
        let listed = self.list(paths, "fonts");
        let mut r: Vec<String> = Vec::new();
        let mut i: usize = 0;
        while i < listed.len()
            invariant
                i <= listed@.len(),
                path_texts(listed@) == under(path_texts(paths@), "fonts"@),
                path_texts(r@) == ending(path_texts(listed@).take(i as int), ".ttf"@),
            decreases listed@.len() - i,
        {
            assert(path_texts(listed@).take(i as int + 1).drop_last() =~= path_texts(listed@).take(i as int));
            if has_suffix(listed[i].as_str(), ".ttf") {
                let ghost before = r@;
                r.push(listed[i].clone());
                assert(path_texts(r@) =~= path_texts(before).push(listed@[i as int]@));
            }
            i = i + 1;
        }
        assert(path_texts(listed@).take(listed@.len() as int) =~= path_texts(listed@));
        r
    }

    /// Answers a request for the embedded file at `path`, given what looking
    /// it up among the embedded files `found`.
    pub fn load(&self, path: &str, found: Option<Vec<u8>>) -> (r: Result<Option<Vec<u8>>, String>)
        ensures
            load_view(r) == load_spec(path@, found_view(found)),
    {
        if path.unicode_len() == 0 {
            return Ok(None);
        }
        match found {
            Some(data) => Ok(Some(data)),
            None => {
                let mut e = String::from_str("could not find asset at path \"");
                e.append(path);
                e.append("\"");
                Err(e)
            },
        }
    }
}

} // verus!
