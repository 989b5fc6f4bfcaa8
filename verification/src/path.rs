use vstd::prelude::*;

verus! {

// ---------------------------------------------------------------------------
// The two-file load protocol resolves one logical asset path into sibling
// resources by swapping the extension. The extension, if any, is the part
// of the final path segment after its last dot — a dot that begins the
// segment (a hidden file) does not count. The derivation is pure string
// work, verifiable without touching a filesystem.
// ---------------------------------------------------------------------------
/// Where the final path segment's extension separator sits in `s[..i]`,
/// scanning backwards: the last dot of the final segment, unless that dot
/// begins the segment.
pub open spec fn split_pos(s: Seq<char>, i: int) -> Option<int>
    decreases i,
{
    if i <= 0 {
        None
    } else if s[i - 1] == '/' {
        None
    } else if s[i - 1] == '.' {
        if i - 1 == 0 || s[i - 2] == '/' {
            None
        } else {
            Some(i - 1)
        }
    } else {
        split_pos(s, i - 1)
    }
}

/// The stem of a logical path: everything before the extension separator,
/// or the whole path when its final segment has none.
pub open spec fn spec_stem(s: Seq<char>) -> Seq<char> {
    match split_pos(s, s.len() as int) {
        Some(p) => s.subrange(0, p),
        None => s,
    }
}

/// The sibling path: the stem, a dot, and the new extension; for an empty
/// extension just the stem.
pub open spec fn spec_sibling(s: Seq<char>, ext: Seq<char>) -> Seq<char> {
    if ext.len() == 0 {
        spec_stem(s)
    } else {
        spec_stem(s) + "."@ + ext
    }
}

/// Scans backwards through `path[..i]` for the extension separator.
fn find_split(path: &str, n: usize, i: usize) -> (r: Option<usize>)
    requires
        n == path@.len(),
        i <= n,
    ensures
        match r {
            Some(p) => split_pos(path@, i as int) == Some(p as int) && p < n,
            None => split_pos(path@, i as int) is None,
        },
    decreases i,
{
    if i == 0 {
        return None;
    }
    let c = path.get_char(i - 1);
    if c == '/' {
        return None;
    }
    if c == '.' {
        if i - 1 == 0 {
            return None;
        }
        if path.get_char(i - 2) == '/' {
            return None;
        }
        return Some(i - 1);
    }
    find_split(path, n, i - 1)
}

/// Derives the sibling resource path of a logical asset path by replacing
/// its extension with `ext`. The metadata file and the atlas image of one
/// map are both derived from the same logical path this way.
pub fn derive_sibling_path(path: &str, ext: &str) -> (r: String)
    ensures
        r@ == spec_sibling(path@, ext@),
{
    let n = path.unicode_len();
    let pos = find_split(path, n, n);
    let stem: &str = match pos {
        Some(p) => path.substring_char(0, p),
        None => path,
    };
    let mut out = stem.to_owned();
    if ext.unicode_len() > 0 {
        out.append(".");
        out.append(ext);
        proof {
            assert(out@ =~= spec_stem(path@) + "."@ + ext@);
        }
    }
    out
}

} // verus!
