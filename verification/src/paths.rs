//! Path strings.
//!
//! The library works on paths as plain strings. Both `/` and `\` are
//! accepted as component separators on input; joins are produced with
//! `/`. A trailing separator is treated as separating an empty final
//! name, and no other normalisation is performed: the caller hands paths
//! in as the platform reported them.

use vstd::prelude::*;

verus! {

/// `/` and `\` both separate path components.
pub open spec fn is_sep(c: char) -> bool {
    c == '/' || c == '\\'
}

/// `parent` and `name` glued with `/`, unless `parent` is empty or
/// already ends with a separator.
pub open spec fn joined_path(parent: Seq<char>, name: Seq<char>) -> Seq<char> {
    if parent.len() == 0 {
        name
    } else if is_sep(parent.last()) {
        parent + name
    } else {
        parent + seq!['/'] + name
    }
}

/// Joins a parent directory and a child name.
pub fn join_path(parent: &str, name: &str) -> (r: String)
    ensures
        r@ == joined_path(parent@, name@),
{
    let np = parent.unicode_len();
    if np == 0 {
        return name.to_owned();
    }
    let last = parent.get_char(np - 1);
    let mut r = parent.to_owned();
    if last == '/' || last == '\\' {
        r.append(name);
    } else {
        r.append("/");
        proof {
            reveal_strlit("/");
            assert(("/")@ =~= seq!['/']);
        }
        r.append(name);
        proof {
            assert(r@ =~= parent@ + seq!['/'] + name@);
        }
    }
    r
}

/// The index of the last separator in `p`, or -1 if there is none.
pub open spec fn last_sep_at(p: Seq<char>) -> int
    decreases p.len(),
{
    if p.len() == 0 {
        -1
    } else if is_sep(p.last()) {
        p.len() - 1
    } else {
        last_sep_at(p.drop_last())
    }
}

proof fn lemma_last_sep_at_none(p: Seq<char>)
    requires
        forall|j: int| 0 <= j < p.len() ==> !is_sep(p[j]),
    ensures
        last_sep_at(p) == -1,
    decreases p.len(),
{
    if p.len() > 0 {
        lemma_last_sep_at_none(p.drop_last());
    }
}

proof fn lemma_last_sep_at_some(p: Seq<char>, k: int)
    requires
        0 <= k < p.len(),
        is_sep(p[k]),
        forall|j: int| k < j < p.len() ==> !is_sep(p[j]),
    ensures
        last_sep_at(p) == k,
    decreases p.len(),
{
    if k < p.len() - 1 {
        lemma_last_sep_at_some(p.drop_last(), k);
    }
}

/// The parent directory of a path, if it has one: everything before the
/// last separator (`/` when that separator is leading), the empty string
/// for a bare name, nothing for an empty path or a root.
pub open spec fn parent_path_of(p: Seq<char>) -> Option<Seq<char>> {
    let k = last_sep_at(p);
    if p.len() == 0 {
        None
    } else if k == -1 {
        Some(Seq::<char>::empty())
    } else if k == 0 {
        if p.len() == 1 {
            None
        } else {
            Some(p.subrange(0, 1))
        }
    } else {
        Some(p.subrange(0, k))
    }
}

/// The final component of a path: everything after the last separator.
pub open spec fn base_name_of(p: Seq<char>) -> Seq<char> {
    p.subrange(last_sep_at(p) + 1, p.len() as int)
}

/// Finds the last separator of `p`, scanning from the end.
fn find_last_sep(p: &str) -> (r: Option<usize>)
    ensures
        match r {
            Some(k) => last_sep_at(p@) == k && k < p@.len(),
            None => last_sep_at(p@) == -1,
        },
{
    let n = p.unicode_len();
    let mut i: usize = n;
    while i > 0
        invariant
            n == p@.len(),
            i <= n,
            forall|j: int| i <= j < n ==> !is_sep(p@[j]),
        decreases i,
    {
        i = i - 1;
        let c = p.get_char(i);
        if c == '/' || c == '\\' {
            proof {
                lemma_last_sep_at_some(p@, i as int);
            }
            return Some(i);
        }
    }
    proof {
        lemma_last_sep_at_none(p@);
    }
    None
}

/// The parent directory of `path`, per `parent_path_of`.
pub fn parent_dir(path: &str) -> (r: Option<String>)
    ensures
        match r {
            Some(s) => parent_path_of(path@) == Some(s@),
            None => parent_path_of(path@) is None,
        },
{
    let n = path.unicode_len();
    if n == 0 {
        return None;
    }
    match find_last_sep(path) {
        None => Some(String::new()),
        Some(k) => {
            if k == 0 {
                if n == 1 {
                    None
                } else {
                    Some(path.substring_char(0, 1).to_owned())
                }
            } else {
                Some(path.substring_char(0, k).to_owned())
            }
        },
    }
}

/// The final component of `path`, per `base_name_of`.
pub fn base_name(path: &str) -> (r: String)
    ensures
        r@ == base_name_of(path@),
{
    let n = path.unicode_len();
    match find_last_sep(path) {
        None => path.to_owned(),
        Some(k) => path.substring_char(k + 1, n).to_owned(),
    }
}

/// `..` occupies a whole component of `name` starting at index `i`.
pub open spec fn dotdot_at(name: Seq<char>, i: int) -> bool {
    0 <= i && i + 2 <= name.len() && name[i] == '.' && name[i + 1] == '.' && (i == 0 || is_sep(
        name[i - 1],
    )) && (i + 2 == name.len() || is_sep(name[i + 2]))
}

/// A stored archive-entry name that cannot escape the extraction
/// directory: non-empty, relative (no leading separator and no
/// drive-letter prefix), and free of `..` components.
pub open spec fn safe_entry_name(name: Seq<char>) -> bool {
    name.len() > 0 && !is_sep(name[0]) && !(name.len() >= 2 && name[1] == ':') && !(exists|i: int|
        dotdot_at(name, i))
}

/// Decides `safe_entry_name`: the zip-slip guard applied to one stored
/// entry name.
pub fn is_safe_entry_name(name: &str) -> (r: bool)
    ensures
        r == safe_entry_name(name@),
{
    let n = name.unicode_len();
    if n == 0 {
        return false;
    }
    let c0 = name.get_char(0);
    if c0 == '/' || c0 == '\\' {
        return false;
    }
    if n >= 2 && name.get_char(1) == ':' {
        return false;
    }
    if n < 2 {
        proof {
            assert forall|j: int| #[trigger] dotdot_at(name@, j) implies false by {
                assert(j + 2 <= 1);
            }
        }
        return true;
    }
    let mut i: usize = 0;
    while i <= n - 2
        invariant
            n == name@.len(),
            2 <= n,
            i <= n - 1,
            forall|j: int| 0 <= j < i ==> !#[trigger] dotdot_at(name@, j),
        decreases n - i,
    {
        if name.get_char(i) == '.' && name.get_char(i + 1) == '.' {
            let pre_ok = if i == 0 {
                true
            } else {
                let c = name.get_char(i - 1);
                c == '/' || c == '\\'
            };
            let post_ok = if i + 2 == n {
                true
            } else {
                let c = name.get_char(i + 2);
                c == '/' || c == '\\'
            };
            if pre_ok && post_ok {
                proof {
                    assert(dotdot_at(name@, i as int));
                }
                return false;
            }
        }
        i += 1;
    }
    proof {
        assert forall|j: int| #[trigger] dotdot_at(name@, j) implies false by {
            assert(0 <= j < i);
        }
    }
    true
}

/// The suffix marking an encrypted file.
pub open spec fn enc_suffix() -> Seq<char> {
    seq!['.', 'e', 'n', 'c']
}

/// The suffix appended when decrypting a file whose name does not end in
/// the encrypted suffix.
pub open spec fn decrypted_suffix() -> Seq<char> {
    seq!['.', 'd', 'e', 'c', 'r', 'y', 'p', 't', 'e', 'd']
}

/// The path an encrypted file is written to: the source path with the
/// encrypted suffix appended, the original extension kept in the stem.
pub open spec fn encrypted_path_of(p: Seq<char>) -> Seq<char> {
    p + enc_suffix()
}

/// The path a decrypted file is written to: the source path with a
/// trailing encrypted suffix stripped, or, when there is none, with the
/// decrypted suffix appended so no unrelated file is replaced.
pub open spec fn decrypted_path_of(p: Seq<char>) -> Seq<char> {
    if p.len() >= 4 && p.subrange(p.len() - 4, p.len() as int) == enc_suffix() {
        p.subrange(0, p.len() - 4)
    } else {
        p + decrypted_suffix()
    }
}

/// The destination path for encrypting the file at `p`.
pub fn encrypted_path(p: &str) -> (r: String)
    ensures
        r@ == encrypted_path_of(p@),
{
    let mut r = p.to_owned();
    r.append(".enc");
    proof {
        reveal_strlit(".enc");
        assert((".enc")@ =~= enc_suffix());
    }
    r
}

/// The destination path for decrypting the file at `p`.
pub fn decrypted_path(p: &str) -> (r: String)
    ensures
        r@ == decrypted_path_of(p@),
{
    let n = p.unicode_len();
    if n >= 4 {
        let c0 = p.get_char(n - 4);
        let c1 = p.get_char(n - 3);
        let c2 = p.get_char(n - 2);
        let c3 = p.get_char(n - 1);
        if c0 == '.' && c1 == 'e' && c2 == 'n' && c3 == 'c' {
            proof {
                assert(p@.subrange(n - 4, n as int) =~= enc_suffix());
            }
            return p.substring_char(0, n - 4).to_owned();
        }
        proof {
            assert(p@.subrange(n - 4, n as int) != enc_suffix()) by {
                if p@.subrange(n - 4, n as int) == enc_suffix() {
                    assert(p@.subrange(n - 4, n as int)[0] == p@[n - 4]);
                    assert(p@.subrange(n - 4, n as int)[1] == p@[n - 3]);
                    assert(p@.subrange(n - 4, n as int)[2] == p@[n - 2]);
                    assert(p@.subrange(n - 4, n as int)[3] == p@[n - 1]);
                }
            }
        }
    }
    let mut r = p.to_owned();
    r.append(".decrypted");
    proof {
        reveal_strlit(".decrypted");
        assert((".decrypted")@ =~= decrypted_suffix());
    }
    r
}

} // verus!
