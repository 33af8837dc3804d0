//! Path normalization for database connection strings. A path that arrives
//! in Windows extended-length form (`\\?\D:\repo\db\repo.db`) is not a
//! valid SQLite URI; the URI wants forward slashes and no `//?` marker
//! (`/D:/repo/db/repo.db`).

use vstd::prelude::*;

verus! {

/// Every backslash replaced by a forward slash.
pub open spec fn normalize_separators(s: Seq<u8>) -> Seq<u8> {
    s.map_values(
        |b: u8|
            if b == '\\' as u8 {
                '/' as u8
            } else {
                b
            },
    )
}

/// `"//?"`, the remnant of an extended-length prefix once the separators
/// are normalized.
pub open spec fn extended_length_marker() -> Seq<u8> {
    seq!['/' as u8, '/' as u8, '?' as u8]
}

/// `s` with every occurrence of the marker removed, scanning left to right
/// without overlap.
pub open spec fn remove_marker(s: Seq<u8>) -> Seq<u8>
    decreases s.len(),
{
    if s.len() >= 3 && s.subrange(0, 3) == extended_length_marker() {
        remove_marker(s.skip(3))
    } else if s.len() == 0 {
        s
    } else {
        seq![s[0]] + remove_marker(s.skip(1))
    }
}

/// What a path converts to: separators normalized, then the
/// extended-length marker removed.
pub open spec fn converted_path(s: Seq<u8>) -> Seq<u8> {
    remove_marker(normalize_separators(s))
}

/// Convert a filesystem path, given as bytes, to the form a SQLite URI
/// accepts: backslashes become forward slashes and the `//?` marker left
/// over from an extended-length prefix is removed.
pub fn convert_path(path: &[u8]) -> (r: Vec<u8>)
    ensures
        r@ == converted_path(path@),
{
    let n = path.len();
    let mut norm: Vec<u8> = Vec::new();
    let mut i: usize = 0;
    while i < n
        invariant
            n == path@.len(),
            i <= n,
            norm@.len() == i,
            forall|j: int| 0 <= j < i ==> norm@[j] == normalize_separators(path@)[j],
        decreases n - i,
    {
        let b = path[i];
        if b == '\\' as u8 {
            norm.push('/' as u8);
        } else {
            norm.push(b);
        }
        i += 1;
    }
    assert(norm@ =~= normalize_separators(path@));
    let mut out: Vec<u8> = Vec::new();
    let mut k: usize = 0;
    proof {
        assert(norm@.skip(0) =~= norm@);
        assert(out@ + remove_marker(norm@) =~= remove_marker(norm@));
    }
    while k < n
        invariant
            n == norm@.len(),
            k <= n,
            out@ + remove_marker(norm@.skip(k as int)) == remove_marker(norm@),
        decreases n - k,
    {
        if n - k >= 3 && norm[k] == '/' as u8 && norm[k + 1] == '/' as u8 && norm[k + 2]
            == '?' as u8 {
            proof {
                assert(norm@.skip(k as int).subrange(0, 3) =~= extended_length_marker());
                assert(norm@.skip(k as int).skip(3) =~= norm@.skip(k as int + 3));
            }
            k += 3;
        } else {
            proof {
                let rest = norm@.skip(k as int);
                if rest.len() >= 3 {
                    assert(rest.subrange(0, 3)[0] == norm@[k as int]);
                    assert(rest.subrange(0, 3)[1] == norm@[k as int + 1]);
                    assert(rest.subrange(0, 3)[2] == norm@[k as int + 2]);
                    assert(rest.subrange(0, 3) != extended_length_marker());
                }
                assert(rest[0] == norm@[k as int]);
                assert(rest.skip(1) =~= norm@.skip(k as int + 1));
                assert(out@.push(norm@[k as int]) + remove_marker(norm@.skip(k as int + 1)) =~= out@
                    + remove_marker(rest));
            }
            let b = norm[k];
            out.push(b);
            k += 1;
        }
    }
    proof {
        assert(norm@.skip(n as int) =~= Seq::<u8>::empty());
        assert(out@ + remove_marker(norm@.skip(n as int)) =~= out@);
    }
    out
}

} // verus!
