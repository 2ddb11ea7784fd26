//! How the output of a run is named when the caller gives no name for it.
use vstd::prelude::*;
use vstd::string::StrSliceExecFns;

verus! {

/// Which way a run transforms its input.
#[derive(Clone, Copy, Debug, PartialEq, Eq, Structural)]
pub enum Direction {
    Encrypt,
    Decrypt,
}

/// The suffix that marks the output of a run in the given direction.
pub open spec fn suffix_of(direction: Direction) -> Seq<char> {
    match direction {
        Direction::Encrypt => seq!['e', 'n', 'c'],
        Direction::Decrypt => seq!['d', 'e', 'c'],
    }
}

/// Where the path segment that ends at the end of `p` begins: just after the
/// last `/` of `p`, or at 0.
pub open spec fn segment_start(p: Seq<char>) -> int
    decreases p.len(),
{
    if p.len() == 0 {
        0
    } else if p.last() == '/' {
        p.len() as int
    } else {
        segment_start(p.drop_last())
    }
}

/// True when `p` ends in a segment `.`, which names the directory it is in.
pub open spec fn ends_in_current_dir(p: Seq<char>) -> bool {
    p.len() > 0 && p.last() == '.' && (p.len() == 1 || p[p.len() - 2] == '/')
}

/// The end of the last segment of `p` that is neither empty nor `.`: trailing
/// separators and `.` segments are passed over, as path components do.
pub open spec fn last_segment_end(p: Seq<char>) -> Option<int>
    decreases p.len(),
{
    if p.len() == 0 {
        None
    } else if p.last() == '/' || ends_in_current_dir(p) {
        last_segment_end(p.drop_last())
    } else {
        Some(p.len() as int)
    }
}

/// Where the last file name of `path` starts and ends. There is none when no
/// segment but empty ones and `.` is left (`""`, `"/"`, `"."`) or when the
/// last one is `..`.
pub open spec fn file_name_bounds(path: Seq<char>) -> Option<(int, int)> {
    match last_segment_end(path) {
        None => None,
        Some(end) => {
            let start = segment_start(path.take(end));
            if path.subrange(start, end) == seq!['.', '.'] {
                None
            } else {
                Some((start, end))
            }
        },
    }
}

/// True when a file name has an extension: a dot other than a leading one.
/// The extension may be empty, as in `a.`.
pub open spec fn has_extension(name: Seq<char>) -> bool {
    exists|i: int| 0 < i < name.len() && name[i] == '.'
}

/// `path` with `extension` added after the extension its file name already has:
/// the path up to the end of its file name, a dot, then `extension`. A path
/// without a file name stays as it is. An empty `extension` adds only the dot
/// after an existing extension, and nothing to a name without one.
pub open spec fn with_extension(path: Seq<char>, extension: Seq<char>) -> Seq<char> {
    match file_name_bounds(path) {
        None => path,
        Some((start, end)) => if extension.len() == 0 && !has_extension(
            path.subrange(start, end),
        ) {
            path.take(end)
        } else {
            path.take(end) + seq!['.'] + extension
        },
    }
}

/// The name under which the output of a run on `input` is written.
pub open spec fn derived_output_name(input: Seq<char>, direction: Direction) -> Seq<char> {
    with_extension(input, suffix_of(direction))
}

/// The start of the segment that ends at `end`.
fn find_segment_start(p: &str, end: usize) -> (r: usize)
    requires
        end <= p@.len(),
    ensures
        r as int == segment_start(p@.take(end as int)),
        r <= end,
{
    let mut i = end;
    while i > 0 && p.get_char(i - 1) != '/'
        invariant
            i <= end <= p@.len(),
            segment_start(p@.take(end as int)) == segment_start(p@.take(i as int)),
        decreases i,
    {
        assert(p@.take(i as int).drop_last() =~= p@.take(i - 1));
        i -= 1;
    }
    i
}

/// The end of the last segment of `p` that is neither empty nor `.`.
fn find_last_segment_end(p: &str) -> (r: Option<usize>)
    ensures
        match r {
            Some(e) => last_segment_end(p@) == Some(e as int) && 0 < e <= p@.len(),
            None => last_segment_end(p@) is None,
        },
{
    let mut i = p.unicode_len();
    assert(p@.take(i as int) =~= p@);
    loop
        invariant
            i <= p@.len(),
            last_segment_end(p@) == last_segment_end(p@.take(i as int)),
        decreases i,
    {
        if i == 0 {
            return None;
        }
        let ghost t = p@.take(i as int);
        assert(t.drop_last() =~= p@.take(i - 1));
        let c = p.get_char(i - 1);
        if c == '/' || (c == '.' && (i == 1 || p.get_char(i - 2) == '/')) {
            i -= 1;
        } else {
            return Some(i);
        }
    }
}

/// Where the last file name of `p` starts and ends, if it has one.
fn find_file_name(p: &str) -> (r: Option<(usize, usize)>)
    ensures
        match r {
            Some((s, e)) => file_name_bounds(p@) == Some((s as int, e as int)) && s <= e
                <= p@.len(),
            None => file_name_bounds(p@) is None,
        },
{
    match find_last_segment_end(p) {
        None => None,
        Some(end) => {
            let start = find_segment_start(p, end);
            let ghost name = p@.subrange(start as int, end as int);
            if end - start == 2 && p.get_char(start) == '.' && p.get_char(start + 1) == '.' {
                assert(name =~= seq!['.', '.']);
                None
            } else {
                assert(name != seq!['.', '.'] ==> !(name =~= seq!['.', '.']));
                Some((start, end))
            }
        },
    }
}

/// Whether the file name between `start` and `end` has an extension.
fn find_extension(p: &str, start: usize, end: usize) -> (r: bool)
    requires
        start <= end <= p@.len(),
    ensures
        r == has_extension(p@.subrange(start as int, end as int)),
{
    let ghost name = p@.subrange(start as int, end as int);
    let n = end - start;
    let mut k: usize = 1;
    while k < n
        invariant
            1 <= k,
            n == end - start,
            start <= end <= p@.len(),
            name == p@.subrange(start as int, end as int),
            forall|j: int| 0 < j < k && j < n ==> name[j] != '.',
        decreases n - k,
    {
        if p.get_char(start + k) == '.' {
            assert(name[k as int] == '.');
            return true;
        }
        k += 1;
    }
    false
}

/// Adds `extension` after whatever extension the file name of `path` already
/// has, and drops trailing separators and `.` segments after that name. A path
/// without a file name (`""`, `"/"`, `".."`) is left as it is.
pub fn append_extension(path: &mut String, extension: &str)
    ensures
        final(path)@ == with_extension(old(path)@, extension@),
{
    let (start, end) = match find_file_name(path.as_str()) {
        None => {
            return;
        },
        Some(bounds) => bounds,
    };
    let has = find_extension(path.as_str(), start, end);
    let mut out = String::from_str(path.as_str().substring_char(0, end));
    if extension.unicode_len() != 0 || has {
        out.append(".");
        out.append(extension);
        proof {
            reveal_strlit(".");
        }
    }
    *path = out;
}

/// The output name for `input` when none was given: `a.txt` becomes
/// `a.txt.enc` when encrypting and `a.txt.dec` when decrypting.
pub fn derive_output_path(input: &str, direction: Direction) -> (r: String)
    ensures
        r@ == derived_output_name(input@, direction),
{
    let mut path = String::from_str(input);
    match direction {
        Direction::Encrypt => {
            append_extension(&mut path, "enc");
            proof {
                reveal_strlit("enc");
            }
        },
        Direction::Decrypt => {
            append_extension(&mut path, "dec");
            proof {
                reveal_strlit("dec");
            }
        },
    }
    path
}

} // verus!
