use vstd::prelude::*;

verus! {

/// The greatest index at which `c` occurs, or -1 when it does not occur.
pub open spec fn spec_last_index_of(s: Seq<char>, c: char) -> int
    decreases s.len(),
{
    if s.len() == 0 {
        -1
    } else if s.last() == c {
        s.len() - 1
    } else {
        spec_last_index_of(s.drop_last(), c)
    }
}

/// The index at which the file name of a path begins: right after the last
/// separator, or the start of the path when there is none.
pub open spec fn spec_name_start(p: Seq<char>) -> int {
    spec_last_index_of(p, '/') + 1
}

/// The directory part of a path, separator included.
pub open spec fn spec_dir(p: Seq<char>) -> Seq<char> {
    p.take(spec_name_start(p))
}

/// The file name part of a path.
pub open spec fn spec_file_name(p: Seq<char>) -> Seq<char> {
    p.skip(spec_name_start(p))
}

/// The index of the dot that separates a file name from its extension.
pub open spec fn spec_dot_index(name: Seq<char>) -> int {
    spec_last_index_of(name, '.')
}

/// A file name has an extension when a dot stands after its first
/// character; a name that is nothing but a leading dot has none.
pub open spec fn spec_has_extension(name: Seq<char>) -> bool {
    spec_dot_index(name) > 0
}

/// The stem of a file name: what stands before the extension's dot, or the
/// whole name when there is no extension.
pub open spec fn spec_stem(name: Seq<char>) -> Seq<char> {
    if spec_has_extension(name) {
        name.take(spec_dot_index(name))
    } else {
        name
    }
}

/// The extension of a file name, without its dot.
pub open spec fn spec_extension(name: Seq<char>) -> Seq<char> {
    name.skip(spec_dot_index(name) + 1)
}

/// The last index of `c` in a prefix one shorter is the last index in the
/// prefix unless the dropped character is `c` itself.
proof fn lemma_last_index_take(s: Seq<char>, c: char, i: int)
    requires
        0 <= i < s.len(),
    ensures
        s[i] == c ==> spec_last_index_of(s.take(i + 1), c) == i,
        s[i] != c ==> spec_last_index_of(s.take(i + 1), c) == spec_last_index_of(s.take(i), c),
{
    assert(s.take(i + 1).drop_last() =~= s.take(i));
    assert(s.take(i + 1).last() == s[i]);
}

/// When there is a last index, it lies within the sequence and holds the
/// character.
pub proof fn lemma_last_index_is_occurrence(s: Seq<char>, c: char)
    ensures
        -1 <= spec_last_index_of(s, c) < s.len(),
        spec_last_index_of(s, c) >= 0 ==> s[spec_last_index_of(s, c)] == c,
    decreases s.len(),
{
    if s.len() > 0 && s.last() != c {
        lemma_last_index_is_occurrence(s.drop_last(), c);
        assert(forall|i: int|
            0 <= i < s.len() - 1 ==> #[trigger] s.drop_last()[i] == s[i]);
    }
}

/// Finds the last occurrence of a character.
pub fn find_last(s: &str, c: char) -> (r: Option<usize>)
    ensures
        r matches Some(k) ==> k < s@.len() && spec_last_index_of(s@, c) == k,
        r is None ==> spec_last_index_of(s@, c) == -1,
{
    let n: usize = s.unicode_len();
    let mut i: usize = n;
    proof {
        assert(s@.take(n as int) =~= s@);
    }
    while i > 0
        invariant
            n == s@.len(),
            0 <= i <= n,
            spec_last_index_of(s@, c) == spec_last_index_of(s@.take(i as int), c),
        decreases i,
    {
        let ci: char = s.get_char(i - 1);
        proof {
            lemma_last_index_take(s@, c, i - 1);
        }
        if ci == c {
            return Some(i - 1);
        }
        i = i - 1;
    }
    None
}

/// Replaces (or appends) the extension of the path's file name: the result
/// is the directory, the stem, a dot, and the new extension.  A path whose
/// file name is empty has nothing to derive a name from and is refused.
pub fn replace_extension(p: &str, ext: &str) -> (r: Option<String>)
    ensures
        r is Some <==> spec_file_name(p@).len() > 0,
        r matches Some(t) ==> t@ == spec_dir(p@) + spec_stem(spec_file_name(p@)) + seq!['.']
            + ext@,
{
    let n: usize = p.unicode_len();
    let ns: usize = match find_last(p, '/') {
        Some(k) => k + 1,
        None => 0,
    };
    if ns == n {
        assert(spec_file_name(p@).len() == 0);
        return None;
    }
    let name: &str = p.substring_char(ns, n);
    proof {
        assert(name@ =~= spec_file_name(p@));
    }
    let stem_end: usize = match find_last(name, '.') {
        Some(d) if d > 0 => ns + d,
        _ => n,
    };
    let base: &str = p.substring_char(0, stem_end);
    let t: String = String::from_str(base).concat(".").concat(ext);
    proof {
        reveal_strlit(".");
        assert(spec_file_name(p@).len() > 0);
        if spec_has_extension(spec_file_name(p@)) {
            assert(p@.take(ns + spec_dot_index(spec_file_name(p@))) =~= spec_dir(p@) + spec_stem(
                spec_file_name(p@),
            ));
        } else {
            assert(p@.take(n as int) =~= spec_dir(p@) + spec_stem(spec_file_name(p@)));
        }
        assert(t@ =~= spec_dir(p@) + spec_stem(spec_file_name(p@)) + seq!['.'] + ext@);
    }
    Some(t)
}

/// Inserts a suffix between the stem and the extension of the path's file
/// name.  A path without a file stem or without an extension is refused.
pub fn suffix_stem(p: &str, suffix: &str) -> (r: Option<String>)
    ensures
        r is Some <==> (spec_file_name(p@).len() > 0 && spec_has_extension(spec_file_name(p@))),
        r matches Some(t) ==> t@ == spec_dir(p@) + spec_stem(spec_file_name(p@)) + suffix@
            + seq!['.'] + spec_extension(spec_file_name(p@)),
{
    let n: usize = p.unicode_len();
    let ns: usize = match find_last(p, '/') {
        Some(k) => k + 1,
        None => 0,
    };
    if ns == n {
        assert(spec_file_name(p@).len() == 0);
        return None;
    }
    let name: &str = p.substring_char(ns, n);
    proof {
        assert(name@ =~= spec_file_name(p@));
    }
    let d: usize = match find_last(name, '.') {
        Some(d) if d > 0 => d,
        _ => {
            return None;
        },
    };
    let base: &str = p.substring_char(0, ns + d);
    let extension: &str = p.substring_char(ns + d + 1, n);
    let t: String = String::from_str(base).concat(suffix).concat(".").concat(extension);
    proof {
        reveal_strlit(".");
        assert(p@.take(ns + d) =~= spec_dir(p@) + spec_stem(spec_file_name(p@)));
        assert(extension@ =~= spec_extension(spec_file_name(p@)));
        assert(t@ =~= spec_dir(p@) + spec_stem(spec_file_name(p@)) + suffix@ + seq!['.']
            + spec_extension(spec_file_name(p@)));
    }
    Some(t)
}

/// The path of a file that stands beside another: the directory of the
/// first path, with the given name in it.
pub fn resolve_sibling(p: &str, name: &str) -> (r: String)
    ensures
        r@ == spec_dir(p@) + name@,
{
    let n: usize = p.unicode_len();
    let ns: usize = match find_last(p, '/') {
        Some(k) => k + 1,
        None => 0,
    };
    let dir: &str = p.substring_char(0, ns);
    let r: String = String::from_str(dir).concat(name);
    proof {
        assert(dir@ =~= spec_dir(p@));
    }
    r
}

} // verus!
