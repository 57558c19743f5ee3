//! Naming of saved session files, and which files of the sessions directory
//! hold saved sessions.
use vstd::prelude::*;
use vstd::string::*;
use crate::text::{chars_of, string_from_chars};

verus! {

/// The file name under which the session `name` is saved: `{name}.json`.
pub fn session_file_name(name: &str) -> (f: String)
    ensures
        f@ == name@ + ".json"@,
{
    let mut f = name.to_owned();
    f.append(".json");
    f
}

/// The extension of a session file, with its dot.
pub open spec fn json_suffix() -> Seq<char> {
    seq!['.', 'j', 's', 'o', 'n']
}

/// A file name whose extension is `json`: it ends in `.json` after a non-empty
/// stem (a file named just `.json` has no extension).
pub open spec fn is_session_file(name: Seq<char>) -> bool {
    name.len() > 5 && name.subrange(name.len() - 5, name.len() as int) == json_suffix()
}

/// A file name without its `.json` extension.
pub open spec fn session_stem(name: Seq<char>) -> Seq<char> {
    name.subrange(0, name.len() - 5)
}

/// The stems of the session files among `names`, in order.
pub open spec fn session_stems(names: Seq<Seq<char>>) -> Seq<Seq<char>>
    decreases names.len(),
{
    if names.len() == 0 {
        Seq::empty()
    } else {
        let rest = session_stems(names.drop_last());
        if is_session_file(names.last()) {
            rest.push(session_stem(names.last()))
        } else {
            rest
        }
    }
}

/// The order of `String`: lexicographic on characters, each compared by its
/// code point, a prefix coming first.
pub open spec fn chars_le(a: Seq<char>, b: Seq<char>) -> bool
    decreases a.len(),
{
    if a.len() == 0 {
        true
    } else if b.len() == 0 {
        false
    } else if a[0] != b[0] {
        (a[0] as u32) < (b[0] as u32)
    } else {
        chars_le(a.drop_first(), b.drop_first())
    }
}

/// The character sequences of strings.
pub open spec fn string_views(v: Seq<String>) -> Seq<Seq<char>> {
    v.map_values(|s: String| s@)
}

/// `slice::sort` on strings: the same strings, in `String`'s order. That order
/// compares the UTF-8 bytes, which orders the characters by code point.
#[verifier::external_body]
fn sort_strings(v: &mut Vec<String>)
    ensures
        string_views(final(v)@).to_multiset() == string_views(old(v)@).to_multiset(),
        forall|i: int, j: int|
            0 <= i < j < final(v)@.len() ==> chars_le(#[trigger] final(v)@[i]@, #[trigger] final(v)@[j]@),
{
    v.sort();
}

/// Whether `name` ends in `.json` after a non-empty stem.
fn has_json_extension(cs: &Vec<char>) -> (b: bool)
    ensures
        b == is_session_file(cs@),
{
    let n = cs.len();
    if n <= 5 {
        return false;
    }
    let b = cs[n - 5] == '.' && cs[n - 4] == 'j' && cs[n - 3] == 's' && cs[n - 2] == 'o' && cs[n - 1] == 'n';
    proof {
        let tail = cs@.subrange(n - 5, n as int);
        if b {
            assert(tail =~= json_suffix());
        } else {
            if tail == json_suffix() {
                assert(tail[0] == '.' && tail[1] == 'j' && tail[2] == 's' && tail[3] == 'o' && tail[4] == 'n');
            }
        }
    }
    b
}

/// The names of the saved sessions, given the names of the files in the
/// sessions directory: the stems of the files whose extension is `json`,
/// sorted in `String`'s order.
pub fn session_names(file_names: &Vec<String>) -> (names: Vec<String>)
    ensures
        string_views(names@).to_multiset() == session_stems(string_views(file_names@)).to_multiset(),
        forall|i: int, j: int| 0 <= i < j < names@.len() ==> chars_le(#[trigger] names@[i]@, #[trigger] names@[j]@),
{
    let ghost all = string_views(file_names@);
    let mut names: Vec<String> = Vec::new();
    let mut i: usize = 0;
    while i < file_names.len()
        invariant
            i <= file_names@.len(),
            all == string_views(file_names@),
            string_views(names@) == session_stems(all.subrange(0, i as int)),
        decreases file_names@.len() - i,
    {
        let cs = chars_of(file_names[i].as_str());
        proof {
            assert(all.subrange(0, i + 1).drop_last() =~= all.subrange(0, i as int));
            assert(all.subrange(0, i + 1).last() == cs@);
        }
        if has_json_extension(&cs) {
            let stem_len = cs.len() - 5;
            let mut stem: Vec<char> = Vec::new();
            let mut k: usize = 0;
            while k < stem_len
                invariant
                    stem_len == cs@.len() - 5,
                    k <= stem_len,
                    stem@ == cs@.subrange(0, k as int),
                decreases stem_len - k,
            {
                stem.push(cs[k]);
                k += 1;
                assert(stem@ =~= cs@.subrange(0, k as int));
            }
            let s = string_from_chars(stem.as_slice());
            let ghost before = names@;
            names.push(s);
            proof {
                assert(string_views(names@) =~= string_views(before).push(session_stem(cs@)));
            }
        }
        i += 1;
    }
    proof {
        assert(all.subrange(0, file_names@.len() as int) =~= all);
    }
    sort_strings(&mut names);
    names
}

/// The file a session is saved under is listed, under the session's name. (A
/// session with an empty name is saved as `.json`, which has no extension and
/// is not listed.)
pub proof fn lemma_saved_file_is_listed(name: Seq<char>)
    requires
        name.len() > 0,
    ensures
        is_session_file(name + ".json"@),
        session_stem(name + ".json"@) == name,
        session_stems(seq![name + ".json"@]) == seq![name],
{
    reveal_strlit(".json");
    let f = name + ".json"@;
    assert(f.subrange(f.len() - 5, f.len() as int) =~= json_suffix());
    assert(session_stem(f) =~= name);
    let one = seq![f];
    assert(one.drop_last() =~= Seq::<Seq<char>>::empty());
    assert(one.last() == f);
    assert(session_stems(one.drop_last()) == Seq::<Seq<char>>::empty());
    assert(session_stems(one) == Seq::<Seq<char>>::empty().push(name));
    assert(session_stems(one) =~= seq![name]);
}

} // verus!
