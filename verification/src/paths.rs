//! Where the files of a key lie.
//!
//! Each key has two files directly under the storage root, both named by the
//! key's stem: the data file, which holds the committed value, and the
//! temporary file, in which a new value is staged. The stem stands between
//! single quotes, and the suffix tells the two apart.

use vstd::prelude::*;
use vstd::string::StringExecFns;

verus! {

/// The path of the data file with the given stem.
pub open spec fn data_path(root: Seq<char>, stem: Seq<char>) -> Seq<char> {
    root + "/'"@ + stem + "'.data"@
}

/// The path of the temporary file with the given stem.
pub open spec fn temp_path(root: Seq<char>, stem: Seq<char>) -> Seq<char> {
    root + "/'"@ + stem + "'.tmp"@
}

/// Builds the path of the data file with the given stem.
pub fn data_file_path(root: &str, stem: &str) -> (path: String)
    ensures
        path@ == data_path(root@, stem@),
{
    let mut path = root.to_owned();
    path.append("/'");
    path.append(stem);
    path.append("'.data");
    path
}

/// Builds the path of the temporary file with the given stem.
pub fn temp_file_path(root: &str, stem: &str) -> (path: String)
    ensures
        path@ == temp_path(root@, stem@),
{
    let mut path = root.to_owned();
    path.append("/'");
    path.append(stem);
    path.append("'.tmp");
    path
}

/// No temporary file is the data file of any key: the two kinds of path end
/// differently.
pub proof fn lemma_temp_is_no_data_path(root: Seq<char>, stem: Seq<char>, other: Seq<char>)
    ensures
        temp_path(root, stem) != data_path(root, other),
{
    reveal_strlit("'.data");
    reveal_strlit("'.tmp");
    assert(temp_path(root, stem).last() == 'p');
    assert(data_path(root, other).last() == 'a');
}

/// Two texts that differ still differ between the same head and tail.
proof fn lemma_middle_cancels(head: Seq<char>, x: Seq<char>, y: Seq<char>, tail: Seq<char>)
    requires
        head + x + tail == head + y + tail,
    ensures
        x == y,
{
    let a = head + x + tail;
    let b = head + y + tail;
    let from = head.len() as int;
    assert(a.len() == head.len() + x.len() + tail.len());
    assert(b.len() == head.len() + y.len() + tail.len());
    assert(x =~= a.subrange(from, from + x.len()));
    assert(y =~= b.subrange(from, from + y.len()));
}

/// Under one root, different stems have different data files.
pub proof fn lemma_data_path_injective(root: Seq<char>, stem: Seq<char>, other: Seq<char>)
    requires
        data_path(root, stem) == data_path(root, other),
    ensures
        stem == other,
{
    lemma_middle_cancels(root + "/'"@, stem, other, "'.data"@);
}

/// Under one root, different stems have different temporary files.
pub proof fn lemma_temp_path_injective(root: Seq<char>, stem: Seq<char>, other: Seq<char>)
    requires
        temp_path(root, stem) == temp_path(root, other),
    ensures
        stem == other,
{
    lemma_middle_cancels(root + "/'"@, stem, other, "'.tmp"@);
}

} // verus!
