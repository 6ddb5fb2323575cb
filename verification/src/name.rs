//! What the name of a directory entry says about it.
//!
//! An entry name is a single component of a path: the text that a directory
//! listing gives for one entry, without any separator in it.

use vstd::prelude::*;
use crate::text::{chars_of, eq_ignore_ascii_case, tail_eq_ignore_ascii_case};

verus! {

/// What an entry is taken for, judged by its name alone.
#[derive(Clone, Copy, Debug, PartialEq, Eq, Structural)]
pub enum EntryKind {
    /// The picture of a pumpkin.
    Image,
    /// A file that may hold the weight of a pumpkin.
    Sidecar,
    /// Anything else; it is passed over.
    Other,
}

/// The extension that marks an image, in small letters.
pub open spec fn image_extension() -> Seq<char> {
    seq!['p', 'n', 'g']
}

/// The extension that marks a sidecar, in small letters.
pub open spec fn sidecar_extension() -> Seq<char> {
    seq!['w', 'e', 'i', 'g', 'h', 't']
}

/// Where the name divides into stem and extension: the index of its last
/// dot, provided that the dot does not open the name and that the name is
/// not the parent entry `..`. A name without such a dot has no extension.
pub open spec fn split_point(name: Seq<char>) -> Option<int> {
    match name.index_of_last('.') {
        Some(d) => if d > 0 && name != seq!['.', '.'] {
            Some(d)
        } else {
            None
        },
        None => None,
    }
}

/// The extension of a name: what follows its last dot.
pub open spec fn extension_of(name: Seq<char>) -> Option<Seq<char>> {
    match split_point(name) {
        Some(d) => Some(name.subrange(d + 1, name.len() as int)),
        None => None,
    }
}

/// The stem of a name: what precedes the dot of its extension, or the whole
/// name where it has no extension.
pub open spec fn stem_of(name: Seq<char>) -> Seq<char> {
    match split_point(name) {
        Some(d) => name.subrange(0, d),
        None => name,
    }
}

/// The kind of an entry. The extension decides, whatever the case of its
/// letters.
pub open spec fn kind_of(name: Seq<char>) -> EntryKind {
    match extension_of(name) {
        Some(ext) => if eq_ignore_ascii_case(ext, image_extension()) {
            EntryKind::Image
        } else if eq_ignore_ascii_case(ext, sidecar_extension()) {
            EntryKind::Sidecar
        } else {
            EntryKind::Other
        },
        None => EntryKind::Other,
    }
}

/// The name under which the sidecar of an image is looked for: the stem of
/// the image followed by `.weight`.
pub open spec fn sidecar_of(image: Seq<char>) -> Seq<char> {
    stem_of(image) + seq!['.'] + sidecar_extension()
}

/// A dot at `d` with no dot after it is the last dot of `name`.
pub proof fn lemma_last_dot(name: Seq<char>, d: int)
    requires
        0 <= d < name.len(),
        name[d] == '.',
        forall|j: int| d < j < name.len() ==> name[j] != '.',
    ensures
        name.index_of_last('.') == Some(d),
{
    name.index_of_last_ensures('.');
    assert(name.contains('.'));
}

/// A name without a dot has no last dot.
pub proof fn lemma_no_dot(name: Seq<char>)
    requires
        forall|j: int| 0 <= j < name.len() ==> name[j] != '.',
    ensures
        name.index_of_last('.') is None,
{
    name.index_of_last_ensures('.');
}

/// A name with an extension is its stem, a dot and its extension; the stem
/// is not empty and the extension holds no dot. A name has no extension
/// where no dot stands behind its first character, and where it is `..`.
pub proof fn lemma_name_parts(name: Seq<char>)
    ensures
        match extension_of(name) {
            Some(ext) => {
                &&& name == stem_of(name) + seq!['.'] + ext
                &&& stem_of(name).len() > 0
                &&& !ext.contains('.')
                &&& name != seq!['.', '.']
            },
            None => {
                &&& stem_of(name) == name
                &&& name == seq!['.', '.'] || forall|i: int| 0 < i < name.len() ==> name[i] != '.'
            },
        },
{
    name.index_of_last_ensures('.');
    match extension_of(name) {
        Some(ext) => {
            assert(name =~= stem_of(name) + seq!['.'] + ext);
        },
        None => {
            if name != seq!['.', '.'] {
                assert forall|i: int| 0 < i < name.len() implies name[i] != '.' by {
                    if name[i] == '.' {
                        assert(name.contains('.'));
                    }
                }
            }
        },
    }
}

/// Equality up to the case of ASCII letters is an equivalence: it holds of
/// a text and itself, either way round, and along a chain.
pub proof fn lemma_eq_ignore_ascii_case_equivalence(a: Seq<char>, b: Seq<char>, c: Seq<char>)
    ensures
        eq_ignore_ascii_case(a, a),
        eq_ignore_ascii_case(a, b) ==> eq_ignore_ascii_case(b, a),
        eq_ignore_ascii_case(a, b) && eq_ignore_ascii_case(b, c) ==> eq_ignore_ascii_case(a, c),
{
}

/// The kind of an entry does not depend on the case of the letters of its
/// extension: two names whose extensions differ in nothing else are of one
/// kind.
pub proof fn lemma_kind_ignores_case(name: Seq<char>, other: Seq<char>)
    requires
        extension_of(name) is Some,
        extension_of(other) is Some,
        eq_ignore_ascii_case(extension_of(name)->0, extension_of(other)->0),
    ensures
        kind_of(name) == kind_of(other),
{
    let a = extension_of(name)->0;
    let b = extension_of(other)->0;
    lemma_eq_ignore_ascii_case_equivalence(a, b, image_extension());
    lemma_eq_ignore_ascii_case_equivalence(b, a, image_extension());
    lemma_eq_ignore_ascii_case_equivalence(a, b, sidecar_extension());
    lemma_eq_ignore_ascii_case_equivalence(b, a, sidecar_extension());
}

/// The name looked for as the sidecar of a name with an extension is a
/// sidecar candidate, and has the stem of that name.
pub proof fn lemma_sidecar_of(name: Seq<char>)
    requires
        extension_of(name) is Some,
    ensures
        kind_of(sidecar_of(name)) == EntryKind::Sidecar,
        stem_of(sidecar_of(name)) == stem_of(name),
        extension_of(sidecar_of(name)) == Some(sidecar_extension()),
{
    let stem = stem_of(name);
    let wanted = sidecar_of(name);
    let d = stem.len() as int;
    assert(d > 0) by {
        name.index_of_last_ensures('.');
    }
    assert(wanted.len() == d + 7);
    lemma_last_dot(wanted, d);
    assert(wanted != seq!['.', '.']) by {
        if wanted == seq!['.', '.'] {
            assert(seq!['.', '.'].len() == 2);
        }
    }
    assert(wanted.subrange(d + 1, wanted.len() as int) =~= sidecar_extension());
    assert(wanted.subrange(0, d) =~= stem);
    lemma_eq_ignore_ascii_case_equivalence(
        sidecar_extension(),
        sidecar_extension(),
        sidecar_extension(),
    );
}

/// Finds [`split_point`].
pub fn find_split_point(name: &Vec<char>) -> (found: Option<usize>)
    ensures
        match found {
            Some(d) => split_point(name@) == Some(d as int) && 0 < d < name.len(),
            None => split_point(name@) is None,
        },
{
    let mut i: usize = name.len();
    while i > 0
        invariant
            i <= name.len(),
            forall|j: int| i <= j < name.len() ==> name@[j] != '.',
        decreases i,
    {
        i -= 1;
        if name[i] == '.' {
            proof {
                lemma_last_dot(name@, i as int);
            }
            let parent = name.len() == 2 && name[0] == '.';
            proof {
                let dots = seq!['.', '.'];
                assert(i > 0 && parent ==> name@ =~= dots);
                assert(name@ == dots ==> parent) by {
                    assert(dots.len() == 2 && dots[0] == '.');
                }
            }
            return if i == 0 || parent {
                None
            } else {
                Some(i)
            };
        }
    }
    proof {
        lemma_no_dot(name@);
    }
    None
}

/// The kind of the entry called `name`.
pub fn entry_kind(name: &str) -> (kind: EntryKind)
    ensures
        kind == kind_of(name@),
{
    let chars = chars_of(name);
    match find_split_point(&chars) {
        Some(d) => {
            let image: Vec<char> = vec!['p', 'n', 'g'];
            let sidecar: Vec<char> = vec!['w', 'e', 'i', 'g', 'h', 't'];
            assert(image@ =~= image_extension());
            assert(sidecar@ =~= sidecar_extension());
            if tail_eq_ignore_ascii_case(&chars, d + 1, &image) {
                EntryKind::Image
            } else if tail_eq_ignore_ascii_case(&chars, d + 1, &sidecar) {
                EntryKind::Sidecar
            } else {
                EntryKind::Other
            }
        },
        None => EntryKind::Other,
    }
}

/// The name under which the sidecar of `image` is looked for.
pub fn sidecar_name(image: &str) -> (name: String)
    ensures
        name@ == sidecar_of(image@),
{
    let chars = chars_of(image);
    let stem: &str = match find_split_point(&chars) {
        Some(d) => image.substring_char(0, d),
        None => image,
    };
    let mut name = String::from_str(stem);
    name.append(".weight");
    proof {
        reveal_strlit(".weight");
        assert(".weight"@ =~= seq!['.'] + sidecar_extension());
        assert(name@ =~= sidecar_of(image@));
    }
    name
}

} // verus!
