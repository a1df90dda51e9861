//! Where an asset lies in the read-only file system.

use vstd::prelude::*;
use vstd::string::StrSliceExecFns;
use vstd::string::StringExecFns;

verus! {

/// Finds assets in the read-only file system.
pub struct RomfsAssetReader;

/// The root of the read-only file system.
pub open spec fn romfs_root() -> Seq<char> {
    seq!['r', 'o', 'm', 'f', 's', ':', '/']
}

/// What is added to the name of an asset to name the file that describes
/// it.
pub open spec fn meta_suffix() -> Seq<char> {
    seq!['.', 'm', 'e', 't', 'a']
}

/// Whether `path` lies below the root of the read-only file system already:
/// it is the root, with or without its stroke, or begins with it.
pub open spec fn is_rooted(path: Seq<char>) -> bool {
    path == romfs_root().take(6) || romfs_root().is_prefix_of(path)
}

/// The extension that `std::path::Path::extension` finds in `path`, if it
/// finds one, where the parts of a path are separated by `/`.
pub uninterp spec fn extension_of(path: Seq<char>) -> Option<Seq<char>>;

/// The path that `std::path::PathBuf::set_extension` makes of `path` when it
/// is given `extension`, where the parts of a path are separated by `/`.
pub uninterp spec fn with_extension_of(path: Seq<char>, extension: Seq<char>) -> Seq<char>;

/// Whether `text` holds a character that separates the parts of a path on
/// some machine: a stroke, forward or backward.
pub open spec fn has_separator(text: Seq<char>) -> bool {
    exists|i: int| 0 <= i < text.len() && (#[trigger] text[i] == '/' || text[i] == '\\')
}

/// The place of the file that describes the asset at `path`, as far as
/// `extension` is the extension of the asset: the path with `.meta` added
/// to that extension.
pub open spec fn meta_path_with(path: Seq<char>, extension: Seq<char>) -> Seq<char> {
    with_extension_of(path, extension + meta_suffix())
}

/// The place of the file that describes the asset at `path`. There is none
/// for a path without an extension, nor for one whose extension holds a
/// separator.
pub open spec fn meta_path_of(path: Seq<char>) -> Option<Seq<char>> {
    match extension_of(path) {
        Some(extension) => if has_separator(extension) {
            None
        } else {
            Some(meta_path_with(path, extension))
        },
        None => None,
    }
}

/// The place of `path` in the read-only file system: the path itself if it
/// begins at the root of all files, else the path below the root of the
/// read-only file system.
pub open spec fn romfs_path(path: Seq<char>) -> Seq<char> {
    if path.len() > 0 && path[0] == '/' {
        path
    } else {
        romfs_root() + path
    }
}

/// `std::path::Path::extension`: the extension of the file name of `path`,
/// where it has one.
#[verifier::external_body]
fn extension(path: &str) -> (found: Option<String>)
    ensures
        found is Some <==> extension_of(path@) is Some,
        found matches Some(extension) ==> extension_of(path@) == Some(extension@),
{
    match std::path::Path::new(path).extension() {
        Some(extension) => Some(extension.to_string_lossy().into_owned()),
        None => None,
    }
}

/// `std::path::PathBuf::set_extension`: `path` with the extension of its
/// file name replaced by `extension`, or given it. The call panics on an
/// extension that holds a separator of paths, so none is handed over.
#[verifier::external_body]
fn set_extension(path: &str, extension: &str) -> (changed: String)
    requires
        !has_separator(extension@),
    ensures
        changed@ == with_extension_of(path@, extension@),
{
    let mut buffer = std::path::PathBuf::from(path);
    buffer.set_extension(extension);
    buffer.to_string_lossy().into_owned()
}

impl RomfsAssetReader {
    /// Whether `path` lies below the root of the read-only file system
    /// already.
    pub fn already_rooted(path: &str) -> (rooted: bool)
        ensures
            rooted == is_rooted(path@),
    {
        let root = "romfs:/";
        proof {
            reveal_strlit("romfs:/");
        }
        assert(root@ =~= romfs_root());
        let n: usize = path.unicode_len();
        if n < 6 {
            assert(!romfs_root().is_prefix_of(path@));
            assert(path@ != romfs_root().take(6));
            return false;
        }
        let mut i: usize = 0;
        while i < 6
            invariant
                i <= 6,
                n == path@.len(),
                n >= 6,
                root@ == romfs_root(),
                forall|j: int| 0 <= j < i ==> path@[j] == romfs_root()[j],
            decreases 6 - i,
        {
            if path.get_char(i) != root.get_char(i) {
                assert(path@[i as int] != romfs_root()[i as int]);
                assert(!romfs_root().is_prefix_of(path@)) by {
                    if romfs_root().is_prefix_of(path@) {
                        assert(path@.subrange(0, 7)[i as int] == romfs_root()[i as int]);
                    }
                }
                assert(path@ != romfs_root().take(6)) by {
                    if path@ == romfs_root().take(6) {
                        assert(romfs_root().take(6)[i as int] == romfs_root()[i as int]);
                    }
                }
                return false;
            }
            i += 1;
        }
        if n == 6 {
            assert(path@ =~= romfs_root().take(6));
            return true;
        }
        let stroke = path.get_char(6) == '/';
        proof {
            if stroke {
                assert(path@.subrange(0, 7) =~= romfs_root());
            } else {
                assert(path@ != romfs_root().take(6));
                if romfs_root().is_prefix_of(path@) {
                    assert(path@.subrange(0, 7)[6] == romfs_root()[6]);
                }
            }
        }
        stroke
    }

    /// The place of `path` in the read-only file system.
    pub fn process_path(path: &str) -> (full: String)
        requires
            !is_rooted(path@),
        ensures
            full@ == romfs_path(path@),
    {
        proof {
            reveal_strlit("romfs:/");
        }
        assert("romfs:/"@ =~= romfs_root());
        if path.unicode_len() > 0 && path.get_char(0) == '/' {
            String::from_str(path)
        } else {
            String::from_str("romfs:/").concat(path)
        }
    }

    /// Whether the file name of `path` has an extension.
    pub fn has_extension(path: &str) -> (has: bool)
        ensures
            has == (extension_of(path@) is Some),
    {
        extension(path).is_some()
    }

    /// Whether `text` holds a character that separates the parts of a path
    /// on some machine.
    pub fn separator_in(text: &str) -> (found: bool)
        ensures
            found == has_separator(text@),
    {
        let n: usize = text.unicode_len();
        let mut i: usize = 0;
        while i < n
            invariant
                i <= n,
                n == text@.len(),
                forall|j: int| 0 <= j < i ==> text@[j] != '/' && text@[j] != '\\',
            decreases n - i,
        {
            let c = text.get_char(i);
            if c == '/' || c == '\\' {
                return true;
            }
            i += 1;
        }
        false
    }

    /// What follows the name of the file that describes an asset with the
    /// extension `extension`: the extension, and `.meta` behind it.
    pub fn meta_extension(extension: &str) -> (longer: String)
        ensures
            longer@ == extension@ + meta_suffix(),
    {
        proof {
            reveal_strlit(".meta");
        }
        assert(".meta"@ =~= meta_suffix());
        String::from_str(extension).concat(".meta")
    }

    /// The place of the file that describes the asset at `path`, whose
    /// extension is `extension`.
    pub fn meta_path(path: &str, extension: &str) -> (meta: String)
        requires
            !has_separator(extension@),
        ensures
            meta@ == meta_path_with(path@, extension@),
    {
        let longer = RomfsAssetReader::meta_extension(extension);
        proof {
            let whole = extension@ + meta_suffix();
            if has_separator(whole) {
                let i = choose|i: int|
                    0 <= i < whole.len() && (#[trigger] whole[i] == '/' || whole[i] == '\\');
                if i < extension@.len() {
                    assert(extension@[i] == whole[i]);
                } else {
                    assert(whole[i] == meta_suffix()[i - extension@.len()]);
                }
            }
        }
        set_extension(path, longer.as_str())
    }

    /// The place of the file that describes the asset at `path`: the path
    /// with `.meta` added to its extension.
    pub fn get_meta_path(path: &str) -> (meta: String)
        requires
            meta_path_of(path@) is Some,
        ensures
            Some(meta@) == meta_path_of(path@),
    {
        match extension(path) {
            Some(found) => RomfsAssetReader::meta_path(path, found.as_str()),
            None => {
                assert(false);
                String::from_str(path)
            },
        }
    }

    /// The place of the file that describes the asset at `path`, if there
    /// is one.
    pub fn try_get_meta_path(path: &str) -> (meta: Option<String>)
        ensures
            meta is Some <==> meta_path_of(path@) is Some,
            meta matches Some(place) ==> meta_path_of(path@) == Some(place@),
    {
        match extension(path) {
            Some(found) => {
                if RomfsAssetReader::separator_in(found.as_str()) {
                    None
                } else {
                    Some(RomfsAssetReader::get_meta_path(path))
                }
            },
            None => None,
        }
    }
}

/// The place of an asset in the read-only file system ends in the path of
/// the asset.
pub proof fn lemma_romfs_path_keeps_path(path: Seq<char>)
    ensures
        romfs_path(path).len() >= path.len(),
        romfs_path(path).subrange(romfs_path(path).len() - path.len(), romfs_path(path).len() as int)
            == path,
{
    if path.len() > 0 && path[0] == '/' {
        assert(path.subrange(0, path.len() as int) =~= path);
    } else {
        assert((romfs_root() + path).subrange(7, 7 + path.len() as int) =~= path);
    }
}

} // verus!
