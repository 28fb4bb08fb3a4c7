//! The paths that an ISO 9660 reader gives to the extents of an image.
//!
//! The caller walks the image with its reader and hands the walks in: where the
//! nodes of the image begin and what their paths are, or nothing where the image
//! cannot be walked.
use crate::isz::is_isz_image;
use crate::optical::is_optical_image;
use crate::virtual_disk::path_map_view;
use vstd::prelude::*;

verus! {

/// A walk, taken by its view.
pub open spec fn walk_view(walk: Option<Vec<(u32, String)>>) -> Option<Seq<(u32, Seq<char>)>> {
    match walk {
        Some(walk) => Some(path_map_view(walk@)),
        None => None,
    }
}

/// Whether a file is read through the source of an optical image.
pub open spec fn is_optical(prefix: Seq<u8>, path: Seq<char>) -> bool {
    crate::isz::has_isz_magic(prefix) || crate::optical::names_optical_image(path)
}

/// Whether the decoded image of the file at `path`, which begins with `prefix`, is
/// walked before the file as it is.
pub fn walks_decoded_image(prefix: &[u8], path: &str) -> (r: bool)
    ensures
        r == is_optical(prefix@, path@),
{
    is_isz_image(prefix) || is_optical_image(path)
}

/// The paths of an image: those of the decoded optical image, where it is one and
/// can be walked; else those of the file as it is; else none.
pub open spec fn iso_paths(
    prefix: Seq<u8>,
    path: Seq<char>,
    decoded: Option<Seq<(u32, Seq<char>)>>,
    file: Option<Seq<(u32, Seq<char>)>>,
) -> Seq<(u32, Seq<char>)> {
    if is_optical(prefix, path) && decoded is Some {
        decoded->0
    } else if file is Some {
        file->0
    } else {
        Seq::empty()
    }
}

/// The paths that an ISO 9660 reader gives to the extents of the image at `path`,
/// which begins with `prefix`. `decoded` is the walk of the decoded optical image,
/// and `file` that of the file as it is.
pub fn iso_path_map(
    prefix: &[u8],
    path: &str,
    decoded: Option<Vec<(u32, String)>>,
    file: Option<Vec<(u32, String)>>,
) -> (map: Vec<(u32, String)>)
    ensures
        path_map_view(map@) == iso_paths(prefix@, path@, walk_view(decoded), walk_view(file)),
{
    if walks_decoded_image(prefix, path) {
        match decoded {
            Some(map) => {
                return map;
            },
            None => {},
        }
    }
    match file {
        Some(map) => map,
        None => {
            let map: Vec<(u32, String)> = Vec::new();
            assert(path_map_view(map@) =~= Seq::<(u32, Seq<char>)>::empty());
            map
        },
    }
}

/// An ISZ image and a file with the name of an optical image are read as decoded images,
/// where that can be done. Every other file is read as it is, and so are they where it
/// cannot.
pub proof fn law_decoded_images_come_first(
    prefix: Seq<u8>,
    path: Seq<char>,
    decoded: Option<Seq<(u32, Seq<char>)>>,
    file: Option<Seq<(u32, Seq<char>)>>,
)
    ensures
        (crate::isz::has_isz_magic(prefix) || crate::optical::names_optical_image(path))
            && decoded is Some ==> iso_paths(prefix, path, decoded, file) == decoded->0,
        !((crate::isz::has_isz_magic(prefix) || crate::optical::names_optical_image(path))
            && decoded is Some) && file is Some ==> iso_paths(prefix, path, decoded, file)
            == file->0,
        decoded is None && file is None ==> iso_paths(prefix, path, decoded, file).len() == 0,
{
}

} // verus!
