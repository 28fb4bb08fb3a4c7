//! The files of a volume set: which files an archive path stands for, in which
//! order, and which ones the set should have.
use crate::failure::IoFailure;
use crate::paths::{archive_directory, file_name_of, has_extension, join};
#[allow(unused_imports)]
use crate::paths::{
    directory, file_name, joined, last_component, law_extensions_follow_the_last_dot,
    lemma_name_start, lower_extension, name_start, trim_tail,
};
use crate::text::chars_of;
#[allow(unused_imports)]
use crate::text::{lower, lower_all, same_text, texts};
use crate::tzap::error::{TzapError, io_failed};
#[allow(unused_imports)]
use crate::tzap::error::TzapFault;
use crate::tzap::names::{
    parse_tzap_volume_file_name, tzap_destination_path_from_volume_path,
    tzap_multi_volume_base_name, tzap_output_volume_path,
};
#[allow(unused_imports)]
use crate::tzap::names::{
    VolumeNameView, archive_suffix, base_name, law_destinations_are_found_again,
    law_volumes_lie_beside_their_destination, output_paths, set_destination, volume_file_name,
    volume_name, volume_path,
};
use vstd::prelude::*;

verus! {

/// Whether a path names an archive: its extension is `tzap` in any ASCII case,
/// or its file name is that of a volume.
pub open spec fn names_archive(path: Seq<char>) -> bool {
    lower_extension(path) == Some("tzap"@) || match file_name(path) {
        Some(name) => volume_name(name) is Some,
        None => false,
    }
}

/// Returns whether a path names a TZAP archive or one of its numbered volumes.
pub fn is_tzap_archive_path(path: &str) -> (r: bool)
    ensures
        r == names_archive(path@),
{
    if has_extension(path, "tzap") {
        return true;
    }
    match file_name_of(path) {
        Some(name) => match parse_tzap_volume_file_name(name.as_str()) {
            Some(_) => true,
            None => false,
        },
        None => false,
    }
}

/// One name in the directory of an archive.
pub struct SiblingFile {
    /// The file name.
    pub name: String,
    /// Whether the name leads to a file; a dangling link does not.
    pub exists: bool,
}

/// One file that may hold a part of an archive.
pub struct VolumeCandidate {
    /// Where the file is.
    pub path: String,
    /// Whether the path leads to a file.
    pub exists: bool,
}

/// A name in a directory, or a candidate, with its text taken as a sequence.
pub struct FileView {
    pub name: Seq<char>,
    pub exists: bool,
}

/// The names of a directory listing.
pub open spec fn sibling_views(files: Seq<SiblingFile>) -> Seq<FileView> {
    files.map_values(|f: SiblingFile| FileView { name: f.name@, exists: f.exists })
}

/// The paths of a list of candidates.
pub open spec fn candidate_views(list: Seq<VolumeCandidate>) -> Seq<FileView> {
    list.map_values(|f: VolumeCandidate| FileView { name: f.path@, exists: f.exists })
}

/// Whether `a` comes before `b` in the order of their characters.
pub open spec fn text_before(a: Seq<char>, b: Seq<char>) -> bool
    decreases a.len(),
{
    if b.len() == 0 {
        false
    } else if a.len() == 0 {
        true
    } else if a[0] != b[0] {
        a[0] < b[0]
    } else {
        text_before(a.skip(1), b.skip(1))
    }
}

/// Whether a name is that of a volume of the set `base`.
pub open spec fn belongs(name: Seq<char>, base: Seq<char>) -> bool {
    match volume_name(name) {
        Some(volume) => volume.base == base,
        None => false,
    }
}

/// The index of the volume that a name stands for.
pub open spec fn index_of(name: Seq<char>) -> nat {
    match volume_name(name) {
        Some(volume) => volume.index,
        None => 0,
    }
}

/// Whether a volume comes before another one: by index, and by name where two
/// names spell the same index.
pub open spec fn volume_before(a: Seq<char>, b: Seq<char>) -> bool {
    index_of(a) < index_of(b) || (index_of(a) == index_of(b) && text_before(a, b))
}

/// A list of volumes with one more put in its place: in front of the volumes
/// that it comes before.
pub open spec fn put_in_order(list: Seq<FileView>, file: FileView) -> Seq<FileView>
    decreases list.len(),
{
    if list.len() > 0 && volume_before(file.name, list.last().name) {
        put_in_order(list.drop_last(), file).push(list.last())
    } else {
        list.push(file)
    }
}

/// The volumes of the set `base` among the files of a directory, in order.
pub open spec fn volumes_among(files: Seq<FileView>, base: Seq<char>) -> Seq<FileView>
    decreases files.len(),
{
    if files.len() == 0 {
        Seq::empty()
    } else if belongs(files.last().name, base) {
        put_in_order(volumes_among(files.drop_last(), base), files.last())
    } else {
        volumes_among(files.drop_last(), base)
    }
}

/// Files of the directory `dir` by their paths.
pub open spec fn placed(dir: Seq<char>, files: Seq<FileView>) -> Seq<FileView> {
    files.map_values(|f: FileView| FileView { name: joined(dir, f.name), exists: f.exists })
}

/// The set that the volume at `path` belongs to, found beside it.
pub open spec fn set_of_volume(path: Seq<char>, files: Seq<FileView>) -> Seq<FileView> {
    match file_name(path) {
        Some(name) => match volume_name(name) {
            Some(volume) => placed(directory(path), volumes_among(files, volume.base)),
            None => Seq::empty(),
        },
        None => Seq::empty(),
    }
}

/// The volume set that was written for the destination `path`.
pub open spec fn set_at_destination(path: Seq<char>, files: Seq<FileView>) -> Seq<FileView> {
    match file_name(path) {
        Some(name) => placed(directory(path), volumes_among(files, base_name(name))),
        None => Seq::empty(),
    }
}

/// The files that an archive path stands for: the set of the volume that it
/// names, the file itself where there is one, the set written for it, or the
/// path as it is.
pub open spec fn input_volumes(path: Seq<char>, exists: bool, files: Seq<FileView>) -> Seq<
    FileView,
> {
    if set_of_volume(path, files).len() > 0 {
        set_of_volume(path, files)
    } else if !exists && set_at_destination(path, files).len() > 0 {
        set_at_destination(path, files)
    } else {
        seq![FileView { name: path, exists }]
    }
}

fn is_before(a: &str, b: &str) -> (r: bool)
    ensures
        r == text_before(a@, b@),
{
    let x: Vec<char> = chars_of(a);
    let y: Vec<char> = chars_of(b);
    let mut i: usize = 0;
    assert(a@.skip(0) =~= a@);
    assert(b@.skip(0) =~= b@);
    while i < x.len() && i < y.len() && x[i] == y[i]
        invariant
            x@ == a@,
            y@ == b@,
            i <= x@.len(),
            i <= y@.len(),
            text_before(a@.skip(i as int), b@.skip(i as int)) == text_before(a@, b@),
        decreases x@.len() - i,
    {
        assert(a@.skip(i as int).skip(1) =~= a@.skip(i + 1));
        assert(b@.skip(i as int).skip(1) =~= b@.skip(i + 1));
        i = i + 1;
    }
    if i >= y.len() {
        false
    } else if i >= x.len() {
        true
    } else {
        x[i] < y[i]
    }
}

/// A volume found in a directory, with the index that its name spells.
struct FoundVolume {
    name: String,
    index: usize,
    exists: bool,
}

spec fn found_views(list: Seq<FoundVolume>) -> Seq<FileView> {
    list.map_values(|f: FoundVolume| FileView { name: f.name@, exists: f.exists })
}

fn comes_before(a: &FoundVolume, b: &FoundVolume) -> (r: bool)
    requires
        a.index as nat == index_of(a.name@),
        b.index as nat == index_of(b.name@),
    ensures
        r == volume_before(a.name@, b.name@),
{
    a.index < b.index || (a.index == b.index && is_before(a.name.as_str(), b.name.as_str()))
}

proof fn lemma_put_split(list: Seq<FileView>, k: int, file: FileView)
    requires
        0 <= k <= list.len(),
        forall|j: int| k <= j < list.len() ==> volume_before(file.name, #[trigger] list[j].name),
        k > 0 ==> !volume_before(file.name, list[k - 1].name),
    ensures
        put_in_order(list, file) == list.take(k).push(file) + list.skip(k),
    decreases list.len() - k,
{
    if k == list.len() {
        assert(list.take(k) =~= list);
        assert(list.take(k).push(file) + list.skip(k) =~= list.push(file));
    } else {
        let head = list.drop_last();
        assert(volume_before(file.name, list[list.len() - 1].name));
        assert forall|j: int| k <= j < head.len() implies volume_before(
            file.name,
            #[trigger] head[j].name,
        ) by {
            assert(head[j] == list[j]);
        }
        lemma_put_split(head, k, file);
        assert(head.take(k) =~= list.take(k));
        assert((head.take(k).push(file) + head.skip(k)).push(list.last()) =~= list.take(k).push(
            file,
        ) + list.skip(k));
    }
}

fn insert_in_order(list: &mut Vec<FoundVolume>, file: FoundVolume)
    requires
        file.index as nat == index_of(file.name@),
        forall|j: int|
            0 <= j < old(list)@.len() ==> old(list)@[j].index as nat == index_of(
                (#[trigger] old(list)@[j]).name@,
            ),
    ensures
        found_views(final(list)@) == put_in_order(
            found_views(old(list)@),
            FileView { name: file.name@, exists: file.exists },
        ),
        forall|j: int|
            0 <= j < final(list)@.len() ==> final(list)@[j].index as nat == index_of(
                (#[trigger] final(list)@[j]).name@,
            ),
{
    let ghost before = list@;
    let ghost views = found_views(list@);
    let ghost view = FileView { name: file.name@, exists: file.exists };
    let mut at: usize = list.len();
    while at > 0 && comes_before(&file, &list[at - 1])
        invariant
            list@ == before,
            views == found_views(before),
            view == (FileView { name: file.name@, exists: file.exists }),
            at <= list@.len(),
            file.index as nat == index_of(file.name@),
            forall|j: int|
                0 <= j < before.len() ==> before[j].index as nat == index_of(
                    (#[trigger] before[j]).name@,
                ),
            forall|j: int|
                at <= j < views.len() ==> volume_before(view.name, #[trigger] views[j].name),
        decreases at,
    {
        assert(views[at - 1].name == before[at - 1].name@);
        at = at - 1;
    }
    proof {
        assert(at > 0 ==> views[at - 1].name == before[at - 1].name@);
        lemma_put_split(views, at as int, view);
    }
    list.insert(at, file);
    assert(found_views(list@) =~= views.take(at as int).push(view) + views.skip(at as int));
    assert forall|j: int| 0 <= j < list@.len() implies list@[j].index as nat == index_of(
        (#[trigger] list@[j]).name@,
    ) by {
        if j < at {
            assert(list@[j] == before[j]);
        } else if j > at {
            assert(list@[j] == before[j - 1]);
        }
    }
}

/// The volumes of the set `base` among the files of the directory `dir`, in
/// order.
pub fn discover_tzap_volume_paths_by_base(
    dir: &str,
    base: &str,
    files: &Vec<SiblingFile>,
) -> (found: Vec<VolumeCandidate>)
    ensures
        candidate_views(found@) == placed(dir@, volumes_among(sibling_views(files@), base@)),
{
    let ghost views = sibling_views(files@);
    let mut ordered: Vec<FoundVolume> = Vec::new();
    let mut i: usize = 0;
    assert(found_views(ordered@) =~= Seq::<FileView>::empty());
    assert(views.take(0) =~= Seq::<FileView>::empty());
    while i < files.len()
        invariant
            i <= files@.len(),
            views == sibling_views(files@),
            found_views(ordered@) == volumes_among(views.take(i as int), base@),
            forall|j: int|
                0 <= j < ordered@.len() ==> ordered@[j].index as nat == index_of(
                    (#[trigger] ordered@[j]).name@,
                ),
        decreases files@.len() - i,
    {
        let file: &SiblingFile = &files[i];
        assert(views.take(i + 1).drop_last() =~= views.take(i as int));
        assert(views.take(i + 1).last() == views[i as int]);
        match parse_tzap_volume_file_name(file.name.as_str()) {
            Some(volume) => {
                if same_text(volume.base.as_str(), base) {
                    insert_in_order(
                        &mut ordered,
                        FoundVolume {
                            name: file.name.clone(),
                            index: volume.volume_index,
                            exists: file.exists,
                        },
                    );
                }
            },
            None => {},
        }
        i = i + 1;
    }
    assert(views.take(files@.len() as int) =~= views);
    let ghost wanted = placed(dir@, found_views(ordered@));
    let mut found: Vec<VolumeCandidate> = Vec::new();
    let mut k: usize = 0;
    assert(candidate_views(found@) =~= wanted.take(0));
    while k < ordered.len()
        invariant
            k <= ordered@.len(),
            wanted == placed(dir@, found_views(ordered@)),
            candidate_views(found@) == wanted.take(k as int),
        decreases ordered@.len() - k,
    {
        let ghost so_far = found@;
        found.push(
            VolumeCandidate {
                path: join(dir, ordered[k].name.as_str()),
                exists: ordered[k].exists,
            },
        );
        assert(candidate_views(found@) =~= candidate_views(so_far).push(wanted[k as int]));
        assert(wanted.take(k + 1) =~= wanted.take(k as int).push(wanted[k as int]));
        k = k + 1;
    }
    assert(wanted.take(ordered@.len() as int) =~= wanted);
    found
}

/// The set that the volume at `path` belongs to, found beside it; `None` where
/// the path does not name a volume.
pub fn discover_tzap_sibling_volume_paths(path: &str, files: &Vec<SiblingFile>) -> (found: Option<
    Vec<VolumeCandidate>,
>)
    ensures
        match found {
            Some(list) => candidate_views(list@) == set_of_volume(path@, sibling_views(files@)),
            None => set_of_volume(path@, sibling_views(files@)).len() == 0,
        },
        found is Some <==> (file_name(path@) matches Some(name) && volume_name(name) is Some),
{
    match file_name_of(path) {
        Some(name) => match parse_tzap_volume_file_name(name.as_str()) {
            Some(volume) => Some(
                discover_tzap_volume_paths_by_base(
                    archive_directory(path).as_str(),
                    volume.base.as_str(),
                    files,
                ),
            ),
            None => None,
        },
        None => None,
    }
}

/// The volume set that was written for the destination `path`.
pub fn discover_tzap_volume_paths_for_destination(
    destination: &str,
    files: &Vec<SiblingFile>,
) -> (found: Vec<VolumeCandidate>)
    ensures
        candidate_views(found@) == set_at_destination(destination@, sibling_views(files@)),
{
    match file_name_of(destination) {
        Some(name) => {
            let base: String = tzap_multi_volume_base_name(name.as_str());
            discover_tzap_volume_paths_by_base(
                archive_directory(destination).as_str(),
                base.as_str(),
                files,
            )
        },
        None => {
            let found: Vec<VolumeCandidate> = Vec::new();
            assert(candidate_views(found@) =~= Seq::<FileView>::empty());
            found
        },
    }
}

/// The files that an archive path stands for. `exists` says whether the path
/// itself leads to a file, and `files` lists the directory that it is in.
pub fn discover_tzap_input_volume_paths(
    path: &str,
    exists: bool,
    files: &Vec<SiblingFile>,
) -> (found: Vec<VolumeCandidate>)
    ensures
        candidate_views(found@) == input_volumes(path@, exists, sibling_views(files@)),
{
    match discover_tzap_sibling_volume_paths(path, files) {
        Some(siblings) => {
            assert(candidate_views(siblings@).len() == siblings@.len());
            if siblings.len() > 0 {
                return siblings;
            }
        },
        None => {},
    }
    if !exists {
        let volumes: Vec<VolumeCandidate> = discover_tzap_volume_paths_for_destination(path, files);
        assert(candidate_views(volumes@).len() == volumes@.len());
        if volumes.len() > 0 {
            return volumes;
        }
    }
    let mut found: Vec<VolumeCandidate> = Vec::new();
    found.push(VolumeCandidate { path: path.to_owned(), exists });
    assert(candidate_views(found@) =~= seq![FileView { name: path@, exists }]);
    found
}

/// Whether some file of a list is there.
pub open spec fn any_exists(list: Seq<FileView>) -> bool {
    exists|k: int| 0 <= k < list.len() && #[trigger] list[k].exists
}

/// The first of `list` that leads to a file.
pub fn first_existing(list: &Vec<VolumeCandidate>) -> (at: Option<usize>)
    ensures
        match at {
            Some(at) => at < list@.len() && list@[at as int].exists && forall|k: int|
                0 <= k < at ==> !(#[trigger] list@[k]).exists,
            None => forall|k: int| 0 <= k < list@.len() ==> !(#[trigger] list@[k]).exists,
        },
        at is Some == any_exists(candidate_views(list@)),
{
    let ghost views = candidate_views(list@);
    let mut i: usize = 0;
    while i < list.len()
        invariant
            i <= list@.len(),
            views == candidate_views(list@),
            forall|k: int| 0 <= k < i ==> !(#[trigger] list@[k]).exists,
        decreases list@.len() - i,
    {
        if list[i].exists {
            assert(views[i as int].exists);
            return Some(i);
        }
        i = i + 1;
    }
    assert forall|k: int| 0 <= k < views.len() implies !(#[trigger] views[k]).exists by {
        assert(views[k].exists == list@[k].exists);
    }
    None
}

/// Returns whether the path resolves to at least one existing TZAP input
/// volume under the same discovery rules the archive open path uses.
pub fn has_existing_tzap_input_volume(path: &str, exists: bool, files: &Vec<SiblingFile>) -> (r:
    bool)
    ensures
        r == any_exists(input_volumes(path@, exists, sibling_views(files@))),
{
    let found: Vec<VolumeCandidate> = discover_tzap_input_volume_paths(path, exists, files);
    match first_existing(&found) {
        Some(_) => true,
        None => false,
    }
}

/// The destination that the names of a set's volumes derive from: that of the
/// first volume, else that of the requested path, else whichever of the two is
/// an archive file.
pub open spec fn set_base(requested: Seq<char>, first: Seq<char>) -> Seq<char> {
    match set_destination(first) {
        Some(destination) => destination,
        None => match set_destination(requested) {
            Some(destination) => destination,
            None => if lower_extension(first) == Some("tzap"@) {
                first
            } else {
                requested
            },
        },
    }
}

/// The files that a set of `count` volumes should have.
pub open spec fn expected_paths(requested: Seq<char>, first: Seq<char>, count: nat) -> Seq<
    Seq<char>,
> {
    if count <= 1 {
        seq![first]
    } else {
        Seq::new(count, |i: int| volume_path(set_base(requested, first), i as nat))
    }
}

/// The files that a set of `count` volumes should have, given the path that was
/// asked for and the first volume that was found.
pub fn expected_tzap_input_volume_paths(requested: &str, first: &str, count: usize) -> (paths: Vec<
    String,
>)
    ensures
        texts(paths@) == expected_paths(requested@, first@, count as nat),
{
    let mut paths: Vec<String> = Vec::new();
    if count <= 1 {
        paths.push(first.to_owned());
        assert(texts(paths@) =~= seq![first@]);
        return paths;
    }
    let base: String = match tzap_destination_path_from_volume_path(first) {
        Some(destination) => destination,
        None => match tzap_destination_path_from_volume_path(requested) {
            Some(destination) => destination,
            None => if has_extension(first, "tzap") {
                first.to_owned()
            } else {
                requested.to_owned()
            },
        },
    };
    let ghost wanted = expected_paths(requested@, first@, count as nat);
    let mut i: usize = 0;
    assert(texts(paths@) =~= wanted.take(0));
    while i < count
        invariant
            i <= count,
            count > 1,
            base@ == set_base(requested@, first@),
            wanted == expected_paths(requested@, first@, count as nat),
            texts(paths@) == wanted.take(i as int),
        decreases count - i,
    {
        let ghost before = paths@;
        let path: String = tzap_output_volume_path(base.as_str(), i);
        paths.push(path);
        assert(texts(paths@) =~= texts(before).push(path@));
        assert(wanted.take(i + 1) =~= wanted.take(i as int).push(wanted[i as int]));
        i = i + 1;
    }
    assert(wanted.take(count as int) =~= wanted);
    paths
}

spec fn in_order(list: Seq<FileView>) -> bool {
    forall|i: int, j: int|
        0 <= i < j < list.len() ==> index_of(#[trigger] list[i].name) <= index_of(
            #[trigger] list[j].name,
        )
}

proof fn lemma_put_keeps_order(list: Seq<FileView>, file: FileView)
    requires
        in_order(list),
    ensures
        in_order(put_in_order(list, file)),
        put_in_order(list, file).len() == list.len() + 1,
        forall|f: FileView|
            #[trigger] put_in_order(list, file).contains(f) <==> list.contains(f) || f == file,
    decreases list.len(),
{
    let after = put_in_order(list, file);
    if list.len() > 0 && volume_before(file.name, list.last().name) {
        let head = list.drop_last();
        let rest = put_in_order(head, file);
        assert forall|i: int, j: int| 0 <= i < j < head.len() implies index_of(
            #[trigger] head[i].name,
        ) <= index_of(#[trigger] head[j].name) by {
            assert(head[i] == list[i] && head[j] == list[j]);
        }
        lemma_put_keeps_order(head, file);
        assert forall|i: int, j: int| 0 <= i < j < after.len() implies index_of(
            #[trigger] after[i].name,
        ) <= index_of(#[trigger] after[j].name) by {
            if j < rest.len() {
                assert(after[i] == rest[i] && after[j] == rest[j]);
            } else {
                assert(rest.contains(rest[i]));
                if after[i] != file {
                    let k = choose|k: int| 0 <= k < head.len() && head[k] == after[i];
                    assert(head[k] == list[k]);
                }
            }
        }
        assert forall|f: FileView| #[trigger] after.contains(f) <==> list.contains(f) || f
            == file by {
            if after.contains(f) {
                let k = choose|k: int| 0 <= k < after.len() && after[k] == f;
                if k < rest.len() {
                    assert(rest[k] == f);
                    assert(rest.contains(f));
                    if f != file {
                        assert(head.contains(f));
                        let m = choose|m: int| 0 <= m < head.len() && head[m] == f;
                        assert(list[m] == f);
                    }
                } else {
                    assert(list[list.len() - 1] == f);
                }
            }
            if list.contains(f) || f == file {
                if f == list.last() {
                    assert(after[after.len() - 1] == f);
                } else {
                    if f != file {
                        let m = choose|m: int| 0 <= m < list.len() && list[m] == f;
                        assert(head[m] == f);
                    }
                    assert(rest.contains(f));
                    let k = choose|k: int| 0 <= k < rest.len() && rest[k] == f;
                    assert(after[k] == f);
                }
            }
        }
    } else {
        assert forall|i: int, j: int| 0 <= i < j < after.len() implies index_of(
            #[trigger] after[i].name,
        ) <= index_of(#[trigger] after[j].name) by {
            if j < list.len() {
                assert(after[i] == list[i] && after[j] == list[j]);
            } else {
                assert(after[i] == list[i]);
                assert(index_of(list[i].name) <= index_of(list[list.len() - 1].name));
            }
        }
        assert forall|f: FileView| #[trigger] after.contains(f) <==> list.contains(f) || f
            == file by {
            if list.contains(f) {
                let m = choose|m: int| 0 <= m < list.len() && list[m] == f;
                assert(after[m] == f);
            }
            if f == file {
                assert(after[list.len() as int] == f);
            }
        }
    }
}

proof fn lemma_volumes_among(files: Seq<FileView>, base: Seq<char>)
    ensures
        in_order(volumes_among(files, base)),
        forall|f: FileView|
            #[trigger] volumes_among(files, base).contains(f) <==> files.contains(f) && belongs(
                f.name,
                base,
            ),
    decreases files.len(),
{
    if files.len() > 0 {
        let head = files.drop_last();
        lemma_volumes_among(head, base);
        if belongs(files.last().name, base) {
            lemma_put_keeps_order(volumes_among(head, base), files.last());
        }
        assert forall|f: FileView| #[trigger]
            volumes_among(files, base).contains(f) <==> files.contains(f) && belongs(
            f.name,
            base,
        ) by {
            if files.contains(f) {
                let k = choose|k: int| 0 <= k < files.len() && files[k] == f;
                if k < head.len() {
                    assert(head[k] == f);
                }
            }
            if head.contains(f) {
                let k = choose|k: int| 0 <= k < head.len() && head[k] == f;
                assert(files[k] == f);
            }
            assert(files[files.len() - 1] == files.last());
        }
    }
}

/// The volumes of a destination that are there already, given the listing of its
/// directory.
pub open spec fn existing_volumes(
    destination: Seq<char>,
    listing: Result<Vec<SiblingFile>, IoFailure>,
) -> Result<Seq<FileView>, TzapFault> {
    match (file_name(destination), listing) {
        (None, _) => Ok(Seq::empty()),
        (Some(_), Err(failure)) => Err(
            TzapFault::Io { path: directory(destination), source: failure@ },
        ),
        (Some(name), Ok(files)) => Ok(
            placed(directory(destination), volumes_among(sibling_views(files@), base_name(name))),
        ),
    }
}

/// The volumes of a destination that are there already, in order. `listing` holds
/// what listing its directory came to.
pub fn existing_tzap_volume_paths(
    destination: &str,
    listing: &Result<Vec<SiblingFile>, IoFailure>,
) -> (found: Result<Vec<VolumeCandidate>, TzapError>)
    ensures
        (match found {
            Ok(found) => Ok(candidate_views(found@)),
            Err(e) => Err(e@),
        }) == existing_volumes(destination@, *listing),
{
    let name: String = match file_name_of(destination) {
        Some(name) => name,
        None => {
            let nothing: Vec<VolumeCandidate> = Vec::new();
            assert(candidate_views(nothing@) =~= Seq::<FileView>::empty());
            return Ok(nothing);
        },
    };
    let dir: String = archive_directory(destination);
    match listing {
        Ok(files) => Ok(
            discover_tzap_volume_paths_by_base(
                dir.as_str(),
                tzap_multi_volume_base_name(name.as_str()).as_str(),
                files,
            ),
        ),
        Err(failure) => Err(io_failed(dir.as_str(), failure)),
    }
}

/// The volumes found for a set are the files that belong to it, no more and no
/// fewer, in the order of their indices.
pub proof fn law_volumes_come_in_order(files: Seq<FileView>, base: Seq<char>)
    ensures
        forall|f: FileView|
            #[trigger] volumes_among(files, base).contains(f) <==> files.contains(f) && belongs(
                f.name,
                base,
            ),
        forall|i: int, j: int|
            0 <= i < j < volumes_among(files, base).len() ==> index_of(
                #[trigger] volumes_among(files, base)[i].name,
            ) <= index_of(#[trigger] volumes_among(files, base)[j].name),
{
    lemma_volumes_among(files, base);
}

/// An archive path always stands for at least one file, and for itself where it
/// leads to a file that is no volume of a set.
pub proof fn law_input_is_never_empty(path: Seq<char>, exists: bool, files: Seq<FileView>)
    ensures
        input_volumes(path, exists, files).len() > 0,
        exists && set_of_volume(path, files).len() == 0 ==> input_volumes(path, exists, files)
            == seq![FileView { name: path, exists }],
{
}

/// Whether a path stands for the set `base` in the directory `dir`: it names one of the
/// volumes that are listed there, or it is the path that the set was written for, with
/// no file of its own.
pub open spec fn names_set(
    path: Seq<char>,
    exists: bool,
    dir: Seq<char>,
    base: Seq<char>,
    files: Seq<FileView>,
) -> bool {
    &&& directory(path) == dir
    &&& file_name(path) matches Some(name) && match volume_name(name) {
        Some(volume) => volume.base == base && exists|f: FileView| #[trigger]
            files.contains(f) && f.name == name,
        None => !exists && base_name(name) == base && exists|f: FileView| #[trigger]
            files.contains(f) && belongs(f.name, base),
    }
}

/// Every path of a set gives the whole set: each of its volumes, and the path that it
/// was written for.
pub proof fn law_every_path_gives_the_whole_set(
    path: Seq<char>,
    exists: bool,
    dir: Seq<char>,
    base: Seq<char>,
    files: Seq<FileView>,
)
    requires
        names_set(path, exists, dir, base, files),
    ensures
        input_volumes(path, exists, files) == placed(dir, volumes_among(files, base)),
        input_volumes(path, exists, files).len() > 0,
{
    lemma_volumes_among(files, base);
    let name = file_name(path)->0;
    let f = choose|f: FileView| #[trigger] files.contains(f) && belongs(f.name, base);
    if volume_name(name) is Some {
        let own = choose|f: FileView| #[trigger] files.contains(f) && f.name == name;
        assert(belongs(own.name, base));
    }
    assert(files.contains(f) && belongs(f.name, base));
    assert(volumes_among(files, base).contains(f));
}

/// Whether a listing of the directory that a path is in tells whether the path leads to
/// a file.
pub open spec fn listing_tells(path: Seq<char>, exists: bool, files: Seq<FileView>) -> bool {
    exists ==> (file_name(path) matches Some(name) ==> files.contains(
        FileView { name, exists: true },
    ))
}

/// A path that leads to a file has an input volume that is there.
pub proof fn law_existing_paths_have_a_volume(
    path: Seq<char>,
    exists: bool,
    files: Seq<FileView>,
)
    requires
        listing_tells(path, exists, files),
        exists,
    ensures
        any_exists(input_volumes(path, exists, files)),
{
    let found = input_volumes(path, exists, files);
    if set_of_volume(path, files).len() > 0 {
        let name = file_name(path)->0;
        let base = (volume_name(name)->0).base;
        let own = FileView { name, exists: true };
        lemma_volumes_among(files, base);
        assert(volumes_among(files, base).contains(own));
        let k = choose|k: int|
            0 <= k < volumes_among(files, base).len() && volumes_among(files, base)[k] == own;
        assert(found[k].exists);
    } else {
        assert(found[0].exists);
    }
}

/// A path names an archive whatever case its extension is written in.
pub proof fn law_archives_are_told_by_their_extension(stem: Seq<char>, ext: Seq<char>)
    requires
        stem.len() > 0,
        stem.last() != '/',
        ext.len() == 4,
        !ext.contains('.'),
        !ext.contains('/'),
    ensures
        names_archive(stem.push('.') + ext) <==> lower_all(ext) == "tzap"@,
{
    law_extensions_follow_the_last_dot(stem, ext, ext);
    let path = stem.push('.') + ext;
    if lower_all(ext) != "tzap"@ {
        if file_name(path) is Some && volume_name(file_name(path)->0) is Some {
            let name = file_name(path)->0;
            assert(name == last_component(path));
            assert(ext.contains(ext.last()));
            assert(trim_tail(path) == path);
            let at = name_start(path);
            lemma_name_start(path);
            assert(name == path.subrange(at, path.len() as int));
            let tail = name.skip(name.len() - 5);
            assert(lower_all(tail) == lower_all(archive_suffix()));
            assert(name.len() >= 5);
            assert forall|k: int| 0 <= k < 4 implies tail[k + 1] == ext[k] by {
                assert(tail[k + 1] == path[path.len() - 4 + k]);
            }
            reveal_strlit("tzap");
            assert(lower_all(ext) =~= "tzap"@) by {
                assert forall|k: int| 0 <= k < 4 implies lower_all(ext)[k] == "tzap"@[k] by {
                    assert(lower_all(tail)[k + 1] == lower_all(archive_suffix())[k + 1]);
                    assert(lower_all(ext)[k] == lower(ext[k]));
                    assert(lower_all(tail)[k + 1] == lower(tail[k + 1]));
                }
            }
        }
    }
}

/// The volumes that are looked for by one of them lie in its directory and belong to its
/// set, and every file there that belongs to its set is one of them. Whether a volume
/// exists is told as it was found.
pub proof fn law_siblings_lie_in_the_same_directory(
    path: Seq<char>,
    name: Seq<char>,
    set: VolumeNameView,
    files: Seq<FileView>,
    found: FileView,
)
    requires
        file_name(path) == Some(name),
        volume_name(name) == Some(set),
    ensures
        set_of_volume(path, files).contains(found) <==> exists|f: FileView|
            {
                &&& #[trigger] files.contains(f)
                &&& (volume_name(f.name) matches Some(volume) && volume.base == set.base)
                &&& found.name == joined(directory(path), f.name)
                &&& found.exists == f.exists
            },
{
    lemma_volumes_among(files, set.base);
    let among = volumes_among(files, set.base);
    let there = placed(directory(path), among);
    if there.contains(found) {
        let k = choose|k: int| 0 <= k < there.len() && there[k] == found;
        assert(among.contains(among[k]));
        assert(files.contains(among[k]));
    }
    if exists|f: FileView|
        {
            &&& #[trigger] files.contains(f)
            &&& (volume_name(f.name) matches Some(volume) && volume.base == set.base)
            &&& found.name == joined(directory(path), f.name)
            &&& found.exists == f.exists
        } {
        let f = choose|f: FileView|
            {
                &&& #[trigger] files.contains(f)
                &&& (volume_name(f.name) matches Some(volume) && volume.base == set.base)
                &&& found.name == joined(directory(path), f.name)
                &&& found.exists == f.exists
            };
        assert(among.contains(f));
        let k = choose|k: int| 0 <= k < among.len() && among[k] == f;
        assert(there[k] == found);
    }
}

/// The volumes of a set are expected beside the one that was found, one for each number;
/// a set of one is the file that was found.
pub proof fn law_expected_volumes_lie_beside_the_first(
    requested: Seq<char>,
    dir: Seq<char>,
    stem: Seq<char>,
    index: usize,
    count: nat,
    i: int,
)
    requires
        dir.len() > 0,
        dir.last() != '/',
        dir.last() != '.',
        stem.len() > 0,
        !stem.contains('/'),
        0 <= i < count,
    ensures
        ({
            let first = dir.push('/') + volume_file_name(stem, index as nat);
            &&& expected_paths(requested, first, 1) == seq![first]
            &&& expected_paths(requested, first, count).len() == count
            &&& count > 1 ==> expected_paths(requested, first, count)[i] == dir.push('/')
                + volume_file_name(stem, i as nat)
        }),
{
    let destination = dir.push('/') + (stem + ".tzap"@);
    law_destinations_are_found_again(dir, stem, index);
    law_volumes_lie_beside_their_destination(dir, stem, 2);
    if count > 1 {
        law_volumes_lie_beside_their_destination(dir, stem, count);
        assert(output_paths(destination, count)[i] == volume_path(destination, i as nat));
    }
}

} // verus!
