//! Names of archive files: `{base}.tzap` for an archive in one file,
//! `{base}.vol{index}.tzap` for the volumes of a set.
use crate::paths::{file_name_of, join, parent_of, replace_extension};
#[allow(unused_imports)]
use crate::paths::{
    file_name, joined, law_joined_names_are_told_apart_again, parent, with_extension,
};
#[allow(unused_imports)]
use crate::text::{
    all_digits, decimal, digits_value, has_suffix, is_digit, lemma_decimal_round_trip, lower_all,
    padded, texts, unsigned_digits, zero_digits,
};
use crate::text::{
    chars_of, concat2, concat4, lower_text, padded_text, parse_unsigned_text, same_text,
    slice_to_chars, text_of,
};
use vstd::prelude::*;

verus! {

/// The extension of an archive file, with its dot.
pub open spec fn archive_suffix() -> Seq<char> {
    seq!['.', 't', 'z', 'a', 'p']
}

/// What stands between the base name and the index of a volume.
pub open spec fn volume_marker() -> Seq<char> {
    seq!['.', 'v', 'o', 'l']
}

/// The two parts of a volume's file name.
pub struct VolumeNameView {
    pub base: Seq<char>,
    pub index: nat,
}

/// `value` without `suffix`, where it ends with that in any ASCII case.
pub open spec fn without_suffix(value: Seq<char>, suffix: Seq<char>) -> Option<Seq<char>> {
    let keep = value.len() - suffix.len();
    if keep >= 0 && lower_all(value.skip(keep)) == lower_all(suffix) {
        Some(value.take(keep))
    } else {
        None
    }
}

/// Where the last volume marker of `stem` starts, or -1.
pub open spec fn last_marker(stem: Seq<char>) -> int
    decreases stem.len(),
{
    if stem.len() < volume_marker().len() {
        -1
    } else if has_suffix(stem, volume_marker()) {
        stem.len() - volume_marker().len()
    } else {
        last_marker(stem.drop_last())
    }
}

/// The volume that a file name stands for: a base name, the marker, a decimal
/// index that fits the machine, and the suffix in any ASCII case.
pub open spec fn volume_name(name: Seq<char>) -> Option<VolumeNameView> {
    match without_suffix(name, archive_suffix()) {
        Some(stem) => {
            let at = last_marker(stem);
            let digits = stem.skip(at + 4);
            if at > 0 && digits.len() > 0 && all_digits(digits) && digits_value(digits)
                <= usize::MAX {
                Some(VolumeNameView { base: stem.take(at), index: digits_value(digits) })
            } else {
                None
            }
        },
        None => None,
    }
}

/// The base name of the volume set that a file name stands for: the name
/// without the archive suffix.
pub open spec fn base_name(name: Seq<char>) -> Seq<char> {
    match without_suffix(name, archive_suffix()) {
        Some(stem) => stem,
        None => name,
    }
}

/// The file name of volume `index` of the set `base`, with at least three
/// digits for the index.
pub open spec fn volume_file_name(base: Seq<char>, index: nat) -> Seq<char> {
    base + volume_marker() + padded(index, 3) + archive_suffix()
}

/// Where volume `index` of the archive at `destination` is written.
pub open spec fn volume_path(destination: Seq<char>, index: nat) -> Seq<char> {
    match file_name(destination) {
        Some(name) => joined(parent(destination), volume_file_name(base_name(name), index)),
        None => destination + volume_file_name(Seq::empty(), index),
    }
}

/// Where the volumes of the archive at `destination` are written: the
/// destination itself where there is one volume.
pub open spec fn output_paths(destination: Seq<char>, count: nat) -> Seq<Seq<char>> {
    if count == 1 {
        seq![destination]
    } else {
        Seq::new(count, |i: int| volume_path(destination, i as nat))
    }
}

/// Where the bootstrap sidecar of the archive at `destination` is written.
pub open spec fn sidecar_path(destination: Seq<char>) -> Seq<char> {
    match file_name(destination) {
        Some(name) => joined(parent(destination), base_name(name) + ".sidecar"@),
        None => with_extension(destination, "sidecar"@),
    }
}

/// The destination of the volume set that the volume at `path` belongs to.
pub open spec fn set_destination(path: Seq<char>) -> Option<Seq<char>> {
    match file_name(path) {
        Some(name) => match volume_name(name) {
            Some(volume) => Some(joined(parent(path), volume.base + archive_suffix())),
            None => None,
        },
        None => None,
    }
}

fn suffix_text() -> (text: &'static str)
    ensures
        text@ == archive_suffix(),
{
    proof {
        reveal_strlit(".tzap");
        assert(".tzap"@ =~= archive_suffix());
    }
    ".tzap"
}

fn marker_text() -> (text: &'static str)
    ensures
        text@ == volume_marker(),
{
    proof {
        reveal_strlit(".vol");
        assert(".vol"@ =~= volume_marker());
    }
    ".vol"
}

/// `value` without `suffix`, where it ends with that in any ASCII case.
pub fn strip_ascii_case_insensitive_suffix(value: &str, suffix: &str) -> (stem: Option<String>)
    ensures
        match stem {
            Some(stem) => without_suffix(value@, suffix@) == Some(stem@),
            None => without_suffix(value@, suffix@) is None,
        },
{
    let chars: Vec<char> = chars_of(value);
    let wanted: usize = suffix.unicode_len();
    if chars.len() < wanted {
        return None;
    }
    let keep: usize = chars.len() - wanted;
    let tail: String = text_of(slice_to_chars(chars.as_slice(), keep, chars.len()).as_slice());
    assert(tail@ =~= value@.skip(keep as int));
    if same_text(lower_text(tail.as_str()).as_str(), lower_text(suffix).as_str()) {
        let stem: Vec<char> = slice_to_chars(chars.as_slice(), 0, keep);
        assert(stem@ =~= value@.take(keep as int));
        Some(text_of(stem.as_slice()))
    } else {
        None
    }
}

/// A volume's file name, taken apart.
pub struct TzapVolumeFileName {
    /// The base name of the set.
    pub base: String,
    /// The index of the volume, counted from zero.
    pub volume_index: usize,
}

impl View for TzapVolumeFileName {
    type V = VolumeNameView;

    open spec fn view(&self) -> VolumeNameView {
        VolumeNameView { base: self.base@, index: self.volume_index as nat }
    }
}

/// Where the last volume marker of `stem` starts.
fn find_last_marker(stem: &[char]) -> (at: Option<usize>)
    ensures
        match at {
            Some(at) => at as int == last_marker(stem@) && at + 4 <= stem@.len(),
            None => last_marker(stem@) == -1,
        },
{
    let mut end: usize = stem.len();
    assert(stem@.take(end as int) =~= stem@);
    while end >= 4
        invariant
            end <= stem@.len(),
            last_marker(stem@.take(end as int)) == last_marker(stem@),
        decreases end,
    {
        let ghost head = stem@.take(end as int);
        if stem[end - 4] == '.' && stem[end - 3] == 'v' && stem[end - 2] == 'o' && stem[end - 1]
            == 'l' {
            assert(head.skip(end - 4) =~= volume_marker());
            return Some(end - 4);
        }
        assert(!has_suffix(head, volume_marker())) by {
            if has_suffix(head, volume_marker()) {
                let tail = head.skip(end - 4);
                assert(tail[0] == stem@[end - 4] && tail[1] == stem@[end - 3] && tail[2]
                    == stem@[end - 2] && tail[3] == stem@[end - 1]);
            }
        }
        assert(head.drop_last() =~= stem@.take(end - 1));
        end = end - 1;
    }
    None
}

/// Takes a volume's file name apart.
pub fn parse_tzap_volume_file_name(name: &str) -> (volume: Option<TzapVolumeFileName>)
    ensures
        match volume {
            Some(volume) => volume_name(name@) == Some(volume@),
            None => volume_name(name@) is None,
        },
{
    let stem: String = match strip_ascii_case_insensitive_suffix(name, suffix_text()) {
        Some(stem) => stem,
        None => {
            return None;
        },
    };
    let chars: Vec<char> = chars_of(stem.as_str());
    let at: usize = match find_last_marker(chars.as_slice()) {
        Some(at) => at,
        None => {
            return None;
        },
    };
    let length: usize = chars.len();
    let digits: Vec<char> = slice_to_chars(chars.as_slice(), at + 4, length);
    assert(digits@ =~= stem@.skip(at + 4));
    if at == 0 || digits.len() == 0 || digits[0] == '+' {
        assert(digits@.len() > 0 && digits@[0] == '+' ==> !is_digit(digits@[0]));
        return None;
    }
    assert(unsigned_digits(digits@) == digits@);
    match parse_unsigned_text(digits.as_slice(), usize::MAX as u64) {
        Some(index) => {
            let base: Vec<char> = slice_to_chars(chars.as_slice(), 0, at);
            assert(base@ =~= stem@.take(at as int));
            Some(
                TzapVolumeFileName {
                    base: text_of(base.as_slice()),
                    volume_index: index as usize,
                },
            )
        },
        None => None,
    }
}

/// The base name of the volume set that a file name stands for.
pub fn tzap_multi_volume_base_name(name: &str) -> (base: String)
    ensures
        base@ == base_name(name@),
{
    match strip_ascii_case_insensitive_suffix(name, suffix_text()) {
        Some(stem) => stem,
        None => name.to_owned(),
    }
}

fn volume_file_name_text(base: &str, index: usize) -> (name: String)
    ensures
        name@ == volume_file_name(base@, index as nat),
{
    concat4(base, marker_text(), padded_text(index as u64, 3).as_str(), suffix_text())
}

/// Where volume `index` of the archive at `destination` is written.
pub fn tzap_output_volume_path(destination: &str, index: usize) -> (path: String)
    ensures
        path@ == volume_path(destination@, index as nat),
{
    match file_name_of(destination) {
        Some(name) => {
            let base: String = tzap_multi_volume_base_name(name.as_str());
            join(
                parent_of(destination).as_str(),
                volume_file_name_text(base.as_str(), index).as_str(),
            )
        },
        None => {
            let empty: String = String::new();
            concat2(destination, volume_file_name_text(empty.as_str(), index).as_str())
        },
    }
}

/// Where the volumes of the archive at `destination` are written.
pub fn tzap_output_volume_paths(destination: &str, count: usize) -> (paths: Vec<String>)
    ensures
        texts(paths@) == output_paths(destination@, count as nat),
{
    let mut paths: Vec<String> = Vec::new();
    if count == 1 {
        paths.push(destination.to_owned());
        assert(texts(paths@) =~= seq![destination@]);
        return paths;
    }
    let ghost wanted = output_paths(destination@, count as nat);
    let mut i: usize = 0;
    while i < count
        invariant
            i <= count,
            count != 1,
            wanted == output_paths(destination@, count as nat),
            texts(paths@) == wanted.take(i as int),
        decreases count - i,
    {
        let path: String = tzap_output_volume_path(destination, i);
        let ghost before = paths@;
        paths.push(path);
        assert(texts(paths@) =~= texts(before).push(path@));
        assert(wanted.take(i + 1) =~= wanted.take(i as int).push(wanted[i as int]));
        i = i + 1;
    }
    assert(wanted.take(count as int) =~= wanted);
    paths
}

/// Where the bootstrap sidecar of the archive at `destination` is written:
/// beside it, named after its base name.
pub fn tzap_bootstrap_sidecar_path(destination: &str) -> (path: String)
    ensures
        path@ == sidecar_path(destination@),
{
    match file_name_of(destination) {
        Some(name) => {
            let base: String = tzap_multi_volume_base_name(name.as_str());
            join(parent_of(destination).as_str(), concat2(base.as_str(), ".sidecar").as_str())
        },
        None => replace_extension(destination, "sidecar"),
    }
}

/// The destination of the volume set that the volume at `path` belongs to.
pub fn tzap_destination_path_from_volume_path(path: &str) -> (destination: Option<String>)
    ensures
        match destination {
            Some(destination) => set_destination(path@) == Some(destination@),
            None => set_destination(path@) is None,
        },
{
    match file_name_of(path) {
        Some(name) => match parse_tzap_volume_file_name(name.as_str()) {
            Some(volume) => Some(
                join(
                    parent_of(path).as_str(),
                    concat2(volume.base.as_str(), suffix_text()).as_str(),
                ),
            ),
            None => None,
        },
        None => None,
    }
}

proof fn lemma_zeros_in_front(count: nat, digits: Seq<char>)
    requires
        all_digits(digits),
    ensures
        all_digits(zero_digits(count) + digits),
        digits_value(zero_digits(count) + digits) == digits_value(digits),
    decreases count + digits.len(),
{
    let whole = zero_digits(count) + digits;
    assert forall|k: int| 0 <= k < whole.len() implies is_digit(#[trigger] whole[k]) by {
        if k >= count {
            assert(whole[k] == digits[k - count]);
        }
    }
    if digits.len() > 0 {
        assert(whole.drop_last() =~= zero_digits(count) + digits.drop_last());
        lemma_zeros_in_front(count, digits.drop_last());
    } else if count > 0 {
        assert(whole.drop_last() =~= zero_digits((count - 1) as nat) + digits);
        lemma_zeros_in_front((count - 1) as nat, digits);
    } else {
        assert(whole =~= digits);
    }
}

proof fn lemma_padded_round_trip(n: nat, width: nat)
    ensures
        all_digits(padded(n, width)),
        digits_value(padded(n, width)) == n,
        padded(n, width).len() > 0,
{
    lemma_decimal_round_trip(n);
    if decimal(n).len() < width {
        lemma_zeros_in_front((width - decimal(n).len()) as nat, decimal(n));
    }
}

proof fn lemma_marker_before_digits(base: Seq<char>, digits: Seq<char>)
    requires
        all_digits(digits),
    ensures
        last_marker(base + volume_marker() + digits) == base.len(),
    decreases digits.len(),
{
    let stem = base + volume_marker() + digits;
    if digits.len() == 0 {
        assert(stem.skip(base.len() as int) =~= volume_marker());
    } else {
        assert(is_digit(digits[digits.len() - 1]));
        assert(!has_suffix(stem, volume_marker())) by {
            if has_suffix(stem, volume_marker()) {
                assert(stem.skip(stem.len() - 4)[3] == stem.last());
            }
        }
        assert(all_digits(digits.drop_last())) by {
            assert forall|k: int| 0 <= k < digits.len() - 1 implies is_digit(
                #[trigger] digits.drop_last()[k],
            ) by {
                assert(digits.drop_last()[k] == digits[k]);
            }
        }
        assert(stem.drop_last() =~= base + volume_marker() + digits.drop_last());
        lemma_marker_before_digits(base, digits.drop_last());
    }
}

/// A volume's file name says which volume it is: taking it apart gives back the
/// base name and the index that it was made from.
pub proof fn law_volume_names_round_trip(base: Seq<char>, index: usize)
    requires
        base.len() > 0,
    ensures
        volume_name(volume_file_name(base, index as nat)) == Some(
            VolumeNameView { base, index: index as nat },
        ),
{
    let digits = padded(index as nat, 3);
    let stem = base + volume_marker() + digits;
    let name = volume_file_name(base, index as nat);
    lemma_padded_round_trip(index as nat, 3);
    lemma_marker_before_digits(base, digits);
    assert(name.skip(name.len() - 5) =~= archive_suffix());
    assert(name.take(name.len() - 5) =~= stem);
    assert(stem.skip(base.len() as int + 4) =~= digits);
    assert(stem.take(base.len() as int) =~= base);
}

/// Different volumes of a set have different file names.
pub proof fn law_volume_names_are_distinct(base: Seq<char>, i: usize, j: usize)
    requires
        base.len() > 0,
        i != j,
    ensures
        volume_file_name(base, i as nat) != volume_file_name(base, j as nat),
{
    law_volume_names_round_trip(base, i);
    law_volume_names_round_trip(base, j);
}

proof fn lemma_literals()
    ensures
        ".tzap"@ == archive_suffix(),
        ".vol"@ == volume_marker(),
{
    reveal_strlit(".tzap");
    reveal_strlit(".vol");
    assert(".tzap"@ =~= archive_suffix());
    assert(".vol"@ =~= volume_marker());
}

/// The name of a volume is that of the set, `.vol`, the number of the volume in at least
/// three digits, and `.tzap`.
pub proof fn law_volume_names_hold_the_number_of_the_volume(base: Seq<char>, index: nat)
    ensures
        exists|number: Seq<char>|
            {
                &&& #[trigger] digits_value(number) == index
                &&& all_digits(number)
                &&& number.len() >= 3
                &&& index < 1000 ==> number.len() == 3
                &&& volume_file_name(base, index) == base + ".vol"@ + number + ".tzap"@
            },
{
    lemma_literals();
    lemma_padded_round_trip(index, 3);
    reveal_with_fuel(crate::text::decimal, 4);
    assert(digits_value(padded(index, 3)) == index);
}

/// A suffix is taken off whatever case it is written in, and only where it is there.
pub proof fn law_suffixes_are_taken_off_in_any_case(
    stem: Seq<char>,
    written: Seq<char>,
    suffix: Seq<char>,
)
    requires
        written.len() == suffix.len(),
    ensures
        without_suffix(stem + written, suffix) == (if lower_all(written) == lower_all(suffix) {
            Some(stem)
        } else {
            None
        }),
{
    let value = stem + written;
    assert(value.skip(stem.len() as int) =~= written);
    assert(value.take(stem.len() as int) =~= stem);
}

proof fn lemma_destination(dir: Seq<char>, stem: Seq<char>)
    requires
        dir.len() > 0,
        dir.last() != '/',
        dir.last() != '.',
        stem.len() > 0,
        !stem.contains('/'),
    ensures
        ({
            let name = stem + ".tzap"@;
            let path = dir.push('/') + name;
            &&& file_name(path) == Some(name)
            &&& parent(path) == dir
            &&& base_name(name) == stem
            &&& joined(dir, name) == path
        }),
{
    lemma_literals();
    let name = stem + ".tzap"@;
    assert forall|k: int| 0 <= k < name.len() implies name[k] != '/' by {
        if k < stem.len() {
            assert(stem.contains(stem[k]));
            assert(name[k] == stem[k]);
        }
    }
    law_joined_names_are_told_apart_again(dir, name);
    law_suffixes_are_taken_off_in_any_case(stem, ".tzap"@, archive_suffix());
}

/// The volumes of a set lie beside its destination: a set of one is the destination
/// itself, and the others have the name of the destination with the number of the volume
/// before its extension.
pub proof fn law_volumes_lie_beside_their_destination(
    dir: Seq<char>,
    stem: Seq<char>,
    count: nat,
)
    requires
        dir.len() > 0,
        dir.last() != '/',
        dir.last() != '.',
        stem.len() > 0,
        !stem.contains('/'),
    ensures
        ({
            let destination = dir.push('/') + (stem + ".tzap"@);
            &&& output_paths(destination, 1) == seq![destination]
            &&& output_paths(destination, count).len() == count
            &&& count != 1 ==> forall|i: int|
                0 <= i < count ==> #[trigger] output_paths(destination, count)[i] == dir.push('/')
                    + volume_file_name(stem, i as nat)
            &&& sidecar_path(destination) == dir.push('/') + (stem + ".sidecar"@)
        }),
{
    lemma_destination(dir, stem);
}

/// The destination of a set is found again from the path of each of its volumes.
pub proof fn law_destinations_are_found_again(dir: Seq<char>, stem: Seq<char>, index: usize)
    requires
        dir.len() > 0,
        dir.last() != '/',
        dir.last() != '.',
        stem.len() > 0,
        !stem.contains('/'),
    ensures
        ({
            let destination = dir.push('/') + (stem + ".tzap"@);
            &&& volume_path(destination, index as nat) == dir.push('/') + volume_file_name(
                stem,
                index as nat,
            )
            &&& set_destination(volume_path(destination, index as nat)) == Some(destination)
        }),
{
    lemma_destination(dir, stem);
    lemma_literals();
    let name = volume_file_name(stem, index as nat);
    law_volume_names_round_trip(stem, index);
    lemma_padded_round_trip(index as nat, 3);
    let digits = padded(index as nat, 3);
    assert forall|k: int| 0 <= k < name.len() implies name[k] != '/' by {
        if k < stem.len() {
            assert(name[k] == stem[k]);
            assert(stem.contains(stem[k]));
        } else if k < stem.len() + 4 {
            assert(name[k] == volume_marker()[k - stem.len()]);
        } else if k < stem.len() + 4 + digits.len() {
            assert(name[k] == digits[k - stem.len() - 4]);
            assert(is_digit(digits[k - stem.len() - 4]));
        } else {
            assert(name[k] == archive_suffix()[k - stem.len() - 4 - digits.len()]);
        }
    }
    law_joined_names_are_told_apart_again(dir, name);
}

/// The name of a volume needs a name for the set and a number that can be counted to, in
/// as many digits as it may have.
pub proof fn law_volume_names_need_a_base_and_a_number(base: Seq<char>, digits: Seq<char>)
    requires
        all_digits(digits),
    ensures
        volume_name(base + ".vol"@ + digits + ".tzap"@) == if base.len() > 0 && digits.len() > 0
            && digits_value(digits) <= usize::MAX {
            Some(VolumeNameView { base, index: digits_value(digits) })
        } else {
            None
        },
{
    lemma_literals();
    let stem = base + volume_marker() + digits;
    let name = stem + archive_suffix();
    lemma_marker_before_digits(base, digits);
    assert(name.skip(name.len() - 5) =~= archive_suffix());
    assert(name.take(name.len() - 5) =~= stem);
    assert(stem.skip(base.len() as int + 4) =~= digits);
    assert(stem.take(base.len() as int) =~= base);
}

/// A name that does not end in `.tzap`, or whose number holds anything but digits, is not
/// that of a volume.
pub proof fn law_other_names_are_no_volumes(base: Seq<char>, number: Seq<char>, k: int)
    requires
        0 <= k < number.len(),
        !is_digit(number[k]),
        !number.contains('.'),
    ensures
        volume_name(base + ".vol"@ + number + ".tzap"@) is None,
{
    lemma_literals();
    let stem = base + volume_marker() + number;
    let name = stem + archive_suffix();
    lemma_marker_before_plain(base, number);
    assert(name.skip(name.len() - 5) =~= archive_suffix());
    assert(name.take(name.len() - 5) =~= stem);
    assert(stem.skip(base.len() as int + 4) =~= number);
}

proof fn lemma_marker_before_plain(base: Seq<char>, number: Seq<char>)
    requires
        !number.contains('.'),
    ensures
        last_marker(base + volume_marker() + number) == base.len(),
    decreases number.len(),
{
    let stem = base + volume_marker() + number;
    if number.len() == 0 {
        assert(stem.skip(base.len() as int) =~= volume_marker());
    } else {
        assert forall|c: int| 0 <= c < number.len() implies number[c] != '.' by {
            if number[c] == '.' {
                assert(number.contains('.'));
            }
        }
        assert(!has_suffix(stem, volume_marker())) by {
            if has_suffix(stem, volume_marker()) {
                let tail = stem.skip(stem.len() - 4);
                assert(tail[0] == '.' && tail[1] == 'v' && tail[2] == 'o' && tail[3] == 'l');
                let at = stem.len() - 4;
                assert(stem[at] == '.');
                assert(stem[at + 1] == 'v');
                if at >= base.len() + 4 {
                    assert(stem[at] == number[at - base.len() - 4]);
                } else {
                    assert(at > base.len());
                    assert(stem[at] == volume_marker()[at - base.len()]);
                }
            }
        }
        assert(stem.drop_last() =~= base + volume_marker() + number.drop_last());
        assert(!number.drop_last().contains('.')) by {
            if number.drop_last().contains('.') {
                let c = choose|c: int|
                    0 <= c < number.drop_last().len() && number.drop_last()[c] == '.';
                assert(number[c] == '.');
            }
        }
        lemma_marker_before_plain(base, number.drop_last());
    }
}

} // verus!
