//! Which files are offered, whatever is on the clipboard.

use vstd::prelude::*;
use vstd::utf8::encode_utf8;

use crate::file_selection::{total_size, FileProbe, FileSelection, SelectionView, Verdict};
use crate::paths::{has_plain_separators, name_view, slash_file_name};
use crate::protocol::FileView;

verus! {

/// The size of several files together is that of each, added up.
pub proof fn law_sizes_add_up(files: Seq<FileView>, more: Seq<FileView>)
    ensures
        total_size(files + more) == total_size(files) + total_size(more),
        more.len() == 0 ==> total_size(more) == 0,
        more.len() == 1 ==> total_size(more) == more[0].size,
    decreases more.len(),
{
    reveal_with_fuel(total_size, 2);
    if more.len() == 0 {
        assert(files + more =~= files);
    } else {
        law_sizes_add_up(files, more.drop_last());
        assert((files + more).drop_last() =~= files + more.drop_last());
        assert((files + more).last() == more.last());
        if more.len() == 1 {
            assert(more.drop_last() =~= seq![]);
        }
    }
}

/// A path that is not a regular file, or of which nothing is known, is passed
/// over, whatever its size and name.
pub proof fn law_only_regular_files_are_chosen(
    selection: SelectionView,
    path: Seq<char>,
    probe: Option<FileProbe>,
    name: Option<Seq<char>>,
)
    requires
        probe is None || !probe->0.is_file,
    ensures
        selection.considered(path, probe, name) == (selection, Verdict::Next),
{
}

/// A regular file is chosen if it has at most 10 GiB, all chosen files stay
/// within 20 GiB, and it has a name of at most 255 bytes. It is then listed
/// last, under its path, with its name and size; nothing else changes. The
/// selection stops at the first file that fits by itself but not with the
/// others, and only there.
pub proof fn law_choice_of_a_file(
    selection: SelectionView,
    path: Seq<char>,
    probe: FileProbe,
    name: Option<Seq<char>>,
)
    requires
        probe.is_file,
    ensures
        ({
            let (after, verdict) = selection.considered(path, Some(probe), name);
            let fits_alone = probe.size <= 10_737_418_240;
            let fits_in = total_size(selection.files) + probe.size <= 21_474_836_480;
            let named = name is Some && encode_utf8(name->0).len() <= 255;
            &&& verdict is Stop <==> fits_alone && !fits_in
            &&& !(fits_alone && fits_in && named) ==> after == selection
            &&& fits_alone && fits_in && named ==> {
                &&& after.paths.len() == selection.paths.len() + 1
                &&& after.paths.drop_last() == selection.paths
                &&& after.paths.last() == path
                &&& after.files.len() == selection.files.len() + 1
                &&& after.files.drop_last() == selection.files
                &&& after.files.last().name == name->0
                &&& after.files.last().size == probe.size
            }
        }),
{
    let (after, verdict) = selection.considered(path, Some(probe), name);
    if after != selection {
        assert(after.paths.drop_last() =~= selection.paths);
        assert(after.files.drop_last() =~= selection.files);
    }
}

/// The limits on an offer: 10,000 files, 20 GiB together, 10 GiB each, and
/// names of 255 bytes.
pub proof fn law_limits_of_an_offer(selection: SelectionView)
    ensures
        selection.within_limits() <==> {
            &&& selection.paths.len() == selection.files.len()
            &&& selection.files.len() <= 10_000
            &&& total_size(selection.files) <= 21_474_836_480
            &&& forall|i: int|
                0 <= i < selection.files.len() ==> (#[trigger] selection.files[i]).size
                    <= 10_737_418_240 && encode_utf8(selection.files[i].name).len() <= 255
        },
{
}

/// Whatever is considered, the limits are kept as long as there is room for
/// one more file.
pub proof fn law_choice_keeps_the_limits(
    selection: SelectionView,
    path: Seq<char>,
    probe: Option<FileProbe>,
    name: Option<Seq<char>>,
)
    requires
        selection.within_limits(),
        selection.files.len() < 10_000,
    ensures
        selection.considered(path, probe, name).0.within_limits(),
{
    let after = selection.considered(path, probe, name).0;
    if after != selection {
        assert(after.files.drop_last() =~= selection.files);
    }
}

/// What the selection does with a path: one that the file system does not know
/// for a regular file is passed over; a regular file is chosen if it fits, by
/// itself and with the others, and has a usable name.
pub proof fn law_considered_path(
    selection: &mut FileSelection,
    path: String,
    probe: Option<FileProbe>,
    name: Option<String>,
    verdict: Verdict,
)
    requires
        call_ensures(FileSelection::consider, (selection, path, probe, name), verdict),
    ensures
        ({
            let before = old(selection)@;
            let after = final(selection)@;
            let regular = probe is Some && probe->0.is_file;
            let fits_alone = probe->0.size <= 10_737_418_240;
            let fits_in = total_size(before.files) + probe->0.size <= 21_474_836_480;
            let named = name is Some && encode_utf8(name->0@).len() <= 255;
            let chosen = regular && fits_alone && fits_in && named;
            &&& verdict == Verdict::Stop <==> regular && fits_alone && !fits_in
            &&& !chosen ==> after == before
            &&& chosen ==> {
                &&& after.paths == before.paths.push(path@)
                &&& after.files.len() == before.files.len() + 1
                &&& after.files.drop_last() == before.files
                &&& after.files.last().name == name->0@
                &&& after.files.last().size == probe->0.size
            }
        }),
{
    let before = old(selection)@;
    if probe is Some && probe->0.is_file {
        law_choice_of_a_file(before, path@, probe->0, name_view(name));
        let after = final(selection)@;
        if after != before {
            assert(after.paths =~= before.paths.push(path@));
        }
    } else {
        law_only_regular_files_are_chosen(before, path@, probe, name_view(name));
    }
}

/// The same holds where the name is taken from the path.
pub proof fn law_offered_path(
    selection: &mut FileSelection,
    path: String,
    probe: Option<FileProbe>,
    verdict: Verdict,
)
    requires
        call_ensures(FileSelection::offer, (selection, path, probe), verdict),
    ensures
        probe is None || !probe->0.is_file || probe->0.size > 10_737_418_240 ==> final(selection)@
            == old(selection)@ && verdict == Verdict::Next,
        probe matches Some(p) && p.is_file && p.size <= 10_737_418_240 && total_size(
            old(selection)@.files,
        ) + p.size > 21_474_836_480 ==> final(selection)@ == old(selection)@ && verdict
            == Verdict::Stop,
        final(selection)@ != old(selection)@ ==> verdict == Verdict::Next
            && final(selection)@.paths == old(selection)@.paths.push(path@),
        probe matches Some(p) && p.is_file && p.size <= 10_737_418_240 && total_size(
            old(selection)@.files,
        ) + p.size <= 21_474_836_480 && has_plain_separators(path@) && (slash_file_name(
            path@,
        ) matches Some(n) && encode_utf8(n).len() <= 255) ==> final(selection)@.files
            == old(selection)@.files.push(
            FileView { name: slash_file_name(path@)->0, size: probe->0.size },
        ),
{
}

/// A selection is full at 10,000 files, and empty at the start.
pub proof fn law_full_selection(selection: FileSelection, full: bool, fresh: FileSelection)
    requires
        call_ensures(FileSelection::is_full, (&selection,), full),
        call_ensures(FileSelection::new, (), fresh),
    ensures
        full <==> selection@.files.len() >= 10_000,
        fresh@.files.len() == 0,
        fresh@.paths.len() == 0,
{
}

} // verus!
