use vstd::prelude::*;

use snowid::SnowID;

use super::get_all_installed_subtitles::{row_entry, SubtitleRow};
use super::{stored_form, stored_id};
use crate::global_types::{lemma_source_name_roundtrip, source_name, source_named, Source};
use crate::text::{
    all_ascii, ascii_lower, concat, decimal, lemma_decimal_digits, lemma_decimal_injective, lowercased, to_lowercase,
    u64_to_decimal,
};

verus! {

#[verifier::external_type_specification]
#[verifier::external_body]
pub struct ExSnowID(SnowID);

/// What to install: a subtitle archive for a media, in a language.
#[derive(Debug, Clone, PartialEq, Eq)]
pub struct InstallSubtitleParams {
    pub source: Source,
    pub id: String,
    pub language: String,
    pub link: String,
}

/// The file extensions of subtitle files, in lower case.
pub open spec fn subtitle_extension(extension: Seq<char>) -> bool {
    ||| extension == "srt"@
    ||| extension == "vtt"@
    ||| extension == "ass"@
    ||| extension == "ssa"@
}

/// A file is a subtitle when its extension, lowercased, is one of the
/// subtitle extensions.
pub open spec fn is_subtitle(extension: Seq<char>) -> bool {
    subtitle_extension(lowercased(extension))
}

/// Whether a file with this extension is a subtitle file.
pub fn is_subtitle_file(extension: &str) -> (res: bool)
    ensures
        res == is_subtitle(extension@),
        all_ascii(extension@) ==> res == subtitle_extension(
            extension@.map_values(|c: char| ascii_lower(c)),
        ),
{
    let lower = to_lowercase(extension);
    lower == "srt".to_string() || lower == "vtt".to_string() || lower == "ass".to_string()
        || lower == "ssa".to_string()
}

/// The positions, in order, of the subtitle files among the first `n`
/// extensions.
pub open spec fn subtitle_positions(extensions: Seq<Seq<char>>, n: nat) -> Seq<usize>
    decreases n,
{
    if n == 0 {
        Seq::empty()
    } else {
        let before = subtitle_positions(extensions, (n - 1) as nat);
        if is_subtitle(extensions[n - 1]) {
            before.push((n - 1) as usize)
        } else {
            before
        }
    }
}

/// The positions listed for the first `n` files: each below `n`, in
/// increasing order, and a position is listed exactly when that file's own
/// extension, lowercased, is `srt`, `vtt`, `ass` or `ssa`.
proof fn lemma_subtitle_positions_upto(extensions: Seq<Seq<char>>, n: nat)
    requires
        n <= extensions.len(),
        extensions.len() <= usize::MAX,
    ensures
        ({
            let positions = subtitle_positions(extensions, n);
            &&& forall|k: int| 0 <= k < positions.len() ==> (#[trigger] positions[k] as int) < n
            &&& forall|a: int, b: int| 0 <= a < b < positions.len() ==> positions[a] < positions[b]
            &&& forall|i: int|
                0 <= i < n ==> (positions.contains(i as usize) <==> {
                    let e = lowercased(#[trigger] extensions[i]);
                    e == "srt"@ || e == "vtt"@ || e == "ass"@ || e == "ssa"@
                })
        }),
    decreases n,
{
    if n > 0 {
        let last = (n - 1) as nat;
        lemma_subtitle_positions_upto(extensions, last);
        let before = subtitle_positions(extensions, last);
        let positions = subtitle_positions(extensions, n);
        assert forall|i: int| 0 <= i < n implies (positions.contains(i as usize) <==> {
            let e = lowercased(#[trigger] extensions[i]);
            e == "srt"@ || e == "vtt"@ || e == "ass"@ || e == "ssa"@
        }) by {
            if positions.contains(i as usize) {
                let k = choose|k: int| 0 <= k < positions.len() && positions[k] == i as usize;
                if k < before.len() {
                    assert(before[k] == positions[k]);
                    assert(before.contains(i as usize));
                }
            }
            if i < last && before.contains(i as usize) {
                let k = choose|k: int| 0 <= k < before.len() && before[k] == i as usize;
                assert(positions[k] == before[k]);
            }
            if i == last {
                if before.contains(i as usize) {
                    let k = choose|k: int| 0 <= k < before.len() && before[k] == i as usize;
                    assert((before[k] as int) < last);
                }
                if is_subtitle(extensions[i]) {
                    assert(positions[positions.len() - 1] == i as usize);
                }
            }
        }
    }
}

/// The subtitle files of an archive are exactly the files whose own
/// extension, lowercased, is `srt`, `vtt`, `ass` or `ssa`, each listed once,
/// in archive order.
pub proof fn lemma_subtitle_files_are_the_subtitles(extensions: Seq<Seq<char>>)
    requires
        extensions.len() <= usize::MAX,
    ensures
        ({
            let positions = subtitle_positions(extensions, extensions.len());
            &&& forall|k: int| 0 <= k < positions.len() ==> (#[trigger] positions[k] as int) < extensions.len()
            &&& forall|a: int, b: int| 0 <= a < b < positions.len() ==> positions[a] < positions[b]
            &&& forall|i: int|
                0 <= i < extensions.len() ==> (positions.contains(i as usize) <==> {
                    let e = lowercased(#[trigger] extensions[i]);
                    e == "srt"@ || e == "vtt"@ || e == "ass"@ || e == "ssa"@
                })
        }),
{
    lemma_subtitle_positions_upto(extensions, extensions.len());
}

/// The positions of the subtitle files among files with these extensions, in
/// order.
pub fn subtitle_files(extensions: &Vec<String>) -> (res: Vec<usize>)
    ensures
        res@ == subtitle_positions(extensions@.map_values(|e: String| e@), extensions@.len()),
{
    let ghost exts = extensions@.map_values(|e: String| e@);
    let mut res: Vec<usize> = Vec::new();
    for i in 0..extensions.len()
        invariant
            exts == extensions@.map_values(|e: String| e@),
            res@ == subtitle_positions(exts, i as nat),
    {
        assert(exts[i as int] == extensions@[i as int]@);
        if is_subtitle_file(extensions[i].as_str()) {
            res.push(i);
        }
    }
    res
}

/// The title a subtitle is listed under: its file stem, ` | `, the language.
pub open spec fn installed_title(stem: Seq<char>, language: Seq<char>) -> Seq<char> {
    stem + " | "@ + language
}

/// The title a subtitle is listed under.
pub fn subtitle_title(stem: &str, language: &str) -> (res: String)
    ensures
        res@ == installed_title(stem@, language@),
{
    let mut title = concat(stem, " | ");
    title.append(language);
    title
}

/// The name an installed subtitle file is stored under: its id and its
/// extension.
pub open spec fn stored_name(id: u64, extension: Seq<char>) -> Seq<char> {
    decimal(id as nat) + "."@ + extension
}

/// The name an installed subtitle file is stored under.
pub fn stored_file_name(id: u64, extension: &str) -> (res: String)
    ensures
        res@ == stored_name(id, extension@),
{
    let mut name = u64_to_decimal(id);
    name.append(".");
    name.append(extension);
    name
}

/// An installed subtitle is listed as its file stem, ` | ` and the
/// language, and stored as its id in decimal, `.` and its extension as
/// written in the archive (not lowercased).
pub proof fn lemma_installed_names(stem: Seq<char>, language: Seq<char>, id: u64, extension: Seq<char>)
    ensures
        installed_title(stem, language) == stem + " | "@ + language,
        stored_name(id, extension) == decimal(id as nat) + "."@ + extension,
        stored_name(id, extension).subrange(
            stored_name(id, extension).len() - extension.len(),
            stored_name(id, extension).len() as int,
        ) == extension,
{
    let name = stored_name(id, extension);
    assert(name.subrange(name.len() - extension.len(), name.len() as int) =~= extension);
}

/// Files stored under distinct ids have distinct names, whatever their
/// extensions: the id's digits run up to the first `.`.
pub proof fn lemma_stored_names_differ(a: u64, b: u64, extension_a: Seq<char>, extension_b: Seq<char>)
    requires
        a != b,
    ensures
        stored_name(a, extension_a) != stored_name(b, extension_b),
{
    let da = decimal(a as nat);
    let db = decimal(b as nat);
    let na = stored_name(a, extension_a);
    let nb = stored_name(b, extension_b);
    lemma_decimal_digits(a as nat);
    lemma_decimal_digits(b as nat);
    reveal_strlit(".");
    assert(("."@)[0] == '.');
    assert(na[da.len() as int] == '.');
    assert(nb[db.len() as int] == '.');
    if na == nb {
        if da.len() == db.len() {
            assert(da =~= na.subrange(0, da.len() as int));
            assert(db =~= nb.subrange(0, db.len() as int));
            lemma_decimal_injective(a as nat, b as nat);
        } else if da.len() < db.len() {
            assert(nb[da.len() as int] == db[da.len() as int]);
        } else {
            assert(na[db.len() as int] == da[db.len() as int]);
        }
    }
}

/// The name a downloaded archive is saved under.
pub fn archive_file_name(id: u64) -> (res: String)
    ensures
        res@ == decimal(id as nat) + ".zip"@,
{
    let mut name = u64_to_decimal(id);
    name.append(".zip");
    name
}

/// The name of the directory an archive is extracted into: its id.
pub fn extraction_dir_name(id: u64) -> (res: String)
    ensures
        res@ == decimal(id as nat),
{
    u64_to_decimal(id)
}

/// The source of ids for archives and installed subtitles: a snowid
/// generator, the node it was created for and the last id it issued.
pub struct SubtitleIds {
    generator: SnowID,
    node: Ghost<u16>,
    last: Ghost<Option<u64>>,
}

impl SubtitleIds {
    /// The node id the generator was created for.
    pub closed spec fn node(&self) -> u16 {
        self.node@
    }

    /// The last id issued, if any.
    pub closed spec fn last_issued(&self) -> Option<u64> {
        self.last@
    }
}

/// Creates an id generator with `SnowID::new(node_id)`.
///
/// Trusted for: a generator that is created belongs to `node_id` and has
/// issued nothing yet. Whether it succeeds depends on the node id and on the
/// clock, and is not stated; the error is kept as its message. A clock
/// that reads before 1970 makes it panic.
#[verifier::external_body]
fn create_id_generator(node_id: u16) -> (res: Result<SubtitleIds, String>)
    ensures
        res matches Ok(ids) ==> ids.node() == node_id && ids.last_issued() is None,
{
    match SnowID::new(node_id) {
        Ok(generator) => Ok(SubtitleIds { generator, node: Ghost(node_id), last: Ghost(None) }),
        Err(e) => Err(e.to_string()),
    }
}

/// Draws an id with `SnowID::generate`.
///
/// Trusted for: the ids one generator issues are monotonic (snowid documents
/// them as unique and monotonic, and `generate` moves the generator's
/// timestamp and sequence strictly forward by compare-and-swap), so the id
/// is greater than the last one issued, and becomes the last one. Its value
/// otherwise rests on the clock and is not stated.
///
/// Left unsaid: the order rests on the system clock reading after snowid's
/// epoch (2024-01-01). Should the clock be set back before it once the
/// generator exists, the subtraction from the epoch underflows, which panics
/// in a debug build and can break the order in a release build; a clock
/// before 1970 panics in both.
#[verifier::external_body]
fn generate_id(ids: &mut SubtitleIds) -> (res: u64)
    ensures
        final(ids).node() == old(ids).node(),
        final(ids).last_issued() == Some(res),
        old(ids).last_issued() matches Some(previous) ==> previous < res,
{
    let id = ids.generator.generate();
    ids.last = Ghost(Some(id));
    id
}

/// The id generator could not be created; its message.
#[derive(Debug)]
pub struct IdGeneratorError {
    pub message: String,
}

impl SubtitleIds {
    /// An id source for this installation: a generator for node 1.
    pub fn new() -> (res: Result<SubtitleIds, IdGeneratorError>)
        ensures
            res matches Ok(ids) ==> ids.node() == 1 && ids.last_issued() is None,
    {
        match create_id_generator(1) {
            Ok(ids) => Ok(ids),
            Err(message) => Err(IdGeneratorError { message }),
        }
    }

    /// A fresh id: greater than every id this source issued before.
    pub fn next_id(&mut self) -> (res: u64)
        ensures
            final(self).node() == old(self).node(),
            final(self).last_issued() == Some(res),
            old(self).last_issued() matches Some(previous) ==> previous < res,
    {
        generate_id(self)
    }
}

/// A subtitle file found in an archive: its file stem and extension.
#[derive(Debug, Clone, PartialEq, Eq)]
pub struct SubtitleFile {
    pub stem: String,
    pub extension: String,
}

/// Where and under what title a subtitle file is installed.
#[derive(Debug, Clone, PartialEq, Eq)]
pub struct PlannedSubtitle {
    pub id: u64,
    pub title: String,
    pub file_name: String,
}

/// Gives each subtitle file a fresh id, its title and its stored file name,
/// in order. The ids rise strictly, so no two files share one, and all are
/// above the ids the source issued before.
pub fn plan_subtitles(ids: &mut SubtitleIds, files: &Vec<SubtitleFile>, language: &str) -> (res: Vec<PlannedSubtitle>)
    ensures
        res@.len() == files@.len(),
        forall|i: int|
            0 <= i < files@.len() ==> {
                &&& (#[trigger] res@[i]).title@ == installed_title(files@[i].stem@, language@)
                &&& res@[i].file_name@ == stored_name(res@[i].id, files@[i].extension@)
            },
        forall|i: int, j: int| 0 <= i < j < res@.len() ==> res@[i].id < res@[j].id,
        forall|i: int, j: int|
            0 <= i < res@.len() && 0 <= j < res@.len() && i != j ==> res@[i].id != res@[j].id,
        forall|i: int, j: int|
            0 <= i < res@.len() && 0 <= j < res@.len() && i != j ==> res@[i].file_name@
                != res@[j].file_name@,
        forall|i: int|
            0 <= i < res@.len() ==> (old(ids).last_issued() matches Some(previous) ==> previous
                < #[trigger] res@[i].id),
        final(ids).node() == old(ids).node(),
        final(ids).last_issued() == if res@.len() == 0 {
            old(ids).last_issued()
        } else {
            Some(res@.last().id)
        },
{
    let mut res: Vec<PlannedSubtitle> = Vec::new();
    for i in 0..files.len()
        invariant
            res@.len() == i,
            forall|j: int|
                0 <= j < i ==> {
                    &&& (#[trigger] res@[j]).title@ == installed_title(files@[j].stem@, language@)
                    &&& res@[j].file_name@ == stored_name(res@[j].id, files@[j].extension@)
                },
            forall|a: int, b: int| 0 <= a < b < res@.len() ==> res@[a].id < res@[b].id,
            forall|a: int|
                0 <= a < res@.len() ==> (old(ids).last_issued() matches Some(previous)
                    ==> previous < #[trigger] res@[a].id),
            ids.node() == old(ids).node(),
            ids.last_issued() == if res@.len() == 0 {
                old(ids).last_issued()
            } else {
                Some(res@.last().id)
            },
    {
        let id = ids.next_id();
        let file = &files[i];
        let title = subtitle_title(file.stem.as_str(), language);
        let file_name = stored_file_name(id, file.extension.as_str());
        res.push(PlannedSubtitle { id, title, file_name });
    }
    assert forall|i: int, j: int|
        0 <= i < res@.len() && 0 <= j < res@.len() && i != j implies res@[i].file_name@
            != res@[j].file_name@ by {
        lemma_stored_names_differ(res@[i].id, res@[j].id, files@[i].extension@, files@[j].extension@);
    }
    res
}

/// The table row that records an installed subtitle.
pub fn install_row(source: Source, media_id: &str, planned: &PlannedSubtitle, path: String) -> (res: SubtitleRow)
    ensures
        res.id == stored_form(planned.id),
        res.source@ == source_name(source),
        res.media_id@ == media_id@,
        res.title == planned.title,
        res.path == path,
{
    SubtitleRow {
        id: stored_id(planned.id),
        source: source.to_string(),
        media_id: media_id.to_string(),
        title: planned.title.clone(),
        path,
    }
}

/// A subtitle recorded at install time is listed back with the id, source,
/// media id, title and path it was installed with.
pub proof fn lemma_installed_row_reads_back(
    row: SubtitleRow,
    source: Source,
    media_id: Seq<char>,
    id: u64,
    title: String,
    path: String,
)
    requires
        row.id == stored_form(id),
        row.source@ == source_name(source),
        row.media_id@ == media_id,
        row.title == title,
        row.path == path,
    ensures
        row_entry(row).subtitle_id == id,
        source_named(row_entry(row).source@) == Some(source),
        row_entry(row).id@ == media_id,
        row_entry(row).title == title,
        row_entry(row).path == path,
{
    lemma_source_name_roundtrip(source);
}

} // verus!
