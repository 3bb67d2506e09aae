use vstd::prelude::*;

use super::get_all_installed_subtitles::{row_entry, SubtitleRow};
use super::{lemma_column_roundtrip, stored_form, stored_id};
use crate::global_types::{source_name, Source};

verus! {

/// Which installed subtitle to remove.
#[derive(Debug, Clone, PartialEq, Eq)]
pub struct RemoveInstalledSubtitlesParams {
    pub source: Source,
    pub id: String,
    pub subtitle_id: u64,
}

/// The values that pick out one subtitle's row: stored id, source name and
/// media id.
#[derive(Debug, Clone, PartialEq, Eq)]
pub struct SubtitleKey {
    pub id: i64,
    pub source: String,
    pub media_id: String,
}

/// The row a removal is about.
pub fn removal_key(params: &RemoveInstalledSubtitlesParams) -> (res: SubtitleKey)
    ensures
        res.id == stored_form(params.subtitle_id),
        res.source@ == source_name(params.source),
        res.media_id@ == params.id@,
{
    SubtitleKey {
        id: stored_id(params.subtitle_id),
        source: params.source.to_string(),
        media_id: params.id.clone(),
    }
}

/// What a removal does once the subtitle's row has been looked up.
#[derive(Debug, Clone, PartialEq, Eq)]
pub enum RemovalAction {
    /// No such subtitle is installed: nothing is removed.
    NothingInstalled,
    /// Remove the file at `path`, where it still exists, then delete the row
    /// picked out by `key`.
    RemoveFileThenRow { path: String, key: SubtitleKey },
}

/// The step after looking up the row picked out by `key`: `found` is the path
/// that row records, if there is such a row.
pub fn removal_next(key: SubtitleKey, found: Option<String>) -> (res: RemovalAction)
    ensures
        found is None ==> res == RemovalAction::NothingInstalled,
        found matches Some(path) ==> res == (RemovalAction::RemoveFileThenRow { path, key }),
{
    match found {
        None => RemovalAction::NothingInstalled,
        Some(path) => RemovalAction::RemoveFileThenRow { path, key },
    }
}

/// Removing a listed subtitle, by the id, source and media it is listed
/// with, picks out exactly the row it was listed from.
pub proof fn lemma_removal_targets_listed_row(row: SubtitleRow, source: Source, key: SubtitleKey)
    requires
        row.source@ == source_name(source),
        key.id == stored_form(row_entry(row).subtitle_id),
        key.source@ == source_name(source),
        key.media_id@ == row_entry(row).id@,
    ensures
        key.id == row.id,
        key.source@ == row.source@,
        key.media_id@ == row.media_id@,
{
    lemma_column_roundtrip(row.id);
}

} // verus!
