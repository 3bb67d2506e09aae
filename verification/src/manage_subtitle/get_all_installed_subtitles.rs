use vstd::prelude::*;

use super::{id_from_stored, read_form};

verus! {

/// One row of the subtitle table: the stored id, the source name, the media
/// id, the title and the file path.
#[derive(Debug, Clone, PartialEq, Eq)]
pub struct SubtitleRow {
    pub id: i64,
    pub source: String,
    pub media_id: String,
    pub title: String,
    pub path: String,
}

/// An installed subtitle, with what it was installed for.
#[derive(Debug, Clone, PartialEq, Eq)]
pub struct GetAllInstalledSubtitlesData {
    pub source: String,
    pub id: String,
    pub subtitle_id: u64,
    pub title: String,
    pub path: String,
}

/// The installed subtitle a table row describes.
pub open spec fn row_entry(row: SubtitleRow) -> GetAllInstalledSubtitlesData {
    GetAllInstalledSubtitlesData {
        source: row.source,
        id: row.media_id,
        subtitle_id: read_form(row.id),
        title: row.title,
        path: row.path,
    }
}

/// The installed subtitle a table row describes.
pub fn installed_entry(row: &SubtitleRow) -> (res: GetAllInstalledSubtitlesData)
    ensures
        res == row_entry(*row),
{
    GetAllInstalledSubtitlesData {
        source: row.source.clone(),
        id: row.media_id.clone(),
        subtitle_id: id_from_stored(row.id),
        title: row.title.clone(),
        path: row.path.clone(),
    }
}

/// Every installed subtitle, one per table row, in row order.
pub fn all_installed(rows: &Vec<SubtitleRow>) -> (res: Vec<GetAllInstalledSubtitlesData>)
    ensures
        res@ == rows@.map_values(|row: SubtitleRow| row_entry(row)),
{
    let mut res: Vec<GetAllInstalledSubtitlesData> = Vec::new();
    for i in 0..rows.len()
        invariant
            res@ == rows@.take(i as int).map_values(|row: SubtitleRow| row_entry(row)),
    {
        res.push(installed_entry(&rows[i]));
        assert(rows@.take(i + 1) =~= rows@.take(i as int).push(rows@[i as int]));
    }
    assert(rows@.take(rows@.len() as int) =~= rows@);
    res
}

} // verus!
