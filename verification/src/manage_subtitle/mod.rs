use vstd::prelude::*;

use std::path::PathBuf;

pub mod get_all_installed_subtitles;
pub mod get_installed_subtitles;
pub mod install_subtitle;
pub mod remove_installed_subtitle;

verus! {

#[verifier::external_type_specification]
#[verifier::external_body]
pub struct ExPathBuf(PathBuf);

/// Where installed subtitles and their database live.
pub struct SubtitleDatabaseManager {
    pub subtitle_directory: PathBuf,
}

/// The file name of the subtitle database inside the subtitle directory.
pub const DATABASE_NAME: &'static str = "subtitles_v2.sqlite";

/// The database column of a subtitle id: the id's 64 bits read as a signed
/// number (as `u64 as i64` does).
pub open spec fn stored_form(id: u64) -> i64 {
    if id <= i64::MAX {
        id as i64
    } else {
        (id - 0x1_0000_0000_0000_0000) as i64
    }
}

/// The subtitle id read back from its database column: the column's 64 bits
/// read as an unsigned number (as `i64 as u64` does).
pub open spec fn read_form(column: i64) -> u64 {
    if column >= 0 {
        column as u64
    } else {
        (column + 0x1_0000_0000_0000_0000) as u64
    }
}

/// The database column that stores a subtitle id.
pub fn stored_id(id: u64) -> (res: i64)
    ensures
        res == stored_form(id),
{
    let res = id as i64;
    assert(res == (if id <= 0x7fff_ffff_ffff_ffffu64 {
        id as i64
    } else {
        (id - 0x1_0000_0000_0000_0000) as i64
    })) by (bit_vector)
        requires
            res == id as i64,
    ;
    res
}

/// The subtitle id a database column holds.
pub fn id_from_stored(column: i64) -> (res: u64)
    ensures
        res == read_form(column),
{
    let res = column as u64;
    assert(res == (if column >= 0 {
        column as u64
    } else {
        (column + 0x1_0000_0000_0000_0000) as u64
    })) by (bit_vector)
        requires
            res == column as u64,
    ;
    res
}

/// A subtitle id written to the database reads back as the same id.
pub proof fn lemma_stored_id_reads_back(id: u64)
    ensures
        read_form(stored_form(id)) == id,
{
}

/// Every database column is the stored form of the id it reads back as, so
/// distinct columns are distinct ids.
pub proof fn lemma_column_roundtrip(column: i64)
    ensures
        stored_form(read_form(column)) == column,
{
}

} // verus!
