use vstd::prelude::*;

use std::collections::HashMap;

use super::{id_from_stored, lemma_column_roundtrip, read_form};
use crate::global_types::{source_name, Source};

verus! {

broadcast use vstd::std_specs::hash::group_hash_axioms;

/// Which media's installed subtitles to list.
#[derive(Debug, Clone, PartialEq, Eq)]
pub struct GetInstalledSubtitlesParams {
    pub source: Source,
    pub id: String,
}

/// An installed subtitle of a media.
#[derive(Debug, Clone, PartialEq, Eq)]
pub struct GetInstalledSubtitlesData {
    pub title: String,
    pub path: String,
}

/// The values the table is filtered by: the source's name and the media id.
pub fn installed_filter(params: &GetInstalledSubtitlesParams) -> (res: (String, String))
    ensures
        res.0@ == source_name(params.source),
        res.1@ == params.id@,
{
    (params.source.to_string(), params.id.clone())
}

/// The map that a media's table rows (stored id, title, path) make, by
/// subtitle id; a later row of the same id replaces an earlier one.
pub open spec fn installed_map(rows: Seq<(i64, String, String)>) -> Map<u64, GetInstalledSubtitlesData>
    decreases rows.len(),
{
    if rows.len() == 0 {
        Map::empty()
    } else {
        installed_map(rows.drop_last()).insert(
            read_form(rows.last().0),
            GetInstalledSubtitlesData { title: rows.last().1, path: rows.last().2 },
        )
    }
}

/// A media's installed subtitles by subtitle id.
pub fn installed_by_id(rows: &Vec<(i64, String, String)>) -> (res: HashMap<u64, GetInstalledSubtitlesData>)
    ensures
        res@ == installed_map(rows@),
{
    let mut res: HashMap<u64, GetInstalledSubtitlesData> = HashMap::new();
    for i in 0..rows.len()
        invariant
            res@ == installed_map(rows@.take(i as int)),
    {
        let id = id_from_stored(rows[i].0);
        let data = GetInstalledSubtitlesData { title: rows[i].1.clone(), path: rows[i].2.clone() };
        res.insert(id, data);
        assert(rows@.take(i + 1).drop_last() =~= rows@.take(i as int));
    }
    assert(rows@.take(rows@.len() as int) =~= rows@);
    res
}

/// Every subtitle id listed comes from some row.
proof fn lemma_installed_map_keys_are_rows(rows: Seq<(i64, String, String)>)
    ensures
        forall|k: u64|
            #[trigger] installed_map(rows).contains_key(k) ==> exists|i: int|
                0 <= i < rows.len() && read_form(#[trigger] rows[i].0) == k,
    decreases rows.len(),
{
    if rows.len() > 0 {
        let rest = rows.drop_last();
        lemma_installed_map_keys_are_rows(rest);
        assert forall|k: u64| #[trigger] installed_map(rows).contains_key(k) implies exists|i: int|
            0 <= i < rows.len() && read_form(#[trigger] rows[i].0) == k by {
            if k == read_form(rows.last().0) {
                assert(read_form(rows[rows.len() - 1].0) == k);
            } else {
                assert(installed_map(rest).contains_key(k));
                let i = choose|i: int| 0 <= i < rest.len() && read_form(#[trigger] rest[i].0) == k;
                assert(rest[i] == rows[i]);
            }
        }
    }
}

/// When no two rows share a stored id, every row is listed under its own
/// subtitle id, with its title and path, and nothing else is listed.
pub proof fn lemma_installed_map_lists_every_row(rows: Seq<(i64, String, String)>)
    requires
        forall|i: int, j: int|
            0 <= i < rows.len() && 0 <= j < rows.len() && i != j ==> #[trigger] rows[i].0 != #[trigger] rows[j].0,
    ensures
        installed_map(rows).dom().finite(),
        installed_map(rows).dom().len() == rows.len(),
        forall|i: int|
            0 <= i < rows.len() ==> {
                &&& installed_map(rows).contains_key(read_form(#[trigger] rows[i].0))
                &&& installed_map(rows)[read_form(rows[i].0)] == GetInstalledSubtitlesData {
                    title: rows[i].1,
                    path: rows[i].2,
                }
            },
    decreases rows.len(),
{
    if rows.len() > 0 {
        let rest = rows.drop_last();
        let last = rows.last();
        assert forall|i: int, j: int|
            0 <= i < rest.len() && 0 <= j < rest.len() && i != j implies #[trigger] rest[i].0 != #[trigger] rest[j].0 by {
            assert(rest[i] == rows[i] && rest[j] == rows[j]);
        }
        lemma_installed_map_lists_every_row(rest);
        assert(rows[rows.len() - 1] == last);
        assert(!installed_map(rest).contains_key(read_form(last.0))) by {
            lemma_installed_map_keys_are_rows(rest);
            if installed_map(rest).contains_key(read_form(last.0)) {
                let k = choose|i: int| 0 <= i < rest.len() && read_form(#[trigger] rest[i].0) == read_form(last.0);
                lemma_column_roundtrip(rest[k].0);
                lemma_column_roundtrip(last.0);
                assert(rest[k] == rows[k]);
                assert(false);
            }
        }
        assert forall|i: int| 0 <= i < rows.len() implies {
            &&& installed_map(rows).contains_key(read_form(#[trigger] rows[i].0))
            &&& installed_map(rows)[read_form(rows[i].0)] == GetInstalledSubtitlesData {
                title: rows[i].1,
                path: rows[i].2,
            }
        } by {
            if i < rows.len() - 1 {
                assert(rest[i] == rows[i]);
                lemma_column_roundtrip(rows[i].0);
                lemma_column_roundtrip(last.0);
                assert(rows[i].0 != last.0);
            }
        }
    }
}

} // verus!
