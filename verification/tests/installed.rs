use recombox_subtitle_provider::global_types::Source;
use recombox_subtitle_provider::manage_subtitle::get_all_installed_subtitles::{
    all_installed, installed_entry, GetAllInstalledSubtitlesData, SubtitleRow,
};
use recombox_subtitle_provider::manage_subtitle::get_installed_subtitles::{
    installed_by_id, installed_filter, GetInstalledSubtitlesData, GetInstalledSubtitlesParams,
};
use recombox_subtitle_provider::manage_subtitle::install_subtitle::{
    archive_file_name, extraction_dir_name, install_row, is_subtitle_file, plan_subtitles, stored_file_name,
    subtitle_files, subtitle_title, PlannedSubtitle, SubtitleFile, SubtitleIds,
};
use recombox_subtitle_provider::manage_subtitle::remove_installed_subtitle::{
    removal_key, removal_next, RemovalAction, RemoveInstalledSubtitlesParams, SubtitleKey,
};
use recombox_subtitle_provider::manage_subtitle::{id_from_stored, stored_id, DATABASE_NAME};

#[test]
fn ids_are_stored_bit_for_bit() {
    assert_eq!(stored_id(0), 0);
    assert_eq!(stored_id(42), 42);
    assert_eq!(stored_id(u64::MAX), -1);
    assert_eq!(stored_id(1 << 63), i64::MIN);
    assert_eq!(id_from_stored(-1), u64::MAX);
    assert_eq!(id_from_stored(i64::MIN), 1 << 63);
    for id in [0u64, 1, 7_000_000_000_000, i64::MAX as u64, (i64::MAX as u64) + 1, u64::MAX] {
        assert_eq!(id_from_stored(stored_id(id)), id);
    }
}

#[test]
fn database_file_name() {
    assert_eq!(DATABASE_NAME, "subtitles_v2.sqlite");
}

#[test]
fn decimal_names_of_ids() {
    assert_eq!(extraction_dir_name(0), "0");
    assert_eq!(extraction_dir_name(1234567890123), "1234567890123");
    assert_eq!(extraction_dir_name(u64::MAX), "18446744073709551615");
    assert_eq!(archive_file_name(u64::MAX), "18446744073709551615.zip");
}

#[test]
fn subtitle_extensions() {
    for ext in ["srt", "vtt", "ass", "ssa", "SRT", "Vtt", "ASS", "sSa"] {
        assert!(is_subtitle_file(ext), "{}", ext);
    }
    for ext in ["txt", "zip", "srtx", "", "sub", "nfo", "ÄSS"] {
        assert!(!is_subtitle_file(ext), "{}", ext);
    }
}

#[test]
fn subtitle_positions_keep_order() {
    let exts: Vec<String> = ["nfo", "SRT", "txt", "ass", "vtt"].iter().map(|s| s.to_string()).collect();
    assert_eq!(subtitle_files(&exts), vec![1, 3, 4]);
    assert!(subtitle_files(&vec![]).is_empty());
}

#[test]
fn installed_names() {
    assert_eq!(subtitle_title("Show.S01E01", "English"), "Show.S01E01 | English");
    assert_eq!(stored_file_name(42, "srt"), "42.srt");
    assert_eq!(stored_file_name(7, "ASS"), "7.ASS");
    assert_eq!(archive_file_name(99), "99.zip");
    assert_ne!(stored_file_name(11, "srt"), stored_file_name(1, "1.srt"));
    assert_ne!(stored_file_name(10, "x"), stored_file_name(1, "0.x"));
}

#[test]
fn planned_subtitles_get_titles_and_names() {
    let mut ids = SubtitleIds::new().unwrap();
    let files = vec![
        SubtitleFile { stem: "a".to_string(), extension: "srt".to_string() },
        SubtitleFile { stem: "b".to_string(), extension: "ass".to_string() },
    ];
    let planned = plan_subtitles(&mut ids, &files, "French");
    assert_eq!(planned.len(), 2);
    assert_eq!(planned[0].title, "a | French");
    assert_eq!(planned[0].file_name, format!("{}.srt", planned[0].id));
    assert_eq!(planned[1].title, "b | French");
    assert_eq!(planned[1].file_name, format!("{}.ass", planned[1].id));
    assert_ne!(planned[0].id, planned[1].id);
    assert!(planned[0].id < planned[1].id);
    let later = ids.next_id();
    assert!(planned[1].id < later);
}

#[test]
fn installed_row_reads_back() {
    let planned = PlannedSubtitle { id: u64::MAX - 5, title: "a | English".to_string(), file_name: "x.srt".to_string() };
    let row = install_row(Source::TV, "tt42", &planned, "/data/tv/tt42/x.srt".to_string());
    assert_eq!(row.id, stored_id(u64::MAX - 5));
    assert_eq!(row.source, "tv");
    assert_eq!(row.media_id, "tt42");
    let entry = installed_entry(&row);
    assert_eq!(
        entry,
        GetAllInstalledSubtitlesData {
            source: "tv".to_string(),
            id: "tt42".to_string(),
            subtitle_id: u64::MAX - 5,
            title: "a | English".to_string(),
            path: "/data/tv/tt42/x.srt".to_string(),
        }
    );
    let key = removal_key(&RemoveInstalledSubtitlesParams {
        source: Source::TV,
        id: "tt42".to_string(),
        subtitle_id: entry.subtitle_id,
    });
    assert_eq!(key.id, row.id);
    assert_eq!(key.source, row.source);
    assert_eq!(key.media_id, row.media_id);
}

#[test]
fn all_installed_lists_every_row() {
    let rows = vec![
        SubtitleRow { id: 5, source: "anime".to_string(), media_id: "m".to_string(), title: "t".to_string(), path: "p".to_string() },
        SubtitleRow { id: -2, source: "movies".to_string(), media_id: "n".to_string(), title: "u".to_string(), path: "q".to_string() },
    ];
    let all = all_installed(&rows);
    assert_eq!(all.len(), 2);
    assert_eq!(all[0].subtitle_id, 5);
    assert_eq!(all[1].subtitle_id, u64::MAX - 1);
    assert_eq!(all[1].source, "movies");
    assert!(all_installed(&vec![]).is_empty());
}

#[test]
fn installed_by_id_keeps_the_last_row_of_an_id() {
    let params = GetInstalledSubtitlesParams { source: Source::Movies, id: "tt1".to_string() };
    assert_eq!(installed_filter(&params), ("movies".to_string(), "tt1".to_string()));
    let rows = vec![
        (1i64, "one".to_string(), "/1".to_string()),
        (-1i64, "max".to_string(), "/max".to_string()),
        (1i64, "uno".to_string(), "/uno".to_string()),
    ];
    let map = installed_by_id(&rows);
    assert_eq!(map.len(), 2);
    assert_eq!(map.get(&1).unwrap(), &GetInstalledSubtitlesData { title: "uno".to_string(), path: "/uno".to_string() });
    assert_eq!(map.get(&u64::MAX).unwrap(), &GetInstalledSubtitlesData { title: "max".to_string(), path: "/max".to_string() });
}

#[test]
fn removal_skips_what_is_not_installed() {
    let key = SubtitleKey { id: 5, source: "anime".to_string(), media_id: "tt1".to_string() };
    assert_eq!(removal_next(key.clone(), None), RemovalAction::NothingInstalled);
    assert_eq!(
        removal_next(key.clone(), Some("/subs/anime/tt1/5.srt".to_string())),
        RemovalAction::RemoveFileThenRow { path: "/subs/anime/tt1/5.srt".to_string(), key }
    );
}
