use media_sub::model::ProbeFile;
use media_sub::season_detection::analyze_seasons;

fn file(name: &str, parent: &str) -> ProbeFile {
    ProbeFile {
        name: name.to_string(),
        is_dir: false,
        parent_path: parent.to_string(),
        size: 1,
        updated_at: None,
        file_key: name.to_string(),
    }
}

#[test]
fn detects_seasons_from_names_and_paths() {
    let files = vec![
        file("Show S01E01.mkv", "Season 1"),
        file("Show S01E02.mkv", "Season 1"),
        file("Show.S02E01.mkv", ""),
        file("第二季/Show EP01.mp4", "第二季"),
        file("海报.jpg", "Season 1"),
        file("Show E05.mkv", ""),
    ];

    let detection = analyze_seasons(&files);

    assert!(detection.ok);
    assert_eq!(detection.total_file_count, 5);
    assert_eq!(detection.unspecified_file_count, 1);
    let seasons = detection
        .seasons
        .iter()
        .map(|season| season.season)
        .collect::<Vec<_>>();
    assert_eq!(seasons, vec![1, 2]);
    let s01 = detection.seasons.iter().find(|s| s.season == 1).unwrap();
    assert_eq!(s01.file_count, 2);
    assert_eq!(s01.episodes, vec![1, 2]);
    assert!(s01.sample_files.contains(&"Show S01E01.mkv".to_string()));
    // 中文季标记同样识别（与检查链路同一口径）
    assert!(detection.seasons.iter().any(|season| season.season == 2));
}

#[test]
fn reports_no_videos() {
    let empty = analyze_seasons(&[]);
    assert!(!empty.ok);
    assert!(empty.seasons.is_empty());
    assert_eq!(empty.total_file_count, 0);
}

#[test]
fn infers_season_one_when_share_has_no_markers() {
    // 最常见的单季资源：文件名只有 01/02，没有任何 Sxx/Season 标记。
    // 探测应直接按第一季处理，省掉用户手填季号那一步；转存侧的
    // resolve_file_season 对这些文件同样回落到最小季，口径一致。
    let files = vec![
        file("01.mkv", ""),
        file("02.mkv", ""),
        file("03.mkv", ""),
        file("海报.jpg", ""),
    ];

    let detection = analyze_seasons(&files);

    assert!(detection.ok);
    assert_eq!(detection.total_file_count, 3);
    // 已归入第一季，不再算作「未指定」
    assert_eq!(detection.unspecified_file_count, 0);
    assert_eq!(detection.seasons.len(), 1);
    let s01 = &detection.seasons[0];
    assert_eq!(s01.season, 1);
    assert_eq!(s01.file_count, 3);
    assert_eq!(s01.episodes, vec![1, 2, 3]);
    assert!(s01.inferred, "无标记推断出的季必须标记为 inferred");
    assert!(detection.message.contains("按第一季处理"));
}

#[test]
fn does_not_infer_season_one_when_any_marker_exists() {
    // 回归：混合分享（Season 2 正片 + 根目录番外）不得凭空多报一个 S01，
    // 否则用户会勾选到一个并不存在的季。未标记文件仍计入 unspecified。
    let files = vec![
        file("01.mkv", "Season 2"),
        file("02.mkv", "Season 2"),
        file("番外.mkv", ""),
    ];

    let detection = analyze_seasons(&files);

    let seasons = detection
        .seasons
        .iter()
        .map(|season| season.season)
        .collect::<Vec<_>>();
    assert_eq!(seasons, vec![2]);
    assert!(!detection.seasons[0].inferred);
    assert_eq!(detection.unspecified_file_count, 1);
    assert_eq!(detection.total_file_count, 3);
}

#[test]
fn season_counts_add_up_to_all_videos() {
    let files = vec![
        file("Show.S01E01.mkv", ""),
        file("Show.S02E01.mkv", ""),
        file("extra.mkv", ""),
        file("notes.txt", ""),
    ];
    let r = analyze_seasons(&files);
    let seasons: usize = r.seasons.iter().map(|s| s.file_count).sum();
    assert_eq!(seasons + r.unspecified_file_count, r.total_file_count);
    assert_eq!(r.total_file_count, 3);
}

#[test]
fn season_analysis_is_ordered_and_samples_are_bounded() {
    let files = vec![
        file("Show.S03E02.mkv", ""),
        file("Show.S01E04.mkv", ""),
        file("Show.S01E01.mkv", ""),
        file("Show.S01E03.mkv", ""),
        file("Show.S01E02.mkv", ""),
        file("Show.S03E01.mkv", ""),
    ];
    let detection = analyze_seasons(&files);
    let seasons: Vec<i32> = detection.seasons.iter().map(|s| s.season).collect();
    assert_eq!(seasons, vec![1, 3]);
    assert_eq!(detection.seasons[0].episodes, vec![1, 2, 3, 4]);
    assert_eq!(detection.seasons[0].sample_files.len(), 3);
    assert_eq!(detection.seasons[1].sample_files.len(), 2);
    assert!(detection.seasons.iter().all(|s| !s.inferred));

    let unmarked = vec![file("EP01.mkv", ""), file("EP02.mkv", "")];
    let detection = analyze_seasons(&unmarked);
    assert_eq!(detection.seasons.len(), 1);
    assert_eq!(detection.seasons[0].season, 1);
    assert!(detection.seasons[0].inferred);
    assert_eq!(detection.unspecified_file_count, 0);
}
