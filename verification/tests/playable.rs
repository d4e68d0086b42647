use ani_core::playable::{
    order_by_size_desc, playable_files, video_file_positions, registered_media_order, requested_file, TaskFileFacts,
};

fn file(index: i64, name: &str, size: i64, selected: bool, complete: bool) -> TaskFileFacts {
    TaskFileFacts { index, name: name.to_owned(), size, selected, complete }
}

#[test]
fn orders_positions_by_decreasing_size_stably() {
    let sizes = vec![10, 30, 20, 30, 5];
    assert_eq!(order_by_size_desc(&sizes, &vec![0, 1, 2, 3, 4]), vec![1, 3, 2, 0, 4]);
    assert_eq!(order_by_size_desc(&sizes, &vec![4, 0]), vec![0, 4]);
    assert!(order_by_size_desc(&sizes, &Vec::new()).is_empty());
}

#[test]
fn picks_playable_task_files_largest_first() {
    let files = vec![
        file(0, "Show/01.mkv", 100, true, true),
        file(1, "Show/02.MP4", 300, true, true),
        file(2, "Show/03.mkv", 500, false, true),
        file(3, "Show/04.mkv", 700, true, false),
        file(4, "Show/readme.txt", 900, true, true),
        file(5, "Show/05.mkv", 300, true, true),
    ];
    let extensions = vec![".mkv".to_owned(), ".mp4".to_owned()];
    let playable = playable_files(&files, &extensions);
    assert_eq!(playable, vec![1, 5, 0]);
    assert_eq!(requested_file(&files, &playable, None).ok(), Some(None));
    assert_eq!(requested_file(&files, &playable, Some(5)).ok(), Some(Some(1)));
    let missing = requested_file(&files, &playable, Some(2)).err().expect("unavailable");
    assert_eq!(missing.status, 409);
    assert_eq!(missing.code, "MEDIA_FILE_UNAVAILABLE");
}

#[test]
fn orders_registered_media_of_a_task() {
    let task_ids = vec![Some("t1".to_owned()), None, Some("t2".to_owned()), Some("t1".to_owned()), Some("t1".to_owned())];
    let sizes = vec![10, 99, 50, 40, 10];
    assert_eq!(registered_media_order("t1", &task_ids, &sizes), vec![3, 0, 4]);
    assert!(registered_media_order("t9", &task_ids, &sizes).is_empty());
}

#[test]
fn takes_files_by_their_last_extension_only() {
    let files = vec![
        file(0, ".mkv", 10, true, true),
        file(1, "a.b.MKV", 20, true, true),
        file(2, "noext", 30, true, true),
        file(3, "dir.mkv/clip", 40, true, true),
        file(4, "ends.", 50, true, true),
    ];
    let extensions = vec![".mkv".to_owned(), ".".to_owned()];
    assert_eq!(video_file_positions(&files, &extensions), vec![1, 4]);
    assert_eq!(playable_files(&files, &extensions), vec![4, 1]);
}
