use cyberpunk::normalize::SafeCharsType;
use cyberpunk::storage::{
    next_connect_step, ConnectStep, FileStorage, GCloudStorage, S3Storage,
};

#[test]
fn test_new_storage() {
    let base_dir = "/tmp".to_string();
    let path_prefix = "audio_files".to_string();
    let safe_chars = SafeCharsType::Default;

    let storage = FileStorage::new(base_dir.clone(), path_prefix.clone(), safe_chars);

    assert_eq!(storage.base_dir, base_dir);
    assert_eq!(storage.path_prefix, path_prefix);
    assert_eq!(storage.safe_chars, SafeCharsType::Default);
}

#[test]
fn test_get_full_path() {
    let base_dir = "/tmp".to_string();
    let path_prefix = "audio_files".to_string();
    let storage = FileStorage::new(
        base_dir.clone(),
        path_prefix.clone(),
        SafeCharsType::Default,
    );

    let key = "test/my-audio.mp3";
    let full_path = storage.get_full_path(key);

    assert_eq!(full_path, "/tmp/audio_files/test/my-audio.mp3");
}

#[test]
fn test_get_full_path_with_special_chars() {
    let base_dir = "/tmp".to_string();
    let path_prefix = "audio_files".to_string();
    let storage = FileStorage::new(
        base_dir.clone(),
        path_prefix.clone(),
        SafeCharsType::Default,
    );

    let key = "test/my audio!@#.mp3";
    let full_path = storage.get_full_path(key);

    assert_ne!(full_path, "/tmp/audio_files/test/my audio!@#.mp3");
    assert_eq!(full_path, "/tmp/audio_files/test/my+audio%21%40%23.mp3");
}

#[test]
fn test_different_safe_chars_types() {
    let base_dir = "/tmp/x".to_string();
    let path_prefix = "audio_files".to_string();

    let strict_storage = FileStorage::new(
        base_dir.clone(),
        path_prefix.clone(),
        SafeCharsType::Default,
    );

    let relaxed_storage =
        FileStorage::new(base_dir.clone(), path_prefix.clone(), SafeCharsType::Noop);

    let key_with_spaces = "test/my audio file.mp3";

    let strict_path = strict_storage.get_full_path(key_with_spaces);
    let relaxed_path = relaxed_storage.get_full_path(key_with_spaces);

    assert_ne!(strict_path, relaxed_path);
}

#[test]
fn object_stores_name_objects_under_the_prefix() {
    let s3 = S3Storage::new(
        "base".to_string(),
        "prefix".to_string(),
        SafeCharsType::Default,
        "bucket".to_string(),
    );
    assert_eq!(s3.get_full_path("/a b/c.mp3/"), "prefix/a+b/c.mp3");
    assert_eq!(s3.bucket, "bucket");
    let gcs = GCloudStorage::new(
        "base".to_string(),
        "".to_string(),
        SafeCharsType::Noop,
        "bucket".to_string(),
    );
    assert_eq!(gcs.get_full_path("a b"), "/a b");
}

#[test]
fn connecting_is_retried_a_bounded_number_of_times() {
    assert_eq!(next_connect_step(0, 5, true), ConnectStep::Ready);
    assert_eq!(next_connect_step(0, 5, false), ConnectStep::Retry);
    assert_eq!(next_connect_step(3, 5, false), ConnectStep::Retry);
    assert_eq!(next_connect_step(4, 5, false), ConnectStep::GiveUp);
    assert_eq!(next_connect_step(4, 5, true), ConnectStep::Ready);
    assert_eq!(next_connect_step(0, 0, false), ConnectStep::GiveUp);
    assert_eq!(next_connect_step(u32::MAX, u32::MAX, false), ConnectStep::GiveUp);
}
