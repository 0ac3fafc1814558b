use music_manager::config::{GroupBy, SortBy, ViewSettings};
use music_manager::device::{
    disk_in_line, drives_in_mask, last_segment, lettered_drive, mount_point_in_line, mounted_device,
    reports_removable, volume_device,
};
use music_manager::media::{
    detect_format, file_extension, is_library_audio, is_listed_audio, is_taggable, renamed_entry_name,
    restored_name, AudioFormat,
};
use music_manager::metadata::{count_artist, ArtistInfo, MetadataWriteOptions, MetadataWriteResult};
use music_manager::listing::{listing_precedes, sort_listing, text_le};
use music_manager::{AppConfig, FileItem};

#[test]
fn extensions_follow_the_last_dot() {
    assert_eq!(file_extension("song.mp3").as_deref(), Some("mp3"));
    assert_eq!(file_extension("archive.tar.gz").as_deref(), Some("gz"));
    assert_eq!(file_extension(".hidden"), None);
    assert_eq!(file_extension("noext"), None);
    assert_eq!(file_extension("trailing.").as_deref(), Some(""));
    assert_eq!(file_extension(".."), None);
}

#[test]
fn audio_extension_lists() {
    assert!(is_listed_audio("aiff"));
    assert!(!is_listed_audio("MP3"));
    assert!(is_library_audio("MP3"));
    assert!(is_library_audio("Flac"));
    assert!(!is_library_audio("aac"));
    assert!(is_taggable("M4A"));
    assert!(!is_taggable("wav"));
}

#[test]
fn listing_entries_mark_audio_files() {
    let f = FileItem::listed("a.flac".to_string(), "/m/a.flac".to_string(), false);
    assert!(f.is_audio);
    let d = FileItem::listed("b.mp3".to_string(), "/m/b.mp3".to_string(), true);
    assert!(!d.is_audio);
    let t = FileItem::listed("notes.txt".to_string(), "/m/notes.txt".to_string(), false);
    assert!(!t.is_audio);
}

#[test]
fn renaming_keeps_file_extension() {
    assert_eq!(renamed_entry_name("old.mp3", true, "new"), Ok("new.mp3".to_string()));
    assert_eq!(renamed_entry_name("old.mp3", true, "new.mp3"), Ok("new.mp3".to_string()));
    assert_eq!(renamed_entry_name("folder", false, "other"), Ok("other".to_string()));
    assert_eq!(
        renamed_entry_name("README", true, "x"),
        Err("Could not get file extension".to_string())
    );
}

#[test]
fn formats_from_magic_numbers() {
    let mut h = [0u8; 16];
    h[..3].copy_from_slice(b"ID3");
    assert_eq!(detect_format(&h), Some(AudioFormat::Mp3));
    h[..4].copy_from_slice(b"fLaC");
    assert_eq!(detect_format(&h), Some(AudioFormat::Flac));
    h[..4].copy_from_slice(b"OggS");
    assert_eq!(detect_format(&h), Some(AudioFormat::Ogg));
    h[..4].copy_from_slice(b"RIFF");
    assert_eq!(detect_format(&h), Some(AudioFormat::Wav));
    h[..8].copy_from_slice(b"\x00\x00\x00\x18ftyp");
    assert_eq!(detect_format(&h), Some(AudioFormat::Mp4));
    h[..2].copy_from_slice(b"\xFF\xFB");
    assert_eq!(detect_format(&h), Some(AudioFormat::Mp3));
    assert_eq!(detect_format(&[0u8; 16]), None);
    assert_eq!(detect_format(b"ID"), None);
    assert_eq!(AudioFormat::Mp4.mime_type(), "video/mp4");
    assert_eq!(AudioFormat::Wav.extension(), "wav");
}

#[test]
fn restored_names() {
    assert_eq!(restored_name("track", AudioFormat::Flac), "track.flac");
    assert_eq!(restored_name("track.one.bin", AudioFormat::Mp3), "track.mp3");
}

#[test]
fn favorites_are_unique() {
    let mut c = AppConfig::new();
    assert!(c.add_favorite("/a".to_string()));
    assert!(c.add_favorite("/b".to_string()));
    assert!(!c.add_favorite("/a".to_string()));
    assert_eq!(c.favorite_locations, vec!["/a".to_string(), "/b".to_string()]);
    c.remove_favorite("/a");
    assert_eq!(c.favorite_locations, vec!["/b".to_string()]);
    c.remove_favorite("/zzz");
    assert_eq!(c.favorite_locations, vec!["/b".to_string()]);
}

#[test]
fn recent_locations_move_to_front_and_are_capped() {
    let mut c = AppConfig::new();
    c.max_recent_locations = 3;
    for p in ["/1", "/2", "/3", "/4"] {
        c.add_recent(p.to_string());
    }
    assert_eq!(c.recent_locations, vec!["/4", "/3", "/2"]);
    c.add_recent("/2".to_string());
    assert_eq!(c.recent_locations, vec!["/2", "/4", "/3"]);
    c.set_default("/2".to_string());
    assert_eq!(c.default_location.as_deref(), Some("/2"));
    assert_eq!(AppConfig::new().max_recent_locations, 10);
}

#[test]
fn default_view_settings() {
    let v = ViewSettings::default();
    assert!(v.show_artwork);
    assert!(!v.dark_mode);
    assert_eq!(v.sort_by, SortBy::Name);
    assert_eq!(v.group_by, GroupBy::Nothing);
}

#[test]
fn mounted_devices() {
    assert!(mounted_device("proc", "/proc", false).is_none());
    assert!(mounted_device("sysfs", "/sys/kernel", false).is_none());
    let d = mounted_device("/dev/sdb1", "/media/user/USBSTICK", true).unwrap();
    assert_eq!(d.name, "USBSTICK");
    assert_eq!(d.device_type, "removable");
    assert!(d.removable);
    let d = mounted_device("/dev/disk/by-id/usb-x", "/mnt/stick", false).unwrap();
    assert!(d.removable);
    let d = mounted_device("/dev/nvme0n1p2", "/", false).unwrap();
    assert_eq!(d.name, "");
    assert_eq!(d.device_type, "fixed");
    assert_eq!(last_segment("plain"), "plain");
    assert_eq!(last_segment("/dev/sda1"), "sda1");
}

#[test]
fn lettered_drives() {
    assert_eq!(drives_in_mask(0b1101), vec![0, 2, 3]);
    assert_eq!(drives_in_mask(0), Vec::<u32>::new());
    assert_eq!(drives_in_mask(u32::MAX).len(), 26);
    let d = lettered_drive(2, 3).unwrap();
    assert_eq!(d.name, "Drive (C:)");
    assert_eq!(d.path, "C:\\");
    assert_eq!(d.device_type, "fixed");
    assert!(!d.removable);
    let e = lettered_drive(4, 2).unwrap();
    assert!(e.removable);
    assert_eq!(e.device_type, "removable");
    assert_eq!(lettered_drive(5, 9).unwrap().device_type, "unknown");
    assert!(lettered_drive(0, 1).is_none());
}

#[test]
fn batch_options_drop_title_and_track() {
    let o = MetadataWriteOptions {
        path: "/music".to_string(),
        title: Some("T".to_string()),
        artist: Some("A".to_string()),
        album: None,
        album_artist: Some("AA".to_string()),
        album_art: None,
        genre: Some("G".to_string()),
        year: Some(1999),
        track_number: Some(4),
    };
    let f = o.for_batch_file("/music/x.mp3".to_string());
    assert_eq!(f.path, "/music/x.mp3");
    assert_eq!(f.title, None);
    assert_eq!(f.track_number, None);
    assert_eq!(f.artist.as_deref(), Some("A"));
    assert_eq!(f.album_artist.as_deref(), Some("AA"));
    assert_eq!(f.genre.as_deref(), Some("G"));
    assert_eq!(f.year, Some(1999));
}

#[test]
fn batch_write_messages() {
    let r = MetadataWriteResult::for_batch(12, 0);
    assert!(r.success);
    assert_eq!(r.message, "Successfully updated metadata for 12 files");
    let r = MetadataWriteResult::for_batch(3, 2);
    assert!(!r.success);
    assert_eq!(r.message, "Updated 3 files, failed to update 2 files. Check logs for details.");
    let r = MetadataWriteResult::for_single_file();
    assert!(r.success);
    assert_eq!(r.message, "Metadata successfully updated");
}

#[test]
fn artists_are_counted_once_each() {
    let mut tally: Vec<ArtistInfo> = Vec::new();
    for a in ["X", "Y", "X", "X"] {
        count_artist(&mut tally, a);
    }
    assert_eq!(tally.len(), 2);
    assert_eq!((tally[0].name.as_str(), tally[0].track_count), ("X", 3));
    assert_eq!((tally[1].name.as_str(), tally[1].track_count), ("Y", 1));
}

fn item(name: &str, is_dir: bool) -> FileItem {
    FileItem::listed(name.to_string(), format!("/m/{}", name), is_dir)
}

#[test]
fn listings_put_directories_first_then_names_case_blind() {
    let sorted = sort_listing(vec![
        item("b.mp3", false),
        item("Zeta", true),
        item("A.flac", false),
        item("alpha", true),
        item("c.txt", false),
    ]);
    let names: Vec<&str> = sorted.iter().map(|f| f.name.as_str()).collect();
    assert_eq!(names, vec!["alpha", "Zeta", "A.flac", "b.mp3", "c.txt"]);
    assert!(sort_listing(Vec::new()).is_empty());
}

#[test]
fn listing_order_on_lowered_names() {
    assert!(text_le("abc", "abd"));
    assert!(text_le("ab", "abc"));
    assert!(!text_le("abc", "ab"));
    assert!(text_le("", ""));
    assert!(listing_precedes(true, "z", false, "a"));
    assert!(!listing_precedes(false, "a", true, "z"));
    assert!(listing_precedes(false, "a", false, "a"));
    assert!(!listing_precedes(false, "b", false, "a"));
}

#[test]
fn disk_descriptions() {
    assert_eq!(disk_in_line("/dev/disk2 (external, physical):").as_deref(), Some("/dev/disk2"));
    assert_eq!(disk_in_line("   0:  GUID_partition_scheme   *500 GB   disk0"), None);
    assert_eq!(disk_in_line("  /dev/disk3\tsynthesized").as_deref(), Some("/dev/disk3"));
    assert_eq!(
        mount_point_in_line("   Mount Point:               /Volumes/USB Stick  ").as_deref(),
        Some("/Volumes/USB Stick")
    );
    assert_eq!(mount_point_in_line("   Mount Point:               ").as_deref(), Some(""));
    assert_eq!(mount_point_in_line("   Device Node:   /dev/disk2s1"), None);
    assert!(reports_removable("Device Node: x\n   Removable Media: Yes\n"));
    assert!(!reports_removable("Removable Media: Fixed"));
    let d = volume_device("/Volumes/USB Stick", true).unwrap();
    assert_eq!(d.name, "USB Stick");
    assert_eq!(d.device_type, "removable");
    assert!(volume_device("", false).is_none());
}

#[test]
fn listing_ties_keep_input_order() {
    let first = FileItem::listed("Song.mp3".to_string(), "/x/Song.mp3".to_string(), false);
    let second = FileItem::listed("song.mp3".to_string(), "/y/song.mp3".to_string(), false);
    let sorted = sort_listing(vec![item("z", false), first.clone(), second.clone()]);
    assert_eq!(sorted, vec![first, second, item("z", false)]);
}
