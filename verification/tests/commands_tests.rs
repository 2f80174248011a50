use wowl::commands::{
    adds_when_applied, adds_when_loaded, content_mime, data_url, download_trigger_auth,
    file_extension, flip_current, history_mime, is_stale_wallpaper, list_providers, lockscreen_import_script,
    lockscreen_outcome, lockscreen_reg, lockscreen_reset_script, photo_from_entry, reset_outcome, target_resolution,
    wallpaper_file_name, CurrentImage,
};
use wowl::history::HistoryEntry;
use wowl::providers::{Photo, Provider};

#[test]
fn providers_listed_for_the_ui() {
    let list = list_providers();
    let rows: Vec<(&str, &str, bool, bool)> =
        list.iter().map(|p| (p.id, p.label, p.supports_search, p.needs_key)).collect();
    assert_eq!(
        rows,
        vec![
            ("picsum", "Lorem Picsum", false, false),
            ("unsplash", "Unsplash", true, true),
            ("bing", "Bing", false, false),
            ("pixabay", "Pixabay", true, true),
            ("wallhaven", "Wallhaven", true, false),
        ]
    );
    for info in &list {
        let p = Provider::from_id(info.id);
        assert_eq!(p.id(), info.id);
        assert_eq!(p.supports_search(), info.supports_search);
    }
}

#[test]
fn data_url_is_base64() {
    assert_eq!(data_url("image/png", &[0, 1, 2]), "data:image/png;base64,AAEC");
    assert_eq!(data_url("image/jpeg", b"hello"), "data:image/jpeg;base64,aGVsbG8=");
    assert_eq!(data_url("image/gif", &[]), "data:image/gif;base64,");
}

#[test]
fn mime_from_content_type() {
    assert_eq!(content_mime(Some("image/png; charset=binary")), "image/png");
    assert_eq!(content_mime(Some(" image/webp ")), "image/webp");
    assert_eq!(content_mime(Some("text/html; charset=utf-8")), "image/jpeg");
    assert_eq!(content_mime(Some("IMAGE/PNG")), "image/jpeg");
    assert_eq!(content_mime(Some("")), "image/jpeg");
    assert_eq!(content_mime(None), "image/jpeg");
}

#[test]
fn mime_of_history_file() {
    assert_eq!(history_mime(Some("png")), "image/png");
    assert_eq!(history_mime(Some("jpg")), "image/jpg");
    assert_eq!(history_mime(None), "image/jpeg");
}

#[test]
fn resolution_falls_back_without_monitor() {
    assert_eq!(target_resolution(Some((1920, 1080))), (1920, 1080));
    assert_eq!(target_resolution(Some((0, 1080))), (2560, 1440));
    assert_eq!(target_resolution(Some((1920, 0))), (2560, 1440));
    assert_eq!(target_resolution(None), (2560, 1440));
}

#[test]
fn download_ping_authorization() {
    assert_eq!(download_trigger_auth(Provider::Unsplash, " k1 ").as_deref(), Some("Client-ID k1"));
    assert_eq!(download_trigger_auth(Provider::Unsplash, "  "), None);
    assert_eq!(download_trigger_auth(Provider::Bing, "k1"), None);
}

#[test]
fn history_modes() {
    assert!(adds_when_loaded("loaded"));
    assert!(!adds_when_loaded("applied"));
    assert!(adds_when_applied("applied"));
    assert!(!adds_when_applied("loaded"));
    assert!(!adds_when_loaded("Loaded") && !adds_when_applied("other"));
}

#[test]
fn wallpaper_files() {
    let name = wallpaper_file_name("bing-Owl/1", "image/webp");
    assert_eq!(name, "wp-bing-Owl_1.webp");
    assert!(!is_stale_wallpaper(&name, &name));
    assert!(is_stale_wallpaper("wp-old.jpg", &name));
    assert!(!is_stale_wallpaper("lockscreen.jpg", &name));
    assert!(!is_stale_wallpaper("wp", &name));
}

#[test]
fn lockscreen_registry_file() {
    let body = lockscreen_reg("C:\\ProgramData\\Wowl\\lockscreen.jpg");
    assert_eq!(
        body,
        "Windows Registry Editor Version 5.00\r\n\r\n\
[HKEY_LOCAL_MACHINE\\SOFTWARE\\Microsoft\\Windows\\CurrentVersion\\PersonalizationCSP]\r\n\
\"LockScreenImagePath\"=\"C:\\\\ProgramData\\\\Wowl\\\\lockscreen.jpg\"\r\n\
\"LockScreenImageUrl\"=\"C:\\\\ProgramData\\\\Wowl\\\\lockscreen.jpg\"\r\n\
\"LockScreenImageStatus\"=dword:00000001\r\n"
    );
}

#[test]
fn lockscreen_import_command() {
    assert_eq!(
        lockscreen_import_script("C:\\ProgramData\\Wowl\\lockscreen.reg"),
        "try { $p = Start-Process reg -Verb RunAs -WindowStyle Hidden -PassThru -Wait \
         -ArgumentList 'import','\"C:\\ProgramData\\Wowl\\lockscreen.reg\"'; exit $p.ExitCode } catch { exit 1223 }"
    );
}

#[test]
fn lockscreen_reset_command() {
    assert_eq!(
        lockscreen_reset_script(),
        "try { $p = Start-Process reg -Verb RunAs -WindowStyle Hidden -PassThru -Wait \
        -ArgumentList 'delete','\"HKLM\\SOFTWARE\\Microsoft\\Windows\\CurrentVersion\\PersonalizationCSP\"','/f'; \
        exit $p.ExitCode } catch { exit 1223 }"
    );
}

#[test]
fn history_mime_round_trip() {
    for mime in ["image/png", "image/webp", "image/gif", "image/avif"] {
        assert_eq!(history_mime(Some(wowl::history::ext_for(mime))), mime);
    }
    assert_eq!(history_mime(Some(wowl::history::ext_for("image/jpeg"))), "image/jpg");
}

#[test]
fn elevation_exit_codes() {
    assert_eq!(lockscreen_outcome(Some(0)), Ok(()));
    assert_eq!(lockscreen_outcome(Some(1223)), Err("the elevation prompt was cancelled"));
    assert_eq!(
        lockscreen_outcome(Some(1)),
        Err("the registry import failed (Windows Pro/Enterprise required)")
    );
    assert_eq!(
        lockscreen_outcome(None),
        Err("the registry import failed (Windows Pro/Enterprise required)")
    );
    assert_eq!(reset_outcome(Some(0)), Ok(()));
    assert_eq!(reset_outcome(Some(1)), Ok(()));
    assert_eq!(reset_outcome(Some(1223)), Err("the elevation prompt was cancelled"));
    assert_eq!(reset_outcome(Some(5)), Err("could not reset the lock screen"));
    assert_eq!(reset_outcome(None), Err("could not reset the lock screen"));
}

#[test]
fn history_entry_becomes_current_photo() {
    let e = HistoryEntry {
        id: "bing-Owl".to_string(),
        provider: "bing".to_string(),
        photographer: "Ann".to_string(),
        photographer_url: Some("https://a".to_string()),
        source_url: None,
        image_url: "https://img".to_string(),
        file: "bing-Owl.jpg".to_string(),
        saved_at: "T".to_string(),
    };
    let p = photo_from_entry(&e);
    assert_eq!(p.id, "bing-Owl");
    assert_eq!(p.provider, "bing");
    assert_eq!((p.width, p.height), (0, 0));
    assert_eq!(p.photographer, "Ann");
    assert_eq!(p.photographer_url.as_deref(), Some("https://a"));
    assert_eq!(p.source_url, None);
    assert_eq!(p.image_url, "https://img");
    assert_eq!(p.download_trigger, None);
}

fn two_pixel_png() -> Vec<u8> {
    let mut img = image::RgbImage::new(2, 1);
    img.put_pixel(0, 0, image::Rgb([255, 0, 0]));
    img.put_pixel(1, 0, image::Rgb([0, 0, 255]));
    let mut out = std::io::Cursor::new(Vec::new());
    image::DynamicImage::ImageRgb8(img).write_to(&mut out, image::ImageFormat::Png).unwrap();
    out.into_inner()
}

fn current(bytes: Vec<u8>) -> CurrentImage {
    CurrentImage {
        photo: Photo {
            id: "x".to_string(),
            provider: "picsum".to_string(),
            width: 2,
            height: 1,
            photographer: String::new(),
            photographer_url: None,
            source_url: None,
            image_url: String::new(),
            download_trigger: None,
        },
        bytes,
        mime: "image/png".to_string(),
    }
}

#[test]
fn flip_mirrors_the_image_as_jpeg() {
    let mut cur = current(two_pixel_png());
    let url = flip_current(&mut cur).unwrap();
    assert_eq!(cur.mime, "image/jpeg");
    assert_eq!(cur.photo.id, "x");
    assert!(url.starts_with("data:image/jpeg;base64,"));
    assert_eq!(url, data_url("image/jpeg", &cur.bytes));
    let flipped = image::load_from_memory(&cur.bytes).unwrap().into_rgb8();
    assert_eq!(flipped.dimensions(), (2, 1));
    let left = flipped.get_pixel(0, 0);
    let right = flipped.get_pixel(1, 0);
    assert!(left[2] > left[0], "left pixel should now be blue: {left:?}");
    assert!(right[0] > right[2], "right pixel should now be red: {right:?}");
}

#[test]
fn flip_of_undecodable_bytes_keeps_the_image() {
    let mut cur = current(vec![1, 2, 3]);
    assert!(flip_current(&mut cur).is_err());
    assert_eq!(cur.bytes, vec![1, 2, 3]);
    assert_eq!(cur.mime, "image/png");
}

#[test]
fn file_extension_like_a_path() {
    assert_eq!(file_extension("bing-OHR.Lake.png").as_deref(), Some("png"));
    assert_eq!(file_extension("picsum-7.jpg").as_deref(), Some("jpg"));
    assert_eq!(file_extension("name.").as_deref(), Some(""));
    assert_eq!(file_extension("name"), None);
    assert_eq!(file_extension(".hidden"), None);
    assert_eq!(file_extension(".."), None);
    assert_eq!(file_extension("."), None);
    assert_eq!(file_extension(""), None);
}

#[test]
fn cached_file_read_back_with_its_type() {
    for mime in ["image/png", "image/webp", "image/gif", "image/avif"] {
        let name = wowl::history::file_name("unsplash-Ab.1", mime);
        assert_eq!(history_mime(file_extension(&name).as_deref()), mime);
    }
    let name = wowl::history::file_name("", "image/png");
    assert_eq!(name, ".png");
    assert_eq!(history_mime(file_extension(&name).as_deref()), "image/jpeg");
}
