use image::{DynamicImage, RgbaImage};
use imgview::anim::{clamp_delay, decode_route, use_animation, AnimCollector, AnimFrame, DecodeRoute, Loaded};
use imgview::budget::{anim_budget_bytes, parse_u64, ANIM_RAM_BUDGET_MB};
use imgview::listing::select_images;
use imgview::paths::{ext_of, file_name_string, is_image, is_jpeg};
use imgview::picture::{fit_for_texture, make_thumbnail, normalize_angle, rotate_image, texture_side, Picture};
use imgview::text::middle_ellipsis;
use imgview::viewer::{start_index, SavePlan, Shown, ThumbState, Viewer};

fn picture(w: u32, h: u32) -> Picture {
    Picture::new(DynamicImage::ImageRgba8(RgbaImage::new(w, h)))
}

// ---- tests carried over ----

#[test]
fn only_decodable_extensions_are_offered() {
    assert!(!is_image("photo.avif"));
    assert!(is_image("photo.ff"));
    assert!(!is_image("photo.farbfeld"));
    assert!(is_image("photo.JPG"));
    assert!(is_image("photo.png"));
    assert!(!is_image("notes.txt"));
    assert!(!is_image("noextension"));
}

#[test]
fn jpeg_detection_is_case_insensitive() {
    assert!(is_jpeg("a.jpg"));
    assert!(is_jpeg("a.JPEG"));
    assert!(!is_jpeg("a.png"));
}

#[test]
fn middle_ellipsis_keeps_the_extension() {
    assert_eq!(middle_ellipsis("short.png", 16), "short.png");
    let out = middle_ellipsis("a-very-long-file-name-indeed.jpeg", 16);
    assert_eq!(out.chars().count(), 16);
    assert!(out.starts_with('a') && out.ends_with("jpeg"));
    assert_eq!(middle_ellipsis("abc", 1), "…");
    assert_eq!(middle_ellipsis("ααααααααββββββββ.png", 8).chars().count(), 8);
}

#[test]
fn anim_budget_defaults_to_one_gib() {
    assert_eq!(ANIM_RAM_BUDGET_MB, 1024);
    assert_eq!(anim_budget_bytes(None), 1024 * 1024 * 1024);
    assert_eq!(anim_budget_bytes(Some("nonsense")), 1024 * 1024 * 1024);
    assert_eq!(anim_budget_bytes(Some("32")), 32 * 1024 * 1024);
}

// ---- paths ----

#[test]
fn extension_follows_the_last_dot_of_the_file_name() {
    assert_eq!(ext_of("dir/photo.JPG"), "jpg");
    assert_eq!(ext_of("archive.tar.GZ"), "gz");
    assert_eq!(ext_of(".bashrc"), "");
    assert_eq!(ext_of("name."), "");
    assert_eq!(ext_of("dir.d/noext"), "");
    assert_eq!(ext_of("dir/photo.png/"), "png");
    assert_eq!(ext_of("dir/photo.png/."), "png");
    assert_eq!(ext_of("dir/.."), "");
    assert_eq!(ext_of("/"), "");
    assert_eq!(ext_of(""), "");
    assert_eq!(ext_of("..."), "");
}

#[test]
fn file_name_is_the_last_component() {
    assert_eq!(file_name_string("/home/u/Pictures/cat.png"), "cat.png");
    assert_eq!(file_name_string("cat.png"), "cat.png");
    assert_eq!(file_name_string("a/b//"), "b");
    assert_eq!(file_name_string("a/.."), "");
    assert_eq!(file_name_string("."), "");
}

#[test]
fn image_check_ignores_case() {
    assert!(is_image("x/Photo.TiFf"));
    assert!(is_image("x/photo.tiff"));
    assert!(is_image("Scan.QOI"));
    assert!(!is_image("x/photo.tiff/.."));
}

// ---- text ----

#[test]
fn middle_ellipsis_splits_evenly() {
    assert_eq!(middle_ellipsis("abcdefghij", 5), "ab…ij");
    assert_eq!(middle_ellipsis("abcdefghij", 6), "abc…ij");
    assert_eq!(middle_ellipsis("abcdefghij", 2), "a…");
    assert_eq!(middle_ellipsis("abcdefghij", 0), "");
    assert_eq!(middle_ellipsis("abcdefghij", 10), "abcdefghij");
    assert_eq!(middle_ellipsis("", 0), "");
}

// ---- budget ----

#[test]
fn budget_override_is_trimmed_and_saturates() {
    assert_eq!(anim_budget_bytes(Some("  7 \n")), 7 * 1024 * 1024);
    assert_eq!(anim_budget_bytes(Some("+2")), 2 * 1024 * 1024);
    assert_eq!(anim_budget_bytes(Some("-2")), 1024 * 1024 * 1024);
    assert_eq!(anim_budget_bytes(Some("")), 1024 * 1024 * 1024);
    assert_eq!(anim_budget_bytes(Some("0")), 0);
    assert_eq!(anim_budget_bytes(Some("18446744073709551615")), u64::MAX);
    assert_eq!(anim_budget_bytes(Some("18446744073709551616")), 1024 * 1024 * 1024);
    assert_eq!(anim_budget_bytes(Some("\u{3000}5\u{a0}")), 5 * 1024 * 1024);
}

#[test]
fn parse_matches_std() {
    for s in ["0", "42", "+42", "+", "-1", "", " 1", "1 ", "007", "18446744073709551615", "18446744073709551616", "1a"] {
        assert_eq!(parse_u64(s), s.parse::<u64>().ok(), "input {s:?}");
    }
}

// ---- listing ----

#[test]
fn listing_keeps_images_sorted_case_insensitively() {
    let raw = vec![
        (1, "d/b.png".to_string()),
        (2, "d/notes.txt".to_string()),
        (3, "d/A.jpg".to_string()),
        (4, "d/c.GIF".to_string()),
        (5, "e/a.jpg".to_string()),
        (6, "d/B.PNG".to_string()),
    ];
    let out = select_images(raw);
    let ids: Vec<i32> = out.iter().map(|e| e.0).collect();
    // equal keys keep their listing order: A.jpg before a.jpg, b.png before B.PNG
    assert_eq!(ids, vec![3, 5, 1, 6, 4]);
}

#[test]
fn listing_of_no_images_is_empty() {
    let raw = vec![((), "x.txt".to_string()), ((), "y".to_string())];
    assert!(select_images(raw).is_empty());
}

#[test]
fn start_index_picks_the_first_match() {
    assert_eq!(start_index(&vec![]), 0);
    assert_eq!(start_index(&vec![false, false]), 0);
    assert_eq!(start_index(&vec![false, true, true]), 1);
}

// ---- animation ----

#[test]
fn short_delays_are_stretched() {
    assert_eq!(clamp_delay(0), 100_000_000);
    assert_eq!(clamp_delay(19_999_999), 100_000_000);
    assert_eq!(clamp_delay(20_000_000), 20_000_000);
    assert_eq!(clamp_delay(70_000_000), 70_000_000);
}

#[test]
fn collector_keeps_every_frame_within_budget() {
    let mut c: AnimCollector<u8> = AnimCollector::new(1000);
    assert!(!c.add_frame(1, 10, 10, 0));
    assert!(!c.add_frame(2, 10, 10, 50_000_000));
    let loaded = c.finish();
    assert!(loaded.note.is_none());
    let delays: Vec<u64> = loaded.frames.iter().map(|f| f.delay_ns).collect();
    assert_eq!(delays, vec![100_000_000, 50_000_000]);
}

#[test]
fn collector_over_budget_keeps_first_frame_as_still() {
    let mut c: AnimCollector<u8> = AnimCollector::new(3 * 1024 * 1024);
    assert!(!c.add_frame(7, 512, 512, 40_000_000));
    assert!(!c.add_frame(8, 512, 512, 40_000_000));
    assert!(!c.add_frame(9, 512, 512, 40_000_000));
    assert!(c.add_frame(10, 512, 512, 40_000_000));
    let loaded = c.finish();
    assert_eq!(loaded.frames.len(), 1);
    assert_eq!(loaded.frames[0].image, 7);
    assert_eq!(loaded.frames[0].delay_ns, 0);
    assert_eq!(
        loaded.note.as_deref(),
        Some("animation over the 3 MiB cap (stopped at 4 frames) — first frame only")
    );
}

#[test]
fn collector_note_for_a_single_frame() {
    let mut c: AnimCollector<u8> = AnimCollector::new(0);
    assert!(c.add_frame(1, 1, 1, 0));
    let loaded = c.finish();
    assert_eq!(
        loaded.note.as_deref(),
        Some("animation over the 0 MiB cap (stopped at 1 frame) — first frame only")
    );
}

#[test]
fn decode_route_by_extension() {
    assert!(matches!(decode_route("a.GIF"), DecodeRoute::Gif));
    assert!(matches!(decode_route("a.webp"), DecodeRoute::WebP));
    assert!(matches!(decode_route("a.png"), DecodeRoute::Still));
    assert!(Loaded::<u8>::empty().is_empty());
    assert!(!Loaded::still(3u8).is_empty());
}

// ---- pictures ----

#[test]
fn rotation_swaps_sides_on_quarter_turns() {
    let p = picture(4, 2);
    let r = rotate_image(&p, 90);
    assert_eq!((r.width(), r.height()), (2, 4));
    let r = rotate_image(&p, -90);
    assert_eq!((r.width(), r.height()), (2, 4));
    let r = rotate_image(&p, 540);
    assert_eq!((r.width(), r.height()), (4, 2));
    assert_eq!(normalize_angle(-90), 270);
    assert_eq!(normalize_angle(720), 0);
}

#[test]
fn textures_fit_the_gpu_limit() {
    let p = picture(300, 100);
    let t = fit_for_texture(p, 150);
    assert!(t.width() <= 150 && t.height() <= 150);
    assert_eq!(t.width(), 150);
    let t = fit_for_texture(picture(100, 1000), 150);
    assert_eq!(t.height(), 150);
    assert!(t.width() >= 1 && t.width() <= 150);
    let small = fit_for_texture(picture(20, 10), 150);
    assert_eq!((small.width(), small.height()), (20, 10));
    assert_eq!(texture_side(0), 1);
    assert_eq!(texture_side(2048), 2048);
}

#[test]
fn thumbnails_fit_their_cell() {
    let t = make_thumbnail(&picture(192, 96));
    assert_eq!((t.width(), t.height()), (96, 48));
    let t = make_thumbnail(&picture(50, 20));
    assert_eq!(t.width(), 96);
    assert!(t.height() >= 1 && t.height() <= 96);
    let t = make_thumbnail(&picture(7, 300));
    assert_eq!(t.height(), 96);
    assert!(t.width() >= 1 && t.width() <= 96);
    let t = make_thumbnail(&picture(33, 33));
    assert_eq!((t.width(), t.height()), (96, 96));
    let t = make_thumbnail(&picture(0, 5));
    assert_eq!((t.width(), t.height()), (1, 96));
}

// ---- viewer ----

fn folder(v: &mut Viewer<u32, u8>, names: &[&str]) -> bool {
    let entries: Vec<(u32, String)> =
        names.iter().enumerate().map(|(i, n)| (i as u32, n.to_string())).collect();
    v.open_folder("dir", entries, 0)
}

#[test]
fn empty_folder_says_so() {
    let mut v: Viewer<u32, u8> = Viewer::new();
    assert!(!folder(&mut v, &[]));
    assert_eq!(v.status(), "No images in dir");
    assert!(v.frames().is_empty());
    assert_eq!(v.next_index(), None);
    assert_eq!(v.prev_index(), None);
}

#[test]
fn navigation_wraps_around() {
    let mut v: Viewer<u32, u8> = Viewer::new();
    assert!(folder(&mut v, &["d/a.png", "d/b.png", "d/c.png"]));
    assert_eq!(v.index(), 0);
    assert_eq!(v.prev_index(), Some(2));
    assert_eq!(v.next_index(), Some(1));
    assert!(matches!(v.show_loaded(2, Loaded::still(picture(2, 2))), Shown::Loaded));
    assert_eq!(v.next_index(), Some(0));
    assert_eq!(v.prev_index(), Some(1));
    assert!(matches!(v.show_loaded(7, Loaded::still(picture(2, 2))), Shown::Ignored));
    assert_eq!(v.index(), 2);
}

#[test]
fn shown_status_names_the_file_and_frames() {
    let mut v: Viewer<u32, u8> = Viewer::new();
    folder(&mut v, &["d/a.png", "d/b.gif"]);
    v.show_loaded(0, Loaded::still(picture(2, 2)));
    assert_eq!(v.status(), "a.png  [1/2]");
    assert_eq!(v.cur_name(), "a.png");
    let frames = vec![
        AnimFrame { image: picture(2, 2), delay_ns: 1 },
        AnimFrame { image: picture(2, 2), delay_ns: 1 },
    ];
    let loaded = Loaded { frames, note: Some("careful".to_string()) };
    v.show_loaded(1, loaded);
    assert_eq!(v.status(), "b.gif  [2/2]  ·  animated, 2 frames  ·  ⚠ careful");
    v.advance_frame();
    assert_eq!(v.cur_frame(), 1);
    v.advance_frame();
    assert_eq!(v.cur_frame(), 0);
}

#[test]
fn failed_decode_clears_the_view_and_cannot_be_saved() {
    let mut v: Viewer<u32, u8> = Viewer::new();
    folder(&mut v, &["d/a.png", "d/broken.png"]);
    v.show_loaded(0, Loaded::still(picture(4, 2)));
    assert!(v.rotate(90));
    assert_eq!(v.angle(), 90);
    assert!(matches!(v.show_loaded(1, Loaded::empty()), Shown::Failed));
    assert!(v.frames().is_empty());
    assert_eq!(v.angle(), 0);
    assert_eq!(v.status(), "Failed to open d/broken.png");
    assert!(!v.rotate(90));
    assert!(!v.rotate(-90));
    assert_eq!(v.angle(), 0);
    assert!(matches!(v.save_plan(), SavePlan::Nothing));
    assert_eq!(v.status(), "Nothing to save (image not rotated)");
    assert!(v.texture_picture(4096).is_none());
}

#[test]
fn rotation_save_flow() {
    let mut v: Viewer<u32, u8> = Viewer::new();
    folder(&mut v, &["d/a.JPG"]);
    v.show_loaded(0, Loaded::still(picture(4, 2)));
    assert!(matches!(v.save_plan(), SavePlan::Nothing));
    assert_eq!(v.status(), "Nothing to save (image not rotated)");
    v.rotate(-90);
    assert_eq!(v.angle(), 270);
    let t = v.texture_picture(4096).unwrap();
    assert_eq!((t.width(), t.height()), (2, 4));
    assert!(matches!(v.save_plan(), SavePlan::Write));
    let rotated = v.rotated_still();
    assert_eq!((rotated.width(), rotated.height()), (2, 4));
    v.saved(rotated, 5);
    assert_eq!(v.angle(), 0);
    assert_eq!(v.status(), "Saved rotation → a.JPG  (JPEG re-encoded, q95)");
    assert!(matches!(v.thumbs()[0], ThumbState::Ready(5)));
    v.save_failed("disk full");
    assert_eq!(v.status(), "Save failed: disk full");
}

#[test]
fn animations_cannot_be_saved() {
    let mut v: Viewer<u32, u8> = Viewer::new();
    folder(&mut v, &["d/a.gif"]);
    let frames = vec![
        AnimFrame { image: picture(2, 2), delay_ns: 1 },
        AnimFrame { image: picture(2, 2), delay_ns: 1 },
    ];
    v.show_loaded(0, Loaded::frames(frames));
    v.rotate(90);
    assert!(matches!(v.save_plan(), SavePlan::Nothing));
    assert_eq!(v.status(), "Save rotation isn't supported for animated images");
}

#[test]
fn quarter_turns_undo_each_other() {
    let mut v: Viewer<u32, u8> = Viewer::new();
    folder(&mut v, &["d/a.png"]);
    v.show_loaded(0, Loaded::still(picture(2, 2)));
    v.rotate(90);
    v.rotate(-90);
    assert_eq!(v.angle(), 0);
    for _ in 0..4 {
        v.rotate(90);
    }
    assert_eq!(v.angle(), 0);
}

#[test]
fn thumbnails_report_failure_explicitly() {
    let mut v: Viewer<u32, u8> = Viewer::new();
    folder(&mut v, &["d/a.png", "d/b.png"]);
    assert!(v.thumbs().iter().all(|t| matches!(t, ThumbState::Loading)));
    v.receive_thumb(0, Some(9));
    v.receive_thumb(1, None);
    v.receive_thumb(5, Some(1));
    assert!(matches!(v.thumbs()[0], ThumbState::Ready(9)));
    assert!(matches!(v.thumbs()[1], ThumbState::Failed));
    assert_eq!(v.thumbs().len(), 2);
}

#[test]
fn rotation_moves_pixels() {
    let mut buf = RgbaImage::new(2, 1);
    buf.put_pixel(0, 0, image::Rgba([1, 0, 0, 255]));
    buf.put_pixel(1, 0, image::Rgba([2, 0, 0, 255]));
    let p = Picture::new(DynamicImage::ImageRgba8(buf));
    let half = rotate_image(&p, 180).into_image().to_rgba8();
    assert_eq!(half.get_pixel(0, 0)[0], 2);
    assert_eq!(half.get_pixel(1, 0)[0], 1);
    let quarter = rotate_image(&p, 90).into_image().to_rgba8();
    assert_eq!(quarter.dimensions(), (1, 2));
    assert_eq!(quarter.get_pixel(0, 0)[0], 1);
    assert_eq!(quarter.get_pixel(0, 1)[0], 2);
    let same = rotate_image(&p, 45).into_image().to_rgba8();
    assert_eq!(same.get_pixel(0, 0)[0], 1);
}

#[test]
fn override_trimming_matches_std_whitespace() {
    for u in 0u32..0x3100 {
        let Some(c) = char::from_u32(u) else { continue };
        let text = format!("{c}5{c}");
        let expected = text.trim().parse::<u64>().unwrap_or(1024).saturating_mul(1024 * 1024);
        assert_eq!(anim_budget_bytes(Some(&text)), expected, "char U+{u:04X}");
    }
}

#[test]
fn file_names_and_extensions_match_std_paths() {
    let cases = [
        "", "/", ".", "..", "...", "a", "a.b", "a.b.c", ".a", ".a.b", "a.", "a..", "dir/", "dir//",
        "dir/.", "dir/./", "dir/..", "dir/../x.PNG", "/x/y.JpG", "./x.gif", "x/./y.Webp",
        "a/b.c/d", "a/b.c/", "//x.tiff", "name.tar.gz", "dir.d/file", "é/ü.PNG", "x/ y.png ",
    ];
    for p in cases {
        let path = std::path::Path::new(p);
        let want_name = path.file_name().map(|n| n.to_string_lossy().into_owned()).unwrap_or_default();
        assert_eq!(file_name_string(p), want_name, "file name of {p:?}");
        let want_ext = path
            .extension()
            .and_then(|e| e.to_str())
            .map(|e| e.to_ascii_lowercase())
            .unwrap_or_default();
        assert_eq!(ext_of(p), want_ext, "extension of {p:?}");
    }
}

#[test]
fn listing_order_matches_sort_by_lowercase_name() {
    let names = [
        "z.png", "B.jpg", "b.JPG", "a.txt", "Ä.png", "10.png", "9.png", "_x.gif", "a.PNG", "A.png",
        "ab.bmp", "a-b.bmp", "a b.bmp", ".hidden.png", "noext", "UPPER.TIFF", "upper.tif",
    ];
    let raw: Vec<(usize, String)> =
        names.iter().enumerate().map(|(i, n)| (i, format!("dir/{n}"))).collect();
    let mut want: Vec<(usize, String)> = raw
        .iter()
        .filter(|(_, p)| {
            let e = std::path::Path::new(p)
                .extension()
                .and_then(|e| e.to_str())
                .map(|e| e.to_ascii_lowercase())
                .unwrap_or_default();
            ["jpg", "jpeg", "png", "gif", "bmp", "webp", "tif", "tiff", "ppm", "pgm", "pbm", "pnm",
             "tga", "ico", "dds", "hdr", "exr", "qoi", "ff"]
                .contains(&e.as_str())
        })
        .cloned()
        .collect();
    want.sort_by_key(|(_, p)| std::path::Path::new(p).file_name().map(|n| n.to_ascii_lowercase()));
    let got = select_images(raw);
    assert_eq!(got, want);
}

#[test]
fn empty_animation_falls_back_to_a_still_decode() {
    assert!(use_animation::<u8>(None).is_none());
    assert!(use_animation(Some(Loaded::<u8>::empty())).is_none());
    let got = use_animation(Some(Loaded::still(4u8))).unwrap();
    assert_eq!(got.frames.len(), 1);
    assert_eq!(got.frames[0].image, 4);
}

#[test]
fn any_turn_is_undone_by_its_opposite() {
    let mut v: Viewer<u32, u8> = Viewer::new();
    folder(&mut v, &["d/a.png"]);
    v.show_loaded(0, Loaded::still(picture(4, 2)));
    for delta in [45, 90, -90, 370, -725, 1_000_000] {
        v.rotate(delta);
        v.rotate(-delta);
        assert_eq!(v.angle(), 0, "delta {delta}");
    }
    v.rotate(45);
    let t = v.texture_picture(4096).unwrap();
    assert_eq!((t.width(), t.height()), (4, 2));
}
