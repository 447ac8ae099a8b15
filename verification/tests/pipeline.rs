//! The strategy chain on concrete runs: listings, sniffing, and the
//! generation state machine.

use base64::Engine;
use thumbcache::archive::{last_token, listing_names, select_from_listing, select_preview_entry};
use thumbcache::error::GenError;
use thumbcache::pipeline::{sniff, thumb_name, GenCmd, GenJob, SniffedKind};

fn png_bytes() -> Vec<u8> {
    let img = image::RgbImage::from_pixel(3, 2, image::Rgb([10, 200, 30]));
    let mut buf = Vec::new();
    image::DynamicImage::ImageRgb8(img)
        .write_to(&mut std::io::Cursor::new(&mut buf), image::ImageFormat::Png)
        .unwrap();
    buf
}

#[test]
fn last_token_takes_the_final_column() {
    assert_eq!(last_token(b"  1024  2024-01-01 10:00  img/preview.png"),
        Some(b"img/preview.png".to_vec()));
    assert_eq!(last_token(b"   "), None);
    assert_eq!(last_token(b"single"), Some(b"single".to_vec()));
}

#[test]
fn listing_names_take_one_per_line() {
    let out = b"Archive:  draw.cdr\n  Length  Date  Name\n  100  x  a.png\n  200  y  b.txt\n";
    let names = listing_names(out);
    assert_eq!(names, vec![
        b"draw.cdr".to_vec(),
        b"Name".to_vec(),
        b"a.png".to_vec(),
        b"b.txt".to_vec(),
    ]);
}

#[test]
fn selection_prefers_a_preview_entry() {
    let names: Vec<Vec<u8>> = vec![b"image1.png".to_vec(), b"preview.png".to_vec()];
    assert_eq!(select_preview_entry(&names), Some(b"preview.png".to_vec()));
}

#[test]
fn selection_falls_back_to_the_first_image() {
    let names: Vec<Vec<u8>> = vec![b"notes.txt".to_vec(), b"a.BMP".to_vec(), b"b.jpg".to_vec()];
    assert_eq!(select_preview_entry(&names), Some(b"a.BMP".to_vec()));
    let none: Vec<Vec<u8>> = vec![b"notes.txt".to_vec()];
    assert_eq!(select_preview_entry(&none), None);
}

#[test]
fn selection_reads_the_listing() {
    let out = b" 10 x image1.png\n 20 y preview.png\n";
    assert_eq!(select_from_listing(out), Some(b"preview.png".to_vec()));
}

#[test]
fn sniffing_reads_magic_bytes() {
    assert_eq!(sniff(b"8BPS\x00\x01\x00\x02"), Some(SniffedKind::Psd));
    assert_eq!(sniff(b"%PDF-1.7\n"), Some(SniffedKind::Pdf));
    assert_eq!(sniff(b"PK\x03\x04rest"), Some(SniffedKind::Zip));
    assert_eq!(sniff(b"RIFFxxxx"), Some(SniffedKind::Riff));
    assert_eq!(sniff(b"GIF89a"), None);
}

#[test]
fn thumb_names_append_png() {
    assert_eq!(thumb_name(b"logo.psd"), b"logo.psd.png".to_vec());
}

#[test]
fn missing_source_fails_at_once() {
    let (job, cmd) = GenJob::new(b"/r/gone.psd".to_vec(), false, None);
    let _ = &job;
    assert!(matches!(cmd, GenCmd::Finish { result: Err(GenError::NotFound) }));
}

#[test]
fn cache_hit_short_circuits_and_repeats_identically() {
    let cached = b"not even an image, returned as stored".to_vec();
    let expected = format!(
        "data:image/webp;base64,{}",
        base64::engine::general_purpose::STANDARD.encode(&cached)
    );

    let (mut job, cmd) = GenJob::new(b"/r/a.jpg".to_vec(), true, Some(7));
    assert!(matches!(cmd, GenCmd::ReadCache { .. }));
    let first = match job.on_cache(Some(cached.clone())) {
        GenCmd::Finish { result: Ok(uri) } => uri,
        _ => panic!("a cache hit must finish at once"),
    };
    assert_eq!(first, expected);

    let (mut job2, _) = GenJob::new(b"/r/a.jpg".to_vec(), true, Some(7));
    let second = match job2.on_cache(Some(cached)) {
        GenCmd::Finish { result: Ok(uri) } => uri,
        _ => panic!("a cache hit must finish at once"),
    };
    assert_eq!(first, second);
}

#[test]
fn renderer_route_produces_a_webp_data_uri() {
    let (mut job, cmd) = GenJob::new(b"/r/file.psd".to_vec(), true, Some(3));
    assert!(matches!(cmd, GenCmd::ReadCache { .. }));
    match job.on_cache(None) {
        GenCmd::Render { alias_name, target_name } => {
            assert!(alias_name.is_none());
            assert_eq!(target_name, b"file.psd".to_vec());
        }
        _ => panic!("a plain extension goes straight to the renderer"),
    }
    match job.on_render(true) {
        GenCmd::ReadThumb { file_name } => assert_eq!(file_name, b"file.psd.png".to_vec()),
        _ => panic!("a successful render is followed by the output read"),
    }
    let png = png_bytes();
    match job.on_thumb(Some(png.clone())) {
        GenCmd::Store { webp, result } => {
            assert_ne!(webp, png);
            assert!(webp.starts_with(b"RIFF"));
            assert_eq!(&webp[8..12], b"WEBP");
            let expected = format!(
                "data:image/webp;base64,{}",
                base64::engine::general_purpose::STANDARD.encode(&webp)
            );
            assert_eq!(result, expected);
            let reread = image::load_from_memory(&webp).unwrap();
            assert_eq!(reread.width(), 3);
            assert_eq!(reread.height(), 2);
        }
        _ => panic!("render output must be stored"),
    }
}

#[test]
fn failed_render_surfaces_the_tool_error() {
    let (mut job, _) = GenJob::new(b"/r/file.ai".to_vec(), true, Some(3));
    let _ = job.on_cache(None);
    match job.on_render(false) {
        GenCmd::Finish { result: Err(GenError::ExternalTool(_)) } => {}
        _ => panic!("a failed render ends the job"),
    }
}

#[test]
fn missing_render_output_surfaces_the_tool_error() {
    let (mut job, _) = GenJob::new(b"/r/file.ai".to_vec(), true, Some(3));
    let _ = job.on_cache(None);
    let _ = job.on_render(true);
    match job.on_thumb(None) {
        GenCmd::Finish { result: Err(GenError::ExternalTool(_)) } => {}
        _ => panic!("missing output ends the job"),
    }
}

#[test]
fn undecodable_bytes_surface_a_decode_error() {
    let (mut job, _) = GenJob::new(b"/r/file.eps".to_vec(), true, Some(3));
    let _ = job.on_cache(None);
    let _ = job.on_render(true);
    match job.on_thumb(Some(b"garbage, not an image".to_vec())) {
        GenCmd::Finish { result: Err(GenError::Decode(_)) } => {}
        _ => panic!("undecodable output is a decode error"),
    }
}

#[test]
fn container_path_lists_the_archive_first() {
    let (mut job, _) = GenJob::new(b"/r/draw.CDR".to_vec(), true, Some(3));
    assert!(matches!(job.on_cache(None), GenCmd::ListArchive));
    match job.on_listing(Some(b" 10 x image1.png\n 20 y preview.png\n".to_vec())) {
        GenCmd::ExtractEntry { name } => assert_eq!(name, b"preview.png".to_vec()),
        _ => panic!("a usable listing selects an entry"),
    }
    let png = png_bytes();
    match job.on_entry(Some(png)) {
        GenCmd::Store { webp, result } => {
            assert!(webp.starts_with(b"RIFF"));
            assert!(result.starts_with("data:image/webp;base64,"));
        }
        _ => panic!("extracted bytes must be stored"),
    }
}

#[test]
fn extensionless_archive_is_sniffed_then_listed() {
    let (mut job, _) = GenJob::new(b"/r/bundle".to_vec(), true, Some(3));
    assert!(matches!(job.on_cache(None), GenCmd::ReadHead));
    assert!(matches!(job.on_head(Some(b"PK\x03\x04body".to_vec())), GenCmd::ListArchive));
    match job.on_listing(Some(b"no images here\n".to_vec())) {
        GenCmd::Render { alias_name, target_name } => {
            assert_eq!(alias_name, Some(b"bundle.zip".to_vec()));
            assert_eq!(target_name, b"bundle.zip".to_vec());
        }
        _ => panic!("an unusable listing falls through to the renderer"),
    }
}

#[test]
fn extensionless_document_gets_an_alias() {
    let (mut job, _) = GenJob::new(b"/r/poster".to_vec(), true, Some(3));
    assert!(matches!(job.on_cache(None), GenCmd::ReadHead));
    match job.on_head(Some(b"8BPS\x00\x01\x00\x02".to_vec())) {
        GenCmd::Render { alias_name, target_name } => {
            assert_eq!(alias_name, Some(b"poster.psd".to_vec()));
            assert_eq!(target_name, b"poster.psd".to_vec());
        }
        _ => panic!("a sniffed document goes to the renderer under an alias"),
    }
}

#[test]
fn unreadable_head_renders_without_alias() {
    let (mut job, _) = GenJob::new(b"/r/mystery".to_vec(), true, Some(3));
    assert!(matches!(job.on_cache(None), GenCmd::ReadHead));
    match job.on_head(None) {
        GenCmd::Render { alias_name, target_name } => {
            assert!(alias_name.is_none());
            assert_eq!(target_name, b"mystery".to_vec());
        }
        _ => panic!("an unreadable head still goes to the renderer"),
    }
}

#[test]
fn failed_extraction_falls_through_to_the_renderer() {
    let (mut job, _) = GenJob::new(b"/r/draw.cdr".to_vec(), true, Some(3));
    let _ = job.on_cache(None);
    let _ = job.on_listing(Some(b" 10 x preview.png\n".to_vec()));
    match job.on_entry(None) {
        GenCmd::Render { alias_name, target_name } => {
            assert!(alias_name.is_none());
            assert_eq!(target_name, b"draw.cdr".to_vec());
        }
        _ => panic!("a failed extraction falls through"),
    }
}

#[test]
fn error_messages_name_the_cause() {
    let m = GenError::NotFound.message();
    assert_eq!(m, "file not found");
    let m = GenError::ExternalTool(String::from("it broke")).message();
    assert_eq!(m, "external renderer: it broke");
    let m = GenError::Decode(String::from("bad magic")).message();
    assert_eq!(m, "could not decode image: bad magic");
    let m = GenError::Encode(String::from("no sink")).message();
    assert_eq!(m, "could not encode preview: no sink");
}

#[test]
fn listings_with_carriage_returns_still_parse() {
    let out = b" 10 x image1.png\r\n 20 y preview.png\r\n";
    assert_eq!(select_from_listing(out), Some(b"preview.png".to_vec()));
    assert_eq!(listing_names(b"a\r\nb\r"), vec![b"a".to_vec(), b"b".to_vec()]);
}
