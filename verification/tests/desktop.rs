use lan_mouse::html::{is_image_only_html, is_image_wrapper};
use lan_mouse::image_data::validate_image_dimensions;
use lan_mouse::os_linux::{
    copy_sources, file_sources, owner_change, parse_mime_list, CopyMime, CopySource, CopyTask,
    SelectionReader, MAX_PAYLOAD,
};
use lan_mouse::os_windows::{
    available_mime_types, bitmap_to_png, check_payload, conversion_result, image_write, plan_write,
    read_kind, read_result, ClipboardRead, ClipboardWrite, EchoSuppressor, ImageFailure, ReadKind,
    WriteError,
};
use lan_mouse::task::ClipboardItem;
use lan_mouse::uri_list::{build_uri_list, parse_uri_list};

fn strings(list: &[&str]) -> Vec<String> {
    list.iter().map(|s| s.to_string()).collect()
}

fn png_header(width: u32, height: u32) -> Vec<u8> {
    let mut data = b"\x89PNG\r\n\x1a\n\0\0\0\rIHDR".to_vec();
    data.extend_from_slice(&width.to_be_bytes());
    data.extend_from_slice(&height.to_be_bytes());
    data
}

fn item(mime_type: &str, data: Vec<u8>) -> ClipboardItem {
    ClipboardItem { mime_type: mime_type.to_string(), data }
}

#[test]
fn image_dimensions() {
    assert_eq!(validate_image_dimensions(&png_header(8192, 8192)), Ok(()));
    assert_eq!(
        validate_image_dimensions(&png_header(8193, 7)),
        Err("Image dimensions exceed 8192x8192 (8193x7)".to_string())
    );
    assert_eq!(
        validate_image_dimensions(&png_header(0, u32::MAX)),
        Err("Image dimensions exceed 8192x8192 (0x4294967295)".to_string())
    );
    assert_eq!(validate_image_dimensions(&png_header(9000, 9000)[..23]), Ok(()));
    let mut other = png_header(9000, 9000);
    other[1] = b'Q';
    assert_eq!(validate_image_dimensions(&other), Ok(()));
    assert_eq!(validate_image_dimensions(&[]), Ok(()));
}

#[test]
fn image_only_html() {
    assert!(is_image_only_html("<img src=\"a\">"));
    assert!(is_image_only_html("<HTML><body>\n <IMG SRC='a'>&nbsp;&#160;\u{a0}</body></HTML>"));
    assert!(!is_image_only_html("<img src=\"a\">text"));
    assert!(!is_image_only_html("<p></p>"));
    for tag in ["<img>", "<IMG>", "<img/>", "<img\n>", "<img\tsrc='a'>", "<Img\r\n/>", "<p><img></p>"] {
        assert!(is_image_only_html(tag), "{tag}");
    }
    for tag in ["<imgs>", "<image >", "< img>", "<img", "img>", "<img-x>", ""] {
        assert!(!is_image_only_html(tag), "{tag}");
    }
    assert!(!is_image_only_html("<img>text"));
    assert!(is_image_only_html("<IMG ALT='\u{c4}\u{130}\u{212a}'>"));
    assert!(is_image_only_html("<p title='\u{39f}\u{3a3}'><IMG></p>"));
    assert!(!is_image_only_html("<\u{130}mg>"));
    assert!(is_image_only_html("<img a < unfinished text"));
    // What removing one escape leaves over may be the other.
    assert!(is_image_only_html("<img a>&#1&nbsp;60;"));
    assert!(!is_image_only_html("<img a>&nb&#160;sp;"));
    assert!(!is_image_only_html("<img a>ÄÖ"));
}

#[test]
fn html_is_judged_by_its_lower_case_form() {
    assert!(is_image_wrapper("<img ", "<anything>"));
    assert!(is_image_wrapper("<img>", "<anything>"));
    assert!(!is_image_wrapper("<IMG>", "<img>"));
    assert!(!is_image_wrapper("<anything>", "<img a>"));
}

#[test]
fn uri_lists() {
    let list = b"file:///a%20b\r\n# comment\r\n  file:///c  \nhttp://x\nfile://";
    assert_eq!(parse_uri_list(list), strings(&["/a b", "/c", ""]));
    assert!(parse_uri_list(b"file:///\xFF").is_empty());
    assert!(parse_uri_list(b"").is_empty());
    assert_eq!(
        build_uri_list(&strings(&["/a b", "/c"])),
        "file:///a%20b\r\nfile:///c\r\n".to_string()
    );
    assert_eq!(build_uri_list(&vec![]), "");
}

#[test]
fn uri_lists_read_back() {
    let paths = strings(&["/x y/z ", " ", "", "/% 20", "/ü%2", "/a\rb"]);
    assert_eq!(parse_uri_list(build_uri_list(&paths).as_bytes()), paths);
    // An escape in a path is not told from that of a space.
    let escaped = strings(&["/a%20b"]);
    assert_eq!(
        parse_uri_list(build_uri_list(&escaped).as_bytes()),
        strings(&["/a b"])
    );
}

#[test]
fn mime_lists() {
    assert_eq!(
        parse_mime_list(b"text/html\r\n\n  image/png \n"),
        strings(&["text/html", "image/png"])
    );
    assert_eq!(parse_mime_list(b" \n"), strings(&["text/plain"]));
    assert_eq!(parse_mime_list(b"a\xFF"), strings(&["text/plain"]));
}

#[test]
fn sources_for_wayland() {
    let items = vec![
        item("text/plain", vec![1]),
        item("image/png", png_header(9000, 1)),
        item("image/png", png_header(1, 1)),
        item("application/x", png_header(9000, 1)),
    ];
    assert_eq!(
        copy_sources(items),
        vec![
            CopySource { mime: CopyMime::Text, data: vec![1] },
            CopySource { mime: CopyMime::Specific("image/png".into()), data: png_header(1, 1) },
            CopySource {
                mime: CopyMime::Specific("application/x".into()),
                data: png_header(9000, 1)
            },
        ]
    );
}

#[test]
fn sources_for_files() {
    let sources = file_sources(&strings(&["/a b"]));
    let list = b"file:///a%20b\r\n".to_vec();
    let named = |name: &str, data: Vec<u8>| CopySource {
        mime: CopyMime::Specific(name.to_string()),
        data,
    };
    assert_eq!(
        sources,
        vec![
            named("text/uri-list", list.clone()),
            named("application/x-kde4-urilist", list),
            named("application/vnd.portal.filetransfer", vec![]),
        ]
    );
}

#[test]
fn selections_are_collected_up_to_the_limit() {
    let mut reader = SelectionReader::new();
    reader.push(&[1, 2]).unwrap();
    reader.push(&[3]).unwrap();
    assert_eq!(reader.finish("text/plain"), Ok(vec![1, 2, 3]));

    let mut reader = SelectionReader::new();
    reader.push(&vec![0; MAX_PAYLOAD]).unwrap();
    assert_eq!(reader.push(&[0]), Err("Clipboard data exceeds 100MB limit".to_string()));
    assert_eq!(reader.push(&[]), Ok(()));

    let mut reader = SelectionReader::new();
    reader.push(&png_header(1, 9000)).unwrap();
    assert_eq!(
        reader.finish("image/jpeg"),
        Err("Image dimensions exceed 8192x8192 (1x9000)".to_string())
    );
    let mut reader = SelectionReader::new();
    reader.push(&png_header(1, 9000)).unwrap();
    assert_eq!(reader.finish("text/plain"), Ok(png_header(1, 9000)));
}

#[test]
fn changes_while_our_data_is_served_are_echoes() {
    assert_eq!(owner_change(CopyTask::Serving), (true, CopyTask::Serving));
    assert_eq!(owner_change(CopyTask::Finished), (false, CopyTask::Idle));
    assert_eq!(owner_change(CopyTask::Idle), (false, CopyTask::Idle));
}

#[test]
fn echoes_on_windows() {
    let mut suppressor = EchoSuppressor::new();
    assert!(!suppressor.check_and_clear_echo(3));
    suppressor.prepare_write();
    assert!(suppressor.check_and_clear_echo(4));
    assert!(suppressor.check_and_clear_echo(5));
    suppressor.record_write(6);
    assert!(suppressor.check_and_clear_echo(6));
    assert!(!suppressor.check_and_clear_echo(6));
    suppressor.record_write(7);
    assert!(!suppressor.check_and_clear_echo(8));
    assert!(!suppressor.check_and_clear_echo(7));
}

/// A bitmap file of one red pixel.
fn red_bitmap() -> Vec<u8> {
    let mut data = b"BM".to_vec();
    data.extend_from_slice(&58u32.to_le_bytes());
    data.extend_from_slice(&[0; 4]);
    data.extend_from_slice(&54u32.to_le_bytes());
    data.extend_from_slice(&40u32.to_le_bytes());
    data.extend_from_slice(&1u32.to_le_bytes());
    data.extend_from_slice(&1u32.to_le_bytes());
    data.extend_from_slice(&1u16.to_le_bytes());
    data.extend_from_slice(&24u16.to_le_bytes());
    data.extend_from_slice(&[0; 24]);
    data.extend_from_slice(&[0, 0, 255, 0]);
    data
}

#[test]
fn writes_on_windows() {
    assert_eq!(
        plan_write("text/plain", "hé".as_bytes().to_vec()),
        Ok(ClipboardWrite::Text("hé".to_string()))
    );
    assert_eq!(plan_write("text/plain", vec![0xFF]), Err(WriteError::NotText(vec![0xFF])));
    match plan_write("text/html", b"<b>".to_vec()) {
        Ok(ClipboardWrite::Html(data)) => {
            assert_eq!(lan_mouse::cf_html::decode_cf_html(&data), Ok(b"<b>".to_vec()))
        }
        other => panic!("{other:?}"),
    }
    assert_eq!(
        plan_write("video/mp4", vec![]),
        Err(WriteError::Unsupported("Unsupported MIME type: video/mp4".to_string()))
    );
}

#[test]
fn images_are_written_as_bitmaps() {
    let png = bitmap_to_png(&red_bitmap()).unwrap();
    assert_eq!(&png[..8], b"\x89PNG\r\n\x1a\n");
    match plan_write("image/png", png.clone()) {
        Ok(ClipboardWrite::Image { png: Some(kept), bitmap: Some(bitmap) }) => {
            assert_eq!(kept, png);
            assert_eq!(&bitmap[..2], b"BM");
            // Four bytes for the size of one padded row of one pixel, at the end.
            assert_eq!(&bitmap[bitmap.len() - 4..bitmap.len() - 1], &[0, 0, 255]);
        }
        other => panic!("{other:?}"),
    }
    match plan_write("image/jpeg", png) {
        Ok(ClipboardWrite::Image { png: None, bitmap: Some(_) }) => {}
        other => panic!("{other:?}"),
    }
    assert_eq!(
        plan_write("image/png", vec![1, 2, 3]),
        Ok(ClipboardWrite::Image { png: Some(vec![1, 2, 3]), bitmap: None })
    );
    assert_eq!(
        image_write("image/gif", vec![1], Some(vec![2])),
        ClipboardWrite::Image { png: None, bitmap: Some(vec![2]) }
    );
}

#[test]
fn the_first_bytes_of_an_image_tell_its_format() {
    let red = image::load_from_memory_with_format(&red_bitmap(), image::ImageFormat::Bmp).unwrap();
    let mut file = std::io::Cursor::new(Vec::new());
    red.write_to(&mut file, image::ImageFormat::Jpeg).unwrap();
    let jpeg = file.into_inner();
    assert_eq!(&jpeg[..3], &[0xFF, 0xD8, 0xFF]);
    match plan_write("image/png", jpeg.clone()) {
        Ok(ClipboardWrite::Image { png: Some(kept), bitmap: Some(bitmap) }) => {
            assert_eq!(kept, jpeg);
            assert_eq!(&bitmap[..2], b"BM");
        }
        other => panic!("{other:?}"),
    }
    // A bitmap is converted as well.
    match plan_write("image/bmp", red_bitmap()) {
        Ok(ClipboardWrite::Image { png: None, bitmap: Some(bitmap) }) => {
            assert_eq!(&bitmap[..2], b"BM");
        }
        other => panic!("{other:?}"),
    }
    // A format that is known but not supported is not.
    assert_eq!(
        plan_write("image/gif", b"GIF89a".to_vec()),
        Ok(ClipboardWrite::Image { png: None, bitmap: None })
    );
}

#[test]
fn bitmaps_that_cannot_be_converted() {
    let message = bitmap_to_png(b"no bitmap").unwrap_err();
    assert!(message.starts_with("Failed to parse CF_DIB as BMP: "));
    assert!(message.len() > "Failed to parse CF_DIB as BMP: ".len());
    assert_eq!(
        conversion_result(Err(ImageFailure::Parse("x".into()))),
        Err("Failed to parse CF_DIB as BMP: x".to_string())
    );
    assert_eq!(
        conversion_result(Err(ImageFailure::Encode("y".into()))),
        Err("Failed to encode image to PNG: y".to_string())
    );
    assert_eq!(conversion_result(Ok(vec![1])), Ok(vec![1]));
}

#[test]
fn reads_on_windows() {
    assert_eq!(read_kind("text/plain"), Ok(ReadKind::Text));
    assert_eq!(read_kind("text/html"), Ok(ReadKind::Html));
    assert_eq!(read_kind("image/png"), Ok(ReadKind::Image));
    assert_eq!(read_kind("image/jpeg"), Ok(ReadKind::Image));
    assert_eq!(read_kind("image/gif"), Err("Unsupported MIME type: image/gif".to_string()));
    assert_eq!(check_payload(vec![7]), Ok(vec![7]));
    assert!(check_payload(vec![0; MAX_PAYLOAD]).is_ok());
    assert_eq!(
        check_payload(vec![0; MAX_PAYLOAD + 1]),
        Err("Clipboard data exceeds 10MB limit".to_string())
    );
}

#[test]
fn what_is_read_on_windows_is_sent() {
    assert_eq!(read_result(ClipboardRead::Text("hé".into())), Ok("hé".as_bytes().to_vec()));
    let html = lan_mouse::cf_html::encode_cf_html(b"<b>");
    assert_eq!(read_result(ClipboardRead::Html(html)), Ok(b"<b>".to_vec()));
    assert_eq!(
        read_result(ClipboardRead::Html(b"<b>".to_vec())),
        Err("Malformed CF_HTML or invalid fragment offsets".to_string())
    );
    assert_eq!(read_result(ClipboardRead::Png(vec![1])), Ok(vec![1]));
    assert_eq!(read_result(ClipboardRead::Bitmap(red_bitmap())), bitmap_to_png(&red_bitmap()));
    assert!(read_result(ClipboardRead::Bitmap(vec![1])).is_err());
    assert_eq!(
        read_result(ClipboardRead::Png(vec![0; MAX_PAYLOAD + 1])),
        Err("Clipboard data exceeds 10MB limit".to_string())
    );
}

#[test]
fn formats_on_windows() {
    let formats = vec![17, 13, 1, 50000, 8, 50001, 99];
    assert_eq!(
        available_mime_types(&formats, Some(50000), Some(50001)),
        strings(&["image/png", "text/plain", "text/html"])
    );
    assert_eq!(available_mime_types(&formats, None, None), strings(&["image/png", "text/plain"]));
    assert_eq!(available_mime_types(&vec![2, 3], None, Some(3)), strings(&["image/png"]));
    assert_eq!(available_mime_types(&vec![2], None, None), strings(&["text/plain"]));
}
