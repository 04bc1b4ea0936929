use hrdr::paste::{
    attachment_summary, clipboard_paste, media_candidates, media_extension, Clipboard,
    ClipboardPaste, FileProbe, MediaProbe, MediaType, MimeType, TextProbe,
};

fn clipboard() -> Clipboard {
    Clipboard {
        reads_images: true,
        reads_files: true,
        offered: vec![],
        media: vec![MediaProbe::Nothing],
        files: vec![],
        text: TextProbe::Nothing,
        backend: "mock".into(),
    }
}

fn custom(name: &str) -> MimeType {
    MimeType::Custom(name.into())
}

/// Image bytes and a text description are both there: the paste is for the image.
#[test]
fn prefers_image_bytes_over_the_text_beside_them() {
    let c = Clipboard {
        offered: vec![MimeType::Png, MimeType::Text],
        media: vec![MediaProbe::Attachable(MediaType::Png)],
        text: TextProbe::Text("a screenshot".into()),
        ..clipboard()
    };
    assert_eq!(
        clipboard_paste(Some(c), "pasted-1"),
        ClipboardPaste::Media(0, "pasted-1.png".into())
    );
}

/// An image is named for what its bytes are.
#[test]
fn names_a_pasted_image_after_the_type_its_bytes_sniff_as() {
    let offered = vec![custom("image/jpeg")];
    assert_eq!(media_candidates(&offered), vec![MimeType::Png, custom("image/jpeg")]);
    let c = Clipboard {
        offered,
        media: vec![MediaProbe::Nothing, MediaProbe::Attachable(MediaType::Jpeg)],
        ..clipboard()
    };
    assert_eq!(
        clipboard_paste(Some(c), "pasted-3"),
        ClipboardPaste::Media(1, "pasted-3.jpg".into())
    );
}

#[test]
fn text_alone_still_pastes_as_text() {
    let c = Clipboard {
        offered: vec![MimeType::Text],
        text: TextProbe::Text("just some words".into()),
        ..clipboard()
    };
    assert_eq!(
        clipboard_paste(Some(c), "pasted-1"),
        ClipboardPaste::Text("just some words".to_string())
    );
}

/// A file that was copied is taken under its own name.
#[test]
fn resolves_a_copied_file_uri_to_the_image_it_names() {
    let c = Clipboard {
        offered: vec![MimeType::UriList],
        files: vec![FileProbe::Attachable],
        ..clipboard()
    };
    assert_eq!(clipboard_paste(Some(c), "pasted-1"), ClipboardPaste::File(0));
}

/// A copied text file is no attachment.
#[test]
fn a_copied_non_image_file_falls_through_to_text() {
    let c = Clipboard {
        offered: vec![MimeType::UriList, MimeType::Text],
        files: vec![FileProbe::Other],
        text: TextProbe::Text("/tmp/note.txt".into()),
        ..clipboard()
    };
    assert_eq!(
        clipboard_paste(Some(c), "pasted-1"),
        ClipboardPaste::Text("/tmp/note.txt".to_string())
    );
}

#[test]
fn refuses_an_image_type_it_cannot_attach() {
    let c = Clipboard {
        offered: vec![custom("image/bmp")],
        media: vec![MediaProbe::Nothing, MediaProbe::Foreign],
        ..clipboard()
    };
    match clipboard_paste(Some(c), "pasted-1") {
        ClipboardPaste::Refused(why) => assert!(why.contains("PNG, JPEG"), "{why}"),
        other => panic!("expected a refusal, got {other:?}"),
    }
}

#[test]
fn says_so_when_the_backend_cannot_read_images() {
    let c = Clipboard { reads_images: false, reads_files: false, ..clipboard() };
    match clipboard_paste(Some(c), "pasted-1") {
        ClipboardPaste::Refused(why) => assert!(why.contains("can't read images"), "{why}"),
        other => panic!("expected a refusal, got {other:?}"),
    }
}

#[test]
fn reports_an_empty_clipboard_as_empty() {
    assert_eq!(clipboard_paste(Some(clipboard()), "pasted-1"), ClipboardPaste::Empty);
}

#[test]
fn no_backend_is_unavailable() {
    assert_eq!(clipboard_paste(None, "pasted-1"), ClipboardPaste::Unavailable);
    let c = Clipboard { text: TextProbe::Unreadable, ..clipboard() };
    assert_eq!(clipboard_paste(Some(c), "pasted-1"), ClipboardPaste::Unavailable);
}

/// The length of `bytes` bytes in base64.
fn encoded(bytes: usize) -> usize {
    bytes.div_ceil(3) * 4
}

#[test]
fn summary_names_the_file_its_type_and_its_size() {
    assert_eq!(
        attachment_summary("shot.png", "image/png", encoded(2056)),
        "shot.png (image/png, 2.0 KB)"
    );
    // 24 raw bytes — a multiple of three, so the size is exact.
    assert_eq!(
        attachment_summary("tiny.png", "image/png", encoded(24)),
        "tiny.png (image/png, 24 B)"
    );
    // 16 raw bytes, which base64 pads out to 24 characters.
    assert_eq!(
        attachment_summary("odd.png", "image/png", encoded(16)),
        "odd.png (image/png, 18 B)"
    );
    assert_eq!(
        attachment_summary("big.pdf", "application/pdf", encoded(3 * 1024 * 1024)),
        "big.pdf (application/pdf, 3.0 MB)"
    );
}

/// The sizes are those that floating point division and one decimal give.
#[test]
fn sizes_are_rounded_as_numbers_are_printed() {
    for bytes in (1026..1_048_576usize).step_by(999) {
        let bytes = bytes / 3 * 3;
        let want = format!("x (y, {:.1} KB)", bytes as f64 / 1024.0);
        assert_eq!(attachment_summary("x", "y", encoded(bytes)), want, "{bytes}");
    }
}

#[test]
fn other_outcomes() {
    assert_eq!(media_extension(MediaType::Webp), "webp");
    let c = Clipboard {
        media: vec![MediaProbe::Unattachable(MediaType::Pdf, "too large".into())],
        ..clipboard()
    };
    assert_eq!(
        clipboard_paste(Some(c), "p"),
        ClipboardPaste::Refused("can't attach: too large".into())
    );
    let c = Clipboard {
        files: vec![FileProbe::Link, FileProbe::Unreadable("gone".into())],
        ..clipboard()
    };
    assert_eq!(clipboard_paste(Some(c), "p"), ClipboardPaste::Refused("gone".into()));
}
