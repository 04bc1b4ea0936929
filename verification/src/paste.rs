//! What a paste takes from the clipboard: an image or a document before a copied file,
//! and a copied file before text.
use crate::double;
use crate::double::quotient_string;
use crate::text;
use crate::text::{cat, cat3, decimal_string, str_eq, str_starts_with};
use vstd::prelude::*;

verus! {

/// What a clipboard can offer.
#[derive(Debug, Clone, PartialEq, Eq)]
pub enum MimeType<S = String> {
    Text,
    Png,
    UriList,
    /// Anything else, by its name.
    Custom(S),
}

impl View for MimeType<String> {
    type V = MimeType<Seq<char>>;

    open spec fn view(&self) -> MimeType<Seq<char>> {
        match self {
            MimeType::Text => MimeType::Text,
            MimeType::Png => MimeType::Png,
            MimeType::UriList => MimeType::UriList,
            MimeType::Custom(name) => MimeType::Custom(name@),
        }
    }
}

/// The views of a list of types.
pub open spec fn mimes(v: Seq<MimeType>) -> Seq<MimeType<Seq<char>>> {
    Seq::new(v.len(), |i: int| v[i]@)
}

/// What can be attached.
#[derive(Debug, Clone, Copy, PartialEq, Eq, Structural)]
pub enum MediaType {
    Jpeg,
    Png,
    Gif,
    Webp,
    Pdf,
}

/// What came of asking the clipboard for one type that can be attached.
#[derive(Debug, Clone, PartialEq, Eq)]
pub enum MediaProbe<S = String> {
    /// It has none, or an empty one.
    Nothing,
    /// It has bytes that are of no type that can be attached.
    Foreign,
    /// It has bytes of this type, and they can be attached.
    Attachable(MediaType),
    /// It has bytes of this type, and this is why they cannot be attached.
    Unattachable(MediaType, S),
}

/// What came of reading one file that the clipboard names.
#[derive(Debug, Clone, PartialEq, Eq)]
pub enum FileProbe<S = String> {
    /// It is no file at all.
    Link,
    /// It is not to be attached.
    Other,
    /// It can be attached.
    Attachable,
    /// This is why it cannot be read.
    Unreadable(S),
}

/// What came of asking the clipboard for text.
#[derive(Debug, Clone, PartialEq, Eq)]
pub enum TextProbe<S = String> {
    Text(S),
    Nothing,
    Unreadable,
}

impl View for MediaProbe<String> {
    type V = MediaProbe<Seq<char>>;

    open spec fn view(&self) -> MediaProbe<Seq<char>> {
        match self {
            MediaProbe::Nothing => MediaProbe::Nothing,
            MediaProbe::Foreign => MediaProbe::Foreign,
            MediaProbe::Attachable(m) => MediaProbe::Attachable(*m),
            MediaProbe::Unattachable(m, e) => MediaProbe::Unattachable(*m, e@),
        }
    }
}

impl View for FileProbe<String> {
    type V = FileProbe<Seq<char>>;

    open spec fn view(&self) -> FileProbe<Seq<char>> {
        match self {
            FileProbe::Link => FileProbe::Link,
            FileProbe::Other => FileProbe::Other,
            FileProbe::Attachable => FileProbe::Attachable,
            FileProbe::Unreadable(e) => FileProbe::Unreadable(e@),
        }
    }
}

impl View for TextProbe<String> {
    type V = TextProbe<Seq<char>>;

    open spec fn view(&self) -> TextProbe<Seq<char>> {
        match self {
            TextProbe::Text(t) => TextProbe::Text(t@),
            TextProbe::Nothing => TextProbe::Nothing,
            TextProbe::Unreadable => TextProbe::Unreadable,
        }
    }
}

/// What the clipboard holds and can do.
#[derive(Debug, Clone, PartialEq, Eq)]
pub struct Clipboard {
    /// What it can read images with is there.
    pub reads_images: bool,
    /// What it can read copied files with is there.
    pub reads_files: bool,
    /// The types that it says it has; none where it cannot say.
    pub offered: Vec<MimeType>,
    /// What came of asking for each of [`media_candidates`].
    pub media: Vec<MediaProbe>,
    /// What came of reading each file that it names.
    pub files: Vec<FileProbe>,
    pub text: TextProbe,
    /// What the clipboard is reached through.
    pub backend: String,
}

/// What a paste takes.
#[derive(Debug, Clone, PartialEq, Eq)]
pub enum ClipboardPaste<S = String> {
    /// The bytes of the candidate of this number, under this name.
    Media(usize, S),
    /// The file of this number.
    File(usize),
    Text(S),
    /// The clipboard holds nothing.
    Empty,
    /// There is no clipboard, or it cannot be read.
    Unavailable,
    /// There is something that cannot be taken: why.
    Refused(S),
}

impl View for ClipboardPaste<String> {
    type V = ClipboardPaste<Seq<char>>;

    open spec fn view(&self) -> ClipboardPaste<Seq<char>> {
        match self {
            ClipboardPaste::Media(i, name) => ClipboardPaste::Media(*i, name@),
            ClipboardPaste::File(i) => ClipboardPaste::File(*i),
            ClipboardPaste::Text(t) => ClipboardPaste::Text(t@),
            ClipboardPaste::Empty => ClipboardPaste::Empty,
            ClipboardPaste::Unavailable => ClipboardPaste::Unavailable,
            ClipboardPaste::Refused(why) => ClipboardPaste::Refused(why@),
        }
    }
}

/// The extension of a file of this type.
pub open spec fn extension(m: MediaType) -> Seq<char> {
    match m {
        MediaType::Jpeg => "jpg"@,
        MediaType::Png => "png"@,
        MediaType::Gif => "gif"@,
        MediaType::Webp => "webp"@,
        MediaType::Pdf => "pdf"@,
    }
}

/// The extension of a file of this type.
pub fn media_extension(m: MediaType) -> (r: &'static str)
    ensures
        r@ == extension(m),
{
    match m {
        MediaType::Jpeg => "jpg",
        MediaType::Png => "png",
        MediaType::Gif => "gif",
        MediaType::Webp => "webp",
        MediaType::Pdf => "pdf",
    }
}

// ---------------------------------------------------------------------------
// Images and documents
// ---------------------------------------------------------------------------

/// Whether a type that the clipboard offers by name may be an image or a document.
pub open spec fn is_media(m: MimeType<Seq<char>>) -> bool {
    m matches MimeType::Custom(name) && (text::starts_with(name, "image/"@) || name
        == "application/pdf"@)
}

/// The types to ask the clipboard for, going by the first `n` that it offers: PNG, which
/// every clipboard knows, then every other that may be an image or a document, once.
pub open spec fn candidates(offered: Seq<MimeType<Seq<char>>>, n: int) -> Seq<
    MimeType<Seq<char>>,
>
    decreases n,
{
    if n <= 0 {
        seq![MimeType::Png]
    } else {
        let before = candidates(offered, n - 1);
        let m = offered[n - 1];
        if is_media(m) && !before.contains(m) {
            before.push(m)
        } else {
            before
        }
    }
}

fn same_mime(a: &MimeType, b: &MimeType) -> (r: bool)
    ensures
        r == (a@ == b@),
{
    match (a, b) {
        (MimeType::Text, MimeType::Text) => true,
        (MimeType::Png, MimeType::Png) => true,
        (MimeType::UriList, MimeType::UriList) => true,
        (MimeType::Custom(x), MimeType::Custom(y)) => str_eq(x.as_str(), y.as_str()),
        _ => false,
    }
}

fn has_mime(list: &Vec<MimeType>, m: &MimeType) -> (r: bool)
    ensures
        r == mimes(list@).contains(m@),
{
    let ghost all = mimes(list@);
    for i in 0..list.len()
        invariant
            all == mimes(list@),
            forall|j: int| 0 <= j < i ==> #[trigger] all[j] != m@,
    {
        assert(all[i as int] == list@[i as int]@);
        if same_mime(&list[i], m) {
            return true;
        }
    }
    false
}

/// The types to ask the clipboard for, in order.
pub fn media_candidates(offered: &Vec<MimeType>) -> (r: Vec<MimeType>)
    ensures
        mimes(r@) == candidates(mimes(offered@), offered@.len() as int),
{
    let ghost all = mimes(offered@);
    let mut out: Vec<MimeType> = Vec::new();
    out.push(MimeType::Png);
    assert(mimes(out@) =~= seq![MimeType::Png]);
    for i in 0..offered.len()
        invariant
            all == mimes(offered@),
            mimes(out@) == candidates(all, i as int),
    {
        assert(all[i as int] == offered@[i as int]@);
        if let MimeType::Custom(name) = &offered[i] {
            if (str_starts_with(name.as_str(), "image/") || str_eq(
                name.as_str(),
                "application/pdf",
            )) && !has_mime(&out, &offered[i]) {
                let ghost before = mimes(out@);
                out.push(MimeType::Custom(name.clone()));
                assert(mimes(out@) =~= before.push(all[i as int]));
            }
        }
    }
    out
}

/// What is said of an image of a type that cannot be attached.
pub const FOREIGN_IMAGE: &'static str =
    "the clipboard image isn't a type hrdr can attach (PNG, JPEG, GIF, WebP or PDF)";

/// What a paste takes of the images and documents, from candidate `from` on; `foreign`
/// says whether one before was of a type that cannot be attached.
pub open spec fn media_choice(
    probes: Seq<MediaProbe<Seq<char>>>,
    from: int,
    stem: Seq<char>,
    foreign: bool,
) -> Option<ClipboardPaste<Seq<char>>>
    decreases probes.len() - from,
{
    if from < 0 || from >= probes.len() {
        if foreign {
            Some(ClipboardPaste::Refused(FOREIGN_IMAGE@))
        } else {
            None
        }
    } else {
        match probes[from] {
            MediaProbe::Nothing => media_choice(probes, from + 1, stem, foreign),
            MediaProbe::Foreign => media_choice(probes, from + 1, stem, true),
            MediaProbe::Attachable(m) => Some(
                ClipboardPaste::Media(from as usize, stem + "."@ + extension(m)),
            ),
            MediaProbe::Unattachable(m, e) => Some(
                ClipboardPaste::Refused("can't attach: "@ + e),
            ),
        }
    }
}

/// The views of what came of asking for images and documents.
pub open spec fn media_view(v: Seq<MediaProbe>) -> Seq<MediaProbe<Seq<char>>> {
    Seq::new(v.len(), |i: int| v[i]@)
}

/// The views of what came of reading files.
pub open spec fn files_view(v: Seq<FileProbe>) -> Seq<FileProbe<Seq<char>>> {
    Seq::new(v.len(), |i: int| v[i]@)
}

/// The view of an optional outcome.
pub open spec fn paste_view(r: Option<ClipboardPaste>) -> Option<ClipboardPaste<Seq<char>>> {
    match r {
        Some(p) => Some(p@),
        None => None,
    }
}

/// What a paste takes of the images and documents: the first that can be attached. The
/// bytes decide what they are, and so what the paste is called.
pub fn clipboard_media(probes: &Vec<MediaProbe>, stem: &str) -> (r: Option<ClipboardPaste>)
    ensures
        paste_view(r) == media_choice(media_view(probes@), 0, stem@, false),
{
    let ghost all = media_view(probes@);
    let mut foreign: bool = false;
    for i in 0..probes.len()
        invariant
            all == media_view(probes@),
            media_choice(all, 0, stem@, false) == media_choice(all, i as int, stem@, foreign),
    {
        assert(all[i as int] == probes@[i as int]@);
        match &probes[i] {
            MediaProbe::Nothing => {},
            MediaProbe::Foreign => {
                foreign = true;
            },
            MediaProbe::Attachable(m) => {
                return Some(ClipboardPaste::Media(i, cat3(stem, ".", media_extension(*m))));
            },
            MediaProbe::Unattachable(_, e) => {
                return Some(ClipboardPaste::Refused(cat("can't attach: ", e.as_str())));
            },
        }
    }
    if foreign {
        Some(ClipboardPaste::Refused(FOREIGN_IMAGE.to_string()))
    } else {
        None
    }
}

// ---------------------------------------------------------------------------
// Copied files
// ---------------------------------------------------------------------------

/// What a paste takes of the copied files, from `from` on; `last` is why one before could
/// not be read.
pub open spec fn file_choice(
    probes: Seq<FileProbe<Seq<char>>>,
    from: int,
    last: Option<Seq<char>>,
) -> Option<ClipboardPaste<Seq<char>>>
    decreases probes.len() - from,
{
    if from < 0 || from >= probes.len() {
        match last {
            Some(e) => Some(ClipboardPaste::Refused(e)),
            None => None,
        }
    } else {
        match probes[from] {
            FileProbe::Link => file_choice(probes, from + 1, last),
            FileProbe::Other => file_choice(probes, from + 1, last),
            FileProbe::Attachable => Some(ClipboardPaste::File(from as usize)),
            FileProbe::Unreadable(e) => file_choice(probes, from + 1, Some(e)),
        }
    }
}

/// What a paste takes of the copied files: the first that can be attached, unless the
/// clipboard says that it names none.
pub fn clipboard_file_uri(offered: &Vec<MimeType>, probes: &Vec<FileProbe>) -> (r: Option<
    ClipboardPaste,
>)
    ensures
        paste_view(r) == (if offered@.len() > 0 && !mimes(offered@).contains(MimeType::UriList) {
            None
        } else {
            file_choice(files_view(probes@), 0, None)
        }),
{
    if offered.len() > 0 && !has_mime(offered, &MimeType::UriList) {
        return None;
    }
    let ghost all = files_view(probes@);
    let mut last: Option<String> = None;
    for i in 0..probes.len()
        invariant
            offered@.len() == 0 || mimes(offered@).contains(MimeType::UriList),
            all == files_view(probes@),
            file_choice(all, 0, None) == file_choice(
                all,
                i as int,
                crate::json::opt_view(last),
            ),
    {
        assert(all[i as int] == probes@[i as int]@);
        match &probes[i] {
            FileProbe::Link => {},
            FileProbe::Other => {},
            FileProbe::Attachable => {
                return Some(ClipboardPaste::File(i));
            },
            FileProbe::Unreadable(e) => {
                last = Some(e.clone());
            },
        }
    }
    match last {
        Some(e) => Some(ClipboardPaste::Refused(e)),
        None => None,
    }
}

// ---------------------------------------------------------------------------
// The whole
// ---------------------------------------------------------------------------

/// What a paste takes of the text, or what is said where there is none.
pub open spec fn text_choice(c: Clipboard) -> ClipboardPaste<Seq<char>> {
    match c.text@ {
        TextProbe::Text(t) => ClipboardPaste::Text(t),
        TextProbe::Nothing => if c.reads_images {
            ClipboardPaste::Empty
        } else {
            ClipboardPaste::Refused(
                "nothing to paste — the "@ + c.backend@ + " clipboard backend can't read images"@,
            )
        },
        TextProbe::Unreadable => ClipboardPaste::Unavailable,
    }
}

/// What a paste takes of the copied files, if it looks at them.
pub open spec fn files_of(c: Clipboard) -> Option<ClipboardPaste<Seq<char>>> {
    if !c.reads_files || (c.offered@.len() > 0 && !mimes(c.offered@).contains(MimeType::UriList)) {
        None
    } else {
        file_choice(files_view(c.files@), 0, None)
    }
}

/// What a paste takes of the images and documents, if it looks at them.
pub open spec fn media_of(c: Clipboard, stem: Seq<char>) -> Option<ClipboardPaste<Seq<char>>> {
    if c.reads_images {
        media_choice(media_view(c.media@), 0, stem, false)
    } else {
        None
    }
}

/// What a paste takes.
pub open spec fn pasted(c: Clipboard, stem: Seq<char>) -> ClipboardPaste<Seq<char>> {
    match media_of(c, stem) {
        Some(p) => p,
        None => match files_of(c) {
            Some(p) => p,
            None => text_choice(c),
        },
    }
}

/// What a paste takes from the clipboard, if there is one. `stem` names bytes that come
/// without a name.
pub fn clipboard_paste(clipboard: Option<Clipboard>, stem: &str) -> (r: ClipboardPaste)
    ensures
        r@ == (match clipboard {
            Some(c) => pasted(c, stem@),
            None => ClipboardPaste::Unavailable,
        }),
{
    let c = match clipboard {
        Some(c) => c,
        None => {
            return ClipboardPaste::Unavailable;
        },
    };
    if c.reads_images {
        if let Some(p) = clipboard_media(&c.media, stem) {
            return p;
        }
    }
    if c.reads_files {
        if let Some(p) = clipboard_file_uri(&c.offered, &c.files) {
            return p;
        }
    }
    match c.text {
        TextProbe::Text(t) => ClipboardPaste::Text(t),
        TextProbe::Nothing => if c.reads_images {
            ClipboardPaste::Empty
        } else {
            ClipboardPaste::Refused(
                cat3(
                    "nothing to paste — the ",
                    c.backend.as_str(),
                    " clipboard backend can't read images",
                ),
            )
        },
        TextProbe::Unreadable => ClipboardPaste::Unavailable,
    }
}

/// An image that can be attached is taken before any text beside it, and a clipboard
/// that cannot be read is never called empty.
pub proof fn law_images_come_before_text(c: Clipboard, stem: Seq<char>)
    requires
        c.reads_images,
        c.media@.len() > 0,
        c.media@[0]@ is Attachable,
    ensures
        pasted(c, stem) is Media,
{
    assert(media_view(c.media@)[0] == c.media@[0]@);
}

/// A paste says that the clipboard is empty only where images could have been read and
/// there was neither one, nor a file, nor text.
pub proof fn law_empty_means_empty(c: Clipboard, stem: Seq<char>)
    requires
        pasted(c, stem) is Empty,
    ensures
        c.reads_images,
        c.text@ is Nothing,
        forall|i: int| 0 <= i < c.media@.len() ==> (#[trigger] c.media@[i])@ is Nothing,
{
    lemma_no_media(media_view(c.media@), 0, stem, false);
    lemma_file_choice(files_view(c.files@), 0, None);
    assert forall|i: int| 0 <= i < c.media@.len() implies (#[trigger] c.media@[i])@ is Nothing by {
        assert(media_view(c.media@)[i] is Nothing);
    }
}

proof fn lemma_no_media(
    probes: Seq<MediaProbe<Seq<char>>>,
    from: int,
    stem: Seq<char>,
    foreign: bool,
)
    requires
        0 <= from,
    ensures
        !(media_choice(probes, from, stem, foreign) matches Some(ClipboardPaste::Empty)),
        media_choice(probes, from, stem, foreign) is None ==> !foreign && forall|i: int|
            from <= i < probes.len() ==> #[trigger] probes[i] is Nothing,
    decreases probes.len() - from,
{
    if from < probes.len() {
        lemma_no_media(probes, from + 1, stem, foreign);
        lemma_no_media(probes, from + 1, stem, true);
    }
}

proof fn lemma_file_choice(
    probes: Seq<FileProbe<Seq<char>>>,
    from: int,
    last: Option<Seq<char>>,
)
    requires
        0 <= from,
    ensures
        !(file_choice(probes, from, last) matches Some(ClipboardPaste::Empty)),
    decreases probes.len() - from,
{
    if from < probes.len() {
        lemma_file_choice(probes, from + 1, last);
        if let FileProbe::Unreadable(e) = probes[from] {
            lemma_file_choice(probes, from + 1, Some(e));
        }
    }
}

// ---------------------------------------------------------------------------
// Attachments
// ---------------------------------------------------------------------------

/// A size in bytes, in its unit.
pub open spec fn size_text(bytes: nat) -> Seq<char> {
    if bytes >= 1_048_576 {
        double::quotient_text(bytes, 1_048_576) + " MB"@
    } else if bytes >= 1_024 {
        double::quotient_text(bytes, 1_024) + " KB"@
    } else {
        text::decimal(bytes) + " B"@
    }
}

/// An attachment in words: its name, its type, and its size, which is told from the
/// length of its base64 form.
pub fn attachment_summary(filename: &str, mime: &str, encoded_len: usize) -> (r: String)
    ensures
        r@ == filename@ + " ("@ + mime@ + ", "@ + size_text(
            (encoded_len as nat / 4) * 3,
        ) + ")"@,
{
    let bytes: u64 = (encoded_len as u64 / 4) * 3;
    let size = if bytes >= 1_048_576 {
        cat(quotient_string(bytes, 1_048_576).as_str(), " MB")
    } else if bytes >= 1_024 {
        cat(quotient_string(bytes, 1_024).as_str(), " KB")
    } else {
        cat(decimal_string(bytes).as_str(), " B")
    };
    let mut s = cat3(filename, " (", mime);
    s.append(", ");
    s.append(size.as_str());
    s.append(")");
    s
}

/// The first kind of media that the clipboard can give is the one that is pasted, whatever
/// was asked for before it; a picture that only another program can read is refused where
/// there is no other, and nothing comes of a clipboard that gave nothing.
#[verifier::rlimit(40)]
pub proof fn law_the_first_media_is_pasted(
    probes: Seq<MediaProbe<Seq<char>>>,
    from: int,
    stem: Seq<char>,
    foreign: bool,
    i: int,
)
    requires
        0 <= from <= i <= probes.len() <= usize::MAX,
        forall|k: int|
            from <= k < i ==> (#[trigger] probes[k] is Nothing || probes[k] is Foreign),
    ensures
        i < probes.len() ==> (probes[i] matches MediaProbe::Attachable(m) ==> (media_choice(
            probes,
            from,
            stem,
            foreign,
        ) matches Some(ClipboardPaste::Media(at, name)) && at == i && text::starts_with(name, stem)
            && extension(m).is_suffix_of(name))),
        i < probes.len() ==> (probes[i] matches MediaProbe::Unattachable(_, e) ==> (media_choice(
            probes,
            from,
            stem,
            foreign,
        ) matches Some(ClipboardPaste::Refused(why)) && text::contains(why, e))),
        i == probes.len() ==> (media_choice(probes, from, stem, foreign) is None <==> !foreign && (
        forall|k: int| from <= k < i ==> #[trigger] probes[k] is Nothing)),
    decreases i - from,
{
    if from < i {
        law_the_first_media_is_pasted(
            probes,
            from + 1,
            stem,
            foreign || probes[from] is Foreign,
            i,
        );
        if i == probes.len() && probes[from] is Nothing {
            assert((forall|k: int| from <= k < i ==> #[trigger] probes[k] is Nothing) <==> (forall|
                k: int,
            |
                from + 1 <= k < i ==> #[trigger] probes[k] is Nothing));
        }
    } else if i < probes.len() {
        if let MediaProbe::Attachable(m) = probes[i] {
            let name = stem + "."@ + extension(m);
            assert(name.take(stem.len() as int) =~= stem);
            assert(name.skip(name.len() - extension(m).len()) =~= extension(m));
        }
        if let MediaProbe::Unattachable(_, e) = probes[i] {
            broadcast use text::lemma_sum_holds;

            text::lemma_holds_itself(e);
        }
    }
}

/// The first file that can be attached is, though files before it could not be read; where
/// none can, the trouble with the last that should have been is told, and links and other
/// things are passed over.
pub proof fn law_the_first_file_is_pasted(
    probes: Seq<FileProbe<Seq<char>>>,
    from: int,
    last: Option<Seq<char>>,
    i: int,
)
    requires
        0 <= from <= i <= probes.len() <= usize::MAX,
        forall|k: int| from <= k < i ==> !(#[trigger] probes[k] is Attachable),
    ensures
        i < probes.len() && probes[i] is Attachable ==> (file_choice(probes, from, last) matches Some(
            ClipboardPaste::File(at),
        ) && at == i),
        i == probes.len() ==> (file_choice(probes, from, last) matches Some(p) ==> p is Refused),
        i == probes.len() && from < i ==> (probes[i - 1] matches FileProbe::Unreadable(e)
            ==> file_choice(probes, from, last) == Some(ClipboardPaste::<Seq<char>>::Refused(e))),
        i == probes.len() && (forall|k: int|
            from <= k < i ==> (#[trigger] probes[k] is Link || probes[k] is Other)) ==> file_choice(
            probes,
            from,
            last,
        ) == (match last {
            Some(e) => Some(ClipboardPaste::<Seq<char>>::Refused(e)),
            None => None,
        }),
    decreases i - from,
{
    if from < i {
        let next = match probes[from] {
            FileProbe::Unreadable(e) => Some(e),
            _ => last,
        };
        law_the_first_file_is_pasted(probes, from + 1, next, i);
    }
}

/// Every kind of picture or document that is offered is asked for, once; nothing else that
/// is offered is, and a plain picture is asked for first, offered or not.
pub proof fn law_what_is_asked_for(
    offered: Seq<MimeType<Seq<char>>>,
    n: int,
    m: MimeType<Seq<char>>,
)
    requires
        0 <= n <= offered.len(),
    ensures
        ({
            let asked = candidates(offered, n);
            &&& asked.len() > 0
            &&& asked[0] == MimeType::<Seq<char>>::Png
            &&& asked.contains(m) <==> m == MimeType::<Seq<char>>::Png || (is_media(m) && exists|
                i: int,
            |
                0 <= i < n && #[trigger] offered[i] == m)
            &&& forall|i: int, j: int| 0 <= i < j < asked.len() ==> asked[i] != asked[j]
        }),
    decreases n,
{
    if n > 0 {
        law_what_is_asked_for(offered, n - 1, m);
        let before = candidates(offered, n - 1);
        let asked = candidates(offered, n);
        let new = offered[n - 1];
        if is_media(new) && !before.contains(new) {
            assert(asked[asked.len() - 1] == new);
            if before.contains(m) {
                let i = choose|i: int| 0 <= i < before.len() && before[i] == m;
                assert(asked[i] == m);
            }
            if asked.contains(m) && m != new {
                let i = choose|i: int| 0 <= i < asked.len() && asked[i] == m;
                assert(before[i] == m);
            }
        }
        if m == new && is_media(m) {
            assert(offered[n - 1] == m);
            if before.contains(new) {
                assert(asked == before);
            }
        }
    } else {
        assert(candidates(offered, n)[0] == MimeType::<Seq<char>>::Png);
    }
}

/// The media is asked before the files, and the files before the text, which is pasted as
/// it is where there is nothing else.
pub proof fn law_plain_text_is_pasted_as_it_is(c: Clipboard, stem: Seq<char>, t: Seq<char>)
    requires
        c.text@ == TextProbe::Text(t),
        c.reads_images ==> (forall|k: int| 0 <= k < c.media@.len() ==> #[trigger] media_view(c.media@)[k] is Nothing),
        c.reads_files ==> c.files@.len() == 0,
        c.media@.len() <= usize::MAX,
    ensures
        pasted(c, stem) == ClipboardPaste::Text(t),
{
    if c.reads_images {
        law_the_first_media_is_pasted(
            media_view(c.media@),
            0,
            stem,
            false,
            media_view(c.media@).len() as int,
        );
    }
}

/// Files are looked at exactly where the clipboard can give them and either says that it
/// has a list of them or does not say what it has.
pub proof fn law_when_files_are_looked_at(c: Clipboard)
    ensures
        !c.reads_files ==> files_of(c) is None,
        c.reads_files && c.offered@.len() == 0 ==> files_of(c) == file_choice(
            files_view(c.files@),
            0,
            None,
        ),
        c.reads_files && mimes(c.offered@).contains(MimeType::<Seq<char>>::UriList) ==> files_of(c)
            == file_choice(files_view(c.files@), 0, None),
        c.offered@.len() > 0 && !mimes(c.offered@).contains(MimeType::<Seq<char>>::UriList)
            ==> files_of(c) is None,
        !c.reads_images ==> media_of(c, Seq::empty()) is None,
{
}

/// A size is told in the largest unit that it reaches: bytes exactly, below a kilobyte.
pub proof fn law_a_size_is_told_in_its_unit(bytes: nat)
    ensures
        bytes < 1_024 ==> size_text(bytes) == text::decimal(bytes) + " B"@,
        1_024 <= bytes < 1_048_576 ==> " KB"@.is_suffix_of(size_text(bytes)),
        bytes >= 1_048_576 ==> " MB"@.is_suffix_of(size_text(bytes)),
{
}

/// The file that a picture is kept in is named for what it is.
pub proof fn law_a_picture_is_named_for_what_it_is()
    ensures
        extension(MediaType::Png) == seq!['p', 'n', 'g'],
        extension(MediaType::Jpeg) == seq!['j', 'p', 'g'],
        extension(MediaType::Gif) == seq!['g', 'i', 'f'],
        extension(MediaType::Webp) == seq!['w', 'e', 'b', 'p'],
        extension(MediaType::Pdf) == seq!['p', 'd', 'f'],
{
    reveal_strlit("png");
    reveal_strlit("jpg");
    reveal_strlit("gif");
    reveal_strlit("webp");
    reveal_strlit("pdf");
    assert("png"@ =~= seq!['p', 'n', 'g']);
    assert("jpg"@ =~= seq!['j', 'p', 'g']);
    assert("gif"@ =~= seq!['g', 'i', 'f']);
    assert("webp"@ =~= seq!['w', 'e', 'b', 'p']);
    assert("pdf"@ =~= seq!['p', 'd', 'f']);
}

} // verus!
