//! Screenshots and the images and videos that they hold.

use vstd::prelude::*;
use crate::decode::{
    localized_entries, number_attribute, number_of, tagged_texts, text_attribute,
    text_option_view, try_map, try_map_fails, try_map_step,
};
use crate::enums::ImageKind;
use crate::error::{DecodeError, DecodeErrorView};
use crate::text::{digits_of, u32_text};
use crate::tree::{
    document_root, element_children_view, element_nodes, elements_view, named_of, named_of_concat,
    named_of_uniform, nodes_view, parse_document, trimmed, Element, ElementView, Node, NodeView,
};
use crate::types::tagged_texts_view;
use crate::xml::{attributes_view, Attribute};
use crate::types::{merged, LocalizedText, TranslatableString};
use crate::weburl::{url_parse, Url};

verus! {

/// One image of a screenshot.
#[derive(Clone, Debug, PartialEq)]
pub struct Image {
    pub kind: ImageKind,
    pub width: Option<u32>,
    pub height: Option<u32>,
    pub url: Url,
}

/// One video of a screenshot.
#[derive(Clone, Debug, PartialEq)]
pub struct Video {
    pub width: Option<u32>,
    pub height: Option<u32>,
    pub codec: Option<String>,
    pub container: Option<String>,
    pub url: Url,
}

/// A screenshot of a component.
#[derive(Clone, Debug, PartialEq)]
pub struct Screenshot {
    pub is_default: bool,
    pub caption: Option<TranslatableString>,
    pub images: Vec<Image>,
    pub videos: Vec<Video>,
}

/// The mathematical model of an `Image`; the kind is held as its token.
pub struct ImageView {
    pub kind: Seq<char>,
    pub width: Option<u32>,
    pub height: Option<u32>,
    pub url: Seq<char>,
}

/// The mathematical model of a `Video`.
pub struct VideoView {
    pub width: Option<u32>,
    pub height: Option<u32>,
    pub codec: Option<Seq<char>>,
    pub container: Option<Seq<char>>,
    pub url: Seq<char>,
}

/// The mathematical model of a `Screenshot`.
pub struct ScreenshotView {
    pub is_default: bool,
    pub caption: Option<LocalizedText>,
    pub images: Seq<ImageView>,
    pub videos: Seq<VideoView>,
}

impl View for Image {
    type V = ImageView;

    open spec fn view(&self) -> ImageView {
        ImageView {
            kind: self.kind.token(),
            width: self.width,
            height: self.height,
            url: self.url@,
        }
    }
}

impl View for Video {
    type V = VideoView;

    open spec fn view(&self) -> VideoView {
        VideoView {
            width: self.width,
            height: self.height,
            codec: text_option_view(self.codec),
            container: text_option_view(self.container),
            url: self.url@,
        }
    }
}

/// The views of a list of images.
pub open spec fn images_view(images: Seq<Image>) -> Seq<ImageView> {
    images.map_values(|i: Image| i@)
}

/// The views of a list of videos.
pub open spec fn videos_view(videos: Seq<Video>) -> Seq<VideoView> {
    videos.map_values(|v: Video| v@)
}

/// The view of a localized text that may be absent.
pub open spec fn localized_option_view(text: Option<TranslatableString>) -> Option<LocalizedText> {
    match text {
        Some(t) => Some(t@),
        None => None,
    }
}

impl View for Screenshot {
    type V = ScreenshotView;

    open spec fn view(&self) -> ScreenshotView {
        ScreenshotView {
            is_default: self.is_default,
            caption: localized_option_view(self.caption),
            images: images_view(self.images@),
            videos: videos_view(self.videos@),
        }
    }
}

/// The token of an image's kind: the `type` attribute, and `source` where
/// the image has none.
pub open spec fn image_kind_of(token: Option<Seq<char>>) -> Seq<char> {
    match token {
        Some(t) => t,
        None => "source"@,
    }
}

/// Whether a screenshot is the default one of its component, from its `type`
/// attribute: it is where the attribute is absent or says `default`.
pub open spec fn is_default_of(token: Option<Seq<char>>) -> bool {
    match token {
        Some(t) => t == "default"@,
        None => true,
    }
}

/// The image that an `image` element stands for. The width and the height
/// must be numbers and the text a location.
pub open spec fn image_of(e: ElementView) -> Result<ImageView, DecodeErrorView> {
    match number_of(e, "width"@, "image/@width"@) {
        Err(err) => Err(err),
        Ok(width) => match number_of(e, "height"@, "image/@height"@) {
            Err(err) => Err(err),
            Ok(height) => match url_parse(e.text()) {
                None => Err(DecodeErrorView::ValidationError { path: "image"@, input: e.text() }),
                Some(url) => Ok(
                    ImageView { kind: image_kind_of(e.attribute("type"@)), width, height, url },
                ),
            },
        },
    }
}

/// The video that a `video` element stands for.
pub open spec fn video_of(e: ElementView) -> Result<VideoView, DecodeErrorView> {
    match number_of(e, "width"@, "video/@width"@) {
        Err(err) => Err(err),
        Ok(width) => match number_of(e, "height"@, "video/@height"@) {
            Err(err) => Err(err),
            Ok(height) => match url_parse(e.text()) {
                None => Err(DecodeErrorView::ValidationError { path: "video"@, input: e.text() }),
                Some(url) => Ok(
                    VideoView {
                        width,
                        height,
                        codec: e.attribute("codec"@),
                        container: e.attribute("container"@),
                        url,
                    },
                ),
            },
        },
    }
}

/// `image_of` as a function value.
pub open spec fn image_decoder() -> spec_fn(ElementView) -> Result<ImageView, DecodeErrorView> {
    |e: ElementView| image_of(e)
}

/// `video_of` as a function value.
pub open spec fn video_decoder() -> spec_fn(ElementView) -> Result<VideoView, DecodeErrorView> {
    |e: ElementView| video_of(e)
}

/// The screenshot that a `screenshot` element stands for: its images, then
/// its videos, each in document order, and its captions merged.
pub open spec fn screenshot_of(e: ElementView) -> Result<ScreenshotView, DecodeErrorView> {
    match try_map(e.named("image"@), image_decoder()) {
        Err(err) => Err(err),
        Ok(images) => match try_map(e.named("video"@), video_decoder()) {
            Err(err) => Err(err),
            Ok(videos) => Ok(
                ScreenshotView {
                    is_default: is_default_of(e.attribute("type"@)),
                    caption: merged(tagged_texts(e.named("caption"@))),
                    images,
                    videos,
                },
            ),
        },
    }
}

/// A `screenshot` element without a `type` attribute decodes to a default
/// screenshot.
pub proof fn screenshot_without_type_is_default(e: ElementView)
    requires
        e.attribute("type"@) is None,
        screenshot_of(e) is Ok,
    ensures
        screenshot_of(e)->Ok_0.is_default,
{
}

/// A `screenshot` element whose `type` attribute says anything but
/// `default` decodes to a screenshot that is not the default one.
pub proof fn screenshot_of_other_type_is_not_default(e: ElementView, token: Seq<char>)
    requires
        e.attribute("type"@) == Some(token),
        token != "default"@,
        screenshot_of(e) is Ok,
    ensures
        !screenshot_of(e)->Ok_0.is_default,
{
}

/// An `image` element without a `type` attribute decodes to an image of the
/// kind `source`, and a decoded image with that token is `ImageKind::Source`.
pub proof fn image_without_type_is_source(e: ElementView, image: Image)
    requires
        e.attribute("type"@) is None,
        image_of(e) == Ok::<ImageView, DecodeErrorView>(image@),
        image.wf(),
    ensures
        image@.kind == "source"@,
        image.kind == ImageKind::Source,
{
    reveal_strlit("source");
    reveal_strlit("thumbnail");
    assert("source"@.len() == 6);
    assert("thumbnail"@.len() == 9);
}

impl Image {
    /// Whether the image is in the form that decoding gives: a kind of the
    /// vocabulary is never held as unknown.
    pub open spec fn wf(&self) -> bool {
        self.kind.wf()
    }

    /// Decodes an `image` element.
    pub fn from_element(e: &Element) -> (r: Result<Image, DecodeError>)
        ensures
            match r {
                Ok(image) => image_of(e@) == Ok::<ImageView, DecodeErrorView>(image@)
                    && image.wf(),
                Err(err) => image_of(e@) == Err::<ImageView, DecodeErrorView>(err@),
            },
    {
        let width = match number_attribute(e, "width", "image/@width") {
            Ok(n) => n,
            Err(err) => {
                return Err(err);
            },
        };
        let height = match number_attribute(e, "height", "image/@height") {
            Ok(n) => n,
            Err(err) => {
                return Err(err);
            },
        };
        let text = e.text();
        let url = match Url::parse(text.as_str()) {
            Ok(url) => url,
            Err(_) => {
                return Err(DecodeError::invalid("image", text.as_str()));
            },
        };
        let kind = match e.attribute("type") {
            Some(token) => ImageKind::from_token(token.as_str()),
            None => ImageKind::Source,
        };
        Ok(Image { kind, width, height, url })
    }
}

impl Video {
    /// Decodes a `video` element.
    pub fn from_element(e: &Element) -> (r: Result<Video, DecodeError>)
        ensures
            match r {
                Ok(video) => video_of(e@) == Ok::<VideoView, DecodeErrorView>(video@),
                Err(err) => video_of(e@) == Err::<VideoView, DecodeErrorView>(err@),
            },
    {
        let width = match number_attribute(e, "width", "video/@width") {
            Ok(n) => n,
            Err(err) => {
                return Err(err);
            },
        };
        let height = match number_attribute(e, "height", "video/@height") {
            Ok(n) => n,
            Err(err) => {
                return Err(err);
            },
        };
        let text = e.text();
        let url = match Url::parse(text.as_str()) {
            Ok(url) => url,
            Err(_) => {
                return Err(DecodeError::invalid("video", text.as_str()));
            },
        };
        let codec = text_attribute(e, "codec");
        let container = text_attribute(e, "container");
        Ok(Video { width, height, codec, container, url })
    }
}

/// Decodes each of `elements` as an image.
pub fn images_from(elements: &Vec<&Element>) -> (r: Result<Vec<Image>, DecodeError>)
    ensures
        match r {
            Ok(images) => try_map(elements_view(elements@), image_decoder()) == Ok::<
                Seq<ImageView>,
                DecodeErrorView,
            >(images_view(images@)) && forall|j: int|
                0 <= j < images.len() ==> (#[trigger] images[j]).wf(),
            Err(err) => try_map(elements_view(elements@), image_decoder()) == Err::<
                Seq<ImageView>,
                DecodeErrorView,
            >(err@),
        },
{
    let ghost all = elements_view(elements@);
    let mut images: Vec<Image> = Vec::new();
    let mut i: usize = 0;
    assert(all.take(0) =~= Seq::empty());
    assert(images_view(images@) =~= Seq::empty());
    while i < elements.len()
        invariant
            i <= elements.len(),
            all == elements_view(elements@),
            try_map(all.take(i as int), image_decoder()) == Ok::<Seq<ImageView>, DecodeErrorView>(
                images_view(images@),
            ),
            forall|j: int| 0 <= j < images.len() ==> (#[trigger] images[j]).wf(),
        decreases elements.len() - i,
    {
        proof {
            try_map_step(all, image_decoder(), i as int);
        }
        match Image::from_element(elements[i]) {
            Ok(image) => {
                let ghost before = images_view(images@);
                images.push(image);
                assert(images_view(images@) =~= before.push(image@));
            },
            Err(err) => {
                proof {
                    try_map_fails(all, image_decoder(), i + 1);
                }
                return Err(err);
            },
        }
        i = i + 1;
    }
    assert(all.take(i as int) =~= all);
    Ok(images)
}

/// Decodes each of `elements` as a video.
pub fn videos_from(elements: &Vec<&Element>) -> (r: Result<Vec<Video>, DecodeError>)
    ensures
        match r {
            Ok(videos) => try_map(elements_view(elements@), video_decoder()) == Ok::<
                Seq<VideoView>,
                DecodeErrorView,
            >(videos_view(videos@)),
            Err(err) => try_map(elements_view(elements@), video_decoder()) == Err::<
                Seq<VideoView>,
                DecodeErrorView,
            >(err@),
        },
{
    let ghost all = elements_view(elements@);
    let mut videos: Vec<Video> = Vec::new();
    let mut i: usize = 0;
    assert(all.take(0) =~= Seq::empty());
    assert(videos_view(videos@) =~= Seq::empty());
    while i < elements.len()
        invariant
            i <= elements.len(),
            all == elements_view(elements@),
            try_map(all.take(i as int), video_decoder()) == Ok::<Seq<VideoView>, DecodeErrorView>(
                videos_view(videos@),
            ),
        decreases elements.len() - i,
    {
        proof {
            try_map_step(all, video_decoder(), i as int);
        }
        match Video::from_element(elements[i]) {
            Ok(video) => {
                let ghost before = videos_view(videos@);
                videos.push(video);
                assert(videos_view(videos@) =~= before.push(video@));
            },
            Err(err) => {
                proof {
                    try_map_fails(all, video_decoder(), i + 1);
                }
                return Err(err);
            },
        }
        i = i + 1;
    }
    assert(all.take(i as int) =~= all);
    Ok(videos)
}

/// Whether a screenshot with this `type` attribute is the default one.
pub fn screenshot_is_default(token: Option<&String>) -> (r: bool)
    ensures
        r == is_default_of(
            match token {
                Some(t) => Some(t@),
                None => None,
            },
        ),
{
    match token {
        Some(t) => crate::text::same_text(t.as_str(), "default"),
        None => true,
    }
}

impl Screenshot {
    /// Whether the screenshot is in the form that decoding gives: each of its
    /// images is.
    pub open spec fn wf(&self) -> bool {
        forall|j: int| 0 <= j < self.images.len() ==> (#[trigger] self.images[j]).wf()
    }

    /// Decodes a `screenshot` element.
    pub fn from_element(e: &Element) -> (r: Result<Screenshot, DecodeError>)
        ensures
            match r {
                Ok(shot) => screenshot_of(e@) == Ok::<ScreenshotView, DecodeErrorView>(shot@)
                    && shot.wf(),
                Err(err) => screenshot_of(e@) == Err::<ScreenshotView, DecodeErrorView>(err@),
            },
    {
        let images = match images_from(&e.children_named("image")) {
            Ok(images) => images,
            Err(err) => {
                return Err(err);
            },
        };
        let videos = match videos_from(&e.children_named("video")) {
            Ok(videos) => videos,
            Err(err) => {
                return Err(err);
            },
        };
        let is_default = screenshot_is_default(e.attribute("type"));
        let caption = TranslatableString::merge(&localized_entries(&e.children_named("caption")));
        Ok(Screenshot { is_default, caption, images, videos })
    }
}

/// The screenshot that the document `text` stands for.
pub open spec fn decoded_screenshot(text: Seq<char>) -> Result<ScreenshotView, DecodeErrorView> {
    match document_root(text) {
        None => Err(DecodeErrorView::MalformedDocument),
        Some(root) => screenshot_of(root),
    }
}

impl Screenshot {
    /// Decodes a screenshot from the text of a document whose root is a
    /// `screenshot` element.
    pub fn from_xml(text: &str) -> (r: Result<Screenshot, DecodeError>)
        ensures
            match r {
                Ok(shot) => decoded_screenshot(text@) == Ok::<ScreenshotView, DecodeErrorView>(
                    shot@,
                ) && shot.wf(),
                Err(err) => decoded_screenshot(text@) == Err::<ScreenshotView, DecodeErrorView>(
                    err@,
                ),
            },
    {
        match parse_document(text) {
            None => Err(DecodeError::MalformedDocument),
            Some(root) => Screenshot::from_element(&root),
        }
    }
}

/// The attribute `name` with the value `value`, or none where there is no
/// value.
pub open spec fn option_attribute(name: Seq<char>, value: Option<Seq<char>>) -> Seq<
    (Seq<char>, Seq<char>),
> {
    match value {
        Some(v) => seq![(name, v)],
        None => Seq::empty(),
    }
}

/// The attribute `name` with the number `value` in decimal, or none where
/// there is no number.
pub open spec fn number_attribute_of(name: Seq<char>, value: Option<u32>) -> Seq<
    (Seq<char>, Seq<char>),
> {
    match value {
        Some(n) => seq![(name, digits_of(n as nat))],
        None => Seq::empty(),
    }
}

/// The element named `name` with `attributes` that holds the text `text`.
pub open spec fn text_element(
    name: Seq<char>,
    attributes: Seq<(Seq<char>, Seq<char>)>,
    text: Seq<char>,
) -> ElementView {
    ElementView { name, attributes, children: seq![NodeView::Text(text)] }
}

/// The `image` element that stands for an image: its kind, then its size as
/// far as it is known, and the location as text.
pub open spec fn image_element(image: ImageView) -> ElementView {
    text_element(
        "image"@,
        seq![("type"@, image.kind)] + number_attribute_of("width"@, image.width)
            + number_attribute_of("height"@, image.height),
        image.url,
    )
}

/// The `video` element that stands for a video.
pub open spec fn video_element(video: VideoView) -> ElementView {
    text_element(
        "video"@,
        option_attribute("codec"@, video.codec) + option_attribute("container"@, video.container)
            + number_attribute_of("width"@, video.width) + number_attribute_of(
            "height"@,
            video.height,
        ),
        video.url,
    )
}

/// The `caption` element that stands for one text of a caption.
pub open spec fn caption_element(entry: (Option<Seq<char>>, Seq<char>)) -> ElementView {
    text_element("caption"@, option_attribute("xml:lang"@, entry.0), entry.1)
}

/// The `caption` elements that stand for a caption: one for each of its
/// texts, the default first.
pub open spec fn caption_elements(caption: Option<TranslatableString>) -> Seq<ElementView> {
    match caption {
        Some(c) => c.listed().map_values(|e: (Option<Seq<char>>, Seq<char>)| caption_element(e)),
        None => Seq::empty(),
    }
}

/// The elements inside the `screenshot` element of a screenshot: its
/// captions, its images, its videos.
pub open spec fn screenshot_children(shot: Screenshot) -> Seq<ElementView> {
    caption_elements(shot.caption) + images_view(shot.images@).map_values(|i: ImageView| image_element(i)) + videos_view(
        shot.videos@,
    ).map_values(|v: VideoView| video_element(v))
}

/// The `screenshot` element that stands for a screenshot. One that is not
/// the default is written with the type `extra`.
pub open spec fn screenshot_element(shot: Screenshot) -> ElementView {
    ElementView {
        name: "screenshot"@,
        attributes: seq![
            (
                "type"@,
                if shot.is_default {
                    "default"@
                } else {
                    "extra"@
                },
            ),
        ],
        children: element_nodes(screenshot_children(shot)),
    }
}

/// An image that is written as an element and read again is the same
/// image, where its location is read back as it stands.
pub proof fn image_round_trip(image: ImageView)
    requires
        reads_back(image.url),
    ensures
        image_of(image_element(image)) == Ok::<ImageView, DecodeErrorView>(image),
{
    let e = image_element(image);
    reveal_strlit("type");
    reveal_strlit("width");
    reveal_strlit("height");
    assert("type"@.len() == 4 && "width"@.len() == 5 && "height"@.len() == 6);
    reveal_with_fuel(crate::tree::attribute_from, 4);
    reveal_with_fuel(crate::tree::text_of, 2);
    assert(e.children.drop_last() =~= Seq::empty());
    assert(crate::tree::text_of(e.children) =~= image.url);
    if image.width is Some {
        crate::text::number_round_trip(image.width->0 as nat);
    }
    if image.height is Some {
        crate::text::number_round_trip(image.height->0 as nat);
    }
    assert(e.attribute("type"@) == Some(image.kind));
    assert(number_of(e, "width"@, "image/@width"@) == Ok::<Option<u32>, DecodeErrorView>(
        image.width,
    ));
    assert(number_of(e, "height"@, "image/@height"@) == Ok::<Option<u32>, DecodeErrorView>(
        image.height,
    ));
}

/// A video that is written as an element and read again is the same video,
/// where its location is read back as it stands.
pub proof fn video_round_trip(video: VideoView)
    requires
        reads_back(video.url),
    ensures
        video_of(video_element(video)) == Ok::<VideoView, DecodeErrorView>(video),
{
    let e = video_element(video);
    reveal_strlit("codec");
    reveal_strlit("container");
    reveal_strlit("width");
    reveal_strlit("height");
    assert("codec"@.len() == 5 && "container"@.len() == 9 && "width"@.len() == 5
        && "height"@.len() == 6);
    assert("codec"@[0] == 'c' && "width"@[0] == 'w');
    reveal_with_fuel(crate::tree::attribute_from, 5);
    reveal_with_fuel(crate::tree::text_of, 2);
    assert(e.children.drop_last() =~= Seq::empty());
    assert(crate::tree::text_of(e.children) =~= video.url);
    if video.width is Some {
        crate::text::number_round_trip(video.width->0 as nat);
    }
    if video.height is Some {
        crate::text::number_round_trip(video.height->0 as nat);
    }
    assert(e.attribute("codec"@) == video.codec);
    assert(e.attribute("container"@) == video.container);
    assert(number_of(e, "width"@, "video/@width"@) == Ok::<Option<u32>, DecodeErrorView>(
        video.width,
    ));
    assert(number_of(e, "height"@, "video/@height"@) == Ok::<Option<u32>, DecodeErrorView>(
        video.height,
    ));
}

/// Whether a location is written as the `url` crate writes it and has no
/// space at its ends, so that it is read back as it stands.
pub open spec fn reads_back(url: Seq<char>) -> bool {
    url_parse(url) == Some(url) && trimmed(url) == url
}

/// Whether a screenshot holds only what is read back as it stands: such
/// locations, and caption texts without space at their ends.
pub open spec fn writes_cleanly(shot: Screenshot) -> bool {
    &&& forall|i: int| 0 <= i < shot.images.len() ==> reads_back((#[trigger] shot.images[i]).url@)
    &&& forall|i: int| 0 <= i < shot.videos.len() ==> reads_back((#[trigger] shot.videos[i]).url@)
    &&& shot.caption matches Some(caption) ==> forall|i: int|
        0 <= i < caption.listed().len() ==> trimmed((#[trigger] caption.listed()[i]).1)
            == caption.listed()[i].1
}

proof fn images_round_trip(images: Seq<ImageView>)
    requires
        forall|i: int| 0 <= i < images.len() ==> reads_back((#[trigger] images[i]).url),
    ensures
        try_map(images.map_values(|i: ImageView| image_element(i)), image_decoder()) == Ok::<
            Seq<ImageView>,
            DecodeErrorView,
        >(images),
    decreases images.len(),
{
    let elements = images.map_values(|i: ImageView| image_element(i));
    if images.len() > 0 {
        images_round_trip(images.drop_last());
        assert(elements.drop_last() =~= images.drop_last().map_values(
            |i: ImageView| image_element(i),
        ));
        image_round_trip(images.last());
        assert(elements.last() == image_element(images.last()));
        assert(images.drop_last().push(images.last()) =~= images);
    } else {
        assert(images =~= Seq::empty());
    }
}

proof fn videos_round_trip(videos: Seq<VideoView>)
    requires
        forall|i: int| 0 <= i < videos.len() ==> reads_back((#[trigger] videos[i]).url),
    ensures
        try_map(videos.map_values(|v: VideoView| video_element(v)), video_decoder()) == Ok::<
            Seq<VideoView>,
            DecodeErrorView,
        >(videos),
    decreases videos.len(),
{
    let elements = videos.map_values(|v: VideoView| video_element(v));
    if videos.len() > 0 {
        videos_round_trip(videos.drop_last());
        assert(elements.drop_last() =~= videos.drop_last().map_values(
            |v: VideoView| video_element(v),
        ));
        video_round_trip(videos.last());
        assert(elements.last() == video_element(videos.last()));
        assert(videos.drop_last().push(videos.last()) =~= videos);
    } else {
        assert(videos =~= Seq::empty());
    }
}

proof fn captions_round_trip(entries: Seq<(Option<Seq<char>>, Seq<char>)>)
    requires
        forall|i: int| 0 <= i < entries.len() ==> trimmed((#[trigger] entries[i]).1) == entries[i].1,
    ensures
        tagged_texts(
            entries.map_values(|e: (Option<Seq<char>>, Seq<char>)| caption_element(e)),
        ) == entries,
{
    let elements = entries.map_values(|e: (Option<Seq<char>>, Seq<char>)| caption_element(e));
    assert forall|i: int| 0 <= i < entries.len() implies tagged_texts(elements)[i]
        == entries[i] by {
        let e = caption_element(entries[i]);
        reveal_with_fuel(crate::tree::attribute_from, 2);
        reveal_with_fuel(crate::tree::text_of, 2);
        assert(e.children.drop_last() =~= Seq::empty());
        assert(crate::tree::text_of(e.children) =~= entries[i].1);
    }
    assert(tagged_texts(elements) =~= entries);
}

/// A screenshot that is written as an element and read again is the same
/// screenshot, where it holds only what is read back as it stands.
pub proof fn screenshot_round_trip(shot: Screenshot)
    requires
        writes_cleanly(shot),
    ensures
        screenshot_of(screenshot_element(shot)) == Ok::<ScreenshotView, DecodeErrorView>(shot@),
{
    let e = screenshot_element(shot);
    let captions = caption_elements(shot.caption);
    let images = images_view(shot.images@).map_values(|i: ImageView| image_element(i));
    let videos = videos_view(shot.videos@).map_values(|v: VideoView| video_element(v));
    reveal_strlit("caption");
    reveal_strlit("image");
    reveal_strlit("video");
    reveal_strlit("default");
    reveal_strlit("extra");
    assert("caption"@.len() == 7 && "image"@.len() == 5 && "video"@.len() == 5);
    assert("image"@[0] == 'i' && "video"@[0] == 'v');
    assert("default"@.len() == 7 && "extra"@.len() == 5);
    assert(e.children =~= element_nodes(captions) + element_nodes(images) + element_nodes(videos));
    assert forall|name: Seq<char>|
        #![trigger named_of(e.children, name)]
        named_of(e.children, name) == named_of(element_nodes(captions), name) + named_of(
            element_nodes(images),
            name,
        ) + named_of(element_nodes(videos), name) by {
        named_of_concat(element_nodes(captions) + element_nodes(images), element_nodes(videos), name);
        named_of_concat(element_nodes(captions), element_nodes(images), name);
    }
    assert forall|name: Seq<char>|
        #![trigger named_of(e.children, name)]
        named_of(e.children, name) == if name == "caption"@ {
            captions
        } else if name == "image"@ {
            images
        } else if name == "video"@ {
            videos
        } else {
            Seq::empty()
        } by {
        named_of_uniform(captions, "caption"@, name);
        named_of_uniform(images, "image"@, name);
        named_of_uniform(videos, "video"@, name);
        let parts = named_of(element_nodes(captions), name) + named_of(element_nodes(images), name)
            + named_of(element_nodes(videos), name);
        if name == "caption"@ {
            assert(parts =~= captions);
        } else if name == "image"@ {
            assert(parts =~= images);
        } else if name == "video"@ {
            assert(parts =~= videos);
        } else {
            assert(parts =~= Seq::empty());
        }
    }
    assert(e.named("image"@) == images);
    assert(e.named("video"@) == videos);
    assert(e.named("caption"@) == captions);
    assert forall|i: int| 0 <= i < images_view(shot.images@).len() implies reads_back(
        (#[trigger] images_view(shot.images@)[i]).url,
    ) by {
        assert(reads_back(shot.images[i].url@));
    }
    assert forall|i: int| 0 <= i < videos_view(shot.videos@).len() implies reads_back(
        (#[trigger] videos_view(shot.videos@)[i]).url,
    ) by {
        assert(reads_back(shot.videos[i].url@));
    }
    images_round_trip(images_view(shot.images@));
    videos_round_trip(videos_view(shot.videos@));
    match shot.caption {
        Some(caption) => {
            captions_round_trip(caption.listed());
            caption.listing_merges_back();
        },
        None => {
            assert(tagged_texts(captions) =~= Seq::empty());
        },
    }
    reveal_with_fuel(crate::tree::attribute_from, 2);
    assert(e.attribute("type"@) == Some(
        if shot.is_default {
            "default"@
        } else {
            "extra"@
        },
    ));
}

/// Adds the attribute `name` with the value `value`, where there is one.
fn push_option_attribute(attributes: &mut Vec<Attribute>, name: &str, value: &Option<String>)
    ensures
        attributes_view(final(attributes)@) == attributes_view(old(attributes)@)
            + option_attribute(name@, text_option_view(*value)),
{
    let ghost before = attributes_view(attributes@);
    match value {
        Some(v) => {
            attributes.push(Attribute { name: name.to_owned(), value: v.clone() });
            assert(attributes_view(attributes@) =~= before + seq![(name@, v@)]);
        },
        None => {
            assert(attributes_view(attributes@) =~= before + Seq::empty());
        },
    }
}

/// Adds the attribute `name` with the number `value`, where there is one.
fn push_number_attribute(attributes: &mut Vec<Attribute>, name: &str, value: Option<u32>)
    ensures
        attributes_view(final(attributes)@) == attributes_view(old(attributes)@)
            + number_attribute_of(name@, value),
{
    let ghost before = attributes_view(attributes@);
    match value {
        Some(n) => {
            attributes.push(Attribute { name: name.to_owned(), value: u32_text(n) });
            assert(attributes_view(attributes@) =~= before + seq![(name@, digits_of(n as nat))]);
        },
        None => {
            assert(attributes_view(attributes@) =~= before + Seq::empty());
        },
    }
}

/// The element named `name` with `attributes` that holds the text `text`.
fn make_text_element(name: &str, attributes: Vec<Attribute>, text: &str) -> (r: Element)
    ensures
        r@ == text_element(name@, attributes_view(attributes@), text@),
{
    let mut children: Vec<Node> = Vec::new();
    children.push(Node::Text(text.to_owned()));
    let element = Element { name: name.to_owned(), attributes, children };
    proof {
        element_children_view(element);
        assert(nodes_view(element.children@) =~= seq![NodeView::Text(text@)]);
    }
    element
}

impl Image {
    /// The `image` element that stands for this image.
    pub fn to_element(&self) -> (r: Element)
        ensures
            r@ == image_element(self@),
    {
        let mut attributes: Vec<Attribute> = Vec::new();
        let kind = self.kind.to_token();
        attributes.push(Attribute { name: "type".to_owned(), value: kind });
        assert(attributes_view(attributes@) =~= seq![("type"@, self@.kind)]);
        push_number_attribute(&mut attributes, "width", self.width);
        push_number_attribute(&mut attributes, "height", self.height);
        make_text_element("image", attributes, self.url.as_str())
    }
}

impl Video {
    /// The `video` element that stands for this video.
    pub fn to_element(&self) -> (r: Element)
        ensures
            r@ == video_element(self@),
    {
        let mut attributes: Vec<Attribute> = Vec::new();
        assert(attributes_view(attributes@) =~= Seq::empty());
        push_option_attribute(&mut attributes, "codec", &self.codec);
        push_option_attribute(&mut attributes, "container", &self.container);
        push_number_attribute(&mut attributes, "width", self.width);
        push_number_attribute(&mut attributes, "height", self.height);
        assert(attributes_view(attributes@) =~= video_element(self@).attributes);
        make_text_element("video", attributes, self.url.as_str())
    }
}

impl Screenshot {
    /// The `screenshot` element that stands for this screenshot.
    pub fn to_element(&self) -> (r: Element)
        ensures
            r@ == screenshot_element(*self),
    {
        let mut children: Vec<Node> = Vec::new();
        let ghost captions: Seq<ElementView> = caption_elements(self.caption);
        let ghost images = images_view(self.images@).map_values(|i: ImageView| image_element(i));
        let ghost videos = videos_view(self.videos@).map_values(|v: VideoView| video_element(v));
        assert(nodes_view(children@) =~= element_nodes(captions.take(0)));
        match &self.caption {
            Some(caption) => {
                let entries = caption.entries();
                let mut i: usize = 0;
                while i < entries.len()
                    invariant
                        i <= entries.len(),
                        tagged_texts_view(entries@) == caption.listed(),
                        captions == caption_elements(Some(*caption)),
                        nodes_view(children@) == element_nodes(captions.take(i as int)),
                    decreases entries.len() - i,
                {
                    let mut attributes: Vec<Attribute> = Vec::new();
                    assert(attributes_view(attributes@) =~= Seq::empty());
                    push_option_attribute(&mut attributes, "xml:lang", &entries[i].0);
                    let element = make_text_element("caption", attributes, entries[i].1.as_str());
                    proof {
                        assert(tagged_texts_view(entries@)[i as int] == crate::types::tagged_view(
                            entries[i as int],
                        ));
                        assert(element@ == captions[i as int]);
                    }
                    let ghost before = nodes_view(children@);
                    children.push(Node::Element(element));
                    assert(nodes_view(children@) =~= before.push(NodeView::Element(element@)));
                    assert(nodes_view(children@) =~= element_nodes(captions.take(i + 1)));
                    i = i + 1;
                }
                assert(captions.take(i as int) =~= captions);
            },
            None => {},
        }
        assert(nodes_view(children@) =~= element_nodes(captions));
        let mut i: usize = 0;
        while i < self.images.len()
            invariant
                i <= self.images.len(),
                images == images_view(self.images@).map_values(|i: ImageView| image_element(i)),
                nodes_view(children@) == element_nodes(captions + images.take(i as int)),
            decreases self.images.len() - i,
        {
            let element = self.images[i].to_element();
            assert(element@ == images[i as int]);
            let ghost before = nodes_view(children@);
            children.push(Node::Element(element));
            assert(nodes_view(children@) =~= before.push(NodeView::Element(element@)));
            assert(nodes_view(children@) =~= element_nodes(captions + images.take(i + 1)));
            i = i + 1;
        }
        assert(images.take(i as int) =~= images);
        let mut i: usize = 0;
        assert(nodes_view(children@) =~= element_nodes(captions + images + videos.take(0)));
        while i < self.videos.len()
            invariant
                i <= self.videos.len(),
                videos == videos_view(self.videos@).map_values(|v: VideoView| video_element(v)),
                nodes_view(children@) == element_nodes(captions + images + videos.take(i as int)),
            decreases self.videos.len() - i,
        {
            let element = self.videos[i].to_element();
            assert(element@ == videos[i as int]);
            let ghost before = nodes_view(children@);
            children.push(Node::Element(element));
            assert(nodes_view(children@) =~= before.push(NodeView::Element(element@)));
            assert(nodes_view(children@) =~= element_nodes(
                captions + images + videos.take(i + 1),
            ));
            i = i + 1;
        }
        assert(videos.take(i as int) =~= videos);
        let mut attributes: Vec<Attribute> = Vec::new();
        let token = if self.is_default {
            "default"
        } else {
            "extra"
        };
        attributes.push(Attribute { name: "type".to_owned(), value: token.to_owned() });
        let element = Element { name: "screenshot".to_owned(), attributes, children };
        proof {
            element_children_view(element);
            assert(element@.attributes =~= screenshot_element(*self).attributes);
            assert(captions + images + videos == screenshot_children(*self));
        }
        element
    }

    /// The screenshot as markup.
    pub fn to_xml(&self) -> (r: String)
        ensures
            r@ == crate::markup::element_markup(screenshot_element(*self)),
    {
        self.to_element().to_xml()
    }
}

impl Default for Screenshot {
    /// The default screenshot of a component, with nothing in it.
    fn default() -> (r: Self)
        ensures
            r.is_default,
            r.caption is None,
            r.images@.len() == 0,
            r.videos@.len() == 0,
    {
        Screenshot { is_default: true, caption: None, images: Vec::new(), videos: Vec::new() }
    }
}

} // verus!
