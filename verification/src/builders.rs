//! Builders: the way to put a model together by hand.
//!
//! A builder takes what has no default when it is made and the rest by
//! chained calls, and it never fails: what could be invalid was validated
//! before it got here. The view of a builder is the view of what `build`
//! will return.

use vstd::prelude::*;
use crate::collection::{components_view, Collection, CollectionView};
use crate::component::{
    categories_view, icons_view, provides_view, screenshots_view, urls_view, Component,
    ComponentView,
};
use crate::enums::{Category, ComponentKind, Icon, ImageKind, ProjectUrl, Provide};
use crate::ident::AppId;
use crate::release::{releases_view, Release, ReleaseView};
use crate::screenshot::{images_view, videos_view, Image, ImageView, Screenshot, ScreenshotView, Video, VideoView};
use crate::types::{strings_view, TranslatableString, TranslatableVec};
use crate::weburl::Url;

verus! {

/// Builds an `Image`.
pub struct ImageBuilder {
    image: Image,
}

impl View for ImageBuilder {
    type V = ImageView;

    closed spec fn view(&self) -> ImageView {
        self.image@
    }
}

impl ImageBuilder {
    /// Whether what `build` will return is in the form that decoding gives.
    pub closed spec fn wf(&self) -> bool {
        self.image.wf()
    }

    /// A full-size image at `url`, of unknown size.
    pub fn new(url: Url) -> (b: Self)
        ensures
            b@ == (ImageView { kind: "source"@, width: None, height: None, url: url@ }),
            b.wf(),
    {
        ImageBuilder { image: Image { kind: ImageKind::Source, width: None, height: None, url } }
    }

    /// Sets the kind.
    pub fn kind(self, kind: ImageKind) -> (b: Self)
        ensures
            b@ == (ImageView { kind: kind.token(), ..self@ }),
            kind.wf() ==> b.wf(),
    {
        let mut b = self;
        b.image.kind = kind;
        b
    }

    /// Sets the width in pixels.
    pub fn width(self, width: u32) -> (b: Self)
        ensures
            b@ == (ImageView { width: Some(width), ..self@ }),
            b.wf() == self.wf(),
    {
        let mut b = self;
        b.image.width = Some(width);
        b
    }

    /// Sets the height in pixels.
    pub fn height(self, height: u32) -> (b: Self)
        ensures
            b@ == (ImageView { height: Some(height), ..self@ }),
            b.wf() == self.wf(),
    {
        let mut b = self;
        b.image.height = Some(height);
        b
    }

    /// The finished value.
    pub fn build(self) -> (r: Image)
        ensures
            r@ == self@,
            r.wf() == self.wf(),
    {
        self.image
    }
}

/// Builds a `Video`.
pub struct VideoBuilder {
    video: Video,
}

impl View for VideoBuilder {
    type V = VideoView;

    closed spec fn view(&self) -> VideoView {
        self.video@
    }
}

impl VideoBuilder {
    /// A video at `url`, with nothing known of it.
    pub fn new(url: Url) -> (b: Self)
        ensures
            b@ == (VideoView { width: None, height: None, codec: None, container: None, url: url@ }),
    {
        VideoBuilder {
            video: Video { width: None, height: None, codec: None, container: None, url },
        }
    }

    /// Sets the width in pixels.
    pub fn width(self, width: u32) -> (b: Self)
        ensures
            b@ == (VideoView { width: Some(width), ..self@ }),
    {
        let mut b = self;
        b.video.width = Some(width);
        b
    }

    /// Sets the height in pixels.
    pub fn height(self, height: u32) -> (b: Self)
        ensures
            b@ == (VideoView { height: Some(height), ..self@ }),
    {
        let mut b = self;
        b.video.height = Some(height);
        b
    }

    /// Sets the codec.
    pub fn codec(self, codec: &str) -> (b: Self)
        ensures
            b@ == (VideoView { codec: Some(codec@), ..self@ }),
    {
        let mut b = self;
        b.video.codec = Some(codec.to_owned());
        b
    }

    /// Sets the container format.
    pub fn container(self, container: &str) -> (b: Self)
        ensures
            b@ == (VideoView { container: Some(container@), ..self@ }),
    {
        let mut b = self;
        b.video.container = Some(container.to_owned());
        b
    }

    /// The finished value.
    pub fn build(self) -> (r: Video)
        ensures
            r@ == self@,
    {
        self.video
    }
}

/// Builds a `Screenshot`.
pub struct ScreenshotBuilder {
    screenshot: Screenshot,
}

impl View for ScreenshotBuilder {
    type V = ScreenshotView;

    closed spec fn view(&self) -> ScreenshotView {
        self.screenshot@
    }
}

impl ScreenshotBuilder {
    /// Whether what `build` will return is in the form that decoding gives.
    pub closed spec fn wf(&self) -> bool {
        self.screenshot.wf()
    }

    /// A default screenshot with nothing in it.
    pub fn new() -> (b: Self)
        ensures
            b@ == (ScreenshotView { is_default: true, caption: None, images: Seq::empty(), videos: Seq::empty() }),
            b.wf(),
    {
        let b = ScreenshotBuilder {
            screenshot: Screenshot {
                is_default: true,
                caption: None,
                images: Vec::new(),
                videos: Vec::new(),
            },
        };
        assert(images_view(b.screenshot.images@) =~= Seq::empty());
        assert(videos_view(b.screenshot.videos@) =~= Seq::empty());
        b
    }

    /// Says whether this is the default screenshot of its component.
    pub fn set_default(self, is_default: bool) -> (b: Self)
        ensures
            b@ == (ScreenshotView { is_default: is_default, ..self@ }),
            b.wf() == self.wf(),
    {
        let mut b = self;
        b.screenshot.is_default = is_default;
        b
    }

    /// Sets the caption.
    pub fn caption(self, caption: TranslatableString) -> (b: Self)
        ensures
            b@ == (ScreenshotView { caption: Some(caption@), ..self@ }),
            b.wf() == self.wf(),
    {
        let mut b = self;
        b.screenshot.caption = Some(caption);
        b
    }

    /// Adds an image behind those already there.
    pub fn image(self, image: Image) -> (b: Self)
        ensures
            b@ == (ScreenshotView { images: self@.images.push(image@), ..self@ }),
            self.wf() && image.wf() ==> b.wf(),
    {
        let mut b = self;
        let ghost before = images_view(b.screenshot.images@);
        b.screenshot.images.push(image);
        assert(images_view(b.screenshot.images@) =~= before.push(image@));
        b
    }

    /// Adds a video behind those already there.
    pub fn video(self, video: Video) -> (b: Self)
        ensures
            b@ == (ScreenshotView { videos: self@.videos.push(video@), ..self@ }),
            b.wf() == self.wf(),
    {
        let mut b = self;
        let ghost before = videos_view(b.screenshot.videos@);
        b.screenshot.videos.push(video);
        assert(videos_view(b.screenshot.videos@) =~= before.push(video@));
        b
    }

    /// The finished value.
    pub fn build(self) -> (r: Screenshot)
        ensures
            r@ == self@,
            r.wf() == self.wf(),
    {
        self.screenshot
    }
}

/// Builds a `Release`.
pub struct ReleaseBuilder {
    release: Release,
}

impl View for ReleaseBuilder {
    type V = ReleaseView;

    closed spec fn view(&self) -> ReleaseView {
        self.release@
    }
}

impl ReleaseBuilder {
    /// The release `version`, of unknown date.
    pub fn new(version: &str) -> (b: Self)
        ensures
            b@ == (ReleaseView { version: version@, date: None }),
    {
        ReleaseBuilder { release: Release { version: version.to_owned(), date: None } }
    }

    /// Sets the date.
    pub fn date(self, date: &str) -> (b: Self)
        ensures
            b@ == (ReleaseView { date: Some(date@), ..self@ }),
    {
        let mut b = self;
        b.release.date = Some(date.to_owned());
        b
    }

    /// The finished value.
    pub fn build(self) -> (r: Release)
        ensures
            r@ == self@,
    {
        self.release
    }
}

/// Builds a `Component`.
pub struct ComponentBuilder {
    component: Component,
}

impl View for ComponentBuilder {
    type V = ComponentView;

    closed spec fn view(&self) -> ComponentView {
        self.component@
    }
}

impl ComponentBuilder {
    /// Whether what `build` will return is in the form that decoding gives.
    pub closed spec fn wf(&self) -> bool {
        self.component.wf()
    }

    /// A generic component with the identifier `id` and the name `name`.
    pub fn new(id: AppId, name: TranslatableString) -> (b: Self)
        ensures
            b@ == (ComponentView {
                id: id@,
                kind: "generic"@,
                name: name@,
                summary: None,
                pkgname: None,
                project_license: None,
                metadata_license: None,
                keywords: None,
                urls: Seq::empty(),
                screenshots: Seq::empty(),
                releases: Seq::empty(),
                provides: Seq::empty(),
                mimetypes: Seq::empty(),
                categories: Seq::empty(),
                icons: Seq::empty(),
            }),
            b.wf(),
    {
        let b = ComponentBuilder {
            component: Component {
                id,
                kind: ComponentKind::Generic,
                name,
                summary: None,
                pkgname: None,
                project_license: None,
                metadata_license: None,
                keywords: None,
                urls: Vec::new(),
                screenshots: Vec::new(),
                releases: Vec::new(),
                provides: Vec::new(),
                mimetypes: Vec::new(),
                categories: Vec::new(),
                icons: Vec::new(),
            },
        };
        assert(urls_view(b.component.urls@) =~= Seq::empty());
        assert(screenshots_view(b.component.screenshots@) =~= Seq::empty());
        assert(releases_view(b.component.releases@) =~= Seq::empty());
        assert(provides_view(b.component.provides@) =~= Seq::empty());
        assert(strings_view(b.component.mimetypes@) =~= Seq::empty());
        assert(categories_view(b.component.categories@) =~= Seq::empty());
        assert(icons_view(b.component.icons@) =~= Seq::empty());
        b
    }

    /// Sets the kind.
    pub fn kind(self, kind: ComponentKind) -> (b: Self)
        ensures
            b@ == (ComponentView { kind: kind.token(), ..self@ }),
            self.wf() && kind.wf() ==> b.wf(),
    {
        let mut b = self;
        b.component.kind = kind;
        b
    }

    /// Sets the summary.
    pub fn summary(self, summary: TranslatableString) -> (b: Self)
        ensures
            b@ == (ComponentView { summary: Some(summary@), ..self@ }),
            b.wf() == self.wf(),
    {
        let mut b = self;
        b.component.summary = Some(summary);
        b
    }

    /// Sets the name of the package.
    pub fn pkgname(self, pkgname: &str) -> (b: Self)
        ensures
            b@ == (ComponentView { pkgname: Some(pkgname@), ..self@ }),
            b.wf() == self.wf(),
    {
        let mut b = self;
        b.component.pkgname = Some(pkgname.to_owned());
        b
    }

    /// Sets the license of the project.
    pub fn project_license(self, license: String) -> (b: Self)
        ensures
            b@ == (ComponentView { project_license: Some(license@), ..self@ }),
            b.wf() == self.wf(),
    {
        let mut b = self;
        b.component.project_license = Some(license);
        b
    }

    /// Sets the license of the metadata.
    pub fn metadata_license(self, license: String) -> (b: Self)
        ensures
            b@ == (ComponentView { metadata_license: Some(license@), ..self@ }),
            b.wf() == self.wf(),
    {
        let mut b = self;
        b.component.metadata_license = Some(license);
        b
    }

    /// Sets the keywords.
    pub fn keywords(self, keywords: TranslatableVec) -> (b: Self)
        ensures
            b@ == (ComponentView { keywords: Some(keywords@), ..self@ }),
            b.wf() == self.wf(),
    {
        let mut b = self;
        b.component.keywords = Some(keywords);
        b
    }

    /// Adds a project location behind those already there.
    pub fn url(self, url: ProjectUrl) -> (b: Self)
        ensures
            b@ == (ComponentView { urls: self@.urls.push(url@), ..self@ }),
            self.wf() && url.wf() ==> b.wf(),
    {
        let mut b = self;
        let ghost before = urls_view(b.component.urls@);
        b.component.urls.push(url);
        assert(urls_view(b.component.urls@) =~= before.push(url@));
        b
    }

    /// Adds a screenshot behind those already there.
    pub fn screenshot(self, screenshot: Screenshot) -> (b: Self)
        ensures
            b@ == (ComponentView { screenshots: self@.screenshots.push(screenshot@), ..self@ }),
            self.wf() && screenshot.wf() ==> b.wf(),
    {
        let mut b = self;
        let ghost before = screenshots_view(b.component.screenshots@);
        b.component.screenshots.push(screenshot);
        assert(screenshots_view(b.component.screenshots@) =~= before.push(screenshot@));
        b
    }

    /// Adds a release behind those already there.
    pub fn release(self, release: Release) -> (b: Self)
        ensures
            b@ == (ComponentView { releases: self@.releases.push(release@), ..self@ }),
            b.wf() == self.wf(),
    {
        let mut b = self;
        let ghost before = releases_view(b.component.releases@);
        b.component.releases.push(release);
        assert(releases_view(b.component.releases@) =~= before.push(release@));
        b
    }

    /// Adds a provided item behind those already there.
    pub fn provide(self, provide: Provide) -> (b: Self)
        ensures
            b@ == (ComponentView { provides: self@.provides.push(provide@), ..self@ }),
            self.wf() && provide.wf() ==> b.wf(),
    {
        let mut b = self;
        let ghost before = provides_view(b.component.provides@);
        b.component.provides.push(provide);
        assert(provides_view(b.component.provides@) =~= before.push(provide@));
        b
    }

    /// Adds a media type behind those already there.
    pub fn mimetype(self, mimetype: &str) -> (b: Self)
        ensures
            b@ == (ComponentView { mimetypes: self@.mimetypes.push(mimetype@), ..self@ }),
            b.wf() == self.wf(),
    {
        let mut b = self;
        let ghost before = strings_view(b.component.mimetypes@);
        b.component.mimetypes.push(mimetype.to_owned());
        assert(strings_view(b.component.mimetypes@) =~= before.push(mimetype@));
        b
    }

    /// Adds a category behind those already there.
    pub fn category(self, category: Category) -> (b: Self)
        ensures
            b@ == (ComponentView { categories: self@.categories.push(category.token()), ..self@ }),
            self.wf() && category.wf() ==> b.wf(),
    {
        let mut b = self;
        let ghost before = categories_view(b.component.categories@);
        b.component.categories.push(category);
        assert(categories_view(b.component.categories@) =~= before.push(category.token()));
        b
    }

    /// Adds an icon behind those already there.
    pub fn icon(self, icon: Icon) -> (b: Self)
        ensures
            b@ == (ComponentView { icons: self@.icons.push(icon@), ..self@ }),
            self.wf() && icon.wf() ==> b.wf(),
    {
        let mut b = self;
        let ghost before = icons_view(b.component.icons@);
        b.component.icons.push(icon);
        assert(icons_view(b.component.icons@) =~= before.push(icon@));
        b
    }

    /// The finished value.
    pub fn build(self) -> (r: Component)
        ensures
            r@ == self@,
            r.wf() == self.wf(),
    {
        self.component
    }
}

/// Builds a `Collection`.
pub struct CollectionBuilder {
    collection: Collection,
}

impl View for CollectionBuilder {
    type V = CollectionView;

    closed spec fn view(&self) -> CollectionView {
        self.collection@
    }
}

impl CollectionBuilder {
    /// Whether what `build` will return is in the form that decoding gives.
    pub closed spec fn wf(&self) -> bool {
        self.collection.wf()
    }

    /// An empty collection of the format `version`.
    pub fn new(version: &str) -> (b: Self)
        ensures
            b@ == (CollectionView { version: version@, origin: None, components: Seq::empty() }),
            b.wf(),
    {
        let b = CollectionBuilder {
            collection: Collection {
                version: version.to_owned(),
                origin: None,
                components: Vec::new(),
            },
        };
        assert(components_view(b.collection.components@) =~= Seq::empty());
        b
    }

    /// Sets the origin.
    pub fn origin(self, origin: &str) -> (b: Self)
        ensures
            b@ == (CollectionView { origin: Some(origin@), ..self@ }),
            b.wf() == self.wf(),
    {
        let mut b = self;
        b.collection.origin = Some(origin.to_owned());
        b
    }

    /// Adds a component behind those already there.
    pub fn component(self, component: Component) -> (b: Self)
        ensures
            b@ == (CollectionView { components: self@.components.push(component@), ..self@ }),
            self.wf() && component.wf() ==> b.wf(),
    {
        let mut b = self;
        let ghost before = components_view(b.collection.components@);
        b.collection.components.push(component);
        assert(components_view(b.collection.components@) =~= before.push(component@));
        b
    }

    /// The finished value.
    pub fn build(self) -> (r: Collection)
        ensures
            r@ == self@,
            r.wf() == self.wf(),
    {
        self.collection
    }
}

/// A copy of an icon.
fn copy_icon(icon: &Icon) -> (r: Icon)
    ensures
        r@ == icon@,
        icon.wf() ==> r.wf(),
{
    match icon {
        Icon::Stock(name) => Icon::Stock(name.clone()),
        Icon::Cached(name) => Icon::Cached(name.clone()),
        Icon::Local { path, width, height } => Icon::Local {
            path: path.clone(),
            width: *width,
            height: *height,
        },
        Icon::Remote { url, width, height } => Icon::Remote {
            url: url.clone(),
            width: *width,
            height: *height,
        },
        Icon::Unknown(kind, value) => Icon::Unknown(kind.clone(), value.clone()),
    }
}

impl Image {
    /// The same image, put together by an `ImageBuilder`: what decoding
    /// gives can be built by hand.
    pub fn rebuild(&self) -> (r: Image)
        ensures
            r@ == self@,
            r.wf(),
    {
        let kind = ImageKind::from_token(self.kind.to_token().as_str());
        let mut b = ImageBuilder::new(self.url.clone()).kind(kind);
        if let Some(width) = self.width {
            b = b.width(width);
        }
        if let Some(height) = self.height {
            b = b.height(height);
        }
        b.build()
    }
}

impl Video {
    /// The same video, put together by a `VideoBuilder`.
    pub fn rebuild(&self) -> (r: Video)
        ensures
            r@ == self@,
    {
        let mut b = VideoBuilder::new(self.url.clone());
        if let Some(width) = self.width {
            b = b.width(width);
        }
        if let Some(height) = self.height {
            b = b.height(height);
        }
        if let Some(codec) = &self.codec {
            b = b.codec(codec.as_str());
        }
        if let Some(container) = &self.container {
            b = b.container(container.as_str());
        }
        b.build()
    }
}

impl Release {
    /// The same release, put together by a `ReleaseBuilder`.
    pub fn rebuild(&self) -> (r: Release)
        ensures
            r@ == self@,
    {
        let mut b = ReleaseBuilder::new(self.version.as_str());
        if let Some(date) = &self.date {
            b = b.date(date.as_str());
        }
        b.build()
    }
}

impl Screenshot {
    /// The same screenshot, put together by a `ScreenshotBuilder`.
    pub fn rebuild(&self) -> (r: Screenshot)
        ensures
            r@ == self@,
            r.wf(),
    {
        let mut b = ScreenshotBuilder::new().set_default(self.is_default);
        if let Some(caption) = &self.caption {
            b = b.caption(caption.rebuild());
        }
        let ghost base = b@;
        let ghost images = images_view(self.images@);
        let mut i: usize = 0;
        assert(images.take(0) =~= Seq::empty());
        while i < self.images.len()
            invariant
                i <= self.images.len(),
                images == images_view(self.images@),
                b@ == (ScreenshotView { images: images.take(i as int), ..base }),
                b.wf(),
            decreases self.images.len() - i,
        {
            b = b.image(self.images[i].rebuild());
            assert(images.take(i + 1) =~= images.take(i as int).push(self.images[i as int]@));
            i = i + 1;
        }
        assert(images.take(i as int) =~= images);
        let ghost base = b@;
        let ghost videos = videos_view(self.videos@);
        let mut i: usize = 0;
        assert(videos.take(0) =~= Seq::empty());
        while i < self.videos.len()
            invariant
                i <= self.videos.len(),
                videos == videos_view(self.videos@),
                b@ == (ScreenshotView { videos: videos.take(i as int), ..base }),
                b.wf(),
            decreases self.videos.len() - i,
        {
            b = b.video(self.videos[i].rebuild());
            assert(videos.take(i + 1) =~= videos.take(i as int).push(self.videos[i as int]@));
            i = i + 1;
        }
        assert(videos.take(i as int) =~= videos);
        b.build()
    }
}

impl Component {
    /// The same component, put together by a `ComponentBuilder`: what
    /// decoding gives can be built by hand.
    pub fn rebuild(&self) -> (r: Component)
        ensures
            r@ == self@,
            self.wf() ==> r.wf(),
    {
        let kind = ComponentKind::from_token(self.kind.to_token().as_str());
        let mut b = ComponentBuilder::new(self.id.clone(), self.name.rebuild()).kind(kind);
        if let Some(summary) = &self.summary {
            b = b.summary(summary.rebuild());
        }
        if let Some(pkgname) = &self.pkgname {
            b = b.pkgname(pkgname.as_str());
        }
        if let Some(license) = &self.project_license {
            b = b.project_license(license.clone());
        }
        if let Some(license) = &self.metadata_license {
            b = b.metadata_license(license.clone());
        }
        if let Some(keywords) = &self.keywords {
            b = b.keywords(keywords.rebuild());
        }
        let ghost base = b@;
        let ghost urls = urls_view(self.urls@);
        let mut i: usize = 0;
        assert(urls.take(0) =~= Seq::empty());
        while i < self.urls.len()
            invariant
                i <= self.urls.len(),
                urls == urls_view(self.urls@),
                b@ == (ComponentView { urls: urls.take(i as int), ..base }),
                b.wf(),
            decreases self.urls.len() - i,
        {
            let kind = self.urls[i].kind_token();
            b = b.url(ProjectUrl::from_parts(kind.as_str(), self.urls[i].target().clone()));
            assert(urls.take(i + 1) =~= urls.take(i as int).push(self.urls[i as int]@));
            i = i + 1;
        }
        assert(urls.take(i as int) =~= urls);
        let ghost base = b@;
        let ghost screenshots = screenshots_view(self.screenshots@);
        let mut i: usize = 0;
        assert(screenshots.take(0) =~= Seq::empty());
        while i < self.screenshots.len()
            invariant
                i <= self.screenshots.len(),
                screenshots == screenshots_view(self.screenshots@),
                b@ == (ComponentView { screenshots: screenshots.take(i as int), ..base }),
                b.wf(),
            decreases self.screenshots.len() - i,
        {
            b = b.screenshot(self.screenshots[i].rebuild());
            assert(screenshots.take(i + 1) =~= screenshots.take(i as int).push(
                self.screenshots[i as int]@,
            ));
            i = i + 1;
        }
        assert(screenshots.take(i as int) =~= screenshots);
        let ghost base = b@;
        let ghost releases = releases_view(self.releases@);
        let mut i: usize = 0;
        assert(releases.take(0) =~= Seq::empty());
        while i < self.releases.len()
            invariant
                i <= self.releases.len(),
                releases == releases_view(self.releases@),
                b@ == (ComponentView { releases: releases.take(i as int), ..base }),
                b.wf(),
            decreases self.releases.len() - i,
        {
            b = b.release(self.releases[i].rebuild());
            assert(releases.take(i + 1) =~= releases.take(i as int).push(
                self.releases[i as int]@,
            ));
            i = i + 1;
        }
        assert(releases.take(i as int) =~= releases);
        let ghost base = b@;
        let ghost provides = provides_view(self.provides@);
        let mut i: usize = 0;
        assert(provides.take(0) =~= Seq::empty());
        while i < self.provides.len()
            invariant
                i <= self.provides.len(),
                provides == provides_view(self.provides@),
                b@ == (ComponentView { provides: provides.take(i as int), ..base }),
                b.wf(),
            decreases self.provides.len() - i,
        {
            let kind = self.provides[i].kind_token();
            b = b.provide(Provide::from_parts(kind.as_str(), self.provides[i].target().as_str()));
            assert(provides.take(i + 1) =~= provides.take(i as int).push(
                self.provides[i as int]@,
            ));
            i = i + 1;
        }
        assert(provides.take(i as int) =~= provides);
        let ghost base = b@;
        let ghost mimetypes = strings_view(self.mimetypes@);
        let mut i: usize = 0;
        assert(mimetypes.take(0) =~= Seq::empty());
        while i < self.mimetypes.len()
            invariant
                i <= self.mimetypes.len(),
                mimetypes == strings_view(self.mimetypes@),
                b@ == (ComponentView { mimetypes: mimetypes.take(i as int), ..base }),
                b.wf(),
            decreases self.mimetypes.len() - i,
        {
            b = b.mimetype(self.mimetypes[i].as_str());
            assert(mimetypes.take(i + 1) =~= mimetypes.take(i as int).push(
                self.mimetypes[i as int]@,
            ));
            i = i + 1;
        }
        assert(mimetypes.take(i as int) =~= mimetypes);
        let ghost base = b@;
        let ghost categories = categories_view(self.categories@);
        let mut i: usize = 0;
        assert(categories.take(0) =~= Seq::empty());
        while i < self.categories.len()
            invariant
                i <= self.categories.len(),
                categories == categories_view(self.categories@),
                b@ == (ComponentView { categories: categories.take(i as int), ..base }),
                b.wf(),
            decreases self.categories.len() - i,
        {
            let token = self.categories[i].to_token();
            b = b.category(Category::from_token(token.as_str()));
            assert(categories.take(i + 1) =~= categories.take(i as int).push(
                self.categories[i as int].token(),
            ));
            i = i + 1;
        }
        assert(categories.take(i as int) =~= categories);
        let ghost base = b@;
        let ghost icons = icons_view(self.icons@);
        let mut i: usize = 0;
        assert(icons.take(0) =~= Seq::empty());
        while i < self.icons.len()
            invariant
                i <= self.icons.len(),
                icons == icons_view(self.icons@),
                b@ == (ComponentView { icons: icons.take(i as int), ..base }),
                self.wf() ==> b.wf(),
            decreases self.icons.len() - i,
        {
            b = b.icon(copy_icon(&self.icons[i]));
            assert(icons.take(i + 1) =~= icons.take(i as int).push(self.icons[i as int]@));
            i = i + 1;
        }
        assert(icons.take(i as int) =~= icons);
        b.build()
    }
}

impl Collection {
    /// The same collection, put together by a `CollectionBuilder`: what
    /// decoding gives can be built by hand.
    pub fn rebuild(&self) -> (r: Collection)
        ensures
            r@ == self@,
            self.wf() ==> r.wf(),
    {
        let mut b = CollectionBuilder::new(self.version.as_str());
        if let Some(origin) = &self.origin {
            b = b.origin(origin.as_str());
        }
        let ghost base = b@;
        let ghost components = components_view(self.components@);
        let mut i: usize = 0;
        assert(components.take(0) =~= Seq::empty());
        while i < self.components.len()
            invariant
                i <= self.components.len(),
                components == components_view(self.components@),
                b@ == (CollectionView { components: components.take(i as int), ..base }),
                self.wf() ==> b.wf(),
            decreases self.components.len() - i,
        {
            b = b.component(self.components[i].rebuild());
            assert(components.take(i + 1) =~= components.take(i as int).push(
                self.components[i as int]@,
            ));
            i = i + 1;
        }
        assert(components.take(i as int) =~= components);
        b.build()
    }
}

} // verus!
