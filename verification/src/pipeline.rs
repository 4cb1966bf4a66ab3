//! The stages that make the text of a bundle, in their order: the sources
//! are joined, the banner is put in front, the header is put in front of
//! that.

use crate::banner::{banner_text, Banner};
use crate::bundler::{all_named, bundle_of, Bundler};
use crate::header::{with_header, Header, HeaderSource};
use crate::quotes::{quote_of, QuoteInner};
use crate::source::Sources;
use vstd::prelude::*;

verus! {

/// The stages that make the text of a bundle. A stage that is `None` is left
/// out.
#[derive(Debug, Clone)]
pub struct Pipeline {
    pub bundler: Bundler,
    pub header: Option<Header>,
    pub banner: Option<Banner>,
}

/// What the banner is filled in with.
#[derive(Debug, Clone, Copy)]
pub struct Stamp<'a> {
    /// The program's name and version.
    pub title: &'a str,
    /// Where the program's sources are kept.
    pub repository: &'a str,
    /// The time of the run.
    pub generated_at: &'a str,
}

impl Pipeline {
    /// `code` under the banner with the quote that comes from `origin`, if
    /// there is a banner stage.
    pub open spec fn with_banner(&self, code: Seq<char>, stamp: Stamp<'_>, origin: QuoteInner<'_>) -> Seq<
        char,
    > {
        match self.banner {
            Some(_) => banner_text(
                stamp.title@,
                stamp.repository@,
                stamp.generated_at@,
                quote_of(origin),
            ) + code,
            None => code,
        }
    }

    /// `code` under the header, if there is a header stage. `loaded` is what
    /// the header's file holds.
    pub open spec fn with_header(&self, code: Seq<char>, loaded: Seq<char>) -> Seq<char> {
        match self.header {
            Some(header) => with_header(
                match header.source {
                    HeaderSource::Text(text) => text@,
                    HeaderSource::File(_) => loaded,
                },
                code,
            ),
            None => code,
        }
    }

    /// Whether the banner stage, if there is one, may pick the quote that
    /// comes from `origin`.
    pub open spec fn offers(&self, origin: QuoteInner<'_>) -> bool {
        match self.banner {
            Some(banner) => banner.offers(origin),
            None => true,
        }
    }

    /// The text of the bundle of `sources`: the sources joined, under the
    /// banner, under the header. `None` where the path of a source has no
    /// last component. `loaded` is what the header's file holds, and is not
    /// looked at where no file holds the header.
    pub fn process(&self, sources: &Sources, stamp: Stamp<'_>, loaded: &str) -> (out: Option<String>)
        ensures
            out.is_some() <==> all_named(sources@),
            out matches Some(text) ==> exists|origin: QuoteInner<'_>|
                self.offers(origin) && text@ == self.with_header(
                    #[trigger] self.with_banner(bundle_of(sources@), stamp, origin),
                    loaded@,
                ),
    {
        let bundle = match self.bundler.try_bundle(sources) {
            Some(bundle) => bundle,
            None => {
                return None;
            },
        };
        let ghost joined = bundle@;
        let under_banner = match &self.banner {
            Some(banner) => banner.process(
                stamp.title,
                stamp.repository,
                stamp.generated_at,
                bundle.as_str(),
            ),
            None => bundle,
        };
        let ghost origin = if self.banner.is_some() {
            choose|o: QuoteInner<'_>|
                self.banner->0.offers(o) && under_banner@ == #[trigger] banner_text(
                    stamp.title@,
                    stamp.repository@,
                    stamp.generated_at@,
                    quote_of(o),
                ) + joined
        } else {
            QuoteInner::Builtin(0)
        };
        assert(self.offers(origin) && under_banner@ == self.with_banner(joined, stamp, origin));
        let out = match &self.header {
            Some(header) => header.process(loaded, under_banner.as_str()),
            None => under_banner,
        };
        proof {
            assert(self.offers(origin) && out@ == self.with_header(
                self.with_banner(bundle_of(sources@), stamp, origin),
                loaded@,
            ));
        }
        Some(out)
    }
}

} // verus!
