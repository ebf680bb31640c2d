//! The render pipeline and the request decisions around it: the
//! process-wide state, the split of an `id.ext` token, the size policy,
//! and the avatar request handled end to end.

use vstd::prelude::*;
use vstd::string::StrSliceExecFns;
use crate::config::Config;
use crate::raster::raster_side_fits;
use crate::raster::render_to_png;
use crate::raster::svg_parses;
use crate::registry::StyleEntry;
use crate::registry::StyleRegistry;
use crate::registry::docs_render_of;
use crate::registry::loaded_from;
use crate::registry::render_of;
use crate::strutil::find_last_dot;
use crate::strutil::last_dot;
use crate::strutil::str_eq;

verus! {

/// The two output forms an avatar request can ask for.
#[derive(Clone, Copy, Debug, PartialEq, Eq, Structural)]
pub enum ImageFormat {
    Svg,
    Png,
}

/// How an `id.ext` token splits: at the last `.` when one is present;
/// a token without a `.` is all identity, with the vector extension
/// assumed, vector output being the cheap, safe default.
pub open spec fn split_token(id: Seq<char>) -> (Seq<char>, Seq<char>) {
    match last_dot(id) {
        Some(i) => (id.take(i), id.skip(i + 1)),
        None => (id, "svg"@),
    }
}

/// The output form an extension names, if it names one.
pub open spec fn format_of(ext: Seq<char>) -> Option<ImageFormat> {
    if ext == "svg"@ {
        Some(ImageFormat::Svg)
    } else if ext == "png"@ {
        Some(ImageFormat::Png)
    } else {
        None
    }
}

/// The process-wide state one request reads: the active configuration
/// and the active style registry. A reload builds a whole new value and
/// swaps it in; nothing edits a live one.
pub struct ApiState {
    pub config: Config,
    pub registry: StyleRegistry,
}

impl ApiState {
    /// Build the state a process serves from: the parsed configuration
    /// when there is one — a configuration that cannot be read or parsed
    /// leaves the previous one in force — and a registry freshly loaded
    /// from the scan. The old state is left untouched; swapping the
    /// result in is the caller's one atomic step.
    pub fn build(
        env: minijinja::Environment<'static>,
        parsed: Option<Config>,
        previous: Config,
        docs_source: &str,
        entries: &Vec<StyleEntry>,
    ) -> (r: ApiState)
        ensures
            loaded_from(r.registry, docs_source@, entries@),
            parsed matches Some(c) ==> r.config == c,
            parsed is None ==> r.config == previous,
    {
        let config = match parsed {
            Some(c) => c,
            None => previous,
        };
        let registry = StyleRegistry::load(env, docs_source, entries);
        ApiState { config, registry }
    }

    /// Render the documentation page for the current state: the sorted
    /// public listing, the configured API root and the raster ceiling.
    pub fn docs_page(&self) -> (r: Option<String>)
        ensures
            r.deep_view() == docs_render_of(
                self.registry.spec_env(),
                self.registry.listing(),
                self.config.api_root.deep_view(),
                self.config.max_raster_size,
            ),
    {
        self.registry.render_docs(&self.config.api_root, &self.config.max_raster_size)
    }
}

/// What an avatar request comes to.
#[derive(Debug)]
pub enum AvatarOutcome {
    /// The request names nothing servable: an unknown style or
    /// extension, an over-ceiling raster size, or a failed render or
    /// rasterization.
    NotFound,
    /// The rendered vector markup.
    Svg(String),
    /// The encoded bitmap.
    Png(Vec<u8>),
}

/// Handle one avatar request against a state snapshot: split the token,
/// check the extension, apply the raster ceiling to raster requests
/// alone, render the style — aliases resolve even though unlisted — and
/// rasterize when asked to. Every failure is NotFound; a raster request
/// within the ceiling whose style renders to parseable markup at a
/// workable side is owed a bitmap.
pub fn avatar(state: &ApiState, style: &str, size: u64, id: &str) -> (r: AvatarOutcome)
    ensures
        ({
            let (base, ext) = split_token(id@);
            let fmt = format_of(ext);
            let known = state.registry.templates().contains_key(style@);
            let rendered = render_of(state.registry.spec_env(), style@, size, base);
            &&& fmt is None ==> r is NotFound
            &&& fmt == Some(ImageFormat::Png) && size > state.config.spec_ceiling() ==> r
                is NotFound
            &&& fmt is Some && !(fmt == Some(ImageFormat::Png) && size
                > state.config.spec_ceiling()) && !known ==> r is NotFound
            &&& fmt is Some && !(fmt == Some(ImageFormat::Png) && size
                > state.config.spec_ceiling()) && known && rendered is None ==> r is NotFound
            &&& ({
                if fmt == Some(ImageFormat::Svg) && known {
                    match rendered {
                        Some(m) => r matches AvatarOutcome::Svg(s) && s@ == m,
                        None => true,
                    }
                } else {
                    true
                }
            })
            &&& ({
                if fmt == Some(ImageFormat::Png) && size <= state.config.spec_ceiling() && known {
                    match rendered {
                        Some(m) => (svg_parses(m) && raster_side_fits(#[verifier::truncate] (size as u32))) ==> r is Png,
                        None => true,
                    }
                } else {
                    true
                }
            })
            &&& r is Png ==> fmt == Some(ImageFormat::Png) && size <= state.config.spec_ceiling()
                && known && rendered is Some
            &&& r is Svg ==> fmt == Some(ImageFormat::Svg) && known && rendered is Some
        }),
{
    let fmt_opt: Option<ImageFormat> = match find_last_dot(id) {
        Some(i) => {
            let n = id.unicode_len();
            let ext = id.substring_char(i + 1, n);
            proof {
                assert(ext@ =~= id@.skip(i + 1));
            }
            if str_eq(ext, "svg") {
                Some(ImageFormat::Svg)
            } else if str_eq(ext, "png") {
                Some(ImageFormat::Png)
            } else {
                None
            }
        },
        None => Some(ImageFormat::Svg),
    };
    let fmt = match fmt_opt {
        Some(f) => f,
        None => {
            return AvatarOutcome::NotFound;
        },
    };
    if fmt == ImageFormat::Png && size > state.config.ceiling() {
        return AvatarOutcome::NotFound;
    }
    let rendered = match find_last_dot(id) {
        Some(i) => {
            let base = id.substring_char(0, i);
            proof {
                assert(base@ =~= id@.take(i as int));
            }
            state.registry.render(style, size, base)
        },
        None => state.registry.render(style, size, id),
    };
    match rendered {
        None => AvatarOutcome::NotFound,
        Some(markup) => match fmt {
            ImageFormat::Svg => AvatarOutcome::Svg(markup),
            ImageFormat::Png => match render_to_png(markup.as_str(), size) {
                Ok(bytes) => AvatarOutcome::Png(bytes),
                Err(_) => AvatarOutcome::NotFound,
            },
        },
    }
}

} // verus!
