//! The style registry: named vector templates held by a templating
//! environment, with a sorted public listing of the non-alias names.
//!
//! The environment comes from the caller with the procedural functions
//! already registered; the registry owns it from then on, and it is
//! reached only through the trusted wrappers below. None of them sets a
//! template loader or changes the template syntax, so the stored
//! templates are a function of the environment value, modelled by
//! [`env_templates`].

use vstd::prelude::*;
use vstd::string::StrSliceExecFns;
use vstd::string::StringExecFns;
use crate::strutil::last_dot;
use crate::strutil::find_last_dot;
use crate::strutil::str_eq;
use crate::strutil::sort_strings;
use crate::strutil::sorted_strs;
use crate::strutil::views_of;

verus! {

/// The templating environment of the outside engine, opaque to the
/// verified code.
#[verifier::external_type_specification]
#[verifier::external_body]
pub struct ExEnvironment<'a>(minijinja::Environment<'a>);

/// The template mapping an environment holds: template name to source
/// text. The model of the outside engine's template store.
pub uninterp spec fn env_templates(env: minijinja::Environment<'static>) -> Map<
    Seq<char>,
    Seq<char>,
>;

/// Whether the outside engine accepts a template source when it is
/// added: under the engine's default syntax, compilation succeeds or
/// fails on the source text alone.
pub uninterp spec fn template_compiles(source: Seq<char>) -> bool;

/// What evaluating a stored template produces under the bindings
/// `style`, `size` and `name`: the rendered text, or nothing when
/// evaluation fails. A function of the environment and the bindings
/// alone.
pub uninterp spec fn render_of(
    env: minijinja::Environment<'static>,
    style: Seq<char>,
    size: u64,
    name: Seq<char>,
) -> Option<Seq<char>>;

/// What evaluating the documentation template produces under the
/// bindings `styles`, `api_root` and `max_size`.
pub uninterp spec fn docs_render_of(
    env: minijinja::Environment<'static>,
    styles: Seq<Seq<char>>,
    api_root: Option<Seq<char>>,
    max_size: Option<u64>,
) -> Option<Seq<char>>;

/// Relies on minijinja::Environment::clear_templates: it removes every
/// stored template and nothing else.
#[verifier::external_body]
fn env_clear_templates(env: &mut minijinja::Environment<'static>)
    ensures
        env_templates(*final(env)) == env_templates(*old(env)).restrict(Set::<Seq<char>>::empty()),
{
    env.clear_templates();
}

/// Relies on minijinja::Environment::add_template_owned: it compiles the
/// source eagerly and stores it under the name exactly on success, and
/// on minijinja::Environment::remove_template, called first so that a
/// failed replacement leaves no template under the name.
#[verifier::external_body]
fn env_add_template(env: &mut minijinja::Environment<'static>, name: &str, source: &str) -> (r:
    bool)
    ensures
        r == template_compiles(source@),
        r ==> env_templates(*final(env)) == env_templates(*old(env)).insert(name@, source@),
        !r ==> env_templates(*final(env)) == env_templates(*old(env)).remove(name@),
{
    env.remove_template(name);
    env.add_template_owned(name.to_string(), source.to_string()).is_ok()
}

/// Relies on minijinja::Environment::get_template: with no template
/// loader set it finds a template exactly when the name is stored.
#[verifier::external_body]
fn env_has_template(env: &minijinja::Environment<'static>, name: &str) -> (r: bool)
    ensures
        r == env_templates(*env).contains_key(name@),
{
    env.get_template(name).is_ok()
}

/// Relies on minijinja::Environment::get_template and
/// minijinja::Template::render: a template is found exactly when its
/// name is stored, and rendering under the bindings `style`, `size` and
/// `name` produces text that depends on the environment and the
/// bindings alone.
#[verifier::external_body]
fn env_render(env: &minijinja::Environment<'static>, style: &str, size: u64, id: &str) -> (r:
    Option<String>)
    ensures
        env_templates(*env).contains_key(style@) ==> r.deep_view() == render_of(
            *env,
            style@,
            size,
            id@,
        ),
        !env_templates(*env).contains_key(style@) ==> r is None,
{
    let Ok(template) = env.get_template(style) else { return None };
    let ctx = minijinja::Value::from_iter([
        ("style", minijinja::Value::from(style)),
        ("size", minijinja::Value::from(size)),
        ("name", minijinja::Value::from(id)),
    ]);
    template.render(ctx).ok()
}

/// Relies on minijinja::Environment::get_template and
/// minijinja::Template::render, as `env_render` does, for the
/// documentation page's bindings.
#[verifier::external_body]
fn env_render_docs(
    env: &minijinja::Environment<'static>,
    styles: &Vec<String>,
    api_root: &Option<String>,
    max_size: &Option<u64>,
) -> (r: Option<String>)
    ensures
        r.deep_view() == docs_render_of(*env, styles.deep_view(), api_root.deep_view(), *max_size),
{
    let Ok(template) = env.get_template("api_docs.html") else { return None };
    let ctx = minijinja::Value::from_iter([
        ("styles", minijinja::Value::from_iter(styles.iter().map(|s| minijinja::Value::from(s.as_str())))),
        ("api_root", match api_root { Some(s) => minijinja::Value::from(s.as_str()), None => minijinja::Value::from(()) }),
        ("max_size", match max_size { Some(m) => minijinja::Value::from(*m), None => minijinja::Value::from(()) }),
    ]);
    template.render(ctx).ok()
}

/// The name the documentation template is stored under.
pub open spec fn docs_name() -> Seq<char> {
    "api_docs.html"@
}

/// One entry of a style directory scan: the file's name (its last path
/// component), its content, and whether the path is a symbolic link.
pub struct StyleEntry {
    pub file_name: String,
    pub source: String,
    pub is_symlink: bool,
}

/// The style name a file advertises: its base name, when the extension
/// is the vector-template extension `svg` and the base name is not
/// empty; nothing otherwise.
pub open spec fn svg_stem(file_name: Seq<char>) -> Option<Seq<char>> {
    match last_dot(file_name) {
        Some(i) => if i > 0 && file_name.skip(i + 1) == "svg"@ {
            Some(file_name.take(i))
        } else {
            None
        },
        None => None,
    }
}

/// Derive the style name of a directory entry's file name.
pub fn svg_stem_exec(file_name: &str) -> (r: Option<String>)
    ensures
        r.deep_view() == svg_stem(file_name@),
{
    match find_last_dot(file_name) {
        None => None,
        Some(i) => {
            if i == 0 {
                return None;
            }
            let n = file_name.unicode_len();
            let ext = file_name.substring_char(i + 1, n);
            proof {
                assert(ext@ =~= file_name@.skip(i + 1));
            }
            if str_eq(ext, "svg") {
                let stem = file_name.substring_char(0, i);
                proof {
                    assert(stem@ =~= file_name@.take(i as int));
                }
                Some(stem.to_owned())
            } else {
                None
            }
        },
    }
}

/// Whether a scan entry registers a publicly listed style: a real file
/// (not a symbolic link) with a style name, whose source compiles.
pub open spec fn is_public_entry(e: StyleEntry) -> bool {
    !e.is_symlink && svg_stem(e.file_name@) is Some && template_compiles(e.source@)
}

/// The public style names a scan produces, in scan order.
pub open spec fn public_names(entries: Seq<StyleEntry>) -> Seq<Seq<char>>
    decreases entries.len(),
{
    if entries.len() == 0 {
        Seq::empty()
    } else {
        public_names(entries.drop_last()) + (if is_public_entry(entries.last()) {
            seq![svg_stem(entries.last().file_name@)->0]
        } else {
            Seq::empty()
        })
    }
}

/// The template mapping a scan produces over a base mapping: each entry
/// with a style name stores its source on compilation success; a failed
/// registration stores nothing and unseats any earlier template of that
/// name.
pub open spec fn loaded_map(
    entries: Seq<StyleEntry>,
    base: Map<Seq<char>, Seq<char>>,
) -> Map<Seq<char>, Seq<char>>
    decreases entries.len(),
{
    if entries.len() == 0 {
        base
    } else {
        let m = loaded_map(entries.drop_last(), base);
        let e = entries.last();
        match svg_stem(e.file_name@) {
            Some(n) => if template_compiles(e.source@) {
                m.insert(n, e.source@)
            } else {
                m.remove(n)
            },
            None => m,
        }
    }
}

/// The mapping a load starts from: the documentation template alone,
/// when its source compiles.
pub open spec fn base_map(docs_source: Seq<char>) -> Map<Seq<char>, Seq<char>> {
    if template_compiles(docs_source) {
        Map::<Seq<char>, Seq<char>>::empty().insert(docs_name(), docs_source)
    } else {
        Map::<Seq<char>, Seq<char>>::empty()
    }
}

proof fn lemma_public_names_contains(entries: Seq<StyleEntry>, k: Seq<char>)
    requires
        public_names(entries).contains(k),
    ensures
        exists|i: int|
            0 <= i < entries.len() && is_public_entry(entries[i]) && svg_stem(
                entries[i].file_name@,
            ) == Some(k),
    decreases entries.len(),
{
    let names = public_names(entries);
    let prev = public_names(entries.drop_last());
    if entries.len() > 0 {
        if is_public_entry(entries.last()) && svg_stem(entries.last().file_name@) == Some(k) {
            assert(entries[entries.len() - 1] == entries.last());
        } else {
            assert forall|j: int| 0 <= j < names.len() && names[j] == k implies prev.contains(
                k,
            ) by {
                if j < prev.len() {
                } else {
                    assert(names[j] == svg_stem(entries.last().file_name@)->0);
                }
            }
            let j = choose|j: int| 0 <= j < names.len() && names[j] == k;
            lemma_public_names_contains(entries.drop_last(), k);
            let i = choose|i: int|
                0 <= i < entries.drop_last().len() && is_public_entry(entries.drop_last()[i])
                    && svg_stem(entries.drop_last()[i].file_name@) == Some(k);
            assert(entries.drop_last()[i] == entries[i]);
        }
    }
}

proof fn lemma_public_names_covers(entries: Seq<StyleEntry>, i: int)
    requires
        0 <= i < entries.len(),
        is_public_entry(entries[i]),
    ensures
        public_names(entries).contains(svg_stem(entries[i].file_name@)->0),
    decreases entries.len(),
{
    if i == entries.len() - 1 {
        assert(entries[i] == entries.last());
        let names = public_names(entries);
        assert(names[names.len() - 1] == svg_stem(entries[i].file_name@)->0);
    } else {
        lemma_public_names_covers(entries.drop_last(), i);
        assert(entries.drop_last()[i] == entries[i]);
        let prev = public_names(entries.drop_last());
        let j = choose|j: int| 0 <= j < prev.len() && prev[j] == svg_stem(entries[i].file_name@)->0;
        assert(public_names(entries)[j] == prev[j]);
    }
}

/// What a load guarantees: the template mapping is exactly the scan's
/// over the documentation base, every listed name comes from a public
/// entry, and every public entry whose name survives in the mapping is
/// listed.
pub open spec fn loaded_from(
    r: StyleRegistry,
    docs_source: Seq<char>,
    entries: Seq<StyleEntry>,
) -> bool {
    &&& r.wf()
    &&& r.templates() == loaded_map(entries, base_map(docs_source))
    &&& forall|k: Seq<char>|
        #[trigger] r.listing().contains(k) ==> exists|i: int|
            0 <= i < entries.len() && is_public_entry(entries[i]) && svg_stem(
                entries[i].file_name@,
            ) == Some(k)
    &&& forall|i: int|
        0 <= i < entries.len() && is_public_entry(#[trigger] entries[i])
            && r.templates().contains_key(svg_stem(entries[i].file_name@)->0) ==> r.listing().contains(
            svg_stem(entries[i].file_name@)->0,
        )
}

proof fn lemma_loaded_map_unique_key(
    entries: Seq<StyleEntry>,
    base: Map<Seq<char>, Seq<char>>,
    k: Seq<char>,
    i: int,
)
    requires
        0 <= i < entries.len(),
        svg_stem(entries[i].file_name@) == Some(k),
        template_compiles(entries[i].source@),
        forall|j: int|
            0 <= j < entries.len() && j != i ==> svg_stem(#[trigger] entries[j].file_name@)
                != Some(k),
    ensures
        loaded_map(entries, base).contains_key(k),
        loaded_map(entries, base)[k] == entries[i].source@,
    decreases entries.len(),
{
    if i == entries.len() - 1 {
        assert(entries.last() == entries[i]);
    } else {
        assert(entries.drop_last()[i] == entries[i]);
        assert(forall|j: int|
            0 <= j < entries.drop_last().len() && j != i ==> svg_stem(
                #[trigger] entries.drop_last()[j].file_name@,
            ) != Some(k)) by {
            assert(forall|j: int|
                0 <= j < entries.drop_last().len() ==> #[trigger] entries.drop_last()[j]
                    == entries[j]);
        }
        lemma_loaded_map_unique_key(entries.drop_last(), base, k, i);
        assert(entries.last() == entries[entries.len() - 1]);
        assert(svg_stem(entries.last().file_name@) != Some(k));
    }
}

/// A symlinked style is a hidden alias: after a load whose scan holds
/// exactly one entry of a given style name, that entry a symbolic link
/// whose source compiles, the name resolves in the template mapping to
/// that source, yet the public listing omits it.
pub proof fn lemma_alias_resolvable_unlisted(
    r: StyleRegistry,
    docs_source: Seq<char>,
    entries: Seq<StyleEntry>,
    i: int,
)
    requires
        loaded_from(r, docs_source, entries),
        0 <= i < entries.len(),
        entries[i].is_symlink,
        svg_stem(entries[i].file_name@) is Some,
        template_compiles(entries[i].source@),
        forall|j: int|
            0 <= j < entries.len() && j != i ==> svg_stem(#[trigger] entries[j].file_name@)
                != svg_stem(entries[i].file_name@),
    ensures
        r.templates().contains_key(svg_stem(entries[i].file_name@)->0),
        r.templates()[svg_stem(entries[i].file_name@)->0] == entries[i].source@,
        !r.listing().contains(svg_stem(entries[i].file_name@)->0),
{
    let k = svg_stem(entries[i].file_name@)->0;
    lemma_loaded_map_unique_key(entries, base_map(docs_source), k, i);
    if r.listing().contains(k) {
        let j = choose|j: int|
            0 <= j < entries.len() && is_public_entry(entries[j]) && svg_stem(
                entries[j].file_name@,
            ) == Some(k);
        assert(j == i);
        assert(!entries[i].is_symlink);
    }
}

/// An alias and its target resolve alike: when the scan holds one
/// symlinked entry and one plain entry, each the only entry of its
/// name, with the same source text, both names resolve to that same
/// template source — the same evaluation applies to either — while the
/// listing carries the target alone.
pub proof fn lemma_alias_tracks_target(
    r: StyleRegistry,
    docs_source: Seq<char>,
    entries: Seq<StyleEntry>,
    alias: int,
    target: int,
)
    requires
        loaded_from(r, docs_source, entries),
        0 <= alias < entries.len(),
        0 <= target < entries.len(),
        entries[alias].is_symlink,
        !entries[target].is_symlink,
        svg_stem(entries[alias].file_name@) is Some,
        svg_stem(entries[target].file_name@) is Some,
        entries[alias].source@ == entries[target].source@,
        template_compiles(entries[target].source@),
        forall|j: int|
            0 <= j < entries.len() && j != alias ==> svg_stem(#[trigger] entries[j].file_name@)
                != svg_stem(entries[alias].file_name@),
        forall|j: int|
            0 <= j < entries.len() && j != target ==> svg_stem(#[trigger] entries[j].file_name@)
                != svg_stem(entries[target].file_name@),
    ensures
        r.templates().contains_key(svg_stem(entries[alias].file_name@)->0),
        r.templates().contains_key(svg_stem(entries[target].file_name@)->0),
        r.templates()[svg_stem(entries[alias].file_name@)->0] == r.templates()[svg_stem(
            entries[target].file_name@,
        )->0],
        !r.listing().contains(svg_stem(entries[alias].file_name@)->0),
        r.listing().contains(svg_stem(entries[target].file_name@)->0),
{
    lemma_alias_resolvable_unlisted(r, docs_source, entries, alias);
    lemma_loaded_map_unique_key(
        entries,
        base_map(docs_source),
        svg_stem(entries[target].file_name@)->0,
        target,
    );
}

/// The registry: the environment holding the compiled templates, and the
/// sorted public listing of non-alias style names.
pub struct StyleRegistry {
    env: minijinja::Environment<'static>,
    styles: Vec<String>,
}

impl StyleRegistry {
    /// The environment value the registry holds, for specification use:
    /// rendered output is a function of it.
    pub closed spec fn spec_env(self) -> minijinja::Environment<'static> {
        self.env
    }

    /// The template mapping: name to source text. Aliases resolve here
    /// even though they are not listed.
    pub open spec fn templates(self) -> Map<Seq<char>, Seq<char>> {
        env_templates(self.spec_env())
    }

    /// The public style listing.
    pub closed spec fn listing(self) -> Seq<Seq<char>> {
        views_of(self.styles@)
    }

    /// The registry's invariant: the listing is sorted, and every listed
    /// name has a template entry.
    pub open spec fn wf(self) -> bool {
        &&& sorted_strs(self.listing())
        &&& forall|i: int|
            0 <= i < self.listing().len() ==> self.templates().contains_key(#[trigger] self.listing()[i])
    }

    /// The public style names, lexicographically sorted.
    pub fn styles(&self) -> (r: &Vec<String>)
        ensures
            views_of(r@) == self.listing(),
    {
        &self.styles
    }

    /// Build a registry from a directory scan: clear the environment's
    /// templates, store the documentation template, register each style
    /// file that offers a name and compiles, and list the non-alias
    /// names that survive, sorted. One bad entry never aborts the load.
    pub fn load(env: minijinja::Environment<'static>, docs_source: &str, entries: &Vec<StyleEntry>) -> (r: StyleRegistry)
        ensures
            loaded_from(r, docs_source@, entries@),
    {
        broadcast use vstd::seq_lib::group_to_multiset_ensures;

        let mut env = env;
        env_clear_templates(&mut env);
        let compiled = env_add_template(&mut env, "api_docs.html", docs_source);
        proof {
            if !compiled {
                assert(env_templates(env) =~= base_map(docs_source@));
            }
        }

        let mut candidates: Vec<String> = Vec::new();
        let mut i: usize = 0;
        proof {
            assert(entries@.take(0) =~= Seq::<StyleEntry>::empty());
            assert(views_of(candidates@) =~= public_names(entries@.take(0)));
        }
        while i < entries.len()
            invariant
                i <= entries@.len(),
                env_templates(env) == loaded_map(entries@.take(i as int), base_map(docs_source@)),
                views_of(candidates@) == public_names(entries@.take(i as int)),
            decreases entries@.len() - i,
        {
            let ghost old_cands = candidates@;
            let entry = &entries[i];
            proof {
                assert(entries@.take(i as int + 1).drop_last() =~= entries@.take(i as int));
                assert(entries@.take(i as int + 1).last() == entries@[i as int]);
            }
            match svg_stem_exec(entry.file_name.as_str()) {
                None => {},
                Some(name) => {
                    let ok = env_add_template(&mut env, name.as_str(), entry.source.as_str());
                    if ok && !entry.is_symlink {
                        candidates.push(name);
                        proof {
                            assert(views_of(candidates@) =~= views_of(old_cands).push(name@));
                            assert(views_of(old_cands).push(name@) =~= public_names(
                                entries@.take(i as int + 1),
                            ));
                        }
                    } else {
                        proof {
                            assert(views_of(candidates@) =~= public_names(
                                entries@.take(i as int + 1),
                            ));
                        }
                    }
                },
            }
            i = i + 1;
        }
        proof {
            assert(entries@.take(entries@.len() as int) =~= entries@);
        }

        let mut kept: Vec<String> = Vec::new();
        let mut j: usize = 0;
        while j < candidates.len()
            invariant
                j <= candidates@.len(),
                env_templates(env) == loaded_map(entries@, base_map(docs_source@)),
                views_of(candidates@) == public_names(entries@),
                forall|p: int|
                    0 <= p < kept@.len() ==> views_of(candidates@).contains(
                        #[trigger] views_of(kept@)[p],
                    ) && env_templates(env).contains_key(views_of(kept@)[p]),
                forall|p: int|
                    0 <= p < j && env_templates(env).contains_key(
                        #[trigger] views_of(candidates@)[p],
                    ) ==> views_of(kept@).contains(views_of(candidates@)[p]),
            decreases candidates@.len() - j,
        {
            let ghost old_kept = kept@;
            if env_has_template(&env, candidates[j].as_str()) {
                kept.push(candidates[j].clone());
                proof {
                    assert(views_of(kept@) =~= views_of(old_kept).push(candidates@[j as int]@));
                    assert(views_of(kept@).last() == views_of(candidates@)[j as int]);
                    assert forall|p: int|
                        0 <= p < j + 1 && env_templates(env).contains_key(
                            #[trigger] views_of(candidates@)[p],
                        ) implies views_of(kept@).contains(views_of(candidates@)[p]) by {
                        if p < j {
                            let q = choose|q: int|
                                0 <= q < old_kept.len() && views_of(old_kept)[q] == views_of(
                                    candidates@,
                                )[p];
                            assert(views_of(kept@)[q] == views_of(candidates@)[p]);
                        } else {
                            assert(views_of(kept@)[views_of(kept@).len() - 1] == views_of(
                                candidates@,
                            )[p]);
                        }
                    }
                }
            }
            j = j + 1;
        }

        let styles = sort_strings(kept);
        let r = StyleRegistry { env, styles };
        proof {
            let ghost sorted_views = views_of(r.styles@);
            let ghost kept_views = views_of(kept@);
            assert forall|p: int| 0 <= p < sorted_views.len() implies r.templates().contains_key(
                #[trigger] sorted_views[p],
            ) && exists|i2: int|
                0 <= i2 < entries@.len() && is_public_entry(entries@[i2]) && svg_stem(
                    entries@[i2].file_name@,
                ) == Some(sorted_views[p]) by {
                assert(sorted_views.to_multiset().contains(sorted_views[p]));
                assert(kept_views.to_multiset().contains(sorted_views[p]));
                assert(kept_views.contains(sorted_views[p]));
                let q = choose|q: int| 0 <= q < kept_views.len() && kept_views[q] == sorted_views[p];
                lemma_public_names_contains(entries@, sorted_views[p]);
            }
            assert forall|k: Seq<char>| #[trigger] r.listing().contains(k) implies exists|i2: int|
                0 <= i2 < entries@.len() && is_public_entry(entries@[i2]) && svg_stem(
                    entries@[i2].file_name@,
                ) == Some(k) by {
                let p = choose|p: int| 0 <= p < sorted_views.len() && sorted_views[p] == k;
            }
            assert forall|i2: int|
                0 <= i2 < entries@.len() && is_public_entry(#[trigger] entries@[i2])
                    && r.templates().contains_key(svg_stem(entries@[i2].file_name@)->0)
                    implies r.listing().contains(svg_stem(entries@[i2].file_name@)->0) by {
                let k = svg_stem(entries@[i2].file_name@)->0;
                lemma_public_names_covers(entries@, i2);
                let p = choose|p: int|
                    0 <= p < views_of(candidates@).len() && views_of(candidates@)[p] == k;
                assert(views_of(kept@).contains(k));
                assert(kept_views.to_multiset().contains(k));
                assert(sorted_views.to_multiset().contains(k));
                assert(sorted_views.contains(k));
            }
        }
        r
    }

    /// Render a style for an identity at a size: resolve the name in the
    /// template mapping (aliases included), bind `style`, `size` and
    /// `name`, and evaluate. An unknown name or an evaluation failure
    /// produces nothing.
    pub fn render(&self, style: &str, size: u64, id: &str) -> (r: Option<String>)
        ensures
            self.templates().contains_key(style@) ==> r.deep_view() == render_of(
                self.spec_env(),
                style@,
                size,
                id@,
            ),
            !self.templates().contains_key(style@) ==> r is None,
    {
        env_render(&self.env, style, size, id)
    }

    /// Render the documentation page: the listing, the configured API
    /// root and the raster ceiling, bound into the documentation
    /// template.
    pub fn render_docs(&self, api_root: &Option<String>, max_size: &Option<u64>) -> (r: Option<
        String,
    >)
        ensures
            r.deep_view() == docs_render_of(
                self.spec_env(),
                self.listing(),
                api_root.deep_view(),
                *max_size,
            ),
    {
        proof {
            assert(self.styles.deep_view() =~= views_of(self.styles@));
        }
        env_render_docs(&self.env, &self.styles, api_root, max_size)
    }
}

} // verus!
