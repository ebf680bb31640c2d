use no_face::config::Config;
use no_face::registry::{StyleEntry, StyleRegistry};
use no_face::render::{avatar, ApiState, AvatarOutcome};

fn lookup_str(state: &minijinja::State, key: &str) -> Result<String, minijinja::Error> {
    state
        .lookup(key)
        .and_then(|v| v.as_str().map(str::to_owned))
        .ok_or_else(|| minijinja::Error::new(minijinja::ErrorKind::InvalidOperation, "missing binding"))
}

fn make_env() -> minijinja::Environment<'static> {
    let mut env = minijinja::Environment::new();
    env.add_function("sin", f64::sin);
    env.add_function("cos", f64::cos);
    env.add_function("tan", f64::tan);
    env.add_function("asin", f64::asin);
    env.add_function("acos", f64::acos);
    env.add_function("atan", f64::atan);
    env.add_function(
        "random",
        |state: &minijinja::State, tag: String, max: u64| -> Result<u64, minijinja::Error> {
            let style = lookup_str(state, "style")?;
            let name = lookup_str(state, "name")?;
            no_face::random::number(&style, &name, &tag, max).map_err(|_| {
                minijinja::Error::new(
                    minijinja::ErrorKind::InvalidOperation,
                    "random bound must be positive",
                )
            })
        },
    );
    env.add_function(
        "random_color",
        |state: &minijinja::State, tag: String| -> Result<String, minijinja::Error> {
            let style = lookup_str(state, "style")?;
            let name = lookup_str(state, "name")?;
            Ok(no_face::random::color(&style, &name, &tag))
        },
    );
    env.add_function(
        "inverted_color",
        |state: &minijinja::State, tag: String| -> Result<String, minijinja::Error> {
            let style = lookup_str(state, "style")?;
            let name = lookup_str(state, "name")?;
            Ok(no_face::random::inverted_color(&style, &name, &tag))
        },
    );
    env
}

fn entry(file_name: &str, source: &str, is_symlink: bool) -> StyleEntry {
    StyleEntry {
        file_name: file_name.to_string(),
        source: source.to_string(),
        is_symlink,
    }
}

const BLOB_SVG: &str = "<svg xmlns=\"http://www.w3.org/2000/svg\" width=\"{{ size }}\" height=\"{{ size }}\"><rect width=\"{{ size }}\" height=\"{{ size }}\" fill=\"{{ random_color(\"fill\") }}\"/></svg>";
const STATIC_SVG: &str = "<svg xmlns=\"http://www.w3.org/2000/svg\" width=\"8\" height=\"8\"><circle cx=\"4\" cy=\"4\" r=\"3\"/></svg>";
const DOCS_HTML: &str = "<html><body>{{ styles|join(\", \") }} root={{ api_root }} max={{ max_size }}</body></html>";

fn test_entries() -> Vec<StyleEntry> {
    vec![
        entry("plasma.svg", STATIC_SVG, false),
        entry("blob.svg", BLOB_SVG, false),
        entry("mirror.svg", STATIC_SVG, true),
        entry("broken.svg", "{% if unclosed", false),
        entry("notes.txt", "not a style", false),
        entry("angry.svg", "<svg>{{ random(\"n\", 0) }}</svg>", false),
    ]
}

fn test_state() -> ApiState {
    ApiState::build(
        make_env(),
        Some(Config { api_root: Some("avatars.example".to_string()), max_raster_size: Some(1024) }),
        Config { api_root: None, max_raster_size: None },
        DOCS_HTML,
        &test_entries(),
    )
}

#[test]
fn listing_is_sorted_and_hides_aliases() {
    let state = test_state();
    let styles = state.registry.styles();
    assert_eq!(styles, &vec!["angry".to_string(), "blob".to_string(), "plasma".to_string()]);
}

#[test]
fn listing_skips_broken_and_foreign_files() {
    let state = test_state();
    let styles = state.registry.styles();
    assert!(!styles.contains(&"broken".to_string()));
    assert!(!styles.contains(&"notes".to_string()));
    assert!(!styles.contains(&"mirror".to_string()));
}

#[test]
fn svg_render_is_byte_identical_across_calls() {
    let state = test_state();
    let first = match avatar(&state, "blob", 64, "alice.svg") {
        AvatarOutcome::Svg(m) => m,
        other => panic!("expected markup, got {other:?}"),
    };
    let second = match avatar(&state, "blob", 64, "alice.svg") {
        AvatarOutcome::Svg(m) => m,
        other => panic!("expected markup, got {other:?}"),
    };
    assert_eq!(first, second);
    assert!(first.contains("hsl("));
    assert!(first.contains("width=\"64\""));
}

#[test]
fn missing_extension_defaults_to_vector() {
    let state = test_state();
    let with_ext = match avatar(&state, "blob", 64, "alice.svg") {
        AvatarOutcome::Svg(m) => m,
        other => panic!("expected markup, got {other:?}"),
    };
    let without = match avatar(&state, "blob", 64, "alice") {
        AvatarOutcome::Svg(m) => m,
        other => panic!("expected markup, got {other:?}"),
    };
    assert_eq!(with_ext, without);
}

#[test]
fn png_request_returns_encoded_bitmap_of_requested_size() {
    let state = test_state();
    let bytes = match avatar(&state, "blob", 64, "alice.png") {
        AvatarOutcome::Png(b) => b,
        other => panic!("expected bitmap, got {other:?}"),
    };
    assert_eq!(&bytes[0..8], &[137u8, 80, 78, 71, 13, 10, 26, 10]);
    let width = u32::from_be_bytes([bytes[16], bytes[17], bytes[18], bytes[19]]);
    let height = u32::from_be_bytes([bytes[20], bytes[21], bytes[22], bytes[23]]);
    assert_eq!(width, 64);
    assert_eq!(height, 64);
}

#[test]
fn raster_over_ceiling_is_not_found() {
    let state = test_state();
    assert!(matches!(avatar(&state, "blob", 9999, "alice.png"), AvatarOutcome::NotFound));
    assert!(matches!(avatar(&state, "blob", 1025, "alice.png"), AvatarOutcome::NotFound));
}

#[test]
fn raster_at_ceiling_succeeds() {
    let state = test_state();
    assert!(matches!(avatar(&state, "blob", 1024, "alice.png"), AvatarOutcome::Png(_)));
}

#[test]
fn ceiling_does_not_bind_vector_output() {
    let state = test_state();
    assert!(matches!(avatar(&state, "blob", 9999, "alice.svg"), AvatarOutcome::Svg(_)));
}

#[test]
fn unknown_style_is_not_found() {
    let state = test_state();
    assert!(matches!(avatar(&state, "unknown", 64, "alice.svg"), AvatarOutcome::NotFound));
}

#[test]
fn unknown_extension_is_not_found() {
    let state = test_state();
    assert!(matches!(avatar(&state, "blob", 64, "alice.bmp"), AvatarOutcome::NotFound));
}

#[test]
fn failing_template_is_not_found() {
    let state = test_state();
    assert!(matches!(avatar(&state, "angry", 64, "alice.svg"), AvatarOutcome::NotFound));
    assert!(matches!(avatar(&state, "broken", 64, "alice.svg"), AvatarOutcome::NotFound));
}

#[test]
fn alias_renders_byte_identical_to_target() {
    let state = test_state();
    let target = match avatar(&state, "plasma", 16, "alice.svg") {
        AvatarOutcome::Svg(m) => m,
        other => panic!("expected markup, got {other:?}"),
    };
    let alias = match avatar(&state, "mirror", 16, "alice.svg") {
        AvatarOutcome::Svg(m) => m,
        other => panic!("expected markup, got {other:?}"),
    };
    assert_eq!(target, alias);
}

#[test]
fn docs_page_lists_styles_and_limits() {
    let state = test_state();
    let page = state.docs_page().expect("docs template renders");
    assert!(page.contains("angry, blob, plasma"));
    assert!(page.contains("root=avatars.example"));
    assert!(page.contains("max=1024"));
}

#[test]
fn registry_load_alone_matches_build() {
    let registry = StyleRegistry::load(make_env(), DOCS_HTML, &test_entries());
    assert_eq!(registry.styles(), &vec!["angry".to_string(), "blob".to_string(), "plasma".to_string()]);
}

#[test]
fn config_parse_failure_keeps_previous_config() {
    let previous = Config { api_root: Some("kept".to_string()), max_raster_size: Some(7) };
    let state = ApiState::build(make_env(), None, previous, DOCS_HTML, &test_entries());
    assert_eq!(state.config.api_root.as_deref(), Some("kept"));
    assert_eq!(state.config.max_raster_size, Some(7));
}

#[test]
fn reload_builds_a_fresh_snapshot_and_leaves_the_old_one_whole() {
    let old_state = test_state();
    let before = match avatar(&old_state, "plasma", 16, "alice.svg") {
        AvatarOutcome::Svg(m) => m,
        other => panic!("expected markup, got {other:?}"),
    };
    let new_entries = vec![entry("fresh.svg", STATIC_SVG, false)];
    let new_state = ApiState::build(
        make_env(),
        None,
        Config { api_root: None, max_raster_size: None },
        DOCS_HTML,
        &new_entries,
    );
    assert_eq!(new_state.registry.styles(), &vec!["fresh".to_string()]);
    assert!(matches!(avatar(&new_state, "blob", 64, "alice.svg"), AvatarOutcome::NotFound));
    let after = match avatar(&old_state, "plasma", 16, "alice.svg") {
        AvatarOutcome::Svg(m) => m,
        other => panic!("expected markup, got {other:?}"),
    };
    assert_eq!(before, after);
    assert!(matches!(avatar(&old_state, "blob", 64, "alice.svg"), AvatarOutcome::Svg(_)));
}

#[test]
fn configured_ceiling_bounds_raster_exactly() {
    let state = ApiState::build(
        make_env(),
        Some(Config { api_root: None, max_raster_size: Some(16) }),
        Config { api_root: None, max_raster_size: None },
        DOCS_HTML,
        &test_entries(),
    );
    assert!(matches!(avatar(&state, "blob", 16, "alice.png"), AvatarOutcome::Png(_)));
    assert!(matches!(avatar(&state, "blob", 17, "alice.png"), AvatarOutcome::NotFound));
    assert!(matches!(avatar(&state, "blob", 17, "alice.svg"), AvatarOutcome::Svg(_)));
}

#[test]
fn empty_scan_degrades_to_empty_registry() {
    let state = ApiState::build(
        make_env(),
        None,
        Config { api_root: None, max_raster_size: None },
        DOCS_HTML,
        &Vec::new(),
    );
    assert!(state.registry.styles().is_empty());
    assert!(matches!(avatar(&state, "blob", 64, "alice.svg"), AvatarOutcome::NotFound));
}
