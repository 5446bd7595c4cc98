use parser::constants::{BuildConstants, CHECKSUM, VERSION};
use parser::document::parse_config;
use parser::loader::{load, parse, parse_and_validate, render_config, validate};
use parser::schema::{ConfigError, ConfigField, LoggingConfig, RootConfig};

const CANONICAL: &str = "version = v0.0.5\n\n[logging]\ndebug = 'true'\n";

fn constants_with(version: &str) -> BuildConstants {
    BuildConstants { version: version.to_string(), checksum: CHECKSUM.to_string() }
}

#[test]
fn current_constants() {
    let c = BuildConstants::current();
    assert_eq!(c.version, "v0.0.5");
    assert_eq!(c.version, VERSION);
    assert_eq!(
        c.checksum,
        "sha256:01ccffbd0d6c8a2a1935b9cc9256567b8c66abeef6171c3f813920b831ec1e47"
    );
}

#[test]
fn render_is_the_same_every_time() {
    let c = BuildConstants::current();
    let first = render_config(&c);
    let second = render_config(&c);
    assert_eq!(first, CANONICAL);
    assert_eq!(first, second);
}

#[test]
fn render_contains_version_and_logging_section() {
    let text = render_config(&BuildConstants::current());
    assert!(text.contains("version = v0.0.5"));
    assert!(text.contains("[logging]\ndebug = 'true'"));
}

#[test]
fn render_uses_the_given_version() {
    let text = render_config(&constants_with("1.2.3"));
    assert_eq!(text, "version = 1.2.3\n\n[logging]\ndebug = 'true'\n");
}

#[test]
fn parse_and_validate_twice_gives_the_same_result() {
    for text in [CANONICAL, "version = true\n[logging]\ndebug = t\n", "[logging]\n", ""] {
        assert_eq!(parse_and_validate(text), parse_and_validate(text));
    }
}

#[test]
fn parsing_the_rendered_text_gives_back_its_values() {
    let config = parse_config(&render_config(&BuildConstants::current())).unwrap();
    assert_eq!(config.version, "v0.0.5");
    assert_eq!(config.logging.debug, "true");
}

#[test]
fn rendered_text_fails_version_validation() {
    let config = parse_config(CANONICAL).unwrap();
    assert_eq!(validate(&config), Err(ConfigError::Validation(ConfigField::Version)));
    assert_eq!(
        parse_and_validate(CANONICAL),
        Err(ConfigError::Validation(ConfigField::Version))
    );
}

#[test]
fn round_trip_never_validates() {
    assert_eq!(
        load(&BuildConstants::current()),
        Err(ConfigError::Validation(ConfigField::Version))
    );
    assert_eq!(
        load(&constants_with("true")),
        Err(ConfigError::Validation(ConfigField::Debug))
    );
}

#[test]
fn parse_with_build_constants() {
    assert_eq!(parse(), Err(ConfigError::Validation(ConfigField::Version)));
}

#[test]
fn missing_logging_section_is_a_parse_error() {
    assert_eq!(parse_and_validate("version = v0.0.5\n"), Err(ConfigError::Parse));
    assert_eq!(parse_and_validate("version = true\n"), Err(ConfigError::Parse));
    assert_eq!(parse_and_validate("version = true\ndebug = 't'\n"), Err(ConfigError::Parse));
}

#[test]
fn missing_version_is_a_parse_error() {
    assert_eq!(parse_and_validate("[logging]\ndebug = 't'\n"), Err(ConfigError::Parse));
    assert_eq!(
        parse_and_validate("[logging]\nversion = true\ndebug = 't'\n"),
        Err(ConfigError::Parse)
    );
}

#[test]
fn malformed_text_is_a_parse_error() {
    let bad = [
        "",
        "version\n[logging]\ndebug = 't'\n",
        "version = \n[logging]\ndebug = 't'\n",
        "version = true\n[logging\ndebug = 't'\n",
        "version = true\n[]\n[logging]\ndebug = 't'\n",
        "version = true\n[logging]\ndebug = 't\n",
        "version = true\n[logging]\ndebug = 'a'b'\n",
        "version = true\n[logging]\ndebug = \"t\"\n",
        "version = two words\n[logging]\ndebug = 't'\n",
        " = true\n[logging]\ndebug = 't'\n",
    ];
    for text in bad {
        assert_eq!(parse_config(text).err(), Some(ConfigError::Parse), "{:?}", text);
        assert_eq!(parse_and_validate(text), Err(ConfigError::Parse), "{:?}", text);
    }
}

#[test]
fn repeated_fields_are_a_parse_error() {
    assert_eq!(
        parse_and_validate("version = true\nversion = true\n[logging]\ndebug = 't'\n"),
        Err(ConfigError::Parse)
    );
    assert_eq!(
        parse_and_validate("version = true\n[logging]\ndebug = 't'\ndebug = 't'\n"),
        Err(ConfigError::Parse)
    );
    assert_eq!(
        parse_and_validate("version = true\n[logging]\ndebug = 't'\n[logging]\n"),
        Err(ConfigError::Parse)
    );
}

#[test]
fn debug_t_passes_debug_validation() {
    assert_eq!(
        parse_and_validate("version = true\n\n[logging]\ndebug = 't'\n"),
        Ok("t".to_string())
    );
    let config = RootConfig {
        version: "true".to_string(),
        logging: LoggingConfig { debug: "t".to_string() },
    };
    assert_eq!(validate(&config), Ok("t".to_string()));
}

#[test]
fn version_is_checked_before_debug() {
    assert_eq!(
        parse_and_validate("version = v0.0.5\n\n[logging]\ndebug = 't'\n"),
        Err(ConfigError::Validation(ConfigField::Version))
    );
    let config = RootConfig {
        version: "v0.0.5".to_string(),
        logging: LoggingConfig { debug: "true".to_string() },
    };
    assert_eq!(validate(&config), Err(ConfigError::Validation(ConfigField::Version)));
}

#[test]
fn wrong_debug_fails_debug_validation() {
    let config = RootConfig {
        version: "true".to_string(),
        logging: LoggingConfig { debug: "true".to_string() },
    };
    assert_eq!(validate(&config), Err(ConfigError::Validation(ConfigField::Debug)));
}

#[test]
fn layout_is_tolerated() {
    let text = "  # \n";
    assert_eq!(parse_and_validate(text), Err(ConfigError::Parse));
    let spaced = "\t version=true \r\n\r\n [ logging ] \r\n  debug   =   't'\t\r\n";
    assert_eq!(parse_and_validate(spaced), Ok("t".to_string()));
    let no_final_newline = "version = true\n[logging]\ndebug = t";
    assert_eq!(parse_and_validate(no_final_newline), Ok("t".to_string()));
}

#[test]
fn unknown_keys_and_sections_are_ignored() {
    let text = "name = demo\nversion = 'true'\n[extra]\ndebug = x\n[logging]\nlevel = 3\ndebug = 't'\n";
    let config = parse_config(text).unwrap();
    assert_eq!(config.version, "true");
    assert_eq!(config.logging.debug, "t");
    assert_eq!(parse_and_validate(text), Ok("t".to_string()));
}

#[test]
fn quoted_values_keep_their_inside() {
    let config = parse_config("version = 'a b = c'\n[logging]\ndebug = ''\n").unwrap();
    assert_eq!(config.version, "a b = c");
    assert_eq!(config.logging.debug, "");
}

#[test]
fn field_names() {
    assert_eq!(ConfigField::Version.name(), "version");
    assert_eq!(ConfigField::Debug.name(), "debug");
}
