use case_style::Case;

#[test]
fn test_case_identify() {
    let no_effect = true;

    assert_eq!(Case::identify("aHttpServer", no_effect), Case::Camel);
    assert_eq!(Case::identify("aHTTPServer", true), Case::Unknown);
    assert_eq!(Case::identify("aHTTPServer", false), Case::Camel);
    assert_eq!(Case::identify("v8Engine", no_effect), Case::Camel);

    assert_eq!(Case::identify("HTTP_SERVER", no_effect), Case::Constant);
    assert_eq!(Case::identify("V8_ENGINE", no_effect), Case::Constant);

    assert_eq!(Case::identify("http-server", no_effect), Case::Kebab);

    assert_eq!(Case::identify("httpserver", no_effect), Case::Lower);

    assert_eq!(Case::identify("T", no_effect), Case::NumberableCapital);
    assert_eq!(Case::identify("T1", no_effect), Case::NumberableCapital);

    assert_eq!(Case::identify("HttpServer", no_effect), Case::Pascal);
    assert_eq!(Case::identify("HTTPServer", true), Case::Unknown);
    assert_eq!(Case::identify("HTTPServer", false), Case::Pascal);
    assert_eq!(Case::identify("V8Engine", true), Case::Pascal);

    assert_eq!(Case::identify("http_server", no_effect), Case::Snake);

    assert_eq!(Case::identify("HTTPSERVER", no_effect), Case::Upper);

    assert_eq!(Case::identify("100", no_effect), Case::Uni);
    assert_eq!(Case::identify("안녕하세요", no_effect), Case::Uni);

    // don't allow identifier that starts/ends with a delimiter
    assert_eq!(Case::identify("-a", no_effect), Case::Unknown);
    assert_eq!(Case::identify("_a", no_effect), Case::Unknown);
    assert_eq!(Case::identify("a-", no_effect), Case::Unknown);
    assert_eq!(Case::identify("a_", no_effect), Case::Unknown);

    // don't allow identifier that use consecutive delimiters
    assert_eq!(Case::identify("a--a", no_effect), Case::Unknown);
    assert_eq!(Case::identify("a__a", no_effect), Case::Unknown);

    assert_eq!(Case::identify("", no_effect), Case::Unknown);
    assert_eq!(Case::identify("-", no_effect), Case::Unknown);
    assert_eq!(Case::identify("_", no_effect), Case::Unknown);
    assert_eq!(Case::identify("안녕하세요ABC", no_effect), Case::Unknown);
    assert_eq!(Case::identify("안녕하세요abc", no_effect), Case::Unknown);
    assert_eq!(Case::identify("안녕하세요_ABC", no_effect), Case::Unknown);
    assert_eq!(Case::identify("안녕하세요_abc", no_effect), Case::Unknown);
    assert_eq!(Case::identify("안녕하세요-abc", no_effect), Case::Unknown);
}

#[test]
fn test_case_is_compatible() {
    assert!(Case::Unknown.is_compatible_with(Case::Unknown));
    assert!(!Case::Unknown.is_compatible_with(Case::Camel));
    assert!(!Case::Unknown.is_compatible_with(Case::Constant));
    assert!(!Case::Unknown.is_compatible_with(Case::Kebab));
    assert!(!Case::Unknown.is_compatible_with(Case::Lower));
    assert!(!Case::Unknown.is_compatible_with(Case::NumberableCapital));
    assert!(!Case::Unknown.is_compatible_with(Case::Pascal));
    assert!(!Case::Unknown.is_compatible_with(Case::Snake));
    assert!(!Case::Unknown.is_compatible_with(Case::Uni));
    assert!(!Case::Unknown.is_compatible_with(Case::Upper));

    assert!(Case::Camel.is_compatible_with(Case::Unknown));
    assert!(Case::Camel.is_compatible_with(Case::Camel));
    assert!(!Case::Camel.is_compatible_with(Case::Constant));
    assert!(!Case::Camel.is_compatible_with(Case::Kebab));
    assert!(!Case::Camel.is_compatible_with(Case::Lower));
    assert!(!Case::Camel.is_compatible_with(Case::NumberableCapital));
    assert!(!Case::Camel.is_compatible_with(Case::Pascal));
    assert!(!Case::Camel.is_compatible_with(Case::Snake));
    assert!(!Case::Camel.is_compatible_with(Case::Uni));
    assert!(!Case::Camel.is_compatible_with(Case::Upper));

    assert!(Case::Constant.is_compatible_with(Case::Unknown));
    assert!(!Case::Constant.is_compatible_with(Case::Camel));
    assert!(Case::Constant.is_compatible_with(Case::Constant));
    assert!(!Case::Constant.is_compatible_with(Case::Kebab));
    assert!(!Case::Constant.is_compatible_with(Case::Lower));
    assert!(!Case::Constant.is_compatible_with(Case::NumberableCapital));
    assert!(!Case::Constant.is_compatible_with(Case::Pascal));
    assert!(!Case::Constant.is_compatible_with(Case::Snake));
    assert!(!Case::Constant.is_compatible_with(Case::Uni));
    assert!(!Case::Constant.is_compatible_with(Case::Upper));

    assert!(Case::Kebab.is_compatible_with(Case::Unknown));
    assert!(!Case::Kebab.is_compatible_with(Case::Camel));
    assert!(!Case::Kebab.is_compatible_with(Case::Constant));
    assert!(Case::Kebab.is_compatible_with(Case::Kebab));
    assert!(!Case::Kebab.is_compatible_with(Case::Lower));
    assert!(!Case::Kebab.is_compatible_with(Case::NumberableCapital));
    assert!(!Case::Kebab.is_compatible_with(Case::Pascal));
    assert!(!Case::Kebab.is_compatible_with(Case::Snake));
    assert!(!Case::Kebab.is_compatible_with(Case::Uni));
    assert!(!Case::Kebab.is_compatible_with(Case::Upper));

    assert!(Case::Lower.is_compatible_with(Case::Unknown));
    assert!(Case::Lower.is_compatible_with(Case::Camel));
    assert!(!Case::Lower.is_compatible_with(Case::Constant));
    assert!(Case::Lower.is_compatible_with(Case::Kebab));
    assert!(Case::Lower.is_compatible_with(Case::Lower));
    assert!(!Case::Lower.is_compatible_with(Case::NumberableCapital));
    assert!(!Case::Lower.is_compatible_with(Case::Pascal));
    assert!(Case::Lower.is_compatible_with(Case::Snake));
    assert!(!Case::Lower.is_compatible_with(Case::Uni));
    assert!(!Case::Lower.is_compatible_with(Case::Upper));

    assert!(Case::NumberableCapital.is_compatible_with(Case::Unknown));
    assert!(!Case::NumberableCapital.is_compatible_with(Case::Camel));
    assert!(Case::NumberableCapital.is_compatible_with(Case::Constant));
    assert!(!Case::NumberableCapital.is_compatible_with(Case::Kebab));
    assert!(!Case::NumberableCapital.is_compatible_with(Case::Lower));
    assert!(Case::NumberableCapital.is_compatible_with(Case::NumberableCapital));
    assert!(Case::NumberableCapital.is_compatible_with(Case::Pascal));
    assert!(!Case::NumberableCapital.is_compatible_with(Case::Snake));
    assert!(!Case::NumberableCapital.is_compatible_with(Case::Uni));
    assert!(Case::NumberableCapital.is_compatible_with(Case::Upper));

    assert!(Case::Pascal.is_compatible_with(Case::Unknown));
    assert!(!Case::Pascal.is_compatible_with(Case::Camel));
    assert!(!Case::Pascal.is_compatible_with(Case::Constant));
    assert!(!Case::Pascal.is_compatible_with(Case::Kebab));
    assert!(!Case::Pascal.is_compatible_with(Case::Lower));
    assert!(!Case::Pascal.is_compatible_with(Case::NumberableCapital));
    assert!(Case::Pascal.is_compatible_with(Case::Pascal));
    assert!(!Case::Pascal.is_compatible_with(Case::Snake));
    assert!(!Case::Pascal.is_compatible_with(Case::Uni));
    assert!(!Case::Pascal.is_compatible_with(Case::Upper));

    assert!(Case::Snake.is_compatible_with(Case::Unknown));
    assert!(!Case::Snake.is_compatible_with(Case::Camel));
    assert!(!Case::Snake.is_compatible_with(Case::Constant));
    assert!(!Case::Snake.is_compatible_with(Case::Kebab));
    assert!(!Case::Snake.is_compatible_with(Case::Lower));
    assert!(!Case::Snake.is_compatible_with(Case::NumberableCapital));
    assert!(!Case::Snake.is_compatible_with(Case::Pascal));
    assert!(Case::Snake.is_compatible_with(Case::Snake));
    assert!(!Case::Snake.is_compatible_with(Case::Uni));
    assert!(!Case::Snake.is_compatible_with(Case::Upper));

    assert!(Case::Uni.is_compatible_with(Case::Unknown));
    assert!(!Case::Uni.is_compatible_with(Case::Camel));
    assert!(!Case::Uni.is_compatible_with(Case::Constant));
    assert!(!Case::Uni.is_compatible_with(Case::Kebab));
    assert!(!Case::Uni.is_compatible_with(Case::Lower));
    assert!(!Case::Uni.is_compatible_with(Case::NumberableCapital));
    assert!(!Case::Uni.is_compatible_with(Case::Pascal));
    assert!(!Case::Uni.is_compatible_with(Case::Snake));
    assert!(Case::Uni.is_compatible_with(Case::Uni));
    assert!(!Case::Uni.is_compatible_with(Case::Upper));

    assert!(Case::Upper.is_compatible_with(Case::Unknown));
    assert!(!Case::Upper.is_compatible_with(Case::Camel));
    assert!(Case::Upper.is_compatible_with(Case::Constant));
    assert!(!Case::Upper.is_compatible_with(Case::Kebab));
    assert!(!Case::Upper.is_compatible_with(Case::Lower));
    assert!(!Case::Upper.is_compatible_with(Case::NumberableCapital));
    assert!(!Case::Upper.is_compatible_with(Case::Pascal));
    assert!(!Case::Upper.is_compatible_with(Case::Snake));
    assert!(!Case::Upper.is_compatible_with(Case::Uni));
    assert!(Case::Upper.is_compatible_with(Case::Upper));
}

#[test]
fn test_case_convert() {
    assert_eq!(Case::Camel.convert("camelCase"), "camelCase");
    assert_eq!(Case::Camel.convert("CONSTANT_CASE"), "constantCase");
    assert_eq!(Case::Camel.convert("kebab-case"), "kebabCase");
    assert_eq!(Case::Camel.convert("PascalCase"), "pascalCase");
    assert_eq!(Case::Camel.convert("snake_case"), "snakeCase");
    assert_eq!(Case::Camel.convert("Unknown_Style"), "unknownStyle");

    assert_eq!(Case::Constant.convert("camelCase"), "CAMEL_CASE");
    assert_eq!(Case::Constant.convert("CONSTANT_CASE"), "CONSTANT_CASE");
    assert_eq!(Case::Constant.convert("kebab-case"), "KEBAB_CASE");
    assert_eq!(Case::Constant.convert("PascalCase"), "PASCAL_CASE");
    assert_eq!(Case::Constant.convert("snake_case"), "SNAKE_CASE");
    assert_eq!(Case::Constant.convert("Unknown_Style"), "UNKNOWN_STYLE");

    assert_eq!(Case::Kebab.convert("camelCase"), "camel-case");
    assert_eq!(Case::Kebab.convert("CONSTANT_CASE"), "constant-case");
    assert_eq!(Case::Kebab.convert("kebab-case"), "kebab-case");
    assert_eq!(Case::Kebab.convert("PascalCase"), "pascal-case");
    assert_eq!(Case::Kebab.convert("snake_case"), "snake-case");
    assert_eq!(Case::Kebab.convert("Unknown_Style"), "unknown-style");

    assert_eq!(Case::Lower.convert("camelCase"), "camelcase");
    assert_eq!(Case::Lower.convert("CONSTANT_CASE"), "constantcase");
    assert_eq!(Case::Lower.convert("kebab-case"), "kebabcase");
    assert_eq!(Case::Lower.convert("PascalCase"), "pascalcase");
    assert_eq!(Case::Lower.convert("snake_case"), "snakecase");
    assert_eq!(Case::Lower.convert("Unknown_Style"), "unknownstyle");

    assert_eq!(Case::NumberableCapital.convert("LONG"), "L");

    assert_eq!(Case::Pascal.convert("camelCase"), "CamelCase");
    assert_eq!(Case::Pascal.convert("CONSTANT_CASE"), "ConstantCase");
    assert_eq!(Case::Pascal.convert("kebab-case"), "KebabCase");
    assert_eq!(Case::Pascal.convert("PascalCase"), "PascalCase");
    assert_eq!(Case::Pascal.convert("V8Engine"), "V8Engine");
    assert_eq!(Case::Pascal.convert("snake_case"), "SnakeCase");
    assert_eq!(Case::Pascal.convert("Unknown_Style"), "UnknownStyle");

    assert_eq!(Case::Snake.convert("camelCase"), "camel_case");
    assert_eq!(Case::Snake.convert("CONSTANT_CASE"), "constant_case");
    assert_eq!(Case::Snake.convert("kebab-case"), "kebab_case");
    assert_eq!(Case::Snake.convert("PascalCase"), "pascal_case");
    assert_eq!(Case::Snake.convert("snake_case"), "snake_case");
    assert_eq!(Case::Snake.convert("Unknown_Style"), "unknown_style");

    assert_eq!(Case::Upper.convert("camelCase"), "CAMELCASE");
    assert_eq!(Case::Upper.convert("CONSTANT_CASE"), "CONSTANTCASE");
    assert_eq!(Case::Upper.convert("kebab-case"), "KEBABCASE");
    assert_eq!(Case::Upper.convert("PascalCase"), "PASCALCASE");
    assert_eq!(Case::Upper.convert("snake_case"), "SNAKECASE");
    assert_eq!(Case::Upper.convert("Unknown_Style"), "UNKNOWNSTYLE");

    assert_eq!(Case::Uni.convert("안녕하세요"), "안녕하세요");
    assert_eq!(Case::Uni.convert("a안b녕c하_세D요E"), "안녕하세요");

    assert_eq!(Case::Unknown.convert("Unknown_Style"), "Unknown_Style");
}
