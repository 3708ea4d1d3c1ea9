use wally_install::extract_types::{parse_types, ExportStatement, TypeParam};
use wally_install::lexer::{get, is_end_of_block, strip_comments_and_strings};

fn chars(s: &str) -> Vec<char> {
    s.chars().collect()
}

fn text(v: &[char]) -> String {
    v.iter().collect()
}

#[test]
fn plain_export_extracts_one_statement() {
    let result = parse_types("export type Name = 1");
    assert_eq!(result.statements.len(), 1);
    assert_eq!(result.statements[0].name, "Name");
    assert!(result.statements[0].type_params.is_empty());
    assert_eq!(
        result.format_forwarding_statements("MODULE"),
        "export type Name = MODULE.Name"
    );
}

#[test]
fn generic_with_default_forwards_default() {
    let result = parse_types("export type Map<K, V = string> = {}");
    assert_eq!(
        result.format_forwarding_statements("MODULE"),
        "export type Map<K, V = string> = MODULE.Map<K, V>"
    );
}

#[test]
fn variadic_pack_is_preserved_on_both_sides() {
    let result = parse_types("export type Pack<T...> = ...");
    assert_eq!(
        result.format_forwarding_statements("MODULE"),
        "export type Pack<T...> = MODULE.Pack<T...>"
    );
}

#[test]
fn default_naming_private_type_is_dropped() {
    let result = parse_types("type Helper = {}\nexport type X<T = Helper> = {}");
    assert_eq!(
        result.format_forwarding_statements("MODULE"),
        "export type X<T> = MODULE.X<T>"
    );
}

#[test]
fn default_naming_exported_type_is_kept() {
    let result = parse_types("export type Helper = {}\nexport type X<T = Helper> = {}");
    assert_eq!(
        result.format_forwarding_statements("MODULE"),
        "export type Helper = MODULE.Helper\nexport type X<T = Helper> = MODULE.X<T>"
    );
}

#[test]
fn masked_text_yields_no_statements() {
    assert!(parse_types("--[[ export type Fake = 1 ]]").is_empty());
    assert!(parse_types("local s = \"export type Fake = 1\"").is_empty());
    assert!(parse_types("[[ export type Fake = 1 ]]").is_empty());
}

#[test]
fn long_bracket_depth_must_match() {
    // An intervening `]=]` or `]]` does not close a `[==[` region.
    let source = "[==[ export type Fake = 1 ]=] ]] still inside ]==]\nexport type Real = 2";
    let result = parse_types(source);
    assert_eq!(result.statements.len(), 1);
    assert_eq!(result.statements[0].name, "Real");
}

#[test]
fn block_close_depth_checks() {
    let two = chars("]==]");
    assert!(is_end_of_block(&two, 0, 2));
    assert!(!is_end_of_block(&two, 0, 1));
    assert!(!is_end_of_block(&two, 0, 3));
    let one = chars("]=]");
    assert!(is_end_of_block(&one, 0, 1));
    assert!(!is_end_of_block(&one, 0, 2));
    let zero = chars("]]");
    assert!(is_end_of_block(&zero, 0, 0));
    assert!(!is_end_of_block(&zero, 0, 1));
}

#[test]
fn get_is_bounds_tolerant() {
    let v = chars("ab");
    assert_eq!(get(&v, 0), 'a');
    assert_eq!(get(&v, 1), 'b');
    assert_eq!(get(&v, 2), '\0');
    assert_eq!(get(&v, 100), '\0');
}

#[test]
fn strip_removes_string_bodies_with_escapes() {
    let stripped = strip_comments_and_strings(&chars("local a = \"x\\\"y\" .. b"));
    assert_eq!(text(&stripped), "local a =  .. b");
}

#[test]
fn strip_removes_line_comment_to_newline() {
    let stripped = strip_comments_and_strings(&chars("a -- comment\nb"));
    assert_eq!(text(&stripped), "a \nb");
}

#[test]
fn strip_removes_template_strings() {
    let stripped = strip_comments_and_strings(&chars("`a\\`b` x"));
    assert_eq!(text(&stripped), " x");
}

#[test]
fn unterminated_region_truncates_quietly() {
    let stripped = strip_comments_and_strings(&chars("a [[ never closed"));
    assert_eq!(text(&stripped), "a ");
    assert!(parse_types("export type Gone").is_empty());
}

#[test]
fn empty_source_yields_nothing() {
    let result = parse_types("");
    assert!(result.is_empty());
    assert_eq!(result.format_forwarding_statements("MODULE"), "");
}

#[test]
fn statements_keep_declaration_order() {
    let result = parse_types("export type A = 1 export type B<T> = {}");
    assert_eq!(
        result.format_forwarding_statements("M"),
        "export type A = M.A\nexport type B<T> = M.B<T>"
    );
}

#[test]
fn add_statement_keeps_only_exported() {
    let mut result = parse_types("");
    result.add_statement(ExportStatement {
        name: "Hidden".to_string(),
        is_exported: false,
        type_params: Vec::new(),
    });
    assert!(result.is_empty());
    result.add_statement(ExportStatement {
        name: "Shown".to_string(),
        is_exported: true,
        type_params: Vec::new(),
    });
    assert!(!result.is_empty());
    assert_eq!(
        result.format_forwarding_statements("M"),
        "export type Shown = M.Shown"
    );
}

#[test]
fn forwarding_renders_every_parameter_shape() {
    let statement = ExportStatement {
        name: "Mix".to_string(),
        is_exported: true,
        type_params: vec![
            TypeParam {
                name: "A".to_string(),
                is_pack: false,
                default: None,
            },
            TypeParam {
                name: "B".to_string(),
                is_pack: true,
                default: None,
            },
            TypeParam {
                name: "C".to_string(),
                is_pack: false,
                default: Some("A".to_string()),
            },
        ],
    };
    assert_eq!(
        statement.to_forwarding_statement("Mod"),
        "export type Mix<A, B..., C = A> = Mod.Mix<A, B..., C>"
    );
}
