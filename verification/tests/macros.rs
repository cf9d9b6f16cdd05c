use command_hills::clean::preserve_item;
use command_hills::commands;
use command_hills::error::HillError;
use command_hills::generate::generate;
use command_hills::group;
use command_hills::model::Declaration;
use command_hills::parser::parse_declaration;
use command_hills::root;
use command_hills::syntax::{
    AssignedValue, Attribute, EnumModel, ExprModel, FieldModel, FieldsModel, GenericArg,
    GenericsModel, ItemModel, LitStrModel, MetaItem, MetaKind, NestedEntry, NestedMeta,
    NestedValue, ParenValue, PathModel, Segment, SegmentArgs, StructModel, TypeModel,
    VariantModel,
};

fn path(s: &str) -> PathModel {
    PathModel {
        leading_colon: false,
        segments: s
            .split("::")
            .map(|name| Segment { ident: name.to_string(), arguments: SegmentArgs::Plain })
            .collect(),
    }
}

fn ty(s: &str) -> TypeModel {
    TypeModel::Path(path(s))
}

fn generic(outer: &str, inner: &str) -> TypeModel {
    TypeModel::Path(PathModel {
        leading_colon: false,
        segments: vec![Segment {
            ident: outer.to_string(),
            arguments: SegmentArgs::Angle {
                turbofish: false,
                args: vec![GenericArg::Type(inner.to_string())],
            },
        }],
    })
}

fn bare(name: &str) -> MetaItem {
    MetaItem { path: path(name), kind: MetaKind::Path }
}

fn assign_path(name: &str, value: &str) -> MetaItem {
    MetaItem { path: path(name), kind: MetaKind::NameValue(ExprModel::Path(path(value))) }
}

fn lit(value: &str) -> LitStrModel {
    LitStrModel { value: value.to_string(), text: format!("\"{}\"", value) }
}

fn assign_lit(name: &str, value: &str) -> MetaItem {
    MetaItem { path: path(name), kind: MetaKind::NameValue(ExprModel::LitStr(lit(value))) }
}

fn no_nested() -> NestedMeta {
    NestedMeta { entries: Vec::new(), error: None }
}

/// `#[name(inner)]`, with its arguments read as `meta`.
fn attr(name: &str, inner: &str, meta: Result<Vec<MetaItem>, String>) -> Attribute {
    Attribute { path: path(name), text: format!("# [{} ({})]", name, inner), meta, nested: no_nested() }
}

/// `#[hill(...)]` with the given nested entries.
fn hill(inner: &str, entries: Vec<NestedEntry>) -> Attribute {
    Attribute {
        path: path("hill"),
        text: format!("# [hill ({})]", inner),
        meta: Err("not a list".to_string()),
        nested: NestedMeta { entries, error: None },
    }
}

fn assigned_lit(value: &str) -> NestedValue {
    NestedValue::Assigned(AssignedValue {
        lit_str: Ok((lit(value), true)),
        path: Err("expected identifier".to_string()),
        ty: Err("expected type".to_string()),
        expr: Ok((format!("\"{}\"", value), true)),
    })
}

fn assigned_path(value: &str) -> NestedValue {
    NestedValue::Assigned(AssignedValue {
        lit_str: Err("expected string literal".to_string()),
        path: Ok((path(value), true)),
        ty: Ok((ty(value), true)),
        expr: Ok((value.to_string(), true)),
    })
}

fn entry(name: &str, value: NestedValue) -> NestedEntry {
    NestedEntry { path: path(name), value }
}

fn paren(name: &str, tokens: &str, meta: Vec<MetaItem>) -> NestedEntry {
    NestedEntry {
        path: path(name),
        value: NestedValue::Paren(ParenValue { tokens: tokens.to_string(), meta: Ok(meta) }),
    }
}

fn field(vis: &str, name: &str, ty: TypeModel, attrs: Vec<Attribute>) -> FieldModel {
    FieldModel { attrs, vis: vis.to_string(), ident: Some(name.to_string()), ty }
}

fn no_generics() -> GenericsModel {
    GenericsModel {
        params: String::new(),
        impl_generics: String::new(),
        type_generics: String::new(),
        where_clause: String::new(),
    }
}

fn strukt(vis: &str, name: &str, attrs: Vec<Attribute>, fields: Vec<FieldModel>) -> StructModel {
    StructModel {
        attrs,
        vis: vis.to_string(),
        ident: name.to_string(),
        generics: no_generics(),
        fields: FieldsModel::Named(fields, false),
    }
}

fn start_options() -> Result<Vec<MetaItem>, String> {
    Ok(vec![assign_path("target", "Action::Start"), assign_path("context", "Docker")])
}

fn declaration(arguments: Result<Vec<MetaItem>, String>, item: StructModel) -> Declaration {
    parse_declaration(arguments, Ok(item)).expect("объявление должно разбираться")
}

// ---------------------------------------------------------------------------
// Reading a declaration
// ---------------------------------------------------------------------------

#[test]
fn parses_regular_field() {
    let declaration = parse_declaration(
        start_options(),
        Ok(strukt("", "Start", vec![], vec![field("", "base", generic("Option", "Base"), vec![])])),
    )
    .expect("обычное поле должно разбираться");

    assert_eq!(declaration.ident, "Start");
    assert_eq!(command_hills::syntax::render_path(&declaration.target), "Action :: Start");
    assert_eq!(declaration.context.as_ref().expect("контекст должен быть сохранён"), "Docker");
    assert_eq!(declaration.fields.len(), 1);
    assert_eq!(declaration.fields[0].ident, "base");
    assert_eq!(command_hills::syntax::render_type(&declaration.fields[0].ty), "Option < Base >");
    assert_eq!(declaration.fields[0].position, 0);
}

#[test]
fn preserves_clap_attributes() {
    let declaration = parse_declaration(
        start_options(),
        Ok(strukt(
            "",
            "Start",
            vec![attr("command", "rename_all = \"kebab-case\"", Ok(vec![assign_lit("rename_all", "kebab-case")]))],
            vec![field(
                "",
                "base",
                ty("Base"),
                vec![
                    attr("arg", "long , value_parser = parse_base", Ok(vec![bare("long"), assign_path("value_parser", "parse_base")])),
                    attr("command", "flatten", Ok(vec![bare("flatten")])),
                ],
            )],
        )),
    )
    .expect("атрибуты clap должны разбираться");

    assert_eq!(declaration.clap_attributes.len(), 1);
    assert_eq!(declaration.clap_attributes[0].text, "# [command (rename_all = \"kebab-case\")]");
    assert_eq!(declaration.fields[0].clap_attributes.len(), 2);
    assert_eq!(declaration.fields[0].clap_attributes[0].text, "# [arg (long , value_parser = parse_base)]");
    assert_eq!(declaration.fields[0].clap_attributes[1].text, "# [command (flatten)]");
}

#[test]
fn recognizes_exception_marker() {
    let declaration = parse_declaration(
        Ok(vec![assign_path("target", "Action::Restart"), assign_path("context", "Docker")]),
        Ok(strukt("", "Restart", vec![], vec![field("", "no_save", generic("Only", "bool"), vec![])])),
    )
    .expect("пометка исключения должна разбираться");

    assert_eq!(declaration.fields[0].markers.len(), 1);
    assert_eq!(declaration.fields[0].markers[0].ident, "Only");
    assert_eq!(declaration.fields[0].markers[0].inner_type, "bool");
}

#[test]
fn preserves_field_order() {
    let declaration = parse_declaration(
        Ok(vec![assign_path("target", "Action::Restart"), assign_path("context", "Docker")]),
        Ok(strukt(
            "",
            "Restart",
            vec![],
            vec![
                field("", "container", ty("String"), vec![]),
                field("", "base", generic("Option", "Base"), vec![]),
                field("", "save", ty("bool"), vec![]),
            ],
        )),
    )
    .expect("несколько полей должны разбираться");

    let fields = declaration
        .fields
        .iter()
        .map(|field| (field.ident.to_string(), field.position))
        .collect::<Vec<_>>();
    assert_eq!(
        fields,
        vec![("container".to_owned(), 0), ("base".to_owned(), 1), ("save".to_owned(), 2)]
    );
}

#[test]
fn rejects_missing_target() {
    let error = parse_declaration(
        Ok(vec![assign_path("context", "Docker")]),
        Ok(strukt("", "Restart", vec![], vec![field("", "base", generic("Option", "Base"), vec![])])),
    )
    .err()
    .expect("отсутствующий целевой тип должен давать ошибку");

    assert!(error.message().contains("Restart"));
    assert!(error.message().contains("целевой тип"));
}

#[test]
fn marker_error_names_problematic_field() {
    let error = parse_declaration(
        Ok(vec![assign_path("target", "Action::Restart"), assign_path("context", "Docker")]),
        Ok(strukt("", "Restart", vec![], vec![field("", "no_save", ty("Only"), vec![])])),
    )
    .err()
    .expect("некорректная пометка должна давать ошибку");

    assert!(error.message().contains("no_save"));
}

#[test]
fn rejects_question_with_context() {
    let error = parse_declaration(
        start_options(),
        Ok(strukt(
            "",
            "Start",
            vec![],
            vec![field(
                "",
                "base",
                generic("Option", "Base"),
                vec![hill("ask = \"Base\" , ctx", vec![entry("ask", assigned_lit("Base")), entry("ctx", NestedValue::Bare)])],
            )],
        )),
    )
    .err()
    .expect("вопрос вместе с контекстом должен давать ошибку");

    assert!(error.message().contains("base"));
}

// ---------------------------------------------------------------------------
// Generating the arguments structure
// ---------------------------------------------------------------------------

#[test]
fn generates_parser_and_resolve() {
    let declaration = declaration(
        start_options(),
        strukt(
            "pub",
            "Start",
            vec![],
            vec![
                field("pub", "base", generic("Option", "Base"), vec![attr("arg", "long", Ok(vec![bare("long")]))]),
                field("pub", "prompt", ty("PromptArgs"), vec![attr("command", "flatten", Ok(vec![bare("flatten")]))]),
            ],
        ),
    );
    let rendered = generate(declaration).expect("объявление должно порождать код");

    assert!(rendered.contains("derive (clap :: Parser)"));
    assert!(rendered.contains("base : self . base"));
    assert!(rendered.contains("prompt : :: command_hills :: Resolve :: resolve (self . prompt) ?"));
    assert!(rendered.contains("async fn resolve"));
}

#[test]
fn removes_hill_attributes() {
    let declaration = declaration(
        start_options(),
        strukt(
            "",
            "Start",
            vec![],
            vec![field(
                "",
                "base",
                generic("Option", "Base"),
                vec![attr("arg", "long", Ok(vec![bare("long")])), hill("keep = \"Base\"", vec![entry("keep", assigned_lit("Base"))])],
            )],
        ),
    );
    let rendered = generate(declaration).expect("объявление должно порождать код");

    assert!(rendered.contains("arg (long)"));
    assert!(!rendered.contains("# [hill"));
}

#[test]
fn converts_only_marker_and_skips_target_field() {
    let declaration = declaration(
        start_options(),
        strukt("", "Start", vec![], vec![field("", "connect", generic("Only", "String"), vec![attr("arg", "long", Ok(vec![bare("long")]))])]),
    );
    let rendered = generate(declaration).expect("объявление должно порождать код");

    assert!(rendered.contains("connect : String"));
    assert!(!rendered.contains("connect : self . connect"));
}

#[test]
fn malformed_command_attribute_is_reported() {
    let declaration = declaration(
        start_options(),
        strukt(
            "",
            "Start",
            vec![],
            vec![field(
                "",
                "prompt",
                ty("PromptArgs"),
                vec![attr("command", "flatten =", Err("unexpected end of input, expected an expression".to_string()))],
            )],
        ),
    );
    let error = generate(declaration).expect_err("некорректный command должен давать ошибку");

    assert!(error.message().contains("expected"));
}

#[test]
fn generated_structure_is_exact() {
    let declaration = declaration(
        start_options(),
        strukt("pub", "Start", vec![], vec![field("pub", "base", generic("Option", "Base"), vec![attr("arg", "long", Ok(vec![bare("long")]))])]),
    );
    let rendered = generate(declaration).unwrap();

    assert_eq!(
        rendered,
        "# [derive (clap :: Parser)] pub struct Start { # [arg (long)] pub base : Option < Base > , } \
         impl Start { pub async fn resolve (self , ctx : & Docker) -> :: command_hills :: Result < Action :: Start > \
         { Ok (Action :: Start { base : self . base , }) } }"
    );
}

#[test]
fn missing_target_message_is_exact() {
    let error = parse_declaration(Ok(vec![assign_path("context", "Docker")]), Ok(strukt("", "Restart", vec![], vec![]))).unwrap_err();

    assert_eq!(error, HillError::MissingTarget { item: "Restart".to_string() });
    assert_eq!(error.message(), "для структуры `Restart` не указан целевой тип");
}

#[test]
fn syntax_error_of_the_input_is_passed_on() {
    let error = parse_declaration(start_options(), Err("expected `struct`".to_string())).unwrap_err();

    assert_eq!(error, HillError::Syntax("expected `struct`".to_string()));
}

// ---------------------------------------------------------------------------
// `commands`
// ---------------------------------------------------------------------------

fn actions(variants: Vec<VariantModel>) -> EnumModel {
    EnumModel { attrs: vec![], vis: "pub".to_string(), ident: "Action".to_string(), generics: no_generics(), variants, trailing_comma: false }
}

fn variant(name: &str, attrs: Vec<Attribute>, fields: Vec<FieldModel>) -> VariantModel {
    VariantModel { attrs, ident: name.to_string(), fields: FieldsModel::Named(fields, false), discriminant: None }
}

#[test]
fn commands_expand_an_enum_of_actions() {
    let item = actions(vec![variant(
        "Start",
        vec![hill("about = \"start\"", vec![entry("about", assigned_lit("start"))])],
        vec![field("", "base", generic("Option", "Base"), vec![hill("keep = \"Base\"", vec![entry("keep", assigned_lit("Base"))])])],
    )]);
    let out = commands::expand(Ok(vec![assign_path("context", "Docker")]), Ok(item)).unwrap();

    assert!(out.starts_with("pub enum Action { Start { base : Option < Base > } }"));
    assert!(out.contains("# [derive (clap :: Subcommand)] pub enum ActionArgs { # [command (about = \"start\")] Start (StartArgs) , }"));
    assert!(out.contains("base : :: command_hills :: __private :: ask_variant_or_keep (\"Base\" , self . base) ?"));
    assert!(out.contains("pub async fn fill (args : ActionArgs , ctx : & Docker) -> :: command_hills :: Result < Action >"));
    assert!(out.contains("ActionArgs :: Start (args) => args . resolve (ctx) . await ,"));
    assert!(!out.contains("# [hill"));
}

#[test]
fn commands_require_about() {
    let item = actions(vec![variant("Start", vec![], vec![])]);
    let error = commands::expand(Ok(vec![assign_path("context", "Docker")]), Ok(item)).unwrap_err();

    assert_eq!(error, HillError::MissingAbout { variant: "Start".to_string() });
}

#[test]
fn commands_require_context() {
    let error = commands::expand(Ok(vec![]), Ok(actions(vec![]))).unwrap_err();

    assert_eq!(error, HillError::MissingCommandsContext);
}

#[test]
fn keep_needs_an_option() {
    let item = actions(vec![variant(
        "Start",
        vec![hill("about = \"start\"", vec![entry("about", assigned_lit("start"))])],
        vec![field("", "base", ty("Base"), vec![hill("keep = \"Base\"", vec![entry("keep", assigned_lit("Base"))])])],
    )]);
    let error = commands::expand(Ok(vec![assign_path("context", "Docker")]), Ok(item)).unwrap_err();

    assert_eq!(error, HillError::KeepNeedsOption { field: "base".to_string() });
}

// ---------------------------------------------------------------------------
// `root`
// ---------------------------------------------------------------------------

fn root_options() -> Result<Vec<MetaItem>, String> {
    Ok(vec![assign_path("action", "Action"), assign_lit("ask", "Что делать?")])
}

fn connect_field(attrs: Vec<Attribute>) -> FieldModel {
    field("pub", "connect", ty("Docker"), attrs)
}

#[test]
fn root_writes_the_parser_and_resolve() {
    let item = strukt(
        "pub",
        "Command",
        vec![attr("command", "name = \"cat\"", Ok(vec![assign_lit("name", "cat")]))],
        vec![connect_field(vec![hill(
            "context , with = endpoint , arg (long)",
            vec![entry("context", NestedValue::Bare), entry("with", assigned_path("endpoint")), paren("arg", "long", vec![bare("long")])],
        )])],
    );
    let out = root::expand(root_options(), Ok(item)).unwrap();

    assert_eq!(
        out,
        "pub struct Command { pub connect : Docker , pub action : Action } \
         # [derive (clap :: Parser)] # [command (name = \"cat\")] pub struct Cli { # [arg (long)] pub connect : Option < Docker > , \
         # [command (subcommand)] pub action : Option < ActionArgs > , } \
         impl Cli { pub async fn resolve (self) -> :: command_hills :: Result < Command > { let connect = endpoint (self . connect) ; \
         let action_args = match self . action { Some (action) => action , None => { let chosen = :: command_hills :: __private :: ask_subcommand :: < Cli > (\"Что делать?\") ? ; \
         let parsed = :: command_hills :: __private :: clap_result (< Cli as clap :: Parser > :: try_parse_from ([:: std :: string :: String :: from (\"command-hills\") , chosen ,]) ,) ? ; \
         :: command_hills :: __private :: required_subcommand (parsed . action) ? } } ; let action = fill (action_args , & connect) . await ? ; \
         Ok (Command { connect , action , }) } } \
         impl Command { pub async fn parse () -> :: command_hills :: Result < Self > { < Cli as clap :: Parser > :: parse () . resolve () . await } }"
    );
}

#[test]
fn root_requires_with() {
    let item = strukt("", "Command", vec![], vec![connect_field(vec![hill("context", vec![entry("context", NestedValue::Bare)])])]);
    let error = root::expand(root_options(), Ok(item)).unwrap_err();

    assert_eq!(error, HillError::MissingWith { field: "connect".to_string() });
    assert_eq!(error.message(), "поле `connect` должно содержать пометку `with`");
}

#[test]
fn root_requires_a_context_field() {
    let item = strukt("", "Command", vec![], vec![connect_field(vec![hill("with = endpoint", vec![entry("with", assigned_path("endpoint"))])])]);
    let error = root::expand(root_options(), Ok(item)).unwrap_err();

    assert_eq!(error, HillError::MissingContextField { field: "connect".to_string() });
}

#[test]
fn root_refuses_a_declared_action() {
    let item = strukt("", "Command", vec![], vec![field("", "action", ty("Action"), vec![])]);
    let error = root::expand(root_options(), Ok(item)).unwrap_err();

    assert_eq!(error, HillError::ActionFieldDeclared { item: "Command".to_string() });
}

#[test]
fn root_requires_ask() {
    let error = root::expand(Ok(vec![assign_path("action", "Action")]), Ok(strukt("", "Command", vec![], vec![]))).unwrap_err();

    assert_eq!(error, HillError::MissingRootParameter { name: "ask" });
    assert_eq!(error.message(), "для root не указан параметр `ask`");
}

#[test]
fn root_refuses_an_unknown_parameter() {
    let error = root::expand(Ok(vec![assign_path("acton", "Action")]), Ok(strukt("", "Command", vec![], vec![]))).unwrap_err();

    assert_eq!(error, HillError::UnknownRootParameter { name: "acton".to_string() });
}

#[test]
fn root_refuses_a_second_context() {
    let marks = || vec![hill("context , with = f", vec![entry("context", NestedValue::Bare), entry("with", assigned_path("f"))])];
    let item = strukt("", "Command", vec![], vec![field("", "a", ty("A"), marks()), field("", "b", ty("B"), marks())]);
    let error = root::expand(root_options(), Ok(item)).unwrap_err();

    assert_eq!(error, HillError::ExtraContext { field: "b".to_string() });
}

// ---------------------------------------------------------------------------
// `group`
// ---------------------------------------------------------------------------

fn prompt_group(variants: Vec<VariantModel>) -> EnumModel {
    EnumModel { attrs: vec![], vis: "pub".to_string(), ident: "Prompt".to_string(), generics: no_generics(), variants, trailing_comma: false }
}

#[test]
fn group_writes_flags_and_options() {
    let item = prompt_group(vec![
        VariantModel {
            attrs: vec![],
            ident: "File".to_string(),
            fields: FieldsModel::Unnamed(vec![FieldModel { attrs: vec![], vis: String::new(), ident: None, ty: ty("PathBuf") }], false),
            discriminant: None,
        },
        VariantModel {
            attrs: vec![hill("arg (short = 'n')", vec![paren("arg", "short = 'n'", vec![MetaItem {
                path: path("short"),
                kind: MetaKind::NameValue(ExprModel::OtherLit("'n'".to_string())),
            }])])],
            ident: "NoPrompt".to_string(),
            fields: FieldsModel::Unit,
            discriminant: None,
        },
    ]);
    let out = group::expand(Ok(vec![assign_path("fallback", "ask_prompt")]), Ok(item)).unwrap();

    assert_eq!(
        out,
        "pub enum Prompt { File (PathBuf) , NoPrompt } \
         # [derive (clap :: Args)] # [group (multiple = false)] pub struct PromptArgs { \
         # [arg (long = \"file\")] pub file : Option < PathBuf > , \
         # [arg (long = \"no-prompt\")] # [arg (short = 'n')] pub no_prompt : bool , } \
         impl :: command_hills :: Resolve < Prompt > for PromptArgs { fn resolve (self) -> :: command_hills :: Result < Prompt > \
         { if let Some (value) = self . file { return Ok (Prompt :: File (value)) ; } if self . no_prompt { return Ok (Prompt :: NoPrompt) ; } ask_prompt () } } \
         impl :: command_hills :: Resolve < Option < Prompt >> for PromptArgs { fn resolve (self) -> :: command_hills :: Result < Option < Prompt >> \
         { if let Some (value) = self . file { return Ok (Some (Prompt :: File (value))) ; } if self . no_prompt { return Ok (Some (Prompt :: NoPrompt)) ; } Ok (None) } }"
    );
}

#[test]
fn group_keeps_a_given_long() {
    let item = prompt_group(vec![VariantModel {
        attrs: vec![hill("arg (long = \"none\")", vec![paren("arg", "long = \"none\"", vec![assign_lit("long", "none")])])],
        ident: "NoPrompt".to_string(),
        fields: FieldsModel::Unit,
        discriminant: None,
    }]);
    let out = group::expand(Ok(vec![assign_path("fallback", "f")]), Ok(item)).unwrap();

    assert!(out.contains("{ # [arg (long = \"none\")] pub no_prompt : bool , }"));
    assert!(!out.contains("no-prompt"));
}

#[test]
fn group_requires_a_fallback() {
    let error = group::expand(Ok(vec![]), Ok(prompt_group(vec![]))).unwrap_err();

    assert_eq!(error, HillError::MissingFallback { item: "Prompt".to_string() });
}

#[test]
fn group_refuses_named_fields() {
    let item = prompt_group(vec![variant("Text", vec![], vec![field("", "text", ty("String"), vec![])])]);
    let error = group::expand(Ok(vec![assign_path("fallback", "f")]), Ok(item)).unwrap_err();

    assert_eq!(error, HillError::GroupVariantShape { variant: "Text".to_string() });
}

#[test]
fn group_refuses_other_marks() {
    let item = prompt_group(vec![VariantModel {
        attrs: vec![hill("skip", vec![entry("skip", NestedValue::Bare)])],
        ident: "NoPrompt".to_string(),
        fields: FieldsModel::Unit,
        discriminant: None,
    }]);
    let error = group::expand(Ok(vec![assign_path("fallback", "f")]), Ok(item)).unwrap_err();

    assert_eq!(error, HillError::GroupVariantMarker { variant: "NoPrompt".to_string() });
}

// ---------------------------------------------------------------------------
// Keeping the item when expanding fails
// ---------------------------------------------------------------------------

#[test]
fn refused_item_is_kept_without_hill_attributes() {
    let item = ItemModel::Struct(strukt(
        "pub",
        "Start",
        vec![],
        vec![field("pub", "base", generic("Option", "Base"), vec![hill("keep = \"Base\"", vec![entry("keep", assigned_lit("Base"))])])],
    ));
    let kept = preserve_item(Ok(item)).unwrap();

    assert_eq!(kept, "pub struct Start { pub base : Option < Base > }");
}

#[test]
fn written_items_keep_their_commas() {
    let mut item = actions(vec![
        variant("Start", vec![hill("about = \"start\"", vec![entry("about", assigned_lit("start"))])], vec![]),
        variant("Stop", vec![hill("about = \"stop\"", vec![entry("about", assigned_lit("stop"))])], vec![]),
    ]);
    item.trailing_comma = true;
    let out = commands::expand(Ok(vec![assign_path("context", "Docker")]), Ok(item)).unwrap();
    assert!(out.starts_with("pub enum Action { Start { } , Stop { } , }"));

    let kept = preserve_item(Ok(ItemModel::Struct(StructModel {
        attrs: vec![],
        vis: String::new(),
        ident: "N".to_string(),
        generics: no_generics(),
        fields: FieldsModel::Named(vec![field("", "a", ty("u8"), vec![]), field("", "b", ty("u8"), vec![])], true),
    })))
    .unwrap();
    assert_eq!(kept, "struct N { a : u8 , b : u8 , }");
}

#[test]
fn root_keeps_the_action_path() {
    let item = strukt(
        "",
        "Command",
        vec![],
        vec![field("", "connect", ty("Docker"), vec![hill(
            "context , with = endpoint",
            vec![entry("context", NestedValue::Bare), entry("with", assigned_path("endpoint"))],
        )])],
    );
    let out = root::expand(Ok(vec![assign_path("action", "crate::Action"), assign_lit("ask", "Что делать?")]), Ok(item)).unwrap();

    assert!(out.contains("action : crate :: Action }"));
    assert!(out.contains("action : Option < crate :: ActionArgs >"));
    assert!(out.contains("fill (action_args , & connect)"));
}
