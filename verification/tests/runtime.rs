use std::path::PathBuf;

use command_hills::completion::{common_prefix, completion, split_path, suggestions, DirEntry};
use command_hills::naming::{kebab_case, snake_case};
use command_hills::paths::{eq_ignore_ascii_case, is_markdown, is_visitable, visitable_given};
use command_hills::question::{keep_choices, variant_choices, Choice, KeepChoice};
use command_hills::runtime::{clap_result, required_subcommand, resolve_field, InteractionError, Resolve};
use command_hills::spikes::{spike_t004, spike_t006, spike_t009, spike_t010, spike_t014, t002, t004};
use command_hills::spikes::spike_t003::{derive_resolve, generate_resolve};
use command_hills::spikes::t005::generate_cli;
use command_hills::spikes::spike_t014::part1::{Prompt, PromptArgs};
use command_hills::spikes::spike_t006::PromptGroup;
use command_hills::spikes::spike_t010::Resolve as OwnResolve;
use command_hills::spikes::spike_t010::{
    fill_state, fill_step, Action, ActionArgs, FillQuestion, FillState, FillStep, RestartArgs, SaveArgs, StartArgs,
};
use command_hills::syntax::{
    AssignedValue, Attribute, FieldModel, FieldsModel, GenericsModel, NestedEntry, NestedMeta,
    NestedValue, PathModel, Segment, SegmentArgs, StructModel, TypeModel,
};

#[derive(Clone, Debug, PartialEq)]
enum Base {
    Alpine,
    DebianSlim,
}

/// The variants of `Base`, each with its command-line name.
fn base_variants() -> Vec<(Base, Option<String>)> {
    vec![(Base::Alpine, Some(kebab_case("Alpine"))), (Base::DebianSlim, Some(kebab_case("DebianSlim")))]
}

// ---------------------------------------------------------------------------
// Questions
// ---------------------------------------------------------------------------

#[test]
fn choices_use_value_enum_names() {
    let labels = variant_choices(base_variants()).iter().map(Choice::label).collect::<Vec<_>>();

    assert_eq!(labels, ["alpine", "debian-slim"]);
}

#[test]
fn keep_is_the_first_choice() {
    let choices = keep_choices(variant_choices(base_variants()));
    let labels = choices.iter().map(KeepChoice::label).collect::<Vec<_>>();

    assert_eq!(labels, ["оставить как есть", "alpine", "debian-slim"]);
}

#[test]
fn hidden_variants_are_not_offered() {
    let choices = variant_choices(vec![(Base::Alpine, None), (Base::DebianSlim, Some("debian-slim".to_string()))]);

    assert_eq!(choices.len(), 1);
    assert_eq!(choices[0].value, Base::DebianSlim);
}

#[test]
fn keeping_gives_no_value() {
    let mut choices = keep_choices(variant_choices(base_variants()));
    let second = choices.remove(1);
    let first = choices.remove(0);

    assert_eq!(first.into_option(), None);
    assert_eq!(second.into_option(), Some(Base::Alpine));
}

// ---------------------------------------------------------------------------
// Resolving at run time
// ---------------------------------------------------------------------------

#[test]
fn missing_subcommand_is_a_configuration_error() {
    assert_eq!(required_subcommand(Some(3)), Ok(3));
    assert_eq!(
        required_subcommand::<u8>(None),
        Err(InteractionError::InvalidConfiguration("подкоманда не выбрана".to_string()))
    );
}

#[test]
fn parser_errors_become_custom_errors() {
    assert_eq!(clap_result::<u8>(Ok(1)), Ok(1));
    assert_eq!(
        clap_result::<u8>(Err("unexpected argument".to_string())),
        Err(InteractionError::Custom("unexpected argument".to_string()))
    );
}

#[test]
fn required_prompt_needs_a_flag() {
    let none = PromptArgs { file: None, text: None, no_prompt: false };
    let result: Result<Prompt, InteractionError> = resolve_field(none);

    assert!(matches!(
        result,
        Err(InteractionError::Custom(ref m)) if m == "Нужно указать --file, --text или --no-prompt"
    ));

    let text = PromptArgs { file: None, text: Some("hi".to_string()), no_prompt: true };
    assert!(matches!(<PromptArgs as Resolve<Prompt>>::resolve(text), Ok(Prompt::Text(ref t)) if t == "hi"));

    let file = PromptArgs { file: Some(PathBuf::from("a.md")), text: Some("hi".to_string()), no_prompt: false };
    assert!(matches!(<PromptArgs as Resolve<Prompt>>::resolve(file), Ok(Prompt::File(_))));
}

#[test]
fn optional_prompt_may_be_absent() {
    let none = PromptArgs { file: None, text: None, no_prompt: false };
    assert!(matches!(<PromptArgs as Resolve<Option<Prompt>>>::resolve(none), Ok(None)));

    let no_prompt = PromptArgs { file: None, text: None, no_prompt: true };
    assert!(matches!(<PromptArgs as Resolve<Option<Prompt>>>::resolve(no_prompt), Ok(Some(Prompt::NoPrompt))));
}

#[test]
fn prompt_group_prefers_no_prompt() {
    let g = PromptGroup { file: Some(PathBuf::from("a.md")), text: Some("t".to_string()), no_prompt: true };
    assert!(matches!(g.resolve(), Ok(Some(spike_t006::Prompt::NoPrompt))));

    let g = PromptGroup { file: Some(PathBuf::from("a.md")), text: Some("t".to_string()), no_prompt: false };
    assert!(matches!(g.resolve(), Ok(Some(spike_t006::Prompt::Text(ref t))) if t == "t"));

    let g = PromptGroup { file: None, text: None, no_prompt: false };
    assert!(matches!(g.resolve(), Ok(None)));
}

// ---------------------------------------------------------------------------
// Names
// ---------------------------------------------------------------------------

#[test]
fn inquire_suggests_variants_by_name() {
    let names: Vec<String> = t004::Base::value_variants().iter().map(|v| v.possible_value_name()).collect();
    assert_eq!(names, vec!["debian".to_string(), "alpine".to_string(), "arch".to_string()]);
}

#[test]
fn clap_variants_can_be_extracted_for_inquire() {
    let names: Vec<String> = spike_t004::Base::value_variants().iter().map(|v| v.possible_value_name()).collect();
    assert_eq!(names, vec!["debian".to_string(), "alpine".to_string(), "arch".to_string()]);
}

#[test]
fn agents_are_shown_by_name() {
    assert_eq!(spike_t010::Agent::Opencode.label(), "opencode");
    assert_eq!(spike_t010::Base::default().label(), "debian");
}

#[test]
fn identifiers_change_case() {
    assert_eq!(kebab_case("NoPrompt"), "no-prompt");
    assert_eq!(snake_case("NoPrompt"), "no_prompt");
}

// ---------------------------------------------------------------------------
// Paths
// ---------------------------------------------------------------------------

#[test]
fn main_inquire_path_completer_filters_md() {
    let mut completer = t004::MarkdownPathCompleter;
    let suggestions = completer.get_suggestions("src");
    assert_eq!(suggestions, vec!["src/utils.md"]);
}

#[test]
fn markdown_is_recognised_in_any_case() {
    assert!(is_markdown("notes/plan.md"));
    assert!(is_markdown("PLAN.MD"));
    assert!(!is_markdown("notes.txt"));
    assert!(!is_markdown(".md"));
    assert!(!is_markdown("md"));
    assert!(eq_ignore_ascii_case("Md", "mD"));
    assert!(!eq_ignore_ascii_case("md", "mdx"));
}

#[test]
fn directories_are_visitable() {
    assert!(visitable_given(true, "notes.txt"));
    assert!(!visitable_given(false, "notes.txt"));
    assert!(is_visitable("readme.md"));
}

#[test]
fn input_splits_after_the_last_slash() {
    assert_eq!(split_path("docs/notes/pl"), ("docs/notes/".to_string(), "pl".to_string()));
    assert_eq!(split_path("plan"), (String::new(), "plan".to_string()));
    assert_eq!(split_path("docs/"), ("docs/".to_string(), String::new()));
}

#[test]
fn common_start_of_suggestions() {
    assert_eq!(common_prefix(vec![]), None);
    assert_eq!(common_prefix(vec!["docs/plan.md".to_string(), "docs/plot/".to_string()]), Some("docs/pl".to_string()));
    assert_eq!(common_prefix(vec!["a".to_string(), "b".to_string()]), Some(String::new()));
    assert_eq!(completion(Some("x".to_string()), vec!["ab".to_string()]), Some("x".to_string()));
    assert_eq!(completion(None, vec!["ab".to_string(), "ac".to_string()]), Some("a".to_string()));
}

#[test]
fn suggestions_list_directories_and_markdown_in_order() {
    let entries = vec![
        DirEntry { name: "plan.md".to_string(), is_dir: false },
        DirEntry { name: "notes.txt".to_string(), is_dir: false },
        DirEntry { name: "nested".to_string(), is_dir: true },
        DirEntry { name: "other.md".to_string(), is_dir: false },
    ];
    assert_eq!(
        suggestions("dir/", entries),
        vec!["dir/nested/".to_string(), "dir/other.md".to_string(), "dir/plan.md".to_string()]
    );
}

#[test]
fn suggestions_keep_the_typed_prefix() {
    let entries = vec![
        DirEntry { name: "plan.md".to_string(), is_dir: false },
        DirEntry { name: "other.md".to_string(), is_dir: false },
        DirEntry { name: "plans".to_string(), is_dir: true },
    ];
    let mut completer = spike_t004::MarkdownPathCompleter;
    assert_eq!(completer.get_suggestions("pl", entries), vec!["plan.md".to_string(), "plans/".to_string()]);
}

// ---------------------------------------------------------------------------
// Experiments
// ---------------------------------------------------------------------------

#[test]
fn restart_command_resolves_with_defaults() {
    let args = t002::RestartCommandArgs {
        base: Some("alpine".to_string()),
        no_save: true,
        connect: false,
        target: t002::TargetArgs { container_name: None },
        prompt_args: t002::PromptArgs { file: None, text: Some("hello".to_string()), no_prompt: false },
    };
    let action = args.resolve(&t002::Context);

    assert_eq!(action.base, Some("alpine".to_string()));
    assert_eq!(action.container, "default");
    assert!(action.prompt == t002::Prompt::Text("hello".to_string()));
}

#[test]
fn stopping_without_a_container_gives_an_empty_name() {
    let action = spike_t009::fill(
        spike_t009::ActionArgs::Stop(spike_t009::StopArgs { container: None }),
        &spike_t009::Docker,
    );
    assert!(matches!(action, Ok(spike_t009::Action::Stop { ref container }) if container.is_empty()));
}

#[test]
fn save_flags_give_save() {
    assert_eq!(OwnResolve::resolve(spike_t010::SaveArgs { save: true, no_save: false }), Ok(true));
    assert_eq!(OwnResolve::resolve(spike_t010::SaveArgs { save: false, no_save: true }), Ok(false));
}

#[test]
fn menu_entries_fall_back_to_names() {
    let with_about = spike_t014::part2::action_choice("start".to_string(), Some("запустить".to_string()));
    let without = spike_t014::part2::action_choice("stop".to_string(), None);

    assert_eq!(with_about.label(), "запустить");
    assert_eq!(without.label(), "stop");
    assert_eq!(without.name, "stop");
}

fn simple_path(name: &str) -> PathModel {
    PathModel { leading_colon: false, segments: vec![Segment { ident: name.to_string(), arguments: SegmentArgs::Plain }] }
}

fn plain_field(name: &str, ty: &str, attrs: Vec<Attribute>) -> FieldModel {
    FieldModel { attrs, vis: "pub".to_string(), ident: Some(name.to_string()), ty: TypeModel::Path(simple_path(ty)) }
}

fn args_struct(fields: Vec<FieldModel>) -> StructModel {
    StructModel {
        attrs: vec![],
        vis: "pub".to_string(),
        ident: "Args".to_string(),
        generics: GenericsModel {
            params: String::new(),
            impl_generics: String::new(),
            type_generics: String::new(),
            where_clause: String::new(),
        },
        fields: FieldsModel::Named(fields, false),
    }
}

fn marker(name: &str) -> Attribute {
    Attribute {
        path: simple_path(name),
        text: format!("# [{}]", name),
        meta: Err("expected parentheses".to_string()),
        nested: NestedMeta { entries: vec![], error: None },
    }
}

#[test]
fn resolve_skips_base() {
    let item = args_struct(vec![plain_field("container", "String", vec![]), plain_field("base", "String", vec![])]);
    assert_eq!(
        derive_resolve(&item),
        Ok("impl Args { pub fn resolve (self) -> Target { Target { container : self . container , } } }".to_string())
    );
    assert_eq!(
        generate_resolve(&item),
        Ok("pub struct Args { pub container : String , pub base : String } \
            impl Args { pub fn resolve (self) -> Target { Target { container : self . container , } } }"
            .to_string())
    );
}

#[test]
fn unknown_attribute_is_refused() {
    let item = args_struct(vec![plain_field("container", "String", vec![marker("unknown")])]);
    assert_eq!(derive_resolve(&item), Err("unknown attribute".to_string()));
    assert_eq!(generate_resolve(&item), Err("unknown attribute".to_string()));
}

#[test]
fn cli_fields_get_long_options() {
    let hill = Attribute {
        path: simple_path("hill"),
        text: "# [hill (completer = my_completer)]".to_string(),
        meta: Err("not a list".to_string()),
        nested: NestedMeta {
            entries: vec![NestedEntry {
                path: simple_path("completer"),
                value: NestedValue::Assigned(AssignedValue {
                    lit_str: Err("expected string literal".to_string()),
                    path: Ok((simple_path("my_completer"), true)),
                    ty: Ok((TypeModel::Path(simple_path("my_completer")), true)),
                    expr: Ok(("my_completer".to_string(), true)),
                }),
            }],
            error: None,
        },
    };
    let mut item = args_struct(vec![plain_field("opt_b", "Option<String>", vec![hill])]);
    item.ident = "Cli".to_string();
    assert_eq!(
        generate_cli(&item),
        "# [derive (clap :: Parser , Debug)] pub struct Cli { # [arg (long , add = :: spike_lib :: reexports :: ArgValueCompleter :: new (my_completer))] pub opt_b : Option<String> , }"
    );
}

#[test]
fn filling_asks_for_what_is_missing() {
    let args = ActionArgs::Start(StartArgs {
        base: None,
        agent: Some(spike_t010::Agent::Codex),
        prompt: spike_t010::PromptArgs { file: None, text: Some("hi".to_string()), no_prompt: false },
    });
    let state = match fill_step(fill_state(args)) {
        FillStep::Ask(state, question) => {
            assert_eq!(question, FillQuestion::Base);
            state
        }
        FillStep::Done(_) => panic!("the base should be asked for"),
    };
    let state = match state {
        FillState::Start { agent, prompt, .. } => FillState::Start { base: Some(spike_t010::Base::Arch), agent, prompt },
        other => other,
    };
    match fill_step(state) {
        FillStep::Done(Ok(Action::Start { base, agent, prompt })) => {
            assert_eq!(base, spike_t010::Base::Arch);
            assert_eq!(agent, spike_t010::Agent::Codex);
            assert!(matches!(prompt, spike_t010::Prompt::Text(ref t) if t == "hi"));
        }
        _ => panic!("the action should be filled"),
    }
}

#[test]
fn restarting_asks_once_for_a_base_to_keep() {
    let args = ActionArgs::Restart(RestartArgs { base: None, save: SaveArgs { save: true, no_save: false } });
    let state = match fill_step(fill_state(args)) {
        FillStep::Ask(state, FillQuestion::KeepBase) => state,
        _ => panic!("the base should be asked for"),
    };
    let state = match state {
        FillState::Restart { save, .. } => FillState::Restart { base: None, asked: true, save },
        other => other,
    };
    assert!(matches!(fill_step(state), FillStep::Done(Ok(Action::Restart { base: None, save: true }))));
}

#[test]
fn answers_fill_the_missing_values() {
    let state = FillState::Start {
        base: None,
        agent: None,
        prompt: spike_t010::PromptArgs { file: None, text: None, no_prompt: true },
    };
    let state = spike_t010::fill_answer(state, spike_t010::FillAnswer::Base(spike_t010::Base::Alpine));
    let state = spike_t010::fill_answer(state, spike_t010::FillAnswer::Agent(spike_t010::Agent::Codex));
    assert!(matches!(
        fill_step(state),
        FillStep::Done(Ok(Action::Start { base: spike_t010::Base::Alpine, agent: spike_t010::Agent::Codex, prompt: spike_t010::Prompt::NoPrompt }))
    ));

    let kept = spike_t010::fill_answer(
        FillState::Restart { base: None, asked: false, save: SaveArgs { save: false, no_save: true } },
        spike_t010::FillAnswer::KeptBase(None),
    );
    assert!(matches!(fill_step(kept), FillStep::Done(Ok(Action::Restart { base: None, save: false }))));
}

#[test]
fn listed_paths_are_filtered_by_the_directory_answers() {
    assert_eq!(t004::suggestions_given("src", &vec![false, false]), vec!["src/utils.md".to_string()]);
    assert_eq!(
        t004::suggestions_given("src", &vec![true, false]),
        vec!["src/main.rs".to_string(), "src/utils.md".to_string()]
    );
    assert_eq!(t004::suggestions_given("docs", &vec![true]), Vec::<String>::new());
}
