//! The errors the attribute macros report, and their messages.
use vstd::prelude::*;
use vstd::string::*;
use crate::text::{concat, concat3, owned};

verus! {

/// Why an attribute macro refused its input.
#[derive(Debug, PartialEq, Eq)]
pub enum HillError {
    /// A syntax error found while the input was read, with its message.
    Syntax(String),
    /// expected `=`
    ExpectedEq,
    /// expected `,`
    ExpectedComma,
    /// expected parentheses
    ExpectedParens,
    /// ожидалось именованное поле
    ExpectedNamedField,
    /// ожидалось имя параметра
    ExpectedParameterName,
    /// ожидался параметр в форме `имя = Тип`
    ExpectedTargetParameter,
    /// ожидался параметр в форме `context = Тип`
    ExpectedContextParameter,
    /// ожидался параметр в форме `fallback = путь`
    ExpectedFallbackParameter,
    /// ожидался параметр в форме `имя = значение`
    ExpectedRootParameter,
    /// для commands не указан параметр `context`
    MissingCommandsContext,
    /// неизвестный параметр group; допустим только `fallback`
    UnknownGroupParameter,
    /// значение `fallback` должно быть путём
    FallbackNotPath,
    /// параметр `action` должен быть путём
    ActionNotPath,
    /// значение параметра `ask` должно быть строкой
    AskNotString,
    /// для структуры `{item}` не указан целевой тип
    MissingTarget { item: String },
    /// значение параметра `{name}` должно быть путём
    ParameterNotPath { name: String },
    /// неизвестный параметр `{name}`
    UnknownParameter { name: String },
    /// параметр `{name}` указан несколько раз
    DuplicateParameter { name: String },
    /// структура `{item}` должна содержать именованные поля
    NamedFieldsRequired { item: String },
    /// неизвестная пометка поля `{field}`
    UnknownFieldMarker { field: String },
    /// поле `{field}` содержит несколько пометок вопроса
    SeveralQuestions { field: String },
    /// поле `{field}` не может одновременно содержать вопрос и `ctx`
    QuestionWithContext { field: String },
    /// поле `{field}` с вопросом должно иметь тип Option<T>
    QuestionNeedsOption { field: String },
    /// полю `{field}` с пометкой `ctx` нужен context у fill
    ContextNeededForCtx { field: String },
    /// поле `{field}` с пометкой `ctx` должно быть flatten
    CtxRequiresFlatten { field: String },
    /// вариант `{variant}` должен содержать именованные поля
    VariantNamedFields { variant: String },
    /// поле `{field}` с пометкой `keep` должно иметь тип Option<T>
    KeepNeedsOption { field: String },
    /// поле `{field}` должно содержать пометку `ask`, `keep`, `with` или `args`
    MissingFieldMarker { field: String },
    /// поле `{field}` содержит конфликтующие пометки
    ConflictingMarkers { field: String },
    /// неизвестная пометка варианта `{variant}`
    UnknownVariantMarker { variant: String },
    /// пометка `about` варианта `{variant}` указана несколько раз
    DuplicateAbout { variant: String },
    /// у варианта `{variant}` отсутствует пометка `about`
    MissingAbout { variant: String },
    /// параметр `message` поля `{field}` указан несколько раз
    DuplicateMessage { field: String },
    /// поле `{field}` не может сочетать пометки `ask` и `keep`
    AskAndKeep { field: String },
    /// поле `{field}` не может сочетать `with` с `ask` или `keep`
    WithAndQuestion { field: String },
    /// поле `{field}` не может сочетать `args` с `ask`, `keep` или `with`
    ArgsAndOthers { field: String },
    /// поле `{field}` может содержать `ctx` только вместе с `args`
    CtxWithoutArgs { field: String },
    /// поле `{field}` может содержать `message` только вместе с `with`
    MessageWithoutWith { field: String },
    /// перечисление `{item}` должно указать `fallback` в макросе group
    MissingFallback { item: String },
    /// неизвестная пометка варианта `{variant}`; допустима только `arg`
    GroupVariantMarker { variant: String },
    /// вариант `{variant}` в group должен содержать ровно одно безымянное поле
    GroupVariantOneField { variant: String },
    /// вариант `{variant}` в group должен быть без полей или содержать одно безымянное поле
    GroupVariantShape { variant: String },
    /// для root не указан параметр `{name}`
    MissingRootParameter { name: &'static str },
    /// структура `{item}` не должна объявлять поле `action`
    ActionFieldDeclared { item: String },
    /// поле `{field}` содержит лишнюю пометку `context`
    ExtraContext { field: String },
    /// поле `{field}` должно содержать пометку `context`, чтобы передать контекст в `fill`
    MissingContextField { field: String },
    /// неизвестный параметр `{name}`; допустимы `action` и `ask`
    UnknownRootParameter { name: String },
    /// неизвестная пометка поля `{field}`; допустимы: `context`, `with`, `arg`, `command`
    UnknownRootFieldMarker { field: String },
    /// поле `{field}` должно содержать пометку `with`
    MissingWith { field: String },
    /// пометка `{marker}` поля `{field}` указана несколько раз
    DuplicateFieldMarker { marker: &'static str, field: String },
    /// пометка `{marker}` поля `{field}` должна содержать ровно один тип
    InvalidMarker { marker: String, field: String },
}

/// The message of an error.
pub open spec fn message_text(e: HillError) -> Seq<char> {
    match e {
        HillError::Syntax(m) => m@,
        HillError::ExpectedEq => "expected `=`"@,
        HillError::ExpectedComma => "expected `,`"@,
        HillError::ExpectedParens => "expected parentheses"@,
        HillError::ExpectedNamedField => "ожидалось именованное поле"@,
        HillError::ExpectedParameterName => "ожидалось имя параметра"@,
        HillError::ExpectedTargetParameter => "ожидался параметр в форме `имя = Тип`"@,
        HillError::ExpectedContextParameter => "ожидался параметр в форме `context = Тип`"@,
        HillError::ExpectedFallbackParameter => "ожидался параметр в форме `fallback = путь`"@,
        HillError::ExpectedRootParameter => "ожидался параметр в форме `имя = значение`"@,
        HillError::MissingCommandsContext => "для commands не указан параметр `context`"@,
        HillError::UnknownGroupParameter => "неизвестный параметр group; допустим только `fallback`"@,
        HillError::FallbackNotPath => "значение `fallback` должно быть путём"@,
        HillError::ActionNotPath => "параметр `action` должен быть путём"@,
        HillError::AskNotString => "значение параметра `ask` должно быть строкой"@,
        HillError::MissingTarget { item } => "для структуры `"@ + item@ + "` не указан целевой тип"@,
        HillError::ParameterNotPath { name } => "значение параметра `"@ + name@ + "` должно быть путём"@,
        HillError::UnknownParameter { name } => "неизвестный параметр `"@ + name@ + "`"@,
        HillError::DuplicateParameter { name } => "параметр `"@ + name@ + "` указан несколько раз"@,
        HillError::NamedFieldsRequired { item } => "структура `"@ + item@ + "` должна содержать именованные поля"@,
        HillError::UnknownFieldMarker { field } => "неизвестная пометка поля `"@ + field@ + "`"@,
        HillError::SeveralQuestions { field } => "поле `"@ + field@ + "` содержит несколько пометок вопроса"@,
        HillError::QuestionWithContext { field } => "поле `"@ + field@ + "` не может одновременно содержать вопрос и `ctx`"@,
        HillError::QuestionNeedsOption { field } => "поле `"@ + field@ + "` с вопросом должно иметь тип Option<T>"@,
        HillError::ContextNeededForCtx { field } => "полю `"@ + field@ + "` с пометкой `ctx` нужен context у fill"@,
        HillError::CtxRequiresFlatten { field } => "поле `"@ + field@ + "` с пометкой `ctx` должно быть flatten"@,
        HillError::VariantNamedFields { variant } => "вариант `"@ + variant@ + "` должен содержать именованные поля"@,
        HillError::KeepNeedsOption { field } => "поле `"@ + field@ + "` с пометкой `keep` должно иметь тип Option<T>"@,
        HillError::MissingFieldMarker { field } => "поле `"@ + field@ + "` должно содержать пометку `ask`, `keep`, `with` или `args`"@,
        HillError::ConflictingMarkers { field } => "поле `"@ + field@ + "` содержит конфликтующие пометки"@,
        HillError::UnknownVariantMarker { variant } => "неизвестная пометка варианта `"@ + variant@ + "`"@,
        HillError::DuplicateAbout { variant } => "пометка `about` варианта `"@ + variant@ + "` указана несколько раз"@,
        HillError::MissingAbout { variant } => "у варианта `"@ + variant@ + "` отсутствует пометка `about`"@,
        HillError::DuplicateMessage { field } => "параметр `message` поля `"@ + field@ + "` указан несколько раз"@,
        HillError::AskAndKeep { field } => "поле `"@ + field@ + "` не может сочетать пометки `ask` и `keep`"@,
        HillError::WithAndQuestion { field } => "поле `"@ + field@ + "` не может сочетать `with` с `ask` или `keep`"@,
        HillError::ArgsAndOthers { field } => "поле `"@ + field@ + "` не может сочетать `args` с `ask`, `keep` или `with`"@,
        HillError::CtxWithoutArgs { field } => "поле `"@ + field@ + "` может содержать `ctx` только вместе с `args`"@,
        HillError::MessageWithoutWith { field } => "поле `"@ + field@ + "` может содержать `message` только вместе с `with`"@,
        HillError::MissingFallback { item } => "перечисление `"@ + item@ + "` должно указать `fallback` в макросе group"@,
        HillError::GroupVariantMarker { variant } => "неизвестная пометка варианта `"@ + variant@ + "`; допустима только `arg`"@,
        HillError::GroupVariantOneField { variant } => "вариант `"@ + variant@ + "` в group должен содержать ровно одно безымянное поле"@,
        HillError::GroupVariantShape { variant } => "вариант `"@ + variant@ + "` в group должен быть без полей или содержать одно безымянное поле"@,
        HillError::MissingRootParameter { name } => "для root не указан параметр `"@ + name@ + "`"@,
        HillError::ActionFieldDeclared { item } => "структура `"@ + item@ + "` не должна объявлять поле `action`"@,
        HillError::ExtraContext { field } => "поле `"@ + field@ + "` содержит лишнюю пометку `context`"@,
        HillError::MissingContextField { field } => "поле `"@ + field@ + "` должно содержать пометку `context`, чтобы передать контекст в `fill`"@,
        HillError::UnknownRootParameter { name } => "неизвестный параметр `"@ + name@ + "`; допустимы `action` и `ask`"@,
        HillError::UnknownRootFieldMarker { field } => "неизвестная пометка поля `"@ + field@ + "`; допустимы: `context`, `with`, `arg`, `command`"@,
        HillError::MissingWith { field } => "поле `"@ + field@ + "` должно содержать пометку `with`"@,
        HillError::DuplicateFieldMarker { marker, field } => "пометка `"@ + marker@ + "` поля `"@ + field@ + "` указана несколько раз"@,
        HillError::InvalidMarker { marker, field } => "пометка `"@ + marker@ + "` поля `"@ + field@ + "` должна содержать ровно один тип"@,
    }
}

impl HillError {
    /// The message of the error, as shown to the user of the macro.
    pub fn message(&self) -> (r: String)
        ensures
            r@ == message_text(*self),
    {
        match self {
            HillError::Syntax(m) => m.clone(),
            HillError::ExpectedEq => owned("expected `=`"),
            HillError::ExpectedComma => owned("expected `,`"),
            HillError::ExpectedParens => owned("expected parentheses"),
            HillError::ExpectedNamedField => owned("ожидалось именованное поле"),
            HillError::ExpectedParameterName => owned("ожидалось имя параметра"),
            HillError::ExpectedTargetParameter => owned("ожидался параметр в форме `имя = Тип`"),
            HillError::ExpectedContextParameter => owned("ожидался параметр в форме `context = Тип`"),
            HillError::ExpectedFallbackParameter => owned("ожидался параметр в форме `fallback = путь`"),
            HillError::ExpectedRootParameter => owned("ожидался параметр в форме `имя = значение`"),
            HillError::MissingCommandsContext => owned("для commands не указан параметр `context`"),
            HillError::UnknownGroupParameter => owned("неизвестный параметр group; допустим только `fallback`"),
            HillError::FallbackNotPath => owned("значение `fallback` должно быть путём"),
            HillError::ActionNotPath => owned("параметр `action` должен быть путём"),
            HillError::AskNotString => owned("значение параметра `ask` должно быть строкой"),
            HillError::MissingTarget { item } => concat3("для структуры `", item.as_str(), "` не указан целевой тип"),
            HillError::ParameterNotPath { name } => concat3("значение параметра `", name.as_str(), "` должно быть путём"),
            HillError::UnknownParameter { name } => concat3("неизвестный параметр `", name.as_str(), "`"),
            HillError::DuplicateParameter { name } => concat3("параметр `", name.as_str(), "` указан несколько раз"),
            HillError::NamedFieldsRequired { item } => concat3("структура `", item.as_str(), "` должна содержать именованные поля"),
            HillError::UnknownFieldMarker { field } => concat3("неизвестная пометка поля `", field.as_str(), "`"),
            HillError::SeveralQuestions { field } => concat3("поле `", field.as_str(), "` содержит несколько пометок вопроса"),
            HillError::QuestionWithContext { field } => concat3("поле `", field.as_str(), "` не может одновременно содержать вопрос и `ctx`"),
            HillError::QuestionNeedsOption { field } => concat3("поле `", field.as_str(), "` с вопросом должно иметь тип Option<T>"),
            HillError::ContextNeededForCtx { field } => concat3("полю `", field.as_str(), "` с пометкой `ctx` нужен context у fill"),
            HillError::CtxRequiresFlatten { field } => concat3("поле `", field.as_str(), "` с пометкой `ctx` должно быть flatten"),
            HillError::VariantNamedFields { variant } => concat3("вариант `", variant.as_str(), "` должен содержать именованные поля"),
            HillError::KeepNeedsOption { field } => concat3("поле `", field.as_str(), "` с пометкой `keep` должно иметь тип Option<T>"),
            HillError::MissingFieldMarker { field } => concat3("поле `", field.as_str(), "` должно содержать пометку `ask`, `keep`, `with` или `args`"),
            HillError::ConflictingMarkers { field } => concat3("поле `", field.as_str(), "` содержит конфликтующие пометки"),
            HillError::UnknownVariantMarker { variant } => concat3("неизвестная пометка варианта `", variant.as_str(), "`"),
            HillError::DuplicateAbout { variant } => concat3("пометка `about` варианта `", variant.as_str(), "` указана несколько раз"),
            HillError::MissingAbout { variant } => concat3("у варианта `", variant.as_str(), "` отсутствует пометка `about`"),
            HillError::DuplicateMessage { field } => concat3("параметр `message` поля `", field.as_str(), "` указан несколько раз"),
            HillError::AskAndKeep { field } => concat3("поле `", field.as_str(), "` не может сочетать пометки `ask` и `keep`"),
            HillError::WithAndQuestion { field } => concat3("поле `", field.as_str(), "` не может сочетать `with` с `ask` или `keep`"),
            HillError::ArgsAndOthers { field } => concat3("поле `", field.as_str(), "` не может сочетать `args` с `ask`, `keep` или `with`"),
            HillError::CtxWithoutArgs { field } => concat3("поле `", field.as_str(), "` может содержать `ctx` только вместе с `args`"),
            HillError::MessageWithoutWith { field } => concat3("поле `", field.as_str(), "` может содержать `message` только вместе с `with`"),
            HillError::MissingFallback { item } => concat3("перечисление `", item.as_str(), "` должно указать `fallback` в макросе group"),
            HillError::GroupVariantMarker { variant } => concat3("неизвестная пометка варианта `", variant.as_str(), "`; допустима только `arg`"),
            HillError::GroupVariantOneField { variant } => concat3("вариант `", variant.as_str(), "` в group должен содержать ровно одно безымянное поле"),
            HillError::GroupVariantShape { variant } => concat3("вариант `", variant.as_str(), "` в group должен быть без полей или содержать одно безымянное поле"),
            HillError::MissingRootParameter { name } => concat3("для root не указан параметр `", *name, "`"),
            HillError::ActionFieldDeclared { item } => concat3("структура `", item.as_str(), "` не должна объявлять поле `action`"),
            HillError::ExtraContext { field } => concat3("поле `", field.as_str(), "` содержит лишнюю пометку `context`"),
            HillError::MissingContextField { field } => concat3("поле `", field.as_str(), "` должно содержать пометку `context`, чтобы передать контекст в `fill`"),
            HillError::UnknownRootParameter { name } => concat3("неизвестный параметр `", name.as_str(), "`; допустимы `action` и `ask`"),
            HillError::UnknownRootFieldMarker { field } => concat3("неизвестная пометка поля `", field.as_str(), "`; допустимы: `context`, `with`, `arg`, `command`"),
            HillError::MissingWith { field } => concat3("поле `", field.as_str(), "` должно содержать пометку `with`"),
            HillError::DuplicateFieldMarker { marker, field } => {
                let head = concat3("пометка `", *marker, "` поля `");
                concat3(head.as_str(), field.as_str(), "` указана несколько раз")
            },
            HillError::InvalidMarker { marker, field } => {
                let head = concat3("пометка `", marker.as_str(), "` поля `");
                concat3(head.as_str(), field.as_str(), "` должна содержать ровно один тип")
            },
        }
    }

    /// A copy of the error.
    pub fn duplicate(&self) -> (r: HillError)
        ensures
            r == *self,
    {
        match self {
            HillError::Syntax(m) => HillError::Syntax(m.clone()),
            HillError::ExpectedEq => HillError::ExpectedEq,
            HillError::ExpectedComma => HillError::ExpectedComma,
            HillError::ExpectedParens => HillError::ExpectedParens,
            HillError::ExpectedNamedField => HillError::ExpectedNamedField,
            HillError::ExpectedParameterName => HillError::ExpectedParameterName,
            HillError::ExpectedTargetParameter => HillError::ExpectedTargetParameter,
            HillError::ExpectedContextParameter => HillError::ExpectedContextParameter,
            HillError::ExpectedFallbackParameter => HillError::ExpectedFallbackParameter,
            HillError::ExpectedRootParameter => HillError::ExpectedRootParameter,
            HillError::MissingCommandsContext => HillError::MissingCommandsContext,
            HillError::UnknownGroupParameter => HillError::UnknownGroupParameter,
            HillError::FallbackNotPath => HillError::FallbackNotPath,
            HillError::ActionNotPath => HillError::ActionNotPath,
            HillError::AskNotString => HillError::AskNotString,
            HillError::MissingTarget { item } => HillError::MissingTarget { item: item.clone() },
            HillError::ParameterNotPath { name } => HillError::ParameterNotPath { name: name.clone() },
            HillError::UnknownParameter { name } => HillError::UnknownParameter { name: name.clone() },
            HillError::DuplicateParameter { name } => HillError::DuplicateParameter { name: name.clone() },
            HillError::NamedFieldsRequired { item } => HillError::NamedFieldsRequired { item: item.clone() },
            HillError::UnknownFieldMarker { field } => HillError::UnknownFieldMarker { field: field.clone() },
            HillError::SeveralQuestions { field } => HillError::SeveralQuestions { field: field.clone() },
            HillError::QuestionWithContext { field } => HillError::QuestionWithContext { field: field.clone() },
            HillError::QuestionNeedsOption { field } => HillError::QuestionNeedsOption { field: field.clone() },
            HillError::ContextNeededForCtx { field } => HillError::ContextNeededForCtx { field: field.clone() },
            HillError::CtxRequiresFlatten { field } => HillError::CtxRequiresFlatten { field: field.clone() },
            HillError::VariantNamedFields { variant } => HillError::VariantNamedFields { variant: variant.clone() },
            HillError::KeepNeedsOption { field } => HillError::KeepNeedsOption { field: field.clone() },
            HillError::MissingFieldMarker { field } => HillError::MissingFieldMarker { field: field.clone() },
            HillError::ConflictingMarkers { field } => HillError::ConflictingMarkers { field: field.clone() },
            HillError::UnknownVariantMarker { variant } => HillError::UnknownVariantMarker { variant: variant.clone() },
            HillError::DuplicateAbout { variant } => HillError::DuplicateAbout { variant: variant.clone() },
            HillError::MissingAbout { variant } => HillError::MissingAbout { variant: variant.clone() },
            HillError::DuplicateMessage { field } => HillError::DuplicateMessage { field: field.clone() },
            HillError::AskAndKeep { field } => HillError::AskAndKeep { field: field.clone() },
            HillError::WithAndQuestion { field } => HillError::WithAndQuestion { field: field.clone() },
            HillError::ArgsAndOthers { field } => HillError::ArgsAndOthers { field: field.clone() },
            HillError::CtxWithoutArgs { field } => HillError::CtxWithoutArgs { field: field.clone() },
            HillError::MessageWithoutWith { field } => HillError::MessageWithoutWith { field: field.clone() },
            HillError::MissingFallback { item } => HillError::MissingFallback { item: item.clone() },
            HillError::GroupVariantMarker { variant } => HillError::GroupVariantMarker { variant: variant.clone() },
            HillError::GroupVariantOneField { variant } => HillError::GroupVariantOneField { variant: variant.clone() },
            HillError::GroupVariantShape { variant } => HillError::GroupVariantShape { variant: variant.clone() },
            HillError::MissingRootParameter { name } => HillError::MissingRootParameter { name: *name },
            HillError::ActionFieldDeclared { item } => HillError::ActionFieldDeclared { item: item.clone() },
            HillError::ExtraContext { field } => HillError::ExtraContext { field: field.clone() },
            HillError::MissingContextField { field } => HillError::MissingContextField { field: field.clone() },
            HillError::UnknownRootParameter { name } => HillError::UnknownRootParameter { name: name.clone() },
            HillError::UnknownRootFieldMarker { field } => HillError::UnknownRootFieldMarker { field: field.clone() },
            HillError::MissingWith { field } => HillError::MissingWith { field: field.clone() },
            HillError::DuplicateFieldMarker { marker, field } => HillError::DuplicateFieldMarker { marker: *marker, field: field.clone() },
            HillError::InvalidMarker { marker, field } => HillError::InvalidMarker { marker: marker.clone(), field: field.clone() },
        }
    }
}

} // verus!
