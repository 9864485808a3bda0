//! The options of a session that an editor offers to its user: the model, the
//! reasoning effort and how much the session may do without asking.

use crate::acp::{
    acp_reject, acp_reject_about, acp_rejection, acp_rejection_about, AcpErrorCode, AcpRejection,
};
use crate::session_metadata::PermissionPreset;
use crate::text::{char_replaced, is_blank, opt_view, replace_char, text_equal, trimmed};
use vstd::prelude::*;

verus! {

/// One choice of an option.
#[derive(Debug)]
pub struct SelectOption {
    pub value: String,
    pub name: String,
    pub description: Option<String>,
}

/// What a choice says.
pub struct OptionModel {
    pub value: Seq<char>,
    pub name: Seq<char>,
    pub description: Option<Seq<char>>,
}

impl View for SelectOption {
    type V = OptionModel;

    open spec fn view(&self) -> OptionModel {
        OptionModel {
            value: self.value@,
            name: self.name@,
            description: opt_view(self.description),
        }
    }
}

/// What a list of choices says.
pub open spec fn options_view(options: Seq<SelectOption>) -> Seq<OptionModel> {
    options.map_values(|option: SelectOption| option@)
}

/// Whether a value is among the choices.
pub open spec fn lists(options: Seq<OptionModel>, value: Seq<char>) -> bool {
    exists|i: int| 0 <= i < options.len() && (#[trigger] options[i]).value == value
}

/// Choices under a common heading.
#[derive(Debug)]
pub struct OptionGroup {
    pub options: Vec<SelectOption>,
}

/// The choices of an option.
#[derive(Debug)]
pub enum SelectOptions {
    Ungrouped(Vec<SelectOption>),
    Grouped(Vec<OptionGroup>),
}

fn option_listed(options: &Vec<SelectOption>, value: &str) -> (r: bool)
    ensures
        r == lists(options_view(options@), value@),
{
    let ghost model = options_view(options@);
    let mut i: usize = 0;
    while i < options.len()
        invariant
            i <= options@.len(),
            model == options_view(options@),
            forall|j: int| 0 <= j < i ==> (#[trigger] model[j]).value != value@,
        decreases options@.len() - i,
    {
        assert(model[i as int].value == options@[i as int].value@);
        if text_equal(options[i].value.as_str(), value) {
            return true;
        }
        i = i + 1;
    }
    false
}

/// Whether a value is among the choices of a group.
pub open spec fn groups_list(groups: Seq<OptionGroup>, value: Seq<char>) -> bool {
    exists|i: int|
        0 <= i < groups.len() && lists(options_view((#[trigger] groups[i]).options@), value)
}

fn option_in_groups(groups: &Vec<OptionGroup>, value: &str) -> (r: bool)
    ensures
        r == groups_list(groups@, value@),
{
    let mut i: usize = 0;
    while i < groups.len()
        invariant
            i <= groups@.len(),
            forall|j: int|
                0 <= j < i ==> !lists(options_view((#[trigger] groups@[j]).options@), value@),
        decreases groups@.len() - i,
    {
        if option_listed(&groups[i].options, value) {
            return true;
        }
        i = i + 1;
    }
    false
}

/// Whether a value can be chosen.
pub open spec fn offers(options: SelectOptions, value: Seq<char>) -> bool {
    match options {
        SelectOptions::Ungrouped(options) => lists(options_view(options@), value),
        SelectOptions::Grouped(groups) => groups_list(groups@, value),
    }
}

/// Whether a value can be chosen.
pub fn select_options_contain_value(options: &SelectOptions, value: &str) -> (r: bool)
    ensures
        r == offers(*options, value@),
{
    match options {
        SelectOptions::Ungrouped(options) => option_listed(options, value),
        SelectOptions::Grouped(groups) => option_in_groups(groups, value),
    }
}

/// A text that says something, if it does.
pub fn non_empty_str(value: &str) -> (r: Option<&str>)
    ensures
        r == if trimmed(value@).len() > 0 {
            Some(value)
        } else {
            None
        },
{
    if is_blank(value) {
        None
    } else {
        Some(value)
    }
}

/// A variant of a model.
#[derive(Debug)]
pub struct VariantEntry {
    pub id: String,
    pub label: Option<String>,
    pub disabled: bool,
}

/// A model that a provider is configured with.
#[derive(Debug)]
pub struct ModelEntry {
    pub id: String,
    pub name: Option<String>,
    /// How the model catalog calls the model, where it has it.
    pub catalog_name: Option<String>,
    pub enabled: Option<bool>,
    pub wire_api: Option<String>,
    pub variants: Vec<VariantEntry>,
}

/// A configured provider.
#[derive(Debug)]
pub struct ProviderEntry {
    pub id: String,
    pub name: Option<String>,
    pub enabled: Option<bool>,
    pub wire_api: Option<String>,
    pub models: Vec<ModelEntry>,
}

/// The text where it is there and says something, else the other one.
pub open spec fn said_or(text: Option<String>, otherwise: Seq<char>) -> Seq<char> {
    match text {
        Some(text) if trimmed(text@).len() > 0 => text@,
        _ => otherwise,
    }
}

fn pick_said<'a>(text: &'a Option<String>, otherwise: &'a str) -> (r: &'a str)
    ensures
        r@ == said_or(*text, otherwise@),
{
    match text {
        Some(text) => match non_empty_str(text.as_str()) {
            Some(said) => said,
            None => otherwise,
        },
        None => otherwise,
    }
}

/// The text where it is there, else the other one.
pub open spec fn given_or(text: Option<String>, otherwise: Seq<char>) -> Seq<char> {
    match text {
        Some(text) => text@,
        None => otherwise,
    }
}

fn pick_given<'a>(text: &'a Option<String>, otherwise: &'a str) -> (r: &'a str)
    ensures
        r@ == given_or(*text, otherwise@),
{
    match text {
        Some(text) => text.as_str(),
        None => otherwise,
    }
}

fn join3(a: &str, b: &str, c: &str) -> (r: String)
    ensures
        r@ == a@ + b@ + c@,
{
    let mut text = a.to_owned();
    text.append(b);
    text.append(c);
    text
}

/// How a model is called.
pub open spec fn model_name(model: ModelEntry) -> Seq<char> {
    said_or(model.name, said_or(model.catalog_name, model.id@))
}

/// The value that chooses a model.
pub open spec fn model_value(provider: ProviderEntry, model: ModelEntry) -> Seq<char> {
    provider.id@ + "/"@ + model.id@
}

/// The choice for a model.
pub open spec fn model_choice(
    provider: ProviderEntry,
    model: ModelEntry,
    wire_api: Seq<char>,
) -> OptionModel {
    OptionModel {
        value: model_value(provider, model),
        name: model_name(model),
        description: Some(
            said_or(provider.name, provider.id@) + ": "@ + model.id@ + " via "@ + given_or(
                model.wire_api,
                given_or(provider.wire_api, wire_api),
            ),
        ),
    }
}

/// The value that chooses a variant of a model.
pub open spec fn variant_value(
    provider: ProviderEntry,
    model: ModelEntry,
    variant: VariantEntry,
) -> Seq<char> {
    model_value(provider, model) + "/"@ + variant.id@
}

/// The choice for a variant of a model.
pub open spec fn variant_choice(
    provider: ProviderEntry,
    model: ModelEntry,
    variant: VariantEntry,
) -> OptionModel {
    let label = said_or(
        variant.label,
        char_replaced(char_replaced(variant.id@, '-', ' '), '_', ' '),
    );
    OptionModel {
        value: variant_value(provider, model, variant),
        name: model_name(model) + " ("@ + label + ")"@,
        description: Some(
            said_or(provider.name, provider.id@) + ": "@ + variant.id@ + " variant for "@
                + model.id@,
        ),
    }
}

/// The choices with a variant added, unless it is switched off or its value is
/// taken.
pub open spec fn with_variant(
    options: Seq<OptionModel>,
    provider: ProviderEntry,
    model: ModelEntry,
    variant: VariantEntry,
) -> Seq<OptionModel> {
    if variant.disabled || lists(options, variant_value(provider, model, variant)) {
        options
    } else {
        options.push(variant_choice(provider, model, variant))
    }
}

/// The choices with the variants of a model added.
pub open spec fn with_variants(
    options: Seq<OptionModel>,
    provider: ProviderEntry,
    model: ModelEntry,
    variants: Seq<VariantEntry>,
) -> Seq<OptionModel>
    decreases variants.len(),
{
    if variants.len() == 0 {
        options
    } else {
        with_variant(
            with_variants(options, provider, model, variants.drop_last()),
            provider,
            model,
            variants.last(),
        )
    }
}

/// The choices with a model and its variants added, unless the model is
/// switched off or its value is taken.
pub open spec fn with_model(
    options: Seq<OptionModel>,
    provider: ProviderEntry,
    model: ModelEntry,
    wire_api: Seq<char>,
) -> Seq<OptionModel> {
    if model.enabled == Some(false) || lists(options, model_value(provider, model)) {
        options
    } else {
        with_variants(
            options.push(model_choice(provider, model, wire_api)),
            provider,
            model,
            model.variants@,
        )
    }
}

/// The choices with models of a provider added.
pub open spec fn with_models(
    options: Seq<OptionModel>,
    provider: ProviderEntry,
    models: Seq<ModelEntry>,
    wire_api: Seq<char>,
) -> Seq<OptionModel>
    decreases models.len(),
{
    if models.len() == 0 {
        options
    } else {
        with_model(
            with_models(options, provider, models.drop_last(), wire_api),
            provider,
            models.last(),
            wire_api,
        )
    }
}

/// The choices with a provider's models added, unless it is switched off.
pub open spec fn with_provider(
    options: Seq<OptionModel>,
    provider: ProviderEntry,
    wire_api: Seq<char>,
) -> Seq<OptionModel> {
    if provider.enabled == Some(false) {
        options
    } else {
        with_models(options, provider, provider.models@, wire_api)
    }
}

/// The choices of all providers.
pub open spec fn provider_choices(providers: Seq<ProviderEntry>, wire_api: Seq<char>) -> Seq<
    OptionModel,
>
    decreases providers.len(),
{
    if providers.len() == 0 {
        Seq::empty()
    } else {
        with_provider(
            provider_choices(providers.drop_last(), wire_api),
            providers.last(),
            wire_api,
        )
    }
}

/// A choice that is known by its value alone.
pub open spec fn bare_choice(value: Seq<char>) -> OptionModel {
    OptionModel { value, name: value, description: None }
}

/// The choices with the current value in front, unless it is among them.
pub open spec fn with_current(options: Seq<OptionModel>, current: Seq<char>) -> Seq<OptionModel> {
    if lists(options, current) {
        options
    } else {
        seq![bare_choice(current)] + options
    }
}

proof fn lemma_push_view(options: Seq<SelectOption>, option: SelectOption)
    ensures
        options_view(options.push(option)) == options_view(options).push(option@),
{
    assert(options_view(options.push(option)) =~= options_view(options).push(option@));
}

fn add_variants(options: &mut Vec<SelectOption>, provider: &ProviderEntry, model: &ModelEntry)
    ensures
        options_view(final(options)@) == with_variants(
            options_view(old(options)@),
            *provider,
            *model,
            model.variants@,
        ),
{
    let ghost before = options_view(options@);
    let provider_name = pick_said(&provider.name, provider.id.as_str());
    let name = pick_said(&model.name, pick_said(&model.catalog_name, model.id.as_str()));
    let value_of_model = join3(provider.id.as_str(), "/", model.id.as_str());
    let mut i: usize = 0;
    assert(model.variants@.take(0) =~= Seq::empty());
    while i < model.variants.len()
        invariant
            i <= model.variants@.len(),
            provider_name@ == said_or(provider.name, provider.id@),
            name@ == model_name(*model),
            value_of_model@ == model_value(*provider, *model),
            options_view(options@) == with_variants(
                before,
                *provider,
                *model,
                model.variants@.take(i as int),
            ),
        decreases model.variants@.len() - i,
    {
        let ghost so_far = options@;
        let variant = &model.variants[i];
        assert(model.variants@.take(i + 1).drop_last() =~= model.variants@.take(i as int));
        assert(model.variants@.take(i + 1).last() == *variant);
        let value = join3(value_of_model.as_str(), "/", variant.id.as_str());
        assert(value@ =~= variant_value(*provider, *model, *variant));
        if !variant.disabled && !option_listed(options, value.as_str()) {
            let spaced = replace_char(
                replace_char(variant.id.as_str(), '-', ' ').as_str(),
                '_',
                ' ',
            );
            let label = pick_said(&variant.label, spaced.as_str());
            let mut shown = join3(name, " (", label);
            shown.append(")");
            let mut description = join3(provider_name, ": ", variant.id.as_str());
            description.append(" variant for ");
            description.append(model.id.as_str());
            let option = SelectOption { value, name: shown, description: Some(description) };
            proof {
                assert(option@ == variant_choice(*provider, *model, *variant));
                lemma_push_view(so_far, option);
            }
            options.push(option);
        }
        i = i + 1;
    }
    assert(model.variants@.take(model.variants@.len() as int) =~= model.variants@);
}

fn is_off(enabled: Option<bool>) -> (r: bool)
    ensures
        r == (enabled == Some(false)),
{
    match enabled {
        Some(enabled) => !enabled,
        None => false,
    }
}

fn add_models(options: &mut Vec<SelectOption>, provider: &ProviderEntry, wire_api: &str)
    ensures
        options_view(final(options)@) == with_models(
            options_view(old(options)@),
            *provider,
            provider.models@,
            wire_api@,
        ),
{
    let ghost before = options_view(options@);
    let provider_name = pick_said(&provider.name, provider.id.as_str());
    let provider_api = pick_given(&provider.wire_api, wire_api);
    let mut i: usize = 0;
    assert(provider.models@.take(0) =~= Seq::empty());
    while i < provider.models.len()
        invariant
            i <= provider.models@.len(),
            provider_name@ == said_or(provider.name, provider.id@),
            provider_api@ == given_or(provider.wire_api, wire_api@),
            options_view(options@) == with_models(
                before,
                *provider,
                provider.models@.take(i as int),
                wire_api@,
            ),
        decreases provider.models@.len() - i,
    {
        let ghost so_far = options@;
        let model = &provider.models[i];
        assert(provider.models@.take(i + 1).drop_last() =~= provider.models@.take(i as int));
        assert(provider.models@.take(i + 1).last() == *model);
        let value = join3(provider.id.as_str(), "/", model.id.as_str());
        if !is_off(model.enabled) && !option_listed(options, value.as_str()) {
            let name = pick_said(&model.name, pick_said(&model.catalog_name, model.id.as_str()));
            let mut description = join3(provider_name, ": ", model.id.as_str());
            description.append(" via ");
            description.append(pick_given(&model.wire_api, provider_api));
            let option = SelectOption {
                value,
                name: name.to_owned(),
                description: Some(description),
            };
            proof {
                assert(option@ == model_choice(*provider, *model, wire_api@));
                lemma_push_view(so_far, option);
            }
            options.push(option);
            add_variants(options, provider, model);
        }
        i = i + 1;
    }
    assert(provider.models@.take(provider.models@.len() as int) =~= provider.models@);
}

fn add_current(options: &mut Vec<SelectOption>, current: &str)
    ensures
        options_view(final(options)@) == with_current(options_view(old(options)@), current@),
{
    let ghost before = options@;
    if !option_listed(options, current) {
        let option = SelectOption {
            value: current.to_owned(),
            name: current.to_owned(),
            description: None,
        };
        options.insert(0, option);
        assert(options_view(options@) =~= seq![bare_choice(current@)] + options_view(before));
    }
}

/// What an option is about.
#[derive(Clone, Copy, Debug, PartialEq, Eq, Structural)]
pub enum OptionCategory {
    Mode,
    Model,
    ThoughtLevel,
}

/// An option of a session.
#[derive(Debug)]
pub struct ConfigOption {
    pub id: &'static str,
    pub name: &'static str,
    pub description: &'static str,
    pub category: OptionCategory,
    pub current_value: String,
    pub options: SelectOptions,
}

/// Whether an option has this head, this current value and these choices.
pub open spec fn is_option(
    option: ConfigOption,
    id: &'static str,
    name: &'static str,
    description: &'static str,
    category: OptionCategory,
    current: Seq<char>,
    choices: Seq<OptionModel>,
) -> bool {
    &&& option.id == id
    &&& option.name == name
    &&& option.description == description
    &&& option.category == category
    &&& option.current_value@ == current
    &&& option.options matches SelectOptions::Ungrouped(options) && options_view(options@)
        == choices
}

/// Whether an option is the one for the model.
pub open spec fn is_model_option(
    option: ConfigOption,
    providers: Seq<ProviderEntry>,
    wire_api: Seq<char>,
    current: Seq<char>,
) -> bool {
    is_option(
        option,
        "model",
        "Model",
        "Controls the model used for this session",
        OptionCategory::Model,
        current,
        with_current(provider_choices(providers, wire_api), current),
    )
}

/// The option for the model: every model and variant of the providers that are
/// not switched off, each once. `wire_api` is what a provider speaks that does
/// not say it.
pub fn acp_model_config_option(
    providers: &Vec<ProviderEntry>,
    wire_api: &str,
    current: String,
) -> (r: ConfigOption)
    ensures
        is_model_option(r, providers@, wire_api@, current@),
{
    let mut options: Vec<SelectOption> = Vec::new();
    let mut i: usize = 0;
    assert(providers@.take(0) =~= Seq::empty());
    assert(options_view(options@) =~= Seq::empty());
    while i < providers.len()
        invariant
            i <= providers@.len(),
            options_view(options@) == provider_choices(providers@.take(i as int), wire_api@),
        decreases providers@.len() - i,
    {
        let provider = &providers[i];
        assert(providers@.take(i + 1).drop_last() =~= providers@.take(i as int));
        assert(providers@.take(i + 1).last() == *provider);
        if !is_off(provider.enabled) {
            add_models(&mut options, provider, wire_api);
        }
        i = i + 1;
    }
    assert(providers@.take(providers@.len() as int) =~= providers@);
    add_current(&mut options, current.as_str());
    ConfigOption {
        id: "model",
        name: "Model",
        description: "Controls the model used for this session",
        category: OptionCategory::Model,
        current_value: current,
        options: SelectOptions::Ungrouped(options),
    }
}

/// The text that names a chosen model: with its provider where it is reached
/// through one, and with its variant where it has one.
pub open spec fn model_selection(
    provider: Option<Seq<char>>,
    request_model: Seq<char>,
    slug: Seq<char>,
    variant: Option<Seq<char>>,
) -> Seq<char> {
    let base = match provider {
        Some(provider) => provider + "/"@ + request_model,
        None => slug,
    };
    match variant {
        Some(variant) => base + "/"@ + variant,
        None => base,
    }
}

/// The text that names a chosen model.
pub fn canonical_model_selection(
    provider: &Option<String>,
    request_model: &str,
    slug: &str,
    variant: &Option<String>,
) -> (r: String)
    ensures
        r@ == model_selection(opt_view(*provider), request_model@, slug@, opt_view(*variant)),
{
    let base = match provider {
        Some(provider) => join3(provider.as_str(), "/", request_model),
        None => slug.to_owned(),
    };
    match variant {
        Some(variant) => join3(base.as_str(), "/", variant.as_str()),
        None => base,
    }
}

/// A reasoning effort that a model offers.
#[derive(Debug)]
pub struct EffortOption {
    pub value: String,
    pub label: String,
    pub description: String,
}

/// What a model says of its reasoning effort: the efforts it offers, what it
/// makes of the effort that was chosen, and the effort it has by itself.
#[derive(Debug)]
pub struct EffortChoices {
    pub offered: Vec<EffortOption>,
    pub normalized: Option<String>,
    pub fallback: Option<String>,
}

/// Whether an effort is offered.
pub open spec fn offers_effort(offered: Seq<EffortOption>, value: Seq<char>) -> bool {
    exists|i: int| 0 <= i < offered.len() && (#[trigger] offered[i]).value@ == value
}

/// The effort that is in force: the chosen one, else the model's own, else the
/// first that is offered.
pub open spec fn effort_in_force(choices: EffortChoices) -> Option<String> {
    if choices.offered@.len() == 0 {
        None
    } else if choices.normalized is Some && offers_effort(
        choices.offered@,
        choices.normalized->0@,
    ) {
        choices.normalized
    } else if choices.fallback is Some && offers_effort(choices.offered@, choices.fallback->0@) {
        choices.fallback
    } else {
        Some(choices.offered@[0].value)
    }
}

/// The text of the effort that is in force.
pub open spec fn current_effort(choices: EffortChoices) -> Option<Seq<char>> {
    opt_view(effort_in_force(choices))
}

fn effort_offered(offered: &Vec<EffortOption>, value: &str) -> (r: bool)
    ensures
        r == offers_effort(offered@, value@),
{
    let mut i: usize = 0;
    while i < offered.len()
        invariant
            i <= offered@.len(),
            forall|j: int| 0 <= j < i ==> (#[trigger] offered@[j]).value@ != value@,
        decreases offered@.len() - i,
    {
        if text_equal(offered[i].value.as_str(), value) {
            return true;
        }
        i = i + 1;
    }
    false
}

/// The effort that is in force.
pub fn current_reasoning_effort_value(choices: &EffortChoices) -> (r: Option<String>)
    ensures
        r == effort_in_force(*choices),
{
    if choices.offered.len() == 0 {
        return None;
    }
    if let Some(value) = &choices.normalized {
        if effort_offered(&choices.offered, value.as_str()) {
            return Some(value.clone());
        }
    }
    if let Some(value) = &choices.fallback {
        if effort_offered(&choices.offered, value.as_str()) {
            return Some(value.clone());
        }
    }
    Some(choices.offered[0].value.clone())
}

/// The choice for an effort.
pub open spec fn effort_choice(effort: EffortOption) -> OptionModel {
    OptionModel {
        value: effort.value@,
        name: effort.label@,
        description: Some(effort.description@),
    }
}

/// The choices for the offered efforts, each value once.
pub open spec fn effort_list(offered: Seq<EffortOption>) -> Seq<OptionModel>
    decreases offered.len(),
{
    if offered.len() == 0 {
        Seq::empty()
    } else {
        let before = effort_list(offered.drop_last());
        if lists(before, offered.last().value@) {
            before
        } else {
            before.push(effort_choice(offered.last()))
        }
    }
}

/// Whether an option is the one for the reasoning effort.
pub open spec fn is_effort_option(option: ConfigOption, choices: EffortChoices) -> bool {
    &&& current_effort(choices) is Some
    &&& is_option(
        option,
        "thought_level",
        "Reasoning Effort",
        "Controls the model reasoning effort used for this session",
        OptionCategory::ThoughtLevel,
        current_effort(choices)->0,
        with_current(effort_list(choices.offered@), current_effort(choices)->0),
    )
}

/// The option for the reasoning effort. There is none where the model offers
/// none.
pub fn acp_reasoning_effort_config_option(choices: &EffortChoices) -> (r: Option<ConfigOption>)
    ensures
        match r {
            Some(option) => is_effort_option(option, *choices),
            None => choices.offered@.len() == 0,
        },
{
    let current = match current_reasoning_effort_value(choices) {
        Some(current) => current,
        None => {
            return None;
        },
    };
    let offered = &choices.offered;
    let mut options: Vec<SelectOption> = Vec::new();
    let mut i: usize = 0;
    assert(offered@.take(0) =~= Seq::empty());
    assert(options_view(options@) =~= Seq::empty());
    while i < offered.len()
        invariant
            i <= offered@.len(),
            options_view(options@) == effort_list(offered@.take(i as int)),
        decreases offered@.len() - i,
    {
        let ghost so_far = options@;
        let effort = &offered[i];
        assert(offered@.take(i + 1).drop_last() =~= offered@.take(i as int));
        assert(offered@.take(i + 1).last() == *effort);
        if !option_listed(&options, effort.value.as_str()) {
            let option = SelectOption {
                value: effort.value.clone(),
                name: effort.label.clone(),
                description: Some(effort.description.clone()),
            };
            proof {
                assert(option@ == effort_choice(*effort));
                lemma_push_view(so_far, option);
            }
            options.push(option);
        }
        i = i + 1;
    }
    assert(offered@.take(offered@.len() as int) =~= offered@);
    add_current(&mut options, current.as_str());
    Some(
        ConfigOption {
            id: "thought_level",
            name: "Reasoning Effort",
            description: "Controls the model reasoning effort used for this session",
            category: OptionCategory::ThoughtLevel,
            current_value: current,
            options: SelectOptions::Ungrouped(options),
        },
    )
}

/// The value that chooses a preset.
pub open spec fn preset_text(preset: PermissionPreset) -> Seq<char> {
    match preset {
        PermissionPreset::Default => "default"@,
        PermissionPreset::AutoReview => "auto-review"@,
        PermissionPreset::FullAccess => "full-access"@,
    }
}

/// The value that chooses a preset.
pub fn permission_preset_value(preset: PermissionPreset) -> (r: &'static str)
    ensures
        r@ == preset_text(preset),
{
    match preset {
        PermissionPreset::Default => "default",
        PermissionPreset::AutoReview => "auto-review",
        PermissionPreset::FullAccess => "full-access",
    }
}

/// The preset that a value chooses. An older name of the first preset is still
/// taken.
pub open spec fn preset_of(value: Seq<char>) -> Option<PermissionPreset> {
    if value == "default"@ || value == "read-only"@ {
        Some(PermissionPreset::Default)
    } else if value == "auto-review"@ {
        Some(PermissionPreset::AutoReview)
    } else if value == "full-access"@ {
        Some(PermissionPreset::FullAccess)
    } else {
        None
    }
}

/// The preset that a value chooses.
pub fn permission_preset_from_value(value: &str) -> (r: Option<PermissionPreset>)
    ensures
        r == preset_of(value@),
{
    if text_equal(value, "default") || text_equal(value, "read-only") {
        Some(PermissionPreset::Default)
    } else if text_equal(value, "auto-review") {
        Some(PermissionPreset::AutoReview)
    } else if text_equal(value, "full-access") {
        Some(PermissionPreset::FullAccess)
    } else {
        None
    }
}

/// The choices of presets.
pub open spec fn preset_choices() -> Seq<OptionModel> {
    seq![
        OptionModel {
            value: "default"@,
            name: "Ask for approval"@,
            description: Some(
                "Workspace sandbox; read/edit/run in workspace. You approve sensitive tools."@,
            ),
        },
        OptionModel {
            value: "auto-review"@,
            name: "Approve for me"@,
            description: Some(
                "Same sandbox as Ask for approval. An AI may approve low-risk tools; uncertain ones still ask you."@,
            ),
        },
        OptionModel {
            value: "full-access"@,
            name: "Full-Access"@,
            description: Some("No OS sandbox and no approval prompts; use with caution."@),
        },
    ]
}

fn preset_option(
    preset: PermissionPreset,
    name: &'static str,
    description: &'static str,
) -> (r: SelectOption)
    ensures
        r@ == (OptionModel {
            value: preset_text(preset),
            name: name@,
            description: Some(description@),
        }),
{
    SelectOption {
        value: permission_preset_value(preset).to_owned(),
        name: name.to_owned(),
        description: Some(description.to_owned()),
    }
}

/// Whether an option is the one for the permission preset.
pub open spec fn is_mode_option(option: ConfigOption, preset: PermissionPreset) -> bool {
    is_option(
        option,
        "mode",
        "Session Mode",
        "Controls how Devo requests permission",
        OptionCategory::Mode,
        preset_text(preset),
        preset_choices(),
    )
}

/// The option for the permission preset.
pub fn acp_mode_config_option(preset: PermissionPreset) -> (r: ConfigOption)
    ensures
        is_mode_option(r, preset),
{
    let mut options: Vec<SelectOption> = Vec::new();
    options.push(
        preset_option(
            PermissionPreset::Default,
            "Ask for approval",
            "Workspace sandbox; read/edit/run in workspace. You approve sensitive tools.",
        ),
    );
    options.push(
        preset_option(
            PermissionPreset::AutoReview,
            "Approve for me",
            "Same sandbox as Ask for approval. An AI may approve low-risk tools; uncertain ones still ask you.",
        ),
    );
    options.push(
        preset_option(
            PermissionPreset::FullAccess,
            "Full-Access",
            "No OS sandbox and no approval prompts; use with caution.",
        ),
    );
    assert(options_view(options@) =~= preset_choices());
    ConfigOption {
        id: "mode",
        name: "Session Mode",
        description: "Controls how Devo requests permission",
        category: OptionCategory::Mode,
        current_value: permission_preset_value(preset).to_owned(),
        options: SelectOptions::Ungrouped(options),
    }
}

/// Whether `options` are the options of a session: the model, the effort where
/// the model offers one, and the mode.
pub open spec fn are_options(
    providers: Seq<ProviderEntry>,
    wire_api: Seq<char>,
    current_model: Seq<char>,
    efforts: EffortChoices,
    preset: PermissionPreset,
    options: Seq<ConfigOption>,
) -> bool {
    &&& options.len() == if efforts.offered@.len() > 0 {
        3int
    } else {
        2
    }
    &&& is_model_option(options[0], providers, wire_api, current_model)
    &&& efforts.offered@.len() > 0 ==> is_effort_option(options[1], efforts)
    &&& is_mode_option(options.last(), preset)
}

/// All options of a session: the model, the effort where the model offers any,
/// and the preset.
pub fn acp_config_options_for_session(
    providers: &Vec<ProviderEntry>,
    wire_api: &str,
    current_model: String,
    efforts: &EffortChoices,
    preset: PermissionPreset,
) -> (r: Vec<ConfigOption>)
    ensures
        are_options(providers@, wire_api@, current_model@, *efforts, preset, r@),
{
    let mut options: Vec<ConfigOption> = Vec::new();
    options.push(acp_model_config_option(providers, wire_api, current_model));
    if let Some(option) = acp_reasoning_effort_config_option(efforts) {
        options.push(option);
    }
    options.push(acp_mode_config_option(preset));
    options
}

/// Whether no value occurs twice.
pub open spec fn values_distinct(options: Seq<OptionModel>) -> bool {
    forall|i: int, j: int|
        0 <= i < j < options.len() ==> (#[trigger] options[i]).value != (
        #[trigger] options[j]).value
}

proof fn lemma_variants_distinct(
    options: Seq<OptionModel>,
    provider: ProviderEntry,
    model: ModelEntry,
    variants: Seq<VariantEntry>,
)
    requires
        values_distinct(options),
    ensures
        values_distinct(with_variants(options, provider, model, variants)),
    decreases variants.len(),
{
    if variants.len() > 0 {
        lemma_variants_distinct(options, provider, model, variants.drop_last());
    }
}

proof fn lemma_models_distinct(
    options: Seq<OptionModel>,
    provider: ProviderEntry,
    models: Seq<ModelEntry>,
    wire_api: Seq<char>,
)
    requires
        values_distinct(options),
    ensures
        values_distinct(with_models(options, provider, models, wire_api)),
    decreases models.len(),
{
    if models.len() > 0 {
        lemma_models_distinct(options, provider, models.drop_last(), wire_api);
        let before = with_models(options, provider, models.drop_last(), wire_api);
        let model = models.last();
        if !(model.enabled == Some(false)) && !lists(before, model_value(provider, model)) {
            let added = before.push(model_choice(provider, model, wire_api));
            assert(values_distinct(added));
            lemma_variants_distinct(added, provider, model, model.variants@);
        }
    }
}

proof fn lemma_choices_distinct(providers: Seq<ProviderEntry>, wire_api: Seq<char>)
    ensures
        values_distinct(provider_choices(providers, wire_api)),
    decreases providers.len(),
{
    if providers.len() > 0 {
        lemma_choices_distinct(providers.drop_last(), wire_api);
        lemma_models_distinct(
            provider_choices(providers.drop_last(), wire_api),
            providers.last(),
            providers.last().models@,
            wire_api,
        );
    }
}

/// The model in force can be chosen, and no two choices have one value.
pub proof fn law_models_are_offered_once(
    providers: Seq<ProviderEntry>,
    wire_api: Seq<char>,
    current: Seq<char>,
)
    ensures
        lists(with_current(provider_choices(providers, wire_api), current), current),
        values_distinct(with_current(provider_choices(providers, wire_api), current)),
{
    lemma_choices_distinct(providers, wire_api);
    let choices = provider_choices(providers, wire_api);
    let all = with_current(choices, current);
    if !lists(choices, current) {
        assert(all[0].value == current);
        assert forall|i: int, j: int| 0 <= i < j < all.len() implies (#[trigger] all[i]).value != (
        #[trigger] all[j]).value by {
            assert(all[j] == choices[j - 1]);
            if i > 0 {
                assert(all[i] == choices[i - 1]);
            }
        }
    }
}

proof fn lemma_effort_is_listed(offered: Seq<EffortOption>, value: Seq<char>)
    requires
        offers_effort(offered, value),
    ensures
        lists(effort_list(offered), value),
    decreases offered.len(),
{
    let i = choose|i: int| 0 <= i < offered.len() && (#[trigger] offered[i]).value@ == value;
    let before = effort_list(offered.drop_last());
    if i == offered.len() - 1 {
        if !lists(before, value) {
            let all = effort_list(offered);
            assert(all[all.len() - 1].value == value);
        }
    } else {
        assert(offered.drop_last()[i].value@ == value);
        lemma_effort_is_listed(offered.drop_last(), value);
        let k = choose|k: int| 0 <= k < before.len() && (#[trigger] before[k]).value == value;
        assert(effort_list(offered)[k] == before[k]);
    }
}

/// The effort in force is one that the model offers.
pub proof fn law_the_current_effort_is_offered(choices: EffortChoices)
    requires
        choices.offered@.len() > 0,
    ensures
        current_effort(choices) is Some,
        offers_effort(choices.offered@, current_effort(choices)->0),
        with_current(effort_list(choices.offered@), current_effort(choices)->0) == effort_list(
            choices.offered@,
        ),
{
    assert(choices.offered@[0].value@ == choices.offered@[0].value@);
    lemma_effort_is_listed(choices.offered@, current_effort(choices)->0);
}

/// Choosing the value of a preset gives that preset.
pub proof fn law_preset_values_round_trip(preset: PermissionPreset)
    ensures
        preset_of(preset_text(preset)) == Some(preset),
{
    reveal_strlit("default");
    reveal_strlit("read-only");
    reveal_strlit("auto-review");
    reveal_strlit("full-access");
    assert("default"@.len() == 7);
    assert("read-only"@.len() == 9);
    assert("auto-review"@.len() == 11 && "auto-review"@[0] == 'a');
    assert("full-access"@.len() == 11 && "full-access"@[0] == 'f');
}

/// Why an option cannot be set.
#[derive(Debug)]
pub enum ConfigRefusal {
    Plain(AcpRejection),
    UnknownOption(String),
    InvalidValue { value: String, id: String },
    InvalidSandbox { value: String, id: String, error: String },
}

impl ConfigRefusal {
    /// The code an editor sees.
    pub open spec fn code_view(self) -> AcpErrorCode {
        match self {
            ConfigRefusal::Plain(why) => why.code,
            _ => AcpErrorCode::InvalidParams,
        }
    }

    /// The message an editor sees.
    pub open spec fn message_view(self) -> Seq<char> {
        match self {
            ConfigRefusal::Plain(why) => why.message_view(),
            ConfigRefusal::UnknownOption(id) => "unknown session config option '"@ + id@ + "'"@,
            ConfigRefusal::InvalidValue { value, id } => "invalid value '"@ + value@
                + "' for session config option '"@ + id@ + "'"@,
            ConfigRefusal::InvalidSandbox { value, id, error } => "invalid value '"@ + value@
                + "' for session config option '"@ + id@ + "': "@ + error@,
        }
    }

    /// The code an editor sees.
    pub fn code(&self) -> (r: AcpErrorCode)
        ensures
            r == self.code_view(),
    {
        match self {
            ConfigRefusal::Plain(why) => why.code,
            _ => AcpErrorCode::InvalidParams,
        }
    }

    /// The message an editor sees.
    pub fn message(&self) -> (r: String)
        ensures
            r@ == self.message_view(),
    {
        match self {
            ConfigRefusal::Plain(why) => why.message(),
            ConfigRefusal::UnknownOption(id) => join3(
                "unknown session config option '",
                id.as_str(),
                "'",
            ),
            ConfigRefusal::InvalidValue { value, id } => {
                let mut message = join3(
                    "invalid value '",
                    value.as_str(),
                    "' for session config option '",
                );
                message.append(id.as_str());
                message.append("'");
                message
            },
            ConfigRefusal::InvalidSandbox { value, id, error } => {
                let mut message = join3(
                    "invalid value '",
                    value.as_str(),
                    "' for session config option '",
                );
                message.append(id.as_str());
                message.append("': ");
                message.append(error.as_str());
                message
            },
        }
    }
}

/// What setting an option waits for.
#[derive(Debug)]
pub enum SetOptionPhase {
    Session { id: String, value: String },
    Locked { id: String, value: String },
    Offered { id: String, value: String },
    /// What a newly chosen model makes of the effort.
    ModelResolved { value: String },
    /// How the model is called, with a newly chosen effort.
    EffortResolved { value: String },
    Updated,
    PresetApplied,
    SandboxApplied { id: String, value: String },
    /// The session after the change; says whether its settings were changed,
    /// and whether it is kept.
    Refreshed { settings: bool, kept: bool },
    MetaWritten { kept: bool, session: RefreshedSession },
    IndexWritten(RefreshedSession),
    Finished,
}

/// What can be chosen for a session, and what is chosen now.
#[derive(Debug)]
pub struct OfferFacts {
    pub providers: Vec<ProviderEntry>,
    pub wire_api: String,
    pub model: String,
    pub efforts: EffortChoices,
}

/// A session after one of its options was set.
#[derive(Debug)]
pub struct RefreshedSession {
    /// Whether the session has a rollout.
    pub durable: bool,
    pub facts: OfferFacts,
    pub preset: PermissionPreset,
}

/// A model as a request reaches it.
#[derive(Debug)]
pub struct ModelFacts {
    pub provider: Option<String>,
    pub request_model: String,
    pub slug: String,
    pub variant: Option<String>,
}

/// What the host observed while an option is set.
#[derive(Debug)]
pub enum SetOptionEvent {
    SessionFound(bool),
    Done,
    /// What can be chosen, unless the session is gone.
    Offered(Option<OfferFacts>),
    /// What the chosen model says of its effort.
    ModelResolved(EffortChoices),
    /// The model that the chosen effort is for.
    EffortResolved(ModelFacts),
    /// Whether the session is kept, unless it could not be changed.
    Updated(Option<bool>),
    PresetApplied(bool),
    SandboxApplied(Option<Result<(), String>>),
    /// The session after the change, unless it is gone.
    Refreshed(Option<RefreshedSession>),
    Written(Option<String>),
}

/// What the host has to do to set an option. `O` are the options that are
/// answered; they are `()` where only the order of the steps matters.
#[derive(Debug)]
pub enum SetOptionAction<O = Vec<ConfigOption>> {
    /// Find the session.
    FindSession,
    /// Lock the state of the session.
    LockState,
    /// Read what the session can choose from.
    ReadOptions,
    /// Find out what the chosen model says of its effort.
    ResolveModel(String),
    /// Find out which model the chosen effort is for.
    ResolveEffort(String),
    /// Set the model and the effort of the session.
    UpdateSettings { model: String, effort: Option<String> },
    /// Give the session the permission preset.
    ApplyPreset(PermissionPreset),
    /// Give the session the sandbox of this name.
    ApplySandbox(String),
    /// Read the session after the change.
    Refresh,
    /// Append the session to its rollout.
    AppendMeta,
    /// Note the session in the index. That this fails makes no difference.
    UpsertIndex,
    /// Answer with the options of the session.
    Answer(O),
    /// Refuse to set the option.
    Reject(ConfigRefusal),
    /// Nothing: the event does not belong to the phase.
    Ignore,
}

/// What the host has to do to set an option, without what it answers.
pub type SetOptionOrder = SetOptionAction<()>;

impl SetOptionAction {
    /// What is to be done, without what is answered.
    pub open spec fn order(self) -> SetOptionOrder {
        match self {
            SetOptionAction::FindSession => SetOptionAction::FindSession,
            SetOptionAction::LockState => SetOptionAction::LockState,
            SetOptionAction::ReadOptions => SetOptionAction::ReadOptions,
            SetOptionAction::ResolveModel(value) => SetOptionAction::ResolveModel(value),
            SetOptionAction::ResolveEffort(value) => SetOptionAction::ResolveEffort(value),
            SetOptionAction::UpdateSettings { model, effort } => SetOptionAction::UpdateSettings {
                model,
                effort,
            },
            SetOptionAction::ApplyPreset(preset) => SetOptionAction::ApplyPreset(preset),
            SetOptionAction::ApplySandbox(value) => SetOptionAction::ApplySandbox(value),
            SetOptionAction::Refresh => SetOptionAction::Refresh,
            SetOptionAction::AppendMeta => SetOptionAction::AppendMeta,
            SetOptionAction::UpsertIndex => SetOptionAction::UpsertIndex,
            SetOptionAction::Answer(_) => SetOptionAction::Answer(()),
            SetOptionAction::Reject(why) => SetOptionAction::Reject(why),
            SetOptionAction::Ignore => SetOptionAction::Ignore,
        }
    }
}

/// A step without what is answered.
pub open spec fn set_option_order(step: (SetOptionPhase, SetOptionAction)) -> (
    SetOptionPhase,
    SetOptionOrder,
) {
    (step.0, step.1.order())
}

/// Whether `options` are those of the session.
pub open spec fn are_options_of(session: RefreshedSession, options: Seq<ConfigOption>) -> bool {
    are_options(
        session.facts.providers@,
        session.facts.wire_api@,
        session.facts.model@,
        session.facts.efforts,
        session.preset,
        options,
    )
}

/// Whether an action answers with the options that the session has after the
/// change.
pub open spec fn answers_with(
    phase: SetOptionPhase,
    event: SetOptionEvent,
    action: SetOptionAction,
) -> bool {
    match (action, phase, event) {
        (
            SetOptionAction::Answer(options),
            SetOptionPhase::Refreshed { .. },
            SetOptionEvent::Refreshed(Some(session)),
        ) => are_options_of(session, options@),
        (
            SetOptionAction::Answer(options),
            SetOptionPhase::MetaWritten { session, .. },
            _,
        ) => are_options_of(session, options@),
        (
            SetOptionAction::Answer(options),
            SetOptionPhase::IndexWritten(session),
            _,
        ) => are_options_of(session, options@),
        (SetOptionAction::Answer(_), _, _) => false,
        _ => true,
    }
}

/// The step that refuses to set an option.
pub open spec fn set_refused(why: ConfigRefusal) -> (SetOptionPhase, SetOptionOrder) {
    (SetOptionPhase::Finished, SetOptionAction::Reject(why))
}

/// The step where the session does not answer.
pub open spec fn server_error(text: &'static str) -> (SetOptionPhase, SetOptionOrder) {
    set_refused(ConfigRefusal::Plain(acp_rejection(AcpErrorCode::ServerError, text)))
}

/// The first step of setting an option. Only texts can be set.
pub open spec fn set_option_start(id: String, value: Option<String>) -> (
    SetOptionPhase,
    SetOptionOrder,
) {
    match value {
        Some(value) => (SetOptionPhase::Session { id, value }, SetOptionAction::FindSession),
        None => set_refused(
            ConfigRefusal::Plain(
                acp_rejection(
                    AcpErrorCode::InvalidParams,
                    "boolean session config options are not supported",
                ),
            ),
        ),
    }
}

/// Whether a model can be chosen.
pub open spec fn offers_model(facts: OfferFacts, value: Seq<char>) -> bool {
    lists(
        with_current(provider_choices(facts.providers@, facts.wire_api@), facts.model@),
        value,
    )
}

/// The step once it is known what can be chosen.
pub open spec fn offered_step(id: String, value: String, facts: OfferFacts) -> (
    SetOptionPhase,
    SetOptionOrder,
) {
    if id@ == "model"@ {
        if offers_model(facts, value@) {
            (SetOptionPhase::ModelResolved { value }, SetOptionAction::ResolveModel(value))
        } else {
            set_refused(ConfigRefusal::InvalidValue { value, id })
        }
    } else if id@ == "thought_level"@ {
        if facts.efforts.offered@.len() == 0 {
            set_refused(ConfigRefusal::UnknownOption(id))
        } else if offers_effort(facts.efforts.offered@, value@) {
            (SetOptionPhase::EffortResolved { value }, SetOptionAction::ResolveEffort(value))
        } else {
            set_refused(ConfigRefusal::InvalidValue { value, id })
        }
    } else if id@ == "mode"@ {
        match preset_of(value@) {
            Some(preset) => (SetOptionPhase::PresetApplied, SetOptionAction::ApplyPreset(preset)),
            None => set_refused(ConfigRefusal::InvalidValue { value, id }),
        }
    } else if id@ == "sandbox_profile"@ {
        (SetOptionPhase::SandboxApplied { id, value }, SetOptionAction::ApplySandbox(value))
    } else {
        set_refused(ConfigRefusal::UnknownOption(id))
    }
}

/// The step once a change of the settings is on record.
pub open spec fn recorded_step(kept: bool, session: RefreshedSession) -> (
    SetOptionPhase,
    SetOptionOrder,
) {
    if kept {
        (SetOptionPhase::IndexWritten(session), SetOptionAction::UpsertIndex)
    } else {
        (SetOptionPhase::Finished, SetOptionAction::Answer(()))
    }
}

/// Whether `step` is the next one of setting an option. With a new effort the
/// model is named in full.
pub open spec fn is_set_option_step(
    phase: SetOptionPhase,
    event: SetOptionEvent,
    step: (SetOptionPhase, SetOptionAction),
) -> bool {
    match (phase, event) {
        (SetOptionPhase::EffortResolved { value }, SetOptionEvent::EffortResolved(found)) => {
            &&& step.0 == SetOptionPhase::Updated
            &&& step.1 matches SetOptionAction::UpdateSettings { model, effort } && {
                &&& model@ == model_selection(
                    opt_view(found.provider),
                    found.request_model@,
                    found.slug@,
                    opt_view(found.variant),
                )
                &&& effort == Some(value)
            }
        },
        _ => {
            &&& set_option_order(step) == set_option_step(phase, event)
            &&& answers_with(phase, event, step.1)
        },
    }
}

/// The next step of setting an option, but for the one that names the model.
pub open spec fn set_option_step(phase: SetOptionPhase, event: SetOptionEvent) -> (
    SetOptionPhase,
    SetOptionOrder,
) {
    match (phase, event) {
        (SetOptionPhase::Session { id, value }, SetOptionEvent::SessionFound(found)) => if found {
            (SetOptionPhase::Locked { id, value }, SetOptionAction::LockState)
        } else {
            server_error("session does not exist")
        },
        (SetOptionPhase::Locked { id, value }, SetOptionEvent::Done) => (
            SetOptionPhase::Offered { id, value },
            SetOptionAction::ReadOptions,
        ),
        (SetOptionPhase::Offered { id, value }, SetOptionEvent::Offered(offered)) => match offered {
            None => server_error("session actor unavailable"),
            Some(facts) => offered_step(id, value, facts),
        },
        (SetOptionPhase::ModelResolved { value }, SetOptionEvent::ModelResolved(efforts)) => (
            SetOptionPhase::Updated,
            SetOptionAction::UpdateSettings { model: value, effort: effort_in_force(efforts) },
        ),
        (SetOptionPhase::Updated, SetOptionEvent::Updated(updated)) => match updated {
            None => server_error("failed to update session"),
            Some(kept) => (
                SetOptionPhase::Refreshed { settings: true, kept },
                SetOptionAction::Refresh,
            ),
        },
        (SetOptionPhase::PresetApplied, SetOptionEvent::PresetApplied(applied)) => if applied {
            (
                SetOptionPhase::Refreshed { settings: false, kept: false },
                SetOptionAction::Refresh,
            )
        } else {
            server_error("failed to apply permission profile")
        },
        (
            SetOptionPhase::SandboxApplied { id, value },
            SetOptionEvent::SandboxApplied(applied),
        ) => match applied {
            Some(Ok(_)) => (
                SetOptionPhase::Refreshed { settings: false, kept: false },
                SetOptionAction::Refresh,
            ),
            Some(Err(error)) => set_refused(ConfigRefusal::InvalidSandbox { value, id, error }),
            None => server_error("failed to apply sandbox profile"),
        },
        (SetOptionPhase::Refreshed { settings, kept }, SetOptionEvent::Refreshed(refreshed)) => match refreshed {
            None => server_error("session actor unavailable"),
            Some(session) => if settings && session.durable {
                (SetOptionPhase::MetaWritten { kept, session }, SetOptionAction::AppendMeta)
            } else {
                recorded_step(settings && kept, session)
            },
        },
        (SetOptionPhase::MetaWritten { kept, session }, SetOptionEvent::Written(failure)) => match failure {
            Some(error) => set_refused(
                ConfigRefusal::Plain(acp_rejection_about(AcpErrorCode::ServerError, "", error)),
            ),
            None => recorded_step(kept, session),
        },
        (SetOptionPhase::IndexWritten(_), SetOptionEvent::Written(_)) => (
            SetOptionPhase::Finished,
            SetOptionAction::Answer(()),
        ),
        _ => (phase, SetOptionAction::Ignore),
    }
}

fn refuse(why: ConfigRefusal) -> (r: (SetOptionPhase, SetOptionAction))
    ensures
        set_option_order(r) == set_refused(why),
        r.1 is Reject,
{
    (SetOptionPhase::Finished, SetOptionAction::Reject(why))
}

fn fail(text: &'static str) -> (r: (SetOptionPhase, SetOptionAction))
    ensures
        set_option_order(r) == server_error(text),
        r.1 is Reject,
{
    refuse(ConfigRefusal::Plain(acp_reject(AcpErrorCode::ServerError, text)))
}

/// Begins to set an option.
pub fn begin_set_option(id: String, value: Option<String>) -> (r: (SetOptionPhase, SetOptionAction))
    ensures
        set_option_order(r) == set_option_start(id, value),
{
    match value {
        Some(value) => (SetOptionPhase::Session { id, value }, SetOptionAction::FindSession),
        None => refuse(
            ConfigRefusal::Plain(
                acp_reject(
                    AcpErrorCode::InvalidParams,
                    "boolean session config options are not supported",
                ),
            ),
        ),
    }
}

fn resolve_model(value: String) -> (r: (SetOptionPhase, SetOptionAction))
    ensures
        set_option_order(r) == (
            SetOptionPhase::ModelResolved { value },
            SetOptionOrder::ResolveModel(value),
        ),
        !(r.1 is Answer),
{
    let named = value.clone();
    (SetOptionPhase::ModelResolved { value }, SetOptionAction::ResolveModel(named))
}

fn resolve_effort(value: String) -> (r: (SetOptionPhase, SetOptionAction))
    ensures
        set_option_order(r) == (
            SetOptionPhase::EffortResolved { value },
            SetOptionOrder::ResolveEffort(value),
        ),
        !(r.1 is Answer),
{
    let named = value.clone();
    (SetOptionPhase::EffortResolved { value }, SetOptionAction::ResolveEffort(named))
}

fn apply_sandbox(id: String, value: String) -> (r: (SetOptionPhase, SetOptionAction))
    ensures
        set_option_order(r) == (
            SetOptionPhase::SandboxApplied { id, value },
            SetOptionOrder::ApplySandbox(value),
        ),
        !(r.1 is Answer),
{
    let named = value.clone();
    (SetOptionPhase::SandboxApplied { id, value }, SetOptionAction::ApplySandbox(named))
}

proof fn lemma_effort_list_lists(offered: Seq<EffortOption>, value: Seq<char>)
    ensures
        lists(effort_list(offered), value) == offers_effort(offered, value),
    decreases offered.len(),
{
    if offered.len() > 0 {
        let earlier = offered.drop_last();
        let before = effort_list(earlier);
        lemma_effort_list_lists(earlier, value);
        if offers_effort(earlier, value) {
            let i = choose|i: int| 0 <= i < earlier.len() && (#[trigger] earlier[i]).value@ == value;
            assert(offered[i].value@ == value);
        }
        if offers_effort(offered, value) && offered.last().value@ != value {
            let i = choose|i: int| 0 <= i < offered.len() && (#[trigger] offered[i]).value@ == value;
            assert(earlier[i].value@ == value);
        }
        if !lists(before, offered.last().value@) {
            let all = before.push(effort_choice(offered.last()));
            assert(all[before.len() as int] == effort_choice(offered.last()));
            if lists(before, value) {
                let i = choose|i: int| 0 <= i < before.len() && (#[trigger] before[i]).value == value;
                assert(all[i].value == value);
            }
            if lists(all, value) && offered.last().value@ != value {
                let i = choose|i: int| 0 <= i < all.len() && (#[trigger] all[i]).value == value;
                assert(before[i].value == value);
            }
            assert(offered[offered.len() - 1] == offered.last());
        } else {
            assert(offered[offered.len() - 1] == offered.last());
        }
    }
}

proof fn lemma_effort_offered(choices: EffortChoices, value: Seq<char>)
    requires
        choices.offered@.len() > 0,
    ensures
        lists(
            with_current(effort_list(choices.offered@), current_effort(choices)->0),
            value,
        ) == offers_effort(choices.offered@, value),
{
    let current = current_effort(choices)->0;
    lemma_effort_list_lists(choices.offered@, value);
    lemma_effort_list_lists(choices.offered@, current);
    assert(choices.offered@[0].value@ == choices.offered@[0].value@);
    assert(offers_effort(choices.offered@, choices.offered@[0].value@));
}

fn after_offered(id: String, value: String, facts: OfferFacts) -> (r: (
    SetOptionPhase,
    SetOptionAction,
))
    ensures
        set_option_order(r) == offered_step(id, value, facts),
        !(r.1 is Answer),
{
    if text_equal(id.as_str(), "model") {
        let model = acp_model_config_option(
            &facts.providers,
            facts.wire_api.as_str(),
            facts.model,
        );
        if select_options_contain_value(&model.options, value.as_str()) {
            resolve_model(value)
        } else {
            refuse(ConfigRefusal::InvalidValue { value, id })
        }
    } else if text_equal(id.as_str(), "thought_level") {
        match acp_reasoning_effort_config_option(&facts.efforts) {
            None => refuse(ConfigRefusal::UnknownOption(id)),
            Some(option) => {
                proof {
                    lemma_effort_offered(facts.efforts, value@);
                }
                if select_options_contain_value(&option.options, value.as_str()) {
                    resolve_effort(value)
                } else {
                    refuse(ConfigRefusal::InvalidValue { value, id })
                }
            },
        }
    } else if text_equal(id.as_str(), "mode") {
        match permission_preset_from_value(value.as_str()) {
            Some(preset) => (SetOptionPhase::PresetApplied, SetOptionAction::ApplyPreset(preset)),
            None => refuse(ConfigRefusal::InvalidValue { value, id }),
        }
    } else if text_equal(id.as_str(), "sandbox_profile") {
        apply_sandbox(id, value)
    } else {
        refuse(ConfigRefusal::UnknownOption(id))
    }
}

fn list_options(session: RefreshedSession) -> (r: Vec<ConfigOption>)
    ensures
        are_options_of(session, r@),
{
    acp_config_options_for_session(
        &session.facts.providers,
        session.facts.wire_api.as_str(),
        session.facts.model,
        &session.facts.efforts,
        session.preset,
    )
}

fn after_recorded(kept: bool, session: RefreshedSession) -> (r: (SetOptionPhase, SetOptionAction))
    ensures
        set_option_order(r) == recorded_step(kept, session),
        r.1 matches SetOptionAction::Answer(options) ==> are_options_of(session, options@),
{
    if kept {
        (SetOptionPhase::IndexWritten(session), SetOptionAction::UpsertIndex)
    } else {
        (SetOptionPhase::Finished, SetOptionAction::Answer(list_options(session)))
    }
}

/// Takes setting an option one step further.
pub fn advance_set_option(phase: SetOptionPhase, event: SetOptionEvent) -> (r: (
    SetOptionPhase,
    SetOptionAction,
))
    ensures
        is_set_option_step(phase, event, r),
{
    match (phase, event) {
        (SetOptionPhase::Session { id, value }, SetOptionEvent::SessionFound(found)) => {
            if found {
                (SetOptionPhase::Locked { id, value }, SetOptionAction::LockState)
            } else {
                fail("session does not exist")
            }
        },
        (SetOptionPhase::Locked { id, value }, SetOptionEvent::Done) => (
            SetOptionPhase::Offered { id, value },
            SetOptionAction::ReadOptions,
        ),
        (SetOptionPhase::Offered { id, value }, SetOptionEvent::Offered(offered)) => match offered {
            None => fail("session actor unavailable"),
            Some(facts) => after_offered(id, value, facts),
        },
        (SetOptionPhase::ModelResolved { value }, SetOptionEvent::ModelResolved(efforts)) => (
            SetOptionPhase::Updated,
            SetOptionAction::UpdateSettings {
                model: value,
                effort: current_reasoning_effort_value(&efforts),
            },
        ),
        (SetOptionPhase::EffortResolved { value }, SetOptionEvent::EffortResolved(found)) => (
            SetOptionPhase::Updated,
            SetOptionAction::UpdateSettings {
                model: canonical_model_selection(
                    &found.provider,
                    found.request_model.as_str(),
                    found.slug.as_str(),
                    &found.variant,
                ),
                effort: Some(value),
            },
        ),
        (SetOptionPhase::Updated, SetOptionEvent::Updated(updated)) => match updated {
            None => fail("failed to update session"),
            Some(kept) => (
                SetOptionPhase::Refreshed { settings: true, kept },
                SetOptionAction::Refresh,
            ),
        },
        (SetOptionPhase::PresetApplied, SetOptionEvent::PresetApplied(applied)) => {
            if applied {
                (
                    SetOptionPhase::Refreshed { settings: false, kept: false },
                    SetOptionAction::Refresh,
                )
            } else {
                fail("failed to apply permission profile")
            }
        },
        (
            SetOptionPhase::SandboxApplied { id, value },
            SetOptionEvent::SandboxApplied(applied),
        ) => match applied {
            Some(Ok(_)) => (
                SetOptionPhase::Refreshed { settings: false, kept: false },
                SetOptionAction::Refresh,
            ),
            Some(Err(error)) => refuse(ConfigRefusal::InvalidSandbox { value, id, error }),
            None => fail("failed to apply sandbox profile"),
        },
        (SetOptionPhase::Refreshed { settings, kept }, SetOptionEvent::Refreshed(refreshed)) => match refreshed {
            None => fail("session actor unavailable"),
            Some(session) => {
                if settings && session.durable {
                    (SetOptionPhase::MetaWritten { kept, session }, SetOptionAction::AppendMeta)
                } else {
                    after_recorded(settings && kept, session)
                }
            },
        },
        (SetOptionPhase::MetaWritten { kept, session }, SetOptionEvent::Written(failure)) => match failure {
            Some(error) => refuse(
                ConfigRefusal::Plain(acp_reject_about(AcpErrorCode::ServerError, "", error)),
            ),
            None => after_recorded(kept, session),
        },
        (SetOptionPhase::IndexWritten(session), SetOptionEvent::Written(_)) => (
            SetOptionPhase::Finished,
            SetOptionAction::Answer(list_options(session)),
        ),
        (phase, _) => (phase, SetOptionAction::Ignore),
    }
}

/// A model or an effort is set only where it is offered.
pub proof fn law_only_offered_values_are_set(id: String, value: String, facts: OfferFacts)
    ensures
        match offered_step(id, value, facts).1 {
            SetOptionAction::ResolveModel(named) => named == value && offers_model(facts, value@),
            SetOptionAction::ResolveEffort(named) => named == value && offers_effort(
                facts.efforts.offered@,
                value@,
            ),
            SetOptionAction::ApplyPreset(preset) => preset_of(value@) == Some(preset),
            _ => true,
        },
{
}

proof fn lemma_variants_add(
    options: Seq<OptionModel>,
    provider: ProviderEntry,
    model: ModelEntry,
    variants: Seq<VariantEntry>,
)
    ensures
        options.is_prefix_of(with_variants(options, provider, model, variants)),
        forall|i: int|
            0 <= i < variants.len() && !(#[trigger] variants[i]).disabled ==> lists(
                with_variants(options, provider, model, variants),
                variant_value(provider, model, variants[i]),
            ),
    decreases variants.len(),
{
    if variants.len() > 0 {
        let earlier = variants.drop_last();
        let before = with_variants(options, provider, model, earlier);
        let after = with_variants(options, provider, model, variants);
        lemma_variants_add(options, provider, model, earlier);
        assert(before.is_prefix_of(after));
        assert forall|i: int| 0 <= i < variants.len() && !(#[trigger] variants[i]).disabled implies lists(
            after,
            variant_value(provider, model, variants[i]),
        ) by {
            let value = variant_value(provider, model, variants[i]);
            if i < earlier.len() {
                assert(earlier[i] == variants[i]);
                lemma_still_listed(before, after, value);
            } else if lists(before, value) {
                lemma_still_listed(before, after, value);
            } else {
                assert(after == before.push(variant_choice(provider, model, variants[i])));
                assert(after[before.len() as int].value == value);
            }
        }
    }
}

proof fn lemma_still_listed(before: Seq<OptionModel>, after: Seq<OptionModel>, value: Seq<char>)
    requires
        before.is_prefix_of(after),
        lists(before, value),
    ensures
        lists(after, value),
{
    let i = choose|i: int| 0 <= i < before.len() && (#[trigger] before[i]).value == value;
    assert(after[i] == before[i]);
}

proof fn lemma_models_add(
    options: Seq<OptionModel>,
    provider: ProviderEntry,
    models: Seq<ModelEntry>,
    wire_api: Seq<char>,
)
    ensures
        options.is_prefix_of(with_models(options, provider, models, wire_api)),
        forall|i: int|
            0 <= i < models.len() && (#[trigger] models[i]).enabled != Some(false) ==> lists(
                with_models(options, provider, models, wire_api),
                model_value(provider, models[i]),
            ),
    decreases models.len(),
{
    if models.len() > 0 {
        let earlier = models.drop_last();
        let model = models.last();
        let before = with_models(options, provider, earlier, wire_api);
        let after = with_models(options, provider, models, wire_api);
        lemma_models_add(options, provider, earlier, wire_api);
        let added = before.push(model_choice(provider, model, wire_api));
        lemma_variants_add(added, provider, model, model.variants@);
        assert(before.is_prefix_of(added));
        assert(before.is_prefix_of(after));
        assert forall|i: int| 0 <= i < models.len() && (#[trigger] models[i]).enabled != Some(
            false,
        ) implies lists(after, model_value(provider, models[i])) by {
            let value = model_value(provider, models[i]);
            if i < earlier.len() {
                assert(earlier[i] == models[i]);
                lemma_still_listed(before, after, value);
            } else if lists(before, value) {
                lemma_still_listed(before, after, value);
            } else {
                assert(added[before.len() as int].value == value);
                lemma_still_listed(added, after, value);
            }
        }
    }
}

/// Every model that is not switched off, of every provider that is not, is
/// offered to the user, by the name of the provider and its own.
pub proof fn law_available_models_are_offered(
    providers: Seq<ProviderEntry>,
    wire_api: Seq<char>,
    i: int,
    j: int,
)
    requires
        0 <= i < providers.len(),
        providers[i].enabled != Some(false),
        0 <= j < providers[i].models@.len(),
        providers[i].models@[j].enabled != Some(false),
    ensures
        lists(
            provider_choices(providers, wire_api),
            providers[i].id@ + "/"@ + providers[i].models@[j].id@,
        ),
    decreases providers.len(),
{
    let earlier = providers.drop_last();
    let before = provider_choices(earlier, wire_api);
    let last = providers.last();
    lemma_models_add(before, last, last.models@, wire_api);
    if i < earlier.len() {
        assert(earlier[i] == providers[i]);
        law_available_models_are_offered(earlier, wire_api, i, j);
        if last.enabled != Some(false) {
            lemma_still_listed(
                before,
                provider_choices(providers, wire_api),
                providers[i].id@ + "/"@ + providers[i].models@[j].id@,
            );
        }
    }
}

/// A model that is new is offered with its variants, each under the model's
/// name; one that is switched off, or offered already, adds nothing, and neither
/// does a provider that is switched off.
pub proof fn law_models_bring_their_variants(
    options: Seq<OptionModel>,
    provider: ProviderEntry,
    model: ModelEntry,
    wire_api: Seq<char>,
    k: int,
)
    ensures
        model.enabled == Some(false) ==> with_model(options, provider, model, wire_api) == options,
        lists(options, provider.id@ + "/"@ + model.id@) ==> with_model(
            options,
            provider,
            model,
            wire_api,
        ) == options,
        provider.enabled == Some(false) ==> with_provider(options, provider, wire_api) == options,
        model.enabled != Some(false) && !lists(options, provider.id@ + "/"@ + model.id@) && 0 <= k
            < model.variants@.len() && !model.variants@[k].disabled ==> lists(
            with_model(options, provider, model, wire_api),
            provider.id@ + "/"@ + model.id@ + "/"@ + model.variants@[k].id@,
        ),
        options.is_prefix_of(with_model(options, provider, model, wire_api)),
{
    let added = options.push(model_choice(provider, model, wire_api));
    lemma_variants_add(added, provider, model, model.variants@);
    assert(options.is_prefix_of(added));
}

/// A variant that is switched off, or offered already, is not offered again.
pub proof fn law_disabled_variants_are_not_offered(
    options: Seq<OptionModel>,
    provider: ProviderEntry,
    model: ModelEntry,
    variant: VariantEntry,
)
    ensures
        variant.disabled ==> with_variant(options, provider, model, variant) == options,
        !variant.disabled && !lists(options, variant_value(provider, model, variant))
            ==> with_variant(options, provider, model, variant).len() == options.len() + 1
            && with_variant(options, provider, model, variant).last().value == provider.id@ + "/"@
            + model.id@ + "/"@ + variant.id@,
{
}

/// A model is shown by its name, else by the name of the catalog, else by what it
/// is called; a name of blanks is none.
pub proof fn law_models_are_shown_by_name(
    provider: ProviderEntry,
    model: ModelEntry,
    wire_api: Seq<char>,
)
    ensures
        ({
            let choice = model_choice(provider, model, wire_api);
            let named = model.name is Some && trimmed(model.name->0@).len() > 0;
            let cataloged = model.catalog_name is Some && trimmed(model.catalog_name->0@).len() > 0;
            &&& choice.value == provider.id@ + "/"@ + model.id@
            &&& named ==> choice.name == model.name->0@
            &&& !named && cataloged ==> choice.name == model.catalog_name->0@
            &&& !named && !cataloged ==> choice.name == model.id@
            &&& model.wire_api is Some ==> said_or(provider.name, provider.id@) + ": "@ + model.id@
                + " via "@ + model.wire_api->0@ == choice.description->0
            &&& model.wire_api is None && provider.wire_api is Some ==> said_or(
                provider.name,
                provider.id@,
            ) + ": "@ + model.id@ + " via "@ + provider.wire_api->0@ == choice.description->0
            &&& model.wire_api is None && provider.wire_api is None ==> said_or(
                provider.name,
                provider.id@,
            ) + ": "@ + model.id@ + " via "@ + wire_api == choice.description->0
        }),
{
}

/// What is in force is always among what is offered: a value that is not is
/// put first.
pub proof fn law_the_current_value_is_offered(options: Seq<OptionModel>, current: Seq<char>)
    ensures
        lists(options, current) ==> with_current(options, current) == options,
        !lists(options, current) ==> with_current(options, current).len() == options.len() + 1
            && with_current(options, current)[0].value == current && with_current(
            options,
            current,
        )[0].name == current && with_current(options, current)[0].description is None
            && with_current(options, current).skip(1) == options,
{
    if !lists(options, current) {
        assert(with_current(options, current).skip(1) =~= options);
    }
}

/// The effort in force is the one that was chosen where the model offers it,
/// else the model's own where it offers that, else the first that it offers.
pub proof fn law_efforts_fall_back(choices: EffortChoices, r: Option<String>)
    requires
        r == effort_in_force(choices),
    ensures
        choices.offered@.len() == 0 ==> r is None,
        choices.offered@.len() > 0 ==> {
            let chosen = choices.normalized is Some && exists|i: int|
                0 <= i < choices.offered@.len() && (#[trigger] choices.offered@[i]).value@
                    == choices.normalized->0@;
            let usual = choices.fallback is Some && exists|i: int|
                0 <= i < choices.offered@.len() && (#[trigger] choices.offered@[i]).value@
                    == choices.fallback->0@;
            &&& chosen ==> r == choices.normalized
            &&& !chosen && usual ==> r == choices.fallback
            &&& !chosen && !usual ==> r == Some(choices.offered@[0].value)
        },
{
}

/// Efforts are offered in order, each once.
pub proof fn law_efforts_are_offered_once(offered: Seq<EffortOption>, effort: EffortOption)
    ensures
        effort_list(Seq::empty()) == Seq::<OptionModel>::empty(),
        lists(effort_list(offered), effort.value@) ==> effort_list(offered.push(effort))
            == effort_list(offered),
        !lists(effort_list(offered), effort.value@) ==> effort_list(offered.push(effort)).len()
            == effort_list(offered).len() + 1 && effort_list(offered).is_prefix_of(
            effort_list(offered.push(effort)),
        ) && effort_list(offered.push(effort)).last().value == effort.value@ && effort_list(
            offered.push(effort),
        ).last().name == effort.label@ && effort_list(offered.push(effort)).last().description
            == Some(effort.description@),
{
    assert(offered.push(effort).drop_last() =~= offered);
}

/// A selection names the provider and the model as the provider calls it, or the
/// model alone where there is no provider, and the variant where there is one.
pub proof fn law_selections_name_their_parts(
    provider: Seq<char>,
    request_model: Seq<char>,
    slug: Seq<char>,
    variant: Seq<char>,
)
    ensures
        model_selection(Some(provider), request_model, slug, None) == provider + "/"@
            + request_model,
        model_selection(None, request_model, slug, None) == slug,
        model_selection(Some(provider), request_model, slug, Some(variant)) == provider + "/"@
            + request_model + "/"@ + variant,
        model_selection(None, request_model, slug, Some(variant)) == slug + "/"@ + variant,
{
}

/// The modes that a session can be in are known by their names, and by the old
/// name of the first.
pub proof fn law_presets_are_known_by_name(value: Seq<char>)
    ensures
        value == "default"@ || value == "read-only"@ ==> preset_of(value) == Some(
            PermissionPreset::Default,
        ),
        value == "auto-review"@ ==> preset_of(value) == Some(PermissionPreset::AutoReview),
        value == "full-access"@ ==> preset_of(value) == Some(PermissionPreset::FullAccess),
        value != "default"@ && value != "read-only"@ && value != "auto-review"@ && value
            != "full-access"@ ==> preset_of(value) is None,
        preset_choices().len() == 3,
        preset_choices()[0].value == preset_text(PermissionPreset::Default),
        preset_choices()[1].value == preset_text(PermissionPreset::AutoReview),
        preset_choices()[2].value == preset_text(PermissionPreset::FullAccess),
{
    reveal_strlit("default");
    reveal_strlit("read-only");
    reveal_strlit("auto-review");
    reveal_strlit("full-access");
    assert("default"@.len() == 7 && "read-only"@.len() == 9);
    assert("auto-review"@.len() == 11 && "full-access"@.len() == 11);
    assert("auto-review"@[0] == 'a' && "full-access"@[0] == 'f');
}

/// Setting the model of a session sets the model that is named and the effort
/// that is in force for it; a model that is not offered is refused.
pub proof fn law_models_are_set_as_asked(
    id: String,
    value: String,
    facts: OfferFacts,
    efforts: EffortChoices,
)
    requires
        id@ == "model"@,
    ensures
        ({
            let a = set_option_start(id, Some(value));
            let b = set_option_step(a.0, SetOptionEvent::SessionFound(true));
            let c = set_option_step(b.0, SetOptionEvent::Done);
            let d = set_option_step(c.0, SetOptionEvent::Offered(Some(facts)));
            let e = set_option_step(d.0, SetOptionEvent::ModelResolved(efforts));
            &&& a.1 is FindSession
            &&& b.1 is LockState
            &&& c.1 is ReadOptions
            &&& offers_model(facts, value@) ==> d.1 == SetOptionOrder::ResolveModel(value) && e.1
                == SetOptionOrder::UpdateSettings { model: value, effort: effort_in_force(efforts) }
            &&& !offers_model(facts, value@) ==> d.1 == SetOptionOrder::Reject(
                ConfigRefusal::InvalidValue { value, id },
            )
        }),
        value@ == facts.model@ ==> offers_model(facts, value@),
{
    let choices = provider_choices(facts.providers@, facts.wire_api@);
    law_models_are_offered_once(facts.providers@, facts.wire_api@, facts.model@);
}

/// Setting the effort of a session keeps its model and sets the effort that is
/// named, where the model has efforts and offers it.
pub proof fn law_efforts_are_set_as_asked(
    id: String,
    value: String,
    facts: OfferFacts,
    found: ModelFacts,
    step: (SetOptionPhase, SetOptionAction),
)
    requires
        id@ == "thought_level"@,
        is_set_option_step(
            SetOptionPhase::EffortResolved { value },
            SetOptionEvent::EffortResolved(found),
            step,
        ),
    ensures
        facts.efforts.offered@.len() == 0 ==> offered_step(id, value, facts).1
            == SetOptionOrder::Reject(ConfigRefusal::UnknownOption(id)),
        facts.efforts.offered@.len() > 0 && offers_effort(facts.efforts.offered@, value@)
            ==> offered_step(id, value, facts) == (
            SetOptionPhase::EffortResolved { value },
            SetOptionOrder::ResolveEffort(value),
        ),
        facts.efforts.offered@.len() > 0 && !offers_effort(facts.efforts.offered@, value@)
            ==> offered_step(id, value, facts).1 == SetOptionOrder::Reject(
            ConfigRefusal::InvalidValue { value, id },
        ),
        step.1 matches SetOptionAction::UpdateSettings { model, effort } && effort == Some(value)
            && model@ == model_selection(
            opt_view(found.provider),
            found.request_model@,
            found.slug@,
            opt_view(found.variant),
        ),
{
    lemma_option_names_differ();
}

proof fn lemma_option_names_differ()
    ensures
        "model"@ != "thought_level"@,
        "model"@ != "mode"@,
        "model"@ != "sandbox_profile"@,
        "thought_level"@ != "mode"@,
        "thought_level"@ != "sandbox_profile"@,
        "mode"@ != "sandbox_profile"@,
{
    reveal_strlit("model");
    reveal_strlit("thought_level");
    reveal_strlit("mode");
    reveal_strlit("sandbox_profile");
    assert("model"@.len() == 5);
    assert("thought_level"@.len() == 13);
    assert("mode"@.len() == 4);
    assert("sandbox_profile"@.len() == 15);
}

/// Setting the mode of a session applies the preset of that name, and setting its
/// sandbox the profile of that name; an option of another name is not known, and
/// a switch is none.
pub proof fn law_modes_and_sandboxes_are_set_as_asked(
    id: String,
    value: String,
    facts: OfferFacts,
)
    ensures
        id@ == "mode"@ && value@ == "default"@ ==> offered_step(id, value, facts).1
            == SetOptionOrder::ApplyPreset(PermissionPreset::Default),
        id@ == "mode"@ && value@ == "auto-review"@ ==> offered_step(id, value, facts).1
            == SetOptionOrder::ApplyPreset(PermissionPreset::AutoReview),
        id@ == "mode"@ && value@ == "full-access"@ ==> offered_step(id, value, facts).1
            == SetOptionOrder::ApplyPreset(PermissionPreset::FullAccess),
        id@ == "mode"@ && preset_of(value@) is None ==> offered_step(id, value, facts).1
            == SetOptionOrder::Reject(ConfigRefusal::InvalidValue { value, id }),
        id@ == "sandbox_profile"@ ==> offered_step(id, value, facts).1
            == SetOptionOrder::ApplySandbox(value),
        id@ != "model"@ && id@ != "thought_level"@ && id@ != "mode"@ && id@ != "sandbox_profile"@
            ==> offered_step(id, value, facts).1 == SetOptionOrder::Reject(
            ConfigRefusal::UnknownOption(id),
        ),
        set_option_start(id, None).1 matches SetOptionAction::Reject(why) && why.code_view()
            is InvalidParams,
{
    lemma_option_names_differ();
    law_presets_are_known_by_name(value@);
}

/// What was set is shown: the options are read anew, a change of the settings is
/// written down where the session is kept, and the client gets the options as
/// they are.
pub proof fn law_set_options_are_answered(
    kept: bool,
    session: RefreshedSession,
    unwritten: Option<String>,
    error: String,
)
    ensures
        ({
            let a = set_option_step(SetOptionPhase::Updated, SetOptionEvent::Updated(Some(kept)));
            let b = set_option_step(a.0, SetOptionEvent::Refreshed(Some(session)));
            let c = if session.durable {
                set_option_step(b.0, SetOptionEvent::Written(None))
            } else {
                b
            };
            let d = if kept {
                set_option_step(c.0, SetOptionEvent::Written(unwritten))
            } else {
                c
            };
            let e = set_option_step(
                SetOptionPhase::PresetApplied,
                SetOptionEvent::PresetApplied(true),
            );
            let f = set_option_step(e.0, SetOptionEvent::Refreshed(Some(session)));
            &&& a.1 is Refresh
            &&& session.durable ==> b.1 is AppendMeta
            &&& kept ==> c.1 is UpsertIndex
            &&& d.1 is Answer
            &&& e.1 is Refresh
            &&& f.1 is Answer
            &&& session.durable ==> (set_option_step(
                b.0,
                SetOptionEvent::Written(Some(error)),
            ).1 matches SetOptionAction::Reject(why) && why.code_view() is ServerError
                && why.message_view() == ""@ + error@)
        }),
{
}

/// An option that cannot be set is answered with the reason.
pub proof fn law_unset_options_say_why(id: String, value: String, error: String)
    ensures
        set_option_step(
            SetOptionPhase::Session { id, value },
            SetOptionEvent::SessionFound(false),
        ).1 matches SetOptionAction::Reject(why) && why.code_view() is ServerError,
        set_option_step(SetOptionPhase::Offered { id, value }, SetOptionEvent::Offered(None)).1
            matches SetOptionAction::Reject(why) && why.code_view() is ServerError,
        set_option_step(SetOptionPhase::Updated, SetOptionEvent::Updated(None)).1 matches
            SetOptionAction::Reject(why) && why.code_view() is ServerError,
        set_option_step(SetOptionPhase::PresetApplied, SetOptionEvent::PresetApplied(false)).1
            matches SetOptionAction::Reject(why) && why.code_view() is ServerError,
        set_option_step(
            SetOptionPhase::SandboxApplied { id, value },
            SetOptionEvent::SandboxApplied(Some(Ok(()))),
        ).1 is Refresh,
        set_option_step(
            SetOptionPhase::SandboxApplied { id, value },
            SetOptionEvent::SandboxApplied(Some(Err(error))),
        ).1 == SetOptionOrder::Reject(ConfigRefusal::InvalidSandbox { value, id, error }),
        set_option_step(
            SetOptionPhase::SandboxApplied { id, value },
            SetOptionEvent::SandboxApplied(None),
        ).1 matches SetOptionAction::Reject(why) && why.code_view() is ServerError,
        ConfigRefusal::UnknownOption(id).code_view() is InvalidParams,
        (ConfigRefusal::InvalidValue { value, id }).code_view() is InvalidParams,
        (ConfigRefusal::InvalidSandbox { value, id, error }).code_view() is InvalidParams,
{
}

/// The options of a session are its model, its effort where the model has any,
/// and its mode, each with what is in force.
pub proof fn law_sessions_offer_their_options(
    providers: Seq<ProviderEntry>,
    wire_api: Seq<char>,
    model: Seq<char>,
    efforts: EffortChoices,
    preset: PermissionPreset,
    options: Seq<ConfigOption>,
)
    requires
        are_options(providers, wire_api, model, efforts, preset, options),
    ensures
        efforts.offered@.len() > 0 ==> options.len() == 3,
        efforts.offered@.len() == 0 ==> options.len() == 2,
        options[0].id@ == "model"@ && options[0].category is Model && options[0].current_value@
            == model,
        efforts.offered@.len() > 0 ==> options[1].id@ == "thought_level"@ && options[1].category
            is ThoughtLevel && Some(options[1].current_value@) == opt_view(
            effort_in_force(efforts),
        ),
        options.last().id@ == "mode"@ && options.last().category is Mode,
        preset is Default ==> options.last().current_value@ == "default"@,
        preset is AutoReview ==> options.last().current_value@ == "auto-review"@,
        preset is FullAccess ==> options.last().current_value@ == "full-access"@,
{
}

/// A variant is shown under the name of its model, by its label, else by what it
/// is called with spaces for dashes.
pub proof fn law_variants_are_shown_by_label(
    provider: ProviderEntry,
    model: ModelEntry,
    variant: VariantEntry,
)
    ensures
        ({
            let choice = variant_choice(provider, model, variant);
            let labeled = variant.label is Some && trimmed(variant.label->0@).len() > 0;
            let spaced = char_replaced(char_replaced(variant.id@, '-', ' '), '_', ' ');
            &&& choice.value == provider.id@ + "/"@ + model.id@ + "/"@ + variant.id@
            &&& labeled ==> choice.name == model_name(model) + " ("@ + variant.label->0@ + ")"@
            &&& !labeled ==> choice.name == model_name(model) + " ("@ + spaced + ")"@
        }),
{
}

} // verus!
