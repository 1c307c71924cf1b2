//! Form assets and the locale files beside them.
use crate::entries::{self, add_member, find};
use crate::faults::{ComponentError, FaultView};
use crate::form::{self, FormSpec, FormView, QuestionSpec, QuestionView};
use crate::inclusion::{self, expand_includes_value};
use crate::json::{self, Json, JsonView};
use crate::json_text::{self, parse_json, parse_text_map};
use crate::paths::{self, infer_i18n_dir_from_form_path, locale_file_path, PathRules, RulesView};
use crate::text::{self, head_before, join, replace_char, trim};
use vstd::prelude::*;

verus! {

/// What a component is configured with. The texts of the forms that others may
/// pull in stand in the order of their names.
#[derive(Debug, PartialEq)]
pub struct ComponentConfig {
    pub qa_form_asset_path: Option<String>,
    pub include_registry: Vec<(String, String)>,
}

/// A form as read, with the place that it was read from.
#[derive(Debug, PartialEq)]
pub struct LoadedFormValue {
    pub spec_value: Json,
    pub form_asset_path: String,
}

/// What came of an attempt to read a file.
#[derive(Debug, PartialEq)]
pub enum Attempt {
    Found(String),
    NotFound(String),
    Failed(String),
}

#[verifier::ext_equal]
pub enum AttemptView {
    Found(Seq<char>),
    NotFound(Seq<char>),
    Failed(Seq<char>),
}

impl View for Attempt {
    type V = AttemptView;

    open spec fn view(&self) -> AttemptView {
        match *self {
            Attempt::Found(text) => AttemptView::Found(text@),
            Attempt::NotFound(details) => AttemptView::NotFound(details@),
            Attempt::Failed(details) => AttemptView::Failed(details@),
        }
    }
}

impl Attempt {
    /// Whether no further path is tried after this attempt.
    pub fn ends_search(&self) -> (r: bool)
        ensures
            r == !(self@ is NotFound),
    {
        !matches!(self, Attempt::NotFound(_))
    }
}

/// A list of attempts, viewed.
pub open spec fn attempts_view(list: Seq<Attempt>) -> Seq<AttemptView> {
    Seq::new(list.len(), |i: int| list[i]@)
}

/// The asset that attempts on a list of paths brought, from the `i`-th on: the
/// first that was found, unless one before it failed for another reason than
/// its absence. Where all are absent the last one is reported.
pub open spec fn asset_found(
    candidates: Seq<Seq<char>>,
    attempts: Seq<AttemptView>,
    i: int,
    last: FaultView,
) -> Result<(Seq<char>, Seq<char>), FaultView>
    decreases candidates.len() - i,
{
    if i < 0 || i >= candidates.len() || i >= attempts.len() {
        Err(last)
    } else {
        match attempts[i] {
            AttemptView::Found(text) => Ok((text, candidates[i])),
            AttemptView::Failed(details) => Err(
                FaultView::QaFormRead { path: candidates[i], details },
            ),
            AttemptView::NotFound(details) => asset_found(
                candidates,
                attempts,
                i + 1,
                FaultView::QaFormRead { path: candidates[i], details },
            ),
        }
    }
}

/// An asset read, viewed.
pub open spec fn asset_view(asset: Result<(String, String), ComponentError>) -> Result<
    (Seq<char>, Seq<char>),
    FaultView,
> {
    match asset {
        Ok(found) => Ok((found.0@, found.1@)),
        Err(fault) => Err(fault@),
    }
}

/// Picks the form asset out of what came of reading its candidate paths in turn.
pub fn read_qa_form_asset(candidates: &Vec<String>, attempts: &Vec<Attempt>) -> (r: Result<
    (String, String),
    ComponentError,
>)
    ensures
        asset_view(r) == asset_found(
            text::texts(candidates@),
            attempts_view(attempts@),
            0,
            FaultView::MissingQaFormAssetPath,
        ),
{
    let ghost paths = text::texts(candidates@);
    let ghost tries = attempts_view(attempts@);
    let mut last = ComponentError::MissingQaFormAssetPath;
    let mut i: usize = 0;
    while i < candidates.len() && i < attempts.len()
        invariant
            i <= candidates@.len(),
            i <= attempts@.len(),
            paths == text::texts(candidates@),
            tries == attempts_view(attempts@),
            asset_found(paths, tries, 0, FaultView::MissingQaFormAssetPath) == asset_found(
                paths,
                tries,
                i as int,
                last@,
            ),
        decreases candidates.len() - i,
    {
        assert(tries[i as int] == attempts@[i as int]@);
        assert(paths[i as int] == candidates@[i as int]@);
        match &attempts[i] {
            Attempt::Found(contents) => {
                return Ok((contents.clone(), candidates[i].clone()));
            },
            Attempt::Failed(details) => {
                return Err(
                    ComponentError::QaFormRead {
                        path: candidates[i].clone(),
                        details: details.clone(),
                    },
                );
            },
            Attempt::NotFound(details) => {
                last =
                ComponentError::QaFormRead { path: candidates[i].clone(), details: details.clone() };
            },
        }
        i += 1;
    }
    Err(last)
}

/// The path of the form that a configuration names, without white space around
/// it. A configuration that is blank names none.
pub open spec fn form_path_of(
    config_json: Seq<char>,
    config: Result<ComponentConfig, String>,
) -> Result<Seq<char>, FaultView> {
    if text::is_blank(config_json) {
        Err(FaultView::MissingQaFormAssetPath)
    } else {
        match config {
            Err(details) => Err(FaultView::ConfigParse(details@)),
            Ok(config) => match text::opt_text(config.qa_form_asset_path) {
                Some(path) => if text::is_blank(path) {
                    Err(FaultView::MissingQaFormAssetPath)
                } else {
                    Ok(text::trimmed(path))
                },
                None => Err(FaultView::MissingQaFormAssetPath),
            },
        }
    }
}

/// The path of the form that a configuration names.
pub fn form_asset_path(config_json: &str, config: &Result<ComponentConfig, String>) -> (r: Result<
    String,
    ComponentError,
>)
    ensures
        match r {
            Ok(path) => form_path_of(config_json@, *config) == Ok::<Seq<char>, FaultView>(path@),
            Err(fault) => form_path_of(config_json@, *config) == Err::<Seq<char>, FaultView>(fault@),
        },
{
    if text::blank(config_json) {
        return Err(ComponentError::MissingQaFormAssetPath);
    }
    match config {
        Err(details) => Err(ComponentError::ConfigParse(details.clone())),
        Ok(config) => match &config.qa_form_asset_path {
            Some(path) => if text::blank(path.as_str()) {
                Err(ComponentError::MissingQaFormAssetPath)
            } else {
                Ok(trim(path.as_str()))
            },
            None => Err(ComponentError::MissingQaFormAssetPath),
        },
    }
}

/// The forms of the entries from the `i`-th on, read and added to a registry,
/// up to the first that is no JSON.
pub open spec fn registry_of(
    texts: Seq<(Seq<char>, Seq<char>)>,
    i: int,
    registry: Seq<(Seq<char>, JsonView)>,
) -> Result<Seq<(Seq<char>, JsonView)>, FaultView>
    decreases texts.len() - i,
{
    if i < 0 || i >= texts.len() {
        Ok(registry)
    } else {
        match json_text::json_of_text(texts[i].1) {
            Ok(value) => registry_of(texts, i + 1, entries::put(registry, texts[i].0, value)),
            Err(details) => Err(FaultView::ConfigParse(details)),
        }
    }
}

/// Reads the forms that others may pull in.
pub fn parse_include_registry(include_registry: &Vec<(String, String)>) -> (r: Result<
    Vec<(String, Json)>,
    ComponentError,
>)
    ensures
        ({
            let out = registry_of(entries::text_entries(include_registry@), 0, Seq::empty());
            match r {
                Ok(registry) => out == Ok::<Seq<(Seq<char>, JsonView)>, FaultView>(
                    json::entries_view(registry@),
                ),
                Err(fault) => out == Err::<Seq<(Seq<char>, JsonView)>, FaultView>(fault@),
            }
        }),
{
    let ghost texts = entries::text_entries(include_registry@);
    let mut registry: Vec<(String, Json)> = Vec::new();
    let mut i: usize = 0;
    assert(json::entries_view(registry@) =~= Seq::empty());
    while i < include_registry.len()
        invariant
            i <= include_registry@.len(),
            texts == entries::text_entries(include_registry@),
            registry_of(texts, 0, Seq::empty()) == registry_of(
                texts,
                i as int,
                json::entries_view(registry@),
            ),
        decreases include_registry.len() - i,
    {
        assert(texts[i as int] == (include_registry@[i as int].0@, include_registry@[i as int].1@));
        match parse_json(include_registry[i].1.as_str()) {
            Ok(value) => {
                json::put_member(&mut registry, include_registry[i].0.clone(), value);
            },
            Err(details) => {
                return Err(ComponentError::ConfigParse(details));
            },
        }
        i += 1;
    }
    Ok(registry)
}

/// The form that an asset holds, with the forms that it pulls in where there is
/// a registry, and the place of the asset.
pub open spec fn form_value_of(
    texts: Seq<(Seq<char>, Seq<char>)>,
    raw: Seq<char>,
    path: Seq<char>,
) -> Result<(JsonView, Seq<char>), FaultView> {
    match json_text::json_of_text(raw) {
        Err(details) => Err(FaultView::QaFormParse { path, details }),
        Ok(value) => match registry_of(texts, 0, Seq::empty()) {
            Err(fault) => Err(fault),
            Ok(registry) => if registry.len() == 0 {
                Ok((value, path))
            } else {
                match inclusion::expanded(value, registry) {
                    Ok(expanded) => Ok((expanded, path)),
                    Err(details) => Err(FaultView::Include(details)),
                }
            },
        },
    }
}

/// What loading a form comes to, given its configuration and its asset.
pub open spec fn loading(
    config_json: Seq<char>,
    config: Result<ComponentConfig, String>,
    asset: Result<(Seq<char>, Seq<char>), FaultView>,
) -> Result<(JsonView, Seq<char>), FaultView> {
    match form_path_of(config_json, config) {
        Err(fault) => Err(fault),
        Ok(_) => match asset {
            Err(fault) => Err(fault),
            Ok((raw, path)) => form_value_of(
                entries::text_entries(config->Ok_0.include_registry@),
                raw,
                path,
            ),
        },
    }
}

/// A form as read, viewed.
pub open spec fn loaded_view(loaded: Result<LoadedFormValue, ComponentError>) -> Result<
    (JsonView, Seq<char>),
    FaultView,
> {
    match loaded {
        Ok(form) => Ok((form.spec_value@, form.form_asset_path@)),
        Err(fault) => Err(fault@),
    }
}

/// Loads a form: `config` is what the configuration text reads as, and `asset`
/// what came of reading the asset that it names.
pub fn load_form_spec_value(
    config_json: &str,
    config: Result<ComponentConfig, String>,
    asset: Result<(String, String), ComponentError>,
) -> (r: Result<LoadedFormValue, ComponentError>)
    ensures
        loaded_view(r) == loading(config_json@, config, asset_view(asset)),
{
    match form_asset_path(config_json, &config) {
        Err(fault) => {
            return Err(fault);
        },
        Ok(_) => {},
    }
    let (raw_spec, resolved_path) = match asset {
        Ok(found) => found,
        Err(fault) => {
            return Err(fault);
        },
    };
    let spec_value = match parse_json(raw_spec.as_str()) {
        Ok(value) => value,
        Err(details) => {
            return Err(ComponentError::QaFormParse { path: resolved_path, details });
        },
    };
    let texts = match config {
        Ok(config) => config.include_registry,
        Err(details) => {
            return Err(ComponentError::ConfigParse(details));
        },
    };
    let registry = match parse_include_registry(&texts) {
        Ok(registry) => registry,
        Err(fault) => {
            return Err(fault);
        },
    };
    if registry.len() == 0 {
        return Ok(LoadedFormValue { spec_value, form_asset_path: resolved_path });
    }
    match expand_includes_value(&spec_value, &registry) {
        Ok(expanded) => Ok(
            LoadedFormValue { spec_value: expanded, form_asset_path: resolved_path },
        ),
        Err(details) => Err(ComponentError::Include(details)),
    }
}

/// A locale file: none, one that cannot be read, or its text.
#[derive(Debug, PartialEq)]
pub enum LocaleFile {
    Absent,
    Unreadable(String),
    Text(String),
}

/// The entries that a locale file holds: none where there is no file.
pub open spec fn locale_entries(path: Seq<char>, file: LocaleFile) -> Result<
    Option<Seq<(Seq<char>, Seq<char>)>>,
    FaultView,
> {
    match file {
        LocaleFile::Absent => Ok(None),
        LocaleFile::Unreadable(details) => Err(FaultView::I18nRead { path, details: details@ }),
        LocaleFile::Text(raw) => match json_text::text_map_of(raw@) {
            Ok(map) => Ok(Some(map)),
            Err(details) => Err(FaultView::I18nParse { path, details }),
        },
    }
}

/// A locale map, viewed.
pub open spec fn opt_map(map: Option<Vec<(String, String)>>) -> Option<
    Seq<(Seq<char>, Seq<char>)>,
> {
    match map {
        Some(map) => Some(entries::text_entries(map@)),
        None => None,
    }
}

/// Reads the file of a locale in a directory of locale files.
pub fn load_locale_map(
    rules: &PathRules,
    i18n_dir: &str,
    locale: &str,
    file: &LocaleFile,
) -> (r: Result<Option<Vec<(String, String)>>, ComponentError>)
    ensures
        ({
            let out = locale_entries(paths::locale_file(rules@, i18n_dir@, locale@), *file);
            match r {
                Ok(map) => out == Ok::<Option<Seq<(Seq<char>, Seq<char>)>>, FaultView>(opt_map(map)),
                Err(fault) => out == Err::<Option<Seq<(Seq<char>, Seq<char>)>>, FaultView>(fault@),
            }
        }),
{
    match file {
        LocaleFile::Absent => Ok(None),
        LocaleFile::Unreadable(details) => Err(
            ComponentError::I18nRead {
                path: locale_file_path(rules, i18n_dir, locale),
                details: details.clone(),
            },
        ),
        LocaleFile::Text(raw) => match parse_text_map(raw.as_str()) {
            Ok(map) => Ok(Some(map)),
            Err(details) => Err(
                ComponentError::I18nParse {
                    path: locale_file_path(rules, i18n_dir, locale),
                    details,
                },
            ),
        },
    }
}

/// An ordered list of texts with one more, where there is one.
pub open spec fn with_opt(set: Seq<Seq<char>>, text: Option<Seq<char>>) -> Seq<Seq<char>> {
    match text {
        Some(text) => entries::with_member(set, text),
        None => set,
    }
}

/// An ordered list of translation keys with those of a question and of the
/// fields of its list.
pub open spec fn with_question_keys(set: Seq<Seq<char>>, question: QuestionView) -> Seq<Seq<char>>
    decreases question, 0int,
{
    let own = with_opt(with_opt(set, question.title_i18n), question.description_i18n);
    match question.list {
        Some(list) => with_keys(own, list.fields, list.fields.len() as int),
        None => own,
    }
}

/// An ordered list of translation keys with those of the first `n` questions.
pub open spec fn with_keys(set: Seq<Seq<char>>, questions: Seq<QuestionView>, n: int) -> Seq<
    Seq<char>,
>
    decreases questions, n,
{
    if n <= 0 || n > questions.len() {
        set
    } else {
        with_question_keys(with_keys(set, questions, n - 1), questions[n - 1])
    }
}

fn add_opt(keys: &mut Vec<String>, text: &Option<String>)
    ensures
        text::texts(final(keys)@) == with_opt(text::texts(old(keys)@), text::opt_text(*text)),
{
    match text {
        Some(text) => {
            add_member(keys, text.clone());
        },
        None => {},
    }
}

/// Adds the translation keys of a question, and of the fields of its list, to an
/// ordered list of keys.
pub fn collect_question_i18n_keys(question: &QuestionSpec, keys: &mut Vec<String>)
    ensures
        text::texts(final(keys)@) == with_question_keys(text::texts(old(keys)@), question@),
    decreases question,
{
    let ghost start = text::texts(keys@);
    add_opt(keys, &question.title_i18n);
    add_opt(keys, &question.description_i18n);
    let ghost own = text::texts(keys@);
    proof {
        form::lemma_question_list(*question);
    }
    match &question.list {
        Some(list) => {
            let ghost views = form::questions_view(list.fields@);
            let mut i: usize = 0;
            while i < list.fields.len()
                invariant
                    i <= list.fields@.len(),
                    question.list == Some(*list),
                    views == form::questions_view(list.fields@),
                    text::texts(keys@) == with_keys(own, views, i as int),
                decreases list.fields.len() - i,
            {
                let ghost before = text::texts(keys@);
                assert(views[i as int] == list.fields@[i as int]@);
                proof {
                    lemma_field_smaller(*question, i as int);
                }
                collect_question_i18n_keys(&list.fields[i], keys);
                i += 1;
            }
        },
        None => {},
    }
}

/// The fields of a list question are smaller than the question.
proof fn lemma_field_smaller(question: QuestionSpec, i: int)
    requires
        question.list is Some,
        0 <= i < question.list->0.fields@.len(),
    ensures
        decreases_to!(question => question.list->0.fields@[i]),
{
    assert(decreases_to!(question => question.list));
    assert(decreases_to!(question.list => question.list->0));
    assert(decreases_to!(question.list->0 => question.list->0.fields));
    assert(decreases_to!(question.list->0.fields => question.list->0.fields@));
    assert(decreases_to!(question.list->0.fields@ => question.list->0.fields@[i]));
}

/// The translation keys that a form uses, in order.
pub open spec fn form_keys(spec: FormView) -> Seq<Seq<char>> {
    with_keys(Seq::empty(), spec.questions, spec.questions.len() as int)
}

/// Those keys that a map does not hold.
pub open spec fn absent_keys(keys: Seq<Seq<char>>, map: Seq<(Seq<char>, Seq<char>)>) -> Seq<
    Seq<char>,
>
    decreases keys.len(),
{
    if keys.len() == 0 {
        Seq::empty()
    } else {
        let before = absent_keys(keys.drop_last(), map);
        if entries::view_keys(map).contains(keys.last()) {
            before
        } else {
            before.push(keys.last())
        }
    }
}

/// What is wrong with the English texts of a form, if anything.
pub open spec fn english_fault(
    rules: RulesView,
    spec: FormView,
    path: Seq<char>,
    english: LocaleFile,
) -> Option<FaultView> {
    let keys = form_keys(spec);
    let dir = paths::i18n_dir(rules, path);
    if keys.len() == 0 {
        None
    } else {
        match locale_entries(paths::locale_file(rules, dir, "en"@), english) {
            Err(fault) => Some(fault),
            Ok(None) => Some(FaultView::MissingI18nEnglish { form_path: path, i18n_dir: dir }),
            Ok(Some(map)) => {
                let missing = absent_keys(keys, map);
                if missing.len() == 0 {
                    None
                } else {
                    Some(
                        FaultView::MissingI18nKeys {
                            form_path: path,
                            i18n_en_path: paths::below(rules, dir, "en.json"@),
                            missing_keys: text::joined(missing, ", "@),
                        },
                    )
                }
            },
        }
    }
}

/// Checks that every translation key that a form uses has an English text:
/// `english` is the English file beside the form.
pub fn validate_form_i18n_keys(
    rules: &PathRules,
    spec: &FormSpec,
    form_asset_path: &str,
    english: &LocaleFile,
) -> (r: Result<(), ComponentError>)
    ensures
        match r {
            Ok(_) => english_fault(rules@, spec@, form_asset_path@, *english) is None,
            Err(fault) => english_fault(rules@, spec@, form_asset_path@, *english) == Some(fault@),
        },
{
    let mut keys: Vec<String> = Vec::new();
    let ghost views = spec@.questions;
    assert(text::texts(keys@) =~= Seq::empty());
    let mut i: usize = 0;
    while i < spec.questions.len()
        invariant
            i <= spec.questions@.len(),
            views == form::questions_view(spec.questions@),
            text::texts(keys@) == with_keys(Seq::empty(), views, i as int),
        decreases spec.questions.len() - i,
    {
        assert(views[i as int] == spec.questions@[i as int]@);
        collect_question_i18n_keys(&spec.questions[i], &mut keys);
        i += 1;
    }
    let ghost all = text::texts(keys@);
    assert(all.len() == keys@.len());
    if keys.len() == 0 {
        return Ok(());
    }
    let i18n_dir = infer_i18n_dir_from_form_path(rules, form_asset_path);
    let map = match load_locale_map(rules, i18n_dir.as_str(), "en", english) {
        Err(fault) => {
            return Err(fault);
        },
        Ok(None) => {
            return Err(
                ComponentError::MissingI18nEnglish {
                    form_path: form_asset_path.to_owned(),
                    i18n_dir,
                },
            );
        },
        Ok(Some(map)) => map,
    };
    let ghost map_view = entries::text_entries(map@);
    let mut missing: Vec<String> = Vec::new();
    let mut k: usize = 0;
    assert(all.take(0) =~= Seq::empty());
    assert(text::texts(missing@) =~= Seq::empty());
    while k < keys.len()
        invariant
            k <= keys@.len(),
            all == text::texts(keys@),
            map_view == entries::text_entries(map@),
            text::texts(missing@) == absent_keys(all.take(k as int), map_view),
        decreases keys.len() - k,
    {
        assert(all.take(k + 1).drop_last() =~= all.take(k as int));
        assert(all.take(k + 1).last() == keys@[k as int]@);
        proof {
            assert(entries::view_keys(map_view) =~= entries::keys_of(map@));
            entries::lemma_position(entries::keys_of(map@), keys@[k as int]@);
        }
        match find(&map, keys[k].as_str()) {
            Some(at) => {
                assert(entries::keys_of(map@)[at as int] == keys@[k as int]@);
            },
            None => {
                let ghost before = text::texts(missing@);
                missing.push(keys[k].clone());
                assert(text::texts(missing@) =~= before.push(keys@[k as int]@));
            },
        }
        k += 1;
    }
    assert(all.take(k as int) =~= all);
    assert(text::texts(missing@).len() == missing@.len());
    if missing.len() == 0 {
        return Ok(());
    }
    Err(
        ComponentError::MissingI18nKeys {
            form_path: form_asset_path.to_owned(),
            i18n_en_path: paths::join_path(rules, i18n_dir.as_str(), "en.json"),
            missing_keys: join(&missing, ", "),
        },
    )
}

/// The form that loading comes to: `spec` is what the loaded value reads as, and
/// `english` the English file beside its asset.
pub open spec fn form_of(
    rules: RulesView,
    loaded: Result<(JsonView, Seq<char>), FaultView>,
    spec: Result<FormView, Seq<char>>,
    english: LocaleFile,
) -> Result<FormView, FaultView> {
    match loaded {
        Err(fault) => Err(fault),
        Ok((_, path)) => match spec {
            Err(details) => Err(FaultView::ConfigParse(details)),
            Ok(spec) => match english_fault(rules, spec, path, english) {
                Some(fault) => Err(fault),
                None => Ok(spec),
            },
        },
    }
}

/// A form that was asked for, viewed.
pub open spec fn spec_view(spec: Result<FormSpec, ComponentError>) -> Result<FormView, FaultView> {
    match spec {
        Ok(spec) => Ok(spec@),
        Err(fault) => Err(fault@),
    }
}

/// Completes the loading of a form.
pub fn load_form_spec(
    rules: &PathRules,
    loaded: Result<LoadedFormValue, ComponentError>,
    spec: Result<FormSpec, String>,
    english: &LocaleFile,
) -> (r: Result<FormSpec, ComponentError>)
    ensures
        spec_view(r) == form_of(
            rules@,
            loaded_view(loaded),
            match spec {
                Ok(spec) => Ok(spec@),
                Err(details) => Err(details@),
            },
            *english,
        ),
{
    let loaded = match loaded {
        Ok(loaded) => loaded,
        Err(fault) => {
            return Err(fault);
        },
    };
    let spec = match spec {
        Ok(spec) => spec,
        Err(details) => {
            return Err(ComponentError::ConfigParse(details));
        },
    };
    match validate_form_i18n_keys(rules, &spec, loaded.form_asset_path.as_str(), english) {
        Ok(_) => Ok(spec),
        Err(fault) => Err(fault),
    }
}

/// The locales whose texts are tried, in turn.
pub open spec fn locale_chain(locale: Option<Seq<char>>) -> Seq<Seq<char>> {
    match locale {
        None => seq!["en"@],
        Some(raw) => {
            let tag = text::with_char_replaced(raw, '_', '-');
            match text::cut(tag, '-') {
                Some((base, _)) => seq![tag, base, "en"@],
                None => seq![tag, "en"@],
            }
        },
    }
}

/// The locales whose texts are tried, in turn: the one that is asked for, its
/// language, and English.
pub fn normalize_locale_chain(locale: Option<&str>) -> (r: Vec<String>)
    ensures
        text::texts(r@) == locale_chain(
            match locale {
                Some(raw) => Some(raw@),
                None => None,
            },
        ),
{
    let mut chain: Vec<String> = Vec::new();
    let raw = match locale {
        Some(raw) => raw,
        None => {
            chain.push("en".to_owned());
            assert(text::texts(chain@) =~= seq!["en"@]);
            return chain;
        },
    };
    let normalized = replace_char(raw, '_', '-');
    chain.push(normalized.clone());
    match head_before(normalized.as_str(), '-') {
        Some(base) => {
            chain.push(base);
        },
        None => {},
    }
    chain.push("en".to_owned());
    assert(text::texts(chain@) =~= locale_chain(Some(raw@)));
    chain
}

/// The text under a key in the first of several locale maps that holds it.
pub open spec fn first_text(maps: Seq<Option<Seq<(Seq<char>, Seq<char>)>>>, key: Seq<char>, i: int)
    -> Option<Seq<char>>
    decreases maps.len() - i,
{
    if i < 0 || i >= maps.len() {
        None
    } else {
        match maps[i] {
            Some(map) => match entries::lookup(map, key) {
                Some(text) => Some(text),
                None => first_text(maps, key, i + 1),
            },
            None => first_text(maps, key, i + 1),
        }
    }
}

/// The texts of the locales of a chain, viewed.
pub open spec fn maps_view(maps: Seq<Option<Vec<(String, String)>>>) -> Seq<
    Option<Seq<(Seq<char>, Seq<char>)>>,
> {
    Seq::new(maps.len(), |i: int| opt_map(maps[i]))
}

/// The text of a key, or else a fallback.
pub open spec fn pack_text(
    maps: Seq<Option<Seq<(Seq<char>, Seq<char>)>>>,
    key: Seq<char>,
    fallback: Option<Seq<char>>,
) -> Option<Seq<char>> {
    match first_text(maps, key, 0) {
        Some(text) => Some(text),
        None => fallback,
    }
}

/// The text of a key in the locale maps of a chain, or else a fallback. A locale
/// without a map that can be read has none.
pub fn resolve_pack_i18n_text(
    maps: &Vec<Option<Vec<(String, String)>>>,
    key: &str,
    fallback: &Option<String>,
) -> (r: Option<String>)
    ensures
        text::opt_text(r) == pack_text(maps_view(maps@), key@, text::opt_text(*fallback)),
{
    let ghost views = maps_view(maps@);
    let mut i: usize = 0;
    while i < maps.len()
        invariant
            i <= maps@.len(),
            views == maps_view(maps@),
            first_text(views, key@, 0) == first_text(views, key@, i as int),
        decreases maps.len() - i,
    {
        assert(views[i as int] == opt_map(maps@[i as int]));
        match &maps[i] {
            Some(map) => match entries::text_at(map, key) {
                Some(text) => {
                    return Some(text);
                },
                None => {},
            },
            None => {},
        }
        i += 1;
    }
    text::copy_opt(fallback)
}

/// Whether a question, or a field of its list, uses a translation key.
pub open spec fn uses_key(question: QuestionView, key: Seq<char>) -> bool
    decreases question, 0int,
{
    question.title_i18n == Some(key) || question.description_i18n == Some(key)
        || match question.list {
        Some(list) => some_uses_key(list.fields, list.fields.len() as int, key),
        None => false,
    }
}

/// Whether one of the first `n` questions uses a translation key.
pub open spec fn some_uses_key(questions: Seq<QuestionView>, n: int, key: Seq<char>) -> bool
    decreases questions, n,
{
    if n <= 0 || n > questions.len() {
        false
    } else {
        uses_key(questions[n - 1], key) || some_uses_key(questions, n - 1, key)
    }
}

proof fn lemma_with_opt(set: Seq<Seq<char>>, text: Option<Seq<char>>)
    requires
        entries::increasing(set),
    ensures
        entries::increasing(with_opt(set, text)),
        forall|x: Seq<char>| #[trigger]
            with_opt(set, text).contains(x) <==> (set.contains(x) || text == Some(x)),
{
    if text is Some {
        entries::lemma_with_member(set, text->0);
    }
}

proof fn lemma_question_keys(set: Seq<Seq<char>>, question: QuestionView, key: Seq<char>)
    requires
        entries::increasing(set),
    ensures
        entries::increasing(with_question_keys(set, question)),
        with_question_keys(set, question).contains(key) <==> (set.contains(key) || uses_key(
            question,
            key,
        )),
    decreases question, 0int,
{
    lemma_with_opt(set, question.title_i18n);
    let titled = with_opt(set, question.title_i18n);
    lemma_with_opt(titled, question.description_i18n);
    let own = with_opt(titled, question.description_i18n);
    assert(own.contains(key) <==> (titled.contains(key) || question.description_i18n == Some(key)));
    assert(titled.contains(key) <==> (set.contains(key) || question.title_i18n == Some(key)));
    if question.list is Some {
        let fields = question.list->0.fields;
        lemma_keys(own, fields, fields.len() as int, key);
    }
}

proof fn lemma_keys(set: Seq<Seq<char>>, questions: Seq<QuestionView>, n: int, key: Seq<char>)
    requires
        entries::increasing(set),
        0 <= n <= questions.len(),
    ensures
        entries::increasing(with_keys(set, questions, n)),
        with_keys(set, questions, n).contains(key) <==> (set.contains(key) || some_uses_key(
            questions,
            n,
            key,
        )),
    decreases questions, n,
{
    if n > 0 {
        lemma_keys(set, questions, n - 1, key);
        lemma_question_keys(with_keys(set, questions, n - 1), questions[n - 1], key);
    }
}

/// The keys that are checked are those that the form uses, in order and once
/// each.
pub proof fn law_form_keys(spec: FormView, key: Seq<char>)
    ensures
        entries::increasing(form_keys(spec)),
        form_keys(spec).contains(key) <==> some_uses_key(
            spec.questions,
            spec.questions.len() as int,
            key,
        ),
{
    lemma_keys(Seq::empty(), spec.questions, spec.questions.len() as int, key);
}

proof fn lemma_absent_keys(
    keys: Seq<Seq<char>>,
    map: Seq<(Seq<char>, Seq<char>)>,
    key: Seq<char>,
)
    ensures
        absent_keys(keys, map).contains(key) <==> (keys.contains(key) && !entries::view_keys(
            map,
        ).contains(key)),
    decreases keys.len(),
{
    if keys.len() > 0 {
        let front = keys.drop_last();
        let before = absent_keys(front, map);
        let all = absent_keys(keys, map);
        lemma_absent_keys(front, map, key);
        if front.contains(key) {
            let k = choose|k: int| 0 <= k < front.len() && front[k] == key;
            assert(keys[k] == key);
        }
        if before.contains(key) {
            let k = choose|k: int| 0 <= k < before.len() && before[k] == key;
            assert(all[k] == key);
        }
        if keys.contains(key) && !front.contains(key) {
            let k = choose|k: int| 0 <= k < keys.len() && keys[k] == key;
            if k < front.len() {
                assert(front[k] == key);
            }
            assert(keys.last() == key);
            if !entries::view_keys(map).contains(key) {
                assert(all.last() == key);
            }
        }
        if all.contains(key) && !before.contains(key) {
            let k = choose|k: int| 0 <= k < all.len() && all[k] == key;
            assert(k == before.len());
            assert(keys[keys.len() - 1] == key);
        }
    }
}

/// A form whose English texts can be read is accepted if and only if every
/// translation key that it uses has an English text.
pub proof fn law_english_texts_complete(
    rules: RulesView,
    spec: FormView,
    path: Seq<char>,
    raw: String,
    map: Seq<(Seq<char>, Seq<char>)>,
)
    requires
        json_text::text_map_of(raw@) == Ok::<Seq<(Seq<char>, Seq<char>)>, Seq<char>>(map),
    ensures
        english_fault(rules, spec, path, LocaleFile::Text(raw)) is None <==> forall|key: Seq<char>|
            some_uses_key(spec.questions, spec.questions.len() as int, key)
                ==> #[trigger] entries::view_keys(map).contains(key),
{
    let keys = form_keys(spec);
    let missing = absent_keys(keys, map);
    let n = spec.questions.len() as int;
    if missing.len() > 0 {
        let key = missing[0];
        assert(missing.contains(key));
        lemma_absent_keys(keys, map, key);
        law_form_keys(spec, key);
        assert(some_uses_key(spec.questions, n, key));
        assert(!entries::view_keys(map).contains(key));
        assert(keys.len() > 0);
    } else {
        assert forall|key: Seq<char>| some_uses_key(spec.questions, n, key) implies #[trigger]
            entries::view_keys(map).contains(key) by {
            law_form_keys(spec, key);
            lemma_absent_keys(keys, map, key);
            if !entries::view_keys(map).contains(key) {
                assert(missing.contains(key));
            }
        }
    }
}

/// The text of the locale that comes first in the chain is taken, where it has
/// one.
pub proof fn law_first_locale_wins(
    maps: Seq<Option<Seq<(Seq<char>, Seq<char>)>>>,
    key: Seq<char>,
    fallback: Option<Seq<char>>,
    at: int,
)
    requires
        0 <= at < maps.len(),
        maps[at] is Some,
        entries::lookup(maps[at]->0, key) is Some,
        forall|i: int|
            0 <= i < at ==> (#[trigger] maps[i] is None || entries::lookup(maps[i]->0, key) is None),
    ensures
        pack_text(maps, key, fallback) == entries::lookup(maps[at]->0, key),
{
    lemma_first_text(maps, key, 0, at);
}

proof fn lemma_first_text(
    maps: Seq<Option<Seq<(Seq<char>, Seq<char>)>>>,
    key: Seq<char>,
    from: int,
    at: int,
)
    requires
        0 <= from <= at < maps.len(),
        maps[at] is Some,
        entries::lookup(maps[at]->0, key) is Some,
        forall|i: int|
            0 <= i < at ==> (#[trigger] maps[i] is None || entries::lookup(maps[i]->0, key) is None),
    ensures
        first_text(maps, key, from) == entries::lookup(maps[at]->0, key),
    decreases at - from,
{
    if from < at {
        lemma_first_text(maps, key, from + 1, at);
    }
}

/// English is the last locale that is tried, whatever is asked for.
pub proof fn law_chain_ends_in_english(locale: Option<Seq<char>>)
    ensures
        locale_chain(locale).len() > 0,
        locale_chain(locale).last() == "en"@,
        locale matches Some(raw) ==> locale_chain(locale)[0] == text::with_char_replaced(
            raw,
            '_',
            '-',
        ),
{
}

/// An asset that is found at a place is taken from there, where all places
/// before it are empty.
pub proof fn law_first_asset_taken(
    candidates: Seq<Seq<char>>,
    attempts: Seq<AttemptView>,
    from: int,
    at: int,
    last: FaultView,
)
    requires
        0 <= from <= at < candidates.len(),
        at < attempts.len(),
        attempts[at] is Found,
        forall|i: int| from <= i < at ==> #[trigger] attempts[i] is NotFound,
    ensures
        asset_found(candidates, attempts, from, last) == Ok::<(Seq<char>, Seq<char>), FaultView>(
            (attempts[at]->Found_0, candidates[at]),
        ),
    decreases at - from,
{
    if from < at {
        assert(attempts[from] is NotFound);
        law_first_asset_taken(
            candidates,
            attempts,
            from + 1,
            at,
            FaultView::QaFormRead {
                path: candidates[from],
                details: attempts[from]->NotFound_0,
            },
        );
    }
}

/// A question uses a key for its title, for its description, or in one of the fields
/// of its list.
pub proof fn law_used_keys(question: QuestionView, key: Seq<char>)
    ensures
        uses_key(question, key) <==> {
            ||| question.title_i18n == Some(key)
            ||| question.description_i18n == Some(key)
            ||| question.list is Some && exists|i: int|
                0 <= i < question.list->0.fields.len() && uses_key(
                    #[trigger] question.list->0.fields[i],
                    key,
                )
        },
{
    if question.list is Some {
        law_some_use_key(question.list->0.fields, question.list->0.fields.len() as int, key);
    }
}

/// Some of the first questions use a key where one of them does.
pub proof fn law_some_use_key(questions: Seq<QuestionView>, n: int, key: Seq<char>)
    requires
        0 <= n <= questions.len(),
    ensures
        some_uses_key(questions, n, key) <==> exists|i: int|
            0 <= i < n && uses_key(#[trigger] questions[i], key),
    decreases n,
{
    if n > 0 {
        law_some_use_key(questions, n - 1, key);
        if uses_key(questions[n - 1], key) {
            assert(0 <= n - 1 < n && uses_key(questions[n - 1], key));
        }
    }
}

/// The path of a form is the one that the configuration gives, without the white
/// space around it. There is none where the configuration is blank, cannot be read,
/// or gives a blank path or none.
pub proof fn law_form_path(config_json: Seq<char>, config: Result<ComponentConfig, String>)
    ensures
        ({
            let path = form_path_of(config_json, config);
            let given = config->Ok_0.qa_form_asset_path;
            let usable = !text::is_blank(config_json) && config is Ok && given is Some
                && !text::is_blank(given->0@);
            &&& path is Ok <==> usable
            &&& usable ==> path == Ok::<Seq<char>, FaultView>(text::trimmed(given->0@))
            &&& !text::is_blank(config_json) && config is Err ==> path == Err::<
                Seq<char>,
                FaultView,
            >(FaultView::ConfigParse(config->Err_0@))
            &&& !usable && !(!text::is_blank(config_json) && config is Err) ==> path == Err::<
                Seq<char>,
                FaultView,
            >(FaultView::MissingQaFormAssetPath)
        }),
{
}

/// Forms are registered under their names where each is JSON. The later of two with
/// one name is registered.
pub proof fn law_registry(
    texts: Seq<(Seq<char>, Seq<char>)>,
    name: Seq<char>,
    text: Seq<char>,
    other: Seq<char>,
)
    ensures
        ({
            let before = registry_of(texts, 0, Seq::empty());
            let more = registry_of(texts.push((name, text)), 0, Seq::empty());
            &&& before is Err ==> more == before
            &&& before is Ok ==> match json_text::json_of_text(text) {
                Ok(value) => {
                    &&& more is Ok
                    &&& entries::lookup(more->Ok_0, name) == Some(value)
                    &&& other != name ==> entries::lookup(more->Ok_0, other) == entries::lookup(
                        before->Ok_0,
                        other,
                    )
                },
                Err(details) => more == Err::<Seq<(Seq<char>, JsonView)>, FaultView>(
                    FaultView::ConfigParse(details),
                ),
            }
        }),
        registry_of(seq![], 0, Seq::empty()) == Ok::<Seq<(Seq<char>, JsonView)>, FaultView>(
            Seq::empty(),
        ),
{
    lemma_registry_of_more(texts, name, text, 0, Seq::empty());
    let before = registry_of(texts, 0, Seq::empty());
    if before is Ok && json_text::json_of_text(text) is Ok {
        let value = json_text::json_of_text(text)->Ok_0;
        entries::law_put_then_lookup(before->Ok_0, name, value);
        if other != name {
            entries::law_put_keeps_others(before->Ok_0, name, value, other);
        }
    }
}

proof fn lemma_registry_of_more(
    texts: Seq<(Seq<char>, Seq<char>)>,
    name: Seq<char>,
    text: Seq<char>,
    i: int,
    registry: Seq<(Seq<char>, JsonView)>,
)
    requires
        0 <= i <= texts.len(),
    ensures
        registry_of(texts.push((name, text)), i, registry) == match registry_of(
            texts,
            i,
            registry,
        ) {
            Err(fault) => Err(fault),
            Ok(before) => match json_text::json_of_text(text) {
                Ok(value) => Ok(entries::put(before, name, value)),
                Err(details) => Err(FaultView::ConfigParse(details)),
            },
        },
    decreases texts.len() - i,
{
    reveal_with_fuel(registry_of, 2);
    let more = texts.push((name, text));
    if i < texts.len() {
        assert(more[i] == texts[i]);
        if json_text::json_of_text(texts[i].1) is Ok {
            lemma_registry_of_more(
                texts,
                name,
                text,
                i + 1,
                entries::put(registry, texts[i].0, json_text::json_of_text(texts[i].1)->Ok_0),
            );
        }
    } else {
        assert(more[i] == (name, text));
    }
}

/// A form's file holds its value. Where forms are registered, those that it names are
/// put in.
pub proof fn law_form_value(
    texts: Seq<(Seq<char>, Seq<char>)>,
    raw: Seq<char>,
    path: Seq<char>,
)
    ensures
        ({
            let value = json_text::json_of_text(raw);
            let registry = registry_of(texts, 0, Seq::empty());
            let told = form_value_of(texts, raw, path);
            &&& value matches Err(details) ==> told == Err::<(JsonView, Seq<char>), FaultView>(
                FaultView::QaFormParse { path, details },
            )
            &&& value is Ok && registry is Err ==> told == Err::<(JsonView, Seq<char>), FaultView>(
                registry->Err_0,
            )
            &&& value is Ok && texts.len() == 0 ==> told == Ok::<(JsonView, Seq<char>), FaultView>(
                (value->Ok_0, path),
            )
            &&& value is Ok && registry is Ok && registry->Ok_0.len() > 0
                ==> match inclusion::expanded(value->Ok_0, registry->Ok_0) {
                Ok(expanded) => told == Ok::<(JsonView, Seq<char>), FaultView>((expanded, path)),
                Err(details) => told == Err::<(JsonView, Seq<char>), FaultView>(
                    FaultView::Include(details),
                ),
            }
        }),
{
}

/// A form is loaded where the configuration gives its path and its file was found.
pub proof fn law_loading(
    config_json: Seq<char>,
    config: Result<ComponentConfig, String>,
    asset: Result<(Seq<char>, Seq<char>), FaultView>,
)
    ensures
        ({
            let told = loading(config_json, config, asset);
            let path = form_path_of(config_json, config);
            &&& path is Err ==> told == Err::<(JsonView, Seq<char>), FaultView>(path->Err_0)
            &&& path is Ok && asset is Err ==> told == Err::<(JsonView, Seq<char>), FaultView>(
                asset->Err_0,
            )
            &&& path is Ok ==> (asset matches Ok((raw, at)) ==> told == form_value_of(
                entries::text_entries(config->Ok_0.include_registry@),
                raw,
                at,
            ))
        }),
{
}

/// A file that could not be read is told, and those behind it are not tried. Where
/// none is found, the last one is told.
pub proof fn law_asset_faults(
    candidates: Seq<Seq<char>>,
    attempts: Seq<AttemptView>,
    from: int,
    at: int,
    last: FaultView,
)
    requires
        0 <= from <= at < candidates.len(),
        at < attempts.len(),
        forall|i: int| from <= i < at ==> #[trigger] attempts[i] is NotFound,
    ensures
        attempts[at] matches AttemptView::Failed(details) ==> asset_found(
            candidates,
            attempts,
            from,
            last,
        ) == Err::<(Seq<char>, Seq<char>), FaultView>(
            FaultView::QaFormRead { path: candidates[at], details },
        ),
        at + 1 == candidates.len() ==> (attempts[at] matches AttemptView::NotFound(details)
            ==> asset_found(candidates, attempts, from, last) == Err::<
            (Seq<char>, Seq<char>),
            FaultView,
        >(FaultView::QaFormRead { path: candidates[at], details })),
    decreases at - from,
{
    reveal_with_fuel(asset_found, 2);
    if from < at {
        assert(attempts[from] is NotFound);
        law_asset_faults(
            candidates,
            attempts,
            from + 1,
            at,
            FaultView::QaFormRead { path: candidates[from], details: attempts[from]->NotFound_0 },
        );
    }
}

/// A locale's file holds its texts, or there are none where it is not there. What is
/// wrong with it is told with its path.
pub proof fn law_locale_files(path: Seq<char>, raw: String, details: String)
    ensures
        locale_entries(path, LocaleFile::Absent) == Ok::<
            Option<Seq<(Seq<char>, Seq<char>)>>,
            FaultView,
        >(None),
        locale_entries(path, LocaleFile::Unreadable(details)) == Err::<
            Option<Seq<(Seq<char>, Seq<char>)>>,
            FaultView,
        >(FaultView::I18nRead { path, details: details@ }),
        json_text::text_map_of(raw@) matches Ok(map) ==> locale_entries(path, LocaleFile::Text(raw))
            == Ok::<Option<Seq<(Seq<char>, Seq<char>)>>, FaultView>(Some(map)),
        json_text::text_map_of(raw@) matches Err(wrong) ==> locale_entries(
            path,
            LocaleFile::Text(raw),
        ) == Err::<Option<Seq<(Seq<char>, Seq<char>)>>, FaultView>(
            FaultView::I18nParse { path, details: wrong },
        ),
{
}

/// A form that uses no key needs no English texts. One that uses a key needs the
/// file, and where keys are missing from it they are told.
pub proof fn law_english_texts_needed(
    rules: RulesView,
    spec: FormView,
    path: Seq<char>,
    english: LocaleFile,
)
    ensures
        ({
            let fault = english_fault(rules, spec, path, english);
            let used = exists|key: Seq<char>| #[trigger] form_keys(spec).contains(key);
            &&& !used ==> fault is None
            &&& used && english is Absent ==> fault == Some(
                FaultView::MissingI18nEnglish {
                    form_path: path,
                    i18n_dir: paths::i18n_dir(rules, path),
                },
            )
            &&& used && english is Unreadable ==> fault is Some && fault->0 is I18nRead
            &&& fault is Some && english is Text && json_text::text_map_of(english->Text_0@) is Ok
                ==> fault->0 is MissingI18nKeys && fault->0->MissingI18nKeys_form_path == path
        }),
{
    let keys = form_keys(spec);
    if keys.len() > 0 {
        assert(keys.contains(keys[0]));
    }
}

/// The keys that are missing are told in the order of the keys.
pub proof fn law_absent_keys(
    keys: Seq<Seq<char>>,
    key: Seq<char>,
    map: Seq<(Seq<char>, Seq<char>)>,
)
    ensures
        entries::lookup(map, key) is Some ==> absent_keys(keys.push(key), map) == absent_keys(
            keys,
            map,
        ),
        entries::lookup(map, key) is None ==> absent_keys(keys.push(key), map) == absent_keys(
            keys,
            map,
        ).push(key),
        absent_keys(seq![], map).len() == 0,
{
    assert(keys.push(key).drop_last() =~= keys);
    entries::lemma_position(entries::view_keys(map), key);
}

/// A form is there where it was loaded, could be read, and has its English texts.
pub proof fn law_form_of(
    rules: RulesView,
    loaded: Result<(JsonView, Seq<char>), FaultView>,
    spec: Result<FormView, Seq<char>>,
    english: LocaleFile,
)
    ensures
        ({
            let form = form_of(rules, loaded, spec, english);
            &&& form matches Ok(found) ==> spec == Ok::<FormView, Seq<char>>(found)
            &&& loaded matches Err(fault) ==> form == Err::<FormView, FaultView>(fault)
            &&& loaded is Ok ==> (spec matches Err(details) ==> form == Err::<FormView, FaultView>(
                FaultView::ConfigParse(details),
            ))
            &&& loaded matches Ok((_, path)) ==> (spec matches Ok(found) ==> (form is Ok
                <==> english_fault(rules, found, path, english) is None))
            &&& loaded matches Ok((_, path)) ==> (spec matches Ok(found) ==> (form matches Err(
                fault,
            ) ==> english_fault(rules, found, path, english) == Some(fault)))
        }),
{
}

/// Texts are looked for in a locale, then in its language, and then in English.
pub proof fn law_locale_chain(locale: Seq<char>)
    ensures
        ({
            let tag = text::with_char_replaced(locale, '_', '-');
            let chain = locale_chain(Some(locale));
            &&& chain[0] == tag
            &&& tag.contains('-') ==> chain.len() == 3 && text::begins_with(
                tag,
                chain[1] + seq!['-'],
            ) && !chain[1].contains('-')
            &&& !tag.contains('-') ==> chain.len() == 2
            &&& chain.last() == "en"@
        }),
        locale_chain(None) == seq!["en"@],
{
    let tag = text::with_char_replaced(locale, '_', '-');
    text::law_cut(tag, '-');
    match text::cut(tag, '-') {
        Some((base, rest)) => {
            assert(tag.take((base.len() + 1) as int) =~= base + seq!['-']);
            assert(tag[base.len() as int] == '-');
        },
        None => {},
    }
}

/// A text that no locale has is the one that stands in its place.
pub proof fn law_text_of_no_locale(
    maps: Seq<Option<Seq<(Seq<char>, Seq<char>)>>>,
    key: Seq<char>,
    fallback: Option<Seq<char>>,
)
    requires
        forall|i: int|
            0 <= i < maps.len() ==> (#[trigger] maps[i] is None || entries::lookup(maps[i]->0, key)
                is None),
    ensures
        pack_text(maps, key, fallback) == fallback,
{
    lemma_no_text(maps, key, 0);
}

proof fn lemma_no_text(
    maps: Seq<Option<Seq<(Seq<char>, Seq<char>)>>>,
    key: Seq<char>,
    from: int,
)
    requires
        0 <= from <= maps.len(),
        forall|i: int|
            0 <= i < maps.len() ==> (#[trigger] maps[i] is None || entries::lookup(maps[i]->0, key)
                is None),
    ensures
        first_text(maps, key, from) is None,
    decreases maps.len() - from,
{
    if from < maps.len() {
        assert(maps[from] is None || entries::lookup(maps[from]->0, key) is None);
        lemma_no_text(maps, key, from + 1);
    }
}

} // verus!
