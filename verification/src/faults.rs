//! What can go wrong between a request and its form.
use crate::text::{cat, cat3, cat5};
use vstd::prelude::*;

verus! {

/// Why a request cannot be served.
#[derive(Debug, PartialEq)]
pub enum ComponentError {
    ConfigParse(String),
    MissingQaFormAssetPath,
    QaFormRead { path: String, details: String },
    QaFormParse { path: String, details: String },
    I18nRead { path: String, details: String },
    I18nParse { path: String, details: String },
    MissingI18nEnglish { form_path: String, i18n_dir: String },
    MissingI18nKeys { form_path: String, i18n_en_path: String, missing_keys: String },
    FormUnavailable(String),
    JsonEncode(String),
    Include(String),
    Store(String),
}

#[verifier::ext_equal]
pub enum FaultView {
    ConfigParse(Seq<char>),
    MissingQaFormAssetPath,
    QaFormRead { path: Seq<char>, details: Seq<char> },
    QaFormParse { path: Seq<char>, details: Seq<char> },
    I18nRead { path: Seq<char>, details: Seq<char> },
    I18nParse { path: Seq<char>, details: Seq<char> },
    MissingI18nEnglish { form_path: Seq<char>, i18n_dir: Seq<char> },
    MissingI18nKeys { form_path: Seq<char>, i18n_en_path: Seq<char>, missing_keys: Seq<char> },
    FormUnavailable(Seq<char>),
    JsonEncode(Seq<char>),
    Include(Seq<char>),
    Store(Seq<char>),
}

impl View for ComponentError {
    type V = FaultView;

    open spec fn view(&self) -> FaultView {
        match *self {
            ComponentError::ConfigParse(details) => FaultView::ConfigParse(details@),
            ComponentError::MissingQaFormAssetPath => FaultView::MissingQaFormAssetPath,
            ComponentError::QaFormRead { path, details } => FaultView::QaFormRead {
                path: path@,
                details: details@,
            },
            ComponentError::QaFormParse { path, details } => FaultView::QaFormParse {
                path: path@,
                details: details@,
            },
            ComponentError::I18nRead { path, details } => FaultView::I18nRead {
                path: path@,
                details: details@,
            },
            ComponentError::I18nParse { path, details } => FaultView::I18nParse {
                path: path@,
                details: details@,
            },
            ComponentError::MissingI18nEnglish { form_path, i18n_dir } =>
                FaultView::MissingI18nEnglish { form_path: form_path@, i18n_dir: i18n_dir@ },
            ComponentError::MissingI18nKeys { form_path, i18n_en_path, missing_keys } =>
                FaultView::MissingI18nKeys {
                form_path: form_path@,
                i18n_en_path: i18n_en_path@,
                missing_keys: missing_keys@,
            },
            ComponentError::FormUnavailable(id) => FaultView::FormUnavailable(id@),
            ComponentError::JsonEncode(details) => FaultView::JsonEncode(details@),
            ComponentError::Include(details) => FaultView::Include(details@),
            ComponentError::Store(details) => FaultView::Store(details@),
        }
    }
}

/// What a fault is reported as.
pub open spec fn fault_message(fault: FaultView) -> Seq<char> {
    match fault {
        FaultView::ConfigParse(details) => "failed to parse config/"@ + details,
        FaultView::MissingQaFormAssetPath =>
            "No QA form configured. Create one with `greentic-qa new` and reference its asset path."@,
        FaultView::QaFormRead { path, details } => "failed to read QA form asset; path='"@ + path
            + "'; details: "@ + details,
        FaultView::QaFormParse { path, details } => "failed to parse QA form asset '"@ + path
            + "': "@ + details,
        FaultView::I18nRead { path, details } => "failed to read i18n locale file '"@ + path
            + "': "@ + details,
        FaultView::I18nParse { path, details } => "failed to parse i18n locale file '"@ + path
            + "': "@ + details,
        FaultView::MissingI18nEnglish { form_path, i18n_dir } =>
            "missing i18n baseline file 'en.json' for QA form '"@ + form_path + "' under '"@
            + i18n_dir + "'"@,
        FaultView::MissingI18nKeys { form_path, i18n_en_path, missing_keys } => "QA form '"@
            + form_path + "' references i18n keys missing from '"@ + i18n_en_path + "': "@
            + missing_keys,
        FaultView::FormUnavailable(id) => "form '"@ + id + "' is not available"@,
        FaultView::JsonEncode(details) => "json encode error: "@ + details,
        FaultView::Include(details) => "include expansion failed: "@ + details,
        FaultView::Store(details) => "store apply failed: "@ + details,
    }
}

impl ComponentError {
    /// What the fault is reported as.
    pub fn message(&self) -> (r: String)
        ensures
            r@ == fault_message(self@),
    {
        match self {
            ComponentError::ConfigParse(details) => cat("failed to parse config/", details.as_str()),
            ComponentError::MissingQaFormAssetPath =>
                "No QA form configured. Create one with `greentic-qa new` and reference its asset path.".to_owned(),
            ComponentError::QaFormRead { path, details } => cat(
                cat3("failed to read QA form asset; path='", path.as_str(), "'; details: ").as_str(),
                details.as_str(),
            ),
            ComponentError::QaFormParse { path, details } => cat(
                cat3("failed to parse QA form asset '", path.as_str(), "': ").as_str(),
                details.as_str(),
            ),
            ComponentError::I18nRead { path, details } => cat(
                cat3("failed to read i18n locale file '", path.as_str(), "': ").as_str(),
                details.as_str(),
            ),
            ComponentError::I18nParse { path, details } => cat(
                cat3("failed to parse i18n locale file '", path.as_str(), "': ").as_str(),
                details.as_str(),
            ),
            ComponentError::MissingI18nEnglish { form_path, i18n_dir } => cat5(
                "missing i18n baseline file 'en.json' for QA form '",
                form_path.as_str(),
                "' under '",
                i18n_dir.as_str(),
                "'",
            ),
            ComponentError::MissingI18nKeys { form_path, i18n_en_path, missing_keys } => cat(
                cat5(
                    "QA form '",
                    form_path.as_str(),
                    "' references i18n keys missing from '",
                    i18n_en_path.as_str(),
                    "': ",
                ).as_str(),
                missing_keys.as_str(),
            ),
            ComponentError::FormUnavailable(id) => cat3("form '", id.as_str(), "' is not available"),
            ComponentError::JsonEncode(details) => cat("json encode error: ", details.as_str()),
            ComponentError::Include(details) => cat(
                "include expansion failed: ",
                details.as_str(),
            ),
            ComponentError::Store(details) => cat("store apply failed: ", details.as_str()),
        }
    }
}

impl Clone for ComponentError {
    fn clone(&self) -> (r: ComponentError)
        ensures
            r@ == self@,
    {
        match self {
            ComponentError::ConfigParse(details) => ComponentError::ConfigParse(details.clone()),
            ComponentError::MissingQaFormAssetPath => ComponentError::MissingQaFormAssetPath,
            ComponentError::QaFormRead { path, details } => ComponentError::QaFormRead {
                path: path.clone(),
                details: details.clone(),
            },
            ComponentError::QaFormParse { path, details } => ComponentError::QaFormParse {
                path: path.clone(),
                details: details.clone(),
            },
            ComponentError::I18nRead { path, details } => ComponentError::I18nRead {
                path: path.clone(),
                details: details.clone(),
            },
            ComponentError::I18nParse { path, details } => ComponentError::I18nParse {
                path: path.clone(),
                details: details.clone(),
            },
            ComponentError::MissingI18nEnglish { form_path, i18n_dir } =>
                ComponentError::MissingI18nEnglish {
                form_path: form_path.clone(),
                i18n_dir: i18n_dir.clone(),
            },
            ComponentError::MissingI18nKeys { form_path, i18n_en_path, missing_keys } =>
                ComponentError::MissingI18nKeys {
                form_path: form_path.clone(),
                i18n_en_path: i18n_en_path.clone(),
                missing_keys: missing_keys.clone(),
            },
            ComponentError::FormUnavailable(id) => ComponentError::FormUnavailable(id.clone()),
            ComponentError::JsonEncode(details) => ComponentError::JsonEncode(details.clone()),
            ComponentError::Include(details) => ComponentError::Include(details.clone()),
            ComponentError::Store(details) => ComponentError::Store(details.clone()),
        }
    }
}

/// The message of a fault ends with its details, and tells where it was found before
/// them.
pub proof fn law_messages_tell_details(path: Seq<char>, details: Seq<char>)
    ensures
        fault_message(FaultView::ConfigParse(details)) == "failed to parse config/"@ + details,
        fault_message(FaultView::JsonEncode(details)) == "json encode error: "@ + details,
        fault_message(FaultView::Include(details)) == "include expansion failed: "@ + details,
        fault_message(FaultView::Store(details)) == "store apply failed: "@ + details,
        fault_message(FaultView::FormUnavailable(details)) == "form '"@ + details
            + "' is not available"@,
        exists|head: Seq<char>, middle: Seq<char>|
            fault_message(FaultView::QaFormRead { path, details }) == #[trigger] (head + path
                + middle + details),
        exists|head: Seq<char>, middle: Seq<char>|
            fault_message(FaultView::QaFormParse { path, details }) == #[trigger] (head + path
                + middle + details),
        exists|head: Seq<char>, middle: Seq<char>|
            fault_message(FaultView::I18nRead { path, details }) == #[trigger] (head + path
                + middle + details),
        exists|head: Seq<char>, middle: Seq<char>|
            fault_message(FaultView::I18nParse { path, details }) == #[trigger] (head + path
                + middle + details),
{
    assert(fault_message(FaultView::QaFormRead { path, details })
        == "failed to read QA form asset; path='"@ + path + "'; details: "@ + details);
    assert(fault_message(FaultView::QaFormParse { path, details })
        == "failed to parse QA form asset '"@ + path + "': "@ + details);
    assert(fault_message(FaultView::I18nRead { path, details })
        == "failed to read i18n locale file '"@ + path + "': "@ + details);
    assert(fault_message(FaultView::I18nParse { path, details })
        == "failed to parse i18n locale file '"@ + path + "': "@ + details);
}

} // verus!
